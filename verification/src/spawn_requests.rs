//! Spawn orders passed from the level script to the enemy spawners.
//!
//! The script queues one-shot requests ("spawn N of this enemy there"),
//! and each enemy's spawner serves the first request made for it. The
//! script also switches continuous spawners on and off: one entry per enemy
//! name, a new entry replacing the previous one.
use vstd::prelude::*;
use crate::rng::same_name;

verus! {

/// A one-shot request: `count` enemies named `name` at `position`.
pub struct SpawnRequest<P> {
    pub name: &'static str,
    pub count: usize,
    pub position: P,
}

/// Requests not served yet, oldest first.
pub struct SpawnRequests<P> {
    pub queue: Vec<SpawnRequest<P>>,
}

/// Request `i` is the oldest one for `name`.
pub open spec fn is_first_request<P>(q: Seq<SpawnRequest<P>>, name: Seq<char>, i: int) -> bool {
    &&& 0 <= i < q.len()
    &&& q[i].name@ == name
    &&& forall|j: int| 0 <= j < i ==> q[j].name@ != name
}

/// Is a request for `name` waiting?
pub open spec fn has_request<P>(q: Seq<SpawnRequest<P>>, name: Seq<char>) -> bool {
    exists|i: int| 0 <= i < q.len() && q[i].name@ == name
}

/// Position of the oldest request for `name`, in a queue that has one.
pub open spec fn first_request_index<P>(q: Seq<SpawnRequest<P>>, name: Seq<char>) -> int {
    choose|i: int| is_first_request(q, name, i)
}

/// What serving `name` does to the queue `q`: the oldest request for
/// `name` comes out, the others stay in order.
pub open spec fn serve<P>(q: Seq<SpawnRequest<P>>, name: Seq<char>) -> (Option<SpawnRequest<P>>, Seq<SpawnRequest<P>>) {
    if has_request(q, name) {
        let i = first_request_index(q, name);
        (Some(q[i]), q.remove(i))
    } else {
        (None, q)
    }
}

/// A queue with a request for `name` has an oldest one.
pub proof fn lemma_first_request<P>(q: Seq<SpawnRequest<P>>, name: Seq<char>)
    requires
        has_request(q, name),
    ensures
        is_first_request(q, name, first_request_index(q, name)),
{
    let i = choose|i: int| 0 <= i < q.len() && q[i].name@ == name;
    lemma_first_request_below(q, name, i);
}

proof fn lemma_first_request_below<P>(q: Seq<SpawnRequest<P>>, name: Seq<char>, i: int)
    requires
        0 <= i < q.len(),
        q[i].name@ == name,
    ensures
        exists|k: int| is_first_request(q, name, k),
    decreases i,
{
    if forall|j: int| 0 <= j < i ==> q[j].name@ != name {
        assert(is_first_request(q, name, i));
    } else {
        let j = choose|j: int| 0 <= j < i && q[j].name@ == name;
        lemma_first_request_below(q, name, j);
    }
}

/// A request made when none was waiting for that enemy is the one its
/// spawner serves next, and serving it leaves the queue as it was before.
pub proof fn lemma_request_served<P>(q: Seq<SpawnRequest<P>>, r: SpawnRequest<P>)
    requires
        !has_request(q, r.name@),
    ensures
        serve(q.push(r), r.name@) == (Some(r), q),
{
    let p = q.push(r);
    assert(is_first_request(p, r.name@, q.len() as int));
    lemma_first_request(p, r.name@);
    let i = first_request_index(p, r.name@);
    if i < q.len() {
        assert(p[i] == q[i]);
    }
    assert(i == q.len());
    assert(p.remove(i) =~= q);
}

/// Serving an enemy leaves the requests of every other enemy untouched and
/// in order.
pub proof fn lemma_serve_keeps_others<P>(q: Seq<SpawnRequest<P>>, name: Seq<char>, other: Seq<char>)
    requires
        name != other,
    ensures
        serve(q, name).1.filter(|r: SpawnRequest<P>| r.name@ == other) == q.filter(
            |r: SpawnRequest<P>| r.name@ == other,
        ),
{
    if has_request(q, name) {
        lemma_first_request(q, name);
        let i = first_request_index(q, name);
        let pred = |r: SpawnRequest<P>| r.name@ == other;
        let a = q.subrange(0, i);
        let b = q.subrange(i + 1, q.len() as int);
        let x = seq![q[i]];
        assert(q =~= (a + x) + b);
        assert(q.remove(i) =~= a + b);
        Seq::filter_distributes_over_add(a + x, b, pred);
        Seq::filter_distributes_over_add(a, x, pred);
        Seq::filter_distributes_over_add(a, b, pred);
        assert(!pred(q[i]));
        assert(x.filter(pred) =~= Seq::<SpawnRequest<P>>::empty()) by {
            reveal_with_fuel(Seq::<_>::filter, 2);
        }
        assert(a.filter(pred) + x.filter(pred) =~= a.filter(pred));
    }
}

impl<P> SpawnRequests<P> {
    /// No request waiting.
    pub fn new() -> (r: Self)
        ensures
            r.queue@ == Seq::<SpawnRequest<P>>::empty(),
    {
        SpawnRequests { queue: Vec::new() }
    }

    /// Queues a request for `count` enemies named `name` at `position`.
    pub fn push(&mut self, name: &'static str, count: usize, position: P)
        ensures
            final(self).queue@ == old(self).queue@.push(SpawnRequest { name, count, position }),
    {
        self.queue.push(SpawnRequest { name, count, position });
    }

    /// Takes out the oldest request for `name`, if one is waiting.
    pub fn take_for(&mut self, name: &str) -> (r: Option<SpawnRequest<P>>)
        ensures
            (r, final(self).queue@) == serve(old(self).queue@, name@),
    {
        let mut i: usize = 0;
        while i < self.queue.len()
            invariant
                i <= self.queue.len(),
                self.queue@ == old(self).queue@,
                forall|j: int| 0 <= j < i ==> self.queue@[j].name@ != name@,
            decreases self.queue.len() - i,
        {
            if same_name(self.queue[i].name, name) {
                proof {
                    assert(is_first_request(self.queue@, name@, i as int));
                    lemma_first_request(self.queue@, name@);
                    let k = first_request_index(self.queue@, name@);
                    if k < i {
                        assert(self.queue@[k].name@ != name@);
                    }
                    if (i as int) < k {
                        assert(self.queue@[i as int].name@ != name@);
                    }
                }
                let req = self.queue.remove(i);
                return Some(req);
            }
            i = i + 1;
        }
        None
    }
}

/// A continuous spawner: `setting` is what the script set for it (wave
/// size, interval, position).
pub struct SpawnerEntry<V> {
    pub name: &'static str,
    pub setting: V,
}

/// Continuous spawners switched on by the script, one per enemy name.
pub struct ActiveSpawners<V> {
    entries: Vec<SpawnerEntry<V>>,
}

/// No two entries of `s` carry the same name.
pub open spec fn names_unique<V>(s: Seq<SpawnerEntry<V>>) -> bool {
    forall|i: int, j: int| 0 <= i < s.len() && 0 <= j < s.len() && i != j ==> s[i].name@ != s[j].name@
}

/// The spawners as a map from enemy name to setting.
pub open spec fn entries_map<V>(s: Seq<SpawnerEntry<V>>) -> Map<Seq<char>, V>
    decreases s.len(),
{
    if s.len() == 0 {
        Map::empty()
    } else {
        entries_map(s.drop_last()).insert(s.last().name@, s.last().setting)
    }
}

proof fn lemma_entries_map_dom<V>(s: Seq<SpawnerEntry<V>>, name: Seq<char>)
    requires
        names_unique(s),
    ensures
        entries_map(s).contains_key(name) <==> exists|i: int| 0 <= i < s.len() && s[i].name@ == name,
        forall|i: int| 0 <= i < s.len() && #[trigger] s[i].name@ == name ==> entries_map(s)[name] == s[i].setting,
    decreases s.len(),
{
    if s.len() > 0 {
        let t = s.drop_last();
        assert(names_unique(t));
        lemma_entries_map_dom(t, name);
        assert forall|i: int| 0 <= i < s.len() && #[trigger] s[i].name@ == name implies entries_map(s)[name]
            == s[i].setting by {
            if i < s.len() - 1 {
                assert(t[i] == s[i]);
                assert(s.last().name@ != name);
            }
        }
        if entries_map(s).contains_key(name) && s.last().name@ != name {
            let i = choose|i: int| 0 <= i < t.len() && t[i].name@ == name;
            assert(s[i] == t[i]);
        }
        if exists|i: int| 0 <= i < s.len() && s[i].name@ == name {
            let i = choose|i: int| 0 <= i < s.len() && s[i].name@ == name;
            if i < s.len() - 1 {
                assert(t[i] == s[i]);
            }
        }
    }
}

proof fn lemma_entries_map_remove<V>(s: Seq<SpawnerEntry<V>>, i: int)
    requires
        names_unique(s),
        0 <= i < s.len(),
    ensures
        names_unique(s.remove(i)),
        entries_map(s.remove(i)) == entries_map(s).remove(s[i].name@),
{
    let r = s.remove(i);
    s.remove_ensures(i);
    assert(names_unique(r)) by {
        assert forall|a: int, b: int| 0 <= a < r.len() && 0 <= b < r.len() && a != b implies r[a].name@ != r[b].name@ by {
            let ia = if a < i { a } else { a + 1 };
            let ib = if b < i { b } else { b + 1 };
            assert(r[a] == s[ia] && r[b] == s[ib]);
        }
    }
    let m1 = entries_map(r);
    let m2 = entries_map(s).remove(s[i].name@);
    assert forall|k: Seq<char>| #[trigger] m1.contains_key(k) <==> m2.contains_key(k) by {
        lemma_entries_map_dom(r, k);
        lemma_entries_map_dom(s, k);
        if m2.contains_key(k) {
            let j = choose|j: int| 0 <= j < s.len() && s[j].name@ == k;
            assert(j != i);
            let jr = if j < i { j } else { j - 1 };
            assert(r[jr] == s[j]);
        }
        if m1.contains_key(k) {
            let j = choose|j: int| 0 <= j < r.len() && r[j].name@ == k;
            let js = if j < i { j } else { j + 1 };
            assert(r[j] == s[js]);
        }
    }
    assert forall|k: Seq<char>| #[trigger] m1.contains_key(k) implies m1[k] == m2[k] by {
        lemma_entries_map_dom(r, k);
        lemma_entries_map_dom(s, k);
        let j = choose|j: int| 0 <= j < r.len() && r[j].name@ == k;
        let js = if j < i { j } else { j + 1 };
        assert(r[j] == s[js]);
    }
    assert(m1 =~= m2);
}

proof fn lemma_entries_map_push<V>(s: Seq<SpawnerEntry<V>>, e: SpawnerEntry<V>)
    requires
        names_unique(s),
        !entries_map(s).contains_key(e.name@),
    ensures
        names_unique(s.push(e)),
        entries_map(s.push(e)) == entries_map(s).insert(e.name@, e.setting),
{
    lemma_entries_map_dom(s, e.name@);
    let p = s.push(e);
    assert(p.drop_last() =~= s);
    assert forall|a: int, b: int| 0 <= a < p.len() && 0 <= b < p.len() && a != b implies p[a].name@ != p[b].name@ by {
        if a < s.len() && b < s.len() {
            assert(p[a] == s[a] && p[b] == s[b]);
        } else if a < s.len() {
            assert(p[a] == s[a]);
        } else {
            assert(p[b] == s[b]);
        }
    }
}

impl<V> ActiveSpawners<V> {
    /// The names are unique.
    pub closed spec fn wf(&self) -> bool {
        names_unique(self.entries@)
    }

    /// The spawners, by enemy name.
    pub closed spec fn spec_map(&self) -> Map<Seq<char>, V> {
        entries_map(self.entries@)
    }

    /// No spawner running.
    pub fn new() -> (s: Self)
        ensures
            s.wf(),
            s.spec_map() == Map::<Seq<char>, V>::empty(),
    {
        ActiveSpawners { entries: Vec::new() }
    }

    fn position_of(&self, name: &str) -> (r: Option<usize>)
        requires
            self.wf(),
        ensures
            r is None <==> !self.spec_map().contains_key(name@),
            r matches Some(i) ==> i < self.entries@.len() && self.entries@[i as int].name@ == name@,
    {
        proof {
            lemma_entries_map_dom(self.entries@, name@);
        }
        let mut i: usize = 0;
        while i < self.entries.len()
            invariant
                i <= self.entries.len(),
                self.wf(),
                forall|j: int| 0 <= j < i ==> self.entries@[j].name@ != name@,
            decreases self.entries.len() - i,
        {
            if same_name(self.entries[i].name, name) {
                proof {
                    lemma_entries_map_dom(self.entries@, name@);
                    assert(self.entries@[i as int].name@ == name@);
                }
                return Some(i);
            }
            i = i + 1;
        }
        None
    }

    /// Switches on (or re-sets) the spawner of `name`.
    pub fn insert(&mut self, name: &'static str, setting: V)
        requires
            old(self).wf(),
        ensures
            final(self).wf(),
            final(self).spec_map() == old(self).spec_map().insert(name@, setting),
    {
        match self.position_of(name) {
            Some(i) => {
                proof {
                    lemma_entries_map_remove(self.entries@, i as int);
                }
                let ghost before = self.spec_map();
                self.entries.remove(i);
                proof {
                    lemma_entries_map_dom(self.entries@, name@);
                    lemma_entries_map_push(self.entries@, SpawnerEntry { name, setting });
                    assert(before.remove(name@).insert(name@, setting) =~= before.insert(name@, setting));
                }
                self.entries.push(SpawnerEntry { name, setting });
            },
            None => {
                proof {
                    lemma_entries_map_push(self.entries@, SpawnerEntry { name, setting });
                }
                self.entries.push(SpawnerEntry { name, setting });
            },
        }
    }

    /// Switches off the spawner of `name`, if it runs.
    pub fn remove(&mut self, name: &str)
        requires
            old(self).wf(),
        ensures
            final(self).wf(),
            final(self).spec_map() == old(self).spec_map().remove(name@),
    {
        match self.position_of(name) {
            Some(i) => {
                proof {
                    lemma_entries_map_remove(self.entries@, i as int);
                }
                self.entries.remove(i);
            },
            None => {
                proof {
                    assert(self.spec_map().remove(name@) =~= self.spec_map());
                }
            },
        }
    }

    /// Setting of the spawner of `name`, if it runs.
    pub fn get(&self, name: &str) -> (r: Option<&V>)
        requires
            self.wf(),
        ensures
            r is None <==> !self.spec_map().contains_key(name@),
            r matches Some(v) ==> *v == self.spec_map()[name@],
    {
        proof {
            lemma_entries_map_dom(self.entries@, name@);
        }
        match self.position_of(name) {
            Some(i) => Some(&self.entries[i].setting),
            None => None,
        }
    }
}

/// Switching a spawner on and reading it gives back its setting; switching
/// it off leaves it off; neither touches the other spawners.
pub proof fn lemma_spawners_read_back<V>(m: Map<Seq<char>, V>, name: Seq<char>, other: Seq<char>, setting: V)
    requires
        name != other,
    ensures
        m.insert(name, setting).contains_key(name) && m.insert(name, setting)[name] == setting,
        !m.remove(name).contains_key(name),
        m.insert(name, setting).contains_key(other) == m.contains_key(other),
        m.contains_key(other) ==> m.insert(name, setting)[other] == m[other],
        m.remove(name).contains_key(other) == m.contains_key(other),
        m.contains_key(other) ==> m.remove(name)[other] == m[other],
{
}

} // verus!
