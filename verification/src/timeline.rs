//! Level timeline: a declarative sequence of steps.
//!
//! A level is a list of `LevelStep`s. Each step has a trigger (an absolute
//! time, a delay after the previous step, or a delay after a named step)
//! and a list of actions. The `LevelRunner` walks the steps in order and
//! reports which steps fire; the game executes their actions.
//!
//! Times are in milliseconds of game time.
use vstd::prelude::*;
use crate::rng::same_name;

verus! {

/// When a step fires.
#[derive(Clone, Copy, Debug, PartialEq, Eq)]
pub enum Trigger {
    /// At an absolute game time (ms since the level started).
    AtTime(u64),
    /// A delay (ms) after the previous step fired.
    AfterPrevious(u64),
    /// A delay (ms) after the step with the given label fired; waits as
    /// long as that step has not fired.
    After(&'static str, u64),
}

/// A step of the level: a label (debug), a trigger and actions.
#[derive(Debug)]
pub struct LevelStep<A> {
    pub label: &'static str,
    pub trigger: Trigger,
    pub actions: Vec<A>,
}

impl<A> LevelStep<A> {
    /// A step that fires at an absolute time.
    pub fn at(time_ms: u64, label: &'static str) -> (s: Self)
        ensures
            s.label == label,
            s.trigger == Trigger::AtTime(time_ms),
            s.actions@ == Seq::<A>::empty(),
    {
        LevelStep { label, trigger: Trigger::AtTime(time_ms), actions: Vec::new() }
    }

    /// A step that fires `delay_ms` after the previous one.
    pub fn after(delay_ms: u64, label: &'static str) -> (s: Self)
        ensures
            s.label == label,
            s.trigger == Trigger::AfterPrevious(delay_ms),
            s.actions@ == Seq::<A>::empty(),
    {
        LevelStep { label, trigger: Trigger::AfterPrevious(delay_ms), actions: Vec::new() }
    }

    /// A step that fires `delay_ms` after the step labelled `ref_label`.
    pub fn after_step(ref_label: &'static str, delay_ms: u64, label: &'static str) -> (s: Self)
        ensures
            s.label == label,
            s.trigger == Trigger::After(ref_label, delay_ms),
            s.actions@ == Seq::<A>::empty(),
    {
        LevelStep { label, trigger: Trigger::After(ref_label, delay_ms), actions: Vec::new() }
    }

    /// Appends an action to the step.
    pub fn with(self, action: A) -> (s: Self)
        ensures
            s.label == self.label,
            s.trigger == self.trigger,
            s.actions@ == self.actions@.push(action),
    {
        let mut s = self;
        s.actions.push(action);
        s
    }
}

/// Time at which the last of the first `k` steps labelled `label` fired
/// (`times[j]` is the firing time of step `j`); `None` if none of them
/// carries that label.
pub open spec fn fired_time<A>(steps: Seq<LevelStep<A>>, times: Seq<u64>, label: Seq<char>, k: int) -> Option<u64>
    decreases k,
{
    if k <= 0 {
        None
    } else if steps[k - 1].label@ == label {
        Some(times[k - 1])
    } else {
        fired_time(steps, times, label, k - 1)
    }
}

/// Does step `k` fire at game time `elapsed`, given that the previous step
/// fired at `last` and the first `times.len()` steps fired at `times`?
pub open spec fn step_fires<A>(steps: Seq<LevelStep<A>>, times: Seq<u64>, elapsed: int, last: int, k: int) -> bool {
    match steps[k].trigger {
        Trigger::AtTime(t) => elapsed >= t,
        Trigger::AfterPrevious(d) => elapsed >= last + d,
        Trigger::After(label, d) => match fired_time(steps, times, label@, times.len() as int) {
            Some(rt) => elapsed >= rt + d,
            None => false,
        },
    }
}

/// The firing time of a label over the first `k` steps is that of the
/// last of them carrying the label, and there is none exactly when none of
/// them carries it.
pub proof fn lemma_fired_time_meaning<A>(steps: Seq<LevelStep<A>>, times: Seq<u64>, label: Seq<char>, k: int)
    requires
        0 <= k <= steps.len(),
        k <= times.len(),
    ensures
        fired_time(steps, times, label, k) is None <==> forall|j: int| 0 <= j < k ==> steps[j].label@ != label,
        fired_time(steps, times, label, k) matches Some(t) ==> exists|j: int|
            0 <= j < k && steps[j].label@ == label && times[j] == t && forall|m: int|
                j < m < k ==> steps[m].label@ != label,
    decreases k,
{
    if k > 0 {
        lemma_fired_time_meaning(steps, times, label, k - 1);
        if steps[k - 1].label@ != label {
            if fired_time(steps, times, label, k - 1) is Some {
                let t = fired_time(steps, times, label, k - 1)->0;
                let j = choose|j: int|
                    0 <= j < k - 1 && steps[j].label@ == label && times[j] == t && forall|m: int|
                        j < m < k - 1 ==> steps[m].label@ != label;
                assert(forall|m: int| j < m < k ==> steps[m].label@ != label);
            }
        }
    }
}

/// What makes the next step fire: an absolute time once the game clock has
/// reached it; a delay after the previous step once that delay has passed
/// since the previous step fired; a delay after a labelled step once that
/// delay has passed since the last run step with that label fired, and
/// never while no run step carries that label.
pub proof fn lemma_step_fires_meaning<A>(steps: Seq<LevelStep<A>>, times: Seq<u64>, elapsed: int, last: int, k: int)
    requires
        0 <= k < steps.len(),
        times.len() <= steps.len(),
    ensures
        steps[k].trigger matches Trigger::AtTime(t) ==> (step_fires(steps, times, elapsed, last, k) <==> elapsed >= t),
        steps[k].trigger matches Trigger::AfterPrevious(d) ==> (step_fires(steps, times, elapsed, last, k)
            <==> elapsed >= last + d),
        steps[k].trigger matches Trigger::After(label, d) ==> {
            &&& (forall|j: int| 0 <= j < times.len() ==> steps[j].label@ != label@) ==> !step_fires(
                steps,
                times,
                elapsed,
                last,
                k,
            )
            &&& step_fires(steps, times, elapsed, last, k) ==> exists|j: int|
                0 <= j < times.len() && steps[j].label@ == label@ && elapsed >= times[j] + d
        },
{
    if let Trigger::After(label, d) = steps[k].trigger {
        lemma_fired_time_meaning(steps, times, label@, times.len() as int);
    }
}

/// First index `k >= from` of a step labelled `label`, or `steps.len()`.
pub open spec fn first_label_from<A>(steps: Seq<LevelStep<A>>, label: Seq<char>, from: int) -> int
    decreases steps.len() - from,
{
    if from >= steps.len() {
        steps.len() as int
    } else if steps[from].label@ == label {
        from
    } else {
        first_label_from(steps, label, from + 1)
    }
}

proof fn lemma_first_label_from_bounds<A>(steps: Seq<LevelStep<A>>, label: Seq<char>, from: int)
    requires
        0 <= from <= steps.len(),
    ensures
        from <= first_label_from(steps, label, from) <= steps.len(),
        first_label_from(steps, label, from) < steps.len() ==> steps[first_label_from(steps, label, from)].label@ == label,
        forall|j: int| from <= j < first_label_from(steps, label, from) ==> steps[j].label@ != label,
    decreases steps.len() - from,
{
    if from < steps.len() && steps[from].label@ != label {
        lemma_first_label_from_bounds(steps, label, from + 1);
    }
}

/// Only the first `k` times count for `fired_time` over `k` steps.
proof fn lemma_fired_time_prefix<A>(steps: Seq<LevelStep<A>>, t1: Seq<u64>, t2: Seq<u64>, label: Seq<char>, k: int)
    requires
        0 <= k <= t1.len(),
        k <= t2.len(),
        forall|j: int| 0 <= j < k ==> t1[j] == t2[j],
    ensures
        fired_time(steps, t1, label, k) == fired_time(steps, t2, label, k),
    decreases k,
{
    if k > 0 {
        lemma_fired_time_prefix(steps, t1, t2, label, k - 1);
    }
}

/// Where the level stands in its steps: the runner's own bookkeeping.
#[derive(Debug)]
pub struct StepProgress<A> {
    /// The level's steps.
    steps: Vec<LevelStep<A>>,
    /// Index of the next step to run.
    current: usize,
    /// Time at which the last step fired.
    last_trigger_time: u64,
    /// Firing time of each step already run (one entry per step before
    /// `current`).
    fire_times: Vec<u64>,
}

/// Progress of the level along its steps.
#[derive(Debug)]
pub struct LevelRunner<A> {
    /// Game time elapsed (ms).
    pub elapsed: u64,
    /// The steps and which of them have run.
    pub progress: StepProgress<A>,
}

impl<A> LevelRunner<A> {
    /// The level's steps.
    pub closed spec fn steps_spec(&self) -> Seq<LevelStep<A>> {
        self.progress.steps@
    }

    /// Index of the next step to run.
    pub closed spec fn current_spec(&self) -> int {
        self.progress.current as int
    }

    /// Firing time of each step already run.
    pub closed spec fn times_spec(&self) -> Seq<u64> {
        self.progress.fire_times@
    }

    /// Game time elapsed (ms): the public field `elapsed`.
    pub open spec fn elapsed_spec(&self) -> int {
        self.elapsed as int
    }

    /// Time at which the last step fired.
    pub closed spec fn last_spec(&self) -> int {
        self.progress.last_trigger_time as int
    }

    /// The runner's bookkeeping is consistent: one firing time per step run.
    pub closed spec fn wf(&self) -> bool {
        &&& self.progress.current <= self.progress.steps@.len()
        &&& self.progress.fire_times@.len() == self.progress.current
    }

    /// A consistent runner has run between none and all of its steps, and
    /// holds one firing time per step run.
    pub proof fn lemma_wf_bounds(&self)
        requires
            self.wf(),
        ensures
            0 <= self.current_spec() <= self.steps_spec().len(),
            self.times_spec().len() == self.current_spec(),
    {
    }

    /// Firing time of the last run step labelled `label`.
    pub open spec fn trigger_time_spec(&self, label: Seq<char>) -> Option<u64> {
        fired_time(self.steps_spec(), self.times_spec(), label, self.current_spec())
    }

    /// Does the next step fire now?
    pub open spec fn next_fires(&self) -> bool {
        step_fires(
            self.steps_spec(),
            self.times_spec(),
            self.elapsed_spec(),
            self.last_spec(),
            self.current_spec(),
        )
    }

    /// A runner at the start of the level.
    pub fn new(steps: Vec<LevelStep<A>>) -> (r: Self)
        ensures
            r.wf(),
            r.steps_spec() == steps@,
            r.current_spec() == 0,
            r.elapsed_spec() == 0,
            r.last_spec() == 0,
    {
        LevelRunner { elapsed: 0, progress: StepProgress { steps, current: 0, last_trigger_time: 0, fire_times: Vec::new() } }
    }

    /// Have all steps run?
    pub fn is_finished(&self) -> (r: bool)
        requires
            self.wf(),
        ensures
            r == (self.current_spec() >= self.steps_spec().len()),
    {
        self.progress.current >= self.progress.steps.len()
    }

    /// The next step to run, if any.
    pub fn current_step(&self) -> (r: Option<&LevelStep<A>>)
        requires
            self.wf(),
        ensures
            self.current_spec() < self.steps_spec().len() ==> (r matches Some(s) && *s
                == self.steps_spec()[self.current_spec()]),
            self.current_spec() >= self.steps_spec().len() ==> r is None,
    {
        if self.progress.current < self.progress.steps.len() {
            Some(&self.progress.steps[self.progress.current])
        } else {
            None
        }
    }

    /// Label of the last step run, or "(aucune)" before the first one.
    pub fn last_label(&self) -> (r: &str)
        requires
            self.wf(),
        ensures
            self.current_spec() == 0 ==> r@ == "(aucune)"@,
            self.current_spec() > 0 ==> r == self.steps_spec()[self.current_spec() - 1].label,
    {
        if self.progress.current == 0 {
            "(aucune)"
        } else {
            self.progress.steps[self.progress.current - 1].label
        }
    }

    /// All steps of the level.
    pub fn steps(&self) -> (r: &[LevelStep<A>])
        ensures
            r@ == self.steps_spec(),
    {
        self.progress.steps.as_slice()
    }

    /// Index of the next step to run.
    pub fn current_index(&self) -> (r: usize)
        ensures
            r as int == self.current_spec(),
    {
        self.progress.current
    }

    /// Firing time of the step labelled `label` (of its last run, if the
    /// label is used by several steps), if it has run.
    pub fn trigger_time(&self, label: &str) -> (r: Option<u64>)
        requires
            self.wf(),
        ensures
            r == self.trigger_time_spec(label@),
    {
        let mut k = self.progress.current;
        while k > 0
            invariant
                k <= self.progress.current,
                self.wf(),
                fired_time(self.progress.steps@, self.progress.fire_times@, label@, self.progress.current as int)
                    == fired_time(self.progress.steps@, self.progress.fire_times@, label@, k as int),
            decreases k,
        {
            if same_name(self.progress.steps[k - 1].label, label) {
                return Some(self.progress.fire_times[k - 1]);
            }
            k = k - 1;
        }
        None
    }

    /// Does the next step fire at the current time?
    fn next_step_fires(&self) -> (r: bool)
        requires
            self.wf(),
            self.current_spec() < self.steps_spec().len(),
        ensures
            r == self.next_fires(),
    {
        match self.progress.steps[self.progress.current].trigger {
            Trigger::AtTime(t) => self.elapsed >= t,
            Trigger::AfterPrevious(delay) => match self.progress.last_trigger_time.checked_add(delay) {
                Some(due) => self.elapsed >= due,
                None => false,
            },
            Trigger::After(label, delay) => match self.trigger_time(label) {
                Some(ref_time) => match ref_time.checked_add(delay) {
                    Some(due) => self.elapsed >= due,
                    None => false,
                },
                None => false,
            },
        }
    }

    /// Marks the next step as run at time `at`.
    fn fire_next(&mut self, at: u64)
        requires
            old(self).wf(),
            old(self).current_spec() < old(self).steps_spec().len(),
        ensures
            final(self).wf(),
            final(self).steps_spec() == old(self).steps_spec(),
            final(self).current_spec() == old(self).current_spec() + 1,
            final(self).times_spec() == old(self).times_spec().push(at),
            final(self).last_spec() == at,
            final(self).elapsed_spec() == old(self).elapsed_spec(),
    {
        let n = self.progress.current;
        assert(n < self.progress.steps.len());
        self.progress.fire_times.push(at);
        self.progress.last_trigger_time = at;
        self.progress.current = n + 1;
    }

    /// Advances game time by `dt_ms` and runs, in order, every step whose
    /// trigger is reached; stops at the first step that does not fire yet.
    /// Returns the indices of the steps that fired (their actions are to be
    /// executed in that order).
    pub fn advance(&mut self, dt_ms: u64) -> (fired: Vec<usize>)
        requires
            old(self).wf(),
            old(self).elapsed_spec() + dt_ms <= u64::MAX,
        ensures
            final(self).wf(),
            final(self).steps_spec() == old(self).steps_spec(),
            final(self).elapsed_spec() == old(self).elapsed_spec() + dt_ms,
            old(self).current_spec() <= final(self).current_spec(),
            // The steps that fired are the ones between the old and the new
            // position, in order, all at the new time.
            fired@.len() == final(self).current_spec() - old(self).current_spec(),
            forall|j: int| 0 <= j < fired@.len() ==> fired@[j] == old(self).current_spec() + j,
            final(self).times_spec().take(old(self).current_spec()) == old(self).times_spec(),
            forall|j: int| old(self).current_spec() <= j < final(self).current_spec()
                ==> final(self).times_spec()[j] == final(self).elapsed_spec(),
            // Each of them fired on its own trigger, in the state left by the
            // ones before it.
            forall|j: int| old(self).current_spec() <= j < final(self).current_spec()
                ==> step_fires(
                    final(self).steps_spec(),
                    final(self).times_spec().take(j),
                    final(self).elapsed_spec() as int,
                    if j == old(self).current_spec() { old(self).last_spec() } else { final(self).elapsed_spec() as int },
                    j,
                ),
            // The runner stops at the first step that does not fire.
            final(self).current_spec() < final(self).steps_spec().len() ==> !final(self).next_fires(),
            final(self).current_spec() == old(self).current_spec() ==> final(self).last_spec() == old(self).last_spec(),
            final(self).current_spec() > old(self).current_spec() ==> final(self).last_spec() == final(self).elapsed_spec(),
    {
        self.elapsed = self.elapsed + dt_ms;
        let ghost start = self.progress.current as int;
        let ghost old_last = self.progress.last_trigger_time as int;
        let ghost old_times = self.progress.fire_times@;
        let mut fired: Vec<usize> = Vec::new();
        while self.progress.current < self.progress.steps.len()
            invariant
                self.wf(),
                self.progress.steps@ == old(self).progress.steps@,
                self.elapsed == old(self).elapsed_spec() + dt_ms,
                start == old(self).progress.current,
                old_last == old(self).progress.last_trigger_time,
                old_times == old(self).progress.fire_times@,
                start <= self.progress.current,
                fired@.len() == self.progress.current - start,
                forall|j: int| 0 <= j < fired@.len() ==> fired@[j] == start + j,
                self.progress.fire_times@.take(start) == old_times,
                forall|j: int| start <= j < self.progress.current ==> self.progress.fire_times@[j] == self.elapsed,
                forall|j: int| start <= j < self.progress.current ==> step_fires(
                    self.progress.steps@,
                    self.progress.fire_times@.take(j),
                    self.elapsed as int,
                    if j == start { old_last } else { self.elapsed as int },
                    j,
                ),
                self.progress.current == start ==> self.progress.last_trigger_time == old_last,
                self.progress.current > start ==> self.progress.last_trigger_time == self.elapsed,
            ensures
                self.progress.current < self.progress.steps@.len() ==> !self.next_fires(),
            decreases self.progress.steps@.len() - self.progress.current,
        {
            if !self.next_step_fires() {
                break;
            }
            let ghost before = self.progress.fire_times@;
            let ghost k = self.progress.current as int;
            let ghost last_before = self.progress.last_trigger_time as int;
            proof {
                assert(before.take(k) =~= before);
                assert(step_fires(self.progress.steps@, before, self.elapsed as int, last_before, k));
                assert(last_before == if k == start { old_last } else { self.elapsed as int });
                assert forall|j: int| start <= j < k implies step_fires(
                    self.progress.steps@,
                    before.take(j),
                    self.elapsed as int,
                    if j == start { old_last } else { self.elapsed as int },
                    j,
                ) by {}
            }
            let at = self.elapsed;
            let idx = self.progress.current;
            self.fire_next(at);
            fired.push(idx);
            proof {
                assert(self.progress.fire_times@.take(k) =~= before);
                assert forall|j: int| start <= j <= k implies step_fires(
                    self.progress.steps@,
                    self.progress.fire_times@.take(j),
                    self.elapsed as int,
                    if j == start { old_last } else { self.elapsed as int },
                    j,
                ) by {
                    assert(self.progress.fire_times@.take(j) =~= before.take(j));
                    if j == k {
                        assert(self.progress.fire_times@.take(j) =~= before);
                    }
                }
                assert(self.progress.fire_times@.take(start) =~= before.take(start));
            }
        }
        fired
    }

    /// Advances the runner up to the step labelled `label` (included),
    /// marking every step on the way as run at `at_time`, and returns their
    /// indices. If that label has already run, only moves the clock forward
    /// (to the later of `at_time` and the current time) and returns nothing.
    /// A label that no remaining step carries runs every remaining step.
    pub fn skip_to(&mut self, label: &str, at_time: u64) -> (fired: Vec<usize>)
        requires
            old(self).wf(),
        ensures
            final(self).wf(),
            final(self).steps_spec() == old(self).steps_spec(),
            old(self).trigger_time_spec(label@) is Some ==> {
                &&& fired@.len() == 0
                &&& final(self).elapsed_spec() == if at_time > old(self).elapsed_spec() { at_time as int } else { old(self).elapsed_spec() }
                &&& final(self).current_spec() == old(self).current_spec()
                &&& final(self).times_spec() == old(self).times_spec()
                &&& final(self).last_spec() == old(self).last_spec()
            },
            old(self).trigger_time_spec(label@) is None ==> {
                let stop = first_label_from(old(self).steps_spec(), label@, old(self).current_spec());
                &&& final(self).elapsed_spec() == at_time
                &&& final(self).current_spec() == if stop < old(self).steps_spec().len() {
                    stop + 1
                } else {
                    stop
                }
                &&& fired@.len() == final(self).current_spec() - old(self).current_spec()
                &&& forall|j: int| 0 <= j < fired@.len() ==> fired@[j] == old(self).current_spec() + j
                &&& final(self).times_spec().take(old(self).current_spec()) == old(self).times_spec()
                &&& forall|j: int| old(self).current_spec() <= j < final(self).current_spec()
                    ==> final(self).times_spec()[j] == at_time
                &&& final(self).current_spec() > old(self).current_spec() ==> final(self).last_spec() == at_time
                &&& final(self).current_spec() == old(self).current_spec() ==> final(self).last_spec() == old(self).last_spec()
                // A label carried by a remaining step is now marked as run.
                &&& stop < old(self).steps_spec().len() ==> final(self).trigger_time_spec(label@) == Some(at_time)
            },
    {
        if self.trigger_time(label).is_some() {
            if at_time > self.elapsed {
                self.elapsed = at_time;
            }
            return Vec::new();
        }
        self.elapsed = at_time;
        let ghost start = self.progress.current as int;
        let ghost old_last = self.progress.last_trigger_time as int;
        let ghost old_times = self.progress.fire_times@;
        proof {
            lemma_first_label_from_bounds(self.progress.steps@, label@, start);
        }
        let ghost stop = first_label_from(self.progress.steps@, label@, start);
        let mut fired: Vec<usize> = Vec::new();
        while self.progress.current < self.progress.steps.len()
            invariant_except_break
                self.progress.current <= stop,
            invariant
                self.wf(),
                self.progress.steps@ == old(self).progress.steps@,
                self.elapsed == at_time,
                start == old(self).progress.current,
                old_last == old(self).progress.last_trigger_time,
                old_times == old(self).progress.fire_times@,
                start <= self.progress.current,
                stop == first_label_from(self.progress.steps@, label@, start),
                stop <= self.progress.steps@.len(),
                stop < self.progress.steps@.len() ==> self.progress.steps@[stop].label@ == label@,
                forall|j: int| start <= j < stop ==> self.progress.steps@[j].label@ != label@,
                fired@.len() == self.progress.current - start,
                forall|j: int| 0 <= j < fired@.len() ==> fired@[j] == start + j,
                self.progress.fire_times@.take(start) == old_times,
                forall|j: int| start <= j < self.progress.current ==> self.progress.fire_times@[j] == at_time,
                self.progress.current == start ==> self.progress.last_trigger_time == old_last,
                self.progress.current > start ==> self.progress.last_trigger_time == at_time,
            ensures
                (stop < self.progress.steps@.len() && self.progress.current == stop + 1) || (stop == self.progress.steps@.len()
                    && self.progress.current == stop),
            decreases self.progress.steps@.len() - self.progress.current,
        {
            let step_label = self.progress.steps[self.progress.current].label;
            let idx = self.progress.current;
            let ghost before = self.progress.fire_times@;
            self.fire_next(at_time);
            fired.push(idx);
            proof {
                assert(self.progress.fire_times@.take(start) =~= before.take(start));
            }
            if same_name(step_label, label) {
                proof {
                    assert(idx as int == stop);
                    assert(self.progress.fire_times@[idx as int] == at_time);
                }
                break;
            }
        }
        fired
    }
}

} // verus!
