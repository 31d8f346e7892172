//! Motherships waiting to enter: what the next one is made of.
//!
//! A mothership carries gatling turrets and hearts, each at a position on
//! its hull (`P`, a position type of the caller's choosing), and may bring
//! another mothership in when it dies. The queue is served in order, one
//! mothership at a time.
use vstd::prelude::*;
use crate::turret::PatternDef;

verus! {

/// Where a mothership is told to come from.
#[derive(Clone, Copy, Debug, PartialEq, Eq)]
pub enum SpawnSide {
    Top,
    Bottom,
    Left,
    Right,
    /// An exact point of the screen.
    At,
}

/// The edge of the screen a mothership enters through.
#[derive(Clone, Copy, Debug, PartialEq, Eq)]
pub enum EntryEdge {
    Top,
    Bottom,
    Left,
    Right,
}

/// The entry edge for a spawn side: an exact point enters from the top.
pub open spec fn entry_edge_of(side: SpawnSide) -> EntryEdge {
    match side {
        SpawnSide::Top => EntryEdge::Top,
        SpawnSide::Bottom => EntryEdge::Bottom,
        SpawnSide::Left => EntryEdge::Left,
        SpawnSide::Right => EntryEdge::Right,
        SpawnSide::At => EntryEdge::Top,
    }
}

impl EntryEdge {
    /// The entry edge for a spawn side; an exact point enters from the top.
    pub fn from_spawn_side(side: SpawnSide) -> (e: EntryEdge)
        ensures
            e == entry_edge_of(side),
    {
        match side {
            SpawnSide::Top => EntryEdge::Top,
            SpawnSide::Bottom => EntryEdge::Bottom,
            SpawnSide::Left => EntryEdge::Left,
            SpawnSide::Right => EntryEdge::Right,
            SpawnSide::At => EntryEdge::Top,
        }
    }
}

/// The part of a turret's style that decides how it is built: an aiming
/// laser, and a single custom sprite in place of the animated frames.
#[derive(Clone, Copy, Debug, PartialEq, Eq)]
pub struct TurretLook {
    pub laser: bool,
    pub custom_sprite: bool,
}

/// A configured turret: its pattern list, its position on the hull, and
/// its style if it has one (the default style has no laser and the
/// animated frames).
pub struct TurretSpec<P> {
    pub patterns: Vec<PatternDef>,
    pub pos: P,
    pub style: Option<TurretLook>,
}

/// A configured mothership.
pub struct MothershipSpec<P> {
    pub edge: SpawnSide,
    pub turrets: Vec<TurretSpec<P>>,
    pub hearts: Vec<P>,
    /// The mothership that comes in when this one dies.
    pub on_death: Option<Box<MothershipSpec<P>>>,
}

/// How a turret is to be built.
pub struct TurretPlan<P> {
    /// The turret's own pattern list, which takes precedence over the
    /// gatling's phase patterns.
    pub patterns: Vec<PatternDef>,
    pub pos: P,
    /// An aiming laser is attached to it.
    pub laser: bool,
    /// It shows a single static sprite (flipped) instead of the animated
    /// frames.
    pub static_sprite: bool,
}

/// How the next mothership is to be built.
pub struct MothershipPlan<P> {
    pub edge: EntryEdge,
    /// One turret per configured turret, in order.
    pub turrets: Vec<TurretPlan<P>>,
    /// One heart per configured heart position, in order.
    pub hearts: Vec<P>,
    /// The mothership to bring in when this one dies.
    pub follow_up: Option<Box<MothershipSpec<P>>>,
}

/// The laser flag of a turret style (none without a style).
pub open spec fn look_laser(style: Option<TurretLook>) -> bool {
    match style {
        Some(l) => l.laser,
        None => false,
    }
}

/// The static-sprite flag of a turret style (none without a style).
pub open spec fn look_static(style: Option<TurretLook>) -> bool {
    match style {
        Some(l) => l.custom_sprite,
        None => false,
    }
}

/// The plan of a configured turret.
pub open spec fn turret_plan_matches<P>(plan: TurretPlan<P>, spec: TurretSpec<P>) -> bool {
    &&& plan.patterns == spec.patterns
    &&& plan.pos == spec.pos
    &&& plan.laser == look_laser(spec.style)
    &&& plan.static_sprite == look_static(spec.style)
}

/// The plan of a configured mothership.
pub open spec fn plan_matches<P>(plan: MothershipPlan<P>, spec: MothershipSpec<P>) -> bool {
    &&& plan.edge == entry_edge_of(spec.edge)
    &&& plan.turrets@.len() == spec.turrets@.len()
    &&& forall|i: int|
        0 <= i < plan.turrets@.len() ==> turret_plan_matches(#[trigger] plan.turrets@[i], spec.turrets@[i])
    &&& plan.hearts == spec.hearts
    &&& plan.follow_up == spec.on_death
}

fn plan_turret<P>(t: TurretSpec<P>) -> (p: TurretPlan<P>)
    ensures
        turret_plan_matches(p, t),
{
    let (laser, static_sprite) = match t.style {
        Some(l) => (l.laser, l.custom_sprite),
        None => (false, false),
    };
    TurretPlan { patterns: t.patterns, pos: t.pos, laser, static_sprite }
}

/// Takes the first mothership of the queue and says how to build it.
/// An empty queue gives `None` and stays as it is.
pub fn next_mothership_plan<P>(queue: &mut Vec<MothershipSpec<P>>) -> (plan: Option<MothershipPlan<P>>)
    ensures
        plan is None <==> old(queue)@.len() == 0,
        plan is None ==> final(queue)@ == old(queue)@,
        plan matches Some(p) ==> final(queue)@ == old(queue)@.drop_first() && plan_matches(p, old(queue)@[0]),
{
    if queue.len() == 0 {
        return None;
    }
    let spec = queue.remove(0);
    assert(queue@ =~= old(queue)@.drop_first());
    let ghost configured = spec.turrets@;
    let MothershipSpec { edge, turrets, hearts, on_death } = spec;
    let mut rest = turrets;
    let mut planned: Vec<TurretPlan<P>> = Vec::new();
    while rest.len() > 0
        invariant
            planned@.len() + rest@.len() == configured.len(),
            rest@ == configured.skip(planned@.len() as int),
            forall|i: int| 0 <= i < planned@.len() ==> turret_plan_matches(#[trigger] planned@[i], configured[i]),
        decreases rest@.len(),
    {
        let ghost k = planned@.len() as int;
        let t = rest.remove(0);
        assert(t == configured[k]);
        planned.push(plan_turret(t));
        assert(rest@ =~= configured.skip(k + 1));
    }
    Some(MothershipPlan { edge: EntryEdge::from_spawn_side(edge), turrets: planned, hearts, follow_up: on_death })
}

} // verus!
