use vstd::prelude::*;

use crate::advisor::Suggestion;
use crate::behavior::Behavior;
use crate::countdown::Countdown;
use crate::geometry::{distance_sq, dist_sq, flat_dist_sq, flat_distance_sq, sq, Point};
use crate::score::{Score, MAX_DEN};

verus! {

/// A rival this close (squared) to a resource makes every farther dweeb back off.
pub const CLAIM_RADIUS_SQ: u128 = 90_000;

/// Within this squared horizontal distance of a bed a dweeb jumps onto it.
pub const BED_REACH_SQ: u128 = 40_000;

/// Within this squared horizontal distance of a desk's working point a dweeb starts
/// to scribe.
pub const DESK_REACH_SQ: u128 = 2_500;

/// Numerator of the walking score: the score is this over the squared horizontal
/// distance, so a resource 10 units away scores 16.
pub const WALK_URGENCY: i32 = 16_000_000;

/// Score of using a resource once within reach.
pub const USE_SCORE: i32 = 100;

/// Each considering dweeb adds this over its squared distance to a resource's
/// demand (demand is kept in millionths).
pub const DEMAND_WEIGHT: u128 = 1_000_000_000_000;

/// How long scribing at a desk takes, in microseconds.
pub const SCRIBE_DURATION: u64 = 3_000_000;

/// The two kinds of shared resource.
#[derive(Clone, Copy, Debug, PartialEq, Eq, Structural)]
pub enum DestinationKind {
    Bed,
    Desk,
}

/// A bed or a desk: where it stands, the point where a dweeb works at it (a desk's
/// front; unused for beds), and the direction it faces.
#[derive(Clone, Copy, Debug, PartialEq, Eq, Structural)]
pub struct Site {
    pub id: u64,
    pub center: Point,
    pub working_point: Point,
    pub forward: Point,
}

/// What the decision core knows of one dweeb at the start of a tick.
#[derive(Clone, Copy, Debug, PartialEq, Eq)]
pub struct Agent {
    pub position: Point,
    pub behavior: Behavior,
    /// Whether the dweeb is off the ground; `None` when the motion system cannot tell.
    pub airborne: Option<bool>,
    /// The entity the dweeb's ground sensor touches, if any.
    pub ground: Option<u64>,
}

/// How one resource stands this tick: the point dweebs head for, the nearest
/// considering dweeb (its index among the agents and its squared distance), the
/// demand on it, the first dweeb that holds it and whether a second one does too.
#[derive(Clone, Copy, Debug, PartialEq, Eq)]
pub struct DestinationStatus {
    pub id: u64,
    pub position: Point,
    pub closest: Option<(usize, u128)>,
    pub demand: u128,
    pub holder: Option<usize>,
    pub shared: bool,
}

impl DestinationKind {
    /// A dweeb with this behavior takes part in the contention for this kind.
    pub open spec fn considers(self, b: Behavior) -> bool {
        match self {
            DestinationKind::Bed => match b {
                Behavior::Idle | Behavior::WalkToBed { .. } | Behavior::JumpOnBed { .. } => true,
                _ => false,
            },
            DestinationKind::Desk => match b {
                Behavior::Startled { .. } | Behavior::WalkToDesk { .. } => true,
                _ => false,
            },
        }
    }

    /// A dweeb with this behavior may be offered a resource of this kind: one that
    /// considers it, except a dweeb startled out of deep (non-REM) sleep.
    pub open spec fn may_propose(self, b: Behavior) -> bool {
        match (self, b) {
            (DestinationKind::Desk, Behavior::Startled { from_rem, .. }) => from_rem,
            _ => self.considers(b),
        }
    }

    /// A dweeb with this behavior occupies resource `id` of this kind: it is jumping
    /// onto or sleeping in that bed, or scribing at that desk.
    pub open spec fn holds(self, b: Behavior, id: u64) -> bool {
        match (self, b) {
            (DestinationKind::Bed, Behavior::JumpOnBed { bed }) => bed == id,
            (DestinationKind::Bed, Behavior::Sleep { bed, .. }) => bed == id,
            (DestinationKind::Desk, Behavior::Scribe { desk, .. }) => desk == id,
            _ => false,
        }
    }

    pub open spec fn approach_of(self, site: Site) -> Point {
        match self {
            DestinationKind::Bed => site.center,
            DestinationKind::Desk => site.working_point,
        }
    }

    pub open spec fn reach_sq(self) -> int {
        match self {
            DestinationKind::Bed => BED_REACH_SQ as int,
            DestinationKind::Desk => DESK_REACH_SQ as int,
        }
    }

    pub open spec fn walk_behavior(self, id: u64) -> Behavior {
        match self {
            DestinationKind::Bed => Behavior::WalkToBed { bed: id },
            DestinationKind::Desk => Behavior::WalkToDesk { desk: id },
        }
    }

    pub open spec fn use_behavior(self, id: u64) -> Behavior {
        match self {
            DestinationKind::Bed => Behavior::JumpOnBed { bed: id },
            DestinationKind::Desk => Behavior::Scribe {
                desk: id,
                timer: Countdown { duration: SCRIBE_DURATION, elapsed: 0, done: false },
            },
        }
    }

    /// Walking to, or using, resource `id` of this kind.
    pub open spec fn refers(self, b: Behavior, id: u64) -> bool {
        b == self.walk_behavior(id) || b == self.use_behavior(id)
    }

    fn is_considered(self, b: Behavior) -> (r: bool)
        ensures
            r == self.considers(b),
    {
        match self {
            DestinationKind::Bed => match b {
                Behavior::Idle | Behavior::WalkToBed { .. } | Behavior::JumpOnBed { .. } => true,
                _ => false,
            },
            DestinationKind::Desk => match b {
                Behavior::Startled { .. } | Behavior::WalkToDesk { .. } => true,
                _ => false,
            },
        }
    }

    fn is_proposable(self, b: Behavior) -> (r: bool)
        ensures
            r == self.may_propose(b),
    {
        match (self, b) {
            (DestinationKind::Desk, Behavior::Startled { from_rem, .. }) => from_rem,
            _ => self.is_considered(b),
        }
    }

    fn is_held(self, b: Behavior, id: u64) -> (r: bool)
        ensures
            r == self.holds(b, id),
    {
        match (self, b) {
            (DestinationKind::Bed, Behavior::JumpOnBed { bed }) => bed == id,
            (DestinationKind::Bed, Behavior::Sleep { bed, .. }) => bed == id,
            (DestinationKind::Desk, Behavior::Scribe { desk, .. }) => desk == id,
            _ => false,
        }
    }

    /// The point a dweeb heads for: a bed's center, a desk's working point.
    pub fn approach(self, site: &Site) -> (r: Point)
        ensures
            r == self.approach_of(*site),
    {
        match self {
            DestinationKind::Bed => site.center,
            DestinationKind::Desk => site.working_point,
        }
    }

    fn reach(self) -> (r: u128)
        ensures
            r == self.reach_sq(),
    {
        match self {
            DestinationKind::Bed => BED_REACH_SQ,
            DestinationKind::Desk => DESK_REACH_SQ,
        }
    }

    fn walk(self, id: u64) -> (r: Behavior)
        ensures
            r == self.walk_behavior(id),
    {
        match self {
            DestinationKind::Bed => Behavior::WalkToBed { bed: id },
            DestinationKind::Desk => Behavior::WalkToDesk { desk: id },
        }
    }

    fn use_it(self, id: u64) -> (r: Behavior)
        ensures
            r == self.use_behavior(id),
            r.wf(),
    {
        match self {
            DestinationKind::Bed => Behavior::JumpOnBed { bed: id },
            DestinationKind::Desk => Behavior::Scribe {
                desk: id,
                timer: Countdown::new(SCRIBE_DURATION),
            },
        }
    }
}

/// Some dweeb other than dweeb `a` occupies resource `id` of kind `kind`.
pub open spec fn held_by_other(kind: DestinationKind, agents: Seq<Agent>, id: u64, a: int) -> bool {
    exists|j: int| 0 <= j < agents.len() && j != a && kind.holds(#[trigger] agents[j].behavior, id)
}

/// Nobody occupies resource `id` of kind `kind`.
pub open spec fn free(kind: DestinationKind, agents: Seq<Agent>, id: u64) -> bool {
    forall|j: int| 0 <= j < agents.len() ==> !kind.holds(#[trigger] agents[j].behavior, id)
}

/// Among the first `n` dweebs: the first that occupies resource `id`, and whether
/// another one does too.
pub open spec fn holders_upto(kind: DestinationKind, agents: Seq<Agent>, id: u64, n: int) -> (
    Option<usize>,
    bool,
)
    decreases n,
{
    if n <= 0 {
        (None, false)
    } else {
        let (h, sh) = holders_upto(kind, agents, id, n - 1);
        if kind.holds(agents[n - 1].behavior, id) {
            match h {
                None => (Some((n - 1) as usize), sh),
                Some(_) => (h, true),
            }
        } else {
            (h, sh)
        }
    }
}

/// The nearest considering dweeb among the first `n`, in space; the first of equals.
pub open spec fn closest_upto(kind: DestinationKind, agents: Seq<Agent>, p: Point, n: int) -> Option<
    (usize, u128),
>
    decreases n,
{
    if n <= 0 {
        None
    } else {
        let prev = closest_upto(kind, agents, p, n - 1);
        let a = agents[n - 1];
        if !kind.considers(a.behavior) {
            prev
        } else {
            let d = dist_sq(a.position, p);
            match prev {
                Some((_, dc)) => if d < dc {
                    Some(((n - 1) as usize, d as u128))
                } else {
                    prev
                },
                None => Some(((n - 1) as usize, d as u128)),
            }
        }
    }
}

pub open spec fn demand_term(d: int) -> int {
    if d == 0 {
        DEMAND_WEIGHT as int
    } else {
        DEMAND_WEIGHT as int / d
    }
}

/// Demand from the first `n` dweebs: each considering dweeb adds the weight over
/// its squared distance (one hundredth, squared, when it stands on the point).
pub open spec fn demand_upto(kind: DestinationKind, agents: Seq<Agent>, p: Point, n: int) -> int
    decreases n,
{
    if n <= 0 {
        0
    } else if kind.considers(agents[n - 1].behavior) {
        demand_upto(kind, agents, p, n - 1) + demand_term(dist_sq(agents[n - 1].position, p))
    } else {
        demand_upto(kind, agents, p, n - 1)
    }
}

pub open spec fn status_of(kind: DestinationKind, agents: Seq<Agent>, site: Site) -> DestinationStatus {
    let p = kind.approach_of(site);
    let n = agents.len() as int;
    DestinationStatus {
        id: site.id,
        position: p,
        closest: closest_upto(kind, agents, p, n),
        demand: demand_upto(kind, agents, p, n) as u128,
        holder: holders_upto(kind, agents, site.id, n).0,
        shared: holders_upto(kind, agents, site.id, n).1,
    }
}

/// Statuses of the first `n` sites, in site order.
pub open spec fn statuses_upto(
    kind: DestinationKind,
    agents: Seq<Agent>,
    sites: Seq<Site>,
    n: int,
) -> Seq<DestinationStatus>
    decreases n,
{
    if n <= 0 {
        Seq::empty()
    } else {
        statuses_upto(kind, agents, sites, n - 1).push(status_of(kind, agents, sites[n - 1]))
    }
}

pub open spec fn statuses(kind: DestinationKind, agents: Seq<Agent>, sites: Seq<Site>) -> Seq<
    DestinationStatus,
> {
    statuses_upto(kind, agents, sites, sites.len() as int)
}

/// Another dweeb holds the resource, so dweeb `a` gets nothing for it.
pub open spec fn blocked(st: DestinationStatus, a: int) -> bool {
    match st.holder {
        Some(h) => h != a || st.shared,
        None => false,
    }
}

/// Dweeb `a` backs off a free resource: another dweeb is nearest and within the
/// claim radius.
pub open spec fn suppressed(st: DestinationStatus, a: int) -> bool {
    match st.closest {
        Some((c, d)) => c != a && d < CLAIM_RADIUS_SQ,
        None => false,
    }
}

/// What dweeb `a`, standing at `pos`, is offered for one resource: nothing if
/// another dweeb holds it, or if it is free and `a` backs off for a nearer rival;
/// otherwise walking there, or using it once within reach. Its only holder keeps
/// being offered it.
pub open spec fn offer_for(kind: DestinationKind, st: DestinationStatus, a: int, pos: Point) -> Option<
    Suggestion,
> {
    if blocked(st, a) || (st.holder is None && suppressed(st, a)) {
        None
    } else {
        let d = flat_dist_sq(st.position, pos);
        if kind.reach_sq() < d {
            Some(
                Suggestion {
                    score: Score::Ratio { num: WALK_URGENCY, den: d as u128 },
                    behavior: kind.walk_behavior(st.id),
                },
            )
        } else {
            Some(
                Suggestion {
                    score: Score::Ratio { num: USE_SCORE, den: 1 },
                    behavior: kind.use_behavior(st.id),
                },
            )
        }
    }
}

pub open spec fn offers_upto(
    kind: DestinationKind,
    sts: Seq<DestinationStatus>,
    a: int,
    pos: Point,
    n: int,
) -> Seq<Suggestion>
    decreases n,
{
    if n <= 0 {
        Seq::empty()
    } else {
        let prev = offers_upto(kind, sts, a, pos, n - 1);
        match offer_for(kind, sts[n - 1], a, pos) {
            Some(s) => prev.push(s),
            None => prev,
        }
    }
}

/// Everything the policy offers dweeb `a` this tick, in status order.
pub open spec fn offers(
    kind: DestinationKind,
    agents: Seq<Agent>,
    sts: Seq<DestinationStatus>,
    a: int,
) -> Seq<Suggestion> {
    if kind.may_propose(agents[a].behavior) {
        offers_upto(kind, sts, a, agents[a].position, sts.len() as int)
    } else {
        Seq::empty()
    }
}

/// The status of one resource: its approach point, nearest considering dweeb,
/// demand, and who holds it.
pub fn destination_status(kind: DestinationKind, agents: &Vec<Agent>, site: &Site) -> (r:
    DestinationStatus)
    ensures
        r == status_of(kind, agents@, *site),
{
    let p = kind.approach(site);
    let mut closest: Option<(usize, u128)> = None;
    let mut demand: u128 = 0;
    let mut holder: Option<usize> = None;
    let mut shared = false;
    let mut i: usize = 0;
    while i < agents.len()
        invariant
            i <= agents@.len(),
            p == kind.approach_of(*site),
            closest == closest_upto(kind, agents@, p, i as int),
            demand == demand_upto(kind, agents@, p, i as int),
            demand <= i * DEMAND_WEIGHT,
            (holder, shared) == holders_upto(kind, agents@, site.id, i as int),
        decreases agents@.len() - i,
    {
        let a = agents[i];
        if kind.is_considered(a.behavior) {
            let d = distance_sq(a.position, p);
            let term = if d == 0 {
                DEMAND_WEIGHT
            } else {
                DEMAND_WEIGHT / d
            };
            assert(term <= DEMAND_WEIGHT) by (nonlinear_arith)
                requires
                    d == 0 ==> term == DEMAND_WEIGHT,
                    d > 0 ==> term == DEMAND_WEIGHT / d,
            ;
            demand = demand + term;
            closest = match closest {
                Some((c, dc)) => if d < dc {
                    Some((i, d))
                } else {
                    Some((c, dc))
                },
                None => Some((i, d)),
            };
        }
        if kind.is_held(a.behavior, site.id) {
            match holder {
                None => {
                    holder = Some(i);
                },
                Some(_) => {
                    shared = true;
                },
            }
        }
        i += 1;
    }
    DestinationStatus { id: site.id, position: p, closest, demand, holder, shared }
}

/// The statuses of the resources of kind `kind`, in site order.
pub fn destination_statuses(kind: DestinationKind, agents: &Vec<Agent>, sites: &Vec<Site>) -> (r:
    Vec<DestinationStatus>)
    ensures
        r@ == statuses(kind, agents@, sites@),
        r@.len() == sites@.len(),
        forall|k: int| 0 <= k < sites@.len() ==> #[trigger] r@[k] == status_of(kind, agents@, sites@[k]),
{
    let mut r: Vec<DestinationStatus> = Vec::new();
    let mut i: usize = 0;
    while i < sites.len()
        invariant
            i <= sites@.len(),
            r@ == statuses_upto(kind, agents@, sites@, i as int),
        decreases sites@.len() - i,
    {
        r.push(destination_status(kind, agents, &sites[i]));
        i += 1;
    }
    proof {
        lemma_statuses_map(kind, agents@, sites@, sites@.len() as int);
    }
    r
}

/// Whether dweeb `a` gets nothing for the resource of status `st` because another
/// dweeb holds it.
pub fn is_blocked(st: &DestinationStatus, a: usize) -> (r: bool)
    ensures
        r == blocked(*st, a as int),
{
    match st.holder {
        Some(h) => h != a || st.shared,
        None => false,
    }
}

/// What dweeb `a`, standing at `pos`, is offered for the resource of status `st`.
pub fn destination_offer(kind: DestinationKind, st: &DestinationStatus, a: usize, pos: Point) -> (r:
    Option<Suggestion>)
    ensures
        r == offer_for(kind, *st, a as int, pos),
        r matches Some(s) ==> s.wf(),
{
    if is_blocked(st, a) {
        return None;
    }
    let back_off = match st.closest {
        Some((c, d)) => c != a && d < CLAIM_RADIUS_SQ,
        None => false,
    };
    if st.holder.is_none() && back_off {
        return None;
    }
    let d = flat_distance_sq(st.position, pos);
    if kind.reach() < d {
        assert(d <= MAX_DEN);
        Some(
            Suggestion {
                score: Score::Ratio { num: WALK_URGENCY, den: d },
                behavior: kind.walk(st.id),
            },
        )
    } else {
        Some(Suggestion { score: Score::whole(USE_SCORE), behavior: kind.use_it(st.id) })
    }
}

/// Everything the policy offers dweeb `a` for the sites of kind `kind`, given this
/// tick's statuses of those sites. Nothing offered refers to a resource that
/// another dweeb holds.
pub fn destination_offers(
    kind: DestinationKind,
    agents: &Vec<Agent>,
    sites: &Vec<Site>,
    sts: &Vec<DestinationStatus>,
    a: usize,
) -> (r: Vec<Suggestion>)
    requires
        a < agents@.len(),
        sts@ == statuses(kind, agents@, sites@),
    ensures
        r@ == offers(kind, agents@, sts@, a as int),
        forall|i: int| 0 <= i < r@.len() ==> #[trigger] r@[i].wf(),
        forall|i: int, id: u64|
            0 <= i < r@.len() && held_by_other(kind, agents@, id, a as int) ==> !#[trigger] kind.refers(
                r@[i].behavior,
                id,
            ),
{
    let mut r: Vec<Suggestion> = Vec::new();
    // Reading the length brings in that it fits in a usize.
    let _ = agents.len();
    if !kind.is_proposable(agents[a].behavior) {
        proof {
            law_held_not_offered(kind, agents@, sites@, a as int);
        }
        return r;
    }
    let pos = agents[a].position;
    let mut i: usize = 0;
    while i < sts.len()
        invariant
            i <= sts@.len(),
            pos == agents@[a as int].position,
            kind.may_propose(agents@[a as int].behavior),
            r@ == offers_upto(kind, sts@, a as int, pos, i as int),
            forall|j: int| 0 <= j < r@.len() ==> #[trigger] r@[j].wf(),
        decreases sts@.len() - i,
    {
        match destination_offer(kind, &sts[i], a, pos) {
            Some(s) => r.push(s),
            None => {},
        }
        i += 1;
    }
    proof {
        law_held_not_offered(kind, agents@, sites@, a as int);
    }
    r
}

} // verus!

verus! {

/// What `closest_upto` picks: the first of the nearest considering dweebs.
pub proof fn lemma_closest_upto(kind: DestinationKind, agents: Seq<Agent>, p: Point, n: int)
    requires
        0 <= n <= agents.len() <= usize::MAX,
    ensures
        closest_upto(kind, agents, p, n) is None <==> forall|m: int|
            0 <= m < n ==> !kind.considers(#[trigger] agents[m].behavior),
        closest_upto(kind, agents, p, n) matches Some((c, d)) ==> {
            &&& 0 <= c < n
            &&& kind.considers(agents[c as int].behavior)
            &&& d == dist_sq(agents[c as int].position, p)
            &&& forall|m: int|
                0 <= m < n && kind.considers(#[trigger] agents[m].behavior) ==> d <= dist_sq(
                    agents[m].position,
                    p,
                )
            &&& forall|m: int|
                0 <= m < c && kind.considers(#[trigger] agents[m].behavior) ==> d < dist_sq(
                    agents[m].position,
                    p,
                )
        },
    decreases n,
{
    if n > 0 {
        lemma_closest_upto(kind, agents, p, n - 1);
        crate::geometry::lemma_dist_sq_bounds(agents[n - 1].position, p);
        let prev = closest_upto(kind, agents, p, n - 1);
        let cur = closest_upto(kind, agents, p, n);
        if kind.considers(agents[n - 1].behavior) {
            let dn = dist_sq(agents[n - 1].position, p);
            if cur is Some {
                let (c, d) = cur.unwrap();
                assert forall|m: int|
                    0 <= m < n && kind.considers(#[trigger] agents[m].behavior) implies d
                    <= dist_sq(agents[m].position, p) by {
                    if m < n - 1 {
                        crate::geometry::lemma_dist_sq_bounds(agents[m].position, p);
                    }
                }
                assert forall|m: int|
                    0 <= m < c && kind.considers(#[trigger] agents[m].behavior) implies d
                    < dist_sq(agents[m].position, p) by {
                    if m < n - 1 {
                        crate::geometry::lemma_dist_sq_bounds(agents[m].position, p);
                    }
                }
            }
        } else {
            assert forall|m: int| 0 <= m < n && kind.considers(#[trigger] agents[m].behavior) implies m
                < n - 1 by {}
        }
    }
}

/// What `holders_upto` finds: the first holder, and whether another holds too;
/// dweeb `a` is blocked exactly when some other dweeb holds the resource.
pub proof fn lemma_holders(kind: DestinationKind, agents: Seq<Agent>, id: u64, n: int, a: int)
    requires
        0 <= n <= agents.len() <= usize::MAX,
    ensures
        holders_upto(kind, agents, id, n).0 is None <==> forall|j: int|
            0 <= j < n ==> !kind.holds(#[trigger] agents[j].behavior, id),
        holders_upto(kind, agents, id, n).0 is None ==> !holders_upto(kind, agents, id, n).1,
        holders_upto(kind, agents, id, n).0 matches Some(h) ==> 0 <= h < n && kind.holds(
            agents[h as int].behavior,
            id,
        ),
        (match holders_upto(kind, agents, id, n).0 {
            Some(h) => h != a || holders_upto(kind, agents, id, n).1,
            None => false,
        }) <==> exists|j: int| 0 <= j < n && j != a && kind.holds(#[trigger] agents[j].behavior, id),
    decreases n,
{
    if n > 0 {
        lemma_holders(kind, agents, id, n - 1, a);
        let (h, sh) = holders_upto(kind, agents, id, n - 1);
        let m = n - 1;
        if kind.holds(agents[m].behavior, id) {
            match h {
                None => {
                    if m != a {
                        assert(0 <= m < n && m != a && kind.holds(agents[m].behavior, id));
                    } else {
                        assert forall|j: int| 0 <= j < n && j != a implies !kind.holds(
                            #[trigger] agents[j].behavior,
                            id,
                        ) by {}
                    }
                },
                Some(x) => {
                    if m != a {
                        assert(0 <= m < n && m != a && kind.holds(agents[m].behavior, id));
                    } else {
                        assert(0 <= x < n && x != a && kind.holds(agents[x as int].behavior, id));
                    }
                },
            }
        } else {
            assert forall|j: int| 0 <= j < n && j != a && kind.holds(
                #[trigger] agents[j].behavior,
                id,
            ) implies j < m by {}
            assert forall|j: int| 0 <= j < m && !kind.holds(#[trigger] agents[j].behavior, id)
                implies !kind.holds(agents[j].behavior, id) by {}
        }
    }
}

/// A status marks dweeb `a` blocked exactly when another dweeb holds the site.
pub proof fn lemma_blocked(kind: DestinationKind, agents: Seq<Agent>, site: Site, a: int)
    requires
        agents.len() <= usize::MAX,
    ensures
        blocked(status_of(kind, agents, site), a) == held_by_other(kind, agents, site.id, a),
        status_of(kind, agents, site).holder is None == free(kind, agents, site.id),
{
    lemma_holders(kind, agents, site.id, agents.len() as int, a);
}

/// There is one status per site.
pub proof fn lemma_statuses_len(kind: DestinationKind, agents: Seq<Agent>, sites: Seq<Site>)
    ensures
        statuses(kind, agents, sites).len() == sites.len(),
        forall|k: int|
            0 <= k < sites.len() ==> #[trigger] statuses(kind, agents, sites)[k] == status_of(
                kind,
                agents,
                sites[k],
            ),
{
    lemma_statuses_map(kind, agents, sites, sites.len() as int);
}

proof fn lemma_statuses_map(kind: DestinationKind, agents: Seq<Agent>, sites: Seq<Site>, n: int)
    requires
        0 <= n <= sites.len(),
    ensures
        statuses_upto(kind, agents, sites, n).len() == n,
        forall|k: int|
            0 <= k < n ==> #[trigger] statuses_upto(kind, agents, sites, n)[k] == status_of(
                kind,
                agents,
                sites[k],
            ),
    decreases n,
{
    if n > 0 {
        lemma_statuses_map(kind, agents, sites, n - 1);
    }
}

proof fn lemma_offers_from(kind: DestinationKind, sts: Seq<DestinationStatus>, a: int, pos: Point, n: int)
    requires
        0 <= n <= sts.len(),
    ensures
        forall|i: int|
            0 <= i < offers_upto(kind, sts, a, pos, n).len() ==> exists|k: int|
                0 <= k < n && offer_for(kind, #[trigger] sts[k], a, pos) == Some(
                    #[trigger] offers_upto(kind, sts, a, pos, n)[i],
                ),
    decreases n,
{
    if n > 0 {
        lemma_offers_from(kind, sts, a, pos, n - 1);
        let prev = offers_upto(kind, sts, a, pos, n - 1);
        let cur = offers_upto(kind, sts, a, pos, n);
        assert forall|i: int| 0 <= i < cur.len() implies exists|k: int|
            0 <= k < n && offer_for(kind, #[trigger] sts[k], a, pos) == Some(#[trigger] cur[i]) by {
            if i < prev.len() {
                assert(cur[i] == prev[i]);
                let k = choose|k: int|
                    0 <= k < n - 1 && offer_for(kind, #[trigger] sts[k], a, pos) == Some(prev[i]);
                assert(offer_for(kind, sts[k], a, pos) == Some(cur[i]));
            } else {
                assert(offer_for(kind, sts[n - 1], a, pos) == Some(cur[i]));
            }
        }
    }
}

/// Nothing the policy offers dweeb `a` refers to a resource that another dweeb
/// holds; whatever it offers that would hold a resource is of this kind and refers
/// to a resource that no other dweeb holds.
pub proof fn law_held_not_offered(kind: DestinationKind, agents: Seq<Agent>, sites: Seq<Site>, a: int)
    requires
        0 <= a < agents.len() <= usize::MAX,
    ensures
        forall|i: int, id: u64|
            0 <= i < offers(kind, agents, statuses(kind, agents, sites), a).len() && held_by_other(
                kind,
                agents,
                id,
                a,
            ) ==> !#[trigger] kind.refers(
                offers(kind, agents, statuses(kind, agents, sites), a)[i].behavior,
                id,
            ),
        forall|i: int, k2: DestinationKind, id: u64|
            0 <= i < offers(kind, agents, statuses(kind, agents, sites), a).len() && #[trigger] k2.holds(
                offers(kind, agents, statuses(kind, agents, sites), a)[i].behavior,
                id,
            ) ==> k2 == kind && !held_by_other(kind, agents, id, a),
{
    let sts = statuses(kind, agents, sites);
    lemma_statuses_map(kind, agents, sites, sites.len() as int);
    if kind.may_propose(agents[a].behavior) {
        let pos = agents[a].position;
        let os = offers(kind, agents, sts, a);
        lemma_offers_from(kind, sts, a, pos, sts.len() as int);
        assert forall|i: int, id: u64|
            0 <= i < os.len() && held_by_other(kind, agents, id, a) implies !#[trigger] kind.refers(
            os[i].behavior,
            id,
        ) by {
            let x = os[i];
            let k = choose|k: int|
                0 <= k < sts.len() && offer_for(kind, #[trigger] sts[k], a, pos) == Some(x);
            lemma_blocked(kind, agents, sites[k], a);
        }
        assert forall|i: int, k2: DestinationKind, id: u64|
            0 <= i < os.len() && #[trigger] k2.holds(os[i].behavior, id) implies k2 == kind
            && !held_by_other(kind, agents, id, a) by {
            let x = os[i];
            let k = choose|k: int|
                0 <= k < sts.len() && offer_for(kind, #[trigger] sts[k], a, pos) == Some(x);
            lemma_blocked(kind, agents, sites[k], a);
        }
    }
}

/// Once the nearest dweeb is within the claim radius of a free resource, every
/// other dweeb is offered nothing for it.
pub proof fn law_claim_exclusive(kind: DestinationKind, st: DestinationStatus, a: int, pos: Point)
    requires
        st.holder is None,
        st.closest matches Some((c, d)) && d < CLAIM_RADIUS_SQ && c != a,
    ensures
        offer_for(kind, st, a, pos) is None,
{
}

/// Two dweebs at the same distance, within the claim radius, from a free resource,
/// every other considering dweeb being farther: only the first of the two is
/// offered it; the other backs off.
pub proof fn law_equidistant_pair(
    kind: DestinationKind,
    agents: Seq<Agent>,
    site: Site,
    i: int,
    j: int,
)
    requires
        0 <= i < j < agents.len() <= usize::MAX,
        kind.considers(agents[i].behavior),
        kind.considers(agents[j].behavior),
        free(kind, agents, site.id),
        forall|m: int|
            0 <= m < agents.len() && m != i && m != j && kind.considers(#[trigger] agents[m].behavior)
                ==> dist_sq(agents[i].position, kind.approach_of(site)) < dist_sq(
                agents[m].position,
                kind.approach_of(site),
            ),
        dist_sq(agents[i].position, kind.approach_of(site)) == dist_sq(
            agents[j].position,
            kind.approach_of(site),
        ),
        dist_sq(agents[i].position, kind.approach_of(site)) < CLAIM_RADIUS_SQ,
    ensures
        status_of(kind, agents, site).closest == Some(
            (i as usize, dist_sq(agents[i].position, kind.approach_of(site)) as u128),
        ),
        offer_for(kind, status_of(kind, agents, site), i, agents[i].position) is Some,
        offer_for(kind, status_of(kind, agents, site), j, agents[j].position) is None,
{
    let p = kind.approach_of(site);
    lemma_closest_upto(kind, agents, p, agents.len() as int);
    lemma_blocked(kind, agents, site, i);
    lemma_blocked(kind, agents, site, j);
    crate::geometry::lemma_dist_sq_bounds(agents[i].position, p);
    let c = closest_upto(kind, agents, p, agents.len() as int);
    assert(c is Some);
    let (ci, cd) = c.unwrap();
    assert(ci == i) by {
        if ci != i && ci != j {
            assert(cd <= dist_sq(agents[i].position, p));
        }
        if ci == j {
            assert(cd < dist_sq(agents[i].position, p));
        }
    }
}

/// While every considering dweeb stands close to a resource's height (its vertical
/// gap, squared, plus the reach is under the claim radius), at most one dweeb is
/// offered the use of that resource in a tick.
pub proof fn law_single_user(
    kind: DestinationKind,
    agents: Seq<Agent>,
    site: Site,
    a: int,
    b: int,
)
    requires
        0 <= a < agents.len() <= usize::MAX,
        0 <= b < agents.len(),
        kind.considers(agents[a].behavior),
        kind.considers(agents[b].behavior),
        forall|m: int|
            0 <= m < agents.len() && kind.considers(#[trigger] agents[m].behavior) ==> sq(
                agents[m].position.y - kind.approach_of(site).y,
            ) + kind.reach_sq() < CLAIM_RADIUS_SQ,
        offer_for(kind, status_of(kind, agents, site), a, agents[a].position) == Some(
            Suggestion { score: Score::Ratio { num: USE_SCORE, den: 1 }, behavior: kind.use_behavior(site.id) },
        ),
        offer_for(kind, status_of(kind, agents, site), b, agents[b].position) == Some(
            Suggestion { score: Score::Ratio { num: USE_SCORE, den: 1 }, behavior: kind.use_behavior(site.id) },
        ),
    ensures
        a == b,
{
    let p = kind.approach_of(site);
    let st = status_of(kind, agents, site);
    if st.holder is None {
        lemma_closest_upto(kind, agents, p, agents.len() as int);
        crate::geometry::lemma_dist_sq_bounds(agents[a].position, p);
        crate::geometry::lemma_dist_sq_bounds(agents[b].position, p);
        crate::geometry::lemma_dist_sq_bounds(p, agents[a].position);
        crate::geometry::lemma_dist_sq_bounds(p, agents[b].position);
        assert(sq(agents[a].position.y - p.y) == sq(p.y - agents[a].position.y)) by (nonlinear_arith);
        assert(sq(agents[b].position.y - p.y) == sq(p.y - agents[b].position.y)) by (nonlinear_arith);
        assert(flat_dist_sq(p, agents[a].position) == flat_dist_sq(agents[a].position, p)) by (nonlinear_arith);
        assert(flat_dist_sq(p, agents[b].position) == flat_dist_sq(agents[b].position, p)) by (nonlinear_arith);
        let (c, d) = st.closest.unwrap();
        assert(c == a);
        assert(c == b);
    }
}

proof fn lemma_offers_referring(
    kind: DestinationKind,
    sts: Seq<DestinationStatus>,
    a: int,
    pos: Point,
    id: u64,
    n: int,
)
    requires
        0 <= n <= sts.len(),
        forall|k1: int, k2: int|
            0 <= k1 < n && 0 <= k2 < n && #[trigger] sts[k1].id == #[trigger] sts[k2].id ==> k1
                == k2,
    ensures
        (exists|i: int|
            0 <= i < offers_upto(kind, sts, a, pos, n).len() && #[trigger] kind.refers(
                offers_upto(kind, sts, a, pos, n)[i].behavior,
                id,
            )) <==> (exists|k: int|
            0 <= k < n && #[trigger] sts[k].id == id && offer_for(kind, sts[k], a, pos) is Some),
        forall|i1: int, i2: int|
            0 <= i1 < offers_upto(kind, sts, a, pos, n).len() && 0 <= i2 < offers_upto(
                kind,
                sts,
                a,
                pos,
                n,
            ).len() && #[trigger] kind.refers(offers_upto(kind, sts, a, pos, n)[i1].behavior, id)
                && #[trigger] kind.refers(offers_upto(kind, sts, a, pos, n)[i2].behavior, id)
                ==> i1 == i2,
    decreases n,
{
    if n > 0 {
        lemma_offers_referring(kind, sts, a, pos, id, n - 1);
        let prev = offers_upto(kind, sts, a, pos, n - 1);
        let cur = offers_upto(kind, sts, a, pos, n);
        let m = n - 1;
        match offer_for(kind, sts[m], a, pos) {
            Some(x) => {
                assert(cur == prev.push(x));
                assert(kind.refers(x.behavior, id) <==> sts[m].id == id);
                if sts[m].id == id {
                    assert forall|k: int| 0 <= k < m implies #[trigger] sts[k].id != id by {
                        if sts[k].id == id {
                            assert(sts[k].id == sts[m].id);
                        }
                    }
                    assert forall|i: int| 0 <= i < prev.len() implies !#[trigger] kind.refers(
                        prev[i].behavior,
                        id,
                    ) by {
                        if kind.refers(prev[i].behavior, id) {
                            assert(exists|k: int|
                                0 <= k < m && #[trigger] sts[k].id == id && offer_for(
                                    kind,
                                    sts[k],
                                    a,
                                    pos,
                                ) is Some);
                        }
                    }
                    assert(cur[prev.len() as int] == x);
                    assert forall|i1: int, i2: int|
                        0 <= i1 < cur.len() && 0 <= i2 < cur.len() && #[trigger] kind.refers(
                            cur[i1].behavior,
                            id,
                        ) && #[trigger] kind.refers(cur[i2].behavior, id) implies i1 == i2 by {
                        if i1 < prev.len() {
                            assert(cur[i1] == prev[i1]);
                        }
                        if i2 < prev.len() {
                            assert(cur[i2] == prev[i2]);
                        }
                    }
                } else {
                    assert forall|i1: int, i2: int|
                        0 <= i1 < cur.len() && 0 <= i2 < cur.len() && #[trigger] kind.refers(
                            cur[i1].behavior,
                            id,
                        ) && #[trigger] kind.refers(cur[i2].behavior, id) implies i1 == i2 by {
                        if i1 < prev.len() {
                            assert(cur[i1] == prev[i1]);
                        }
                        if i2 < prev.len() {
                            assert(cur[i2] == prev[i2]);
                        }
                    }
                    if exists|i: int| 0 <= i < cur.len() && #[trigger] kind.refers(cur[i].behavior, id) {
                        let i = choose|i: int| 0 <= i < cur.len() && #[trigger] kind.refers(cur[i].behavior, id);
                        assert(cur[i] == prev[i]);
                    }
                    if exists|k: int| 0 <= k < n && #[trigger] sts[k].id == id && offer_for(kind, sts[k], a, pos) is Some {
                        let k = choose|k: int| 0 <= k < n && #[trigger] sts[k].id == id && offer_for(kind, sts[k], a, pos) is Some;
                        assert(k < m);
                        let i = choose|i: int| 0 <= i < prev.len() && #[trigger] kind.refers(prev[i].behavior, id);
                        assert(cur[i] == prev[i]);
                    }
                }
            },
            None => {
                assert(cur == prev);
                if exists|k: int| 0 <= k < n && #[trigger] sts[k].id == id && offer_for(kind, sts[k], a, pos) is Some {
                    let k = choose|k: int| 0 <= k < n && #[trigger] sts[k].id == id && offer_for(kind, sts[k], a, pos) is Some;
                    assert(k < m);
                }
            },
        }
    }
}

/// With distinct site ids, a dweeb that may be offered this kind gets an offer for
/// a free site exactly when it is the nearest claimant or the nearest claimant is
/// outside the claim radius, and then exactly one offer for it.
pub proof fn law_claim_rule(
    kind: DestinationKind,
    agents: Seq<Agent>,
    sites: Seq<Site>,
    a: int,
    k: int,
)
    requires
        0 <= a < agents.len() <= usize::MAX,
        0 <= k < sites.len(),
        forall|k1: int, k2: int|
            0 <= k1 < sites.len() && 0 <= k2 < sites.len() && #[trigger] sites[k1].id
                == #[trigger] sites[k2].id ==> k1 == k2,
        kind.may_propose(agents[a].behavior),
        free(kind, agents, sites[k].id),
    ensures
        (exists|i: int|
            0 <= i < offers(kind, agents, statuses(kind, agents, sites), a).len()
                && #[trigger] kind.refers(
                offers(kind, agents, statuses(kind, agents, sites), a)[i].behavior,
                sites[k].id,
            )) <==> !suppressed(status_of(kind, agents, sites[k]), a),
        forall|i1: int, i2: int|
            0 <= i1 < offers(kind, agents, statuses(kind, agents, sites), a).len() && 0 <= i2
                < offers(kind, agents, statuses(kind, agents, sites), a).len()
                && #[trigger] kind.refers(
                offers(kind, agents, statuses(kind, agents, sites), a)[i1].behavior,
                sites[k].id,
            ) && #[trigger] kind.refers(
                offers(kind, agents, statuses(kind, agents, sites), a)[i2].behavior,
                sites[k].id,
            ) ==> i1 == i2,
{
    let sts = statuses(kind, agents, sites);
    let id = sites[k].id;
    lemma_statuses_len(kind, agents, sites);
    lemma_blocked(kind, agents, sites[k], a);
    assert forall|k1: int, k2: int|
        0 <= k1 < sts.len() && 0 <= k2 < sts.len() && #[trigger] sts[k1].id == #[trigger] sts[k2].id
        implies k1 == k2 by {
        assert(sites[k1].id == sites[k2].id);
    }
    lemma_offers_referring(kind, sts, a, agents[a].position, id, sts.len() as int);
    if exists|j: int|
        0 <= j < sts.len() && #[trigger] sts[j].id == id && offer_for(kind, sts[j], a, agents[a].position) is Some {
        let j = choose|j: int|
            0 <= j < sts.len() && #[trigger] sts[j].id == id && offer_for(kind, sts[j], a, agents[a].position) is Some;
        assert(sites[j].id == sites[k].id);
    }
    assert(sts[k].id == id);
}

} // verus!
