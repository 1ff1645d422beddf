use vstd::prelude::*;

use crate::advisor::{all_wf, best_index, committed_after, is_winner, law_single_winner, Suggestion};
use crate::behavior::Behavior;
use crate::countdown::Countdown;
use crate::geometry::{flat_dist_sq, flat_distance_sq};
use crate::policy::{
    destination_offers, destination_statuses, held_by_other, is_blocked, lemma_blocked,
    lemma_statuses_len, offers, statuses, Agent, DestinationKind, DestinationStatus, Site,
    DESK_REACH_SQ,
};
use crate::score::Score;

verus! {

/// Score of falling asleep on a bed underfoot.
pub const SLEEP_SCORE: i32 = 1000;

/// Score of waking from sleep: below sleeping, so a bed still underfoot wins back.
pub const WAKE_SCORE: i32 = 900;

/// Score of staying awake until the startle wears off: above sleeping.
pub const STAY_AWAKE_SCORE: i32 = 1100;

/// Score of going on scribing at a desk within reach.
pub const SCRIBE_SCORE: i32 = 1000;

/// Wait after waking from REM sleep: this many microseconds plus up to `REM_WAIT_SPREAD`.
pub const REM_WAIT_BASE: u64 = 2_000_000;
pub const REM_WAIT_SPREAD: u64 = 1_000_000;

/// Wait after waking from deep sleep: this many microseconds plus up to `DEEP_WAIT_SPREAD`.
pub const DEEP_WAIT_BASE: u64 = 4_000_000;
pub const DEEP_WAIT_SPREAD: u64 = 2_000_000;

/// A random draw read as a fraction of 2^32.
pub const DRAW_RANGE: u64 = 0x1_0000_0000;

/// The first of the first `n` sites that has id `id`.
pub open spec fn find_upto(sites: Seq<Site>, id: u64, n: int) -> Option<int>
    decreases n,
{
    if n <= 0 {
        None
    } else {
        match find_upto(sites, id, n - 1) {
            Some(i) => Some(i),
            None => if sites[n - 1].id == id {
                Some(n - 1)
            } else {
                None
            },
        }
    }
}

pub open spec fn find_site(sites: Seq<Site>, id: u64) -> Option<int> {
    find_upto(sites, id, sites.len() as int)
}

proof fn lemma_find_upto(sites: Seq<Site>, id: u64, n: int)
    requires
        0 <= n <= sites.len(),
    ensures
        find_upto(sites, id, n) matches Some(i) ==> 0 <= i < n && sites[i].id == id,
        find_upto(sites, id, n) is None ==> forall|j: int| 0 <= j < n ==> #[trigger] sites[j].id != id,
    decreases n,
{
    if n > 0 {
        lemma_find_upto(sites, id, n - 1);
    }
}

proof fn lemma_find_stays(sites: Seq<Site>, id: u64, i: int, n: int)
    requires
        0 <= i < n <= sites.len(),
        find_upto(sites, id, i + 1) == Some(i),
    ensures
        find_upto(sites, id, n) == Some(i),
    decreases n,
{
    if n > i + 1 {
        lemma_find_stays(sites, id, i, n - 1);
    }
}

/// The index of the first site with id `id`.
pub fn site_index(sites: &Vec<Site>, id: u64) -> (r: Option<usize>)
    ensures
        r matches Some(i) ==> find_site(sites@, id) == Some(i as int),
        r is None ==> find_site(sites@, id) is None,
        r matches Some(i) ==> i < sites@.len() && sites@[i as int].id == id,
{
    let mut i: usize = 0;
    while i < sites.len()
        invariant
            i <= sites@.len(),
            find_upto(sites@, id, i as int) is None,
        decreases sites@.len() - i,
    {
        if sites[i].id == id {
            proof {
                lemma_find_stays(sites@, id, i as int, sites@.len() as int);
            }
            return Some(i);
        }
        i += 1;
    }
    None
}

/// The floor every dweeb is offered each tick: idling, below every other score.
pub fn idle_suggestion() -> (r: Suggestion)
    ensures
        r == (Suggestion { score: Score::Lowest, behavior: Behavior::Idle }),
        r.wf(),
{
    Suggestion { score: Score::Lowest, behavior: Behavior::Idle }
}

pub open spec fn sleep_offer(agents: Seq<Agent>, a: int, beds: Seq<Site>) -> Option<Suggestion> {
    let agent = agents[a];
    match (agent.airborne, agent.ground) {
        (Some(false), Some(id)) => if find_site(beds, id) is Some && !held_by_other(
            DestinationKind::Bed,
            agents,
            id,
            a,
        ) {
            Some(
                Suggestion {
                    score: Score::Ratio { num: SLEEP_SCORE, den: 1 },
                    behavior: Behavior::Sleep { bed: id, stage_is_rem: false, stage_progress: 0 },
                },
            )
        } else {
            None
        },
        _ => None,
    }
}

/// Sleep on the bed underfoot, starting a deep stage: offered when dweeb `a` is
/// known to be on the ground, its sensor touches a bed, and no other dweeb holds
/// that bed. `bed_statuses` are this tick's statuses of the beds.
pub fn sleep_suggestion(
    agents: &Vec<Agent>,
    a: usize,
    beds: &Vec<Site>,
    bed_statuses: &Vec<DestinationStatus>,
) -> (r: Option<Suggestion>)
    requires
        a < agents@.len(),
        bed_statuses@ == statuses(DestinationKind::Bed, agents@, beds@),
    ensures
        r == sleep_offer(agents@, a as int, beds@),
        r matches Some(s) ==> s.wf(),
{
    // Reading the length brings in that it fits in a usize.
    let _ = agents.len();
    let agent = &agents[a];
    match (agent.airborne, agent.ground) {
        (Some(false), Some(id)) => match site_index(beds, id) {
            Some(k) => {
                proof {
                    lemma_statuses_len(DestinationKind::Bed, agents@, beds@);
                    lemma_blocked(DestinationKind::Bed, agents@, beds@[k as int], a as int);
                }
                if is_blocked(&bed_statuses[k], a) {
                    None
                } else {
                    Some(
                        Suggestion {
                            score: Score::whole(SLEEP_SCORE),
                            behavior: Behavior::Sleep {
                                bed: id,
                                stage_is_rem: false,
                                stage_progress: 0,
                            },
                        },
                    )
                }
            },
            None => None,
        },
        _ => None,
    }
}

/// How long a dweeb woken from the given stage stays startled, for a draw read as a
/// fraction of 2^32: shorter after REM sleep.
pub open spec fn wait_after(from_rem: bool, draw: u32) -> int {
    if from_rem {
        REM_WAIT_BASE + REM_WAIT_SPREAD * draw / (DRAW_RANGE as int)
    } else {
        DEEP_WAIT_BASE + DEEP_WAIT_SPREAD * draw / (DRAW_RANGE as int)
    }
}

pub open spec fn awaken_offer(b: Behavior, draw: u32) -> Option<Suggestion> {
    match b {
        Behavior::Sleep { stage_is_rem, .. } => Some(
            Suggestion {
                score: Score::Ratio { num: WAKE_SCORE, den: 1 },
                behavior: Behavior::Startled {
                    from_rem: stage_is_rem,
                    timer: Countdown {
                        duration: wait_after(stage_is_rem, draw) as u64,
                        elapsed: 0,
                        done: false,
                    },
                },
            },
        ),
        Behavior::Startled { timer, .. } => if !timer.done {
            Some(
                Suggestion {
                    score: Score::Ratio { num: STAY_AWAKE_SCORE, den: 1 },
                    behavior: Behavior::Startled {
                        from_rem: false,
                        timer: Countdown { duration: 0, elapsed: 0, done: false },
                    },
                },
            )
        } else {
            None
        },
        _ => None,
    }
}

/// While asleep, waking up is offered with a random wait; while startled and the
/// wait is not over, staying startled is offered (its state is then kept, since the
/// identity matches).
pub fn awaken_suggestion(b: &Behavior, draw: u32) -> (r: Option<Suggestion>)
    ensures
        r == awaken_offer(*b, draw),
        r matches Some(s) ==> s.wf(),
{
    match b {
        Behavior::Sleep { stage_is_rem, .. } => {
            let (base, spread) = if *stage_is_rem {
                (REM_WAIT_BASE, REM_WAIT_SPREAD)
            } else {
                (DEEP_WAIT_BASE, DEEP_WAIT_SPREAD)
            };
            let extra = (spread as u128 * draw as u128 / DRAW_RANGE as u128) as u64;
            assert(spread * draw / (DRAW_RANGE as int) <= spread) by (nonlinear_arith)
                requires
                    0 <= draw < DRAW_RANGE,
                    spread <= DEEP_WAIT_SPREAD,
            ;
            Some(
                Suggestion {
                    score: Score::whole(WAKE_SCORE),
                    behavior: Behavior::Startled {
                        from_rem: *stage_is_rem,
                        timer: Countdown::new(base + extra),
                    },
                },
            )
        },
        Behavior::Startled { timer, .. } => if !timer.finished() {
            Some(
                Suggestion {
                    score: Score::whole(STAY_AWAKE_SCORE),
                    behavior: Behavior::Startled { from_rem: false, timer: Countdown::new(0) },
                },
            )
        } else {
            None
        },
        _ => None,
    }
}

pub open spec fn scribe_offer(agents: Seq<Agent>, a: int, desks: Seq<Site>) -> Option<Suggestion> {
    let agent = agents[a];
    match agent.behavior {
        Behavior::Scribe { desk, timer } => if !timer.done && find_site(desks, desk) is Some
            && !held_by_other(DestinationKind::Desk, agents, desk, a) && flat_dist_sq(
            agent.position,
            desks[find_site(desks, desk).unwrap()].working_point,
        ) <= DESK_REACH_SQ {
            Some(
                Suggestion {
                    score: Score::Ratio { num: SCRIBE_SCORE, den: 1 },
                    behavior: Behavior::Scribe {
                        desk,
                        timer: Countdown { duration: 0, elapsed: 0, done: false },
                    },
                },
            )
        } else {
            None
        },
        _ => None,
    }
}

/// A scribing dweeb still within reach of its desk's working point, which no other
/// dweeb holds, is offered to go on until its timer runs out (the running timer is
/// kept, since the identity matches). `desk_statuses` are this tick's statuses of
/// the desks.
pub fn scribe_suggestion(
    agents: &Vec<Agent>,
    a: usize,
    desks: &Vec<Site>,
    desk_statuses: &Vec<DestinationStatus>,
) -> (r: Option<Suggestion>)
    requires
        a < agents@.len(),
        desk_statuses@ == statuses(DestinationKind::Desk, agents@, desks@),
    ensures
        r == scribe_offer(agents@, a as int, desks@),
        r matches Some(s) ==> s.wf(),
{
    // Reading the length brings in that it fits in a usize.
    let _ = agents.len();
    let agent = &agents[a];
    match agent.behavior {
        Behavior::Scribe { desk, timer } => {
            if timer.finished() {
                return None;
            }
            match site_index(desks, desk) {
                Some(k) => {
                    proof {
                        lemma_statuses_len(DestinationKind::Desk, agents@, desks@);
                        lemma_blocked(DestinationKind::Desk, agents@, desks@[k as int], a as int);
                    }
                    if !is_blocked(&desk_statuses[k], a) && flat_distance_sq(
                        agent.position,
                        desks[k].working_point,
                    ) <= DESK_REACH_SQ {
                        Some(
                            Suggestion {
                                score: Score::whole(SCRIBE_SCORE),
                                behavior: Behavior::Scribe { desk, timer: Countdown::new(0) },
                            },
                        )
                    } else {
                        None
                    }
                },
                None => None,
            }
        },
        _ => None,
    }
}

pub open spec fn opt_seq(o: Option<Suggestion>) -> Seq<Suggestion> {
    match o {
        Some(s) => seq![s],
        None => Seq::empty(),
    }
}

/// Every suggestion dweeb `a` gets in one tick, in the order they are made: waking,
/// the idle floor, sleeping, beds, desks, scribing.
pub open spec fn suggestions_for(
    agents: Seq<Agent>,
    beds: Seq<Site>,
    desks: Seq<Site>,
    a: int,
    draw: u32,
) -> Seq<Suggestion> {
    opt_seq(awaken_offer(agents[a].behavior, draw)) + seq![
        Suggestion { score: Score::Lowest, behavior: Behavior::Idle },
    ] + opt_seq(sleep_offer(agents, a, beds)) + offers(
        DestinationKind::Bed,
        agents,
        statuses(DestinationKind::Bed, agents, beds),
        a,
    ) + offers(DestinationKind::Desk, agents, statuses(DestinationKind::Desk, agents, desks), a)
        + opt_seq(scribe_offer(agents, a, desks))
}

fn push_opt(v: &mut Vec<Suggestion>, o: Option<Suggestion>)
    requires
        o matches Some(s) ==> s.wf(),
    ensures
        final(v)@ == old(v)@ + opt_seq(o),
{
    match o {
        Some(s) => v.push(s),
        None => {},
    }
    proof {
        if o is None {
            assert(old(v)@ + opt_seq(o) =~= old(v)@);
        }
    }
}

fn append_all(v: &mut Vec<Suggestion>, w: &Vec<Suggestion>)
    ensures
        final(v)@ == old(v)@ + w@,
{
    let mut i: usize = 0;
    while i < w.len()
        invariant
            i <= w@.len(),
            v@ == old(v)@ + w@.subrange(0, i as int),
        decreases w@.len() - i,
    {
        v.push(w[i]);
        i += 1;
        assert(v@ =~= old(v)@ + w@.subrange(0, i as int));
    }
    assert(w@.subrange(0, w@.len() as int) =~= w@);
}

/// Gathers the suggestions for dweeb `a`, given this tick's statuses of the beds and
/// desks.
pub fn suggest_for(
    agents: &Vec<Agent>,
    beds: &Vec<Site>,
    desks: &Vec<Site>,
    bed_statuses: &Vec<DestinationStatus>,
    desk_statuses: &Vec<DestinationStatus>,
    a: usize,
    draw: u32,
) -> (r: Vec<Suggestion>)
    requires
        a < agents@.len(),
        bed_statuses@ == statuses(DestinationKind::Bed, agents@, beds@),
        desk_statuses@ == statuses(DestinationKind::Desk, agents@, desks@),
    ensures
        r@ == suggestions_for(agents@, beds@, desks@, a as int, draw),
        all_wf(r@),
{
    let mut r: Vec<Suggestion> = Vec::new();
    push_opt(&mut r, awaken_suggestion(&agents[a].behavior, draw));
    r.push(idle_suggestion());
    push_opt(&mut r, sleep_suggestion(agents, a, beds, bed_statuses));
    let bed_offers = destination_offers(DestinationKind::Bed, agents, beds, bed_statuses, a);
    append_all(&mut r, &bed_offers);
    let desk_offers = destination_offers(DestinationKind::Desk, agents, desks, desk_statuses, a);
    append_all(&mut r, &desk_offers);
    push_opt(&mut r, scribe_suggestion(agents, a, desks, desk_statuses));
    proof {
        assert(r@ =~= suggestions_for(agents@, beds@, desks@, a as int, draw));
        lemma_suggestions_wf(agents@, beds@, desks@, a as int, draw);
    }
    r
}

/// The suggest stage of one tick: for each dweeb, in order, every suggestion it
/// gets. `draws[a]` is dweeb `a`'s random draw for its waking wait.
pub fn suggest_all(agents: &Vec<Agent>, beds: &Vec<Site>, desks: &Vec<Site>, draws: &Vec<u32>) -> (r:
    Vec<Vec<Suggestion>>)
    requires
        draws@.len() == agents@.len(),
    ensures
        r@.len() == agents@.len(),
        forall|a: int|
            0 <= a < agents@.len() ==> (#[trigger] r@[a])@ == suggestions_for(
                agents@,
                beds@,
                desks@,
                a,
                draws@[a],
            ),
        forall|a: int| 0 <= a < agents@.len() ==> all_wf(#[trigger] r@[a]@),
{
    let bed_statuses = destination_statuses(DestinationKind::Bed, agents, beds);
    let desk_statuses = destination_statuses(DestinationKind::Desk, agents, desks);
    let mut r: Vec<Vec<Suggestion>> = Vec::new();
    let mut a: usize = 0;
    while a < agents.len()
        invariant
            a <= agents@.len(),
            draws@.len() == agents@.len(),
            bed_statuses@ == statuses(DestinationKind::Bed, agents@, beds@),
            desk_statuses@ == statuses(DestinationKind::Desk, agents@, desks@),
            r@.len() == a,
            forall|b: int|
                0 <= b < a ==> (#[trigger] r@[b])@ == suggestions_for(
                    agents@,
                    beds@,
                    desks@,
                    b,
                    draws@[b],
                ),
            forall|b: int| 0 <= b < a ==> all_wf(#[trigger] r@[b]@),
        decreases agents@.len() - a,
    {
        let s = suggest_for(agents, beds, desks, &bed_statuses, &desk_statuses, a, draws[a]);
        r.push(s);
        a += 1;
    }
    r
}

} // verus!

verus! {

proof fn lemma_offers_wf(
    kind: DestinationKind,
    sts: Seq<DestinationStatus>,
    a: int,
    pos: crate::geometry::Point,
    n: int,
)
    requires
        0 <= n <= sts.len(),
    ensures
        all_wf(crate::policy::offers_upto(kind, sts, a, pos, n)),
    decreases n,
{
    if n > 0 {
        lemma_offers_wf(kind, sts, a, pos, n - 1);
        crate::geometry::lemma_dist_sq_bounds(sts[n - 1].position, pos);
        let prev = crate::policy::offers_upto(kind, sts, a, pos, n - 1);
        let cur = crate::policy::offers_upto(kind, sts, a, pos, n);
        assert forall|i: int| 0 <= i < cur.len() implies #[trigger] cur[i].wf() by {
            if i < prev.len() {
                assert(cur[i] == prev[i]);
            }
        }
    }
}

proof fn lemma_opt_wf(o: Option<Suggestion>)
    requires
        o matches Some(s) ==> s.wf(),
    ensures
        all_wf(opt_seq(o)),
{
}

/// Everything a dweeb is offered in a tick is well formed.
pub proof fn lemma_suggestions_wf(
    agents: Seq<Agent>,
    beds: Seq<Site>,
    desks: Seq<Site>,
    a: int,
    draw: u32,
)
    requires
        0 <= a < agents.len(),
    ensures
        all_wf(suggestions_for(agents, beds, desks, a, draw)),
{
    let ag = agents[a];
    let bed_sts = statuses(DestinationKind::Bed, agents, beds);
    let desk_sts = statuses(DestinationKind::Desk, agents, desks);
    let waking = opt_seq(awaken_offer(ag.behavior, draw));
    let floor = seq![Suggestion { score: Score::Lowest, behavior: Behavior::Idle }];
    let sleeping = opt_seq(sleep_offer(agents, a, beds));
    let to_beds = offers(DestinationKind::Bed, agents, bed_sts, a);
    let to_desks = offers(DestinationKind::Desk, agents, desk_sts, a);
    let scribing = opt_seq(scribe_offer(agents, a, desks));
    match ag.behavior {
        Behavior::Sleep { stage_is_rem, .. } => {
            assert(0 <= wait_after(stage_is_rem, draw) <= DEEP_WAIT_BASE + DEEP_WAIT_SPREAD) by {
                assert(0 <= DEEP_WAIT_SPREAD * draw / (DRAW_RANGE as int) <= DEEP_WAIT_SPREAD)
                    by (nonlinear_arith)
                    requires
                        0 <= draw < DRAW_RANGE,
                ;
                assert(0 <= REM_WAIT_SPREAD * draw / (DRAW_RANGE as int) <= REM_WAIT_SPREAD)
                    by (nonlinear_arith)
                    requires
                        0 <= draw < DRAW_RANGE,
                ;
            }
        },
        _ => {},
    }
    lemma_opt_wf(awaken_offer(ag.behavior, draw));
    lemma_opt_wf(sleep_offer(agents, a, beds));
    lemma_opt_wf(scribe_offer(agents, a, desks));
    lemma_offers_wf(DestinationKind::Bed, bed_sts, a, ag.position, bed_sts.len() as int);
    lemma_offers_wf(DestinationKind::Desk, desk_sts, a, ag.position, desk_sts.len() as int);
    let s = suggestions_for(agents, beds, desks, a, draw);
    assert(s == waking + floor + sleeping + to_beds + to_desks + scribing);
    assert forall|i: int| 0 <= i < s.len() implies #[trigger] s[i].wf() by {
        let n1 = waking.len() as int;
        let n2 = n1 + floor.len();
        let n3 = n2 + sleeping.len();
        let n4 = n3 + to_beds.len();
        let n5 = n4 + to_desks.len();
        if i < n1 {
            assert(s[i] == waking[i]);
        } else if i < n2 {
            assert(s[i] == floor[i - n1]);
        } else if i < n3 {
            assert(s[i] == sleeping[i - n2]);
        } else if i < n4 {
            assert(s[i] == to_beds[i - n3]);
        } else if i < n5 {
            assert(s[i] == to_desks[i - n4]);
        } else {
            assert(s[i] == scribing[i - n5]);
        }
    }
}

/// Every dweeb is offered the idle floor each tick, so its suggestions are never
/// empty and arbitration commits exactly one behavior: that of the single winner.
pub proof fn law_one_behavior_per_tick(
    prev: Behavior,
    agents: Seq<Agent>,
    beds: Seq<Site>,
    desks: Seq<Site>,
    a: int,
    draw: u32,
)
    requires
        0 <= a < agents.len(),
    ensures
        suggestions_for(agents, beds, desks, a, draw).len() > 0,
        is_winner(
            suggestions_for(agents, beds, desks, a, draw),
            best_index(suggestions_for(agents, beds, desks, a, draw)),
        ),
        forall|v: int| #[trigger]
            is_winner(suggestions_for(agents, beds, desks, a, draw), v) ==> v == best_index(
                suggestions_for(agents, beds, desks, a, draw),
            ),
        committed_after(prev, suggestions_for(agents, beds, desks, a, draw)).key_of()
            == suggestions_for(agents, beds, desks, a, draw)[best_index(
            suggestions_for(agents, beds, desks, a, draw),
        )].behavior.key_of(),
{
    let s = suggestions_for(agents, beds, desks, a, draw);
    lemma_suggestions_wf(agents, beds, desks, a, draw);
    assert(s.len() > 0);
    law_single_winner(prev, s);
}

} // verus!

verus! {

/// The behavior dweeb `a` commits in a tick that starts from `agents`, where
/// `draws[a]` is its random draw.
pub open spec fn committed_in_tick(
    agents: Seq<Agent>,
    beds: Seq<Site>,
    desks: Seq<Site>,
    draws: Seq<u32>,
    a: int,
) -> Behavior {
    committed_after(agents[a].behavior, suggestions_for(agents, beds, desks, a, draws[a]))
}

proof fn lemma_holds_by_key(kind: DestinationKind, b1: Behavior, b2: Behavior, id: u64)
    requires
        b1.key_of() == b2.key_of(),
        kind.holds(b1, id),
    ensures
        kind.holds(b2, id),
{
    match b1 {
        Behavior::JumpOnBed { .. } => assert(b2 is JumpOnBed),
        Behavior::Sleep { .. } => assert(b2 is Sleep),
        Behavior::Scribe { .. } => assert(b2 is Scribe),
        _ => {},
    }
}

/// Every suggestion dweeb `a` gets that would hold a resource refers to one that
/// no other dweeb holds.
proof fn lemma_holding_suggestions(
    agents: Seq<Agent>,
    beds: Seq<Site>,
    desks: Seq<Site>,
    a: int,
    draw: u32,
    kind: DestinationKind,
    id: u64,
)
    requires
        0 <= a < agents.len() <= usize::MAX,
    ensures
        forall|i: int|
            0 <= i < suggestions_for(agents, beds, desks, a, draw).len() && kind.holds(
                (#[trigger] suggestions_for(agents, beds, desks, a, draw)[i]).behavior,
                id,
            ) ==> !held_by_other(kind, agents, id, a),
{
    let ag = agents[a];
    let bed_sts = statuses(DestinationKind::Bed, agents, beds);
    let desk_sts = statuses(DestinationKind::Desk, agents, desks);
    let waking = opt_seq(awaken_offer(ag.behavior, draw));
    let floor = seq![Suggestion { score: Score::Lowest, behavior: Behavior::Idle }];
    let sleeping = opt_seq(sleep_offer(agents, a, beds));
    let to_beds = offers(DestinationKind::Bed, agents, bed_sts, a);
    let to_desks = offers(DestinationKind::Desk, agents, desk_sts, a);
    let scribing = opt_seq(scribe_offer(agents, a, desks));
    crate::policy::law_held_not_offered(DestinationKind::Bed, agents, beds, a);
    crate::policy::law_held_not_offered(DestinationKind::Desk, agents, desks, a);
    let s = suggestions_for(agents, beds, desks, a, draw);
    assert(s == waking + floor + sleeping + to_beds + to_desks + scribing);
    assert forall|i: int|
        0 <= i < s.len() && kind.holds(#[trigger] s[i].behavior, id) implies !held_by_other(
        kind,
        agents,
        id,
        a,
    ) by {
        let n1 = waking.len() as int;
        let n2 = n1 + floor.len();
        let n3 = n2 + sleeping.len();
        let n4 = n3 + to_beds.len();
        let n5 = n4 + to_desks.len();
        if i < n1 {
            assert(s[i] == waking[i]);
        } else if i < n2 {
            assert(s[i] == floor[i - n1]);
        } else if i < n3 {
            assert(s[i] == sleeping[i - n2]);
        } else if i < n4 {
            assert(s[i] == to_beds[i - n3]);
            assert(kind.holds(to_beds[i - n3].behavior, id));
        } else if i < n5 {
            assert(s[i] == to_desks[i - n4]);
            assert(kind.holds(to_desks[i - n4].behavior, id));
        } else {
            assert(s[i] == scribing[i - n5]);
        }
    }
}

/// A dweeb that holds a resource after a tick's commit holds one that no other
/// dweeb held when the tick started: nobody takes over a bed or desk in use.
pub proof fn law_no_takeover(
    kind: DestinationKind,
    agents: Seq<Agent>,
    beds: Seq<Site>,
    desks: Seq<Site>,
    draws: Seq<u32>,
    a: int,
    id: u64,
)
    requires
        0 <= a < agents.len() <= usize::MAX,
        draws.len() == agents.len(),
        kind.holds(committed_in_tick(agents, beds, desks, draws, a), id),
    ensures
        !held_by_other(kind, agents, id, a),
{
    let s = suggestions_for(agents, beds, desks, a, draws[a]);
    law_one_behavior_per_tick(agents[a].behavior, agents, beds, desks, a, draws[a]);
    let w = best_index(s);
    let after = committed_in_tick(agents, beds, desks, draws, a);
    if after != s[w].behavior {
        lemma_holds_by_key(kind, after, s[w].behavior, id);
    }
    lemma_holding_suggestions(agents, beds, desks, a, draws[a], kind, id);
}

/// Two dweebs can hold the same resource after a tick only if it was free when
/// the tick started: the one race left is two dweebs taking a free resource in the
/// same tick.
pub proof fn law_exclusive_holding(
    kind: DestinationKind,
    agents: Seq<Agent>,
    beds: Seq<Site>,
    desks: Seq<Site>,
    draws: Seq<u32>,
    a: int,
    b: int,
    id: u64,
)
    requires
        0 <= a < agents.len() <= usize::MAX,
        0 <= b < agents.len(),
        a != b,
        draws.len() == agents.len(),
        kind.holds(committed_in_tick(agents, beds, desks, draws, a), id),
        kind.holds(committed_in_tick(agents, beds, desks, draws, b), id),
    ensures
        crate::policy::free(kind, agents, id),
{
    law_no_takeover(kind, agents, beds, desks, draws, a, id);
    law_no_takeover(kind, agents, beds, desks, draws, b, id);
    assert forall|j: int| 0 <= j < agents.len() implies !kind.holds(
        #[trigger] agents[j].behavior,
        id,
    ) by {
        if j != a {
            assert(!kind.holds(agents[j].behavior, id));
        } else {
            assert(j != b);
        }
    }
}

/// A resource that two dweebs hold at the start of a tick is held by nobody after
/// its commit: such a race lasts one tick.
pub proof fn law_race_clears(
    kind: DestinationKind,
    agents: Seq<Agent>,
    beds: Seq<Site>,
    desks: Seq<Site>,
    draws: Seq<u32>,
    j1: int,
    j2: int,
    id: u64,
)
    requires
        0 <= j1 < agents.len() <= usize::MAX,
        0 <= j2 < agents.len(),
        j1 != j2,
        draws.len() == agents.len(),
        kind.holds(agents[j1].behavior, id),
        kind.holds(agents[j2].behavior, id),
    ensures
        forall|a: int|
            0 <= a < agents.len() ==> !kind.holds(
                #[trigger] committed_in_tick(agents, beds, desks, draws, a),
                id,
            ),
{
    assert forall|a: int| 0 <= a < agents.len() implies !kind.holds(
        #[trigger] committed_in_tick(agents, beds, desks, draws, a),
        id,
    ) by {
        if kind.holds(committed_in_tick(agents, beds, desks, draws, a), id) {
            law_no_takeover(kind, agents, beds, desks, draws, a, id);
            if j1 != a {
                assert(held_by_other(kind, agents, id, a));
            } else {
                assert(held_by_other(kind, agents, id, a));
            }
        }
    }
}

} // verus!
