use swift_dreams_are_made_for_dweebs::actors::{act, advance_sleep, Action, Motion};
use swift_dreams_are_made_for_dweebs::suggesters::{awaken_suggestion, scribe_suggestion, sleep_suggestion, suggest_all};
use swift_dreams_are_made_for_dweebs::{
    destination_statuses, DestinationKind,
    ActionForKbgp, Agent, AppState, Behavior, Countdown, DweebEffect, Flat, GameData, IncreaseScore, Point,
    Score, Site, Suggestion,
};

fn pt(x: i32, y: i32, z: i32) -> Point {
    Point { x, y, z }
}

fn bed(id: u64, x: i32, z: i32) -> Site {
    Site { id, center: pt(x, 200, z), working_point: pt(x, 200, z), forward: pt(0, 0, -100) }
}

fn desk(id: u64, x: i32, z: i32) -> Site {
    Site { id, center: pt(x, 100, z), working_point: pt(x, 100, z + 100), forward: pt(0, 0, -100) }
}

fn agent(x: i32, z: i32, behavior: Behavior) -> Agent {
    Agent { position: pt(x, 200, z), behavior, airborne: Some(false), ground: None }
}

#[test]
fn sleep_stage_wraps() {
    // 0.95 of a deep stage, one second at the base rate (0.15 per second).
    let (rem, progress) = advance_sleep(false, 950_000, 1_000_000, 0);
    assert!(rem);
    assert_eq!(progress, 100_000);
}

#[test]
fn sleep_stage_grows_within_stage() {
    assert_eq!(advance_sleep(false, 100_000, 1_000_000, 0), (false, 250_000));
    assert_eq!(advance_sleep(true, 100_000, 1_000_000, 0), (true, 400_000));
    assert_eq!(advance_sleep(true, 100_000, 0, 12345), (true, 100_000));
}

#[test]
fn sleep_stage_jitter_bounds() {
    // Jitter -1 gives 0.1 per second in deep sleep, nearly +1 gives nearly 0.2.
    assert_eq!(advance_sleep(false, 0, 1_000_000, i32::MIN), (false, 100_000));
    assert_eq!(advance_sleep(false, 0, 1_000_000, i32::MAX), (false, 199_999));
    assert_eq!(advance_sleep(true, 0, 1_000_000, i32::MIN), (true, 200_000));
}

#[test]
fn sleep_stage_long_tick_wraps_once() {
    let (rem, progress) = advance_sleep(true, 900_000, 10_000_000, 0);
    assert!(!rem);
    assert_eq!(progress, 900_000);
}

#[test]
fn far_bed_actor_walks_towards_it() {
    let beds = vec![bed(1, 1000, 0)];
    let a = agent(0, 0, Behavior::WalkToBed { bed: 1 });
    let r = act(&a, &beds, &Vec::new(), 16_000, 0);
    assert_eq!(
        r,
        Action {
            behavior: Behavior::WalkToBed { bed: 1 },
            motion: Some(Motion::Walk { heading: Flat { x: 1000, z: 0 }, speed: 250, float_height: 200 }),
            scored: false
        }
    );
}

#[test]
fn idle_actor_stands_still() {
    let r = act(&agent(3, 4, Behavior::Idle), &Vec::new(), &Vec::new(), 16_000, 0);
    assert_eq!(r.motion, Some(Motion::Walk { heading: Flat { x: 0, z: 0 }, speed: 250, float_height: 200 }));
}

#[test]
fn jump_actor_leaps_at_bed() {
    let beds = vec![bed(1, 0, 0)];
    let r = act(&agent(100, -50, Behavior::JumpOnBed { bed: 1 }), &beds, &Vec::new(), 16_000, 0);
    assert_eq!(
        r.motion,
        Some(Motion::Leap { heading: Flat { x: -100, z: 50 }, speed: 250, float_height: 200, jump_height: 200 })
    );
}

#[test]
fn missing_bed_skips_motion() {
    let b = Behavior::Sleep { bed: 9, stage_is_rem: false, stage_progress: 5 };
    let r = act(&agent(0, 0, b), &vec![bed(1, 0, 0)], &Vec::new(), 1_000_000, 0);
    assert_eq!(r, Action { behavior: b, motion: None, scored: false });
}

#[test]
fn sleeping_actor_settles_and_advances() {
    let b = Behavior::Sleep { bed: 1, stage_is_rem: false, stage_progress: 950_000 };
    let r = act(&agent(30, 40, b), &vec![bed(1, 0, 0)], &Vec::new(), 1_000_000, 0);
    assert_eq!(r.behavior, Behavior::Sleep { bed: 1, stage_is_rem: true, stage_progress: 100_000 });
    assert_eq!(
        r.motion,
        Some(Motion::Settle { pull: Flat { x: -30, z: -40 }, max_speed: 200, facing: Flat { x: 0, z: -100 }, float_height: 100 })
    );
}

#[test]
fn scribe_actor_scores_when_done() {
    let desks = vec![desk(4, 0, 0)];
    let b = Behavior::Scribe { desk: 4, timer: Countdown::new(3_000_000) };
    let r = act(&agent(0, 100, b), &Vec::new(), &desks, 1_000_000, 0);
    assert!(!r.scored);
    assert_eq!(
        r.motion,
        Some(Motion::Settle { pull: Flat { x: 0, z: 0 }, max_speed: 200, facing: Flat { x: 0, z: -100 }, float_height: 150 })
    );
    let r2 = act(&agent(0, 100, r.behavior), &Vec::new(), &desks, 2_000_000, 0);
    assert!(r2.scored);
    assert_eq!(r2.motion, None);
}

#[test]
fn startled_actor_ticks_timer() {
    let b = Behavior::Startled { from_rem: true, timer: Countdown::new(2_000_000) };
    let r = act(&agent(0, 0, b), &Vec::new(), &Vec::new(), 500_000, 0);
    match r.behavior {
        Behavior::Startled { from_rem, timer } => {
            assert!(from_rem);
            assert_eq!(timer.elapsed, 500_000);
        }
        _ => panic!("identity changed"),
    }
}

fn sleep_for(agents: &Vec<Agent>, a: usize, beds: &Vec<Site>) -> Option<Suggestion> {
    let sts = destination_statuses(DestinationKind::Bed, agents, beds);
    sleep_suggestion(agents, a, beds, &sts)
}

fn scribe_for(agents: &Vec<Agent>, a: usize, desks: &Vec<Site>) -> Option<Suggestion> {
    let sts = destination_statuses(DestinationKind::Desk, agents, desks);
    scribe_suggestion(agents, a, desks, &sts)
}

#[test]
fn sleep_offered_only_on_ground_on_bed() {
    let beds = vec![bed(1, 0, 0)];
    let mut a = agent(0, 0, Behavior::Idle);
    a.ground = Some(1);
    assert_eq!(
        sleep_for(&vec![a], 0, &beds),
        Some(Suggestion { score: Score::whole(1000), behavior: Behavior::Sleep { bed: 1, stage_is_rem: false, stage_progress: 0 } })
    );
    a.airborne = None;
    assert_eq!(sleep_for(&vec![a], 0, &beds), None);
    a.airborne = Some(true);
    assert_eq!(sleep_for(&vec![a], 0, &beds), None);
    a.airborne = Some(false);
    a.ground = Some(2);
    assert_eq!(sleep_for(&vec![a], 0, &beds), None);
}

#[test]
fn no_sleep_in_a_bed_someone_holds() {
    let beds = vec![bed(1, 0, 0)];
    let sleeper = agent(0, 0, Behavior::Sleep { bed: 1, stage_is_rem: false, stage_progress: 5 });
    let jumper = agent(0, 0, Behavior::JumpOnBed { bed: 1 });
    let mut newcomer = agent(10, 10, Behavior::Idle);
    newcomer.ground = Some(1);
    assert_eq!(sleep_for(&vec![sleeper, newcomer], 1, &beds), None);
    assert_eq!(sleep_for(&vec![jumper, newcomer], 1, &beds), None);
    // The jumper itself may fall asleep in the bed it holds.
    let mut landed = jumper;
    landed.ground = Some(1);
    assert!(sleep_for(&vec![landed, agent(900, 0, Behavior::Idle)], 0, &beds).is_some());
}

#[test]
fn same_tick_race_on_a_free_bed_clears_next_tick() {
    let beds = vec![bed(1, 0, 0)];
    let mut x = agent(10, 0, Behavior::Idle);
    let mut y = agent(-10, 0, Behavior::Idle);
    x.ground = Some(1);
    y.ground = Some(1);
    let mut ax = swift_dreams_are_made_for_dweebs::Advisor::new(10);
    let mut ay = swift_dreams_are_made_for_dweebs::Advisor::new(10);
    let all = suggest_all(&vec![x, y], &beds, &Vec::new(), &vec![0, 0]);
    ax.deliberate(&all[0]);
    ay.deliberate(&all[1]);
    // Both took the free bed in the same tick.
    assert!(matches!(ax.committed(), Behavior::Sleep { bed: 1, .. }));
    assert!(matches!(ay.committed(), Behavior::Sleep { bed: 1, .. }));
    x.behavior = ax.committed();
    y.behavior = ay.committed();
    let all = suggest_all(&vec![x, y], &beds, &Vec::new(), &vec![0, 0]);
    ax.deliberate(&all[0]);
    ay.deliberate(&all[1]);
    assert!(matches!(ax.committed(), Behavior::Startled { .. }));
    assert!(matches!(ay.committed(), Behavior::Startled { .. }));
}

#[test]
fn awaken_waits_depend_on_stage() {
    let rem = Behavior::Sleep { bed: 1, stage_is_rem: true, stage_progress: 0 };
    let deep = Behavior::Sleep { bed: 1, stage_is_rem: false, stage_progress: 0 };
    assert_eq!(
        awaken_suggestion(&rem, 0),
        Some(Suggestion { score: Score::whole(900), behavior: Behavior::Startled { from_rem: true, timer: Countdown::new(2_000_000) } })
    );
    assert_eq!(
        awaken_suggestion(&deep, 0x8000_0000),
        Some(Suggestion { score: Score::whole(900), behavior: Behavior::Startled { from_rem: false, timer: Countdown::new(5_000_000) } })
    );
    assert_eq!(
        awaken_suggestion(&rem, u32::MAX),
        Some(Suggestion { score: Score::whole(900), behavior: Behavior::Startled { from_rem: true, timer: Countdown::new(2_999_999) } })
    );
}

#[test]
fn startled_stays_until_timer_done() {
    let mut timer = Countdown::new(1_000);
    let b = Behavior::Startled { from_rem: false, timer };
    assert_eq!(awaken_suggestion(&b, 7).unwrap().score, Score::whole(1100));
    timer.tick(1_000);
    assert_eq!(awaken_suggestion(&Behavior::Startled { from_rem: false, timer }, 7), None);
    assert_eq!(awaken_suggestion(&Behavior::Idle, 7), None);
}

#[test]
fn scribe_continues_within_reach() {
    let desks = vec![desk(4, 0, 0)];
    let b = Behavior::Scribe { desk: 4, timer: Countdown::new(3_000_000) };
    assert_eq!(scribe_for(&vec![agent(0, 140, b)], 0, &desks).unwrap().score, Score::whole(1000));
    assert_eq!(scribe_for(&vec![agent(0, 160, b)], 0, &desks), None);
    assert_eq!(scribe_for(&vec![agent(0, 140, b)], 0, &Vec::new()), None);
    // A second dweeb scribing at the same desk stops both.
    let pair = vec![agent(0, 140, b), agent(0, 100, b)];
    assert_eq!(scribe_for(&pair, 0, &desks), None);
    assert_eq!(scribe_for(&pair, 1, &desks), None);
}

#[test]
fn sleeper_on_bed_stays_asleep() {
    let beds = vec![bed(1, 0, 0)];
    let mut a = agent(0, 0, Behavior::Sleep { bed: 1, stage_is_rem: false, stage_progress: 300_000 });
    a.ground = Some(1);
    let all = suggest_all(&vec![a], &beds, &Vec::new(), &vec![0]);
    let mut advisor = swift_dreams_are_made_for_dweebs::Advisor::new(10);
    advisor.suggest(Score::whole(1000), a.behavior);
    advisor.commit();
    advisor.update_state(a.behavior);
    advisor.deliberate(&all[0]);
    assert_eq!(advisor.committed(), a.behavior);
}

#[test]
fn effects_follow_behavior() {
    assert_eq!(Behavior::Idle.effect(), DweebEffect::Nothing);
    assert_eq!(Behavior::Sleep { bed: 1, stage_is_rem: true, stage_progress: 0 }.effect(), DweebEffect::Zs { is_rem: true });
    assert_eq!(Behavior::Startled { from_rem: false, timer: Countdown::new(1) }.effect(), DweebEffect::Confusion);
    assert_eq!(Behavior::Startled { from_rem: true, timer: Countdown::new(1) }.effect(), DweebEffect::Lightbulb);
    assert_eq!(Behavior::WalkToDesk { desk: 1 }.effect(), DweebEffect::Lightbulb);
    assert_eq!(Behavior::JumpOnBed { bed: 1 }.effect(), DweebEffect::Nothing);
    assert!(DweebEffect::Zs { is_rem: true }.same_kind(&DweebEffect::Zs { is_rem: false }));
    assert!(!DweebEffect::Confusion.same_kind(&DweebEffect::Lightbulb));
}

#[test]
fn game_data_counts_and_times_out() {
    let mut g = GameData::init();
    assert_eq!(g.score(), 0);
    assert!(!g.is_finished());
    assert_eq!(g.remaining(), 60_000_000);
    g.record(IncreaseScore);
    g.record(IncreaseScore);
    assert_eq!(g.score(), 2);
    assert!(!g.advance(59_000_000));
    assert_eq!(g.remaining(), 1_000_000);
    assert!(g.advance(2_000_000));
    assert!(g.is_finished());
    assert_eq!(g.remaining(), 0);
    assert_eq!(g.duration(), 60_000_000);
}

#[test]
fn app_states() {
    assert!(AppState::MainMenu.is_menu());
    assert!(AppState::GameOver.is_menu());
    assert!(!AppState::Game.is_menu());
    assert!(!AppState::LoadLevel.is_menu());
    assert!(AppState::Game.runs_physics());
    assert!(!AppState::PauseMenu.runs_physics());
    assert_eq!(ActionForKbgp::Menu.next_state(), AppState::PauseMenu);
    assert_eq!(ActionForKbgp::RestartLevel.next_state(), AppState::LoadLevel);
}
