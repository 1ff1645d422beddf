use swift_dreams_are_made_for_dweebs::{
    destination_statuses, suggest_all, Advisor, Agent, Behavior, Countdown, DestinationKind, Point,
    Score, Site, Suggestion,
};

fn pt(x: i32, y: i32, z: i32) -> Point {
    Point { x, y, z }
}

fn site(id: u64, x: i32, z: i32) -> Site {
    Site { id, center: pt(x, 200, z), working_point: pt(x, 200, z), forward: pt(0, 0, -100) }
}

fn desk(id: u64, x: i32, z: i32) -> Site {
    Site { id, center: pt(x, 100, z), working_point: pt(x, 100, z + 100), forward: pt(0, 0, -100) }
}

fn agent(x: i32, z: i32, behavior: Behavior) -> Agent {
    Agent { position: pt(x, 200, z), behavior, airborne: Some(false), ground: None }
}

fn bed_offers_of(s: &[Suggestion]) -> Vec<Suggestion> {
    s.iter()
        .copied()
        .filter(|x| matches!(x.behavior, Behavior::WalkToBed { .. } | Behavior::JumpOnBed { .. }))
        .collect()
}

fn refers_to_bed(s: &Suggestion, bed: u64) -> bool {
    match s.behavior {
        Behavior::WalkToBed { bed: b } | Behavior::JumpOnBed { bed: b } => b == bed,
        Behavior::Sleep { bed: b, .. } => b == bed,
        _ => false,
    }
}

#[test]
fn far_bed_walk_wins() {
    let agents = vec![agent(0, 0, Behavior::Idle)];
    let beds = vec![site(1, 1000, 0)];
    let all = suggest_all(&agents, &beds, &Vec::new(), &vec![0]);
    assert_eq!(all.len(), 1);
    let s = &all[0];
    assert_eq!(s.len(), 2);
    assert_eq!(s[0], Suggestion { score: Score::Lowest, behavior: Behavior::Idle });
    assert_eq!(s[1].behavior, Behavior::WalkToBed { bed: 1 });
    assert_eq!(s[1].score, Score::Ratio { num: 16_000_000, den: 1_000_000 });
    assert!(!s[1].score.is_below(&Score::whole(16)));
    assert!(!Score::whole(16).is_below(&s[1].score));
    let mut advisor = Advisor::new(10);
    advisor.deliberate(s);
    assert_eq!(advisor.committed(), Behavior::WalkToBed { bed: 1 });
}

#[test]
fn near_bed_jump_wins() {
    let agents = vec![agent(0, 150, Behavior::Idle)];
    let beds = vec![site(1, 0, 0)];
    let all = suggest_all(&agents, &beds, &Vec::new(), &vec![0]);
    let offers = bed_offers_of(&all[0]);
    assert_eq!(offers, vec![Suggestion { score: Score::whole(100), behavior: Behavior::JumpOnBed { bed: 1 } }]);
    let mut advisor = Advisor::new(10);
    advisor.deliberate(&all[0]);
    assert_eq!(advisor.committed(), Behavior::JumpOnBed { bed: 1 });
}

#[test]
fn exactly_at_reach_is_use() {
    let agents = vec![agent(200, 0, Behavior::Idle)];
    let beds = vec![site(1, 0, 0)];
    let all = suggest_all(&agents, &beds, &Vec::new(), &vec![0]);
    assert_eq!(bed_offers_of(&all[0])[0].behavior, Behavior::JumpOnBed { bed: 1 });
}

#[test]
fn closest_claimant_keeps_offer() {
    // Y is nearest (2.5 units), X a little farther (2.8), Z farther still (4).
    let agents = vec![
        agent(280, 0, Behavior::WalkToBed { bed: 1 }),
        agent(0, 250, Behavior::Idle),
        agent(-400, 0, Behavior::Idle),
    ];
    let beds = vec![site(1, 0, 0)];
    let sts = destination_statuses(DestinationKind::Bed, &agents, &beds);
    assert_eq!(sts.len(), 1);
    assert_eq!(sts[0].closest, Some((1, 62_500)));
    let all = suggest_all(&agents, &beds, &Vec::new(), &vec![0, 0, 0]);
    assert!(bed_offers_of(&all[0]).is_empty());
    assert_eq!(
        bed_offers_of(&all[1]),
        vec![Suggestion { score: Score::Ratio { num: 16_000_000, den: 62_500 }, behavior: Behavior::WalkToBed { bed: 1 } }]
    );
    assert!(bed_offers_of(&all[2]).is_empty());
}

#[test]
fn no_back_off_outside_claim_radius() {
    let agents = vec![agent(310, 0, Behavior::Idle), agent(0, 500, Behavior::Idle)];
    let beds = vec![site(1, 0, 0)];
    let all = suggest_all(&agents, &beds, &Vec::new(), &vec![0, 0]);
    assert_eq!(bed_offers_of(&all[0]).len(), 1);
    assert_eq!(bed_offers_of(&all[1]).len(), 1);
}

#[test]
fn occupied_bed_is_skipped() {
    let agents = vec![
        agent(0, 0, Behavior::Sleep { bed: 1, stage_is_rem: false, stage_progress: 10 }),
        agent(500, 0, Behavior::Idle),
        agent(-500, 0, Behavior::WalkToBed { bed: 1 }),
    ];
    let beds = vec![site(1, 0, 0), site(2, 2000, 0)];
    let sts = destination_statuses(DestinationKind::Bed, &agents, &beds);
    assert_eq!(sts.len(), 2);
    assert_eq!(sts[0].holder, Some(0));
    assert!(!sts[0].shared);
    assert_eq!(sts[1].holder, None);
    let all = suggest_all(&agents, &beds, &Vec::new(), &vec![0, 0, 0]);
    for a in 1..3 {
        assert!(all[a].iter().all(|s| !refers_to_bed(s, 1)));
        assert_eq!(bed_offers_of(&all[a]).len(), 1);
    }
}

#[test]
fn equidistant_pair_first_keeps_claim() {
    let agents = vec![agent(200, 0, Behavior::Idle), agent(-200, 0, Behavior::Idle)];
    let beds = vec![site(1, 0, 0)];
    let all = suggest_all(&agents, &beds, &Vec::new(), &vec![0, 0]);
    assert_eq!(bed_offers_of(&all[0]), vec![Suggestion { score: Score::whole(100), behavior: Behavior::JumpOnBed { bed: 1 } }]);
    assert!(bed_offers_of(&all[1]).is_empty());
}

#[test]
fn equidistant_pair_far_both_approach() {
    let agents = vec![agent(1000, 0, Behavior::Idle), agent(-1000, 0, Behavior::Idle)];
    let beds = vec![site(1, 0, 0)];
    let all = suggest_all(&agents, &beds, &Vec::new(), &vec![0, 0]);
    assert_eq!(bed_offers_of(&all[0]).len(), 1);
    assert_eq!(bed_offers_of(&all[1]).len(), 1);
}

#[test]
fn no_beds_no_bed_offers() {
    let agents = vec![agent(0, 0, Behavior::Idle)];
    let all = suggest_all(&agents, &Vec::new(), &Vec::new(), &vec![0]);
    assert_eq!(all[0], vec![Suggestion { score: Score::Lowest, behavior: Behavior::Idle }]);
}

#[test]
fn demand_sums_inverse_squares() {
    // 10 units away counts 1.0 (one million millionths), 20 units a quarter.
    let agents = vec![agent(1000, 0, Behavior::Idle), agent(0, 2000, Behavior::Idle), agent(5, 5, Behavior::Scribe { desk: 1, timer: Countdown::new(1) })];
    let beds = vec![site(1, 0, 0)];
    let sts = destination_statuses(DestinationKind::Bed, &agents, &beds);
    assert_eq!(sts[0].demand, 1_250_000);
    assert_eq!(sts[0].closest, Some((0, 1_000_000)));
}

#[test]
fn standing_on_the_point_counts_full_weight() {
    let agents = vec![agent(0, 0, Behavior::Idle)];
    let beds = vec![site(1, 0, 0)];
    let sts = destination_statuses(DestinationKind::Bed, &agents, &beds);
    assert_eq!(sts[0].demand, 1_000_000_000_000);
    assert_eq!(sts[0].closest, Some((0, 0)));
}

#[test]
fn desk_offers_use_working_point() {
    let startled = Behavior::Startled { from_rem: true, timer: Countdown::new(5) };
    // The desk stands at z = 0; its working point is one unit in front, at z = 100.
    let agents = vec![agent(0, 130, startled)];
    let desks = vec![desk(4, 0, 0)];
    let all = suggest_all(&agents, &Vec::new(), &desks, &vec![0]);
    assert!(all[0].contains(&Suggestion {
        score: Score::whole(100),
        behavior: Behavior::Scribe { desk: 4, timer: Countdown::new(3_000_000) }
    }));
}

#[test]
fn deep_startle_does_not_head_for_desks() {
    let startled = Behavior::Startled { from_rem: false, timer: Countdown::new(5) };
    let agents = vec![agent(0, 1000, startled)];
    let desks = vec![desk(4, 0, 0)];
    let all = suggest_all(&agents, &Vec::new(), &desks, &vec![0]);
    assert!(all[0].iter().all(|s| !matches!(s.behavior, Behavior::WalkToDesk { .. } | Behavior::Scribe { .. })));
}

#[test]
fn walking_to_desk_far_scores_by_distance() {
    let agents = vec![agent(0, 2100, Behavior::WalkToDesk { desk: 4 })];
    let desks = vec![desk(4, 0, 0)];
    let all = suggest_all(&agents, &Vec::new(), &desks, &vec![0]);
    assert!(all[0].contains(&Suggestion {
        score: Score::Ratio { num: 16_000_000, den: 4_000_000 },
        behavior: Behavior::WalkToDesk { desk: 4 }
    }));
}

#[test]
fn scribing_desk_is_occupied() {
    let agents = vec![
        agent(0, 100, Behavior::Scribe { desk: 4, timer: Countdown::new(3_000_000) }),
        agent(0, 1000, Behavior::WalkToDesk { desk: 4 }),
    ];
    let desks = vec![desk(4, 0, 0)];
    let sts = destination_statuses(DestinationKind::Desk, &agents, &desks);
    assert_eq!(sts[0].holder, Some(0));
    let all = suggest_all(&agents, &Vec::new(), &desks, &vec![0, 0]);
    assert!(all[1].iter().all(|s| !matches!(s.behavior, Behavior::WalkToDesk { .. } | Behavior::Scribe { .. })));
}

#[test]
fn extreme_coordinates_do_not_overflow() {
    let far = Agent { position: pt(i32::MIN, i32::MIN, i32::MIN), behavior: Behavior::Idle, airborne: Some(false), ground: None };
    let beds = vec![Site { id: 1, center: pt(i32::MAX, i32::MAX, i32::MAX), working_point: pt(0, 0, 0), forward: pt(0, 0, 0) }];
    let agents = vec![far];
    let sts = destination_statuses(DestinationKind::Bed, &agents, &beds);
    let span: u128 = (u32::MAX as u128) * (u32::MAX as u128);
    assert_eq!(sts[0].closest, Some((0, 3 * span)));
    assert_eq!(sts[0].demand, 0);
    let all = suggest_all(&agents, &beds, &Vec::new(), &vec![0]);
    assert_eq!(
        bed_offers_of(&all[0]),
        vec![Suggestion { score: Score::Ratio { num: 16_000_000, den: 2 * span }, behavior: Behavior::WalkToBed { bed: 1 } }]
    );
}

#[test]
fn jumping_dweeb_holds_its_bed() {
    // The jumper is four units up, mid-jump; an idle dweeb stands nearer.
    let jumper = Agent { position: pt(100, 600, 0), behavior: Behavior::JumpOnBed { bed: 1 }, airborne: Some(true), ground: None };
    let agents = vec![jumper, agent(50, 0, Behavior::Idle)];
    let beds = vec![site(1, 0, 0)];
    let sts = destination_statuses(DestinationKind::Bed, &agents, &beds);
    assert_eq!(sts[0].holder, Some(0));
    assert_eq!(sts[0].closest, Some((1, 2_500)));
    let all = suggest_all(&agents, &beds, &Vec::new(), &vec![0, 0]);
    assert_eq!(bed_offers_of(&all[0]), vec![Suggestion { score: Score::whole(100), behavior: Behavior::JumpOnBed { bed: 1 } }]);
    assert!(bed_offers_of(&all[1]).is_empty());
    let mut advisor = Advisor::new(10);
    advisor.suggest(Score::whole(100), Behavior::JumpOnBed { bed: 1 });
    advisor.commit();
    advisor.deliberate(&all[0]);
    assert_eq!(advisor.committed(), Behavior::JumpOnBed { bed: 1 });
}

#[test]
fn two_jumpers_on_one_bed_both_lose_it() {
    let agents = vec![agent(50, 0, Behavior::JumpOnBed { bed: 1 }), agent(-50, 0, Behavior::JumpOnBed { bed: 1 })];
    let beds = vec![site(1, 0, 0)];
    let sts = destination_statuses(DestinationKind::Bed, &agents, &beds);
    assert_eq!(sts[0].holder, Some(0));
    assert!(sts[0].shared);
    let all = suggest_all(&agents, &beds, &Vec::new(), &vec![0, 0]);
    assert!(bed_offers_of(&all[0]).is_empty());
    assert!(bed_offers_of(&all[1]).is_empty());
}
