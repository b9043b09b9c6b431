use srp_portal::assignment::{
    compute_score, isqrt, Coord, InspectionJob, Inspector, SchedulerWorld,
};

fn inspector(id: &str, name: &str, x: i64, y: i64, skill: u8) -> Inspector {
    Inspector {
        id: id.to_string(),
        name: name.to_string(),
        current_location: Coord { x, y },
        skill_level: skill,
    }
}

fn job(id: &str, x: i64, y: i64, priority: u8, req: u8) -> InspectionJob {
    InspectionJob {
        id: id.to_string(),
        location: Coord { x, y },
        priority,
        estimated_duration_minutes: 60,
        required_skill_level: req,
    }
}

#[test]
fn integer_square_roots() {
    assert_eq!(isqrt(0), 0);
    assert_eq!(isqrt(1), 1);
    assert_eq!(isqrt(3), 1);
    assert_eq!(isqrt(4), 2);
    assert_eq!(isqrt(1618850), 1272);
    assert_eq!(isqrt(u64::MAX), 0xFFFF_FFFF);
}

#[test]
fn scores_are_exact_fixed_point() {
    let alice = inspector("insp-1", "Alice", 492827, -1231207, 5);
    let bob = inspector("insp-2", "Bob", 491666, -1231336, 3);
    let job_x = job("job-A", 492606, -1232460, 2, 2);
    let job_y = job("job-B", 491304, -1230697, 5, 3);

    assert_eq!(compute_score(&alice, &job_x), 1_087_280);
    assert_eq!(compute_score(&bob, &job_x), 1_085_350);
    assert_eq!(compute_score(&alice, &job_y), 1_233_940);
    assert_eq!(compute_score(&bob, &job_y), 1_242_660);
}

#[test]
fn stock_simulation_assigns_by_score() {
    let mut world = SchedulerWorld::new();
    world.seed_simulation();
    world.run();
    let assignments = world.get_assignments();
    assert_eq!(assignments.len(), 2);

    // Alice is closer to job-A and wins it on score.
    assert_eq!(assignments[0].0.id, "job-A");
    assert_eq!(assignments[0].1.assigned_inspector_id, "insp-1");
    assert_eq!(assignments[0].1.score, 1_087_280);
    assert!(assignments[0].1.score > 1_085_350);

    // Bob is closer to job-B and wins it despite the equal priority bonus.
    assert_eq!(assignments[1].0.id, "job-B");
    assert_eq!(assignments[1].1.assigned_inspector_id, "insp-2");
    assert_eq!(assignments[1].1.score, 1_242_660);
    assert!(assignments[1].1.score > 1_233_940);
}

#[test]
fn feasible_jobs_always_get_a_feasible_inspector() {
    let mut world = SchedulerWorld::new();
    world.add_inspector(inspector("i-low", "Low", 0, 0, 1));
    world.add_inspector(inspector("i-high", "High", 1000, 1000, 4));
    world.add_job(job("j-1", 500, 500, 0, 3));
    world.run();
    let assignments = world.get_assignments();
    assert_eq!(assignments.len(), 1);
    // Only the skill-4 inspector is feasible for a requirement of 3.
    assert_eq!(assignments[0].1.assigned_inspector_id, "i-high");
}

#[test]
fn infeasible_jobs_stay_unassigned() {
    let mut world = SchedulerWorld::new();
    world.add_inspector(inspector("i-1", "One", 0, 0, 2));
    world.add_inspector(inspector("i-2", "Two", 10, 10, 3));
    world.add_job(job("j-impossible", 0, 0, 5, 9));
    world.add_job(job("j-easy", 0, 0, 0, 1));
    world.run();
    let assignments = world.get_assignments();
    // The impossible job is absent from the result set entirely.
    assert_eq!(assignments.len(), 1);
    assert_eq!(assignments[0].0.id, "j-easy");
    assert_eq!(assignments[0].1.assigned_inspector_id, "i-1");
}

#[test]
fn ties_go_to_the_inspector_evaluated_first() {
    let mut world = SchedulerWorld::new();
    world.add_inspector(inspector("first", "F", 100, 100, 5));
    world.add_inspector(inspector("second", "S", 100, 100, 5));
    world.add_job(job("j", 0, 0, 1, 1));
    world.run();
    let assignments = world.get_assignments();
    assert_eq!(assignments.len(), 1);
    assert_eq!(assignments[0].1.assigned_inspector_id, "first");
}

#[test]
fn a_distant_feasible_inspector_is_still_assigned() {
    // Even with a hugely negative score, the only feasible candidate wins.
    let mut world = SchedulerWorld::new();
    world.add_inspector(inspector("far", "Far", 2_000_000, 2_000_000, 5));
    world.add_job(job("j", -2_000_000, -2_000_000, 0, 1));
    world.run();
    let assignments = world.get_assignments();
    assert_eq!(assignments.len(), 1);
    assert_eq!(assignments[0].1.assigned_inspector_id, "far");
    assert!(assignments[0].1.score < 0);
}

#[test]
fn identical_seeding_gives_identical_assignments() {
    let mut first = SchedulerWorld::new();
    first.seed_simulation();
    first.run();
    let mut second = SchedulerWorld::new();
    second.seed_simulation();
    second.run();
    assert_eq!(first.get_assignments(), second.get_assignments());
}
