use rand::SeedableRng;
use srp_portal::inspection::{
    classify_band, condition_score, sample_noise, simulate_finding, BuildingElement,
    ConditionBand, InspectionWorld,
};

#[test]
fn new_element_scores_full_marks_without_noise() {
    assert_eq!(condition_score(0, 0), 100);
    assert_eq!(classify_band(100), ConditionBand::Excellent);
    let element = BuildingElement {
        name: "Fresh Roof".to_string(),
        category: "Envelope".to_string(),
        age_years: 0,
    };
    let finding = simulate_finding(&element, 0);
    assert_eq!(finding.condition_score, 100);
    assert_eq!(finding.estimated_cost, 0);
    assert_eq!(finding.observation, "Excellent condition. No visible wear.");
    assert_eq!(finding.recommendation, "Monitor.");
}

#[test]
fn forty_year_element_scores_zero_without_noise() {
    assert_eq!(condition_score(40, 0), 0);
    let element = BuildingElement {
        name: "Old Membrane".to_string(),
        category: "Structure".to_string(),
        age_years: 40,
    };
    let finding = simulate_finding(&element, 0);
    assert_eq!(finding.condition_score, 0);
    assert_eq!(finding.estimated_cost, 25000);
    assert_eq!(finding.observation, "Poor condition. Immediate attention required.");
    assert_eq!(finding.recommendation, "Replace within 12 months.");
}

#[test]
fn scores_stay_clamped() {
    assert_eq!(condition_score(100, 199), 0);
    assert_eq!(condition_score(4_000_000_000, 0), 0);
    for age in [0u32, 1, 10, 39, 40, 41, 100] {
        for noise in [0u16, 1, 99, 199] {
            let s = condition_score(age, noise);
            assert!(s <= 100);
        }
    }
}

#[test]
fn band_thresholds() {
    assert_eq!(classify_band(90), ConditionBand::Excellent);
    assert_eq!(classify_band(89), ConditionBand::Good);
    assert_eq!(classify_band(70), ConditionBand::Good);
    assert_eq!(classify_band(69), ConditionBand::Fair);
    assert_eq!(classify_band(40), ConditionBand::Fair);
    assert_eq!(classify_band(39), ConditionBand::Poor);
    assert_eq!(classify_band(0), ConditionBand::Poor);
}

#[test]
fn mock_elements_with_zero_noise() {
    let mut world = InspectionWorld::new();
    world.seed_mock_elements();
    let noise = vec![0u16, 0, 0, 0];
    world.run(&noise);
    let results = world.get_results();
    assert_eq!(results.len(), 4);

    assert_eq!(results[0].0.name, "Asphalt Shingle Roof");
    assert_eq!(results[0].1.condition_score, 55);
    assert_eq!(results[0].1.estimated_cost, 5000);

    assert_eq!(results[1].1.condition_score, 87);
    assert_eq!(results[1].1.estimated_cost, 500);

    assert_eq!(results[2].1.condition_score, 37);
    assert_eq!(results[2].1.estimated_cost, 25000);

    assert_eq!(results[3].1.condition_score, 75);
    assert_eq!(results[3].1.estimated_cost, 500);
}

#[test]
fn noise_is_consumed_in_entity_order() {
    let mut world = InspectionWorld::new();
    world.add_element(BuildingElement {
        name: "A".to_string(),
        category: "X".to_string(),
        age_years: 0,
    });
    world.add_element(BuildingElement {
        name: "B".to_string(),
        category: "X".to_string(),
        age_years: 0,
    });
    // First element gets 150 tenths (score 85), second 0 (score 100).
    world.run(&vec![150u16, 0]);
    let results = world.get_results();
    assert_eq!(results[0].1.condition_score, 85);
    assert_eq!(results[1].1.condition_score, 100);
}

#[test]
fn second_run_leaves_existing_findings_alone() {
    let mut world = InspectionWorld::new();
    world.seed_mock_elements();
    world.run(&vec![0u16, 0, 0, 0]);
    let before = world.get_results();
    // All elements already carry findings, so no noise is needed and
    // nothing changes.
    world.run(&Vec::new());
    let after = world.get_results();
    assert_eq!(before, after);
}

#[test]
fn sampled_noise_is_in_range() {
    let mut rng = rand::rngs::StdRng::seed_from_u64(7);
    let noise = sample_noise(&mut rng, 100);
    assert_eq!(noise.len(), 100);
    assert!(noise.iter().all(|n| *n < 200));
}

#[test]
fn same_seed_reproduces_the_run_exactly() {
    let mut first = InspectionWorld::new();
    first.seed_mock_elements();
    let mut rng1 = rand::rngs::StdRng::seed_from_u64(42);
    first.run_with_rng(&mut rng1);

    let mut second = InspectionWorld::new();
    second.seed_mock_elements();
    let mut rng2 = rand::rngs::StdRng::seed_from_u64(42);
    second.run_with_rng(&mut rng2);

    assert_eq!(first.get_results(), second.get_results());
}

#[test]
fn rng_runs_stay_banded() {
    let mut world = InspectionWorld::new();
    world.seed_mock_elements();
    let mut rng = rand::rngs::StdRng::seed_from_u64(1);
    world.run_with_rng(&mut rng);
    for (_, finding) in world.get_results() {
        assert!(finding.condition_score <= 100);
        let expected_cost = match finding.condition_score {
            90..=100 => 0,
            70..=89 => 500,
            40..=69 => 5000,
            _ => 25000,
        };
        assert_eq!(finding.estimated_cost, expected_cost);
    }
}
