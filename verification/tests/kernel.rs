use srp_portal::documents::{ProcessingStatus, RawContent};
use srp_portal::inspection::{BuildingElement, SimulatedFinding};
use srp_portal::kernel::{
    CommandBuffer, ComponentKind, ComponentValue, Entity, EntityRecord, QueryError, World,
};

fn element(name: &str) -> BuildingElement {
    BuildingElement { name: name.to_string(), category: "X".to_string(), age_years: 1 }
}

fn finding() -> SimulatedFinding {
    SimulatedFinding {
        condition_score: 100,
        observation: "o".to_string(),
        recommendation: "r".to_string(),
        estimated_cost: 0,
    }
}

#[test]
fn queries_select_by_presence_and_absence() {
    let mut world = World::new();
    let mut with_element = EntityRecord::empty();
    with_element.element = Some(element("a"));
    world.spawn(with_element);

    let mut with_both = EntityRecord::empty();
    with_both.element = Some(element("b"));
    with_both.finding = Some(finding());
    world.spawn(with_both);

    let mut unrelated = EntityRecord::empty();
    unrelated.raw_content = Some(RawContent("text".to_string()));
    world.spawn(unrelated);

    let lacking = world.query(
        &vec![ComponentKind::BuildingElement],
        &vec![ComponentKind::SimulatedFinding],
    );
    assert_eq!(lacking, vec![Entity(0)]);

    let all_elements = world.query(&vec![ComponentKind::BuildingElement], &vec![]);
    assert_eq!(all_elements, vec![Entity(0), Entity(1)]);

    let nothing = world.query(&vec![ComponentKind::Inspector], &vec![]);
    assert!(nothing.is_empty());
}

#[test]
fn singleton_queries_fail_loudly() {
    let mut world = World::new();
    assert_eq!(
        world.query_single(&vec![ComponentKind::RawContent], &vec![]),
        Err(QueryError::NoMatch)
    );

    let mut doc = EntityRecord::empty();
    doc.raw_content = Some(RawContent("one".to_string()));
    world.spawn(doc);
    assert_eq!(world.query_single(&vec![ComponentKind::RawContent], &vec![]), Ok(Entity(0)));

    let mut doc2 = EntityRecord::empty();
    doc2.raw_content = Some(RawContent("two".to_string()));
    world.spawn(doc2);
    assert_eq!(
        world.query_single(&vec![ComponentKind::RawContent], &vec![]),
        Err(QueryError::MultipleMatches)
    );
}

#[test]
fn commands_are_deferred_until_applied() {
    let mut world = World::new();
    let mut rec = EntityRecord::empty();
    rec.element = Some(element("a"));
    let e = world.spawn(rec);

    let mut buffer = CommandBuffer::new();
    buffer.insert(e, ComponentValue::Finding(finding()));
    let mut spawned = EntityRecord::empty();
    spawned.status = Some(ProcessingStatus::Pending);
    buffer.spawn(spawned);

    // Before the flush the store is untouched.
    assert!(world.record(e).finding.is_none());
    assert_eq!(world.num_entities(), 1);

    world.apply(buffer);
    assert!(world.record(e).finding.is_some());
    assert_eq!(world.num_entities(), 2);
    assert_eq!(world.record(Entity(1)).status, Some(ProcessingStatus::Pending));
}

#[test]
fn attach_replaces_existing_component_of_same_kind() {
    let mut world = World::new();
    let mut rec = EntityRecord::empty();
    rec.status = Some(ProcessingStatus::Pending);
    let e = world.spawn(rec);
    world.set_component(e, ComponentValue::Status(ProcessingStatus::Analyzing));
    assert_eq!(world.record(e).status, Some(ProcessingStatus::Analyzing));
}

#[test]
fn empty_shapes_match_every_entity() {
    let mut world = World::new();
    world.spawn(EntityRecord::empty());
    world.spawn(EntityRecord::empty());
    let all = world.query(&vec![], &vec![]);
    assert_eq!(all, vec![Entity(0), Entity(1)]);
}

#[test]
fn empty_worlds_run_to_empty_results() {
    let mut docs = srp_portal::documents::DocumentWorld::new();
    docs.run();
    assert!(docs.get_results().is_empty());

    let mut inspections = srp_portal::inspection::InspectionWorld::new();
    inspections.run(&Vec::new());
    assert!(inspections.get_results().is_empty());

    let mut scheduler = srp_portal::assignment::SchedulerWorld::new();
    scheduler.run();
    assert!(scheduler.get_assignments().is_empty());
}
