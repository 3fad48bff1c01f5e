use std::collections::HashSet;

use tuber::ecs::Ecs;
use tuber::query::ComponentTypeId::RequiredComponentTypeId;
use tuber::system::SystemBundle;

const VALUE: u64 = 0;
const OTHER: u64 = 1;

#[derive(Clone, Copy, Debug, PartialEq, Eq, Hash)]
enum Component {
    Value(i32),
    Other,
}

type System<AD> = fn(Ecs<Component>, AD) -> (Ecs<Component>, AD, Result<(), String>);

fn add_to_values(ecs: &mut Ecs<Component>, amount: i32) {
    ecs.update_components(&[RequiredComponentTypeId(VALUE)], VALUE, |c: &Component| match c {
        Component::Value(v) => Component::Value(v + amount),
        other => *other,
    });
}

fn values(ecs: &Ecs<Component>) -> HashSet<i32> {
    ecs.matching_entities(&[RequiredComponentTypeId(VALUE)])
        .into_iter()
        .filter_map(|id| match ecs.query_one_by_id(&[RequiredComponentTypeId(VALUE)], id) {
            Some((_, values)) => match values[0] {
                Some(Component::Value(v)) => Some(*v),
                _ => None,
            },
            None => None,
        })
        .collect()
}

#[test]
fn system_bundle_add() {
    let mut system_bundle: SystemBundle<System<()>> = SystemBundle::default();
    system_bundle.add_system(|ecs: Ecs<Component>, data: ()| (ecs, data, Ok(())));
    assert_eq!(system_bundle.system_count(), 1)
}

#[test]
fn system_bundle_step() {
    let mut ecs = Ecs::default();
    ecs.insert(vec![(VALUE, Component::Value(12))]);
    ecs.insert(vec![(VALUE, Component::Value(18)), (OTHER, Component::Other)]);

    let mut system_bundle: SystemBundle<System<()>> = SystemBundle::default();
    system_bundle.add_system(|mut ecs: Ecs<Component>, data: ()| {
        add_to_values(&mut ecs, 35);
        (ecs, data, Ok(()))
    });
    system_bundle.add_system(|mut ecs: Ecs<Component>, data: ()| {
        add_to_values(&mut ecs, -6);
        (ecs, data, Ok(()))
    });

    let (ecs, _, _) = system_bundle.step(ecs, ());
    let result_set = values(&ecs);
    assert!(result_set.contains(&41));
    assert!(result_set.contains(&47));
}

struct AdditionalData {
    some_value: i32,
}

#[test]
fn system_bundle_with_additional_data() {
    let additional_data = AdditionalData { some_value: 0 };

    let mut ecs = Ecs::default();
    ecs.insert(vec![(VALUE, Component::Value(1)), (OTHER, Component::Other)]);
    ecs.insert(vec![(OTHER, Component::Other)]);

    let mut system_bundle: SystemBundle<System<AdditionalData>> = SystemBundle::default();
    system_bundle.add_system(|ecs: Ecs<Component>, mut additional_data: AdditionalData| {
        additional_data.some_value += 1;
        (ecs, additional_data, Ok(()))
    });

    let (ecs, additional_data, _) = system_bundle.step(ecs, additional_data);
    let (_ecs, additional_data, _) = system_bundle.step(ecs, additional_data);
    assert_eq!(additional_data.some_value, 2);
}

#[test]
fn step_stops_at_the_first_failing_system() {
    let ecs: Ecs<Component> = Ecs::default();
    let mut system_bundle: SystemBundle<System<u32>> = SystemBundle::default();
    system_bundle.add_system(|ecs, count| (ecs, count + 1, Ok(())));
    system_bundle.add_system(|ecs, count| (ecs, count + 10, Err(format!("failed after {}", count + 10))));
    system_bundle.add_system(|ecs, count| (ecs, count + 100, Ok(())));
    let (_, count, result) = system_bundle.step(ecs, 0u32);
    assert_eq!(result, Err("failed after 11".to_string()));
    assert_eq!(count, 11);
}

#[test]
fn empty_bundle_steps_ok() {
    let ecs: Ecs<Component> = Ecs::default();
    let mut system_bundle: SystemBundle<System<()>> = SystemBundle::default();
    let (ecs, _, result) = system_bundle.step(ecs, ());
    assert_eq!(result, Ok(()));
    assert_eq!(ecs.entity_count(), 0);
}
