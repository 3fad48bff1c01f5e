use std::collections::HashSet;

use tuber::ecs::Ecs;
use tuber::query::ComponentTypeId::{OptionalComponentTypeId, RequiredComponentTypeId};

#[derive(Debug, PartialEq, Clone)]
struct Position {
    x: f32,
    y: f32,
}

#[derive(Debug, PartialEq, Clone)]
struct Velocity {
    x: f32,
    y: f32,
}

#[derive(Debug, PartialEq, Clone)]
enum Component {
    Position(Position),
    Velocity(Velocity),
}

const POSITION: u64 = 0;
const VELOCITY: u64 = 1;

fn position(x: f32, y: f32) -> (u64, Component) {
    (POSITION, Component::Position(Position { x, y }))
}

fn velocity(x: f32, y: f32) -> (u64, Component) {
    (VELOCITY, Component::Velocity(Velocity { x, y }))
}

#[test]
pub fn ecs_new() {
    let ecs: Ecs<Component> = Ecs::default();
    assert_eq!(ecs.entity_count(), 0usize);
}

#[test]
pub fn ecs_insert() {
    let mut ecs = Ecs::default();
    ecs.insert(vec![position(0.0, 1.0), velocity(2.0, 3.0)]);
    assert_eq!(ecs.entity_count(), 1usize);
    ecs.insert(vec![position(4.0, 5.0), velocity(6.0, 7.0)]);
    assert_eq!(ecs.entity_count(), 2usize);
}

#[test]
pub fn ecs_query() {
    let mut ecs = Ecs::default();
    ecs.insert(vec![position(12.0, 1.0), velocity(2.0, 3.0)]);
    ecs.insert(vec![position(4.0, 5.0), velocity(6.0, 7.0)]);
    ecs.insert(vec![position(4.0, 5.0)]);

    ecs.update_components(&[RequiredComponentTypeId(VELOCITY)], VELOCITY, |c: &Component| match c {
        Component::Velocity(v) => Component::Velocity(Velocity { x: 0.0, y: v.y }),
        other => other.clone(),
    });

    let mut it = ecs.query(vec![RequiredComponentTypeId(VELOCITY)]);
    while let Some((_, values)) = it.next() {
        match values[0] {
            Some(Component::Velocity(v)) => assert!((v.x - 0.0).abs() <= 0.01),
            _ => panic!("not a velocity"),
        }
    }

    let mut count = 0;
    let mut it = ecs.query(vec![RequiredComponentTypeId(POSITION)]);
    while it.next().is_some() {
        count += 1;
    }
    assert_eq!(count, 3);
    let mut count = 0;
    let mut it = ecs.query(vec![RequiredComponentTypeId(VELOCITY)]);
    while it.next().is_some() {
        count += 1;
    }
    assert_eq!(count, 2);
}

#[test]
pub fn ecs_query_one() {
    let mut ecs = Ecs::default();
    ecs.insert(vec![position(12.0, 1.0), velocity(2.0, 3.0)]);

    assert_eq!(ecs.query_one(&[RequiredComponentTypeId(POSITION)]).unwrap().0, 0);
    assert_eq!(
        ecs.query_one(&[RequiredComponentTypeId(POSITION)]).unwrap().1[0],
        Some(&Component::Position(Position { x: 12.0, y: 1.0 }))
    );
}

#[test]
pub fn ecs_query_optional() {
    let mut ecs = Ecs::default();
    ecs.insert(vec![position(12.0, 1.0), velocity(2.0, 3.0)]);
    ecs.insert(vec![position(15.0, 8.0)]);

    let mut count = 0;
    let mut it = ecs.query(vec![RequiredComponentTypeId(POSITION), OptionalComponentTypeId(VELOCITY)]);
    while it.next().is_some() {
        count += 1;
    }
    assert_eq!(count, 2);
}

#[test]
pub fn ecs_query_one_optional() {
    let mut ecs = Ecs::default();
    ecs.insert(vec![position(12.0, 1.0)]);

    let (_, values) = ecs
        .query_one(&[RequiredComponentTypeId(POSITION), OptionalComponentTypeId(VELOCITY)])
        .unwrap();

    assert_eq!(values[0], Some(&Component::Position(Position { x: 12.0, y: 1.0 })));
    assert!(values[1].is_none());
}

#[test]
pub fn ecs_query_one_implicit_read_accessor() {
    let mut ecs = Ecs::default();
    ecs.insert(vec![position(12.0, 1.0)]);

    let (_, values) = ecs.query_one(&[RequiredComponentTypeId(POSITION)]).unwrap();

    assert_eq!(values[0], Some(&Component::Position(Position { x: 12.0, y: 1.0 })));
}

#[test]
fn query_iterates_from_the_highest_entity_down() {
    let mut ecs = Ecs::default();
    ecs.insert(vec![position(1.0, 1.0)]);
    ecs.insert(vec![velocity(1.0, 1.0)]);
    ecs.insert(vec![position(2.0, 2.0), velocity(3.0, 3.0)]);
    let mut it = ecs.query(vec![RequiredComponentTypeId(POSITION)]);
    assert_eq!(it.next().unwrap().0, 2);
    assert_eq!(it.next().unwrap().0, 0);
    assert!(it.next().is_none());
}

#[test]
fn query_by_ids_keeps_listed_entities() {
    let mut ecs = Ecs::default();
    for i in 0..5 {
        ecs.insert(vec![position(i as f32, 0.0)]);
    }
    let ids: HashSet<usize> = [1usize, 3].into_iter().collect();
    let mut it = ecs.query_by_ids(vec![RequiredComponentTypeId(POSITION)], &ids);
    assert_eq!(it.next().unwrap().0, 3);
    assert_eq!(it.next().unwrap().0, 1);
    assert!(it.next().is_none());
}

#[test]
fn delete_by_ids_clears_every_component() {
    let mut ecs = Ecs::default();
    ecs.insert(vec![position(1.0, 1.0), velocity(1.0, 1.0)]);
    ecs.insert(vec![position(2.0, 2.0)]);
    ecs.delete_by_ids(&[0]);
    assert_eq!(ecs.entity_count(), 2);
    assert!(ecs.query_one_by_id(&[RequiredComponentTypeId(POSITION)], 0).is_none());
    assert!(ecs.query_one_by_id(&[RequiredComponentTypeId(VELOCITY)], 0).is_none());
    assert_eq!(ecs.query_one(&[RequiredComponentTypeId(POSITION)]).unwrap().0, 1);
}

#[test]
fn delete_by_query_removes_matching_entities() {
    let mut ecs = Ecs::default();
    ecs.insert(vec![position(1.0, 1.0), velocity(1.0, 1.0)]);
    ecs.insert(vec![position(2.0, 2.0)]);
    ecs.delete_by_query(&[RequiredComponentTypeId(VELOCITY)]);
    assert!(ecs.query_one_by_id(&[RequiredComponentTypeId(POSITION)], 0).is_none());
    assert!(ecs.query_one_by_id(&[RequiredComponentTypeId(POSITION)], 1).is_some());
    assert_eq!(ecs.matching_ids(&[RequiredComponentTypeId(POSITION)]).len(), 1);
    assert!(ecs.matching_entities(&[RequiredComponentTypeId(VELOCITY)]).is_empty());
    assert_eq!(ecs.entity_count(), 2usize);
}

#[test]
fn remove_and_add_component() {
    let mut ecs = Ecs::default();
    ecs.insert(vec![position(1.0, 1.0), velocity(1.0, 1.0)]);
    ecs.remove_component(VELOCITY, 0);
    assert!(ecs.query_one(&[RequiredComponentTypeId(VELOCITY)]).is_none());
    ecs.add_component(VELOCITY, Component::Velocity(Velocity { x: 5.0, y: 5.0 }), 0);
    assert_eq!(
        ecs.query_one(&[RequiredComponentTypeId(VELOCITY)]).unwrap().1[0],
        Some(&Component::Velocity(Velocity { x: 5.0, y: 5.0 }))
    );
    // a kind never stored is ignored
    ecs.add_component(7, Component::Velocity(Velocity { x: 5.0, y: 5.0 }), 0);
    assert!(ecs.query_one(&[RequiredComponentTypeId(7)]).is_none());
}

#[test]
fn later_duplicate_component_wins() {
    let mut ecs = Ecs::default();
    ecs.insert(vec![position(1.0, 1.0), position(9.0, 9.0)]);
    assert_eq!(
        ecs.query_one(&[RequiredComponentTypeId(POSITION)]).unwrap().1[0],
        Some(&Component::Position(Position { x: 9.0, y: 9.0 }))
    );
}

#[test]
fn shared_resources_read_back_what_was_written() {
    let mut ecs: Ecs<u32> = Ecs::default();
    assert!(ecs.shared_resource(3).is_none());
    ecs.insert_shared_resource(3, 10);
    ecs.insert_shared_resource(4, 20);
    assert_eq!(ecs.shared_resource(3), Some(&10));
    if let Some(r) = ecs.shared_resource_mut(4) {
        *r += 1;
    }
    assert_eq!(ecs.shared_resource(4), Some(&21));
    ecs.insert_shared_resource(3, 11);
    assert_eq!(ecs.shared_resource(3), Some(&11));
    assert!(ecs.shared_resource_mut(5).is_none());
}

#[test]
fn update_through_query_touches_only_matching_entities() {
    let mut ecs = Ecs::default();
    ecs.insert(vec![position(1.0, 1.0), velocity(2.0, 3.0)]);
    ecs.insert(vec![velocity(6.0, 7.0)]);
    ecs.update_components(
        &[RequiredComponentTypeId(POSITION), RequiredComponentTypeId(VELOCITY)],
        VELOCITY,
        |c: &Component| match c {
            Component::Velocity(v) => Component::Velocity(Velocity { x: v.x * 10.0, y: v.y }),
            other => other.clone(),
        },
    );
    let (_, first) = ecs.query_one_by_id(&[RequiredComponentTypeId(VELOCITY)], 0).unwrap();
    assert_eq!(first[0], Some(&Component::Velocity(Velocity { x: 20.0, y: 3.0 })));
    let (_, second) = ecs.query_one_by_id(&[RequiredComponentTypeId(VELOCITY)], 1).unwrap();
    assert_eq!(second[0], Some(&Component::Velocity(Velocity { x: 6.0, y: 7.0 })));
}
