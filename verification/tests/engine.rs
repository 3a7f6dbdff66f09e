use micro_ecs::component::{Component, Name, Position};
use micro_ecs::world::{Entity, World};

fn name(s: &str) -> Name {
    Name(String::from(s))
}

#[test]
fn spawn_increases_count() {
    let mut w: World<Component> = World::new();
    assert_eq!(w.count(), 0);

    let a = Entity::new(Component::new().with_position(Position(1, 2)));
    let a_id = a.id();
    w.spawn(a);
    assert_eq!(w.count(), 1);

    let b = Entity::new(Component::new().with_name(name("b")));
    let b_id = b.id();
    w.spawn(b);
    assert_eq!(w.count(), 2);

    // Each spawned entity is retrievable via a single-field query on a field
    // it possesses.
    assert!(w.query_position().iter().any(|t| t.0 == a_id));
    assert!(w.query_name().iter().any(|t| t.0 == b_id));
}

#[test]
fn missing_field_excluded() {
    let mut w: World<Component> = World::new();
    let only_pos = Entity::new(Component::new().with_position(Position(7, 8)));
    let only_pos_id = only_pos.id();
    w.spawn(only_pos);

    assert!(w.query_name().iter().all(|t| t.0 != only_pos_id));
    assert!(w.query_position_name().iter().all(|t| t.0 != only_pos_id));
    assert!(w.query_position().iter().any(|t| t.0 == only_pos_id));
}

#[test]
fn multi_field_match_appears_once_with_stored_values() {
    let mut w: World<Component> = World::new();
    w.spawn(Entity::new(Component::new().with_position(Position(1, 1))));
    let full = Entity::new(
        Component::new()
            .with_position(Position(2, 3))
            .with_name(name("full")),
    );
    let full_id = full.id();
    w.spawn(full);
    w.spawn(Entity::new(Component::new().with_name(name("tail"))));

    let r = w.query_position_name();
    let hits: Vec<_> = r.iter().filter(|t| t.0 == full_id).collect();
    assert_eq!(hits.len(), 1);
    assert_eq!(hits[0].1, Position(2, 3));
    assert_eq!(hits[0].2, name("full"));
}

#[test]
fn mutating_returned_values_leaves_world_unchanged() {
    let mut w: World<Component> = World::new();
    w.spawn(Entity::new(
        Component::new()
            .with_position(Position(4, 5))
            .with_name(name("keep")),
    ));

    let mut r = w.query_position_name();
    r[0].1 = Position(-1, -1);
    r[0].2 .0.push_str("-changed");

    let again = w.query_position_name();
    assert_eq!(again[0].1, Position(4, 5));
    assert_eq!(again[0].2, name("keep"));
}

#[test]
fn query_order_matches_spawn_order() {
    let mut w: World<Component> = World::new();
    let mut spawned: Vec<u128> = Vec::new();
    for i in 0..5 {
        let e = Entity::new(
            Component::new()
                .with_position(Position(i, i))
                .with_name(name("e")),
        );
        spawned.push(e.id());
        w.spawn(e);
    }

    let pos_ids: Vec<u128> = w.query_position().iter().map(|t| t.0).collect();
    let name_ids: Vec<u128> = w.query_name().iter().map(|t| t.0).collect();
    let pair_ids: Vec<u128> = w.query_position_name().iter().map(|t| t.0).collect();
    assert_eq!(pos_ids, spawned);
    assert_eq!(name_ids, spawned);
    assert_eq!(pair_ids, spawned);
}

#[test]
fn query_idempotent() {
    let mut w: World<Component> = World::new();
    w.spawn(Entity::new(Component::new().with_position(Position(1, 0))));
    w.spawn(Entity::new(Component::new().with_name(name("n"))));
    w.spawn(Entity::new(
        Component::new()
            .with_position(Position(2, 2))
            .with_name(name("m")),
    ));

    assert_eq!(w.query_position(), w.query_position());
    assert_eq!(w.query_name(), w.query_name());
    assert_eq!(w.query_position_name(), w.query_position_name());
}

#[test]
fn builder_order_independent() {
    let p = Position(10, 20);
    let a = Component::new().with_position(p).with_name(name("x"));
    let b = Component::new().with_name(name("x")).with_position(p);
    assert_eq!(a, b);
}

#[test]
fn builder_last_write_wins() {
    let c = Component::new()
        .with_position(Position(1, 1))
        .with_position(Position(2, 2));
    assert_eq!(c.position, Some(Position(2, 2)));
    assert_eq!(c.name, None);

    let d = Component::new().with_name(name("old")).with_name(name("new"));
    assert_eq!(d.name, Some(name("new")));
}

#[test]
fn builder_starts_all_absent() {
    let c = Component::new();
    assert_eq!(c.position, None);
    assert_eq!(c.name, None);
}

#[test]
fn empty_world_queries_are_empty() {
    let w: World<Component> = World::new();
    assert_eq!(w.count(), 0);
    assert!(w.query_position().is_empty());
    assert!(w.query_name().is_empty());
    assert!(w.query_position_name().is_empty());
}

#[test]
fn empty_bundle_is_spawnable() {
    let mut w: World<Component> = World::new();
    w.spawn(Entity::new(Component::new()));
    assert_eq!(w.count(), 1);
    assert!(w.query_position().is_empty());
    assert!(w.query_name().is_empty());
    assert!(w.query_position_name().is_empty());
}

#[test]
fn fresh_identifiers_are_distinct() {
    // Identifier generation draws 122 random bits per entity; two draws
    // colliding would mean the generator is not random at all.
    let a = Entity::new(Component::new());
    let b = Entity::new(Component::new());
    assert_ne!(a.id(), b.id());
}

#[test]
fn end_to_end_scenario() {
    let mut w: World<Component> = World::new();

    let a = Entity::new(Component::new().with_position(Position(3, 4)));
    let b = Entity::new(Component::new().with_name(name("Label")));
    let c = Entity::new(
        Component::new()
            .with_position(Position(0, 0))
            .with_name(name("Ian")),
    );
    let (a_id, b_id, c_id) = (a.id(), b.id(), c.id());
    w.spawn(a);
    w.spawn(b);
    w.spawn(c);

    let positions = w.query_position();
    assert_eq!(positions.len(), 2);
    assert_eq!(positions[0].0, a_id);
    assert_eq!(positions[0].1, Position(3, 4));
    assert_eq!(positions[1].0, c_id);
    assert_eq!(positions[1].1, Position(0, 0));

    let names = w.query_name();
    assert_eq!(names.len(), 2);
    assert_eq!(names[0].0, b_id);
    assert_eq!(names[0].1, name("Label"));
    assert_eq!(names[1].0, c_id);
    assert_eq!(names[1].1, name("Ian"));

    let both = w.query_position_name();
    assert_eq!(both.len(), 1);
    assert_eq!(both[0].0, c_id);
    assert_eq!(both[0].1, Position(0, 0));
    assert_eq!(both[0].2, name("Ian"));
}
