use dungeon_turn::camera::{Camera, DISPLAY_HEIGHT, DISPLAY_WIDTH};
use dungeon_turn::commands::{Command, CommandBuffer, Intent};
use dungeon_turn::components::{Entity, EntityRecord, Health};
use dungeon_turn::geometry::Point;
use dungeon_turn::input::{Action, Key};
use dungeon_turn::world::{Query, World};

#[test]
fn camera_is_centred_on_the_player() {
    let camera = Camera::new(Point::new(10, 10));
    assert_eq!(camera.left_x, -10);
    assert_eq!(camera.right_x, 30);
    assert_eq!(camera.top_y, -2);
    assert_eq!(camera.bottom_y, 22);
    assert_eq!(DISPLAY_WIDTH, 40);
    assert_eq!(DISPLAY_HEIGHT, 25);
}

#[test]
fn camera_at_the_origin_and_at_the_limits() {
    assert_eq!(
        Camera::new(Point::new(0, 0)),
        Camera { left_x: -20, right_x: 20, top_y: -12, bottom_y: 12 }
    );
    let far = Camera::new(Point::new(i32::MAX - 20, i32::MIN + 12));
    assert_eq!(far.right_x, i32::MAX);
    assert_eq!(far.left_x, i32::MAX - 40);
    assert_eq!(far.top_y, i32::MIN);
    assert_eq!(far.bottom_y, i32::MIN + 24);
}

#[test]
fn points_add_component_wise() {
    assert_eq!(Point::new(5, 5).offset(Point::new(0, -1)), Point::new(5, 4));
    assert_eq!(Point::new(-3, 7).offset(Point::new(3, -7)), Point::zero());
    assert!(Point::zero().is_zero());
    assert!(!Point::new(0, 1).is_zero());
    assert!(!Point::new(-1, 0).is_zero());
}

#[test]
fn keys_decode_to_their_actions() {
    assert_eq!(Key::Left.decode(), Action::Step(Point::new(-1, 0)));
    assert_eq!(Key::Right.decode(), Action::Step(Point::new(1, 0)));
    assert_eq!(Key::Up.decode(), Action::Step(Point::new(0, -1)));
    assert_eq!(Key::Down.decode(), Action::Step(Point::new(0, 1)));
    assert_eq!(Key::G.decode(), Action::PickUp);
    let slots = [
        Key::Key1,
        Key::Key2,
        Key::Key3,
        Key::Key4,
        Key::Key5,
        Key::Key6,
        Key::Key7,
        Key::Key8,
        Key::Key9,
    ];
    for (n, key) in slots.iter().enumerate() {
        assert_eq!(key.decode(), Action::UseItem(n));
    }
    assert_eq!(Key::Escape.decode(), Action::Nothing);
    assert_eq!(Key::Other(30).decode(), Action::Nothing);
}

#[test]
fn only_steps_have_a_displacement_and_only_standing_actions_rest() {
    assert_eq!(Action::Step(Point::new(0, 1)).delta(), Point::new(0, 1));
    assert_eq!(Action::PickUp.delta(), Point::zero());
    assert_eq!(Action::UseItem(4).delta(), Point::zero());
    assert_eq!(Action::Nothing.delta(), Point::zero());
    assert!(Action::PickUp.rests());
    assert!(Action::UseItem(0).rests());
    assert!(!Action::Nothing.rests());
    assert!(!Action::Step(Point::new(1, 0)).rests());
}

#[test]
fn queries_select_by_component_and_keep_the_order() {
    let here = Point::new(2, 3);
    let mut world = World::new();
    world.push(EntityRecord { item: true, position: Some(here), ..EntityRecord::bare(Entity(5)) });
    world.push(EntityRecord { enemy: true, position: Some(here), ..EntityRecord::bare(Entity(4)) });
    world.push(EntityRecord { position: Some(here), ..EntityRecord::bare(Entity(3)) });
    world.push(EntityRecord {
        item: true,
        carried: Some(Entity(9)),
        ..EntityRecord::bare(Entity(2))
    });
    world.push(EntityRecord { item: true, position: Some(here), ..EntityRecord::bare(Entity(1)) });
    world.push(EntityRecord { carried: Some(Entity(9)), ..EntityRecord::bare(Entity(0)) });
    assert_eq!(world.find(Query::ItemAt(here)), vec![Entity(5), Entity(1)]);
    assert_eq!(world.find(Query::EnemyAt(here)), vec![Entity(4)]);
    assert_eq!(world.find(Query::CarriedBy(Entity(9))), vec![Entity(2)]);
    assert_eq!(world.find(Query::ItemAt(Point::new(3, 2))), Vec::<Entity>::new());
    assert_eq!(world.find(Query::CarriedBy(Entity(2))), Vec::<Entity>::new());
    assert_eq!(world.len(), 6);
    assert_eq!(world.get(6), None);
    assert_eq!(world.get(2).unwrap().id, Entity(3));
}

#[test]
fn the_player_is_found_only_when_there_is_exactly_one_with_a_position() {
    let p = EntityRecord {
        player: true,
        position: Some(Point::new(1, 2)),
        ..EntityRecord::bare(Entity(8))
    };
    let other = EntityRecord::bare(Entity(7));

    let mut world = World::new();
    assert_eq!(world.locate_player(), None);
    world.push(other);
    assert_eq!(world.locate_player(), None);
    world.push(p);
    assert_eq!(world.locate_player(), Some(1));
    assert_eq!(world.player(), (1, Entity(8), Point::new(1, 2)));
    world.push(EntityRecord { id: Entity(9), ..p });
    assert_eq!(world.locate_player(), None);

    let mut lost = World::new();
    lost.push(EntityRecord { position: None, ..p });
    assert_eq!(lost.locate_player(), None);
}

#[test]
fn flushing_applies_changes_in_order_and_hands_back_the_intents() {
    let cell = Point::new(4, 4);
    let mut world = World::new();
    world.push(EntityRecord { item: true, position: Some(cell), ..EntityRecord::bare(Entity(1)) });
    world.push(EntityRecord { item: true, position: Some(cell), ..EntityRecord::bare(Entity(2)) });

    let mut commands = CommandBuffer::new();
    let go = Intent::WantsToMove { entity: Entity(7), destination: cell };
    let hit = Intent::WantsToAttack { attacker: Entity(7), victim: Entity(2) };
    commands.push(go);
    commands.add_carried(Entity(1), Entity(7));
    commands.remove_position(Entity(1));
    commands.push(hit);
    commands.add_carried(Entity(1), Entity(8));
    assert_eq!(commands.len(), 5);
    assert_eq!(commands.pending[1], Command::AddCarried { item: Entity(1), owner: Entity(7) });

    let intents = commands.flush(&mut world);
    assert_eq!(intents, vec![go, hit]);
    assert_eq!(commands.len(), 0);
    assert_eq!(
        world.get(0).unwrap(),
        EntityRecord { item: true, carried: Some(Entity(8)), ..EntityRecord::bare(Entity(1)) }
    );
    assert_eq!(
        world.get(1).unwrap(),
        EntityRecord { item: true, position: Some(cell), ..EntityRecord::bare(Entity(2)) }
    );
}

#[test]
fn a_change_touches_only_the_entity_it_names() {
    let r = EntityRecord {
        position: Some(Point::new(1, 1)),
        health: Some(Health { current: 1, max: 2 }),
        ..EntityRecord::bare(Entity(3))
    };
    assert_eq!(Command::RemovePosition { entity: Entity(4) }.applied(r), r);
    assert_eq!(
        Command::RemovePosition { entity: Entity(3) }.applied(r),
        EntityRecord { position: None, ..r }
    );
    assert_eq!(Command::AddCarried { item: Entity(4), owner: Entity(3) }.applied(r), r);
    assert_eq!(
        Command::AddCarried { item: Entity(3), owner: Entity(4) }.applied(r),
        EntityRecord { carried: Some(Entity(4)), ..r }
    );
    assert_eq!(
        Command::Spawn { intent: Intent::ActivateItem { used_by: Entity(3), item: Entity(3) } }
            .applied(r),
        r
    );
    assert_eq!(r.rested(), EntityRecord { health: Some(Health { current: 2, max: 2 }), ..r });
    assert_eq!(EntityRecord::bare(Entity(3)).rested(), EntityRecord::bare(Entity(3)));
}

#[test]
fn insert_keeps_the_world_well_formed() {
    let mut world = World::new();
    let a = EntityRecord { item: true, position: Some(Point::new(1, 1)), ..EntityRecord::bare(Entity(1)) };
    assert!(world.insert(a));
    assert!(world.contains(Entity(1)));
    assert!(!world.contains(Entity(2)));

    assert!(!world.insert(EntityRecord::bare(Entity(1))));
    assert_eq!(world.len(), 1);

    let both = EntityRecord { carried: Some(Entity(1)), ..EntityRecord { id: Entity(2), ..a } };
    assert!(!both.is_wf());
    assert!(!world.insert(both));

    let broken = EntityRecord {
        health: Some(Health { current: 5, max: 4 }),
        ..EntityRecord::bare(Entity(3))
    };
    assert!(!broken.is_wf());
    assert!(!world.insert(broken));
    assert_eq!(world.len(), 1);

    let fine = EntityRecord {
        health: Some(Health { current: 4, max: 4 }),
        carried: Some(Entity(1)),
        item: true,
        ..EntityRecord::bare(Entity(3))
    };
    assert!(fine.is_wf());
    assert!(world.insert(fine));
    assert_eq!(world.len(), 2);
    assert_eq!(world.get(1), Some(fine));
    assert_eq!(world.get(0), Some(a));
}
