use qpx::bundle::{Collider, MapItem, MapItemBundle, RigidBody};
use qpx::fixed::UNIT;
use qpx::geometry::{Point, Rect, Triangle};
use qpx::level::{LevelData, MapItemData};
use qpx::streaming::{
    despawn_item, dynamic_map_item, spawn_item, DESPAWN_DISTANCE, SPAWN_FAR, SPAWN_NEAR,
};
use qpx::world::{Command, IdxEntityPair, World};

fn floor_with_leading_edge(edge: i64) -> MapItemData {
    MapItemData::Floor(Rect { x: edge + 100 * UNIT, y: 0, half_w: 100 * UNIT, half_h: 50 * UNIT })
}

fn obstacle_with_leading_edge(edge: i64) -> MapItemData {
    MapItemData::RectObstacle(Rect {
        x: edge + 20 * UNIT,
        y: 0,
        half_w: 20 * UNIT,
        half_h: 20 * UNIT,
    })
}

fn level_of(items: Vec<MapItemData>) -> LevelData {
    LevelData { data: items }
}

#[test]
fn window_constants_are_three_and_five_hundred_units() {
    assert_eq!(SPAWN_NEAR, 300_000_000);
    assert_eq!(SPAWN_FAR, 500_000_000);
    assert_eq!(DESPAWN_DISTANCE, 500_000_000);
}

#[test]
fn floor_far_ahead_is_not_spawned() {
    let level = level_of(vec![floor_with_leading_edge(600 * UNIT)]);
    let mut pairs = IdxEntityPair::default();
    let mut world = World::new();
    let commands = dynamic_map_item(0, &level, &mut pairs, &mut world);
    assert!(commands.is_empty());
    assert!(pairs.pairs.is_empty());
    assert!(world.items.is_empty());
    assert_eq!(world.next, 0);
}

#[test]
fn floor_inside_the_band_is_spawned_this_tick() {
    let item = floor_with_leading_edge(400 * UNIT);
    let level = level_of(vec![item]);
    let mut pairs = IdxEntityPair::default();
    let mut world = World::new();
    let commands = dynamic_map_item(0, &level, &mut pairs, &mut world);
    assert_eq!(pairs.pairs.len(), 1);
    assert_eq!(pairs.pairs.get(&0), Some(&(0, Some(1))));
    assert_eq!(world.items.len(), 2);
    assert_eq!(world.next, 2);
    let (high, low) = item.bundles();
    assert_eq!(commands, vec![Command::Spawn(0, high), Command::Spawn(1, low.unwrap())]);
    assert_eq!(world.items.get(&0), Some(&high));
    assert_eq!(world.items.get(&1), low.as_ref());
}

#[test]
fn band_is_open_at_both_ends() {
    for edge in [300 * UNIT, 500 * UNIT] {
        let level = level_of(vec![obstacle_with_leading_edge(edge)]);
        let mut pairs = IdxEntityPair::default();
        let mut world = World::new();
        let commands = dynamic_map_item(0, &level, &mut pairs, &mut world);
        assert!(commands.is_empty());
        assert!(pairs.pairs.is_empty());
    }
    for edge in [300 * UNIT + 1, 500 * UNIT - 1] {
        let level = level_of(vec![obstacle_with_leading_edge(edge)]);
        let mut pairs = IdxEntityPair::default();
        let mut world = World::new();
        let commands = dynamic_map_item(0, &level, &mut pairs, &mut world);
        assert_eq!(commands.len(), 1);
        assert_eq!(pairs.pairs.get(&0), Some(&(0, None)));
    }
}

#[test]
fn band_moves_with_the_camera() {
    let level = level_of(vec![obstacle_with_leading_edge(1000 * UNIT)]);
    let mut pairs = IdxEntityPair::default();
    let mut world = World::new();
    assert!(dynamic_map_item(0, &level, &mut pairs, &mut world).is_empty());
    assert!(dynamic_map_item(500 * UNIT, &level, &mut pairs, &mut world).is_empty());
    assert_eq!(dynamic_map_item(600 * UNIT, &level, &mut pairs, &mut world).len(), 1);
    assert!(pairs.pairs.contains_key(&0));
}

#[test]
fn item_nearer_than_the_band_is_not_spawned() {
    let level = level_of(vec![obstacle_with_leading_edge(100 * UNIT)]);
    let mut pairs = IdxEntityPair::default();
    let mut world = World::new();
    assert!(dynamic_map_item(0, &level, &mut pairs, &mut world).is_empty());
    assert!(pairs.pairs.is_empty());
}

#[test]
fn spawned_item_is_not_spawned_again() {
    let level = level_of(vec![floor_with_leading_edge(400 * UNIT)]);
    let mut pairs = IdxEntityPair::default();
    let mut world = World::new();
    assert_eq!(dynamic_map_item(0, &level, &mut pairs, &mut world).len(), 2);
    let commands = dynamic_map_item(10 * UNIT, &level, &mut pairs, &mut world);
    assert!(commands.is_empty());
    assert_eq!(pairs.pairs.get(&0), Some(&(0, Some(1))));
    assert_eq!(world.items.len(), 2);
    assert_eq!(world.next, 2);
}

#[test]
fn spawned_item_stays_inside_and_nearer_than_the_band() {
    let level = level_of(vec![floor_with_leading_edge(400 * UNIT)]);
    let mut pairs = IdxEntityPair::default();
    let mut world = World::new();
    dynamic_map_item(0, &level, &mut pairs, &mut world);
    for camera in [200 * UNIT, 400 * UNIT, 600 * UNIT, 1100 * UNIT] {
        assert!(dynamic_map_item(camera, &level, &mut pairs, &mut world).is_empty());
        assert_eq!(pairs.pairs.get(&0), Some(&(0, Some(1))));
    }
}

#[test]
fn floor_left_behind_is_destroyed_once() {
    // trailing edge at 600 units
    let level = level_of(vec![floor_with_leading_edge(400 * UNIT)]);
    let mut pairs = IdxEntityPair::default();
    let mut world = World::new();
    dynamic_map_item(0, &level, &mut pairs, &mut world);
    let commands = dynamic_map_item(1100 * UNIT + 1, &level, &mut pairs, &mut world);
    assert_eq!(commands, vec![Command::Despawn(0), Command::Despawn(1)]);
    assert!(pairs.pairs.is_empty());
    assert!(world.items.is_empty());
    let again = dynamic_map_item(1100 * UNIT + 2, &level, &mut pairs, &mut world);
    assert!(again.is_empty());
}

#[test]
fn item_exactly_at_the_despawn_distance_stays() {
    // trailing edge at 440 units
    let level = level_of(vec![obstacle_with_leading_edge(400 * UNIT)]);
    let mut pairs = IdxEntityPair::default();
    let mut world = World::new();
    dynamic_map_item(0, &level, &mut pairs, &mut world);
    assert!(dynamic_map_item(940 * UNIT, &level, &mut pairs, &mut world).is_empty());
    assert!(pairs.pairs.contains_key(&0));
    let commands = dynamic_map_item(940 * UNIT + 1, &level, &mut pairs, &mut world);
    assert_eq!(commands, vec![Command::Despawn(0)]);
    assert!(!pairs.pairs.contains_key(&0));
}

#[test]
fn floor_has_two_bodies_and_every_other_item_one() {
    let unit_rect = Rect { x: 420 * UNIT, y: 0, half_w: 20 * UNIT, half_h: 20 * UNIT };
    let items = vec![
        MapItemData::Floor(unit_rect),
        MapItemData::TriObstacle(Triangle {
            first: Point { x: 400 * UNIT, y: 0 },
            middle: Point { x: 420 * UNIT, y: 30 * UNIT },
            last: Point { x: 440 * UNIT, y: 0 },
        }),
        MapItemData::RectObstacle(unit_rect),
        MapItemData::DoubleJumpCircle(Point { x: 420 * UNIT, y: 0 }, 20 * UNIT),
        MapItemData::RectFlyBegin(unit_rect),
        MapItemData::RectFlyEnd(unit_rect),
        MapItemData::RectPass(unit_rect),
    ];
    let level = level_of(items);
    let mut pairs = IdxEntityPair::default();
    let mut world = World::new();
    let commands = dynamic_map_item(0, &level, &mut pairs, &mut world);
    assert_eq!(pairs.pairs.len(), 7);
    assert_eq!(commands.len(), 8);
    assert_eq!(world.items.len(), 8);
    for (index, entry) in pairs.pairs.iter() {
        assert_eq!(entry.1.is_some(), *index == 0);
        assert!(world.items.contains_key(&entry.0));
        if let Some(second) = entry.1 {
            assert_ne!(second, entry.0);
            assert!(world.items.contains_key(&second));
        }
    }
    let mut handles: Vec<u64> = Vec::new();
    for entry in pairs.pairs.values() {
        handles.push(entry.0);
        if let Some(second) = entry.1 {
            handles.push(second);
        }
    }
    handles.sort();
    assert_eq!(handles, vec![0, 1, 2, 3, 4, 5, 6, 7]);
}

#[test]
fn bodies_carry_the_meaning_of_their_item() {
    let unit_rect = Rect { x: 420 * UNIT, y: 0, half_w: 20 * UNIT, half_h: 20 * UNIT };
    let items = vec![
        MapItemData::Floor(unit_rect),
        MapItemData::RectObstacle(unit_rect),
        MapItemData::DoubleJumpCircle(Point { x: 420 * UNIT, y: 0 }, 20 * UNIT),
        MapItemData::RectFlyBegin(unit_rect),
        MapItemData::RectFlyEnd(unit_rect),
        MapItemData::RectPass(unit_rect),
    ];
    let level = level_of(items);
    let mut pairs = IdxEntityPair::default();
    let mut world = World::new();
    dynamic_map_item(0, &level, &mut pairs, &mut world);
    let kind = |index: u32| world.kind_of(pairs.pairs[&index].0);
    assert_eq!(kind(0), Some(MapItem::Normal));
    assert_eq!(world.kind_of(pairs.pairs[&0].1.unwrap()), Some(MapItem::Obstacle));
    assert_eq!(kind(1), Some(MapItem::Obstacle));
    assert_eq!(kind(2), Some(MapItem::DoubleJump));
    assert_eq!(kind(3), Some(MapItem::FlyBegin));
    assert_eq!(kind(4), Some(MapItem::FlyEnd));
    assert_eq!(kind(5), Some(MapItem::Pass));
    assert_eq!(world.kind_of(99), None);
}

#[test]
fn triangle_streams_by_its_first_and_last_corner() {
    let tri = MapItemData::TriObstacle(Triangle {
        first: Point { x: 400 * UNIT, y: 0 },
        middle: Point { x: 450 * UNIT, y: 80 * UNIT },
        last: Point { x: 700 * UNIT, y: 0 },
    });
    assert_eq!(tri.leading(), 400 * UNIT as i128);
    assert_eq!(tri.trailing(), 700 * UNIT as i128);
    let level = level_of(vec![tri]);
    let mut pairs = IdxEntityPair::default();
    let mut world = World::new();
    assert_eq!(dynamic_map_item(0, &level, &mut pairs, &mut world).len(), 1);
    assert!(dynamic_map_item(1200 * UNIT, &level, &mut pairs, &mut world).is_empty());
    assert_eq!(
        dynamic_map_item(1200 * UNIT + 1, &level, &mut pairs, &mut world),
        vec![Command::Despawn(0)]
    );
}

#[test]
fn circle_streams_by_centre_and_radius() {
    let circle = MapItemData::DoubleJumpCircle(Point { x: 430 * UNIT, y: 50 * UNIT }, 30 * UNIT);
    assert_eq!(circle.leading(), 400 * UNIT as i128);
    assert_eq!(circle.trailing(), 460 * UNIT as i128);
    let rect = MapItemData::RectPass(Rect { x: 10, y: 0, half_w: 4, half_h: 9 });
    assert_eq!(rect.leading(), 6);
    assert_eq!(rect.trailing(), 14);
}

#[test]
fn edges_do_not_overflow_at_the_ends_of_the_range() {
    let rect = MapItemData::RectObstacle(Rect { x: i64::MAX, y: 0, half_w: i64::MAX, half_h: 1 });
    assert_eq!(rect.trailing(), 2 * (i64::MAX as i128));
    assert_eq!(rect.leading(), 0);
    let level = level_of(vec![rect]);
    let mut pairs = IdxEntityPair::default();
    let mut world = World::new();
    assert!(dynamic_map_item(i64::MIN, &level, &mut pairs, &mut world).is_empty());
}

#[test]
fn respawn_recreates_the_same_bodies() {
    let item = floor_with_leading_edge(400 * UNIT);
    let level = level_of(vec![item]);
    let mut pairs = IdxEntityPair::default();
    let mut world = World::new();
    let first = dynamic_map_item(0, &level, &mut pairs, &mut world);
    let first_high = world.items[&pairs.pairs[&0].0];
    let first_low = world.items[&pairs.pairs[&0].1.unwrap()];
    let gone = dynamic_map_item(1200 * UNIT, &level, &mut pairs, &mut world);
    assert_eq!(gone.len(), 2);
    assert!(pairs.pairs.is_empty());
    let second = dynamic_map_item(0, &level, &mut pairs, &mut world);
    let entry = pairs.pairs[&0];
    assert_eq!(entry, (2, Some(3)));
    assert_eq!(world.items[&entry.0], first_high);
    assert_eq!(world.items[&entry.1.unwrap()], first_low);
    assert_eq!(first, vec![Command::Spawn(0, first_high), Command::Spawn(1, first_low)]);
    assert_eq!(second, vec![Command::Spawn(2, first_high), Command::Spawn(3, first_low)]);
}

#[test]
fn one_tick_can_spawn_and_despawn_different_items() {
    let behind = obstacle_with_leading_edge(400 * UNIT);
    let ahead = obstacle_with_leading_edge(1400 * UNIT);
    let level = level_of(vec![behind, ahead]);
    let mut pairs = IdxEntityPair::default();
    let mut world = World::new();
    assert_eq!(dynamic_map_item(0, &level, &mut pairs, &mut world).len(), 1);
    let commands = dynamic_map_item(1000 * UNIT, &level, &mut pairs, &mut world);
    let (body, _) = ahead.bundles();
    assert_eq!(commands, vec![Command::Despawn(0), Command::Spawn(1, body)]);
    assert!(!pairs.pairs.contains_key(&0));
    assert_eq!(pairs.pairs.get(&1), Some(&(1, None)));
}

#[test]
fn every_index_is_checked_whatever_the_order_of_the_level() {
    let level = level_of(vec![
        obstacle_with_leading_edge(2000 * UNIT),
        obstacle_with_leading_edge(400 * UNIT),
        obstacle_with_leading_edge(100 * UNIT),
        obstacle_with_leading_edge(450 * UNIT),
    ]);
    let mut pairs = IdxEntityPair::default();
    let mut world = World::new();
    let commands = dynamic_map_item(0, &level, &mut pairs, &mut world);
    assert_eq!(commands.len(), 2);
    let mut keys: Vec<u32> = pairs.pairs.keys().copied().collect();
    keys.sort();
    assert_eq!(keys, vec![1, 3]);
}

#[test]
fn despawn_of_an_index_without_entry_does_nothing() {
    let mut commands: Vec<Command> = Vec::new();
    let mut pairs = IdxEntityPair::default();
    let mut world = World::new();
    let item = obstacle_with_leading_edge(400 * UNIT);
    spawn_item(&mut commands, &mut world, &item, 3, &mut pairs);
    commands.clear();
    despawn_item(&mut commands, &mut world, 7, &mut pairs);
    assert!(commands.is_empty());
    assert_eq!(pairs.pairs.len(), 1);
    assert_eq!(world.items.len(), 1);
    despawn_item(&mut commands, &mut world, 3, &mut pairs);
    assert_eq!(commands, vec![Command::Despawn(0)]);
    assert!(pairs.pairs.is_empty());
    assert!(world.items.is_empty());
}

#[test]
fn world_gives_out_handles_in_order_and_forgets_destroyed_bodies() {
    let mut world = World::new();
    let body = MapItemBundle {
        rigid: RigidBody::Fixed,
        collider: Collider::Ball(5),
        position: Point { x: 1, y: 2 },
        map_item: MapItem::DoubleJump,
        sensor: true,
    };
    assert_eq!(world.spawn(body), 0);
    assert_eq!(world.spawn(body), 1);
    assert_eq!(world.kind_of(1), Some(MapItem::DoubleJump));
    world.despawn(1);
    assert_eq!(world.kind_of(1), None);
    world.despawn(1);
    assert_eq!(world.items.len(), 1);
    assert_eq!(world.spawn(body), 2);
    world.clear();
    assert!(world.items.is_empty());
    assert_eq!(world.role, None);
    assert_eq!(world.next, 3);
}

#[test]
fn spawn_of_an_index_with_an_entry_does_nothing() {
    let mut commands: Vec<Command> = Vec::new();
    let mut pairs = IdxEntityPair::default();
    let mut world = World::new();
    let floor = floor_with_leading_edge(400 * UNIT);
    let other = obstacle_with_leading_edge(400 * UNIT);
    spawn_item(&mut commands, &mut world, &floor, 3, &mut pairs);
    assert_eq!(commands.len(), 2);
    spawn_item(&mut commands, &mut world, &floor, 3, &mut pairs);
    spawn_item(&mut commands, &mut world, &other, 3, &mut pairs);
    assert_eq!(commands.len(), 2);
    assert_eq!(pairs.pairs.get(&3), Some(&(0, Some(1))));
    assert_eq!(world.items.len(), 2);
    assert_eq!(world.next, 2);
    spawn_item(&mut commands, &mut world, &other, 4, &mut pairs);
    assert_eq!(pairs.pairs.get(&4), Some(&(2, None)));
    assert_eq!(commands.len(), 3);
}
