use qpx::bundle::{Collider, MapItem, MapItemBundle, RigidBody};
use qpx::fixed::UNIT;
use qpx::geometry::{Point, Rect, Triangle};
use qpx::level::{decode, LevelData, LevelError, MapItemData, FLOOR_H, FLOOR_HALF};

fn rect_numbers() -> Vec<i64> {
    vec![500 * UNIT, 10 * UNIT, 100 * UNIT, 50 * UNIT]
}

fn the_rect() -> Rect {
    Rect { x: 500 * UNIT, y: 10 * UNIT, half_w: 100 * UNIT, half_h: 50 * UNIT }
}

#[test]
fn floor_strip_is_twenty_units_thick() {
    assert_eq!(FLOOR_H, 20_000_000);
    assert_eq!(FLOOR_HALF * 2, FLOOR_H);
}

#[test]
fn four_numbers_are_a_rectangle_told_apart_by_the_tag() {
    assert_eq!(decode(0, &rect_numbers()), Some(MapItemData::Floor(the_rect())));
    assert_eq!(decode(2, &rect_numbers()), Some(MapItemData::RectObstacle(the_rect())));
    assert_eq!(decode(4, &rect_numbers()), Some(MapItemData::RectFlyBegin(the_rect())));
    assert_eq!(decode(5, &rect_numbers()), Some(MapItemData::RectFlyEnd(the_rect())));
    assert_eq!(decode(6, &rect_numbers()), Some(MapItemData::RectPass(the_rect())));
}

#[test]
fn any_other_tag_on_a_rectangle_is_the_finish() {
    for tag in [1u32, 3, 7, 42, u32::MAX] {
        assert_eq!(decode(tag, &rect_numbers()), Some(MapItemData::RectPass(the_rect())));
    }
}

#[test]
fn six_numbers_are_a_triangle_whatever_the_tag() {
    let numbers: Vec<i64> = vec![1, 2, 3, 4, 5, 6];
    let tri = MapItemData::TriObstacle(Triangle {
        first: Point { x: 1, y: 2 },
        middle: Point { x: 3, y: 4 },
        last: Point { x: 5, y: 6 },
    });
    assert_eq!(decode(1, &numbers), Some(tri));
    assert_eq!(decode(0, &numbers), Some(tri));
}

#[test]
fn three_numbers_are_a_circle_whatever_the_tag() {
    let numbers: Vec<i64> = vec![7, 8, 9];
    let circle = MapItemData::DoubleJumpCircle(Point { x: 7, y: 8 }, 9);
    assert_eq!(decode(3, &numbers), Some(circle));
    assert_eq!(decode(5, &numbers), Some(circle));
}

#[test]
fn other_counts_of_numbers_stand_for_nothing() {
    for count in [0usize, 1, 2, 5, 7, 8] {
        assert_eq!(decode(0, &vec![1; count]), None);
    }
}

#[test]
fn level_keeps_the_order_of_the_records() {
    let records = vec![
        (0u32, rect_numbers()),
        (3u32, vec![7, 8, 9]),
        (1u32, vec![1, 2, 3, 4, 5, 6]),
        (5u32, rect_numbers()),
    ];
    let level = LevelData::from_file(&records).unwrap();
    assert_eq!(level.data.len(), 4);
    assert_eq!(level.data[0], MapItemData::Floor(the_rect()));
    assert_eq!(level.data[1], MapItemData::DoubleJumpCircle(Point { x: 7, y: 8 }, 9));
    assert!(matches!(level.data[2], MapItemData::TriObstacle(_)));
    assert_eq!(level.data[3], MapItemData::RectFlyEnd(the_rect()));
}

#[test]
fn empty_file_is_an_empty_level() {
    let level = LevelData::from_file(&Vec::new()).unwrap();
    assert!(level.data.is_empty());
    assert!(LevelData::default().data.is_empty());
}

#[test]
fn first_unsupported_record_is_reported_and_no_level_is_built() {
    let records = vec![
        (0u32, rect_numbers()),
        (2u32, vec![1, 2, 3, 4, 5]),
        (2u32, vec![1, 2]),
    ];
    let error = LevelData::from_file(&records).unwrap_err();
    assert_eq!(error, LevelError::UnsupportedPayload { index: 1, len: 5 });
    let error = LevelData::from_file(&vec![(6u32, Vec::new())]).unwrap_err();
    assert_eq!(error, LevelError::UnsupportedPayload { index: 0, len: 0 });
}

#[test]
fn floor_splits_into_a_strip_above_a_solid_part() {
    let (high, low) = MapItemData::Floor(the_rect()).bundles();
    assert_eq!(
        high,
        MapItemBundle {
            rigid: RigidBody::Fixed,
            collider: Collider::Cuboid(100 * UNIT, 10 * UNIT),
            position: Point { x: 500 * UNIT, y: 50 * UNIT },
            map_item: MapItem::Normal,
            sensor: true,
        }
    );
    assert_eq!(
        low,
        Some(MapItemBundle {
            rigid: RigidBody::Fixed,
            collider: Collider::Cuboid(100 * UNIT, 40 * UNIT),
            position: Point { x: 500 * UNIT, y: 0 },
            map_item: MapItem::Obstacle,
            sensor: false,
        })
    );
}

#[test]
fn floor_split_stops_at_the_ends_of_the_range() {
    let rect = Rect { x: 0, y: i64::MAX, half_w: 1, half_h: i64::MAX };
    let (high, low) = MapItemData::Floor(rect).bundles();
    assert_eq!(high.position.y, i64::MAX - FLOOR_HALF);
    assert_eq!(low.unwrap().position.y, i64::MAX - FLOOR_HALF);
    let rect = Rect { x: 0, y: i64::MIN, half_w: 1, half_h: i64::MIN };
    let (high, low) = MapItemData::Floor(rect).bundles();
    assert_eq!(high.position.y, i64::MIN);
    assert_eq!(low.unwrap().position.y, i64::MIN);
    assert_eq!(low.unwrap().collider, Collider::Cuboid(1, i64::MIN));
}

#[test]
fn rectangle_bodies() {
    let rect = the_rect();
    let cuboid = Collider::Cuboid(100 * UNIT, 50 * UNIT);
    let at = Point { x: 500 * UNIT, y: 10 * UNIT };
    let body = |map_item, sensor| MapItemBundle {
        rigid: RigidBody::Fixed,
        collider: cuboid,
        position: at,
        map_item,
        sensor,
    };
    assert_eq!(MapItemBundle::rect_item(&rect, true), body(MapItem::Obstacle, false));
    assert_eq!(MapItemBundle::rect_item(&rect, false), body(MapItem::Normal, true));
    assert_eq!(MapItemBundle::rect_fly(&rect, true), body(MapItem::FlyBegin, true));
    assert_eq!(MapItemBundle::rect_fly(&rect, false), body(MapItem::FlyEnd, true));
    assert_eq!(MapItemBundle::rect_pass(&rect), body(MapItem::Pass, true));
    assert_eq!(MapItemData::RectObstacle(rect).bundles(), (body(MapItem::Obstacle, false), None));
    assert_eq!(MapItemData::RectFlyBegin(rect).bundles(), (body(MapItem::FlyBegin, true), None));
    assert_eq!(MapItemData::RectFlyEnd(rect).bundles(), (body(MapItem::FlyEnd, true), None));
    assert_eq!(MapItemData::RectPass(rect).bundles(), (body(MapItem::Pass, true), None));
}

#[test]
fn triangle_body_is_placed_at_its_first_corner() {
    let tri = Triangle {
        first: Point { x: 100, y: 20 },
        middle: Point { x: 130, y: 70 },
        last: Point { x: 160, y: 20 },
    };
    let body = MapItemBundle::tri_obstacle(&tri);
    assert_eq!(body.position, Point { x: 100, y: 20 });
    assert_eq!(
        body.collider,
        Collider::Triangle(Point { x: 0, y: 0 }, Point { x: 30, y: 50 }, Point { x: 60, y: 0 })
    );
    assert_eq!(body.map_item, MapItem::Obstacle);
    assert_eq!(body.rigid, RigidBody::Fixed);
    assert!(!body.sensor);
    assert_eq!(MapItemData::TriObstacle(tri).bundles(), (body, None));
}

#[test]
fn triangle_offsets_stop_at_the_ends_of_the_range() {
    let tri = Triangle {
        first: Point { x: i64::MIN, y: i64::MAX },
        middle: Point { x: i64::MAX, y: i64::MIN },
        last: Point { x: 0, y: 0 },
    };
    let body = MapItemBundle::tri_obstacle(&tri);
    assert_eq!(
        body.collider,
        Collider::Triangle(
            Point { x: 0, y: 0 },
            Point { x: i64::MAX, y: i64::MIN },
            Point { x: i64::MAX, y: -i64::MAX }
        )
    );
}

#[test]
fn circle_body_is_a_sensor_pad() {
    let body = MapItemBundle::circle_double_jump(&Point { x: 3, y: 4 }, 30 * UNIT);
    assert_eq!(
        body,
        MapItemBundle {
            rigid: RigidBody::Fixed,
            collider: Collider::Ball(30 * UNIT),
            position: Point { x: 3, y: 4 },
            map_item: MapItem::DoubleJump,
            sensor: true,
        }
    );
    assert_eq!(
        MapItemData::DoubleJumpCircle(Point { x: 3, y: 4 }, 30 * UNIT).bundles(),
        (body, None)
    );
}
