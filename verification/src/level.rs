//! The items of a level, and how the records of a level file are read into them.

use vstd::prelude::*;
use crate::bundle::MapItemBundle;
use crate::fixed::{clamp, add_clamped, sub_clamped, UNIT};
use crate::geometry::{Point, Rect, Triangle};

verus! {

/// The thickness of the strip on top of a floor that the player stands on.
pub const FLOOR_H: i64 = 20 * UNIT;

/// Half of `FLOOR_H`: the half extent of the strip.
pub const FLOOR_HALF: i64 = 10 * UNIT;

/// One piece of level geometry together with what it means.
#[derive(Clone, Copy, Debug, PartialEq, Eq, Structural)]
pub enum MapItemData {
    /// A rectangle to walk on: a thin strip to stand on above a solid hazard.
    Floor(Rect),
    /// A solid triangular hazard.
    TriObstacle(Triangle),
    /// A solid rectangular hazard.
    RectObstacle(Rect),
    /// A round pad, by centre and radius, that grants one more jump in the air.
    DoubleJumpCircle(Point, i64),
    /// The entrance of a fly zone.
    RectFlyBegin(Rect),
    /// The exit of a fly zone.
    RectFlyEnd(Rect),
    /// The finish of the level.
    RectPass(Rect),
}

impl MapItemData {
    /// The x coordinate at which the item begins, seen from a camera that moves right.
    pub open spec fn leading_edge(self) -> int {
        match self {
            MapItemData::Floor(rect) => rect.left(),
            MapItemData::TriObstacle(tri) => tri.first.x as int,
            MapItemData::RectObstacle(rect) => rect.left(),
            MapItemData::DoubleJumpCircle(pos, radius) => pos.x - radius,
            MapItemData::RectFlyBegin(rect) => rect.left(),
            MapItemData::RectFlyEnd(rect) => rect.left(),
            MapItemData::RectPass(rect) => rect.left(),
        }
    }

    /// The x coordinate at which the item ends.
    pub open spec fn trailing_edge(self) -> int {
        match self {
            MapItemData::Floor(rect) => rect.right(),
            MapItemData::TriObstacle(tri) => tri.last.x as int,
            MapItemData::RectObstacle(rect) => rect.right(),
            MapItemData::DoubleJumpCircle(pos, radius) => pos.x + radius,
            MapItemData::RectFlyBegin(rect) => rect.right(),
            MapItemData::RectFlyEnd(rect) => rect.right(),
            MapItemData::RectPass(rect) => rect.right(),
        }
    }

    /// Whether the item is made of two bodies. Only a floor is.
    pub open spec fn is_floor(self) -> bool {
        self is Floor
    }

    /// How many bodies stand for the item while it is in the simulation.
    pub open spec fn body_count(self) -> nat {
        if self.is_floor() {
            2
        } else {
            1
        }
    }

    /// The strip on top of a floor: as wide as the floor, `FLOOR_H` thick, its upper side on
    /// the floor's upper side.
    pub open spec fn floor_high(rect: Rect) -> Rect {
        Rect {
            x: rect.x,
            y: clamp(clamp(rect.y + rect.half_h) - FLOOR_HALF) as i64,
            half_w: rect.half_w,
            half_h: FLOOR_HALF,
        }
    }

    /// The solid part of a floor below its strip.
    pub open spec fn floor_low(rect: Rect) -> Rect {
        Rect {
            x: rect.x,
            y: clamp(rect.y - FLOOR_HALF) as i64,
            half_w: rect.half_w,
            half_h: clamp(rect.half_h - FLOOR_HALF) as i64,
        }
    }

    /// The first body of the item; for a floor, the strip to stand on.
    pub open spec fn primary_bundle(self) -> MapItemBundle {
        match self {
            MapItemData::Floor(rect) => MapItemBundle::spec_rect_item(
                Self::floor_high(rect),
                false,
            ),
            MapItemData::TriObstacle(tri) => MapItemBundle::spec_tri_obstacle(tri),
            MapItemData::RectObstacle(rect) => MapItemBundle::spec_rect_item(rect, true),
            MapItemData::DoubleJumpCircle(pos, radius) => MapItemBundle::spec_circle_double_jump(
                pos,
                radius,
            ),
            MapItemData::RectFlyBegin(rect) => MapItemBundle::spec_rect_fly(rect, true),
            MapItemData::RectFlyEnd(rect) => MapItemBundle::spec_rect_fly(rect, false),
            MapItemData::RectPass(rect) => MapItemBundle::spec_rect_pass(rect),
        }
    }

    /// The second body of the item: the solid part of a floor, and nothing for any other item.
    pub open spec fn secondary_bundle(self) -> Option<MapItemBundle> {
        match self {
            MapItemData::Floor(rect) => Some(
                MapItemBundle::spec_rect_item(Self::floor_low(rect), true),
            ),
            _ => None,
        }
    }

    /// The leading edge, wide enough that no coordinate overflows.
    pub fn leading(&self) -> (edge: i128)
        ensures
            edge as int == self.leading_edge(),
    {
        match self {
            MapItemData::Floor(rect) => rect.x as i128 - rect.half_w as i128,
            MapItemData::TriObstacle(tri) => tri.first.x as i128,
            MapItemData::RectObstacle(rect) => rect.x as i128 - rect.half_w as i128,
            MapItemData::DoubleJumpCircle(pos, radius) => pos.x as i128 - *radius as i128,
            MapItemData::RectFlyBegin(rect) => rect.x as i128 - rect.half_w as i128,
            MapItemData::RectFlyEnd(rect) => rect.x as i128 - rect.half_w as i128,
            MapItemData::RectPass(rect) => rect.x as i128 - rect.half_w as i128,
        }
    }

    /// The trailing edge, wide enough that no coordinate overflows.
    pub fn trailing(&self) -> (edge: i128)
        ensures
            edge as int == self.trailing_edge(),
    {
        match self {
            MapItemData::Floor(rect) => rect.x as i128 + rect.half_w as i128,
            MapItemData::TriObstacle(tri) => tri.last.x as i128,
            MapItemData::RectObstacle(rect) => rect.x as i128 + rect.half_w as i128,
            MapItemData::DoubleJumpCircle(pos, radius) => pos.x as i128 + *radius as i128,
            MapItemData::RectFlyBegin(rect) => rect.x as i128 + rect.half_w as i128,
            MapItemData::RectFlyEnd(rect) => rect.x as i128 + rect.half_w as i128,
            MapItemData::RectPass(rect) => rect.x as i128 + rect.half_w as i128,
        }
    }

    /// The bodies to create for the item, in the order in which they are created.
    pub fn bundles(&self) -> (bodies: (MapItemBundle, Option<MapItemBundle>))
        ensures
            bodies.0 == self.primary_bundle(),
            bodies.1 == self.secondary_bundle(),
    {
        match self {
            MapItemData::Floor(rect) => {
                let half: i64 = FLOOR_HALF;
                let top: i64 = add_clamped(rect.y, rect.half_h);
                let high = Rect {
                    x: rect.x,
                    y: sub_clamped(top, half),
                    half_w: rect.half_w,
                    half_h: half,
                };
                let low = Rect {
                    x: rect.x,
                    y: sub_clamped(rect.y, half),
                    half_w: rect.half_w,
                    half_h: sub_clamped(rect.half_h, half),
                };
                (MapItemBundle::rect_item(&high, false), Some(MapItemBundle::rect_item(&low, true)))
            },
            MapItemData::TriObstacle(tri) => (MapItemBundle::tri_obstacle(tri), None),
            MapItemData::RectObstacle(rect) => (MapItemBundle::rect_item(rect, true), None),
            MapItemData::DoubleJumpCircle(pos, radius) => (
                MapItemBundle::circle_double_jump(pos, *radius),
                None,
            ),
            MapItemData::RectFlyBegin(rect) => (MapItemBundle::rect_fly(rect, true), None),
            MapItemData::RectFlyEnd(rect) => (MapItemBundle::rect_fly(rect, false), None),
            MapItemData::RectPass(rect) => (MapItemBundle::rect_pass(rect), None),
        }
    }
}

/// Why the records of a level file were not accepted.
#[derive(Clone, Copy, Debug, PartialEq, Eq, Structural)]
pub enum LevelError {
    /// The record at `index` has `len` numbers, which is no rectangle, triangle or circle.
    UnsupportedPayload { index: usize, len: usize },
    /// There are more records than an item index can count.
    TooManyItems,
}

/// The item that one record of a level file stands for. The count of numbers decides the
/// shape: four are a rectangle, six a triangle, three a circle. The tag then tells the
/// rectangles apart.
pub open spec fn decode_record(tag: u32, payload: Seq<i64>) -> Option<MapItemData> {
    if payload.len() == 4 {
        let rect = Rect { x: payload[0], y: payload[1], half_w: payload[2], half_h: payload[3] };
        Some(
            if tag == 0 {
                MapItemData::Floor(rect)
            } else if tag == 2 {
                MapItemData::RectObstacle(rect)
            } else if tag == 4 {
                MapItemData::RectFlyBegin(rect)
            } else if tag == 5 {
                MapItemData::RectFlyEnd(rect)
            } else {
                MapItemData::RectPass(rect)
            },
        )
    } else if payload.len() == 6 {
        Some(
            MapItemData::TriObstacle(
                Triangle {
                    first: Point { x: payload[0], y: payload[1] },
                    middle: Point { x: payload[2], y: payload[3] },
                    last: Point { x: payload[4], y: payload[5] },
                },
            ),
        )
    } else if payload.len() == 3 {
        Some(MapItemData::DoubleJumpCircle(Point { x: payload[0], y: payload[1] }, payload[2]))
    } else {
        None
    }
}

/// Reads one record.
pub fn decode(tag: u32, payload: &Vec<i64>) -> (item: Option<MapItemData>)
    ensures
        item == decode_record(tag, payload@),
{
    if payload.len() == 4 {
        let rect = Rect { x: payload[0], y: payload[1], half_w: payload[2], half_h: payload[3] };
        if tag == 0 {
            Some(MapItemData::Floor(rect))
        } else if tag == 2 {
            Some(MapItemData::RectObstacle(rect))
        } else if tag == 4 {
            Some(MapItemData::RectFlyBegin(rect))
        } else if tag == 5 {
            Some(MapItemData::RectFlyEnd(rect))
        } else {
            Some(MapItemData::RectPass(rect))
        }
    } else if payload.len() == 6 {
        Some(
            MapItemData::TriObstacle(
                Triangle {
                    first: Point { x: payload[0], y: payload[1] },
                    middle: Point { x: payload[2], y: payload[3] },
                    last: Point { x: payload[4], y: payload[5] },
                },
            ),
        )
    } else if payload.len() == 3 {
        Some(MapItemData::DoubleJumpCircle(Point { x: payload[0], y: payload[1] }, payload[2]))
    } else {
        None
    }
}

/// The items of one level, in the order of the level file. An item is known by its place
/// in this list for as long as the level is played.
#[derive(Debug)]
pub struct LevelData {
    pub data: Vec<MapItemData>,
}

impl LevelData {
    /// The items as a sequence.
    pub open spec fn view(&self) -> Seq<MapItemData> {
        self.data@
    }

    /// Every place in the list is an item index.
    pub open spec fn wf(&self) -> bool {
        self.data@.len() <= u32::MAX
    }

    /// Whether every record stands for an item.
    pub open spec fn all_supported(records: Seq<(u32, Vec<i64>)>) -> bool {
        forall|i: int|
            0 <= i < records.len() ==> (#[trigger] decode_record(
                records[i].0,
                records[i].1@,
            )) is Some
    }

    /// Whether `index` is the first record that stands for no item.
    pub open spec fn first_unsupported(records: Seq<(u32, Vec<i64>)>, index: int) -> bool {
        &&& 0 <= index < records.len()
        &&& decode_record(records[index].0, records[index].1@) is None
        &&& forall|i: int|
            0 <= i < index ==> (#[trigger] decode_record(records[i].0, records[i].1@)) is Some
    }

    /// Whether `level` is what the records stand for: one item for each record, in the
    /// same order.
    pub open spec fn loads(records: Seq<(u32, Vec<i64>)>, level: LevelData) -> bool {
        &&& records.len() <= u32::MAX
        &&& Self::all_supported(records)
        &&& level.wf()
        &&& level@.len() == records.len()
        &&& forall|i: int|
            0 <= i < records.len() ==> Some(#[trigger] level@[i]) == decode_record(
                records[i].0,
                records[i].1@,
            )
    }

    /// Whether `error` is why the records are not accepted: too many of them, or else the
    /// first record that stands for no item.
    pub open spec fn fails(records: Seq<(u32, Vec<i64>)>, error: LevelError) -> bool {
        match error {
            LevelError::TooManyItems => records.len() > u32::MAX,
            LevelError::UnsupportedPayload { index, len } => {
                &&& records.len() <= u32::MAX
                &&& Self::first_unsupported(records, index as int)
                &&& len == records[index as int].1@.len()
            },
        }
    }

    /// Builds a level from the records of a level file, each a tag and its numbers.
    ///
    /// The level has one item for each record, in the same order. No level is built from a
    /// list with a record that stands for no item, nor from one too long to index.
    pub fn from_file(records: &Vec<(u32, Vec<i64>)>) -> (loaded: Result<LevelData, LevelError>)
        ensures
            match loaded {
                Ok(level) => Self::loads(records@, level),
                Err(error) => Self::fails(records@, error),
            },
    {
        if records.len() > u32::MAX as usize {
            return Err(LevelError::TooManyItems);
        }
        let mut data: Vec<MapItemData> = Vec::new();
        let mut i: usize = 0;
        while i < records.len()
            invariant
                records@.len() <= u32::MAX,
                i <= records@.len(),
                data@.len() == i,
                forall|k: int|
                    0 <= k < i ==> Some(#[trigger] data@[k]) == decode_record(
                        records@[k].0,
                        records@[k].1@,
                    ),
            decreases records@.len() - i,
        {
            match decode(records[i].0, &records[i].1) {
                Some(item) => {
                    data.push(item);
                },
                None => {
                    assert forall|k: int| 0 <= k < i implies (#[trigger] decode_record(
                        records@[k].0,
                        records@[k].1@,
                    )) is Some by {
                        assert(Some(data@[k]) == decode_record(records@[k].0, records@[k].1@));
                    }
                    return Err(
                        LevelError::UnsupportedPayload { index: i, len: records[i].1.len() },
                    );
                },
            }
            i += 1;
        }
        assert forall|k: int| 0 <= k < records@.len() implies (#[trigger] decode_record(
            records@[k].0,
            records@[k].1@,
        )) is Some by {
            assert(Some(data@[k]) == decode_record(records@[k].0, records@[k].1@));
        }
        Ok(LevelData { data })
    }
}

impl Default for LevelData {
    /// The level without items.
    fn default() -> (level: Self)
        ensures
            level@.len() == 0,
            level.wf(),
    {
        LevelData { data: Vec::new() }
    }
}

} // verus!
