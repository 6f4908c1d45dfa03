//! The player: on the ground or in the air with a number of jumps left, moved by a
//! constant horizontal speed, by gravity and by jumps.

use vstd::prelude::*;
use crate::bundle::{Collider, RigidBody};
use crate::fixed::{advance, clamp, UNIT, UNIT_PER_SECOND};
use crate::geometry::Point;
use crate::world::{Handle, World};

verus! {

/// The vertical speed right after a jump.
pub const JUMP_SPEED: i64 = 600 * UNIT_PER_SECOND;

/// The horizontal speed of the player and of the camera.
pub const ROLE_SPEED: i64 = 300 * UNIT_PER_SECOND;

/// What a millisecond in the air takes from the vertical speed.
pub const GRAVITY: i64 = 1300;

/// The radius of the player's body.
pub const BALL_SIZE: i64 = 30 * UNIT;

/// So many jumps that they do not run out: what the player has at the start of a level
/// and inside a fly zone.
pub const UNLIMITED_JUMPS: u32 = 999;

/// Where the player starts a level.
pub const START_X: i64 = -100 * UNIT;

/// Where the player starts a level.
pub const START_Y: i64 = 200 * UNIT;

/// Whether the player is in the air, and with how many jumps left, or on a floor.
#[derive(Clone, Copy, Debug, PartialEq, Eq, Structural)]
pub enum RoleState {
    Air(u32),
    Normal,
}

/// The player's speed: horizontal, then vertical.
#[derive(Clone, Copy, Debug, PartialEq, Eq, Structural)]
pub struct RoleSpeed(pub i64, pub i64);

/// The player as a level begins.
#[derive(Clone, Copy, Debug, PartialEq, Eq, Structural)]
pub struct Role {
    pub entity: Handle,
    pub rigid: RigidBody,
    pub collider: Collider,
    /// Whether the physics engine must detect the contacts of this body continuously, so
    /// that a fast body does not pass through a thin one between two steps.
    pub ccd: bool,
    pub position: Point,
    pub speed: RoleSpeed,
    pub state: RoleState,
}

impl RoleState {
    /// Whether a press of the jump key lifts the player: from the ground always, in the
    /// air while a jump is left.
    pub open spec fn can_jump(self) -> bool {
        match self {
            RoleState::Air(left) => left > 0,
            RoleState::Normal => true,
        }
    }

    /// The state after a press of the jump key: a jump from the ground leaves none, a jump
    /// in the air uses one up, and without a jump left nothing changes.
    pub open spec fn after_jump(self) -> RoleState {
        match self {
            RoleState::Air(left) => if left > 0 {
                RoleState::Air((left - 1) as u32)
            } else {
                self
            },
            RoleState::Normal => RoleState::Air(0),
        }
    }
}

/// Answers a press of the jump key.
pub fn jump(role_speed: &mut RoleSpeed, role_state: &mut RoleState)
    ensures
        *final(role_state) == old(role_state).after_jump(),
        final(role_speed).0 == old(role_speed).0,
        final(role_speed).1 == if old(role_state).can_jump() {
            JUMP_SPEED
        } else {
            old(role_speed).1
        },
{
    match *role_state {
        RoleState::Air(left) => {
            if left == 0 {
                return ;
            } else {
                *role_state = RoleState::Air(left - 1);
            }
        },
        RoleState::Normal => {
            *role_state = RoleState::Air(0);
        },
    }
    role_speed.1 = JUMP_SPEED;
}

/// Lets gravity act for `dt_ms` milliseconds: in the air the vertical speed falls by
/// `GRAVITY` for each of them, on the ground nothing changes.
pub fn gravity(role_speed: &mut RoleSpeed, role_state: &RoleState, dt_ms: u32)
    ensures
        final(role_speed).0 == old(role_speed).0,
        final(role_speed).1 as int == if *role_state is Air {
            clamp(old(role_speed).1 - GRAVITY * dt_ms)
        } else {
            old(role_speed).1 as int
        },
{
    match role_state {
        RoleState::Air(_) => {
            role_speed.1 = advance(role_speed.1, -GRAVITY, dt_ms);
        },
        RoleState::Normal => {},
    }
}

/// Moves the player for `dt_ms` milliseconds at its speed, and the camera along with it
/// horizontally.
pub fn role_move(position: &mut Point, speed: &RoleSpeed, dt_ms: u32, camera: &mut Point)
    ensures
        final(position).x as int == clamp(old(position).x + speed.0 * dt_ms),
        final(position).y as int == clamp(old(position).y + speed.1 * dt_ms),
        final(camera).x as int == clamp(old(camera).x + speed.0 * dt_ms),
        final(camera).y == old(camera).y,
{
    position.x = advance(position.x, speed.0, dt_ms);
    position.y = advance(position.y, speed.1, dt_ms);
    camera.x = advance(camera.x, speed.0, dt_ms);
}

/// Begins a level: puts the camera at the origin and creates the player, at the start
/// position, in the air with jumps that do not run out, moving right at `ROLE_SPEED`.
pub fn game_init(world: &mut World, camera: &mut Point) -> (role: Role)
    requires
        old(world).wf(),
        old(world).available() >= 1,
    ensures
        *final(camera) == (Point { x: 0, y: 0 }),
        role == (Role {
            entity: old(world).next,
            rigid: RigidBody::Dynamic,
            collider: Collider::Ball(BALL_SIZE),
            ccd: true,
            position: Point { x: START_X, y: START_Y },
            speed: RoleSpeed(ROLE_SPEED, 0),
            state: RoleState::Air(UNLIMITED_JUMPS),
        }),
        final(world).role == Some(role.entity),
        final(world).next == old(world).next + 1,
        final(world).bodies() == old(world).bodies(),
        final(world).wf(),
{
    camera.x = 0;
    camera.y = 0;
    let entity: Handle = world.spawn_role();
    Role {
        entity,
        rigid: RigidBody::Dynamic,
        collider: Collider::Ball(BALL_SIZE),
        ccd: true,
        position: Point { x: START_X, y: START_Y },
        speed: RoleSpeed(ROLE_SPEED, 0),
        state: RoleState::Air(UNLIMITED_JUMPS),
    }
}

/// A press of the jump key never adds a jump: in the air with jumps left it takes exactly
/// one, and with none left it changes neither the state nor the speed.
pub proof fn lemma_jump_spends(state: RoleState)
    ensures
        match state {
            RoleState::Air(left) => if left > 0 {
                state.after_jump() == RoleState::Air((left - 1) as u32)
            } else {
                state.after_jump() == state && !state.can_jump()
            },
            RoleState::Normal => state.after_jump() == RoleState::Air(0),
        },
{
}

} // verus!
