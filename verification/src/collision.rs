//! What the contacts that the physics engine reports do to the player and to the session.

use vstd::prelude::*;
use crate::bundle::{MapItem, MapItemBundle};
use crate::player::{RoleSpeed, RoleState, UNLIMITED_JUMPS};
use crate::session::GameState;
use crate::world::{Entry, Handle, IdxEntityPair, World};

verus! {

broadcast use vstd::std_specs::hash::group_hash_axioms;

/// Two bodies began or ceased to touch.
#[derive(Clone, Copy, Debug, PartialEq, Eq, Structural)]
pub enum CollisionEvent {
    Started(Handle, Handle),
    Stopped(Handle, Handle),
}

/// What a batch of contacts has led to so far.
#[derive(Clone, Copy, Debug, PartialEq, Eq, Structural)]
pub struct Resolved {
    /// The player's state.
    pub state: RoleState,
    /// The player's speed.
    pub speed: RoleSpeed,
    /// The session state that was asked for last, if any was.
    pub next: Option<GameState>,
    /// Whether the player hit a hazard, which ends the attempt and the batch.
    pub reset: bool,
}

/// The other party of a contact between `first` and `second`, if the player is one.
pub open spec fn touched(role: Handle, first: Handle, second: Handle) -> Option<Handle> {
    if first == role {
        Some(second)
    } else if second == role {
        Some(first)
    } else {
        None
    }
}

/// What the player touches in a contact between `first` and `second`: the meaning of the
/// other party, if the player is one party and the other is a live map-item body.
pub open spec fn kind_touched(
    role: Handle,
    first: Handle,
    second: Handle,
    bodies: Map<Handle, MapItemBundle>,
) -> Option<MapItem> {
    match touched(role, first, second) {
        Some(other) => if bodies.contains_key(other) {
            Some(bodies[other].map_item)
        } else {
            None
        },
        None => None,
    }
}

/// The outcome after the player began to touch a body that means `kind`.
pub open spec fn begin_contact(kind: MapItem, r: Resolved) -> Resolved {
    match kind {
        MapItem::Obstacle => Resolved {
            state: r.state,
            speed: r.speed,
            next: Some(GameState::InitLevel),
            reset: true,
        },
        MapItem::DoubleJump => Resolved {
            state: if r.state is Air {
                RoleState::Air(1)
            } else {
                r.state
            },
            speed: r.speed,
            next: r.next,
            reset: r.reset,
        },
        MapItem::Normal => Resolved {
            state: RoleState::Normal,
            speed: RoleSpeed(r.speed.0, 0),
            next: r.next,
            reset: r.reset,
        },
        MapItem::FlyBegin => Resolved {
            state: RoleState::Air(UNLIMITED_JUMPS),
            speed: r.speed,
            next: r.next,
            reset: r.reset,
        },
        MapItem::FlyEnd => Resolved {
            state: RoleState::Air(0),
            speed: r.speed,
            next: r.next,
            reset: r.reset,
        },
        MapItem::Pass => Resolved {
            state: r.state,
            speed: r.speed,
            next: Some(GameState::Paused),
            reset: r.reset,
        },
    }
}

/// The outcome after the player ceased to touch a body that means `kind`, while the level
/// is played. Leaving the entrance of a fly zone changes nothing; leaving anything else
/// puts the player in the air without a jump left.
pub open spec fn end_contact(kind: MapItem, r: Resolved) -> Resolved {
    match kind {
        MapItem::FlyBegin => r,
        _ => Resolved { state: RoleState::Air(0), speed: r.speed, next: r.next, reset: r.reset },
    }
}

/// The outcome after one event. A contact without the player, or with a body that is no
/// live map item, changes nothing; nor does the end of a contact while the level is not
/// played.
pub open spec fn resolve_event(
    event: CollisionEvent,
    role: Handle,
    bodies: Map<Handle, MapItemBundle>,
    playing: bool,
    r: Resolved,
) -> Resolved {
    match event {
        CollisionEvent::Started(first, second) => match kind_touched(role, first, second, bodies) {
            Some(kind) => begin_contact(kind, r),
            None => r,
        },
        CollisionEvent::Stopped(first, second) => if playing {
            match kind_touched(role, first, second, bodies) {
                Some(kind) => end_contact(kind, r),
                None => r,
            }
        } else {
            r
        },
    }
}

/// The outcome after the first `n` events, taken in order. Once the player has hit a
/// hazard the events that follow are not looked at.
pub open spec fn resolve_upto(
    events: Seq<CollisionEvent>,
    role: Handle,
    bodies: Map<Handle, MapItemBundle>,
    playing: bool,
    r0: Resolved,
    n: nat,
) -> Resolved
    decreases n,
{
    if n == 0 {
        r0
    } else {
        let r = resolve_upto(events, role, bodies, playing, r0, (n - 1) as nat);
        if r.reset {
            r
        } else {
            resolve_event(events[n - 1], role, bodies, playing, r)
        }
    }
}

/// After a hazard was hit, further events change nothing.
pub proof fn lemma_reset_stops(
    events: Seq<CollisionEvent>,
    role: Handle,
    bodies: Map<Handle, MapItemBundle>,
    playing: bool,
    r0: Resolved,
    hit: nat,
    n: nat,
)
    requires
        hit <= n,
        resolve_upto(events, role, bodies, playing, r0, hit).reset,
    ensures
        resolve_upto(events, role, bodies, playing, r0, n) == resolve_upto(
            events,
            role,
            bodies,
            playing,
            r0,
            hit,
        ),
    decreases n,
{
    if hit < n {
        lemma_reset_stops(events, role, bodies, playing, r0, hit, (n - 1) as nat);
    }
}

/// What the player touches in an event, if anything that counts.
fn party(first: Handle, second: Handle, role: Handle, world: &World) -> (kind: Option<MapItem>)
    ensures
        kind == kind_touched(role, first, second, world.bodies()),
{
    if first == role {
        world.kind_of(second)
    } else if second == role {
        world.kind_of(first)
    } else {
        None
    }
}

/// Applies one event to the outcome so far.
pub fn resolve(
    event: &CollisionEvent,
    role: Handle,
    world: &World,
    playing: bool,
    r: Resolved,
) -> (after: Resolved)
    ensures
        after == resolve_event(*event, role, world.bodies(), playing, r),
{
    match event {
        CollisionEvent::Started(first, second) => {
            match party(*first, *second, role, world) {
                Some(MapItem::Obstacle) => Resolved {
                    state: r.state,
                    speed: r.speed,
                    next: Some(GameState::InitLevel),
                    reset: true,
                },
                Some(MapItem::DoubleJump) => {
                    let state = match r.state {
                        RoleState::Air(_) => RoleState::Air(1),
                        RoleState::Normal => RoleState::Normal,
                    };
                    Resolved { state, speed: r.speed, next: r.next, reset: r.reset }
                },
                Some(MapItem::Normal) => Resolved {
                    state: RoleState::Normal,
                    speed: RoleSpeed(r.speed.0, 0),
                    next: r.next,
                    reset: r.reset,
                },
                Some(MapItem::FlyBegin) => Resolved {
                    state: RoleState::Air(UNLIMITED_JUMPS),
                    speed: r.speed,
                    next: r.next,
                    reset: r.reset,
                },
                Some(MapItem::FlyEnd) => Resolved {
                    state: RoleState::Air(0),
                    speed: r.speed,
                    next: r.next,
                    reset: r.reset,
                },
                Some(MapItem::Pass) => Resolved {
                    state: r.state,
                    speed: r.speed,
                    next: Some(GameState::Paused),
                    reset: r.reset,
                },
                None => r,
            }
        },
        CollisionEvent::Stopped(first, second) => {
            if playing {
                match party(*first, *second, role, world) {
                    Some(MapItem::FlyBegin) => r,
                    Some(_) => Resolved {
                        state: RoleState::Air(0),
                        speed: r.speed,
                        next: r.next,
                        reset: r.reset,
                    },
                    None => r,
                }
            } else {
                r
            }
        },
    }
}

/// Resolves the contacts of one tick, in order, for the player `role_entity`.
///
/// Touching a floor lands the player, a double-jump pad gives a player in the air one
/// jump, the entrance of a fly zone gives jumps that do not run out and its exit takes
/// all jumps, the finish asks for the session to pause. Touching a hazard destroys every
/// body, empties the table and asks for the level to be set up again; no event after it
/// is looked at. Ceasing to touch anything but the entrance of a fly zone, while `state`
/// is `Playing`, leaves the player in the air without a jump. Returns the session state
/// that was asked for last, if any was.
pub fn collide_events(
    events: &Vec<CollisionEvent>,
    role_speed: &mut RoleSpeed,
    role_state: &mut RoleState,
    role_entity: Handle,
    world: &mut World,
    state: GameState,
    pairs: &mut IdxEntityPair,
) -> (next: Option<GameState>)
    ensures
        ({
            let r = resolve_upto(
                events@,
                role_entity,
                old(world).bodies(),
                state == GameState::Playing,
                Resolved {
                    state: *old(role_state),
                    speed: *old(role_speed),
                    next: None,
                    reset: false,
                },
                events@.len(),
            );
            &&& *final(role_state) == r.state
            &&& *final(role_speed) == r.speed
            &&& next == r.next
            &&& final(world).next == old(world).next
            &&& if r.reset {
                &&& final(pairs)@ == Map::<u32, Entry>::empty()
                &&& final(world).bodies() == Map::<Handle, MapItemBundle>::empty()
                &&& final(world).role is None
            } else {
                &&& final(pairs)@ == old(pairs)@
                &&& final(world).bodies() == old(world).bodies()
                &&& final(world).role == old(world).role
            }
        }),
{
    let playing: bool = match state {
        GameState::Playing => true,
        _ => false,
    };
    let ghost r0 = Resolved {
        state: *role_state,
        speed: *role_speed,
        next: None,
        reset: false,
    };
    let mut r = Resolved { state: *role_state, speed: *role_speed, next: None, reset: false };
    let mut i: usize = 0;
    while i < events.len() && !r.reset
        invariant
            i <= events@.len(),
            *world == *old(world),
            r == resolve_upto(events@, role_entity, world.bodies(), playing, r0, i as nat),
        decreases events@.len() - i,
    {
        r = resolve(&events[i], role_entity, world, playing, r);
        i += 1;
    }
    proof {
        if r.reset {
            lemma_reset_stops(
                events@,
                role_entity,
                world.bodies(),
                playing,
                r0,
                i as nat,
                events@.len(),
            );
        }
    }
    *role_state = r.state;
    *role_speed = r.speed;
    if r.reset {
        world.clear();
        pairs.pairs.clear();
    }
    r.next
}

/// Whether an event is one that gives jumps: the player began to touch a double-jump
/// pad or the entrance of a fly zone.
pub open spec fn grants_jumps(
    event: CollisionEvent,
    role: Handle,
    bodies: Map<Handle, MapItemBundle>,
) -> bool {
    match event {
        CollisionEvent::Started(first, second) => {
            let kind = kind_touched(role, first, second, bodies);
            kind == Some(MapItem::DoubleJump) || kind == Some(MapItem::FlyBegin)
        },
        CollisionEvent::Stopped(_, _) => false,
    }
}

/// A contact adds to the jumps of a player in the air in two cases only: a double-jump
/// pad, touched with no jump left, gives one, and the entrance of a fly zone gives
/// `UNLIMITED_JUMPS`.
pub proof fn lemma_contact_jumps(
    event: CollisionEvent,
    role: Handle,
    bodies: Map<Handle, MapItemBundle>,
    playing: bool,
    r: Resolved,
    before: u32,
    after: u32,
)
    requires
        r.state == RoleState::Air(before),
        resolve_event(event, role, bodies, playing, r).state == RoleState::Air(after),
        after > before,
    ensures
        grants_jumps(event, role, bodies),
        event is Started,
        ({
            let kind = kind_touched(role, event->Started_0, event->Started_1, bodies);
            ||| kind == Some(MapItem::DoubleJump) && before == 0 && after == 1
            ||| kind == Some(MapItem::FlyBegin) && after == UNLIMITED_JUMPS
        }),
{
}

/// A batch of contacts without one that gives jumps leaves a player who was in the air
/// on the ground or in the air with no more jumps than before.
pub proof fn lemma_jumps_only_granted(
    events: Seq<CollisionEvent>,
    role: Handle,
    bodies: Map<Handle, MapItemBundle>,
    playing: bool,
    r0: Resolved,
    n: nat,
    before: u32,
)
    requires
        n <= events.len(),
        r0.state == RoleState::Air(before),
        forall|k: int| 0 <= k < n ==> !grants_jumps(#[trigger] events[k], role, bodies),
    ensures
        match resolve_upto(events, role, bodies, playing, r0, n).state {
            RoleState::Air(left) => left <= before,
            RoleState::Normal => true,
        },
    decreases n,
{
    if n > 0 {
        lemma_jumps_only_granted(events, role, bodies, playing, r0, (n - 1) as nat, before);
        assert(!grants_jumps(events[n - 1], role, bodies));
    }
}

} // verus!
