//! One level being played: the level, the table and the bodies, kept consistent behind
//! one type so that every caller finds them so.

use vstd::prelude::*;
use crate::collision::{collide_events, resolve_upto, CollisionEvent, Resolved};
use crate::geometry::Point;
use crate::level::{LevelData, MapItemData};
use crate::player::{game_init, Role, RoleSpeed, RoleState};
use crate::session::{return_main_ui, GameState};
use crate::streaming::{dynamic_map_item, stream_state, stream_upto, streamed};
use crate::bundle::MapItemBundle;
use crate::world::{consistent, Command, Entry, Handle, IdxEntityPair, World};

verus! {

broadcast use vstd::std_specs::hash::group_hash_axioms;

/// A level together with what of it is in the simulation.
pub struct LevelSession {
    level: LevelData,
    pairs: IdxEntityPair,
    world: World,
}

impl LevelSession {
    #[verifier::type_invariant]
    spec fn inv(&self) -> bool {
        &&& self.level.wf()
        &&& self.world.wf()
        &&& consistent(self.level@, self.pairs@, self.world.bodies())
    }

    /// The level.
    pub closed spec fn level(&self) -> LevelData {
        self.level
    }

    /// The table of the items that are in the simulation.
    pub closed spec fn pairs(&self) -> IdxEntityPair {
        self.pairs
    }

    /// The live bodies.
    pub closed spec fn world(&self) -> World {
        self.world
    }

    /// The level fits its index, the world is well formed, and table and bodies are
    /// consistent with the level. This holds of every session.
    pub open spec fn wf(&self) -> bool {
        &&& self.level().wf()
        &&& self.world().wf()
        &&& consistent(self.level()@, self.pairs()@, self.world().bodies())
    }

    /// A session for `level` with nothing in the simulation; none for a level that is too
    /// long to index.
    pub fn new(level: LevelData) -> (session: Option<LevelSession>)
        ensures
            session is Some <==> level.wf(),
            match session {
                Some(s) => {
                    &&& s.wf()
                    &&& s.level() == level
                    &&& s.pairs()@ == Map::<u32, Entry>::empty()
                    &&& s.world().bodies() == Map::<Handle, MapItemBundle>::empty()
                    &&& s.world().next == 0
                    &&& s.world().role is None
                },
                None => true,
            },
    {
        if level.data.len() > u32::MAX as usize {
            return None;
        }
        let pairs = IdxEntityPair::default();
        let world = World::new();
        Some(LevelSession { level, pairs, world })
    }

    /// The session of the level without items: nothing is in the simulation, no handle
    /// was given out, and there is no player.
    fn empty() -> (session: LevelSession)
        ensures
            session.wf(),
            session.level()@ == Seq::<MapItemData>::empty(),
            session.pairs()@ == Map::<u32, Entry>::empty(),
            session.world().bodies() == Map::<Handle, MapItemBundle>::empty(),
            session.world().next == 0,
            session.world().role is None,
    {
        let level = LevelData::default();
        assert(level@ =~= Seq::<MapItemData>::empty());
        LevelSession { level, pairs: IdxEntityPair::default(), world: World::new() }
    }

    /// Hands out the session and leaves an empty one in its place.
    fn take(&mut self) -> (taken: LevelSession)
        ensures
            taken == *old(self),
            taken.inv(),
    {
        let mut taken = LevelSession::empty();
        std::mem::swap(self, &mut taken);
        proof {
            use_type_invariant(&taken);
        }
        taken
    }

    /// The level.
    pub fn level_data(&self) -> (level: &LevelData)
        ensures
            *level == self.level(),
            self.wf(),
    {
        proof {
            use_type_invariant(self);
        }
        &self.level
    }

    /// The table of the items that are in the simulation.
    pub fn entity_pairs(&self) -> (pairs: &IdxEntityPair)
        ensures
            *pairs == self.pairs(),
            self.wf(),
    {
        proof {
            use_type_invariant(self);
        }
        &self.pairs
    }

    /// The live bodies.
    pub fn bodies(&self) -> (world: &World)
        ensures
            *world == self.world(),
            self.wf(),
    {
        proof {
            use_type_invariant(self);
        }
        &self.world
    }

    /// Begins the level, as `game_init` does. Nothing happens when no handle is left.
    pub fn begin(&mut self, camera: &mut Point) -> (role: Option<Role>)
        ensures
            final(self).wf(),
            final(self).level() == old(self).level(),
            final(self).pairs() == old(self).pairs(),
            final(self).world().bodies() == old(self).world().bodies(),
            role is Some <==> old(self).world().available() >= 1,
            match role {
                Some(role) => {
                    &&& role.entity == old(self).world().next
                    &&& final(self).world().next == old(self).world().next + 1
                    &&& final(self).world().role == Some(role.entity)
                    &&& *final(camera) == (Point { x: 0, y: 0 })
                },
                None => final(self).world() == old(self).world() && *final(camera) == *old(camera),
            },
    {
        let LevelSession { level, pairs, mut world } = self.take();
        let role = if world.next == u64::MAX {
            None
        } else {
            Some(game_init(&mut world, camera))
        };
        *self = LevelSession { level, pairs, world };
        role
    }

    /// One tick of streaming at the camera position `camera_x`, as `dynamic_map_item` does
    /// it. Nothing happens when fewer than two handles for every item are left.
    pub fn stream(&mut self, camera_x: i64) -> (commands: Option<Vec<Command>>)
        ensures
            final(self).wf(),
            final(self).level() == old(self).level(),
            commands is Some <==> old(self).world().available() >= 2 * old(self).level()@.len(),
            match commands {
                Some(commands) => {
                    &&& stream_state(&final(self).pairs(), &final(self).world(), commands@)
                        == stream_upto(
                        old(self).level()@,
                        camera_x as int,
                        stream_state(&old(self).pairs(), &old(self).world(), Seq::empty()),
                        old(self).level()@.len(),
                    )
                    &&& streamed(
                        old(self).level()@,
                        camera_x as int,
                        stream_state(&old(self).pairs(), &old(self).world(), Seq::empty()),
                        old(self).level()@.len(),
                        stream_state(&final(self).pairs(), &final(self).world(), commands@),
                    )
                    &&& final(self).world().role == old(self).world().role
                },
                None => final(self).pairs() == old(self).pairs() && final(self).world() == old(
                    self,
                ).world(),
            },
    {
        let LevelSession { level, mut pairs, mut world } = self.take();
        let count: u64 = level.data.len() as u64;
        let commands = if u64::MAX - world.next < 2 * count {
            None
        } else {
            Some(dynamic_map_item(camera_x, &level, &mut pairs, &mut world))
        };
        *self = LevelSession { level, pairs, world };
        commands
    }

    /// Resolves the contacts of one tick, as `collide_events` does.
    pub fn collide(
        &mut self,
        events: &Vec<CollisionEvent>,
        role_speed: &mut RoleSpeed,
        role_state: &mut RoleState,
        role_entity: Handle,
        state: GameState,
    ) -> (next: Option<GameState>)
        ensures
            final(self).wf(),
            final(self).level() == old(self).level(),
            ({
                let r = resolve_upto(
                    events@,
                    role_entity,
                    old(self).world().bodies(),
                    state == GameState::Playing,
                    Resolved {
                        state: *old(role_state),
                        speed: *old(role_speed),
                        next: None,
                        reset: false,
                    },
                    events@.len(),
                );
                &&& *final(role_state) == r.state
                &&& *final(role_speed) == r.speed
                &&& next == r.next
                &&& final(self).world().next == old(self).world().next
                &&& if r.reset {
                    &&& final(self).pairs()@ == Map::<u32, Entry>::empty()
                    &&& final(self).world().bodies() == Map::<Handle, MapItemBundle>::empty()
                    &&& final(self).world().role is None
                } else {
                    &&& final(self).pairs()@ == old(self).pairs()@
                    &&& final(self).world().bodies() == old(self).world().bodies()
                    &&& final(self).world().role == old(self).world().role
                }
            }),
    {
        let LevelSession { level, mut pairs, mut world } = self.take();
        let next = collide_events(
            events,
            role_speed,
            role_state,
            role_entity,
            &mut world,
            state,
            &mut pairs,
        );
        *self = LevelSession { level, pairs, world };
        next
    }

    /// Leaves the level for the main menu while `pressed`, as `return_main_ui` does.
    pub fn leave(&mut self, pressed: bool) -> (next: Option<GameState>)
        ensures
            final(self).wf(),
            final(self).level() == old(self).level(),
            final(self).world().next == old(self).world().next,
            pressed ==> {
                &&& next == Some(GameState::Main)
                &&& final(self).pairs()@ == Map::<u32, Entry>::empty()
                &&& final(self).world().bodies() == Map::<Handle, MapItemBundle>::empty()
                &&& final(self).world().role is None
            },
            !pressed ==> {
                &&& next is None
                &&& final(self).pairs()@ == old(self).pairs()@
                &&& final(self).world().bodies() == old(self).world().bodies()
                &&& final(self).world().role == old(self).world().role
            },
    {
        let LevelSession { level, mut pairs, mut world } = self.take();
        let next = return_main_ui(pressed, &mut world, &mut pairs);
        *self = LevelSession { level, pairs, world };
        next
    }
}

} // verus!
