//! The bodies that are alive in the simulation, and which level item each belongs to.

use vstd::prelude::*;
use std::collections::HashMap;
use crate::bundle::{MapItem, MapItemBundle};
use crate::level::MapItemData;

verus! {

broadcast use vstd::std_specs::hash::group_hash_axioms;

/// The name of a body. It is given out once and names that body until it is destroyed.
pub type Handle = u64;

/// The bodies of one spawned item: the first, and the second where the item has two.
pub type Entry = (Handle, Option<Handle>);

/// What the host must do to its physics engine to follow the simulation.
#[derive(Clone, Copy, Debug, PartialEq, Eq, Structural)]
pub enum Command {
    /// Create this body under this handle.
    Spawn(Handle, MapItemBundle),
    /// Destroy the body with this handle.
    Despawn(Handle),
}

/// Whether `handle` names one of the bodies of `entry`.
pub open spec fn owns(entry: Entry, handle: Handle) -> bool {
    entry.0 == handle || entry.1 == Some(handle)
}

/// For each item that is in the simulation, by its index in the level, the handles of its
/// bodies. An item is in the simulation exactly while it has an entry here.
#[derive(Debug)]
pub struct IdxEntityPair {
    pub pairs: HashMap<u32, Entry>,
}

impl View for IdxEntityPair {
    type V = Map<u32, Entry>;

    open spec fn view(&self) -> Map<u32, Entry> {
        self.pairs@
    }
}

impl Default for IdxEntityPair {
    /// The table without entries.
    fn default() -> (table: Self)
        ensures
            table@ == Map::<u32, Entry>::empty(),
    {
        IdxEntityPair { pairs: HashMap::new() }
    }
}

/// The bodies that are alive: those of map items, each with what it was created from, and
/// the player's.
#[derive(Debug)]
pub struct World {
    /// The next handle to give out. Every handle given out so far is below it.
    pub next: Handle,
    /// The live bodies of map items.
    pub items: HashMap<Handle, MapItemBundle>,
    /// The player's body, while there is one.
    pub role: Option<Handle>,
}

impl World {
    /// The live bodies of map items, by handle.
    pub open spec fn bodies(&self) -> Map<Handle, MapItemBundle> {
        self.items@
    }

    /// No live handle is one that is still to be given out, and the player's body is no
    /// map item.
    pub open spec fn wf(&self) -> bool {
        &&& forall|h: Handle| #[trigger] self.items@.contains_key(h) ==> h < self.next
        &&& match self.role {
            Some(r) => r < self.next && !self.items@.contains_key(r),
            None => true,
        }
    }

    /// How many handles are left to give out.
    pub open spec fn available(&self) -> int {
        u64::MAX - self.next
    }

    /// The world without bodies.
    pub fn new() -> (world: World)
        ensures
            world.next == 0,
            world.bodies() == Map::<Handle, MapItemBundle>::empty(),
            world.role is None,
            world.wf(),
    {
        World { next: 0, items: HashMap::new(), role: None }
    }

    /// Creates a map-item body and gives it the next handle.
    pub fn spawn(&mut self, bundle: MapItemBundle) -> (handle: Handle)
        requires
            old(self).available() >= 1,
        ensures
            handle == old(self).next,
            final(self).next == old(self).next + 1,
            final(self).bodies() == old(self).bodies().insert(handle, bundle),
            final(self).role == old(self).role,
    {
        let handle: Handle = self.next;
        self.items.insert(handle, bundle);
        self.next = handle + 1;
        handle
    }

    /// Creates the player's body and gives it the next handle.
    pub fn spawn_role(&mut self) -> (handle: Handle)
        requires
            old(self).wf(),
            old(self).available() >= 1,
        ensures
            handle == old(self).next,
            final(self).next == old(self).next + 1,
            final(self).bodies() == old(self).bodies(),
            final(self).role == Some(handle),
            final(self).wf(),
    {
        let handle: Handle = self.next;
        self.role = Some(handle);
        self.next = handle + 1;
        handle
    }

    /// Destroys a map-item body. A handle that names no live body is left alone.
    pub fn despawn(&mut self, handle: Handle)
        ensures
            final(self).next == old(self).next,
            final(self).bodies() == old(self).bodies().remove(handle),
            final(self).role == old(self).role,
    {
        self.items.remove(&handle);
    }

    /// What touching the body `handle` means, if it is a live map-item body.
    pub fn kind_of(&self, handle: Handle) -> (kind: Option<MapItem>)
        ensures
            kind == if self.bodies().contains_key(handle) {
                Some(self.bodies()[handle].map_item)
            } else {
                None
            },
    {
        match self.items.get(&handle) {
            Some(bundle) => Some(bundle.map_item),
            None => None,
        }
    }

    /// Destroys every body, the player's too. Handles that were given out stay spent.
    pub fn clear(&mut self)
        ensures
            final(self).next == old(self).next,
            final(self).bodies() == Map::<Handle, MapItemBundle>::empty(),
            final(self).role is None,
    {
        self.items.clear();
        self.role = None;
    }
}

/// Whether `entry` is what the item `item` has while it is in the simulation: its first
/// body alive and created from the item, and a second, different body exactly for a floor.
pub open spec fn entry_matches(
    item: MapItemData,
    entry: Entry,
    bodies: Map<Handle, MapItemBundle>,
) -> bool {
    &&& bodies.contains_key(entry.0)
    &&& bodies[entry.0] == item.primary_bundle()
    &&& match entry.1 {
        Some(second) => {
            &&& item.is_floor()
            &&& second != entry.0
            &&& bodies.contains_key(second)
            &&& Some(bodies[second]) == item.secondary_bundle()
        },
        None => !item.is_floor(),
    }
}

/// Whether the table and the live bodies agree with each other and with the level:
/// every entry belongs to an item of the level and holds that item's bodies, no body
/// belongs to two entries, and every live body belongs to an entry.
pub open spec fn consistent(
    level: Seq<MapItemData>,
    pairs: Map<u32, Entry>,
    bodies: Map<Handle, MapItemBundle>,
) -> bool {
    &&& forall|i: u32| #[trigger]
        pairs.contains_key(i) ==> i < level.len() && entry_matches(level[i as int], pairs[i], bodies)
    &&& forall|i: u32, j: u32, h: Handle|
        pairs.contains_key(i) && pairs.contains_key(j) && #[trigger] owns(pairs[i], h)
            && #[trigger] owns(pairs[j], h) ==> i == j
    &&& forall|h: Handle| #[trigger]
        bodies.contains_key(h) ==> exists|i: u32| pairs.contains_key(i) && #[trigger] owns(pairs[i], h)
}

/// The handles that name the bodies of `entry`.
pub open spec fn handles_of(entry: Entry) -> Set<Handle> {
    Set::new(|h: Handle| owns(entry, h))
}

/// With nothing in the simulation, the table and the bodies are consistent with any level.
pub proof fn lemma_empty_consistent(level: Seq<MapItemData>)
    ensures
        consistent(level, Map::<u32, Entry>::empty(), Map::<Handle, MapItemBundle>::empty()),
{
}

/// While an item is in the simulation, a floor has exactly two bodies and any other item
/// exactly one; they are alive, and they are bodies of no other item.
pub proof fn lemma_body_count(
    level: Seq<MapItemData>,
    pairs: Map<u32, Entry>,
    bodies: Map<Handle, MapItemBundle>,
    i: u32,
)
    requires
        consistent(level, pairs, bodies),
        pairs.contains_key(i),
    ensures
        handles_of(pairs[i]).finite(),
        handles_of(pairs[i]).len() == level[i as int].body_count(),
        level[i as int].body_count() == if level[i as int] is Floor {
            2nat
        } else {
            1nat
        },
        handles_of(pairs[i]).subset_of(bodies.dom()),
        forall|j: u32|
            #[trigger] pairs.contains_key(j) && j != i ==> handles_of(pairs[i]).disjoint(
                handles_of(pairs[j]),
            ),
{
    let entry = pairs[i];
    match entry.1 {
        Some(second) => {
            assert(handles_of(entry) =~= set![entry.0, second]);
        },
        None => {
            assert(handles_of(entry) =~= set![entry.0]);
        },
    }
}

/// Whenever an item is in the simulation, its bodies are those that the level gives for
/// it. So an item that left and came back stands there with the same meaning and the
/// same geometry as before, whatever handles it has now.
pub proof fn lemma_same_bodies(
    level: Seq<MapItemData>,
    pairs_then: Map<u32, Entry>,
    bodies_then: Map<Handle, MapItemBundle>,
    pairs_now: Map<u32, Entry>,
    bodies_now: Map<Handle, MapItemBundle>,
    i: u32,
)
    requires
        consistent(level, pairs_then, bodies_then),
        consistent(level, pairs_now, bodies_now),
        pairs_then.contains_key(i),
        pairs_now.contains_key(i),
    ensures
        bodies_now[pairs_now[i].0] == bodies_then[pairs_then[i].0],
        bodies_now[pairs_now[i].0] == level[i as int].primary_bundle(),
        pairs_now[i].1 is Some <==> pairs_then[i].1 is Some,
        pairs_now[i].1 is Some ==> bodies_now[pairs_now[i].1.unwrap()]
            == bodies_then[pairs_then[i].1.unwrap()] && Some(bodies_now[pairs_now[i].1.unwrap()])
            == level[i as int].secondary_bundle(),
{
}

} // verus!
