//! Bringing map items into the simulation as the camera comes near, and taking them out
//! once it has left them behind.

use vstd::prelude::*;
use crate::bundle::MapItemBundle;
use crate::fixed::UNIT;
use crate::level::{LevelData, MapItemData};
use crate::world::{consistent, entry_matches, owns, Command, Entry, Handle, IdxEntityPair, World};

verus! {

broadcast use vstd::std_specs::hash::group_hash_axioms;

/// An item is created only while its leading edge is farther ahead of the camera than this.
pub const SPAWN_NEAR: i64 = 300 * UNIT;

/// An item is created only while its leading edge is nearer ahead of the camera than this.
pub const SPAWN_FAR: i64 = 500 * UNIT;

/// An item is destroyed once its trailing edge is farther behind the camera than this.
pub const DESPAWN_DISTANCE: i64 = 500 * UNIT;

/// Whether an item that is not in the simulation is to be created: its leading edge lies
/// strictly between `SPAWN_NEAR` and `SPAWN_FAR` ahead of the camera.
pub open spec fn spawn_due(item: MapItemData, camera_x: int) -> bool {
    SPAWN_NEAR < item.leading_edge() - camera_x < SPAWN_FAR
}

/// Whether an item that is in the simulation is to be destroyed: its trailing edge lies
/// more than `DESPAWN_DISTANCE` behind the camera.
pub open spec fn despawn_due(item: MapItemData, camera_x: int) -> bool {
    camera_x - item.trailing_edge() > DESPAWN_DISTANCE
}

/// All that streaming reads and changes: the table, the live map-item bodies, the next
/// handle, and the commands issued so far.
pub struct StreamState {
    pub pairs: Map<u32, Entry>,
    pub bodies: Map<Handle, MapItemBundle>,
    pub next: int,
    pub commands: Seq<Command>,
}

/// The state that a table, a world and a list of commands stand for.
pub open spec fn stream_state(
    pairs: &IdxEntityPair,
    world: &World,
    commands: Seq<Command>,
) -> StreamState {
    StreamState { pairs: pairs@, bodies: world.bodies(), next: world.next as int, commands }
}

/// The commands that destroy the bodies of an entry, first body first.
pub open spec fn despawn_commands(entry: Entry) -> Seq<Command> {
    match entry.1 {
        Some(second) => seq![Command::Despawn(entry.0), Command::Despawn(second)],
        None => seq![Command::Despawn(entry.0)],
    }
}

/// The state after the item at `index`, which has an entry, was taken out.
pub open spec fn after_despawn(index: u32, s: StreamState) -> StreamState {
    let entry = s.pairs[index];
    StreamState {
        pairs: s.pairs.remove(index),
        bodies: match entry.1 {
            Some(second) => s.bodies.remove(entry.0).remove(second),
            None => s.bodies.remove(entry.0),
        },
        next: s.next,
        commands: s.commands + despawn_commands(entry),
    }
}

/// The state after the item at `index` was brought in: its bodies get the next handles
/// in the order in which they are created.
pub open spec fn after_spawn(item: MapItemData, index: u32, s: StreamState) -> StreamState {
    let first = s.next as Handle;
    match item.secondary_bundle() {
        Some(low) => {
            let second = (s.next + 1) as Handle;
            StreamState {
                pairs: s.pairs.insert(index, (first, Some(second))),
                bodies: s.bodies.insert(first, item.primary_bundle()).insert(second, low),
                next: s.next + 2,
                commands: s.commands + seq![
                    Command::Spawn(first, item.primary_bundle()),
                    Command::Spawn(second, low),
                ],
            }
        },
        None => StreamState {
            pairs: s.pairs.insert(index, (first, None)),
            bodies: s.bodies.insert(first, item.primary_bundle()),
            next: s.next + 1,
            commands: s.commands + seq![Command::Spawn(first, item.primary_bundle())],
        },
    }
}

/// The state after one item was looked at: taken out if it is in and due to leave,
/// brought in if it is out and due to come, and left alone otherwise.
pub open spec fn stream_item(
    item: MapItemData,
    index: u32,
    camera_x: int,
    s: StreamState,
) -> StreamState {
    if s.pairs.contains_key(index) {
        if despawn_due(item, camera_x) {
            after_despawn(index, s)
        } else {
            s
        }
    } else if spawn_due(item, camera_x) {
        after_spawn(item, index, s)
    } else {
        s
    }
}

/// The state after the first `n` items of the level were looked at, in order.
pub open spec fn stream_upto(
    level: Seq<MapItemData>,
    camera_x: int,
    s: StreamState,
    n: nat,
) -> StreamState
    decreases n,
{
    if n == 0 {
        s
    } else {
        stream_item(
            level[n - 1],
            (n - 1) as u32,
            camera_x,
            stream_upto(level, camera_x, s, (n - 1) as nat),
        )
    }
}

/// Brings the item at `index` into the simulation: creates its bodies, notes the commands
/// for the host, and enters the handles in the table. An index that has an entry already
/// is left alone, so that no item is ever in the simulation twice.
pub fn spawn_item(
    commands: &mut Vec<Command>,
    world: &mut World,
    item: &MapItemData,
    index: u32,
    pairs: &mut IdxEntityPair,
)
    requires
        old(world).available() >= 2,
    ensures
        stream_state(final(pairs), final(world), final(commands)@) == if old(pairs)@.contains_key(
            index,
        ) {
            stream_state(old(pairs), old(world), old(commands)@)
        } else {
            after_spawn(*item, index, stream_state(old(pairs), old(world), old(commands)@))
        },
        final(world).role == old(world).role,
{
    if pairs.pairs.contains_key(&index) {
        return ;
    }
    let ghost before = stream_state(pairs, world, commands@);
    let (high, low) = item.bundles();
    let first: Handle = world.spawn(high);
    commands.push(Command::Spawn(first, high));
    match low {
        Some(low) => {
            let second: Handle = world.spawn(low);
            commands.push(Command::Spawn(second, low));
            pairs.pairs.insert(index, (first, Some(second)));
        },
        None => {
            pairs.pairs.insert(index, (first, None));
        },
    }
    proof {
        let now = stream_state(pairs, world, commands@);
        let model = after_spawn(*item, index, before);
        assert(now.commands =~= model.commands);
    }
}

/// Takes the item at `index` out of the simulation: destroys its bodies, notes the
/// commands for the host, and removes its entry. An index without an entry is left alone.
pub fn despawn_item(
    commands: &mut Vec<Command>,
    world: &mut World,
    index: u32,
    pairs: &mut IdxEntityPair,
)
    ensures
        stream_state(final(pairs), final(world), final(commands)@) == if old(pairs)@.contains_key(
            index,
        ) {
            after_despawn(index, stream_state(old(pairs), old(world), old(commands)@))
        } else {
            stream_state(old(pairs), old(world), old(commands)@)
        },
        final(world).role == old(world).role,
{
    let ghost before = stream_state(pairs, world, commands@);
    match pairs.pairs.remove(&index) {
        Some(entry) => {
            world.despawn(entry.0);
            commands.push(Command::Despawn(entry.0));
            match entry.1 {
                Some(second) => {
                    world.despawn(second);
                    commands.push(Command::Despawn(second));
                },
                None => {},
            }
            proof {
                let now = stream_state(pairs, world, commands@);
                let model = after_despawn(index, before);
                assert(now.commands =~= model.commands);
            }
        },
        None => {
            proof {
                let now = stream_state(pairs, world, commands@);
                assert(now.pairs =~= before.pairs);
            }
        },
    }
}

/// Whether the item at index `i` has an entry after the first `n` items were looked at,
/// given the table `before`: an item that was looked at and was in stays unless it is
/// due to leave, one that was looked at and was out comes in if it is due to come, and
/// one that was not looked at is as before.
pub open spec fn present_after(
    level: Seq<MapItemData>,
    camera_x: int,
    before: Map<u32, Entry>,
    n: nat,
    i: u32,
) -> bool {
    if i < n {
        if before.contains_key(i) {
            !despawn_due(level[i as int], camera_x)
        } else {
            spawn_due(level[i as int], camera_x)
        }
    } else {
        before.contains_key(i)
    }
}

/// Whether every live body has a handle that was given out already.
pub open spec fn below_next(bodies: Map<Handle, MapItemBundle>, next: int) -> bool {
    forall|h: Handle| #[trigger] bodies.contains_key(h) ==> h < next
}

/// Whether `s` keeps what `s0` had: an item that is in before and after has the same
/// handles, an item that came in has handles that were not given out before, and a body
/// with a handle given out before is a body of before, unchanged.
pub open spec fn handles_kept(s0: StreamState, s: StreamState) -> bool {
    &&& forall|i: u32|
        s0.pairs.contains_key(i) && #[trigger] s.pairs.contains_key(i) ==> s.pairs[i]
            == s0.pairs[i]
    &&& forall|i: u32, h: Handle|
        !s0.pairs.contains_key(i) && s.pairs.contains_key(i) && #[trigger] owns(s.pairs[i], h)
            ==> s0.next <= h
    &&& forall|h: Handle|
        h < s0.next && #[trigger] s.bodies.contains_key(h) ==> s0.bodies.contains_key(h)
            && s.bodies[h] == s0.bodies[h]
}

/// Whether the commands of `s` are the difference between the bodies of `s0` and of `s`:
/// each command destroys a body of `s0` that `s` lacks or creates a body of `s` under a
/// handle that `s0` had not given out, each such body has its command, and no command
/// occurs twice.
pub open spec fn commands_exact(s0: StreamState, s: StreamState) -> bool {
    &&& forall|k: int|
        0 <= k < s.commands.len() ==> match #[trigger] s.commands[k] {
            Command::Despawn(h) => s0.bodies.contains_key(h) && !s.bodies.contains_key(h),
            Command::Spawn(h, b) => s0.next <= h && s.bodies.contains_key(h) && s.bodies[h] == b,
        }
    &&& forall|h: Handle|
        #[trigger] s0.bodies.contains_key(h) && !s.bodies.contains_key(h) ==> exists|k: int|
            0 <= k < s.commands.len() && #[trigger] s.commands[k] == Command::Despawn(h)
    &&& forall|h: Handle|
        s0.next <= h && #[trigger] s.bodies.contains_key(h) ==> exists|k: int|
            0 <= k < s.commands.len() && #[trigger] s.commands[k] == Command::Spawn(
                h,
                s.bodies[h],
            )
    &&& s.commands.no_duplicates()
}

/// What holds of the state `s` reached from `s0` by looking at the first `n` items.
pub open spec fn streamed(
    level: Seq<MapItemData>,
    camera_x: int,
    s0: StreamState,
    n: nat,
    s: StreamState,
) -> bool {
    &&& consistent(level, s.pairs, s.bodies)
    &&& below_next(s.bodies, s.next)
    &&& s0.next <= s.next <= s0.next + 2 * n
    &&& forall|i: u32| #[trigger]
        s.pairs.contains_key(i) <==> present_after(level, camera_x, s0.pairs, n, i)
    &&& handles_kept(s0, s)
    &&& commands_exact(s0, s)
}

/// Taking an item out keeps the table and the bodies consistent.
proof fn lemma_despawn_consistent(level: Seq<MapItemData>, index: u32, s: StreamState)
    requires
        consistent(level, s.pairs, s.bodies),
        s.pairs.contains_key(index),
    ensures
        consistent(level, after_despawn(index, s).pairs, after_despawn(index, s).bodies),
{
    let t = after_despawn(index, s);
    let entry = s.pairs[index];
    assert(entry_matches(level[index as int], entry, s.bodies));
    assert forall|i: u32| #[trigger] t.pairs.contains_key(i) implies i < level.len()
        && entry_matches(level[i as int], t.pairs[i], t.bodies) by {
        let e = s.pairs[i];
        assert(owns(e, e.0));
        assert(owns(entry, entry.0));
        if e.1 is Some {
            assert(owns(e, e.1.unwrap()));
        }
        if entry.1 is Some {
            assert(owns(entry, entry.1.unwrap()));
        }
    }
    assert forall|h: Handle| #[trigger] t.bodies.contains_key(h) implies exists|i: u32|
        t.pairs.contains_key(i) && #[trigger] owns(t.pairs[i], h) by {
        let i = choose|i: u32| s.pairs.contains_key(i) && #[trigger] owns(s.pairs[i], h);
        assert(t.pairs.contains_key(i) && owns(t.pairs[i], h));
    }
}

/// Bringing an item in keeps the table and the bodies consistent.
proof fn lemma_spawn_consistent(level: Seq<MapItemData>, index: u32, s: StreamState)
    requires
        consistent(level, s.pairs, s.bodies),
        !s.pairs.contains_key(index),
        index < level.len(),
        below_next(s.bodies, s.next),
        0 <= s.next,
        s.next + 2 <= u64::MAX,
    ensures
        consistent(
            level,
            after_spawn(level[index as int], index, s).pairs,
            after_spawn(level[index as int], index, s).bodies,
        ),
{
    let t = after_spawn(level[index as int], index, s);
    assert forall|h: Handle| #[trigger] t.bodies.contains_key(h) implies exists|i: u32|
        t.pairs.contains_key(i) && #[trigger] owns(t.pairs[i], h) by {
        if s.bodies.contains_key(h) {
            let i = choose|i: u32| s.pairs.contains_key(i) && #[trigger] owns(s.pairs[i], h);
            assert(t.pairs.contains_key(i) && owns(t.pairs[i], h));
        } else {
            assert(t.pairs.contains_key(index) && owns(t.pairs[index], h));
        }
    }
}

/// Taking out an item whose bodies are bodies of before keeps the commands exact.
proof fn lemma_despawn_commands(s0: StreamState, s: StreamState, index: u32)
    requires
        commands_exact(s0, s),
        below_next(s0.bodies, s0.next),
        s.pairs.contains_key(index),
        s0.bodies.contains_key(s.pairs[index].0),
        s.bodies.contains_key(s.pairs[index].0),
        match s.pairs[index].1 {
            Some(second) => second != s.pairs[index].0 && s0.bodies.contains_key(second)
                && s.bodies.contains_key(second),
            None => true,
        },
    ensures
        commands_exact(s0, after_despawn(index, s)),
{
    let t = after_despawn(index, s);
    let entry = s.pairs[index];
    let added = despawn_commands(entry);
    let len = s.commands.len() as int;
    assert forall|k: int| 0 <= k < t.commands.len() implies match #[trigger] t.commands[k] {
        Command::Despawn(h) => s0.bodies.contains_key(h) && !t.bodies.contains_key(h),
        Command::Spawn(h, b) => s0.next <= h && t.bodies.contains_key(h) && t.bodies[h] == b,
    } by {}
    assert forall|h: Handle|
        #[trigger] s0.bodies.contains_key(h) && !t.bodies.contains_key(h) implies exists|k: int|
        0 <= k < t.commands.len() && #[trigger] t.commands[k] == Command::Despawn(h) by {
        if !s.bodies.contains_key(h) {
            let k = choose|k: int|
                0 <= k < s.commands.len() && #[trigger] s.commands[k] == Command::Despawn(h);
            assert(t.commands[k] == s.commands[k]);
        } else if h == entry.0 {
            assert(t.commands[len] == added[0]);
        } else {
            assert(t.commands[len + 1] == added[1]);
        }
    }
    assert forall|h: Handle| s0.next <= h && #[trigger] t.bodies.contains_key(h) implies exists|
        k: int,
    | 0 <= k < t.commands.len() && #[trigger] t.commands[k] == Command::Spawn(h, t.bodies[h]) by {
        let k = choose|k: int|
            0 <= k < s.commands.len() && #[trigger] s.commands[k] == Command::Spawn(
                h,
                s.bodies[h],
            );
        assert(t.commands[k] == s.commands[k]);
    }
}

/// Bringing in an item under handles that were not given out keeps the commands exact.
proof fn lemma_spawn_commands(s0: StreamState, s: StreamState, item: MapItemData, index: u32)
    requires
        commands_exact(s0, s),
        below_next(s0.bodies, s0.next),
        below_next(s.bodies, s.next),
        0 <= s0.next <= s.next,
        s.next + 2 <= u64::MAX,
    ensures
        commands_exact(s0, after_spawn(item, index, s)),
{
    let t = after_spawn(item, index, s);
    let first = s.next as Handle;
    let len = s.commands.len() as int;
    assert forall|k: int| 0 <= k < t.commands.len() implies match #[trigger] t.commands[k] {
        Command::Despawn(h) => s0.bodies.contains_key(h) && !t.bodies.contains_key(h),
        Command::Spawn(h, b) => s0.next <= h && t.bodies.contains_key(h) && t.bodies[h] == b,
    } by {}
    assert forall|h: Handle|
        #[trigger] s0.bodies.contains_key(h) && !t.bodies.contains_key(h) implies exists|k: int|
        0 <= k < t.commands.len() && #[trigger] t.commands[k] == Command::Despawn(h) by {
        let k = choose|k: int|
            0 <= k < s.commands.len() && #[trigger] s.commands[k] == Command::Despawn(h);
        assert(t.commands[k] == s.commands[k]);
    }
    assert forall|h: Handle| s0.next <= h && #[trigger] t.bodies.contains_key(h) implies exists|
        k: int,
    | 0 <= k < t.commands.len() && #[trigger] t.commands[k] == Command::Spawn(h, t.bodies[h]) by {
        if s.bodies.contains_key(h) {
            let k = choose|k: int|
                0 <= k < s.commands.len() && #[trigger] s.commands[k] == Command::Spawn(
                    h,
                    s.bodies[h],
                );
            assert(t.commands[k] == s.commands[k]);
        } else if h == first {
            assert(t.commands[len] == Command::Spawn(h, t.bodies[h]));
        } else {
            assert(t.commands[len + 1] == Command::Spawn(h, t.bodies[h]));
        }
    }
}

/// Taking an item out keeps the handles of the others.
proof fn lemma_despawn_handles(s0: StreamState, s: StreamState, index: u32)
    requires
        handles_kept(s0, s),
        s.pairs.contains_key(index),
    ensures
        handles_kept(s0, after_despawn(index, s)),
{
}

/// Bringing an item in keeps the handles of the others and gives it fresh ones.
proof fn lemma_spawn_handles(s0: StreamState, s: StreamState, item: MapItemData, index: u32)
    requires
        handles_kept(s0, s),
        !s.pairs.contains_key(index),
        !s0.pairs.contains_key(index),
        0 <= s0.next <= s.next,
        s.next + 2 <= u64::MAX,
    ensures
        handles_kept(s0, after_spawn(item, index, s)),
{
}

/// Looking at one more item keeps what holds of a streamed state.
proof fn lemma_stream_step(
    level: Seq<MapItemData>,
    camera_x: int,
    s0: StreamState,
    n: nat,
    s: StreamState,
)
    requires
        n < level.len() <= u32::MAX,
        0 <= s0.next,
        s0.next + 2 * (n + 1) <= u64::MAX,
        consistent(level, s0.pairs, s0.bodies),
        below_next(s0.bodies, s0.next),
        streamed(level, camera_x, s0, n, s),
    ensures
        streamed(level, camera_x, s0, n + 1, stream_item(level[n as int], n as u32, camera_x, s)),
{
    let index = n as u32;
    let item = level[n as int];
    let t = stream_item(item, index, camera_x, s);
    assert(s.pairs.contains_key(index) <==> present_after(level, camera_x, s0.pairs, n, index));
    assert(s.pairs.contains_key(index) <==> s0.pairs.contains_key(index));
    assert forall|i: u32| #[trigger]
        t.pairs.contains_key(i) <==> present_after(level, camera_x, s0.pairs, n + 1, i) by {
        assert(s.pairs.contains_key(i) <==> present_after(level, camera_x, s0.pairs, n, i));
    }
    if s.pairs.contains_key(index) && despawn_due(item, camera_x) {
        let entry = s.pairs[index];
        assert(entry == s0.pairs[index]);
        assert(entry_matches(item, entry, s0.bodies));
        assert(entry_matches(item, entry, s.bodies));
        lemma_despawn_consistent(level, index, s);
        lemma_despawn_handles(s0, s, index);
        lemma_despawn_commands(s0, s, index);
    } else if !s.pairs.contains_key(index) && spawn_due(item, camera_x) {
        lemma_spawn_consistent(level, index, s);
        lemma_spawn_handles(s0, s, item, index);
        lemma_spawn_commands(s0, s, item, index);
    } else {
        assert(t == s);
    }
}

/// What holds after the first `n` items of a level were looked at, starting from a
/// consistent state without commands.
pub proof fn lemma_stream_upto(level: Seq<MapItemData>, camera_x: int, s0: StreamState, n: nat)
    requires
        n <= level.len() <= u32::MAX,
        0 <= s0.next,
        s0.next + 2 * n <= u64::MAX,
        consistent(level, s0.pairs, s0.bodies),
        below_next(s0.bodies, s0.next),
        s0.commands.len() == 0,
    ensures
        streamed(level, camera_x, s0, n, stream_upto(level, camera_x, s0, n)),
    decreases n,
{
    if n > 0 {
        let m = (n - 1) as nat;
        lemma_stream_upto(level, camera_x, s0, m);
        lemma_stream_step(level, camera_x, s0, m, stream_upto(level, camera_x, s0, m));
    }
}

/// One tick of streaming. Looks at every item of the level, in order: one that is in the
/// simulation and whose trailing edge is more than `DESPAWN_DISTANCE` behind the camera
/// is taken out, one that is not in and whose leading edge is strictly between
/// `SPAWN_NEAR` and `SPAWN_FAR` ahead of the camera is brought in. Returns, in the order
/// in which they were decided, the commands by which the host follows.
///
/// The caller sees to it that two handles are left for every item of the level.
pub fn dynamic_map_item(
    camera_x: i64,
    level_data: &LevelData,
    pairs: &mut IdxEntityPair,
    world: &mut World,
) -> (commands: Vec<Command>)
    requires
        level_data.wf(),
        old(world).wf(),
        consistent(level_data@, old(pairs)@, old(world).bodies()),
        old(world).available() >= 2 * level_data@.len(),
    ensures
        stream_state(final(pairs), final(world), commands@) == stream_upto(
            level_data@,
            camera_x as int,
            stream_state(old(pairs), old(world), Seq::empty()),
            level_data@.len(),
        ),
        streamed(
            level_data@,
            camera_x as int,
            stream_state(old(pairs), old(world), Seq::empty()),
            level_data@.len(),
            stream_state(final(pairs), final(world), commands@),
        ),
        final(world).role == old(world).role,
        final(world).wf(),
{
    let ghost s0 = stream_state(pairs, world, Seq::empty());
    let mut commands: Vec<Command> = Vec::new();
    let count: usize = level_data.data.len();
    let mut i: usize = 0;
    while i < count
        invariant
            count == level_data@.len(),
            count <= u32::MAX,
            i <= count,
            world.next + 2 * (count - i) <= u64::MAX,
            world.role == old(world).role,
            stream_state(pairs, world, commands@) == stream_upto(
                level_data@,
                camera_x as int,
                s0,
                i as nat,
            ),
        decreases count - i,
    {
        let index: u32 = i as u32;
        let item: &MapItemData = &level_data.data[i];
        let ghost before = stream_state(pairs, world, commands@);
        if pairs.pairs.contains_key(&index) {
            if camera_x as i128 - item.trailing() > DESPAWN_DISTANCE as i128 {
                despawn_item(&mut commands, world, index, pairs);
            }
        } else {
            let ahead: i128 = item.leading() - camera_x as i128;
            if ahead > SPAWN_NEAR as i128 && ahead < SPAWN_FAR as i128 {
                spawn_item(&mut commands, world, item, index, pairs);
            }
        }
        assert(stream_state(pairs, world, commands@) == stream_item(
            *item,
            index,
            camera_x as int,
            before,
        ));
        i += 1;
    }
    proof {
        lemma_stream_upto(level_data@, camera_x as int, s0, count as nat);
    }
    commands
}

/// The streaming window, for one tick and one item of the level. The item is in the
/// simulation after the tick exactly if it was in and is not due to leave, or was out
/// and is due to come. So it comes in only with its leading edge strictly between
/// `SPAWN_NEAR` and `SPAWN_FAR` ahead of the camera, and once in it stays, under the
/// same handles, until its trailing edge is more than `DESPAWN_DISTANCE` behind.
pub proof fn lemma_streaming_window(
    level: Seq<MapItemData>,
    camera_x: int,
    s0: StreamState,
    i: u32,
)
    requires
        level.len() <= u32::MAX,
        0 <= s0.next,
        s0.next + 2 * level.len() <= u64::MAX,
        consistent(level, s0.pairs, s0.bodies),
        below_next(s0.bodies, s0.next),
        s0.commands.len() == 0,
        i < level.len(),
    ensures
        ({
            let s = stream_upto(level, camera_x, s0, level.len());
            let item = level[i as int];
            let was_in = s0.pairs.contains_key(i);
            let is_in = s.pairs.contains_key(i);
            &&& is_in <==> (was_in && !despawn_due(item, camera_x)) || (!was_in && spawn_due(
                item,
                camera_x,
            ))
            &&& !was_in && is_in ==> SPAWN_NEAR < item.leading_edge() - camera_x < SPAWN_FAR
            &&& !was_in && item.leading_edge() - camera_x <= SPAWN_NEAR ==> !is_in
            &&& !was_in && item.leading_edge() - camera_x >= SPAWN_FAR ==> !is_in
            &&& was_in && camera_x - item.trailing_edge() <= DESPAWN_DISTANCE ==> is_in
                && s.pairs[i] == s0.pairs[i]
            &&& was_in && camera_x - item.trailing_edge() > DESPAWN_DISTANCE ==> !is_in
        }),
{
    lemma_stream_upto(level, camera_x, s0, level.len());
    let s = stream_upto(level, camera_x, s0, level.len());
    assert(s.pairs.contains_key(i) <==> present_after(level, camera_x, s0.pairs, level.len(), i));
}

/// What a tick destroys, it destroys once: each body of an item that left has exactly one
/// command that destroys it, and a body that stayed has none.
pub proof fn lemma_destroyed_once(
    level: Seq<MapItemData>,
    camera_x: int,
    s0: StreamState,
    i: u32,
    h: Handle,
)
    requires
        level.len() <= u32::MAX,
        0 <= s0.next,
        s0.next + 2 * level.len() <= u64::MAX,
        consistent(level, s0.pairs, s0.bodies),
        below_next(s0.bodies, s0.next),
        s0.commands.len() == 0,
        s0.pairs.contains_key(i),
        owns(s0.pairs[i], h),
    ensures
        ({
            let s = stream_upto(level, camera_x, s0, level.len());
            let due = despawn_due(level[i as int], camera_x);
            &&& due ==> !s.pairs.contains_key(i) && !s.bodies.contains_key(h)
            &&& due ==> exists|k: int|
                0 <= k < s.commands.len() && #[trigger] s.commands[k] == Command::Despawn(h)
            &&& !due ==> s.bodies.contains_key(h) && forall|k: int|
                0 <= k < s.commands.len() ==> #[trigger] s.commands[k] != Command::Despawn(h)
            &&& forall|k: int, l: int|
                0 <= k < s.commands.len() && 0 <= l < s.commands.len() && s.commands[k]
                    == Command::Despawn(h) && s.commands[l] == Command::Despawn(h) ==> k == l
        }),
{
    lemma_stream_upto(level, camera_x, s0, level.len());
    let s = stream_upto(level, camera_x, s0, level.len());
    assert(s.pairs.contains_key(i) <==> present_after(level, camera_x, s0.pairs, level.len(), i));
    assert(entry_matches(level[i as int], s0.pairs[i], s0.bodies));
    assert(s0.bodies.contains_key(h));
    if despawn_due(level[i as int], camera_x) {
        if s.bodies.contains_key(h) {
            let j = choose|j: u32| s.pairs.contains_key(j) && #[trigger] owns(s.pairs[j], h);
            assert(entry_matches(level[j as int], s.pairs[j], s.bodies));
            if s0.pairs.contains_key(j) {
                assert(s.pairs[j] == s0.pairs[j]);
                assert(i == j);
            } else {
                assert(s0.next <= h);
            }
        }
    } else {
        assert(s.pairs.contains_key(i));
        assert(s.pairs[i] == s0.pairs[i]);
        assert(entry_matches(level[i as int], s.pairs[i], s.bodies));
    }
}

/// Whether an item is in the simulation after a tick at `camera_x`, given whether it was
/// in before: once in, it stays until it is due to leave; while out, it comes in when it
/// is due to come.
pub open spec fn in_after_tick(item: MapItemData, camera_x: int, was_in: bool) -> bool {
    if was_in {
        !despawn_due(item, camera_x)
    } else {
        spawn_due(item, camera_x)
    }
}

/// Whether an item is in the simulation after one tick at each of the camera positions
/// `cameras`, in order, given whether it was in at first.
pub open spec fn in_after_ticks(item: MapItemData, cameras: Seq<int>, was_in: bool) -> bool
    decreases cameras.len(),
{
    if cameras.len() == 0 {
        was_in
    } else {
        in_after_tick(item, cameras.last(), in_after_ticks(item, cameras.drop_last(), was_in))
    }
}

/// The state after one tick at `camera_x`. The commands are those of this tick alone.
pub open spec fn after_tick(level: Seq<MapItemData>, camera_x: int, s: StreamState) -> StreamState {
    stream_upto(
        level,
        camera_x,
        StreamState { pairs: s.pairs, bodies: s.bodies, next: s.next, commands: Seq::empty() },
        level.len(),
    )
}

/// The state after one tick at each of the camera positions `cameras`, in order.
pub open spec fn after_ticks(level: Seq<MapItemData>, cameras: Seq<int>, s: StreamState) -> StreamState
    decreases cameras.len(),
{
    if cameras.len() == 0 {
        s
    } else {
        after_tick(level, cameras.last(), after_ticks(level, cameras.drop_last(), s))
    }
}

/// At any tick, whether an item is in the simulation follows from the camera positions
/// so far and that item's edges alone, by the rule of `in_after_tick`; and the table and
/// the bodies are consistent with the level.
pub proof fn lemma_window_history(
    level: Seq<MapItemData>,
    cameras: Seq<int>,
    s0: StreamState,
    i: u32,
)
    requires
        level.len() <= u32::MAX,
        0 <= s0.next,
        s0.next + 2 * level.len() * cameras.len() <= u64::MAX,
        consistent(level, s0.pairs, s0.bodies),
        below_next(s0.bodies, s0.next),
        i < level.len(),
    ensures
        ({
            let s = after_ticks(level, cameras, s0);
            &&& consistent(level, s.pairs, s.bodies)
            &&& below_next(s.bodies, s.next)
            &&& s0.next <= s.next <= s0.next + 2 * level.len() * cameras.len()
            &&& s.pairs.contains_key(i) <==> in_after_ticks(
                level[i as int],
                cameras,
                s0.pairs.contains_key(i),
            )
        }),
    decreases cameras.len(),
{
    if cameras.len() > 0 {
        let earlier = cameras.drop_last();
        let count = level.len() as int;
        let n = cameras.len() as int;
        assert(2 * count * (n - 1) + 2 * count == 2 * count * n) by (nonlinear_arith);
        assert(0 <= 2 * count * (n - 1)) by (nonlinear_arith)
            requires
                0 <= count,
                1 <= n,
        ;
        lemma_window_history(level, earlier, s0, i);
        let prev = after_ticks(level, earlier, s0);
        let start = StreamState {
            pairs: prev.pairs,
            bodies: prev.bodies,
            next: prev.next,
            commands: Seq::empty(),
        };
        lemma_stream_upto(level, cameras.last(), start, level.len());
        let s = after_tick(level, cameras.last(), prev);
        assert(s.pairs.contains_key(i) <==> present_after(
            level,
            cameras.last(),
            start.pairs,
            level.len(),
            i,
        ));
    }
}

/// An item that was out at first, and that no tick found with its leading edge strictly
/// between `SPAWN_NEAR` and `SPAWN_FAR` ahead of the camera, is out.
pub proof fn lemma_never_due_never_in(item: MapItemData, cameras: Seq<int>)
    requires
        forall|k: int| 0 <= k < cameras.len() ==> !spawn_due(item, #[trigger] cameras[k]),
    ensures
        !in_after_ticks(item, cameras, false),
    decreases cameras.len(),
{
    if cameras.len() > 0 {
        let earlier = cameras.drop_last();
        assert forall|k: int| 0 <= k < earlier.len() implies !spawn_due(
            item,
            #[trigger] earlier[k],
        ) by {
            assert(earlier[k] == cameras[k]);
        }
        lemma_never_due_never_in(item, earlier);
        assert(cameras.last() == cameras[cameras.len() - 1]);
    }
}

/// An item that is in, and that no later tick finds with its trailing edge more than
/// `DESPAWN_DISTANCE` behind the camera, stays in.
pub proof fn lemma_stays_until_left_behind(item: MapItemData, cameras: Seq<int>)
    requires
        forall|k: int| 0 <= k < cameras.len() ==> !despawn_due(item, #[trigger] cameras[k]),
    ensures
        in_after_ticks(item, cameras, true),
    decreases cameras.len(),
{
    if cameras.len() > 0 {
        let earlier = cameras.drop_last();
        assert forall|k: int| 0 <= k < earlier.len() implies !despawn_due(
            item,
            #[trigger] earlier[k],
        ) by {
            assert(earlier[k] == cameras[k]);
        }
        lemma_stays_until_left_behind(item, earlier);
        assert(cameras.last() == cameras[cameras.len() - 1]);
    }
}

} // verus!
