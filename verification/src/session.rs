//! The states of a session, the transitions that keys and buttons ask for, and the
//! choice of a level.

use vstd::prelude::*;
use crate::bundle::MapItemBundle;
use crate::level::{LevelData, LevelError};
use crate::world::{Entry, Handle, IdxEntityPair, World};

verus! {

broadcast use vstd::std_specs::hash::group_hash_axioms;

/// Where a session stands.
#[derive(Clone, Copy, Debug, PartialEq, Eq, Hash, Structural)]
pub enum GameState {
    /// The main menu.
    Main,
    /// A level is being set up.
    InitLevel,
    /// A level is being played.
    Playing,
    /// Play is suspended: by the player, or because the level is finished.
    Paused,
}

impl Default for GameState {
    /// A session begins in the main menu.
    fn default() -> (state: Self)
        ensures
            state == GameState::Main,
    {
        GameState::Main
    }
}

/// The state that the pause key asks for: it suspends play and takes it up again, and
/// does nothing elsewhere.
pub open spec fn pause_toggled(state: GameState) -> Option<GameState> {
    match state {
        GameState::Playing => Some(GameState::Paused),
        GameState::Paused => Some(GameState::Playing),
        _ => None,
    }
}

/// Answers a press of the pause key.
pub fn game_pause_play(state: GameState) -> (next: Option<GameState>)
    ensures
        next == pause_toggled(state),
{
    match state {
        GameState::Playing => Some(GameState::Paused),
        GameState::Paused => Some(GameState::Playing),
        _ => None,
    }
}

/// Answers a press of the confirm key: a level that is set up begins to be played.
pub fn start_playing(state: GameState) -> (next: Option<GameState>)
    ensures
        next == if state == GameState::InitLevel {
            Some(GameState::Playing)
        } else {
            None::<GameState>
        },
{
    match state {
        GameState::InitLevel => Some(GameState::Playing),
        _ => None,
    }
}

/// Answers the start button. While it is pressed, the records of the chosen level file
/// become the level and the session is asked to set it up; records that are not accepted
/// leave the level as it was. While it is not pressed nothing happens.
pub fn start_button_action(
    pressed: bool,
    records: &Vec<(u32, Vec<i64>)>,
    lvd: &mut LevelData,
) -> (next: Result<Option<GameState>, LevelError>)
    ensures
        !pressed ==> next == Ok::<Option<GameState>, LevelError>(None) && final(lvd)@ == old(lvd)@,
        pressed ==> match next {
            Ok(asked) => {
                &&& asked == Some(GameState::InitLevel)
                &&& LevelData::loads(records@, *final(lvd))
            },
            Err(error) => {
                &&& LevelData::fails(records@, error)
                &&& final(lvd)@ == old(lvd)@
            },
        },
{
    if !pressed {
        return Ok(None);
    }
    match LevelData::from_file(records) {
        Ok(level) => {
            *lvd = level;
            Ok(Some(GameState::InitLevel))
        },
        Err(error) => Err(error),
    }
}

/// Answers the button that leaves a level for the main menu. While it is pressed, every
/// body is destroyed, the table is emptied and the main menu is asked for.
pub fn return_main_ui(pressed: bool, world: &mut World, pairs: &mut IdxEntityPair) -> (next:
    Option<GameState>)
    ensures
        final(world).next == old(world).next,
        pressed ==> {
            &&& next == Some(GameState::Main)
            &&& final(pairs)@ == Map::<u32, Entry>::empty()
            &&& final(world).bodies() == Map::<Handle, MapItemBundle>::empty()
            &&& final(world).role is None
        },
        !pressed ==> {
            &&& next is None
            &&& final(pairs)@ == old(pairs)@
            &&& final(world).bodies() == old(world).bodies()
            &&& final(world).role == old(world).role
        },
{
    if pressed {
        world.clear();
        pairs.pairs.clear();
        Some(GameState::Main)
    } else {
        None
    }
}

/// The level files that can be played, and the one that is chosen.
#[derive(Debug)]
pub struct CurLevel {
    pub lvs: Vec<String>,
    pub cur_idx: usize,
}

impl CurLevel {
    /// There is a level to choose, and one of them is chosen.
    pub open spec fn wf(&self) -> bool {
        self.cur_idx < self.lvs@.len()
    }

    /// Chooses the first of `lvs`.
    pub fn new(lvs: Vec<String>) -> (cur: CurLevel)
        ensures
            cur.lvs == lvs,
            cur.cur_idx == 0,
            lvs@.len() > 0 ==> cur.wf(),
    {
        CurLevel { lvs, cur_idx: 0 }
    }
}

/// Answers the button that goes to the level before: while it is pressed, the choice moves
/// one back, from the first level to the last. Returns whether the choice moved.
pub fn select_lv_left_button_action(pressed: bool, lvs: &mut CurLevel) -> (moved: bool)
    requires
        old(lvs).wf(),
    ensures
        moved == pressed,
        final(lvs).lvs == old(lvs).lvs,
        final(lvs).wf(),
        final(lvs).cur_idx == if !pressed {
            old(lvs).cur_idx as int
        } else if old(lvs).cur_idx == 0 {
            old(lvs).lvs@.len() - 1
        } else {
            old(lvs).cur_idx - 1
        },
{
    if pressed {
        if lvs.cur_idx == 0 {
            lvs.cur_idx = lvs.lvs.len() - 1;
        } else {
            lvs.cur_idx -= 1;
        }
    }
    pressed
}

/// Answers the button that goes to the next level: while it is pressed, the choice moves
/// one on, from the last level to the first. Returns whether the choice moved.
pub fn select_lv_right_button_action(pressed: bool, lvs: &mut CurLevel) -> (moved: bool)
    requires
        old(lvs).wf(),
    ensures
        moved == pressed,
        final(lvs).lvs == old(lvs).lvs,
        final(lvs).wf(),
        final(lvs).cur_idx == if !pressed {
            old(lvs).cur_idx as int
        } else if old(lvs).cur_idx + 1 == old(lvs).lvs@.len() {
            0
        } else {
            old(lvs).cur_idx + 1
        },
{
    if pressed {
        let count: usize = lvs.lvs.len();
        if lvs.cur_idx + 1 == count {
            lvs.cur_idx = 0;
        } else {
            lvs.cur_idx += 1;
        }
    }
    pressed
}

} // verus!
