//! Tunable values of the game and the window it opens.

use crate::fixed::UNIT;
use vstd::prelude::*;
use vstd::string::*;

verus! {

/// The directory that holds the game's assets.
pub const ASSET_DIR: &'static str = "assets";

/// How fast the player moves, in millionths of a world unit per second.
#[derive(Clone, Copy, Debug, PartialEq, Eq, Structural)]
pub struct GameSettings {
    pub player_move_speed_x: i32,
    pub player_move_speed_y: i32,
}

impl Default for GameSettings {
    /// One world unit per second along both axes.
    fn default() -> (s: Self)
        ensures
            s.player_move_speed_x == UNIT,
            s.player_move_speed_y == UNIT,
    {
        GameSettings { player_move_speed_x: UNIT, player_move_speed_y: UNIT }
    }
}

/// How the window is opened.
#[derive(Debug)]
pub struct WindowConf {
    pub window_title: String,
    pub fullscreen: bool,
    pub window_resizable: bool,
    pub window_width: i32,
    pub window_height: i32,
}

/// The game's window: 1024 by 576 pixels, neither full-screen nor resizable,
/// titled "Shadow Game".
pub fn window_conf() -> (c: WindowConf)
    ensures
        c.window_title@ == "Shadow Game"@,
        !c.fullscreen,
        !c.window_resizable,
        c.window_width == 1024,
        c.window_height == 576,
{
    WindowConf {
        window_title: String::from_str("Shadow Game"),
        fullscreen: false,
        window_resizable: false,
        window_width: 1024,
        window_height: 576,
    }
}

} // verus!
