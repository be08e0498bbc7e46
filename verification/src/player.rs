//! The player: where it stands, how it moves, and how it is drawn.

use crate::fixed::{clamp_i32, floor_div, saturate, Vec2, UNIT};
use vstd::prelude::*;
use vstd::string::*;

verus! {

/// Width of one tile of the player's sprite sheets, in pixels.
pub const TILE_WIDTH: u32 = 64;

/// Height of one tile of the player's sprite sheets, in pixels.
pub const TILE_HEIGHT: u32 = 64;

/// One animation of a sprite sheet: the row that holds its frames, how many
/// frames there are, and how many of them are shown in a second.
#[derive(Debug)]
pub struct Animation {
    pub name: String,
    pub row: u32,
    pub frames: u32,
    pub fps: u32,
}

/// The sprite sheet to draw the player from.
#[derive(Clone, Copy, Debug, PartialEq, Eq, Structural)]
pub enum Sprite {
    Idle,
    Walking,
}

/// One draw of the player's sprite: the sheet, the top-left corner, the size
/// on screen, and whether the image is mirrored.
#[derive(Clone, Copy, Debug, PartialEq, Eq, Structural)]
pub struct SpriteDraw {
    pub sprite: Sprite,
    pub x: i32,
    pub y: i32,
    pub dest_size: Vec2,
    pub flip_x: bool,
}

/// The player.
///
/// `dir.x` is one when the player faces right and minus one when it faces
/// left.
#[derive(Clone, Copy, Debug, PartialEq, Eq, Structural)]
pub struct Player {
    pub pos: Vec2,
    pub dims: Vec2,
    pub offset: Vec2,
    pub vel: Vec2,
    pub dir: Vec2,
}

/// The two animations of the player, `idle` and `walking`: each in row 0,
/// three frames long, at six frames a second.
pub fn player_animations() -> (anims: Vec<Animation>)
    ensures
        anims@.len() == 2,
        anims@[0].name@ == "idle"@,
        anims@[1].name@ == "walking"@,
        forall|i: int|
            0 <= i < 2 ==> {
                &&& (#[trigger] anims@[i]).row == 0
                &&& anims@[i].frames == 3
                &&& anims@[i].fps == 6
            },
{
    let mut anims: Vec<Animation> = Vec::new();
    anims.push(Animation { name: String::from_str("idle"), row: 0, frames: 3, fps: 6 });
    anims.push(Animation { name: String::from_str("walking"), row: 0, frames: 3, fps: 6 });
    anims
}

impl Player {
    /// The horizontal direction after the velocity was set to `vel`: left or
    /// right as `vel` points, or `dir_x` as before where `vel` is zero.
    pub open spec fn spec_facing(dir_x: i32, vel: Vec2) -> i32 {
        if vel.x == 0 && vel.y == 0 {
            dir_x
        } else if vel.x < 0 {
            (-UNIT) as i32
        } else {
            UNIT
        }
    }

    /// The draw of a player in the state `self`.
    pub open spec fn spec_draw(self) -> SpriteDraw {
        SpriteDraw {
            sprite: if self.vel.x == 0 && self.vel.y == 0 {
                Sprite::Idle
            } else {
                Sprite::Walking
            },
            x: clamp_i32(self.pos.x - self.dims.x / 2) as i32,
            y: clamp_i32(self.pos.y - self.dims.x / 2) as i32,
            dest_size: self.dims,
            flip_x: self.dir.x < 0,
        }
    }

    /// A player at rest at `pos`, facing right.
    pub fn new(pos: Vec2, dims: Vec2, offset: Vec2) -> (p: Player)
        ensures
            p == (Player {
                pos,
                dims,
                offset,
                vel: Vec2 { x: 0, y: 0 },
                dir: Vec2 { x: UNIT, y: 0 },
            }),
    {
        Player { pos, dims, offset, dir: Vec2 { x: UNIT, y: 0 }, vel: Vec2 { x: 0, y: 0 } }
    }

    /// Sets the velocity. A velocity other than zero also turns the player:
    /// to the left where its horizontal part is negative, else to the right.
    pub fn set_vel(&mut self, vel: Vec2)
        ensures
            *final(self) == (Player {
                vel,
                dir: Vec2 { x: Self::spec_facing(old(self).dir.x, vel), y: old(self).dir.y },
                ..*old(self)
            }),
    {
        self.vel = vel;
        if vel.x != 0 || vel.y != 0 {
            self.dir.x = if vel.x < 0 {
                -UNIT
            } else {
                UNIT
            };
        }
    }

    /// Moves the player by its velocity. A coordinate that would leave the
    /// `i32` range stops at the end of the range.
    pub fn update(&mut self)
        ensures
            *final(self) == (Player {
                pos: Vec2 {
                    x: clamp_i32(old(self).pos.x + old(self).vel.x) as i32,
                    y: clamp_i32(old(self).pos.y + old(self).vel.y) as i32,
                },
                ..*old(self)
            }),
    {
        self.pos = Vec2 {
            x: saturate(self.pos.x as i64 + self.vel.x as i64),
            y: saturate(self.pos.y as i64 + self.vel.y as i64),
        };
    }

    /// How to draw the player: from the walking sheet while it moves and from
    /// the idle sheet while it rests, with the corner half the player's width
    /// above and to the left of its position, at the player's size, mirrored
    /// while it faces left.
    pub fn draw(&self) -> (d: SpriteDraw)
        ensures
            d == self.spec_draw(),
    {
        let half: i64 = floor_div(self.dims.x as i64, 2);
        SpriteDraw {
            sprite: if self.vel.x != 0 || self.vel.y != 0 {
                Sprite::Walking
            } else {
                Sprite::Idle
            },
            x: saturate(self.pos.x as i64 - half),
            y: saturate(self.pos.y as i64 - half),
            dest_size: self.dims,
            flip_x: self.dir.x < 0,
        }
    }
}

} // verus!
