//! The game from one frame to the next: the scene it starts with, the
//! commands that draw a frame, and how input moves the player.
//!
//! Drawing and reading input are left to the caller. The caller carries out
//! the commands of `Game::frame` in order, then hands the keys that are down
//! and the time that has passed to `Game::advance`.

use crate::compositor::{light_uniforms, spec_light_uniforms, UniformWrite};
use crate::fixed::{clamp_i32, floor_div, saturate, Vec2, Vec3, UNIT};
use crate::light::{Light, LightRegistry, MAX_LIGHTS};
use crate::player::{Player, SpriteDraw};
use crate::settings::GameSettings;
use crate::shade::Rgba;
use crate::transform::{lemma_scaled_fits, Viewport};
use vstd::prelude::*;

verus! {

/// An axis-aligned rectangle: its top-left corner and its size.
#[derive(Clone, Copy, Debug, PartialEq, Eq, Structural)]
pub struct Rect {
    pub x: i32,
    pub y: i32,
    pub w: i32,
    pub h: i32,
}

/// The camera that the scene is drawn with.
#[derive(Clone, Copy, Debug, PartialEq, Eq, Structural)]
pub struct Camera {
    pub target: Vec2,
    pub zoom: Vec2,
}

/// The direction keys that are held down.
#[derive(Clone, Copy, Debug, PartialEq, Eq, Structural)]
pub struct Input {
    pub left: bool,
    pub right: bool,
    pub up: bool,
    pub down: bool,
}

/// One step of drawing a frame.
#[derive(Clone, Copy, Debug, PartialEq, Eq, Structural)]
pub enum Command {
    /// Draw through the given camera into the off-screen target.
    SceneCamera(Camera),
    /// Fill the current target with a colour.
    Clear(Rgba),
    /// Draw a filled rectangle.
    Rectangle { rect: Rect, color: Rgba },
    /// Draw the player's sprite.
    Sprite(SpriteDraw),
    /// Draw in screen space onto the window.
    DefaultCamera,
    /// Draw with the lighting program.
    LightingMaterial,
    /// Store a value in a uniform of the lighting program.
    Uniform(UniformWrite),
    /// Draw the off-screen target over the whole window.
    SceneTexture { width: u32, height: u32 },
    /// Draw with the default program again.
    DefaultMaterial,
}

/// The state of the game.
pub struct Game {
    pub player: Player,
    pub lights: LightRegistry,
    pub camera: Camera,
    pub ground: Rect,
    pub settings: GameSettings,
    pub viewport: Viewport,
}

/// Opaque white.
pub open spec fn spec_white() -> Rgba {
    Rgba { r: UNIT, g: UNIT, b: UNIT, a: UNIT }
}

/// The opaque dark gray behind the scene.
pub open spec fn spec_dark_gray() -> Rgba {
    Rgba { r: 310_000, g: 310_000, b: 310_000, a: UNIT }
}

/// The lights that a game starts with: one warm light, and three slots that
/// are in use but dark.
pub open spec fn spec_initial_lights() -> Seq<Light> {
    seq![
        Light {
            pos_rad: Vec3 { x: 500_000, y: 250_000, z: 200_000 },
            color: Vec3 { x: 810_000, y: 770_000, z: 670_000 },
        },
        Light { pos_rad: Vec3 { x: 900_000, y: 200_000, z: 0 }, color: Vec3 { x: 0, y: 0, z: 0 } },
        Light { pos_rad: Vec3 { x: 200_000, y: 800_000, z: 0 }, color: Vec3 { x: 0, y: 0, z: 0 } },
        Light { pos_rad: Vec3 { x: 0, y: 0, z: 0 }, color: Vec3 { x: 0, y: 0, z: 0 } },
    ]
}

/// The distance covered in `delta_micros` microseconds at `speed` millionths
/// of a unit per second, rounded down.
pub open spec fn spec_step(speed: int, delta_micros: int) -> int {
    (speed * delta_micros) / 1_000_000
}

/// The movement that the held keys ask for in a frame that took
/// `delta_micros` microseconds. Opposite keys cancel; up is toward smaller
/// `y`.
pub open spec fn spec_move_intent(input: Input, settings: GameSettings, delta_micros: int) -> Vec2 {
    let sx = spec_step(settings.player_move_speed_x as int, delta_micros);
    let sy = spec_step(settings.player_move_speed_y as int, delta_micros);
    Vec2 {
        x: clamp_i32(
            (if input.right {
                sx
            } else {
                0
            }) - (if input.left {
                sx
            } else {
                0
            }),
        ) as i32,
        y: clamp_i32(
            (if input.down {
                sy
            } else {
                0
            }) - (if input.up {
                sy
            } else {
                0
            }),
        ) as i32,
    }
}

/// The commands that draw the frame of a game in the given state.
///
/// The scene pass comes first: through the scene camera the target is
/// cleared, then the ground and the player are drawn. The lighting pass
/// follows: in screen space, with the lighting program, every light slot is
/// uploaded and the scene is drawn over the whole window, after which the
/// default program is restored.
pub open spec fn spec_frame(
    player: Player,
    lights: Seq<Light>,
    camera: Camera,
    ground: Rect,
    viewport: Viewport,
) -> Seq<Command> {
    seq![
        Command::SceneCamera(camera),
        Command::Clear(spec_dark_gray()),
        Command::Rectangle { rect: ground, color: spec_white() },
        Command::Sprite(player.spec_draw()),
        Command::DefaultCamera,
        Command::Clear(spec_white()),
        Command::LightingMaterial,
    ] + spec_light_uniforms(lights, viewport).map_values(|w: UniformWrite| Command::Uniform(w))
        + seq![
        Command::SceneTexture {
            width: viewport.spec_width() as u32,
            height: viewport.spec_height() as u32,
        },
        Command::DefaultMaterial,
    ]
}

/// The distance covered in `delta_micros` microseconds at `speed`.
fn step(speed: i32, delta_micros: u32) -> (s: i64)
    ensures
        s == spec_step(speed as int, delta_micros as int),
        -0x8000_0000_0000 <= s <= 0x8000_0000_0000,
{
    proof {
        lemma_scaled_fits(speed as int, delta_micros as int);
        assert(-0x8000_0000 * 0xffff_ffff <= speed * delta_micros <= 0x8000_0000 * 0xffff_ffff)
            by (nonlinear_arith)
            requires
                -0x8000_0000 <= speed <= 0x8000_0000,
                0 <= delta_micros <= 0xffff_ffff,
        ;
    }
    floor_div(speed as i64 * delta_micros as i64, 1_000_000)
}

/// The movement that the held keys ask for in a frame that took
/// `delta_micros` microseconds.
pub fn move_intent(input: &Input, settings: &GameSettings, delta_micros: u32) -> (m: Vec2)
    ensures
        m == spec_move_intent(*input, *settings, delta_micros as int),
{
    let sx: i64 = step(settings.player_move_speed_x, delta_micros);
    let sy: i64 = step(settings.player_move_speed_y, delta_micros);
    let mut x: i64 = 0;
    let mut y: i64 = 0;
    if input.left {
        x = x - sx;
    }
    if input.right {
        x = x + sx;
    }
    if input.up {
        y = y - sy;
    }
    if input.down {
        y = y + sy;
    }
    Vec2 { x: saturate(x), y: saturate(y) }
}

impl Game {
    /// The game before its first frame: the player at rest above the ground,
    /// the camera on the origin with its vertical zoom set to the aspect
    /// ratio, the starting lights, and the default settings.
    pub fn new(viewport: Viewport) -> (g: Game)
        ensures
            g.player == (Player {
                pos: Vec2 { x: 0, y: 300_000 },
                dims: Vec2 { x: 200_000, y: 200_000 },
                offset: Vec2 { x: 500_000, y: (-500_000) as i32 },
                vel: Vec2 { x: 0, y: 0 },
                dir: Vec2 { x: UNIT, y: 0 },
            }),
            g.lights.wf(),
            g.lights.spec_len() == MAX_LIGHTS,
            g.lights@ == spec_initial_lights(),
            g.camera == (Camera {
                target: Vec2 { x: 0, y: 0 },
                zoom: Vec2 {
                    x: UNIT,
                    y: clamp_i32((viewport.spec_width() * UNIT) / viewport.spec_height()) as i32,
                },
            }),
            g.ground == (Rect { x: (-1_000_000) as i32, y: 400_000, w: 2_000_000, h: 200_000 }),
            g.settings == (GameSettings { player_move_speed_x: UNIT, player_move_speed_y: UNIT }),
            g.viewport == viewport,
    {
        let start: [Light; 4] = [
            Light {
                pos_rad: Vec3 { x: 500_000, y: 250_000, z: 200_000 },
                color: Vec3 { x: 810_000, y: 770_000, z: 670_000 },
            },
            Light {
                pos_rad: Vec3 { x: 900_000, y: 200_000, z: 0 },
                color: Vec3 { x: 0, y: 0, z: 0 },
            },
            Light {
                pos_rad: Vec3 { x: 200_000, y: 800_000, z: 0 },
                color: Vec3 { x: 0, y: 0, z: 0 },
            },
            Light { pos_rad: Vec3 { x: 0, y: 0, z: 0 }, color: Vec3 { x: 0, y: 0, z: 0 } },
        ];
        let lights: LightRegistry = match LightRegistry::with_lights(start.as_slice()) {
            Ok(r) => r,
            Err(_) => LightRegistry::new(),
        };
        assert(lights@ =~= spec_initial_lights());
        let w: u32 = viewport.width();
        let h: u32 = viewport.height();
        let ratio: i32 = saturate(floor_div(w as i64 * 1_000_000, h as i64));
        Game {
            player: Player::new(
                Vec2 { x: 0, y: 300_000 },
                Vec2 { x: 200_000, y: 200_000 },
                Vec2 { x: 500_000, y: -500_000 },
            ),
            lights,
            camera: Camera { target: Vec2 { x: 0, y: 0 }, zoom: Vec2 { x: UNIT, y: ratio } },
            ground: Rect { x: -1_000_000, y: 400_000, w: 2_000_000, h: 200_000 },
            settings: GameSettings::default(),
            viewport,
        }
    }

    /// The commands that draw the current frame, in the order in which they
    /// are to be carried out.
    pub fn frame(&self) -> (cmds: Vec<Command>)
        ensures
            cmds@ == spec_frame(self.player, self.lights@, self.camera, self.ground, self.viewport),
    {
        let white: Rgba = Rgba { r: UNIT, g: UNIT, b: UNIT, a: UNIT };
        let dark_gray: Rgba = Rgba { r: 310_000, g: 310_000, b: 310_000, a: UNIT };
        let mut cmds: Vec<Command> = Vec::new();
        cmds.push(Command::SceneCamera(self.camera));
        cmds.push(Command::Clear(dark_gray));
        cmds.push(Command::Rectangle { rect: self.ground, color: white });
        cmds.push(Command::Sprite(self.player.draw()));
        cmds.push(Command::DefaultCamera);
        cmds.push(Command::Clear(white));
        cmds.push(Command::LightingMaterial);
        let writes: Vec<UniformWrite> = light_uniforms(&self.lights, &self.viewport);
        let ghost head = cmds@;
        let mut i: usize = 0;
        while i < writes.len()
            invariant
                i <= writes@.len(),
                cmds@.len() == head.len() + i,
                cmds@.take(head.len() as int) == head,
                forall|k: int| 0 <= k < i ==> cmds@[head.len() + k] == Command::Uniform(writes@[k]),
            decreases writes@.len() - i,
        {
            cmds.push(Command::Uniform(writes[i]));
            i += 1;
        }
        let ghost mid = cmds@;
        cmds.push(
            Command::SceneTexture { width: self.viewport.width(), height: self.viewport.height() },
        );
        cmds.push(Command::DefaultMaterial);
        proof {
            let want = spec_frame(
                self.player,
                self.lights@,
                self.camera,
                self.ground,
                self.viewport,
            );
            let uploads = spec_light_uniforms(self.lights@, self.viewport).map_values(
                |w: UniformWrite| Command::Uniform(w),
            );
            assert(uploads.len() == writes@.len());
            assert(cmds@.len() == want.len());
            assert forall|k: int| 0 <= k < cmds@.len() implies cmds@[k] == want[k] by {
                if k < head.len() {
                    assert(mid[k] == mid.take(head.len() as int)[k]);
                } else if k < head.len() + writes@.len() {
                    assert(mid[head.len() + (k - head.len())] == Command::Uniform(
                        writes@[k - head.len()],
                    ));
                    assert(uploads[k - head.len()] == Command::Uniform(writes@[k - head.len()]));
                }
            }
            assert(cmds@ =~= want);
        }
        cmds
    }

    /// Applies the input of one frame: the player takes the movement that
    /// the keys ask for as its velocity and turns with it, the camera follows
    /// the horizontal part of the movement, and the player moves.
    pub fn advance(&mut self, input: &Input, delta_micros: u32)
        ensures
            final(self).player == (Player {
                pos: Vec2 {
                    x: clamp_i32(
                        old(self).player.pos.x + spec_move_intent(
                            *input,
                            old(self).settings,
                            delta_micros as int,
                        ).x,
                    ) as i32,
                    y: clamp_i32(
                        old(self).player.pos.y + spec_move_intent(
                            *input,
                            old(self).settings,
                            delta_micros as int,
                        ).y,
                    ) as i32,
                },
                vel: spec_move_intent(*input, old(self).settings, delta_micros as int),
                dir: Vec2 {
                    x: Player::spec_facing(
                        old(self).player.dir.x,
                        spec_move_intent(*input, old(self).settings, delta_micros as int),
                    ),
                    y: old(self).player.dir.y,
                },
                ..old(self).player
            }),
            final(self).camera == (Camera {
                target: Vec2 {
                    x: clamp_i32(
                        old(self).camera.target.x + spec_move_intent(
                            *input,
                            old(self).settings,
                            delta_micros as int,
                        ).x,
                    ) as i32,
                    y: old(self).camera.target.y,
                },
                ..old(self).camera
            }),
            final(self).lights == old(self).lights,
            final(self).ground == old(self).ground,
            final(self).settings == old(self).settings,
            final(self).viewport == old(self).viewport,
    {
        let m: Vec2 = move_intent(input, &self.settings, delta_micros);
        self.player.set_vel(m);
        self.camera.target.x = saturate(self.camera.target.x as i64 + m.x as i64);
        self.player.update();
    }
}

} // verus!
