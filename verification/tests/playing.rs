use shadowgame::compositor::UniformWrite;
use shadowgame::fixed::{Vec2, Vec3, UNIT};
use shadowgame::game::{move_intent, Camera, Command, Game, Input, Rect};
use shadowgame::light::{Light, MAX_LIGHTS};
use shadowgame::player::{
    player_animations, Player, Sprite, SpriteDraw, TILE_HEIGHT, TILE_WIDTH,
};
use shadowgame::settings::{window_conf, GameSettings, ASSET_DIR};
use shadowgame::shade::Rgba;
use shadowgame::shader::{Shader, ShaderSource};
use shadowgame::transform::Viewport;

const NONE: Input = Input { left: false, right: false, up: false, down: false };
const WHITE: Rgba = Rgba { r: 1_000_000, g: 1_000_000, b: 1_000_000, a: 1_000_000 };
const DARK_GRAY: Rgba = Rgba { r: 310_000, g: 310_000, b: 310_000, a: 1_000_000 };

fn window() -> Viewport {
    Viewport::new(1024, 576).unwrap()
}

fn start() -> Player {
    Player::new(
        Vec2 { x: 0, y: 300_000 },
        Vec2 { x: 200_000, y: 200_000 },
        Vec2 { x: 500_000, y: -500_000 },
    )
}

#[test]
fn default_settings_move_one_unit_a_second() {
    let s = GameSettings::default();
    assert_eq!(s.player_move_speed_x, UNIT);
    assert_eq!(s.player_move_speed_y, UNIT);
}

#[test]
fn assets_live_in_assets() {
    assert_eq!(ASSET_DIR, "assets");
}

#[test]
fn window_is_1024_by_576() {
    let c = window_conf();
    assert_eq!(c.window_title, "Shadow Game");
    assert!(!c.fullscreen);
    assert!(!c.window_resizable);
    assert_eq!(c.window_width, 1024);
    assert_eq!(c.window_height, 576);
}

#[test]
fn shader_keeps_both_texts() {
    let s = Shader::new("void main() { v(); }", "void main() { f(); }");
    assert_eq!(s.vert, "void main() { v(); }");
    assert_eq!(s.frag, "void main() { f(); }");
    let ShaderSource::Glsl { vertex, fragment } = s.to_source();
    assert_eq!(vertex, "void main() { v(); }");
    assert_eq!(fragment, "void main() { f(); }");
    let empty = Shader::new("", "");
    let ShaderSource::Glsl { vertex, fragment } = empty.to_source();
    assert_eq!((vertex, fragment), ("", ""));
}

#[test]
fn player_has_two_animations() {
    assert_eq!((TILE_WIDTH, TILE_HEIGHT), (64, 64));
    let anims = player_animations();
    assert_eq!(anims.len(), 2);
    assert_eq!(anims[0].name, "idle");
    assert_eq!(anims[1].name, "walking");
    for a in anims.iter() {
        assert_eq!((a.row, a.frames, a.fps), (0, 3, 6));
    }
}

#[test]
fn new_player_rests_facing_right() {
    let p = start();
    assert_eq!(p.pos, Vec2 { x: 0, y: 300_000 });
    assert_eq!(p.dims, Vec2 { x: 200_000, y: 200_000 });
    assert_eq!(p.offset, Vec2 { x: 500_000, y: -500_000 });
    assert_eq!(p.vel, Vec2 { x: 0, y: 0 });
    assert_eq!(p.dir, Vec2 { x: UNIT, y: 0 });
}

#[test]
fn set_vel_turns_the_player() {
    let mut p = start();
    p.set_vel(Vec2 { x: -1, y: 0 });
    assert_eq!(p.vel, Vec2 { x: -1, y: 0 });
    assert_eq!(p.dir, Vec2 { x: -UNIT, y: 0 });
    p.set_vel(Vec2 { x: 0, y: 0 });
    assert_eq!(p.vel, Vec2 { x: 0, y: 0 });
    assert_eq!(p.dir, Vec2 { x: -UNIT, y: 0 });
    p.set_vel(Vec2 { x: 5, y: -7 });
    assert_eq!(p.dir, Vec2 { x: UNIT, y: 0 });
    p.set_vel(Vec2 { x: -5, y: 7 });
    assert_eq!(p.dir, Vec2 { x: -UNIT, y: 0 });
    // straight up or down counts as not to the left
    p.set_vel(Vec2 { x: 0, y: 3 });
    assert_eq!(p.dir, Vec2 { x: UNIT, y: 0 });
    assert_eq!(p.pos, start().pos);
    assert_eq!(p.dims, start().dims);
    assert_eq!(p.offset, start().offset);
}

#[test]
fn update_adds_the_velocity() {
    let mut p = start();
    p.set_vel(Vec2 { x: 16_000, y: -4_000 });
    p.update();
    assert_eq!(p.pos, Vec2 { x: 16_000, y: 296_000 });
    p.update();
    assert_eq!(p.pos, Vec2 { x: 32_000, y: 292_000 });
    assert_eq!(p.vel, Vec2 { x: 16_000, y: -4_000 });
}

#[test]
fn update_stops_at_the_end_of_the_range() {
    let mut p = start();
    p.pos = Vec2 { x: i32::MAX - 1, y: i32::MIN + 1 };
    p.set_vel(Vec2 { x: 5, y: -5 });
    p.update();
    assert_eq!(p.pos, Vec2 { x: i32::MAX, y: i32::MIN });
    p.set_vel(Vec2 { x: i32::MIN, y: i32::MAX });
    p.update();
    assert_eq!(p.pos, Vec2 { x: -1, y: -1 });
}

#[test]
fn draw_centers_the_sprite_by_half_its_width() {
    let p = start();
    assert_eq!(
        p.draw(),
        SpriteDraw {
            sprite: Sprite::Idle,
            x: -100_000,
            y: 200_000,
            dest_size: Vec2 { x: 200_000, y: 200_000 },
            flip_x: false,
        }
    );
    let mut tall = start();
    tall.dims = Vec2 { x: 100_001, y: 900_000 };
    // half of 100001 rounds down to 50000, and the height plays no part
    assert_eq!(
        tall.draw(),
        SpriteDraw {
            sprite: Sprite::Idle,
            x: -50_000,
            y: 250_000,
            dest_size: Vec2 { x: 100_001, y: 900_000 },
            flip_x: false,
        }
    );
    let mut odd = start();
    odd.dims = Vec2 { x: -3, y: 1 };
    assert_eq!(odd.draw().x, 2);
    assert_eq!(odd.draw().y, 300_002);
}

#[test]
fn draw_picks_the_sheet_and_the_mirror() {
    let mut p = start();
    p.set_vel(Vec2 { x: -1, y: 0 });
    assert_eq!(p.draw().sprite, Sprite::Walking);
    assert!(p.draw().flip_x);
    p.set_vel(Vec2 { x: 0, y: 0 });
    assert_eq!(p.draw().sprite, Sprite::Idle);
    assert!(p.draw().flip_x);
    p.set_vel(Vec2 { x: 0, y: 1 });
    assert_eq!(p.draw().sprite, Sprite::Walking);
    assert!(!p.draw().flip_x);
}

#[test]
fn draw_saturates() {
    let mut p = start();
    p.pos = Vec2 { x: i32::MIN, y: i32::MAX };
    p.dims = Vec2 { x: i32::MIN, y: 0 };
    assert_eq!(p.draw().x, -1_073_741_824);
    assert_eq!(p.draw().y, i32::MAX);
    p.dims = Vec2 { x: i32::MAX, y: 0 };
    assert_eq!(p.draw().x, i32::MIN);
    assert_eq!(p.draw().y, 1_073_741_824);
}

#[test]
fn move_intent_follows_the_keys() {
    let s = GameSettings::default();
    assert_eq!(move_intent(&NONE, &s, 16_000), Vec2 { x: 0, y: 0 });
    assert_eq!(move_intent(&Input { right: true, ..NONE }, &s, 16_000), Vec2 { x: 16_000, y: 0 });
    assert_eq!(move_intent(&Input { left: true, ..NONE }, &s, 16_000), Vec2 { x: -16_000, y: 0 });
    assert_eq!(move_intent(&Input { up: true, ..NONE }, &s, 16_000), Vec2 { x: 0, y: -16_000 });
    assert_eq!(move_intent(&Input { down: true, ..NONE }, &s, 16_000), Vec2 { x: 0, y: 16_000 });
    let both = Input { left: true, right: true, up: true, down: true };
    assert_eq!(move_intent(&both, &s, 16_000), Vec2 { x: 0, y: 0 });
    let diagonal = Input { left: true, down: true, ..NONE };
    assert_eq!(move_intent(&diagonal, &s, 1_000_000), Vec2 { x: -UNIT, y: UNIT });
    assert_eq!(move_intent(&diagonal, &s, 0), Vec2 { x: 0, y: 0 });
}

#[test]
fn move_intent_scales_with_speed_and_rounds_down() {
    let s = GameSettings { player_move_speed_x: 2_500_000, player_move_speed_y: 3 };
    let all = Input { right: true, down: true, ..NONE };
    assert_eq!(move_intent(&all, &s, 16_000), Vec2 { x: 40_000, y: 0 });
    // 3 * 400000 / 1000000 = 1.2
    assert_eq!(move_intent(&all, &s, 400_000), Vec2 { x: 1_000_000, y: 1 });
    let back = Input { left: true, up: true, ..NONE };
    assert_eq!(move_intent(&back, &s, 400_000), Vec2 { x: -1_000_000, y: -1 });
    let reverse = GameSettings { player_move_speed_x: -3, player_move_speed_y: -3 };
    // -3 * 400000 / 1000000 = -1.2 rounds down to -2
    assert_eq!(move_intent(&all, &reverse, 400_000), Vec2 { x: -2, y: -2 });
    assert_eq!(move_intent(&back, &reverse, 400_000), Vec2 { x: 2, y: 2 });
}

#[test]
fn move_intent_saturates() {
    let s = GameSettings { player_move_speed_x: i32::MAX, player_move_speed_y: i32::MIN };
    let all = Input { right: true, down: true, ..NONE };
    assert_eq!(move_intent(&all, &s, u32::MAX), Vec2 { x: i32::MAX, y: i32::MIN });
    let back = Input { left: true, up: true, ..NONE };
    assert_eq!(move_intent(&back, &s, u32::MAX), Vec2 { x: i32::MIN, y: i32::MAX });
}

#[test]
fn new_game_holds_the_starting_scene() {
    let g = Game::new(window());
    assert_eq!(g.player, start());
    assert_eq!(g.camera, Camera { target: Vec2 { x: 0, y: 0 }, zoom: Vec2 { x: UNIT, y: 1_777_777 } });
    assert_eq!(g.ground, Rect { x: -1_000_000, y: 400_000, w: 2_000_000, h: 200_000 });
    assert_eq!(g.settings, GameSettings::default());
    assert_eq!(g.viewport.width(), 1024);
    assert_eq!(g.viewport.height(), 576);
    assert_eq!(g.lights.len(), MAX_LIGHTS);
    let zero = Vec3 { x: 0, y: 0, z: 0 };
    assert_eq!(
        g.lights.slots(),
        &[
            Light {
                pos_rad: Vec3 { x: 500_000, y: 250_000, z: 200_000 },
                color: Vec3 { x: 810_000, y: 770_000, z: 670_000 },
            },
            Light { pos_rad: Vec3 { x: 900_000, y: 200_000, z: 0 }, color: zero },
            Light { pos_rad: Vec3 { x: 200_000, y: 800_000, z: 0 }, color: zero },
            Light { pos_rad: zero, color: zero },
        ][..]
    );
}

#[test]
fn frame_draws_the_scene_then_lights_it() {
    let g = Game::new(window());
    let zero = Vec3 { x: 0, y: 0, z: 0 };
    assert_eq!(
        g.frame(),
        vec![
            Command::SceneCamera(Camera {
                target: Vec2 { x: 0, y: 0 },
                zoom: Vec2 { x: UNIT, y: 1_777_777 },
            }),
            Command::Clear(DARK_GRAY),
            Command::Rectangle {
                rect: Rect { x: -1_000_000, y: 400_000, w: 2_000_000, h: 200_000 },
                color: WHITE,
            },
            Command::Sprite(SpriteDraw {
                sprite: Sprite::Idle,
                x: -100_000,
                y: 200_000,
                dest_size: Vec2 { x: 200_000, y: 200_000 },
                flip_x: false,
            }),
            Command::DefaultCamera,
            Command::Clear(WHITE),
            Command::LightingMaterial,
            Command::Uniform(UniformWrite {
                slot: 2,
                value: Vec3 { x: 500_000, y: 140_625, z: 200_000 },
            }),
            Command::Uniform(UniformWrite {
                slot: 3,
                value: Vec3 { x: 810_000, y: 770_000, z: 670_000 },
            }),
            Command::Uniform(UniformWrite {
                slot: 4,
                value: Vec3 { x: 900_000, y: 112_500, z: 0 },
            }),
            Command::Uniform(UniformWrite { slot: 5, value: zero }),
            Command::Uniform(UniformWrite {
                slot: 6,
                value: Vec3 { x: 200_000, y: 450_000, z: 0 },
            }),
            Command::Uniform(UniformWrite { slot: 7, value: zero }),
            Command::Uniform(UniformWrite { slot: 8, value: zero }),
            Command::Uniform(UniformWrite { slot: 9, value: zero }),
            Command::SceneTexture { width: 1024, height: 576 },
            Command::DefaultMaterial,
        ]
    );
}

#[test]
fn frame_follows_the_state() {
    let mut g = Game::new(Viewport::new(800, 800).unwrap());
    g.advance(&Input { left: true, ..NONE }, 50_000);
    let cmds = g.frame();
    assert_eq!(cmds.len(), 17);
    assert_eq!(
        cmds[0],
        Command::SceneCamera(Camera {
            target: Vec2 { x: -50_000, y: 0 },
            zoom: Vec2 { x: UNIT, y: UNIT },
        })
    );
    assert_eq!(
        cmds[3],
        Command::Sprite(SpriteDraw {
            sprite: Sprite::Walking,
            x: -150_000,
            y: 200_000,
            dest_size: Vec2 { x: 200_000, y: 200_000 },
            flip_x: true,
        })
    );
    assert_eq!(
        cmds[7],
        Command::Uniform(UniformWrite {
            slot: 2,
            value: Vec3 { x: 500_000, y: 250_000, z: 200_000 },
        })
    );
    assert_eq!(cmds[15], Command::SceneTexture { width: 800, height: 800 });
}

#[test]
fn advance_moves_player_and_camera() {
    let mut g = Game::new(window());
    g.advance(&Input { right: true, ..NONE }, 16_000);
    assert_eq!(g.player.pos, Vec2 { x: 16_000, y: 300_000 });
    assert_eq!(g.player.vel, Vec2 { x: 16_000, y: 0 });
    assert_eq!(g.player.dir, Vec2 { x: UNIT, y: 0 });
    assert_eq!(g.camera.target, Vec2 { x: 16_000, y: 0 });
    g.advance(&Input { left: true, ..NONE }, 20_000);
    assert_eq!(g.player.pos, Vec2 { x: -4_000, y: 300_000 });
    assert_eq!(g.player.vel, Vec2 { x: -20_000, y: 0 });
    assert_eq!(g.player.dir, Vec2 { x: -UNIT, y: 0 });
    assert_eq!(g.camera.target, Vec2 { x: -4_000, y: 0 });
    g.advance(&NONE, 20_000);
    assert_eq!(g.player.pos, Vec2 { x: -4_000, y: 300_000 });
    assert_eq!(g.player.vel, Vec2 { x: 0, y: 0 });
    assert_eq!(g.player.dir, Vec2 { x: -UNIT, y: 0 });
    assert_eq!(g.camera.target, Vec2 { x: -4_000, y: 0 });
}

#[test]
fn advance_moves_the_camera_sideways_only() {
    let mut g = Game::new(window());
    g.advance(&Input { down: true, right: true, ..NONE }, 10_000);
    assert_eq!(g.player.pos, Vec2 { x: 10_000, y: 310_000 });
    assert_eq!(g.camera.target, Vec2 { x: 10_000, y: 0 });
    g.advance(&Input { up: true, ..NONE }, 30_000);
    assert_eq!(g.player.pos, Vec2 { x: 10_000, y: 280_000 });
    assert_eq!(g.camera.target, Vec2 { x: 10_000, y: 0 });
    assert_eq!(g.camera.zoom, Vec2 { x: UNIT, y: 1_777_777 });
}

#[test]
fn advance_leaves_the_rest_alone() {
    let mut g = Game::new(window());
    let lights: Vec<Light> = g.lights.slots().to_vec();
    g.settings.player_move_speed_x = 2 * UNIT;
    g.advance(&Input { right: true, ..NONE }, 16_000);
    assert_eq!(g.player.pos.x, 32_000);
    assert_eq!(g.lights.slots(), &lights[..]);
    assert_eq!(g.ground, Rect { x: -1_000_000, y: 400_000, w: 2_000_000, h: 200_000 });
    assert_eq!(g.settings.player_move_speed_x, 2 * UNIT);
    assert_eq!(g.viewport.width(), 1024);
}
