//! Lighting and gameplay rules of a small 2D platformer, in fixed-point
//! arithmetic.

pub mod compositor;
pub mod fixed;
pub mod game;
pub mod light;
pub mod player;
pub mod settings;
pub mod shader;
pub mod shade;
pub mod shade_proofs;
pub mod transform;
pub mod uniforms;
