//! From screen and world coordinates to the space in which the fragment
//! program measures distances.
//!
//! The scene is drawn with a camera that stretches the vertical axis by the
//! aspect ratio of the viewport. Dividing the vertical coordinate of a light,
//! and of a fragment, by that ratio undoes the stretch, so that the radius of
//! a light describes a circle on screen. The ratio is kept as the pair of
//! pixel counts it is made of, so that dividing by it is one exact
//! multiplication and one rounded division.

use crate::fixed::{clamp_i32, floor_div, saturate, Vec2, Vec3, UNIT};
use vstd::arithmetic::div_mod::{
    lemma_div_is_ordered, lemma_div_multiples_vanish, lemma_fundamental_div_mod, lemma_mod_bound,
};
use vstd::prelude::*;

verus! {

/// The size of the window in pixels; neither side is zero.
#[derive(Clone, Copy, Debug)]
pub struct Viewport {
    width: u32,
    height: u32,
}

impl Viewport {
    /// The width in pixels.
    pub closed spec fn spec_width(self) -> int {
        self.width as int
    }

    /// The height in pixels.
    pub closed spec fn spec_height(self) -> int {
        self.height as int
    }

    /// Both sides are positive.
    #[verifier::type_invariant]
    pub open spec fn wf(self) -> bool {
        0 < self.spec_width() <= u32::MAX && 0 < self.spec_height() <= u32::MAX
    }

    /// A viewport of the given size, or `None` when a side is zero.
    pub fn new(width: u32, height: u32) -> (res: Option<Viewport>)
        ensures
            (width > 0 && height > 0) <==> res is Some,
            res matches Some(v) ==> v.wf() && v.spec_width() == width && v.spec_height() == height,
    {
        if width > 0 && height > 0 {
            Some(Viewport { width, height })
        } else {
            None
        }
    }

    /// The width in pixels.
    pub fn width(&self) -> (w: u32)
        ensures
            w == self.spec_width(),
            w > 0,
    {
        proof {
            use_type_invariant(self);
        }
        self.width
    }

    /// The height in pixels.
    pub fn height(&self) -> (h: u32)
        ensures
            h == self.spec_height(),
            h > 0,
    {
        proof {
            use_type_invariant(self);
        }
        self.height
    }
}

/// `y` divided by the aspect ratio `width / height`, rounded down and kept
/// within `i32`.
pub open spec fn spec_shrink(y: int, v: Viewport) -> int {
    clamp_i32((y * v.spec_height()) / v.spec_width())
}

/// `y` multiplied by the aspect ratio `width / height`, rounded down and kept
/// within `i32`.
pub open spec fn spec_stretch(y: int, v: Viewport) -> int {
    clamp_i32((y * v.spec_width()) / v.spec_height())
}

/// The product of an `i32` and a `u32` fits an `i64`.
pub proof fn lemma_scaled_fits(y: int, side: int)
    requires
        i32::MIN <= y <= i32::MAX,
        0 <= side <= u32::MAX,
    ensures
        i64::MIN <= y * side <= i64::MAX,
{
    assert(-0x8000_0000 * 0xffff_ffff <= y * side <= 0x8000_0000 * 0xffff_ffff)
        by (nonlinear_arith)
        requires
            -0x8000_0000 <= y <= 0x8000_0000,
            0 <= side <= 0xffff_ffff,
    ;
}

/// `y` divided by the aspect ratio of the viewport.
pub fn shrink(y: i32, viewport: &Viewport) -> (r: i32)
    ensures
        r == spec_shrink(y as int, *viewport),
{
    let w: u32 = viewport.width();
    let h: u32 = viewport.height();
    proof {
        lemma_scaled_fits(y as int, h as int);
    }
    saturate(floor_div(y as i64 * h as i64, w as i64))
}

/// `y` multiplied by the aspect ratio of the viewport.
pub fn stretch(y: i32, viewport: &Viewport) -> (r: i32)
    ensures
        r == spec_stretch(y as int, *viewport),
{
    let w: u32 = viewport.width();
    let h: u32 = viewport.height();
    proof {
        lemma_scaled_fits(y as int, w as int);
    }
    saturate(floor_div(y as i64 * w as i64, h as i64))
}

/// The position-and-radius triple `v` as the fragment program expects it.
pub open spec fn spec_transform_shader_pos(v: Vec3, viewport: Viewport) -> Vec3 {
    Vec3 { x: v.x, y: spec_shrink(v.y as int, viewport) as i32, z: v.z }
}

/// The triple that `spec_transform_shader_pos` maps to `v`, up to rounding.
pub open spec fn spec_restore_shader_pos(v: Vec3, viewport: Viewport) -> Vec3 {
    Vec3 { x: v.x, y: spec_stretch(v.y as int, viewport) as i32, z: v.z }
}

/// Moves a light from screen space to shader space: the vertical coordinate
/// is divided by the aspect ratio, the horizontal one and the radius stay.
pub fn transform_shader_pos(v: &Vec3, viewport: &Viewport) -> (r: Vec3)
    ensures
        r == spec_transform_shader_pos(*v, *viewport),
        r.x == v.x,
        r.y == spec_shrink(v.y as int, *viewport),
        r.z == v.z,
{
    Vec3 { x: v.x, y: shrink(v.y, viewport), z: v.z }
}

/// Moves a light from shader space back to screen space: the vertical
/// coordinate is multiplied by the aspect ratio.
pub fn restore_shader_pos(v: &Vec3, viewport: &Viewport) -> (r: Vec3)
    ensures
        r == spec_restore_shader_pos(*v, *viewport),
        r.x == v.x,
        r.y == spec_stretch(v.y as int, *viewport),
        r.z == v.z,
{
    Vec3 { x: v.x, y: stretch(v.y, viewport), z: v.z }
}

/// The pixel `(px, py)` as fractions of the viewport's sides.
pub open spec fn spec_normalize(px: int, py: int, viewport: Viewport) -> Vec2 {
    Vec2 {
        x: clamp_i32((px * UNIT) / viewport.spec_width()) as i32,
        y: clamp_i32((py * UNIT) / viewport.spec_height()) as i32,
    }
}

/// The shader-space position of the screen position `n`, which is given in
/// fractions of the viewport's sides.
pub open spec fn spec_shader_position(n: Vec2, viewport: Viewport) -> Vec2 {
    Vec2 { x: n.x, y: spec_shrink(n.y as int, viewport) as i32 }
}

/// The pixel `(px, py)` as fractions of the viewport's sides: each coordinate
/// divided by the side it runs along.
pub fn normalize(px: u32, py: u32, viewport: &Viewport) -> (n: Vec2)
    ensures
        n == spec_normalize(px as int, py as int, *viewport),
{
    let w: u32 = viewport.width();
    let h: u32 = viewport.height();
    Vec2 {
        x: saturate(floor_div(px as i64 * 1_000_000, w as i64)),
        y: saturate(floor_div(py as i64 * 1_000_000, h as i64)),
    }
}

/// The shader-space position of the screen position `n`: the vertical
/// fraction is multiplied by `height / width`.
pub fn shader_position(n: Vec2, viewport: &Viewport) -> (p: Vec2)
    ensures
        p == spec_shader_position(n, *viewport),
{
    Vec2 { x: n.x, y: shrink(n.y, viewport) }
}

/// Dividing a vertical coordinate by the aspect ratio and multiplying the
/// result by it again gives the coordinate back, short by a rounding error of
/// at most `width / height + 1` millionths, provided that the division did
/// not run into the end of the `i32` range.
pub proof fn shrink_then_stretch_recovers(y: int, v: Viewport)
    requires
        v.wf(),
        i32::MIN <= y <= i32::MAX,
        i32::MIN <= (y * v.spec_height()) / v.spec_width() <= i32::MAX,
    ensures
        0 <= y - spec_stretch(spec_shrink(y, v), v) <= v.spec_width() / v.spec_height() + 1,
{
    let w = v.spec_width();
    let h = v.spec_height();
    let t = (y * h) / w;
    let rem = (y * h) % w;
    let slack = w / h + 1;
    lemma_fundamental_div_mod(y * h, w);
    lemma_mod_bound(y * h, w);
    lemma_fundamental_div_mod(w, h);
    lemma_mod_bound(w, h);
    assert(t * w == y * h - rem) by (nonlinear_arith)
        requires
            y * h == w * t + rem,
    ;
    assert(h * slack > rem) by (nonlinear_arith)
        requires
            w == h * (w / h) + w % h,
            0 <= w % h < h,
            slack == w / h + 1,
            rem < w,
    ;
    assert(h * (y - slack) <= t * w) by (nonlinear_arith)
        requires
            t * w == y * h - rem,
            h * slack > rem,
    ;
    assert(t * w <= h * y) by (nonlinear_arith)
        requires
            t * w == y * h - rem,
            0 <= rem,
    ;
    lemma_div_multiples_vanish(y - slack, h);
    lemma_div_multiples_vanish(y, h);
    lemma_div_is_ordered(h * (y - slack), t * w, h);
    lemma_div_is_ordered(t * w, h * y, h);
}

/// Moving a light to shader space and back recovers it: the horizontal
/// coordinate and the radius exactly, the vertical coordinate short by at
/// most `width / height + 1` millionths, provided that the way there did not
/// run into the end of the `i32` range.
pub proof fn transform_then_restore_recovers(p: Vec3, v: Viewport)
    requires
        v.wf(),
        i32::MIN <= (p.y * v.spec_height()) / v.spec_width() <= i32::MAX,
    ensures
        spec_restore_shader_pos(spec_transform_shader_pos(p, v), v).x == p.x,
        spec_restore_shader_pos(spec_transform_shader_pos(p, v), v).z == p.z,
        0 <= p.y - spec_restore_shader_pos(spec_transform_shader_pos(p, v), v).y
            <= v.spec_width() / v.spec_height() + 1,
{
    shrink_then_stretch_recovers(p.y as int, v);
}

} // verus!
