//! The lighting rule that the compositing pass applies to every fragment.
//!
//! A fragment is a position in shader space together with the colour that the
//! unlit scene has there. Each light whose circle contains the position
//! contributes with a strength that falls off linearly from the centre to the
//! rim. The first such light multiplies the scene colour; every later one
//! pulls the result toward its own colour. A fragment that no light reaches
//! is black.

use crate::fixed::{abs_diff, floor_div, floor_sqrt, is_floor_sqrt, isqrt, Vec2, UNIT};
use crate::light::Light;
use vstd::arithmetic::div_mod::{lemma_div_by_multiple, lemma_div_is_ordered};
use vstd::prelude::*;

verus! {

/// A colour sampled from the unlit scene, eight bits to the channel; 255
/// stands for one.
#[derive(Clone, Copy, Debug, PartialEq, Eq, Structural)]
pub struct Rgb8 {
    pub r: u8,
    pub g: u8,
    pub b: u8,
}

/// The colour written for a fragment, in millionths; `a` is the opacity.
#[derive(Clone, Copy, Debug, PartialEq, Eq, Structural)]
pub struct Rgba {
    pub r: i32,
    pub g: i32,
    pub b: i32,
    pub a: i32,
}

/// A fragment colour as four mathematical integers, in millionths.
pub struct Pixel {
    pub r: int,
    pub g: int,
    pub b: int,
    pub a: int,
}

impl View for Rgba {
    type V = Pixel;

    open spec fn view(&self) -> Pixel {
        Pixel { r: self.r as int, g: self.g as int, b: self.b as int, a: self.a as int }
    }
}

/// What the lights seen so far have made of a fragment.
pub struct Lit {
    /// Whether any light has reached the fragment.
    pub hit: bool,
    pub r: int,
    pub g: int,
    pub b: int,
}

/// Square of the distance between the position `p` and the centre of `l`.
pub open spec fn dist_sq(p: Vec2, l: Light) -> int {
    (p.x - l.pos_rad.x) * (p.x - l.pos_rad.x) + (p.y - l.pos_rad.y) * (p.y - l.pos_rad.y)
}

/// The light reaches `p`: its radius is positive and `p` lies within that
/// distance of its centre, the rim included.
pub open spec fn light_hits(p: Vec2, l: Light) -> bool {
    l.pos_rad.z > 0 && dist_sq(p, l) <= l.pos_rad.z * l.pos_rad.z
}

/// Strength of the light at `p`: `(radius - distance) / radius` where the
/// light reaches `p`, zero elsewhere. The distance is rounded down to a whole
/// millionth, and so is the quotient.
pub open spec fn light_intensity(p: Vec2, l: Light) -> int {
    if light_hits(p, l) {
        (l.pos_rad.z - floor_sqrt(dist_sq(p, l))) * UNIT / (l.pos_rad.z as int)
    } else {
        0
    }
}

/// One channel of `base * light * intensity`, rounded down.
pub open spec fn lit_channel(base: int, light: int, t: int) -> int {
    (base * light * t) / 255_000_000
}

/// One channel of the blend from `cur` toward `light` by `t`, rounded down.
pub open spec fn mix_channel(cur: int, light: int, t: int) -> int {
    cur + ((light - cur) * t) / 1_000_000
}

/// The state before any light is looked at.
pub open spec fn unlit() -> Lit {
    Lit { hit: false, r: 0, g: 0, b: 0 }
}

/// The effect of one light on the state `acc` of the fragment at `p` whose
/// scene colour is `base`.
pub open spec fn apply_light(acc: Lit, base: Rgb8, p: Vec2, l: Light) -> Lit {
    let t = light_intensity(p, l);
    if !light_hits(p, l) {
        acc
    } else if !acc.hit {
        Lit {
            hit: true,
            r: lit_channel(base.r as int, l.color.x as int, t),
            g: lit_channel(base.g as int, l.color.y as int, t),
            b: lit_channel(base.b as int, l.color.z as int, t),
        }
    } else {
        Lit {
            hit: true,
            r: mix_channel(acc.r, l.color.x as int, t),
            g: mix_channel(acc.g, l.color.y as int, t),
            b: mix_channel(acc.b, l.color.z as int, t),
        }
    }
}

/// The lights applied one after another, in the order of the list.
pub open spec fn accumulate(base: Rgb8, p: Vec2, lights: Seq<Light>) -> Lit
    decreases lights.len(),
{
    if lights.len() == 0 {
        unlit()
    } else {
        apply_light(accumulate(base, p, lights.drop_last()), base, p, lights.last())
    }
}

/// The colour of the fragment at `p`: what the lights accumulate where one of
/// them reaches it, black elsewhere; opaque in both cases.
pub open spec fn shade(base: Rgb8, p: Vec2, lights: Seq<Light>) -> Pixel {
    let acc = accumulate(base, p, lights);
    if acc.hit {
        Pixel { r: acc.r, g: acc.g, b: acc.b, a: UNIT as int }
    } else {
        Pixel { r: 0, g: 0, b: 0, a: UNIT as int }
    }
}

/// Every channel of the state fits an `i32`.
pub open spec fn lit_in_range(acc: Lit) -> bool {
    &&& i32::MIN <= acc.r <= i32::MAX
    &&& i32::MIN <= acc.g <= i32::MAX
    &&& i32::MIN <= acc.b <= i32::MAX
}

/// Where a light reaches a fragment its strength lies between zero and one.
pub proof fn lemma_intensity_range(p: Vec2, l: Light)
    ensures
        0 <= light_intensity(p, l) <= UNIT,
{
    if light_hits(p, l) {
        let r = l.pos_rad.z as int;
        let n = dist_sq(p, l);
        assert(0 <= n) by (nonlinear_arith)
            requires
                n == (p.x - l.pos_rad.x) * (p.x - l.pos_rad.x) + (p.y - l.pos_rad.y) * (p.y
                    - l.pos_rad.y),
        ;
        let d = floor_sqrt(n);
        lemma_root_within_radius(n, r);
        lemma_falloff_range(d, r);
    }
}

/// The rounded-down root of a number that is at most `r * r` is at most `r`.
pub proof fn lemma_root_within_radius(n: int, r: int)
    requires
        0 <= n <= r * r,
        0 < r,
    ensures
        0 <= floor_sqrt(n) <= r,
        is_floor_sqrt(n, floor_sqrt(n)),
{
    lemma_root_exists(n, r);
    let d = floor_sqrt(n);
    if d > r {
        assert(d * d >= (r + 1) * (r + 1)) by (nonlinear_arith)
            requires
                d >= r + 1,
                r > 0,
        ;
        assert((r + 1) * (r + 1) > r * r) by (nonlinear_arith)
            requires
                r > 0,
        ;
    }
}

/// A number between zero and `bound * bound` has a rounded-down root.
proof fn lemma_root_exists(n: int, bound: int)
    requires
        0 <= n <= bound * bound,
        0 <= bound,
    ensures
        is_floor_sqrt(n, floor_sqrt(n)),
    decreases bound,
{
    if n == bound * bound {
        assert(bound * bound < (bound + 1) * (bound + 1)) by (nonlinear_arith)
            requires
                0 <= bound,
        ;
        assert(is_floor_sqrt(n, bound));
    } else {
        assert(bound > 0) by (nonlinear_arith)
            requires
                0 <= n < bound * bound,
                0 <= bound,
        ;
        if (bound - 1) * (bound - 1) <= n {
            assert(((bound - 1) + 1) * ((bound - 1) + 1) == bound * bound);
            assert(is_floor_sqrt(n, bound - 1));
        } else {
            lemma_root_exists(n, bound - 1);
        }
    }
}

/// `(r - d) / r` lies between zero and one when `d` lies between zero and `r`.
pub proof fn lemma_falloff_range(d: int, r: int)
    requires
        0 <= d <= r,
        0 < r,
    ensures
        0 <= (r - d) * UNIT / r <= UNIT,
        d == 0 ==> (r - d) * UNIT / r == UNIT,
        d == r ==> (r - d) * UNIT / r == 0,
{
    let u = UNIT as int;
    assert(0 <= (r - d) * u <= u * r) by (nonlinear_arith)
        requires
            0 <= d <= r,
            u == 1_000_000,
    ;
    lemma_div_by_multiple(u, r);
    lemma_div_is_ordered((r - d) * u, u * r, r);
    lemma_div_is_ordered(0, (r - d) * u, r);
    if d == 0 {
        assert((r - d) * u == u * r) by (nonlinear_arith)
            requires
                d == 0,
        ;
    }
    if d == r {
        assert((r - d) * u == 0) by (nonlinear_arith)
            requires
                d == r,
        ;
    }
}

/// A lit channel lies between zero and the light's channel.
pub proof fn lemma_lit_channel_range(base: int, light: int, t: int)
    requires
        0 <= base <= 255,
        0 <= t <= 1_000_000,
    ensures
        light >= 0 ==> 0 <= lit_channel(base, light, t) <= light,
        light <= 0 ==> light <= lit_channel(base, light, t) <= 0,
{
    let x = base * light * t;
    if light >= 0 {
        assert(0 <= x <= light * 255_000_000) by (nonlinear_arith)
            requires
                x == base * light * t,
                0 <= base <= 255,
                0 <= t <= 1_000_000,
                0 <= light,
        ;
    }
    if light <= 0 {
        assert(light * 255_000_000 <= x <= 0) by (nonlinear_arith)
            requires
                x == base * light * t,
                0 <= base <= 255,
                0 <= t <= 1_000_000,
                light <= 0,
        ;
    }
}

/// A blended channel lies between the channel it starts from and the light's.
pub proof fn lemma_mix_channel_range(cur: int, light: int, t: int)
    requires
        0 <= t <= 1_000_000,
    ensures
        cur <= light ==> cur <= mix_channel(cur, light, t) <= light,
        light <= cur ==> light <= mix_channel(cur, light, t) <= cur,
        t == 1_000_000 ==> mix_channel(cur, light, t) == light,
        t == 0 ==> mix_channel(cur, light, t) == cur,
{
    let x = (light - cur) * t;
    if cur <= light {
        assert(0 <= x <= (light - cur) * 1_000_000) by (nonlinear_arith)
            requires
                x == (light - cur) * t,
                0 <= t <= 1_000_000,
                cur <= light,
        ;
    }
    if light <= cur {
        assert((light - cur) * 1_000_000 <= x <= 0) by (nonlinear_arith)
            requires
                x == (light - cur) * t,
                0 <= t <= 1_000_000,
                light <= cur,
        ;
    }
    if t == 1_000_000 {
        assert(x == (light - cur) * 1_000_000);
    }
    if t == 0 {
        assert(x == 0) by (nonlinear_arith)
            requires
                x == (light - cur) * t,
                t == 0,
        ;
    }
}

/// Applying a light keeps every channel within `i32`.
pub proof fn lemma_apply_light_in_range(acc: Lit, base: Rgb8, p: Vec2, l: Light)
    requires
        lit_in_range(acc),
    ensures
        lit_in_range(apply_light(acc, base, p, l)),
{
    lemma_intensity_range(p, l);
    let t = light_intensity(p, l);
    lemma_lit_channel_range(base.r as int, l.color.x as int, t);
    lemma_lit_channel_range(base.g as int, l.color.y as int, t);
    lemma_lit_channel_range(base.b as int, l.color.z as int, t);
    lemma_mix_channel_range(acc.r, l.color.x as int, t);
    lemma_mix_channel_range(acc.g, l.color.y as int, t);
    lemma_mix_channel_range(acc.b, l.color.z as int, t);
}

/// Strength of the light `l` at `p`, or `None` where the light does not reach
/// `p`.
pub fn hit_intensity(p: Vec2, l: &Light) -> (res: Option<i32>)
    ensures
        light_hits(p, *l) <==> res is Some,
        res matches Some(t) ==> t == light_intensity(p, *l),
{
    let radius: i32 = l.pos_rad.z;
    if radius <= 0 {
        return None;
    }
    let dx: u64 = abs_diff(p.x, l.pos_rad.x);
    let dy: u64 = abs_diff(p.y, l.pos_rad.y);
    let r: u64 = radius as u64;
    proof {
        assert(dx * dx == (p.x - l.pos_rad.x) * (p.x - l.pos_rad.x)) by (nonlinear_arith)
            requires
                dx == p.x - l.pos_rad.x || dx == l.pos_rad.x - p.x,
        ;
        assert(dy * dy == (p.y - l.pos_rad.y) * (p.y - l.pos_rad.y)) by (nonlinear_arith)
            requires
                dy == p.y - l.pos_rad.y || dy == l.pos_rad.y - p.y,
        ;
        assert(dx * dx <= 0xffff_ffffint * 0xffff_ffffint) by (nonlinear_arith)
            requires
                0 <= dx <= 0xffff_ffff,
        ;
        assert(dy * dy <= 0xffff_ffffint * 0xffff_ffffint) by (nonlinear_arith)
            requires
                0 <= dy <= 0xffff_ffff,
        ;
        assert(r * r <= 0x7fff_ffffint * 0x7fff_ffffint) by (nonlinear_arith)
            requires
                0 <= r <= 0x7fff_ffff,
        ;
        assert(0xffff_ffffint * 0xffff_ffffint < 0x1_0000_0000_0000_0000int) by (nonlinear_arith);
        assert(0x7fff_ffffint * 0x7fff_ffffint < 0x4000_0000_0000_0000int) by (nonlinear_arith);
    }
    let n: u128 = (dx * dx) as u128 + (dy * dy) as u128;
    let rr: u64 = r * r;
    if n > rr as u128 {
        return None;
    }
    let d: u64 = isqrt(n as u64);
    proof {
        lemma_root_within_radius(n as int, r as int);
        lemma_falloff_range(d as int, r as int);
        assert((r - d) * 1_000_000 <= r * 1_000_000) by (nonlinear_arith)
            requires
                0 <= d <= r,
        ;
    }
    let t: u64 = (r - d) * 1_000_000 / r;
    Some(t as i32)
}

/// The effect of one light on a fragment: `acc` is the colour so far, or
/// `None` while no light has reached the fragment.
///
/// A light that does not reach the fragment hands `acc` back. One that does
/// gives an opaque colour: the scene colour multiplied by the light where
/// `acc` is `None`, else the colour of `acc` blended toward the light's.
pub fn apply(acc: Option<Rgba>, base: Rgb8, p: Vec2, l: &Light) -> (res: Option<Rgba>)
    ensures
        spec_state(res) == apply_light(spec_state(acc), base, p, *l),
        !light_hits(p, *l) ==> res == acc,
        light_hits(p, *l) ==> (res matches Some(c) && c.a == UNIT),
{
    let t: i64 = match hit_intensity(p, l) {
        None => {
            return acc;
        },
        Some(t) => t as i64,
    };
    proof {
        lemma_intensity_range(p, *l);
        lemma_apply_light_in_range(spec_state(acc), base, p, *l);
    }
    match acc {
        None => {
            proof {
                lemma_channel_product_fits(base.r as int, l.color.x as int, t as int);
                lemma_channel_product_fits(base.g as int, l.color.y as int, t as int);
                lemma_channel_product_fits(base.b as int, l.color.z as int, t as int);
            }
            let r: i64 = floor_div(base.r as i64 * l.color.x as i64 * t, 255_000_000);
            let g: i64 = floor_div(base.g as i64 * l.color.y as i64 * t, 255_000_000);
            let b: i64 = floor_div(base.b as i64 * l.color.z as i64 * t, 255_000_000);
            Some(Rgba { r: r as i32, g: g as i32, b: b as i32, a: UNIT })
        },
        Some(c) => {
            proof {
                lemma_blend_product_fits(c.r as int, l.color.x as int, t as int);
                lemma_blend_product_fits(c.g as int, l.color.y as int, t as int);
                lemma_blend_product_fits(c.b as int, l.color.z as int, t as int);
            }
            let r: i64 = c.r as i64 + floor_div((l.color.x as i64 - c.r as i64) * t, 1_000_000);
            let g: i64 = c.g as i64 + floor_div((l.color.y as i64 - c.g as i64) * t, 1_000_000);
            let b: i64 = c.b as i64 + floor_div((l.color.z as i64 - c.b as i64) * t, 1_000_000);
            Some(Rgba { r: r as i32, g: g as i32, b: b as i32, a: UNIT })
        },
    }
}

/// The state that an optional colour stands for.
pub open spec fn spec_state(acc: Option<Rgba>) -> Lit {
    match acc {
        None => unlit(),
        Some(c) => Lit { hit: true, r: c.r as int, g: c.g as int, b: c.b as int },
    }
}

/// The product behind a lit channel fits an `i64`.
proof fn lemma_channel_product_fits(base: int, light: int, t: int)
    requires
        0 <= base <= 255,
        i32::MIN <= light <= i32::MAX,
        0 <= t <= 1_000_000,
    ensures
        i64::MIN <= base * light <= i64::MAX,
        i64::MIN <= base * light * t <= i64::MAX,
{
    assert(-255 * 0x8000_0000 <= base * light <= 255 * 0x8000_0000) by (nonlinear_arith)
        requires
            0 <= base <= 255,
            -0x8000_0000 <= light <= 0x8000_0000,
    ;
    let x = base * light;
    assert(-255 * 0x8000_0000 * 1_000_000 <= x * t <= 255 * 0x8000_0000 * 1_000_000)
        by (nonlinear_arith)
        requires
            -255 * 0x8000_0000 <= x <= 255 * 0x8000_0000,
            0 <= t <= 1_000_000,
    ;
}

/// The product behind a blended channel fits an `i64`.
proof fn lemma_blend_product_fits(cur: int, light: int, t: int)
    requires
        i32::MIN <= cur <= i32::MAX,
        i32::MIN <= light <= i32::MAX,
        0 <= t <= 1_000_000,
    ensures
        i64::MIN <= (light - cur) * t <= i64::MAX,
{
    let x = light - cur;
    assert(-0x1_0000_0000 * 1_000_000 <= x * t <= 0x1_0000_0000 * 1_000_000) by (nonlinear_arith)
        requires
            -0x1_0000_0000 <= x <= 0x1_0000_0000,
            0 <= t <= 1_000_000,
    ;
}

/// The colour of the fragment at `pos`, whose scene colour is `base`, under
/// the lights of `lights`, taken in the order of the list.
pub fn shade_fragment(base: Rgb8, pos: Vec2, lights: &[Light]) -> (out: Rgba)
    ensures
        out@ == shade(base, pos, lights@),
{
    let mut acc: Option<Rgba> = None;
    let mut i: usize = 0;
    while i < lights.len()
        invariant
            i <= lights@.len(),
            spec_state(acc) == accumulate(base, pos, lights@.take(i as int)),
            acc matches Some(c) ==> c.a == UNIT,
        decreases lights@.len() - i,
    {
        proof {
            let next = lights@.take(i + 1);
            assert(next.drop_last() == lights@.take(i as int));
            assert(next.last() == lights@[i as int]);
        }
        acc = apply(acc, base, pos, &lights[i]);
        i += 1;
    }
    assert(lights@.take(i as int) == lights@);
    match acc {
        Some(c) => c,
        None => Rgba { r: 0, g: 0, b: 0, a: UNIT },
    }
}

} // verus!
