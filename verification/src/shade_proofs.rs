//! What holds of the lighting rule for every fragment and every list of
//! lights.

use crate::fixed::{
    floor_sqrt, lemma_floor_sqrt_is_ordered, lemma_floor_sqrt_of_square, Vec2, UNIT,
};
use crate::light::Light;
use crate::shade::{
    accumulate, apply_light, dist_sq, lemma_falloff_range, lemma_mix_channel_range,
    lemma_root_within_radius, light_hits, light_intensity, lit_channel, mix_channel, shade, unlit,
    Lit, Pixel, Rgb8,
};
use vstd::arithmetic::div_mod::lemma_div_is_ordered;
use vstd::prelude::*;

verus! {

/// Opaque black.
pub open spec fn black() -> Pixel {
    Pixel { r: 0, g: 0, b: 0, a: UNIT as int }
}

/// The scene colour `base` multiplied by the colour of `l` and by the
/// strength that `l` has at `p`.
pub open spec fn multiplied(base: Rgb8, p: Vec2, l: Light) -> Lit {
    Lit {
        hit: true,
        r: lit_channel(base.r as int, l.color.x as int, light_intensity(p, l)),
        g: lit_channel(base.g as int, l.color.y as int, light_intensity(p, l)),
        b: lit_channel(base.b as int, l.color.z as int, light_intensity(p, l)),
    }
}

/// The colour `acc` blended toward the colour of `l` by the strength that
/// `l` has at `p`.
pub open spec fn blended(acc: Lit, p: Vec2, l: Light) -> Lit {
    Lit {
        hit: true,
        r: mix_channel(acc.r, l.color.x as int, light_intensity(p, l)),
        g: mix_channel(acc.g, l.color.y as int, light_intensity(p, l)),
        b: mix_channel(acc.b, l.color.z as int, light_intensity(p, l)),
    }
}

/// The opaque pixel that carries the colour of `acc`.
pub open spec fn opaque(acc: Lit) -> Pixel {
    Pixel { r: acc.r, g: acc.g, b: acc.b, a: UNIT as int }
}

/// No light of the list reaches `p`, except those at the indices `j` and `k`.
pub open spec fn only_reached_by(p: Vec2, lights: Seq<Light>, j: int, k: int) -> bool {
    forall|i: int| 0 <= i < lights.len() && i != j && i != k ==> !light_hits(p, #[trigger] lights[i])
}

/// A fragment at the centre of a light with a positive radius is reached by
/// it at full strength.
pub proof fn center_is_fully_lit(p: Vec2, l: Light)
    requires
        l.pos_rad.z > 0,
        p.x == l.pos_rad.x,
        p.y == l.pos_rad.y,
    ensures
        light_hits(p, l),
        light_intensity(p, l) == UNIT,
{
    let r = l.pos_rad.z as int;
    assert(dist_sq(p, l) == 0);
    assert(0 <= r * r) by (nonlinear_arith);
    lemma_floor_sqrt_of_square(0);
    lemma_falloff_range(0, r);
}

/// A fragment whose distance from the centre of a light equals the radius
/// receives nothing from it.
pub proof fn rim_is_dark(p: Vec2, l: Light)
    requires
        dist_sq(p, l) == l.pos_rad.z * l.pos_rad.z,
    ensures
        light_intensity(p, l) == 0,
{
    if light_hits(p, l) {
        let r = l.pos_rad.z as int;
        lemma_floor_sqrt_of_square(r);
        lemma_falloff_range(r, r);
    }
}

/// The strength of a light does not grow with the distance: of two fragments
/// that a light reaches, the one no nearer to its centre receives no more.
pub proof fn farther_is_no_brighter(near: Vec2, far: Vec2, l: Light)
    requires
        light_hits(near, l),
        light_hits(far, l),
        dist_sq(near, l) <= dist_sq(far, l),
    ensures
        light_intensity(far, l) <= light_intensity(near, l),
{
    let r = l.pos_rad.z as int;
    let a = dist_sq(near, l);
    let b = dist_sq(far, l);
    assert(0 <= a) by (nonlinear_arith)
        requires
            a == (near.x - l.pos_rad.x) * (near.x - l.pos_rad.x) + (near.y - l.pos_rad.y) * (near.y
                - l.pos_rad.y),
    ;
    lemma_root_within_radius(a, r);
    lemma_root_within_radius(b, r);
    lemma_floor_sqrt_is_ordered(a, b);
    let u = UNIT as int;
    assert((r - floor_sqrt(b)) * u <= (r - floor_sqrt(a)) * u) by (nonlinear_arith)
        requires
            floor_sqrt(a) <= floor_sqrt(b),
            u == 1_000_000,
    ;
    lemma_div_is_ordered((r - floor_sqrt(b)) * u, (r - floor_sqrt(a)) * u, r);
}

/// A fragment that no light reaches is opaque black, whatever the scene
/// colour.
pub proof fn unreached_is_black(base: Rgb8, p: Vec2, lights: Seq<Light>)
    requires
        forall|i: int| 0 <= i < lights.len() ==> !light_hits(p, #[trigger] lights[i]),
    ensures
        accumulate(base, p, lights) == unlit(),
        shade(base, p, lights) == black(),
    decreases lights.len(),
{
    if lights.len() > 0 {
        let front = lights.drop_last();
        assert forall|i: int| 0 <= i < front.len() implies !light_hits(p, #[trigger] front[i]) by {
            assert(front[i] == lights[i]);
        }
        unreached_is_black(base, p, front);
        assert(!light_hits(p, lights[lights.len() - 1]));
    }
}

/// A fragment that exactly one light reaches has the scene colour multiplied
/// by that light's colour and strength, wherever in the list the light
/// stands.
pub proof fn single_light_multiplies(base: Rgb8, p: Vec2, lights: Seq<Light>, k: int)
    requires
        0 <= k < lights.len(),
        light_hits(p, lights[k]),
        only_reached_by(p, lights, k, k),
    ensures
        accumulate(base, p, lights) == multiplied(base, p, lights[k]),
        shade(base, p, lights) == opaque(multiplied(base, p, lights[k])),
    decreases lights.len(),
{
    let front = lights.drop_last();
    if k == lights.len() - 1 {
        assert forall|i: int| 0 <= i < front.len() implies !light_hits(p, #[trigger] front[i]) by {
            assert(front[i] == lights[i]);
        }
        unreached_is_black(base, p, front);
    } else {
        assert(front[k] == lights[k]);
        assert forall|i: int| 0 <= i < front.len() && i != k implies !light_hits(
            p,
            #[trigger] front[i],
        ) by {
            assert(front[i] == lights[i]);
        }
        single_light_multiplies(base, p, front, k);
        assert(!light_hits(p, lights[lights.len() - 1]));
    }
}

/// Two lists in which the same light is the only one to reach a fragment give
/// that fragment the same colour.
pub proof fn single_light_ignores_order(
    base: Rgb8,
    p: Vec2,
    first: Seq<Light>,
    i: int,
    second: Seq<Light>,
    j: int,
)
    requires
        0 <= i < first.len(),
        0 <= j < second.len(),
        first[i] == second[j],
        light_hits(p, first[i]),
        only_reached_by(p, first, i, i),
        only_reached_by(p, second, j, j),
    ensures
        shade(base, p, first) == shade(base, p, second),
{
    single_light_multiplies(base, p, first, i);
    single_light_multiplies(base, p, second, j);
}

/// A fragment that exactly two lights reach has the colour that the earlier
/// one gives alone, blended toward the colour of the later one by the later
/// one's strength.
pub proof fn second_light_blends(base: Rgb8, p: Vec2, lights: Seq<Light>, j: int, k: int)
    requires
        0 <= j < k < lights.len(),
        light_hits(p, lights[j]),
        light_hits(p, lights[k]),
        only_reached_by(p, lights, j, k),
    ensures
        accumulate(base, p, lights) == blended(multiplied(base, p, lights[j]), p, lights[k]),
        shade(base, p, lights) == opaque(
            blended(multiplied(base, p, lights[j]), p, lights[k]),
        ),
    decreases lights.len(),
{
    let front = lights.drop_last();
    assert(front[j] == lights[j]);
    if k == lights.len() - 1 {
        assert forall|i: int| 0 <= i < front.len() && i != j implies !light_hits(
            p,
            #[trigger] front[i],
        ) by {
            assert(front[i] == lights[i]);
        }
        single_light_multiplies(base, p, front, j);
    } else {
        assert(front[k] == lights[k]);
        assert forall|i: int| 0 <= i < front.len() && i != j && i != k implies !light_hits(
            p,
            #[trigger] front[i],
        ) by {
            assert(front[i] == lights[i]);
        }
        second_light_blends(base, p, front, j, k);
        assert(!light_hits(p, lights[lights.len() - 1]));
    }
}

/// The order of the list matters: of two lights with one centre, a fragment
/// at that centre takes the colour of whichever comes later, so exchanging two
/// lights of different colours changes the fragment.
pub proof fn later_light_prevails(base: Rgb8, p: Vec2, a: Light, b: Light)
    requires
        a.pos_rad.z > 0,
        b.pos_rad.z > 0,
        p.x == a.pos_rad.x == b.pos_rad.x,
        p.y == a.pos_rad.y == b.pos_rad.y,
    ensures
        shade(base, p, seq![a, b]) == (Pixel {
            r: b.color.x as int,
            g: b.color.y as int,
            b: b.color.z as int,
            a: UNIT as int,
        }),
        shade(base, p, seq![b, a]) == (Pixel {
            r: a.color.x as int,
            g: a.color.y as int,
            b: a.color.z as int,
            a: UNIT as int,
        }),
        a.color != b.color ==> shade(base, p, seq![a, b]) != shade(base, p, seq![b, a]),
{
    center_is_fully_lit(p, a);
    center_is_fully_lit(p, b);
    let ab = seq![a, b];
    let ba = seq![b, a];
    assert(only_reached_by(p, ab, 0, 1));
    assert(only_reached_by(p, ba, 0, 1));
    second_light_blends(base, p, ab, 0, 1);
    second_light_blends(base, p, ba, 0, 1);
    let first_a = multiplied(base, p, a);
    let first_b = multiplied(base, p, b);
    lemma_mix_channel_range(first_a.r, b.color.x as int, UNIT as int);
    lemma_mix_channel_range(first_a.g, b.color.y as int, UNIT as int);
    lemma_mix_channel_range(first_a.b, b.color.z as int, UNIT as int);
    lemma_mix_channel_range(first_b.r, a.color.x as int, UNIT as int);
    lemma_mix_channel_range(first_b.g, a.color.y as int, UNIT as int);
    lemma_mix_channel_range(first_b.b, a.color.z as int, UNIT as int);
}

/// A light whose radius is zero or less reaches no fragment, whatever its
/// position and colour, and leaves every state as it was.
pub proof fn inactive_light_reaches_nothing(acc: Lit, base: Rgb8, p: Vec2, l: Light)
    requires
        l.pos_rad.z <= 0,
    ensures
        !light_hits(p, l),
        light_intensity(p, l) == 0,
        apply_light(acc, base, p, l) == acc,
{
}

/// Taking a light that does not reach a fragment out of the list leaves the
/// fragment's colour unchanged.
pub proof fn unreaching_light_is_ignored(base: Rgb8, p: Vec2, lights: Seq<Light>, k: int)
    requires
        0 <= k < lights.len(),
        !light_hits(p, lights[k]),
    ensures
        accumulate(base, p, lights) == accumulate(base, p, lights.remove(k)),
        shade(base, p, lights) == shade(base, p, lights.remove(k)),
    decreases lights.len(),
{
    let front = lights.drop_last();
    if k == lights.len() - 1 {
        assert(lights.remove(k) =~= front);
    } else {
        assert(front[k] == lights[k]);
        unreaching_light_is_ignored(base, p, front, k);
        assert(lights.remove(k).drop_last() =~= front.remove(k));
        assert(lights.remove(k).last() == lights.last());
    }
}

/// A slot whose radius is zero or less contributes to no fragment: the list
/// shades every fragment as it would without that slot.
pub proof fn inactive_slot_contributes_nothing(base: Rgb8, p: Vec2, lights: Seq<Light>, k: int)
    requires
        0 <= k < lights.len(),
        lights[k].pos_rad.z <= 0,
    ensures
        shade(base, p, lights) == shade(base, p, lights.remove(k)),
{
    unreaching_light_is_ignored(base, p, lights, k);
}

} // verus!
