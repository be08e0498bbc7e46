//! The lighting pass of a frame: what is uploaded for the lights, and what
//! colour each pixel of the window gets from it.
//!
//! Every frame the pass rewrites the position and the colour of all light
//! slots, those not in use included, so that the program never sees a value
//! left over from an earlier frame.

use crate::fixed::{Vec2, Vec3};
use crate::light::{Light, LightRegistry, MAX_LIGHTS};
use crate::shade::{accumulate, light_hits, shade, shade_fragment, Rgb8, Rgba};
use crate::transform::{
    normalize, shader_position, spec_normalize, spec_shader_position, spec_transform_shader_pos,
    transform_shader_pos, Viewport,
};
use crate::uniforms::{
    light_slot_holds_its_name, spec_light_slot, spec_light_uniform_name, spec_slot_count,
    spec_slot_name, LightField,
};
use vstd::prelude::*;

verus! {

/// A value to store in the uniform at place `slot` of the layout.
#[derive(Clone, Copy, Debug, PartialEq, Eq, Structural)]
pub struct UniformWrite {
    pub slot: usize,
    pub value: Vec3,
}

/// The size of the viewport, to store in the uniform at place `slot` of the
/// layout.
#[derive(Clone, Copy, Debug, PartialEq, Eq, Structural)]
pub struct DimsWrite {
    pub slot: usize,
    pub width: u32,
    pub height: u32,
}

/// The light `l` as the program receives it: its position moved to shader
/// space, its radius and colour unchanged.
pub open spec fn spec_uploaded_light(l: Light, viewport: Viewport) -> Light {
    Light { pos_rad: spec_transform_shader_pos(l.pos_rad, viewport), color: l.color }
}

/// The lights as the program receives them, slot by slot.
pub open spec fn spec_uploaded_lights(lights: Seq<Light>, viewport: Viewport) -> Seq<Light> {
    Seq::new(lights.len(), |i: int| spec_uploaded_light(lights[i], viewport))
}

/// The uniform writes of one frame: for each slot in turn its position and
/// radius, then its colour, at consecutive places from the third place of the
/// layout on.
pub open spec fn spec_light_uniforms(lights: Seq<Light>, viewport: Viewport) -> Seq<UniformWrite> {
    Seq::new(
        2 * lights.len(),
        |k: int|
            UniformWrite {
                slot: (2 + k) as usize,
                value: if k % 2 == 0 {
                    spec_uploaded_light(lights[k / 2], viewport).pos_rad
                } else {
                    spec_uploaded_light(lights[k / 2], viewport).color
                },
            },
    )
}

/// The colour that the lighting pass gives the pixel `(px, py)` whose scene
/// colour is `base`.
pub open spec fn spec_composite(
    base: Rgb8,
    px: int,
    py: int,
    lights: Seq<Light>,
    viewport: Viewport,
) -> crate::shade::Pixel {
    shade(
        base,
        spec_shader_position(spec_normalize(px, py, viewport), viewport),
        spec_uploaded_lights(lights, viewport),
    )
}

/// The write that tells the program the size of the viewport. It goes to the
/// second place of the layout, and is made once for a viewport.
pub fn dims_uniform(viewport: &Viewport) -> (w: DimsWrite)
    ensures
        w.slot == 1,
        w.width == viewport.spec_width(),
        w.height == viewport.spec_height(),
{
    DimsWrite { slot: 1, width: viewport.width(), height: viewport.height() }
}

/// The lights of the registry as the program receives them: one entry for
/// every slot, in slot order.
pub fn uploaded_lights(registry: &LightRegistry, viewport: &Viewport) -> (out: Vec<Light>)
    ensures
        out@ == spec_uploaded_lights(registry@, *viewport),
        out@.len() == MAX_LIGHTS,
{
    let slots: &[Light] = registry.slots();
    let mut out: Vec<Light> = Vec::new();
    let mut i: usize = 0;
    while i < slots.len()
        invariant
            i <= slots@.len(),
            out@.len() == i,
            forall|k: int| 0 <= k < i ==> out@[k] == spec_uploaded_light(slots@[k], *viewport),
        decreases slots@.len() - i,
    {
        let l: Light = slots[i];
        out.push(Light { pos_rad: transform_shader_pos(&l.pos_rad, viewport), color: l.color });
        i += 1;
    }
    assert(out@ =~= spec_uploaded_lights(registry@, *viewport));
    out
}

/// The uniform writes of one frame for the lights of the registry.
///
/// Two writes are made for every slot, whether or not it is in use.
pub fn light_uniforms(registry: &LightRegistry, viewport: &Viewport) -> (out: Vec<UniformWrite>)
    ensures
        out@ == spec_light_uniforms(registry@, *viewport),
        out@.len() == 2 * MAX_LIGHTS,
{
    let slots: &[Light] = registry.slots();
    let mut out: Vec<UniformWrite> = Vec::new();
    let mut i: usize = 0;
    while i < slots.len()
        invariant
            i <= slots@.len() == MAX_LIGHTS,
            out@.len() == 2 * i,
            forall|k: int|
                0 <= k < 2 * i ==> out@[k] == spec_light_uniforms(slots@, *viewport)[k],
        decreases slots@.len() - i,
    {
        let l: Light = slots[i];
        out.push(
            UniformWrite { slot: 2 + 2 * i, value: transform_shader_pos(&l.pos_rad, viewport) },
        );
        out.push(UniformWrite { slot: 3 + 2 * i, value: l.color });
        i += 1;
    }
    assert(out@ =~= spec_light_uniforms(registry@, *viewport));
    out
}

/// The colour that the lighting pass gives the pixel `(px, py)` whose scene
/// colour is `base`: the pixel is taken to shader space, and so are the
/// lights, and the lighting rule is applied to them in slot order.
pub fn composite(
    base: Rgb8,
    px: u32,
    py: u32,
    registry: &LightRegistry,
    viewport: &Viewport,
) -> (out: Rgba)
    ensures
        out@ == spec_composite(base, px as int, py as int, registry@, *viewport),
{
    let p: Vec2 = shader_position(normalize(px, py, viewport), viewport);
    let lights: Vec<Light> = uploaded_lights(registry, viewport);
    shade_fragment(base, p, lights.as_slice())
}

/// Lights that follow the first `n` and have no positive radius change no
/// fragment: the list shades as its first `n` lights do.
pub proof fn trailing_inactive_lights_are_ignored(
    base: Rgb8,
    p: Vec2,
    lights: Seq<Light>,
    n: int,
)
    requires
        0 <= n <= lights.len(),
        forall|i: int| n <= i < lights.len() ==> (#[trigger] lights[i]).pos_rad.z <= 0,
    ensures
        accumulate(base, p, lights) == accumulate(base, p, lights.take(n)),
        shade(base, p, lights) == shade(base, p, lights.take(n)),
    decreases lights.len() - n,
{
    if n == lights.len() {
        assert(lights.take(n) =~= lights);
    } else {
        let front = lights.drop_last();
        assert(!light_hits(p, lights[lights.len() - 1]));
        assert forall|i: int| n <= i < front.len() implies (#[trigger] front[i]).pos_rad.z <= 0 by {
            assert(front[i] == lights[i]);
        }
        trailing_inactive_lights_are_ignored(base, p, front, n);
        assert(front.take(n) =~= lights.take(n));
    }
}

/// The slots of a registry that are not in use change no pixel: the pass
/// colours every pixel as it would with the lights in use alone.
pub proof fn unused_slots_change_no_pixel(
    base: Rgb8,
    px: int,
    py: int,
    registry: LightRegistry,
    viewport: Viewport,
)
    requires
        registry.wf(),
    ensures
        spec_composite(base, px, py, registry@, viewport) == spec_composite(
            base,
            px,
            py,
            registry@.take(registry.spec_len() as int),
            viewport,
        ),
{
    let n = registry.spec_len() as int;
    let all = spec_uploaded_lights(registry@, viewport);
    let p = spec_shader_position(spec_normalize(px, py, viewport), viewport);
    assert forall|i: int| n <= i < all.len() implies (#[trigger] all[i]).pos_rad.z <= 0 by {
        assert(registry@[i].is_unused());
    }
    trailing_inactive_lights_are_ignored(base, p, all, n);
    assert(all.take(n) =~= spec_uploaded_lights(registry@.take(n), viewport));
}

/// The writes of a frame and the declared layout agree: the two writes for
/// light slot `i` go to places within the layout for [`MAX_LIGHTS`] lights,
/// and those places hold the names of that slot's position and colour.
pub proof fn writes_address_the_layout(lights: Seq<Light>, viewport: Viewport, i: int)
    requires
        lights.len() == MAX_LIGHTS,
        0 <= i < MAX_LIGHTS,
    ensures
        spec_light_uniforms(lights, viewport).len() + 2 == spec_slot_count(MAX_LIGHTS as nat),
        spec_light_uniforms(lights, viewport)[2 * i].slot == spec_light_slot(
            i as nat,
            LightField::PosRad,
        ),
        spec_light_uniforms(lights, viewport)[2 * i + 1].slot == spec_light_slot(
            i as nat,
            LightField::Color,
        ),
        spec_light_uniforms(lights, viewport)[2 * i].slot < spec_slot_count(MAX_LIGHTS as nat),
        spec_light_uniforms(lights, viewport)[2 * i + 1].slot < spec_slot_count(MAX_LIGHTS as nat),
        spec_slot_name(spec_light_uniforms(lights, viewport)[2 * i].slot as nat)
            == spec_light_uniform_name(i as nat, LightField::PosRad),
        spec_slot_name(spec_light_uniforms(lights, viewport)[2 * i + 1].slot as nat)
            == spec_light_uniform_name(i as nat, LightField::Color),
        spec_light_uniforms(lights, viewport)[2 * i].value == spec_transform_shader_pos(
            lights[i].pos_rad,
            viewport,
        ),
        spec_light_uniforms(lights, viewport)[2 * i + 1].value == lights[i].color,
{
    light_slot_holds_its_name(i as nat, LightField::PosRad);
    light_slot_holds_its_name(i as nat, LightField::Color);
}

} // verus!
