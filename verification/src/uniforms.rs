//! The uniform layout of the lighting program: which named parameters it
//! takes, in which order they are declared, and how each light slot finds its
//! two.
//!
//! The layout holds two parameters that do not belong to a light, `pos_rad`
//! and `dims`, followed by a `pos_rad` and a `color` parameter for each light
//! slot, named `lights[<index>].pos_rad` and `lights[<index>].color`. The
//! names are built once, when the table is made, and found by index
//! afterwards.

use crate::light::MAX_LIGHTS;
use vstd::prelude::*;
use vstd::string::*;

verus! {

/// The shape of a uniform's value.
#[derive(Clone, Copy, Debug, PartialEq, Eq, Structural)]
pub enum UniformKind {
    /// Two numbers.
    Float2,
    /// Three numbers.
    Float3,
}

/// One of the two parameters of a light slot.
#[derive(Clone, Copy, Debug, PartialEq, Eq, Structural)]
pub enum LightField {
    /// Position and radius.
    PosRad,
    /// Colour.
    Color,
}

/// A declared uniform: its name and the shape of its value.
#[derive(Debug)]
pub struct UniformSlot {
    pub name: String,
    pub kind: UniformKind,
}

/// Why a declared list of uniforms does not fit a lighting program.
#[derive(Clone, Copy, Debug, PartialEq, Eq, Structural)]
pub enum LayoutError {
    /// The list does not hold two entries plus two for each light of the
    /// program.
    SlotCount { found: usize },
    /// The entry at `index` is the first whose name or kind is not the one
    /// that the layout has at that place.
    SlotMismatch { index: usize },
}

/// The number of entries in the layout for a program with `lights` lights.
pub open spec fn spec_slot_count(lights: nat) -> nat {
    2 + 2 * lights
}

/// The decimal digit for `d`.
pub open spec fn spec_digit(d: nat) -> char
    recommends
        d < 10,
{
    "0123456789"@[d as int]
}

/// `n` written in decimal, without leading zeros.
pub open spec fn spec_decimal(n: nat) -> Seq<char>
    decreases n,
{
    if n < 10 {
        seq![spec_digit(n)]
    } else {
        spec_decimal(n / 10).push(spec_digit(n % 10))
    }
}

/// What follows the index in the name of a light's uniform.
pub open spec fn spec_field_suffix(field: LightField) -> Seq<char> {
    match field {
        LightField::PosRad => "].pos_rad"@,
        LightField::Color => "].color"@,
    }
}

/// The name of the uniform that carries `field` of light slot `i`.
pub open spec fn spec_light_uniform_name(i: nat, field: LightField) -> Seq<char> {
    "lights["@ + spec_decimal(i) + spec_field_suffix(field)
}

/// The place in the layout of the uniform that carries `field` of light slot
/// `i`.
pub open spec fn spec_light_slot(i: nat, field: LightField) -> nat {
    match field {
        LightField::PosRad => 2 + 2 * i,
        LightField::Color => 3 + 2 * i,
    }
}

/// The name that the layout has at place `k`.
pub open spec fn spec_slot_name(k: nat) -> Seq<char> {
    if k == 0 {
        "pos_rad"@
    } else if k == 1 {
        "dims"@
    } else if k % 2 == 0 {
        spec_light_uniform_name(((k - 2) / 2) as nat, LightField::PosRad)
    } else {
        spec_light_uniform_name(((k - 3) / 2) as nat, LightField::Color)
    }
}

/// The kind that the layout has at place `k`: `dims` holds two numbers, every
/// other uniform three.
pub open spec fn spec_slot_kind(k: nat) -> UniformKind {
    if k == 1 {
        UniformKind::Float2
    } else {
        UniformKind::Float3
    }
}

/// The entry `slot` is the one that the layout has at place `k`.
pub open spec fn slot_fits(slot: UniformSlot, k: nat) -> bool {
    slot.name@ == spec_slot_name(k) && slot.kind == spec_slot_kind(k)
}

/// `slots` is the layout for a program with `lights` lights.
pub open spec fn is_layout(slots: Seq<UniformSlot>, lights: nat) -> bool {
    &&& slots.len() == spec_slot_count(lights)
    &&& forall|k: int| 0 <= k < slots.len() ==> slot_fits(#[trigger] slots[k], k as nat)
}

/// The one-character string for the digit `d`.
fn digit_str(d: usize) -> (s: &'static str)
    requires
        d < 10,
    ensures
        s@ == seq![spec_digit(d as nat)],
{
    proof {
        reveal_strlit("0123456789");
        reveal_strlit("0");
        reveal_strlit("1");
        reveal_strlit("2");
        reveal_strlit("3");
        reveal_strlit("4");
        reveal_strlit("5");
        reveal_strlit("6");
        reveal_strlit("7");
        reveal_strlit("8");
        reveal_strlit("9");
    }
    let s: &'static str = match d {
        0 => "0",
        1 => "1",
        2 => "2",
        3 => "3",
        4 => "4",
        5 => "5",
        6 => "6",
        7 => "7",
        8 => "8",
        _ => "9",
    };
    assert(s@ =~= seq![spec_digit(d as nat)]);
    s
}

/// `n` written in decimal, without leading zeros.
pub fn decimal(n: usize) -> (s: String)
    ensures
        s@ == spec_decimal(n as nat),
    decreases n,
{
    if n < 10 {
        String::from_str(digit_str(n))
    } else {
        let mut s: String = decimal(n / 10);
        s.append(digit_str(n % 10));
        assert(s@ =~= spec_decimal((n / 10) as nat).push(spec_digit((n % 10) as nat)));
        s
    }
}

/// The name of the uniform that carries `field` of light slot `i`.
pub fn light_uniform_name(i: usize, field: LightField) -> (s: String)
    ensures
        s@ == spec_light_uniform_name(i as nat, field),
{
    let mut s: String = String::from_str("lights[");
    let digits: String = decimal(i);
    s.append(digits.as_str());
    match field {
        LightField::PosRad => s.append("].pos_rad"),
        LightField::Color => s.append("].color"),
    }
    s
}

/// The place in the layout of the uniform that carries `field` of light slot
/// `i`, or `None` when there is no such slot.
pub fn light_slot(i: usize, field: LightField) -> (res: Option<usize>)
    ensures
        i < MAX_LIGHTS <==> res is Some,
        res matches Some(k) ==> k == spec_light_slot(i as nat, field) && k < spec_slot_count(
            MAX_LIGHTS as nat,
        ),
{
    if i < MAX_LIGHTS {
        match field {
            LightField::PosRad => Some(2 + 2 * i),
            LightField::Color => Some(3 + 2 * i),
        }
    } else {
        None
    }
}

/// The place of a light's uniform holds that uniform's name.
pub proof fn light_slot_holds_its_name(i: nat, field: LightField)
    ensures
        spec_slot_name(spec_light_slot(i, field)) == spec_light_uniform_name(i, field),
        spec_slot_kind(spec_light_slot(i, field)) == UniformKind::Float3,
{
    match field {
        LightField::PosRad => {
            let k = 2 + 2 * i;
            assert(k % 2 == 0);
            assert((k - 2) / 2 == i);
        },
        LightField::Color => {
            let k = 3 + 2 * i;
            assert(k % 2 == 1);
            assert((k - 3) / 2 == i);
        },
    }
}

/// The uniforms to declare for a program with [`MAX_LIGHTS`] lights, in
/// order: `pos_rad`, `dims`, then position and colour of each light slot.
pub fn uniform_layout() -> (slots: Vec<UniformSlot>)
    ensures
        is_layout(slots@, MAX_LIGHTS as nat),
{
    let mut slots: Vec<UniformSlot> = Vec::new();
    slots.push(UniformSlot { name: String::from_str("pos_rad"), kind: UniformKind::Float3 });
    slots.push(UniformSlot { name: String::from_str("dims"), kind: UniformKind::Float2 });
    let mut i: usize = 0;
    while i < MAX_LIGHTS
        invariant
            i <= MAX_LIGHTS,
            slots@.len() == spec_slot_count(i as nat),
            forall|k: int| 0 <= k < slots@.len() ==> slot_fits(#[trigger] slots@[k], k as nat),
        decreases MAX_LIGHTS - i,
    {
        proof {
            light_slot_holds_its_name(i as nat, LightField::PosRad);
            light_slot_holds_its_name(i as nat, LightField::Color);
        }
        slots.push(
            UniformSlot { name: light_uniform_name(i, LightField::PosRad), kind: UniformKind::Float3 },
        );
        slots.push(
            UniformSlot { name: light_uniform_name(i, LightField::Color), kind: UniformKind::Float3 },
        );
        i += 1;
    }
    slots
}

/// The name that the layout has at place `k`.
pub fn slot_name(k: usize) -> (s: String)
    ensures
        s@ == spec_slot_name(k as nat),
{
    if k == 0 {
        String::from_str("pos_rad")
    } else if k == 1 {
        String::from_str("dims")
    } else if k % 2 == 0 {
        light_uniform_name((k - 2) / 2, LightField::PosRad)
    } else {
        light_uniform_name((k - 3) / 2, LightField::Color)
    }
}

/// The kind that the layout has at place `k`.
pub fn slot_kind(k: usize) -> (kind: UniformKind)
    ensures
        kind == spec_slot_kind(k as nat),
{
    if k == 1 {
        UniformKind::Float2
    } else {
        UniformKind::Float3
    }
}

/// Holds a declared list of uniforms against the layout of a program whose
/// light array has `shader_lights` entries.
///
/// The list passes exactly when it is that layout. A list of the wrong length
/// is reported with its length; in a list of the right length the first entry
/// that differs is reported with its place.
pub fn check_layout(declared: &[UniformSlot], shader_lights: usize) -> (res: Result<
    (),
    LayoutError,
>)
    ensures
        res is Ok <==> is_layout(declared@, shader_lights as nat),
        declared@.len() != spec_slot_count(shader_lights as nat) <==> res == Err::<(), LayoutError>(
            LayoutError::SlotCount { found: declared@.len() as usize },
        ),
        res matches Err(LayoutError::SlotMismatch { index }) ==> {
            &&& declared@.len() == spec_slot_count(shader_lights as nat)
            &&& index < declared@.len()
            &&& !slot_fits(declared@[index as int], index as nat)
            &&& forall|k: int| 0 <= k < index ==> slot_fits(#[trigger] declared@[k], k as nat)
        },
{
    let n: usize = declared.len();
    if n as u128 != 2 + 2 * (shader_lights as u128) {
        return Err(LayoutError::SlotCount { found: n });
    }
    let mut k: usize = 0;
    while k < n
        invariant
            k <= n == declared@.len(),
            n == spec_slot_count(shader_lights as nat),
            forall|j: int| 0 <= j < k ==> slot_fits(#[trigger] declared@[j], j as nat),
        decreases n - k,
    {
        let name: String = slot_name(k);
        if !(declared[k].name == name && declared[k].kind == slot_kind(k)) {
            return Err(LayoutError::SlotMismatch { index: k });
        }
        k += 1;
    }
    Ok(())
}

} // verus!
