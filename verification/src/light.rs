//! Light sources and the fixed-capacity registry that owns them.

use crate::fixed::Vec3;
use vstd::prelude::*;

verus! {

/// The number of light slots; the fragment program's light array has the same
/// length.
pub const MAX_LIGHTS: usize = 4;

/// A radial point light.
///
/// `pos_rad` holds the position in `x` and `y` and the falloff radius in `z`;
/// `color` holds red, green and blue. No component is restricted to a range.
#[derive(Clone, Copy, Debug, PartialEq, Eq, Structural)]
pub struct Light {
    pub pos_rad: Vec3,
    pub color: Vec3,
}

impl Light {
    /// The content of a slot that holds no light: radius zero, colour black.
    pub open spec fn is_unused(self) -> bool {
        self.pos_rad.z == 0 && self.color == (Vec3 { x: 0, y: 0, z: 0 })
    }

    /// The all-zero light.
    pub open spec fn spec_unused() -> Light {
        Light { pos_rad: Vec3 { x: 0, y: 0, z: 0 }, color: Vec3 { x: 0, y: 0, z: 0 } }
    }

    /// The all-zero light, which fills the slots that are not in use.
    pub fn unused() -> (l: Light)
        ensures
            l == Light::spec_unused(),
    {
        Light { pos_rad: Vec3 { x: 0, y: 0, z: 0 }, color: Vec3 { x: 0, y: 0, z: 0 } }
    }
}

/// Why the registry refused a request.
#[derive(Clone, Copy, Debug, PartialEq, Eq, Structural)]
pub enum RegistryError {
    /// More lights were given than there are slots.
    TooManyLights,
    /// The index names no light that is in use.
    NoSuchLight,
}

/// An ordered list of at most [`MAX_LIGHTS`] lights.
///
/// The registry always holds `MAX_LIGHTS` slots. The first `len()` of them are
/// in use and may be overwritten in place; the others hold the all-zero light.
/// The number of lights in use is fixed when the registry is made.
pub struct LightRegistry {
    slots: [Light; MAX_LIGHTS],
    len: usize,
}

impl View for LightRegistry {
    type V = Seq<Light>;

    /// All slots in order, those not in use included.
    closed spec fn view(&self) -> Seq<Light> {
        self.slots@
    }
}

impl LightRegistry {
    /// The number of lights in use.
    pub closed spec fn spec_len(self) -> nat {
        self.len as nat
    }

    /// Every registry has `MAX_LIGHTS` slots, and those past the lights in use
    /// are zeroed.
    #[verifier::type_invariant]
    pub open spec fn wf(self) -> bool {
        &&& self@.len() == MAX_LIGHTS
        &&& self.spec_len() <= MAX_LIGHTS
        &&& forall|i: int| self.spec_len() <= i < MAX_LIGHTS ==> (#[trigger] self@[i]).is_unused()
    }

    /// What `with_lights` builds from `lights`: the given lights, then zeroed
    /// slots up to the capacity.
    pub open spec fn spec_filled(lights: Seq<Light>) -> Seq<Light> {
        Seq::new(
            MAX_LIGHTS as nat,
            |i: int|
                if i < lights.len() {
                    lights[i]
                } else {
                    Light::spec_unused()
                },
        )
    }

    /// A registry with no light in use.
    pub fn new() -> (r: LightRegistry)
        ensures
            r.wf(),
            r.spec_len() == 0,
            r@ == Self::spec_filled(Seq::empty()),
    {
        let slots: [Light; MAX_LIGHTS] = [Light::unused();MAX_LIGHTS];
        assert(slots@ =~= Self::spec_filled(Seq::empty()));
        LightRegistry { slots, len: 0 }
    }

    /// A registry whose lights in use are `lights`, in the same order.
    ///
    /// Fails exactly when `lights` holds more than `MAX_LIGHTS` entries.
    pub fn with_lights(lights: &[Light]) -> (res: Result<LightRegistry, RegistryError>)
        ensures
            lights@.len() > MAX_LIGHTS <==> res is Err,
            res matches Err(e) ==> e == RegistryError::TooManyLights,
            res matches Ok(r) ==> {
                &&& r.wf()
                &&& r.spec_len() == lights@.len()
                &&& r@ == Self::spec_filled(lights@)
            },
    {
        if lights.len() > MAX_LIGHTS {
            return Err(RegistryError::TooManyLights);
        }
        let mut slots: [Light; MAX_LIGHTS] = [Light::unused();MAX_LIGHTS];
        let mut i: usize = 0;
        while i < lights.len()
            invariant
                i <= lights@.len() <= MAX_LIGHTS,
                forall|k: int| 0 <= k < i ==> slots@[k] == lights@[k],
                forall|k: int| i <= k < MAX_LIGHTS ==> slots@[k] == Light::spec_unused(),
            decreases lights@.len() - i,
        {
            slots[i] = lights[i];
            i += 1;
        }
        assert(slots@ =~= Self::spec_filled(lights@));
        Ok(LightRegistry { slots, len: lights.len() })
    }

    /// The number of lights in use.
    pub fn len(&self) -> (n: usize)
        ensures
            n == self.spec_len(),
            n <= MAX_LIGHTS,
    {
        proof {
            use_type_invariant(self);
        }
        self.len
    }

    /// The content of slot `i`, or `None` when there is no such slot.
    ///
    /// A slot that is not in use reads as the all-zero light.
    pub fn get(&self, i: usize) -> (res: Option<Light>)
        ensures
            i < MAX_LIGHTS <==> res is Some,
            res matches Some(l) ==> l == self@[i as int],
    {
        proof {
            use_type_invariant(self);
        }
        if i < MAX_LIGHTS {
            Some(self.slots[i])
        } else {
            None
        }
    }

    /// Overwrites light `i` in place.
    ///
    /// Fails, and changes nothing, exactly when `i` is not below `len()`: the
    /// registry has no way to add a light.
    pub fn set(&mut self, i: usize, light: Light) -> (res: Result<(), RegistryError>)
        ensures
            final(self).wf(),
            final(self).spec_len() == old(self).spec_len(),
            i < old(self).spec_len() <==> res is Ok,
            res is Ok ==> final(self)@ == old(self)@.update(i as int, light),
            res matches Err(e) ==> e == RegistryError::NoSuchLight && final(self)@ == old(self)@,
    {
        proof {
            use_type_invariant(&*self);
        }
        if i < self.len {
            self.slots[i] = light;
            Ok(())
        } else {
            Err(RegistryError::NoSuchLight)
        }
    }

    /// All slots in order, those not in use included.
    pub fn slots(&self) -> (s: &[Light])
        ensures
            s@ == self@,
            s@.len() == MAX_LIGHTS,
    {
        proof {
            use_type_invariant(self);
        }
        self.slots.as_slice()
    }
}

} // verus!
