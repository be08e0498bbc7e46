use shadowgame::fixed::Vec3;
use shadowgame::light::{Light, LightRegistry, RegistryError, MAX_LIGHTS};

fn lamp(x: i32, y: i32, radius: i32, shade: i32) -> Light {
    Light { pos_rad: Vec3 { x, y, z: radius }, color: Vec3 { x: shade, y: shade, z: shade } }
}

#[test]
fn capacity_is_four() {
    assert_eq!(MAX_LIGHTS, 4);
}

#[test]
fn new_registry_is_all_zero() {
    let r = LightRegistry::new();
    assert_eq!(r.len(), 0);
    assert_eq!(r.slots().len(), MAX_LIGHTS);
    for i in 0..MAX_LIGHTS {
        assert_eq!(r.get(i), Some(Light::unused()));
    }
    assert_eq!(r.get(MAX_LIGHTS), None);
}

#[test]
fn unused_light_is_zero() {
    let l = Light::unused();
    assert_eq!(l.pos_rad, Vec3 { x: 0, y: 0, z: 0 });
    assert_eq!(l.color, Vec3 { x: 0, y: 0, z: 0 });
}

#[test]
fn with_lights_keeps_order_and_zeroes_the_rest() {
    let a = lamp(1, 2, 3, 4);
    let b = lamp(5, 6, 7, 8);
    let r = LightRegistry::with_lights(&[a, b]).unwrap();
    assert_eq!(r.len(), 2);
    assert_eq!(r.slots(), &[a, b, Light::unused(), Light::unused()][..]);
    assert_eq!(r.get(0), Some(a));
    assert_eq!(r.get(1), Some(b));
    assert_eq!(r.get(2), Some(Light::unused()));
    assert_eq!(r.get(3), Some(Light::unused()));
    assert_eq!(r.get(4), None);
    assert_eq!(r.get(usize::MAX), None);
}

#[test]
fn with_lights_takes_a_full_list() {
    let ls = [lamp(1, 1, 1, 1), lamp(2, 2, 2, 2), lamp(3, 3, 3, 3), lamp(4, 4, 4, 4)];
    let r = LightRegistry::with_lights(&ls).unwrap();
    assert_eq!(r.len(), 4);
    assert_eq!(r.slots(), &ls[..]);
}

#[test]
fn with_lights_takes_an_empty_list() {
    let r = LightRegistry::with_lights(&[]).unwrap();
    assert_eq!(r.len(), 0);
    assert_eq!(r.slots(), LightRegistry::new().slots());
}

#[test]
fn with_lights_refuses_a_fifth_light() {
    let ls = [lamp(1, 1, 1, 1); 5];
    assert!(matches!(LightRegistry::with_lights(&ls), Err(RegistryError::TooManyLights)));
}

#[test]
fn set_overwrites_in_place() {
    let a = lamp(1, 2, 3, 4);
    let b = lamp(5, 6, 7, 8);
    let c = lamp(-9, -10, -11, 2_000_000);
    let mut r = LightRegistry::with_lights(&[a, b]).unwrap();
    assert_eq!(r.set(0, c), Ok(()));
    assert_eq!(r.len(), 2);
    assert_eq!(r.slots(), &[c, b, Light::unused(), Light::unused()][..]);
    assert_eq!(r.set(1, a), Ok(()));
    assert_eq!(r.slots(), &[c, a, Light::unused(), Light::unused()][..]);
}

#[test]
fn set_refuses_a_slot_that_is_not_in_use() {
    let a = lamp(1, 2, 3, 4);
    let mut r = LightRegistry::with_lights(&[a]).unwrap();
    assert_eq!(r.set(1, a), Err(RegistryError::NoSuchLight));
    assert_eq!(r.set(3, a), Err(RegistryError::NoSuchLight));
    assert_eq!(r.set(4, a), Err(RegistryError::NoSuchLight));
    assert_eq!(r.set(usize::MAX, a), Err(RegistryError::NoSuchLight));
    assert_eq!(r.len(), 1);
    assert_eq!(r.slots(), &[a, Light::unused(), Light::unused(), Light::unused()][..]);
    let mut empty = LightRegistry::new();
    assert_eq!(empty.set(0, a), Err(RegistryError::NoSuchLight));
    assert_eq!(empty.slots(), LightRegistry::new().slots());
}

#[test]
fn values_are_not_validated() {
    let odd = Light {
        pos_rad: Vec3 { x: i32::MIN, y: i32::MAX, z: -5 },
        color: Vec3 { x: -1, y: 3_000_000, z: i32::MIN },
    };
    let mut r = LightRegistry::with_lights(&[odd]).unwrap();
    assert_eq!(r.get(0), Some(odd));
    assert_eq!(r.set(0, odd), Ok(()));
    assert_eq!(r.get(0), Some(odd));
}
