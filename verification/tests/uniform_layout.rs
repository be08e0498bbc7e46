use shadowgame::light::MAX_LIGHTS;
use shadowgame::uniforms::{
    check_layout, decimal, light_slot, light_uniform_name, slot_kind, slot_name, uniform_layout,
    LayoutError, LightField, UniformKind, UniformSlot,
};

#[test]
fn decimal_writes_numbers() {
    assert_eq!(decimal(0), "0");
    assert_eq!(decimal(7), "7");
    assert_eq!(decimal(9), "9");
    assert_eq!(decimal(10), "10");
    assert_eq!(decimal(42), "42");
    assert_eq!(decimal(1_234_567_890), "1234567890");
    assert_eq!(decimal(usize::MAX), format!("{}", usize::MAX));
}

#[test]
fn light_uniform_names_follow_the_pattern() {
    assert_eq!(light_uniform_name(0, LightField::PosRad), "lights[0].pos_rad");
    assert_eq!(light_uniform_name(0, LightField::Color), "lights[0].color");
    assert_eq!(light_uniform_name(3, LightField::PosRad), "lights[3].pos_rad");
    assert_eq!(light_uniform_name(3, LightField::Color), "lights[3].color");
    assert_eq!(light_uniform_name(12, LightField::Color), "lights[12].color");
}

#[test]
fn light_slots_follow_the_two_fixed_ones() {
    assert_eq!(light_slot(0, LightField::PosRad), Some(2));
    assert_eq!(light_slot(0, LightField::Color), Some(3));
    assert_eq!(light_slot(1, LightField::PosRad), Some(4));
    assert_eq!(light_slot(3, LightField::PosRad), Some(8));
    assert_eq!(light_slot(3, LightField::Color), Some(9));
    assert_eq!(light_slot(4, LightField::PosRad), None);
    assert_eq!(light_slot(4, LightField::Color), None);
    assert_eq!(light_slot(usize::MAX, LightField::Color), None);
}

#[test]
fn layout_has_two_plus_two_per_light() {
    let layout = uniform_layout();
    assert_eq!(layout.len(), 2 + 2 * MAX_LIGHTS);
    assert_eq!(layout.len(), 10);
}

#[test]
fn layout_lists_the_uniforms_in_order() {
    let layout = uniform_layout();
    let names: Vec<&str> = layout.iter().map(|s| s.name.as_str()).collect();
    assert_eq!(
        names,
        vec![
            "pos_rad",
            "dims",
            "lights[0].pos_rad",
            "lights[0].color",
            "lights[1].pos_rad",
            "lights[1].color",
            "lights[2].pos_rad",
            "lights[2].color",
            "lights[3].pos_rad",
            "lights[3].color",
        ]
    );
    let kinds: Vec<UniformKind> = layout.iter().map(|s| s.kind).collect();
    assert_eq!(kinds[0], UniformKind::Float3);
    assert_eq!(kinds[1], UniformKind::Float2);
    for k in 2..10 {
        assert_eq!(kinds[k], UniformKind::Float3);
    }
}

#[test]
fn layout_is_found_by_slot() {
    let layout = uniform_layout();
    for i in 0..MAX_LIGHTS {
        for field in [LightField::PosRad, LightField::Color] {
            let k = light_slot(i, field).unwrap();
            assert_eq!(layout[k].name, light_uniform_name(i, field));
            assert_eq!(layout[k].kind, UniformKind::Float3);
        }
    }
}

#[test]
fn slot_names_and_kinds_by_place() {
    assert_eq!(slot_name(0), "pos_rad");
    assert_eq!(slot_name(1), "dims");
    assert_eq!(slot_name(2), "lights[0].pos_rad");
    assert_eq!(slot_name(3), "lights[0].color");
    assert_eq!(slot_name(9), "lights[3].color");
    assert_eq!(slot_name(24), "lights[11].pos_rad");
    assert_eq!(slot_kind(0), UniformKind::Float3);
    assert_eq!(slot_kind(1), UniformKind::Float2);
    assert_eq!(slot_kind(2), UniformKind::Float3);
    assert_eq!(slot_kind(9), UniformKind::Float3);
}

#[test]
fn check_accepts_the_layout() {
    assert_eq!(check_layout(&uniform_layout(), MAX_LIGHTS), Ok(()));
    let two = [
        UniformSlot { name: "pos_rad".to_string(), kind: UniformKind::Float3 },
        UniformSlot { name: "dims".to_string(), kind: UniformKind::Float2 },
    ];
    assert_eq!(check_layout(&two, 0), Ok(()));
}

#[test]
fn check_reports_a_wrong_count() {
    let layout = uniform_layout();
    assert_eq!(check_layout(&layout, 3), Err(LayoutError::SlotCount { found: 10 }));
    assert_eq!(check_layout(&layout, 5), Err(LayoutError::SlotCount { found: 10 }));
    assert_eq!(check_layout(&layout, 0), Err(LayoutError::SlotCount { found: 10 }));
    assert_eq!(check_layout(&layout, usize::MAX), Err(LayoutError::SlotCount { found: 10 }));
    assert_eq!(check_layout(&[], 4), Err(LayoutError::SlotCount { found: 0 }));
    assert_eq!(check_layout(&layout[..9], 4), Err(LayoutError::SlotCount { found: 9 }));
}

#[test]
fn check_reports_the_first_wrong_slot() {
    let mut layout = uniform_layout();
    layout[6].name = "lights[2].pos".to_string();
    layout[8].kind = UniformKind::Float2;
    assert_eq!(check_layout(&layout, 4), Err(LayoutError::SlotMismatch { index: 6 }));
    let mut kinds = uniform_layout();
    kinds[1].kind = UniformKind::Float3;
    assert_eq!(check_layout(&kinds, 4), Err(LayoutError::SlotMismatch { index: 1 }));
    let mut swapped = uniform_layout();
    swapped.swap(2, 3);
    assert_eq!(check_layout(&swapped, 4), Err(LayoutError::SlotMismatch { index: 2 }));
    let mut last = uniform_layout();
    last[9].name.push(' ');
    assert_eq!(check_layout(&last, 4), Err(LayoutError::SlotMismatch { index: 9 }));
}
