use editor_core::keybinding::{normalize, KeyBinding, KeyModifiers, KeyTable, Mod};

const NONE: Mod = Mod { ctrl: false, alt: false, shift: false };
const CTRL: Mod = Mod { ctrl: true, alt: false, shift: false };
const SHIFT: Mod = Mod { ctrl: false, alt: false, shift: true };

fn raw(bits: u8) -> KeyModifiers {
    KeyModifiers {
        left_ctrl: bits & 1 != 0,
        right_ctrl: bits & 2 != 0,
        left_alt: bits & 4 != 0,
        right_alt: bits & 8 != 0,
        left_shift: bits & 16 != 0,
        right_shift: bits & 32 != 0,
    }
}

#[test]
fn normalize_ignores_the_side_of_a_modifier() {
    for bits in 0..64u8 {
        let m = normalize(&raw(bits));
        assert_eq!(m.ctrl, bits & 3 != 0);
        assert_eq!(m.alt, bits & 12 != 0);
        assert_eq!(m.shift, bits & 48 != 0);
    }
    assert_eq!(normalize(&raw(0)), NONE);
    assert_eq!(normalize(&raw(1)), normalize(&raw(2)));
    assert_eq!(normalize(&raw(2)), CTRL);
}

#[test]
fn new_binding_holds_key_and_modifiers() {
    let kb = KeyBinding::new(97, CTRL);
    assert_eq!(kb.key, 97);
    assert_eq!(kb.mods, CTRL);
}

#[test]
fn empty_table_binds_nothing() {
    let t = KeyTable::new();
    assert_eq!(t.get(&KeyBinding::new(97, NONE)), None);
}

#[test]
fn insert_binds_and_rebinds() {
    let mut t = KeyTable::new();
    t.insert(KeyBinding::new(97, CTRL), 3);
    assert_eq!(t.get(&KeyBinding::new(97, CTRL)), Some(3));
    // the same key with other modifiers, and another key with the same ones
    assert_eq!(t.get(&KeyBinding::new(97, NONE)), None);
    assert_eq!(t.get(&KeyBinding::new(97, SHIFT)), None);
    assert_eq!(t.get(&KeyBinding::new(98, CTRL)), None);
    t.insert(KeyBinding::new(97, CTRL), 5);
    assert_eq!(t.get(&KeyBinding::new(97, CTRL)), Some(5));
    t.insert(KeyBinding::new(u32::MAX, Mod { ctrl: true, alt: true, shift: true }), 7);
    assert_eq!(t.get(&KeyBinding::new(u32::MAX, Mod { ctrl: true, alt: true, shift: true })), Some(7));
    assert_eq!(t.get(&KeyBinding::new(u32::MAX, Mod { ctrl: true, alt: true, shift: false })), None);
}

#[test]
fn modifier_sets_are_told_apart() {
    let mut t = KeyTable::new();
    let mut id = 0;
    for bits in 0..8u8 {
        let mods = Mod { ctrl: bits & 1 != 0, alt: bits & 2 != 0, shift: bits & 4 != 0 };
        t.insert(KeyBinding::new(13, mods), id);
        t.insert(KeyBinding::new(14, mods), id + 100);
        id += 1;
    }
    for bits in 0..8u8 {
        let mods = Mod { ctrl: bits & 1 != 0, alt: bits & 2 != 0, shift: bits & 4 != 0 };
        assert_eq!(t.get(&KeyBinding::new(13, mods)), Some(bits as usize));
        assert_eq!(t.get(&KeyBinding::new(14, mods)), Some(bits as usize + 100));
    }
}

#[test]
fn the_last_command_that_declares_a_binding_gets_it() {
    let commands = vec![
        vec![KeyBinding::new(1, NONE), KeyBinding::new(2, CTRL)],
        vec![],
        vec![KeyBinding::new(2, CTRL), KeyBinding::new(3, SHIFT), KeyBinding::new(3, SHIFT)],
        vec![KeyBinding::new(4, NONE)],
    ];
    let t = KeyTable::from_commands(&commands);
    assert_eq!(t.get(&KeyBinding::new(1, NONE)), Some(0));
    assert_eq!(t.get(&KeyBinding::new(2, CTRL)), Some(2));
    assert_eq!(t.get(&KeyBinding::new(3, SHIFT)), Some(2));
    assert_eq!(t.get(&KeyBinding::new(4, NONE)), Some(3));
    assert_eq!(t.get(&KeyBinding::new(2, NONE)), None);
    assert_eq!(t.get(&KeyBinding::new(5, NONE)), None);
    let none = KeyTable::from_commands(&Vec::new());
    assert_eq!(none.get(&KeyBinding::new(1, NONE)), None);
}
