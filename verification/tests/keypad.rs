use chip8rs::keypad::KEY_COUNT;
use chip8rs::{keymap, HostKey, Keypad};

#[test]
fn the_keymap_is_the_fixed_table() {
    assert_eq!(
        keymap(),
        vec![
            HostKey::X,
            HostKey::Key1,
            HostKey::Key2,
            HostKey::Key3,
            HostKey::Q,
            HostKey::W,
            HostKey::E,
            HostKey::A,
            HostKey::S,
            HostKey::D,
            HostKey::Z,
            HostKey::C,
            HostKey::Key4,
            HostKey::R,
            HostKey::F,
            HostKey::V,
        ]
    );
}

#[test]
fn the_keymap_has_one_host_key_for_each_logical_key() {
    let table = keymap();
    assert_eq!(table.len(), KEY_COUNT);
    assert_eq!(KEY_COUNT, 16);
    for (i, a) in table.iter().enumerate() {
        for b in &table[i + 1..] {
            assert_ne!(a, b);
        }
    }
    assert_eq!(table[0x0], HostKey::X);
    assert_eq!(table[0xA], HostKey::Z);
    assert_eq!(table[0xF], HostKey::V);
}

#[test]
fn a_new_keypad_has_every_key_up() {
    let keypad = Keypad::new();
    for key in 0..16 {
        assert!(!keypad.is_down(key));
    }
}

#[test]
fn set_changes_one_key() {
    let mut keypad = Keypad::new();
    keypad.set(7, true);
    for key in 0..16 {
        assert_eq!(keypad.is_down(key), key == 7);
    }
    keypad.set(0, true);
    keypad.set(15, true);
    keypad.set(7, false);
    for key in 0..16 {
        assert_eq!(keypad.is_down(key), key == 0 || key == 15);
    }
}
