use ichigocrate::desktop::{egui_key_to_hid, is_host_reserved_key, key_action, key_to_btn_code, KeyAction, PhysKey};
use ichigocrate::keycodes as kc;

#[test]
fn egui_key_to_hid_covers_letters_and_digits() {
    assert_eq!(egui_key_to_hid(PhysKey::A, 1), Some(0x04));
    assert_eq!(egui_key_to_hid(PhysKey::Z, 1), Some(0x1d));
    assert_eq!(egui_key_to_hid(PhysKey::Num1, 1), Some(0x1e));
    assert_eq!(egui_key_to_hid(PhysKey::Num0, 1), Some(0x27));
}

#[test]
fn egui_key_to_hid_covers_symbols() {
    assert_eq!(egui_key_to_hid(PhysKey::Num2, 1), Some(0x1f));
    assert_eq!(egui_key_to_hid(PhysKey::OpenBracket, 1), Some(0x2f));
    assert_eq!(egui_key_to_hid(PhysKey::Quote, 1), Some(0x34));
    assert_eq!(egui_key_to_hid(PhysKey::Semicolon, 1), Some(0x33));
}

#[test]
fn egui_key_to_hid_backslash_depends_on_keyboard_id() {
    assert_eq!(egui_key_to_hid(PhysKey::Backslash, 0), Some(0x31));
    assert_eq!(egui_key_to_hid(PhysKey::Backslash, 1), Some(0x32));
}

#[test]
fn egui_key_to_hid_pipe_is_layout_independent() {
    assert_eq!(egui_key_to_hid(PhysKey::Pipe, 0), Some(0x31));
    assert_eq!(egui_key_to_hid(PhysKey::Pipe, 1), Some(0x31));
}

#[test]
fn backslash_and_pipe_end_to_end_output_chars() {
    let lookup = |key: PhysKey, keyboard_id: u8, shift: bool| {
        let hid = egui_key_to_hid(key, keyboard_id).unwrap();
        ichigocrate::keymap::lookup(keyboard_id, hid, shift, false)
    };
    assert_eq!(lookup(PhysKey::Backslash, 0, false), b'\\');
    assert_eq!(lookup(PhysKey::Backslash, 0, true), b'|');
    assert_eq!(lookup(PhysKey::Backslash, 1, false), b']');
    assert_eq!(lookup(PhysKey::Backslash, 1, true), b'}');
    assert_eq!(lookup(PhysKey::Pipe, 0, true), b'|');
    assert_eq!(lookup(PhysKey::Pipe, 1, true), b'|');
}

#[test]
fn host_reserved_keys_skip_keymap() {
    assert!(is_host_reserved_key(PhysKey::Escape));
    assert!(is_host_reserved_key(PhysKey::F1));
    assert!(is_host_reserved_key(PhysKey::F10));
    assert!(!is_host_reserved_key(PhysKey::A));
    assert!(!is_host_reserved_key(PhysKey::Enter));
}

#[test]
fn unmapped_keys_have_no_usage() {
    assert_eq!(egui_key_to_hid(PhysKey::Enter, 1), None);
    assert_eq!(egui_key_to_hid(PhysKey::Escape, 0), None);
    assert_eq!(egui_key_to_hid(PhysKey::Other, 0), None);
    assert_eq!(egui_key_to_hid(PhysKey::ArrowUp, 0), Some(0x52));
    assert_eq!(egui_key_to_hid(PhysKey::Plus, 0), Some(0x2e));
    assert_eq!(egui_key_to_hid(PhysKey::Questionmark, 0), Some(0x38));
}

#[test]
fn btn_codes_for_arrows_space_letters_digits() {
    assert_eq!(key_to_btn_code(PhysKey::X), Some(b'X'));
    assert_eq!(key_to_btn_code(PhysKey::Num0), Some(b'0'));
    assert_eq!(key_to_btn_code(PhysKey::ArrowLeft), Some(kc::CURSOR_LEFT));
    assert_eq!(key_to_btn_code(PhysKey::ArrowDown), Some(kc::CURSOR_DOWN));
    assert_eq!(key_to_btn_code(PhysKey::Space), Some(kc::SPACE));
    assert_eq!(key_to_btn_code(PhysKey::Enter), None);
    assert_eq!(key_to_btn_code(PhysKey::Minus), None);
}

#[test]
fn key_action_types_capitals_and_skips_host_keys() {
    assert_eq!(key_action(PhysKey::Enter, None, 1, false, false), KeyAction::Enter);
    assert_eq!(key_action(PhysKey::F5, None, 1, false, false), KeyAction::Ignore);
    assert_eq!(key_action(PhysKey::A, None, 1, false, false), KeyAction::Type(b'A'));
    assert_eq!(key_action(PhysKey::A, None, 1, true, false), KeyAction::Type(b'A'));
    assert_eq!(key_action(PhysKey::Num2, None, 0, true, false), KeyAction::Type(b'@'));
    assert_eq!(key_action(PhysKey::Num2, None, 1, true, false), KeyAction::Type(b'"'));
    assert_eq!(key_action(PhysKey::A, None, 0, false, true), KeyAction::Type(234));
    assert_eq!(key_action(PhysKey::Other, None, 0, false, false), KeyAction::Ignore);
}

#[test]
fn key_action_reads_the_physical_position() {
    // the logical key says `Z`, the physical position is the `A` key
    assert_eq!(key_action(PhysKey::Z, Some(PhysKey::A), 1, false, false), KeyAction::Type(b'A'));
}
