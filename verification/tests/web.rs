use ichigocrate::keycodes as kc;
use ichigocrate::storage::Storage;
use ichigocrate::web::keymap::{code_to_btn_code, code_to_hid, fkey_binding, is_edit_control_code};
use ichigocrate::web::output::{detect_scroll, screen_char};
use ichigocrate::web::storage::WebStorage;

#[test]
fn code_to_hid_matches_physical_positions() {
    assert_eq!(code_to_hid("KeyA", 1), Some(0x04));
    assert_eq!(code_to_hid("KeyZ", 1), Some(0x1d));
    assert_eq!(code_to_hid("Digit2", 1), Some(0x1f));
    assert_eq!(code_to_hid("Digit0", 1), Some(0x27));
    assert_eq!(code_to_hid("BracketLeft", 1), Some(0x2f));
    assert_eq!(code_to_hid("ArrowLeft", 1), Some(0x50));
    assert_eq!(code_to_hid("Enter", 1), None);
}

#[test]
fn code_to_hid_backslash_depends_on_keyboard_id() {
    assert_eq!(code_to_hid("Backslash", 0), Some(0x31));
    assert_eq!(code_to_hid("Backslash", 1), Some(0x32));
}

#[test]
fn btn_code_maps_letters_digits_and_arrows() {
    assert_eq!(code_to_btn_code("KeyX"), Some(b'X'));
    assert_eq!(code_to_btn_code("Digit0"), Some(b'0'));
    assert_eq!(code_to_btn_code("ArrowLeft"), Some(kc::CURSOR_LEFT));
    assert_eq!(code_to_btn_code("Space"), Some(kc::SPACE));
    assert_eq!(code_to_btn_code("Enter"), None);
}

#[test]
fn detect_scroll_finds_single_and_multi_line_shift() {
    let cols = 4;
    let rows = 3;
    let prev = b"AAAABBBBCCCC".to_vec();
    let mut cur = b"BBBBCCCC????".to_vec();
    assert_eq!(detect_scroll(&prev, &cur, cols, rows), 1);
    assert_eq!(detect_scroll(&prev, &prev, cols, rows), 0);
    cur = b"CCCC????????".to_vec();
    assert_eq!(detect_scroll(&prev, &cur, cols, rows), 2);
}

#[test]
fn web_storage_volatile_roundtrip() {
    let mut s = WebStorage::new("test-".into(), false);
    assert!(s.save(3, &[1, 2, 3, 4]));
    let mut buf = [0u8; 8];
    assert_eq!(s.load(3, &mut buf), Some(4));
    assert_eq!(&buf[..4], &[1, 2, 3, 4]);
    assert_eq!(&buf[4..], &[0, 0, 0, 0]);
    assert_eq!(s.load(9, &mut buf), None);
}

#[test]
fn web_storage_keys_are_prefixed_slot_numbers() {
    let s = WebStorage::new("ij-".into(), false);
    assert_eq!(s.key(0), "ij-slot_00");
    assert_eq!(s.key(12), "ij-slot_12");
    assert_eq!(s.key(200), "ij-slot_200");
}

#[test]
fn web_storage_peek_and_slot_count() {
    let mut s = WebStorage::new("p-".into(), false);
    assert!(s.save(1, &[10, 0, 4, 65, 66, 0]));
    let mut buf = [9u8; 4];
    assert_eq!(s.peek(1, &mut buf), Some(4));
    assert_eq!(buf, [10, 0, 4, 65]);
    assert_eq!(s.slot_count(), 16);
}

#[test]
fn encoded_slots_round_trip_through_base64() {
    let text = WebStorage::encode_slot(&[1, 2, 3, 250]);
    assert_eq!(text, "AQID+g==");
    let mut buf = [0u8; 6];
    assert_eq!(WebStorage::load_encoded(&text, &mut buf), Some(4));
    assert_eq!(buf, [1, 2, 3, 250, 0, 0]);
    assert_eq!(WebStorage::load_encoded("not base64!", &mut buf), None);
}

#[test]
fn web_fkeys_and_edit_codes() {
    assert_eq!(fkey_binding("F1"), Some(("CLS", true)));
    assert_eq!(fkey_binding("F2"), Some(("LOAD", false)));
    assert_eq!(fkey_binding("Enter"), None);
    assert!(is_edit_control_code(kc::BACKSPACE));
    assert!(!is_edit_control_code(b'A'));
}

#[test]
fn screen_chars_for_the_text_view() {
    assert_eq!(screen_char(b'A'), 'A');
    assert_eq!(screen_char(0), ' ');
}

use ichigocrate::web::input::{fkey_number, web_key_action, WebKeyAction};
use ichigocrate::web::output::output_chunk;

#[test]
fn function_key_numbers_parse_like_u8() {
    assert_eq!(fkey_number("F1"), Some(1));
    assert_eq!(fkey_number("F9"), Some(9));
    assert_eq!(fkey_number("F10"), None);
    assert_eq!(fkey_number("F0"), None);
    assert_eq!(fkey_number("F"), None);
    assert_eq!(fkey_number("F+3"), Some(3));
    assert_eq!(fkey_number("F03"), Some(3));
    assert_eq!(fkey_number("KeyF"), None);
    assert_eq!(fkey_number("F1x"), None);
}

#[test]
fn web_key_events_decide_what_happens() {
    assert_eq!(web_key_action("Enter", 1, false, false), WebKeyAction::Enter);
    assert_eq!(web_key_action("NumpadEnter", 1, false, false), WebKeyAction::Enter);
    assert_eq!(web_key_action("Escape", 1, false, false), WebKeyAction::Escape);
    assert_eq!(web_key_action("F10", 1, false, false), WebKeyAction::ToggleKana);
    assert_eq!(web_key_action("F5", 1, false, false), WebKeyAction::FunctionKey(5));
    assert_eq!(web_key_action("KeyA", 1, false, false), WebKeyAction::Type(b'A'));
    assert_eq!(web_key_action("Digit2", 0, true, false), WebKeyAction::Type(b'@'));
    assert_eq!(web_key_action("Digit2", 1, true, false), WebKeyAction::Type(b'"'));
    assert_eq!(web_key_action("MetaLeft", 1, false, false), WebKeyAction::Ignore);
}

#[test]
fn output_chunks_follow_the_cursor() {
    let cols = 4;
    let rows = 3;
    let prev = vec![0u8; 12];
    // "AB" printed on row 0, cursor moved to row 1
    let mut cur = vec![0u8; 12];
    cur[0] = b'A';
    cur[1] = b'B';
    let (chunk, x, y) = output_chunk(&prev, &cur, cols, rows, 0, 1, 0, 0);
    assert_eq!(chunk.iter().collect::<String>(), "AB\n");
    assert_eq!((x, y), (0, 1));
    // nothing new when the cursor stays
    let (chunk, _, _) = output_chunk(&cur, &cur, cols, rows, 0, 1, 0, 1);
    assert!(chunk.is_empty());
    // text on the cursor row up to the cursor
    let mut next = cur.clone();
    next[4] = b'C';
    let (chunk, x, y) = output_chunk(&cur, &next, cols, rows, 1, 1, 0, 1);
    assert_eq!(chunk.iter().collect::<String>(), "C");
    assert_eq!((x, y), (1, 1));
}

#[test]
fn only_backslash_depends_on_the_layout() {
    assert_eq!(code_to_hid("Backslash", 0), Some(0x31));
    assert_eq!(code_to_hid("Backslash", 1), Some(0x32));
    assert_eq!(code_to_hid("KeyQ", 0), code_to_hid("KeyQ", 1));
    for id in [0u8, 1] {
        for code in ["KeyA", "Digit0", "Backslash", "Slash", "ArrowUp", "Space"] {
            let h = code_to_hid(code, id).unwrap();
            assert!(h < 128);
            assert_ne!(ichigocrate::keymap::lookup(id, h, false, false), 0);
        }
    }
}
