//! `KeyboardEvent.code` strings to the codes that IchigoJam understands.
//!
//! Keys are looked up by physical position so that the `KBD` US/JA switch
//! works whatever layout the operating system uses.

use vstd::prelude::*;

use crate::keycodes as kc;
use crate::text::str_equals;

verus! {

/// The control codes from the keymap that drive REPL editing (they go through
/// `input_control`).
pub fn is_edit_control_code(c: u8) -> (r: bool)
    ensures
        r == crate::session::spec_is_edit_control_code(c),
{
    c == kc::BACKSPACE || c == kc::DELETE || c == kc::CURSOR_LEFT || c == kc::CURSOR_RIGHT
        || c == kc::CURSOR_UP || c == kc::CURSOR_DOWN || c == kc::TAB || c == kc::HOME
        || c == kc::END || c == kc::PAGE_UP || c == kc::PAGE_DOWN || c == kc::INSERT_TOGGLE
        || c == kc::LINE_SPLIT
}

/// The command that function key `code` ("F1".."F9") types, and whether it runs at once.
pub open spec fn spec_fkey_code_binding(code: Seq<char>) -> Option<(Seq<char>, bool)> {
    if code == "F1"@ { crate::session::spec_fkey_binding(1) }
    else if code == "F2"@ { crate::session::spec_fkey_binding(2) }
    else if code == "F3"@ { crate::session::spec_fkey_binding(3) }
    else if code == "F4"@ { crate::session::spec_fkey_binding(4) }
    else if code == "F5"@ { crate::session::spec_fkey_binding(5) }
    else if code == "F6"@ { crate::session::spec_fkey_binding(6) }
    else if code == "F7"@ { crate::session::spec_fkey_binding(7) }
    else if code == "F8"@ { crate::session::spec_fkey_binding(8) }
    else if code == "F9"@ { crate::session::spec_fkey_binding(9) }
    else { None }
}

/// The F1-F9 bindings by `KeyboardEvent.code`.
pub fn fkey_binding(code: &str) -> (r: Option<(&'static str, bool)>)
    ensures
        r is Some <==> spec_fkey_code_binding(code@) is Some,
        r is Some ==> (r.unwrap().0@, r.unwrap().1) == spec_fkey_code_binding(code@)->0,
{
    let n: u8 = if str_equals(code, "F1") { 1 }
        else if str_equals(code, "F2") { 2 }
        else if str_equals(code, "F3") { 3 }
        else if str_equals(code, "F4") { 4 }
        else if str_equals(code, "F5") { 5 }
        else if str_equals(code, "F6") { 6 }
        else if str_equals(code, "F7") { 7 }
        else if str_equals(code, "F8") { 8 }
        else if str_equals(code, "F9") { 9 }
        else { 0 };
    crate::session::fkey_binding(n)
}

pub open spec fn spec_code_to_hid(code: Seq<char>, keyboard_id: u8) -> Option<u8> {
    if code == "KeyA"@ { Some(0x04u8) }
    else if code == "KeyB"@ { Some(0x05u8) }
    else if code == "KeyC"@ { Some(0x06u8) }
    else if code == "KeyD"@ { Some(0x07u8) }
    else if code == "KeyE"@ { Some(0x08u8) }
    else if code == "KeyF"@ { Some(0x09u8) }
    else if code == "KeyG"@ { Some(0x0au8) }
    else if code == "KeyH"@ { Some(0x0bu8) }
    else if code == "KeyI"@ { Some(0x0cu8) }
    else if code == "KeyJ"@ { Some(0x0du8) }
    else if code == "KeyK"@ { Some(0x0eu8) }
    else if code == "KeyL"@ { Some(0x0fu8) }
    else if code == "KeyM"@ { Some(0x10u8) }
    else if code == "KeyN"@ { Some(0x11u8) }
    else if code == "KeyO"@ { Some(0x12u8) }
    else if code == "KeyP"@ { Some(0x13u8) }
    else if code == "KeyQ"@ { Some(0x14u8) }
    else if code == "KeyR"@ { Some(0x15u8) }
    else if code == "KeyS"@ { Some(0x16u8) }
    else if code == "KeyT"@ { Some(0x17u8) }
    else if code == "KeyU"@ { Some(0x18u8) }
    else if code == "KeyV"@ { Some(0x19u8) }
    else if code == "KeyW"@ { Some(0x1au8) }
    else if code == "KeyX"@ { Some(0x1bu8) }
    else if code == "KeyY"@ { Some(0x1cu8) }
    else if code == "KeyZ"@ { Some(0x1du8) }
    else if code == "Digit1"@ { Some(0x1eu8) }
    else if code == "Digit2"@ { Some(0x1fu8) }
    else if code == "Digit3"@ { Some(0x20u8) }
    else if code == "Digit4"@ { Some(0x21u8) }
    else if code == "Digit5"@ { Some(0x22u8) }
    else if code == "Digit6"@ { Some(0x23u8) }
    else if code == "Digit7"@ { Some(0x24u8) }
    else if code == "Digit8"@ { Some(0x25u8) }
    else if code == "Digit9"@ { Some(0x26u8) }
    else if code == "Digit0"@ { Some(0x27u8) }
    else if code == "Backspace"@ { Some(0x2au8) }
    else if code == "Tab"@ { Some(0x2bu8) }
    else if code == "Space"@ { Some(0x2cu8) }
    else if code == "Minus"@ { Some(0x2du8) }
    else if code == "Equal"@ { Some(0x2eu8) }
    else if code == "BracketLeft"@ { Some(0x2fu8) }
    else if code == "BracketRight"@ { Some(0x30u8) }
    else if code == "Backslash"@ { Some(if keyboard_id == 0 { 0x31u8 } else { 0x32u8 }) }
    else if code == "Semicolon"@ { Some(0x33u8) }
    else if code == "Quote"@ { Some(0x34u8) }
    else if code == "Backquote"@ { Some(0x35u8) }
    else if code == "Comma"@ { Some(0x36u8) }
    else if code == "Period"@ { Some(0x37u8) }
    else if code == "Slash"@ { Some(0x38u8) }
    else if code == "Insert"@ { Some(0x49u8) }
    else if code == "Home"@ { Some(0x4au8) }
    else if code == "PageUp"@ { Some(0x4bu8) }
    else if code == "Delete"@ { Some(0x4cu8) }
    else if code == "End"@ { Some(0x4du8) }
    else if code == "PageDown"@ { Some(0x4eu8) }
    else if code == "ArrowRight"@ { Some(0x4fu8) }
    else if code == "ArrowLeft"@ { Some(0x50u8) }
    else if code == "ArrowDown"@ { Some(0x51u8) }
    else if code == "ArrowUp"@ { Some(0x52u8) }
    else { None }
}

/// `KeyboardEvent.code` to the USB HID usage ID of the key. "Backslash" names
/// both the US `\` key and the JIS `]` key, so the layout decides.
pub fn code_to_hid(code: &str, keyboard_id: u8) -> (r: Option<u8>)
    ensures
        r == spec_code_to_hid(code@, keyboard_id),
{
    if str_equals(code, "KeyA") { Some(0x04) }
    else if str_equals(code, "KeyB") { Some(0x05) }
    else if str_equals(code, "KeyC") { Some(0x06) }
    else if str_equals(code, "KeyD") { Some(0x07) }
    else if str_equals(code, "KeyE") { Some(0x08) }
    else if str_equals(code, "KeyF") { Some(0x09) }
    else if str_equals(code, "KeyG") { Some(0x0a) }
    else if str_equals(code, "KeyH") { Some(0x0b) }
    else if str_equals(code, "KeyI") { Some(0x0c) }
    else if str_equals(code, "KeyJ") { Some(0x0d) }
    else if str_equals(code, "KeyK") { Some(0x0e) }
    else if str_equals(code, "KeyL") { Some(0x0f) }
    else if str_equals(code, "KeyM") { Some(0x10) }
    else if str_equals(code, "KeyN") { Some(0x11) }
    else if str_equals(code, "KeyO") { Some(0x12) }
    else if str_equals(code, "KeyP") { Some(0x13) }
    else if str_equals(code, "KeyQ") { Some(0x14) }
    else if str_equals(code, "KeyR") { Some(0x15) }
    else if str_equals(code, "KeyS") { Some(0x16) }
    else if str_equals(code, "KeyT") { Some(0x17) }
    else if str_equals(code, "KeyU") { Some(0x18) }
    else if str_equals(code, "KeyV") { Some(0x19) }
    else if str_equals(code, "KeyW") { Some(0x1a) }
    else if str_equals(code, "KeyX") { Some(0x1b) }
    else if str_equals(code, "KeyY") { Some(0x1c) }
    else if str_equals(code, "KeyZ") { Some(0x1d) }
    else if str_equals(code, "Digit1") { Some(0x1e) }
    else if str_equals(code, "Digit2") { Some(0x1f) }
    else if str_equals(code, "Digit3") { Some(0x20) }
    else if str_equals(code, "Digit4") { Some(0x21) }
    else if str_equals(code, "Digit5") { Some(0x22) }
    else if str_equals(code, "Digit6") { Some(0x23) }
    else if str_equals(code, "Digit7") { Some(0x24) }
    else if str_equals(code, "Digit8") { Some(0x25) }
    else if str_equals(code, "Digit9") { Some(0x26) }
    else if str_equals(code, "Digit0") { Some(0x27) }
    else if str_equals(code, "Backspace") { Some(0x2a) }
    else if str_equals(code, "Tab") { Some(0x2b) }
    else if str_equals(code, "Space") { Some(0x2c) }
    else if str_equals(code, "Minus") { Some(0x2d) }
    else if str_equals(code, "Equal") { Some(0x2e) }
    else if str_equals(code, "BracketLeft") { Some(0x2f) }
    else if str_equals(code, "BracketRight") { Some(0x30) }
    else if str_equals(code, "Backslash") { Some(if keyboard_id == 0 { 0x31 } else { 0x32 }) }
    else if str_equals(code, "Semicolon") { Some(0x33) }
    else if str_equals(code, "Quote") { Some(0x34) }
    else if str_equals(code, "Backquote") { Some(0x35) }
    else if str_equals(code, "Comma") { Some(0x36) }
    else if str_equals(code, "Period") { Some(0x37) }
    else if str_equals(code, "Slash") { Some(0x38) }
    else if str_equals(code, "Insert") { Some(0x49) }
    else if str_equals(code, "Home") { Some(0x4a) }
    else if str_equals(code, "PageUp") { Some(0x4b) }
    else if str_equals(code, "Delete") { Some(0x4c) }
    else if str_equals(code, "End") { Some(0x4d) }
    else if str_equals(code, "PageDown") { Some(0x4e) }
    else if str_equals(code, "ArrowRight") { Some(0x4f) }
    else if str_equals(code, "ArrowLeft") { Some(0x50) }
    else if str_equals(code, "ArrowDown") { Some(0x51) }
    else if str_equals(code, "ArrowUp") { Some(0x52) }
    else { None }
}

/// The code that `BTN()` reads for a key: the arrows and space, and the
/// letters and digits as their own ASCII code.
pub open spec fn spec_code_to_btn_code(code: Seq<char>) -> Option<u8> {
    if code == "ArrowLeft"@ { Some(kc::CURSOR_LEFT) }
    else if code == "ArrowRight"@ { Some(kc::CURSOR_RIGHT) }
    else if code == "ArrowUp"@ { Some(kc::CURSOR_UP) }
    else if code == "ArrowDown"@ { Some(kc::CURSOR_DOWN) }
    else if code == "Space"@ { Some(kc::SPACE) }
    else if code.len() == 4 && code.subrange(0, 3) == "Key"@ && 'A' <= code[3] <= 'Z' { Some(code[3] as u8) }
    else if code.len() == 6 && code.subrange(0, 5) == "Digit"@ && '0' <= code[5] <= '9' { Some(code[5] as u8) }
    else { None }
}

/// `KeyboardEvent.code` to the code that `BTN()` reads.
pub fn code_to_btn_code(code: &str) -> (r: Option<u8>)
    ensures
        r == spec_code_to_btn_code(code@),
{
    if str_equals(code, "ArrowLeft") {
        return Some(kc::CURSOR_LEFT);
    }
    if str_equals(code, "ArrowRight") {
        return Some(kc::CURSOR_RIGHT);
    }
    if str_equals(code, "ArrowUp") {
        return Some(kc::CURSOR_UP);
    }
    if str_equals(code, "ArrowDown") {
        return Some(kc::CURSOR_DOWN);
    }
    if str_equals(code, "Space") {
        return Some(kc::SPACE);
    }
    let n = code.unicode_len();
    if n == 4 && str_equals(code.substring_char(0, 3), "Key") {
        let c = code.get_char(3);
        if 'A' <= c && c <= 'Z' {
            return Some(c as u8);
        }
    }
    if n == 6 && str_equals(code.substring_char(0, 5), "Digit") {
        let c = code.get_char(5);
        if '0' <= c && c <= '9' {
            return Some(c as u8);
        }
    }
    None
}

/// Only the "Backslash" code depends on the layout, and every code that
/// names a key names one that types something in the selected layout.
pub proof fn lemma_code_to_hid_layouts(code: Seq<char>, a: u8, b: u8)
    ensures
        code != "Backslash"@ ==> spec_code_to_hid(code, a) == spec_code_to_hid(code, b),
        spec_code_to_hid(code, a) matches Some(h) ==> h < 128 && crate::keymap::keymap_entry(a, h, 0) != 0,
{
}

} // verus!
