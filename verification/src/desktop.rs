//! The desktop front end's keyboard decisions: which physical key is which
//! HID usage, which keys the host handles itself, which keys stand in for
//! BTN(), and what one key press does.

use vstd::prelude::*;

use crate::keycodes::{CURSOR_DOWN, CURSOR_LEFT, CURSOR_RIGHT, CURSOR_UP, SPACE};
use crate::keymap::keymap_entry;
use crate::romajikana::fold_upper;

verus! {

/// A key of the desktop keyboard, by its physical position (named as on a
/// US layout); `Other` for any key the machine does not use.
#[derive(Clone, Copy, Debug, PartialEq, Eq, Structural)]
pub enum PhysKey {
    ArrowDown,
    ArrowLeft,
    ArrowRight,
    ArrowUp,
    Escape,
    Tab,
    Backspace,
    Enter,
    Space,
    Insert,
    Delete,
    Home,
    End,
    PageUp,
    PageDown,
    Colon,
    Comma,
    Backslash,
    Slash,
    Pipe,
    Questionmark,
    OpenBracket,
    CloseBracket,
    Backtick,
    Minus,
    Period,
    Plus,
    Equals,
    Semicolon,
    Quote,
    Num0,
    Num1,
    Num2,
    Num3,
    Num4,
    Num5,
    Num6,
    Num7,
    Num8,
    Num9,
    A,
    B,
    C,
    D,
    E,
    F,
    G,
    H,
    I,
    J,
    K,
    L,
    M,
    N,
    O,
    P,
    Q,
    R,
    S,
    T,
    U,
    V,
    W,
    X,
    Y,
    Z,
    F1,
    F2,
    F3,
    F4,
    F5,
    F6,
    F7,
    F8,
    F9,
    F10,
    F11,
    F12,
    Other,
}

/// The USB HID usage of a physical key. The key that is `\` on US boards and
/// `]` on JIS boards is reported alike by both, so the layout in use
/// (`keyboard_id`) decides; the Yen / pipe key is always 0x31.
pub open spec fn spec_egui_key_to_hid(k: PhysKey, keyboard_id: u8) -> Option<u8> {
    match k {
        PhysKey::ArrowDown => Some(0x51u8),
        PhysKey::ArrowLeft => Some(0x50u8),
        PhysKey::ArrowRight => Some(0x4fu8),
        PhysKey::ArrowUp => Some(0x52u8),
        PhysKey::Tab => Some(0x2bu8),
        PhysKey::Backspace => Some(0x2au8),
        PhysKey::Space => Some(0x2cu8),
        PhysKey::Insert => Some(0x49u8),
        PhysKey::Delete => Some(0x4cu8),
        PhysKey::Home => Some(0x4au8),
        PhysKey::End => Some(0x4du8),
        PhysKey::PageUp => Some(0x4bu8),
        PhysKey::PageDown => Some(0x4eu8),
        PhysKey::Colon => Some(0x33u8),
        PhysKey::Comma => Some(0x36u8),
        PhysKey::Backslash => if keyboard_id == 0 { Some(0x31u8) } else { Some(0x32u8) },
        PhysKey::Slash => Some(0x38u8),
        PhysKey::Pipe => Some(0x31u8),
        PhysKey::Questionmark => Some(0x38u8),
        PhysKey::OpenBracket => Some(0x2fu8),
        PhysKey::CloseBracket => Some(0x30u8),
        PhysKey::Backtick => Some(0x35u8),
        PhysKey::Minus => Some(0x2du8),
        PhysKey::Period => Some(0x37u8),
        PhysKey::Plus => Some(0x2eu8),
        PhysKey::Equals => Some(0x2eu8),
        PhysKey::Semicolon => Some(0x33u8),
        PhysKey::Quote => Some(0x34u8),
        PhysKey::Num0 => Some(0x27u8),
        PhysKey::Num1 => Some(0x1eu8),
        PhysKey::Num2 => Some(0x1fu8),
        PhysKey::Num3 => Some(0x20u8),
        PhysKey::Num4 => Some(0x21u8),
        PhysKey::Num5 => Some(0x22u8),
        PhysKey::Num6 => Some(0x23u8),
        PhysKey::Num7 => Some(0x24u8),
        PhysKey::Num8 => Some(0x25u8),
        PhysKey::Num9 => Some(0x26u8),
        PhysKey::A => Some(0x04u8),
        PhysKey::B => Some(0x05u8),
        PhysKey::C => Some(0x06u8),
        PhysKey::D => Some(0x07u8),
        PhysKey::E => Some(0x08u8),
        PhysKey::F => Some(0x09u8),
        PhysKey::G => Some(0x0au8),
        PhysKey::H => Some(0x0bu8),
        PhysKey::I => Some(0x0cu8),
        PhysKey::J => Some(0x0du8),
        PhysKey::K => Some(0x0eu8),
        PhysKey::L => Some(0x0fu8),
        PhysKey::M => Some(0x10u8),
        PhysKey::N => Some(0x11u8),
        PhysKey::O => Some(0x12u8),
        PhysKey::P => Some(0x13u8),
        PhysKey::Q => Some(0x14u8),
        PhysKey::R => Some(0x15u8),
        PhysKey::S => Some(0x16u8),
        PhysKey::T => Some(0x17u8),
        PhysKey::U => Some(0x18u8),
        PhysKey::V => Some(0x19u8),
        PhysKey::W => Some(0x1au8),
        PhysKey::X => Some(0x1bu8),
        PhysKey::Y => Some(0x1cu8),
        PhysKey::Z => Some(0x1du8),
        _ => None,
    }
}

/// Escape and the function keys go to the host, not to the keymap.
pub open spec fn spec_is_host_reserved_key(k: PhysKey) -> bool {
    match k {
        PhysKey::Escape | PhysKey::F1 | PhysKey::F2 | PhysKey::F3 | PhysKey::F4 | PhysKey::F5
        | PhysKey::F6 | PhysKey::F7 | PhysKey::F8 | PhysKey::F9 | PhysKey::F10 | PhysKey::F11
        | PhysKey::F12 => true,
        _ => false,
    }
}

/// The ASCII code under which `BTN()` sees a key: arrows 28-31, space 32,
/// letters by their capital, digits by their digit.
pub open spec fn spec_key_to_btn_code(k: PhysKey) -> Option<u8> {
    match k {
        PhysKey::ArrowLeft => Some(CURSOR_LEFT),
        PhysKey::ArrowRight => Some(CURSOR_RIGHT),
        PhysKey::ArrowUp => Some(CURSOR_UP),
        PhysKey::ArrowDown => Some(CURSOR_DOWN),
        PhysKey::Space => Some(SPACE),
        PhysKey::Num0 => Some(48u8),
        PhysKey::Num1 => Some(49u8),
        PhysKey::Num2 => Some(50u8),
        PhysKey::Num3 => Some(51u8),
        PhysKey::Num4 => Some(52u8),
        PhysKey::Num5 => Some(53u8),
        PhysKey::Num6 => Some(54u8),
        PhysKey::Num7 => Some(55u8),
        PhysKey::Num8 => Some(56u8),
        PhysKey::Num9 => Some(57u8),
        PhysKey::A => Some(65u8),
        PhysKey::B => Some(66u8),
        PhysKey::C => Some(67u8),
        PhysKey::D => Some(68u8),
        PhysKey::E => Some(69u8),
        PhysKey::F => Some(70u8),
        PhysKey::G => Some(71u8),
        PhysKey::H => Some(72u8),
        PhysKey::I => Some(73u8),
        PhysKey::J => Some(74u8),
        PhysKey::K => Some(75u8),
        PhysKey::L => Some(76u8),
        PhysKey::M => Some(77u8),
        PhysKey::N => Some(78u8),
        PhysKey::O => Some(79u8),
        PhysKey::P => Some(80u8),
        PhysKey::Q => Some(81u8),
        PhysKey::R => Some(82u8),
        PhysKey::S => Some(83u8),
        PhysKey::T => Some(84u8),
        PhysKey::U => Some(85u8),
        PhysKey::V => Some(86u8),
        PhysKey::W => Some(87u8),
        PhysKey::X => Some(88u8),
        PhysKey::Y => Some(89u8),
        PhysKey::Z => Some(90u8),
        _ => None,
    }
}

/// What one key press does in the desktop front end.
#[derive(Clone, Copy, Debug, PartialEq, Eq, Structural)]
pub enum KeyAction {
    /// Enter: the session takes the line (or the `INPUT` answer).
    Enter,
    /// Nothing is typed (host keys, unmapped keys, keys that type nothing).
    Ignore,
    /// This character is typed.
    Type(u8),
}

/// The key press `key` (its physical position `physical` when the platform
/// reports it): Enter and the host keys first, else the layout's character,
/// with letters always in capitals.
pub open spec fn spec_key_action(key: PhysKey, physical: Option<PhysKey>, keyboard_id: u8, shift: bool, alt: bool) -> KeyAction {
    let phys = match physical { Some(p) => p, None => key };
    if key == PhysKey::Enter {
        KeyAction::Enter
    } else if spec_is_host_reserved_key(key) {
        KeyAction::Ignore
    } else {
        match spec_egui_key_to_hid(phys, keyboard_id) {
            None => KeyAction::Ignore,
            Some(hid) => {
                let c = keymap_entry(keyboard_id, hid,
                    (if alt { 2int } else { 0int }) + (if shift { 1int } else { 0int }));
                if c == 0 { KeyAction::Ignore } else { KeyAction::Type(fold_upper(c)) }
            },
        }
    }
}

/// The USB HID usage of a physical key (see [`spec_egui_key_to_hid`]).
pub fn egui_key_to_hid(k: PhysKey, keyboard_id: u8) -> (r: Option<u8>)
    ensures
        r == spec_egui_key_to_hid(k, keyboard_id),
{
    match k {
        PhysKey::ArrowDown => Some(0x51u8),
        PhysKey::ArrowLeft => Some(0x50u8),
        PhysKey::ArrowRight => Some(0x4fu8),
        PhysKey::ArrowUp => Some(0x52u8),
        PhysKey::Tab => Some(0x2bu8),
        PhysKey::Backspace => Some(0x2au8),
        PhysKey::Space => Some(0x2cu8),
        PhysKey::Insert => Some(0x49u8),
        PhysKey::Delete => Some(0x4cu8),
        PhysKey::Home => Some(0x4au8),
        PhysKey::End => Some(0x4du8),
        PhysKey::PageUp => Some(0x4bu8),
        PhysKey::PageDown => Some(0x4eu8),
        PhysKey::Colon => Some(0x33u8),
        PhysKey::Comma => Some(0x36u8),
        PhysKey::Backslash => if keyboard_id == 0 { Some(0x31u8) } else { Some(0x32u8) },
        PhysKey::Slash => Some(0x38u8),
        PhysKey::Pipe => Some(0x31u8),
        PhysKey::Questionmark => Some(0x38u8),
        PhysKey::OpenBracket => Some(0x2fu8),
        PhysKey::CloseBracket => Some(0x30u8),
        PhysKey::Backtick => Some(0x35u8),
        PhysKey::Minus => Some(0x2du8),
        PhysKey::Period => Some(0x37u8),
        PhysKey::Plus => Some(0x2eu8),
        PhysKey::Equals => Some(0x2eu8),
        PhysKey::Semicolon => Some(0x33u8),
        PhysKey::Quote => Some(0x34u8),
        PhysKey::Num0 => Some(0x27u8),
        PhysKey::Num1 => Some(0x1eu8),
        PhysKey::Num2 => Some(0x1fu8),
        PhysKey::Num3 => Some(0x20u8),
        PhysKey::Num4 => Some(0x21u8),
        PhysKey::Num5 => Some(0x22u8),
        PhysKey::Num6 => Some(0x23u8),
        PhysKey::Num7 => Some(0x24u8),
        PhysKey::Num8 => Some(0x25u8),
        PhysKey::Num9 => Some(0x26u8),
        PhysKey::A => Some(0x04u8),
        PhysKey::B => Some(0x05u8),
        PhysKey::C => Some(0x06u8),
        PhysKey::D => Some(0x07u8),
        PhysKey::E => Some(0x08u8),
        PhysKey::F => Some(0x09u8),
        PhysKey::G => Some(0x0au8),
        PhysKey::H => Some(0x0bu8),
        PhysKey::I => Some(0x0cu8),
        PhysKey::J => Some(0x0du8),
        PhysKey::K => Some(0x0eu8),
        PhysKey::L => Some(0x0fu8),
        PhysKey::M => Some(0x10u8),
        PhysKey::N => Some(0x11u8),
        PhysKey::O => Some(0x12u8),
        PhysKey::P => Some(0x13u8),
        PhysKey::Q => Some(0x14u8),
        PhysKey::R => Some(0x15u8),
        PhysKey::S => Some(0x16u8),
        PhysKey::T => Some(0x17u8),
        PhysKey::U => Some(0x18u8),
        PhysKey::V => Some(0x19u8),
        PhysKey::W => Some(0x1au8),
        PhysKey::X => Some(0x1bu8),
        PhysKey::Y => Some(0x1cu8),
        PhysKey::Z => Some(0x1du8),
        _ => None,
    }
}

/// Escape and F1-F12 are the host's own keys.
pub fn is_host_reserved_key(k: PhysKey) -> (r: bool)
    ensures
        r == spec_is_host_reserved_key(k),
{
    match k {
        PhysKey::Escape | PhysKey::F1 | PhysKey::F2 | PhysKey::F3 | PhysKey::F4 | PhysKey::F5
        | PhysKey::F6 | PhysKey::F7 | PhysKey::F8 | PhysKey::F9 | PhysKey::F10 | PhysKey::F11
        | PhysKey::F12 => true,
        _ => false,
    }
}

/// The code under which `BTN()` sees a key (see [`spec_key_to_btn_code`]).
pub fn key_to_btn_code(k: PhysKey) -> (r: Option<u8>)
    ensures
        r == spec_key_to_btn_code(k),
{
    match k {
        PhysKey::ArrowLeft => Some(CURSOR_LEFT),
        PhysKey::ArrowRight => Some(CURSOR_RIGHT),
        PhysKey::ArrowUp => Some(CURSOR_UP),
        PhysKey::ArrowDown => Some(CURSOR_DOWN),
        PhysKey::Space => Some(SPACE),
        PhysKey::Num0 => Some(48u8),
        PhysKey::Num1 => Some(49u8),
        PhysKey::Num2 => Some(50u8),
        PhysKey::Num3 => Some(51u8),
        PhysKey::Num4 => Some(52u8),
        PhysKey::Num5 => Some(53u8),
        PhysKey::Num6 => Some(54u8),
        PhysKey::Num7 => Some(55u8),
        PhysKey::Num8 => Some(56u8),
        PhysKey::Num9 => Some(57u8),
        PhysKey::A => Some(65u8),
        PhysKey::B => Some(66u8),
        PhysKey::C => Some(67u8),
        PhysKey::D => Some(68u8),
        PhysKey::E => Some(69u8),
        PhysKey::F => Some(70u8),
        PhysKey::G => Some(71u8),
        PhysKey::H => Some(72u8),
        PhysKey::I => Some(73u8),
        PhysKey::J => Some(74u8),
        PhysKey::K => Some(75u8),
        PhysKey::L => Some(76u8),
        PhysKey::M => Some(77u8),
        PhysKey::N => Some(78u8),
        PhysKey::O => Some(79u8),
        PhysKey::P => Some(80u8),
        PhysKey::Q => Some(81u8),
        PhysKey::R => Some(82u8),
        PhysKey::S => Some(83u8),
        PhysKey::T => Some(84u8),
        PhysKey::U => Some(85u8),
        PhysKey::V => Some(86u8),
        PhysKey::W => Some(87u8),
        PhysKey::X => Some(88u8),
        PhysKey::Y => Some(89u8),
        PhysKey::Z => Some(90u8),
        _ => None,
    }
}

/// What a key press does (see [`spec_key_action`]).
pub fn key_action(key: PhysKey, physical: Option<PhysKey>, keyboard_id: u8, shift: bool, alt: bool) -> (r: KeyAction)
    ensures
        r == spec_key_action(key, physical, keyboard_id, shift, alt),
{
    if key == PhysKey::Enter {
        return KeyAction::Enter;
    }
    if is_host_reserved_key(key) {
        return KeyAction::Ignore;
    }
    let phys = match physical { Some(p) => p, None => key };
    match egui_key_to_hid(phys, keyboard_id) {
        None => KeyAction::Ignore,
        Some(hid) => {
            let c = crate::keymap::lookup(keyboard_id, hid, shift, alt);
            if c == 0 {
                KeyAction::Ignore
            } else {
                KeyAction::Type(crate::machine::basic_toupper(c))
            }
        },
    }
}

/// None of the host's own keys (Escape, F1-F12) has a HID usage, so they
/// never reach the keymap.
pub proof fn lemma_reserved_keys_have_no_usage(k: PhysKey, keyboard_id: u8)
    requires
        spec_is_host_reserved_key(k),
    ensures
        spec_egui_key_to_hid(k, keyboard_id) is None,
{
}

/// Only the bracket key next to Enter depends on the layout.
pub proof fn lemma_usage_layout_independent(k: PhysKey, a: u8, b: u8)
    requires
        k != PhysKey::Backslash,
    ensures
        spec_egui_key_to_hid(k, a) == spec_egui_key_to_hid(k, b),
{
}

} // verus!
