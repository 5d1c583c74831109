//! Pieces of the host session shared by the front ends: the function-key
//! bindings and the editing control codes.

use vstd::prelude::*;

use crate::keycodes as kc;

verus! {

/// The command that F`n` types (F1 = 1 .. F9 = 9) and whether it runs at
/// once (otherwise the cursor stays after it for an argument).
pub open spec fn spec_fkey_binding(n: u8) -> Option<(Seq<char>, bool)> {
    if n == 1 { Some(("CLS"@, true)) }
    else if n == 2 { Some(("LOAD"@, false)) }
    else if n == 3 { Some(("SAVE"@, false)) }
    else if n == 4 { Some(("LIST"@, true)) }
    else if n == 5 { Some(("RUN"@, true)) }
    else if n == 6 { Some(("?FREE()"@, true)) }
    else if n == 7 { Some(("?VER()"@, true)) }
    else if n == 8 { Some(("VIDEO"@, false)) }
    else if n == 9 { Some(("FILES"@, true)) }
    else { None }
}

/// The F-key binding of key number `n` (F1 = 1 .. F9 = 9).
pub fn fkey_binding(n: u8) -> (r: Option<(&'static str, bool)>)
    ensures
        r is Some <==> 1 <= n <= 9,
        r is Some ==> (r.unwrap().0@, r.unwrap().1) == spec_fkey_binding(n)->0,
{
    match n {
        1 => Some(("CLS", true)),
        2 => Some(("LOAD", false)),
        3 => Some(("SAVE", false)),
        4 => Some(("LIST", true)),
        5 => Some(("RUN", true)),
        6 => Some(("?FREE()", true)),
        7 => Some(("?VER()", true)),
        8 => Some(("VIDEO", false)),
        9 => Some(("FILES", true)),
        _ => None,
    }
}

/// The editing control codes of the keymap.
pub open spec fn spec_is_edit_control_code(c: u8) -> bool {
    c == kc::BACKSPACE || c == kc::DELETE || c == kc::CURSOR_LEFT || c == kc::CURSOR_RIGHT
        || c == kc::CURSOR_UP || c == kc::CURSOR_DOWN || c == kc::TAB || c == kc::HOME
        || c == kc::END || c == kc::PAGE_UP || c == kc::PAGE_DOWN || c == kc::INSERT_TOGGLE
        || c == kc::LINE_SPLIT
}

/// The keymap results that drive REPL editing (through `input_control`).
pub fn is_edit_control_code(c: u8) -> (r: bool)
    ensures
        r == spec_is_edit_control_code(c),
{
    c == kc::BACKSPACE || c == kc::DELETE || c == kc::CURSOR_LEFT || c == kc::CURSOR_RIGHT
        || c == kc::CURSOR_UP || c == kc::CURSOR_DOWN || c == kc::TAB || c == kc::HOME
        || c == kc::END || c == kc::PAGE_UP || c == kc::PAGE_DOWN || c == kc::INSERT_TOGGLE
        || c == kc::LINE_SPLIT
}

} // verus!
