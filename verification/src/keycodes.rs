//! Control and key codes shared by the screen editor, the host keyboard and `BTN()`.

use vstd::prelude::*;

verus! {

/// Cursor left.
pub const CURSOR_LEFT: u8 = 28;
/// Cursor right.
pub const CURSOR_RIGHT: u8 = 29;
/// Cursor up.
pub const CURSOR_UP: u8 = 30;
/// Cursor down.
pub const CURSOR_DOWN: u8 = 31;
/// Space.
pub const SPACE: u8 = 32;
/// Backspace: step back one cell and close the gap.
pub const BACKSPACE: u8 = 8;
/// Delete: close the gap at the cursor.
pub const DELETE: u8 = 127;
/// Tab.
pub const TAB: u8 = 9;
/// Line start (Home).
pub const HOME: u8 = 18;
/// Line end (End).
pub const END: u8 = 23;
/// Screen top (PageUp).
pub const PAGE_UP: u8 = 19;
/// Screen bottom (PageDown).
pub const PAGE_DOWN: u8 = 20;
/// Form feed: clear from the cursor to the end of the screen.
pub const FORM_FEED: u8 = 12;
/// Kana mode toggle.
pub const KANA_TOGGLE: u8 = 15;
/// Insert / overwrite toggle.
pub const INSERT_TOGGLE: u8 = 17;
/// Line split (handled as a new line).
pub const LINE_SPLIT: u8 = 16;
/// Starts a LOCATE sequence: the next two characters are coordinates.
pub const LOCATE_PREFIX: u8 = 21;
/// The X key, the default stand-in for the board button in `BTN()`.
pub const KEY_X: u8 = 88;

} // verus!
