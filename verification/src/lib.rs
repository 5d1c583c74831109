//! IchigoJam BASIC machine core: error codes, keyboard tables, romaji-to-kana
//! input, the text screen editor, the PSG music player and the helpers that
//! the host front ends share.

pub mod errors;
pub mod romajikana;
pub mod ram;
pub mod keycodes;
pub mod machine;
pub mod memory;
pub mod keys;
pub mod print;
pub mod draw;
pub mod desktop;
pub mod edit;
pub mod renum;
pub mod scan;
pub mod files;
pub mod funcs;
pub mod render;
pub mod screen;
pub mod keymap;
pub mod psg;
pub mod sin;
pub mod expr;
pub mod text;
pub mod session;
pub mod storage;
pub mod web;

pub use errors::BasicError;
