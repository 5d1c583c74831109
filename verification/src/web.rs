//! Logic of the browser front end: key event codes, the output stream
//! helpers and the save slots.

pub mod input;
pub mod keymap;
pub mod output;
pub mod storage;
