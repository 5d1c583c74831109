//! Save slots for SAVE / LOAD / FILES. Each host supplies an implementation.

use vstd::prelude::*;

use crate::web::storage::{digit_str, slot_digits};

verus! {

/// The file name of a save slot on disk: `slot_`, the slot number in at least
/// two digits, and `.ijb`.
pub fn slot_file_name(slot: u8) -> (r: String)
    ensures
        r@ == "slot_"@ + slot_digits(slot) + ".ijb"@,
{
    let mut s = String::from_str("slot_");
    if slot >= 100 {
        s.append(digit_str(slot / 100));
    }
    s.append(digit_str((slot / 10) % 10));
    s.append(digit_str(slot % 10));
    s.append(".ijb");
    proof {
        assert(s@ =~= "slot_"@ + slot_digits(slot) + ".ijb"@);
    }
    s
}

/// How many bytes a read into a buffer of `buf_len` bytes takes from a slot
/// that holds `data`: all of it, or as much as the buffer holds.
pub open spec fn read_len(data: Seq<u8>, buf_len: int) -> int {
    if data.len() < buf_len { data.len() as int } else { buf_len }
}

/// Host-side storage of program slots (a file per slot on the desktop, the
/// browser's localStorage on the web, memory in tests).
///
/// A slot holds a sequence of bytes or nothing ([`Storage::slot_bytes`]). A
/// host may fail any call; what a call that succeeds does is stated on it.
pub trait Storage {
    /// What `slot` holds: its bytes, or `None` for an empty slot. Hosts in
    /// this crate define it; a host written outside verified code cannot, and
    /// keeps this placeholder body, which Verus never applies to a generic
    /// `S: Storage` (so nothing proved here speaks of such a host's slots).
    closed spec fn slot_bytes(&self, slot: u8) -> Option<Seq<u8>> {
        None
    }

    /// Stores `data` in `slot`; `true` on success, and then the slot holds
    /// `data`.
    fn save(&mut self, slot: u8, data: &[u8]) -> (r: bool)
        ensures
            r ==> final(self).slot_bytes(slot) == Some(data@);

    /// Reads at most `buf.len()` bytes of `slot` into the start of `buf` and
    /// returns how many were read; `None` on failure (then `buf` holds
    /// anything). The slots keep what they hold.
    fn load(&mut self, slot: u8, buf: &mut [u8]) -> (r: Option<usize>)
        ensures
            forall|s: u8| #[trigger] final(self).slot_bytes(s) == old(self).slot_bytes(s),
            final(buf)@.len() == old(buf)@.len(),
            r is Some ==> old(self).slot_bytes(slot) is Some
                && r->0 == read_len(old(self).slot_bytes(slot)->0, old(buf)@.len() as int)
                && final(buf)@.subrange(0, r->0 as int) == old(self).slot_bytes(slot)->0.subrange(0, r->0 as int);

    /// For FILES: the first bytes of `slot`, read as `load` reads them.
    fn peek(&mut self, slot: u8, buf: &mut [u8]) -> (r: Option<usize>)
        ensures
            forall|s: u8| #[trigger] final(self).slot_bytes(s) == old(self).slot_bytes(s),
            final(buf)@.len() == old(buf)@.len(),
            r is Some ==> old(self).slot_bytes(slot) is Some
                && r->0 == read_len(old(self).slot_bytes(slot)->0, old(buf)@.len() as int)
                && final(buf)@.subrange(0, r->0 as int) == old(self).slot_bytes(slot)->0.subrange(0, r->0 as int);

    /// The number of slots (the default FILES range).
    fn slot_count(&self) -> u8;
}

} // verus!
