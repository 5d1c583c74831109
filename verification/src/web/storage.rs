//! Save slots of the browser front end.
//!
//! The slots live in memory here; the browser host keeps them in localStorage
//! (as base64 text under [`WebStorage::key`]) when it is asked to persist them
//! and the browser allows it.

use std::collections::HashMap;

use vstd::prelude::*;

use base64::Engine;

use crate::storage::Storage;

verus! {

/// The number of save slots (as on the IchigoJam board).
pub const SLOT_COUNT: u8 = 16;

/// The digits of a slot number, at least two ("03", "15", "123").
pub open spec fn slot_digits(slot: u8) -> Seq<char> {
    let d2 = ((48 + slot / 100) as char);
    let d1 = ((48 + (slot / 10) % 10) as char);
    let d0 = ((48 + slot % 10) as char);
    if slot >= 100 { seq![d2, d1, d0] } else { seq![d1, d0] }
}

/// The bytes that a load of `data` leaves in a buffer of length `n`: as many
/// as fit, then zeros (so that a program list read back is terminated).
pub open spec fn filled(data: Seq<u8>, n: int) -> Seq<u8> {
    Seq::new(n as nat, |i: int| if i < data.len() { data[i] } else { 0u8 })
}

/// Slot storage keyed by slot number.
#[derive(Debug)]
pub struct WebStorage {
    pub prefix: String,
    pub is_persistent: bool,
    pub mem: HashMap<u8, Vec<u8>>,
}

pub(crate) fn digit_str(d: u8) -> (r: &'static str)
    requires
        d < 10,
    ensures
        r@ == seq![((48 + d) as char)],
{
    proof {
        reveal_strlit("0");
        reveal_strlit("1");
        reveal_strlit("2");
        reveal_strlit("3");
        reveal_strlit("4");
        reveal_strlit("5");
        reveal_strlit("6");
        reveal_strlit("7");
        reveal_strlit("8");
        reveal_strlit("9");
    }
    match d {
        0 => "0",
        1 => "1",
        2 => "2",
        3 => "3",
        4 => "4",
        5 => "5",
        6 => "6",
        7 => "7",
        8 => "8",
        _ => "9",
    }
}

/// Copies `data` to the front of `buf` and zero-fills the rest; returns how
/// many bytes were copied.
pub fn fill_buffer(data: &[u8], buf: &mut [u8]) -> (n: usize)
    ensures
        n == if data@.len() < old(buf)@.len() { data@.len() } else { old(buf)@.len() },
        final(buf)@ == filled(data@, old(buf)@.len() as int),
{
    let len = buf.len();
    let n = if data.len() < len { data.len() } else { len };
    let mut i: usize = 0;
    while i < len
        invariant
            buf@.len() == len,
            len == old(buf)@.len(),
            n <= len,
            n <= data@.len(),
            n == data@.len() || n == len,
            i <= len,
            forall|j: int| 0 <= j < i ==> buf@[j] == filled(data@, len as int)[j],
        decreases len - i,
    {
        let b = if i < n { data[i] } else { 0 };
        buf[i] = b;
        i = i + 1;
    }
    assert(buf@ =~= filled(data@, len as int));
    n
}

impl WebStorage {
    /// Slots are kept apart from other instances by `prefix`; `is_persistent`
    /// asks the host to keep them across sessions.
    pub fn new(prefix: String, is_persistent: bool) -> (r: WebStorage)
        ensures
            r.prefix@ == prefix@,
            r.is_persistent == is_persistent,
            r.mem@ == Map::<u8, Vec<u8>>::empty(),
    {
        WebStorage { prefix, is_persistent, mem: HashMap::new() }
    }

    /// The localStorage key of a slot: the prefix, `slot_` and the slot number
    /// in at least two digits.
    pub fn key(&self, slot: u8) -> (r: String)
        ensures
            r@ == self.prefix@ + "slot_"@ + slot_digits(slot),
    {
        let mut s = self.prefix.clone();
        s.append("slot_");
        if slot >= 100 {
            s.append(digit_str(slot / 100));
        }
        s.append(digit_str((slot / 10) % 10));
        s.append(digit_str(slot % 10));
        proof {
            assert(s@ =~= self.prefix@ + "slot_"@ + slot_digits(slot));
        }
        s
    }
}

impl Storage for WebStorage {
    open spec fn slot_bytes(&self, slot: u8) -> Option<Seq<u8>> {
        if self.mem@.contains_key(slot) { Some(self.mem@[slot]@) } else { None }
    }

    fn save(&mut self, slot: u8, data: &[u8]) -> (r: bool)
        ensures
            r,
            final(self).mem@ == old(self).mem@.insert(slot, final(self).mem@[slot]),
            final(self).mem@[slot]@ == data@,
            final(self).prefix == old(self).prefix,
            final(self).is_persistent == old(self).is_persistent,
    {
        self.mem.insert(slot, vstd::slice::slice_to_vec(data));
        true
    }

    fn load(&mut self, slot: u8, buf: &mut [u8]) -> (r: Option<usize>)
        ensures
            *final(self) == *old(self),
            r is Some <==> old(self).mem@.contains_key(slot),
            r is Some ==> {
                let data = old(self).mem@[slot]@;
                &&& r->0 == if data.len() < old(buf)@.len() { data.len() } else { old(buf)@.len() }
                &&& final(buf)@ == filled(data, old(buf)@.len() as int)
            },
            r is None ==> final(buf)@ == old(buf)@,
    {
        match self.mem.get(&slot) {
            Some(data) => Some(fill_buffer(data.as_slice(), buf)),
            None => None,
        }
    }

    fn peek(&mut self, slot: u8, buf: &mut [u8]) -> (r: Option<usize>)
        ensures
            *final(self) == *old(self),
            r is Some <==> old(self).mem@.contains_key(slot),
            r is Some ==> {
                let data = old(self).mem@[slot]@;
                &&& r->0 == if data.len() < old(buf)@.len() { data.len() } else { old(buf)@.len() }
                &&& final(buf)@ == filled(data, old(buf)@.len() as int)
            },
            r is None ==> final(buf)@ == old(buf)@,
    {
        self.load(slot, buf)
    }

    fn slot_count(&self) -> (r: u8)
        ensures
            r == SLOT_COUNT,
    {
        SLOT_COUNT
    }
}

/// What base64 (standard alphabet, padded) makes of `data`.
pub uninterp spec fn base64_encode(data: Seq<u8>) -> Seq<char>;

/// What base64 (standard alphabet, padded) decodes `text` to; `None` when
/// `text` is not valid base64.
pub uninterp spec fn base64_decode(text: Seq<char>) -> Option<Seq<u8>>;

/// Calls `base64::engine::general_purpose::STANDARD.encode`. The contract names
/// the result (a deterministic function of the input bytes), gives its padded
/// length (four characters for every started group of three bytes, as
/// `encoded_len` computes it) and says that the same engine decodes it back to
/// the input. It panics only when the encoded length overflows `usize`, which
/// the bound excludes.
#[verifier::external_body]
fn b64_encode(data: &[u8]) -> (r: String)
    requires
        data@.len() <= 0x1000_0000,
    ensures
        r@ == base64_encode(data@),
        r@.len() == 4 * ((data@.len() + 2) / 3),
        base64_decode(r@) == Some(data@),
{
    base64::engine::general_purpose::STANDARD.encode(data)
}

/// Calls `base64::engine::general_purpose::STANDARD.decode` and keeps the
/// bytes on success. The contract names the result: `None` exactly when the
/// crate reports a decode error, the decoded bytes otherwise.
#[verifier::external_body]
fn b64_decode(text: &str) -> (r: Option<Vec<u8>>)
    ensures
        r is None <==> base64_decode(text@) is None,
        r is Some ==> base64_decode(text@) == Some(r->0@),
{
    match base64::engine::general_purpose::STANDARD.decode(text) {
        Ok(v) => Some(v),
        Err(_) => None,
    }
}

impl WebStorage {
    /// The text under which a slot's bytes are kept in localStorage (base64).
    pub fn encode_slot(data: &[u8]) -> (r: String)
        requires
            data@.len() <= 0x1000_0000,
        ensures
            r@ == base64_encode(data@),
            r@.len() == 4 * ((data@.len() + 2) / 3),
            base64_decode(r@) == Some(data@),
    {
        b64_encode(data)
    }

    /// Loads a slot from its localStorage text: the decoded bytes go to the
    /// front of `buf` and the rest is zero-filled. `None` when the text is not
    /// valid base64 (then `buf` is untouched).
    pub fn load_encoded(text: &str, buf: &mut [u8]) -> (r: Option<usize>)
        ensures
            r is Some <==> base64_decode(text@) is Some,
            r is Some ==> {
                let data = base64_decode(text@)->0;
                &&& r->0 == if data.len() < old(buf)@.len() { data.len() } else { old(buf)@.len() }
                &&& final(buf)@ == filled(data, old(buf)@.len() as int)
            },
            r is None ==> final(buf)@ == old(buf)@,
    {
        match b64_decode(text) {
            Some(data) => Some(fill_buffer(data.as_slice(), buf)),
            None => None,
        }
    }
}

/// What a save writes, a load of the same slot reads back: the saved bytes,
/// cut to the buffer and zero-filled after them; other slots keep their bytes.
pub proof fn lemma_save_load_round_trip(
    before: Map<u8, Vec<u8>>,
    after: Map<u8, Vec<u8>>,
    slot: u8,
    data: Seq<u8>,
    other: u8,
    buf_len: nat,
)
    requires
        after == before.insert(slot, after[slot]),
        after[slot]@ == data,
    ensures
        after.contains_key(slot),
        filled(after[slot]@, buf_len as int) == filled(data, buf_len as int),
        other != slot ==> (after.contains_key(other) <==> before.contains_key(other)),
        other != slot && before.contains_key(other) ==> after[other] == before[other],
{
}

} // verus!
