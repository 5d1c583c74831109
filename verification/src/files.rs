//! FILES: one line per save slot, with the first program line of the slots
//! that hold a full row of it.

use vstd::prelude::*;

use crate::machine::Machine;
use crate::print::{files_entry, lemma_puts_concat};
use crate::screen::{lemma_same_outside_trans, spec_puts};
use crate::storage::{read_len, Storage};

verus! {

/// The FILES line of `slot` when the peek of it gave `data` (`None`: the
/// slot is empty or the host failed the peek): the first line is shown only
/// when the slot holds a full row of 32 bytes.
pub open spec fn slot_files_entry(slot: i16, data: Option<Seq<u8>>) -> Seq<u8> {
    match data {
        Some(d) => if d.len() >= 32 {
            files_entry(slot, Some(32usize), d.subrange(0, 32))
        } else {
            files_entry(slot, Some(d.len() as usize), Seq::new(32, |i: int| 0u8))
        },
        None => files_entry(slot, None, Seq::new(32, |i: int| 0u8)),
    }
}

/// The FILES lines of slots `start..end` (negative numbers are skipped), where
/// `st` holds the slots and `answered(i)` says whether the host answered the
/// peek of slot `i`.
pub open spec fn files_listing<S: Storage>(
    st: S,
    answered: spec_fn(int) -> bool,
    start: int,
    end: int,
) -> Seq<u8>
    decreases end - start,
{
    if end <= start {
        Seq::empty()
    } else if end - 1 < 0 {
        files_listing(st, answered, start, end - 1)
    } else {
        files_listing(st, answered, start, end - 1) + slot_files_entry(
            (end - 1) as i16,
            if answered(end - 1) { st.slot_bytes(((end - 1) % 256) as u8) } else { None },
        )
    }
}

/// The listing up to `end` reads `answered` below `end` alone.
proof fn lemma_listing_prefix<S: Storage>(
    st: S,
    a: spec_fn(int) -> bool,
    b: spec_fn(int) -> bool,
    start: int,
    end: int,
)
    requires
        forall|j: int| start <= j < end ==> #[trigger] a(j) == b(j),
    ensures
        files_listing(st, a, start, end) == files_listing(st, b, start, end),
    decreases end - start,
{
    if end > start {
        lemma_listing_prefix(st, a, b, start, end - 1);
    }
}

impl Machine {
    /// `FILES start, end` once its arguments are read: for each slot number
    /// from `start` to `end` (negative ones skipped; the slot asked of the
    /// host is the number's low byte), peeks the slot's first 32 bytes and
    /// prints its line ([`files_entry`]). The host may fail a peek; then the
    /// line shows the number alone. Whatever the host answered, the screen
    /// shows the lines of [`files_listing`] for some choice of answered
    /// peeks, and the slots keep what they hold.
    pub fn files_list<S: Storage>(&mut self, storage: &mut S, start: i16, end: i16)
        requires
            old(self).wf(),
        ensures
            final(self).wf(),
            final(self).same_outside_screen(old(self)),
            forall|s: u8| #[trigger] final(storage).slot_bytes(s) == old(storage).slot_bytes(s),
            exists|answered: spec_fn(int) -> bool| final(self).screen() == spec_puts(old(self).screen(),
                #[trigger] files_listing(*old(storage), answered, start as int, end + 1)),
    {
        let ghost st0 = *old(storage);
        let ghost s0 = self.screen();
        let ghost mut answered: spec_fn(int) -> bool = |j: int| false;
        let mut buf: Vec<u8> = vec![0u8; 32];
        let mut i: i32 = start as i32;
        while i <= end as i32
            invariant
                self.wf(),
                self.same_outside_screen(old(self)),
                start <= i,
                i == start || i <= end as i32 + 1,
                buf@.len() == 32,
                forall|s: u8| #[trigger] storage.slot_bytes(s) == old(storage).slot_bytes(s),
                st0 == *old(storage),
                s0 == old(self).screen(),
                self.screen() == spec_puts(s0, files_listing(st0, answered, start as int, i as int)),
            decreases end as i32 + 1 - i,
        {
            if i >= 0 {
                let slot: u8 = (i % 256) as u8;
                let res = storage.peek(slot, buf.as_mut_slice());
                let ghost before = *self;
                let ghost ans = res is Some;
                self.put_files_entry(i as i16, res, buf.as_slice());
                proof {
                    let old_ans = answered;
                    answered = |j: int| if j == i as int { ans } else { old_ans(j) };
                    lemma_listing_prefix(st0, answered, old_ans, start as int, i as int);
                    lemma_same_outside_trans(old(self), &before, self);
                    let data = if ans { st0.slot_bytes(slot) } else { None };
                    match res {
                        Some(n) => {
                            let d = old(storage).slot_bytes(slot)->0;
                            assert(n == read_len(d, 32));
                            if n >= 32 {
                                assert(buf@ =~= d.subrange(0, 32));
                            }
                        },
                        None => {},
                    }
                    assert(files_entry(i as i16, res, buf@) == slot_files_entry(i as i16, data));
                    lemma_puts_concat(s0, files_listing(st0, old_ans, start as int, i as int),
                        slot_files_entry(i as i16, data));
                    assert(files_listing(st0, answered, start as int, i + 1)
                        == files_listing(st0, answered, start as int, i as int) + slot_files_entry(i as i16, data));
                }
            } else {
                assert(files_listing(st0, answered, start as int, i + 1)
                    == files_listing(st0, answered, start as int, i as int));
            }
            i = i + 1;
        }
        assert(files_listing(st0, answered, start as int, end + 1)
            == files_listing(st0, answered, start as int, i as int));
        assert(self.screen() == spec_puts(old(self).screen(),
            files_listing(*old(storage), answered, start as int, end + 1)));
    }
}

} // verus!
