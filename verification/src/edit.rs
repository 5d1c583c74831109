//! Editing the program LIST: a numbered line typed at the prompt replaces,
//! inserts or deletes that line.
//!
//! The LIST is a chain of lines: a 16-bit line number, a length byte, the
//! text, a NUL and a pad byte to an even length; a line number 0 ends it.

use vstd::prelude::*;

use crate::errors::BasicError;
use crate::machine::Machine;
use crate::memory::{
    list_find_from, list_length_at, list_number_at, padded_length, ram_with_i16,
};
use crate::ram::{OFFSET_RAM_KEYBUF, OFFSET_RAM_LIST, SIZE_RAM, SIZE_RAM_LIST};
use crate::keys::lemma_puts_push;
use crate::print::{lemma_puts_concat, line_text, num_text};
use crate::screen::{first_zero, lemma_same_outside_trans, spec_puts};
use crate::storage::Storage;

verus! {

/// A RAM byte; 0 past the end (as the interpreter reads memory).
pub open spec fn ram_at_spec(ram: Seq<u8>, p: int) -> u8 {
    if 0 <= p < ram.len() { ram[p] } else { 0 }
}

/// The LIST offset where a line numbered `number` is looked for.
pub open spec fn edit_slot(ram: Seq<u8>, number: i16) -> int {
    list_find_from(ram, 0, number)
}

/// The line numbered `number` is in the LIST.
pub open spec fn has_line(ram: Seq<u8>, number: i16) -> bool {
    list_number_at(ram, edit_slot(ram, number)) == number
}

/// The bytes that the line at `f` takes: header, text, NUL and pad.
pub open spec fn line_span(ram: Seq<u8>, f: int) -> int {
    list_length_at(ram, f) + 4
}

/// RAM after deleting the line numbered `number` (if there is one): the lines
/// after it move up and a 0 line number ends the shorter LIST.
pub open spec fn ram_after_delete(ram: Seq<u8>, size: int, number: i16) -> Seq<u8> {
    if has_line(ram, number) {
        let f = edit_slot(ram, number);
        let len = line_span(ram, f);
        let moved = Seq::new(ram.len(), |i: int|
            if OFFSET_RAM_LIST + f <= i < OFFSET_RAM_LIST + size - len { ram[i + len] } else { ram[i] });
        ram_with_i16(moved, OFFSET_RAM_LIST + size - len, 0)
    } else {
        ram
    }
}

/// The LIST size after deleting the line numbered `number`.
pub open spec fn size_after_delete(ram: Seq<u8>, size: int, number: i16) -> int {
    if has_line(ram, number) { size - line_span(ram, edit_slot(ram, number)) } else { size }
}

/// Where the typed text starts: spaces between the number and the text are
/// kept but one.
pub open spec fn trim_start(ram: Seq<u8>, pc: int) -> int
    decreases pc,
{
    if pc >= 2 && ram_at_spec(ram, pc - 1) == 32 && ram_at_spec(ram, pc - 2) == 32 {
        trim_start(ram, pc - 1)
    } else {
        pc
    }
}

/// The length of the text at `p` (up to its NUL or the end of RAM).
pub open spec fn text_len(ram: Seq<u8>, p: int) -> int {
    first_zero(ram, p, ram.len() as int) - p
}

/// The LIST size once the new line is in: the line's header, text, NUL and
/// pad are added.
pub open spec fn size_after_insert(ram1: Seq<u8>, size1: int, p: int) -> int {
    let n = text_len(ram1, p);
    size1 + n + n % 2 + 4
}

/// RAM after opening a gap of `shift` bytes at LIST offset `f` (the LIST was
/// `size` bytes).
pub open spec fn ram_open_gap(ram: Seq<u8>, f: int, size: int, shift: int) -> Seq<u8> {
    Seq::new(ram.len(), |i: int|
        if OFFSET_RAM_LIST + f + shift <= i < OFFSET_RAM_LIST + size + shift { ram[i - shift] } else { ram[i] })
}

/// RAM after writing the new line at `f`: number, length byte, text and NUL
/// (and a pad NUL for an odd length), with a 0 line number at `new_size`.
pub open spec fn ram_after_insert(ram1: Seq<u8>, size1: int, f: int, number: i16, p: int) -> Seq<u8> {
    let n = text_len(ram1, p);
    let new_size = size_after_insert(ram1, size1, p);
    let gap = ram_open_gap(ram1, f, size1, new_size - size1);
    let headed = ram_with_i16(ram_with_i16(gap, OFFSET_RAM_LIST + new_size, 0), OFFSET_RAM_LIST + f, number);
    let with_len = headed.update(OFFSET_RAM_LIST + f + 2, padded_length((n % 256) as u8));
    let text_start = OFFSET_RAM_LIST + f + 3;
    Seq::new(ram1.len(), |i: int|
        if text_start <= i <= text_start + n { ram_at_spec(ram1, p + (i - text_start)) }
        else if n % 2 == 1 && i == text_start + n + 1 { 0u8 }
        else { with_len[i] })
}

/// The text at `p` and its NUL lie outside the LIST: at or after its end, or
/// wholly before it.
pub open spec fn text_outside_list(ram: Seq<u8>, p: int) -> bool {
    OFFSET_RAM_KEYBUF <= p || (0 <= p && p + text_len(ram, p) < OFFSET_RAM_LIST)
}

/// The LIST can be edited for line `number` without leaving RAM: its size
/// leaves room for the end marker, the search for `number` stops inside it,
/// and a line found there lies inside it.
pub open spec fn list_editable(ram: Seq<u8>, size: int, number: i16) -> bool {
    &&& size + 2 <= SIZE_RAM_LIST
    &&& 0 <= edit_slot(ram, number) <= size
    &&& (number > 0 && has_line(ram, number) ==> edit_slot(ram, number) + line_span(ram, edit_slot(ram, number)) <= size)
}

/// Every byte before the first NUL is set.
pub proof fn lemma_before_first_zero(v: Seq<u8>, i: int, n: int, j: int)
    requires
        i <= j < first_zero(v, i, n),
    ensures
        v[j] != 0,
    decreases n - i,
{
    if i < n && v[i] != 0 && j > i {
        lemma_before_first_zero(v, i + 1, n, j);
    }
}

/// The search stops at a NUL or at the end.
pub proof fn lemma_at_first_zero(v: Seq<u8>, i: int, n: int)
    requires
        i <= n,
    ensures
        first_zero(v, i, n) < n ==> v[first_zero(v, i, n)] == 0,
    decreases n - i,
{
    if i < n && v[i] != 0 {
        lemma_at_first_zero(v, i + 1, n);
    }
}

impl Machine {
    /// A RAM byte, 0 past the end.
    pub fn ram_at(&self, p: usize) -> (r: u8)
        ensures
            r == ram_at_spec(self.ram@, p as int),
    {
        if p < self.ram.len() { self.ram[p] } else { 0 }
    }

    /// Edits the LIST for the typed line numbered `number` whose text starts at
    /// the program counter: an existing line with that number goes away, and
    /// unless the text is empty the new line goes in its place (the LIST stays
    /// sorted). `SyntaxError` for a number below 1 or while a program line
    /// runs; `OutOfMemory` when the new line does not fit (the old one is
    /// gone by then).
    pub fn command_edit(&mut self, number: i16) -> (r: Result<(), BasicError>)
        requires
            old(self).wf(),
            list_editable(old(self).ram@, old(self).list_size as int, number),
            number > 0 && !(OFFSET_RAM_LIST <= old(self).pc < OFFSET_RAM_LIST + SIZE_RAM_LIST) ==>
                text_outside_list(ram_after_delete(old(self).ram@, old(self).list_size as int, number),
                    trim_start(ram_after_delete(old(self).ram@, old(self).list_size as int, number), old(self).pc as int)),
        ensures
            final(self).wf(),
            ({
                let ram0 = old(self).ram@;
                let size0 = old(self).list_size as int;
                let f = edit_slot(ram0, number);
                let ram1 = ram_after_delete(ram0, size0, number);
                let size1 = size_after_delete(ram0, size0, number);
                let p = trim_start(ram1, old(self).pc as int);
                let n = text_len(ram1, p);
                if number <= 0 || (OFFSET_RAM_LIST <= old(self).pc < OFFSET_RAM_LIST + SIZE_RAM_LIST) {
                    r == Err::<(), BasicError>(BasicError::SyntaxError) && *final(self) == *old(self)
                } else if ram_at_spec(ram1, p) == 0 {
                    &&& r == Ok::<(), BasicError>(())
                    &&& final(self).ram@ == ram1
                    &&& final(self).list_size == size1
                    &&& *final(self) == (Machine { ram: final(self).ram, list_size: final(self).list_size, pc: p as usize, ..*old(self) })
                } else if size_after_insert(ram1, size1, p) + 2 > SIZE_RAM_LIST {
                    &&& r == Err::<(), BasicError>(BasicError::OutOfMemory)
                    &&& final(self).ram@ == ram1
                    &&& final(self).list_size == size1
                    &&& *final(self) == (Machine { ram: final(self).ram, list_size: final(self).list_size, pc: p as usize, ..*old(self) })
                } else {
                    &&& r == Ok::<(), BasicError>(())
                    &&& final(self).ram@ == ram_after_insert(ram1, size1, f, number, p)
                    &&& final(self).list_size == size_after_insert(ram1, size1, p)
                    &&& *final(self) == (Machine {
                            ram: final(self).ram,
                            list_size: final(self).list_size,
                            pc: (p + n + 1) as usize,
                            ..*old(self)
                        })
                }
            }),
    {
        if number <= 0 || self.pc_in_list() {
            return Err(BasicError::SyntaxError);
        }
        let found = self.list_find(number);
        self.delete_line_at(found, number);
        let ghost mid = *self;
        // keep one space between the line number and the text
        while self.pc > 0 && self.ram_at(self.pc - 1) == 32
            invariant
                self.wf(),
                *self == (Machine { pc: self.pc, ..mid }),
                trim_start(self.ram@, self.pc as int) == trim_start(self.ram@, old(self).pc as int),
            ensures
                self.wf(),
                *self == (Machine { pc: self.pc, ..mid }),
                trim_start(self.ram@, old(self).pc as int) == self.pc,
            decreases self.pc,
        {
            if self.pc < 2 || self.ram_at(self.pc - 2) != 32 {
                break;
            }
            self.pc = self.pc - 1;
        }
        if self.ram_at(self.pc) == 0 {
            return Ok(());
        }
        self.insert_line_at(found, number)
    }

    /// Removes the line at LIST offset `found` if it is numbered `number`.
    fn delete_line_at(&mut self, found: u16, number: i16)
        requires
            old(self).wf(),
            list_editable(old(self).ram@, old(self).list_size as int, number),
            number > 0,
            found == edit_slot(old(self).ram@, number),
        ensures
            final(self).wf(),
            final(self).ram@ == ram_after_delete(old(self).ram@, old(self).list_size as int, number),
            final(self).list_size == size_after_delete(old(self).ram@, old(self).list_size as int, number),
            *final(self) == (Machine { ram: final(self).ram, list_size: final(self).list_size, ..*old(self) }),
    {
        if self.list_get_number(found) == number {
            let len: u16 = self.list_get_length(found) as u16 + 4;
            let size = self.list_size;
            let mut dst: usize = found as usize;
            let mut src: usize = found as usize + len as usize;
            let ghost ram0 = self.ram@;
            while src < size as usize
                invariant
                    self.wf(),
                    src == dst + len,
                    found <= dst,
                    src <= size,
                    size + 2 <= SIZE_RAM_LIST,
                    size == old(self).list_size,
                    ram0 == old(self).ram@,
                    self.ram@.len() == ram0.len(),
                    forall|i: int| 0 <= i < ram0.len() ==> #[trigger] self.ram@[i] == (
                        if OFFSET_RAM_LIST + found <= i < OFFSET_RAM_LIST + dst { ram0[i + len] } else { ram0[i] }),
                    *self == (Machine { ram: self.ram, ..*old(self) }),
                decreases size - src,
            {
                let b = self.ram[OFFSET_RAM_LIST + src];
                self.ram.set(OFFSET_RAM_LIST + dst, b);
                dst = dst + 1;
                src = src + 1;
            }
            self.list_size = size - len;
            self.list_set_number(self.list_size, 0);
            proof {
                let moved = Seq::new(ram0.len(), |i: int|
                    if OFFSET_RAM_LIST + found <= i < OFFSET_RAM_LIST + size - len { ram0[i + len] } else { ram0[i] });
                assert(ram_after_delete(ram0, size as int, number)
                    == ram_with_i16(moved, OFFSET_RAM_LIST + size - len, 0));
            }
            assert(self.ram@ =~= ram_after_delete(old(self).ram@, old(self).list_size as int, number));
        }
    }

    /// Opens a gap at `found` and writes the line numbered `number` whose
    /// text starts at the program counter.
    #[verifier::spinoff_prover]
    #[verifier::rlimit(40)]
    fn insert_line_at(&mut self, found: u16, number: i16) -> (r: Result<(), BasicError>)
        requires
            old(self).wf(),
            old(self).list_size + 2 <= SIZE_RAM_LIST,
            found <= old(self).list_size,
            text_outside_list(old(self).ram@, old(self).pc as int),
            ram_at_spec(old(self).ram@, old(self).pc as int) != 0,
        ensures
            final(self).wf(),
            ({
                let ram1 = old(self).ram@;
                let size1 = old(self).list_size as int;
                let p = old(self).pc as int;
                let n = text_len(ram1, p);
                if size_after_insert(ram1, size1, p) + 2 > SIZE_RAM_LIST {
                    r == Err::<(), BasicError>(BasicError::OutOfMemory) && *final(self) == *old(self)
                } else {
                    &&& r == Ok::<(), BasicError>(())
                    &&& final(self).ram@ == ram_after_insert(ram1, size1, found as int, number, p)
                    &&& final(self).list_size == size_after_insert(ram1, size1, p)
                    &&& *final(self) == (Machine {
                            ram: final(self).ram,
                            list_size: final(self).list_size,
                            pc: (p + n + 1) as usize,
                            ..*old(self)
                        })
                }
            }),
    {
        let len_str = crate::machine::strlen8(self.ram.as_slice(), self.pc);
        proof { crate::print::lemma_first_zero_bounds(self.ram@, self.pc as int, self.ram@.len() as int); }
        let align: usize = len_str % 2;
        let size = self.list_size as usize;
        if size + len_str + align + 4 + 2 > SIZE_RAM_LIST {
            return Err(BasicError::OutOfMemory);
        }
        let dst_end: usize = size + len_str + align + 4;
        let shift: usize = len_str + align + 4;
        let ghost ram1 = self.ram@;
        self.open_gap(found as usize, size, shift);
        let ghost gap = self.ram@;
        self.list_size = dst_end as u16;
        self.list_set_number(dst_end as u16, 0);
        self.list_set_number(found, number);
        self.list_set_length(found, (len_str % 256) as u8);
        let ghost headed = self.ram@;
        assert(headed == ram_with_i16(ram_with_i16(gap, OFFSET_RAM_LIST + dst_end, 0), OFFSET_RAM_LIST + found, number)
            .update(OFFSET_RAM_LIST + found + 2, padded_length((len_str % 256) as u8)));
        let ghost p0 = old(self).pc as int;
        let ghost text_start = OFFSET_RAM_LIST + found + 3;
        assert forall|i: int| OFFSET_RAM_KEYBUF <= i < ram1.len() implies #[trigger] headed[i] == ram1[i] by {}
        assert forall|i: int| 0 <= i < OFFSET_RAM_LIST implies #[trigger] headed[i] == ram1[i] by {}
        assert(text_len(headed, p0) == len_str) by {
            if p0 >= OFFSET_RAM_KEYBUF {
                crate::print::lemma_first_zero_agree(headed, ram1, p0, ram1.len() as int);
            } else {
                let z = p0 + len_str;
                lemma_at_first_zero(ram1, p0, ram1.len() as int);
                assert forall|j: int| p0 <= j < z implies #[trigger] headed[j] != 0 by {
                    lemma_before_first_zero(ram1, p0, ram1.len() as int, j);
                }
                lemma_first_zero_run(headed, p0, z, ram1.len() as int);
            }
        }
        self.copy_text(OFFSET_RAM_LIST + found as usize + 3, len_str);
        let dst: usize = OFFSET_RAM_LIST + found as usize + 3 + len_str + 1;
        assert forall|i: int| text_start <= i <= text_start + len_str implies
            #[trigger] ram_at_spec(headed, p0 + (i - text_start)) == ram_at_spec(ram1, p0 + (i - text_start)) by {}
        let ghost copied = self.ram@;
        if align == 1 {
            self.ram.set(dst, 0);
        }
        proof {
            let target = ram_after_insert(ram1, size as int, found as int, number, p0);
            assert(size_after_insert(ram1, size as int, p0) == dst_end);
            assert(gap == ram_open_gap(ram1, found as int, size as int, (dst_end - size) as int));
            assert forall|i: int| 0 <= i < ram1.len() implies #[trigger] self.ram@[i] == target[i] by {
                if text_start <= i <= text_start + len_str {
                    assert(copied[i] == ram_at_spec(headed, p0 + (i - text_start)));
                } else if align == 1 && i == text_start + len_str + 1 {
                } else {
                    assert(self.ram@[i] == copied[i]);
                    assert(copied[i] == headed[i]);
                }
            }
            assert(self.ram@ =~= target);
        }
        Ok(())
    }

    /// Moves the LIST bytes `found..size` down by `shift`, from the end.
    fn open_gap(&mut self, found: usize, size: usize, shift: usize)
        requires
            old(self).wf(),
            found <= size,
            size + shift + 2 <= SIZE_RAM_LIST,
        ensures
            final(self).wf(),
            final(self).ram@ == ram_open_gap(old(self).ram@, found as int, size as int, shift as int),
            *final(self) == (Machine { ram: final(self).ram, ..*old(self) }),
    {
        let ghost ram1 = self.ram@;
        let mut src: usize = size;
        while src > found
            invariant
                self.wf(),
                found <= src <= size,
                size + shift + 2 <= SIZE_RAM_LIST,
                ram1 == old(self).ram@,
                self.ram@.len() == ram1.len(),
                forall|i: int| 0 <= i < ram1.len() ==> #[trigger] self.ram@[i] == (
                    if OFFSET_RAM_LIST + src + shift <= i < OFFSET_RAM_LIST + size + shift { ram1[i - shift] } else { ram1[i] }),
                *self == (Machine { ram: self.ram, ..*old(self) }),
            decreases src,
        {
            src = src - 1;
            let b = self.ram[OFFSET_RAM_LIST + src];
            self.ram.set(OFFSET_RAM_LIST + src + shift, b);
        }
        assert(self.ram@ =~= ram_open_gap(ram1, found as int, size as int, shift as int));
    }

    /// Copies the text at the program counter and its NUL to RAM index
    /// `start`; the program counter ends past the NUL.
    fn copy_text(&mut self, start: usize, len_str: usize)
        requires
            old(self).wf(),
            OFFSET_RAM_LIST <= start,
            start + len_str + 1 <= OFFSET_RAM_KEYBUF,
            old(self).pc >= OFFSET_RAM_KEYBUF || old(self).pc + len_str < OFFSET_RAM_LIST,
            old(self).pc < SIZE_RAM,
            len_str == text_len(old(self).ram@, old(self).pc as int),
        ensures
            final(self).wf(),
            final(self).pc == old(self).pc + len_str + 1,
            final(self).ram@ == Seq::new(old(self).ram@.len(), |i: int|
                if start <= i <= start + len_str { ram_at_spec(old(self).ram@, old(self).pc + (i - start)) }
                else { old(self).ram@[i] }),
            *final(self) == (Machine { ram: final(self).ram, pc: final(self).pc, ..*old(self) }),
    {
        let ghost ram1 = old(self).ram@;
        let ghost p0 = old(self).pc as int;
        let mut dst: usize = start;
        proof { crate::print::lemma_first_zero_bounds(ram1, p0, ram1.len() as int); }
        loop
            invariant_except_break
                dst <= start + len_str,
            invariant
                self.wf(),
                start <= dst,
                self.pc as int - p0 == dst as int - start,
                p0 == old(self).pc,
                p0 >= OFFSET_RAM_KEYBUF || p0 + len_str < OFFSET_RAM_LIST,
                OFFSET_RAM_LIST <= start,
                p0 < ram1.len(),
                ram1 == old(self).ram@,
                start + len_str + 1 <= OFFSET_RAM_KEYBUF,
                len_str == text_len(ram1, p0),
                first_zero(ram1, p0, ram1.len() as int) == p0 + len_str,
                p0 + len_str <= ram1.len(),
                self.ram@.len() == ram1.len(),
                forall|i: int| 0 <= i < ram1.len() ==> #[trigger] self.ram@[i] == (
                    if start <= i < dst { ram_at_spec(ram1, p0 + (i - start)) } else { ram1[i] }),
                *self == (Machine { ram: self.ram, pc: self.pc, ..*old(self) }),
            ensures
                dst == start + len_str + 1,
                self.wf(),
                self.pc as int == p0 + len_str + 1,
                self.ram@.len() == ram1.len(),
                forall|i: int| 0 <= i < ram1.len() ==> #[trigger] self.ram@[i] == (
                    if start <= i < dst { ram_at_spec(ram1, p0 + (i - start)) } else { ram1[i] }),
                *self == (Machine { ram: self.ram, pc: self.pc, ..*old(self) }),
            decreases start + len_str + 1 - dst,
        {
            let c = self.ram_at(self.pc);
            proof {
                if self.pc < ram1.len() {
                    assert(self.ram@[self.pc as int] == ram1[self.pc as int]);
                }
                assert(c == ram_at_spec(ram1, self.pc as int));
                if (self.pc as int) < p0 + len_str {
                    lemma_before_first_zero(ram1, p0, ram1.len() as int, self.pc as int);
                    assert(c != 0);
                } else {
                    lemma_at_first_zero(ram1, p0, ram1.len() as int);
                    assert(self.pc as int == p0 + len_str);
                }
            }
            self.pc = self.pc + 1;
            self.ram.set(dst, c);
            dst = dst + 1;
            if c == 0 {
                break;
            }
        }
        assert(self.ram@ =~= Seq::new(old(self).ram@.len(), |i: int|
            if start <= i <= start + len_str { ram_at_spec(old(self).ram@, old(self).pc + (i - start)) }
            else { old(self).ram@[i] }));
    }
}

/// The search for a line number reads only the line headers it passes: RAM
/// that agrees below the place where it stopped, and holds a line there that
/// stops it, gives the same place.
proof fn lemma_find_agrees(a: Seq<u8>, b: Seq<u8>, start: int, number: i16, f: int)
    requires
        0 <= start <= f,
        f + 2 <= SIZE_RAM_LIST,
        a.len() == SIZE_RAM,
        b.len() == SIZE_RAM,
        list_find_from(a, start, number) == f,
        forall|j: int| 0 <= j < OFFSET_RAM_LIST + f ==> #[trigger] b[j] == a[j],
        list_number_at(b, f) == 0 || list_number_at(b, f) >= number,
    ensures
        list_find_from(b, start, number) == f,
    decreases SIZE_RAM_LIST + 300 - start,
{
    if start < f {
        let n = list_number_at(a, start);
        let next = start + list_length_at(a, start) + 4;
        assert(list_find_from(a, next, number) == f);
        crate::memory::lemma_list_find_stops(a, next, number);
        assert(b[OFFSET_RAM_LIST + start] == a[OFFSET_RAM_LIST + start]);
        assert(b[OFFSET_RAM_LIST + start + 1] == a[OFFSET_RAM_LIST + start + 1]);
        assert(b[OFFSET_RAM_LIST + start + 2] == a[OFFSET_RAM_LIST + start + 2]);
        assert(list_number_at(b, start) == n);
        assert(list_length_at(b, start) == list_length_at(a, start));
        lemma_find_agrees(a, b, next, number, f);
    }
}

/// Editing a line into the LIST and searching for its number finds it, at the
/// place where it was looked for, with the text that was typed.
pub proof fn lemma_edit_reads_back(ram0: Seq<u8>, size0: int, number: i16, pc: int)
    requires
        ram0.len() == SIZE_RAM,
        number > 0,
        list_editable(ram0, size0, number),
        text_outside_list(ram_after_delete(ram0, size0, number), trim_start(ram_after_delete(ram0, size0, number), pc)),
        ram_at_spec(ram_after_delete(ram0, size0, number),
            trim_start(ram_after_delete(ram0, size0, number), pc)) != 0,
        size_after_insert(ram_after_delete(ram0, size0, number), size_after_delete(ram0, size0, number),
            trim_start(ram_after_delete(ram0, size0, number), pc)) + 2 <= SIZE_RAM_LIST,
    ensures
        ({
            let ram1 = ram_after_delete(ram0, size0, number);
            let size1 = size_after_delete(ram0, size0, number);
            let p = trim_start(ram1, pc);
            let f = edit_slot(ram0, number);
            let ram2 = ram_after_insert(ram1, size1, f, number, p);
            &&& edit_slot(ram2, number) == f
            &&& has_line(ram2, number)
            &&& crate::print::line_text(ram2, f) == ram1.subrange(p, p + text_len(ram1, p))
        }),
{
    let ram1 = ram_after_delete(ram0, size0, number);
    let size1 = size_after_delete(ram0, size0, number);
    let p = trim_start(ram1, pc);
    let f = edit_slot(ram0, number);
    let n = text_len(ram1, p);
    let ram2 = ram_after_insert(ram1, size1, f, number, p);
    let ts = OFFSET_RAM_LIST + f + 3;
    crate::print::lemma_first_zero_bounds(ram1, p, ram1.len() as int);
    crate::memory::lemma_le_i16_round_trip(number);
    assert forall|j: int| 0 <= j < OFFSET_RAM_LIST + f implies #[trigger] ram2[j] == ram0[j] by {
        assert(ram1[j] == ram0[j]);
    }
    assert(ram2[OFFSET_RAM_LIST + f] == lo_byte_of(number));
    assert(ram2[OFFSET_RAM_LIST + f + 1] == hi_byte_of(number));
    assert(list_number_at(ram2, f) == number);
    lemma_find_agrees(ram0, ram2, 0, number, f);
    // the text reads back up to its NUL
    assert forall|i: int| ts <= i < ts + n implies #[trigger] ram2[i] == ram1[p + (i - ts)] by {}
    assert(ram2[ts + n] == 0) by {
        lemma_at_first_zero(ram1, p, ram1.len() as int);
    }
    assert forall|j: int| ts <= j < ts + n implies #[trigger] ram2[j] != 0 by {
        lemma_before_first_zero(ram1, p, ram1.len() as int, p + (j - ts));
    }
    lemma_first_zero_run(ram2, ts, ts + n, ram2.len() as int);
    assert(crate::print::line_text(ram2, f) =~= ram1.subrange(p, p + n));
}

/// A run of set bytes followed by a NUL: the search from its start stops at
/// the NUL.
proof fn lemma_first_zero_run(v: Seq<u8>, i: int, z: int, n: int)
    requires
        i <= z < n,
        v[z] == 0,
        forall|j: int| i <= j < z ==> #[trigger] v[j] != 0,
    ensures
        first_zero(v, i, n) == z,
    decreases z - i,
{
    if i < z {
        lemma_first_zero_run(v, i + 1, z, n);
    }
}

/// The low and high bytes in which a line number is stored.
spec fn lo_byte_of(v: i16) -> u8 {
    crate::memory::lo_byte(v)
}

spec fn hi_byte_of(v: i16) -> u8 {
    crate::memory::hi_byte(v)
}

/// The LIST from `index` on is a proper chain: line numbers rise above `last`,
/// no line runs into the LIST's last two bytes, and the end marker sits at
/// `size`.
pub open spec fn chain_ok(ram: Seq<u8>, index: int, last: i16, size: int) -> bool
    decreases SIZE_RAM_LIST + 300 - index,
{
    let num = list_number_at(ram, index);
    if index < 0 || index + 2 > SIZE_RAM_LIST {
        false
    } else if num == 0 {
        index == size
    } else {
        let next = index + list_length_at(ram, index) + 4;
        &&& num > last
        &&& next <= SIZE_RAM_LIST - 2
        &&& chain_ok(ram, next, num, size)
    }
}

/// Where the chain check of a loaded LIST stops: `Some(size)` at the end
/// marker, `None` at a line number that does not rise or a line that runs
/// into the LIST's last two bytes.
pub open spec fn chain_end(ram: Seq<u8>, index: int, last: i16) -> Option<int>
    decreases SIZE_RAM_LIST + 300 - index,
{
    let num = list_number_at(ram, index);
    if index < 0 || index + 2 > SIZE_RAM_LIST || num == 0 {
        Some(index)
    } else if num <= last {
        None
    } else {
        let next = index + list_length_at(ram, index) + 4;
        if next >= SIZE_RAM_LIST - 2 { None } else { chain_end(ram, next, num) }
    }
}

/// The RAM after loading `data` into an emptied LIST.
pub open spec fn ram_loaded(ram: Seq<u8>, data: Seq<u8>) -> Seq<u8> {
    Seq::new(ram.len(), |i: int|
        if OFFSET_RAM_LIST <= i < OFFSET_RAM_LIST + data.len() { data[i - OFFSET_RAM_LIST] }
        else if OFFSET_RAM_LIST <= i < OFFSET_RAM_LIST + SIZE_RAM_LIST { 0u8 }
        else { ram[i] })
}

impl Machine {
    /// `LOAD` after the storage read: the LIST is emptied, `data` goes in and
    /// its chain of lines is checked; the LIST size is returned. `FileError`
    /// when line numbers do not rise or a line runs past the LIST (the data
    /// stays in RAM, the LIST size stays 0).
    pub fn list_load(&mut self, slot: u8, data: &[u8]) -> (r: Result<u16, BasicError>)
        requires
            old(self).wf(),
            data@.len() <= SIZE_RAM_LIST - 2,
        ensures
            final(self).wf(),
            final(self).ram@ == ram_loaded(old(self).ram@, data@),
            final(self).pc == crate::machine::PC_NULL,
            final(self).break_resume_pc == crate::machine::PC_NULL,
            match chain_end(ram_loaded(old(self).ram@, data@), 0, 0) {
                Some(size) => r == Ok::<u16, BasicError>(size as u16)
                    && *final(self) == (Machine {
                        ram: final(self).ram,
                        list_size: size as u16,
                        pc: crate::machine::PC_NULL,
                        break_resume_pc: crate::machine::PC_NULL,
                        last_file_slot: slot,
                        ..*old(self)
                    }),
                None => r == Err::<u16, BasicError>(BasicError::FileError)
                    && *final(self) == (Machine {
                        ram: final(self).ram,
                        list_size: 0,
                        pc: crate::machine::PC_NULL,
                        break_resume_pc: crate::machine::PC_NULL,
                        ..*old(self)
                    }),
            },
    {
        self.fill_list_from(data);
        self.list_size = 0;
        self.pc = crate::machine::PC_NULL;
        self.break_resume_pc = crate::machine::PC_NULL;
        let ghost loaded = self.ram@;
        let max: usize = SIZE_RAM_LIST - 2;
        let mut index: u16 = 0;
        let mut last: i16 = 0;
        loop
            invariant
                self.wf(),
                self.ram@ == loaded,
                loaded == ram_loaded(old(self).ram@, data@),
                max == SIZE_RAM_LIST - 2,
                index < SIZE_RAM_LIST - 2,
                chain_end(loaded, index as int, last) == chain_end(loaded, 0, 0),
                *self == (Machine {
                    ram: self.ram,
                    list_size: 0,
                    pc: crate::machine::PC_NULL,
                    break_resume_pc: crate::machine::PC_NULL,
                    ..*old(self)
                }),
            ensures
                self.wf(),
                self.ram@ == loaded,
                loaded == ram_loaded(old(self).ram@, data@),
                index < SIZE_RAM_LIST - 2,
                chain_end(loaded, 0, 0) == Some(index as int),
                *self == (Machine {
                    ram: self.ram,
                    list_size: 0,
                    pc: crate::machine::PC_NULL,
                    break_resume_pc: crate::machine::PC_NULL,
                    ..*old(self)
                }),
            decreases SIZE_RAM_LIST + 300 - index,
        {
            let num = self.list_get_number(index);
            if num == 0 {
                break;
            }
            if num <= last {
                return Err(BasicError::FileError);
            }
            last = num;
            let next: usize = index as usize + self.list_get_length(index) as usize + 4;
            if next >= max {
                return Err(BasicError::FileError);
            }
            index = next as u16;
        }
        self.list_size = index;
        self.last_file_slot = slot;
        Ok(index)
    }

    /// Empties the LIST and copies `data` to its start.
    fn fill_list_from(&mut self, data: &[u8])
        requires
            old(self).wf(),
            data@.len() <= SIZE_RAM_LIST,
        ensures
            final(self).wf(),
            final(self).ram@ == ram_loaded(old(self).ram@, data@),
            *final(self) == (Machine { ram: final(self).ram, ..*old(self) }),
    {
        let mut k: usize = 0;
        while k < SIZE_RAM_LIST
            invariant
                self.wf(),
                k <= SIZE_RAM_LIST,
                data@.len() <= SIZE_RAM_LIST,
                self.ram@.len() == old(self).ram@.len(),
                forall|i: int| 0 <= i < SIZE_RAM ==> #[trigger] self.ram@[i] == (
                    if OFFSET_RAM_LIST <= i < OFFSET_RAM_LIST + k {
                        if i < OFFSET_RAM_LIST + data@.len() { data@[i - OFFSET_RAM_LIST] } else { 0u8 }
                    } else { old(self).ram@[i] }),
                *self == (Machine { ram: self.ram, ..*old(self) }),
            decreases SIZE_RAM_LIST - k,
        {
            let b: u8 = if k < data.len() { data[k] } else { 0 };
            self.ram.set(OFFSET_RAM_LIST + k, b);
            k = k + 1;
        }
        assert(self.ram@ =~= ram_loaded(old(self).ram@, data@));
    }
}

/// Where a chain check starts inside the LIST, it ends inside it.
proof fn lemma_chain_end_bound(ram: Seq<u8>, index: int, last: i16)
    requires
        0 <= index < SIZE_RAM_LIST - 2,
    ensures
        chain_end(ram, index, last) is Some ==> 0 <= chain_end(ram, index, last)->0 < SIZE_RAM_LIST - 2,
    decreases SIZE_RAM_LIST + 300 - index,
{
    let num = list_number_at(ram, index);
    if num != 0 && num > last {
        let next = index + list_length_at(ram, index) + 4;
        if next < SIZE_RAM_LIST - 2 {
            lemma_chain_end_bound(ram, next, num);
        }
    }
}

/// The chain check reads the LIST alone.
proof fn lemma_chain_end_agree(a: Seq<u8>, b: Seq<u8>, index: int, last: i16)
    requires
        a.len() == SIZE_RAM,
        b.len() == SIZE_RAM,
        forall|i: int| OFFSET_RAM_LIST <= i < OFFSET_RAM_LIST + SIZE_RAM_LIST ==> #[trigger] a[i] == b[i],
    ensures
        chain_end(a, index, last) == chain_end(b, index, last),
    decreases SIZE_RAM_LIST + 300 - index,
{
    if 0 <= index && index + 2 <= SIZE_RAM_LIST {
        assert(a[OFFSET_RAM_LIST + index] == b[OFFSET_RAM_LIST + index]);
        assert(a[OFFSET_RAM_LIST + index + 1] == b[OFFSET_RAM_LIST + index + 1]);
        if index + 3 <= SIZE_RAM_LIST {
            assert(a[OFFSET_RAM_LIST + index + 2] == b[OFFSET_RAM_LIST + index + 2]);
        }
        let num = list_number_at(a, index);
        if num != 0 {
            lemma_chain_end_agree(a, b, index + list_length_at(a, index) + 4, num);
        }
    }
}

/// "Loaded ", the LIST size and "byte" with a new line: what LOAD reports.
pub open spec fn loaded_message(size: u16) -> Seq<u8> {
    seq![76u8, 111u8, 97u8, 100u8, 101u8, 100u8, 32u8] + num_text(size as i32)
        + seq![98u8, 121u8, 116u8, 101u8, 10u8]
}

/// "Saved ", the LIST size and "byte" with a new line: what SAVE reports.
pub open spec fn saved_message(size: u16) -> Seq<u8> {
    seq![83u8, 97u8, 118u8, 101u8, 100u8, 32u8] + num_text(size as i32)
        + seq![98u8, 121u8, 116u8, 101u8, 10u8]
}

/// What LOAD takes from a slot that holds `data`: as much as its buffer of
/// `SIZE_RAM_LIST - 2` bytes holds.
pub open spec fn slot_load_data(data: Seq<u8>) -> Seq<u8> {
    data.subrange(0, crate::storage::read_len(data, SIZE_RAM_LIST - 2))
}

impl Machine {
    /// `LOAD` once the storage has answered: `None` (the slot could not be
    /// read) empties the LIST and fails with `FileError`; the bytes read go
    /// through [`Machine::list_load`].
    pub fn load_into(&mut self, slot: u8, read: Option<&[u8]>) -> (r: Result<u16, BasicError>)
        requires
            old(self).wf(),
            read is Some ==> read->0@.len() <= SIZE_RAM_LIST - 2,
        ensures
            final(self).wf(),
            final(self).pc == crate::machine::PC_NULL,
            final(self).break_resume_pc == crate::machine::PC_NULL,
            match read {
                None => r == Err::<u16, BasicError>(BasicError::FileError)
                    && final(self).ram@ == ram_loaded(old(self).ram@, Seq::empty())
                    && *final(self) == (Machine {
                        ram: final(self).ram,
                        list_size: 0,
                        pc: crate::machine::PC_NULL,
                        break_resume_pc: crate::machine::PC_NULL,
                        ..*old(self)
                    }),
                Some(d) => final(self).ram@ == ram_loaded(old(self).ram@, d@)
                    && match chain_end(ram_loaded(old(self).ram@, d@), 0, 0) {
                        Some(size) => r == Ok::<u16, BasicError>(size as u16)
                            && *final(self) == (Machine {
                                ram: final(self).ram,
                                list_size: size as u16,
                                pc: crate::machine::PC_NULL,
                                break_resume_pc: crate::machine::PC_NULL,
                                last_file_slot: slot,
                                ..*old(self)
                            }),
                        None => r == Err::<u16, BasicError>(BasicError::FileError)
                            && *final(self) == (Machine {
                                ram: final(self).ram,
                                list_size: 0,
                                pc: crate::machine::PC_NULL,
                                break_resume_pc: crate::machine::PC_NULL,
                                ..*old(self)
                            }),
                    },
            },
    {
        match read {
            Some(d) => self.list_load(slot, d),
            None => {
                let empty: [u8; 0] = [];
                self.fill_list_from(empty.as_slice());
                assert(empty@ =~= Seq::<u8>::empty());
                self.list_size = 0;
                self.pc = crate::machine::PC_NULL;
                self.break_resume_pc = crate::machine::PC_NULL;
                Err(BasicError::FileError)
            },
        }
    }

    /// Reports a LOAD: "Loaded N byte" and a new line, unless the machine
    /// is in quiet mode.
    pub fn report_loaded(&mut self, size: u16)
        requires
            old(self).wf(),
            size <= SIZE_RAM_LIST,
        ensures
            final(self).wf(),
            final(self).same_outside_screen(old(self)),
            final(self).screen() == if old(self).is_quiet_mode {
                old(self).screen()
            } else {
                spec_puts(old(self).screen(), loaded_message(size))
            },
    {
        if self.is_quiet_mode {
            return;
        }
        let head: [u8; 7] = [76, 111, 97, 100, 101, 100, 32];
        let tail: [u8; 5] = [98, 121, 116, 101, 10];
        let ghost s0 = self.screen();
        self.screen_puts(head.as_slice());
        let ghost m1 = *self;
        self.put_num(size as i32);
        let ghost m2 = *self;
        self.screen_puts(tail.as_slice());
        proof {
            lemma_same_outside_trans(old(self), &m1, &m2);
            lemma_same_outside_trans(old(self), &m2, self);
            lemma_puts_concat(s0, head@, num_text(size as i32));
            lemma_puts_concat(s0, head@ + num_text(size as i32), tail@);
            assert(head@ + num_text(size as i32) + tail@ =~= loaded_message(size));
        }
    }

    /// `LOAD slot`: reads the slot from `storage` into a buffer of
    /// `SIZE_RAM_LIST - 2` bytes, loads what was read ([`Machine::load_into`])
    /// and reports it ([`Machine::report_loaded`]). The host may fail the
    /// read; then the LIST is emptied and the result is `FileError`.
    /// Otherwise the LIST gets what the slot holds (as much of it as the
    /// buffer takes, [`slot_load_data`]); its chain check decides between
    /// success and `FileError`.
    pub fn load_program<S: Storage>(&mut self, storage: &mut S, slot: u8) -> (r: Result<u16, BasicError>)
        requires
            old(self).wf(),
        ensures
            final(self).wf(),
            forall|s: u8| #[trigger] final(storage).slot_bytes(s) == old(storage).slot_bytes(s),
            match r {
                Ok(size) => old(storage).slot_bytes(slot) is Some && ({
                    let loaded = ram_loaded(old(self).ram@, slot_load_data(old(storage).slot_bytes(slot)->0));
                    &&& chain_end(loaded, 0, 0) == Some(size as int)
                    &&& final(self).ram@.len() == loaded.len()
                    &&& forall|i: int| 0 <= i < loaded.len()
                        && !(crate::ram::OFFSET_RAM_VRAM <= i < crate::ram::OFFSET_RAM_VRAM + crate::ram::SIZE_RAM_VRAM)
                        ==> #[trigger] final(self).ram@[i] == loaded[i]
                    &&& final(self).same_outside_screen(&Machine {
                            ram: final(self).ram,
                            list_size: size,
                            pc: crate::machine::PC_NULL,
                            break_resume_pc: crate::machine::PC_NULL,
                            last_file_slot: slot,
                            ..*old(self)
                        })
                    &&& final(self).screen() == if old(self).is_quiet_mode {
                            old(self).screen()
                        } else {
                            spec_puts(old(self).screen(), loaded_message(size))
                        }
                }),
                Err(e) => e == BasicError::FileError
                    && *final(self) == (Machine {
                        ram: final(self).ram,
                        list_size: 0,
                        pc: crate::machine::PC_NULL,
                        break_resume_pc: crate::machine::PC_NULL,
                        ..*old(self)
                    })
                    && (final(self).ram@ == ram_loaded(old(self).ram@, Seq::empty())
                        || (old(storage).slot_bytes(slot) is Some
                            && final(self).ram@ == ram_loaded(old(self).ram@, slot_load_data(old(storage).slot_bytes(slot)->0))
                            && chain_end(final(self).ram@, 0, 0) is None)),
            },
    {
        let max: usize = SIZE_RAM_LIST - 2;
        let mut buf: Vec<u8> = vec![0u8; max];
        let read = storage.load(slot, buf.as_mut_slice());
        let r = match read {
            Some(n) => {
                proof {
                    let d = old(storage).slot_bytes(slot)->0;
                    assert(buf@.subrange(0, n as int) == d.subrange(0, n as int));
                }
                buf.truncate(n);
                proof {
                    assert(buf@ =~= slot_load_data(old(storage).slot_bytes(slot)->0));
                }
                self.load_into(slot, Some(buf.as_slice()))
            },
            None => self.load_into(slot, None),
        };
        match r {
            Ok(size) => {
                proof { lemma_chain_end_bound(self.ram@, 0, 0); }
                let ghost m1 = *self;
                self.report_loaded(size);
                proof {
                    assert(read is Some);
                    let loaded = ram_loaded(old(self).ram@, slot_load_data(old(storage).slot_bytes(slot)->0));
                    assert(m1.ram@ == loaded);
                    assert(m1 == (Machine {
                        ram: m1.ram,
                        list_size: size,
                        pc: crate::machine::PC_NULL,
                        break_resume_pc: crate::machine::PC_NULL,
                        last_file_slot: slot,
                        ..*old(self)
                    }));
                    assert forall|i: int| 0 <= i < loaded.len()
                        && !(crate::ram::OFFSET_RAM_VRAM <= i < crate::ram::OFFSET_RAM_VRAM + crate::ram::SIZE_RAM_VRAM)
                        implies #[trigger] self.ram@[i] == loaded[i] by {
                        assert(self.ram@[i] == m1.ram@[i]);
                    }
                    assert(m1.vram_view() =~= old(self).vram_view());
                    assert(m1.screen() == old(self).screen());
                }
            },
            Err(_) => {},
        }
        r
    }

    /// `SAVE slot`: hands the LIST's `list_size` bytes to `storage`. When the
    /// host stores them, the slot is remembered and "Saved N byte" is
    /// reported (unless in quiet mode); when it fails, the result is
    /// `FileError` and nothing changes.
    pub fn save_program<S: Storage>(&mut self, storage: &mut S, slot: u8) -> (r: Result<(), BasicError>)
        requires
            old(self).wf(),
            OFFSET_RAM_LIST + old(self).list_size <= SIZE_RAM,
        ensures
            final(self).wf(),
            r is Ok ==> final(storage).slot_bytes(slot) == Some(old(self).ram@.subrange(
                    OFFSET_RAM_LIST as int, OFFSET_RAM_LIST + old(self).list_size))
                && final(self).same_outside_screen(&Machine { ram: final(self).ram, last_file_slot: slot, ..*old(self) })
                && final(self).screen() == if old(self).is_quiet_mode {
                        old(self).screen()
                    } else {
                        spec_puts(old(self).screen(), saved_message(old(self).list_size))
                    },
            r is Err ==> r == Err::<(), BasicError>(BasicError::FileError) && *final(self) == *old(self),
    {
        let size = self.list_size as usize;
        let mut data: Vec<u8> = Vec::new();
        let mut i: usize = 0;
        while i < size
            invariant
                self.wf(),
                size == self.list_size,
                OFFSET_RAM_LIST + size <= SIZE_RAM,
                i <= size,
                data@ == self.ram@.subrange(OFFSET_RAM_LIST as int, OFFSET_RAM_LIST + i),
            decreases size - i,
        {
            data.push(self.ram[OFFSET_RAM_LIST + i]);
            i = i + 1;
            assert(data@ =~= self.ram@.subrange(OFFSET_RAM_LIST as int, OFFSET_RAM_LIST + i));
        }
        if !storage.save(slot, data.as_slice()) {
            return Err(BasicError::FileError);
        }
        self.last_file_slot = slot;
        let ghost m1 = *self;
        if !self.is_quiet_mode {
            let head: [u8; 6] = [83, 97, 118, 101, 100, 32];
            let tail: [u8; 5] = [98, 121, 116, 101, 10];
            let ghost s0 = self.screen();
            self.screen_puts(head.as_slice());
            let ghost m2 = *self;
            self.put_num(size as i32);
            let ghost m3 = *self;
            self.screen_puts(tail.as_slice());
            proof {
                lemma_same_outside_trans(&m1, &m2, &m3);
                lemma_same_outside_trans(&m1, &m3, self);
                lemma_puts_concat(s0, head@, num_text(size as i32));
                lemma_puts_concat(s0, head@ + num_text(size as i32), tail@);
                assert(head@ + num_text(size as i32) + tail@ =~= saved_message(size as u16));
            }
        }
        Ok(())
    }
}

/// A LIST whose chain check succeeds is a proper chain.
pub proof fn lemma_chain_end_ok(ram: Seq<u8>, index: int, last: i16)
    requires
        chain_end(ram, index, last) is Some,
        0 <= index < SIZE_RAM_LIST - 2,
    ensures
        chain_ok(ram, index, last, chain_end(ram, index, last)->0),
    decreases SIZE_RAM_LIST + 300 - index,
{
    let num = list_number_at(ram, index);
    if num != 0 {
        let next = index + list_length_at(ram, index) + 4;
        lemma_chain_end_ok(ram, next, num);
    }
}

/// A proper chain can be edited for any line number: the search stops
/// inside it and a found line lies inside it.
pub proof fn lemma_chain_editable(ram: Seq<u8>, index: int, last: i16, size: int, number: i16)
    requires
        chain_ok(ram, index, last, size),
    ensures
        index <= list_find_from(ram, index, number) <= size,
        size + 2 <= SIZE_RAM_LIST,
        number > 0 && list_number_at(ram, list_find_from(ram, index, number)) == number ==> ({
            let f = list_find_from(ram, index, number);
            f + list_length_at(ram, f) + 4 <= size
        }),
    decreases SIZE_RAM_LIST + 300 - index,
{
    let num = list_number_at(ram, index);
    if num != 0 {
        let next = index + list_length_at(ram, index) + 4;
        lemma_chain_editable(ram, next, num, size, number);
        lemma_chain_bounds(ram, next, num, size);
    }
}

/// The end marker of a proper chain lies at or after where the chain starts,
/// inside the LIST.
proof fn lemma_chain_bounds(ram: Seq<u8>, index: int, last: i16, size: int)
    requires
        chain_ok(ram, index, last, size),
    ensures
        0 <= index <= size,
        size + 2 <= SIZE_RAM_LIST,
        list_number_at(ram, size) == 0,
    decreases SIZE_RAM_LIST + 300 - index,
{
    let num = list_number_at(ram, index);
    if num != 0 {
        lemma_chain_bounds(ram, index + list_length_at(ram, index) + 4, num, size);
    }
}

/// The chain check of a LIST that holds the bytes of a proper chain up to its
/// end marker (and zeros there) ends where that chain ends.
proof fn lemma_chain_loads(ram: Seq<u8>, l: Seq<u8>, index: int, last: i16, size: int)
    requires
        chain_ok(ram, index, last, size),
        size < SIZE_RAM_LIST - 2,
        ram.len() == SIZE_RAM,
        l.len() == SIZE_RAM,
        forall|i: int| 0 <= i < size ==> #[trigger] l[OFFSET_RAM_LIST + i] == ram[OFFSET_RAM_LIST + i],
        l[OFFSET_RAM_LIST + size] == 0,
        l[OFFSET_RAM_LIST + size + 1] == 0,
    ensures
        chain_end(l, index, last) == Some(size),
    decreases SIZE_RAM_LIST + 300 - index,
{
    lemma_chain_bounds(ram, index, last, size);
    let num = list_number_at(ram, index);
    if num == 0 {
        assert(index == size);
        assert(list_number_at(l, index) == 0);
    } else {
        let next = index + list_length_at(ram, index) + 4;
        lemma_chain_bounds(ram, next, num, size);
        assert(l[OFFSET_RAM_LIST + index] == ram[OFFSET_RAM_LIST + index]);
        let i1 = index + 1;
        let i2 = index + 2;
        assert(l[OFFSET_RAM_LIST + i1] == ram[OFFSET_RAM_LIST + i1]);
        assert(l[OFFSET_RAM_LIST + i2] == ram[OFFSET_RAM_LIST + i2]);
        assert(list_number_at(l, index) == num);
        assert(list_length_at(l, index) == list_length_at(ram, index));
        lemma_chain_loads(ram, l, next, num, size);
    }
}

/// What SAVE writes of a proper chain of lines (its `size` bytes), LOAD reads
/// back: LOAD takes all of it from the slot, the chain check accepts it with
/// the same size, and the LIST holds the saved bytes followed by zeros. (A LIST of 1024 bytes, which leaves only its
/// end marker free, is refused by the chain check and is left out.)
pub proof fn lemma_saved_list_loads_back(ram0: Seq<u8>, ram: Seq<u8>, size: int)
    requires
        ram0.len() == SIZE_RAM,
        ram.len() == SIZE_RAM,
        chain_ok(ram, 0, 0, size),
        size < SIZE_RAM_LIST - 2,
    ensures
        ({
            let data = ram.subrange(OFFSET_RAM_LIST as int, OFFSET_RAM_LIST + size);
            let l = ram_loaded(ram0, data);
            &&& slot_load_data(data) == data
            &&& chain_end(l, 0, 0) == Some(size)
            &&& forall|i: int| 0 <= i < SIZE_RAM_LIST ==> #[trigger] l[OFFSET_RAM_LIST + i]
                == (if i < size { ram[OFFSET_RAM_LIST + i] } else { 0u8 })
        }),
{
    lemma_chain_bounds(ram, 0, 0, size);
    let data = ram.subrange(OFFSET_RAM_LIST as int, OFFSET_RAM_LIST + size);
    let l = ram_loaded(ram0, data);
    assert forall|i: int| 0 <= i < size implies #[trigger] l[OFFSET_RAM_LIST + i] == ram[OFFSET_RAM_LIST + i] by {
        assert(data[i] == ram[OFFSET_RAM_LIST + i]);
    }
    assert(l[OFFSET_RAM_LIST + size] == 0);
    assert(l[OFFSET_RAM_LIST + size + 1] == 0);
    lemma_chain_loads(ram, l, 0, 0, size);
}

/// A program that `list_load` accepted can be edited for any line number.
pub proof fn lemma_loaded_list_editable(ram: Seq<u8>, number: i16)
    requires
        chain_end(ram, 0, 0) is Some,
    ensures
        list_editable(ram, chain_end(ram, 0, 0)->0, number),
{
    lemma_chain_end_ok(ram, 0, 0);
    lemma_chain_editable(ram, 0, 0, chain_end(ram, 0, 0)->0, number);
}

/// What `LIST` prints from the line at `index` on: each line numbered from
/// `min` up, as its number, a space, its text and a new line, until the end
/// or a number above `max`.
pub open spec fn listing(ram: Seq<u8>, index: int, min: i16, max: int) -> Seq<u8>
    decreases SIZE_RAM_LIST + 300 - index,
{
    let num = list_number_at(ram, index);
    if num == 0 || num > max || index < 0 || index + 2 > SIZE_RAM_LIST {
        Seq::empty()
    } else {
        let line = if num >= min {
            num_text(num as i32) + seq![32u8] + line_text(ram, index) + seq![10u8]
        } else {
            Seq::empty()
        };
        line + listing(ram, index + list_length_at(ram, index) + 4, min, max)
    }
}

/// The upper bound that `LIST` uses: a 0 bound means all lines (up to 16384),
/// or none when `min` is above that.
pub open spec fn list_max(min: i16, max: i32) -> int {
    if max == 0 { if min > 16384 { -1 } else { 16384 } } else { max as int }
}

impl Machine {
    /// `LIST min, max` once its arguments are read: prints the lines whose
    /// numbers lie in `min..=max` (see [`listing`] and [`list_max`]).
    pub fn list_lines(&mut self, min: i16, max: i32)
        requires
            old(self).wf(),
        ensures
            final(self).wf(),
            final(self).screen() == spec_puts(old(self).screen(), listing(old(self).ram@, 0, min, list_max(min, max))),
            final(self).same_outside_screen(old(self)),
    {
        let mut hi = max;
        if hi == 0 {
            hi = 16384;
            if min as i32 > hi {
                hi = -1;
            }
        }
        let ghost s0 = self.screen();
        let ghost ram0 = self.ram@;
        let ghost mut printed: Seq<u8> = Seq::empty();
        let mut index: u16 = 0;
        loop
            invariant
                self.wf(),
                self.same_outside_screen(old(self)),
                ram0 == old(self).ram@,
                s0 == old(self).screen(),
                hi == list_max(min, max),
                index <= SIZE_RAM_LIST + 259,
                self.screen() == spec_puts(s0, printed),
                printed + listing(ram0, index as int, min, hi as int) == listing(ram0, 0, min, hi as int),
            ensures
                self.wf(),
                self.same_outside_screen(old(self)),
                self.screen() == spec_puts(s0, listing(ram0, 0, min, hi as int)),
            decreases SIZE_RAM_LIST + 300 - index,
        {
            proof { self.lemma_list_bytes_kept(old(self)); }
            let num = self.list_get_number(index);
            assert(list_number_at(self.ram@, index as int) == list_number_at(ram0, index as int));
            if num == 0 || num as i32 > hi {
                assert(printed =~= printed + listing(ram0, index as int, min, hi as int));
                break;
            }
            let len = self.list_get_length(index);
            assert(len == list_length_at(ram0, index as int));
            let ghost rest = listing(ram0, index + len + 4, min, hi as int);
            if num >= min {
                let ghost before = *self;
                self.put_list_line(index, num);
                proof {
                    lemma_same_outside_trans(old(self), &before, self);
                    lemma_agree_list_line(ram0, before.ram@, index as int);
                    let line = num_text(num as i32) + seq![32u8] + line_text(ram0, index as int) + seq![10u8];
                    lemma_puts_concat(s0, printed, line);
                    assert(printed + line + rest =~= printed + listing(ram0, index as int, min, hi as int));
                    printed = printed + line;
                }
            } else {
                assert(printed + rest =~= printed + listing(ram0, index as int, min, hi as int));
            }
            index = index + len as u16 + 4;
        }
    }

    /// Screen output leaves the LIST and everything after it alone.
    proof fn lemma_list_bytes_kept(&self, other: &Machine)
        requires
            self.same_outside_screen(other),
            self.ram@.len() == SIZE_RAM,
        ensures
            forall|j: int| OFFSET_RAM_LIST <= j < SIZE_RAM ==> #[trigger] self.ram@[j] == other.ram@[j],
    {
        assert forall|j: int| OFFSET_RAM_LIST <= j < SIZE_RAM implies #[trigger] self.ram@[j] == other.ram@[j] by {
            assert(self.ram@[j] == other.ram@[j]);
        }
    }

    /// Prints one LIST line: its number, a space, its text and a new line.
    fn put_list_line(&mut self, index: u16, num: i16)
        requires
            old(self).wf(),
            index + 2 <= SIZE_RAM_LIST,
        ensures
            final(self).wf(),
            final(self).same_outside_screen(old(self)),
            final(self).screen() == spec_puts(old(self).screen(),
                num_text(num as i32) + seq![32u8] + line_text(old(self).ram@, index as int) + seq![10u8]),
    {
        let ghost s0 = self.screen();
        let ghost ram0 = self.ram@;
        let ghost nt = num_text(num as i32);
        self.put_num(num as i32);
        let ghost m1 = *self;
        self.put_chr(32);
        let ghost mut printed: Seq<u8> = nt + seq![32u8];
        proof {
            lemma_same_outside_trans(old(self), &m1, self);
            lemma_puts_push(s0, nt, 32);
            assert(nt.push(32) =~= printed);
        }
        let p0: usize = OFFSET_RAM_LIST + index as usize + 3;
        let mut p: usize = p0;
        while p < SIZE_RAM
            invariant
                self.wf(),
                self.same_outside_screen(old(self)),
                ram0 == old(self).ram@,
                p0 == OFFSET_RAM_LIST + index + 3,
                p0 <= p <= SIZE_RAM,
                first_zero(ram0, p0 as int, SIZE_RAM as int) == first_zero(ram0, p as int, SIZE_RAM as int),
                self.screen() == spec_puts(s0, printed + ram0.subrange(p0 as int, p as int)),
            ensures
                self.wf(),
                self.same_outside_screen(old(self)),
                first_zero(ram0, p0 as int, SIZE_RAM as int) == p,
                self.screen() == spec_puts(s0, printed + ram0.subrange(p0 as int, p as int)),
            decreases SIZE_RAM - p,
        {
            let c = self.ram[p];
            assert(c == ram0[p as int]);
            if c == 0 {
                assert(first_zero(ram0, p as int, SIZE_RAM as int) == p);
                break;
            }
            let ghost before = *self;
            self.put_chr(c);
            proof {
                lemma_same_outside_trans(old(self), &before, self);
                lemma_puts_push(s0, printed + ram0.subrange(p0 as int, p as int), c);
                assert((printed + ram0.subrange(p0 as int, p as int)).push(c)
                    =~= printed + ram0.subrange(p0 as int, p + 1));
            }
            p = p + 1;
        }
        let ghost m2 = *self;
        self.put_chr(10);
        proof {
            lemma_same_outside_trans(old(self), &m2, self);
            let body = printed + ram0.subrange(p0 as int, p as int);
            lemma_puts_push(s0, body, 10);
            assert(body.push(10) =~= nt + seq![32u8] + line_text(ram0, index as int) + seq![10u8]);
        }
    }

    /// The power switch: the machine restarts as new (the PCG from `font`)
    /// and prints its banner, `IchigoCrate BASIC 1.0` and a new line.
    pub fn power_on_reset(&mut self, font: &[u8])
        requires
            font@.len() >= 2048,
        ensures
            final(self).wf(),
            final(self).pc == crate::machine::PC_NULL,
            final(self).list_size == 0,
            forall|j: int| 0 <= j < SIZE_RAM ==> #[trigger] final(self).ram@[j] == (
                if j < 256 { font@[1792 + j] }
                else if crate::ram::OFFSET_RAM_VRAM <= j < crate::ram::OFFSET_RAM_VRAM + crate::ram::SIZE_RAM_VRAM {
                    final(self).vram_view()[j - crate::ram::OFFSET_RAM_VRAM]
                } else { 0u8 }),
            final(self).screen() == spec_puts(power_on_screen(), banner()),
    {
        *self = Machine::new();
        self.reset_pcg_to_font(font);
        let ghost fresh = *self;
        assert(self.screen() == power_on_screen()) by {
            assert(self.vram_view() =~= Seq::new(crate::ram::SIZE_RAM_VRAM as nat, |i: int| 0u8));
        }
        let text: [u8; 22] = [73, 99, 104, 105, 103, 111, 67, 114, 97, 116, 101, 32, 66, 65, 83, 73, 67, 32, 49, 46, 48, 10];
        self.screen_puts(text.as_slice());
        assert(text@ =~= banner());
        proof {
            assert forall|j: int| 0 <= j < SIZE_RAM && !(crate::ram::OFFSET_RAM_VRAM <= j < crate::ram::OFFSET_RAM_VRAM + crate::ram::SIZE_RAM_VRAM)
                implies #[trigger] self.ram@[j] == fresh.ram@[j] by {}
        }
    }
}

/// The screen right after power-on: empty, cursor home, 32x24, overwrite.
pub open spec fn power_on_screen() -> crate::screen::ScreenState {
    crate::screen::ScreenState {
        vram: Seq::new(crate::ram::SIZE_RAM_VRAM as nat, |i: int| 0u8),
        cx: 0,
        cy: 0,
        w: 32,
        h: 24,
        overwrite: true,
        pending: 0,
        kana: false,
        toggle: false,
    }
}

/// The power-on banner: "IchigoCrate BASIC 1.0" and a new line.
pub open spec fn banner() -> Seq<u8> {
    seq![73u8, 99u8, 104u8, 105u8, 103u8, 111u8, 67u8, 114u8, 97u8, 116u8, 101u8, 32u8,
        66u8, 65u8, 83u8, 73u8, 67u8, 32u8, 49u8, 46u8, 48u8, 10u8]
}

/// A LIST line reads the same from RAM that agrees from the LIST on.
proof fn lemma_agree_list_line(a: Seq<u8>, b: Seq<u8>, index: int)
    requires
        a.len() == SIZE_RAM,
        b.len() == SIZE_RAM,
        0 <= index,
        index + 2 <= SIZE_RAM_LIST,
        forall|j: int| OFFSET_RAM_LIST <= j < SIZE_RAM ==> #[trigger] b[j] == a[j],
    ensures
        line_text(a, index) == line_text(b, index),
{
    let p = OFFSET_RAM_LIST + index + 3;
    assert forall|j: int| p <= j < SIZE_RAM implies a[j] == b[j] by {
        assert(b[j] == a[j]);
    }
    crate::print::lemma_first_zero_agree(a, b, p, SIZE_RAM as int);
    crate::print::lemma_first_zero_bounds(a, p, SIZE_RAM as int);
    assert(line_text(a, index) =~= line_text(b, index));
}

/// A chain stays proper when the number it must rise above is lowered.
proof fn lemma_chain_relast(ram: Seq<u8>, index: int, a: i16, b: i16, size: int)
    requires
        chain_ok(ram, index, a, size),
        b <= a,
    ensures
        chain_ok(ram, index, b, size),
{
}

/// A chain that starts with a number above `b` is proper above `b`.
proof fn lemma_chain_first_above(ram: Seq<u8>, index: int, a: i16, b: i16, size: int)
    requires
        chain_ok(ram, index, a, size),
        list_number_at(ram, index) == 0 || list_number_at(ram, index) > b,
    ensures
        chain_ok(ram, index, b, size),
{
}

/// The end marker's bytes are both 0.
proof fn lemma_end_marker_bytes(ram: Seq<u8>, index: int)
    requires
        0 <= index,
        index + 2 <= SIZE_RAM_LIST,
        OFFSET_RAM_LIST + index + 1 < ram.len(),
        list_number_at(ram, index) == 0,
    ensures
        ram[OFFSET_RAM_LIST + index] == 0,
        ram[OFFSET_RAM_LIST + index + 1] == 0,
{
    let lo = ram[OFFSET_RAM_LIST + index];
    let hi = ram[OFFSET_RAM_LIST + index + 1];
    assert((lo as int + 256 * (hi as int)) as i16 == 0);
    assert(lo == 0 && hi == 0) by (bit_vector)
        requires (lo as int + 256 * (hi as int)) as i16 == 0;
}

/// The search for `number` in a proper chain stops at a place where the chain
/// goes on properly above `number - 1`.
proof fn lemma_chain_at_find(ram: Seq<u8>, index: int, last: i16, size: int, number: i16)
    requires
        chain_ok(ram, index, last, size),
        last < number,
    ensures
        chain_ok(ram, list_find_from(ram, index, number), (number - 1) as i16, size),
    decreases SIZE_RAM_LIST + 300 - index,
{
    let num = list_number_at(ram, index);
    if num != 0 && num < number {
        lemma_chain_at_find(ram, index + list_length_at(ram, index) + 4, num, size, number);
    }
}

/// A proper chain moved by `d` bytes (its end marker with it) is proper at
/// its new place.
proof fn lemma_chain_moved(a: Seq<u8>, b: Seq<u8>, index: int, last: i16, size: int, d: int)
    requires
        a.len() == SIZE_RAM,
        b.len() == SIZE_RAM,
        chain_ok(a, index, last, size),
        0 <= index + d,
        size + d <= SIZE_RAM_LIST - 2,
        forall|j: int| index <= j < size + 2 ==> #[trigger] b[OFFSET_RAM_LIST + j + d] == a[OFFSET_RAM_LIST + j],
    ensures
        chain_ok(b, index + d, last, size + d),
    decreases SIZE_RAM_LIST + 300 - index,
{
    let num = list_number_at(a, index);
    lemma_chain_bounds(a, index, last, size);
    assert(b[OFFSET_RAM_LIST + index + d] == a[OFFSET_RAM_LIST + index]);
    assert(b[OFFSET_RAM_LIST + (index + 1) + d] == a[OFFSET_RAM_LIST + index + 1]);
    if num != 0 {
        let next = index + list_length_at(a, index) + 4;
        assert(b[OFFSET_RAM_LIST + (index + 2) + d] == a[OFFSET_RAM_LIST + index + 2]);
        lemma_chain_bounds(a, next, num, size);
        lemma_chain_moved(a, b, next, num, size, d);
        assert(next + d == index + d + list_length_at(b, index + d) + 4);
    }
}

/// Changing the LIST only from the stop of the search for `number` on keeps
/// the lines before it; if the chain from there is proper above `number - 1`,
/// the whole chain is proper.
proof fn lemma_chain_prefix(a: Seq<u8>, b: Seq<u8>, index: int, last: i16, sa: int, sb: int, number: i16)
    requires
        chain_ok(a, index, last, sa),
        last < number,
        a.len() == SIZE_RAM,
        b.len() == SIZE_RAM,
        forall|j: int| OFFSET_RAM_LIST + index <= j < OFFSET_RAM_LIST + list_find_from(a, index, number)
            ==> #[trigger] b[j] == a[j],
        chain_ok(b, list_find_from(a, index, number), (number - 1) as i16, sb),
    ensures
        chain_ok(b, index, last, sb),
    decreases SIZE_RAM_LIST + 300 - index,
{
    let num = list_number_at(a, index);
    let f = list_find_from(a, index, number);
    if num != 0 && num < number {
        let next = index + list_length_at(a, index) + 4;
        crate::memory::lemma_list_find_stops(a, next, number);
        assert(b[OFFSET_RAM_LIST + index] == a[OFFSET_RAM_LIST + index]);
        assert(b[OFFSET_RAM_LIST + index + 1] == a[OFFSET_RAM_LIST + index + 1]);
        assert(b[OFFSET_RAM_LIST + index + 2] == a[OFFSET_RAM_LIST + index + 2]);
        lemma_chain_prefix(a, b, next, num, sa, sb, number);
    } else {
        lemma_chain_relast(b, index, (number - 1) as i16, last, sb);
    }
}

/// Editing a line keeps the LIST a proper chain of rising line numbers: after
/// the old line is gone, and after the new line is in (for a text of up to
/// 254 characters, whose length byte can hold it).
pub proof fn lemma_edit_keeps_chain(ram0: Seq<u8>, size0: int, number: i16, pc: int)
    requires
        ram0.len() == SIZE_RAM,
        number > 0,
        chain_ok(ram0, 0, 0, size0),
    ensures
        ({
            let ram1 = ram_after_delete(ram0, size0, number);
            let size1 = size_after_delete(ram0, size0, number);
            let p = trim_start(ram1, pc);
            let f = edit_slot(ram0, number);
            &&& list_editable(ram0, size0, number)
            &&& chain_ok(ram1, 0, 0, size1)
            &&& (text_outside_list(ram1, p) && ram_at_spec(ram1, p) != 0
                && size_after_insert(ram1, size1, p) + 2 <= SIZE_RAM_LIST && text_len(ram1, p) < 255
                ==> chain_ok(ram_after_insert(ram1, size1, f, number, p), 0, 0, size_after_insert(ram1, size1, p)))
        }),
{
    let ram1 = ram_after_delete(ram0, size0, number);
    let size1 = size_after_delete(ram0, size0, number);
    let p = trim_start(ram1, pc);
    let f = edit_slot(ram0, number);
    lemma_chain_editable(ram0, 0, 0, size0, number);
    lemma_chain_at_find(ram0, 0, 0, size0, number);
    crate::memory::lemma_list_find_stops(ram0, 0, number);
    // the chain from f in ram1 is proper above `number`
    if has_line(ram0, number) {
        let len = line_span(ram0, f);
        let next = f + len;
        lemma_chain_bounds(ram0, next, number, size0);
        lemma_chain_bounds(ram0, 0, 0, size0);
        lemma_end_marker_bytes(ram0, size0);
        assert forall|j: int| next <= j < size0 + 2 implies #[trigger] ram1[OFFSET_RAM_LIST + j + (-len)] == ram0[OFFSET_RAM_LIST + j] by {
            if j >= size0 {
                assert(ram1[OFFSET_RAM_LIST + j - len] == 0);
            }
        }
        lemma_chain_moved(ram0, ram1, next, number, size0, -len);
        assert(next + (-len) == f);
    } else {
        lemma_chain_first_above(ram0, f, (number - 1) as i16, number, size0);
    }
    assert(chain_ok(ram1, f, number, size1));
    lemma_chain_relast(ram1, f, number, (number - 1) as i16, size1);
    lemma_chain_prefix(ram0, ram1, 0, 0, size0, size1, number);
    if text_outside_list(ram1, p) && ram_at_spec(ram1, p) != 0
        && size_after_insert(ram1, size1, p) + 2 <= SIZE_RAM_LIST && text_len(ram1, p) < 255 {
        let n = text_len(ram1, p);
        let new_size = size_after_insert(ram1, size1, p);
        let shift = new_size - size1;
        let ram2 = ram_after_insert(ram1, size1, f, number, p);
        crate::print::lemma_first_zero_bounds(ram1, p, ram1.len() as int);
        lemma_chain_bounds(ram1, f, number, size1);
        lemma_end_marker_bytes(ram1, size1);
        assert forall|j: int| f <= j < size1 + 2 implies #[trigger] ram2[OFFSET_RAM_LIST + j + shift] == ram1[OFFSET_RAM_LIST + j] by {}
        lemma_chain_moved(ram1, ram2, f, number, size1, shift);
        crate::memory::lemma_le_i16_round_trip(number);
        assert(list_number_at(ram2, f) == number);
        assert(list_length_at(ram2, f) == n + n % 2);
        assert(chain_ok(ram2, f, (number - 1) as i16, new_size));
        assert forall|j: int| OFFSET_RAM_LIST <= j < OFFSET_RAM_LIST + f implies #[trigger] ram2[j] == ram0[j] by {
            assert(ram1[j] == ram0[j]);
        }
        lemma_chain_prefix(ram0, ram2, 0, 0, size0, new_size, number);
    }
}

/// The lines of the LIST from `index` on, in order: each as its number and
/// the bytes after the number (length byte, text, NUL and pad).
pub open spec fn list_records(ram: Seq<u8>, index: int) -> Seq<(i16, Seq<u8>)>
    decreases SIZE_RAM_LIST + 300 - index,
{
    let num = list_number_at(ram, index);
    if num == 0 || index < 0 || index + 2 > SIZE_RAM_LIST {
        Seq::empty()
    } else {
        let next = index + list_length_at(ram, index) + 4;
        seq![(num, ram.subrange(OFFSET_RAM_LIST + index + 2, OFFSET_RAM_LIST + next))]
            + list_records(ram, next)
    }
}

/// The lines from `index` on that come before line `number` (those with a
/// smaller number, up to where the search for `number` stops).
pub open spec fn records_below(ram: Seq<u8>, index: int, number: i16) -> Seq<(i16, Seq<u8>)>
    decreases SIZE_RAM_LIST + 300 - index,
{
    let num = list_number_at(ram, index);
    if num == 0 || num >= number || index < 0 || index + 2 > SIZE_RAM_LIST {
        Seq::empty()
    } else {
        let next = index + list_length_at(ram, index) + 4;
        seq![(num, ram.subrange(OFFSET_RAM_LIST + index + 2, OFFSET_RAM_LIST + next))]
            + records_below(ram, next, number)
    }
}

/// The record that the edit stores for a text of `n` bytes at `p`: the
/// length byte, the text, its NUL and a pad NUL for an odd length.
pub open spec fn new_record(ram1: Seq<u8>, p: int, n: int) -> Seq<u8> {
    seq![(n + n % 2) as u8] + ram1.subrange(p, p + n) + seq![0u8]
        + (if n % 2 == 1 { seq![0u8] } else { Seq::empty() })
}

/// The lines split where the search for `number` stops.
proof fn lemma_records_split(ram: Seq<u8>, index: int, number: i16)
    ensures
        list_records(ram, index) == records_below(ram, index, number) + list_records(ram, list_find_from(ram, index, number)),
    decreases SIZE_RAM_LIST + 300 - index,
{
    let num = list_number_at(ram, index);
    if num == 0 || num >= number || index < 0 || index + 2 > SIZE_RAM_LIST {
        assert(records_below(ram, index, number) + list_records(ram, index) =~= list_records(ram, index));
    } else {
        let next = index + list_length_at(ram, index) + 4;
        lemma_records_split(ram, next, number);
        let r = seq![(num, ram.subrange(OFFSET_RAM_LIST + index + 2, OFFSET_RAM_LIST + next))];
        assert(r + records_below(ram, next, number) + list_records(ram, list_find_from(ram, next, number))
            =~= r + (records_below(ram, next, number) + list_records(ram, list_find_from(ram, next, number))));
    }
}

/// A RAM that agrees with a proper chain up to where the search for `number`
/// stops has the same lines before that place.
proof fn lemma_records_prefix(a: Seq<u8>, b: Seq<u8>, index: int, last: i16, size: int, number: i16)
    requires
        chain_ok(a, index, last, size),
        a.len() == SIZE_RAM,
        b.len() == SIZE_RAM,
        forall|j: int| OFFSET_RAM_LIST + index <= j < OFFSET_RAM_LIST + list_find_from(a, index, number)
            ==> #[trigger] b[j] == a[j],
    ensures
        list_records(b, index) == records_below(a, index, number) + list_records(b, list_find_from(a, index, number)),
    decreases SIZE_RAM_LIST + 300 - index,
{
    let num = list_number_at(a, index);
    let f = list_find_from(a, index, number);
    lemma_chain_bounds(a, index, last, size);
    if num != 0 && num < number {
        let next = index + list_length_at(a, index) + 4;
        lemma_chain_editable(a, next, num, size, number);
        assert(b[OFFSET_RAM_LIST + index] == a[OFFSET_RAM_LIST + index]);
        assert(b[OFFSET_RAM_LIST + index + 1] == a[OFFSET_RAM_LIST + index + 1]);
        assert(b[OFFSET_RAM_LIST + index + 2] == a[OFFSET_RAM_LIST + index + 2]);
        assert(list_number_at(b, index) == num);
        assert(list_length_at(b, index) == list_length_at(a, index));
        lemma_records_prefix(a, b, next, num, size, number);
        let rb = b.subrange(OFFSET_RAM_LIST + index + 2, OFFSET_RAM_LIST + next);
        let ra = a.subrange(OFFSET_RAM_LIST + index + 2, OFFSET_RAM_LIST + next);
        assert(rb =~= ra);
        let r = seq![(num, ra)];
        assert(r + records_below(a, next, number) + list_records(b, f)
            =~= r + (records_below(a, next, number) + list_records(b, f)));
    } else {
        assert(records_below(a, index, number) + list_records(b, index) =~= list_records(b, index));
    }
}

/// A proper chain moved by `d` bytes (its end marker with it) has the same
/// lines at its new place.
proof fn lemma_records_moved(a: Seq<u8>, b: Seq<u8>, index: int, last: i16, size: int, d: int)
    requires
        a.len() == SIZE_RAM,
        b.len() == SIZE_RAM,
        chain_ok(a, index, last, size),
        0 <= index + d,
        size + d <= SIZE_RAM_LIST - 2,
        forall|j: int| index <= j < size + 2 ==> #[trigger] b[OFFSET_RAM_LIST + j + d] == a[OFFSET_RAM_LIST + j],
    ensures
        list_records(b, index + d) == list_records(a, index),
    decreases SIZE_RAM_LIST + 300 - index,
{
    let num = list_number_at(a, index);
    lemma_chain_bounds(a, index, last, size);
    assert(b[OFFSET_RAM_LIST + index + d] == a[OFFSET_RAM_LIST + index]);
    assert(b[OFFSET_RAM_LIST + (index + 1) + d] == a[OFFSET_RAM_LIST + index + 1]);
    if num != 0 {
        let next = index + list_length_at(a, index) + 4;
        assert(b[OFFSET_RAM_LIST + (index + 2) + d] == a[OFFSET_RAM_LIST + index + 2]);
        lemma_chain_bounds(a, next, num, size);
        lemma_records_moved(a, b, next, num, size, d);
        assert(next + d == index + d + list_length_at(b, index + d) + 4);
        let rb = b.subrange(OFFSET_RAM_LIST + index + d + 2, OFFSET_RAM_LIST + next + d);
        let ra = a.subrange(OFFSET_RAM_LIST + index + 2, OFFSET_RAM_LIST + next);
        assert forall|k: int| 0 <= k < ra.len() implies rb[k] == ra[k] by {
            let j = index + 2 + k;
            assert(b[OFFSET_RAM_LIST + j + d] == a[OFFSET_RAM_LIST + j]);
        }
        assert(rb =~= ra);
    } else {
        assert(list_number_at(b, index + d) == 0);
    }
}

/// The bytes after the number of a stored line are its new record.
proof fn lemma_inserted_record(ram1: Seq<u8>, size1: int, f: int, number: i16, p: int)
    requires
        ram1.len() == SIZE_RAM,
        0 <= f <= size1,
        0 <= p,
        size_after_insert(ram1, size1, p) + 2 <= SIZE_RAM_LIST,
        text_len(ram1, p) < 255,
        p <= first_zero(ram1, p, ram1.len() as int) <= ram1.len(),
    ensures
        ({
            let n = text_len(ram1, p);
            let ram2 = ram_after_insert(ram1, size1, f, number, p);
            ram2.subrange(OFFSET_RAM_LIST + f + 2, OFFSET_RAM_LIST + f + n + n % 2 + 4) == new_record(ram1, p, n)
        }),
{
    let n = text_len(ram1, p);
    let ram2 = ram_after_insert(ram1, size1, f, number, p);
    let rec = ram2.subrange(OFFSET_RAM_LIST + f + 2, OFFSET_RAM_LIST + f + n + n % 2 + 4);
    let nr = new_record(ram1, p, n);
    assert(nr.len() == n + n % 2 + 2);
    lemma_at_first_zero(ram1, p, ram1.len() as int);
    if p + n < ram1.len() {
        assert(ram1[p + n] == 0);
    }
    assert forall|k: int| 0 <= k < rec.len() implies rec[k] == nr[k] by {
        if 1 <= k < 1 + n {
            assert(ram_at_spec(ram1, p + (k - 1)) == ram1[p + (k - 1)]);
        }
    }
    assert(rec =~= nr);
}

/// Editing a line changes that line alone: every other line stays, with the
/// same bytes and in the same order. Deleting takes line `number` out; storing
/// a text (of up to 254 characters, whose length byte can hold it) puts line
/// `number` with that text where it belongs, between the lines below and the
/// lines above it.
#[verifier::spinoff_prover]
#[verifier::rlimit(60)]
pub proof fn lemma_edit_keeps_other_lines(ram0: Seq<u8>, size0: int, number: i16, pc: int)
    requires
        ram0.len() == SIZE_RAM,
        number > 0,
        chain_ok(ram0, 0, 0, size0),
    ensures
        ({
            let ram1 = ram_after_delete(ram0, size0, number);
            let size1 = size_after_delete(ram0, size0, number);
            let p = trim_start(ram1, pc);
            let f = edit_slot(ram0, number);
            let after = if has_line(ram0, number) { f + line_span(ram0, f) } else { f };
            let below = records_below(ram0, 0, number);
            let above = list_records(ram0, after);
            &&& list_records(ram0, 0) == below
                + (if has_line(ram0, number) { list_records(ram0, f).subrange(0, 1) } else { Seq::empty() })
                + above
            &&& list_records(ram1, 0) == below + above
            &&& (text_outside_list(ram1, p) && ram_at_spec(ram1, p) != 0
                && size_after_insert(ram1, size1, p) + 2 <= SIZE_RAM_LIST && text_len(ram1, p) < 255
                ==> list_records(ram_after_insert(ram1, size1, f, number, p), 0)
                    == below + seq![(number, new_record(ram1, p, text_len(ram1, p)))] + above)
        }),
{
    let ram1 = ram_after_delete(ram0, size0, number);
    let size1 = size_after_delete(ram0, size0, number);
    let p = trim_start(ram1, pc);
    let f = edit_slot(ram0, number);
    let after = if has_line(ram0, number) { f + line_span(ram0, f) } else { f };
    let below = records_below(ram0, 0, number);
    let above = list_records(ram0, after);
    lemma_edit_keeps_chain(ram0, size0, number, pc);
    lemma_chain_editable(ram0, 0, 0, size0, number);
    lemma_chain_at_find(ram0, 0, 0, size0, number);
    crate::memory::lemma_list_find_stops(ram0, 0, number);
    lemma_chain_bounds(ram0, 0, 0, size0);
    lemma_records_split(ram0, 0, number);
    // the old chain around `f`
    if has_line(ram0, number) {
        let len = line_span(ram0, f);
        let next = f + len;
        lemma_chain_bounds(ram0, next, number, size0);
        lemma_end_marker_bytes(ram0, size0);
        assert(list_records(ram0, f) == seq![(number, ram0.subrange(OFFSET_RAM_LIST + f + 2, OFFSET_RAM_LIST + next))]
            + list_records(ram0, next));
        assert(list_records(ram0, f).subrange(0, 1) =~= seq![(number, ram0.subrange(OFFSET_RAM_LIST + f + 2, OFFSET_RAM_LIST + next))]);
        assert(below + list_records(ram0, f) =~= below + list_records(ram0, f).subrange(0, 1) + above);
        assert forall|j: int| next <= j < size0 + 2 implies #[trigger] ram1[OFFSET_RAM_LIST + j + (-len)] == ram0[OFFSET_RAM_LIST + j] by {
            if j >= size0 {
                assert(ram1[OFFSET_RAM_LIST + j - len] == 0);
            }
        }
        lemma_records_moved(ram0, ram1, next, number, size0, -len);
        assert(next + (-len) == f);
    } else {
        assert(below + list_records(ram0, f) =~= below + Seq::<(i16, Seq<u8>)>::empty() + above);
    }
    assert(list_records(ram1, f) == above);
    // ram1 agrees with ram0 before `f`
    assert forall|j: int| OFFSET_RAM_LIST <= j < OFFSET_RAM_LIST + f implies #[trigger] ram1[j] == ram0[j] by {}
    lemma_records_prefix(ram0, ram1, 0, 0, size0, number);
    if text_outside_list(ram1, p) && ram_at_spec(ram1, p) != 0
        && size_after_insert(ram1, size1, p) + 2 <= SIZE_RAM_LIST && text_len(ram1, p) < 255 {
        let n = text_len(ram1, p);
        let new_size = size_after_insert(ram1, size1, p);
        let shift = new_size - size1;
        let ram2 = ram_after_insert(ram1, size1, f, number, p);
        crate::print::lemma_first_zero_bounds(ram1, p, ram1.len() as int);
        // ram1 from `f` on is a proper chain above `number - 1`
        if has_line(ram0, number) {
            let len = line_span(ram0, f);
            lemma_chain_moved(ram0, ram1, f + len, number, size0, -len);
        } else {
            lemma_chain_first_above(ram0, f, (number - 1) as i16, number, size0);
        }
        assert(chain_ok(ram1, f, number, size1));
        lemma_chain_bounds(ram1, f, number, size1);
        lemma_end_marker_bytes(ram1, size1);
        assert forall|j: int| f <= j < size1 + 2 implies #[trigger] ram2[OFFSET_RAM_LIST + j + shift] == ram1[OFFSET_RAM_LIST + j] by {}
        lemma_records_moved(ram1, ram2, f, number, size1, shift);
        crate::memory::lemma_le_i16_round_trip(number);
        assert(list_number_at(ram2, f) == number);
        assert(list_length_at(ram2, f) == n + n % 2);
        lemma_inserted_record(ram1, size1, f, number, p);
        assert(list_records(ram2, f) =~= seq![(number, new_record(ram1, p, n))] + above);
        assert forall|j: int| OFFSET_RAM_LIST <= j < OFFSET_RAM_LIST + f implies #[trigger] ram2[j] == ram0[j] by {
            assert(ram1[j] == ram0[j]);
        }
        lemma_records_prefix(ram0, ram2, 0, 0, size0, number);
        assert(below + (seq![(number, new_record(ram1, p, n))] + above)
            =~= below + seq![(number, new_record(ram1, p, n))] + above);
    }
}

/// How LIST prints the line at LIST offset `f`, numbered `n`.
pub open spec fn listed_line(ram: Seq<u8>, f: int, n: i16) -> Seq<u8> {
    num_text(n as i32) + seq![32u8] + line_text(ram, f) + seq![10u8]
}

/// In a proper chain whose lines from `index` on rise above `last`, listing
/// the single number `n` (above `last`) prints just line `n`.
proof fn lemma_list_one_from(ram: Seq<u8>, index: int, last: i16, size: int, n: i16)
    requires
        chain_ok(ram, index, last, size),
        last < n,
        n > 0,
        list_number_at(ram, list_find_from(ram, index, n)) == n,
    ensures
        listing(ram, index, n, n as int) == listed_line(ram, list_find_from(ram, index, n), n),
    decreases SIZE_RAM_LIST + 300 - index,
{
    let num = list_number_at(ram, index);
    let next = index + list_length_at(ram, index) + 4;
    if num == n {
        assert(chain_ok(ram, next, num, size));
        lemma_chain_bounds(ram, next, num, size);
        assert(listing(ram, next, n, n as int) == Seq::<u8>::empty());
        assert(listing(ram, index, n, n as int) =~= listed_line(ram, index, n));
    } else {
        lemma_list_one_from(ram, next, num, size, n);
        assert(listing(ram, index, n, n as int) =~= listing(ram, next, n, n as int));
    }
}

/// `LIST n` of a program that has line `n` prints that line and nothing
/// else, however the other lines are numbered.
pub proof fn lemma_list_single_line(ram: Seq<u8>, size: int, n: i16)
    requires
        chain_ok(ram, 0, 0, size),
        n > 0,
        has_line(ram, n),
    ensures
        listing(ram, 0, n, n as int) == listed_line(ram, edit_slot(ram, n), n),
{
    lemma_list_one_from(ram, 0, 0, size, n);
}

/// Where every line from `index` on is numbered above `k`, a lower bound up
/// to `k + 1` selects the same lines.
proof fn lemma_list_above(ram: Seq<u8>, index: int, last: i16, size: int, min: i16, k: int, max: int)
    requires
        chain_ok(ram, index, last, size),
        last >= k,
        min <= k + 1,
        k + 1 <= i16::MAX,
    ensures
        listing(ram, index, min, max) == listing(ram, index, (k + 1) as i16, max),
    decreases SIZE_RAM_LIST + 300 - index,
{
    let num = list_number_at(ram, index);
    if num != 0 {
        let next = index + list_length_at(ram, index) + 4;
        lemma_list_above(ram, next, num, size, min, k, max);
    }
}

/// Listing a range of numbers is listing its lower part and then its upper
/// part: `LIST min, max` prints what `LIST min, k` and `LIST k + 1, max`
/// print, one after the other, for any `k` from `min` to below `max`. So a
/// line is printed exactly when its number lies in the range.
pub proof fn lemma_list_split(ram: Seq<u8>, index: int, last: i16, size: int, min: i16, k: i16, max: int)
    requires
        chain_ok(ram, index, last, size),
        min <= k,
        k < max,
        k < i16::MAX,
    ensures
        listing(ram, index, min, max) == listing(ram, index, min, k as int) + listing(ram, index, (k + 1) as i16, max),
    decreases SIZE_RAM_LIST + 300 - index,
{
    let num = list_number_at(ram, index);
    if num == 0 {
        assert(listing(ram, index, min, max) =~= listing(ram, index, min, k as int) + listing(ram, index, (k + 1) as i16, max));
    } else {
        let next = index + list_length_at(ram, index) + 4;
        lemma_chain_bounds(ram, index, last, size);
        if num <= k {
            lemma_list_split(ram, next, num, size, min, k, max);
            let line = if num >= min { listed_line(ram, index, num) } else { Seq::<u8>::empty() };
            assert(listing(ram, index, (k + 1) as i16, max) == listing(ram, next, (k + 1) as i16, max));
            assert(listing(ram, index, min, max) == line + listing(ram, next, min, max));
            assert(listing(ram, index, min, k as int) == line + listing(ram, next, min, k as int));
            assert(listing(ram, index, min, max) =~= listing(ram, index, min, k as int) + listing(ram, index, (k + 1) as i16, max));
        } else if num <= max {
            lemma_list_above(ram, next, num, size, min, k as int, max);
            assert(listing(ram, index, min, k as int) == Seq::<u8>::empty());
            assert(listing(ram, index, min, max) =~= listing(ram, index, min, k as int) + listing(ram, index, (k + 1) as i16, max));
        } else {
            assert(listing(ram, index, min, max) =~= listing(ram, index, min, k as int) + listing(ram, index, (k + 1) as i16, max));
        }
    }
}

} // verus!
