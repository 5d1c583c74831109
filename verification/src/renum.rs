//! RENUM: the lines get new numbers, and the line numbers written after
//! GOTO and GOSUB follow them.
//!
//! A reference is `GOTO` or `GOSUB` (any case, outside a string in double
//! quotes), optional spaces and a run of decimal digits. When the digits name
//! a line of the program, they are replaced by that line's new number, padded
//! with spaces to the same width. A new number with more characters than the
//! digits it replaces does not fit: the whole RENUM is refused with
//! `IllegalArgument` and the program stays as it was.

use vstd::prelude::*;

use crate::errors::BasicError;
use crate::machine::Machine;
use crate::memory::{list_length_at, list_number_at, ram_with_i16};
use crate::ram::{OFFSET_RAM_LIST, SIZE_RAM, SIZE_RAM_LIST};
use crate::romajikana::fold_upper;
use crate::screen::first_zero;

verus! {

/// The LIST ends at `index`: an end marker, or a place outside the LIST.
pub open spec fn chain_stops(ram: Seq<u8>, index: int) -> bool {
    list_number_at(ram, index) == 0 || index < 0 || index + 2 > SIZE_RAM_LIST
}

/// The line numbers of the program, in LIST order, from the line at `index`.
pub open spec fn chain_numbers(ram: Seq<u8>, index: int) -> Seq<i16>
    decreases SIZE_RAM_LIST + 300 - index,
{
    if chain_stops(ram, index) {
        Seq::empty()
    } else {
        seq![list_number_at(ram, index)] + chain_numbers(ram, index + list_length_at(ram, index) + 4)
    }
}

/// The new number of the line numbered `v`: the lines from position `k` of
/// `nums` on get `cur`, `cur + step`, ... (wrapping in 16 bits); `None` when
/// no line is numbered `v`.
pub open spec fn renum_target(nums: Seq<i16>, k: int, cur: i16, step: i16, v: int) -> Option<i16>
    decreases nums.len() - k,
{
    if k < 0 || k >= nums.len() {
        None
    } else if nums[k] as int == v {
        Some(cur)
    } else {
        renum_target(nums, k + 1, vstd::wrapping::i16_specs::wrapping_add(cur, step), step, v)
    }
}

/// The first place from `p` (before `e`) that is not a space.
pub open spec fn skip_blanks(ram: Seq<u8>, p: int, e: int) -> int
    decreases e - p,
{
    if 0 <= p < e && p < ram.len() && ram[p] == 32 { skip_blanks(ram, p + 1, e) } else { p }
}

/// A decimal digit.
pub open spec fn is_digit_byte(c: u8) -> bool {
    48 <= c <= 57
}

/// The end of the run of digits at `p` (before `e`).
pub open spec fn digits_end(ram: Seq<u8>, p: int, e: int) -> int
    decreases e - p,
{
    if 0 <= p < e && p < ram.len() && is_digit_byte(ram[p]) { digits_end(ram, p + 1, e) } else { p }
}

/// The value of the digits `ram[a..b]`, held at 100000 once it passes that
/// (no line number comes near it).
pub open spec fn digits_value(ram: Seq<u8>, a: int, b: int) -> int
    decreases b - a,
{
    if b <= a {
        0
    } else {
        let v = digits_value(ram, a, b - 1) * 10 + (ram[b - 1] - 48);
        if v > 100000 { 100000 } else { v }
    }
}

/// The length of the keyword `GOTO` (4) or `GOSUB` (5), in any case, at `p`
/// and before `e`; 0 when neither is there.
pub open spec fn keyword_len(ram: Seq<u8>, p: int, e: int) -> int {
    if 0 <= p && p + 4 <= e && e <= ram.len()
        && fold_upper(ram[p]) == 71 && fold_upper(ram[p + 1]) == 79
        && fold_upper(ram[p + 2]) == 84 && fold_upper(ram[p + 3]) == 79 {
        4
    } else if 0 <= p && p + 5 <= e && e <= ram.len()
        && fold_upper(ram[p]) == 71 && fold_upper(ram[p + 1]) == 79
        && fold_upper(ram[p + 2]) == 83 && fold_upper(ram[p + 3]) == 85
        && fold_upper(ram[p + 4]) == 66 {
        5
    } else {
        0
    }
}

/// The decimal digits of `a`.
pub open spec fn dec_text(a: nat) -> Seq<u8>
    decreases a,
{
    if a < 10 { seq![(48 + a) as u8] } else { dec_text(a / 10).push((48 + a % 10) as u8) }
}

/// How a line number is written: a minus sign for a negative one, then the
/// digits.
pub open spec fn ref_text(n: i16) -> Seq<u8> {
    if n < 0 { seq![45u8] + dec_text((-n) as nat) } else { dec_text(n as nat) }
}

/// RAM with the digits `ram[a..b]` replaced by `n`, padded with spaces.
pub open spec fn write_ref(ram: Seq<u8>, a: int, b: int, n: i16) -> Seq<u8> {
    let t = ref_text(n);
    Seq::new(ram.len(), |i: int|
        if a <= i < a + t.len() { t[i - a] } else if a + t.len() <= i < b { 32u8 } else { ram[i] })
}

/// Where the scan of a line goes on after the keyword at `p`: past the digits
/// that follow it (always forward).
pub open spec fn after_ref(ram: Seq<u8>, p: int, e: int) -> int {
    let b = digits_end(ram, skip_blanks(ram, p + keyword_len(ram, p, e), e), e);
    if p < b <= e { b } else { p + 1 }
}

/// The references of the text `ram[p..e]` rewritten (the scan is inside a
/// string when `quoted`). A reference to a line gets that line's new number
/// when it fits; it stays as it is otherwise.
pub open spec fn renum_line(ram: Seq<u8>, p: int, e: int, quoted: bool, nums: Seq<i16>, start: i16, step: i16) -> Seq<u8>
    decreases e - p,
{
    if p < 0 || p >= e || e > ram.len() {
        ram
    } else if ram[p] == 34 {
        renum_line(ram, p + 1, e, !quoted, nums, start, step)
    } else if !quoted && keyword_len(ram, p, e) > 0 {
        let a = skip_blanks(ram, p + keyword_len(ram, p, e), e);
        let b = after_ref(ram, p, e);
        let target = renum_target(nums, 0, start, step, digits_value(ram, a, b));
        if b > a && target is Some && ref_text(target->0).len() <= b - a {
            renum_line(write_ref(ram, a, b, target->0), b, e, quoted, nums, start, step)
        } else {
            renum_line(ram, b, e, quoted, nums, start, step)
        }
    } else {
        renum_line(ram, p + 1, e, quoted, nums, start, step)
    }
}

/// Every reference to a line in the text `ram[p..e]` has room for that line's
/// new number.
pub open spec fn line_fits(ram: Seq<u8>, p: int, e: int, quoted: bool, nums: Seq<i16>, start: i16, step: i16) -> bool
    decreases e - p,
{
    if p < 0 || p >= e || e > ram.len() {
        true
    } else if ram[p] == 34 {
        line_fits(ram, p + 1, e, !quoted, nums, start, step)
    } else if !quoted && keyword_len(ram, p, e) > 0 {
        let a = skip_blanks(ram, p + keyword_len(ram, p, e), e);
        let b = after_ref(ram, p, e);
        let target = renum_target(nums, 0, start, step, digits_value(ram, a, b));
        &&& (b > a && target is Some ==> ref_text(target->0).len() <= b - a)
        &&& line_fits(ram, b, e, quoted, nums, start, step)
    } else {
        line_fits(ram, p + 1, e, quoted, nums, start, step)
    }
}

/// The RAM address where the text of the line at `index` starts.
pub open spec fn text_start(index: int) -> int {
    OFFSET_RAM_LIST + index + 3
}

/// The end of the text of the line at `index`: its NUL, but no further than
/// its length byte or the LIST allow.
pub open spec fn text_end(ram: Seq<u8>, index: int) -> int {
    let s = text_start(index);
    let l = s + list_length_at(ram, index);
    let limit = if l > OFFSET_RAM_LIST + SIZE_RAM_LIST { OFFSET_RAM_LIST + SIZE_RAM_LIST } else { l };
    if limit <= s { s } else { first_zero(ram, s, limit) }
}

/// Every line from `index` on has room for its new references.
pub open spec fn renum_fits(ram: Seq<u8>, index: int, nums: Seq<i16>, start: i16, step: i16) -> bool
    decreases SIZE_RAM_LIST + 300 - index,
{
    if chain_stops(ram, index) {
        true
    } else {
        &&& line_fits(ram, text_start(index), text_end(ram, index), false, nums, start, step)
        &&& renum_fits(ram, index + list_length_at(ram, index) + 4, nums, start, step)
    }
}

/// RAM after RENUM from the line at `index` on: each line gets its references
/// rewritten and then the number `current`; the next line gets
/// `current + step`.
pub open spec fn renum_apply(ram: Seq<u8>, index: int, current: i16, nums: Seq<i16>, start: i16, step: i16) -> Seq<u8>
    decreases SIZE_RAM_LIST + 300 - index,
{
    if chain_stops(ram, index) {
        ram
    } else {
        let r1 = renum_line(ram, text_start(index), text_end(ram, index), false, nums, start, step);
        renum_apply(ram_with_i16(r1, OFFSET_RAM_LIST + index, current),
            index + list_length_at(ram, index) + 4,
            vstd::wrapping::i16_specs::wrapping_add(current, step), nums, start, step)
    }
}

/// Appends the decimal digits of `a`.
fn push_dec(out: &mut Vec<u8>, a: u32)
    ensures
        final(out)@ == old(out)@ + dec_text(a as nat),
    decreases a,
{
    if a >= 10 {
        push_dec(out, a / 10);
        let d: u8 = (a % 10) as u8;
        out.push(48 + d);
        assert(final(out)@ =~= old(out)@ + dec_text(a as nat));
    } else {
        let d: u8 = a as u8;
        out.push(48 + d);
        assert(final(out)@ =~= old(out)@ + dec_text(a as nat));
    }
}

/// The digits of `a` are at most five.
proof fn lemma_dec_text_len(a: nat)
    requires
        a <= 32768,
    ensures
        dec_text(a).len() <= 5,
{
    reveal_with_fuel(dec_text, 6);
}

/// How `n` is written as a line number.
fn ref_digits(n: i16) -> (t: Vec<u8>)
    ensures
        t@ == ref_text(n),
        t@.len() <= 6,
{
    let mut t: Vec<u8> = Vec::new();
    if n < 0 {
        t.push(45);
        let a: u32 = (0i32 - n as i32) as u32;
        push_dec(&mut t, a);
        proof { lemma_dec_text_len(a as nat); }
        assert(t@ =~= ref_text(n));
    } else {
        push_dec(&mut t, n as u32);
        proof { lemma_dec_text_len(n as nat); }
        assert(t@ =~= ref_text(n));
    }
    t
}

/// The new number of the line numbered `v`, if there is one.
fn find_target(nums: &Vec<i16>, start: i16, step: i16, v: u32) -> (r: Option<i16>)
    ensures
        r == renum_target(nums@, 0, start, step, v as int),
{
    let mut k: usize = 0;
    let mut cur = start;
    while k < nums.len()
        invariant
            k <= nums@.len(),
            renum_target(nums@, k as int, cur, step, v as int) == renum_target(nums@, 0, start, step, v as int),
        decreases nums@.len() - k,
    {
        if nums[k] as i32 >= 0 && nums[k] as u32 == v {
            return Some(cur);
        }
        cur = cur.wrapping_add(step);
        k = k + 1;
    }
    None
}

impl Machine {
    /// The line numbers of the program, in LIST order.
    fn collect_numbers(&self) -> (v: Vec<i16>)
        requires
            self.wf(),
        ensures
            v@ == chain_numbers(self.ram@, 0),
    {
        let mut v: Vec<i16> = Vec::new();
        let mut index: u16 = 0;
        loop
            invariant
                self.wf(),
                index <= SIZE_RAM_LIST + 259,
                v@ + chain_numbers(self.ram@, index as int) == chain_numbers(self.ram@, 0),
            ensures
                v@ == chain_numbers(self.ram@, 0),
            decreases SIZE_RAM_LIST + 300 - index,
        {
            let num = self.list_get_number(index);
            if num == 0 || index as usize + 2 > SIZE_RAM_LIST {
                assert(v@ + chain_numbers(self.ram@, index as int) =~= v@);
                break;
            }
            let len = self.list_get_length(index);
            let ghost rest = chain_numbers(self.ram@, index + len + 4);
            assert(v@.push(num) + rest =~= v@ + chain_numbers(self.ram@, index as int));
            v.push(num);
            index = index + len as u16 + 4;
        }
        v
    }

    /// Where the text of the line at `index` ends.
    fn line_text_end(&self, index: u16) -> (e: usize)
        requires
            self.wf(),
            index + 2 <= SIZE_RAM_LIST,
        ensures
            e == text_end(self.ram@, index as int),
            text_start(index as int) <= e <= OFFSET_RAM_LIST + SIZE_RAM_LIST + 1,
    {
        let s: usize = OFFSET_RAM_LIST + index as usize + 3;
        let l: usize = s + self.list_get_length(index) as usize;
        let limit: usize = if l > OFFSET_RAM_LIST + SIZE_RAM_LIST { OFFSET_RAM_LIST + SIZE_RAM_LIST } else { l };
        if limit <= s {
            return s;
        }
        let mut p = s;
        while p < limit && self.ram[p] != 0
            invariant
                self.wf(),
                s <= p <= limit,
                limit <= OFFSET_RAM_LIST + SIZE_RAM_LIST,
                first_zero(self.ram@, p as int, limit as int) == first_zero(self.ram@, s as int, limit as int),
            decreases limit - p,
        {
            p = p + 1;
        }
        p
    }

    /// The first place from `p` (before `e`) that is not a space.
    fn skip_blanks_at(&self, p: usize, e: usize) -> (r: usize)
        requires
            self.wf(),
            p <= e <= SIZE_RAM,
        ensures
            r == skip_blanks(self.ram@, p as int, e as int),
            p <= r <= e,
    {
        let mut i = p;
        while i < e && self.ram[i] == 32
            invariant
                self.wf(),
                p <= i <= e <= SIZE_RAM,
                skip_blanks(self.ram@, i as int, e as int) == skip_blanks(self.ram@, p as int, e as int),
            decreases e - i,
        {
            i = i + 1;
        }
        i
    }

    /// The end and the (held) value of the digits at `a`.
    fn digits_at(&self, a: usize, e: usize) -> (r: (usize, u32))
        requires
            self.wf(),
            a <= e <= SIZE_RAM,
        ensures
            r.0 == digits_end(self.ram@, a as int, e as int),
            r.1 == digits_value(self.ram@, a as int, r.0 as int),
            a <= r.0 <= e,
    {
        let mut i = a;
        let mut v: u32 = 0;
        while i < e && 48 <= self.ram[i] && self.ram[i] <= 57
            invariant
                self.wf(),
                a <= i <= e <= SIZE_RAM,
                digits_end(self.ram@, i as int, e as int) == digits_end(self.ram@, a as int, e as int),
                v == digits_value(self.ram@, a as int, i as int),
                v <= 100000,
            decreases e - i,
        {
            let d: u32 = (self.ram[i] - 48) as u32;
            let w: u32 = v * 10 + d;
            v = if w > 100000 { 100000 } else { w };
            i = i + 1;
        }
        (i, v)
    }

    /// The keyword (`GOTO` or `GOSUB`) at `p`, by its length; 0 for none.
    fn keyword_at(&self, p: usize, e: usize) -> (k: usize)
        requires
            self.wf(),
            p <= e <= SIZE_RAM,
        ensures
            k == keyword_len(self.ram@, p as int, e as int),
    {
        if p + 4 <= e
            && crate::machine::basic_toupper(self.ram[p]) == 71
            && crate::machine::basic_toupper(self.ram[p + 1]) == 79 {
            let c2 = crate::machine::basic_toupper(self.ram[p + 2]);
            let c3 = crate::machine::basic_toupper(self.ram[p + 3]);
            if c2 == 84 && c3 == 79 {
                return 4;
            }
            if p + 5 <= e && c2 == 83 && c3 == 85 && crate::machine::basic_toupper(self.ram[p + 4]) == 66 {
                return 5;
            }
        }
        0
    }

    /// Writes `t` at `a`, padded with spaces up to `b`.
    fn write_digits(&mut self, a: usize, b: usize, t: &Vec<u8>, Ghost(n): Ghost<i16>)
        requires
            old(self).wf(),
            a <= b <= SIZE_RAM,
            t@ == ref_text(n),
            t@.len() <= b - a,
        ensures
            final(self).wf(),
            final(self).ram@ == write_ref(old(self).ram@, a as int, b as int, n),
            *final(self) == (Machine { ram: final(self).ram, ..*old(self) }),
    {
        let mut i = a;
        while i < b
            invariant
                self.wf(),
                a <= i <= b <= SIZE_RAM,
                old(self).ram@.len() == SIZE_RAM,
                t@ == ref_text(n),
                t@.len() <= b - a,
                forall|j: int| 0 <= j < SIZE_RAM ==> #[trigger] self.ram@[j] == (
                    if a <= j < i { write_ref(old(self).ram@, a as int, b as int, n)[j] } else { old(self).ram@[j] }),
                *self == (Machine { ram: self.ram, ..*old(self) }),
            decreases b - i,
        {
            let c: u8 = if i - a < t.len() { t[i - a] } else { 32 };
            let ghost w = write_ref(old(self).ram@, a as int, b as int, n);
            assert(w.len() == SIZE_RAM);
            assert(w[i as int] == c);
            self.ram.set(i, c);
            assert forall|j: int| 0 <= j < SIZE_RAM implies #[trigger] self.ram@[j] == (
                if a <= j < i + 1 { w[j] } else { old(self).ram@[j] }) by {
                if j != i as int {
                    assert(self.ram@[j] == old(self).ram@[j] || (a <= j < i));
                }
            }
            i = i + 1;
        }
        assert(self.ram@ =~= write_ref(old(self).ram@, a as int, b as int, n));
    }

    /// Scans the text `ram[s..e]` for references. With `write`, rewrites
    /// them ([`renum_line`]); without, only checks that they fit
    /// ([`line_fits`]).
    fn scan_line(&mut self, s: usize, e: usize, nums: &Vec<i16>, start: i16, step: i16, write: bool) -> (fits: bool)
        requires
            old(self).wf(),
            s <= e <= SIZE_RAM,
        ensures
            final(self).wf(),
            !write ==> fits == line_fits(old(self).ram@, s as int, e as int, false, nums@, start, step)
                && *final(self) == *old(self),
            write ==> final(self).ram@ == renum_line(old(self).ram@, s as int, e as int, false, nums@, start, step)
                && *final(self) == (Machine { ram: final(self).ram, ..*old(self) }),
    {
        let mut p = s;
        let mut q = false;
        let mut ok = true;
        while p < e
            invariant
                self.wf(),
                s <= p <= e <= SIZE_RAM,
                !write ==> (ok && line_fits(self.ram@, p as int, e as int, q, nums@, start, step))
                    == line_fits(old(self).ram@, s as int, e as int, false, nums@, start, step)
                    && *self == *old(self),
                write ==> renum_line(self.ram@, p as int, e as int, q, nums@, start, step)
                    == renum_line(old(self).ram@, s as int, e as int, false, nums@, start, step)
                    && *self == (Machine { ram: self.ram, ..*old(self) }),
            decreases e - p,
        {
            let c = self.ram[p];
            if c == 34 {
                q = !q;
                p = p + 1;
            } else {
                let k = if q { 0 } else { self.keyword_at(p, e) };
                if k > 0 {
                    let a = self.skip_blanks_at(p + k, e);
                    let (b, v) = self.digits_at(a, e);
                    assert(b == after_ref(self.ram@, p as int, e as int));
                    if b > a {
                        let target = find_target(nums, start, step, v);
                        match target {
                            Some(n) => {
                                let t = ref_digits(n);
                                if t.len() <= b - a {
                                    if write {
                                        self.write_digits(a, b, &t, Ghost(n));
                                    }
                                } else {
                                    ok = false;
                                }
                            },
                            None => {},
                        }
                    }
                    p = b;
                } else {
                    p = p + 1;
                }
            }
        }
        ok
    }

    /// `RENUM start, step` once its arguments are read: the lines get the
    /// numbers `start`, `start + step`, ... (wrapping in 16 bits), and each
    /// GOTO / GOSUB that names a line gets that line's new number
    /// ([`renum_apply`]). `IllegalArgument`, with nothing changed, unless both
    /// are positive and every such reference has room for its new number
    /// ([`renum_fits`]).
    pub fn renumber(&mut self, start: i16, step: i16) -> (r: Result<(), BasicError>)
        requires
            old(self).wf(),
        ensures
            final(self).wf(),
            ({
                let nums = chain_numbers(old(self).ram@, 0);
                if start <= 0 || step <= 0 || !renum_fits(old(self).ram@, 0, nums, start, step) {
                    r == Err::<(), BasicError>(BasicError::IllegalArgument) && *final(self) == *old(self)
                } else {
                    r == Ok::<(), BasicError>(())
                        && final(self).ram@ == renum_apply(old(self).ram@, 0, start, nums, start, step)
                        && *final(self) == (Machine { ram: final(self).ram, ..*old(self) })
                }
            }),
    {
        if start <= 0 || step <= 0 {
            return Err(BasicError::IllegalArgument);
        }
        let nums = self.collect_numbers();
        let mut index: u16 = 0;
        loop
            invariant
                self.wf(),
                *self == *old(self),
                nums@ == chain_numbers(old(self).ram@, 0),
                index <= SIZE_RAM_LIST + 259,
                renum_fits(self.ram@, index as int, nums@, start, step) == renum_fits(old(self).ram@, 0, nums@, start, step),
            ensures
                self.wf(),
                *self == *old(self),
                renum_fits(old(self).ram@, 0, nums@, start, step),
            decreases SIZE_RAM_LIST + 300 - index,
        {
            let num = self.list_get_number(index);
            if num == 0 || index as usize + 2 > SIZE_RAM_LIST {
                break;
            }
            let len = self.list_get_length(index);
            let e = self.line_text_end(index);
            let s: usize = OFFSET_RAM_LIST + index as usize + 3;
            if !self.scan_line(s, e, &nums, start, step, false) {
                return Err(BasicError::IllegalArgument);
            }
            index = index + len as u16 + 4;
        }
        let mut index: u16 = 0;
        let mut current = start;
        loop
            invariant
                self.wf(),
                nums@ == chain_numbers(old(self).ram@, 0),
                index <= SIZE_RAM_LIST + 259,
                renum_apply(self.ram@, index as int, current, nums@, start, step)
                    == renum_apply(old(self).ram@, 0, start, nums@, start, step),
                *self == (Machine { ram: self.ram, ..*old(self) }),
            ensures
                self.wf(),
                self.ram@ == renum_apply(old(self).ram@, 0, start, nums@, start, step),
                *self == (Machine { ram: self.ram, ..*old(self) }),
            decreases SIZE_RAM_LIST + 300 - index,
        {
            let num = self.list_get_number(index);
            if num == 0 || index as usize + 2 > SIZE_RAM_LIST {
                break;
            }
            let len = self.list_get_length(index);
            let e = self.line_text_end(index);
            let s: usize = OFFSET_RAM_LIST + index as usize + 3;
            self.scan_line(s, e, &nums, start, step, true);
            self.list_set_number(index, current);
            current = current.wrapping_add(step);
            index = index + len as u16 + 4;
        }
        Ok(())
    }
}

} // verus!
