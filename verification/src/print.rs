//! Character output of the machine: single characters, strings, decimal
//! numbers, strings read from memory and the error report.

use vstd::prelude::*;
use vstd::string::StringSliceAdditionalSpecFns;

use crate::errors::{spec_error_message, BasicError};
use crate::keys::lemma_puts_push;
use crate::machine::Machine;
use crate::memory::{list_length_at, list_number_at};
use crate::ram::{OFFSET_RAMROM, OFFSET_RAM_LIST, OFFSET_RAM_VRAM, SIZE_RAM, SIZE_RAM_LIST, SIZE_RAM_VRAM};
use crate::screen::{first_zero, lemma_same_outside_trans, spec_putc, spec_puts, ScreenState};

verus! {

/// The digits that `put_num` prints for `a`, from place value `d` down:
/// leading zeros are left out, the last place always prints.
pub open spec fn num_digits(a: int, d: int, seen: bool) -> Seq<u8>
    decreases d,
{
    if d <= 0 {
        Seq::empty()
    } else {
        let c = a / d;
        let seen2 = seen || c != 0;
        let rest = num_digits(a - c * d, (d / 10) as int, seen2);
        if seen2 || d == 1 { seq![(c % 256 + 48) as u8] + rest } else { rest }
    }
}

/// What `put_num` prints for `n`: a minus sign for negative numbers, then the
/// digits of the magnitude (five places; a larger magnitude makes the first
/// character hold the ten-thousands).
pub open spec fn num_text(n: i32) -> Seq<u8> {
    let a = if n < 0 { -n } else { n as int };
    (if n < 0 { seq![45u8] } else { Seq::empty() }) + num_digits(a, 10000, false)
}

/// The number of decimal digits of `a`.
pub open spec fn dec_len(a: nat) -> nat
    decreases a,
{
    if a < 10 { 1 } else { 1 + dec_len(a / 10) }
}

/// The characters that the decimal form of `n` takes, the sign included.
pub open spec fn decimal_width_of(n: i32) -> nat {
    let a = if n < 0 { -n } else { n as int };
    (if n < 0 { 1nat } else { 0nat }) + dec_len(a as nat)
}

/// A byte of RAM as the screen editor has left it: VRAM cells come from the
/// screen, other addresses from `ram`.
pub open spec fn mem_byte(ram: Seq<u8>, s: ScreenState, p: int) -> u8 {
    if OFFSET_RAM_VRAM <= p < OFFSET_RAM_VRAM + SIZE_RAM_VRAM { s.vram[p - OFFSET_RAM_VRAM] } else { ram[p] }
}

/// One less, but never below `i16::MIN`.
pub open spec fn sat_dec(m: i16) -> i16 {
    if m == i16::MIN { m } else { (m - 1) as i16 }
}

/// The screen after printing RAM from offset `p` on: it stops at a `"`, at a
/// NUL, after `m` characters (a negative `m` does not limit) or at the end of RAM.
pub open spec fn spec_put_from(ram: Seq<u8>, s: ScreenState, p: int, m: i16) -> ScreenState
    decreases SIZE_RAM - p,
{
    if p < 0 || p >= SIZE_RAM {
        s
    } else {
        let c = mem_byte(ram, s, p);
        if c == 34 || c == 0 || m == 0 { s } else { spec_put_from(ram, spec_putc(s, c), p + 1, sat_dec(m)) }
    }
}

/// The LIST offset of the line whose text ends at or after `pc`, searching
/// from `index`; `None` when the end of the LIST comes first.
pub open spec fn line_of_pc(ram: Seq<u8>, pc: int, index: int) -> Option<int>
    decreases SIZE_RAM_LIST + 300 - index,
{
    let n = list_number_at(ram, index);
    if n == 0 || index < 0 || index + 2 > SIZE_RAM_LIST {
        None
    } else if pc <= OFFSET_RAM_LIST + index + list_length_at(ram, index) + 4 {
        Some(index)
    } else {
        line_of_pc(ram, pc, index + list_length_at(ram, index) + 4)
    }
}

/// The text of the LIST line at `index`: its bytes up to the NUL.
pub open spec fn line_text(ram: Seq<u8>, index: int) -> Seq<u8> {
    let p = OFFSET_RAM_LIST + index + 3;
    ram.subrange(p, first_zero(ram, p, ram.len() as int))
}

/// The bytes of an error message.
pub open spec fn error_text(e: BasicError) -> Seq<u8> {
    vstd::utf8::encode_utf8(spec_error_message(e))
}

/// What the error report prints: the message, and for an error inside the
/// program ` in N`, a new line, the line number, a space and the line's text;
/// then a new line.
pub open spec fn error_report(ram: Seq<u8>, pc: int, e: BasicError) -> Seq<u8> {
    let place = if OFFSET_RAM_LIST <= pc < OFFSET_RAM_LIST + SIZE_RAM_LIST {
        match line_of_pc(ram, pc, 0) {
            Some(index) => {
                let n = num_text(list_number_at(ram, index) as i32);
                seq![32u8, 105u8, 110u8, 32u8] + n + seq![10u8] + n + seq![32u8] + line_text(ram, index)
            },
            None => Seq::empty(),
        }
    } else {
        Seq::empty()
    };
    error_text(e) + place + seq![10u8]
}

/// Sending two runs of bytes is sending them joined.
pub proof fn lemma_puts_concat(s: ScreenState, a: Seq<u8>, b: Seq<u8>)
    ensures
        spec_puts(s, a + b) == spec_puts(spec_puts(s, a), b),
    decreases a.len(),
{
    if a.len() == 0 {
        assert(a + b =~= b);
    } else {
        assert((a + b)[0] == a[0]);
        assert((a + b).drop_first() =~= a.drop_first() + b);
        lemma_puts_concat(spec_putc(s, a[0]), a.drop_first(), b);
    }
}

/// Two RAM images that agree outside the VRAM have the same first NUL.
pub proof fn lemma_first_zero_agree(a: Seq<u8>, b: Seq<u8>, i: int, n: int)
    requires
        forall|j: int| i <= j < n ==> a[j] == b[j],
    ensures
        first_zero(a, i, n) == first_zero(b, i, n),
    decreases n - i,
{
    if i < n {
        lemma_first_zero_agree(a, b, i + 1, n);
    }
}

/// The first NUL lies between the start and the end of the search.
pub proof fn lemma_first_zero_bounds(a: Seq<u8>, i: int, n: int)
    requires
        i <= n,
    ensures
        i <= first_zero(a, i, n) <= n,
    decreases n - i,
{
    if i < n {
        lemma_first_zero_bounds(a, i + 1, n);
    }
}

/// Two RAM images that agree outside the VRAM hold the same LIST line.
proof fn lemma_agree_outside_vram(a: Seq<u8>, b: Seq<u8>, index: int)
    requires
        a.len() == SIZE_RAM,
        b.len() == SIZE_RAM,
        forall|i: int| 0 <= i < SIZE_RAM && !(OFFSET_RAM_VRAM <= i < OFFSET_RAM_VRAM + SIZE_RAM_VRAM)
            ==> #[trigger] b[i] == a[i],
        0 <= index,
        index + 2 <= SIZE_RAM_LIST,
    ensures
        list_number_at(a, index) == list_number_at(b, index),
        line_text(a, index) == line_text(b, index),
{
    let p = OFFSET_RAM_LIST + index + 3;
    assert(b[OFFSET_RAM_LIST + index] == a[OFFSET_RAM_LIST + index]);
    assert(b[OFFSET_RAM_LIST + index + 1] == a[OFFSET_RAM_LIST + index + 1]);
    assert forall|j: int| p <= j < SIZE_RAM implies a[j] == b[j] by {
        assert(b[j] == a[j]);
    }
    lemma_first_zero_agree(a, b, p, SIZE_RAM as int);
    lemma_first_zero_bounds(a, p, SIZE_RAM as int);
    assert(line_text(a, index) =~= line_text(b, index));
}

/// Numbers below 100000 have at most five digits.
proof fn lemma_dec_len_small(a: nat)
    requires
        a < 100000,
    ensures
        dec_len(a) <= 5,
{
    reveal_with_fuel(dec_len, 6);
}

/// A number has at most one digit more than its value.
proof fn lemma_dec_len_bound(a: nat)
    ensures
        1 <= dec_len(a) <= a + 1,
    decreases a,
{
    if a >= 10 {
        lemma_dec_len_bound(a / 10);
    }
}

impl Machine {
    /// Prints one character (control codes act as in the screen editor).
    pub fn put_chr(&mut self, c: u8)
        requires
            old(self).wf(),
        ensures
            final(self).wf(),
            final(self).screen() == spec_putc(old(self).screen(), c),
            final(self).same_outside_screen(old(self)),
    {
        self.screen_putc(c);
    }

    /// Prints the bytes of a string.
    pub fn put_str(&mut self, s: &str)
        requires
            old(self).wf(),
        ensures
            final(self).wf(),
            final(self).screen() == spec_puts(old(self).screen(), s.spec_bytes()),
            final(self).same_outside_screen(old(self)),
    {
        self.screen_puts(s.as_bytes());
    }

    /// Prints `n` in decimal and returns the number of characters printed.
    /// The magnitude has five places; one of 100000 or more puts its
    /// ten-thousands into the first character (whose code must stay below 256).
    pub fn put_num(&mut self, n: i32) -> (len: u32)
        requires
            old(self).wf(),
            n != i32::MIN,
            ((if n < 0 { -n } else { n as int }) / 10000) % 256 < 208,
        ensures
            final(self).wf(),
            final(self).screen() == spec_puts(old(self).screen(), num_text(n)),
            final(self).same_outside_screen(old(self)),
            len == num_text(n).len(),
    {
        let ghost s0 = self.screen();
        let ghost a0: int = if n < 0 { -n } else { n as int };
        let ghost mut printed: Seq<u8> = Seq::empty();
        let mut len: u32 = 0;
        let mut a: u32;
        if n < 0 {
            self.put_chr(45);
            len = 1;
            proof {
                printed = seq![45u8];
                assert(spec_puts(s0, printed) == spec_putc(s0, 45)) by {
                    lemma_puts_push(s0, Seq::empty(), 45);
                    assert(Seq::<u8>::empty().push(45) =~= printed);
                }
            }
            a = (0i64 - n as i64) as u32;
        } else {
            a = n as u32;
        }
        let mut seen = false;
        let mut d: u32 = 10000;
        assert(printed + num_digits(a as int, d as int, seen) =~= num_text(n));
        while d > 0
            invariant
                self.wf(),
                self.same_outside_screen(old(self)),
                self.screen() == spec_puts(s0, printed),
                printed + num_digits(a as int, d as int, seen) == num_text(n),
                len == printed.len(),
                d == 10000 || d == 1000 || d == 100 || d == 10 || d == 1 || d == 0,
                d == 10000 ==> (a == a0 && !seen && len <= 1),
                0 < d < 10000 ==> a < 10 * d,
                d == 1000 ==> len <= 2,
                d == 100 ==> len <= 3,
                d == 10 ==> len <= 4,
                d == 1 ==> len <= 5,
                len <= 6,
                (a0 / 10000) % 256 < 208,
            decreases d,
        {
            let c = a / d;
            assert(c * d <= a && a - c * d < d) by (nonlinear_arith)
                requires c == a / d, d > 0;
            assert(0 < d < 10000 ==> c < 10) by (nonlinear_arith)
                requires c == a / d, d > 0, 0 < d < 10000 ==> a < 10 * d;
            let ghost digits = num_digits(a as int, d as int, seen);
            let seen2 = seen || c != 0;
            if seen2 || d == 1 {
                let ch: u8 = (c % 256) as u8 + 48;
                let ghost before = *self;
                self.put_chr(ch);
                len = len + 1;
                proof {
                    lemma_same_outside_trans(old(self), &before, self);
                    lemma_puts_push(s0, printed, ch);
                    assert(digits == seq![ch] + num_digits(a - c * d, (d / 10) as int, seen2));
                    assert(printed.push(ch) + num_digits(a - c * d, (d / 10) as int, seen2) =~= printed + digits);
                    printed = printed.push(ch);
                }
            } else {
                assert(digits == num_digits(a - c * d, (d / 10) as int, seen2));
            }
            seen = seen2;
            a = a - c * d;
            d = d / 10;
        }
        assert(num_digits(a as int, 0, seen) =~= Seq::<u8>::empty());
        assert(printed =~= num_text(n));
        len
    }

    /// The number of characters of `n` in decimal, the minus sign included
    /// (`decimal_width(-42)` is 3).
    pub fn decimal_width(n: i32) -> (r: u32)
        ensures
            r == decimal_width_of(n),
    {
        let mut a: u32 = if n < 0 { (0i64 - n as i64) as u32 } else { n as u32 };
        let ghost a0: nat = a as nat;
        proof { lemma_dec_len_bound(a0); }
        let mut digits: u32 = 1;
        while a >= 10
            invariant
                1 <= digits,
                digits + dec_len(a as nat) == 1 + dec_len(a0),
                dec_len(a0) <= a0 + 1,
                a0 <= 0x8000_0000,
            decreases a,
        {
            proof { lemma_dec_len_bound(a as nat); }
            a = a / 10;
            digits = digits + 1;
        }
        if n < 0 { digits + 1 } else { digits }
    }

    /// Prints RAM from virtual address `n` on, stopping at a `"`, at a NUL,
    /// after `m` characters (a negative `m` does not limit) or at the end of
    /// RAM; addresses below RAM print nothing.
    pub fn put_str_from_mem(&mut self, n: i32, m: i16)
        requires
            old(self).wf(),
        ensures
            final(self).wf(),
            final(self).same_outside_screen(old(self)),
            final(self).screen() == if n >= OFFSET_RAMROM {
                spec_put_from(old(self).ram@, old(self).screen(), n - OFFSET_RAMROM, m)
            } else {
                old(self).screen()
            },
    {
        if n >= OFFSET_RAMROM as i32 {
            let mut p: usize = (n - OFFSET_RAMROM as i32) as usize;
            let mut left = m;
            let ghost start = p as int;
            while p < SIZE_RAM
                invariant
                    self.wf(),
                    self.same_outside_screen(old(self)),
                    spec_put_from(old(self).ram@, old(self).screen(), start, m) == spec_put_from(
                        old(self).ram@, self.screen(), p as int, left),
                ensures
                    self.wf(),
                    self.same_outside_screen(old(self)),
                    self.screen() == spec_put_from(old(self).ram@, old(self).screen(), start, m),
                decreases SIZE_RAM - p,
            {
                let c = self.ram[p];
                assert(c == mem_byte(old(self).ram@, self.screen(), p as int));
                if c == 34 || c == 0 || left == 0 {
                    assert(spec_put_from(old(self).ram@, self.screen(), p as int, left) == self.screen());
                    break;
                }
                let ghost before = *self;
                self.put_chr(c);
                proof { lemma_same_outside_trans(old(self), &before, self); }
                p = p + 1;
                left = if left == i16::MIN { left } else { left - 1 };
            }
        }
    }

    /// Prints the report of error `e`: the message and, for an error inside
    /// the program, the line it happened in; `CONT` will resume there. Quiet
    /// mode prints nothing; a hidden cursor first comes back to row 0.
    #[verifier::spinoff_prover]
    #[verifier::rlimit(100)]
    pub fn basic_print_error(&mut self, e: BasicError)
        requires
            old(self).wf(),
        ensures
            final(self).wf(),
            old(self).is_quiet_mode ==> *final(self) == *old(self),
            !old(self).is_quiet_mode ==> ({
                let s1 = if old(self).cursory == -1 {
                    ScreenState { cy: 0, ..old(self).screen() }
                } else {
                    old(self).screen()
                };
                let found = OFFSET_RAM_LIST <= old(self).pc < OFFSET_RAM_LIST + SIZE_RAM_LIST
                    && line_of_pc(old(self).ram@, old(self).pc as int, 0) is Some;
                &&& final(self).screen() == spec_puts(s1, error_report(old(self).ram@, old(self).pc as int, e))
                &&& final(self).same_outside_screen(&(Machine {
                        break_resume_pc: if found { old(self).pc } else { old(self).break_resume_pc },
                        ..*old(self)
                    }))
            }),
    {
        if self.is_quiet_mode {
            return;
        }
        if self.cursory == -1 {
            self.cursory = 0;
        }
        let ghost s1 = self.screen();
        assert(s1 == if old(self).cursory == -1 {
            ScreenState { cy: 0, ..old(self).screen() }
        } else {
            old(self).screen()
        });
        let found: Option<u16> = if self.pc_in_list() { self.find_error_line() } else { None };
        if found.is_some() {
            self.break_resume_pc = self.pc;
        }
        let ghost target = Machine {
            break_resume_pc: if found is Some { old(self).pc } else { old(self).break_resume_pc },
            ..*old(self)
        };
        assert(self.same_outside_screen(&target));
        assert(found is Some <==> (OFFSET_RAM_LIST <= old(self).pc < OFFSET_RAM_LIST + SIZE_RAM_LIST
            && line_of_pc(old(self).ram@, old(self).pc as int, 0) is Some));
        let ghost m1 = *self;
        assert(m1.ram@ == old(self).ram@ && m1.pc == old(self).pc && m1.screen() == s1);
        self.put_error_report(e, found);
        proof { lemma_same_outside_trans(&target, &m1, self); }
    }

    /// Prints the message of `e`, the place `found` (if any) and a new line.
    #[verifier::spinoff_prover]
    fn put_error_report(&mut self, e: BasicError, found: Option<u16>)
        requires
            old(self).wf(),
            match found {
                Some(i) => OFFSET_RAM_LIST <= old(self).pc < OFFSET_RAM_LIST + SIZE_RAM_LIST
                    && line_of_pc(old(self).ram@, old(self).pc as int, 0) == Some(i as int)
                    && i as int + 2 <= SIZE_RAM_LIST,
                None => !(OFFSET_RAM_LIST <= old(self).pc < OFFSET_RAM_LIST + SIZE_RAM_LIST
                    && line_of_pc(old(self).ram@, old(self).pc as int, 0) is Some),
            },
        ensures
            final(self).wf(),
            final(self).same_outside_screen(old(self)),
            final(self).screen() == spec_puts(old(self).screen(), error_report(old(self).ram@, old(self).pc as int, e)),
    {
        let ghost s1 = self.screen();
        let ghost m1 = *self;
        let msg = e.message();
        let bytes = msg.as_str().as_bytes();
        self.screen_puts(bytes);
        let ghost after_msg = *self;
        let ghost mut place: Seq<u8> = Seq::empty();
        match found {
            Some(index) => {
                proof { lemma_agree_outside_vram(old(self).ram@, self.ram@, index as int); }
                self.put_line_place(index);
                proof {
                    lemma_same_outside_trans(&m1, &after_msg, self);
                    place = seq![32u8, 105u8, 110u8, 32u8] + num_text(list_number_at(old(self).ram@, index as int) as i32)
                        + seq![10u8] + num_text(list_number_at(old(self).ram@, index as int) as i32) + seq![32u8]
                        + line_text(old(self).ram@, index as int);
                    lemma_puts_concat(s1, error_text(e), place);
                }
            },
            None => {
                assert(error_text(e) + place =~= error_text(e));
            },
        }
        assert(self.same_outside_screen(&m1));
        let ghost before_nl = *self;
        self.put_chr(10);
        proof {
            lemma_same_outside_trans(&m1, &before_nl, self);
            lemma_puts_push(s1, error_text(e) + place, 10);
            assert(error_text(e) + place + seq![10u8] =~= (error_text(e) + place).push(10));
            assert(error_report(old(self).ram@, old(self).pc as int, e) == error_text(e) + place + seq![10u8]);
        }
    }

    /// The LIST offset of the line that holds the program counter.
    fn find_error_line(&self) -> (r: Option<u16>)
        requires
            self.wf(),
        ensures
            match r {
                Some(i) => line_of_pc(self.ram@, self.pc as int, 0) == Some(i as int) && i as int + 2 <= SIZE_RAM_LIST,
                None => line_of_pc(self.ram@, self.pc as int, 0) is None,
            },
    {
        let mut index: u16 = 0;
        loop
            invariant
                self.wf(),
                index <= SIZE_RAM_LIST + 259,
                line_of_pc(self.ram@, self.pc as int, index as int) == line_of_pc(self.ram@, self.pc as int, 0),
            decreases SIZE_RAM_LIST + 300 - index,
        {
            let n = self.list_get_number(index);
            if n == 0 {
                return None;
            }
            let size = self.list_get_length(index);
            if self.pc <= OFFSET_RAM_LIST + index as usize + size as usize + 4 {
                return Some(index);
            }
            index = index + size as u16 + 4;
        }
    }

    /// Prints where an error happened: ` in N`, a new line, `N `, and the text
    /// of the LIST line at `index`.
    fn put_line_place(&mut self, index: u16)
        requires
            old(self).wf(),
            index + 2 <= SIZE_RAM_LIST,
        ensures
            final(self).wf(),
            final(self).same_outside_screen(old(self)),
            final(self).screen() == spec_puts(old(self).screen(),
                seq![32u8, 105u8, 110u8, 32u8] + num_text(list_number_at(old(self).ram@, index as int) as i32)
                + seq![10u8] + num_text(list_number_at(old(self).ram@, index as int) as i32) + seq![32u8]
                + line_text(old(self).ram@, index as int)),
    {
        let ghost s0 = self.screen();
        let ghost ram0 = self.ram@;
        let n = self.list_get_number(index);
        let ghost nt = num_text(n as i32);
        self.put_str_in();
        let ghost m1 = *self;
        self.put_num(n as i32);
        let ghost m2 = *self;
        self.put_chr(10);
        let ghost m3 = *self;
        self.put_num(n as i32);
        let ghost m4 = *self;
        self.put_chr(32);
        let ghost mut printed: Seq<u8> = seq![32u8, 105u8, 110u8, 32u8] + nt + seq![10u8] + nt + seq![32u8];
        proof {
            lemma_same_outside_trans(old(self), &m1, &m2);
            lemma_same_outside_trans(old(self), &m2, &m3);
            lemma_same_outside_trans(old(self), &m3, &m4);
            lemma_same_outside_trans(old(self), &m4, self);
            let p1 = seq![32u8, 105u8, 110u8, 32u8];
            lemma_puts_concat(s0, p1, nt);
            lemma_puts_push(s0, p1 + nt, 10);
            assert((p1 + nt).push(10) =~= p1 + nt + seq![10u8]);
            lemma_puts_concat(s0, p1 + nt + seq![10u8], nt);
            lemma_puts_push(s0, p1 + nt + seq![10u8] + nt, 32);
            assert((p1 + nt + seq![10u8] + nt).push(32) =~= printed);
        }
        let p0: usize = OFFSET_RAM_LIST + index as usize + 3;
        let mut p: usize = p0;
        while p < SIZE_RAM
            invariant
                self.wf(),
                self.same_outside_screen(old(self)),
                ram0 == old(self).ram@,
                p0 == OFFSET_RAM_LIST + index + 3,
                p0 <= p <= SIZE_RAM,
                first_zero(ram0, p0 as int, SIZE_RAM as int) == first_zero(ram0, p as int, SIZE_RAM as int),
                self.screen() == spec_puts(s0, printed + ram0.subrange(p0 as int, p as int)),
            ensures
                self.wf(),
                self.same_outside_screen(old(self)),
                first_zero(ram0, p0 as int, SIZE_RAM as int) == p,
                self.screen() == spec_puts(s0, printed + ram0.subrange(p0 as int, p as int)),
            decreases SIZE_RAM - p,
        {
            let c = self.ram[p];
            assert(c == ram0[p as int]);
            if c == 0 {
                assert(first_zero(ram0, p as int, SIZE_RAM as int) == p);
                break;
            }
            let ghost before = *self;
            self.put_chr(c);
            proof {
                lemma_same_outside_trans(old(self), &before, self);
                lemma_puts_push(s0, printed + ram0.subrange(p0 as int, p as int), c);
                assert((printed + ram0.subrange(p0 as int, p as int)).push(c)
                    =~= printed + ram0.subrange(p0 as int, p + 1));
            }
            p = p + 1;
        }
    }

    /// Prints " in ".
    fn put_str_in(&mut self)
        requires
            old(self).wf(),
        ensures
            final(self).wf(),
            final(self).screen() == spec_puts(old(self).screen(), seq![32u8, 105u8, 110u8, 32u8]),
            final(self).same_outside_screen(old(self)),
    {
        let text: [u8; 4] = [32, 105, 110, 32];
        self.screen_puts(text.as_slice());
        assert(text@ =~= seq![32u8, 105u8, 110u8, 32u8]);
    }
}

/// The digits of `a` at the places from `d` down whose position (counted
/// from the right, starting at `beam`) is at most `m`.
pub open spec fn low_digits(a: int, d: int, beam: int, m: int) -> Seq<u8>
    decreases d,
{
    if d <= 0 {
        Seq::empty()
    } else {
        let c = a / d;
        let rest = low_digits(a - c * d, d / 10, beam - 1, m);
        if beam <= m { seq![(c + 48) as u8] + rest } else { rest }
    }
}

/// `count` spaces.
pub open spec fn spaces(count: int) -> Seq<u8> {
    Seq::new(if count < 0 { 0 } else { count as nat }, |i: int| 32u8)
}

/// What `PRINT DEC$(n, m)` prints: `n` as it is for `m <= 0`, right-aligned
/// in `m` columns when it fits, else its last `m` digits without the sign.
pub open spec fn dec_text(n: i16, m: i16) -> Seq<u8> {
    let a = if n < 0 { -n } else { n as int };
    if m <= 0 {
        num_text(n as i32)
    } else if decimal_width_of(n as i32) <= m {
        spaces(m - decimal_width_of(n as i32)) + num_text(n as i32)
    } else {
        low_digits(a, 10000, 5, m as int)
    }
}

impl Machine {
    /// `DEC$(n, m)` output (see [`dec_text`]).
    pub fn print_dec(&mut self, n2: i16, m: i16)
        requires
            old(self).wf(),
        ensures
            final(self).wf(),
            final(self).screen() == spec_puts(old(self).screen(), dec_text(n2, m)),
            final(self).same_outside_screen(old(self)),
    {
        let ghost s0 = self.screen();
        if m <= 0 {
            self.put_num(n2 as i32);
            return;
        }
        let beam = Machine::decimal_width(n2 as i32);
        proof { lemma_dec_len_small((if n2 < 0 { -n2 } else { n2 as int }) as nat); }
        if (beam as i16) <= m {
            let count: u32 = m as u32 - beam;
            let mut k: u32 = 0;
            while k < count
                invariant
                    self.wf(),
                    self.same_outside_screen(old(self)),
                    k <= count,
                    self.screen() == spec_puts(s0, spaces(k as int)),
                decreases count - k,
            {
                let ghost before = *self;
                self.put_chr(32);
                proof {
                    lemma_same_outside_trans(old(self), &before, self);
                    lemma_puts_push(s0, spaces(k as int), 32);
                    assert(spaces(k as int).push(32) =~= spaces(k + 1));
                }
                k = k + 1;
            }
            let ghost mid = *self;
            self.put_num(n2 as i32);
            proof {
                lemma_same_outside_trans(old(self), &mid, self);
                lemma_puts_concat(s0, spaces(count as int), num_text(n2 as i32));
            }
            return;
        }
        let mut a: u32 = if n2 < 0 { (0i32 - n2 as i32) as u32 } else { n2 as u32 };
        let ghost a0 = a as int;
        let mut beam: i32 = 5;
        let mut d: u32 = 10000;
        let ghost mut printed: Seq<u8> = Seq::empty();
        assert(printed + low_digits(a as int, d as int, beam as int, m as int) =~= dec_text(n2, m));
        while d > 0
            invariant
                self.wf(),
                self.same_outside_screen(old(self)),
                self.screen() == spec_puts(s0, printed),
                printed + low_digits(a as int, d as int, beam as int, m as int) == dec_text(n2, m),
                d == 10000 || d == 1000 || d == 100 || d == 10 || d == 1 || d == 0,
                d == 10000 ==> a <= 32768 && beam == 5,
                d == 1000 ==> beam == 4,
                d == 100 ==> beam == 3,
                d == 10 ==> beam == 2,
                d == 1 ==> beam == 1,
                0 < d < 10000 ==> a < 10 * d,
            decreases d,
        {
            let c = a / d;
            assert(c * d <= a && a - c * d < d) by (nonlinear_arith)
                requires c == a / d, d > 0;
            if d == 10000 {
                assert(c < 10) by (nonlinear_arith)
                    requires c == a / d, d == 10000, a <= 32768;
            } else {
                assert(c < 10) by (nonlinear_arith)
                    requires c == a / d, d > 0, a < 10 * d;
            }
            let ghost digits = low_digits(a as int, d as int, beam as int, m as int);
            if beam <= m as i32 {
                let ch: u8 = c as u8 + 48;
                let ghost before = *self;
                self.put_chr(ch);
                proof {
                    lemma_same_outside_trans(old(self), &before, self);
                    lemma_puts_push(s0, printed, ch);
                    assert(digits == seq![ch] + low_digits(a - c * d, (d / 10) as int, beam - 1, m as int));
                    assert(printed.push(ch) + low_digits(a - c * d, (d / 10) as int, beam - 1, m as int) =~= printed + digits);
                    printed = printed.push(ch);
                }
            } else {
                assert(digits == low_digits(a - c * d, (d / 10) as int, beam - 1, m as int));
            }
            a = a - c * d;
            beam = beam - 1;
            d = d / 10;
        }
        assert(low_digits(a as int, 0, beam as int, m as int) =~= Seq::<u8>::empty());
        assert(printed =~= dec_text(n2, m));
    }
}

/// The bytes shown for a saved program in `FILES`: the text of its first
/// line from byte 3 of the peeked `buf`, at most `max_show` bytes, up to a NUL.
pub open spec fn peeked_text(buf: Seq<u8>, max_show: int) -> Seq<u8> {
    let len = if (buf[2] as int) < max_show { buf[2] as int } else { max_show };
    let region = buf.subrange(3, 3 + len);
    region.subrange(0, first_zero(region, 0, len))
}

/// One line of `FILES` for slot `slot`: its number and, when the peek read a
/// full row of 32 bytes holding a first line, a space and that line's text
/// (what fits on the row); then a new line.
pub open spec fn files_entry(slot: i16, peeked: Option<usize>, buf: Seq<u8>) -> Seq<u8> {
    let num = num_text(slot as i32);
    let shown = match peeked {
        Some(n) => if n >= 32 && crate::memory::le_i16(buf[0], buf[1]) > 0 {
            let max_show = if num.len() <= 29 { 29 - num.len() } else { 0 };
            seq![32u8] + peeked_text(buf, max_show)
        } else {
            Seq::empty()
        },
        None => Seq::empty(),
    };
    num + shown + seq![10u8]
}

impl Machine {
    /// Prints one line of `FILES` (see [`files_entry`]); `peeked` is what the
    /// storage's peek of the slot returned into `buf`.
    pub fn put_files_entry(&mut self, slot: i16, peeked: Option<usize>, buf: &[u8])
        requires
            old(self).wf(),
            buf@.len() == 32,
        ensures
            final(self).wf(),
            final(self).same_outside_screen(old(self)),
            final(self).screen() == spec_puts(old(self).screen(), files_entry(slot, peeked, buf@)),
    {
        let ghost s0 = self.screen();
        let ghost nt = num_text(slot as i32);
        let b = self.put_num(slot as i32);
        let ghost mut printed: Seq<u8> = nt;
        let full = match peeked {
            Some(n) => n >= 32,
            None => false,
        };
        if full {
            let lo = buf[0];
            let hi = buf[1];
            let u: u16 = lo as u16 + (hi as u16) * 256;
            let line_num = #[verifier::truncate] (u as i16);
            if line_num > 0 {
                let ghost m1 = *self;
                self.put_chr(32);
                proof {
                    lemma_same_outside_trans(old(self), &m1, self);
                    lemma_puts_push(s0, printed, 32);
                    printed = printed.push(32);
                }
                let mut len: usize = buf[2] as usize;
                let max_show: usize = if b <= 29 { (29 - b) as usize } else { 0 };
                if len > max_show {
                    len = max_show;
                }
                let ghost region = buf@.subrange(3, 3 + len);
                let ghost base = printed;
                let mut k: usize = 0;
                while k < len
                    invariant
                        self.wf(),
                        self.same_outside_screen(old(self)),
                        len <= 29,
                        buf@.len() == 32,
                        k <= len,
                        region == buf@.subrange(3, 3 + len),
                        first_zero(region, 0, len as int) == first_zero(region, k as int, len as int),
                        self.screen() == spec_puts(s0, base + region.subrange(0, k as int)),
                    ensures
                        self.wf(),
                        self.same_outside_screen(old(self)),
                        first_zero(region, 0, len as int) == k,
                        self.screen() == spec_puts(s0, base + region.subrange(0, k as int)),
                    decreases len - k,
                {
                    let c = buf[3 + k];
                    assert(c == region[k as int]);
                    if c == 0 {
                        break;
                    }
                    let ghost before = *self;
                    self.put_chr(c);
                    proof {
                        lemma_same_outside_trans(old(self), &before, self);
                        lemma_puts_push(s0, base + region.subrange(0, k as int), c);
                        assert((base + region.subrange(0, k as int)).push(c) =~= base + region.subrange(0, k + 1));
                    }
                    k = k + 1;
                }
                proof {
                    printed = base + region.subrange(0, k as int);
                    assert(printed =~= nt + (seq![32u8] + peeked_text(buf@, max_show as int)));
                }
            } else {
                assert(printed =~= nt + Seq::<u8>::empty());
            }
        } else {
            assert(printed =~= nt + Seq::<u8>::empty());
        }
        let ghost m2 = *self;
        self.put_chr(10);
        proof {
            lemma_same_outside_trans(old(self), &m2, self);
            lemma_puts_push(s0, printed, 10);
            assert(printed.push(10) =~= files_entry(slot, peeked, buf@));
        }
    }
}

/// The character of a digit: `0`-`9`, then `A`, `B`, ...
pub open spec fn digit_char(d: u8) -> u8 {
    if d >= 10 { (d + 55) as u8 } else { (d + 48) as u8 }
}

/// The number of base-2^`bits` digits of `v` (at least one).
pub open spec fn radix_len(v: u16, bits: u16) -> int
    decreases v,
{
    if bits == 0 || bits >= 16 || (v >> bits) == 0 {
        1
    } else {
        proof {
            assert((v >> bits) < v) by (bit_vector)
                requires (v >> bits) != 0, 1 <= bits < 16;
        }
        1 + radix_len(v >> bits, bits)
    }
}

/// Digit `i` (from the right) of `value` in base 2^`bits`, as a byte.
pub open spec fn radix_digit(value: u16, i: int, bits: u16) -> u8 {
    ((value >> ((i * bits) as u16)) & (((1u16 << bits) - 1) as u16)) as u8
}

/// How many digits `HEX$` / `BIN$` print: `m`, or as many as `value` needs
/// for `m == 0`.
pub open spec fn radix_count(value: u16, m: i16, bits: u16) -> int {
    if m == 0 { radix_len(value, bits) } else { m as int }
}

/// What `HEX$` / `BIN$` print: the digits, the most significant first
/// (nothing for a negative count).
pub open spec fn radix_output(value: u16, m: i16, bits: u16) -> Seq<u8> {
    let count = radix_count(value, m, bits);
    Seq::new(if count < 0 { 0 } else { count as nat }, |k: int| digit_char(radix_digit(value, count - 1 - k, bits)))
}

/// Shifting twice is shifting by the sum; a nonzero result means the sum
/// stays below 16.
proof fn lemma_shr_shr(v: u16, b: u16, c: u16)
    requires
        b < 16,
        c < 16,
        (v >> b) >> c != 0,
    ensures
        b + c < 16,
        (v >> b) >> c == v >> ((b + c) as u16),
{
    assert(b + c < 16) by (bit_vector)
        requires b < 16, c < 16, (v >> b) >> c != 0;
    assert((v >> b) >> c == v >> ((b + c) as u16)) by (bit_vector)
        requires b + c < 16;
}

/// All digits of `v` fit in its 16 bits, and the top one is not 0 (unless
/// `v` is).
proof fn lemma_radix_len(v: u16, bits: u16)
    requires
        1 <= bits < 16,
    ensures
        1 <= radix_len(v, bits) <= 16,
        (radix_len(v, bits) - 1) * bits < 16,
        v != 0 ==> v >> (((radix_len(v, bits) - 1) * bits) as u16) != 0,
    decreases v,
{
    if (v >> bits) == 0 {
        assert(radix_len(v, bits) == 1);
        assert(v >> 0u16 == v) by (bit_vector);
        assert(((radix_len(v, bits) - 1) * bits) as u16 == 0u16);
    } else {
        assert((v >> bits) < v) by (bit_vector)
            requires (v >> bits) != 0, 1 <= bits < 16;
        let w = v >> bits;
        lemma_radix_len(w, bits);
        let k = radix_len(w, bits);
        assert(radix_len(v, bits) == 1 + k);
        let c = ((k - 1) * bits) as u16;
        assert((k - 1) * bits >= 0) by (nonlinear_arith) requires k >= 1, bits >= 1;
        lemma_shr_shr(v, bits, c);
        assert(k * bits == bits + (k - 1) * bits) by (nonlinear_arith);
        assert(k < 16) by (nonlinear_arith) requires k * bits < 16, bits >= 1;
        assert((radix_len(v, bits) - 1) * bits == k * bits);
        assert(((radix_len(v, bits) - 1) * bits) as u16 == (bits + c) as u16);
    }
}

impl Machine {
    /// `HEX$(value, m)` (`bits_per_digit` 4) and `BIN$(value, m)` (1): `m`
    /// digits, or as many as needed for `m == 0` (see [`radix_output`]).
    pub fn print_radix(&mut self, value: u16, m: i16, bits_per_digit: u32)
        requires
            old(self).wf(),
            m == 0 ==> 1 <= bits_per_digit < 16,
            m > 0 ==> bits_per_digit < 16 && (m - 1) * bits_per_digit < 16,
            forall|i: int| 0 <= i < radix_count(value, m, bits_per_digit as u16)
                ==> #[trigger] radix_digit(value, i, bits_per_digit as u16) <= 200,
        ensures
            final(self).wf(),
            final(self).same_outside_screen(old(self)),
            final(self).screen() == spec_puts(old(self).screen(), radix_output(value, m, bits_per_digit as u16)),
    {
        let ghost s0 = self.screen();
        if m < 0 {
            assert(radix_output(value, m, bits_per_digit as u16) =~= Seq::<u8>::empty());
            return;
        }
        let bits: u16 = bits_per_digit as u16;
        let mut count: i16 = m;
        if count == 0 {
            let mut n = value;
            proof { lemma_radix_len(value, bits); }
            loop
                invariant_except_break
                    radix_len(value, bits) == count + radix_len(n, bits),
                invariant
                    1 <= bits < 16,
                    0 <= count <= 16,
                    radix_len(value, bits) <= 16,
                ensures
                    count == radix_len(value, bits),
                decreases 17 - count,
            {
                proof {
                    lemma_radix_len(n, bits);
                    if (n >> bits) != 0 {
                        assert(radix_len(n, bits) == 1 + radix_len(n >> bits, bits));
                        lemma_radix_len(n >> bits, bits);
                    } else {
                        assert(radix_len(n, bits) == 1);
                    }
                }
                count = count + 1;
                n = n >> bits;
                if n == 0 {
                    break;
                }
            }
            proof { lemma_radix_len(value, bits); }
        }
        let ghost mm: int = count as int;
        let mut i: i16 = count;
        let ghost mut printed: Seq<u8> = Seq::empty();
        while i > 0
            invariant
                self.wf(),
                self.same_outside_screen(old(self)),
                0 <= i <= mm,
                mm == count,
                mm == radix_count(value, m, bits),
                bits == bits_per_digit as u16,
                count > 0 ==> bits < 16 && (count - 1) * bits < 16,
                forall|j: int| 0 <= j < mm ==> #[trigger] radix_digit(value, j, bits) <= 200,
                self.screen() == spec_puts(s0, printed),
                printed == radix_output(value, m, bits).subrange(0, mm - i),
            decreases i,
        {
            i = i - 1;
            assert(i * bits < 16) by (nonlinear_arith) requires 0 <= i < count, (count - 1) * bits < 16, bits >= 0;
            let shift: u16 = (i as u16) * bits;
            assert((1u16 << bits) >= 1) by (bit_vector) requires bits < 16;
            let mask: u16 = (1u16 << bits) - 1;
            let digit: u8 = #[verifier::truncate] (((value >> shift) & mask) as u8);
            assert(digit == radix_digit(value, i as int, bits));
            let c: u8 = if digit >= 10 { digit + 55 } else { digit + 48 };
            let ghost before = *self;
            self.put_chr(c);
            proof {
                lemma_same_outside_trans(old(self), &before, self);
                lemma_puts_push(s0, printed, c);
                assert(radix_output(value, m, bits)[mm - i - 1] == c);
                assert(printed.push(c) =~= radix_output(value, m, bits).subrange(0, mm - i));
                printed = printed.push(c);
            }
        }
        proof {
            assert(printed =~= radix_output(value, m, bits));
        }
    }
}

/// `put_num` prints exactly `decimal_width` characters for every number of
/// at most five digits.
pub proof fn lemma_put_num_width(n: i32)
    requires
        -100000 < n < 100000,
    ensures
        num_text(n).len() == decimal_width_of(n),
{
    let a: int = if n < 0 { -n } else { n as int };
    reveal_with_fuel(num_digits, 6);
    reveal_with_fuel(dec_len, 6);
    if a < 10 {
        assert(num_digits(a, 10000, false).len() == 1);
    } else if a < 100 {
        assert(num_digits(a, 10000, false).len() == 2);
    } else if a < 1000 {
        assert(num_digits(a, 10000, false).len() == 3);
    } else if a < 10000 {
        assert(num_digits(a, 10000, false).len() == 4);
    } else {
        assert(num_digits(a, 10000, false).len() == 5);
    }
}

} // verus!
