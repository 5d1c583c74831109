//! Reading BASIC source: the character reader of the tokenizer and its
//! numeric literals (decimal, `#` hexadecimal and `` ` `` binary).
//!
//! Spaces between the characters of a literal are skipped, as IchigoJam does;
//! a `:` or the end of RAM reads as the end of the statement (0). Values wrap
//! in 16 bits.

use vstd::prelude::*;

use crate::machine::Machine;
use crate::romajikana::fold_upper;

verus! {

/// A numeric literal read at the program counter.
#[derive(Debug, Clone, Copy, PartialEq, Eq, Structural)]
pub enum Literal {
    /// The next character does not start a number (it is left unread).
    NotNumber,
    /// A number with its value.
    Number(i16),
    /// `#` or `` ` `` without a digit after it.
    Malformed,
}

/// The next character from `pc` on that is not a space, upper-cased, and
/// where it stands; a `:` or the end of RAM gives 0.
pub open spec fn next_char_at(ram: Seq<u8>, pc: int) -> (int, u8)
    decreases ram.len() - pc,
{
    if pc < 0 || pc >= ram.len() {
        (pc, 0u8)
    } else if ram[pc] == 32 {
        next_char_at(ram, pc + 1)
    } else if ram[pc] == 58 {
        (pc, 0u8)
    } else {
        (pc, fold_upper(ram[pc]))
    }
}

/// A decimal digit.
pub open spec fn is_dec(c: u8) -> bool {
    48 <= c <= 57
}

/// A hexadecimal digit (upper case).
pub open spec fn is_hex(c: u8) -> bool {
    is_dec(c) || 65 <= c <= 70
}

/// The value of a hexadecimal digit.
pub open spec fn hex_value(c: u8) -> int {
    if c <= 57 { c - 48 } else { c - 55 }
}

/// The rest of a decimal number whose digit `c` stands at `pc`, with `v` the
/// value of the digits before it: where reading stops and the value.
pub open spec fn dec_scan(ram: Seq<u8>, pc: int, c: u8, v: int) -> (int, int)
    decreases ram.len() - pc,
{
    let v2 = (v * 10 + (c - 48)) % 65536;
    let (p2, c2) = next_char_at(ram, pc + 1);
    if is_dec(c2) && pc < p2 < ram.len() { dec_scan(ram, p2, c2, v2) } else { (p2, v2) }
}

/// The rest of a hexadecimal number whose digit `c` stands at `pc` (`w`
/// keeps the low 20 bits read so far). A following `L` or `N` (as in `AND`)
/// gives its last digit back.
pub open spec fn hex_scan(ram: Seq<u8>, pc: int, c: u8, w: int) -> (int, int)
    decreases ram.len() - pc,
{
    let w2 = (w * 16 + hex_value(c)) % 1048576;
    let (p2, c2) = next_char_at(ram, pc + 1);
    if c2 == 76 || c2 == 78 {
        (p2 - 1, (w2 / 16) % 65536)
    } else if is_hex(c2) && pc < p2 < ram.len() {
        hex_scan(ram, p2, c2, w2)
    } else {
        (p2, w2 % 65536)
    }
}

/// The rest of a binary number whose digit `c` stands at `pc`.
pub open spec fn bin_scan(ram: Seq<u8>, pc: int, c: u8, v: int) -> (int, int)
    decreases ram.len() - pc,
{
    let v2 = (v * 2 + (c - 48)) % 65536;
    let (p2, c2) = next_char_at(ram, pc + 1);
    if (c2 == 48 || c2 == 49) && pc < p2 < ram.len() { bin_scan(ram, p2, c2, v2) } else { (p2, v2) }
}

/// The literal at `pc` and where reading stops.
pub open spec fn literal_at(ram: Seq<u8>, pc: int) -> (int, Literal) {
    let (p, c) = next_char_at(ram, pc);
    if is_dec(c) {
        let (q, v) = dec_scan(ram, p, c, 0);
        (q, Literal::Number((v as u16) as i16))
    } else if c == 35 {
        let (p1, c1) = next_char_at(ram, p + 1);
        if is_hex(c1) {
            let (q, v) = hex_scan(ram, p1, c1, 0);
            (q, Literal::Number((v as u16) as i16))
        } else {
            (p1, Literal::Malformed)
        }
    } else if c == 96 {
        let (p1, c1) = next_char_at(ram, p + 1);
        if c1 == 48 || c1 == 49 {
            let (q, v) = bin_scan(ram, p1, c1, 0);
            (q, Literal::Number((v as u16) as i16))
        } else {
            (p1, Literal::Malformed)
        }
    } else {
        (p, Literal::NotNumber)
    }
}

impl Machine {
    /// The next character of the statement: spaces are skipped and the
    /// program counter stops at the character (not past it); `:` and the end
    /// of RAM give 0.
    pub fn token_get_char(&mut self) -> (c: u8)
        ensures
            (final(self).pc as int, c) == next_char_at(old(self).ram@, old(self).pc as int),
            final(self).pc >= old(self).pc,
            c != 0 ==> final(self).pc < old(self).ram.len(),
            *final(self) == (Machine { pc: final(self).pc, ..*old(self) }),
    {
        loop
            invariant
                next_char_at(self.ram@, self.pc as int) == next_char_at(old(self).ram@, old(self).pc as int),
                self.pc >= old(self).pc,
                *self == (Machine { pc: self.pc, ..*old(self) }),
            decreases self.ram@.len() - self.pc,
        {
            if self.pc >= self.ram.len() {
                return 0;
            }
            let c = self.ram[self.pc];
            if c != 32 {
                if c == 58 {
                    return 0;
                }
                return crate::machine::basic_toupper(c);
            }
            self.pc = self.pc + 1;
        }
    }

    /// Reads a numeric literal at the program counter ([`literal_at`]):
    /// decimal digits, `#` and hexadecimal digits, or `` ` `` and binary
    /// digits. Anything else is left unread.
    #[verifier::rlimit(40)]
    pub fn scan_number(&mut self) -> (r: Literal)
        ensures
            (final(self).pc as int, r) == literal_at(old(self).ram@, old(self).pc as int),
            *final(self) == (Machine { pc: final(self).pc, ..*old(self) }),
    {
        let c = self.token_get_char();
        if 48 <= c && c <= 57 {
            let ghost p0 = self.pc as int;
            let ghost c0 = c;
            let mut c = c;
            let mut v: u32 = 0;
            loop
                invariant_except_break
                    is_dec(c),
                    self.pc < self.ram.len(),
                    v < 65536,
                    dec_scan(self.ram@, self.pc as int, c, v as int) == dec_scan(self.ram@, p0, c0, 0),
                invariant
                    *self == (Machine { pc: self.pc, ..*old(self) }),
                ensures
                    (self.pc as int, v as int) == dec_scan(self.ram@, p0, c0, 0),
                    v < 65536,
                    *self == (Machine { pc: self.pc, ..*old(self) }),
                decreases self.ram@.len() - self.pc,
            {
                v = (v * 10 + (c - 48) as u32) % 65536;
                self.pc = self.pc + 1;
                let c2 = self.token_get_char();
                if !(48 <= c2 && c2 <= 57) {
                    break;
                }
                c = c2;
            }
            return Literal::Number((v as u16) as i16);
        }
        if c == 35 {
            self.pc = self.pc + 1;
            let c1 = self.token_get_char();
            if !(48 <= c1 && c1 <= 57) && !(65 <= c1 && c1 <= 70) {
                return Literal::Malformed;
            }
            let ghost p1 = self.pc as int;
            let mut c = c1;
            let mut w: u32 = 0;
            loop
                invariant_except_break
                    is_hex(c),
                    self.pc < self.ram.len(),
                    w < 1048576,
                    hex_scan(self.ram@, self.pc as int, c, w as int) == hex_scan(self.ram@, p1, c1, 0),
                invariant
                    *self == (Machine { pc: self.pc, ..*old(self) }),
                ensures
                    (self.pc as int, w as int) == hex_scan(self.ram@, p1, c1, 0),
                    w < 65536,
                    *self == (Machine { pc: self.pc, ..*old(self) }),
                decreases self.ram@.len() - self.pc,
            {
                let n: u32 = if c <= 57 { (c - 48) as u32 } else { (c - 55) as u32 };
                assert(n == hex_value(c));
                let ghost w_old = w as int;
                w = (w * 16 + n) % 1048576;
                assert(w == (w_old * 16 + hex_value(c)) % 1048576);
                self.pc = self.pc + 1;
                let c2 = self.token_get_char();
                if c2 == 76 || c2 == 78 {
                    self.pc = self.pc - 1;
                    assert((w / 16) % 65536 < 65536) by (nonlinear_arith);
                    w = (w / 16) % 65536;
                    break;
                }
                if !(48 <= c2 && c2 <= 57) && !(65 <= c2 && c2 <= 70) {
                    w = w % 65536;
                    break;
                }
                c = c2;
            }
            return Literal::Number((w as u16) as i16);
        }
        if c == 96 {
            self.pc = self.pc + 1;
            let c1 = self.token_get_char();
            if c1 != 48 && c1 != 49 {
                return Literal::Malformed;
            }
            let ghost p1 = self.pc as int;
            let mut c = c1;
            let mut v: u32 = 0;
            loop
                invariant_except_break
                    c == 48 || c == 49,
                    self.pc < self.ram.len(),
                    v < 65536,
                    bin_scan(self.ram@, self.pc as int, c, v as int) == bin_scan(self.ram@, p1, c1, 0),
                invariant
                    *self == (Machine { pc: self.pc, ..*old(self) }),
                ensures
                    (self.pc as int, v as int) == bin_scan(self.ram@, p1, c1, 0),
                    v < 65536,
                    *self == (Machine { pc: self.pc, ..*old(self) }),
                decreases self.ram@.len() - self.pc,
            {
                v = (v * 2 + (c - 48) as u32) % 65536;
                self.pc = self.pc + 1;
                let c2 = self.token_get_char();
                if c2 != 48 && c2 != 49 {
                    break;
                }
                c = c2;
            }
            return Literal::Number((v as u16) as i16);
        }
        Literal::NotNumber
    }
}

} // verus!
