//! The values of BASIC functions once their arguments are known: ABS, SIN,
//! COS, FREE, POS, VER, LEN and LINE. (RND, PEEK, TICK, SOUND, BTN, SCR,
//! VPEEK and POINT are with the parts of the machine they read.)

use vstd::prelude::*;

use crate::machine::Machine;
use crate::memory::{list_length_at, list_number_at};
use crate::ram::{OFFSET_RAMROM, OFFSET_RAM_LIST, SIZE_RAM, SIZE_RAM_LIST};
use crate::sin::{sin360, spec_sin360};

verus! {

/// `ABS(v)`: the magnitude, wrapping in 16 bits (`ABS(-32768)` is -32768).
pub fn abs_value(v: i16) -> (r: i16)
    ensures
        r == (if v == i16::MIN { i16::MIN as int } else if v < 0 { -v } else { v as int }),
{
    if v == i16::MIN {
        i16::MIN
    } else if v < 0 {
        -v
    } else {
        v
    }
}

/// `SIN(v)`: 256 times the sine of `v` degrees.
pub fn sin_value(v: i16) -> (r: i16)
    ensures
        r == spec_sin360(v as int),
{
    sin360(v as i32) as i16
}

/// `COS(v)`: the sine of `v + 90` degrees. The sum is taken in 16 bits, so
/// `v` must leave room for it.
pub fn cos_value(v: i16) -> (r: i16)
    requires
        v + 90 <= i16::MAX,
    ensures
        r == spec_sin360(v + 90),
{
    sin360((v + 90) as i32) as i16
}

/// The length of the string at RAM index `p`: the bytes up to a `"`, a NUL
/// or the end of RAM.
pub open spec fn str_len_from(ram: Seq<u8>, p: int) -> int
    decreases SIZE_RAM - p,
{
    if p < 0 || p >= SIZE_RAM || p >= ram.len() || ram[p] == 34 || ram[p] == 0 {
        0
    } else {
        1 + str_len_from(ram, p + 1)
    }
}

/// The number of the program line that holds RAM index `pc` (searching from
/// the line at LIST offset `index`); 0 past the end of the program.
pub open spec fn line_at(ram: Seq<u8>, index: int, pc: int) -> i16
    decreases SIZE_RAM_LIST + 300 - index,
{
    let n = list_number_at(ram, index);
    let size = list_length_at(ram, index);
    if index < 0 || pc < OFFSET_RAM_LIST + index + size + 4 {
        n
    } else if n == 0 {
        0
    } else {
        line_at(ram, index + size + 4, pc)
    }
}

impl Machine {
    /// `FREE()`: the LIST bytes left for the program.
    pub fn free_bytes(&self) -> (r: i16)
        requires
            self.list_size <= SIZE_RAM_LIST - 2,
        ensures
            r == SIZE_RAM_LIST - 2 - self.list_size,
    {
        (SIZE_RAM_LIST as u16 - 2 - self.list_size) as i16
    }

    /// `POS(n)`: 1 the cursor column, 2 its row, 3 the screen width, 4 its
    /// height; anything else the cursor's cell index (wrapping in 16 bits).
    pub fn pos_value(&self, n: i16) -> (r: i16)
        requires
            self.wf(),
        ensures
            r == (if n == 1 { self.cursorx as i16 }
                else if n == 2 { self.cursory as i16 }
                else if n == 3 { self.text_cols as i16 }
                else if n == 4 { self.text_rows as i16 }
                else { (self.cursorx + self.cursory * self.text_cols) as i16 }),
    {
        if n == 1 {
            self.cursorx as i16
        } else if n == 2 {
            self.cursory as i16
        } else if n == 3 {
            self.text_cols as i16
        } else if n == 4 {
            self.text_rows as i16
        } else {
            (self.cursorx + self.cursory * self.text_cols as i32) as i16
        }
    }

    /// `VER(n)`: 0 the version and build (14328), 2 the keyboard layout, 3 the
    /// language (1, Japanese), 4 the frame rate (60); anything else the
    /// platform (4, PC).
    pub fn ver_value(&self, n: i16) -> (r: i16)
        ensures
            r == (if n == 0 { 14328 } else if n == 2 { self.keyboard_id as i16 }
                else if n == 3 { 1 } else if n == 4 { 60 } else { 4 }),
    {
        if n == 0 {
            143 * 100 + 28
        } else if n == 3 {
            1
        } else if n == 4 {
            60
        } else if n == 2 {
            self.keyboard_id as i16
        } else {
            4
        }
    }

    /// `LEN(n)`: the length of the string at address `n` ([`str_len_from`]);
    /// 0 for an address below RAM.
    pub fn len_at(&self, n: i16) -> (r: i16)
        requires
            self.wf(),
        ensures
            r == (if n >= OFFSET_RAMROM { str_len_from(self.ram@, n - OFFSET_RAMROM) } else { 0 }),
    {
        if (n as i32) < OFFSET_RAMROM as i32 {
            return 0;
        }
        let p0: usize = (n as i32 - OFFSET_RAMROM as i32) as usize;
        let mut p = p0;
        let mut cnt: i16 = 0;
        while p < SIZE_RAM && self.ram[p] != 34 && self.ram[p] != 0
            invariant
                self.wf(),
                p0 <= p,
                p0 >= SIZE_RAM ==> p == p0,
                p0 < SIZE_RAM ==> p <= SIZE_RAM,
                cnt == p - p0,
                p0 <= 32767,
                cnt + str_len_from(self.ram@, p as int) == str_len_from(self.ram@, p0 as int),
            decreases SIZE_RAM - p,
        {
            p = p + 1;
            cnt = cnt + 1;
        }
        cnt
    }

    /// `LINE()`: the number of the program line that runs (or where the
    /// program stopped), [`line_at`]; 0 when neither lies in the LIST.
    pub fn line_value(&self) -> (r: i16)
        requires
            self.wf(),
        ensures
            ({
                let pc2 = if OFFSET_RAM_LIST <= self.pc < OFFSET_RAM_LIST + SIZE_RAM_LIST { self.pc } else { self.break_resume_pc };
                r == if OFFSET_RAM_LIST <= pc2 < OFFSET_RAM_LIST + SIZE_RAM_LIST { line_at(self.ram@, 0, pc2 as int) } else { 0 }
            }),
    {
        let pc2 = if self.pc_in_list() { self.pc } else { self.break_resume_pc };
        if !(OFFSET_RAM_LIST <= pc2 && pc2 < OFFSET_RAM_LIST + SIZE_RAM_LIST) {
            return 0;
        }
        let mut index: u16 = 0;
        loop
            invariant
                self.wf(),
                OFFSET_RAM_LIST <= pc2 < OFFSET_RAM_LIST + SIZE_RAM_LIST,
                pc2 == (if OFFSET_RAM_LIST <= self.pc < OFFSET_RAM_LIST + SIZE_RAM_LIST { self.pc } else { self.break_resume_pc }),
                index <= SIZE_RAM_LIST + 259,
                line_at(self.ram@, index as int, pc2 as int) == line_at(self.ram@, 0, pc2 as int),
            decreases SIZE_RAM_LIST + 300 - index,
        {
            let n = self.list_get_number(index);
            let size = self.list_get_length(index) as usize;
            if pc2 < OFFSET_RAM_LIST + index as usize + size + 4 {
                return n;
            }
            if n == 0 {
                return 0;
            }
            index = index + size as u16 + 4;
        }
    }
}

} // verus!
