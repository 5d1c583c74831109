//! The machine's memory operations: the xorshift random generator, the
//! variables A-Z and the array, the program LIST and PEEK / POKE into the
//! virtual address space.

use vstd::prelude::*;

use crate::machine::{Machine, PC_NULL};
use crate::ram::{
    OFFSET_RAMROM, OFFSET_RAM_LIST, OFFSET_RAM_PCG, OFFSET_RAM_VAR, SIZE_PCG, SIZE_RAM,
    SIZE_RAM_LIST, SIZE_RAM_PCG, SIZE_RAM_VAR,
};

verus! {

// ---- xorshift ----

/// The scrambled first word of an xorshift step.
pub open spec fn xorshift_t(x: u32) -> u32 {
    x ^ (x << 11u32)
}

/// The number that one xorshift128 step produces from state `s`.
pub open spec fn xorshift_out(s: Seq<u32>) -> u32 {
    let t = xorshift_t(s[0]);
    (s[3] ^ (s[3] >> 19u32)) ^ (t ^ (t >> 8u32))
}

/// The state after one xorshift128 step.
pub open spec fn xorshift_next(s: Seq<u32>) -> Seq<u32> {
    seq![s[1], s[2], s[3], xorshift_out(s)]
}

/// `RND(n)` from a raw random number: 0 for `n <= 0`, else in `0..n`.
pub open spec fn random_of(r: u32, n: i16) -> i16 {
    if n <= 0 { 0 } else { ((r >> 1u32) % (n as u32)) as i16 }
}

// ---- 16-bit little-endian cells ----

/// The signed 16-bit number stored little-endian in two bytes.
pub open spec fn le_i16(lo: u8, hi: u8) -> i16 {
    (lo as int + 256 * (hi as int)) as i16
}

/// The low byte of `v`.
pub open spec fn lo_byte(v: i16) -> u8 {
    ((v as u16) % 256) as u8
}

/// The high byte of `v`.
pub open spec fn hi_byte(v: i16) -> u8 {
    ((v as u16) / 256) as u8
}

/// The number at byte offset `off` of RAM.
pub open spec fn ram_i16(ram: Seq<u8>, off: int) -> i16 {
    le_i16(ram[off], ram[off + 1])
}

/// RAM after storing `v` at byte offset `off`.
pub open spec fn ram_with_i16(ram: Seq<u8>, off: int, v: i16) -> Seq<u8> {
    ram.update(off, lo_byte(v)).update(off + 1, hi_byte(v))
}

/// Bytes split and joined again give the number back.
pub proof fn lemma_le_i16_round_trip(v: i16)
    ensures
        le_i16(lo_byte(v), hi_byte(v)) == v,
{
    let u = v as u16;
    assert(u % 256 + 256 * (u / 256) == u) by (nonlinear_arith);
    assert((u as int) as i16 == v) by (bit_vector)
        requires u == v as u16;
}

/// Variable slot `i`: the array `[0]`..`[101]` is 0..102, A..Z are 102..128.
pub open spec fn var_offset(i: int) -> int {
    OFFSET_RAM_VAR + 2 * i
}

/// The value of variable slot `i` in RAM.
pub open spec fn var_at(ram: Seq<u8>, i: int) -> i16 {
    ram_i16(ram, var_offset(i))
}

// ---- LIST ----

/// A slot of the LIST can be read as a line header (number and length).
pub open spec fn list_number_at(ram: Seq<u8>, index: int) -> i16 {
    if index + 2 > SIZE_RAM_LIST { 0 } else { ram_i16(ram, OFFSET_RAM_LIST + index) }
}

/// The length byte of the line at `index` (0 past the end of the LIST).
pub open spec fn list_length_at(ram: Seq<u8>, index: int) -> u8 {
    if index + 3 > SIZE_RAM_LIST { 0 } else { ram[OFFSET_RAM_LIST + index + 2] }
}

/// The stored length of a line of `num` bytes: rounded up to even, 255 stays.
pub open spec fn padded_length(num: u8) -> u8 {
    if num == 255 { 255 } else { (num + num % 2) as u8 }
}

/// The index of the first line from `index` on whose number is 0 (the end)
/// or at least `number`.
pub open spec fn list_find_from(ram: Seq<u8>, index: int, number: i16) -> int
    decreases SIZE_RAM_LIST + 300 - index,
{
    let n = list_number_at(ram, index);
    if n == 0 || n >= number || index + 2 > SIZE_RAM_LIST || index < 0 {
        index
    } else {
        list_find_from(ram, index + list_length_at(ram, index) + 4, number)
    }
}

/// PEEK: the font ROM below 0x700, then RAM, else 0.
pub open spec fn peek_at(font: Seq<u8>, ram: Seq<u8>, ad: int) -> u8 {
    if ad < 0 {
        0
    } else if ad < OFFSET_RAMROM {
        if ad < font.len() { font[ad] } else { 0 }
    } else if ad < OFFSET_RAMROM + SIZE_RAM {
        ram[ad - OFFSET_RAMROM]
    } else {
        0
    }
}

impl Machine {
    /// Everything but the RAM and the program counter is as in `other`.
    pub open spec fn same_but_memory(&self, other: &Machine) -> bool {
        *self == (Machine { ram: self.ram, pc: self.pc, list_size: self.list_size, ..*other })
    }

    // ---- random numbers ----

    /// One xorshift128 step: returns the next raw random number.
    pub fn rnd_next(&mut self) -> (r: u32)
        ensures
            r == xorshift_out(old(self).rnd_state@),
            final(self).rnd_state@ == xorshift_next(old(self).rnd_state@),
            *final(self) == (Machine { rnd_state: final(self).rnd_state, ..*old(self) }),
    {
        let s0 = self.rnd_state[0];
        let s1 = self.rnd_state[1];
        let s2 = self.rnd_state[2];
        let s3 = self.rnd_state[3];
        let t = s0 ^ (s0 << 11u32);
        let v = (s3 ^ (s3 >> 19u32)) ^ (t ^ (t >> 8u32));
        self.rnd_state = [s1, s2, s3, v];
        assert(self.rnd_state@ =~= xorshift_next(old(self).rnd_state@));
        v
    }

    /// `RND(n)`: a random number in `0..n`, or 0 for `n <= 0`; the generator
    /// advances either way.
    pub fn random(&mut self, n: i16) -> (r: i16)
        ensures
            r == random_of(xorshift_out(old(self).rnd_state@), n),
            0 <= r && (n > 0 ==> r < n),
            final(self).rnd_state@ == xorshift_next(old(self).rnd_state@),
            *final(self) == (Machine { rnd_state: final(self).rnd_state, ..*old(self) }),
    {
        let r = self.rnd_next();
        if n <= 0 {
            return 0;
        }
        let m = n as u32;
        let q = (r >> 1u32) % m;
        q as i16
    }

    /// `SRND n`: reseeds the generator.
    pub fn random_seed(&mut self, n: i32)
        ensures
            final(self).rnd_state@ == seq![n as u32, 362436069u32, 521288629u32, 88675123u32],
            *final(self) == (Machine { rnd_state: final(self).rnd_state, ..*old(self) }),
    {
        self.rnd_state = [n as u32, 362436069, 521288629, 88675123];
        assert(self.rnd_state@ =~= seq![n as u32, 362436069u32, 521288629u32, 88675123u32]);
    }

    // ---- 16-bit cells ----

    fn read_i16_le(&self, off: usize) -> (r: i16)
        requires
            self.ram@.len() == SIZE_RAM,
            off + 1 < SIZE_RAM,
        ensures
            r == ram_i16(self.ram@, off as int),
    {
        let lo = self.ram[off];
        let hi = self.ram[off + 1];
        let u: u16 = lo as u16 + (hi as u16) * 256;
        #[verifier::truncate] (u as i16)
    }

    fn write_i16_le(&mut self, off: usize, v: i16)
        requires
            old(self).ram@.len() == SIZE_RAM,
            off + 1 < SIZE_RAM,
        ensures
            final(self).ram@ == ram_with_i16(old(self).ram@, off as int, v),
            *final(self) == (Machine { ram: final(self).ram, ..*old(self) }),
    {
        let u = #[verifier::truncate] (v as u16);
        self.ram.set(off, (u % 256) as u8);
        self.ram.set(off + 1, (u / 256) as u8);
    }

    // ---- variables ----

    /// The variable in slot `i` (array `[0]`..`[101]` are 0..102, A..Z 102..128).
    pub fn var_get(&self, i: usize) -> (r: i16)
        requires
            self.wf(),
            var_offset(i as int) + 1 < SIZE_RAM,
        ensures
            r == var_at(self.ram@, i as int),
    {
        self.read_i16_le(OFFSET_RAM_VAR + i * 2)
    }

    /// Stores `v` in variable slot `i`.
    pub fn var_set(&mut self, i: usize, v: i16)
        requires
            old(self).wf(),
            var_offset(i as int) + 1 < SIZE_RAM,
        ensures
            final(self).wf(),
            final(self).ram@ == ram_with_i16(old(self).ram@, var_offset(i as int), v),
            *final(self) == (Machine { ram: final(self).ram, ..*old(self) }),
    {
        self.write_i16_le(OFFSET_RAM_VAR + i * 2, v);
    }

    /// Sets every variable and array element to 0.
    pub fn clear_vars(&mut self)
        requires
            old(self).wf(),
        ensures
            final(self).wf(),
            final(self).ram@.len() == old(self).ram@.len(),
            forall|j: int| 0 <= j < SIZE_RAM ==> #[trigger] final(self).ram@[j] == (if
                OFFSET_RAM_VAR <= j < OFFSET_RAM_VAR + SIZE_RAM_VAR { 0u8 } else { old(self).ram@[j] }),
            *final(self) == (Machine { ram: final(self).ram, ..*old(self) }),
    {
        self.fill_ram(OFFSET_RAM_VAR, OFFSET_RAM_VAR + SIZE_RAM_VAR);
    }

    fn fill_ram(&mut self, from: usize, to: usize)
        requires
            old(self).wf(),
            from <= to <= SIZE_RAM,
        ensures
            final(self).wf(),
            final(self).ram@.len() == old(self).ram@.len(),
            forall|j: int| 0 <= j < SIZE_RAM ==> #[trigger] final(self).ram@[j] == (if
                from <= j < to { 0u8 } else { old(self).ram@[j] }),
            *final(self) == (Machine { ram: final(self).ram, ..*old(self) }),
    {
        let mut k = from;
        while k < to
            invariant
                from <= k <= to <= SIZE_RAM,
                self.wf(),
                self.ram@.len() == old(self).ram@.len(),
                forall|j: int| 0 <= j < SIZE_RAM ==> #[trigger] self.ram@[j] == (if
                    from <= j < k { 0u8 } else { old(self).ram@[j] }),
                *self == (Machine { ram: self.ram, ..*old(self) }),
            decreases to - k,
        {
            self.ram.set(k, 0);
            k = k + 1;
        }
    }

    // ---- LIST ----

    /// The line number stored at LIST offset `index`; 0 (the end) past the LIST.
    pub fn list_get_number(&self, index: u16) -> (r: i16)
        requires
            self.wf(),
        ensures
            r == list_number_at(self.ram@, index as int),
    {
        if (index as usize) + 2 > SIZE_RAM_LIST {
            return 0;
        }
        self.read_i16_le(OFFSET_RAM_LIST + index as usize)
    }

    /// Stores the line number `num` at LIST offset `index`.
    pub fn list_set_number(&mut self, index: u16, num: i16)
        requires
            old(self).wf(),
            OFFSET_RAM_LIST + index + 1 < SIZE_RAM,
        ensures
            final(self).wf(),
            final(self).ram@ == ram_with_i16(old(self).ram@, OFFSET_RAM_LIST + index, num),
            *final(self) == (Machine { ram: final(self).ram, ..*old(self) }),
    {
        self.write_i16_le(OFFSET_RAM_LIST + index as usize, num);
    }

    /// The length byte of the line at LIST offset `index`; 0 past the LIST.
    pub fn list_get_length(&self, index: u16) -> (r: u8)
        requires
            self.wf(),
        ensures
            r == list_length_at(self.ram@, index as int),
    {
        if (index as usize) + 3 > SIZE_RAM_LIST {
            return 0;
        }
        self.ram[OFFSET_RAM_LIST + index as usize + 2]
    }

    /// Stores the length of the line at `index`, rounded up to an even number
    /// (255 stays 255).
    pub fn list_set_length(&mut self, index: u16, num: u8)
        requires
            old(self).wf(),
            OFFSET_RAM_LIST + index + 2 < SIZE_RAM,
        ensures
            final(self).wf(),
            final(self).ram@ == old(self).ram@.update(OFFSET_RAM_LIST + index + 2, padded_length(num)),
            *final(self) == (Machine { ram: final(self).ram, ..*old(self) }),
    {
        let padded = if num == 255 { 255 } else { num + num % 2 };
        self.ram.set(OFFSET_RAM_LIST + index as usize + 2, padded);
    }

    /// The LIST offset of the first line whose number is at least `number`,
    /// or of the end of the LIST.
    pub fn list_find(&self, number: i16) -> (r: u16)
        requires
            self.wf(),
        ensures
            r == list_find_from(self.ram@, 0, number),
    {
        let mut index: u16 = 0;
        loop
            invariant
                self.wf(),
                index <= SIZE_RAM_LIST + 259,
                list_find_from(self.ram@, index as int, number) == list_find_from(self.ram@, 0, number),
            decreases SIZE_RAM_LIST + 300 - index,
        {
            let n = self.list_get_number(index);
            if n == 0 || n >= number {
                return index;
            }
            let len = self.list_get_length(index);
            index = index + len as u16 + 4;
        }
    }

    /// `GOTO` target: the LIST offset of line `number`, or -1 when there is no
    /// such line.
    pub fn list_find_goto(&self, number: i16) -> (r: i32)
        requires
            self.wf(),
        ensures
            ({
                let i = list_find_from(self.ram@, 0, number);
                r == if list_number_at(self.ram@, i) != number { -1 } else { i }
            }),
    {
        let i = self.list_find(number);
        if self.list_get_number(i) != number {
            -1
        } else {
            i as i32
        }
    }

    /// Points the program counter at the text of the line at LIST offset `n`.
    pub fn list_set_pc(&mut self, n: u16)
        ensures
            final(self).pc == OFFSET_RAM_LIST + n + 3,
            *final(self) == (Machine { pc: final(self).pc, ..*old(self) }),
    {
        self.pc = OFFSET_RAM_LIST + n as usize + 3;
    }

    /// The program counter is inside the LIST (a program line runs).
    pub fn pc_in_list(&self) -> (r: bool)
        ensures
            r == (OFFSET_RAM_LIST <= self.pc < OFFSET_RAM_LIST + SIZE_RAM_LIST),
    {
        OFFSET_RAM_LIST <= self.pc && self.pc < OFFSET_RAM_LIST + SIZE_RAM_LIST
    }

    // ---- PEEK / POKE ----

    /// `PEEK(ad)`: the character ROM (`font`) below 0x700, RAM from 0x700 on,
    /// 0 elsewhere.
    pub fn peek(&self, font: &[u8], ad: i32) -> (r: u8)
        requires
            self.wf(),
        ensures
            r == peek_at(font@, self.ram@, ad as int),
    {
        if ad < 0 {
            return 0;
        }
        let uad = ad as usize;
        if uad < OFFSET_RAMROM {
            if uad < font.len() { font[uad] } else { 0 }
        } else if uad < OFFSET_RAMROM + SIZE_RAM {
            self.ram[uad - OFFSET_RAMROM]
        } else {
            0
        }
    }

    /// `POKE ad, n`: writes RAM at virtual address `ad`; other addresses are
    /// ignored.
    pub fn poke(&mut self, ad: i32, n: u8)
        requires
            old(self).wf(),
        ensures
            final(self).wf(),
            final(self).ram@ == (if OFFSET_RAMROM <= ad < OFFSET_RAMROM + SIZE_RAM {
                old(self).ram@.update(ad - OFFSET_RAMROM, n)
            } else {
                old(self).ram@
            }),
            *final(self) == (Machine { ram: final(self).ram, ..*old(self) }),
    {
        if ad >= OFFSET_RAMROM as i32 && ad < (OFFSET_RAMROM + SIZE_RAM) as i32 {
            let a = (ad - OFFSET_RAMROM as i32) as usize;
            self.ram.set(a, n);
        }
    }

    /// `CLP`: the PCG gets the font's last 32 character patterns.
    pub fn reset_pcg_to_font(&mut self, font: &[u8])
        requires
            old(self).wf(),
            font@.len() >= 2048,
        ensures
            final(self).wf(),
            final(self).ram@.len() == old(self).ram@.len(),
            forall|j: int| 0 <= j < SIZE_RAM ==> #[trigger] final(self).ram@[j] == (if
                j < SIZE_RAM_PCG { font@[(256 - SIZE_PCG) * 8 + j] } else { old(self).ram@[j] }),
            *final(self) == (Machine { ram: final(self).ram, ..*old(self) }),
    {
        let base: usize = (256 - SIZE_PCG) * 8;
        let mut k: usize = 0;
        while k < SIZE_RAM_PCG
            invariant
                k <= SIZE_RAM_PCG,
                font@.len() >= 2048,
                base == (256 - SIZE_PCG) * 8,
                self.wf(),
                self.ram@.len() == old(self).ram@.len(),
                forall|j: int| 0 <= j < SIZE_RAM ==> #[trigger] self.ram@[j] == (if
                    j < k { font@[base + j] } else { old(self).ram@[j] }),
                *self == (Machine { ram: self.ram, ..*old(self) }),
            decreases SIZE_RAM_PCG - k,
        {
            self.ram.set(OFFSET_RAM_PCG + k, font[base + k]);
            k = k + 1;
        }
    }

    /// `NEW`: clears the variables and the program, forgets where a stopped
    /// program would resume, and reloads the PCG from `font`.
    pub fn basic_init(&mut self, font: &[u8])
        requires
            old(self).wf(),
            font@.len() >= 2048,
        ensures
            final(self).wf(),
            final(self).ram@.len() == old(self).ram@.len(),
            forall|j: int| 0 <= j < SIZE_RAM ==> #[trigger] final(self).ram@[j] == (
                if j < SIZE_RAM_PCG { font@[(256 - SIZE_PCG) * 8 + j] }
                else if (OFFSET_RAM_VAR <= j < OFFSET_RAM_VAR + SIZE_RAM_VAR)
                    || (OFFSET_RAM_LIST <= j < OFFSET_RAM_LIST + SIZE_RAM_LIST) { 0u8 }
                else { old(self).ram@[j] }),
            *final(self) == (Machine {
                ram: final(self).ram,
                pc: PC_NULL,
                break_resume_pc: PC_NULL,
                list_size: 0,
                ..*old(self)
            }),
    {
        self.clear_vars();
        self.fill_ram(OFFSET_RAM_LIST, OFFSET_RAM_LIST + SIZE_RAM_LIST);
        self.pc = PC_NULL;
        self.break_resume_pc = PC_NULL;
        self.list_size = 0;
        self.reset_pcg_to_font(font);
    }
}

/// RAM after `POKE ad, n`.
pub open spec fn poke_ram(ram: Seq<u8>, ad: int, n: u8) -> Seq<u8> {
    if OFFSET_RAMROM <= ad < OFFSET_RAMROM + SIZE_RAM { ram.update(ad - OFFSET_RAMROM, n) } else { ram }
}

/// RAM after `COPY`: `count` bytes, one at a time, each PEEKed at `src` and
/// POKEd at `dst`, both addresses moving by `step` (+1 or -1, wrapping in 16
/// bits); a byte copied earlier can be read again.
pub open spec fn copied_ram(font: Seq<u8>, ram: Seq<u8>, dst: i16, src: i16, count: nat, up: bool) -> Seq<u8>
    decreases count,
{
    if count == 0 {
        ram
    } else {
        let ram2 = poke_ram(ram, dst as int, peek_at(font, ram, src as int));
        let next_dst = if up { vstd::wrapping::i16_specs::wrapping_add(dst, 1) } else { vstd::wrapping::i16_specs::wrapping_sub(dst, 1) };
        let next_src = if up { vstd::wrapping::i16_specs::wrapping_add(src, 1) } else { vstd::wrapping::i16_specs::wrapping_sub(src, 1) };
        copied_ram(font, ram2, next_dst, next_src, (count - 1) as nat, up)
    }
}

impl Machine {
    /// `COPY dst, src, len` once its arguments are read: copies `len` bytes
    /// upwards, or `-len` bytes downwards for a negative `len` (see
    /// [`copied_ram`]).
    pub fn memory_copy(&mut self, font: &[u8], dst: i16, src: i16, len: i16)
        requires
            old(self).wf(),
            len != i16::MIN,
        ensures
            final(self).wf(),
            final(self).ram@ == copied_ram(font@, old(self).ram@, dst, src,
                (if len > 0 { len as int } else { -len }) as nat, len > 0),
            *final(self) == (Machine { ram: final(self).ram, ..*old(self) }),
    {
        let up = len > 0;
        let count: i16 = if up { len } else { -len };
        let mut to = dst;
        let mut from = src;
        let mut k: i16 = 0;
        while k < count
            invariant
                self.wf(),
                0 <= k <= count,
                copied_ram(font@, self.ram@, to, from, (count - k) as nat, up)
                    == copied_ram(font@, old(self).ram@, dst, src, count as nat, up),
                *self == (Machine { ram: self.ram, ..*old(self) }),
            decreases count - k,
        {
            let v = self.peek(font, from as i32);
            self.poke(to as i32, v);
            if up {
                to = to.wrapping_add(1);
                from = from.wrapping_add(1);
            } else {
                to = to.wrapping_sub(1);
                from = from.wrapping_sub(1);
            }
            k = k + 1;
        }
    }
}

/// Reading a variable gives back what was stored in it, and storing touches no
/// other variable.
pub proof fn lemma_var_read_write(ram: Seq<u8>, i: int, j: int, v: i16)
    requires
        ram.len() == SIZE_RAM,
        0 <= i,
        0 <= j,
        var_offset(i) + 1 < SIZE_RAM,
        var_offset(j) + 1 < SIZE_RAM,
    ensures
        var_at(ram_with_i16(ram, var_offset(i), v), i) == v,
        j != i ==> var_at(ram_with_i16(ram, var_offset(i), v), j) == var_at(ram, j),
{
    lemma_le_i16_round_trip(v);
}

/// The LIST offset that `list_find` returns is never past the end marker it
/// stopped at: the line there is the end or numbered at least `number`.
pub proof fn lemma_list_find_stops(ram: Seq<u8>, index: int, number: i16)
    requires
        0 <= index,
    ensures
        ({
            let r = list_find_from(ram, index, number);
            &&& index <= r
            &&& (list_number_at(ram, r) == 0 || list_number_at(ram, r) >= number)
        }),
    decreases SIZE_RAM_LIST + 300 - index,
{
    let n = list_number_at(ram, index);
    if n == 0 || n >= number || index + 2 > SIZE_RAM_LIST || index < 0 {
    } else {
        lemma_list_find_stops(ram, index + list_length_at(ram, index) + 4, number);
    }
}

} // verus!
