//! The IchigoJam virtual machine state and its small, self-contained operations:
//! random numbers, variables, the program list, PEEK/POKE into RAM, the key
//! buffer and the BTN() key state.

use std::collections::VecDeque;

use vstd::prelude::*;

use crate::errors::BasicError;
use crate::psg::Psg;
use crate::ram::{SIZE_RAM, OFFSET_RAM_VRAM, SIZE_RAM_VRAM, SCREEN_W, SCREEN_H};

verus! {

/// "No program counter": nothing is running.
pub const PC_NULL: usize = usize::MAX;

/// The sound that the PSG produces now. The host turns it into a frequency:
/// `Note(t)` is the equal-tempered pitch with MIDI number `36 + t` (t = 24 is
/// middle C), `Raw(s)` is `8 * s` Hz (MML `N`), `Beep(tone)` is `8000 / tone` Hz.
#[derive(Debug, Clone, Copy, PartialEq, Eq, Structural)]
pub enum Tone {
    Silent,
    Note(i32),
    Raw(i32),
    Beep(i16),
}

/// The IchigoJam BASIC machine.
#[derive(Debug)]
pub struct Machine {
    /// The unified RAM (PCG/VAR/VRAM/LIST/KEYBUF/LINEBUF/I2CBUF).
    pub ram: Vec<u8>,
    /// Program counter (index into `ram`); `PC_NULL` when nothing runs.
    pub pc: usize,
    /// Bytes used by the LIST (without the trailing 0x00 0x00).
    pub list_size: u16,

    // ===== screen =====
    pub cursorx: i32,
    pub cursory: i32,
    pub is_cursor_visible: bool,
    pub is_screen_inverted: bool,
    /// Zoom step (0..=3); the logical screen is `SCREEN_W/H >> zoom`.
    pub screen_zoom_shift: u8,
    pub is_video_enabled: bool,
    pub text_cols: usize,
    pub text_rows: usize,
    /// Character output overwrites (true) or inserts (false).
    pub is_overwrite_mode: bool,
    pub locate_pending_bytes: u8,
    /// The user's Insert toggle (false: insert, true: overwrite).
    pub is_overwrite_toggle: bool,

    // ===== keyboard =====
    pub is_kana_mode: bool,
    /// ESC asked to interrupt the program.
    pub is_esc_pressed: bool,
    pub romaji_pending_0: u8,
    pub romaji_pending_1: u8,
    pub inkey_queue: VecDeque<u8>,
    /// Keyboard layout (`KBD`): 0 = US, 1 = JA.
    pub keyboard_id: u8,
    /// Keys held down, by ASCII code (for `BTN()`).
    pub keys_down: [bool; 256],

    // ===== timing and I/O =====
    /// Frame counter, advanced by the host at 60 Hz.
    pub frames: u16,
    pub video_line_count: u16,
    pub is_led_on: bool,
    /// Frames still to wait (`WAIT`); the host converts them to real time.
    pub wait_frames: u32,
    /// The host runs a program now (synchronised every frame).
    pub is_program_running: bool,
    pub input_pending: Option<usize>,
    pub last_error: Option<BasicError>,
    pub last_file_slot: u8,
    /// Errors are not printed (set while a host runs a line silently).
    pub is_quiet_mode: bool,
    /// Where `CONT` resumes after an error inside the program.
    pub break_resume_pc: usize,

    // ===== sound =====
    pub psg: Psg,

    /// xorshift state.
    pub rnd_state: [u32; 4],
}

/// The logical screen sizes that the zoom steps give.
pub open spec fn screen_dims(z: int, w: int, h: int) -> bool {
    ||| (z == 0 && w == 32 && h == 24)
    ||| (z == 1 && w == 16 && h == 12)
    ||| (z == 2 && w == 8 && h == 6)
    ||| (z == 3 && w == 4 && h == 3)
}

impl Machine {
    /// The machine's invariant: RAM has its full size, the logical screen fits
    /// the VRAM and the cursor stays on it (row -1 hides it).
    pub open spec fn wf(&self) -> bool {
        &&& self.ram@.len() == SIZE_RAM
        &&& screen_dims(self.screen_zoom_shift as int, self.text_cols as int, self.text_rows as int)
        &&& 0 <= self.cursorx < self.text_cols
        &&& -1 <= self.cursory < self.text_rows
        &&& self.locate_pending_bytes <= 2
        &&& self.inkey_queue@.len() <= 126
    }

    /// The VRAM as a sequence of cells.
    pub open spec fn vram_view(&self) -> Seq<u8> {
        self.ram@.subrange(OFFSET_RAM_VRAM as int, (OFFSET_RAM_VRAM + SIZE_RAM_VRAM) as int)
    }

    /// A fresh machine: empty program, cleared variables, screen and sound in
    /// their power-on state. The character generator area starts zeroed; a host
    /// fills it from its font with `reset_pcg_to_font`.
    pub fn new() -> (m: Machine)
        ensures
            m.wf(),
            m.pc == PC_NULL,
            m.list_size == 0,
            forall|i: int| 0 <= i < SIZE_RAM ==> m.ram@[i] == 0,
            m.cursorx == 0,
            m.cursory == 0,
            m.is_cursor_visible,
            !m.is_screen_inverted,
            m.screen_zoom_shift == 0,
            m.is_video_enabled,
            m.text_cols == SCREEN_W,
            m.text_rows == SCREEN_H,
            m.is_overwrite_mode,
            m.locate_pending_bytes == 0,
            !m.is_overwrite_toggle,
            !m.is_kana_mode,
            !m.is_esc_pressed,
            m.romaji_pending_0 == 0,
            m.romaji_pending_1 == 0,
            m.inkey_queue@.len() == 0,
            m.keyboard_id == 1,
            forall|i: int| 0 <= i < 256 ==> !#[trigger] m.keys_down@[i],
            m.frames == 0,
            m.video_line_count == 0,
            !m.is_led_on,
            m.wait_frames == 0,
            !m.is_program_running,
            m.input_pending is None,
            m.last_error is None,
            m.last_file_slot == 0,
            !m.is_quiet_mode,
            m.break_resume_pc == PC_NULL,
            m.psg == (Psg { mml: None, rep: None, oct: 3, deflen: 8, tempo: 120, tone: 0, len: 0, waitcnt: 0, sound: Tone::Silent }),
            m.rnd_state@ == seq![123456789u32, 362436069u32, 521288629u32, 88675123u32],
    {
        Machine {
            ram: vec![0u8; SIZE_RAM],
            pc: PC_NULL,
            list_size: 0,
            cursorx: 0,
            cursory: 0,
            is_cursor_visible: true,
            is_screen_inverted: false,
            screen_zoom_shift: 0,
            is_video_enabled: true,
            text_cols: SCREEN_W,
            text_rows: SCREEN_H,
            is_overwrite_mode: true,
            locate_pending_bytes: 0,
            is_overwrite_toggle: false,
            is_kana_mode: false,
            is_esc_pressed: false,
            romaji_pending_0: 0,
            romaji_pending_1: 0,
            inkey_queue: VecDeque::with_capacity(128),
            keyboard_id: 1,
            keys_down: [false; 256],
            frames: 0,
            video_line_count: 0,
            is_led_on: false,
            wait_frames: 0,
            is_program_running: false,
            input_pending: None,
            last_error: None,
            last_file_slot: 0,
            is_quiet_mode: false,
            break_resume_pc: PC_NULL,
            psg: Psg {
                mml: None,
                rep: None,
                oct: 3,
                deflen: 8,
                tempo: 120,
                tone: 0,
                len: 0,
                waitcnt: 0,
                sound: Tone::Silent,
            },
            rnd_state: [123456789, 362436069, 521288629, 88675123],
        }
    }
}


// ---- shared helpers ----

/// Rust's truncating division.
pub open spec fn trunc_div(n: int, m: int) -> int {
    let q = (if n < 0 { -n } else { n }) / (if m < 0 { -m } else { m });
    if (n < 0) == (m < 0) { q } else { -q }
}

/// Upper case for ASCII letters; other bytes unchanged.
pub fn basic_toupper(c: u8) -> (r: u8)
    ensures
        r == crate::romajikana::fold_upper(c),
{
    if 97 <= c && c <= 122 { c - 32 } else { c }
}

/// The length of the NUL-terminated string at `start` (it also stops at the
/// end of `ram`).
pub fn strlen8(ram: &[u8], start: usize) -> (r: usize)
    ensures
        r == crate::screen::first_zero(ram@, start as int, ram@.len() as int) - start,
{
    let mut i = start;
    while i < ram.len() && ram[i] != 0
        invariant
            start <= i,
            i <= ram@.len() || i == start,
            crate::screen::first_zero(ram@, start as int, ram@.len() as int)
                == crate::screen::first_zero(ram@, i as int, ram@.len() as int),
        decreases ram@.len() - i,
    {
        i = i + 1;
    }
    i - start
}

/// IchigoJam's division: truncating, as in Rust.
pub fn calc_div(n: i32, m: i32) -> (r: i32)
    requires
        m != 0,
        !(n == i32::MIN && m == -1),
    ensures
        r == trunc_div(n as int, m as int),
{
    let an: u32 = if n < 0 { (0i64 - n as i64) as u32 } else { n as u32 };
    let am: u32 = if m < 0 { (0i64 - m as i64) as u32 } else { m as u32 };
    let q = an / am;
    if (n < 0) == (m < 0) {
        assert(q <= i32::MAX) by (nonlinear_arith) requires
            q == an / am, am >= 1, an <= 0x8000_0000, !(an == 0x8000_0000 && am == 1) || (n < 0) != (m < 0),
            (n < 0) == (m < 0), an == 0x8000_0000 ==> n < 0;
        q as i32
    } else {
        assert(q <= 0x8000_0000) by (nonlinear_arith) requires q == an / am, am >= 1, an <= 0x8000_0000;
        (0i64 - q as i64) as i32
    }
}

/// The remainder of truncating division has the sign of `n` and is smaller than `m`.
pub proof fn lemma_trunc_rem(n: int, m: int)
    requires
        m != 0,
    ensures
        -(if m < 0 { -m } else { m }) < n - m * trunc_div(n, m) < (if m < 0 { -m } else { m }),
        n >= 0 ==> n - m * trunc_div(n, m) >= 0,
        n < 0 ==> n - m * trunc_div(n, m) <= 0,
{
    let an = if n < 0 { -n } else { n };
    let am = if m < 0 { -m } else { m };
    vstd::arithmetic::div_mod::lemma_fundamental_div_mod(an, am);
    let q = an / am;
    let r = an % am;
    assert(0 <= r < am) by {
        vstd::arithmetic::div_mod::lemma_mod_bound(an, am);
    }
    if n >= 0 && m > 0 {
        assert(n - m * q == r);
    } else if n >= 0 && m < 0 {
        assert(n - m * (-q) == r) by (nonlinear_arith) requires an == am * q + r, an == n, am == -m;
    } else if n < 0 && m > 0 {
        assert(n - m * (-q) == -r) by (nonlinear_arith) requires an == am * q + r, an == -n, am == m;
    } else {
        assert(n - m * q == -r) by (nonlinear_arith) requires an == am * q + r, an == -n, am == -m;
    }
}

/// IchigoJam's remainder: it has the sign of `n`, as in Rust.
pub fn calc_mod(n: i32, m: i32) -> (r: i32)
    requires
        m != 0,
        !(n == i32::MIN && m == -1),
    ensures
        r == n - m * trunc_div(n as int, m as int),
{
    let q = calc_div(n, m);
    proof { lemma_trunc_rem(n as int, m as int); }
    assert(-0x8000_0000 <= m * q <= 0x7fff_ffff) by (nonlinear_arith) requires
        q == trunc_div(n as int, m as int), m != 0, i32::MIN <= n <= i32::MAX, !(n == i32::MIN && m == -1);
    n - m * q
}

} // verus!
