//! PSG: the MML player behind PLAY and the BEEP tone.
//!
//! The player is advanced by the host once per frame (60 Hz). It reads the MML
//! text straight from RAM and publishes the sound to produce as a [`Tone`].

use vstd::prelude::*;

use crate::machine::{Machine, Tone};
use crate::ram::OFFSET_RAMROM;
use crate::romajikana::fold_upper;

verus! {

pub const PSG_TICK_FREQ: u32 = 60;
pub const PSG_TICK_PER_SEC: u32 = 60;
pub const PSG_DEFAULT_OCT: u8 = 3;
pub const PSG_DEFAULT_LEN: u8 = 8;
pub const PSG_DEFAULT_TEMPO: u16 = 120;

/// The player's registers.
#[derive(Debug, Clone, Copy)]
pub struct Psg {
    /// Read position of the MML text in RAM (`None`: not playing).
    pub mml: Option<usize>,
    /// Where `$` marked the repeat.
    pub rep: Option<usize>,
    pub oct: u8,
    /// Default note length in 32nds.
    pub deflen: u8,
    pub tempo: u16,
    /// Non-zero while something sounds.
    pub tone: u16,
    /// Frames left of the current note or rest.
    pub len: u32,
    pub waitcnt: u16,
    /// The sound to produce now.
    pub sound: Tone,
}

/// The byte at an MML position (0 past the end of RAM or when not playing).
pub open spec fn mml_peek(ram: Seq<u8>, p: Option<usize>) -> u8 {
    if pos_ok(ram, p) { ram[p->0 as int] } else { 0 }
}

/// A position inside RAM.
pub open spec fn pos_ok(ram: Seq<u8>, p: Option<usize>) -> bool {
    p is Some && p->0 < ram.len() && p->0 < usize::MAX
}

/// The next position (it stays put past the end of RAM).
pub open spec fn mml_adv(ram: Seq<u8>, p: Option<usize>) -> Option<usize> {
    if pos_ok(ram, p) { Some((p->0 + 1) as usize) } else { p }
}

/// How many bytes of RAM are left to read.
pub open spec fn mml_remaining(ram: Seq<u8>, p: Option<usize>) -> int {
    if pos_ok(ram, p) { ram.len() - p->0 } else { 0 }
}

pub open spec fn is_digit(c: u8) -> bool {
    48 <= c <= 57
}

pub open spec fn skip_spaces(ram: Seq<u8>, p: Option<usize>) -> Option<usize>
    decreases mml_remaining(ram, p),
{
    if mml_peek(ram, p) == 32 { skip_spaces(ram, mml_adv(ram, p)) } else { p }
}

/// Decimal digits from `p` on, accumulated into `a` (wrapping at 2^32).
pub open spec fn digits(ram: Seq<u8>, p: Option<usize>, a: u32) -> (u32, Option<usize>)
    decreases mml_remaining(ram, p),
{
    let c = mml_peek(ram, p);
    if is_digit(c) {
        digits(ram, mml_adv(ram, p),
            vstd::wrapping::u32_specs::wrapping_add(vstd::wrapping::u32_specs::wrapping_mul(a, 10), (c - 48) as u32))
    } else {
        (a, p)
    }
}

/// A number in the MML text (spaces before it are skipped; no digits is 0).
pub open spec fn parse_int(ram: Seq<u8>, p: Option<usize>) -> (u32, Option<usize>) {
    digits(ram, skip_spaces(ram, p), 0)
}

/// The semitone of a note letter in its octave (R, a rest, is -2).
pub open spec fn note_index(c: u8) -> int {
    if c == 67 { 0 }        // C
    else if c == 68 { 2 }   // D
    else if c == 69 { 4 }   // E
    else if c == 70 { 5 }   // F
    else if c == 71 { 7 }   // G
    else if c == 65 { 9 }   // A
    else if c == 66 { 11 }  // B
    else { -2 }             // R
}

pub open spec fn is_note_command(c: u8) -> bool {
    c == 67 || c == 68 || c == 69 || c == 70 || c == 71 || c == 65 || c == 66 || c == 82 || c == 78
}

/// The pitch of a note whose letter was just read: the semitone `t` (octave
/// included; -2 for a rest), the raw frequency step `s` of `N` (0 otherwise),
/// and the position after the accidental.
pub open spec fn note_pitch(ram: Seq<u8>, st: Psg, c: u8) -> (int, i32, Option<usize>) {
    let (s0, p0) = if c == 78 { parse_int(ram, st.mml) } else { (0u32, st.mml) };
    let s: i32 = if c == 78 { if (s0 as i32) > 255 { 255 } else { s0 as i32 } } else { 0 };
    let t0: int = if c == 78 { -2 } else { note_index(c) };
    let c2 = mml_peek(ram, p0);
    let p1 = if c2 == 43 || c2 == 35 || c2 == 45 { mml_adv(ram, p0) } else { p0 };
    let t1: int = if c2 == 43 || c2 == 35 { if t0 != 11 { t0 + 1 } else { t0 } }
        else if c2 == 45 { if t0 > 0 { t0 - 1 } else { t0 } } else { t0 };
    let t: int = if t1 > -2 { t1 + (st.oct - 1) * 12 } else { t1 };
    (t, s, p1)
}

/// The length of a note in 32nds (the default when none is written, half
/// again when dotted) and the position after it.
pub open spec fn note_length(ram: Seq<u8>, p1: Option<usize>, deflen: u8) -> (u32, Option<usize>) {
    let (l0, p2) = parse_int(ram, p1);
    let len0: u32 = if l0 > 0 { 32u32 / l0 } else { deflen as u32 };
    let dot = mml_peek(ram, p2) == 46;
    let p3 = if dot { mml_adv(ram, p2) } else { p2 };
    let len: u32 = if dot { (len0 + len0 / 2) as u32 } else { len0 };
    (len, p3)
}

/// A note (C D E F G A B, R for a rest, N for a raw frequency) whose letter was
/// just read: accidental, length, dot; then the sound and its duration in frames.
pub open spec fn spec_note(ram: Seq<u8>, st: Psg, c: u8) -> Psg {
    let (t, s, p1) = note_pitch(ram, st, c);
    let (len, p3) = note_length(ram, p1, st.deflen);
    let (sound, tone) = if s == 0 {
        if t >= 0 { (Tone::Note(t as i32), 1u16) } else if t == -2 { (Tone::Silent, 0u16) } else { (st.sound, st.tone) }
    } else {
        (Tone::Raw(s), 1u16)
    };
    let tempo: u32 = if st.tempo == 0 { 1 } else { st.tempo as u32 };
    Psg { mml: p3, sound, tone, len: ((len * 450) / (tempo as int)) as u32, ..st }
}

/// The MML commands that only change the player's settings.
pub open spec fn is_setting_command(c: u8) -> bool {
    c == 60 || c == 62 || c == 79 || c == 32 || c == 76 || c == 84 || c == 36
}

/// A settings command whose letter was just read: `<` / `>` octave up / down,
/// `O` octave, `L` default length, `T` tempo, `$` repeat mark, space.
pub open spec fn spec_command(ram: Seq<u8>, st1: Psg, c: u8) -> Psg {
    if c == 60 {
        Psg { oct: vstd::wrapping::u8_specs::wrapping_add(st1.oct, 1), ..st1 }
    } else if c == 62 {
        Psg { oct: vstd::wrapping::u8_specs::wrapping_sub(st1.oct, 1), ..st1 }
    } else if c == 79 {
        let c2 = mml_peek(ram, st1.mml);
        if c2 == 0 {
            st1
        } else {
            Psg { mml: mml_adv(ram, st1.mml), oct: vstd::wrapping::u8_specs::wrapping_sub(c2, 48), ..st1 }
        }
    } else if c == 76 {
        let (l, p) = parse_int(ram, st1.mml);
        if l > 0 {
            let d = (32u32 / l) as u8;
            if mml_peek(ram, p) == 46 {
                Psg { mml: mml_adv(ram, p), deflen: (d + d / 2) as u8, ..st1 }
            } else {
                Psg { mml: p, deflen: d, ..st1 }
            }
        } else {
            Psg { mml: p, ..st1 }
        }
    } else if c == 84 {
        let (v, p) = parse_int(ram, st1.mml);
        Psg { mml: p, tempo: v as u16, ..st1 }
    } else if c == 36 {
        if mml_peek(ram, st1.mml) != 0 { Psg { rep: st1.mml, ..st1 } } else { st1 }
    } else {
        st1
    }
}

/// Reads MML commands until a note, a rest or the end. At the end the player
/// jumps back to the `$` mark once per frame, else it stops.
#[verifier::opaque]
pub open spec fn spec_mml_loop(ram: Seq<u8>, st: Psg, jumped: bool) -> Psg
    decreases (if jumped { 0int } else { 1int }), mml_remaining(ram, st.mml),
{
    let raw = mml_peek(ram, st.mml);
    let c = fold_upper(raw);
    let st1 = Psg { mml: mml_adv(ram, st.mml), ..st };
    if raw == 0 || !(is_setting_command(c) || is_note_command(c)) {
        if st.rep is Some && !jumped {
            spec_mml_loop(ram, Psg { mml: st.rep, ..st }, true)
        } else {
            Psg { mml: None, tone: 0, len: 0, sound: Tone::Silent, ..st1 }
        }
    } else if is_setting_command(c) {
        proof { lemma_command_remaining(ram, st1, c); }
        spec_mml_loop(ram, spec_command(ram, st1, c), jumped)
    } else {
        spec_note(ram, st1, c)
    }
}

/// One frame of the player: the current note runs down; when it ends the next
/// one is read.
pub open spec fn spec_psg_tick(ram: Seq<u8>, st: Psg) -> Psg {
    let st1 = if st.len > 0 {
        let l = (st.len - 1) as u32;
        if l > 0 {
            Psg { len: l, ..st }
        } else if st.mml is None {
            Psg { len: l, tone: 0, sound: Tone::Silent, ..st }
        } else {
            Psg { len: l, ..st }
        }
    } else {
        st
    };
    if st.len > 1 || st1.mml is None {
        st1
    } else {
        spec_mml_loop(ram, st1, false)
    }
}

/// A settings command reads on; it never goes back.
pub proof fn lemma_command_remaining(ram: Seq<u8>, st1: Psg, c: u8)
    ensures
        mml_remaining(ram, spec_command(ram, st1, c).mml) <= mml_remaining(ram, st1.mml),
{
    lemma_skip_spaces_remaining(ram, st1.mml);
    lemma_digits_remaining(ram, skip_spaces(ram, st1.mml), 0);
    let p = parse_int(ram, st1.mml).1;
    if c == 76 {
        assert(mml_remaining(ram, mml_adv(ram, p)) <= mml_remaining(ram, p));
    }
}

/// Skipping spaces never moves the reader back.
proof fn lemma_skip_spaces_remaining(ram: Seq<u8>, p: Option<usize>)
    ensures
        mml_remaining(ram, skip_spaces(ram, p)) <= mml_remaining(ram, p),
        p is None ==> skip_spaces(ram, p) is None,
    decreases mml_remaining(ram, p),
{
    if mml_peek(ram, p) == 32 {
        lemma_skip_spaces_remaining(ram, mml_adv(ram, p));
    }
}

/// Reading digits never moves the reader back.
proof fn lemma_digits_remaining(ram: Seq<u8>, p: Option<usize>, a: u32)
    ensures
        mml_remaining(ram, digits(ram, p, a).1) <= mml_remaining(ram, p),
        p is None ==> digits(ram, p, a).1 is None,
    decreases mml_remaining(ram, p),
{
    let c = mml_peek(ram, p);
    if is_digit(c) {
        lemma_digits_remaining(ram, mml_adv(ram, p),
            vstd::wrapping::u32_specs::wrapping_add(vstd::wrapping::u32_specs::wrapping_mul(a, 10), (c - 48) as u32));
    }
}

impl Psg {
    fn peek(&self, ram: &[u8]) -> (r: u8)
        ensures
            r == mml_peek(ram@, self.mml),
    {
        match self.mml {
            Some(p) => if p < ram.len() && p < usize::MAX { ram[p] } else { 0 },
            None => 0,
        }
    }

    fn advance(&mut self, ram: &[u8])
        ensures
            *final(self) == (Psg { mml: mml_adv(ram@, old(self).mml), ..*old(self) }),
    {
        match self.mml {
            Some(p) => {
                if p < ram.len() && p < usize::MAX {
                    self.mml = Some(p + 1);
                }
            },
            None => {},
        }
    }

    fn next(&mut self, ram: &[u8]) -> (r: u8)
        ensures
            r == mml_peek(ram@, old(self).mml),
            *final(self) == (Psg { mml: mml_adv(ram@, old(self).mml), ..*old(self) }),
    {
        let c = self.peek(ram);
        self.advance(ram);
        c
    }

    fn parse_int(&mut self, ram: &[u8]) -> (r: u32)
        ensures
            (r, final(self).mml) == parse_int(ram@, old(self).mml),
            *final(self) == (Psg { mml: final(self).mml, ..*old(self) }),
    {
        while self.peek(ram) == 32
            invariant
                skip_spaces(ram@, self.mml) == skip_spaces(ram@, old(self).mml),
                *self == (Psg { mml: self.mml, ..*old(self) }),
            decreases mml_remaining(ram@, self.mml),
        {
            self.advance(ram);
        }
        let mut a: u32 = 0;
        loop
            invariant
                digits(ram@, self.mml, a) == parse_int(ram@, old(self).mml),
                *self == (Psg { mml: self.mml, ..*old(self) }),
            decreases mml_remaining(ram@, self.mml),
        {
            let c = self.peek(ram);
            if !(48 <= c && c <= 57) {
                return a;
            }
            a = a.wrapping_mul(10).wrapping_add((c - 48) as u32);
            self.advance(ram);
        }
    }

    fn note_pitch(&mut self, ram: &[u8], c: u8) -> (r: (i32, i32))
        requires
            is_note_command(c),
        ensures
            *final(self) == (Psg { mml: final(self).mml, ..*old(self) }),
            (r.0 as int, r.1, final(self).mml) == note_pitch(ram@, *old(self), c),
    {
        let mut t: i32 = -2;
        let mut s: i32 = 0;
        if c == 78 {
            s = self.parse_int(ram) as i32;
            if s > 255 {
                s = 255;
            }
        } else if c == 67 {
            t = 0;
        } else if c == 68 {
            t = 2;
        } else if c == 69 {
            t = 4;
        } else if c == 70 {
            t = 5;
        } else if c == 71 {
            t = 7;
        } else if c == 65 {
            t = 9;
        } else if c == 66 {
            t = 11;
        }
        let c2 = self.peek(ram);
        if c2 == 43 || c2 == 35 {
            self.advance(ram);
            if t != 11 {
                t = t + 1;
            }
        } else if c2 == 45 {
            self.advance(ram);
            if t > 0 {
                t = t - 1;
            }
        }
        if t > -2 {
            t = t + (self.oct as i32 - 1) * 12;
        }
        (t, s)
    }

    fn note_length(&mut self, ram: &[u8]) -> (r: u32)
        ensures
            *final(self) == (Psg { mml: final(self).mml, ..*old(self) }),
            (r, final(self).mml) == note_length(ram@, old(self).mml, old(self).deflen),
            r <= 382,
    {
        let mut len = self.parse_int(ram);
        if len > 0 {
            len = 32 / len;
        } else {
            len = self.deflen as u32;
        }
        if self.peek(ram) == 46 {
            self.advance(ram);
            len = len + len / 2;
        }
        len
    }

    fn note(&mut self, ram: &[u8], c: u8)
        requires
            is_note_command(c),
        ensures
            *final(self) == spec_note(ram@, *old(self), c),
    {
        let (t, s) = self.note_pitch(ram, c);
        let len = self.note_length(ram);
        if s == 0 {
            if t >= 0 {
                self.sound = Tone::Note(t);
                self.tone = 1;
            } else if t == -2 {
                self.sound = Tone::Silent;
                self.tone = 0;
            }
        } else {
            self.sound = Tone::Raw(s);
            self.tone = 1;
        }
        let tempo: u32 = if self.tempo == 0 { 1 } else { self.tempo as u32 };
        self.len = len * 450 / tempo;
    }

    fn command(&mut self, ram: &[u8], c: u8)
        requires
            is_setting_command(c),
        ensures
            *final(self) == spec_command(ram@, *old(self), c),
    {
        if c == 60 {
            self.oct = self.oct.wrapping_add(1);
        } else if c == 62 {
            self.oct = self.oct.wrapping_sub(1);
        } else if c == 79 {
            let c2 = self.peek(ram);
            if c2 != 0 {
                self.advance(ram);
                self.oct = c2.wrapping_sub(48);
            }
        } else if c == 76 {
            let l = self.parse_int(ram);
            if l > 0 {
                self.deflen = (32 / l) as u8;
                if self.peek(ram) == 46 {
                    self.advance(ram);
                    self.deflen = self.deflen + self.deflen / 2;
                }
            }
        } else if c == 84 {
            let v = self.parse_int(ram);
            self.tempo = v as u16;
        } else if c == 36 {
            if self.peek(ram) != 0 {
                self.rep = self.mml;
            }
        }
    }

    /// Reads MML until the next note (see [`spec_mml_loop`]).
    fn run(&mut self, ram: &[u8])
        ensures
            *final(self) == spec_mml_loop(ram@, *old(self), false),
    {
        let mut flg = false;
        loop
            invariant
                spec_mml_loop(ram@, *self, flg) == spec_mml_loop(ram@, *old(self), false),
            decreases (if flg { 0int } else { 1int }), mml_remaining(ram@, self.mml),
        {
            let raw = self.next(ram);
            let c = if 97 <= raw && raw <= 122 { raw - 32 } else { raw };
            let setting = c == 60 || c == 62 || c == 79 || c == 32 || c == 76 || c == 84 || c == 36;
            let note = c == 67 || c == 68 || c == 69 || c == 70 || c == 71 || c == 65 || c == 66
                || c == 82 || c == 78;
            proof { reveal_with_fuel(spec_mml_loop, 1); }
            if raw == 0 || !(setting || note) {
                if self.rep.is_some() && !flg {
                    self.mml = self.rep;
                    flg = true;
                    continue;
                }
                self.mml = None;
                self.tone = 0;
                self.len = 0;
                self.sound = Tone::Silent;
                return;
            } else if setting {
                proof { lemma_command_remaining(ram@, *self, c); }
                self.command(ram, c);
            } else {
                self.note(ram, c);
                return;
            }
        }
    }

    /// One frame of the player (see [`spec_psg_tick`]).
    fn tick(&mut self, ram: &[u8])
        ensures
            *final(self) == spec_psg_tick(ram@, *old(self)),
    {
        if self.len > 0 {
            self.len = self.len - 1;
            if self.len > 0 {
                return;
            }
            if self.mml.is_none() {
                self.tone = 0;
                self.sound = Tone::Silent;
            }
        }
        if self.mml.is_none() {
            return;
        }
        self.run(ram);
    }
}

impl Machine {
    /// Everything but the player's registers is the same in both.
    pub open spec fn same_outside_psg(&self, other: &Machine) -> bool {
        &&& self.ram@ == other.ram@
        &&& self.pc == other.pc
        &&& self.list_size == other.list_size
        &&& self.cursorx == other.cursorx
        &&& self.cursory == other.cursory
        &&& self.is_cursor_visible == other.is_cursor_visible
        &&& self.is_screen_inverted == other.is_screen_inverted
        &&& self.screen_zoom_shift == other.screen_zoom_shift
        &&& self.is_video_enabled == other.is_video_enabled
        &&& self.text_cols == other.text_cols
        &&& self.text_rows == other.text_rows
        &&& self.is_overwrite_mode == other.is_overwrite_mode
        &&& self.locate_pending_bytes == other.locate_pending_bytes
        &&& self.is_overwrite_toggle == other.is_overwrite_toggle
        &&& self.is_kana_mode == other.is_kana_mode
        &&& self.is_esc_pressed == other.is_esc_pressed
        &&& self.romaji_pending_0 == other.romaji_pending_0
        &&& self.romaji_pending_1 == other.romaji_pending_1
        &&& self.inkey_queue@ == other.inkey_queue@
        &&& self.keyboard_id == other.keyboard_id
        &&& self.keys_down@ == other.keys_down@
        &&& self.frames == other.frames
        &&& self.video_line_count == other.video_line_count
        &&& self.is_led_on == other.is_led_on
        &&& self.wait_frames == other.wait_frames
        &&& self.is_program_running == other.is_program_running
        &&& self.input_pending == other.input_pending
        &&& self.last_error == other.last_error
        &&& self.last_file_slot == other.last_file_slot
        &&& self.is_quiet_mode == other.is_quiet_mode
        &&& self.break_resume_pc == other.break_resume_pc
        &&& self.rnd_state@ == other.rnd_state@
    }

    /// Starts playing the MML text at virtual address `mml_addr` (`None`, or an
    /// address below RAM, stops the player) with the default octave, length and
    /// tempo.
    pub fn psg_play_mml(&mut self, mml_addr: Option<i32>)
        requires
            old(self).wf(),
        ensures
            final(self).wf(),
            final(self).same_outside_psg(old(self)),
            final(self).psg == (Psg {
                mml: match mml_addr {
                    Some(a) => if a >= OFFSET_RAMROM { Some((a - OFFSET_RAMROM) as usize) } else { None },
                    None => None,
                },
                rep: None,
                oct: PSG_DEFAULT_OCT,
                deflen: PSG_DEFAULT_LEN,
                tempo: PSG_DEFAULT_TEMPO,
                tone: 0,
                len: 0,
                sound: if final(self).psg.mml is None { Tone::Silent } else { old(self).psg.sound },
                ..old(self).psg
            }),
    {
        self.psg.mml = match mml_addr {
            Some(a) => if a >= OFFSET_RAMROM as i32 { Some((a - OFFSET_RAMROM as i32) as usize) } else { None },
            None => None,
        };
        self.psg.oct = PSG_DEFAULT_OCT;
        self.psg.deflen = PSG_DEFAULT_LEN;
        self.psg.tempo = PSG_DEFAULT_TEMPO;
        self.psg.tone = 0;
        self.psg.len = 0;
        self.psg.rep = None;
        if self.psg.mml.is_none() {
            self.psg.sound = Tone::Silent;
        }
    }

    /// A beep of `tone` (the sound is 8000 / `tone` Hz; 0 or less is silent)
    /// lasting `len` frames. It stops any MML.
    pub fn psg_beep(&mut self, tone: i16, len: i16)
        requires
            old(self).wf(),
        ensures
            final(self).wf(),
            final(self).same_outside_psg(old(self)),
            final(self).psg == (Psg {
                len: len as u32,
                tone: tone as u16,
                waitcnt: if (tone as u16) > 0 { ((tone as u16) - 1) as u16 } else { 0 },
                mml: None,
                sound: if tone > 0 { Tone::Beep(tone) } else { Tone::Silent },
                ..old(self).psg
            }),
    {
        self.psg.len = len as u32;
        self.psg.tone = tone as u16;
        self.psg.waitcnt = self.psg.tone.saturating_sub(1);
        self.psg.mml = None;
        self.psg.sound = if tone > 0 { Tone::Beep(tone) } else { Tone::Silent };
    }

    /// Sets the tempo (beats per minute).
    pub fn psg_tempo(&mut self, tempo: i16)
        requires
            old(self).wf(),
        ensures
            final(self).wf(),
            final(self).same_outside_psg(old(self)),
            final(self).psg == (Psg { tempo: tempo as u16, ..old(self).psg }),
    {
        self.psg.tempo = tempo as u16;
    }

    /// Something sounds, or MML is playing.
    pub fn psg_sound(&self) -> (r: bool)
        ensures
            r == (self.psg.tone != 0 || self.psg.mml is Some),
    {
        self.psg.tone != 0 || self.psg.mml.is_some()
    }

    /// The sound to produce now.
    pub fn current_tone(&self) -> (r: Tone)
        ensures
            r == self.psg.sound,
    {
        self.psg.sound
    }

    /// One frame (60 Hz) of the player: counts the current note down and, when
    /// it is over, reads the next note of the MML (see [`spec_psg_tick`]).
    pub fn psg_tick(&mut self)
        requires
            old(self).wf(),
        ensures
            final(self).wf(),
            final(self).same_outside_psg(old(self)),
            final(self).psg == spec_psg_tick(old(self).ram@, old(self).psg),
    {
        let mut psg = self.psg;
        psg.tick(self.ram.as_slice());
        self.psg = psg;
    }
}

/// The note letters in scale order: C D E F G A B.
pub open spec fn scale_letters() -> Seq<u8> {
    seq![67u8, 68u8, 69u8, 70u8, 71u8, 65u8, 66u8]
}

/// The note letters C D E F G A B play the major scale from C: each letter
/// rises a whole tone (2 semitones) above the one before it, except F above E
/// (a semitone), C is the octave's first semitone, and distinct letters play
/// distinct pitches. Without an accidental a letter plays its semitone plus
/// 12 for every octave above the first.
pub proof fn lemma_note_letters_major_scale(ram: Seq<u8>, st: Psg, i: int, j: int)
    requires
        0 <= i < 7,
        0 <= j < 7,
    ensures
        note_index(scale_letters()[0]) == 0,
        i + 1 < 7 ==> note_index(scale_letters()[i + 1]) - note_index(scale_letters()[i])
            == (if i == 2 { 1int } else { 2int }),
        i != j ==> note_index(scale_letters()[i]) != note_index(scale_letters()[j]),
        0 <= note_index(scale_letters()[i]) < 12,
        ({
            let c = scale_letters()[i];
            let c2 = mml_peek(ram, st.mml);
            !(c2 == 43 || c2 == 35 || c2 == 45) ==> note_pitch(ram, st, c).0 == note_index(c) + (st.oct - 1) * 12
        }),
{
}

/// A sharp (`+` or `#`) after a note letter raises it a semitone, a flat
/// (`-`) lowers it a semitone, within the octave: B is not raised and C is
/// not lowered.
pub proof fn lemma_note_accidentals(ram: Seq<u8>, st: Psg, i: int)
    requires
        0 <= i < 7,
    ensures
        ({
            let c = scale_letters()[i];
            let c2 = mml_peek(ram, st.mml);
            let base = note_index(c) + (st.oct - 1) * 12;
            &&& (c2 == 43 || c2 == 35) ==> note_pitch(ram, st, c).0 == base + (if i == 6 { 0int } else { 1int })
            &&& c2 == 45 ==> note_pitch(ram, st, c).0 == base - (if i == 0 { 0int } else { 1int })
        }),
{
}

} // verus!
