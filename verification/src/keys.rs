//! Keyboard state of the machine: the INKEY() queue, the keys held down for
//! BTN(), the kana and insert modes, and the interactive input that the host
//! feeds to the screen editor.

use vstd::prelude::*;

use crate::errors::BasicError;
use crate::keycodes::{CURSOR_DOWN, CURSOR_LEFT, CURSOR_RIGHT, CURSOR_UP, KEY_X, SPACE};
use crate::keymap::keymap_entry;
use crate::machine::Machine;
use crate::romajikana::{kana_step, romajikana_input};
use crate::screen::{lemma_same_outside_trans, spec_putc, spec_puts, ScreenState};

verus! {

/// The most bytes that the INKEY() queue holds.
pub const INKEY_QUEUE_LIMIT: usize = 126;

/// `BTN(n)` over the keys held down: 0 for the (absent) board button, a bit
/// mask of left, right, up, down, space and X for negative `n`, and whether
/// key `n` is down for other `n`.
pub open spec fn btn_of(keys: Seq<bool>, n: i16) -> i16 {
    if n == 0 {
        0
    } else if n < 0 {
        ((if keys[CURSOR_LEFT as int] { 1int } else { 0int })
            + (if keys[CURSOR_RIGHT as int] { 2int } else { 0int })
            + (if keys[CURSOR_UP as int] { 4int } else { 0int })
            + (if keys[CURSOR_DOWN as int] { 8int } else { 0int })
            + (if keys[SPACE as int] { 16int } else { 0int })
            + (if keys[KEY_X as int] { 32int } else { 0int })) as i16
    } else if n < 256 && keys[n as int] {
        1
    } else {
        0
    }
}

impl Machine {
    // ---- INKEY() queue ----

    /// `INKEY()`: the oldest queued key, or -1 when the queue is empty.
    pub fn key_get_key(&mut self) -> (r: i32)
        requires
            old(self).wf(),
        ensures
            final(self).wf(),
            old(self).inkey_queue@.len() == 0 ==> r == -1 && final(self).inkey_queue@ == old(self).inkey_queue@,
            old(self).inkey_queue@.len() > 0 ==> r == old(self).inkey_queue@[0]
                && final(self).inkey_queue@ == old(self).inkey_queue@.drop_first(),
            *final(self) == (Machine { inkey_queue: final(self).inkey_queue, ..*old(self) }),
    {
        match self.inkey_queue.pop_front() {
            Some(c) => c as i32,
            None => -1,
        }
    }

    /// Empties the key queue and drops a pending ESC break.
    pub fn key_clear_key(&mut self)
        requires
            old(self).wf(),
        ensures
            final(self).wf(),
            final(self).inkey_queue@.len() == 0,
            !final(self).is_esc_pressed,
            *final(self) == (Machine {
                inkey_queue: final(self).inkey_queue,
                is_esc_pressed: false,
                ..*old(self)
            }),
    {
        self.inkey_queue.clear();
        self.is_esc_pressed = false;
    }

    /// Queues a typed key for `INKEY()`; a full queue (126 keys) drops it.
    pub fn key_push(&mut self, c: u8)
        requires
            old(self).wf(),
        ensures
            final(self).wf(),
            final(self).inkey_queue@ == if old(self).inkey_queue@.len() < INKEY_QUEUE_LIMIT {
                old(self).inkey_queue@.push(c)
            } else {
                old(self).inkey_queue@
            },
            *final(self) == (Machine { inkey_queue: final(self).inkey_queue, ..*old(self) }),
    {
        if self.inkey_queue.len() < INKEY_QUEUE_LIMIT {
            self.inkey_queue.push_back(c);
        }
    }

    /// The keyboard layout (0 = US, 1 = JA), as `KBD` set it.
    pub fn keyboard_id(&self) -> (r: u8)
        ensures
            r == self.keyboard_id,
    {
        self.keyboard_id
    }

    /// Translates a HID key code with its modifiers into an IchigoJam code by
    /// the current layout; 0 means the key types nothing.
    pub fn keymap_lookup(&self, hid: u8, shift: bool, alt: bool) -> (r: u8)
        ensures
            r == keymap_entry(self.keyboard_id, hid,
                (if alt { 2int } else { 0int }) + (if shift { 1int } else { 0int })),
    {
        crate::keymap::lookup(self.keyboard_id, hid, shift, alt)
    }

    // ---- keys held down (BTN) ----

    /// Records that the key with ASCII code `code` went down or up.
    pub fn key_set_down(&mut self, code: u8, down: bool)
        ensures
            final(self).keys_down@ == old(self).keys_down@.update(code as int, down),
            *final(self) == (Machine { keys_down: final(self).keys_down, ..*old(self) }),
    {
        self.keys_down[code as usize] = down;
    }

    /// Releases every key (the window lost the focus).
    pub fn key_clear_down(&mut self)
        ensures
            forall|i: int| 0 <= i < 256 ==> !#[trigger] final(self).keys_down@[i],
            *final(self) == (Machine { keys_down: final(self).keys_down, ..*old(self) }),
    {
        self.keys_down = [false; 256];
    }

    fn is_key_down(&self, code: u8) -> (r: bool)
        ensures
            r == self.keys_down@[code as int],
    {
        self.keys_down[code as usize]
    }

    /// `BTN(n)`: the keyboard stands in for the board's buttons.
    pub fn btn(&self, n: i16) -> (r: i16)
        ensures
            r == btn_of(self.keys_down@, n),
    {
        if n == 0 {
            0
        } else if n < 0 {
            let mut m: i16 = 0;
            if self.is_key_down(CURSOR_LEFT) { m = m + 1; }
            if self.is_key_down(CURSOR_RIGHT) { m = m + 2; }
            if self.is_key_down(CURSOR_UP) { m = m + 4; }
            if self.is_key_down(CURSOR_DOWN) { m = m + 8; }
            if self.is_key_down(SPACE) { m = m + 16; }
            if self.is_key_down(KEY_X) { m = m + 32; }
            m
        } else if n < 256 && self.is_key_down(n as u8) {
            1
        } else {
            0
        }
    }

    /// ESC asked to interrupt the program.
    pub fn is_break_requested(&self) -> (r: bool)
        ensures
            r == self.is_esc_pressed,
    {
        self.is_esc_pressed
    }

    /// Why the last run stopped, if by an error or an ESC break.
    pub fn last_error(&self) -> (r: Option<BasicError>)
        ensures
            r == self.last_error,
    {
        self.last_error
    }

    // ---- modes ----

    /// Switches kana input on or off and forgets pending romaji letters.
    pub fn toggle_kana(&mut self)
        ensures
            *final(self) == (Machine {
                is_kana_mode: !old(self).is_kana_mode,
                romaji_pending_0: 0,
                romaji_pending_1: 0,
                ..*old(self)
            }),
    {
        self.is_kana_mode = !self.is_kana_mode;
        self.romaji_pending_0 = 0;
        self.romaji_pending_1 = 0;
    }

    /// Before each interactive key: output follows the user's Insert toggle.
    pub fn sync_insert_mode(&mut self)
        ensures
            *final(self) == (Machine { is_overwrite_mode: old(self).is_overwrite_toggle, ..*old(self) }),
    {
        self.is_overwrite_mode = self.is_overwrite_toggle;
    }

    /// The cursor is drawn full width in overwrite mode, half width in insert mode.
    pub fn cursor_full_width(&self) -> (r: bool)
        ensures
            r == self.is_overwrite_mode,
    {
        self.is_overwrite_mode
    }

    /// A program runs (the host keeps this in step every frame).
    pub fn is_executing(&self) -> (r: bool)
        ensures
            r == self.is_program_running,
    {
        self.is_program_running
    }

    /// `INPUT` waits for a line.
    pub fn is_awaiting_input(&self) -> (r: bool)
        ensures
            r == self.input_pending is Some,
    {
        self.input_pending.is_some()
    }

    /// Leaves the `INPUT` wait without storing anything.
    pub fn cancel_input(&mut self)
        ensures
            *final(self) == (Machine { input_pending: None, ..*old(self) }),
    {
        self.input_pending = None;
    }

    // ---- interactive input ----

    /// A control key typed interactively (arrows, BS, DEL, ...): sent to the
    /// screen editor, ignored while a program runs.
    pub fn input_control(&mut self, code: u8)
        requires
            old(self).wf(),
        ensures
            final(self).wf(),
            old(self).is_program_running ==> *final(self) == *old(self),
            !old(self).is_program_running ==> final(self).screen() == spec_putc(old(self).screen(), code)
                && final(self).same_outside_screen(old(self)),
    {
        if self.is_executing() {
            return;
        }
        self.screen_putc(code);
    }

    /// Sends bytes to the screen one after the other.
    pub fn screen_puts(&mut self, bytes: &[u8])
        requires
            old(self).wf(),
        ensures
            final(self).wf(),
            final(self).screen() == spec_puts(old(self).screen(), bytes@),
            final(self).same_outside_screen(old(self)),
    {
        let mut i: usize = 0;
        while i < bytes.len()
            invariant
                i <= bytes@.len(),
                self.wf(),
                self.screen() == spec_puts(old(self).screen(), bytes@.subrange(0, i as int)),
                self.same_outside_screen(old(self)),
            decreases bytes@.len() - i,
        {
            let ghost before = *self;
            self.screen_putc(bytes[i]);
            proof {
                lemma_same_outside_trans(old(self), &before, self);
                lemma_puts_push(old(self).screen(), bytes@.subrange(0, i as int), bytes@[i as int]);
                assert(bytes@.subrange(0, i as int).push(bytes@[i as int]) =~= bytes@.subrange(0, i + 1));
            }
            i = i + 1;
        }
        assert(bytes@.subrange(0, i as int) =~= bytes@);
    }

    /// A typed character: in kana mode it goes through the romaji converter
    /// (which may rewrite what it typed before), else straight to the screen;
    /// ignored while a program runs.
    pub fn input_putc(&mut self, c: u8)
        requires
            old(self).wf(),
        ensures
            final(self).wf(),
            old(self).is_program_running ==> *final(self) == *old(self),
            !old(self).is_program_running && !old(self).is_kana_mode ==>
                final(self).screen() == spec_putc(old(self).screen(), c)
                && final(self).same_outside_screen(old(self)),
            !old(self).is_program_running && old(self).is_kana_mode ==> ({
                let step = kana_step(old(self).romaji_pending_0, old(self).romaji_pending_1, c);
                &&& final(self).screen() == spec_puts(old(self).screen(), step.2)
                &&& final(self).same_outside_screen(&(Machine {
                        romaji_pending_0: step.0,
                        romaji_pending_1: step.1,
                        ..*old(self)
                    }))
            }),
    {
        if self.is_executing() {
            return;
        }
        if !self.is_kana_mode {
            self.screen_putc(c);
            return;
        }
        let mut buf0 = self.romaji_pending_0;
        let mut buf1 = self.romaji_pending_1;
        let out = romajikana_input(&mut buf0, &mut buf1, c);
        self.romaji_pending_0 = buf0;
        self.romaji_pending_1 = buf1;
        let ghost mid = *self;
        assert(mid.screen() == old(self).screen());
        self.screen_puts(out.as_slice());
    }
}

/// Sending one more byte continues from where the others left the screen.
pub proof fn lemma_puts_push(s: ScreenState, a: Seq<u8>, x: u8)
    ensures
        spec_puts(s, a.push(x)) == spec_putc(spec_puts(s, a), x),
    decreases a.len(),
{
    if a.len() == 0 {
        assert(a.push(x).drop_first() =~= Seq::<u8>::empty());
        assert(spec_puts(spec_putc(s, x), Seq::<u8>::empty()) == spec_putc(s, x));
    } else {
        assert(a.push(x)[0] == a[0]);
        assert(a.push(x).drop_first() =~= a.drop_first().push(x));
        lemma_puts_push(spec_putc(s, a[0]), a.drop_first(), x);
    }
}

} // verus!
