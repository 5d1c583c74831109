//! The text screen: VRAM cells, the cursor, scrolling and the screen editor
//! that `screen_putc` drives (characters, new lines, cursor keys, backspace,
//! insert / overwrite, LOCATE sequences).

use vstd::prelude::*;

use crate::keycodes::{
    BACKSPACE, CURSOR_DOWN, CURSOR_LEFT, CURSOR_RIGHT, CURSOR_UP, DELETE, FORM_FEED,
    INSERT_TOGGLE, KANA_TOGGLE, LINE_SPLIT, LOCATE_PREFIX, TAB,
};
use crate::machine::{screen_dims, Machine};
use crate::ram::{OFFSET_RAM_VRAM, SIZE_RAM_VRAM, SCREEN_W, SCREEN_H, SIZE_RAM};

verus! {

// Scroll directions (the numbers that SCROLL and the LOCATE sequence pass).
pub const SCROLL_LEFT: i32 = 28;
pub const SCROLL_RIGHT: i32 = 29;
pub const SCROLL_UP: i32 = 30;
pub const SCROLL_DOWN: i32 = 31;

/// What the screen editor works on: the VRAM cells, the cursor, the logical
/// screen size and the editor modes.
pub struct ScreenState {
    pub vram: Seq<u8>,
    pub cx: int,
    pub cy: int,
    pub w: int,
    pub h: int,
    pub overwrite: bool,
    pub pending: int,
    pub kana: bool,
    pub toggle: bool,
}

/// The direction that a SCROLL argument names (both 0..=3 and 28..=31 are
/// accepted); -1 for any other number.
pub open spec fn scroll_dir(n: int) -> int {
    if n == 0 || n == 30 { 30 }
    else if n == 1 || n == 29 { 29 }
    else if n == 2 || n == 31 { 31 }
    else if n == 3 || n == 28 { 28 }
    else { -1 }
}

/// The cells after scrolling the `w`x`h` logical screen one step in `dir`;
/// the new row or column is empty and cells past the logical screen stay.
pub open spec fn scrolled(v: Seq<u8>, w: int, h: int, dir: int) -> Seq<u8> {
    Seq::new(v.len(), |i: int|
        if i >= w * h { v[i] }
        else if dir == 30 { if i < (h - 1) * w { v[i + w] } else { 0u8 } }
        else if dir == 29 { if i % w == 0 { 0u8 } else { v[i - 1] } }
        else if dir == 31 { if i < w { 0u8 } else { v[i - w] } }
        else if dir == 28 { if i % w == w - 1 { 0u8 } else { v[i + 1] } }
        else { v[i] })
}

pub open spec fn spec_scroll(s: ScreenState, n: int) -> ScreenState {
    ScreenState { vram: scrolled(s.vram, s.w, s.h, scroll_dir(n)), ..s }
}

/// LOCATE: the column is clamped to the screen, a negative row hides the cursor
/// (row -1) and a row past the bottom goes to the last row.
pub open spec fn spec_locate(s: ScreenState, x: int, y: int) -> ScreenState {
    ScreenState {
        cx: if x < 0 { 0 } else if x >= s.w { s.w - 1 } else { x },
        cy: if y < 0 { -1 } else if y >= s.h { s.h - 1 } else { y },
        ..s
    }
}

/// Carriage return and line feed: the next row, scrolling up at the bottom.
pub open spec fn spec_enter(s: ScreenState) -> ScreenState {
    if s.cy == s.h - 1 {
        ScreenState { vram: scrolled(s.vram, s.w, s.h, 30), cx: 0, ..s }
    } else {
        ScreenState { cy: s.cy + 1, cx: 0, ..s }
    }
}

/// The column that a cursor moved vertically settles on in insert mode: back
/// over the empty cells on its left, to the end of the text or to column 0.
pub open spec fn snap_x(v: Seq<u8>, row: int, x: int) -> int
    decreases x,
{
    if x > 0 && v[row + x - 1] == 0 { snap_x(v, row, x - 1) } else { x }
}

pub open spec fn spec_snap(s: ScreenState) -> ScreenState {
    if s.overwrite || s.vram[s.cy * s.w + s.cx] != 0 {
        s
    } else {
        ScreenState { cx: snap_x(s.vram, s.cy * s.w, s.cx), ..s }
    }
}

/// New line: the cursor leaves its logical line (rows joined by a full last
/// cell) and goes to the start of the next row.
pub open spec fn spec_newline(s: ScreenState) -> ScreenState
    decreases s.h - s.cy,
{
    if s.cy < 0 || s.cy >= s.h {
        s
    } else if s.vram[(s.cy + 1) * s.w - 1] == 0 {
        spec_enter(s)
    } else if s.cy == s.h - 1 {
        spec_enter(spec_enter(s))
    } else {
        spec_newline(ScreenState { cy: s.cy + 1, ..s })
    }
}

/// The first index from `i` on that holds 0 or is `last`.
pub open spec fn first_stop(v: Seq<u8>, i: int, last: int) -> int
    decreases last - i,
{
    if i < last && v[i] != 0 { first_stop(v, i + 1, last) } else { i }
}

/// Deleting the cell at `start`: the text up to the next empty cell moves one
/// cell left; at the end of the screen the last cell empties.
pub open spec fn close_gap(v: Seq<u8>, start: int, last: int) -> Seq<u8> {
    let e = first_stop(v, start, last);
    Seq::new(v.len(), |j: int|
        if start <= j < e { v[j + 1] } else if j == e && e == last { 0u8 } else { v[j] })
}

pub open spec fn spec_delete_at_cursor(s: ScreenState) -> ScreenState {
    ScreenState { vram: close_gap(s.vram, s.cy * s.w + s.cx, s.w * s.h - 1), ..s }
}

/// Backspace steps back (to the end of the row above when that row continues
/// into this one) and deletes; delete deletes in place.
pub open spec fn spec_backspace(s: ScreenState) -> ScreenState {
    if s.cx > 0 {
        spec_delete_at_cursor(ScreenState { cx: s.cx - 1, ..s })
    } else if s.cy > 0 && s.vram[s.cy * s.w - 1] != 0 {
        spec_delete_at_cursor(ScreenState { cy: s.cy - 1, cx: s.w - 1, ..s })
    } else {
        s
    }
}

pub open spec fn spec_cursor_left(s: ScreenState) -> ScreenState {
    if s.cx > 0 {
        ScreenState { cx: s.cx - 1, ..s }
    } else if s.cy > 0 && (s.vram[s.cy * s.w - 1] != 0 || s.overwrite) {
        ScreenState { cy: s.cy - 1, cx: s.w - 1, ..s }
    } else {
        s
    }
}

pub open spec fn spec_cursor_right(s: ScreenState) -> ScreenState {
    let at_last = s.cx == s.w - 1 && s.cy == s.h - 1;
    if !at_last && (s.vram[s.cy * s.w + s.cx] != 0 || s.overwrite) {
        if s.cx + 1 == s.w {
            ScreenState { cx: 0, cy: s.cy + 1, ..s }
        } else {
            ScreenState { cx: s.cx + 1, ..s }
        }
    } else {
        s
    }
}

/// The first index from `i` on (below `n`) that holds 0, or `n`.
pub open spec fn first_zero(v: Seq<u8>, i: int, n: int) -> int
    decreases n - i,
{
    if i < n && v[i] != 0 { first_zero(v, i + 1, n) } else { i }
}

/// The cursor moves one cell on after a character; past the last column it
/// goes to the next row, scrolling at the bottom.
pub open spec fn spec_advance(s: ScreenState) -> ScreenState {
    if s.cx + 1 == s.w {
        spec_enter(s)
    } else {
        ScreenState { cx: s.cx + 1, ..s }
    }
}

/// The cells `now..last` moved one cell right and `c` put at `now`.
pub open spec fn insert_cells(v: Seq<u8>, now: int, last: int, c: u8) -> Seq<u8> {
    Seq::new(v.len(), |j: int| if now < j <= last { v[j - 1] } else if j == now { c } else { v[j] })
}

/// Insert mode: the text from the cursor to the next empty cell moves one cell
/// right to make room. When the screen is full up to its end it scrolls up
/// first (or, on the top row, the last cell is dropped).
pub open spec fn spec_insert_char(s: ScreenState, c: u8) -> ScreenState {
    let n = s.w * s.h;
    let now = s.cy * s.w + s.cx;
    let last = first_zero(s.vram, now, n);
    let full = last == n;
    let v1 = if full && s.cy > 0 { scrolled(s.vram, s.w, s.h, 30) } else { s.vram };
    let cy1 = if full && s.cy > 0 { s.cy - 1 } else { s.cy };
    let now1 = if full && s.cy > 0 { now - s.w } else { now };
    let last1 = if full { last - s.w } else { last };
    let last2 = if full && s.cy <= 0 { n - 1 } else { last1 };
    spec_advance(ScreenState { vram: insert_cells(v1, now1, last2, c), cy: cy1, ..s })
}

/// Overwrite mode: the cell at the cursor takes the character.
pub open spec fn spec_overwrite_char(s: ScreenState, c: u8) -> ScreenState {
    spec_advance(ScreenState { vram: s.vram.update(s.cy * s.w + s.cx, c), ..s })
}

/// The cells `from..to` emptied.
pub open spec fn clear_cells(v: Seq<u8>, from: int, to: int) -> Seq<u8> {
    Seq::new(v.len(), |j: int| if from <= j < to { 0u8 } else { v[j] })
}

/// The two bytes after a LOCATE prefix: the column (or, below 32, a scroll
/// direction that ends the sequence), then the row; both offset by 32.
pub open spec fn spec_locate_sequence(s: ScreenState, c: u8) -> ScreenState {
    if s.pending == 2 {
        if c < 32 {
            ScreenState { pending: 0, ..spec_scroll(s, c as int) }
        } else {
            ScreenState { pending: 1, ..spec_locate(s, c - 32, s.cy) }
        }
    } else {
        ScreenState { pending: 0, ..spec_locate(s, s.cx, c - 32) }
    }
}

/// The editing control codes: new line, backspace, delete and the cursor keys.
pub open spec fn spec_edit_control(s: ScreenState, c: u8) -> ScreenState {
    if c == 10 {
        spec_newline(s)
    } else if c == BACKSPACE {
        spec_backspace(s)
    } else if c == DELETE {
        spec_delete_at_cursor(s)
    } else if c == CURSOR_LEFT {
        spec_cursor_left(s)
    } else if c == CURSOR_RIGHT {
        spec_cursor_right(s)
    } else if c == CURSOR_UP {
        if s.cy > 0 { spec_snap(ScreenState { cy: s.cy - 1, ..s }) } else { s }
    } else {
        if s.cy < s.h - 1 { spec_snap(ScreenState { cy: s.cy + 1, ..s }) } else { s }
    }
}

pub open spec fn is_edit_control(c: u8) -> bool {
    c == 10 || c == BACKSPACE || c == DELETE || c == CURSOR_LEFT || c == CURSOR_RIGHT
        || c == CURSOR_UP || c == CURSOR_DOWN
}

/// The other control codes and the characters themselves.
pub open spec fn spec_other(s: ScreenState, c: u8) -> ScreenState {
    if c == LINE_SPLIT {
        spec_enter(s)
    } else if c == FORM_FEED {
        ScreenState { vram: clear_cells(s.vram, s.cy * s.w + s.cx, s.w * s.h), ..s }
    } else if c == LOCATE_PREFIX {
        ScreenState { pending: 2, ..s }
    } else if c == KANA_TOGGLE {
        ScreenState { kana: !s.kana, ..s }
    } else if c == INSERT_TOGGLE {
        ScreenState { toggle: !s.toggle, ..s }
    } else if c < 32 && c != 0 {
        s
    } else if !s.overwrite {
        spec_insert_char(s, c)
    } else {
        spec_overwrite_char(s, c)
    }
}

/// One byte that is not a tab, sent to the screen. While a LOCATE sequence is
/// pending the byte is a coordinate; with the cursor hidden (row -1), and for
/// a carriage return, nothing happens.
pub open spec fn spec_putc_one(s: ScreenState, c: u8) -> ScreenState {
    if s.pending != 0 {
        spec_locate_sequence(s, c)
    } else if s.cy == -1 || c == 13 {
        s
    } else if is_edit_control(c) {
        spec_edit_control(s, c)
    } else {
        spec_other(s, c)
    }
}

/// One byte sent to the screen: a tab is two spaces.
pub open spec fn spec_putc(s: ScreenState, c: u8) -> ScreenState {
    if c == TAB && s.pending == 0 && s.cy >= 0 {
        spec_putc_one(spec_putc_one(s, 32), 32)
    } else {
        spec_putc_one(s, c)
    }
}

/// Bytes sent to the screen one after the other.
pub open spec fn spec_puts(s: ScreenState, bytes: Seq<u8>) -> ScreenState
    decreases bytes.len(),
{
    if bytes.len() == 0 { s } else { spec_puts(spec_putc(s, bytes[0]), bytes.drop_first()) }
}

/// Row arithmetic on the logical screen.
pub proof fn lemma_row(w: int, h: int, y: int)
    requires
        1 <= w,
        0 <= y < h,
    ensures
        0 <= y * w,
        y * w + w <= w * h,
        (y + 1) * w == y * w + w,
        (h - 1) * w == w * h - w,
        y > 0 ==> y * w >= w,
        y > 0 ==> (y - 1) * w == y * w - w,
{
    assert(y * w + w <= w * h) by (nonlinear_arith)
        requires 1 <= w, 0 <= y < h;
    assert((y + 1) * w == y * w + w) by (nonlinear_arith);
    assert((h - 1) * w == w * h - w) by (nonlinear_arith);
    assert(0 <= y * w) by (nonlinear_arith) requires 1 <= w, 0 <= y;
    assert(y > 0 ==> y * w >= w) by (nonlinear_arith) requires 1 <= w, 0 <= y;
    assert(y > 0 ==> (y - 1) * w == y * w - w) by (nonlinear_arith);
}

/// Scrolling down and then up gives the screen back with its last row
/// emptied (the row that scrolled off the bottom is lost).
pub proof fn lemma_scroll_down_then_up(v: Seq<u8>, w: int, h: int)
    requires
        1 <= w,
        1 <= h,
        w * h <= v.len(),
    ensures
        scrolled(scrolled(v, w, h, 31), w, h, 30) == Seq::new(v.len(), |i: int|
            if (h - 1) * w <= i < w * h { 0u8 } else { v[i] }),
{
    let d = scrolled(v, w, h, 31);
    assert((h - 1) * w == w * h - w) by (nonlinear_arith);
    assert(scrolled(d, w, h, 30) =~= Seq::new(v.len(), |i: int|
        if (h - 1) * w <= i < w * h { 0u8 } else { v[i] }));
}

/// Scrolling right and then left gives the screen back with its last column
/// emptied.
pub proof fn lemma_scroll_right_then_left(v: Seq<u8>, w: int, h: int)
    requires
        1 <= w,
        1 <= h,
        w * h <= v.len(),
    ensures
        scrolled(scrolled(v, w, h, 29), w, h, 28) == Seq::new(v.len(), |i: int|
            if i < w * h && i % w == w - 1 { 0u8 } else { v[i] }),
{
    let r = scrolled(v, w, h, 29);
    let target = Seq::new(v.len(), |i: int| if i < w * h && i % w == w - 1 { 0u8 } else { v[i] });
    assert forall|i: int| 0 <= i < v.len() implies #[trigger] scrolled(r, w, h, 28)[i] == target[i] by {
        if i < w * h && i % w != w - 1 {
            assert((i + 1) % w != 0) by (nonlinear_arith) requires 0 <= i, 1 <= w, i % w != w - 1;
            assert(i + 1 < w * h) by (nonlinear_arith) requires 0 <= i < w * h, 1 <= w, i % w != w - 1;
        }
    }
    assert(scrolled(r, w, h, 28) =~= target);
}

/// The logical screen has at most as many cells as the VRAM.
pub proof fn lemma_dims(z: int, w: int, h: int)
    requires
        screen_dims(z, w, h),
    ensures
        1 <= w,
        1 <= h,
        w * h <= SIZE_RAM_VRAM,
        w * h >= w,
{
}

impl Machine {
    /// The screen editor's view of the machine.
    pub open spec fn screen(&self) -> ScreenState {
        ScreenState {
            vram: self.vram_view(),
            cx: self.cursorx as int,
            cy: self.cursory as int,
            w: self.text_cols as int,
            h: self.text_rows as int,
            overwrite: self.is_overwrite_mode,
            pending: self.locate_pending_bytes as int,
            kana: self.is_kana_mode,
            toggle: self.is_overwrite_toggle,
        }
    }

    /// Everything that the screen editor does not touch is the same in both.
    pub open spec fn same_outside_screen(&self, other: &Machine) -> bool {
        &&& self.ram@.len() == other.ram@.len()
        &&& forall|i: int| 0 <= i < self.ram@.len()
            && !(OFFSET_RAM_VRAM <= i < OFFSET_RAM_VRAM + SIZE_RAM_VRAM)
            ==> #[trigger] self.ram@[i] == other.ram@[i]
        &&& self.pc == other.pc
        &&& self.list_size == other.list_size
        &&& self.is_cursor_visible == other.is_cursor_visible
        &&& self.is_screen_inverted == other.is_screen_inverted
        &&& self.screen_zoom_shift == other.screen_zoom_shift
        &&& self.is_video_enabled == other.is_video_enabled
        &&& self.is_esc_pressed == other.is_esc_pressed
        &&& self.romaji_pending_0 == other.romaji_pending_0
        &&& self.romaji_pending_1 == other.romaji_pending_1
        &&& self.inkey_queue@ == other.inkey_queue@
        &&& self.keyboard_id == other.keyboard_id
        &&& self.keys_down@ == other.keys_down@
        &&& self.frames == other.frames
        &&& self.video_line_count == other.video_line_count
        &&& self.is_led_on == other.is_led_on
        &&& self.wait_frames == other.wait_frames
        &&& self.is_program_running == other.is_program_running
        &&& self.input_pending == other.input_pending
        &&& self.last_error == other.last_error
        &&& self.last_file_slot == other.last_file_slot
        &&& self.is_quiet_mode == other.is_quiet_mode
        &&& self.break_resume_pc == other.break_resume_pc
        &&& self.psg == other.psg
        &&& self.rnd_state@ == other.rnd_state@
    }

    /// The VRAM cells.
    pub fn vram(&self) -> (r: &[u8])
        requires
            self.wf(),
        ensures
            r@ == self.vram_view(),
    {
        &self.ram.as_slice()[OFFSET_RAM_VRAM..OFFSET_RAM_VRAM + SIZE_RAM_VRAM]
    }

    /// The PCG (user-definable characters) area.
    pub fn pcg(&self) -> (r: &[u8])
        requires
            self.wf(),
        ensures
            r@ == self.ram@.subrange(0, 256),
    {
        &self.ram.as_slice()[0..256]
    }

    pub(crate) fn vget(&self, i: usize) -> (r: u8)
        requires
            self.wf(),
            i < SIZE_RAM_VRAM,
        ensures
            r == self.vram_view()[i as int],
    {
        self.ram[OFFSET_RAM_VRAM + i]
    }

    pub(crate) fn vset(&mut self, i: usize, b: u8)
        requires
            old(self).wf(),
            i < SIZE_RAM_VRAM,
        ensures
            final(self).wf(),
            final(self).screen() == (ScreenState { vram: old(self).vram_view().update(i as int, b), ..old(self).screen() }),
            final(self).same_outside_screen(old(self)),
    {
        self.ram[OFFSET_RAM_VRAM + i] = b;
        assert(self.vram_view() =~= old(self).vram_view().update(i as int, b));
    }

    /// The logical screen's number of columns (shrinks when zoomed).
    pub fn screen_cols(&self) -> (r: usize)
        ensures
            r == self.text_cols,
    {
        self.text_cols
    }

    /// The logical screen's number of rows (shrinks when zoomed).
    pub fn screen_rows(&self) -> (r: usize)
        ensures
            r == self.text_rows,
    {
        self.text_rows
    }

    /// Scrolls the logical screen one step (0 / 30 up, 1 / 29 right, 2 / 31
    /// down, 3 / 28 left); any other number does nothing.
    pub fn screen_scroll(&mut self, n: i32)
        requires
            old(self).wf(),
        ensures
            final(self).wf(),
            final(self).screen() == spec_scroll(old(self).screen(), n as int),
            final(self).same_outside_screen(old(self)),
    {
        let w = self.text_cols;
        let h = self.text_rows;
        proof {
            lemma_dims(self.screen_zoom_shift as int, w as int, h as int);
            lemma_row(w as int, h as int, h - 1);
        }
        let dir: i32 = if n == 0 || n == SCROLL_UP {
            SCROLL_UP
        } else if n == 1 || n == SCROLL_RIGHT {
            SCROLL_RIGHT
        } else if n == 2 || n == SCROLL_DOWN {
            SCROLL_DOWN
        } else if n == 3 || n == SCROLL_LEFT {
            SCROLL_LEFT
        } else {
            assert(self.vram_view() =~= scrolled(old(self).vram_view(), w as int, h as int, -1));
            return;
        };
        let n_cells = w * h;
        let ghost v0 = self.vram_view();
        let ghost target = scrolled(v0, w as int, h as int, dir as int);
        if dir == SCROLL_UP || dir == SCROLL_LEFT {
            let lim = (h - 1) * w;
            let mut i: usize = 0;
            while i < n_cells
                invariant
                    self.wf(),
                    old(self).wf(),
                    self.same_outside_screen(old(self)),
                    self.screen() == (ScreenState { vram: self.vram_view(), ..old(self).screen() }),
                    w == self.text_cols,
                    h == self.text_rows,
                    n_cells == w * h,
                    n_cells <= SIZE_RAM_VRAM,
                    lim == (h - 1) * w,
                    lim + w == n_cells,
                    1 <= w,
                    dir == SCROLL_UP || dir == SCROLL_LEFT,
                    v0 == old(self).vram_view(),
                    target == scrolled(v0, w as int, h as int, dir as int),
                    0 <= i <= n_cells,
                    forall|j: int| 0 <= j < i ==> self.vram_view()[j] == target[j],
                    forall|j: int| i <= j < SIZE_RAM_VRAM ==> self.vram_view()[j] == v0[j],
                decreases n_cells - i,
            {
                let b: u8 = if dir == SCROLL_UP {
                    if i < lim { self.vget(i + w) } else { 0 }
                } else {
                    if i % w == w - 1 { 0 } else { self.vget(i + 1) }
                };
                self.vset(i, b);
                i = i + 1;
            }
        } else {
            let mut i: usize = n_cells;
            while i > 0
                invariant
                    self.wf(),
                    old(self).wf(),
                    self.same_outside_screen(old(self)),
                    self.screen() == (ScreenState { vram: self.vram_view(), ..old(self).screen() }),
                    w == self.text_cols,
                    h == self.text_rows,
                    n_cells == w * h,
                    n_cells <= SIZE_RAM_VRAM,
                    1 <= w,
                    dir == SCROLL_DOWN || dir == SCROLL_RIGHT,
                    v0 == old(self).vram_view(),
                    target == scrolled(v0, w as int, h as int, dir as int),
                    0 <= i <= n_cells,
                    forall|j: int| i <= j < n_cells ==> self.vram_view()[j] == target[j],
                    forall|j: int| 0 <= j < i ==> self.vram_view()[j] == v0[j],
                    forall|j: int| n_cells <= j < SIZE_RAM_VRAM ==> self.vram_view()[j] == v0[j],
                decreases i,
            {
                let k = i - 1;
                let b: u8 = if dir == SCROLL_DOWN {
                    if k < w { 0 } else { self.vget(k - w) }
                } else {
                    if k % w == 0 { 0 } else { self.vget(k - 1) }
                };
                self.vset(k, b);
                i = k;
            }
        }
        assert(self.vram_view() =~= target);
    }

    /// Moves the cursor (see [`spec_locate`]).
    pub fn screen_locate(&mut self, x: i32, y: i32)
        requires
            old(self).wf(),
        ensures
            final(self).wf(),
            final(self).screen() == spec_locate(old(self).screen(), x as int, y as int),
            final(self).same_outside_screen(old(self)),
    {
        let w = self.text_cols as i32;
        let h = self.text_rows as i32;
        let mut x = x;
        let mut y = y;
        if x < 0 {
            x = 0;
        } else if x >= w {
            x = w - 1;
        }
        if y < 0 {
            y = -1;
        } else if y >= h {
            y = h - 1;
        }
        self.cursorx = x;
        self.cursory = y;
    }

    fn screen_enter(&mut self)
        requires
            old(self).wf(),
            0 <= old(self).cursory,
        ensures
            final(self).wf(),
            final(self).screen() == spec_enter(old(self).screen()),
            final(self).same_outside_screen(old(self)),
    {
        if self.cursory == self.text_rows as i32 - 1 {
            self.screen_scroll(0);
        } else {
            self.cursory = self.cursory + 1;
        }
        self.cursorx = 0;
    }
}


/// Leaving the same things alone twice leaves them alone.
pub proof fn lemma_same_outside_trans(a: &Machine, b: &Machine, c: &Machine)
    requires
        b.same_outside_screen(a),
        c.same_outside_screen(b),
    ensures
        c.same_outside_screen(a),
{
    assert forall|i: int| 0 <= i < c.ram@.len()
        && !(OFFSET_RAM_VRAM <= i < OFFSET_RAM_VRAM + SIZE_RAM_VRAM)
        implies #[trigger] c.ram@[i] == a.ram@[i] by {
        assert(c.ram@[i] == b.ram@[i]);
    }
}

impl Machine {
    fn cursor_snap_to_text(&mut self)
        requires
            old(self).wf(),
            0 <= old(self).cursory,
        ensures
            final(self).wf(),
            final(self).screen() == spec_snap(old(self).screen()),
            final(self).same_outside_screen(old(self)),
    {
        if self.is_overwrite_mode {
            return;
        }
        let w = self.text_cols;
        let ghost h = self.text_rows as int;
        proof {
            lemma_dims(self.screen_zoom_shift as int, w as int, h);
            lemma_row(w as int, h, self.cursory as int);
        }
        let row = self.cursory as usize * w;
        if self.vget(row + self.cursorx as usize) != 0 {
            return;
        }
        let ghost v = self.vram_view();
        let ghost x0 = self.cursorx as int;
        while self.cursorx > 0 && self.vget(row + self.cursorx as usize - 1) == 0
            invariant
                self.wf(),
                self.same_outside_screen(old(self)),
                self.vram_view() == v,
                v == old(self).vram_view(),
                row == self.cursory * w,
                w == self.text_cols,
                row + w <= SIZE_RAM_VRAM,
                0 <= self.cursorx <= x0,
                self.screen() == (ScreenState { cx: self.cursorx as int, ..old(self).screen() }),
                snap_x(v, row as int, self.cursorx as int) == snap_x(v, row as int, x0),
            decreases self.cursorx,
        {
            self.cursorx = self.cursorx - 1;
        }
    }

    fn screen_newline(&mut self)
        requires
            old(self).wf(),
            0 <= old(self).cursory,
        ensures
            final(self).wf(),
            final(self).screen() == spec_newline(old(self).screen()),
            final(self).same_outside_screen(old(self)),
    {
        let w = self.text_cols;
        let h = self.text_rows;
        proof {
            lemma_dims(self.screen_zoom_shift as int, w as int, h as int);
        }
        let ghost target = spec_newline(old(self).screen());
        loop
            invariant
                self.wf(),
                0 <= self.cursory,
                w == self.text_cols,
                h == self.text_rows,
                1 <= w,
                w * h <= SIZE_RAM_VRAM,
                self.same_outside_screen(old(self)),
                self.screen() == (ScreenState { cy: self.cursory as int, ..old(self).screen() }),
                spec_newline(self.screen()) == target,
                target == spec_newline(old(self).screen()),
            decreases h - self.cursory,
        {
            let cy = self.cursory;
            proof {
                lemma_row(w as int, h as int, cy as int);
            }
            let line_end = (cy as usize + 1) * w - 1;
            if self.vget(line_end) == 0 {
                assert(self.screen().vram[(self.screen().cy + 1) * self.screen().w - 1] == 0);
                assert(spec_newline(self.screen()) == spec_enter(self.screen()));
                let ghost mid = *self;
                self.screen_enter();
                proof { lemma_same_outside_trans(old(self), &mid, self); }
                return;
            } else if cy == h as i32 - 1 {
                assert(spec_newline(self.screen()) == spec_enter(spec_enter(self.screen())));
                let ghost mid = *self;
                self.screen_enter();
                let ghost mid2 = *self;
                proof { lemma_same_outside_trans(old(self), &mid, &mid2); }
                self.screen_enter();
                proof { lemma_same_outside_trans(old(self), &mid2, self); }
                return;
            }
            self.cursory = cy + 1;
        }
    }

    fn screen_delete_at_cursor(&mut self)
        requires
            old(self).wf(),
            0 <= old(self).cursory,
        ensures
            final(self).wf(),
            final(self).screen() == spec_delete_at_cursor(old(self).screen()),
            final(self).same_outside_screen(old(self)),
    {
        let w = self.text_cols;
        let h = self.text_rows;
        proof {
            lemma_dims(self.screen_zoom_shift as int, w as int, h as int);
            lemma_row(w as int, h as int, self.cursory as int);
        }
        let start = self.cursory as usize * w + self.cursorx as usize;
        let last = w * h - 1;
        let ghost v0 = self.vram_view();
        let mut i = start;
        while i < last && self.vget(i) != 0
            invariant
                self.wf(),
                self.same_outside_screen(old(self)),
                self.screen() == (ScreenState { vram: self.vram_view(), ..old(self).screen() }),
                v0 == old(self).vram_view(),
                start <= i <= last,
                last < SIZE_RAM_VRAM,
                start == old(self).cursory * old(self).text_cols + old(self).cursorx,
                last == old(self).text_cols * old(self).text_rows - 1,
                first_stop(v0, start as int, last as int) == first_stop(v0, i as int, last as int),
                forall|j: int| start <= j < i ==> self.vram_view()[j] == v0[j + 1],
                forall|j: int| 0 <= j < SIZE_RAM_VRAM && !(start <= j < i) ==> self.vram_view()[j] == v0[j],
            decreases last - i,
        {
            let nb = self.vget(i + 1);
            self.vset(i, nb);
            i = i + 1;
        }
        if i == last {
            self.vset(i, 0);
        }
        assert(self.vram_view() =~= close_gap(v0, start as int, last as int));
    }

    fn screen_backspace(&mut self)
        requires
            old(self).wf(),
            0 <= old(self).cursory,
        ensures
            final(self).wf(),
            final(self).screen() == spec_backspace(old(self).screen()),
            final(self).same_outside_screen(old(self)),
    {
        let w = self.text_cols;
        proof {
            lemma_dims(self.screen_zoom_shift as int, w as int, self.text_rows as int);
            lemma_row(w as int, self.text_rows as int, self.cursory as int);
        }
        if self.cursorx > 0 {
            self.cursorx = self.cursorx - 1;
        } else if self.cursory > 0 && self.vget(self.cursory as usize * w - 1) != 0 {
            self.cursory = self.cursory - 1;
            self.cursorx = w as i32 - 1;
        } else {
            return;
        }
        self.screen_delete_at_cursor();
    }

    /// Moves the cursor one cell on after a character (see [`spec_advance`]).
    fn screen_advance(&mut self)
        requires
            old(self).wf(),
            0 <= old(self).cursory,
        ensures
            final(self).wf(),
            final(self).screen() == spec_advance(old(self).screen()),
            final(self).same_outside_screen(old(self)),
    {
        if self.cursorx + 1 == self.text_cols as i32 {
            self.screen_enter();
        } else {
            self.cursorx = self.cursorx + 1;
        }
    }

    /// Moves the cells `now..last` one cell right (cell `now` keeps its byte).
    fn shift_right(&mut self, now: usize, last: usize)
        requires
            old(self).wf(),
            now <= last < SIZE_RAM_VRAM,
        ensures
            final(self).wf(),
            final(self).screen() == (ScreenState {
                vram: Seq::new(old(self).vram_view().len(), |j: int|
                    if now < j <= last { old(self).vram_view()[j - 1] } else { old(self).vram_view()[j] }),
                ..old(self).screen()
            }),
            final(self).same_outside_screen(old(self)),
    {
        let ghost v1 = self.vram_view();
        let mut i = last;
        while i > now
            invariant
                self.wf(),
                self.same_outside_screen(old(self)),
                self.screen() == (ScreenState { vram: self.vram_view(), ..old(self).screen() }),
                v1 == old(self).vram_view(),
                now <= i <= last,
                last < SIZE_RAM_VRAM,
                forall|j: int| i < j <= last ==> self.vram_view()[j] == v1[j - 1],
                forall|j: int| 0 <= j < SIZE_RAM_VRAM && !(i < j <= last) ==> self.vram_view()[j] == v1[j],
            decreases i,
        {
            let b = self.vget(i - 1);
            self.vset(i, b);
            i = i - 1;
        }
        assert(self.vram_view() =~= Seq::new(v1.len(), |j: int|
            if now < j <= last { v1[j - 1] } else { v1[j] }));
    }

    /// The first empty cell from `now` on, or `n`.
    fn find_first_zero(&self, now: usize, n: usize) -> (r: usize)
        requires
            self.wf(),
            now <= n <= SIZE_RAM_VRAM,
        ensures
            r == first_zero(self.vram_view(), now as int, n as int),
            now <= r <= n,
    {
        let mut i = now;
        while i < n && self.vget(i) != 0
            invariant
                self.wf(),
                now <= i <= n,
                n <= SIZE_RAM_VRAM,
                first_zero(self.vram_view(), now as int, n as int) == first_zero(self.vram_view(), i as int, n as int),
            decreases n - i,
        {
            i = i + 1;
        }
        i
    }

    fn screen_insert_char(&mut self, c: u8)
        requires
            old(self).wf(),
            0 <= old(self).cursory,
        ensures
            final(self).wf(),
            final(self).screen() == spec_insert_char(old(self).screen(), c),
            final(self).same_outside_screen(old(self)),
    {
        let w = self.text_cols;
        let h = self.text_rows;
        proof {
            lemma_dims(self.screen_zoom_shift as int, w as int, h as int);
            lemma_row(w as int, h as int, self.cursory as int);
        }
        let n = w * h;
        let mut now = self.cursory as usize * w + self.cursorx as usize;
        let mut cxlast = self.find_first_zero(now, n);
        let ghost m1 = *self;
        if cxlast == n {
            if self.cursory > 0 {
                self.screen_scroll(0);
                self.cursory = self.cursory - 1;
                now = now - w;
                cxlast = cxlast - w;
            } else {
                cxlast = cxlast - 1;
            }
        }
        let ghost m2 = *self;
        proof {
            let s0 = old(self).screen();
            let nn = s0.w * s0.h;
            let now0 = s0.cy * s0.w + s0.cx;
            let last = first_zero(s0.vram, now0, nn);
            let full = last == nn;
            assert(nn == n);
            assert(now0 == m1.cursory * w + m1.cursorx);
            assert(m2.vram_view() == (if full && s0.cy > 0 { scrolled(s0.vram, s0.w, s0.h, 30) } else { s0.vram }));
            assert(m2.cursory == (if full && s0.cy > 0 { s0.cy - 1 } else { s0.cy }));
            assert(now == (if full && s0.cy > 0 { now0 - s0.w } else { now0 }));
            assert(cxlast == (if full && s0.cy <= 0 { nn - 1 } else if full { last - s0.w } else { last }));
        }
        self.shift_right(now, cxlast);
        let ghost m3 = *self;
        self.vset(now, c);
        let ghost m4 = *self;
        proof {
            lemma_same_outside_trans(old(self), &m2, &m3);
            lemma_same_outside_trans(old(self), &m3, &m4);
            let v1 = m2.vram_view();
            let v2 = Seq::new(v1.len(), |j: int|
                if now < j <= cxlast { v1[j - 1] } else if j == now { c } else { v1[j] });
            assert(self.vram_view() =~= v2);
            assert(self.screen() == (ScreenState { vram: v2, cy: m2.cursory as int, ..old(self).screen() }));
            let s0 = old(self).screen();
            let nn = s0.w * s0.h;
            let now0 = s0.cy * s0.w + s0.cx;
            let last = first_zero(s0.vram, now0, nn);
            let full = last == nn;
            let sv1 = if full && s0.cy > 0 { scrolled(s0.vram, s0.w, s0.h, 30) } else { s0.vram };
            let now1 = if full && s0.cy > 0 { now0 - s0.w } else { now0 };
            let last1 = if full { last - s0.w } else { last };
            let last2 = if full && s0.cy <= 0 { nn - 1 } else { last1 };
            let sv2 = insert_cells(sv1, now1, last2, c);
            assert(sv2 =~= v2);
            assert(m4.screen() == (ScreenState { vram: sv2, cy: if full && s0.cy > 0 { s0.cy - 1 } else { s0.cy }, ..s0 }));
            assert(spec_insert_char(s0, c) == spec_advance(m4.screen()));
        }
        self.screen_advance();
        proof { lemma_same_outside_trans(old(self), &m4, self); }
    }

    fn screen_overwrite_char(&mut self, c: u8)
        requires
            old(self).wf(),
            0 <= old(self).cursory,
        ensures
            final(self).wf(),
            final(self).screen() == spec_overwrite_char(old(self).screen(), c),
            final(self).same_outside_screen(old(self)),
    {
        let w = self.text_cols;
        proof {
            lemma_dims(self.screen_zoom_shift as int, w as int, self.text_rows as int);
            lemma_row(w as int, self.text_rows as int, self.cursory as int);
        }
        let idx = self.cursory as usize * w + self.cursorx as usize;
        self.vset(idx, c);
        let ghost m = *self;
        self.screen_advance();
        proof { lemma_same_outside_trans(old(self), &m, self); }
    }
}

impl Machine {
    /// Empties the cells `from..to`.
    pub(crate) fn clear_vram_range(&mut self, from: usize, to: usize)
        requires
            old(self).wf(),
            from <= to <= SIZE_RAM_VRAM,
        ensures
            final(self).wf(),
            final(self).screen() == (ScreenState { vram: clear_cells(old(self).vram_view(), from as int, to as int), ..old(self).screen() }),
            final(self).same_outside_screen(old(self)),
    {
        let ghost v0 = self.vram_view();
        let mut i = from;
        while i < to
            invariant
                self.wf(),
                self.same_outside_screen(old(self)),
                self.screen() == (ScreenState { vram: self.vram_view(), ..old(self).screen() }),
                v0 == old(self).vram_view(),
                from <= i <= to,
                to <= SIZE_RAM_VRAM,
                forall|j: int| from <= j < i ==> self.vram_view()[j] == 0,
                forall|j: int| 0 <= j < SIZE_RAM_VRAM && !(from <= j < i) ==> self.vram_view()[j] == v0[j],
            decreases to - i,
        {
            self.vset(i, 0);
            i = i + 1;
        }
        assert(self.vram_view() =~= clear_cells(v0, from as int, to as int));
    }

    fn screen_cursor_left(&mut self)
        requires
            old(self).wf(),
            0 <= old(self).cursory,
        ensures
            final(self).wf(),
            final(self).screen() == spec_cursor_left(old(self).screen()),
            final(self).same_outside_screen(old(self)),
    {
        let w = self.text_cols;
        proof {
            lemma_dims(self.screen_zoom_shift as int, w as int, self.text_rows as int);
            lemma_row(w as int, self.text_rows as int, self.cursory as int);
        }
        if self.cursorx > 0 {
            self.cursorx = self.cursorx - 1;
        } else if self.cursory > 0
            && (self.vget(self.cursory as usize * w - 1) != 0 || self.is_overwrite_mode)
        {
            self.cursory = self.cursory - 1;
            self.cursorx = w as i32 - 1;
        }
    }

    fn screen_cursor_right(&mut self)
        requires
            old(self).wf(),
            0 <= old(self).cursory,
        ensures
            final(self).wf(),
            final(self).screen() == spec_cursor_right(old(self).screen()),
            final(self).same_outside_screen(old(self)),
    {
        let w = self.text_cols;
        let h = self.text_rows;
        proof {
            lemma_dims(self.screen_zoom_shift as int, w as int, h as int);
            lemma_row(w as int, h as int, self.cursory as int);
        }
        let at_last_cell = self.cursorx == w as i32 - 1 && self.cursory == h as i32 - 1;
        let current_idx = self.cursory as usize * w + self.cursorx as usize;
        let movable = !at_last_cell && (self.vget(current_idx) != 0 || self.is_overwrite_mode);
        if movable {
            if self.cursorx + 1 == w as i32 {
                self.cursorx = 0;
                self.cursory = self.cursory + 1;
            } else {
                self.cursorx = self.cursorx + 1;
            }
        }
    }

    fn screen_locate_sequence(&mut self, c: u8)
        requires
            old(self).wf(),
            old(self).locate_pending_bytes != 0,
        ensures
            final(self).wf(),
            final(self).screen() == spec_locate_sequence(old(self).screen(), c),
            final(self).same_outside_screen(old(self)),
    {
        if self.locate_pending_bytes == 2 {
            if c < 32 {
                self.screen_scroll(c as i32);
                self.locate_pending_bytes = 0;
            } else {
                let y = self.cursory;
                self.screen_locate(c as i32 - 32, y);
                self.locate_pending_bytes = 1;
            }
        } else {
            let x = self.cursorx;
            self.screen_locate(x, c as i32 - 32);
            self.locate_pending_bytes = 0;
        }
    }

    fn screen_edit_control(&mut self, c: u8)
        requires
            old(self).wf(),
            0 <= old(self).cursory,
            is_edit_control(c),
        ensures
            final(self).wf(),
            final(self).screen() == spec_edit_control(old(self).screen(), c),
            final(self).same_outside_screen(old(self)),
    {
        if c == 10 {
            self.screen_newline();
        } else if c == BACKSPACE {
            self.screen_backspace();
        } else if c == DELETE {
            self.screen_delete_at_cursor();
        } else if c == CURSOR_LEFT {
            self.screen_cursor_left();
        } else if c == CURSOR_RIGHT {
            self.screen_cursor_right();
        } else if c == CURSOR_UP {
            if self.cursory > 0 {
                self.cursory = self.cursory - 1;
                self.cursor_snap_to_text();
            }
        } else {
            if self.cursory < self.text_rows as i32 - 1 {
                self.cursory = self.cursory + 1;
                self.cursor_snap_to_text();
            }
        }
    }

    fn screen_other(&mut self, c: u8)
        requires
            old(self).wf(),
            0 <= old(self).cursory,
        ensures
            final(self).wf(),
            final(self).screen() == spec_other(old(self).screen(), c),
            final(self).same_outside_screen(old(self)),
    {
        let w = self.text_cols;
        let h = self.text_rows;
        proof {
            lemma_dims(self.screen_zoom_shift as int, w as int, h as int);
            lemma_row(w as int, h as int, self.cursory as int);
        }
        if c == LINE_SPLIT {
            self.screen_enter();
        } else if c == FORM_FEED {
            let now = self.cursory as usize * w + self.cursorx as usize;
            self.clear_vram_range(now, w * h);
        } else if c == LOCATE_PREFIX {
            self.locate_pending_bytes = 2;
        } else if c == KANA_TOGGLE {
            self.is_kana_mode = !self.is_kana_mode;
        } else if c == INSERT_TOGGLE {
            self.is_overwrite_toggle = !self.is_overwrite_toggle;
        } else if c < 32 && c != 0 {
        } else if !self.is_overwrite_mode {
            self.screen_insert_char(c);
        } else {
            self.screen_overwrite_char(c);
        }
    }

    /// One byte that is not a tab (see [`spec_putc_one`]).
    fn screen_putc_one(&mut self, c: u8)
        requires
            old(self).wf(),
        ensures
            final(self).wf(),
            final(self).screen() == spec_putc_one(old(self).screen(), c),
            final(self).same_outside_screen(old(self)),
    {
        if self.locate_pending_bytes != 0 {
            self.screen_locate_sequence(c);
        } else if self.cursory == -1 || c == 13 {
        } else if c == 10 || c == BACKSPACE || c == DELETE || c == CURSOR_LEFT
            || c == CURSOR_RIGHT || c == CURSOR_UP || c == CURSOR_DOWN
        {
            self.screen_edit_control(c);
        } else {
            self.screen_other(c);
        }
    }

    /// Sends one byte to the screen: characters are written (inserted or
    /// overwritten, as the mode says), and control codes move the cursor, edit,
    /// scroll or switch modes (see [`spec_putc`]).
    pub fn screen_putc(&mut self, c: u8)
        requires
            old(self).wf(),
        ensures
            final(self).wf(),
            final(self).screen() == spec_putc(old(self).screen(), c),
            final(self).same_outside_screen(old(self)),
    {
        if c == TAB && self.locate_pending_bytes == 0 && self.cursory >= 0 {
            self.screen_putc_one(32);
            let ghost mid = *self;
            self.screen_putc_one(32);
            proof { lemma_same_outside_trans(old(self), &mid, self); }
        } else {
            self.screen_putc_one(c);
        }
    }
}
} // verus!
