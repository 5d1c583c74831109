//! Reading the screen back, clearing it, the display settings, the tick
//! counters and pixel graphics (`DRAW` / `POINT`) on 2x2-pixel cells.

use vstd::prelude::*;

use crate::machine::{calc_div, trunc_div, Machine};
use crate::ram::{OFFSET_RAM_VRAM, SIZE_RAM_VRAM, SCREEN_W, SCREEN_H};
use crate::screen::{clear_cells, lemma_dims, lemma_row, lemma_same_outside_trans, ScreenState};

verus! {

/// The character at column `x`, row `y` of the logical screen; 0 off screen.
pub open spec fn cell_at(s: ScreenState, x: int, y: int) -> u8 {
    if x < 0 || x >= s.w || y < 0 || y >= s.h { 0 } else { s.vram[y * s.w + x] }
}

/// Steps back from `p` while the cell is set, stopping at cell 0.
pub open spec fn back_over_text(v: Seq<u8>, p: int) -> int
    decreases p,
{
    if p > 0 && v[p] != 0 { back_over_text(v, p - 1) } else { p }
}

/// The RAM index where the logical line of the cursor starts (a hidden
/// cursor counts as row 0): searched back from the row above.
pub open spec fn line_start_of(s: ScreenState) -> int {
    let cy = if s.cy == -1 { 0 } else { s.cy };
    let p = (cy - 1) * s.w;
    if p < 0 {
        OFFSET_RAM_VRAM as int
    } else {
        let p1 = if s.vram[p] == 0 && p > 0 && s.vram[p - 1] != 0 {
            if p >= s.w { p - s.w } else { 0 }
        } else {
            p
        };
        let q = back_over_text(s.vram, p1);
        if s.vram[q] != 0 { OFFSET_RAM_VRAM + q } else { OFFSET_RAM_VRAM + q + 1 }
    }
}

/// The first row of the logical line through row `y`: rows whose last cell
/// is set continue on the next row.
pub open spec fn line_top(v: Seq<u8>, w: int, y: int) -> int
    decreases y,
{
    if y > 0 && v[y * w - 1] != 0 { line_top(v, w, y - 1) } else { y }
}

/// The last row of the logical line that starts at row `y`.
pub open spec fn line_bottom(v: Seq<u8>, w: int, h: int, y: int) -> int
    decreases h - y,
{
    if y + 1 < h && v[(y + 1) * w - 1] != 0 { line_bottom(v, w, h, y + 1) } else { y }
}

/// The screen after clearing the logical line of the cursor; the cursor goes
/// to its start. A hidden cursor leaves the screen alone.
pub open spec fn spec_clear_line(s: ScreenState) -> ScreenState {
    if s.cy < 0 {
        s
    } else {
        let top = line_top(s.vram, s.w, s.cy);
        let bottom = line_bottom(s.vram, s.w, s.h, top);
        ScreenState { vram: clear_cells(s.vram, top * s.w, (bottom + 1) * s.w), cx: 0, cy: top, ..s }
    }
}

/// The pixel-graphics characters 0x80..0x8F: a 2x2 bit pattern each.
pub open spec fn is_pixel_char(p: u8) -> bool {
    128 <= p < 144
}

/// Pixel (`x`, `y`) is on the logical screen (two pixels per cell each way).
pub open spec fn pixel_on_screen(s: ScreenState, x: int, y: int) -> bool {
    0 <= x < s.w * 2 && 0 <= y < s.h * 2
}

/// The cell index and the bit of pixel (`x`, `y`).
pub open spec fn pixel_cell(w: int, x: int, y: int) -> int {
    x / 2 + (y / 2) * w
}

pub open spec fn pixel_bit(x: int, y: int) -> u32 {
    (x % 2 + (y % 2) * 2) as u32
}

/// The cell after command `cmd` on one of its pixels: 0 clears, 1 sets, 2
/// flips; a cell that held no pixel character starts from an empty one.
pub open spec fn pset_cell(p: u8, bit: u32, cmd: i32) -> u8 {
    let base: u8 = if is_pixel_char(p) { p } else { 128 };
    if cmd == 0 {
        base & !(1u8 << bit as u8)
    } else if cmd == 1 {
        base | (1u8 << bit as u8)
    } else if cmd == 2 {
        base ^ (1u8 << bit as u8)
    } else {
        base
    }
}

/// `POINT`: a pixel's state; a cell with an ordinary character is all on.
pub open spec fn point_of(p: u8, bit: u32) -> u32 {
    let q: u8 = if !is_pixel_char(p) && p != 0 { 143 } else { p };
    ((q as u32) & (1u32 << bit)) >> bit
}

/// The VRAM after `DRAW`-ing one pixel with command `cmd` (3 only reads).
pub open spec fn pset_vram(s: ScreenState, x: int, y: int, cmd: i32) -> Seq<u8> {
    if !pixel_on_screen(s, x, y) || cmd == 3 {
        s.vram
    } else {
        let i = pixel_cell(s.w, x, y);
        s.vram.update(i, pset_cell(s.vram[i], pixel_bit(x, y), cmd))
    }
}

/// What `screen_pset` returns: the pixel's state for `POINT` (cmd 3), else 0.
pub open spec fn pset_result(s: ScreenState, x: int, y: int, cmd: i32) -> u32 {
    if !pixel_on_screen(s, x, y) || cmd != 3 {
        0
    } else {
        point_of(s.vram[pixel_cell(s.w, x, y)], pixel_bit(x, y))
    }
}

pub open spec fn abs(a: int) -> int {
    if a < 0 { -a } else { a }
}

/// `DRAW` steps along y (the line is steeper than 45 degrees): the pixels
/// `(x0 + dx*i/dy, y0 + i)` for `i` in `k..=n`.
pub open spec fn line_steps_y(s: ScreenState, x0: int, y0: int, dx: int, dy: int, k: int, n: int, cmd: i32) -> ScreenState
    decreases n + 1 - k,
{
    if k > n {
        s
    } else {
        let s2 = ScreenState { vram: pset_vram(s, x0 + trunc_div(dx * k, dy), y0 + k, cmd), ..s };
        line_steps_y(s2, x0, y0, dx, dy, k + 1, n, cmd)
    }
}

/// `DRAW` steps along x: the pixels `(x0 + i, y0 + dy*i/dx)` for `i` in `k..=n`.
pub open spec fn line_steps_x(s: ScreenState, x0: int, y0: int, dx: int, dy: int, k: int, n: int, cmd: i32) -> ScreenState
    decreases n + 1 - k,
{
    if k > n {
        s
    } else {
        let s2 = ScreenState { vram: pset_vram(s, x0 + k, y0 + trunc_div(dy * k, dx), cmd), ..s };
        line_steps_x(s2, x0, y0, dx, dy, k + 1, n, cmd)
    }
}

/// `DRAW x1,y1,x2,y2`: one pixel per step along the longer axis, from the
/// end with the smaller coordinate on that axis.
pub open spec fn spec_line(s: ScreenState, x1: int, y1: int, x2: int, y2: int, cmd: i32) -> ScreenState {
    let dx = x2 - x1;
    let dy = y2 - y1;
    if dx == 0 && dy == 0 {
        ScreenState { vram: pset_vram(s, x1, y1, cmd), ..s }
    } else if abs(dx) < abs(dy) {
        if y1 < y2 { line_steps_y(s, x1, y1, dx, dy, 0, y2 - y1, cmd) }
        else { line_steps_y(s, x2, y2, dx, dy, 0, y1 - y2, cmd) }
    } else if x1 < x2 {
        line_steps_x(s, x1, y1, dx, dy, 0, x2 - x1, cmd)
    } else {
        line_steps_x(s, x2, y2, dx, dy, 0, x1 - x2, cmd)
    }
}

/// The line's arithmetic stays inside `i32`: the differences, their
/// product, and one past the last step on the axis it walks.
pub open spec fn line_fits(x1: int, y1: int, x2: int, y2: int) -> bool {
    let dx = x2 - x1;
    let dy = y2 - y1;
    &&& i32::MIN < dx <= i32::MAX
    &&& i32::MIN < dy <= i32::MAX
    &&& abs(dx) * abs(dy) <= i32::MAX
    &&& abs(dx) < i32::MAX
    &&& abs(dy) < i32::MAX
    &&& (abs(dx) < abs(dy) ==> (if y1 < y2 { y2 < i32::MAX } else { y1 < i32::MAX }))
    &&& (!(dx == 0 && dy == 0) && abs(dx) >= abs(dy) ==> (if x1 < x2 { x2 < i32::MAX } else { x1 < i32::MAX }))
}

impl Machine {
    /// `CLS`: empties the whole VRAM and puts the cursor home.
    pub fn screen_clear(&mut self)
        requires
            old(self).wf(),
        ensures
            final(self).wf(),
            final(self).screen() == (ScreenState {
                vram: clear_cells(old(self).vram_view(), 0, SIZE_RAM_VRAM as int),
                cx: 0,
                cy: 0,
                ..old(self).screen()
            }),
            final(self).same_outside_screen(old(self)),
    {
        self.cursorx = 0;
        self.cursory = 0;
        let ghost mid = *self;
        self.clear_vram_range(0, SIZE_RAM_VRAM);
    }

    /// Video on: the logical screen is `SCREEN_W`x`SCREEN_H` shrunk by the
    /// zoom step (which the machine's invariant keeps in step already).
    pub fn video_on(&mut self)
        requires
            old(self).wf(),
        ensures
            final(self).wf(),
            final(self).text_cols == SCREEN_W >> old(self).screen_zoom_shift,
            final(self).text_rows == SCREEN_H >> old(self).screen_zoom_shift,
            *final(self) == (Machine { is_video_enabled: true, ..*old(self) }),
    {
        let z = self.screen_zoom_shift;
        proof {
            assert(32usize >> 0u8 == 32usize) by (bit_vector);
            assert(32usize >> 1u8 == 16usize) by (bit_vector);
            assert(32usize >> 2u8 == 8usize) by (bit_vector);
            assert(32usize >> 3u8 == 4usize) by (bit_vector);
            assert(24usize >> 0u8 == 24usize) by (bit_vector);
            assert(24usize >> 1u8 == 12usize) by (bit_vector);
            assert(24usize >> 2u8 == 6usize) by (bit_vector);
            assert(24usize >> 3u8 == 3usize) by (bit_vector);
        }
        self.is_video_enabled = true;
        self.text_cols = SCREEN_W >> z;
        self.text_rows = SCREEN_H >> z;
    }

    /// `CLT`: the frame and line counters that `TICK()` reads restart at 0.
    pub fn reset_tick_counters(&mut self)
        ensures
            *final(self) == (Machine { frames: 0, video_line_count: 0, ..*old(self) }),
    {
        self.frames = 0;
        self.video_line_count = 0;
    }

    /// `TICK(n)`: the frame counter (`n == 0`) or the line counter, in 15 bits.
    pub fn tick_count(&self, n: i16) -> (r: i16)
        ensures
            r == (if n != 0 { self.video_line_count } else { self.frames }) % 32768,
    {
        let v = if n != 0 { self.video_line_count } else { self.frames };
        (v % 32768) as i16
    }

    /// `SCR(x, y)`: the character at a cell of the logical screen; 0 off screen.
    pub fn screen_get(&self, x: i32, y: i32) -> (r: u8)
        requires
            self.wf(),
        ensures
            r == cell_at(self.screen(), x as int, y as int),
    {
        proof { lemma_dims(self.screen_zoom_shift as int, self.text_cols as int, self.text_rows as int); }
        if x < 0 || x >= self.text_cols as i32 || y < 0 || y >= self.text_rows as i32 {
            return 0;
        }
        proof { lemma_row(self.text_cols as int, self.text_rows as int, y as int); }
        self.vget((y as usize) * self.text_cols + x as usize)
    }

    /// `SCR()`: the character under the cursor.
    pub fn screen_get_current(&self) -> (r: u8)
        requires
            self.wf(),
        ensures
            r == cell_at(self.screen(), self.cursorx as int, self.cursory as int),
    {
        self.screen_get(self.cursorx, self.cursory)
    }

    /// The RAM index where the logical line of the cursor starts (what Enter
    /// reads as the typed line). A hidden cursor comes back to the top left.
    pub fn screen_line_start(&mut self) -> (r: usize)
        requires
            old(self).wf(),
        ensures
            final(self).wf(),
            r == line_start_of(old(self).screen()),
            *final(self) == if old(self).cursory == -1 {
                Machine { cursorx: 0, cursory: 0, ..*old(self) }
            } else {
                *old(self)
            },
    {
        if self.cursory == -1 {
            self.cursory = 0;
            self.cursorx = 0;
        }
        let w = self.text_cols;
        proof {
            lemma_dims(self.screen_zoom_shift as int, w as int, self.text_rows as int);
            lemma_row(w as int, self.text_rows as int, self.cursory as int);
        }
        if self.cursory == 0 {
            assert((0 - 1) * (w as int) < 0);
            return OFFSET_RAM_VRAM;
        }
        proof { lemma_row(w as int, self.text_rows as int, self.cursory - 1); }
        let mut p: usize = (self.cursory as usize - 1) * w;
        let ghost v = self.vram_view();
        if self.vget(p) == 0 && p > 0 && self.vget(p - 1) != 0 {
            p = if p >= w { p - w } else { 0 };
        }
        let ghost p1 = p as int;
        while self.vget(p) != 0
            invariant
                self.wf(),
                v == self.vram_view(),
                p < SIZE_RAM_VRAM,
                back_over_text(v, p1) == back_over_text(v, p as int),
            ensures
                back_over_text(v, p1) == p,
            decreases p,
        {
            if p == 0 {
                break;
            }
            p = p - 1;
        }
        if self.vget(p) != 0 { OFFSET_RAM_VRAM + p } else { OFFSET_RAM_VRAM + p + 1 }
    }

    /// Clears the logical line of the cursor (rows joined by a full last cell)
    /// and puts the cursor at its start; a hidden cursor does nothing.
    pub fn screen_clear_line(&mut self)
        requires
            old(self).wf(),
        ensures
            final(self).wf(),
            final(self).screen() == spec_clear_line(old(self).screen()),
            final(self).same_outside_screen(old(self)),
    {
        if self.cursory < 0 {
            return;
        }
        let w = self.text_cols;
        let h = self.text_rows;
        let (top, bottom) = self.logical_line_rows();
        proof {
            lemma_dims(self.screen_zoom_shift as int, w as int, h as int);
            lemma_row(w as int, h as int, bottom as int);
            assert(top * w <= bottom * w) by (nonlinear_arith) requires top <= bottom, w >= 1;
        }
        self.clear_vram_range(top * w, (bottom + 1) * w);
        self.cursorx = 0;
        self.cursory = top as i32;
    }

    /// The first and the last row of the logical line of the cursor.
    fn logical_line_rows(&self) -> (r: (usize, usize))
        requires
            self.wf(),
            self.cursory >= 0,
        ensures
            r.0 == line_top(self.vram_view(), self.text_cols as int, self.cursory as int),
            r.1 == line_bottom(self.vram_view(), self.text_cols as int, self.text_rows as int, r.0 as int),
            r.0 <= r.1 < self.text_rows,
    {
        let w = self.text_cols;
        let h = self.text_rows;
        let ghost v = self.vram_view();
        proof { lemma_dims(self.screen_zoom_shift as int, w as int, h as int); }
        let mut top: usize = self.cursory as usize;
        proof { lemma_row(w as int, h as int, top as int); }
        while top > 0 && self.vget(top * w - 1) != 0
            invariant
                self.wf(),
                top * w + w <= w * h,
                top > 0 ==> top * w >= w,
                v == self.vram_view(),
                w == self.text_cols,
                h == self.text_rows,
                1 <= w,
                w * h <= SIZE_RAM_VRAM,
                top < h,
                line_top(v, w as int, self.cursory as int) == line_top(v, w as int, top as int),
            decreases top,
        {
            top = top - 1;
            proof { lemma_row(w as int, h as int, top as int); }
        }
        let mut bottom: usize = top;
        proof { if bottom + 1 < h { lemma_row(w as int, h as int, bottom + 1); } }
        while bottom + 1 < h && self.vget((bottom + 1) * w - 1) != 0
            invariant
                self.wf(),
                bottom + 1 < h ==> (bottom + 1) * w + w <= w * h && (bottom + 1) * w >= w,
                v == self.vram_view(),
                w == self.text_cols,
                h == self.text_rows,
                1 <= w,
                w * h <= SIZE_RAM_VRAM,
                top <= bottom < h,
                line_bottom(v, w as int, h as int, top as int) == line_bottom(v, w as int, h as int, bottom as int),
            decreases h - bottom,
        {
            bottom = bottom + 1;
            proof { if bottom + 1 < h { lemma_row(w as int, h as int, bottom + 1); } }
        }
        (top, bottom)
    }

    /// `DRAW` / `POINT` on one pixel: 0 clears, 1 sets, 2 flips, 3 reads it
    /// (see [`pset_vram`] and [`pset_result`]). Off-screen pixels do nothing.
    pub fn screen_pset(&mut self, x: i32, y: i32, cmd: i32) -> (r: u32)
        requires
            old(self).wf(),
        ensures
            final(self).wf(),
            r == pset_result(old(self).screen(), x as int, y as int, cmd),
            final(self).screen() == (ScreenState {
                vram: pset_vram(old(self).screen(), x as int, y as int, cmd),
                ..old(self).screen()
            }),
            final(self).same_outside_screen(old(self)),
    {
        let w = self.text_cols as i32;
        let h = self.text_rows as i32;
        proof { lemma_dims(self.screen_zoom_shift as int, w as int, h as int); }
        if x < 0 || x >= w * 2 || y < 0 || y >= h * 2 {
            assert(self.vram_view() =~= pset_vram(old(self).screen(), x as int, y as int, cmd));
            return 0;
        }
        proof { lemma_row(w as int, h as int, (y / 2) as int); }
        let idx: usize = (x / 2) as usize + (y / 2) as usize * w as usize;
        let p = self.vget(idx);
        let bit: u32 = (x % 2) as u32 + ((y % 2) as u32) * 2;
        if cmd == 3 {
            let q: u8 = if !(128 <= p && p < 144) && p != 0 { 143 } else { p };
            assert(self.vram_view() =~= pset_vram(old(self).screen(), x as int, y as int, cmd));
            return ((q as u32) & (1u32 << bit)) >> bit;
        }
        let base: u8 = if 128 <= p && p < 144 { p } else { 128 };
        let b: u8 = bit as u8;
        let cell: u8 = if cmd == 0 {
            base & !(1u8 << b)
        } else if cmd == 1 {
            base | (1u8 << b)
        } else if cmd == 2 {
            base ^ (1u8 << b)
        } else {
            base
        };
        self.vset(idx, cell);
        0
    }

    /// `DRAW x1,y1,x2,y2`: a straight line of pixels with command `cmd`
    /// (see [`spec_line`]).
    pub fn screen_line(&mut self, x1: i32, y1: i32, x2: i32, y2: i32, cmd: i32)
        requires
            old(self).wf(),
            line_fits(x1 as int, y1 as int, x2 as int, y2 as int),
        ensures
            final(self).wf(),
            final(self).screen() == spec_line(old(self).screen(), x1 as int, y1 as int, x2 as int, y2 as int, cmd),
            final(self).same_outside_screen(old(self)),
    {
        let dx = x2 - x1;
        let dy = y2 - y1;
        let dx2 = if dx < 0 { -dx } else { dx };
        let dy2 = if dy < 0 { -dy } else { dy };
        if dx == 0 && dy == 0 {
            self.screen_pset(x1, y1, cmd);
            return;
        }
        proof {
            assert(abs(dy as int) * abs(dx as int) == abs(dx as int) * abs(dy as int)) by (nonlinear_arith);
        }
        if dx2 < dy2 {
            if y1 < y2 {
                self.line_along_y(x1, y1, dx, dy, y2 - y1, cmd);
            } else {
                self.line_along_y(x2, y2, dx, dy, y1 - y2, cmd);
            }
        } else if x1 < x2 {
            self.line_along_x(x1, y1, dx, dy, x2 - x1, cmd);
        } else {
            self.line_along_x(x2, y2, dx, dy, x1 - x2, cmd);
        }
    }

    /// The pixels `(x0 + dx*i/dy, y0 + i)` for `i` in `0..=n`, `n == |dy|`.
    fn line_along_y(&mut self, x0: i32, y0: i32, dx: i32, dy: i32, n: i32, cmd: i32)
        requires
            old(self).wf(),
            dy != 0,
            n == abs(dy as int),
            n < i32::MAX,
            abs(dx as int) < n,
            abs(dx as int) * n <= i32::MAX,
            y0 + n < i32::MAX,
            i32::MIN <= x0 + (if dy > 0 { dx as int } else { -dx }) <= i32::MAX,
        ensures
            final(self).wf(),
            final(self).screen() == line_steps_y(old(self).screen(), x0 as int, y0 as int, dx as int, dy as int, 0, n as int, cmd),
            final(self).same_outside_screen(old(self)),
    {
        let mut i: i32 = 0;
        while i <= n
            invariant
                self.wf(),
                self.same_outside_screen(old(self)),
                0 <= i <= n + 1,
                dy != 0,
                n == abs(dy as int),
                n < i32::MAX,
                abs(dx as int) * n <= i32::MAX,
                y0 + n < i32::MAX,
                i32::MIN <= x0 + (if dy > 0 { dx as int } else { -dx }) <= i32::MAX,
                line_steps_y(old(self).screen(), x0 as int, y0 as int, dx as int, dy as int, 0, n as int, cmd)
                    == line_steps_y(self.screen(), x0 as int, y0 as int, dx as int, dy as int, i as int, n as int, cmd),
            decreases n + 1 - i,
        {
            assert(abs(dx as int) * i <= abs(dx as int) * n) by (nonlinear_arith)
                requires 0 <= i <= n;
            assert(abs((dx * i) as int) == abs(dx as int) * i) by (nonlinear_arith)
                requires i >= 0;
            proof { lemma_step_between(dx as int, dy as int, i as int); }
            let q = calc_div(dx * i, dy);
            let ghost before = *self;
            self.screen_pset(x0 + q, y0 + i, cmd);
            proof { lemma_same_outside_trans(old(self), &before, self); }
            i = i + 1;
        }
    }

    /// The pixels `(x0 + i, y0 + dy*i/dx)` for `i` in `0..=n`, `n == |dx|`.
    fn line_along_x(&mut self, x0: i32, y0: i32, dx: i32, dy: i32, n: i32, cmd: i32)
        requires
            old(self).wf(),
            dx != 0,
            n == abs(dx as int),
            n < i32::MAX,
            abs(dy as int) <= n,
            abs(dy as int) * n <= i32::MAX,
            x0 + n < i32::MAX,
            i32::MIN <= y0 + (if dx > 0 { dy as int } else { -dy }) <= i32::MAX,
        ensures
            final(self).wf(),
            final(self).screen() == line_steps_x(old(self).screen(), x0 as int, y0 as int, dx as int, dy as int, 0, n as int, cmd),
            final(self).same_outside_screen(old(self)),
    {
        let mut i: i32 = 0;
        while i <= n
            invariant
                self.wf(),
                self.same_outside_screen(old(self)),
                0 <= i <= n + 1,
                dx != 0,
                n == abs(dx as int),
                n < i32::MAX,
                abs(dy as int) * n <= i32::MAX,
                x0 + n < i32::MAX,
                i32::MIN <= y0 + (if dx > 0 { dy as int } else { -dy }) <= i32::MAX,
                line_steps_x(old(self).screen(), x0 as int, y0 as int, dx as int, dy as int, 0, n as int, cmd)
                    == line_steps_x(self.screen(), x0 as int, y0 as int, dx as int, dy as int, i as int, n as int, cmd),
            decreases n + 1 - i,
        {
            assert(abs(dy as int) * i <= abs(dy as int) * n) by (nonlinear_arith)
                requires 0 <= i <= n;
            assert(abs((dy * i) as int) == abs(dy as int) * i) by (nonlinear_arith)
                requires i >= 0;
            proof { lemma_step_between(dy as int, dx as int, i as int); }
            let q = calc_div(dy * i, dx);
            let ghost before = *self;
            self.screen_pset(x0 + i, y0 + q, cmd);
            proof { lemma_same_outside_trans(old(self), &before, self); }
            i = i + 1;
        }
    }
}

/// A step `a * i / b` with `0 <= i <= |b|` lies between 0 and `a` taken
/// with the sign of `b`.
proof fn lemma_step_between(a: int, b: int, i: int)
    requires
        b != 0,
        0 <= i <= abs(b),
    ensures
        ({
            let q = trunc_div(a * i, b);
            let s = if b > 0 { a } else { -a };
            &&& abs(a * i) == abs(a) * i
            &&& (s >= 0 ==> 0 <= q <= s)
            &&& (s < 0 ==> s <= q <= 0)
        }),
{
    let m = abs(a * i) / abs(b);
    assert(abs(a * i) == abs(a) * i) by (nonlinear_arith)
        requires i >= 0;
    assert(abs(a) * i <= abs(a) * abs(b)) by (nonlinear_arith)
        requires 0 <= i <= abs(b);
    assert(0 <= m <= abs(a)) by (nonlinear_arith)
        requires abs(b) >= 1, m == abs(a * i) / abs(b), 0 <= abs(a * i) <= abs(a) * abs(b), abs(a) >= 0;
    assert(a * i == 0 || ((a * i < 0) == ((a < 0) != (i < 0)) && i > 0)) by (nonlinear_arith)
        requires i >= 0;
}

/// Pixel (`x`, `y`) shows as set: it is on the screen and its cell holds a
/// pixel character with that pixel's bit on.
pub open spec fn pixel_set(s: ScreenState, x: int, y: int) -> bool {
    &&& pixel_on_screen(s, x, y)
    &&& is_pixel_char(s.vram[pixel_cell(s.w, x, y)])
    &&& point_of(s.vram[pixel_cell(s.w, x, y)], pixel_bit(x, y)) == 1
}

/// The logical screen's cells lie inside its VRAM.
pub open spec fn screen_fits(s: ScreenState) -> bool {
    1 <= s.w && 1 <= s.h && s.w * s.h <= s.vram.len()
}

/// A pixel on the screen has its cell inside the VRAM.
proof fn lemma_pixel_cell_in(s: ScreenState, x: int, y: int)
    requires
        screen_fits(s),
        pixel_on_screen(s, x, y),
    ensures
        0 <= pixel_cell(s.w, x, y) < s.vram.len(),
        0 <= pixel_bit(x, y) < 4,
{
    let cx = x / 2;
    let cy = y / 2;
    assert(0 <= cx < s.w && 0 <= cy < s.h);
    assert(cx + cy * s.w < s.w * s.h) by (nonlinear_arith)
        requires 0 <= cx < s.w, 0 <= cy < s.h, 1 <= s.w;
    assert(0 <= cy * s.w) by (nonlinear_arith) requires 0 <= cy, 1 <= s.w;
}

/// Setting a bit of a cell leaves a pixel character with that bit on and
/// every bit that was on still on.
proof fn lemma_set_bit(p: u8, bit: u32, other: u32)
    requires
        bit < 4,
        other < 4,
    ensures
        is_pixel_char(pset_cell(p, bit, 1)),
        point_of(pset_cell(p, bit, 1), bit) == 1,
        is_pixel_char(p) && point_of(p, other) == 1 ==> point_of(pset_cell(p, bit, 1), other) == 1,
{
    let base: u8 = if is_pixel_char(p) { p } else { 128 };
    let r: u8 = base | (1u8 << bit as u8);
    assert(128 <= base < 144);
    assert(128 <= r < 144 && ((r as u32) & (1u32 << bit)) >> bit == 1) by (bit_vector)
        requires 128 <= base < 144, bit < 4, r == base | (1u8 << bit as u8);
    if is_pixel_char(p) && point_of(p, other) == 1 {
        assert(((r as u32) & (1u32 << other)) >> other == 1) by (bit_vector)
            requires other < 4, r == base | (1u8 << bit as u8), ((base as u32) & (1u32 << other)) >> other == 1;
    }
}

/// DRAW-ing one pixel with command 1 sets it and keeps every set pixel set.
proof fn lemma_pset_sets(s: ScreenState, x: int, y: int, x2: int, y2: int)
    requires
        screen_fits(s),
    ensures
        ({
            let s1 = ScreenState { vram: pset_vram(s, x, y, 1), ..s };
            &&& screen_fits(s1)
            &&& pixel_on_screen(s, x, y) ==> pixel_set(s1, x, y)
            &&& pixel_set(s, x2, y2) ==> pixel_set(s1, x2, y2)
        }),
{
    let s1 = ScreenState { vram: pset_vram(s, x, y, 1), ..s };
    if pixel_on_screen(s, x, y) {
        lemma_pixel_cell_in(s, x, y);
        let i = pixel_cell(s.w, x, y);
        lemma_set_bit(s.vram[i], pixel_bit(x, y), pixel_bit(x, y));
        if pixel_set(s, x2, y2) {
            lemma_pixel_cell_in(s, x2, y2);
            lemma_set_bit(s.vram[i], pixel_bit(x, y), pixel_bit(x2, y2));
        }
    }
}

/// Stepping along x with command 1 keeps every set pixel set.
proof fn lemma_steps_x_keep(s: ScreenState, x0: int, y0: int, dx: int, dy: int, k: int, n: int, x2: int, y2: int)
    requires
        screen_fits(s),
        pixel_set(s, x2, y2),
    ensures
        screen_fits(line_steps_x(s, x0, y0, dx, dy, k, n, 1)),
        pixel_set(line_steps_x(s, x0, y0, dx, dy, k, n, 1), x2, y2),
    decreases n + 1 - k,
{
    if k <= n {
        let x = x0 + k;
        let y = y0 + trunc_div(dy * k, dx);
        lemma_pset_sets(s, x, y, x2, y2);
        lemma_steps_x_keep(ScreenState { vram: pset_vram(s, x, y, 1), ..s }, x0, y0, dx, dy, k + 1, n, x2, y2);
    }
}

/// Stepping along y with command 1 keeps every set pixel set.
proof fn lemma_steps_y_keep(s: ScreenState, x0: int, y0: int, dx: int, dy: int, k: int, n: int, x2: int, y2: int)
    requires
        screen_fits(s),
        pixel_set(s, x2, y2),
    ensures
        screen_fits(line_steps_y(s, x0, y0, dx, dy, k, n, 1)),
        pixel_set(line_steps_y(s, x0, y0, dx, dy, k, n, 1), x2, y2),
    decreases n + 1 - k,
{
    if k <= n {
        let x = x0 + trunc_div(dx * k, dy);
        let y = y0 + k;
        lemma_pset_sets(s, x, y, x2, y2);
        lemma_steps_y_keep(ScreenState { vram: pset_vram(s, x, y, 1), ..s }, x0, y0, dx, dy, k + 1, n, x2, y2);
    }
}

/// Stepping along x with command 1 sets the pixel of every step.
proof fn lemma_steps_x_set(s: ScreenState, x0: int, y0: int, dx: int, dy: int, k: int, n: int, j: int)
    requires
        screen_fits(s),
        k <= j <= n,
        pixel_on_screen(s, x0 + j, y0 + trunc_div(dy * j, dx)),
    ensures
        pixel_set(line_steps_x(s, x0, y0, dx, dy, k, n, 1), x0 + j, y0 + trunc_div(dy * j, dx)),
    decreases n + 1 - k,
{
    let x = x0 + k;
    let y = y0 + trunc_div(dy * k, dx);
    let s1 = ScreenState { vram: pset_vram(s, x, y, 1), ..s };
    lemma_pset_sets(s, x, y, x, y);
    if k == j {
        lemma_steps_x_keep(s1, x0, y0, dx, dy, k + 1, n, x, y);
    } else {
        lemma_steps_x_set(s1, x0, y0, dx, dy, k + 1, n, j);
    }
}

/// Stepping along y with command 1 sets the pixel of every step.
proof fn lemma_steps_y_set(s: ScreenState, x0: int, y0: int, dx: int, dy: int, k: int, n: int, j: int)
    requires
        screen_fits(s),
        k <= j <= n,
        pixel_on_screen(s, x0 + trunc_div(dx * j, dy), y0 + j),
    ensures
        pixel_set(line_steps_y(s, x0, y0, dx, dy, k, n, 1), x0 + trunc_div(dx * j, dy), y0 + j),
    decreases n + 1 - k,
{
    let x = x0 + trunc_div(dx * k, dy);
    let y = y0 + k;
    let s1 = ScreenState { vram: pset_vram(s, x, y, 1), ..s };
    lemma_pset_sets(s, x, y, x, y);
    if k == j {
        lemma_steps_y_keep(s1, x0, y0, dx, dy, k + 1, n, x, y);
    } else {
        lemma_steps_y_set(s1, x0, y0, dx, dy, k + 1, n, j);
    }
}

/// Truncating division undoes a multiplication, with either sign.
proof fn lemma_trunc_mul(a: int, b: int)
    requires
        b != 0,
    ensures
        trunc_div(a * b, b) == a,
        trunc_div(a * (-b), b) == -a,
        trunc_div(0, b) == 0,
{
    let ab = if a * b < 0 { -(a * b) } else { a * b };
    let bb = if b < 0 { -b } else { b };
    let aa = if a < 0 { -a } else { a };
    assert(ab == aa * bb) by (nonlinear_arith)
        requires ab == (if a * b < 0 { -(a * b) } else { a * b }), bb == (if b < 0 { -b } else { b }),
            aa == (if a < 0 { -a } else { a });
    assert((aa * bb) / bb == aa) by (nonlinear_arith) requires bb > 0, aa >= 0;
    assert((a * b < 0) == ((a < 0) != (b < 0)) || a == 0) by (nonlinear_arith) requires b != 0;
    assert(a * (-b) == -(a * b)) by (nonlinear_arith);
    assert(0int / bb == 0) by (nonlinear_arith) requires bb > 0;
}

/// `DRAW x1,y1,x2,y2` (command 1, set) sets both its end points, whatever
/// the screen held before.
pub proof fn lemma_draw_sets_endpoints(s: ScreenState, x1: int, y1: int, x2: int, y2: int)
    requires
        screen_fits(s),
        pixel_on_screen(s, x1, y1),
        pixel_on_screen(s, x2, y2),
    ensures
        pixel_set(spec_line(s, x1, y1, x2, y2, 1), x1, y1),
        pixel_set(spec_line(s, x1, y1, x2, y2, 1), x2, y2),
{
    let dx = x2 - x1;
    let dy = y2 - y1;
    if dx == 0 && dy == 0 {
        lemma_pset_sets(s, x1, y1, x1, y1);
    } else if abs(dx) < abs(dy) {
        lemma_trunc_mul(dx, dy);
        if y1 < y2 {
            assert(dx * dy == dx * (y2 - y1));
            lemma_steps_y_set(s, x1, y1, dx, dy, 0, y2 - y1, 0);
            lemma_steps_y_set(s, x1, y1, dx, dy, 0, y2 - y1, y2 - y1);
        } else {
            assert(dx * (y1 - y2) == dx * (-dy));
            lemma_steps_y_set(s, x2, y2, dx, dy, 0, y1 - y2, 0);
            lemma_steps_y_set(s, x2, y2, dx, dy, 0, y1 - y2, y1 - y2);
        }
    } else {
        lemma_trunc_mul(dy, dx);
        if x1 < x2 {
            lemma_steps_x_set(s, x1, y1, dx, dy, 0, x2 - x1, 0);
            lemma_steps_x_set(s, x1, y1, dx, dy, 0, x2 - x1, x2 - x1);
        } else {
            assert(dy * (x1 - x2) == dy * (-dx));
            lemma_steps_x_set(s, x2, y2, dx, dy, 0, x1 - x2, 0);
            lemma_steps_x_set(s, x2, y2, dx, dy, 0, x1 - x2, x1 - x2);
        }
    }
}

/// A shallow `DRAW` from left to right (command 1) sets, in every column `x`
/// from `x1` to `x2`, the pixel in row `y1 + (y2 - y1) * (x - x1) / (x2 - x1)`
/// (the division truncated), when it is on the screen.
pub proof fn lemma_draw_shallow_rows(s: ScreenState, x1: int, y1: int, x2: int, y2: int, x: int)
    requires
        screen_fits(s),
        x1 < x2,
        abs(y2 - y1) <= x2 - x1,
        x1 <= x <= x2,
        pixel_on_screen(s, x, y1 + trunc_div((y2 - y1) * (x - x1), x2 - x1)),
    ensures
        pixel_set(spec_line(s, x1, y1, x2, y2, 1), x, y1 + trunc_div((y2 - y1) * (x - x1), x2 - x1)),
{
    lemma_steps_x_set(s, x1, y1, x2 - x1, y2 - y1, 0, x2 - x1, x - x1);
}

/// A steep `DRAW` from top to bottom (command 1) sets, in every row `y`
/// from `y1` to `y2`, the pixel in column `x1 + (x2 - x1) * (y - y1) / (y2 - y1)`
/// (the division truncated), when it is on the screen.
pub proof fn lemma_draw_steep_cols(s: ScreenState, x1: int, y1: int, x2: int, y2: int, y: int)
    requires
        screen_fits(s),
        y1 < y2,
        abs(x2 - x1) < y2 - y1,
        y1 <= y <= y2,
        pixel_on_screen(s, x1 + trunc_div((x2 - x1) * (y - y1), y2 - y1), y),
    ensures
        pixel_set(spec_line(s, x1, y1, x2, y2, 1), x1 + trunc_div((x2 - x1) * (y - y1), y2 - y1), y),
{
    lemma_steps_y_set(s, x1, y1, x2 - x1, y2 - y1, 0, y2 - y1, y - y1);
}

} // verus!
