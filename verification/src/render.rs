//! The monochrome rasterizer: VRAM, PCG and the character ROM become a
//! 1-bit-per-pixel bitmap; the front ends colour it.

use vstd::prelude::*;

use crate::machine::Machine;
use crate::ram::{SCREEN_H, SCREEN_W};

verus! {

/// Pixel width of a character.
pub const FONT_W: usize = 8;
/// Pixel height of a character.
pub const FONT_H: usize = 8;
/// Bitmap width (a zoomed screen is stretched to the same size).
pub const IMG_W: usize = 256;
/// Bitmap height.
pub const IMG_H: usize = 192;

/// What the picture depends on besides VRAM and PCG.
#[derive(Clone, Debug, PartialEq, Eq)]
pub struct RenderState {
    pub is_inverted: bool,
    pub is_video_enabled: bool,
    /// Zoom step; each pixel becomes a `1 << big` square.
    pub big: u8,
    /// The cursor drawn inverted: its cell index and whether it is full width.
    pub cursor: Option<(usize, bool)>,
}

/// The side of the square that one source pixel becomes.
pub open spec fn zoom_of(big: u8) -> int {
    if big == 0 { 1 } else if big == 1 { 2 } else if big == 2 { 4 } else { 8 }
}

/// The cursor that `capture` shows: visible, on an even blink phase and on
/// the screen.
pub open spec fn captured_cursor(m: &Machine, blink_phase: u32) -> Option<(usize, bool)> {
    if m.is_cursor_visible && blink_phase % 2 == 0 && 0 <= m.cursory < m.text_rows && 0 <= m.cursorx < m.text_cols {
        Some(((m.cursory * m.text_cols + m.cursorx) as usize, m.is_overwrite_mode))
    } else {
        None
    }
}

/// Whether bit `col` (from the left) of a glyph row is set.
pub open spec fn glyph_bit(bits: u8, col: int) -> bool {
    (bits >> ((7 - col) as u8)) & 1u8 != 0
}

/// The glyph row `row` of character `ch`: PCG for 0xE0..=0xFF, else the ROM.
pub open spec fn glyph_row(pcg: Seq<u8>, font: Seq<u8>, ch: u8, row: int) -> u8 {
    if ch >= 224 { pcg[(ch - 224) * 8 + row] } else { font[ch * 8 + row] }
}

/// The bitmap pixel at (`px`, `py`): the glyph bit of the cell it shows,
/// flipped when the screen is inverted and again under the cursor (the left
/// half only for an insert-mode cursor); 0 with the video off and outside the
/// zoomed screen.
pub open spec fn render_pixel(vram: Seq<u8>, pcg: Seq<u8>, font: Seq<u8>, cols: int, rows: int,
    st: RenderState, px: int, py: int) -> u8
{
    let z = zoom_of(st.big);
    if !st.is_video_enabled || px >= cols * 8 * z || py >= rows * 8 * z {
        0
    } else {
        let cx = px / (8 * z);
        let col = (px / z) % 8;
        let cy = py / (8 * z);
        let row = (py / z) % 8;
        let idx = cy * cols + cx;
        let bit = glyph_bit(glyph_row(pcg, font, vram[idx], row), col);
        let under_cursor = match st.cursor {
            Some((i, full)) => i == idx && (full || col < 4),
            None => false,
        };
        if (bit != st.is_inverted) != under_cursor { 1 } else { 0 }
    }
}

impl RenderState {
    /// Takes what the picture depends on from the machine; the cursor shows
    /// on even blink phases.
    pub fn capture(m: &Machine, blink_phase: u32) -> (r: RenderState)
        requires
            m.wf(),
        ensures
            r.is_inverted == m.is_screen_inverted,
            r.is_video_enabled == m.is_video_enabled,
            r.big == (if m.screen_zoom_shift < 3 { m.screen_zoom_shift } else { 3 }),
            r.cursor == captured_cursor(m, blink_phase),
    {
        let cols = m.screen_cols();
        let rows = m.screen_rows();
        proof { crate::screen::lemma_dims(m.screen_zoom_shift as int, cols as int, rows as int); }
        let show = m.is_cursor_visible && blink_phase % 2 == 0;
        let in_range = m.cursory >= 0 && (m.cursory as usize) < rows && m.cursorx >= 0 && (m.cursorx as usize) < cols;
        let cursor = if show && in_range {
            proof { crate::screen::lemma_row(cols as int, rows as int, m.cursory as int); }
            Some((m.cursory as usize * cols + m.cursorx as usize, m.cursor_full_width()))
        } else {
            None
        };
        RenderState {
            is_inverted: m.is_screen_inverted,
            is_video_enabled: m.is_video_enabled,
            big: if m.screen_zoom_shift < 3 { m.screen_zoom_shift } else { 3 },
            cursor,
        }
    }
}

/// Draws the screen into `buf` as 0 (off) and 1 (on) bytes, `IMG_W` per row
/// (see [`render_pixel`]); bytes past the bitmap are 0. `font` is the
/// character ROM, 8 bytes per character.
pub fn render_mono(buf: &mut [u8], machine: &Machine, state: &RenderState, font: &[u8])
    requires
        machine.wf(),
        state.big <= 3,
        machine.text_cols * 8 * zoom_of(state.big) <= IMG_W,
        machine.text_rows * 8 * zoom_of(state.big) <= IMG_H,
        font@.len() >= 224 * 8,
        state.is_video_enabled ==> old(buf)@.len() >= IMG_W * IMG_H,
    ensures
        final(buf)@.len() == old(buf)@.len(),
        forall|j: int| 0 <= j < final(buf)@.len() ==> #[trigger] final(buf)@[j] == (if j < IMG_W * IMG_H {
            render_pixel(machine.vram_view(), machine.ram@.subrange(0, 256), font@,
                machine.text_cols as int, machine.text_rows as int, *state, j % (IMG_W as int), j / (IMG_W as int))
        } else {
            0u8
        }),
{
    let n = buf.len();
    let mut j: usize = 0;
    while j < n
        invariant
            machine.wf(),
            n == buf@.len(),
            buf@.len() == old(buf)@.len(),
            j <= n,
            state.big <= 3,
            machine.text_cols * 8 * zoom_of(state.big) <= IMG_W,
            machine.text_rows * 8 * zoom_of(state.big) <= IMG_H,
            font@.len() >= 224 * 8,
            forall|k: int| 0 <= k < j ==> #[trigger] buf@[k] == (if k < IMG_W * IMG_H {
                render_pixel(machine.vram_view(), machine.ram@.subrange(0, 256), font@,
                    machine.text_cols as int, machine.text_rows as int, *state, k % (IMG_W as int), k / (IMG_W as int))
            } else {
                0u8
            }),
        decreases n - j,
    {
        let v: u8 = if j < IMG_W * IMG_H {
            pixel_value(machine, state, font, j % IMG_W, j / IMG_W)
        } else {
            0
        };
        buf[j] = v;
        j = j + 1;
    }
}

/// One bitmap pixel (see [`render_pixel`]).
fn pixel_value(machine: &Machine, state: &RenderState, font: &[u8], px: usize, py: usize) -> (r: u8)
    requires
        machine.wf(),
        px < IMG_W,
        py < IMG_H,
        state.big <= 3,
        machine.text_cols * 8 * zoom_of(state.big) <= IMG_W,
        machine.text_rows * 8 * zoom_of(state.big) <= IMG_H,
        font@.len() >= 224 * 8,
    ensures
        r == render_pixel(machine.vram_view(), machine.ram@.subrange(0, 256), font@,
            machine.text_cols as int, machine.text_rows as int, *state, px as int, py as int),
{
    let z: usize = if state.big == 0 { 1 } else if state.big == 1 { 2 } else if state.big == 2 { 4 } else { 8 };
    let cols = machine.text_cols;
    let rows = machine.text_rows;
    proof { crate::screen::lemma_dims(machine.screen_zoom_shift as int, cols as int, rows as int); }
    if !state.is_video_enabled || px >= cols * 8 * z || py >= rows * 8 * z {
        return 0;
    }
    let cx = px / (8 * z);
    let col = (px / z) % 8;
    let cy = py / (8 * z);
    let row = (py / z) % 8;
    assert(cx < cols && cy < rows) by (nonlinear_arith)
        requires
            cx as int == px as int / (8 * z as int),
            cy as int == py as int / (8 * z as int),
            (px as int) < cols * 8 * z,
            (py as int) < rows * 8 * z,
            z >= 1;
    proof { crate::screen::lemma_row(cols as int, rows as int, cy as int); }
    let idx = cy * cols + cx;
    let ch = machine.vget(idx);
    let bits: u8 = if ch >= 224 {
        machine.ram[(ch as usize - 224) * 8 + row]
    } else {
        font[ch as usize * 8 + row]
    };
    let shift: u8 = (7 - col) as u8;
    let bit = (bits >> shift) & 1u8 != 0;
    let under_cursor = match state.cursor {
        Some((i, full)) => i == idx && (full || col < 4),
        None => false,
    };
    if (bit != state.is_inverted) != under_cursor { 1 } else { 0 }
}

/// Inverting the screen flips every pixel of the picture; with the video off
/// the picture stays dark either way.
pub proof fn lemma_invert_flips_pixels(vram: Seq<u8>, pcg: Seq<u8>, font: Seq<u8>, cols: int, rows: int,
    st: RenderState, px: int, py: int)
    requires
        0 <= px < cols * 8 * zoom_of(st.big),
        0 <= py < rows * 8 * zoom_of(st.big),
    ensures
        st.is_video_enabled ==> render_pixel(vram, pcg, font, cols, rows,
            RenderState { is_inverted: !st.is_inverted, ..st }, px, py)
            == 1 - render_pixel(vram, pcg, font, cols, rows, st, px, py),
        !st.is_video_enabled ==> render_pixel(vram, pcg, font, cols, rows,
            RenderState { is_inverted: !st.is_inverted, ..st }, px, py) == 0,
{
}

} // verus!
