//! Helpers that approximate the PRINT output stream from VRAM snapshots.

use vstd::prelude::*;

verus! {

/// A VRAM byte as a character of the output stream: empty cells are spaces,
/// printable ASCII stays, anything else (control codes, graphic characters)
/// becomes `?`.
pub open spec fn spec_screen_char(c: u8) -> char {
    if c == 0 { ' ' } else if 32 <= c <= 126 { c as char } else { '?' }
}

pub fn screen_char(c: u8) -> (r: char)
    ensures
        r == spec_screen_char(c),
{
    if c == 0 {
        ' '
    } else if 32 <= c && c <= 126 {
        c as char
    } else {
        '?'
    }
}

/// The top `rows - k` rows of `cur` are the bottom rows of `prev`: the screen
/// moved up by `k` rows.
pub open spec fn scrolled_by(prev: Seq<u8>, cur: Seq<u8>, cols: int, rows: int, k: int) -> bool {
    cur.subrange(0, (rows - k) * cols) == prev.subrange(k * cols, rows * cols)
}

/// The first `k` from `k0` below `rows` by which the screen scrolled, or 0.
pub open spec fn first_scroll(prev: Seq<u8>, cur: Seq<u8>, cols: int, rows: int, k0: int) -> int
    decreases rows - k0,
{
    if k0 >= rows {
        0
    } else if scrolled_by(prev, cur, cols, rows, k0) {
        k0
    } else {
        first_scroll(prev, cur, cols, rows, k0 + 1)
    }
}

/// The number of rows by which the screen scrolled between two snapshots:
/// the least `k` (1..rows) such that the top `rows - k` rows of `cur` are the
/// bottom rows of `prev`; 0 when there is none, or when the snapshots differ
/// in size or the screen is empty.
pub open spec fn spec_detect_scroll(prev: Seq<u8>, cur: Seq<u8>, cols: int, rows: int) -> int {
    if prev.len() != cur.len() || cols == 0 || rows == 0 {
        0
    } else {
        first_scroll(prev, cur, cols, rows, 1)
    }
}

proof fn lemma_rows(cols: int, rows: int, k: int)
    requires
        0 < cols,
        0 < k < rows,
    ensures
        (rows - k) * cols + k * cols == rows * cols,
        0 <= k * cols,
        0 <= (rows - k) * cols,
        k * cols + cols == (k + 1) * cols,
{
    assert((rows - k) * cols + k * cols == rows * cols) by (nonlinear_arith);
    assert(0 <= k * cols) by (nonlinear_arith) requires 0 < cols, 0 < k;
    assert(0 <= (rows - k) * cols) by (nonlinear_arith) requires 0 < cols, k < rows;
    assert(k * cols + cols == (k + 1) * cols) by (nonlinear_arith);
}

/// Detects how many rows the screen scrolled since the previous snapshot.
pub fn detect_scroll(prev: &[u8], cur: &[u8], cols: usize, rows: usize) -> (r: usize)
    requires
        prev@.len() == cur@.len() && cols > 0 && rows > 0 ==> cols * rows <= cur@.len(),
    ensures
        r == spec_detect_scroll(prev@, cur@, cols as int, rows as int),
{
    if prev.len() != cur.len() || cols == 0 || rows == 0 {
        return 0;
    }
    let total = rows * cols;
    let mut k: usize = 1;
    while k < rows
        invariant
            1 <= k <= rows,
            total == rows * cols,
            total <= cur@.len(),
            prev@.len() == cur@.len(),
            cols > 0,
            first_scroll(prev@, cur@, cols as int, rows as int, k as int)
                == spec_detect_scroll(prev@, cur@, cols as int, rows as int),
        decreases rows - k,
    {
        proof { lemma_rows(cols as int, rows as int, k as int); }
        let n = (rows - k) * cols;
        let off = k * cols;
        let mut i: usize = 0;
        let mut same = true;
        while i < n
            invariant
                i <= n,
                n + off == total,
                total <= cur@.len(),
                prev@.len() == cur@.len(),
                same == (forall|j: int| 0 <= j < i ==> cur@[j] == prev@[off + j]),
            decreases n - i,
        {
            if cur[i] != prev[off + i] {
                same = false;
            }
            i = i + 1;
        }
        proof {
            if same {
                assert(cur@.subrange(0, n as int) =~= prev@.subrange(off as int, total as int));
            } else {
                let j = choose|j: int| 0 <= j < n && cur@[j] != prev@[off + j];
                assert(cur@.subrange(0, n as int)[j] != prev@.subrange(off as int, total as int)[j]);
            }
        }
        if same {
            return k;
        }
        k = k + 1;
    }
    0
}

/// `s` without its trailing spaces.
pub open spec fn trim_spaces(s: Seq<char>) -> Seq<char>
    decreases s.len(),
{
    if s.len() > 0 && s.last() == ' ' { trim_spaces(s.drop_last()) } else { s }
}

/// The cells `start..end` of row `y` as output characters.
pub open spec fn row_text(vram: Seq<u8>, cols: int, y: int, start: int, end: int) -> Seq<char> {
    Seq::new((end - start) as nat, |i: int| spec_screen_char(vram[y * cols + start + i]))
}

/// The output text from row `y` (from column `x0` when `y` is the first row
/// `y0`) down to the cursor at (`cx`, `cy`): finished rows lose their trailing
/// spaces and end in a new line.
pub open spec fn rows_text(vram: Seq<u8>, cols: int, y0: int, x0: int, cy: int, cx: int, y: int) -> Seq<char>
    decreases cy + 1 - y,
{
    if y > cy {
        Seq::empty()
    } else {
        let start = if y == y0 { x0 } else { 0 };
        let end = if y == cy { cx } else { cols };
        let line = row_text(vram, cols, y, start, end);
        let text = if y < cy { trim_spaces(line).push('\n') } else { line };
        text + rows_text(vram, cols, y0, x0, cy, cx, y + 1)
    }
}

/// The cursor column and row as the output stream tracks them: clamped to
/// the screen.
pub open spec fn track_x(cursorx: i32, cols: int) -> int {
    let x = if cursorx < 0 { 0 } else { cursorx as int };
    if x < cols { x } else { cols }
}

pub open spec fn track_y(cursory: i32, rows: int) -> int {
    let y = if cursory < 0 { 0 } else { cursory as int };
    if y < rows - 1 { y } else { rows - 1 }
}

/// What the browser's text output gets since the last call: the screen
/// scrolled `k` rows moves the tracked position up, and the text from there
/// to the cursor is new (nothing when the cursor did not move on).
pub open spec fn spec_output_chunk(prev: Seq<u8>, vram: Seq<u8>, cols: int, rows: int,
    cursorx: i32, cursory: i32, out_x: int, out_y: int) -> Seq<char>
{
    let cx = track_x(cursorx, cols);
    let cy = track_y(cursory, rows);
    let k = spec_detect_scroll(prev, vram, cols, rows);
    let oy = if k > 0 { if out_y >= k { out_y - k } else { 0 } } else { out_y };
    if oy < cy || (oy == cy && out_x < cx) { rows_text(vram, cols, oy, out_x, cy, cx, oy) } else { Seq::empty() }
}

/// The new output text and the new tracked position (see
/// [`spec_output_chunk`]).
pub fn output_chunk(prev: &[u8], vram: &[u8], cols: usize, rows: usize, cursorx: i32, cursory: i32,
    out_x: usize, out_y: usize) -> (r: (Vec<char>, usize, usize))
    requires
        rows >= 1,
        cols * rows <= vram@.len(),
        out_x <= cols,
    ensures
        r.0@ == spec_output_chunk(prev@, vram@, cols as int, rows as int, cursorx, cursory, out_x as int, out_y as int),
        r.1 == track_x(cursorx, cols as int),
        r.2 == track_y(cursory, rows as int),
{
    let cx: usize = if cursorx < 0 { 0 } else if (cursorx as usize) < cols { cursorx as usize } else { cols };
    let cy: usize = if cursory < 0 { 0 } else if (cursory as usize) < rows - 1 { cursory as usize } else { rows - 1 };
    let k = detect_scroll(prev, vram, cols, rows);
    let vlen = vram.len();
    let oy: usize = if k > 0 { if out_y >= k { out_y - k } else { 0 } } else { out_y };
    let mut chunk: Vec<char> = Vec::new();
    if oy < cy || (oy == cy && out_x < cx) {
        let mut y = oy;
        proof {
            assert(cy * cols + cols <= cols * rows) by (nonlinear_arith)
                requires cy < rows, cols >= 0;
        }
        while y <= cy
            invariant
                oy <= y <= cy + 1,
                cy < rows,
                cx <= cols,
                out_x <= cols,
                oy < cy || (oy == cy && out_x < cx),
                cy * cols + cols <= cols * rows,
                cols * rows <= vram@.len(),
                vlen == vram@.len(),
                chunk@ + rows_text(vram@, cols as int, oy as int, out_x as int, cy as int, cx as int, y as int)
                    == rows_text(vram@, cols as int, oy as int, out_x as int, cy as int, cx as int, oy as int),
            decreases cy + 1 - y,
        {
            let start = if y == oy { out_x } else { 0 };
            let end = if y == cy { cx } else { cols };
            proof {
                assert(y * cols + cols <= cy * cols + cols) by (nonlinear_arith)
                    requires y <= cy, cols >= 0;
            }
            let mut line: Vec<char> = Vec::new();
            let mut i = start;
            while i < end
                invariant
                    start <= i <= end,
                    end <= cols,
                    y * cols + cols <= cols * rows,
                    cols * rows <= vram@.len(),
                    vlen == vram@.len(),
                    line@ == row_text(vram@, cols as int, y as int, start as int, i as int),
                decreases end - i,
            {
                line.push(crate::web::output::screen_char(vram[y * cols + i]));
                proof {
                    assert(line@ =~= row_text(vram@, cols as int, y as int, start as int, i + 1));
                }
                i = i + 1;
            }
            let ghost full = line@;
            if y < cy {
                while line.len() > 0 && line[line.len() - 1] == ' '
                    invariant
                        trim_spaces(line@) == trim_spaces(full),
                    ensures
                        line@ == trim_spaces(full),
                    decreases line@.len(),
                {
                    let ghost prev_line = line@;
                    line.pop();
                    proof {
                        assert(line@ =~= prev_line.drop_last());
                    }
                }
                line.push('\n');
            }
            let ghost before = chunk@;
            let mut j: usize = 0;
            while j < line.len()
                invariant
                    j <= line@.len(),
                    chunk@ == before + line@.subrange(0, j as int),
                decreases line@.len() - j,
            {
                chunk.push(line[j]);
                proof {
                    assert(chunk@ =~= before + line@.subrange(0, j + 1));
                }
                j = j + 1;
            }
            proof {
                assert(line@.subrange(0, j as int) =~= line@);
                assert(chunk@ + rows_text(vram@, cols as int, oy as int, out_x as int, cy as int, cx as int, y + 1)
                    =~= before + rows_text(vram@, cols as int, oy as int, out_x as int, cy as int, cx as int, y as int));
            }
            y = y + 1;
        }
        assert(chunk@ =~= chunk@ + rows_text(vram@, cols as int, oy as int, out_x as int, cy as int, cx as int, y as int));
    }
    (chunk, cx, cy)
}

} // verus!
