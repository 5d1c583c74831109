//! Layout of the IchigoJam RAM.
//!
//! Virtual address space:
//! ```text
//! #000-#6FF  character patterns (ROM, the first 224 glyphs of the font)
//! #700-#7FF  PCG (RAM)
//! #800-#8FF  VAR (array + variables A-Z)
//! #900-#BFF  VRAM (32x24)
//! #C00-#1001 LIST (program, 1026 bytes)
//! #1002-#1081 KEYBUF (128 bytes)
//! #1082-#1149 LINEBUF (200 bytes)
//! #114A-#117F I2CBUF (54 bytes)
//! ```

use vstd::prelude::*;

verus! {

pub const SIZE_PCG: usize = 32;
pub const N_LINEBUF: usize = 200;

pub const SIZE_RAM_PCG: usize = 256;
pub const SIZE_RAM_VAR: usize = 256;
pub const SIZE_RAM_VRAM: usize = 768;
pub const SIZE_RAM_LIST: usize = 1026;
pub const SIZE_RAM_KEYBUF: usize = 128;
pub const SIZE_RAM_LINEBUF: usize = 200;
pub const SIZE_RAM_I2CBUF: usize = 54;

/// Total RAM: PCG + VAR + VRAM + LIST + KEYBUF + LINEBUF + I2CBUF.
pub const SIZE_RAM: usize = 2688;

pub const OFFSET_RAM_PCG: usize = 0;
pub const OFFSET_RAM_VAR: usize = 256;
pub const OFFSET_RAM_VRAM: usize = 512;
pub const OFFSET_RAM_LIST: usize = 1280;
pub const OFFSET_RAM_KEYBUF: usize = 2306;
pub const OFFSET_RAM_LINEBUF: usize = 2434;
pub const OFFSET_RAM_I2CBUF: usize = 2634;

/// Where RAM starts in the virtual address space (0x700).
pub const OFFSET_RAMROM: usize = 1792;

pub const SCREEN_W: usize = 32;
pub const SCREEN_H: usize = 24;

/// Variables A-Z.
pub const IJB_SIZEOF_VAR: usize = 26;
/// Array elements `[0]`..`[101]`.
pub const IJB_SIZEOF_ARRAY: usize = 102;
pub const IJB_SIZEOF_GOSUB_STACK: usize = 30;
pub const IJB_SIZEOF_FOR_STACK: usize = 6;
pub const IJB_SIZEOF_LIST: usize = 1026;

/// The layout constants agree with each other.
pub proof fn lemma_layout()
    ensures
        SIZE_RAM_PCG == SIZE_PCG * 8,
        SIZE_RAM_VAR == (IJB_SIZEOF_ARRAY + IJB_SIZEOF_VAR) * 2,
        SIZE_RAM_VRAM == SCREEN_W * SCREEN_H,
        SIZE_RAM == SIZE_RAM_PCG + SIZE_RAM_VAR + SIZE_RAM_VRAM + SIZE_RAM_LIST
            + SIZE_RAM_KEYBUF + SIZE_RAM_LINEBUF + SIZE_RAM_I2CBUF,
        OFFSET_RAM_VAR == OFFSET_RAM_PCG + SIZE_RAM_PCG,
        OFFSET_RAM_VRAM == OFFSET_RAM_VAR + SIZE_RAM_VAR,
        OFFSET_RAM_LIST == OFFSET_RAM_VRAM + SIZE_RAM_VRAM,
        OFFSET_RAM_KEYBUF == OFFSET_RAM_LIST + SIZE_RAM_LIST,
        OFFSET_RAM_LINEBUF == OFFSET_RAM_KEYBUF + SIZE_RAM_KEYBUF,
        OFFSET_RAM_I2CBUF == OFFSET_RAM_LINEBUF + SIZE_RAM_LINEBUF,
        OFFSET_RAMROM == (256 - SIZE_PCG) * 8,
        SIZE_RAM_LINEBUF == N_LINEBUF,
        IJB_SIZEOF_LIST == SIZE_RAM_LIST,
{
}

} // verus!
