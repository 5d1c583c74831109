use ichigocrate::machine::Machine;
use ichigocrate::ram::OFFSET_RAM_VRAM;
use ichigocrate::render::{render_mono, RenderState, FONT_H, FONT_W, IMG_H, IMG_W};

/// A stand-in character ROM: `A` has a recognisable pattern, every other
/// character (the space among them) is blank.
fn font() -> Vec<u8> {
    let mut f = vec![0u8; 2048];
    let a = b'A' as usize * 8;
    f[a..a + 8].copy_from_slice(&[0x18, 0x24, 0x42, 0x7e, 0x42, 0x42, 0x42, 0x00]);
    f
}

fn plain() -> RenderState {
    RenderState { is_inverted: false, is_video_enabled: true, big: 0, cursor: None }
}

fn machine_with_char(c: u8) -> Machine {
    let mut m = Machine::new();
    m.ram[OFFSET_RAM_VRAM] = c;
    m
}

#[test]
fn renders_glyph_bits_at_top_left() {
    let ch = b'A';
    let m = machine_with_char(ch);
    let f = font();
    let mut buf = vec![0u8; IMG_W * IMG_H];
    render_mono(&mut buf, &m, &plain(), &f);
    let glyph = &f[ch as usize * 8..ch as usize * 8 + 8];
    for row in 0..FONT_H {
        for col in 0..FONT_W {
            let expected = (glyph[row] >> (7 - col)) & 1;
            assert_eq!(buf[row * IMG_W + col], expected, "px ({col},{row})");
        }
    }
}

#[test]
fn invert_flips_every_pixel() {
    let m = machine_with_char(b'A');
    let f = font();
    let mut normal = vec![0u8; IMG_W * IMG_H];
    let mut inverted = vec![0u8; IMG_W * IMG_H];
    render_mono(&mut normal, &m, &plain(), &f);
    render_mono(&mut inverted, &m, &RenderState { is_inverted: true, ..plain() }, &f);
    for (n, i) in normal.iter().zip(inverted.iter()) {
        assert_eq!(*n ^ 1, *i);
    }
}

#[test]
fn video_off_blanks_buffer() {
    let m = machine_with_char(b'A');
    let mut buf = vec![1u8; IMG_W * IMG_H];
    render_mono(&mut buf, &m, &RenderState { is_video_enabled: false, ..plain() }, &font());
    assert!(buf.iter().all(|&b| b == 0));
}

#[test]
fn cursor_full_width_inverts_whole_cell() {
    let m = machine_with_char(b' ');
    let mut buf = vec![0u8; IMG_W * IMG_H];
    render_mono(&mut buf, &m, &RenderState { cursor: Some((0, true)), ..plain() }, &font());
    for row in 0..FONT_H {
        for col in 0..FONT_W {
            assert_eq!(buf[row * IMG_W + col], 1, "px ({col},{row})");
        }
    }
}

#[test]
fn cursor_insert_inverts_left_half_only() {
    let m = machine_with_char(b' ');
    let mut buf = vec![0u8; IMG_W * IMG_H];
    render_mono(&mut buf, &m, &RenderState { cursor: Some((0, false)), ..plain() }, &font());
    for row in 0..FONT_H {
        for col in 0..FONT_W {
            let expected = if col < FONT_W / 2 { 1 } else { 0 };
            assert_eq!(buf[row * IMG_W + col], expected, "px ({col},{row})");
        }
    }
}

#[test]
fn pcg_characters_come_from_ram() {
    let mut m = machine_with_char(0xe0);
    m.ram[0] = 0xff; // first row of PCG character 0xE0
    let mut buf = vec![0u8; IMG_W * IMG_H];
    render_mono(&mut buf, &m, &plain(), &font());
    for col in 0..FONT_W {
        assert_eq!(buf[col], 1);
        assert_eq!(buf[IMG_W + col], 0);
    }
}

#[test]
fn capture_takes_the_cursor_on_even_phases() {
    let mut m = Machine::new();
    m.screen_locate(3, 2);
    let st = RenderState::capture(&m, 0);
    assert_eq!(st.cursor, Some((2 * 32 + 3, true)));
    assert!(st.is_video_enabled);
    assert!(!st.is_inverted);
    assert_eq!(st.big, 0);
    assert_eq!(RenderState::capture(&m, 1).cursor, None);
    m.is_cursor_visible = false;
    assert_eq!(RenderState::capture(&m, 0).cursor, None);
}
