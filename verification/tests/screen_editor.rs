use ichigocrate::keycodes::{CURSOR_DOWN, CURSOR_LEFT, CURSOR_UP, INSERT_TOGGLE};
use ichigocrate::machine::{Machine, PC_NULL};
use ichigocrate::ram::{OFFSET_RAM_VRAM, SCREEN_W};

fn vram_line(m: &Machine, y: usize) -> String {
    let row = &m.ram[OFFSET_RAM_VRAM + y * SCREEN_W..OFFSET_RAM_VRAM + (y + 1) * SCREEN_W];
    row.iter().take_while(|&&c| c != 0).map(|&c| c as char).collect()
}

#[test]
fn interactive_typing_inserts() {
    let mut m = Machine::new();
    m.put_str("AC");
    m.screen_locate(1, 0);
    m.sync_insert_mode();
    m.screen_putc(b'B');
    assert_eq!(vram_line(&m, 0), "ABC");
}

#[test]
fn editor_input_works_when_idle() {
    let mut m = Machine::new();
    assert!(!m.is_executing());
    assert_eq!(m.pc, PC_NULL);
    m.input_putc(b'A');
    m.input_putc(b'B');
    assert_eq!(m.cursorx, 2);
    m.input_control(CURSOR_LEFT);
    assert_eq!(m.cursorx, 1);
}

#[test]
fn cursor_down_snaps_to_text_like_editor() {
    let mut m = Machine::new();
    m.put_str("10 LED0\n");
    m.put_str("AAAA\n");
    m.sync_insert_mode();
    m.screen_locate(7, 0);
    assert_eq!((m.cursorx, m.cursory), (7, 0));
    m.screen_putc(CURSOR_DOWN);
    assert_eq!((m.cursorx, m.cursory), (4, 1));
    m.screen_putc(CURSOR_DOWN);
    assert_eq!((m.cursorx, m.cursory), (0, 2));
}

#[test]
fn cursor_up_snaps_to_text_end() {
    let mut m = Machine::new();
    m.put_str("AB\n");
    m.put_str("CDEFG\n");
    m.sync_insert_mode();
    m.screen_locate(5, 1);
    m.screen_putc(CURSOR_UP);
    assert_eq!((m.cursorx, m.cursory), (2, 0));
}

#[test]
fn cursor_free_move_in_overwrite_mode() {
    let mut m = Machine::new();
    m.put_str("AB\n");
    m.put_str("CDEFG\n");
    m.screen_putc(INSERT_TOGGLE);
    m.sync_insert_mode();
    m.screen_locate(5, 1);
    m.screen_putc(CURSOR_UP);
    assert_eq!((m.cursorx, m.cursory), (5, 0));
}

#[test]
fn cursor_width_follows_edit_mode() {
    let mut m = Machine::new();
    m.sync_insert_mode();
    assert!(!m.cursor_full_width(), "insert mode draws a half-width cursor");
    m.screen_putc(INSERT_TOGGLE);
    m.sync_insert_mode();
    assert!(m.cursor_full_width(), "overwrite mode draws a full-width cursor");
}

#[test]
fn typing_is_ignored_while_a_program_runs() {
    let mut m = Machine::new();
    m.is_program_running = true;
    m.input_putc(b'A');
    m.input_control(CURSOR_LEFT);
    assert_eq!(m.screen_get(0, 0), 0);
    assert_eq!((m.cursorx, m.cursory), (0, 0));
}

#[test]
fn kana_mode_converts_typed_romaji() {
    let mut m = Machine::new();
    m.toggle_kana();
    m.input_putc(b'K');
    assert_eq!(m.screen_get(0, 0), b'K');
    m.input_putc(b'A');
    assert_eq!(m.screen_get(0, 0), 0xb6);
    assert_eq!(m.cursorx, 1);
    m.toggle_kana();
    assert!(!m.is_kana_mode);
}

#[test]
fn long_text_wraps_and_scrolls_at_the_bottom() {
    let mut m = Machine::new();
    for _ in 0..24 {
        m.put_str("X\n");
    }
    // 24 lines of X and a final new line: the first line scrolled away
    assert_eq!(vram_line(&m, 0), "X");
    assert_eq!(vram_line(&m, 22), "X");
    assert_eq!(vram_line(&m, 23), "");
    assert_eq!((m.cursorx, m.cursory), (0, 23));
}

#[test]
fn locate_clamps_to_the_screen() {
    let mut m = Machine::new();
    m.screen_locate(100, 100);
    assert_eq!((m.cursorx, m.cursory), (31, 23));
    m.screen_locate(-5, -5);
    assert_eq!((m.cursorx, m.cursory), (0, -1));
}

#[test]
fn scroll_in_all_four_directions() {
    let mut m = Machine::new();
    m.screen_locate(0, 1);
    m.put_str("AB");
    m.screen_scroll(0);
    assert_eq!(vram_line(&m, 0), "AB");
    m.screen_scroll(2);
    assert_eq!(vram_line(&m, 1), "AB");
    m.screen_scroll(1);
    assert_eq!(m.screen_get(0, 1), 0);
    assert_eq!(m.screen_get(1, 1), b'A');
    m.screen_scroll(3);
    assert_eq!(vram_line(&m, 1), "AB");
    m.screen_scroll(99);
    assert_eq!(vram_line(&m, 1), "AB");
}

#[test]
fn scrolling_down_then_up_loses_only_the_last_row() {
    let mut m = Machine::new();
    m.put_str("TOP\n");
    m.screen_locate(0, 23);
    m.put_str("BOTTOM");
    m.screen_scroll(31);
    m.screen_scroll(30);
    assert_eq!(vram_line(&m, 0), "TOP");
    assert_eq!(vram_line(&m, 23), "");
}

#[test]
fn clear_line_and_line_start() {
    let mut m = Machine::new();
    m.put_str("HELLO");
    assert_eq!(m.screen_line_start(), OFFSET_RAM_VRAM);
    m.screen_clear_line();
    assert_eq!(vram_line(&m, 0), "");
    assert_eq!((m.cursorx, m.cursory), (0, 0));
}

#[test]
fn screen_clear_empties_everything() {
    let mut m = Machine::new();
    m.put_str("ABC\nDEF");
    m.screen_clear();
    assert!(m.vram().iter().all(|&c| c == 0));
    assert_eq!((m.cursorx, m.cursory), (0, 0));
}

#[test]
fn backspace_and_delete_close_the_gap() {
    let mut m = Machine::new();
    m.sync_insert_mode();
    m.put_str("ABC");
    m.screen_putc(8);
    assert_eq!(vram_line(&m, 0), "AB");
    m.screen_locate(0, 0);
    m.screen_putc(127);
    assert_eq!(vram_line(&m, 0), "B");
}
