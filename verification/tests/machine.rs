use ichigocrate::errors::BasicError;
use ichigocrate::machine::{basic_toupper, calc_div, calc_mod, strlen8, Machine, PC_NULL, Tone};
use ichigocrate::ram::{OFFSET_RAMROM, OFFSET_RAM_LINEBUF, OFFSET_RAM_LIST, OFFSET_RAM_VAR, OFFSET_RAM_VRAM, SCREEN_W};

fn vram_line(m: &Machine, y: usize) -> String {
    let row = &m.ram[OFFSET_RAM_VRAM + y * SCREEN_W..OFFSET_RAM_VRAM + (y + 1) * SCREEN_W];
    row.iter().take_while(|&&c| c != 0).map(|&c| c as char).collect()
}

/// Types `text` into LINEBUF as the interpreter leaves it after reading a
/// line number, and edits the LIST with it.
fn edit(m: &mut Machine, number: i16, text: &str) -> Result<(), BasicError> {
    let bytes = text.as_bytes();
    let base = OFFSET_RAM_LINEBUF;
    m.ram[base] = b' ';
    m.ram[base + 1..base + 1 + bytes.len()].copy_from_slice(bytes);
    m.ram[base + 1 + bytes.len()] = 0;
    m.pc = base + 1;
    m.command_edit(number)
}

fn line_numbers(m: &Machine) -> Vec<i16> {
    let mut v = Vec::new();
    let mut idx: u16 = 0;
    loop {
        let n = m.list_get_number(idx);
        if n == 0 {
            break;
        }
        v.push(n);
        idx += m.list_get_length(idx) as u16 + 4;
    }
    v
}

#[test]
fn random_numbers_follow_xorshift() {
    let mut m = Machine::new();
    let first = m.rnd_next();
    assert_eq!(first, 3701687786);
    let mut a = Machine::new();
    let mut b = Machine::new();
    a.random_seed(42);
    b.random_seed(42);
    for _ in 0..10 {
        let x = a.random(100);
        assert!((0..100).contains(&x));
        assert_eq!(x, b.random(100));
    }
    assert_eq!(a.random(0), 0);
    assert_eq!(a.random(-5), 0);
}

#[test]
fn variables_read_back_what_was_stored() {
    let mut m = Machine::new();
    m.var_set(102, 12345);
    m.var_set(103, -2);
    assert_eq!(m.var_get(102), 12345);
    assert_eq!(m.var_get(103), -2);
    assert_eq!(m.ram[OFFSET_RAM_VAR + 204], 0x39);
    assert_eq!(m.ram[OFFSET_RAM_VAR + 205], 0x30);
    m.clear_vars();
    assert_eq!(m.var_get(102), 0);
    assert_eq!(m.var_get(103), 0);
}

#[test]
fn peek_and_poke_the_address_space() {
    let mut m = Machine::new();
    let font: Vec<u8> = (0..2048u32).map(|i| (i % 251) as u8).collect();
    m.poke(OFFSET_RAMROM as i32 + 5, 77);
    assert_eq!(m.ram[5], 77);
    assert_eq!(m.peek(&font, OFFSET_RAMROM as i32 + 5), 77);
    assert_eq!(m.peek(&font, 10), 10);
    assert_eq!(m.peek(&font, -1), 0);
    assert_eq!(m.peek(&font, 0x7fff), 0);
    m.poke(3, 9);
    m.poke(0x7fff, 9);
    assert!(m.ram.iter().all(|&b| b == 0 || b == 77));
}

#[test]
fn clp_copies_the_font_tail_into_the_pcg() {
    let mut m = Machine::new();
    let font: Vec<u8> = (0..2048u32).map(|i| (i / 8) as u8).collect();
    m.reset_pcg_to_font(&font);
    assert_eq!(m.pcg()[0], 0xe0);
    assert_eq!(m.pcg()[255], 0xff);
}

#[test]
fn line_edit_inserts_replaces_and_deletes() {
    let mut m = Machine::new();
    assert_eq!(edit(&mut m, 20, "?\"B\""), Ok(()));
    assert_eq!(edit(&mut m, 10, "?\"A\""), Ok(()));
    assert_eq!(edit(&mut m, 30, "END"), Ok(()));
    assert_eq!(line_numbers(&m), vec![10, 20, 30]);
    assert_eq!(m.list_find_goto(20), (m.list_get_length(0) as i32) + 4);
    assert_eq!(m.list_find_goto(25), -1);
    // replace 20 with a longer text
    assert_eq!(edit(&mut m, 20, "?\"BBBB\""), Ok(()));
    assert_eq!(line_numbers(&m), vec![10, 20, 30]);
    // delete 10 (the number alone)
    assert_eq!(edit(&mut m, 10, ""), Ok(()));
    assert_eq!(line_numbers(&m), vec![20, 30]);
    assert_eq!(edit(&mut m, 0, "X"), Err(BasicError::SyntaxError));
}

#[test]
fn listing_prints_numbers_and_texts() {
    let mut m = Machine::new();
    edit(&mut m, 10, "A=1").unwrap();
    edit(&mut m, 20, "?A").unwrap();
    m.list_lines(0, 0);
    assert_eq!(vram_line(&m, 0), "10 A=1");
    assert_eq!(vram_line(&m, 1), "20 ?A");
    m.screen_clear();
    m.list_lines(15, 0);
    assert_eq!(vram_line(&m, 0), "20 ?A");
    assert_eq!(vram_line(&m, 1), "");
}

#[test]
fn saved_list_loads_back_and_bad_data_is_refused() {
    let mut m = Machine::new();
    edit(&mut m, 10, "A=1").unwrap();
    edit(&mut m, 20, "?A").unwrap();
    let size = m.list_size as usize;
    let data = m.ram[OFFSET_RAM_LIST..OFFSET_RAM_LIST + size].to_vec();
    let mut n = Machine::new();
    assert_eq!(n.list_load(3, &data), Ok(size as u16));
    assert_eq!(n.list_size as usize, size);
    assert_eq!(n.last_file_slot, 3);
    assert_eq!(line_numbers(&n), vec![10, 20]);
    // line numbers that do not rise
    let mut bad = data.clone();
    let second = m.list_get_length(0) as usize + 4;
    bad[second] = 5;
    bad[second + 1] = 0;
    assert_eq!(n.list_load(4, &bad), Err(BasicError::FileError));
    assert_eq!(n.list_size, 0);
    assert_eq!(n.last_file_slot, 3);
}

#[test]
fn numbers_print_in_decimal() {
    let mut m = Machine::new();
    assert_eq!(m.put_num(0), 1);
    m.put_chr(b' ');
    assert_eq!(m.put_num(-42), 3);
    m.put_chr(b' ');
    assert_eq!(m.put_num(32767), 5);
    assert_eq!(vram_line(&m, 0), "0 -42 32767");
    assert_eq!(Machine::decimal_width(-42), 3);
    assert_eq!(Machine::decimal_width(0), 1);
    assert_eq!(Machine::decimal_width(i32::MIN), 11);
    assert_eq!(Machine::decimal_width(1000000), 7);
}

#[test]
fn dec_dollar_pads_and_cuts() {
    let mut m = Machine::new();
    m.print_dec(42, 5);
    m.put_chr(b'|');
    m.print_dec(-7, 0);
    m.put_chr(b'|');
    m.print_dec(12345, 3);
    assert_eq!(vram_line(&m, 0), "   42|-7|345");
}

#[test]
fn strings_from_memory_stop_at_quote_nul_or_count() {
    let mut m = Machine::new();
    let at = 0x100;
    m.ram[at..at + 6].copy_from_slice(b"HI\"YO\0");
    m.put_str_from_mem((OFFSET_RAMROM + at) as i32, -1);
    m.put_chr(b'/');
    m.put_str_from_mem((OFFSET_RAMROM + at + 3) as i32, 1);
    m.put_chr(b'/');
    m.put_str_from_mem(5, 10);
    assert_eq!(vram_line(&m, 0), "HI/Y/");
}

#[test]
fn error_report_names_the_line() {
    let mut m = Machine::new();
    m.basic_print_error(BasicError::DivideByZero);
    assert_eq!(vram_line(&m, 0), "Divide by 0");
    edit(&mut m, 10, "A=1/0").unwrap();
    m.pc = OFFSET_RAM_LIST + 5;
    m.basic_print_error(BasicError::DivideByZero);
    assert_eq!(vram_line(&m, 1), "Divide by 0 in 10");
    assert_eq!(vram_line(&m, 2), "10 A=1/0");
    assert_eq!(m.break_resume_pc, OFFSET_RAM_LIST + 5);
    m.is_quiet_mode = true;
    m.basic_print_error(BasicError::Break);
    assert_eq!(vram_line(&m, 3), "");
}

#[test]
fn key_queue_is_first_in_first_out_and_bounded() {
    let mut m = Machine::new();
    assert_eq!(m.key_get_key(), -1);
    m.key_push(b'A');
    m.key_push(b'B');
    assert_eq!(m.key_get_key(), b'A' as i32);
    assert_eq!(m.key_get_key(), b'B' as i32);
    for i in 0..200u32 {
        m.key_push((i % 256) as u8);
    }
    assert_eq!(m.inkey_queue.len(), 126);
    m.is_esc_pressed = true;
    m.key_clear_key();
    assert_eq!(m.key_get_key(), -1);
    assert!(!m.is_break_requested());
}

#[test]
fn btn_reads_held_keys() {
    let mut m = Machine::new();
    assert_eq!(m.btn(28), 0);
    m.key_set_down(28, true);
    m.key_set_down(b'X', true);
    assert_eq!(m.btn(28), 1);
    assert_eq!(m.btn(88), 1);
    assert_eq!(m.btn(29), 0);
    assert_eq!(m.btn(0), 0);
    assert_eq!(m.btn(-1), 1 | 32);
    m.key_set_down(32, true);
    assert_eq!(m.btn(-1), 1 | 16 | 32);
    assert_eq!(m.btn(300), 0);
    m.key_clear_down();
    assert_eq!(m.btn(-1), 0);
}

#[test]
fn keymap_lookup_follows_the_layout() {
    let mut m = Machine::new();
    assert_eq!(m.keyboard_id(), 1);
    assert_eq!(m.keymap_lookup(0x1f, true, false), b'"');
    m.keyboard_id = 0;
    assert_eq!(m.keymap_lookup(0x1f, true, false), b'@');
}

#[test]
fn pixels_set_clear_flip_and_read() {
    let mut m = Machine::new();
    m.screen_pset(3, 1, 1);
    assert_eq!(m.screen_get(1, 0), 0x80 | 8);
    assert_eq!(m.screen_pset(3, 1, 3), 1);
    assert_eq!(m.screen_pset(2, 1, 3), 0);
    m.screen_pset(3, 1, 2);
    assert_eq!(m.screen_get(1, 0), 0x80);
    m.screen_pset(2, 0, 1);
    m.screen_pset(2, 0, 0);
    assert_eq!(m.screen_get(1, 0), 0x80);
    assert_eq!(m.screen_pset(-1, 0, 1), 0);
    m.put_str("A");
    assert_eq!(m.screen_pset(0, 0, 3), 1);
}

#[test]
fn lines_draw_every_pixel_on_the_way() {
    let mut m = Machine::new();
    m.screen_line(0, 0, 3, 0, 1);
    assert_eq!(m.screen_get(0, 0), 0x80 | 3);
    assert_eq!(m.screen_get(1, 0), 0x80 | 3);
    m.screen_line(0, 2, 0, 5, 1);
    assert_eq!(m.screen_get(0, 1), 0x80 | 1 | 4);
    assert_eq!(m.screen_get(0, 2), 0x80 | 1 | 4);
}

#[test]
fn tick_counters_and_video() {
    let mut m = Machine::new();
    m.frames = 40000;
    m.video_line_count = 7;
    assert_eq!(m.tick_count(0), (40000 % 32768) as i16);
    assert_eq!(m.tick_count(1), 7);
    m.reset_tick_counters();
    assert_eq!(m.tick_count(0), 0);
    m.is_video_enabled = false;
    m.video_on();
    assert!(m.is_video_enabled);
    assert_eq!((m.screen_cols(), m.screen_rows()), (32, 24));
}

#[test]
fn power_on_prints_the_banner() {
    let mut m = Machine::new();
    m.var_set(102, 5);
    let font = vec![0u8; 2048];
    m.power_on_reset(&font);
    assert_eq!(vram_line(&m, 0), "IchigoCrate BASIC 1.0");
    assert_eq!((m.cursorx, m.cursory), (0, 1));
    assert_eq!(m.var_get(102), 0);
    assert_eq!(m.pc, PC_NULL);
}

#[test]
fn beeps_and_tempo() {
    let mut m = Machine::new();
    assert_eq!(m.current_tone(), Tone::Silent);
    m.psg_beep(10, 3);
    assert_eq!(m.current_tone(), Tone::Beep(10));
    assert!(m.psg_sound());
    m.psg_tick();
    m.psg_tick();
    m.psg_tick();
    m.psg_tick();
    assert!(!m.psg_sound());
    assert_eq!(m.current_tone(), Tone::Silent);
    m.psg_tempo(200);
    assert_eq!(m.psg.tempo, 200);
}

#[test]
fn mml_plays_notes_in_order() {
    let mut m = Machine::new();
    let at = 0x100;
    m.ram[at..at + 4].copy_from_slice(b"CDE\0");
    m.psg_play_mml(Some((OFFSET_RAMROM + at) as i32));
    assert!(m.psg_sound());
    m.psg_tick();
    assert_eq!(m.current_tone(), Tone::Note(24));
    let mut guard = 0;
    while m.current_tone() == Tone::Note(24) && guard < 1000 {
        m.psg_tick();
        guard += 1;
    }
    assert_eq!(m.current_tone(), Tone::Note(26));
    m.psg_play_mml(None);
    assert!(!m.psg_sound());
    assert_eq!(m.current_tone(), Tone::Silent);
}

#[test]
fn helpers_divide_like_rust() {
    assert_eq!(calc_div(7, 2), 3);
    assert_eq!(calc_div(-7, 2), -3);
    assert_eq!(calc_mod(-7, 2), -1);
    assert_eq!(calc_mod(7, -2), 1);
    assert_eq!(basic_toupper(b'q'), b'Q');
    assert_eq!(basic_toupper(b'1'), b'1');
    assert_eq!(strlen8(b"ABC\0DE", 0), 3);
    assert_eq!(strlen8(b"ABC", 1), 2);
    assert_eq!(strlen8(b"ABC", 5), 0);
}

#[test]
fn copy_moves_bytes_up_and_down() {
    let mut m = Machine::new();
    let font = vec![0u8; 2048];
    for i in 0..8u8 {
        m.ram[0x100 + i as usize] = i + 1;
    }
    let src = (OFFSET_RAMROM + 0x100) as i16;
    let dst = (OFFSET_RAMROM + 0x200) as i16;
    m.memory_copy(&font, dst, src, 8);
    assert_eq!(&m.ram[0x200..0x208], &[1, 2, 3, 4, 5, 6, 7, 8]);
    m.memory_copy(&font, dst + 20, src + 7, -3);
    assert_eq!(&m.ram[0x212..0x215], &[6, 7, 8]);
    // overlapping upwards copy repeats the first byte
    m.memory_copy(&font, src + 1, src, 3);
    assert_eq!(&m.ram[0x100..0x104], &[1, 1, 1, 1]);
}

#[test]
fn hex_and_bin_digits() {
    let mut m = Machine::new();
    m.print_radix(0xff, 0, 4);
    m.put_chr(b' ');
    m.print_radix(0xa, 4, 4);
    m.put_chr(b' ');
    m.print_radix(5, 0, 1);
    m.put_chr(b' ');
    m.print_radix(5, 4, 1);
    m.put_chr(b' ');
    m.print_radix(0, 0, 4);
    m.print_radix(7, -1, 4);
    assert_eq!(vram_line(&m, 0), "FF 000A 101 0101 0");
}

#[test]
fn files_entries_show_the_first_line() {
    let mut m = Machine::new();
    let mut buf = [0u8; 32];
    buf[0] = 10;
    buf[1] = 0;
    buf[2] = 4;
    buf[3..7].copy_from_slice(b"?\"A\"");
    m.put_files_entry(3, Some(32), &buf);
    m.put_files_entry(4, None, &buf);
    m.put_files_entry(5, Some(10), &buf);
    assert_eq!(vram_line(&m, 0), "3 ?\"A\"");
    assert_eq!(vram_line(&m, 1), "4");
    assert_eq!(vram_line(&m, 2), "5");
}

#[test]
fn lines_typed_out_of_order_are_kept_sorted() {
    let mut m = Machine::new();
    for n in [50i16, 10, 40, 20, 30] {
        edit(&mut m, n, "X").unwrap();
    }
    assert_eq!(line_numbers(&m), vec![10, 20, 30, 40, 50]);
    let size = m.list_size as usize;
    let data = m.ram[OFFSET_RAM_LIST..OFFSET_RAM_LIST + size].to_vec();
    let mut n = Machine::new();
    assert_eq!(n.list_load(0, &data), Ok(size as u16));
}

#[test]
fn a_full_list_refuses_more_lines() {
    let mut m = Machine::new();
    let text = "A".repeat(150);
    let mut n = 1i16;
    loop {
        match edit(&mut m, n, &text) {
            Ok(()) => n += 1,
            Err(e) => {
                assert_eq!(e, BasicError::OutOfMemory);
                break;
            }
        }
    }
    assert!(n > 1);
    assert!(m.list_size as usize + 2 <= 1026);
}

#[test]
fn new_clears_program_and_reloads_pcg() {
    let mut m = Machine::new();
    edit(&mut m, 10, "?1").unwrap();
    m.ram[OFFSET_RAM_VAR] = 7;
    m.break_resume_pc = OFFSET_RAM_LIST + 3;
    let font: Vec<u8> = (0..2048u32).map(|i| (i % 251) as u8).collect();
    m.basic_init(&font);
    assert_eq!(m.list_size, 0);
    assert_eq!(m.list_get_number(0), 0);
    assert_eq!(m.ram[OFFSET_RAM_VAR], 0);
    assert_eq!(m.pc, PC_NULL);
    assert_eq!(m.break_resume_pc, PC_NULL);
    assert_eq!(&m.ram[0..256], &font[1792..2048]);
}
