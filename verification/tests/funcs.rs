use ichigocrate::funcs::{abs_value, cos_value, sin_value};
use ichigocrate::machine::{Machine, PC_NULL};
use ichigocrate::ram::{OFFSET_RAMROM, OFFSET_RAM_LINEBUF, OFFSET_RAM_LIST, OFFSET_RAM_VAR};

fn store(m: &mut Machine, number: i16, text: &str) {
    let bytes = text.as_bytes();
    let base = OFFSET_RAM_LINEBUF;
    m.ram[base] = b' ';
    m.ram[base + 1..base + 1 + bytes.len()].copy_from_slice(bytes);
    m.ram[base + 1 + bytes.len()] = 0;
    m.pc = base + 1;
    m.command_edit(number).unwrap();
}

#[test]
fn abs_wraps_at_the_minimum() {
    assert_eq!(abs_value(-5), 5);
    assert_eq!(abs_value(7), 7);
    assert_eq!(abs_value(i16::MIN), i16::MIN);
}

#[test]
fn cos_is_sin_shifted_by_ninety_degrees() {
    assert_eq!(sin_value(90), 256);
    assert_eq!(cos_value(0), 256);
    assert_eq!(cos_value(90), 0);
    assert_eq!(cos_value(180), -256);
    assert_eq!(sin_value(-30), -sin_value(30));
}

#[test]
fn free_pos_and_ver() {
    let mut m = Machine::new();
    assert_eq!(m.free_bytes(), 1024);
    store(&mut m, 10, "?1");
    assert_eq!(m.free_bytes(), 1024 - m.list_size as i16);
    m.cursorx = 3;
    m.cursory = 2;
    assert_eq!(m.pos_value(1), 3);
    assert_eq!(m.pos_value(2), 2);
    assert_eq!(m.pos_value(3), 32);
    assert_eq!(m.pos_value(4), 24);
    assert_eq!(m.pos_value(0), 67);
    assert_eq!(m.ver_value(0), 14328);
    assert_eq!(m.ver_value(2), m.keyboard_id as i16);
    assert_eq!(m.ver_value(3), 1);
    assert_eq!(m.ver_value(4), 60);
    assert_eq!(m.ver_value(9), 4);
}

#[test]
fn len_counts_to_a_quote_or_nul() {
    let mut m = Machine::new();
    m.ram[OFFSET_RAM_VAR..OFFSET_RAM_VAR + 6].copy_from_slice(b"ABC\"DE");
    assert_eq!(m.len_at((OFFSET_RAMROM + OFFSET_RAM_VAR) as i16), 3);
    m.ram[OFFSET_RAM_VAR + 1] = 0;
    assert_eq!(m.len_at((OFFSET_RAMROM + OFFSET_RAM_VAR) as i16), 1);
    assert_eq!(m.len_at(100), 0);
}

#[test]
fn line_names_the_running_line() {
    let mut m = Machine::new();
    store(&mut m, 10, "?1");
    store(&mut m, 20, "?2");
    m.pc = PC_NULL;
    m.break_resume_pc = PC_NULL;
    assert_eq!(m.line_value(), 0);
    let second = m.list_get_length(0) as usize + 4;
    m.pc = OFFSET_RAM_LIST + second + 3;
    assert_eq!(m.line_value(), 20);
    m.pc = OFFSET_RAM_LIST + 3;
    assert_eq!(m.line_value(), 10);
    m.pc = PC_NULL;
    m.break_resume_pc = OFFSET_RAM_LIST + second;
    assert_eq!(m.line_value(), 20);
}
