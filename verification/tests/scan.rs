use ichigocrate::machine::Machine;
use ichigocrate::ram::OFFSET_RAM_LINEBUF;
use ichigocrate::scan::Literal;

/// Puts `text` at LINEBUF, points the program counter at it and reads one
/// literal; returns it and how far reading went.
fn read(text: &str) -> (Literal, usize) {
    let mut m = Machine::new();
    let base = OFFSET_RAM_LINEBUF;
    m.ram[base..base + text.len()].copy_from_slice(text.as_bytes());
    m.ram[base + text.len()] = 0;
    m.pc = base;
    let lit = m.scan_number();
    (lit, m.pc - base)
}

#[test]
fn decimal_literals_skip_spaces_and_wrap() {
    assert_eq!(read("12 3:"), (Literal::Number(123), 4));
    assert_eq!(read("  7+1"), (Literal::Number(7), 3));
    assert_eq!(read("40000"), (Literal::Number(-25536), 5));
}

#[test]
fn hex_and_binary_literals() {
    assert_eq!(read("#1f"), (Literal::Number(31), 3));
    assert_eq!(read("#FFFF"), (Literal::Number(-1), 5));
    assert_eq!(read("#1AND 3"), (Literal::Number(1), 2));
    assert_eq!(read("`101"), (Literal::Number(5), 4));
    assert_eq!(read("#G"), (Literal::Malformed, 1));
    assert_eq!(read("`2"), (Literal::Malformed, 1));
}

#[test]
fn other_characters_are_left_unread() {
    assert_eq!(read(" X=1"), (Literal::NotNumber, 1));
    assert_eq!(read(":1"), (Literal::NotNumber, 0));
}

#[test]
fn token_get_char_upper_cases_and_stops_at_colon() {
    let mut m = Machine::new();
    let base = OFFSET_RAM_LINEBUF;
    m.ram[base..base + 4].copy_from_slice(b"  a:");
    m.pc = base;
    assert_eq!(m.token_get_char(), b'A');
    assert_eq!(m.pc, base + 2);
    m.pc += 1;
    assert_eq!(m.token_get_char(), 0);
    assert_eq!(m.pc, base + 3);
}
