use ichigocrate::errors::BasicError;
use ichigocrate::machine::Machine;
use ichigocrate::ram::{OFFSET_RAM_LINEBUF, OFFSET_RAM_LIST};

/// Puts `text` into LINEBUF as the interpreter leaves it after reading a line
/// number, and edits the LIST with it.
fn store(m: &mut Machine, number: i16, text: &str) {
    let bytes = text.as_bytes();
    let base = OFFSET_RAM_LINEBUF;
    m.ram[base] = b' ';
    m.ram[base + 1..base + 1 + bytes.len()].copy_from_slice(bytes);
    m.ram[base + 1 + bytes.len()] = 0;
    m.pc = base + 1;
    m.command_edit(number).unwrap();
}

/// The program as (number, text) pairs.
fn program(m: &Machine) -> Vec<(i16, String)> {
    let mut v = Vec::new();
    let mut idx: u16 = 0;
    loop {
        let n = m.list_get_number(idx);
        if n == 0 {
            break;
        }
        let start = OFFSET_RAM_LIST + idx as usize + 3;
        let text: String = m.ram[start..]
            .iter()
            .take_while(|&&c| c != 0)
            .map(|&c| c as char)
            .collect();
        v.push((n, text));
        idx += m.list_get_length(idx) as u16 + 4;
    }
    v
}

#[test]
fn renum_renumbers_line_numbers_only() {
    let mut m = Machine::new();
    store(&mut m, 5, "?\"A\"");
    store(&mut m, 7, "?\"B\"");
    store(&mut m, 99, "?\"C\"");
    assert_eq!(m.renumber(10, 10), Ok(()));
    assert_eq!(m.list_get_number(0), 10);
    let mut idx = m.list_get_length(0) as u16 + 4;
    assert_eq!(m.list_get_number(idx), 20);
    idx += m.list_get_length(idx) as u16 + 4;
    assert_eq!(m.list_get_number(idx), 30);
}

#[test]
fn renum_rewrites_goto_and_gosub_references() {
    let mut m = Machine::new();
    store(&mut m, 10, "GOTO 30");
    store(&mut m, 20, "?\"MID\"");
    store(&mut m, 30, "GOSUB 20");
    store(&mut m, 40, "GOTO 10");
    assert_eq!(m.renumber(50, 10), Ok(()));
    assert_eq!(
        program(&m),
        vec![
            (50, "GOTO 70".to_string()),
            (60, "?\"MID\"".to_string()),
            (70, "GOSUB 60".to_string()),
            (80, "GOTO 50".to_string()),
        ]
    );

    let mut m = Machine::new();
    store(&mut m, 100, "GOTO 300");
    store(&mut m, 200, "?\"OK\"");
    store(&mut m, 300, "GOSUB 200");
    assert_eq!(m.renumber(1, 1), Ok(()));
    assert_eq!(
        program(&m),
        vec![
            (1, "GOTO 3  ".to_string()),
            (2, "?\"OK\"".to_string()),
            (3, "GOSUB 2  ".to_string()),
        ]
    );
}

#[test]
fn renum_rejects_digit_overflow() {
    let mut m = Machine::new();
    store(&mut m, 5, "GOTO 5");
    let before = m.ram.clone();
    assert_eq!(m.renumber(100, 100), Err(BasicError::IllegalArgument));
    assert_eq!(m.ram, before);
}

#[test]
fn renum_rejects_non_positive_args() {
    let mut m = Machine::new();
    store(&mut m, 10, "?\"X\"");
    assert_eq!(m.renumber(0, 10), Err(BasicError::IllegalArgument));
    assert_eq!(m.renumber(10, 0), Err(BasicError::IllegalArgument));
}

#[test]
fn renum_leaves_strings_and_unknown_targets_alone() {
    let mut m = Machine::new();
    store(&mut m, 10, "?\"GOTO 20\":goto 20");
    store(&mut m, 20, "GOSUB 99:GOTO20");
    assert_eq!(m.renumber(10, 5), Ok(()));
    assert_eq!(
        program(&m),
        vec![
            (10, "?\"GOTO 20\":goto 15".to_string()),
            (15, "GOSUB 99:GOTO15".to_string()),
        ]
    );
    // a reference with no room for its new number refuses the whole RENUM
    assert_eq!(m.renumber(100, 5), Err(BasicError::IllegalArgument));
    assert_eq!(program(&m)[0].0, 10);
}
