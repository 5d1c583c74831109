use ichigocrate::errors::BasicError;
use ichigocrate::machine::Machine;
use ichigocrate::ram::{OFFSET_RAM_LINEBUF, OFFSET_RAM_LIST, OFFSET_RAM_VRAM, SCREEN_W};
use ichigocrate::storage::Storage;
use ichigocrate::web::storage::WebStorage;

fn store(m: &mut Machine, number: i16, text: &str) {
    let bytes = text.as_bytes();
    let base = OFFSET_RAM_LINEBUF;
    m.ram[base] = b' ';
    m.ram[base + 1..base + 1 + bytes.len()].copy_from_slice(bytes);
    m.ram[base + 1 + bytes.len()] = 0;
    m.pc = base + 1;
    m.command_edit(number).unwrap();
}

fn vram_line(m: &Machine, y: usize) -> String {
    let row = &m.ram[OFFSET_RAM_VRAM + y * SCREEN_W..OFFSET_RAM_VRAM + (y + 1) * SCREEN_W];
    row.iter().take_while(|&&c| c != 0).map(|&c| c as char).collect()
}

#[test]
fn load_program_reads_a_saved_slot_and_reports_it() {
    let mut m = Machine::new();
    store(&mut m, 10, "?\"HI\"");
    store(&mut m, 20, "GOTO 10");
    let size = m.list_size as usize;
    let data = m.ram[OFFSET_RAM_LIST..OFFSET_RAM_LIST + size].to_vec();
    let mut storage = WebStorage::new("t".to_string(), false);
    assert!(storage.save(3, &data));

    let mut n = Machine::new();
    assert_eq!(n.load_program(&mut storage, 3), Ok(size as u16));
    assert_eq!(n.list_size as usize, size);
    assert_eq!(n.last_file_slot, 3);
    assert_eq!(&n.ram[OFFSET_RAM_LIST..OFFSET_RAM_LIST + size], &data[..]);
    assert_eq!(vram_line(&n, 0), format!("Loaded {}byte", size));
}

#[test]
fn load_program_from_an_empty_slot_fails() {
    let mut m = Machine::new();
    store(&mut m, 10, "?1");
    let mut storage = WebStorage::new("t".to_string(), false);
    assert_eq!(m.load_program(&mut storage, 5), Err(BasicError::FileError));
    assert_eq!(m.list_size, 0);
    assert_eq!(m.list_get_number(0), 0);
    assert_eq!(m.load_into(5, None), Err(BasicError::FileError));
}

#[test]
fn quiet_mode_loads_without_a_report() {
    let mut m = Machine::new();
    m.is_quiet_mode = true;
    assert_eq!(m.load_into(1, Some(&[])), Ok(0));
    m.report_loaded(0);
    assert_eq!(vram_line(&m, 0), "");
}

#[test]
fn edit_takes_text_from_before_the_list() {
    let mut m = Machine::new();
    // a text in the variable area, ending with its NUL below the LIST
    let p = OFFSET_RAM_LIST - 10;
    m.ram[p..p + 3].copy_from_slice(b"?42");
    m.ram[p + 3] = 0;
    m.pc = p;
    assert_eq!(m.command_edit(30), Ok(()));
    assert_eq!(m.list_get_number(0), 30);
    assert_eq!(&m.ram[OFFSET_RAM_LIST + 3..OFFSET_RAM_LIST + 6], b"?42");
}

#[test]
fn save_then_load_reproduces_the_program() {
    let mut m = Machine::new();
    store(&mut m, 10, "?\"A\"");
    store(&mut m, 20, "GOSUB 10");
    let size = m.list_size;
    let mut storage = WebStorage::new("t".to_string(), false);
    assert_eq!(m.save_program(&mut storage, 7), Ok(()));
    assert_eq!(m.last_file_slot, 7);
    assert_eq!(vram_line(&m, 0), format!("Saved {}byte", size));

    let mut n = Machine::new();
    n.is_quiet_mode = true;
    assert_eq!(n.load_program(&mut storage, 7), Ok(size));
    assert_eq!(
        &n.ram[OFFSET_RAM_LIST..OFFSET_RAM_LIST + size as usize + 2],
        &m.ram[OFFSET_RAM_LIST..OFFSET_RAM_LIST + size as usize + 2]
    );
    assert_eq!(vram_line(&n, 0), "");
}

#[test]
fn files_lists_each_slot_with_its_first_line() {
    let mut m = Machine::new();
    store(&mut m, 10, "?\"A LONG FIRST LINE OF THIS PROGRAM\"");
    let mut storage = WebStorage::new("t".to_string(), false);
    assert_eq!(m.save_program(&mut storage, 1), Ok(()));
    assert!(storage.save(2, &[1, 2, 3]));
    let mut n = Machine::new();
    n.files_list(&mut storage, -1, 2);
    assert_eq!(vram_line(&n, 0), "0");
    assert_eq!(vram_line(&n, 1), "1 ?\"A LONG FIRST LINE OF THIS ");
    assert_eq!(vram_line(&n, 2), "2");
    assert_eq!(vram_line(&n, 3), "");
}
