use ichigocrate::keycodes as kc;
use ichigocrate::keymap::{build_ja, build_us, empty_table, lookup};

#[test]
fn shift_2_differs_between_layouts() {
    assert_eq!(lookup(0, 0x1f, true, false), b'@');
    assert_eq!(lookup(1, 0x1f, true, false), b'"');
}

#[test]
fn alpha_uppercase_via_shift_col() {
    assert_eq!(lookup(0, 0x04, false, false), b'a');
    assert_eq!(lookup(0, 0x04, true, false), b'A');
    assert_eq!(lookup(1, 0x04, false, false), b'a');
    assert_eq!(lookup(1, 0x04, true, false), b'A');
}

#[test]
fn alt_letter_yields_graphic_char() {
    assert_eq!(lookup(0, 0x04, false, true), 234);
    assert_eq!(lookup(0, 0x04, true, true), 138);
    assert_eq!(lookup(1, 0x04, false, true), 234);
}

#[test]
fn symbol_row_differs_between_layouts() {
    assert_eq!(lookup(0, 0x2f, false, false), b'[');
    assert_eq!(lookup(1, 0x2f, false, false), b'@');
    assert_eq!(lookup(0, 0x2f, true, false), b'{');
    assert_eq!(lookup(1, 0x2f, true, false), b'`');
    assert_eq!(lookup(0, 0x34, true, false), b'"');
    assert_eq!(lookup(1, 0x34, true, false), b'*');
}

#[test]
fn out_of_range_hid_returns_zero() {
    assert_eq!(lookup(0, 0x7f, false, false), 0);
    assert_eq!(lookup(0, 0xff, true, true), 0);
}

#[test]
fn control_keys_table_driven() {
    assert_eq!(lookup(0, 0x4f, false, false), kc::CURSOR_RIGHT);
    assert_eq!(lookup(0, 0x52, false, false), kc::CURSOR_UP);
    assert_eq!(lookup(0, 0x2a, false, false), kc::BACKSPACE);
    assert_eq!(lookup(0, 0x28, false, false), b'\n');
}

#[test]
fn tables_have_128_rows_and_agree_with_lookup() {
    let us = build_us();
    let ja = build_ja();
    assert_eq!(us.len(), 128);
    assert_eq!(ja.len(), 128);
    assert_eq!(empty_table().len(), 128);
    assert!(empty_table().iter().all(|row| *row == [0u8; 4]));
    for hid in 0..128u8 {
        for col in 0..4usize {
            let shift = col & 1 == 1;
            let alt = col & 2 == 2;
            assert_eq!(us[hid as usize][col], lookup(0, hid, shift, alt));
            assert_eq!(ja[hid as usize][col], lookup(1, hid, shift, alt));
        }
    }
}

#[test]
fn letters_are_the_same_in_both_layouts() {
    for hid in 0x04..=0x1du8 {
        for col in 0..4usize {
            let shift = col & 1 == 1;
            let alt = col & 2 == 2;
            assert_eq!(lookup(0, hid, shift, alt), lookup(1, hid, shift, alt));
        }
        assert_eq!(lookup(0, hid, true, false), b'A' + (hid - 0x04));
    }
}

#[test]
fn any_nonzero_layout_id_reads_the_japanese_table() {
    assert_eq!(lookup(7, 0x1f, true, false), lookup(1, 0x1f, true, false));
    assert_eq!(lookup(255, 0x2f, false, false), b'@');
}

#[test]
fn ja_layout_differs_from_us_only_on_symbols() {
    let us = build_us();
    let ja = build_ja();
    for h in 0..128usize {
        for c in 0..4 {
            let shifted_digit = (0x1e..=0x27).contains(&h) && c == 1;
            let symbol = (0x2d..=0x38).contains(&h);
            if !shifted_digit && !symbol {
                assert_eq!(ja[h][c], us[h][c], "hid {h:#x} col {c}");
            }
        }
    }
    assert_eq!(ja[0x1f][1], b'"');
    assert_eq!(us[0x1f][1], b'@');
}
