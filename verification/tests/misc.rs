use ichigocrate::errors::BasicError;
use ichigocrate::expr::shift_signed;
use ichigocrate::session::{fkey_binding, is_edit_control_code};
use ichigocrate::sin::sin360;
use ichigocrate::text::str_equals;

#[test]
fn error_codes_round_trip() {
    for code in 1..=12u8 {
        let e = BasicError::from_code(code).unwrap();
        assert_eq!(e.code(), code);
    }
    assert_eq!(BasicError::from_code(0), None);
    assert_eq!(BasicError::from_code(13), None);
    assert_eq!(BasicError::SyntaxError.code(), 1);
    assert_eq!(BasicError::Break.code(), 12);
    assert_eq!(BasicError::DivideByZero.message(), "Divide by 0");
    assert_eq!(BasicError::UndefinedLine.message(), "Line error");
}

#[test]
fn sine_table_in_degrees() {
    assert_eq!(sin360(0), 0);
    assert_eq!(sin360(90), 256);
    assert_eq!(sin360(180), 0);
    assert_eq!(sin360(270), -256);
    assert_eq!(sin360(30), 128);
    assert_eq!(sin360(-90), -256);
    assert_eq!(sin360(450), 256);
    assert_eq!(sin360(-30), -sin360(30));
}

#[test]
fn signed_shifts() {
    assert_eq!(shift_signed(1, 3, false), 8);
    assert_eq!(shift_signed(-16, 2, true), 16380);
    assert_eq!(shift_signed(1, -3, true), 8);
    assert_eq!(shift_signed(1, 16, false), 0);
    assert_eq!(shift_signed(5, 0, true), 5);
}

#[test]
fn function_keys_and_edit_codes() {
    assert_eq!(fkey_binding(1), Some(("CLS", true)));
    assert_eq!(fkey_binding(9), Some(("FILES", true)));
    assert_eq!(fkey_binding(0), None);
    assert_eq!(fkey_binding(10), None);
    assert!(is_edit_control_code(8));
    assert!(!is_edit_control_code(b'A'));
}

#[test]
fn string_equality() {
    assert!(str_equals("F1", "F1"));
    assert!(!str_equals("F1", "F10"));
}
