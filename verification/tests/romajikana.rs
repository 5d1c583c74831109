use ichigocrate::romajikana::{romajikana_input, KanaOutput};

fn type_str(s: &str) -> Vec<u8> {
    let mut buf0 = 0u8;
    let mut buf1 = 0u8;
    let mut emitted: Vec<u8> = Vec::new();
    for c in s.bytes() {
        let r = romajikana_input(&mut buf0, &mut buf1, c);
        for &b in r.as_slice() {
            if b == 8 {
                emitted.pop();
            } else {
                emitted.push(b);
            }
        }
    }
    emitted
}

#[test]
fn vowels() {
    assert_eq!(type_str("AIUEO"), vec![0xb1, 0xb2, 0xb3, 0xb4, 0xb5]);
}

#[test]
fn ka_row() {
    assert_eq!(type_str("KAKIKUKEKO"), vec![0xb6, 0xb7, 0xb8, 0xb9, 0xba]);
}

#[test]
fn shi_chi_tsu() {
    assert_eq!(type_str("SHI"), vec![0xbc]);
    assert_eq!(type_str("CHI"), vec![0xc1]);
    assert_eq!(type_str("TSU"), vec![0xc2]);
}

#[test]
fn n_double() {
    assert_eq!(type_str("NN"), vec![0xdd]);
    assert_eq!(type_str("NA"), vec![0xc5]);
    assert_eq!(type_str("NKA"), vec![0xdd, 0xb6]);
}

#[test]
fn small_tsu() {
    assert_eq!(type_str("KKA"), vec![0xaf, 0xb6]);
    assert_eq!(type_str("TTA"), vec![0xaf, 0xc0]);
}

#[test]
fn dakuten_handakuten() {
    assert_eq!(type_str("GA"), vec![0xb6, 0xde]);
    assert_eq!(type_str("PA"), vec![0xca, 0xdf]);
    assert_eq!(type_str("BA"), vec![0xca, 0xde]);
    assert_eq!(type_str("ZA"), vec![0xbb, 0xde]);
    assert_eq!(type_str("DA"), vec![0xc0, 0xde]);
}

#[test]
fn youon() {
    assert_eq!(type_str("KYA"), vec![0xb7, 0xac]);
    assert_eq!(type_str("SHA"), vec![0xbc, 0xac]);
    assert_eq!(type_str("CHA"), vec![0xc1, 0xac]);
    assert_eq!(type_str("JA"), vec![0xbc, 0xde, 0xac]);
}

#[test]
fn fa_fi_fe_fo() {
    assert_eq!(type_str("FA"), vec![0xcc, 0xa7]);
    assert_eq!(type_str("FI"), vec![0xcc, 0xa8]);
    assert_eq!(type_str("FU"), vec![0xcc]);
}

#[test]
fn wa_wo() {
    assert_eq!(type_str("WA"), vec![0xdc]);
    assert_eq!(type_str("WO"), vec![0xa6]);
    assert_eq!(type_str("WI"), vec![0xb3, 0xa8]);
}

#[test]
fn xtu_ltu() {
    assert_eq!(type_str("XTU"), vec![0xaf]);
    assert_eq!(type_str("LTU"), vec![0xaf]);
}

#[test]
fn punctuation() {
    assert_eq!(type_str("."), vec![0xa1]);
    assert_eq!(type_str(","), vec![0xa4]);
    assert_eq!(type_str("-"), vec![0xb0]);
    assert_eq!(type_str("["), vec![0xa2]);
    assert_eq!(type_str("]"), vec![0xa3]);
    assert_eq!(type_str("/"), vec![0xa5]);
}

#[test]
fn lower_case_types_like_upper_case() {
    assert_eq!(type_str("ka"), type_str("KA"));
    assert_eq!(type_str("shi"), vec![0xbc]);
}

#[test]
fn pending_letters_are_echoed_and_then_erased() {
    let mut b0 = 0u8;
    let mut b1 = 0u8;
    let r = romajikana_input(&mut b0, &mut b1, b'K');
    assert_eq!(r.as_slice(), &[b'K']);
    assert_eq!((b0, b1), (b'K', 0));
    let r = romajikana_input(&mut b0, &mut b1, b'A');
    assert_eq!(r.as_slice(), &[8, 0xb6]);
    assert_eq!((b0, b1), (0, 0));
}

#[test]
fn kana_output_buffer_basics() {
    let mut out = KanaOutput::default();
    assert!(out.is_empty());
    out.push(1);
    out.push(2);
    assert!(!out.is_empty());
    assert_eq!(out.len(), 2);
    assert_eq!(out.as_slice(), &[1, 2]);
}

#[test]
fn kana_output_reads_back_in_order() {
    let mut b0 = 0u8;
    let mut b1 = 0u8;
    let _ = romajikana_input(&mut b0, &mut b1, b'K');
    let out = romajikana_input(&mut b0, &mut b1, b'A');
    assert_eq!(out.to_vec(), out.as_slice().to_vec());
    let collected: Vec<u8> = (0..out.len()).map(|i| out.get(i).unwrap()).collect();
    assert_eq!(collected, out.as_slice().to_vec());
    assert_eq!(out.get(out.len()), None);
    assert!(KanaOutput::default().as_slice().is_empty());
    assert!(KanaOutput::default().to_vec().is_empty());
}
