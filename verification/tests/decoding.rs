use transmute_txt::decode::{auto_decode, detect_bom, TextEncoding};

#[test]
fn utf8_bom_is_removed() {
    let raw = [0xEF, 0xBB, 0xBF, b'h', b'i'];
    assert_eq!(auto_decode(&raw), Ok("hi".to_string()));
    assert_eq!(detect_bom(&raw), Some((TextEncoding::Utf8, 3)));
}

#[test]
fn utf16_boms_choose_the_byte_order() {
    let le = [0xFF, 0xFE, 0x2D, 0x4E, 0x41, 0x00];
    assert_eq!(auto_decode(&le), Ok("中A".to_string()));
    assert_eq!(detect_bom(&le), Some((TextEncoding::Utf16Le, 2)));
    let be = [0xFE, 0xFF, 0x4E, 0x2D, 0x00, 0x41];
    assert_eq!(auto_decode(&be), Ok("中A".to_string()));
    assert_eq!(detect_bom(&be), Some((TextEncoding::Utf16Be, 2)));
}

#[test]
fn valid_utf8_without_bom() {
    let text = "第一章 正文";
    assert_eq!(auto_decode(text.as_bytes()), Ok(text.to_string()));
    assert_eq!(detect_bom(text.as_bytes()), None);
    assert_eq!(auto_decode(&[]), Ok(String::new()));
}

#[test]
fn invalid_utf8_falls_back_to_gbk() {
    // "中文" in GBK
    let raw = [0xD6, 0xD0, 0xCE, 0xC4];
    assert_eq!(auto_decode(&raw), Ok("中文".to_string()));
}

#[test]
fn short_inputs_have_no_bom() {
    assert_eq!(detect_bom(&[0xEF, 0xBB]), None);
    assert_eq!(detect_bom(&[0xFF]), None);
}

#[test]
fn leading_feff_is_taken_as_a_bom() {
    let text = "\u{FEFF}第一章";
    assert_eq!(auto_decode(text.as_bytes()), Ok("第一章".to_string()));
}
