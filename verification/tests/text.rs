use jvm::class_file::constant_pool::ConstantInfo;
use jvm::text::{
    chars_of, push_decimal, push_hex_byte, push_signed_decimal, push_spaces,
    string_of,
};

#[test]
fn pushing_text() {
    let mut s = String::from("ab");
    push_spaces(&mut s, 2);
    push_decimal(&mut s, 7);
    assert_eq!(s, "ab  7");
}

#[test]
fn decimal_text() {
    let mut s = String::new();
    push_decimal(&mut s, 0);
    push_spaces(&mut s, 1);
    push_decimal(&mut s, 18446744073709551615);
    push_spaces(&mut s, 1);
    push_signed_decimal(&mut s, -9223372036854775808);
    push_spaces(&mut s, 1);
    push_signed_decimal(&mut s, 42);
    assert_eq!(s, "0 18446744073709551615 -9223372036854775808 42");
}

#[test]
fn hex_bytes() {
    let mut s = String::new();
    push_hex_byte(&mut s, 0x0A);
    push_hex_byte(&mut s, 0xFF);
    assert_eq!(s, "0AFF");
}

#[test]
fn utf8_decoding() {
    assert_eq!(ConstantInfo::Utf8("héllo".as_bytes().to_vec()).to_string(), "Utf8(\"héllo\")");
    assert_eq!(ConstantInfo::Utf8(vec![0xC3]).to_string(), "Utf8(<invalid utf8: [195]>)");
    assert_eq!(ConstantInfo::Utf8(vec![]).to_string(), "Utf8(\"\")");
}

#[test]
fn chars_and_substrings() {
    let chars = chars_of("añb");
    assert_eq!(chars, vec!['a', 'ñ', 'b']);
    assert_eq!(string_of(&chars, 1, 3), "ñb");
    assert_eq!(string_of(&chars, 2, 2), "");
}
