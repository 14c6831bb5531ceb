use jvm::class_file::ParseError;

#[test]
fn lib_it_works() {}

#[test]
fn mod_it_works() {}

#[test]
fn parse_error_is_comparable() {
    assert_eq!(ParseError::UnknownTag(2), ParseError::UnknownTag(2));
    assert_ne!(ParseError::WrongMagic, ParseError::TrailingBytes);
}
