use thumbor::slices::char_len;

#[test]
fn char_len_is_the_length_of_the_encoding() {
    assert_eq!(1, char_len('\0'));
    assert_eq!(1, char_len('a'));
    assert_eq!(1, char_len('\u{7f}'));
    assert_eq!(2, char_len('\u{80}'));
    assert_eq!(2, char_len('é'));
    assert_eq!(2, char_len('\u{7ff}'));
    assert_eq!(3, char_len('\u{800}'));
    assert_eq!(3, char_len('世'));
    assert_eq!(3, char_len('\u{ffff}'));
    assert_eq!(4, char_len('\u{10000}'));
    assert_eq!(4, char_len('\u{10ffff}'));
}

#[test]
fn char_len_agrees_with_the_standard_library() {
    let mut code = 0u32;
    while code <= 0x10ffff {
        if let Some(c) = char::from_u32(code) {
            assert_eq!(c.len_utf8(), char_len(c));
        }
        code += 97;
    }
}
