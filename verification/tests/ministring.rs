use thumbor::ministring::{MiniString, MyString, MINI_STRING_MAX_LEN};

#[test]
fn short_texts_are_held_inline() {
    let s1 = MyString::from_str("hello world");
    assert!(matches!(s1, MyString::Inline(_)));
    assert_eq!("hello world", s1.as_str());

    let exactly = "a".repeat(MINI_STRING_MAX_LEN);
    let s2 = MyString::from_str(&exactly);
    assert!(matches!(s2, MyString::Inline(_)));
    assert_eq!(exactly, s2.as_str());
}

#[test]
fn long_texts_are_held_on_the_heap() {
    let text = "这是一个长度超过三十个字节的很长的字符串";
    let s2 = MyString::from_str(text);
    assert!(matches!(s2, MyString::Standard(_)));
    assert_eq!(text, s2.as_str());

    let longer = "a".repeat(MINI_STRING_MAX_LEN + 1);
    assert!(matches!(MyString::from_string(longer.clone()), MyString::Standard(_)));
    assert!(matches!(MyString::from_string("12345".to_owned()), MyString::Inline(_)));
}

#[test]
fn push_str_appends_and_moves_to_the_heap_when_the_text_outgrows_30_bytes() {
    let mut s4 = MyString::from_string("12345".to_owned());
    assert_eq!(5, s4.as_str().len());

    s4.push_str("67890");
    assert!(matches!(s4, MyString::Inline(_)));
    assert_eq!("1234567890", s4.as_str());

    s4.push_str("加到30个字节之上去观察内部的变化");
    assert!(matches!(s4, MyString::Standard(_)));
    assert_eq!("1234567890加到30个字节之上去观察内部的变化", s4.as_str());
    assert_eq!(27, s4.as_str().chars().count());

    s4.push_str("!");
    assert!(matches!(s4, MyString::Standard(_)));
    assert_eq!("1234567890加到30个字节之上去观察内部的变化!", s4.as_str());
}

#[test]
fn push_str_fills_the_inline_bytes_to_the_last() {
    let mut text = MyString::from_str(&"x".repeat(27));
    text.push_str("é");
    assert!(matches!(text, MyString::Inline(_)));
    text.push_str("y");
    assert!(matches!(text, MyString::Inline(_)));
    assert_eq!(format!("{}éy", "x".repeat(27)), text.as_str());
    text.push_str("");
    assert!(matches!(text, MyString::Inline(_)));
    text.push_str("z");
    assert!(matches!(text, MyString::Standard(_)));
    assert_eq!(format!("{}éyz", "x".repeat(27)), text.as_str());
}

#[test]
fn a_mini_string_holds_its_text() {
    let mini = MiniString::new("héllo");
    assert_eq!("héllo", mini.as_str());
    assert_eq!(6, mini.len());
    let empty = MiniString::new("");
    assert_eq!("", empty.as_str());
    assert_eq!(0, empty.len());
}
