use thumbor::text::{chars_of, contains, find_from, head_is, lowered, starts_with, to_lower};

fn chars(text: &str) -> Vec<char> {
    text.chars().collect()
}

#[test]
fn chars_of_gives_the_characters_in_order() {
    assert_eq!(Vec::<char>::new(), chars_of(""));
    assert_eq!(vec!['a', 'é', '世', '\n'], chars_of("aé世\n"));
}

#[test]
fn starts_with_compares_from_the_first_character() {
    assert!(starts_with(&chars("file:///tmp"), "file://"));
    assert!(starts_with(&chars("file://"), "file://"));
    assert!(starts_with(&chars("anything"), ""));
    assert!(starts_with(&chars(""), ""));
    assert!(!starts_with(&chars("file:/"), "file://"));
    assert!(!starts_with(&chars("xfile://"), "file://"));
    assert!(!starts_with(&chars(""), "f"));
}

#[test]
fn head_is_compares_a_prefix_of_given_length() {
    assert!(head_is(&chars("http://x"), 4, "http"));
    assert!(!head_is(&chars("http://x"), 5, "http"));
    assert!(!head_is(&chars("http://x"), 3, "http"));
    assert!(!head_is(&chars("https://x"), 5, "http:"));
    assert!(head_is(&chars("abc"), 0, ""));
    assert!(head_is(&chars("abc"), 3, "abc"));
}

#[test]
fn contains_finds_a_text_anywhere() {
    assert!(contains(&chars("safe, fast, productive."), &chars("duct")));
    assert!(contains(&chars("abc"), &chars("abc")));
    assert!(contains(&chars("abc"), &chars("c")));
    assert!(contains(&chars("abc"), &chars("")));
    assert!(contains(&chars(""), &chars("")));
    assert!(contains(&chars("aab"), &chars("ab")));
    assert!(!contains(&chars("abc"), &chars("abcd")));
    assert!(!contains(&chars("abc"), &chars("ca")));
    assert!(!contains(&chars(""), &chars("a")));
}

#[test]
fn lower_case_touches_ascii_letters_only() {
    assert_eq!('a', to_lower('A'));
    assert_eq!('z', to_lower('Z'));
    assert_eq!('m', to_lower('m'));
    assert_eq!('@', to_lower('@'));
    assert_eq!('[', to_lower('['));
    assert_eq!('É', to_lower('É'));
    assert_eq!(chars("duct tape 9 É"), lowered(&chars("DuCt TAPE 9 É")));
    for code in 0..=0x7fu8 {
        assert_eq!((code as char).to_ascii_lowercase(), to_lower(code as char));
    }
}

#[test]
fn find_from_gives_the_first_mark_or_the_length() {
    let text = chars("a:b:c");
    assert_eq!(1, find_from(&text, 0, ':'));
    assert_eq!(1, find_from(&text, 1, ':'));
    assert_eq!(3, find_from(&text, 2, ':'));
    assert_eq!(5, find_from(&text, 4, ':'));
    assert_eq!(5, find_from(&text, 5, ':'));
    assert_eq!(5, find_from(&text, 0, '!'));
    assert_eq!(0, find_from(&chars(""), 0, ':'));
}
