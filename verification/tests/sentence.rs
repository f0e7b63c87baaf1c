use thumbor::sentence::SentenceIter;

#[test]
fn iterator_should_work() {
    let mut s = "This is the 1st sentence. This is the second sentence.";
    let mut iter = SentenceIter::new(&mut s, '.');
    assert_eq!(iter.next(), Some("This is the 1st sentence."));
    assert_eq!(iter.next(), Some("This is the second sentence."));
    assert_eq!(iter.next(), None);

    let mut s1 = "a。 b。 c";
    let sentences: Vec<_> = SentenceIter::new(&mut s1, '。').collect();
    println!("setences: {:?}", sentences);
}

#[test]
fn sentences_are_trimmed_and_the_last_needs_no_delimiter() {
    let mut s1 = "a。 b。 c";
    let sentences: Vec<_> = SentenceIter::new(&mut s1, '。').collect();
    assert_eq!(vec!["a。", "b。", "c"], sentences);
}

#[test]
fn white_space_alone_is_no_last_sentence() {
    let mut text = "  one ;\ttwo;  \n ";
    let mut iter = SentenceIter::new(&mut text, ';');
    assert_eq!(iter.next(), Some("one ;"));
    assert_eq!(iter.next(), Some("two;"));
    assert_eq!(iter.next(), None);
    assert_eq!(iter.next(), None);
}

#[test]
fn a_delimiter_alone_is_a_sentence() {
    let mut text = "a!! !b";
    let sentences = SentenceIter::new(&mut text, '!').collect();
    assert_eq!(vec!["a!", "!", "!", "b"], sentences);
}

#[test]
fn the_empty_text_has_no_sentence() {
    let mut text = "";
    assert_eq!(SentenceIter::new(&mut text, '.').next(), None);
    let mut text = "";
    assert_eq!(Vec::<&str>::new(), SentenceIter::new(&mut text, '.').collect());
}

#[test]
fn unicode_white_space_is_trimmed() {
    let mut text = "\u{a0}\u{2003}wide\u{3000}.\u{2028}";
    let sentences = SentenceIter::new(&mut text, '.').collect();
    assert_eq!(vec!["wide\u{3000}."], sentences);
}

#[test]
fn a_long_text_is_walked_once() {
    let mut long = String::new();
    for n in 0..50_000 {
        long.push_str("  sentence ");
        long.push_str(&n.to_string());
        long.push_str(" . ");
    }
    let mut text = long.as_str();
    let sentences = SentenceIter::new(&mut text, '.').collect();
    assert_eq!(50_000, sentences.len());
    assert_eq!("sentence 0 .", sentences[0]);
    assert_eq!("sentence 49999 .", sentences[49_999]);
}
