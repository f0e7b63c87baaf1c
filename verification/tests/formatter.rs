use thumbor::formatter::{Formatter, HtmlFormatter, MarkdownFormatter, RustFormatter};

#[test]
fn formatter_should_work() {
    let formatter1: &dyn Formatter = &RustFormatter;
    let formatter2: &dyn Formatter = &HtmlFormatter;
    let formatters = vec![formatter1, formatter2];
    let mut input = "hello world".to_string();
    thumbor::formatter::format(&mut input, formatters);
    assert_eq!(
        input,
        "hello world\n formatted with Rust formatter\n formatted with Html formatter"
    );
}

#[test]
fn no_formatter_leaves_the_text() {
    let mut input = "as it is".to_string();
    thumbor::formatter::format(&mut input, Vec::new());
    assert_eq!(input, "as it is");
}

#[test]
fn formatters_work_in_their_order() {
    let markdown: &dyn Formatter = &MarkdownFormatter;
    let rust: &dyn Formatter = &RustFormatter;
    let mut input = String::new();
    thumbor::formatter::format(&mut input, vec![markdown, rust, markdown]);
    assert_eq!(
        input,
        "\n formatted with Markdown formatter\n formatted with Rust formatter\n formatted with Markdown formatter"
    );
}

#[test]
fn each_formatter_reports_that_it_worked() {
    let mut input = "x".to_string();
    assert!(MarkdownFormatter.format(&mut input));
    assert!(RustFormatter.format(&mut input));
    assert!(HtmlFormatter.format(&mut input));
    assert_eq!(
        input,
        "x\n formatted with Markdown formatter\n formatted with Rust formatter\n formatted with Html formatter"
    );
}
