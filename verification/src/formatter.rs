//! Formatters: steps that rewrite a text in place, applied one after another.

use vstd::prelude::*;
use vstd::string::StringExecFns;

verus! {

/// A step that rewrites a text.
pub trait Formatter {
    /// The text that this formatter makes of `input`.
    spec fn formatted(&self, input: Seq<char>) -> Seq<char>;

    /// Rewrites `input` in place, and tells whether it did.
    fn format(&self, input: &mut String) -> (done: bool)
        ensures
            final(input)@ == self.formatted(old(input)@),
    ;
}

/// Marks a text as formatted for Markdown.
pub struct MarkdownFormatter;

/// Marks a text as formatted for Rust.
pub struct RustFormatter;

/// Marks a text as formatted for HTML.
pub struct HtmlFormatter;

impl Formatter for MarkdownFormatter {
    open spec fn formatted(&self, input: Seq<char>) -> Seq<char> {
        input + "\n formatted with Markdown formatter"@
    }

    fn format(&self, input: &mut String) -> (done: bool)
        ensures
            done,
    {
        input.append("\n formatted with Markdown formatter");
        true
    }
}

impl Formatter for RustFormatter {
    open spec fn formatted(&self, input: Seq<char>) -> Seq<char> {
        input + "\n formatted with Rust formatter"@
    }

    fn format(&self, input: &mut String) -> (done: bool)
        ensures
            done,
    {
        input.append("\n formatted with Rust formatter");
        true
    }
}

impl Formatter for HtmlFormatter {
    open spec fn formatted(&self, input: Seq<char>) -> Seq<char> {
        input + "\n formatted with Html formatter"@
    }

    fn format(&self, input: &mut String) -> (done: bool)
        ensures
            done,
    {
        input.append("\n formatted with Html formatter");
        true
    }
}

/// The text that the first `count` of `formatters`, applied in their order,
/// make of `input`.
pub open spec fn formatted_by(formatters: Seq<&dyn Formatter>, count: int, input: Seq<char>) -> Seq<
    char,
>
    decreases count,
{
    if count <= 0 {
        input
    } else {
        formatters[count - 1].formatted(formatted_by(formatters, count - 1, input))
    }
}

/// Applies `formatters` to `input`, in their order.
pub fn format(input: &mut String, formatters: Vec<&dyn Formatter>)
    ensures
        final(input)@ == formatted_by(formatters@, formatters@.len() as int, old(input)@),
{
    let mut i: usize = 0;
    while i < formatters.len()
        invariant
            i <= formatters.len(),
            input@ == formatted_by(formatters@, i as int, old(input)@),
        decreases formatters.len() - i,
    {
        formatters[i].format(input);
        i += 1;
    }
}

} // verus!
