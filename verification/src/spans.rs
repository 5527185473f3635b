//! Structures for working with styled text.

use vstd::prelude::*;
use crate::style::Style;

verus! {

/// Text with a specific style.
#[derive(Clone, Debug)]
pub struct Span {
    pub text: String,
    pub style: Style,
}

/// The value a [`Span`] stands for: its characters and its style.
pub struct SpanModel {
    pub text: Seq<char>,
    pub style: Style,
}

impl View for Span {
    type V = SpanModel;

    open spec fn view(&self) -> SpanModel {
        SpanModel { text: self.text@, style: self.style }
    }
}

impl Span {
    /// A span of `text` drawn in `style`.
    pub fn new(text: String, style: Style) -> (s: Span)
        ensures
            s@ == (SpanModel { text: text@, style }),
    {
        Span { text, style }
    }
}

impl From<String> for Span {
    /// Plain text becomes a span in the empty style.
    fn from(text: String) -> (s: Span) {
        Span { text, style: Style { fg: None } }
    }
}

impl vstd::std_specs::convert::FromSpecImpl<String> for Span {
    open spec fn obeys_from_spec() -> bool {
        true
    }

    open spec fn from_spec(text: String) -> Span {
        Span { text, style: Style { fg: None } }
    }
}

/// Text with a variety of styles: an ordered run of spans forming a line.
#[derive(Clone, Debug)]
pub struct Spans(pub Vec<Span>);

impl View for Spans {
    type V = Seq<SpanModel>;

    open spec fn view(&self) -> Seq<SpanModel> {
        Seq::new(self.0@.len(), |i: int| self.0@[i]@)
    }
}

impl Default for Spans {
    /// A line with no text at all.
    fn default() -> (s: Spans)
        ensures
            s@ == Seq::<SpanModel>::empty(),
    {
        Spans(Vec::new())
    }
}

impl Spans {
    /// A line holding the single span `span`.
    pub fn of(span: Span) -> (r: Spans)
        ensures
            r@ == seq![span@],
    {
        let line = Spans(vec![span]);
        proof {
            assert(line@ =~= seq![span@]);
        }
        line
    }

    /// A line holding `text` in the empty style.
    pub fn plain(text: String) -> (r: Spans)
        ensures
            r@ == seq![SpanModel { text: text@, style: Style { fg: None } }],
    {
        Spans::of(Span::new(text, Style { fg: None }))
    }

    /// How many spans make up the line.
    pub fn count(&self) -> (n: usize)
        ensures
            n == self@.len(),
    {
        self.0.len()
    }
}

} // verus!
