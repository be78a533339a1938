//! Source positions and the diagnostics that point at them.

use vstd::prelude::*;
use vstd::string::*;

verus! {

/// A half-open range of byte offsets in one source file.
#[derive(Clone, Copy, PartialEq, Eq, Structural, Debug)]
pub struct Span {
    pub start: usize,
    pub end: usize,
}

impl Span {
    pub fn new(start: usize, end: usize) -> (span: Span)
        ensures
            span == (Span { start, end }),
    {
        Span { start, end }
    }

    /// The span that starts where `self` does and ends where `other` does.
    pub open spec fn joined(self, other: Span) -> Span {
        Span { start: self.start, end: other.end }
    }

    pub fn to(self, other: Span) -> (span: Span)
        ensures
            span == self.joined(other),
    {
        Span { start: self.start, end: other.end }
    }
}

/// What a reader is told about one mistake: where, what, and why.
pub struct Diagnostic {
    pub span: Span,
    pub message: String,
    /// The words written under the primary span.
    pub label: Option<String>,
    /// Other places that matter, each with its own words.
    pub secondary: Vec<(Span, String)>,
    pub notes: Vec<String>,
}

/// The mathematical content of a [`Diagnostic`].
#[verifier::ext_equal]
pub struct Report {
    pub span: Span,
    pub message: Seq<char>,
    pub label: Option<Seq<char>>,
    pub secondary: Seq<(Span, Seq<char>)>,
    pub notes: Seq<Seq<char>>,
}

impl Report {
    pub open spec fn new(span: Span, message: Seq<char>) -> Report {
        Report { span, message, label: None, secondary: seq![], notes: seq![] }
    }

    pub open spec fn label(self, text: Seq<char>) -> Report {
        Report { label: Some(text), ..self }
    }

    pub open spec fn secondary(self, span: Span, text: Seq<char>) -> Report {
        Report { secondary: self.secondary.push((span, text)), ..self }
    }

    pub open spec fn note(self, text: Seq<char>) -> Report {
        Report { notes: self.notes.push(text), ..self }
    }
}

/// The contents of a list of owned strings.
pub open spec fn texts(s: Seq<String>) -> Seq<Seq<char>> {
    Seq::new(s.len(), |i: int| s[i]@)
}

pub open spec fn spanned_texts(s: Seq<(Span, String)>) -> Seq<(Span, Seq<char>)> {
    Seq::new(s.len(), |i: int| (s[i].0, s[i].1@))
}

/// The contents of a list of diagnostics.
pub open spec fn reports(s: Seq<Diagnostic>) -> Seq<Report> {
    Seq::new(s.len(), |i: int| s[i]@)
}

impl Diagnostic {
    pub open spec fn view(&self) -> Report {
        Report {
            span: self.span,
            message: self.message@,
            label: match self.label {
                Some(text) => Some(text@),
                None => None,
            },
            secondary: spanned_texts(self.secondary@),
            notes: texts(self.notes@),
        }
    }

    pub fn new(span: Span, message: String) -> (d: Diagnostic)
        ensures
            d@ == Report::new(span, message@),
    {
        let d = Diagnostic { span, message, label: None, secondary: Vec::new(), notes: Vec::new() };
        assert(d@.secondary =~= seq![]);
        assert(d@.notes =~= seq![]);
        d
    }

    /// A diagnostic whose message is fixed.
    pub fn fixed(span: Span, message: &str) -> (d: Diagnostic)
        ensures
            d@ == Report::new(span, message@),
    {
        Diagnostic::new(span, message.to_owned())
    }

    pub fn label(self, text: &str) -> (d: Diagnostic)
        ensures
            d@ == self@.label(text@),
    {
        let mut d = self;
        d.label = Some(text.to_owned());
        d
    }

    pub fn secondary(self, span: Span, text: &str) -> (d: Diagnostic)
        ensures
            d@ == self@.secondary(span, text@),
    {
        let mut d = self;
        d.secondary.push((span, text.to_owned()));
        assert(d@.secondary =~= self@.secondary.push((span, text@)));
        d
    }

    pub fn note(self, text: &str) -> (d: Diagnostic)
        ensures
            d@ == self@.note(text@),
    {
        let mut d = self;
        d.notes.push(text.to_owned());
        assert(d@.notes =~= self@.notes.push(text@));
        d
    }
}

} // verus!
