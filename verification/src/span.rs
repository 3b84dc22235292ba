//! Source spans and identifiers.
//!
//! A [`Span`] is the half-open byte range of a syntax node in its source
//! file. An [`Ident`] is a name together with the span it was written at;
//! two identifiers are the same name exactly when their texts agree, no
//! matter where they were written.

use vstd::prelude::*;

verus! {

/// A half-open region of source text.
#[derive(Clone, Copy, Debug, PartialEq, Eq, Structural)]
pub struct Span {
    pub start: usize,
    pub end: usize,
}

impl Span {
    /// The span stretching from the start of `first` to the end of `second`.
    pub fn join(first: Span, second: Span) -> (r: Span)
        ensures
            r == (Span { start: first.start, end: second.end }),
    {
        Span { start: first.start, end: second.end }
    }

    /// A placeholder span for nodes that have no source position of their
    /// own.
    pub fn dummy() -> (r: Span)
        ensures
            r == (Span { start: 0usize, end: 0usize }),
    {
        Span { start: 0, end: 0 }
    }
}

/// An identifier as written in the source, together with its span.
#[derive(Debug)]
pub struct Ident {
    pub text: String,
    pub span: Span,
}

impl Clone for Ident {
    fn clone(&self) -> (r: Self)
        ensures
            r == *self,
    {
        Ident { text: self.text.clone(), span: self.span }
    }
}

impl Ident {
    pub fn new(text: String, span: Span) -> (r: Ident)
        ensures
            r.text == text,
            r.span == span,
    {
        Ident { text, span }
    }

    /// Identifiers name the same thing exactly when their texts agree;
    /// the spans play no part.
    pub fn same_name(&self, other: &Ident) -> (r: bool)
        ensures
            r == (self.text@ == other.text@),
    {
        self.text == other.text
    }
}

/// Types that occupy a region of source text.
pub trait Spanned {
    /// The span the implementation promises to return.
    spec fn spec_span(&self) -> Span;

    /// The source region this node covers.
    fn span(&self) -> (r: Span)
        ensures
            r == self.spec_span(),
        ;
}

impl Spanned for Ident {
    open spec fn spec_span(&self) -> Span {
        self.span
    }

    fn span(&self) -> (r: Span)
        ensures
            r == self.spec_span(),
    {
        self.span
    }
}

} // verus!
