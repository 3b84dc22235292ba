//! Attribute annotations attached to declarations.
//!
//! Attributes can have any number of arguments:
//!
//! ```text
//! #[attribute]
//! #[attribute()]
//! #[attribute(value)]
//! #[attribute(value0, value1, value2)]
//! ```
//!
//! Every node here carries enough position information to compute its span,
//! and the span of an annotated value stretches from its first attribute to
//! the value itself.

use vstd::prelude::*;
use crate::span::{Span, Spanned};
use crate::span::Ident;

verus! {

/// The `#` token that begins an attribute.
#[derive(Clone, Copy, Debug, PartialEq, Eq, Structural)]
pub struct HashToken {
    pub span: Span,
}

impl Spanned for HashToken {
    open spec fn spec_span(&self) -> Span {
        self.span
    }

    fn span(&self) -> (r: Span)
        ensures
            r == self.spec_span(),
    {
        self.span
    }
}

/// A value enclosed in parentheses, with the span of the whole
/// parenthesized group.
#[derive(Clone, Debug)]
pub struct Parens<T> {
    pub inner: T,
    pub span: Span,
}

impl<T> Parens<T> {
    pub fn span(&self) -> (r: Span)
        ensures
            r == self.span,
    {
        self.span
    }
}

/// A value enclosed in square brackets, with the span of the whole group.
#[derive(Clone, Debug)]
pub struct SquareBrackets<T> {
    pub inner: T,
    pub span: Span,
}

impl<T> SquareBrackets<T> {
    pub fn span(&self) -> (r: Span)
        ensures
            r == self.span,
    {
        self.span
    }
}

/// A comma-separated list of values.
#[derive(Clone, Debug)]
pub struct Punctuated<T> {
    pub values: Vec<T>,
}

/// A single attribute: a name and an optional parenthesized argument list.
#[derive(Clone, Debug)]
pub struct Attribute {
    pub name: Ident,
    pub args: Option<Parens<Punctuated<Ident>>>,
}

impl Attribute {
    /// The span of the attribute: from its name to the end of its argument
    /// list, or the name alone when there are no arguments.
    pub fn span(&self) -> (r: Span)
        ensures
            r == self.spec_span(),
    {
        match &self.args {
            Some(args) => Span::join(self.name.span, args.span),
            None => self.name.span,
        }
    }
}

impl Spanned for Attribute {
    open spec fn spec_span(&self) -> Span {
        match self.args {
            Some(args) => Span { start: self.name.span.start, end: args.span.end },
            None => self.name.span,
        }
    }

    fn span(&self) -> (r: Span)
        ensures
            r == self.spec_span(),
    {
        Attribute::span(self)
    }
}

/// An attribute as it appears above a declaration: `#[...]`.
#[derive(Clone, Debug)]
pub struct AttributeDecl {
    pub hash_token: HashToken,
    pub attribute: SquareBrackets<Attribute>,
}

impl AttributeDecl {
    /// The span of the whole `#[...]` group.
    pub fn span(&self) -> (r: Span)
        ensures
            r == self.spec_span(),
    {
        Span::join(self.hash_token.span, self.attribute.span)
    }
}

impl Spanned for AttributeDecl {
    open spec fn spec_span(&self) -> Span {
        Span { start: self.hash_token.span.start, end: self.attribute.span.end }
    }

    fn span(&self) -> (r: Span)
        ensures
            r == self.spec_span(),
    {
        AttributeDecl::span(self)
    }
}

/// A value together with the attributes written above it.
#[derive(Clone, Debug)]
pub struct Annotated<T> {
    pub attribute_list: Vec<AttributeDecl>,
    pub value: T,
}

impl<T: Spanned> Annotated<T> {
    /// The span of an annotated value stretches from its first attribute to
    /// the value itself; a value without attributes keeps its own span.
    pub fn span(&self) -> (r: Span)
        ensures
            self.attribute_list@.len() > 0 ==> r == (Span {
                start: self.attribute_list@[0].spec_span().start,
                end: self.value.spec_span().end,
            }),
            self.attribute_list@.len() == 0 ==> r == self.value.spec_span(),
    {
        if self.attribute_list.len() > 0 {
            let attr0 = &self.attribute_list[0];
            Span::join(attr0.span(), self.value.span())
        } else {
            self.value.span()
        }
    }
}

} // verus!
