//! Diagnostics: structured errors are accumulated, not thrown. A fallible
//! operation returns its value (when it has one) together with the
//! warnings and errors it collected, so a caller can keep checking sibling
//! declarations after one of them fails.

use vstd::prelude::*;
use crate::span::{Ident, Span};

verus! {

/// A non-fatal finding attached to a source position.
#[derive(Debug)]
pub struct CompileWarning {
    pub span: Span,
    pub message: String,
}

impl Clone for CompileWarning {
    fn clone(&self) -> (r: Self)
        ensures
            r == *self,
    {
        CompileWarning { span: self.span, message: self.message.clone() }
    }
}

/// A user-facing error, carrying the offending names and enough context
/// for a diagnostic.
#[derive(Debug)]
pub enum CompileError {
    /// A variant name was not found among an enum's variants.
    UnknownEnumVariant { enum_name: Ident, variant_name: Ident, span: Span },
    /// A field name was not found among a struct's fields; carries every
    /// available field name for the diagnostic's suggestion list, and the
    /// declaration's source span.
    FieldNotFound { field_name: Ident, available_fields: Vec<String>, struct_name: Ident, span: Span },
}

/// The result of a fallible semantic-analysis step: an optional value and
/// the diagnostics gathered while producing it.
#[derive(Debug)]
pub struct CompileResult<T> {
    pub value: Option<T>,
    pub warnings: Vec<CompileWarning>,
    pub errors: Vec<CompileError>,
}

/// A successful result carrying `value` and any diagnostics gathered.
pub fn ok<T>(value: T, warnings: Vec<CompileWarning>, errors: Vec<CompileError>) -> (r: CompileResult<T>)
    ensures
        r.value == Some(value),
        r.warnings == warnings,
        r.errors == errors,
{
    CompileResult { value: Some(value), warnings, errors }
}

/// A failed result carrying only diagnostics.
pub fn err<T>(warnings: Vec<CompileWarning>, errors: Vec<CompileError>) -> (r: CompileResult<T>)
    ensures
        r.value is None,
        r.warnings == warnings,
        r.errors == errors,
{
    CompileResult { value: None, warnings, errors }
}

} // verus!
