//! Configuration options related to formatting comments.

use vstd::prelude::*;

verus! {

/// Width that comments are wrapped to when no explicit width is configured.
pub const DEFAULT_MAX_COMMENT_WIDTH: usize = 80;

/// Comment-formatting configuration, with every option resolved.
#[derive(Clone, Copy, Debug, PartialEq, Eq, Structural)]
pub struct Comments {
    /// Break comments to fit on the line.
    pub wrap_comments: bool,
    /// Maximum length of comments. No effect unless wrap_comments = true.
    pub comment_width: usize,
    /// Convert block comments to line comments where possible.
    pub normalize_comments: bool,
}

/// User-supplied comment options; a `None` leaves the default in force.
#[derive(Clone, Copy, Debug, PartialEq, Eq, Structural)]
pub struct CommentsOptions {
    pub wrap_comments: Option<bool>,
    pub comment_width: Option<usize>,
    pub normalize_comments: Option<bool>,
}

impl Default for Comments {
    fn default() -> (r: Self)
        ensures
            r.wrap_comments == false,
            r.comment_width == DEFAULT_MAX_COMMENT_WIDTH,
            r.normalize_comments == false,
    {
        Self {
            wrap_comments: false,
            comment_width: DEFAULT_MAX_COMMENT_WIDTH,
            normalize_comments: false,
        }
    }
}

impl Comments {
    /// Resolve user options against the defaults: every present option is
    /// taken as given, every absent one falls back to the default.
    pub fn from_opts(opts: &CommentsOptions) -> (r: Self)
        ensures
            r.wrap_comments == opts.wrap_comments.unwrap_or(false),
            r.comment_width == opts.comment_width.unwrap_or(DEFAULT_MAX_COMMENT_WIDTH),
            r.normalize_comments == opts.normalize_comments.unwrap_or(false),
    {
        Self {
            wrap_comments: opts.wrap_comments.unwrap_or(false),
            comment_width: opts.comment_width.unwrap_or(DEFAULT_MAX_COMMENT_WIDTH),
            normalize_comments: opts.normalize_comments.unwrap_or(false),
        }
    }
}

} // verus!
