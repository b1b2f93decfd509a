//! The comment model: classification of a documentation comment into a
//! closed set of comment-node kinds, and rendering of a full comment into
//! HTML-flavored text. Kinds other than `Null` and `FullComment` are
//! deliberately unsupported by the rendering operation.

use vstd::prelude::*;

verus! {

/// The closed set of comment-node kinds the engine distinguishes.
#[derive(Clone, Copy, Debug, PartialEq, Eq)]
pub enum CommentKind {
    Null,
    Text,
    InlineCommand,
    HTMLStartTag,
    HTMLEndTag,
    Paragraph,
    BlockCommand,
    ParamCommand,
    TParamCommand,
    VerbatimBlockCommand,
    VerbatimBlockLine,
    VerbatimLine,
    FullComment,
}

/// The engine's raw encoding of comment kinds: consecutive small integers,
/// `Null` first and `FullComment` last.
pub open spec fn comment_kind_of_raw(raw: u32) -> Option<CommentKind> {
    if raw == 0 {
        Some(CommentKind::Null)
    } else if raw == 1 {
        Some(CommentKind::Text)
    } else if raw == 2 {
        Some(CommentKind::InlineCommand)
    } else if raw == 3 {
        Some(CommentKind::HTMLStartTag)
    } else if raw == 4 {
        Some(CommentKind::HTMLEndTag)
    } else if raw == 5 {
        Some(CommentKind::Paragraph)
    } else if raw == 6 {
        Some(CommentKind::BlockCommand)
    } else if raw == 7 {
        Some(CommentKind::ParamCommand)
    } else if raw == 8 {
        Some(CommentKind::TParamCommand)
    } else if raw == 9 {
        Some(CommentKind::VerbatimBlockCommand)
    } else if raw == 10 {
        Some(CommentKind::VerbatimBlockLine)
    } else if raw == 11 {
        Some(CommentKind::VerbatimLine)
    } else {
        if raw == 12 {
            Some(CommentKind::FullComment)
        } else {
            None
        }
    }
}

impl CommentKind {
    /// Decodes the engine's raw comment-kind value. A value outside the
    /// engine's defined kind space is an internal-consistency violation the
    /// caller must treat as fatal; this decoder reports it as `None` so the
    /// violation can be told apart before any further use.
    pub fn try_from_raw(raw: u32) -> (r: Option<CommentKind>)
        ensures
            r == comment_kind_of_raw(raw),
    {
        if raw == 0 {
            Some(CommentKind::Null)
        } else if raw == 1 {
            Some(CommentKind::Text)
        } else if raw == 2 {
            Some(CommentKind::InlineCommand)
        } else if raw == 3 {
            Some(CommentKind::HTMLStartTag)
        } else if raw == 4 {
            Some(CommentKind::HTMLEndTag)
        } else if raw == 5 {
            Some(CommentKind::Paragraph)
        } else if raw == 6 {
            Some(CommentKind::BlockCommand)
        } else if raw == 7 {
            Some(CommentKind::ParamCommand)
        } else if raw == 8 {
            Some(CommentKind::TParamCommand)
        } else if raw == 9 {
            Some(CommentKind::VerbatimBlockCommand)
        } else if raw == 10 {
            Some(CommentKind::VerbatimBlockLine)
        } else if raw == 11 {
            Some(CommentKind::VerbatimLine)
        } else if raw == 12 {
            Some(CommentKind::FullComment)
        } else {
            None
        }
    }

    /// Decodes a raw comment-kind value known to lie in the engine's defined
    /// kind space. The engine's contract makes any other value unreachable.
    pub fn from_raw(raw: u32) -> (r: CommentKind)
        requires
            comment_kind_of_raw(raw) is Some,
        ensures
            Some(r) == comment_kind_of_raw(raw),
    {
        match CommentKind::try_from_raw(raw) {
            Some(k) => k,
            None => {
                proof {
                    assert(false);
                }
                CommentKind::Null
            },
        }
    }
}

/// A comment's structured representation as attached to one AST node: its
/// classification, and — for a full comment — its HTML rendering.
#[derive(Clone, Debug)]
pub struct ParsedComment {
    /// The comment's classification.
    pub kind: CommentKind,
    /// The HTML rendering the engine produces for a full comment.
    pub html: Option<String>,
}

impl ParsedComment {
    /// Well-formedness at the node level: a node's parsed comment is either
    /// absent (`Null` kind, nothing rendered) or a full documentation
    /// comment with a non-empty rendering.
    pub open spec fn wf(self) -> bool {
        match self.kind {
            CommentKind::Null => self.html is None,
            CommentKind::FullComment => self.html is Some && self.html.unwrap()@.len() > 0,
            _ => false,
        }
    }

    /// Checks well-formedness at run time, so that a comment received from
    /// outside can be validated before use.
    pub fn check_wf(&self) -> (r: bool)
        ensures
            r == self.wf(),
    {
        match self.kind {
            CommentKind::Null => self.html.is_none(),
            CommentKind::FullComment => {
                match &self.html {
                    Some(s) => !s.as_str().is_empty(),
                    None => false,
                }
            },
            _ => false,
        }
    }

    /// The comment's classification.
    pub fn get_kind(&self) -> (r: CommentKind)
        ensures
            r == self.kind,
    {
        self.kind
    }

    /// Renders the comment: `None` for an absent (`Null`) comment, the
    /// HTML-flavored text for a full comment. Rendering any other kind is a
    /// deliberate scope restriction — a fatal condition callers must rule
    /// out by checking the kind first.
    pub fn get_text(&self) -> (r: Option<String>)
        requires
            self.kind is Null || self.kind is FullComment,
        ensures
            self.kind is Null ==> r is None,
            self.kind is FullComment ==> r == self.html,
    {
        match self.kind {
            CommentKind::Null => None,
            _ => {
                match &self.html {
                    Some(s) => Some(s.clone()),
                    None => None,
                }
            },
        }
    }
}

} // verus!
