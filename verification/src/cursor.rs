//! Cursors: lightweight, copyable, non-owning views of one node of a parsed
//! AST, valid only while the tree they point into is alive. A cursor exposes
//! node-kind classification, spelling, raw and parsed documentation
//! comments, and the traversal entry point (in `visit`).

use vstd::prelude::*;
use crate::ast::Tree;
use crate::comment::ParsedComment;

verus! {

/// The subset of AST node kinds this layer distinguishes.
#[derive(Clone, Copy, Debug, PartialEq, Eq)]
pub enum CursorKind {
    Namespace,
    ClassDecl,
    StructDecl,
    FunctionDecl,
    CXXMethod,
    ClassTemplate,
    FunctionTemplate,
}

/// The engine's raw codes for the recognized node kinds; every other code is
/// outside the recognized subset.
pub open spec fn cursor_kind_of_raw(raw: u32) -> Option<CursorKind> {
    if raw == 2 {
        Some(CursorKind::StructDecl)
    } else if raw == 4 {
        Some(CursorKind::ClassDecl)
    } else if raw == 8 {
        Some(CursorKind::FunctionDecl)
    } else if raw == 21 {
        Some(CursorKind::CXXMethod)
    } else if raw == 22 {
        Some(CursorKind::Namespace)
    } else if raw == 30 {
        Some(CursorKind::FunctionTemplate)
    } else {
        if raw == 31 {
            Some(CursorKind::ClassTemplate)
        } else {
            None
        }
    }
}

/// Classifies a raw node-kind code into the recognized subset; `None` for a
/// code outside it.
pub fn kind_of_raw(raw: u32) -> (r: Option<CursorKind>)
    ensures
        r == cursor_kind_of_raw(raw),
{
    if raw == 2 {
        Some(CursorKind::StructDecl)
    } else if raw == 4 {
        Some(CursorKind::ClassDecl)
    } else if raw == 8 {
        Some(CursorKind::FunctionDecl)
    } else if raw == 21 {
        Some(CursorKind::CXXMethod)
    } else if raw == 22 {
        Some(CursorKind::Namespace)
    } else if raw == 30 {
        Some(CursorKind::FunctionTemplate)
    } else if raw == 31 {
        Some(CursorKind::ClassTemplate)
    } else {
        None
    }
}

/// A non-owning view of one node of a parsed AST.
#[derive(Clone, Copy, Debug)]
pub struct Cursor<'a> {
    /// The tree the cursor points into.
    pub tree: &'a Tree,
    /// The index of the node the cursor points at.
    pub node: usize,
}

impl<'a> Cursor<'a> {
    /// A cursor is valid when its tree is well formed and its index is in
    /// bounds.
    pub open spec fn wf(self) -> bool {
        &&& self.tree.wf()
        &&& self.node < self.tree.nodes@.len()
    }

    /// A cursor at the root of a tree.
    pub fn root(tree: &'a Tree) -> (r: Cursor<'a>)
        requires
            tree.wf(),
        ensures
            r.tree == tree,
            r.node == 0,
            r.wf(),
    {
        Cursor { tree, node: 0 }
    }

    /// The engine's raw kind code of the node.
    pub fn kind_raw(&self) -> (r: u32)
        requires
            self.wf(),
        ensures
            r == self.tree.nodes@[self.node as int].kind_raw,
    {
        self.tree.nodes[self.node].kind_raw
    }

    /// Classifies the node into the recognized kind subset; `None` for a
    /// node whose raw kind lies outside it.
    pub fn get_kind(&self) -> (r: Option<CursorKind>)
        requires
            self.wf(),
        ensures
            r == cursor_kind_of_raw(self.tree.nodes@[self.node as int].kind_raw),
    {
        kind_of_raw(self.tree.nodes[self.node].kind_raw)
    }

    /// The node's declared name; `None` for an anonymous node.
    pub fn get_spelling(&self) -> (r: Option<String>)
        requires
            self.wf(),
        ensures
            r == self.tree.nodes@[self.node as int].spelling,
    {
        match &self.tree.nodes[self.node].spelling {
            Some(s) => Some(s.clone()),
            None => None,
        }
    }

    /// The verbatim documentation comment attached to the node, if any.
    pub fn get_raw_comment(&self) -> (r: Option<String>)
        requires
            self.wf(),
        ensures
            r == self.tree.nodes@[self.node as int].raw_comment,
    {
        match &self.tree.nodes[self.node].raw_comment {
            Some(s) => Some(s.clone()),
            None => None,
        }
    }

    /// The structured form of the node's documentation comment. Always
    /// succeeds: a node without documentation yields a comment of `Null`
    /// kind. The result is well formed whenever the cursor is.
    pub fn get_parsed_comment(&self) -> (r: ParsedComment)
        requires
            self.wf(),
        ensures
            r == self.tree.nodes@[self.node as int].comment,
            r.wf(),
            r.kind is Null <==> self.tree.nodes@[self.node as int].raw_comment is None,
    {
        let node = &self.tree.nodes[self.node];
        ParsedComment { kind: node.comment.kind, html: match &node.comment.html {
            Some(s) => Some(s.clone()),
            None => None,
        } }
    }
}

} // verus!
