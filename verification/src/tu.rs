//! The translation-unit lifecycle: index creation, parse-result gating, and
//! file-handle resolution. Construction validates the source path, builds
//! one engine index of its own, and accepts the engine's parse result only
//! when the handle is valid and no diagnostic reaches error severity.
//!
//! What the engine itself decides — whether the index allocation succeeded,
//! what handle and diagnostics the parse produced, whether a file resolved —
//! enters these functions as arguments; the contracts pin down the outcome
//! for every possible reply.

use vstd::prelude::*;
use crate::ast::Tree;
use crate::diag::Severity;
use crate::diag::has_error_diagnostic;
use crate::diag::some_diag_blocks;

verus! {

/// The errors this layer reports.
#[derive(Clone, Copy, Debug, PartialEq, Eq)]
pub enum WrapError {
    /// The target path does not exist or is not a regular file.
    NotAFile,
    /// The engine returned a null handle for index creation.
    IndexCreation,
    /// The engine returned a null AST, or some diagnostic reached error
    /// severity.
    ParseFailure,
    /// A file lookup within an already-parsed unit failed.
    FileResolution,
}

impl WrapError {
    /// The human-readable description of the error.
    pub fn message(&self) -> (r: &'static str)
        ensures
            *self is NotAFile ==> r@ == "target path is not a file"@,
            *self is IndexCreation ==> r@ == "Failed to create index"@,
            *self is ParseFailure ==> r@ == "failed to parse source file due to error"@,
            *self is FileResolution ==> r@ == "failed to get target file"@,
    {
        match self {
            WrapError::NotAFile => "target path is not a file",
            WrapError::IndexCreation => "Failed to create index",
            WrapError::ParseFailure => "failed to parse source file due to error",
            WrapError::FileResolution => "failed to get target file",
        }
    }
}

/// One parsing-session context. Owned by exactly one translation unit and
/// released exactly once with it.
#[derive(Clone, Copy, Debug)]
pub struct Index {
    /// The engine flag excluding declarations that come from the
    /// precompiled header.
    pub exclude_declarations_from_pch: i32,
    /// The engine flag turning on diagnostic display.
    pub display_diagnostics: i32,
}

impl Index {
    /// Creates a parsing-session context with the two engine flags.
    /// `alloc_ok` is the engine's reply: whether it returned a non-null
    /// session handle. A null handle is a hard construction error.
    pub fn new(exclude: i32, display: i32, alloc_ok: bool) -> (r: Result<Index, WrapError>)
        ensures
            alloc_ok ==> (r matches Ok(i) && i.exclude_declarations_from_pch == exclude
                && i.display_diagnostics == display),
            !alloc_ok ==> r == Err::<Index, WrapError>(WrapError::IndexCreation),
    {
        if alloc_ok {
            Ok(Index { exclude_declarations_from_pch: exclude, display_diagnostics: display })
        } else {
            Err(WrapError::IndexCreation)
        }
    }
}

/// What the engine's parse entry point handed back: either a null handle, or
/// a parsed AST together with the diagnostics it reported.
pub enum ParseOutcome {
    /// The engine returned a null handle.
    NullHandle,
    /// The engine returned a parsed AST and reported these diagnostics.
    Parsed { diagnostics: Vec<Severity>, ast: Tree },
}

/// One parsed source file: the AST, the session context it owns, and what
/// the parse was asked for.
#[derive(Debug)]
pub struct TranslationUnit {
    /// The session context this unit owns.
    pub index: Index,
    /// The path of the parsed source file.
    pub filepath: String,
    /// The raw flag arguments the parse was invoked with.
    pub arguments: Vec<String>,
    /// The parsed AST.
    pub ast: Tree,
}

/// The error a construction attempt must report, if any: an invalid path is
/// rejected before anything else, then a failed index allocation, then a
/// null parse handle, then any diagnostic at error severity or above.
/// Diagnostics below error severity never block construction.
pub open spec fn construction_error(
    is_regular_file: bool,
    index_alloc_ok: bool,
    parse: ParseOutcome,
) -> Option<WrapError> {
    if !is_regular_file {
        Some(WrapError::NotAFile)
    } else if !index_alloc_ok {
        Some(WrapError::IndexCreation)
    } else {
        match parse {
            ParseOutcome::NullHandle => Some(WrapError::ParseFailure),
            ParseOutcome::Parsed { diagnostics, ast } => if some_diag_blocks(diagnostics@) {
                Some(WrapError::ParseFailure)
            } else {
                None
            },
        }
    }
}

impl TranslationUnit {
    /// A translation unit is well formed when its AST is.
    pub open spec fn wf(self) -> bool {
        self.ast.wf()
    }

    /// Parses a source file with caller-supplied raw flag arguments.
    ///
    /// `is_regular_file` says whether `filepath` names an existing regular
    /// file — checked first, so an invalid path is rejected before any
    /// engine interaction. `index_alloc_ok` and `parse` are the engine's
    /// replies to index creation and to the parse call. Construction
    /// succeeds exactly when the path is valid, the index allocated, the
    /// handle is non-null, and no diagnostic reaches error severity.
    pub fn with_arguments(
        filepath: String,
        arguments: Vec<String>,
        is_regular_file: bool,
        index_alloc_ok: bool,
        parse: ParseOutcome,
    ) -> (r: Result<TranslationUnit, WrapError>)
        requires
            parse matches ParseOutcome::Parsed { diagnostics, ast } ==> ast.wf(),
        ensures
            construction_error(is_regular_file, index_alloc_ok, parse) matches Some(e) ==> r
                == Err::<TranslationUnit, WrapError>(e),
            construction_error(is_regular_file, index_alloc_ok, parse) is None ==> (r matches Ok(
                tu,
            ) && parse matches ParseOutcome::Parsed { diagnostics, ast } && tu.ast == ast
                && tu.filepath == filepath && tu.arguments == arguments
                && tu.index.exclude_declarations_from_pch == 0 && tu.index.display_diagnostics == 1
                && tu.wf()),
    {
        if !is_regular_file {
            return Err(WrapError::NotAFile);
        }
        let index = match Index::new(0, 1, index_alloc_ok) {
            Ok(i) => i,
            Err(e) => {
                return Err(e);
            },
        };
        match parse {
            ParseOutcome::NullHandle => Err(WrapError::ParseFailure),
            ParseOutcome::Parsed { diagnostics, ast } => {
                if has_error_diagnostic(&diagnostics) {
                    Err(WrapError::ParseFailure)
                } else {
                    Ok(TranslationUnit { index, filepath, arguments, ast })
                }
            },
        }
    }

    /// Parses a source file under the fixed default dialect: C++ at a recent
    /// standard revision. The gating is exactly that of `with_arguments`.
    pub fn new(
        filepath: String,
        is_regular_file: bool,
        index_alloc_ok: bool,
        parse: ParseOutcome,
    ) -> (r: Result<TranslationUnit, WrapError>)
        requires
            parse matches ParseOutcome::Parsed { diagnostics, ast } ==> ast.wf(),
        ensures
            construction_error(is_regular_file, index_alloc_ok, parse) matches Some(e) ==> r
                == Err::<TranslationUnit, WrapError>(e),
            construction_error(is_regular_file, index_alloc_ok, parse) is None ==> (r matches Ok(
                tu,
            ) && parse matches ParseOutcome::Parsed { diagnostics, ast } && tu.ast == ast
                && tu.filepath == filepath && tu.arguments@.len() == 2 && tu.arguments@[0]@
                == "-xc++"@ && tu.arguments@[1]@ == "-std=c++20"@
                && tu.index.exclude_declarations_from_pch == 0 && tu.index.display_diagnostics == 1
                && tu.wf()),
    {
        let arguments = default_arguments();
        TranslationUnit::with_arguments(filepath, arguments, is_regular_file, index_alloc_ok, parse)
    }

    /// A cursor at the root of this unit's AST.
    pub fn root_cursor<'a>(&'a self) -> (r: crate::cursor::Cursor<'a>)
        requires
            self.wf(),
        ensures
            r.tree == &self.ast,
            r.node == 0,
            r.wf(),
    {
        crate::cursor::Cursor::root(&self.ast)
    }
}

/// The raw flag arguments of the default dialect: C++ at a recent standard
/// revision.
pub fn default_arguments() -> (r: Vec<String>)
    ensures
        r@.len() == 2,
        r@[0]@ == "-xc++"@,
        r@[1]@ == "-std=c++20"@,
{
    let mut args: Vec<String> = Vec::new();
    args.push("-xc++".to_owned());
    args.push("-std=c++20".to_owned());
    args
}

/// An engine file reference scoped to one translation unit: a non-owning
/// view valid only while the unit is.
pub struct File<'a> {
    /// The unit the reference is scoped to.
    pub tu: &'a TranslationUnit,
    /// The path the reference resolves.
    pub filepath: String,
}

impl<'a> File<'a> {
    /// Resolves `filepath` to an engine file reference within `tu`.
    /// `resolved` is the engine's reply: whether the lookup returned a
    /// non-null reference. Failure is recoverable — the unit stays usable.
    pub fn new(tu: &'a TranslationUnit, filepath: String, resolved: bool) -> (r: Result<
        File<'a>,
        WrapError,
    >)
        ensures
            resolved ==> (r matches Ok(f) && f.tu == tu && f.filepath == filepath),
            !resolved ==> r == Err::<File<'a>, WrapError>(WrapError::FileResolution),
    {
        if resolved {
            Ok(File { tu, filepath })
        } else {
            Err(WrapError::FileResolution)
        }
    }
}

} // verus!
