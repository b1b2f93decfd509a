use clang_wrapper::ast::{plain_node, Tree};
use clang_wrapper::diag::{has_error_diagnostic, Severity};
use clang_wrapper::tu::{default_arguments, File, Index, ParseOutcome, TranslationUnit, WrapError};

fn leaf_tree() -> Tree {
    Tree { nodes: vec![plain_node(1, Some("root".to_string()), vec![])] }
}

#[test]
fn not_a_file_fails_before_anything_else() {
    let r = TranslationUnit::with_arguments(
        "/no/such/file.cpp".to_string(),
        vec![],
        false,
        true,
        ParseOutcome::Parsed { diagnostics: vec![], ast: leaf_tree() },
    );
    assert!(matches!(r, Err(WrapError::NotAFile)));
}

#[test]
fn not_a_file_wins_over_engine_failures() {
    let r = TranslationUnit::with_arguments(
        "/no/such/file.cpp".to_string(),
        vec![],
        false,
        false,
        ParseOutcome::NullHandle,
    );
    assert!(matches!(r, Err(WrapError::NotAFile)));
}

#[test]
fn null_parse_handle_fails() {
    let r = TranslationUnit::with_arguments(
        "a.cpp".to_string(),
        vec![],
        true,
        true,
        ParseOutcome::NullHandle,
    );
    assert!(matches!(r, Err(WrapError::ParseFailure)));
}

#[test]
fn failed_index_allocation_fails() {
    let r = TranslationUnit::with_arguments(
        "a.cpp".to_string(),
        vec![],
        true,
        false,
        ParseOutcome::Parsed { diagnostics: vec![], ast: leaf_tree() },
    );
    assert!(matches!(r, Err(WrapError::IndexCreation)));
}

#[test]
fn clean_parse_succeeds() {
    let r = TranslationUnit::with_arguments(
        "a.cpp".to_string(),
        vec!["-std=c++17".to_string()],
        true,
        true,
        ParseOutcome::Parsed { diagnostics: vec![], ast: leaf_tree() },
    );
    let tu = r.unwrap();
    assert_eq!(tu.filepath, "a.cpp");
    assert_eq!(tu.arguments, vec!["-std=c++17".to_string()]);
    assert_eq!(tu.index.exclude_declarations_from_pch, 0);
    assert_eq!(tu.index.display_diagnostics, 1);
    assert_eq!(tu.ast.nodes.len(), 1);
}

#[test]
fn sub_error_diagnostics_are_tolerated() {
    let r = TranslationUnit::with_arguments(
        "a.cpp".to_string(),
        vec![],
        true,
        true,
        ParseOutcome::Parsed {
            diagnostics: vec![Severity::Ignored, Severity::Note, Severity::Warning],
            ast: leaf_tree(),
        },
    );
    assert!(r.is_ok());
}

#[test]
fn error_diagnostic_fails_the_parse() {
    let r = TranslationUnit::with_arguments(
        "a.cpp".to_string(),
        vec![],
        true,
        true,
        ParseOutcome::Parsed {
            diagnostics: vec![Severity::Warning, Severity::Error, Severity::Note],
            ast: leaf_tree(),
        },
    );
    assert!(matches!(r, Err(WrapError::ParseFailure)));
}

#[test]
fn fatal_diagnostic_fails_the_parse() {
    let r = TranslationUnit::with_arguments(
        "a.cpp".to_string(),
        vec![],
        true,
        true,
        ParseOutcome::Parsed { diagnostics: vec![Severity::Fatal], ast: leaf_tree() },
    );
    assert!(matches!(r, Err(WrapError::ParseFailure)));
}

#[test]
fn default_dialect_is_recent_cpp() {
    let args = default_arguments();
    assert_eq!(args, vec!["-xc++".to_string(), "-std=c++20".to_string()]);
    let r = TranslationUnit::new(
        "a.cpp".to_string(),
        true,
        true,
        ParseOutcome::Parsed { diagnostics: vec![], ast: leaf_tree() },
    );
    let tu = r.unwrap();
    assert_eq!(tu.arguments, vec!["-xc++".to_string(), "-std=c++20".to_string()]);
}

#[test]
fn index_creation_reports_null_handles() {
    let ok = Index::new(1, 0, true).unwrap();
    assert_eq!(ok.exclude_declarations_from_pch, 1);
    assert_eq!(ok.display_diagnostics, 0);
    assert!(matches!(Index::new(0, 1, false), Err(WrapError::IndexCreation)));
}

#[test]
fn file_resolution() {
    let tu = TranslationUnit::new(
        "a.cpp".to_string(),
        true,
        true,
        ParseOutcome::Parsed { diagnostics: vec![], ast: leaf_tree() },
    )
    .unwrap();
    let f = File::new(&tu, "a.cpp".to_string(), true).unwrap();
    assert_eq!(f.filepath, "a.cpp");
    assert!(matches!(
        File::new(&tu, "b.cpp".to_string(), false),
        Err(WrapError::FileResolution)
    ));
}

#[test]
fn error_messages() {
    assert_eq!(WrapError::NotAFile.message(), "target path is not a file");
    assert_eq!(WrapError::IndexCreation.message(), "Failed to create index");
    assert_eq!(
        WrapError::ParseFailure.message(),
        "failed to parse source file due to error"
    );
    assert_eq!(WrapError::FileResolution.message(), "failed to get target file");
}

#[test]
fn diagnostic_gate_scans_all_severities() {
    assert!(!has_error_diagnostic(&vec![]));
    assert!(!has_error_diagnostic(&vec![
        Severity::Ignored,
        Severity::Note,
        Severity::Warning
    ]));
    assert!(has_error_diagnostic(&vec![Severity::Warning, Severity::Error]));
    assert!(has_error_diagnostic(&vec![Severity::Fatal]));
}

#[test]
fn severity_decoding() {
    assert_eq!(Severity::from_raw(0), Some(Severity::Ignored));
    assert_eq!(Severity::from_raw(1), Some(Severity::Note));
    assert_eq!(Severity::from_raw(2), Some(Severity::Warning));
    assert_eq!(Severity::from_raw(3), Some(Severity::Error));
    assert_eq!(Severity::from_raw(4), Some(Severity::Fatal));
    assert_eq!(Severity::from_raw(5), None);
}
