use clang_wrapper::ast::{plain_node, Tree};
use clang_wrapper::cursor::{Cursor, CursorKind};
use clang_wrapper::visit::ChildVisitResult;
use clang_wrapper::visitors::{DirectiveRecorder, KindRecurser};

// root
// ├── "A"  (namespace, raw kind 22), with one child
// │   └── "B"  (function, raw kind 8)
// └── "S"  (function, raw kind 8)
fn sample_tree() -> Tree {
    Tree {
        nodes: vec![
            plain_node(300, Some("root".to_string()), vec![1, 3]),
            plain_node(22, Some("A".to_string()), vec![2]),
            plain_node(8, Some("B".to_string()), vec![]),
            plain_node(8, Some("S".to_string()), vec![]),
        ],
    }
}

fn spellings(names: &[&str]) -> Vec<Option<String>> {
    names.iter().map(|n| Some(n.to_string())).collect()
}

#[test]
fn traversal_is_idempotent() {
    let tree = sample_tree();
    let root = Cursor::root(&tree);
    let mut first = DirectiveRecorder::new(ChildVisitResult::Recurse);
    let mut second = DirectiveRecorder::new(ChildVisitResult::Recurse);
    root.visit_children(&mut first);
    root.visit_children(&mut second);
    assert_eq!(first.visited, second.visited);
    assert_eq!(first.visited, spellings(&["A", "B", "S"]));
}

#[test]
fn break_visits_exactly_one_node() {
    let tree = sample_tree();
    let root = Cursor::root(&tree);
    let mut v = DirectiveRecorder::new(ChildVisitResult::Break);
    root.visit_children(&mut v);
    assert_eq!(v.visited.len(), 1);
    assert_eq!(v.visited, spellings(&["A"]));
}

#[test]
fn recurse_descends_into_the_chosen_child() {
    let tree = sample_tree();
    let root = Cursor::root(&tree);
    let mut v = KindRecurser::new(22);
    root.visit_children(&mut v);
    assert_eq!(v.visited, spellings(&["A", "B", "S"]));
}

#[test]
fn continue_never_visits_grandchildren() {
    let tree = sample_tree();
    let root = Cursor::root(&tree);
    let mut v = KindRecurser::new(999);
    root.visit_children(&mut v);
    assert_eq!(v.visited, spellings(&["A", "S"]));
    assert!(!v.visited.contains(&Some("B".to_string())));
}

#[test]
fn continue_from_fixed_directive_matches() {
    let tree = sample_tree();
    let root = Cursor::root(&tree);
    let mut v = DirectiveRecorder::new(ChildVisitResult::Continue);
    root.visit_children(&mut v);
    assert_eq!(v.visited, spellings(&["A", "S"]));
}

#[test]
fn directive_encoding_matches_the_engine() {
    assert_eq!(ChildVisitResult::Break.to_raw(), 0);
    assert_eq!(ChildVisitResult::Continue.to_raw(), 1);
    assert_eq!(ChildVisitResult::Recurse.to_raw(), 2);
    assert_eq!(ChildVisitResult::from_raw(0), Some(ChildVisitResult::Break));
    assert_eq!(ChildVisitResult::from_raw(1), Some(ChildVisitResult::Continue));
    assert_eq!(ChildVisitResult::from_raw(2), Some(ChildVisitResult::Recurse));
    assert_eq!(ChildVisitResult::from_raw(3), None);
}

#[test]
fn cursor_kind_classification() {
    let tree = sample_tree();
    let a = Cursor { tree: &tree, node: 1 };
    let b = Cursor { tree: &tree, node: 2 };
    let root = Cursor::root(&tree);
    assert_eq!(a.get_kind(), Some(CursorKind::Namespace));
    assert_eq!(b.get_kind(), Some(CursorKind::FunctionDecl));
    assert_eq!(root.get_kind(), None);
}

#[test]
fn cursor_kind_full_mapping() {
    let tree = Tree {
        nodes: vec![
            plain_node(2, None, vec![1, 2, 3, 4, 5, 6]),
            plain_node(4, None, vec![]),
            plain_node(8, None, vec![]),
            plain_node(21, None, vec![]),
            plain_node(30, None, vec![]),
            plain_node(31, None, vec![]),
            plain_node(0, None, vec![]),
        ],
    };
    let kind_of = |i: usize| Cursor { tree: &tree, node: i }.get_kind();
    assert_eq!(kind_of(0), Some(CursorKind::StructDecl));
    assert_eq!(kind_of(1), Some(CursorKind::ClassDecl));
    assert_eq!(kind_of(2), Some(CursorKind::FunctionDecl));
    assert_eq!(kind_of(3), Some(CursorKind::CXXMethod));
    assert_eq!(kind_of(4), Some(CursorKind::FunctionTemplate));
    assert_eq!(kind_of(5), Some(CursorKind::ClassTemplate));
    assert_eq!(kind_of(6), None);
}

#[test]
fn cursor_spelling_and_anonymous_nodes() {
    let tree = Tree {
        nodes: vec![
            plain_node(22, Some("outer".to_string()), vec![1]),
            plain_node(22, None, vec![]),
        ],
    };
    let named = Cursor::root(&tree);
    let anon = Cursor { tree: &tree, node: 1 };
    assert_eq!(named.get_spelling(), Some("outer".to_string()));
    assert_eq!(anon.get_spelling(), None);
}
