use clang_wrapper::ast::{plain_node, Node, Tree};
use clang_wrapper::comment::{CommentKind, ParsedComment};

fn good_tree() -> Tree {
    Tree {
        nodes: vec![
            plain_node(300, Some("root".to_string()), vec![1, 3]),
            plain_node(22, Some("A".to_string()), vec![2]),
            plain_node(8, Some("B".to_string()), vec![]),
            plain_node(8, Some("S".to_string()), vec![]),
        ],
    }
}

#[test]
fn well_formed_tree_is_accepted() {
    assert!(good_tree().check_wf());
}

#[test]
fn empty_arena_is_rejected() {
    let tree = Tree { nodes: vec![] };
    assert!(!tree.check_wf());
}

#[test]
fn child_index_at_or_before_parent_is_rejected() {
    let tree = Tree {
        nodes: vec![
            plain_node(1, None, vec![1]),
            plain_node(2, None, vec![0]),
        ],
    };
    assert!(!tree.check_wf());
}

#[test]
fn child_index_out_of_bounds_is_rejected() {
    let tree = Tree { nodes: vec![plain_node(1, None, vec![7])] };
    assert!(!tree.check_wf());
}

#[test]
fn node_claimed_by_two_parents_is_rejected() {
    let tree = Tree {
        nodes: vec![
            plain_node(1, None, vec![1, 2]),
            plain_node(2, None, vec![2]),
            plain_node(3, None, vec![]),
        ],
    };
    assert!(!tree.check_wf());
}

#[test]
fn node_listed_twice_in_one_child_list_is_rejected() {
    let tree = Tree {
        nodes: vec![
            plain_node(1, None, vec![1, 1]),
            plain_node(2, None, vec![]),
        ],
    };
    assert!(!tree.check_wf());
}

#[test]
fn raw_comment_without_full_comment_is_rejected() {
    let mut node = plain_node(8, None, vec![]);
    node.raw_comment = Some("/// lost".to_string());
    let tree = Tree { nodes: vec![node] };
    assert!(!tree.check_wf());
}

#[test]
fn full_comment_with_empty_rendering_is_rejected() {
    let node = Node {
        kind_raw: 8,
        spelling: None,
        raw_comment: Some("/// doc".to_string()),
        comment: ParsedComment { kind: CommentKind::FullComment, html: Some(String::new()) },
        children: vec![],
    };
    let tree = Tree { nodes: vec![node] };
    assert!(!tree.check_wf());
}

#[test]
fn documented_node_is_accepted() {
    let node = Node {
        kind_raw: 8,
        spelling: Some("f".to_string()),
        raw_comment: Some("/// doc".to_string()),
        comment: ParsedComment {
            kind: CommentKind::FullComment,
            html: Some("<p> doc</p>".to_string()),
        },
        children: vec![],
    };
    let tree = Tree { nodes: vec![node] };
    assert!(tree.check_wf());
}
