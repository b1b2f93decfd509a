use clang_wrapper::ast::{plain_node, Node, Tree};
use clang_wrapper::comment::{CommentKind, ParsedComment};
use clang_wrapper::cursor::Cursor;
use clang_wrapper::string_bridge::StringHandle;

fn documented_node() -> Node {
    Node {
        kind_raw: 8,
        spelling: Some("f".to_string()),
        raw_comment: Some("/// Frobnicates.".to_string()),
        comment: ParsedComment {
            kind: CommentKind::FullComment,
            html: Some("<p> Frobnicates.</p>".to_string()),
        },
        children: vec![],
    }
}

#[test]
fn string_bridge_without_data_releases_nothing() {
    let mut h = StringHandle { data: None, released: false };
    assert_eq!(h.convert(), None);
    assert!(!h.released);
}

#[test]
fn string_bridge_with_data_releases_exactly_once() {
    let mut h = StringHandle { data: Some("hello".to_string()), released: false };
    assert_eq!(h.convert(), Some("hello".to_string()));
    assert!(h.released);
}

#[test]
fn comment_kind_decoding_is_exact() {
    let expected = [
        CommentKind::Null,
        CommentKind::Text,
        CommentKind::InlineCommand,
        CommentKind::HTMLStartTag,
        CommentKind::HTMLEndTag,
        CommentKind::Paragraph,
        CommentKind::BlockCommand,
        CommentKind::ParamCommand,
        CommentKind::TParamCommand,
        CommentKind::VerbatimBlockCommand,
        CommentKind::VerbatimBlockLine,
        CommentKind::VerbatimLine,
        CommentKind::FullComment,
    ];
    for (raw, kind) in expected.iter().enumerate() {
        assert_eq!(CommentKind::try_from_raw(raw as u32), Some(*kind));
        assert_eq!(CommentKind::from_raw(raw as u32), *kind);
    }
    assert_eq!(CommentKind::try_from_raw(13), None);
    assert_eq!(CommentKind::try_from_raw(255), None);
}

#[test]
fn undocumented_node_yields_null_comment() {
    let tree = Tree { nodes: vec![plain_node(8, Some("f".to_string()), vec![])] };
    let c = Cursor::root(&tree);
    assert_eq!(c.get_raw_comment(), None);
    let pc = c.get_parsed_comment();
    assert_eq!(pc.get_kind(), CommentKind::Null);
    assert_eq!(pc.get_text(), None);
}

#[test]
fn documented_node_yields_full_comment_with_text() {
    let tree = Tree { nodes: vec![documented_node()] };
    let c = Cursor::root(&tree);
    assert_eq!(c.get_raw_comment(), Some("/// Frobnicates.".to_string()));
    let pc = c.get_parsed_comment();
    assert_eq!(pc.get_kind(), CommentKind::FullComment);
    let text = pc.get_text().unwrap();
    assert!(!text.is_empty());
    assert_eq!(text, "<p> Frobnicates.</p>");
}
