use rholang_lsp::builder::TreeBuilder;
use rholang_lsp::kinds::{is_operator, FieldName, NodeKind};
use rholang_lsp::position::Position;
use rholang_lsp::syntax::{NodeData, SyntaxTree};

fn node(tag: &'static str, named: bool, start: usize, end: usize) -> NodeData {
    NodeData::new(
        tag,
        named,
        start,
        end,
        Position { line: 0, character: start as u32 },
        Position { line: 0, character: end as u32 },
    )
}

/// source_file( a( b, c( d ) ), e )
fn sample() -> SyntaxTree {
    let mut b = TreeBuilder::new();
    assert!(b.open(node("source_file", true, 0, 10)));
    assert!(b.open(node("a", true, 0, 6)));
    assert!(b.open(node("b", true, 0, 1).with_field(FieldName::Name)));
    assert!(b.close());
    assert!(b.open(node("c", true, 2, 6).with_field(FieldName::Proc)));
    assert!(b.open(node("d", true, 3, 4)));
    assert!(b.close());
    assert!(b.close());
    assert!(b.close());
    assert!(b.open(node("e", true, 7, 10).with_field(FieldName::Proc)));
    b.finish().unwrap()
}

#[test]
fn builder_lays_nodes_out_in_pre_order() {
    let t = sample();
    let tags: Vec<&str> = t.nodes.iter().map(|n| n.tag).collect();
    assert_eq!(tags, vec!["source_file", "a", "b", "c", "d", "e"]);
    assert_eq!(t.parents, vec![None, Some(0), Some(1), Some(1), Some(3), Some(0)]);
    assert_eq!(t.ends, vec![6, 5, 3, 5, 5, 6]);
    assert_eq!(t.node_count(), 6);
}

#[test]
fn finish_closes_what_is_open() {
    let mut b = TreeBuilder::new();
    b.open(node("source_file", true, 0, 3));
    b.open(node("a", true, 0, 3));
    b.open(node("b", true, 0, 3));
    assert_eq!(b.count(), 3);
    assert!(b.has_open());
    let t = b.finish().unwrap();
    assert_eq!(t.ends, vec![3, 3, 3]);
}

#[test]
fn nothing_is_added_after_the_root_is_closed() {
    let mut b = TreeBuilder::new();
    assert!(b.open(node("source_file", true, 0, 3)));
    assert!(b.close());
    assert!(!b.has_open());
    assert!(!b.open(node("a", true, 0, 3)));
    assert!(!b.close());
    assert_eq!(b.count(), 1);
    let t = b.finish().unwrap();
    assert_eq!(t.ends, vec![1]);
}

#[test]
fn empty_builder_gives_no_tree() {
    let b = TreeBuilder::new();
    assert!(b.finish().is_none());
    let mut c = TreeBuilder::new();
    assert!(!c.close());
    assert!(c.finish().is_none());
}

#[test]
fn navigation_follows_the_tree() {
    let t = sample();
    assert_eq!(t.parent_of(0), None);
    assert_eq!(t.parent_of(4), Some(3));
    assert_eq!(t.end_of(1), 5);
    assert_eq!(t.first_child(0), Some(1));
    assert_eq!(t.first_child(2), None);
    assert_eq!(t.first_child(3), Some(4));
    assert_eq!(t.next_sibling(1), Some(5));
    assert_eq!(t.next_sibling(2), Some(3));
    assert_eq!(t.next_sibling(3), None);
    assert_eq!(t.next_sibling(5), None);
    assert_eq!(t.next_sibling(0), None);
    assert_eq!(t.node(3).tag, "c");
}

#[test]
fn child_by_field_finds_the_first_child_with_the_field() {
    let t = sample();
    assert_eq!(t.child_by_field(1, FieldName::Name), Some(2));
    assert_eq!(t.child_by_field(1, FieldName::Proc), Some(3));
    assert_eq!(t.child_by_field(0, FieldName::Proc), Some(5));
    assert_eq!(t.child_by_field(0, FieldName::Name), None);
    // a grandchild is no child
    assert_eq!(t.child_by_field(0, FieldName::Decls), None);
    assert_eq!(t.child_by_field(3, FieldName::Unnamed), Some(4));
    assert_eq!(t.child_by_field(4, FieldName::Unnamed), None);
}

#[test]
fn nodes_are_found_by_their_span_and_kind() {
    let t = sample();
    assert_eq!(t.find_by_span(0, 10, "source_file"), Some(0));
    assert_eq!(t.find_by_span(3, 4, "d"), Some(4));
    assert_eq!(t.find_by_span(7, 10, "e"), Some(5));
    assert_eq!(t.find_by_span(0, 6, "a"), Some(1));
    // the kind and both ends have to agree
    assert_eq!(t.find_by_span(0, 6, "b"), None);
    assert_eq!(t.find_by_span(0, 5, "a"), None);
    assert_eq!(t.find_by_span(1, 6, "a"), None);
}

#[test]
fn of_nodes_of_one_kind_over_the_same_bytes_the_innermost_is_found() {
    let mut b = TreeBuilder::new();
    assert!(b.open(node("source_file", true, 0, 4)));
    assert!(b.open(node("a", true, 0, 4)));
    assert!(b.open(node("a", true, 0, 4)));
    assert!(b.open(node("a", false, 0, 4)));
    let t = b.finish().unwrap();
    // the last one is not named, so it is not the one
    assert_eq!(t.find_by_span(0, 4, "a"), Some(2));
}

#[test]
fn node_data_keeps_what_it_is_given() {
    let n = node("var", true, 4, 5).with_field(FieldName::Name).with_errors(
        true, false, true,
    );
    assert_eq!(n.kind, NodeKind::Var);
    assert_eq!(n.tag, "var");
    assert_eq!(n.field, FieldName::Name);
    assert!(n.error && !n.missing && n.has_error);
    assert_eq!(n.range().start, Position { line: 0, character: 4 });
    assert_eq!(n.range().end, Position { line: 0, character: 5 });
}

#[test]
fn tags_denote_kinds() {
    assert_eq!(NodeKind::from_tag("new"), NodeKind::New);
    assert_eq!(NodeKind::from_tag("contract"), NodeKind::Contract);
    assert_eq!(NodeKind::from_tag("input"), NodeKind::Input);
    assert_eq!(NodeKind::from_tag("let"), NodeKind::Let);
    assert_eq!(NodeKind::from_tag("case"), NodeKind::Case);
    assert_eq!(NodeKind::from_tag("branch"), NodeKind::Branch);
    assert_eq!(NodeKind::from_tag("var"), NodeKind::Var);
    assert_eq!(NodeKind::from_tag("source_file"), NodeKind::SourceFile);
    assert_eq!(NodeKind::from_tag("block"), NodeKind::Block);
    assert_eq!(NodeKind::from_tag("bundle_read_write"), NodeKind::BundleReadWrite);
    assert_eq!(NodeKind::from_tag("block_comment"), NodeKind::BlockComment);
    assert_eq!(NodeKind::from_tag("peek_bind"), NodeKind::PeekBind);
    assert_eq!(NodeKind::from_tag("nil"), NodeKind::Nil);
    assert_eq!(NodeKind::from_tag("New"), NodeKind::Other);
    assert_eq!(NodeKind::from_tag(""), NodeKind::Other);
    assert_eq!(NodeKind::from_tag("par"), NodeKind::Other);
}

#[test]
fn operator_symbols_are_one_kind() {
    let ops = [
        "!", "!!", "!?", "<-", "<=", "<<-", "=>", "+", "-", "*", "/", "%", "++", "--", "%%",
        "==", "!=", "<", ">", ">=", "\\/", "/\\", "~", "=", "|", "&",
    ];
    for op in ops {
        assert!(is_operator(op));
        assert_eq!(NodeKind::from_tag(op), NodeKind::Operator);
    }
    for other in ["(", ")", "{", "}", ",", ";", "@", "...", "<<", ""] {
        assert!(!is_operator(other));
        assert_eq!(NodeKind::from_tag(other), NodeKind::Other);
    }
}

#[test]
fn field_names_denote_fields() {
    assert_eq!(FieldName::from_name(None), FieldName::Unnamed);
    assert_eq!(FieldName::from_name(Some("name")), FieldName::Name);
    assert_eq!(FieldName::from_name(Some("decls")), FieldName::Decls);
    assert_eq!(FieldName::from_name(Some("formals")), FieldName::Formals);
    assert_eq!(FieldName::from_name(Some("proc")), FieldName::Proc);
    assert_eq!(FieldName::from_name(Some("pattern")), FieldName::Pattern);
    assert_eq!(FieldName::from_name(Some("receipts")), FieldName::Receipts);
    assert_eq!(FieldName::from_name(Some("decl")), FieldName::Decl);
    assert_eq!(FieldName::from_name(Some("channel")), FieldName::Other);
}
