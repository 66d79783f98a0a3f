//! The syntax tree provider.
//!
//! Parsing is done by the `tree_sitter` crate. Its parser, its trees and
//! its nodes are opaque here: nothing is claimed of what a call returns,
//! and what the library builds on them is proved for every value that
//! could come back. `snapshot` copies a provider tree into an arena, which
//! is what the analyses read. The one result that has a name is the node
//! that the provider finds at a point of a tree: `named_node_at` looks it
//! up in the arena, and the queries by position say what they return for
//! that node.

use crate::builder::TreeBuilder;
use crate::kinds::{FieldName, NodeKind};
use crate::position::{to_u32, Position};
use crate::syntax::{idx, NodeData, SyntaxTree};
use tree_sitter::{InputEdit, Node, Parser, Point, Tree, TreeCursor};
use vstd::pervasive::unreached;
use vstd::prelude::*;

verus! {

/// `tree_sitter::Parser`, carried through as an opaque value: a parser with
/// whatever grammar the caller has set on it.
#[verifier::external_type_specification]
#[verifier::external_body]
pub struct ExParser(Parser);

/// `tree_sitter::Tree`, carried through as an opaque value: the provider's
/// own tree, kept for incremental parsing and for lookups by position.
#[verifier::external_type_specification]
#[verifier::external_body]
pub struct ExTree(Tree);

/// `tree_sitter::TreeCursor`, carried through as an opaque value: the place
/// of a walk over a provider tree.
#[verifier::external_type_specification]
#[verifier::external_body]
pub struct ExTreeCursor<'a>(TreeCursor<'a>);

/// `tree_sitter::Node`, carried through as an opaque value: one node of a
/// provider tree, read only through the wrappers below.
#[verifier::external_type_specification]
#[verifier::external_body]
pub struct ExNode<'a>(Node<'a>);

/// A row and a column, as the provider counts them.
#[derive(Clone, Copy, Debug, PartialEq, Eq, Structural)]
pub struct TreePoint {
    pub row: usize,
    pub column: usize,
}

/// One replacement of text, in the coordinates of the provider: the bytes
/// `start_byte..old_end_byte` became the bytes `start_byte..new_end_byte`.
#[derive(Clone, Copy, Debug, PartialEq, Eq, Structural)]
pub struct TreeEdit {
    pub start_byte: usize,
    pub old_end_byte: usize,
    pub new_end_byte: usize,
    pub start_position: TreePoint,
    pub old_end_position: TreePoint,
    pub new_end_position: TreePoint,
}

/// Calls `Parser::parse` on the text, with the tree of an earlier parse if
/// there is one. Nothing is claimed of the result: the parser gives no
/// tree when it has no language, or gave up.
#[verifier::external_body]
pub(crate) fn parse_text(parser: &mut Parser, text: &str, old: Option<&Tree>) -> Option<Tree> {
    parser.parse(text, old)
}

/// Calls `Tree::edit` with the edit, written as an `InputEdit`. Nothing is
/// claimed of the tree afterwards.
#[verifier::external_body]
pub(crate) fn edit_tree(tree: &mut Tree, edit: &TreeEdit) {
    tree.edit(
        &InputEdit {
            start_byte: edit.start_byte,
            old_end_byte: edit.old_end_byte,
            new_end_byte: edit.new_end_byte,
            start_position: Point::new(edit.start_position.row, edit.start_position.column),
            old_end_position: Point::new(edit.old_end_position.row, edit.old_end_position.column),
            new_end_position: Point::new(edit.new_end_position.row, edit.new_end_position.column),
        },
    )
}

/// Calls `Tree::walk`, which gives a cursor on the root.
#[verifier::external_body]
pub(crate) fn tree_cursor<'a>(tree: &'a Tree) -> TreeCursor<'a> {
    tree.walk()
}

/// Calls `TreeCursor::goto_first_child`. The result says whether the
/// cursor moved.
#[verifier::external_body]
pub(crate) fn cursor_goto_first_child(cursor: &mut TreeCursor<'_>) -> bool {
    cursor.goto_first_child()
}

/// Calls `TreeCursor::goto_next_sibling`. The result says whether the
/// cursor moved.
#[verifier::external_body]
pub(crate) fn cursor_goto_next_sibling(cursor: &mut TreeCursor<'_>) -> bool {
    cursor.goto_next_sibling()
}

/// Calls `TreeCursor::goto_parent`. The result says whether the cursor
/// moved.
#[verifier::external_body]
pub(crate) fn cursor_goto_parent(cursor: &mut TreeCursor<'_>) -> bool {
    cursor.goto_parent()
}

/// Calls `TreeCursor::node`.
#[verifier::external_body]
pub(crate) fn cursor_node<'a>(cursor: &TreeCursor<'a>) -> Node<'a> {
    cursor.node()
}

/// Calls `TreeCursor::field_name`.
#[verifier::external_body]
pub(crate) fn cursor_field_name(cursor: &TreeCursor<'_>) -> Option<&'static str> {
    cursor.field_name()
}

/// Calls `Node::kind`.
#[verifier::external_body]
pub(crate) fn node_kind(node: &Node<'_>) -> &'static str {
    node.kind()
}

/// Calls `Node::is_named`.
#[verifier::external_body]
pub(crate) fn node_is_named(node: &Node<'_>) -> bool {
    node.is_named()
}

/// Calls `Node::is_error`.
#[verifier::external_body]
pub(crate) fn node_is_error(node: &Node<'_>) -> bool {
    node.is_error()
}

/// Calls `Node::is_missing`.
#[verifier::external_body]
pub(crate) fn node_is_missing(node: &Node<'_>) -> bool {
    node.is_missing()
}

/// Calls `Node::has_error`.
#[verifier::external_body]
pub(crate) fn node_has_error(node: &Node<'_>) -> bool {
    node.has_error()
}

/// Calls `Node::start_byte`.
#[verifier::external_body]
pub(crate) fn node_start_byte(node: &Node<'_>) -> usize {
    node.start_byte()
}

/// Calls `Node::end_byte`.
#[verifier::external_body]
pub(crate) fn node_end_byte(node: &Node<'_>) -> usize {
    node.end_byte()
}

/// Calls `Node::start_position` and hands out the row and the column of
/// the point.
#[verifier::external_body]
pub(crate) fn node_start_position(node: &Node<'_>) -> TreePoint {
    let p = node.start_position();
    TreePoint { row: p.row, column: p.column }
}

/// Calls `Node::end_position` and hands out the row and the column of the
/// point.
#[verifier::external_body]
pub(crate) fn node_end_position(node: &Node<'_>) -> TreePoint {
    let p = node.end_position();
    TreePoint { row: p.row, column: p.column }
}

/// What the provider finds at a point of a tree: the byte range and the
/// kind tag of the smallest named node that spans the point, or nothing.
/// It is what `Node::named_descendant_for_point_range` gives on the root
/// of the tree, with the point as both ends of the range: a result that
/// the tree and the point fix, read off the node by `Node::start_byte`,
/// `Node::end_byte` and `Node::kind`.
pub uninterp spec fn named_span_at(tree: Tree, row: usize, column: usize) -> Option<
    (usize, usize, Seq<char>),
>;

/// Calls `Tree::root_node` and, on the root,
/// `Node::named_descendant_for_point_range` with the one point as both
/// ends of the range; of the node found it hands out `Node::start_byte`,
/// `Node::end_byte` and `Node::kind`. The contract gives the result its
/// name and claims nothing of what it is.
#[verifier::external_body]
pub(crate) fn find_named_at(tree: &Tree, row: usize, column: usize) -> (r: Option<
    (usize, usize, &'static str),
>)
    ensures
        match r {
            Some(found) => named_span_at(*tree, row, column) == Some(
                (found.0, found.1, found.2@),
            ),
            None => named_span_at(*tree, row, column) is None,
        },
{
    let point = Point::new(row, column);
    match tree.root_node().named_descendant_for_point_range(point, point) {
        Some(node) => Some((node.start_byte(), node.end_byte(), node.kind())),
        None => None,
    }
}

/// Reads what the node under the cursor says of itself.
pub(crate) fn read_node(cursor: &TreeCursor<'_>) -> (d: NodeData)
    ensures
        d.consistent(),
{
    let node = cursor_node(cursor);
    let tag: &'static str = node_kind(&node);
    let start = node_start_position(&node);
    let end = node_end_position(&node);
    NodeData {
        kind: NodeKind::from_tag(tag),
        tag,
        field: FieldName::from_name(cursor_field_name(cursor)),
        named: node_is_named(&node),
        error: node_is_error(&node),
        missing: node_is_missing(&node),
        has_error: node_has_error(&node),
        start_byte: node_start_byte(&node),
        end_byte: node_end_byte(&node),
        start: Position { line: to_u32(start.row), character: to_u32(start.column) },
        end: Position { line: to_u32(end.row), character: to_u32(end.column) },
    }
}

/// Copies a provider tree into an arena, by one depth-first walk of a
/// cursor. The arena is well formed whatever the cursor reports: a node is
/// added below the node that the walk is in, and the walk ends when the
/// cursor is back at the root, or says so.
pub fn snapshot(tree: &Tree) -> (t: SyntaxTree)
    ensures
        t.wf(),
{
    let mut cursor = tree_cursor(tree);
    let mut b = TreeBuilder::new();
    b.open(read_node(&cursor));
    let mut descend = true;
    while b.has_open() && b.count() < usize::MAX
        invariant
            b.inv(),
            b.len() >= 1,
        decreases usize::MAX - b.len(), b.open_depth(), (if descend { 1nat } else { 0nat }),
    {
        if descend {
            if cursor_goto_first_child(&mut cursor) {
                b.open(read_node(&cursor));
            } else {
                descend = false;
            }
        } else {
            b.close();
            if b.has_open() {
                if cursor_goto_next_sibling(&mut cursor) {
                    b.open(read_node(&cursor));
                    descend = true;
                } else if !cursor_goto_parent(&mut cursor) {
                    break ;
                }
            }
        }
    }
    match b.finish() {
        Some(t) => t,
        None => unreached(),
    }
}

/// The node of the arena that a position denotes: the innermost named
/// node of the arena with the byte range and the kind of the node that
/// the provider finds at the position, where it finds one.
pub open spec fn cursor_at(tree: Tree, syntax: &SyntaxTree, pos: Position) -> Option<int> {
    match named_span_at(tree, pos.line as usize, pos.character as usize) {
        Some(found) => syntax.index_of_span(found.0, found.1, found.2, syntax.len()),
        None => None,
    }
}

/// The node that a position denotes is a named node of the arena.
pub proof fn lemma_cursor_at(tree: Tree, syntax: &SyntaxTree, pos: Position)
    requires
        cursor_at(tree, syntax, pos) is Some,
    ensures
        0 <= cursor_at(tree, syntax, pos)->0 < syntax.len(),
        syntax.nodes@[cursor_at(tree, syntax, pos)->0].named,
{
    let found = named_span_at(tree, pos.line as usize, pos.character as usize)->0;
    syntax.lemma_index_of_span(found.0, found.1, found.2, syntax.len());
}

/// The index in `syntax` of the smallest named node of `tree` that spans
/// the position.
pub fn named_node_at(tree: &Tree, syntax: &SyntaxTree, pos: Position) -> (r: Option<usize>)
    requires
        syntax.wf(),
    ensures
        idx(r) == cursor_at(*tree, syntax, pos),
        r matches Some(i) ==> i < syntax.len(),
{
    match find_named_at(tree, pos.line as usize, pos.character as usize) {
        None => None,
        Some(found) => syntax.find_by_span(found.0, found.1, found.2),
    }
}

} // verus!
