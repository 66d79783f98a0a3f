//! Renaming a symbol: one replacement of text for each place that refers
//! to it.

use crate::definition::{
    binder, binding_in, definition_of, definition_or_self, enclosing_scope, first_var,
    is_identifier, lemma_binding_inside, lemma_resolve_binder, lemma_scope_encloses, node_bytes,
    reference_nodes, reference_nodes_at, references_at, references_of, resolve, spans_of, text_is,
    var_in_field, vars_named,
};
use crate::document::Document;
use crate::kinds::{FieldName, NodeKind};
use crate::position::{Position, Range};
use crate::provider::{cursor_at, named_node_at};
use crate::syntax::SyntaxTree;
use vstd::prelude::*;
use vstd::string::*;
use vstd::utf8::*;

verus! {

/// The replacement of the text in a range.
#[derive(Debug)]
pub struct TextEdit {
    pub range: Range,
    pub new_text: String,
}

/// The replacements to make in the document that a URI identifies.
#[derive(Debug)]
pub struct WorkspaceEdit {
    pub uri: String,
    pub edits: Vec<TextEdit>,
}

/// The range of the identifier at node `cursor`, where the node is one:
/// only an identifier can be renamed.
pub open spec fn renameable(t: &SyntaxTree, cursor: int) -> Option<Range> {
    if t.nodes@[cursor].kind == NodeKind::Var {
        Some(t.nodes@[cursor].span())
    } else {
        None
    }
}

/// Whether `edits` replace exactly the given ranges, in their order, each
/// by `new_name`.
pub open spec fn replaces_each(edits: Seq<TextEdit>, ranges: Seq<Range>, new_name: Seq<char>)
    -> bool {
    &&& edits.len() == ranges.len()
    &&& forall|k: int|
        0 <= k < edits.len() ==> (#[trigger] edits[k]).range == ranges[k] && edits[k].new_text@
            == new_name
}

/// Whether node `i` is the same in both trees but for its place in the
/// text: the same parent, the same end, the same kind and the same field.
pub open spec fn same_node(a: &SyntaxTree, b: &SyntaxTree, i: int) -> bool {
    &&& a.parent(i) == b.parent(i)
    &&& a.end(i) == b.end(i)
    &&& a.nodes@[i].kind == b.nodes@[i].kind
    &&& a.nodes@[i].field == b.nodes@[i].field
}

/// Whether two trees have the same shape.
pub open spec fn same_shape(a: &SyntaxTree, b: &SyntaxTree) -> bool {
    &&& a.len() == b.len()
    &&& forall|i: int| 0 <= i < a.len() ==> #[trigger] same_node(a, b, i)
}

/// Whether the nodes that read `old_name` in the one tree are the nodes
/// that read `new_name` in the other.
pub open spec fn renamed(
    a: &SyntaxTree,
    src_a: Seq<u8>,
    old_name: Seq<u8>,
    b: &SyntaxTree,
    src_b: Seq<u8>,
    new_name: Seq<u8>,
) -> bool {
    forall|i: int|
        0 <= i < a.len() ==> #[trigger] text_is(a, src_a, i, old_name) == text_is(
            b,
            src_b,
            i,
            new_name,
        )
}

/// Trees of one shape find the same child by a field.
pub proof fn lemma_same_field_child(
    a: &SyntaxTree,
    b: &SyntaxTree,
    c: int,
    stop: int,
    f: FieldName,
)
    requires
        same_shape(a, b),
    ensures
        a.field_child_from(c, stop, f) == b.field_child_from(c, stop, f),
    decreases stop - c,
{
    if 0 <= c < stop && c < a.len() {
        assert(same_node(a, b, c));
        if a.nodes@[c].field != f && c < a.end(c) <= stop {
            lemma_same_field_child(a, b, a.end(c), stop, f);
        }
    }
}

/// After a renaming the first identifier with the name in a range of
/// nodes is the same node.
pub proof fn lemma_same_first_var(
    a: &SyntaxTree,
    src_a: Seq<u8>,
    old_name: Seq<u8>,
    b: &SyntaxTree,
    src_b: Seq<u8>,
    new_name: Seq<u8>,
    from: int,
    to: int,
)
    requires
        same_shape(a, b),
        renamed(a, src_a, old_name, b, src_b, new_name),
        to <= a.len(),
    ensures
        first_var(a, src_a, old_name, from, to) == first_var(b, src_b, new_name, from, to),
    decreases to - from,
{
    if 0 <= from < to {
        assert(same_node(a, b, from));
        assert(text_is(a, src_a, from, old_name) == text_is(b, src_b, from, new_name));
        lemma_same_first_var(a, src_a, old_name, b, src_b, new_name, from + 1, to);
    }
}

/// After a renaming the first identifier with the name below a field of
/// a node is the same node.
pub proof fn lemma_same_var_in_field(
    a: &SyntaxTree,
    src_a: Seq<u8>,
    old_name: Seq<u8>,
    b: &SyntaxTree,
    src_b: Seq<u8>,
    new_name: Seq<u8>,
    x: int,
    f: FieldName,
)
    requires
        a.wf(),
        same_shape(a, b),
        renamed(a, src_a, old_name, b, src_b, new_name),
        0 <= x < a.len(),
    ensures
        a.field_child(x, f) == b.field_child(x, f),
        var_in_field(a, src_a, old_name, x, f) == var_in_field(b, src_b, new_name, x, f),
{
    assert(same_node(a, b, x));
    lemma_same_field_child(a, b, x + 1, a.end(x), f);
    if a.field_child(x, f) is Some {
        let c = a.field_child(x, f)->0;
        a.lemma_field_child(x, f);
        assert(same_node(a, b, c));
        lemma_same_first_var(a, src_a, old_name, b, src_b, new_name, c, a.end(c));
    }
}

/// After a renaming a construct binds the name in the same node.
pub proof fn lemma_same_binding(
    a: &SyntaxTree,
    src_a: Seq<u8>,
    old_name: Seq<u8>,
    b: &SyntaxTree,
    src_b: Seq<u8>,
    new_name: Seq<u8>,
    x: int,
)
    requires
        a.wf(),
        same_shape(a, b),
        renamed(a, src_a, old_name, b, src_b, new_name),
        0 <= x < a.len(),
    ensures
        binding_in(a, src_a, old_name, x) == binding_in(b, src_b, new_name, x),
{
    assert(same_node(a, b, x));
    lemma_same_var_in_field(a, src_a, old_name, b, src_b, new_name, x, FieldName::Decls);
    lemma_same_var_in_field(a, src_a, old_name, b, src_b, new_name, x, FieldName::Formals);
    lemma_same_var_in_field(a, src_a, old_name, b, src_b, new_name, x, FieldName::Receipts);
    lemma_same_var_in_field(a, src_a, old_name, b, src_b, new_name, x, FieldName::Pattern);
    lemma_same_var_in_field(a, src_a, old_name, b, src_b, new_name, x, FieldName::Name);
    let own = a.field_child(x, FieldName::Name);
    if own is Some {
        a.lemma_field_child(x, FieldName::Name);
        assert(text_is(a, src_a, own->0, old_name) == text_is(b, src_b, own->0, new_name));
    }
}

/// After a renaming the name resolves to the same node.
pub proof fn lemma_same_resolve(
    a: &SyntaxTree,
    src_a: Seq<u8>,
    old_name: Seq<u8>,
    b: &SyntaxTree,
    src_b: Seq<u8>,
    new_name: Seq<u8>,
    node: int,
)
    requires
        a.wf(),
        b.wf(),
        same_shape(a, b),
        renamed(a, src_a, old_name, b, src_b, new_name),
    ensures
        resolve(a, src_a, old_name, node) == resolve(b, src_b, new_name, node),
    decreases node,
{
    if 0 < node < a.len() {
        assert(same_node(a, b, node));
        let p = a.parent(node);
        lemma_same_binding(a, src_a, old_name, b, src_b, new_name, p);
        lemma_same_resolve(a, src_a, old_name, b, src_b, new_name, p);
    }
}

/// Trees of one shape have the same scopes.
pub proof fn lemma_same_scope(a: &SyntaxTree, b: &SyntaxTree, n: int)
    requires
        a.wf(),
        b.wf(),
        same_shape(a, b),
        0 <= n < a.len(),
    ensures
        enclosing_scope(a, n) == enclosing_scope(b, n),
    decreases n,
{
    assert(same_node(a, b, n));
    if !(a.nodes@[n].kind == NodeKind::SourceFile || a.nodes@[n].kind == NodeKind::Block) && n > 0 {
        lemma_same_scope(a, b, a.parent(n));
    }
}

/// After a renaming the identifiers with the name in a range of nodes are
/// the same nodes.
pub proof fn lemma_same_vars_named(
    a: &SyntaxTree,
    src_a: Seq<u8>,
    old_name: Seq<u8>,
    b: &SyntaxTree,
    src_b: Seq<u8>,
    new_name: Seq<u8>,
    from: int,
    to: int,
)
    requires
        same_shape(a, b),
        renamed(a, src_a, old_name, b, src_b, new_name),
        0 <= from,
        to <= a.len(),
    ensures
        vars_named(a, src_a, old_name, from, to) == vars_named(b, src_b, new_name, from, to),
    decreases to - from,
{
    if from < to {
        assert(same_node(a, b, to - 1));
        assert(text_is(a, src_a, to - 1, old_name) == text_is(b, src_b, to - 1, new_name));
        lemma_same_vars_named(a, src_a, old_name, b, src_b, new_name, from, to - 1);
    }
}

/// Renaming keeps the references.
///
/// Take the tree of a text, and the tree of the text after a renaming:
/// a tree of the same shape, in which the nodes that read `new_name` are
/// those that read `old_name` before. Then from every node the name
/// resolves to the same node in both, and has the same references. So a
/// renaming to a name that was not in use, and the renaming back, each
/// keep the references, node for node; only their places in the text
/// move.
pub proof fn law_renaming_keeps_references(
    a: &SyntaxTree,
    src_a: Seq<u8>,
    old_name: Seq<u8>,
    b: &SyntaxTree,
    src_b: Seq<u8>,
    new_name: Seq<u8>,
    cursor: int,
)
    requires
        a.wf(),
        b.wf(),
        same_shape(a, b),
        renamed(a, src_a, old_name, b, src_b, new_name),
        0 <= cursor < a.len(),
    ensures
        resolve(a, src_a, old_name, cursor) == resolve(b, src_b, new_name, cursor),
        reference_nodes(a, src_a, old_name, cursor) == reference_nodes(
            b,
            src_b,
            new_name,
            cursor,
        ),
{
    lemma_same_resolve(a, src_a, old_name, b, src_b, new_name, cursor);
    let d = definition_or_self(a, src_a, old_name, cursor);
    if resolve(a, src_a, old_name, cursor) is Some {
        lemma_resolve_binder(a, src_a, old_name, cursor);
        let x = binder(a, src_a, old_name, cursor);
        lemma_binding_inside(a, src_a, old_name, x);
    }
    lemma_scope_encloses(a, d);
    lemma_same_scope(a, b, d);
    let scope = enclosing_scope(a, d);
    assert(same_node(a, b, scope));
    lemma_same_vars_named(a, src_a, old_name, b, src_b, new_name, scope, a.end(scope));
}

/// Renaming the identifier at a node keeps its definition and its
/// references.
///
/// This is the law above for the identifier at node `cursor`, over the
/// texts as the documents hold them: where the tree after the renaming has
/// the shape of the tree before, and the nodes that read the new text of
/// the identifier are those that read its old text, the identifier has the
/// same definition and the same references, and so as many of them.
pub proof fn law_rename_keeps_references(
    a: &SyntaxTree,
    src_a: Seq<char>,
    b: &SyntaxTree,
    src_b: Seq<char>,
    cursor: int,
)
    requires
        a.wf(),
        b.wf(),
        same_shape(a, b),
        0 <= cursor < a.len(),
        is_identifier(a, src_a, cursor),
        is_identifier(b, src_b, cursor),
        renamed(
            a,
            encode_utf8(src_a),
            node_bytes(a, src_a, cursor),
            b,
            encode_utf8(src_b),
            node_bytes(b, src_b, cursor),
        ),
    ensures
        definition_of(a, src_a, cursor) == definition_of(b, src_b, cursor),
        references_of(a, src_a, cursor) == references_of(b, src_b, cursor),
        spans_of(a, references_of(a, src_a, cursor)).len() == spans_of(
            b,
            references_of(b, src_b, cursor),
        ).len(),
{
    law_renaming_keeps_references(
        a,
        encode_utf8(src_a),
        node_bytes(a, src_a, cursor),
        b,
        encode_utf8(src_b),
        node_bytes(b, src_b, cursor),
        cursor,
    );
}

/// Renames the identifier at node `cursor`: replaces every reference to
/// it by `new_name`, which is taken as it is. Nothing is renamed where
/// there is no reference.
pub fn rename_at_node(t: &SyntaxTree, source: &str, cursor: usize, new_name: &str, uri: &str)
    -> (r: Option<WorkspaceEdit>)
    requires
        t.wf(),
        cursor < t.len(),
    ensures
        r is Some <==> references_of(t, source@, cursor as int).len() > 0,
        r matches Some(edit) ==> edit.uri@ == uri@ && replaces_each(
            edit.edits@,
            spans_of(t, references_of(t, source@, cursor as int)),
            new_name@,
        ),
{
    let nodes = reference_nodes_at(t, source, cursor);
    if nodes.len() == 0 {
        return None;
    }
    let ghost expected = references_of(t, source@, cursor as int);
    let mut edits: Vec<TextEdit> = Vec::new();
    let mut k: usize = 0;
    while k < nodes.len()
        invariant
            t.wf(),
            k <= nodes@.len(),
            edits@.len() == k,
            nodes@.map_values(|i: usize| i as int) == expected,
            forall|j: int| 0 <= j < nodes@.len() ==> nodes@[j] < t.len(),
            forall|j: int|
                0 <= j < k ==> (#[trigger] edits@[j]).range == spans_of(t, expected)[j]
                    && edits@[j].new_text@ == new_name@,
        decreases nodes@.len() - k,
    {
        let n: usize = nodes[k];
        edits.push(TextEdit { range: t.node(n).range(), new_text: String::from_str(new_name) });
        k += 1;
    }
    Some(WorkspaceEdit { uri: String::from_str(uri), edits })
}

/// Tells whether the node at `cursor` can be renamed, and gives its range.
pub fn prepare_rename_at_node(t: &SyntaxTree, cursor: usize) -> (r: Option<Range>)
    requires
        t.wf(),
        cursor < t.len(),
    ensures
        r == renameable(t, cursor as int),
{
    let node = t.node(cursor);
    if node.kind == NodeKind::Var {
        Some(node.range())
    } else {
        None
    }
}

/// Renames the symbol at a position of a document: replaces every
/// reference to it by `new_name`, which is taken as it is. Nothing is
/// renamed where there is no reference.
pub fn rename(doc: &Document, pos: Position, new_name: String, uri: &str) -> (r: Option<
    WorkspaceEdit,
>)
    requires
        doc.wf(),
    ensures
        r is Some <==> references_at(doc, pos).len() > 0,
        r matches Some(edit) ==> edit.uri@ == uri@ && replaces_each(
            edit.edits@,
            spans_of(&doc.syntax, references_at(doc, pos)),
            new_name@,
        ),
{
    match named_node_at(&doc.tree, &doc.syntax, pos) {
        None => None,
        Some(cursor) => rename_at_node(
            &doc.syntax,
            doc.source.as_str(),
            cursor,
            new_name.as_str(),
            uri,
        ),
    }
}

/// Tells whether the symbol at a position of a document can be renamed,
/// by its range: only an identifier can.
pub fn prepare_rename(doc: &Document, pos: Position) -> (r: Option<Range>)
    requires
        doc.wf(),
    ensures
        r == match cursor_at(doc.tree, &doc.syntax, pos) {
            Some(cursor) => renameable(&doc.syntax, cursor),
            None => None,
        },
{
    match named_node_at(&doc.tree, &doc.syntax, pos) {
        None => None,
        Some(cursor) => prepare_rename_at_node(&doc.syntax, cursor),
    }
}

} // verus!
