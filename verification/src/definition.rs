//! The scope resolver: from an identifier to its definition, and to all
//! the places that refer to it.
//!
//! A name is defined by the nearest enclosing construct that binds it.
//! The walk goes from the identifier up through its ancestors; at each one
//! the table of binding constructs says which field of that ancestor may
//! introduce names; the first identifier with the wanted text in that
//! field, in tree order, is the definition. The references of a name are
//! all identifiers with its text in the block, or the file, that encloses
//! the definition.

use crate::document::Document;
use crate::kinds::{FieldName, NodeKind};
use crate::position::{Location, Position, Range};
use crate::provider::{cursor_at, lemma_cursor_at, named_node_at};
use crate::syntax::{idx, SyntaxTree};
use crate::text::{bytes_match, range_equals, slice_text, text_between, text_in_range};
use vstd::prelude::*;
use vstd::string::*;
use vstd::utf8::*;

verus! {

/// The URI of a location that the caller has yet to fill in.
pub open spec fn placeholder_uri() -> Seq<char> {
    "file:///"@
}

/// Whether the text of node `i` is `name`. A node whose byte range does
/// not lie in the source has no text.
pub open spec fn text_is(t: &SyntaxTree, src: Seq<u8>, i: int, name: Seq<u8>) -> bool {
    bytes_match(src, t.nodes@[i].start_byte as int, t.nodes@[i].end_byte as int, name)
}

/// Whether node `i` is an identifier with the text `name`.
pub open spec fn is_var_named(t: &SyntaxTree, src: Seq<u8>, i: int, name: Seq<u8>) -> bool {
    t.nodes@[i].kind == NodeKind::Var && text_is(t, src, i, name)
}

/// The first identifier named `name` among the nodes `from..to`.
pub open spec fn first_var(t: &SyntaxTree, src: Seq<u8>, name: Seq<u8>, from: int, to: int)
    -> Option<int>
    decreases to - from,
{
    if from < 0 || from >= to {
        None
    } else if is_var_named(t, src, from, name) {
        Some(from)
    } else {
        first_var(t, src, name, from + 1, to)
    }
}

/// The first identifier named `name` in the subtree of node `n`.
pub open spec fn var_in_subtree(t: &SyntaxTree, src: Seq<u8>, name: Seq<u8>, n: int) -> Option<
    int,
> {
    first_var(t, src, name, n, t.end(n))
}

/// The first identifier named `name` below the child of `a` that has
/// field `f`.
pub open spec fn var_in_field(t: &SyntaxTree, src: Seq<u8>, name: Seq<u8>, a: int, f: FieldName)
    -> Option<int> {
    match t.field_child(a, f) {
        Some(c) => var_in_subtree(t, src, name, c),
        None => None,
    }
}

/// The table of binding constructs: the node in which construct `a`
/// introduces `name`, if it does.
///
/// A channel introduction and a local binding bind the names below their
/// declarations; a named procedure binds its own name, and the names below
/// its formal parameters; a receive binds the names below its receipts; an
/// arm of a match or of a select binds the names below its pattern.
pub open spec fn binding_in(t: &SyntaxTree, src: Seq<u8>, name: Seq<u8>, a: int) -> Option<int> {
    match t.nodes@[a].kind {
        NodeKind::New | NodeKind::Let => var_in_field(t, src, name, a, FieldName::Decls),
        NodeKind::Contract => {
            let own = t.field_child(a, FieldName::Name);
            if own is Some && text_is(t, src, own->0, name) {
                own
            } else {
                var_in_field(t, src, name, a, FieldName::Formals)
            }
        },
        NodeKind::Input => var_in_field(t, src, name, a, FieldName::Receipts),
        NodeKind::Case | NodeKind::Branch => var_in_field(t, src, name, a, FieldName::Pattern),
        _ => None,
    }
}

/// The definition of `name` as seen from `node`: what the nearest proper
/// ancestor of `node` that binds `name` binds it to. Nothing binds a name
/// that no ancestor introduces.
pub open spec fn resolve(t: &SyntaxTree, src: Seq<u8>, name: Seq<u8>, node: int) -> Option<int>
    decreases node,
{
    if 0 < node < t.len() && 0 <= t.parent(node) < node {
        match binding_in(t, src, name, t.parent(node)) {
            Some(d) => Some(d),
            None => resolve(t, src, name, t.parent(node)),
        }
    } else {
        None
    }
}

/// The nearest proper ancestor of `node` that binds `name`, or -1.
pub open spec fn binder(t: &SyntaxTree, src: Seq<u8>, name: Seq<u8>, node: int) -> int
    decreases node,
{
    if 0 < node < t.len() && 0 <= t.parent(node) < node {
        if binding_in(t, src, name, t.parent(node)) is Some {
            t.parent(node)
        } else {
            binder(t, src, name, t.parent(node))
        }
    } else {
        -1
    }
}

/// Whether a node of this kind bounds the visibility of the names defined
/// in it: a block, or the file.
pub open spec fn is_scope_kind(k: NodeKind) -> bool {
    k == NodeKind::SourceFile || k == NodeKind::Block
}

/// The nearest block or file that is `n` or encloses it; the root where
/// there is none.
pub open spec fn enclosing_scope(t: &SyntaxTree, n: int) -> int
    decreases n,
{
    if is_scope_kind(t.nodes@[n].kind) {
        n
    } else if 0 < n < t.len() && 0 <= t.parent(n) < n {
        enclosing_scope(t, t.parent(n))
    } else {
        n
    }
}

/// The identifiers named `name` among the nodes `from..to`, in tree order.
pub open spec fn vars_named(t: &SyntaxTree, src: Seq<u8>, name: Seq<u8>, from: int, to: int)
    -> Seq<int>
    decreases to - from,
{
    if to <= from {
        Seq::empty()
    } else if is_var_named(t, src, to - 1, name) {
        vars_named(t, src, name, from, to - 1).push(to - 1)
    } else {
        vars_named(t, src, name, from, to - 1)
    }
}

/// The node that the references of `name` are gathered around: its
/// definition as seen from `cursor`, or `cursor` itself where nothing
/// defines it.
pub open spec fn definition_or_self(t: &SyntaxTree, src: Seq<u8>, name: Seq<u8>, cursor: int)
    -> int {
    match resolve(t, src, name, cursor) {
        Some(d) => d,
        None => cursor,
    }
}

/// The references of `name` as seen from `cursor`: every identifier with
/// that text in the scope that encloses the definition, in tree order.
/// Identifiers in a nested construct that binds the name anew are among
/// them.
pub open spec fn reference_nodes(t: &SyntaxTree, src: Seq<u8>, name: Seq<u8>, cursor: int) -> Seq<
    int,
> {
    let scope = enclosing_scope(t, definition_or_self(t, src, name, cursor));
    vars_named(t, src, name, scope, t.end(scope))
}

/// Whether node `i` is an identifier whose text can be read.
pub open spec fn is_identifier(t: &SyntaxTree, src: Seq<char>, i: int) -> bool {
    &&& t.nodes@[i].kind == NodeKind::Var
    &&& text_in_range(src, t.nodes@[i].start_byte as int, t.nodes@[i].end_byte as int)
}

/// The bytes of the text of node `i`.
pub open spec fn node_bytes(t: &SyntaxTree, src: Seq<char>, i: int) -> Seq<u8> {
    encode_utf8(src).subrange(t.nodes@[i].start_byte as int, t.nodes@[i].end_byte as int)
}

/// The definition of the identifier at node `cursor`.
pub open spec fn definition_of(t: &SyntaxTree, src: Seq<char>, cursor: int) -> Option<int> {
    if is_identifier(t, src, cursor) {
        resolve(t, encode_utf8(src), node_bytes(t, src, cursor), cursor)
    } else {
        None
    }
}

/// The references of the identifier at node `cursor`.
pub open spec fn references_of(t: &SyntaxTree, src: Seq<char>, cursor: int) -> Seq<int> {
    if is_identifier(t, src, cursor) {
        reference_nodes(t, encode_utf8(src), node_bytes(t, src, cursor), cursor)
    } else {
        Seq::empty()
    }
}

/// What the search of a range finds lies in the range and is an
/// identifier with the wanted name.
pub proof fn lemma_first_var(t: &SyntaxTree, src: Seq<u8>, name: Seq<u8>, from: int, to: int)
    requires
        first_var(t, src, name, from, to) is Some,
    ensures
        from <= first_var(t, src, name, from, to)->0 < to,
        is_var_named(t, src, first_var(t, src, name, from, to)->0, name),
    decreases to - from,
{
    if !is_var_named(t, src, from, name) {
        lemma_first_var(t, src, name, from + 1, to);
    }
}

/// What a construct binds a name to lies within the construct and has the
/// name as its text.
pub proof fn lemma_binding_inside(t: &SyntaxTree, src: Seq<u8>, name: Seq<u8>, a: int)
    requires
        t.wf(),
        0 <= a < t.len(),
        binding_in(t, src, name, a) is Some,
    ensures
        a < binding_in(t, src, name, a)->0 < t.end(a),
        text_is(t, src, binding_in(t, src, name, a)->0, name),
{
    let own = t.field_child(a, FieldName::Name);
    if t.nodes@[a].kind == NodeKind::Contract && own is Some && text_is(t, src, own->0, name) {
        t.lemma_field_child(a, FieldName::Name);
    } else {
        let f = match t.nodes@[a].kind {
            NodeKind::New | NodeKind::Let => FieldName::Decls,
            NodeKind::Contract => FieldName::Formals,
            NodeKind::Input => FieldName::Receipts,
            _ => FieldName::Pattern,
        };
        t.lemma_field_child(a, f);
        let c = t.field_child(a, f)->0;
        lemma_first_var(t, src, name, c, t.end(c));
    }
}

/// Where a name resolves, the nearest ancestor that binds it is an
/// ancestor, and binds it to what it resolves to.
pub proof fn lemma_resolve_binder(t: &SyntaxTree, src: Seq<u8>, name: Seq<u8>, u: int)
    requires
        t.wf(),
        0 <= u < t.len(),
        resolve(t, src, name, u) is Some,
    ensures
        0 <= binder(t, src, name, u) < u,
        t.is_ancestor(binder(t, src, name, u), u),
        binding_in(t, src, name, binder(t, src, name, u)) == resolve(t, src, name, u),
    decreases u,
{
    let p = t.parent(u);
    if binding_in(t, src, name, p) is None {
        lemma_resolve_binder(t, src, name, p);
    }
}

/// An ancestor of an ancestor is an ancestor.
pub proof fn lemma_ancestor_transitive(t: &SyntaxTree, a: int, b: int, c: int)
    requires
        t.wf(),
        0 <= c < t.len(),
        t.is_ancestor(a, b),
        t.is_ancestor(b, c),
    ensures
        t.is_ancestor(a, c),
{
    t.lemma_ancestor_spans(b, c);
    t.lemma_ancestor_spans(a, b);
    t.lemma_spanned_descends(a, c);
}

/// Below a construct that binds a name, the name resolves, and to a node
/// within that construct.
pub proof fn lemma_resolve_stays_inside(
    t: &SyntaxTree,
    src: Seq<u8>,
    name: Seq<u8>,
    a: int,
    x: int,
)
    requires
        t.wf(),
        0 <= x < t.len(),
        t.is_ancestor(a, x),
        binding_in(t, src, name, a) is Some,
    ensures
        resolve(t, src, name, x) is Some,
        a < resolve(t, src, name, x)->0 < t.end(a),
    decreases x,
{
    t.lemma_ancestor_spans(a, x);
    let p = t.parent(x);
    if p == a {
        lemma_binding_inside(t, src, name, a);
    } else if binding_in(t, src, name, p) is Some {
        lemma_binding_inside(t, src, name, p);
        t.lemma_ancestor_spans(a, p);
    } else {
        lemma_resolve_stays_inside(t, src, name, a, p);
    }
}

/// The scope of a node is the node or one of its ancestors.
pub proof fn lemma_scope_encloses(t: &SyntaxTree, n: int)
    requires
        t.wf(),
        0 <= n < t.len(),
    ensures
        0 <= enclosing_scope(t, n) <= n,
        t.within(enclosing_scope(t, n), n),
        n < t.end(enclosing_scope(t, n)),
    decreases n,
{
    if !is_scope_kind(t.nodes@[n].kind) && n > 0 {
        let p = t.parent(n);
        lemma_scope_encloses(t, p);
        let s = enclosing_scope(t, p);
        if s != p {
            t.lemma_ancestor_spans(s, p);
        }
        t.lemma_spanned_descends(s, n);
    }
}

/// Whether no node strictly below `a` and on the way up from `n` is a
/// block.
pub open spec fn no_block_between(t: &SyntaxTree, a: int, n: int) -> bool {
    forall|k: int|
        0 <= k < t.len() && #[trigger] t.is_ancestor(a, k) && t.within(k, n) ==> !is_scope_kind(
            t.nodes@[k].kind,
        )
}

/// Where no block lies between a node and one of its ancestors, the two
/// have the same scope.
pub proof fn lemma_scope_above(t: &SyntaxTree, a: int, n: int)
    requires
        t.wf(),
        0 <= n < t.len(),
        t.is_ancestor(a, n),
        no_block_between(t, a, n),
    ensures
        enclosing_scope(t, n) == enclosing_scope(t, a),
    decreases n,
{
    let p = t.parent(n);
    if p != a {
        assert forall|k: int|
            0 <= k < t.len() && #[trigger] t.is_ancestor(a, k) && t.within(
                k,
                p,
            ) implies !is_scope_kind(t.nodes@[k].kind) by {
            if k != p {
                lemma_ancestor_transitive(t, k, p, n);
            }
        }
        lemma_scope_above(t, a, p);
    }
}

/// Every identifier with the name in a range is among those collected
/// from the range.
pub proof fn lemma_vars_named_has(
    t: &SyntaxTree,
    src: Seq<u8>,
    name: Seq<u8>,
    from: int,
    to: int,
    u: int,
)
    requires
        from <= u < to,
        is_var_named(t, src, u, name),
    ensures
        vars_named(t, src, name, from, to).contains(u),
    decreases to - from,
{
    if u == to - 1 {
        let s = vars_named(t, src, name, from, to - 1).push(u);
        assert(s[s.len() - 1] == u);
    } else {
        lemma_vars_named_has(t, src, name, from, to - 1, u);
        let s = vars_named(t, src, name, from, to - 1);
        let k = choose|k: int| 0 <= k < s.len() && s[k] == u;
        if is_var_named(t, src, to - 1, name) {
            assert(s.push(to - 1)[k] == u);
        }
    }
}

/// What is collected from a range are the identifiers with the name in
/// the range, and no others.
pub proof fn lemma_vars_named_sound(
    t: &SyntaxTree,
    src: Seq<u8>,
    name: Seq<u8>,
    from: int,
    to: int,
    k: int,
)
    requires
        0 <= k < vars_named(t, src, name, from, to).len(),
    ensures
        from <= vars_named(t, src, name, from, to)[k] < to,
        is_var_named(t, src, vars_named(t, src, name, from, to)[k], name),
    decreases to - from,
{
    if is_var_named(t, src, to - 1, name) {
        if k < vars_named(t, src, name, from, to - 1).len() {
            lemma_vars_named_sound(t, src, name, from, to - 1, k);
        }
    } else {
        lemma_vars_named_sound(t, src, name, from, to - 1, k);
    }
}

/// What is collected from a range comes in the order of the tree, each
/// node once.
pub proof fn lemma_vars_named_ordered(
    t: &SyntaxTree,
    src: Seq<u8>,
    name: Seq<u8>,
    from: int,
    to: int,
    j: int,
    k: int,
)
    requires
        0 <= j < k < vars_named(t, src, name, from, to).len(),
    ensures
        vars_named(t, src, name, from, to)[j] < vars_named(t, src, name, from, to)[k],
    decreases to - from,
{
    let shorter = vars_named(t, src, name, from, to - 1);
    if k < shorter.len() {
        lemma_vars_named_ordered(t, src, name, from, to - 1, j, k);
    } else {
        lemma_vars_named_sound(t, src, name, from, to - 1, j);
    }
}

/// The references of a name are the identifiers with its text in the
/// scope that encloses its definition: all of them, no others, each once,
/// in the order of the tree.
pub proof fn law_references_are_the_scope(t: &SyntaxTree, src: Seq<u8>, name: Seq<u8>, cursor: int)
    ensures
        ({
            let scope = enclosing_scope(t, definition_or_self(t, src, name, cursor));
            let refs = reference_nodes(t, src, name, cursor);
            &&& forall|k: int|
                0 <= k < refs.len() ==> scope <= #[trigger] refs[k] < t.end(scope) && is_var_named(
                    t,
                    src,
                    refs[k],
                    name,
                )
            &&& forall|i: int|
                scope <= i < t.end(scope) && is_var_named(t, src, i, name)
                    ==> #[trigger] refs.contains(i)
            &&& forall|j: int, k: int|
                0 <= j < k < refs.len() ==> #[trigger] refs[j] < #[trigger] refs[k]
        }),
{
    let scope = enclosing_scope(t, definition_or_self(t, src, name, cursor));
    let refs = reference_nodes(t, src, name, cursor);
    assert forall|k: int| 0 <= k < refs.len() implies scope <= #[trigger] refs[k] < t.end(scope)
        && is_var_named(t, src, refs[k], name) by {
        lemma_vars_named_sound(t, src, name, scope, t.end(scope), k);
    }
    assert forall|i: int|
        scope <= i < t.end(scope) && is_var_named(t, src, i, name) implies #[trigger] refs.contains(
        i,
    ) by {
        lemma_vars_named_has(t, src, name, scope, t.end(scope), i);
    }
    assert forall|j: int, k: int| 0 <= j < k < refs.len() implies #[trigger] refs[j]
        < #[trigger] refs[k] by {
        lemma_vars_named_ordered(t, src, name, scope, t.end(scope), j, k);
    }
}

/// Whether node `u` lies in the scope in which the references of `name`
/// are gathered when they are asked for at node `d`: the block or file
/// that encloses the definition of `name` as seen from `d`.
pub open spec fn in_reference_scope(t: &SyntaxTree, src: Seq<u8>, name: Seq<u8>, d: int, u: int)
    -> bool {
    let scope = enclosing_scope(t, definition_or_self(t, src, name, d));
    scope <= u < t.end(scope)
}

/// A use of a name is among the references of its definition.
///
/// Let `u` be an identifier named `name` that resolves to the node `d`,
/// and let `u` lie in the scope in which the references are gathered from
/// `d`. Then `d` reads `name`, and `u` is one of the references of `name`
/// found from `d`. A use outside that scope is not among them: the
/// references of a name are gathered in the block that encloses its
/// definition, and nowhere else.
pub proof fn law_use_is_among_references(t: &SyntaxTree, src: Seq<u8>, name: Seq<u8>, u: int)
    requires
        t.wf(),
        0 <= u < t.len(),
        is_var_named(t, src, u, name),
        resolve(t, src, name, u) is Some,
        in_reference_scope(t, src, name, resolve(t, src, name, u)->0, u),
    ensures
        0 <= resolve(t, src, name, u)->0 < t.len(),
        text_is(t, src, resolve(t, src, name, u)->0, name),
        reference_nodes(t, src, name, resolve(t, src, name, u)->0).contains(u),
{
    let d = resolve(t, src, name, u)->0;
    let a = binder(t, src, name, u);
    lemma_resolve_binder(t, src, name, u);
    lemma_binding_inside(t, src, name, a);
    let scope = enclosing_scope(t, definition_or_self(t, src, name, d));
    lemma_vars_named_has(t, src, name, scope, t.end(scope), u);
}

/// Where no block lies between the construct that binds a name for a use
/// and the definition that the references are gathered around, the use
/// lies in the scope of the references: the block that encloses the
/// definition then encloses the whole construct, and the use with it.
pub proof fn lemma_use_below_binder_is_in_scope(
    t: &SyntaxTree,
    src: Seq<u8>,
    name: Seq<u8>,
    u: int,
)
    requires
        t.wf(),
        0 <= u < t.len(),
        resolve(t, src, name, u) is Some,
        no_block_between(
            t,
            binder(t, src, name, u),
            definition_or_self(t, src, name, resolve(t, src, name, u)->0),
        ),
    ensures
        in_reference_scope(t, src, name, resolve(t, src, name, u)->0, u),
{
    let d = resolve(t, src, name, u)->0;
    let a = binder(t, src, name, u);
    lemma_resolve_binder(t, src, name, u);
    lemma_binding_inside(t, src, name, a);
    t.lemma_ancestor_spans(a, u);
    t.lemma_spanned_descends(a, d);
    lemma_resolve_stays_inside(t, src, name, a, d);
    let start = definition_or_self(t, src, name, d);
    t.lemma_spanned_descends(a, start);
    lemma_scope_above(t, a, start);
    lemma_scope_encloses(t, a);
    let scope = enclosing_scope(t, a);
    if scope != a {
        t.lemma_ancestor_spans(scope, a);
    }
}

/// Going to the definition of an identifier and asking for the references
/// there finds the identifier again.
///
/// Let the identifier at node `u` have its definition at node `d`, an
/// identifier whose text can be read, and let `u` lie in the scope in
/// which the references are gathered from `d`. Then the references of the
/// identifier at `d` hold `u`.
pub proof fn law_definition_then_references(t: &SyntaxTree, src: Seq<char>, u: int)
    requires
        t.wf(),
        0 <= u < t.len(),
        definition_of(t, src, u) is Some,
        is_identifier(t, src, definition_of(t, src, u)->0),
        in_reference_scope(
            t,
            encode_utf8(src),
            node_bytes(t, src, u),
            definition_of(t, src, u)->0,
            u,
        ),
    ensures
        references_of(t, src, definition_of(t, src, u)->0).contains(u),
{
    let name = node_bytes(t, src, u);
    law_use_is_among_references(t, encode_utf8(src), name, u);
}

/// Tells whether node `i` is an identifier named `name`.
pub fn var_is_named(t: &SyntaxTree, src: &[u8], i: usize, name: &[u8]) -> (r: bool)
    requires
        t.wf(),
        i < t.len(),
    ensures
        r == is_var_named(t, src@, i as int, name@),
{
    let node = t.node(i);
    node.kind == NodeKind::Var && range_equals(src, node.start_byte, node.end_byte, name)
}

/// Searches the subtree of node `n` for the first identifier named
/// `name`.
pub fn find_var_in_subtree(t: &SyntaxTree, src: &[u8], n: usize, name: &[u8]) -> (r: Option<usize>)
    requires
        t.wf(),
        n < t.len(),
    ensures
        idx(r) == var_in_subtree(t, src@, name@, n as int),
        r matches Some(d) ==> n <= d < t.end(n as int),
{
    let stop: usize = t.end_of(n);
    let mut i: usize = n;
    while i < stop
        invariant
            t.wf(),
            n <= i <= stop,
            stop == t.end(n as int),
            stop <= t.len(),
            var_in_subtree(t, src@, name@, n as int) == first_var(
                t,
                src@,
                name@,
                i as int,
                stop as int,
            ),
        decreases stop - i,
    {
        if var_is_named(t, src, i, name) {
            return Some(i);
        }
        i += 1;
    }
    None
}

/// Searches below the child of `a` with field `f`.
pub fn find_var_in_field(t: &SyntaxTree, src: &[u8], a: usize, f: FieldName, name: &[u8]) -> (r:
    Option<usize>)
    requires
        t.wf(),
        a < t.len(),
    ensures
        idx(r) == var_in_field(t, src@, name@, a as int, f),
        r matches Some(d) ==> a < d < t.end(a as int),
{
    match t.child_by_field(a, f) {
        Some(c) => find_var_in_subtree(t, src, c, name),
        None => None,
    }
}

/// Looks `name` up in the table of binding constructs for node `a`.
pub fn find_binding(t: &SyntaxTree, src: &[u8], a: usize, name: &[u8]) -> (r: Option<usize>)
    requires
        t.wf(),
        a < t.len(),
    ensures
        idx(r) == binding_in(t, src@, name@, a as int),
        r matches Some(d) ==> a < d < t.end(a as int),
{
    match t.node(a).kind {
        NodeKind::New | NodeKind::Let => find_var_in_field(t, src, a, FieldName::Decls, name),
        NodeKind::Contract => {
            match t.child_by_field(a, FieldName::Name) {
                Some(own) => {
                    let node = t.node(own);
                    if range_equals(src, node.start_byte, node.end_byte, name) {
                        Some(own)
                    } else {
                        find_var_in_field(t, src, a, FieldName::Formals, name)
                    }
                },
                None => find_var_in_field(t, src, a, FieldName::Formals, name),
            }
        },
        NodeKind::Input => find_var_in_field(t, src, a, FieldName::Receipts, name),
        NodeKind::Case | NodeKind::Branch => find_var_in_field(
            t,
            src,
            a,
            FieldName::Pattern,
            name,
        ),
        _ => None,
    }
}

/// Walks up from `cursor` to the nearest construct that binds `name`, and
/// gives the node that it binds the name to.
pub fn find_definition_node(t: &SyntaxTree, src: &[u8], cursor: usize, name: &[u8]) -> (r: Option<
    usize,
>)
    requires
        t.wf(),
        cursor < t.len(),
    ensures
        idx(r) == resolve(t, src@, name@, cursor as int),
        r matches Some(d) ==> d < t.len(),
{
    let mut node: usize = cursor;
    loop
        invariant
            t.wf(),
            node < t.len(),
            resolve(t, src@, name@, cursor as int) == resolve(t, src@, name@, node as int),
        decreases node,
    {
        match t.parent_of(node) {
            None => {
                return None;
            },
            Some(p) => {
                match find_binding(t, src, p, name) {
                    Some(d) => {
                        return Some(d);
                    },
                    None => {
                        node = p;
                    },
                }
            },
        }
    }
}

/// Walks up from `n` to the nearest block or file.
pub fn find_enclosing_scope(t: &SyntaxTree, n: usize) -> (s: usize)
    requires
        t.wf(),
        n < t.len(),
    ensures
        s == enclosing_scope(t, n as int),
        s <= n,
{
    let mut current: usize = n;
    loop
        invariant
            t.wf(),
            current <= n,
            current < t.len(),
            enclosing_scope(t, n as int) == enclosing_scope(t, current as int),
        decreases current,
    {
        let kind = t.node(current).kind;
        if kind == NodeKind::SourceFile || kind == NodeKind::Block {
            return current;
        }
        match t.parent_of(current) {
            Some(p) => {
                current = p;
            },
            None => {
                return current;
            },
        }
    }
}

/// Collects the identifiers named `name` in the subtree of `scope`.
pub fn collect_var_refs(t: &SyntaxTree, src: &[u8], scope: usize, name: &[u8]) -> (refs: Vec<
    usize,
>)
    requires
        t.wf(),
        scope < t.len(),
    ensures
        refs@.map_values(|i: usize| i as int) == vars_named(
            t,
            src@,
            name@,
            scope as int,
            t.end(scope as int),
        ),
        forall|k: int| 0 <= k < refs@.len() ==> refs@[k] < t.len(),
{
    let stop: usize = t.end_of(scope);
    let mut refs: Vec<usize> = Vec::new();
    let mut i: usize = scope;
    while i < stop
        invariant
            t.wf(),
            scope <= i <= stop,
            stop == t.end(scope as int),
            stop <= t.len(),
            refs@.map_values(|i: usize| i as int) =~= vars_named(
                t,
                src@,
                name@,
                scope as int,
                i as int,
            ),
            forall|k: int| 0 <= k < refs@.len() ==> refs@[k] < t.len(),
        decreases stop - i,
    {
        if var_is_named(t, src, i, name) {
            refs.push(i);
        }
        i += 1;
    }
    refs
}

/// The nodes that refer to `name`, as seen from `cursor`.
pub fn find_reference_nodes(t: &SyntaxTree, src: &[u8], cursor: usize, name: &[u8]) -> (refs: Vec<
    usize,
>)
    requires
        t.wf(),
        cursor < t.len(),
    ensures
        refs@.map_values(|i: usize| i as int) == reference_nodes(
            t,
            src@,
            name@,
            cursor as int,
        ),
        forall|k: int| 0 <= k < refs@.len() ==> refs@[k] < t.len(),
{
    let def: usize = match find_definition_node(t, src, cursor, name) {
        Some(d) => d,
        None => cursor,
    };
    let scope: usize = find_enclosing_scope(t, def);
    collect_var_refs(t, src, scope, name)
}

/// The text of the identifier at node `cursor`; nothing where the node is
/// no identifier, or its byte range holds no whole characters of the
/// source.
pub fn identifier_text<'a>(t: &SyntaxTree, source: &'a str, cursor: usize) -> (r: Option<&'a str>)
    requires
        t.wf(),
        cursor < t.len(),
    ensures
        r is Some <==> is_identifier(t, source@, cursor as int),
        r matches Some(name) ==> name.spec_bytes() == node_bytes(t, source@, cursor as int)
            && name@ == text_between(
            source@,
            t.nodes@[cursor as int].start_byte as int,
            t.nodes@[cursor as int].end_byte as int,
        ),
{
    let node = t.node(cursor);
    if node.kind != NodeKind::Var {
        return None;
    }
    let r = slice_text(source, node.start_byte, node.end_byte);
    proof {
        if r is Some {
            let bytes = node_bytes(t, source@, cursor as int);
            encode_utf8_valid_utf8(source@);
            lemma_slice_is_valid(
                encode_utf8(source@),
                node.start_byte as int,
                node.end_byte as int,
            );
            decode_utf8_encode_utf8(bytes);
        }
    }
    r
}

/// The bytes between two character boundaries of a valid text are valid.
pub proof fn lemma_slice_is_valid(b: Seq<u8>, start: int, end: int)
    requires
        valid_utf8(b),
        0 <= start <= end <= b.len(),
        is_char_boundary(b, start),
        is_char_boundary(b, end),
    ensures
        valid_utf8(b.subrange(start, end)),
{
    crate::text::lemma_boundary_in_tail(b, start, end);
    let tail = b.subrange(start, b.len() as int);
    valid_utf8_split(tail, end - start);
    assert(tail.subrange(0, end - start) =~= b.subrange(start, end));
}

/// The definition of the identifier at node `cursor`, if the tree has
/// one: the node itself.
pub fn definition_node_at(t: &SyntaxTree, source: &str, cursor: usize) -> (r: Option<usize>)
    requires
        t.wf(),
        cursor < t.len(),
    ensures
        idx(r) == definition_of(t, source@, cursor as int),
        r matches Some(d) ==> d < t.len(),
{
    match identifier_text(t, source, cursor) {
        None => None,
        Some(name) => find_definition_node(t, source.as_bytes(), cursor, name.as_bytes()),
    }
}

/// The definition of the identifier at node `cursor`, as a location whose
/// URI the caller fills in.
pub fn definition_at_node(t: &SyntaxTree, source: &str, cursor: usize) -> (r: Option<Location>)
    requires
        t.wf(),
        cursor < t.len(),
    ensures
        r is Some <==> definition_of(t, source@, cursor as int) is Some,
        r matches Some(loc) ==> loc.range == t.nodes@[definition_of(
            t,
            source@,
            cursor as int,
        )->0].span() && loc.uri@ == placeholder_uri(),
{
    match definition_node_at(t, source, cursor) {
        None => None,
        Some(d) => Some(Location { uri: String::from_str("file:///"), range: t.node(d).range() }),
    }
}

/// The nodes that refer to the identifier at node `cursor`; none where the
/// node is no identifier.
pub fn reference_nodes_at(t: &SyntaxTree, source: &str, cursor: usize) -> (refs: Vec<usize>)
    requires
        t.wf(),
        cursor < t.len(),
    ensures
        refs@.map_values(|i: usize| i as int) == references_of(t, source@, cursor as int),
        forall|k: int| 0 <= k < refs@.len() ==> refs@[k] < t.len(),
{
    match identifier_text(t, source, cursor) {
        None => {
            let refs: Vec<usize> = Vec::new();
            refs
        },
        Some(name) => find_reference_nodes(t, source.as_bytes(), cursor, name.as_bytes()),
    }
}

/// The ranges of the given nodes.
pub open spec fn spans_of(t: &SyntaxTree, nodes: Seq<int>) -> Seq<Range> {
    Seq::new(nodes.len(), |k: int| t.nodes@[nodes[k]].span())
}

/// Whether `refs` are the given ranges, in their order, each in the
/// document that `uri` identifies.
pub open spec fn locates(refs: Seq<Location>, uri: Seq<char>, ranges: Seq<Range>) -> bool {
    &&& refs.len() == ranges.len()
    &&& forall|k: int|
        0 <= k < refs.len() ==> (#[trigger] refs[k]).uri@ == uri && refs[k].range == ranges[k]
}

/// The locations of the identifiers that refer to the identifier at node
/// `cursor`, each with the given URI.
pub fn references_at_node(t: &SyntaxTree, source: &str, cursor: usize, uri: &str) -> (refs: Vec<
    Location,
>)
    requires
        t.wf(),
        cursor < t.len(),
    ensures
        locates(refs@, uri@, spans_of(t, references_of(t, source@, cursor as int))),
{
    let nodes = reference_nodes_at(t, source, cursor);
    let ghost expected = references_of(t, source@, cursor as int);
    let mut refs: Vec<Location> = Vec::new();
    let mut k: usize = 0;
    while k < nodes.len()
        invariant
            t.wf(),
            k <= nodes@.len(),
            refs@.len() == k,
            nodes@.map_values(|i: usize| i as int) == expected,
            forall|j: int| 0 <= j < nodes@.len() ==> nodes@[j] < t.len(),
            forall|j: int|
                0 <= j < k ==> (#[trigger] refs@[j]).uri@ == uri@ && refs@[j].range == spans_of(
                    t,
                    expected,
                )[j],
        decreases nodes@.len() - k,
    {
        let n: usize = nodes[k];
        refs.push(Location { uri: String::from_str(uri), range: t.node(n).range() });
        k += 1;
    }
    refs
}

/// The definition of the symbol at a position of a document: that of the
/// node that the position denotes, where it denotes one.
pub open spec fn definition_at(doc: &Document, pos: Position) -> Option<int> {
    match cursor_at(doc.tree, &doc.syntax, pos) {
        Some(cursor) => definition_of(&doc.syntax, doc.source@, cursor),
        None => None,
    }
}

/// The references of the symbol at a position of a document: those of the
/// node that the position denotes; none where it denotes no node.
pub open spec fn references_at(doc: &Document, pos: Position) -> Seq<int> {
    match cursor_at(doc.tree, &doc.syntax, pos) {
        Some(cursor) => references_of(&doc.syntax, doc.source@, cursor),
        None => Seq::empty(),
    }
}

/// Going to the definition of the symbol at a position, and asking for
/// the references at the place of the definition, finds the symbol again.
///
/// Let the position `at_use` denote the node `u`, and let the definition
/// of `u` be the node `d`, an identifier whose text can be read, that the
/// position `at_definition` denotes. Let `u` lie in the scope in which the
/// references are gathered from `d`. Then `u` is among the references at
/// `at_definition`.
pub proof fn law_goto_then_references(doc: &Document, at_use: Position, at_definition: Position)
    requires
        doc.wf(),
        definition_at(doc, at_use) is Some,
        cursor_at(doc.tree, &doc.syntax, at_definition) == definition_at(doc, at_use),
        is_identifier(&doc.syntax, doc.source@, definition_at(doc, at_use)->0),
        in_reference_scope(
            &doc.syntax,
            encode_utf8(doc.source@),
            node_bytes(&doc.syntax, doc.source@, cursor_at(doc.tree, &doc.syntax, at_use)->0),
            definition_at(doc, at_use)->0,
            cursor_at(doc.tree, &doc.syntax, at_use)->0,
        ),
    ensures
        references_at(doc, at_definition).contains(cursor_at(doc.tree, &doc.syntax, at_use)->0),
{
    lemma_cursor_at(doc.tree, &doc.syntax, at_use);
    law_definition_then_references(
        &doc.syntax,
        doc.source@,
        cursor_at(doc.tree, &doc.syntax, at_use)->0,
    );
}

/// Resolves the definition of the symbol at a position of a document.
/// The location carries the range of the definition and a URI that the
/// caller has yet to fill in.
pub fn goto_definition(doc: &Document, pos: Position) -> (r: Option<Location>)
    requires
        doc.wf(),
    ensures
        r is Some <==> definition_at(doc, pos) is Some,
        r matches Some(loc) ==> loc.uri@ == placeholder_uri() && loc.range
            == doc.syntax.nodes@[definition_at(doc, pos)->0].span(),
{
    match named_node_at(&doc.tree, &doc.syntax, pos) {
        None => None,
        Some(cursor) => definition_at_node(&doc.syntax, doc.source.as_str(), cursor),
    }
}

/// Finds all references to the symbol at a position of a document, in the
/// order of the text.
pub fn find_references(doc: &Document, pos: Position, uri: &str) -> (refs: Vec<Location>)
    requires
        doc.wf(),
    ensures
        locates(refs@, uri@, spans_of(&doc.syntax, references_at(doc, pos))),
{
    match named_node_at(&doc.tree, &doc.syntax, pos) {
        None => Vec::new(),
        Some(cursor) => references_at_node(&doc.syntax, doc.source.as_str(), cursor, uri),
    }
}

} // verus!
