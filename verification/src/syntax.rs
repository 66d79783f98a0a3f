//! The syntax tree of one document, as an arena.
//!
//! The nodes of a tree stand in one vector in pre-order: a node comes
//! before its children, and the descendants of node `i` are exactly the
//! nodes `i + 1 .. end(i)`. Parent and child are relations between
//! indices. A tree is never changed after it is built; a new parse gives a
//! new arena.

use crate::kinds::{kind_of_tag, FieldName, NodeKind};
use crate::position::{Position, Range};
use crate::text::str_eq;
use vstd::prelude::*;

verus! {

/// An index that may be absent, as a mathematical integer.
pub open spec fn idx(o: Option<usize>) -> Option<int> {
    match o {
        Some(i) => Some(i as int),
        None => None,
    }
}

/// What a syntax node says of itself.
#[derive(Clone, Copy, Debug)]
pub struct NodeData {
    /// The kind that `tag` denotes.
    pub kind: NodeKind,
    /// The kind tag, as the grammar spells it.
    pub tag: &'static str,
    /// The field name on the edge from the parent.
    pub field: FieldName,
    /// Whether the node stands for a named rule of the grammar.
    pub named: bool,
    /// Whether the node is an error-recovery node.
    pub error: bool,
    /// Whether the node is a placeholder for a token that is absent.
    pub missing: bool,
    /// Whether the node is, or contains, a syntax error.
    pub has_error: bool,
    pub start_byte: usize,
    pub end_byte: usize,
    pub start: Position,
    pub end: Position,
}

impl NodeData {
    /// Whether the kind is the one that the tag denotes.
    pub open spec fn consistent(&self) -> bool {
        self.kind == kind_of_tag(self.tag@)
    }

    /// The range from the node's start to its end.
    pub open spec fn span(&self) -> Range {
        Range { start: self.start, end: self.end }
    }

    /// A node of the kind that `tag` denotes, at the given place; it has no
    /// field name and is no error.
    pub fn new(
        tag: &'static str,
        named: bool,
        start_byte: usize,
        end_byte: usize,
        start: Position,
        end: Position,
    ) -> (n: NodeData)
        ensures
            n.consistent(),
            n.tag == tag,
            n.named == named,
            n.field == FieldName::Unnamed,
            !n.error && !n.missing && !n.has_error,
            n.start_byte == start_byte && n.end_byte == end_byte,
            n.start == start && n.end == end,
    {
        NodeData {
            kind: NodeKind::from_tag(tag),
            tag,
            field: FieldName::Unnamed,
            named,
            error: false,
            missing: false,
            has_error: false,
            start_byte,
            end_byte,
            start,
            end,
        }
    }

    /// The same node under a field name.
    pub fn with_field(self, field: FieldName) -> (n: NodeData)
        ensures
            n == (NodeData { field, ..self }),
    {
        NodeData { field, ..self }
    }

    /// The same node with the marks that the parser gives to errors.
    pub fn with_errors(self, error: bool, missing: bool, has_error: bool) -> (n: NodeData)
        ensures
            n == (NodeData { error, missing, has_error, ..self }),
    {
        NodeData { error, missing, has_error, ..self }
    }

    /// The range from the node's start to its end.
    pub fn range(&self) -> (r: Range)
        ensures
            r == self.span(),
    {
        Range { start: self.start, end: self.end }
    }
}

/// A syntax tree in pre-order.
pub struct SyntaxTree {
    pub nodes: Vec<NodeData>,
    /// The parent of each node; the root has none.
    pub parents: Vec<Option<usize>>,
    /// For each node, the index one past its last descendant.
    pub ends: Vec<usize>,
}

impl SyntaxTree {
    /// The number of nodes.
    pub open spec fn len(&self) -> int {
        self.nodes@.len() as int
    }

    /// The parent of node `i`, or -1 for a node without one.
    pub open spec fn parent(&self, i: int) -> int {
        match self.parents@[i] {
            Some(p) => p as int,
            None => -1,
        }
    }

    /// One past the last descendant of node `i`.
    pub open spec fn end(&self, i: int) -> int {
        self.ends@[i] as int
    }

    /// The tree is a rooted tree laid out in pre-order: node 0 is the root
    /// and spans all nodes; every other node lies within the span of its
    /// parent, and every node between a parent and its child has ended
    /// before the child.
    pub open spec fn wf(&self) -> bool {
        &&& self.parents@.len() == self.nodes@.len()
        &&& self.ends@.len() == self.nodes@.len()
        &&& self.nodes@.len() >= 1
        &&& self.parents@[0] is None
        &&& self.end(0) == self.len()
        &&& forall|i: int| 0 <= i < self.len() ==> i < #[trigger] self.end(i) <= self.len()
        &&& forall|i: int|
            1 <= i < self.len() ==> 0 <= #[trigger] self.parent(i) < i
                && self.end(i) <= self.end(self.parent(i))
        &&& forall|i: int, k: int|
            #![trigger self.parent(i), self.end(k)]
            1 <= i < self.len() && self.parent(i) < k < i ==> self.end(k) <= i
        &&& forall|i: int| 0 <= i < self.len() ==> (#[trigger] self.nodes@[i]).consistent()
    }

    /// Whether node `a` is a proper ancestor of node `d`.
    pub open spec fn is_ancestor(&self, a: int, d: int) -> bool
        decreases d,
    {
        if 0 < d < self.len() && 0 <= self.parent(d) < d {
            self.parent(d) == a || self.is_ancestor(a, self.parent(d))
        } else {
            false
        }
    }

    /// Whether node `d` is node `a` or one of its descendants.
    pub open spec fn within(&self, a: int, d: int) -> bool {
        a == d || self.is_ancestor(a, d)
    }

    /// An ancestor comes before its descendant and spans it.
    pub proof fn lemma_ancestor_spans(&self, a: int, d: int)
        requires
            self.wf(),
            0 <= d < self.len(),
            self.is_ancestor(a, d),
        ensures
            0 <= a < d,
            d < self.end(a),
            self.end(d) <= self.end(a),
        decreases d,
    {
        let p = self.parent(d);
        if p != a {
            self.lemma_ancestor_spans(a, p);
        }
    }

    /// A node that lies in the span of another descends from it.
    pub proof fn lemma_spanned_descends(&self, a: int, d: int)
        requires
            self.wf(),
            0 <= a < d < self.end(a),
            a < self.len(),
        ensures
            self.is_ancestor(a, d),
        decreases d,
    {
        let p = self.parent(d);
        if p > a {
            self.lemma_spanned_descends(a, p);
        }
    }

    /// The descendants of a node are the nodes in its span: the law that
    /// lets every walk over a subtree be a walk over a range of indices.
    pub proof fn lemma_descendants_are_span(&self, a: int, d: int)
        requires
            self.wf(),
            0 <= a < self.len(),
            0 <= d < self.len(),
        ensures
            self.is_ancestor(a, d) <==> a < d < self.end(a),
    {
        if self.is_ancestor(a, d) {
            self.lemma_ancestor_spans(a, d);
        }
        if a < d < self.end(a) {
            self.lemma_spanned_descends(a, d);
        }
    }

    /// The node after a node that has descendants is its first child.
    pub proof fn lemma_first_child(&self, i: int)
        requires
            self.wf(),
            0 <= i,
            i + 1 < self.end(i),
            i < self.len(),
        ensures
            self.parent(i + 1) == i,
    {
        // A parent before `i` would have `i` end before its own first
        // descendant.
        assert(self.parent(i + 1) >= i);
    }

    /// Where a node ends within the span of its parent, its next sibling
    /// begins.
    pub proof fn lemma_next_sibling(&self, c: int)
        requires
            self.wf(),
            1 <= c < self.len(),
            self.end(c) < self.end(self.parent(c)),
        ensures
            self.parent(self.end(c)) == self.parent(c),
    {
        let q = self.parent(self.end(c));
        if q > c {
            // A parent inside the span of `c` would span the end of `c`.
            self.lemma_spanned_descends(c, q);
            self.lemma_ancestor_spans(c, q);
        }
    }

    /// The number of nodes.
    pub fn node_count(&self) -> (n: usize)
        requires
            self.wf(),
        ensures
            n == self.len(),
            n >= 1,
    {
        self.nodes.len()
    }

    /// The data of node `i`.
    pub fn node(&self, i: usize) -> (d: &NodeData)
        requires
            self.wf(),
            i < self.len(),
        ensures
            *d == self.nodes@[i as int],
    {
        &self.nodes[i]
    }

    /// The parent of node `i`.
    pub fn parent_of(&self, i: usize) -> (p: Option<usize>)
        requires
            self.wf(),
            i < self.len(),
        ensures
            p == self.parents@[i as int],
            i == 0 <==> p is None,
            p matches Some(q) ==> q < i && q == self.parent(i as int),
    {
        let p = self.parents[i];
        proof {
            if i != 0 {
                assert(0 <= self.parent(i as int) < i);
            }
        }
        p
    }

    /// One past the last descendant of node `i`.
    pub fn end_of(&self, i: usize) -> (e: usize)
        requires
            self.wf(),
            i < self.len(),
        ensures
            e == self.end(i as int),
            i < e <= self.len(),
    {
        let e: usize = self.ends[i];
        assert(e == self.end(i as int));
        e
    }

    /// The first child of node `i`, in tree order.
    pub open spec fn first_child_of(&self, i: int) -> Option<int> {
        if i + 1 < self.end(i) {
            Some(i + 1)
        } else {
            None
        }
    }

    /// The sibling after node `c`.
    pub open spec fn next_sibling_of(&self, c: int) -> Option<int> {
        if c >= 1 && self.end(c) < self.end(self.parent(c)) {
            Some(self.end(c))
        } else {
            None
        }
    }

    /// The first child of node `i`.
    pub fn first_child(&self, i: usize) -> (c: Option<usize>)
        requires
            self.wf(),
            i < self.len(),
        ensures
            idx(c) == self.first_child_of(i as int),
            c matches Some(k) ==> k < self.len() && self.parent(k as int) == i,
    {
        let e: usize = self.ends[i];
        if i + 1 < e {
            proof {
                self.lemma_first_child(i as int);
            }
            Some(i + 1)
        } else {
            None
        }
    }

    /// The sibling after node `c`.
    pub fn next_sibling(&self, c: usize) -> (s: Option<usize>)
        requires
            self.wf(),
            c < self.len(),
        ensures
            idx(s) == self.next_sibling_of(c as int),
            s matches Some(k) ==> c < k < self.len() && self.parent(k as int) == self.parent(
                c as int,
            ),
    {
        match self.parents[c] {
            None => None,
            Some(p) => {
                let e: usize = self.ends[c];
                if e < self.ends[p] {
                    proof {
                        self.lemma_next_sibling(c as int);
                    }
                    Some(e)
                } else {
                    None
                }
            },
        }
    }

    /// The first child with field `f` among the children of a node from
    /// child `c` on, up to `stop`.
    pub open spec fn field_child_from(&self, c: int, stop: int, f: FieldName) -> Option<int>
        decreases stop - c,
    {
        if c < 0 || c >= stop || c >= self.len() {
            None
        } else if self.nodes@[c].field == f {
            Some(c)
        } else if c < self.end(c) <= stop {
            self.field_child_from(self.end(c), stop, f)
        } else {
            None
        }
    }

    /// The first child of node `i` that has field `f`.
    pub open spec fn field_child(&self, i: int, f: FieldName) -> Option<int> {
        self.field_child_from(i + 1, self.end(i), f)
    }

    /// A child found by its field is a child.
    pub proof fn lemma_field_child_from(&self, i: int, c: int, f: FieldName)
        requires
            self.wf(),
            0 <= i < c,
            i < self.len(),
            c < self.end(i) ==> self.parent(c) == i,
            self.field_child_from(c, self.end(i), f) is Some,
        ensures
            ({
                let k = self.field_child_from(c, self.end(i), f)->0;
                &&& c <= k < self.end(i)
                &&& self.parent(k) == i
                &&& self.nodes@[k].field == f
            }),
        decreases self.end(i) - c,
    {
        if self.nodes@[c].field != f {
            if self.end(c) < self.end(i) {
                self.lemma_next_sibling(c);
            }
            self.lemma_field_child_from(i, self.end(c), f);
        }
    }

    /// A child found by its field is a child, and lies in the span of its
    /// parent.
    pub proof fn lemma_field_child(&self, i: int, f: FieldName)
        requires
            self.wf(),
            0 <= i < self.len(),
            self.field_child(i, f) is Some,
        ensures
            ({
                let k = self.field_child(i, f)->0;
                &&& i < k < self.end(i)
                &&& self.parent(k) == i
                &&& self.nodes@[k].field == f
                &&& self.end(k) <= self.end(i)
            }),
    {
        if i + 1 < self.end(i) {
            self.lemma_first_child(i);
        }
        self.lemma_field_child_from(i, i + 1, f);
    }

    /// The first child of node `i` that has field `f`.
    pub fn child_by_field(&self, i: usize, f: FieldName) -> (r: Option<usize>)
        requires
            self.wf(),
            i < self.len(),
        ensures
            idx(r) == self.field_child(i as int, f),
            r matches Some(k) ==> i < k < self.end(i as int) && self.end(k as int) <= self.end(
                i as int,
            ),
    {
        let stop: usize = self.ends[i];
        let mut c: usize = i + 1;
        while c < stop
            invariant
                self.wf(),
                i < c,
                i < self.len(),
                stop == self.end(i as int),
                c <= stop,
                self.field_child(i as int, f) == self.field_child_from(c as int, stop as int, f),
            decreases stop - c,
        {
            if self.nodes[c].field == f {
                proof {
                    self.lemma_field_child(i as int, f);
                }
                return Some(c);
            }
            proof {
                self.lemma_spanned_descends(i as int, c as int);
                self.lemma_ancestor_spans(i as int, c as int);
            }
            c = self.ends[c];
        }
        None
    }

    /// Whether node `i` is a named node of the kind that `tag` spells,
    /// over the bytes `start..end`.
    pub open spec fn is_named_span(&self, i: int, start: usize, end: usize, tag: Seq<char>)
        -> bool {
        &&& self.nodes@[i].named
        &&& self.nodes@[i].start_byte == start
        &&& self.nodes@[i].end_byte == end
        &&& self.nodes@[i].tag@ == tag
    }

    /// The last node before `upto`, in tree order, that is a named node of
    /// the given kind over the given bytes. Where nodes of one kind lie
    /// in one another over the same bytes, it is the innermost.
    pub open spec fn index_of_span(&self, start: usize, end: usize, tag: Seq<char>, upto: int)
        -> Option<int>
        decreases upto,
    {
        if upto <= 0 || upto > self.len() {
            None
        } else if self.is_named_span(upto - 1, start, end, tag) {
            Some(upto - 1)
        } else {
            self.index_of_span(start, end, tag, upto - 1)
        }
    }

    /// A node found by its span is a node of the tree, and has that span.
    pub proof fn lemma_index_of_span(&self, start: usize, end: usize, tag: Seq<char>, upto: int)
        requires
            self.index_of_span(start, end, tag, upto) is Some,
        ensures
            0 <= self.index_of_span(start, end, tag, upto)->0 < upto <= self.len(),
            self.is_named_span(self.index_of_span(start, end, tag, upto)->0, start, end, tag),
        decreases upto,
    {
        if !self.is_named_span(upto - 1, start, end, tag) {
            self.lemma_index_of_span(start, end, tag, upto - 1);
        }
    }

    /// Tells whether node `i` is the child of node `p` in the name field.
    pub fn is_name_of(&self, p: usize, i: usize) -> (r: bool)
        requires
            self.wf(),
            p < self.len(),
            i < self.len(),
        ensures
            r == (self.field_child(p as int, FieldName::Name) == Some(i as int)),
    {
        match self.child_by_field(p, FieldName::Name) {
            Some(c) => c == i,
            None => false,
        }
    }

    /// Finds the innermost named node of a kind over a range of bytes.
    pub fn find_by_span(&self, start: usize, end: usize, tag: &str) -> (r: Option<usize>)
        requires
            self.wf(),
        ensures
            idx(r) == self.index_of_span(start, end, tag@, self.len()),
            r matches Some(k) ==> k < self.len() && self.is_named_span(
                k as int,
                start,
                end,
                tag@,
            ),
    {
        let mut i: usize = self.nodes.len();
        while i > 0
            invariant
                i <= self.len(),
                self.index_of_span(start, end, tag@, self.len()) == self.index_of_span(
                    start,
                    end,
                    tag@,
                    i as int,
                ),
            decreases i,
        {
            let n = &self.nodes[i - 1];
            if n.named && n.start_byte == start && n.end_byte == end && str_eq(n.tag, tag) {
                return Some(i - 1);
            }
            i -= 1;
        }
        None
    }
}

} // verus!
