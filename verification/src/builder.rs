//! Building a syntax tree node by node.
//!
//! A tree is built in the order of a depth-first walk: `open` adds a node
//! as the last child of the node that is open, and makes it the open node;
//! `close` ends the open node and goes back to its parent. The root is the
//! first node opened, and nothing can be added once the root is closed.

use crate::syntax::{NodeData, SyntaxTree};
use vstd::prelude::*;

verus! {

/// A syntax tree under construction.
pub struct TreeBuilder {
    /// The nodes added so far, in the order they were opened.
    pub nodes: Vec<NodeData>,
    /// The parent of each node; the first node has none.
    pub parents: Vec<Option<usize>>,
    /// One past the last descendant of each closed node; 0 for a node that
    /// is still open.
    pub ends: Vec<usize>,
    /// The open node that was opened last.
    pub cur: Option<usize>,
}

impl TreeBuilder {
    /// The number of nodes added so far.
    pub open spec fn len(&self) -> int {
        self.nodes@.len() as int
    }

    /// The parent of node `i`, or -1 for a node without one.
    pub open spec fn parent(&self, i: int) -> int {
        match self.parents@[i] {
            Some(p) => p as int,
            None => -1,
        }
    }

    /// The recorded end of node `i`: 0 while the node is open.
    pub open spec fn end(&self, i: int) -> int {
        self.ends@[i] as int
    }

    /// Whether node `i` has been closed.
    pub open spec fn closed(&self, i: int) -> bool {
        self.end(i) != 0
    }

    /// What holds of a tree while it is built: the closed nodes satisfy
    /// what a finished tree asks of all nodes, the open nodes are the
    /// current one and its ancestors, and every node after the current one
    /// is closed.
    pub open spec fn inv(&self) -> bool {
        &&& self.parents@.len() == self.nodes@.len()
        &&& self.ends@.len() == self.nodes@.len()
        &&& self.len() >= 1 ==> self.parents@[0] is None
        &&& forall|i: int|
            1 <= i < self.len() ==> 0 <= #[trigger] self.parent(i) < i
        &&& forall|i: int|
            0 <= i < self.len() ==> #[trigger] self.end(i) == 0 || i < self.end(i) <= self.len()
        &&& forall|i: int|
            1 <= i < self.len() ==> !self.closed(#[trigger] self.parent(i)) || (self.closed(i)
                && self.end(i) <= self.end(self.parent(i)))
        &&& forall|i: int, k: int|
            #![trigger self.parent(i), self.end(k)]
            1 <= i < self.len() && self.parent(i) < k < i ==> self.closed(k) && self.end(k) <= i
        &&& match self.cur {
            Some(c) => c < self.len() && !self.closed(c as int) && forall|k: int|
                c < k < self.len() ==> #[trigger] self.closed(k),
            None => (forall|k: int| 0 <= k < self.len() ==> #[trigger] self.closed(k)) && (
            self.len() >= 1 ==> self.end(0) == self.len()),
        }
        &&& forall|i: int| 0 <= i < self.len() ==> (#[trigger] self.nodes@[i]).consistent()
    }

    /// Whether a node can still be added: nothing is there yet, or some
    /// node is open.
    pub open spec fn can_open(&self) -> bool {
        self.len() == 0 || self.cur is Some
    }

    /// The number of open nodes.
    pub open spec fn open_depth(&self) -> nat {
        match self.cur {
            Some(c) => 1 + self.chain(c as int),
            None => 0,
        }
    }

    /// The number of proper ancestors of node `i`.
    pub open spec fn chain(&self, i: int) -> nat
        decreases i,
    {
        if 0 < i < self.len() && 0 <= self.parent(i) < i {
            1 + self.chain(self.parent(i))
        } else {
            0
        }
    }

    /// A builder that holds no node.
    pub fn new() -> (b: TreeBuilder)
        ensures
            b.inv(),
            b.len() == 0,
            b.cur is None,
    {
        TreeBuilder { nodes: Vec::new(), parents: Vec::new(), ends: Vec::new(), cur: None }
    }

    /// The number of nodes added so far.
    pub fn count(&self) -> (n: usize)
        ensures
            n == self.len(),
    {
        self.nodes.len()
    }

    /// Whether some node is open.
    pub fn has_open(&self) -> (r: bool)
        ensures
            r == (self.cur is Some),
    {
        self.cur.is_some()
    }

    /// Adds `node` as the root, or as the last child of the open node, and
    /// makes it the open node. Does nothing once the root is closed.
    pub fn open(&mut self, node: NodeData) -> (added: bool)
        requires
            old(self).inv(),
            node.consistent(),
        ensures
            final(self).inv(),
            added == old(self).can_open(),
            added ==> final(self).nodes@ == old(self).nodes@.push(node) && final(self).parents@
                == old(self).parents@.push(old(self).cur) && final(self).ends@ == old(
                self,
            ).ends@.push(0) && final(self).cur == Some(old(self).nodes@.len() as usize),
            !added ==> *final(self) == *old(self),
    {
        let n: usize = self.nodes.len();
        if n != 0 && self.cur.is_none() {
            return false;
        }
        let ghost before = *self;
        self.nodes.push(node);
        self.parents.push(self.cur);
        self.ends.push(0);
        self.cur = Some(n);
        proof {
            assert forall|i: int| 1 <= i < self.len() implies 0 <= #[trigger] self.parent(i)
                < i by {
                if i < n {
                    assert(self.parent(i) == before.parent(i));
                }
            }
            assert forall|i: int| 0 <= i < self.len() implies #[trigger] self.end(i) == 0 || i
                < self.end(i) <= self.len() by {
                if i < n {
                    assert(self.end(i) == before.end(i));
                }
            }
            assert forall|i: int| 1 <= i < self.len() implies !self.closed(
                #[trigger] self.parent(i),
            ) || (self.closed(i) && self.end(i) <= self.end(self.parent(i))) by {
                if i < n {
                    assert(self.parent(i) == before.parent(i));
                }
            }
            assert forall|i: int, k: int|
                #![trigger self.parent(i), self.end(k)]
                1 <= i < self.len() && self.parent(i) < k < i implies self.closed(k) && self.end(k)
                <= i by {
                if i < n {
                    assert(self.parent(i) == before.parent(i));
                    assert(self.end(k) == before.end(k));
                } else {
                    assert(before.closed(k));
                }
            }
        }
        true
    }

    /// Closes the open node and goes back to its parent. Does nothing when
    /// no node is open.
    pub fn close(&mut self) -> (closed: bool)
        requires
            old(self).inv(),
        ensures
            final(self).inv(),
            closed == (old(self).cur is Some),
            final(self).nodes@ == old(self).nodes@,
            final(self).parents@ == old(self).parents@,
            old(self).cur matches Some(c) ==> final(self).ends@ == old(self).ends@.update(
                c as int,
                old(self).nodes@.len() as usize,
            ) && final(self).cur == old(self).parents@[c as int],
            !closed ==> *final(self) == *old(self),
            closed ==> final(self).open_depth() < old(self).open_depth(),
    {
        match self.cur {
            None => false,
            Some(c) => {
                let ghost before = *self;
                let n: usize = self.nodes.len();
                let p = self.parents[c];
                self.ends.set(c, n);
                self.cur = p;
                proof {
                    assert forall|i: int| 1 <= i < self.len() implies 0 <= #[trigger] self.parent(
                        i,
                    ) < i by {
                        assert(self.parent(i) == before.parent(i));
                    }
                    assert forall|i: int| 0 <= i < self.len() implies #[trigger] self.end(i) == 0
                        || i < self.end(i) <= self.len() by {
                        if i != c {
                            assert(self.end(i) == before.end(i));
                        }
                    }
                    assert forall|i: int| 1 <= i < self.len() implies !self.closed(
                        #[trigger] self.parent(i),
                    ) || (self.closed(i) && self.end(i) <= self.end(self.parent(i))) by {
                        let q = before.parent(i);
                        assert(self.parent(i) == q);
                        if i == c {
                            assert(self.end(q) == before.end(q));
                        } else if q == c {
                            assert(before.closed(i));
                        } else {
                            assert(self.end(i) == before.end(i));
                            assert(self.end(q) == before.end(q));
                        }
                    }
                    assert forall|i: int, k: int|
                        #![trigger self.parent(i), self.end(k)]
                        1 <= i < self.len() && self.parent(i) < k < i implies self.closed(k)
                        && self.end(k) <= i by {
                        assert(self.parent(i) == before.parent(i));
                        assert(before.closed(k) && before.end(k) <= i);
                    }
                    match p {
                        Some(q) => {
                            assert(q == before.parent(c as int));
                            assert forall|k: int| q < k < self.len() implies #[trigger] self.closed(
                                k,
                            ) by {
                                if k < c {
                                    assert(before.closed(k) && before.end(k) <= c);
                                } else if k > c {
                                    assert(before.closed(k));
                                }
                            }
                            assert(self.chain(q as int) == before.chain(q as int)) by {
                                self.lemma_chain_same(before, q as int);
                            }
                        },
                        None => {
                            assert(before.parent(c as int) == -1);
                            assert forall|k: int|
                                0 <= k < self.len() implies #[trigger] self.closed(k) by {
                                if k > 0 {
                                    assert(before.closed(k));
                                }
                            }
                        },
                    }
                }
                true
            },
        }
    }

    /// The chain of ancestors depends on the parents alone.
    pub proof fn lemma_chain_same(&self, other: TreeBuilder, i: int)
        requires
            self.parents@ == other.parents@,
            self.nodes@.len() == other.nodes@.len(),
        ensures
            self.chain(i) == other.chain(i),
        decreases i,
    {
        if 0 < i < self.len() && 0 <= self.parent(i) < i {
            self.lemma_chain_same(other, self.parent(i));
        }
    }

    /// Closes every node that is still open and hands out the tree, if it
    /// has a root.
    pub fn finish(self) -> (t: Option<SyntaxTree>)
        requires
            self.inv(),
        ensures
            t is Some <==> self.len() >= 1,
            t matches Some(tree) ==> tree.wf() && tree.nodes@ == self.nodes@ && tree.parents@
                == self.parents@,
    {
        let mut b = self;
        while b.has_open()
            invariant
                b.inv(),
                b.nodes@ == self.nodes@,
                b.parents@ == self.parents@,
            decreases b.open_depth(),
        {
            b.close();
        }
        if b.nodes.len() == 0 {
            return None;
        }
        let tree = SyntaxTree { nodes: b.nodes, parents: b.parents, ends: b.ends };
        proof {
            assert forall|i: int| 0 <= i < tree.len() implies i < #[trigger] tree.end(i)
                <= tree.len() by {
                assert(b.closed(i));
            }
            assert forall|i: int| 1 <= i < tree.len() implies 0 <= #[trigger] tree.parent(i) < i
                && tree.end(i) <= tree.end(tree.parent(i)) by {
                assert(tree.parent(i) == b.parent(i));
            }
            assert forall|i: int, k: int|
                #![trigger tree.parent(i), tree.end(k)]
                1 <= i < tree.len() && tree.parent(i) < k < i implies tree.end(k) <= i by {
                assert(tree.parent(i) == b.parent(i));
                assert(tree.end(k) == b.end(k));
            }
        }
        Some(tree)
    }
}

} // verus!
