//! The diagnostics collector: one diagnostic for each syntax error that
//! the tree holds.
//!
//! The parser keeps what it could not parse in the tree, as error nodes,
//! and stands in for a token that it expected with a missing node. The
//! collector reports both. It goes down only into nodes that hold an
//! error, and not below a node that it reports.

use crate::document::Document;
use crate::position::Range;
use crate::syntax::{NodeData, SyntaxTree};
use crate::text::{slice_text, take_chars, text_between, text_in_range};
use vstd::prelude::*;
use vstd::string::*;

verus! {

/// How grave a diagnostic is.
#[derive(Clone, Copy, Debug, PartialEq, Eq, Structural)]
pub enum Severity {
    Error,
    Warning,
    Information,
    Hint,
}

/// What is wrong at a place in the text.
#[derive(Debug)]
pub struct Diagnostic {
    pub range: Range,
    pub severity: Severity,
    /// The name of the tool that reports.
    pub source: String,
    pub message: String,
}

/// The most characters of the text of an error that a message shows.
pub const SHOWN_CHARS: usize = 40;

/// The name under which diagnostics are reported.
pub open spec fn reporter() -> Seq<char> {
    "rholang-lsp"@
}

/// The beginning of the text of a node, as a message shows it: up to 40
/// characters, and nothing where the byte range of the node holds no
/// whole characters of the source.
pub open spec fn shown_text(src: Seq<char>, n: NodeData) -> Seq<char> {
    if text_in_range(src, n.start_byte as int, n.end_byte as int) {
        let text = text_between(src, n.start_byte as int, n.end_byte as int);
        text.take(
            if SHOWN_CHARS <= text.len() {
                SHOWN_CHARS as int
            } else {
                text.len() as int
            },
        )
    } else {
        Seq::empty()
    }
}

/// The message for a node: for an error node, the beginning of its text;
/// for a missing node, the kind of the token that is missing.
pub open spec fn message_of(src: Seq<char>, n: NodeData) -> Seq<char> {
    if n.error {
        "Syntax error near `"@ + shown_text(src, n) + "`"@
    } else {
        "Missing `"@ + n.tag@ + "`"@
    }
}

/// Whether a node is reported where the walk comes to it.
pub open spec fn is_reported(n: NodeData) -> bool {
    n.error || n.missing
}

/// The nodes that are reported among the nodes from `i` up to `stop`, in
/// the order of the tree: a node that is an error or is missing is
/// reported, and the walk goes on after its subtree; the walk goes into
/// any other node only if the node holds an error.
pub open spec fn reported_nodes(t: &SyntaxTree, i: int, stop: int) -> Seq<int>
    decreases stop - i,
{
    if i < 0 || i >= stop {
        Seq::empty()
    } else {
        let n = t.nodes@[i];
        let next = if !is_reported(n) && n.has_error {
            i + 1
        } else {
            t.end(i)
        };
        let here = if is_reported(n) {
            seq![i]
        } else {
            Seq::empty()
        };
        if i < next <= stop {
            here + reported_nodes(t, next, stop)
        } else {
            here
        }
    }
}

/// Whether `d` is the diagnostic for node `n`.
pub open spec fn reports(d: Diagnostic, src: Seq<char>, n: NodeData) -> bool {
    &&& d.range == n.span()
    &&& d.severity == Severity::Error
    &&& d.source@ == reporter()
    &&& d.message@ == message_of(src, n)
}

/// Whether `diags` are the diagnostics for the nodes `nodes`, one for
/// each, in their order.
pub open spec fn reports_each(diags: Seq<Diagnostic>, t: &SyntaxTree, src: Seq<char>, nodes: Seq<
    int,
>) -> bool {
    &&& diags.len() == nodes.len()
    &&& forall|k: int|
        0 <= k < diags.len() ==> reports(#[trigger] diags[k], src, t.nodes@[nodes[k]])
}

/// The range of a node, from its start to its end.
pub fn node_range(node: &NodeData) -> (r: Range)
    ensures
        r == node.span(),
{
    node.range()
}

/// Makes the diagnostic for a node that is an error or is missing.
pub fn diagnose(source: &str, node: &NodeData) -> (d: Diagnostic)
    ensures
        reports(d, source@, *node),
{
    let mut message: String;
    if node.error {
        message = String::from_str("Syntax error near `");
        match slice_text(source, node.start_byte, node.end_byte) {
            Some(text) => {
                message.append(take_chars(text, SHOWN_CHARS));
            },
            None => {},
        }
        message.append("`");
    } else {
        message = String::from_str("Missing `");
        message.append(node.tag);
        message.append("`");
    }
    Diagnostic {
        range: node_range(node),
        severity: Severity::Error,
        source: String::from_str("rholang-lsp"),
        message,
    }
}

/// Collects the diagnostics of a tree.
pub fn collect_errors(t: &SyntaxTree, source: &str) -> (diags: Vec<Diagnostic>)
    requires
        t.wf(),
    ensures
        reports_each(diags@, t, source@, reported_nodes(t, 0, t.len())),
{
    let mut diags: Vec<Diagnostic> = Vec::new();
    let ghost mut seen: Seq<int> = Seq::empty();
    let stop: usize = t.node_count();
    let mut i: usize = 0;
    while i < stop
        invariant
            t.wf(),
            i <= stop,
            stop == t.len(),
            reported_nodes(t, 0, stop as int) =~= seen + reported_nodes(t, i as int, stop as int),
            reports_each(diags@, t, source@, seen),
            forall|k: int| 0 <= k < seen.len() ==> 0 <= #[trigger] seen[k] < t.len(),
        decreases stop - i,
    {
        let node = t.node(i);
        if node.error || node.missing {
            let d = diagnose(source, node);
            let ghost old_diags = diags@;
            diags.push(d);
            proof {
                let grown = seen.push(i as int);
                assert forall|k: int| 0 <= k < diags@.len() implies reports(
                    #[trigger] diags@[k],
                    source@,
                    t.nodes@[grown[k]],
                ) by {
                    if k < old_diags.len() {
                        assert(diags@[k] == old_diags[k]);
                    }
                }
                seen = grown;
            }
            i = t.end_of(i);
        } else if node.has_error {
            i = i + 1;
        } else {
            i = t.end_of(i);
        }
    }
    diags
}

/// Collects the diagnostics of a document.
pub fn collect_diagnostics(doc: &Document) -> (diags: Vec<Diagnostic>)
    requires
        doc.wf(),
    ensures
        reports_each(
            diags@,
            &doc.syntax,
            doc.source@,
            reported_nodes(&doc.syntax, 0, doc.syntax.len()),
        ),
{
    collect_errors(&doc.syntax, doc.source.as_str())
}

} // verus!
