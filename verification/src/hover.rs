//! Hover: what a node is, in a few words, with the comment that stands
//! before the statement it belongs to.

use crate::document::Document;
use crate::kinds::{FieldName, NodeKind};
use crate::position::{Position, Range};
use crate::provider::{cursor_at, named_node_at};
use crate::syntax::{idx, SyntaxTree};
use crate::text::{slice_text, text_between, text_in_range};
use vstd::prelude::*;
use vstd::string::*;

verus! {

/// What is shown for a node: a text in Markdown, and the range of the
/// node.
#[derive(Debug)]
pub struct Hover {
    pub contents: String,
    pub range: Range,
}

/// Whether a character is white space, as Unicode defines it.
pub open spec fn is_space(c: char) -> bool {
    let u = c as u32;
    ||| 0x09 <= u <= 0x0d
    ||| u == 0x20
    ||| u == 0x85
    ||| u == 0xa0
    ||| u == 0x1680
    ||| 0x2000 <= u <= 0x200a
    ||| u == 0x2028
    ||| u == 0x2029
    ||| u == 0x202f
    ||| u == 0x205f
    ||| u == 0x3000
}

/// The start of `s[from..to]` without its leading white space.
pub open spec fn skip_spaces(s: Seq<char>, from: int, to: int) -> int
    decreases to - from,
{
    if 0 <= from < to <= s.len() && is_space(s[from]) {
        skip_spaces(s, from + 1, to)
    } else {
        from
    }
}

/// The end of `s[from..to]` without its trailing white space.
pub open spec fn drop_spaces(s: Seq<char>, from: int, to: int) -> int
    decreases to - from,
{
    if 0 <= from < to <= s.len() && is_space(s[to - 1]) {
        drop_spaces(s, from, to - 1)
    } else {
        to
    }
}

/// The start of `s[from..to]` without any leading repetitions of the two
/// characters `a`, `b`.
pub open spec fn skip_pairs(s: Seq<char>, from: int, to: int, a: char, b: char) -> int
    decreases to - from,
{
    if 0 <= from && from + 2 <= to <= s.len() && s[from] == a && s[from + 1] == b {
        skip_pairs(s, from + 2, to, a, b)
    } else {
        from
    }
}

/// The end of `s[from..to]` without any trailing repetitions of the two
/// characters `a`, `b`.
pub open spec fn drop_pairs(s: Seq<char>, from: int, to: int, a: char, b: char) -> int
    decreases to - from,
{
    if 0 <= from && from + 2 <= to <= s.len() && s[to - 2] == a && s[to - 1] == b {
        drop_pairs(s, from, to - 2, a, b)
    } else {
        to
    }
}

/// The bounds of what is left of the line `s[from..to]` of a comment:
/// the line without the white space around it, then without the comment
/// signs `//` and `/*` before it and `*/` behind it, then again without
/// the white space around it.
pub open spec fn clean_bounds(s: Seq<char>, from: int, to: int) -> (int, int) {
    let a1 = skip_spaces(s, from, to);
    let b1 = drop_spaces(s, a1, to);
    let a2 = skip_pairs(s, a1, b1, '/', '/');
    let a3 = skip_pairs(s, a2, b1, '/', '*');
    let b2 = drop_pairs(s, a3, b1, '*', '/');
    let a4 = skip_spaces(s, a3, b2);
    let b3 = drop_spaces(s, a4, b2);
    (a4, b3)
}

/// The index of the first line feed of `s` at or after `from`, or the
/// length of `s`.
pub open spec fn feed_at(s: Seq<char>, from: int) -> int
    decreases s.len() - from,
{
    if from < 0 || from >= s.len() {
        s.len() as int
    } else if s[from] == '\n' {
        from
    } else {
        feed_at(s, from + 1)
    }
}

/// The end of the line of `s` that begins at `from`, without its
/// terminator: a line feed, or a carriage return and a line feed.
pub open spec fn content_end(s: Seq<char>, from: int) -> int {
    let e = feed_at(s, from);
    if e < s.len() && from < e && s[e - 1] == '\r' {
        e - 1
    } else {
        e
    }
}

/// A line's content ends at or before its line feed, and both lie within
/// the text.
pub proof fn lemma_feed_at(s: Seq<char>, from: int)
    requires
        0 <= from <= s.len(),
    ensures
        from <= content_end(s, from) <= feed_at(s, from) <= s.len(),
    decreases s.len() - from,
{
    if from < s.len() && s[from] != '\n' {
        lemma_feed_at(s, from + 1);
    }
}

/// The lines of a comment from the one that begins at `from` on, each
/// cleaned of white space and comment signs, with a line feed between
/// every two; `first` says whether the line at `from` is the first one.
pub open spec fn cleaned_from(s: Seq<char>, from: int, first: bool) -> Seq<char>
    decreases s.len() + 1 - from,
{
    if from < 0 || from >= s.len() {
        Seq::empty()
    } else {
        proof {
            lemma_feed_at(s, from);
        }
        let bounds = clean_bounds(s, from, content_end(s, from));
        let sep = if first {
            Seq::<char>::empty()
        } else {
            seq!['\n']
        };
        sep + s.subrange(bounds.0, bounds.1) + cleaned_from(s, feed_at(s, from) + 1, false)
    }
}

/// The text of a comment, cleaned line by line.
pub open spec fn cleaned(s: Seq<char>) -> Seq<char> {
    cleaned_from(s, 0, true)
}

/// The node that stands for the statement of node `i`: the ancestor of
/// `i`, or `i` itself, that is a child of a block or of the file; the root
/// where there is none.
pub open spec fn statement_of(t: &SyntaxTree, i: int) -> int
    decreases i,
{
    if 0 < i < t.len() && 0 <= t.parent(i) < i {
        let k = t.nodes@[t.parent(i)].kind;
        if k == NodeKind::SourceFile || k == NodeKind::Block {
            i
        } else {
            statement_of(t, t.parent(i))
        }
    } else {
        i
    }
}

/// The sibling before node `c`, searched for among the siblings from `k`
/// on.
pub open spec fn sibling_before_from(t: &SyntaxTree, k: int, c: int) -> Option<int>
    decreases c - k,
{
    if k < 0 || k >= c || k >= t.len() {
        None
    } else if t.end(k) == c {
        Some(k)
    } else if k < t.end(k) < c {
        sibling_before_from(t, t.end(k), c)
    } else {
        None
    }
}

/// The sibling before node `c`.
pub open spec fn sibling_before(t: &SyntaxTree, c: int) -> Option<int> {
    if 0 < c < t.len() {
        sibling_before_from(t, t.parent(c) + 1, c)
    } else {
        None
    }
}

/// The text of node `i`, or nothing where its byte range holds no whole
/// characters of the source.
pub open spec fn text_or_empty(t: &SyntaxTree, src: Seq<char>, i: int) -> Seq<char> {
    let n = t.nodes@[i];
    if text_in_range(src, n.start_byte as int, n.end_byte as int) {
        text_between(src, n.start_byte as int, n.end_byte as int)
    } else {
        Seq::empty()
    }
}

/// The comment for node `i`: where the sibling before the statement of
/// `i` is a comment, its cleaned text.
pub open spec fn comment_for(t: &SyntaxTree, src: Seq<char>, i: int) -> Option<Seq<char>> {
    match sibling_before(t, statement_of(t, i)) {
        Some(sib) => {
            let k = t.nodes@[sib].kind;
            if k == NodeKind::LineComment || k == NodeKind::BlockComment {
                Some(cleaned(text_or_empty(t, src, sib)))
            } else {
                None
            }
        },
        None => None,
    }
}

/// What node `i` is, as its parent tells, and at times its grandparent.
pub open spec fn context_of(t: &SyntaxTree, i: int) -> Seq<char> {
    let p = t.parent(i);
    if p < 0 {
        t.nodes@[i].tag@
    } else {
        match t.nodes@[p].kind {
            NodeKind::Contract => if t.field_child(p, FieldName::Name) == Some(i) {
                "contract name"@
            } else {
                "in contract"@
            },
            NodeKind::NameDecl => "channel declaration (new)"@,
            NodeKind::Names => {
                let g = t.parent(p);
                if g < 0 {
                    "name"@
                } else {
                    match t.nodes@[g].kind {
                        NodeKind::Contract => "contract parameter"@,
                        NodeKind::LinearBind
                        | NodeKind::RepeatedBind
                        | NodeKind::PeekBind => "bound name"@,
                        _ => "name in "@ + t.nodes@[g].tag@,
                    }
                }
            },
            NodeKind::Send => "send target"@,
            NodeKind::Eval => "evaluated name"@,
            NodeKind::Method => if t.field_child(p, FieldName::Name) == Some(i) {
                "method name"@
            } else {
                "method target"@
            },
            _ => t.nodes@[i].tag@,
        }
    }
}

/// The Markdown shown for a node: its text as code, then what it is and
/// its kind, then the comment, if there is one.
pub open spec fn markup(
    text: Seq<char>,
    context: Seq<char>,
    kind: Seq<char>,
    comment: Option<Seq<char>>,
) -> Seq<char> {
    let head = "```rholang\n"@ + text + "\n```"@ + "\n\n"@ + "**"@ + context + "** (`"@ + kind
        + "`)"@;
    match comment {
        Some(c) => head + "\n\n"@ + "---\n"@ + c,
        None => head,
    }
}

/// The Markdown shown for node `i`.
pub open spec fn hover_text(t: &SyntaxTree, src: Seq<char>, i: int) -> Seq<char> {
    markup(text_or_empty(t, src, i), context_of(t, i), t.nodes@[i].tag@, comment_for(t, src, i))
}

/// Tells whether a character is white space.
pub fn char_is_space(c: char) -> (r: bool)
    ensures
        r == is_space(c),
{
    let u: u32 = c as u32;
    (0x09 <= u && u <= 0x0d) || u == 0x20 || u == 0x85 || u == 0xa0 || u == 0x1680 || (0x2000 <= u
        && u <= 0x200a) || u == 0x2028 || u == 0x2029 || u == 0x202f || u == 0x205f || u == 0x3000
}

/// Passes over the white space at the start of `s[from..to]`.
pub fn skip_spaces_in(s: &str, from: usize, to: usize) -> (r: usize)
    requires
        from <= to <= s@.len(),
    ensures
        r == skip_spaces(s@, from as int, to as int),
        from <= r <= to,
{
    let mut a: usize = from;
    while a < to && char_is_space(s.get_char(a))
        invariant
            from <= a <= to <= s@.len(),
            skip_spaces(s@, from as int, to as int) == skip_spaces(s@, a as int, to as int),
        decreases to - a,
    {
        a += 1;
    }
    a
}

/// Passes over the white space at the end of `s[from..to]`.
pub fn drop_spaces_in(s: &str, from: usize, to: usize) -> (r: usize)
    requires
        from <= to <= s@.len(),
    ensures
        r == drop_spaces(s@, from as int, to as int),
        from <= r <= to,
{
    let mut b: usize = to;
    while from < b && char_is_space(s.get_char(b - 1))
        invariant
            from <= b <= to <= s@.len(),
            drop_spaces(s@, from as int, to as int) == drop_spaces(s@, from as int, b as int),
        decreases b - from,
    {
        b -= 1;
    }
    b
}

/// Passes over the repetitions of `a`, `b` at the start of `s[from..to]`.
pub fn skip_pairs_in(s: &str, from: usize, to: usize, a: char, b: char) -> (r: usize)
    requires
        from <= to <= s@.len(),
    ensures
        r == skip_pairs(s@, from as int, to as int, a, b),
        from <= r <= to,
{
    let mut i: usize = from;
    while to - i >= 2 && s.get_char(i) == a && s.get_char(i + 1) == b
        invariant
            from <= i <= to <= s@.len(),
            skip_pairs(s@, from as int, to as int, a, b) == skip_pairs(
                s@,
                i as int,
                to as int,
                a,
                b,
            ),
        decreases to - i,
    {
        i += 2;
    }
    i
}

/// Passes over the repetitions of `a`, `b` at the end of `s[from..to]`.
pub fn drop_pairs_in(s: &str, from: usize, to: usize, a: char, b: char) -> (r: usize)
    requires
        from <= to <= s@.len(),
    ensures
        r == drop_pairs(s@, from as int, to as int, a, b),
        from <= r <= to,
{
    let mut j: usize = to;
    while j - from >= 2 && s.get_char(j - 2) == a && s.get_char(j - 1) == b
        invariant
            from <= j <= to <= s@.len(),
            drop_pairs(s@, from as int, to as int, a, b) == drop_pairs(
                s@,
                from as int,
                j as int,
                a,
                b,
            ),
        decreases j - from,
    {
        j -= 2;
    }
    j
}

/// Finds what is left of a line of a comment.
pub fn clean_line<'a>(s: &'a str, from: usize, to: usize) -> (r: &'a str)
    requires
        from <= to <= s@.len(),
    ensures
        r@ == s@.subrange(
            clean_bounds(s@, from as int, to as int).0,
            clean_bounds(s@, from as int, to as int).1,
        ),
{
    let a1: usize = skip_spaces_in(s, from, to);
    let b1: usize = drop_spaces_in(s, a1, to);
    let a2: usize = skip_pairs_in(s, a1, b1, '/', '/');
    let a3: usize = skip_pairs_in(s, a2, b1, '/', '*');
    let b2: usize = drop_pairs_in(s, a3, b1, '*', '/');
    let a4: usize = skip_spaces_in(s, a3, b2);
    let b3: usize = drop_spaces_in(s, a4, b2);
    s.substring_char(a4, b3)
}

/// Cleans the text of a comment line by line.
pub fn clean_comment(text: &str) -> (r: String)
    ensures
        r@ == cleaned(text@),
{
    let total: usize = text.unicode_len();
    let mut out = String::new();
    let mut pos: usize = 0;
    let mut first = true;
    while pos < total
        invariant
            pos <= total,
            total == text@.len(),
            cleaned(text@) =~= out@ + cleaned_from(text@, pos as int, first),
        decreases total - pos,
    {
        let mut e: usize = pos;
        while e < total && text.get_char(e) != '\n'
            invariant
                pos <= e <= total,
                total == text@.len(),
                feed_at(text@, pos as int) == feed_at(text@, e as int),
            decreases total - e,
        {
            e += 1;
        }
        let stop: usize = if e < total && pos < e && text.get_char(e - 1) == '\r' {
            e - 1
        } else {
            e
        };
        let line = clean_line(text, pos, stop);
        let ghost before = out@;
        let ghost rest = cleaned_from(text@, e + 1, false);
        if !first {
            out.append("\n");
        }
        out.append(line);
        proof {
            reveal_strlit("\n");
            let sep = if first {
                Seq::<char>::empty()
            } else {
                seq!['\n']
            };
            assert(cleaned_from(text@, pos as int, first) == sep + line@ + rest);
            assert(out@ + rest =~= before + (sep + line@ + rest));
        }
        first = false;
        if e < total {
            pos = e + 1;
        } else {
            pos = total;
        }
    }
    out
}

/// Walks up from node `i` to the node that stands for its statement.
pub fn find_statement(t: &SyntaxTree, i: usize) -> (s: usize)
    requires
        t.wf(),
        i < t.len(),
    ensures
        s == statement_of(t, i as int),
        s <= i,
{
    let mut prev: usize = i;
    loop
        invariant
            t.wf(),
            prev <= i,
            i < t.len(),
            statement_of(t, i as int) == statement_of(t, prev as int),
        decreases prev,
    {
        match t.parent_of(prev) {
            None => {
                return prev;
            },
            Some(p) => {
                let k = t.node(p).kind;
                if k == NodeKind::SourceFile || k == NodeKind::Block {
                    return prev;
                }
                prev = p;
            },
        }
    }
}

/// Finds the sibling before node `c`.
pub fn prev_sibling(t: &SyntaxTree, c: usize) -> (r: Option<usize>)
    requires
        t.wf(),
        c < t.len(),
    ensures
        idx(r) == sibling_before(t, c as int),
        r matches Some(k) ==> k < c,
{
    match t.parent_of(c) {
        None => None,
        Some(p) => {
            let mut k: usize = p + 1;
            while k < c
                invariant
                    t.wf(),
                    p < k <= c,
                    c < t.len(),
                    sibling_before(t, c as int) == sibling_before_from(t, k as int, c as int),
                decreases c - k,
            {
                let e: usize = t.end_of(k);
                if e == c {
                    return Some(k);
                }
                if e > c {
                    return None;
                }
                k = e;
            }
            None
        },
    }
}

/// The text of node `i`, or nothing where it cannot be read.
pub fn node_text<'a>(t: &SyntaxTree, source: &'a str, i: usize) -> (r: &'a str)
    requires
        t.wf(),
        i < t.len(),
    ensures
        r@ == text_or_empty(t, source@, i as int),
{
    let n = t.node(i);
    match slice_text(source, n.start_byte, n.end_byte) {
        Some(text) => text,
        None => {
            let empty = "";
            proof {
                reveal_strlit("");
            }
            empty
        },
    }
}

/// Finds the comment that stands before the statement of node `i`, and
/// cleans it.
pub fn find_preceding_comment(t: &SyntaxTree, source: &str, i: usize) -> (r: Option<String>)
    requires
        t.wf(),
        i < t.len(),
    ensures
        r is Some <==> comment_for(t, source@, i as int) is Some,
        r matches Some(c) ==> c@ == comment_for(t, source@, i as int)->0,
{
    let statement: usize = find_statement(t, i);
    match prev_sibling(t, statement) {
        None => None,
        Some(sib) => {
            let k = t.node(sib).kind;
            if k == NodeKind::LineComment || k == NodeKind::BlockComment {
                Some(clean_comment(node_text(t, source, sib)))
            } else {
                None
            }
        },
    }
}

/// Says what node `i` is.
pub fn describe(t: &SyntaxTree, i: usize) -> (r: String)
    requires
        t.wf(),
        i < t.len(),
    ensures
        r@ == context_of(t, i as int),
{
    match t.parent_of(i) {
        None => String::from_str(t.node(i).tag),
        Some(p) => {
            match t.node(p).kind {
                NodeKind::Contract => if t.is_name_of(p, i) {
                    String::from_str("contract name")
                } else {
                    String::from_str("in contract")
                },
                NodeKind::NameDecl => String::from_str("channel declaration (new)"),
                NodeKind::Names => {
                    match t.parent_of(p) {
                        None => String::from_str("name"),
                        Some(g) => {
                            match t.node(g).kind {
                                NodeKind::Contract => String::from_str("contract parameter"),
                                NodeKind::LinearBind
                                | NodeKind::RepeatedBind
                                | NodeKind::PeekBind => String::from_str("bound name"),
                                _ => {
                                    let mut r = String::from_str("name in ");
                                    r.append(t.node(g).tag);
                                    r
                                },
                            }
                        },
                    }
                },
                NodeKind::Send => String::from_str("send target"),
                NodeKind::Eval => String::from_str("evaluated name"),
                NodeKind::Method => if t.is_name_of(p, i) {
                    String::from_str("method name")
                } else {
                    String::from_str("method target")
                },
                _ => String::from_str(t.node(i).tag),
            }
        },
    }
}

/// Puts the parts of a hover together.
pub fn render(text: &str, context: &str, kind: &str, comment: Option<String>) -> (r: String)
    ensures
        r@ == markup(
            text@,
            context@,
            kind@,
            match comment {
                Some(c) => Some(c@),
                None => None,
            },
        ),
{
    let mut r = String::from_str("```rholang\n");
    r.append(text);
    r.append("\n```");
    r.append("\n\n");
    r.append("**");
    r.append(context);
    r.append("** (`");
    r.append(kind);
    r.append("`)");
    match comment {
        Some(c) => {
            r.append("\n\n");
            r.append("---\n");
            r.append(c.as_str());
        },
        None => {},
    }
    r
}

/// The hover for node `i`.
pub fn hover_at_node(t: &SyntaxTree, source: &str, i: usize) -> (h: Hover)
    requires
        t.wf(),
        i < t.len(),
    ensures
        h.contents@ == hover_text(t, source@, i as int),
        h.range == t.nodes@[i as int].span(),
{
    let node = t.node(i);
    let context = describe(t, i);
    let comment = find_preceding_comment(t, source, i);
    let contents = render(node_text(t, source, i), context.as_str(), node.tag, comment);
    Hover { contents, range: node.range() }
}

/// The hover for the node that a position of a document denotes; nothing
/// where it denotes no node.
pub fn hover(doc: &Document, pos: Position) -> (r: Option<Hover>)
    requires
        doc.wf(),
    ensures
        match cursor_at(doc.tree, &doc.syntax, pos) {
            Some(i) => r matches Some(h) && h.contents@ == hover_text(
                &doc.syntax,
                doc.source@,
                i,
            ) && h.range == doc.syntax.nodes@[i].span(),
            None => r is None,
        },
{
    match named_node_at(&doc.tree, &doc.syntax, pos) {
        None => None,
        Some(i) => Some(hover_at_node(&doc.syntax, doc.source.as_str(), i)),
    }
}

} // verus!
