//! The token classifier: one walk over the tree gives each node that
//! matters for highlighting a category; the tokens are then put in the
//! order of the text and each is written relative to the one before it.

use crate::document::Document;
use crate::kinds::{FieldName, NodeKind};
use crate::position::{clamp_u32, to_u32};
use crate::syntax::{NodeData, SyntaxTree};
use crate::text::{line_lengths, line_lengths_of, text_in_range};
use vstd::prelude::*;
use vstd::seq_lib::to_multiset_insert;
use vstd::slice::slice_subrange;
use vstd::string::*;
use vstd::utf8::*;

verus! {

/// The categories of tokens. The place of a category in the legend is the
/// number that stands for it.
#[derive(Clone, Copy, Debug, PartialEq, Eq, Structural)]
pub enum TokenCategory {
    Keyword,
    Variable,
    Function,
    Text,
    Number,
    Operator,
    Comment,
    Type,
    Parameter,
    Method,
}

impl TokenCategory {
    /// The number of the category: its index in the legend.
    pub open spec fn index(self) -> u32 {
        match self {
            TokenCategory::Keyword => 0,
            TokenCategory::Variable => 1,
            TokenCategory::Function => 2,
            TokenCategory::Text => 3,
            TokenCategory::Number => 4,
            TokenCategory::Operator => 5,
            TokenCategory::Comment => 6,
            TokenCategory::Type => 7,
            TokenCategory::Parameter => 8,
            TokenCategory::Method => 9,
        }
    }

    /// The number of the category.
    pub fn code(self) -> (c: u32)
        ensures
            c == self.index(),
            c < 10,
    {
        match self {
            TokenCategory::Keyword => 0,
            TokenCategory::Variable => 1,
            TokenCategory::Function => 2,
            TokenCategory::Text => 3,
            TokenCategory::Number => 4,
            TokenCategory::Operator => 5,
            TokenCategory::Comment => 6,
            TokenCategory::Type => 7,
            TokenCategory::Parameter => 8,
            TokenCategory::Method => 9,
        }
    }

    /// The name of the category in the legend.
    pub open spec fn label(self) -> Seq<char> {
        match self {
            TokenCategory::Keyword => "keyword"@,
            TokenCategory::Variable => "variable"@,
            TokenCategory::Function => "function"@,
            TokenCategory::Text => "string"@,
            TokenCategory::Number => "number"@,
            TokenCategory::Operator => "operator"@,
            TokenCategory::Comment => "comment"@,
            TokenCategory::Type => "type"@,
            TokenCategory::Parameter => "parameter"@,
            TokenCategory::Method => "method"@,
        }
    }

    /// The name of the category in the legend.
    pub fn name(self) -> (s: &'static str)
        ensures
            s@ == self.label(),
    {
        match self {
            TokenCategory::Keyword => "keyword",
            TokenCategory::Variable => "variable",
            TokenCategory::Function => "function",
            TokenCategory::Text => "string",
            TokenCategory::Number => "number",
            TokenCategory::Operator => "operator",
            TokenCategory::Comment => "comment",
            TokenCategory::Type => "type",
            TokenCategory::Parameter => "parameter",
            TokenCategory::Method => "method",
        }
    }
}

/// The legend: the categories in the order of their numbers.
pub fn legend() -> (l: Vec<TokenCategory>)
    ensures
        l@.len() == 10,
        forall|k: int| 0 <= k < 10 ==> (#[trigger] l@[k]).index() == k,
{
    let mut l: Vec<TokenCategory> = Vec::new();
    l.push(TokenCategory::Keyword);
    l.push(TokenCategory::Variable);
    l.push(TokenCategory::Function);
    l.push(TokenCategory::Text);
    l.push(TokenCategory::Number);
    l.push(TokenCategory::Operator);
    l.push(TokenCategory::Comment);
    l.push(TokenCategory::Type);
    l.push(TokenCategory::Parameter);
    l.push(TokenCategory::Method);
    l
}

/// A token at its place in the text.
#[derive(Clone, Copy, Debug, PartialEq, Eq, Structural)]
pub struct RawToken {
    pub line: u32,
    pub col: u32,
    pub len: u32,
    pub token_type: u32,
}

/// A token at its place relative to the token before it.
#[derive(Clone, Copy, Debug, PartialEq, Eq, Structural)]
pub struct SemanticToken {
    pub delta_line: u32,
    pub delta_start: u32,
    pub length: u32,
    pub token_type: u32,
    pub token_modifiers_bitset: u32,
}

/// The length of the token of a node: the columns it spans where it lies
/// in one line, else the bytes it spans. A node that ends before it starts
/// has length 0.
pub open spec fn span_len(n: NodeData) -> u32 {
    if n.start.line == n.end.line {
        if n.end.character >= n.start.character {
            (n.end.character - n.start.character) as u32
        } else {
            0
        }
    } else if n.end_byte >= n.start_byte {
        clamp_u32(n.end_byte - n.start_byte)
    } else {
        0
    }
}

/// The token that spans a node, in a category.
pub open spec fn whole_token(n: NodeData, c: TokenCategory) -> RawToken {
    RawToken { line: n.start.line, col: n.start.character, len: span_len(n), token_type: c.index() }
}

/// Whether a kind is a reserved word that also names the construct it
/// stands in: the word and the construct share the tag.
pub open spec fn is_word_kind(k: NodeKind) -> bool {
    match k {
        NodeKind::New
        | NodeKind::In
        | NodeKind::Contract
        | NodeKind::For
        | NodeKind::Select
        | NodeKind::Match
        | NodeKind::If
        | NodeKind::Else
        | NodeKind::Let
        | NodeKind::Not
        | NodeKind::And
        | NodeKind::Or
        | NodeKind::Matches => true,
        _ => false,
    }
}

/// Whether a kind is that of a word by itself: a bundle marker, a boolean
/// literal or nil. No construct has such a kind.
pub open spec fn is_word_literal_kind(k: NodeKind) -> bool {
    match k {
        NodeKind::BundleWrite
        | NodeKind::BundleRead
        | NodeKind::BundleEquiv
        | NodeKind::BundleReadWrite
        | NodeKind::BoolLiteral
        | NodeKind::Nil => true,
        _ => false,
    }
}

/// Whether a node is highlighted as a keyword: a reserved word, which is
/// a node without a name of its own, or a word by itself. A construct
/// that shares its tag with a reserved word is no keyword: the walk goes
/// into it and finds the word there.
pub open spec fn is_keyword(n: NodeData) -> bool {
    is_word_literal_kind(n.kind) || (is_word_kind(n.kind) && !n.named)
}

/// Whether the walk stops at a node of this kind: literals and comments
/// are leaves, whatever they hold.
pub open spec fn is_leaf_kind(k: NodeKind) -> bool {
    match k {
        NodeKind::StringLiteral
        | NodeKind::UriLiteral
        | NodeKind::LongLiteral
        | NodeKind::LineComment
        | NodeKind::BlockComment => true,
        _ => false,
    }
}

/// Whether the walk goes on to the children of a node: it does for named
/// nodes that are no leaves.
pub open spec fn descends(n: NodeData) -> bool {
    n.named && !is_leaf_kind(n.kind)
}

/// The category of the identifier at node `i`, which its parent decides,
/// and at times its grandparent: the name of a named procedure is a
/// function, the name of a method call a method; an identifier in a
/// channel declaration, or among the names of a named procedure, is a
/// parameter; every other identifier is a variable.
pub open spec fn var_category(t: &SyntaxTree, i: int) -> TokenCategory {
    let p = t.parent(i);
    if p < 0 {
        TokenCategory::Variable
    } else {
        match t.nodes@[p].kind {
            NodeKind::Contract => if t.field_child(p, FieldName::Name) == Some(i) {
                TokenCategory::Function
            } else {
                TokenCategory::Variable
            },
            NodeKind::Method => if t.field_child(p, FieldName::Name) == Some(i) {
                TokenCategory::Method
            } else {
                TokenCategory::Variable
            },
            NodeKind::NameDecl => TokenCategory::Parameter,
            NodeKind::Names => {
                let g = t.parent(p);
                if g >= 0 && t.nodes@[g].kind == NodeKind::Contract {
                    TokenCategory::Parameter
                } else {
                    TokenCategory::Variable
                }
            },
            _ => TokenCategory::Variable,
        }
    }
}

/// The lengths of the lines of the text of a comment; none where the byte
/// range of the comment holds no whole characters of the source.
pub open spec fn comment_lines(src: Seq<char>, n: NodeData) -> Seq<int> {
    if text_in_range(src, n.start_byte as int, n.end_byte as int) {
        line_lengths(encode_utf8(src).subrange(n.start_byte as int, n.end_byte as int), 0)
    } else {
        Seq::empty()
    }
}

/// The tokens of a comment that spans several lines: one for each line of
/// its text, the first at the start of the comment, the others at the
/// start of their lines.
pub open spec fn comment_tokens(src: Seq<char>, n: NodeData) -> Seq<RawToken> {
    let lens = comment_lines(src, n);
    Seq::new(
        lens.len(),
        |k: int|
            RawToken {
                line: clamp_u32(n.start.line + k),
                col: if k == 0 {
                    n.start.character
                } else {
                    0
                },
                len: clamp_u32(lens[k]),
                token_type: TokenCategory::Comment.index(),
            },
    )
}

/// A comment of several lines has one token for each line, and each token
/// but the first starts at column 0.
pub proof fn lemma_comment_token_per_line(src: Seq<char>, n: NodeData)
    ensures
        comment_tokens(src, n).len() == comment_lines(src, n).len(),
        forall|k: int|
            1 <= k < comment_tokens(src, n).len() ==> (#[trigger] comment_tokens(src, n)[k]).col
                == 0,
        forall|k: int|
            0 <= k < comment_tokens(src, n).len() ==> (#[trigger] comment_tokens(
                src,
                n,
            )[k]).token_type == TokenCategory::Comment.index(),
        comment_tokens(src, n).len() > 0 ==> comment_tokens(src, n)[0].col == n.start.character
            && comment_tokens(src, n)[0].line == n.start.line,
{
}

/// The tokens of node `i` itself.
pub open spec fn node_tokens(t: &SyntaxTree, src: Seq<char>, i: int) -> Seq<RawToken> {
    let n = t.nodes@[i];
    if is_keyword(n) {
        seq![whole_token(n, TokenCategory::Keyword)]
    } else {
        match n.kind {
            NodeKind::LineComment | NodeKind::BlockComment => if n.start.line == n.end.line {
                seq![whole_token(n, TokenCategory::Comment)]
            } else {
                comment_tokens(src, n)
            },
            NodeKind::StringLiteral | NodeKind::UriLiteral => seq![
                whole_token(n, TokenCategory::Text),
            ],
            NodeKind::LongLiteral => seq![whole_token(n, TokenCategory::Number)],
            NodeKind::SimpleType => seq![whole_token(n, TokenCategory::Type)],
            NodeKind::Var => seq![whole_token(n, var_category(t, i))],
            NodeKind::Operator => if n.named {
                Seq::empty()
            } else {
                seq![whole_token(n, TokenCategory::Operator)]
            },
            _ => Seq::empty(),
        }
    }
}

/// The node that the walk visits after node `i`: its first child where the
/// walk descends, else the node after its subtree.
pub open spec fn next_visited(t: &SyntaxTree, i: int) -> int {
    if descends(t.nodes@[i]) {
        i + 1
    } else {
        t.end(i)
    }
}

/// The tokens of the nodes that the walk visits from node `i` up to
/// `stop`, in the order of the walk.
pub open spec fn collected(t: &SyntaxTree, src: Seq<char>, i: int, stop: int) -> Seq<RawToken>
    decreases stop - i,
{
    if i < 0 || i >= stop {
        Seq::empty()
    } else if i < next_visited(t, i) <= stop {
        node_tokens(t, src, i) + collected(t, src, next_visited(t, i), stop)
    } else {
        node_tokens(t, src, i)
    }
}

/// Whether the walk from node `from` comes to node `i`: it does not where
/// `i` lies below a literal, a comment or a node that is not named.
pub open spec fn walk_reaches(t: &SyntaxTree, from: int, i: int) -> bool
    decreases i - from,
{
    if from == i {
        true
    } else if from < next_visited(t, from) <= i {
        walk_reaches(t, next_visited(t, from), i)
    } else {
        false
    }
}

/// The tokens of a walk that comes to node `i` are those gathered before
/// `i`, and then those gathered from `i` on.
pub proof fn lemma_collected_splits(t: &SyntaxTree, src: Seq<char>, from: int, i: int, stop: int)
    requires
        0 <= from <= i <= stop,
        walk_reaches(t, from, i),
    ensures
        collected(t, src, from, stop) == collected(t, src, from, i) + collected(t, src, i, stop),
    decreases i - from,
{
    if from < i {
        let next = next_visited(t, from);
        lemma_collected_splits(t, src, next, i, stop);
        assert(collected(t, src, from, stop) =~= node_tokens(t, src, from) + (collected(
            t,
            src,
            next,
            i,
        ) + collected(t, src, i, stop)));
    } else {
        assert(collected(t, src, from, i) =~= Seq::<RawToken>::empty());
    }
}

/// The tokens of a node that the walk comes to stand together in the list
/// that the walk gathers, behind the tokens gathered before the node.
pub proof fn lemma_node_tokens_are_collected(t: &SyntaxTree, src: Seq<char>, i: int)
    requires
        t.wf(),
        0 <= i < t.len(),
        walk_reaches(t, 0, i),
    ensures
        ({
            let all = collected(t, src, 0, t.len());
            let before = collected(t, src, 0, i).len() as int;
            let own = node_tokens(t, src, i);
            &&& before + own.len() <= all.len()
            &&& all.subrange(before, before + own.len()) == own
        }),
{
    lemma_collected_splits(t, src, 0, i, t.len());
    let all = collected(t, src, 0, t.len());
    let before = collected(t, src, 0, i);
    let own = node_tokens(t, src, i);
    let rest = collected(t, src, i, t.len());
    assert(rest.subrange(0, own.len() as int) =~= own);
    assert(all.subrange(before.len() as int, (before.len() + own.len()) as int) =~= own);
}

/// A comment of several lines comes out as one token for each of its
/// lines.
///
/// Let the walk come to node `i`, a comment that ends on a later line than
/// it begins on, with `n` lines of text. Then the list that the walk
/// gathers holds, one behind the other, `n` comment tokens for it, the
/// first at the start of the comment and each other at column 0, on
/// consecutive lines; and each of them is in the list that comes out in
/// the order of the text, which is as long as the list gathered.
pub proof fn law_comment_lines_come_out(t: &SyntaxTree, src: Seq<char>, i: int)
    requires
        t.wf(),
        0 <= i < t.len(),
        walk_reaches(t, 0, i),
        t.nodes@[i].kind == NodeKind::LineComment || t.nodes@[i].kind == NodeKind::BlockComment,
        t.nodes@[i].start.line != t.nodes@[i].end.line,
    ensures
        ({
            let all = collected(t, src, 0, t.len());
            let before = collected(t, src, 0, i).len() as int;
            let n = comment_lines(src, t.nodes@[i]).len();
            let out = stable_sorted(all);
            &&& before + n <= all.len()
            &&& out.len() == all.len()
            &&& tokens_of(t, src).len() == all.len()
            &&& forall|k: int|
                0 <= k < n ==> {
                    let tok = #[trigger] all[before + k];
                    &&& tok == comment_tokens(src, t.nodes@[i])[k]
                    &&& tok.token_type == TokenCategory::Comment.index()
                    &&& tok.line == clamp_u32(t.nodes@[i].start.line + k)
                    &&& tok.col == (if k == 0 {
                        t.nodes@[i].start.character
                    } else {
                        0
                    })
                    &&& tok.len == clamp_u32(comment_lines(src, t.nodes@[i])[k])
                    &&& out.contains(tok)
                }
        }),
{
    lemma_node_tokens_are_collected(t, src, i);
    let all = collected(t, src, 0, t.len());
    let before = collected(t, src, 0, i).len() as int;
    let own = node_tokens(t, src, i);
    let n = comment_lines(src, t.nodes@[i]).len();
    let out = stable_sorted(all);
    assert(own == comment_tokens(src, t.nodes@[i]));
    lemma_stable_sorted(all);
    all.to_multiset_ensures();
    out.to_multiset_ensures();
    assert(own.len() == n);
    assert forall|k: int| 0 <= k < n implies out.contains(#[trigger] all[before + k]) && all[before
        + k] == comment_tokens(src, t.nodes@[i])[k] by {
        assert(all.subrange(before, before + own.len())[k] == own[k]);
        let tok = all[before + k];
        assert(all.contains(tok));
        assert(all.to_multiset().count(tok) > 0);
        assert(out.to_multiset().count(tok) > 0);
    }
}

/// Whether token `a` does not come after token `b` in the text.
pub open spec fn token_le(a: RawToken, b: RawToken) -> bool {
    a.line < b.line || (a.line == b.line && a.col <= b.col)
}

/// Where a token goes into tokens that are in order: behind the last one
/// that does not come after it.
pub open spec fn insert_point(s: Seq<RawToken>, x: RawToken) -> int
    decreases s.len(),
{
    if s.len() == 0 {
        0
    } else if token_le(s.last(), x) {
        s.len() as int
    } else {
        insert_point(s.drop_last(), x)
    }
}

/// The tokens in the order of the text; tokens at one place keep the order
/// they had.
pub open spec fn stable_sorted(s: Seq<RawToken>) -> Seq<RawToken>
    decreases s.len(),
{
    if s.len() == 0 {
        Seq::empty()
    } else {
        let rest = stable_sorted(s.drop_last());
        rest.insert(insert_point(rest, s.last()), s.last())
    }
}

/// Whether the tokens are in the order of the text.
pub open spec fn in_order(s: Seq<RawToken>) -> bool {
    forall|i: int, j: int| 0 <= i < j < s.len() ==> token_le(#[trigger] s[i], #[trigger] s[j])
}

/// The insertion point lies within the sequence, after a token that does
/// not come after `x`, and before only tokens that come after `x`.
pub proof fn lemma_insert_point(s: Seq<RawToken>, x: RawToken)
    ensures
        0 <= insert_point(s, x) <= s.len(),
        insert_point(s, x) > 0 ==> token_le(s[insert_point(s, x) - 1], x),
        forall|k: int| insert_point(s, x) <= k < s.len() ==> !token_le(#[trigger] s[k], x),
    decreases s.len(),
{
    if s.len() > 0 && !token_le(s.last(), x) {
        lemma_insert_point(s.drop_last(), x);
        let j = insert_point(s.drop_last(), x);
        assert forall|k: int| j <= k < s.len() implies !token_le(#[trigger] s[k], x) by {
            if k < s.len() - 1 {
                assert(s.drop_last()[k] == s[k]);
            }
        }
    }
}

/// The place that a scan from the end finds is the insert point.
pub proof fn lemma_insert_point_unique(s: Seq<RawToken>, x: RawToken, j: int)
    requires
        0 <= j <= s.len(),
        j > 0 ==> token_le(s[j - 1], x),
        forall|k: int| j <= k < s.len() ==> !token_le(#[trigger] s[k], x),
    ensures
        j == insert_point(s, x),
{
    lemma_insert_point(s, x);
}

/// Sorting keeps the number of tokens, puts them in order, and neither
/// adds nor loses one.
pub proof fn lemma_stable_sorted(s: Seq<RawToken>)
    ensures
        stable_sorted(s).len() == s.len(),
        in_order(stable_sorted(s)),
        stable_sorted(s).to_multiset() == s.to_multiset(),
    decreases s.len(),
{
    if s.len() == 0 {
        assert(s =~= Seq::<RawToken>::empty());
    } else {
        lemma_stable_sorted(s.drop_last());
        let rest = stable_sorted(s.drop_last());
        let x = s.last();
        let j = insert_point(rest, x);
        lemma_insert_point(rest, x);
        // Inserting at the insertion point keeps the order: what stands
        // before it does not come after `x`, what stands after it does.
        assert(in_order(rest.insert(j, x)));
        to_multiset_insert(rest, j, x);
        assert(s =~= s.drop_last().insert(s.len() - 1, x));
        to_multiset_insert(s.drop_last(), s.len() - 1, x);
    }
}

/// The token at place `k` of tokens in order, written relative to the one
/// before it: the lines between the two, and the columns between them
/// where both are in one line, else the column itself. The first token is
/// relative to the start of the text.
pub open spec fn delta_at(s: Seq<RawToken>, k: int) -> SemanticToken {
    let prev_line: u32 = if k == 0 {
        0
    } else {
        s[k - 1].line
    };
    let prev_col: u32 = if k == 0 {
        0
    } else {
        s[k - 1].col
    };
    let delta_line = (s[k].line - prev_line) as u32;
    SemanticToken {
        delta_line,
        delta_start: if delta_line == 0 {
            (s[k].col - prev_col) as u32
        } else {
            s[k].col
        },
        length: s[k].len,
        token_type: s[k].token_type,
        token_modifiers_bitset: 0,
    }
}

/// The tokens, each relative to the one before it.
pub open spec fn delta_encoded(s: Seq<RawToken>) -> Seq<SemanticToken> {
    Seq::new(s.len(), |k: int| delta_at(s, k))
}

/// The semantic tokens of a tree: the tokens of the walk, in the order of
/// the text, each relative to the one before it.
pub open spec fn tokens_of(t: &SyntaxTree, src: Seq<char>) -> Seq<SemanticToken> {
    delta_encoded(stable_sorted(collected(t, src, 0, t.len())))
}

/// Measures the token of a node.
pub fn node_span_len(n: &NodeData) -> (l: u32)
    ensures
        l == span_len(*n),
{
    if n.start.line == n.end.line {
        if n.end.character >= n.start.character {
            n.end.character - n.start.character
        } else {
            0
        }
    } else if n.end_byte >= n.start_byte {
        to_u32(n.end_byte - n.start_byte)
    } else {
        0
    }
}

/// Makes the token that spans a node.
pub fn make_token(n: &NodeData, c: TokenCategory) -> (tok: RawToken)
    ensures
        tok == whole_token(*n, c),
{
    RawToken {
        line: n.start.line,
        col: n.start.character,
        len: node_span_len(n),
        token_type: c.code(),
    }
}

/// Tells whether a node is highlighted as a keyword.
pub fn node_is_keyword(n: &NodeData) -> (r: bool)
    ensures
        r == is_keyword(*n),
{
    match n.kind {
        NodeKind::New
        | NodeKind::In
        | NodeKind::Contract
        | NodeKind::For
        | NodeKind::Select
        | NodeKind::Match
        | NodeKind::If
        | NodeKind::Else
        | NodeKind::Let
        | NodeKind::Not
        | NodeKind::And
        | NodeKind::Or
        | NodeKind::Matches => !n.named,
        NodeKind::BundleWrite
        | NodeKind::BundleRead
        | NodeKind::BundleEquiv
        | NodeKind::BundleReadWrite
        | NodeKind::BoolLiteral
        | NodeKind::Nil => true,
        _ => false,
    }
}

/// Tells whether the walk goes on to the children of a node.
pub fn node_descends(n: &NodeData) -> (r: bool)
    ensures
        r == descends(*n),
{
    n.named && match n.kind {
        NodeKind::StringLiteral
        | NodeKind::UriLiteral
        | NodeKind::LongLiteral
        | NodeKind::LineComment
        | NodeKind::BlockComment => false,
        _ => true,
    }
}

/// Classifies the identifier at node `i`.
pub fn classify_var(t: &SyntaxTree, i: usize) -> (c: TokenCategory)
    requires
        t.wf(),
        i < t.len(),
    ensures
        c == var_category(t, i as int),
{
    match t.parent_of(i) {
        None => TokenCategory::Variable,
        Some(p) => {
            match t.node(p).kind {
                NodeKind::Contract => if t.is_name_of(p, i) {
                    TokenCategory::Function
                } else {
                    TokenCategory::Variable
                },
                NodeKind::Method => if t.is_name_of(p, i) {
                    TokenCategory::Method
                } else {
                    TokenCategory::Variable
                },
                NodeKind::NameDecl => TokenCategory::Parameter,
                NodeKind::Names => {
                    match t.parent_of(p) {
                        Some(g) => {
                            if t.node(g).kind == NodeKind::Contract {
                                TokenCategory::Parameter
                            } else {
                                TokenCategory::Variable
                            }
                        },
                        None => TokenCategory::Variable,
                    }
                },
                _ => TokenCategory::Variable,
            }
        },
    }
}

/// Adds the tokens of a comment that spans several lines.
pub fn push_comment_lines(source: &str, n: &NodeData, tokens: &mut Vec<RawToken>)
    ensures
        final(tokens)@ == old(tokens)@ + comment_tokens(source@, *n),
{
    let ghost before = tokens@;
    let bytes = source.as_bytes();
    if !(n.start_byte <= n.end_byte && n.end_byte <= bytes.len() && source.is_char_boundary(
        n.start_byte,
    ) && source.is_char_boundary(n.end_byte)) {
        return ;
    }
    let text = slice_subrange(bytes, n.start_byte, n.end_byte);
    let lens = line_lengths_of(text);
    let ghost expected = comment_tokens(source@, *n);
    let mut line: u32 = n.start.line;
    let mut k: usize = 0;
    while k < lens.len()
        invariant
            k <= lens@.len(),
            expected == comment_tokens(source@, *n),
            expected.len() == lens@.len(),
            forall|j: int| 0 <= j < lens@.len() ==> lens@[j] == comment_lines(source@, *n)[j],
            line == clamp_u32(n.start.line + k),
            tokens@ =~= before + expected.take(k as int),
        decreases lens@.len() - k,
    {
        let col: u32 = if k == 0 {
            n.start.character
        } else {
            0
        };
        let tok = RawToken {
            line,
            col,
            len: to_u32(lens[k]),
            token_type: TokenCategory::Comment.code(),
        };
        tokens.push(tok);
        if line < u32::MAX {
            line = line + 1;
        }
        k += 1;
    }
}

/// Adds the tokens of node `i`.
pub fn push_node_tokens(t: &SyntaxTree, source: &str, i: usize, tokens: &mut Vec<RawToken>)
    requires
        t.wf(),
        i < t.len(),
    ensures
        final(tokens)@ == old(tokens)@ + node_tokens(t, source@, i as int),
{
    let n = t.node(i);
    if node_is_keyword(n) {
        tokens.push(make_token(n, TokenCategory::Keyword));
        return ;
    }
    match n.kind {
        NodeKind::LineComment | NodeKind::BlockComment => {
            if n.start.line == n.end.line {
                tokens.push(make_token(n, TokenCategory::Comment));
            } else {
                push_comment_lines(source, n, tokens);
            }
        },
        NodeKind::StringLiteral | NodeKind::UriLiteral => {
            tokens.push(make_token(n, TokenCategory::Text));
        },
        NodeKind::LongLiteral => {
            tokens.push(make_token(n, TokenCategory::Number));
        },
        NodeKind::SimpleType => {
            tokens.push(make_token(n, TokenCategory::Type));
        },
        NodeKind::Var => {
            tokens.push(make_token(n, classify_var(t, i)));
        },
        NodeKind::Operator => {
            if !n.named {
                tokens.push(make_token(n, TokenCategory::Operator));
            }
        },
        _ => {},
    }
}

/// Walks the tree and collects the tokens of the nodes it visits.
pub fn collect_tokens(t: &SyntaxTree, source: &str) -> (tokens: Vec<RawToken>)
    requires
        t.wf(),
    ensures
        tokens@ == collected(t, source@, 0, t.len()),
{
    let mut tokens: Vec<RawToken> = Vec::new();
    let stop: usize = t.node_count();
    let mut i: usize = 0;
    while i < stop
        invariant
            t.wf(),
            i <= stop,
            stop == t.len(),
            collected(t, source@, 0, stop as int) =~= tokens@ + collected(
                t,
                source@,
                i as int,
                stop as int,
            ),
        decreases stop - i,
    {
        push_node_tokens(t, source, i, &mut tokens);
        let next: usize = if node_descends(t.node(i)) {
            i + 1
        } else {
            t.end_of(i)
        };
        i = next;
    }
    tokens
}

/// Compares the places of two tokens.
pub fn comes_first(a: &RawToken, b: &RawToken) -> (r: bool)
    ensures
        r == token_le(*a, *b),
{
    a.line < b.line || (a.line == b.line && a.col <= b.col)
}

/// Puts tokens in the order of the text. Tokens at one place keep the
/// order they had.
pub fn sort_tokens(tokens: Vec<RawToken>) -> (sorted: Vec<RawToken>)
    ensures
        sorted@ == stable_sorted(tokens@),
        in_order(sorted@),
        sorted@.len() == tokens@.len(),
{
    let mut sorted: Vec<RawToken> = Vec::new();
    let mut i: usize = 0;
    while i < tokens.len()
        invariant
            i <= tokens@.len(),
            sorted@ == stable_sorted(tokens@.take(i as int)),
            sorted@.len() == i,
        decreases tokens@.len() - i,
    {
        let x = tokens[i];
        let mut j: usize = sorted.len();
        while j > 0 && !comes_first(&sorted[j - 1], &x)
            invariant
                j <= sorted@.len(),
                forall|k: int| j <= k < sorted@.len() ==> !token_le(#[trigger] sorted@[k], x),
            decreases j,
        {
            j -= 1;
        }
        proof {
            lemma_insert_point_unique(sorted@, x, j as int);
            assert(tokens@.take(i + 1).drop_last() =~= tokens@.take(i as int));
        }
        sorted.insert(j, x);
        i += 1;
    }
    proof {
        assert(tokens@.take(i as int) =~= tokens@);
        lemma_stable_sorted(tokens@);
    }
    sorted
}

/// Writes tokens that are in order relative to one another.
pub fn delta_encode(sorted: &Vec<RawToken>) -> (result: Vec<SemanticToken>)
    requires
        in_order(sorted@),
    ensures
        result@ == delta_encoded(sorted@),
{
    let mut result: Vec<SemanticToken> = Vec::new();
    let mut prev_line: u32 = 0;
    let mut prev_start: u32 = 0;
    let mut k: usize = 0;
    while k < sorted.len()
        invariant
            k <= sorted@.len(),
            in_order(sorted@),
            prev_line == (if k == 0 { 0 } else { sorted@[k - 1].line }),
            prev_start == (if k == 0 { 0 } else { sorted@[k - 1].col }),
            result@ =~= delta_encoded(sorted@).take(k as int),
        decreases sorted@.len() - k,
    {
        let tok = sorted[k];
        let delta_line: u32 = tok.line - prev_line;
        let delta_start: u32 = if delta_line == 0 {
            tok.col - prev_start
        } else {
            tok.col
        };
        let out = SemanticToken {
            delta_line,
            delta_start,
            length: tok.len,
            token_type: tok.token_type,
            token_modifiers_bitset: 0,
        };
        result.push(out);
        prev_line = tok.line;
        prev_start = tok.col;
        k += 1;
    }
    result
}

/// The semantic tokens of a tree and its text.
pub fn tokens_for(t: &SyntaxTree, source: &str) -> (result: Vec<SemanticToken>)
    requires
        t.wf(),
    ensures
        result@ == tokens_of(t, source@),
{
    let tokens = collect_tokens(t, source);
    let sorted = sort_tokens(tokens);
    delta_encode(&sorted)
}

/// The semantic tokens of a document.
pub fn semantic_tokens(doc: &Document) -> (result: Vec<SemanticToken>)
    requires
        doc.wf(),
    ensures
        result@ == tokens_of(&doc.syntax, doc.source@),
{
    tokens_for(&doc.syntax, doc.source.as_str())
}

} // verus!
