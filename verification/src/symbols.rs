//! The outline of a document: its named procedures, each with what its
//! body holds, and the channels that it introduces.

use crate::document::Document;
use crate::kinds::{FieldName, NodeKind};
use crate::position::Range;
use crate::syntax::{NodeData, SyntaxTree};
use crate::text::{slice_text, text_between, text_in_range};
use vstd::prelude::*;
use vstd::string::*;

verus! {

/// What kind of thing a symbol is.
#[derive(Clone, Copy, Debug, PartialEq, Eq, Structural)]
pub enum SymbolKind {
    Function,
    Variable,
}

/// A symbol of the outline.
#[derive(Debug)]
pub struct DocumentSymbol {
    pub name: String,
    /// What the symbol is, in a word.
    pub detail: String,
    pub kind: SymbolKind,
    /// The range of the construct.
    pub range: Range,
    /// The range of the name.
    pub selection_range: Range,
    /// The symbols within this one; none where there would be no symbol.
    pub children: Option<Vec<DocumentSymbol>>,
}

/// A symbol as a mathematical value.
pub ghost struct SymbolView {
    pub name: Seq<char>,
    pub detail: Seq<char>,
    pub kind: SymbolKind,
    pub range: Range,
    pub selection_range: Range,
    pub children: Option<Seq<SymbolView>>,
}

impl DocumentSymbol {
    /// The symbol as a mathematical value, its children included.
    pub open spec fn view(&self) -> SymbolView
        decreases self,
    {
        SymbolView {
            name: self.name@,
            detail: self.detail@,
            kind: self.kind,
            range: self.range,
            selection_range: self.selection_range,
            children: match self.children {
                Some(v) => Some(
                    Seq::new(
                        v@.len(),
                        |k: int|
                            if 0 <= k < v@.len() {
                                v@[k].view()
                            } else {
                                arbitrary()
                            },
                    ),
                ),
                None => None,
            },
        }
    }
}

/// The symbols as mathematical values.
pub open spec fn views(s: Seq<DocumentSymbol>) -> Seq<SymbolView> {
    Seq::new(s.len(), |k: int| s[k].view())
}

/// The children of a symbol, as its view has them.
pub proof fn lemma_view_children(s: DocumentSymbol)
    ensures
        s@.children == match s.children {
            Some(v) => Some(views(v@)),
            None => None,
        },
{
}

/// The name of a symbol: the text of its name node, or a question mark
/// where the byte range of the node holds no whole characters of the
/// source.
pub open spec fn name_text(src: Seq<char>, n: NodeData) -> Seq<char> {
    if text_in_range(src, n.start_byte as int, n.end_byte as int) {
        text_between(src, n.start_byte as int, n.end_byte as int)
    } else {
        "?"@
    }
}

/// Whether child `c` of a declarations node declares a channel: it is a
/// declaration, a name declaration by kind, and its first child is an
/// identifier.
pub open spec fn declares_channel(t: &SyntaxTree, c: int) -> bool {
    &&& t.nodes@[c].field == FieldName::Decl
    &&& t.nodes@[c].kind == NodeKind::NameDecl
    &&& c + 1 < t.end(c)
    &&& c + 1 < t.len()
    &&& t.nodes@[c + 1].kind == NodeKind::Var
}

/// The symbol of the channel that child `c` declares.
pub open spec fn channel_symbol(t: &SyntaxTree, src: Seq<char>, c: int) -> SymbolView {
    SymbolView {
        name: name_text(src, t.nodes@[c + 1]),
        detail: "channel"@,
        kind: SymbolKind::Variable,
        range: t.nodes@[c].span(),
        selection_range: t.nodes@[c + 1].span(),
        children: None,
    }
}

/// The symbols of the channels that the children of a declarations node
/// declare, from child `c` on, up to `stop`.
pub open spec fn channel_symbols(t: &SyntaxTree, src: Seq<char>, c: int, stop: int) -> Seq<
    SymbolView,
>
    decreases stop - c,
{
    if c < 0 || c >= stop || c >= t.len() {
        Seq::empty()
    } else {
        let here = if declares_channel(t, c) {
            seq![channel_symbol(t, src, c)]
        } else {
            Seq::empty()
        };
        if c < t.end(c) <= stop {
            here + channel_symbols(t, src, t.end(c), stop)
        } else {
            here
        }
    }
}

/// The symbols of the subtree of the child of `i` with field `f`; none
/// where `i` has no such child.
pub open spec fn symbols_below(t: &SyntaxTree, src: Seq<char>, i: int, f: FieldName) -> Seq<
    SymbolView,
>
    decreases t.len() - i, 0int,
{
    match t.field_child(i, f) {
        Some(b) => if 0 <= i < b < t.len() {
            symbols_at(t, src, b)
        } else {
            Seq::empty()
        },
        None => Seq::empty(),
    }
}

/// The symbols of the subtree of node `i`.
///
/// A named procedure that has a name is one symbol, and the symbols of its
/// body are its children. A channel introduction gives one symbol for each
/// channel it declares, and then the symbols of its body. Any other node
/// gives the symbols of its children.
pub open spec fn symbols_at(t: &SyntaxTree, src: Seq<char>, i: int) -> Seq<SymbolView>
    decreases t.len() - i, 1int,
{
    if i < 0 || i >= t.len() {
        Seq::empty()
    } else if t.nodes@[i].kind == NodeKind::Contract && t.field_child(i, FieldName::Name) is Some {
        let nm = t.field_child(i, FieldName::Name)->0;
        let kids = symbols_below(t, src, i, FieldName::Proc);
        seq![
            SymbolView {
                name: name_text(src, t.nodes@[nm]),
                detail: "contract"@,
                kind: SymbolKind::Function,
                range: t.nodes@[i].span(),
                selection_range: t.nodes@[nm].span(),
                children: if kids.len() == 0 {
                    None
                } else {
                    Some(kids)
                },
            },
        ]
    } else if t.nodes@[i].kind == NodeKind::New {
        let channels = match t.field_child(i, FieldName::Decls) {
            Some(d) => channel_symbols(t, src, d + 1, t.end(d)),
            None => Seq::empty(),
        };
        channels + symbols_below(t, src, i, FieldName::Proc)
    } else {
        symbols_in(t, src, i + 1, t.end(i))
    }
}

/// The symbols of the subtrees of the siblings from node `i` on, up to
/// `stop`.
pub open spec fn symbols_in(t: &SyntaxTree, src: Seq<char>, i: int, stop: int) -> Seq<SymbolView>
    decreases t.len() - i, 2int,
{
    if i < 0 || i >= stop || i >= t.len() {
        Seq::empty()
    } else if i < t.end(i) <= stop && t.end(i) <= t.len() {
        symbols_at(t, src, i) + symbols_in(t, src, t.end(i), stop)
    } else {
        symbols_at(t, src, i)
    }
}

/// Reads the name of a symbol from its name node.
pub fn read_name(source: &str, n: &NodeData) -> (name: String)
    ensures
        name@ == name_text(source@, *n),
{
    match slice_text(source, n.start_byte, n.end_byte) {
        Some(text) => String::from_str(text),
        None => String::from_str("?"),
    }
}

/// Adds the symbols of the channels that the declarations node `decls`
/// declares.
pub fn collect_channels(t: &SyntaxTree, source: &str, decls: usize, symbols: &mut Vec<
    DocumentSymbol,
>)
    requires
        t.wf(),
        decls < t.len(),
    ensures
        views(final(symbols)@) == views(old(symbols)@) + channel_symbols(
            t,
            source@,
            decls + 1,
            t.end(decls as int),
        ),
{
    let ghost before = views(symbols@);
    let ghost all = channel_symbols(t, source@, decls + 1, t.end(decls as int));
    let ghost mut done: Seq<SymbolView> = Seq::empty();
    let stop: usize = t.end_of(decls);
    let mut c: usize = decls + 1;
    while c < stop
        invariant
            t.wf(),
            decls < c <= stop,
            stop == t.end(decls as int),
            stop <= t.len(),
            all =~= done + channel_symbols(t, source@, c as int, stop as int),
            views(symbols@) =~= before + done,
        decreases stop - c,
    {
        let decl = t.node(c);
        proof {
            t.lemma_spanned_descends(decls as int, c as int);
            t.lemma_ancestor_spans(decls as int, c as int);
        }
        let next: usize = t.end_of(c);
        if decl.field == FieldName::Decl && decl.kind == NodeKind::NameDecl {
            match t.first_child(c) {
                Some(v) => {
                    let var_node = t.node(v);
                    if var_node.kind == NodeKind::Var {
                        let ghost old_syms = symbols@;
                        let sym = DocumentSymbol {
                            name: read_name(source, var_node),
                            detail: String::from_str("channel"),
                            kind: SymbolKind::Variable,
                            range: decl.range(),
                            selection_range: var_node.range(),
                            children: None,
                        };
                        symbols.push(sym);
                        proof {
                            assert(views(symbols@) =~= views(old_syms).push(sym@));
                            done = done.push(sym@);
                        }
                    }
                },
                None => {},
            }
        }
        c = next;
    }
}

/// Adds the symbols of the subtree of the child of `i` with field `f`.
pub fn collect_below(t: &SyntaxTree, source: &str, i: usize, f: FieldName, symbols: &mut Vec<
    DocumentSymbol,
>)
    requires
        t.wf(),
        i < t.len(),
    ensures
        views(final(symbols)@) == views(old(symbols)@) + symbols_below(t, source@, i as int, f),
    decreases t.len() - i, 0int,
{
    match t.child_by_field(i, f) {
        Some(b) => {
            collect_symbols(t, source, b, symbols);
        },
        None => {},
    }
}

/// Adds the symbols of the subtree of node `i`.
pub fn collect_symbols(t: &SyntaxTree, source: &str, i: usize, symbols: &mut Vec<DocumentSymbol>)
    requires
        t.wf(),
        i < t.len(),
    ensures
        views(final(symbols)@) == views(old(symbols)@) + symbols_at(t, source@, i as int),
    decreases t.len() - i, 1int,
{
    let ghost before = views(symbols@);
    let node = t.node(i);
    if node.kind == NodeKind::Contract {
        match t.child_by_field(i, FieldName::Name) {
            Some(nm) => {
                let name_node = t.node(nm);
                let mut kids: Vec<DocumentSymbol> = Vec::new();
                collect_below(t, source, i, FieldName::Proc, &mut kids);
                let children = if kids.len() == 0 {
                    None
                } else {
                    Some(kids)
                };
                let sym = DocumentSymbol {
                    name: read_name(source, name_node),
                    detail: String::from_str("contract"),
                    kind: SymbolKind::Function,
                    range: node.range(),
                    selection_range: name_node.range(),
                    children,
                };
                proof {
                    lemma_view_children(sym);
                }
                symbols.push(sym);
                return ;
            },
            None => {},
        }
    } else if node.kind == NodeKind::New {
        match t.child_by_field(i, FieldName::Decls) {
            Some(d) => {
                collect_channels(t, source, d, symbols);
            },
            None => {},
        }
        collect_below(t, source, i, FieldName::Proc, symbols);
        return ;
    }
    let ghost all = symbols_in(t, source@, i + 1, t.end(i as int));
    let ghost mut done: Seq<SymbolView> = Seq::empty();
    let stop: usize = t.end_of(i);
    let mut c: usize = i + 1;
    while c < stop
        invariant
            t.wf(),
            i < c <= stop,
            stop == t.end(i as int),
            stop <= t.len(),
            all =~= done + symbols_in(t, source@, c as int, stop as int),
            views(symbols@) =~= before + done,
        decreases stop - c,
    {
        proof {
            t.lemma_spanned_descends(i as int, c as int);
            t.lemma_ancestor_spans(i as int, c as int);
        }
        collect_symbols(t, source, c, symbols);
        proof {
            done = done + symbols_at(t, source@, c as int);
        }
        c = t.end_of(c);
    }
}

/// The symbols of a tree and its text.
pub fn symbols_for(t: &SyntaxTree, source: &str) -> (symbols: Vec<DocumentSymbol>)
    requires
        t.wf(),
    ensures
        views(symbols@) == symbols_at(t, source@, 0),
{
    let mut symbols: Vec<DocumentSymbol> = Vec::new();
    collect_symbols(t, source, 0, &mut symbols);
    symbols
}

/// The symbols of a document.
pub fn document_symbols(doc: &Document) -> (symbols: Vec<DocumentSymbol>)
    requires
        doc.wf(),
    ensures
        views(symbols@) == symbols_at(&doc.syntax, doc.source@, 0),
{
    symbols_for(&doc.syntax, doc.source.as_str())
}

} // verus!
