use rholang_lsp::builder::TreeBuilder;
use rholang_lsp::definition::{
    definition_at_node, definition_node_at, find_definition_node, find_enclosing_scope,
    find_reference_nodes, find_var_in_subtree, reference_nodes_at, references_at_node,
};
use rholang_lsp::diagnostics::{collect_errors, diagnose, node_range, Severity};
use rholang_lsp::hover::{
    clean_comment, describe, find_preceding_comment, find_statement, hover_at_node,
    prev_sibling, render,
};
use rholang_lsp::kinds::FieldName;
use rholang_lsp::position::{Position, Range};
use rholang_lsp::rename::{prepare_rename_at_node, rename_at_node};
use rholang_lsp::semantic_tokens::{
    collect_tokens, delta_encode, legend, sort_tokens, tokens_for, RawToken, SemanticToken,
    TokenCategory,
};
use rholang_lsp::symbols::{symbols_for, SymbolKind};
use rholang_lsp::syntax::{NodeData, SyntaxTree};
use rholang_lsp::text::position_at;

fn at(src: &str, byte: usize) -> Position {
    let (line, col) = position_at(src.as_bytes(), byte);
    Position { line: line as u32, character: col as u32 }
}

fn span(src: &str, start: usize, end: usize) -> Range {
    Range { start: at(src, start), end: at(src, end) }
}

/// Lays a tree out over a source text.
struct Layout<'a> {
    src: &'a str,
    b: TreeBuilder,
}

impl<'a> Layout<'a> {
    fn new(src: &'a str) -> Self {
        Layout { src, b: TreeBuilder::new() }
    }

    fn data(&self, tag: &'static str, named: bool, start: usize, end: usize) -> NodeData {
        NodeData::new(tag, named, start, end, at(self.src, start), at(self.src, end))
    }

    /// Opens a named node.
    fn open(&mut self, tag: &'static str, start: usize, end: usize) -> usize {
        let n = self.data(tag, true, start, end);
        assert!(self.b.open(n));
        self.b.count() - 1
    }

    /// Opens a named node under a field name.
    fn open_in(&mut self, f: FieldName, tag: &'static str, start: usize, end: usize) -> usize {
        let n = self.data(tag, true, start, end).with_field(f);
        assert!(self.b.open(n));
        self.b.count() - 1
    }

    /// Adds a named leaf.
    fn leaf(&mut self, tag: &'static str, start: usize, end: usize) -> usize {
        let i = self.open(tag, start, end);
        self.close();
        i
    }

    /// Adds a named leaf under a field name.
    fn leaf_in(&mut self, f: FieldName, tag: &'static str, start: usize, end: usize) -> usize {
        let i = self.open_in(f, tag, start, end);
        self.close();
        i
    }

    /// Adds the leaf of a token of the grammar that has no name.
    fn token(&mut self, tag: &'static str, start: usize) -> usize {
        let n = self.data(tag, false, start, start + tag.len());
        assert!(self.b.open(n));
        assert!(self.b.close());
        self.b.count() - 1
    }

    fn close(&mut self) {
        assert!(self.b.close());
    }

    fn finish(self) -> SyntaxTree {
        self.b.finish().unwrap()
    }
}

const NEW_SRC: &str = "new x in { x!(1) }";

/// The tree of `new x in { x!(1) }`, with the two identifiers.
fn new_tree() -> (SyntaxTree, usize, usize) {
    let mut l = Layout::new(NEW_SRC);
    l.open("source_file", 0, 18);
    l.open("new", 0, 18);
    l.token("new", 0);
    l.open_in(FieldName::Decls, "name_decls", 4, 5);
    l.open_in(FieldName::Decl, "name_decl", 4, 5);
    let def = l.leaf("var", 4, 5);
    l.close();
    l.close();
    l.token("in", 6);
    l.open_in(FieldName::Proc, "block", 9, 18);
    l.token("{", 9);
    l.open("send", 11, 16);
    let used = l.leaf_in(FieldName::Other, "var", 11, 12);
    l.token("!", 12);
    l.token("(", 13);
    l.leaf("long_literal", 14, 15);
    l.token(")", 15);
    l.close();
    l.token("}", 17);
    l.close();
    l.close();
    (l.finish(), def, used)
}

const CONTRACT_SRC: &str = "contract Foo(x) = { x }";

/// The tree of `contract Foo(x) = { x }`, with the name, the parameter
/// and the use in the body.
fn contract_tree() -> (SyntaxTree, usize, usize, usize) {
    let mut l = Layout::new(CONTRACT_SRC);
    l.open("source_file", 0, 23);
    l.open("contract", 0, 23);
    l.token("contract", 0);
    let name = l.leaf_in(FieldName::Name, "var", 9, 12);
    l.token("(", 12);
    l.open_in(FieldName::Formals, "names", 13, 14);
    let formal = l.leaf("var", 13, 14);
    l.close();
    l.token(")", 14);
    l.token("=", 16);
    l.open_in(FieldName::Proc, "block", 18, 23);
    l.token("{", 18);
    let used = l.leaf("var", 20, 21);
    l.token("}", 22);
    l.close();
    l.close();
    (l.finish(), name, formal, used)
}

#[test]
fn use_resolves_to_the_channel_introduction() {
    let (t, def, used) = new_tree();
    assert_eq!(definition_node_at(&t, NEW_SRC, used), Some(def));
    let loc = definition_at_node(&t, NEW_SRC, used).unwrap();
    assert_eq!(loc.range, span(NEW_SRC, 4, 5));
    assert_eq!(loc.uri, "file:///");
    assert_eq!(find_definition_node(&t, NEW_SRC.as_bytes(), used, b"x"), Some(def));
}

#[test]
fn references_from_either_occurrence_are_both_in_order() {
    let (t, def, used) = new_tree();
    assert_eq!(reference_nodes_at(&t, NEW_SRC, used), vec![def, used]);
    assert_eq!(reference_nodes_at(&t, NEW_SRC, def), vec![def, used]);
    let refs = references_at_node(&t, NEW_SRC, def, "file:///a.rho");
    assert_eq!(refs.len(), 2);
    assert_eq!(refs[0].range, span(NEW_SRC, 4, 5));
    assert_eq!(refs[1].range, span(NEW_SRC, 11, 12));
    assert_eq!(refs[0].uri, "file:///a.rho");
    assert_eq!(refs[1].uri, "file:///a.rho");
}

#[test]
fn definition_then_references_finds_the_use_again() {
    let (t, _, used) = new_tree();
    let d = definition_node_at(&t, NEW_SRC, used).unwrap();
    assert!(reference_nodes_at(&t, NEW_SRC, d).contains(&used));
    let (c, _, _, body) = contract_tree();
    let d = definition_node_at(&c, CONTRACT_SRC, body).unwrap();
    assert!(reference_nodes_at(&c, CONTRACT_SRC, d).contains(&body));
}

#[test]
fn only_identifiers_resolve() {
    let (t, _, _) = new_tree();
    for i in 0..t.node_count() {
        if t.node(i).tag != "var" {
            assert_eq!(definition_node_at(&t, NEW_SRC, i), None);
            assert!(definition_at_node(&t, NEW_SRC, i).is_none());
            assert!(reference_nodes_at(&t, NEW_SRC, i).is_empty());
            assert!(references_at_node(&t, NEW_SRC, i, "u").is_empty());
        }
    }
}

#[test]
fn name_that_nothing_binds_has_no_definition() {
    let src = "y!(1)";
    let mut l = Layout::new(src);
    l.open("source_file", 0, 5);
    l.open("send", 0, 5);
    let y = l.leaf("var", 0, 1);
    l.token("!", 1);
    l.leaf("long_literal", 3, 4);
    l.close();
    let t = l.finish();
    assert_eq!(definition_node_at(&t, src, y), None);
    // the occurrence itself is then what the references are gathered around
    assert_eq!(reference_nodes_at(&t, src, y), vec![y]);
}

#[test]
fn contract_binds_its_name_and_its_parameters() {
    let (t, name, formal, used) = contract_tree();
    assert_eq!(definition_node_at(&t, CONTRACT_SRC, used), Some(formal));
    // from the parameter, and from the name, the contract itself is the binder
    assert_eq!(definition_node_at(&t, CONTRACT_SRC, formal), Some(formal));
    assert_eq!(definition_node_at(&t, CONTRACT_SRC, name), Some(name));
    assert_eq!(find_definition_node(&t, CONTRACT_SRC.as_bytes(), used, b"Foo"), Some(name));
    assert_eq!(reference_nodes_at(&t, CONTRACT_SRC, used), vec![formal, used]);
    assert_eq!(reference_nodes_at(&t, CONTRACT_SRC, name), vec![name]);
}

/// `for (x <- c) { x }`, `let x = 1 in { x }` and `match v { x => { x } }`
/// in one file.
fn binders_tree() -> (&'static str, SyntaxTree, Vec<(usize, usize)>) {
    let src = "for (x <- c) { x }\nlet x = 1 in { x }\nmatch v { x => { x } }";
    let mut l = Layout::new(src);
    let mut pairs = Vec::new();
    l.open("source_file", 0, 60);
    // for (x <- c) { x }
    l.open("input", 0, 18);
    l.token("for", 0);
    l.open_in(FieldName::Receipts, "receipts", 5, 11);
    l.open("linear_bind", 5, 11);
    l.open("names", 5, 6);
    let d = l.leaf("var", 5, 6);
    l.close();
    l.token("<-", 7);
    l.leaf("var", 10, 11);
    l.close();
    l.close();
    l.open_in(FieldName::Proc, "block", 13, 18);
    let u = l.leaf("var", 15, 16);
    l.close();
    l.close();
    pairs.push((d, u));
    // let x = 1 in { x }
    l.open("let", 19, 37);
    l.token("let", 19);
    l.open_in(FieldName::Decls, "decls", 23, 28);
    l.open("decl", 23, 28);
    let d = l.leaf("var", 23, 24);
    l.token("=", 25);
    l.leaf("long_literal", 27, 28);
    l.close();
    l.close();
    l.token("in", 29);
    l.open_in(FieldName::Proc, "block", 32, 37);
    let u = l.leaf("var", 34, 35);
    l.close();
    l.close();
    pairs.push((d, u));
    // match v { x => { x } }
    l.open("match", 38, 60);
    l.token("match", 38);
    l.leaf("var", 44, 45);
    l.open("case", 48, 58);
    let d = l.leaf_in(FieldName::Pattern, "var", 48, 49);
    l.token("=>", 50);
    l.open_in(FieldName::Proc, "block", 53, 58);
    let u = l.leaf("var", 55, 56);
    l.close();
    l.close();
    l.close();
    pairs.push((d, u));
    (src, l.finish(), pairs)
}

#[test]
fn receive_let_and_match_arm_bind_names() {
    let (src, t, pairs) = binders_tree();
    assert_eq!(src.len(), 60);
    for (d, u) in pairs {
        assert_eq!(&src[t.node(d).start_byte..t.node(d).end_byte], "x");
        assert_eq!(&src[t.node(u).start_byte..t.node(u).end_byte], "x");
        assert_eq!(definition_node_at(&t, src, u), Some(d));
    }
}

#[test]
fn select_branch_binds_the_names_of_its_pattern() {
    let src = "select { x <- c => { x } }";
    let mut l = Layout::new(src);
    l.open("source_file", 0, 26);
    l.open("select", 0, 26);
    l.token("select", 0);
    l.open("branch", 9, 24);
    l.open_in(FieldName::Pattern, "linear_bind", 9, 15);
    let d = l.leaf("var", 9, 10);
    l.token("<-", 11);
    let c = l.leaf("var", 14, 15);
    l.close();
    l.token("=>", 16);
    l.open_in(FieldName::Proc, "block", 19, 24);
    let u = l.leaf("var", 21, 22);
    l.close();
    l.close();
    l.close();
    let t = l.finish();
    assert_eq!(definition_node_at(&t, src, u), Some(d));
    // every identifier below the pattern counts as bound by the branch
    assert_eq!(find_definition_node(&t, src.as_bytes(), u, b"c"), Some(c));
    assert_eq!(find_definition_node(&t, src.as_bytes(), u, b"z"), None);
}

const SHADOW_SRC: &str = "new x in { new x in { x } }";

/// `new x in { new x in { x } }`: the outer and the inner introduction
/// and the use.
fn shadow_tree() -> (SyntaxTree, usize, usize, usize) {
    let mut l = Layout::new(SHADOW_SRC);
    l.open("source_file", 0, 27);
    l.open("new", 0, 27);
    l.token("new", 0);
    l.open_in(FieldName::Decls, "name_decls", 4, 5);
    l.open_in(FieldName::Decl, "name_decl", 4, 5);
    let outer = l.leaf("var", 4, 5);
    l.close();
    l.close();
    l.token("in", 6);
    l.open_in(FieldName::Proc, "block", 9, 27);
    l.open("new", 11, 25);
    l.token("new", 11);
    l.open_in(FieldName::Decls, "name_decls", 15, 16);
    l.open_in(FieldName::Decl, "name_decl", 15, 16);
    let inner = l.leaf("var", 15, 16);
    l.close();
    l.close();
    l.token("in", 17);
    l.open_in(FieldName::Proc, "block", 20, 25);
    let used = l.leaf("var", 22, 23);
    l.close();
    l.close();
    l.close();
    l.close();
    (l.finish(), outer, inner, used)
}

#[test]
fn innermost_binding_wins() {
    let (t, outer, inner, used) = shadow_tree();
    assert_eq!(definition_node_at(&t, SHADOW_SRC, used), Some(inner));
    assert_eq!(definition_node_at(&t, SHADOW_SRC, inner), Some(inner));
    assert_eq!(definition_node_at(&t, SHADOW_SRC, outer), Some(outer));
}

#[test]
fn references_reach_across_a_shadowing_binding() {
    let (t, outer, inner, used) = shadow_tree();
    // The references of the outer name are gathered in the whole file, and
    // the occurrences that the inner introduction binds anew are among them.
    assert_eq!(reference_nodes_at(&t, SHADOW_SRC, outer), vec![outer, inner, used]);
    // The references of the inner name are gathered in the block that holds
    // the inner introduction.
    assert_eq!(reference_nodes_at(&t, SHADOW_SRC, used), vec![inner, used]);
    assert_eq!(find_reference_nodes(&t, SHADOW_SRC.as_bytes(), used, b"x"), vec![inner, used]);
}

#[test]
fn scope_is_the_nearest_block_or_the_file() {
    let (t, outer, inner, used) = shadow_tree();
    assert_eq!(find_enclosing_scope(&t, outer), 0);
    let block = t.parent_of(t.parent_of(t.parent_of(t.parent_of(inner).unwrap()).unwrap()).unwrap())
        .unwrap();
    assert_eq!(t.node(block).tag, "block");
    assert_eq!(find_enclosing_scope(&t, inner), block);
    assert_eq!(find_enclosing_scope(&t, used), t.parent_of(used).unwrap());
    assert_eq!(find_enclosing_scope(&t, block), block);
    assert_eq!(find_enclosing_scope(&t, 0), 0);
}

#[test]
fn search_of_a_subtree_finds_the_first_in_tree_order() {
    let (t, outer, inner, _) = shadow_tree();
    assert_eq!(find_var_in_subtree(&t, SHADOW_SRC.as_bytes(), 0, b"x"), Some(outer));
    let inner_new = t.parent_of(t.parent_of(t.parent_of(inner).unwrap()).unwrap()).unwrap();
    assert_eq!(find_var_in_subtree(&t, SHADOW_SRC.as_bytes(), inner_new, b"x"), Some(inner));
    assert_eq!(find_var_in_subtree(&t, SHADOW_SRC.as_bytes(), 0, b"y"), None);
    assert_eq!(find_var_in_subtree(&t, SHADOW_SRC.as_bytes(), outer, b"x"), Some(outer));
}

#[test]
fn node_outside_the_text_matches_no_name() {
    // a tree that lags behind its text
    let (t, def, used) = new_tree();
    let short = "new x";
    assert_eq!(definition_node_at(&t, short, used), None);
    assert!(reference_nodes_at(&t, short, used).is_empty());
    assert_eq!(find_definition_node(&t, short.as_bytes(), used, b"x"), Some(def));
    assert_eq!(find_definition_node(&t, b"new", used, b"x"), None);
}

#[test]
fn prepare_rename_is_for_identifiers_only() {
    let (t, def, used) = new_tree();
    assert_eq!(prepare_rename_at_node(&t, def), Some(span(NEW_SRC, 4, 5)));
    assert_eq!(prepare_rename_at_node(&t, used), Some(span(NEW_SRC, 11, 12)));
    // the keyword `new`, and the construct
    assert_eq!(t.node(2).tag, "new");
    assert_eq!(prepare_rename_at_node(&t, 2), None);
    assert_eq!(prepare_rename_at_node(&t, 1), None);
    assert!(rename_at_node(&t, NEW_SRC, 2, "y", "file:///a.rho").is_none());
    assert!(rename_at_node(&t, NEW_SRC, 1, "y", "file:///a.rho").is_none());
}

#[test]
fn rename_replaces_every_reference() {
    let (t, def, used) = new_tree();
    for cursor in [def, used] {
        let edit = rename_at_node(&t, NEW_SRC, cursor, "chan", "file:///a.rho").unwrap();
        assert_eq!(edit.uri, "file:///a.rho");
        assert_eq!(edit.edits.len(), 2);
        assert_eq!(edit.edits[0].range, span(NEW_SRC, 4, 5));
        assert_eq!(edit.edits[1].range, span(NEW_SRC, 11, 12));
        assert_eq!(edit.edits[0].new_text, "chan");
        assert_eq!(edit.edits[1].new_text, "chan");
    }
}

#[test]
fn rename_takes_the_new_name_as_it_is() {
    let (t, def, _) = new_tree();
    let edit = rename_at_node(&t, NEW_SRC, def, "not a name!", "u").unwrap();
    assert_eq!(edit.edits.len(), 2);
    assert!(edit.edits.iter().all(|e| e.new_text == "not a name!"));
    let edit = rename_at_node(&t, NEW_SRC, def, "", "u").unwrap();
    assert!(edit.edits.iter().all(|e| e.new_text.is_empty()));
}

/// The tree of `new <name> in { <name>!(1) }`.
fn new_tree_named(src: &str, name: &str) -> (SyntaxTree, usize, usize) {
    let n = name.len();
    let total = src.len();
    let mut l = Layout::new(src);
    l.open("source_file", 0, total);
    l.open("new", 0, total);
    l.token("new", 0);
    l.open_in(FieldName::Decls, "name_decls", 4, 4 + n);
    l.open_in(FieldName::Decl, "name_decl", 4, 4 + n);
    let def = l.leaf("var", 4, 4 + n);
    l.close();
    l.close();
    l.token("in", 5 + n);
    l.open_in(FieldName::Proc, "block", 8 + n, total);
    l.open("send", 10 + n, 15 + 2 * n);
    let used = l.leaf("var", 10 + n, 10 + 2 * n);
    l.token("!", 10 + 2 * n);
    l.leaf("long_literal", 12 + 2 * n, 13 + 2 * n);
    l.close();
    l.close();
    l.close();
    (l.finish(), def, used)
}

#[test]
fn renaming_there_and_back_keeps_the_references() {
    let src = String::from("new x in { x!(1) }");
    let (t, def, _) = new_tree_named(&src, "x");
    let before = references_at_node(&t, &src, def, "u");
    let edit = rename_at_node(&t, &src, def, "long", "u").unwrap();
    let renamed = "new long in { long!(1) }";
    let (t2, def2, _) = new_tree_named(renamed, "long");
    let there = references_at_node(&t2, renamed, def2, "u");
    assert_eq!(there.len(), edit.edits.len());
    let back = rename_at_node(&t2, renamed, def2, "x", "u").unwrap();
    assert_eq!(back.edits.len(), before.len());
    let (t3, def3, _) = new_tree_named(&src, "x");
    let after = references_at_node(&t3, &src, def3, "u");
    assert_eq!(after.len(), before.len());
    for k in 0..after.len() {
        assert_eq!(after[k].range, before[k].range);
    }
    // the second reference has moved by the difference of the lengths
    assert_eq!(there[1].range.start.character, before[1].range.start.character + 3);
}

fn raw(line: u32, col: u32, len: u32, c: TokenCategory) -> RawToken {
    RawToken { line, col, len, token_type: c.code() }
}

fn sem(delta_line: u32, delta_start: u32, length: u32, c: TokenCategory) -> SemanticToken {
    SemanticToken {
        delta_line,
        delta_start,
        length,
        token_type: c.code(),
        token_modifiers_bitset: 0,
    }
}

#[test]
fn legend_has_the_ten_categories_in_order() {
    let l = legend();
    let names: Vec<&str> = l.iter().map(|c| c.name()).collect();
    assert_eq!(
        names,
        vec![
            "keyword", "variable", "function", "string", "number", "operator", "comment", "type",
            "parameter", "method",
        ]
    );
    for (k, c) in l.iter().enumerate() {
        assert_eq!(c.code() as usize, k);
    }
}

#[test]
fn contract_name_parameter_and_use_are_told_apart() {
    let (t, _, _, _) = contract_tree();
    let toks = collect_tokens(&t, CONTRACT_SRC);
    assert!(toks.contains(&raw(0, 9, 3, TokenCategory::Function)));
    assert!(toks.contains(&raw(0, 13, 1, TokenCategory::Parameter)));
    assert!(toks.contains(&raw(0, 20, 1, TokenCategory::Variable)));
    assert_eq!(
        toks,
        vec![
            raw(0, 0, 8, TokenCategory::Keyword),
            raw(0, 9, 3, TokenCategory::Function),
            raw(0, 13, 1, TokenCategory::Parameter),
            raw(0, 16, 1, TokenCategory::Operator),
            raw(0, 20, 1, TokenCategory::Variable),
        ]
    );
}

#[test]
fn tokens_of_a_channel_introduction() {
    let (t, _, _) = new_tree();
    assert_eq!(
        tokens_for(&t, NEW_SRC),
        vec![
            sem(0, 0, 3, TokenCategory::Keyword),
            sem(0, 4, 1, TokenCategory::Parameter),
            sem(0, 2, 2, TokenCategory::Keyword),
            sem(0, 5, 1, TokenCategory::Variable),
            sem(0, 1, 1, TokenCategory::Operator),
            sem(0, 2, 1, TokenCategory::Number),
        ]
    );
}

#[test]
fn literals_types_methods_and_names_have_their_categories() {
    let src = "\"s\" `u` true Nil Int a.b(c) @x";
    let mut l = Layout::new(src);
    l.open("source_file", 0, src.len());
    l.open("string_literal", 0, 3);
    l.leaf("var", 1, 2);
    l.close();
    l.leaf("uri_literal", 4, 7);
    l.leaf("bool_literal", 8, 12);
    l.leaf("nil", 13, 16);
    l.leaf("simple_type", 17, 20);
    l.open("method", 21, 27);
    l.leaf("var", 21, 22);
    l.token(".", 22);
    l.leaf_in(FieldName::Name, "var", 23, 24);
    l.token("(", 24);
    l.leaf("var", 25, 26);
    l.token(")", 26);
    l.close();
    l.open("names", 28, 30);
    l.token("@", 28);
    l.leaf("var", 29, 30);
    l.close();
    let t = l.finish();
    assert_eq!(
        collect_tokens(&t, src),
        vec![
            // the identifier inside the string literal is not visited
            raw(0, 0, 3, TokenCategory::Text),
            raw(0, 4, 3, TokenCategory::Text),
            raw(0, 8, 4, TokenCategory::Keyword),
            raw(0, 13, 3, TokenCategory::Keyword),
            raw(0, 17, 3, TokenCategory::Type),
            raw(0, 21, 1, TokenCategory::Variable),
            raw(0, 23, 1, TokenCategory::Method),
            raw(0, 25, 1, TokenCategory::Variable),
            // names outside a contract hold variables
            raw(0, 29, 1, TokenCategory::Variable),
        ]
    );
}

#[test]
fn construct_that_shares_its_tag_with_a_word_gets_no_token() {
    // one named node of kind `contract`, nothing below it
    let src = "contract Foo(x) = { x }";
    let mut l = Layout::new(src);
    l.leaf("contract", 0, src.len());
    let t = l.finish();
    assert_eq!(collect_tokens(&t, src), vec![]);
    // the word itself, a node without a name, gets one
    let mut l = Layout::new(src);
    l.open("source_file", 0, src.len());
    l.open("contract", 0, src.len());
    l.token("contract", 0);
    l.close();
    let t = l.finish();
    assert_eq!(collect_tokens(&t, src), vec![raw(0, 0, 8, TokenCategory::Keyword)]);
}

#[test]
fn every_reserved_word_is_a_keyword_where_it_has_no_name() {
    let words = [
        "new", "in", "contract", "for", "select", "match", "if", "else", "let", "not", "and",
        "or", "matches",
    ];
    for w in words {
        let src = "matches matches";
        let mut l = Layout::new(src);
        l.open("source_file", 0, src.len());
        let named = l.open(w, 0, w.len());
        l.close();
        assert!(l.b.open(l.data(w, false, 0, w.len())));
        l.close();
        let t = l.finish();
        assert_eq!(named, 1);
        assert_eq!(
            collect_tokens(&t, src),
            vec![raw(0, 0, w.len() as u32, TokenCategory::Keyword)],
            "{w}"
        );
    }
}

#[test]
fn bundle_markers_are_keywords() {
    let src = "bundle+ bundle- bundle0 bundle";
    let mut l = Layout::new(src);
    l.open("source_file", 0, src.len());
    l.leaf("bundle_write", 0, 7);
    l.leaf("bundle_read", 8, 15);
    l.leaf("bundle_equiv", 16, 23);
    l.leaf("bundle_read_write", 24, 30);
    let t = l.finish();
    assert_eq!(
        collect_tokens(&t, src),
        vec![
            raw(0, 0, 7, TokenCategory::Keyword),
            raw(0, 8, 7, TokenCategory::Keyword),
            raw(0, 16, 7, TokenCategory::Keyword),
            raw(0, 24, 6, TokenCategory::Keyword),
        ]
    );
}

#[test]
fn named_node_with_an_operator_tag_is_no_operator() {
    let src = "a + b";
    let mut l = Layout::new(src);
    l.open("source_file", 0, 5);
    l.open("+", 0, 5);
    l.leaf("var", 0, 1);
    l.token("+", 2);
    l.leaf("var", 4, 5);
    l.close();
    let t = l.finish();
    assert_eq!(
        collect_tokens(&t, src),
        vec![
            raw(0, 0, 1, TokenCategory::Variable),
            raw(0, 2, 1, TokenCategory::Operator),
            raw(0, 4, 1, TokenCategory::Variable),
        ]
    );
}

#[test]
fn block_comment_of_three_lines_gives_three_tokens() {
    let src = "  /* one\n     two\n three */\nNil";
    let mut l = Layout::new(src);
    l.open("source_file", 0, src.len());
    l.leaf("block_comment", 2, 27);
    l.leaf("nil", 28, 31);
    let t = l.finish();
    assert_eq!(
        collect_tokens(&t, src),
        vec![
            raw(0, 2, 6, TokenCategory::Comment),
            raw(1, 0, 8, TokenCategory::Comment),
            raw(2, 0, 9, TokenCategory::Comment),
            raw(3, 0, 3, TokenCategory::Keyword),
        ]
    );
    assert_eq!(
        tokens_for(&t, src),
        vec![
            sem(0, 2, 6, TokenCategory::Comment),
            sem(1, 0, 8, TokenCategory::Comment),
            sem(1, 0, 9, TokenCategory::Comment),
            sem(1, 0, 3, TokenCategory::Keyword),
        ]
    );
}

#[test]
fn comment_of_n_lines_gives_n_tokens() {
    for n in 2usize..7 {
        let mut src = String::from("/*");
        for _ in 1..n {
            src.push_str(" line\n");
        }
        src.push_str("*/");
        let mut l = Layout::new(&src);
        l.open("source_file", 0, src.len());
        l.leaf("block_comment", 0, src.len());
        let t = l.finish();
        let toks = collect_tokens(&t, &src);
        assert_eq!(toks.len(), n);
        for (k, tok) in toks.iter().enumerate() {
            assert_eq!(tok.line as usize, k);
            assert_eq!(tok.col, 0);
            assert_eq!(tok.token_type, TokenCategory::Comment.code());
        }
    }
}

#[test]
fn comment_in_one_line_is_one_token() {
    let src = "x // note\n/* b */";
    let mut l = Layout::new(src);
    l.open("source_file", 0, src.len());
    l.leaf("var", 0, 1);
    l.leaf("line_comment", 2, 9);
    l.leaf("block_comment", 10, 17);
    let t = l.finish();
    assert_eq!(
        collect_tokens(&t, src),
        vec![
            raw(0, 0, 1, TokenCategory::Variable),
            raw(0, 2, 7, TokenCategory::Comment),
            raw(1, 0, 7, TokenCategory::Comment),
        ]
    );
}

#[test]
fn tokens_are_sorted_by_place_and_keep_their_order_at_one_place() {
    let toks = vec![
        raw(2, 4, 1, TokenCategory::Variable),
        raw(0, 7, 2, TokenCategory::Keyword),
        raw(2, 0, 3, TokenCategory::Function),
        raw(0, 7, 5, TokenCategory::Operator),
        raw(0, 1, 1, TokenCategory::Number),
        raw(2, 4, 9, TokenCategory::Comment),
    ];
    let sorted = sort_tokens(toks);
    assert_eq!(
        sorted,
        vec![
            raw(0, 1, 1, TokenCategory::Number),
            raw(0, 7, 2, TokenCategory::Keyword),
            raw(0, 7, 5, TokenCategory::Operator),
            raw(2, 0, 3, TokenCategory::Function),
            raw(2, 4, 1, TokenCategory::Variable),
            raw(2, 4, 9, TokenCategory::Comment),
        ]
    );
    assert_eq!(sort_tokens(Vec::new()), Vec::new());
}

#[test]
fn delta_encoding_is_relative_to_the_token_before() {
    let sorted = vec![
        raw(0, 1, 1, TokenCategory::Number),
        raw(0, 7, 2, TokenCategory::Keyword),
        raw(0, 7, 5, TokenCategory::Operator),
        raw(2, 3, 3, TokenCategory::Function),
        raw(2, 4, 1, TokenCategory::Variable),
        raw(5, 0, 9, TokenCategory::Comment),
    ];
    assert_eq!(
        delta_encode(&sorted),
        vec![
            sem(0, 1, 1, TokenCategory::Number),
            sem(0, 6, 2, TokenCategory::Keyword),
            sem(0, 0, 5, TokenCategory::Operator),
            sem(2, 3, 3, TokenCategory::Function),
            sem(0, 1, 1, TokenCategory::Variable),
            sem(3, 0, 9, TokenCategory::Comment),
        ]
    );
    assert_eq!(delta_encode(&Vec::new()), Vec::new());
}

const BROKEN_SRC: &str = "new x in { \"abc }\nNil";

/// A tree with an error node for an unterminated string, and a
/// well-formed statement after it.
fn broken_tree() -> SyntaxTree {
    let mut l = Layout::new(BROKEN_SRC);
    let root = l.data("source_file", true, 0, 21).with_errors(false, false, true);
    assert!(l.b.open(root));
    let new = l.data("new", true, 0, 17).with_errors(false, false, true);
    assert!(l.b.open(new));
    l.token("new", 0);
    l.open_in(FieldName::Decls, "name_decls", 4, 5);
    l.leaf("var", 4, 5);
    l.close();
    l.token("in", 6);
    let err = l.data("ERROR", true, 11, 17).with_errors(true, false, true);
    assert!(l.b.open(err));
    l.token("\"", 11);
    l.leaf("var", 12, 15);
    l.close();
    l.close();
    l.leaf("nil", 18, 21);
    l.finish()
}

#[test]
fn unterminated_string_gives_one_diagnostic() {
    let t = broken_tree();
    let diags = collect_errors(&t, BROKEN_SRC);
    assert_eq!(diags.len(), 1);
    assert!(
        diags[0].message.starts_with("Syntax error near")
            || diags[0].message.starts_with("Missing")
    );
    assert_eq!(diags[0].message, "Syntax error near `\"abc }`");
    assert_eq!(diags[0].range, span(BROKEN_SRC, 11, 17));
    assert_eq!(diags[0].severity, Severity::Error);
    assert_eq!(diags[0].source, "rholang-lsp");
}

#[test]
fn tree_without_errors_gives_no_diagnostic() {
    let (t, _, _) = new_tree();
    assert!(collect_errors(&t, NEW_SRC).is_empty());
}

#[test]
fn errors_are_looked_for_only_where_the_tree_says_there_are_some() {
    let src = "a b c";
    let mut l = Layout::new(src);
    let root = l.data("source_file", true, 0, 5).with_errors(false, false, true);
    assert!(l.b.open(root));
    // an error below a node that claims to hold none is not found
    l.open("par", 0, 1);
    let hidden = l.data("ERROR", true, 0, 1).with_errors(true, false, true);
    assert!(l.b.open(hidden));
    l.close();
    l.close();
    // a missing token
    let holder = l.data("par", true, 2, 3).with_errors(false, false, true);
    assert!(l.b.open(holder));
    let missing = l.data("}", false, 3, 3).with_errors(false, true, true);
    assert!(l.b.open(missing));
    l.close();
    l.close();
    // an error with an error inside: only the outer one is reported
    let outer = l.data("ERROR", true, 4, 5).with_errors(true, false, true);
    assert!(l.b.open(outer));
    let inner = l.data("ERROR", true, 4, 5).with_errors(true, false, true);
    assert!(l.b.open(inner));
    l.close();
    l.close();
    let t = l.finish();
    let diags = collect_errors(&t, src);
    let messages: Vec<&str> = diags.iter().map(|d| d.message.as_str()).collect();
    assert_eq!(messages, vec!["Missing `}`", "Syntax error near `c`"]);
    assert_eq!(diags[0].range, span(src, 3, 3));
    assert_eq!(diags[1].range, span(src, 4, 5));
}

#[test]
fn message_shows_at_most_forty_characters() {
    let src = "0123456789012345678901234567890123456789abcdef";
    let mut l = Layout::new(src);
    let n = l.data("ERROR", true, 0, 46).with_errors(true, false, true);
    let d = diagnose(src, &n);
    assert_eq!(d.message, "Syntax error near `0123456789012345678901234567890123456789`");
    // characters are counted, not bytes
    let wide = "\u{e9}".repeat(50);
    let m = NodeData::new(
        "ERROR",
        true,
        0,
        100,
        Position { line: 0, character: 0 },
        Position { line: 0, character: 100 },
    )
    .with_errors(true, false, true);
    let d = diagnose(&wide, &m);
    assert_eq!(d.message, format!("Syntax error near `{}`", "\u{e9}".repeat(40)));
    // a node whose text cannot be read shows nothing
    let d = diagnose("short", &m);
    assert_eq!(d.message, "Syntax error near ``");
    l.open("source_file", 0, 46);
    assert_eq!(node_range(&n), span(src, 0, 46));
}

#[test]
fn outline_of_a_contract_with_channels_in_its_body() {
    let src = "contract Foo(x) = { new a, b in { Nil } }";
    let mut l = Layout::new(src);
    l.open("source_file", 0, 41);
    l.open("contract", 0, 41);
    l.token("contract", 0);
    l.leaf_in(FieldName::Name, "var", 9, 12);
    l.open_in(FieldName::Formals, "names", 13, 14);
    l.leaf("var", 13, 14);
    l.close();
    l.open_in(FieldName::Proc, "block", 18, 41);
    l.open("new", 20, 39);
    l.token("new", 20);
    l.open_in(FieldName::Decls, "name_decls", 24, 28);
    l.open_in(FieldName::Decl, "name_decl", 24, 25);
    l.leaf("var", 24, 25);
    l.close();
    l.token(",", 25);
    l.open_in(FieldName::Decl, "name_decl", 27, 28);
    l.leaf("var", 27, 28);
    l.close();
    l.close();
    l.token("in", 29);
    l.open_in(FieldName::Proc, "block", 32, 39);
    l.leaf("nil", 34, 37);
    l.close();
    l.close();
    l.close();
    l.close();
    let t = l.finish();
    let symbols = symbols_for(&t, src);
    assert_eq!(symbols.len(), 1);
    let foo = &symbols[0];
    assert_eq!(foo.name, "Foo");
    assert_eq!(foo.detail, "contract");
    assert_eq!(foo.kind, SymbolKind::Function);
    assert_eq!(foo.range, span(src, 0, 41));
    assert_eq!(foo.selection_range, span(src, 9, 12));
    let kids = foo.children.as_ref().unwrap();
    assert_eq!(kids.len(), 2);
    assert_eq!(kids[0].name, "a");
    assert_eq!(kids[1].name, "b");
    for k in kids {
        assert_eq!(k.detail, "channel");
        assert_eq!(k.kind, SymbolKind::Variable);
        assert!(k.children.is_none());
    }
    assert_eq!(kids[0].range, span(src, 24, 25));
    assert_eq!(kids[1].selection_range, span(src, 27, 28));
}

#[test]
fn outline_of_channel_introductions() {
    let (t, _, _) = new_tree();
    let symbols = symbols_for(&t, NEW_SRC);
    assert_eq!(symbols.len(), 1);
    assert_eq!(symbols[0].name, "x");
    assert_eq!(symbols[0].detail, "channel");
    assert_eq!(symbols[0].range, span(NEW_SRC, 4, 5));
    let (t, _, inner, _) = shadow_tree();
    let symbols = symbols_for(&t, SHADOW_SRC);
    let names: Vec<&str> = symbols.iter().map(|s| s.name.as_str()).collect();
    assert_eq!(names, vec!["x", "x"]);
    assert_eq!(symbols[1].selection_range, t.node(inner).range());
}

#[test]
fn contract_without_a_body_symbol_has_no_children() {
    let (t, _, _, _) = contract_tree();
    let symbols = symbols_for(&t, CONTRACT_SRC);
    assert_eq!(symbols.len(), 1);
    assert_eq!(symbols[0].name, "Foo");
    assert!(symbols[0].children.is_none());
    // a symbol whose name cannot be read is called `?`
    let symbols = symbols_for(&t, "contract");
    assert_eq!(symbols[0].name, "?");
}

#[test]
fn comment_is_cleaned_line_by_line() {
    assert_eq!(clean_comment("// a note"), "a note");
    assert_eq!(clean_comment("/* a note */"), "a note");
    assert_eq!(clean_comment("/* one\n   two\n   three */"), "one\ntwo\nthree");
    assert_eq!(clean_comment("  //// deep  "), "deep");
    assert_eq!(clean_comment("/***/"), "*");
    assert_eq!(clean_comment("// a\r\n// b\n"), "a\nb");
    assert_eq!(clean_comment("//\n\n//x"), "\n\nx");
    assert_eq!(clean_comment(""), "");
    assert_eq!(clean_comment("\u{a0}// wide space\u{3000}"), "wide space");
    assert_eq!(clean_comment("text // not at the start"), "text // not at the start");
    assert_eq!(clean_comment("*/ end */*/"), "*/ end");
}

#[test]
fn hover_says_what_a_node_is() {
    let (t, name, formal, used) = contract_tree();
    assert_eq!(describe(&t, name), "contract name");
    assert_eq!(describe(&t, formal), "contract parameter");
    assert_eq!(describe(&t, used), "var");
    assert_eq!(describe(&t, 0), "source_file");
    let formals = t.parent_of(formal).unwrap();
    assert_eq!(describe(&t, formals), "in contract");
    let (t, def, used) = new_tree();
    assert_eq!(describe(&t, def), "channel declaration (new)");
    assert_eq!(describe(&t, used), "send target");
    let (_, b, pairs) = binders_tree();
    assert_eq!(describe(&b, pairs[0].0), "bound name");
    assert_eq!(describe(&b, pairs[1].0), "var");
}

#[test]
fn hover_names_the_kind_above_other_names() {
    let src = "a.b(c) *x @y";
    let mut l = Layout::new(src);
    l.open("source_file", 0, src.len());
    l.open("method", 0, 6);
    let target = l.leaf("var", 0, 1);
    let method = l.leaf_in(FieldName::Name, "var", 2, 3);
    l.close();
    l.open("eval", 7, 9);
    let evaluated = l.leaf("var", 8, 9);
    l.close();
    l.open("quote", 10, 12);
    l.open("names", 10, 12);
    let quoted = l.leaf("var", 11, 12);
    l.close();
    l.close();
    let names = l.open("names", 12, 12);
    l.close();
    let t = l.finish();
    assert_eq!(describe(&t, target), "method target");
    assert_eq!(describe(&t, method), "method name");
    assert_eq!(describe(&t, evaluated), "evaluated name");
    assert_eq!(describe(&t, quoted), "name in quote");
    assert_eq!(describe(&t, names), "names");
}

const COMMENTED_SRC: &str = "// Sends one.\nnew x in { x!(1) }";

fn commented_tree() -> (SyntaxTree, usize, usize) {
    let mut l = Layout::new(COMMENTED_SRC);
    l.open("source_file", 0, 32);
    l.leaf("line_comment", 0, 13);
    l.open("new", 14, 32);
    l.token("new", 14);
    l.open_in(FieldName::Decls, "name_decls", 18, 19);
    l.open_in(FieldName::Decl, "name_decl", 18, 19);
    let def = l.leaf("var", 18, 19);
    l.close();
    l.close();
    l.open_in(FieldName::Proc, "block", 23, 32);
    l.open("send", 25, 30);
    let used = l.leaf("var", 25, 26);
    l.close();
    l.close();
    l.close();
    (l.finish(), def, used)
}

#[test]
fn hover_shows_the_comment_before_the_statement() {
    let (t, def, used) = commented_tree();
    let new = 2;
    assert_eq!(t.node(new).tag, "new");
    assert_eq!(find_statement(&t, def), new);
    assert_eq!(find_statement(&t, new), new);
    assert_eq!(find_statement(&t, 0), 0);
    assert_eq!(prev_sibling(&t, new), Some(1));
    assert_eq!(prev_sibling(&t, 1), None);
    assert_eq!(prev_sibling(&t, 0), None);
    assert_eq!(find_preceding_comment(&t, COMMENTED_SRC, def), Some(String::from("Sends one.")));
    // the statement of the use is the send, which stands first in its block
    assert_eq!(find_statement(&t, used), t.parent_of(used).unwrap());
    assert_eq!(find_preceding_comment(&t, COMMENTED_SRC, used), None);
    let h = hover_at_node(&t, COMMENTED_SRC, def);
    assert_eq!(
        h.contents,
        "```rholang\nx\n```\n\n**channel declaration (new)** (`var`)\n\n---\nSends one."
    );
    assert_eq!(h.range, span(COMMENTED_SRC, 18, 19));
    let h = hover_at_node(&t, COMMENTED_SRC, used);
    assert_eq!(h.contents, "```rholang\nx\n```\n\n**send target** (`var`)");
}

#[test]
fn hover_is_put_together_from_its_parts() {
    assert_eq!(
        render("x", "bound name", "var", None),
        "```rholang\nx\n```\n\n**bound name** (`var`)"
    );
    assert_eq!(
        render("Foo", "contract name", "var", Some(String::from("two\nlines"))),
        "```rholang\nFoo\n```\n\n**contract name** (`var`)\n\n---\ntwo\nlines"
    );
    assert_eq!(render("", "", "", Some(String::new())), "```rholang\n\n```\n\n**** (``)\n\n---\n");
}
