//! The document model: the text of one open file and its syntax tree.
//!
//! A document owns its text, the provider's tree of that text, and the
//! arena copied from that tree. An edit names a range by lines and columns;
//! it is turned into byte offsets, applied to the text, and handed to the
//! provider so that it can derive the next tree from the last one. Where
//! the provider gives no tree, the document keeps the tree it has.

use crate::provider::{edit_tree, parse_text, snapshot, TreeEdit, TreePoint};
use crate::syntax::SyntaxTree;
use crate::text::{
    offset_at, offset_of, position_at, position_of, splice, spliced, text_in_range,
};
use tree_sitter::{Parser, Tree};
use vstd::prelude::*;
use vstd::string::*;
use vstd::utf8::*;

verus! {

/// An open document.
pub struct Document {
    /// The text.
    pub source: String,
    /// The provider's tree, kept for the next incremental parse and for
    /// finding the node at a position.
    pub tree: Tree,
    /// The arena that the analyses read.
    pub syntax: SyntaxTree,
}

/// The byte offset at which a change begins.
pub open spec fn change_start(src: Seq<char>, line: nat, col: nat) -> int {
    offset_of(encode_utf8(src), line, col)
}

/// Whether a change can be applied: its end does not lie before its start,
/// and both lie between characters.
pub open spec fn change_is_valid(
    src: Seq<char>,
    start_line: nat,
    start_col: nat,
    end_line: nat,
    end_col: nat,
) -> bool {
    text_in_range(
        src,
        change_start(src, start_line, start_col),
        change_start(src, end_line, end_col),
    )
}

/// The bytes of the text after a change: those before the start of the
/// range, the new text, and those from the end of the range on.
pub open spec fn changed_bytes(
    src: Seq<char>,
    start_line: nat,
    start_col: nat,
    end_line: nat,
    end_col: nat,
    new_text: Seq<char>,
) -> Seq<u8> {
    spliced(
        encode_utf8(src),
        change_start(src, start_line, start_col),
        change_start(src, end_line, end_col),
        encode_utf8(new_text),
    )
}

/// The text after a change: what the changed bytes encode.
pub open spec fn changed_text(
    src: Seq<char>,
    start_line: nat,
    start_col: nat,
    end_line: nat,
    end_col: nat,
    new_text: Seq<char>,
) -> Seq<char> {
    decode_utf8(changed_bytes(src, start_line, start_col, end_line, end_col, new_text))
}

/// The edit that tells the provider of a change: the old and the new byte
/// extent, the start and the old end as the caller gave them, and the new
/// end as a line and column of the new text.
pub open spec fn edit_of(
    src: Seq<char>,
    start_line: nat,
    start_col: nat,
    end_line: nat,
    end_col: nat,
    new_text: Seq<char>,
) -> TreeEdit {
    let start = change_start(src, start_line, start_col);
    let new_end = start + encode_utf8(new_text).len();
    let at = position_of(
        changed_bytes(src, start_line, start_col, end_line, end_col, new_text),
        new_end,
    );
    TreeEdit {
        start_byte: start as usize,
        old_end_byte: change_start(src, end_line, end_col) as usize,
        new_end_byte: new_end as usize,
        start_position: TreePoint { row: start_line as usize, column: start_col as usize },
        old_end_position: TreePoint { row: end_line as usize, column: end_col as usize },
        new_end_position: TreePoint { row: at.0 as usize, column: at.1 as usize },
    }
}

/// Works out a change: the new text, and the edit that describes the
/// change to the provider. A change whose range is not valid gives nothing.
pub fn plan_change(
    source: &str,
    start_line: usize,
    start_col: usize,
    end_line: usize,
    end_col: usize,
    new_text: &str,
) -> (r: Option<(String, TreeEdit)>)
    ensures
        r is Some <==> change_is_valid(
            source@,
            start_line as nat,
            start_col as nat,
            end_line as nat,
            end_col as nat,
        ),
        r matches Some(plan) ==> encode_utf8(plan.0@) == changed_bytes(
            source@,
            start_line as nat,
            start_col as nat,
            end_line as nat,
            end_col as nat,
            new_text@,
        ) && plan.0@ == changed_text(
            source@,
            start_line as nat,
            start_col as nat,
            end_line as nat,
            end_col as nat,
            new_text@,
        ) && plan.1 == edit_of(
            source@,
            start_line as nat,
            start_col as nat,
            end_line as nat,
            end_col as nat,
            new_text@,
        ),
{
    let bytes = source.as_bytes();
    let start: usize = offset_at(bytes, start_line, start_col);
    let old_end: usize = offset_at(bytes, end_line, end_col);
    if start > old_end || !source.is_char_boundary(start) || !source.is_char_boundary(old_end) {
        return None;
    }
    let text = splice(source, start, old_end, new_text);
    proof {
        encode_utf8_decode_utf8(text@);
    }
    let added: usize = new_text.as_bytes().len();
    let new_bytes = text.as_str().as_bytes();
    let total: usize = new_bytes.len();
    assert(start + added <= total);
    let new_end: usize = start + added;
    let at = position_at(new_bytes, new_end);
    let edit = TreeEdit {
        start_byte: start,
        old_end_byte: old_end,
        new_end_byte: new_end,
        start_position: TreePoint { row: start_line, column: start_col },
        old_end_position: TreePoint { row: end_line, column: end_col },
        new_end_position: TreePoint { row: at.0, column: at.1 },
    };
    Some((text, edit))
}

impl Document {
    /// The arena is a well-formed tree.
    pub open spec fn wf(&self) -> bool {
        self.syntax.wf()
    }

    /// Makes a document of a text and of what the provider made of it:
    /// a document where there is a tree, nothing where there is none.
    pub fn from_parse(source: String, parsed: Option<Tree>) -> (r: Option<Document>)
        ensures
            r is Some <==> parsed is Some,
            r matches Some(d) ==> d.wf() && d.source@ == source@ && parsed == Some(d.tree),
    {
        match parsed {
            None => None,
            Some(tree) => {
                let syntax = snapshot(&tree);
                Some(Document { source, tree, syntax })
            },
        }
    }

    /// Opens a document: parses the text from scratch. Gives nothing where
    /// the provider gives no tree.
    pub fn new(parser: &mut Parser, source: String) -> (r: Option<Document>)
        ensures
            r matches Some(d) ==> d.wf() && d.source@ == source@,
    {
        let parsed = parse_text(parser, source.as_str(), None);
        Document::from_parse(source, parsed)
    }

    /// Takes over what the provider made of the current text: the new tree
    /// where there is one; else the tree that the document has, copied
    /// afresh.
    pub fn install(&mut self, parsed: Option<Tree>)
        ensures
            final(self).wf(),
            final(self).source@ == old(self).source@,
            parsed matches Some(tree) ==> final(self).tree == tree,
            parsed is None ==> final(self).tree == old(self).tree,
    {
        match parsed {
            Some(tree) => {
                self.syntax = snapshot(&tree);
                self.tree = tree;
            },
            None => {
                self.syntax = snapshot(&self.tree);
            },
        }
    }

    /// Replaces the text between two positions by `new_text` and parses
    /// again, starting from the tree of the old text. Columns past the end
    /// of a line count as the end of the line. A change whose end lies
    /// before its start, or that would cut a character in two, is not
    /// applied: the result says whether it was.
    pub fn apply_change(
        &mut self,
        parser: &mut Parser,
        start_line: usize,
        start_col: usize,
        end_line: usize,
        end_col: usize,
        new_text: &str,
    ) -> (applied: bool)
        requires
            old(self).wf(),
        ensures
            final(self).wf(),
            applied == change_is_valid(
                old(self).source@,
                start_line as nat,
                start_col as nat,
                end_line as nat,
                end_col as nat,
            ),
            applied ==> encode_utf8(final(self).source@) == changed_bytes(
                old(self).source@,
                start_line as nat,
                start_col as nat,
                end_line as nat,
                end_col as nat,
                new_text@,
            ),
            applied ==> final(self).source@ == changed_text(
                old(self).source@,
                start_line as nat,
                start_col as nat,
                end_line as nat,
                end_col as nat,
                new_text@,
            ),
            !applied ==> final(self).source@ == old(self).source@ && final(self).syntax == old(
                self,
            ).syntax && final(self).tree == old(self).tree,
    {
        let source = self.source.as_str();
        match plan_change(source, start_line, start_col, end_line, end_col, new_text) {
            None => false,
            Some(plan) => {
                self.source = plan.0;
                edit_tree(&mut self.tree, &plan.1);
                let parsed = parse_text(parser, self.source.as_str(), Some(&self.tree));
                self.install(parsed);
                true
            },
        }
    }

    /// Replaces the whole text and parses it from scratch.
    pub fn reparse(&mut self, parser: &mut Parser, source: String)
        ensures
            final(self).wf(),
            final(self).source@ == source@,
    {
        self.source = source;
        let parsed = parse_text(parser, self.source.as_str(), None);
        self.install(parsed);
    }

    /// What a change notification does to the entry of a document: a
    /// document that is open gets the new text; one that is not is opened.
    pub fn change(existing: Option<Document>, parser: &mut Parser, text: String) -> (r: Option<
        Document,
    >)
        ensures
            existing is Some ==> r is Some,
            r matches Some(d) ==> d.wf() && d.source@ == text@,
    {
        match existing {
            Some(doc) => {
                let mut doc = doc;
                doc.reparse(parser, text);
                Some(doc)
            },
            None => Document::new(parser, text),
        }
    }
}

/// Applying a change and reading the text gives the old text with the
/// range replaced; nothing else of the old text is touched.
pub proof fn lemma_change_keeps_rest(
    src: Seq<char>,
    start_line: nat,
    start_col: nat,
    end_line: nat,
    end_col: nat,
    new_text: Seq<char>,
)
    requires
        change_is_valid(src, start_line, start_col, end_line, end_col),
    ensures
        ({
            let old_bytes = encode_utf8(src);
            let new_bytes = changed_bytes(src, start_line, start_col, end_line, end_col, new_text);
            let start = change_start(src, start_line, start_col);
            let end = change_start(src, end_line, end_col);
            let added = encode_utf8(new_text).len();
            &&& new_bytes.len() == old_bytes.len() - (end - start) + added
            &&& new_bytes.subrange(0, start) == old_bytes.subrange(0, start)
            &&& new_bytes.subrange(start, start + added) == encode_utf8(new_text)
            &&& new_bytes.subrange(start + added, new_bytes.len() as int) == old_bytes.subrange(
                end,
                old_bytes.len() as int,
            )
        }),
{
}

} // verus!
