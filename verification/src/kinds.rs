//! The closed sets of node kinds and field names that the analyses
//! dispatch on.
//!
//! A syntax tree labels every node with a kind tag, and the edge from a
//! parent to some of its children with a field name. Both are strings in
//! the grammar; here each string that an analysis looks at has a variant of
//! its own, so that every table over kinds is a total `match`.

use crate::text::str_eq;
use vstd::prelude::*;

verus! {

/// The kind of a syntax node.
#[derive(Clone, Copy, Debug, PartialEq, Eq, Structural)]
pub enum NodeKind {
    /// `new`: the channel-introduction construct, or its keyword.
    New,
    /// `in`
    In,
    /// `contract`: the named-procedure construct, or its keyword.
    Contract,
    /// `for`
    For,
    /// `select`
    Select,
    /// `match`
    Match,
    /// `if`
    If,
    /// `else`
    Else,
    /// `let`: the local-binding construct, or its keyword.
    Let,
    /// `not`
    Not,
    /// `and`
    And,
    /// `or`
    Or,
    /// `matches`
    Matches,
    /// `bundle_write`
    BundleWrite,
    /// `bundle_read`
    BundleRead,
    /// `bundle_equiv`
    BundleEquiv,
    /// `bundle_read_write`
    BundleReadWrite,
    /// `line_comment`
    LineComment,
    /// `block_comment`
    BlockComment,
    /// `string_literal`
    StringLiteral,
    /// `uri_literal`
    UriLiteral,
    /// `long_literal`
    LongLiteral,
    /// `bool_literal`
    BoolLiteral,
    /// `nil`
    Nil,
    /// `simple_type`
    SimpleType,
    /// `var`: an identifier.
    Var,
    /// `input`: the receive construct.
    Input,
    /// `case`: an arm of a pattern match.
    Case,
    /// `branch`: an arm of a select.
    Branch,
    /// `source_file`: the root of a document.
    SourceFile,
    /// `block`: a braced block.
    Block,
    /// `method`: a method call.
    Method,
    /// `name_decl`: one declaration of a channel introduction.
    NameDecl,
    /// `names`: a grouping of names.
    Names,
    /// `linear_bind`
    LinearBind,
    /// `repeated_bind`
    RepeatedBind,
    /// `peek_bind`
    PeekBind,
    /// `send`
    Send,
    /// `eval`
    Eval,
    /// One of the operator and punctuation symbols that are highlighted.
    Operator,
    /// Any other tag.
    Other,
}

/// The field name on the edge from a parent to a child.
#[derive(Clone, Copy, Debug, PartialEq, Eq, Structural)]
pub enum FieldName {
    /// The child has no field name.
    Unnamed,
    /// `name`
    Name,
    /// `decls`
    Decls,
    /// `formals`
    Formals,
    /// `proc`
    Proc,
    /// `pattern`
    Pattern,
    /// `receipts`
    Receipts,
    /// `decl`
    Decl,
    /// Any other field name.
    Other,
}

/// Whether `tag` is one of the operator and punctuation symbols.
pub open spec fn is_operator_tag(tag: Seq<char>) -> bool {
    ||| tag == "!"@
    ||| tag == "!!"@
    ||| tag == "!?"@
    ||| tag == "<-"@
    ||| tag == "<="@
    ||| tag == "<<-"@
    ||| tag == "=>"@
    ||| tag == "+"@
    ||| tag == "-"@
    ||| tag == "*"@
    ||| tag == "/"@
    ||| tag == "%"@
    ||| tag == "++"@
    ||| tag == "--"@
    ||| tag == "%%"@
    ||| tag == "=="@
    ||| tag == "!="@
    ||| tag == "<"@
    ||| tag == ">"@
    ||| tag == ">="@
    ||| tag == "\\/"@
    ||| tag == "/\\"@
    ||| tag == "~"@
    ||| tag == "="@
    ||| tag == "|"@
    ||| tag == "&"@
}

/// The kind that a tag denotes.
pub open spec fn kind_of_tag(tag: Seq<char>) -> NodeKind {
    if tag == "new"@ {
        NodeKind::New
    } else if tag == "in"@ {
        NodeKind::In
    } else if tag == "contract"@ {
        NodeKind::Contract
    } else if tag == "for"@ {
        NodeKind::For
    } else if tag == "select"@ {
        NodeKind::Select
    } else if tag == "match"@ {
        NodeKind::Match
    } else if tag == "if"@ {
        NodeKind::If
    } else if tag == "else"@ {
        NodeKind::Else
    } else if tag == "let"@ {
        NodeKind::Let
    } else if tag == "not"@ {
        NodeKind::Not
    } else if tag == "and"@ {
        NodeKind::And
    } else if tag == "or"@ {
        NodeKind::Or
    } else if tag == "matches"@ {
        NodeKind::Matches
    } else if tag == "bundle_write"@ {
        NodeKind::BundleWrite
    } else if tag == "bundle_read"@ {
        NodeKind::BundleRead
    } else if tag == "bundle_equiv"@ {
        NodeKind::BundleEquiv
    } else if tag == "bundle_read_write"@ {
        NodeKind::BundleReadWrite
    } else if tag == "line_comment"@ {
        NodeKind::LineComment
    } else if tag == "block_comment"@ {
        NodeKind::BlockComment
    } else if tag == "string_literal"@ {
        NodeKind::StringLiteral
    } else if tag == "uri_literal"@ {
        NodeKind::UriLiteral
    } else if tag == "long_literal"@ {
        NodeKind::LongLiteral
    } else if tag == "bool_literal"@ {
        NodeKind::BoolLiteral
    } else if tag == "nil"@ {
        NodeKind::Nil
    } else if tag == "simple_type"@ {
        NodeKind::SimpleType
    } else if tag == "var"@ {
        NodeKind::Var
    } else if tag == "input"@ {
        NodeKind::Input
    } else if tag == "case"@ {
        NodeKind::Case
    } else if tag == "branch"@ {
        NodeKind::Branch
    } else if tag == "source_file"@ {
        NodeKind::SourceFile
    } else if tag == "block"@ {
        NodeKind::Block
    } else if tag == "method"@ {
        NodeKind::Method
    } else if tag == "name_decl"@ {
        NodeKind::NameDecl
    } else if tag == "names"@ {
        NodeKind::Names
    } else if tag == "linear_bind"@ {
        NodeKind::LinearBind
    } else if tag == "repeated_bind"@ {
        NodeKind::RepeatedBind
    } else if tag == "peek_bind"@ {
        NodeKind::PeekBind
    } else if tag == "send"@ {
        NodeKind::Send
    } else if tag == "eval"@ {
        NodeKind::Eval
    } else if is_operator_tag(tag) {
        NodeKind::Operator
    } else {
        NodeKind::Other
    }
}

/// The field that a field name denotes; `Unnamed` stands for a child without
/// a field name.
pub open spec fn field_of_name(name: Option<Seq<char>>) -> FieldName {
    match name {
        None => FieldName::Unnamed,
        Some(n) => {
            if n == "name"@ {
                FieldName::Name
            } else if n == "decls"@ {
                FieldName::Decls
            } else if n == "formals"@ {
                FieldName::Formals
            } else if n == "proc"@ {
                FieldName::Proc
            } else if n == "pattern"@ {
                FieldName::Pattern
            } else if n == "receipts"@ {
                FieldName::Receipts
            } else if n == "decl"@ {
                FieldName::Decl
            } else {
                FieldName::Other
            }
        },
    }
}

/// Tells whether a tag is one of the highlighted symbols.
pub fn is_operator(tag: &str) -> (r: bool)
    ensures
        r == is_operator_tag(tag@),
{
    str_eq(tag, "!")
        || str_eq(tag, "!!")
        || str_eq(tag, "!?")
        || str_eq(tag, "<-")
        || str_eq(tag, "<=")
        || str_eq(tag, "<<-")
        || str_eq(tag, "=>")
        || str_eq(tag, "+")
        || str_eq(tag, "-")
        || str_eq(tag, "*")
        || str_eq(tag, "/")
        || str_eq(tag, "%")
        || str_eq(tag, "++")
        || str_eq(tag, "--")
        || str_eq(tag, "%%")
        || str_eq(tag, "==")
        || str_eq(tag, "!=")
        || str_eq(tag, "<")
        || str_eq(tag, ">")
        || str_eq(tag, ">=")
        || str_eq(tag, "\\/")
        || str_eq(tag, "/\\")
        || str_eq(tag, "~")
        || str_eq(tag, "=")
        || str_eq(tag, "|")
        || str_eq(tag, "&")
}

impl NodeKind {
    /// Classifies a kind tag.
    pub fn from_tag(tag: &str) -> (k: NodeKind)
        ensures
            k == kind_of_tag(tag@),
    {
        if str_eq(tag, "new") {
            NodeKind::New
        } else if str_eq(tag, "in") {
            NodeKind::In
        } else if str_eq(tag, "contract") {
            NodeKind::Contract
        } else if str_eq(tag, "for") {
            NodeKind::For
        } else if str_eq(tag, "select") {
            NodeKind::Select
        } else if str_eq(tag, "match") {
            NodeKind::Match
        } else if str_eq(tag, "if") {
            NodeKind::If
        } else if str_eq(tag, "else") {
            NodeKind::Else
        } else if str_eq(tag, "let") {
            NodeKind::Let
        } else if str_eq(tag, "not") {
            NodeKind::Not
        } else if str_eq(tag, "and") {
            NodeKind::And
        } else if str_eq(tag, "or") {
            NodeKind::Or
        } else if str_eq(tag, "matches") {
            NodeKind::Matches
        } else if str_eq(tag, "bundle_write") {
            NodeKind::BundleWrite
        } else if str_eq(tag, "bundle_read") {
            NodeKind::BundleRead
        } else if str_eq(tag, "bundle_equiv") {
            NodeKind::BundleEquiv
        } else if str_eq(tag, "bundle_read_write") {
            NodeKind::BundleReadWrite
        } else if str_eq(tag, "line_comment") {
            NodeKind::LineComment
        } else if str_eq(tag, "block_comment") {
            NodeKind::BlockComment
        } else if str_eq(tag, "string_literal") {
            NodeKind::StringLiteral
        } else if str_eq(tag, "uri_literal") {
            NodeKind::UriLiteral
        } else if str_eq(tag, "long_literal") {
            NodeKind::LongLiteral
        } else if str_eq(tag, "bool_literal") {
            NodeKind::BoolLiteral
        } else if str_eq(tag, "nil") {
            NodeKind::Nil
        } else if str_eq(tag, "simple_type") {
            NodeKind::SimpleType
        } else if str_eq(tag, "var") {
            NodeKind::Var
        } else if str_eq(tag, "input") {
            NodeKind::Input
        } else if str_eq(tag, "case") {
            NodeKind::Case
        } else if str_eq(tag, "branch") {
            NodeKind::Branch
        } else if str_eq(tag, "source_file") {
            NodeKind::SourceFile
        } else if str_eq(tag, "block") {
            NodeKind::Block
        } else if str_eq(tag, "method") {
            NodeKind::Method
        } else if str_eq(tag, "name_decl") {
            NodeKind::NameDecl
        } else if str_eq(tag, "names") {
            NodeKind::Names
        } else if str_eq(tag, "linear_bind") {
            NodeKind::LinearBind
        } else if str_eq(tag, "repeated_bind") {
            NodeKind::RepeatedBind
        } else if str_eq(tag, "peek_bind") {
            NodeKind::PeekBind
        } else if str_eq(tag, "send") {
            NodeKind::Send
        } else if str_eq(tag, "eval") {
            NodeKind::Eval
        } else if is_operator(tag) {
            NodeKind::Operator
        } else {
            NodeKind::Other
        }
    }
}

impl FieldName {
    /// Classifies the field name of a child, if it has one.
    pub fn from_name(name: Option<&str>) -> (f: FieldName)
        ensures
            f == field_of_name(
                match name {
                    Some(n) => Some(n@),
                    None => None,
                },
            ),
    {
        match name {
            None => FieldName::Unnamed,
            Some(n) => {
                if str_eq(n, "name") {
                    FieldName::Name
                } else if str_eq(n, "decls") {
                    FieldName::Decls
                } else if str_eq(n, "formals") {
                    FieldName::Formals
                } else if str_eq(n, "proc") {
                    FieldName::Proc
                } else if str_eq(n, "pattern") {
                    FieldName::Pattern
                } else if str_eq(n, "receipts") {
                    FieldName::Receipts
                } else if str_eq(n, "decl") {
                    FieldName::Decl
                } else {
                    FieldName::Other
                }
            },
        }
    }
}

} // verus!
