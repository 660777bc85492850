//! Structural model of the parts of the syntax tree that the rules read.
//!
//! The external parser produces its own in-memory tree; before a lint pass
//! the caller flattens the nodes the rules care about into these plain
//! values.  Every field is ordinary data, so rule logic over this model is
//! fully verified.

use vstd::prelude::*;

verus! {

/// Byte range of a node in the source text, relative to the start of the
/// file.
#[derive(Debug, Clone, Copy, PartialEq, Eq, Structural)]
pub struct Span {
    pub lo: usize,
    pub hi: usize,
}

/// The flavour of source file being linted; fixed by configuration and
/// carried through the pass unchanged.
#[derive(Debug, Clone, Copy, PartialEq, Eq, Structural)]
pub enum MediaType {
    JavaScript,
    Jsx,
    TypeScript,
    Tsx,
    Dts,
}

/// Unary operator of a unary expression.
#[derive(Debug, Clone, Copy, PartialEq, Eq, Structural)]
pub enum UnaryOp {
    Minus,
    Plus,
    Bang,
    Tilde,
    TypeOf,
    Void,
    Delete,
}

/// Callee of a call expression: either `super` or an ordinary expression.
#[derive(Debug)]
pub enum Callee {
    Super,
    Expr(Box<Expr>),
}

/// An expression, modelled down to the depth the rules inspect; anything
/// deeper or of another kind collapses to `Other`.
#[derive(Debug)]
pub enum Expr {
    BigIntLit,
    BoolLit,
    NumLit,
    NullLit,
    StrLit,
    RegexLit,
    Tpl,
    Ident(String),
    Call(Callee),
    New(Box<Expr>),
    OptChain(Box<Expr>),
    Unary(UnaryOp, Box<Expr>),
    Other,
}

/// Keyword type of a type annotation (`: number`, `: boolean`, ...).
#[derive(Debug, Clone, Copy, PartialEq, Eq, Structural)]
pub enum KeywordKind {
    BigIntKeyword,
    BooleanKeyword,
    NumberKeyword,
    NullKeyword,
    StringKeyword,
    SymbolKeyword,
    UndefinedKeyword,
    OtherKeyword,
}

/// Name of a type reference (`: RegExp`); qualified names collapse to
/// `Other`.
#[derive(Debug)]
pub enum EntityName {
    Ident(String),
    Other,
}

/// A type annotation.
#[derive(Debug)]
pub enum TsType {
    Keyword(KeywordKind),
    Ref(EntityName),
    Other,
}

/// A binding pattern.
#[derive(Debug)]
pub enum Pat {
    Ident { type_ann: Option<TsType> },
    Assign { left: Box<Pat>, right: Box<Expr>, span: Span },
    Other,
}

/// One place in the program where a binding may carry both a type
/// annotation and an initializing value.  The sites appear in the order the
/// syntax tree is traversed, which fixes the order diagnostics are
/// discovered in.
#[derive(Debug)]
pub enum Site {
    FnParam { pat: Pat, span: Span },
    ArrowParam { pat: Pat },
    ClassProp {
        readonly: bool,
        is_optional: bool,
        ident_key: bool,
        value: Option<Expr>,
        type_ann: Option<TsType>,
        span: Span,
    },
    PrivateProp {
        readonly: bool,
        is_optional: bool,
        value: Option<Expr>,
        type_ann: Option<TsType>,
        span: Span,
    },
    VarDeclarator { name: Pat, init: Option<Expr>, span: Span },
}

/// The modelled syntax tree of one file: the binding sites in traversal
/// order.
#[derive(Debug)]
pub struct Program {
    pub sites: Vec<Site>,
}

} // verus!
