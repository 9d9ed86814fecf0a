//! The parts of a parsed Rust source file that the converters read: item
//! names and signatures, and the statements and expressions of function
//! bodies. A node that a converter may print as it was written keeps its
//! token text (`text`); everything else is kept as `Other`.

use vstd::prelude::*;

verus! {

/// A type, as far as the converters look at it: a path type keeps the
/// identifier of its last segment and the first angle-bracketed argument
/// of that segment when the argument is a type; a reference keeps the
/// type it refers to.
#[derive(Debug, PartialEq, Eq)]
pub enum RsType {
    Path { ident: String, arg: Option<Box<RsType>> },
    Reference(Box<RsType>),
    Other,
}

/// A named struct field.
#[derive(Debug, PartialEq, Eq)]
pub struct RsField {
    pub name: String,
    pub ty: RsType,
}

/// A function parameter: a typed pattern (the identifier when the pattern
/// is one; `pat_text` is the token text of the parameter followed by
/// `.pat`) or a `self` receiver.
#[derive(Debug, PartialEq, Eq)]
pub enum RsFnArg {
    Typed { pat: Option<String>, ty: RsType, pat_text: String },
    Receiver,
}

/// A literal: integers and floats keep their decimal digits, strings their
/// value, any other literal its token text.
#[derive(Debug, Clone, PartialEq, Eq)]
pub enum RsLit {
    Int(String),
    Float(String),
    Str(String),
    Bool(bool),
    Other(String),
}

/// A pattern: an identifier (and whether it is bound `mut`), a tuple, a
/// tuple struct (by the identifiers of its path), a pattern with a type
/// ascription, or anything else.
#[derive(Debug, PartialEq, Eq)]
pub enum RsPat {
    Ident { name: String, mutable: bool },
    Tuple(Vec<RsPat>),
    TupleStruct { path: Vec<String>, elems: Vec<RsPat> },
    Typed(Box<RsPat>),
    Other,
}

/// A unary operator.
#[derive(Debug, Clone, Copy, PartialEq, Eq)]
pub enum RsUnOp {
    Neg,
    Not,
    Deref,
}

/// A binary operator; the compound assignments and bit operators are `Other`.
#[derive(Debug, Clone, Copy, PartialEq, Eq)]
pub enum RsBinOp {
    Add,
    Sub,
    Mul,
    Div,
    Rem,
    And,
    Or,
    Eq,
    Ne,
    Lt,
    Le,
    Gt,
    Ge,
    Other,
}

/// An expression.
#[derive(Debug, PartialEq, Eq)]
pub enum RsExpr {
    /// A path, by the identifiers of its segments.
    Path(Vec<String>),
    Lit(RsLit),
    Tuple(Vec<RsExpr>),
    MethodCall { receiver: Box<RsExpr>, method: String, args: Vec<RsExpr> },
    Call { func: Box<RsExpr>, args: Vec<RsExpr> },
    /// A macro call, by the identifiers of its path; `tokens` is the text of
    /// its arguments.
    Macro { path: Vec<String>, args: RsMacroArgs, tokens: String, text: String },
    /// `start..end`, or `start..=end` when `closed`.
    Range { start: Option<Box<RsExpr>>, end: Option<Box<RsExpr>>, closed: bool, text: String },
    Unary { op: RsUnOp, expr: Box<RsExpr> },
    /// `for pat in iter { body }`; `pat_text` is the token text of the loop
    /// followed by `.pat`, `iter_text` that of the iterated expression.
    ForLoop { pat: RsPat, iter: Box<RsExpr>, body: Vec<RsStmt>, text: String, pat_text: String, iter_text: String },
    If { cond: Box<RsExpr>, then_branch: Vec<RsStmt>, else_branch: Option<Box<RsExpr>>, text: String },
    /// `let pat = expr` inside a condition.
    Let { pat: RsPat, expr: Box<RsExpr>, text: String },
    Block { stmts: Vec<RsStmt>, text: String },
    While { body: Vec<RsStmt>, text: String },
    Loop { body: Vec<RsStmt>, text: String },
    Match(String),
    Assign { left: Box<RsExpr>, right: Box<RsExpr>, text: String },
    Binary { op: RsBinOp, left: Box<RsExpr>, right: Box<RsExpr> },
    Paren { expr: Box<RsExpr>, text: String },
    Group { expr: Box<RsExpr>, text: String },
    Reference { expr: Box<RsExpr>, text: String },
    Index { expr: Box<RsExpr>, index: Box<RsExpr>, text: String },
    /// `base.member`; a tuple member by its index in decimal.
    Field { base: Box<RsExpr>, member: String },
    Return(Option<Box<RsExpr>>),
    Other(String),
}

/// The arguments of a macro call: a single string literal, a
/// comma-separated list of expressions, or neither.
#[derive(Debug, PartialEq, Eq)]
pub enum RsMacroArgs {
    Str(String),
    Exprs(Vec<RsExpr>),
    Unparsed,
}

/// A statement.
#[derive(Debug, PartialEq, Eq)]
pub enum RsStmt {
    Local { pat: RsPat, init: Option<RsExpr> },
    /// An expression statement, whether it ends in `;`, and the token text
    /// of the expression.
    Expr { expr: RsExpr, semi: bool, text: String },
    Item,
    /// A macro statement, by the identifiers of its path; `tokens` is the
    /// text of its arguments and `text` that of the whole statement.
    Macro { path: Vec<String>, args: RsMacroArgs, tokens: String, text: String },
}

/// A function: its name, type parameters, signature, statements, and the
/// token text of each statement.
#[derive(Debug, PartialEq, Eq)]
pub struct RsFn {
    pub name: String,
    pub generics: Vec<String>,
    pub inputs: Vec<RsFnArg>,
    pub output: Option<RsType>,
    pub stmts: Vec<RsStmt>,
    pub stmt_texts: Vec<String>,
}

/// An item: a struct (its type parameters, and its named fields if it has
/// them), a function, an `impl` block (whether it implements a trait, the
/// type, the type parameters and the functions), a `use`, a module, or
/// anything else by its token text.
#[derive(Debug, PartialEq, Eq)]
pub enum RsItem {
    Struct { name: String, generics: Vec<String>, named_fields: Option<Vec<RsField>> },
    Fn(RsFn),
    Impl { is_trait: bool, self_ty: RsType, generics: Vec<String>, fns: Vec<RsFn> },
    Use,
    Mod,
    Other(String),
}

/// A parsed source file: its items in order.
#[derive(Debug, PartialEq, Eq)]
pub struct RsFile {
    pub items: Vec<RsItem>,
}

/// Whether the function takes `self`: its first parameter is the receiver.
pub open spec fn has_receiver(f: RsFn) -> bool {
    f.inputs@.len() > 0 && f.inputs@[0] is Receiver
}

} // verus!
