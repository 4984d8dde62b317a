//! A closed model of already-expanded source text.
//!
//! Both the index builder and the usage walker traverse this tree.  It
//! keeps, for every declaration kind that can carry a stability marker,
//! the declaration's name, its visibility, and the `since` string of its
//! stability attribute when one is present; for bodies it keeps the
//! statement and expression structure the walker counts, and every
//! qualified path as a plain list of segment names.
//!
//! Constructs deliberately out of scope (field accesses, destructuring
//! patterns, literal-free verbatim text, macro invocations, generic
//! bound lists and the like) appear as the explicit `Other` variants:
//! they are documented no-ops for every traversal.

use vstd::prelude::*;

verus! {

/// A type position: only the shapes whose path references are extracted.
pub enum Ty {
    Array(Box<Ty>),
    BareFn { inputs: Vec<Ty>, output: Option<Box<Ty>> },
    Group(Box<Ty>),
    Paren(Box<Ty>),
    Path(Vec<String>),
    Ptr(Box<Ty>),
    Reference(Box<Ty>),
    Slice(Box<Ty>),
    Tuple(Vec<Ty>),
    /// Trait objects, `impl` types, inferred types, macros: no-ops.
    Other,
}

/// One `use`-statement tree.
pub enum UseTree {
    Path { ident: String, tree: Box<UseTree> },
    Name { ident: String },
    Rename { ident: String, rename: String },
    Glob,
    Group { items: Vec<UseTree> },
}

/// A function argument: only typed arguments carry a type position.
pub enum FnArg {
    Receiver,
    Typed(Ty),
}

pub struct Signature {
    pub name: String,
    pub unsafety: bool,
    pub inputs: Vec<FnArg>,
    pub output: Option<Ty>,
}

pub struct Block {
    pub stmts: Vec<Stmt>,
}

pub enum Stmt {
    Local { init: Option<Expr>, diverge: Option<Expr> },
    Item(Box<Item>),
    Expr(Expr),
    /// A macro statement: a no-op.
    MacroStmt,
}

pub struct Arm {
    pub guard: Option<Expr>,
    pub body: Expr,
}

/// An expression position.  Every variant but `Unsafe` and `Other` counts
/// as one expression when visited; an `Unsafe` wrapper only raises the
/// privilege depth around its block.
pub enum Expr {
    Array(Vec<Expr>),
    Assign(Box<Expr>, Box<Expr>),
    Async(Block),
    Await(Box<Expr>),
    Binary(Box<Expr>, Box<Expr>),
    BlockExpr(Block),
    Break(Option<Box<Expr>>),
    Call { func: Box<Expr>, args: Vec<Expr> },
    Cast { expr: Box<Expr>, ty: Ty },
    Closure { output: Option<Ty>, body: Box<Expr> },
    ConstBlock(Block),
    ForLoop { iter: Box<Expr>, body: Block },
    Group(Box<Expr>),
    If { cond: Box<Expr>, then_branch: Block, else_branch: Option<Box<Expr>> },
    Index { expr: Box<Expr>, index: Box<Expr> },
    Let(Box<Expr>),
    Lit,
    Loop(Block),
    Match { expr: Box<Expr>, arms: Vec<Arm> },
    MethodCall { receiver: Box<Expr>, args: Vec<Expr> },
    Paren(Box<Expr>),
    PathExpr(Vec<String>),
    Range { start: Option<Box<Expr>>, end: Option<Box<Expr>> },
    Reference(Box<Expr>),
    Repeat { expr: Box<Expr>, len: Box<Expr> },
    Return(Option<Box<Expr>>),
    StructLit { path: Vec<String>, fields: Vec<Expr> },
    Try(Box<Expr>),
    TryBlock(Block),
    Tuple(Vec<Expr>),
    Unary(Box<Expr>),
    Unsafe(Block),
    While { cond: Box<Expr>, body: Block },
    Yield(Option<Box<Expr>>),
    /// Field accesses, `continue`, inferred holes, macros, verbatim
    /// text: no-ops that neither count nor resolve.
    Other,
}

pub struct Variant {
    pub name: String,
    pub since: Option<String>,
    pub discriminant: Option<Expr>,
    pub fields: Vec<Ty>,
}

pub enum TraitItem {
    Const { name: String, since: Option<String>, ty: Ty, default: Option<Expr> },
    Fn { since: Option<String>, sig: Signature, default: Option<Block> },
    TyAlias { name: String, since: Option<String>, default: Option<Ty> },
    /// Macros and verbatim trait items: no-ops.
    Other,
}

pub enum ImplItem {
    Const { name: String, since: Option<String>, public: bool, ty: Ty, expr: Expr },
    Fn { since: Option<String>, public: bool, sig: Signature, block: Block },
    TyAlias { name: String, since: Option<String>, public: bool, ty: Ty },
    /// Macros and verbatim impl items: no-ops.
    Other,
}

pub enum Item {
    Const { name: String, since: Option<String>, public: bool, ty: Ty, expr: Expr },
    Enum { name: String, since: Option<String>, public: bool, variants: Vec<Variant> },
    Fn { since: Option<String>, public: bool, sig: Signature, block: Block },
    Impl { trait_path: Option<Vec<String>>, self_ty: Ty, items: Vec<ImplItem> },
    Mod { name: String, since: Option<String>, public: bool, content: Option<Vec<Item>> },
    Static { name: String, since: Option<String>, public: bool, ty: Ty, expr: Expr },
    Struct { name: String, since: Option<String>, public: bool, fields: Vec<Ty> },
    Trait { name: String, since: Option<String>, public: bool, items: Vec<TraitItem> },
    TraitAlias { name: String, since: Option<String>, public: bool },
    TyAlias { name: String, since: Option<String>, public: bool, ty: Ty },
    Union { name: String, since: Option<String>, public: bool },
    Use { since: Option<String>, tree: UseTree },
    /// Extern crates, foreign modules, macros, verbatim items: no-ops.
    Other,
}

/// One file of expanded source: its top-level items.
pub struct SourceFile {
    pub items: Vec<Item>,
}

} // verus!
