//! The syntax tree that the code generator walks.
//!
//! Nodes arrive already parsed. They hold spans only: names and literal
//! values are read from the source text under the span when needed.

use crate::span::Span;
use vstd::prelude::*;

verus! {

/// An integer literal. Its span covers the whole token, with the minus
/// sign where one is fused to the literal.
pub struct LitNumber {
    /// The token.
    pub span: Span,
}

/// A string literal, quotes included.
pub struct LitStr {
    /// The token.
    pub span: Span,
}

/// A byte string literal, prefix and quotes included.
pub struct LitByteStr {
    /// The token.
    pub span: Span,
}

/// The use of a local variable by its name.
pub struct Path {
    /// The name.
    pub span: Span,
}

/// A call of a function by its name.
pub struct ExprCall {
    /// The name of the function.
    pub name: Span,
    /// The arguments, in the order they are written.
    pub args: Vec<Expr>,
    /// The whole call.
    pub span: Span,
}

/// A block of expressions, run in order.
pub struct Block {
    /// The expressions of the block.
    pub exprs: Vec<Expr>,
    /// Whether a semicolon follows the last expression. Without one, the
    /// last expression is the value of the block.
    pub trailing_semi: bool,
    /// The whole block.
    pub span: Span,
}

/// An expression.
pub enum Expr {
    /// An integer literal.
    LitNumber(LitNumber),
    /// A string literal.
    LitStr(LitStr),
    /// A byte string literal.
    LitByteStr(LitByteStr),
    /// A local variable.
    Path(Path),
    /// A function call.
    Call(ExprCall),
    /// A nested block.
    Block(Block),
}

/// A function definition.
pub struct ItemFn {
    /// The name of the function.
    pub name: Span,
    /// The names of the parameters, in order.
    pub params: Vec<Span>,
    /// The body.
    pub body: Block,
    /// The whole definition.
    pub span: Span,
}

/// A reference to another source whose items join the compilation.
pub struct ItemImport {
    /// The text that names the source.
    pub path: Span,
    /// The whole item.
    pub span: Span,
}

/// A top-level item of a source.
pub enum Item {
    /// A function definition.
    Fn(ItemFn),
    /// An import of another source.
    Import(ItemImport),
}

} // verus!
