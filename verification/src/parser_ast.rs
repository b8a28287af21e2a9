//! The syntax tree the parser builds.

use crate::source_span::Span;
use vstd::prelude::*;

verus! {

pub struct Program<'src> {
    pub declarations: Vec<Declaration<'src>>,
}

#[derive(Debug, Clone, Copy)]
pub struct Ident<'src> {
    pub inner: &'src str,
    pub span: Span<'src>,
}

#[derive(Debug, PartialEq, Eq, Clone, Copy, Structural)]
pub enum Op {
    Add,
    Sub,
    Mul,
    Div,
    Mod,
    Exp,
    Eq,
    Ne,
    Lt,
    Gt,
    LtEq,
    GtEq,
    And,
    Or,
    Bang,
    Call,
    StructInstance,
    // Indexing into a struct instance, i.e. my_struct.my_field
    FieldIndex,
}

/// The left and right binding power of an infix operator.
pub open spec fn spec_infix_binding_power(op: Op) -> Option<(u8, u8)> {
    match op {
        Op::And | Op::Or => Some((3u8, 4u8)),
        Op::Ne | Op::Eq | Op::Lt | Op::LtEq | Op::Gt | Op::GtEq => Some((5u8, 6u8)),
        Op::Add | Op::Sub => Some((7u8, 8u8)),
        Op::Mul | Op::Div | Op::Mod => Some((9u8, 10u8)),
        Op::Exp => Some((11u8, 12u8)),
        Op::FieldIndex => Some((16u8, 15u8)),
        _ => None,
    }
}

/// The left binding power of a postfix operator.
pub open spec fn spec_postfix_binding_power(op: Op) -> Option<u8> {
    match op {
        Op::Call => Some(13u8),
        Op::StructInstance => Some(15u8),
        _ => None,
    }
}

impl Op {
    pub fn infix_binding_power(&self) -> (r: Option<(u8, u8)>)
        ensures
            r == spec_infix_binding_power(*self),
    {
        let res = match self {
            Op::And | Op::Or => (3, 4),
            Op::Ne | Op::Eq | Op::Lt | Op::LtEq | Op::Gt | Op::GtEq => (5, 6),
            Op::Add | Op::Sub => (7, 8),
            Op::Mul | Op::Div | Op::Mod => (9, 10),
            Op::Exp => (11, 12),
            Op::FieldIndex => (16, 15),
            _ => return None,
        };
        Some(res)
    }

    /// The right binding power of a prefix operator; only `!` and `-` are prefix operators.
    pub fn prefix_binding_power(&self) -> (r: ((), u8))
        requires
            *self == Op::Bang || *self == Op::Sub,
        ensures
            r.1 == 11,
    {
        ((), 11)
    }

    pub fn postfix_binding_power(&self) -> (r: Option<(u8, ())>)
        ensures
            spec_postfix_binding_power(*self) matches Some(p) ==> r == Some((p, ())),
            spec_postfix_binding_power(*self) is None ==> r is None,
    {
        match self {
            Op::Call => Some((13, ())),
            Op::StructInstance => Some((15, ())),
            _ => None,
        }
    }
}

/// The left binding power of an infix operator.
pub open spec fn left_bp(op: Op) -> int {
    match spec_infix_binding_power(op) {
        Some((l, _)) => l as int,
        None => 0,
    }
}

/// The right binding power of an infix operator.
pub open spec fn right_bp(op: Op) -> int {
    match spec_infix_binding_power(op) {
        Some((_, r)) => r as int,
        None => 0,
    }
}

/// Every infix operator binds tighter on its right than on its left, except
/// field indexing, which is right-associative.
pub proof fn law_infix_left_associative(op: Op)
    requires
        spec_infix_binding_power(op) is Some,
        op != Op::FieldIndex,
    ensures
        left_bp(op) < right_bp(op),
{
}

/// Arithmetic binds tighter than comparison, which binds tighter than `and`/`or`.
pub proof fn law_precedence_order()
    ensures
        left_bp(Op::Exp) > right_bp(Op::Mul),
        left_bp(Op::Mul) > right_bp(Op::Add),
        left_bp(Op::Add) > right_bp(Op::Eq),
        left_bp(Op::Eq) > right_bp(Op::And),
{
}

#[derive(Debug, Clone, Copy, PartialEq, Eq, Hash, Structural)]
pub enum BinaryOp {
    // Arithmetic
    Add,
    Sub,
    Mul,
    Div,
    Mod,
    Exp,
    // Comparison
    Eq,
    Ne,
    Lt,
    Gt,
    LtEq,
    GtEq,
    // Logical
    And,
    Or,
}

/// The binary operator an operator stands for.
pub open spec fn spec_binary_of(op: Op) -> Option<BinaryOp> {
    match op {
        Op::Add => Some(BinaryOp::Add),
        Op::Sub => Some(BinaryOp::Sub),
        Op::Mul => Some(BinaryOp::Mul),
        Op::Div => Some(BinaryOp::Div),
        Op::Mod => Some(BinaryOp::Mod),
        Op::And => Some(BinaryOp::And),
        Op::Or => Some(BinaryOp::Or),
        Op::Lt => Some(BinaryOp::Lt),
        Op::LtEq => Some(BinaryOp::LtEq),
        Op::Gt => Some(BinaryOp::Gt),
        Op::GtEq => Some(BinaryOp::GtEq),
        Op::Ne => Some(BinaryOp::Ne),
        Op::Eq => Some(BinaryOp::Eq),
        _ => None,
    }
}

impl BinaryOp {
    /// The binary operator for an operator; `**`, `!`, calls, struct
    /// instances and field indexing have none yet.
    pub fn from_op(op: Op) -> (r: Option<BinaryOp>)
        requires
            spec_binary_of(op) is Some,
        ensures
            r == spec_binary_of(op),
    {
        match op {
            Op::Add => Some(BinaryOp::Add),
            Op::Sub => Some(BinaryOp::Sub),
            Op::Mul => Some(BinaryOp::Mul),
            Op::Div => Some(BinaryOp::Div),
            Op::Mod => Some(BinaryOp::Mod),
            Op::And => Some(BinaryOp::And),
            Op::Or => Some(BinaryOp::Or),
            Op::Lt => Some(BinaryOp::Lt),
            Op::LtEq => Some(BinaryOp::LtEq),
            Op::Gt => Some(BinaryOp::Gt),
            Op::GtEq => Some(BinaryOp::GtEq),
            Op::Ne => Some(BinaryOp::Ne),
            Op::Eq => Some(BinaryOp::Eq),
            _ => vstd::pervasive::unreached(),
        }
    }

    /// Whether the operator compares its operands.
    pub open spec fn is_comparison(self) -> bool {
        match self {
            BinaryOp::Eq | BinaryOp::Ne | BinaryOp::Lt | BinaryOp::LtEq | BinaryOp::Gt
            | BinaryOp::GtEq => true,
            _ => false,
        }
    }
}

#[derive(Debug, Clone, Copy, PartialEq, Eq, Hash, Structural)]
pub enum UnaryOp {
    Neg,
    Not,
}

pub struct Call<'src> {
    pub callee: Box<Expr<'src>>,
    pub args: Vec<Expr<'src>>,
}

pub enum ExprKind<'src> {
    IntLiteral(i64),
    /// A float literal, kept as the text it was written as.
    FloatLiteral(&'src str),
    BoolLiteral(bool),
    /// None if empty string
    StringLiteral(Option<&'src str>),
    StringInterpolation(Vec<Expr<'src>>),
    Ident(Ident<'src>),
    Binary { op: BinaryOp, left: Box<Expr<'src>>, right: Box<Expr<'src>> },
    // Unary operations
    Unary { op: UnaryOp, expr: Box<Expr<'src>> },
    Call(Call<'src>),
    StructInstance {
        name: Ident<'src>,
        fields: Vec<(Ident<'src>, Expr<'src>)>,  // field name -> value
    },
    Member { object: Box<Expr<'src>>, field: Ident<'src> },
    If {
        cond: Box<Expr<'src>>,
        then: Block<'src>,
        else_if_blocks: Vec<(Expr<'src>, Block<'src>)>,
        else_block: Option<Block<'src>>,
    },
}

pub struct Expr<'src> {
    pub kind: ExprKind<'src>,
    pub span: Span<'src>,
}

#[derive(Debug, Clone, Copy)]
pub enum TypeKind<'src> {
    Ident(Ident<'src>),
    Int,
    Float,
    String,
    Bool,
    Void,
}

#[derive(Debug, Clone, Copy)]
pub struct Type<'src> {
    pub span: Span<'src>,
    pub kind: TypeKind<'src>,
}

pub struct Param<'src> {
    pub span: Span<'src>,
    pub name: Ident<'src>,
    pub ty: Type<'src>,
    pub default: Option<Expr<'src>>,
}

pub struct Block<'src> {
    pub span: Span<'src>,
    pub statements: Vec<Statement<'src>>,
}

impl<'src> Block<'src> {
    pub fn set_span(self, span: Span<'src>) -> (b: Self)
        ensures
            b.span == span,
            b.statements == self.statements,
    {
        Block { span, statements: self.statements }
    }
}

#[derive(Debug, Clone, Copy, PartialEq, Eq, Structural)]
pub enum Vis {
    Public,
    Internal,
    Private,
}

pub struct Function<'src> {
    pub span: Span<'src>,
    pub name: Ident<'src>,
    pub params: Vec<Param<'src>>,
    pub ret_ty: Type<'src>,
    pub body: Block<'src>,
    pub vis: Vis,
}

impl<'src> Function<'src> {
    pub fn set_vis(self, vis: Vis) -> (f: Self)
        ensures
            f.vis == vis,
            f.span == self.span,
            f.name == self.name,
            f.params == self.params,
            f.ret_ty == self.ret_ty,
            f.body == self.body,
    {
        Function { vis, ..self }
    }
}

pub struct EnumVariant<'src> {
    pub span: Span<'src>,
    pub name: Ident<'src>,
    pub fields: Vec<Type<'src>>,
}

pub struct Struct<'src> {
    pub span: Span<'src>,
    pub name: Ident<'src>,
    pub fields: Vec<(Ident<'src>, Type<'src>)>,
    pub vis: Vis,
}

pub struct Enum<'src> {
    pub span: Span<'src>,
    pub name: Ident<'src>,
    pub variants: Vec<EnumVariant<'src>>,
    pub vis: Vis,
}

pub enum Statement<'src> {
    Let {
        name: Ident<'src>,
        ty: Option<Type<'src>>,
        expr: Expr<'src>,
        mutable: bool,
        span: Span<'src>,
    },
    Assign { name: Ident<'src>, expr: Expr<'src>, span: Span<'src> },
    Return { span: Span<'src>, expr: Option<Expr<'src>> },
    ForLoop { span: Span<'src>, cond: Option<Expr<'src>>, block: Block<'src> },
    Function(Function<'src>),
    // Type definitions
    Struct(Struct<'src>),
    Enum(Enum<'src>),
    Expr(Expr<'src>),
}

/// The span of a statement.
pub open spec fn statement_span<'src>(s: Statement<'src>) -> Span<'src> {
    match s {
        Statement::Let { span, .. } => span,
        Statement::Assign { span, .. } => span,
        Statement::Return { span, .. } => span,
        Statement::ForLoop { span, .. } => span,
        Statement::Function(function) => function.span,
        Statement::Struct(strct) => strct.span,
        Statement::Enum(e) => e.span,
        Statement::Expr(expr) => expr.span,
    }
}

impl<'src> Statement<'src> {
    pub fn span(&self) -> (s: &Span<'src>)
        ensures
            *s == statement_span(*self),
    {
        match self {
            Statement::Let { span, .. } => span,
            Statement::Assign { span, .. } => span,
            Statement::Return { span, .. } => span,
            Statement::ForLoop { span, .. } => span,
            Statement::Function(function) => &function.span,
            Statement::Struct(strct) => &strct.span,
            Statement::Enum(e) => &e.span,
            Statement::Expr(expr) => &expr.span,
        }
    }
}

pub struct Use<'src> {
    pub import: Vec<Ident<'src>>,
    pub span: Span<'src>,
}

pub enum Declaration<'src> {
    Struct(Struct<'src>),
    Enum(Enum<'src>),
    Function(Function<'src>),
    Use(Use<'src>),
}

} // verus!
