//! The backend intermediate representation: the analyzed program with
//! spans dropped, closures named and their captured variables listed.

use crate::analyzer_ast;
use vstd::prelude::*;

verus! {

pub struct Program<'src> {
    pub declarations: Vec<Declaration<'src>>,
}

#[derive(Debug, Clone, Copy)]
pub struct Ident<'src> {
    pub inner: &'src str,
}

impl<'src> Ident<'src> {
    pub fn from_analyzer(value: analyzer_ast::Ident<'src>) -> (i: Self)
        ensures
            i.inner == value.inner,
    {
        Ident { inner: value.inner }
    }
}

#[derive(Debug, Clone, Copy, PartialEq, Eq, Hash, Structural)]
pub enum BinaryOp {
    // Arithmetic
    Add,
    Sub,
    Mul,
    Div,
    Mod,
    Exp,
    // Comparison
    Eq,
    Ne,
    Lt,
    Gt,
    LtEq,
    GtEq,
    // Logical
    And,
    Or,
}

/// The operator for an analyzed one.
pub open spec fn spec_binary_from<'src>(value: analyzer_ast::BinaryOp) -> BinaryOp {
    match value {
        analyzer_ast::BinaryOp::Add => BinaryOp::Add,
        analyzer_ast::BinaryOp::Sub => BinaryOp::Sub,
        analyzer_ast::BinaryOp::Mul => BinaryOp::Mul,
        analyzer_ast::BinaryOp::Div => BinaryOp::Div,
        analyzer_ast::BinaryOp::Mod => BinaryOp::Mod,
        analyzer_ast::BinaryOp::Exp => BinaryOp::Exp,
        analyzer_ast::BinaryOp::Eq => BinaryOp::Eq,
        analyzer_ast::BinaryOp::Ne => BinaryOp::Ne,
        analyzer_ast::BinaryOp::Lt => BinaryOp::Lt,
        analyzer_ast::BinaryOp::Gt => BinaryOp::Gt,
        analyzer_ast::BinaryOp::LtEq => BinaryOp::LtEq,
        analyzer_ast::BinaryOp::GtEq => BinaryOp::GtEq,
        analyzer_ast::BinaryOp::And => BinaryOp::And,
        analyzer_ast::BinaryOp::Or => BinaryOp::Or,
    }
}

impl BinaryOp {
    pub fn from_analyzer(value: analyzer_ast::BinaryOp) -> (r: Self)
        ensures
            r == spec_binary_from(value),
    {
        match value {
            analyzer_ast::BinaryOp::Add => BinaryOp::Add,
            analyzer_ast::BinaryOp::Sub => BinaryOp::Sub,
            analyzer_ast::BinaryOp::Mul => BinaryOp::Mul,
            analyzer_ast::BinaryOp::Div => BinaryOp::Div,
            analyzer_ast::BinaryOp::Mod => BinaryOp::Mod,
            analyzer_ast::BinaryOp::Exp => BinaryOp::Exp,
            analyzer_ast::BinaryOp::Eq => BinaryOp::Eq,
            analyzer_ast::BinaryOp::Ne => BinaryOp::Ne,
            analyzer_ast::BinaryOp::Lt => BinaryOp::Lt,
            analyzer_ast::BinaryOp::Gt => BinaryOp::Gt,
            analyzer_ast::BinaryOp::LtEq => BinaryOp::LtEq,
            analyzer_ast::BinaryOp::GtEq => BinaryOp::GtEq,
            analyzer_ast::BinaryOp::And => BinaryOp::And,
            analyzer_ast::BinaryOp::Or => BinaryOp::Or,
        }
    }
}

#[derive(Debug, Clone, Copy, PartialEq, Eq, Hash, Structural)]
pub enum UnaryOp {
    Neg,
    Not,
}

pub struct Call<'src> {
    pub callee: String,
    pub args: Vec<Expr<'src>>,
}

pub enum Expr<'src> {
    IntLiteral(i64),
    /// A float literal, kept as the text it was written as.
    FloatLiteral(&'src str),
    BoolLiteral(bool),
    /// None if empty string
    StringLiteral(Option<&'src str>),
    StringInterpolation(Vec<Expr<'src>>),
    Ident { ident: Ident<'src>, ty: TypeKind<'src> },
    Binary { op: BinaryOp, ty: TypeKind<'src>, left: Box<Expr<'src>>, right: Box<Expr<'src>> },
    // Unary operations
    Unary { op: UnaryOp, expr: Box<Expr<'src>>, ty: TypeKind<'src> },
    Call { call: Call<'src>, ty: TypeKind<'src> },
    StructInstance {
        name: Ident<'src>,
        fields: Vec<(Ident<'src>, Expr<'src>)>,  // field name -> value
    },
    Member { object: Box<Expr<'src>>, field: Ident<'src>, ty: TypeKind<'src> },
    If {
        ty: TypeKind<'src>,
        cond: Box<Expr<'src>>,
        then: Block<'src>,
        else_if_blocks: Vec<(Expr<'src>, Block<'src>)>,
        else_block: Option<Block<'src>>,
    },
    Closure {
        mangled_name: String,
        params: Vec<Param<'src>>,
        ret_ty: TypeKind<'src>,
        body: Block<'src>,
        /// The variables of the enclosing scopes the body uses: name, type,
        /// and whether the variable was declared mutable.
        captures: Vec<(String, TypeKind<'src>, bool)>,
    },
}

/// The type of an expression; a struct instance has none yet.
pub open spec fn expr_ty<'src>(e: Expr<'src>) -> TypeKind<'src> {
    match e {
        Expr::IntLiteral(_) => TypeKind::Int,
        Expr::FloatLiteral(_) => TypeKind::Float,
        Expr::BoolLiteral(_) => TypeKind::Bool,
        Expr::StringLiteral(_) => TypeKind::String,
        Expr::StringInterpolation(_) => TypeKind::String,
        Expr::Ident { ty, .. } => ty,
        Expr::Binary { ty, .. } => ty,
        Expr::Unary { ty, .. } => ty,
        Expr::Call { ty, .. } => ty,
        Expr::StructInstance { .. } => TypeKind::Void,
        Expr::Member { ty, .. } => ty,
        Expr::If { ty, .. } => ty,
        Expr::Closure { ret_ty, .. } => ret_ty,
    }
}

impl<'src> Expr<'src> {
    /// The type of the expression; a closure has the type it returns.
    pub fn ty(&self) -> (t: &TypeKind<'src>)
        requires
            !(self is StructInstance),
        ensures
            *t == expr_ty(*self),
    {
        match self {
            Expr::IntLiteral(_) => &TypeKind::Int,
            Expr::FloatLiteral(_) => &TypeKind::Float,
            Expr::BoolLiteral(_) => &TypeKind::Bool,
            Expr::StringLiteral(_) => &TypeKind::String,
            Expr::StringInterpolation(_) => &TypeKind::String,
            Expr::Ident { ty, .. } => ty,
            Expr::Binary { ty, .. } => ty,
            Expr::Unary { ty, .. } => ty,
            Expr::Call { ty, .. } => ty,
            Expr::StructInstance { .. } => vstd::pervasive::unreached(),
            Expr::Member { ty, .. } => ty,
            Expr::If { ty, .. } => ty,
            Expr::Closure { ret_ty, .. } => ret_ty,
        }
    }
}

/// The types of lowered code. No stage produces function types yet, so
/// closures are typed by what they return.
#[derive(Debug, Clone, Copy)]
pub enum TypeKind<'src> {
    Ident(Ident<'src>),
    Int,
    Float,
    String,
    Bool,
    Void,
}

#[derive(Debug, Clone, Copy)]
pub struct Type<'src> {
    pub kind: TypeKind<'src>,
}

pub struct Param<'src> {
    pub name: Ident<'src>,
    pub ty: TypeKind<'src>,
    pub default: Option<Expr<'src>>,
}

pub struct Block<'src> {
    pub statements: Vec<Statement<'src>>,
}

pub struct Function<'src> {
    pub name: String,
    pub params: Vec<Param<'src>>,
    pub ret_ty: TypeKind<'src>,
    pub body: Block<'src>,
    pub public: bool,
}

pub struct EnumVariant<'src> {
    pub name: Ident<'src>,
    pub fields: Vec<Type<'src>>,
}

pub struct Struct<'src> {
    pub name: Ident<'src>,
    pub fields: Vec<(Ident<'src>, Type<'src>)>,
    pub public: bool,
}

pub struct Enum<'src> {
    pub name: Ident<'src>,
    pub variants: Vec<EnumVariant<'src>>,
    pub public: bool,
}

pub enum Statement<'src> {
    Let { name: Ident<'src>, expr: Expr<'src>, mutable: bool },
    Assign { name: Ident<'src>, expr: Expr<'src> },
    Return { expr: Option<Expr<'src>> },
    Function(Function<'src>),
    Struct(Struct<'src>),
    Enum(Enum<'src>),
    Expr(Expr<'src>),
    ForLoop { cond: Option<Expr<'src>>, block: Block<'src> },
    Break,
    Continue,
}

pub struct UseImport<'src> {
    pub module: Ident<'src>,
    pub alias: Option<Ident<'src>>,
}

pub enum Declaration<'src> {
    Struct(Struct<'src>),
    Enum(Enum<'src>),
    Function(Function<'src>),
    Use { imports: Vec<UseImport<'src>> },
}

} // verus!
