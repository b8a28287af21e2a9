//! The syntax tree after type checking, as the single-module type checker
//! builds it: every expression carries its type.

use crate::parser_ast;
use crate::source_span::Span;
use vstd::prelude::*;

verus! {

pub struct Program<'source> {
    pub declarations: Vec<Declaration<'source>>,
}

#[derive(Debug, Clone, Copy)]
pub struct Ident<'source> {
    pub inner: &'source str,
    pub span: Span<'source>,
}

impl<'source> Ident<'source> {
    pub fn from_parser(value: parser_ast::Ident<'source>) -> (i: Self)
        ensures
            i.inner == value.inner,
            i.span == value.span,
    {
        Ident { inner: value.inner, span: value.span }
    }
}

#[derive(Debug, Clone, Copy, PartialEq, Eq, Hash, Structural)]
pub enum BinaryOp {
    // Arithmetic
    Add,
    Sub,
    Mul,
    Div,
    Mod,
    Exp,
    // Comparison
    Eq,
    Ne,
    Lt,
    Gt,
    LtEq,
    GtEq,
    // Logical
    And,
    Or,
}

/// The operator for a parsed one.
pub open spec fn spec_binary_from(value: parser_ast::BinaryOp) -> BinaryOp {
    match value {
        parser_ast::BinaryOp::Add => BinaryOp::Add,
        parser_ast::BinaryOp::Sub => BinaryOp::Sub,
        parser_ast::BinaryOp::Mul => BinaryOp::Mul,
        parser_ast::BinaryOp::Div => BinaryOp::Div,
        parser_ast::BinaryOp::Mod => BinaryOp::Mod,
        parser_ast::BinaryOp::Exp => BinaryOp::Exp,
        parser_ast::BinaryOp::Eq => BinaryOp::Eq,
        parser_ast::BinaryOp::Ne => BinaryOp::Ne,
        parser_ast::BinaryOp::Lt => BinaryOp::Lt,
        parser_ast::BinaryOp::Gt => BinaryOp::Gt,
        parser_ast::BinaryOp::LtEq => BinaryOp::LtEq,
        parser_ast::BinaryOp::GtEq => BinaryOp::GtEq,
        parser_ast::BinaryOp::And => BinaryOp::And,
        parser_ast::BinaryOp::Or => BinaryOp::Or,
    }
}

impl BinaryOp {
    pub fn from_parser(value: parser_ast::BinaryOp) -> (r: Self)
        ensures
            r == spec_binary_from(value),
    {
        match value {
            parser_ast::BinaryOp::Add => BinaryOp::Add,
            parser_ast::BinaryOp::Sub => BinaryOp::Sub,
            parser_ast::BinaryOp::Mul => BinaryOp::Mul,
            parser_ast::BinaryOp::Div => BinaryOp::Div,
            parser_ast::BinaryOp::Mod => BinaryOp::Mod,
            parser_ast::BinaryOp::Exp => BinaryOp::Exp,
            parser_ast::BinaryOp::Eq => BinaryOp::Eq,
            parser_ast::BinaryOp::Ne => BinaryOp::Ne,
            parser_ast::BinaryOp::Lt => BinaryOp::Lt,
            parser_ast::BinaryOp::Gt => BinaryOp::Gt,
            parser_ast::BinaryOp::LtEq => BinaryOp::LtEq,
            parser_ast::BinaryOp::GtEq => BinaryOp::GtEq,
            parser_ast::BinaryOp::And => BinaryOp::And,
            parser_ast::BinaryOp::Or => BinaryOp::Or,
        }
    }
}

#[derive(Debug, Clone, Copy, PartialEq, Eq, Hash, Structural)]
pub enum UnaryOp {
    Neg,
    Not,
}

pub struct Call<'source> {
    pub callee: Box<Expr<'source>>,
    pub args: Vec<Expr<'source>>,
}

pub enum Expr<'source> {
    IntLiteral(i64),
    /// A float literal, kept as the text it was written as.
    FloatLiteral(&'source str),
    BoolLiteral(bool),
    /// None if empty string
    StringLiteral(Option<&'source str>),
    StringInterpolation(Vec<Expr<'source>>),
    Ident { ident: Ident<'source>, ty: TypeKind<'source> },
    Binary { op: BinaryOp, left: Box<Expr<'source>>, right: Box<Expr<'source>>, ty: TypeKind<'source> },
    // Unary operations
    Unary { op: UnaryOp, expr: Box<Expr<'source>>, ty: TypeKind<'source> },
    Call { call: Call<'source>, ty: TypeKind<'source> },
    StructInstance {
        name: Ident<'source>,
        fields: Vec<(Ident<'source>, Expr<'source>)>,  // field name -> value
    },
    Member { object: Box<Expr<'source>>, field: Ident<'source>, ty: TypeKind<'source> },
}

/// The type of an expression; a struct instance has none yet.
pub open spec fn expr_ty<'source>(e: Expr<'source>) -> TypeKind<'source> {
    match e {
        Expr::IntLiteral(_) => TypeKind::Int,
        Expr::FloatLiteral(_) => TypeKind::Float,
        Expr::BoolLiteral(_) => TypeKind::Bool,
        Expr::StringLiteral(_) => TypeKind::String,
        Expr::StringInterpolation(_) => TypeKind::String,
        Expr::Ident { ty, .. } => ty,
        Expr::Binary { ty, .. } => ty,
        Expr::Unary { ty, .. } => ty,
        Expr::Call { ty, .. } => ty,
        Expr::StructInstance { .. } => TypeKind::Void,
        Expr::Member { ty, .. } => ty,
    }
}

impl<'source> Expr<'source> {
    pub fn ty(&self) -> (t: &TypeKind<'source>)
        requires
            !(self is StructInstance),
        ensures
            *t == expr_ty(*self),
    {
        match self {
            Expr::IntLiteral(_) => &TypeKind::Int,
            Expr::FloatLiteral(_) => &TypeKind::Float,
            Expr::BoolLiteral(_) => &TypeKind::Bool,
            Expr::StringLiteral(_) => &TypeKind::String,
            Expr::StringInterpolation(_) => &TypeKind::String,
            Expr::Ident { ty, .. } => ty,
            Expr::Binary { ty, .. } => ty,
            Expr::Unary { ty, .. } => ty,
            Expr::Call { ty, .. } => ty,
            Expr::StructInstance { .. } => vstd::pervasive::unreached(),
            Expr::Member { ty, .. } => ty,
        }
    }
}

#[derive(Debug, Clone, Copy)]
pub enum TypeKind<'source> {
    Ident(Ident<'source>),
    Int,
    Float,
    String,
    Bool,
    Void,
}

/// The name a type is shown as in messages.
pub open spec fn type_text<'source>(t: TypeKind<'source>) -> Seq<char> {
    match t {
        TypeKind::Ident(ident) => ident.inner@,
        TypeKind::Int => "int"@,
        TypeKind::Float => "float"@,
        TypeKind::String => "string"@,
        TypeKind::Bool => "bool"@,
        TypeKind::Void => "void"@,
    }
}

impl<'source> TypeKind<'source> {
    /// The name the type is shown as in messages.
    pub fn to_string(&self) -> (s: String)
        ensures
            s@ == type_text(*self),
    {
        match self {
            TypeKind::Ident(ident) => String::from_str(ident.inner),
            TypeKind::Int => String::from_str("int"),
            TypeKind::Float => String::from_str("float"),
            TypeKind::String => String::from_str("string"),
            TypeKind::Bool => String::from_str("bool"),
            TypeKind::Void => String::from_str("void"),
        }
    }

    pub fn is_bool(&self) -> (r: bool)
        ensures
            r == (*self is Bool),
    {
        match self {
            TypeKind::Bool => true,
            _ => false,
        }
    }
}

#[derive(Debug, Clone, Copy)]
pub struct Type<'source> {
    pub span: Span<'source>,
    pub kind: TypeKind<'source>,
}

pub struct Param<'source> {
    pub span: Span<'source>,
    pub name: Ident<'source>,
    pub ty: Type<'source>,
    pub default: Option<Expr<'source>>,
}

pub struct Block<'source> {
    pub span: Span<'source>,
    pub statements: Vec<Statement<'source>>,
    pub ty: TypeKind<'source>,
}

#[derive(Debug, Clone, Copy, PartialEq, Eq, Structural)]
pub enum Vis {
    Public,
    Internal,
    Private,
}

/// The visibility for a parsed one.
pub open spec fn spec_vis_from(value: parser_ast::Vis) -> Vis {
    match value {
        parser_ast::Vis::Public => Vis::Public,
        parser_ast::Vis::Internal => Vis::Internal,
        parser_ast::Vis::Private => Vis::Private,
    }
}

impl Vis {
    pub fn from_parser(value: parser_ast::Vis) -> (v: Self)
        ensures
            v == spec_vis_from(value),
    {
        match value {
            parser_ast::Vis::Public => Vis::Public,
            parser_ast::Vis::Internal => Vis::Internal,
            parser_ast::Vis::Private => Vis::Private,
        }
    }
}

pub struct Function<'source> {
    pub span: Span<'source>,
    pub name: Ident<'source>,
    pub params: Vec<Param<'source>>,
    pub ret_ty: TypeKind<'source>,
    pub body: Block<'source>,
    pub vis: Vis,
}

impl<'source> Function<'source> {
    pub fn set_vis(self, vis: Vis) -> (f: Self)
        ensures
            f.vis == vis,
            f.span == self.span,
            f.name == self.name,
            f.params == self.params,
            f.ret_ty == self.ret_ty,
            f.body == self.body,
    {
        Function { vis, ..self }
    }
}

pub struct EnumVariant<'source> {
    pub span: Span<'source>,
    pub name: Ident<'source>,
    pub fields: Vec<Type<'source>>,
}

pub struct Struct<'source> {
    pub span: Span<'source>,
    pub name: Ident<'source>,
    pub fields: Vec<(Ident<'source>, Type<'source>)>,
    pub vis: Vis,
}

pub struct Enum<'source> {
    pub span: Span<'source>,
    pub name: Ident<'source>,
    pub variants: Vec<EnumVariant<'source>>,
    pub vis: Vis,
}

pub enum Statement<'source> {
    Let {
        name: Ident<'source>,
        ty: TypeKind<'source>,
        expr: Expr<'source>,
        mutable: bool,
        span: Span<'source>,
    },
    Return { span: Span<'source>, expr: Option<Expr<'source>>, ty: TypeKind<'source> },
    Function(Function<'source>),
    // Type definitions
    Struct(Struct<'source>),
    Enum(Enum<'source>),
    Expr(Expr<'source>),
}

/// The span of a statement; an expression statement has none.
pub open spec fn statement_span<'source>(s: Statement<'source>) -> Span<'source>
    recommends
        !(s is Expr),
{
    match s {
        Statement::Let { span, .. } => span,
        Statement::Return { span, .. } => span,
        Statement::Function(function) => function.span,
        Statement::Struct(s) => s.span,
        Statement::Enum(e) => e.span,
        Statement::Expr(_) => arbitrary(),
    }
}

impl<'source> Statement<'source> {
    pub fn span(&self) -> (s: Span<'source>)
        requires
            !(self is Expr),
        ensures
            s == statement_span(*self),
    {
        match self {
            Statement::Let { span, .. } => *span,
            Statement::Return { span, .. } => *span,
            Statement::Function(function) => function.span,
            Statement::Struct(s) => s.span,
            Statement::Enum(e) => e.span,
            Statement::Expr(_) => vstd::pervasive::unreached(),
        }
    }
}

pub struct UseImport<'source> {
    pub module: Ident<'source>,
    pub alias: Option<Ident<'source>>,
}

pub enum Declaration<'source> {
    Struct(Struct<'source>),
    Enum(Enum<'source>),
    Function(Function<'source>),
    Use { imports: Vec<UseImport<'source>> },
}

} // verus!
