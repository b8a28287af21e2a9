//! The syntax tree after semantic analysis: every expression carries its
//! type, and functions carry their mangled names.

use crate::parser_ast;
use crate::source_span::Span;
use crate::utils::str_eq;
use vstd::prelude::*;
use vstd::string::*;

verus! {

pub struct Program<'src> {
    pub declarations: Vec<Declaration<'src>>,
}

#[derive(Debug, Clone, Copy)]
pub struct Ident<'src> {
    pub inner: &'src str,
    pub span: Span<'src>,
}

impl<'src> Ident<'src> {
    pub fn from_parser(value: parser_ast::Ident<'src>) -> (i: Self)
        ensures
            i.inner == value.inner,
            i.span == value.span,
    {
        Ident { inner: value.inner, span: value.span }
    }
}

#[derive(Debug, Clone, Copy, PartialEq, Eq, Hash, Structural)]
pub enum BinaryOp {
    // Arithmetic
    Add,
    Sub,
    Mul,
    Div,
    Mod,
    Exp,
    // Comparison
    Eq,
    Ne,
    Lt,
    Gt,
    LtEq,
    GtEq,
    // Logical
    And,
    Or,
}

/// The analyzed operator for a parsed one.
pub open spec fn spec_binary_from(value: parser_ast::BinaryOp) -> BinaryOp {
    match value {
        parser_ast::BinaryOp::Add => BinaryOp::Add,
        parser_ast::BinaryOp::Sub => BinaryOp::Sub,
        parser_ast::BinaryOp::Mul => BinaryOp::Mul,
        parser_ast::BinaryOp::Div => BinaryOp::Div,
        parser_ast::BinaryOp::Mod => BinaryOp::Mod,
        parser_ast::BinaryOp::Exp => BinaryOp::Exp,
        parser_ast::BinaryOp::Eq => BinaryOp::Eq,
        parser_ast::BinaryOp::Ne => BinaryOp::Ne,
        parser_ast::BinaryOp::Lt => BinaryOp::Lt,
        parser_ast::BinaryOp::Gt => BinaryOp::Gt,
        parser_ast::BinaryOp::LtEq => BinaryOp::LtEq,
        parser_ast::BinaryOp::GtEq => BinaryOp::GtEq,
        parser_ast::BinaryOp::And => BinaryOp::And,
        parser_ast::BinaryOp::Or => BinaryOp::Or,
    }
}

impl BinaryOp {
    pub fn from_parser(value: parser_ast::BinaryOp) -> (r: Self)
        ensures
            r == spec_binary_from(value),
    {
        match value {
            parser_ast::BinaryOp::Add => BinaryOp::Add,
            parser_ast::BinaryOp::Sub => BinaryOp::Sub,
            parser_ast::BinaryOp::Mul => BinaryOp::Mul,
            parser_ast::BinaryOp::Div => BinaryOp::Div,
            parser_ast::BinaryOp::Mod => BinaryOp::Mod,
            parser_ast::BinaryOp::Exp => BinaryOp::Exp,
            parser_ast::BinaryOp::Eq => BinaryOp::Eq,
            parser_ast::BinaryOp::Ne => BinaryOp::Ne,
            parser_ast::BinaryOp::Lt => BinaryOp::Lt,
            parser_ast::BinaryOp::Gt => BinaryOp::Gt,
            parser_ast::BinaryOp::LtEq => BinaryOp::LtEq,
            parser_ast::BinaryOp::GtEq => BinaryOp::GtEq,
            parser_ast::BinaryOp::And => BinaryOp::And,
            parser_ast::BinaryOp::Or => BinaryOp::Or,
        }
    }
}

#[derive(Debug, Clone, Copy, PartialEq, Eq, Hash, Structural)]
pub enum UnaryOp {
    Neg,
    Not,
}

pub struct Call<'src> {
    pub callee: String,
    pub args: Vec<Expr<'src>>,
}

/// A closure: a function written as an expression.
pub struct Closure<'src> {
    pub params: Vec<Param<'src>>,
    pub ret_ty: TypeKind<'src>,
    pub body: Block<'src>,
}

pub enum Expr<'src> {
    IntLiteral(i64),
    /// A float literal, kept as the text it was written as.
    FloatLiteral(&'src str),
    BoolLiteral(bool),
    /// None if empty string
    StringLiteral(Option<&'src str>),
    StringInterpolation(Vec<Expr<'src>>),
    Ident { ident: Ident<'src>, ty: TypeKind<'src> },
    Binary { op: BinaryOp, left: Box<Expr<'src>>, right: Box<Expr<'src>>, ty: TypeKind<'src> },
    // Unary operations
    Unary { op: UnaryOp, expr: Box<Expr<'src>>, ty: TypeKind<'src> },
    Call { call: Call<'src>, ty: TypeKind<'src> },
    StructInstance {
        name: Ident<'src>,
        fields: Vec<(Ident<'src>, Expr<'src>)>,  // field name -> value
    },
    Member { object: Box<Expr<'src>>, field: Ident<'src>, ty: TypeKind<'src> },
    If {
        ty: TypeKind<'src>,
        cond: Box<Expr<'src>>,
        then: Block<'src>,
        else_if_blocks: Vec<(Expr<'src>, Block<'src>)>,
        else_block: Option<Block<'src>>,
    },
    Closure(Closure<'src>),
}

/// The type of an analyzed expression. A struct instance has no type yet.
pub open spec fn expr_ty<'src>(e: Expr<'src>) -> TypeKind<'src> {
    match e {
        Expr::IntLiteral(_) => TypeKind::Int,
        Expr::FloatLiteral(_) => TypeKind::Float,
        Expr::BoolLiteral(_) => TypeKind::Bool,
        Expr::StringLiteral(_) => TypeKind::String,
        Expr::StringInterpolation(_) => TypeKind::String,
        Expr::Ident { ty, .. } => ty,
        Expr::Binary { ty, .. } => ty,
        Expr::Unary { ty, .. } => ty,
        Expr::Call { ty, .. } => ty,
        Expr::StructInstance { .. } => TypeKind::Void,
        Expr::Member { ty, .. } => ty,
        Expr::If { ty, .. } => ty,
        Expr::Closure(c) => c.ret_ty,
    }
}

impl<'src> Expr<'src> {
    pub fn ty(&self) -> (t: TypeKind<'src>)
        requires
            !(self is StructInstance),
        ensures
            t == expr_ty(*self),
    {
        match self {
            Expr::IntLiteral(_) => TypeKind::Int,
            Expr::FloatLiteral(_) => TypeKind::Float,
            Expr::BoolLiteral(_) => TypeKind::Bool,
            Expr::StringLiteral(_) => TypeKind::String,
            Expr::StringInterpolation(_) => TypeKind::String,
            Expr::Ident { ty, .. } => *ty,
            Expr::Binary { ty, .. } => *ty,
            Expr::Unary { ty, .. } => *ty,
            Expr::Call { ty, .. } => *ty,
            Expr::StructInstance { .. } => vstd::pervasive::unreached(),
            Expr::Member { ty, .. } => *ty,
            Expr::If { ty, .. } => *ty,
            Expr::Closure(c) => c.ret_ty,
        }
    }
}

#[derive(Debug, Clone, Copy)]
pub enum TypeKind<'src> {
    Ident(Ident<'src>),
    Int,
    Float,
    String,
    Bool,
    Void,
}

/// The name a type is shown as in messages.
pub open spec fn type_text<'src>(t: TypeKind<'src>) -> Seq<char> {
    match t {
        TypeKind::Ident(ident) => ident.inner@,
        TypeKind::Int => "int"@,
        TypeKind::Float => "float"@,
        TypeKind::String => "string"@,
        TypeKind::Bool => "bool"@,
        TypeKind::Void => "void"@,
    }
}

/// Two types are the same type: the same builtin type, or named types with
/// the same name written at the same place.
pub open spec fn same_type<'src>(a: TypeKind<'src>, b: TypeKind<'src>) -> bool {
    match (a, b) {
        (TypeKind::Ident(x), TypeKind::Ident(y)) => x.inner@ == y.inner@ && x.span.lo() == y.span.lo()
            && x.span.hi() == y.span.hi() && x.span.file_name() == y.span.file_name()
            && x.span.text() == y.span.text(),
        (TypeKind::Int, TypeKind::Int) => true,
        (TypeKind::Float, TypeKind::Float) => true,
        (TypeKind::String, TypeKind::String) => true,
        (TypeKind::Bool, TypeKind::Bool) => true,
        (TypeKind::Void, TypeKind::Void) => true,
        _ => false,
    }
}

impl<'src> TypeKind<'src> {
    /// The name the type is shown as in messages.
    pub fn to_string(&self) -> (s: String)
        ensures
            s@ == type_text(*self),
    {
        match self {
            TypeKind::Ident(ident) => String::from_str(ident.inner),
            TypeKind::Int => String::from_str("int"),
            TypeKind::Float => String::from_str("float"),
            TypeKind::String => String::from_str("string"),
            TypeKind::Bool => String::from_str("bool"),
            TypeKind::Void => String::from_str("void"),
        }
    }

    /// Whether the two types are the same type.
    pub fn same_as(&self, other: &TypeKind<'src>) -> (r: bool)
        ensures
            r == same_type(*self, *other),
    {
        match (self, other) {
            (TypeKind::Ident(x), TypeKind::Ident(y)) => str_eq(x.inner, y.inner) && x.span.start()
                == y.span.start() && x.span.end() == y.span.end() && str_eq(
                x.span.file(),
                y.span.file(),
            ) && str_eq(x.span.source(), y.span.source()),
            (TypeKind::Int, TypeKind::Int) => true,
            (TypeKind::Float, TypeKind::Float) => true,
            (TypeKind::String, TypeKind::String) => true,
            (TypeKind::Bool, TypeKind::Bool) => true,
            (TypeKind::Void, TypeKind::Void) => true,
            _ => false,
        }
    }

    pub fn is_bool(&self) -> (r: bool)
        ensures
            r == (*self is Bool),
    {
        match self {
            TypeKind::Bool => true,
            _ => false,
        }
    }
}

#[derive(Debug, Clone, Copy)]
pub struct Type<'src> {
    pub span: Span<'src>,
    pub kind: TypeKind<'src>,
}

pub struct Param<'src> {
    pub span: Span<'src>,
    pub name: Ident<'src>,
    pub ty: Type<'src>,
    pub default: Option<Expr<'src>>,
}

pub struct Block<'src> {
    pub span: Span<'src>,
    pub statements: Vec<Statement<'src>>,
    pub ty: TypeKind<'src>,
}

#[derive(Debug, Clone, Copy, PartialEq, Eq, Structural)]
pub enum Vis {
    Public,
    Internal,
    Private,
}

/// The analyzed visibility for a parsed one.
pub open spec fn spec_vis_from(value: parser_ast::Vis) -> Vis {
    match value {
        parser_ast::Vis::Public => Vis::Public,
        parser_ast::Vis::Internal => Vis::Internal,
        parser_ast::Vis::Private => Vis::Private,
    }
}

impl Vis {
    pub fn from_parser(value: parser_ast::Vis) -> (v: Self)
        ensures
            v == spec_vis_from(value),
    {
        match value {
            parser_ast::Vis::Public => Vis::Public,
            parser_ast::Vis::Internal => Vis::Internal,
            parser_ast::Vis::Private => Vis::Private,
        }
    }
}

pub struct Function<'src> {
    pub span: Span<'src>,
    pub name: String,
    pub params: Vec<Param<'src>>,
    pub ret_ty: TypeKind<'src>,
    pub body: Block<'src>,
    pub vis: Vis,
}

impl<'src> Function<'src> {
    pub fn set_vis(self, vis: Vis) -> (f: Self)
        ensures
            f.vis == vis,
            f.span == self.span,
            f.name == self.name,
            f.params == self.params,
            f.ret_ty == self.ret_ty,
            f.body == self.body,
    {
        Function { vis, ..self }
    }
}

pub struct EnumVariant<'src> {
    pub span: Span<'src>,
    pub name: Ident<'src>,
    pub fields: Vec<Type<'src>>,
}

pub struct Struct<'src> {
    pub span: Span<'src>,
    pub name: Ident<'src>,
    pub fields: Vec<(Ident<'src>, Type<'src>)>,
    pub vis: Vis,
}

pub struct Enum<'src> {
    pub span: Span<'src>,
    pub name: Ident<'src>,
    pub variants: Vec<EnumVariant<'src>>,
    pub vis: Vis,
}

pub enum Statement<'src> {
    Let {
        name: Ident<'src>,
        ty: TypeKind<'src>,
        expr: Expr<'src>,
        mutable: bool,
        span: Span<'src>,
    },
    Assign { name: Ident<'src>, expr: Expr<'src>, span: Span<'src> },
    Return { span: Span<'src>, expr: Option<Expr<'src>>, ty: TypeKind<'src> },
    Function(Function<'src>),
    Struct(Struct<'src>),
    Enum(Enum<'src>),
    Expr(Expr<'src>),
    ForLoop { span: Span<'src>, cond: Option<Expr<'src>>, block: Block<'src> },
    Break { span: Span<'src> },
    Continue { span: Span<'src> },
}

/// The span of a statement; an expression statement has none.
pub open spec fn statement_span<'src>(s: Statement<'src>) -> Span<'src>
    recommends
        !(s is Expr),
{
    match s {
        Statement::Let { span, .. } => span,
        Statement::Assign { span, .. } => span,
        Statement::Return { span, .. } => span,
        Statement::Function(function) => function.span,
        Statement::Struct(s) => s.span,
        Statement::Enum(e) => e.span,
        Statement::ForLoop { span, .. } => span,
        Statement::Break { span } => span,
        Statement::Continue { span } => span,
        Statement::Expr(_) => arbitrary(),
    }
}

impl<'src> Statement<'src> {
    pub fn span(&self) -> (s: Span<'src>)
        requires
            !(self is Expr),
        ensures
            s == statement_span(*self),
    {
        match self {
            Statement::Let { span, .. } => *span,
            Statement::Assign { span, .. } => *span,
            Statement::Return { span, .. } => *span,
            Statement::Function(function) => function.span,
            Statement::Struct(s) => s.span,
            Statement::Enum(e) => e.span,
            Statement::Expr(_) => vstd::pervasive::unreached(),
            Statement::ForLoop { span, .. } => *span,
            Statement::Break { span } => *span,
            Statement::Continue { span } => *span,
        }
    }
}

pub struct UseImport<'src> {
    pub module: Ident<'src>,
    pub alias: Option<Ident<'src>>,
}

pub enum Declaration<'src> {
    Struct(Struct<'src>),
    Enum(Enum<'src>),
    Function(Function<'src>),
    Use { imports: Vec<UseImport<'src>> },
}

/// Being the same type is reflexive.
pub proof fn law_same_type_reflexive<'src>(a: TypeKind<'src>)
    ensures
        same_type(a, a),
{
}

/// Being the same type is symmetric.
pub proof fn law_same_type_symmetric<'src>(a: TypeKind<'src>, b: TypeKind<'src>)
    ensures
        same_type(a, b) == same_type(b, a),
{
}

/// Being the same type is transitive.
pub proof fn law_same_type_transitive<'src>(a: TypeKind<'src>, b: TypeKind<'src>, c: TypeKind<'src>)
    requires
        same_type(a, b),
        same_type(b, c),
    ensures
        same_type(a, c),
{
}

} // verus!
