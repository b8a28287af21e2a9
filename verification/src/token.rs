//! Tokens produced by the lexer.

use crate::source_span::Span;
use vstd::prelude::*;
use vstd::string::*;

verus! {

#[derive(Debug, PartialEq, Eq, Clone, Copy, Structural)]
pub enum TokenKind {
    // Keywords
    /// `fn` keyword
    Fn,
    /// `let` keyword
    Let,
    /// `return` keyword
    Return,
    /// `if` keyword
    If,
    /// `for` keyword
    For,
    /// `break` keyword
    Break,
    /// `continue` keyword
    Continue,
    /// `in` keyword
    In,
    /// `is` keyword
    Is,
    /// `use` keyword
    Use,
    /// `public` keyword
    Public,
    /// `internal` keyword
    Internal,
    /// `private` keyword
    Private,
    /// `none` keyword
    None_,
    /// `try` keyword
    Try,
    /// `catch` keyword
    Catch,
    /// `throw` keyword
    Throw,
    /// `struct` keyword
    Struct,
    /// `enum` keyword
    Enum,
    /// `and` keyword
    And,
    /// `or` keyword
    Or,
    /// `mut` keyword
    Mut,
    /// `on` keyword
    On,
    /// `impl` keyword
    Impl,
    /// `self` keyword
    Self_,

    /// Identifier
    Ident,

    // Literals
    /// Int literal, the str kept as it might parse differently based on the desired int type
    IntLiteral,
    /// Float literal
    FloatLiteral,
    /// Bool literal
    BoolLiteral,

    /// Start of string interpolation
    StringInterpolationStart,
    /// End of string interpolation
    StringInterpolationEnd,
    /// A string literal
    StringLiteral,

    // Structural
    /// token `_`
    Underscore,
    /// token `:`
    Colon,
    /// token `;`
    Semicolon,
    /// token `(`
    LParen,
    /// token `)`
    RParen,
    /// token `{`
    LBrace,
    /// token `}`
    RBrace,
    /// token `[`
    LBracket,
    /// token `]`
    RBracket,
    /// token `,`
    Comma,
    /// token `.`
    Dot,

    // Operators
    /// token `=`
    Eq,
    /// token `==`
    EqEq,
    /// token `!=`
    Neq,
    /// token `<`
    Lt,
    /// token `>`
    Gt,
    /// token `<=`
    LtEq,
    /// token `>=`
    GtEq,
    /// token `+`
    Plus,
    /// token `-`
    Minus,
    /// token `*`
    Star,
    /// token `**`
    StarStar,
    /// token `/`
    Slash,
    /// token `%`
    Percent,
    /// token `!`
    Bang,

    // Assignment operators
    /// token `+=`
    PlusEq,
    /// token `-=`
    MinusEq,
    /// token `*=`
    StarEq,
    /// token `/=`
    SlashEq,

    /// Whitespace
    Whitespace,

    /// Comments
    Comment,

    /// Non-tokens, but used for ast groups and tokens
    Declaration,
    Vis,
    Type,
    FnParameters,
    FnParameter,
    ReturnType,
    Block,
    Statement,
    Expression,
    Operator,
    ParenExpr,
    BinaryOp,

    Eof,
}

/// The text a token kind is shown as in messages.
pub open spec fn kind_text(kind: TokenKind) -> Seq<char> {
    match kind {
            TokenKind::Fn => "fn"@,
            TokenKind::Let => "let"@,
            TokenKind::Return => "return"@,
            TokenKind::If => "if"@,
            TokenKind::For => "for"@,
            TokenKind::Break => "break"@,
            TokenKind::Continue => "continue"@,
            TokenKind::In => "in"@,
            TokenKind::Is => "is"@,
            TokenKind::Use => "use"@,
            TokenKind::Public => "public"@,
            TokenKind::Internal => "internal"@,
            TokenKind::Private => "private"@,
            TokenKind::None_ => "none"@,
            TokenKind::Try => "try"@,
            TokenKind::Catch => "catch"@,
            TokenKind::Throw => "throw"@,
            TokenKind::Struct => "struct"@,
            TokenKind::Enum => "enum"@,
            TokenKind::And => "and"@,
            TokenKind::Or => "or"@,
            TokenKind::Mut => "mut"@,
            TokenKind::On => "on"@,
            TokenKind::Impl => "impl"@,
            TokenKind::Self_ => "self"@,
            TokenKind::Ident => "identifier"@,
            TokenKind::IntLiteral => "int literal"@,
            TokenKind::FloatLiteral => "float literal"@,
            TokenKind::BoolLiteral => "bool literal"@,
            TokenKind::StringInterpolationStart => "\""@,
            TokenKind::StringInterpolationEnd => "\""@,
            TokenKind::StringLiteral => "string literal"@,
            TokenKind::Underscore => "_"@,
            TokenKind::Colon => ":"@,
            TokenKind::Semicolon => ";"@,
            TokenKind::LParen => "("@,
            TokenKind::RParen => ")"@,
            TokenKind::LBrace => "{"@,
            TokenKind::RBrace => "}"@,
            TokenKind::LBracket => "["@,
            TokenKind::RBracket => "]"@,
            TokenKind::Comma => ","@,
            TokenKind::Dot => "."@,
            TokenKind::Eq => "="@,
            TokenKind::EqEq => "=="@,
            TokenKind::Neq => "!="@,
            TokenKind::Lt => "<"@,
            TokenKind::Gt => ">"@,
            TokenKind::LtEq => "<="@,
            TokenKind::GtEq => ">="@,
            TokenKind::Plus => "+"@,
            TokenKind::Minus => "-"@,
            TokenKind::Star => "*"@,
            TokenKind::StarStar => "**"@,
            TokenKind::Slash => "/"@,
            TokenKind::Percent => "%"@,
            TokenKind::Bang => "!"@,
            TokenKind::PlusEq => "+="@,
            TokenKind::MinusEq => "-="@,
            TokenKind::StarEq => "*="@,
            TokenKind::SlashEq => "/="@,
            TokenKind::Whitespace => "whitespace"@,
            TokenKind::Comment => "comment"@,
            TokenKind::Declaration => "declaration"@,
            TokenKind::Vis => "visibility"@,
            TokenKind::Type => "type"@,
            TokenKind::FnParameters => "function parameters"@,
            TokenKind::FnParameter => "function parameter"@,
            TokenKind::ReturnType => "function return type"@,
            TokenKind::Block => "block"@,
            TokenKind::Statement => "statement"@,
            TokenKind::Expression => "expression"@,
            TokenKind::Operator => "operator"@,
            TokenKind::ParenExpr => "parenthesised expression"@,
            TokenKind::BinaryOp => "binary oparation"@,
            TokenKind::Eof => "EOF"@,
    }
}

/// The binding precedence of an operator token; zero for every other token.
pub open spec fn spec_precedence(kind: TokenKind) -> u8 {
    match kind {
        TokenKind::Eq | TokenKind::PlusEq | TokenKind::MinusEq | TokenKind::StarEq
        | TokenKind::SlashEq => 1,
        TokenKind::EqEq => 4,
        TokenKind::Lt | TokenKind::Gt => 5,
        TokenKind::LtEq | TokenKind::GtEq => 6,
        TokenKind::Plus | TokenKind::Minus => 7,
        TokenKind::Star | TokenKind::Slash => 8,
        TokenKind::Bang => 9,
        TokenKind::Dot => 10,
        _ => 0,
    }
}

/// The tokens that can stand between the two operands of a binary expression.
pub open spec fn spec_is_infix_operator(kind: TokenKind) -> bool {
    match kind {
        TokenKind::And | TokenKind::Or | TokenKind::Plus | TokenKind::Minus | TokenKind::Star
        | TokenKind::Slash | TokenKind::EqEq | TokenKind::Lt | TokenKind::LtEq | TokenKind::Gt
        | TokenKind::GtEq => true,
        _ => false,
    }
}

impl TokenKind {
    /// The text the token kind is shown as in messages.
    pub fn as_str(&self) -> (s: &'static str)
        ensures
            s@ == kind_text(*self),
    {
        match self {
            TokenKind::Fn => "fn",
            TokenKind::Let => "let",
            TokenKind::Return => "return",
            TokenKind::If => "if",
            TokenKind::For => "for",
            TokenKind::Break => "break",
            TokenKind::Continue => "continue",
            TokenKind::In => "in",
            TokenKind::Is => "is",
            TokenKind::Use => "use",
            TokenKind::Public => "public",
            TokenKind::Internal => "internal",
            TokenKind::Private => "private",
            TokenKind::None_ => "none",
            TokenKind::Try => "try",
            TokenKind::Catch => "catch",
            TokenKind::Throw => "throw",
            TokenKind::Struct => "struct",
            TokenKind::Enum => "enum",
            TokenKind::And => "and",
            TokenKind::Or => "or",
            TokenKind::Mut => "mut",
            TokenKind::On => "on",
            TokenKind::Impl => "impl",
            TokenKind::Self_ => "self",
            TokenKind::Ident => "identifier",
            TokenKind::IntLiteral => "int literal",
            TokenKind::FloatLiteral => "float literal",
            TokenKind::BoolLiteral => "bool literal",
            TokenKind::StringInterpolationStart => "\"",
            TokenKind::StringInterpolationEnd => "\"",
            TokenKind::StringLiteral => "string literal",
            TokenKind::Underscore => "_",
            TokenKind::Colon => ":",
            TokenKind::Semicolon => ";",
            TokenKind::LParen => "(",
            TokenKind::RParen => ")",
            TokenKind::LBrace => "{",
            TokenKind::RBrace => "}",
            TokenKind::LBracket => "[",
            TokenKind::RBracket => "]",
            TokenKind::Comma => ",",
            TokenKind::Dot => ".",
            TokenKind::Eq => "=",
            TokenKind::EqEq => "==",
            TokenKind::Neq => "!=",
            TokenKind::Lt => "<",
            TokenKind::Gt => ">",
            TokenKind::LtEq => "<=",
            TokenKind::GtEq => ">=",
            TokenKind::Plus => "+",
            TokenKind::Minus => "-",
            TokenKind::Star => "*",
            TokenKind::StarStar => "**",
            TokenKind::Slash => "/",
            TokenKind::Percent => "%",
            TokenKind::Bang => "!",
            TokenKind::PlusEq => "+=",
            TokenKind::MinusEq => "-=",
            TokenKind::StarEq => "*=",
            TokenKind::SlashEq => "/=",
            TokenKind::Whitespace => "whitespace",
            TokenKind::Comment => "comment",
            TokenKind::Declaration => "declaration",
            TokenKind::Vis => "visibility",
            TokenKind::Type => "type",
            TokenKind::FnParameters => "function parameters",
            TokenKind::FnParameter => "function parameter",
            TokenKind::ReturnType => "function return type",
            TokenKind::Block => "block",
            TokenKind::Statement => "statement",
            TokenKind::Expression => "expression",
            TokenKind::Operator => "operator",
            TokenKind::ParenExpr => "parenthesised expression",
            TokenKind::BinaryOp => "binary oparation",
            TokenKind::Eof => "EOF",
        }
    }

    /// The text the token kind is shown as in messages, as an owned string.
    pub fn to_string(&self) -> (s: String)
        ensures
            s@ == kind_text(*self),
    {
        String::from_str(self.as_str())
    }

    pub fn precedence(&self) -> (p: u8)
        ensures
            p == spec_precedence(*self),
    {
        match self {
            TokenKind::Eq | TokenKind::PlusEq | TokenKind::MinusEq | TokenKind::StarEq
            | TokenKind::SlashEq => 1,
            TokenKind::EqEq => 4,
            TokenKind::Lt | TokenKind::Gt => 5,
            TokenKind::LtEq | TokenKind::GtEq => 6,
            TokenKind::Plus | TokenKind::Minus => 7,
            TokenKind::Star | TokenKind::Slash => 8,
            TokenKind::Bang => 9,
            TokenKind::Dot => 10,
            _ => 0,
        }
    }

    /// Whether the token is one of the infix operators.
    pub fn is_infix_operator(&self) -> (b: bool)
        ensures
            b == spec_is_infix_operator(*self),
    {
        match self {
            TokenKind::And | TokenKind::Or | TokenKind::Plus | TokenKind::Minus
            | TokenKind::Star | TokenKind::Slash | TokenKind::EqEq | TokenKind::Lt
            | TokenKind::LtEq | TokenKind::Gt | TokenKind::GtEq => true,
            _ => false,
        }
    }
}

/// The infix operators, in the order the parser tries them.
pub fn infix_operators() -> (v: Vec<TokenKind>)
    ensures
        v@ == seq![
            TokenKind::And,
            TokenKind::Or,
            TokenKind::Plus,
            TokenKind::Minus,
            TokenKind::Star,
            TokenKind::Slash,
            TokenKind::EqEq,
            TokenKind::Lt,
            TokenKind::LtEq,
            TokenKind::Gt,
            TokenKind::GtEq,
        ],
{
    let v = vec![
        TokenKind::And,
        TokenKind::Or,
        TokenKind::Plus,
        TokenKind::Minus,
        TokenKind::Star,
        TokenKind::Slash,
        TokenKind::EqEq,
        TokenKind::Lt,
        TokenKind::LtEq,
        TokenKind::Gt,
        TokenKind::GtEq,
    ];
    assert(v@ =~= seq![
        TokenKind::And,
        TokenKind::Or,
        TokenKind::Plus,
        TokenKind::Minus,
        TokenKind::Star,
        TokenKind::Slash,
        TokenKind::EqEq,
        TokenKind::Lt,
        TokenKind::LtEq,
        TokenKind::Gt,
        TokenKind::GtEq,
    ]);
    v
}

/// Every infix operator has a positive precedence except `and` and `or`.
pub proof fn law_infix_operators_bind(kind: TokenKind)
    requires
        spec_is_infix_operator(kind),
        kind != TokenKind::And,
        kind != TokenKind::Or,
    ensures
        spec_precedence(kind) > 0,
{
}

#[derive(Debug, Clone, Copy)]
pub struct Token<'src> {
    pub kind: TokenKind,
    pub span: Span<'src>,
}

} // verus!
