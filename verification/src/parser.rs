//! The parser: it reads the tokens the lexer hands out and builds the
//! concrete syntax tree of a source file, reporting what it cannot read as
//! diagnostics.
//!
//! What the parser does is stated over the sequence of results the lexer
//! hands out (`parse_outcome`): the kinds of the nodes of the tree, in the
//! order they are made; the nodes with their depths, in the order of the
//! tree, which says which node stands inside which; and the diagnostics, in
//! the order they are reported.
//! `parse_outcome` is `None` on the inputs the parser cannot get through: a
//! construct it does not know yet, a builder call that fails, or a read past
//! the end of the tokens.

use crate::diagnostic::{Diagnostic, DiagnosticView, ElementView, IntoDiagnostic, LabelKind};
use crate::lexer::{is_eof_result, Lexer};
use crate::lexer_error::{lexer_error_view, LexerError};
use crate::source_span::Span;
use crate::syntax_tree::{
    builder_build,
    builder_checkpoint,
    builder_close,
    builder_close_at,
    builder_cursor,
    builder_kinds,
    builder_new,
    builder_nodes,
    builder_open,
    builder_open_node,
    builder_token,
    builder_marks,
    innermost,
    tree_kinds,
    tree_nodes,
    marks_after_wrap,
    wrap_nodes,
    Cst,
    CstBuilder,
};
use crate::token::{kind_text, spec_is_infix_operator, spec_precedence, Token, TokenKind};
use vstd::prelude::*;
use vstd::string::*;

verus! {

/// A result the lexer hands out.
pub type Lexed<'src> = Result<Token<'src>, LexerError<'src>>;

// ---------------------------------------------------------------------------
// Syntax errors
// ---------------------------------------------------------------------------

/// Something other than what was expected stood at `span`.
pub struct SyntaxError<'src> {
    pub span: Span<'src>,
    pub expected: String,
}

/// The diagnostic of a syntax error.
pub open spec fn syntax_error_view<'src>(span: Span<'src>, expected: Seq<char>) -> DiagnosticView<'src> {
    DiagnosticView {
        code: "E0003"@,
        span,
        message: "syntax error"@,
        elements: seq![
            ElementView::Label {
                message: "Syntax error: expected "@ + expected,
                span,
                kind: LabelKind::Plain,
            },
        ],
    }
}

impl<'src> IntoDiagnostic<'src> for SyntaxError<'src> {
    fn into_diagnostic(&self) -> (d: Diagnostic<'src>)
        ensures
            d@ == syntax_error_view(self.span, self.expected@),
    {
        let mut label = String::from_str("Syntax error: expected ");
        label.append(self.expected.as_str());
        let d = Diagnostic::new("E0003", self.span, "syntax error").with_label(
            label.as_str(),
            self.span,
        );
        assert(d.elements_view() =~= seq![
            ElementView::Label {
                message: "Syntax error: expected "@ + self.expected@,
                span: self.span,
                kind: LabelKind::Plain,
            },
        ]);
        d
    }
}

/// A `self` parameter in a function that is not a method.
pub struct SelfParamInUnassociatedFunction<'src> {
    pub span: Span<'src>,
}

/// The help text of the diagnostic for a misplaced `self` parameter.
pub open spec fn self_param_help() -> Seq<char> {
    "write the function as a method on a type: fn on MyType my_function(..."@
}

/// The label of the diagnostic for a misplaced `self` parameter.
pub open spec fn self_param_label() -> Seq<char> {
    "`self` parameter is only allowed in associated functions
              associated functions are those in `impl` or `trait` definitions"@
}

impl<'src> IntoDiagnostic<'src> for SelfParamInUnassociatedFunction<'src> {
    fn into_diagnostic(&self) -> (d: Diagnostic<'src>)
        ensures
            d@ == (DiagnosticView {
                code: "E0004"@,
                span: self.span,
                message: "`self` parameter is only allowed in associated functions."@,
                elements: seq![
                    ElementView::Help(self_param_help()),
                    ElementView::Label {
                        message: self_param_label(),
                        span: self.span,
                        kind: LabelKind::Plain,
                    },
                ],
            }),
    {
        let d = Diagnostic::new(
            "E0004",
            self.span,
            "`self` parameter is only allowed in associated functions.",
        ).with_help("write the function as a method on a type: fn on MyType my_function(...").with_label(
            "`self` parameter is only allowed in associated functions
              associated functions are those in `impl` or `trait` definitions",
            self.span,
        );
        assert(d.elements_view() =~= seq![
            ElementView::Help(self_param_help()),
            ElementView::Label {
                message: self_param_label(),
                span: self.span,
                kind: LabelKind::Plain,
            },
        ]);
        d
    }
}

/// A token kind in quotes, as syntax errors name what they expected.
pub open spec fn quoted(kind: TokenKind) -> Seq<char> {
    "'"@ + kind_text(kind) + "'"@
}

fn quoted_kind(kind: TokenKind) -> (s: String)
    ensures
        s@ == quoted(kind),
{
    let mut s = String::from_str("'");
    s.append(kind.as_str());
    s.append("'");
    s
}

// ---------------------------------------------------------------------------
// The state of a parse
// ---------------------------------------------------------------------------

/// Where a parse stands: the index of the next result to read, the tree
/// built so far (the kinds of its nodes in the order they were made, its
/// nodes with their depths in the order of the tree, its open nodes, its
/// cursor and its checkpoints) and the diagnostics reported so far.
pub ghost struct ParseState<'src> {
    pub pos: int,
    pub kinds: Seq<TokenKind>,
    pub nodes: Seq<(TokenKind, nat)>,
    pub open: Seq<nat>,
    pub cursor: nat,
    pub marks: Seq<Option<(Option<nat>, nat)>>,
    pub diags: Seq<DiagnosticView<'src>>,
}

/// The result of a step that can fail with a diagnostic, and the state after it.
pub ghost enum Step<'src, T> {
    Done(T, ParseState<'src>),
    Failed(DiagnosticView<'src>, ParseState<'src>),
}

/// The state after a step.
pub open spec fn after<'src, T>(st: Step<'src, T>) -> ParseState<'src> {
    match st {
        Step::Done(_, s) => s,
        Step::Failed(_, s) => s,
    }
}

/// The step a function of the parser took, from what it returned.
pub open spec fn step_of<'src, T>(r: Result<T, Diagnostic<'src>>, s: ParseState<'src>) -> Step<'src, T> {
    match r {
        Ok(v) => Step::Done(v, s),
        Err(d) => Step::Failed(d@, s),
    }
}

/// The state before anything is read.
pub open spec fn initial_state<'src>() -> ParseState<'src> {
    ParseState {
        pos: 0,
        kinds: Seq::empty(),
        nodes: Seq::empty(),
        open: Seq::empty(),
        cursor: 0,
        marks: Seq::empty(),
        diags: Seq::empty(),
    }
}

/// A node of the given kind opened inside the innermost open node.
pub open spec fn opened<'src>(s: ParseState<'src>, kind: TokenKind) -> ParseState<'src> {
    ParseState {
        kinds: s.kinds.push(kind),
        nodes: s.nodes.push((kind, s.open.len())),
        open: s.open.push(s.kinds.len()),
        ..s
    }
}

/// The innermost open node closed; `None` when no node is open.
pub open spec fn closed<'src>(s: ParseState<'src>) -> Option<ParseState<'src>> {
    if s.open.len() > 0 {
        Some(ParseState { open: s.open.drop_last(), ..s })
    } else {
        None
    }
}

/// A token of the given kind and length added at the cursor; `None` when
/// the cursor would pass the largest `u32`.
pub open spec fn with_token<'src>(s: ParseState<'src>, kind: TokenKind, len: nat) -> Option<ParseState<'src>> {
    if s.cursor + len <= u32::MAX {
        Some(
            ParseState {
                kinds: s.kinds.push(kind),
                nodes: s.nodes.push((kind, s.open.len())),
                cursor: s.cursor + len,
                ..s
            },
        )
    } else {
        None
    }
}

/// A checkpoint taken: the open node it is inside and the place the next
/// node goes in the order of the tree. The checkpoint is the last one.
pub open spec fn marked<'src>(s: ParseState<'src>) -> ParseState<'src> {
    ParseState { marks: s.marks.push(Some((innermost(s.open), s.nodes.len()))), ..s }
}

/// The nodes made since the checkpoint `c` wrapped in a node of the given
/// kind; `None` when `c` is not a checkpoint that can be used, or was not
/// taken inside the innermost open node. (A checkpoint never stands past the
/// last node.)
pub open spec fn wrapped<'src>(s: ParseState<'src>, c: nat, kind: TokenKind) -> Option<ParseState<'src>> {
    if c < s.marks.len() {
        match s.marks[c as int] {
            Some((parent, place)) => if parent == innermost(s.open) && place <= s.nodes.len() {
                Some(
                    ParseState {
                        kinds: s.kinds.push(kind),
                        nodes: wrap_nodes(s.nodes, place, kind, s.open.len()),
                        marks: marks_after_wrap(s.marks, place),
                        ..s
                    },
                )
            } else {
                None
            },
            None => None,
        }
    } else {
        None
    }
}

/// The state with one more diagnostic reported.
pub open spec fn reported<'src>(s: ParseState<'src>, d: DiagnosticView<'src>) -> ParseState<'src> {
    ParseState { diags: s.diags.push(d), ..s }
}

/// The state with the reading moved on by one result.
pub open spec fn moved<'src>(s: ParseState<'src>) -> ParseState<'src> {
    ParseState { pos: s.pos + 1, ..s }
}

/// The length of a token's text.
pub open spec fn token_len<'src>(t: Token<'src>) -> nat {
    if t.span.lo() <= t.span.hi() {
        (t.span.hi() - t.span.lo()) as nat
    } else {
        0
    }
}

/// Whitespace and comments: kept in the tree, skipped by the grammar.
pub open spec fn is_trivia(kind: TokenKind) -> bool {
    kind == TokenKind::Whitespace || kind == TokenKind::Comment
}

/// Whether the parse went on from `s` to `s2`: it read at least one more
/// result and did not read past the end.
pub open spec fn went_on<'src>(toks: Seq<Lexed<'src>>, s: ParseState<'src>, s2: ParseState<'src>) -> bool {
    s.pos < s2.pos <= toks.len()
}

// ---------------------------------------------------------------------------
// Reading tokens
// ---------------------------------------------------------------------------

/// Reads the next token the grammar sees: whitespace and comments go into the
/// tree, lexer errors are reported, and the first other token is returned.
pub open spec fn next_token<'src>(toks: Seq<Lexed<'src>>, s: ParseState<'src>) -> Option<
    (Token<'src>, ParseState<'src>),
>
    decreases toks.len() - s.pos,
{
    if s.pos < 0 || s.pos >= toks.len() {
        None
    } else {
        match toks[s.pos] {
            Ok(t) => if is_trivia(t.kind) {
                match with_token(moved(s), t.kind, token_len(t)) {
                    Some(s1) => next_token(toks, s1),
                    None => None,
                }
            } else {
                Some((t, moved(s)))
            },
            Err(e) => if e is EofAlreadyReached {
                None
            } else {
                next_token(toks, reported(moved(s), lexer_error_view(e)))
            },
        }
    }
}

/// Looks at the next token the grammar sees without reading it: whitespace
/// and comments before it go into the tree, and every lexer error before it
/// is reported and read.
pub open spec fn peek_token<'src>(toks: Seq<Lexed<'src>>, s: ParseState<'src>) -> Option<
    (Token<'src>, ParseState<'src>),
>
    decreases toks.len() - s.pos,
{
    if s.pos < 0 || s.pos >= toks.len() {
        None
    } else {
        match toks[s.pos] {
            Ok(t) => if is_trivia(t.kind) {
                match with_token(moved(s), t.kind, token_len(t)) {
                    Some(s1) => peek_token(toks, s1),
                    None => None,
                }
            } else {
                Some((t, s))
            },
            Err(e) => if e is EofAlreadyReached {
                None
            } else {
                peek_token(toks, reported(moved(s), lexer_error_view(e)))
            },
        }
    }
}

/// Reading with `next_token` moves on by at least one result.
pub proof fn lemma_next_token<'src>(toks: Seq<Lexed<'src>>, s: ParseState<'src>)
    ensures
        next_token(toks, s) matches Some(r) ==> s.pos < r.1.pos <= toks.len() && s.open
            == r.1.open,
    decreases toks.len() - s.pos,
{
    if 0 <= s.pos < toks.len() {
        match toks[s.pos] {
            Ok(t) => if is_trivia(t.kind) {
                if let Some(s1) = with_token(moved(s), t.kind, token_len(t)) {
                    lemma_next_token(toks, s1);
                }
            },
            Err(e) => if !(e is EofAlreadyReached) {
                lemma_next_token(toks, reported(moved(s), lexer_error_view(e)));
            },
        }
    }
}

/// Looking with `peek_token` never goes back, and stops at the token it
/// returns.
pub proof fn lemma_peek_token<'src>(toks: Seq<Lexed<'src>>, s: ParseState<'src>)
    ensures
        peek_token(toks, s) matches Some(r) ==> {
            &&& s.pos <= r.1.pos < toks.len()
            &&& toks[r.1.pos] == Ok::<Token<'src>, LexerError<'src>>(r.0)
            &&& !is_trivia(r.0.kind)
            &&& s.open == r.1.open
        },
    decreases toks.len() - s.pos,
{
    if 0 <= s.pos < toks.len() {
        match toks[s.pos] {
            Ok(t) => if is_trivia(t.kind) {
                if let Some(s1) = with_token(moved(s), t.kind, token_len(t)) {
                    lemma_peek_token(toks, s1);
                }
            },
            Err(e) => if !(e is EofAlreadyReached) {
                lemma_peek_token(toks, reported(moved(s), lexer_error_view(e)));
            },
        }
    }
}

/// Looking at the next token is idempotent: looking again from where the
/// first look stopped sees the same token and changes nothing.
pub proof fn law_peek_token_idempotent<'src>(toks: Seq<Lexed<'src>>, s: ParseState<'src>)
    ensures
        peek_token(toks, s) matches Some((t, s1)) ==> peek_token(toks, s1) == Some((t, s1)),
{
    lemma_peek_token(toks, s);
}

/// Reads a token of the given kind, or fails with a syntax error that names
/// it and reads nothing.
pub open spec fn expect_token<'src>(toks: Seq<Lexed<'src>>, s: ParseState<'src>, kind: TokenKind) -> Option<
    Step<'src, Token<'src>>,
> {
    match peek_token(toks, s) {
        None => None,
        Some((t, s1)) => if t.kind == kind {
            match next_token(toks, s1) {
                None => None,
                Some((_, s2)) => match with_token(s2, kind, token_len(t)) {
                    Some(s3) => Some(Step::Done(t, s3)),
                    None => None,
                },
            }
        } else {
            Some(Step::Failed(syntax_error_view(t.span, quoted(kind)), s1))
        },
    }
}

/// `expect_token` moves on when it reads, and never goes back.
pub proof fn lemma_expect_token<'src>(toks: Seq<Lexed<'src>>, s: ParseState<'src>, kind: TokenKind)
    ensures
        expect_token(toks, s, kind) matches Some(st) ==> s.pos <= after(st).pos <= toks.len()
            && after(st).open == s.open,
        expect_token(toks, s, kind) matches Some(Step::Done(_, s2)) ==> went_on(toks, s, s2),
{
    lemma_peek_token(toks, s);
    if let Some((t, s1)) = peek_token(toks, s) {
        lemma_next_token(toks, s1);
    }
}

/// Reads a token of one of two kinds, or fails with a syntax error that
/// names both and reads nothing.
pub open spec fn expect_one_of<'src>(
    toks: Seq<Lexed<'src>>,
    s: ParseState<'src>,
    a: TokenKind,
    b: TokenKind,
) -> Option<Step<'src, Token<'src>>> {
    match peek_token(toks, s) {
        None => None,
        Some((t, s1)) => if t.kind == a || t.kind == b {
            match expect_token(toks, s1, t.kind) {
                Some(st) => Some(Step::Done(t, after(st))),
                None => None,
            }
        } else {
            Some(
                Step::Failed(
                    syntax_error_view(t.span, "one of "@ + quoted(a) + ","@ + quoted(b)),
                    s1,
                ),
            )
        },
    }
}

/// Reads a token of the given kind if it is next.
pub open spec fn eat_if_token<'src>(toks: Seq<Lexed<'src>>, s: ParseState<'src>, kind: TokenKind) -> Option<
    ParseState<'src>,
> {
    match expect_token(toks, s, kind) {
        Some(st) => Some(after(st)),
        None => None,
    }
}

/// The state after a step whose diagnostic, if it failed, is reported.
pub open spec fn emitted<'src, T>(st: Option<Step<'src, T>>) -> Option<ParseState<'src>> {
    match st {
        Some(Step::Done(_, s)) => Some(s),
        Some(Step::Failed(d, s)) => Some(reported(s, d)),
        None => None,
    }
}

// ---------------------------------------------------------------------------
// The grammar
// ---------------------------------------------------------------------------

/// What a delimited sequence holds.
#[derive(Clone, Copy, Debug, PartialEq, Eq, Structural)]
pub enum SeqItem {
    FnParam,
    Statement,
}

/// The visibility of a declaration: a `Vis` node holding a `public`,
/// `internal` or (when neither is next) an empty `private` token. The
/// keyword itself is not read.
pub open spec fn parse_vis<'src>(toks: Seq<Lexed<'src>>, s: ParseState<'src>) -> Option<ParseState<'src>> {
    let s1 = opened(s, TokenKind::Vis);
    match peek_token(toks, s1) {
        None => None,
        Some((t, s2)) => {
            let s3 = if t.kind == TokenKind::Public {
                with_token(s2, TokenKind::Public, 6)
            } else if t.kind == TokenKind::Internal {
                with_token(s2, TokenKind::Internal, 8)
            } else {
                with_token(s2, TokenKind::Private, 0)
            };
            match s3 {
                Some(s3) => closed(s3),
                None => None,
            }
        },
    }
}

/// An identifier; a syntax error is reported.
pub open spec fn parse_ident<'src>(toks: Seq<Lexed<'src>>, s: ParseState<'src>) -> Option<ParseState<'src>> {
    emitted(expect_token(toks, s, TokenKind::Ident))
}

/// A type: an identifier, added to the tree as a `Type` token.
pub open spec fn parse_type<'src>(toks: Seq<Lexed<'src>>, s: ParseState<'src>) -> Option<Step<'src, ()>> {
    match peek_token(toks, s) {
        None => None,
        Some((t, s1)) => if t.kind == TokenKind::Ident {
            match next_token(toks, s1) {
                None => None,
                Some((_, s2)) => match with_token(s2, TokenKind::Type, token_len(t)) {
                    Some(s3) => Some(Step::Done((), s3)),
                    None => None,
                },
            }
        } else {
            Some(Step::Failed(syntax_error_view(t.span, "a type"@), s1))
        },
    }
}

/// A parameter of a function, in a `FnParameter` node: `self`, or a name, a
/// colon and a type. When the colon or the type is missing the node is left
/// open.
pub open spec fn parse_fn_param<'src>(toks: Seq<Lexed<'src>>, s: ParseState<'src>) -> Option<Step<'src, ()>> {
    let s1 = opened(s, TokenKind::FnParameter);
    match peek_token(toks, s1) {
        None => None,
        Some((t, s2)) => if t.kind == TokenKind::Self_ {
            match next_token(toks, s2) {
                None => None,
                Some((_, s3)) => match with_token(s3, TokenKind::Self_, 4) {
                    None => None,
                    Some(s4) => match closed(s4) {
                        Some(s5) => Some(Step::Done((), s5)),
                        None => None,
                    },
                },
            }
        } else if t.kind == TokenKind::Ident {
            match next_token(toks, s2) {
                None => None,
                Some((_, s3)) => match with_token(s3, TokenKind::Ident, token_len(t)) {
                    None => None,
                    Some(s4) => match expect_token(toks, s4, TokenKind::Colon) {
                        None => None,
                        Some(Step::Failed(d, s5)) => Some(Step::Failed(d, s5)),
                        Some(Step::Done(_, s5)) => match parse_type(toks, s5) {
                            None => None,
                            Some(Step::Failed(d, s6)) => Some(Step::Failed(d, s6)),
                            Some(Step::Done(_, s6)) => match closed(s6) {
                                Some(s7) => Some(Step::Done((), s7)),
                                None => None,
                            },
                        },
                    },
                },
            }
        } else {
            match closed(s2) {
                Some(s3) => Some(Step::Failed(syntax_error_view(t.span, "a parameter"@), s3)),
                None => None,
            }
        },
    }
}

/// Items separated by `delim` up to and including `close`. The sequence
/// stops at the first item or separator that fails, and its diagnostic is
/// reported.
pub open spec fn parse_delim_seq_to_end<'src>(
    toks: Seq<Lexed<'src>>,
    s: ParseState<'src>,
    close: TokenKind,
    delim: TokenKind,
    item: SeqItem,
) -> Option<ParseState<'src>>
    decreases toks.len() - s.pos, 2nat,
{
    match peek_token(toks, s) {
        None => None,
        Some((t, s1)) => if t.kind == close {
            match next_token(toks, s1) {
                Some((_, s2)) => Some(s2),
                None => None,
            }
        } else {
            proof {
                lemma_peek_token(toks, s);
            }
            let r = match item {
                SeqItem::FnParam => parse_fn_param(toks, s1),
                SeqItem::Statement => parse_statement(toks, s1),
            };
            match r {
                None => None,
                Some(Step::Failed(d, s2)) => Some(reported(s2, d)),
                Some(Step::Done(_, s2)) => match expect_one_of(toks, s2, close, delim) {
                    None => None,
                    Some(Step::Failed(d, s3)) => Some(reported(s3, d)),
                    Some(Step::Done(t2, s3)) => if t2.kind == close {
                        Some(s3)
                    } else if went_on(toks, s, s3) {
                        parse_delim_seq_to_end(toks, s3, close, delim, item)
                    } else {
                        None
                    },
                },
            }
        },
    }
}

/// `open`, then a delimited sequence up to `close`; when `open` is missing
/// its diagnostic is reported and nothing more is read.
pub open spec fn parse_enclosed_delim_seq<'src>(
    toks: Seq<Lexed<'src>>,
    s: ParseState<'src>,
    open: TokenKind,
    close: TokenKind,
    delim: TokenKind,
    item: SeqItem,
) -> Option<ParseState<'src>>
    decreases toks.len() - s.pos, 3nat,
{
    match expect_token(toks, s, open) {
        None => None,
        Some(Step::Failed(d, s1)) => Some(reported(s1, d)),
        Some(Step::Done(_, s1)) => {
            proof {
                lemma_expect_token(toks, s, open);
            }
            parse_delim_seq_to_end(toks, s1, close, delim, item)
        },
    }
}

/// A block: statements separated by semicolons in braces, in a `Block` node.
pub open spec fn parse_block<'src>(toks: Seq<Lexed<'src>>, s: ParseState<'src>) -> Option<ParseState<'src>>
    decreases toks.len() - s.pos, 4nat,
{
    let s1 = opened(s, TokenKind::Block);
    match parse_enclosed_delim_seq(
        toks,
        s1,
        TokenKind::LBrace,
        TokenKind::RBrace,
        TokenKind::Semicolon,
        SeqItem::Statement,
    ) {
        Some(s2) => closed(s2),
        None => None,
    }
}

/// A statement: only `let`, with an optional `mut`, a name, `=` and an
/// expression, each missing part reported; wrapped in a `Statement` node.
pub open spec fn parse_statement<'src>(toks: Seq<Lexed<'src>>, s: ParseState<'src>) -> Option<Step<'src, ()>>
    decreases toks.len() - s.pos, 1nat,
{
    let c = s.marks.len();
    let s = marked(s);
    match peek_token(toks, s) {
        None => None,
        Some((t, s1)) => if t.kind == TokenKind::Let {
            match next_token(toks, s1) {
                None => None,
                Some((_, s2)) => match with_token(s2, TokenKind::Let, 3) {
                    None => None,
                    Some(s3) => match eat_if_token(toks, s3, TokenKind::Mut) {
                        None => None,
                        Some(s4) => match emitted(expect_token(toks, s4, TokenKind::Ident)) {
                            None => None,
                            Some(s5) => match emitted(expect_token(toks, s5, TokenKind::Eq)) {
                                None => None,
                                Some(s6) => {
                                    proof {
                                        lemma_peek_token(toks, s);
                                        lemma_next_token(toks, s1);
                                        lemma_expect_token(toks, s3, TokenKind::Mut);
                                        lemma_expect_token(toks, s4, TokenKind::Ident);
                                        lemma_expect_token(toks, s5, TokenKind::Eq);
                                    }
                                    match emitted(parse_expression(toks, s6, 0)) {
                                        None => None,
                                        Some(s7) => match wrapped(s7, c, TokenKind::Statement) {
                                            Some(s8) => Some(Step::Done((), s8)),
                                            None => None,
                                        },
                                    }
                                },
                            },
                        },
                    },
                },
            }
        } else {
            None
        },
    }
}

/// The expression that starts an expression: a parenthesised expression in
/// a `ParenExpr` node, a block, or a literal.
pub open spec fn parse_prefix_expression<'src>(toks: Seq<Lexed<'src>>, s: ParseState<'src>) -> Option<
    Step<'src, ()>,
>
    decreases toks.len() - s.pos, 7nat,
{
    match peek_token(toks, s) {
        None => None,
        Some((t, s1)) => {
            proof {
                lemma_peek_token(toks, s);
            }
            if t.kind == TokenKind::LParen {
                let s2 = opened(s1, TokenKind::ParenExpr);
                match expect_token(toks, s2, TokenKind::LParen) {
                    None => None,
                    Some(Step::Failed(d, s3)) => Some(Step::Failed(d, s3)),
                    Some(Step::Done(_, s3)) => {
                        proof {
                            lemma_expect_token(toks, s2, TokenKind::LParen);
                        }
                        match parse_expression(toks, s3, 0) {
                            None => None,
                            Some(Step::Failed(d, s4)) => Some(Step::Failed(d, s4)),
                            Some(Step::Done(_, s4)) => match expect_token(
                                toks,
                                s4,
                                TokenKind::RParen,
                            ) {
                                None => None,
                                Some(Step::Failed(d, s5)) => Some(Step::Failed(d, s5)),
                                Some(Step::Done(_, s5)) => match closed(s5) {
                                    Some(s6) => Some(Step::Done((), s6)),
                                    None => None,
                                },
                            },
                        }
                    },
                }
            } else if t.kind == TokenKind::LBrace {
                match parse_block(toks, s1) {
                    Some(s2) => Some(Step::Done((), s2)),
                    None => None,
                }
            } else if t.kind == TokenKind::IntLiteral || t.kind == TokenKind::FloatLiteral || t.kind
                == TokenKind::BoolLiteral {
                match expect_token(toks, s1, t.kind) {
                    None => None,
                    Some(Step::Failed(d, s2)) => Some(Step::Failed(d, s2)),
                    Some(Step::Done(_, s2)) => Some(Step::Done((), s2)),
                }
            } else {
                None
            }
        },
    }
}

/// What follows an operand: an infix operator and the expression on its
/// right, bound by the operator's precedence, in a `BinaryOp` node; nothing
/// when no infix operator is next.
pub open spec fn parse_following_expression<'src>(toks: Seq<Lexed<'src>>, s: ParseState<'src>) -> Option<
    Step<'src, ()>,
>
    decreases toks.len() - s.pos, 8nat,
{
    match peek_token(toks, s) {
        None => None,
        Some((t, s1)) => if spec_is_infix_operator(t.kind) {
            let s2 = opened(s1, TokenKind::BinaryOp);
            match with_token(s2, t.kind, token_len(t)) {
                None => None,
                Some(s3) => match next_token(toks, s3) {
                    None => None,
                    Some((_, s4)) => {
                        proof {
                            lemma_peek_token(toks, s);
                            lemma_next_token(toks, s3);
                        }
                        match parse_expression(toks, s4, spec_precedence(t.kind)) {
                            None => None,
                            Some(Step::Failed(d, s5)) => Some(Step::Failed(d, s5)),
                            Some(Step::Done(_, s5)) => match closed(s5) {
                                Some(s6) => Some(Step::Done((), s6)),
                                None => None,
                            },
                        }
                    },
                },
            }
        } else {
            Some(Step::Done((), s1))
        },
    }
}

/// An expression whose operators bind tighter than `precedence`: a prefix
/// expression and what follows it, wrapped at the checkpoint `c` in an
/// `Expression` node. An expression followed by a semicolon ends without the
/// wrapping.
pub open spec fn parse_expression<'src>(toks: Seq<Lexed<'src>>, s: ParseState<'src>, precedence: u8) -> Option<
    Step<'src, ()>,
>
    decreases toks.len() - s.pos, 10nat,
{
    let c = s.marks.len();
    let s = marked(s);
    match parse_prefix_expression(toks, s) {
        None => None,
        Some(Step::Failed(d, s1)) => Some(Step::Failed(d, s1)),
        Some(Step::Done(_, s1)) => match peek_token(toks, s1) {
            None => None,
            Some((t, s2)) => if t.kind == TokenKind::Semicolon {
                Some(Step::Done((), s2))
            } else if s.pos <= s2.pos <= toks.len() {
                parse_operators(toks, s2, precedence, c)
            } else {
                None
            },
        },
    }
}

/// The loop of `parse_expression`: while the next token binds tighter than
/// `precedence`, what follows; then the wrapping at `c`. A token that binds
/// tighter but is no infix operator is never read: the loop does not end.
pub open spec fn parse_operators<'src>(
    toks: Seq<Lexed<'src>>,
    s: ParseState<'src>,
    precedence: u8,
    c: nat,
) -> Option<Step<'src, ()>>
    decreases toks.len() - s.pos, 9nat,
{
    match peek_token(toks, s) {
        None => None,
        Some((t, s1)) => if precedence < spec_precedence(t.kind) {
            proof {
                lemma_peek_token(toks, s);
            }
            match parse_following_expression(toks, s1) {
                None => None,
                Some(Step::Failed(d, s2)) => Some(Step::Failed(d, s2)),
                Some(Step::Done(_, s2)) => if went_on(toks, s, s2) {
                    parse_operators(toks, s2, precedence, c)
                } else {
                    None
                },
            }
        } else {
            match wrapped(s1, c, TokenKind::Expression) {
                Some(s2) => Some(Step::Done((), s2)),
                None => None,
            }
        },
    }
}

/// The parameters of a function: a parenthesised, comma separated sequence
/// in a `FnParameters` node.
pub open spec fn parse_fn_parameters<'src>(toks: Seq<Lexed<'src>>, s: ParseState<'src>) -> Option<ParseState<'src>> {
    let s1 = opened(s, TokenKind::FnParameters);
    match parse_enclosed_delim_seq(
        toks,
        s1,
        TokenKind::LParen,
        TokenKind::RParen,
        TokenKind::Comma,
        SeqItem::FnParam,
    ) {
        Some(s2) => closed(s2),
        None => None,
    }
}

/// A function: `fn`, an optional `on` and a type, a name, the parameters,
/// the return type in a `ReturnType` node and the body; wrapped in a `Fn`
/// node.
pub open spec fn parse_function<'src>(toks: Seq<Lexed<'src>>, s: ParseState<'src>) -> Option<ParseState<'src>> {
    match next_token(toks, s) {
        None => None,
        Some((_, s0)) => {
            let c = s0.marks.len();
            let s1 = marked(s0);
            match with_token(s1, TokenKind::Fn, 2) {
                None => None,
                Some(s2) => match peek_token(toks, s2) {
                    None => None,
                    Some((t, s3)) => {
                        let s5 = if t.kind == TokenKind::On {
                            match next_token(toks, s3) {
                                None => None,
                                Some((_, s4)) => emitted(parse_type(toks, s4)),
                            }
                        } else {
                            Some(s3)
                        };
                        match s5 {
                            None => None,
                            Some(s5) => match parse_ident(toks, s5) {
                                None => None,
                                Some(s6) => match parse_fn_parameters(toks, s6) {
                                    None => None,
                                    Some(s7) => match emitted(
                                        parse_type(toks, opened(s7, TokenKind::ReturnType)),
                                    ) {
                                        None => None,
                                        Some(s8) => match closed(s8) {
                                            None => None,
                                            Some(s9) => match parse_block(toks, s9) {
                                                None => None,
                                                Some(s10) => wrapped(s10, c, TokenKind::Fn),
                                            },
                                        },
                                    },
                                },
                            },
                        }
                    },
                },
            }
        },
    }
}

/// A declaration: the visibility and a function, wrapped in a `Declaration`
/// node.
pub open spec fn parse_declaration<'src>(toks: Seq<Lexed<'src>>, s: ParseState<'src>) -> Option<ParseState<'src>> {
    let c = s.marks.len();
    let s = marked(s);
    match parse_vis(toks, s) {
        None => None,
        Some(s1) => match peek_token(toks, s1) {
            None => None,
            Some((t, s2)) => if t.kind == TokenKind::Fn {
                match parse_function(toks, s2) {
                    Some(s3) => wrapped(s3, c, TokenKind::Declaration),
                    None => None,
                }
            } else {
                None
            },
        },
    }
}

/// Declarations up to a closing brace or parenthesis or the end of the text.
pub open spec fn parse_declarations<'src>(toks: Seq<Lexed<'src>>, s: ParseState<'src>) -> Option<ParseState<'src>>
    decreases toks.len() - s.pos,
{
    match peek_token(toks, s) {
        None => None,
        Some((t, s1)) => if t.kind == TokenKind::RBrace || t.kind == TokenKind::RParen || t.kind
            == TokenKind::Eof {
            Some(s1)
        } else {
            match parse_declaration(toks, s1) {
                None => None,
                Some(s2) => if went_on(toks, s, s2) {
                    parse_declarations(toks, s2)
                } else {
                    None
                },
            }
        },
    }
}

/// What parsing the results `toks` gives: the kinds of the nodes of the tree
/// in the order they are made, the nodes with their depths in the order of
/// the tree, and the diagnostics in the order they are reported. The
/// declarations must end at the end of the text, and every node must be
/// closed.
pub open spec fn parse_outcome<'src>(toks: Seq<Lexed<'src>>) -> Option<
    (Seq<TokenKind>, Seq<(TokenKind, nat)>, Seq<DiagnosticView<'src>>),
> {
    match parse_declarations(toks, initial_state()) {
        None => None,
        Some(s) => if 0 <= s.pos < toks.len() && is_eof_result(toks[s.pos]) && s.open.len() == 0 {
            Some((s.kinds, s.nodes, s.diags))
        } else {
            None
        },
    }
}

// ---------------------------------------------------------------------------
// The parser
// ---------------------------------------------------------------------------

/// A parse in progress: the index of the next result to read, the tree being
/// built and the diagnostics reported so far.
struct Parsing<'src> {
    pos: usize,
    tree: CstBuilder,
    diags: Vec<Diagnostic<'src>>,
}

/// From `old` to `new` the tree only grew and the reading only moved on,
/// never past the end of the `n` results.
spec fn kept<'src>(old: ParseState<'src>, new: ParseState<'src>, n: int) -> bool {
    old.kinds.len() <= new.kinds.len() && old.nodes.len() <= new.nodes.len() && old.pos <= new.pos <= n
}

impl<'src> Parsing<'src> {
    spec fn state(&self) -> ParseState<'src> {
        ParseState {
            pos: self.pos as int,
            kinds: builder_kinds(self.tree),
            nodes: builder_nodes(self.tree),
            open: builder_open(self.tree),
            cursor: builder_cursor(self.tree),
            marks: builder_marks(self.tree),
            diags: self.diags@.map_values(|d: Diagnostic<'src>| d@),
        }
    }

    fn report(&mut self, d: Diagnostic<'src>)
        ensures
            final(self).state() == reported(old(self).state(), d@),
    {
        self.diags.push(d);
        assert(self.diags@.map_values(|d: Diagnostic<'src>| d@) =~= old(self).diags@.map_values(
            |d: Diagnostic<'src>| d@,
        ).push(d@));
    }

    fn open_node(&mut self, kind: TokenKind)
        ensures
            final(self).state() == opened(old(self).state(), kind),
    {
        builder_open_node(&mut self.tree, kind);
    }

    fn close_node(&mut self)
        requires
            closed(old(self).state()) is Some,
        ensures
            closed(old(self).state()) == Some(final(self).state()),
    {
        let _ = builder_close(&mut self.tree);
    }

    fn add_token(&mut self, kind: TokenKind, len: usize)
        requires
            with_token(old(self).state(), kind, len as nat) is Some,
        ensures
            with_token(old(self).state(), kind, len as nat) == Some(final(self).state()),
    {
        let _ = builder_token(&mut self.tree, kind, len);
    }

    fn checkpoint(&mut self) -> (c: usize)
        ensures
            final(self).state() == marked(old(self).state()),
            c == old(self).state().marks.len(),
    {
        builder_checkpoint(&mut self.tree)
    }

    fn close_at(&mut self, c: usize, kind: TokenKind)
        requires
            wrapped(old(self).state(), c as nat, kind) is Some,
        ensures
            wrapped(old(self).state(), c as nat, kind) == Some(final(self).state()),
    {
        let _ = builder_close_at(&mut self.tree, c, kind);
    }

    /// Eats the next token and returns it
    fn next_token(&mut self, toks: &Vec<Lexed<'src>>) -> (t: Token<'src>)
        requires
            next_token(toks@, old(self).state()) is Some,
        ensures
            next_token(toks@, old(self).state()) == Some((t, final(self).state())),
            kept(old(self).state(), final(self).state(), toks@.len() as int),
            old(self).pos < final(self).pos,
    {
        proof {
            lemma_next_token(toks@, self.state());
        }
        let n = toks.len();
        loop
            invariant
                n == toks@.len(),
                next_token(toks@, self.state()) == next_token(toks@, old(self).state()),
                next_token(toks@, self.state()) is Some,
                old(self).state().kinds.len() <= self.state().kinds.len(),
                old(self).state().nodes.len() <= self.state().nodes.len(),
                old(self).pos <= self.pos,
            decreases toks@.len() - self.pos,
        {
            let r = toks[self.pos];
            self.pos = self.pos + 1;
            match r {
                Ok(t) => {
                    if t.kind == TokenKind::Whitespace || t.kind == TokenKind::Comment {
                        self.add_token(t.kind, t.span.len());
                    } else {
                        return t;
                    }
                },
                Err(e) => {
                    let d = e.into_diagnostic();
                    self.report(d);
                },
            }
        }
    }

    /// Peeks at the next `Ok` token, and eats all `Err` tokens up till that
    fn peek_token(&mut self, toks: &Vec<Lexed<'src>>) -> (t: Token<'src>)
        requires
            peek_token(toks@, old(self).state()) is Some,
        ensures
            peek_token(toks@, old(self).state()) == Some((t, final(self).state())),
            kept(old(self).state(), final(self).state(), toks@.len() as int),
    {
        proof {
            lemma_peek_token(toks@, self.state());
        }
        let n = toks.len();
        loop
            invariant
                n == toks@.len(),
                peek_token(toks@, self.state()) == peek_token(toks@, old(self).state()),
                peek_token(toks@, self.state()) is Some,
                old(self).state().kinds.len() <= self.state().kinds.len(),
                old(self).state().nodes.len() <= self.state().nodes.len(),
                old(self).pos <= self.pos,
            decreases toks@.len() - self.pos,
        {
            let r = toks[self.pos];
            match r {
                Ok(t) => {
                    if t.kind == TokenKind::Whitespace || t.kind == TokenKind::Comment {
                        self.pos = self.pos + 1;
                        self.add_token(t.kind, t.span.len());
                    } else {
                        return t;
                    }
                },
                Err(e) => {
                    let d = e.into_diagnostic();
                    self.pos = self.pos + 1;
                    self.report(d);
                },
            }
        }
    }

    /// peeks at the next token, and eats if it it matches `token`, otherwise it returns a `Diagnostic`
    fn expect_token(&mut self, toks: &Vec<Lexed<'src>>, token: TokenKind) -> (r: Result<
        Token<'src>,
        Diagnostic<'src>,
    >)
        requires
            expect_token(toks@, old(self).state(), token) is Some,
        ensures
            expect_token(toks@, old(self).state(), token) == Some(step_of(r, final(self).state())),
            kept(old(self).state(), final(self).state(), toks@.len() as int),
            r is Ok ==> old(self).pos < final(self).pos,
    {
        let t = self.peek_token(toks);
        if t.kind == token {
            let _ = self.next_token(toks);
            self.add_token(token, t.span.len());
            Ok(t)
        } else {
            Err(SyntaxError { span: t.span, expected: quoted_kind(token) }.into_diagnostic())
        }
    }

    /// Eats the token if it is found, otherwise does nothing
    fn eat_if_token(&mut self, toks: &Vec<Lexed<'src>>, token: TokenKind)
        requires
            eat_if_token(toks@, old(self).state(), token) is Some,
        ensures
            eat_if_token(toks@, old(self).state(), token) == Some(final(self).state()),
            kept(old(self).state(), final(self).state(), toks@.len() as int),
    {
        let _ = self.expect_token(toks, token);
    }

    fn expect_one_of_token(&mut self, toks: &Vec<Lexed<'src>>, a: TokenKind, b: TokenKind) -> (r:
        Result<Token<'src>, Diagnostic<'src>>)
        requires
            expect_one_of(toks@, old(self).state(), a, b) is Some,
        ensures
            expect_one_of(toks@, old(self).state(), a, b) == Some(step_of(r, final(self).state())),
            kept(old(self).state(), final(self).state(), toks@.len() as int),
    {
        let t = self.peek_token(toks);
        if t.kind == a || t.kind == b {
            let _ = self.expect_token(toks, t.kind);
            Ok(t)
        } else {
            let mut expected = String::from_str("one of ");
            let qa = quoted_kind(a);
            let qb = quoted_kind(b);
            expected.append(qa.as_str());
            expected.append(",");
            expected.append(qb.as_str());
            Err(SyntaxError { span: t.span, expected }.into_diagnostic())
        }
    }
}

impl<'src> Parsing<'src> {
    fn parse_vis(&mut self, toks: &Vec<Lexed<'src>>)
        requires
            parse_vis(toks@, old(self).state()) is Some,
        ensures
            parse_vis(toks@, old(self).state()) == Some(final(self).state()),
            kept(old(self).state(), final(self).state(), toks@.len() as int),
    {
        self.open_node(TokenKind::Vis);
        let t = self.peek_token(toks);
        if t.kind == TokenKind::Public {
            self.add_token(TokenKind::Public, 6);
        } else if t.kind == TokenKind::Internal {
            self.add_token(TokenKind::Internal, 8);
        } else {
            self.add_token(TokenKind::Private, 0);
        }
        self.close_node();
    }

    fn parse_ident(&mut self, toks: &Vec<Lexed<'src>>)
        requires
            parse_ident(toks@, old(self).state()) is Some,
        ensures
            parse_ident(toks@, old(self).state()) == Some(final(self).state()),
            kept(old(self).state(), final(self).state(), toks@.len() as int),
    {
        match self.expect_token(toks, TokenKind::Ident) {
            Ok(_) => {},
            Err(d) => self.report(d),
        }
    }

    fn parse_type(&mut self, toks: &Vec<Lexed<'src>>) -> (r: Result<(), Diagnostic<'src>>)
        requires
            parse_type(toks@, old(self).state()) is Some,
        ensures
            parse_type(toks@, old(self).state()) == Some(step_of(r, final(self).state())),
            kept(old(self).state(), final(self).state(), toks@.len() as int),
    {
        let t = self.peek_token(toks);
        if t.kind == TokenKind::Ident {
            // Skip the peeked ident
            let _ = self.next_token(toks);
            self.add_token(TokenKind::Type, t.span.len());
            Ok(())
        } else {
            Err(
                SyntaxError { span: t.span, expected: String::from_str("a type") }.into_diagnostic(),
            )
        }
    }

    fn parse_fn_param(&mut self, toks: &Vec<Lexed<'src>>) -> (r: Result<(), Diagnostic<'src>>)
        requires
            parse_fn_param(toks@, old(self).state()) is Some,
        ensures
            parse_fn_param(toks@, old(self).state()) == Some(step_of(r, final(self).state())),
            kept(old(self).state(), final(self).state(), toks@.len() as int),
    {
        self.open_node(TokenKind::FnParameter);
        let peeked = self.peek_token(toks);
        if peeked.kind == TokenKind::Self_ {
            let _ = self.next_token(toks);
            self.add_token(TokenKind::Self_, 4);
        } else if peeked.kind == TokenKind::Ident {
            let _ = self.next_token(toks);
            self.add_token(TokenKind::Ident, peeked.span.len());
            match self.expect_token(toks, TokenKind::Colon) {
                Ok(_) => {},
                Err(d) => return Err(d),
            }
            match self.parse_type(toks) {
                Ok(_) => {},
                Err(d) => return Err(d),
            }
        } else {
            self.close_node();
            return Err(
                SyntaxError {
                    span: peeked.span,
                    expected: String::from_str("a parameter"),
                }.into_diagnostic(),
            );
        }
        self.close_node();
        Ok(())
    }

    #[verifier::rlimit(40)]
    fn parse_delim_seq_to_end(
        &mut self,
        toks: &Vec<Lexed<'src>>,
        close: TokenKind,
        delim: TokenKind,
        item: SeqItem,
    )
        requires
            parse_delim_seq_to_end(toks@, old(self).state(), close, delim, item) is Some,
        ensures
            parse_delim_seq_to_end(toks@, old(self).state(), close, delim, item) == Some(
                final(self).state(),
            ),
            kept(old(self).state(), final(self).state(), toks@.len() as int),
        decreases toks@.len() - old(self).pos, 2nat,
    {
        let ghost target = parse_delim_seq_to_end(toks@, old(self).state(), close, delim, item);
        loop
            invariant
                parse_delim_seq_to_end(toks@, self.state(), close, delim, item) == target,
                target == parse_delim_seq_to_end(toks@, old(self).state(), close, delim, item),
                parse_delim_seq_to_end(toks@, self.state(), close, delim, item) is Some,
                kept(old(self).state(), self.state(), toks@.len() as int),
            decreases toks@.len() - self.pos,
        {
            let ghost s0 = self.state();
            let peek = self.peek_token(toks);
            let ghost s1 = self.state();
            if peek.kind == close {
                // skip the peeked token
                let _ = self.next_token(toks);
                return ;
            }
            let r = match item {
                SeqItem::FnParam => self.parse_fn_param(toks),
                SeqItem::Statement => self.parse_statement(toks),
            };
            assert((match item {
                SeqItem::FnParam => parse_fn_param(toks@, s1),
                SeqItem::Statement => parse_statement(toks@, s1),
            }) == Some(step_of(r, self.state())));
            match r {
                Ok(_) => {},
                Err(d) => {
                    self.report(d);
                    return ;
                },
            }
            match self.expect_one_of_token(toks, close, delim) {
                Err(e) => {
                    self.report(e);
                    return ;
                },
                Ok(t) => {
                    if t.kind == close {
                        return ;
                    }
                },
            }
            assert(went_on(toks@, s0, self.state()));
        }
    }

    fn parse_enclosed_delim_seq(
        &mut self,
        toks: &Vec<Lexed<'src>>,
        open: TokenKind,
        close: TokenKind,
        delim: TokenKind,
        item: SeqItem,
    )
        requires
            parse_enclosed_delim_seq(toks@, old(self).state(), open, close, delim, item) is Some,
        ensures
            parse_enclosed_delim_seq(toks@, old(self).state(), open, close, delim, item) == Some(
                final(self).state(),
            ),
            kept(old(self).state(), final(self).state(), toks@.len() as int),
        decreases toks@.len() - old(self).pos, 3nat,
    {
        match self.expect_token(toks, open) {
            Ok(_) => self.parse_delim_seq_to_end(toks, close, delim, item),
            Err(e) => {
                // Didn't match opening token, won't try and parse the rest then
                self.report(e);
            },
        }
    }

    fn parse_fn_parameters(&mut self, toks: &Vec<Lexed<'src>>)
        requires
            parse_fn_parameters(toks@, old(self).state()) is Some,
        ensures
            parse_fn_parameters(toks@, old(self).state()) == Some(final(self).state()),
            kept(old(self).state(), final(self).state(), toks@.len() as int),
    {
        self.open_node(TokenKind::FnParameters);
        self.parse_enclosed_delim_seq(
            toks,
            TokenKind::LParen,
            TokenKind::RParen,
            TokenKind::Comma,
            SeqItem::FnParam,
        );
        self.close_node();
    }

    fn parse_prefix_expression(&mut self, toks: &Vec<Lexed<'src>>) -> (r: Result<(), Diagnostic<'src>>)
        requires
            parse_prefix_expression(toks@, old(self).state()) is Some,
        ensures
            parse_prefix_expression(toks@, old(self).state()) == Some(
                step_of(r, final(self).state()),
            ),
            kept(old(self).state(), final(self).state(), toks@.len() as int),
        decreases toks@.len() - old(self).pos, 7nat,
    {
        let token = self.peek_token(toks);
        if token.kind == TokenKind::LParen {
            self.open_node(TokenKind::ParenExpr);
            match self.expect_token(toks, TokenKind::LParen) {
                Ok(_) => {},
                Err(d) => return Err(d),
            }
            match self.parse_expression(toks, 0) {
                Ok(_) => {},
                Err(d) => return Err(d),
            }
            match self.expect_token(toks, TokenKind::RParen) {
                Ok(_) => {},
                Err(d) => return Err(d),
            }
            self.close_node();
        } else if token.kind == TokenKind::LBrace {
            self.parse_block(toks);
        } else if token.kind == TokenKind::IntLiteral || token.kind == TokenKind::FloatLiteral
            || token.kind == TokenKind::BoolLiteral {
            match self.expect_token(toks, token.kind) {
                Ok(_) => {},
                Err(d) => return Err(d),
            }
        } else {
            vstd::pervasive::unreached::<()>();
        }
        Ok(())
    }

    fn parse_following_expression(&mut self, toks: &Vec<Lexed<'src>>) -> (r: Result<
        (),
        Diagnostic<'src>,
    >)
        requires
            parse_following_expression(toks@, old(self).state()) is Some,
        ensures
            parse_following_expression(toks@, old(self).state()) == Some(
                step_of(r, final(self).state()),
            ),
            kept(old(self).state(), final(self).state(), toks@.len() as int),
        decreases toks@.len() - old(self).pos, 8nat,
    {
        let peeked = self.peek_token(toks);
        if peeked.kind.is_infix_operator() {
            self.open_node(TokenKind::BinaryOp);
            self.add_token(peeked.kind, peeked.span.len());
            let _ = self.next_token(toks);
            match self.parse_expression(toks, peeked.kind.precedence()) {
                Ok(_) => {},
                Err(d) => return Err(d),
            }
            self.close_node();
        }
        Ok(())
    }

    fn parse_expression(&mut self, toks: &Vec<Lexed<'src>>, precedence: u8) -> (r: Result<
        (),
        Diagnostic<'src>,
    >)
        requires
            parse_expression(toks@, old(self).state(), precedence) is Some,
        ensures
            parse_expression(toks@, old(self).state(), precedence) == Some(
                step_of(r, final(self).state()),
            ),
            kept(old(self).state(), final(self).state(), toks@.len() as int),
        decreases toks@.len() - old(self).pos, 10nat,
    {
        let c = self.checkpoint();
        match self.parse_prefix_expression(toks) {
            Ok(_) => {},
            Err(d) => return Err(d),
        }
        if self.peek_token(toks).kind == TokenKind::Semicolon {
            return Ok(());
        }
        let ghost target = parse_operators(toks@, self.state(), precedence, c as nat);
        loop
            invariant
                target == parse_expression(toks@, old(self).state(), precedence),
                parse_operators(toks@, self.state(), precedence, c as nat) == target,
                target is Some,
                c == old(self).state().marks.len(),
                kept(old(self).state(), self.state(), toks@.len() as int),
            decreases toks@.len() - self.pos,
        {
            let ghost s0 = self.state();
            let peeked = self.peek_token(toks);
            if !(precedence < peeked.kind.precedence()) {
                self.close_at(c, TokenKind::Expression);
                return Ok(());
            }
            match self.parse_following_expression(toks) {
                Ok(_) => {},
                Err(d) => return Err(d),
            }
            assert(went_on(toks@, s0, self.state()));
        }
    }

    fn parse_statement(&mut self, toks: &Vec<Lexed<'src>>) -> (r: Result<(), Diagnostic<'src>>)
        requires
            parse_statement(toks@, old(self).state()) is Some,
        ensures
            parse_statement(toks@, old(self).state()) == Some(step_of(r, final(self).state())),
            kept(old(self).state(), final(self).state(), toks@.len() as int),
        decreases toks@.len() - old(self).pos, 1nat,
    {
        let c = self.checkpoint();
        let token = self.peek_token(toks);
        if token.kind == TokenKind::Let {
            // Skip the peeked 'let'
            let _ = self.next_token(toks);
            self.add_token(TokenKind::Let, 3);
            self.eat_if_token(toks, TokenKind::Mut);
            match self.expect_token(toks, TokenKind::Ident) {
                Ok(_) => {},
                Err(d) => self.report(d),
            }
            match self.expect_token(toks, TokenKind::Eq) {
                Ok(_) => {},
                Err(d) => self.report(d),
            }
            match self.parse_expression(toks, 0) {
                Ok(_) => {},
                Err(d) => self.report(d),
            }
        } else {
            vstd::pervasive::unreached::<()>();
        }
        self.close_at(c, TokenKind::Statement);
        Ok(())
    }

    fn parse_block(&mut self, toks: &Vec<Lexed<'src>>)
        requires
            parse_block(toks@, old(self).state()) is Some,
        ensures
            parse_block(toks@, old(self).state()) == Some(final(self).state()),
            kept(old(self).state(), final(self).state(), toks@.len() as int),
        decreases toks@.len() - old(self).pos, 4nat,
    {
        self.open_node(TokenKind::Block);
        self.parse_enclosed_delim_seq(
            toks,
            TokenKind::LBrace,
            TokenKind::RBrace,
            TokenKind::Semicolon,
            SeqItem::Statement,
        );
        self.close_node();
    }

    fn parse_function(&mut self, toks: &Vec<Lexed<'src>>)
        requires
            parse_function(toks@, old(self).state()) is Some,
        ensures
            parse_function(toks@, old(self).state()) == Some(final(self).state()),
            kept(old(self).state(), final(self).state(), toks@.len() as int),
    {
        // Skip the peeked 'fn'
        let _ = self.next_token(toks);
        let c = self.checkpoint();
        self.add_token(TokenKind::Fn, 2);
        let peeked = self.peek_token(toks);
        if peeked.kind == TokenKind::On {
            // Skip the peeked "on"
            let _ = self.next_token(toks);
            match self.parse_type(toks) {
                Ok(_) => {},
                Err(d) => self.report(d),
            }
        }
        self.parse_ident(toks);
        self.parse_fn_parameters(toks);
        self.open_node(TokenKind::ReturnType);
        match self.parse_type(toks) {
            Ok(_) => {},
            Err(d) => self.report(d),
        }
        self.close_node();
        self.parse_block(toks);
        self.close_at(c, TokenKind::Fn);
    }

    fn parse_declaration(&mut self, toks: &Vec<Lexed<'src>>)
        requires
            parse_declaration(toks@, old(self).state()) is Some,
        ensures
            parse_declaration(toks@, old(self).state()) == Some(final(self).state()),
            kept(old(self).state(), final(self).state(), toks@.len() as int),
    {
        let c = self.checkpoint();
        self.parse_vis(toks);
        let t = self.peek_token(toks);
        if t.kind == TokenKind::Fn {
            self.parse_function(toks);
        } else {
            vstd::pervasive::unreached::<()>();
        }
        self.close_at(c, TokenKind::Declaration);
    }

    fn parse_declarations(&mut self, toks: &Vec<Lexed<'src>>)
        requires
            parse_declarations(toks@, old(self).state()) is Some,
        ensures
            parse_declarations(toks@, old(self).state()) == Some(final(self).state()),
            kept(old(self).state(), final(self).state(), toks@.len() as int),
    {
        loop
            invariant
                parse_declarations(toks@, self.state()) == parse_declarations(
                    toks@,
                    old(self).state(),
                ),
                parse_declarations(toks@, self.state()) is Some,
                kept(old(self).state(), self.state(), toks@.len() as int),
            decreases toks@.len() - self.pos,
        {
            let ghost s0 = self.state();
            let peeked = self.peek_token(toks);
            if peeked.kind == TokenKind::RBrace || peeked.kind == TokenKind::RParen || peeked.kind
                == TokenKind::Eof {
                return ;
            }
            self.parse_declaration(toks);
            assert(went_on(toks@, s0, self.state()));
        }
    }
}

/// Parses the results the lexer handed out, up to the first `Eof` token:
/// the tree and the diagnostics are those `parse_outcome` gives.
pub fn parse_tokens<'src>(toks: &Vec<Lexed<'src>>) -> (r: (Cst, Vec<Diagnostic<'src>>))
    requires
        parse_outcome(toks@) is Some,
    ensures
        parse_outcome(toks@) == Some(
            (tree_kinds(r.0), tree_nodes(r.0), r.1@.map_values(|d: Diagnostic<'src>| d@)),
        ),
{
    let mut p = Parsing { pos: 0, tree: builder_new(), diags: Vec::new() };
    assert(p.state() == initial_state::<'src>()) by {
        assert(p.diags@.map_values(|d: Diagnostic<'src>| d@) =~= Seq::<DiagnosticView<'src>>::empty());
    }
    p.parse_declarations(toks);
    let Parsing { pos: _, tree, diags } = p;
    match builder_build(tree) {
        Some(t) => (t, diags),
        None => vstd::pervasive::unreached(),
    }
}

/// The parser of one source file.
pub struct Parser<'src> {
    lexer: Lexer<'src>,
}

impl<'src> Parser<'src> {
    /// The lexer the parser reads from.
    pub closed spec fn source_lexer(self) -> Lexer<'src> {
        self.lexer
    }

    pub fn new(lexer: Lexer<'src>) -> (p: Parser<'src>)
        ensures
            p.source_lexer() == lexer,
    {
        Parser { lexer }
    }

    /// Parses everything the lexer hands out. The tree and the diagnostics
    /// are what `parse_outcome` gives for those results; the diagnostics are
    /// returned in the order they were reported.
    pub fn parse(self) -> (r: (Cst, Vec<Diagnostic<'src>>))
        requires
            self.source_lexer().wf(),
            self.source_lexer().reaches_eof(),
            forall|toks: Seq<Lexed<'src>>|
                #[trigger] self.source_lexer().hands_out(toks) ==> parse_outcome(toks) is Some,
        ensures
            exists|toks: Seq<Lexed<'src>>|
                {
                    &&& #[trigger] self.source_lexer().hands_out(toks)
                    &&& parse_outcome(toks) == Some(
                        (tree_kinds(r.0), tree_nodes(r.0), r.1@.map_values(|d: Diagnostic<'src>| d@)),
                    )
                },
    {
        let Parser { lexer } = self;
        let toks = lexer.drain();
        parse_tokens(&toks)
    }
}

} // verus!
