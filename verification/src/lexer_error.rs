//! Errors the lexer reports.

use crate::diagnostic::{Diagnostic, DiagnosticView, ElementView, IntoDiagnostic, LabelKind};
use crate::source_span::Span;
use vstd::prelude::*;
use vstd::string::*;

verus! {

#[derive(Clone, Copy, Debug)]
pub enum LexerError<'src> {
    /// Unexpected or unknown character
    UnexpectedCharacter(UnexpectedCharacter<'src>),
    /// Interpolation was never closed, as in, an unmatched "{"
    UnmatchedInterpolation(UnmatchedInterpolation<'src>),
    /// Eof has already been reached, nothing more to see
    EofAlreadyReached,
}

#[derive(Clone, Copy, Debug)]
pub struct UnexpectedCharacter<'src> {
    pub span: Span<'src>,
    pub char: &'src str,
}

/// Which brace of an interpolation is missing.
#[derive(Clone, Copy, Debug, PartialEq, Eq, Structural)]
pub enum MissingBrace {
    Left,
    Right,
}

#[derive(Clone, Copy, Debug)]
pub struct UnmatchedInterpolation<'src> {
    pub span: Span<'src>,
    pub missing: MissingBrace,
}

/// The label of the diagnostic for an unexpected character.
pub open spec fn unexpected_character_label(c: Seq<char>) -> Seq<char> {
    "unexpected character \""@ + c + "\""@
}

/// The help text of the diagnostic for an unmatched interpolation.
pub open spec fn unmatched_help(missing: MissingBrace) -> Seq<char> {
    match missing {
        MissingBrace::Left => "add an opening '{'"@,
        MissingBrace::Right => "add a closing '}'"@,
    }
}

/// The label of the diagnostic for an unmatched interpolation.
pub open spec fn unmatched_label(missing: MissingBrace) -> Seq<char> {
    match missing {
        MissingBrace::Left => "the '}' was never started"@,
        MissingBrace::Right => "the '}' was never closed"@,
    }
}

impl<'src> IntoDiagnostic<'src> for UnexpectedCharacter<'src> {
    fn into_diagnostic(&self) -> (d: Diagnostic<'src>)
        ensures
            d.code == "E0001",
            d.span == self.span,
            d.message@ == "unexpected character"@,
            d.elements_view() == seq![
                ElementView::Label {
                    message: unexpected_character_label(self.char@),
                    span: self.span,
                    kind: LabelKind::Plain,
                },
            ],
    {
        let mut label = String::from_str("unexpected character \"");
        label.append(self.char);
        label.append("\"");
        let d = Diagnostic::new("E0001", self.span, "unexpected character");
        let d = d.with_label(label.as_str(), self.span);
        assert(d.elements_view() =~= seq![
            ElementView::Label {
                message: unexpected_character_label(self.char@),
                span: self.span,
                kind: LabelKind::Plain,
            },
        ]);
        d
    }
}

impl<'src> IntoDiagnostic<'src> for UnmatchedInterpolation<'src> {
    fn into_diagnostic(&self) -> (d: Diagnostic<'src>)
        ensures
            d.code == "E0002",
            d.span == self.span,
            d.message@ == "unmatched interpolation"@,
            d.elements_view() == seq![
                ElementView::Help(unmatched_help(self.missing)),
                ElementView::Label {
                    message: unmatched_label(self.missing),
                    span: self.span,
                    kind: LabelKind::Plain,
                },
            ],
    {
        let help = match self.missing {
            MissingBrace::Left => "add an opening '{'",
            MissingBrace::Right => "add a closing '}'",
        };
        let label = match self.missing {
            MissingBrace::Left => "the '}' was never started",
            MissingBrace::Right => "the '}' was never closed",
        };
        let d = Diagnostic::new("E0002", self.span, "unmatched interpolation");
        let d = d.with_help(help).with_label(label, self.span);
        assert(d.elements_view() =~= seq![
            ElementView::Help(unmatched_help(self.missing)),
            ElementView::Label {
                message: unmatched_label(self.missing),
                span: self.span,
                kind: LabelKind::Plain,
            },
        ]);
        d
    }
}

/// The diagnostic a lexer error is reported as.
pub open spec fn lexer_error_view<'src>(e: LexerError<'src>) -> DiagnosticView<'src> {
    match e {
        LexerError::UnexpectedCharacter(e) => DiagnosticView {
            code: "E0001"@,
            span: e.span,
            message: "unexpected character"@,
            elements: seq![
                ElementView::Label {
                    message: unexpected_character_label(e.char@),
                    span: e.span,
                    kind: LabelKind::Plain,
                },
            ],
        },
        LexerError::UnmatchedInterpolation(e) => DiagnosticView {
            code: "E0002"@,
            span: e.span,
            message: "unmatched interpolation"@,
            elements: seq![
                ElementView::Help(unmatched_help(e.missing)),
                ElementView::Label {
                    message: unmatched_label(e.missing),
                    span: e.span,
                    kind: LabelKind::Plain,
                },
            ],
        },
        LexerError::EofAlreadyReached => DiagnosticView {
            code: ""@,
            span: arbitrary(),
            message: ""@,
            elements: Seq::empty(),
        },
    }
}

impl<'src> LexerError<'src> {
    /// The diagnostic the error is reported as; the end-of-text error is
    /// never reported.
    pub fn into_diagnostic(&self) -> (d: Diagnostic<'src>)
        requires
            !(self is EofAlreadyReached),
        ensures
            d@ == lexer_error_view(*self),
    {
        proof {
            reveal_strlit("E0001");
            reveal_strlit("E0002");
        }
        match self {
            LexerError::UnexpectedCharacter(e) => e.into_diagnostic(),
            LexerError::UnmatchedInterpolation(e) => e.into_diagnostic(),
            LexerError::EofAlreadyReached => vstd::pervasive::unreached(),
        }
    }

    pub fn is_eof(&self) -> (b: bool)
        ensures
            b == (self is EofAlreadyReached),
    {
        match self {
            LexerError::EofAlreadyReached => true,
            _ => false,
        }
    }
}

/// What went wrong while lexing, as the first lexer of fowl named it.
#[derive(Clone, Copy, Debug)]
pub enum LexerErrorKind<'src> {
    UnexpectedToken(&'src str),
    UnmatchedInterpolation(&'src str),
    EofReached,
}

/// The text of a lexer error kind: its name, and the text it holds in
/// brackets.
pub open spec fn lexer_error_kind_text<'src>(k: LexerErrorKind<'src>) -> Seq<char> {
    match k {
        LexerErrorKind::UnexpectedToken(t) => "UnexpectedToken("@ + t@ + ")"@,
        LexerErrorKind::UnmatchedInterpolation(t) => "UnmatchedInterpolation("@ + t@ + ")"@,
        LexerErrorKind::EofReached => "EofReached"@,
    }
}

impl<'src> LexerErrorKind<'src> {
    /// The kind as text, such as `UnexpectedToken(§)`.
    pub fn to_string(&self) -> (s: String)
        ensures
            s@ == lexer_error_kind_text(*self),
    {
        match self {
            LexerErrorKind::UnexpectedToken(t) => {
                let mut s = String::from_str("UnexpectedToken(");
                s.append(t);
                s.append(")");
                s
            },
            LexerErrorKind::UnmatchedInterpolation(t) => {
                let mut s = String::from_str("UnmatchedInterpolation(");
                s.append(t);
                s.append(")");
                s
            },
            LexerErrorKind::EofReached => String::from_str("EofReached"),
        }
    }
}

} // verus!
