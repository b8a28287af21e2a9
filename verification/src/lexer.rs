//! The lexer: turns source text into tokens, one call of `next` at a time.

use crate::grammar::{
    ends_statement, ends_statement_kind, has_quote_from, ident_end, init_step, is_digit,
    is_ident_byte, is_ident_start, is_ident_start_byte, is_number_byte, is_ws, lemma_run_end,
    lemma_text_end, newline_follows, next_boundary, not_newline, number_end, one_byte_token,
    one_byte_token_of, quote_from, scan_blank, scan_ident, scan_line, scan_number, scan_text,
    scan_ws, step, str_step, two_byte_op, two_byte_op_of, word_kind_at, Cond, Scanned, Step,
};
use crate::lexer_error::{LexerError, MissingBrace, UnexpectedCharacter, UnmatchedInterpolation};
use crate::source_span::Span;
use crate::token::{Token, TokenKind};
use std::collections::VecDeque;
use vstd::prelude::*;
use vstd::string::*;
use vstd::utf8::*;

verus! {

/// A byte below 128 stands on a character boundary, and so does the offset after it.
pub proof fn lemma_ascii_boundary(b: Seq<u8>, i: int)
    requires
        valid_utf8(b),
        0 <= i < b.len(),
        b[i] < 128,
    ensures
        is_char_boundary(b, i),
        is_char_boundary(b, i + 1),
{
    is_char_boundary_iff_not_is_continuation_byte(b, i);
    is_char_boundary_start_end_of_seq(b);
    if i + 1 < b.len() {
        valid_utf8_split(b, i);
        let r = b.subrange(i, b.len() as int);
        assert(r[0] == b[i]);
        assert(length_of_first_scalar(r) == 1);
        let r2 = pop_first_scalar(r);
        assert(r2 =~= b.subrange(i + 1, b.len() as int));
        assert(valid_utf8(r2));
        assert(r2[0] == b[i + 1]);
        assert(valid_first_scalar(r2));
        is_char_boundary_iff_not_is_continuation_byte(b, i + 1);
    }
}

/// The first boundary at or after `i` is a boundary no later than the end of the text.
pub proof fn lemma_next_boundary(b: Seq<u8>, i: int)
    requires
        valid_utf8(b),
        0 <= i <= b.len(),
    ensures
        i <= next_boundary(b, i) <= b.len(),
        is_char_boundary(b, next_boundary(b, i)),
        is_char_boundary(b, i) ==> next_boundary(b, i) == i,
    decreases b.len() - i,
{
    is_char_boundary_start_end_of_seq(b);
    if i < b.len() && !is_char_boundary(b, i) {
        lemma_next_boundary(b, i + 1);
    }
}

/// Every step of the lexer in the `Init` condition consumes at least one byte
/// and stops on a character boundary.
pub proof fn law_init_step_progress(b: Seq<u8>, depth: int, c: int)
    requires
        valid_utf8(b),
        0 <= c < b.len(),
        is_char_boundary(b, c),
        0 <= depth <= c,
    ensures
        c < init_step(b, depth, c).end <= b.len(),
        is_char_boundary(b, init_step(b, depth, c).end),
        0 <= init_step(b, depth, c).depth <= init_step(b, depth, c).end,
{
    let x = b[c];
    let st = init_step(b, depth, c);
    is_char_boundary_start_end_of_seq(b);
    if is_ws(x) {
        lemma_run_end(b, c, |c: u8| is_ws(c));
        lemma_ascii_boundary(b, st.end - 1);
    } else if x == 47u8 && c + 1 < b.len() && b[c + 1] == 47u8 {
        lemma_run_end(b, c, |c: u8| not_newline(c));
        if st.end < b.len() {
            lemma_ascii_boundary(b, st.end);
        }
    } else if is_digit(x) || (x == 45u8 && c + 1 < b.len() && is_digit(b[c + 1])) {
        let s = if x == 45u8 { c + 1 } else { c };
        lemma_run_end(b, s, |c: u8| is_number_byte(c));
        let d = number_end(b, s);
        if d + 1 < b.len() && b[d] == 46u8 && is_digit(b[d + 1]) {
            lemma_run_end(b, d + 1, |c: u8| is_number_byte(c));
        }
        lemma_ascii_boundary(b, st.end - 1);
    } else if is_ident_start(x) {
        lemma_run_end(b, c, |c: u8| is_ident_byte(c));
        if st.end < b.len() {
            lemma_ascii_boundary(b, st.end);
        }
    } else if x == 34u8 {
        lemma_ascii_boundary(b, c);
    } else if x == 125u8 && depth > 0 {
        lemma_ascii_boundary(b, c);
    } else if c + 1 < b.len() && two_byte_op(x, b[c + 1]) is Some {
        lemma_ascii_boundary(b, c + 1);
    } else if one_byte_token(x) is Some {
        lemma_ascii_boundary(b, c);
    } else {
        lemma_ascii_boundary(b, c);
        lemma_next_boundary(b, c + 1);
    }
}

/// Every step of the lexer in the `Str` condition consumes at least one byte
/// and stops on a character boundary.
pub proof fn law_str_step_progress(b: Seq<u8>, depth: int, c: int)
    requires
        valid_utf8(b),
        0 <= c < b.len(),
        is_char_boundary(b, c),
        0 <= depth <= c,
    ensures
        c < str_step(b, depth, c).end <= b.len(),
        is_char_boundary(b, str_step(b, depth, c).end),
        0 <= str_step(b, depth, c).depth <= str_step(b, depth, c).end,
{
    let x = b[c];
    let st = str_step(b, depth, c);
    is_char_boundary_start_end_of_seq(b);
    if x == 34u8 || x == 123u8 || x == 125u8 {
        lemma_ascii_boundary(b, c);
    } else {
        if x == 92u8 && c + 1 < b.len() {
            lemma_text_end(b, c + 2);
        } else if x != 92u8 {
            lemma_text_end(b, c + 1);
        }
        if st.end < b.len() {
            lemma_ascii_boundary(b, st.end);
        }
    }
}

/// Every step of the lexer consumes at least one byte and stops on a character boundary.
pub proof fn law_step_progress(b: Seq<u8>, cond: Cond, depth: int, c: int)
    requires
        valid_utf8(b),
        0 <= c < b.len(),
        is_char_boundary(b, c),
        0 <= depth <= c,
    ensures
        c < step(b, cond, depth, c).end <= b.len(),
        is_char_boundary(b, step(b, cond, depth, c).end),
        0 <= step(b, cond, depth, c).depth <= step(b, cond, depth, c).end,
{
    match cond {
        Cond::Init => law_init_step_progress(b, depth, c),
        Cond::Str => law_str_step_progress(b, depth, c),
    }
}


/// `sp` covers `lo..hi` of `text`, the contents of `file`.
pub open spec fn span_is<'src>(sp: Span<'src>, lo: int, hi: int, file: Seq<char>, text: Seq<char>) -> bool {
    sp.lo() == lo && sp.hi() == hi && sp.file_name() == file && sp.text() == text
}

/// `r` is what the lexer hands out for having read `s` at `lo..hi`.
pub open spec fn scanned_result<'src>(
    r: Result<Token<'src>, LexerError<'src>>,
    s: Scanned,
    lo: int,
    hi: int,
    file: Seq<char>,
    text: Seq<char>,
    bytes: Seq<u8>,
) -> bool {
    match s {
        Scanned::Tok(k) => r matches Ok(t) && t.kind == k && span_is(t.span, lo, hi, file, text),
        Scanned::Unexpected => r matches Err(LexerError::UnexpectedCharacter(e)) && span_is(
            e.span,
            lo,
            hi,
            file,
            text,
        ) && e.char.spec_bytes() == bytes.subrange(lo, hi),
        Scanned::Unmatched(m) => r matches Err(LexerError::UnmatchedInterpolation(e)) && span_is(
            e.span,
            lo,
            hi,
            file,
            text,
        ) && e.missing == m,
    }
}

/// `t` is a semicolon the lexer inserts at offset `at`.
pub open spec fn is_inserted_semicolon<'src>(t: Token<'src>, at: int, file: Seq<char>, text: Seq<char>) -> bool {
    t.kind == TokenKind::Semicolon && span_is(t.span, at, at + 1, file, text)
}

pub struct Lexer<'src> {
    input: &'src str,
    bytes: &'src [u8],
    path: &'src str,
    token: usize,
    cursor: usize,
    cond: Cond,
    interpolation_depth: usize,
    eof: bool,
    peek_queue: VecDeque<Result<Token<'src>, LexerError<'src>>>,
    force_next_token: Option<Token<'src>>,
}

impl<'src> Lexer<'src> {
    /// The bytes of the source text.
    pub closed spec fn src(self) -> Seq<u8> {
        self.bytes@
    }

    /// The source text.
    pub closed spec fn text(self) -> Seq<char> {
        self.input@
    }

    /// The name of the file the text comes from.
    pub closed spec fn file(self) -> Seq<char> {
        self.path@
    }

    /// The offset the next token starts at.
    pub closed spec fn pos(self) -> int {
        self.cursor as int
    }

    /// The offset the last token read started at.
    pub closed spec fn token_start(self) -> int {
        self.token as int
    }

    pub closed spec fn condition(self) -> Cond {
        self.cond
    }

    /// How many interpolations are open.
    pub closed spec fn depth(self) -> int {
        self.interpolation_depth as int
    }

    /// Whether the end of the text has been reported.
    pub closed spec fn at_eof(self) -> bool {
        self.eof
    }

    /// The semicolon inserted after the last token, not yet handed out.
    pub closed spec fn pending(self) -> Option<Token<'src>> {
        self.force_next_token
    }

    /// The results read ahead by peeking, not yet handed out.
    pub closed spec fn queue(self) -> Seq<Result<Token<'src>, LexerError<'src>>> {
        self.peek_queue@
    }

    /// The invariant of the lexer.
    pub closed spec fn wf(self) -> bool {
        &&& self.bytes@ == self.input.spec_bytes()
        &&& self.token <= self.cursor <= self.bytes@.len()
        &&& is_char_boundary(self.bytes@, self.cursor as int)
        &&& is_char_boundary(self.bytes@, self.token as int)
        &&& self.interpolation_depth <= self.cursor
        &&& self.eof ==> self.cursor == self.bytes@.len()
        &&& self.force_next_token matches Some(t) ==> is_inserted_semicolon(
            t,
            self.cursor as int,
            self.path@,
            self.input@,
        ) && self.cursor < self.bytes@.len()
    }

    /// `self` is `old` after one step of reading: the token or error `r` was
    /// read from `old.pos()`.
    pub open spec fn stepped(old: Self, new: Self, r: Result<Token<'src>, LexerError<'src>>) -> bool {
        let st = step(old.src(), old.condition(), old.depth(), old.pos());
        &&& new.src() == old.src()
        &&& new.text() == old.text()
        &&& new.file() == old.file()
        &&& new.pos() == st.end
        &&& new.condition() == st.cond
        &&& new.depth() == st.depth
        &&& !new.at_eof()
        &&& scanned_result(r, st.scanned, old.pos(), st.end, old.file(), old.text(), old.src())
        &&& new.pending() == (if st.scanned matches Scanned::Tok(k) && ends_statement(k)
            && newline_follows(old.src(), st.end) {
            Some(new.pending()->0)
        } else {
            None
        })
    }

    /// Whether `self` is a lexer that has read nothing yet of `source`, the
    /// text of the file at `path`.
    pub open spec fn fresh(self, source: &'src str, path: &'src str) -> bool {
        &&& self.wf()
        &&& self.src() == source.spec_bytes()
        &&& self.text() == source@
        &&& self.file() == path@
        &&& self.pos() == 0
        &&& self.token_start() == 0
        &&& self.condition() == Cond::Init
        &&& self.depth() == 0
        &&& !self.at_eof()
        &&& self.pending() is None
        &&& self.queue() == Seq::<Result<Token<'src>, LexerError<'src>>>::empty()
    }

    /// Creates a new lexer from the source.
    /// The lexer is sort of like an iterator, in that it doesn't have a `lex` method,
    /// rather, you advance the lexer by calling `next`
    pub fn new(source: &'src str, path: &'src str) -> (l: Self)
        ensures
            l.fresh(source, path),
    {
        proof {
            encode_utf8_valid_utf8(source@);
            is_char_boundary_start_end_of_seq(source.spec_bytes());
        }
        Lexer {
            input: source,
            bytes: source.as_bytes(),
            path,
            token: 0,
            cursor: 0,
            cond: Cond::Init,
            interpolation_depth: 0,
            eof: false,
            peek_queue: VecDeque::new(),
            force_next_token: None,
        }
    }

    proof fn lemma_valid(&self)
        requires
            self.wf(),
        ensures
            valid_utf8(self.src()),
    {
        encode_utf8_valid_utf8(self.input@);
    }

    /// Get the current lexer span
    fn span(&self) -> (s: Span<'src>)
        ensures
            span_is(s, self.token_start(), self.pos(), self.file(), self.text()),
    {
        Span::new(self.token, self.cursor, self.path, self.input)
    }

    /// Report an error
    fn error(&mut self, error: LexerError<'src>) -> (r: Result<Token<'src>, LexerError<'src>>)
        ensures
            r == Err::<Token<'src>, LexerError<'src>>(error),
            *final(self) == *old(self),
    {
        Err(error)
    }

    /// Makes a token of `kind` from the text read last, and inserts a
    /// semicolon after it when the line ends after a token that can end a
    /// statement: when only whitespace other than newlines stands between the
    /// token and the next newline. An inserted semicolon replaces one that was
    /// pending; otherwise what was pending stays.
    fn token(&mut self, kind: TokenKind) -> (r: Result<Token<'src>, LexerError<'src>>)
        requires
            old(self).wf(),
        ensures
            final(self).wf(),
            r matches Ok(t) && t.kind == kind && span_is(
                t.span,
                old(self).token_start(),
                old(self).pos(),
                old(self).file(),
                old(self).text(),
            ),
            final(self).pending() == (if kind != TokenKind::Eof && ends_statement(kind)
                && newline_follows(old(self).src(), old(self).pos()) {
                Some(final(self).pending()->0)
            } else {
                old(self).pending()
            }),
            final(self).pending() matches Some(t) ==> is_inserted_semicolon(
                t,
                old(self).pos(),
                old(self).file(),
                old(self).text(),
            ),
            final(self).src() == old(self).src(),
            final(self).text() == old(self).text(),
            final(self).file() == old(self).file(),
            final(self).pos() == old(self).pos(),
            final(self).token_start() == old(self).token_start(),
            final(self).condition() == old(self).condition(),
            final(self).depth() == old(self).depth(),
            final(self).at_eof() == old(self).at_eof(),
            final(self).queue() == old(self).queue(),
    {
        let res = Ok(Token { kind, span: self.span() });
        if kind == TokenKind::Eof {
            return res;
        }
        let blank = scan_blank(self.bytes, self.cursor);
        let next_is_newline = blank < self.bytes.len() && self.bytes[blank] == 10u8;
        if next_is_newline && ends_statement_kind(kind) {
            self.force_next_token = Some(
                Token {
                    kind: TokenKind::Semicolon,
                    span: Span::new(self.cursor, self.cursor + 1, self.path, self.input),
                },
            );
        }
        res
    }

    /// In cases when we get weird characters like 'Ş' with special char
    /// boundaries, we can use this method to advance the cursor to the nearest
    /// boundary
    fn find_boundary(&mut self)
        requires
            old(self).bytes@ == old(self).input.spec_bytes(),
            old(self).cursor <= old(self).bytes@.len(),
        ensures
            *final(self) == (Lexer { cursor: next_boundary(old(self).src(), old(self).pos()) as usize, ..*old(self) }),
    {
        proof {
            encode_utf8_valid_utf8(self.input@);
            lemma_next_boundary(self.bytes@, self.cursor as int);
        }
        let n = self.bytes.len();
        while !self.input.is_char_boundary(self.cursor)
            invariant
                n == self.bytes@.len(),
                self.bytes == old(self).bytes,
                self.input == old(self).input,
                *self == (Lexer { cursor: self.cursor, ..*old(self) }),
                old(self).cursor <= self.cursor <= self.bytes@.len(),
                next_boundary(self.bytes@, self.cursor as int) == next_boundary(
                    self.bytes@,
                    old(self).cursor as int,
                ),
                valid_utf8(self.bytes@),
                self.bytes@ == self.input.spec_bytes(),
            decreases self.bytes@.len() - self.cursor,
        {
            proof {
                is_char_boundary_start_end_of_seq(self.bytes@);
                assert(self.cursor < n);
            }
            self.cursor = self.cursor + 1;
        }
    }

    /// The text of the token read last.
    fn token_text(&self) -> (s: &'src str)
        requires
            self.wf(),
        ensures
            s.spec_bytes() == self.src().subrange(self.token_start(), self.pos()),
    {
        proof {
            encode_utf8_valid_utf8(self.input@);
            let b = self.bytes@;
            let rest = b.subrange(self.token as int, b.len() as int);
            valid_utf8_split(b, self.token as int);
            is_char_boundary_start_end_of_seq(rest);
            if self.cursor < b.len() {
                is_char_boundary_iff_not_is_continuation_byte(b, self.cursor as int);
                assert(rest[self.cursor - self.token] == b[self.cursor as int]);
                is_char_boundary_iff_not_is_continuation_byte(rest, self.cursor - self.token);
            }
        }
        let (_, rest) = self.input.split_at(self.token);
        let (text, _) = rest.split_at(self.cursor - self.token);
        proof {
            assert(text.spec_bytes() =~= self.bytes@.subrange(self.token as int, self.cursor as int));
        }
        text
    }
}


impl<'src> Lexer<'src> {
    /// `new` reads on where `old` stopped: the same text, position, start
    /// condition, depth and end-of-text flag.
    pub open spec fn same_reading(old: Self, new: Self) -> bool {
        &&& new.src() == old.src()
        &&& new.text() == old.text()
        &&& new.file() == old.file()
        &&& new.pos() == old.pos()
        &&& new.condition() == old.condition()
        &&& new.depth() == old.depth()
        &&& new.at_eof() == old.at_eof()
    }

    /// One result read from the text (not from the peek queue): the pending
    /// semicolon if there is one; else, past the end, the end-of-text error;
    /// else at the end of the text an `Eof` token; else one step of reading.
    pub open spec fn advanced(old: Self, new: Self, r: Result<Token<'src>, LexerError<'src>>) -> bool {
        if old.pending() is Some {
            &&& r == Ok::<Token<'src>, LexerError<'src>>(old.pending()->0)
            &&& Self::same_reading(old, new)
            &&& new.pending() is None
        } else if old.at_eof() {
            &&& r matches Err(LexerError::EofAlreadyReached)
            &&& Self::same_reading(old, new)
            &&& new.pending() is None
        } else if old.pos() >= old.src().len() {
            &&& r matches Ok(t) && t.kind == TokenKind::Eof && span_is(t.span, old.pos(), old.pos(), old.file(), old.text())
            &&& new.src() == old.src()
            &&& new.text() == old.text()
            &&& new.file() == old.file()
            &&& new.pos() == old.pos()
            &&& new.condition() == old.condition()
            &&& new.depth() == old.depth()
            &&& new.at_eof()
            &&& new.pending() is None
        } else {
            &&& Self::stepped(old, new, r)
        }
    }

    fn scan_init(&mut self) -> (r: Result<Token<'src>, LexerError<'src>>)
        requires
            old(self).wf(),
            !old(self).at_eof(),
            old(self).pending() is None,
            old(self).condition() == Cond::Init,
            old(self).pos() < old(self).src().len(),
        ensures
            final(self).wf(),
            Self::stepped(*old(self), *final(self), r),
            final(self).queue() == old(self).queue(),
    {
        proof {
            self.lemma_valid();
            law_init_step_progress(self.bytes@, self.interpolation_depth as int, self.cursor as int);
        }
        let bytes = self.bytes;
        let len = bytes.len();
        let c = self.cursor;
        self.token = c;
        let x = bytes[c];
        let has_next = c + 1 < len;
        if x == 32u8 || x == 9u8 || x == 10u8 || x == 13u8 || x == 11u8 || x == 12u8 {
            self.cursor = scan_ws(bytes, c);
            self.token(TokenKind::Whitespace)
        } else if x == 47u8 && has_next && bytes[c + 1] == 47u8 {
            self.cursor = scan_line(bytes, c);
            self.token(TokenKind::Comment)
        } else if (48u8 <= x && x <= 57u8) || (x == 45u8 && has_next && 48u8 <= bytes[c + 1]
            && bytes[c + 1] <= 57u8) {
            let s = if x == 45u8 {
                c + 1
            } else {
                c
            };
            let d = scan_number(bytes, s);
            if d < len - 1 && bytes[d] == 46u8 && 48u8 <= bytes[d + 1] && bytes[d + 1] <= 57u8 {
                self.cursor = scan_number(bytes, d + 1);
                self.token(TokenKind::FloatLiteral)
            } else {
                self.cursor = d;
                self.token(TokenKind::IntLiteral)
            }
        } else if is_ident_start_byte(x) {
            let e = scan_ident(bytes, c);
            let kind = word_kind_at(bytes, c, e);
            self.cursor = e;
            self.token(kind)
        } else if x == 34u8 {
            if self.interpolation_depth > 0 && !quote_from(bytes, c + 1) {
                self.cursor = c + 1;
                let span = self.span();
                self.interpolation_depth = 0;
                self.cond = Cond::Init;
                self.error(
                    LexerError::UnmatchedInterpolation(
                        UnmatchedInterpolation { span, missing: MissingBrace::Right },
                    ),
                )
            } else {
                self.cursor = c + 1;
                self.cond = Cond::Str;
                self.token(TokenKind::StringInterpolationStart)
            }
        } else if x == 125u8 && self.interpolation_depth > 0 {
            self.cursor = c + 1;
            self.interpolation_depth = self.interpolation_depth - 1;
            self.cond = Cond::Str;
            self.token(TokenKind::RBrace)
        } else {
            let two = if has_next {
                two_byte_op_of(x, bytes[c + 1])
            } else {
                None
            };
            match two {
                Some(kind) => {
                    self.cursor = c + 2;
                    self.token(kind)
                },
                None => match one_byte_token_of(x) {
                    Some(kind) => {
                        self.cursor = c + 1;
                        self.token(kind)
                    },
                    None => {
                        self.cursor = c + 1;
                        self.find_boundary();
                        let span = self.span();
                        let char = self.token_text();
                        self.error(
                            LexerError::UnexpectedCharacter(UnexpectedCharacter { span, char }),
                        )
                    },
                },
            }
        }
    }

    fn scan_str(&mut self) -> (r: Result<Token<'src>, LexerError<'src>>)
        requires
            old(self).wf(),
            !old(self).at_eof(),
            old(self).pending() is None,
            old(self).condition() == Cond::Str,
            old(self).pos() < old(self).src().len(),
        ensures
            final(self).wf(),
            Self::stepped(*old(self), *final(self), r),
            final(self).queue() == old(self).queue(),
    {
        proof {
            self.lemma_valid();
            law_str_step_progress(self.bytes@, self.interpolation_depth as int, self.cursor as int);
        }
        let bytes = self.bytes;
        let c = self.cursor;
        self.token = c;
        let x = bytes[c];
        if x == 34u8 {
            self.cursor = c + 1;
            self.cond = Cond::Init;
            self.token(TokenKind::StringInterpolationEnd)
        } else if x == 123u8 {
            self.cursor = c + 1;
            self.interpolation_depth = self.interpolation_depth + 1;
            self.cond = Cond::Init;
            self.token(TokenKind::LBrace)
        } else if x == 125u8 {
            self.cursor = c + 1;
            let span = self.span();
            self.error(
                LexerError::UnmatchedInterpolation(
                    UnmatchedInterpolation { span, missing: MissingBrace::Left },
                ),
            )
        } else {
            self.cursor = scan_text(bytes, c);
            self.token(TokenKind::StringLiteral)
        }
    }

    /// Reads one result from the text.
    fn scan(&mut self) -> (r: Result<Token<'src>, LexerError<'src>>)
        requires
            old(self).wf(),
            !old(self).at_eof(),
            old(self).pending() is None,
        ensures
            final(self).wf(),
            Self::advanced(*old(self), *final(self), r),
            final(self).queue() == old(self).queue(),
    {
        if self.cursor >= self.bytes.len() {
            self.token = self.cursor;
            self.eof = true;
            return self.token(TokenKind::Eof);
        }
        match self.cond {
            Cond::Init => self.scan_init(),
            Cond::Str => self.scan_str(),
        }
    }

    fn next_internal(&mut self, from_queue: bool) -> (r: Result<Token<'src>, LexerError<'src>>)
        requires
            old(self).wf(),
        ensures
            final(self).wf(),
            from_queue && old(self).queue().len() > 0 ==> {
                &&& r == old(self).queue()[0]
                &&& final(self).queue() == old(self).queue().drop_first()
                &&& Self::same_reading(*old(self), *final(self))
                &&& final(self).pending() == old(self).pending()
            },
            !(from_queue && old(self).queue().len() > 0) ==> {
                &&& Self::advanced(*old(self), *final(self), r)
                &&& final(self).queue() == old(self).queue()
            },
    {
        if from_queue && self.peek_queue.len() > 0 {
            let r = self.peek_queue.pop_front();
            return r.unwrap();
        }
        match self.force_next_token {
            Some(t) => {
                self.force_next_token = None;
                return Ok(t);
            },
            None => {},
        }
        if self.eof {
            return Err(LexerError::EofAlreadyReached);
        }
        self.scan()
    }

    /// Hands out the next token: a token read ahead by peeking, if any, else
    /// the next one read from the text.
    pub fn next(&mut self) -> (r: Result<Token<'src>, LexerError<'src>>)
        requires
            old(self).wf(),
        ensures
            final(self).wf(),
            old(self).queue().len() > 0 ==> {
                &&& r == old(self).queue()[0]
                &&& final(self).queue() == old(self).queue().drop_first()
                &&& Self::same_reading(*old(self), *final(self))
                &&& final(self).pending() == old(self).pending()
            },
            old(self).queue().len() == 0 ==> {
                &&& Self::advanced(*old(self), *final(self), r)
                &&& final(self).queue() == old(self).queue()
            },
    {
        self.next_internal(true)
    }

    /// Peeks ahead to the next token without consuming
    pub fn peek(&mut self) -> (r: Result<Token<'src>, LexerError<'src>>)
        requires
            old(self).wf(),
        ensures
            final(self).wf(),
            old(self).queue().len() > 0 ==> {
                &&& r == old(self).queue()[0]
                &&& final(self).queue() == old(self).queue()
                &&& Self::same_reading(*old(self), *final(self))
                &&& final(self).pending() == old(self).pending()
                &&& final(self).token_start() == old(self).token_start()
            },
            old(self).queue().len() == 0 ==> {
                &&& Self::advanced(*old(self), *final(self), r)
                &&& final(self).queue() == seq![r]
            },
            final(self).queue()[0] == r,
    {
        if self.peek_queue.len() > 0 {
            return self.peek_queue[0];
        }
        let next = self.next_internal(true);
        self.peek_queue.push_back(next);
        proof {
            assert(self.peek_queue@ =~= seq![next]);
        }
        self.peek_queue[0]
    }

    /// Peeks one more ahead to the next token without consuming
    pub fn peek_more(&mut self) -> (r: Result<Token<'src>, LexerError<'src>>)
        requires
            old(self).wf(),
        ensures
            final(self).wf(),
            Self::advanced(*old(self), *final(self), r),
            final(self).queue() == old(self).queue().push(r),
    {
        let next = self.next_internal(false);
        self.peek_queue.push_back(next);
        next
    }

    /// After peeking, this makes the lexer catch up to the peeked queue
    pub fn catch_up(&mut self)
        requires
            old(self).wf(),
        ensures
            final(self).wf(),
            Self::same_reading(*old(self), *final(self)),
            final(self).pending() == old(self).pending(),
            final(self).token_start() == old(self).token_start(),
            final(self).queue() == Seq::<Result<Token<'src>, LexerError<'src>>>::empty(),
    {
        self.peek_queue.clear();
    }
}


impl<'src> Lexer<'src> {
    /// What `next` hands out after a `peek` is what the `peek` returned: the
    /// first of the results waiting in the queue.
    pub proof fn law_next_hands_out_the_peeked(self, new: Self, r: Result<Token<'src>, LexerError<'src>>)
        requires
            self.queue().len() > 0,
            Self::next_step(self, new, r),
        ensures
            r == self.queue()[0],
            new.queue() == self.queue().drop_first(),
    {
    }
}

impl<'src> Lexer<'src> {
    /// A number at the end of a line ends the statement: when the lexer reads
    /// a number and only blanks stand between it and the next newline, it
    /// hands out the number and then a semicolon right after it.
    pub proof fn law_semicolon_after_number_at_line_end(
        old: Self,
        new: Self,
        r: Result<Token<'src>, LexerError<'src>>,
    )
        requires
            Self::stepped(old, new, r),
            old.condition() == Cond::Init,
            0 <= old.pos() < old.src().len(),
            is_digit(old.src()[old.pos()]),
            newline_follows(old.src(), new.pos()),
            new.wf(),
        ensures
            r matches Ok(t) && (t.kind == TokenKind::IntLiteral || t.kind == TokenKind::FloatLiteral),
            new.pending() matches Some(t) && t.kind == TokenKind::Semicolon && span_is(
                t.span,
                new.pos(),
                new.pos() + 1,
                new.file(),
                new.text(),
            ),
    {
        let b = old.src();
        let c = old.pos();
        assert(!is_ws(b[c]));
        assert(!(b[c] == 47u8));
        let st = step(b, Cond::Init, old.depth(), c);
        assert(st.scanned == Scanned::Tok(TokenKind::IntLiteral) || st.scanned == Scanned::Tok(
            TokenKind::FloatLiteral,
        ));
    }

    /// A semicolon is inserted after a token exactly when the token can end a
    /// statement and only blanks stand between it and the next newline. The
    /// tokens that can end a statement are those a value ends with (a name, a
    /// number, a boolean, `none`, the end of a string, a closing parenthesis,
    /// bracket or brace) and the jumps that may stand alone (`return`,
    /// `break`, `continue`); after an operator, an opening bracket, a
    /// separator or any other keyword the statement goes on.
    pub proof fn law_semicolon_inserted_exactly_after_statement_ends(
        old: Self,
        new: Self,
        r: Result<Token<'src>, LexerError<'src>>,
    )
        requires
            Self::stepped(old, new, r),
            new.wf(),
            r is Ok,
        ensures
            new.pending() is Some <==> newline_follows(old.src(), new.pos()) && ({
                let k = r->Ok_0.kind;
                ||| k == TokenKind::Ident
                ||| k == TokenKind::IntLiteral
                ||| k == TokenKind::FloatLiteral
                ||| k == TokenKind::BoolLiteral
                ||| k == TokenKind::None_
                ||| k == TokenKind::StringInterpolationEnd
                ||| k == TokenKind::RParen
                ||| k == TokenKind::RBracket
                ||| k == TokenKind::RBrace
                ||| k == TokenKind::Return
                ||| k == TokenKind::Break
                ||| k == TokenKind::Continue
            }),
            new.pending() matches Some(t) ==> t.kind == TokenKind::Semicolon && span_is(
                t.span,
                new.pos(),
                new.pos() + 1,
                new.file(),
                new.text(),
            ),
    {
    }

    /// A closing parenthesis or bracket at the end of a line ends the
    /// statement in the same way.
    pub proof fn law_semicolon_after_closing_bracket_at_line_end(
        old: Self,
        new: Self,
        r: Result<Token<'src>, LexerError<'src>>,
    )
        requires
            Self::stepped(old, new, r),
            old.condition() == Cond::Init,
            0 <= old.pos() < old.src().len(),
            old.src()[old.pos()] == 41u8 || old.src()[old.pos()] == 93u8,
            newline_follows(old.src(), new.pos()),
            new.wf(),
        ensures
            r matches Ok(t) && (t.kind == TokenKind::RParen || t.kind == TokenKind::RBracket),
            new.pending() matches Some(t) && t.kind == TokenKind::Semicolon,
    {
    }
}

/// Whether a result is the end-of-text token.
pub open spec fn is_eof_result<'src>(r: Result<Token<'src>, LexerError<'src>>) -> bool {
    r matches Ok(t) && t.kind == TokenKind::Eof
}

impl<'src> Lexer<'src> {
    /// `new` is `old` after a call of `next` that handed out `r`.
    pub open spec fn next_step(old: Self, new: Self, r: Result<Token<'src>, LexerError<'src>>) -> bool {
        &&& new.wf()
        &&& old.queue().len() > 0 ==> {
            &&& r == old.queue()[0]
            &&& new.queue() == old.queue().drop_first()
            &&& Self::same_reading(old, new)
            &&& new.pending() == old.pending()
        }
        &&& old.queue().len() == 0 ==> {
            &&& Self::advanced(old, new, r)
            &&& new.queue() == old.queue()
        }
    }

    /// `toks` is what successive calls of `next` on `self` hand out, up to
    /// and including the first `Eof` token.
    pub open spec fn hands_out(self, toks: Seq<Result<Token<'src>, LexerError<'src>>>) -> bool {
        &&& toks.len() > 0
        &&& is_eof_result(toks.last())
        &&& forall|i: int| 0 <= i < toks.len() - 1 ==> !is_eof_result(#[trigger] toks[i])
        &&& exists|ls: Seq<Self>| #[trigger] self.steps_through(ls, toks)
    }

    /// `ls` are the states of the lexer while it hands out `toks`: it starts
    /// as `self`, and each call of `next` takes it from one to the next.
    pub open spec fn steps_through(
        self,
        ls: Seq<Self>,
        toks: Seq<Result<Token<'src>, LexerError<'src>>>,
    ) -> bool {
        &&& ls.len() == toks.len() + 1
        &&& ls[0] == self
        &&& forall|i: int|
            #![trigger toks[i]]
            0 <= i < toks.len() ==> Self::next_step(ls[i], ls[i + 1], toks[i])
    }

    /// Whether calls of `next` reach an `Eof` token: always, unless the end
    /// has already been reported and no `Eof` token waits in the queue.
    pub open spec fn reaches_eof(self) -> bool {
        self.at_eof() ==> exists|k: int|
            0 <= k < self.queue().len() && is_eof_result(#[trigger] self.queue()[k])
    }

    /// Hands out every result up to and including the first `Eof` token.
    pub fn drain(self) -> (v: Vec<Result<Token<'src>, LexerError<'src>>>)
        requires
            self.wf(),
            self.reaches_eof(),
        ensures
            self.hands_out(v@),
    {
        let ghost start = self;
        let ghost len = self.src().len() as int;
        let mut lexer = self;
        let mut v: Vec<Result<Token<'src>, LexerError<'src>>> = Vec::new();
        let ghost mut ls: Seq<Self> = seq![start];
        loop
            invariant
                lexer.wf(),
                len == lexer.src().len(),
                ls.len() == v@.len() + 1,
                ls[0] == start,
                start == self,
                ls.last() == lexer,
                forall|i: int|
                    #![trigger v@[i]]
                    0 <= i < v@.len() ==> Self::next_step(ls[i], ls[i + 1], v@[i]),
                forall|i: int| 0 <= i < v@.len() ==> !is_eof_result(#[trigger] v@[i]),
                lexer.reaches_eof(),
            decreases
                lexer.queue().len() + (if lexer.at_eof() {
                    0int
                } else {
                    2 * (len - lexer.pos()) + (if lexer.pending() is Some { 1int } else { 0int })
                        + 1
                }),
        {
            let ghost old_lexer = lexer;
            let ghost old_v = v@;
            let r = lexer.next();
            proof {
                if old_lexer.queue().len() == 0 && old_lexer.pending() is None && !old_lexer.at_eof()
                    && old_lexer.pos() < len {
                    old_lexer.lemma_valid();
                    law_step_progress(
                        old_lexer.src(),
                        old_lexer.condition(),
                        old_lexer.depth(),
                        old_lexer.pos(),
                    );
                }
                if old_lexer.queue().len() > 0 && !is_eof_result(r) && lexer.at_eof() {
                    let k = choose|k: int|
                        0 <= k < old_lexer.queue().len() && is_eof_result(
                            #[trigger] old_lexer.queue()[k],
                        );
                    assert(lexer.queue()[k - 1] == old_lexer.queue()[k]);
                }
                ls = ls.push(lexer);
            }
            let is_eof = match &r {
                Ok(t) => t.kind == TokenKind::Eof,
                Err(_) => false,
            };
            v.push(r);
            proof {
                assert forall|i: int| #![trigger v@[i]] 0 <= i < v@.len() implies Self::next_step(
                    ls[i],
                    ls[i + 1],
                    v@[i],
                ) by {
                    if i < old_v.len() {
                        assert(v@[i] == old_v[i]);
                    }
                }
            }
            if is_eof {
                proof {
                    assert(v@.last() == r);
                    assert forall|i: int| 0 <= i < v@.len() - 1 implies !is_eof_result(
                        #[trigger] v@[i],
                    ) by {
                        assert(v@[i] == old_v[i]);
                    }
                    assert(start.steps_through(ls, v@));
                }
                return v;
            }
        }
    }
}

/// The kind of a result, for the ones that are tokens.
pub open spec fn result_kind<'src>(r: Result<Token<'src>, LexerError<'src>>) -> Option<TokenKind> {
    match r {
        Ok(t) => Some(t.kind),
        Err(_) => None,
    }
}

/// Reads the whole source text: every token and error, up to and including
/// the `Eof` token, as a lexer that starts on it hands them out.
pub fn tokenize<'src>(source: &'src str, path: &'src str) -> (v: Vec<Result<Token<'src>, LexerError<'src>>>)
    ensures
        exists|l: Lexer<'src>| l.fresh(source, path) && #[trigger] l.hands_out(v@),
        v@.len() >= 1,
        v@.len() <= 2 * source.spec_bytes().len() + 1,
        v@.last() matches Ok(t) && t.kind == TokenKind::Eof && span_is(
            t.span,
            source.spec_bytes().len() as int,
            source.spec_bytes().len() as int,
            path@,
            source@,
        ),
        forall|i: int| 0 <= i < v@.len() - 1 ==> result_kind(#[trigger] v@[i]) != Some(TokenKind::Eof),
{
    let mut lexer = Lexer::new(source, path);
    let mut v: Vec<Result<Token<'src>, LexerError<'src>>> = Vec::new();
    let ghost len = source.spec_bytes().len() as int;
    let ghost start = lexer;
    let ghost mut ls: Seq<Lexer<'src>> = seq![start];
    loop
        invariant
            start.fresh(source, path),
            ls.len() == v@.len() + 1,
            ls[0] == start,
            ls.last() == lexer,
            forall|i: int|
                #![trigger v@[i]]
                0 <= i < v@.len() ==> Lexer::next_step(ls[i], ls[i + 1], v@[i]),
            len == source.spec_bytes().len(),
            lexer.wf(),
            lexer.src() == source.spec_bytes(),
            lexer.text() == source@,
            lexer.file() == path@,
            lexer.queue().len() == 0,
            !lexer.at_eof(),
            forall|i: int| 0 <= i < v@.len() ==> result_kind(#[trigger] v@[i]) != Some(TokenKind::Eof),
            v@.len() + 2 * (len - lexer.pos()) + (if lexer.pending() is Some { 1int } else { 0int }) <= 2 * len,
        decreases 2 * (len - lexer.pos()) + (if lexer.pending() is Some { 1int } else { 0int }) + 1,
    {
        let ghost old_lexer = lexer;
        let r = lexer.next();
        proof {
            if old_lexer.pending() is None && old_lexer.pos() < len {
                old_lexer.lemma_valid();
                law_step_progress(
                    old_lexer.src(),
                    old_lexer.condition(),
                    old_lexer.depth(),
                    old_lexer.pos(),
                );
            }
        }
        let ghost old_v = v@;
        proof {
            ls = ls.push(lexer);
        }
        let is_eof = match &r {
            Ok(t) => t.kind == TokenKind::Eof,
            Err(_) => false,
        };
        v.push(r);
        proof {
            assert forall|i: int| #![trigger v@[i]] 0 <= i < v@.len() implies Lexer::next_step(
                ls[i],
                ls[i + 1],
                v@[i],
            ) by {
                if i < old_v.len() {
                    assert(v@[i] == old_v[i]);
                }
            }
        }
        if is_eof {
            proof {
                assert(v@.last() == r);
                assert forall|i: int| 0 <= i < v@.len() - 1 implies !is_eof_result(
                    #[trigger] v@[i],
                ) by {
                    assert(v@[i] == old_v[i]);
                    assert(result_kind(old_v[i]) != Some(TokenKind::Eof));
                }
                assert(start.steps_through(ls, v@));
                assert(start.hands_out(v@));
            }
            return v;
        }
    }
}

} // verus!
