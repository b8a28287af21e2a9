//! The lexical grammar of fowl, stated over the bytes of the source text.
//!
//! The lexer has two start conditions: in `Init` it reads ordinary code, in
//! `Str` it reads the text of a string literal. A `{` inside a string opens an
//! interpolation, which is read in `Init` until its matching `}`.

use crate::lexer_error::MissingBrace;
use crate::token::TokenKind;
use vstd::prelude::*;

verus! {

/// The start condition of the lexer.
#[derive(Clone, Copy, Debug, PartialEq, Eq, Structural)]
pub enum Cond {
    /// Reading code.
    Init,
    /// Reading the text of a string literal.
    Str,
}

pub open spec fn is_ws(c: u8) -> bool {
    c == 32u8 || c == 9u8 || c == 10u8 || c == 13u8 || c == 11u8 || c == 12u8
}

/// The byte at offset `k`, or -1 outside the text.
pub open spec fn byte_at(b: Seq<u8>, k: int) -> int {
    if 0 <= k < b.len() {
        b[k] as int
    } else {
        -1
    }
}

/// The length in bytes of the blank that starts at offset `i`, or 0 where none
/// starts there. A blank is a character that `char::is_whitespace` accepts,
/// other than the newline, read from its UTF-8 encoding: tab, vertical tab,
/// form feed, carriage return and space; U+0085 and U+00A0; U+1680;
/// U+2000 to U+200A, U+2028, U+2029, U+202F and U+205F; and U+3000.
pub open spec fn blank_len(b: Seq<u8>, i: int) -> int {
    let x = byte_at(b, i);
    let y = byte_at(b, i + 1);
    let z = byte_at(b, i + 2);
    if x == 9 || x == 11 || x == 12 || x == 13 || x == 32 {
        1
    } else if x == 0xc2 && (y == 0x85 || y == 0xa0) {
        2
    } else if x == 0xe1 && y == 0x9a && z == 0x80 {
        3
    } else if x == 0xe2 && y == 0x80 && ((0x80 <= z <= 0x8a) || z == 0xa8 || z == 0xa9
        || z == 0xaf) {
        3
    } else if x == 0xe2 && y == 0x81 && z == 0x9f {
        3
    } else if x == 0xe3 && y == 0x80 && z == 0x80 {
        3
    } else {
        0
    }
}

pub open spec fn is_digit(c: u8) -> bool {
    48u8 <= c <= 57u8
}

/// A digit or the digit separator `_`.
pub open spec fn is_number_byte(c: u8) -> bool {
    is_digit(c) || c == 95u8
}

/// A byte that can start an identifier: a letter, `_`, or any byte of a
/// non-ASCII character.
pub open spec fn is_ident_start(c: u8) -> bool {
    (97u8 <= c <= 122u8) || (65u8 <= c <= 90u8) || c == 95u8 || c >= 128u8
}

pub open spec fn is_ident_byte(c: u8) -> bool {
    is_ident_start(c) || is_digit(c)
}

pub open spec fn not_newline(c: u8) -> bool {
    c != 10u8
}

/// The end of the longest run of bytes satisfying `p` that starts at `i`.
pub open spec fn run_end(b: Seq<u8>, i: int, p: spec_fn(u8) -> bool) -> int
    decreases b.len() - i,
{
    if 0 <= i < b.len() && p(b[i]) {
        run_end(b, i + 1, p)
    } else {
        i
    }
}

pub open spec fn ws_end(b: Seq<u8>, i: int) -> int {
    run_end(b, i, |c: u8| is_ws(c))
}

/// The end of the longest run of blanks that starts at `i`.
pub open spec fn blank_end(b: Seq<u8>, i: int) -> int
    decreases b.len() - i,
{
    if 0 <= i < b.len() && blank_len(b, i) > 0 {
        blank_end(b, i + blank_len(b, i))
    } else {
        i
    }
}

pub open spec fn number_end(b: Seq<u8>, i: int) -> int {
    run_end(b, i, |c: u8| is_number_byte(c))
}

pub open spec fn ident_end(b: Seq<u8>, i: int) -> int {
    run_end(b, i, |c: u8| is_ident_byte(c))
}

pub open spec fn line_end(b: Seq<u8>, i: int) -> int {
    run_end(b, i, |c: u8| not_newline(c))
}

/// The end of the text of a string literal that starts at `i`: it runs up to
/// the next `"`, `{` or `}` that is not escaped by a backslash.
pub open spec fn text_end(b: Seq<u8>, i: int) -> int
    decreases b.len() - i,
{
    if i < 0 || i >= b.len() {
        i
    } else if b[i] == 92u8 {
        if i + 1 < b.len() {
            text_end(b, i + 2)
        } else {
            b.len() as int
        }
    } else if b[i] == 34u8 || b[i] == 123u8 || b[i] == 125u8 {
        i
    } else {
        text_end(b, i + 1)
    }
}

/// Whether a `"` occurs at or after offset `i`.
pub open spec fn has_quote_from(b: Seq<u8>, i: int) -> bool {
    exists|k: int| i <= k < b.len() && b[k] == 34u8
}

/// The kind of a word made of identifier bytes: a keyword, a bool literal, the
/// underscore, or an identifier.
pub open spec fn word_kind(w: Seq<u8>) -> TokenKind {
    if false {
        TokenKind::Ident
    } else if w.len() == 2 && w[0] == 102u8 && w[1] == 110u8 {
        TokenKind::Fn
    } else if w.len() == 3 && w[0] == 108u8 && w[1] == 101u8 && w[2] == 116u8 {
        TokenKind::Let
    } else if w.len() == 6 && w[0] == 114u8 && w[1] == 101u8 && w[2] == 116u8 && w[3] == 117u8 && w[4] == 114u8 && w[5] == 110u8 {
        TokenKind::Return
    } else if w.len() == 2 && w[0] == 105u8 && w[1] == 102u8 {
        TokenKind::If
    } else if w.len() == 3 && w[0] == 102u8 && w[1] == 111u8 && w[2] == 114u8 {
        TokenKind::For
    } else if w.len() == 5 && w[0] == 98u8 && w[1] == 114u8 && w[2] == 101u8 && w[3] == 97u8 && w[4] == 107u8 {
        TokenKind::Break
    } else if w.len() == 8 && w[0] == 99u8 && w[1] == 111u8 && w[2] == 110u8 && w[3] == 116u8 && w[4] == 105u8 && w[5] == 110u8 && w[6] == 117u8 && w[7] == 101u8 {
        TokenKind::Continue
    } else if w.len() == 2 && w[0] == 105u8 && w[1] == 110u8 {
        TokenKind::In
    } else if w.len() == 2 && w[0] == 105u8 && w[1] == 115u8 {
        TokenKind::Is
    } else if w.len() == 3 && w[0] == 117u8 && w[1] == 115u8 && w[2] == 101u8 {
        TokenKind::Use
    } else if w.len() == 6 && w[0] == 112u8 && w[1] == 117u8 && w[2] == 98u8 && w[3] == 108u8 && w[4] == 105u8 && w[5] == 99u8 {
        TokenKind::Public
    } else if w.len() == 8 && w[0] == 105u8 && w[1] == 110u8 && w[2] == 116u8 && w[3] == 101u8 && w[4] == 114u8 && w[5] == 110u8 && w[6] == 97u8 && w[7] == 108u8 {
        TokenKind::Internal
    } else if w.len() == 7 && w[0] == 112u8 && w[1] == 114u8 && w[2] == 105u8 && w[3] == 118u8 && w[4] == 97u8 && w[5] == 116u8 && w[6] == 101u8 {
        TokenKind::Private
    } else if w.len() == 4 && w[0] == 110u8 && w[1] == 111u8 && w[2] == 110u8 && w[3] == 101u8 {
        TokenKind::None_
    } else if w.len() == 3 && w[0] == 116u8 && w[1] == 114u8 && w[2] == 121u8 {
        TokenKind::Try
    } else if w.len() == 5 && w[0] == 99u8 && w[1] == 97u8 && w[2] == 116u8 && w[3] == 99u8 && w[4] == 104u8 {
        TokenKind::Catch
    } else if w.len() == 5 && w[0] == 116u8 && w[1] == 104u8 && w[2] == 114u8 && w[3] == 111u8 && w[4] == 119u8 {
        TokenKind::Throw
    } else if w.len() == 6 && w[0] == 115u8 && w[1] == 116u8 && w[2] == 114u8 && w[3] == 117u8 && w[4] == 99u8 && w[5] == 116u8 {
        TokenKind::Struct
    } else if w.len() == 4 && w[0] == 101u8 && w[1] == 110u8 && w[2] == 117u8 && w[3] == 109u8 {
        TokenKind::Enum
    } else if w.len() == 3 && w[0] == 97u8 && w[1] == 110u8 && w[2] == 100u8 {
        TokenKind::And
    } else if w.len() == 2 && w[0] == 111u8 && w[1] == 114u8 {
        TokenKind::Or
    } else if w.len() == 3 && w[0] == 109u8 && w[1] == 117u8 && w[2] == 116u8 {
        TokenKind::Mut
    } else if w.len() == 2 && w[0] == 111u8 && w[1] == 110u8 {
        TokenKind::On
    } else if w.len() == 4 && w[0] == 105u8 && w[1] == 109u8 && w[2] == 112u8 && w[3] == 108u8 {
        TokenKind::Impl
    } else if w.len() == 4 && w[0] == 115u8 && w[1] == 101u8 && w[2] == 108u8 && w[3] == 102u8 {
        TokenKind::Self_
    } else if w.len() == 4 && w[0] == 116u8 && w[1] == 114u8 && w[2] == 117u8 && w[3] == 101u8 {
        TokenKind::BoolLiteral
    } else if w.len() == 5 && w[0] == 102u8 && w[1] == 97u8 && w[2] == 108u8 && w[3] == 115u8 && w[4] == 101u8 {
        TokenKind::BoolLiteral
    } else if w.len() == 1 && w[0] == 95u8 {
        TokenKind::Underscore
    } else {
        TokenKind::Ident
    }
}

/// The operator made of the two bytes `x` and `y`, if any.
pub open spec fn two_byte_op(x: u8, y: u8) -> Option<TokenKind> {
    if x == 61u8 && y == 61u8 {
        Some(TokenKind::EqEq)
    } else if x == 33u8 && y == 61u8 {
        Some(TokenKind::Neq)
    } else if x == 60u8 && y == 61u8 {
        Some(TokenKind::LtEq)
    } else if x == 62u8 && y == 61u8 {
        Some(TokenKind::GtEq)
    } else if x == 42u8 && y == 42u8 {
        Some(TokenKind::StarStar)
    } else if x == 43u8 && y == 61u8 {
        Some(TokenKind::PlusEq)
    } else if x == 45u8 && y == 61u8 {
        Some(TokenKind::MinusEq)
    } else if x == 42u8 && y == 61u8 {
        Some(TokenKind::StarEq)
    } else if x == 47u8 && y == 61u8 {
        Some(TokenKind::SlashEq)
    } else {
        None
    }
}

/// The single-byte token `x`, if any.
pub open spec fn one_byte_token(x: u8) -> Option<TokenKind> {
    if x == 61u8 {
        Some(TokenKind::Eq)
    } else if x == 60u8 {
        Some(TokenKind::Lt)
    } else if x == 62u8 {
        Some(TokenKind::Gt)
    } else if x == 43u8 {
        Some(TokenKind::Plus)
    } else if x == 45u8 {
        Some(TokenKind::Minus)
    } else if x == 42u8 {
        Some(TokenKind::Star)
    } else if x == 47u8 {
        Some(TokenKind::Slash)
    } else if x == 37u8 {
        Some(TokenKind::Percent)
    } else if x == 33u8 {
        Some(TokenKind::Bang)
    } else if x == 58u8 {
        Some(TokenKind::Colon)
    } else if x == 59u8 {
        Some(TokenKind::Semicolon)
    } else if x == 40u8 {
        Some(TokenKind::LParen)
    } else if x == 41u8 {
        Some(TokenKind::RParen)
    } else if x == 123u8 {
        Some(TokenKind::LBrace)
    } else if x == 125u8 {
        Some(TokenKind::RBrace)
    } else if x == 91u8 {
        Some(TokenKind::LBracket)
    } else if x == 93u8 {
        Some(TokenKind::RBracket)
    } else if x == 44u8 {
        Some(TokenKind::Comma)
    } else if x == 46u8 {
        Some(TokenKind::Dot)
    } else {
        None
    }
}

/// Tokens after which a newline ends the statement.
pub open spec fn ends_statement(kind: TokenKind) -> bool {
    match kind {
        TokenKind::Return | TokenKind::Break | TokenKind::Continue | TokenKind::None_
        | TokenKind::Ident | TokenKind::IntLiteral | TokenKind::FloatLiteral
        | TokenKind::BoolLiteral | TokenKind::StringInterpolationEnd | TokenKind::RParen
        | TokenKind::RBrace | TokenKind::RBracket => true,
        _ => false,
    }
}

/// Whether only blanks (whitespace characters other than the newline) stand
/// between offset `i` and a newline.
pub open spec fn newline_follows(b: Seq<u8>, i: int) -> bool {
    blank_end(b, i) < b.len() && b[blank_end(b, i)] == 10u8
}

/// What one step of the lexer reads.
pub ghost enum Scanned {
    /// A token of the given kind.
    Tok(TokenKind),
    /// A character that starts no token.
    Unexpected,
    /// An interpolation brace without its partner.
    Unmatched(MissingBrace),
}

/// One step of the lexer from offset `c`: what it reads, where it stops, and
/// the start condition and interpolation depth it leaves behind.
pub ghost struct Step {
    pub scanned: Scanned,
    pub end: int,
    pub cond: Cond,
    pub depth: int,
}

/// A step in the `Init` condition at offset `c < b.len()`.
pub open spec fn init_step(b: Seq<u8>, depth: int, c: int) -> Step {
    let x = b[c];
    let has_next = c + 1 < b.len();
    if is_ws(x) {
        Step { scanned: Scanned::Tok(TokenKind::Whitespace), end: ws_end(b, c), cond: Cond::Init, depth }
    } else if x == 47u8 && has_next && b[c + 1] == 47u8 {
        Step { scanned: Scanned::Tok(TokenKind::Comment), end: line_end(b, c), cond: Cond::Init, depth }
    } else if is_digit(x) || (x == 45u8 && has_next && is_digit(b[c + 1])) {
        let d = number_end(b, if x == 45u8 { c + 1 } else { c });
        if d + 1 < b.len() && b[d] == 46u8 && is_digit(b[d + 1]) {
            Step {
                scanned: Scanned::Tok(TokenKind::FloatLiteral),
                end: number_end(b, d + 1),
                cond: Cond::Init,
                depth,
            }
        } else {
            Step { scanned: Scanned::Tok(TokenKind::IntLiteral), end: d, cond: Cond::Init, depth }
        }
    } else if is_ident_start(x) {
        let e = ident_end(b, c);
        Step { scanned: Scanned::Tok(word_kind(b.subrange(c, e))), end: e, cond: Cond::Init, depth }
    } else if x == 34u8 {
        if depth > 0 && !has_quote_from(b, c + 1) {
            Step {
                scanned: Scanned::Unmatched(MissingBrace::Right),
                end: c + 1,
                cond: Cond::Init,
                depth: 0,
            }
        } else {
            Step {
                scanned: Scanned::Tok(TokenKind::StringInterpolationStart),
                end: c + 1,
                cond: Cond::Str,
                depth,
            }
        }
    } else if x == 125u8 && depth > 0 {
        Step { scanned: Scanned::Tok(TokenKind::RBrace), end: c + 1, cond: Cond::Str, depth: depth - 1 }
    } else if has_next && two_byte_op(x, b[c + 1]) is Some {
        Step {
            scanned: Scanned::Tok(two_byte_op(x, b[c + 1])->0),
            end: c + 2,
            cond: Cond::Init,
            depth,
        }
    } else if one_byte_token(x) is Some {
        Step { scanned: Scanned::Tok(one_byte_token(x)->0), end: c + 1, cond: Cond::Init, depth }
    } else {
        Step { scanned: Scanned::Unexpected, end: next_boundary(b, c + 1), cond: Cond::Init, depth }
    }
}

/// A step in the `Str` condition at offset `c < b.len()`.
pub open spec fn str_step(b: Seq<u8>, depth: int, c: int) -> Step {
    let x = b[c];
    if x == 34u8 {
        Step { scanned: Scanned::Tok(TokenKind::StringInterpolationEnd), end: c + 1, cond: Cond::Init, depth }
    } else if x == 123u8 {
        Step { scanned: Scanned::Tok(TokenKind::LBrace), end: c + 1, cond: Cond::Init, depth: depth + 1 }
    } else if x == 125u8 {
        Step { scanned: Scanned::Unmatched(MissingBrace::Left), end: c + 1, cond: Cond::Str, depth }
    } else {
        Step { scanned: Scanned::Tok(TokenKind::StringLiteral), end: text_end(b, c), cond: Cond::Str, depth }
    }
}

/// A step of the lexer at offset `c < b.len()` in condition `cond`.
pub open spec fn step(b: Seq<u8>, cond: Cond, depth: int, c: int) -> Step {
    match cond {
        Cond::Init => init_step(b, depth, c),
        Cond::Str => str_step(b, depth, c),
    }
}

/// The first character boundary at or after `i` (the end of the text at the latest).
pub open spec fn next_boundary(b: Seq<u8>, i: int) -> int
    decreases b.len() - i,
{
    if i >= b.len() || vstd::utf8::is_char_boundary(b, i) {
        i
    } else {
        next_boundary(b, i + 1)
    }
}

/// Facts about the longest run of bytes satisfying `p`.
pub proof fn lemma_run_end(b: Seq<u8>, i: int, p: spec_fn(u8) -> bool)
    requires
        0 <= i <= b.len(),
    ensures
        i <= run_end(b, i, p) <= b.len(),
        run_end(b, i, p) < b.len() ==> !p(b[run_end(b, i, p)]),
        forall|k: int| i <= k < run_end(b, i, p) ==> p(#[trigger] b[k]),
    decreases b.len() - i,
{
    if i < b.len() && p(b[i]) {
        lemma_run_end(b, i + 1, p);
    }
}

/// Facts about the end of the text of a string literal.
pub proof fn lemma_text_end(b: Seq<u8>, i: int)
    requires
        0 <= i <= b.len(),
    ensures
        i <= text_end(b, i) <= b.len(),
        text_end(b, i) < b.len() ==> (b[text_end(b, i)] == 34u8 || b[text_end(b, i)] == 123u8
            || b[text_end(b, i)] == 125u8),
    decreases b.len() - i,
{
    if i < b.len() {
        if b[i] == 92u8 {
            if i + 1 < b.len() {
                lemma_text_end(b, i + 2);
            }
        } else if b[i] == 34u8 || b[i] == 123u8 || b[i] == 125u8 {
        } else {
            lemma_text_end(b, i + 1);
        }
    }
}

/// The end of a run of whitespace starting at `i`.
pub fn scan_ws(bytes: &[u8], i: usize) -> (j: usize)
    requires
        i <= bytes@.len(),
    ensures
        j == ws_end(bytes@, i as int),
{
    let mut j = i;
    while j < bytes.len() && (bytes[j] == 32u8 || bytes[j] == 9u8 || bytes[j] == 10u8
        || bytes[j] == 13u8 || bytes[j] == 11u8 || bytes[j] == 12u8)
        invariant
            i <= j <= bytes@.len(),
            ws_end(bytes@, j as int) == ws_end(bytes@, i as int),
        decreases bytes@.len() - j,
    {
        j = j + 1;
    }
    j
}

/// The length of the blank that starts at `i`, or 0.
fn blank_len_at(bytes: &[u8], i: usize) -> (n: usize)
    requires
        i < bytes@.len(),
    ensures
        n == blank_len(bytes@, i as int),
        i + n <= bytes@.len(),
{
    let len = bytes.len();
    let x = bytes[i];
    let y: i32 = if len - i > 1 { bytes[i + 1] as i32 } else { -1 };
    let z: i32 = if len - i > 2 { bytes[i + 2] as i32 } else { -1 };
    if x == 9u8 || x == 11u8 || x == 12u8 || x == 13u8 || x == 32u8 {
        1
    } else if x == 0xc2u8 && (y == 0x85 || y == 0xa0) {
        2
    } else if x == 0xe1u8 && y == 0x9a && z == 0x80 {
        3
    } else if x == 0xe2u8 && y == 0x80 && ((0x80 <= z && z <= 0x8a) || z == 0xa8 || z == 0xa9
        || z == 0xaf) {
        3
    } else if x == 0xe2u8 && y == 0x81 && z == 0x9f {
        3
    } else if x == 0xe3u8 && y == 0x80 && z == 0x80 {
        3
    } else {
        0
    }
}

/// The end of a run of blanks starting at `i`.
pub fn scan_blank(bytes: &[u8], i: usize) -> (j: usize)
    requires
        i <= bytes@.len(),
    ensures
        j == blank_end(bytes@, i as int),
{
    let mut j = i;
    while j < bytes.len()
        invariant
            i <= j <= bytes@.len(),
            blank_end(bytes@, j as int) == blank_end(bytes@, i as int),
        decreases bytes@.len() - j,
    {
        let n = blank_len_at(bytes, j);
        if n == 0 {
            return j;
        }
        j = j + n;
    }
    j
}

/// The end of a run of digits and separators starting at `i`.
pub fn scan_number(bytes: &[u8], i: usize) -> (j: usize)
    requires
        i <= bytes@.len(),
    ensures
        j == number_end(bytes@, i as int),
{
    let mut j = i;
    while j < bytes.len() && ((48u8 <= bytes[j] && bytes[j] <= 57u8) || bytes[j] == 95u8)
        invariant
            i <= j <= bytes@.len(),
            number_end(bytes@, j as int) == number_end(bytes@, i as int),
        decreases bytes@.len() - j,
    {
        j = j + 1;
    }
    j
}

pub fn is_ident_start_byte(c: u8) -> (r: bool)
    ensures
        r == is_ident_start(c),
{
    (97u8 <= c && c <= 122u8) || (65u8 <= c && c <= 90u8) || c == 95u8 || c >= 128u8
}

/// The end of a run of identifier bytes starting at `i`.
pub fn scan_ident(bytes: &[u8], i: usize) -> (j: usize)
    requires
        i <= bytes@.len(),
    ensures
        j == ident_end(bytes@, i as int),
{
    let mut j = i;
    while j < bytes.len() && (is_ident_start_byte(bytes[j]) || (48u8 <= bytes[j] && bytes[j] <= 57u8))
        invariant
            i <= j <= bytes@.len(),
            ident_end(bytes@, j as int) == ident_end(bytes@, i as int),
        decreases bytes@.len() - j,
    {
        j = j + 1;
    }
    j
}

/// The end of the line starting at `i` (the offset of the newline, or the end of the text).
pub fn scan_line(bytes: &[u8], i: usize) -> (j: usize)
    requires
        i <= bytes@.len(),
    ensures
        j == line_end(bytes@, i as int),
{
    let mut j = i;
    while j < bytes.len() && bytes[j] != 10u8
        invariant
            i <= j <= bytes@.len(),
            line_end(bytes@, j as int) == line_end(bytes@, i as int),
        decreases bytes@.len() - j,
    {
        j = j + 1;
    }
    j
}

/// The end of the text of a string literal starting at `i`.
pub fn scan_text(bytes: &[u8], i: usize) -> (j: usize)
    requires
        i <= bytes@.len(),
    ensures
        j == text_end(bytes@, i as int),
{
    let len = bytes.len();
    let mut j = i;
    while j < len
        invariant
            i <= j <= len,
            len == bytes@.len(),
            text_end(bytes@, j as int) == text_end(bytes@, i as int),
        decreases len - j,
    {
        let x = bytes[j];
        if x == 92u8 {
            if j + 1 < len {
                j = j + 2;
            } else {
                return len;
            }
        } else if x == 34u8 || x == 123u8 || x == 125u8 {
            return j;
        } else {
            j = j + 1;
        }
    }
    j
}

/// Whether a `"` occurs at or after offset `i`.
pub fn quote_from(bytes: &[u8], i: usize) -> (r: bool)
    requires
        i <= bytes@.len(),
    ensures
        r == has_quote_from(bytes@, i as int),
{
    let mut k = i;
    while k < bytes.len()
        invariant
            i <= k <= bytes@.len(),
            forall|m: int| i <= m < k ==> bytes@[m] != 34u8,
        decreases bytes@.len() - k,
    {
        if bytes[k] == 34u8 {
            return true;
        }
        k = k + 1;
    }
    false
}

/// The kind of the word `bytes[s..e]`, which is made of identifier bytes.
pub fn word_kind_at(bytes: &[u8], s: usize, e: usize) -> (k: TokenKind)
    requires
        s <= e <= bytes@.len(),
    ensures
        k == word_kind(bytes@.subrange(s as int, e as int)),
{
    let n = e - s;
    let ghost w = bytes@.subrange(s as int, e as int);
    assert(w.len() == n);
    assert(forall|i: int| 0 <= i < n ==> w[i] == bytes@[s + i]);
    if false {
        TokenKind::Ident
    } else if n == 2 && bytes[s] == 102u8 && bytes[s + 1] == 110u8 {
        TokenKind::Fn
    } else if n == 3 && bytes[s] == 108u8 && bytes[s + 1] == 101u8 && bytes[s + 2] == 116u8 {
        TokenKind::Let
    } else if n == 6 && bytes[s] == 114u8 && bytes[s + 1] == 101u8 && bytes[s + 2] == 116u8 && bytes[s + 3] == 117u8 && bytes[s + 4] == 114u8 && bytes[s + 5] == 110u8 {
        TokenKind::Return
    } else if n == 2 && bytes[s] == 105u8 && bytes[s + 1] == 102u8 {
        TokenKind::If
    } else if n == 3 && bytes[s] == 102u8 && bytes[s + 1] == 111u8 && bytes[s + 2] == 114u8 {
        TokenKind::For
    } else if n == 5 && bytes[s] == 98u8 && bytes[s + 1] == 114u8 && bytes[s + 2] == 101u8 && bytes[s + 3] == 97u8 && bytes[s + 4] == 107u8 {
        TokenKind::Break
    } else if n == 8 && bytes[s] == 99u8 && bytes[s + 1] == 111u8 && bytes[s + 2] == 110u8 && bytes[s + 3] == 116u8 && bytes[s + 4] == 105u8 && bytes[s + 5] == 110u8 && bytes[s + 6] == 117u8 && bytes[s + 7] == 101u8 {
        TokenKind::Continue
    } else if n == 2 && bytes[s] == 105u8 && bytes[s + 1] == 110u8 {
        TokenKind::In
    } else if n == 2 && bytes[s] == 105u8 && bytes[s + 1] == 115u8 {
        TokenKind::Is
    } else if n == 3 && bytes[s] == 117u8 && bytes[s + 1] == 115u8 && bytes[s + 2] == 101u8 {
        TokenKind::Use
    } else if n == 6 && bytes[s] == 112u8 && bytes[s + 1] == 117u8 && bytes[s + 2] == 98u8 && bytes[s + 3] == 108u8 && bytes[s + 4] == 105u8 && bytes[s + 5] == 99u8 {
        TokenKind::Public
    } else if n == 8 && bytes[s] == 105u8 && bytes[s + 1] == 110u8 && bytes[s + 2] == 116u8 && bytes[s + 3] == 101u8 && bytes[s + 4] == 114u8 && bytes[s + 5] == 110u8 && bytes[s + 6] == 97u8 && bytes[s + 7] == 108u8 {
        TokenKind::Internal
    } else if n == 7 && bytes[s] == 112u8 && bytes[s + 1] == 114u8 && bytes[s + 2] == 105u8 && bytes[s + 3] == 118u8 && bytes[s + 4] == 97u8 && bytes[s + 5] == 116u8 && bytes[s + 6] == 101u8 {
        TokenKind::Private
    } else if n == 4 && bytes[s] == 110u8 && bytes[s + 1] == 111u8 && bytes[s + 2] == 110u8 && bytes[s + 3] == 101u8 {
        TokenKind::None_
    } else if n == 3 && bytes[s] == 116u8 && bytes[s + 1] == 114u8 && bytes[s + 2] == 121u8 {
        TokenKind::Try
    } else if n == 5 && bytes[s] == 99u8 && bytes[s + 1] == 97u8 && bytes[s + 2] == 116u8 && bytes[s + 3] == 99u8 && bytes[s + 4] == 104u8 {
        TokenKind::Catch
    } else if n == 5 && bytes[s] == 116u8 && bytes[s + 1] == 104u8 && bytes[s + 2] == 114u8 && bytes[s + 3] == 111u8 && bytes[s + 4] == 119u8 {
        TokenKind::Throw
    } else if n == 6 && bytes[s] == 115u8 && bytes[s + 1] == 116u8 && bytes[s + 2] == 114u8 && bytes[s + 3] == 117u8 && bytes[s + 4] == 99u8 && bytes[s + 5] == 116u8 {
        TokenKind::Struct
    } else if n == 4 && bytes[s] == 101u8 && bytes[s + 1] == 110u8 && bytes[s + 2] == 117u8 && bytes[s + 3] == 109u8 {
        TokenKind::Enum
    } else if n == 3 && bytes[s] == 97u8 && bytes[s + 1] == 110u8 && bytes[s + 2] == 100u8 {
        TokenKind::And
    } else if n == 2 && bytes[s] == 111u8 && bytes[s + 1] == 114u8 {
        TokenKind::Or
    } else if n == 3 && bytes[s] == 109u8 && bytes[s + 1] == 117u8 && bytes[s + 2] == 116u8 {
        TokenKind::Mut
    } else if n == 2 && bytes[s] == 111u8 && bytes[s + 1] == 110u8 {
        TokenKind::On
    } else if n == 4 && bytes[s] == 105u8 && bytes[s + 1] == 109u8 && bytes[s + 2] == 112u8 && bytes[s + 3] == 108u8 {
        TokenKind::Impl
    } else if n == 4 && bytes[s] == 115u8 && bytes[s + 1] == 101u8 && bytes[s + 2] == 108u8 && bytes[s + 3] == 102u8 {
        TokenKind::Self_
    } else if n == 4 && bytes[s] == 116u8 && bytes[s + 1] == 114u8 && bytes[s + 2] == 117u8 && bytes[s + 3] == 101u8 {
        TokenKind::BoolLiteral
    } else if n == 5 && bytes[s] == 102u8 && bytes[s + 1] == 97u8 && bytes[s + 2] == 108u8 && bytes[s + 3] == 115u8 && bytes[s + 4] == 101u8 {
        TokenKind::BoolLiteral
    } else if n == 1 && bytes[s] == 95u8 {
        TokenKind::Underscore
    } else {
        TokenKind::Ident
    }
}

/// The operator made of the two bytes `x` and `y`, if any.
pub fn two_byte_op_of(x: u8, y: u8) -> (r: Option<TokenKind>)
    ensures
        r == two_byte_op(x, y),
{
    if x == 61u8 && y == 61u8 {
        Some(TokenKind::EqEq)
    } else if x == 33u8 && y == 61u8 {
        Some(TokenKind::Neq)
    } else if x == 60u8 && y == 61u8 {
        Some(TokenKind::LtEq)
    } else if x == 62u8 && y == 61u8 {
        Some(TokenKind::GtEq)
    } else if x == 42u8 && y == 42u8 {
        Some(TokenKind::StarStar)
    } else if x == 43u8 && y == 61u8 {
        Some(TokenKind::PlusEq)
    } else if x == 45u8 && y == 61u8 {
        Some(TokenKind::MinusEq)
    } else if x == 42u8 && y == 61u8 {
        Some(TokenKind::StarEq)
    } else if x == 47u8 && y == 61u8 {
        Some(TokenKind::SlashEq)
    } else {
        None
    }
}

/// The single-byte token `x`, if any.
pub fn one_byte_token_of(x: u8) -> (r: Option<TokenKind>)
    ensures
        r == one_byte_token(x),
{
    if x == 61u8 {
        Some(TokenKind::Eq)
    } else if x == 60u8 {
        Some(TokenKind::Lt)
    } else if x == 62u8 {
        Some(TokenKind::Gt)
    } else if x == 43u8 {
        Some(TokenKind::Plus)
    } else if x == 45u8 {
        Some(TokenKind::Minus)
    } else if x == 42u8 {
        Some(TokenKind::Star)
    } else if x == 47u8 {
        Some(TokenKind::Slash)
    } else if x == 37u8 {
        Some(TokenKind::Percent)
    } else if x == 33u8 {
        Some(TokenKind::Bang)
    } else if x == 58u8 {
        Some(TokenKind::Colon)
    } else if x == 59u8 {
        Some(TokenKind::Semicolon)
    } else if x == 40u8 {
        Some(TokenKind::LParen)
    } else if x == 41u8 {
        Some(TokenKind::RParen)
    } else if x == 123u8 {
        Some(TokenKind::LBrace)
    } else if x == 125u8 {
        Some(TokenKind::RBrace)
    } else if x == 91u8 {
        Some(TokenKind::LBracket)
    } else if x == 93u8 {
        Some(TokenKind::RBracket)
    } else if x == 44u8 {
        Some(TokenKind::Comma)
    } else if x == 46u8 {
        Some(TokenKind::Dot)
    } else {
        None
    }
}

pub fn ends_statement_kind(kind: TokenKind) -> (r: bool)
    ensures
        r == ends_statement(kind),
{
    match kind {
        TokenKind::Return | TokenKind::Break | TokenKind::Continue | TokenKind::None_
        | TokenKind::Ident | TokenKind::IntLiteral | TokenKind::FloatLiteral
        | TokenKind::BoolLiteral | TokenKind::StringInterpolationEnd | TokenKind::RParen
        | TokenKind::RBrace | TokenKind::RBracket => true,
        _ => false,
    }
}

} // verus!
