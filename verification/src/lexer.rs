//! Hand-written lexer for FeatureScript.
//!
//! The lexer reads the source as characters but reports byte offsets in
//! spans. FeatureScript source is UTF-8; the only non-ASCII token that
//! matters is the `✨` version placeholder, and arbitrary text is allowed
//! inside strings and comments.
//!
//! The functions `skip_trivia`, `lex_at`, `lex_next` and `lex_from` below
//! define what the lexer produces: the first token at a position is found
//! after skipping whitespace and comments, by the longest match of the rules
//! for identifiers, numbers, strings and punctuation.

use crate::error::{ParseError, ParseResult, SParseError};
use crate::span::Span;
use crate::text::{
    ascii_alpha, ascii_digit, byte_offset, char_at, char_from_u32, char_width, chars_of,
    hex_digit, hex_digit_value, hex_value, ident_char, is_alpha, is_digit, is_hex,
    is_ident_char, lemma_byte_offset_bounded, lemma_byte_offset_mono, lemma_byte_offset_step,
    lemma_utf8_len_is_byte_len, push_char, string_from_chars, utf8_len,
};
use crate::token::{keyword_from_chars, keyword_of, tokens_view, SKind, SToken, Token, TokenKind};
use vstd::prelude::*;
use vstd::utf8::{encode_utf8, is_scalar};

verus! {

// ---------------------------------------------------------------------------
// The lexical grammar
// ---------------------------------------------------------------------------

pub open spec fn is_space(c: char) -> bool {
    c == ' ' || c == '\t' || c == '\r' || c == '\n' || c == '\x0c'
}

/// The span of the characters `a..b`, in bytes.
pub open spec fn span_of(s: Seq<char>, a: int, b: int) -> Span {
    Span { start: byte_offset(s, a) as u32, end: byte_offset(s, b) as u32 }
}

/// A lexical error: where it starts (a character index), where its span
/// ends (in bytes) and its message.
pub struct LexErr {
    pub start: int,
    pub end: u32,
    pub msg: Seq<char>,
}

/// An error spanning the characters `start..pos`.
pub open spec fn err_at(s: Seq<char>, start: int, pos: int, msg: Seq<char>) -> LexErr {
    LexErr { start, end: byte_offset(s, pos) as u32, msg }
}

pub open spec fn lex_error(s: Seq<char>, e: LexErr) -> SParseError {
    SParseError { span: Span { start: byte_offset(s, e.start) as u32, end: e.end }, message: e.msg }
}

/// The index of the first `\n` at or after `p`, or the end of input.
pub open spec fn line_end(s: Seq<char>, p: int) -> int
    decreases s.len() - p,
{
    if p < 0 || p >= s.len() || s[p] == '\n' {
        p
    } else {
        line_end(s, p + 1)
    }
}

/// The index just past the first `*/` at or after `p`, if there is one.
pub open spec fn block_end(s: Seq<char>, p: int) -> Option<int>
    decreases s.len() - p,
{
    if p < 0 || p >= s.len() {
        None
    } else if s[p] == '*' && char_at(s, p + 1) == '/' {
        Some(p + 2)
    } else {
        block_end(s, p + 1)
    }
}

/// The end of the run of identifier characters starting at `p`.
pub open spec fn ident_end(s: Seq<char>, p: int) -> int
    decreases s.len() - p,
{
    if p < 0 || p >= s.len() || !is_ident_char(s[p]) {
        p
    } else {
        ident_end(s, p + 1)
    }
}

/// The end of the run of decimal digits starting at `p`.
pub open spec fn digits_end(s: Seq<char>, p: int) -> int
    decreases s.len() - p,
{
    if p < 0 || p >= s.len() || !is_digit(s[p]) {
        p
    } else {
        digits_end(s, p + 1)
    }
}

/// The end of the run of hex digits starting at `p`, stopping at `limit`.
pub open spec fn hex_end(s: Seq<char>, p: int, limit: int) -> int
    decreases limit - p,
{
    if p < limit && is_hex(char_at(s, p)) {
        hex_end(s, p + 1, limit)
    } else {
        p
    }
}

/// The value of the four hex digits at `p`.
pub open spec fn hex4(s: Seq<char>, p: int) -> u32 {
    (hex_value(s[p]) * 4096 + hex_value(s[p + 1]) * 256 + hex_value(s[p + 2]) * 16 + hex_value(
        s[p + 3],
    )) as u32
}

/// What skipping whitespace and comments finds.
pub enum Trivia {
    /// The next token starts here.
    Skipped(int),
    /// A doc comment spanning these characters.
    Doc(int, int),
    /// A block comment starting here never ends (the second index is the end of input).
    Unterminated(int, int),
}

pub proof fn lemma_line_end(s: Seq<char>, p: int)
    requires
        0 <= p <= s.len(),
    ensures
        p <= line_end(s, p) <= s.len(),
    decreases s.len() - p,
{
    if p < s.len() && s[p] != '\n' {
        lemma_line_end(s, p + 1);
    }
}

pub proof fn lemma_block_end(s: Seq<char>, p: int)
    requires
        0 <= p,
    ensures
        block_end(s, p) matches Some(e) ==> p + 2 <= e <= s.len(),
    decreases s.len() - p,
{
    if p < s.len() && !(s[p] == '*' && char_at(s, p + 1) == '/') {
        lemma_block_end(s, p + 1);
    }
}

pub proof fn lemma_ident_end(s: Seq<char>, p: int)
    requires
        0 <= p <= s.len(),
    ensures
        p <= ident_end(s, p) <= s.len(),
        !is_ident_char(char_at(s, ident_end(s, p))),
    decreases s.len() - p,
{
    if p < s.len() && is_ident_char(s[p]) {
        lemma_ident_end(s, p + 1);
    }
}

pub proof fn lemma_digits_end(s: Seq<char>, p: int)
    requires
        0 <= p <= s.len(),
    ensures
        p <= digits_end(s, p) <= s.len(),
        !is_digit(char_at(s, digits_end(s, p))),
    decreases s.len() - p,
{
    if p < s.len() && is_digit(s[p]) {
        lemma_digits_end(s, p + 1);
    }
}

pub proof fn lemma_hex_end(s: Seq<char>, p: int, limit: int)
    requires
        0 <= p <= limit,
    ensures
        p <= hex_end(s, p, limit) <= limit,
        forall|i: int| p <= i < hex_end(s, p, limit) ==> is_hex(#[trigger] char_at(s, i)),
    decreases limit - p,
{
    if p < limit && is_hex(char_at(s, p)) {
        lemma_hex_end(s, p + 1, limit);
    }
}

/// Skip whitespace and non-doc comments from `p`; stop at a doc comment
/// when they are kept.
pub open spec fn skip_trivia(s: Seq<char>, p: int, keep: bool) -> Trivia
    decreases s.len() - p,
{
    if p < 0 || p >= s.len() {
        Trivia::Skipped(p)
    } else {
        let c = s[p];
        if is_space(c) {
            skip_trivia(s, p + 1, keep)
        } else if c == '/' && char_at(s, p + 1) == '/' {
            proof {
                lemma_line_end(s, p + 1);
            }
            skip_trivia(s, line_end(s, p + 1), keep)
        } else if c == '/' && char_at(s, p + 1) == '*' {
            // `/**/` is an empty block comment, not a doc comment.
            let is_doc = char_at(s, p + 2) == '*' && char_at(s, p + 3) != '/';
            proof {
                lemma_block_end(s, p + 2);
            }
            match block_end(s, p + 2) {
                None => Trivia::Unterminated(p, s.len() as int),
                Some(e) => if is_doc && keep {
                    Trivia::Doc(p, e)
                } else {
                    skip_trivia(s, e, keep)
                },
            }
        } else {
            Trivia::Skipped(p)
        }
    }
}

pub proof fn lemma_skip_trivia(s: Seq<char>, p: int, keep: bool)
    requires
        0 <= p <= s.len(),
    ensures
        match skip_trivia(s, p, keep) {
            Trivia::Skipped(q) => p <= q <= s.len(),
            Trivia::Doc(a, e) => p <= a && a + 5 <= e <= s.len(),
            Trivia::Unterminated(a, b) => p <= a && b == s.len(),
        },
    decreases s.len() - p,
{
    if p < s.len() {
        let c = s[p];
        if is_space(c) {
            lemma_skip_trivia(s, p + 1, keep);
        } else if c == '/' && char_at(s, p + 1) == '/' {
            lemma_line_end(s, p + 1);
            lemma_skip_trivia(s, line_end(s, p + 1), keep);
        } else if c == '/' && char_at(s, p + 1) == '*' {
            lemma_block_end(s, p + 2);
            let is_doc = char_at(s, p + 2) == '*' && char_at(s, p + 3) != '/';
            if is_doc {
                lemma_block_end(s, p + 3);
                assert(block_end(s, p + 2) == block_end(s, p + 3));
            }
            match block_end(s, p + 2) {
                None => {},
                Some(e) => {
                    if !(is_doc && keep) {
                        lemma_skip_trivia(s, e, keep);
                    }
                },
            }
        }
    }
}

/// One lexing step: a token kind and its characters, or an error.
pub enum Step {
    Tok(SKind, int, int),
    Fail(LexErr),
}

/// Punctuation and operators at `p`: the longest of the three-, two- and
/// one-character forms, with its length.
pub open spec fn punct_at(s: Seq<char>, p: int) -> Option<(SKind, int)> {
    let c = char_at(s, p);
    let c1 = char_at(s, p + 1);
    let c2 = char_at(s, p + 2);
    if c == '|' && c1 == '|' && c2 == '=' {
        Some((SKind::PipePipeEq, 3))
    } else if c == '&' && c1 == '&' && c2 == '=' {
        Some((SKind::AmpAmpEq, 3))
    } else if c == '?' && c1 == '?' && c2 == '=' {
        Some((SKind::QuestionQuestionEq, 3))
    } else if c == '?' && c1 == '.' {
        Some((SKind::QuestionDot, 2))
    } else if c == '?' && c1 == '?' {
        Some((SKind::QuestionQuestion, 2))
    } else if c == '-' && c1 == '>' {
        Some((SKind::Arrow, 2))
    } else if c == '=' && c1 == '>' {
        Some((SKind::FatArrow, 2))
    } else if c == '=' && c1 == '=' {
        Some((SKind::EqEq, 2))
    } else if c == '!' && c1 == '=' {
        Some((SKind::BangEq, 2))
    } else if c == '<' && c1 == '=' {
        Some((SKind::LtEq, 2))
    } else if c == '>' && c1 == '=' {
        Some((SKind::GtEq, 2))
    } else if c == '&' && c1 == '&' {
        Some((SKind::AmpAmp, 2))
    } else if c == '|' && c1 == '|' {
        Some((SKind::PipePipe, 2))
    } else if c == '+' && c1 == '=' {
        Some((SKind::PlusEq, 2))
    } else if c == '-' && c1 == '=' {
        Some((SKind::MinusEq, 2))
    } else if c == '*' && c1 == '=' {
        Some((SKind::StarEq, 2))
    } else if c == '/' && c1 == '=' {
        Some((SKind::SlashEq, 2))
    } else if c == '%' && c1 == '=' {
        Some((SKind::PercentEq, 2))
    } else if c == '~' && c1 == '=' {
        Some((SKind::TildeEq, 2))
    } else if c == '^' && c1 == '=' {
        Some((SKind::CaretEq, 2))
    } else if c == '(' {
        Some((SKind::LParen, 1))
    } else if c == ')' {
        Some((SKind::RParen, 1))
    } else if c == '{' {
        Some((SKind::LBrace, 1))
    } else if c == '}' {
        Some((SKind::RBrace, 1))
    } else if c == '[' {
        Some((SKind::LBracket, 1))
    } else if c == ']' {
        Some((SKind::RBracket, 1))
    } else if c == ',' {
        Some((SKind::Comma, 1))
    } else if c == ';' {
        Some((SKind::Semi, 1))
    } else if c == ':' {
        Some((SKind::Colon, 1))
    } else if c == '.' {
        Some((SKind::Dot, 1))
    } else if c == '?' {
        Some((SKind::Question, 1))
    } else if c == '+' {
        Some((SKind::Plus, 1))
    } else if c == '-' {
        Some((SKind::Minus, 1))
    } else if c == '*' {
        Some((SKind::Star, 1))
    } else if c == '/' {
        Some((SKind::Slash, 1))
    } else if c == '%' {
        Some((SKind::Percent, 1))
    } else if c == '^' {
        Some((SKind::Caret, 1))
    } else if c == '~' {
        Some((SKind::Tilde, 1))
    } else if c == '!' {
        Some((SKind::Bang, 1))
    } else if c == '=' {
        Some((SKind::Eq, 1))
    } else if c == '<' {
        Some((SKind::Lt, 1))
    } else if c == '>' {
        Some((SKind::Gt, 1))
    } else {
        None
    }
}

pub proof fn lemma_punct_at(s: Seq<char>, p: int)
    requires
        0 <= p,
    ensures
        punct_at(s, p) matches Some((k, n)) ==> 1 <= n <= 3 && p + n <= s.len(),
{
}

/// A numeric literal starting at `p`: digits, an optional fraction and an
/// optional exponent. A `.` followed by an identifier character (and not by
/// an exponent) is left alone, as is an `e` that no digits follow.
pub open spec fn lex_number(s: Seq<char>, p: int) -> Step {
    let p1 = digits_end(s, p);
    let next = char_at(s, p1 + 1);
    let after = char_at(s, p1 + 2);
    let exponent_follows = (next == 'e' || next == 'E') && (is_digit(after) || ((after == '+'
        || after == '-') && is_digit(char_at(s, p1 + 3))));
    let p2 = if char_at(s, p1) == '.' && (exponent_follows || !(is_alpha(next) || next == '_')) {
        digits_end(s, p1 + 1)
    } else {
        p1
    };
    let p3 = if char_at(s, p2) == 'e' || char_at(s, p2) == 'E' {
        let q = if char_at(s, p2 + 1) == '+' || char_at(s, p2 + 1) == '-' {
            p2 + 2
        } else {
            p2 + 1
        };
        if is_digit(char_at(s, q)) {
            digits_end(s, q)
        } else {
            p2
        }
    } else {
        p2
    };
    if is_ident_char(char_at(s, p3)) {
        Step::Fail(err_at(s, p, p3, "invalid numeric literal"@))
    } else {
        Step::Tok(SKind::Number(s.subrange(p, p3)), p, p3)
    }
}

/// The character a `\u` escape with this code produces.
pub open spec fn unicode_escape(code: u32) -> char {
    if is_scalar(code) {
        code as char
    } else {
        '\u{FFFD}'
    }
}

/// The character a simple escape `\e` stands for, if `e` names one.
pub open spec fn simple_escape(e: char) -> Option<char> {
    if e == 'n' {
        Some('\n')
    } else if e == 't' {
        Some('\t')
    } else if e == 'r' {
        Some('\r')
    } else if e == '0' {
        Some('\0')
    } else if e == '\\' {
        Some('\\')
    } else if e == '"' {
        Some('"')
    } else if e == '\'' {
        Some('\'')
    } else if e == '/' {
        Some('/')
    } else {
        None
    }
}

/// The rest of a string literal opened at `start` with `quote`, from `q`,
/// with `acc` already decoded: its text and the index past the closing quote.
pub open spec fn string_body(s: Seq<char>, start: int, quote: char, q: int, acc: Seq<char>) -> Result<
    (Seq<char>, int),
    LexErr,
>
    decreases s.len() - q,
{
    if q < 0 || q >= s.len() {
        Err(err_at(s, start, q, "unterminated string literal"@))
    } else {
        let c = s[q];
        if c == quote {
            Ok((acc, q + 1))
        } else if c == '\\' {
            let e = char_at(s, q + 1);
            if e == 'u' {
                let h = hex_end(s, q + 2, q + 6);
                proof {
                    lemma_hex_end(s, q + 2, q + 6);
                    if h == q + 6 {
                        assert(is_hex(char_at(s, q + 5)));
                    }
                }
                if h != q + 6 {
                    Err(err_at(s, q, h, "invalid \\u escape"@))
                } else {
                    string_body(s, start, quote, q + 6, acc.push(unicode_escape(hex4(s, q + 2))))
                }
            } else if simple_escape(e) is Some {
                string_body(s, start, quote, q + 2, acc.push(simple_escape(e)->0))
            } else if e == '\0' {
                Err(
                    LexErr {
                        start,
                        end: (byte_offset(s, q + 1) as u32).wrapping_add(1),
                        msg: "unterminated string literal"@,
                    },
                )
            } else {
                // Unknown escape: kept verbatim.
                string_body(s, start, quote, q + 2, acc.push('\\').push(e))
            }
        } else {
            string_body(s, start, quote, q + 1, acc.push(c))
        }
    }
}

/// A string literal whose opening quote is at `p`.
pub open spec fn lex_string(s: Seq<char>, p: int) -> Step {
    match string_body(s, p, s[p], p + 1, Seq::empty()) {
        Ok((text, e)) => Step::Tok(SKind::Str(text), p, e),
        Err(err) => Step::Fail(err),
    }
}

/// The token starting exactly at `p` (no trivia before it).
pub open spec fn lex_at(s: Seq<char>, p: int) -> Step {
    if p < 0 || p >= s.len() {
        Step::Tok(SKind::Eof, p, p)
    } else {
        let c = s[p];
        if is_alpha(c) || c == '_' || c == '@' {
            if c == '@' && !(is_alpha(char_at(s, p + 1)) || char_at(s, p + 1) == '_') {
                Step::Fail(err_at(s, p, p + 1, "expected identifier after `@`"@))
            } else {
                let e = if c == '@' {
                    ident_end(s, p + 1)
                } else {
                    ident_end(s, p)
                };
                let text = s.subrange(p, e);
                let kind = if c == '@' {
                    SKind::Ident(text)
                } else {
                    match keyword_of(text) {
                        Some(k) => SKind::Kw(k),
                        None => SKind::Ident(text),
                    }
                };
                Step::Tok(kind, p, e)
            }
        } else if is_digit(c) || (c == '.' && is_digit(char_at(s, p + 1))) {
            lex_number(s, p)
        } else if c == '"' || c == '\'' {
            lex_string(s, p)
        } else if c == '\u{2728}' {
            Step::Tok(SKind::Sparkle, p, p + 1)
        } else {
            match punct_at(s, p) {
                Some((k, n)) => Step::Tok(k, p, p + n),
                None => Step::Fail(
                    err_at(s, p, p + 1, "unexpected character `"@ + seq![c] + "`"@),
                ),
            }
        }
    }
}

/// The next token at or after `p`.
#[verifier::opaque]
pub open spec fn lex_next(s: Seq<char>, p: int, keep: bool) -> Step {
    match skip_trivia(s, p, keep) {
        Trivia::Unterminated(a, b) => Step::Fail(err_at(s, a, b, "unterminated block comment"@)),
        Trivia::Doc(a, e) => Step::Tok(SKind::DocComment(s.subrange(a + 3, e - 2)), a, e),
        Trivia::Skipped(q) => lex_at(s, q),
    }
}

pub open spec fn prepend(ts: Seq<SToken>, r: Result<Seq<SToken>, SParseError>) -> Result<
    Seq<SToken>,
    SParseError,
> {
    match r {
        Ok(rest) => Ok(ts + rest),
        Err(e) => Err(e),
    }
}

/// All tokens from `p` on, ending with `Eof`, or the first error.
pub open spec fn lex_from(s: Seq<char>, p: int, keep: bool) -> Result<Seq<SToken>, SParseError>
    decreases s.len() - p,
{
    match lex_next(s, p, keep) {
        Step::Fail(e) => Err(lex_error(s, e)),
        Step::Tok(k, a, b) => {
            let t = SToken { kind: k, span: span_of(s, a, b) };
            if k is Eof {
                Ok(seq![t])
            } else if b <= p || b > s.len() {
                // Never taken: every other token consumes input.
                Ok(seq![t])
            } else {
                prepend(seq![t], lex_from(s, b, keep))
            }
        },
    }
}

/// Skipping trivia while dropping doc comments never stops at one.
proof fn lemma_skip_drops_docs(s: Seq<char>, p: int)
    requires
        0 <= p <= s.len(),
    ensures
        !(skip_trivia(s, p, false) is Doc),
    decreases s.len() - p,
{
    if p < s.len() {
        let c = s[p];
        if is_space(c) {
            lemma_skip_drops_docs(s, p + 1);
        } else if c == '/' && char_at(s, p + 1) == '/' {
            lemma_line_end(s, p + 1);
            lemma_skip_drops_docs(s, line_end(s, p + 1));
        } else if c == '/' && char_at(s, p + 1) == '*' {
            lemma_block_end(s, p + 2);
            match block_end(s, p + 2) {
                None => {},
                Some(e) => {
                    lemma_skip_drops_docs(s, e);
                },
            }
        }
    }
}

/// Reading a token never gives a doc comment: those come only from the
/// trivia that is kept.
proof fn lemma_lex_at_no_doc(s: Seq<char>, q: int)
    ensures
        !(lex_at(s, q) matches Step::Tok(k, _, _) && k is DocComment),
{
}

/// With doc comments dropped, lexing gives no doc-comment token.
pub proof fn lemma_dropped_docs_stay_out(s: Seq<char>, p: int)
    requires
        0 <= p <= s.len(),
    ensures
        lex_from(s, p, false) matches Ok(ts) ==> forall|i: int|
            0 <= i < ts.len() ==> !(#[trigger] ts[i].kind is DocComment),
    decreases s.len() - p,
{
    reveal(lex_next);
    lemma_skip_drops_docs(s, p);
    match skip_trivia(s, p, false) {
        Trivia::Skipped(q) => {
            lemma_lex_at_no_doc(s, q);
            match lex_at(s, q) {
                Step::Tok(k, a, b) => {
                    let t = SToken { kind: k, span: span_of(s, a, b) };
                    if !(k is Eof) && b > p && b <= s.len() {
                        lemma_dropped_docs_stay_out(s, b);
                        match lex_from(s, b, false) {
                            Ok(rest) => {
                                assert forall|i: int| 0 <= i < (seq![t] + rest).len() implies !(
                                #[trigger] (seq![t] + rest)[i].kind is DocComment) by {
                                    if i > 0 {
                                        assert((seq![t] + rest)[i] == rest[i - 1]);
                                    }
                                }
                            },
                            Err(_) => {},
                        }
                    }
                },
                Step::Fail(_) => {},
            }
        },
        _ => {},
    }
}

/// A string literal read on from `q` ends after `q`, within the input.
proof fn lemma_string_body_end(s: Seq<char>, start: int, quote: char, q: int, acc: Seq<char>)
    requires
        0 <= q,
    ensures
        string_body(s, start, quote, q, acc) matches Ok((_, e)) ==> q < e <= s.len(),
    decreases s.len() - q,
{
    if q < s.len() {
        let c = s[q];
        if c == quote {
        } else if c == '\\' {
            let e = char_at(s, q + 1);
            if e == 'u' {
                lemma_hex_end(s, q + 2, q + 6);
                if hex_end(s, q + 2, q + 6) == q + 6 {
                    assert(is_hex(char_at(s, q + 5)));
                    lemma_string_body_end(
                        s,
                        start,
                        quote,
                        q + 6,
                        acc.push(unicode_escape(hex4(s, q + 2))),
                    );
                }
            } else if simple_escape(e) is Some {
                lemma_string_body_end(s, start, quote, q + 2, acc.push(simple_escape(e)->0));
            } else if e == '\0' {
            } else {
                lemma_string_body_end(s, start, quote, q + 2, acc.push('\\').push(e));
            }
        } else {
            lemma_string_body_end(s, start, quote, q + 1, acc.push(c));
        }
    }
}

/// A number read at `p` ends after `p`, within the input.
proof fn lemma_lex_number_end(s: Seq<char>, p: int)
    requires
        0 <= p < s.len(),
        is_digit(s[p]) || (s[p] == '.' && is_digit(char_at(s, p + 1))),
    ensures
        lex_number(s, p) matches Step::Tok(k, a, b) ==> a == p && p < b <= s.len() && !(k is Eof),
{
    lemma_digits_end(s, p);
    if is_digit(s[p]) {
        lemma_digits_end(s, p + 1);
    }
    let p1 = digits_end(s, p);
    let next = char_at(s, p1 + 1);
    let after = char_at(s, p1 + 2);
    let exponent_follows = (next == 'e' || next == 'E') && (is_digit(after) || ((after == '+'
        || after == '-') && is_digit(char_at(s, p1 + 3))));
    if char_at(s, p1) == '.' && (exponent_follows || !(is_alpha(next) || next == '_')) {
        lemma_digits_end(s, p1 + 1);
    }
    let p2 = if char_at(s, p1) == '.' && (exponent_follows || !(is_alpha(next) || next == '_')) {
        digits_end(s, p1 + 1)
    } else {
        p1
    };
    assert(p < p2 <= s.len());
    if char_at(s, p2) == 'e' || char_at(s, p2) == 'E' {
        let q = if char_at(s, p2 + 1) == '+' || char_at(s, p2 + 1) == '-' {
            p2 + 2
        } else {
            p2 + 1
        };
        if is_digit(char_at(s, q)) {
            lemma_digits_end(s, q);
        }
    }
}

/// A token read exactly at `q` starts there and ends within the input; it
/// is `Eof` just at the end of input, and every other token is non-empty.
proof fn lemma_lex_at_bounds(s: Seq<char>, q: int)
    requires
        0 <= q <= s.len(),
    ensures
        lex_at(s, q) matches Step::Tok(k, a, b) ==> {
            &&& a == q
            &&& q <= b <= s.len()
            &&& (k is Eof) == (q == s.len())
            &&& !(k is Eof) ==> q < b
        },
{
    if q < s.len() {
        let c = s[q];
        if is_alpha(c) || c == '_' || c == '@' {
            if c == '@' {
                lemma_ident_end(s, q + 1);
            } else {
                lemma_ident_end(s, q + 1);
                assert(ident_end(s, q) == ident_end(s, q + 1));
            }
        } else if is_digit(c) || (c == '.' && is_digit(char_at(s, q + 1))) {
            lemma_lex_number_end(s, q);
        } else if c == '"' || c == '\'' {
            lemma_string_body_end(s, q, s[q], q + 1, Seq::empty());
        } else if c == '\u{2728}' {
        } else {
            lemma_punct_at(s, q);
        }
    }
}

/// The next token at or after `p` lies between `p` and the end of input;
/// `Eof` stands just at the end, and every other token is non-empty.
proof fn lemma_lex_next_bounds(s: Seq<char>, p: int, keep: bool)
    requires
        0 <= p <= s.len(),
    ensures
        lex_next(s, p, keep) matches Step::Tok(k, a, b) ==> {
            &&& p <= a <= b <= s.len()
            &&& k is Eof ==> a == s.len() && b == s.len()
            &&& !(k is Eof) ==> a < b
        },
{
    reveal(lex_next);
    lemma_skip_trivia(s, p, keep);
    match skip_trivia(s, p, keep) {
        Trivia::Skipped(q) => {
            lemma_lex_at_bounds(s, q);
        },
        _ => {},
    }
}

/// Every token stream the lexer produces ends with an `Eof` token spanning
/// the end of input (its byte length, where that fits the spans' width), and
/// has no other `Eof` token.
pub proof fn lemma_token_stream_ends_with_eof(s: Seq<char>, p: int, keep: bool)
    requires
        0 <= p <= s.len(),
    ensures
        lex_from(s, p, keep) matches Ok(ts) ==> {
            &&& ts.len() > 0
            &&& ts.last().kind is Eof
            &&& ts.last().span == span_of(s, s.len() as int, s.len() as int)
            &&& utf8_len(s) <= u32::MAX ==> ts.last().span.start == utf8_len(s)
                && ts.last().span.end == utf8_len(s)
            &&& forall|i: int| 0 <= i < ts.len() - 1 ==> !(#[trigger] ts[i].kind is Eof)
        },
    decreases s.len() - p,
{
    if utf8_len(s) <= u32::MAX {
        lemma_span_of(s, s.len() as int, s.len() as int);
        assert(s.take(s.len() as int) =~= s);
    }
    lemma_lex_next_bounds(s, p, keep);
    match lex_next(s, p, keep) {
        Step::Tok(k, a, b) => {
            let t = SToken { kind: k, span: span_of(s, a, b) };
            if !(k is Eof) {
                lemma_token_stream_ends_with_eof(s, b, keep);
                match lex_from(s, b, keep) {
                    Ok(rest) => {
                        let ts = seq![t] + rest;
                        assert(ts.last() == rest.last());
                        assert forall|i: int| 0 <= i < ts.len() - 1 implies !(
                        #[trigger] ts[i].kind is Eof) by {
                            if i > 0 {
                                assert(ts[i] == rest[i - 1]);
                            }
                        }
                    },
                    Err(_) => {},
                }
            }
        },
        Step::Fail(_) => {},
    }
}

/// The span of characters `a..b` is their byte range, when the input's
/// byte length fits the spans' width.
proof fn lemma_span_of(s: Seq<char>, a: int, b: int)
    requires
        0 <= a <= b <= s.len(),
        utf8_len(s) <= u32::MAX,
    ensures
        span_of(s, a, b).start == byte_offset(s, a),
        span_of(s, a, b).end == byte_offset(s, b),
        byte_offset(s, a) <= byte_offset(s, b) <= utf8_len(s),
{
    lemma_byte_offset_mono(s, a, b);
    lemma_byte_offset_mono(s, b, s.len() as int);
    assert(s.take(s.len() as int) =~= s);
}

/// Token spans follow the source in order and never overlap: each token
/// ends at or before the next one starts, and none starts before `p`
/// (the input's byte length must fit the spans' width).
pub proof fn lemma_token_spans_ordered(s: Seq<char>, p: int, keep: bool)
    requires
        0 <= p <= s.len(),
        utf8_len(s) <= u32::MAX,
    ensures
        lex_from(s, p, keep) matches Ok(ts) ==> {
            &&& ts.len() > 0
            &&& byte_offset(s, p) <= ts[0].span.start
            &&& forall|i: int| 0 <= i < ts.len() ==> #[trigger] ts[i].span.start <= ts[i].span.end
            &&& forall|i: int, j: int|
                0 <= i < j < ts.len() ==> #[trigger] ts[i].span.end <= #[trigger] ts[j].span.start
        },
    decreases s.len() - p,
{
    lemma_lex_next_bounds(s, p, keep);
    match lex_next(s, p, keep) {
        Step::Tok(k, a, b) => {
            lemma_span_of(s, a, b);
            lemma_byte_offset_mono(s, p, a);
            let t = SToken { kind: k, span: span_of(s, a, b) };
            if !(k is Eof) {
                lemma_token_spans_ordered(s, b, keep);
                match lex_from(s, b, keep) {
                    Ok(rest) => {
                        let ts = seq![t] + rest;
                        assert(ts[0] == t);
                        assert forall|i: int| 0 <= i < ts.len() implies #[trigger] ts[i].span.start
                            <= ts[i].span.end by {
                            if i > 0 {
                                assert(ts[i] == rest[i - 1]);
                            }
                        }
                        assert forall|i: int, j: int| 0 <= i < j < ts.len() implies #[trigger] ts[
                            i].span.end <= #[trigger] ts[j].span.start by {
                            assert(ts[j] == rest[j - 1]);
                            if i > 0 {
                                assert(ts[i] == rest[i - 1]);
                            } else if j > 1 {
                                assert(rest[0].span.start <= rest[0].span.end);
                                assert(rest[0].span.end <= rest[j - 1].span.start);
                            }
                        }
                    },
                    Err(_) => {},
                }
            }
        },
        Step::Fail(_) => {},
    }
}

/// A whitespace character (space, tab, carriage return, line feed or form
/// feed) where lexing starts changes nothing: lexing from it gives exactly
/// what lexing from the next character gives.
pub proof fn lemma_whitespace_is_skipped(s: Seq<char>, p: int, keep: bool)
    requires
        0 <= p < s.len(),
        s[p] == ' ' || s[p] == '\t' || s[p] == '\r' || s[p] == '\n' || s[p] == '\x0c',
    ensures
        lex_from(s, p, keep) == lex_from(s, p + 1, keep),
{
    reveal(lex_next);
    assert(skip_trivia(s, p, keep) == skip_trivia(s, p + 1, keep));
    assert(lex_next(s, p, keep) == lex_next(s, p + 1, keep));
    lemma_lex_next_bounds(s, p + 1, keep);
}

/// A token stream with its doc-comment tokens taken out.
pub open spec fn without_docs(ts: Seq<SToken>) -> Seq<SToken>
    decreases ts.len(),
{
    if ts.len() == 0 {
        ts
    } else if ts[0].kind is DocComment {
        without_docs(ts.drop_first())
    } else {
        seq![ts[0]] + without_docs(ts.drop_first())
    }
}

/// A lexing result with its doc-comment tokens taken out; errors stay as they are.
pub open spec fn drop_doc_tokens(r: Result<Seq<SToken>, SParseError>) -> Result<
    Seq<SToken>,
    SParseError,
> {
    match r {
        Ok(ts) => Ok(without_docs(ts)),
        Err(e) => Err(e),
    }
}

/// Skipping trivia while dropping doc comments goes on past the first doc
/// comment where keeping them stops, and otherwise ends the same way.
proof fn lemma_skip_trivia_keep(s: Seq<char>, p: int)
    requires
        0 <= p <= s.len(),
    ensures
        match skip_trivia(s, p, true) {
            Trivia::Doc(a, e) => skip_trivia(s, p, false) == skip_trivia(s, e, false),
            other => skip_trivia(s, p, false) == other,
        },
    decreases s.len() - p,
{
    if p < s.len() {
        let c = s[p];
        if is_space(c) {
            lemma_skip_trivia_keep(s, p + 1);
        } else if c == '/' && char_at(s, p + 1) == '/' {
            lemma_line_end(s, p + 1);
            lemma_skip_trivia_keep(s, line_end(s, p + 1));
        } else if c == '/' && char_at(s, p + 1) == '*' {
            lemma_block_end(s, p + 2);
            let is_doc = char_at(s, p + 2) == '*' && char_at(s, p + 3) != '/';
            match block_end(s, p + 2) {
                None => {},
                Some(e) => {
                    if !is_doc {
                        lemma_skip_trivia_keep(s, e);
                    }
                },
            }
        }
    }
}

/// Lexing with doc comments dropped gives exactly what lexing with them
/// kept gives, less the doc-comment tokens: the other tokens with the same
/// spans, and the same error where lexing fails.
pub proof fn lemma_dropping_docs_filters_them(s: Seq<char>, p: int)
    requires
        0 <= p <= s.len(),
    ensures
        lex_from(s, p, false) == drop_doc_tokens(lex_from(s, p, true)),
    decreases s.len() - p,
{
    reveal(lex_next);
    lemma_skip_trivia_keep(s, p);
    lemma_skip_trivia(s, p, true);
    match skip_trivia(s, p, true) {
        Trivia::Doc(a, e) => {
            let d = SToken {
                kind: SKind::DocComment(s.subrange(a + 3, e - 2)),
                span: span_of(s, a, e),
            };
            lemma_dropping_docs_filters_them(s, e);
            lemma_skip_trivia(s, e, false);
            match skip_trivia(s, e, false) {
                Trivia::Skipped(q) => {
                    lemma_lex_at_bounds(s, q);
                },
                _ => {},
            }
            assert(lex_from(s, p, false) == lex_from(s, e, false));
            match lex_from(s, e, true) {
                Ok(rest) => {
                    assert((seq![d] + rest).drop_first() =~= rest);
                    assert(without_docs(seq![d] + rest) == without_docs(rest));
                },
                Err(_) => {},
            }
        },
        _ => {
            lemma_skip_trivia(s, p, false);
            match skip_trivia(s, p, false) {
                Trivia::Skipped(q) => {
                    lemma_lex_at_bounds(s, q);
                    lemma_lex_at_no_doc(s, q);
                    match lex_at(s, q) {
                        Step::Tok(k, a, b) => {
                            let t = SToken { kind: k, span: span_of(s, a, b) };
                            assert(seq![t].drop_first() =~= Seq::<SToken>::empty());
                            assert(without_docs(Seq::<SToken>::empty()) =~= Seq::<SToken>::empty());
                            assert(seq![t] + Seq::<SToken>::empty() =~= seq![t]);
                            assert(without_docs(seq![t]) =~= seq![t]);
                            if !(k is Eof) && b > p && b <= s.len() {
                                lemma_dropping_docs_filters_them(s, b);
                                match lex_from(s, b, true) {
                                    Ok(rest) => {
                                        assert((seq![t] + rest).drop_first() =~= rest);
                                        assert(without_docs(seq![t] + rest) == seq![t]
                                            + without_docs(rest));
                                    },
                                    Err(_) => {},
                                }
                            }
                        },
                        Step::Fail(_) => {},
                    }
                },
                _ => {},
            }
        },
    }
}

/// The view of a lexing result.
pub open spec fn tokens_result(r: ParseResult<Vec<Token>>) -> Result<Seq<SToken>, SParseError> {
    match r {
        Ok(v) => Ok(tokens_view(v@)),
        Err(e) => Err(e@),
    }
}

/// `r` is what step `st` produces; `new_pos` is where lexing continues.
pub open spec fn step_result(s: Seq<char>, st: Step, r: ParseResult<Token>, new_pos: int) -> bool {
    match st {
        Step::Tok(k, a, b) => r matches Ok(t) && t@ == (SToken { kind: k, span: span_of(s, a, b) })
            && new_pos == b,
        Step::Fail(e) => r matches Err(x) && x@ == lex_error(s, e),
    }
}

// ---------------------------------------------------------------------------
// The lexer
// ---------------------------------------------------------------------------

pub struct Lexer<'a> {
    src: &'a str,
    chars: Vec<char>,
    /// Character index of the next character.
    pos: usize,
    /// Byte offset of the next character.
    bpos: usize,
    keep_doc_comments: bool,
}

impl<'a> Lexer<'a> {
    /// The source being lexed.
    pub closed spec fn source(&self) -> Seq<char> {
        self.src@
    }

    /// Character index where lexing continues.
    pub closed spec fn position(&self) -> int {
        self.pos as int
    }

    pub closed spec fn keeps_docs(&self) -> bool {
        self.keep_doc_comments
    }

    pub closed spec fn wf(&self) -> bool {
        &&& self.chars@ == self.src@
        &&& self.pos <= self.chars@.len()
        &&& self.bpos == byte_offset(self.chars@, self.pos as int)
        &&& utf8_len(self.chars@) <= usize::MAX
    }

    pub fn new(src: &'a str) -> (l: Self)
        ensures
            l.wf(),
            l.source() == src@,
            l.position() == 0,
            l.keeps_docs(),
    {
        let chars = chars_of(src);
        let n = src.as_bytes().len();
        proof {
            lemma_utf8_len_is_byte_len(src@);
            assert(chars@.take(0) =~= Seq::<char>::empty());
        }
        Lexer { src, chars, pos: 0, bpos: 0, keep_doc_comments: true }
    }

    /// Whether `/** ... */` comments are emitted as [`TokenKind::DocComment`]
    /// tokens (default) or dropped like ordinary comments.
    pub fn keep_doc_comments(self, keep: bool) -> (l: Self)
        requires
            self.wf(),
        ensures
            l.wf(),
            l.source() == self.source(),
            l.position() == self.position(),
            l.keeps_docs() == keep,
    {
        let mut l = self;
        l.keep_doc_comments = keep;
        l
    }

    /// Tokenize the rest of the input. The last token is always `Eof`.
    pub fn tokenize(self) -> (r: ParseResult<Vec<Token>>)
        requires
            self.wf(),
        ensures
            tokens_result(r) == lex_from(self.source(), self.position(), self.keeps_docs()),
            r matches Ok(v) ==> v@.len() > 0 && v@.last().kind is Eof,
    {
        let mut l = self;
        let ghost s = l.chars@;
        let ghost keep = l.keep_doc_comments;
        let ghost p0 = l.pos as int;
        let mut out: Vec<Token> = Vec::new();
        proof {
            assert(tokens_view(out@) =~= Seq::<SToken>::empty());
            assert(prepend(Seq::<SToken>::empty(), lex_from(s, p0, keep)) =~= lex_from(
                s,
                p0,
                keep,
            )) by {
                match lex_from(s, p0, keep) {
                    Ok(rest) => {
                        assert(Seq::<SToken>::empty() + rest =~= rest);
                    },
                    Err(_) => {},
                }
            }
        }
        loop
            invariant_except_break
                lex_from(s, p0, keep) == prepend(tokens_view(out@), lex_from(s, l.pos as int, keep)),
            invariant
                l.wf(),
                p0 == self.pos,
                s == self.chars@,
                s == self.src@,
                keep == self.keep_doc_comments,
                l.chars@ == s,
                l.src@ == s,
                l.keep_doc_comments == keep,
            ensures
                lex_from(s, p0, keep) == Ok::<Seq<SToken>, SParseError>(tokens_view(out@)),
                out@.len() > 0 && out@.last().kind is Eof,
            decreases s.len() - l.pos,
        {
            let ghost before = l.pos as int;
            let tok = match l.next_token() {
                Ok(t) => t,
                Err(e) => {
                    proof {
                        assert(lex_from(s, before, keep) == Err::<Seq<SToken>, SParseError>(e@));
                    }
                    return Err(e);
                },
            };
            let eof = match tok.kind {
                TokenKind::Eof => true,
                _ => false,
            };
            let ghost t = tok@;
            let ghost prev = out@;
            out.push(tok);
            proof {
                assert(tokens_view(out@) =~= tokens_view(prev) + seq![t]);
                if eof {
                    assert(tokens_view(prev) + seq![t] =~= tokens_view(out@));
                } else {
                    assert(prepend(tokens_view(prev), prepend(seq![t], lex_from(s, l.pos as int, keep)))
                        =~= prepend(tokens_view(out@), lex_from(s, l.pos as int, keep))) by {
                        match lex_from(s, l.pos as int, keep) {
                            Ok(rest) => {
                                assert(tokens_view(prev) + (seq![t] + rest) =~= tokens_view(out@)
                                    + rest);
                            },
                            Err(_) => {},
                        }
                    }
                }
            }
            if eof {
                break ;
            }
        }
        Ok(out)
    }

    /// The next character, or NUL at the end.
    fn peek(&self) -> (c: char)
        requires
            self.wf(),
        ensures
            c == char_at(self.chars@, self.pos as int),
    {
        if self.pos < self.chars.len() {
            self.chars[self.pos]
        } else {
            '\0'
        }
    }

    /// The character `n` places ahead, or NUL past the end.
    fn peek_at(&self, n: usize) -> (c: char)
        requires
            self.wf(),
        ensures
            c == char_at(self.chars@, self.pos + n),
    {
        if n < self.chars.len() - self.pos {
            self.chars[self.pos + n]
        } else {
            '\0'
        }
    }

    /// Move past the next character.
    fn bump(&mut self)
        requires
            old(self).wf(),
            old(self).pos < old(self).chars@.len(),
        ensures
            final(self).wf(),
            final(self).pos == old(self).pos + 1,
            final(self).chars == old(self).chars,
            final(self).src == old(self).src,
            final(self).keep_doc_comments == old(self).keep_doc_comments,
    {
        let n = self.chars.len();
        let w = char_width(self.chars[self.pos]);
        proof {
            lemma_byte_offset_step(self.chars@, self.pos as int);
            lemma_byte_offset_mono(self.chars@, self.pos + 1, self.chars@.len() as int);
            assert(self.chars@.take(self.chars@.len() as int) =~= self.chars@);
        }
        self.pos = self.pos + 1;
        self.bpos = self.bpos + w;
    }

    /// The span from the byte offset `start` to the current position.
    fn span_from(&self, start: usize) -> (s: Span)
        ensures
            s == (Span { start: start as u32, end: self.bpos as u32 }),
    {
        Span::new(start as u32, self.bpos as u32)
    }

    fn err<T>(&self, start: usize, msg: String) -> (r: ParseResult<T>)
        ensures
            r matches Err(e) && e@ == (SParseError {
                span: Span { start: start as u32, end: self.bpos as u32 },
                message: msg@,
            }),
    {
        Err(ParseError::new(self.span_from(start), msg))
    }

    /// Skip whitespace and non-doc comments. Returns a doc comment token if
    /// one was encountered and doc comments are being kept.
    fn skip_trivia(&mut self) -> (r: ParseResult<Option<Token>>)
        requires
            old(self).wf(),
        ensures
            final(self).wf(),
            final(self).chars == old(self).chars,
            final(self).src == old(self).src,
            final(self).keep_doc_comments == old(self).keep_doc_comments,
            match skip_trivia(old(self).chars@, old(self).pos as int, old(self).keep_doc_comments) {
                Trivia::Skipped(q) => r matches Ok(None) && final(self).pos == q,
                Trivia::Doc(a, e) => r matches Ok(Some(t)) && t@ == (SToken {
                    kind: SKind::DocComment(old(self).chars@.subrange(a + 3, e - 2)),
                    span: span_of(old(self).chars@, a, e),
                }) && final(self).pos == e,
                Trivia::Unterminated(a, b) => r matches Err(x) && x@ == lex_error(
                    old(self).chars@,
                    err_at(old(self).chars@, a, b, "unterminated block comment"@),
                ),
            },
    {
        let ghost s = old(self).chars@;
        let ghost p0 = old(self).pos as int;
        loop
            invariant
                self.wf(),
                self.chars@ == s,
                self.chars == old(self).chars,
                self.src == old(self).src,
                self.keep_doc_comments == old(self).keep_doc_comments,
                p0 == old(self).pos,
                skip_trivia(s, p0, old(self).keep_doc_comments) == skip_trivia(s, self.pos as int, old(self).keep_doc_comments),
            decreases s.len() - self.pos,
        {
            let c = self.peek();
            if c == ' ' || c == '\t' || c == '\r' || c == '\n' || c == '\x0c' {
                self.bump();
            } else if c == '/' && self.peek_at(1) == '/' {
                let ghost slash = self.pos as int;
                self.bump();
                proof {
                    lemma_line_end(s, slash + 1);
                }
                while self.pos < self.chars.len() && self.peek() != '\n'
                    invariant
                        self.wf(),
                        self.chars@ == s,
                        self.chars == old(self).chars,
                        self.src == old(self).src,
                        self.keep_doc_comments == old(self).keep_doc_comments,
                        slash < self.pos,
                        line_end(s, slash + 1) == line_end(s, self.pos as int),
                        p0 == old(self).pos,
                        skip_trivia(s, p0, old(self).keep_doc_comments) == skip_trivia(
                            s,
                            line_end(s, slash + 1),
                            old(self).keep_doc_comments,
                        ),
                    decreases s.len() - self.pos,
                {
                    self.bump();
                }
            } else if c == '/' && self.peek_at(1) == '*' {
                let start = self.pos;
                let start_b = self.bpos;
                let is_doc = self.peek_at(2) == '*' && self.peek_at(3) != '/';
                self.bump();
                self.bump();
                loop
                    invariant_except_break
                        block_end(s, start + 2) == block_end(s, self.pos as int),
                    invariant
                        self.wf(),
                        self.chars@ == s,
                        self.chars == old(self).chars,
                        self.src == old(self).src,
                        self.keep_doc_comments == old(self).keep_doc_comments,
                        start + 2 <= self.pos,
                        start_b == byte_offset(s, start as int),
                        start < s.len(),
                        s[start as int] == '/',
                        char_at(s, start + 1) == '*',
                        is_doc == (char_at(s, start + 2) == '*' && char_at(s, start + 3) != '/'),
                        p0 == old(self).pos,
                        skip_trivia(s, p0, old(self).keep_doc_comments) == skip_trivia(
                            s,
                            start as int,
                            old(self).keep_doc_comments,
                        ),
                    ensures
                        self.wf(),
                        self.chars@ == s,
                        self.chars == old(self).chars,
                        self.src == old(self).src,
                        self.keep_doc_comments == old(self).keep_doc_comments,
                        start + 2 <= self.pos,
                        start < s.len(),
                        s[start as int] == '/',
                        char_at(s, start + 1) == '*',
                        is_doc == (char_at(s, start + 2) == '*' && char_at(s, start + 3) != '/'),
                        block_end(s, start + 2) == Some(self.pos as int),
                        p0 == old(self).pos,
                        skip_trivia(s, p0, old(self).keep_doc_comments) == skip_trivia(
                            s,
                            start as int,
                            old(self).keep_doc_comments,
                        ),
                    decreases s.len() - self.pos,
                {
                    if self.pos >= self.chars.len() {
                        return self.err(start_b, String::from_str("unterminated block comment"));
                    }
                    if self.peek() == '*' && self.peek_at(1) == '/' {
                        self.bump();
                        self.bump();
                        break ;
                    }
                    self.bump();
                }
                proof {
                    lemma_block_end(s, start + 2);
                    if is_doc {
                        lemma_block_end(s, start + 3);
                        assert(block_end(s, start + 2) == block_end(s, start + 3));
                    }
                }
                if is_doc && self.keep_doc_comments {
                    let text = string_from_chars(self.chars.as_slice(), start + 3, self.pos - 2);
                    return Ok(
                        Some(Token { kind: TokenKind::DocComment(text), span: self.span_from(start_b) }),
                    );
                }
            } else {
                assert(skip_trivia(s, self.pos as int, old(self).keep_doc_comments) == Trivia::Skipped(self.pos as int));
                return Ok(None);
            }
        }
    }

    fn next_token(&mut self) -> (r: ParseResult<Token>)
        requires
            old(self).wf(),
        ensures
            final(self).wf(),
            final(self).chars == old(self).chars,
            final(self).src == old(self).src,
            final(self).keep_doc_comments == old(self).keep_doc_comments,
            step_result(
                old(self).chars@,
                lex_next(old(self).chars@, old(self).pos as int, old(self).keep_doc_comments),
                r,
                final(self).pos as int,
            ),
            r matches Ok(t) && !(t.kind is Eof) ==> old(self).pos < final(self).pos,
    {
        let ghost s = old(self).chars@;
        proof {
            reveal(lex_next);
            lemma_skip_trivia(s, old(self).pos as int, old(self).keep_doc_comments);
        }
        if let Some(doc) = self.skip_trivia()? {
            return Ok(doc);
        }
        let start = self.pos;
        let start_b = self.bpos;
        if self.pos >= self.chars.len() {
            return Ok(Token { kind: TokenKind::Eof, span: self.span_from(start_b) });
        }
        let c = self.peek();
        // Identifiers, keywords, @builtins.
        if ascii_alpha(c) || c == '_' || c == '@' {
            if c == '@' {
                self.bump();
                let n = self.peek();
                if !(ascii_alpha(n) || n == '_') {
                    return self.err(start_b, String::from_str("expected identifier after `@`"));
                }
            }
            let ghost from = self.pos as int;
            self.ident_rest();
            proof {
                lemma_ident_end(s, from);
                if c != '@' {
                    assert(ident_end(s, from) == ident_end(s, from + 1));
                    lemma_ident_end(s, from + 1);
                }
            }
            let kind = if c == '@' {
                TokenKind::Ident(string_from_chars(self.chars.as_slice(), start, self.pos))
            } else {
                match keyword_from_chars(self.chars.as_slice(), start, self.pos) {
                    Some(k) => TokenKind::Kw(k),
                    None => TokenKind::Ident(
                        string_from_chars(self.chars.as_slice(), start, self.pos),
                    ),
                }
            };
            return Ok(Token { kind, span: self.span_from(start_b) });
        }
        if ascii_digit(c) || (c == '.' && ascii_digit(self.peek_at(1))) {
            return self.number(start, start_b);
        }
        if c == '"' || c == '\'' {
            return self.string(start, start_b, c);
        }
        // The `✨` placeholder.
        if c == '\u{2728}' {
            self.bump();
            return Ok(Token { kind: TokenKind::Sparkle, span: self.span_from(start_b) });
        }
        match self.punct() {
            Some((kind, n)) => {
                proof {
                    lemma_punct_at(s, start as int);
                }
                self.bump_n(n);
                Ok(Token { kind, span: self.span_from(start_b) })
            },
            None => {
                self.bump();
                let mut msg = String::from_str("unexpected character `");
                push_char(&mut msg, c);
                msg.append("`");
                proof {
                    assert(msg@ =~= "unexpected character `"@ + seq![c] + "`"@);
                }
                self.err(start_b, msg)
            },
        }
    }

    /// Punctuation or an operator at the current position, with its length.
    fn punct(&self) -> (r: Option<(TokenKind, usize)>)
        requires
            self.wf(),
        ensures
            match punct_at(self.chars@, self.pos as int) {
                Some((k, n)) => r matches Some((kind, m)) && kind@ == k && m == n,
                None => r is None,
            },
    {
        let c = self.peek();
        let c1 = self.peek_at(1);
        let c2 = self.peek_at(2);
        let (kind, len) = if c == '|' && c1 == '|' && c2 == '=' {
            (TokenKind::PipePipeEq, 3)
        } else if c == '&' && c1 == '&' && c2 == '=' {
            (TokenKind::AmpAmpEq, 3)
        } else if c == '?' && c1 == '?' && c2 == '=' {
            (TokenKind::QuestionQuestionEq, 3)
        } else if c == '?' && c1 == '.' {
            (TokenKind::QuestionDot, 2)
        } else if c == '?' && c1 == '?' {
            (TokenKind::QuestionQuestion, 2)
        } else if c == '-' && c1 == '>' {
            (TokenKind::Arrow, 2)
        } else if c == '=' && c1 == '>' {
            (TokenKind::FatArrow, 2)
        } else if c == '=' && c1 == '=' {
            (TokenKind::EqEq, 2)
        } else if c == '!' && c1 == '=' {
            (TokenKind::BangEq, 2)
        } else if c == '<' && c1 == '=' {
            (TokenKind::LtEq, 2)
        } else if c == '>' && c1 == '=' {
            (TokenKind::GtEq, 2)
        } else if c == '&' && c1 == '&' {
            (TokenKind::AmpAmp, 2)
        } else if c == '|' && c1 == '|' {
            (TokenKind::PipePipe, 2)
        } else if c == '+' && c1 == '=' {
            (TokenKind::PlusEq, 2)
        } else if c == '-' && c1 == '=' {
            (TokenKind::MinusEq, 2)
        } else if c == '*' && c1 == '=' {
            (TokenKind::StarEq, 2)
        } else if c == '/' && c1 == '=' {
            (TokenKind::SlashEq, 2)
        } else if c == '%' && c1 == '=' {
            (TokenKind::PercentEq, 2)
        } else if c == '~' && c1 == '=' {
            (TokenKind::TildeEq, 2)
        } else if c == '^' && c1 == '=' {
            (TokenKind::CaretEq, 2)
        } else {
            let k = if c == '(' {
                TokenKind::LParen
            } else if c == ')' {
                TokenKind::RParen
            } else if c == '{' {
                TokenKind::LBrace
            } else if c == '}' {
                TokenKind::RBrace
            } else if c == '[' {
                TokenKind::LBracket
            } else if c == ']' {
                TokenKind::RBracket
            } else if c == ',' {
                TokenKind::Comma
            } else if c == ';' {
                TokenKind::Semi
            } else if c == ':' {
                TokenKind::Colon
            } else if c == '.' {
                TokenKind::Dot
            } else if c == '?' {
                TokenKind::Question
            } else if c == '+' {
                TokenKind::Plus
            } else if c == '-' {
                TokenKind::Minus
            } else if c == '*' {
                TokenKind::Star
            } else if c == '/' {
                TokenKind::Slash
            } else if c == '%' {
                TokenKind::Percent
            } else if c == '^' {
                TokenKind::Caret
            } else if c == '~' {
                TokenKind::Tilde
            } else if c == '!' {
                TokenKind::Bang
            } else if c == '=' {
                TokenKind::Eq
            } else if c == '<' {
                TokenKind::Lt
            } else if c == '>' {
                TokenKind::Gt
            } else {
                return None;
            };
            (k, 1)
        };
        Some((kind, len))
    }

    /// Move past `n` characters.
    fn bump_n(&mut self, n: usize)
        requires
            old(self).wf(),
            old(self).pos + n <= old(self).chars@.len(),
        ensures
            final(self).wf(),
            final(self).pos == old(self).pos + n,
            final(self).chars == old(self).chars,
            final(self).src == old(self).src,
            final(self).keep_doc_comments == old(self).keep_doc_comments,
    {
        let mut i: usize = 0;
        while i < n
            invariant
                self.wf(),
                self.chars == old(self).chars,
                self.src == old(self).src,
                self.keep_doc_comments == old(self).keep_doc_comments,
                i <= n,
                self.pos == old(self).pos + i,
                old(self).pos + n <= old(self).chars@.len(),
            decreases n - i,
        {
            self.bump();
            i = i + 1;
        }
    }

    /// Advance over a run of identifier characters.
    fn ident_rest(&mut self)
        requires
            old(self).wf(),
        ensures
            final(self).wf(),
            final(self).chars == old(self).chars,
            final(self).src == old(self).src,
            final(self).keep_doc_comments == old(self).keep_doc_comments,
            final(self).pos == ident_end(old(self).chars@, old(self).pos as int),
    {
        let ghost s = old(self).chars@;
        let ghost from = old(self).pos as int;
        while ident_char(self.peek())
            invariant
                self.wf(),
                self.chars@ == s,
                self.chars == old(self).chars,
                self.src == old(self).src,
                self.keep_doc_comments == old(self).keep_doc_comments,
                from == old(self).pos,
                from <= self.pos,
                ident_end(s, from) == ident_end(s, self.pos as int),
            decreases s.len() - self.pos,
        {
            self.bump();
        }
    }

    /// Advance over a run of decimal digits.
    fn digits(&mut self)
        requires
            old(self).wf(),
        ensures
            final(self).wf(),
            final(self).chars == old(self).chars,
            final(self).src == old(self).src,
            final(self).keep_doc_comments == old(self).keep_doc_comments,
            final(self).pos == digits_end(old(self).chars@, old(self).pos as int),
    {
        let ghost s = old(self).chars@;
        let ghost from = old(self).pos as int;
        while ascii_digit(self.peek())
            invariant
                self.wf(),
                self.chars@ == s,
                self.chars == old(self).chars,
                self.src == old(self).src,
                self.keep_doc_comments == old(self).keep_doc_comments,
                from == old(self).pos,
                from <= self.pos,
                digits_end(s, from) == digits_end(s, self.pos as int),
            decreases s.len() - self.pos,
        {
            self.bump();
        }
    }

    fn number(&mut self, start: usize, start_b: usize) -> (r: ParseResult<Token>)
        requires
            old(self).wf(),
            old(self).pos == start,
            start_b == old(self).bpos,
            start < old(self).chars@.len(),
            is_digit(old(self).chars@[start as int]) || (old(self).chars@[start as int] == '.'
                && is_digit(char_at(old(self).chars@, start + 1))),
        ensures
            final(self).wf(),
            final(self).chars == old(self).chars,
            final(self).src == old(self).src,
            final(self).keep_doc_comments == old(self).keep_doc_comments,
            step_result(old(self).chars@, lex_number(old(self).chars@, start as int), r, final(self).pos as int),
            r is Ok ==> old(self).pos < final(self).pos,
    {
        let ghost s = old(self).chars@;
        // Integer part.
        self.digits();
        let ghost p1 = self.pos as int;
        proof {
            lemma_digits_end(s, start as int);
        }
        // Fraction: `1.5`, `1.`, `.5`. A `.` followed by an identifier char
        // is member access on a number.
        let next = self.peek_at(1);
        let after = self.peek_at(2);
        let exponent_follows = (next == 'e' || next == 'E') && (ascii_digit(after) || ((after
            == '+' || after == '-') && ascii_digit(self.peek_at(3))));
        if self.peek() == '.' && (exponent_follows || !(ascii_alpha(next) || next == '_')) {
            self.bump();
            self.digits();
            proof {
                lemma_digits_end(s, p1 + 1);
            }
        }
        let ghost p2 = self.pos as int;
        assert(start < p2) by {
            if is_digit(s[start as int]) {
                assert(digits_end(s, start as int) == digits_end(s, start + 1));
                lemma_digits_end(s, start + 1);
            }
        }
        // Exponent.
        let e = self.peek();
        if e == 'e' || e == 'E' {
            let save = self.pos;
            let save_b = self.bpos;
            self.bump();
            let sign = self.peek();
            if sign == '+' || sign == '-' {
                self.bump();
            }
            if ascii_digit(self.peek()) {
                let ghost q = self.pos as int;
                self.digits();
                proof {
                    lemma_digits_end(s, q);
                }
            } else {
                // Not an exponent after all.
                self.pos = save;
                self.bpos = save_b;
            }
        }
        let end = self.peek();
        if ident_char(end) {
            return self.err(start_b, String::from_str("invalid numeric literal"));
        }
        let text = string_from_chars(self.chars.as_slice(), start, self.pos);
        Ok(Token { kind: TokenKind::Number(text), span: self.span_from(start_b) })
    }

    fn string(&mut self, start: usize, start_b: usize, quote: char) -> (r: ParseResult<Token>)
        requires
            old(self).wf(),
            old(self).pos == start,
            start_b == old(self).bpos,
            start < old(self).chars@.len(),
            old(self).chars@[start as int] == quote,
        ensures
            final(self).wf(),
            final(self).chars == old(self).chars,
            final(self).src == old(self).src,
            final(self).keep_doc_comments == old(self).keep_doc_comments,
            step_result(old(self).chars@, lex_string(old(self).chars@, start as int), r, final(self).pos as int),
            r is Ok ==> old(self).pos < final(self).pos,
    {
        let ghost s = old(self).chars@;
        self.bump();
        let mut out = String::new();
        loop
            invariant
                self.wf(),
                self.chars@ == s,
                self.chars == old(self).chars,
                self.src == old(self).src,
                self.keep_doc_comments == old(self).keep_doc_comments,
                start < self.pos,
                old(self).pos == start,
                start_b == byte_offset(s, start as int),
                s[start as int] == quote,
                string_body(s, start as int, quote, start + 1, Seq::empty()) == string_body(
                    s,
                    start as int,
                    quote,
                    self.pos as int,
                    out@,
                ),
            decreases s.len() - self.pos,
        {
            if self.pos >= self.chars.len() {
                return self.err(start_b, String::from_str("unterminated string literal"));
            }
            let c = self.peek();
            if c == quote {
                self.bump();
                return Ok(Token { kind: TokenKind::Str(out), span: self.span_from(start_b) });
            }
            if c == '\\' {
                let backslash = self.pos;
                let backslash_b = self.bpos;
                self.bump();
                let e = self.peek();
                if e == 'u' {
                    self.bump();
                    let hex_start = self.pos;
                    while self.pos - hex_start < 4 && hex_digit(self.peek())
                        invariant
                            self.wf(),
                            self.chars@ == s,
                            self.chars == old(self).chars,
                            self.src == old(self).src,
                            self.keep_doc_comments == old(self).keep_doc_comments,
                            hex_start <= self.pos <= hex_start + 4,
                            hex_end(s, hex_start as int, hex_start + 4) == hex_end(
                                s,
                                self.pos as int,
                                hex_start + 4,
                            ),
                        decreases hex_start + 4 - self.pos,
                    {
                        self.bump();
                    }
                    proof {
                        lemma_hex_end(s, hex_start as int, hex_start + 4);
                    }
                    if self.pos - hex_start != 4 {
                        return self.err(backslash_b, String::from_str("invalid \\u escape"));
                    }
                    proof {
                        assert(is_hex(char_at(s, hex_start as int)));
                        assert(is_hex(char_at(s, hex_start + 1)));
                        assert(is_hex(char_at(s, hex_start + 2)));
                        assert(is_hex(char_at(s, hex_start + 3)));
                    }
                    let code = hex_digit_value(self.chars[hex_start]) * 4096 + hex_digit_value(
                        self.chars[hex_start + 1],
                    ) * 256 + hex_digit_value(self.chars[hex_start + 2]) * 16 + hex_digit_value(
                        self.chars[hex_start + 3],
                    );
                    let ch = match char_from_u32(code) {
                        Some(ch) => ch,
                        None => '\u{FFFD}',
                    };
                    push_char(&mut out, ch);
                } else if e == 'n' || e == 't' || e == 'r' || e == '0' || e == '\\' || e == '"'
                    || e == '\'' || e == '/' {
                    let ch = if e == 'n' {
                        '\n'
                    } else if e == 't' {
                        '\t'
                    } else if e == 'r' {
                        '\r'
                    } else if e == '0' {
                        '\0'
                    } else {
                        e
                    };
                    self.bump();
                    push_char(&mut out, ch);
                } else if e == '\0' {
                    return Err(
                        ParseError::new(
                            Span::new(start_b as u32, (self.bpos as u32).wrapping_add(1)),
                            String::from_str("unterminated string literal"),
                        ),
                    );
                } else {
                    // Unknown escape: keep it verbatim.
                    self.bump();
                    push_char(&mut out, '\\');
                    push_char(&mut out, e);
                }
            } else {
                self.bump();
                push_char(&mut out, c);
            }
        }
    }
}

/// Convenience: tokenize a source string, dropping doc comments.
pub fn tokenize(src: &str) -> (r: ParseResult<Vec<Token>>)
    ensures
        tokens_result(r) == lex_from(src@, 0, false),
{
    Lexer::new(src).keep_doc_comments(false).tokenize()
}

} // verus!
