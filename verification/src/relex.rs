//! Token texts read back: what the printer writes for a token, the lexer
//! reads as that token again.
//!
//! `token_text(k)` is how a token of kind `k` is spelled. For every kind that
//! has a fixed or canonical spelling (`relexes`), lexing the spellings of a
//! token sequence, each followed by a space, gives back exactly that sequence
//! of kinds and then `Eof` (`lemma_spaced_tokens_relex`).

use crate::error::SParseError;
use crate::lexer::{
    digits_end, ident_end, is_space, lex_at, lex_from, lex_next, lex_number, prepend,
    skip_trivia, span_of, Step, Trivia,
};
use crate::print::{escaped, lemma_string_body_reads_escaped, quoted};
use crate::text::{char_at, is_alpha, is_digit, is_ident_char};
use crate::token::{keyword_of, keyword_text, lemma_keyword_round_trip, Keyword, SKind, SToken};
use vstd::prelude::*;

verus! {

// ---------------------------------------------------------------------------
// Spellings
// ---------------------------------------------------------------------------

/// How a token of kind `k` is spelled in source text.
pub open spec fn token_text(k: SKind) -> Seq<char> {
    match k {
        SKind::Ident(s) => s,
        SKind::Number(s) => s,
        SKind::Str(s) => quoted(s),
        SKind::DocComment(s) => seq!['/', '*', '*'] + s + seq!['*', '/'],
        SKind::Sparkle => seq!['\u{2728}'],
        SKind::Kw(k) => keyword_text(k),
        SKind::LParen => seq!['('],
        SKind::RParen => seq![')'],
        SKind::LBrace => seq!['{'],
        SKind::RBrace => seq!['}'],
        SKind::LBracket => seq!['['],
        SKind::RBracket => seq![']'],
        SKind::Comma => seq![','],
        SKind::Semi => seq![';'],
        SKind::Colon => seq![':'],
        SKind::Dot => seq!['.'],
        SKind::QuestionDot => seq!['?', '.'],
        SKind::Question => seq!['?'],
        SKind::QuestionQuestion => seq!['?', '?'],
        SKind::Arrow => seq!['-', '>'],
        SKind::FatArrow => seq!['=', '>'],
        SKind::Plus => seq!['+'],
        SKind::Minus => seq!['-'],
        SKind::Star => seq!['*'],
        SKind::Slash => seq!['/'],
        SKind::Percent => seq!['%'],
        SKind::Caret => seq!['^'],
        SKind::Tilde => seq!['~'],
        SKind::Bang => seq!['!'],
        SKind::Eq => seq!['='],
        SKind::EqEq => seq!['=', '='],
        SKind::BangEq => seq!['!', '='],
        SKind::Lt => seq!['<'],
        SKind::LtEq => seq!['<', '='],
        SKind::Gt => seq!['>'],
        SKind::GtEq => seq!['>', '='],
        SKind::AmpAmp => seq!['&', '&'],
        SKind::PipePipe => seq!['|', '|'],
        SKind::PlusEq => seq!['+', '='],
        SKind::MinusEq => seq!['-', '='],
        SKind::StarEq => seq!['*', '='],
        SKind::SlashEq => seq!['/', '='],
        SKind::PercentEq => seq!['%', '='],
        SKind::TildeEq => seq!['~', '='],
        SKind::CaretEq => seq!['^', '='],
        SKind::PipePipeEq => seq!['|', '|', '='],
        SKind::AmpAmpEq => seq!['&', '&', '='],
        SKind::QuestionQuestionEq => seq!['?', '?', '='],
        SKind::Eof => Seq::empty(),
    }
}

/// Every character of `t` from `a` on continues an identifier.
pub open spec fn ident_chars_from(t: Seq<char>, a: int) -> bool {
    forall|i: int| a <= i < t.len() ==> is_ident_char(#[trigger] t[i])
}

/// An identifier that is not a keyword: a letter or `_`, then identifier
/// characters.
pub open spec fn is_plain_ident(t: Seq<char>) -> bool {
    &&& t.len() > 0
    &&& (is_alpha(t[0]) || t[0] == '_')
    &&& ident_chars_from(t, 1)
    &&& keyword_of(t) is None
}

/// A builtin name: `@`, a letter or `_`, then identifier characters.
pub open spec fn is_builtin_name(t: Seq<char>) -> bool {
    &&& t.len() > 1
    &&& t[0] == '@'
    &&& (is_alpha(t[1]) || t[1] == '_')
    &&& ident_chars_from(t, 2)
}

/// A decimal literal: digits, then optionally `.` and digits, then
/// optionally `e` or `E`, an optional sign and digits.
pub open spec fn is_decimal_literal(t: Seq<char>) -> bool {
    let i = digits_end(t, 0);
    let j = if char_at(t, i) == '.' {
        digits_end(t, i + 1)
    } else {
        i
    };
    let q = if char_at(t, j + 1) == '+' || char_at(t, j + 1) == '-' {
        j + 2
    } else {
        j + 1
    };
    &&& i > 0
    &&& (char_at(t, i) == '.' ==> j > i + 1)
    &&& if char_at(t, j) == 'e' || char_at(t, j) == 'E' {
        q < digits_end(t, q) == t.len()
    } else {
        j == t.len()
    }
}

/// Whether a token of kind `k` is read back from its spelling: every kind
/// but doc comments and end of file, with identifiers and numbers in their
/// usual forms.
pub open spec fn relexes(k: SKind) -> bool {
    match k {
        SKind::Ident(t) => is_plain_ident(t) || is_builtin_name(t),
        SKind::Number(t) => is_decimal_literal(t),
        SKind::DocComment(_) => false,
        SKind::Eof => false,
        _ => true,
    }
}

/// The spellings of `ks`, each followed by a space.
pub open spec fn spaced(ks: Seq<SKind>) -> Seq<char>
    decreases ks.len(),
{
    if ks.len() == 0 {
        Seq::empty()
    } else {
        token_text(ks[0]) + seq![' '] + spaced(ks.drop_first())
    }
}

/// The kinds of a token sequence.
pub open spec fn kinds(ts: Seq<SToken>) -> Seq<SKind> {
    ts.map_values(|t: SToken| t.kind)
}


// ---------------------------------------------------------------------------
// Lexing a stretch of text
// ---------------------------------------------------------------------------

/// The first `n` tokens lexed from `p`, and where lexing goes on after them,
/// when none of them is `Eof` or an error.
pub open spec fn lex_steps(s: Seq<char>, p: int, n: nat, keep: bool) -> Option<(Seq<SToken>, int)>
    decreases n,
{
    if n == 0 {
        Some((Seq::empty(), p))
    } else {
        match lex_next(s, p, keep) {
            Step::Tok(k, a, b) => if !(k is Eof) && p < b <= s.len() {
                match lex_steps(s, b, (n - 1) as nat, keep) {
                    Some((ts, q)) => Some((seq![SToken { kind: k, span: span_of(s, a, b) }] + ts, q)),
                    None => None,
                }
            } else {
                None
            },
            Step::Fail(_) => None,
        }
    }
}

/// Lexing from `p` gives the tokens of `lex_steps`, then whatever lexing
/// from where they end gives.
pub proof fn lemma_lex_steps_from(s: Seq<char>, p: int, n: nat, keep: bool)
    requires
        lex_steps(s, p, n, keep) is Some,
    ensures
        ({
            let (ts, q) = lex_steps(s, p, n, keep)->Some_0;
            lex_from(s, p, keep) == prepend(ts, lex_from(s, q, keep))
        }),
    decreases n,
{
    let (ts, q) = lex_steps(s, p, n, keep)->Some_0;
    if n == 0 {
        match lex_from(s, p, keep) {
            Ok(r) => assert(Seq::<SToken>::empty() + r =~= r),
            Err(_) => {},
        }
    } else {
        match lex_next(s, p, keep) {
            Step::Tok(k, a, b) => {
                lemma_lex_steps_from(s, b, (n - 1) as nat, keep);
                let t = SToken { kind: k, span: span_of(s, a, b) };
                let (ts2, q2) = lex_steps(s, b, (n - 1) as nat, keep)->Some_0;
                match lex_from(s, q, keep) {
                    Ok(r) => assert(seq![t] + (ts2 + r) =~= (seq![t] + ts2) + r),
                    Err(_) => {},
                }
            },
            Step::Fail(_) => {},
        }
    }
}

/// Two stretches lexed one after the other.
pub proof fn lemma_lex_steps_concat(s: Seq<char>, p: int, n1: nat, n2: nat, keep: bool)
    requires
        lex_steps(s, p, n1, keep) is Some,
        lex_steps(s, lex_steps(s, p, n1, keep)->Some_0.1, n2, keep) is Some,
    ensures
        ({
            let (t1, q1) = lex_steps(s, p, n1, keep)->Some_0;
            let (t2, q2) = lex_steps(s, q1, n2, keep)->Some_0;
            lex_steps(s, p, n1 + n2, keep) == Some((t1 + t2, q2))
        }),
    decreases n1,
{
    let (t1, q1) = lex_steps(s, p, n1, keep)->Some_0;
    let (t2, q2) = lex_steps(s, q1, n2, keep)->Some_0;
    if n1 == 0 {
        assert(t1 + t2 =~= t2);
    } else {
        match lex_next(s, p, keep) {
            Step::Tok(k, a, b) => {
                lemma_lex_steps_concat(s, b, (n1 - 1) as nat, n2, keep);
                let t = SToken { kind: k, span: span_of(s, a, b) };
                let (u1, r1) = lex_steps(s, b, (n1 - 1) as nat, keep)->Some_0;
                assert((n1 + n2 - 1) as nat == ((n1 - 1) as nat + n2) as nat);
                assert(seq![t] + (u1 + t2) =~= (seq![t] + u1) + t2);
            },
            Step::Fail(_) => {},
        }
    }
}

/// A space before a stretch of tokens changes nothing.
pub proof fn lemma_lex_steps_space(s: Seq<char>, p: int, n: nat, keep: bool)
    requires
        0 <= p < s.len(),
        is_space(s[p]),
        n >= 1,
        lex_steps(s, p + 1, n, keep) is Some,
    ensures
        lex_steps(s, p, n, keep) == lex_steps(s, p + 1, n, keep),
{
    reveal(lex_next);
    assert(skip_trivia(s, p, keep) == skip_trivia(s, p + 1, keep));
    assert(lex_next(s, p, keep) == lex_next(s, p + 1, keep));
}

/// One placed spelling, not joined by what follows, is one step of lexing.
pub proof fn lemma_lex_step_one(s: Seq<char>, q: int, k: SKind, keep: bool)
    requires
        placed(s, q, token_text(k)),
        relexes(k),
        !joins(k, char_at(s, q + token_text(k).len())),
    ensures
        lex_steps(s, q, 1, keep) matches Some((ts, e)) && e == q + token_text(k).len() && kinds(ts)
            == seq![k],
{
    reveal(lex_next);
    lemma_token_start(s, q, k, keep);
    lemma_token_at(s, q, k);
    let n = token_text(k).len() as int;
    let t = SToken { kind: k, span: span_of(s, q, q + n) };
    assert(lex_steps(s, q + n, 0, keep) == Some((Seq::<SToken>::empty(), q + n)));
    assert(seq![t] + Seq::<SToken>::empty() =~= seq![t]);
    assert(kinds(seq![t]) =~= seq![k]);
}

// ---------------------------------------------------------------------------
// Runs of characters
// ---------------------------------------------------------------------------

/// Whether the character `c` right after a token of kind `k` would be read
/// as part of it (or change it).
pub open spec fn joins(k: SKind, c: char) -> bool {
    match k {
        SKind::Ident(_) | SKind::Kw(_) => is_ident_char(c),
        SKind::Number(_) => is_ident_char(c) || c == '.',
        SKind::Dot => is_digit(c),
        SKind::Question => c == '.' || c == '?',
        SKind::Minus | SKind::Eq => c == '>' || c == '=',
        SKind::Slash => c == '=' || c == '/' || c == '*',
        SKind::QuestionQuestion | SKind::Bang | SKind::Lt | SKind::Gt | SKind::Plus | SKind::Star
        | SKind::Percent | SKind::Tilde | SKind::Caret | SKind::AmpAmp | SKind::PipePipe => c
            == '=',
        SKind::DocComment(_) | SKind::Eof => true,
        _ => false,
    }
}

/// `t` sits in `s` at `q`.
pub open spec fn placed(s: Seq<char>, q: int, t: Seq<char>) -> bool {
    &&& 0 <= q
    &&& q + t.len() <= s.len()
    &&& s.subrange(q, q + t.len() as int) == t
}

pub proof fn lemma_placed_char(s: Seq<char>, q: int, t: Seq<char>, i: int)
    requires
        placed(s, q, t),
        0 <= i <= t.len(),
    ensures
        i < t.len() ==> char_at(s, q + i) == t[i],
{
    if i < t.len() {
        assert(s.subrange(q, q + t.len() as int)[i] == s[q + i]);
    }
}

/// An identifier run placed in `s` ends where the text does.
proof fn lemma_ident_run(s: Seq<char>, q: int, t: Seq<char>, a: int)
    requires
        placed(s, q, t),
        0 <= a <= t.len(),
        ident_chars_from(t, a),
        !is_ident_char(char_at(s, q + t.len())),
    ensures
        ident_end(s, q + a) == q + t.len(),
    decreases t.len() - a,
{
    lemma_placed_char(s, q, t, a);
    if a < t.len() {
        lemma_ident_run(s, q, t, a + 1);
    }
}

/// Digit runs in a placed text end where they end in the text.
proof fn lemma_digit_run(s: Seq<char>, q: int, t: Seq<char>, a: int)
    requires
        placed(s, q, t),
        0 <= a <= t.len(),
        !is_digit(char_at(s, q + t.len())),
    ensures
        digits_end(s, q + a) == q + digits_end(t, a),
        a <= digits_end(t, a) <= t.len(),
    decreases t.len() - a,
{
    lemma_placed_char(s, q, t, a);
    if a < t.len() && is_digit(t[a]) {
        lemma_digit_run(s, q, t, a + 1);
    }
}

/// No spelling starts with a space or a comment opener.
proof fn lemma_token_start(s: Seq<char>, q: int, k: SKind, keep: bool)
    requires
        placed(s, q, token_text(k)),
        relexes(k),
        !joins(k, char_at(s, q + token_text(k).len())),
    ensures
        token_text(k).len() > 0,
        skip_trivia(s, q, keep) == Trivia::Skipped(q),
{
    let t = token_text(k);
    match k {
        SKind::Ident(x) => {},
        SKind::Number(x) => {
            assert(is_digit(x[0]));
        },
        SKind::Str(x) => {
            assert(quoted(x)[0] == '"');
        },
        SKind::Kw(w) => {
            lemma_keyword_letters(w);
            assert(is_alpha(t[0]));
        },
        _ => {},
    }
    assert(t.len() > 0);
    lemma_placed_char(s, q, t, 0);
    lemma_placed_char(s, q, t, 1);
    assert(!is_space(t[0]));
    if t[0] == '/' {
        assert(char_at(s, q + 1) != '/' && char_at(s, q + 1) != '*');
    }
}


/// A placed decimal literal lexes as that number.
proof fn lemma_number_at(s: Seq<char>, q: int, t: Seq<char>)
    requires
        placed(s, q, t),
        is_decimal_literal(t),
        !joins(SKind::Number(t), char_at(s, q + t.len())),
    ensures
        lex_number(s, q) == Step::Tok(SKind::Number(t), q, q + t.len()),
{
    let n = t.len() as int;
    let i = digits_end(t, 0);
    lemma_digit_run(s, q, t, 0);
    lemma_placed_char(s, q, t, i);
    let j = if char_at(t, i) == '.' {
        digits_end(t, i + 1)
    } else {
        i
    };
    if char_at(t, i) == '.' {
        lemma_digit_run(s, q, t, i + 1);
        lemma_placed_char(s, q, t, i + 1);
        assert(is_digit(t[i + 1]));
    }
    lemma_placed_char(s, q, t, j);
    if char_at(t, j) == 'e' || char_at(t, j) == 'E' {
        let k = if char_at(t, j + 1) == '+' || char_at(t, j + 1) == '-' {
            j + 2
        } else {
            j + 1
        };
        if j + 1 == n {
            assert(digits_end(t, j + 1) == j + 1);
        }
        lemma_placed_char(s, q, t, j + 1);
        if k == j + 2 && k == n {
            assert(digits_end(t, k) == k);
        }
        lemma_digit_run(s, q, t, k);
        lemma_placed_char(s, q, t, k);
        assert(is_digit(t[k]));
    }
    lemma_placed_char(s, q, t, n);
    assert(s.subrange(q, q + n) == t);
}

/// A placed spelling lexes as its token.
proof fn lemma_token_at(s: Seq<char>, q: int, k: SKind)
    requires
        placed(s, q, token_text(k)),
        relexes(k),
        !joins(k, char_at(s, q + token_text(k).len())),
    ensures
        token_text(k).len() > 0,
        lex_at(s, q) == Step::Tok(k, q, q + token_text(k).len()),
{
    let t = token_text(k);
    let n = t.len() as int;
    lemma_token_start(s, q, k, false);
    lemma_placed_char(s, q, t, 0);
    lemma_placed_char(s, q, t, 1);
    match k {
        SKind::Ident(x) => {
            if x[0] == '@' {
                lemma_ident_run(s, q, t, 1);
            } else {
                assert(ident_chars_from(t, 0));
                lemma_ident_run(s, q, t, 0);
            }
            assert(s.subrange(q, q + n) == x);
        },
        SKind::Number(x) => {
            assert(is_digit(x[0]));
            lemma_number_at(s, q, x);
        },
        SKind::Str(x) => {
            let m = escaped(x).len() as int;
            assert(n == m + 2);
            lemma_placed_char(s, q, t, m + 1);
            assert(s.subrange(q + 1, q + 1 + m) =~= escaped(x)) by {
                assert forall|i: int| 0 <= i < m implies s.subrange(q + 1, q + 1 + m)[i]
                    == escaped(x)[i] by {
                    lemma_placed_char(s, q, t, i + 1);
                }
            }
            lemma_string_body_reads_escaped(s, q, q + 1, x, Seq::empty());
            assert(Seq::<char>::empty() + x =~= x);
        },
        SKind::Kw(w) => {
            lemma_keyword_letters(w);
            assert(ident_chars_from(t, 0));
            lemma_ident_run(s, q, t, 0);
            lemma_keyword_round_trip(w);
            assert(s.subrange(q, q + n) == t);
        },
        SKind::Sparkle => {},
        _ => {
            if n >= 2 {
                lemma_placed_char(s, q, t, 2);
            }
            if n >= 3 {
                lemma_placed_char(s, q, t, 3);
            }
        },
    }
}


// ---------------------------------------------------------------------------
// Token sequences
// ---------------------------------------------------------------------------

/// From `p` on, `s` holds `ks` spaced (after one more space when `lead`):
/// lexing from `p` gives the kinds of `ks`, then `Eof`.
proof fn lemma_relex_from(s: Seq<char>, p: int, ks: Seq<SKind>, lead: bool, keep: bool)
    requires
        0 <= p <= s.len(),
        s.subrange(p, s.len() as int) == (if lead {
            seq![' ']
        } else {
            Seq::empty()
        }) + spaced(ks),
        forall|i: int| 0 <= i < ks.len() ==> relexes(#[trigger] ks[i]),
    ensures
        lex_from(s, p, keep) matches Ok(ts) && kinds(ts) == ks.push(SKind::Eof),
    decreases ks.len(),
{
    reveal(lex_next);
    let q = if lead {
        p + 1
    } else {
        p
    };
    if lead {
        assert((seq![' '] + spaced(ks)).len() >= 1);
        assert(s.subrange(p, s.len() as int)[0] == s[p]);
        assert(skip_trivia(s, p, keep) == skip_trivia(s, q, keep));
    }
    assert(s.subrange(q, s.len() as int) =~= spaced(ks)) by {
        if lead {
            assert forall|i: int| 0 <= i < s.len() - q implies s.subrange(q, s.len() as int)[i]
                == spaced(ks)[i] by {
                assert(s.subrange(p, s.len() as int)[i + 1] == s[q + i]);
            }
        }
    }
    if ks.len() == 0 {
        assert(q == s.len());
        let t = SToken { kind: SKind::Eof, span: span_of(s, q, q) };
        assert(lex_from(s, p, keep) == Ok::<Seq<SToken>, SParseError>(seq![t]));
        assert(kinds(seq![t]) =~= ks.push(SKind::Eof));
    } else {
        let k = ks[0];
        let rest = ks.drop_first();
        let w = token_text(k);
        let n = w.len() as int;
        assert(relexes(ks[0]));
        assert(spaced(ks) == w + seq![' '] + spaced(rest));
        assert(placed(s, q, w)) by {
            assert(s.subrange(q, q + n) =~= w) by {
                assert forall|i: int| 0 <= i < n implies s.subrange(q, q + n)[i] == w[i] by {
                    assert(s.subrange(q, s.len() as int)[i] == s[q + i]);
                    assert(spaced(ks)[i] == w[i]);
                }
            }
        }
        assert(s.subrange(q, s.len() as int)[n] == s[q + n]);
        assert(spaced(ks)[n] == ' ');
        assert(char_at(s, q + n) == ' ');
        lemma_token_start(s, q, k, keep);
        lemma_token_at(s, q, k);
        assert(s.subrange(q + n, s.len() as int) =~= seq![' '] + spaced(rest)) by {
            assert forall|i: int| 0 <= i < s.len() - (q + n) implies s.subrange(
                q + n,
                s.len() as int,
            )[i] == (seq![' '] + spaced(rest))[i] by {
                assert(s.subrange(q, s.len() as int)[n + i] == s[q + n + i]);
                assert(spaced(ks)[n + i] == (seq![' '] + spaced(rest))[i]);
            }
        }
        assert forall|i: int| 0 <= i < rest.len() implies relexes(#[trigger] rest[i]) by {
            assert(rest[i] == ks[i + 1]);
        }
        lemma_relex_from(s, q + n, rest, true, keep);
        let tok = SToken { kind: k, span: span_of(s, q, q + n) };
        let tail = lex_from(s, q + n, keep)->Ok_0;
        assert(lex_from(s, p, keep) == Ok::<Seq<SToken>, SParseError>(seq![tok] + tail));
        assert(kinds(seq![tok] + tail) =~= ks.push(SKind::Eof)) by {
            let all = seq![tok] + tail;
            assert(kinds(tail).len() == tail.len());
            assert(tail.len() == rest.len() + 1);
            assert(kinds(all).len() == ks.len() + 1);
            assert forall|i: int| 0 <= i < ks.len() + 1 implies kinds(all)[i] == ks.push(
                SKind::Eof,
            )[i] by {
                assert(kinds(all)[i] == all[i].kind);
                if i > 0 {
                    assert(all[i] == tail[i - 1]);
                    assert(kinds(tail)[i - 1] == tail[i - 1].kind);
                    assert(kinds(tail)[i - 1] == rest.push(SKind::Eof)[i - 1]);
                    if i < ks.len() {
                        assert(rest[i - 1] == ks[i]);
                    }
                } else {
                    assert(all[0] == tok);
                }
            }
        }
    }
}

/// The spellings of any sequence of tokens that read back (everything but
/// doc comments and end of file, with identifiers and numbers in their usual
/// forms), each followed by a space, lex to exactly those token kinds and
/// then `Eof`, whether or not doc comments are kept.
pub proof fn lemma_spaced_tokens_relex(ks: Seq<SKind>, keep: bool)
    requires
        forall|i: int| 0 <= i < ks.len() ==> relexes(#[trigger] ks[i]),
    ensures
        lex_from(spaced(ks), 0, keep) matches Ok(ts) && kinds(ts) == ks.push(SKind::Eof),
{
    let s = spaced(ks);
    assert(s.subrange(0, s.len() as int) =~= Seq::<char>::empty() + s);
    lemma_relex_from(s, 0, ks, false, keep);
}

/// Keywords are spelled with letters only.
proof fn lemma_keyword_letters(k: Keyword)
    ensures
        keyword_text(k).len() > 0,
        forall|i: int| 0 <= i < keyword_text(k).len() ==> is_alpha(#[trigger] keyword_text(k)[i]),
{
    match k {
        Keyword::FeatureScript => reveal_strlit("FeatureScript"),
        Keyword::Import => reveal_strlit("import"),
        Keyword::Export => reveal_strlit("export"),
        Keyword::Function => reveal_strlit("function"),
        Keyword::Predicate => reveal_strlit("predicate"),
        Keyword::Precondition => reveal_strlit("precondition"),
        Keyword::Returns => reveal_strlit("returns"),
        Keyword::Type => reveal_strlit("type"),
        Keyword::Typecheck => reveal_strlit("typecheck"),
        Keyword::Enum => reveal_strlit("enum"),
        Keyword::Const => reveal_strlit("const"),
        Keyword::Var => reveal_strlit("var"),
        Keyword::If => reveal_strlit("if"),
        Keyword::Else => reveal_strlit("else"),
        Keyword::For => reveal_strlit("for"),
        Keyword::While => reveal_strlit("while"),
        Keyword::In => reveal_strlit("in"),
        Keyword::Is => reveal_strlit("is"),
        Keyword::As => reveal_strlit("as"),
        Keyword::Return => reveal_strlit("return"),
        Keyword::Break => reveal_strlit("break"),
        Keyword::Continue => reveal_strlit("continue"),
        Keyword::Throw => reveal_strlit("throw"),
        Keyword::Try => reveal_strlit("try"),
        Keyword::Silent => reveal_strlit("silent"),
        Keyword::Catch => reveal_strlit("catch"),
        Keyword::Switch => reveal_strlit("switch"),
        Keyword::New => reveal_strlit("new"),
        Keyword::Annotation => reveal_strlit("annotation"),
        Keyword::Operator => reveal_strlit("operator"),
        Keyword::True => reveal_strlit("true"),
        Keyword::False => reveal_strlit("false"),
        Keyword::Undefined => reveal_strlit("undefined"),
    }
}

} // verus!
