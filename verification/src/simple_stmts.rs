//! Statements without operands, printed and read back: `break;`,
//! `continue;`, `return;` and the empty statement print as text that the
//! lexer reads as their tokens, and the parser reads those tokens back as
//! the same statement.

use crate::ast::SStmtKind;
use crate::error::SParseError;
use crate::lexer::{lex_from, lex_next, span_of};
use crate::parser::{advance, p_expect, p_return_stmt, p_stmt_kind, PState};
use crate::print::pr_stmt_kind;
use crate::relex::{
    kinds, lemma_lex_step_one, lemma_lex_steps_concat, lemma_lex_steps_from, lex_steps, token_text,
};
use crate::span::Span;
use crate::text::char_at;
use crate::token::{keyword_text, Keyword, SKind, SToken};
use vstd::prelude::*;

verus! {

/// At the end of the input the lexer reads just `Eof`.
proof fn lemma_lex_at_end(s: Seq<char>, keep: bool)
    ensures
        lex_from(s, s.len() as int, keep) == Ok::<Seq<SToken>, SParseError>(
            seq![SToken { kind: SKind::Eof, span: span_of(s, s.len() as int, s.len() as int) }],
        ),
{
    reveal(lex_next);
}

/// The tokens the lexer reads from a keyword's spelling followed by `;`.
#[verifier::spinoff_prover]
#[verifier::rlimit(40)]
proof fn lemma_lex_keyword_semi(kw: Keyword, keep: bool)
    ensures
        lex_from(keyword_text(kw) + seq![';'], 0, keep) matches Ok(ts) && ts.len() == 3
            && ts[0].kind == SKind::Kw(kw) && ts[1].kind == SKind::Semi && ts[2].kind is Eof,
{
    let s = keyword_text(kw) + seq![';'];
    let n = keyword_text(kw).len() as int;
    assert(s.subrange(0, n) =~= keyword_text(kw));
    assert(s.subrange(n, n + 1) =~= token_text(SKind::Semi));
    assert(char_at(s, n) == ';');
    lemma_lex_step_one(s, 0, SKind::Kw(kw), keep);
    lemma_lex_step_one(s, n, SKind::Semi, keep);
    lemma_lex_steps_concat(s, 0, 1, 1, keep);
    lemma_lex_steps_from(s, 0, 2, keep);
    let (t1, q1) = lex_steps(s, 0, 1, keep)->Some_0;
    let (t2, q2) = lex_steps(s, q1, 1, keep)->Some_0;
    assert(t1.len() == kinds(t1).len());
    assert(t2.len() == kinds(t2).len());
    assert(t1[0].kind == kinds(t1)[0]);
    assert(t2[0].kind == kinds(t2)[0]);
    assert(q2 == s.len());
    lemma_lex_at_end(s, keep);
    let e = SToken { kind: SKind::Eof, span: span_of(s, s.len() as int, s.len() as int) };
    let ts = (t1 + t2) + seq![e];
    assert(ts[0] == t1[0]);
    assert(ts[1] == t2[0]);
}

/// The tokens the lexer reads from `;`.
proof fn lemma_lex_semi(keep: bool)
    ensures
        lex_from(seq![';'], 0, keep) matches Ok(ts) && ts.len() == 2 && ts[0].kind == SKind::Semi
            && ts[1].kind is Eof,
{
    let s = seq![';'];
    assert(s.subrange(0, 1) =~= token_text(SKind::Semi));
    lemma_lex_step_one(s, 0, SKind::Semi, keep);
    lemma_lex_steps_from(s, 0, 1, keep);
    let (t1, q1) = lex_steps(s, 0, 1, keep)->Some_0;
    assert(t1.len() == kinds(t1).len());
    assert(t1[0].kind == kinds(t1)[0]);
    lemma_lex_at_end(s, keep);
    let e = SToken { kind: SKind::Eof, span: span_of(s, 1, 1) };
    assert((t1 + seq![e])[0] == t1[0]);
}

/// A statement without operands (`break;`, `continue;`, `return;` or the
/// empty statement `;`) prints as text that the lexer reads as its tokens,
/// and parsing those tokens gives the same statement back.
pub proof fn lemma_simple_statements_round_trip(
    k: SStmtKind,
    o: Seq<char>,
    ind: usize,
    keep: bool,
    start: Span,
)
    requires
        k is Break || k is Continue || k == SStmtKind::Return(None) || k is Empty,
    ensures
        pr_stmt_kind(o, k, ind).subrange(0, o.len() as int) == o,
        lex_from(pr_stmt_kind(o, k, ind).subrange(o.len() as int, pr_stmt_kind(o, k, ind).len() as int), 0, keep) matches Ok(ts)
            && p_stmt_kind(ts, PState { pos: 0, doc: None }, start) matches (Ok(k2), _) && k2 == k,
{
    reveal(advance);
    reveal(p_expect);
    reveal_strlit("break;");
    reveal_strlit("continue;");
    reveal_strlit("return;");
    reveal_strlit(";");
    reveal_strlit("break");
    reveal_strlit("continue");
    reveal_strlit("return");
    let p = pr_stmt_kind(o, k, ind);
    let t = p.subrange(o.len() as int, p.len() as int);
    let st = PState { pos: 0, doc: None };
    if k is Empty {
        assert(p == o + ";"@);
        assert(t =~= seq![';']);
        assert(p.subrange(0, o.len() as int) =~= o);
        lemma_lex_semi(keep);
    } else {
        let kw = if k is Break {
            Keyword::Break
        } else if k is Continue {
            Keyword::Continue
        } else {
            Keyword::Return
        };
        assert(t =~= keyword_text(kw) + seq![';']);
        assert(p.subrange(0, o.len() as int) =~= o);
        lemma_lex_keyword_semi(kw, keep);
        let ts = lex_from(t, 0, keep)->Ok_0;
        let s1 = advance(ts, st);
        assert(s1 == PState { pos: 1, doc: None });
        if k == SStmtKind::Return(None) {
            assert(p_stmt_kind(ts, st, start) == p_return_stmt(ts, st));
        }
    }
}

} // verus!
