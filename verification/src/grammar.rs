//! Laws of the expression grammar: how keywords are read where a name or an
//! expression is expected, how the parser ranks the binary operators against
//! the printer, how it groups them and reads them from their spellings, and
//! which token each kind of statement starts with. How statements without
//! operands print and read back is in `simple_stmts`.

use crate::ast::{assign_symbol, binary_symbol, BinaryOp, SExpr, SExprKind, SIdent, SStmtKind};
use crate::span::Span;
use crate::error::SParseError;
use crate::parser::{
    advance, assign_op_of, binary_op_of, eat, error_at, ident_text, in_range, mk, p_expect_ident,
    p_binary, p_binary_loop, p_ident_or_lambda, p_primary, p_type_ref, p_unary, peek, peek_nth,
    span_at, stalled, BinOrType, PState, at_kw, p_expr, p_expr_stmt, p_for_c, p_for_in, p_for_stmt,
    p_if_stmt, p_stmt_kind, p_try_stmt, p_while_stmt, p_expect, p_return_stmt, p_throw_stmt,
};
use crate::print::binary_prec;
use crate::relex::token_text;
use crate::token::{keyword_is_soft, keyword_text, Keyword, SKind, SToken};
use vstd::prelude::*;

verus! {

/// Where the grammar asks for a name, a soft keyword is read as the
/// identifier it spells, and any other keyword is refused.
pub proof fn lemma_soft_keywords_are_names(ts: Seq<SToken>, st: PState, k: Keyword)
    requires
        in_range(ts, st),
        peek(ts, st) == SKind::Kw(k),
    ensures
        keyword_is_soft(k) ==> p_expect_ident(ts, st) == (
            Ok::<SIdent, SParseError>(SIdent { name: keyword_text(k), span: span_at(ts, st) }),
            advance(ts, st),
        ),
        !keyword_is_soft(k) ==> p_expect_ident(ts, st).0 is Err,
{
    reveal(p_expect_ident);
    reveal(error_at);
}

/// Where an expression starts, a soft keyword is the identifier it spells,
/// unless `=>` follows it (a one-parameter lambda), `switch` is followed by
/// `(` or `new` by a name; a hard keyword that starts no expression (every
/// one but `true`, `false`, `undefined`, `function` and `try`) is refused.
pub proof fn lemma_soft_keyword_expressions(ts: Seq<SToken>, st: PState, k: Keyword)
    requires
        in_range(ts, st),
        peek(ts, st) == SKind::Kw(k),
    ensures
        keyword_is_soft(k) && !(k == Keyword::Switch && peek_nth(ts, st, 1) is LParen) && !(k
            == Keyword::New && ident_text(peek_nth(ts, st, 1)) is Some) && !(peek(
            ts,
            advance(ts, st),
        ) is FatArrow) ==> p_primary(ts, st) == (
            Ok::<SExpr, SParseError>(
                mk(
                    ts,
                    span_at(ts, st),
                    advance(ts, st),
                    SExprKind::Ident(keyword_text(k)),
                ),
            ),
            advance(ts, st),
        ),
        !keyword_is_soft(k) && k != Keyword::True && k != Keyword::False && k
            != Keyword::Undefined && k != Keyword::Function && k != Keyword::Try ==> p_primary(
            ts,
            st,
        ).0 is Err,
{
    reveal(p_expect_ident);
    reveal(error_at);
    reveal(eat);
    let r = p_ident_or_lambda(ts, st);
    if keyword_is_soft(k) && !(peek(ts, advance(ts, st)) is FatArrow) {
        assert(r == (
            Ok::<SExpr, SParseError>(
                mk(
                    ts,
                    span_at(ts, st),
                    advance(ts, st),
                    SExprKind::Ident(keyword_text(k)),
                ),
            ),
            advance(ts, st),
        ));
    }
    if !keyword_is_soft(k) {
        assert(r.0 is Err);
    }
}

/// The parser's level for each binary operator is the printer's precedence
/// for it less two, so the two rank the operators alike.
pub proof fn lemma_binary_levels_match_printer(k: SKind)
    ensures
        binary_op_of(k) matches Some((level, BinOrType::Bin(op))) ==> binary_prec(op) == level
            + 2,
{
}

/// The loop of a binary expression at level `m` stops where no binary
/// operator follows, or before one that binds looser than `m`.
pub proof fn lemma_binary_loop_stops_below(
    ts: Seq<SToken>,
    st: PState,
    start: Span,
    lhs: SExpr,
    m: u8,
)
    ensures
        p_binary_loop(ts, st, start, lhs, m) matches (Ok(_), s2) ==> (binary_op_of(
            peek(ts, s2),
        ) matches Some((l, _)) ==> l < m),
    decreases ts.len() - st.pos,
{
    if in_range(ts, st) {
        match binary_op_of(peek(ts, st)) {
            None => {},
            Some((level, op)) => if level >= m {
                let s1 = advance(ts, st);
                if !stalled(ts, st, s1) {
                    match op {
                        BinOrType::Is | BinOrType::As => match p_type_ref(ts, s1) {
                            (Err(_), _) => {},
                            (Ok(ty), s2) => if !stalled(ts, st, s2) {
                                let node = if op == BinOrType::Is {
                                    SExprKind::Is { expr: Box::new(lhs), ty }
                                } else {
                                    SExprKind::As { expr: Box::new(lhs), ty }
                                };
                                lemma_binary_loop_stops_below(ts, s2, start, mk(ts, start, s2, node), m);
                            },
                        },
                        BinOrType::Bin(bop) => {
                            let next_min: u8 = if bop == BinaryOp::Pow {
                                level
                            } else {
                                (level + 1) as u8
                            };
                            match p_binary(ts, s1, next_min) {
                                (Err(_), _) => {},
                                (Ok(rhs), s2) => if !stalled(ts, st, s2) {
                                    lemma_binary_loop_stops_below(
                                        ts,
                                        s2,
                                        start,
                                        mk(
                                            ts,
                                            start,
                                            s2,
                                            SExprKind::Binary {
                                                op: bop,
                                                lhs: Box::new(lhs),
                                                rhs: Box::new(rhs),
                                            },
                                        ),
                                        m,
                                    );
                                },
                            }
                        },
                    }
                }
            },
        }
    }
}

/// A binary expression parsed at level `m` ends where no binary operator
/// follows, or before one that binds looser than `m`. The right side of an
/// operator of level `l` other than `^` is parsed at level `l + 1`, so it
/// ends before the next operator of level `l`, which the outer loop then
/// applies to the whole left side: such operators group to the left. The
/// right side of `^` is parsed at its own level, so `^` groups to the right.
pub proof fn lemma_binary_stops_below(ts: Seq<SToken>, st: PState, m: u8)
    ensures
        p_binary(ts, st, m) matches (Ok(_), s2) ==> (binary_op_of(peek(ts, s2)) matches Some(
            (l, _),
        ) ==> l < m),
{
    if in_range(ts, st) {
        match p_unary(ts, st) {
            (Err(_), _) => {},
            (Ok(lhs), s1) => {
                lemma_binary_loop_stops_below(ts, s1, span_at(ts, st), lhs, m);
            },
        }
    }
}

/// Each binary operator token is read as the operator it spells: the
/// operator's written symbol is the token's spelling, and only the keywords
/// `is` and `as` start type tests and casts.
pub proof fn lemma_binary_tokens_spell_their_operators(k: SKind)
    ensures
        binary_op_of(k) matches Some((_, BinOrType::Bin(op))) ==> token_text(k) == binary_symbol(
            op,
        ),
        binary_op_of(k) matches Some((_, BinOrType::Is)) ==> k == SKind::Kw(Keyword::Is),
        binary_op_of(k) matches Some((_, BinOrType::As)) ==> k == SKind::Kw(Keyword::As),
{
    reveal_strlit("+");
    reveal_strlit("-");
    reveal_strlit("*");
    reveal_strlit("/");
    reveal_strlit("%");
    reveal_strlit("^");
    reveal_strlit("~");
    reveal_strlit("==");
    reveal_strlit("!=");
    reveal_strlit("<");
    reveal_strlit("<=");
    reveal_strlit(">");
    reveal_strlit(">=");
    reveal_strlit("&&");
    reveal_strlit("||");
    reveal_strlit("??");
    match binary_op_of(k) {
        Some((_, BinOrType::Bin(op))) => {
            assert(token_text(k) =~= binary_symbol(op));
        },
        _ => {},
    }
}

/// Each assignment token is read as the assignment it spells: the
/// operator's written symbol is the token's spelling.
pub proof fn lemma_assign_tokens_spell_their_operators(k: SKind)
    ensures
        assign_op_of(k) matches Some(op) ==> token_text(k) == assign_symbol(op),
{
    reveal_strlit("=");
    reveal_strlit("+=");
    reveal_strlit("-=");
    reveal_strlit("*=");
    reveal_strlit("/=");
    reveal_strlit("%=");
    reveal_strlit("~=");
    reveal_strlit("^=");
    reveal_strlit("||=");
    reveal_strlit("&&=");
    reveal_strlit("??=");
    match assign_op_of(k) {
        Some(op) => {
            assert(token_text(k) =~= assign_symbol(op));
        },
        None => {},
    }
}

/// The token a statement of kind `k` starts with, where its kind fixes one
/// (an expression statement starts with its expression).
pub open spec fn stmt_lead(k: SStmtKind) -> Option<SKind> {
    match k {
        SStmtKind::Var(_) => Some(SKind::Kw(Keyword::Var)),
        SStmtKind::Const(_) => Some(SKind::Kw(Keyword::Const)),
        SStmtKind::Expr(_) => None,
        SStmtKind::Block(_) => Some(SKind::LBrace),
        SStmtKind::If { .. } => Some(SKind::Kw(Keyword::If)),
        SStmtKind::For { .. } => Some(SKind::Kw(Keyword::For)),
        SStmtKind::ForIn { .. } => Some(SKind::Kw(Keyword::For)),
        SStmtKind::While { .. } => Some(SKind::Kw(Keyword::While)),
        SStmtKind::Break => Some(SKind::Kw(Keyword::Break)),
        SStmtKind::Continue => Some(SKind::Kw(Keyword::Continue)),
        SStmtKind::Return(_) => Some(SKind::Kw(Keyword::Return)),
        SStmtKind::Throw(_) => Some(SKind::Kw(Keyword::Throw)),
        SStmtKind::Try { .. } => Some(SKind::Kw(Keyword::Try)),
        SStmtKind::Empty => Some(SKind::Semi),
    }
}

/// The tokens that start a statement of one kind only.
pub open spec fn leads_one_kind(t: SKind) -> bool {
    t == SKind::LBrace || t == SKind::Semi || t == SKind::Kw(Keyword::Var) || t == SKind::Kw(
        Keyword::Const,
    ) || t == SKind::Kw(Keyword::If) || t == SKind::Kw(Keyword::For) || t == SKind::Kw(
        Keyword::While,
    ) || t == SKind::Kw(Keyword::Break) || t == SKind::Kw(Keyword::Continue) || t == SKind::Kw(
        Keyword::Return,
    ) || t == SKind::Kw(Keyword::Throw)
}

#[verifier::spinoff_prover]
#[verifier::rlimit(30)]
proof fn lemma_if_kind(ts: Seq<SToken>, st: PState)
    ensures
        p_if_stmt(ts, st) matches (Ok(k), _) ==> k is If,
{
    reveal(eat);
}

proof fn lemma_while_kind(ts: Seq<SToken>, st: PState)
    ensures
        p_while_stmt(ts, st) matches (Ok(k), _) ==> k is While,
{
}

#[verifier::spinoff_prover]
#[verifier::rlimit(30)]
proof fn lemma_for_kind(ts: Seq<SToken>, st: PState)
    ensures
        p_for_stmt(ts, st) matches (Ok(k), _) ==> (k is For || k is ForIn),
{
    if in_range(ts, st) {
        let s1 = advance(ts, st);
        let s2 = p_expect(ts, s1, SKind::LParen).1;
        let declared = at_kw(ts, s2, Keyword::Var) || at_kw(ts, s2, Keyword::Const);
        lemma_for_in_kind(ts, s2, declared);
        lemma_for_c_kind(ts, s2, span_at(ts, s2));
    }
}

proof fn lemma_for_in_kind(ts: Seq<SToken>, st: PState, declared: bool)
    ensures
        p_for_in(ts, st, declared) matches (Ok(k), _) ==> k is ForIn,
{
}

proof fn lemma_for_c_kind(ts: Seq<SToken>, st: PState, init_start: Span)
    ensures
        p_for_c(ts, st, init_start) matches (Ok(k), _) ==> k is For,
{
}

proof fn lemma_try_kind(ts: Seq<SToken>, st: PState)
    ensures
        p_try_stmt(ts, st) matches (Ok(k), _) ==> k is Try,
{
}

proof fn lemma_expr_stmt_kind(ts: Seq<SToken>, st: PState)
    ensures
        p_expr_stmt(ts, st) matches (Ok(k), _) ==> k is Expr,
{
}

/// What a statement read from a token `t` can be: a statement whose kind
/// starts with a fixed token starts with `t`, and `t` fixes the kind when it
/// leads one kind only.
pub open spec fn kind_fits_lead(k: SStmtKind, t: SKind) -> bool {
    &&& stmt_lead(k) matches Some(l) ==> t == l
    &&& leads_one_kind(t) ==> stmt_lead(k) == Some(t)
}

/// What the parser reading a statement at `st` may give, as the law below
/// states it.
pub open spec fn stmt_read_fits(ts: Seq<SToken>, st: PState, start: Span) -> bool {
    p_stmt_kind(ts, st, start) matches (Ok(k), _) ==> {
        &&& kind_fits_lead(k, peek(ts, st))
        &&& k matches SStmtKind::Throw(v) ==> p_expr(ts, advance(ts, st)).0 == Ok::<
            SExpr,
            SParseError,
        >(v)
        &&& k matches SStmtKind::Return(Some(v)) ==> p_expr(ts, advance(ts, st)).0 == Ok::<
            SExpr,
            SParseError,
        >(v)
    }
}

#[verifier::spinoff_prover]
#[verifier::rlimit(30)]
proof fn lemma_stmt_at_if(ts: Seq<SToken>, st: PState, start: Span)
    requires
        in_range(ts, st),
        peek(ts, st) == SKind::Kw(Keyword::If),
    ensures
        stmt_read_fits(ts, st, start),
{
    lemma_if_kind(ts, st);
    assert(p_stmt_kind(ts, st, start) == p_if_stmt(ts, st));
}

#[verifier::spinoff_prover]
#[verifier::rlimit(30)]
proof fn lemma_stmt_at_while(ts: Seq<SToken>, st: PState, start: Span)
    requires
        in_range(ts, st),
        peek(ts, st) == SKind::Kw(Keyword::While),
    ensures
        stmt_read_fits(ts, st, start),
{
    lemma_while_kind(ts, st);
    assert(p_stmt_kind(ts, st, start) == p_while_stmt(ts, st));
}

#[verifier::spinoff_prover]
#[verifier::rlimit(30)]
proof fn lemma_stmt_at_for(ts: Seq<SToken>, st: PState, start: Span)
    requires
        in_range(ts, st),
        peek(ts, st) == SKind::Kw(Keyword::For),
    ensures
        stmt_read_fits(ts, st, start),
{
    lemma_for_kind(ts, st);
    assert(p_stmt_kind(ts, st, start) == p_for_stmt(ts, st));
}

#[verifier::spinoff_prover]
#[verifier::rlimit(30)]
proof fn lemma_stmt_at_return(ts: Seq<SToken>, st: PState, start: Span)
    requires
        in_range(ts, st),
        peek(ts, st) == SKind::Kw(Keyword::Return),
    ensures
        stmt_read_fits(ts, st, start),
{
    lemma_return_kind(ts, st);
    assert(p_stmt_kind(ts, st, start) == p_return_stmt(ts, st));
}

#[verifier::spinoff_prover]
#[verifier::rlimit(30)]
proof fn lemma_stmt_at_throw(ts: Seq<SToken>, st: PState, start: Span)
    requires
        in_range(ts, st),
        peek(ts, st) == SKind::Kw(Keyword::Throw),
    ensures
        stmt_read_fits(ts, st, start),
{
    lemma_throw_kind(ts, st);
    assert(p_stmt_kind(ts, st, start) == p_throw_stmt(ts, st));
}

#[verifier::spinoff_prover]
#[verifier::rlimit(30)]
proof fn lemma_stmt_at_other(ts: Seq<SToken>, st: PState, start: Span)
    requires
        in_range(ts, st),
        !leads_one_kind(peek(ts, st)),
        peek(ts, st) != SKind::Kw(Keyword::Try),
    ensures
        stmt_read_fits(ts, st, start),
{
    lemma_expr_stmt_kind(ts, st);
    assert(p_stmt_kind(ts, st, start) == p_expr_stmt(ts, st));
}

#[verifier::spinoff_prover]
#[verifier::rlimit(30)]
proof fn lemma_stmt_at_try(ts: Seq<SToken>, st: PState, start: Span)
    requires
        in_range(ts, st),
        peek(ts, st) == SKind::Kw(Keyword::Try),
    ensures
        stmt_read_fits(ts, st, start),
{
    lemma_try_kind(ts, st);
    lemma_expr_stmt_kind(ts, st);
    assert(p_stmt_kind(ts, st, start) == p_try_stmt(ts, st) || p_stmt_kind(ts, st, start)
        == p_expr_stmt(ts, st));
}

#[verifier::spinoff_prover]
#[verifier::rlimit(30)]
proof fn lemma_stmt_at_simple(ts: Seq<SToken>, st: PState, start: Span)
    requires
        in_range(ts, st),
        peek(ts, st) == SKind::LBrace || peek(ts, st) == SKind::Semi || peek(ts, st) == SKind::Kw(
            Keyword::Var,
        ) || peek(ts, st) == SKind::Kw(Keyword::Const) || peek(ts, st) == SKind::Kw(Keyword::Break)
            || peek(ts, st) == SKind::Kw(Keyword::Continue),
    ensures
        stmt_read_fits(ts, st, start),
{
    reveal(p_expect);
}

/// A statement's first token decides its kind: every statement the parser
/// reads starts with the token its kind starts with, and a statement that
/// starts with a token leading one kind only is of that kind. A `return` or
/// `throw` statement holds the expression that follows the keyword.
#[verifier::spinoff_prover]
#[verifier::rlimit(30)]
pub proof fn lemma_statement_kind_follows_first_token(ts: Seq<SToken>, st: PState, start: Span)
    ensures
        stmt_read_fits(ts, st, start),
{
    if !in_range(ts, st) {
        assert(p_stmt_kind(ts, st, start).0 is Err);
    } else {
        let t = peek(ts, st);
        if t == SKind::Kw(Keyword::If) {
            lemma_stmt_at_if(ts, st, start);
        } else if t == SKind::Kw(Keyword::While) {
            lemma_stmt_at_while(ts, st, start);
        } else if t == SKind::Kw(Keyword::For) {
            lemma_stmt_at_for(ts, st, start);
        } else if t == SKind::Kw(Keyword::Return) {
            lemma_stmt_at_return(ts, st, start);
        } else if t == SKind::Kw(Keyword::Throw) {
            lemma_stmt_at_throw(ts, st, start);
        } else if t == SKind::Kw(Keyword::Try) {
            lemma_stmt_at_try(ts, st, start);
        } else if leads_one_kind(t) {
            lemma_stmt_at_simple(ts, st, start);
        } else {
            lemma_stmt_at_other(ts, st, start);
        }
    }
}

proof fn lemma_return_kind(ts: Seq<SToken>, st: PState)
    ensures
        p_return_stmt(ts, st) matches (Ok(k), _) ==> k is Return && (k matches SStmtKind::Return(
            Some(v),
        ) ==> p_expr(ts, advance(ts, st)).0 == Ok::<SExpr, SParseError>(v)),
{
}

proof fn lemma_throw_kind(ts: Seq<SToken>, st: PState)
    ensures
        p_throw_stmt(ts, st) matches (Ok(k), _) ==> k matches SStmtKind::Throw(v) && p_expr(
            ts,
            advance(ts, st),
        ).0 == Ok::<SExpr, SParseError>(v),
{
}

} // verus!
