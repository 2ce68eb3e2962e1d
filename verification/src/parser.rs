//! Recursive-descent parser for FeatureScript, with a precedence-climbing
//! expression parser.
//!
//! Operator precedence, loosest to tightest:
//!
//! | level | operators                              | assoc |
//! |-------|----------------------------------------|-------|
//! | 1     | `=` `+=` `-=` `*=` `/=` `%=` `~=` `^=` | right |
//! | 2     | `?:`                                   | right |
//! | 3     | `||` `??`                              | left  |
//! | 4     | `&&`                                   | left  |
//! | 5     | `==` `!=`                              | left  |
//! | 6     | `<` `<=` `>` `>=`                      | left  |
//! | 7     | `~`                                    | left  |
//! | 8     | `+` `-`                                | left  |
//! | 9     | `*` `/` `%`                            | left  |
//! | 10    | `^`                                    | right |
//! | 11    | `is` `as`                              | left  |
//! | 12    | unary `-` `!`                          |       |
//! | 13    | `.` `?.` `[]` `()` `->`                | left  |
//!
//! Onshape publishes no precedence table, so the placement of `is`/`as` and
//! `~` is inferred from code that the standard library compiles:
//! `parameter as Vector * meter` (splineUtils.fs) only makes sense as
//! `(parameter as Vector) * meter`, so `is`/`as` bind tighter than arithmetic.
//!
//! The grammar is written down twice: once as spec functions over token
//! views (`p_module`, `p_expr`, ...), each returning its result and the
//! state after it, and once as the executable parser, whose every method is
//! proved to compute exactly what its spec function says.

use crate::ast::{
    block_view, entries_view, expr_kind_view, expr_view, exprs_view, ident_view,
    lemma_entries_view_push, lemma_exprs_view_push, lemma_items_view_push,
    lemma_members_view_push, lemma_named_args_view_push, lemma_params_view_push,
    lemma_stmts_view_push, members_view, named_args_view, params_view, stmts_view, items_view,
    Annotation, AssignOp, BinaryOp, Block, CatchClause, EnumDecl, EnumMember, Expr, ExprKind,
    ForInit, FunctionDecl, FunctionSig, Ident, Import, Item, ItemKind, LambdaBody, MapEntry,
    Module, NamedArg, OperatorDecl, Param, PredicateDecl, SAnnotation, SBlock, SCatchClause,
    SEnumDecl, SEnumMember, SExpr, SExprKind, SForInit, SFunctionDecl, SFunctionSig, SIdent,
    SImport, SItem, SItemKind, SLambdaBody, SMapEntry, SModule, SNamedArg, SOperatorDecl, SParam,
    SPredicateDecl, SStmt, SStmtKind, STypeDecl, STypeRef, SVarDecl, Stmt, StmtKind, TypeDecl,
    TypeRef, UnaryOp, VarDecl, Version, VersionHeader,
};
use crate::error::{result_view, ParseError, ParseResult, SParseError};
use crate::lexer::{lex_from, tokens_result, Lexer};
use crate::number::{float_syntax, is_float_text, version_number, version_value};
use crate::span::Span;
use crate::text::push_string;
use crate::token::{
    describe, keyword_is_soft, keyword_text, tokens_view, Keyword, SKind, SToken, Token,
    TokenKind,
};
use vstd::prelude::*;

verus! {

// ---------------------------------------------------------------------------
// The grammar, as spec functions over token views
// ---------------------------------------------------------------------------

/// Where the parser stands: the index of the next token and the doc comment
/// seen since the last real token was consumed.
pub struct PState {
    pub pos: int,
    pub doc: Option<Seq<char>>,
}

/// A parsing step: its result and the state after it.
pub type PRes<T> = (Result<T, SParseError>, PState);

/// A token sequence the parser can work on: non-empty and ending with `Eof`.
pub open spec fn tokens_wf(ts: Seq<SToken>) -> bool {
    ts.len() >= 1 && ts.last().kind is Eof
}

/// Whether `i` is the index of the first `Eof` in `ts`.
pub open spec fn is_first_eof(ts: Seq<SToken>, i: int) -> bool {
    &&& 0 <= i < ts.len()
    &&& ts[i].kind is Eof
    &&& forall|j: int| 0 <= j < i ==> !((#[trigger] ts[j]).kind is Eof)
}

/// The tokens up to and including the first `Eof`: all that parsing reads.
pub open spec fn up_to_eof(ts: Seq<SToken>) -> Seq<SToken> {
    ts.take((choose|i: int| is_first_eof(ts, i)) + 1)
}

/// A state that points at a token.
pub open spec fn in_range(ts: Seq<SToken>, st: PState) -> bool {
    0 <= st.pos < ts.len()
}

/// Whether `s` fails to lie past `st` (such steps never happen: every
/// successful rule consumes input).
pub open spec fn stalled(ts: Seq<SToken>, st: PState, s: PState) -> bool {
    s.pos <= st.pos || s.pos >= ts.len()
}

/// Whether `s` lies before `st` (such steps never happen).
pub open spec fn went_back(ts: Seq<SToken>, st: PState, s: PState) -> bool {
    s.pos < st.pos || s.pos >= ts.len()
}

/// The result of a step that cannot happen.
pub open spec fn stuck<T>(st: PState) -> PRes<T> {
    (Err(SParseError { span: Span { start: 0, end: 0 }, message: Seq::empty() }), st)
}

pub open spec fn peek(ts: Seq<SToken>, st: PState) -> SKind {
    ts[st.pos].kind
}

pub open spec fn span_at(ts: Seq<SToken>, st: PState) -> Span {
    ts[st.pos].span
}

pub open spec fn at_kw(ts: Seq<SToken>, st: PState, kw: Keyword) -> bool {
    peek(ts, st) == SKind::Kw(kw)
}

/// Move past doc comments, remembering the last one.
pub open spec fn skip_docs(ts: Seq<SToken>, st: PState) -> PState
    decreases ts.len() - st.pos,
{
    if 0 <= st.pos < ts.len() {
        match ts[st.pos].kind {
            SKind::DocComment(t) => skip_docs(ts, PState { pos: st.pos + 1, doc: Some(t) }),
            _ => st,
        }
    } else {
        st
    }
}

/// Consume the current token (never past `Eof`) and the doc comments after it.
#[verifier::opaque]
pub open spec fn advance(ts: Seq<SToken>, st: PState) -> PState {
    let p = if ts[st.pos].kind is Eof {
        st.pos
    } else {
        st.pos + 1
    };
    skip_docs(ts, PState { pos: p, doc: None })
}

/// Consume the current token if it is `k`.
#[verifier::opaque]
pub open spec fn eat(ts: Seq<SToken>, st: PState, k: SKind) -> (bool, PState) {
    if peek(ts, st) == k {
        (true, advance(ts, st))
    } else {
        (false, st)
    }
}

/// The span of the last real (non-doc) token before index `i`.
pub open spec fn prev_span(ts: Seq<SToken>, i: int) -> Span
    decreases i,
{
    if i <= 0 {
        ts[0].span
    } else if ts[i - 1].kind is DocComment {
        prev_span(ts, i - 1)
    } else {
        ts[i - 1].span
    }
}

/// The span from `start` to the last token consumed before `st`.
pub open spec fn span_to(ts: Seq<SToken>, start: Span, st: PState) -> Span {
    start.spec_to(prev_span(ts, st.pos))
}

/// The `n`-th real token from index `i` (doc comments skipped), stopping at `Eof`.
pub open spec fn peek_nth_from(ts: Seq<SToken>, i: int, n: nat) -> SKind
    decreases ts.len() - i,
{
    if i < 0 || i >= ts.len() {
        SKind::Eof
    } else if ts[i].kind is DocComment {
        peek_nth_from(ts, i + 1, n)
    } else if n == 0 || ts[i].kind is Eof {
        ts[i].kind
    } else {
        peek_nth_from(ts, i + 1, (n - 1) as nat)
    }
}

pub open spec fn peek_nth(ts: Seq<SToken>, st: PState, n: nat) -> SKind {
    peek_nth_from(ts, st.pos, n)
}

#[verifier::opaque]
pub open spec fn error_at<T>(ts: Seq<SToken>, st: PState, msg: Seq<char>) -> PRes<T> {
    (Err(SParseError { span: span_at(ts, st), message: msg }), st)
}

/// Consume a token of kind `k`, or fail naming what was found.
#[verifier::opaque]
pub open spec fn p_expect(ts: Seq<SToken>, st: PState, k: SKind) -> PRes<()> {
    if peek(ts, st) == k {
        (Ok(()), advance(ts, st))
    } else {
        error_at(ts, st, "expected "@ + describe(k) + ", found "@ + describe(peek(ts, st)))
    }
}

/// The name a token stands for when used as an identifier.
pub open spec fn ident_text(k: SKind) -> Option<Seq<char>> {
    match k {
        SKind::Ident(s) => Some(s),
        SKind::Kw(kw) => if keyword_is_soft(kw) {
            Some(keyword_text(kw))
        } else {
            None
        },
        _ => None,
    }
}

#[verifier::opaque]
pub open spec fn p_expect_ident(ts: Seq<SToken>, st: PState) -> PRes<SIdent> {
    match ident_text(peek(ts, st)) {
        Some(name) => (Ok(SIdent { name, span: span_at(ts, st) }), advance(ts, st)),
        None => error_at(ts, st, "expected identifier, found "@ + describe(peek(ts, st))),
    }
}

/// A type name after `is`, `as` or `returns`.
#[verifier::opaque]
pub open spec fn p_type_ref(ts: Seq<SToken>, st: PState) -> PRes<STypeRef> {
    let name = match peek(ts, st) {
        SKind::Kw(Keyword::Function) => Some("function"@),
        SKind::Kw(Keyword::Undefined) => Some("undefined"@),
        k => ident_text(k),
    };
    match name {
        Some(n) => (Ok(STypeRef { name: n, span: span_at(ts, st) }), advance(ts, st)),
        None => error_at(ts, st, "expected type name, found "@ + describe(peek(ts, st))),
    }
}

/// Which rule a binary-level token starts, and its precedence level.
#[derive(Clone, Copy, PartialEq, Eq, Structural)]
pub enum BinOrType {
    Bin(BinaryOp),
    Is,
    As,
}

pub open spec fn binary_op_of(k: SKind) -> Option<(u8, BinOrType)> {
    match k {
        SKind::PipePipe => Some((1, BinOrType::Bin(BinaryOp::Or))),
        SKind::QuestionQuestion => Some((1, BinOrType::Bin(BinaryOp::Coalesce))),
        SKind::AmpAmp => Some((2, BinOrType::Bin(BinaryOp::And))),
        SKind::EqEq => Some((3, BinOrType::Bin(BinaryOp::Eq))),
        SKind::BangEq => Some((3, BinOrType::Bin(BinaryOp::Ne))),
        SKind::Lt => Some((4, BinOrType::Bin(BinaryOp::Lt))),
        SKind::LtEq => Some((4, BinOrType::Bin(BinaryOp::Le))),
        SKind::Gt => Some((4, BinOrType::Bin(BinaryOp::Gt))),
        SKind::GtEq => Some((4, BinOrType::Bin(BinaryOp::Ge))),
        SKind::Tilde => Some((5, BinOrType::Bin(BinaryOp::Concat))),
        SKind::Plus => Some((6, BinOrType::Bin(BinaryOp::Add))),
        SKind::Minus => Some((6, BinOrType::Bin(BinaryOp::Sub))),
        SKind::Star => Some((7, BinOrType::Bin(BinaryOp::Mul))),
        SKind::Slash => Some((7, BinOrType::Bin(BinaryOp::Div))),
        SKind::Percent => Some((7, BinOrType::Bin(BinaryOp::Mod))),
        SKind::Caret => Some((8, BinOrType::Bin(BinaryOp::Pow))),
        SKind::Kw(Keyword::Is) => Some((9, BinOrType::Is)),
        SKind::Kw(Keyword::As) => Some((9, BinOrType::As)),
        _ => None,
    }
}

pub open spec fn assign_op_of(k: SKind) -> Option<AssignOp> {
    match k {
        SKind::Eq => Some(AssignOp::Assign),
        SKind::PlusEq => Some(AssignOp::Add),
        SKind::MinusEq => Some(AssignOp::Sub),
        SKind::StarEq => Some(AssignOp::Mul),
        SKind::SlashEq => Some(AssignOp::Div),
        SKind::PercentEq => Some(AssignOp::Mod),
        SKind::TildeEq => Some(AssignOp::Concat),
        SKind::CaretEq => Some(AssignOp::Pow),
        SKind::PipePipeEq => Some(AssignOp::Or),
        SKind::AmpAmpEq => Some(AssignOp::And),
        SKind::QuestionQuestionEq => Some(AssignOp::Coalesce),
        _ => None,
    }
}

pub open spec fn operator_symbol_of(k: SKind) -> Option<Seq<char>> {
    match k {
        SKind::Plus => Some("+"@),
        SKind::Minus => Some("-"@),
        SKind::Star => Some("*"@),
        SKind::Slash => Some("/"@),
        SKind::Percent => Some("%"@),
        SKind::Caret => Some("^"@),
        SKind::Tilde => Some("~"@),
        SKind::Bang => Some("!"@),
        SKind::EqEq => Some("=="@),
        SKind::BangEq => Some("!="@),
        SKind::Lt => Some("<"@),
        SKind::LtEq => Some("<="@),
        SKind::Gt => Some(">"@),
        SKind::GtEq => Some(">="@),
        _ => None,
    }
}

/// Targets an assignment may have.
pub open spec fn assignable(e: SExpr) -> bool
    decreases e,
{
    match e.kind {
        SExprKind::Ident(_) | SExprKind::Member { .. } | SExprKind::Index { .. }
        | SExprKind::Deref(_) => true,
        SExprKind::Paren(inner) => assignable(*inner),
        _ => false,
    }
}

/// `try { ... }` and `try silent { ... }` are statements; `try(expr)` is not.
pub open spec fn try_is_statement(ts: Seq<SToken>, st: PState) -> bool {
    match peek_nth(ts, st, 1) {
        SKind::LBrace => true,
        SKind::Kw(Keyword::Silent) => peek_nth(ts, st, 2) is LBrace,
        _ => false,
    }
}

/// Scan of `(a, b is Type, c) =>` from the `i`-th token after the `(`.
pub open spec fn paren_lambda_scan(ts: Seq<SToken>, st: PState, i: nat) -> bool
    decreases ts.len() - st.pos + 4 - i,
{
    if i > ts.len() - st.pos {
        false
    } else {
        match peek_nth(ts, st, i) {
            SKind::RParen => match peek_nth(ts, st, i + 1) {
                SKind::FatArrow => true,
                SKind::Kw(Keyword::Returns) => peek_nth(ts, st, i + 3) is FatArrow,
                _ => false,
            },
            k => if ident_text(k) is Some {
                let j: nat = if peek_nth(ts, st, i + 1) == SKind::Kw(Keyword::Is) {
                    i + 3
                } else {
                    i + 1
                };
                match peek_nth(ts, st, j) {
                    SKind::Comma => paren_lambda_scan(ts, st, j + 1),
                    SKind::RParen => paren_lambda_scan(ts, st, j),
                    _ => false,
                }
            } else {
                false
            },
        }
    }
}

/// Does the token stream at `(` look like `(a, b is Type, c) =>`?
pub open spec fn at_paren_lambda(ts: Seq<SToken>, st: PState) -> bool {
    paren_lambda_scan(ts, st, 1)
}

/// Whether a keyword rules out a map literal right after `{`.
pub open spec fn starts_block(kw: Keyword) -> bool {
    !keyword_is_soft(kw) && !(kw == Keyword::True || kw == Keyword::False || kw
        == Keyword::Undefined || kw == Keyword::Function || kw == Keyword::Try)
}

pub open spec fn is_assign_kind(k: SKind) -> bool {
    k is Eq || k is PlusEq || k is MinusEq || k is StarEq || k is SlashEq || k is PercentEq
        || k is CaretEq || k is TildeEq || k is PipePipeEq || k is AmpAmpEq
        || k is QuestionQuestionEq
}

/// Scan after a `{` for the first top-level `:` (map) or `;` (block),
/// ignoring a `:` that pairs with a `?`.
pub open spec fn map_scan(ts: Seq<SToken>, st: PState, i: nat, depth: int, open: int) -> bool
    decreases ts.len() - st.pos + 1 - i,
{
    if i > ts.len() - st.pos {
        false
    } else {
        match peek_nth(ts, st, i) {
            SKind::Eof => false,
            SKind::LParen | SKind::LBracket | SKind::LBrace => map_scan(ts, st, i + 1, depth + 1, open),
            SKind::RParen | SKind::RBracket | SKind::RBrace => if depth == 0 {
                false
            } else {
                map_scan(ts, st, i + 1, depth - 1, open)
            },
            SKind::Question => if depth == 0 {
                map_scan(ts, st, i + 1, depth, open + 1)
            } else {
                map_scan(ts, st, i + 1, depth, open)
            },
            SKind::Colon => if depth == 0 {
                if open > 0 {
                    map_scan(ts, st, i + 1, depth, open - 1)
                } else {
                    true
                }
            } else {
                map_scan(ts, st, i + 1, depth, open)
            },
            SKind::Semi => if depth == 0 {
                false
            } else {
                map_scan(ts, st, i + 1, depth, open)
            },
            k => if depth == 0 && is_assign_kind(k) {
                false
            } else {
                map_scan(ts, st, i + 1, depth, open)
            },
        }
    }
}

/// A `{` after `=>` opens a map literal (`{}` or `{ key : value, ... }`)
/// rather than a block.
pub open spec fn brace_is_map_literal(ts: Seq<SToken>, st: PState) -> bool {
    match peek_nth(ts, st, 1) {
        SKind::RBrace => true,
        SKind::Kw(k) => if starts_block(k) {
            false
        } else {
            map_scan(ts, st, 1, 0, 0)
        },
        _ => map_scan(ts, st, 1, 0, 0),
    }
}

/// An expression node spanning from `start` to the last consumed token.
pub open spec fn mk(ts: Seq<SToken>, start: Span, st: PState, kind: SExprKind) -> SExpr {
    SExpr { kind, span: span_to(ts, start, st) }
}

// ---- modules and items ----------------------------------------------------

pub open spec fn p_module(ts: Seq<SToken>, st: PState) -> PRes<SModule>
    decreases ts.len() - st.pos, 60int,
{
    if !in_range(ts, st) {
        stuck(st)
    } else {
        let start = span_at(ts, st);
        if at_kw(ts, st, Keyword::FeatureScript) {
            match p_version_header(ts, st) {
                (Err(e), s1) => (Err(e), s1),
                (Ok(h), s1) => if stalled(ts, st, s1) {
                    stuck(s1)
                } else {
                    p_module_items(ts, s1, start, Some(h), Seq::empty())
                },
            }
        } else {
            p_module_items(ts, st, start, None, Seq::empty())
        }
    }
}

pub open spec fn p_module_items(
    ts: Seq<SToken>,
    st: PState,
    start: Span,
    header: Option<VersionHeader>,
    items: Seq<SItem>,
) -> PRes<SModule>
    decreases ts.len() - st.pos, 55int,
{
    if !in_range(ts, st) {
        stuck(st)
    } else if peek(ts, st) is Eof {
        (Ok(SModule { header, items, span: span_to(ts, start, st) }), st)
    } else {
        match p_item(ts, st) {
            (Err(e), s1) => (Err(e), s1),
            (Ok(it), s1) => if stalled(ts, st, s1) {
                stuck(s1)
            } else {
                p_module_items(ts, s1, start, header, items.push(it))
            },
        }
    }
}

pub open spec fn p_version_header(ts: Seq<SToken>, st: PState) -> PRes<VersionHeader>
    decreases ts.len() - st.pos, 5int,
{
    if !in_range(ts, st) {
        stuck(st)
    } else {
        let start = span_at(ts, st);
        match p_expect(ts, st, SKind::Kw(Keyword::FeatureScript)) {
            (Err(e), s1) => (Err(e), s1),
            (Ok(_), s1) => {
                let version = match peek(ts, s1) {
                    SKind::Number(n) => if float_syntax(n) {
                        Ok(Version::Number(version_value(n)))
                    } else {
                        Err(
                            SParseError {
                                span: start,
                                message: "invalid version number"@,
                            },
                        )
                    },
                    SKind::Sparkle => Ok(Version::Sparkle),
                    other => Err(
                        SParseError {
                            span: span_at(ts, s1),
                            message: "expected version number after `FeatureScript`, found "@
                                + describe(other),
                        },
                    ),
                };
                match version {
                    Err(e) => if peek(ts, s1) is Number {
                        (Err(e), advance(ts, s1))
                    } else {
                        (Err(e), s1)
                    },
                    Ok(v) => {
                        let s2 = advance(ts, s1);
                        match p_expect(ts, s2, SKind::Semi) {
                            (Err(e), s3) => (Err(e), s3),
                            (Ok(_), s3) => (
                                Ok(VersionHeader { version: v, span: span_to(ts, start, s3) }),
                                s3,
                            ),
                        }
                    },
                }
            },
        }
    }
}

pub open spec fn p_item(ts: Seq<SToken>, st: PState) -> PRes<SItem>
    decreases ts.len() - st.pos, 50int,
{
    if !in_range(ts, st) {
        stuck(st)
    } else {
        let doc0 = st.doc;
        let s0 = PState { pos: st.pos, doc: None };
        let start = span_at(ts, s0);
        let ann: PRes<Option<SAnnotation>> = if at_kw(ts, s0, Keyword::Annotation) {
            match p_annotation(ts, s0) {
                (Err(e), s1) => (Err(e), s1),
                (Ok(a), s1) => (Ok(Some(a)), s1),
            }
        } else {
            (Ok(None), s0)
        };
        match ann {
            (Err(e), s1) => (Err(e), s1),
            (Ok(annotation), s1) => {
                let doc = match s1.doc {
                    Some(d) => Some(d),
                    None => doc0,
                };
                let s1b = PState { pos: s1.pos, doc: None };
                if went_back(ts, st, s1b) {
                    stuck(s1b)
                } else {
                    let (export, s2) = eat(ts, s1b, SKind::Kw(Keyword::Export));
                    if went_back(ts, st, s2) {
                        stuck(s2)
                    } else {
                        match p_item_kind(ts, s2, start) {
                            (Err(e), s4) => (Err(e), s4),
                            (Ok(k), s4) => (
                                Ok(
                                    SItem {
                                        doc,
                                        annotation,
                                        export,
                                        kind: k,
                                        span: span_to(ts, start, s4),
                                    },
                                ),
                                s4,
                            ),
                        }
                    }
                }
            },
        }
    }
}

/// The declaration of an item, after its doc comment, annotation and `export`.
pub open spec fn p_item_kind(ts: Seq<SToken>, st: PState, start: Span) -> PRes<SItemKind>
    decreases ts.len() - st.pos, 45int,
{
    if !in_range(ts, st) {
        stuck(st)
    } else {
        match peek(ts, st) {
            SKind::Kw(Keyword::Import) => match p_import(ts, st) {
                (Err(e), s) => (Err(e), s),
                (Ok(x), s) => (Ok(SItemKind::Import(x)), s),
            },
            SKind::Kw(Keyword::Function) => match p_function_decl(ts, st) {
                (Err(e), s) => (Err(e), s),
                (Ok(x), s) => (Ok(SItemKind::Function(x)), s),
            },
            SKind::Kw(Keyword::Predicate) => match p_predicate_decl(ts, st) {
                (Err(e), s) => (Err(e), s),
                (Ok(x), s) => (Ok(SItemKind::Predicate(x)), s),
            },
            SKind::Kw(Keyword::Operator) => match p_operator_decl(ts, st) {
                (Err(e), s) => (Err(e), s),
                (Ok(x), s) => (Ok(SItemKind::Operator(x)), s),
            },
            SKind::Kw(Keyword::Type) => match p_type_decl(ts, st) {
                (Err(e), s) => (Err(e), s),
                (Ok(x), s) => (Ok(SItemKind::Type(x)), s),
            },
            SKind::Kw(Keyword::Enum) => match p_enum_decl(ts, st) {
                (Err(e), s) => (Err(e), s),
                (Ok(x), s) => (Ok(SItemKind::Enum(x)), s),
            },
            SKind::Kw(Keyword::Const) => {
                let s3 = advance(ts, st);
                if stalled(ts, st, s3) {
                    stuck(s3)
                } else {
                    match p_var_decl_rest(ts, s3, start) {
                        (Err(e), s) => (Err(e), s),
                        (Ok(x), s) => (Ok(SItemKind::Const(x)), s),
                    }
                }
            },
            SKind::Kw(Keyword::Var) => {
                let s3 = advance(ts, st);
                if stalled(ts, st, s3) {
                    stuck(s3)
                } else {
                    match p_var_decl_rest(ts, s3, start) {
                        (Err(e), s) => (Err(e), s),
                        (Ok(x), s) => (Ok(SItemKind::Var(x)), s),
                    }
                }
            },
            other => error_at(ts, st, "expected a declaration, found "@ + describe(other)),
        }
    }
}

pub open spec fn p_annotation(ts: Seq<SToken>, st: PState) -> PRes<SAnnotation>
    decreases ts.len() - st.pos, 5int,
{
    if !in_range(ts, st) {
        stuck(st)
    } else {
        let start = span_at(ts, st);
        match p_expect(ts, st, SKind::Kw(Keyword::Annotation)) {
            (Err(e), s1) => (Err(e), s1),
            (Ok(_), s1) => if stalled(ts, st, s1) {
                stuck(s1)
            } else {
                match p_map_body(ts, s1) {
                    (Err(e), s2) => (Err(e), s2),
                    (Ok(entries), s2) => (
                        Ok(SAnnotation { entries, span: span_to(ts, start, s2) }),
                        s2,
                    ),
                }
            },
        }
    }
}

pub open spec fn p_import(ts: Seq<SToken>, st: PState) -> PRes<SImport>
    decreases ts.len() - st.pos, 5int,
{
    if !in_range(ts, st) {
        stuck(st)
    } else {
        let start = span_at(ts, st);
        match p_expect(ts, st, SKind::Kw(Keyword::Import)) {
            (Err(e), s1) => (Err(e), s1),
            (Ok(_), s1) => match p_expect(ts, s1, SKind::LParen) {
                (Err(e), s2) => (Err(e), s2),
                (Ok(_), s2) => if stalled(ts, st, s2) {
                    stuck(s2)
                } else {
                    match p_import_args(ts, s2, Seq::empty()) {
                        (Err(e), s3) => (Err(e), s3),
                        (Ok(args), s3) => match p_expect(ts, s3, SKind::RParen) {
                            (Err(e), s4) => (Err(e), s4),
                            (Ok(_), s4) => match p_expect(ts, s4, SKind::Semi) {
                                (Err(e), s5) => (Err(e), s5),
                                (Ok(_), s5) => (
                                    Ok(SImport { args, span: span_to(ts, start, s5) }),
                                    s5,
                                ),
                            },
                        },
                    }
                },
            },
        }
    }
}

/// `name : value` arguments up to the closing `)`.
pub open spec fn p_import_args(ts: Seq<SToken>, st: PState, acc: Seq<SNamedArg>) -> PRes<
    Seq<SNamedArg>,
>
    decreases ts.len() - st.pos, 5int,
{
    if !in_range(ts, st) {
        stuck(st)
    } else if peek(ts, st) is RParen {
        (Ok(acc), st)
    } else {
        let a_start = span_at(ts, st);
        match p_expect_ident(ts, st) {
            (Err(e), s1) => (Err(e), s1),
            (Ok(name), s1) => match p_expect(ts, s1, SKind::Colon) {
                (Err(e), s2) => (Err(e), s2),
                (Ok(_), s2) => if stalled(ts, st, s2) {
                    stuck(s2)
                } else {
                    match p_expr(ts, s2) {
                        (Err(e), s3) => (Err(e), s3),
                        (Ok(value), s3) => {
                            let acc2 = acc.push(
                                SNamedArg { name, value, span: span_to(ts, a_start, s3) },
                            );
                            let (more, s4) = eat(ts, s3, SKind::Comma);
                            if !more {
                                (Ok(acc2), s4)
                            } else if stalled(ts, st, s4) {
                                stuck(s4)
                            } else {
                                p_import_args(ts, s4, acc2)
                            }
                        },
                    }
                },
            },
        }
    }
}

pub open spec fn p_function_decl(ts: Seq<SToken>, st: PState) -> PRes<SFunctionDecl>
    decreases ts.len() - st.pos, 5int,
{
    if !in_range(ts, st) {
        stuck(st)
    } else {
        let start = span_at(ts, st);
        match p_expect(ts, st, SKind::Kw(Keyword::Function)) {
            (Err(e), s1) => (Err(e), s1),
            (Ok(_), s1) => match p_expect_ident(ts, s1) {
                (Err(e), s2) => (Err(e), s2),
                (Ok(name), s2) => if stalled(ts, st, s2) {
                    stuck(s2)
                } else {
                    match p_function_sig(ts, s2) {
                        (Err(e), s3) => (Err(e), s3),
                        (Ok(sig), s3) => (
                            Ok(SFunctionDecl { name, sig, span: span_to(ts, start, s3) }),
                            s3,
                        ),
                    }
                },
            },
        }
    }
}

/// `(params) [returns T] [precondition Block] Block`
pub open spec fn p_function_sig(ts: Seq<SToken>, st: PState) -> PRes<SFunctionSig>
    decreases ts.len() - st.pos, 25int,
{
    if !in_range(ts, st) {
        stuck(st)
    } else {
        let start = span_at(ts, st);
        match p_params(ts, st) {
            (Err(e), s1) => (Err(e), s1),
            (Ok(params), s1) => {
                let (has_returns, s2) = eat(ts, s1, SKind::Kw(Keyword::Returns));
                let rt: PRes<Option<STypeRef>> = if has_returns {
                    match p_type_ref(ts, s2) {
                        (Err(e), s) => (Err(e), s),
                        (Ok(t), s) => (Ok(Some(t)), s),
                    }
                } else {
                    (Ok(None), s2)
                };
                match rt {
                    (Err(e), s3) => (Err(e), s3),
                    (Ok(return_type), s3) => {
                        let (has_pre, s4) = eat(ts, s3, SKind::Kw(Keyword::Precondition));
                        if stalled(ts, st, s4) {
                            stuck(s4)
                        } else {
                            let pre: PRes<Option<SBlock>> = if has_pre {
                                match p_precondition_body(ts, s4) {
                                    (Err(e), s) => (Err(e), s),
                                    (Ok(b), s) => (Ok(Some(b)), s),
                                }
                            } else {
                                (Ok(None), s4)
                            };
                            match pre {
                                (Err(e), s5) => (Err(e), s5),
                                (Ok(precondition), s5) => if went_back(ts, s4, s5) {
                                    stuck(s5)
                                } else {
                                    match p_block(ts, s5) {
                                        (Err(e), s6) => (Err(e), s6),
                                        (Ok(body), s6) => (
                                            Ok(
                                                SFunctionSig {
                                                    params,
                                                    return_type,
                                                    precondition,
                                                    body,
                                                    span: span_to(ts, start, s6),
                                                },
                                            ),
                                            s6,
                                        ),
                                    }
                                },
                            }
                        }
                    },
                }
            },
        }
    }
}

/// `precondition { ... }` or the brace-less `precondition expr;` form; the
/// latter is wrapped in a single-statement block.
pub open spec fn p_precondition_body(ts: Seq<SToken>, st: PState) -> PRes<SBlock>
    decreases ts.len() - st.pos, 140int,
{
    if !in_range(ts, st) {
        stuck(st)
    } else if peek(ts, st) is LBrace {
        p_block(ts, st)
    } else {
        match p_stmt(ts, st) {
            (Err(e), s1) => (Err(e), s1),
            (Ok(stmt), s1) => (Ok(SBlock { stmts: seq![stmt], span: stmt.span }), s1),
        }
    }
}

pub open spec fn p_params(ts: Seq<SToken>, st: PState) -> PRes<Seq<SParam>>
    decreases ts.len() - st.pos, 20int,
{
    if !in_range(ts, st) {
        stuck(st)
    } else {
        match p_expect(ts, st, SKind::LParen) {
            (Err(e), s1) => (Err(e), s1),
            (Ok(_), s1) => if stalled(ts, st, s1) {
                stuck(s1)
            } else {
                match p_params_list(ts, s1, Seq::empty()) {
                    (Err(e), s2) => (Err(e), s2),
                    (Ok(params), s2) => match p_expect(ts, s2, SKind::RParen) {
                        (Err(e), s3) => (Err(e), s3),
                        (Ok(_), s3) => (Ok(params), s3),
                    },
                }
            },
        }
    }
}

/// Parameters up to the closing `)`.
pub open spec fn p_params_list(ts: Seq<SToken>, st: PState, acc: Seq<SParam>) -> PRes<
    Seq<SParam>,
>
    decreases ts.len() - st.pos, 5int,
{
    if !in_range(ts, st) {
        stuck(st)
    } else if peek(ts, st) is RParen {
        (Ok(acc), st)
    } else {
        let start = span_at(ts, st);
        match p_expect_ident(ts, st) {
            (Err(e), s1) => (Err(e), s1),
            (Ok(name), s1) => {
                let (has_ty, s2) = eat(ts, s1, SKind::Kw(Keyword::Is));
                let ty: PRes<Option<STypeRef>> = if has_ty {
                    match p_type_ref(ts, s2) {
                        (Err(e), s) => (Err(e), s),
                        (Ok(t), s) => (Ok(Some(t)), s),
                    }
                } else {
                    (Ok(None), s2)
                };
                match ty {
                    (Err(e), s3) => (Err(e), s3),
                    (Ok(ty), s3) => {
                        let acc2 = acc.push(SParam { name, ty, span: span_to(ts, start, s3) });
                        let (more, s4) = eat(ts, s3, SKind::Comma);
                        if !more {
                            (Ok(acc2), s4)
                        } else if stalled(ts, st, s4) {
                            stuck(s4)
                        } else {
                            p_params_list(ts, s4, acc2)
                        }
                    },
                }
            },
        }
    }
}

pub open spec fn p_predicate_decl(ts: Seq<SToken>, st: PState) -> PRes<SPredicateDecl>
    decreases ts.len() - st.pos, 5int,
{
    if !in_range(ts, st) {
        stuck(st)
    } else {
        let start = span_at(ts, st);
        match p_expect(ts, st, SKind::Kw(Keyword::Predicate)) {
            (Err(e), s1) => (Err(e), s1),
            (Ok(_), s1) => match p_expect_ident(ts, s1) {
                (Err(e), s2) => (Err(e), s2),
                (Ok(name), s2) => if stalled(ts, st, s2) {
                    stuck(s2)
                } else {
                    match p_params(ts, s2) {
                        (Err(e), s3) => (Err(e), s3),
                        (Ok(params), s3) => {
                            let (has_pre, s4) = eat(ts, s3, SKind::Kw(Keyword::Precondition));
                            if stalled(ts, st, s4) {
                                stuck(s4)
                            } else {
                                let pre: PRes<Option<SBlock>> = if has_pre {
                                    match p_precondition_body(ts, s4) {
                                        (Err(e), s) => (Err(e), s),
                                        (Ok(b), s) => (Ok(Some(b)), s),
                                    }
                                } else {
                                    (Ok(None), s4)
                                };
                                match pre {
                                    (Err(e), s5) => (Err(e), s5),
                                    (Ok(precondition), s5) => if went_back(ts, s4, s5) {
                                        stuck(s5)
                                    } else {
                                        match p_block(ts, s5) {
                                            (Err(e), s6) => (Err(e), s6),
                                            (Ok(body), s6) => (
                                                Ok(
                                                    SPredicateDecl {
                                                        name,
                                                        params,
                                                        precondition,
                                                        body,
                                                        span: span_to(ts, start, s6),
                                                    },
                                                ),
                                                s6,
                                            ),
                                        }
                                    },
                                }
                            }
                        },
                    }
                },
            },
        }
    }
}

pub open spec fn p_operator_decl(ts: Seq<SToken>, st: PState) -> PRes<SOperatorDecl>
    decreases ts.len() - st.pos, 5int,
{
    if !in_range(ts, st) {
        stuck(st)
    } else {
        let start = span_at(ts, st);
        match p_expect(ts, st, SKind::Kw(Keyword::Operator)) {
            (Err(e), s1) => (Err(e), s1),
            (Ok(_), s1) => match operator_symbol_of(peek(ts, s1)) {
                None => error_at(
                    ts,
                    s1,
                    "expected operator symbol, found "@ + describe(peek(ts, s1)),
                ),
                Some(op) => {
                    let s2 = advance(ts, s1);
                    if stalled(ts, st, s2) {
                        stuck(s2)
                    } else {
                        match p_function_sig(ts, s2) {
                            (Err(e), s3) => (Err(e), s3),
                            (Ok(sig), s3) => (
                                Ok(SOperatorDecl { op, sig, span: span_to(ts, start, s3) }),
                                s3,
                            ),
                        }
                    }
                },
            },
        }
    }
}

pub open spec fn p_type_decl(ts: Seq<SToken>, st: PState) -> PRes<STypeDecl>
    decreases ts.len() - st.pos, 5int,
{
    if !in_range(ts, st) {
        stuck(st)
    } else {
        let start = span_at(ts, st);
        match p_expect(ts, st, SKind::Kw(Keyword::Type)) {
            (Err(e), s1) => (Err(e), s1),
            (Ok(_), s1) => match p_expect_ident(ts, s1) {
                (Err(e), s2) => (Err(e), s2),
                (Ok(name), s2) => {
                    let (has_tc, s3) = eat(ts, s2, SKind::Kw(Keyword::Typecheck));
                    let tc: PRes<Option<SIdent>> = if has_tc {
                        match p_expect_ident(ts, s3) {
                            (Err(e), s) => (Err(e), s),
                            (Ok(i), s) => (Ok(Some(i)), s),
                        }
                    } else {
                        (Ok(None), s3)
                    };
                    match tc {
                        (Err(e), s4) => (Err(e), s4),
                        (Ok(typecheck), s4) => match p_expect(ts, s4, SKind::Semi) {
                            (Err(e), s5) => (Err(e), s5),
                            (Ok(_), s5) => (
                                Ok(STypeDecl { name, typecheck, span: span_to(ts, start, s5) }),
                                s5,
                            ),
                        },
                    }
                },
            },
        }
    }
}

pub open spec fn p_enum_decl(ts: Seq<SToken>, st: PState) -> PRes<SEnumDecl>
    decreases ts.len() - st.pos, 5int,
{
    if !in_range(ts, st) {
        stuck(st)
    } else {
        let start = span_at(ts, st);
        match p_expect(ts, st, SKind::Kw(Keyword::Enum)) {
            (Err(e), s1) => (Err(e), s1),
            (Ok(_), s1) => match p_expect_ident(ts, s1) {
                (Err(e), s2) => (Err(e), s2),
                (Ok(name), s2) => match p_expect(ts, s2, SKind::LBrace) {
                    (Err(e), s3) => (Err(e), s3),
                    (Ok(_), s3) => if stalled(ts, st, s3) {
                        stuck(s3)
                    } else {
                        match p_enum_members(ts, s3, Seq::empty()) {
                            (Err(e), s4) => (Err(e), s4),
                            (Ok(members), s4) => match p_expect(ts, s4, SKind::RBrace) {
                                (Err(e), s5) => (Err(e), s5),
                                (Ok(_), s5) => {
                                    // Some files terminate the enum with `;`, most don't.
                                    let (_, s6) = eat(ts, s5, SKind::Semi);
                                    (
                                        Ok(
                                            SEnumDecl {
                                                name,
                                                members,
                                                span: span_to(ts, start, s6),
                                            },
                                        ),
                                        s6,
                                    )
                                },
                            },
                        }
                    },
                },
            },
        }
    }
}

/// Enum members up to the closing `}`.
pub open spec fn p_enum_members(ts: Seq<SToken>, st: PState, acc: Seq<SEnumMember>) -> PRes<
    Seq<SEnumMember>,
>
    decreases ts.len() - st.pos, 10int,
{
    if !in_range(ts, st) {
        stuck(st)
    } else if peek(ts, st) is RBrace {
        (Ok(acc), st)
    } else {
        let doc0 = st.doc;
        let s0 = PState { pos: st.pos, doc: None };
        let m_start = span_at(ts, s0);
        let ann: PRes<Option<SAnnotation>> = if at_kw(ts, s0, Keyword::Annotation) {
            match p_annotation(ts, s0) {
                (Err(e), s) => (Err(e), s),
                (Ok(a), s) => (Ok(Some(a)), s),
            }
        } else {
            (Ok(None), s0)
        };
        match ann {
            (Err(e), s1) => (Err(e), s1),
            (Ok(annotation), s1) => {
                let doc = match s1.doc {
                    Some(d) => Some(d),
                    None => doc0,
                };
                let s1b = PState { pos: s1.pos, doc: None };
                match p_expect_ident(ts, s1b) {
                    (Err(e), s2) => (Err(e), s2),
                    (Ok(name), s2) => {
                        let acc2 = acc.push(
                            SEnumMember { doc, annotation, name, span: span_to(ts, m_start, s2) },
                        );
                        let (more, s3) = eat(ts, s2, SKind::Comma);
                        if !more {
                            (Ok(acc2), s3)
                        } else if stalled(ts, st, s3) {
                            stuck(s3)
                        } else {
                            p_enum_members(ts, s3, acc2)
                        }
                    },
                }
            },
        }
    }
}

/// After `var` / `const` has been consumed: `name [is T] [= expr] ;`
pub open spec fn p_var_decl_rest(ts: Seq<SToken>, st: PState, start: Span) -> PRes<SVarDecl>
    decreases ts.len() - st.pos, 5int,
{
    if !in_range(ts, st) {
        stuck(st)
    } else {
        match p_expect_ident(ts, st) {
            (Err(e), s1) => (Err(e), s1),
            (Ok(name), s1) => {
                let (has_ty, s2) = eat(ts, s1, SKind::Kw(Keyword::Is));
                let ty: PRes<Option<STypeRef>> = if has_ty {
                    match p_type_ref(ts, s2) {
                        (Err(e), s) => (Err(e), s),
                        (Ok(t), s) => (Ok(Some(t)), s),
                    }
                } else {
                    (Ok(None), s2)
                };
                match ty {
                    (Err(e), s3) => (Err(e), s3),
                    (Ok(ty), s3) => {
                        let (has_init, s4) = eat(ts, s3, SKind::Eq);
                        let init: PRes<Option<SExpr>> = if has_init {
                            if stalled(ts, st, s4) {
                                stuck(s4)
                            } else {
                                match p_expr(ts, s4) {
                                    (Err(e), s) => (Err(e), s),
                                    (Ok(x), s) => (Ok(Some(x)), s),
                                }
                            }
                        } else {
                            (Ok(None), s4)
                        };
                        match init {
                            (Err(e), s5) => (Err(e), s5),
                            (Ok(init), s5) => match p_expect(ts, s5, SKind::Semi) {
                                (Err(e), s6) => (Err(e), s6),
                                (Ok(_), s6) => (
                                    Ok(SVarDecl { name, ty, init, span: span_to(ts, start, s6) }),
                                    s6,
                                ),
                            },
                        }
                    },
                }
            },
        }
    }
}

// ---- statements -----------------------------------------------------------

pub open spec fn p_block(ts: Seq<SToken>, st: PState) -> PRes<SBlock>
    decreases ts.len() - st.pos, 5int,
{
    if !in_range(ts, st) {
        stuck(st)
    } else {
        let start = span_at(ts, st);
        match p_expect(ts, st, SKind::LBrace) {
            (Err(e), s1) => (Err(e), s1),
            (Ok(_), s1) => if stalled(ts, st, s1) {
                stuck(s1)
            } else {
                p_block_stmts(ts, s1, start, Seq::empty())
            },
        }
    }
}

/// Statements up to the closing `}` of a block opened at `start`.
pub open spec fn p_block_stmts(ts: Seq<SToken>, st: PState, start: Span, acc: Seq<SStmt>) -> PRes<
    SBlock,
>
    decreases ts.len() - st.pos, 140int,
{
    if !in_range(ts, st) {
        stuck(st)
    } else if peek(ts, st) is RBrace {
        match p_expect(ts, st, SKind::RBrace) {
            (Err(e), s1) => (Err(e), s1),
            (Ok(_), s1) => (Ok(SBlock { stmts: acc, span: span_to(ts, start, s1) }), s1),
        }
    } else if peek(ts, st) is Eof {
        error_at(ts, st, "unexpected end of file inside block"@)
    } else {
        match p_stmt(ts, st) {
            (Err(e), s1) => (Err(e), s1),
            (Ok(s), s1) => if stalled(ts, st, s1) {
                stuck(s1)
            } else {
                p_block_stmts(ts, s1, start, acc.push(s))
            },
        }
    }
}

pub open spec fn p_stmt(ts: Seq<SToken>, st: PState) -> PRes<SStmt>
    decreases ts.len() - st.pos, 130int,
{
    if !in_range(ts, st) {
        stuck(st)
    } else {
        let start = span_at(ts, st);
        let ann: PRes<Option<SAnnotation>> = if at_kw(ts, st, Keyword::Annotation) {
            match p_annotation(ts, st) {
                (Err(e), s) => (Err(e), s),
                (Ok(a), s) => (Ok(Some(a)), s),
            }
        } else {
            (Ok(None), st)
        };
        match ann {
            (Err(e), s1) => (Err(e), s1),
            (Ok(annotation), s1) => if went_back(ts, st, s1) {
                stuck(s1)
            } else {
                match p_stmt_kind(ts, s1, start) {
                    (Err(e), s2) => (Err(e), s2),
                    (Ok(kind), s2) => (
                        Ok(SStmt { annotation, kind, span: span_to(ts, start, s2) }),
                        s2,
                    ),
                }
            },
        }
    }
}

pub open spec fn p_stmt_kind(ts: Seq<SToken>, st: PState, start: Span) -> PRes<SStmtKind>
    decreases ts.len() - st.pos, 120int,
{
    if !in_range(ts, st) {
        stuck(st)
    } else {
        match peek(ts, st) {
            SKind::LBrace => match p_block(ts, st) {
                (Err(e), s) => (Err(e), s),
                (Ok(b), s) => (Ok(SStmtKind::Block(b)), s),
            },
            SKind::Semi => (Ok(SStmtKind::Empty), advance(ts, st)),
            SKind::Kw(Keyword::Var) => {
                let s1 = advance(ts, st);
                if stalled(ts, st, s1) {
                    stuck(s1)
                } else {
                    match p_var_decl_rest(ts, s1, start) {
                        (Err(e), s) => (Err(e), s),
                        (Ok(v), s) => (Ok(SStmtKind::Var(v)), s),
                    }
                }
            },
            SKind::Kw(Keyword::Const) => {
                let s1 = advance(ts, st);
                if stalled(ts, st, s1) {
                    stuck(s1)
                } else {
                    match p_var_decl_rest(ts, s1, start) {
                        (Err(e), s) => (Err(e), s),
                        (Ok(v), s) => (Ok(SStmtKind::Const(v)), s),
                    }
                }
            },
            SKind::Kw(Keyword::If) => p_if_stmt(ts, st),
            SKind::Kw(Keyword::While) => p_while_stmt(ts, st),
            SKind::Kw(Keyword::For) => p_for_stmt(ts, st),
            SKind::Kw(Keyword::Break) => {
                let s1 = advance(ts, st);
                match p_expect(ts, s1, SKind::Semi) {
                    (Err(e), s2) => (Err(e), s2),
                    (Ok(_), s2) => (Ok(SStmtKind::Break), s2),
                }
            },
            SKind::Kw(Keyword::Continue) => {
                let s1 = advance(ts, st);
                match p_expect(ts, s1, SKind::Semi) {
                    (Err(e), s2) => (Err(e), s2),
                    (Ok(_), s2) => (Ok(SStmtKind::Continue), s2),
                }
            },
            SKind::Kw(Keyword::Return) => p_return_stmt(ts, st),
            SKind::Kw(Keyword::Throw) => p_throw_stmt(ts, st),
            SKind::Kw(Keyword::Try) => if try_is_statement(ts, st) {
                p_try_stmt(ts, st)
            } else {
                p_expr_stmt(ts, st)
            },
            _ => p_expr_stmt(ts, st),
        }
    }
}

/// `if (cond) then [else else_]`, from the `if`.
pub open spec fn p_if_stmt(ts: Seq<SToken>, st: PState) -> PRes<SStmtKind>
    decreases ts.len() - st.pos, 5int,
{
    if !in_range(ts, st) {
        stuck(st)
    } else {
        let s1 = advance(ts, st);
        match p_expect(ts, s1, SKind::LParen) {
            (Err(e), s2) => (Err(e), s2),
            (Ok(_), s2) => if stalled(ts, st, s2) {
                stuck(s2)
            } else {
                match p_expr(ts, s2) {
                    (Err(e), s3) => (Err(e), s3),
                    (Ok(cond), s3) => match p_expect(ts, s3, SKind::RParen) {
                        (Err(e), s4) => (Err(e), s4),
                        (Ok(_), s4) => if stalled(ts, st, s4) {
                            stuck(s4)
                        } else {
                            match p_stmt(ts, s4) {
                                (Err(e), s5) => (Err(e), s5),
                                (Ok(then), s5) => {
                                    let (has_else, s6) = eat(ts, s5, SKind::Kw(Keyword::Else));
                                    if !has_else {
                                        (
                                            Ok(
                                                SStmtKind::If {
                                                    cond,
                                                    then: Box::new(then),
                                                    else_: None,
                                                },
                                            ),
                                            s6,
                                        )
                                    } else if stalled(ts, st, s6) {
                                        stuck(s6)
                                    } else {
                                        match p_stmt(ts, s6) {
                                            (Err(e), s7) => (Err(e), s7),
                                            (Ok(els), s7) => (
                                                Ok(
                                                    SStmtKind::If {
                                                        cond,
                                                        then: Box::new(then),
                                                        else_: Some(Box::new(els)),
                                                    },
                                                ),
                                                s7,
                                            ),
                                        }
                                    }
                                },
                            }
                        },
                    },
                }
            },
        }
    }
}

/// `while (cond) body`, from the `while`.
pub open spec fn p_while_stmt(ts: Seq<SToken>, st: PState) -> PRes<SStmtKind>
    decreases ts.len() - st.pos, 5int,
{
    if !in_range(ts, st) {
        stuck(st)
    } else {
        let s1 = advance(ts, st);
        match p_expect(ts, s1, SKind::LParen) {
            (Err(e), s2) => (Err(e), s2),
            (Ok(_), s2) => if stalled(ts, st, s2) {
                stuck(s2)
            } else {
                match p_expr(ts, s2) {
                    (Err(e), s3) => (Err(e), s3),
                    (Ok(cond), s3) => match p_expect(ts, s3, SKind::RParen) {
                        (Err(e), s4) => (Err(e), s4),
                        (Ok(_), s4) => if stalled(ts, st, s4) {
                            stuck(s4)
                        } else {
                            match p_stmt(ts, s4) {
                                (Err(e), s5) => (Err(e), s5),
                                (Ok(body), s5) => (
                                    Ok(SStmtKind::While { cond, body: Box::new(body) }),
                                    s5,
                                ),
                            }
                        },
                    },
                }
            },
        }
    }
}

/// `return [value];`, from the `return`.
pub open spec fn p_return_stmt(ts: Seq<SToken>, st: PState) -> PRes<SStmtKind>
    decreases ts.len() - st.pos, 5int,
{
    if !in_range(ts, st) {
        stuck(st)
    } else {
        let s1 = advance(ts, st);
        let value: PRes<Option<SExpr>> = if peek(ts, s1) is Semi {
            (Ok(None), s1)
        } else if stalled(ts, st, s1) {
            stuck(s1)
        } else {
            match p_expr(ts, s1) {
                (Err(e), s) => (Err(e), s),
                (Ok(x), s) => (Ok(Some(x)), s),
            }
        };
        match value {
            (Err(e), s2) => (Err(e), s2),
            (Ok(v), s2) => match p_expect(ts, s2, SKind::Semi) {
                (Err(e), s3) => (Err(e), s3),
                (Ok(_), s3) => (Ok(SStmtKind::Return(v)), s3),
            },
        }
    }
}

/// `throw value;`, from the `throw`.
pub open spec fn p_throw_stmt(ts: Seq<SToken>, st: PState) -> PRes<SStmtKind>
    decreases ts.len() - st.pos, 5int,
{
    if !in_range(ts, st) {
        stuck(st)
    } else {
        let s1 = advance(ts, st);
        if stalled(ts, st, s1) {
            stuck(s1)
        } else {
            match p_expr(ts, s1) {
                (Err(e), s2) => (Err(e), s2),
                (Ok(v), s2) => match p_expect(ts, s2, SKind::Semi) {
                    (Err(e), s3) => (Err(e), s3),
                    (Ok(_), s3) => (Ok(SStmtKind::Throw(v)), s3),
                },
            }
        }
    }
}

/// `try [silent] { ... } [catch [(e)] { ... }]`, from the `try`.
pub open spec fn p_try_stmt(ts: Seq<SToken>, st: PState) -> PRes<SStmtKind>
    decreases ts.len() - st.pos, 5int,
{
    if !in_range(ts, st) {
        stuck(st)
    } else {
        let s1 = advance(ts, st);
        let (silent, s2) = eat(ts, s1, SKind::Kw(Keyword::Silent));
        if stalled(ts, st, s2) {
            stuck(s2)
        } else {
            match p_block(ts, s2) {
                (Err(e), s3) => (Err(e), s3),
                (Ok(body), s3) => if at_kw(ts, s3, Keyword::Catch) {
                    let c_start = span_at(ts, s3);
                    let s4 = advance(ts, s3);
                    let (has_param, s5) = eat(ts, s4, SKind::LParen);
                    let param: PRes<Option<SIdent>> = if has_param {
                        match p_expect_ident(ts, s5) {
                            (Err(e), s) => (Err(e), s),
                            (Ok(p), s) => match p_expect(ts, s, SKind::RParen) {
                                (Err(e), s_) => (Err(e), s_),
                                (Ok(_), s_) => (Ok(Some(p)), s_),
                            },
                        }
                    } else {
                        (Ok(None), s5)
                    };
                    match param {
                        (Err(e), s6) => (Err(e), s6),
                        (Ok(param), s6) => if stalled(ts, st, s6) {
                            stuck(s6)
                        } else {
                            match p_block(ts, s6) {
                                (Err(e), s7) => (Err(e), s7),
                                (Ok(cbody), s7) => (
                                    Ok(
                                        SStmtKind::Try {
                                            silent,
                                            body,
                                            catch: Some(
                                                SCatchClause {
                                                    param,
                                                    body: cbody,
                                                    span: span_to(ts, c_start, s7),
                                                },
                                            ),
                                        },
                                    ),
                                    s7,
                                ),
                            }
                        },
                    }
                } else {
                    (Ok(SStmtKind::Try { silent, body, catch: None }), s3)
                },
            }
        }
    }
}

/// An expression statement: `expr ;`.
pub open spec fn p_expr_stmt(ts: Seq<SToken>, st: PState) -> PRes<SStmtKind>
    decreases ts.len() - st.pos, 110int,
{
    if !in_range(ts, st) {
        stuck(st)
    } else {
        match p_expr(ts, st) {
            (Err(e), s1) => (Err(e), s1),
            (Ok(x), s1) => match p_expect(ts, s1, SKind::Semi) {
                (Err(e), s2) => (Err(e), s2),
                (Ok(_), s2) => (Ok(SStmtKind::Expr(x)), s2),
            },
        }
    }
}

/// Whether a `for (` header is the for-in form.
pub open spec fn is_for_in(ts: Seq<SToken>, st: PState, declared: bool) -> bool {
    let off: nat = if declared {
        1
    } else {
        0
    };
    (match peek_nth(ts, st, off + 1) {
        SKind::Kw(Keyword::In) => true,
        SKind::Comma => peek_nth(ts, st, off + 3) == SKind::Kw(Keyword::In),
        _ => false,
    }) && ident_text(peek_nth(ts, st, off)) is Some
}

pub open spec fn p_for_stmt(ts: Seq<SToken>, st: PState) -> PRes<SStmtKind>
    decreases ts.len() - st.pos, 5int,
{
    if !in_range(ts, st) {
        stuck(st)
    } else {
        match p_expect(ts, st, SKind::Kw(Keyword::For)) {
            (Err(e), s1) => (Err(e), s1),
            (Ok(_), s1) => match p_expect(ts, s1, SKind::LParen) {
                (Err(e), s2) => (Err(e), s2),
                (Ok(_), s2) => if stalled(ts, st, s2) {
                    stuck(s2)
                } else {
                    let init_start = span_at(ts, s2);
                    let declared = at_kw(ts, s2, Keyword::Var) || at_kw(ts, s2, Keyword::Const);
                    if is_for_in(ts, s2, declared) {
                        p_for_in(ts, s2, declared)
                    } else {
                        p_for_c(ts, s2, init_start)
                    }
                },
            },
        }
    }
}

/// `for ([var] [key,] value in iter) body`, from after the `(`.
pub open spec fn p_for_in(ts: Seq<SToken>, st: PState, declared: bool) -> PRes<SStmtKind>
    decreases ts.len() - st.pos, 110int,
{
    if !in_range(ts, st) {
        stuck(st)
    } else {
        let s3 = if declared {
            advance(ts, st)
        } else {
            st
        };
        match p_expect_ident(ts, s3) {
            (Err(e), s4) => (Err(e), s4),
            (Ok(first), s4) => {
                let (has_second, s5) = eat(ts, s4, SKind::Comma);
                let kv: PRes<(Option<SIdent>, SIdent)> = if has_second {
                    match p_expect_ident(ts, s5) {
                        (Err(e), s) => (Err(e), s),
                        (Ok(second), s) => (Ok((Some(first), second)), s),
                    }
                } else {
                    (Ok((None, first)), s5)
                };
                match kv {
                    (Err(e), s6) => (Err(e), s6),
                    (Ok((key, value)), s6) => match p_expect(ts, s6, SKind::Kw(Keyword::In)) {
                        (Err(e), s7) => (Err(e), s7),
                        (Ok(_), s7) => if stalled(ts, st, s7) {
                            stuck(s7)
                        } else {
                            match p_expr(ts, s7) {
                                (Err(e), s8) => (Err(e), s8),
                                (Ok(iter), s8) => match p_expect(ts, s8, SKind::RParen) {
                                    (Err(e), s9) => (Err(e), s9),
                                    (Ok(_), s9) => if stalled(ts, st, s9) {
                                        stuck(s9)
                                    } else {
                                        match p_stmt(ts, s9) {
                                            (Err(e), s10) => (Err(e), s10),
                                            (Ok(body), s10) => (
                                                Ok(
                                                    SStmtKind::ForIn {
                                                        declared,
                                                        key,
                                                        value,
                                                        iter,
                                                        body: Box::new(body),
                                                    },
                                                ),
                                                s10,
                                            ),
                                        }
                                    },
                                },
                            }
                        },
                    },
                }
            },
        }
    }
}

/// C-style `for (init; cond; step) body`, from after the `(`.
pub open spec fn p_for_c(ts: Seq<SToken>, st: PState, init_start: Span) -> PRes<SStmtKind>
    decreases ts.len() - st.pos, 110int,
{
    if !in_range(ts, st) {
        stuck(st)
    } else {
        let s2 = st;
        let init: PRes<Option<SForInit>> = if peek(ts, s2) is Semi {
            (Ok(None), advance(ts, s2))
        } else if at_kw(ts, s2, Keyword::Var) || at_kw(ts, s2, Keyword::Const) {
            let s = advance(ts, s2);
            if stalled(ts, st, s) {
                stuck(s)
            } else {
                match p_var_decl_rest(ts, s, init_start) {
                    (Err(e), s_) => (Err(e), s_),
                    (Ok(v), s_) => (Ok(Some(SForInit::Var(v))), s_),
                }
            }
        } else {
            match p_expr(ts, s2) {
                (Err(e), s) => (Err(e), s),
                (Ok(x), s) => match p_expect(ts, s, SKind::Semi) {
                    (Err(e), s_) => (Err(e), s_),
                    (Ok(_), s_) => (Ok(Some(SForInit::Expr(x))), s_),
                },
            }
        };
        match init {
            (Err(e), s3) => (Err(e), s3),
            (Ok(init), s3) => if went_back(ts, s2, s3) {
                stuck(s3)
            } else {
                let cond: PRes<Option<SExpr>> = if peek(ts, s3) is Semi {
                    (Ok(None), s3)
                } else {
                    match p_expr(ts, s3) {
                        (Err(e), s) => (Err(e), s),
                        (Ok(x), s) => (Ok(Some(x)), s),
                    }
                };
                match cond {
                    (Err(e), s4) => (Err(e), s4),
                    (Ok(cond), s4) => match p_expect(ts, s4, SKind::Semi) {
                        (Err(e), s5) => (Err(e), s5),
                        (Ok(_), s5) => if stalled(ts, st, s5) {
                            stuck(s5)
                        } else {
                            let step: PRes<Option<SExpr>> = if peek(ts, s5) is RParen {
                                (Ok(None), s5)
                            } else {
                                match p_expr(ts, s5) {
                                    (Err(e), s) => (Err(e), s),
                                    (Ok(x), s) => (Ok(Some(x)), s),
                                }
                            };
                            match step {
                                (Err(e), s6) => (Err(e), s6),
                                (Ok(step), s6) => match p_expect(ts, s6, SKind::RParen) {
                                    (Err(e), s7) => (Err(e), s7),
                                    (Ok(_), s7) => if stalled(ts, st, s7) {
                                        stuck(s7)
                                    } else {
                                        match p_stmt(ts, s7) {
                                            (Err(e), s8) => (Err(e), s8),
                                            (Ok(body), s8) => (
                                                Ok(
                                                    SStmtKind::For {
                                                        init,
                                                        cond,
                                                        step,
                                                        body: Box::new(body),
                                                    },
                                                ),
                                                s8,
                                            ),
                                        }
                                    },
                                },
                            }
                        },
                    },
                }
            },
        }
    }
}

// ---- expressions ----------------------------------------------------------

pub open spec fn p_expr(ts: Seq<SToken>, st: PState) -> PRes<SExpr>
    decreases ts.len() - st.pos, 100int,
{
    if !in_range(ts, st) {
        stuck(st)
    } else {
        p_assignment(ts, st)
    }
}

pub open spec fn p_assignment(ts: Seq<SToken>, st: PState) -> PRes<SExpr>
    decreases ts.len() - st.pos, 90int,
{
    if !in_range(ts, st) {
        stuck(st)
    } else {
        let start = span_at(ts, st);
        match p_ternary(ts, st) {
            (Err(e), s1) => (Err(e), s1),
            (Ok(lhs), s1) => match assign_op_of(peek(ts, s1)) {
                None => (Ok(lhs), s1),
                Some(op) => if !assignable(lhs) {
                    error_at(ts, s1, "invalid assignment target"@)
                } else {
                    let s2 = advance(ts, s1);
                    if stalled(ts, st, s2) {
                        stuck(s2)
                    } else {
                        match p_assignment(ts, s2) {
                            (Err(e), s3) => (Err(e), s3),
                            (Ok(value), s3) => (
                                Ok(
                                    mk(
                                        ts,
                                        start,
                                        s3,
                                        SExprKind::Assign {
                                            op,
                                            target: Box::new(lhs),
                                            value: Box::new(value),
                                        },
                                    ),
                                ),
                                s3,
                            ),
                        }
                    }
                },
            },
        }
    }
}

pub open spec fn p_ternary(ts: Seq<SToken>, st: PState) -> PRes<SExpr>
    decreases ts.len() - st.pos, 80int,
{
    if !in_range(ts, st) {
        stuck(st)
    } else {
        let start = span_at(ts, st);
        match p_binary(ts, st, 0) {
            (Err(e), s1) => (Err(e), s1),
            (Ok(cond), s1) => {
                let (q, s2) = eat(ts, s1, SKind::Question);
                if !q {
                    (Ok(cond), s2)
                } else if stalled(ts, st, s2) {
                    stuck(s2)
                } else {
                    match p_assignment(ts, s2) {
                        (Err(e), s3) => (Err(e), s3),
                        (Ok(then), s3) => match p_expect(ts, s3, SKind::Colon) {
                            (Err(e), s4) => (Err(e), s4),
                            (Ok(_), s4) => if stalled(ts, st, s4) {
                                stuck(s4)
                            } else {
                                match p_assignment(ts, s4) {
                                    (Err(e), s5) => (Err(e), s5),
                                    (Ok(els), s5) => (
                                        Ok(
                                            mk(
                                                ts,
                                                start,
                                                s5,
                                                SExprKind::Ternary {
                                                    cond: Box::new(cond),
                                                    then: Box::new(then),
                                                    else_: Box::new(els),
                                                },
                                            ),
                                        ),
                                        s5,
                                    ),
                                }
                            },
                        },
                    }
                }
            },
        }
    }
}

/// Precedence climbing over the binary levels, from `min_level` up.
pub open spec fn p_binary(ts: Seq<SToken>, st: PState, min_level: u8) -> PRes<SExpr>
    decreases ts.len() - st.pos, 70int,
{
    if !in_range(ts, st) {
        stuck(st)
    } else {
        let start = span_at(ts, st);
        match p_unary(ts, st) {
            (Err(e), s1) => (Err(e), s1),
            (Ok(lhs), s1) => if stalled(ts, st, s1) {
                stuck(s1)
            } else {
                p_binary_loop(ts, s1, start, lhs, min_level)
            },
        }
    }
}

/// The loop of [`p_binary`]: extend `lhs` with operators of at least `min_level`.
pub open spec fn p_binary_loop(
    ts: Seq<SToken>,
    st: PState,
    start: Span,
    lhs: SExpr,
    min_level: u8,
) -> PRes<SExpr>
    decreases ts.len() - st.pos, 5int,
{
    if !in_range(ts, st) {
        stuck(st)
    } else {
        match binary_op_of(peek(ts, st)) {
            None => (Ok(lhs), st),
            Some((level, op)) => if level < min_level {
                (Ok(lhs), st)
            } else {
                let s1 = advance(ts, st);
                if stalled(ts, st, s1) {
                    stuck(s1)
                } else {
                    match op {
                        BinOrType::Is => match p_type_ref(ts, s1) {
                            (Err(e), s2) => (Err(e), s2),
                            (Ok(ty), s2) => if stalled(ts, st, s2) {
                                stuck(s2)
                            } else {
                                p_binary_loop(
                                    ts,
                                    s2,
                                    start,
                                    mk(ts, start, s2, SExprKind::Is { expr: Box::new(lhs), ty }),
                                    min_level,
                                )
                            },
                        },
                        BinOrType::As => match p_type_ref(ts, s1) {
                            (Err(e), s2) => (Err(e), s2),
                            (Ok(ty), s2) => if stalled(ts, st, s2) {
                                stuck(s2)
                            } else {
                                p_binary_loop(
                                    ts,
                                    s2,
                                    start,
                                    mk(ts, start, s2, SExprKind::As { expr: Box::new(lhs), ty }),
                                    min_level,
                                )
                            },
                        },
                        BinOrType::Bin(bop) => {
                            // `^` is right-associative; everything else is left.
                            let next_min: u8 = if bop == BinaryOp::Pow {
                                level
                            } else {
                                (level + 1) as u8
                            };
                            match p_binary(ts, s1, next_min) {
                                (Err(e), s2) => (Err(e), s2),
                                (Ok(rhs), s2) => if stalled(ts, st, s2) {
                                    stuck(s2)
                                } else {
                                    p_binary_loop(
                                        ts,
                                        s2,
                                        start,
                                        mk(
                                            ts,
                                            start,
                                            s2,
                                            SExprKind::Binary {
                                                op: bop,
                                                lhs: Box::new(lhs),
                                                rhs: Box::new(rhs),
                                            },
                                        ),
                                        min_level,
                                    )
                                },
                            }
                        },
                    }
                }
            },
        }
    }
}

pub open spec fn p_unary(ts: Seq<SToken>, st: PState) -> PRes<SExpr>
    decreases ts.len() - st.pos, 60int,
{
    if !in_range(ts, st) {
        stuck(st)
    } else {
        let start = span_at(ts, st);
        let op = match peek(ts, st) {
            SKind::Minus => Some(UnaryOp::Neg),
            SKind::Bang => Some(UnaryOp::Not),
            _ => None,
        };
        match op {
            Some(op) => {
                let s1 = advance(ts, st);
                if stalled(ts, st, s1) {
                    stuck(s1)
                } else {
                    match p_unary(ts, s1) {
                        (Err(e), s2) => (Err(e), s2),
                        (Ok(x), s2) => (
                            Ok(mk(ts, start, s2, SExprKind::Unary { op, expr: Box::new(x) })),
                            s2,
                        ),
                    }
                }
            },
            None => p_postfix(ts, st),
        }
    }
}

pub open spec fn p_postfix(ts: Seq<SToken>, st: PState) -> PRes<SExpr>
    decreases ts.len() - st.pos, 50int,
{
    if !in_range(ts, st) {
        stuck(st)
    } else {
        let start = span_at(ts, st);
        match p_primary(ts, st) {
            (Err(e), s1) => (Err(e), s1),
            (Ok(e), s1) => if stalled(ts, st, s1) {
                stuck(s1)
            } else {
                p_postfix_loop(ts, s1, start, e)
            },
        }
    }
}

/// Member access, indexing, dereference, calls and pipes after `e`.
pub open spec fn p_postfix_loop(ts: Seq<SToken>, st: PState, start: Span, e: SExpr) -> PRes<SExpr>
    decreases ts.len() - st.pos, 30int,
{
    if !in_range(ts, st) {
        stuck(st)
    } else {
        match peek(ts, st) {
            SKind::Dot | SKind::QuestionDot => {
                let safe = peek(ts, st) is QuestionDot;
                let s1 = advance(ts, st);
                match p_expect_ident(ts, s1) {
                    (Err(err), s2) => (Err(err), s2),
                    (Ok(name), s2) => if stalled(ts, st, s2) {
                        stuck(s2)
                    } else {
                        p_postfix_loop(
                            ts,
                            s2,
                            start,
                            mk(ts, start, s2, SExprKind::Member { object: Box::new(e), name, safe }),
                        )
                    },
                }
            },
            SKind::LBracket => {
                let s1 = advance(ts, st);
                let (closed, s2) = eat(ts, s1, SKind::RBracket);
                if stalled(ts, st, s2) {
                    stuck(s2)
                } else if closed {
                    p_postfix_loop(ts, s2, start, mk(ts, start, s2, SExprKind::Deref(Box::new(e))))
                } else {
                    match p_expr(ts, s2) {
                        (Err(err), s3) => (Err(err), s3),
                        (Ok(index), s3) => match p_expect(ts, s3, SKind::RBracket) {
                            (Err(err), s4) => (Err(err), s4),
                            (Ok(_), s4) => if stalled(ts, st, s4) {
                                stuck(s4)
                            } else {
                                p_postfix_loop(
                                    ts,
                                    s4,
                                    start,
                                    mk(
                                        ts,
                                        start,
                                        s4,
                                        SExprKind::Index {
                                            object: Box::new(e),
                                            index: Box::new(index),
                                        },
                                    ),
                                )
                            },
                        },
                    }
                }
            },
            SKind::LParen => match p_call_args(ts, st) {
                (Err(err), s1) => (Err(err), s1),
                (Ok(args), s1) => if stalled(ts, st, s1) {
                    stuck(s1)
                } else {
                    p_postfix_loop(
                        ts,
                        s1,
                        start,
                        mk(ts, start, s1, SExprKind::Call { callee: Box::new(e), args }),
                    )
                },
            },
            SKind::Arrow => {
                let s1 = advance(ts, st);
                if stalled(ts, st, s1) {
                    stuck(s1)
                } else {
                    let c_start = span_at(ts, s1);
                    match p_primary(ts, s1) {
                        (Err(err), s2) => (Err(err), s2),
                        (Ok(callee), s2) => if stalled(ts, st, s2) {
                            stuck(s2)
                        } else {
                            match p_pipe_callee(ts, s2, start, c_start, e, callee) {
                                (Err(err), s3) => (Err(err), s3),
                                (Ok(piped), s3) => if stalled(ts, st, s3) {
                                    stuck(s3)
                                } else {
                                    p_postfix_loop(ts, s3, start, piped)
                                },
                            }
                        },
                    }
                }
            },
            _ => (Ok(e), st),
        }
    }
}

/// After `receiver ->` and a primary: member accesses, then the call; the
/// pipe expression they make.
pub open spec fn p_pipe_callee(
    ts: Seq<SToken>,
    st: PState,
    start: Span,
    c_start: Span,
    receiver: SExpr,
    callee: SExpr,
) -> PRes<SExpr>
    decreases ts.len() - st.pos, 30int,
{
    if !in_range(ts, st) {
        stuck(st)
    } else if peek(ts, st) is Dot {
        let s1 = advance(ts, st);
        match p_expect_ident(ts, s1) {
            (Err(err), s2) => (Err(err), s2),
            (Ok(name), s2) => if stalled(ts, st, s2) {
                stuck(s2)
            } else {
                p_pipe_callee(
                    ts,
                    s2,
                    start,
                    c_start,
                    receiver,
                    mk(
                        ts,
                        c_start,
                        s2,
                        SExprKind::Member { object: Box::new(callee), name, safe: false },
                    ),
                )
            },
        }
    } else if !(peek(ts, st) is LParen) {
        error_at(ts, st, "expected call arguments after `->`"@)
    } else {
        match p_call_args(ts, st) {
            (Err(err), s1) => (Err(err), s1),
            (Ok(args), s1) => {
                let call = mk(ts, c_start, s1, SExprKind::Call { callee: Box::new(callee), args });
                (
                    Ok(
                        mk(
                            ts,
                            start,
                            s1,
                            SExprKind::Pipe { receiver: Box::new(receiver), call: Box::new(call) },
                        ),
                    ),
                    s1,
                )
            },
        }
    }
}

pub open spec fn p_call_args(ts: Seq<SToken>, st: PState) -> PRes<Seq<SExpr>>
    decreases ts.len() - st.pos, 5int,
{
    if !in_range(ts, st) {
        stuck(st)
    } else {
        match p_expect(ts, st, SKind::LParen) {
            (Err(e), s1) => (Err(e), s1),
            (Ok(_), s1) => if stalled(ts, st, s1) {
                stuck(s1)
            } else {
                match p_expr_list(ts, s1, Seq::empty(), SKind::RParen) {
                    (Err(e), s2) => (Err(e), s2),
                    (Ok(args), s2) => match p_expect(ts, s2, SKind::RParen) {
                        (Err(e), s3) => (Err(e), s3),
                        (Ok(_), s3) => (Ok(args), s3),
                    },
                }
            },
        }
    }
}

/// Comma-separated expressions up to `close` (not consumed).
pub open spec fn p_expr_list(ts: Seq<SToken>, st: PState, acc: Seq<SExpr>, close: SKind) -> PRes<
    Seq<SExpr>,
>
    decreases ts.len() - st.pos, 110int,
{
    if !in_range(ts, st) {
        stuck(st)
    } else if peek(ts, st) == close {
        (Ok(acc), st)
    } else {
        match p_expr(ts, st) {
            (Err(e), s1) => (Err(e), s1),
            (Ok(x), s1) => {
                let (more, s2) = eat(ts, s1, SKind::Comma);
                if !more {
                    (Ok(acc.push(x)), s2)
                } else if stalled(ts, st, s2) {
                    stuck(s2)
                } else {
                    p_expr_list(ts, s2, acc.push(x), close)
                }
            },
        }
    }
}

/// After `=>`: an expression, or a `{ ... }` block. A `{` is a block
/// unless it reads as a map literal.
pub open spec fn p_lambda_body(ts: Seq<SToken>, st: PState) -> PRes<SLambdaBody>
    decreases ts.len() - st.pos, 100int,
{
    if !in_range(ts, st) {
        stuck(st)
    } else if peek(ts, st) is LBrace && !brace_is_map_literal(ts, st) {
        match p_block(ts, st) {
            (Err(e), s1) => (Err(e), s1),
            (Ok(b), s1) => (Ok(SLambdaBody::Block(b)), s1),
        }
    } else {
        match p_assignment(ts, st) {
            (Err(e), s1) => (Err(e), s1),
            (Ok(x), s1) => (Ok(SLambdaBody::Expr(x)), s1),
        }
    }
}

pub open spec fn p_primary(ts: Seq<SToken>, st: PState) -> PRes<SExpr>
    decreases ts.len() - st.pos, 40int,
{
    if !in_range(ts, st) {
        stuck(st)
    } else {
        let start = span_at(ts, st);
        let s1 = advance(ts, st);
        match peek(ts, st) {
            SKind::Number(text) => if float_syntax(text) {
                (Ok(mk(ts, start, s1, SExprKind::Number(text))), s1)
            } else {
                (
                    Err(
                        SParseError {
                            span: start,
                            message: "invalid number `"@ + text + "`"@,
                        },
                    ),
                    s1,
                )
            },
            SKind::Str(s) => (Ok(mk(ts, start, s1, SExprKind::Str(s))), s1),
            SKind::Kw(Keyword::True) => (Ok(mk(ts, start, s1, SExprKind::Bool(true))), s1),
            SKind::Kw(Keyword::False) => (Ok(mk(ts, start, s1, SExprKind::Bool(false))), s1),
            SKind::Kw(Keyword::Undefined) => (Ok(mk(ts, start, s1, SExprKind::Undefined)), s1),
            SKind::LParen => p_paren_expr(ts, st),
            SKind::LBracket => p_array_expr(ts, st),
            SKind::LBrace => match p_map_body(ts, st) {
                (Err(e), s2) => (Err(e), s2),
                (Ok(entries), s2) => (Ok(mk(ts, start, s2, SExprKind::MapLiteral(entries))), s2),
            },
            SKind::Kw(Keyword::Function) => if stalled(ts, st, s1) {
                stuck(s1)
            } else {
                match p_function_sig(ts, s1) {
                    (Err(e), s2) => (Err(e), s2),
                    (Ok(sig), s2) => (Ok(mk(ts, start, s2, SExprKind::Function(sig))), s2),
                }
            },
            SKind::Kw(Keyword::Try) => p_try_expr(ts, st),
            SKind::Kw(Keyword::Switch) => if peek_nth(ts, st, 1) is LParen {
                p_switch_expr(ts, st)
            } else {
                p_ident_or_lambda(ts, st)
            },
            SKind::Kw(Keyword::New) => if ident_text(peek_nth(ts, st, 1)) is Some {
                p_new_expr(ts, st)
            } else {
                p_ident_or_lambda(ts, st)
            },
            _ => p_ident_or_lambda(ts, st),
        }
    }
}

/// At `(`: a lambda `(a, b is T) [returns T] => body`, or a parenthesised
/// expression.
pub open spec fn p_paren_expr(ts: Seq<SToken>, st: PState) -> PRes<SExpr>
    decreases ts.len() - st.pos, 35int,
{
    if !in_range(ts, st) {
        stuck(st)
    } else if at_paren_lambda(ts, st) {
        p_lambda_expr(ts, st)
    } else {
        let start = span_at(ts, st);
        let s1 = advance(ts, st);
        if stalled(ts, st, s1) {
            stuck(s1)
        } else {
            match p_expr(ts, s1) {
                (Err(e), s2) => (Err(e), s2),
                (Ok(inner), s2) => match p_expect(ts, s2, SKind::RParen) {
                    (Err(e), s3) => (Err(e), s3),
                    (Ok(_), s3) => (Ok(mk(ts, start, s3, SExprKind::Paren(Box::new(inner)))), s3),
                },
            }
        }
    }
}

/// A lambda `(a, b is T) [returns T] => body`, from the `(`.
pub open spec fn p_lambda_expr(ts: Seq<SToken>, st: PState) -> PRes<SExpr>
    decreases ts.len() - st.pos, 30int,
{
    if !in_range(ts, st) {
        stuck(st)
    } else {
        let start = span_at(ts, st);
        match p_params(ts, st) {
            (Err(e), s2) => (Err(e), s2),
            (Ok(params), s2) => {
                let (has_returns, s3) = eat(ts, s2, SKind::Kw(Keyword::Returns));
                let rt: PRes<Option<STypeRef>> = if has_returns {
                    match p_type_ref(ts, s3) {
                        (Err(e), s) => (Err(e), s),
                        (Ok(t), s) => (Ok(Some(t)), s),
                    }
                } else {
                    (Ok(None), s3)
                };
                match rt {
                    (Err(e), s4) => (Err(e), s4),
                    (Ok(return_type), s4) => match p_expect(ts, s4, SKind::FatArrow) {
                        (Err(e), s5) => (Err(e), s5),
                        (Ok(_), s5) => if stalled(ts, st, s5) {
                            stuck(s5)
                        } else {
                            match p_lambda_body(ts, s5) {
                                (Err(e), s6) => (Err(e), s6),
                                (Ok(body), s6) => (
                                    Ok(
                                        mk(
                                            ts,
                                            start,
                                            s6,
                                            SExprKind::Lambda {
                                                params,
                                                return_type,
                                                body: Box::new(body),
                                            },
                                        ),
                                    ),
                                    s6,
                                ),
                            }
                        },
                    },
                }
            },
        }
    }
}

/// An array literal `[a, b, ...]`, from the `[`.
pub open spec fn p_array_expr(ts: Seq<SToken>, st: PState) -> PRes<SExpr>
    decreases ts.len() - st.pos, 5int,
{
    if !in_range(ts, st) {
        stuck(st)
    } else {
        let start = span_at(ts, st);
        let s1 = advance(ts, st);
        if stalled(ts, st, s1) {
            stuck(s1)
        } else {
            match p_expr_list(ts, s1, Seq::empty(), SKind::RBracket) {
                (Err(e), s2) => (Err(e), s2),
                (Ok(items), s2) => match p_expect(ts, s2, SKind::RBracket) {
                    (Err(e), s3) => (Err(e), s3),
                    (Ok(_), s3) => (Ok(mk(ts, start, s3, SExprKind::Array(items))), s3),
                },
            }
        }
    }
}

/// `try [silent] (expr)`, from the `try`.
pub open spec fn p_try_expr(ts: Seq<SToken>, st: PState) -> PRes<SExpr>
    decreases ts.len() - st.pos, 5int,
{
    if !in_range(ts, st) {
        stuck(st)
    } else {
        let start = span_at(ts, st);
        let s1 = advance(ts, st);
        let (silent, s2) = eat(ts, s1, SKind::Kw(Keyword::Silent));
        match p_expect(ts, s2, SKind::LParen) {
            (Err(e), s3) => (Err(e), s3),
            (Ok(_), s3) => if stalled(ts, st, s3) {
                stuck(s3)
            } else {
                match p_expr(ts, s3) {
                    (Err(e), s4) => (Err(e), s4),
                    (Ok(x), s4) => match p_expect(ts, s4, SKind::RParen) {
                        (Err(e), s5) => (Err(e), s5),
                        (Ok(_), s5) => (
                            Ok(mk(ts, start, s5, SExprKind::Try { silent, expr: Box::new(x) })),
                            s5,
                        ),
                    },
                }
            },
        }
    }
}

/// `switch (scrutinee) { case : value, ... }`, from the `switch`.
pub open spec fn p_switch_expr(ts: Seq<SToken>, st: PState) -> PRes<SExpr>
    decreases ts.len() - st.pos, 5int,
{
    if !in_range(ts, st) {
        stuck(st)
    } else {
        let start = span_at(ts, st);
        let s1 = advance(ts, st);
        match p_expect(ts, s1, SKind::LParen) {
            (Err(e), s2) => (Err(e), s2),
            (Ok(_), s2) => if stalled(ts, st, s2) {
                stuck(s2)
            } else {
                match p_expr(ts, s2) {
                    (Err(e), s3) => (Err(e), s3),
                    (Ok(scrutinee), s3) => match p_expect(ts, s3, SKind::RParen) {
                        (Err(e), s4) => (Err(e), s4),
                        (Ok(_), s4) => if stalled(ts, st, s4) {
                            stuck(s4)
                        } else {
                            match p_map_body(ts, s4) {
                                (Err(e), s5) => (Err(e), s5),
                                (Ok(cases), s5) => (
                                    Ok(
                                        mk(
                                            ts,
                                            start,
                                            s5,
                                            SExprKind::Switch {
                                                scrutinee: Box::new(scrutinee),
                                                cases,
                                            },
                                        ),
                                    ),
                                    s5,
                                ),
                            }
                        },
                    },
                }
            },
        }
    }
}

/// `new expr`, from the `new`.
pub open spec fn p_new_expr(ts: Seq<SToken>, st: PState) -> PRes<SExpr>
    decreases ts.len() - st.pos, 5int,
{
    if !in_range(ts, st) {
        stuck(st)
    } else {
        let start = span_at(ts, st);
        let s1 = advance(ts, st);
        if stalled(ts, st, s1) {
            stuck(s1)
        } else {
            match p_postfix(ts, s1) {
                (Err(e), s2) => (Err(e), s2),
                (Ok(inner), s2) => (Ok(mk(ts, start, s2, SExprKind::New(Box::new(inner)))), s2),
            }
        }
    }
}

/// An identifier, or a one-parameter lambda `x => body`.
pub open spec fn p_ident_or_lambda(ts: Seq<SToken>, st: PState) -> PRes<SExpr>
    decreases ts.len() - st.pos, 20int,
{
    if !in_range(ts, st) {
        stuck(st)
    } else if ident_text(peek(ts, st)) is Some {
        let start = span_at(ts, st);
        match p_expect_ident(ts, st) {
            (Err(e), s1) => (Err(e), s1),
            (Ok(name), s1) => {
                let (arrow, s2) = eat(ts, s1, SKind::FatArrow);
                if !arrow {
                    (Ok(mk(ts, start, s2, SExprKind::Ident(name.name))), s2)
                } else if stalled(ts, st, s2) {
                    stuck(s2)
                } else {
                    let param = SParam { span: name.span, name, ty: None };
                    match p_lambda_body(ts, s2) {
                        (Err(e), s3) => (Err(e), s3),
                        (Ok(body), s3) => (
                            Ok(
                                mk(
                                    ts,
                                    start,
                                    s3,
                                    SExprKind::Lambda {
                                        params: seq![param],
                                        return_type: None,
                                        body: Box::new(body),
                                    },
                                ),
                            ),
                            s3,
                        ),
                    }
                }
            },
        }
    } else {
        error_at(ts, st, "expected expression, found "@ + describe(peek(ts, st)))
    }
}

/// `{ key : value, ... }` — shared by map literals, annotations and switch.
pub open spec fn p_map_body(ts: Seq<SToken>, st: PState) -> PRes<Seq<SMapEntry>>
    decreases ts.len() - st.pos, 5int,
{
    if !in_range(ts, st) {
        stuck(st)
    } else {
        match p_expect(ts, st, SKind::LBrace) {
            (Err(e), s1) => (Err(e), s1),
            (Ok(_), s1) => if stalled(ts, st, s1) {
                stuck(s1)
            } else {
                match p_map_entries(ts, s1, Seq::empty()) {
                    (Err(e), s2) => (Err(e), s2),
                    (Ok(entries), s2) => match p_expect(ts, s2, SKind::RBrace) {
                        (Err(e), s3) => (Err(e), s3),
                        (Ok(_), s3) => (Ok(entries), s3),
                    },
                }
            },
        }
    }
}

/// `key : value` entries up to the closing `}`.
pub open spec fn p_map_entries(ts: Seq<SToken>, st: PState, acc: Seq<SMapEntry>) -> PRes<
    Seq<SMapEntry>,
>
    decreases ts.len() - st.pos, 110int,
{
    if !in_range(ts, st) {
        stuck(st)
    } else if peek(ts, st) is RBrace {
        (Ok(acc), st)
    } else {
        let start = span_at(ts, st);
        match p_expr(ts, st) {
            (Err(e), s1) => (Err(e), s1),
            (Ok(key), s1) => match p_expect(ts, s1, SKind::Colon) {
                (Err(e), s2) => (Err(e), s2),
                (Ok(_), s2) => if stalled(ts, st, s2) {
                    stuck(s2)
                } else {
                    match p_expr(ts, s2) {
                        (Err(e), s3) => (Err(e), s3),
                        (Ok(value), s3) => {
                            let acc2 = acc.push(SMapEntry { key, value, span: span_to(ts, start, s3) });
                            let (more, s4) = eat(ts, s3, SKind::Comma);
                            if !more {
                                (Ok(acc2), s4)
                            } else if stalled(ts, st, s4) {
                                stuck(s4)
                            } else {
                                p_map_entries(ts, s4, acc2)
                            }
                        },
                    }
                },
            },
        }
    }
}

/// A whole module: the tokens of `src` (doc comments kept), parsed.
pub open spec fn parse_module_spec(src: Seq<char>) -> Result<SModule, SParseError> {
    match lex_from(src, 0, true) {
        Err(e) => Err(e),
        Ok(ts) => p_module(ts, skip_docs(ts, PState { pos: 0, doc: None })).0,
    }
}

/// A single expression followed by the end of input (doc comments dropped).
pub open spec fn parse_expr_spec(src: Seq<char>) -> Result<SExpr, SParseError> {
    match lex_from(src, 0, false) {
        Err(e) => Err(e),
        Ok(ts) => {
            let st = skip_docs(ts, PState { pos: 0, doc: None });
            match p_expr(ts, st) {
                (Err(e), _) => Err(e),
                (Ok(x), s1) => match p_expect(ts, s1, SKind::Eof) {
                    (Err(e), _) => Err(e),
                    (Ok(_), _) => Ok(x),
                },
            }
        },
    }
}

// ---------------------------------------------------------------------------
// Facts about the token-stream helpers
// ---------------------------------------------------------------------------

pub proof fn lemma_skip_docs(ts: Seq<SToken>, st: PState)
    requires
        tokens_wf(ts),
        in_range(ts, st),
    ensures
        st.pos <= skip_docs(ts, st).pos < ts.len(),
        !(ts[skip_docs(ts, st).pos].kind is DocComment),
        !(ts[st.pos].kind is DocComment) ==> skip_docs(ts, st) == st,
    decreases ts.len() - st.pos,
{
    if let SKind::DocComment(t) = ts[st.pos].kind {
        lemma_skip_docs(ts, PState { pos: st.pos + 1, doc: Some(t) });
    }
}

pub proof fn lemma_advance(ts: Seq<SToken>, st: PState)
    requires
        tokens_wf(ts),
        in_range(ts, st),
    ensures
        st.pos <= advance(ts, st).pos < ts.len(),
        !(peek(ts, st) is Eof) ==> st.pos < advance(ts, st).pos,
{
    reveal(advance);
    let p = if ts[st.pos].kind is Eof {
        st.pos
    } else {
        st.pos + 1
    };
    lemma_skip_docs(ts, PState { pos: p, doc: None });
}

// ---------------------------------------------------------------------------
// Views of intermediate results
// ---------------------------------------------------------------------------

pub open spec fn doc_view(d: Option<String>) -> Option<Seq<char>> {
    match d {
        Some(s) => Some(s@),
        None => None,
    }
}

pub open spec fn unit_result(r: Result<(), ParseError>) -> Result<(), SParseError> {
    match r {
        Ok(_) => Ok(()),
        Err(e) => Err(e@),
    }
}

pub open spec fn params_result(r: ParseResult<Vec<Param>>) -> Result<Seq<SParam>, SParseError> {
    match r {
        Ok(v) => Ok(params_view(v@)),
        Err(e) => Err(e@),
    }
}

pub open spec fn entries_result(r: ParseResult<Vec<MapEntry>>) -> Result<
    Seq<SMapEntry>,
    SParseError,
> {
    match r {
        Ok(v) => Ok(entries_view(v@)),
        Err(e) => Err(e@),
    }
}

pub open spec fn exprs_result(r: ParseResult<Vec<Expr>>) -> Result<Seq<SExpr>, SParseError> {
    match r {
        Ok(v) => Ok(exprs_view(v@)),
        Err(e) => Err(e@),
    }
}

pub open spec fn header_result(r: ParseResult<VersionHeader>) -> Result<
    VersionHeader,
    SParseError,
> {
    match r {
        Ok(h) => Ok(h),
        Err(e) => Err(e@),
    }
}

pub open spec fn kind_result(r: ParseResult<StmtKind>) -> Result<SStmtKind, SParseError> {
    match r {
        Ok(k) => Ok(k@),
        Err(e) => Err(e@),
    }
}

/// The keyword a token kind is, if it is one.
pub open spec fn kw_of(k: SKind) -> Option<Keyword> {
    match k {
        SKind::Kw(kw) => Some(kw),
        _ => None,
    }
}

// ---------------------------------------------------------------------------
// The parser
// ---------------------------------------------------------------------------

/// A parser over a token sequence that ends with `Eof`.
pub struct Parser {
    tokens: Vec<Token>,
    pos: usize,
    /// Doc comment seen since the last real token was consumed.
    pending_doc: Option<String>,
}

impl Parser {
    /// The tokens, as views.
    pub closed spec fn toks(&self) -> Seq<SToken> {
        tokens_view(self.tokens@)
    }

    /// Where the parser stands.
    pub closed spec fn state(&self) -> PState {
        PState { pos: self.pos as int, doc: doc_view(self.pending_doc) }
    }

    pub closed spec fn wf(&self) -> bool {
        tokens_wf(self.toks()) && self.pos < self.tokens@.len()
    }

    /// `self` is `before` after some steps: same tokens, not moved back.
    pub closed spec fn follows(&self, before: Parser) -> bool {
        self.tokens@ == before.tokens@ && before.pos <= self.pos && self.wf()
    }

    /// A parser at the start of `tokens` (past leading doc comments). It
    /// never reads past the first `Eof`, so it keeps the tokens up to there.
    pub fn new(tokens: Vec<Token>) -> (p: Parser)
        requires
            exists|i: int| 0 <= i < tokens@.len() && (#[trigger] tokens_view(tokens@)[i]).kind is Eof,
        ensures
            p.wf(),
            p.toks() == up_to_eof(tokens_view(tokens@)),
            p.state() == skip_docs(p.toks(), PState { pos: 0, doc: None }),
    {
        let ghost ts = tokens_view(tokens@);
        let mut tokens = tokens;
        let n = tokens.len();
        let mut i: usize = 0;
        loop
            invariant
                tokens_view(tokens@) == ts,
                n == tokens@.len(),
                0 <= i < tokens@.len(),
                forall|j: int| 0 <= j < i ==> !((#[trigger] ts[j]).kind is Eof),
                exists|j: int| i <= j < tokens@.len() && (#[trigger] ts[j]).kind is Eof,
            ensures
                tokens_view(tokens@) == ts,
                n == tokens@.len(),
                0 <= i < tokens@.len(),
                is_first_eof(ts, i as int),
            decreases tokens@.len() - i,
        {
            let eof = match &tokens[i].kind {
                TokenKind::Eof => true,
                _ => false,
            };
            if eof {
                break;
            }
            i = i + 1;
        }
        proof {
            let c = choose|c: int| is_first_eof(ts, c);
            assert(is_first_eof(ts, c));
            if c < i {
                assert(!(ts[c].kind is Eof));
            }
            if c > i {
                assert(!(ts[i as int].kind is Eof));
            }
        }
        tokens.truncate(i + 1);
        proof {
            assert(tokens_view(tokens@) =~= ts.take(i + 1));
        }
        Parser::start(tokens)
    }

    /// A parser at the start of a token stream that ends with its `Eof`.
    fn start(tokens: Vec<Token>) -> (p: Parser)
        requires
            tokens_wf(tokens_view(tokens@)),
        ensures
            p.wf(),
            p.toks() == tokens_view(tokens@),
            p.state() == skip_docs(tokens_view(tokens@), PState { pos: 0, doc: None }),
    {
        let mut p = Parser { tokens, pos: 0, pending_doc: None };
        p.skip_docs();
        p
    }

    fn skip_docs(&mut self)
        requires
            old(self).wf(),
        ensures
            final(self).follows(*old(self)),
            final(self).state() == skip_docs(old(self).toks(), old(self).state()),
    {
        proof {
            lemma_skip_docs(self.toks(), self.state());
        }
        loop
            invariant
                self.follows(*old(self)),
                skip_docs(self.toks(), self.state()) == skip_docs(old(self).toks(), old(self).state()),
            ensures
                !(self.toks()[self.pos as int].kind is DocComment),
            decreases self.tokens@.len() - self.pos,
        {
            let text = match &self.tokens[self.pos].kind {
                TokenKind::DocComment(t) => Some(t.clone()),
                _ => None,
            };
            match text {
                Some(t) => {
                    let n = self.tokens.len();
                    proof {
                        assert(self.toks()[self.pos as int].kind is DocComment);
                        assert(self.toks().last().kind is Eof);
                        assert(self.pos + 1 < n);
                    }
                    self.pending_doc = Some(t);
                    self.pos = self.pos + 1;
                },
                None => {
                    break;
                },
            }
        }
        proof {
            lemma_skip_docs(self.toks(), self.state());
        }
    }

    fn peek_kind(&self) -> (k: &TokenKind)
        requires
            self.wf(),
        ensures
            k@ == peek(self.toks(), self.state()),
    {
        &self.tokens[self.pos].kind
    }

    /// The keyword at the current token, if it is one.
    fn peek_kw(&self) -> (k: Option<Keyword>)
        requires
            self.wf(),
        ensures
            k == kw_of(peek(self.toks(), self.state())),
    {
        match &self.tokens[self.pos].kind {
            TokenKind::Kw(k) => Some(*k),
            _ => None,
        }
    }

    fn span(&self) -> (s: Span)
        requires
            self.wf(),
        ensures
            s == span_at(self.toks(), self.state()),
    {
        self.tokens[self.pos].span
    }

    fn prev_span(&self) -> (s: Span)
        requires
            self.wf(),
        ensures
            s == prev_span(self.toks(), self.pos as int),
    {
        let mut i = self.pos;
        while i > 0
            invariant
                self.wf(),
                i <= self.pos,
                prev_span(self.toks(), i as int) == prev_span(self.toks(), self.pos as int),
            decreases i,
        {
            if let TokenKind::DocComment(_) = &self.tokens[i - 1].kind {
                i = i - 1;
            } else {
                return self.tokens[i - 1].span;
            }
        }
        self.tokens[0].span
    }

    /// The span from `start` to the last consumed token.
    fn span_to(&self, start: Span) -> (s: Span)
        requires
            self.wf(),
        ensures
            s == span_to(self.toks(), start, self.state()),
    {
        start.to(self.prev_span())
    }

    fn mk(&self, start: Span, kind: ExprKind) -> (e: Expr)
        requires
            self.wf(),
        ensures
            e@ == mk(self.toks(), start, self.state(), kind@),
    {
        Expr { kind, span: self.span_to(start) }
    }

    /// The `n`-th real token ahead (doc comments skipped), stopping at `Eof`.
    fn peek_nth(&self, n: usize) -> (k: &TokenKind)
        requires
            self.wf(),
        ensures
            k@ == peek_nth(self.toks(), self.state(), n as nat),
    {
        let mut i = self.pos;
        let mut remaining = n;
        loop
            invariant
                self.wf(),
                i < self.tokens@.len(),
                peek_nth_from(self.toks(), i as int, remaining as nat) == peek_nth(
                    self.toks(),
                    self.state(),
                    n as nat,
                ),
            decreases self.tokens@.len() - i,
        {
            let len = self.tokens.len();
            if let TokenKind::DocComment(_) = &self.tokens[i].kind {
                proof {
                    assert(self.toks()[i as int].kind is DocComment);
                    assert(self.toks().last().kind is Eof);
                    assert(i + 1 < len);
                }
                i = i + 1;
                continue ;
            }
            if remaining == 0 {
                return &self.tokens[i].kind;
            }
            if let TokenKind::Eof = &self.tokens[i].kind {
                return &self.tokens[i].kind;
            }
            proof {
                assert(!(self.toks()[i as int].kind is Eof));
                assert(self.toks().last().kind is Eof);
                assert(i + 1 < len);
            }
            remaining = remaining - 1;
            i = i + 1;
        }
    }

    /// Whether the `n`-th real token ahead can be an identifier.
    fn at_ident_nth(&self, n: usize) -> (b: bool)
        requires
            self.wf(),
        ensures
            b == (ident_text(peek_nth(self.toks(), self.state(), n as nat)) is Some),
    {
        match self.peek_nth(n) {
            TokenKind::Ident(_) => true,
            TokenKind::Kw(k) => k.is_soft(),
            _ => false,
        }
    }

    fn advance(&mut self)
        requires
            old(self).wf(),
        ensures
            final(self).follows(*old(self)),
            final(self).state() == advance(old(self).toks(), old(self).state()),
            !(peek(old(self).toks(), old(self).state()) is Eof) ==> old(self).pos
                < final(self).pos,
    {
        proof {
            reveal(advance);
        }
        proof {
            lemma_advance(self.toks(), self.state());
        }
        let n = self.tokens.len();
        if let TokenKind::Eof = &self.tokens[self.pos].kind {
        } else {
            proof {
                assert(!(self.toks()[self.pos as int].kind is Eof));
                assert(self.toks().last().kind is Eof);
                assert(self.pos + 1 < n);
            }
            self.pos = self.pos + 1;
        }
        self.pending_doc = None;
        self.skip_docs();
    }

    fn at(&self, kind: &TokenKind) -> (b: bool)
        requires
            self.wf(),
        ensures
            b == (peek(self.toks(), self.state()) == kind@),
    {
        self.peek_kind().same(kind)
    }

    fn at_kw(&self, kw: Keyword) -> (b: bool)
        requires
            self.wf(),
        ensures
            b == at_kw(self.toks(), self.state(), kw),
    {
        match self.peek_kind() {
            TokenKind::Kw(k) => *k == kw,
            _ => false,
        }
    }

    fn eat(&mut self, kind: &TokenKind) -> (b: bool)
        requires
            old(self).wf(),
        ensures
            final(self).follows(*old(self)),
            (b, final(self).state()) == eat(old(self).toks(), old(self).state(), kind@),
            b && !(kind@ is Eof) ==> old(self).state().pos < final(self).state().pos,
    {
        proof {
            reveal(eat);
        }
        if self.at(kind) {
            self.advance();
            true
        } else {
            false
        }
    }

    fn eat_kw(&mut self, kw: Keyword) -> (b: bool)
        requires
            old(self).wf(),
        ensures
            final(self).follows(*old(self)),
            (b, final(self).state()) == eat(old(self).toks(), old(self).state(), SKind::Kw(kw)),
            b ==> old(self).state().pos < final(self).state().pos,
    {
        proof {
            reveal(eat);
        }
        if self.at_kw(kw) {
            self.advance();
            true
        } else {
            false
        }
    }

    /// "`prefix`" followed by how diagnostics name the current token.
    fn found(&self, prefix: &str) -> (m: String)
        requires
            self.wf(),
        ensures
            m@ == prefix@ + describe(peek(self.toks(), self.state())),
    {
        let mut m = String::from_str(prefix);
        push_string(&mut m, &self.peek_kind().to_string());
        m
    }

    fn error_here(&self, message: String) -> (e: ParseError)
        requires
            self.wf(),
        ensures
            e@ == (SParseError { span: span_at(self.toks(), self.state()), message: message@ }),
    {
        ParseError::new(self.span(), message)
    }

    fn expect(&mut self, kind: &TokenKind) -> (r: Result<(), ParseError>)
        requires
            old(self).wf(),
        ensures
            final(self).follows(*old(self)),
            (unit_result(r), final(self).state()) == p_expect(
                old(self).toks(),
                old(self).state(),
                kind@,
            ),
            r is Ok && !(kind@ is Eof) ==> old(self).state().pos < final(self).state().pos,
    {
        proof {
            reveal(p_expect);
            reveal(error_at);
        }
        if self.at(kind) {
            self.advance();
            Ok(())
        } else {
            let mut m = String::from_str("expected ");
            push_string(&mut m, &kind.to_string());
            m.append(", found ");
            push_string(&mut m, &self.peek_kind().to_string());
            Err(self.error_here(m))
        }
    }

    fn expect_kw(&mut self, kw: Keyword) -> (r: Result<(), ParseError>)
        requires
            old(self).wf(),
        ensures
            final(self).follows(*old(self)),
            (unit_result(r), final(self).state()) == p_expect(
                old(self).toks(),
                old(self).state(),
                SKind::Kw(kw),
            ),
            r is Ok ==> old(self).state().pos < final(self).state().pos,
    {
        self.expect(&TokenKind::Kw(kw))
    }

    fn expect_ident(&mut self) -> (r: ParseResult<Ident>)
        requires
            old(self).wf(),
        ensures
            final(self).follows(*old(self)),
            (result_view(r), final(self).state()) == p_expect_ident(
                old(self).toks(),
                old(self).state(),
            ),
            r is Ok ==> old(self).state().pos < final(self).state().pos,
    {
        proof {
            reveal(p_expect_ident);
            reveal(error_at);
        }
        let name: Option<String> = match self.peek_kind() {
            TokenKind::Ident(s) => Some(s.clone()),
            TokenKind::Kw(k) => if k.is_soft() {
                Some(String::from_str(k.as_str()))
            } else {
                None
            },
            _ => None,
        };
        match name {
            Some(name) => {
                let span = self.span();
                self.advance();
                Ok(Ident { name, span })
            },
            None => Err(self.error_here(self.found("expected identifier, found "))),
        }
    }

    /// A type name after `is`, `as` or `returns`.
    fn type_ref(&mut self) -> (r: ParseResult<TypeRef>)
        requires
            old(self).wf(),
        ensures
            final(self).follows(*old(self)),
            (result_view(r), final(self).state()) == p_type_ref(
                old(self).toks(),
                old(self).state(),
            ),
            r is Ok ==> old(self).state().pos < final(self).state().pos,
    {
        proof {
            reveal(p_type_ref);
            reveal(error_at);
        }
        let name: Option<String> = match self.peek_kind() {
            TokenKind::Kw(Keyword::Function) => Some(String::from_str("function")),
            TokenKind::Kw(Keyword::Undefined) => Some(String::from_str("undefined")),
            TokenKind::Ident(s) => Some(s.clone()),
            TokenKind::Kw(k) => if k.is_soft() {
                Some(String::from_str(k.as_str()))
            } else {
                None
            },
            _ => None,
        };
        match name {
            Some(name) => {
                let span = self.span();
                self.advance();
                Ok(TypeRef { name, span })
            },
            None => Err(self.error_here(self.found("expected type name, found "))),
        }
    }
    #[verifier::spinoff_prover]
    pub fn expr(&mut self) -> (r: ParseResult<Expr>)
        requires
            old(self).wf(),
        ensures
            final(self).follows(*old(self)),
            r is Ok ==> old(self).state().pos < final(self).state().pos,
            (result_view(r), final(self).state()) == p_expr(old(self).toks(), old(self).state()),
        decreases old(self).toks().len() - old(self).state().pos, 100int,
    {
        self.assignment()
    }

    #[verifier::spinoff_prover]
    fn assignment(&mut self) -> (r: ParseResult<Expr>)
        requires
            old(self).wf(),
        ensures
            final(self).follows(*old(self)),
            r is Ok ==> old(self).state().pos < final(self).state().pos,
            (result_view(r), final(self).state()) == p_assignment(old(self).toks(), old(self).state()),
        decreases old(self).toks().len() - old(self).state().pos, 90int,
    {
        proof {
            reveal(error_at);
        }
        let start = self.span();
        let lhs = match self.ternary() {
            Ok(x) => x,
            Err(e) => return Err(e),
        };
        let op = match self.peek_kind() {
            TokenKind::Eq => AssignOp::Assign,
            TokenKind::PlusEq => AssignOp::Add,
            TokenKind::MinusEq => AssignOp::Sub,
            TokenKind::StarEq => AssignOp::Mul,
            TokenKind::SlashEq => AssignOp::Div,
            TokenKind::PercentEq => AssignOp::Mod,
            TokenKind::TildeEq => AssignOp::Concat,
            TokenKind::CaretEq => AssignOp::Pow,
            TokenKind::PipePipeEq => AssignOp::Or,
            TokenKind::AmpAmpEq => AssignOp::And,
            TokenKind::QuestionQuestionEq => AssignOp::Coalesce,
            _ => return Ok(lhs),
        };
        if !is_assignable(&lhs) {
            return Err(self.error_here(String::from_str("invalid assignment target")));
        }
        self.advance();
        let value = match self.assignment() {
            Ok(x) => x,
            Err(e) => return Err(e),
        };
        Ok(self.mk(start, ExprKind::Assign { op, target: Box::new(lhs), value: Box::new(value) }))
    }

    #[verifier::spinoff_prover]
    fn ternary(&mut self) -> (r: ParseResult<Expr>)
        requires
            old(self).wf(),
        ensures
            final(self).follows(*old(self)),
            r is Ok ==> old(self).state().pos < final(self).state().pos,
            (result_view(r), final(self).state()) == p_ternary(old(self).toks(), old(self).state()),
        decreases old(self).toks().len() - old(self).state().pos, 80int,
    {
        let start = self.span();
        let cond = match self.binary(0) {
            Ok(x) => x,
            Err(e) => return Err(e),
        };
        if !self.eat(&TokenKind::Question) {
            return Ok(cond);
        }
        let then = match self.assignment() {
            Ok(x) => x,
            Err(e) => return Err(e),
        };
        match self.expect(&TokenKind::Colon) {
            Ok(()) => {},
            Err(e) => return Err(e),
        }
        let else_ = match self.assignment() {
            Ok(x) => x,
            Err(e) => return Err(e),
        };
        Ok(
            self.mk(
                start,
                ExprKind::Ternary { cond: Box::new(cond), then: Box::new(then), else_: Box::new(else_) },
            ),
        )
    }

    #[verifier::spinoff_prover]
    #[verifier::loop_isolation(false)]
    fn binary(&mut self, min_level: u8) -> (r: ParseResult<Expr>)
        requires
            old(self).wf(),
        ensures
            final(self).follows(*old(self)),
            r is Ok ==> old(self).state().pos < final(self).state().pos,
            (result_view(r), final(self).state()) == p_binary(old(self).toks(), old(self).state(), min_level),
        decreases old(self).toks().len() - old(self).state().pos, 70int,
    {
        let start = self.span();
        let mut lhs = match self.unary() {
            Ok(x) => x,
            Err(e) => return Err(e),
        };
        loop
            invariant
                self.follows(*old(self)),
                old(self).pos < self.pos,
                p_binary(old(self).toks(), old(self).state(), min_level) == p_binary_loop(
                    old(self).toks(),
                    self.state(),
                    start,
                    lhs@,
                    min_level,
                ),
            decreases self.tokens@.len() - self.pos,
        {
            let (level, op) = match self.binary_op() {
                Some(x) => x,
                None => return Ok(lhs),
            };
            if level < min_level {
                return Ok(lhs);
            }
            self.advance();
            match op {
                BinOrType::Is => {
                    let ty = match self.type_ref() {
                        Ok(t) => t,
                        Err(e) => return Err(e),
                    };
                    lhs = self.mk(start, ExprKind::Is { expr: Box::new(lhs), ty });
                },
                BinOrType::As => {
                    let ty = match self.type_ref() {
                        Ok(t) => t,
                        Err(e) => return Err(e),
                    };
                    lhs = self.mk(start, ExprKind::As { expr: Box::new(lhs), ty });
                },
                BinOrType::Bin(bop) => {
                    // `^` is right-associative; everything else is left.
                    let next_min: u8 = if bop == BinaryOp::Pow {
                        level
                    } else {
                        level + 1
                    };
                    let rhs = match self.binary(next_min) {
                        Ok(x) => x,
                        Err(e) => return Err(e),
                    };
                    lhs = self.mk(start, ExprKind::Binary { op: bop, lhs: Box::new(lhs), rhs: Box::new(rhs) });
                },
            }
        }
    }

    #[verifier::spinoff_prover]
    fn unary(&mut self) -> (r: ParseResult<Expr>)
        requires
            old(self).wf(),
        ensures
            final(self).follows(*old(self)),
            r is Ok ==> old(self).state().pos < final(self).state().pos,
            (result_view(r), final(self).state()) == p_unary(old(self).toks(), old(self).state()),
        decreases old(self).toks().len() - old(self).state().pos, 60int,
    {
        let start = self.span();
        let op = match self.peek_kind() {
            TokenKind::Minus => Some(UnaryOp::Neg),
            TokenKind::Bang => Some(UnaryOp::Not),
            _ => None,
        };
        match op {
            Some(op) => {
                self.advance();
                let x = match self.unary() {
                    Ok(x) => x,
                    Err(e) => return Err(e),
                };
                Ok(self.mk(start, ExprKind::Unary { op, expr: Box::new(x) }))
            },
            None => self.postfix(),
        }
    }

    #[verifier::spinoff_prover]
    #[verifier::loop_isolation(false)]
    fn postfix(&mut self) -> (r: ParseResult<Expr>)
        requires
            old(self).wf(),
        ensures
            final(self).follows(*old(self)),
            r is Ok ==> old(self).state().pos < final(self).state().pos,
            (result_view(r), final(self).state()) == p_postfix(old(self).toks(), old(self).state()),
        decreases old(self).toks().len() - old(self).state().pos, 50int,
    {
        let start = self.span();
        let mut e = match self.primary() {
            Ok(x) => x,
            Err(err) => return Err(err),
        };
        loop
            invariant
                self.follows(*old(self)),
                old(self).pos < self.pos,
                p_postfix(old(self).toks(), old(self).state()) == p_postfix_loop(
                    old(self).toks(),
                    self.state(),
                    start,
                    e@,
                ),
            decreases self.tokens@.len() - self.pos,
        {
            match self.peek_kind() {
                TokenKind::Dot | TokenKind::QuestionDot => {
                    let safe = self.at(&TokenKind::QuestionDot);
                    self.advance();
                    let name = match self.expect_ident() {
                        Ok(n) => n,
                        Err(err) => return Err(err),
                    };
                    e = self.mk(start, ExprKind::Member { object: Box::new(e), name, safe });
                },
                TokenKind::LBracket => {
                    self.advance();
                    if self.eat(&TokenKind::RBracket) {
                        e = self.mk(start, ExprKind::Deref(Box::new(e)));
                    } else {
                        let index = match self.expr() {
                            Ok(x) => x,
                            Err(err) => return Err(err),
                        };
                        match self.expect(&TokenKind::RBracket) {
                            Ok(()) => {},
                            Err(err) => return Err(err),
                        }
                        e = self.mk(start, ExprKind::Index { object: Box::new(e), index: Box::new(index) });
                    }
                },
                TokenKind::LParen => {
                    let args = match self.call_args() {
                        Ok(a) => a,
                        Err(err) => return Err(err),
                    };
                    e = self.mk(start, ExprKind::Call { callee: Box::new(e), args });
                },
                TokenKind::Arrow => {
                    self.advance();
                    // The right-hand side is a callee (identifier, possibly with
                    // member access) followed by an argument list.
                    let c_start = self.span();
                    let callee = match self.primary() {
                        Ok(x) => x,
                        Err(err) => return Err(err),
                    };
                    e = match self.pipe_call(start, c_start, e, callee) {
                        Ok(x) => x,
                        Err(err) => return Err(err),
                    };
                },
                _ => return Ok(e),
            }
        }
    }

    #[verifier::spinoff_prover]
    #[verifier::loop_isolation(false)]
    fn pipe_call(&mut self, start: Span, c_start: Span, receiver: Expr, callee: Expr) -> (r: ParseResult<Expr>)
        requires
            old(self).wf(),
        ensures
            final(self).follows(*old(self)),
            r is Ok ==> old(self).state().pos < final(self).state().pos,
            (result_view(r), final(self).state()) == p_pipe_callee(old(self).toks(), old(self).state(), start, c_start, receiver@, callee@),
        decreases old(self).toks().len() - old(self).state().pos, 30int,
    {
        proof {
            reveal(error_at);
        }
        let ghost callee0 = callee@;
        let mut callee = callee;
        loop
            invariant
                self.follows(*old(self)),
                p_pipe_callee(old(self).toks(), old(self).state(), start, c_start, receiver@, callee0)
                    == p_pipe_callee(old(self).toks(), self.state(), start, c_start, receiver@, callee@),
            decreases self.tokens@.len() - self.pos,
        {
            if !self.at(&TokenKind::Dot) {
                break;
            }
            self.advance();
            let name = match self.expect_ident() {
                Ok(n) => n,
                Err(err) => return Err(err),
            };
            callee = self.mk(c_start, ExprKind::Member { object: Box::new(callee), name, safe: false });
        }
        if !self.at(&TokenKind::LParen) {
            return Err(self.error_here(String::from_str("expected call arguments after `->`")));
        }
        let args = match self.call_args() {
            Ok(a) => a,
            Err(err) => return Err(err),
        };
        let call = self.mk(c_start, ExprKind::Call { callee: Box::new(callee), args });
        Ok(self.mk(start, ExprKind::Pipe { receiver: Box::new(receiver), call: Box::new(call) }))
    }

    #[verifier::spinoff_prover]
    fn call_args(&mut self) -> (r: ParseResult<Vec<Expr>>)
        requires
            old(self).wf(),
        ensures
            final(self).follows(*old(self)),
            r is Ok ==> old(self).state().pos < final(self).state().pos,
            (exprs_result(r), final(self).state()) == p_call_args(old(self).toks(), old(self).state()),
        decreases old(self).toks().len() - old(self).state().pos, 5int,
    {
        match self.expect(&TokenKind::LParen) {
            Ok(()) => {},
            Err(e) => return Err(e),
        }
        let args = match self.expr_list(&TokenKind::RParen) {
            Ok(a) => a,
            Err(e) => return Err(e),
        };
        match self.expect(&TokenKind::RParen) {
            Ok(()) => {},
            Err(e) => return Err(e),
        }
        Ok(args)
    }

    #[verifier::spinoff_prover]
    #[verifier::loop_isolation(false)]
    fn expr_list(&mut self, close: &TokenKind) -> (r: ParseResult<Vec<Expr>>)
        requires
            old(self).wf(),
        ensures
            final(self).follows(*old(self)),
            (exprs_result(r), final(self).state()) == p_expr_list(old(self).toks(), old(self).state(), Seq::empty(), close@),
        decreases old(self).toks().len() - old(self).state().pos, 110int,
    {
        let mut items: Vec<Expr> = Vec::new();
        loop
            invariant
                self.follows(*old(self)),
                p_expr_list(old(self).toks(), old(self).state(), Seq::empty(), close@) == p_expr_list(
                    old(self).toks(),
                    self.state(),
                    exprs_view(items@),
                    close@,
                ),
            decreases self.tokens@.len() - self.pos,
        {
            if self.at(close) {
                return Ok(items);
            }
            let x = match self.expr() {
                Ok(x) => x,
                Err(e) => return Err(e),
            };
            proof {
                lemma_exprs_view_push(items@, x);
            }
            items.push(x);
            if !self.eat(&TokenKind::Comma) {
                return Ok(items);
            }
        }
    }

    #[verifier::spinoff_prover]
    fn lambda_body(&mut self) -> (r: ParseResult<LambdaBody>)
        requires
            old(self).wf(),
        ensures
            final(self).follows(*old(self)),
            r is Ok ==> old(self).state().pos < final(self).state().pos,
            (result_view(r), final(self).state()) == p_lambda_body(old(self).toks(), old(self).state()),
        decreases old(self).toks().len() - old(self).state().pos, 100int,
    {
        if self.at(&TokenKind::LBrace) && !self.brace_is_map_literal() {
            match self.block() {
                Ok(b) => Ok(LambdaBody::Block(b)),
                Err(e) => Err(e),
            }
        } else {
            match self.assignment() {
                Ok(x) => Ok(LambdaBody::Expr(x)),
                Err(e) => Err(e),
            }
        }
    }

    #[verifier::spinoff_prover]
    #[verifier::rlimit(80)]
    fn primary(&mut self) -> (r: ParseResult<Expr>)
        requires
            old(self).wf(),
        ensures
            final(self).follows(*old(self)),
            r is Ok ==> old(self).state().pos < final(self).state().pos,
            (result_view(r), final(self).state()) == p_primary(old(self).toks(), old(self).state()),
        decreases old(self).toks().len() - old(self).state().pos, 40int,
    {
        let start = self.span();
        match self.peek_kind() {
            TokenKind::Number(text) => {
                let text = text.clone();
                self.advance();
                if is_float_text(&text) {
                    Ok(self.mk(start, ExprKind::Number(text)))
                } else {
                    let mut m = String::from_str("invalid number `");
                    push_string(&mut m, &text);
                    m.append("`");
                    Err(ParseError::new(start, m))
                }
            },
            TokenKind::Str(s) => {
                let s = s.clone();
                self.advance();
                Ok(self.mk(start, ExprKind::Str(s)))
            },
            TokenKind::Kw(Keyword::True) => {
                self.advance();
                Ok(self.mk(start, ExprKind::Bool(true)))
            },
            TokenKind::Kw(Keyword::False) => {
                self.advance();
                Ok(self.mk(start, ExprKind::Bool(false)))
            },
            TokenKind::Kw(Keyword::Undefined) => {
                self.advance();
                Ok(self.mk(start, ExprKind::Undefined))
            },
            TokenKind::LParen => self.paren_expr(),
            TokenKind::LBracket => self.array_expr(),
            TokenKind::LBrace => {
                let entries = match self.map_body() {
                    Ok(v) => v,
                    Err(e) => return Err(e),
                };
                Ok(self.mk(start, ExprKind::MapLiteral(entries)))
            },
            TokenKind::Kw(Keyword::Function) => {
                self.advance();
                let sig = match self.function_sig() {
                    Ok(s) => s,
                    Err(e) => return Err(e),
                };
                Ok(self.mk(start, ExprKind::Function(sig)))
            },
            TokenKind::Kw(Keyword::Try) => self.try_expr(),
            TokenKind::Kw(Keyword::Switch) => {
                if self.peek_nth(1).same(&TokenKind::LParen) {
                    self.switch_expr()
                } else {
                    self.ident_or_lambda()
                }
            },
            TokenKind::Kw(Keyword::New) => {
                if self.at_ident_nth(1) {
                    self.new_expr()
                } else {
                    self.ident_or_lambda()
                }
            },
            _ => self.ident_or_lambda(),
        }
    }

    #[verifier::spinoff_prover]
    fn paren_expr(&mut self) -> (r: ParseResult<Expr>)
        requires
            old(self).wf(),
            !(peek(old(self).toks(), old(self).state()) is Eof),
        ensures
            final(self).follows(*old(self)),
            r is Ok ==> old(self).state().pos < final(self).state().pos,
            (result_view(r), final(self).state()) == p_paren_expr(old(self).toks(), old(self).state()),
        decreases old(self).toks().len() - old(self).state().pos, 35int,
    {
        if self.at_paren_lambda() {
            return self.lambda_expr();
        }
        let start = self.span();
        self.advance();
        let inner = match self.expr() {
            Ok(x) => x,
            Err(e) => return Err(e),
        };
        match self.expect(&TokenKind::RParen) {
            Ok(()) => {},
            Err(e) => return Err(e),
        }
        Ok(self.mk(start, ExprKind::Paren(Box::new(inner))))
    }

    #[verifier::spinoff_prover]
    fn lambda_expr(&mut self) -> (r: ParseResult<Expr>)
        requires
            old(self).wf(),
        ensures
            final(self).follows(*old(self)),
            r is Ok ==> old(self).state().pos < final(self).state().pos,
            (result_view(r), final(self).state()) == p_lambda_expr(old(self).toks(), old(self).state()),
        decreases old(self).toks().len() - old(self).state().pos, 30int,
    {
        let start = self.span();
        let params = match self.params() {
            Ok(p) => p,
            Err(e) => return Err(e),
        };
        let return_type = if self.eat_kw(Keyword::Returns) {
            match self.type_ref() {
                Ok(t) => Some(t),
                Err(e) => return Err(e),
            }
        } else {
            None
        };
        match self.expect(&TokenKind::FatArrow) {
            Ok(()) => {},
            Err(e) => return Err(e),
        }
        let body = match self.lambda_body() {
            Ok(b) => b,
            Err(e) => return Err(e),
        };
        Ok(self.mk(start, ExprKind::Lambda { params, return_type, body: Box::new(body) }))
    }

    #[verifier::spinoff_prover]
    fn array_expr(&mut self) -> (r: ParseResult<Expr>)
        requires
            old(self).wf(),
            !(peek(old(self).toks(), old(self).state()) is Eof),
        ensures
            final(self).follows(*old(self)),
            r is Ok ==> old(self).state().pos < final(self).state().pos,
            (result_view(r), final(self).state()) == p_array_expr(old(self).toks(), old(self).state()),
        decreases old(self).toks().len() - old(self).state().pos, 5int,
    {
        let start = self.span();
        self.advance();
        let items = match self.expr_list(&TokenKind::RBracket) {
            Ok(v) => v,
            Err(e) => return Err(e),
        };
        match self.expect(&TokenKind::RBracket) {
            Ok(()) => {},
            Err(e) => return Err(e),
        }
        Ok(self.mk(start, ExprKind::Array(items)))
    }

    #[verifier::spinoff_prover]
    fn try_expr(&mut self) -> (r: ParseResult<Expr>)
        requires
            old(self).wf(),
            !(peek(old(self).toks(), old(self).state()) is Eof),
        ensures
            final(self).follows(*old(self)),
            r is Ok ==> old(self).state().pos < final(self).state().pos,
            (result_view(r), final(self).state()) == p_try_expr(old(self).toks(), old(self).state()),
        decreases old(self).toks().len() - old(self).state().pos, 5int,
    {
        let start = self.span();
        self.advance();
        let silent = self.eat_kw(Keyword::Silent);
        match self.expect(&TokenKind::LParen) {
            Ok(()) => {},
            Err(e) => return Err(e),
        }
        let x = match self.expr() {
            Ok(x) => x,
            Err(e) => return Err(e),
        };
        match self.expect(&TokenKind::RParen) {
            Ok(()) => {},
            Err(e) => return Err(e),
        }
        Ok(self.mk(start, ExprKind::Try { silent, expr: Box::new(x) }))
    }

    #[verifier::spinoff_prover]
    fn switch_expr(&mut self) -> (r: ParseResult<Expr>)
        requires
            old(self).wf(),
        ensures
            final(self).follows(*old(self)),
            r is Ok ==> old(self).state().pos < final(self).state().pos,
            (result_view(r), final(self).state()) == p_switch_expr(old(self).toks(), old(self).state()),
        decreases old(self).toks().len() - old(self).state().pos, 5int,
    {
        let start = self.span();
        self.advance();
        match self.expect(&TokenKind::LParen) {
            Ok(()) => {},
            Err(e) => return Err(e),
        }
        let scrutinee = match self.expr() {
            Ok(x) => x,
            Err(e) => return Err(e),
        };
        match self.expect(&TokenKind::RParen) {
            Ok(()) => {},
            Err(e) => return Err(e),
        }
        let cases = match self.map_body() {
            Ok(v) => v,
            Err(e) => return Err(e),
        };
        Ok(self.mk(start, ExprKind::Switch { scrutinee: Box::new(scrutinee), cases }))
    }

    #[verifier::spinoff_prover]
    fn new_expr(&mut self) -> (r: ParseResult<Expr>)
        requires
            old(self).wf(),
            !(peek(old(self).toks(), old(self).state()) is Eof),
        ensures
            final(self).follows(*old(self)),
            r is Ok ==> old(self).state().pos < final(self).state().pos,
            (result_view(r), final(self).state()) == p_new_expr(old(self).toks(), old(self).state()),
        decreases old(self).toks().len() - old(self).state().pos, 5int,
    {
        let start = self.span();
        self.advance();
        let inner = match self.postfix() {
            Ok(x) => x,
            Err(e) => return Err(e),
        };
        Ok(self.mk(start, ExprKind::New(Box::new(inner))))
    }

    #[verifier::spinoff_prover]
    fn ident_or_lambda(&mut self) -> (r: ParseResult<Expr>)
        requires
            old(self).wf(),
        ensures
            final(self).follows(*old(self)),
            r is Ok ==> old(self).state().pos < final(self).state().pos,
            (result_view(r), final(self).state()) == p_ident_or_lambda(old(self).toks(), old(self).state()),
        decreases old(self).toks().len() - old(self).state().pos, 20int,
    {
        proof {
            reveal(error_at);
        }
        if !self.at_ident() {
            return Err(self.error_here(self.found("expected expression, found ")));
        }
        let start = self.span();
        let name = match self.expect_ident() {
            Ok(n) => n,
            Err(e) => return Err(e),
        };
        if !self.eat(&TokenKind::FatArrow) {
            return Ok(self.mk(start, ExprKind::Ident(name.name)));
        }
        let param = Param { span: name.span, name, ty: None };
        let body = match self.lambda_body() {
            Ok(b) => b,
            Err(e) => return Err(e),
        };
        let mut params: Vec<Param> = Vec::new();
        proof {
            lemma_params_view_push(params@, param);
            assert(params_view(Seq::<Param>::empty()) =~= Seq::<SParam>::empty());
        }
        params.push(param);
        Ok(self.mk(start, ExprKind::Lambda { params, return_type: None, body: Box::new(body) }))
    }

    #[verifier::spinoff_prover]
    #[verifier::loop_isolation(false)]
    fn map_body(&mut self) -> (r: ParseResult<Vec<MapEntry>>)
        requires
            old(self).wf(),
        ensures
            final(self).follows(*old(self)),
            r is Ok ==> old(self).state().pos < final(self).state().pos,
            (entries_result(r), final(self).state()) == p_map_body(old(self).toks(), old(self).state()),
        decreases old(self).toks().len() - old(self).state().pos, 5int,
    {
        match self.expect(&TokenKind::LBrace) {
            Ok(()) => {},
            Err(e) => return Err(e),
        }
        let ghost s1 = self.state();
        let mut entries: Vec<MapEntry> = Vec::new();
        loop
            invariant
                self.follows(*old(self)),
                old(self).pos < self.pos,
                p_map_entries(old(self).toks(), s1, Seq::empty()) == p_map_entries(
                    old(self).toks(),
                    self.state(),
                    entries_view(entries@),
                ),
            decreases self.tokens@.len() - self.pos,
        {
            if self.at(&TokenKind::RBrace) {
                break;
            }
            let start = self.span();
            let key = match self.expr() {
                Ok(x) => x,
                Err(e) => return Err(e),
            };
            match self.expect(&TokenKind::Colon) {
                Ok(()) => {},
                Err(e) => return Err(e),
            }
            let value = match self.expr() {
                Ok(x) => x,
                Err(e) => return Err(e),
            };
            let entry = MapEntry { key, value, span: self.span_to(start) };
            proof {
                lemma_entries_view_push(entries@, entry);
            }
            entries.push(entry);
            if !self.eat(&TokenKind::Comma) {
                break;
            }
        }
        match self.expect(&TokenKind::RBrace) {
            Ok(()) => {},
            Err(e) => return Err(e),
        }
        Ok(entries)
    }
    #[verifier::spinoff_prover]
    #[verifier::loop_isolation(false)]
    fn block(&mut self) -> (r: ParseResult<Block>)
        requires
            old(self).wf(),
        ensures
            final(self).follows(*old(self)),
            r is Ok ==> old(self).state().pos < final(self).state().pos,
            (result_view(r), final(self).state()) == p_block(old(self).toks(), old(self).state()),
        decreases old(self).toks().len() - old(self).state().pos, 5int,
    {
        proof {
            reveal(error_at);
        }
        let start = self.span();
        match self.expect(&TokenKind::LBrace) {
            Ok(()) => {},
            Err(e) => return Err(e),
        }
        let mut stmts: Vec<Stmt> = Vec::new();
        loop
            invariant
                self.follows(*old(self)),
                old(self).pos < self.pos,
                p_block(old(self).toks(), old(self).state()) == p_block_stmts(
                    old(self).toks(),
                    self.state(),
                    start,
                    stmts_view(stmts@),
                ),
            decreases self.tokens@.len() - self.pos,
        {
            if self.at(&TokenKind::RBrace) {
                match self.expect(&TokenKind::RBrace) {
                    Ok(()) => {},
                    Err(e) => return Err(e),
                }
                return Ok(Block { stmts, span: self.span_to(start) });
            }
            if self.at(&TokenKind::Eof) {
                return Err(self.error_here(String::from_str("unexpected end of file inside block")));
            }
            let s = match self.stmt() {
                Ok(x) => x,
                Err(e) => return Err(e),
            };
            proof {
                lemma_stmts_view_push(stmts@, s);
            }
            stmts.push(s);
        }
    }

    #[verifier::spinoff_prover]
    fn precondition_body(&mut self) -> (r: ParseResult<Block>)
        requires
            old(self).wf(),
        ensures
            final(self).follows(*old(self)),
            r is Ok ==> old(self).state().pos < final(self).state().pos,
            (result_view(r), final(self).state()) == p_precondition_body(old(self).toks(), old(self).state()),
        decreases old(self).toks().len() - old(self).state().pos, 140int,
    {
        if self.at(&TokenKind::LBrace) {
            return self.block();
        }
        let stmt = match self.stmt() {
            Ok(x) => x,
            Err(e) => return Err(e),
        };
        let span = stmt.span;
        let mut stmts: Vec<Stmt> = Vec::new();
        proof {
            lemma_stmts_view_push(stmts@, stmt);
            assert(stmts_view(Seq::<Stmt>::empty()) =~= Seq::<SStmt>::empty());
        }
        stmts.push(stmt);
        Ok(Block { stmts, span })
    }

    #[verifier::spinoff_prover]
    fn stmt(&mut self) -> (r: ParseResult<Stmt>)
        requires
            old(self).wf(),
        ensures
            final(self).follows(*old(self)),
            r is Ok ==> old(self).state().pos < final(self).state().pos,
            (result_view(r), final(self).state()) == p_stmt(old(self).toks(), old(self).state()),
        decreases old(self).toks().len() - old(self).state().pos, 130int,
    {
        let start = self.span();
        let annotation = if self.at_kw(Keyword::Annotation) {
            match self.annotation() {
                Ok(a) => Some(a),
                Err(e) => return Err(e),
            }
        } else {
            None
        };
        let kind = match self.stmt_kind(start) {
            Ok(x) => x,
            Err(e) => return Err(e),
        };
        Ok(Stmt { annotation, kind, span: self.span_to(start) })
    }

    #[verifier::spinoff_prover]
    #[verifier::rlimit(80)]
    fn stmt_kind(&mut self, start: Span) -> (r: ParseResult<StmtKind>)
        requires
            old(self).wf(),
        ensures
            final(self).follows(*old(self)),
            r is Ok ==> old(self).state().pos < final(self).state().pos,
            (kind_result(r), final(self).state()) == p_stmt_kind(old(self).toks(), old(self).state(), start),
        decreases old(self).toks().len() - old(self).state().pos, 120int,
    {
        match self.peek_kind() {
            TokenKind::LBrace => match self.block() {
                Ok(b) => Ok(StmtKind::Block(b)),
                Err(e) => Err(e),
            },
            TokenKind::Semi => {
                self.advance();
                Ok(StmtKind::Empty)
            },
            TokenKind::Kw(Keyword::Var) => {
                self.advance();
                match self.var_decl_rest(start) {
                    Ok(v) => Ok(StmtKind::Var(v)),
                    Err(e) => Err(e),
                }
            },
            TokenKind::Kw(Keyword::Const) => {
                self.advance();
                match self.var_decl_rest(start) {
                    Ok(v) => Ok(StmtKind::Const(v)),
                    Err(e) => Err(e),
                }
            },
            TokenKind::Kw(Keyword::If) => self.if_stmt(),
            TokenKind::Kw(Keyword::While) => self.while_stmt(),
            TokenKind::Kw(Keyword::For) => self.for_stmt(),
            TokenKind::Kw(Keyword::Break) => {
                self.advance();
                match self.expect(&TokenKind::Semi) {
                    Ok(()) => {},
                    Err(e) => return Err(e),
                }
                Ok(StmtKind::Break)
            },
            TokenKind::Kw(Keyword::Continue) => {
                self.advance();
                match self.expect(&TokenKind::Semi) {
                    Ok(()) => {},
                    Err(e) => return Err(e),
                }
                Ok(StmtKind::Continue)
            },
            TokenKind::Kw(Keyword::Return) => self.return_stmt(),
            TokenKind::Kw(Keyword::Throw) => self.throw_stmt(),
            // `try { ... }` / `try silent { ... }` are statements; `try(expr)`
            // and `try silent(expr)` are expressions and fall through.
            TokenKind::Kw(Keyword::Try) => {
                if self.try_is_statement() {
                    self.try_stmt()
                } else {
                    self.expr_stmt()
                }
            },
            _ => self.expr_stmt(),
        }
    }

    #[verifier::spinoff_prover]
    fn if_stmt(&mut self) -> (r: ParseResult<StmtKind>)
        requires
            old(self).wf(),
            !(peek(old(self).toks(), old(self).state()) is Eof),
        ensures
            final(self).follows(*old(self)),
            r is Ok ==> old(self).state().pos < final(self).state().pos,
            (kind_result(r), final(self).state()) == p_if_stmt(old(self).toks(), old(self).state()),
        decreases old(self).toks().len() - old(self).state().pos, 5int,
    {
        self.advance();
        match self.expect(&TokenKind::LParen) {
            Ok(()) => {},
            Err(e) => return Err(e),
        }
        let cond = match self.expr() {
            Ok(x) => x,
            Err(e) => return Err(e),
        };
        match self.expect(&TokenKind::RParen) {
            Ok(()) => {},
            Err(e) => return Err(e),
        }
        let then = match self.stmt() {
            Ok(x) => x,
            Err(e) => return Err(e),
        };
        let else_ = if self.eat_kw(Keyword::Else) {
            match self.stmt() {
                Ok(s) => Some(Box::new(s)),
                Err(e) => return Err(e),
            }
        } else {
            None
        };
        Ok(StmtKind::If { cond, then: Box::new(then), else_ })
    }

    #[verifier::spinoff_prover]
    fn while_stmt(&mut self) -> (r: ParseResult<StmtKind>)
        requires
            old(self).wf(),
            !(peek(old(self).toks(), old(self).state()) is Eof),
        ensures
            final(self).follows(*old(self)),
            r is Ok ==> old(self).state().pos < final(self).state().pos,
            (kind_result(r), final(self).state()) == p_while_stmt(old(self).toks(), old(self).state()),
        decreases old(self).toks().len() - old(self).state().pos, 5int,
    {
        self.advance();
        match self.expect(&TokenKind::LParen) {
            Ok(()) => {},
            Err(e) => return Err(e),
        }
        let cond = match self.expr() {
            Ok(x) => x,
            Err(e) => return Err(e),
        };
        match self.expect(&TokenKind::RParen) {
            Ok(()) => {},
            Err(e) => return Err(e),
        }
        let body = match self.stmt() {
            Ok(x) => x,
            Err(e) => return Err(e),
        };
        Ok(StmtKind::While { cond, body: Box::new(body) })
    }

    #[verifier::spinoff_prover]
    fn return_stmt(&mut self) -> (r: ParseResult<StmtKind>)
        requires
            old(self).wf(),
            !(peek(old(self).toks(), old(self).state()) is Eof),
        ensures
            final(self).follows(*old(self)),
            r is Ok ==> old(self).state().pos < final(self).state().pos,
            (kind_result(r), final(self).state()) == p_return_stmt(old(self).toks(), old(self).state()),
        decreases old(self).toks().len() - old(self).state().pos, 5int,
    {
        self.advance();
        let value = if self.at(&TokenKind::Semi) {
            None
        } else {
            match self.expr() {
                Ok(x) => Some(x),
                Err(e) => return Err(e),
            }
        };
        match self.expect(&TokenKind::Semi) {
            Ok(()) => {},
            Err(e) => return Err(e),
        }
        Ok(StmtKind::Return(value))
    }

    #[verifier::spinoff_prover]
    fn throw_stmt(&mut self) -> (r: ParseResult<StmtKind>)
        requires
            old(self).wf(),
            !(peek(old(self).toks(), old(self).state()) is Eof),
        ensures
            final(self).follows(*old(self)),
            r is Ok ==> old(self).state().pos < final(self).state().pos,
            (kind_result(r), final(self).state()) == p_throw_stmt(old(self).toks(), old(self).state()),
        decreases old(self).toks().len() - old(self).state().pos, 5int,
    {
        self.advance();
        let value = match self.expr() {
            Ok(x) => x,
            Err(e) => return Err(e),
        };
        match self.expect(&TokenKind::Semi) {
            Ok(()) => {},
            Err(e) => return Err(e),
        }
        Ok(StmtKind::Throw(value))
    }

    #[verifier::spinoff_prover]
    fn try_stmt(&mut self) -> (r: ParseResult<StmtKind>)
        requires
            old(self).wf(),
            !(peek(old(self).toks(), old(self).state()) is Eof),
        ensures
            final(self).follows(*old(self)),
            r is Ok ==> old(self).state().pos < final(self).state().pos,
            (kind_result(r), final(self).state()) == p_try_stmt(old(self).toks(), old(self).state()),
        decreases old(self).toks().len() - old(self).state().pos, 5int,
    {
        self.advance();
        let silent = self.eat_kw(Keyword::Silent);
        let body = match self.block() {
            Ok(x) => x,
            Err(e) => return Err(e),
        };
        if !self.at_kw(Keyword::Catch) {
            return Ok(StmtKind::Try { silent, body, catch: None });
        }
        let c_start = self.span();
        self.advance();
        let param = if self.eat(&TokenKind::LParen) {
            let p = match self.expect_ident() {
                Ok(p) => p,
                Err(e) => return Err(e),
            };
            match self.expect(&TokenKind::RParen) {
                Ok(()) => {},
                Err(e) => return Err(e),
            }
            Some(p)
        } else {
            None
        };
        let cbody = match self.block() {
            Ok(x) => x,
            Err(e) => return Err(e),
        };
        let catch = CatchClause { param, body: cbody, span: self.span_to(c_start) };
        Ok(StmtKind::Try { silent, body, catch: Some(catch) })
    }

    #[verifier::spinoff_prover]
    #[verifier::rlimit(80)]
    fn expr_stmt(&mut self) -> (r: ParseResult<StmtKind>)
        requires
            old(self).wf(),
        ensures
            final(self).follows(*old(self)),
            r is Ok ==> old(self).state().pos < final(self).state().pos,
            (kind_result(r), final(self).state()) == p_expr_stmt(old(self).toks(), old(self).state()),
        decreases old(self).toks().len() - old(self).state().pos, 110int,
    {
        let x = match self.expr() {
            Ok(x) => x,
            Err(e) => return Err(e),
        };
        match self.expect(&TokenKind::Semi) {
            Ok(()) => {},
            Err(e) => return Err(e),
        }
        Ok(StmtKind::Expr(x))
    }

    #[verifier::spinoff_prover]
    fn for_stmt(&mut self) -> (r: ParseResult<StmtKind>)
        requires
            old(self).wf(),
        ensures
            final(self).follows(*old(self)),
            r is Ok ==> old(self).state().pos < final(self).state().pos,
            (kind_result(r), final(self).state()) == p_for_stmt(old(self).toks(), old(self).state()),
        decreases old(self).toks().len() - old(self).state().pos, 5int,
    {
        match self.expect_kw(Keyword::For) {
            Ok(()) => {},
            Err(e) => return Err(e),
        }
        match self.expect(&TokenKind::LParen) {
            Ok(()) => {},
            Err(e) => return Err(e),
        }
        let init_start = self.span();
        // for-in: `var name in`, `var key, value in`, and (rarely) `name in`.
        let declared = self.at_kw(Keyword::Var) || self.at_kw(Keyword::Const);
        let off: usize = if declared {
            1
        } else {
            0
        };
        let in_follows = match self.peek_nth_plus(off, 1) {
            TokenKind::Kw(Keyword::In) => true,
            TokenKind::Comma => match self.peek_nth_plus(off, 3) {
                TokenKind::Kw(Keyword::In) => true,
                _ => false,
            },
            _ => false,
        };
        if in_follows && self.at_ident_nth(off) {
            self.for_in(declared)
        } else {
            self.for_c(init_start)
        }
    }

    #[verifier::spinoff_prover]
    fn for_in(&mut self, declared: bool) -> (r: ParseResult<StmtKind>)
        requires
            old(self).wf(),
        ensures
            final(self).follows(*old(self)),
            r is Ok ==> old(self).state().pos < final(self).state().pos,
            (kind_result(r), final(self).state()) == p_for_in(old(self).toks(), old(self).state(), declared),
        decreases old(self).toks().len() - old(self).state().pos, 110int,
    {
        if declared {
            self.advance();
        }
        let first = match self.expect_ident() {
            Ok(x) => x,
            Err(e) => return Err(e),
        };
        let (key, value) = if self.eat(&TokenKind::Comma) {
            let second = match self.expect_ident() {
                Ok(x) => x,
                Err(e) => return Err(e),
            };
            (Some(first), second)
        } else {
            (None, first)
        };
        match self.expect_kw(Keyword::In) {
            Ok(()) => {},
            Err(e) => return Err(e),
        }
        let iter = match self.expr() {
            Ok(x) => x,
            Err(e) => return Err(e),
        };
        match self.expect(&TokenKind::RParen) {
            Ok(()) => {},
            Err(e) => return Err(e),
        }
        let body = match self.stmt() {
            Ok(x) => x,
            Err(e) => return Err(e),
        };
        Ok(StmtKind::ForIn { declared, key, value, iter, body: Box::new(body) })
    }

    #[verifier::spinoff_prover]
    #[verifier::rlimit(80)]
    fn for_c(&mut self, init_start: Span) -> (r: ParseResult<StmtKind>)
        requires
            old(self).wf(),
        ensures
            final(self).follows(*old(self)),
            r is Ok ==> old(self).state().pos < final(self).state().pos,
            (kind_result(r), final(self).state()) == p_for_c(old(self).toks(), old(self).state(), init_start),
        decreases old(self).toks().len() - old(self).state().pos, 110int,
    {
        let init = if self.at(&TokenKind::Semi) {
            self.advance();
            None
        } else if self.at_kw(Keyword::Var) || self.at_kw(Keyword::Const) {
            self.advance();
            // `var_decl_rest` consumes the `;`.
            match self.var_decl_rest(init_start) {
                Ok(v) => Some(ForInit::Var(v)),
                Err(e) => return Err(e),
            }
        } else {
            let x = match self.expr() {
                Ok(x) => x,
                Err(e) => return Err(e),
            };
            match self.expect(&TokenKind::Semi) {
                Ok(()) => {},
                Err(e) => return Err(e),
            }
            Some(ForInit::Expr(x))
        };
        let cond = if self.at(&TokenKind::Semi) {
            None
        } else {
            match self.expr() {
                Ok(x) => Some(x),
                Err(e) => return Err(e),
            }
        };
        match self.expect(&TokenKind::Semi) {
            Ok(()) => {},
            Err(e) => return Err(e),
        }
        let step = if self.at(&TokenKind::RParen) {
            None
        } else {
            match self.expr() {
                Ok(x) => Some(x),
                Err(e) => return Err(e),
            }
        };
        match self.expect(&TokenKind::RParen) {
            Ok(()) => {},
            Err(e) => return Err(e),
        }
        let body = match self.stmt() {
            Ok(x) => x,
            Err(e) => return Err(e),
        };
        Ok(StmtKind::For { init, cond, step, body: Box::new(body) })
    }

    #[verifier::spinoff_prover]
    #[verifier::rlimit(80)]
    fn var_decl_rest(&mut self, start: Span) -> (r: ParseResult<VarDecl>)
        requires
            old(self).wf(),
        ensures
            final(self).follows(*old(self)),
            r is Ok ==> old(self).state().pos < final(self).state().pos,
            (result_view(r), final(self).state()) == p_var_decl_rest(old(self).toks(), old(self).state(), start),
        decreases old(self).toks().len() - old(self).state().pos, 5int,
    {
        let name = match self.expect_ident() {
            Ok(x) => x,
            Err(e) => return Err(e),
        };
        let ty = if self.eat_kw(Keyword::Is) {
            match self.type_ref() {
                Ok(t) => Some(t),
                Err(e) => return Err(e),
            }
        } else {
            None
        };
        let init = if self.eat(&TokenKind::Eq) {
            match self.expr() {
                Ok(x) => Some(x),
                Err(e) => return Err(e),
            }
        } else {
            None
        };
        match self.expect(&TokenKind::Semi) {
            Ok(()) => {},
            Err(e) => return Err(e),
        }
        Ok(VarDecl { name, ty, init, span: self.span_to(start) })
    }

    #[verifier::spinoff_prover]
    #[verifier::loop_isolation(false)]
    fn params(&mut self) -> (r: ParseResult<Vec<Param>>)
        requires
            old(self).wf(),
        ensures
            final(self).follows(*old(self)),
            r is Ok ==> old(self).state().pos < final(self).state().pos,
            (params_result(r), final(self).state()) == p_params(old(self).toks(), old(self).state()),
        decreases old(self).toks().len() - old(self).state().pos, 20int,
    {
        match self.expect(&TokenKind::LParen) {
            Ok(()) => {},
            Err(e) => return Err(e),
        }
        let ghost s1 = self.state();
        let mut params: Vec<Param> = Vec::new();
        loop
            invariant
                self.follows(*old(self)),
                old(self).pos < self.pos,
                p_params_list(old(self).toks(), s1, Seq::empty()) == p_params_list(
                    old(self).toks(),
                    self.state(),
                    params_view(params@),
                ),
            decreases self.tokens@.len() - self.pos,
        {
            if self.at(&TokenKind::RParen) {
                break;
            }
            let start = self.span();
            let name = match self.expect_ident() {
                Ok(x) => x,
                Err(e) => return Err(e),
            };
            let ty = if self.eat_kw(Keyword::Is) {
                match self.type_ref() {
                    Ok(t) => Some(t),
                    Err(e) => return Err(e),
                }
            } else {
                None
            };
            let param = Param { name, ty, span: self.span_to(start) };
            proof {
                lemma_params_view_push(params@, param);
            }
            params.push(param);
            if !self.eat(&TokenKind::Comma) {
                break;
            }
        }
        match self.expect(&TokenKind::RParen) {
            Ok(()) => {},
            Err(e) => return Err(e),
        }
        Ok(params)
    }

    #[verifier::spinoff_prover]
    fn function_sig(&mut self) -> (r: ParseResult<FunctionSig>)
        requires
            old(self).wf(),
        ensures
            final(self).follows(*old(self)),
            r is Ok ==> old(self).state().pos < final(self).state().pos,
            (result_view(r), final(self).state()) == p_function_sig(old(self).toks(), old(self).state()),
        decreases old(self).toks().len() - old(self).state().pos, 25int,
    {
        let start = self.span();
        let params = match self.params() {
            Ok(x) => x,
            Err(e) => return Err(e),
        };
        let return_type = if self.eat_kw(Keyword::Returns) {
            match self.type_ref() {
                Ok(t) => Some(t),
                Err(e) => return Err(e),
            }
        } else {
            None
        };
        let precondition = if self.eat_kw(Keyword::Precondition) {
            match self.precondition_body() {
                Ok(b) => Some(b),
                Err(e) => return Err(e),
            }
        } else {
            None
        };
        let body = match self.block() {
            Ok(x) => x,
            Err(e) => return Err(e),
        };
        Ok(FunctionSig { params, return_type, precondition, body, span: self.span_to(start) })
    }

    #[verifier::spinoff_prover]
    fn function_decl(&mut self) -> (r: ParseResult<FunctionDecl>)
        requires
            old(self).wf(),
        ensures
            final(self).follows(*old(self)),
            r is Ok ==> old(self).state().pos < final(self).state().pos,
            (result_view(r), final(self).state()) == p_function_decl(old(self).toks(), old(self).state()),
        decreases old(self).toks().len() - old(self).state().pos, 5int,
    {
        let start = self.span();
        match self.expect_kw(Keyword::Function) {
            Ok(()) => {},
            Err(e) => return Err(e),
        }
        let name = match self.expect_ident() {
            Ok(x) => x,
            Err(e) => return Err(e),
        };
        let sig = match self.function_sig() {
            Ok(x) => x,
            Err(e) => return Err(e),
        };
        Ok(FunctionDecl { name, sig, span: self.span_to(start) })
    }

    #[verifier::spinoff_prover]
    fn predicate_decl(&mut self) -> (r: ParseResult<PredicateDecl>)
        requires
            old(self).wf(),
        ensures
            final(self).follows(*old(self)),
            r is Ok ==> old(self).state().pos < final(self).state().pos,
            (result_view(r), final(self).state()) == p_predicate_decl(old(self).toks(), old(self).state()),
        decreases old(self).toks().len() - old(self).state().pos, 5int,
    {
        let start = self.span();
        match self.expect_kw(Keyword::Predicate) {
            Ok(()) => {},
            Err(e) => return Err(e),
        }
        let name = match self.expect_ident() {
            Ok(x) => x,
            Err(e) => return Err(e),
        };
        let params = match self.params() {
            Ok(x) => x,
            Err(e) => return Err(e),
        };
        let precondition = if self.eat_kw(Keyword::Precondition) {
            match self.precondition_body() {
                Ok(b) => Some(b),
                Err(e) => return Err(e),
            }
        } else {
            None
        };
        let body = match self.block() {
            Ok(x) => x,
            Err(e) => return Err(e),
        };
        Ok(PredicateDecl { name, params, precondition, body, span: self.span_to(start) })
    }

    #[verifier::spinoff_prover]
    #[verifier::rlimit(80)]
    fn operator_decl(&mut self) -> (r: ParseResult<OperatorDecl>)
        requires
            old(self).wf(),
        ensures
            final(self).follows(*old(self)),
            r is Ok ==> old(self).state().pos < final(self).state().pos,
            (result_view(r), final(self).state()) == p_operator_decl(old(self).toks(), old(self).state()),
        decreases old(self).toks().len() - old(self).state().pos, 5int,
    {
        proof {
            reveal(error_at);
        }
        let start = self.span();
        match self.expect_kw(Keyword::Operator) {
            Ok(()) => {},
            Err(e) => return Err(e),
        }
        let symbol = match self.peek_kind() {
            TokenKind::Plus => "+",
            TokenKind::Minus => "-",
            TokenKind::Star => "*",
            TokenKind::Slash => "/",
            TokenKind::Percent => "%",
            TokenKind::Caret => "^",
            TokenKind::Tilde => "~",
            TokenKind::Bang => "!",
            TokenKind::EqEq => "==",
            TokenKind::BangEq => "!=",
            TokenKind::Lt => "<",
            TokenKind::LtEq => "<=",
            TokenKind::Gt => ">",
            TokenKind::GtEq => ">=",
            _ => return Err(self.error_here(self.found("expected operator symbol, found "))),
        };
        let op = String::from_str(symbol);
        self.advance();
        let sig = match self.function_sig() {
            Ok(x) => x,
            Err(e) => return Err(e),
        };
        Ok(OperatorDecl { op, sig, span: self.span_to(start) })
    }

    #[verifier::spinoff_prover]
    #[verifier::loop_isolation(false)]
    fn enum_decl(&mut self) -> (r: ParseResult<EnumDecl>)
        requires
            old(self).wf(),
        ensures
            final(self).follows(*old(self)),
            r is Ok ==> old(self).state().pos < final(self).state().pos,
            (result_view(r), final(self).state()) == p_enum_decl(old(self).toks(), old(self).state()),
        decreases old(self).toks().len() - old(self).state().pos, 5int,
    {
        let start = self.span();
        match self.expect_kw(Keyword::Enum) {
            Ok(()) => {},
            Err(e) => return Err(e),
        }
        let name = match self.expect_ident() {
            Ok(x) => x,
            Err(e) => return Err(e),
        };
        match self.expect(&TokenKind::LBrace) {
            Ok(()) => {},
            Err(e) => return Err(e),
        }
        let ghost s3 = self.state();
        let mut members: Vec<EnumMember> = Vec::new();
        loop
            invariant
                self.follows(*old(self)),
                old(self).pos < self.pos,
                p_enum_members(old(self).toks(), s3, Seq::empty()) == p_enum_members(
                    old(self).toks(),
                    self.state(),
                    members_view(members@),
                ),
            decreases self.tokens@.len() - self.pos,
        {
            if self.at(&TokenKind::RBrace) {
                break;
            }
            let doc0 = self.pending_doc.take();
            let m_start = self.span();
            let annotation = if self.at_kw(Keyword::Annotation) {
                match self.annotation() {
                    Ok(a) => Some(a),
                    Err(e) => return Err(e),
                }
            } else {
                None
            };
            let doc = match self.pending_doc.take() {
                Some(d) => Some(d),
                None => doc0,
            };
            let mname = match self.expect_ident() {
                Ok(x) => x,
                Err(e) => return Err(e),
            };
            let member = EnumMember { doc, annotation, name: mname, span: self.span_to(m_start) };
            proof {
                lemma_members_view_push(members@, member);
            }
            members.push(member);
            if !self.eat(&TokenKind::Comma) {
                break;
            }
        }
        match self.expect(&TokenKind::RBrace) {
            Ok(()) => {},
            Err(e) => return Err(e),
        }
        // Some files terminate the enum with `;`, most don't.
        self.eat(&TokenKind::Semi);
        Ok(EnumDecl { name, members, span: self.span_to(start) })
    }

    #[verifier::spinoff_prover]
    fn annotation(&mut self) -> (r: ParseResult<Annotation>)
        requires
            old(self).wf(),
        ensures
            final(self).follows(*old(self)),
            r is Ok ==> old(self).state().pos < final(self).state().pos,
            (result_view(r), final(self).state()) == p_annotation(old(self).toks(), old(self).state()),
        decreases old(self).toks().len() - old(self).state().pos, 5int,
    {
        let start = self.span();
        match self.expect_kw(Keyword::Annotation) {
            Ok(()) => {},
            Err(e) => return Err(e),
        }
        let entries = match self.map_body() {
            Ok(x) => x,
            Err(e) => return Err(e),
        };
        Ok(Annotation { entries, span: self.span_to(start) })
    }

    #[verifier::spinoff_prover]
    #[verifier::loop_isolation(false)]
    fn import(&mut self) -> (r: ParseResult<Import>)
        requires
            old(self).wf(),
        ensures
            final(self).follows(*old(self)),
            r is Ok ==> old(self).state().pos < final(self).state().pos,
            (result_view(r), final(self).state()) == p_import(old(self).toks(), old(self).state()),
        decreases old(self).toks().len() - old(self).state().pos, 5int,
    {
        let start = self.span();
        match self.expect_kw(Keyword::Import) {
            Ok(()) => {},
            Err(e) => return Err(e),
        }
        match self.expect(&TokenKind::LParen) {
            Ok(()) => {},
            Err(e) => return Err(e),
        }
        let ghost s2 = self.state();
        let mut args: Vec<NamedArg> = Vec::new();
        loop
            invariant
                self.follows(*old(self)),
                old(self).pos < self.pos,
                p_import_args(old(self).toks(), s2, Seq::empty()) == p_import_args(
                    old(self).toks(),
                    self.state(),
                    named_args_view(args@),
                ),
            decreases self.tokens@.len() - self.pos,
        {
            if self.at(&TokenKind::RParen) {
                break;
            }
            let a_start = self.span();
            let name = match self.expect_ident() {
                Ok(x) => x,
                Err(e) => return Err(e),
            };
            match self.expect(&TokenKind::Colon) {
                Ok(()) => {},
                Err(e) => return Err(e),
            }
            let value = match self.expr() {
                Ok(x) => x,
                Err(e) => return Err(e),
            };
            let arg = NamedArg { name, value, span: self.span_to(a_start) };
            proof {
                lemma_named_args_view_push(args@, arg);
            }
            args.push(arg);
            if !self.eat(&TokenKind::Comma) {
                break;
            }
        }
        match self.expect(&TokenKind::RParen) {
            Ok(()) => {},
            Err(e) => return Err(e),
        }
        match self.expect(&TokenKind::Semi) {
            Ok(()) => {},
            Err(e) => return Err(e),
        }
        Ok(Import { args, span: self.span_to(start) })
    }

    #[verifier::spinoff_prover]
    fn type_decl(&mut self) -> (r: ParseResult<TypeDecl>)
        requires
            old(self).wf(),
        ensures
            final(self).follows(*old(self)),
            r is Ok ==> old(self).state().pos < final(self).state().pos,
            (result_view(r), final(self).state()) == p_type_decl(old(self).toks(), old(self).state()),
    {
        let start = self.span();
        match self.expect_kw(Keyword::Type) {
            Ok(()) => {},
            Err(e) => return Err(e),
        }
        let name = match self.expect_ident() {
            Ok(x) => x,
            Err(e) => return Err(e),
        };
        let typecheck = if self.eat_kw(Keyword::Typecheck) {
            match self.expect_ident() {
                Ok(i) => Some(i),
                Err(e) => return Err(e),
            }
        } else {
            None
        };
        match self.expect(&TokenKind::Semi) {
            Ok(()) => {},
            Err(e) => return Err(e),
        }
        Ok(TypeDecl { name, typecheck, span: self.span_to(start) })
    }

    #[verifier::spinoff_prover]
    fn item(&mut self) -> (r: ParseResult<Item>)
        requires
            old(self).wf(),
        ensures
            final(self).follows(*old(self)),
            r is Ok ==> old(self).state().pos < final(self).state().pos,
            (result_view(r), final(self).state()) == p_item(old(self).toks(), old(self).state()),
        decreases old(self).toks().len() - old(self).state().pos, 50int,
    {
        let doc0 = self.pending_doc.take();
        let start = self.span();
        let annotation = if self.at_kw(Keyword::Annotation) {
            match self.annotation() {
                Ok(a) => Some(a),
                Err(e) => return Err(e),
            }
        } else {
            None
        };
        // A doc comment may also sit between the annotation and the declaration.
        let doc = match self.pending_doc.take() {
            Some(d) => Some(d),
            None => doc0,
        };
        let export = self.eat_kw(Keyword::Export);
        let kind = match self.item_kind(start) {
            Ok(x) => x,
            Err(e) => return Err(e),
        };
        Ok(Item { doc, annotation, export, kind, span: self.span_to(start) })
    }

    #[verifier::spinoff_prover]
    fn item_kind(&mut self, start: Span) -> (r: ParseResult<ItemKind>)
        requires
            old(self).wf(),
        ensures
            final(self).follows(*old(self)),
            r is Ok ==> old(self).state().pos < final(self).state().pos,
            (result_view(r), final(self).state()) == p_item_kind(old(self).toks(), old(self).state(), start),
        decreases old(self).toks().len() - old(self).state().pos, 45int,
    {
        proof {
            reveal(error_at);
        }
        match self.peek_kw() {
            Some(Keyword::Import) => match self.import() {
                Ok(x) => Ok(ItemKind::Import(x)),
                Err(e) => Err(e),
            },
            Some(Keyword::Function) => match self.function_decl() {
                Ok(x) => Ok(ItemKind::Function(x)),
                Err(e) => Err(e),
            },
            Some(Keyword::Predicate) => match self.predicate_decl() {
                Ok(x) => Ok(ItemKind::Predicate(x)),
                Err(e) => Err(e),
            },
            Some(Keyword::Operator) => match self.operator_decl() {
                Ok(x) => Ok(ItemKind::Operator(x)),
                Err(e) => Err(e),
            },
            Some(Keyword::Type) => match self.type_decl() {
                Ok(x) => Ok(ItemKind::Type(x)),
                Err(e) => Err(e),
            },
            Some(Keyword::Enum) => match self.enum_decl() {
                Ok(x) => Ok(ItemKind::Enum(x)),
                Err(e) => Err(e),
            },
            Some(Keyword::Const) => {
                self.advance();
                match self.var_decl_rest(start) {
                    Ok(x) => Ok(ItemKind::Const(x)),
                    Err(e) => Err(e),
                }
            },
            Some(Keyword::Var) => {
                self.advance();
                match self.var_decl_rest(start) {
                    Ok(x) => Ok(ItemKind::Var(x)),
                    Err(e) => Err(e),
                }
            },
            _ => Err(self.error_here(self.found("expected a declaration, found "))),
        }
    }

    #[verifier::spinoff_prover]
    fn version_header(&mut self) -> (r: ParseResult<VersionHeader>)
        requires
            old(self).wf(),
        ensures
            final(self).follows(*old(self)),
            r is Ok ==> old(self).state().pos < final(self).state().pos,
            (header_result(r), final(self).state()) == p_version_header(old(self).toks(), old(self).state()),
    {
        proof {
            reveal(error_at);
        }
        let start = self.span();
        match self.expect_kw(Keyword::FeatureScript) {
            Ok(()) => {},
            Err(e) => return Err(e),
        }
        let version = match self.peek_kind() {
            TokenKind::Number(n) => {
                let n = n.clone();
                self.advance();
                if !is_float_text(&n) {
                    return Err(ParseError::new(start, String::from_str("invalid version number")));
                }
                Version::Number(version_number(&n))
            },
            TokenKind::Sparkle => {
                self.advance();
                Version::Sparkle
            },
            _ => {
                return Err(
                    self.error_here(self.found("expected version number after `FeatureScript`, found ")),
                );
            },
        };
        match self.expect(&TokenKind::Semi) {
            Ok(()) => {},
            Err(e) => return Err(e),
        }
        Ok(VersionHeader { version, span: self.span_to(start) })
    }

    #[verifier::spinoff_prover]
    #[verifier::loop_isolation(false)]
    pub fn module(&mut self) -> (r: ParseResult<Module>)
        requires
            old(self).wf(),
        ensures
            final(self).follows(*old(self)),
            (result_view(r), final(self).state()) == p_module(old(self).toks(), old(self).state()),
    {
        let start = self.span();
        let header = if self.at_kw(Keyword::FeatureScript) {
            match self.version_header() {
                Ok(h) => Some(h),
                Err(e) => return Err(e),
            }
        } else {
            None
        };
        let ghost s1 = self.state();
        let mut items: Vec<Item> = Vec::new();
        loop
            invariant
                self.follows(*old(self)),
                p_module_items(old(self).toks(), s1, start, header, Seq::empty()) == p_module_items(
                    old(self).toks(),
                    self.state(),
                    start,
                    header,
                    items_view(items@),
                ),
            decreases self.tokens@.len() - self.pos,
        {
            if self.at(&TokenKind::Eof) {
                break;
            }
            let it = match self.item() {
                Ok(x) => x,
                Err(e) => return Err(e),
            };
            proof {
                lemma_items_view_push(items@, it);
            }
            items.push(it);
        }
        Ok(Module { header, items, span: self.span_to(start) })
    }
    /// Whether the current token can be an identifier.
    fn at_ident(&self) -> (b: bool)
        requires
            self.wf(),
        ensures
            b == (ident_text(peek(self.toks(), self.state())) is Some),
    {
        match self.peek_kind() {
            TokenKind::Ident(_) => true,
            TokenKind::Kw(k) => k.is_soft(),
            _ => false,
        }
    }

    /// The `(i + k)`-th real token ahead, for a small `k`.
    fn peek_nth_plus(&self, i: usize, k: usize) -> (t: &TokenKind)
        requires
            self.wf(),
            k <= 3,
        ensures
            t@ == peek_nth(self.toks(), self.state(), (i + k) as nat),
    {
        let rest = self.tokens.len() - self.pos;
        if i >= rest || k >= rest - i {
            proof {
                lemma_peek_nth_past_end(self.toks(), self.pos as int, (i + k) as nat);
                lemma_peek_nth_past_end(self.toks(), self.pos as int, rest as nat);
            }
            self.peek_nth(rest)
        } else {
            self.peek_nth(i + k)
        }
    }

    /// Binary precedence level of the current token, if it is a binary operator.
    fn binary_op(&self) -> (r: Option<(u8, BinOrType)>)
        requires
            self.wf(),
        ensures
            r == binary_op_of(peek(self.toks(), self.state())),
    {
        match self.peek_kind() {
            TokenKind::PipePipe => Some((1, BinOrType::Bin(BinaryOp::Or))),
            TokenKind::QuestionQuestion => Some((1, BinOrType::Bin(BinaryOp::Coalesce))),
            TokenKind::AmpAmp => Some((2, BinOrType::Bin(BinaryOp::And))),
            TokenKind::EqEq => Some((3, BinOrType::Bin(BinaryOp::Eq))),
            TokenKind::BangEq => Some((3, BinOrType::Bin(BinaryOp::Ne))),
            TokenKind::Lt => Some((4, BinOrType::Bin(BinaryOp::Lt))),
            TokenKind::LtEq => Some((4, BinOrType::Bin(BinaryOp::Le))),
            TokenKind::Gt => Some((4, BinOrType::Bin(BinaryOp::Gt))),
            TokenKind::GtEq => Some((4, BinOrType::Bin(BinaryOp::Ge))),
            TokenKind::Tilde => Some((5, BinOrType::Bin(BinaryOp::Concat))),
            TokenKind::Plus => Some((6, BinOrType::Bin(BinaryOp::Add))),
            TokenKind::Minus => Some((6, BinOrType::Bin(BinaryOp::Sub))),
            TokenKind::Star => Some((7, BinOrType::Bin(BinaryOp::Mul))),
            TokenKind::Slash => Some((7, BinOrType::Bin(BinaryOp::Div))),
            TokenKind::Percent => Some((7, BinOrType::Bin(BinaryOp::Mod))),
            TokenKind::Caret => Some((8, BinOrType::Bin(BinaryOp::Pow))),
            TokenKind::Kw(Keyword::Is) => Some((9, BinOrType::Is)),
            TokenKind::Kw(Keyword::As) => Some((9, BinOrType::As)),
            _ => None,
        }
    }

    /// `try { ... }` and `try silent { ... }` are statements.
    fn try_is_statement(&self) -> (b: bool)
        requires
            self.wf(),
        ensures
            b == try_is_statement(self.toks(), self.state()),
    {
        match self.peek_nth(1) {
            TokenKind::LBrace => true,
            TokenKind::Kw(Keyword::Silent) => match self.peek_nth(2) {
                TokenKind::LBrace => true,
                _ => false,
            },
            _ => false,
        }
    }

    /// Does the token stream at `(` look like `(a, b is Type, c) =>`?
    fn at_paren_lambda(&self) -> (b: bool)
        requires
            self.wf(),
        ensures
            b == at_paren_lambda(self.toks(), self.state()),
    {
        let rest = self.tokens.len() - self.pos;
        let mut i: usize = 1;
        loop
            invariant
                self.wf(),
                rest == self.tokens@.len() - self.pos,
                1 <= i,
                paren_lambda_scan(self.toks(), self.state(), i as nat) == at_paren_lambda(
                    self.toks(),
                    self.state(),
                ),
            decreases rest - i,
        {
            if i >= rest {
                proof {
                    lemma_peek_nth_past_end(self.toks(), self.pos as int, i as nat);
                }
                return false;
            }
            match self.peek_nth(i) {
                TokenKind::RParen => {
                    return match self.peek_nth_plus(i, 1) {
                        TokenKind::FatArrow => true,
                        TokenKind::Kw(Keyword::Returns) => match self.peek_nth_plus(i, 3) {
                            TokenKind::FatArrow => true,
                            _ => false,
                        },
                        _ => false,
                    };
                },
                TokenKind::Ident(_) => {},
                TokenKind::Kw(k) => {
                    if !k.is_soft() {
                        return false;
                    }
                },
                _ => {
                    return false;
                },
            }
            let typed = match self.peek_nth_plus(i, 1) {
                TokenKind::Kw(Keyword::Is) => true,
                _ => false,
            };
            let jump: usize = if typed {
                3
            } else {
                1
            };
            match self.peek_nth_plus(i, jump) {
                TokenKind::Comma => {
                    if jump >= rest - i {
                        proof {
                            lemma_peek_nth_past_end(self.toks(), self.pos as int, (i + jump) as nat);
                        }
                        return false;
                    }
                    i = i + jump + 1;
                },
                TokenKind::RParen => {
                    if jump >= rest - i {
                        proof {
                            lemma_peek_nth_past_end(self.toks(), self.pos as int, (i + jump) as nat);
                        }
                        return false;
                    }
                    i = i + jump;
                },
                _ => {
                    return false;
                },
            }
        }
    }

    /// Heuristic lookahead at a `{`: scan to the first top-level `:` (map)
    /// or `;` (block), ignoring `:` that pairs with a `?`.
    fn brace_is_map_literal(&self) -> (b: bool)
        requires
            self.wf(),
        ensures
            b == brace_is_map_literal(self.toks(), self.state()),
    {
        match self.peek_nth(1) {
            TokenKind::RBrace => {
                return true;
            },
            TokenKind::Kw(k) => {
                let kw = *k;
                if !kw.is_soft() && !(kw == Keyword::True || kw == Keyword::False || kw
                    == Keyword::Undefined || kw == Keyword::Function || kw == Keyword::Try) {
                    return false;
                }
            },
            _ => {},
        }
        let rest = self.tokens.len() - self.pos;
        let mut depth: usize = 0;
        let mut open: usize = 0;
        let mut i: usize = 1;
        loop
            invariant
                self.wf(),
                rest == self.tokens@.len() - self.pos,
                1 <= i,
                depth < i,
                open < i,
                brace_is_map_literal(self.toks(), self.state()) == map_scan(
                    self.toks(),
                    self.state(),
                    1,
                    0,
                    0,
                ),
                map_scan(self.toks(), self.state(), i as nat, depth as int, open as int)
                    == map_scan(self.toks(), self.state(), 1, 0, 0),
            decreases rest - i,
        {
            if i >= rest {
                proof {
                    lemma_peek_nth_past_end(self.toks(), self.pos as int, i as nat);
                }
                return false;
            }
            match self.peek_nth(i) {
                TokenKind::Eof => {
                    return false;
                },
                TokenKind::LParen | TokenKind::LBracket | TokenKind::LBrace => {
                    depth = depth + 1;
                },
                TokenKind::RParen | TokenKind::RBracket | TokenKind::RBrace => {
                    if depth == 0 {
                        return false;
                    }
                    depth = depth - 1;
                },
                TokenKind::Question => {
                    if depth == 0 {
                        open = open + 1;
                    }
                },
                TokenKind::Colon => {
                    if depth == 0 {
                        if open > 0 {
                            open = open - 1;
                        } else {
                            return true;
                        }
                    }
                },
                TokenKind::Semi => {
                    if depth == 0 {
                        return false;
                    }
                },
                TokenKind::Eq | TokenKind::PlusEq | TokenKind::MinusEq | TokenKind::StarEq
                | TokenKind::SlashEq | TokenKind::PercentEq | TokenKind::CaretEq
                | TokenKind::TildeEq | TokenKind::PipePipeEq | TokenKind::AmpAmpEq
                | TokenKind::QuestionQuestionEq => {
                    if depth == 0 {
                        return false;
                    }
                },
                _ => {},
            }
            i = i + 1;
        }
    }
}

/// Targets an assignment may have.
fn is_assignable(e: &Expr) -> (b: bool)
    ensures
        b == assignable(e@),
    decreases e,
{
    match &e.kind {
        ExprKind::Ident(_) | ExprKind::Member { .. } | ExprKind::Index { .. } | ExprKind::Deref(
            _,
        ) => true,
        ExprKind::Paren(inner) => is_assignable(inner),
        _ => false,
    }
}

pub proof fn lemma_peek_nth_past_end(ts: Seq<SToken>, i: int, n: nat)
    requires
        tokens_wf(ts),
        0 <= i < ts.len(),
        n >= ts.len() - i,
    ensures
        peek_nth_from(ts, i, n) is Eof,
    decreases ts.len() - i,
{
    if ts[i].kind is DocComment {
        lemma_peek_nth_past_end(ts, i + 1, n);
    } else if !(ts[i].kind is Eof) {
        lemma_peek_nth_past_end(ts, i + 1, (n - 1) as nat);
    }
}

/// Parse a complete FeatureScript module.
pub fn parse_module(src: &str) -> (r: ParseResult<Module>)
    ensures
        result_view(r) == parse_module_spec(src@),
{
    let tokens = match Lexer::new(src).keep_doc_comments(true).tokenize() {
        Ok(t) => t,
        Err(e) => return Err(e),
    };
    let mut p = Parser::start(tokens);
    p.module()
}

/// Parse a single expression (useful for tests and REPL-style tools).
pub fn parse_expr(src: &str) -> (r: ParseResult<Expr>)
    ensures
        result_view(r) == parse_expr_spec(src@),
{
    let tokens = match Lexer::new(src).keep_doc_comments(false).tokenize() {
        Ok(t) => t,
        Err(e) => return Err(e),
    };
    let mut p = Parser::start(tokens);
    let e = match p.expr() {
        Ok(e) => e,
        Err(err) => return Err(err),
    };
    match p.expect(&TokenKind::Eof) {
        Ok(()) => Ok(e),
        Err(err) => Err(err),
    }
}

} // verus!
