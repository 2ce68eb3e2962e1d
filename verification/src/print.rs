//! Pretty-printer: turns a syntax tree back into FeatureScript source.
//!
//! Output is canonical rather than faithful (ordinary comments are dropped,
//! spacing is normalized, every binary sub-expression is parenthesized as
//! needed by precedence). Its main job is testing: parsing the printed text
//! of a parsed file gives the same tree again (up to spans).
//!
//! What the printer writes is given by spec functions over the views of the
//! tree. Each takes the text written so far and returns it extended with one
//! construct (`pr_expr(o, e, ind)` is `o` followed by `e` printed at
//! indentation level `ind`), in the order the printer writes; every method of
//! the printer is proved to extend its output exactly so.

use crate::ast::{
    assign_symbol, binary_symbol, SAnnotation, SBlock, SEnumMember, SExpr, SExprKind,
    SForInit, SFunctionSig, SItem, SItemKind, SLambdaBody, SMapEntry, SModule, SNamedArg,
    SParam, SStmt, SStmtKind, STypeRef, SVarDecl,
};
use crate::ast::{
    Annotation, BinaryOp, Block, EnumMember, Expr, ExprKind, ForInit, FunctionSig, Item,
    ItemKind, LambdaBody, MapEntry, Module, NamedArg, Param, Stmt, StmtKind, UnaryOp, VarDecl,
    Version, VersionHeader,
};
use crate::lexer::{lex_string, string_body, LexErr, Step};
use crate::text::{decimal, decimal_string, push_char, push_string};
use crate::token::SKind;
use vstd::prelude::*;

verus! {

// ---------------------------------------------------------------------------
// What gets printed
// ---------------------------------------------------------------------------

/// One indentation level deeper (saturating).
pub open spec fn deeper(ind: usize) -> usize {
    if ind < usize::MAX {
        (ind + 1) as usize
    } else {
        ind
    }
}

/// Four spaces per indentation level.
pub open spec fn pad(ind: nat) -> Seq<char>
    decreases ind,
{
    if ind == 0 {
        Seq::empty()
    } else {
        pad((ind - 1) as nat) + "    "@
    }
}

/// `o`, then a line break and the indentation of level `ind`.
pub open spec fn newline(o: Seq<char>, ind: usize) -> Seq<char> {
    o + seq!['\n'] + pad(ind as nat)
}

/// Precedence of an expression's outermost operator (higher binds tighter);
/// mirrors the table of the parser.
pub open spec fn prec_of(e: SExpr) -> u8 {
    match e.kind {
        SExprKind::Assign { .. } => 1,
        SExprKind::Ternary { .. } => 2,
        SExprKind::Lambda { .. } => 2,
        SExprKind::Binary { op, .. } => binary_prec(op),
        SExprKind::Is { .. } | SExprKind::As { .. } => 11,
        SExprKind::Unary { .. } => 12,
        _ => 13,
    }
}

pub open spec fn binary_prec(op: BinaryOp) -> u8 {
    match op {
        BinaryOp::Or | BinaryOp::Coalesce => 3,
        BinaryOp::And => 4,
        BinaryOp::Eq | BinaryOp::Ne => 5,
        BinaryOp::Lt | BinaryOp::Le | BinaryOp::Gt | BinaryOp::Ge => 6,
        BinaryOp::Concat => 7,
        BinaryOp::Add | BinaryOp::Sub => 8,
        BinaryOp::Mul | BinaryOp::Div | BinaryOp::Mod => 9,
        BinaryOp::Pow => 10,
    }
}

/// `o`, then `", "` when `more` holds (the separator of listed items).
pub open spec fn comma(o: Seq<char>, more: bool) -> Seq<char> {
    if more {
        o + ", "@
    } else {
        o
    }
}

/// How one character of a string literal is written.
pub open spec fn escape_char(c: char) -> Seq<char> {
    if c == '"' {
        seq!['\\', '"']
    } else if c == '\\' {
        seq!['\\', '\\']
    } else if c == '\n' {
        seq!['\\', 'n']
    } else if c == '\t' {
        seq!['\\', 't']
    } else if c == '\r' {
        seq!['\\', 'r']
    } else {
        seq![c]
    }
}

/// The escaped text of a string literal.
pub open spec fn escaped(s: Seq<char>) -> Seq<char>
    decreases s.len(),
{
    if s.len() == 0 {
        Seq::empty()
    } else {
        escaped(s.drop_last()) + escape_char(s.last())
    }
}

/// A string literal in double quotes.
pub open spec fn quoted(s: Seq<char>) -> Seq<char> {
    seq!['"'] + escaped(s) + seq!['"']
}

/// `o`, then `" <word> T"` for a present type.
pub open spec fn type_suffix(o: Seq<char>, word: Seq<char>, t: Option<STypeRef>) -> Seq<char> {
    match t {
        Some(t) => o + " "@ + word + " "@ + t.name,
        None => o,
    }
}

/// Parameters separated by `, `.
pub open spec fn pr_param_list(o: Seq<char>, ps: Seq<SParam>) -> Seq<char>
    decreases ps.len(),
{
    if ps.len() == 0 {
        o
    } else {
        type_suffix(
            comma(pr_param_list(o, ps.drop_last()), ps.len() > 1) + ps.last().name.name,
            "is"@,
            ps.last().ty,
        )
    }
}

pub open spec fn pr_params(o: Seq<char>, ps: Seq<SParam>) -> Seq<char> {
    pr_param_list(o + "("@, ps) + ")"@
}

pub open spec fn pr_doc(o: Seq<char>, doc: Option<Seq<char>>, ind: usize) -> Seq<char> {
    match doc {
        Some(d) => newline(o + "/**"@ + d + "*/"@, ind),
        None => o,
    }
}

/// The `FeatureScript <version>;` line, if there is a header.
pub open spec fn pr_header(o: Seq<char>, h: Option<VersionHeader>) -> Seq<char> {
    match h {
        Some(h) => match h.version {
            Version::Number(n) => newline(o + "FeatureScript "@ + decimal(n as nat) + ";"@, 0),
            Version::Sparkle => newline(o + "FeatureScript \u{2728};"@, 0),
        },
        None => o,
    }
}

/// Items, each followed by a line break.
pub open spec fn pr_items(o: Seq<char>, items: Seq<SItem>) -> Seq<char>
    decreases items.len(),
{
    if items.len() == 0 {
        o
    } else {
        newline(pr_item(pr_items(o, items.drop_last()), items.last(), 0), 0)
    }
}

/// A whole module.
pub open spec fn pr_module(o: Seq<char>, m: SModule) -> Seq<char> {
    pr_items(pr_header(o, m.header), m.items)
}

pub open spec fn pr_annotation(o: Seq<char>, a: SAnnotation, ind: usize) -> Seq<char>
    decreases a, 3int,
{
    newline(pr_map_entries(o + "annotation "@, a.entries, ind), ind)
}

pub open spec fn pr_opt_annotation(o: Seq<char>, a: Option<SAnnotation>, ind: usize) -> Seq<
    char,
>
    decreases a, 4int,
{
    match a {
        Some(x) => pr_annotation(o, x, ind),
        None => o,
    }
}

pub open spec fn pr_item(o: Seq<char>, it: SItem, ind: usize) -> Seq<char>
    decreases it, 5int,
{
    let o1 = pr_opt_annotation(pr_doc(o, it.doc, ind), it.annotation, ind);
    let o2 = if it.export {
        o1 + "export "@
    } else {
        o1
    };
    pr_item_kind(o2, it.kind, ind)
}

pub open spec fn pr_item_kind(o: Seq<char>, k: SItemKind, ind: usize) -> Seq<char>
    decreases k, 4int,
{
    match k {
        SItemKind::Import(i) => pr_named_args(o + "import("@, i.args, ind) + ");"@,
        SItemKind::Function(f) => pr_sig(o + "function "@ + f.name.name, f.sig, ind),
        SItemKind::Operator(x) => pr_sig(o + "operator"@ + x.op, x.sig, ind),
        SItemKind::Predicate(p) => pr_block(
            newline(
                pr_precondition(pr_params(o + "predicate "@ + p.name.name, p.params), p.precondition, ind),
                ind,
            ),
            p.body,
            ind,
        ),
        SItemKind::Type(t) => (match t.typecheck {
            Some(tc) => o + "type "@ + t.name.name + " typecheck "@ + tc.name,
            None => o + "type "@ + t.name.name,
        }) + ";"@,
        SItemKind::Enum(e) => newline(
            pr_members(newline(o + "enum "@ + e.name.name, ind) + "{"@, e.members, e.members.len(), deeper(ind)),
            ind,
        ) + "}"@,
        SItemKind::Const(v) => pr_var_decl(o + "const "@, v, ind),
        SItemKind::Var(v) => pr_var_decl(o + "var "@, v, ind),
    }
}

/// `name : value` import arguments separated by `, `.
pub open spec fn pr_named_args(o: Seq<char>, args: Seq<SNamedArg>, ind: usize) -> Seq<char>
    decreases args, 0int,
{
    if args.len() == 0 {
        o
    } else {
        pr_expr(
            comma(pr_named_args(o, args.drop_last(), ind), args.len() > 1) + args.last().name.name
                + " : "@,
            args.last().value,
            ind,
        )
    }
}

/// Enum members, each on its own line, all but the last of `total` followed by `,`.
pub open spec fn pr_members(o: Seq<char>, ms: Seq<SEnumMember>, total: nat, ind: usize) -> Seq<
    char,
>
    decreases ms, 0int,
{
    if ms.len() == 0 {
        o
    } else {
        let m = ms.last();
        let o1 = pr_opt_annotation(
            pr_doc(newline(pr_members(o, ms.drop_last(), total, ind), ind), m.doc, ind),
            m.annotation,
            ind,
        ) + m.name.name;
        if ms.len() < total {
            o1 + ","@
        } else {
            o1
        }
    }
}

pub open spec fn pr_precondition(o: Seq<char>, pre: Option<SBlock>, ind: usize) -> Seq<char>
    decreases pre, 3int,
{
    match pre {
        Some(b) => pr_block(newline(newline(o, ind) + "precondition"@, ind), b, ind),
        None => o,
    }
}

pub open spec fn pr_sig(o: Seq<char>, sig: SFunctionSig, ind: usize) -> Seq<char>
    decreases sig, 4int,
{
    pr_block(
        newline(
            pr_precondition(
                type_suffix(pr_params(o, sig.params), "returns"@, sig.return_type),
                sig.precondition,
                ind,
            ),
            ind,
        ),
        sig.body,
        ind,
    )
}

pub open spec fn pr_var_decl(o: Seq<char>, v: SVarDecl, ind: usize) -> Seq<char>
    decreases v, 3int,
{
    let o1 = type_suffix(o + v.name.name, "is"@, v.ty);
    (match v.init {
        Some(e) => pr_expr(o1 + " = "@, e, ind),
        None => o1,
    }) + ";"@
}

pub open spec fn pr_block(o: Seq<char>, b: SBlock, ind: usize) -> Seq<char>
    decreases b, 2int,
{
    newline(pr_stmts(o + "{"@, b.stmts, deeper(ind)), ind) + "}"@
}

/// Statements, each on its own line.
pub open spec fn pr_stmts(o: Seq<char>, ss: Seq<SStmt>, ind: usize) -> Seq<char>
    decreases ss, 1int,
{
    if ss.len() == 0 {
        o
    } else {
        pr_stmt(newline(pr_stmts(o, ss.drop_last(), ind), ind), ss.last(), ind)
    }
}

/// A statement in body position (after `if (...)`, `for (...)` etc.).
pub open spec fn pr_body(o: Seq<char>, s: SStmt, ind: usize) -> Seq<char>
    decreases s, 1int,
{
    pr_stmt(newline(o, deeper(ind)), s, deeper(ind))
}

pub open spec fn pr_stmt(o: Seq<char>, s: SStmt, ind: usize) -> Seq<char>
    decreases s, 0int,
{
    pr_stmt_kind(pr_opt_annotation(o, s.annotation, ind), s.kind, ind)
}

/// `o`, then `prefix` and the expression, if there is one.
pub open spec fn pr_opt_expr(o: Seq<char>, prefix: Seq<char>, e: Option<SExpr>, ind: usize) -> Seq<
    char,
>
    decreases e, 3int,
{
    match e {
        Some(x) => pr_expr(o + prefix, x, ind),
        None => o,
    }
}

pub open spec fn pr_stmt_kind(o: Seq<char>, k: SStmtKind, ind: usize) -> Seq<char>
    decreases k, 4int,
{
    match k {
        SStmtKind::Var(v) => pr_var_decl(o + "var "@, v, ind),
        SStmtKind::Const(v) => pr_var_decl(o + "const "@, v, ind),
        SStmtKind::Expr(e) => pr_expr(o, e, ind) + ";"@,
        SStmtKind::Block(b) => pr_block(o, b, ind),
        SStmtKind::If { cond, then, else_ } => {
            let o1 = pr_body(pr_expr(o + "if ("@, cond, ind) + ")"@, *then, ind);
            match else_ {
                Some(e) => pr_body(newline(o1, ind) + "else"@, *e, ind),
                None => o1,
            }
        },
        SStmtKind::For { init, cond, step, body } => {
            let o1 = match init {
                Some(SForInit::Var(v)) => pr_var_decl(o + "for ("@ + "var "@, v, ind),
                Some(SForInit::Expr(e)) => pr_expr(o + "for ("@, e, ind) + ";"@,
                None => o + "for ("@ + ";"@,
            };
            pr_body(
                pr_opt_expr(pr_opt_expr(o1, " "@, cond, ind) + ";"@, " "@, step, ind) + ")"@,
                *body,
                ind,
            )
        },
        SStmtKind::ForIn { declared, key, value, iter, body } => {
            let o1 = if declared {
                o + "for ("@ + "var "@
            } else {
                o + "for ("@
            };
            let o2 = match key {
                Some(k) => o1 + k.name + ", "@,
                None => o1,
            };
            pr_body(pr_expr(o2 + value.name + " in "@, iter, ind) + ")"@, *body, ind)
        },
        SStmtKind::While { cond, body } => pr_body(
            pr_expr(o + "while ("@, cond, ind) + ")"@,
            *body,
            ind,
        ),
        SStmtKind::Break => o + "break;"@,
        SStmtKind::Continue => o + "continue;"@,
        SStmtKind::Return(None) => o + "return;"@,
        SStmtKind::Return(Some(e)) => pr_expr(o + "return "@, e, ind) + ";"@,
        SStmtKind::Throw(e) => pr_expr(o + "throw "@, e, ind) + ";"@,
        SStmtKind::Try { silent, body, catch } => {
            let o1 = pr_block(
                newline(
                    if silent {
                        o + "try silent"@
                    } else {
                        o + "try"@
                    },
                    ind,
                ),
                body,
                ind,
            );
            match catch {
                Some(c) => {
                    let o2 = newline(o1, ind) + "catch"@;
                    let o3 = match c.param {
                        Some(p) => o2 + " ("@ + p.name + ")"@,
                        None => o2,
                    };
                    pr_block(newline(o3, ind), c.body, ind)
                },
                None => o1,
            }
        },
        SStmtKind::Empty => o + ";"@,
    }
}

/// `{ k : v, ... }`, or `{}` when empty.
pub open spec fn pr_map_entries(o: Seq<char>, es: Seq<SMapEntry>, ind: usize) -> Seq<char>
    decreases es, 2int,
{
    if es.len() == 0 {
        o + "{}"@
    } else {
        pr_entry_list(o + "{ "@, es, ind) + "}"@
    }
}

pub open spec fn pr_entry_list(o: Seq<char>, es: Seq<SMapEntry>, ind: usize) -> Seq<char>
    decreases es, 1int,
{
    if es.len() == 0 {
        o
    } else {
        pr_expr(
            pr_expr(comma(pr_entry_list(o, es.drop_last(), ind), es.len() > 1), es.last().key, ind)
                + " : "@,
            es.last().value,
            ind,
        )
    }
}

/// Expressions separated by `, `.
pub open spec fn pr_expr_list(o: Seq<char>, es: Seq<SExpr>, ind: usize) -> Seq<char>
    decreases es, 1int,
{
    if es.len() == 0 {
        o
    } else {
        pr_expr(comma(pr_expr_list(o, es.drop_last(), ind), es.len() > 1), es.last(), ind)
    }
}

/// `e`, parenthesized if it binds looser than `min`.
pub open spec fn pr_sub(o: Seq<char>, e: SExpr, min: u8, ind: usize) -> Seq<char>
    decreases e, 2int,
{
    if prec_of(e) < min {
        pr_expr(o + "("@, e, ind) + ")"@
    } else {
        pr_expr(o, e, ind)
    }
}

pub open spec fn pr_expr(o: Seq<char>, e: SExpr, ind: usize) -> Seq<char>
    decreases e, 1int,
{
    match e.kind {
        SExprKind::Number(n) => o + n,
        SExprKind::Str(s) => o + quoted(s),
        SExprKind::Bool(b) => if b {
            o + "true"@
        } else {
            o + "false"@
        },
        SExprKind::Undefined => o + "undefined"@,
        SExprKind::Ident(name) => o + name,
        SExprKind::Array(items) => pr_expr_list(o + "["@, items, ind) + "]"@,
        SExprKind::MapLiteral(entries) => pr_map_entries(o, entries, ind),
        SExprKind::Paren(inner) => pr_expr(o + "("@, *inner, ind) + ")"@,
        SExprKind::Unary { op, expr } => pr_sub(
            match op {
                UnaryOp::Neg => o + "-"@,
                UnaryOp::Not => o + "!"@,
            },
            *expr,
            12,
            ind,
        ),
        SExprKind::Binary { op, lhs, rhs } => {
            let p = binary_prec(op);
            // Left-assoc: rhs needs one more; `^` is right-assoc.
            let lmin: u8 = if op == BinaryOp::Pow {
                (p + 1) as u8
            } else {
                p
            };
            let rmin: u8 = if op == BinaryOp::Pow {
                p
            } else {
                (p + 1) as u8
            };
            pr_sub(pr_sub(o, *lhs, lmin, ind) + " "@ + binary_symbol(op) + " "@, *rhs, rmin, ind)
        },
        SExprKind::Assign { op, target, value } => pr_sub(
            pr_sub(o, *target, 13, ind) + " "@ + assign_symbol(op) + " "@,
            *value,
            1,
            ind,
        ),
        SExprKind::Ternary { cond, then, else_ } => pr_sub(
            pr_sub(pr_sub(o, *cond, 3, ind) + " ? "@, *then, 1, ind) + " : "@,
            *else_,
            1,
            ind,
        ),
        SExprKind::Is { expr, ty } => pr_sub(o, *expr, 11, ind) + " is "@ + ty.name,
        SExprKind::As { expr, ty } => pr_sub(o, *expr, 11, ind) + " as "@ + ty.name,
        SExprKind::Member { object, name, safe } => (if safe {
            pr_sub(o, *object, 13, ind) + "?."@
        } else {
            pr_sub(o, *object, 13, ind) + "."@
        }) + name.name,
        SExprKind::Index { object, index } => pr_expr(pr_sub(o, *object, 13, ind) + "["@, *index, ind)
            + "]"@,
        SExprKind::Deref(inner) => pr_sub(o, *inner, 13, ind) + "[]"@,
        SExprKind::Call { callee, args } => pr_expr_list(pr_sub(o, *callee, 13, ind) + "("@, args, ind)
            + ")"@,
        SExprKind::Pipe { receiver, call } => pr_expr(pr_sub(o, *receiver, 13, ind) + " -> "@, *call, ind),
        SExprKind::Lambda { params, return_type, body } => pr_lambda_body(
            type_suffix(pr_params(o, params), "returns"@, return_type) + " => "@,
            *body,
            ind,
        ),
        SExprKind::Function(sig) => pr_sig(o + "function"@, sig, ind),
        SExprKind::Try { silent, expr } => pr_expr(
            if silent {
                o + "try silent("@
            } else {
                o + "try("@
            },
            *expr,
            ind,
        ) + ")"@,
        SExprKind::Switch { scrutinee, cases } => pr_map_entries(
            pr_expr(o + "switch ("@, *scrutinee, ind) + ") "@,
            cases,
            ind,
        ),
        SExprKind::New(inner) => pr_expr(o + "new "@, *inner, ind),
    }
}

pub open spec fn pr_lambda_body(o: Seq<char>, b: SLambdaBody, ind: usize) -> Seq<char>
    decreases b, 3int,
{
    match b {
        SLambdaBody::Expr(e) => pr_sub(o, e, 1, ind),
        SLambdaBody::Block(blk) => pr_block(o, blk, ind),
    }
}


// ---------------------------------------------------------------------------
// Reading printed text back
// ---------------------------------------------------------------------------

/// Escaping a concatenation escapes each part.
pub proof fn lemma_escaped_concat(a: Seq<char>, b: Seq<char>)
    ensures
        escaped(a + b) == escaped(a) + escaped(b),
    decreases b.len(),
{
    if b.len() == 0 {
        assert(a + b =~= a);
        assert(escaped(a) + escaped(b) =~= escaped(a));
    } else {
        lemma_escaped_concat(a, b.drop_last());
        assert((a + b).drop_last() =~= a + b.drop_last());
        assert((a + b).last() == b.last());
        assert(escaped(a) + escaped(b.drop_last()) + escape_char(b.last()) =~= escaped(a) + (
        escaped(b.drop_last()) + escape_char(b.last())));
    }
}

/// The lexer decodes the escaped text of `s` at `q`, up to the closing quote,
/// into `s`, wherever the literal started.
pub proof fn lemma_string_body_reads_escaped(
    t: Seq<char>,
    start: int,
    q: int,
    s: Seq<char>,
    acc: Seq<char>,
)
    requires
        0 <= q,
        q + escaped(s).len() < t.len(),
        t.subrange(q, q + escaped(s).len()) == escaped(s),
        t[q + escaped(s).len()] == '"',
    ensures
        string_body(t, start, '"', q, acc) == Ok::<(Seq<char>, int), LexErr>(
            (acc + s, q + escaped(s).len() + 1),
        ),
    decreases s.len(),
{
    if s.len() == 0 {
        assert(acc + s =~= acc);
    } else {
        let c = s[0];
        let s2 = s.drop_first();
        lemma_escaped_concat(seq![c], s2);
        assert(seq![c] + s2 =~= s);
        assert(seq![c].drop_last() =~= Seq::<char>::empty());
        assert(seq![c].last() == c);
        assert(escaped(Seq::<char>::empty()) == Seq::<char>::empty());
        assert(Seq::<char>::empty() + escape_char(c) =~= escape_char(c));
        assert(escaped(seq![c]) =~= escape_char(c));
        let w = escape_char(c).len() as int;
        let n = escaped(s).len() as int;
        assert(t.subrange(q, q + n)[0] == t[q]);
        assert(t[q] == escape_char(c)[0]);
        if w == 2 {
            assert(t.subrange(q, q + n)[1] == t[q + 1]);
            assert(t[q + 1] == escape_char(c)[1]);
        }
        assert(t.subrange(q + w, q + w + escaped(s2).len()) =~= escaped(s2)) by {
            assert forall|i: int| 0 <= i < escaped(s2).len() implies t.subrange(
                q + w,
                q + w + escaped(s2).len(),
            )[i] == escaped(s2)[i] by {
                assert(t.subrange(q, q + n)[w + i] == t[q + w + i]);
            }
        }
        lemma_string_body_reads_escaped(t, start, q + w, s2, acc.push(c));
        assert(acc.push(c) + s2 =~= acc + s);
    }
}

/// A string literal the printer writes is read back by the lexer as the
/// same string, whatever follows it.
pub proof fn lemma_string_literal_round_trip(s: Seq<char>, rest: Seq<char>)
    ensures
        lex_string(quoted(s) + rest, 0) == Step::Tok(SKind::Str(s), 0, quoted(s).len() as int),
{
    let t = quoted(s) + rest;
    let n = escaped(s).len() as int;
    assert(t[0] == '"');
    assert(t.subrange(1, 1 + n) =~= escaped(s));
    assert(t[1 + n] == '"');
    lemma_string_body_reads_escaped(t, 0, 1, s, Seq::empty());
    assert(Seq::<char>::empty() + s =~= s);
}

// ---------------------------------------------------------------------------
// The printer
// ---------------------------------------------------------------------------

struct Printer {
    out: String,
    indent: usize,
}

/// Print a module.
pub fn print_module(m: &Module) -> (s: String)
    ensures
        s@ == pr_module(Seq::empty(), m@),
{
    let mut p = Printer { out: String::new(), indent: 0 };
    p.module(m);
    p.out
}

/// Print an expression.
pub fn print_expr(e: &Expr) -> (s: String)
    ensures
        s@ == pr_expr(Seq::empty(), e@, 0),
{
    let mut p = Printer { out: String::new(), indent: 0 };
    p.expr(e);
    p.out
}

/// Precedence of an expression's outermost operator.
fn prec(e: &Expr) -> (p: u8)
    ensures
        p == prec_of(e@),
{
    match &e.kind {
        ExprKind::Assign { .. } => 1,
        ExprKind::Ternary { .. } => 2,
        ExprKind::Lambda { .. } => 2,
        ExprKind::Binary { op, .. } => bin_prec(*op),
        ExprKind::Is { .. } | ExprKind::As { .. } => 11,
        ExprKind::Unary { .. } => 12,
        _ => 13,
    }
}

fn bin_prec(op: BinaryOp) -> (p: u8)
    ensures
        p == binary_prec(op),
{
    match op {
        BinaryOp::Or | BinaryOp::Coalesce => 3,
        BinaryOp::And => 4,
        BinaryOp::Eq | BinaryOp::Ne => 5,
        BinaryOp::Lt | BinaryOp::Le | BinaryOp::Gt | BinaryOp::Ge => 6,
        BinaryOp::Concat => 7,
        BinaryOp::Add | BinaryOp::Sub => 8,
        BinaryOp::Mul | BinaryOp::Div | BinaryOp::Mod => 9,
        BinaryOp::Pow => 10,
    }
}

impl Printer {
    fn push(&mut self, s: &str)
        ensures
            final(self).out@ == old(self).out@ + s@,
            final(self).indent == old(self).indent,
    {
        self.out.append(s);
    }

    fn push_text(&mut self, s: &String)
        ensures
            final(self).out@ == old(self).out@ + s@,
            final(self).indent == old(self).indent,
    {
        push_string(&mut self.out, s);
    }

    fn nl(&mut self)
        ensures
            final(self).out@ == newline(old(self).out@, old(self).indent),
            final(self).indent == old(self).indent,
    {
        let ghost start = self.out@;
        push_char(&mut self.out, '\n');
        let mut k: usize = 0;
        while k < self.indent
            invariant
                k <= self.indent,
                self.indent == old(self).indent,
                self.out@ == start + seq!['\n'] + pad(k as nat),
            decreases self.indent - k,
        {
            self.out.append("    ");
            k = k + 1;
        }
        
    }

    /// One level deeper.
    fn indent_in(&mut self)
        ensures
            final(self).out@ == old(self).out@,
            final(self).indent == deeper(old(self).indent),
    {
        if self.indent < usize::MAX {
            self.indent = self.indent + 1;
        }
    }

    #[verifier::spinoff_prover]
    #[verifier::rlimit(80)]
    fn module(&mut self, m: &Module)
        requires
            old(self).indent == 0,
        ensures
            final(self).out@ == pr_module(old(self).out@, m@),
    {
        self.header(&m.header);
        let ghost mid = self.out@;
        let ghost items = crate::ast::items_view(m.items@);
        proof {
            crate::ast::lemma_items_view_index(m.items@);
            assert(items.take(0) =~= Seq::<SItem>::empty());
        }
        let mut i: usize = 0;
        while i < m.items.len()
            invariant
                i <= m.items@.len(),
                self.indent == 0,
                items == crate::ast::items_view(m.items@),
                items.len() == m.items@.len(),
                forall|j: int| 0 <= j < m.items@.len() ==> #[trigger] items[j] == m.items@[j]@,
                self.out@ == pr_items(mid, items.take(i as int)),
            decreases m.items@.len() - i,
        {
            self.item(&m.items[i]);
            self.nl();
            proof {
                assert(items.take(i + 1).drop_last() =~= items.take(i as int));
            }
            i = i + 1;
        }
        proof {
            assert(items.take(items.len() as int) =~= items);
        }
    }

    fn header(&mut self, h: &Option<VersionHeader>)
        requires
            old(self).indent == 0,
        ensures
            final(self).out@ == pr_header(old(self).out@, *h),
            final(self).indent == 0,
    {
        match h {
            Some(h) => match h.version {
                Version::Number(n) => {
                    self.push("FeatureScript ");
                    self.push_text(&decimal_string(n));
                    self.push(";");
                    self.nl();
                },
                Version::Sparkle => {
                    self.push("FeatureScript \u{2728};");
                    self.nl();
                },
            },
            None => {},
        }
    }

    fn annotation(&mut self, a: &Annotation)
        ensures
            final(self).out@ == pr_annotation(old(self).out@, a@, old(self).indent),
            final(self).indent == old(self).indent,
        decreases a, 3int,
    {
        self.push("annotation ");
        self.map_entries(&a.entries);
        self.nl();
    }

    fn opt_annotation(&mut self, a: &Option<Annotation>)
        ensures
            final(self).out@ == pr_opt_annotation(old(self).out@,
                match a {
                    Some(x) => Some(x@),
                    None => None,
                },
                old(self).indent,
            ),
            final(self).indent == old(self).indent,
        decreases a, 4int,
    {
        match a {
            Some(x) => self.annotation(x),
            None => {},
        }
    }

    fn doc(&mut self, doc: &Option<String>)
        ensures
            final(self).out@ == pr_doc(old(self).out@,
                match doc {
                    Some(d) => Some(d@),
                    None => None,
                },
                old(self).indent,
            ),
            final(self).indent == old(self).indent,
    {
        match doc {
            Some(d) => {
                self.push("/**");
                self.push_text(d);
                self.push("*/");
                self.nl();
            },
            None => {},
        }
    }

    fn item(&mut self, item: &Item)
        ensures
            final(self).out@ == pr_item(old(self).out@, item@, old(self).indent),
            final(self).indent == old(self).indent,
        decreases item, 4int,
    {
        self.doc(&item.doc);
        self.opt_annotation(&item.annotation);
        if item.export {
            self.push("export ");
        }
        self.item_kind(&item.kind);
    }
    #[verifier::spinoff_prover]
    fn item_kind(&mut self, kind: &ItemKind)
        ensures
            final(self).out@ == pr_item_kind(old(self).out@, kind@, old(self).indent),
            final(self).indent == old(self).indent,
        decreases kind, 4int,
    {
        match kind {
            ItemKind::Import(..) | ItemKind::Function(..) | ItemKind::Operator(..) | ItemKind::Predicate(..) => self.item_callable(kind),
            ItemKind::Type(..) | ItemKind::Enum(..) | ItemKind::Const(..) | ItemKind::Var(..) => self.item_other(kind),
        }
    }

    #[verifier::spinoff_prover]
    fn item_callable(&mut self, kind: &ItemKind)
        requires
            kind@ is Import || kind@ is Function || kind@ is Operator || kind@ is Predicate,
        ensures
            final(self).out@ == pr_item_kind(old(self).out@, kind@, old(self).indent),
            final(self).indent == old(self).indent,
        decreases kind, 3int,
    {
        match kind {
            ItemKind::Import(i) => {
                self.push("import(");
                self.named_args(&i.args);
                self.push(");");
            },
            ItemKind::Function(f) => {
                self.push("function ");
                self.push_text(&f.name.name);
                self.sig(&f.sig);
            },
            ItemKind::Operator(o) => {
                self.push("operator");
                self.push_text(&o.op);
                self.sig(&o.sig);
            },
            ItemKind::Predicate(p) => {
                self.push("predicate ");
                self.push_text(&p.name.name);
                self.params(&p.params);
                self.precondition(&p.precondition);
                self.nl();
                self.block(&p.body);
            },
            _ => {},
        }
    }

    #[verifier::spinoff_prover]
    fn item_other(&mut self, kind: &ItemKind)
        requires
            kind@ is Type || kind@ is Enum || kind@ is Const || kind@ is Var,
        ensures
            final(self).out@ == pr_item_kind(old(self).out@, kind@, old(self).indent),
            final(self).indent == old(self).indent,
        decreases kind, 3int,
    {
        match kind {
            ItemKind::Type(t) => {
                self.push("type ");
                self.push_text(&t.name.name);
                match &t.typecheck {
                    Some(tc) => {
                        self.push(" typecheck ");
                        self.push_text(&tc.name);
                    },
                    None => {},
                }
                self.push(";");
            },
            ItemKind::Enum(e) => {
                self.push("enum ");
                self.push_text(&e.name.name);
                self.nl();
                self.push("{");
                let saved = self.indent;
                self.indent_in();
                self.members(&e.members);
                self.indent = saved;
                self.nl();
                self.push("}");
            },
            ItemKind::Const(v) => {
                self.push("const ");
                self.var_decl(v);
            },
            ItemKind::Var(v) => {
                self.push("var ");
                self.var_decl(v);
            },
            _ => {},
        }
    }

    fn named_args(&mut self, args: &Vec<NamedArg>)
        ensures
            final(self).out@ == pr_named_args(old(self).out@,
                crate::ast::named_args_view(args@),
                old(self).indent,
            ),
            final(self).indent == old(self).indent,
        decreases args, 0int,
    {
        let ghost start = self.out@;
        let ghost v = crate::ast::named_args_view(args@);
        proof {
            crate::ast::lemma_named_args_view_index(args@);
            assert(v.take(0) =~= Seq::<SNamedArg>::empty());
        }
        let mut i: usize = 0;
        while i < args.len()
            invariant
                i <= args@.len(),
                self.indent == old(self).indent,
                v == crate::ast::named_args_view(args@),
                v.len() == args@.len(),
                forall|j: int| 0 <= j < args@.len() ==> #[trigger] v[j] == args@[j]@,
                self.out@ == pr_named_args(start, v.take(i as int), old(self).indent),
            decreases args@.len() - i,
        {
            if i > 0 {
                self.push(", ");
            }
            self.push_text(&args[i].name.name);
            self.push(" : ");
            self.expr(&args[i].value);
            proof {
                assert(v.take(i + 1).drop_last() =~= v.take(i as int));
            }
            i = i + 1;
        }
        proof {
            assert(v.take(v.len() as int) =~= v);
        }
    }

    fn members(&mut self, ms: &Vec<EnumMember>)
        ensures
            final(self).out@ == pr_members(old(self).out@,
                crate::ast::members_view(ms@),
                crate::ast::members_view(ms@).len(),
                old(self).indent,
            ),
            final(self).indent == old(self).indent,
        decreases ms, 0int,
    {
        let ghost start = self.out@;
        let ghost v = crate::ast::members_view(ms@);
        proof {
            crate::ast::lemma_members_view_index(ms@);
            assert(v.take(0) =~= Seq::<SEnumMember>::empty());
        }
        let mut i: usize = 0;
        while i < ms.len()
            invariant
                i <= ms@.len(),
                self.indent == old(self).indent,
                v == crate::ast::members_view(ms@),
                v.len() == ms@.len(),
                forall|j: int| 0 <= j < ms@.len() ==> #[trigger] v[j] == ms@[j]@,
                self.out@ == pr_members(start, v.take(i as int), ms@.len(), old(self).indent),
            decreases ms@.len() - i,
        {
            self.nl();
            self.doc(&ms[i].doc);
            self.opt_annotation(&ms[i].annotation);
            self.push_text(&ms[i].name.name);
            if i + 1 < ms.len() {
                self.push(",");
            }
            proof {
                assert(v.take(i + 1).drop_last() =~= v.take(i as int));
            }
            i = i + 1;
        }
        proof {
            assert(v.take(v.len() as int) =~= v);
        }
    }

    fn type_suffix(&mut self, word: &str, t: &Option<crate::ast::TypeRef>)
        ensures
            final(self).out@ == type_suffix(old(self).out@,
                word@,
                match t {
                    Some(x) => Some(x@),
                    None => None,
                },
            ),
            final(self).indent == old(self).indent,
    {
        match t {
            Some(t) => {
                self.push(" ");
                self.push(word);
                self.push(" ");
                self.push_text(&t.name);
            },
            None => {},
        }
    }

    fn var_decl(&mut self, v: &VarDecl)
        ensures
            final(self).out@ == pr_var_decl(old(self).out@, v@, old(self).indent),
            final(self).indent == old(self).indent,
        decreases v, 3int,
    {
        self.push_text(&v.name.name);
        self.type_suffix("is", &v.ty);
        match &v.init {
            Some(e) => {
                self.push(" = ");
                self.expr(e);
            },
            None => {},
        }
        self.push(";");
    }

    fn params(&mut self, ps: &Vec<Param>)
        ensures
            final(self).out@ == pr_params(old(self).out@, crate::ast::params_view(ps@)),
            final(self).indent == old(self).indent,
    {
        let ghost v = crate::ast::params_view(ps@);
        proof {
            crate::ast::lemma_params_view_index(ps@);
            assert(v.take(0) =~= Seq::<SParam>::empty());
        }
        self.push("(");
        let ghost start = self.out@;
        let mut i: usize = 0;
        while i < ps.len()
            invariant
                i <= ps@.len(),
                self.indent == old(self).indent,
                v == crate::ast::params_view(ps@),
                v.len() == ps@.len(),
                forall|j: int| 0 <= j < ps@.len() ==> #[trigger] v[j] == ps@[j]@,
                self.out@ == pr_param_list(start, v.take(i as int)),
            decreases ps@.len() - i,
        {
            if i > 0 {
                self.push(", ");
            }
            self.push_text(&ps[i].name.name);
            self.type_suffix("is", &ps[i].ty);
            proof {
                assert(v.take(i + 1).drop_last() =~= v.take(i as int));
            }
            i = i + 1;
        }
        proof {
            assert(v.take(v.len() as int) =~= v);
        }
        self.push(")");
    }

    fn precondition(&mut self, pre: &Option<Block>)
        ensures
            final(self).out@ == pr_precondition(old(self).out@,
                match pre {
                    Some(b) => Some(b@),
                    None => None,
                },
                old(self).indent,
            ),
            final(self).indent == old(self).indent,
        decreases pre, 3int,
    {
        match pre {
            Some(b) => {
                self.nl();
                self.push("precondition");
                self.nl();
                self.block(b);
            },
            None => {},
        }
    }

    fn sig(&mut self, sig: &FunctionSig)
        ensures
            final(self).out@ == pr_sig(old(self).out@, sig@, old(self).indent),
            final(self).indent == old(self).indent,
        decreases sig, 4int,
    {
        self.params(&sig.params);
        self.type_suffix("returns", &sig.return_type);
        self.precondition(&sig.precondition);
        self.nl();
        self.block(&sig.body);
    }

    fn block(&mut self, b: &Block)
        ensures
            final(self).out@ == pr_block(old(self).out@, b@, old(self).indent),
            final(self).indent == old(self).indent,
        decreases b, 2int,
    {
        self.push("{");
        let saved = self.indent;
        self.indent_in();
        self.stmts(&b.stmts);
        self.indent = saved;
        self.nl();
        self.push("}");
    }

    fn stmts(&mut self, ss: &Vec<Stmt>)
        ensures
            final(self).out@ == pr_stmts(old(self).out@,
                crate::ast::stmts_view(ss@),
                old(self).indent,
            ),
            final(self).indent == old(self).indent,
        decreases ss, 1int,
    {
        let ghost start = self.out@;
        let ghost v = crate::ast::stmts_view(ss@);
        proof {
            crate::ast::lemma_stmts_view_index(ss@);
            assert(v.take(0) =~= Seq::<SStmt>::empty());
        }
        let mut i: usize = 0;
        while i < ss.len()
            invariant
                i <= ss@.len(),
                self.indent == old(self).indent,
                v == crate::ast::stmts_view(ss@),
                v.len() == ss@.len(),
                forall|j: int| 0 <= j < ss@.len() ==> #[trigger] v[j] == ss@[j]@,
                self.out@ == pr_stmts(start, v.take(i as int), old(self).indent),
            decreases ss@.len() - i,
        {
            self.nl();
            self.stmt(&ss[i]);
            proof {
                assert(v.take(i + 1).drop_last() =~= v.take(i as int));
            }
            i = i + 1;
        }
        proof {
            assert(v.take(v.len() as int) =~= v);
        }
    }

    /// A statement in body position (after `if (...)`, `for (...)` etc.).
    fn body(&mut self, s: &Stmt)
        ensures
            final(self).out@ == pr_body(old(self).out@, s@, old(self).indent),
            final(self).indent == old(self).indent,
        decreases s, 1int,
    {
        let saved = self.indent;
        self.indent_in();
        self.nl();
        self.stmt(s);
        self.indent = saved;
    }

    fn stmt(&mut self, s: &Stmt)
        ensures
            final(self).out@ == pr_stmt(old(self).out@, s@, old(self).indent),
            final(self).indent == old(self).indent,
        decreases s, 0int,
    {
        self.opt_annotation(&s.annotation);
        self.stmt_kind(&s.kind);
    }

    fn opt_expr(&mut self, prefix: &str, e: &Option<Expr>)
        ensures
            final(self).out@ == pr_opt_expr(old(self).out@,
                prefix@,
                match e {
                    Some(x) => Some(x@),
                    None => None,
                },
                old(self).indent,
            ),
            final(self).indent == old(self).indent,
        decreases e, 3int,
    {
        match e {
            Some(x) => {
                self.push(prefix);
                self.expr(x);
            },
            None => {},
        }
    }
    #[verifier::spinoff_prover]
    fn stmt_kind(&mut self, k: &StmtKind)
        ensures
            final(self).out@ == pr_stmt_kind(old(self).out@, k@, old(self).indent),
            final(self).indent == old(self).indent,
        decreases k, 4int,
    {
        match k {
            StmtKind::Var(..) | StmtKind::Const(..) | StmtKind::Expr(..) | StmtKind::Block(..) | StmtKind::Break | StmtKind::Continue | StmtKind::Return(..) | StmtKind::Throw(..) | StmtKind::Empty => self.stmt_simple(k),
            StmtKind::If { .. } | StmtKind::For { .. } | StmtKind::ForIn { .. } | StmtKind::While { .. } => self.stmt_loop(k),
            StmtKind::Try { .. } => self.stmt_try(k),
        }
    }

    #[verifier::spinoff_prover]
    fn stmt_simple(&mut self, k: &StmtKind)
        requires
            k@ is Var || k@ is Const || k@ is Expr || k@ is Block || k@ is Break || k@ is Continue || k@ is Return || k@ is Throw || k@ is Empty,
        ensures
            final(self).out@ == pr_stmt_kind(old(self).out@, k@, old(self).indent),
            final(self).indent == old(self).indent,
        decreases k, 3int,
    {
        match k {
            StmtKind::Var(v) => {
                self.push("var ");
                self.var_decl(v);
            },
            StmtKind::Const(v) => {
                self.push("const ");
                self.var_decl(v);
            },
            StmtKind::Expr(e) => {
                self.expr(e);
                self.push(";");
            },
            StmtKind::Block(b) => self.block(b),
            StmtKind::Break => self.push("break;"),
            StmtKind::Continue => self.push("continue;"),
            StmtKind::Return(None) => self.push("return;"),
            StmtKind::Return(Some(e)) => {
                self.push("return ");
                self.expr(e);
                self.push(";");
            },
            StmtKind::Throw(e) => {
                self.push("throw ");
                self.expr(e);
                self.push(";");
            },
            StmtKind::Empty => self.push(";"),
            _ => {},
        }
    }

    #[verifier::spinoff_prover]
    fn stmt_loop(&mut self, k: &StmtKind)
        requires
            k@ is If || k@ is For || k@ is ForIn || k@ is While,
        ensures
            final(self).out@ == pr_stmt_kind(old(self).out@, k@, old(self).indent),
            final(self).indent == old(self).indent,
        decreases k, 3int,
    {
        match k {
            StmtKind::If { cond, then, else_ } => {
                self.push("if (");
                self.expr(cond);
                self.push(")");
                self.body(then);
                match else_ {
                    Some(e) => {
                        self.nl();
                        self.push("else");
                        self.body(e);
                    },
                    None => {},
                }
            },
            StmtKind::For { init, cond, step, body } => {
                self.push("for (");
                match init {
                    Some(ForInit::Var(v)) => {
                        self.push("var ");
                        self.var_decl(v);
                    },
                    Some(ForInit::Expr(e)) => {
                        self.expr(e);
                        self.push(";");
                    },
                    None => self.push(";"),
                }
                self.opt_expr(" ", cond);
                self.push(";");
                self.opt_expr(" ", step);
                self.push(")");
                self.body(body);
            },
            StmtKind::ForIn { declared, key, value, iter, body } => {
                self.push("for (");
                if *declared {
                    self.push("var ");
                }
                match key {
                    Some(k) => {
                        self.push_text(&k.name);
                        self.push(", ");
                    },
                    None => {},
                }
                self.push_text(&value.name);
                self.push(" in ");
                self.expr(iter);
                self.push(")");
                self.body(body);
            },
            StmtKind::While { cond, body } => {
                self.push("while (");
                self.expr(cond);
                self.push(")");
                self.body(body);
            },
            _ => {},
        }
    }

    #[verifier::spinoff_prover]
    fn stmt_try(&mut self, k: &StmtKind)
        requires
            k@ is Try,
        ensures
            final(self).out@ == pr_stmt_kind(old(self).out@, k@, old(self).indent),
            final(self).indent == old(self).indent,
        decreases k, 3int,
    {
        match k {
            StmtKind::Try { silent, body, catch } => {
                if *silent {
                    self.push("try silent");
                } else {
                    self.push("try");
                }
                self.nl();
                self.block(body);
                match catch {
                    Some(c) => {
                        self.nl();
                        self.push("catch");
                        match &c.param {
                            Some(p) => {
                                self.push(" (");
                                self.push_text(&p.name);
                                self.push(")");
                            },
                            None => {},
                        }
                        self.nl();
                        self.block(&c.body);
                    },
                    None => {},
                }
            },
            _ => {},
        }
    }

    fn map_entries(&mut self, es: &Vec<MapEntry>)
        ensures
            final(self).out@ == pr_map_entries(old(self).out@,
                crate::ast::entries_view(es@),
                old(self).indent,
            ),
            final(self).indent == old(self).indent,
        decreases es, 2int,
    {
        proof {
            crate::ast::lemma_entries_view_index(es@);
        }
        if es.len() == 0 {
            self.push("{}");
            return;
        }
        self.push("{ ");
        self.entry_list(es);
        self.push("}");
    }

    fn entry_list(&mut self, es: &Vec<MapEntry>)
        ensures
            final(self).out@ == pr_entry_list(old(self).out@,
                crate::ast::entries_view(es@),
                old(self).indent,
            ),
            final(self).indent == old(self).indent,
        decreases es, 1int,
    {
        let ghost start = self.out@;
        let ghost v = crate::ast::entries_view(es@);
        proof {
            crate::ast::lemma_entries_view_index(es@);
            assert(v.take(0) =~= Seq::<SMapEntry>::empty());
        }
        let mut i: usize = 0;
        while i < es.len()
            invariant
                i <= es@.len(),
                self.indent == old(self).indent,
                v == crate::ast::entries_view(es@),
                v.len() == es@.len(),
                forall|j: int| 0 <= j < es@.len() ==> #[trigger] v[j] == es@[j]@,
                self.out@ == pr_entry_list(start, v.take(i as int), old(self).indent),
            decreases es@.len() - i,
        {
            if i > 0 {
                self.push(", ");
            }
            self.expr(&es[i].key);
            self.push(" : ");
            self.expr(&es[i].value);
            proof {
                assert(v.take(i + 1).drop_last() =~= v.take(i as int));
            }
            i = i + 1;
        }
        proof {
            assert(v.take(v.len() as int) =~= v);
        }
    }

    fn expr_list(&mut self, es: &Vec<Expr>)
        ensures
            final(self).out@ == pr_expr_list(old(self).out@,
                crate::ast::exprs_view(es@),
                old(self).indent,
            ),
            final(self).indent == old(self).indent,
        decreases es, 1int,
    {
        let ghost start = self.out@;
        let ghost v = crate::ast::exprs_view(es@);
        proof {
            crate::ast::lemma_exprs_view_index(es@);
            assert(v.take(0) =~= Seq::<SExpr>::empty());
        }
        let mut i: usize = 0;
        while i < es.len()
            invariant
                i <= es@.len(),
                self.indent == old(self).indent,
                v == crate::ast::exprs_view(es@),
                v.len() == es@.len(),
                forall|j: int| 0 <= j < es@.len() ==> #[trigger] v[j] == es@[j]@,
                self.out@ == pr_expr_list(start, v.take(i as int), old(self).indent),
            decreases es@.len() - i,
        {
            if i > 0 {
                self.push(", ");
            }
            self.expr(&es[i]);
            proof {
                assert(v.take(i + 1).drop_last() =~= v.take(i as int));
            }
            i = i + 1;
        }
        proof {
            assert(v.take(v.len() as int) =~= v);
        }
    }

    fn string(&mut self, s: &String)
        ensures
            final(self).out@ == old(self).out@ + quoted(s@),
            final(self).indent == old(self).indent,
    {
        let ghost start = self.out@;
        push_char(&mut self.out, '"');
        let cs = crate::text::chars_of(s.as_str());
        let mut i: usize = 0;
        while i < cs.len()
            invariant
                i <= cs@.len(),
                cs@ == s@,
                self.indent == old(self).indent,
                self.out@ == start + seq!['"'] + escaped(cs@.take(i as int)),
            decreases cs@.len() - i,
        {
            let c = cs[i];
            if c == '"' {
                self.push("\\\"");
            } else if c == '\\' {
                self.push("\\\\");
            } else if c == '\n' {
                self.push("\\n");
            } else if c == '\t' {
                self.push("\\t");
            } else if c == '\r' {
                self.push("\\r");
            } else {
                push_char(&mut self.out, c);
            }
            proof {
                assert(cs@.take(i + 1).drop_last() =~= cs@.take(i as int));
                reveal_strlit("\\\"");
                reveal_strlit("\\\\");
                reveal_strlit("\\n");
                reveal_strlit("\\t");
                reveal_strlit("\\r");
            }
            i = i + 1;
        }
        push_char(&mut self.out, '"');
        proof {
            assert(cs@.take(cs@.len() as int) =~= cs@);
            assert(self.out@ =~= old(self).out@ + quoted(s@));
        }
    }

    /// Print `e` parenthesized if it binds looser than `min`.
    fn sub(&mut self, e: &Expr, min: u8)
        ensures
            final(self).out@ == pr_sub(old(self).out@, e@, min, old(self).indent),
            final(self).indent == old(self).indent,
        decreases e, 2int,
    {
        if prec(e) < min {
            self.push("(");
            self.expr(e);
            self.push(")");
        } else {
            self.expr(e);
        }
    }

    fn lambda_body(&mut self, b: &LambdaBody)
        ensures
            final(self).out@ == pr_lambda_body(old(self).out@, b@, old(self).indent),
            final(self).indent == old(self).indent,
        decreases b, 3int,
    {
        match b {
            LambdaBody::Expr(e) => self.sub(e, 1),
            LambdaBody::Block(blk) => self.block(blk),
        }
    }
    #[verifier::spinoff_prover]
    fn expr(&mut self, e: &Expr)
        ensures
            final(self).out@ == pr_expr(old(self).out@, e@, old(self).indent),
            final(self).indent == old(self).indent,
        decreases e, 1int,
    {
        match &e.kind {
            ExprKind::Number(..) | ExprKind::Str(..) | ExprKind::Bool(..) | ExprKind::Undefined | ExprKind::Ident(..) | ExprKind::Array(..) | ExprKind::MapLiteral(..) | ExprKind::Paren(..) => self.expr_atom(e),
            ExprKind::Unary { .. } | ExprKind::Binary { .. } | ExprKind::Assign { .. } | ExprKind::Ternary { .. } | ExprKind::Is { .. } | ExprKind::As { .. } => self.expr_op(e),
            ExprKind::Member { .. } | ExprKind::Index { .. } | ExprKind::Deref(..) | ExprKind::Call { .. } | ExprKind::Pipe { .. } => self.expr_access(e),
            ExprKind::Lambda { .. } | ExprKind::Function(..) | ExprKind::Try { .. } | ExprKind::Switch { .. } | ExprKind::New(..) => self.expr_form(e),
        }
    }

    #[verifier::spinoff_prover]
    fn expr_atom(&mut self, e: &Expr)
        requires
            e@.kind is Number || e@.kind is Str || e@.kind is Bool || e@.kind is Undefined || e@.kind is Ident || e@.kind is Array || e@.kind is MapLiteral || e@.kind is Paren,
        ensures
            final(self).out@ == pr_expr(old(self).out@, e@, old(self).indent),
            final(self).indent == old(self).indent,
        decreases e, 0int,
    {
        match &e.kind {
            ExprKind::Number(n) => self.push_text(n),
            ExprKind::Str(s) => self.string(s),
            ExprKind::Bool(b) => {
                if *b {
                    self.push("true");
                } else {
                    self.push("false");
                }
            },
            ExprKind::Undefined => self.push("undefined"),
            ExprKind::Ident(name) => self.push_text(name),
            ExprKind::Array(items) => {
                self.push("[");
                self.expr_list(items);
                self.push("]");
            },
            ExprKind::MapLiteral(entries) => self.map_entries(entries),
            ExprKind::Paren(inner) => {
                self.push("(");
                self.expr(inner);
                self.push(")");
            },
            _ => {},
        }
    }

    #[verifier::spinoff_prover]
    fn expr_op(&mut self, e: &Expr)
        requires
            e@.kind is Unary || e@.kind is Binary || e@.kind is Assign || e@.kind is Ternary || e@.kind is Is || e@.kind is As,
        ensures
            final(self).out@ == pr_expr(old(self).out@, e@, old(self).indent),
            final(self).indent == old(self).indent,
        decreases e, 0int,
    {
        match &e.kind {
            ExprKind::Unary { op, expr } => {
                match op {
                    UnaryOp::Neg => self.push("-"),
                    UnaryOp::Not => self.push("!"),
                }
                self.sub(expr, 12);
            },
            ExprKind::Binary { op, lhs, rhs } => {
                let p = bin_prec(*op);
                // Left-assoc: rhs needs one more; `^` is right-assoc.
                let (lmin, rmin) = if *op == BinaryOp::Pow {
                    (p + 1, p)
                } else {
                    (p, p + 1)
                };
                self.sub(lhs, lmin);
                self.push(" ");
                self.push(op.symbol());
                self.push(" ");
                self.sub(rhs, rmin);
            },
            ExprKind::Assign { op, target, value } => {
                self.sub(target, 13);
                self.push(" ");
                self.push(op.symbol());
                self.push(" ");
                self.sub(value, 1);
            },
            ExprKind::Ternary { cond, then, else_ } => {
                self.sub(cond, 3);
                self.push(" ? ");
                self.sub(then, 1);
                self.push(" : ");
                self.sub(else_, 1);
            },
            ExprKind::Is { expr, ty } => {
                self.sub(expr, 11);
                self.push(" is ");
                self.push_text(&ty.name);
            },
            ExprKind::As { expr, ty } => {
                self.sub(expr, 11);
                self.push(" as ");
                self.push_text(&ty.name);
            },
            _ => {},
        }
    }

    #[verifier::spinoff_prover]
    fn expr_access(&mut self, e: &Expr)
        requires
            e@.kind is Member || e@.kind is Index || e@.kind is Deref || e@.kind is Call || e@.kind is Pipe,
        ensures
            final(self).out@ == pr_expr(old(self).out@, e@, old(self).indent),
            final(self).indent == old(self).indent,
        decreases e, 0int,
    {
        match &e.kind {
            ExprKind::Member { object, name, safe } => {
                self.sub(object, 13);
                if *safe {
                    self.push("?.");
                } else {
                    self.push(".");
                }
                self.push_text(&name.name);
            },
            ExprKind::Index { object, index } => {
                self.sub(object, 13);
                self.push("[");
                self.expr(index);
                self.push("]");
            },
            ExprKind::Deref(inner) => {
                self.sub(inner, 13);
                self.push("[]");
            },
            ExprKind::Call { callee, args } => {
                self.sub(callee, 13);
                self.push("(");
                self.expr_list(args);
                self.push(")");
            },
            ExprKind::Pipe { receiver, call } => {
                self.sub(receiver, 13);
                self.push(" -> ");
                self.expr(call);
            },
            _ => {},
        }
    }

    #[verifier::spinoff_prover]
    fn expr_form(&mut self, e: &Expr)
        requires
            e@.kind is Lambda || e@.kind is Function || e@.kind is Try || e@.kind is Switch || e@.kind is New,
        ensures
            final(self).out@ == pr_expr(old(self).out@, e@, old(self).indent),
            final(self).indent == old(self).indent,
        decreases e, 0int,
    {
        match &e.kind {
            ExprKind::Lambda { params, return_type, body } => {
                self.params(params);
                self.type_suffix("returns", return_type);
                self.push(" => ");
                self.lambda_body(body);
            },
            ExprKind::Function(sig) => {
                self.push("function");
                self.sig(sig);
            },
            ExprKind::Try { silent, expr } => {
                if *silent {
                    self.push("try silent(");
                } else {
                    self.push("try(");
                }
                self.expr(expr);
                self.push(")");
            },
            ExprKind::Switch { scrutinee, cases } => {
                self.push("switch (");
                self.expr(scrutinee);
                self.push(") ");
                self.map_entries(cases);
            },
            ExprKind::New(inner) => {
                self.push("new ");
                self.expr(inner);
            },
            _ => {},
        }
    }
}

} // verus!
