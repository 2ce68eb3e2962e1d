//! What the printer writes after a prefix keeps the prefix, and which token
//! each kind of statement and each unary operator is printed starting with:
//! the token the parser reads it from; and that a declaration's first token
//! decides its kind, which the printer writes first.

use crate::ast::{
    SAnnotation, SBlock, SExpr, SExprKind, SForInit, SLambdaBody, SMapEntry, SParam, SStmt,
    SStmtKind, STypeRef, SVarDecl, SFunctionSig, UnaryOp, SItemKind, SNamedArg, SEnumMember,
};
use crate::parser::{error_at, in_range, p_item_kind, p_unary, peek, PState};
use crate::span::Span;
use crate::token::Keyword;
use crate::grammar::stmt_lead;
use crate::print::{
    comma, deeper, newline, pr_doc, pr_item_kind, pr_members, pr_named_args, pr_annotation, pr_block, pr_body, pr_entry_list, pr_expr, pr_expr_list,
    pr_lambda_body, pr_map_entries, pr_opt_annotation, pr_opt_expr, pr_param_list, pr_params,
    pr_precondition, pr_sig, pr_stmt, pr_stmt_kind, pr_stmts, pr_sub, pr_var_decl, type_suffix,
};
use crate::relex::token_text;
use crate::token::{SKind, SToken};
use vstd::prelude::*;

verus! {

/// `x` begins with `o`.
pub open spec fn extends(x: Seq<char>, o: Seq<char>) -> bool {
    &&& o.len() <= x.len()
    &&& forall|i: int| 0 <= i < o.len() ==> #[trigger] x[i] == o[i]
}

proof fn lemma_extends_trans(x: Seq<char>, y: Seq<char>, z: Seq<char>)
    requires
        extends(x, y),
        extends(y, z),
    ensures
        extends(x, z),
{
    assert forall|i: int| 0 <= i < z.len() implies #[trigger] x[i] == z[i] by {
        assert(x[i] == y[i]);
    }
}

proof fn lemma_app(x: Seq<char>, y: Seq<char>)
    ensures
        extends(x + y, x),
{
    assert forall|i: int| 0 <= i < x.len() implies #[trigger] (x + y)[i] == x[i] by {}
}

/// What follows a line break begins with what came before it.
proof fn lemma_newline(x: Seq<char>, ind: usize, y: Seq<char>)
    ensures
        extends(newline(x, ind) + y, x),
{
    lemma_app(x, seq!['\n']);
    lemma_app(x + seq!['\n'], crate::print::pad(ind as nat));
    lemma_app(newline(x, ind), y);
    lemma_extends_trans(x + seq!['\n'] + crate::print::pad(ind as nat), x + seq!['\n'], x);
    lemma_extends_trans(newline(x, ind) + y, newline(x, ind), x);
}

/// A word after `o`, then more, begins with `o` and the word.
proof fn lemma_word_prefix(o: Seq<char>, long: Seq<char>, word: Seq<char>)
    requires
        word.len() <= long.len(),
        long.subrange(0, word.len() as int) == word,
    ensures
        extends(o + long, o + word),
{
    assert forall|i: int| 0 <= i < (o + word).len() implies #[trigger] (o + long)[i] == (o + word)[i] by {
        if i >= o.len() {
            assert(long.subrange(0, word.len() as int)[i - o.len()] == long[i - o.len()]);
        }
    }
}

proof fn lemma_type_suffix(o: Seq<char>, w: Seq<char>, t: Option<STypeRef>)
    ensures
        extends(type_suffix(o, w, t), o),
{
}

proof fn lemma_param_list(o: Seq<char>, ps: Seq<SParam>)
    ensures
        extends(pr_param_list(o, ps), o),
    decreases ps.len(),
{
    if ps.len() > 0 {
        lemma_param_list(o, ps.drop_last());
        let a = comma(pr_param_list(o, ps.drop_last()), ps.len() > 1) + ps.last().name.name;
        lemma_type_suffix(a, "is"@, ps.last().ty);
    }
}

proof fn lemma_params(o: Seq<char>, ps: Seq<SParam>)
    ensures
        extends(pr_params(o, ps), o),
{
    lemma_param_list(o + "("@, ps);
}

pub proof fn lemma_expr_extends(o: Seq<char>, e: SExpr, ind: usize)
    ensures
        extends(pr_expr(o, e, ind), o),
    decreases e, 1int,
{
    match e.kind {
        SExprKind::Array(items) => lemma_list_extends(o + "["@, items, ind),
        SExprKind::MapLiteral(entries) => lemma_map_extends(o, entries, ind),
        SExprKind::Paren(inner) => lemma_expr_extends(o + "("@, *inner, ind),
        SExprKind::Unary { op, expr } => {
            let o1 = pr_expr(o, e, ind);
            match op {
                crate::ast::UnaryOp::Neg => lemma_sub_extends(o + "-"@, *expr, 12, ind),
                crate::ast::UnaryOp::Not => lemma_sub_extends(o + "!"@, *expr, 12, ind),
            }
        },
        SExprKind::Binary { op, lhs, rhs } => {
            let p = crate::print::binary_prec(op);
            let lmin: u8 = if op == crate::ast::BinaryOp::Pow {
                (p + 1) as u8
            } else {
                p
            };
            let rmin: u8 = if op == crate::ast::BinaryOp::Pow {
                p
            } else {
                (p + 1) as u8
            };
            lemma_sub_extends(o, *lhs, lmin, ind);
            let o1 = pr_sub(o, *lhs, lmin, ind) + " "@ + crate::ast::binary_symbol(op) + " "@;
            lemma_sub_extends(o1, *rhs, rmin, ind);
        },
        SExprKind::Assign { op, target, value } => {
            lemma_sub_extends(o, *target, 13, ind);
            let o1 = pr_sub(o, *target, 13, ind) + " "@ + crate::ast::assign_symbol(op) + " "@;
            lemma_sub_extends(o1, *value, 1, ind);
        },
        SExprKind::Ternary { cond, then, else_ } => {
            lemma_sub_extends(o, *cond, 3, ind);
            let o1 = pr_sub(o, *cond, 3, ind) + " ? "@;
            lemma_sub_extends(o1, *then, 1, ind);
            let o2 = pr_sub(o1, *then, 1, ind) + " : "@;
            lemma_sub_extends(o2, *else_, 1, ind);
        },
        SExprKind::Is { expr, .. } => lemma_sub_extends(o, *expr, 11, ind),
        SExprKind::As { expr, .. } => lemma_sub_extends(o, *expr, 11, ind),
        SExprKind::Member { object, .. } => lemma_sub_extends(o, *object, 13, ind),
        SExprKind::Index { object, index } => {
            lemma_sub_extends(o, *object, 13, ind);
            lemma_expr_extends(pr_sub(o, *object, 13, ind) + "["@, *index, ind);
        },
        SExprKind::Deref(inner) => lemma_sub_extends(o, *inner, 13, ind),
        SExprKind::Call { callee, args } => {
            lemma_sub_extends(o, *callee, 13, ind);
            lemma_list_extends(pr_sub(o, *callee, 13, ind) + "("@, args, ind);
        },
        SExprKind::Pipe { receiver, call } => {
            lemma_sub_extends(o, *receiver, 13, ind);
            lemma_expr_extends(pr_sub(o, *receiver, 13, ind) + " -> "@, *call, ind);
        },
        SExprKind::Lambda { params, return_type, body } => {
            lemma_params(o, params);
            lemma_type_suffix(pr_params(o, params), "returns"@, return_type);
            lemma_lambda_body_extends(
                type_suffix(pr_params(o, params), "returns"@, return_type) + " => "@,
                *body,
                ind,
            );
        },
        SExprKind::Function(sig) => lemma_sig_extends(o + "function"@, sig, ind),
        SExprKind::Try { silent, expr } => {
            if silent {
                lemma_expr_extends(o + "try silent("@, *expr, ind);
            } else {
                lemma_expr_extends(o + "try("@, *expr, ind);
            }
        },
        SExprKind::Switch { scrutinee, cases } => {
            lemma_expr_extends(o + "switch ("@, *scrutinee, ind);
            lemma_map_extends(pr_expr(o + "switch ("@, *scrutinee, ind) + ") "@, cases, ind);
        },
        SExprKind::New(inner) => lemma_expr_extends(o + "new "@, *inner, ind),
        _ => {},
    }
}

pub proof fn lemma_sub_extends(o: Seq<char>, e: SExpr, min: u8, ind: usize)
    ensures
        extends(pr_sub(o, e, min, ind), o),
    decreases e, 2int,
{
    lemma_expr_extends(o + "("@, e, ind);
    lemma_expr_extends(o, e, ind);
}

proof fn lemma_list_extends(o: Seq<char>, es: Seq<SExpr>, ind: usize)
    ensures
        extends(pr_expr_list(o, es, ind), o),
    decreases es, 1int,
{
    if es.len() > 0 {
        lemma_list_extends(o, es.drop_last(), ind);
        lemma_expr_extends(comma(pr_expr_list(o, es.drop_last(), ind), es.len() > 1), es.last(), ind);
    }
}

proof fn lemma_entry_list_extends(o: Seq<char>, es: Seq<SMapEntry>, ind: usize)
    ensures
        extends(pr_entry_list(o, es, ind), o),
    decreases es, 1int,
{
    if es.len() > 0 {
        lemma_entry_list_extends(o, es.drop_last(), ind);
        let o1 = comma(pr_entry_list(o, es.drop_last(), ind), es.len() > 1);
        lemma_expr_extends(o1, es.last().key, ind);
        lemma_expr_extends(pr_expr(o1, es.last().key, ind) + " : "@, es.last().value, ind);
    }
}

proof fn lemma_map_extends(o: Seq<char>, es: Seq<SMapEntry>, ind: usize)
    ensures
        extends(pr_map_entries(o, es, ind), o),
    decreases es, 2int,
{
    if es.len() > 0 {
        lemma_entry_list_extends(o + "{ "@, es, ind);
    }
}

proof fn lemma_lambda_body_extends(o: Seq<char>, b: SLambdaBody, ind: usize)
    ensures
        extends(pr_lambda_body(o, b, ind), o),
    decreases b, 3int,
{
    match b {
        SLambdaBody::Expr(e) => lemma_sub_extends(o, e, 1, ind),
        SLambdaBody::Block(blk) => lemma_block_extends(o, blk, ind),
    }
}

pub proof fn lemma_block_extends(o: Seq<char>, b: SBlock, ind: usize)
    ensures
        extends(pr_block(o, b, ind), o),
        extends(pr_block(o, b, ind), o + "{"@),
    decreases b, 2int,
{
    let d = crate::print::deeper(ind);
    lemma_stmts_extends(o + "{"@, b.stmts, d);
    lemma_newline(pr_stmts(o + "{"@, b.stmts, d), ind, "}"@);
    lemma_extends_trans(pr_block(o, b, ind), pr_stmts(o + "{"@, b.stmts, d), o + "{"@);
    lemma_app(o, "{"@);
    lemma_extends_trans(pr_block(o, b, ind), o + "{"@, o);
}

proof fn lemma_stmts_extends(o: Seq<char>, ss: Seq<SStmt>, ind: usize)
    ensures
        extends(pr_stmts(o, ss, ind), o),
    decreases ss, 1int,
{
    if ss.len() > 0 {
        lemma_stmts_extends(o, ss.drop_last(), ind);
        lemma_stmt_extends(newline(pr_stmts(o, ss.drop_last(), ind), ind), ss.last(), ind);
    }
}

proof fn lemma_body_extends(o: Seq<char>, s: SStmt, ind: usize)
    ensures
        extends(pr_body(o, s, ind), o),
    decreases s, 1int,
{
    lemma_stmt_extends(newline(o, crate::print::deeper(ind)), s, crate::print::deeper(ind));
}

pub proof fn lemma_stmt_extends(o: Seq<char>, s: SStmt, ind: usize)
    ensures
        extends(pr_stmt(o, s, ind), o),
    decreases s, 0int,
{
    lemma_opt_annotation_extends(o, s.annotation, ind);
    lemma_stmt_kind_extends(pr_opt_annotation(o, s.annotation, ind), s.kind, ind);
}

proof fn lemma_opt_expr_extends(o: Seq<char>, prefix: Seq<char>, e: Option<SExpr>, ind: usize)
    ensures
        extends(pr_opt_expr(o, prefix, e, ind), o),
    decreases e, 3int,
{
    match e {
        Some(x) => lemma_expr_extends(o + prefix, x, ind),
        None => {},
    }
}

proof fn lemma_var_decl_extends(o: Seq<char>, v: SVarDecl, ind: usize)
    ensures
        extends(pr_var_decl(o, v, ind), o),
    decreases v, 3int,
{
    lemma_type_suffix(o + v.name.name, "is"@, v.ty);
    let o1 = type_suffix(o + v.name.name, "is"@, v.ty);
    match v.init {
        Some(e) => lemma_expr_extends(o1 + " = "@, e, ind),
        None => {},
    }
}

proof fn lemma_opt_annotation_extends(o: Seq<char>, a: Option<SAnnotation>, ind: usize)
    ensures
        extends(pr_opt_annotation(o, a, ind), o),
    decreases a, 4int,
{
    match a {
        Some(x) => lemma_annotation_extends(o, x, ind),
        None => {},
    }
}

proof fn lemma_annotation_extends(o: Seq<char>, a: SAnnotation, ind: usize)
    ensures
        extends(pr_annotation(o, a, ind), o),
    decreases a, 3int,
{
    lemma_map_extends(o + "annotation "@, a.entries, ind);
}

proof fn lemma_precondition_extends(o: Seq<char>, pre: Option<SBlock>, ind: usize)
    ensures
        extends(pr_precondition(o, pre, ind), o),
    decreases pre, 3int,
{
    match pre {
        Some(b) => lemma_block_extends(newline(newline(o, ind) + "precondition"@, ind), b, ind),
        None => {},
    }
}

proof fn lemma_sig_extends(o: Seq<char>, sig: SFunctionSig, ind: usize)
    ensures
        extends(pr_sig(o, sig, ind), o),
    decreases sig, 4int,
{
    lemma_params(o, sig.params);
    let o1 = type_suffix(pr_params(o, sig.params), "returns"@, sig.return_type);
    lemma_type_suffix(pr_params(o, sig.params), "returns"@, sig.return_type);
    lemma_precondition_extends(o1, sig.precondition, ind);
    lemma_block_extends(newline(pr_precondition(o1, sig.precondition, ind), ind), sig.body, ind);
}

pub proof fn lemma_stmt_kind_extends(o: Seq<char>, k: SStmtKind, ind: usize)
    ensures
        extends(pr_stmt_kind(o, k, ind), o),
    decreases k, 4int,
{
    lemma_stmt_kind_extends_lead(o, k, ind);
}

/// Printing a statement after `o` keeps `o` and, for every kind that starts
/// with a fixed token, writes that token first: the token from which the
/// parser reads the kind back (`grammar::lemma_statement_kind_follows_first_token`).
pub proof fn lemma_stmt_kind_extends_lead(o: Seq<char>, k: SStmtKind, ind: usize)
    ensures
        extends(pr_stmt_kind(o, k, ind), o),
        stmt_lead(k) matches Some(t) ==> extends(pr_stmt_kind(o, k, ind), o + token_text(t)),
    decreases k, 3int,
{
    reveal_strlit("var ");
    reveal_strlit("var");
    reveal_strlit("const ");
    reveal_strlit("const");
    reveal_strlit("if (");
    reveal_strlit("if");
    reveal_strlit("for (");
    reveal_strlit("for");
    reveal_strlit("while (");
    reveal_strlit("while");
    reveal_strlit("return ");
    reveal_strlit("return;");
    reveal_strlit("return");
    reveal_strlit("throw ");
    reveal_strlit("throw");
    reveal_strlit("break;");
    reveal_strlit("break");
    reveal_strlit("continue;");
    reveal_strlit("continue");
    reveal_strlit("try silent");
    reveal_strlit("try");
    reveal_strlit(";");
    reveal_strlit("{");
    match stmt_lead(k) {
        Some(t) => {
            let w = token_text(t);
            assert(extends(o + w, o)) by {
                assert forall|i: int| 0 <= i < o.len() implies #[trigger] (o + w)[i] == o[i] by {}
            }
        },
        None => {},
    }
    let r = pr_stmt_kind(o, k, ind);
    match k {
        SStmtKind::Var(v) => {
            lemma_var_decl_extends(o + "var "@, v, ind);
            assert("var "@.subrange(0, 3) =~= "var"@);
            lemma_word_prefix(o, "var "@, "var"@);
            lemma_extends_trans(r, o + "var "@, o + "var"@);
            lemma_app(o, "var "@);
            lemma_extends_trans(r, o + "var "@, o);
        },
        SStmtKind::Const(v) => {
            lemma_var_decl_extends(o + "const "@, v, ind);
            assert("const "@.subrange(0, 5) =~= "const"@);
            lemma_word_prefix(o, "const "@, "const"@);
            lemma_extends_trans(r, o + "const "@, o + "const"@);
            lemma_app(o, "const "@);
            lemma_extends_trans(r, o + "const "@, o);
        },
        SStmtKind::Expr(e) => lemma_expr_extends(o, e, ind),
        SStmtKind::Block(b) => {
            lemma_block_extends(o, b, ind);
            assert(token_text(SKind::LBrace) =~= "{"@);
        },
        SStmtKind::If { cond, then, else_ } => {
            let a = o + "if ("@;
            lemma_expr_extends(a, cond, ind);
            let o1 = pr_expr(a, cond, ind) + ")"@;
            lemma_app(pr_expr(a, cond, ind), ")"@);
            lemma_extends_trans(o1, pr_expr(a, cond, ind), a);
            lemma_body_extends(o1, *then, ind);
            let r1 = pr_body(o1, *then, ind);
            lemma_extends_trans(r1, o1, a);
            match else_ {
                Some(e) => {
                    lemma_body_extends(newline(r1, ind) + "else"@, *e, ind);
                    lemma_newline(r1, ind, "else"@);
                    lemma_extends_trans(r, newline(r1, ind) + "else"@, r1);
                    lemma_extends_trans(r, r1, a);
                },
                None => {},
            }
            assert("if ("@.subrange(0, 2) =~= "if"@);
            lemma_word_prefix(o, "if ("@, "if"@);
            lemma_extends_trans(r, a, o + "if"@);
            lemma_app(o, "if ("@);
            lemma_extends_trans(r, a, o);
        },
        SStmtKind::For { init, cond, step, body } => {
            let a = o + "for ("@;
            lemma_app(o, "for ("@);
            let o1 = match init {
                Some(SForInit::Var(v)) => pr_var_decl(a + "var "@, v, ind),
                Some(SForInit::Expr(e)) => pr_expr(a, e, ind) + ";"@,
                None => a + ";"@,
            };
            match init {
                Some(SForInit::Var(v)) => {
                    lemma_var_decl_extends(a + "var "@, v, ind);
                    lemma_app(a, "var "@);
                    lemma_extends_trans(o1, a + "var "@, a);
                },
                Some(SForInit::Expr(e)) => {
                    lemma_expr_extends(a, e, ind);
                    lemma_app(pr_expr(a, e, ind), ";"@);
                    lemma_extends_trans(o1, pr_expr(a, e, ind), a);
                },
                None => lemma_app(a, ";"@),
            }
            lemma_opt_expr_extends(o1, " "@, cond, ind);
            let c1 = pr_opt_expr(o1, " "@, cond, ind);
            lemma_app(c1, ";"@);
            let o2 = c1 + ";"@;
            lemma_opt_expr_extends(o2, " "@, step, ind);
            let c2 = pr_opt_expr(o2, " "@, step, ind);
            lemma_app(c2, ")"@);
            lemma_body_extends(c2 + ")"@, *body, ind);
            lemma_extends_trans(r, c2 + ")"@, c2);
            lemma_extends_trans(r, c2, o2);
            lemma_extends_trans(r, o2, c1);
            lemma_extends_trans(r, c1, o1);
            lemma_extends_trans(r, o1, a);
            assert("for ("@.subrange(0, 3) =~= "for"@);
            lemma_word_prefix(o, "for ("@, "for"@);
            lemma_extends_trans(r, a, o + "for"@);
            lemma_extends_trans(r, a, o);
        },
        SStmtKind::ForIn { declared, key, value, iter, body } => {
            let a = o + "for ("@;
            lemma_app(o, "for ("@);
            let o1 = if declared {
                a + "var "@
            } else {
                a
            };
            lemma_app(a, "var "@);
            let o2 = match key {
                Some(kk) => o1 + kk.name + ", "@,
                None => o1,
            };
            match key {
                Some(kk) => {
                    lemma_app(o1, kk.name);
                    lemma_app(o1 + kk.name, ", "@);
                    lemma_extends_trans(o2, o1 + kk.name, o1);
                },
                None => {},
            }
            let o3 = o2 + value.name + " in "@;
            lemma_app(o2, value.name);
            lemma_app(o2 + value.name, " in "@);
            lemma_extends_trans(o3, o2 + value.name, o2);
            lemma_expr_extends(o3, iter, ind);
            lemma_app(pr_expr(o3, iter, ind), ")"@);
            lemma_body_extends(pr_expr(o3, iter, ind) + ")"@, *body, ind);
            lemma_extends_trans(r, pr_expr(o3, iter, ind) + ")"@, pr_expr(o3, iter, ind));
            lemma_extends_trans(r, pr_expr(o3, iter, ind), o3);
            lemma_extends_trans(r, o3, o2);
            lemma_extends_trans(r, o2, o1);
            lemma_extends_trans(r, o1, a);
            assert("for ("@.subrange(0, 3) =~= "for"@);
            lemma_word_prefix(o, "for ("@, "for"@);
            lemma_extends_trans(r, a, o + "for"@);
            lemma_extends_trans(r, a, o);
        },
        SStmtKind::While { cond, body } => {
            let a = o + "while ("@;
            lemma_app(o, "while ("@);
            lemma_expr_extends(a, cond, ind);
            lemma_app(pr_expr(a, cond, ind), ")"@);
            lemma_body_extends(pr_expr(a, cond, ind) + ")"@, *body, ind);
            lemma_extends_trans(r, pr_expr(a, cond, ind) + ")"@, pr_expr(a, cond, ind));
            lemma_extends_trans(r, pr_expr(a, cond, ind), a);
            assert("while ("@.subrange(0, 5) =~= "while"@);
            lemma_word_prefix(o, "while ("@, "while"@);
            lemma_extends_trans(r, a, o + "while"@);
            lemma_extends_trans(r, a, o);
        },
        SStmtKind::Break => {
            assert("break;"@.subrange(0, 5) =~= "break"@);
            lemma_word_prefix(o, "break;"@, "break"@);
            lemma_app(o, "break;"@);
        },
        SStmtKind::Continue => {
            assert("continue;"@.subrange(0, 8) =~= "continue"@);
            lemma_word_prefix(o, "continue;"@, "continue"@);
            lemma_app(o, "continue;"@);
        },
        SStmtKind::Return(None) => {
            assert("return;"@.subrange(0, 6) =~= "return"@);
            lemma_word_prefix(o, "return;"@, "return"@);
            lemma_app(o, "return;"@);
        },
        SStmtKind::Return(Some(e)) => {
            let a = o + "return "@;
            lemma_app(o, "return "@);
            lemma_expr_extends(a, e, ind);
            lemma_app(pr_expr(a, e, ind), ";"@);
            lemma_extends_trans(r, pr_expr(a, e, ind), a);
            assert("return "@.subrange(0, 6) =~= "return"@);
            lemma_word_prefix(o, "return "@, "return"@);
            lemma_extends_trans(r, a, o + "return"@);
            lemma_extends_trans(r, a, o);
        },
        SStmtKind::Throw(e) => {
            let a = o + "throw "@;
            lemma_app(o, "throw "@);
            lemma_expr_extends(a, e, ind);
            lemma_app(pr_expr(a, e, ind), ";"@);
            lemma_extends_trans(r, pr_expr(a, e, ind), a);
            assert("throw "@.subrange(0, 5) =~= "throw"@);
            lemma_word_prefix(o, "throw "@, "throw"@);
            lemma_extends_trans(r, a, o + "throw"@);
            lemma_extends_trans(r, a, o);
        },
        SStmtKind::Try { silent, body, catch } => {
            let a = if silent {
                o + "try silent"@
            } else {
                o + "try"@
            };
            lemma_app(o, "try silent"@);
            lemma_app(o, "try"@);
            assert("try silent"@.subrange(0, 3) =~= "try"@);
            assert("try"@.subrange(0, 3) =~= "try"@);
            lemma_word_prefix(o, "try silent"@, "try"@);
            lemma_word_prefix(o, "try"@, "try"@);
            lemma_block_extends(newline(a, ind), body, ind);
            lemma_newline(a, ind, Seq::<char>::empty());
            assert(newline(a, ind) + Seq::<char>::empty() =~= newline(a, ind));
            let o1 = pr_block(newline(a, ind), body, ind);
            lemma_extends_trans(o1, newline(a, ind), a);
            match catch {
                Some(c) => {
                    let o2 = newline(o1, ind) + "catch"@;
                    lemma_newline(o1, ind, "catch"@);
                    let o3 = match c.param {
                        Some(p) => o2 + " ("@ + p.name + ")"@,
                        None => o2,
                    };
                    lemma_app(o2, " ("@);
                    lemma_app(o2 + " ("@, match c.param {
                        Some(p) => p.name,
                        None => Seq::<char>::empty(),
                    });
                    match c.param {
                        Some(p) => {
                            lemma_app(o2 + " ("@ + p.name, ")"@);
                            lemma_extends_trans(o3, o2 + " ("@ + p.name, o2 + " ("@);
                            lemma_extends_trans(o3, o2 + " ("@, o2);
                        },
                        None => {},
                    }
                    lemma_block_extends(newline(o3, ind), c.body, ind);
                    lemma_newline(o3, ind, Seq::<char>::empty());
                    assert(newline(o3, ind) + Seq::<char>::empty() =~= newline(o3, ind));
                    lemma_extends_trans(r, newline(o3, ind), o3);
                    lemma_extends_trans(r, o3, o2);
                    lemma_extends_trans(r, o2, o1);
                },
                None => {},
            }
            lemma_extends_trans(r, o1, a);
            if silent {
                lemma_extends_trans(r, a, o + "try"@);
            }
            lemma_extends_trans(r, a, o);
        },
        SStmtKind::Empty => {
            lemma_app(o, ";"@);
            assert(token_text(SKind::Semi) =~= ";"@);
        },
    }
}

/// The token a unary operator is written with.
pub open spec fn unary_token(op: UnaryOp) -> SKind {
    match op {
        UnaryOp::Neg => SKind::Minus,
        UnaryOp::Not => SKind::Bang,
    }
}

/// A unary operator is printed as the token the parser reads it from, and
/// the parser reads that token, where an operand starts, as that operator.
pub proof fn lemma_unary_operators_round_trip(o: Seq<char>, e: SExpr, ind: usize, ts: Seq<SToken>, st: PState)
    ensures
        e.kind matches SExprKind::Unary { op, .. } ==> extends(
            pr_expr(o, e, ind),
            o + token_text(unary_token(op)),
        ),
        in_range(ts, st) && (peek(ts, st) == SKind::Minus || peek(ts, st) == SKind::Bang) ==> (p_unary(
            ts,
            st,
        ) matches (Ok(y), _) ==> y.kind matches SExprKind::Unary { op, .. } && unary_token(op)
            == peek(ts, st)),
{
    reveal_strlit("-");
    reveal_strlit("!");
    match e.kind {
        SExprKind::Unary { op, expr } => {
            let a = match op {
                UnaryOp::Neg => o + "-"@,
                UnaryOp::Not => o + "!"@,
            };
            lemma_sub_extends(a, *expr, 12, ind);
            assert(a =~= o + token_text(unary_token(op)));
        },
        _ => {},
    }
}

proof fn lemma_named_args_extends(o: Seq<char>, args: Seq<SNamedArg>, ind: usize)
    ensures
        extends(pr_named_args(o, args, ind), o),
    decreases args.len(),
{
    if args.len() > 0 {
        lemma_named_args_extends(o, args.drop_last(), ind);
        let a = comma(pr_named_args(o, args.drop_last(), ind), args.len() > 1);
        lemma_app(a, args.last().name.name + " : "@);
        assert(a + args.last().name.name + " : "@ =~= a + (args.last().name.name + " : "@));
        lemma_expr_extends(a + args.last().name.name + " : "@, args.last().value, ind);
        lemma_extends_trans(
            pr_named_args(o, args, ind),
            a + args.last().name.name + " : "@,
            a,
        );
        lemma_app(pr_named_args(o, args.drop_last(), ind), ", "@);
        lemma_extends_trans(pr_named_args(o, args, ind), a, pr_named_args(o, args.drop_last(), ind));
        lemma_extends_trans(pr_named_args(o, args, ind), pr_named_args(o, args.drop_last(), ind), o);
    }
}

/// The printer writes a declaration (after its doc comment, annotation and
/// `export`) starting with the token its kind starts with: the token from
/// which the parser reads the kind back
/// (`grammar::lemma_item_kind_follows_first_token`).
pub proof fn lemma_item_kind_extends_lead(o: Seq<char>, k: SItemKind, ind: usize)
    ensures
        extends(pr_item_kind(o, k, ind), o + token_text(item_lead(k))),
{
    reveal_strlit("import(");
    reveal_strlit("import");
    reveal_strlit("function ");
    reveal_strlit("function");
    reveal_strlit("operator");
    reveal_strlit("predicate ");
    reveal_strlit("predicate");
    reveal_strlit("type ");
    reveal_strlit("type");
    reveal_strlit("enum ");
    reveal_strlit("enum");
    reveal_strlit("const ");
    reveal_strlit("const");
    reveal_strlit("var ");
    reveal_strlit("var");
    let r = pr_item_kind(o, k, ind);
    match k {
        SItemKind::Import(i) => {
            let a = o + "import("@;
            lemma_named_args_extends(a, i.args, ind);
            lemma_app(pr_named_args(a, i.args, ind), ");"@);
            lemma_extends_trans(r, pr_named_args(a, i.args, ind), a);
            assert("import("@.subrange(0, 6) =~= "import"@);
            lemma_word_prefix(o, "import("@, "import"@);
            lemma_extends_trans(r, a, o + "import"@);
        },
        SItemKind::Function(f) => {
            let a = o + "function "@;
            lemma_app(a, f.name.name);
            lemma_sig_extends(a + f.name.name, f.sig, ind);
            lemma_extends_trans(r, a + f.name.name, a);
            assert("function "@.subrange(0, 8) =~= "function"@);
            lemma_word_prefix(o, "function "@, "function"@);
            lemma_extends_trans(r, a, o + "function"@);
        },
        SItemKind::Operator(x) => {
            let a = o + "operator"@;
            lemma_app(a, x.op);
            lemma_sig_extends(a + x.op, x.sig, ind);
            lemma_extends_trans(r, a + x.op, a);
        },
        SItemKind::Predicate(p) => {
            let a = o + "predicate "@;
            lemma_app(a, p.name.name);
            lemma_params(a + p.name.name, p.params);
            let b = pr_params(a + p.name.name, p.params);
            lemma_precondition_extends(b, p.precondition, ind);
            let c = pr_precondition(b, p.precondition, ind);
            lemma_newline(c, ind, Seq::<char>::empty());
            assert(newline(c, ind) + Seq::<char>::empty() =~= newline(c, ind));
            lemma_block_extends(newline(c, ind), p.body, ind);
            lemma_extends_trans(r, newline(c, ind), c);
            lemma_extends_trans(r, c, b);
            lemma_extends_trans(r, b, a + p.name.name);
            lemma_extends_trans(r, a + p.name.name, a);
            assert("predicate "@.subrange(0, 9) =~= "predicate"@);
            lemma_word_prefix(o, "predicate "@, "predicate"@);
            lemma_extends_trans(r, a, o + "predicate"@);
        },
        SItemKind::Type(t) => {
            let a = o + "type "@;
            lemma_app(a, t.name.name);
            match t.typecheck {
                Some(tc) => {
                    lemma_app(a + t.name.name, " typecheck "@);
                    lemma_app(a + t.name.name + " typecheck "@, tc.name);
                    lemma_extends_trans(
                        a + t.name.name + " typecheck "@ + tc.name,
                        a + t.name.name + " typecheck "@,
                        a + t.name.name,
                    );
                    lemma_app(a + t.name.name + " typecheck "@ + tc.name, ";"@);
                    lemma_extends_trans(r, a + t.name.name + " typecheck "@ + tc.name, a + t.name.name);
                },
                None => {
                    lemma_app(a + t.name.name, ";"@);
                },
            }
            lemma_extends_trans(r, a + t.name.name, a);
            assert("type "@.subrange(0, 4) =~= "type"@);
            lemma_word_prefix(o, "type "@, "type"@);
            lemma_extends_trans(r, a, o + "type"@);
        },
        SItemKind::Enum(e) => {
            let a = o + "enum "@;
            lemma_app(a, e.name.name);
            let b = newline(a + e.name.name, ind) + "{"@;
            lemma_newline(a + e.name.name, ind, "{"@);
            lemma_members_extends(b, e.members, e.members.len(), deeper(ind));
            let c = pr_members(b, e.members, e.members.len(), deeper(ind));
            lemma_newline(c, ind, "}"@);
            lemma_extends_trans(r, c, b);
            lemma_extends_trans(r, b, a + e.name.name);
            lemma_extends_trans(r, a + e.name.name, a);
            assert("enum "@.subrange(0, 4) =~= "enum"@);
            lemma_word_prefix(o, "enum "@, "enum"@);
            lemma_extends_trans(r, a, o + "enum"@);
        },
        SItemKind::Const(v) => {
            lemma_var_decl_extends(o + "const "@, v, ind);
            assert("const "@.subrange(0, 5) =~= "const"@);
            lemma_word_prefix(o, "const "@, "const"@);
            lemma_extends_trans(r, o + "const "@, o + "const"@);
        },
        SItemKind::Var(v) => {
            lemma_var_decl_extends(o + "var "@, v, ind);
            assert("var "@.subrange(0, 3) =~= "var"@);
            lemma_word_prefix(o, "var "@, "var"@);
            lemma_extends_trans(r, o + "var "@, o + "var"@);
        },
    }
}

proof fn lemma_doc_extends(o: Seq<char>, doc: Option<Seq<char>>, ind: usize)
    ensures
        extends(pr_doc(o, doc, ind), o),
{
    match doc {
        Some(d) => {
            lemma_app(o, "/**"@ + d + "*/"@);
            assert(o + "/**"@ + d + "*/"@ =~= o + ("/**"@ + d + "*/"@));
            lemma_newline(o + "/**"@ + d + "*/"@, ind, Seq::<char>::empty());
            assert(newline(o + "/**"@ + d + "*/"@, ind) + Seq::<char>::empty() =~= newline(
                o + "/**"@ + d + "*/"@,
                ind,
            ));
            lemma_extends_trans(pr_doc(o, doc, ind), o + "/**"@ + d + "*/"@, o);
        },
        None => {},
    }
}

proof fn lemma_members_extends(o: Seq<char>, ms: Seq<SEnumMember>, total: nat, ind: usize)
    ensures
        extends(pr_members(o, ms, total, ind), o),
    decreases ms.len(),
{
    if ms.len() > 0 {
        lemma_members_extends(o, ms.drop_last(), total, ind);
        let m = ms.last();
        let a = pr_members(o, ms.drop_last(), total, ind);
        lemma_newline(a, ind, Seq::<char>::empty());
        assert(newline(a, ind) + Seq::<char>::empty() =~= newline(a, ind));
        lemma_doc_extends(newline(a, ind), m.doc, ind);
        let b = pr_doc(newline(a, ind), m.doc, ind);
        lemma_opt_annotation_extends(b, m.annotation, ind);
        let c = pr_opt_annotation(b, m.annotation, ind);
        lemma_app(c, m.name.name);
        lemma_app(c + m.name.name, ","@);
        let r = pr_members(o, ms, total, ind);
        lemma_extends_trans(c + m.name.name + ","@, c + m.name.name, c);
        lemma_extends_trans(r, c, b);
        lemma_extends_trans(r, b, newline(a, ind));
        lemma_extends_trans(r, newline(a, ind), a);
        lemma_extends_trans(r, a, o);
    }
}

/// The token a declaration of kind `k` starts with.
pub open spec fn item_lead(k: SItemKind) -> SKind {
    match k {
        SItemKind::Import(_) => SKind::Kw(Keyword::Import),
        SItemKind::Function(_) => SKind::Kw(Keyword::Function),
        SItemKind::Predicate(_) => SKind::Kw(Keyword::Predicate),
        SItemKind::Operator(_) => SKind::Kw(Keyword::Operator),
        SItemKind::Type(_) => SKind::Kw(Keyword::Type),
        SItemKind::Enum(_) => SKind::Kw(Keyword::Enum),
        SItemKind::Const(_) => SKind::Kw(Keyword::Const),
        SItemKind::Var(_) => SKind::Kw(Keyword::Var),
    }
}

/// A declaration's first token decides its kind: every declaration the
/// parser reads (after its annotation and `export`) starts with the token
/// its kind starts with.
pub proof fn lemma_item_kind_follows_first_token(ts: Seq<SToken>, st: PState, start: Span)
    ensures
        p_item_kind(ts, st, start) matches (Ok(k), _) ==> peek(ts, st) == item_lead(k),
{
    reveal(error_at);
}

} // verus!
