//! What a walk reaches: the leaves of an expression (its names and literals,
//! and the blocks and function signatures inside it) in source order, and
//! the law that the children of an expression cover exactly those leaves,
//! one child after another; the same for statements.

use crate::ast::{SExpr, SExprKind, SForInit, SLambdaBody, SMapEntry, SStmt, SStmtKind};
use crate::visit::{
    annotation_nodes, entry_nodes, expr_child_nodes, expr_nodes, opt_expr_nodes, stmt_child_nodes,
    stmt_kind_child_nodes, SNode,
};
use vstd::prelude::*;

verus! {

/// The leaves of an expression in source order: a name or literal is its
/// own leaf; blocks and function signatures inside it are leaves; every
/// other expression's leaves are those of its parts, left to right.
pub open spec fn expr_leaves(e: SExpr) -> Seq<SNode>
    decreases e, 1int,
{
    match e.kind {
        SExprKind::Array(items) => list_leaves(items),
        SExprKind::MapLiteral(entries) => entry_leaves(entries),
        SExprKind::Switch { scrutinee, cases } => expr_leaves(*scrutinee) + entry_leaves(cases),
        SExprKind::Paren(x) => expr_leaves(*x),
        SExprKind::New(x) => expr_leaves(*x),
        SExprKind::Deref(x) => expr_leaves(*x),
        SExprKind::Unary { expr, .. } => expr_leaves(*expr),
        SExprKind::Try { expr, .. } => expr_leaves(*expr),
        SExprKind::Binary { lhs, rhs, .. } => expr_leaves(*lhs) + expr_leaves(*rhs),
        SExprKind::Assign { target, value, .. } => expr_leaves(*target) + expr_leaves(*value),
        SExprKind::Ternary { cond, then, else_ } => expr_leaves(*cond) + expr_leaves(*then)
            + expr_leaves(*else_),
        SExprKind::Is { expr, .. } => expr_leaves(*expr),
        SExprKind::As { expr, .. } => expr_leaves(*expr),
        SExprKind::Member { object, .. } => expr_leaves(*object),
        SExprKind::Index { object, index } => expr_leaves(*object) + expr_leaves(*index),
        SExprKind::Call { callee, args } => expr_leaves(*callee) + list_leaves(args),
        SExprKind::Pipe { receiver, call } => expr_leaves(*receiver) + expr_leaves(*call),
        SExprKind::Lambda { body, .. } => match *body {
            SLambdaBody::Expr(x) => expr_leaves(x),
            SLambdaBody::Block(b) => seq![SNode::Block(b)],
        },
        SExprKind::Function(sig) => seq![SNode::FunctionSig(sig)],
        _ => seq![SNode::Expr(e)],
    }
}

/// The leaves of a list of expressions, one after another.
pub open spec fn list_leaves(es: Seq<SExpr>) -> Seq<SNode>
    decreases es, 0int,
{
    if es.len() == 0 {
        Seq::empty()
    } else {
        list_leaves(es.drop_last()) + expr_leaves(es.last())
    }
}

/// The leaves of map entries: each key's, then its value's.
pub open spec fn entry_leaves(es: Seq<SMapEntry>) -> Seq<SNode>
    decreases es, 0int,
{
    if es.len() == 0 {
        Seq::empty()
    } else {
        entry_leaves(es.drop_last()) + expr_leaves(es.last().key) + expr_leaves(es.last().value)
    }
}

/// Whether an expression is a name or a literal (it has no parts).
pub open spec fn is_atom(e: SExpr) -> bool {
    e.kind is Number || e.kind is Str || e.kind is Bool || e.kind is Undefined || e.kind is Ident
}

/// The leaves reached from a node: an expression's leaves; any other node
/// is a leaf itself.
pub open spec fn node_leaves(n: SNode) -> Seq<SNode> {
    match n {
        SNode::Expr(x) => expr_leaves(x),
        SNode::Stmt(x) => stmt_leaves(x),
        _ => seq![n],
    }
}

/// The leaves of an optional expression.
pub open spec fn opt_expr_leaves(e: Option<SExpr>) -> Seq<SNode> {
    match e {
        Some(x) => expr_leaves(x),
        None => Seq::empty(),
    }
}

/// The leaves of a statement in source order: its annotation, then those of
/// its kind.
pub open spec fn stmt_leaves(s: SStmt) -> Seq<SNode>
    decreases s, 1int,
{
    (match s.annotation {
        Some(a) => seq![SNode::Annotation(a)],
        None => Seq::empty(),
    }) + stmt_kind_leaves(s.kind)
}

/// The leaves of a statement's kind in source order: the leaves of its
/// expressions and of the statements inside it; its declarations and blocks
/// are leaves.
pub open spec fn stmt_kind_leaves(k: SStmtKind) -> Seq<SNode>
    decreases k, 0int,
{
    match k {
        SStmtKind::Var(d) => seq![SNode::VarDecl(d)],
        SStmtKind::Const(d) => seq![SNode::VarDecl(d)],
        SStmtKind::Expr(e) => expr_leaves(e),
        SStmtKind::Throw(e) => expr_leaves(e),
        SStmtKind::Block(b) => seq![SNode::Block(b)],
        SStmtKind::If { cond, then, else_ } => expr_leaves(cond) + stmt_leaves(*then) + (match else_ {
            Some(x) => stmt_leaves(*x),
            None => Seq::empty(),
        }),
        SStmtKind::For { init, cond, step, body } => (match init {
            Some(SForInit::Var(d)) => seq![SNode::VarDecl(d)],
            Some(SForInit::Expr(e)) => expr_leaves(e),
            None => Seq::empty(),
        }) + opt_expr_leaves(cond) + opt_expr_leaves(step) + stmt_leaves(*body),
        SStmtKind::ForIn { iter, body, .. } => expr_leaves(iter) + stmt_leaves(*body),
        SStmtKind::While { cond, body } => expr_leaves(cond) + stmt_leaves(*body),
        SStmtKind::Return(e) => opt_expr_leaves(e),
        SStmtKind::Try { body, catch, .. } => seq![SNode::Block(body)] + (match catch {
            Some(c) => seq![SNode::Block(c.body)],
            None => Seq::empty(),
        }),
        SStmtKind::Break | SStmtKind::Continue | SStmtKind::Empty => Seq::empty(),
    }
}

/// The leaves reached from a list of nodes, one after another.
pub open spec fn nodes_leaves(ns: Seq<SNode>) -> Seq<SNode>
    decreases ns.len(),
{
    if ns.len() == 0 {
        Seq::empty()
    } else {
        nodes_leaves(ns.drop_last()) + node_leaves(ns.last())
    }
}

proof fn lemma_nodes_leaves_concat(a: Seq<SNode>, b: Seq<SNode>)
    ensures
        nodes_leaves(a + b) == nodes_leaves(a) + nodes_leaves(b),
    decreases b.len(),
{
    if b.len() == 0 {
        assert(a + b =~= a);
        assert(nodes_leaves(a) + Seq::<SNode>::empty() =~= nodes_leaves(a));
    } else {
        assert((a + b).drop_last() =~= a + b.drop_last());
        lemma_nodes_leaves_concat(a, b.drop_last());
        assert((a + b).last() == b.last());
        assert(nodes_leaves(a) + nodes_leaves(b.drop_last()) + node_leaves(b.last()) =~= nodes_leaves(
            a,
        ) + (nodes_leaves(b.drop_last()) + node_leaves(b.last())));
    }
}

proof fn lemma_nodes_leaves_one(n: SNode)
    ensures
        nodes_leaves(seq![n]) == node_leaves(n),
{
    assert(seq![n].drop_last() =~= Seq::<SNode>::empty());
    assert(nodes_leaves(Seq::<SNode>::empty()) =~= Seq::<SNode>::empty());
    assert(seq![n].last() == n);
    assert(Seq::<SNode>::empty() + node_leaves(n) =~= node_leaves(n));
}

proof fn lemma_nodes_leaves_two(a: SNode, b: SNode)
    ensures
        nodes_leaves(seq![a, b]) == node_leaves(a) + node_leaves(b),
{
    assert(seq![a, b] =~= seq![a] + seq![b]);
    lemma_nodes_leaves_concat(seq![a], seq![b]);
    lemma_nodes_leaves_one(a);
    lemma_nodes_leaves_one(b);
}

proof fn lemma_nodes_leaves_three(a: SNode, b: SNode, c: SNode)
    ensures
        nodes_leaves(seq![a, b, c]) == node_leaves(a) + node_leaves(b) + node_leaves(c),
{
    assert(seq![a, b, c] =~= seq![a, b] + seq![c]);
    lemma_nodes_leaves_concat(seq![a, b], seq![c]);
    lemma_nodes_leaves_two(a, b);
    lemma_nodes_leaves_one(c);
}

proof fn lemma_list_nodes_leaves(es: Seq<SExpr>)
    ensures
        nodes_leaves(expr_nodes(es)) == list_leaves(es),
    decreases es.len(),
{
    if es.len() > 0 {
        assert(expr_nodes(es).drop_last() =~= expr_nodes(es.drop_last()));
        lemma_list_nodes_leaves(es.drop_last());
    } else {
        assert(expr_nodes(es) =~= Seq::<SNode>::empty());
    }
}

proof fn lemma_entry_nodes_leaves(es: Seq<SMapEntry>)
    ensures
        nodes_leaves(entry_nodes(es)) == entry_leaves(es),
    decreases es.len(),
{
    if es.len() > 0 {
        lemma_entry_nodes_leaves(es.drop_last());
        lemma_nodes_leaves_concat(
            entry_nodes(es.drop_last()),
            seq![SNode::Expr(es.last().key), SNode::Expr(es.last().value)],
        );
        lemma_nodes_leaves_two(SNode::Expr(es.last().key), SNode::Expr(es.last().value));
        assert(entry_leaves(es.drop_last()) + (expr_leaves(es.last().key) + expr_leaves(
            es.last().value,
        )) =~= entry_leaves(es.drop_last()) + expr_leaves(es.last().key) + expr_leaves(
            es.last().value,
        ));
    }
}

/// Walking down one level loses nothing and keeps the order: a name or
/// literal is its own single leaf, and the leaves of any other expression
/// are exactly the leaves of its children, one child after another. So a
/// walk that hands every child on reaches every part of the expression, in
/// source order, and a list of children that left a part out, repeated one
/// or changed their order would break this.
pub proof fn lemma_children_cover_leaves(e: SExpr)
    ensures
        expr_leaves(e) == if is_atom(e) {
            seq![SNode::Expr(e)]
        } else {
            nodes_leaves(expr_child_nodes(e))
        },
{
    match e.kind {
        SExprKind::Array(items) => lemma_list_nodes_leaves(items),
        SExprKind::MapLiteral(entries) => lemma_entry_nodes_leaves(entries),
        SExprKind::Switch { scrutinee, cases } => {
            lemma_entry_nodes_leaves(cases);
            lemma_nodes_leaves_concat(seq![SNode::Expr(*scrutinee)], entry_nodes(cases));
            lemma_nodes_leaves_one(SNode::Expr(*scrutinee));
        },
        SExprKind::Call { callee, args } => {
            lemma_list_nodes_leaves(args);
            lemma_nodes_leaves_concat(seq![SNode::Expr(*callee)], expr_nodes(args));
            lemma_nodes_leaves_one(SNode::Expr(*callee));
        },
        SExprKind::Paren(x) => lemma_nodes_leaves_one(SNode::Expr(*x)),
        SExprKind::New(x) => lemma_nodes_leaves_one(SNode::Expr(*x)),
        SExprKind::Deref(x) => lemma_nodes_leaves_one(SNode::Expr(*x)),
        SExprKind::Unary { expr, .. } => lemma_nodes_leaves_one(SNode::Expr(*expr)),
        SExprKind::Try { expr, .. } => lemma_nodes_leaves_one(SNode::Expr(*expr)),
        SExprKind::Is { expr, .. } => lemma_nodes_leaves_one(SNode::Expr(*expr)),
        SExprKind::As { expr, .. } => lemma_nodes_leaves_one(SNode::Expr(*expr)),
        SExprKind::Member { object, .. } => lemma_nodes_leaves_one(SNode::Expr(*object)),
        SExprKind::Binary { lhs, rhs, .. } => lemma_nodes_leaves_two(
            SNode::Expr(*lhs),
            SNode::Expr(*rhs),
        ),
        SExprKind::Assign { target, value, .. } => lemma_nodes_leaves_two(
            SNode::Expr(*target),
            SNode::Expr(*value),
        ),
        SExprKind::Index { object, index } => lemma_nodes_leaves_two(
            SNode::Expr(*object),
            SNode::Expr(*index),
        ),
        SExprKind::Pipe { receiver, call } => lemma_nodes_leaves_two(
            SNode::Expr(*receiver),
            SNode::Expr(*call),
        ),
        SExprKind::Ternary { cond, then, else_ } => lemma_nodes_leaves_three(
            SNode::Expr(*cond),
            SNode::Expr(*then),
            SNode::Expr(*else_),
        ),
        SExprKind::Lambda { body, .. } => match *body {
            SLambdaBody::Expr(x) => lemma_nodes_leaves_one(SNode::Expr(x)),
            SLambdaBody::Block(b) => lemma_nodes_leaves_one(SNode::Block(b)),
        },
        SExprKind::Function(sig) => lemma_nodes_leaves_one(SNode::FunctionSig(sig)),
        _ => {},
    }
}

proof fn lemma_opt_expr_nodes_leaves(e: Option<SExpr>)
    ensures
        nodes_leaves(opt_expr_nodes(e)) == opt_expr_leaves(e),
{
    match e {
        Some(x) => lemma_nodes_leaves_one(SNode::Expr(x)),
        None => {
            assert(nodes_leaves(Seq::<SNode>::empty()) =~= Seq::<SNode>::empty());
        },
    }
}

proof fn lemma_nodes_leaves_empty()
    ensures
        nodes_leaves(Seq::<SNode>::empty()) == Seq::<SNode>::empty(),
{
}

/// The same for statements: the leaves of a statement's kind are exactly
/// the leaves of its children, one child after another, and so are those of
/// a statement with its annotation. A list of children that left out a
/// branch, a condition or a body, or changed their order, would break this.
pub proof fn lemma_stmt_children_cover_leaves(s: SStmt)
    ensures
        stmt_kind_leaves(s.kind) == nodes_leaves(stmt_kind_child_nodes(s.kind)),
        stmt_leaves(s) == nodes_leaves(stmt_child_nodes(s)),
{
    lemma_nodes_leaves_empty();
    let k = s.kind;
    match k {
        SStmtKind::Var(d) => lemma_nodes_leaves_one(SNode::VarDecl(d)),
        SStmtKind::Const(d) => lemma_nodes_leaves_one(SNode::VarDecl(d)),
        SStmtKind::Expr(e) => lemma_nodes_leaves_one(SNode::Expr(e)),
        SStmtKind::Throw(e) => lemma_nodes_leaves_one(SNode::Expr(e)),
        SStmtKind::Block(b) => lemma_nodes_leaves_one(SNode::Block(b)),
        SStmtKind::If { cond, then, else_ } => {
            let tail: Seq<SNode> = match else_ {
                Some(x) => seq![SNode::Stmt(*x)],
                None => Seq::empty(),
            };
            lemma_nodes_leaves_concat(seq![SNode::Expr(cond), SNode::Stmt(*then)], tail);
            lemma_nodes_leaves_two(SNode::Expr(cond), SNode::Stmt(*then));
            match else_ {
                Some(x) => lemma_nodes_leaves_one(SNode::Stmt(*x)),
                None => {},
            }
        },
        SStmtKind::For { init, cond, step, body } => {
            let a: Seq<SNode> = match init {
                Some(SForInit::Var(d)) => seq![SNode::VarDecl(d)],
                Some(SForInit::Expr(e)) => seq![SNode::Expr(e)],
                None => Seq::empty(),
            };
            match init {
                Some(SForInit::Var(d)) => lemma_nodes_leaves_one(SNode::VarDecl(d)),
                Some(SForInit::Expr(e)) => lemma_nodes_leaves_one(SNode::Expr(e)),
                None => {},
            }
            lemma_opt_expr_nodes_leaves(cond);
            lemma_opt_expr_nodes_leaves(step);
            lemma_nodes_leaves_one(SNode::Stmt(*body));
            lemma_nodes_leaves_concat(a, opt_expr_nodes(cond));
            lemma_nodes_leaves_concat(a + opt_expr_nodes(cond), opt_expr_nodes(step));
            lemma_nodes_leaves_concat(
                a + opt_expr_nodes(cond) + opt_expr_nodes(step),
                seq![SNode::Stmt(*body)],
            );
        },
        SStmtKind::ForIn { iter, body, .. } => lemma_nodes_leaves_two(
            SNode::Expr(iter),
            SNode::Stmt(*body),
        ),
        SStmtKind::While { cond, body } => lemma_nodes_leaves_two(
            SNode::Expr(cond),
            SNode::Stmt(*body),
        ),
        SStmtKind::Return(e) => lemma_opt_expr_nodes_leaves(e),
        SStmtKind::Try { body, catch, .. } => {
            let tail: Seq<SNode> = match catch {
                Some(c) => seq![SNode::Block(c.body)],
                None => Seq::empty(),
            };
            lemma_nodes_leaves_concat(seq![SNode::Block(body)], tail);
            lemma_nodes_leaves_one(SNode::Block(body));
            match catch {
                Some(c) => lemma_nodes_leaves_one(SNode::Block(c.body)),
                None => {},
            }
        },
        _ => {},
    }
    lemma_nodes_leaves_concat(annotation_nodes(s.annotation), stmt_kind_child_nodes(k));
    match s.annotation {
        Some(a) => lemma_nodes_leaves_one(SNode::Annotation(a)),
        None => {},
    }
}

} // verus!
