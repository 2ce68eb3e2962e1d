//! A generic read-only syntax-tree walker.
//!
//! Implement [`Visitor`]; the free `walk_*` functions hand a node's children
//! to the hooks, each once and in source order, so a hook decides whether
//! to recurse by calling the matching `walk_*` function itself. Which
//! children, and in what order, is what the `*_children` functions return;
//! their contracts state it exactly.

use crate::ast::{
    annotation_view, block_view, catch_clause_view, entries_view, for_init_view, exprs_view, function_sig_view, item_view,
    items_view, lambda_body_view, lemma_entries_view_index, lemma_exprs_view_index, lemma_items_view_index,
    lemma_members_view_index, lemma_named_args_view_index, lemma_stmts_view_index, members_view,
    named_args_view, stmt_view, stmts_view, var_decl_view, Annotation, Block, Expr, ExprKind,
    ForInit, FunctionSig, Item, ItemKind, LambdaBody, MapEntry, Module, SAnnotation, SBlock,
    SEnumMember, SExpr, SExprKind, SForInit, SFunctionSig, SItem, SItemKind, SLambdaBody,
    SMapEntry, SModule, SNamedArg, SStmt, SStmtKind, SVarDecl, Stmt, StmtKind, VarDecl,
};
use vstd::prelude::*;

verus! {

/// Hooks called while walking a tree. An implementation decides, hook by
/// hook, whether to descend: the plain walk of a node is the matching
/// `walk_*` function (`fn visit_expr(&mut self, e: &Expr) { walk_expr(self, e) }`).
pub trait Visitor {
    fn visit_module(&mut self, m: &Module);

    fn visit_item(&mut self, item: &Item);

    fn visit_annotation(&mut self, a: &Annotation);

    fn visit_function_sig(&mut self, sig: &FunctionSig);

    fn visit_block(&mut self, b: &Block);

    fn visit_stmt(&mut self, s: &Stmt);

    fn visit_var_decl(&mut self, v: &VarDecl);

    fn visit_expr(&mut self, e: &Expr);
}

/// A node handed to a hook.
#[derive(Clone, Copy)]
pub enum Node<'a> {
    Item(&'a Item),
    Annotation(&'a Annotation),
    FunctionSig(&'a FunctionSig),
    Block(&'a Block),
    Stmt(&'a Stmt),
    VarDecl(&'a VarDecl),
    Expr(&'a Expr),
}

/// The view of a [`Node`].
pub enum SNode {
    Item(SItem),
    Annotation(SAnnotation),
    FunctionSig(SFunctionSig),
    Block(SBlock),
    Stmt(SStmt),
    VarDecl(SVarDecl),
    Expr(SExpr),
}

pub open spec fn node_view<'a>(n: Node<'a>) -> SNode {
    match n {
        Node::Item(x) => SNode::Item(x@),
        Node::Annotation(x) => SNode::Annotation(x@),
        Node::FunctionSig(x) => SNode::FunctionSig(x@),
        Node::Block(x) => SNode::Block(x@),
        Node::Stmt(x) => SNode::Stmt(x@),
        Node::VarDecl(x) => SNode::VarDecl(x@),
        Node::Expr(x) => SNode::Expr(x@),
    }
}

impl<'a> View for Node<'a> {
    type V = SNode;

    open spec fn view(&self) -> SNode {
        node_view(*self)
    }
}

/// The views of a sequence of nodes.
pub open spec fn nodes_view<'a>(ns: Seq<Node<'a>>) -> Seq<SNode> {
    ns.map_values(|n: Node<'a>| node_view(n))
}

// ---------------------------------------------------------------------------
// Which children, in which order
// ---------------------------------------------------------------------------

/// Expressions, each as a node.
pub open spec fn expr_nodes(es: Seq<SExpr>) -> Seq<SNode> {
    es.map_values(|x: SExpr| SNode::Expr(x))
}

/// The key, then the value, of each entry.
pub open spec fn entry_nodes(es: Seq<SMapEntry>) -> Seq<SNode>
    decreases es.len(),
{
    if es.len() == 0 {
        Seq::empty()
    } else {
        entry_nodes(es.drop_last()) + seq![SNode::Expr(es.last().key), SNode::Expr(es.last().value)]
    }
}

/// The value of each named argument.
pub open spec fn arg_nodes(args: Seq<SNamedArg>) -> Seq<SNode> {
    args.map_values(|a: SNamedArg| SNode::Expr(a.value))
}

/// The annotation, if there is one.
pub open spec fn annotation_nodes(a: Option<SAnnotation>) -> Seq<SNode> {
    match a {
        Some(x) => seq![SNode::Annotation(x)],
        None => Seq::empty(),
    }
}

/// The annotation of each enum member that has one.
pub open spec fn member_nodes(ms: Seq<SEnumMember>) -> Seq<SNode>
    decreases ms.len(),
{
    if ms.len() == 0 {
        Seq::empty()
    } else {
        member_nodes(ms.drop_last()) + annotation_nodes(ms.last().annotation)
    }
}

/// The block, if there is one.
pub open spec fn block_nodes(b: Option<SBlock>) -> Seq<SNode> {
    match b {
        Some(x) => seq![SNode::Block(x)],
        None => Seq::empty(),
    }
}

/// The expression, if there is one.
pub open spec fn opt_expr_nodes(e: Option<SExpr>) -> Seq<SNode> {
    match e {
        Some(x) => seq![SNode::Expr(x)],
        None => Seq::empty(),
    }
}

/// The children of a module: its items.
pub open spec fn module_child_nodes(m: SModule) -> Seq<SNode> {
    m.items.map_values(|i: SItem| SNode::Item(i))
}

/// The children of an item: its annotation, then the import's argument
/// values, the function's or operator's signature, the predicate's
/// precondition and body, the enum members' annotations, or the declaration.
pub open spec fn item_child_nodes(it: SItem) -> Seq<SNode> {
    annotation_nodes(it.annotation) + (match it.kind {
        SItemKind::Import(i) => arg_nodes(i.args),
        SItemKind::Function(f) => seq![SNode::FunctionSig(f.sig)],
        SItemKind::Operator(o) => seq![SNode::FunctionSig(o.sig)],
        SItemKind::Predicate(p) => block_nodes(p.precondition) + seq![SNode::Block(p.body)],
        SItemKind::Type(_) => Seq::empty(),
        SItemKind::Enum(e) => member_nodes(e.members),
        SItemKind::Const(d) => seq![SNode::VarDecl(d)],
        SItemKind::Var(d) => seq![SNode::VarDecl(d)],
    })
}

/// The children of an annotation: the key and value of each entry.
pub open spec fn annotation_child_nodes(a: SAnnotation) -> Seq<SNode> {
    entry_nodes(a.entries)
}

/// The children of a signature: its precondition, then its body.
pub open spec fn function_sig_child_nodes(s: SFunctionSig) -> Seq<SNode> {
    block_nodes(s.precondition) + seq![SNode::Block(s.body)]
}

/// The children of a block: its statements.
pub open spec fn block_child_nodes(b: SBlock) -> Seq<SNode> {
    b.stmts.map_values(|s: SStmt| SNode::Stmt(s))
}

/// The children of a declaration: its initialiser.
pub open spec fn var_decl_child_nodes(d: SVarDecl) -> Seq<SNode> {
    opt_expr_nodes(d.init)
}

/// The children of a statement, in source order, after its annotation.
pub open spec fn stmt_child_nodes(s: SStmt) -> Seq<SNode> {
    annotation_nodes(s.annotation) + stmt_kind_child_nodes(s.kind)
}

/// The children a statement's kind holds, in source order.
pub open spec fn stmt_kind_child_nodes(k: SStmtKind) -> Seq<SNode> {
    match k {
        SStmtKind::Var(d) => seq![SNode::VarDecl(d)],
        SStmtKind::Const(d) => seq![SNode::VarDecl(d)],
        SStmtKind::Expr(e) => seq![SNode::Expr(e)],
        SStmtKind::Throw(e) => seq![SNode::Expr(e)],
        SStmtKind::Block(b) => seq![SNode::Block(b)],
        SStmtKind::If { cond, then, else_ } => seq![SNode::Expr(cond), SNode::Stmt(*then)]
            + (match else_ {
            Some(x) => seq![SNode::Stmt(*x)],
            None => Seq::empty(),
        }),
        SStmtKind::For { init, cond, step, body } => (match init {
            Some(SForInit::Var(d)) => seq![SNode::VarDecl(d)],
            Some(SForInit::Expr(e)) => seq![SNode::Expr(e)],
            None => Seq::empty(),
        }) + opt_expr_nodes(cond) + opt_expr_nodes(step) + seq![SNode::Stmt(*body)],
        SStmtKind::ForIn { iter, body, .. } => seq![SNode::Expr(iter), SNode::Stmt(*body)],
        SStmtKind::While { cond, body } => seq![SNode::Expr(cond), SNode::Stmt(*body)],
        SStmtKind::Return(e) => opt_expr_nodes(e),
        SStmtKind::Try { body, catch, .. } => seq![SNode::Block(body)] + (match catch {
            Some(c) => seq![SNode::Block(c.body)],
            None => Seq::empty(),
        }),
        _ => Seq::empty(),
    }
}

/// The child expressions of an expression in source order: callee before
/// arguments, left before right, key before value; a lambda's body, a
/// function expression's signature.
pub open spec fn expr_child_nodes(e: SExpr) -> Seq<SNode> {
    match e.kind {
        SExprKind::Array(items) => expr_nodes(items),
        SExprKind::MapLiteral(entries) => entry_nodes(entries),
        SExprKind::Switch { scrutinee, cases } => seq![SNode::Expr(*scrutinee)] + entry_nodes(cases),
        SExprKind::Paren(x) => seq![SNode::Expr(*x)],
        SExprKind::New(x) => seq![SNode::Expr(*x)],
        SExprKind::Deref(x) => seq![SNode::Expr(*x)],
        SExprKind::Unary { expr, .. } => seq![SNode::Expr(*expr)],
        SExprKind::Try { expr, .. } => seq![SNode::Expr(*expr)],
        SExprKind::Binary { lhs, rhs, .. } => seq![SNode::Expr(*lhs), SNode::Expr(*rhs)],
        SExprKind::Assign { target, value, .. } => seq![SNode::Expr(*target), SNode::Expr(*value)],
        SExprKind::Ternary { cond, then, else_ } => seq![
            SNode::Expr(*cond),
            SNode::Expr(*then),
            SNode::Expr(*else_),
        ],
        SExprKind::Is { expr, .. } => seq![SNode::Expr(*expr)],
        SExprKind::As { expr, .. } => seq![SNode::Expr(*expr)],
        SExprKind::Member { object, .. } => seq![SNode::Expr(*object)],
        SExprKind::Index { object, index } => seq![SNode::Expr(*object), SNode::Expr(*index)],
        SExprKind::Call { callee, args } => seq![SNode::Expr(*callee)] + expr_nodes(args),
        SExprKind::Pipe { receiver, call } => seq![SNode::Expr(*receiver), SNode::Expr(*call)],
        SExprKind::Lambda { body, .. } => match *body {
            SLambdaBody::Expr(x) => seq![SNode::Expr(x)],
            SLambdaBody::Block(b) => seq![SNode::Block(b)],
        },
        SExprKind::Function(sig) => seq![SNode::FunctionSig(sig)],
        _ => Seq::empty(),
    }
}

// ---------------------------------------------------------------------------
// Listing the children
// ---------------------------------------------------------------------------

proof fn lemma_nodes_push<'a>(ns: Seq<Node<'a>>, n: Node<'a>)
    ensures
        nodes_view(ns.push(n)) == nodes_view(ns).push(node_view(n)),
{
    assert(nodes_view(ns.push(n)) =~= nodes_view(ns).push(node_view(n)));
}

fn push_node<'a>(r: &mut Vec<Node<'a>>, n: Node<'a>)
    ensures
        nodes_view(final(r)@) == nodes_view(old(r)@).push(node_view(n)),
{
    proof {
        lemma_nodes_push(r@, n);
    }
    r.push(n);
}

fn push_exprs<'a>(r: &mut Vec<Node<'a>>, es: &'a Vec<Expr>)
    ensures
        nodes_view(final(r)@) == nodes_view(old(r)@) + expr_nodes(exprs_view(es@)),
{
    let ghost r0 = nodes_view(r@);
    proof {
        lemma_exprs_view_index(es@);
    }
    let mut k: usize = 0;
    while k < es.len()
        invariant
            k <= es@.len(),
            exprs_view(es@).len() == es@.len(),
            forall|i: int| 0 <= i < es@.len() ==> #[trigger] exprs_view(es@)[i] == es@[i]@,
            nodes_view(r@) == r0 + expr_nodes(exprs_view(es@).take(k as int)),
        decreases es@.len() - k,
    {
        push_node(r, Node::Expr(&es[k]));
        assert(expr_nodes(exprs_view(es@).take(k + 1)) =~= expr_nodes(exprs_view(es@).take(k as int)).push(
            SNode::Expr(es@[k as int]@),
        ));
        k = k + 1;
    }
    assert(exprs_view(es@).take(k as int) =~= exprs_view(es@));
}

fn push_entries<'a>(r: &mut Vec<Node<'a>>, es: &'a Vec<MapEntry>)
    ensures
        nodes_view(final(r)@) == nodes_view(old(r)@) + entry_nodes(entries_view(es@)),
{
    let ghost r0 = nodes_view(r@);
    proof {
        lemma_entries_view_index(es@);
        assert(entries_view(es@).take(0) =~= Seq::<SMapEntry>::empty());
        assert(r0 + Seq::<SNode>::empty() =~= r0);
    }
    let mut k: usize = 0;
    while k < es.len()
        invariant
            k <= es@.len(),
            entries_view(es@).len() == es@.len(),
            forall|i: int| 0 <= i < es@.len() ==> #[trigger] entries_view(es@)[i] == es@[i]@,
            nodes_view(r@) == r0 + entry_nodes(entries_view(es@).take(k as int)),
        decreases es@.len() - k,
    {
        let ghost before = entries_view(es@).take(k as int);
        let ghost after = entries_view(es@).take(k + 1);
        push_node(r, Node::Expr(&es[k].key));
        push_node(r, Node::Expr(&es[k].value));
        proof {
            assert(after.drop_last() =~= before);
            assert(after.last() == es@[k as int]@);
            assert(nodes_view(r@) =~= r0 + entry_nodes(after));
        }
        k = k + 1;
    }
    assert(entries_view(es@).take(k as int) =~= entries_view(es@));
}

fn push_annotation<'a>(r: &mut Vec<Node<'a>>, a: &'a Option<Annotation>)
    ensures
        nodes_view(final(r)@) == nodes_view(old(r)@) + annotation_nodes(
            match *a {
                Some(x) => Some(annotation_view(x)),
                None => None,
            },
        ),
{
    match a {
        Some(x) => push_node(r, Node::Annotation(x)),
        None => {
            assert(nodes_view(r@) + Seq::<SNode>::empty() =~= nodes_view(r@));
        },
    }
}

fn push_opt_expr<'a>(r: &mut Vec<Node<'a>>, e: &'a Option<Expr>)
    ensures
        nodes_view(final(r)@) == nodes_view(old(r)@) + opt_expr_nodes(
            match *e {
                Some(x) => Some(x@),
                None => None,
            },
        ),
{
    match e {
        Some(x) => push_node(r, Node::Expr(x)),
        None => {
            assert(nodes_view(r@) + Seq::<SNode>::empty() =~= nodes_view(r@));
        },
    }
}

fn push_opt_block<'a>(r: &mut Vec<Node<'a>>, b: &'a Option<Block>)
    ensures
        nodes_view(final(r)@) == nodes_view(old(r)@) + block_nodes(
            match *b {
                Some(x) => Some(block_view(x)),
                None => None,
            },
        ),
{
    match b {
        Some(x) => push_node(r, Node::Block(x)),
        None => {
            assert(nodes_view(r@) + Seq::<SNode>::empty() =~= nodes_view(r@));
        },
    }
}

/// The nodes [`walk_module`] hands to the hooks: the items, in order.
pub fn module_children<'a>(m: &'a Module) -> (r: Vec<Node<'a>>)
    ensures
        nodes_view(r@) == module_child_nodes(m@),
{
    let mut r: Vec<Node<'a>> = Vec::new();
    proof {
        lemma_items_view_index(m.items@);
    }
    let mut k: usize = 0;
    while k < m.items.len()
        invariant
            k <= m.items@.len(),
            m@.items == items_view(m.items@),
            items_view(m.items@).len() == m.items@.len(),
            forall|i: int| 0 <= i < m.items@.len() ==> #[trigger] items_view(m.items@)[i] == item_view(
                m.items@[i],
            ),
            nodes_view(r@) == items_view(m.items@).take(k as int).map_values(|i: SItem| SNode::Item(i)),
        decreases m.items@.len() - k,
    {
        push_node(&mut r, Node::Item(&m.items[k]));
        assert(items_view(m.items@).take(k + 1).map_values(|i: SItem| SNode::Item(i)) =~= items_view(
            m.items@,
        ).take(k as int).map_values(|i: SItem| SNode::Item(i)).push(SNode::Item(m.items@[k as int]@)));
        k = k + 1;
    }
    assert(items_view(m.items@).take(k as int) =~= m@.items);
    r
}

/// The nodes [`walk_item`] hands to the hooks (see [`item_child_nodes`]).
pub fn item_children<'a>(item: &'a Item) -> (r: Vec<Node<'a>>)
    ensures
        nodes_view(r@) == item_child_nodes(item@),
{
    let mut r: Vec<Node<'a>> = Vec::new();
    assert(nodes_view(r@) =~= Seq::<SNode>::empty());
    push_annotation(&mut r, &item.annotation);
    let ghost r1 = nodes_view(r@);
    match &item.kind {
        ItemKind::Import(i) => {
            proof {
                lemma_named_args_view_index(i.args@);
            }
            let mut k: usize = 0;
            while k < i.args.len()
                invariant
                    k <= i.args@.len(),
                    named_args_view(i.args@).len() == i.args@.len(),
                    forall|j: int| 0 <= j < i.args@.len() ==> #[trigger] named_args_view(i.args@)[j]
                        == i.args@[j]@,
                    nodes_view(r@) == r1 + arg_nodes(named_args_view(i.args@).take(k as int)),
                decreases i.args@.len() - k,
            {
                push_node(&mut r, Node::Expr(&i.args[k].value));
                assert(arg_nodes(named_args_view(i.args@).take(k + 1)) =~= arg_nodes(
                    named_args_view(i.args@).take(k as int),
                ).push(SNode::Expr(i.args@[k as int]@.value)));
                k = k + 1;
            }
            assert(named_args_view(i.args@).take(k as int) =~= named_args_view(i.args@));
        },
        ItemKind::Function(f) => push_node(&mut r, Node::FunctionSig(&f.sig)),
        ItemKind::Operator(o) => push_node(&mut r, Node::FunctionSig(&o.sig)),
        ItemKind::Predicate(p) => {
            push_opt_block(&mut r, &p.precondition);
            push_node(&mut r, Node::Block(&p.body));
        },
        ItemKind::Type(_) => {
            assert(r1 + Seq::<SNode>::empty() =~= r1);
        },
        ItemKind::Enum(e) => {
            proof {
                lemma_members_view_index(e.members@);
                assert(members_view(e.members@).take(0) =~= Seq::<SEnumMember>::empty());
                assert(r1 + Seq::<SNode>::empty() =~= r1);
            }
            let mut k: usize = 0;
            while k < e.members.len()
                invariant
                    k <= e.members@.len(),
                    members_view(e.members@).len() == e.members@.len(),
                    forall|j: int| 0 <= j < e.members@.len() ==> #[trigger] members_view(
                        e.members@,
                    )[j] == e.members@[j]@,
                    nodes_view(r@) == r1 + member_nodes(members_view(e.members@).take(k as int)),
                decreases e.members@.len() - k,
            {
                let ghost before = members_view(e.members@).take(k as int);
                let ghost after = members_view(e.members@).take(k + 1);
                push_annotation(&mut r, &e.members[k].annotation);
                proof {
                    assert(after.drop_last() =~= before);
                    assert(after.last() == e.members@[k as int]@);
                    assert(nodes_view(r@) =~= r1 + member_nodes(after));
                }
                k = k + 1;
            }
            assert(members_view(e.members@).take(k as int) =~= members_view(e.members@));
        },
        ItemKind::Const(d) => push_node(&mut r, Node::VarDecl(d)),
        ItemKind::Var(d) => push_node(&mut r, Node::VarDecl(d)),
    }
    assert(nodes_view(r@) =~= item_child_nodes(item@));
    r
}

/// The nodes [`walk_annotation`] hands to the hooks: each entry's key, then
/// its value.
pub fn annotation_children<'a>(a: &'a Annotation) -> (r: Vec<Node<'a>>)
    ensures
        nodes_view(r@) == annotation_child_nodes(a@),
{
    let mut r: Vec<Node<'a>> = Vec::new();
    assert(nodes_view(r@) =~= Seq::<SNode>::empty());
    push_entries(&mut r, &a.entries);
    assert(nodes_view(r@) =~= annotation_child_nodes(a@));
    r
}

/// The nodes [`walk_function_sig`] hands to the hooks: the precondition, if
/// any, then the body.
pub fn function_sig_children<'a>(sig: &'a FunctionSig) -> (r: Vec<Node<'a>>)
    ensures
        nodes_view(r@) == function_sig_child_nodes(sig@),
{
    let mut r: Vec<Node<'a>> = Vec::new();
    assert(nodes_view(r@) =~= Seq::<SNode>::empty());
    push_opt_block(&mut r, &sig.precondition);
    push_node(&mut r, Node::Block(&sig.body));
    assert(nodes_view(r@) =~= function_sig_child_nodes(sig@));
    r
}

/// The nodes [`walk_block`] hands to the hooks: the statements, in order.
pub fn block_children<'a>(b: &'a Block) -> (r: Vec<Node<'a>>)
    ensures
        nodes_view(r@) == block_child_nodes(b@),
{
    let mut r: Vec<Node<'a>> = Vec::new();
    proof {
        lemma_stmts_view_index(b.stmts@);
    }
    let mut k: usize = 0;
    while k < b.stmts.len()
        invariant
            k <= b.stmts@.len(),
            b@.stmts == stmts_view(b.stmts@),
            stmts_view(b.stmts@).len() == b.stmts@.len(),
            forall|i: int| 0 <= i < b.stmts@.len() ==> #[trigger] stmts_view(b.stmts@)[i] == stmt_view(
                b.stmts@[i],
            ),
            nodes_view(r@) == stmts_view(b.stmts@).take(k as int).map_values(|s: SStmt| SNode::Stmt(s)),
        decreases b.stmts@.len() - k,
    {
        push_node(&mut r, Node::Stmt(&b.stmts[k]));
        assert(stmts_view(b.stmts@).take(k + 1).map_values(|s: SStmt| SNode::Stmt(s)) =~= stmts_view(
            b.stmts@,
        ).take(k as int).map_values(|s: SStmt| SNode::Stmt(s)).push(SNode::Stmt(b.stmts@[k as int]@)));
        k = k + 1;
    }
    assert(stmts_view(b.stmts@).take(k as int) =~= b@.stmts);
    r
}

/// The nodes [`walk_var_decl`] hands to the hooks: the initialiser, if any.
pub fn var_decl_children<'a>(d: &'a VarDecl) -> (r: Vec<Node<'a>>)
    ensures
        nodes_view(r@) == var_decl_child_nodes(d@),
{
    let mut r: Vec<Node<'a>> = Vec::new();
    assert(nodes_view(r@) =~= Seq::<SNode>::empty());
    push_opt_expr(&mut r, &d.init);
    assert(nodes_view(r@) =~= var_decl_child_nodes(d@));
    r
}

/// The nodes of a statement that holds one declaration, expression or
/// block, or nothing.
fn simple_stmt_children<'a>(r: &mut Vec<Node<'a>>, s: &'a Stmt)
    requires
        !(s.kind is If || s.kind is For || s.kind is ForIn || s.kind is While || s.kind is Try),
    ensures
        nodes_view(final(r)@) == nodes_view(old(r)@) + stmt_kind_child_nodes(s@.kind),
{
    let ghost r0 = nodes_view(r@);
    match &s.kind {
        StmtKind::Var(d) => push_node(r, Node::VarDecl(d)),
        StmtKind::Const(d) => push_node(r, Node::VarDecl(d)),
        StmtKind::Expr(e) => push_node(r, Node::Expr(e)),
        StmtKind::Throw(e) => push_node(r, Node::Expr(e)),
        StmtKind::Block(b) => push_node(r, Node::Block(b)),
        StmtKind::Return(e) => push_opt_expr(r, e),
        _ => {},
    }
    assert(nodes_view(r@) =~= r0 + stmt_kind_child_nodes(s@.kind));
}

/// The nodes of an `if`.
fn if_children<'a>(r: &mut Vec<Node<'a>>, s: &'a Stmt)
    requires
        s.kind is If,
    ensures
        nodes_view(final(r)@) == nodes_view(old(r)@) + stmt_kind_child_nodes(s@.kind),
{
    let ghost r0 = nodes_view(r@);
    match &s.kind {
        StmtKind::If { cond, then, else_ } => {
            let ghost target = seq![SNode::Expr(cond@), SNode::Stmt((**then)@)] + match else_ {
                Some(x) => seq![SNode::Stmt((**x)@)],
                None => Seq::<SNode>::empty(),
            };
            assert(stmt_kind_child_nodes(s@.kind) == target);
            push_node(r, Node::Expr(cond));
            push_node(r, Node::Stmt(&**then));
            match else_ {
                Some(x) => push_node(r, Node::Stmt(&**x)),
                None => {},
            }
            assert(nodes_view(r@) =~= r0 + stmt_kind_child_nodes(s@.kind));
        },
        _ => {},
    }
}

/// The nodes of a C-style `for`.
fn for_children<'a>(r: &mut Vec<Node<'a>>, s: &'a Stmt)
    requires
        s.kind is For,
    ensures
        nodes_view(final(r)@) == nodes_view(old(r)@) + stmt_kind_child_nodes(s@.kind),
{
    let ghost r0 = nodes_view(r@);
    match &s.kind {
        StmtKind::For { init, cond, step, body } => {
            match init {
                Some(x) => {
                    assert(for_init_view(*x) == match *x {
                        ForInit::Var(d) => SForInit::Var(var_decl_view(d)),
                        ForInit::Expr(e) => SForInit::Expr(e@),
                    });
                },
                None => {},
            }
            let ghost i_nodes = match init {
                Some(ForInit::Var(d)) => seq![SNode::VarDecl(d@)],
                Some(ForInit::Expr(e)) => seq![SNode::Expr(e@)],
                None => Seq::<SNode>::empty(),
            };
            let ghost c_nodes = opt_expr_nodes(
                match cond {
                    Some(x) => Some(x@),
                    None => None,
                },
            );
            let ghost t_nodes = opt_expr_nodes(
                match step {
                    Some(x) => Some(x@),
                    None => None,
                },
            );
            assert(stmt_kind_child_nodes(s@.kind) == i_nodes + c_nodes + t_nodes + seq![
                SNode::Stmt((**body)@),
            ]);
            match init {
                Some(ForInit::Var(d)) => push_node(r, Node::VarDecl(d)),
                Some(ForInit::Expr(e)) => push_node(r, Node::Expr(e)),
                None => {},
            }
            assert(nodes_view(r@) =~= r0 + i_nodes);
            push_opt_expr(r, cond);
            push_opt_expr(r, step);
            push_node(r, Node::Stmt(&**body));
            assert(nodes_view(r@) =~= r0 + i_nodes + c_nodes + t_nodes + seq![SNode::Stmt((**body)@)]);
        },
        _ => {},
    }
}

/// The nodes of a `for-in`.
fn for_in_children<'a>(r: &mut Vec<Node<'a>>, s: &'a Stmt)
    requires
        s.kind is ForIn,
    ensures
        nodes_view(final(r)@) == nodes_view(old(r)@) + stmt_kind_child_nodes(s@.kind),
{
    let ghost r0 = nodes_view(r@);
    match &s.kind {
        StmtKind::ForIn { iter, body, .. } => {
            assert(stmt_kind_child_nodes(s@.kind) == seq![SNode::Expr(iter@), SNode::Stmt((**body)@)]);
            push_node(r, Node::Expr(iter));
            push_node(r, Node::Stmt(&**body));
            assert(nodes_view(r@) =~= r0 + stmt_kind_child_nodes(s@.kind));
        },
        _ => {},
    }
}

/// The nodes of a `while`.
fn while_children<'a>(r: &mut Vec<Node<'a>>, s: &'a Stmt)
    requires
        s.kind is While,
    ensures
        nodes_view(final(r)@) == nodes_view(old(r)@) + stmt_kind_child_nodes(s@.kind),
{
    let ghost r0 = nodes_view(r@);
    match &s.kind {
        StmtKind::While { cond, body } => {
            assert(stmt_kind_child_nodes(s@.kind) == seq![SNode::Expr(cond@), SNode::Stmt((**body)@)]);
            push_node(r, Node::Expr(cond));
            push_node(r, Node::Stmt(&**body));
            assert(nodes_view(r@) =~= r0 + stmt_kind_child_nodes(s@.kind));
        },
        _ => {},
    }
}

/// The nodes of a `try`.
fn try_children<'a>(r: &mut Vec<Node<'a>>, s: &'a Stmt)
    requires
        s.kind is Try,
    ensures
        nodes_view(final(r)@) == nodes_view(old(r)@) + stmt_kind_child_nodes(s@.kind),
{
    let ghost r0 = nodes_view(r@);
    match &s.kind {
        StmtKind::Try { body, catch, .. } => {
            push_node(r, Node::Block(body));
            match catch {
                Some(c) => {
                    assert(catch_clause_view(*c).body == block_view(c.body));
                    assert(stmt_kind_child_nodes(s@.kind) == seq![SNode::Block(body@), SNode::Block(c.body@)]);
                    push_node(r, Node::Block(&c.body));
                },
                None => {
                    assert(stmt_kind_child_nodes(s@.kind) == seq![SNode::Block(body@)]);
                },
            }
            assert(nodes_view(r@) =~= r0 + stmt_kind_child_nodes(s@.kind));
        },
        _ => {},
    }
}

/// The nodes [`walk_stmt`] hands to the hooks (see [`stmt_child_nodes`]).
pub fn stmt_children<'a>(s: &'a Stmt) -> (r: Vec<Node<'a>>)
    ensures
        nodes_view(r@) == stmt_child_nodes(s@),
{
    let mut r: Vec<Node<'a>> = Vec::new();
    assert(nodes_view(r@) =~= Seq::<SNode>::empty());
    push_annotation(&mut r, &s.annotation);
    match &s.kind {
        StmtKind::If { .. } => if_children(&mut r, s),
        StmtKind::For { .. } => for_children(&mut r, s),
        StmtKind::ForIn { .. } => for_in_children(&mut r, s),
        StmtKind::While { .. } => while_children(&mut r, s),
        StmtKind::Try { .. } => try_children(&mut r, s),
        _ => simple_stmt_children(&mut r, s),
    }
    assert(nodes_view(r@) =~= stmt_child_nodes(s@));
    r
}

/// The child nodes of an expression with exactly one child.
fn one_child<'a>(e: &'a Expr) -> (r: Vec<Node<'a>>)
    requires
        e.kind is Paren || e.kind is New || e.kind is Deref || e.kind is Unary || e.kind is Try
            || e.kind is Is || e.kind is As || e.kind is Member || e.kind is Lambda
            || e.kind is Function,
    ensures
        nodes_view(r@) == expr_child_nodes(e@),
{
    let mut r: Vec<Node<'a>> = Vec::new();
    assert(nodes_view(r@) =~= Seq::<SNode>::empty());
    let n: Node<'a> = match &e.kind {
        ExprKind::Paren(x) => {
            assert(expr_child_nodes(e@) == seq![SNode::Expr(x@)]);
            Node::Expr(&**x)
        },
        ExprKind::New(x) => {
            assert(expr_child_nodes(e@) == seq![SNode::Expr(x@)]);
            Node::Expr(&**x)
        },
        ExprKind::Deref(x) => {
            assert(expr_child_nodes(e@) == seq![SNode::Expr(x@)]);
            Node::Expr(&**x)
        },
        ExprKind::Unary { expr, .. } => {
            assert(expr_child_nodes(e@) == seq![SNode::Expr(expr@)]);
            Node::Expr(&**expr)
        },
        ExprKind::Try { expr, .. } => {
            assert(expr_child_nodes(e@) == seq![SNode::Expr(expr@)]);
            Node::Expr(&**expr)
        },
        ExprKind::Is { expr, .. } => {
            assert(expr_child_nodes(e@) == seq![SNode::Expr(expr@)]);
            Node::Expr(&**expr)
        },
        ExprKind::As { expr, .. } => {
            assert(expr_child_nodes(e@) == seq![SNode::Expr(expr@)]);
            Node::Expr(&**expr)
        },
        ExprKind::Member { object, .. } => {
            assert(expr_child_nodes(e@) == seq![SNode::Expr(object@)]);
            Node::Expr(&**object)
        },
        ExprKind::Lambda { body, .. } => match &**body {
            LambdaBody::Expr(x) => {
                assert(lambda_body_view(**body) == SLambdaBody::Expr(x@));
                assert(expr_child_nodes(e@) == seq![SNode::Expr(x@)]);
                Node::Expr(x)
            },
            LambdaBody::Block(b) => {
                assert(lambda_body_view(**body) == SLambdaBody::Block(b@));
                assert(expr_child_nodes(e@) == seq![SNode::Block(b@)]);
                Node::Block(b)
            },
        },
        ExprKind::Function(sig) => {
            assert(expr_child_nodes(e@) == seq![SNode::FunctionSig(sig@)]);
            Node::FunctionSig(sig)
        },
        _ => Node::Expr(e),
    };
    assert(expr_child_nodes(e@) == seq![node_view(n)]);
    push_node(&mut r, n);
    r
}

/// The child nodes of an expression with two or three children.
fn pair_children<'a>(e: &'a Expr) -> (r: Vec<Node<'a>>)
    requires
        e.kind is Binary || e.kind is Assign || e.kind is Ternary || e.kind is Index
            || e.kind is Pipe,
    ensures
        nodes_view(r@) == expr_child_nodes(e@),
{
    let mut r: Vec<Node<'a>> = Vec::new();
    assert(nodes_view(r@) =~= Seq::<SNode>::empty());
    let (a, b): (&'a Expr, &'a Expr) = match &e.kind {
        ExprKind::Binary { lhs, rhs, .. } => (&**lhs, &**rhs),
        ExprKind::Assign { target, value, .. } => (&**target, &**value),
        ExprKind::Ternary { cond, then, .. } => (&**cond, &**then),
        ExprKind::Index { object, index } => (&**object, &**index),
        ExprKind::Pipe { receiver, call } => (&**receiver, &**call),
        _ => (e, e),
    };
    push_node(&mut r, Node::Expr(a));
    push_node(&mut r, Node::Expr(b));
    if let ExprKind::Ternary { else_, .. } = &e.kind {
        push_node(&mut r, Node::Expr(&**else_));
    }
    assert(nodes_view(r@) =~= expr_child_nodes(e@));
    r
}

/// The child nodes of an expression with a list of children.
fn list_children<'a>(e: &'a Expr) -> (r: Vec<Node<'a>>)
    requires
        e.kind is Array || e.kind is MapLiteral || e.kind is Switch || e.kind is Call,
    ensures
        nodes_view(r@) == expr_child_nodes(e@),
{
    let mut r: Vec<Node<'a>> = Vec::new();
    assert(nodes_view(r@) =~= Seq::<SNode>::empty());
    match &e.kind {
        ExprKind::Array(items) => {
            push_exprs(&mut r, items);
            assert(nodes_view(r@) =~= expr_child_nodes(e@));
        },
        ExprKind::MapLiteral(entries) => {
            push_entries(&mut r, entries);
            assert(nodes_view(r@) =~= expr_child_nodes(e@));
        },
        ExprKind::Switch { scrutinee, cases } => {
            push_node(&mut r, Node::Expr(&**scrutinee));
            push_entries(&mut r, cases);
        },
        ExprKind::Call { callee, args } => {
            push_node(&mut r, Node::Expr(&**callee));
            push_exprs(&mut r, args);
        },
        _ => {},
    }
    r
}

/// The nodes [`walk_expr`] hands to the hooks (see [`expr_child_nodes`]).
pub fn expr_children<'a>(e: &'a Expr) -> (r: Vec<Node<'a>>)
    ensures
        nodes_view(r@) == expr_child_nodes(e@),
{
    if matches!(e.kind, ExprKind::Paren(_) | ExprKind::New(_) | ExprKind::Deref(_) | ExprKind::Unary { .. } | ExprKind::Try { .. } | ExprKind::Is { .. } | ExprKind::As { .. } | ExprKind::Member { .. } | ExprKind::Lambda { .. } | ExprKind::Function(_)) {
        one_child(e)
    } else if matches!(e.kind, ExprKind::Binary { .. } | ExprKind::Assign { .. } | ExprKind::Ternary { .. } | ExprKind::Index { .. } | ExprKind::Pipe { .. }) {
        pair_children(e)
    } else if matches!(e.kind, ExprKind::Array(_) | ExprKind::MapLiteral(_) | ExprKind::Switch { .. } | ExprKind::Call { .. }) {
        list_children(e)
    } else {
        let r: Vec<Node<'a>> = Vec::new();
        assert(nodes_view(r@) =~= expr_child_nodes(e@));
        r
    }
}

// ---------------------------------------------------------------------------
// Walking
// ---------------------------------------------------------------------------

/// Hands `n` to its hook.
fn visit_node<V: Visitor + ?Sized>(v: &mut V, n: Node) {
    match n {
        Node::Item(x) => v.visit_item(x),
        Node::Annotation(x) => v.visit_annotation(x),
        Node::FunctionSig(x) => v.visit_function_sig(x),
        Node::Block(x) => v.visit_block(x),
        Node::Stmt(x) => v.visit_stmt(x),
        Node::VarDecl(x) => v.visit_var_decl(x),
        Node::Expr(x) => v.visit_expr(x),
    }
}

/// Hands each of `ns` to its hook, in order.
fn visit_all<V: Visitor + ?Sized>(v: &mut V, ns: &Vec<Node>) {
    let mut k: usize = 0;
    while k < ns.len()
        decreases ns@.len() - k,
    {
        visit_node(v, ns[k]);
        k = k + 1;
    }
}

/// Hands each of [`module_children`]`(m)` to its hook, in order.
pub fn walk_module<V: Visitor + ?Sized>(v: &mut V, m: &Module) {
    let ns = module_children(m);
    visit_all(v, &ns);
}

/// Hands each of [`item_children`]`(item)` to its hook, in order.
pub fn walk_item<V: Visitor + ?Sized>(v: &mut V, item: &Item) {
    let ns = item_children(item);
    visit_all(v, &ns);
}

/// Hands each of [`annotation_children`]`(a)` to its hook, in order.
pub fn walk_annotation<V: Visitor + ?Sized>(v: &mut V, a: &Annotation) {
    let ns = annotation_children(a);
    visit_all(v, &ns);
}

/// Hands each of [`function_sig_children`]`(sig)` to its hook, in order.
pub fn walk_function_sig<V: Visitor + ?Sized>(v: &mut V, sig: &FunctionSig) {
    let ns = function_sig_children(sig);
    visit_all(v, &ns);
}

/// Hands each of [`block_children`]`(b)` to its hook, in order.
pub fn walk_block<V: Visitor + ?Sized>(v: &mut V, b: &Block) {
    let ns = block_children(b);
    visit_all(v, &ns);
}

/// Hands each of [`var_decl_children`]`(d)` to its hook, in order.
pub fn walk_var_decl<V: Visitor + ?Sized>(v: &mut V, d: &VarDecl) {
    let ns = var_decl_children(d);
    visit_all(v, &ns);
}

/// Hands each of [`stmt_children`]`(s)` to its hook, in order.
pub fn walk_stmt<V: Visitor + ?Sized>(v: &mut V, s: &Stmt) {
    let ns = stmt_children(s);
    visit_all(v, &ns);
}

/// Hands each of [`expr_children`]`(e)` to its hook, in order.
pub fn walk_expr<V: Visitor + ?Sized>(v: &mut V, e: &Expr) {
    let ns = expr_children(e);
    visit_all(v, &ns);
}

} // verus!
