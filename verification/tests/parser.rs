use fs_syntax::ast::{
    AssignOp, BinaryOp, Expr, ExprKind, ForInit, ItemKind, LambdaBody, Module, StmtKind, Version,
};
use fs_syntax::{parse_expr, parse_module};

fn expr(src: &str) -> Expr {
    parse_expr(src).unwrap_or_else(|e| panic!("{src}: {:?}", e))
}

fn module(src: &str) -> Module {
    parse_module(src).unwrap_or_else(|e| panic!("{:?}", e))
}

#[test]
fn precedence_arith() {
    let e = expr("1 + 2 * 3 ^ 2 ^ 2");
    // (1 + (2 * (3 ^ (2 ^ 2))))
    let ExprKind::Binary { op: BinaryOp::Add, rhs, .. } = &e.kind else { panic!() };
    let ExprKind::Binary { op: BinaryOp::Mul, rhs, .. } = &rhs.kind else { panic!() };
    let ExprKind::Binary { op: BinaryOp::Pow, rhs, .. } = &rhs.kind else { panic!() };
    assert!(matches!(rhs.kind, ExprKind::Binary { op: BinaryOp::Pow, .. }));
}

#[test]
fn is_and_as_bind_tighter_than_arithmetic() {
    let e = expr("value is map && x is undefined");
    let ExprKind::Binary { op: BinaryOp::And, lhs, rhs } = &e.kind else { panic!() };
    assert!(matches!(lhs.kind, ExprKind::Is { .. }));
    let ExprKind::Is { ty, .. } = &rhs.kind else { panic!() };
    assert_eq!(ty.name, "undefined");
    // (parameter as Vector) * meter
    let e = expr("parameter as Vector * meter");
    let ExprKind::Binary { op: BinaryOp::Mul, lhs, .. } = &e.kind else { panic!() };
    assert!(matches!(lhs.kind, ExprKind::As { .. }));
    // `!x is boolean` is `(!x) is boolean`.
    assert!(matches!(expr("!x is boolean").kind, ExprKind::Is { .. }));
    assert!(matches!(expr("x ||= y").kind, ExprKind::Assign { op: AssignOp::Or, .. }));
}

#[test]
fn pipe_desugars() {
    let e = expr("ALL_BODIES -> qBodyType(BodyType.SOLID) -> qFilter(x)");
    let d = e.desugar_pipe();
    let ExprKind::Call { callee, args } = &d.kind else { panic!() };
    assert!(matches!(&callee.kind, ExprKind::Ident(n) if n == "qFilter"));
    assert_eq!(args.len(), 2);
    assert!(matches!(args[0].kind, ExprKind::Pipe { .. }));
}

#[test]
fn lambdas() {
    assert!(matches!(expr("x => x + 1").kind, ExprKind::Lambda { .. }));
    let ExprKind::Lambda { params, .. } = expr("(soFar, next) => soFar->mergeMaps([next], true)").kind
    else {
        panic!()
    };
    assert_eq!(params.len(), 2);
    // Parenthesised expression is not a lambda.
    assert!(matches!(expr("(a) + 1").kind, ExprKind::Binary { .. }));
}

#[test]
fn try_expr_and_stmt() {
    assert!(matches!(expr("try silent(f(x))").kind, ExprKind::Try { silent: true, .. }));
    let m = module("function f() { try { g(); } catch (e) { throw e; } try silent { h(); } }");
    let ItemKind::Function(f) = &m.items[0].kind else { panic!() };
    assert!(matches!(
        &f.sig.body.stmts[0].kind,
        StmtKind::Try { silent: false, catch: Some(_), .. }
    ));
    assert!(matches!(&f.sig.body.stmts[1].kind, StmtKind::Try { silent: true, catch: None, .. }));
}

#[test]
fn typed_lambda_block_body_and_deref() {
    let e = expr("(index is number, data is map) => { \"index\" : index, \"data\" : data }");
    let ExprKind::Lambda { params, body, .. } = &e.kind else { panic!() };
    assert_eq!(params[0].ty.as_ref().unwrap().name, "number");
    let e = expr("(c is Context) returns boolean => { return true; }");
    let ExprKind::Lambda { return_type: Some(r), .. } = &e.kind else { panic!() };
    assert_eq!(r.name, "boolean");
    assert!(matches!(**body, LambdaBody::Expr(_)));
    let e = expr("q => { const a = f(q); return a; }");
    let ExprKind::Lambda { body, .. } = &e.kind else { panic!() };
    assert!(matches!(**body, LambdaBody::Block(_)));
    let e = expr("x => { y = a ? b : c; }");
    let ExprKind::Lambda { body, .. } = &e.kind else { panic!() };
    assert!(matches!(**body, LambdaBody::Block(_)));
    assert!(matches!(expr("counter[]").kind, ExprKind::Deref(_)));
    assert!(matches!(expr("counter[] = 1").kind, ExprKind::Assign { .. }));
    let m = module("function f(v) precondition @size(v) == 3; { return v; } function g() { for (e in xs) {} } predicate p(a, b) precondition a.unit == b.unit; { a < b; }");
    let ItemKind::Function(f) = &m.items[0].kind else { panic!() };
    assert_eq!(f.sig.precondition.as_ref().unwrap().stmts.len(), 1);
    let ItemKind::Function(g) = &m.items[1].kind else { panic!() };
    assert!(matches!(&g.sig.body.stmts[0].kind, StmtKind::ForIn { declared: false, .. }));
    let ItemKind::Predicate(p) = &m.items[2].kind else { panic!() };
    assert!(p.precondition.is_some());
}

#[test]
fn switch_and_new() {
    assert!(matches!(expr("switch (k) { A.X : 0, A.Y : 1 }").kind, ExprKind::Switch { .. }));
    assert!(matches!(expr("new box({})").kind, ExprKind::New(_)));
}

#[test]
fn feature_definition() {
    let src = r#"
FeatureScript 2960;
import(path : "onshape/std/geometry.fs", version : "2960.0");

/** Doc for extrude. */
annotation { "Feature Type Name" : "Extrude" }
export const extrude = defineFeature(function(context is Context, id is Id, definition is map)
    precondition
    {
        annotation { "Name" : "Entities", "Filter" : EntityType.FACE && ConstructionObject.NO }
        definition.entities is Query;
        isLength(definition.depth, LENGTH_BOUNDS);
    }
    {
        opExtrude(context, id + "extrude", { "entities" : definition.entities });
    });

export enum Kind { annotation { "Name" : "A" } A, B }
export type Foo typecheck canBeFoo;
export operator+(a is Foo, b is Foo) returns Foo { return a; }
export predicate canBeFoo(value) { value is map; for (var k, v in value) v is number; }
"#;
    let m = module(src);
    assert_eq!(m.header.as_ref().unwrap().version, Version::Number(2960));
    assert_eq!(m.items.len(), 6);
    let it = &m.items[1];
    assert!(it.export);
    assert_eq!(it.doc.as_deref(), Some(" Doc for extrude. "));
    assert!(it.annotation.is_some());
    let ItemKind::Const(v) = &it.kind else { panic!() };
    let ExprKind::Call { args, .. } = &v.init.as_ref().unwrap().kind else { panic!() };
    let ExprKind::Function(sig) = &args[0].kind else { panic!() };
    let pre = sig.precondition.as_ref().unwrap();
    assert!(pre.stmts[0].annotation.is_some());
    assert!(matches!(&pre.stmts[0].kind, StmtKind::Expr(e) if matches!(e.kind, ExprKind::Is { .. })));
    let ItemKind::Import(i) = &m.items[0].kind else { panic!() };
    assert_eq!(i.path(), Some("onshape/std/geometry.fs"));
    let ItemKind::Enum(e) = &m.items[2].kind else { panic!() };
    assert!(e.members[0].annotation.is_some());
    assert_eq!(e.members[1].name.name, "B");
    let ItemKind::Operator(o) = &m.items[4].kind else { panic!() };
    assert_eq!(o.op, "+");
}

#[test]
fn for_forms() {
    let m = module(
        "function f() { for (var i = 0; i < n; i += 1) {} for (var x in xs) g(x); for (var k, v in m) {} for (;;) break; }",
    );
    let ItemKind::Function(f) = &m.items[0].kind else { panic!() };
    assert!(matches!(&f.sig.body.stmts[0].kind, StmtKind::For { init: Some(ForInit::Var(_)), .. }));
    assert!(matches!(&f.sig.body.stmts[1].kind, StmtKind::ForIn { key: None, declared: true, .. }));
    assert!(matches!(&f.sig.body.stmts[2].kind, StmtKind::ForIn { key: Some(_), .. }));
    assert!(matches!(
        &f.sig.body.stmts[3].kind,
        StmtKind::For { init: None, cond: None, step: None, .. }
    ));
}

#[test]
fn error_message_has_position() {
    let e = parse_module("function f() { var x = ; }").unwrap_err();
    assert!(e.message.contains("expected expression"));
    assert_eq!(e.span.start, 23);
}

#[test]
fn soft_keywords_are_identifiers() {
    for name in ["type", "silent", "typecheck", "operator", "precondition", "returns", "annotation", "FeatureScript", "new", "switch"] {
        let e = expr(name);
        assert!(matches!(&e.kind, ExprKind::Ident(n) if n == name), "{name}");
    }
}

#[test]
fn hard_keywords_are_not_expressions() {
    assert!(parse_expr("while").is_err());
    assert!(parse_expr("return").is_err());
}
