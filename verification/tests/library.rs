use fs_syntax::ast::{BinaryOp, AssignOp, Expr, ExprKind, ItemKind, Version};
use fs_syntax::lexer::tokenize;
use fs_syntax::parser::Parser;
use fs_syntax::token::{Keyword, Token, TokenKind};
use fs_syntax::visit::{
    walk_annotation, walk_block, walk_expr, walk_function_sig, walk_item, walk_module,
    walk_stmt, walk_var_decl, Visitor,
};
use fs_syntax::{parse_expr, parse_module, print_expr, print_module, LineIndex, Span};

fn printed(src: &str) -> String {
    print_expr(&parse_expr(src).unwrap())
}

fn parse_error(src: &str) -> String {
    parse_module(src).unwrap_err().message
}

#[test]
fn printer_parenthesizes_by_precedence() {
    assert_eq!(printed("1 + 2 * 3"), "1 + 2 * 3");
    assert_eq!(printed("(1 + 2) * 3"), "(1 + 2) * 3");
    assert_eq!(printed("2 ^ 3 ^ 2"), "2 ^ 3 ^ 2");
    assert_eq!(printed("a ? b : c"), "a ? b : c");
    assert_eq!(printed("!(a && b)"), "!(a && b)");
    assert_eq!(printed("-x"), "-x");
    assert_eq!(printed("x += 1"), "x += 1");
    assert_eq!(printed("v as Vector * meter"), "v as Vector * meter");
}

#[test]
fn printer_expression_forms() {
    assert_eq!(printed("{ \"a\" : 1, \"b\" : 2 }"), "{ \"a\" : 1, \"b\" : 2}");
    assert_eq!(printed("{}"), "{}");
    assert_eq!(printed("[1, 2,]"), "[1, 2]");
    assert_eq!(printed("x => x + 1"), "(x) => x + 1");
    assert_eq!(printed("(a is number) returns number => a"), "(a is number) returns number => a");
    assert_eq!(printed("f(a, b)"), "f(a, b)");
    assert_eq!(printed("a?.b.c"), "a?.b.c");
    assert_eq!(printed("a[1][]"), "a[1][]");
    assert_eq!(printed("a -> f(b)"), "a -> f(b)");
    assert_eq!(printed("try silent(f(x))"), "try silent(f(x))");
    assert_eq!(printed("switch (k) { A.X : 0 }"), "switch (k) { A.X : 0}");
    assert_eq!(printed("new box({})"), "new box({})");
    assert_eq!(printed("1.50"), "1.50");
    assert_eq!(printed("undefined"), "undefined");
    assert_eq!(printed("true"), "true");
}

#[test]
fn printer_escapes_strings() {
    assert_eq!(printed(r#""a\"b""#), r#""a\"b""#);
    assert_eq!(printed(r#""tab\tnl\nback\\""#), r#""tab\tnl\nback\\""#);
    // A string literal printed and read back is the same string.
    let e = parse_expr(r#""q\"\\\n\t\r x""#).unwrap();
    let again = parse_expr(&print_expr(&e)).unwrap();
    assert_eq!(e.kind, again.kind);
}

#[test]
fn printer_module_layout() {
    let m = parse_module("FeatureScript 2960; export const X = 1 * meter;").unwrap();
    assert_eq!(print_module(&m), "FeatureScript 2960;\nexport const X = 1 * meter;\n");
    let m = parse_module("function f(a) { return a; }").unwrap();
    assert_eq!(print_module(&m), "function f(a)\n{\n    return a;\n}\n");
    let m = parse_module("FeatureScript ✨; enum E { A, B }").unwrap();
    assert_eq!(print_module(&m), "FeatureScript ✨;\nenum E\n{\n    A,\n    B\n}\n");
}

#[test]
fn print_then_parse_round_trips() {
    let sources = [
        "FeatureScript 2960; import(path : \"onshape/std/geometry.fs\", version : \"2960.0\");",
        "/** Doc. */ annotation { \"Feature Type Name\" : \"Extrude\" } export const extrude = defineFeature(function(context is Context, id is Id, definition is map) precondition { definition.entities is Query; } { opExtrude(context, id + \"extrude\", { \"entities\" : definition.entities }); });",
        "export enum Kind { annotation { \"Name\" : \"A\" } A, B }",
        "export type Foo typecheck canBeFoo; export operator+(a is Foo, b is Foo) returns Foo { return a; }",
        "export predicate canBeFoo(value) { value is map; for (var k, v in value) v is number; }",
        "function f() { for (var i = 0; i < n; i += 1) { g(i); } while (x) { break; } try silent { h(); } catch (e) { throw e; } if (a) b(); else { c(); } return (x) => { return x ^ 2 ^ 3; }; }",
        "const M = { \"a\" : [1, 2, -3], \"b\" : x -> f(y)?.z[0][] }; var v is number = a ? b : c ?? d;",
    ];
    for src in sources {
        let once = print_module(&parse_module(src).unwrap());
        let twice = print_module(&parse_module(&once).unwrap());
        assert_eq!(once, twice, "{src}");
    }
}

#[test]
fn printed_expressions_parse_back_to_the_same_tree() {
    let sources = [
        "a - b - c * -d ^ 2 ^ e",
        "(a + b) * c ~ \"x\" ?? undefined",
        "x = y += !(p && q) || r == 1.5e-3",
        "c ? f(a, [1, 2], {}) : g.h?.k[i][]",
        "v is number && w as Vector * meter",
        "{ \"a\" : 1, b : [x, (y)], \"c\" : try silent(z) }",
        "try(q(1)).r",
        "@size(list) >= 0 ? true : false",
        "f((a, b is number) returns number => a + b, () => x ? y : z)",
        "new Foo(1).bar + (new a).b",
    ];
    for src in sources {
        let once = print_expr(&parse_expr(src).unwrap());
        let again = parse_expr(&once).unwrap();
        assert_eq!(print_expr(&again), once, "{src}");
    }
}

#[test]
fn member_access_on_a_number_reads_back_as_a_number() {
    // `1 .e5` is a member access on `1`; printed without the space it reads
    // as the number `1.e5`.
    let e = parse_expr("1 .e5").unwrap();
    assert!(matches!(e.kind, ExprKind::Member { .. }));
    let printed = print_expr(&e);
    assert_eq!(printed, "1.e5");
    assert!(matches!(parse_expr(&printed).unwrap().kind, ExprKind::Number(_)));
}

#[test]
fn render_points_at_the_error() {
    let src = "function f() { var x = ; }";
    let e = parse_module(src).unwrap_err();
    let r = e.render("f.fs", src);
    let expected = format!(
        "f.fs:1:24: error: expected expression, found `;`\n  {src}\n  {}^",
        " ".repeat(23)
    );
    assert_eq!(r, expected);
    assert_eq!(e.to_string(), "expected expression, found `;` at 23..24");
}

#[test]
fn render_on_a_later_line() {
    let src = "const a = 1;\r\nconst b = 2 +;\n";
    let e = parse_module(src).unwrap_err();
    let r = e.render("m.fs", src);
    let expected = format!(
        "m.fs:2:14: error: expected expression, found `;`\n  const b = 2 +;\n  {}^",
        " ".repeat(13)
    );
    assert_eq!(r, expected);
}

#[test]
fn line_index_maps_offsets() {
    let idx = LineIndex::new("ab\ncd\n\nx");
    let lc = idx.line_col(4);
    assert_eq!((lc.line, lc.col), (2, 2));
    let lc = idx.line_col(6);
    assert_eq!((lc.line, lc.col), (3, 1));
    let lc = idx.line_col(0);
    assert_eq!((lc.line, lc.col), (1, 1));
    let lc = idx.line_col(100);
    assert_eq!((lc.line, lc.col), (4, 94));
    assert_eq!(lc.to_string(), "4:94");
}

#[test]
fn spans_cover_and_measure() {
    let s = Span::new(2, 5).to(Span::new(7, 9));
    assert_eq!((s.start, s.end), (2, 9));
    assert_eq!(s.len(), 7);
    assert!(!s.is_empty());
    assert!(Span::new(3, 3).is_empty());
    assert_eq!(Span::new(3, 8).to_string(), "3..8");
    let m = parse_module("const X = 1;").unwrap();
    assert_eq!((m.span.start, m.span.end), (0, 12));
    assert_eq!((m.items[0].span.start, m.items[0].span.end), (0, 12));
}

#[test]
fn parse_error_messages() {
    assert_eq!(parse_error("const x = 1"), "expected `;`, found end of file");
    assert_eq!(parse_expr("1 = 2").unwrap_err().message, "invalid assignment target");
    assert_eq!(parse_error("function f() { x;"), "unexpected end of file inside block");
    assert_eq!(parse_expr("a -> b").unwrap_err().message, "expected call arguments after `->`");
    assert_eq!(parse_error("x;"), "expected a declaration, found identifier `x`");
    assert_eq!(parse_error("operator x() {}"), "expected operator symbol, found identifier `x`");
    assert_eq!(
        parse_error("FeatureScript ;"),
        "expected version number after `FeatureScript`, found `;`"
    );
    assert_eq!(parse_error("function 1() {}"), "expected identifier, found number `1`");
    assert_eq!(parse_expr("x is 1").unwrap_err().message, "expected type name, found number `1`");
    assert_eq!(parse_expr("a b").unwrap_err().message, "expected end of file, found identifier `b`");
    assert!(parse_module("x = \"abc").unwrap_err().message.contains("unterminated"));
}

fn toks(kinds: Vec<TokenKind>) -> Vec<Token> {
    kinds
        .into_iter()
        .enumerate()
        .map(|(i, kind)| Token { kind, span: Span::new(i as u32, i as u32 + 1) })
        .collect()
}

#[test]
fn parser_over_token_sequences() {
    let mut p = Parser::new(toks(vec![
        TokenKind::Kw(Keyword::FeatureScript),
        TokenKind::Number("2960.7".into()),
        TokenKind::Semi,
        TokenKind::Eof,
    ]));
    let m = p.module().unwrap();
    assert_eq!(m.header.unwrap().version, Version::Number(2960));
    let mut p = Parser::new(toks(vec![
        TokenKind::Kw(Keyword::FeatureScript),
        TokenKind::Number("2x".into()),
        TokenKind::Semi,
        TokenKind::Eof,
    ]));
    let e = p.module().unwrap_err();
    assert_eq!(e.message, "invalid version number");
    assert_eq!(e.span.start, 0);
    let mut p = Parser::new(toks(vec![TokenKind::Number("1.2.3".into()), TokenKind::Eof]));
    assert_eq!(p.expr().unwrap_err().message, "invalid number `1.2.3`");
    let mut p = Parser::new(toks(vec![
        TokenKind::DocComment(" lead ".into()),
        TokenKind::Kw(Keyword::Const),
        TokenKind::Ident("X".into()),
        TokenKind::Semi,
        TokenKind::Eof,
    ]));
    let m = p.module().unwrap();
    assert_eq!(m.items[0].doc.as_deref(), Some(" lead "));
    assert_eq!(m.items[0].name(), Some("X"));
}

#[test]
fn desugar_leaves_other_expressions_alone() {
    let e = parse_expr("f(a)").unwrap();
    assert_eq!(e.desugar_pipe(), e);
    let d = parse_expr("a -> f(b)").unwrap().desugar_pipe();
    assert_eq!(print_expr(&d), "f(a, b)");
}

#[test]
fn import_arguments_and_item_names() {
    let m = parse_module(
        "import(path : \"a.fs\", version : \"1.0\"); function g() {} export operator-(a) {}",
    )
    .unwrap();
    let ItemKind::Import(i) = &m.items[0].kind else { panic!() };
    assert_eq!(i.path(), Some("a.fs"));
    assert_eq!(i.version(), Some("1.0"));
    assert_eq!(m.items[0].name(), None);
    assert_eq!(m.items[1].name(), Some("g"));
    assert_eq!(m.items[2].name(), Some("-"));
}

#[test]
fn operator_symbols() {
    assert_eq!(BinaryOp::Concat.symbol(), "~");
    assert_eq!(BinaryOp::Coalesce.symbol(), "??");
    assert_eq!(AssignOp::Coalesce.symbol(), "??=");
    assert_eq!(AssignOp::Assign.symbol(), "=");
}

struct CountExprs {
    exprs: usize,
    idents: Vec<String>,
}

impl Visitor for CountExprs {
    fn visit_module(&mut self, m: &fs_syntax::ast::Module) {
        walk_module(self, m)
    }
    fn visit_item(&mut self, item: &fs_syntax::ast::Item) {
        walk_item(self, item)
    }
    fn visit_annotation(&mut self, a: &fs_syntax::ast::Annotation) {
        walk_annotation(self, a)
    }
    fn visit_function_sig(&mut self, sig: &fs_syntax::ast::FunctionSig) {
        walk_function_sig(self, sig)
    }
    fn visit_block(&mut self, b: &fs_syntax::ast::Block) {
        walk_block(self, b)
    }
    fn visit_stmt(&mut self, s: &fs_syntax::ast::Stmt) {
        walk_stmt(self, s)
    }
    fn visit_var_decl(&mut self, v: &fs_syntax::ast::VarDecl) {
        walk_var_decl(self, v)
    }
    fn visit_expr(&mut self, e: &Expr) {
        self.exprs += 1;
        if let ExprKind::Ident(n) = &e.kind {
            self.idents.push(n.clone());
        }
        walk_expr(self, e)
    }
}

#[test]
fn visitor_walks_children_in_order() {
    let m = parse_module(
        "const X = f(a, b + c); function g() { if (p) { return q; } } annotation { \"k\" : v } const Y = 1;",
    )
    .unwrap();
    let mut v = CountExprs { exprs: 0, idents: Vec::new() };
    v.visit_module(&m);
    assert_eq!(v.idents, vec!["f", "a", "b", "c", "p", "q", "v"].into_iter().map(String::from).collect::<Vec<_>>());
    assert_eq!(v.exprs, 11);
}

#[test]
fn walk_expr_hands_children_in_source_order() {
    let e = parse_expr("f(a, b + c)").unwrap();
    let mut v = CountExprs { exprs: 0, idents: Vec::new() };
    walk_expr(&mut v, &e);
    assert_eq!(v.idents, vec!["f", "a", "b", "c"].into_iter().map(String::from).collect::<Vec<_>>());
    // The direct children of the call: the callee, then each argument.
    let kids = fs_syntax::visit::expr_children(&e);
    assert_eq!(kids.len(), 3);
}

struct Blocks {
    sizes: Vec<usize>,
}

impl Visitor for Blocks {
    fn visit_module(&mut self, m: &fs_syntax::ast::Module) {
        walk_module(self, m)
    }
    fn visit_item(&mut self, item: &fs_syntax::ast::Item) {
        walk_item(self, item)
    }
    fn visit_annotation(&mut self, a: &fs_syntax::ast::Annotation) {
        walk_annotation(self, a)
    }
    fn visit_function_sig(&mut self, sig: &fs_syntax::ast::FunctionSig) {
        walk_function_sig(self, sig)
    }
    fn visit_block(&mut self, b: &fs_syntax::ast::Block) {
        self.sizes.push(b.stmts.len());
    }
    fn visit_stmt(&mut self, s: &fs_syntax::ast::Stmt) {
        walk_stmt(self, s)
    }
    fn visit_var_decl(&mut self, v: &fs_syntax::ast::VarDecl) {
        walk_var_decl(self, v)
    }
    fn visit_expr(&mut self, e: &Expr) {
        walk_expr(self, e)
    }
}

#[test]
fn walk_item_visits_a_predicates_precondition_then_its_body() {
    let m = parse_module("predicate p(x) precondition { x > 0; x < 5; } { x < 9; }").unwrap();
    let mut v = Blocks { sizes: Vec::new() };
    walk_item(&mut v, &m.items[0]);
    assert_eq!(v.sizes, vec![2, 1]);
}

#[test]
fn version_numbers_take_the_integer_part_of_the_literal() {
    let v = |src: &str| parse_module(src).unwrap().header.unwrap().version;
    assert_eq!(v("FeatureScript 2960;"), Version::Number(2960));
    assert_eq!(v("FeatureScript 1e3;"), Version::Number(1000));
    assert_eq!(v("FeatureScript 12.5e1;"), Version::Number(125));
    assert_eq!(v("FeatureScript 25e-1;"), Version::Number(2));
    assert_eq!(v("FeatureScript 2960.9;"), Version::Number(2960));
    assert_eq!(v("FeatureScript .5;"), Version::Number(0));
    assert_eq!(v("FeatureScript 1e30;"), Version::Number(u64::MAX));
    assert_eq!(v("FeatureScript 0e999999999999999999999;"), Version::Number(0));
}

#[test]
fn version_numbers_of_signed_and_special_literals() {
    let version = |text: &str| {
        let mut p = Parser::new(toks(vec![
            TokenKind::Kw(Keyword::FeatureScript),
            TokenKind::Number(text.into()),
            TokenKind::Semi,
            TokenKind::Eof,
        ]));
        p.module().unwrap().header.unwrap().version
    };
    assert_eq!(version("+5"), Version::Number(5));
    assert_eq!(version("-3"), Version::Number(0));
    assert_eq!(version("inf"), Version::Number(u64::MAX));
    assert_eq!(version("Infinity"), Version::Number(u64::MAX));
    assert_eq!(version("-inf"), Version::Number(0));
    assert_eq!(version("NaN"), Version::Number(0));
}

#[test]
fn parser_stops_at_the_first_eof() {
    let mut p = Parser::new(toks(vec![
        TokenKind::Ident("a".into()),
        TokenKind::Eof,
        TokenKind::Ident("b".into()),
        TokenKind::Semi,
    ]));
    let e = p.expr().unwrap();
    assert!(matches!(&e.kind, ExprKind::Ident(n) if n == "a"));
}
