//! Abstract syntax tree for FeatureScript.
//!
//! Every node carries a [`Span`] pointing back into the source text. The tree
//! is plain data (no interning, no arenas) so it is easy to walk from an
//! interpreter. Each node type has a view (the same shape, with text as
//! character sequences and vectors as sequences) that the contracts of the
//! parser and the printer speak of, and a verified deep copy.

use crate::span::Span;
use crate::text::same_text;
use vstd::prelude::*;

verus! {

#[derive(Clone, Copy, Debug, PartialEq, Eq, Structural)]
pub struct VersionHeader {
    pub version: Version,
    pub span: Span,
}

#[derive(Clone, Copy, Debug, PartialEq, Eq, Structural)]
pub enum Version {
    Number(u64),
    /// The `✨` placeholder used by the std-library mirror's `without-versions` branch.
    Sparkle,
}

/// A whole `.fs` file.
#[derive(Debug, PartialEq)]
pub struct Module {
    /// The `FeatureScript <version>;` header, if present.
    pub header: Option<VersionHeader>,
    pub items: Vec<Item>,
    pub span: Span,
}

/// A simple identifier with its location.
#[derive(Debug, PartialEq)]
pub struct Ident {
    pub name: String,
    pub span: Span,
}

/// A top-level declaration, with its leading doc comment / annotation.
#[derive(Debug, PartialEq)]
pub struct Item {
    /// Text of an immediately preceding `/** ... */` comment.
    pub doc: Option<String>,
    pub annotation: Option<Annotation>,
    pub export: bool,
    pub kind: ItemKind,
    pub span: Span,
}

/// `annotation { "Name" : "Extrude", ... }` — the payload is a map literal.
#[derive(Debug, PartialEq)]
pub struct Annotation {
    pub entries: Vec<MapEntry>,
    pub span: Span,
}

/// `import(path : "onshape/std/geometry.fs", version : "1234.0");`
#[derive(Debug, PartialEq)]
pub struct Import {
    pub args: Vec<NamedArg>,
    pub span: Span,
}

/// `name : value` inside an import.
#[derive(Debug, PartialEq)]
pub struct NamedArg {
    pub name: Ident,
    pub value: Expr,
    pub span: Span,
}

#[derive(Debug, PartialEq)]
pub struct FunctionDecl {
    pub name: Ident,
    pub sig: FunctionSig,
    pub span: Span,
}

/// Parameter list, return type, precondition and body — shared by named
/// functions, operators and anonymous `function(...)` expressions.
#[derive(Debug, PartialEq)]
pub struct FunctionSig {
    pub params: Vec<Param>,
    /// The `returns T` annotation.
    pub return_type: Option<TypeRef>,
    pub precondition: Option<Block>,
    pub body: Block,
    pub span: Span,
}

#[derive(Debug, PartialEq)]
pub struct Param {
    pub name: Ident,
    /// `is Type` constraint.
    pub ty: Option<TypeRef>,
    pub span: Span,
}

/// A type name as used after `is`, `as`, `returns`.
#[derive(Debug, PartialEq)]
pub struct TypeRef {
    pub name: String,
    pub span: Span,
}

#[derive(Debug, PartialEq)]
pub struct PredicateDecl {
    pub name: Ident,
    pub params: Vec<Param>,
    pub precondition: Option<Block>,
    pub body: Block,
    pub span: Span,
}

/// `export operator+(a is Foo, b is Foo) returns Foo { ... }`
#[derive(Debug, PartialEq)]
pub struct OperatorDecl {
    /// The operator symbol, e.g. `+`, `-`, `*`, `/`, `==`.
    pub op: String,
    pub sig: FunctionSig,
    pub span: Span,
}

/// `export type Foo typecheck canBeFoo;`
#[derive(Debug, PartialEq)]
pub struct TypeDecl {
    pub name: Ident,
    pub typecheck: Option<Ident>,
    pub span: Span,
}

#[derive(Debug, PartialEq)]
pub struct EnumDecl {
    pub name: Ident,
    pub members: Vec<EnumMember>,
    pub span: Span,
}

#[derive(Debug, PartialEq)]
pub struct EnumMember {
    pub doc: Option<String>,
    pub annotation: Option<Annotation>,
    pub name: Ident,
    pub span: Span,
}

/// `var x is Type = expr;` / `const X = expr;` — used both at top level
/// and as a statement.
#[derive(Debug, PartialEq)]
pub struct VarDecl {
    pub name: Ident,
    pub ty: Option<TypeRef>,
    pub init: Option<Expr>,
    pub span: Span,
}

#[derive(Debug, PartialEq)]
pub struct Block {
    pub stmts: Vec<Stmt>,
    pub span: Span,
}

#[derive(Debug, PartialEq)]
pub struct Stmt {
    /// Annotations may precede statements inside `precondition` blocks.
    pub annotation: Option<Annotation>,
    pub kind: StmtKind,
    pub span: Span,
}

#[derive(Debug, PartialEq)]
pub struct CatchClause {
    pub param: Option<Ident>,
    pub body: Block,
    pub span: Span,
}

#[derive(Debug, PartialEq)]
pub struct Expr {
    pub kind: ExprKind,
    pub span: Span,
}

#[derive(Debug, PartialEq)]
pub struct MapEntry {
    pub key: Expr,
    pub value: Expr,
    pub span: Span,
}

#[derive(Debug, PartialEq)]
pub enum ItemKind {
    Import(Import),
    Function(FunctionDecl),
    Predicate(PredicateDecl),
    Operator(OperatorDecl),
    Type(TypeDecl),
    Enum(EnumDecl),
    Const(VarDecl),
    Var(VarDecl),
}

#[derive(Debug, PartialEq)]
pub enum StmtKind {
    Var(VarDecl),
    Const(VarDecl),
    /// Expression statement; includes assignments, calls and the
    /// `definition.x is Query;` checks found in preconditions.
    Expr(Expr),
    Block(Block),
    If {
        cond: Expr,
        then: Box<Stmt>,
        else_: Option<Box<Stmt>>,
    },
    /// C-style `for (init; cond; step) body`.
    For {
        init: Option<ForInit>,
        cond: Option<Expr>,
        step: Option<Expr>,
        body: Box<Stmt>,
    },
    /// `for (var value in iter)` / `for (var key, value in iter)`.
    /// `declared` is false for the rare `for (value in iter)` form.
    ForIn {
        declared: bool,
        key: Option<Ident>,
        value: Ident,
        iter: Expr,
        body: Box<Stmt>,
    },
    While {
        cond: Expr,
        body: Box<Stmt>,
    },
    Break,
    Continue,
    Return(Option<Expr>),
    Throw(Expr),
    /// `try [silent] { ... } [catch [(e)] { ... }]`
    Try {
        silent: bool,
        body: Block,
        catch: Option<CatchClause>,
    },
    /// A lone `;`.
    Empty,
}

#[derive(Debug, PartialEq)]
pub enum ForInit {
    Var(VarDecl),
    Expr(Expr),
}

#[derive(Debug, PartialEq)]
pub enum ExprKind {
    /// A numeric literal, as its source text.
    Number(String),
    Str(String),
    Bool(bool),
    Undefined,
    Ident(String),
    Array(Vec<Expr>),
    /// A map literal `{ key : value, ... }`.
    MapLiteral(Vec<MapEntry>),
    /// `(expr)` — kept so spans and printing round-trip.
    Paren(Box<Expr>),
    Unary {
        op: UnaryOp,
        expr: Box<Expr>,
    },
    Binary {
        op: BinaryOp,
        lhs: Box<Expr>,
        rhs: Box<Expr>,
    },
    Assign {
        op: AssignOp,
        target: Box<Expr>,
        value: Box<Expr>,
    },
    Ternary {
        cond: Box<Expr>,
        then: Box<Expr>,
        else_: Box<Expr>,
    },
    /// `expr is Type`
    Is {
        expr: Box<Expr>,
        ty: TypeRef,
    },
    /// `expr as Type`
    As {
        expr: Box<Expr>,
        ty: TypeRef,
    },
    /// `object.name` or `object?.name`
    Member {
        object: Box<Expr>,
        name: Ident,
        safe: bool,
    },
    Index {
        object: Box<Expr>,
        index: Box<Expr>,
    },
    Call {
        callee: Box<Expr>,
        args: Vec<Expr>,
    },
    /// `receiver -> f(args)`, which means `f(receiver, args)`. `call` is
    /// always an [`ExprKind::Call`]; see [`Expr::desugar_pipe`].
    Pipe {
        receiver: Box<Expr>,
        call: Box<Expr>,
    },
    /// `x => expr` / `(a is Type, b) => expr` / `x => { stmts }`
    Lambda {
        params: Vec<Param>,
        return_type: Option<TypeRef>,
        body: Box<LambdaBody>,
    },
    /// `boxed[]` — the contents of a `box`.
    Deref(Box<Expr>),
    /// Anonymous `function(params) [returns T] [precondition {..}] { ... }`
    Function(FunctionSig),
    /// `try(expr)` / `try silent(expr)` — evaluates to `undefined` on error.
    Try {
        silent: bool,
        expr: Box<Expr>,
    },
    /// `switch (scrutinee) { key : value, ... }`
    Switch {
        scrutinee: Box<Expr>,
        cases: Vec<MapEntry>,
    },
    /// `new box(value)`
    New(Box<Expr>),
}

#[derive(Debug, PartialEq)]
pub enum LambdaBody {
    Expr(Expr),
    Block(Block),
}

#[derive(Clone, Copy, Debug, PartialEq, Eq, Hash, Structural)]
pub enum UnaryOp {
    Neg,
    Not,
}

#[derive(Clone, Copy, Debug, PartialEq, Eq, Hash, Structural)]
pub enum BinaryOp {
    Add,
    Sub,
    Mul,
    Div,
    Mod,
    Pow,
    /// `~` string concatenation
    Concat,
    Eq,
    Ne,
    Lt,
    Le,
    Gt,
    Ge,
    And,
    Or,
    /// `??`
    Coalesce,
}

#[derive(Clone, Copy, Debug, PartialEq, Eq, Hash, Structural)]
pub enum AssignOp {
    Assign,
    Add,
    Sub,
    Mul,
    Div,
    Mod,
    Concat,
    Pow,
    /// `||=`
    Or,
    /// `&&=`
    And,
    /// `??=`
    Coalesce,
}

// ---------------------------------------------------------------------------
// Views
// ---------------------------------------------------------------------------

pub struct SModule {
    pub header: Option<VersionHeader>,
    pub items: Seq<SItem>,
    pub span: Span,
}

pub struct SIdent {
    pub name: Seq<char>,
    pub span: Span,
}

pub struct SItem {
    pub doc: Option<Seq<char>>,
    pub annotation: Option<SAnnotation>,
    pub export: bool,
    pub kind: SItemKind,
    pub span: Span,
}

pub struct SAnnotation {
    pub entries: Seq<SMapEntry>,
    pub span: Span,
}

pub struct SImport {
    pub args: Seq<SNamedArg>,
    pub span: Span,
}

pub struct SNamedArg {
    pub name: SIdent,
    pub value: SExpr,
    pub span: Span,
}

pub struct SFunctionDecl {
    pub name: SIdent,
    pub sig: SFunctionSig,
    pub span: Span,
}

pub struct SFunctionSig {
    pub params: Seq<SParam>,
    pub return_type: Option<STypeRef>,
    pub precondition: Option<SBlock>,
    pub body: SBlock,
    pub span: Span,
}

pub struct SParam {
    pub name: SIdent,
    pub ty: Option<STypeRef>,
    pub span: Span,
}

pub struct STypeRef {
    pub name: Seq<char>,
    pub span: Span,
}

pub struct SPredicateDecl {
    pub name: SIdent,
    pub params: Seq<SParam>,
    pub precondition: Option<SBlock>,
    pub body: SBlock,
    pub span: Span,
}

pub struct SOperatorDecl {
    pub op: Seq<char>,
    pub sig: SFunctionSig,
    pub span: Span,
}

pub struct STypeDecl {
    pub name: SIdent,
    pub typecheck: Option<SIdent>,
    pub span: Span,
}

pub struct SEnumDecl {
    pub name: SIdent,
    pub members: Seq<SEnumMember>,
    pub span: Span,
}

pub struct SEnumMember {
    pub doc: Option<Seq<char>>,
    pub annotation: Option<SAnnotation>,
    pub name: SIdent,
    pub span: Span,
}

pub struct SVarDecl {
    pub name: SIdent,
    pub ty: Option<STypeRef>,
    pub init: Option<SExpr>,
    pub span: Span,
}

pub struct SBlock {
    pub stmts: Seq<SStmt>,
    pub span: Span,
}

pub struct SStmt {
    pub annotation: Option<SAnnotation>,
    pub kind: SStmtKind,
    pub span: Span,
}

pub struct SCatchClause {
    pub param: Option<SIdent>,
    pub body: SBlock,
    pub span: Span,
}

pub struct SExpr {
    pub kind: SExprKind,
    pub span: Span,
}

pub struct SMapEntry {
    pub key: SExpr,
    pub value: SExpr,
    pub span: Span,
}

pub enum SItemKind {
    Import(SImport),
    Function(SFunctionDecl),
    Predicate(SPredicateDecl),
    Operator(SOperatorDecl),
    Type(STypeDecl),
    Enum(SEnumDecl),
    Const(SVarDecl),
    Var(SVarDecl),
}

pub enum SStmtKind {
    Var(SVarDecl),
    Const(SVarDecl),
    Expr(SExpr),
    Block(SBlock),
    If { cond: SExpr, then: Box<SStmt>, else_: Option<Box<SStmt>> },
    For { init: Option<SForInit>, cond: Option<SExpr>, step: Option<SExpr>, body: Box<SStmt> },
    ForIn { declared: bool, key: Option<SIdent>, value: SIdent, iter: SExpr, body: Box<SStmt> },
    While { cond: SExpr, body: Box<SStmt> },
    Break,
    Continue,
    Return(Option<SExpr>),
    Throw(SExpr),
    Try { silent: bool, body: SBlock, catch: Option<SCatchClause> },
    Empty,
}

pub enum SForInit {
    Var(SVarDecl),
    Expr(SExpr),
}

pub enum SExprKind {
    Number(Seq<char>),
    Str(Seq<char>),
    Bool(bool),
    Undefined,
    Ident(Seq<char>),
    Array(Seq<SExpr>),
    MapLiteral(Seq<SMapEntry>),
    Paren(Box<SExpr>),
    Unary { op: UnaryOp, expr: Box<SExpr> },
    Binary { op: BinaryOp, lhs: Box<SExpr>, rhs: Box<SExpr> },
    Assign { op: AssignOp, target: Box<SExpr>, value: Box<SExpr> },
    Ternary { cond: Box<SExpr>, then: Box<SExpr>, else_: Box<SExpr> },
    Is { expr: Box<SExpr>, ty: STypeRef },
    As { expr: Box<SExpr>, ty: STypeRef },
    Member { object: Box<SExpr>, name: SIdent, safe: bool },
    Index { object: Box<SExpr>, index: Box<SExpr> },
    Call { callee: Box<SExpr>, args: Seq<SExpr> },
    Pipe { receiver: Box<SExpr>, call: Box<SExpr> },
    Lambda { params: Seq<SParam>, return_type: Option<STypeRef>, body: Box<SLambdaBody> },
    Deref(Box<SExpr>),
    Function(SFunctionSig),
    Try { silent: bool, expr: Box<SExpr> },
    Switch { scrutinee: Box<SExpr>, cases: Seq<SMapEntry> },
    New(Box<SExpr>),
}

pub enum SLambdaBody {
    Expr(SExpr),
    Block(SBlock),
}

pub open spec fn module_view(x: Module) -> SModule
    decreases x,
{
    SModule {
        header: match x.header { Some(y) => Some(y), None => None },
        items: items_view(x.items@),
        span: x.span,
    }
}

pub open spec fn ident_view(x: Ident) -> SIdent
    decreases x,
{
    SIdent {
        name: x.name@,
        span: x.span,
    }
}

pub open spec fn item_view(x: Item) -> SItem
    decreases x,
{
    SItem {
        doc: match x.doc { Some(y) => Some(y@), None => None },
        annotation: match x.annotation { Some(y) => Some(annotation_view(y)), None => None },
        export: x.export,
        kind: item_kind_view(x.kind),
        span: x.span,
    }
}

pub open spec fn annotation_view(x: Annotation) -> SAnnotation
    decreases x,
{
    SAnnotation {
        entries: entries_view(x.entries@),
        span: x.span,
    }
}

pub open spec fn import_view(x: Import) -> SImport
    decreases x,
{
    SImport {
        args: named_args_view(x.args@),
        span: x.span,
    }
}

pub open spec fn named_arg_view(x: NamedArg) -> SNamedArg
    decreases x,
{
    SNamedArg {
        name: ident_view(x.name),
        value: expr_view(x.value),
        span: x.span,
    }
}

pub open spec fn function_decl_view(x: FunctionDecl) -> SFunctionDecl
    decreases x,
{
    SFunctionDecl {
        name: ident_view(x.name),
        sig: function_sig_view(x.sig),
        span: x.span,
    }
}

pub open spec fn function_sig_view(x: FunctionSig) -> SFunctionSig
    decreases x,
{
    SFunctionSig {
        params: params_view(x.params@),
        return_type: match x.return_type { Some(y) => Some(type_ref_view(y)), None => None },
        precondition: match x.precondition { Some(y) => Some(block_view(y)), None => None },
        body: block_view(x.body),
        span: x.span,
    }
}

pub open spec fn param_view(x: Param) -> SParam
    decreases x,
{
    SParam {
        name: ident_view(x.name),
        ty: match x.ty { Some(y) => Some(type_ref_view(y)), None => None },
        span: x.span,
    }
}

pub open spec fn type_ref_view(x: TypeRef) -> STypeRef
    decreases x,
{
    STypeRef {
        name: x.name@,
        span: x.span,
    }
}

pub open spec fn predicate_decl_view(x: PredicateDecl) -> SPredicateDecl
    decreases x,
{
    SPredicateDecl {
        name: ident_view(x.name),
        params: params_view(x.params@),
        precondition: match x.precondition { Some(y) => Some(block_view(y)), None => None },
        body: block_view(x.body),
        span: x.span,
    }
}

pub open spec fn operator_decl_view(x: OperatorDecl) -> SOperatorDecl
    decreases x,
{
    SOperatorDecl {
        op: x.op@,
        sig: function_sig_view(x.sig),
        span: x.span,
    }
}

pub open spec fn type_decl_view(x: TypeDecl) -> STypeDecl
    decreases x,
{
    STypeDecl {
        name: ident_view(x.name),
        typecheck: match x.typecheck { Some(y) => Some(ident_view(y)), None => None },
        span: x.span,
    }
}

pub open spec fn enum_decl_view(x: EnumDecl) -> SEnumDecl
    decreases x,
{
    SEnumDecl {
        name: ident_view(x.name),
        members: members_view(x.members@),
        span: x.span,
    }
}

pub open spec fn enum_member_view(x: EnumMember) -> SEnumMember
    decreases x,
{
    SEnumMember {
        doc: match x.doc { Some(y) => Some(y@), None => None },
        annotation: match x.annotation { Some(y) => Some(annotation_view(y)), None => None },
        name: ident_view(x.name),
        span: x.span,
    }
}

pub open spec fn var_decl_view(x: VarDecl) -> SVarDecl
    decreases x,
{
    SVarDecl {
        name: ident_view(x.name),
        ty: match x.ty { Some(y) => Some(type_ref_view(y)), None => None },
        init: match x.init { Some(y) => Some(expr_view(y)), None => None },
        span: x.span,
    }
}

pub open spec fn block_view(x: Block) -> SBlock
    decreases x,
{
    SBlock {
        stmts: stmts_view(x.stmts@),
        span: x.span,
    }
}

pub open spec fn stmt_view(x: Stmt) -> SStmt
    decreases x,
{
    SStmt {
        annotation: match x.annotation { Some(y) => Some(annotation_view(y)), None => None },
        kind: stmt_kind_view(x.kind),
        span: x.span,
    }
}

pub open spec fn catch_clause_view(x: CatchClause) -> SCatchClause
    decreases x,
{
    SCatchClause {
        param: match x.param { Some(y) => Some(ident_view(y)), None => None },
        body: block_view(x.body),
        span: x.span,
    }
}

pub open spec fn expr_view(x: Expr) -> SExpr
    decreases x,
{
    SExpr {
        kind: expr_kind_view(x.kind),
        span: x.span,
    }
}

pub open spec fn map_entry_view(x: MapEntry) -> SMapEntry
    decreases x,
{
    SMapEntry {
        key: expr_view(x.key),
        value: expr_view(x.value),
        span: x.span,
    }
}

pub open spec fn item_kind_view(x: ItemKind) -> SItemKind
    decreases x,
{
    match x {
        ItemKind::Import(a0) => SItemKind::Import(import_view(a0)),
        ItemKind::Function(a0) => SItemKind::Function(function_decl_view(a0)),
        ItemKind::Predicate(a0) => SItemKind::Predicate(predicate_decl_view(a0)),
        ItemKind::Operator(a0) => SItemKind::Operator(operator_decl_view(a0)),
        ItemKind::Type(a0) => SItemKind::Type(type_decl_view(a0)),
        ItemKind::Enum(a0) => SItemKind::Enum(enum_decl_view(a0)),
        ItemKind::Const(a0) => SItemKind::Const(var_decl_view(a0)),
        ItemKind::Var(a0) => SItemKind::Var(var_decl_view(a0)),
    }
}

pub open spec fn stmt_kind_view(x: StmtKind) -> SStmtKind
    decreases x,
{
    match x {
        StmtKind::Var(a0) => SStmtKind::Var(var_decl_view(a0)),
        StmtKind::Const(a0) => SStmtKind::Const(var_decl_view(a0)),
        StmtKind::Expr(a0) => SStmtKind::Expr(expr_view(a0)),
        StmtKind::Block(a0) => SStmtKind::Block(block_view(a0)),
        StmtKind::If { cond, then, else_ } => SStmtKind::If { cond: expr_view(cond), then: Box::new(stmt_view(*then)), else_: match else_ { Some(y) => Some(Box::new(stmt_view(*y))), None => None } },
        StmtKind::For { init, cond, step, body } => SStmtKind::For { init: match init { Some(y) => Some(for_init_view(y)), None => None }, cond: match cond { Some(y) => Some(expr_view(y)), None => None }, step: match step { Some(y) => Some(expr_view(y)), None => None }, body: Box::new(stmt_view(*body)) },
        StmtKind::ForIn { declared, key, value, iter, body } => SStmtKind::ForIn { declared: declared, key: match key { Some(y) => Some(ident_view(y)), None => None }, value: ident_view(value), iter: expr_view(iter), body: Box::new(stmt_view(*body)) },
        StmtKind::While { cond, body } => SStmtKind::While { cond: expr_view(cond), body: Box::new(stmt_view(*body)) },
        StmtKind::Break => SStmtKind::Break,
        StmtKind::Continue => SStmtKind::Continue,
        StmtKind::Return(a0) => SStmtKind::Return(match a0 { Some(y) => Some(expr_view(y)), None => None }),
        StmtKind::Throw(a0) => SStmtKind::Throw(expr_view(a0)),
        StmtKind::Try { silent, body, catch } => SStmtKind::Try { silent: silent, body: block_view(body), catch: match catch { Some(y) => Some(catch_clause_view(y)), None => None } },
        StmtKind::Empty => SStmtKind::Empty,
    }
}

pub open spec fn for_init_view(x: ForInit) -> SForInit
    decreases x,
{
    match x {
        ForInit::Var(a0) => SForInit::Var(var_decl_view(a0)),
        ForInit::Expr(a0) => SForInit::Expr(expr_view(a0)),
    }
}

pub open spec fn expr_kind_view(x: ExprKind) -> SExprKind
    decreases x,
{
    match x {
        ExprKind::Number(a0) => SExprKind::Number(a0@),
        ExprKind::Str(a0) => SExprKind::Str(a0@),
        ExprKind::Bool(a0) => SExprKind::Bool(a0),
        ExprKind::Undefined => SExprKind::Undefined,
        ExprKind::Ident(a0) => SExprKind::Ident(a0@),
        ExprKind::Array(a0) => SExprKind::Array(exprs_view(a0@)),
        ExprKind::MapLiteral(a0) => SExprKind::MapLiteral(entries_view(a0@)),
        ExprKind::Paren(a0) => SExprKind::Paren(Box::new(expr_view(*a0))),
        ExprKind::Unary { op, expr } => SExprKind::Unary { op: op, expr: Box::new(expr_view(*expr)) },
        ExprKind::Binary { op, lhs, rhs } => SExprKind::Binary { op: op, lhs: Box::new(expr_view(*lhs)), rhs: Box::new(expr_view(*rhs)) },
        ExprKind::Assign { op, target, value } => SExprKind::Assign { op: op, target: Box::new(expr_view(*target)), value: Box::new(expr_view(*value)) },
        ExprKind::Ternary { cond, then, else_ } => SExprKind::Ternary { cond: Box::new(expr_view(*cond)), then: Box::new(expr_view(*then)), else_: Box::new(expr_view(*else_)) },
        ExprKind::Is { expr, ty } => SExprKind::Is { expr: Box::new(expr_view(*expr)), ty: type_ref_view(ty) },
        ExprKind::As { expr, ty } => SExprKind::As { expr: Box::new(expr_view(*expr)), ty: type_ref_view(ty) },
        ExprKind::Member { object, name, safe } => SExprKind::Member { object: Box::new(expr_view(*object)), name: ident_view(name), safe: safe },
        ExprKind::Index { object, index } => SExprKind::Index { object: Box::new(expr_view(*object)), index: Box::new(expr_view(*index)) },
        ExprKind::Call { callee, args } => SExprKind::Call { callee: Box::new(expr_view(*callee)), args: exprs_view(args@) },
        ExprKind::Pipe { receiver, call } => SExprKind::Pipe { receiver: Box::new(expr_view(*receiver)), call: Box::new(expr_view(*call)) },
        ExprKind::Lambda { params, return_type, body } => SExprKind::Lambda { params: params_view(params@), return_type: match return_type { Some(y) => Some(type_ref_view(y)), None => None }, body: Box::new(lambda_body_view(*body)) },
        ExprKind::Deref(a0) => SExprKind::Deref(Box::new(expr_view(*a0))),
        ExprKind::Function(a0) => SExprKind::Function(function_sig_view(a0)),
        ExprKind::Try { silent, expr } => SExprKind::Try { silent: silent, expr: Box::new(expr_view(*expr)) },
        ExprKind::Switch { scrutinee, cases } => SExprKind::Switch { scrutinee: Box::new(expr_view(*scrutinee)), cases: entries_view(cases@) },
        ExprKind::New(a0) => SExprKind::New(Box::new(expr_view(*a0))),
    }
}

pub open spec fn lambda_body_view(x: LambdaBody) -> SLambdaBody
    decreases x,
{
    match x {
        LambdaBody::Expr(a0) => SLambdaBody::Expr(expr_view(a0)),
        LambdaBody::Block(a0) => SLambdaBody::Block(block_view(a0)),
    }
}

/// The views of a sequence of [`Item`]s.
pub open spec fn items_view(s: Seq<Item>) -> Seq<SItem>
    decreases s,
{
    if s.len() == 0 {
        Seq::empty()
    } else {
        items_view(s.drop_last()).push(item_view(s.last()))
    }
}

pub proof fn lemma_items_view_push(s: Seq<Item>, x: Item)
    ensures
        items_view(s.push(x)) == items_view(s).push(item_view(x)),
{
    assert(s.push(x).drop_last() =~= s);
}

pub proof fn lemma_items_view_index(s: Seq<Item>)
    ensures
        items_view(s).len() == s.len(),
        forall|i: int| 0 <= i < s.len() ==> #[trigger] items_view(s)[i] == item_view(s[i]),
    decreases s.len(),
{
    if s.len() > 0 {
        lemma_items_view_index(s.drop_last());
    }
}

/// The views of a sequence of [`MapEntry`]s.
pub open spec fn entries_view(s: Seq<MapEntry>) -> Seq<SMapEntry>
    decreases s,
{
    if s.len() == 0 {
        Seq::empty()
    } else {
        entries_view(s.drop_last()).push(map_entry_view(s.last()))
    }
}

pub proof fn lemma_entries_view_push(s: Seq<MapEntry>, x: MapEntry)
    ensures
        entries_view(s.push(x)) == entries_view(s).push(map_entry_view(x)),
{
    assert(s.push(x).drop_last() =~= s);
}

pub proof fn lemma_entries_view_index(s: Seq<MapEntry>)
    ensures
        entries_view(s).len() == s.len(),
        forall|i: int| 0 <= i < s.len() ==> #[trigger] entries_view(s)[i] == map_entry_view(s[i]),
    decreases s.len(),
{
    if s.len() > 0 {
        lemma_entries_view_index(s.drop_last());
    }
}

/// The views of a sequence of [`NamedArg`]s.
pub open spec fn named_args_view(s: Seq<NamedArg>) -> Seq<SNamedArg>
    decreases s,
{
    if s.len() == 0 {
        Seq::empty()
    } else {
        named_args_view(s.drop_last()).push(named_arg_view(s.last()))
    }
}

pub proof fn lemma_named_args_view_push(s: Seq<NamedArg>, x: NamedArg)
    ensures
        named_args_view(s.push(x)) == named_args_view(s).push(named_arg_view(x)),
{
    assert(s.push(x).drop_last() =~= s);
}

pub proof fn lemma_named_args_view_index(s: Seq<NamedArg>)
    ensures
        named_args_view(s).len() == s.len(),
        forall|i: int| 0 <= i < s.len() ==> #[trigger] named_args_view(s)[i] == named_arg_view(s[i]),
    decreases s.len(),
{
    if s.len() > 0 {
        lemma_named_args_view_index(s.drop_last());
    }
}

/// The views of a sequence of [`Param`]s.
pub open spec fn params_view(s: Seq<Param>) -> Seq<SParam>
    decreases s,
{
    if s.len() == 0 {
        Seq::empty()
    } else {
        params_view(s.drop_last()).push(param_view(s.last()))
    }
}

pub proof fn lemma_params_view_push(s: Seq<Param>, x: Param)
    ensures
        params_view(s.push(x)) == params_view(s).push(param_view(x)),
{
    assert(s.push(x).drop_last() =~= s);
}

pub proof fn lemma_params_view_index(s: Seq<Param>)
    ensures
        params_view(s).len() == s.len(),
        forall|i: int| 0 <= i < s.len() ==> #[trigger] params_view(s)[i] == param_view(s[i]),
    decreases s.len(),
{
    if s.len() > 0 {
        lemma_params_view_index(s.drop_last());
    }
}

/// The views of a sequence of [`EnumMember`]s.
pub open spec fn members_view(s: Seq<EnumMember>) -> Seq<SEnumMember>
    decreases s,
{
    if s.len() == 0 {
        Seq::empty()
    } else {
        members_view(s.drop_last()).push(enum_member_view(s.last()))
    }
}

pub proof fn lemma_members_view_push(s: Seq<EnumMember>, x: EnumMember)
    ensures
        members_view(s.push(x)) == members_view(s).push(enum_member_view(x)),
{
    assert(s.push(x).drop_last() =~= s);
}

pub proof fn lemma_members_view_index(s: Seq<EnumMember>)
    ensures
        members_view(s).len() == s.len(),
        forall|i: int| 0 <= i < s.len() ==> #[trigger] members_view(s)[i] == enum_member_view(s[i]),
    decreases s.len(),
{
    if s.len() > 0 {
        lemma_members_view_index(s.drop_last());
    }
}

/// The views of a sequence of [`Stmt`]s.
pub open spec fn stmts_view(s: Seq<Stmt>) -> Seq<SStmt>
    decreases s,
{
    if s.len() == 0 {
        Seq::empty()
    } else {
        stmts_view(s.drop_last()).push(stmt_view(s.last()))
    }
}

pub proof fn lemma_stmts_view_push(s: Seq<Stmt>, x: Stmt)
    ensures
        stmts_view(s.push(x)) == stmts_view(s).push(stmt_view(x)),
{
    assert(s.push(x).drop_last() =~= s);
}

pub proof fn lemma_stmts_view_index(s: Seq<Stmt>)
    ensures
        stmts_view(s).len() == s.len(),
        forall|i: int| 0 <= i < s.len() ==> #[trigger] stmts_view(s)[i] == stmt_view(s[i]),
    decreases s.len(),
{
    if s.len() > 0 {
        lemma_stmts_view_index(s.drop_last());
    }
}

/// The views of a sequence of [`Expr`]s.
pub open spec fn exprs_view(s: Seq<Expr>) -> Seq<SExpr>
    decreases s,
{
    if s.len() == 0 {
        Seq::empty()
    } else {
        exprs_view(s.drop_last()).push(expr_view(s.last()))
    }
}

pub proof fn lemma_exprs_view_push(s: Seq<Expr>, x: Expr)
    ensures
        exprs_view(s.push(x)) == exprs_view(s).push(expr_view(x)),
{
    assert(s.push(x).drop_last() =~= s);
}

pub proof fn lemma_exprs_view_index(s: Seq<Expr>)
    ensures
        exprs_view(s).len() == s.len(),
        forall|i: int| 0 <= i < s.len() ==> #[trigger] exprs_view(s)[i] == expr_view(s[i]),
    decreases s.len(),
{
    if s.len() > 0 {
        lemma_exprs_view_index(s.drop_last());
    }
}

impl View for Module {
    type V = SModule;

    open spec fn view(&self) -> SModule {
        module_view(*self)
    }
}

impl View for Ident {
    type V = SIdent;

    open spec fn view(&self) -> SIdent {
        ident_view(*self)
    }
}

impl View for Item {
    type V = SItem;

    open spec fn view(&self) -> SItem {
        item_view(*self)
    }
}

impl View for Annotation {
    type V = SAnnotation;

    open spec fn view(&self) -> SAnnotation {
        annotation_view(*self)
    }
}

impl View for Import {
    type V = SImport;

    open spec fn view(&self) -> SImport {
        import_view(*self)
    }
}

impl View for NamedArg {
    type V = SNamedArg;

    open spec fn view(&self) -> SNamedArg {
        named_arg_view(*self)
    }
}

impl View for FunctionDecl {
    type V = SFunctionDecl;

    open spec fn view(&self) -> SFunctionDecl {
        function_decl_view(*self)
    }
}

impl View for FunctionSig {
    type V = SFunctionSig;

    open spec fn view(&self) -> SFunctionSig {
        function_sig_view(*self)
    }
}

impl View for Param {
    type V = SParam;

    open spec fn view(&self) -> SParam {
        param_view(*self)
    }
}

impl View for TypeRef {
    type V = STypeRef;

    open spec fn view(&self) -> STypeRef {
        type_ref_view(*self)
    }
}

impl View for PredicateDecl {
    type V = SPredicateDecl;

    open spec fn view(&self) -> SPredicateDecl {
        predicate_decl_view(*self)
    }
}

impl View for OperatorDecl {
    type V = SOperatorDecl;

    open spec fn view(&self) -> SOperatorDecl {
        operator_decl_view(*self)
    }
}

impl View for TypeDecl {
    type V = STypeDecl;

    open spec fn view(&self) -> STypeDecl {
        type_decl_view(*self)
    }
}

impl View for EnumDecl {
    type V = SEnumDecl;

    open spec fn view(&self) -> SEnumDecl {
        enum_decl_view(*self)
    }
}

impl View for EnumMember {
    type V = SEnumMember;

    open spec fn view(&self) -> SEnumMember {
        enum_member_view(*self)
    }
}

impl View for VarDecl {
    type V = SVarDecl;

    open spec fn view(&self) -> SVarDecl {
        var_decl_view(*self)
    }
}

impl View for Block {
    type V = SBlock;

    open spec fn view(&self) -> SBlock {
        block_view(*self)
    }
}

impl View for Stmt {
    type V = SStmt;

    open spec fn view(&self) -> SStmt {
        stmt_view(*self)
    }
}

impl View for CatchClause {
    type V = SCatchClause;

    open spec fn view(&self) -> SCatchClause {
        catch_clause_view(*self)
    }
}

impl View for Expr {
    type V = SExpr;

    open spec fn view(&self) -> SExpr {
        expr_view(*self)
    }
}

impl View for MapEntry {
    type V = SMapEntry;

    open spec fn view(&self) -> SMapEntry {
        map_entry_view(*self)
    }
}

impl View for ItemKind {
    type V = SItemKind;

    open spec fn view(&self) -> SItemKind {
        item_kind_view(*self)
    }
}

impl View for StmtKind {
    type V = SStmtKind;

    open spec fn view(&self) -> SStmtKind {
        stmt_kind_view(*self)
    }
}

impl View for ForInit {
    type V = SForInit;

    open spec fn view(&self) -> SForInit {
        for_init_view(*self)
    }
}

impl View for ExprKind {
    type V = SExprKind;

    open spec fn view(&self) -> SExprKind {
        expr_kind_view(*self)
    }
}

impl View for LambdaBody {
    type V = SLambdaBody;

    open spec fn view(&self) -> SLambdaBody {
        lambda_body_view(*self)
    }
}

// ---------------------------------------------------------------------------
// Deep copies
// ---------------------------------------------------------------------------

pub fn copy_module(x: &Module) -> (r: Module)
    ensures
        r@ == x@,
    decreases x,
{
    Module {
        header: match &x.header { Some(y) => Some(*y), None => None },
        items: copy_items(&x.items),
        span: x.span,
    }
}

pub fn copy_ident(x: &Ident) -> (r: Ident)
    ensures
        r@ == x@,
    decreases x,
{
    Ident {
        name: x.name.clone(),
        span: x.span,
    }
}

pub fn copy_item(x: &Item) -> (r: Item)
    ensures
        r@ == x@,
    decreases x,
{
    Item {
        doc: match &x.doc { Some(y) => Some(y.clone()), None => None },
        annotation: match &x.annotation { Some(y) => Some(copy_annotation(y)), None => None },
        export: x.export,
        kind: copy_item_kind(&x.kind),
        span: x.span,
    }
}

pub fn copy_annotation(x: &Annotation) -> (r: Annotation)
    ensures
        r@ == x@,
    decreases x,
{
    Annotation {
        entries: copy_entries(&x.entries),
        span: x.span,
    }
}

pub fn copy_import(x: &Import) -> (r: Import)
    ensures
        r@ == x@,
    decreases x,
{
    Import {
        args: copy_named_args(&x.args),
        span: x.span,
    }
}

pub fn copy_named_arg(x: &NamedArg) -> (r: NamedArg)
    ensures
        r@ == x@,
    decreases x,
{
    NamedArg {
        name: copy_ident(&x.name),
        value: copy_expr(&x.value),
        span: x.span,
    }
}

pub fn copy_function_decl(x: &FunctionDecl) -> (r: FunctionDecl)
    ensures
        r@ == x@,
    decreases x,
{
    FunctionDecl {
        name: copy_ident(&x.name),
        sig: copy_function_sig(&x.sig),
        span: x.span,
    }
}

pub fn copy_function_sig(x: &FunctionSig) -> (r: FunctionSig)
    ensures
        r@ == x@,
    decreases x,
{
    FunctionSig {
        params: copy_params(&x.params),
        return_type: match &x.return_type { Some(y) => Some(copy_type_ref(y)), None => None },
        precondition: match &x.precondition { Some(y) => Some(copy_block(y)), None => None },
        body: copy_block(&x.body),
        span: x.span,
    }
}

pub fn copy_param(x: &Param) -> (r: Param)
    ensures
        r@ == x@,
    decreases x,
{
    Param {
        name: copy_ident(&x.name),
        ty: match &x.ty { Some(y) => Some(copy_type_ref(y)), None => None },
        span: x.span,
    }
}

pub fn copy_type_ref(x: &TypeRef) -> (r: TypeRef)
    ensures
        r@ == x@,
    decreases x,
{
    TypeRef {
        name: x.name.clone(),
        span: x.span,
    }
}

pub fn copy_predicate_decl(x: &PredicateDecl) -> (r: PredicateDecl)
    ensures
        r@ == x@,
    decreases x,
{
    PredicateDecl {
        name: copy_ident(&x.name),
        params: copy_params(&x.params),
        precondition: match &x.precondition { Some(y) => Some(copy_block(y)), None => None },
        body: copy_block(&x.body),
        span: x.span,
    }
}

pub fn copy_operator_decl(x: &OperatorDecl) -> (r: OperatorDecl)
    ensures
        r@ == x@,
    decreases x,
{
    OperatorDecl {
        op: x.op.clone(),
        sig: copy_function_sig(&x.sig),
        span: x.span,
    }
}

pub fn copy_type_decl(x: &TypeDecl) -> (r: TypeDecl)
    ensures
        r@ == x@,
    decreases x,
{
    TypeDecl {
        name: copy_ident(&x.name),
        typecheck: match &x.typecheck { Some(y) => Some(copy_ident(y)), None => None },
        span: x.span,
    }
}

pub fn copy_enum_decl(x: &EnumDecl) -> (r: EnumDecl)
    ensures
        r@ == x@,
    decreases x,
{
    EnumDecl {
        name: copy_ident(&x.name),
        members: copy_members(&x.members),
        span: x.span,
    }
}

pub fn copy_enum_member(x: &EnumMember) -> (r: EnumMember)
    ensures
        r@ == x@,
    decreases x,
{
    EnumMember {
        doc: match &x.doc { Some(y) => Some(y.clone()), None => None },
        annotation: match &x.annotation { Some(y) => Some(copy_annotation(y)), None => None },
        name: copy_ident(&x.name),
        span: x.span,
    }
}

pub fn copy_var_decl(x: &VarDecl) -> (r: VarDecl)
    ensures
        r@ == x@,
    decreases x,
{
    VarDecl {
        name: copy_ident(&x.name),
        ty: match &x.ty { Some(y) => Some(copy_type_ref(y)), None => None },
        init: match &x.init { Some(y) => Some(copy_expr(y)), None => None },
        span: x.span,
    }
}

pub fn copy_block(x: &Block) -> (r: Block)
    ensures
        r@ == x@,
    decreases x,
{
    Block {
        stmts: copy_stmts(&x.stmts),
        span: x.span,
    }
}

pub fn copy_stmt(x: &Stmt) -> (r: Stmt)
    ensures
        r@ == x@,
    decreases x,
{
    Stmt {
        annotation: match &x.annotation { Some(y) => Some(copy_annotation(y)), None => None },
        kind: copy_stmt_kind(&x.kind),
        span: x.span,
    }
}

pub fn copy_catch_clause(x: &CatchClause) -> (r: CatchClause)
    ensures
        r@ == x@,
    decreases x,
{
    CatchClause {
        param: match &x.param { Some(y) => Some(copy_ident(y)), None => None },
        body: copy_block(&x.body),
        span: x.span,
    }
}

pub fn copy_expr(x: &Expr) -> (r: Expr)
    ensures
        r@ == x@,
    decreases x,
{
    Expr {
        kind: copy_expr_kind(&x.kind),
        span: x.span,
    }
}

pub fn copy_map_entry(x: &MapEntry) -> (r: MapEntry)
    ensures
        r@ == x@,
    decreases x,
{
    MapEntry {
        key: copy_expr(&x.key),
        value: copy_expr(&x.value),
        span: x.span,
    }
}

pub fn copy_item_kind(x: &ItemKind) -> (r: ItemKind)
    ensures
        r@ == x@,
    decreases x,
{
    match x {
        ItemKind::Import(a0) => ItemKind::Import(copy_import(a0)),
        ItemKind::Function(a0) => ItemKind::Function(copy_function_decl(a0)),
        ItemKind::Predicate(a0) => ItemKind::Predicate(copy_predicate_decl(a0)),
        ItemKind::Operator(a0) => ItemKind::Operator(copy_operator_decl(a0)),
        ItemKind::Type(a0) => ItemKind::Type(copy_type_decl(a0)),
        ItemKind::Enum(a0) => ItemKind::Enum(copy_enum_decl(a0)),
        ItemKind::Const(a0) => ItemKind::Const(copy_var_decl(a0)),
        ItemKind::Var(a0) => ItemKind::Var(copy_var_decl(a0)),
    }
}

pub fn copy_stmt_kind(x: &StmtKind) -> (r: StmtKind)
    ensures
        r@ == x@,
    decreases x,
{
    match x {
        StmtKind::Var(a0) => StmtKind::Var(copy_var_decl(a0)),
        StmtKind::Const(a0) => StmtKind::Const(copy_var_decl(a0)),
        StmtKind::Expr(a0) => StmtKind::Expr(copy_expr(a0)),
        StmtKind::Block(a0) => StmtKind::Block(copy_block(a0)),
        StmtKind::If { cond, then, else_ } => StmtKind::If { cond: copy_expr(cond), then: Box::new(copy_stmt(&**then)), else_: match else_ { Some(y) => Some(Box::new(copy_stmt(&**y))), None => None } },
        StmtKind::For { init, cond, step, body } => StmtKind::For { init: match init { Some(y) => Some(copy_for_init(y)), None => None }, cond: match cond { Some(y) => Some(copy_expr(y)), None => None }, step: match step { Some(y) => Some(copy_expr(y)), None => None }, body: Box::new(copy_stmt(&**body)) },
        StmtKind::ForIn { declared, key, value, iter, body } => StmtKind::ForIn { declared: *declared, key: match key { Some(y) => Some(copy_ident(y)), None => None }, value: copy_ident(value), iter: copy_expr(iter), body: Box::new(copy_stmt(&**body)) },
        StmtKind::While { cond, body } => StmtKind::While { cond: copy_expr(cond), body: Box::new(copy_stmt(&**body)) },
        StmtKind::Break => StmtKind::Break,
        StmtKind::Continue => StmtKind::Continue,
        StmtKind::Return(a0) => StmtKind::Return(match a0 { Some(y) => Some(copy_expr(y)), None => None }),
        StmtKind::Throw(a0) => StmtKind::Throw(copy_expr(a0)),
        StmtKind::Try { silent, body, catch } => StmtKind::Try { silent: *silent, body: copy_block(body), catch: match catch { Some(y) => Some(copy_catch_clause(y)), None => None } },
        StmtKind::Empty => StmtKind::Empty,
    }
}

pub fn copy_for_init(x: &ForInit) -> (r: ForInit)
    ensures
        r@ == x@,
    decreases x,
{
    match x {
        ForInit::Var(a0) => ForInit::Var(copy_var_decl(a0)),
        ForInit::Expr(a0) => ForInit::Expr(copy_expr(a0)),
    }
}

pub fn copy_expr_kind(x: &ExprKind) -> (r: ExprKind)
    ensures
        r@ == x@,
    decreases x,
{
    match x {
        ExprKind::Number(a0) => ExprKind::Number(a0.clone()),
        ExprKind::Str(a0) => ExprKind::Str(a0.clone()),
        ExprKind::Bool(a0) => ExprKind::Bool(*a0),
        ExprKind::Undefined => ExprKind::Undefined,
        ExprKind::Ident(a0) => ExprKind::Ident(a0.clone()),
        ExprKind::Array(a0) => ExprKind::Array(copy_exprs(a0)),
        ExprKind::MapLiteral(a0) => ExprKind::MapLiteral(copy_entries(a0)),
        ExprKind::Paren(a0) => ExprKind::Paren(Box::new(copy_expr(&**a0))),
        ExprKind::Unary { op, expr } => ExprKind::Unary { op: *op, expr: Box::new(copy_expr(&**expr)) },
        ExprKind::Binary { op, lhs, rhs } => ExprKind::Binary { op: *op, lhs: Box::new(copy_expr(&**lhs)), rhs: Box::new(copy_expr(&**rhs)) },
        ExprKind::Assign { op, target, value } => ExprKind::Assign { op: *op, target: Box::new(copy_expr(&**target)), value: Box::new(copy_expr(&**value)) },
        ExprKind::Ternary { cond, then, else_ } => ExprKind::Ternary { cond: Box::new(copy_expr(&**cond)), then: Box::new(copy_expr(&**then)), else_: Box::new(copy_expr(&**else_)) },
        ExprKind::Is { expr, ty } => ExprKind::Is { expr: Box::new(copy_expr(&**expr)), ty: copy_type_ref(ty) },
        ExprKind::As { expr, ty } => ExprKind::As { expr: Box::new(copy_expr(&**expr)), ty: copy_type_ref(ty) },
        ExprKind::Member { object, name, safe } => ExprKind::Member { object: Box::new(copy_expr(&**object)), name: copy_ident(name), safe: *safe },
        ExprKind::Index { object, index } => ExprKind::Index { object: Box::new(copy_expr(&**object)), index: Box::new(copy_expr(&**index)) },
        ExprKind::Call { callee, args } => ExprKind::Call { callee: Box::new(copy_expr(&**callee)), args: copy_exprs(args) },
        ExprKind::Pipe { receiver, call } => ExprKind::Pipe { receiver: Box::new(copy_expr(&**receiver)), call: Box::new(copy_expr(&**call)) },
        ExprKind::Lambda { params, return_type, body } => ExprKind::Lambda { params: copy_params(params), return_type: match return_type { Some(y) => Some(copy_type_ref(y)), None => None }, body: Box::new(copy_lambda_body(&**body)) },
        ExprKind::Deref(a0) => ExprKind::Deref(Box::new(copy_expr(&**a0))),
        ExprKind::Function(a0) => ExprKind::Function(copy_function_sig(a0)),
        ExprKind::Try { silent, expr } => ExprKind::Try { silent: *silent, expr: Box::new(copy_expr(&**expr)) },
        ExprKind::Switch { scrutinee, cases } => ExprKind::Switch { scrutinee: Box::new(copy_expr(&**scrutinee)), cases: copy_entries(cases) },
        ExprKind::New(a0) => ExprKind::New(Box::new(copy_expr(&**a0))),
    }
}

pub fn copy_lambda_body(x: &LambdaBody) -> (r: LambdaBody)
    ensures
        r@ == x@,
    decreases x,
{
    match x {
        LambdaBody::Expr(a0) => LambdaBody::Expr(copy_expr(a0)),
        LambdaBody::Block(a0) => LambdaBody::Block(copy_block(a0)),
    }
}

pub fn copy_items(v: &Vec<Item>) -> (r: Vec<Item>)
    ensures
        items_view(r@) == items_view(v@),
    decreases v,
{
    let mut out: Vec<Item> = Vec::new();
    let mut i: usize = 0;
    while i < v.len()
        invariant
            i <= v@.len(),
            items_view(out@) == items_view(v@.take(i as int)),
        decreases v@.len() - i,
    {
        let c = copy_item(&v[i]);
        proof {
            lemma_items_view_push(out@, c);
            assert(v@.take(i + 1).drop_last() =~= v@.take(i as int));
        }
        out.push(c);
        i = i + 1;
    }
    proof {
        assert(v@.take(v@.len() as int) =~= v@);
    }
    out
}

pub fn copy_entries(v: &Vec<MapEntry>) -> (r: Vec<MapEntry>)
    ensures
        entries_view(r@) == entries_view(v@),
    decreases v,
{
    let mut out: Vec<MapEntry> = Vec::new();
    let mut i: usize = 0;
    while i < v.len()
        invariant
            i <= v@.len(),
            entries_view(out@) == entries_view(v@.take(i as int)),
        decreases v@.len() - i,
    {
        let c = copy_map_entry(&v[i]);
        proof {
            lemma_entries_view_push(out@, c);
            assert(v@.take(i + 1).drop_last() =~= v@.take(i as int));
        }
        out.push(c);
        i = i + 1;
    }
    proof {
        assert(v@.take(v@.len() as int) =~= v@);
    }
    out
}

pub fn copy_named_args(v: &Vec<NamedArg>) -> (r: Vec<NamedArg>)
    ensures
        named_args_view(r@) == named_args_view(v@),
    decreases v,
{
    let mut out: Vec<NamedArg> = Vec::new();
    let mut i: usize = 0;
    while i < v.len()
        invariant
            i <= v@.len(),
            named_args_view(out@) == named_args_view(v@.take(i as int)),
        decreases v@.len() - i,
    {
        let c = copy_named_arg(&v[i]);
        proof {
            lemma_named_args_view_push(out@, c);
            assert(v@.take(i + 1).drop_last() =~= v@.take(i as int));
        }
        out.push(c);
        i = i + 1;
    }
    proof {
        assert(v@.take(v@.len() as int) =~= v@);
    }
    out
}

pub fn copy_params(v: &Vec<Param>) -> (r: Vec<Param>)
    ensures
        params_view(r@) == params_view(v@),
    decreases v,
{
    let mut out: Vec<Param> = Vec::new();
    let mut i: usize = 0;
    while i < v.len()
        invariant
            i <= v@.len(),
            params_view(out@) == params_view(v@.take(i as int)),
        decreases v@.len() - i,
    {
        let c = copy_param(&v[i]);
        proof {
            lemma_params_view_push(out@, c);
            assert(v@.take(i + 1).drop_last() =~= v@.take(i as int));
        }
        out.push(c);
        i = i + 1;
    }
    proof {
        assert(v@.take(v@.len() as int) =~= v@);
    }
    out
}

pub fn copy_members(v: &Vec<EnumMember>) -> (r: Vec<EnumMember>)
    ensures
        members_view(r@) == members_view(v@),
    decreases v,
{
    let mut out: Vec<EnumMember> = Vec::new();
    let mut i: usize = 0;
    while i < v.len()
        invariant
            i <= v@.len(),
            members_view(out@) == members_view(v@.take(i as int)),
        decreases v@.len() - i,
    {
        let c = copy_enum_member(&v[i]);
        proof {
            lemma_members_view_push(out@, c);
            assert(v@.take(i + 1).drop_last() =~= v@.take(i as int));
        }
        out.push(c);
        i = i + 1;
    }
    proof {
        assert(v@.take(v@.len() as int) =~= v@);
    }
    out
}

pub fn copy_stmts(v: &Vec<Stmt>) -> (r: Vec<Stmt>)
    ensures
        stmts_view(r@) == stmts_view(v@),
    decreases v,
{
    let mut out: Vec<Stmt> = Vec::new();
    let mut i: usize = 0;
    while i < v.len()
        invariant
            i <= v@.len(),
            stmts_view(out@) == stmts_view(v@.take(i as int)),
        decreases v@.len() - i,
    {
        let c = copy_stmt(&v[i]);
        proof {
            lemma_stmts_view_push(out@, c);
            assert(v@.take(i + 1).drop_last() =~= v@.take(i as int));
        }
        out.push(c);
        i = i + 1;
    }
    proof {
        assert(v@.take(v@.len() as int) =~= v@);
    }
    out
}

pub fn copy_exprs(v: &Vec<Expr>) -> (r: Vec<Expr>)
    ensures
        exprs_view(r@) == exprs_view(v@),
    decreases v,
{
    let mut out: Vec<Expr> = Vec::new();
    let mut i: usize = 0;
    while i < v.len()
        invariant
            i <= v@.len(),
            exprs_view(out@) == exprs_view(v@.take(i as int)),
        decreases v@.len() - i,
    {
        let c = copy_expr(&v[i]);
        proof {
            lemma_exprs_view_push(out@, c);
            assert(v@.take(i + 1).drop_last() =~= v@.take(i as int));
        }
        out.push(c);
        i = i + 1;
    }
    proof {
        assert(v@.take(v@.len() as int) =~= v@);
    }
    out
}

// ---------------------------------------------------------------------------
// Queries and rewrites
// ---------------------------------------------------------------------------

/// The first named argument called `name`.
pub open spec fn find_arg(args: Seq<SNamedArg>, name: Seq<char>) -> Option<SNamedArg>
    decreases args.len(),
{
    if args.len() == 0 {
        None
    } else if args[0].name.name == name {
        Some(args[0])
    } else {
        find_arg(args.drop_first(), name)
    }
}

/// The string value of the first argument called `name`, if that value is a
/// string literal.
pub open spec fn import_string_arg(imp: SImport, name: Seq<char>) -> Option<Seq<char>> {
    match find_arg(imp.args, name) {
        Some(a) => match a.value.kind {
            SExprKind::Str(s) => Some(s),
            _ => None,
        },
        None => None,
    }
}

/// The view of an optional borrowed string.
pub open spec fn opt_str_view(r: Option<&str>) -> Option<Seq<char>> {
    match r {
        Some(s) => Some(s@),
        None => None,
    }
}

impl Import {
    fn string_arg(&self, name: &str) -> (r: Option<&str>)
        ensures
            opt_str_view(r) == import_string_arg(self@, name@),
    {
        let ghost all = named_args_view(self.args@);
        proof {
            lemma_named_args_view_index(self.args@);
            assert(all.skip(0) =~= all);
        }
        let mut i: usize = 0;
        while i < self.args.len()
            invariant
                i <= self.args@.len(),
                all == named_args_view(self.args@),
                all.len() == self.args@.len(),
                forall|j: int| 0 <= j < self.args@.len() ==> #[trigger] all[j] == self.args@[j]@,
                find_arg(all, name@) == find_arg(all.skip(i as int), name@),
            decreases self.args@.len() - i,
        {
            let a = &self.args[i];
            proof {
                assert(all.skip(i as int).drop_first() =~= all.skip(i + 1));
                assert(all.skip(i as int)[0] == a@);
            }
            if same_text(a.name.name.as_str(), name) {
                return match &a.value.kind {
                    ExprKind::Str(s) => Some(s.as_str()),
                    _ => None,
                };
            }
            i = i + 1;
        }
        None
    }

    /// The `path` argument.
    pub fn path(&self) -> (r: Option<&str>)
        ensures
            opt_str_view(r) == import_string_arg(self@, "path"@),
    {
        self.string_arg("path")
    }

    /// The `version` argument.
    pub fn version(&self) -> (r: Option<&str>)
        ensures
            opt_str_view(r) == import_string_arg(self@, "version"@),
    {
        self.string_arg("version")
    }
}

/// For a pipe `receiver -> f(args)`, the plain call `f(receiver, args)`;
/// any other expression unchanged.
pub open spec fn desugar(e: SExpr) -> SExpr {
    match e.kind {
        SExprKind::Pipe { receiver, call } => match call.kind {
            SExprKind::Call { callee, args } => SExpr {
                kind: SExprKind::Call { callee, args: seq![*receiver] + args },
                span: e.span,
            },
            _ => e,
        },
        _ => e,
    }
}

impl Expr {
    /// For a [`ExprKind::Pipe`], return the equivalent plain call with the
    /// receiver inserted as the first argument. Other expressions are
    /// returned unchanged (copied).
    pub fn desugar_pipe(&self) -> (r: Expr)
        ensures
            r@ == desugar(self@),
    {
        if let ExprKind::Pipe { receiver, call } = &self.kind {
            if let ExprKind::Call { callee, args } = &call.kind {
                let mut new_args: Vec<Expr> = Vec::new();
                let first = copy_expr(receiver);
                proof {
                    lemma_exprs_view_push(new_args@, first);
                }
                new_args.push(first);
                let ghost r = expr_view(**receiver);
                let mut i: usize = 0;
                proof {
                    assert(exprs_view(new_args@) =~= seq![r] + exprs_view(args@.take(0)));
                }
                while i < args.len()
                    invariant
                        i <= args@.len(),
                        exprs_view(new_args@) == seq![r] + exprs_view(args@.take(i as int)),
                    decreases args@.len() - i,
                {
                    let c = copy_expr(&args[i]);
                    proof {
                        lemma_exprs_view_push(new_args@, c);
                        lemma_exprs_view_push(args@.take(i as int), args@[i as int]);
                        assert(args@.take(i + 1) =~= args@.take(i as int).push(args@[i as int]));
                    }
                    new_args.push(c);
                    i = i + 1;
                    proof {
                        assert(exprs_view(new_args@) =~= seq![r] + exprs_view(args@.take(i as int)));
                    }
                }
                proof {
                    assert(args@.take(args@.len() as int) =~= args@);
                }
                let r = Expr {
                    kind: ExprKind::Call { callee: Box::new(copy_expr(callee)), args: new_args },
                    span: self.span,
                };
                proof {
                    assert(self@.kind == expr_kind_view(self.kind));
                    assert(call@.kind == expr_kind_view(call.kind));
                }
                return r;
            } else {
                proof {
                    assert(self@.kind == expr_kind_view(self.kind));
                    assert(call@.kind == expr_kind_view(call.kind));
                    assert(!(call@.kind is Call));
                }
            }
        } else {
            proof {
                assert(self@.kind == expr_kind_view(self.kind));
                assert(!(self@.kind is Pipe));
            }
        }
        copy_expr(self)
    }
}

/// The declared name of an item, when it has one.
pub open spec fn item_name(item: SItem) -> Option<Seq<char>> {
    match item.kind {
        SItemKind::Import(_) => None,
        SItemKind::Function(f) => Some(f.name.name),
        SItemKind::Predicate(p) => Some(p.name.name),
        SItemKind::Operator(o) => Some(o.op),
        SItemKind::Type(t) => Some(t.name.name),
        SItemKind::Enum(e) => Some(e.name.name),
        SItemKind::Const(v) => Some(v.name.name),
        SItemKind::Var(v) => Some(v.name.name),
    }
}

impl Item {
    /// The declared name, when the item has one.
    pub fn name(&self) -> (r: Option<&str>)
        ensures
            opt_str_view(r) == item_name(self@),
    {
        match &self.kind {
            ItemKind::Import(_) => None,
            ItemKind::Function(f) => Some(f.name.name.as_str()),
            ItemKind::Predicate(p) => Some(p.name.name.as_str()),
            ItemKind::Operator(o) => Some(o.op.as_str()),
            ItemKind::Type(t) => Some(t.name.name.as_str()),
            ItemKind::Enum(e) => Some(e.name.name.as_str()),
            ItemKind::Const(v) => Some(v.name.name.as_str()),
            ItemKind::Var(v) => Some(v.name.name.as_str()),
        }
    }
}

/// How a binary operator is written.
pub open spec fn binary_symbol(op: BinaryOp) -> Seq<char> {
    match op {
        BinaryOp::Add => "+"@,
        BinaryOp::Sub => "-"@,
        BinaryOp::Mul => "*"@,
        BinaryOp::Div => "/"@,
        BinaryOp::Mod => "%"@,
        BinaryOp::Pow => "^"@,
        BinaryOp::Concat => "~"@,
        BinaryOp::Eq => "=="@,
        BinaryOp::Ne => "!="@,
        BinaryOp::Lt => "<"@,
        BinaryOp::Le => "<="@,
        BinaryOp::Gt => ">"@,
        BinaryOp::Ge => ">="@,
        BinaryOp::And => "&&"@,
        BinaryOp::Or => "||"@,
        BinaryOp::Coalesce => "??"@,
    }
}

/// How an assignment operator is written.
pub open spec fn assign_symbol(op: AssignOp) -> Seq<char> {
    match op {
        AssignOp::Assign => "="@,
        AssignOp::Add => "+="@,
        AssignOp::Sub => "-="@,
        AssignOp::Mul => "*="@,
        AssignOp::Div => "/="@,
        AssignOp::Mod => "%="@,
        AssignOp::Concat => "~="@,
        AssignOp::Pow => "^="@,
        AssignOp::Or => "||="@,
        AssignOp::And => "&&="@,
        AssignOp::Coalesce => "??="@,
    }
}

impl BinaryOp {
    pub fn symbol(self) -> (s: &'static str)
        ensures
            s@ == binary_symbol(self),
    {
        match self {
            BinaryOp::Add => "+",
            BinaryOp::Sub => "-",
            BinaryOp::Mul => "*",
            BinaryOp::Div => "/",
            BinaryOp::Mod => "%",
            BinaryOp::Pow => "^",
            BinaryOp::Concat => "~",
            BinaryOp::Eq => "==",
            BinaryOp::Ne => "!=",
            BinaryOp::Lt => "<",
            BinaryOp::Le => "<=",
            BinaryOp::Gt => ">",
            BinaryOp::Ge => ">=",
            BinaryOp::And => "&&",
            BinaryOp::Or => "||",
            BinaryOp::Coalesce => "??",
        }
    }
}

impl AssignOp {
    pub fn symbol(self) -> (s: &'static str)
        ensures
            s@ == assign_symbol(self),
    {
        match self {
            AssignOp::Assign => "=",
            AssignOp::Add => "+=",
            AssignOp::Sub => "-=",
            AssignOp::Mul => "*=",
            AssignOp::Div => "/=",
            AssignOp::Mod => "%=",
            AssignOp::Concat => "~=",
            AssignOp::Pow => "^=",
            AssignOp::Or => "||=",
            AssignOp::And => "&&=",
            AssignOp::Coalesce => "??=",
        }
    }
}

impl Clone for Module {
    fn clone(&self) -> (r: Self)
        ensures
            r@ == self@,
    {
        copy_module(self)
    }
}

impl Clone for Ident {
    fn clone(&self) -> (r: Self)
        ensures
            r@ == self@,
    {
        copy_ident(self)
    }
}

impl Clone for Item {
    fn clone(&self) -> (r: Self)
        ensures
            r@ == self@,
    {
        copy_item(self)
    }
}

impl Clone for Annotation {
    fn clone(&self) -> (r: Self)
        ensures
            r@ == self@,
    {
        copy_annotation(self)
    }
}

impl Clone for Import {
    fn clone(&self) -> (r: Self)
        ensures
            r@ == self@,
    {
        copy_import(self)
    }
}

impl Clone for NamedArg {
    fn clone(&self) -> (r: Self)
        ensures
            r@ == self@,
    {
        copy_named_arg(self)
    }
}

impl Clone for FunctionDecl {
    fn clone(&self) -> (r: Self)
        ensures
            r@ == self@,
    {
        copy_function_decl(self)
    }
}

impl Clone for FunctionSig {
    fn clone(&self) -> (r: Self)
        ensures
            r@ == self@,
    {
        copy_function_sig(self)
    }
}

impl Clone for Param {
    fn clone(&self) -> (r: Self)
        ensures
            r@ == self@,
    {
        copy_param(self)
    }
}

impl Clone for TypeRef {
    fn clone(&self) -> (r: Self)
        ensures
            r@ == self@,
    {
        copy_type_ref(self)
    }
}

impl Clone for PredicateDecl {
    fn clone(&self) -> (r: Self)
        ensures
            r@ == self@,
    {
        copy_predicate_decl(self)
    }
}

impl Clone for OperatorDecl {
    fn clone(&self) -> (r: Self)
        ensures
            r@ == self@,
    {
        copy_operator_decl(self)
    }
}

impl Clone for TypeDecl {
    fn clone(&self) -> (r: Self)
        ensures
            r@ == self@,
    {
        copy_type_decl(self)
    }
}

impl Clone for EnumDecl {
    fn clone(&self) -> (r: Self)
        ensures
            r@ == self@,
    {
        copy_enum_decl(self)
    }
}

impl Clone for EnumMember {
    fn clone(&self) -> (r: Self)
        ensures
            r@ == self@,
    {
        copy_enum_member(self)
    }
}

impl Clone for VarDecl {
    fn clone(&self) -> (r: Self)
        ensures
            r@ == self@,
    {
        copy_var_decl(self)
    }
}

impl Clone for Block {
    fn clone(&self) -> (r: Self)
        ensures
            r@ == self@,
    {
        copy_block(self)
    }
}

impl Clone for Stmt {
    fn clone(&self) -> (r: Self)
        ensures
            r@ == self@,
    {
        copy_stmt(self)
    }
}

impl Clone for CatchClause {
    fn clone(&self) -> (r: Self)
        ensures
            r@ == self@,
    {
        copy_catch_clause(self)
    }
}

impl Clone for Expr {
    fn clone(&self) -> (r: Self)
        ensures
            r@ == self@,
    {
        copy_expr(self)
    }
}

impl Clone for MapEntry {
    fn clone(&self) -> (r: Self)
        ensures
            r@ == self@,
    {
        copy_map_entry(self)
    }
}

impl Clone for ItemKind {
    fn clone(&self) -> (r: Self)
        ensures
            r@ == self@,
    {
        copy_item_kind(self)
    }
}

impl Clone for StmtKind {
    fn clone(&self) -> (r: Self)
        ensures
            r@ == self@,
    {
        copy_stmt_kind(self)
    }
}

impl Clone for ForInit {
    fn clone(&self) -> (r: Self)
        ensures
            r@ == self@,
    {
        copy_for_init(self)
    }
}

impl Clone for ExprKind {
    fn clone(&self) -> (r: Self)
        ensures
            r@ == self@,
    {
        copy_expr_kind(self)
    }
}

impl Clone for LambdaBody {
    fn clone(&self) -> (r: Self)
        ensures
            r@ == self@,
    {
        copy_lambda_body(self)
    }
}

} // verus!
