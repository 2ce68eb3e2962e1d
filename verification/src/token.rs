//! Tokens produced by the lexer.

use crate::span::Span;
use crate::text::{chars_equal_str, chars_of, push_string};
use vstd::prelude::*;

verus! {

#[derive(Clone, Debug, PartialEq)]
pub struct Token {
    pub kind: TokenKind,
    pub span: Span,
}

#[derive(Clone, Debug, PartialEq)]
pub enum TokenKind {
    /// An identifier, including `@builtin` names (the `@` is kept in the text).
    Ident(String),
    /// Numeric literal, stored as its source text.
    Number(String),
    /// String literal with escapes already processed.
    Str(String),
    /// A `/** ... */` documentation comment (text without delimiters). Only
    /// emitted when the lexer is configured to keep doc comments.
    DocComment(String),
    /// The `✨` placeholder used for version numbers in the std library mirror.
    Sparkle,
    Kw(Keyword),
    LParen,
    RParen,
    LBrace,
    RBrace,
    LBracket,
    RBracket,
    Comma,
    Semi,
    Colon,
    Dot,
    /// `?.`
    QuestionDot,
    Question,
    /// `??`
    QuestionQuestion,
    /// `->`
    Arrow,
    /// `=>`
    FatArrow,
    Plus,
    Minus,
    Star,
    Slash,
    Percent,
    Caret,
    Tilde,
    Bang,
    Eq,
    EqEq,
    BangEq,
    Lt,
    LtEq,
    Gt,
    GtEq,
    AmpAmp,
    PipePipe,
    PlusEq,
    MinusEq,
    StarEq,
    SlashEq,
    PercentEq,
    TildeEq,
    CaretEq,
    /// `||=`
    PipePipeEq,
    /// `&&=`
    AmpAmpEq,
    /// `??=`
    QuestionQuestionEq,
    Eof,
}

/// A token kind with its text as a character sequence.
pub enum SKind {
    Ident(Seq<char>),
    Number(Seq<char>),
    Str(Seq<char>),
    DocComment(Seq<char>),
    Sparkle,
    Kw(Keyword),
    LParen,
    RParen,
    LBrace,
    RBrace,
    LBracket,
    RBracket,
    Comma,
    Semi,
    Colon,
    Dot,
    QuestionDot,
    Question,
    QuestionQuestion,
    Arrow,
    FatArrow,
    Plus,
    Minus,
    Star,
    Slash,
    Percent,
    Caret,
    Tilde,
    Bang,
    Eq,
    EqEq,
    BangEq,
    Lt,
    LtEq,
    Gt,
    GtEq,
    AmpAmp,
    PipePipe,
    PlusEq,
    MinusEq,
    StarEq,
    SlashEq,
    PercentEq,
    TildeEq,
    CaretEq,
    PipePipeEq,
    AmpAmpEq,
    QuestionQuestionEq,
    Eof,
}

/// A token as its kind and span.
pub struct SToken {
    pub kind: SKind,
    pub span: Span,
}

impl View for TokenKind {
    type V = SKind;

    open spec fn view(&self) -> SKind {
        match self {
            TokenKind::Ident(s) => SKind::Ident(s@),
            TokenKind::Number(s) => SKind::Number(s@),
            TokenKind::Str(s) => SKind::Str(s@),
            TokenKind::DocComment(s) => SKind::DocComment(s@),
            TokenKind::Sparkle => SKind::Sparkle,
            TokenKind::Kw(k) => SKind::Kw(*k),
            TokenKind::LParen => SKind::LParen,
            TokenKind::RParen => SKind::RParen,
            TokenKind::LBrace => SKind::LBrace,
            TokenKind::RBrace => SKind::RBrace,
            TokenKind::LBracket => SKind::LBracket,
            TokenKind::RBracket => SKind::RBracket,
            TokenKind::Comma => SKind::Comma,
            TokenKind::Semi => SKind::Semi,
            TokenKind::Colon => SKind::Colon,
            TokenKind::Dot => SKind::Dot,
            TokenKind::QuestionDot => SKind::QuestionDot,
            TokenKind::Question => SKind::Question,
            TokenKind::QuestionQuestion => SKind::QuestionQuestion,
            TokenKind::Arrow => SKind::Arrow,
            TokenKind::FatArrow => SKind::FatArrow,
            TokenKind::Plus => SKind::Plus,
            TokenKind::Minus => SKind::Minus,
            TokenKind::Star => SKind::Star,
            TokenKind::Slash => SKind::Slash,
            TokenKind::Percent => SKind::Percent,
            TokenKind::Caret => SKind::Caret,
            TokenKind::Tilde => SKind::Tilde,
            TokenKind::Bang => SKind::Bang,
            TokenKind::Eq => SKind::Eq,
            TokenKind::EqEq => SKind::EqEq,
            TokenKind::BangEq => SKind::BangEq,
            TokenKind::Lt => SKind::Lt,
            TokenKind::LtEq => SKind::LtEq,
            TokenKind::Gt => SKind::Gt,
            TokenKind::GtEq => SKind::GtEq,
            TokenKind::AmpAmp => SKind::AmpAmp,
            TokenKind::PipePipe => SKind::PipePipe,
            TokenKind::PlusEq => SKind::PlusEq,
            TokenKind::MinusEq => SKind::MinusEq,
            TokenKind::StarEq => SKind::StarEq,
            TokenKind::SlashEq => SKind::SlashEq,
            TokenKind::PercentEq => SKind::PercentEq,
            TokenKind::TildeEq => SKind::TildeEq,
            TokenKind::CaretEq => SKind::CaretEq,
            TokenKind::PipePipeEq => SKind::PipePipeEq,
            TokenKind::AmpAmpEq => SKind::AmpAmpEq,
            TokenKind::QuestionQuestionEq => SKind::QuestionQuestionEq,
            TokenKind::Eof => SKind::Eof,
        }
    }
}

impl View for Token {
    type V = SToken;

    open spec fn view(&self) -> SToken {
        SToken { kind: self.kind@, span: self.span }
    }
}

/// The views of a token sequence.
pub open spec fn tokens_view(ts: Seq<Token>) -> Seq<SToken> {
    ts.map_values(|t: Token| t@)
}

#[derive(Clone, Copy, Debug, PartialEq, Eq, Hash, Structural)]
pub enum Keyword {
    FeatureScript,
    Import,
    Export,
    Function,
    Predicate,
    Precondition,
    Returns,
    Type,
    Typecheck,
    Enum,
    Const,
    Var,
    If,
    Else,
    For,
    While,
    In,
    Is,
    As,
    Return,
    Break,
    Continue,
    Throw,
    Try,
    Silent,
    Catch,
    Switch,
    New,
    Annotation,
    Operator,
    True,
    False,
    Undefined,
}

/// The source spelling of a keyword.
pub open spec fn keyword_text(k: Keyword) -> Seq<char> {
    match k {
        Keyword::FeatureScript => "FeatureScript"@,
        Keyword::Import => "import"@,
        Keyword::Export => "export"@,
        Keyword::Function => "function"@,
        Keyword::Predicate => "predicate"@,
        Keyword::Precondition => "precondition"@,
        Keyword::Returns => "returns"@,
        Keyword::Type => "type"@,
        Keyword::Typecheck => "typecheck"@,
        Keyword::Enum => "enum"@,
        Keyword::Const => "const"@,
        Keyword::Var => "var"@,
        Keyword::If => "if"@,
        Keyword::Else => "else"@,
        Keyword::For => "for"@,
        Keyword::While => "while"@,
        Keyword::In => "in"@,
        Keyword::Is => "is"@,
        Keyword::As => "as"@,
        Keyword::Return => "return"@,
        Keyword::Break => "break"@,
        Keyword::Continue => "continue"@,
        Keyword::Throw => "throw"@,
        Keyword::Try => "try"@,
        Keyword::Silent => "silent"@,
        Keyword::Catch => "catch"@,
        Keyword::Switch => "switch"@,
        Keyword::New => "new"@,
        Keyword::Annotation => "annotation"@,
        Keyword::Operator => "operator"@,
        Keyword::True => "true"@,
        Keyword::False => "false"@,
        Keyword::Undefined => "undefined"@,
    }
}

/// The keyword spelled by `t`, if any.
pub open spec fn keyword_of(t: Seq<char>) -> Option<Keyword> {
    if t == keyword_text(Keyword::FeatureScript) {
        Some(Keyword::FeatureScript)
    } else if t == keyword_text(Keyword::Import) {
        Some(Keyword::Import)
    } else if t == keyword_text(Keyword::Export) {
        Some(Keyword::Export)
    } else if t == keyword_text(Keyword::Function) {
        Some(Keyword::Function)
    } else if t == keyword_text(Keyword::Predicate) {
        Some(Keyword::Predicate)
    } else if t == keyword_text(Keyword::Precondition) {
        Some(Keyword::Precondition)
    } else if t == keyword_text(Keyword::Returns) {
        Some(Keyword::Returns)
    } else if t == keyword_text(Keyword::Type) {
        Some(Keyword::Type)
    } else if t == keyword_text(Keyword::Typecheck) {
        Some(Keyword::Typecheck)
    } else if t == keyword_text(Keyword::Enum) {
        Some(Keyword::Enum)
    } else if t == keyword_text(Keyword::Const) {
        Some(Keyword::Const)
    } else if t == keyword_text(Keyword::Var) {
        Some(Keyword::Var)
    } else if t == keyword_text(Keyword::If) {
        Some(Keyword::If)
    } else if t == keyword_text(Keyword::Else) {
        Some(Keyword::Else)
    } else if t == keyword_text(Keyword::For) {
        Some(Keyword::For)
    } else if t == keyword_text(Keyword::While) {
        Some(Keyword::While)
    } else if t == keyword_text(Keyword::In) {
        Some(Keyword::In)
    } else if t == keyword_text(Keyword::Is) {
        Some(Keyword::Is)
    } else if t == keyword_text(Keyword::As) {
        Some(Keyword::As)
    } else if t == keyword_text(Keyword::Return) {
        Some(Keyword::Return)
    } else if t == keyword_text(Keyword::Break) {
        Some(Keyword::Break)
    } else if t == keyword_text(Keyword::Continue) {
        Some(Keyword::Continue)
    } else if t == keyword_text(Keyword::Throw) {
        Some(Keyword::Throw)
    } else if t == keyword_text(Keyword::Try) {
        Some(Keyword::Try)
    } else if t == keyword_text(Keyword::Silent) {
        Some(Keyword::Silent)
    } else if t == keyword_text(Keyword::Catch) {
        Some(Keyword::Catch)
    } else if t == keyword_text(Keyword::Switch) {
        Some(Keyword::Switch)
    } else if t == keyword_text(Keyword::New) {
        Some(Keyword::New)
    } else if t == keyword_text(Keyword::Annotation) {
        Some(Keyword::Annotation)
    } else if t == keyword_text(Keyword::Operator) {
        Some(Keyword::Operator)
    } else if t == keyword_text(Keyword::True) {
        Some(Keyword::True)
    } else if t == keyword_text(Keyword::False) {
        Some(Keyword::False)
    } else if t == keyword_text(Keyword::Undefined) {
        Some(Keyword::Undefined)
    } else {
        None
    }
}

/// Soft keywords may also be used as ordinary identifiers.
pub open spec fn keyword_is_soft(k: Keyword) -> bool {
    k == Keyword::Silent
        || k == Keyword::Type
        || k == Keyword::Typecheck
        || k == Keyword::Operator
        || k == Keyword::Precondition
        || k == Keyword::Returns
        || k == Keyword::Annotation
        || k == Keyword::FeatureScript
        || k == Keyword::New
        || k == Keyword::Switch
}

impl Keyword {
    /// The keyword spelled by `s`.
    pub fn parse(s: &str) -> (r: Option<Keyword>)
        ensures
            r == keyword_of(s@),
    {
        let v = chars_of(s);
        proof {
            assert(v@.subrange(0, v@.len() as int) =~= v@);
        }
        keyword_from_chars(v.as_slice(), 0, v.len())
    }

    pub fn as_str(self) -> (r: &'static str)
        ensures
            r@ == keyword_text(self),
    {
        match self {
            Keyword::FeatureScript => "FeatureScript",
            Keyword::Import => "import",
            Keyword::Export => "export",
            Keyword::Function => "function",
            Keyword::Predicate => "predicate",
            Keyword::Precondition => "precondition",
            Keyword::Returns => "returns",
            Keyword::Type => "type",
            Keyword::Typecheck => "typecheck",
            Keyword::Enum => "enum",
            Keyword::Const => "const",
            Keyword::Var => "var",
            Keyword::If => "if",
            Keyword::Else => "else",
            Keyword::For => "for",
            Keyword::While => "while",
            Keyword::In => "in",
            Keyword::Is => "is",
            Keyword::As => "as",
            Keyword::Return => "return",
            Keyword::Break => "break",
            Keyword::Continue => "continue",
            Keyword::Throw => "throw",
            Keyword::Try => "try",
            Keyword::Silent => "silent",
            Keyword::Catch => "catch",
            Keyword::Switch => "switch",
            Keyword::New => "new",
            Keyword::Annotation => "annotation",
            Keyword::Operator => "operator",
            Keyword::True => "true",
            Keyword::False => "false",
            Keyword::Undefined => "undefined",
        }
    }

    /// Keywords that are "soft": they may also appear as ordinary
    /// identifiers (`silent`, `type`, `operator` and friends do show up as
    /// parameter or variable names in real code).
    pub fn is_soft(self) -> (b: bool)
        ensures
            b == keyword_is_soft(self),
    {
        match self {
            Keyword::Silent | Keyword::Type | Keyword::Typecheck | Keyword::Operator | Keyword::Precondition | Keyword::Returns | Keyword::Annotation | Keyword::FeatureScript | Keyword::New | Keyword::Switch => true,
            _ => false,
        }
    }
}

/// Reading a keyword's spelling gives the keyword back.
#[verifier::rlimit(50)]
pub proof fn lemma_keyword_round_trip(k: Keyword)
    ensures
        keyword_of(keyword_text(k)) == Some(k),
{
    reveal_strlit("FeatureScript");
    reveal_strlit("import");
    reveal_strlit("export");
    reveal_strlit("function");
    reveal_strlit("predicate");
    reveal_strlit("precondition");
    reveal_strlit("returns");
    reveal_strlit("type");
    reveal_strlit("typecheck");
    reveal_strlit("enum");
    reveal_strlit("const");
    reveal_strlit("var");
    reveal_strlit("if");
    reveal_strlit("else");
    reveal_strlit("for");
    reveal_strlit("while");
    reveal_strlit("in");
    reveal_strlit("is");
    reveal_strlit("as");
    reveal_strlit("return");
    reveal_strlit("break");
    reveal_strlit("continue");
    reveal_strlit("throw");
    reveal_strlit("try");
    reveal_strlit("silent");
    reveal_strlit("catch");
    reveal_strlit("switch");
    reveal_strlit("new");
    reveal_strlit("annotation");
    reveal_strlit("operator");
    reveal_strlit("true");
    reveal_strlit("false");
    reveal_strlit("undefined");
    assert(keyword_text(Keyword::FeatureScript).len() == 13 && keyword_text(Keyword::FeatureScript)[0] == 'F' && keyword_text(Keyword::FeatureScript)[1] == 'e');
    assert(keyword_text(Keyword::Import).len() == 6 && keyword_text(Keyword::Import)[0] == 'i' && keyword_text(Keyword::Import)[1] == 'm');
    assert(keyword_text(Keyword::Export).len() == 6 && keyword_text(Keyword::Export)[0] == 'e' && keyword_text(Keyword::Export)[1] == 'x');
    assert(keyword_text(Keyword::Function).len() == 8 && keyword_text(Keyword::Function)[0] == 'f' && keyword_text(Keyword::Function)[1] == 'u');
    assert(keyword_text(Keyword::Predicate).len() == 9 && keyword_text(Keyword::Predicate)[0] == 'p' && keyword_text(Keyword::Predicate)[1] == 'r');
    assert(keyword_text(Keyword::Precondition).len() == 12 && keyword_text(Keyword::Precondition)[0] == 'p' && keyword_text(Keyword::Precondition)[1] == 'r');
    assert(keyword_text(Keyword::Returns).len() == 7 && keyword_text(Keyword::Returns)[0] == 'r' && keyword_text(Keyword::Returns)[1] == 'e');
    assert(keyword_text(Keyword::Type).len() == 4 && keyword_text(Keyword::Type)[0] == 't' && keyword_text(Keyword::Type)[1] == 'y');
    assert(keyword_text(Keyword::Typecheck).len() == 9 && keyword_text(Keyword::Typecheck)[0] == 't' && keyword_text(Keyword::Typecheck)[1] == 'y');
    assert(keyword_text(Keyword::Enum).len() == 4 && keyword_text(Keyword::Enum)[0] == 'e' && keyword_text(Keyword::Enum)[1] == 'n');
    assert(keyword_text(Keyword::Const).len() == 5 && keyword_text(Keyword::Const)[0] == 'c' && keyword_text(Keyword::Const)[1] == 'o');
    assert(keyword_text(Keyword::Var).len() == 3 && keyword_text(Keyword::Var)[0] == 'v' && keyword_text(Keyword::Var)[1] == 'a');
    assert(keyword_text(Keyword::If).len() == 2 && keyword_text(Keyword::If)[0] == 'i' && keyword_text(Keyword::If)[1] == 'f');
    assert(keyword_text(Keyword::Else).len() == 4 && keyword_text(Keyword::Else)[0] == 'e' && keyword_text(Keyword::Else)[1] == 'l');
    assert(keyword_text(Keyword::For).len() == 3 && keyword_text(Keyword::For)[0] == 'f' && keyword_text(Keyword::For)[1] == 'o');
    assert(keyword_text(Keyword::While).len() == 5 && keyword_text(Keyword::While)[0] == 'w' && keyword_text(Keyword::While)[1] == 'h');
    assert(keyword_text(Keyword::In).len() == 2 && keyword_text(Keyword::In)[0] == 'i' && keyword_text(Keyword::In)[1] == 'n');
    assert(keyword_text(Keyword::Is).len() == 2 && keyword_text(Keyword::Is)[0] == 'i' && keyword_text(Keyword::Is)[1] == 's');
    assert(keyword_text(Keyword::As).len() == 2 && keyword_text(Keyword::As)[0] == 'a' && keyword_text(Keyword::As)[1] == 's');
    assert(keyword_text(Keyword::Return).len() == 6 && keyword_text(Keyword::Return)[0] == 'r' && keyword_text(Keyword::Return)[1] == 'e');
    assert(keyword_text(Keyword::Break).len() == 5 && keyword_text(Keyword::Break)[0] == 'b' && keyword_text(Keyword::Break)[1] == 'r');
    assert(keyword_text(Keyword::Continue).len() == 8 && keyword_text(Keyword::Continue)[0] == 'c' && keyword_text(Keyword::Continue)[1] == 'o');
    assert(keyword_text(Keyword::Throw).len() == 5 && keyword_text(Keyword::Throw)[0] == 't' && keyword_text(Keyword::Throw)[1] == 'h');
    assert(keyword_text(Keyword::Try).len() == 3 && keyword_text(Keyword::Try)[0] == 't' && keyword_text(Keyword::Try)[1] == 'r');
    assert(keyword_text(Keyword::Silent).len() == 6 && keyword_text(Keyword::Silent)[0] == 's' && keyword_text(Keyword::Silent)[1] == 'i');
    assert(keyword_text(Keyword::Catch).len() == 5 && keyword_text(Keyword::Catch)[0] == 'c' && keyword_text(Keyword::Catch)[1] == 'a');
    assert(keyword_text(Keyword::Switch).len() == 6 && keyword_text(Keyword::Switch)[0] == 's' && keyword_text(Keyword::Switch)[1] == 'w');
    assert(keyword_text(Keyword::New).len() == 3 && keyword_text(Keyword::New)[0] == 'n' && keyword_text(Keyword::New)[1] == 'e');
    assert(keyword_text(Keyword::Annotation).len() == 10 && keyword_text(Keyword::Annotation)[0] == 'a' && keyword_text(Keyword::Annotation)[1] == 'n');
    assert(keyword_text(Keyword::Operator).len() == 8 && keyword_text(Keyword::Operator)[0] == 'o' && keyword_text(Keyword::Operator)[1] == 'p');
    assert(keyword_text(Keyword::True).len() == 4 && keyword_text(Keyword::True)[0] == 't' && keyword_text(Keyword::True)[1] == 'r');
    assert(keyword_text(Keyword::False).len() == 5 && keyword_text(Keyword::False)[0] == 'f' && keyword_text(Keyword::False)[1] == 'a');
    assert(keyword_text(Keyword::Undefined).len() == 9 && keyword_text(Keyword::Undefined)[0] == 'u' && keyword_text(Keyword::Undefined)[1] == 'n');
}

/// The keyword spelled by `v[from..to]`, if any.
pub fn keyword_from_chars(v: &[char], from: usize, to: usize) -> (r: Option<Keyword>)
    requires
        from <= to <= v@.len(),
    ensures
        r == keyword_of(v@.subrange(from as int, to as int)),
{
    if chars_equal_str(v, from, to, "FeatureScript") {
        return Some(Keyword::FeatureScript);
    }
    if chars_equal_str(v, from, to, "import") {
        return Some(Keyword::Import);
    }
    if chars_equal_str(v, from, to, "export") {
        return Some(Keyword::Export);
    }
    if chars_equal_str(v, from, to, "function") {
        return Some(Keyword::Function);
    }
    if chars_equal_str(v, from, to, "predicate") {
        return Some(Keyword::Predicate);
    }
    if chars_equal_str(v, from, to, "precondition") {
        return Some(Keyword::Precondition);
    }
    if chars_equal_str(v, from, to, "returns") {
        return Some(Keyword::Returns);
    }
    if chars_equal_str(v, from, to, "type") {
        return Some(Keyword::Type);
    }
    if chars_equal_str(v, from, to, "typecheck") {
        return Some(Keyword::Typecheck);
    }
    if chars_equal_str(v, from, to, "enum") {
        return Some(Keyword::Enum);
    }
    if chars_equal_str(v, from, to, "const") {
        return Some(Keyword::Const);
    }
    if chars_equal_str(v, from, to, "var") {
        return Some(Keyword::Var);
    }
    if chars_equal_str(v, from, to, "if") {
        return Some(Keyword::If);
    }
    if chars_equal_str(v, from, to, "else") {
        return Some(Keyword::Else);
    }
    if chars_equal_str(v, from, to, "for") {
        return Some(Keyword::For);
    }
    if chars_equal_str(v, from, to, "while") {
        return Some(Keyword::While);
    }
    if chars_equal_str(v, from, to, "in") {
        return Some(Keyword::In);
    }
    if chars_equal_str(v, from, to, "is") {
        return Some(Keyword::Is);
    }
    if chars_equal_str(v, from, to, "as") {
        return Some(Keyword::As);
    }
    if chars_equal_str(v, from, to, "return") {
        return Some(Keyword::Return);
    }
    if chars_equal_str(v, from, to, "break") {
        return Some(Keyword::Break);
    }
    if chars_equal_str(v, from, to, "continue") {
        return Some(Keyword::Continue);
    }
    if chars_equal_str(v, from, to, "throw") {
        return Some(Keyword::Throw);
    }
    if chars_equal_str(v, from, to, "try") {
        return Some(Keyword::Try);
    }
    if chars_equal_str(v, from, to, "silent") {
        return Some(Keyword::Silent);
    }
    if chars_equal_str(v, from, to, "catch") {
        return Some(Keyword::Catch);
    }
    if chars_equal_str(v, from, to, "switch") {
        return Some(Keyword::Switch);
    }
    if chars_equal_str(v, from, to, "new") {
        return Some(Keyword::New);
    }
    if chars_equal_str(v, from, to, "annotation") {
        return Some(Keyword::Annotation);
    }
    if chars_equal_str(v, from, to, "operator") {
        return Some(Keyword::Operator);
    }
    if chars_equal_str(v, from, to, "true") {
        return Some(Keyword::True);
    }
    if chars_equal_str(v, from, to, "false") {
        return Some(Keyword::False);
    }
    if chars_equal_str(v, from, to, "undefined") {
        return Some(Keyword::Undefined);
    }
    None
}

/// How diagnostics name a token kind.
pub open spec fn describe(k: SKind) -> Seq<char> {
    match k {
        SKind::Ident(s) => "identifier `"@ + s + "`"@,
        SKind::Number(s) => "number `"@ + s + "`"@,
        SKind::Str(_) => "string literal"@,
        SKind::DocComment(_) => "doc comment"@,
        SKind::Sparkle => "`✨`"@,
        SKind::Kw(k) => "`"@ + keyword_text(k) + "`"@,
        SKind::LParen => "`(`"@,
        SKind::RParen => "`)`"@,
        SKind::LBrace => "`{`"@,
        SKind::RBrace => "`}`"@,
        SKind::LBracket => "`[`"@,
        SKind::RBracket => "`]`"@,
        SKind::Comma => "`,`"@,
        SKind::Semi => "`;`"@,
        SKind::Colon => "`:`"@,
        SKind::Dot => "`.`"@,
        SKind::QuestionDot => "`?.`"@,
        SKind::Question => "`?`"@,
        SKind::QuestionQuestion => "`??`"@,
        SKind::Arrow => "`->`"@,
        SKind::FatArrow => "`=>`"@,
        SKind::Plus => "`+`"@,
        SKind::Minus => "`-`"@,
        SKind::Star => "`*`"@,
        SKind::Slash => "`/`"@,
        SKind::Percent => "`%`"@,
        SKind::Caret => "`^`"@,
        SKind::Tilde => "`~`"@,
        SKind::Bang => "`!`"@,
        SKind::Eq => "`=`"@,
        SKind::EqEq => "`==`"@,
        SKind::BangEq => "`!=`"@,
        SKind::Lt => "`<`"@,
        SKind::LtEq => "`<=`"@,
        SKind::Gt => "`>`"@,
        SKind::GtEq => "`>=`"@,
        SKind::AmpAmp => "`&&`"@,
        SKind::PipePipe => "`||`"@,
        SKind::PlusEq => "`+=`"@,
        SKind::MinusEq => "`-=`"@,
        SKind::StarEq => "`*=`"@,
        SKind::SlashEq => "`/=`"@,
        SKind::PercentEq => "`%=`"@,
        SKind::TildeEq => "`~=`"@,
        SKind::CaretEq => "`^=`"@,
        SKind::PipePipeEq => "`||=`"@,
        SKind::AmpAmpEq => "`&&=`"@,
        SKind::QuestionQuestionEq => "`??=`"@,
        SKind::Eof => "end of file"@,
    }
}

impl TokenKind {
    /// How diagnostics name this token kind.
    pub fn to_string(&self) -> (s: String)
        ensures
            s@ == describe(self@),
    {
        let fixed = match self {
            TokenKind::Ident(s) => {
                let mut r = String::from_str("identifier `");
                push_string(&mut r, s);
                r.append("`");
                return r;
            },
            TokenKind::Number(s) => {
                let mut r = String::from_str("number `");
                push_string(&mut r, s);
                r.append("`");
                return r;
            },
            TokenKind::Kw(k) => {
                let mut r = String::from_str("`");
                r.append(k.as_str());
                r.append("`");
                return r;
            },
            TokenKind::Str(_) => "string literal",
            TokenKind::DocComment(_) => "doc comment",
            TokenKind::Sparkle => "`✨`",
            TokenKind::LParen => "`(`",
            TokenKind::RParen => "`)`",
            TokenKind::LBrace => "`{`",
            TokenKind::RBrace => "`}`",
            TokenKind::LBracket => "`[`",
            TokenKind::RBracket => "`]`",
            TokenKind::Comma => "`,`",
            TokenKind::Semi => "`;`",
            TokenKind::Colon => "`:`",
            TokenKind::Dot => "`.`",
            TokenKind::QuestionDot => "`?.`",
            TokenKind::Question => "`?`",
            TokenKind::QuestionQuestion => "`??`",
            TokenKind::Arrow => "`->`",
            TokenKind::FatArrow => "`=>`",
            TokenKind::Plus => "`+`",
            TokenKind::Minus => "`-`",
            TokenKind::Star => "`*`",
            TokenKind::Slash => "`/`",
            TokenKind::Percent => "`%`",
            TokenKind::Caret => "`^`",
            TokenKind::Tilde => "`~`",
            TokenKind::Bang => "`!`",
            TokenKind::Eq => "`=`",
            TokenKind::EqEq => "`==`",
            TokenKind::BangEq => "`!=`",
            TokenKind::Lt => "`<`",
            TokenKind::LtEq => "`<=`",
            TokenKind::Gt => "`>`",
            TokenKind::GtEq => "`>=`",
            TokenKind::AmpAmp => "`&&`",
            TokenKind::PipePipe => "`||`",
            TokenKind::PlusEq => "`+=`",
            TokenKind::MinusEq => "`-=`",
            TokenKind::StarEq => "`*=`",
            TokenKind::SlashEq => "`/=`",
            TokenKind::PercentEq => "`%=`",
            TokenKind::TildeEq => "`~=`",
            TokenKind::CaretEq => "`^=`",
            TokenKind::PipePipeEq => "`||=`",
            TokenKind::AmpAmpEq => "`&&=`",
            TokenKind::QuestionQuestionEq => "`??=`",
            TokenKind::Eof => "end of file",
        };
        String::from_str(fixed)
    }

    /// Whether `self` and `other` are the same token kind.
    pub fn same(&self, other: &TokenKind) -> (b: bool)
        ensures
            b == (self@ == other@),
    {
        match self {
            TokenKind::Ident(a) => match other {
                TokenKind::Ident(b) => *a == *b,
                _ => false,
            },
            TokenKind::Number(a) => match other {
                TokenKind::Number(b) => *a == *b,
                _ => false,
            },
            TokenKind::Str(a) => match other {
                TokenKind::Str(b) => *a == *b,
                _ => false,
            },
            TokenKind::DocComment(a) => match other {
                TokenKind::DocComment(b) => *a == *b,
                _ => false,
            },
            TokenKind::Kw(a) => match other {
                TokenKind::Kw(b) => *a == *b,
                _ => false,
            },
            _ => self.tag() == other.tag(),
        }
    }

    /// A number that tells the kinds apart (payloads aside).
    pub fn tag(&self) -> (t: u8)
        ensures
            t == kind_tag(self@),
    {
        match self {
            TokenKind::Ident(_) => 0,
            TokenKind::Number(_) => 1,
            TokenKind::Str(_) => 2,
            TokenKind::DocComment(_) => 3,
            TokenKind::Sparkle => 4,
            TokenKind::Kw(_) => 5,
            TokenKind::LParen => 6,
            TokenKind::RParen => 7,
            TokenKind::LBrace => 8,
            TokenKind::RBrace => 9,
            TokenKind::LBracket => 10,
            TokenKind::RBracket => 11,
            TokenKind::Comma => 12,
            TokenKind::Semi => 13,
            TokenKind::Colon => 14,
            TokenKind::Dot => 15,
            TokenKind::QuestionDot => 16,
            TokenKind::Question => 17,
            TokenKind::QuestionQuestion => 18,
            TokenKind::Arrow => 19,
            TokenKind::FatArrow => 20,
            TokenKind::Plus => 21,
            TokenKind::Minus => 22,
            TokenKind::Star => 23,
            TokenKind::Slash => 24,
            TokenKind::Percent => 25,
            TokenKind::Caret => 26,
            TokenKind::Tilde => 27,
            TokenKind::Bang => 28,
            TokenKind::Eq => 29,
            TokenKind::EqEq => 30,
            TokenKind::BangEq => 31,
            TokenKind::Lt => 32,
            TokenKind::LtEq => 33,
            TokenKind::Gt => 34,
            TokenKind::GtEq => 35,
            TokenKind::AmpAmp => 36,
            TokenKind::PipePipe => 37,
            TokenKind::PlusEq => 38,
            TokenKind::MinusEq => 39,
            TokenKind::StarEq => 40,
            TokenKind::SlashEq => 41,
            TokenKind::PercentEq => 42,
            TokenKind::TildeEq => 43,
            TokenKind::CaretEq => 44,
            TokenKind::PipePipeEq => 45,
            TokenKind::AmpAmpEq => 46,
            TokenKind::QuestionQuestionEq => 47,
            TokenKind::Eof => 99,
        }
    }
}

/// A number that tells the kinds apart (payloads aside).
pub open spec fn kind_tag(k: SKind) -> u8 {
    match k {
        SKind::Ident(_) => 0,
        SKind::Number(_) => 1,
        SKind::Str(_) => 2,
        SKind::DocComment(_) => 3,
        SKind::Sparkle => 4,
        SKind::Kw(_) => 5,
        SKind::LParen => 6,
        SKind::RParen => 7,
        SKind::LBrace => 8,
        SKind::RBrace => 9,
        SKind::LBracket => 10,
        SKind::RBracket => 11,
        SKind::Comma => 12,
        SKind::Semi => 13,
        SKind::Colon => 14,
        SKind::Dot => 15,
        SKind::QuestionDot => 16,
        SKind::Question => 17,
        SKind::QuestionQuestion => 18,
        SKind::Arrow => 19,
        SKind::FatArrow => 20,
        SKind::Plus => 21,
        SKind::Minus => 22,
        SKind::Star => 23,
        SKind::Slash => 24,
        SKind::Percent => 25,
        SKind::Caret => 26,
        SKind::Tilde => 27,
        SKind::Bang => 28,
        SKind::Eq => 29,
        SKind::EqEq => 30,
        SKind::BangEq => 31,
        SKind::Lt => 32,
        SKind::LtEq => 33,
        SKind::Gt => 34,
        SKind::GtEq => 35,
        SKind::AmpAmp => 36,
        SKind::PipePipe => 37,
        SKind::PlusEq => 38,
        SKind::MinusEq => 39,
        SKind::StarEq => 40,
        SKind::SlashEq => 41,
        SKind::PercentEq => 42,
        SKind::TildeEq => 43,
        SKind::CaretEq => 44,
        SKind::PipePipeEq => 45,
        SKind::AmpAmpEq => 46,
        SKind::QuestionQuestionEq => 47,
        SKind::Eof => 99,
    }
}

} // verus!
