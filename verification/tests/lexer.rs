use fs_syntax::lexer::{tokenize, Lexer};
use fs_syntax::token::{Keyword, TokenKind};
use fs_syntax::token::TokenKind::{
    AmpAmp, AmpAmpEq, Arrow, BangEq, Caret, Colon, DocComment, Eof, FatArrow, GtEq, Ident, Kw,
    LtEq, Number, PipePipe, PipePipeEq, PlusEq, QuestionDot, QuestionQuestion,
    QuestionQuestionEq, Semi, Sparkle, Str, TildeEq,
};

fn kinds(src: &str) -> Vec<TokenKind> {
    tokenize(src).unwrap().into_iter().map(|t| t.kind).collect()
}

#[test]
fn header_and_import() {
    let k = kinds("FeatureScript ✨; import(path : \"onshape/std/geometry.fs\", version : \"✨\");");
    assert_eq!(k[0], Kw(Keyword::FeatureScript));
    assert_eq!(k[1], Sparkle);
    assert_eq!(k[2], Semi);
    assert_eq!(k[3], Kw(Keyword::Import));
    assert_eq!(k[6], Colon);
    assert_eq!(k[7], Str("onshape/std/geometry.fs".into()));
    assert_eq!(k[11], Str("✨".into()));
}

#[test]
fn numbers() {
    let k = kinds("1 2.5 1e-8 0. 1.e5 .5 3E+2");
    let nums: Vec<_> = k
        .iter()
        .filter_map(|t| if let Number(s) = t { Some(s.as_str()) } else { None })
        .collect();
    assert_eq!(nums, ["1", "2.5", "1e-8", "0.", "1.e5", ".5", "3E+2"]);
}

#[test]
fn operators() {
    let k = kinds("a -> b => c ?. d ?? e ~= f ^ g != h <= i >= j && k || l += m ||= n &&= o ??= p");
    let ops: Vec<_> = k.iter().filter(|t| !matches!(t, Ident(_) | Eof)).cloned().collect();
    assert_eq!(
        ops,
        vec![
            Arrow,
            FatArrow,
            QuestionDot,
            QuestionQuestion,
            TildeEq,
            Caret,
            BangEq,
            LtEq,
            GtEq,
            AmpAmp,
            PipePipe,
            PlusEq,
            PipePipeEq,
            AmpAmpEq,
            QuestionQuestionEq
        ]
    );
}

#[test]
fn strings_and_escapes() {
    let k = kinds(r#"'a' "b\"c" "re\\." "tab\t" "#);
    assert_eq!(k[0], Str("a".into()));
    assert_eq!(k[1], Str("b\"c".into()));
    assert_eq!(k[2], Str("re\\.".into()));
    assert_eq!(k[3], Str("tab\t".into()));
}

#[test]
fn comments() {
    let toks = Lexer::new("/** doc */ x // line\n /* block */ y /**/ z").tokenize().unwrap();
    let k: Vec<_> = toks.into_iter().map(|t| t.kind).collect();
    assert_eq!(
        k,
        vec![DocComment(" doc ".into()), Ident("x".into()), Ident("y".into()), Ident("z".into()), Eof]
    );
}

#[test]
fn builtins() {
    assert_eq!(kinds("@size(x)")[0], Ident("@size".into()));
}

#[test]
fn errors_have_spans() {
    let e = tokenize("x = \"abc").unwrap_err();
    assert_eq!(e.span.start, 4);
    assert!(e.message.contains("unterminated"));
}

#[test]
fn token_stream_ends_with_eof() {
    let toks = tokenize("").unwrap();
    assert_eq!(toks.len(), 1);
    assert_eq!(toks[0].kind, Eof);
    let toks = tokenize("a b").unwrap();
    assert_eq!(toks.last().unwrap().kind, Eof);
}

#[test]
fn doc_comments_dropped_unless_kept() {
    assert_eq!(kinds("/** d */ x"), vec![Ident("x".into()), Eof]);
    let kept = Lexer::new("/** d */ x").keep_doc_comments(true).tokenize().unwrap();
    assert_eq!(kept[0].kind, DocComment(" d ".into()));
}

#[test]
fn spans_are_byte_offsets() {
    let toks = tokenize("\"é\" + xy").unwrap();
    // `é` is two bytes long.
    assert_eq!(toks[0].span.start, 0);
    assert_eq!(toks[0].span.end, 4);
    assert_eq!(toks[1].span.start, 5);
    assert_eq!(toks[2].span.start, 7);
    assert_eq!(toks[2].span.end, 9);
}

#[test]
fn soft_keywords_and_keyword_spelling() {
    assert_eq!(Keyword::parse("silent"), Some(Keyword::Silent));
    assert_eq!(Keyword::parse("nothing"), None);
    assert_eq!(Keyword::Silent.as_str(), "silent");
    assert!(Keyword::Silent.is_soft());
    assert!(!Keyword::Function.is_soft());
    for kw in [Keyword::FeatureScript, Keyword::Import, Keyword::Try, Keyword::Typecheck] {
        assert_eq!(Keyword::parse(kw.as_str()), Some(kw));
    }
}

#[test]
fn lexer_error_variants() {
    let e = tokenize("a /* never closed").unwrap_err();
    assert!(e.message.contains("unterminated block comment"));
    let e = tokenize("a # b").unwrap_err();
    assert!(e.message.contains("unexpected character"));
    assert_eq!(e.span.start, 2);
    let e = tokenize("12abc").unwrap_err();
    assert!(e.message.contains("invalid numeric literal"));
}

#[test]
fn token_kind_descriptions() {
    assert_eq!(TokenKind::Ident("x".into()).to_string(), "identifier `x`");
    assert_eq!(TokenKind::Kw(Keyword::If).to_string(), "`if`");
    assert_eq!(TokenKind::Eof.to_string(), "end of file");
}

#[test]
fn spaced_token_spellings_lex_back() {
    // Each token spelled as the printer writes it, followed by a space.
    let src = "foo ( 12.5e-3 \"a\\\"b\\\\c\\n\" ||= ✨ @size if ?? / /= . _x9 ";
    let k = kinds(src);
    assert_eq!(
        k,
        vec![
            Ident("foo".into()),
            TokenKind::LParen,
            Number("12.5e-3".into()),
            Str("a\"b\\c\n".into()),
            PipePipeEq,
            Sparkle,
            Ident("@size".into()),
            Kw(Keyword::If),
            QuestionQuestion,
            TokenKind::Slash,
            TokenKind::SlashEq,
            TokenKind::Dot,
            Ident("_x9".into()),
            Eof,
        ]
    );
}

#[test]
fn unicode_escapes_name_characters() {
    let k = kinds(r#""\u0041\u00e9" "\uD800""#);
    assert_eq!(k[0], Str("A\u{e9}".into()));
    // A surrogate is no character: it reads as the replacement character.
    assert_eq!(k[1], Str("\u{FFFD}".into()));
}

#[test]
fn dropping_doc_comments_keeps_every_other_token() {
    let src = "/** header */ x = \"é\"; // note\n/** second */ f(/* c */ 1.5);";
    let kept = Lexer::new(src).tokenize().unwrap();
    let dropped = tokenize(src).unwrap();
    assert_eq!(kept.iter().filter(|t| matches!(t.kind, DocComment(_))).count(), 2);
    let filtered: Vec<_> = kept
        .into_iter()
        .filter(|t| !matches!(t.kind, DocComment(_)))
        .map(|t| (t.kind, t.span.start, t.span.end))
        .collect();
    let plain: Vec<_> = dropped.into_iter().map(|t| (t.kind, t.span.start, t.span.end)).collect();
    assert_eq!(filtered, plain);
}

#[test]
fn dropping_doc_comments_keeps_the_error() {
    let src = "/** doc */ a /* never closed";
    let kept = Lexer::new(src).tokenize().unwrap_err();
    let dropped = tokenize(src).unwrap_err();
    assert_eq!(kept.span, dropped.span);
    assert_eq!(kept.message, dropped.message);
}

#[test]
fn token_stream_shape() {
    let src = "/** d */ export const ✨x = [1, \"two\"]; // end";
    for keep in [true, false] {
        let toks = Lexer::new(src).keep_doc_comments(keep).tokenize().unwrap();
        let last = toks.last().unwrap();
        assert_eq!(last.kind, Eof);
        assert_eq!(last.span.start as usize, src.len());
        assert_eq!(last.span.end as usize, src.len());
        assert_eq!(toks.iter().filter(|t| t.kind == Eof).count(), 1);
        for t in &toks {
            assert!(t.span.start <= t.span.end);
        }
        for w in toks.windows(2) {
            assert!(w[0].span.end <= w[1].span.start);
        }
    }
}
