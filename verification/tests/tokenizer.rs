use std::cmp::Ordering;
use challenges::tokenizer::builder::TokenBuilder;
use challenges::tokenizer::lexeme::Lexeme;
use challenges::tokenizer::literal::{Lit, LitRepr, Num, NumRepr, Str};
use challenges::tokenizer::location::Location;
use challenges::tokenizer::token_type::TokenType;

#[test]
fn location_accessors() {
    let loc = Location::new(3, 7, 2);
    assert_eq!((loc.line(), loc.col(), loc.len()), (3, 7, 2));
    assert_eq!(loc.to_display_string(), "3:7");
    assert_eq!(Location::new(120, 0, 1).to_display_string(), "120:0");
}

#[test]
fn location_same_line() {
    assert!(Location::new(4, 1, 1).same_line(Location::new(4, 9, 3)));
    assert!(!Location::new(4, 1, 1).same_line(Location::new(5, 1, 1)));
}

#[test]
fn location_akin_col() {
    // a parameter type span and the unexpected char right after it
    let param = Location::new(1, 20, 4);
    let unexpected = Location::new(1, 24, 1);
    assert!(param.akin_col(unexpected));
    assert!(unexpected.akin_col(param));
    assert!(!Location::new(1, 20, 4).akin_col(Location::new(1, 30, 1)));
    assert!(Location::new(1, 20, 4).akin_col(Location::new(9, 22, 2)));
}

#[test]
fn location_merge_cols() {
    let mut loc = Location::new(1, 20, 4);
    loc.merge_cols(Location::new(1, 24, 1));
    assert_eq!((loc.col(), loc.len()), (20, 5));

    let mut same = Location::new(1, 20, 4);
    same.merge_cols(Location::new(1, 20, 3));
    assert_eq!((same.col(), same.len()), (20, 7));

    let mut left = Location::new(1, 20, 4);
    left.merge_cols(Location::new(1, 15, 2));
    assert_eq!((left.col(), left.len()), (15, 4));
}

#[test]
fn token_type_single() {
    assert_eq!(TokenType::single(b'('), TokenType::LeftParen);
    assert_eq!(TokenType::single(b';'), TokenType::Semicolon);
    assert_eq!(TokenType::single(b'<'), TokenType::Less);
    assert_eq!(TokenType::single(b'*'), TokenType::Star);
}

#[test]
fn token_type_compound() {
    assert_eq!(TokenType::compound(b"!="), TokenType::BangEqual);
    assert_eq!(TokenType::compound(b"=="), TokenType::EqualEqual);
    assert_eq!(TokenType::compound(b">="), TokenType::GreaterEqual);
    assert_eq!(TokenType::compound(b"<="), TokenType::LessEqual);
}

#[test]
fn token_type_text() {
    assert_eq!(TokenType::LeftBrace.as_str(), "{");
    assert_eq!(TokenType::GreaterEqual.as_str(), ">=");
    assert_eq!(TokenType::Less.as_str(), "<");
    assert_eq!(TokenType::Ident.as_str(), "{ident}");
    assert_eq!(TokenType::While.as_str(), "while");
    assert_eq!(TokenType::Eof.as_str(), "{eof}");
}

#[test]
fn token_type_display_with() {
    assert_eq!(TokenType::Ident.display_with("foo").to_display_string(), "foo");
    assert_eq!(TokenType::Num.display_with("12").to_display_string(), "12");
    assert_eq!(TokenType::And.display_with("foo").to_display_string(), "and");
    assert!(TokenType::Ident.display_with("a") == TokenType::Ident.display_with("b"));
    assert!(TokenType::Ident.display_with("a") != TokenType::String.display_with("a"));
}

#[test]
fn lexeme_display() {
    assert_eq!(Lexeme::from_bytes(b"print").to_display_string(), "print");
    assert_eq!(Lexeme::from_text("var").to_display_string(), "var");
    assert_eq!(Lexeme::from_bytes(b"a\xffb").to_display_string(), "a\u{FFFD}b");
    assert_eq!(Lexeme::from_text("fun"), Lexeme::from_bytes(b"fun"));
}

#[test]
fn string_literal() {
    assert_eq!(Str::from_bytes(b"hi\xc3").to_display_string(), "hi\u{FFFD}");
    assert_eq!(Str::from_text("hello"), Str::from_bytes(b"hello"));
    assert_eq!(Str::default().to_display_string(), "");
    match Lit::from_bytes(b"abc").as_repr() {
        LitRepr::Str(s) => assert_eq!(s.to_display_string(), "abc"),
        LitRepr::Num(_) => panic!("a string literal was expected"),
    }
    match Lit::default().as_repr() {
        LitRepr::Str(s) => assert_eq!(s.to_display_string(), ""),
        LitRepr::Num(_) => panic!("a string literal was expected"),
    }
    assert!(matches!(Num::default().as_repr(), NumRepr::Integer(0)));
    assert!(matches!(Lit::from_num(Num::new(NumRepr::Integer(4))).as_repr(), LitRepr::Num(_)));
}

#[test]
fn builder_single_then_recycle() {
    let mut builder = TokenBuilder::default();
    builder.single(b"(", Location::new(1, 1, 1));
    let first = format!("{builder:?}");
    assert!(first.contains("LeftParen"));
    builder.single(b")", Location::new(1, 2, 1)).compound(b"==", Location::new(1, 3, 2));
    let second = format!("{builder:?}");
    assert!(second.contains("EqualEqual"));
    assert!(!second.contains("RightParen"));
    assert!(second.contains("col: 3"));
}

#[test]
fn builder_multiple_string() {
    let mut builder = TokenBuilder::default();
    builder.multiple(b"\"hey\"", TokenType::String, Location::new(2, 5, 5));
    let text = format!("{builder:?}");
    assert!(text.contains("String"));
    assert!(text.contains("lit: Some"));
}

#[test]
fn builder_multiple_ident() {
    let mut builder = TokenBuilder::default();
    builder.multiple(b"name", TokenType::Ident, Location::new(2, 5, 4));
    let text = format!("{builder:?}");
    assert!(text.contains("Ident"));
    assert!(text.contains("lit: None"));
}

#[test]
fn token_types_display_as_their_source() {
    for byte in b"(){},.-+;*!=><".iter() {
        let text = TokenType::single(*byte).as_str();
        assert_eq!(text.as_bytes(), [*byte]);
    }
    for bytes in [b"!=", b"==", b">=", b"<="] {
        assert_eq!(TokenType::compound(bytes).as_str().as_bytes(), bytes);
    }
}

#[test]
fn display_adapters_order_by_token_type() {
    let ident = TokenType::Ident.display_with("zzz");
    let string = TokenType::String.display_with("aaa");
    assert_eq!(ident.partial_cmp(&string), Some(Ordering::Less));
    assert_eq!(string.partial_cmp(&ident), Some(Ordering::Greater));
    assert_eq!(ident.partial_cmp(&TokenType::Ident.display_with("b")), Some(Ordering::Equal));
    assert!(TokenType::LeftParen.display_with("") < TokenType::Eof.display_with(""));
}

#[test]
fn less_displays_as_its_source() {
    assert_eq!(TokenType::single(b'<').as_str(), "<");
    assert_eq!(TokenType::Less.display_with("x").to_display_string(), "<");
}
