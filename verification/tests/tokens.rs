use smoldr::flags::{flag_names, FlagKind};
use smoldr::parse_error::{Fail, IntType, ParserError};
use smoldr::parser::objects::source;
use smoldr::parser::statements::{parse_str, statements};
use smoldr::parser::tokens::{
    flags, identifier, line_end, multiline_comment, non_zero_u64, number, singleline_comment,
    space, string, string_no_equals, uint, until_end_literal, word,
};
use smoldr::script::{Directive, NumberForm, NumberLiteral};
use smoldr::source::{Identifier, Source, SourceFileIdx, Span};

/// Applies a rule to a whole text.
fn test_parse<T>(
    rule: fn(&Source, usize) -> Result<(T, usize), Fail<String>>,
    text: &str,
) -> Result<T, ParserError<String>> {
    let src = Source::new(text, SourceFileIdx(0));
    match rule(&src, 0) {
        Ok((found, end)) => {
            if end == src.len() {
                Ok(found)
            } else {
                Err(ParserError::Unknown { span: Span { start: end, end } })
            }
        }
        Err(f) => Err(f.error),
    }
}

fn uint_32(src: &Source, pos: usize) -> Result<(u64, usize), Fail<String>> {
    uint(src, pos, IntType::U32)
}

/// The integer that a literal stands for.
fn integer(literal: NumberLiteral<String>) -> i64 {
    let radix = match literal.form {
        NumberForm::Hexadecimal => 16,
        NumberForm::Binary => 2,
        NumberForm::Decimal => 10,
        NumberForm::Float => panic!("not an integer"),
    };
    let n = i64::from_str_radix(&literal.digits, radix).unwrap();
    if literal.negative {
        -n
    } else {
        n
    }
}

#[test]
fn test_singleline_comment() {
    test_parse(singleline_comment, "# comment").unwrap();
    test_parse(singleline_comment, "#").unwrap();
    test_parse(singleline_comment, "// comment").unwrap();
    test_parse(singleline_comment, "///* comment */").unwrap();
    test_parse(singleline_comment, "//* comment */").unwrap();
    test_parse(singleline_comment, "//").unwrap();
    // You can comment out a multiline comment start
    test_parse(singleline_comment, "// test /* comment").unwrap();
}

#[test]
fn test_multiline_comment() {
    test_parse(multiline_comment, "/* comment */").unwrap();
    test_parse(multiline_comment, "/* comment\nline */").unwrap();
    test_parse(multiline_comment, "/* c /* nested */ end */").unwrap();
    let res = test_parse(multiline_comment, "/* c /* nested */ end/");
    assert!(res.is_err());
    test_parse(multiline_comment, "/* c * nested / end */").unwrap();
}

#[test]
fn test_space() {
    test_parse(space, "   \t  ").unwrap();
    test_parse(space, " ").unwrap();
    test_parse(space, " /* comment */ ").unwrap();
    let res = test_parse(space, "");
    assert!(res.is_err());
    let res = test_parse(space, "\n");
    assert!(res.is_err());
}

#[test]
fn test_line_end() {
    test_parse(line_end, "\n").unwrap();
    test_parse(line_end, "\r\n").unwrap();
    test_parse(line_end, "\n  ").unwrap();
    test_parse(line_end, "   \t  \n").unwrap();
    test_parse(line_end, "").unwrap();
    test_parse(line_end, " #").unwrap();
    test_parse(line_end, " #\n").unwrap();
    test_parse(line_end, " #\n  ").unwrap();
    test_parse(line_end, " #\n /* c */ \n").unwrap();
    test_parse(line_end, " #\n    \t#").unwrap();
    test_parse(line_end, " //\n").unwrap();
    test_parse(line_end, " //n  ").unwrap();
    test_parse(line_end, " //\n /* c */ \n").unwrap();
    test_parse(line_end, " //\n    \t//").unwrap();
    let res = test_parse(line_end, " #\na");
    assert!(res.is_err());
    let res = test_parse(line_end, "a");
    assert!(res.is_err());
}

#[test]
fn test_identifier() {
    let res = test_parse(identifier, "");
    assert!(res.is_err());
    let res = test_parse(identifier, "0123");
    assert!(res.is_err());
    let res = test_parse(identifier, "b");
    assert_eq!(res.unwrap().content, "b");
    let res = test_parse(identifier, "a0123");
    assert_eq!(res.unwrap().content, "a0123");
    let res = test_parse(identifier, "_a0123");
    assert_eq!(res.unwrap().content, "_a0123");
}

#[test]
fn test_uint() {
    let res = test_parse(uint_32, "");
    assert!(res.is_err());
    let res = test_parse(uint_32, "-1");
    assert!(res.is_err());
    let res = test_parse(uint_32, "0");
    assert_eq!(res.unwrap(), 0);
    let res = test_parse(uint_32, "0123");
    assert_eq!(res.unwrap(), 123);
    let res = test_parse(uint_32, "0x0123");
    assert_eq!(res.unwrap(), 0x123);
    let res = test_parse(uint_32, "0b101");
    assert_eq!(res.unwrap(), 0b101);
}

#[test]
fn test_number() {
    let res = test_parse(number, "");
    assert!(res.is_err());
    let res = test_parse(number, "0");
    assert_eq!(integer(res.unwrap()), 0);
    let res = test_parse(number, "0123");
    assert_eq!(integer(res.unwrap()), 123);
    let res = test_parse(number, "0x0123");
    assert_eq!(integer(res.unwrap()), 0x123);
    let res = test_parse(number, "0b101");
    assert_eq!(integer(res.unwrap()), 0b101);
    let res = test_parse(number, "-0123");
    assert_eq!(integer(res.unwrap()), -123);
    let res = test_parse(number, "-0x0123");
    assert_eq!(integer(res.unwrap()), -0x123);
    let res = test_parse(number, "-0.5").unwrap();
    assert_eq!(res.form, NumberForm::Float);
    assert_eq!(res.digits.parse::<f32>().unwrap(), -0.5);
    let res = test_parse(number, "-0.5").unwrap();
    assert_eq!(res.digits.parse::<f64>().unwrap(), -0.5);
}

#[test]
fn test_string() {
    let res = test_parse(string, "");
    assert!(res.is_err());
    let res = test_parse(string, " ");
    assert!(res.is_err());
    let res = test_parse(string_no_equals, "=");
    assert!(res.is_err());
    let res = test_parse(string, "=");
    assert_eq!(res.unwrap().as_str(), "=");
    let res = test_parse(string, "0");
    assert_eq!(res.unwrap().as_str(), "0");
    let res = test_parse(string, "a");
    assert_eq!(res.unwrap().as_str(), "a");
    let res = test_parse(string, "\\\\");
    assert_eq!(res.unwrap().as_str(), "\\");
    let res = test_parse(string, "\"a\"");
    assert_eq!(res.unwrap().as_str(), "a");
    let res = test_parse(string, "\"\\\\a\"");
    assert_eq!(res.unwrap().as_str(), "\\a");
    let res = test_parse(string, "\"\\\"a\"");
    assert_eq!(res.unwrap().as_str(), "\"a");
    let res = test_parse(string, "\"\\00a\"");
    assert_eq!(res.unwrap().as_str(), "\0a");
    let res = test_parse(string, "\"\\0a\"");
    assert_eq!(res.unwrap().as_str(), "\x0a");
}

fn source_at_start(text: &str) -> (Identifier, String) {
    let src = Source::new(text, SourceFileIdx(0));
    match source(&src, 0).unwrap().0 {
        Directive::Source { name, content } => (name, content),
        _ => panic!(),
    }
}

#[test]
fn test_source() {
    let (name, content) = source_at_start(" source\ncontent\nEND");
    assert_eq!(name.content, "source");
    assert_eq!(content, "\ncontent");

    source_at_start(" source\n\nEND");
    source_at_start(" source\n\nEND\n");
    test_parse(statements, "SOURCE source\n\nEND").unwrap();
    test_parse(statements, "SOURCE source\r\n\r\nmysource\r\nEND\r\n").unwrap();

    let (name, content) = source_at_start(" source\n \n   \ncont\nent\nEND");
    assert_eq!(name.content, "source");
    assert_eq!(content, "\n \n   \ncont\nent");
}

#[test]
fn words_know_their_place() {
    let text = "ä foo";
    let src = Source::new(text, SourceFileIdx(3));
    let (id, end) = identifier(&src, 2).unwrap();
    assert_eq!(id.content, "foo");
    assert_eq!(id.source_file, SourceFileIdx(3));
    assert_eq!(id.span, Span { start: 3, end: 6 });
    assert_eq!(&text[id.span.start..id.span.end], "foo");
    assert_eq!(end, 5);
    let (w, end) = word(&src, 2).unwrap();
    assert_eq!((w.as_str(), end), ("foo", 5));
}

#[test]
fn numbers_have_a_largest_value() {
    let src = Source::new("256", SourceFileIdx(0));
    assert_eq!(uint(&src, 0, IntType::U16).unwrap(), (256, 3));
    let fail = uint(&src, 0, IntType::U8).unwrap_err();
    assert!(!fail.cut);
    assert_eq!(
        fail.error,
        ParserError::InvalidInteger { span: Span { start: 0, end: 3 }, typ: IntType::U8 }
    );
    let src = Source::new("0x1_", SourceFileIdx(0));
    assert_eq!(uint(&src, 0, IntType::U8).unwrap(), (1, 3));
    let src = Source::new("0xg", SourceFileIdx(0));
    let fail = uint(&src, 0, IntType::U8).unwrap_err();
    assert!(fail.cut);
    let src = Source::new("18446744073709551615", SourceFileIdx(0));
    assert_eq!(uint(&src, 0, IntType::U64).unwrap(), (u64::MAX, 20));
    let src = Source::new("18446744073709551616", SourceFileIdx(0));
    assert!(uint(&src, 0, IntType::U64).is_err());
    let src = Source::new("0", SourceFileIdx(0));
    assert!(non_zero_u64(&src, 0).is_err());
}

#[test]
fn numbers_may_have_an_exponent() {
    for text in ["1e5", "1E5", "+1e+5", "-12e-3", "1.e5", ".5e1", "00e0"] {
        let src = Source::new(text, SourceFileIdx(0));
        let (found, end) = number(&src, 0).unwrap();
        assert_eq!(end, text.len());
        assert_eq!(found.form, NumberForm::Float);
        assert_eq!(found.digits, text);
    }
    assert_eq!(number(&Source::new("1e5", SourceFileIdx(0)), 0).unwrap().0.digits.parse(), Ok(1e5));
    for text in ["1e", "1e+", "e5", "0xg", "+e1", "1ee1"] {
        assert!(number(&Source::new(text, SourceFileIdx(0)), 0).is_err());
    }
}

#[test]
fn strings_end_at_white_space() {
    let src = Source::new("a#b# # c", SourceFileIdx(0));
    assert_eq!(string(&src, 0).unwrap(), ("a#b#".to_string(), 4));
    assert_eq!(string_no_equals(&src, 0).unwrap(), ("a#b#".to_string(), 4));
    assert!(string(&src, 5).is_err());
    assert!(string_no_equals(&src, 5).is_err());
    let src = Source::new("a(b)[c]{d}|'`é/x= # c", SourceFileIdx(0));
    let (text, end) = string(&src, 0).unwrap();
    assert_eq!(text, "a(b)[c]{d}|'`é/x=");
    assert_eq!(end, 17);
    let (text, end) = string_no_equals(&src, 0).unwrap();
    assert_eq!(text, "a(b)[c]{d}|'`é/x");
    assert_eq!(end, 16);
    let src = Source::new("\"\\q\"", SourceFileIdx(0));
    let fail = string(&src, 0).unwrap_err();
    assert!(fail.cut);
    assert_eq!(fail.error, ParserError::UnknownCharacterEscape { span: Span { start: 2, end: 3 } });
    let src = Source::new("\"\\ff\"", SourceFileIdx(0));
    assert_eq!(string(&src, 0).unwrap().0, "\u{ff}");
}

#[test]
fn blocks_end_at_the_first_end_line() {
    let src = Source::new("a\r\nEND\r\nb\nEND\n", SourceFileIdx(0));
    let (text, end) = until_end_literal(&src, 0).unwrap();
    assert_eq!(text, "a\r");
    assert_eq!(end, 8);
    let src = Source::new("a\n END\nENDE\n", SourceFileIdx(0));
    let fail = until_end_literal(&src, 0).unwrap_err();
    assert_eq!(fail.error, ParserError::UndelimitedStatement { span: Span { start: 0, end: 1 } });
}

#[test]
fn flags_are_lower_case_words() {
    let src = Source::new(" opaque no_duplicate_anyhit\n", SourceFileIdx(0));
    assert_eq!(flags(&src, 0, FlagKind::Geometry).unwrap(), (3, 28));
    let src = Source::new(" OPAQUE\n", SourceFileIdx(0));
    let fail = flags(&src, 0, FlagKind::Geometry).unwrap_err();
    assert_eq!(
        fail.error,
        ParserError::InvalidFlag { span: Span { start: 0, end: 7 }, flags: FlagKind::Geometry }
    );
    assert_eq!(flag_names(FlagKind::Geometry), vec!["OPAQUE", "NO_DUPLICATE_ANYHIT"]);
}

#[test]
fn more_is_known_than_unknown() {
    let unknown: ParserError<String> = ParserError::Unknown { span: Span { start: 1, end: 1 } };
    let other: ParserError<String> =
        ParserError::UnknownStatement { span: Span { start: 2, end: 3 } };
    assert_eq!(unknown.clone().or(other.clone()), other);
    assert_eq!(other.clone().or(unknown), other);
}

#[test]
fn nothing_may_follow_the_statements() {
    assert_eq!(parse_str("").unwrap(), vec![]);
    assert_eq!(parse_str("# nothing\n\n").unwrap(), vec![]);
    assert_eq!(
        parse_str("-").unwrap_err(),
        ParserError::Unknown { span: Span { start: 0, end: 0 } }
    );
    assert_eq!(
        parse_str("FOO").unwrap_err(),
        ParserError::UnknownStatement { span: Span { start: 0, end: 3 } }
    );
}
