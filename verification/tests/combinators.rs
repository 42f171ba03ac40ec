use smoldr::parse_error::{Fail, ParserError};
use smoldr::parser::tokens;
use smoldr::source::{Source, SourceFileIdx};
use winnow::ascii::{
    alpha1, alphanumeric1, digit0, digit1, hex_digit1, line_ending, space1, till_line_ending,
};
use winnow::combinator::{alt, cut_err, eof, opt, peek, preceded, repeat};
use winnow::error::ErrMode;
use winnow::stream::{LocatingSlice, Location, Stream};
use winnow::token::{literal, one_of, take, take_till};
use winnow::Parser;

/// Where a rule failed.
#[derive(Debug)]
struct Place(usize);

impl<I: Stream + Location> winnow::error::ParserError<I> for Place {
    type Inner = Self;

    fn from_input(input: &I) -> Self {
        let pos = input.current_token_start();
        Place(if input.eof_offset() == 0 { pos.saturating_sub(1) } else { pos })
    }

    fn into_inner(self) -> Result<Self, Self> {
        Ok(self)
    }

    fn or(self, other: Self) -> Self {
        other
    }
}

type Input<'a> = LocatingSlice<&'a str>;
type Outcome = Result<(), ErrMode<Place>>;
type Rule = fn(&Source, usize) -> Result<((), usize), Fail<String>>;
type Combined = fn(&mut Input) -> Outcome;

fn singleline_comment(s: &mut Input) -> Outcome {
    (alt(("//", "#")), till_line_ending).void().parse_next(s)
}

fn multiline_comment(s: &mut Input) -> Outcome {
    "/*".parse_next(s)?;
    loop {
        take_till(0.., ('/', '*')).parse_next(s)?;
        if peek::<_, _, (), _>("/*").parse_next(s).is_ok() {
            multiline_comment(s)?;
        } else if literal::<_, _, ()>("*/").parse_next(s).is_ok() {
            break Ok(());
        } else {
            take(1usize).parse_next(s)?;
        }
    }
}

fn space(s: &mut Input) -> Outcome {
    repeat::<_, _, (), _, _>(1.., alt((space1.void(), multiline_comment))).parse_next(s)
}

fn single_line_end(s: &mut Input) -> Outcome {
    (opt(space), opt(singleline_comment)).parse_next(s)?;
    if eof::<_, ()>.parse_next(s).is_ok() {
        return Ok(());
    }
    line_ending.void().parse_next(s)
}

fn line_end(s: &mut Input) -> Outcome {
    single_line_end(s)?;
    repeat::<_, _, (), _, _>(0.., alt((space, singleline_comment, line_ending.void())))
        .parse_next(s)
}

fn word(s: &mut Input) -> Outcome {
    (alt((alpha1, "_")), opt(repeat::<_, _, (), _, _>(0.., alt((alphanumeric1, "_")))))
        .void()
        .parse_next(s)
}

fn digits(s: &mut Input) -> Outcome {
    alt((
        preceded("0x", cut_err(hex_digit1)).void(),
        preceded("0b", cut_err(repeat::<_, _, (), _, _>(1.., one_of(['0', '1'])))),
        digit1.void(),
    ))
    .parse_next(s)
}

fn exponent(s: &mut Input) -> Outcome {
    (one_of(['E', 'e']), opt(one_of(['+', '-'])), digit1).void().parse_next(s)
}

fn number(s: &mut Input) -> Outcome {
    let start = s.checkpoint();
    let _: Option<char> = opt(one_of(['+', '-'])).parse_next(s)?;
    if digits(s).is_ok() && !s.starts_with(['.', 'E', 'e']) {
        return Ok(());
    }
    s.reset(&start);
    (
        opt(one_of(['+', '-'])),
        alt((
            preceded('.', digit1).void(),
            (digit1, peek(exponent)).void(),
            (digit1, '.', digit0).void(),
        )),
        opt(exponent),
    )
        .void()
        .parse_next(s)
}

fn our_word(src: &Source, pos: usize) -> Result<((), usize), Fail<String>> {
    tokens::word(src, pos).map(|(found, end)| {
        assert_eq!(found, src.slice(pos, end));
        ((), end)
    })
}

fn our_number(src: &Source, pos: usize) -> Result<((), usize), Fail<String>> {
    tokens::number(src, pos).map(|(_, end)| ((), end))
}

/// Applies a rule and its combination to a text.
fn compare(ours: Rule, combined: Combined, text: &str) {
    let src = Source::new(text, SourceFileIdx(0));
    let mut input = LocatingSlice::new(text);
    match (ours(&src, 0), combined(&mut input)) {
        (Ok((_, end)), Ok(())) => assert_eq!(end, input.current_token_start(), "{text:?}"),
        (Err(Fail { cut, error: ParserError::Unknown { span } }), Err(other)) => {
            assert_eq!(cut, matches!(other, ErrMode::Cut(_)), "{text:?}");
            match other {
                ErrMode::Backtrack(Place(at)) | ErrMode::Cut(Place(at)) => {
                    assert_eq!((span.start, span.end), (at, at), "{text:?}");
                }
                ErrMode::Incomplete(_) => panic!("{text:?}"),
            }
        }
        (a, b) => panic!("{text:?}: {a:?} {b:?}"),
    }
}

/// Applies a rule and its combination to all texts of some characters, up to a length.
fn compare_all(ours: Rule, combined: Combined, alphabet: &str, len: usize) {
    let mut texts = vec![String::new()];
    for _ in 0..=len {
        let mut longer = Vec::new();
        for text in texts {
            compare(ours, combined, &text);
            longer.extend(alphabet.chars().map(|c| format!("{text}{c}")));
        }
        texts = longer;
    }
}

#[test]
fn singleline_comments_agree() {
    compare_all(tokens::singleline_comment, singleline_comment, "#/\r\n a", 5);
}

#[test]
fn multiline_comments_agree() {
    compare_all(tokens::multiline_comment, multiline_comment, "/*\na", 8);
}

#[test]
fn spaces_agree() {
    compare_all(tokens::space, space, " \t/*\na", 6);
}

#[test]
fn single_line_ends_agree() {
    compare_all(tokens::single_line_end, single_line_end, " #/*\r\na", 5);
}

#[test]
fn line_ends_agree() {
    compare_all(tokens::line_end, line_end, " #/*\r\na", 5);
}

#[test]
fn words_agree() {
    compare_all(our_word, word, "aZ_0 -", 5);
}

#[test]
fn numbers_agree() {
    compare_all(our_number, number, "+-0xb1.e", 5);
}
