//! Spaces, comments, words, numbers and strings.
use vstd::prelude::*;

use crate::flags::{find_flag, FlagKind};
use crate::grammar::tokens as grammar;
use crate::grammar::tokens::{is_char, CharClass};
use crate::parse_error::{
    int_max, outcome, Fail, IntType, Outcome, Parsed, ParserError, StatementFormat, WordKind,
};
use crate::script::{NumberForm, NumberLiteral, UnresolvedValue, ViewType};
use crate::source::{copy_identifier, span_obj, Identifier, Script, Source, Span};
use crate::text::same_text;
use crate::value::{DataType, Value};

verus! {

/// Whether `parsed` is what the rule finds at `pos`, and ends inside the text.
pub open spec fn reads<T: DeepView>(
    s: Script,
    pos: usize,
    parsed: Parsed<T>,
    o: Outcome<T::V>,
) -> bool {
    &&& outcome(parsed) == o
    &&& match parsed {
        Ok((_, end)) => pos <= end <= s.text.len(),
        Err(_) => true,
    }
}

/// Whether `parsed` is what the rule finds at `pos`, ends inside the text and is not empty.
pub open spec fn reads_some<T: DeepView>(
    s: Script,
    pos: usize,
    parsed: Parsed<T>,
    o: Outcome<T::V>,
) -> bool {
    &&& outcome(parsed) == o
    &&& match parsed {
        Ok((_, end)) => pos < end <= s.text.len(),
        Err(_) => true,
    }
}

/// Whether a line was read that turned what had been read `before` into `after`, or nothing was
/// read and nothing changed.
pub open spec fn reads_into<V>(
    s: Script,
    pos: usize,
    parsed: Parsed<()>,
    before: V,
    after: V,
    o: Outcome<V>,
) -> bool {
    match parsed {
        Ok((_, end)) => o == Ok::<(V, int), Fail<Seq<char>>>((after, end as int)) && pos < end
            <= s.text.len(),
        Err(f) => o == Err::<(V, int), Fail<Seq<char>>>(f.deep_view()) && after == before,
    }
}

/// Whether lines were read that led to `after`, or one of them failed.
pub open spec fn reads_lines<V>(
    s: Script,
    pos: usize,
    parsed: Parsed<()>,
    after: V,
    o: Outcome<V>,
) -> bool {
    match parsed {
        Ok((_, end)) => o == Ok::<(V, int), Fail<Seq<char>>>((after, end as int)) && pos <= end
            <= s.text.len(),
        Err(f) => o == Err::<(V, int), Fail<Seq<char>>>(f.deep_view()),
    }
}

/// Something else is expected at a position.
pub fn unknown(src: &Source, pos: usize) -> (fail: Fail<String>)
    requires
        src.wf(),
        pos <= src@.text.len(),
    ensures
        !fail.cut,
        fail.error is Unknown,
        fail.deep_view() == (Fail {
            cut: false,
            error: ParserError::<Seq<char>>::Unknown {
                span: grammar::error_place(src@, pos as int),
            },
        }),
{
    let at: usize = src.offset(pos);
    let shown: usize = if pos >= src.len() && at > 0 {
        at - 1
    } else {
        at
    };
    Fail { cut: false, error: ParserError::Unknown { span: Span { start: shown, end: shown } } }
}

/// The byte behind a position, up to the next one.
pub fn byte_at(src: &Source, pos: usize) -> (span: Span)
    requires
        src.wf(),
        pos <= src@.text.len(),
    ensures
        span == grammar::byte_at(src@, pos as int),
{
    let at: usize = src.offset(pos);
    Span {
        start: at,
        end: if at < usize::MAX {
            at + 1
        } else {
            at
        },
    }
}

/// Makes a failure one after which no other rule may be tried.
pub fn cut_err<T: DeepView>(parsed: Parsed<T>) -> (r: Parsed<T>)
    ensures
        outcome(r) == grammar::cut(outcome(parsed)),
        parsed is Ok ==> r == parsed,
{
    match parsed {
        Ok(found) => Ok(found),
        Err(f) => Err(Fail { cut: true, error: f.error }),
    }
}

/// What a rule found, or nothing if it does not apply.
pub fn opt<T: DeepView>(parsed: Parsed<T>, pos: usize) -> (r: Parsed<Option<T>>)
    ensures
        outcome(r) == grammar::optional(outcome(parsed), pos as int),
        match parsed {
            Ok((_, end)) => r matches Ok((_, e)) && e == end,
            Err(_) => r matches Ok((_, e)) ==> e == pos,
        },
{
    match parsed {
        Ok((found, end)) => Ok((Some(found), end)),
        Err(f) => if f.cut {
            Err(f)
        } else {
            Ok((None, pos))
        },
    }
}

/// A failure in a statement or line that starts with a word at `decl`.
pub fn inv_statement<T: DeepView>(
    parsed: Parsed<T>,
    format: StatementFormat,
    decl: Span,
) -> (r: Parsed<T>)
    ensures
        outcome(r) == grammar::in_statement(outcome(parsed), format, decl),
        parsed is Ok ==> r == parsed,
{
    match parsed {
        Ok(found) => Ok(found),
        Err(f) => {
            let error = match f.error {
                ParserError::Unknown { span } => ParserError::InvalidStatement {
                    decl,
                    span,
                    format,
                },
                error => error,
            };
            Err(Fail { cut: true, error })
        },
    }
}

/// Whether a character is white space.
fn is_white_space(c: char) -> (b: bool)
    ensures
        b == grammar::is_white_space(c),
{
    matches!(
        c,
        '\t'..='\r'
        | ' '
        | '\u{85}'
        | '\u{a0}'
        | '\u{1680}'
        | '\u{2000}'..='\u{200a}'
        | '\u{2028}'
        | '\u{2029}'
        | '\u{202f}'
        | '\u{205f}'
        | '\u{3000}'
    )
}

/// Whether a character belongs to a class.
fn in_class(class: CharClass, c: char) -> (b: bool)
    ensures
        b == grammar::in_class(class, c),
{
    let letter: bool = ('a' <= c && c <= 'z') || ('A' <= c && c <= 'Z');
    let digit: bool = '0' <= c && c <= '9';
    let unquoted: bool = !is_white_space(c) && c != '\\';
    match class {
        CharClass::Blank => c == ' ' || c == '\t',
        CharClass::Line => c != '\r' && c != '\n',
        CharClass::Letter => letter,
        CharClass::Digit => digit,
        CharClass::HexDigit => digit || ('a' <= c && c <= 'f') || ('A' <= c && c <= 'F'),
        CharClass::BinaryDigit => c == '0' || c == '1',
        CharClass::Word => letter || digit || c == '_',
        CharClass::Duration => ('a' <= c && c <= 'z') || digit || c == ' ',
        CharClass::Quoted => c != '\\' && c != '"',
        CharClass::Unquoted => unquoted,
        CharClass::UnquotedNoEquals => unquoted && c != '=',
    }
}

/// Where the characters of a class that start at `pos` end.
pub fn run_end(src: &Source, pos: usize, class: CharClass) -> (end: usize)
    requires
        src.wf(),
        pos <= src@.text.len(),
    ensures
        end == grammar::run_end(src@.text, pos as int, class),
        pos <= end <= src@.text.len(),
        forall|i: int| pos <= i < end ==> grammar::in_class(class, #[trigger] src@.text[i]),
{
    let mut p: usize = pos;
    while p < src.len() && in_class(class, src.char_at(p))
        invariant
            src.wf(),
            pos <= p <= src@.text.len(),
            grammar::run_end(src@.text, pos as int, class) == grammar::run_end(
                src@.text,
                p as int,
                class,
            ),
            forall|i: int| pos <= i < p ==> grammar::in_class(class, #[trigger] src@.text[i]),
        decreases src@.text.len() - p,
    {
        p += 1;
    }
    p
}

/// Whether a character stands `ahead` characters behind a position.
pub fn has_char(src: &Source, pos: usize, ahead: usize, c: char) -> (b: bool)
    requires
        src.wf(),
        pos <= src@.text.len(),
    ensures
        b == is_char(src@.text, pos + ahead, c),
        src@.text.len() <= usize::MAX,
{
    let rest: usize = src.len() - pos;
    ahead < rest && src.char_at(pos + ahead) == c
}

/// A fixed text.
pub fn literal(src: &Source, pos: usize, word: &str) -> (r: Parsed<()>)
    requires
        src.wf(),
        pos <= src@.text.len(),
    ensures
        reads(src@, pos, r, grammar::literal(src@, pos as int, word@)),
        r matches Ok((_, end)) ==> end == pos + word@.len(),
        r matches Err(f) ==> !f.cut && f.error is Unknown,
{
    reveal(grammar::literal);
    let n: usize = word.unicode_len();
    if n > src.len() - pos {
        return Err(unknown(src, pos));
    }
    let mut i: usize = 0;
    while i < n
        invariant
            src.wf(),
            i <= n,
            n == word@.len(),
            pos + n <= src@.text.len() <= usize::MAX,
            forall|j: int| 0 <= j < i ==> src@.text[pos + j] == word@[j],
        decreases n - i,
    {
        if src.char_at(pos + i) != word.get_char(i) {
            proof {
                assert(src@.text.subrange(pos as int, pos + n)[i as int] != word@[i as int]);
                reveal(grammar::literal);
            }
            return Err(unknown(src, pos));
        }
        i += 1;
    }
    assert(src@.text.subrange(pos as int, pos + n) =~= word@);
    Ok(((), pos + n))
}

/// From `/*` to `*/`, can be nested.
pub fn multiline_comment(src: &Source, pos: usize) -> (r: Parsed<()>)
    requires
        src.wf(),
        pos <= src@.text.len(),
    ensures
        reads_some(src@, pos, r, grammar::multiline_comment(src@, pos as int)),
        r matches Err(f) ==> !f.cut && f.error is Unknown,
{
    reveal(grammar::multiline_comment);
    if !(has_char(src, pos, 0, '/') && has_char(src, pos, 1, '*')) {
        return Err(unknown(src, pos));
    }
    let mut p: usize = pos + 2;
    let mut depth: usize = 1;
    while p < src.len()
        invariant
            src.wf(),
            pos + 2 <= p <= src@.text.len(),
            1 <= depth < p,
            is_char(src@.text, pos as int, '/') && is_char(src@.text, pos + 1, '*'),
            grammar::comment_end(src@.text, pos + 2, 1) == grammar::comment_end(
                src@.text,
                p as int,
                depth as nat,
            ),
        decreases src@.text.len() - p,
    {
        if has_char(src, p, 0, '/') && has_char(src, p, 1, '*') {
            p = p + 2;
            depth = depth + 1;
        } else if has_char(src, p, 0, '*') && has_char(src, p, 1, '/') {
            if depth <= 1 {
                reveal(grammar::multiline_comment);
                return Ok(((), p + 2));
            }
            p = p + 2;
            depth = depth - 1;
        } else {
            p = p + 1;
        }
    }
    let n: usize = src.len();
    Err(unknown(src, n))
}

/// Blanks or a multiline comment.
fn space_item(src: &Source, pos: usize) -> (r: Parsed<()>)
    requires
        src.wf(),
        pos <= src@.text.len(),
    ensures
        reads_some(src@, pos, r, grammar::space_item(src@, pos as int)),
        r matches Err(f) ==> !f.cut && f.error is Unknown,
{
    let end: usize = run_end(src, pos, CharClass::Blank);
    if end > pos {
        Ok(((), end))
    } else {
        multiline_comment(src, pos)
    }
}

/// Whitespace or multiline comments (everything that can occur at any place).
pub fn space(src: &Source, pos: usize) -> (r: Parsed<()>)
    requires
        src.wf(),
        pos <= src@.text.len(),
    ensures
        reads_some(src@, pos, r, grammar::space(src@, pos as int)),
        r matches Err(f) ==> !f.cut && f.error is Unknown,
{
    reveal(grammar::space);
    let (_, first) = space_item(src, pos)?;
    let mut p: usize = first;
    loop
        invariant
            src.wf(),
            pos < first <= p <= src@.text.len(),
            grammar::spaces_end(src@, first as int) == grammar::spaces_end(src@, p as int),
        ensures
            grammar::spaces_end(src@, first as int) == p,
        decreases src@.text.len() - p,
    {
        match space_item(src, p) {
            Ok((_, end)) => {
                p = end;
            },
            Err(_) => {
                break;
            },
        }
    }
    Ok(((), p))
}

/// From `#` or `//` to end of line.
pub fn singleline_comment(src: &Source, pos: usize) -> (r: Parsed<()>)
    requires
        src.wf(),
        pos <= src@.text.len(),
    ensures
        reads_some(src@, pos, r, grammar::singleline_comment(src@, pos as int)),
        r matches Err(f) ==> !f.cut && f.error is Unknown,
{
    reveal(grammar::singleline_comment);
    let start: usize = if has_char(src, pos, 0, '#') {
        pos + 1
    } else if has_char(src, pos, 0, '/') && has_char(src, pos, 1, '/') {
        pos + 2
    } else {
        return Err(unknown(src, pos));
    };
    let end: usize = run_end(src, start, CharClass::Line);
    if has_char(src, end, 0, '\r') && !has_char(src, end, 1, '\n') {
        Err(unknown(src, end))
    } else {
        Ok(((), end))
    }
}

/// A line feed, or a carriage return and a line feed.
pub fn line_ending(src: &Source, pos: usize) -> (r: Parsed<()>)
    requires
        src.wf(),
        pos <= src@.text.len(),
    ensures
        reads_some(src@, pos, r, grammar::line_ending(src@, pos as int)),
        r matches Err(f) ==> !f.cut && f.error is Unknown,
{
    reveal(grammar::line_ending);
    if has_char(src, pos, 0, '\n') {
        Ok(((), pos + 1))
    } else if has_char(src, pos, 0, '\r') && has_char(src, pos, 1, '\n') {
        Ok(((), pos + 2))
    } else {
        Err(unknown(src, pos))
    }
}

/// Single line ending, optionally with a comment or space.
pub fn single_line_end(src: &Source, pos: usize) -> (r: Parsed<()>)
    requires
        src.wf(),
        pos <= src@.text.len(),
    ensures
        reads(src@, pos, r, grammar::single_line_end(src@, pos as int)),
        r matches Err(f) ==> !f.cut && f.error is Unknown,
{
    reveal(grammar::single_line_end);
    let after_space: usize = match space(src, pos) {
        Ok((_, end)) => end,
        Err(_) => pos,
    };
    let after_comment: usize = match singleline_comment(src, after_space) {
        Ok((_, end)) => end,
        Err(_) => after_space,
    };
    if after_comment >= src.len() {
        Ok(((), after_comment))
    } else {
        line_ending(src, after_comment)
    }
}

/// Space, a comment or a line ending.
fn line_gap(src: &Source, pos: usize) -> (r: Option<usize>)
    requires
        src.wf(),
        pos <= src@.text.len(),
    ensures
        match r {
            Some(end) => grammar::line_gap(src@, pos as int) == Ok::<((), int), Fail<Seq<char>>>(
                ((), end as int),
            ) && pos < end <= src@.text.len(),
            None => grammar::line_gap(src@, pos as int) is Err,
        },
{
    match space(src, pos) {
        Ok((_, end)) => Some(end),
        Err(_) => match singleline_comment(src, pos) {
            Ok((_, end)) => Some(end),
            Err(_) => match line_ending(src, pos) {
                Ok((_, end)) => Some(end),
                Err(_) => None,
            },
        },
    }
}

/// One or more line endings, optionally with a comment or space.
pub fn line_end(src: &Source, pos: usize) -> (r: Parsed<()>)
    requires
        src.wf(),
        pos <= src@.text.len(),
    ensures
        reads(src@, pos, r, grammar::line_end(src@, pos as int)),
        r matches Err(f) ==> !f.cut && f.error is Unknown,
{
    reveal(grammar::line_end);
    let (_, first) = single_line_end(src, pos)?;
    let mut p: usize = first;
    loop
        invariant
            src.wf(),
            pos <= first <= p <= src@.text.len(),
            grammar::line_gaps_end(src@, first as int) == grammar::line_gaps_end(src@, p as int),
        ensures
            grammar::line_gaps_end(src@, first as int) == p,
        decreases src@.text.len() - p,
    {
        match line_gap(src, p) {
            Some(end) => {
                p = end;
            },
            None => {
                break;
            },
        }
    }
    Ok(((), p))
}

/// A minus sign for something that is left out.
pub fn none<T: DeepView>(src: &Source, pos: usize) -> (r: Parsed<Option<T>>)
    requires
        src.wf(),
        pos <= src@.text.len(),
    ensures
        reads_some(src@, pos, r, grammar::none::<T::V>(src@, pos as int)),
        r matches Err(f) ==> !f.cut && f.error is Unknown,
{
    reveal(grammar::none);
    if has_char(src, pos, 0, '-') {
        Ok((None, pos + 1))
    } else {
        Err(unknown(src, pos))
    }
}

/// A fixed word, with space before and after it.
pub fn keyword(src: &Source, pos: usize, word: &str) -> (r: Parsed<()>)
    requires
        src.wf(),
        pos <= src@.text.len(),
    ensures
        reads_some(src@, pos, r, grammar::keyword(src@, pos as int, word@)),
        r matches Err(f) ==> !f.cut && f.error is Unknown,
{
    reveal(grammar::keyword);
    let (_, p) = space(src, pos)?;
    let (_, p) = literal(src, p, word)?;
    space(src, p)
}

/// `END` and the end of its line.
pub fn end_line(src: &Source, pos: usize) -> (r: Parsed<()>)
    requires
        src.wf(),
        pos <= src@.text.len(),
    ensures
        reads(src@, pos, r, grammar::end_line(src@, pos as int)),
{
    reveal(grammar::end_line);
    let (_, p) = literal(src, pos, "END")?;
    line_end(src, p)
}

/// Contains only a-zA-Z0-9_ though digits not as the first char.
pub fn word(src: &Source, pos: usize) -> (r: Parsed<String>)
    requires
        src.wf(),
        pos <= src@.text.len(),
    ensures
        reads_some(src@, pos, r, grammar::word(src@, pos as int)),
        r matches Err(f) ==> !f.cut && f.error is Unknown,
{
    reveal(grammar::word);
    if pos < src.len() {
        let c = src.char_at(pos);
        if in_class(CharClass::Letter, c) || c == '_' {
            let end: usize = run_end(src, pos + 1, CharClass::Word);
            return Ok((src.slice(pos, end), end));
        }
    }
    Err(unknown(src, pos))
}

/// A word and where it stands.
pub fn identifier(src: &Source, pos: usize) -> (r: Parsed<Identifier>)
    requires
        src.wf(),
        pos <= src@.text.len(),
    ensures
        reads_some(src@, pos, r, grammar::identifier(src@, pos as int)),
        r matches Err(f) ==> !f.cut && f.error is Unknown,
{
    reveal(grammar::identifier);
    let (w, end) = word(src, pos)?;
    Ok((span_obj(src, w, pos, end), end))
}

/// An identifier behind space.
pub fn space_identifier(src: &Source, pos: usize) -> (r: Parsed<Identifier>)
    requires
        src.wf(),
        pos <= src@.text.len(),
    ensures
        reads_some(src@, pos, r, grammar::space_identifier(src@, pos as int)),
        r matches Err(f) ==> !f.cut,
{
    reveal(grammar::space_identifier);
    let (_, p) = space(src, pos)?;
    identifier(src, p)
}

/// An identifier behind space, with the end of its line.
pub fn identifier_line(src: &Source, pos: usize) -> (r: Parsed<Identifier>)
    requires
        src.wf(),
        pos <= src@.text.len(),
    ensures
        reads_some(src@, pos, r, grammar::identifier_line(src@, pos as int)),
{
    reveal(grammar::identifier_line);
    let (id, p) = space_identifier(src, pos)?;
    let (_, p) = line_end(src, p)?;
    Ok((id, p))
}

/// An identifier or a minus sign, behind space.
pub fn space_identifier_or_none(src: &Source, pos: usize) -> (r: Parsed<Option<Identifier>>)
    requires
        src.wf(),
        pos <= src@.text.len(),
    ensures
        reads_some(src@, pos, r, grammar::space_identifier_or_none(src@, pos as int)),
{
    reveal(grammar::space_identifier_or_none);
    let (_, p) = space(src, pos)?;
    match none(src, p) {
        Ok(found) => Ok(found),
        Err(_) => {
            let (id, p) = identifier(src, p)?;
            Ok((Some(id), p))
        },
    }
}

/// The value of a digit.
fn digit_value(c: char) -> (value: u64)
    requires
        grammar::is_hex_digit(c),
    ensures
        value == grammar::digit_value(c),
        value < 16,
        grammar::is_digit(c) ==> value < 10,
        c == '0' || c == '1' ==> value < 2,
{
    if '0' <= c && c <= '9' {
        (c as u32 - '0' as u32) as u64
    } else if 'a' <= c && c <= 'f' {
        (c as u32 - 'a' as u32 + 10) as u64
    } else {
        (c as u32 - 'A' as u32 + 10) as u64
    }
}

proof fn lemma_radix_value_grows(digits: Seq<char>, radix: nat, i: int)
    requires
        0 <= i <= digits.len(),
        radix >= 1,
    ensures
        grammar::radix_value(digits.take(i), radix) <= grammar::radix_value(digits, radix),
    decreases digits.len() - i,
{
    if i < digits.len() {
        lemma_radix_value_grows(digits, radix, i + 1);
        assert(digits.take(i + 1).drop_last() =~= digits.take(i));
        let v = grammar::radix_value(digits.take(i), radix);
        assert(v <= v * radix) by (nonlinear_arith)
            requires
                radix >= 1,
        ;
    } else {
        assert(digits.take(i) =~= digits);
    }
}

/// The number that digits stand for, if it is not above `max`.
fn radix_value(src: &Source, start: usize, end: usize, radix: u64, max: u64) -> (value: Option<u64>)
    requires
        src.wf(),
        start <= end <= src@.text.len(),
        radix == 2 || radix == 10 || radix == 16,
        forall|i: int| start <= i < end ==> grammar::is_hex_digit(#[trigger] src@.text[i]),
    ensures
        match value {
            Some(v) => v == grammar::radix_value(
                src@.text.subrange(start as int, end as int),
                radix as nat,
            ) && v <= max,
            None => grammar::radix_value(
                src@.text.subrange(start as int, end as int),
                radix as nat,
            ) > max,
        },
{
    let ghost digits = src@.text.subrange(start as int, end as int);
    let mut value: u64 = 0;
    let mut i: usize = start;
    assert(digits.take(0) =~= Seq::<char>::empty());
    while i < end
        invariant
            src.wf(),
            start <= i <= end <= src@.text.len(),
            radix == 2 || radix == 10 || radix == 16,
            digits == src@.text.subrange(start as int, end as int),
            value == grammar::radix_value(digits.take(i - start), radix as nat),
            value <= max,
            forall|i: int| start <= i < end ==> grammar::is_hex_digit(#[trigger] src@.text[i]),
        decreases end - i,
    {
        let d: u64 = digit_value(src.char_at(i));
        proof {
            let next = digits.take(i + 1 - start);
            assert(next.drop_last() =~= digits.take(i - start));
            assert(next.last() == src@.text[i as int]);
            lemma_radix_value_grows(digits, radix as nat, i + 1 - start);
        }
        assert(value * radix <= u64::MAX * 16) by (nonlinear_arith)
            requires
                value <= u64::MAX,
                radix <= 16,
        ;
        let wide: u128 = value as u128 * radix as u128 + d as u128;
        if wide > max as u128 {
            return None;
        }
        value = wide as u64;
        i += 1;
    }
    assert(digits.take(end - start) =~= digits);
    Some(value)
}

/// The digits of a number at a position: how they are written, where they start and end.
fn digits_at(src: &Source, pos: usize) -> (r: (NumberForm, usize, usize))
    requires
        src.wf(),
        pos <= src@.text.len(),
    ensures
        (r.0, r.1 as int, r.2 as int) == grammar::digits_at(src@.text, pos as int),
        pos <= r.1 <= r.2 <= src@.text.len(),
        r.0 is Hexadecimal || r.0 is Binary || r.0 is Decimal,
        forall|i: int| r.1 <= i < r.2 ==> grammar::is_hex_digit(#[trigger] src@.text[i]),
{
    if has_char(src, pos, 0, '0') && has_char(src, pos, 1, 'x') {
        (NumberForm::Hexadecimal, pos + 2, run_end(src, pos + 2, CharClass::HexDigit))
    } else if has_char(src, pos, 0, '0') && has_char(src, pos, 1, 'b') {
        (NumberForm::Binary, pos + 2, run_end(src, pos + 2, CharClass::BinaryDigit))
    } else {
        (NumberForm::Decimal, pos, run_end(src, pos, CharClass::Digit))
    }
}

/// Unsigned natural number.
pub fn uint(src: &Source, pos: usize, typ: IntType) -> (r: Parsed<u64>)
    requires
        src.wf(),
        pos <= src@.text.len(),
    ensures
        reads_some(src@, pos, r, grammar::uint(src@, pos as int, typ)),
        r matches Ok((n, _)) ==> n <= int_max(typ),
{
    reveal(grammar::uint);
    let (form, start, end) = digits_at(src, pos);
    let radix: u64 = match form {
        NumberForm::Hexadecimal => 16,
        NumberForm::Binary => 2,
        _ => 10,
    };
    let r = if start == end {
        Err(unknown(src, start))
    } else {
        match radix_value(src, start, end, radix, typ.max()) {
            Some(n) => Ok((n, end)),
            None => Err(
                Fail {
                    cut: false,
                    error: ParserError::InvalidInteger { span: src.span(start, end), typ },
                },
            ),
        }
    };
    match form {
        NumberForm::Decimal => r,
        _ => cut_err(r),
    }
}

/// Unsigned natural number of 32 bits.
pub fn uint32(src: &Source, pos: usize) -> (r: Parsed<u32>)
    requires
        src.wf(),
        pos <= src@.text.len(),
    ensures
        reads_some(src@, pos, r, grammar::uint32(src@, pos as int)),
{
    reveal(grammar::uint32);
    let (n, end) = uint(src, pos, IntType::U32)?;
    Ok((n as u32, end))
}

/// Unsigned natural number that is not zero.
pub fn non_zero_u64(src: &Source, pos: usize) -> (r: Parsed<u64>)
    requires
        src.wf(),
        pos <= src@.text.len(),
    ensures
        reads_some(src@, pos, r, grammar::non_zero_u64(src@, pos as int)),
        r matches Ok((n, _)) ==> n != 0,
{
    reveal(grammar::non_zero_u64);
    let (n, end) = uint(src, pos, IntType::U64)?;
    if n == 0 {
        Err(unknown(src, end))
    } else {
        Ok((n, end))
    }
}

/// A plus or minus sign, if there is one.
fn sign_end(src: &Source, pos: usize) -> (end: usize)
    requires
        src.wf(),
        pos <= src@.text.len(),
    ensures
        end == grammar::sign_end(src@.text, pos as int),
        pos <= end <= src@.text.len(),
{
    if has_char(src, pos, 0, '+') || has_char(src, pos, 0, '-') {
        pos + 1
    } else {
        pos
    }
}

/// Where an exponent ends, if there is one.
fn exponent_end(src: &Source, pos: usize) -> (end: usize)
    requires
        src.wf(),
        pos <= src@.text.len(),
    ensures
        end == grammar::exponent_end(src@.text, pos as int),
        pos <= end <= src@.text.len(),
{
    if has_char(src, pos, 0, 'E') || has_char(src, pos, 0, 'e') {
        let start: usize = sign_end(src, pos + 1);
        let end: usize = run_end(src, start, CharClass::Digit);
        if end > start {
            return end;
        }
    }
    pos
}

/// Digits with a decimal point, at least one digit before or after it. If an exponent follows,
/// there may be no point.
fn mantissa(src: &Source, pos: usize) -> (r: Parsed<()>)
    requires
        src.wf(),
        pos <= src@.text.len(),
    ensures
        reads_some(src@, pos, r, grammar::mantissa(src@, pos as int)),
{
    let whole: usize = run_end(src, pos, CharClass::Digit);
    if has_char(src, pos, 0, '.') {
        let end: usize = run_end(src, pos + 1, CharClass::Digit);
        if end > pos + 1 {
            return Ok(((), end));
        }
    }
    if whole > pos && has_char(src, whole, 0, '.') {
        Ok(((), run_end(src, whole + 1, CharClass::Digit)))
    } else if whole > pos && exponent_end(src, whole) > whole {
        Ok(((), whole))
    } else {
        Err(unknown(src, whole))
    }
}

/// Any number, also allows floating point.
pub fn number(src: &Source, pos: usize) -> (r: Parsed<NumberLiteral<String>>)
    requires
        src.wf(),
        pos <= src@.text.len(),
    ensures
        reads_some(src@, pos, r, grammar::number(src@, pos as int)),
{
    reveal(grammar::number);
    let unsigned: usize = sign_end(src, pos);
    let negative: bool = has_char(src, pos, 0, '-');
    let (form, start, end) = digits_at(src, unsigned);
    if start < end && !has_char(src, end, 0, '.') && !has_char(src, end, 0, 'E') && !has_char(
        src,
        end,
        0,
        'e',
    ) {
        Ok((NumberLiteral { negative, form, digits: src.slice(start, end) }, end))
    } else {
        let (_, point) = mantissa(src, unsigned)?;
        let end: usize = exponent_end(src, point);
        Ok((NumberLiteral { negative, form: NumberForm::Float, digits: src.slice(pos, end) }, end))
    }
}

/// A value of a type.
pub fn value(src: &Source, pos: usize, typ: DataType) -> (r: Parsed<UnresolvedValue<String>>)
    requires
        src.wf(),
        pos <= src@.text.len(),
    ensures
        reads_some(src@, pos, r, grammar::value(src@, pos as int, typ)),
{
    reveal(grammar::value);
    match typ {
        DataType::U64 => {
            let (n, end) = uint(src, pos, IntType::U64)?;
            Ok((UnresolvedValue::Resolved(Value::U64(n)), end))
        },
        DataType::U32 => {
            let (n, end) = uint(src, pos, IntType::U32)?;
            Ok((UnresolvedValue::Resolved(Value::U32(n as u32)), end))
        },
        DataType::U16 => {
            let (n, end) = uint(src, pos, IntType::U16)?;
            Ok((UnresolvedValue::Resolved(Value::U16(n as u16)), end))
        },
        DataType::U8 => {
            let (n, end) = uint(src, pos, IntType::U8)?;
            Ok((UnresolvedValue::Resolved(Value::U8(n as u8)), end))
        },
        DataType::F32 => {
            let (n, end) = number(src, pos)?;
            Ok((UnresolvedValue::F32(n), end))
        },
        DataType::F16 => {
            let (n, end) = number(src, pos)?;
            Ok((UnresolvedValue::F16(n), end))
        },
    }
}

/// What stands behind a backslash: a backslash, a quote or two hexadecimal digits.
fn escape(src: &Source, pos: usize) -> (r: Parsed<char>)
    requires
        src.wf(),
        pos <= src@.text.len(),
    ensures
        reads_some(src@, pos, r, grammar::escape(src@, pos as int)),
{
    reveal(grammar::escape);
    if has_char(src, pos, 0, '\\') {
        return Ok(('\\', pos + 1));
    }
    if has_char(src, pos, 0, '"') {
        return Ok(('"', pos + 1));
    }
    if src.len() - pos >= 2 {
        let high = src.char_at(pos);
        let low = src.char_at(pos + 1);
        if in_class(CharClass::HexDigit, high) && in_class(CharClass::HexDigit, low) {
            let code: u8 = (digit_value(high) * 16 + digit_value(low)) as u8;
            return Ok((code as char, pos + 2));
        }
    }
    Err(Fail { cut: true, error: ParserError::UnknownCharacterEscape { span: byte_at(src, pos) } })
}

/// At least one character of a class or escape sequence.
fn string_escapes(src: &Source, pos: usize, class: CharClass) -> (r: Parsed<String>)
    requires
        src.wf(),
        pos <= src@.text.len(),
    ensures
        reads_some(src@, pos, r, grammar::string_escapes(src@, pos as int, class)),
{
    reveal(grammar::string_escapes);
    let mut text = String::new();
    let mut p: usize = pos;
    while p < src.len()
        invariant
            src.wf(),
            pos <= p <= src@.text.len(),
            text@.len() > 0 ==> pos < p,
            grammar::escaped(src@, pos as int, class, Seq::empty()) == grammar::escaped(
                src@,
                p as int,
                class,
                text@,
            ),
        ensures
            grammar::escaped(src@, pos as int, class, Seq::empty()) == Ok::<
                (Seq<char>, int),
                Fail<Seq<char>>,
            >((text@, p as int)),
        decreases src@.text.len() - p,
    {
        let c = src.char_at(p);
        if in_class(class, c) {
            text.push(c);
            p += 1;
        } else if c == '\\' {
            match escape(src, p + 1) {
                Ok((c, end)) => {
                    text.push(c);
                    p = end;
                },
                Err(f) => {
                    reveal(grammar::string_escapes);
                    return Err(f);
                },
            }
        } else {
            break;
        }
    }
    if text.as_str().is_empty() {
        Err(unknown(src, p))
    } else {
        Ok((text, p))
    }
}

/// Quoted strings use llvm-like syntax, allowing a backslash followed by two hex digits like `\0a`.
pub fn quoted_string(src: &Source, pos: usize) -> (r: Parsed<String>)
    requires
        src.wf(),
        pos <= src@.text.len(),
    ensures
        reads_some(src@, pos, r, grammar::quoted_string(src@, pos as int)),
{
    reveal(grammar::quoted_string);
    let (_, p) = literal(src, pos, "\"")?;
    let (text, p) = string_escapes(src, p, CharClass::Quoted)?;
    let (_, p) = literal(src, p, "\"")?;
    Ok((text, p))
}

/// Unquoted or quoted string. In place of a string, `#` starts a comment.
pub fn string(src: &Source, pos: usize) -> (r: Parsed<String>)
    requires
        src.wf(),
        pos <= src@.text.len(),
    ensures
        reads_some(src@, pos, r, grammar::string(src@, pos as int)),
{
    reveal(grammar::string);
    if has_char(src, pos, 0, '"') {
        quoted_string(src, pos)
    } else if has_char(src, pos, 0, '#') {
        Err(unknown(src, pos))
    } else {
        string_escapes(src, pos, CharClass::Unquoted)
    }
}

/// Unquoted string without equals sign or quoted string.
pub fn string_no_equals(src: &Source, pos: usize) -> (r: Parsed<String>)
    requires
        src.wf(),
        pos <= src@.text.len(),
    ensures
        reads_some(src@, pos, r, grammar::string_no_equals(src@, pos as int)),
{
    reveal(grammar::string_no_equals);
    if has_char(src, pos, 0, '"') {
        quoted_string(src, pos)
    } else if has_char(src, pos, 0, '#') {
        Err(unknown(src, pos))
    } else {
        string_escapes(src, pos, CharClass::UnquotedNoEquals)
    }
}

/// A string and where it stands.
pub fn string_object(src: &Source, pos: usize) -> (r: Parsed<Identifier>)
    requires
        src.wf(),
        pos <= src@.text.len(),
    ensures
        reads_some(src@, pos, r, grammar::string_object(src@, pos as int)),
{
    reveal(grammar::string_object);
    let (text, end) = string(src, pos)?;
    Ok((span_obj(src, text, pos, end), end))
}

/// A flag behind space.
fn flag(src: &Source, pos: usize, kind: FlagKind) -> (r: Parsed<u32>)
    requires
        src.wf(),
        pos <= src@.text.len(),
    ensures
        reads_some(src@, pos, r, grammar::flag(src@, pos as int, kind)),
        r matches Err(f) ==> !f.cut,
{
    reveal(grammar::flag);
    let (_, p) = space(src, pos)?;
    let (w, end) = word(src, p)?;
    match find_flag(kind, w.as_str()) {
        Some(bit) => Ok((bit, end)),
        None => Err(
            Fail {
                cut: false,
                error: ParserError::InvalidFlag { span: src.span(pos, end), flags: kind },
            },
        ),
    }
}

/// At least one flag, and the end of the line.
pub fn flags(src: &Source, pos: usize, kind: FlagKind) -> (r: Parsed<u32>)
    requires
        src.wf(),
        pos <= src@.text.len(),
    ensures
        reads_some(src@, pos, r, grammar::flags(src@, pos as int, kind)),
{
    reveal(grammar::flags);
    let (first_bit, first) = flag(src, pos, kind)?;
    let mut bits: u32 = first_bit;
    let mut p: usize = first;
    loop
        invariant
            src.wf(),
            pos < first <= p <= src@.text.len(),
            grammar::flags_end(src@, first as int, kind, first_bit) == grammar::flags_end(
                src@,
                p as int,
                kind,
                bits,
            ),
        ensures
            grammar::flags_end(src@, first as int, kind, first_bit) == (bits, p as int),
        decreases src@.text.len() - p,
    {
        match flag(src, p, kind) {
            Ok((bit, end)) => {
                bits = bits | bit;
                p = end;
            },
            Err(_) => {
                break;
            },
        }
    }
    let (_, end) = line_end(src, p)?;
    Ok((bits, end))
}

/// Something that may be set once, and the word that set it.
pub type Once<T> = Option<(T, Identifier)>;

/// Whether nothing has been set so far.
pub fn check_once<T: DeepView>(set: &Once<T>, id: &Identifier) -> (r: Result<(), Fail<String>>)
    ensures
        match r {
            Ok(_) => set is None,
            Err(f) => set matches Some((_, old)) && f.deep_view() == (Fail {
                cut: false,
                error: ParserError::DuplicateArgument {
                    arg0: old.deep_view(),
                    arg1: id.deep_view(),
                },
            }),
        },
{
    match set {
        Some((_, old)) => Err(
            Fail {
                cut: false,
                error: ParserError::DuplicateArgument {
                    arg0: copy_identifier(old),
                    arg1: copy_identifier(id),
                },
            },
        ),
        None => Ok(()),
    }
}

/// What has been set, if anything.
pub fn take_set<T: DeepView>(set: Once<T>) -> (value: Option<T>)
    ensures
        value.deep_view() == grammar::set_value(set.deep_view()),
{
    match set {
        Some((v, _)) => Some(v),
        None => None,
    }
}

/// The flags that have been set.
pub fn set_bits(set: &Once<u32>) -> (bits: u32)
    ensures
        bits == grammar::set_bits(set.deep_view()),
{
    match set {
        Some((bits, _)) => *bits,
        None => 0,
    }
}

/// The name of a data type.
pub fn data_type(src: &Source, pos: usize) -> (r: Parsed<DataType>)
    requires
        src.wf(),
        pos <= src@.text.len(),
    ensures
        reads_some(src@, pos, r, grammar::data_type(src@, pos as int)),
        r matches Err(f) ==> !f.cut,
{
    reveal(grammar::data_type);
    let (id, end) = identifier(src, pos)?;
    let w = id.content.as_str();
    if same_text(w, "uint64") {
        Ok((DataType::U64, end))
    } else if same_text(w, "uint32") {
        Ok((DataType::U32, end))
    } else if same_text(w, "uint16") {
        Ok((DataType::U16, end))
    } else if same_text(w, "uint8") {
        Ok((DataType::U8, end))
    } else if same_text(w, "float") {
        Ok((DataType::F32, end))
    } else if same_text(w, "float16") {
        Ok((DataType::F16, end))
    } else {
        Err(
            Fail {
                cut: false,
                error: ParserError::InvalidWord { span: id.span, word: WordKind::DataType },
            },
        )
    }
}

/// `SRV` or `UAV`.
pub fn view_type(src: &Source, pos: usize) -> (r: Parsed<ViewType>)
    requires
        src.wf(),
        pos <= src@.text.len(),
    ensures
        reads_some(src@, pos, r, grammar::view_type(src@, pos as int)),
        r matches Err(f) ==> !f.cut,
{
    reveal(grammar::view_type);
    let (id, end) = identifier(src, pos)?;
    let w = id.content.as_str();
    if same_text(w, "SRV") {
        Ok((ViewType::Srv, end))
    } else if same_text(w, "UAV") {
        Ok((ViewType::Uav, end))
    } else {
        Err(
            Fail {
                cut: false,
                error: ParserError::InvalidWord { span: id.span, word: WordKind::View },
            },
        )
    }
}

/// Whether a line that consists of `END` starts behind the line feed at a position.
fn is_end_line(src: &Source, pos: usize) -> (b: bool)
    requires
        src.wf(),
        pos <= src@.text.len(),
    ensures
        b == grammar::is_end_line(src@.text, pos as int),
{
    has_char(src, pos, 0, '\n') && has_char(src, pos, 1, 'E') && has_char(src, pos, 2, 'N')
        && has_char(src, pos, 3, 'D') && (src.len() - pos == 4 || has_char(src, pos, 4, '\n') || (
    has_char(src, pos, 4, '\r') && has_char(src, pos, 5, '\n')))
}

/// Everything until `END` comes up on a line on its own.
///
/// Also parses following line ends.
pub fn until_end_literal(src: &Source, pos: usize) -> (r: Parsed<String>)
    requires
        src.wf(),
        pos <= src@.text.len(),
    ensures
        reads(src@, pos, r, grammar::until_end_literal(src@, pos as int)),
        r matches Err(f) ==> !f.cut,
{
    reveal(grammar::until_end_literal);
    if let Ok((_, end)) = end_line(src, pos) {
        return Ok((String::new(), end));
    }
    let mut p: usize = pos;
    while p < src.len() && !is_end_line(src, p)
        invariant
            src.wf(),
            pos <= p <= src@.text.len(),
            grammar::find_end_line(src@.text, pos as int) == grammar::find_end_line(
                src@.text,
                p as int,
            ),
        decreases src@.text.len() - p,
    {
        p += 1;
    }
    if p < src.len() {
        if let Ok((_, end)) = line_end(src, p + 4) {
            return Ok((src.slice(pos, p), end));
        }
    }
    Err(Fail { cut: false, error: ParserError::UndelimitedStatement { span: byte_at(src, pos) } })
}

} // verus!
