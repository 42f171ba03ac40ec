//! Spaces, comments, words, numbers and strings.
use vstd::prelude::*;

use crate::duration::is_duration_char;
use crate::flags::{flag_bit, FlagKind};
use crate::parse_error::{int_max, Fail, IntType, Outcome, ParserError, StatementFormat, WordKind};
use crate::script::{NumberForm, NumberLiteral, UnresolvedValue, ViewType};
use crate::source::{byte_offset, IdentifierView, Script, Span};
use crate::value::{DataType, Value};

verus! {

/// Where an error at a position is shown: there, or before the last byte if the text ends there.
pub open spec fn error_place(s: Script, p: int) -> Span {
    let at = byte_offset(s.text, p);
    let shown = if p >= s.text.len() && at > 0 {
        at - 1
    } else {
        at
    };
    Span { start: shown as usize, end: shown as usize }
}

/// Something else is expected at a position.
pub open spec fn unknown<V>(s: Script, p: int) -> Outcome<V> {
    Err(Fail { cut: false, error: ParserError::Unknown { span: error_place(s, p) } })
}

/// The byte behind a position, up to the next one.
pub open spec fn byte_at(s: Script, p: int) -> Span {
    let at = byte_offset(s.text, p) as usize;
    Span {
        start: at,
        end: if at < usize::MAX {
            (at + 1) as usize
        } else {
            at
        },
    }
}

/// A failure after which no other rule may be tried.
pub open spec fn cut<V>(o: Outcome<V>) -> Outcome<V> {
    match o {
        Ok(found) => Ok(found),
        Err(f) => Err(Fail { cut: true, error: f.error }),
    }
}

/// What a rule finds, or nothing if it does not apply.
pub open spec fn optional<V>(o: Outcome<V>, p: int) -> Outcome<Option<V>> {
    match o {
        Ok((found, end)) => Ok((Some(found), end)),
        Err(f) => if f.cut {
            Err(f)
        } else {
            Ok((None, p))
        },
    }
}

/// What the first rule finds, or else what the second finds.
pub open spec fn either<V>(first: Outcome<V>, second: Outcome<V>) -> Outcome<V> {
    match first {
        Ok(found) => Ok(found),
        Err(f) => if f.cut {
            Err(f)
        } else {
            match second {
                Ok(found) => Ok(found),
                Err(g) => if g.cut {
                    Err(g)
                } else {
                    Err(Fail { cut: false, error: f.error.spec_or(g.error) })
                },
            }
        },
    }
}

/// A failure in a statement or line that starts with a word at `decl`: it names the form of the
/// statement, unless something more is known of it.
pub open spec fn in_statement<V>(o: Outcome<V>, format: StatementFormat, decl: Span) -> Outcome<V> {
    match o {
        Ok(found) => Ok(found),
        Err(f) => Err(
            Fail {
                cut: true,
                error: match f.error {
                    ParserError::Unknown { span } => ParserError::InvalidStatement {
                        decl,
                        span,
                        format,
                    },
                    error => error,
                },
            },
        ),
    }
}

/// Kinds of characters of which a rule takes as many as there are.
#[derive(Clone, Copy, Debug, Eq, Hash, PartialEq, Structural)]
pub enum CharClass {
    /// Space or tabulator.
    Blank,
    /// Everything but the characters of a line ending.
    Line,
    Letter,
    Digit,
    HexDigit,
    BinaryDigit,
    /// Everything that a word may continue with.
    Word,
    /// Letters, digits and spaces that a length of time is made of.
    Duration,
    /// Everything in a quoted string that stands for itself.
    Quoted,
    /// Everything in an unquoted string that stands for itself.
    Unquoted,
    /// The same, without the equals sign.
    UnquotedNoEquals,
}

/// Whether a character is a letter, ASCII only.
pub open spec fn is_letter(c: char) -> bool {
    ('a' <= c && c <= 'z') || ('A' <= c && c <= 'Z')
}

/// Whether a character is a decimal digit.
pub open spec fn is_digit(c: char) -> bool {
    '0' <= c && c <= '9'
}

/// Whether a character is a hexadecimal digit.
pub open spec fn is_hex_digit(c: char) -> bool {
    is_digit(c) || ('a' <= c && c <= 'f') || ('A' <= c && c <= 'F')
}

/// Whether a character is white space, as Unicode has it.
pub open spec fn is_white_space(c: char) -> bool {
    ||| '\t' <= c && c <= '\r'
    ||| c == ' '
    ||| c == '\u{85}'
    ||| c == '\u{a0}'
    ||| c == '\u{1680}'
    ||| '\u{2000}' <= c && c <= '\u{200a}'
    ||| c == '\u{2028}'
    ||| c == '\u{2029}'
    ||| c == '\u{202f}'
    ||| c == '\u{205f}'
    ||| c == '\u{3000}'
}

/// Whether an unquoted string can hold the character as it is: it ends at white space, and a
/// backslash starts an escape sequence.
pub open spec fn is_unquoted(c: char) -> bool {
    !is_white_space(c) && c != '\\'
}

/// Whether a character belongs to a class.
pub open spec fn in_class(class: CharClass, c: char) -> bool {
    match class {
        CharClass::Blank => c == ' ' || c == '\t',
        CharClass::Line => c != '\r' && c != '\n',
        CharClass::Letter => is_letter(c),
        CharClass::Digit => is_digit(c),
        CharClass::HexDigit => is_hex_digit(c),
        CharClass::BinaryDigit => c == '0' || c == '1',
        CharClass::Word => is_letter(c) || is_digit(c) || c == '_',
        CharClass::Duration => is_duration_char(c),
        CharClass::Quoted => c != '\\' && c != '"',
        CharClass::Unquoted => is_unquoted(c),
        CharClass::UnquotedNoEquals => is_unquoted(c) && c != '=',
    }
}

/// Where the characters of a class that start at `p` end.
pub open spec fn run_end(text: Seq<char>, p: int, class: CharClass) -> int
    decreases text.len() - p,
{
    if 0 <= p < text.len() && in_class(class, text[p]) {
        run_end(text, p + 1, class)
    } else {
        p
    }
}

/// Whether a text stands at a position.
pub open spec fn starts_with(text: Seq<char>, p: int, word: Seq<char>) -> bool {
    p + word.len() <= text.len() && text.subrange(p, p + word.len()) == word
}

/// Whether a character stands at a position.
pub open spec fn is_char(text: Seq<char>, p: int, c: char) -> bool {
    p < text.len() && text[p] == c
}

/// A fixed text.
#[verifier::opaque]
pub open spec fn literal(s: Script, p: int, word: Seq<char>) -> Outcome<()> {
    if starts_with(s.text, p, word) {
        Ok(((), p + word.len()))
    } else {
        unknown(s, p)
    }
}

/// Where the comments end that are open at a position, `depth` of them one in the other.
pub open spec fn comment_end(text: Seq<char>, p: int, depth: nat) -> Option<int>
    decreases text.len() - p,
{
    if p < 0 || p >= text.len() {
        None
    } else if is_char(text, p, '/') && is_char(text, p + 1, '*') {
        comment_end(text, p + 2, depth + 1)
    } else if is_char(text, p, '*') && is_char(text, p + 1, '/') {
        if depth <= 1 {
            Some(p + 2)
        } else {
            comment_end(text, p + 2, (depth - 1) as nat)
        }
    } else {
        comment_end(text, p + 1, depth)
    }
}

/// From `/*` to `*/`, can be nested.
#[verifier::opaque]
pub open spec fn multiline_comment(s: Script, p: int) -> Outcome<()> {
    if is_char(s.text, p, '/') && is_char(s.text, p + 1, '*') {
        match comment_end(s.text, p + 2, 1) {
            Some(end) => Ok(((), end)),
            None => unknown(s, s.text.len() as int),
        }
    } else {
        unknown(s, p)
    }
}

/// Blanks or a multiline comment.
pub open spec fn space_item(s: Script, p: int) -> Outcome<()> {
    let end = run_end(s.text, p, CharClass::Blank);
    if end > p {
        Ok(((), end))
    } else {
        multiline_comment(s, p)
    }
}

/// Where the blanks and multiline comments end that start at a position.
pub open spec fn spaces_end(s: Script, p: int) -> int
    decreases s.text.len() - p,
{
    match space_item(s, p) {
        Ok((_, end)) => if p < end && end <= s.text.len() {
            spaces_end(s, end)
        } else {
            p
        },
        Err(_) => p,
    }
}

/// Whitespace or multiline comments (everything that can occur at any place).
#[verifier::opaque]
pub open spec fn space(s: Script, p: int) -> Outcome<()> {
    match space_item(s, p) {
        Ok((_, end)) => Ok(((), spaces_end(s, end))),
        Err(f) => Err(f),
    }
}

/// From `#` or `//` to end of line.
#[verifier::opaque]
pub open spec fn singleline_comment(s: Script, p: int) -> Outcome<()> {
    let start = if is_char(s.text, p, '#') {
        p + 1
    } else if is_char(s.text, p, '/') && is_char(s.text, p + 1, '/') {
        p + 2
    } else {
        p
    };
    let end = run_end(s.text, start, CharClass::Line);
    if start == p {
        unknown(s, p)
    } else if is_char(s.text, end, '\r') && !is_char(s.text, end + 1, '\n') {
        unknown(s, end)
    } else {
        Ok(((), end))
    }
}

/// A line feed, or a carriage return and a line feed.
#[verifier::opaque]
pub open spec fn line_ending(s: Script, p: int) -> Outcome<()> {
    if is_char(s.text, p, '\n') {
        Ok(((), p + 1))
    } else if is_char(s.text, p, '\r') && is_char(s.text, p + 1, '\n') {
        Ok(((), p + 2))
    } else {
        unknown(s, p)
    }
}

/// Where something ends that may be missing.
pub open spec fn skipped(o: Outcome<()>, p: int) -> int {
    match o {
        Ok((_, end)) => end,
        Err(_) => p,
    }
}

/// Single line ending, optionally with a comment or space.
#[verifier::opaque]
pub open spec fn single_line_end(s: Script, p: int) -> Outcome<()> {
    let after_space = skipped(space(s, p), p);
    let after_comment = skipped(singleline_comment(s, after_space), after_space);
    if after_comment >= s.text.len() {
        Ok(((), after_comment))
    } else {
        line_ending(s, after_comment)
    }
}

/// Space, a comment or a line ending.
pub open spec fn line_gap(s: Script, p: int) -> Outcome<()> {
    either(either(space(s, p), singleline_comment(s, p)), line_ending(s, p))
}

/// Where the spaces, comments and line endings end that start at a position.
pub open spec fn line_gaps_end(s: Script, p: int) -> int
    decreases s.text.len() - p,
{
    match line_gap(s, p) {
        Ok((_, end)) => if p < end && end <= s.text.len() {
            line_gaps_end(s, end)
        } else {
            p
        },
        Err(_) => p,
    }
}

/// One or more line endings, optionally with a comment or space.
#[verifier::opaque]
pub open spec fn line_end(s: Script, p: int) -> Outcome<()> {
    match single_line_end(s, p) {
        Ok((_, end)) => Ok(((), line_gaps_end(s, end))),
        Err(f) => Err(f),
    }
}

/// A minus sign for something that is left out.
#[verifier::opaque]
pub open spec fn none<V>(s: Script, p: int) -> Outcome<Option<V>> {
    if is_char(s.text, p, '-') {
        Ok((None, p + 1))
    } else {
        unknown(s, p)
    }
}

/// A fixed word, with space before and after it.
#[verifier::opaque]
pub open spec fn keyword(s: Script, p: int, word: Seq<char>) -> Outcome<()> {
    match space(s, p) { Err(f) => Err(f), Ok((_, p)) =>
    match literal(s, p, word) { Err(f) => Err(f), Ok((_, p)) =>
    space(s, p)
    }}
}

/// `END` and the end of its line.
#[verifier::opaque]
pub open spec fn end_line(s: Script, p: int) -> Outcome<()> {
    match literal(s, p, "END"@) { Err(f) => Err(f), Ok((_, p)) =>
    line_end(s, p)
    }
}

/// Contains only a-zA-Z0-9_ though digits not as the first char.
#[verifier::opaque]
pub open spec fn word(s: Script, p: int) -> Outcome<Seq<char>> {
    if p < s.text.len() && (is_letter(s.text[p]) || s.text[p] == '_') {
        let end = run_end(s.text, p, CharClass::Word);
        Ok((s.text.subrange(p, end), end))
    } else {
        unknown(s, p)
    }
}

/// A word and where it stands.
#[verifier::opaque]
pub open spec fn identifier(s: Script, p: int) -> Outcome<IdentifierView> {
    match word(s, p) {
        Ok((w, end)) => Ok((s.object(w, p, end), end)),
        Err(f) => Err(f),
    }
}

/// An identifier behind space.
#[verifier::opaque]
pub open spec fn space_identifier(s: Script, p: int) -> Outcome<IdentifierView> {
    match space(s, p) { Err(f) => Err(f), Ok((_, p)) =>
    identifier(s, p)
    }
}

/// An identifier behind space, with the end of its line.
#[verifier::opaque]
pub open spec fn identifier_line(s: Script, p: int) -> Outcome<IdentifierView> {
    match space_identifier(s, p) { Err(f) => Err(f), Ok((id, p)) =>
    match line_end(s, p) { Err(f) => Err(f), Ok((_, p)) =>
    Ok((id, p))
    }}
}

/// An identifier or a minus sign, behind space.
#[verifier::opaque]
pub open spec fn space_identifier_or_none(s: Script, p: int) -> Outcome<Option<IdentifierView>> {
    match space(s, p) { Err(f) => Err(f), Ok((_, p)) =>
    match none::<IdentifierView>(s, p) {
        Ok(found) => Ok(found),
        Err(_) => match identifier(s, p) {
            Ok((id, p)) => Ok((Some(id), p)),
            Err(f) => Err(f),
        },
    }}
}

/// The value of a digit.
pub open spec fn digit_value(c: char) -> nat {
    if is_digit(c) {
        (c as u32 - '0' as u32) as nat
    } else if 'a' <= c && c <= 'f' {
        (c as u32 - 'a' as u32 + 10) as nat
    } else {
        (c as u32 - 'A' as u32 + 10) as nat
    }
}

/// The number that digits stand for.
pub open spec fn radix_value(digits: Seq<char>, radix: nat) -> nat
    decreases digits.len(),
{
    if digits.len() == 0 {
        0
    } else {
        radix_value(digits.drop_last(), radix) * radix + digit_value(digits.last())
    }
}

/// The digits of a number at a position: how they are written, where they start and end. There
/// are none if they end where they start.
pub open spec fn digits_at(text: Seq<char>, p: int) -> (NumberForm, int, int) {
    if is_char(text, p, '0') && is_char(text, p + 1, 'x') {
        (NumberForm::Hexadecimal, p + 2, run_end(text, p + 2, CharClass::HexDigit))
    } else if is_char(text, p, '0') && is_char(text, p + 1, 'b') {
        (NumberForm::Binary, p + 2, run_end(text, p + 2, CharClass::BinaryDigit))
    } else {
        (NumberForm::Decimal, p, run_end(text, p, CharClass::Digit))
    }
}

/// The base of a way to write numbers.
pub open spec fn radix(form: NumberForm) -> nat {
    match form {
        NumberForm::Hexadecimal => 16,
        NumberForm::Binary => 2,
        _ => 10,
    }
}

/// Unsigned natural number.
#[verifier::opaque]
pub open spec fn uint(s: Script, p: int, typ: IntType) -> Outcome<u64> {
    let (form, start, end) = digits_at(s.text, p);
    let value = radix_value(s.text.subrange(start, end), radix(form));
    let o = if start == end {
        unknown(s, start)
    } else if value > int_max(typ) {
        Err(
            Fail {
                cut: false,
                error: ParserError::InvalidInteger { span: s.span(start, end), typ },
            },
        )
    } else {
        Ok((value as u64, end))
    };
    if form == NumberForm::Decimal {
        o
    } else {
        cut(o)
    }
}

/// Unsigned natural number of 32 bits.
#[verifier::opaque]
pub open spec fn uint32(s: Script, p: int) -> Outcome<u32> {
    match uint(s, p, IntType::U32) {
        Ok((n, end)) => Ok((n as u32, end)),
        Err(f) => Err(f),
    }
}

/// Unsigned natural number that is not zero.
#[verifier::opaque]
pub open spec fn non_zero_u64(s: Script, p: int) -> Outcome<u64> {
    match uint(s, p, IntType::U64) {
        Ok((n, end)) => if n == 0 {
            unknown(s, end)
        } else {
            Ok((n, end))
        },
        Err(f) => Err(f),
    }
}

/// A plus or minus sign, if there is one.
pub open spec fn sign_end(text: Seq<char>, p: int) -> int {
    if is_char(text, p, '+') || is_char(text, p, '-') {
        p + 1
    } else {
        p
    }
}

/// Where an exponent ends, if there is one.
pub open spec fn exponent_end(text: Seq<char>, p: int) -> int {
    if is_char(text, p, 'E') || is_char(text, p, 'e') {
        let start = sign_end(text, p + 1);
        let end = run_end(text, start, CharClass::Digit);
        if end > start {
            end
        } else {
            p
        }
    } else {
        p
    }
}

/// Digits with a decimal point, at least one digit before or after it. If an exponent follows,
/// there may be no point.
pub open spec fn mantissa(s: Script, p: int) -> Outcome<()> {
    let whole = run_end(s.text, p, CharClass::Digit);
    if is_char(s.text, p, '.') && run_end(s.text, p + 1, CharClass::Digit) > p + 1 {
        Ok(((), run_end(s.text, p + 1, CharClass::Digit)))
    } else if whole > p && is_char(s.text, whole, '.') {
        Ok(((), run_end(s.text, whole + 1, CharClass::Digit)))
    } else if whole > p && exponent_end(s.text, whole) > whole {
        Ok(((), whole))
    } else {
        unknown(s, whole)
    }
}

/// Any number, also allows floating point.
#[verifier::opaque]
pub open spec fn number(s: Script, p: int) -> Outcome<NumberLiteral<Seq<char>>> {
    let unsigned = sign_end(s.text, p);
    let negative = is_char(s.text, p, '-');
    let (form, start, end) = digits_at(s.text, unsigned);
    if start < end && !is_char(s.text, end, '.') && !is_char(s.text, end, 'E') && !is_char(
        s.text,
        end,
        'e',
    ) {
        Ok((NumberLiteral { negative, form, digits: s.text.subrange(start, end) }, end))
    } else {
        match mantissa(s, unsigned) {
            Ok((_, point)) => {
                let end = exponent_end(s.text, point);
                Ok(
                    (
                        NumberLiteral {
                            negative,
                            form: NumberForm::Float,
                            digits: s.text.subrange(p, end),
                        },
                        end,
                    ),
                )
            },
            Err(f) => Err(f),
        }
    }
}

/// A value of a type.
#[verifier::opaque]
pub open spec fn value(s: Script, p: int, typ: DataType) -> Outcome<UnresolvedValue<Seq<char>>> {
    match typ {
        DataType::U64 => match uint(s, p, IntType::U64) {
            Ok((n, end)) => Ok((UnresolvedValue::Resolved(Value::U64(n)), end)),
            Err(f) => Err(f),
        },
        DataType::U32 => match uint(s, p, IntType::U32) {
            Ok((n, end)) => Ok((UnresolvedValue::Resolved(Value::U32(n as u32)), end)),
            Err(f) => Err(f),
        },
        DataType::U16 => match uint(s, p, IntType::U16) {
            Ok((n, end)) => Ok((UnresolvedValue::Resolved(Value::U16(n as u16)), end)),
            Err(f) => Err(f),
        },
        DataType::U8 => match uint(s, p, IntType::U8) {
            Ok((n, end)) => Ok((UnresolvedValue::Resolved(Value::U8(n as u8)), end)),
            Err(f) => Err(f),
        },
        DataType::F32 => match number(s, p) {
            Ok((n, end)) => Ok((UnresolvedValue::F32(n), end)),
            Err(f) => Err(f),
        },
        DataType::F16 => match number(s, p) {
            Ok((n, end)) => Ok((UnresolvedValue::F16(n), end)),
            Err(f) => Err(f),
        },
    }
}

/// What stands behind a backslash: a backslash, a quote or two hexadecimal digits.
#[verifier::opaque]
pub open spec fn escape(s: Script, p: int) -> Outcome<char> {
    if is_char(s.text, p, '\\') {
        Ok(('\\', p + 1))
    } else if is_char(s.text, p, '"') {
        Ok(('"', p + 1))
    } else if p + 1 < s.text.len() && is_hex_digit(s.text[p]) && is_hex_digit(s.text[p + 1]) {
        Ok(((digit_value(s.text[p]) * 16 + digit_value(s.text[p + 1])) as char, p + 2))
    } else {
        Err(
            Fail { cut: true, error: ParserError::UnknownCharacterEscape { span: byte_at(s, p) } },
        )
    }
}

/// Characters of a class and escape sequences, as many as there are, put behind `found`.
pub open spec fn escaped(s: Script, p: int, class: CharClass, found: Seq<char>) -> Outcome<
    Seq<char>,
>
    decreases s.text.len() - p,
{
    if p < 0 || p >= s.text.len() {
        Ok((found, p))
    } else if in_class(class, s.text[p]) {
        escaped(s, p + 1, class, found.push(s.text[p]))
    } else if s.text[p] == '\\' {
        match escape(s, p + 1) {
            Ok((c, end)) => if p < end && end <= s.text.len() {
                escaped(s, end, class, found.push(c))
            } else {
                Ok((found, p))
            },
            Err(f) => Err(f),
        }
    } else {
        Ok((found, p))
    }
}

/// At least one character of a class or escape sequence.
#[verifier::opaque]
pub open spec fn string_escapes(s: Script, p: int, class: CharClass) -> Outcome<Seq<char>> {
    match escaped(s, p, class, Seq::empty()) {
        Ok((text, end)) => if text.len() == 0 {
            unknown(s, end)
        } else {
            Ok((text, end))
        },
        Err(f) => Err(f),
    }
}

/// Quoted strings use llvm-like syntax, allowing a backslash followed by two hex digits like `\0a`.
#[verifier::opaque]
pub open spec fn quoted_string(s: Script, p: int) -> Outcome<Seq<char>> {
    match literal(s, p, "\""@) { Err(f) => Err(f), Ok((_, p)) =>
    match string_escapes(s, p, CharClass::Quoted) { Err(f) => Err(f), Ok((text, p)) =>
    match literal(s, p, "\""@) { Err(f) => Err(f), Ok((_, p)) =>
    Ok((text, p))
    }}}
}

/// Unquoted or quoted string. In place of a string, `#` starts a comment.
#[verifier::opaque]
pub open spec fn string(s: Script, p: int) -> Outcome<Seq<char>> {
    if is_char(s.text, p, '"') {
        quoted_string(s, p)
    } else if is_char(s.text, p, '#') {
        unknown(s, p)
    } else {
        string_escapes(s, p, CharClass::Unquoted)
    }
}

/// Unquoted string without equals sign or quoted string.
#[verifier::opaque]
pub open spec fn string_no_equals(s: Script, p: int) -> Outcome<Seq<char>> {
    if is_char(s.text, p, '"') {
        quoted_string(s, p)
    } else if is_char(s.text, p, '#') {
        unknown(s, p)
    } else {
        string_escapes(s, p, CharClass::UnquotedNoEquals)
    }
}

/// A string and where it stands.
#[verifier::opaque]
pub open spec fn string_object(s: Script, p: int) -> Outcome<IdentifierView> {
    match string(s, p) {
        Ok((text, end)) => Ok((s.object(text, p, end), end)),
        Err(f) => Err(f),
    }
}

/// A flag behind space.
#[verifier::opaque]
pub open spec fn flag(s: Script, p: int, kind: FlagKind) -> Outcome<u32> {
    match space(s, p) { Err(f) => Err(f), Ok((_, start)) =>
    match word(s, start) { Err(f) => Err(f), Ok((w, end)) =>
    match flag_bit(kind, w) {
        Some(bit) => Ok((bit, end)),
        None => Err(
            Fail {
                cut: false,
                error: ParserError::InvalidFlag { span: s.span(p, end), flags: kind },
            },
        ),
    }}}
}

/// The flags that start at a position, put to `bits`, and where they end.
pub open spec fn flags_end(s: Script, p: int, kind: FlagKind, bits: u32) -> (u32, int)
    decreases s.text.len() - p,
{
    match flag(s, p, kind) {
        Ok((bit, end)) => if p < end && end <= s.text.len() {
            flags_end(s, end, kind, bits | bit)
        } else {
            (bits, p)
        },
        Err(_) => (bits, p),
    }
}

/// At least one flag, and the end of the line.
#[verifier::opaque]
pub open spec fn flags(s: Script, p: int, kind: FlagKind) -> Outcome<u32> {
    match flag(s, p, kind) { Err(f) => Err(f), Ok((bit, p)) => {
        let (bits, p) = flags_end(s, p, kind, bit);
        match line_end(s, p) {
            Ok((_, end)) => Ok((bits, end)),
            Err(f) => Err(f),
        }
    }}
}

/// Something that may be set once, and the word that set it.
pub type OnceView<V> = Option<(V, IdentifierView)>;

/// What `o` finds, if nothing has been set so far.
pub open spec fn no_dup<V>(set: OnceView<V>, id: IdentifierView, o: Outcome<V>) -> Outcome<
    OnceView<V>,
> {
    match set {
        Some((_, old)) => Err(
            Fail {
                cut: false,
                error: ParserError::DuplicateArgument { arg0: old, arg1: id },
            },
        ),
        None => match o {
            Ok((found, end)) => Ok((Some((found, id)), end)),
            Err(f) => Err(f),
        },
    }
}

/// What has been set, if anything.
pub open spec fn set_value<V>(set: OnceView<V>) -> Option<V> {
    match set {
        Some((v, _)) => Some(v),
        None => None,
    }
}

/// The flags that have been set.
pub open spec fn set_bits(set: OnceView<u32>) -> u32 {
    match set {
        Some((bits, _)) => bits,
        None => 0,
    }
}

/// The name of a data type.
#[verifier::opaque]
pub open spec fn data_type(s: Script, p: int) -> Outcome<DataType> {
    match identifier(s, p) { Err(f) => Err(f), Ok((id, end)) => {
        if id.content == "uint64"@ {
            Ok((DataType::U64, end))
        } else if id.content == "uint32"@ {
            Ok((DataType::U32, end))
        } else if id.content == "uint16"@ {
            Ok((DataType::U16, end))
        } else if id.content == "uint8"@ {
            Ok((DataType::U8, end))
        } else if id.content == "float"@ {
            Ok((DataType::F32, end))
        } else if id.content == "float16"@ {
            Ok((DataType::F16, end))
        } else {
            Err(
                Fail {
                    cut: false,
                    error: ParserError::InvalidWord { span: id.span, word: WordKind::DataType },
                },
            )
        }
    }}
}

/// `SRV` or `UAV`.
#[verifier::opaque]
pub open spec fn view_type(s: Script, p: int) -> Outcome<ViewType> {
    match identifier(s, p) { Err(f) => Err(f), Ok((id, end)) => {
        if id.content == "SRV"@ {
            Ok((ViewType::Srv, end))
        } else if id.content == "UAV"@ {
            Ok((ViewType::Uav, end))
        } else {
            Err(
                Fail {
                    cut: false,
                    error: ParserError::InvalidWord { span: id.span, word: WordKind::View },
                },
            )
        }
    }}
}

/// Whether a line that consists of `END` starts behind the line feed at a position.
pub open spec fn is_end_line(text: Seq<char>, p: int) -> bool {
    &&& is_char(text, p, '\n')
    &&& is_char(text, p + 1, 'E')
    &&& is_char(text, p + 2, 'N')
    &&& is_char(text, p + 3, 'D')
    &&& (p + 4 == text.len() || is_char(text, p + 4, '\n') || (is_char(text, p + 4, '\r')
        && is_char(text, p + 5, '\n')))
}

/// The first line feed, from a position on, before a line that consists of `END`.
pub open spec fn find_end_line(text: Seq<char>, p: int) -> Option<int>
    decreases text.len() - p,
{
    if p < 0 || p >= text.len() {
        None
    } else if is_end_line(text, p) {
        Some(p)
    } else {
        find_end_line(text, p + 1)
    }
}

/// Everything until `END` comes up on a line on its own.
///
/// Also parses following line ends.
#[verifier::opaque]
pub open spec fn until_end_literal(s: Script, p: int) -> Outcome<Seq<char>> {
    match end_line(s, p) {
        Ok((_, end)) => Ok((Seq::empty(), end)),
        Err(_) => {
            let undelimited = Err(
                Fail {
                    cut: false,
                    error: ParserError::UndelimitedStatement { span: byte_at(s, p) },
                },
            );
            match find_end_line(s.text, p) {
                Some(last) => match line_end(s, last + 4) {
                    Ok((_, end)) => Ok((s.text.subrange(p, last), end)),
                    Err(_) => undelimited,
                },
                None => undelimited,
            }
        },
    }
}

} // verus!
