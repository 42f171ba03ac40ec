//! How numbers, strings and comments are written, and which of several errors is told.
use vstd::prelude::*;

use crate::flags::{flag_bit, FlagKind};
use crate::grammar::tokens::{
    comment_end, cut, data_type, digit_value, digits_at, either, escape, escaped, exponent_end,
    flag, identifier, in_class, in_statement, is_char, is_digit, is_hex_digit, line_ending, literal,
    mantissa, multiline_comment, no_dup, non_zero_u64, number, optional, quoted_string, radix,
    radix_value, sign_end, singleline_comment, space, spaces_end, starts_with, string,
    string_escapes, uint, view_type, word, CharClass, OnceView,
};
use crate::grammar::written::{alone, is_number, lemma_run_exact};
use crate::parse_error::{
    expected_words, int_max, Fail, IntType, Outcome, ParserError, StatementFormat, WordKind,
};
use crate::script::{NumberForm, NumberLiteral};
use crate::source::{IdentifierView, Script, Span};

verus! {

/// The character of a digit.
pub open spec fn digit_char(d: nat) -> char {
    if d < 10 {
        (48 + d) as char
    } else {
        (87 + d) as char
    }
}

/// The digits of a number to a base, the highest one first.
pub open spec fn radix_digits(n: nat, base: nat) -> Seq<char>
    decreases n,
{
    if base < 2 || n < base {
        seq![digit_char(n)]
    } else {
        proof {
            assert(n / base < n) by (nonlinear_arith)
                requires
                    base >= 2,
                    n >= base,
            ;
        }
        radix_digits(n / base, base).push(digit_char(n % base))
    }
}

/// What stands before the digits.
pub open spec fn radix_prefix(form: NumberForm) -> Seq<char> {
    match form {
        NumberForm::Hexadecimal => seq!['0', 'x'],
        NumberForm::Binary => seq!['0', 'b'],
        _ => Seq::empty(),
    }
}

/// The base to which digits are written.
pub open spec fn base_of(form: NumberForm) -> nat {
    match form {
        NumberForm::Hexadecimal => 16,
        NumberForm::Binary => 2,
        _ => 10,
    }
}

/// A hexadecimal digit counts the same in upper and in lower case.
pub proof fn lemma_digit_value(d: nat)
    requires
        d < 16,
    ensures
        is_hex_digit(digit_char(d)),
        digit_value(digit_char(d)) == d,
        d >= 10 ==> digit_value((digit_char(d) as u32 - 32) as char) == d && is_hex_digit(
            (digit_char(d) as u32 - 32) as char,
        ),
{
}

spec fn class_of(form: NumberForm) -> CharClass {
    match form {
        NumberForm::Hexadecimal => CharClass::HexDigit,
        NumberForm::Binary => CharClass::BinaryDigit,
        _ => CharClass::Digit,
    }
}

proof fn lemma_radix_digits(n: nat, form: NumberForm)
    ensures
        radix_digits(n, base_of(form)).len() > 0,
        radix_value(radix_digits(n, base_of(form)), radix(form)) == n,
        forall|i: int|
            0 <= i < radix_digits(n, base_of(form)).len() ==> in_class(
                class_of(form),
                #[trigger] radix_digits(n, base_of(form))[i],
            ),
    decreases n,
{
    let base = base_of(form);
    let digits = radix_digits(n, base);
    let rest = digits.drop_last();
    if n < base {
        lemma_digit_value(n);
        assert(rest =~= Seq::empty());
        assert(radix_value(rest, base) == 0);
        assert(0 * base == 0);
    } else {
        assert(n / base < n && n == n / base * base + n % base) by (nonlinear_arith)
            requires
                base >= 2,
                n >= base,
        ;
        lemma_radix_digits(n / base, form);
        lemma_digit_value(n % base);
        assert(rest =~= radix_digits(n / base, base));
        assert forall|i: int| 0 <= i < digits.len() implies in_class(
            class_of(form),
            #[trigger] digits[i],
        ) by {
            if i < rest.len() {
                assert(digits[i] == radix_digits(n / base, base)[i]);
            }
        }
    }
}

/// A number that is written in decimal, behind `0x` in hexadecimal or behind `0b` in binary is read
/// as itself, exactly if its type can hold it. If it is too large, its digits are told.
pub proof fn lemma_uint_written(s: Script, p: int, n: nat, form: NumberForm, typ: IntType)
    requires
        0 <= p,
        form !is Float,
        starts_with(s.text, p, radix_prefix(form) + radix_digits(n, base_of(form))),
        ({
            let end = p + radix_prefix(form).len() + radix_digits(n, base_of(form)).len();
            end < s.text.len() ==> !in_class(CharClass::Word, s.text[end])
        }),
    ensures
        ({
            let start = p + radix_prefix(form).len();
            let end = start + radix_digits(n, base_of(form)).len();
            uint(s, p, typ) == if n <= int_max(typ) {
                Ok::<(u64, int), Fail<Seq<char>>>((n as u64, end))
            } else {
                Err(
                    Fail {
                        cut: form !is Decimal,
                        error: ParserError::InvalidInteger { span: s.span(start, end), typ },
                    },
                )
            }
        }),
{
    reveal(uint);
    let prefix = radix_prefix(form);
    let digits = radix_digits(n, base_of(form));
    let start = p + prefix.len();
    let end = start + digits.len();
    let whole = s.text.subrange(p, end);
    lemma_radix_digits(n, form);
    assert(whole == prefix + digits);
    assert(s.text.subrange(start, end) =~= digits) by {
        assert forall|i: int| 0 <= i < digits.len() implies s.text[start + i] == digits[i] by {
            assert(whole[prefix.len() + i] == s.text[start + i]);
        }
    }
    assert forall|k: int| start <= k < end implies in_class(
        class_of(form),
        #[trigger] s.text[k],
    ) by {
        assert(s.text.subrange(start, end)[k - start] == s.text[k]);
        assert(in_class(class_of(form), digits[k - start]));
    }
    lemma_run_exact(s.text, start, end, class_of(form));
    if form is Decimal {
        assert(!is_char(s.text, p + 1, 'x') && !is_char(s.text, p + 1, 'b')) by {
            if p + 1 < end {
                assert(in_class(CharClass::Digit, s.text[p + 1]));
            }
        }
    } else {
        assert(whole[0] == s.text[p] && whole[1] == s.text[p + 1]);
    }
    assert(digits_at(s.text, p) == (form, start, end));
}

/// A number that may not be zero is any other number.
pub proof fn lemma_non_zero(s: Script, p: int)
    ensures
        match uint(s, p, IntType::U64) {
            Ok((n, end)) => if n > 0 {
                non_zero_u64(s, p) == Ok::<(u64, int), Fail<Seq<char>>>((n, end))
            } else {
                non_zero_u64(s, p) is Err
            },
            Err(f) => non_zero_u64(s, p) == Err::<(u64, int), _>(f),
        },
{
    reveal(non_zero_u64);
}

/// Whether `w` is one way to write a character in quotes: as itself, or behind a backslash, which
/// is the only way for a backslash and a quote, or as two hexadecimal digits behind a backslash,
/// the higher one first.
pub open spec fn is_writing(w: Seq<char>, c: char) -> bool {
    ||| w == seq![c] && c != '\\' && c != '"'
    ||| w == seq!['\\', c] && (c == '\\' || c == '"')
    ||| w.len() == 3 && w[0] == '\\' && is_hex_digit(w[1]) && is_hex_digit(w[2]) && c as int == 16
        * digit_value(w[1]) + digit_value(w[2])
}

/// The pieces of a text, one behind the other.
pub open spec fn put_together(pieces: Seq<Seq<char>>) -> Seq<char>
    decreases pieces.len(),
{
    if pieces.len() == 0 {
        Seq::empty()
    } else {
        pieces[0] + put_together(pieces.skip(1))
    }
}

proof fn lemma_escaped_pieces(
    s: Script,
    p: int,
    pieces: Seq<Seq<char>>,
    chars: Seq<char>,
    found: Seq<char>,
)
    requires
        0 <= p,
        pieces.len() == chars.len(),
        forall|i: int| #![trigger pieces[i]]
            0 <= i < pieces.len() ==> is_writing(pieces[i], chars[i]),
        starts_with(s.text, p, put_together(pieces)),
        is_char(s.text, p + put_together(pieces).len(), '"'),
    ensures
        escaped(s, p, CharClass::Quoted, found) == Ok::<(Seq<char>, int), Fail<Seq<char>>>(
            (found + chars, p + put_together(pieces).len()),
        ),
    decreases pieces.len(),
{
    let all = put_together(pieces);
    if pieces.len() == 0 {
        assert(found + chars =~= found);
    } else {
        let w = pieces[0];
        let rest = pieces.skip(1);
        let tail = put_together(rest);
        let q = p + w.len();
        let whole = s.text.subrange(p, p + all.len());
        assert(is_writing(pieces[0], chars[0]));
        assert forall|i: int| #![trigger rest[i]] 0 <= i < rest.len() implies is_writing(
            rest[i],
            chars.skip(1)[i],
        ) by {
            assert(rest[i] == pieces[i + 1]);
        }
        assert(s.text.subrange(q, q + tail.len()) =~= tail) by {
            assert forall|i: int| 0 <= i < tail.len() implies s.text[q + i] == tail[i] by {
                assert(whole[w.len() + i] == s.text[q + i]);
                assert(all[w.len() + i] == tail[i]);
            }
        }
        assert forall|i: int| 0 <= i < w.len() implies s.text[p + i] == #[trigger] w[i] by {
            assert(whole[i] == s.text[p + i]);
            assert(all[i] == w[i]);
        }
        lemma_escaped_pieces(s, q, rest, chars.skip(1), found.push(chars[0]));
        assert(found.push(chars[0]) + chars.skip(1) =~= found + chars);
        if w == seq![chars[0]] && chars[0] != '\\' && chars[0] != '"' {
            assert(s.text[p] == w[0]);
        } else {
            assert(s.text[p] == w[0] && s.text[p + 1] == w[1]);
            reveal(escape);
            if w.len() == 3 {
                assert(s.text[p + 2] == w[2]);
                assert(escape(s, p + 1) == Ok::<(char, int), Fail<Seq<char>>>((chars[0], q)));
            }
        }
    }
}

/// Any text can be written in quotes, and is read as it is. Each of its characters may be written
/// in any way.
pub proof fn lemma_quoted_string(s: Script, p: int, pieces: Seq<Seq<char>>, chars: Seq<char>)
    requires
        0 <= p,
        chars.len() > 0,
        pieces.len() == chars.len(),
        forall|i: int| #![trigger pieces[i]]
            0 <= i < pieces.len() ==> is_writing(pieces[i], chars[i]),
        starts_with(s.text, p, seq!['"'] + put_together(pieces) + seq!['"']),
    ensures
        string(s, p) == Ok::<(Seq<char>, int), Fail<Seq<char>>>(
            (chars, p + put_together(pieces).len() + 2),
        ),
{
    reveal(string);
    reveal(quoted_string);
    reveal(string_escapes);
    reveal(literal);
    reveal_strlit("\"");
    let all = put_together(pieces);
    let whole = s.text.subrange(p, p + all.len() + 2);
    let n = all.len() as int;
    assert(whole == seq!['"'] + all + seq!['"']);
    assert(whole[0] == s.text[p]);
    assert(whole[n + 1] == s.text[p + n + 1]);
    assert(s.text.subrange(p + 1, p + 1 + n) =~= all) by {
        assert forall|i: int| 0 <= i < n implies s.text[p + 1 + i] == all[i] by {
            assert(whole[i + 1] == s.text[p + 1 + i]);
        }
    }
    lemma_escaped_pieces(s, p + 1, pieces, chars, Seq::empty());
    assert(Seq::empty() + chars =~= chars);
    assert(s.text.subrange(p, p + 1) =~= "\""@);
    assert(s.text.subrange(p + 1 + n, p + 2 + n) =~= "\""@);
}

/// A text in which no comment starts or ends.
pub open spec fn no_marks(text: Seq<char>) -> bool {
    forall|i: int| 0 <= i < text.len() ==> #[trigger] text[i] != '*' && text[i] != '/'
}

proof fn lemma_comment_text(text: Seq<char>, p: int, q: int, depth: nat)
    requires
        0 <= p <= q < text.len(),
        forall|i: int| p <= i < q ==> #[trigger] text[i] != '*' && text[i] != '/',
    ensures
        comment_end(text, p, depth) == comment_end(text, q, depth),
    decreases q - p,
{
    if p < q {
        assert(text[p] != '*' && text[p] != '/');
        lemma_comment_text(text, p + 1, q, depth);
    }
}

/// A comment ends where as many comments have ended as have started: with a comment inside, that is
/// not where the one inside ends.
pub proof fn lemma_comment(
    s: Script,
    p: int,
    before: Seq<char>,
    inside: Option<Seq<char>>,
    behind: Seq<char>,
)
    requires
        0 <= p,
        no_marks(before),
        no_marks(behind),
        inside matches Some(t) ==> no_marks(t),
        ({
            let inner = match inside {
                Some(t) => seq!['/', '*'] + t + seq!['*', '/'],
                None => Seq::empty(),
            };
            starts_with(s.text, p, seq!['/', '*'] + before + inner + behind + seq!['*', '/'])
        }),
    ensures
        ({
            let inner = match inside {
                Some(t) => t.len() + 4,
                None => 0,
            };
            multiline_comment(s, p) == Ok::<((), int), Fail<Seq<char>>>(
                ((), p + 4 + before.len() + inner + behind.len()),
            )
        }),
{
    reveal(multiline_comment);
    let inner = match inside {
        Some(t) => seq!['/', '*'] + t + seq!['*', '/'],
        None => Seq::empty(),
    };
    let all = seq!['/', '*'] + before + inner + behind + seq!['*', '/'];
    let whole = s.text.subrange(p, p + all.len());
    assert forall|i: int| 0 <= i < all.len() implies s.text[p + i] == #[trigger] all[i] by {
        assert(whole[i] == s.text[p + i]);
    }
    assert(all[0] == '/' && all[1] == '*');
    let a = p + 2 + before.len();
    assert forall|i: int| p + 2 <= i < a implies #[trigger] s.text[i] != '*' && s.text[i]
        != '/' by {
        assert(all[i - p] == before[i - p - 2]);
    }
    lemma_comment_text(s.text, p + 2, a, 1);
    let b = a + inner.len();
    if let Some(t) = inside {
        let c = a + 2 + t.len();
        let at = a - p;
        assert(all[at] == '/' && all[at + 1] == '*');
        assert(s.text[a] == all[at] && s.text[a + 1] == all[at + 1]);
        assert forall|i: int| a + 2 <= i < c implies #[trigger] s.text[i] != '*' && s.text[i]
            != '/' by {
            assert(all[i - p] == t[i - a - 2]);
        }
        lemma_comment_text(s.text, a + 2, c, 2);
        let close = c - p;
        assert(all[close] == '*' && all[close + 1] == '/');
        assert(s.text[c] == all[close] && s.text[c + 1] == all[close + 1]);
        assert(comment_end(s.text, a, 1) == comment_end(s.text, a + 2, 2));
        assert(comment_end(s.text, c, 2) == comment_end(s.text, b, 1));
    }
    let d = b + behind.len();
    assert forall|i: int| b <= i < d implies #[trigger] s.text[i] != '*' && s.text[i] != '/' by {
        assert(all[i - p] == behind[i - b]);
    }
    lemma_comment_text(s.text, b, d, 1);
    let close = d - p;
    assert(all[close] == '*' && all[close + 1] == '/');
    assert(s.text[d] == all[close] && s.text[d + 1] == all[close + 1]);
}

/// Which characters are letters, digits, blanks and white space. White space is what Unicode has as
/// such.
pub proof fn lemma_characters(c: char)
    ensures
        ({
            let n = c as int;
            let digit = 0x30 <= n <= 0x39;
            let letter = 0x41 <= n <= 0x5a || 0x61 <= n <= 0x7a;
            let white = 0x09 <= n <= 0x0d || n == 0x20 || n == 0x85 || n == 0xa0 || n == 0x1680
                || 0x2000 <= n <= 0x200a || 0x2028 <= n <= 0x2029 || n == 0x202f || n == 0x205f || n
                == 0x3000;
            &&& in_class(CharClass::Digit, c) <==> digit
            &&& in_class(CharClass::HexDigit, c) <==> digit || 0x41 <= n <= 0x46 || 0x61 <= n
                <= 0x66
            &&& in_class(CharClass::BinaryDigit, c) <==> 0x30 <= n <= 0x31
            &&& in_class(CharClass::Letter, c) <==> letter
            &&& in_class(CharClass::Word, c) <==> letter || digit || n == 0x5f
            &&& in_class(CharClass::Blank, c) <==> n == 0x20 || n == 0x09
            &&& in_class(CharClass::Line, c) <==> n != 0x0a && n != 0x0d
            &&& in_class(CharClass::Quoted, c) <==> n != 0x22 && n != 0x5c
            &&& in_class(CharClass::Unquoted, c) <==> !white && n != 0x5c
            &&& in_class(CharClass::UnquotedNoEquals, c) <==> !white && n != 0x5c && n != 0x3d
        }),
{
}

/// A line ends with a line feed, or with a carriage return and a line feed.
pub proof fn lemma_line_ending(s: Script, p: int)
    requires
        0 <= p < s.text.len(),
    ensures
        s.text[p] == '\n' ==> line_ending(s, p) == Ok::<((), int), Fail<Seq<char>>>(((), p + 1)),
        s.text[p] == '\r' && p + 1 < s.text.len() && s.text[p + 1] == '\n' ==> line_ending(s, p)
            == Ok::<((), int), Fail<Seq<char>>>(((), p + 2)),
        s.text[p] != '\n' && !(s.text[p] == '\r' && p + 1 < s.text.len() && s.text[p + 1] == '\n')
            ==> line_ending(s, p) is Err,
{
    reveal(line_ending);
}

/// A comment of a line goes from `#` or from two slashes up to the end of the line or of the script.
pub proof fn lemma_line_comment(s: Script, p: int, q: int)
    requires
        0 <= p < q <= s.text.len(),
        s.text[p] == '#' || p + 2 <= q && s.text[p] == '/' && s.text[p + 1] == '/',
        forall|i: int| p <= i < q ==> #[trigger] s.text[i] != '\n' && s.text[i] != '\r',
        q < s.text.len() ==> s.text[q] == '\n' || s.text[q] == '\r' && q + 1 < s.text.len()
            && s.text[q + 1] == '\n',
    ensures
        singleline_comment(s, p) == Ok::<((), int), Fail<Seq<char>>>(((), q)),
{
    reveal(singleline_comment);
    let start = if s.text[p] == '#' {
        p + 1
    } else {
        p + 2
    };
    assert forall|i: int| start <= i < q implies in_class(CharClass::Line, #[trigger] s.text[i]) by {
        assert(s.text[i] != '\n');
    }
    lemma_run_exact(s.text, start, q, CharClass::Line);
}

/// Spaces and tabulators are skipped up to the next character that is none.
pub proof fn lemma_blanks(s: Script, p: int, q: int)
    requires
        0 <= p < q < s.text.len(),
        forall|i: int| p <= i < q ==> #[trigger] s.text[i] == ' ' || s.text[i] == '\t',
        s.text[q] != ' ' && s.text[q] != '\t' && s.text[q] != '/',
    ensures
        space(s, p) == Ok::<((), int), Fail<Seq<char>>>(((), q)),
        space(s, q) is Err,
{
    reveal(space);
    reveal(multiline_comment);
    assert forall|i: int| p <= i < q implies in_class(CharClass::Blank, #[trigger] s.text[i]) by {
        assert(s.text[i] == ' ' || s.text[i] == '\t');
    }
    lemma_run_exact(s.text, p, q, CharClass::Blank);
    lemma_run_exact(s.text, q, q, CharClass::Blank);
    reveal_with_fuel(spaces_end, 2);
}

/// A number in hexadecimal or in binary may stand where a number with a decimal point may, with a
/// sign before it.
pub proof fn lemma_radix_number(s: Script, sign: Option<char>, n: nat, form: NumberForm)
    requires
        form is Hexadecimal || form is Binary,
        sign matches Some(c) ==> c == '+' || c == '-',
    ensures
        ({
            let digits = radix_digits(n, base_of(form));
            let unsigned = radix_prefix(form) + digits;
            let w = match sign {
                Some(c) => seq![c] + unsigned,
                None => unsigned,
            };
            is_number(s, w, NumberLiteral { negative: sign == Some('-'), form, digits })
        }),
{
    reveal(number);
    let digits = radix_digits(n, base_of(form));
    let unsigned = radix_prefix(form) + digits;
    let w = match sign {
        Some(c) => seq![c] + unsigned,
        None => unsigned,
    };
    let k: int = if sign is Some {
        1
    } else {
        0
    };
    let start = k + 2;
    let end = w.len() as int;
    lemma_radix_digits(n, form);
    assert(w[k] == '0');
    assert(w[k + 1] == radix_prefix(form)[1]);
    assert forall|i: int| start <= i < end implies in_class(class_of(form), #[trigger] w[i]) by {
        assert(w[i] == digits[i - start]);
    }
    lemma_run_exact(w, start, end, class_of(form));
    assert(sign_end(w, 0) == k);
    assert(digits_at(w, k) == (form, start, end));
    assert(w.subrange(start, end) =~= digits);
}

/// Digits, maybe with a decimal point, and an exponent behind them are a floating-point number,
/// which is kept as it is written.
pub proof fn lemma_exponent_number(
    s: Script,
    negative: bool,
    whole: Seq<char>,
    fraction: Option<Seq<char>>,
    mark: char,
    sign: Option<char>,
    exponent: Seq<char>,
)
    requires
        whole.len() > 0,
        exponent.len() > 0,
        mark == 'e' || mark == 'E',
        sign matches Some(c) ==> c == '+' || c == '-',
        forall|i: int| 0 <= i < whole.len() ==> is_digit(#[trigger] whole[i]),
        fraction matches Some(f) ==> forall|i: int| 0 <= i < f.len() ==> is_digit(#[trigger] f[i]),
        forall|i: int| 0 <= i < exponent.len() ==> is_digit(#[trigger] exponent[i]),
    ensures
        ({
            let w = exponent_text(negative, whole, fraction, mark, sign, exponent);
            is_number(s, w, NumberLiteral { negative, form: NumberForm::Float, digits: w })
        }),
{
    reveal(number);
    let w = exponent_text(negative, whole, fraction, mark, sign, exponent);
    let k: int = if negative {
        1
    } else {
        0
    };
    let point = k + whole.len();
    let n = w.len() as int;
    let e = match fraction {
        Some(f) => point + 1 + f.len(),
        None => point,
    };
    let x = match sign {
        Some(_) => e + 2,
        None => e + 1,
    };
    assert(is_digit(whole[0]) && is_digit(exponent[0]));
    assert forall|i: int| k <= i < point implies in_class(CharClass::Digit, #[trigger] w[i]) by {
        assert(w[i] == whole[i - k]);
    }
    assert(w[e] == mark);
    if let Some(c) = sign {
        assert(w[e + 1] == c);
    }
    assert forall|i: int| x <= i < n implies in_class(CharClass::Digit, #[trigger] w[i]) by {
        assert(w[i] == exponent[i - x]);
    }
    assert(n == x + exponent.len());
    if let Some(f) = fraction {
        assert(w[point] == '.');
        assert forall|i: int| point + 1 <= i < e implies in_class(
            CharClass::Digit,
            #[trigger] w[i],
        ) by {
            assert(w[i] == f[i - point - 1]);
        }
        lemma_run_exact(w, point + 1, e, CharClass::Digit);
    }
    lemma_run_exact(w, k, point, CharClass::Digit);
    lemma_run_exact(w, x, n, CharClass::Digit);
    assert(in_class(CharClass::Digit, w[x]));
    assert(in_class(CharClass::Digit, w[k]));
    assert(sign_end(w, 0) == k);
    assert(sign_end(w, e + 1) == x);
    assert(exponent_end(w, e) == n);
    assert(!is_char(w, k + 1, 'x') && !is_char(w, k + 1, 'b')) by {
        if k + 1 < point {
            assert(in_class(CharClass::Digit, w[k + 1]));
        }
    }
    assert(digits_at(w, k) == (NumberForm::Decimal, k, point));
    assert(mantissa(alone(s, w), k) == Ok::<((), int), Fail<Seq<char>>>(((), e)));
    assert(w.subrange(0, n) =~= w);
}

/// A number with an exponent, as it is written.
pub open spec fn exponent_text(
    negative: bool,
    whole: Seq<char>,
    fraction: Option<Seq<char>>,
    mark: char,
    sign: Option<char>,
    exponent: Seq<char>,
) -> Seq<char> {
    let start = if negative {
        seq!['-']
    } else {
        Seq::empty()
    };
    let middle = match fraction {
        Some(f) => seq!['.'] + f,
        None => Seq::empty(),
    };
    let raised = match sign {
        Some(c) => seq![mark, c],
        None => seq![mark],
    };
    start + whole + middle + raised + exponent
}

/// Of two rules the first one counts if it applies. The second one is tried unless the failure of
/// the first one forbids it. If none applies, the error that is known is told, that of the first
/// rule before that of the second.
pub proof fn lemma_either<V>(first: Outcome<V>, second: Outcome<V>)
    ensures
        first is Ok ==> either(first, second) == first,
        first matches Err(f) ==> (f.cut ==> either(first, second) == first) && (!f.cut && second
            is Ok ==> either(first, second) == second) && (!f.cut ==> (second matches Err(g) ==> (
        either(first, second) matches Err(h) && h.cut == g.cut && (g.cut ==> h == g) && (!g.cut && f
            .error !is Unknown ==> h.error == f.error) && (!g.cut && f.error is Unknown ==> h.error
            == g.error)))),
{
}

/// What may be left out is left out exactly if its rule does not apply, and then nothing is read.
pub proof fn lemma_optional<V>(o: Outcome<V>, p: int)
    ensures
        match (o, optional(o, p)) {
            (Ok((found, end)), Ok((Some(v), e))) => v == found && e == end,
            (Err(f), Ok((None, e))) => !f.cut && e == p,
            (Err(f), Err(g)) => f.cut && g == f,
            _ => false,
        },
{
}

/// Forbidding other rules changes no success and no error.
pub proof fn lemma_cut<V>(o: Outcome<V>, format: StatementFormat, decl: Span)
    ensures
        o is Ok ==> cut(o) == o && in_statement(o, format, decl) == o,
        o matches Err(f) ==> (cut(o) matches Err(g) && g.cut && g.error == f.error) && (
        in_statement(o, format, decl) matches Err(h) && h.cut && match f.error {
            ParserError::Unknown { span } => h.error == (ParserError::<Seq<char>>::InvalidStatement {
                decl,
                span,
                format,
            }),
            error => h.error == error,
        }),
{
}

/// What may be set once is refused the second time, and both places are told.
pub proof fn lemma_no_dup<V>(set: OnceView<V>, id: IdentifierView, o: Outcome<V>)
    ensures
        match no_dup(set, id, o) {
            Ok((now, end)) => set is None && o is Ok && (o matches Ok((found, e)) && now == Some(
                (found, id),
            ) && end == e),
            Err(f) => match set {
                Some((_, old)) => f.error == (ParserError::DuplicateArgument {
                    arg0: old,
                    arg1: id,
                }),
                None => o == Err::<(V, int), _>(f),
            },
        },
{
}

/// A word that is not one of a list is refused, and its place is told.
pub proof fn lemma_invalid_word(s: Script, p: int, id: IdentifierView, end: int)
    requires
        identifier(s, p) == Ok::<(IdentifierView, int), Fail<Seq<char>>>((id, end)),
    ensures
        data_type(s, p) is Ok <==> expected_words(WordKind::DataType).contains(id.content),
        data_type(s, p) matches Err(f) ==> f.error == (ParserError::<Seq<char>>::InvalidWord {
            span: id.span,
            word: WordKind::DataType,
        }),
        view_type(s, p) is Ok <==> expected_words(WordKind::View).contains(id.content),
        view_type(s, p) matches Err(f) ==> f.error == (ParserError::<Seq<char>>::InvalidWord {
            span: id.span,
            word: WordKind::View,
        }),
{
    reveal(data_type);
    reveal(view_type);
    let types = expected_words(WordKind::DataType);
    assert(types[0] == "uint64"@ && types[1] == "uint32"@ && types[2] == "uint16"@ && types[3]
        == "uint8"@ && types[4] == "float"@ && types[5] == "float16"@);
    let views = expected_words(WordKind::View);
    assert(views[0] == "SRV"@ && views[1] == "UAV"@);
}

/// A word that is no flag is refused.
pub proof fn lemma_invalid_flag(
    s: Script,
    p: int,
    kind: FlagKind,
    start: int,
    w: Seq<char>,
    end: int,
)
    requires
        space(s, p) == Ok::<((), int), Fail<Seq<char>>>(((), start)),
        word(s, start) == Ok::<(Seq<char>, int), Fail<Seq<char>>>((w, end)),
    ensures
        flag_bit(kind, w) matches Some(bit) ==> flag(s, p, kind) == Ok::<
            (u32, int),
            Fail<Seq<char>>,
        >((bit, end)),
        flag_bit(kind, w) is None ==> (flag(s, p, kind) matches Err(f) && f.error is InvalidFlag),
{
    reveal(flag);
}

} // verus!
