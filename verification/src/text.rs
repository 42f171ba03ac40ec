//! Building and comparing texts.
use vstd::prelude::*;
use vstd::string::*;
use vstd::utf8::is_ascii_chars;

verus! {

/// `String::push` puts one character behind the text.
pub assume_specification[ String::push ](s: &mut String, c: char)
    ensures
        final(s)@ == old(s)@.push(c),
;

/// What `str::to_lowercase` makes of a text: its characters in lower case, as Unicode has it.
pub uninterp spec fn unicode_lowercase(text: Seq<char>) -> Seq<char>;

/// A letter from `A` to `Z` as the letter from `a` to `z`, any other character unchanged.
pub open spec fn ascii_lower(c: char) -> char {
    if 'A' <= c <= 'Z' {
        (c as u32 + 32) as char
    } else {
        c
    }
}

/// A text with its letters from `A` to `Z` in lower case.
pub open spec fn ascii_lowered(text: Seq<char>) -> Seq<char> {
    text.map_values(|c: char| ascii_lower(c))
}

/// A text in lower case. For a text of ASCII characters, that concerns the letters from `A` to `Z`
/// alone.
pub open spec fn lowered(text: Seq<char>) -> Seq<char> {
    if is_ascii_chars(text) {
        ascii_lowered(text)
    } else {
        unicode_lowercase(text)
    }
}

/// Each of the 26 letters in upper case becomes the same letter in lower case, and all other
/// characters stay.
pub proof fn lemma_ascii_lower(c: char, k: int)
    ensures
        0 <= k < 26 && c as int == 65 + k ==> ascii_lower(c) as int == 97 + k,
        !(65 <= c as int <= 90) ==> ascii_lower(c) == c,
{
}

/// Texts in lower case.
pub open spec fn all_lowered(items: Seq<Seq<char>>) -> Seq<Seq<char>> {
    Seq::new(items.len(), |i: int| lowered(items[i]))
}

/// `str::to_lowercase`. On a text of ASCII characters it replaces each letter from `A` to `Z` by
/// its lower case and keeps everything else. Of other texts nothing more is said than that the
/// result depends on the text alone.
#[verifier::external_body]
fn to_lowercase(s: &str) -> (lower: String)
    ensures
        lower@ == unicode_lowercase(s@),
        is_ascii(s) ==> lower@ == ascii_lowered(s@),
{
    s.to_lowercase()
}

/// Whether two texts are the same.
pub fn same_text(a: &str, b: &str) -> (same: bool)
    ensures
        same == (a@ == b@),
{
    let n: usize = a.unicode_len();
    if n != b.unicode_len() {
        return false;
    }
    let mut i: usize = 0;
    while i < n
        invariant
            i <= n,
            n == a@.len(),
            n == b@.len(),
            forall|j: int| 0 <= j < i ==> a@[j] == b@[j],
        decreases n - i,
    {
        if a.get_char(i) != b.get_char(i) {
            return false;
        }
        i += 1;
    }
    assert(a@ =~= b@);
    true
}

/// A text of `count` times the character `c`.
pub fn repeated(c: char, count: usize) -> (text: String)
    ensures
        text@ == Seq::new(count as nat, |i: int| c),
{
    let mut text = String::new();
    let mut i: usize = 0;
    while i < count
        invariant
            i <= count,
            text@ == Seq::new(i as nat, |j: int| c),
        decreases count - i,
    {
        text.push(c);
        i += 1;
        assert(text@ =~= Seq::new(i as nat, |j: int| c));
    }
    text
}

/// `text` behind as many spaces as it takes to make `width` characters.
pub open spec fn right_aligned(text: Seq<char>, width: nat) -> Seq<char> {
    if text.len() >= width {
        text
    } else {
        Seq::new((width - text.len()) as nat, |i: int| ' ') + text
    }
}

/// An aligned text is as wide as its column, or as itself if it is wider. It ends with the text, and
/// everything before that is spaces.
pub proof fn lemma_right_aligned(text: Seq<char>, width: nat)
    ensures
        ({
            let aligned = right_aligned(text, width);
            let spaces = aligned.len() - text.len();
            &&& text.len() < width ==> aligned.len() == width
            &&& text.len() >= width ==> aligned.len() == text.len()
            &&& aligned.skip(spaces) == text
            &&& forall|i: int| 0 <= i < spaces ==> #[trigger] aligned[i] == ' '
        }),
{
    let aligned = right_aligned(text, width);
    assert(aligned.skip(aligned.len() - text.len()) =~= text);
}

/// Aligns a text to the right in a column of `width` characters.
pub fn right_align(text: &str, width: usize) -> (aligned: String)
    ensures
        aligned@ == right_aligned(text@, width as nat),
{
    let len: usize = text.unicode_len();
    if len >= width {
        text.to_owned()
    } else {
        let mut aligned = repeated(' ', width - len);
        aligned.append(text);
        aligned
    }
}

/// The start of a text before the first `end`.
pub open spec fn before(text: Seq<char>, end: char) -> Seq<char>
    decreases text.len(),
{
    if text.len() == 0 || text[0] == end {
        Seq::empty()
    } else {
        seq![text[0]] + before(text.skip(1), end)
    }
}

/// The start is all that stands before the first `end`: it has none, and behind it there is one or
/// nothing.
pub proof fn lemma_before(text: Seq<char>, end: char)
    ensures
        before(text, end).len() <= text.len(),
        before(text, end) == text.take(before(text, end).len() as int),
        !before(text, end).contains(end),
        before(text, end).len() < text.len() ==> text[before(text, end).len() as int] == end,
    decreases text.len(),
{
    let start = before(text, end);
    if text.len() > 0 && text[0] != end {
        let rest = text.skip(1);
        lemma_before(rest, end);
        let n = before(rest, end).len() as int;
        assert forall|i: int| 0 <= i < start.len() implies start[i] == text[i] && start[i]
            != end by {
            if i > 0 {
                assert(before(rest, end)[i - 1] == rest.take(n)[i - 1]);
                assert(rest[i - 1] == text[i]);
                assert(before(rest, end).contains(before(rest, end)[i - 1]));
            }
        }
        assert(start =~= text.take(start.len() as int));
    } else {
        assert(start =~= text.take(0));
    }
}

/// The start of a text before the first `end`, or the whole text.
pub fn until_char(text: &str, end: char) -> (start: String)
    ensures
        start@ == before(text@, end),
{
    let len: usize = text.unicode_len();
    let mut start = String::new();
    let mut i: usize = 0;
    assert(text@.skip(0) =~= text@);
    assert(start@ + before(text@, end) =~= before(text@, end));
    while i < len && text.get_char(i) != end
        invariant
            i <= len,
            len == text@.len(),
            start@ + before(text@.skip(i as int), end) == before(text@, end),
        decreases len - i,
    {
        proof {
            let rest = text@.skip(i as int);
            assert(rest.skip(1) =~= text@.skip(i + 1));
            assert(start@ + (seq![rest[0]] + before(rest.skip(1), end)) =~= start@.push(rest[0])
                + before(rest.skip(1), end));
        }
        start.push(text.get_char(i));
        i += 1;
    }
    assert(before(text@.skip(i as int), end) =~= Seq::<char>::empty());
    assert(start@ =~= before(text@, end));
    start
}

/// The decimal digits of a number, without leading zeros.
pub open spec fn decimal_digits(n: nat) -> Seq<char>
    decreases n,
{
    let last = ('0' as u32 + n % 10) as char;
    if n < 10 {
        seq![last]
    } else {
        decimal_digits(n / 10).push(last)
    }
}

/// The number that decimal digits stand for.
pub open spec fn digits_number(digits: Seq<char>) -> int
    decreases digits.len(),
{
    if digits.len() == 0 {
        0
    } else {
        10 * digits_number(digits.drop_last()) + (digits.last() as int - '0' as int)
    }
}

/// The digits of a number stand for it, and there is no zero before them.
pub proof fn lemma_decimal_digits(n: nat)
    ensures
        decimal_digits(n).len() > 0,
        digits_number(decimal_digits(n)) == n,
        forall|i: int|
            0 <= i < decimal_digits(n).len() ==> '0' <= #[trigger] decimal_digits(n)[i] <= '9',
        n > 0 ==> decimal_digits(n)[0] != '0',
        n == 0 ==> decimal_digits(n).len() == 1,
    decreases n,
{
    let digits = decimal_digits(n);
    let rest = digits.drop_last();
    if n < 10 {
        assert(rest =~= Seq::empty());
        assert(digits_number(rest) == 0);
    } else {
        lemma_decimal_digits(n / 10);
        assert(rest =~= decimal_digits(n / 10));
        assert(digits[0] == rest[0]);
        assert forall|i: int| 0 <= i < digits.len() implies '0' <= #[trigger] digits[i] <= '9' by {
            if i < rest.len() {
                assert(digits[i] == decimal_digits(n / 10)[i]);
            }
        }
    }
}

/// The digit character of a number below ten.
fn digit(n: u64) -> (c: char)
    requires
        n < 10,
    ensures
        c == ('0' as u32 + n) as char,
{
    match n {
        0 => '0',
        1 => '1',
        2 => '2',
        3 => '3',
        4 => '4',
        5 => '5',
        6 => '6',
        7 => '7',
        8 => '8',
        _ => '9',
    }
}

/// Writes a number in decimal.
pub fn decimal(n: u64) -> (text: String)
    ensures
        text@ == decimal_digits(n as nat),
    decreases n,
{
    if n < 10 {
        let mut text = String::new();
        text.push(digit(n));
        assert(text@ =~= decimal_digits(n as nat));
        text
    } else {
        let mut text = decimal(n / 10);
        text.push(digit(n % 10));
        text
    }
}

/// The items one behind the other, with `separator` between each two.
pub open spec fn joined(items: Seq<Seq<char>>, separator: Seq<char>) -> Seq<char>
    decreases items.len(),
{
    if items.len() == 0 {
        Seq::empty()
    } else if items.len() == 1 {
        items[0]
    } else {
        joined(items.drop_last(), separator) + separator + items.last()
    }
}

/// Joining items that stand behind others is joining both, with the separator between them.
pub proof fn lemma_joined_concat(a: Seq<Seq<char>>, b: Seq<Seq<char>>, separator: Seq<char>)
    requires
        a.len() > 0,
        b.len() > 0,
    ensures
        joined(a + b, separator) == joined(a, separator) + separator + joined(b, separator),
    decreases b.len(),
{
    assert((a + b).last() == b.last());
    if b.len() == 1 {
        assert((a + b).drop_last() =~= a);
    } else {
        assert((a + b).drop_last() =~= a + b.drop_last());
        lemma_joined_concat(a, b.drop_last(), separator);
        assert(joined(a + b, separator) =~= joined(a, separator) + separator + joined(
            b,
            separator,
        ));
    }
}

/// Joins texts, with `separator` between each two.
pub fn join(items: &Vec<String>, separator: &str) -> (text: String)
    ensures
        text@ == joined(items.deep_view(), separator@),
{
    let mut text = String::new();
    let mut i: usize = 0;
    while i < items.len()
        invariant
            i <= items.len(),
            text@ == joined(items.deep_view().take(i as int), separator@),
        decreases items.len() - i,
    {
        if i > 0 {
            text.append(separator);
        }
        text.append(items[i].as_str());
        proof {
            let next = items.deep_view().take(i + 1);
            assert(next.drop_last() =~= items.deep_view().take(i as int));
            assert(next.last() == items[i as int]@);
            assert(i == 0 ==> text@ =~= next[0]);
        }
        i += 1;
    }
    assert(items.deep_view().take(items.len() as int) =~= items.deep_view());
    text
}

/// Joins texts with commas.
pub fn comma_join(items: &Vec<String>) -> (text: String)
    ensures
        text@ == joined(items.deep_view(), ", "@),
{
    join(items, ", ")
}

/// An ASCII text in lower case stays as it is when it is put to lower case once more.
pub proof fn lemma_lowered_twice(text: Seq<char>)
    requires
        is_ascii_chars(text),
    ensures
        lowered(lowered(text)) == lowered(text),
{
    let lower = ascii_lowered(text);
    assert forall|i: int| 0 <= i < lower.len() implies '\0' <= #[trigger] lower[i] <= '\u{7f}'
        && ascii_lower(lower[i]) == lower[i] by {
        assert('\0' <= text[i] <= '\u{7f}');
        assert(lower[i] == ascii_lower(text[i]));
    }
    assert(is_ascii_chars(lower));
    assert(ascii_lowered(lower) =~= lower);
}

/// Joining texts in lower case is the same as joining them after each was put to lower case. For
/// ASCII texts it does not matter if those are put to lower case once more.
pub proof fn lemma_joined_lowered(
    items: Seq<Seq<char>>,
    lower: Seq<Seq<char>>,
    separator: Seq<char>,
)
    requires
        lower.len() == items.len(),
        forall|i: int| 0 <= i < items.len() ==> #[trigger] lower[i] == lowered(items[i]),
    ensures
        joined(all_lowered(items), separator) == joined(lower, separator),
        (forall|i: int| 0 <= i < items.len() ==> is_ascii_chars(#[trigger] items[i])) ==> joined(
            all_lowered(lower),
            separator,
        ) == joined(lower, separator),
{
    assert(all_lowered(items) =~= lower);
    if forall|i: int| 0 <= i < items.len() ==> is_ascii_chars(#[trigger] items[i]) {
        assert forall|i: int| 0 <= i < lower.len() implies lowered(#[trigger] lower[i])
            == lower[i] by {
            lemma_lowered_twice(items[i]);
        }
        assert(all_lowered(lower) =~= lower);
    }
}

/// Joins texts with commas, each one in lower case.
pub fn comma_join_lowercase(items: &Vec<&'static str>) -> (text: String)
    ensures
        text@ == joined(all_lowered(Seq::new(items@.len(), |i: int| items@[i]@)), ", "@),
{
    let mut lower: Vec<String> = Vec::new();
    let mut i: usize = 0;
    while i < items.len()
        invariant
            i <= items.len(),
            lower@.len() == i,
            forall|j: int| 0 <= j < i ==> (#[trigger] lower@[j])@ == lowered(items@[j]@),
        decreases items.len() - i,
    {
        lower.push(to_lowercase(items[i]));
        i += 1;
    }
    assert(lower.deep_view() =~= all_lowered(Seq::new(items@.len(), |i: int| items@[i]@)));
    comma_join(&lower)
}

} // verus!
