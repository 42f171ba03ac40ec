//! Scripts that are written down word by word, and how their words are read.
use vstd::prelude::*;

use crate::flags::{flag_bit, FlagKind};
use crate::grammar::laws::is_word;
use crate::grammar::tokens::{
    digits_at, end_line, escaped, exponent_end, flag, flags, flags_end, identifier, in_class,
    is_char, is_digit, is_unquoted, keyword, line_end, line_ending, line_gap, line_gaps_end,
    literal, mantissa, multiline_comment, none, number, run_end, sign_end, single_line_end,
    singleline_comment, space, space_identifier, space_identifier_or_none, space_item, spaces_end,
    starts_with, string, string_escapes, string_no_equals, string_object, uint, uint32, word,
    CharClass,
};
use crate::parse_error::{int_max, Fail, IntType};
use crate::script::{NumberForm, NumberLiteral};
use crate::source::{IdentifierView, Script};
use crate::text::decimal_digits;

verus! {

/// A word of a script, and whether its line ends behind it. Otherwise a space follows it.
pub struct Token {
    pub word: Seq<char>,
    pub last: bool,
}

/// A word with a space behind it.
pub open spec fn tok(word: Seq<char>) -> Token {
    Token { word, last: false }
}

/// The last word of a line.
pub open spec fn eol(word: Seq<char>) -> Token {
    Token { word, last: true }
}

/// What stands behind a word.
pub open spec fn separator(t: Token) -> char {
    if t.last {
        '\n'
    } else {
        ' '
    }
}

/// The text of words, each with what stands behind it.
pub open spec fn written(ts: Seq<Token>) -> Seq<char>
    decreases ts.len(),
{
    if ts.len() == 0 {
        Seq::empty()
    } else {
        written(ts.drop_last()) + ts.last().word.push(separator(ts.last()))
    }
}

/// Where a word starts.
pub open spec fn place(ts: Seq<Token>, i: int) -> int {
    written(ts.take(i)).len() as int
}

/// Where a word ends.
pub open spec fn end(ts: Seq<Token>, i: int) -> int {
    place(ts, i) + ts[i].word.len()
}

/// Whether a word is none of space, and does not start a comment.
pub open spec fn is_token(t: Token) -> bool {
    &&& t.word.len() > 0
    &&& t.word[0] != ' ' && t.word[0] != '\t' && t.word[0] != '/' && t.word[0] != '#' && t.word[0]
        != '\n' && t.word[0] != '\r'
}

/// Whether a script is made of words.
#[verifier::opaque]
pub open spec fn is_written(s: Script, ts: Seq<Token>) -> bool {
    &&& s.text == written(ts)
    &&& forall|i: int| 0 <= i < ts.len() ==> is_token(#[trigger] ts[i])
    &&& ts.len() > 0 ==> ts.last().last
}

proof fn lemma_written_at(ts: Seq<Token>, i: int)
    requires
        0 <= i < ts.len(),
    ensures
        place(ts, i + 1) == end(ts, i) + 1,
        place(ts, i + 1) <= written(ts).len(),
        written(ts).subrange(place(ts, i), place(ts, i + 1)) == ts[i].word.push(separator(ts[i])),
    decreases ts.len(),
{
    assert(ts.take(i + 1).drop_last() =~= ts.take(i));
    assert(ts.take(i + 1).last() == ts[i]);
    let part = ts[i].word.push(separator(ts[i]));
    if i == ts.len() - 1 {
        assert(ts.take(i + 1) =~= ts);
        assert(written(ts).subrange(place(ts, i), place(ts, i + 1)) =~= part);
    } else {
        let rest = ts.drop_last();
        lemma_written_at(rest, i);
        assert(rest.take(i) =~= ts.take(i));
        assert(rest.take(i + 1) =~= ts.take(i + 1));
        assert(written(ts).subrange(place(ts, i), place(ts, i + 1)) =~= written(rest).subrange(
            place(ts, i),
            place(ts, i + 1),
        ));
    }
}

/// Words stand one behind the other.
pub proof fn lemma_token(s: Script, ts: Seq<Token>, i: int)
    requires
        is_written(s, ts),
        0 <= i < ts.len(),
    ensures
        0 <= place(ts, i) < end(ts, i) < s.text.len(),
        place(ts, i + 1) == end(ts, i) + 1,
        place(ts, i + 1) <= s.text.len(),
        i + 1 == ts.len() ==> place(ts, i + 1) == s.text.len(),
        i + 1 == ts.len() ==> ts[i].last,
        starts_with(s.text, place(ts, i), ts[i].word),
        s.text.subrange(place(ts, i), end(ts, i)) == ts[i].word,
        s.text[place(ts, i)] == ts[i].word[0],
        s.text[end(ts, i)] == separator(ts[i]),
        i + 1 < ts.len() ==> is_token(ts[i + 1]) && s.text[place(ts, i + 1)] == ts[i + 1].word[0]
            && place(ts, i + 1) < s.text.len(),
        is_token(ts[i]),
{
    reveal(is_written);
    lemma_written_at(ts, i);
    let w = ts[i].word;
    let (p, q) = (place(ts, i), end(ts, i));
    let part = s.text.subrange(p, q + 1);
    assert(part == w.push(separator(ts[i])));
    assert(s.text.subrange(p, q) =~= w) by {
        assert forall|k: int| 0 <= k < w.len() implies s.text.subrange(p, q)[k] == w[k] by {
            assert(part[k] == w[k]);
        }
    }
    assert(part[0] == s.text[p] && part[w.len() as int] == s.text[q]);
    assert(is_token(ts[i]));
    if i + 1 < ts.len() {
        lemma_written_at(ts, i + 1);
        assert(is_token(ts[i + 1]));
        let next = s.text.subrange(place(ts, i + 1), place(ts, i + 2));
        assert(next[0] == ts[i + 1].word[0]);
    } else {
        assert(ts.take(i + 1) =~= ts);
        assert(ts.last() == ts[i]);
    }
}

/// Characters of a class are read up to one that does not belong to it.
pub proof fn lemma_run_exact(text: Seq<char>, p: int, q: int, class: CharClass)
    requires
        0 <= p <= q <= text.len(),
        forall|i: int| p <= i < q ==> in_class(class, #[trigger] text[i]),
        q < text.len() ==> !in_class(class, text[q]),
    ensures
        run_end(text, p, class) == q,
    decreases q - p,
{
    if p < q {
        assert(in_class(class, text[p]));
        lemma_run_exact(text, p + 1, q, class);
    }
}

proof fn lemma_no_space(s: Script, p: int)
    requires
        0 <= p,
        p < s.text.len() ==> s.text[p] != ' ' && s.text[p] != '\t' && s.text[p] != '/',
    ensures
        space_item(s, p) matches Err(f) && !f.cut,
        space(s, p) matches Err(f) && !f.cut,
        spaces_end(s, p) == p,
{
    reveal(space);
    reveal(multiline_comment);
    assert(run_end(s.text, p, CharClass::Blank) == p);
}

/// The space behind a word is read, up to the next word. It is no end of a line.
pub proof fn lemma_space(s: Script, ts: Seq<Token>, i: int)
    requires
        is_written(s, ts),
        0 <= i < ts.len() - 1,
        !ts[i].last,
    ensures
        space(s, end(ts, i)) == Ok::<((), int), Fail<Seq<char>>>(((), place(ts, i + 1))),
        line_end(s, end(ts, i)) matches Err(f) && !f.cut,
        single_line_end(s, end(ts, i)) matches Err(f) && !f.cut,
{
    lemma_token(s, ts, i);
    let (p, q) = (end(ts, i), place(ts, i + 1));
    reveal(space);
    lemma_run_exact(s.text, p, q, CharClass::Blank);
    lemma_no_space(s, q);
    assert(space_item(s, p) == Ok::<((), int), Fail<Seq<char>>>(((), q)));
    reveal(line_end);
    reveal(single_line_end);
    reveal(singleline_comment);
    reveal(line_ending);
}

/// The end of a line is read, up to the next word. It is no space.
pub proof fn lemma_line_end(s: Script, ts: Seq<Token>, i: int)
    requires
        is_written(s, ts),
        0 <= i < ts.len(),
        ts[i].last,
    ensures
        line_end(s, end(ts, i)) == Ok::<((), int), Fail<Seq<char>>>(((), place(ts, i + 1))),
        single_line_end(s, end(ts, i)) == Ok::<((), int), Fail<Seq<char>>>(((), place(ts, i + 1))),
        space(s, end(ts, i)) matches Err(f) && !f.cut,
{
    lemma_token(s, ts, i);
    let (p, q) = (end(ts, i), place(ts, i + 1));
    lemma_no_space(s, p);
    reveal(line_end);
    reveal(single_line_end);
    reveal(singleline_comment);
    reveal(line_ending);
    lemma_no_space(s, q);
    assert(line_gap(s, q) is Err);
    assert(line_gaps_end(s, q) == q);
}

/// No line ends where a word stands.
pub proof fn lemma_no_line_end(s: Script, p: int)
    requires
        0 <= p < s.text.len(),
        is_token(eol(seq![s.text[p]])),
    ensures
        line_end(s, p) matches Err(f) && !f.cut,
{
    reveal(line_end);
    reveal(single_line_end);
    reveal(singleline_comment);
    reveal(line_ending);
    assert(seq![s.text[p]][0] == s.text[p]);
    lemma_no_space(s, p);
}

/// A line feed at the end of a script is the end of a line.
pub proof fn lemma_last_line(s: Script, p: int)
    requires
        0 <= p,
        p + 1 == s.text.len(),
        s.text[p] == '\n',
    ensures
        line_end(s, p) == Ok::<((), int), Fail<Seq<char>>>(((), p + 1)),
{
    reveal(line_end);
    reveal(single_line_end);
    reveal(singleline_comment);
    reveal(line_ending);
    lemma_no_space(s, p);
    lemma_no_space(s, p + 1);
    assert(line_gap(s, p + 1) is Err);
    assert(line_gaps_end(s, p + 1) == p + 1);
}

/// A word is read as it stands.
pub proof fn lemma_word(s: Script, ts: Seq<Token>, i: int)
    requires
        is_written(s, ts),
        0 <= i < ts.len(),
        is_word(ts[i].word),
    ensures
        word(s, place(ts, i)) == Ok::<(Seq<char>, int), Fail<Seq<char>>>((ts[i].word, end(ts, i))),
        identifier(s, place(ts, i)) == Ok::<(IdentifierView, int), Fail<Seq<char>>>(
            (name_at(s, ts, i), end(ts, i)),
        ),
{
    lemma_token(s, ts, i);
    crate::grammar::round_trip::lemma_reads_word(s, place(ts, i), ts[i].word);
}

/// A word of a script as a name that knows its place.
pub open spec fn name_at(s: Script, ts: Seq<Token>, i: int) -> IdentifierView {
    s.object(ts[i].word, place(ts, i), end(ts, i))
}

/// A word behind a space is read as a name.
pub proof fn lemma_name(s: Script, ts: Seq<Token>, i: int)
    requires
        is_written(s, ts),
        0 < i < ts.len(),
        !ts[i - 1].last,
        is_word(ts[i].word),
    ensures
        space_identifier(s, end(ts, i - 1)) == Ok::<(IdentifierView, int), Fail<Seq<char>>>(
            (name_at(s, ts, i), end(ts, i)),
        ),
        space_identifier_or_none(s, end(ts, i - 1)) == Ok::<
            (Option<IdentifierView>, int),
            Fail<Seq<char>>,
        >((Some(name_at(s, ts, i)), end(ts, i))),
{
    reveal(space_identifier);
    reveal(space_identifier_or_none);
    reveal(none);
    lemma_space(s, ts, i - 1);
    lemma_word(s, ts, i);
    lemma_token(s, ts, i);
}

/// A minus sign behind a space stands for a name that is left out.
pub proof fn lemma_no_name(s: Script, ts: Seq<Token>, i: int)
    requires
        is_written(s, ts),
        0 < i < ts.len(),
        !ts[i - 1].last,
        ts[i].word == seq!['-'],
    ensures
        space_identifier_or_none(s, end(ts, i - 1)) == Ok::<
            (Option<IdentifierView>, int),
            Fail<Seq<char>>,
        >((None, end(ts, i))),
{
    reveal(space_identifier_or_none);
    reveal(none);
    lemma_space(s, ts, i - 1);
    lemma_token(s, ts, i);
}

/// A fixed word is found where it stands.
pub proof fn lemma_literal(s: Script, ts: Seq<Token>, i: int)
    requires
        is_written(s, ts),
        0 <= i < ts.len(),
    ensures
        literal(s, place(ts, i), ts[i].word) == Ok::<((), int), Fail<Seq<char>>>(
            ((), end(ts, i)),
        ),
{
    reveal(literal);
    lemma_token(s, ts, i);
}

/// A fixed word is not found where another one stands that does not start with it.
pub proof fn lemma_no_literal(s: Script, ts: Seq<Token>, i: int, w: Seq<char>)
    requires
        is_written(s, ts),
        0 <= i < ts.len(),
        is_word(w),
        !(w.len() <= ts[i].word.len() && ts[i].word.take(w.len() as int) == w),
    ensures
        literal(s, place(ts, i), w) matches Err(f) && !f.cut,
{
    reveal(literal);
    lemma_token(s, ts, i);
    let p = place(ts, i);
    let v = ts[i].word;
    if starts_with(s.text, p, w) {
        let found = s.text.subrange(p, p + w.len());
        if w.len() <= v.len() {
            assert(v.take(w.len() as int) =~= w) by {
                assert forall|k: int| 0 <= k < w.len() implies v[k] == w[k] by {
                    assert(found[k] == s.text[p + k]);
                    assert(s.text.subrange(p, end(ts, i))[k] == s.text[p + k]);
                }
            }
        } else {
            assert(found[v.len() as int] == s.text[end(ts, i)]);
            assert(in_class(CharClass::Word, w[v.len() as int]));
        }
    }
}

/// A fixed word between spaces is found.
pub proof fn lemma_keyword(s: Script, ts: Seq<Token>, i: int)
    requires
        is_written(s, ts),
        0 < i < ts.len() - 1,
        !ts[i - 1].last,
        !ts[i].last,
    ensures
        keyword(s, end(ts, i - 1), ts[i].word) == Ok::<((), int), Fail<Seq<char>>>(
            ((), place(ts, i + 1)),
        ),
{
    reveal(keyword);
    lemma_space(s, ts, i - 1);
    lemma_literal(s, ts, i);
    lemma_space(s, ts, i);
}

/// A fixed word is not found at the end of a line, or where another word stands.
pub proof fn lemma_no_keyword(s: Script, ts: Seq<Token>, i: int, w: Seq<char>)
    requires
        is_written(s, ts),
        0 < i <= ts.len(),
        is_word(w),
        ts[i - 1].last || (i < ts.len() && !(w.len() <= ts[i].word.len() && ts[i].word.take(
            w.len() as int,
        ) == w)),
    ensures
        keyword(s, end(ts, i - 1), w) matches Err(f) && !f.cut,
{
    reveal(keyword);
    if ts[i - 1].last {
        lemma_line_end(s, ts, i - 1);
    } else {
        lemma_space(s, ts, i - 1);
        lemma_no_literal(s, ts, i, w);
    }
}

/// `END` ends a block.
pub proof fn lemma_end(s: Script, ts: Seq<Token>, i: int)
    requires
        is_written(s, ts),
        0 <= i < ts.len(),
        ts[i] == eol("END"@),
    ensures
        end_line(s, place(ts, i)) == Ok::<((), int), Fail<Seq<char>>>(((), place(ts, i + 1))),
        identifier(s, place(ts, i)) == Ok::<(IdentifierView, int), Fail<Seq<char>>>(
            (name_at(s, ts, i), end(ts, i)),
        ),
        name_at(s, ts, i).content == "END"@,
{
    reveal(end_line);
    reveal_strlit("END");
    lemma_literal(s, ts, i);
    lemma_line_end(s, ts, i);
    lemma_word(s, ts, i);
}

/// A number in decimal is read as itself, if it is not too large.
pub proof fn lemma_uint(s: Script, ts: Seq<Token>, i: int, n: nat, typ: IntType)
    requires
        is_written(s, ts),
        0 <= i < ts.len(),
        ts[i].word == decimal_digits(n),
        n <= int_max(typ),
    ensures
        uint(s, place(ts, i), typ) == Ok::<(u64, int), Fail<Seq<char>>>((n as u64, end(ts, i))),
        typ is U32 ==> uint32(s, place(ts, i)) == Ok::<(u32, int), Fail<Seq<char>>>(
            (n as u32, end(ts, i)),
        ),
{
    reveal(uint);
    reveal(uint32);
    lemma_token(s, ts, i);
    crate::grammar::round_trip::lemma_decimal(n);
    let w = decimal_digits(n);
    let (p, q) = (place(ts, i), end(ts, i));
    assert forall|k: int| p <= k < q implies in_class(CharClass::Digit, #[trigger] s.text[k]) by {
        assert(s.text[k] == s.text.subrange(p, q)[k - p]);
        assert(is_digit(w[k - p]));
    }
    lemma_run_exact(s.text, p, q, CharClass::Digit);
    assert(!is_char(s.text, p + 1, 'x') && !is_char(s.text, p + 1, 'b')) by {
        if p + 1 < q {
            assert(in_class(CharClass::Digit, s.text[p + 1]));
        }
    }
    assert(digits_at(s.text, p) == (NumberForm::Decimal, p, q));
}

/// Whether a word is an unquoted string that stands for itself.
pub open spec fn is_plain(w: Seq<char>) -> bool {
    &&& w.len() > 0
    &&& w[0] != '"' && w[0] != '#'
    &&& forall|i: int| 0 <= i < w.len() ==> is_unquoted(#[trigger] w[i])
}

/// Characters that stand for themselves are read up to one that does not.
pub proof fn lemma_escaped(
    s: Script,
    p: int,
    q: int,
    class: CharClass,
    found: Seq<char>,
)
    requires
        0 <= p <= q < s.text.len(),
        forall|i: int| p <= i < q ==> in_class(class, #[trigger] s.text[i]),
        !in_class(class, s.text[q]),
        s.text[q] != '\\',
    ensures
        escaped(s, p, class, found) == Ok::<(Seq<char>, int), Fail<Seq<char>>>(
            (found + s.text.subrange(p, q), q),
        ),
    decreases q - p,
{
    if p < q {
        lemma_escaped(s, p + 1, q, class, found.push(s.text[p]));
        assert(found.push(s.text[p]) + s.text.subrange(p + 1, q) =~= found + s.text.subrange(p, q));
    } else {
        assert(found + s.text.subrange(p, q) =~= found);
    }
}

/// A string that stands for itself is read as it is written.
pub proof fn lemma_string(s: Script, ts: Seq<Token>, i: int)
    requires
        is_written(s, ts),
        0 <= i < ts.len(),
        is_plain(ts[i].word),
    ensures
        string(s, place(ts, i)) == Ok::<(Seq<char>, int), Fail<Seq<char>>>(
            (ts[i].word, end(ts, i)),
        ),
        string_object(s, place(ts, i)) == Ok::<(IdentifierView, int), Fail<Seq<char>>>(
            (name_at(s, ts, i), end(ts, i)),
        ),
        (forall|k: int| 0 <= k < ts[i].word.len() ==> #[trigger] ts[i].word[k] != '=')
            ==> string_no_equals(s, place(ts, i)) == Ok::<(Seq<char>, int), Fail<Seq<char>>>(
            (ts[i].word, end(ts, i)),
        ),
{
    reveal(string);
    reveal(string_no_equals);
    reveal(string_object);
    reveal(string_escapes);
    lemma_token(s, ts, i);
    let w = ts[i].word;
    let (p, q) = (place(ts, i), end(ts, i));
    assert forall|k: int| p <= k < q implies is_unquoted(#[trigger] s.text[k]) && s.text[k] == w[k
        - p] by {
        assert(s.text.subrange(p, q)[k - p] == s.text[k]);
        assert(is_unquoted(w[k - p]));
    }
    lemma_escaped(s, p, q, CharClass::Unquoted, Seq::empty());
    assert(Seq::<char>::empty() + w =~= w);
    if forall|k: int| 0 <= k < w.len() ==> #[trigger] w[k] != '=' {
        assert forall|k: int| p <= k < q implies in_class(
            CharClass::UnquotedNoEquals,
            #[trigger] s.text[k],
        ) by {
            assert(w[k - p] != '=');
        }
        lemma_escaped(s, p, q, CharClass::UnquotedNoEquals, Seq::empty());
    }
}

/// The bits of flags that are written as `words`.
pub open spec fn bits_of(kind: FlagKind, words: Seq<Seq<char>>) -> u32
    decreases words.len(),
{
    if words.len() == 0 {
        0
    } else {
        match flag_bit(kind, words.last()) {
            Some(bit) => bits_of(kind, words.drop_last()) | bit,
            None => 0,
        }
    }
}

/// Whether the words from `i` on are the flags `words`, and their line ends with them.
pub open spec fn are_flags(ts: Seq<Token>, i: int, kind: FlagKind, words: Seq<Seq<char>>) -> bool {
    &&& 0 < i
    &&& i + words.len() <= ts.len()
    &&& !ts[i - 1].last
    &&& words.len() > 0
    &&& forall|k: int|
        0 <= k < words.len() ==> ts[i + k].word == #[trigger] words[k] && is_word(words[k])
            && flag_bit(kind, words[k]) is Some && ts[i + k].last == (k == words.len() - 1)
}

/// Flags on a line are read as the bits of all of them.
pub proof fn lemma_flags(
    s: Script,
    ts: Seq<Token>,
    i: int,
    kind: FlagKind,
    words: Seq<Seq<char>>,
)
    requires
        is_written(s, ts),
        are_flags(ts, i, kind, words),
    ensures
        flags(s, end(ts, i - 1), kind) == Ok::<(u32, int), Fail<Seq<char>>>(
            (bits_of(kind, words), place(ts, i + words.len())),
        ),
{
    reveal(flags);
    lemma_flag(s, ts, i, kind, words, 0);
    assert(words.take(1).drop_last() =~= Seq::<Seq<char>>::empty());
    assert(words.take(1).last() == words[0]);
    let bit = flag_bit(kind, words[0])->0;
    reveal_with_fuel(bits_of, 2);
    assert(0u32 | bit == bit) by (bit_vector);
    lemma_flags_end(s, ts, i, kind, words, 1);
    let n = words.len() as int;
    assert(words[n - 1] == words.last());
    lemma_line_end(s, ts, i + n - 1);
}

proof fn lemma_flag(
    s: Script,
    ts: Seq<Token>,
    i: int,
    kind: FlagKind,
    words: Seq<Seq<char>>,
    k: int,
)
    requires
        is_written(s, ts),
        are_flags(ts, i, kind, words),
        0 <= k < words.len(),
    ensures
        flag(s, end(ts, i + k - 1), kind) == Ok::<(u32, int), Fail<Seq<char>>>(
            (flag_bit(kind, words[k])->0, end(ts, i + k)),
        ),
{
    reveal(flag);
    if k > 0 {
        assert(words[k - 1] == ts[i + k - 1].word);
    }
    lemma_space(s, ts, i + k - 1);
    lemma_word(s, ts, i + k);
}

proof fn lemma_flags_end(
    s: Script,
    ts: Seq<Token>,
    i: int,
    kind: FlagKind,
    words: Seq<Seq<char>>,
    k: int,
)
    requires
        is_written(s, ts),
        are_flags(ts, i, kind, words),
        0 < k <= words.len(),
    ensures
        flags_end(s, end(ts, i + k - 1), kind, bits_of(kind, words.take(k))) == (
            bits_of(kind, words),
            end(ts, i + words.len() - 1),
        ),
    decreases words.len() - k,
{
    assert(words[k - 1] == ts[i + k - 1].word);
    if k < words.len() {
        lemma_flag(s, ts, i, kind, words, k);
        lemma_token(s, ts, i + k - 1);
        lemma_token(s, ts, i + k);
        assert(words.take(k + 1).drop_last() =~= words.take(k));
        lemma_flags_end(s, ts, i, kind, words, k + 1);
    } else {
        reveal(flag);
        lemma_line_end(s, ts, i + k - 1);
        assert(words.take(k) =~= words);
    }
}

/// A script that is nothing but a word.
pub open spec fn alone(s: Script, w: Seq<char>) -> Script {
    Script { text: w, file: s.file }
}

/// Whether a word is a number, and which one.
pub open spec fn is_number(s: Script, w: Seq<char>, n: NumberLiteral<Seq<char>>) -> bool {
    number(alone(s, w), 0) == Ok::<(NumberLiteral<Seq<char>>, int), Fail<Seq<char>>>(
        (n, w.len() as int),
    )
}

proof fn lemma_same_run(text: Seq<char>, p: int, w: Seq<char>, k: int, class: CharClass)
    requires
        0 <= p,
        0 <= k <= w.len(),
        starts_with(text, p, w),
        p + w.len() < text.len(),
        !in_class(class, text[(p + w.len()) as int]),
    ensures
        run_end(text, p + k, class) == p + run_end(w, k, class),
        k <= run_end(w, k, class) <= w.len(),
    decreases w.len() - k,
{
    if k < w.len() {
        assert(text[p + k] == text.subrange(p, p + w.len())[k]);
        lemma_same_run(text, p, w, k + 1, class);
    }
}

/// A number is read the same in a script as it is alone.
#[verifier::spinoff_prover]
pub proof fn lemma_number(s: Script, ts: Seq<Token>, i: int, n: NumberLiteral<Seq<char>>)
    requires
        is_written(s, ts),
        0 <= i < ts.len(),
        is_number(s, ts[i].word, n),
    ensures
        number(s, place(ts, i)) == Ok::<(NumberLiteral<Seq<char>>, int), Fail<Seq<char>>>(
            (n, end(ts, i)),
        ),
{
    reveal(number);
    lemma_token(s, ts, i);
    let w = ts[i].word;
    let p = place(ts, i);
    let t = s.text;
    assert forall|k: int, class: CharClass|
        0 <= k <= w.len() && (class is Digit || class is HexDigit
            || class is BinaryDigit) implies #[trigger] run_end(t, p + k, class) == p + run_end(
        w,
        k,
        class,
    ) && k <= run_end(w, k, class) <= w.len() by {
        lemma_same_run(t, p, w, k, class);
    }
    assert forall|k: int, c: char|
        0 <= k <= w.len() && c != ' ' && c != '\n' implies #[trigger] is_char(t, p + k, c)
        == is_char(w, k, c) by {
        if k < w.len() {
            assert(t[p + k] == t.subrange(p, p + w.len())[k]);
        }
    }
    let k = sign_end(w, 0);
    assert(is_char(t, p + 0, '+') == is_char(w, 0, '+'));
    assert(is_char(t, p + 0, '-') == is_char(w, 0, '-'));
    assert(sign_end(t, p) == p + k);
    assert(is_char(t, p + k, '0') == is_char(w, k, '0'));
    if k < w.len() {
        assert(is_char(t, p + (k + 1), 'x') == is_char(w, k + 1, 'x'));
        assert(is_char(t, p + (k + 1), 'b') == is_char(w, k + 1, 'b'));
    }
    let (form, a, b) = digits_at(w, k);
    assert(digits_at(t, p + k) == (form, p + a, p + b)) by {
        assert(run_end(t, p + k, CharClass::Digit) == p + run_end(w, k, CharClass::Digit));
        if k + 2 <= w.len() {
            assert(run_end(t, p + (k + 2), CharClass::HexDigit) == p + run_end(
                w,
                k + 2,
                CharClass::HexDigit,
            ));
            assert(run_end(t, p + (k + 2), CharClass::BinaryDigit) == p + run_end(
                w,
                k + 2,
                CharClass::BinaryDigit,
            ));
        }
    }
    assert(a <= b <= w.len());
    assert(is_char(t, p + b, '.') == is_char(w, b, '.'));
    assert(is_char(t, p + b, 'E') == is_char(w, b, 'E'));
    assert(is_char(t, p + b, 'e') == is_char(w, b, 'e'));
    if a < b && !is_char(w, b, '.') && !is_char(w, b, 'E') && !is_char(w, b, 'e') {
        assert(t.subrange(p + a, p + b) =~= w.subrange(a, b)) by {
            assert(t.subrange(p, p + w.len()) == w);
            assert forall|j: int| a <= j < b implies t[p + j] == #[trigger] w[j] by {
                assert(t.subrange(p, p + w.len())[j] == t[p + j]);
            }
        }
    } else {
        lemma_same_float(s, p, w, k);
        assert(t.subrange(p, p + w.len()) == w);
        assert(w.subrange(0, w.len() as int) =~= w);
    }
}

#[verifier::spinoff_prover]
proof fn lemma_same_float(s: Script, p: int, w: Seq<char>, k: int)
    requires
        0 <= p,
        0 <= k <= w.len(),
        starts_with(s.text, p, w),
        p + w.len() < s.text.len(),
        s.text[(p + w.len()) as int] == ' ' || s.text[(p + w.len()) as int] == '\n',
        mantissa(alone(s, w), k) matches Ok((_, point)) && exponent_end(w, point) == w.len(),
    ensures
        mantissa(s, p + k) matches Ok((_, point)) && exponent_end(s.text, point) == p + w.len(),
{
    let t = s.text;
    assert forall|j: int| 0 <= j <= w.len() implies #[trigger] run_end(t, p + j, CharClass::Digit)
        == p + run_end(w, j, CharClass::Digit) && j <= run_end(w, j, CharClass::Digit)
        <= w.len() by {
        lemma_same_run(t, p, w, j, CharClass::Digit);
    }
    assert forall|j: int, c: char|
        0 <= j <= w.len() && c != ' ' && c != '\n' implies #[trigger] is_char(t, p + j, c)
        == is_char(w, j, c) by {
        if j < w.len() {
            assert(t[p + j] == t.subrange(p, p + w.len())[j]);
        }
    }
    assert forall|j: int| 0 <= j <= w.len() implies #[trigger] exponent_end(t, p + j) == p
        + exponent_end(w, j) by {
        assert(is_char(t, p + j, 'E') == is_char(w, j, 'E'));
        assert(is_char(t, p + j, 'e') == is_char(w, j, 'e'));
        if is_char(w, j, 'E') || is_char(w, j, 'e') {
            assert(is_char(t, p + (j + 1), '+') == is_char(w, j + 1, '+'));
            assert(is_char(t, p + (j + 1), '-') == is_char(w, j + 1, '-'));
            let start = sign_end(w, j + 1);
            assert(sign_end(t, p + j + 1) == p + start);
            assert(run_end(t, p + start, CharClass::Digit) == p + run_end(
                w,
                start,
                CharClass::Digit,
            ));
        }
    }
    let whole = run_end(w, k, CharClass::Digit);
    assert(run_end(t, p + k, CharClass::Digit) == p + whole);
    assert(is_char(t, p + k, '.') == is_char(w, k, '.'));
    if k < w.len() {
        assert(run_end(t, p + (k + 1), CharClass::Digit) == p + run_end(
            w,
            k + 1,
            CharClass::Digit,
        ));
    }
    assert(is_char(t, p + whole, '.') == is_char(w, whole, '.'));
    if whole < w.len() {
        assert(run_end(t, p + (whole + 1), CharClass::Digit) == p + run_end(
            w,
            whole + 1,
            CharClass::Digit,
        ));
    }
    assert(exponent_end(t, p + whole) == p + exponent_end(w, whole));
    if let Ok((_, point)) = mantissa(alone(s, w), k) {
        assert(0 <= point <= w.len());
        assert(exponent_end(t, p + point) == p + exponent_end(w, point));
        assert(mantissa(s, p + k) == Ok::<((), int), Fail<Seq<char>>>(((), p + point)));
    }
}

/// Digits are a number in decimal. A sign may stand before them, and a minus sign makes the number
/// negative.
pub proof fn lemma_decimal_number(s: Script, sign: Option<char>, digits: Seq<char>)
    requires
        digits.len() > 0,
        forall|i: int| 0 <= i < digits.len() ==> is_digit(#[trigger] digits[i]),
        sign matches Some(c) ==> c == '+' || c == '-',
    ensures
        is_number(
            s,
            match sign {
                Some(c) => seq![c] + digits,
                None => digits,
            },
            NumberLiteral {
                negative: sign == Some('-'),
                form: NumberForm::Decimal,
                digits,
            },
        ),
{
    reveal(number);
    let w = match sign {
        Some(c) => seq![c] + digits,
        None => digits,
    };
    let k: int = if sign is Some {
        1
    } else {
        0
    };
    let n = w.len() as int;
    assert forall|i: int| k <= i < n implies in_class(CharClass::Digit, #[trigger] w[i]) by {
        assert(w[i] == digits[i - k]);
    }
    assert(is_digit(digits[0]));
    lemma_run_exact(w, k, n, CharClass::Digit);
    assert(sign_end(w, 0) == k);
    assert(!is_char(w, k + 1, 'x') && !is_char(w, k + 1, 'b')) by {
        if k + 1 < n {
            assert(in_class(CharClass::Digit, w[k + 1]));
        }
    }
    assert(digits_at(w, k) == (NumberForm::Decimal, k, n));
    assert(w.subrange(k, n) =~= digits);
}

/// Digits with a decimal point between them are a floating-point number, which is kept as it is
/// written.
pub proof fn lemma_float_number(s: Script, negative: bool, whole: Seq<char>, fraction: Seq<char>)
    requires
        whole.len() > 0,
        forall|i: int| 0 <= i < whole.len() ==> is_digit(#[trigger] whole[i]),
        forall|i: int| 0 <= i < fraction.len() ==> is_digit(#[trigger] fraction[i]),
    ensures
        ({
            let w = if negative {
                seq!['-'] + whole + seq!['.'] + fraction
            } else {
                whole + seq!['.'] + fraction
            };
            is_number(s, w, NumberLiteral { negative, form: NumberForm::Float, digits: w })
        }),
{
    reveal(number);
    let w = if negative {
        seq!['-'] + whole + seq!['.'] + fraction
    } else {
        whole + seq!['.'] + fraction
    };
    let k: int = if negative {
        1
    } else {
        0
    };
    let point = k + whole.len();
    let n = w.len() as int;
    assert(is_digit(whole[0]));
    assert forall|i: int| k <= i < point implies in_class(CharClass::Digit, #[trigger] w[i]) by {
        assert(w[i] == whole[i - k]);
    }
    assert(w[point] == '.');
    lemma_run_exact(w, k, point, CharClass::Digit);
    assert forall|i: int| point + 1 <= i < n implies in_class(CharClass::Digit, #[trigger] w[i]) by {
        assert(w[i] == fraction[i - point - 1]);
    }
    lemma_run_exact(w, point + 1, n, CharClass::Digit);
    assert(sign_end(w, 0) == k);
    assert(!is_char(w, k + 1, 'x') && !is_char(w, k + 1, 'b')) by {
        if k + 1 < point {
            assert(in_class(CharClass::Digit, w[k + 1]));
        }
    }
    assert(digits_at(w, k) == (NumberForm::Decimal, k, point));
    assert(mantissa(alone(s, w), k) == Ok::<((), int), Fail<Seq<char>>>(((), n)));
    assert(exponent_end(w, n) == n);
    assert(w.subrange(0, n) =~= w);
}

} // verus!
