//! The text of a script, positions in it, and things that know where they were written.
use vstd::prelude::*;
use vstd::string::*;
use vstd::utf8::*;

verus! {

/// Number of a script file, counted in the order in which the files were read.
#[derive(Clone, Copy, Debug, Default, Eq, Hash, Ord, PartialEq, PartialOrd, Structural)]
pub struct SourceFileIdx(pub usize);

/// A range of bytes in the text of a script, without the byte at `end`.
#[derive(Clone, Copy, Debug, Default, Eq, Hash, PartialEq, Structural)]
pub struct Span {
    pub start: usize,
    pub end: usize,
}

impl DeepView for Span {
    type V = Span;

    open spec fn deep_view(&self) -> Span {
        *self
    }
}

/// Something together with the place where it was written.
#[derive(Clone, Debug, Default, Eq, Hash, PartialEq)]
pub struct SpanObj<T> {
    pub content: T,
    pub source_file: SourceFileIdx,
    pub span: Span,
}

/// A name in a script.
pub type Identifier = SpanObj<String>;

/// A name in a script, with its text as a sequence of characters.
pub type IdentifierView = SpanObj<Seq<char>>;

impl<T: DeepView> DeepView for SpanObj<T> {
    type V = SpanObj<T::V>;

    open spec fn deep_view(&self) -> SpanObj<T::V> {
        SpanObj {
            content: self.content.deep_view(),
            source_file: self.source_file,
            span: self.span,
        }
    }
}

impl<T> SpanObj<T> {
    /// Something else at the same place.
    pub fn map_content<U>(&self, u: U) -> (r: SpanObj<U>)
        ensures
            r == (SpanObj { content: u, source_file: self.source_file, span: self.span }),
    {
        SpanObj { content: u, source_file: self.source_file, span: self.span }
    }
}

/// A copy of an identifier.
pub fn copy_identifier(id: &Identifier) -> (copy: Identifier)
    ensures
        copy == *id,
{
    SpanObj { content: id.content.clone(), source_file: id.source_file, span: id.span }
}

/// How often `x` occurs in a sequence.
pub open spec fn occurrences<T>(s: Seq<T>, x: T) -> nat
    decreases s.len(),
{
    if s.len() == 0 {
        0
    } else {
        occurrences(s.drop_last(), x) + if s.last() == x {
            1nat
        } else {
            0nat
        }
    }
}

/// The number of bytes that the first `i` characters of a text take in UTF-8.
pub open spec fn byte_offset(text: Seq<char>, i: int) -> int {
    encode_utf8(text.take(i)).len() as int
}

proof fn lemma_encode_concat(a: Seq<char>, b: Seq<char>)
    ensures
        encode_utf8(a + b) == encode_utf8(a) + encode_utf8(b),
    decreases a.len(),
{
    if a.len() == 0 {
        assert(a + b =~= b);
        assert(encode_utf8(a) + encode_utf8(b) =~= encode_utf8(b));
    } else {
        lemma_encode_concat(a.drop_first(), b);
        assert((a + b).drop_first() =~= a.drop_first() + b);
        assert((a + b)[0] == a[0]);
        let head = encode_scalar(a[0] as u32);
        assert(head + (encode_utf8(a.drop_first()) + encode_utf8(b)) =~= (head + encode_utf8(
            a.drop_first(),
        )) + encode_utf8(b));
    }
}

proof fn lemma_encode_one(c: char)
    ensures
        encode_utf8(seq![c]) == encode_scalar(c as u32),
{
    let s = seq![c];
    assert(s.drop_first() =~= Seq::<char>::empty());
    assert(encode_utf8(s.drop_first()) =~= Seq::<u8>::empty());
    assert(encode_scalar(c as u32) + Seq::<u8>::empty() =~= encode_scalar(c as u32));
}

proof fn lemma_byte_offset_step(text: Seq<char>, i: int)
    requires
        0 <= i < text.len(),
    ensures
        byte_offset(text, i + 1) == byte_offset(text, i) + encode_scalar(text[i] as u32).len(),
{
    assert(text.take(i + 1) =~= text.take(i) + seq![text[i]]);
    lemma_encode_concat(text.take(i), seq![text[i]]);
    lemma_encode_one(text[i]);
}

proof fn lemma_byte_offset_bound(text: Seq<char>, i: int)
    requires
        0 <= i <= text.len(),
    ensures
        0 <= byte_offset(text, i) <= encode_utf8(text).len(),
        encode_utf8(text).take(byte_offset(text, i)) == encode_utf8(text.take(i)),
{
    assert(text =~= text.take(i) + text.skip(i));
    lemma_encode_concat(text.take(i), text.skip(i));
    assert(encode_utf8(text).take(byte_offset(text, i)) =~= encode_utf8(text.take(i)));
}

proof fn lemma_occurrences_concat<T>(a: Seq<T>, b: Seq<T>, x: T)
    ensures
        occurrences(a + b, x) == occurrences(a, x) + occurrences(b, x),
    decreases b.len(),
{
    if b.len() == 0 {
        assert(a + b =~= a);
    } else {
        assert((a + b).drop_last() =~= a + b.drop_last());
        lemma_occurrences_concat(a, b.drop_last(), x);
    }
}

proof fn lemma_scalar_newlines(c: char)
    ensures
        occurrences(encode_scalar(c as u32), 10u8) == if c == '\n' {
            1nat
        } else {
            0nat
        },
{
    broadcast use char_is_scalar;

    reveal_with_fuel(occurrences, 5);
    let v = c as u32;
    assert(is_scalar(v));
    assert(has_width_1_encoding(v) ==> (leading_byte_width_1(v) == 10u8) == (v == 10u32))
        by (bit_vector);
    assert(is_scalar(v) && has_width_2_encoding(v) ==> leading_byte_width_2(v) != 10u8)
        by (bit_vector);
    assert(is_scalar(v) && has_width_3_encoding(v) ==> leading_byte_width_3(v) != 10u8)
        by (bit_vector);
    assert(is_scalar(v) && has_width_4_encoding(v) ==> leading_byte_width_4(v) != 10u8)
        by (bit_vector);
    assert(last_continuation_byte(v) != 10u8) by (bit_vector);
    assert(second_last_continuation_byte(v) != 10u8) by (bit_vector);
    assert(third_last_continuation_byte(v) != 10u8) by (bit_vector);
    let e = encode_scalar(v);
    if e.len() >= 2 {
        assert(e.drop_last().last() == e[e.len() - 2]);
    }
    if e.len() >= 3 {
        assert(e.drop_last().drop_last().last() == e[e.len() - 3]);
    }
    if e.len() >= 4 {
        assert(e.drop_last().drop_last().drop_last().last() == e[e.len() - 4]);
    }
}

/// The line feeds of a text are the bytes 10 of its UTF-8 encoding.
pub proof fn lemma_newline_bytes(text: Seq<char>)
    ensures
        occurrences(encode_utf8(text), 10u8) == occurrences(text, '\n'),
    decreases text.len(),
{
    if text.len() > 0 {
        let rest = text.drop_last();
        lemma_newline_bytes(rest);
        assert(text =~= rest + seq![text.last()]);
        lemma_encode_concat(rest, seq![text.last()]);
        lemma_encode_one(text.last());
        lemma_scalar_newlines(text.last());
        lemma_occurrences_concat(encode_utf8(rest), encode_scalar(text.last() as u32), 10u8);
    }
}

/// `memchr::memchr_iter` over the first `end` bytes, counted: how many of them are the byte
/// `needle`.
#[verifier::external_body]
fn count_byte(needle: u8, bytes: &[u8], end: usize) -> (count: usize)
    requires
        end <= bytes@.len(),
    ensures
        count == occurrences(bytes@.take(end as int), needle),
{
    memchr::memchr_iter(needle, &bytes[..end]).count()
}

/// The number of bytes that a character takes in UTF-8.
fn utf8_len(c: char) -> (len: usize)
    ensures
        len == encode_scalar(c as u32).len(),
{
    let v: u32 = c as u32;
    proof {
        broadcast use char_is_scalar;

    }
    if v < 0x80 {
        1
    } else if v < 0x800 {
        2
    } else if v < 0x10000 {
        3
    } else {
        4
    }
}

/// The text of a script and the number of its file.
pub struct Script {
    pub text: Seq<char>,
    pub file: SourceFileIdx,
}

impl Script {
    /// The bytes of the characters from `start` up to `end`.
    pub open spec fn span(self, start: int, end: int) -> Span {
        Span {
            start: byte_offset(self.text, start) as usize,
            end: byte_offset(self.text, end) as usize,
        }
    }

    /// `content`, written from the character `start` up to the character `end`.
    pub open spec fn object<T>(self, content: T, start: int, end: int) -> SpanObj<T> {
        SpanObj { content, source_file: self.file, span: self.span(start, end) }
    }
}

/// The text of a script, prepared for reading it character by character.
pub struct Source<'a> {
    text: &'a str,
    chars: Vec<char>,
    /// The byte offset of each character, and of the end.
    offsets: Vec<usize>,
    file: SourceFileIdx,
}

impl<'a> View for Source<'a> {
    type V = Script;

    closed spec fn view(&self) -> Script {
        Script { text: self.text@, file: self.file }
    }
}

impl<'a> Source<'a> {
    /// The characters are those of the text, and the offsets are theirs.
    pub closed spec fn wf(&self) -> bool {
        &&& self.chars@ == self.text@
        &&& self.offsets@.len() == self.chars@.len() + 1
        &&& encode_utf8(self.text@).len() <= usize::MAX
        &&& forall|i: int|
            0 <= i <= self.chars@.len() ==> #[trigger] self.offsets@[i] == byte_offset(
                self.text@,
                i,
            )
    }

    /// Prepares the text of the file `file`.
    pub fn new(text: &'a str, file: SourceFileIdx) -> (source: Source<'a>)
        ensures
            source.wf(),
            source@ == (Script { text: text@, file }),
    {
        let total: usize = text.as_bytes().len();
        let mut chars: Vec<char> = Vec::new();
        let mut offsets: Vec<usize> = Vec::new();
        offsets.push(0);
        let mut at: usize = 0;
        proof {
            assert(text@.take(0) =~= Seq::<char>::empty());
            assert(byte_offset(text@, 0) == 0);
        }
        for c in iter: text.chars()
            invariant
                iter.seq() == text@,
                chars@ == text@.take(iter.index() as int),
                offsets@.len() == iter.index() + 1,
                at == byte_offset(text@, iter.index() as int),
                total == encode_utf8(text@).len(),
                forall|i: int|
                    0 <= i <= iter.index() ==> #[trigger] offsets@[i] == byte_offset(text@, i),
        {
            let ghost i = iter.index() as int;
            proof {
                assert(c == text@[i]);
                lemma_byte_offset_step(text@, i);
                lemma_byte_offset_bound(text@, i + 1);
            }
            at = at + utf8_len(c);
            chars.push(c);
            offsets.push(at);
            assert(chars@ =~= text@.take(i + 1));
        }
        assert(text@.take(text@.len() as int) =~= text@);
        Source { text, chars, offsets, file }
    }

    /// The number of characters.
    pub fn len(&self) -> (n: usize)
        requires
            self.wf(),
        ensures
            n == self@.text.len(),
    {
        self.chars.len()
    }

    /// The character at a position.
    pub fn char_at(&self, i: usize) -> (c: char)
        requires
            self.wf(),
            i < self@.text.len(),
        ensures
            c == self@.text[i as int],
    {
        self.chars[i]
    }

    /// The number of the file.
    pub fn file(&self) -> (file: SourceFileIdx)
        ensures
            file == self@.file,
    {
        self.file
    }

    /// The byte offset of a character, or of the end of the text.
    pub fn offset(&self, i: usize) -> (offset: usize)
        requires
            self.wf(),
            i <= self@.text.len(),
        ensures
            offset == byte_offset(self@.text, i as int),
    {
        self.offsets[i]
    }

    /// The bytes of the characters from `start` up to `end`.
    pub fn span(&self, start: usize, end: usize) -> (span: Span)
        requires
            self.wf(),
            start <= end <= self@.text.len(),
        ensures
            span == self@.span(start as int, end as int),
    {
        Span { start: self.offset(start), end: self.offset(end) }
    }

    /// The characters from `start` up to `end`.
    pub fn slice(&self, start: usize, end: usize) -> (text: String)
        requires
            self.wf(),
            start <= end <= self@.text.len(),
        ensures
            text@ == self@.text.subrange(start as int, end as int),
    {
        let mut text = String::new();
        let mut i: usize = start;
        while i < end
            invariant
                self.wf(),
                start <= i <= end <= self@.text.len(),
                text@ == self@.text.subrange(start as int, i as int),
            decreases end - i,
        {
            text.push(self.char_at(i));
            i += 1;
            assert(text@ =~= self@.text.subrange(start as int, i as int));
        }
        text
    }

    /// The number of line feeds before a position.
    pub fn lines_before(&self, i: usize) -> (count: usize)
        requires
            self.wf(),
            i <= self@.text.len(),
        ensures
            count == occurrences(self@.text.take(i as int), '\n'),
    {
        proof {
            lemma_byte_offset_bound(self.text@, i as int);
            lemma_newline_bytes(self.text@.take(i as int));
        }
        count_byte(10, self.text.as_bytes(), self.offset(i))
    }
}

/// The bytes of a span are those of the characters in it.
pub proof fn lemma_span_in_text(s: Script, start: int, end: int)
    requires
        0 <= start <= end <= s.text.len(),
        encode_utf8(s.text).len() <= usize::MAX,
    ensures
        s.span(start, end).start == byte_offset(s.text, start),
        s.span(start, end).end == byte_offset(s.text, end),
        start < end ==> s.span(start, end).start < s.span(start, end).end,
        s.span(start, end).start <= s.span(start, end).end <= encode_utf8(s.text).len(),
        encode_utf8(s.text).subrange(byte_offset(s.text, start), byte_offset(s.text, end))
            == encode_utf8(s.text.subrange(start, end)),
{
    lemma_byte_offset_bound(s.text, start);
    lemma_byte_offset_bound(s.text, end);
    let a = s.text.take(start);
    let b = s.text.subrange(start, end);
    let c = s.text.skip(end);
    assert(s.text.take(end) =~= a + b);
    assert(s.text =~= a + b + c);
    lemma_encode_concat(a, b);
    lemma_encode_concat(a + b, c);
    assert(encode_utf8(s.text).subrange(byte_offset(s.text, start), byte_offset(s.text, end))
        =~= encode_utf8(b));
    if start < end {
        lemma_byte_offset_step(s.text, start);
        lemma_byte_offset_bound(s.text.take(end), start + 1);
        assert(s.text.take(end).take(start + 1) =~= s.text.take(start + 1));
        broadcast use char_is_scalar;

        assert(encode_scalar(s.text[start] as u32).len() > 0);
    }
}

/// `content`, written from the character `start` up to the character `end`.
pub fn span_obj<T>(source: &Source, content: T, start: usize, end: usize) -> (object: SpanObj<T>)
    requires
        source.wf(),
        start <= end <= source@.text.len(),
    ensures
        object == source@.object(content, start as int, end as int),
{
    SpanObj { content, source_file: source.file(), span: source.span(start, end) }
}

} // verus!
