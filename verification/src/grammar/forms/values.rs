//! The forms of values: arrays and raw values.
use vstd::prelude::*;

use crate::grammar::forms::geometry::lemma_later;
use crate::grammar::laws::is_word;
use crate::grammar::tokens::{data_type, value};
use crate::grammar::values::{
    buffer, content, content_raw, content_typed, fill, fill_const, fill_series, gpuva_line,
    raw_line, raw_lines, space_value, typed_line, values_from,
};
use crate::grammar::written::{
    end, eol, is_number, is_written, lemma_end, lemma_keyword, lemma_line_end, lemma_literal,
    lemma_name, lemma_no_literal, lemma_number, lemma_space, lemma_token, lemma_uint, lemma_word,
    name_at, place, tok, Token,
};
use crate::parse_error::{Fail, IntType};
use crate::report::data_type_text;
use crate::script::{
    total_size, DirectiveView, Fill, UnresolvedValue, ValueContentView,
};
use crate::source::Script;
use crate::text::decimal_digits;
use crate::value::{DataType, Value};

verus! {

/// Whether a word is a value of a type: an integer in decimal, or a number that is kept as it is
/// written.
pub open spec fn is_value(
    s: Script,
    w: Seq<char>,
    typ: DataType,
    v: UnresolvedValue<Seq<char>>,
) -> bool {
    match v {
        UnresolvedValue::Resolved(known) => known.spec_type() == typ && !crate::value::is_float(typ)
            && w == decimal_digits(known.bits()),
        UnresolvedValue::F32(n) => typ == DataType::F32 && is_number(s, w, n),
        UnresolvedValue::F16(n) => typ == DataType::F16 && is_number(s, w, n),
        UnresolvedValue::Gpuva(_) => false,
    }
}

/// A value is read as a value of the type that it is to have.
pub proof fn lemma_value(
    s: Script,
    ts: Seq<Token>,
    i: int,
    typ: DataType,
    v: UnresolvedValue<Seq<char>>,
)
    requires
        is_written(s, ts),
        0 <= i < ts.len(),
        is_value(s, ts[i].word, typ, v),
    ensures
        value(s, place(ts, i), typ) == Ok::<(UnresolvedValue<Seq<char>>, int), Fail<Seq<char>>>(
            (v, end(ts, i)),
        ),
{
    reveal(value);
    match v {
        UnresolvedValue::Resolved(Value::U64(n)) => {
            lemma_uint(s, ts, i, n as nat, IntType::U64);
        },
        UnresolvedValue::Resolved(Value::U32(n)) => {
            lemma_uint(s, ts, i, n as nat, IntType::U32);
        },
        UnresolvedValue::Resolved(Value::U16(n)) => {
            lemma_uint(s, ts, i, n as nat, IntType::U16);
        },
        UnresolvedValue::Resolved(Value::U8(n)) => {
            lemma_uint(s, ts, i, n as nat, IntType::U8);
        },
        UnresolvedValue::F32(n) => {
            lemma_number(s, ts, i, n);
        },
        UnresolvedValue::F16(n) => {
            lemma_number(s, ts, i, n);
        },
        _ => {},
    }
}

/// The name of a data type is read as that type.
pub proof fn lemma_data_type(s: Script, ts: Seq<Token>, i: int, typ: DataType)
    requires
        is_written(s, ts),
        0 <= i < ts.len(),
        ts[i].word == data_type_text(typ),
    ensures
        data_type(s, place(ts, i)) == Ok::<(DataType, int), Fail<Seq<char>>>(
            (typ, end(ts, i)),
        ),
        is_word(ts[i].word),
{
    reveal(data_type);
    reveal_strlit("uint64");
    reveal_strlit("uint32");
    reveal_strlit("uint16");
    reveal_strlit("uint8");
    reveal_strlit("float");
    reveal_strlit("float16");
    assert(is_word(data_type_text(typ)));
    assert("uint64"@[4] == '6' && "uint32"@[4] == '3' && "uint16"@[4] == '1');
    lemma_word(s, ts, i);
}

proof fn lemma_space_value(
    s: Script,
    ts: Seq<Token>,
    i: int,
    typ: DataType,
    v: UnresolvedValue<Seq<char>>,
)
    requires
        is_written(s, ts),
        0 < i < ts.len(),
        !ts[i - 1].last,
        is_value(s, ts[i].word, typ, v),
    ensures
        space_value(s, end(ts, i - 1), typ) == Ok::<
            (UnresolvedValue<Seq<char>>, int),
            Fail<Seq<char>>,
        >((v, end(ts, i))),
{
    reveal(space_value);
    lemma_space(s, ts, i - 1);
    lemma_value(s, ts, i, typ, v);
}

/// Whether the words from `i` on say how an array is filled, up to the end of their line.
pub open spec fn is_fill(
    s: Script,
    ts: Seq<Token>,
    i: int,
    typ: DataType,
    f: Fill<UnresolvedValue<Seq<char>>>,
) -> bool {
    &&& 0 <= i
    &&& match f {
        Fill::Const(v) => i + 2 <= ts.len() && ts[i] == tok("FILL"@) && is_value(
            s,
            ts[i + 1].word,
            typ,
            v,
        ) && ts[i + 1].last,
        Fill::Series { from, increment } => i + 4 <= ts.len() && ts[i] == tok("SERIES_FROM"@)
            && is_value(s, ts[i + 1].word, typ, from) && !ts[i + 1].last && ts[i + 2] == tok(
            "INC_BY"@,
        ) && is_value(s, ts[i + 3].word, typ, increment) && ts[i + 3].last,
    }
}

/// The words that say how an array is filled.
pub open spec fn fill_len(f: Fill<UnresolvedValue<Seq<char>>>) -> int {
    match f {
        Fill::Const(_) => 2,
        Fill::Series { .. } => 4,
    }
}

/// An array is filled with the value, or with the series, that is written.
pub proof fn lemma_fill(
    s: Script,
    ts: Seq<Token>,
    i: int,
    typ: DataType,
    f: Fill<UnresolvedValue<Seq<char>>>,
)
    requires
        is_written(s, ts),
        is_fill(s, ts, i, typ, f),
    ensures
        fill(s, place(ts, i), typ) == Ok::<(Fill<UnresolvedValue<Seq<char>>>, int), Fail<Seq<char>>>(
            (f, end(ts, i + fill_len(f) - 1)),
        ),
{
    reveal(fill);
    reveal(fill_const);
    reveal(fill_series);
    reveal_strlit("FILL");
    reveal_strlit("SERIES_FROM");
    lemma_word(s, ts, i);
    match f {
        Fill::Const(v) => {
            lemma_space_value(s, ts, i + 1, typ, v);
        },
        Fill::Series { from, increment } => {
            lemma_space_value(s, ts, i + 1, typ, from);
            lemma_keyword(s, ts, i + 2);
            lemma_value(s, ts, i + 3, typ, increment);
        },
    }
}

/// A line of raw values: values of a type, or the address of a buffer.
pub enum RawForm {
    Values { typ: DataType, values: Seq<UnresolvedValue<Seq<char>>> },
    Gpuva,
}

/// The words of a line of raw values.
pub open spec fn raw_len(f: RawForm) -> int {
    match f {
        RawForm::Values { values, .. } => 1int + values.len(),
        RawForm::Gpuva => 2,
    }
}

/// Whether a line of raw values stands at the word `i`.
pub open spec fn is_raw_line(s: Script, ts: Seq<Token>, i: int, f: RawForm) -> bool {
    &&& 0 <= i
    &&& i + raw_len(f) <= ts.len()
    &&& match f {
        RawForm::Values { typ, values } => values.len() > 0 && ts[i] == tok(data_type_text(typ))
            && forall|k: int|
            0 <= k < values.len() ==> is_value(s, ts[i + 1 + k].word, typ, #[trigger] values[k])
                && ts[i + 1 + k].last == (k == values.len() - 1),
        RawForm::Gpuva => ts[i] == tok("GPUVA"@) && is_word(ts[i + 1].word) && ts[i + 1].last,
    }
}

/// The values of a line at the word `i`.
pub open spec fn raw_values(s: Script, ts: Seq<Token>, i: int, f: RawForm) -> Seq<
    UnresolvedValue<Seq<char>>,
> {
    match f {
        RawForm::Values { values, .. } => values,
        RawForm::Gpuva => seq![UnresolvedValue::Gpuva(name_at(s, ts, i + 1))],
    }
}

proof fn lemma_values_from(
    s: Script,
    ts: Seq<Token>,
    i: int,
    typ: DataType,
    values: Seq<UnresolvedValue<Seq<char>>>,
    k: int,
)
    requires
        is_written(s, ts),
        is_raw_line(s, ts, i, RawForm::Values { typ, values }),
        0 < k <= values.len(),
    ensures
        values_from(s, end(ts, i + k), typ, values.take(k)) == Ok::<
            (Seq<UnresolvedValue<Seq<char>>>, int),
            Fail<Seq<char>>,
        >((values, end(ts, i + values.len()))),
    decreases values.len() - k,
{
    assert(is_value(s, ts[i + 1 + (k - 1)].word, typ, values[k - 1]));
    if k < values.len() {
        assert(is_value(s, ts[i + 1 + k].word, typ, values[k]));
        lemma_space_value(s, ts, i + 1 + k, typ, values[k]);
        lemma_token(s, ts, i + k);
        lemma_token(s, ts, i + k + 1);
        assert(values.take(k).push(values[k]) =~= values.take(k + 1));
        lemma_values_from(s, ts, i, typ, values, k + 1);
    } else {
        reveal(space_value);
        lemma_line_end(s, ts, i + k);
        assert(values.take(k) =~= values);
    }
}

/// A line of raw values gives the values that are written in it, in their order.
pub proof fn lemma_raw_line(s: Script, ts: Seq<Token>, i: int, f: RawForm)
    requires
        is_written(s, ts),
        is_raw_line(s, ts, i, f),
    ensures
        raw_line(s, place(ts, i)) == Ok::<
            (Seq<UnresolvedValue<Seq<char>>>, int),
            Fail<Seq<char>>,
        >((raw_values(s, ts, i, f), place(ts, i + raw_len(f)))),
{
    reveal(raw_line);
    reveal(gpuva_line);
    reveal(typed_line);
    reveal_strlit("GPUVA");
    match f {
        RawForm::Values { typ, values } => {
            lemma_data_type(s, ts, i, typ);
            assert(ts[i].word[0] != 'G') by {
                reveal_strlit("uint64");
                reveal_strlit("uint32");
                reveal_strlit("uint16");
                reveal_strlit("uint8");
                reveal_strlit("float");
                reveal_strlit("float16");
            }
            assert("GPUVA"@[0] == 'G');
            assert(ts[i].word.len() >= 5 ==> ts[i].word.take(5)[0] == ts[i].word[0]);
            lemma_no_literal(s, ts, i, "GPUVA"@);
            assert(is_value(s, ts[i + 1 + 0].word, typ, values[0]));
            lemma_space_value(s, ts, i + 1, typ, values[0]);
            let none = Seq::<UnresolvedValue<Seq<char>>>::empty();
            assert(none.push(values[0]) =~= values.take(1));
            lemma_values_from(s, ts, i, typ, values, 1);
            assert(values[values.len() - 1] == values.last());
            lemma_line_end(s, ts, i + values.len());
        },
        RawForm::Gpuva => {
            lemma_literal(s, ts, i);
            lemma_name(s, ts, i + 1);
            lemma_line_end(s, ts, i + 1);
            let none = Seq::<UnresolvedValue<Seq<char>>>::empty();
            assert(none.push(UnresolvedValue::Gpuva(name_at(s, ts, i + 1))) =~= raw_values(
                s,
                ts,
                i,
                f,
            ));
        },
    }
}

/// What is written of a content.
pub enum ContentForm {
    Typed { typ: DataType, count: u64, fill: Fill<UnresolvedValue<Seq<char>>> },
    Raw { size: u64, lines: Seq<RawForm> },
}

/// The words of the first `k` lines of raw values.
pub open spec fn raw_lines_len(lines: Seq<RawForm>, k: int) -> int
    decreases k,
{
    if k <= 0 {
        0
    } else {
        raw_lines_len(lines, k - 1) + raw_len(lines[k - 1])
    }
}

/// The values of the first `k` lines that stand from the word `i` on.
pub open spec fn raw_lines_values(
    s: Script,
    ts: Seq<Token>,
    i: int,
    lines: Seq<RawForm>,
    k: int,
) -> Seq<UnresolvedValue<Seq<char>>>
    decreases k,
{
    if k <= 0 {
        Seq::empty()
    } else {
        raw_lines_values(s, ts, i, lines, k - 1) + raw_values(
            s,
            ts,
            i + raw_lines_len(lines, k - 1),
            lines[k - 1],
        )
    }
}

/// Whether a content stands at the word `i`.
pub open spec fn is_content(s: Script, ts: Seq<Token>, i: int, f: ContentForm) -> bool {
    &&& 0 <= i
    &&& match f {
        ContentForm::Typed { typ, count, fill } => i + 4 <= ts.len() && ts[i] == tok("DATA_TYPE"@)
            && ts[i + 1] == tok(data_type_text(typ)) && ts[i + 2] == tok("SIZE"@) && ts[i + 3]
            == tok(decimal_digits(count as nat)) && is_fill(s, ts, i + 4, typ, fill),
        ContentForm::Raw { size, lines } => {
            let e = i + 2 + raw_lines_len(lines, lines.len() as int);
            &&& i + 2 <= ts.len()
            &&& ts[i] == tok("RAW"@)
            &&& ts[i + 1] == eol(decimal_digits(size as nat))
            &&& forall|k: int|
                0 <= k < lines.len() ==> is_raw_line(
                    s,
                    ts,
                    i + 2 + raw_lines_len(lines, k),
                    #[trigger] lines[k],
                )
            &&& 0 <= e < ts.len()
            &&& ts[e] == eol("END"@)
            &&& total_size(raw_lines_values(s, ts, i + 2, lines, lines.len() as int)) <= size
        },
    }
}

/// The words of a content.
pub open spec fn content_len(f: ContentForm) -> int {
    match f {
        ContentForm::Typed { fill, .. } => 4 + fill_len(fill),
        ContentForm::Raw { lines, .. } => 3 + raw_lines_len(lines, lines.len() as int),
    }
}

/// The content that stands at the word `i`.
pub open spec fn content_of(s: Script, ts: Seq<Token>, i: int, f: ContentForm) -> ValueContentView {
    match f {
        ContentForm::Typed { typ, count, fill } => ValueContentView::Typed {
            typ,
            element_count: count,
            fill,
        },
        ContentForm::Raw { size, lines } => ValueContentView::Raw {
            size,
            values: raw_lines_values(s, ts, i + 2, lines, lines.len() as int),
        },
    }
}

proof fn lemma_raw_lines(
    s: Script,
    ts: Seq<Token>,
    i: int,
    size: u64,
    lines: Seq<RawForm>,
    k: int,
)
    requires
        is_written(s, ts),
        is_content(s, ts, i, ContentForm::Raw { size, lines }),
        0 <= k <= lines.len(),
    ensures
        raw_lines(
            s,
            place(ts, i + 2 + raw_lines_len(lines, k)),
            raw_lines_values(s, ts, i + 2, lines, k),
        ) == Ok::<(Seq<UnresolvedValue<Seq<char>>>, int), Fail<Seq<char>>>(
            (
                raw_lines_values(s, ts, i + 2, lines, lines.len() as int),
                place(ts, i + 2 + raw_lines_len(lines, lines.len() as int)),
            ),
        ),
    decreases lines.len() - k,
{
    let at = i + 2 + raw_lines_len(lines, k);
    if k < lines.len() {
        assert(is_raw_line(s, ts, at, lines[k]));
        lemma_raw_line(s, ts, at, lines[k]);
        lemma_later(s, ts, at, at + raw_len(lines[k]));
        lemma_raw_lines(s, ts, i, size, lines, k + 1);
    } else {
        reveal(raw_line);
        reveal(gpuva_line);
        reveal(typed_line);
        reveal(data_type);
        reveal_strlit("GPUVA");
        reveal_strlit("END");
        reveal_strlit("uint64");
        reveal_strlit("uint32");
        reveal_strlit("uint16");
        reveal_strlit("uint8");
        reveal_strlit("float");
        reveal_strlit("float16");
        lemma_end(s, ts, at);
        lemma_no_literal(s, ts, at, "GPUVA"@);
    }
}

/// A content is the array, or the raw values, that are written.
#[verifier::spinoff_prover]
pub proof fn lemma_content_form(s: Script, ts: Seq<Token>, i: int, f: ContentForm)
    requires
        is_written(s, ts),
        is_content(s, ts, i, f),
    ensures
        content(s, place(ts, i)) == Ok::<(ValueContentView, int), Fail<Seq<char>>>(
            (content_of(s, ts, i, f), place(ts, i + content_len(f))),
        ),
{
    reveal(content);
    reveal_strlit("DATA_TYPE");
    reveal_strlit("RAW");
    lemma_word(s, ts, i);
    lemma_space(s, ts, i);
    match f {
        ContentForm::Typed { typ, count, fill } => {
            reveal(content_typed);
            lemma_data_type(s, ts, i + 1, typ);
            lemma_keyword(s, ts, i + 2);
            lemma_uint(s, ts, i + 3, count as nat, IntType::U64);
            lemma_space(s, ts, i + 3);
            lemma_fill(s, ts, i + 4, typ, fill);
            lemma_line_end(s, ts, i + 4 + fill_len(fill) - 1);
        },
        ContentForm::Raw { size, lines } => {
            reveal(content_raw);
            lemma_uint(s, ts, i + 1, size as nat, IntType::U64);
            lemma_line_end(s, ts, i + 1);
            lemma_raw_lines(s, ts, i, size, lines, 0);
            lemma_end(s, ts, i + 2 + raw_lines_len(lines, lines.len() as int));
        },
    }
}

/// A BUFFER statement has the name and the content that are written in it.
pub proof fn lemma_buffer_form(s: Script, ts: Seq<Token>, i: int, f: ContentForm)
    requires
        is_written(s, ts),
        0 <= i,
        i + 2 <= ts.len(),
        ts[i] == tok("BUFFER"@),
        is_word(ts[i + 1].word) && !ts[i + 1].last,
        is_content(s, ts, i + 2, f),
    ensures
        buffer(s, end(ts, i)) == Ok::<(DirectiveView, int), Fail<Seq<char>>>(
            (
                DirectiveView::Buffer {
                    name: name_at(s, ts, i + 1),
                    content: content_of(s, ts, i + 2, f),
                },
                place(ts, i + 2 + content_len(f)),
            ),
        ),
{
    reveal(buffer);
    lemma_name(s, ts, i + 1);
    lemma_space(s, ts, i + 1);
    lemma_content_form(s, ts, i + 2, f);
}

} // verus!
