//! The content of buffers and root constants: from values in a script to bytes.
use vstd::prelude::*;

use crate::script::{
    total_size, unresolved_type, Fill, UnresolvedValue, UnresolvedValueContent,
    ValueContentView,
};
use crate::value::{
    is_float, le_bytes, le_number, le_range, lemma_le_bytes_len, lemma_value_in_range,
    lemma_value_round_trip, lemma_values_bytes_at, lemma_values_bytes_len, push_le, values_bytes,
    values_size, DataType, Value, Values,
};

verus! {

/// Content whose values are all known.
#[derive(Clone, Debug, Eq, Hash, PartialEq)]
pub enum ValueContent {
    Typed { typ: DataType, element_count: u64, fill: Fill<Value> },
    Raw { size: u64, values: Values },
}

/// The view of `ValueContent`.
pub enum ResolvedContent {
    Typed { typ: DataType, element_count: u64, fill: Fill<Value> },
    Raw { size: u64, values: Seq<Value> },
}

impl View for ValueContent {
    type V = ResolvedContent;

    open spec fn view(&self) -> ResolvedContent {
        match self {
            ValueContent::Typed { typ, element_count, fill } => ResolvedContent::Typed {
                typ: *typ,
                element_count: *element_count,
                fill: *fill,
            },
            ValueContent::Raw { size, values } => ResolvedContent::Raw {
                size: *size,
                values: values@,
            },
        }
    }
}

/// The values that are written in a content.
pub open spec fn written_values(content: ValueContentView) -> Seq<UnresolvedValue<Seq<char>>> {
    match content {
        ValueContentView::Typed { fill, .. } => match fill {
            Fill::Series { from, increment } => seq![from, increment],
            Fill::Const(v) => seq![v],
        },
        ValueContentView::Raw { values, .. } => values,
    }
}

/// Whether the values that fill an array are of the type of its elements, and raw values take no
/// more bytes than there are.
pub open spec fn fill_matches(content: ValueContentView) -> bool {
    match content {
        ValueContentView::Typed { typ, fill, .. } => match fill {
            Fill::Series { from, increment } => unresolved_type(from) == typ && unresolved_type(
                increment,
            ) == typ,
            Fill::Const(v) => unresolved_type(v) == typ,
        },
        ValueContentView::Raw { size, values } => total_size(values) <= size,
    }
}

/// The same, of known values.
pub open spec fn resolved_fill_matches(content: ResolvedContent) -> bool {
    match content {
        ResolvedContent::Typed { typ, fill, .. } => match fill {
            Fill::Series { from, increment } => from.spec_type() == typ && increment.spec_type()
                == typ,
            Fill::Const(v) => v.spec_type() == typ,
        },
        ResolvedContent::Raw { size, values } => values_size(values) <= size,
    }
}

/// The bytes that a content takes.
pub open spec fn content_size(content: ValueContentView) -> nat {
    match content {
        ValueContentView::Typed { typ, element_count, .. } => typ.size() * element_count as nat,
        ValueContentView::Raw { size, .. } => size as nat,
    }
}

/// The bytes that a content takes.
pub open spec fn resolved_size(content: ResolvedContent) -> nat {
    match content {
        ResolvedContent::Typed { typ, element_count, .. } => typ.size() * element_count as nat,
        ResolvedContent::Raw { size, .. } => size as nat,
    }
}

/// A value, where `answer` gives its bits if the script does not.
pub open spec fn resolved(v: UnresolvedValue<Seq<char>>, answer: u64) -> Value {
    match v {
        UnresolvedValue::Resolved(v) => v,
        UnresolvedValue::F32(_) => Value::F32(answer as u32),
        UnresolvedValue::F16(_) => Value::F16(answer as u16),
        UnresolvedValue::Gpuva(_) => Value::U64(answer),
    }
}

/// Whether `answer` can be the bits of a value.
pub open spec fn answer_fits(v: UnresolvedValue<Seq<char>>, answer: u64) -> bool {
    match v {
        UnresolvedValue::F32(_) => answer <= 0xffff_ffff,
        UnresolvedValue::F16(_) => answer <= 0xffff,
        _ => true,
    }
}

/// Whether there is an answer for each value.
pub open spec fn answers_fit(values: Seq<UnresolvedValue<Seq<char>>>, answers: Seq<u64>) -> bool {
    &&& answers.len() == values.len()
    &&& forall|i: int| 0 <= i < values.len() ==> answer_fits(#[trigger] values[i], answers[i])
}

/// Values, each with its answer.
pub open spec fn resolved_values(
    values: Seq<UnresolvedValue<Seq<char>>>,
    answers: Seq<u64>,
) -> Seq<Value> {
    Seq::new(values.len(), |i: int| resolved(values[i], answers[i]))
}

/// A content, each of its values with its answer.
pub open spec fn resolved_content(content: ValueContentView, answers: Seq<u64>) -> ResolvedContent {
    match content {
        ValueContentView::Typed { typ, element_count, fill } => ResolvedContent::Typed {
            typ,
            element_count,
            fill: match fill {
                Fill::Series { from, increment } => Fill::Series {
                    from: resolved(from, answers[0]),
                    increment: resolved(increment, answers[1]),
                },
                Fill::Const(v) => Fill::Const(resolved(v, answers[0])),
            },
        },
        ValueContentView::Raw { size, values } => ResolvedContent::Raw {
            size,
            values: resolved_values(values, answers),
        },
    }
}

/// The bytes of an element of an array. The elements of a series of floating-point numbers are
/// known from `float_series`.
pub open spec fn element(fill: Fill<Value>, i: int, float_series: Seq<u64>) -> Seq<u8> {
    match fill {
        Fill::Series { from, increment } => if is_float(from.spec_type()) {
            le_bytes(float_series[i] as nat, from.spec_type().size())
        } else {
            le_bytes((from.bits() + increment.bits() * i) as nat, from.spec_type().size())
        },
        Fill::Const(v) => v.bytes(),
    }
}

/// The bytes of the first `n` elements of an array.
pub open spec fn array_bytes(fill: Fill<Value>, n: nat, float_series: Seq<u64>) -> Seq<u8>
    decreases n,
{
    if n == 0 {
        Seq::empty()
    } else {
        array_bytes(fill, (n - 1) as nat, float_series) + element(fill, n - 1, float_series)
    }
}

/// Bytes with zeros behind them, up to `size` bytes.
pub open spec fn zero_padded(bytes: Seq<u8>, size: nat) -> Seq<u8> {
    if bytes.len() < size {
        bytes + Seq::new((size - bytes.len()) as nat, |i: int| 0u8)
    } else {
        bytes
    }
}

/// The bytes of a content. Behind raw values there are zeros.
pub open spec fn content_bytes(content: ResolvedContent, float_series: Seq<u64>) -> Seq<u8> {
    match content {
        ResolvedContent::Typed { element_count, fill, .. } => array_bytes(
            fill,
            element_count as nat,
            float_series,
        ),
        ResolvedContent::Raw { size, values } => zero_padded(values_bytes(values), size as nat),
    }
}

/// Whether the elements of an array are a series of floating-point numbers.
pub open spec fn is_float_series(content: ResolvedContent) -> bool {
    content matches ResolvedContent::Typed { fill: Fill::Series { from, .. }, .. } && is_float(
        from.spec_type(),
    )
}

/// Each element of an array takes the bytes of its type.
pub proof fn lemma_array_bytes_len(fill: Fill<Value>, n: nat, float_series: Seq<u64>, typ: DataType)
    requires
        match fill {
            Fill::Series { from, .. } => from.spec_type() == typ,
            Fill::Const(v) => v.spec_type() == typ,
        },
    ensures
        array_bytes(fill, n, float_series).len() == typ.size() * n,
    decreases n,
{
    if n > 0 {
        lemma_array_bytes_len(fill, (n - 1) as nat, float_series, typ);
        lemma_element_len(fill, n - 1, float_series, typ);
        assert(typ.size() * n == typ.size() * (n - 1) + typ.size()) by (nonlinear_arith);
    } else {
        assert(typ.size() * n == 0) by (nonlinear_arith)
            requires
                n == 0,
        ;
    }
}

proof fn lemma_element_len(fill: Fill<Value>, i: int, float_series: Seq<u64>, typ: DataType)
    requires
        match fill {
            Fill::Series { from, .. } => from.spec_type() == typ,
            Fill::Const(v) => v.spec_type() == typ,
        },
    ensures
        element(fill, i, float_series).len() == typ.size(),
{
    match fill {
        Fill::Series { from, increment } => {
            if is_float(typ) {
                lemma_le_bytes_len(float_series[i] as nat, typ.size());
            } else {
                lemma_le_bytes_len((from.bits() + increment.bits() * i) as nat, typ.size());
            }
        },
        Fill::Const(v) => {
            lemma_value_round_trip(v);
        },
    }
}

/// A content takes as many bytes as it has.
pub proof fn lemma_content_bytes_len(content: ResolvedContent, float_series: Seq<u64>)
    requires
        resolved_fill_matches(content),
    ensures
        content_bytes(content, float_series).len() == resolved_size(content),
{
    match content {
        ResolvedContent::Typed { typ, element_count, fill } => {
            lemma_array_bytes_len(fill, element_count as nat, float_series, typ);
        },
        ResolvedContent::Raw { values, .. } => {
            lemma_values_bytes_len(values);
        },
    }
}

/// Each raw value stands behind the values before it, and the bytes behind all values are zero.
pub proof fn lemma_raw_content(size: u64, values: Seq<Value>, float_series: Seq<u64>)
    requires
        values_size(values) <= size,
    ensures
        ({
            let bytes = content_bytes(ResolvedContent::Raw { size, values }, float_series);
            &&& bytes.len() == size
            &&& forall|i: int| #![trigger values[i]]
                0 <= i < values.len() ==> ({
                    let start = values_size(values.take(i)) as int;
                    let end = start + values[i].spec_type().size();
                    end <= values_size(values) && bytes.subrange(start, end) == values[i].bytes()
                })
            &&& forall|k: int| values_size(values) <= k < size ==> #[trigger] bytes[k] == 0
        }),
{
    let bytes = content_bytes(ResolvedContent::Raw { size, values }, float_series);
    lemma_values_bytes_len(values);
    assert forall|i: int| #![trigger values[i]] 0 <= i < values.len() implies ({
        let start = values_size(values.take(i)) as int;
        let end = start + values[i].spec_type().size();
        end <= values_size(values) && bytes.subrange(start, end) == values[i].bytes()
    }) by {
        let start = values_size(values.take(i)) as int;
        let end = start + values[i].spec_type().size();
        lemma_values_bytes_at(values, i);
        assert(bytes.subrange(start, end) =~= values_bytes(values).subrange(start, end));
    }
}

/// The element `i` of an array stands `i` elements behind its start.
pub proof fn lemma_array_element(
    fill: Fill<Value>,
    n: nat,
    float_series: Seq<u64>,
    typ: DataType,
    i: int,
)
    requires
        match fill {
            Fill::Series { from, .. } => from.spec_type() == typ,
            Fill::Const(v) => v.spec_type() == typ,
        },
        0 <= i < n,
    ensures
        typ.size() * i + typ.size() <= typ.size() * n,
        array_bytes(fill, n, float_series).subrange(
            typ.size() * i,
            typ.size() * i + typ.size(),
        ) == element(fill, i, float_series),
    decreases n,
{
    let size = typ.size() as int;
    lemma_array_bytes_len(fill, n, float_series, typ);
    lemma_array_bytes_len(fill, (n - 1) as nat, float_series, typ);
    lemma_element_len(fill, n - 1, float_series, typ);
    let before = array_bytes(fill, (n - 1) as nat, float_series);
    if i < n - 1 {
        lemma_array_element(fill, (n - 1) as nat, float_series, typ, i);
        assert(size * (n - 1) + size == size * n) by (nonlinear_arith);
        assert(0 <= size * i) by (nonlinear_arith)
            requires
                size >= 0,
                i >= 0,
        ;
        assert(array_bytes(fill, n, float_series).subrange(size * i, size * i + size)
            =~= before.subrange(size * i, size * i + size));
    } else {
        assert(size * (n - 1) + size == size * n) by (nonlinear_arith);
        assert(array_bytes(fill, n, float_series).subrange(size * i, size * i + size) =~= element(
            fill,
            i,
            float_series,
        ));
    }
}

/// What the lowest bytes of a number stand for.
pub proof fn lemma_le_truncates(n: nat, len: nat)
    ensures
        le_range(len) > 0,
        le_number(le_bytes(n, len)) == n % le_range(len),
    decreases len,
{
    if len > 0 {
        let r = le_range((len - 1) as nat);
        lemma_le_truncates(n / 256, (len - 1) as nat);
        let bytes = le_bytes(n, len);
        assert(bytes.drop_first() =~= le_bytes(n / 256, (len - 1) as nat));
        assert(n % 256 + 256 * ((n / 256) % r) == n % (256 * r)) by {
            vstd::arithmetic::div_mod::lemma_mod_breakdown(n as int, 256, r as int);
        }
    }
}

/// Each element of a series of integers is the previous element incremented by the increment,
/// starting over when the type cannot hold the sum.
pub proof fn lemma_series_step(from: Value, increment: Value, i: int, float_series: Seq<u64>)
    requires
        from.spec_type() == increment.spec_type(),
        !is_float(from.spec_type()),
        i >= 0,
    ensures
        ({
            let fill = Fill::Series { from, increment };
            let range = le_range(from.spec_type().size());
            &&& le_number(element(fill, 0, float_series)) == from.bits()
            &&& le_number(element(fill, i + 1, float_series)) == (le_number(
                element(fill, i, float_series),
            ) + increment.bits()) % range
        }),
{
    let size = from.spec_type().size();
    let range = le_range(size);
    let a = (from.bits() + increment.bits() * i) as nat;
    let b = (from.bits() + increment.bits() * (i + 1)) as nat;
    lemma_le_truncates(a, size);
    lemma_le_truncates(b, size);
    assert(0 <= increment.bits() * i && increment.bits() * (i + 1) == increment.bits() * i
        + increment.bits()) by (nonlinear_arith)
        requires
            i >= 0,
    ;
    vstd::arithmetic::div_mod::lemma_add_mod_noop_right(
        increment.bits() as int,
        a as int,
        range as int,
    );
    lemma_le_truncates(from.bits(), size);
    assert(from.bits() < range && increment.bits() < range) by {
        reveal_with_fuel(le_range, 9);
    }
    assert(increment.bits() * 0 == 0);
    vstd::arithmetic::div_mod::lemma_small_mod(from.bits(), range);
}

/// Each element of an array that is filled with a value reads as this value.
pub proof fn lemma_const_fill(
    value: Value,
    element_count: u64,
    i: int,
    float_series: Seq<u64>,
)
    requires
        0 <= i < element_count,
    ensures
        ({
            let typ = value.spec_type();
            let content = ResolvedContent::Typed { typ, element_count, fill: Fill::Const(value) };
            let bytes = content_bytes(content, float_series);
            let start = typ.size() * i;
            let end = typ.size() * (i + 1);
            &&& le_number(element(Fill::Const(value), i, float_series)) == value.bits()
            &&& bytes.len() == typ.size() * element_count
            &&& 0 <= start <= end <= bytes.len()
            &&& le_number(bytes.subrange(start, end)) == value.bits()
            &&& Value::spec_from_data(typ, bytes.subrange(start, end)) == value
        }),
{
    let typ = value.spec_type();
    let fill = Fill::Const(value);
    let size = typ.size() as int;
    lemma_le_truncates(value.bits(), typ.size());
    lemma_value_in_range(value);
    vstd::arithmetic::div_mod::lemma_small_mod(value.bits(), le_range(typ.size()));
    lemma_array_bytes_len(fill, element_count as nat, float_series, typ);
    lemma_array_element(fill, element_count as nat, float_series, typ, i);
    assert(0 <= size * i && size * (i + 1) == size * i + size) by (nonlinear_arith)
        requires
            size >= 0,
            i >= 0,
    ;
}

/// Each element of a series of floating-point numbers has the bits that are known for it, and the
/// first elements of a series of integers are `from`, `from + increment`, `from + 2 * increment`
/// and so on, as far as the type can hold them.
pub proof fn lemma_series_fill(
    from: Value,
    increment: Value,
    element_count: u64,
    i: int,
    float_series: Seq<u64>,
)
    requires
        0 <= i < element_count,
    ensures
        ({
            let typ = from.spec_type();
            let fill = Fill::Series { from, increment };
            let content = ResolvedContent::Typed { typ, element_count, fill };
            let bytes = content_bytes(content, float_series);
            let start = typ.size() * i;
            let end = typ.size() * (i + 1);
            let n = le_number(bytes.subrange(start, end));
            &&& bytes.len() == typ.size() * element_count
            &&& 0 <= start <= end <= bytes.len()
            &&& is_float(typ) && float_series[i] < le_range(typ.size()) ==> n == float_series[i]
            &&& !is_float(typ) && from.bits() + increment.bits() * i < le_range(typ.size()) ==> n
                == from.bits() + increment.bits() * i
        }),
{
    let typ = from.spec_type();
    let fill = Fill::Series { from, increment };
    let size = typ.size() as int;
    let range = le_range(typ.size());
    assert(0 <= increment.bits() * i) by (nonlinear_arith)
        requires
            i >= 0,
    ;
    let sum = (from.bits() + increment.bits() * i) as nat;
    lemma_le_truncates(sum, typ.size());
    lemma_le_truncates(float_series[i] as nat, typ.size());
    if sum < range {
        vstd::arithmetic::div_mod::lemma_small_mod(sum, range);
    }
    if float_series[i] < range {
        vstd::arithmetic::div_mod::lemma_small_mod(float_series[i] as nat, range);
    }
    lemma_array_bytes_len(fill, element_count as nat, float_series, typ);
    lemma_array_element(fill, element_count as nat, float_series, typ, i);
    assert(0 <= size * i && size * (i + 1) == size * i + size) by (nonlinear_arith)
        requires
            size >= 0,
            i >= 0,
    ;
}

/// A value that the script gives stays as it is, and any other value has the bits of its answer.
/// The type of a value is known before the answer.
pub proof fn lemma_resolved(v: UnresolvedValue<Seq<char>>, answer: u64)
    requires
        answer_fits(v, answer),
    ensures
        resolved(v, answer).spec_type() == unresolved_type(v),
        match v {
            UnresolvedValue::Resolved(value) => resolved(v, answer) == value,
            _ => resolved(v, answer).bits() == answer,
        },
        match v {
            UnresolvedValue::Resolved(value) => unresolved_type(v) == value.spec_type(),
            UnresolvedValue::F32(_) => is_float(unresolved_type(v)) && unresolved_type(v).size()
                == 4,
            UnresolvedValue::F16(_) => is_float(unresolved_type(v)) && unresolved_type(v).size()
                == 2,
            UnresolvedValue::Gpuva(_) => !is_float(unresolved_type(v)) && unresolved_type(v).size()
                == 8,
        },
{
}

/// The values in a content that are known.
pub open spec fn known_values(content: ResolvedContent) -> Seq<Value> {
    match content {
        ResolvedContent::Typed { fill: Fill::Series { from, increment }, .. } => seq![
            from,
            increment,
        ],
        ResolvedContent::Typed { fill: Fill::Const(v), .. } => seq![v],
        ResolvedContent::Raw { values, .. } => values,
    }
}

/// Each value of a content gets its own answer, in the order in which the values are written. Nothing
/// else changes.
pub proof fn lemma_resolved_content(content: ValueContentView, answers: Seq<u64>, k: int)
    requires
        answers_fit(written_values(content), answers),
        0 <= k < written_values(content).len(),
    ensures
        ({
            let known = resolved_content(content, answers);
            &&& known_values(known).len() == written_values(content).len()
            &&& known_values(known)[k] == resolved(written_values(content)[k], answers[k])
            &&& content matches ValueContentView::Typed { typ, element_count, fill } ==> (known matches
                ResolvedContent::Typed { typ: t, element_count: n, fill: f } && t == typ && n
                == element_count && (f is Series <==> fill is Series))
            &&& content matches ValueContentView::Raw { size, .. } ==> (known matches
                ResolvedContent::Raw { size: n, .. } && n == size)
        }),
{
}

/// The start of a series is written before its increment.
pub proof fn lemma_written_values(content: ValueContentView)
    ensures
        match content {
            ValueContentView::Typed { fill: Fill::Series { from, increment }, .. } => {
                &&& written_values(content).len() == 2
                &&& written_values(content)[0] == from
                &&& written_values(content)[1] == increment
            },
            ValueContentView::Typed { fill: Fill::Const(v), .. } => written_values(content)
                == seq![v],
            ValueContentView::Raw { values, .. } => written_values(content) == values,
        },
{
}

/// The value, where `answer` gives its bits if the script does not.
pub fn resolve_value(v: &UnresolvedValue<String>, answer: u64) -> (value: Value)
    requires
        answer_fits(v.deep_view(), answer),
    ensures
        value == resolved(v.deep_view(), answer),
        value.spec_type() == unresolved_type(v.deep_view()),
{
    match v {
        UnresolvedValue::Resolved(v) => *v,
        UnresolvedValue::F32(_) => Value::F32(answer as u32),
        UnresolvedValue::F16(_) => Value::F16(answer as u16),
        UnresolvedValue::Gpuva(_) => Value::U64(answer),
    }
}

/// The values, each with its answer.
pub fn resolve_values(values: &Vec<UnresolvedValue<String>>, answers: &Vec<u64>) -> (r: Values)
    requires
        answers_fit(values.deep_view(), answers@),
    ensures
        r@ == resolved_values(values.deep_view(), answers@),
{
    let mut data: Vec<Value> = Vec::new();
    let mut i: usize = 0;
    while i < values.len()
        invariant
            i <= values@.len(),
            answers_fit(values.deep_view(), answers@),
            data@.len() == i,
            forall|j: int|
                0 <= j < i ==> #[trigger] data@[j] == resolved(
                    values.deep_view()[j],
                    answers@[j],
                ),
        decreases values@.len() - i,
    {
        assert(values.deep_view()[i as int] == values@[i as int].deep_view());
        data.push(resolve_value(&values[i], answers[i]));
        i += 1;
    }
    assert(data@ =~= resolved_values(values.deep_view(), answers@));
    Values { data }
}

/// The number of values in a content.
pub open spec fn elements(content: ResolvedContent) -> nat {
    match content {
        ResolvedContent::Typed { element_count, .. } => element_count as nat,
        ResolvedContent::Raw { values, .. } => values.len(),
    }
}

/// The bytes of a value of a content.
pub open spec fn element_bytes(content: ResolvedContent, i: int, float_series: Seq<u64>) -> Seq<u8> {
    match content {
        ResolvedContent::Typed { fill, .. } => element(fill, i, float_series),
        ResolvedContent::Raw { values, .. } => values[i].bytes(),
    }
}

/// The byte at which a value of a content starts.
pub open spec fn element_offset(content: ResolvedContent, i: int) -> int {
    match content {
        ResolvedContent::Typed { typ, .. } => typ.size() * i,
        ResolvedContent::Raw { values, .. } => values_size(values.take(i)) as int,
    }
}

/// Each value of a content stands at its offset, and the next one behind it.
pub proof fn lemma_element_stands(content: ResolvedContent, i: int, float_series: Seq<u64>)
    requires
        resolved_fill_matches(content),
        0 <= i < elements(content),
    ensures
        0 <= element_offset(content, i) <= element_offset(content, i + 1) <= content_bytes(
            content,
            float_series,
        ).len(),
        content_bytes(content, float_series).subrange(
            element_offset(content, i),
            element_offset(content, i + 1),
        ) == element_bytes(content, i, float_series),
{
    lemma_content_bytes_len(content, float_series);
    match content {
        ResolvedContent::Typed { typ, element_count, fill } => {
            let size = typ.size() as int;
            lemma_array_element(fill, element_count as nat, float_series, typ, i);
            assert(0 <= size * i && size * (i + 1) == size * i + size) by (nonlinear_arith)
                requires
                    size >= 0,
                    i >= 0,
            ;
        },
        ResolvedContent::Raw { size, values } => {
            lemma_raw_content(size, values, float_series);
            assert(values[i] == values.take(i + 1).last());
            assert(values.take(i + 1).drop_last() =~= values.take(i));
        },
    }
}

/// Values that are those of a content from the value `first` on have the bytes that stand there.
pub proof fn lemma_elements_stand(
    content: ResolvedContent,
    first: int,
    values: Seq<Value>,
    float_series: Seq<u64>,
)
    requires
        resolved_fill_matches(content),
        0 <= first,
        first + values.len() <= elements(content),
        forall|i: int|
            0 <= i < values.len() ==> (#[trigger] values[i]).bytes() == element_bytes(
                content,
                first + i,
                float_series,
            ),
    ensures
        0 <= element_offset(content, first),
        element_offset(content, first) + values_size(values) <= content_bytes(
            content,
            float_series,
        ).len(),
        element_offset(content, first) + values_size(values) == element_offset(
            content,
            first + values.len(),
        ),
        content_bytes(content, float_series).subrange(
            element_offset(content, first),
            element_offset(content, first) + values_size(values),
        ) == values_bytes(values),
    decreases values.len(),
{
    let bytes = content_bytes(content, float_series);
    let start = element_offset(content, first);
    lemma_content_bytes_len(content, float_series);
    if values.len() == 0 {
        if first < elements(content) {
            lemma_element_stands(content, first, float_series);
        } else if first > 0 {
            lemma_element_stands(content, first - 1, float_series);
        } else {
            assert(start == 0) by {
                if let ResolvedContent::Raw { values, .. } = content {
                    assert(values.take(0) =~= Seq::<Value>::empty());
                }
            }
        }
        assert(bytes.subrange(start, start) =~= values_bytes(values));
    } else {
        let rest = values.drop_last();
        let last = first + rest.len();
        assert forall|i: int| 0 <= i < rest.len() implies (#[trigger] rest[i]).bytes()
            == element_bytes(content, first + i, float_series) by {
            assert(rest[i] == values[i]);
        }
        lemma_elements_stand(content, first, rest, float_series);
        lemma_element_stands(content, last, float_series);
        assert(values.last() == values[values.len() - 1]);
        lemma_value_round_trip(values.last());
        assert(bytes.subrange(start, element_offset(content, last + 1)) =~= values_bytes(rest)
            + element_bytes(content, last, float_series));
    }
}

/// The types of values do not depend on the answers, so resolving keeps the size of a content, and
/// whether its values fit.
pub proof fn lemma_resolved_size(content: ValueContentView, answers: Seq<u64>)
    requires
        answers_fit(written_values(content), answers),
    ensures
        resolved_size(resolved_content(content, answers)) == content_size(content),
        resolved_fill_matches(resolved_content(content, answers)) == fill_matches(content),
{
    if let ValueContentView::Raw { values, .. } = content {
        lemma_resolved_values_size(values, answers);
    }
}

proof fn lemma_resolved_values_size(values: Seq<UnresolvedValue<Seq<char>>>, answers: Seq<u64>)
    requires
        answers.len() == values.len(),
    ensures
        values_size(resolved_values(values, answers)) == total_size(values),
    decreases values.len(),
{
    if values.len() > 0 {
        lemma_resolved_values_size(values.drop_last(), answers.drop_last());
        assert(resolved_values(values, answers).drop_last() =~= resolved_values(
            values.drop_last(),
            answers.drop_last(),
        ));
    } else {
        assert(resolved_values(values, answers) =~= Seq::<Value>::empty());
    }
}

impl UnresolvedValueContent {
    /// The bytes that the content takes.
    pub fn len(&self) -> (size: u128)
        ensures
            size == content_size(self.deep_view()),
    {
        match self {
            UnresolvedValueContent::Typed { typ, element_count, .. } => {
                assert(typ.size() * *element_count <= 8 * u64::MAX) by (nonlinear_arith)
                    requires
                        typ.size() <= 8,
                        *element_count <= u64::MAX,
                ;
                typ.len() as u128 * *element_count as u128
            },
            UnresolvedValueContent::Raw { size, .. } => *size as u128,
        }
    }

    /// The content, each of its values with its answer.
    pub fn resolve(&self, answers: &Vec<u64>) -> (content: ValueContent)
        requires
            answers_fit(written_values(self.deep_view()), answers@),
        ensures
            content@ == resolved_content(self.deep_view(), answers@),
    {
        let ghost values = written_values(self.deep_view());
        match self {
            UnresolvedValueContent::Typed { typ, element_count, fill } => {
                let fill = match fill {
                    Fill::Series { from, increment } => {
                        assert(values[0] == from.deep_view() && values[1] == increment.deep_view());
                        Fill::Series {
                            from: resolve_value(from, answers[0]),
                            increment: resolve_value(increment, answers[1]),
                        }
                    },
                    Fill::Const(v) => {
                        assert(values[0] == v.deep_view());
                        Fill::Const(resolve_value(v, answers[0]))
                    },
                };
                ValueContent::Typed { typ: *typ, element_count: *element_count, fill }
            },
            UnresolvedValueContent::Raw { size, values } => ValueContent::Raw {
                size: *size,
                values: resolve_values(values, answers),
            },
        }
    }
}

/// The bytes of the elements of an array.
fn fill_array(fill: &Fill<Value>, count: u64, float_series: &Vec<u64>) -> (data: Vec<u8>)
    requires
        fill matches Fill::Series { from, .. } && is_float(from.spec_type()) ==> float_series@.len()
            == count,
    ensures
        data@ == array_bytes(*fill, count as nat, float_series@),
{
    let floats: usize = float_series.len();
    let mut data: Vec<u8> = Vec::new();
    let mut i: u64 = 0;
    while i < count
        invariant
            i <= count,
            floats == float_series@.len(),
            fill matches Fill::Series { from, .. } && is_float(from.spec_type())
                ==> float_series@.len() == count,
            data@ == array_bytes(*fill, i as nat, float_series@),
        decreases count - i,
    {
        match fill {
            Fill::Series { from, increment } => {
                let float: bool = match from {
                    Value::F32(_) => true,
                    Value::F16(_) => true,
                    _ => false,
                };
                if float {
                    let n: u64 = float_series[i as usize];
                    push_le(&mut data, n as u128, from.len());
                } else {
                    let a: u64 = from.to_bits();
                    let b: u64 = increment.to_bits();
                    assert(b * i <= u64::MAX * u64::MAX) by (nonlinear_arith)
                        requires
                            b <= u64::MAX,
                            i <= u64::MAX,
                    ;
                    push_le(&mut data, a as u128 + b as u128 * i as u128, from.len());
                }
            },
            Fill::Const(v) => {
                push_le(&mut data, v.to_bits() as u128, v.len());
            },
        }
        i += 1;
    }
    data
}

/// Puts zeros behind bytes, up to `size` bytes.
fn pad_with_zeros(data: &mut Vec<u8>, size: u64)
    ensures
        final(data)@ == zero_padded(old(data)@, size as nat),
{
    let ghost before = data@;
    let mut len: u64 = data.len() as u64;
    while len < size
        invariant
            before.len() <= len,
            len == before.len() || len <= size,
            len == data@.len(),
            data@ == zero_padded(before, len as nat),
        decreases size - len,
    {
        data.push(0);
        len += 1;
        assert(data@ =~= zero_padded(before, len as nat));
    }
}

impl ValueContent {
    /// The bytes that the content takes.
    pub fn len(&self) -> (size: u128)
        ensures
            size == resolved_size(self@),
    {
        match self {
            ValueContent::Typed { typ, element_count, .. } => {
                assert(typ.size() * *element_count <= 8 * u64::MAX) by (nonlinear_arith)
                    requires
                        typ.size() <= 8,
                        *element_count <= u64::MAX,
                ;
                typ.len() as u128 * *element_count as u128
            },
            ValueContent::Raw { size, .. } => *size as u128,
        }
    }

    /// The bytes of the content. The elements of a series of floating-point numbers are known
    /// from `float_series`.
    pub fn fill(&self, float_series: &Vec<u64>) -> (data: Vec<u8>)
        requires
            is_float_series(self@) ==> (self@ matches ResolvedContent::Typed { element_count, .. }
                && float_series@.len() == element_count),
        ensures
            data@ == content_bytes(self@, float_series@),
            resolved_fill_matches(self@) ==> data@.len() == resolved_size(self@),
    {
        proof {
            if resolved_fill_matches(self@) {
                lemma_content_bytes_len(self@, float_series@);
            }
        }
        match self {
            ValueContent::Typed { element_count, fill, .. } => fill_array(
                fill,
                *element_count,
                float_series,
            ),
            ValueContent::Raw { size, values } => {
                let mut data = values.get_data();
                pad_with_zeros(&mut data, *size);
                data
            },
        }
    }
}

} // verus!
