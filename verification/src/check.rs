//! Checking what buffers and shader identifiers hold.
use vstd::prelude::*;

use crate::content::{
    content_bytes, element_bytes, element_offset, elements, lemma_elements_stand,
    resolved_fill_matches, ResolvedContent,
};
use crate::value::{
    lemma_data_round_trip, lemma_typed_values_round_trip, lemma_values_bytes_at,
    lemma_values_bytes_len, lemma_values_round_trip, slice_bytes, typed_values, values_bytes,
    values_like, values_size, DataType, Value, Values,
};

verus! {

/// Why the bytes that an EXPECT statement checks are not there.
#[derive(Clone, Copy, Debug, Eq, Hash, PartialEq, Structural)]
pub enum ExpectRangeError {
    /// No buffer can be as large as the offset.
    TooLargeOffset,
    /// The range ends behind the buffer.
    OutOfBounds { buffer_size: usize, offset: usize, expect_size: usize },
}

/// Whether `size` bytes from `offset` on are in a buffer of `len` bytes.
pub open spec fn in_bounds(offset: u64, size: nat, len: nat) -> bool {
    offset + size <= len
}

/// All bytes from an offset on are in a buffer, and not one more.
pub proof fn lemma_in_bounds(offset: u64, rest: nat)
    ensures
        in_bounds(offset, rest, offset as nat + rest),
        !in_bounds(offset, rest + 1, offset as nat + rest),
{
}

/// The bytes of a buffer that an EXPECT statement checks.
pub fn expect_range(offset: u64, values: &Values, data: &Vec<u8>) -> (r: Result<
    Vec<u8>,
    ExpectRangeError,
>)
    ensures
        match r {
            Ok(range) => in_bounds(offset, values_size(values@), data@.len()) && range@
                == data@.subrange(offset as int, offset + values_size(values@)),
            Err(ExpectRangeError::TooLargeOffset) => offset > usize::MAX,
            Err(ExpectRangeError::OutOfBounds { buffer_size, offset: at, expect_size }) => {
                &&& at == offset
                &&& buffer_size == data@.len()
                &&& expect_size == values_size(values@)
                &&& !in_bounds(offset, values_size(values@), data@.len())
            },
        },
{
    if offset > usize::MAX as u64 {
        return Err(ExpectRangeError::TooLargeOffset);
    }
    let at: usize = offset as usize;
    let expect_size: usize = values.get_data().len();
    let buffer_size: usize = data.len();
    if at > buffer_size || expect_size > buffer_size - at {
        return Err(ExpectRangeError::OutOfBounds { buffer_size, offset: at, expect_size });
    }
    Ok(slice_bytes(data, at, at + expect_size))
}

/// A buffer does not hold what is expected.
#[derive(Clone, Debug, Eq, Hash, PartialEq)]
pub struct Mismatch {
    /// The first value that is not as expected
    pub index: usize,
    /// What the buffer holds
    pub buffer_content: Values,
}

/// Whether a value in a buffer has the bytes that are expected.
pub open spec fn same_bytes(range: Seq<u8>, values: Seq<Value>, i: int) -> bool {
    values_like(range, values)[i] == values[i]
}

proof fn lemma_same_prefix(range: Seq<u8>, values: Seq<Value>, n: int)
    requires
        range.len() == values_size(values),
        0 <= n <= values.len(),
        forall|i: int| 0 <= i < n ==> same_bytes(range, values, i),
    ensures
        values_size(values.take(n)) <= range.len(),
        range.take(values_size(values.take(n)) as int) == values_bytes(values.take(n)),
    decreases n,
{
    if n == 0 {
        assert(values.take(0) =~= Seq::<Value>::empty());
        assert(range.take(0) =~= Seq::<u8>::empty());
    } else {
        lemma_same_prefix(range, values, n - 1);
        assert(values.take(n).drop_last() =~= values.take(n - 1));
        lemma_values_bytes_at(values, n - 1);
        let start = values_size(values.take(n - 1)) as int;
        let end = values_size(values.take(n)) as int;
        let part = range.subrange(start, end);
        assert(same_bytes(range, values, n - 1));
        lemma_data_round_trip(values[n - 1].spec_type(), part);
        assert(range.take(end) =~= range.take(start) + part);
    }
}

/// Values are all as expected exactly where their bytes are.
pub proof fn lemma_same_bytes(range: Seq<u8>, values: Seq<Value>)
    requires
        range.len() == values_size(values),
    ensures
        (forall|i: int| 0 <= i < values.len() ==> same_bytes(range, values, i)) <==> range
            == values_bytes(values),
{
    if forall|i: int| 0 <= i < values.len() ==> same_bytes(range, values, i) {
        lemma_same_prefix(range, values, values.len() as int);
        assert(values.take(values.len() as int) =~= values);
        assert(range.take(range.len() as int) =~= range);
    }
    if range == values_bytes(values) {
        lemma_values_round_trip(values);
    }
}

/// Checks that a buffer holds the bytes of the expected values.
pub fn compare_exact(values: &Values, range: &Vec<u8>) -> (r: Result<(), Mismatch>)
    requires
        range@.len() == values_size(values@),
    ensures
        match r {
            Ok(_) => range@ == values_bytes(values@),
            Err(m) => {
                &&& m.index < values@.len()
                &&& !same_bytes(range@, values@, m.index as int)
                &&& forall|i: int| 0 <= i < m.index ==> same_bytes(range@, values@, i)
                &&& m.buffer_content@ == values_like(range@, values@)
            },
        },
{
    let buffer_content = Values::from_data_using_types(range, values);
    let mut i: usize = 0;
    while i < values.data.len()
        invariant
            i <= values@.len(),
            buffer_content@ == values_like(range@, values@),
            forall|j: int| 0 <= j < i ==> same_bytes(range@, values@, j),
        decreases values@.len() - i,
    {
        if buffer_content.data[i] != values.data[i] {
            return Err(Mismatch { index: i, buffer_content });
        }
        i += 1;
    }
    proof {
        lemma_same_bytes(range@, values@);
    }
    Ok(())
}

/// Checks that a buffer holds the expected values, except for differences up to `epsilon`. What is
/// close among floating-point numbers is known from `float_close`.
pub fn compare_close(values: &Values, range: &Vec<u8>, epsilon: Value, float_close: &Vec<bool>) -> (r:
    Result<(), Mismatch>)
    requires
        range@.len() == values_size(values@),
        float_close@.len() == values@.len(),
        forall|i: int|
            0 <= i < values@.len() ==> (#[trigger] values@[i]).spec_type() == epsilon.spec_type(),
    ensures
        match r {
            Ok(_) => forall|i: int|
                0 <= i < values@.len() ==> (#[trigger] values@[i]).close(
                    values_like(range@, values@)[i],
                    epsilon,
                    float_close@[i],
                ),
            Err(m) => {
                &&& m.index < values@.len()
                &&& !values@[m.index as int].close(
                    values_like(range@, values@)[m.index as int],
                    epsilon,
                    float_close@[m.index as int],
                )
                &&& forall|i: int|
                    0 <= i < m.index ==> (#[trigger] values@[i]).close(
                        values_like(range@, values@)[i],
                        epsilon,
                        float_close@[i],
                    )
                &&& m.buffer_content@ == values_like(range@, values@)
            },
        },
{
    let buffer_content = Values::from_data_using_types(range, values);
    proof {
        assert forall|i: int| 0 <= i < buffer_content@.len() implies (
        #[trigger] buffer_content@[i]).spec_type() == epsilon.spec_type() by {
            assert(values@[i].spec_type() == epsilon.spec_type());
        }
    }
    match values.compare_epsilon(&buffer_content, epsilon, float_close) {
        Ok(()) => Ok(()),
        Err(index) => Err(Mismatch { index, buffer_content }),
    }
}

/// Whether an EXPECT statement holds of the bytes that it checks.
pub open spec fn expectation_holds(
    values: Seq<Value>,
    range: Seq<u8>,
    epsilon: Option<Value>,
    float_close: Seq<bool>,
) -> bool {
    match epsilon {
        None => range == values_bytes(values),
        Some(epsilon) => forall|i: int|
            0 <= i < values.len() ==> (#[trigger] values[i]).close(
                values_like(range, values)[i],
                epsilon,
                float_close[i],
            ),
    }
}

/// Why an EXPECT statement fails.
#[derive(Clone, Debug, Eq, Hash, PartialEq)]
pub enum ExpectError {
    Range(ExpectRangeError),
    /// The buffer holds something else.
    Content(Mismatch),
}

/// Runs an EXPECT statement on the content of its buffer. With `ignore_expect` only the range is
/// checked.
pub fn check_expect(
    offset: u64,
    values: &Values,
    epsilon: Option<Value>,
    float_close: &Vec<bool>,
    data: &Vec<u8>,
    ignore_expect: bool,
) -> (r: Result<(), ExpectError>)
    requires
        !ignore_expect && in_bounds(offset, values_size(values@), data@.len()) ==> (epsilon matches
            Some(e) ==> float_close@.len() == values@.len() && forall|i: int|
            0 <= i < values@.len() ==> (#[trigger] values@[i]).spec_type() == e.spec_type()),
    ensures
        r is Ok <==> {
            &&& in_bounds(offset, values_size(values@), data@.len())
            &&& ignore_expect || expectation_holds(
                values@,
                data@.subrange(offset as int, offset + values_size(values@)),
                epsilon,
                float_close@,
            )
        },
        r matches Err(ExpectError::Range(e)) ==> !in_bounds(
            offset,
            values_size(values@),
            data@.len(),
        ) && (e matches ExpectRangeError::OutOfBounds {
            buffer_size,
            offset: at,
            expect_size,
        } ==> buffer_size == data@.len() && at == offset && expect_size == values_size(values@)) && (
        e is TooLargeOffset ==> offset > usize::MAX),
        r matches Err(ExpectError::Content(m)) ==> {
            let range = data@.subrange(offset as int, offset + values_size(values@));
            &&& in_bounds(offset, values_size(values@), data@.len())
            &&& m.index < values@.len()
            &&& m.buffer_content@ == values_like(range, values@)
            &&& match epsilon {
                None => !same_bytes(range, values@, m.index as int) && forall|i: int|
                    0 <= i < m.index ==> same_bytes(range, values@, i),
                Some(e) => !values@[m.index as int].close(
                    values_like(range, values@)[m.index as int],
                    e,
                    float_close@[m.index as int],
                ) && forall|i: int|
                    0 <= i < m.index ==> (#[trigger] values@[i]).close(
                        values_like(range, values@)[i],
                        e,
                        float_close@[i],
                    ),
            }
        },
{
    assert(data@.len() == data.len());
    let range = match expect_range(offset, values, data) {
        Ok(range) => range,
        Err(e) => {
            return Err(ExpectError::Range(e));
        },
    };
    if ignore_expect {
        // Don't check
        return Ok(());
    }
    let compared = match epsilon {
        Some(e) => compare_close(values, &range, e, float_close),
        None => compare_exact(values, &range),
    };
    match compared {
        Ok(()) => Ok(()),
        Err(m) => {
            proof {
                if epsilon is None {
                    lemma_same_bytes(range@, values@);
                }
            }
            Err(ExpectError::Content(m))
        },
    }
}

/// A buffer that holds the bytes of values from an offset on passes the EXPECT statement with
/// these values at this offset, whatever else it holds.
pub proof fn lemma_expect_written(offset: u64, values: Seq<Value>, data: Seq<u8>)
    requires
        in_bounds(offset, values_size(values), data.len()),
        data.subrange(offset as int, offset + values_size(values)) == values_bytes(values),
    ensures
        expectation_holds(
            values,
            data.subrange(offset as int, offset + values_size(values)),
            None,
            Seq::empty(),
        ),
{
}

/// A buffer that was filled with a content passes the EXPECT statement with values of that content,
/// from any of them on.
pub proof fn lemma_content_expected(
    content: ResolvedContent,
    first: int,
    values: Seq<Value>,
    float_series: Seq<u64>,
)
    requires
        resolved_fill_matches(content),
        0 <= first,
        first + values.len() <= elements(content),
        forall|i: int|
            0 <= i < values.len() ==> (#[trigger] values[i]).bytes() == element_bytes(
                content,
                first + i,
                float_series,
            ),
    ensures
        ({
            let data = content_bytes(content, float_series);
            let offset = element_offset(content, first);
            &&& 0 <= offset
            &&& offset + values_size(values) <= data.len()
            &&& expectation_holds(
                values,
                data.subrange(offset, offset + values_size(values)),
                None,
                Seq::empty(),
            )
        }),
{
    lemma_elements_stand(content, first, values, float_series);
}

/// The values that a dump of a buffer shows are those that an EXPECT statement over the whole
/// buffer accepts.
pub proof fn lemma_dump_expected(typ: DataType, data: Seq<u8>)
    requires
        data.len() % typ.size() == 0,
    ensures
        values_size(typed_values(typ, data)) == data.len(),
        expectation_holds(typed_values(typ, data), data, None, Seq::empty()),
{
    lemma_typed_values_round_trip(typ, data);
    lemma_values_bytes_len(typed_values(typ, data));
}

/// The values on a line of a dump are those that an EXPECT statement at the place of the line
/// accepts.
pub proof fn lemma_dump_line_expected(typ: DataType, data: Seq<u8>, first: int, count: int)
    requires
        data.len() % typ.size() == 0,
        0 <= first,
        0 <= count,
        first + count <= data.len() / typ.size(),
    ensures
        ({
            let values = typed_values(typ, data).subrange(first, first + count);
            let place = first * typ.size();
            &&& values_size(values) == count * typ.size()
            &&& place + values_size(values) <= data.len()
            &&& expectation_holds(
                values,
                data.subrange(place, place + values_size(values)),
                None,
                Seq::empty(),
            )
        }),
{
    let size = typ.size() as int;
    let n = (data.len() / typ.size()) as int;
    let place = first * size;
    let end = (first + count) * size;
    assert(n * size == data.len() && 0 <= place <= end <= n * size && end - place == count * size)
        by (nonlinear_arith)
        requires
            data.len() % (size as nat) == 0,
            n == data.len() / (size as nat),
            size > 0,
            0 <= first,
            0 <= count,
            first + count <= n,
            place == first * size,
            end == (first + count) * size,
    ;
    let part = data.subrange(place, end);
    let values = typed_values(typ, data).subrange(first, first + count);
    assert(part.len() % (size as nat) == 0 && part.len() / (size as nat) == count)
        by (nonlinear_arith)
        requires
            part.len() == count * size,
            size > 0,
            count >= 0,
    ;
    assert(typed_values(typ, part) =~= values) by {
        assert forall|i: int| 0 <= i < count implies #[trigger] typed_values(typ, part)[i]
            == values[i] by {
            assert(place + i * size == (first + i) * size && place + (i + 1) * size == (first + i
                + 1) * size && 0 <= i * size && (i + 1) * size <= count * size && i * size <= (i
                + 1) * size) by (nonlinear_arith)
                requires
                    place == first * size,
                    0 <= i < count,
                    size > 0,
            ;
            assert(part.subrange(i * size, (i + 1) * size) =~= data.subrange(
                (first + i) * size,
                (first + i + 1) * size,
            ));
        }
    }
    lemma_dump_expected(typ, part);
}

/// With an epsilon of zero, integers have to be equal.
pub proof fn lemma_epsilon_zero(a: Value, b: Value, epsilon: Value)
    requires
        a.spec_type() == b.spec_type(),
        a.spec_type() == epsilon.spec_type(),
        !crate::value::is_float(a.spec_type()),
        epsilon.bits() == 0,
    ensures
        a.close(b, epsilon, false) <==> a == b,
{
}

/// Integers are close exactly if the larger one is not more than an epsilon above the smaller one.
/// Of floating-point numbers it is known whether they are close.
pub proof fn lemma_close(a: Value, b: Value, epsilon: Value, distance: nat, float_close: bool)
    requires
        a.bits() + distance == b.bits(),
    ensures
        !crate::value::is_float(a.spec_type()) ==> (a.close(b, epsilon, float_close) <==> distance
            <= epsilon.bits()),
        !crate::value::is_float(b.spec_type()) ==> (b.close(a, epsilon, float_close) <==> distance
            <= epsilon.bits()),
        crate::value::is_float(a.spec_type()) ==> a.close(b, epsilon, float_close) == float_close,
{
}

/// An EXPECT statement with an epsilon of zero holds of integers exactly if the one without an
/// epsilon holds.
pub proof fn lemma_expect_epsilon_zero(
    values: Seq<Value>,
    range: Seq<u8>,
    epsilon: Value,
    float_close: Seq<bool>,
)
    requires
        range.len() == values_size(values),
        epsilon.bits() == 0,
        forall|i: int|
            0 <= i < values.len() ==> !crate::value::is_float((#[trigger] values[i]).spec_type()),
    ensures
        expectation_holds(values, range, Some(epsilon), float_close) <==> expectation_holds(
            values,
            range,
            None,
            float_close,
        ),
{
    lemma_same_bytes(range, values);
    assert forall|i: int| 0 <= i < values.len() implies ((#[trigger] values[i]).close(
        values_like(range, values)[i],
        epsilon,
        float_close[i],
    ) <==> same_bytes(range, values, i)) by {
        lemma_like_type(range, values, i);
    }
    if expectation_holds(values, range, Some(epsilon), float_close) {
        assert forall|i: int| 0 <= i < values.len() implies same_bytes(range, values, i) by {
            assert(values[i].close(values_like(range, values)[i], epsilon, float_close[i]));
        }
    }
    if expectation_holds(values, range, None, float_close) {
        assert forall|i: int| 0 <= i < values.len() implies (#[trigger] values[i]).close(
            values_like(range, values)[i],
            epsilon,
            float_close[i],
        ) by {
            assert(same_bytes(range, values, i));
        }
    }
}

proof fn lemma_like_type(range: Seq<u8>, values: Seq<Value>, i: int)
    requires
        0 <= i < values.len(),
    ensures
        values_like(range, values)[i].spec_type() == values[i].spec_type(),
{
}

/// Closeness of integers does not depend on which of them is expected, and a larger epsilon
/// allows more.
pub proof fn lemma_epsilon_laws(a: Value, b: Value, epsilon: Value, larger: Value, float_close: bool)
    requires
        a.spec_type() == b.spec_type(),
        a.spec_type() == epsilon.spec_type(),
        a.spec_type() == larger.spec_type(),
        epsilon.bits() <= larger.bits(),
    ensures
        a.close(b, epsilon, float_close) <==> b.close(a, epsilon, float_close),
        a.close(b, epsilon, float_close) ==> a.close(b, larger, float_close),
        !crate::value::is_float(a.spec_type()) ==> a.close(a, epsilon, float_close),
{
}

/// Two shader identifiers are not as they should be.
#[derive(Clone, Debug, Eq, Hash, PartialEq)]
pub struct ShaderIdMismatch {
    pub content_a: Values,
    pub content_b: Values,
}

/// Whether two lists of bytes are the same.
fn equal_bytes(a: &Vec<u8>, b: &Vec<u8>) -> (same: bool)
    ensures
        same == (a@ == b@),
{
    if a.len() != b.len() {
        return false;
    }
    let mut i: usize = 0;
    while i < a.len()
        invariant
            i <= a@.len(),
            a@.len() == b@.len(),
            forall|j: int| 0 <= j < i ==> a@[j] == b@[j],
        decreases a@.len() - i,
    {
        if a[i] != b[i] {
            return false;
        }
        i += 1;
    }
    assert(a@ =~= b@);
    true
}

/// Runs an ASSERT statement on two shader identifiers. With `ignore_expect` nothing is checked.
pub fn check_shader_ids(
    equal: bool,
    content_a: &Vec<u8>,
    content_b: &Vec<u8>,
    ignore_expect: bool,
) -> (r: Result<(), ShaderIdMismatch>)
    ensures
        r is Ok <==> ignore_expect || ((content_a@ == content_b@) == equal),
        r matches Err(m) ==> m.content_a@ == typed_values(DataType::U8, content_a@)
            && m.content_b@ == typed_values(DataType::U8, content_b@),
{
    if ignore_expect {
        // Don't check
        return Ok(());
    }
    if equal_bytes(content_a, content_b) != equal {
        return Err(
            ShaderIdMismatch {
                content_a: Values::from_data(DataType::U8, content_a),
                content_b: Values::from_data(DataType::U8, content_b),
            },
        );
    }
    Ok(())
}

} // verus!
