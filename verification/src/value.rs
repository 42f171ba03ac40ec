//! Values and the bytes they stand for.
use vstd::arithmetic::div_mod::lemma_div_denominator;
use vstd::arithmetic::power::{lemma_pow0, lemma_pow_positive, pow};
use vstd::prelude::*;

verus! {

#[derive(Clone, Copy, Debug, Eq, Hash, PartialEq, Structural)]
pub enum DataType {
    U64,
    U32,
    U16,
    U8,
    F32,
    F16,
}

impl DeepView for DataType {
    type V = DataType;

    open spec fn deep_view(&self) -> DataType {
        *self
    }
}

impl DataType {
    /// The number of bytes of a value.
    pub open spec fn size(self) -> nat {
        match self {
            DataType::U64 => 8,
            DataType::U32 => 4,
            DataType::U16 => 2,
            DataType::U8 => 1,
            DataType::F32 => 4,
            DataType::F16 => 2,
        }
    }

    /// The number of bytes of a value.
    pub fn len(self) -> (size: usize)
        ensures
            size == self.size(),
            1 <= size <= 8,
    {
        match self {
            DataType::U64 => 8,
            DataType::U32 => 4,
            DataType::U16 => 2,
            DataType::U8 => 1,
            DataType::F32 => 4,
            DataType::F16 => 2,
        }
    }
}

/// A value of a known type. Floating-point numbers are held as their bits.
#[derive(Clone, Copy, Debug, Eq, Hash, PartialEq, Structural)]
pub enum Value {
    U64(u64),
    U32(u32),
    U16(u16),
    U8(u8),
    F32(u32),
    F16(u16),
}

impl DeepView for Value {
    type V = Value;

    open spec fn deep_view(&self) -> Value {
        *self
    }
}

impl Value {
    /// The type of the value.
    pub open spec fn spec_type(self) -> DataType {
        match self {
            Value::U64(_) => DataType::U64,
            Value::U32(_) => DataType::U32,
            Value::U16(_) => DataType::U16,
            Value::U8(_) => DataType::U8,
            Value::F32(_) => DataType::F32,
            Value::F16(_) => DataType::F16,
        }
    }

    /// The type of the value.
    pub fn get_type(&self) -> (typ: DataType)
        ensures
            typ == self.spec_type(),
    {
        match self {
            Value::U64(_) => DataType::U64,
            Value::U32(_) => DataType::U32,
            Value::U16(_) => DataType::U16,
            Value::U8(_) => DataType::U8,
            Value::F32(_) => DataType::F32,
            Value::F16(_) => DataType::F16,
        }
    }
}

/// The `len` lowest bytes of a number, the lowest one first.
pub open spec fn le_bytes(n: nat, len: nat) -> Seq<u8>
    decreases len,
{
    if len == 0 {
        Seq::empty()
    } else {
        seq![(n % 256) as u8] + le_bytes(n / 256, (len - 1) as nat)
    }
}

/// The number that bytes stand for, the lowest one first.
pub open spec fn le_number(bytes: Seq<u8>) -> nat
    decreases bytes.len(),
{
    if bytes.len() == 0 {
        0
    } else {
        bytes[0] as nat + 256 * le_number(bytes.drop_first())
    }
}

/// How many numbers `len` bytes can stand for.
pub open spec fn le_range(len: nat) -> nat
    decreases len,
{
    if len == 0 {
        1
    } else {
        256 * le_range((len - 1) as nat)
    }
}

/// As many bytes come out as are asked for.
pub proof fn lemma_le_bytes_len(n: nat, len: nat)
    ensures
        le_bytes(n, len).len() == len,
    decreases len,
{
    if len > 0 {
        lemma_le_bytes_len(n / 256, (len - 1) as nat);
    }
}

/// The bytes of a number stand for the number, as far as they can hold it.
pub proof fn lemma_le_round_trip(n: nat, len: nat)
    requires
        n < le_range(len),
    ensures
        le_number(le_bytes(n, len)) == n,
    decreases len,
{
    if len > 0 {
        let rest = le_bytes(n / 256, (len - 1) as nat);
        lemma_le_round_trip(n / 256, (len - 1) as nat);
        assert(le_bytes(n, len).drop_first() =~= rest);
        assert(le_bytes(n, len)[0] == n % 256);
    }
}

/// What bytes stand for has these bytes.
pub proof fn lemma_le_bytes_of_number(bytes: Seq<u8>)
    ensures
        le_number(bytes) < le_range(bytes.len()),
        le_bytes(le_number(bytes), bytes.len()) == bytes,
    decreases bytes.len(),
{
    if bytes.len() > 0 {
        let rest = bytes.drop_first();
        lemma_le_bytes_of_number(rest);
        let n = le_number(bytes);
        assert(n % 256 == bytes[0]);
        assert(n / 256 == le_number(rest));
        assert(le_bytes(n, bytes.len()) =~= bytes);
    } else {
        assert(le_bytes(0, 0) =~= bytes);
    }
}

/// Byte `i` of a number is its digit `i` to the base of 256.
pub proof fn lemma_le_digit(n: nat, len: nat, i: nat)
    requires
        i < len,
    ensures
        le_bytes(n, len).len() == len,
        le_bytes(n, len)[i as int] == (n as int / pow(256, i)) % 256,
    decreases len,
{
    lemma_le_bytes_len(n, len);
    lemma_le_bytes_len(n / 256, (len - 1) as nat);
    if i == 0 {
        lemma_pow0(256);
        assert(n as int / 1 == n);
    } else {
        let j = (i - 1) as nat;
        lemma_le_digit(n / 256, (len - 1) as nat, j);
        lemma_pow_positive(256, j);
        assert(pow(256, i) == 256 * pow(256, j)) by {
            reveal(pow);
        }
        lemma_div_denominator(n as int, 256, pow(256, j));
    }
}

/// The bytes of a type can stand for the bits of each of its values.
pub proof fn lemma_value_in_range(value: Value)
    ensures
        value.bits() < le_range(value.spec_type().size()),
        le_range(value.spec_type().size()) == pow(256, value.spec_type().size()),
{
    lemma_le_range_8(8);
    lemma_le_range_pow(value.spec_type().size());
}

proof fn lemma_le_range_pow(len: nat)
    ensures
        le_range(len) == pow(256, len),
    decreases len,
{
    reveal(pow);
    if len > 0 {
        lemma_le_range_pow((len - 1) as nat);
    }
}

/// A type has as many values as its bytes have states: each number in the range is the bits of
/// exactly one value of the type.
pub proof fn lemma_from_bits(typ: DataType, bits: nat)
    requires
        bits < pow(256, typ.size()),
    ensures
        Value::spec_from_bits(typ, bits).spec_type() == typ,
        Value::spec_from_bits(typ, bits).bits() == bits,
{
    lemma_le_range_8(8);
    lemma_le_range_pow(typ.size());
}

/// The type of a value says how many bits it has and whether it is a floating-point number.
pub proof fn lemma_value_type(value: Value)
    ensures
        match value {
            Value::U64(n) => value.spec_type().size() == 8 && !is_float(value.spec_type())
                && value.bits() == n,
            Value::U32(n) => value.spec_type().size() == 4 && !is_float(value.spec_type())
                && value.bits() == n,
            Value::U16(n) => value.spec_type().size() == 2 && !is_float(value.spec_type())
                && value.bits() == n,
            Value::U8(n) => value.spec_type().size() == 1 && !is_float(value.spec_type())
                && value.bits() == n,
            Value::F32(n) => value.spec_type().size() == 4 && is_float(value.spec_type())
                && value.bits() == n,
            Value::F16(n) => value.spec_type().size() == 2 && is_float(value.spec_type())
                && value.bits() == n,
        },
        is_float(value.spec_type()) <==> value.spec_type() is F32 || value.spec_type() is F16,
        Value::spec_from_bits(value.spec_type(), value.bits()) == value,
{
}

/// Puts the `len` lowest bytes of a number behind a list of bytes, the lowest one first.
pub fn push_le(bytes: &mut Vec<u8>, n: u128, len: usize)
    ensures
        final(bytes)@ == old(bytes)@ + le_bytes(n as nat, len as nat),
{
    let mut rest: u128 = n;
    let mut i: usize = 0;
    assert(bytes@ + le_bytes(rest as nat, len as nat) =~= old(bytes)@ + le_bytes(
        n as nat,
        len as nat,
    ));
    while i < len
        invariant
            i <= len,
            bytes@ + le_bytes(rest as nat, (len - i) as nat) == old(bytes)@ + le_bytes(
                n as nat,
                len as nat,
            ),
        decreases len - i,
    {
        let ghost before = bytes@;
        let low: u8 = (rest % 256) as u8;
        bytes.push(low);
        proof {
            let tail = le_bytes(rest as nat / 256, (len - i - 1) as nat);
            assert(before + (seq![low] + tail) =~= before.push(low) + tail);
        }
        rest = rest / 256;
        i += 1;
    }
    assert(bytes@ + le_bytes(rest as nat, 0) =~= bytes@);
}

proof fn lemma_le_range_8(len: nat)
    requires
        len <= 8,
    ensures
        le_range(len) <= 0x1_0000_0000_0000_0000,
        le_range(1) == 0x100,
        le_range(2) == 0x1_0000,
        le_range(4) == 0x1_0000_0000,
        le_range(8) == 0x1_0000_0000_0000_0000,
{
    reveal_with_fuel(le_range, 9);
}

/// The number that the bytes from `start` up to `end` stand for, the lowest one first.
pub fn read_le(bytes: &Vec<u8>, start: usize, end: usize) -> (n: u64)
    requires
        start <= end <= bytes@.len(),
        end - start <= 8,
    ensures
        n == le_number(bytes@.subrange(start as int, end as int)),
        n < le_range((end - start) as nat),
    decreases end - start,
{
    proof {
        lemma_le_bytes_of_number(bytes@.subrange(start as int, end as int));
        lemma_le_range_8((end - start) as nat);
    }
    if start == end {
        0
    } else {
        let ghost all = bytes@.subrange(start as int, end as int);
        assert(all.drop_first() =~= bytes@.subrange(start + 1, end as int));
        let rest: u64 = read_le(bytes, start + 1, end);
        bytes[start] as u64 + 256 * rest
    }
}

impl Value {
    /// The number that the bits of the value stand for.
    pub open spec fn bits(self) -> nat {
        match self {
            Value::U64(n) => n as nat,
            Value::U32(n) => n as nat,
            Value::U16(n) => n as nat,
            Value::U8(n) => n as nat,
            Value::F32(n) => n as nat,
            Value::F16(n) => n as nat,
        }
    }

    /// The value of a type with given bits.
    pub open spec fn spec_from_bits(typ: DataType, bits: nat) -> Value {
        match typ {
            DataType::U64 => Value::U64(bits as u64),
            DataType::U32 => Value::U32(bits as u32),
            DataType::U16 => Value::U16(bits as u16),
            DataType::U8 => Value::U8(bits as u8),
            DataType::F32 => Value::F32(bits as u32),
            DataType::F16 => Value::F16(bits as u16),
        }
    }

    /// The bytes of the value, the lowest one first.
    pub open spec fn bytes(self) -> Seq<u8> {
        le_bytes(self.bits(), self.spec_type().size())
    }

    /// The value of a type that bytes stand for.
    pub open spec fn spec_from_data(typ: DataType, data: Seq<u8>) -> Value {
        Value::spec_from_bits(typ, le_number(data))
    }

    /// The number that the bits of the value stand for.
    pub fn to_bits(self) -> (bits: u64)
        ensures
            bits == self.bits(),
    {
        match self {
            Value::U64(n) => n,
            Value::U32(n) => n as u64,
            Value::U16(n) => n as u64,
            Value::U8(n) => n as u64,
            Value::F32(n) => n as u64,
            Value::F16(n) => n as u64,
        }
    }

    /// The value of a type with given bits.
    pub fn from_bits(typ: DataType, bits: u64) -> (value: Value)
        requires
            bits < le_range(typ.size()),
        ensures
            value == Value::spec_from_bits(typ, bits as nat),
            value.spec_type() == typ,
            value.bits() == bits,
    {
        proof {
            lemma_le_range_8(8);
        }
        match typ {
            DataType::U64 => Value::U64(bits),
            DataType::U32 => Value::U32(bits as u32),
            DataType::U16 => Value::U16(bits as u16),
            DataType::U8 => Value::U8(bits as u8),
            DataType::F32 => Value::F32(bits as u32),
            DataType::F16 => Value::F16(bits as u16),
        }
    }

    /// Reads a value of a type.
    pub fn from_data(typ: DataType, data: &Vec<u8>) -> (value: Value)
        requires
            data@.len() == typ.size(),
        ensures
            value == Value::spec_from_data(typ, data@),
            value.spec_type() == typ,
    {
        assert(data@.subrange(0, data@.len() as int) =~= data@);
        Value::from_bits(typ, read_le(data, 0, data.len()))
    }

    /// The bytes of the value, the lowest one first.
    pub fn to_data(self) -> (data: Vec<u8>)
        ensures
            data@ == self.bytes(),
            data@.len() == self.spec_type().size(),
    {
        let mut data: Vec<u8> = Vec::new();
        push_le(&mut data, self.to_bits() as u128, self.len());
        proof {
            lemma_le_bytes_len(self.bits(), self.spec_type().size());
            assert(data@ =~= self.bytes());
        }
        data
    }

    /// The number of bytes of the value.
    pub fn len(&self) -> (size: usize)
        ensures
            size == self.spec_type().size(),
            1 <= size <= 8,
    {
        self.get_type().len()
    }
}

/// Reading the bytes of a value gives the value back.
pub proof fn lemma_value_round_trip(value: Value)
    ensures
        value.bytes().len() == value.spec_type().size(),
        Value::spec_from_data(value.spec_type(), value.bytes()) == value,
{
    lemma_le_range_8(8);
    lemma_le_bytes_len(value.bits(), value.spec_type().size());
    lemma_le_round_trip(value.bits(), value.spec_type().size());
}

/// The bytes of the value that bytes stand for are these bytes.
pub proof fn lemma_data_round_trip(typ: DataType, data: Seq<u8>)
    requires
        data.len() == typ.size(),
    ensures
        Value::spec_from_data(typ, data).spec_type() == typ,
        Value::spec_from_data(typ, data).bytes() == data,
{
    lemma_le_range_8(8);
    lemma_le_bytes_of_number(data);
}

/// Whether two numbers differ by `epsilon` at most.
pub open spec fn within(a: int, b: int, epsilon: int) -> bool {
    a - b <= epsilon && b - a <= epsilon
}

/// Whether the type is one of floating-point numbers.
pub open spec fn is_float(typ: DataType) -> bool {
    typ is F32 || typ is F16
}

impl Value {
    /// Whether two values of a type differ by `epsilon` at most. `float_close` says so of
    /// floating-point numbers.
    pub open spec fn close(self, other: Value, epsilon: Value, float_close: bool) -> bool {
        if is_float(self.spec_type()) {
            float_close
        } else {
            within(self.bits() as int, other.bits() as int, epsilon.bits() as int)
        }
    }

    /// Compares two values, allowing an epsilon of the same type.
    ///
    /// Returns `true` if the values are close or `false` if there is a difference larger than
    /// `epsilon`. What is close among floating-point numbers is known from `float_close`.
    pub fn compare_epsilon(self, other: Value, epsilon: Value, float_close: bool) -> (close: bool)
        requires
            self.spec_type() == other.spec_type(),
            self.spec_type() == epsilon.spec_type(),
        ensures
            close == self.close(other, epsilon, float_close),
    {
        match self {
            Value::F32(_) => float_close,
            Value::F16(_) => float_close,
            _ => {
                let s: u64 = self.to_bits();
                let o: u64 = other.to_bits();
                let d: u64 = epsilon.to_bits();
                if s < o {
                    o - s <= d
                } else {
                    s - o <= d
                }
            },
        }
    }
}

/// A list of values.
#[derive(Clone, Debug, Default, Eq, Hash, PartialEq)]
pub struct Values {
    pub data: Vec<Value>,
}

impl View for Values {
    type V = Seq<Value>;

    open spec fn view(&self) -> Seq<Value> {
        self.data@
    }
}

/// The number of bytes that values take, one behind the other.
pub open spec fn values_size(values: Seq<Value>) -> nat
    decreases values.len(),
{
    if values.len() == 0 {
        0
    } else {
        values_size(values.drop_last()) + values.last().spec_type().size()
    }
}

/// The bytes of values, one behind the other.
pub open spec fn values_bytes(values: Seq<Value>) -> Seq<u8>
    decreases values.len(),
{
    if values.len() == 0 {
        Seq::empty()
    } else {
        values_bytes(values.drop_last()) + values.last().bytes()
    }
}

/// Values take as many bytes as they have.
pub proof fn lemma_values_bytes_len(values: Seq<Value>)
    ensures
        values_bytes(values).len() == values_size(values),
    decreases values.len(),
{
    if values.len() > 0 {
        lemma_values_bytes_len(values.drop_last());
        lemma_value_round_trip(values.last());
    }
}

proof fn lemma_values_size_grows(values: Seq<Value>, i: int)
    requires
        0 <= i <= values.len(),
    ensures
        values_size(values.take(i)) <= values_size(values),
    decreases values.len() - i,
{
    if i < values.len() {
        lemma_values_size_grows(values, i + 1);
        assert(values.take(i + 1).drop_last() =~= values.take(i));
    } else {
        assert(values.take(i) =~= values);
    }
}

/// The values of one type that bytes stand for.
pub open spec fn typed_values(typ: DataType, data: Seq<u8>) -> Seq<Value> {
    Seq::new(
        data.len() / typ.size(),
        |i: int| Value::spec_from_data(
            typ,
            data.subrange(i * typ.size() as int, (i + 1) * typ.size() as int),
        ),
    )
}

/// The values that bytes stand for, of the types of other values.
pub open spec fn values_like(data: Seq<u8>, types: Seq<Value>) -> Seq<Value> {
    Seq::new(
        types.len(),
        |i: int| Value::spec_from_data(
            types[i].spec_type(),
            data.subrange(
                values_size(types.take(i)) as int,
                (values_size(types.take(i)) + types[i].spec_type().size()) as int,
            ),
        ),
    )
}

/// The bytes from `start` up to `end`.
pub fn slice_bytes(data: &Vec<u8>, start: usize, end: usize) -> (part: Vec<u8>)
    requires
        start <= end <= data@.len(),
    ensures
        part@ == data@.subrange(start as int, end as int),
{
    let mut part: Vec<u8> = Vec::new();
    let mut i: usize = start;
    while i < end
        invariant
            start <= i <= end <= data@.len(),
            part@ == data@.subrange(start as int, i as int),
        decreases end - i,
    {
        part.push(data[i]);
        i += 1;
        assert(part@ =~= data@.subrange(start as int, i as int));
    }
    part
}

impl Values {
    /// Reads values of one type.
    pub fn from_data(typ: DataType, data: &Vec<u8>) -> (values: Values)
        requires
            data@.len() % typ.size() == 0,
        ensures
            values@ == typed_values(typ, data@),
    {
        let size: usize = typ.len();
        let count: usize = data.len() / size;
        let mut values: Vec<Value> = Vec::new();
        let mut i: usize = 0;
        let mut pos: usize = 0;
        while i < count
            invariant
                size == typ.size(),
                1 <= size <= 8,
                count == data@.len() / size as nat,
                data@.len() <= usize::MAX,
                i <= count,
                pos == i * size,
                values@.len() == i,
                forall|j: int| 0 <= j < i ==> #[trigger] values@[j] == typed_values(typ, data@)[j],
            decreases count - i,
        {
            assert((i + 1) * size <= count * size && (i + 1) * size == i * size + size && count * size
                <= data@.len()) by (nonlinear_arith)
                requires
                    i < count,
                    count == data@.len() / size as nat,
                    size >= 1,
            ;
            let part = slice_bytes(data, pos, pos + size);
            values.push(Value::from_data(typ, &part));
            pos = pos + size;
            i += 1;
        }
        assert(values@ =~= typed_values(typ, data@));
        Values { data: values }
    }

    /// Reads values of the types of other values.
    pub fn from_data_using_types(data: &Vec<u8>, use_types: &Values) -> (values: Values)
        requires
            data@.len() == values_size(use_types@),
        ensures
            values@ == values_like(data@, use_types@),
    {
        let mut values: Vec<Value> = Vec::new();
        let total: usize = data.len();
        let mut pos: usize = 0;
        let mut i: usize = 0;
        assert(use_types@.take(0) =~= Seq::<Value>::empty());
        while i < use_types.data.len()
            invariant
                i <= use_types@.len(),
                total == data@.len(),
                data@.len() == values_size(use_types@),
                pos == values_size(use_types@.take(i as int)),
                values@.len() == i,
                forall|j: int|
                    0 <= j < i ==> #[trigger] values@[j] == values_like(data@, use_types@)[j],
            decreases use_types@.len() - i,
        {
            let typ = use_types.data[i].get_type();
            proof {
                let next = use_types@.take(i + 1);
                assert(next.drop_last() =~= use_types@.take(i as int));
                lemma_values_size_grows(use_types@, i + 1);
            }
            let end: usize = pos + typ.len();
            let part = slice_bytes(data, pos, end);
            values.push(Value::from_data(typ, &part));
            pos = end;
            i += 1;
        }
        assert(values@ =~= values_like(data@, use_types@));
        Values { data: values }
    }

    /// The number of bytes that the values take.
    pub fn byte_len(&self) -> (size: usize)
        requires
            values_size(self@) <= usize::MAX,
        ensures
            size == values_size(self@),
    {
        let mut size: usize = 0;
        let mut i: usize = 0;
        assert(self@.take(0) =~= Seq::<Value>::empty());
        while i < self.data.len()
            invariant
                i <= self@.len(),
                values_size(self@) <= usize::MAX,
                size == values_size(self@.take(i as int)),
            decreases self@.len() - i,
        {
            proof {
                let next = self@.take(i + 1);
                assert(next.drop_last() =~= self@.take(i as int));
                lemma_values_size_grows(self@, i + 1);
            }
            size = size + self.data[i].len();
            i += 1;
        }
        assert(self@.take(i as int) =~= self@);
        size
    }

    /// The bytes of the values.
    pub fn get_data(&self) -> (data: Vec<u8>)
        ensures
            data@ == values_bytes(self@),
            data@.len() == values_size(self@),
    {
        let mut data: Vec<u8> = Vec::new();
        let mut i: usize = 0;
        assert(self@.take(0) =~= Seq::<Value>::empty());
        while i < self.data.len()
            invariant
                i <= self@.len(),
                data@ == values_bytes(self@.take(i as int)),
            decreases self@.len() - i,
        {
            proof {
                let next = self@.take(i + 1);
                assert(next.drop_last() =~= self@.take(i as int));
            }
            let v = self.data[i];
            push_le(&mut data, v.to_bits() as u128, v.len());
            i += 1;
        }
        proof {
            assert(self@.take(i as int) =~= self@);
            lemma_values_bytes_len(self@);
        }
        data
    }

    /// Writes the bytes of the values over a buffer.
    pub fn fill(&self, data: &mut Vec<u8>)
        requires
            old(data)@.len() == values_size(self@),
        ensures
            final(data)@ == values_bytes(self@),
    {
        *data = self.get_data();
    }

    /// Compares two value lists, allowing an epsilon of the same type.
    ///
    /// Returns `Ok` on success or the index of the first failing element if there is a difference
    /// larger than `epsilon`. What is close among floating-point numbers is known from
    /// `float_close`.
    pub fn compare_epsilon(
        &self,
        other: &Values,
        epsilon: Value,
        float_close: &Vec<bool>,
    ) -> (r: Result<(), usize>)
        requires
            self@.len() == other@.len(),
            self@.len() == float_close@.len(),
            forall|i: int|
                0 <= i < self@.len() ==> (#[trigger] self@[i]).spec_type() == epsilon.spec_type(),
            forall|i: int|
                0 <= i < other@.len() ==> (#[trigger] other@[i]).spec_type() == epsilon.spec_type(),
        ensures
            match r {
                Ok(_) => forall|i: int|
                    0 <= i < self@.len() ==> (#[trigger] self@[i]).close(
                        other@[i],
                        epsilon,
                        float_close@[i],
                    ),
                Err(first) => first < self@.len() && !self@[first as int].close(
                    other@[first as int],
                    epsilon,
                    float_close@[first as int],
                ) && forall|i: int|
                    0 <= i < first ==> (#[trigger] self@[i]).close(
                        other@[i],
                        epsilon,
                        float_close@[i],
                    ),
            },
    {
        let mut i: usize = 0;
        while i < self.data.len()
            invariant
                i <= self@.len(),
                self@.len() == other@.len(),
                self@.len() == float_close@.len(),
                forall|j: int|
                    0 <= j < self@.len() ==> (#[trigger] self@[j]).spec_type()
                        == epsilon.spec_type(),
                forall|j: int|
                    0 <= j < other@.len() ==> (#[trigger] other@[j]).spec_type()
                        == epsilon.spec_type(),
                forall|j: int|
                    0 <= j < i ==> (#[trigger] self@[j]).close(
                        other@[j],
                        epsilon,
                        float_close@[j],
                    ),
            decreases self@.len() - i,
        {
            assert(self@[i as int].spec_type() == other@[i as int].spec_type());
            if !self.data[i].compare_epsilon(other.data[i], epsilon, float_close[i]) {
                return Err(i);
            }
            i += 1;
        }
        Ok(())
    }
}

/// Reading the bytes of values gives the values back.
pub proof fn lemma_values_round_trip(values: Seq<Value>)
    ensures
        values_like(values_bytes(values), values) == values,
{
    assert forall|i: int| 0 <= i < values.len() implies #[trigger] values_like(
        values_bytes(values),
        values,
    )[i] == values[i] by {
        lemma_values_bytes_at(values, i);
        lemma_value_round_trip(values[i]);
    }
    assert(values_like(values_bytes(values), values) =~= values);
}

/// The bytes of a value stand behind those of the values before it.
pub proof fn lemma_values_bytes_at(values: Seq<Value>, i: int)
    requires
        0 <= i < values.len(),
    ensures
        values_size(values.take(i)) + values[i].spec_type().size() <= values_size(values),
        values_bytes(values).subrange(
            values_size(values.take(i)) as int,
            (values_size(values.take(i)) + values[i].spec_type().size()) as int,
        ) == values[i].bytes(),
    decreases values.len(),
{
    let rest = values.drop_last();
    lemma_values_bytes_len(values);
    lemma_values_bytes_len(rest);
    lemma_value_round_trip(values.last());
    let start = values_size(values.take(i)) as int;
    if i < rest.len() {
        lemma_values_bytes_at(rest, i);
        assert(rest.take(i) =~= values.take(i));
        assert(values_bytes(values).subrange(start, start + values[i].spec_type().size())
            =~= values_bytes(rest).subrange(start, start + values[i].spec_type().size()));
    } else {
        assert(values.take(i) =~= rest);
        assert(values_bytes(values).subrange(start, start + values[i].spec_type().size())
            =~= values[i].bytes());
    }
}

/// Reading bytes as values of one type and writing them again gives the bytes back.
pub proof fn lemma_typed_values_round_trip(typ: DataType, data: Seq<u8>)
    requires
        data.len() % typ.size() == 0,
    ensures
        values_bytes(typed_values(typ, data)) == data,
    decreases data.len(),
{
    let size = typ.size() as int;
    let values = typed_values(typ, data);
    if data.len() == 0 {
        assert(values =~= Seq::<Value>::empty());
        assert(values_bytes(values) =~= data);
    } else {
        let count = (data.len() / typ.size()) as int;
        assert(count * size == data.len() && count >= 1) by (nonlinear_arith)
            requires
                data.len() > 0,
                data.len() % (size as nat) == 0,
                count == data.len() / (size as nat),
                size >= 1,
        ;
        let head = data.take(data.len() - size);
        assert(head.len() == (count - 1) * size) by (nonlinear_arith)
            requires
                head.len() == data.len() - size,
                count * size == data.len(),
        ;
        assert(head.len() % typ.size() == 0 && head.len() / typ.size() == count - 1)
            by (nonlinear_arith)
            requires
                head.len() == (count - 1) * size,
                size == typ.size(),
                size >= 1,
                count >= 1,
        ;
        lemma_typed_values_round_trip(typ, head);
        assert forall|i: int| 0 <= i < count - 1 implies #[trigger] values.drop_last()[i]
            == typed_values(typ, head)[i] by {
            assert((i + 1) * size <= head.len() && i * size >= 0) by (nonlinear_arith)
                requires
                    0 <= i < count - 1,
                    head.len() == (count - 1) * size,
                    size >= 1,
            ;
            assert(head.subrange(i * size, (i + 1) * size) =~= data.subrange(
                i * size,
                (i + 1) * size,
            ));
        }
        assert(values.drop_last() =~= typed_values(typ, head));
        let last = data.skip(data.len() - size);
        assert((count - 1) * size == data.len() - size) by (nonlinear_arith)
            requires
                count * size == data.len(),
        ;
        assert(data.subrange((count - 1) * size, count * size) =~= last);
        lemma_data_round_trip(typ, last);
        assert(head + last =~= data);
    }
}

} // verus!
