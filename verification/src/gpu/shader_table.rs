//! Shader tables: how far apart records stand, and the bytes of a table.
use vstd::prelude::*;

use crate::gpu::layout::{
    aligned, lemma_aligned, next_multiple_of, write_bytes, written, zero_bytes,
};
use crate::value::{
    le_bytes, le_number, le_range, lemma_le_bytes_len, lemma_le_round_trip, push_le,
};

verus! {

/// Size of a shader identifier in bytes.
pub const SHADER_ID_SIZE: usize = 32;

/// A record starts at a multiple of this number of bytes.
pub const RECORD_ALIGNMENT: usize = 32;

/// Records can stand at most this number of bytes apart.
pub const MAX_RECORD_STRIDE: usize = 4096;

/// A 64-bit number in the local root arguments of a record: a descriptor or an address.
#[derive(Clone, Copy, Debug, Eq, Hash, PartialEq, Structural)]
pub struct RecordNumber {
    /// Index of the root argument
    pub index: u32,
    pub number: u64,
}

/// Constants in the local root arguments of a record.
#[derive(Clone, Debug, Eq, Hash, PartialEq)]
pub struct RecordConst {
    /// Index of the first root argument
    pub index: u32,
    pub data: Vec<u8>,
}

/// The view of `RecordConst`.
pub struct RecordConstView {
    pub index: u32,
    pub data: Seq<u8>,
}

impl DeepView for RecordConst {
    type V = RecordConstView;

    open spec fn deep_view(&self) -> RecordConstView {
        RecordConstView { index: self.index, data: self.data@ }
    }
}

/// A record of a shader table.
#[derive(Clone, Debug, Eq, Hash, PartialEq)]
pub struct RecordData {
    /// Index of the record in the table
    pub index: u32,
    pub binds: Vec<RecordNumber>,
    pub views: Vec<RecordNumber>,
    pub consts: Vec<RecordConst>,
}

/// The view of `RecordData`.
pub struct RecordDataView {
    pub index: u32,
    pub binds: Seq<RecordNumber>,
    pub views: Seq<RecordNumber>,
    pub consts: Seq<RecordConstView>,
}

impl DeepView for RecordData {
    type V = RecordDataView;

    open spec fn deep_view(&self) -> RecordDataView {
        RecordDataView {
            index: self.index,
            binds: self.binds@,
            views: self.views@,
            consts: self.consts.deep_view(),
        }
    }
}

/// The larger of two numbers.
pub open spec fn larger(a: nat, b: nat) -> nat {
    if a < b {
        b
    } else {
        a
    }
}

/// How many bytes the numbers reach into the root arguments, at least `least`.
pub open spec fn numbers_reach(numbers: Seq<RecordNumber>, least: nat) -> nat
    decreases numbers.len(),
{
    if numbers.len() == 0 {
        least
    } else {
        larger(numbers_reach(numbers.drop_last(), least), (numbers.last().index * 8 + 1) as nat)
    }
}

/// How many bytes the constants reach into the root arguments, at least `least`.
pub open spec fn consts_reach(consts: Seq<RecordConstView>, least: nat) -> nat
    decreases consts.len(),
{
    if consts.len() == 0 {
        least
    } else {
        larger(
            consts_reach(consts.drop_last(), least),
            (consts.last().index * 8 + aligned(consts.last().data.len(), 8) + 1) as nat,
        )
    }
}

/// How many bytes the root arguments of a record reach, at least `least`.
pub open spec fn record_reach(record: RecordDataView, least: nat) -> nat {
    numbers_reach(record.views, consts_reach(record.consts, numbers_reach(record.binds, least)))
}

/// How many bytes the root arguments of records reach.
pub open spec fn records_reach(records: Seq<RecordDataView>) -> nat
    decreases records.len(),
{
    if records.len() == 0 {
        0
    } else {
        record_reach(records.last(), records_reach(records.drop_last()))
    }
}

/// How many bytes the records of a table are apart.
pub open spec fn record_stride(records: Seq<RecordDataView>) -> nat {
    aligned(records_reach(records) + SHADER_ID_SIZE as nat, RECORD_ALIGNMENT as nat)
}

/// How many records a table has room for.
pub open spec fn record_count(records: Seq<RecordDataView>) -> nat
    decreases records.len(),
{
    if records.len() == 0 {
        0
    } else {
        larger(record_count(records.drop_last()), (records.last().index + 1) as nat)
    }
}

/// The size of a table in bytes.
pub open spec fn table_size(records: Seq<RecordDataView>) -> nat {
    record_count(records) * record_stride(records)
}

/// Where a root argument stands.
pub open spec fn argument_place(start: int, index: u32) -> int {
    start + SHADER_ID_SIZE + index * 8
}

/// A table after numbers were written to the record that starts at a place.
pub open spec fn numbers_written(buf: Seq<u8>, start: int, numbers: Seq<RecordNumber>) -> Seq<u8>
    decreases numbers.len(),
{
    if numbers.len() == 0 {
        buf
    } else {
        written(
            numbers_written(buf, start, numbers.drop_last()),
            argument_place(start, numbers.last().index),
            le_bytes(numbers.last().number as nat, 8),
        )
    }
}

/// A table after constants were written to the record that starts at a place.
pub open spec fn consts_written(buf: Seq<u8>, start: int, consts: Seq<RecordConstView>) -> Seq<u8>
    decreases consts.len(),
{
    if consts.len() == 0 {
        buf
    } else {
        written(
            consts_written(buf, start, consts.drop_last()),
            argument_place(start, consts.last().index),
            consts.last().data,
        )
    }
}

/// A table after a record was written to it: the identifier of its shader, then what is bound,
/// then addresses, then constants.
pub open spec fn record_written(
    buf: Seq<u8>,
    start: int,
    shader_id: Seq<u8>,
    record: RecordDataView,
) -> Seq<u8> {
    consts_written(
        numbers_written(
            numbers_written(written(buf, start, shader_id), start, record.binds),
            start,
            record.views,
        ),
        start,
        record.consts,
    )
}

/// The bytes of a table. Each record stands at its own index.
pub open spec fn table_bytes(
    records: Seq<RecordDataView>,
    shader_ids: Seq<Seq<u8>>,
    stride: nat,
    size: nat,
) -> Seq<u8>
    decreases records.len(),
{
    if records.len() == 0 {
        Seq::new(size, |i: int| 0u8)
    } else {
        record_written(
            table_bytes(records.drop_last(), shader_ids, stride, size),
            records.last().index * stride,
            shader_ids[records.len() - 1],
            records.last(),
        )
    }
}

/// Whether there is an identifier of a shader for each record.
pub open spec fn shader_ids_ok(records: Seq<RecordDataView>, shader_ids: Seq<Seq<u8>>) -> bool {
    &&& shader_ids.len() == records.len()
    &&& forall|i: int|
        0 <= i < shader_ids.len() ==> (#[trigger] shader_ids[i]).len() == SHADER_ID_SIZE
}

/// Whether two lists of bytes are of one length and agree outside of a range.
pub open spec fn agree_outside(a: Seq<u8>, b: Seq<u8>, start: int, end: int) -> bool {
    &&& a.len() == b.len()
    &&& forall|i: int| 0 <= i < a.len() && !(start <= i < end) ==> #[trigger] a[i] == b[i]
}

proof fn lemma_numbers_reach(numbers: Seq<RecordNumber>, least: nat, k: int)
    ensures
        least <= numbers_reach(numbers, least),
        0 <= k < numbers.len() ==> numbers[k].index * 8 + 1 <= numbers_reach(numbers, least),
    decreases numbers.len(),
{
    if numbers.len() > 0 {
        lemma_numbers_reach(numbers.drop_last(), least, k);
    }
}

proof fn lemma_consts_reach(consts: Seq<RecordConstView>, least: nat, k: int)
    ensures
        least <= consts_reach(consts, least),
        0 <= k < consts.len() ==> consts[k].index * 8 + consts[k].data.len() + 1 <= consts_reach(
            consts,
            least,
        ),
    decreases consts.len(),
{
    if consts.len() > 0 {
        lemma_aligned(consts.last().data.len(), 8, 0);
        lemma_consts_reach(consts.drop_last(), least, k);
    }
}

proof fn lemma_records_reach(records: Seq<RecordDataView>, k: int, j: int)
    requires
        0 <= k < records.len(),
    ensures
        0 <= j < records[k].binds.len() ==> records[k].binds[j].index * 8 + 1 <= records_reach(
            records,
        ),
        0 <= j < records[k].views.len() ==> records[k].views[j].index * 8 + 1 <= records_reach(
            records,
        ),
        0 <= j < records[k].consts.len() ==> records[k].consts[j].index * 8
            + records[k].consts[j].data.len() + 1 <= records_reach(records),
    decreases records.len(),
{
    let rest = records.drop_last();
    let last = records.last();
    let least = records_reach(rest);
    let binds = numbers_reach(last.binds, least);
    let consts = consts_reach(last.consts, binds);
    lemma_numbers_reach(last.binds, least, j);
    lemma_consts_reach(last.consts, binds, j);
    lemma_numbers_reach(last.views, consts, j);
    if k < rest.len() {
        lemma_records_reach(rest, k, j);
    }
}

/// Every root argument of every record fits between its record's start and the next record's.
pub proof fn lemma_arguments_fit(records: Seq<RecordDataView>, k: int, j: int)
    requires
        0 <= k < records.len(),
    ensures
        SHADER_ID_SIZE <= record_stride(records),
        record_stride(records) % (RECORD_ALIGNMENT as nat) == 0,
        0 <= j < records[k].binds.len() ==> argument_place(0, records[k].binds[j].index) + 8
            <= record_stride(records),
        0 <= j < records[k].views.len() ==> argument_place(0, records[k].views[j].index) + 8
            <= record_stride(records),
        0 <= j < records[k].consts.len() ==> argument_place(0, records[k].consts[j].index)
            + records[k].consts[j].data.len() <= record_stride(records),
{
    lemma_records_reach(records, k, j);
    lemma_aligned(records_reach(records) + SHADER_ID_SIZE as nat, RECORD_ALIGNMENT as nat, 0);
}

/// A record's place is in the table.
proof fn lemma_record_in_table(records: Seq<RecordDataView>, k: int)
    requires
        0 <= k < records.len(),
    ensures
        records[k].index < record_count(records),
        records[k].index * record_stride(records) + record_stride(records) <= table_size(records),
{
    lemma_record_count(records, k);
    let n = record_count(records);
    let stride = record_stride(records);
    let i = records[k].index;
    assert(i * stride + stride <= n * stride) by (nonlinear_arith)
        requires
            i < n,
    ;
}

proof fn lemma_record_count(records: Seq<RecordDataView>, k: int)
    requires
        0 <= k < records.len(),
    ensures
        records[k].index < record_count(records),
    decreases records.len(),
{
    if k < records.len() - 1 {
        lemma_record_count(records.drop_last(), k);
    }
}

proof fn lemma_numbers_written(buf: Seq<u8>, start: int, numbers: Seq<RecordNumber>, stride: nat)
    requires
        forall|j: int|
            0 <= j < numbers.len() ==> argument_place(0, (#[trigger] numbers[j]).index) + 8
                <= stride,
    ensures
        agree_outside(
            numbers_written(buf, start, numbers),
            buf,
            start + SHADER_ID_SIZE,
            start + stride,
        ),
    decreases numbers.len(),
{
    if numbers.len() > 0 {
        lemma_numbers_written(buf, start, numbers.drop_last(), stride);
        lemma_le_bytes_len(numbers.last().number as nat, 8);
        assert(numbers.last() == numbers[numbers.len() - 1]);
        assert forall|j: int| 0 <= j < numbers.drop_last().len() implies argument_place(
            0,
            (#[trigger] numbers.drop_last()[j]).index,
        ) + 8 <= stride by {
            assert(numbers.drop_last()[j] == numbers[j]);
        }
    }
}

proof fn lemma_consts_written(buf: Seq<u8>, start: int, consts: Seq<RecordConstView>, stride: nat)
    requires
        forall|j: int|
            0 <= j < consts.len() ==> argument_place(0, (#[trigger] consts[j]).index)
                + consts[j].data.len() <= stride,
    ensures
        agree_outside(
            consts_written(buf, start, consts),
            buf,
            start + SHADER_ID_SIZE,
            start + stride,
        ),
    decreases consts.len(),
{
    if consts.len() > 0 {
        assert(consts.last() == consts[consts.len() - 1]);
        assert forall|j: int| 0 <= j < consts.drop_last().len() implies argument_place(
            0,
            (#[trigger] consts.drop_last()[j]).index,
        ) + consts.drop_last()[j].data.len() <= stride by {
            assert(consts.drop_last()[j] == consts[j]);
        }
        lemma_consts_written(buf, start, consts.drop_last(), stride);
    }
}

/// Whether the root arguments of a record fit between it and the next.
pub open spec fn record_fits(record: RecordDataView, stride: nat) -> bool {
    &&& SHADER_ID_SIZE <= stride
    &&& forall|j: int|
        0 <= j < record.binds.len() ==> argument_place(0, (#[trigger] record.binds[j]).index) + 8
            <= stride
    &&& forall|j: int|
        0 <= j < record.views.len() ==> argument_place(0, (#[trigger] record.views[j]).index) + 8
            <= stride
    &&& forall|j: int|
        0 <= j < record.consts.len() ==> argument_place(0, (#[trigger] record.consts[j]).index)
            + record.consts[j].data.len() <= stride
}

proof fn lemma_record_fits(records: Seq<RecordDataView>, k: int)
    requires
        0 <= k < records.len(),
    ensures
        record_fits(records[k], record_stride(records)),
{
    let stride = record_stride(records);
    let record = records[k];
    lemma_arguments_fit(records, k, 0);
    assert forall|j: int| 0 <= j < record.binds.len() implies argument_place(
        0,
        (#[trigger] record.binds[j]).index,
    ) + 8 <= stride by {
        lemma_arguments_fit(records, k, j);
    }
    assert forall|j: int| 0 <= j < record.views.len() implies argument_place(
        0,
        (#[trigger] record.views[j]).index,
    ) + 8 <= stride by {
        lemma_arguments_fit(records, k, j);
    }
    assert forall|j: int| 0 <= j < record.consts.len() implies argument_place(
        0,
        (#[trigger] record.consts[j]).index,
    ) + record.consts[j].data.len() <= stride by {
        lemma_arguments_fit(records, k, j);
    }
}

/// Writing a record changes nothing outside of its place, and leaves the identifier of its shader
/// at its start.
proof fn lemma_record_written(
    buf: Seq<u8>,
    start: int,
    shader_id: Seq<u8>,
    record: RecordDataView,
    stride: nat,
)
    requires
        record_fits(record, stride),
        shader_id.len() == SHADER_ID_SIZE,
        0 <= start,
        start + stride <= buf.len(),
    ensures
        agree_outside(
            record_written(buf, start, shader_id, record),
            buf,
            start,
            start + stride,
        ),
        record_written(buf, start, shader_id, record).subrange(start, start + SHADER_ID_SIZE)
            == shader_id,
{
    let a = written(buf, start, shader_id);
    let b = numbers_written(a, start, record.binds);
    let c = numbers_written(b, start, record.views);
    let d = consts_written(c, start, record.consts);
    lemma_numbers_written(a, start, record.binds, stride);
    lemma_numbers_written(b, start, record.views, stride);
    lemma_consts_written(c, start, record.consts, stride);
    assert(d.subrange(start, start + SHADER_ID_SIZE) =~= shader_id);
}

/// Whether no two records have one index.
pub open spec fn indexes_distinct(records: Seq<RecordDataView>) -> bool {
    forall|i: int, j: int|
        0 <= i < j < records.len() ==> (#[trigger] records[i]).index != (
        #[trigger] records[j]).index
}

/// What the whole table holds after its first `n` records were written.
proof fn lemma_table_prefix(
    records: Seq<RecordDataView>,
    shader_ids: Seq<Seq<u8>>,
    n: int,
    k: int,
)
    requires
        shader_ids_ok(records, shader_ids),
        indexes_distinct(records),
        0 <= k < n <= records.len(),
    ensures
        ({
            let stride = record_stride(records);
            let size = table_size(records);
            let before = table_bytes(records.take(k), shader_ids, stride, size);
            let after = table_bytes(records.take(n), shader_ids, stride, size);
            let start = records[k].index * stride;
            &&& before.len() == size
            &&& after.len() == size
            &&& forall|i: int|
                start <= i < start + stride ==> #[trigger] after[i] == record_written(
                    before,
                    start,
                    shader_ids[k],
                    records[k],
                )[i]
        }),
    decreases n,
{
    let stride = record_stride(records);
    let size = table_size(records);
    let start = records[k].index * stride;
    lemma_table_len(records, shader_ids, k);
    lemma_table_len(records, shader_ids, n);
    let rest = records.take(n - 1);
    assert(records.take(n).drop_last() =~= rest);
    assert(records.take(n).last() == records[n - 1]);
    if k < n - 1 {
        lemma_table_prefix(records, shader_ids, n - 1, k);
        lemma_table_len(records, shader_ids, n - 1);
        lemma_record_fits(records, n - 1);
        lemma_record_in_table(records, n - 1);
        let other = records[n - 1].index * stride;
        assert(0 <= other) by (nonlinear_arith)
            requires
                other == records[n - 1].index * stride,
        ;
        lemma_record_written(
            table_bytes(rest, shader_ids, stride, size),
            other,
            shader_ids[n - 1],
            records[n - 1],
            stride,
        );
        let a = records[k].index as int;
        let b = records[n - 1].index as int;
        let st = stride as int;
        assert(a * st + st <= b * st || b * st + st <= a * st) by (nonlinear_arith)
            requires
                a != b,
                st >= 0,
        ;
        assert(a * st == start && b * st == other);
        lemma_record_in_table(records, k);
        assert(0 <= start) by (nonlinear_arith)
            requires
                start == records[k].index * stride,
        ;
    }
}

proof fn lemma_table_len(records: Seq<RecordDataView>, shader_ids: Seq<Seq<u8>>, n: int)
    requires
        shader_ids_ok(records, shader_ids),
        0 <= n <= records.len(),
    ensures
        table_bytes(
            records.take(n),
            shader_ids,
            record_stride(records),
            table_size(records),
        ).len() == table_size(records),
    decreases n,
{
    let stride = record_stride(records);
    let size = table_size(records);
    if n > 0 {
        lemma_table_len(records, shader_ids, n - 1);
        assert(records.take(n).drop_last() =~= records.take(n - 1));
        let buf = table_bytes(records.take(n - 1), shader_ids, stride, size);
        let start = records[n - 1].index * stride;
        assert(0 <= start) by (nonlinear_arith)
            requires
                start == records[n - 1].index * stride,
        ;
        lemma_record_in_table(records, n - 1);
        lemma_record_fits(records, n - 1);
        lemma_record_written(buf, start, shader_ids[n - 1], records[n - 1], stride);
    }
}

/// In a table whose records have different indexes, each record stands at its index times the
/// stride, exactly as it was written, whatever the other records hold. It starts with the
/// identifier of its shader.
pub proof fn lemma_record_found(
    records: Seq<RecordDataView>,
    shader_ids: Seq<Seq<u8>>,
    k: int,
)
    requires
        shader_ids_ok(records, shader_ids),
        indexes_distinct(records),
        0 <= k < records.len(),
    ensures
        ({
            let stride = record_stride(records);
            let size = table_size(records);
            let table = table_bytes(records, shader_ids, stride, size);
            let start = records[k].index * stride;
            let alone = record_written(
                table_bytes(records.take(k), shader_ids, stride, size),
                start,
                shader_ids[k],
                records[k],
            );
            &&& table.len() == size
            &&& start + stride <= size
            &&& table.subrange(start, start + stride) == alone.subrange(start, start + stride)
            &&& table.subrange(start, start + SHADER_ID_SIZE) == shader_ids[k]
        }),
{
    let stride = record_stride(records);
    let size = table_size(records);
    let n = records.len() as int;
    let table = table_bytes(records, shader_ids, stride, size);
    let before = table_bytes(records.take(k), shader_ids, stride, size);
    let start = records[k].index * stride;
    let alone = record_written(before, start, shader_ids[k], records[k]);
    assert(records.take(n) =~= records);
    lemma_table_prefix(records, shader_ids, n, k);
    lemma_record_in_table(records, k);
    lemma_record_fits(records, k);
    assert(0 <= start) by (nonlinear_arith)
        requires
            start == records[k].index * stride,
    ;
    lemma_record_written(before, start, shader_ids[k], records[k], stride);
    assert(table.subrange(start, start + stride) =~= alone.subrange(start, start + stride));
    assert(table.subrange(start, start + SHADER_ID_SIZE) =~= shader_ids[k]) by {
        assert forall|i: int| 0 <= i < SHADER_ID_SIZE implies #[trigger] table[start + i]
            == shader_ids[k][i] by {
            assert(alone.subrange(start, start + SHADER_ID_SIZE)[i] == alone[start + i]);
        }
    }
}

/// Whether two ranges of bytes have none in common.
pub open spec fn ranges_apart(a: int, a_len: nat, b: int, b_len: nat) -> bool {
    a + a_len <= b || b + b_len <= a
}

/// Whether the root arguments of a record have no byte in common. A number takes eight bytes.
pub open spec fn arguments_apart(record: RecordDataView) -> bool {
    &&& forall|i: int, j: int|
        0 <= i < j < record.binds.len() ==> (#[trigger] record.binds[i]).index != (
        #[trigger] record.binds[j]).index
    &&& forall|i: int, j: int|
        0 <= i < j < record.views.len() ==> (#[trigger] record.views[i]).index != (
        #[trigger] record.views[j]).index
    &&& forall|i: int, j: int|
        0 <= i < record.binds.len() && 0 <= j < record.views.len() ==> (
        #[trigger] record.binds[i]).index != (#[trigger] record.views[j]).index
    &&& forall|i: int, j: int|
        0 <= i < record.binds.len() && 0 <= j < record.consts.len() ==> ranges_apart(
            8 * (#[trigger] record.binds[i]).index,
            8,
            8 * (#[trigger] record.consts[j]).index,
            record.consts[j].data.len(),
        )
    &&& forall|i: int, j: int|
        0 <= i < record.views.len() && 0 <= j < record.consts.len() ==> ranges_apart(
            8 * (#[trigger] record.views[i]).index,
            8,
            8 * (#[trigger] record.consts[j]).index,
            record.consts[j].data.len(),
        )
    &&& forall|i: int, j: int|
        0 <= i < j < record.consts.len() ==> ranges_apart(
            8 * (#[trigger] record.consts[i]).index,
            record.consts[i].data.len(),
            8 * (#[trigger] record.consts[j]).index,
            record.consts[j].data.len(),
        )
}

proof fn lemma_numbers_keep(
    buf: Seq<u8>,
    start: int,
    numbers: Seq<RecordNumber>,
    from: int,
    len: nat,
)
    requires
        0 <= from,
        from + len <= buf.len(),
        forall|j: int|
            0 <= j < numbers.len() ==> ranges_apart(
                argument_place(start, (#[trigger] numbers[j]).index),
                8,
                from,
                len,
            ),
    ensures
        numbers_written(buf, start, numbers).len() == buf.len(),
        numbers_written(buf, start, numbers).subrange(from, from + len) == buf.subrange(
            from,
            from + len,
        ),
    decreases numbers.len(),
{
    if numbers.len() > 0 {
        let rest = numbers.drop_last();
        lemma_le_bytes_len(numbers.last().number as nat, 8);
        assert(numbers.last() == numbers[numbers.len() - 1]);
        assert forall|j: int| 0 <= j < rest.len() implies ranges_apart(
            argument_place(start, (#[trigger] rest[j]).index),
            8,
            from,
            len,
        ) by {
            assert(rest[j] == numbers[j]);
        }
        lemma_numbers_keep(buf, start, rest, from, len);
        let before = numbers_written(buf, start, rest);
        assert(numbers_written(buf, start, numbers).subrange(from, from + len)
            =~= before.subrange(from, from + len));
    }
}

proof fn lemma_consts_keep(
    buf: Seq<u8>,
    start: int,
    consts: Seq<RecordConstView>,
    from: int,
    len: nat,
)
    requires
        0 <= from,
        from + len <= buf.len(),
        forall|j: int|
            0 <= j < consts.len() ==> ranges_apart(
                argument_place(start, (#[trigger] consts[j]).index),
                consts[j].data.len(),
                from,
                len,
            ),
    ensures
        consts_written(buf, start, consts).len() == buf.len(),
        consts_written(buf, start, consts).subrange(from, from + len) == buf.subrange(
            from,
            from + len,
        ),
    decreases consts.len(),
{
    if consts.len() > 0 {
        let rest = consts.drop_last();
        assert(consts.last() == consts[consts.len() - 1]);
        assert forall|j: int| 0 <= j < rest.len() implies ranges_apart(
            argument_place(start, (#[trigger] rest[j]).index),
            rest[j].data.len(),
            from,
            len,
        ) by {
            assert(rest[j] == consts[j]);
        }
        lemma_consts_keep(buf, start, rest, from, len);
        let before = consts_written(buf, start, rest);
        assert(consts_written(buf, start, consts).subrange(from, from + len) =~= before.subrange(
            from,
            from + len,
        ));
    }
}

proof fn lemma_number_found(buf: Seq<u8>, start: int, numbers: Seq<RecordNumber>, k: int)
    requires
        0 <= start,
        0 <= k < numbers.len(),
        forall|i: int, j: int|
            0 <= i < j < numbers.len() ==> (#[trigger] numbers[i]).index != (
            #[trigger] numbers[j]).index,
        argument_place(start, numbers[k].index) + 8 <= buf.len(),
    ensures
        numbers_written(buf, start, numbers).len() == buf.len(),
        numbers_written(buf, start, numbers).subrange(
            argument_place(start, numbers[k].index),
            argument_place(start, numbers[k].index) + 8,
        ) == le_bytes(numbers[k].number as nat, 8),
    decreases numbers.len(),
{
    let rest = numbers.drop_last();
    let last = numbers.last();
    let from = argument_place(start, numbers[k].index);
    let after = numbers_written(buf, start, numbers);
    let before = numbers_written(buf, start, rest);
    lemma_le_bytes_len(last.number as nat, 8);
    assert forall|j: int| 0 <= j < rest.len() implies #[trigger] rest[j] == numbers[j] by {}
    lemma_numbers_len(buf, start, rest);
    if k < rest.len() {
        assert(numbers[k].index != numbers[numbers.len() - 1].index);
        lemma_number_found(buf, start, rest, k);
        assert(after.subrange(from, from + 8) =~= before.subrange(from, from + 8));
    } else {
        assert(after.subrange(from, from + 8) =~= le_bytes(last.number as nat, 8));
    }
}

proof fn lemma_numbers_len(buf: Seq<u8>, start: int, numbers: Seq<RecordNumber>)
    ensures
        numbers_written(buf, start, numbers).len() == buf.len(),
    decreases numbers.len(),
{
    if numbers.len() > 0 {
        lemma_numbers_len(buf, start, numbers.drop_last());
    }
}

proof fn lemma_consts_len(buf: Seq<u8>, start: int, consts: Seq<RecordConstView>)
    ensures
        consts_written(buf, start, consts).len() == buf.len(),
    decreases consts.len(),
{
    if consts.len() > 0 {
        lemma_consts_len(buf, start, consts.drop_last());
    }
}

proof fn lemma_const_found(buf: Seq<u8>, start: int, consts: Seq<RecordConstView>, k: int)
    requires
        0 <= start,
        0 <= k < consts.len(),
        forall|i: int, j: int|
            0 <= i < j < consts.len() ==> ranges_apart(
                8 * (#[trigger] consts[i]).index,
                consts[i].data.len(),
                8 * (#[trigger] consts[j]).index,
                consts[j].data.len(),
            ),
        argument_place(start, consts[k].index) + consts[k].data.len() <= buf.len(),
    ensures
        consts_written(buf, start, consts).len() == buf.len(),
        consts_written(buf, start, consts).subrange(
            argument_place(start, consts[k].index),
            argument_place(start, consts[k].index) + consts[k].data.len(),
        ) == consts[k].data,
    decreases consts.len(),
{
    let rest = consts.drop_last();
    let last = consts.last();
    let len = consts[k].data.len();
    let from = argument_place(start, consts[k].index);
    let after = consts_written(buf, start, consts);
    let before = consts_written(buf, start, rest);
    assert forall|j: int| 0 <= j < rest.len() implies #[trigger] rest[j] == consts[j] by {}
    lemma_consts_len(buf, start, rest);
    if k < rest.len() {
        assert(ranges_apart(
            8 * consts[k].index,
            len,
            8 * consts[consts.len() - 1].index,
            last.data.len(),
        ));
        lemma_const_found(buf, start, rest, k);
        assert(after.subrange(from, from + len) =~= before.subrange(from, from + len));
    } else {
        assert(after.subrange(from, from + len) =~= last.data);
    }
}

/// What the GPU reads of the record `k` of a table whose records have different indexes: behind the
/// identifier of the shader, which takes 32 bytes, each root argument stands eight bytes times its
/// index further on, if no two of them have a byte in common.
pub proof fn lemma_arguments_found(
    records: Seq<RecordDataView>,
    shader_ids: Seq<Seq<u8>>,
    k: int,
    j: int,
)
    requires
        shader_ids_ok(records, shader_ids),
        indexes_distinct(records),
        0 <= k < records.len(),
        arguments_apart(records[k]),
    ensures
        ({
            let stride = record_stride(records);
            let table = table_bytes(records, shader_ids, stride, table_size(records));
            let record = records[k];
            let start = record.index * stride + 32;
            &&& shader_ids[k].len() == 32
            &&& table.subrange(start - 32, start) == shader_ids[k]
            &&& 0 <= j < record.binds.len() ==> le_number(
                table.subrange(
                    start + 8 * record.binds[j].index,
                    start + 8 * record.binds[j].index + 8,
                ),
            ) == record.binds[j].number
            &&& 0 <= j < record.views.len() ==> le_number(
                table.subrange(
                    start + 8 * record.views[j].index,
                    start + 8 * record.views[j].index + 8,
                ),
            ) == record.views[j].number
            &&& 0 <= j < record.consts.len() ==> table.subrange(
                start + 8 * record.consts[j].index,
                start + 8 * record.consts[j].index + record.consts[j].data.len(),
            ) == record.consts[j].data
        }),
{
    let stride = record_stride(records);
    let size = table_size(records);
    let table = table_bytes(records, shader_ids, stride, size);
    let record = records[k];
    let start = record.index * stride;
    let buf = table_bytes(records.take(k), shader_ids, stride, size);
    let alone = record_written(buf, start, shader_ids[k], record);
    assert(0 <= start) by (nonlinear_arith)
        requires
            start == record.index * stride,
    ;
    lemma_record_found(records, shader_ids, k);
    lemma_record_fits(records, k);
    lemma_table_len(records, shader_ids, k);
    let a = written(buf, start, shader_ids[k]);
    let b = numbers_written(a, start, record.binds);
    let c = numbers_written(b, start, record.views);
    lemma_numbers_len(a, start, record.binds);
    lemma_numbers_len(b, start, record.views);
    lemma_consts_len(c, start, record.consts);
    reveal_with_fuel(le_range, 9);
    if 0 <= j < record.binds.len() {
        let from = argument_place(start, record.binds[j].index);
        lemma_number_found(a, start, record.binds, j);
        lemma_numbers_keep(b, start, record.views, from, 8);
        lemma_consts_keep(c, start, record.consts, from, 8);
        lemma_same_range(table, alone, start, start + stride, from, from + 8);
        lemma_le_round_trip(record.binds[j].number as nat, 8);
    }
    if 0 <= j < record.views.len() {
        let from = argument_place(start, record.views[j].index);
        lemma_number_found(b, start, record.views, j);
        lemma_consts_keep(c, start, record.consts, from, 8);
        lemma_same_range(table, alone, start, start + stride, from, from + 8);
        lemma_le_round_trip(record.views[j].number as nat, 8);
    }
    if 0 <= j < record.consts.len() {
        let from = argument_place(start, record.consts[j].index);
        let len = record.consts[j].data.len();
        lemma_const_found(c, start, record.consts, j);
        lemma_same_range(table, alone, start, start + stride, from, from + len);
    }
}

proof fn lemma_same_range(a: Seq<u8>, b: Seq<u8>, start: int, end: int, from: int, to: int)
    requires
        0 <= start <= from <= to <= end <= a.len(),
        a.len() == b.len(),
        a.subrange(start, end) == b.subrange(start, end),
    ensures
        a.subrange(from, to) == b.subrange(from, to),
{
    let x = a.subrange(start, end);
    let y = b.subrange(start, end);
    assert(a.subrange(from, to) =~= x.subrange(from - start, to - start));
    assert(b.subrange(from, to) =~= y.subrange(from - start, to - start));
}

/// Records are no further apart than they must be. If behind the 32 bytes of an identifier each
/// number ends at or before `stride`, and each constant, filled up to a multiple of eight bytes,
/// before `stride`, then a multiple of 32 bytes is enough.
pub proof fn lemma_stride_is_least(records: Seq<RecordDataView>, stride: nat)
    requires
        stride % 32 == 0,
        stride >= 32,
        forall|k: int, j: int|
            0 <= k < records.len() && 0 <= j < records[k].binds.len() ==> 32 + 8 * (
            #[trigger] records[k].binds[j]).index + 8 <= stride,
        forall|k: int, j: int|
            0 <= k < records.len() && 0 <= j < records[k].views.len() ==> 32 + 8 * (
            #[trigger] records[k].views[j]).index + 8 <= stride,
        forall|k: int, j: int|
            0 <= k < records.len() && 0 <= j < records[k].consts.len() ==> 32 + 8 * (
            #[trigger] records[k].consts[j]).index + aligned(records[k].consts[j].data.len(), 8)
                < stride,
    ensures
        record_stride(records) <= stride,
{
    lemma_reach_limit(records, (stride - 32) as nat);
    lemma_aligned(records_reach(records) + 32, 32, stride);
}

proof fn lemma_reach_limit(records: Seq<RecordDataView>, limit: nat)
    requires
        forall|k: int, j: int|
            0 <= k < records.len() && 0 <= j < records[k].binds.len() ==> 8 * (
            #[trigger] records[k].binds[j]).index + 8 <= limit,
        forall|k: int, j: int|
            0 <= k < records.len() && 0 <= j < records[k].views.len() ==> 8 * (
            #[trigger] records[k].views[j]).index + 8 <= limit,
        forall|k: int, j: int|
            0 <= k < records.len() && 0 <= j < records[k].consts.len() ==> 8 * (
            #[trigger] records[k].consts[j]).index + aligned(records[k].consts[j].data.len(), 8)
                < limit,
    ensures
        records_reach(records) <= limit,
    decreases records.len(),
{
    if records.len() > 0 {
        let rest = records.drop_last();
        let last = records.last();
        let n = records.len() - 1;
        assert forall|k: int| 0 <= k < rest.len() implies #[trigger] rest[k] == records[k] by {}
        assert(last == records[n]);
        lemma_reach_limit(rest, limit);
        assert forall|j: int| 0 <= j < last.binds.len() implies 8 * (
        #[trigger] last.binds[j]).index + 8 <= limit by {
            assert(last.binds[j] == records[n].binds[j]);
        }
        assert forall|j: int| 0 <= j < last.views.len() implies 8 * (
        #[trigger] last.views[j]).index + 8 <= limit by {
            assert(last.views[j] == records[n].views[j]);
        }
        assert forall|j: int| 0 <= j < last.consts.len() implies 8 * (
        #[trigger] last.consts[j]).index + aligned(last.consts[j].data.len(), 8) < limit by {
            assert(last.consts[j] == records[n].consts[j]);
        }
        let binds = numbers_reach(last.binds, records_reach(rest));
        lemma_numbers_limit(last.binds, records_reach(rest), limit);
        lemma_consts_limit(last.consts, binds, limit);
        lemma_numbers_limit(last.views, consts_reach(last.consts, binds), limit);
    }
}

proof fn lemma_numbers_limit(numbers: Seq<RecordNumber>, least: nat, limit: nat)
    requires
        least <= limit,
        forall|j: int|
            0 <= j < numbers.len() ==> 8 * (#[trigger] numbers[j]).index + 8 <= limit,
    ensures
        numbers_reach(numbers, least) <= limit,
    decreases numbers.len(),
{
    if numbers.len() > 0 {
        let rest = numbers.drop_last();
        assert forall|j: int| 0 <= j < rest.len() implies #[trigger] rest[j] == numbers[j] by {}
        assert(numbers.last() == numbers[numbers.len() - 1]);
        lemma_numbers_limit(rest, least, limit);
    }
}

proof fn lemma_consts_limit(consts: Seq<RecordConstView>, least: nat, limit: nat)
    requires
        least <= limit,
        forall|j: int|
            0 <= j < consts.len() ==> 8 * (#[trigger] consts[j]).index + aligned(
                consts[j].data.len(),
                8,
            ) < limit,
    ensures
        consts_reach(consts, least) <= limit,
    decreases consts.len(),
{
    if consts.len() > 0 {
        let rest = consts.drop_last();
        assert forall|j: int| 0 <= j < rest.len() implies #[trigger] rest[j] == consts[j] by {}
        assert(consts.last() == consts[consts.len() - 1]);
        lemma_consts_limit(rest, least, limit);
    }
}

/// The largest distance of records is 4096 bytes, which is a distance that records can have.
pub proof fn lemma_max_stride()
    ensures
        MAX_RECORD_STRIDE == 4096,
        MAX_RECORD_STRIDE % RECORD_ALIGNMENT == 0,
        SHADER_ID_SIZE <= MAX_RECORD_STRIDE,
{
}

/// A table has room for its records and for no more: it ends behind the record with the highest
/// index. Its bytes are those of the records, one stride for each.
pub proof fn lemma_table_size(records: Seq<RecordDataView>)
    ensures
        records.len() == 0 ==> table_size(records) == 0,
        records.len() > 0 ==> exists|k: int|
            0 <= k < records.len() && record_count(records) == (
            #[trigger] records[k]).index + 1 && table_size(records) == (records[k].index + 1)
                * record_stride(records),
        forall|k: int|
            0 <= k < records.len() ==> (#[trigger] records[k]).index < record_count(records),
    decreases records.len(),
{
    if records.len() > 0 {
        let rest = records.drop_last();
        lemma_table_size(rest);
        assert forall|k: int| 0 <= k < rest.len() implies #[trigger] rest[k] == records[k] by {}
        if record_count(records) == records.last().index + 1 {
            let k = records.len() - 1;
            assert(records[k] == records.last());
        } else {
            let k = choose|k: int|
                0 <= k < rest.len() && record_count(rest) == (#[trigger] rest[k]).index + 1;
            assert(records[k] == rest[k]);
        }
        assert forall|k: int| 0 <= k < records.len() implies (#[trigger] records[k]).index
            < record_count(records) by {
            lemma_record_count(records, k);
        }
    } else {
        let stride = record_stride(records);
        assert(0 * stride == 0) by (nonlinear_arith);
    }
}

/// How many bytes numbers reach into the root arguments, at least `least`.
fn get_numbers_reach(numbers: &Vec<RecordNumber>, least: u128) -> (reach: u128)
    requires
        least <= 0xffff_ffff_ffff_ffff_ffff,
    ensures
        reach == numbers_reach(numbers@, least as nat),
        reach <= 0xffff_ffff_ffff_ffff_ffff,
{
    let mut reach: u128 = least;
    let mut i: usize = 0;
    assert(numbers@.take(0) =~= Seq::<RecordNumber>::empty());
    while i < numbers.len()
        invariant
            i <= numbers@.len(),
            reach == numbers_reach(numbers@.take(i as int), least as nat),
            reach <= 0xffff_ffff_ffff_ffff_ffff,
        decreases numbers@.len() - i,
    {
        assert(numbers@.take(i + 1).drop_last() =~= numbers@.take(i as int));
        let end: u128 = numbers[i].index as u128 * 8 + 1;
        if reach < end {
            reach = end;
        }
        i += 1;
    }
    assert(numbers@.take(i as int) =~= numbers@);
    reach
}

/// How many bytes constants reach into the root arguments, at least `least`.
fn get_consts_reach(consts: &Vec<RecordConst>, least: u128) -> (reach: u128)
    requires
        least <= 0xffff_ffff_ffff_ffff_ffff,
    ensures
        reach == consts_reach(consts.deep_view(), least as nat),
        reach <= 0xffff_ffff_ffff_ffff_ffff,
{
    let ghost all = consts.deep_view();
    let mut reach: u128 = least;
    let mut i: usize = 0;
    assert(all.take(0) =~= Seq::<RecordConstView>::empty());
    while i < consts.len()
        invariant
            i <= consts@.len(),
            all == consts.deep_view(),
            reach == consts_reach(all.take(i as int), least as nat),
            reach <= 0xffff_ffff_ffff_ffff_ffff,
        decreases consts@.len() - i,
    {
        assert(all.take(i + 1).drop_last() =~= all.take(i as int));
        assert(all.take(i + 1).last() == consts@[i as int].deep_view());
        let len: usize = consts[i].data.len();
        proof {
            lemma_aligned(len as nat, 8, 0);
        }
        let end: u128 = consts[i].index as u128 * 8 + next_multiple_of(len as u128, 8) + 1;
        if reach < end {
            reach = end;
        }
        i += 1;
    }
    assert(all.take(i as int) =~= all);
    reach
}

/// How many bytes the records of a table are apart.
pub fn get_local_root_sig_stride(records: &Vec<RecordData>) -> (stride: u128)
    ensures
        stride == record_stride(records.deep_view()),
{
    let ghost all = records.deep_view();
    let mut reach: u128 = 0;
    let mut i: usize = 0;
    assert(all.take(0) =~= Seq::<RecordDataView>::empty());
    while i < records.len()
        invariant
            i <= records@.len(),
            all == records.deep_view(),
            reach == records_reach(all.take(i as int)),
            reach <= 0xffff_ffff_ffff_ffff_ffff,
        decreases records@.len() - i,
    {
        assert(all.take(i + 1).drop_last() =~= all.take(i as int));
        assert(all.take(i + 1).last() == records@[i as int].deep_view());
        reach = get_numbers_reach(&records[i].binds, reach);
        reach = get_consts_reach(&records[i].consts, reach);
        reach = get_numbers_reach(&records[i].views, reach);
        i += 1;
    }
    assert(all.take(i as int) =~= all);
    proof {
        lemma_aligned((reach + 32) as nat, 32, 0);
    }
    next_multiple_of(reach + SHADER_ID_SIZE as u128, RECORD_ALIGNMENT as u128)
}

/// How many records a table has room for.
pub fn get_record_count(records: &Vec<RecordData>) -> (count: u64)
    ensures
        count == record_count(records.deep_view()),
{
    let ghost all = records.deep_view();
    let mut count: u64 = 0;
    let mut i: usize = 0;
    assert(all.take(0) =~= Seq::<RecordDataView>::empty());
    while i < records.len()
        invariant
            i <= records@.len(),
            all == records.deep_view(),
            count == record_count(all.take(i as int)),
            count <= 0x1_0000_0000,
        decreases records@.len() - i,
    {
        assert(all.take(i + 1).drop_last() =~= all.take(i as int));
        assert(all.take(i + 1).last() == records@[i as int].deep_view());
        let end: u64 = records[i].index as u64 + 1;
        if count < end {
            count = end;
        }
        i += 1;
    }
    assert(all.take(i as int) =~= all);
    count
}

/// How a table is laid out.
#[derive(Clone, Copy, Debug, Eq, Hash, PartialEq, Structural)]
pub struct TableLayout {
    /// Bytes from the start of a record to the start of the next
    pub stride: u64,
    /// Bytes of the whole table
    pub size: u64,
}

/// The root arguments of a table's records are too long.
#[derive(Clone, Copy, Debug, Eq, Hash, PartialEq, Structural)]
pub struct TooManyLocalRootEntries {
    pub stride: u128,
    pub max_size: u64,
}

/// How the table of records is laid out. There is an upper limit to the stride.
pub fn table_layout(records: &Vec<RecordData>) -> (result: Result<
    TableLayout,
    TooManyLocalRootEntries,
>)
    ensures
        match result {
            Ok(layout) => record_stride(records.deep_view()) <= MAX_RECORD_STRIDE && layout.stride
                == record_stride(records.deep_view()) && layout.size == table_size(
                records.deep_view(),
            ),
            Err(e) => record_stride(records.deep_view()) > MAX_RECORD_STRIDE && e.stride
                == record_stride(records.deep_view()) && e.max_size == MAX_RECORD_STRIDE,
        },
{
    let stride: u128 = get_local_root_sig_stride(records);
    if stride > MAX_RECORD_STRIDE as u128 {
        return Err(TooManyLocalRootEntries { stride, max_size: MAX_RECORD_STRIDE as u64 });
    }
    let count: u64 = get_record_count(records);
    proof {
        lemma_count_limit(records.deep_view());
    }
    let stride: u64 = stride as u64;
    assert(count * stride <= 0x1_0000_0000 * 4096) by (nonlinear_arith)
        requires
            count <= 0x1_0000_0000,
            stride <= 4096,
    ;
    Ok(TableLayout { stride, size: count * stride })
}

proof fn lemma_count_limit(records: Seq<RecordDataView>)
    ensures
        record_count(records) <= 0x1_0000_0000,
    decreases records.len(),
{
    if records.len() > 0 {
        lemma_count_limit(records.drop_last());
    }
}

/// Writes numbers to the record that starts at a place.
fn write_numbers(table: &mut Vec<u8>, start: usize, numbers: &Vec<RecordNumber>, stride: usize)
    requires
        start + stride <= old(table)@.len(),
        forall|j: int|
            0 <= j < numbers@.len() ==> argument_place(0, (#[trigger] numbers@[j]).index) + 8
                <= stride,
    ensures
        final(table)@ == numbers_written(old(table)@, start as int, numbers@),
        final(table)@.len() == old(table)@.len(),
{
    let total: usize = table.len();
    let mut i: usize = 0;
    assert(numbers@.take(0) =~= Seq::<RecordNumber>::empty());
    while i < numbers.len()
        invariant
            i <= numbers@.len(),
            start + stride <= total,
            total == old(table)@.len(),
            table@.len() == total,
            forall|j: int|
                0 <= j < numbers@.len() ==> argument_place(0, (#[trigger] numbers@[j]).index) + 8
                    <= stride,
            table@ == numbers_written(old(table)@, start as int, numbers@.take(i as int)),
        decreases numbers@.len() - i,
    {
        let ghost n = numbers@[i as int];
        assert(numbers@.take(i + 1).drop_last() =~= numbers@.take(i as int));
        assert(argument_place(0, n.index) + 8 <= stride);
        let mut bytes: Vec<u8> = Vec::new();
        push_le(&mut bytes, numbers[i].number as u128, 8);
        proof {
            lemma_le_bytes_len(n.number as nat, 8);
            assert(bytes@ =~= le_bytes(n.number as nat, 8));
        }
        write_bytes(table, start + SHADER_ID_SIZE + numbers[i].index as usize * 8, &bytes);
        i += 1;
    }
    assert(numbers@.take(i as int) =~= numbers@);
}

/// Writes constants to the record that starts at a place.
fn write_consts(table: &mut Vec<u8>, start: usize, consts: &Vec<RecordConst>, stride: usize)
    requires
        start + stride <= old(table)@.len(),
        forall|j: int|
            0 <= j < consts@.len() ==> argument_place(
                0,
                (#[trigger] consts.deep_view()[j]).index,
            ) + consts.deep_view()[j].data.len() <= stride,
    ensures
        final(table)@ == consts_written(old(table)@, start as int, consts.deep_view()),
        final(table)@.len() == old(table)@.len(),
{
    let ghost all = consts.deep_view();
    let total: usize = table.len();
    let mut i: usize = 0;
    assert(all.take(0) =~= Seq::<RecordConstView>::empty());
    while i < consts.len()
        invariant
            i <= consts@.len(),
            all == consts.deep_view(),
            start + stride <= total,
            total == old(table)@.len(),
            table@.len() == total,
            forall|j: int|
                0 <= j < all.len() ==> argument_place(0, (#[trigger] all[j]).index)
                    + all[j].data.len() <= stride,
            table@ == consts_written(old(table)@, start as int, all.take(i as int)),
        decreases consts@.len() - i,
    {
        let ghost c = all[i as int];
        assert(c == consts@[i as int].deep_view());
        assert(all.take(i + 1).drop_last() =~= all.take(i as int));
        assert(argument_place(0, c.index) + c.data.len() <= stride);
        write_bytes(
            table,
            start + SHADER_ID_SIZE + consts[i].index as usize * 8,
            &consts[i].data,
        );
        i += 1;
    }
    assert(all.take(i as int) =~= all);
}

/// The bytes of a table, with the identifier of a shader for each record.
pub fn get_table_bytes(
    records: &Vec<RecordData>,
    shader_ids: &Vec<Vec<u8>>,
    layout: TableLayout,
) -> (table: Vec<u8>)
    requires
        shader_ids_ok(records.deep_view(), shader_ids.deep_view()),
        layout.stride == record_stride(records.deep_view()),
        layout.size == table_size(records.deep_view()),
        layout.size <= usize::MAX,
    ensures
        table@ == table_bytes(
            records.deep_view(),
            shader_ids.deep_view(),
            layout.stride as nat,
            layout.size as nat,
        ),
{
    let ghost all = records.deep_view();
    let ghost ids = shader_ids.deep_view();
    let mut table = zero_bytes(layout.size as usize);
    let mut i: usize = 0;
    assert(all.take(0) =~= Seq::<RecordDataView>::empty());
    assert(table@ =~= table_bytes(all.take(0), ids, layout.stride as nat, layout.size as nat));
    while i < records.len()
        invariant
            i <= records@.len(),
            all == records.deep_view(),
            ids == shader_ids.deep_view(),
            shader_ids_ok(all, ids),
            layout.stride == record_stride(all),
            layout.size == table_size(all),
            layout.size <= usize::MAX,
            table@.len() == layout.size,
            table@ == table_bytes(
                all.take(i as int),
                ids,
                layout.stride as nat,
                layout.size as nat,
            ),
        decreases records@.len() - i,
    {
        let record = &records[i];
        let ghost r = record.deep_view();
        proof {
            assert(all.take(i + 1).drop_last() =~= all.take(i as int));
            assert(all.take(i + 1).last() == r);
            assert(ids[i as int] == shader_ids@[i as int]@);
            lemma_record_in_table(all, i as int);
            lemma_record_fits(all, i as int);
            assert(all[i as int] == r);
            assert(0 <= r.index * layout.stride) by (nonlinear_arith);
            assert(r.index * layout.stride == r.index * record_stride(all));
        }
        let start: usize = (record.index as u64 * layout.stride) as usize;
        let stride: usize = layout.stride as usize;
        assert(stride == record_stride(all));
        assert(record_fits(r, stride as nat));
        assert(r.binds == record.binds@ && r.views == record.views@);
        assert(r.consts == record.consts.deep_view());
        write_bytes(&mut table, start, &shader_ids[i]);
        write_numbers(&mut table, start, &record.binds, stride);
        write_numbers(&mut table, start, &record.views, stride);
        write_consts(&mut table, start, &record.consts, stride);
        i += 1;
    }
    assert(all.take(i as int) =~= all);
    table
}

} // verus!
