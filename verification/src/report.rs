//! Texts for the author of a script: dumps of buffers and explanations of failures.
use vstd::prelude::*;
use vstd::string::*;

use crate::script::{new_list, push_item, DumpFormat};
use crate::text::{decimal, decimal_digits, join, joined, repeated, right_align, right_aligned};
use crate::value::{is_float, DataType, Value};

verus! {

/// The name of a data type.
pub open spec fn data_type_text(typ: DataType) -> Seq<char> {
    match typ {
        DataType::U64 => "uint64"@,
        DataType::U32 => "uint32"@,
        DataType::U16 => "uint16"@,
        DataType::U8 => "uint8"@,
        DataType::F32 => "float"@,
        DataType::F16 => "float16"@,
    }
}

impl DataType {
    /// The name of the data type.
    pub fn text(self) -> (text: &'static str)
        ensures
            text@ == data_type_text(self),
    {
        match self {
            DataType::U64 => "uint64",
            DataType::U32 => "uint32",
            DataType::U16 => "uint16",
            DataType::U8 => "uint8",
            DataType::F32 => "float",
            DataType::F16 => "float16",
        }
    }
}

/// The name of an integer type is `uint` and the number of its bits. The name of a floating-point
/// type is `float`, and the number of its bits unless they are 32.
pub proof fn lemma_data_type_text(typ: DataType)
    ensures
        !is_float(typ) ==> data_type_text(typ) == "uint"@ + decimal_digits(8 * typ.size()),
        is_float(typ) ==> data_type_text(typ) == "float"@ + if typ.size() == 4 {
            Seq::empty()
        } else {
            decimal_digits(8 * typ.size())
        },
{
    reveal_strlit("uint");
    reveal_strlit("uint64");
    reveal_strlit("uint32");
    reveal_strlit("uint16");
    reveal_strlit("uint8");
    reveal_strlit("float");
    reveal_strlit("float16");
    reveal_with_fuel(decimal_digits, 3);
    assert(decimal_digits(64) =~= seq!['6', '4']);
    assert(decimal_digits(32) =~= seq!['3', '2']);
    assert(decimal_digits(16) =~= seq!['1', '6']);
    assert(decimal_digits(8) =~= seq!['8']);
    assert("uint64"@ =~= "uint"@ + seq!['6', '4']);
    assert("uint32"@ =~= "uint"@ + seq!['3', '2']);
    assert("uint16"@ =~= "uint"@ + seq!['1', '6']);
    assert("uint8"@ =~= "uint"@ + seq!['8']);
    assert("float"@ =~= "float"@ + Seq::empty());
    assert("float16"@ =~= "float"@ + seq!['1', '6']);
}

impl Value {
    /// An integer in decimal. A floating-point number is not shown here.
    pub fn integer_text(self) -> (text: Option<String>)
        ensures
            match text {
                Some(t) => !crate::value::is_float(self.spec_type()) && t@ == decimal_digits(
                    self.bits(),
                ),
                None => crate::value::is_float(self.spec_type()),
            },
    {
        match self {
            Value::F32(_) => None,
            Value::F16(_) => None,
            _ => Some(decimal(self.to_bits())),
        }
    }
}

/// Values in columns of `width` characters, with a space between each two.
pub open spec fn value_row(texts: Seq<Seq<char>>, width: nat) -> Seq<char> {
    joined(Seq::new(texts.len(), |i: int| right_aligned(texts[i], width)), " "@)
}

/// Writes the values from `start` up to `end` in columns of `width` characters.
fn write_row(texts: &Vec<String>, start: usize, end: usize, width: usize) -> (row: String)
    requires
        start <= end <= texts@.len(),
    ensures
        row@ == value_row(texts.deep_view().subrange(start as int, end as int), width as nat),
{
    let mut aligned: Vec<String> = new_list();
    let mut i: usize = start;
    while i < end
        invariant
            start <= i <= end <= texts@.len(),
            aligned.deep_view() == Seq::new(
                (i - start) as nat,
                |j: int| right_aligned(texts.deep_view()[start + j], width as nat),
            ),
        decreases end - i,
    {
        push_item(&mut aligned, right_align(texts[i].as_str(), width));
        i += 1;
        assert(aligned.deep_view() =~= Seq::new(
            (i - start) as nat,
            |j: int| right_aligned(texts.deep_view()[start + j], width as nat),
        ));
    }
    proof {
        let part = texts.deep_view().subrange(start as int, end as int);
        assert(aligned.deep_view() =~= Seq::new(
            part.len(),
            |j: int| right_aligned(part[j], width as nat),
        ));
    }
    join(&aligned, " ")
}

/// The length of the longest text.
pub open spec fn longest(texts: Seq<Seq<char>>) -> nat
    decreases texts.len(),
{
    if texts.len() == 0 {
        0
    } else if texts.last().len() > longest(texts.drop_last()) {
        texts.last().len()
    } else {
        longest(texts.drop_last())
    }
}

/// No text is longer than the longest, and one is as long.
pub proof fn lemma_longest(texts: Seq<Seq<char>>)
    ensures
        forall|i: int| 0 <= i < texts.len() ==> (#[trigger] texts[i]).len() <= longest(texts),
        texts.len() == 0 ==> longest(texts) == 0,
        texts.len() > 0 ==> exists|i: int|
            0 <= i < texts.len() && (#[trigger] texts[i]).len() == longest(texts),
    decreases texts.len(),
{
    if texts.len() > 0 {
        let rest = texts.drop_last();
        lemma_longest(rest);
        assert forall|i: int| 0 <= i < texts.len() implies (#[trigger] texts[i]).len() <= longest(
            texts,
        ) by {
            if i < rest.len() {
                assert(rest[i] == texts[i]);
            }
        }
        if longest(texts) == texts.last().len() {
            assert(texts[texts.len() - 1].len() == longest(texts));
        } else {
            let i = choose|i: int| 0 <= i < rest.len() && (#[trigger] rest[i]).len() == longest(rest);
            assert(texts[i].len() == longest(texts));
        }
    }
}

/// The length of the longest text.
fn longest_text(texts: &Vec<String>) -> (len: usize)
    ensures
        len == longest(texts.deep_view()),
{
    let mut len: usize = 0;
    let mut i: usize = 0;
    assert(texts.deep_view().take(0) =~= Seq::<Seq<char>>::empty());
    while i < texts.len()
        invariant
            i <= texts@.len(),
            len == longest(texts.deep_view().take(i as int)),
        decreases texts@.len() - i,
    {
        proof {
            let next = texts.deep_view().take(i + 1);
            assert(next.drop_last() =~= texts.deep_view().take(i as int));
            assert(next.last() == texts[i as int]@);
        }
        let n: usize = texts[i].as_str().unicode_len();
        if n > len {
            len = n;
        }
        i += 1;
    }
    assert(texts.deep_view().take(i as int) =~= texts.deep_view());
    len
}

/// A dump of a buffer: its name, the type and texts of its values, how many stand on a line, and
/// how a line looks.
pub struct DumpView {
    pub name: Seq<char>,
    pub typ: DataType,
    pub texts: Seq<Seq<char>>,
    pub stride: Option<u64>,
    pub format: DumpFormat,
}

impl DumpView {
    /// The number of values on a line: all of them, unless there is a stride.
    pub open spec fn per_line(self) -> int {
        match self.stride {
            Some(n) => n as int,
            None => self.texts.len() as int,
        }
    }

    /// Values are aligned only if there is a stride.
    pub open spec fn value_width(self) -> nat {
        if self.stride is Some {
            longest(self.texts)
        } else {
            0
        }
    }

    /// Offsets are as wide as that of the last full line could be. If all values are on one line,
    /// that is the offset zero.
    pub open spec fn offset_width(self) -> nat {
        let last = if self.per_line() <= self.texts.len() {
            self.texts.len() - self.per_line()
        } else {
            0
        };
        decimal_digits((last * self.typ.size()) as nat).len()
    }

    /// Whether a line can hold values.
    pub open spec fn lines_hold_values(self) -> bool {
        0 < self.per_line()
    }

    /// The number of lines.
    pub open spec fn lines(self) -> nat {
        ((self.texts.len() + self.per_line() - 1) / self.per_line()) as nat
    }

    /// The values on a line.
    pub open spec fn line_values(self, k: int) -> Seq<Seq<char>> {
        let start = k * self.per_line();
        let end = if start + self.per_line() <= self.texts.len() {
            start + self.per_line()
        } else {
            self.texts.len() as int
        };
        self.texts.subrange(start, end)
    }

    /// A line: the byte offset of its first value, and its values.
    pub open spec fn line(self, k: int) -> Seq<char> {
        let offset = right_aligned(
            decimal_digits((k * self.per_line() * self.typ.size()) as nat),
            self.offset_width(),
        );
        let values = value_row(self.line_values(k), self.value_width());
        match self.format {
            DumpFormat::List => self.name + "["@ + offset + "]: "@ + values,
            DumpFormat::Expect => "EXPECT "@ + self.name + " "@ + data_type_text(self.typ)
                + " OFFSET "@ + offset + " EQ "@ + values,
        }
    }
}

/// A line of a dump.
fn dump_line(
    name: &str,
    typ: DataType,
    format: DumpFormat,
    offset: &String,
    values: &String,
) -> (line: String)
    ensures
        line@ == match format {
            DumpFormat::List => name@ + "["@ + offset@ + "]: "@ + values@,
            DumpFormat::Expect => "EXPECT "@ + name@ + " "@ + data_type_text(typ) + " OFFSET "@
                + offset@ + " EQ "@ + values@,
        },
{
    let mut line = String::new();
    match format {
        DumpFormat::List => {
            line.append(name);
            line.append("[");
            line.append(offset.as_str());
            line.append("]: ");
            line.append(values.as_str());
            assert(line@ =~= name@ + "["@ + offset@ + "]: "@ + values@);
        },
        DumpFormat::Expect => {
            line.append("EXPECT ");
            line.append(name);
            line.append(" ");
            line.append(typ.text());
            line.append(" OFFSET ");
            line.append(offset.as_str());
            line.append(" EQ ");
            line.append(values.as_str());
            assert(line@ =~= "EXPECT "@ + name@ + " "@ + data_type_text(typ) + " OFFSET "@ + offset@
                + " EQ "@ + values@);
        },
    }
    line
}

/// The lines of a dump of a buffer `name`, whose values of the type `typ` are shown as `texts`.
pub fn dump_lines(
    name: &str,
    typ: DataType,
    texts: &Vec<String>,
    stride: Option<u64>,
    format: DumpFormat,
) -> (lines: Vec<String>)
    requires
        (DumpView {
            name: name@,
            typ,
            texts: texts.deep_view(),
            stride,
            format,
        }).lines_hold_values(),
        texts@.len() * typ.size() <= usize::MAX,
    ensures
        ({
            let dump = DumpView { name: name@, typ, texts: texts.deep_view(), stride, format };
            &&& lines@.len() == dump.lines()
            &&& forall|k: int| 0 <= k < lines@.len() ==> (#[trigger] lines@[k])@ == dump.line(k)
        }),
{
    let ghost dump = DumpView { name: name@, typ, texts: texts.deep_view(), stride, format };
    let count: usize = texts.len();
    let per_line: usize = match stride {
        Some(n) => if n < count as u64 {
            n as usize
        } else {
            count
        },
        None => count,
    };
    let ghost full = dump.per_line();
    let size: usize = typ.len();
    let value_width: usize = match stride {
        Some(_) => longest_text(texts),
        None => 0,
    };
    assert((count - per_line) * size <= count * size && 0 <= (count - per_line) * size)
        by (nonlinear_arith)
        requires
            0 <= per_line <= count,
            size >= 0,
    ;
    let offset_width: usize = decimal(((count - per_line) * size) as u64).as_str().unicode_len();
    let mut lines: Vec<String> = Vec::new();
    let mut start: usize = 0;
    while start < count
        invariant
            dump == (DumpView { name: name@, typ, texts: texts.deep_view(), stride, format }),
            full == dump.per_line(),
            0 < full,
            per_line == if full <= count {
                full
            } else {
                count as int
            },
            count == texts@.len(),
            size == typ.size(),
            count * size <= usize::MAX,
            value_width == dump.value_width(),
            offset_width == dump.offset_width(),
            start == lines@.len() * full || start == count && (lines@.len() - 1) * full < count
                <= lines@.len() * full,
            start <= count,
            lines@.len() > 0 ==> (lines@.len() - 1) * full < count,
            forall|k: int| 0 <= k < lines@.len() ==> (#[trigger] lines@[k])@ == dump.line(k),
        decreases count - start,
    {
        let ghost k = lines@.len() as int;
        let end: usize = if count - start <= per_line {
            count
        } else {
            start + per_line
        };
        assert(start * size <= count * size) by (nonlinear_arith)
            requires
                start <= count,
                size >= 0,
        ;
        let offset = right_align(decimal((start * size) as u64).as_str(), offset_width);
        let values = write_row(texts, start, end, value_width);
        let line = dump_line(name, typ, format, &offset, &values);
        assert((k + 1) * full == k * full + full) by (nonlinear_arith);
        lines.push(line);
        assert(line@ == dump.line(k));
        start = end;
    }
    proof {
        let n = lines@.len() as int;
        assert(n * full == (n - 1) * full + full) by (nonlinear_arith);
        assert(n == (count + full - 1) / full) by (nonlinear_arith)
            requires
                (n - 1) * full < count,
                count <= n * full,
                n * full == (n - 1) * full + full,
                full > 0,
        ;
    }
    lines
}

/// A dump shows each value once: the value `i` is on the line that `i` falls on, behind those before
/// it, and the offset of a line is that of its first byte.
pub proof fn lemma_dump_shows_value(dump: DumpView, i: int)
    requires
        0 <= i < dump.texts.len(),
        dump.lines_hold_values(),
    ensures
        ({
            let k = i / dump.per_line();
            let j = i % dump.per_line();
            &&& 0 <= k < dump.lines()
            &&& 0 <= j < dump.line_values(k).len() <= dump.per_line()
            &&& dump.line_values(k)[j] == dump.texts[i]
        }),
{
    let n = dump.per_line();
    let k = i / n;
    let len = dump.texts.len() as int;
    let lines = (len + n - 1) / n;
    assert(i == k * n + i % n && 0 <= i % n < n && 0 <= k * n && 0 <= k) by (nonlinear_arith)
        requires
            n > 0,
            i >= 0,
            k == i / n,
    ;
    assert(k < lines) by (nonlinear_arith)
        requires
            n > 0,
            i < len,
            i >= k * n,
            lines == (len + n - 1) / n,
    ;
}

/// Each line of a dump holds values: as many as there is room for, or on the last line those that
/// are left. Together they are as many as there are.
pub proof fn lemma_dump_line_len(dump: DumpView, k: int)
    requires
        dump.lines_hold_values(),
        0 <= k < dump.lines(),
    ensures
        k + 1 < dump.lines() ==> dump.line_values(k).len() == dump.per_line(),
        k + 1 == dump.lines() ==> 0 < dump.line_values(k).len() && k * dump.per_line()
            + dump.line_values(k).len() == dump.texts.len(),
        dump.line_values(k).len() <= dump.per_line(),
{
    let n = dump.per_line();
    let len = dump.texts.len() as int;
    let lines = (len + n - 1) / n;
    assert(0 <= k * n < len && (k + 1 < lines ==> k * n + n <= len) && (k + 1 == lines ==> len <= k
        * n + n)) by (nonlinear_arith)
        requires
            n > 0,
            len >= 0,
            0 <= k < lines,
            lines == (len + n - 1) / n,
    ;
}

/// If all lines are full, the offset of the last line is just as wide as the column of offsets.
/// Without a stride there is one line, and its values are not aligned. With a stride, each value fits
/// in its column, and one fills it.
pub proof fn lemma_dump_widths(dump: DumpView)
    requires
        dump.lines_hold_values(),
        dump.texts.len() > 0,
    ensures
        dump.texts.len() as int % dump.per_line() == 0 ==> dump.offset_width() == decimal_digits(
            ((dump.lines() - 1) * dump.per_line() * dump.typ.size()) as nat,
        ).len(),
        dump.stride is None ==> dump.lines() == 1 && dump.value_width() == 0,
        dump.stride is Some ==> {
            &&& forall|i: int|
                0 <= i < dump.texts.len() ==> (#[trigger] dump.texts[i]).len() <= dump.value_width()
            &&& exists|i: int|
                0 <= i < dump.texts.len() && (#[trigger] dump.texts[i]).len() == dump.value_width()
        },
{
    let n = dump.per_line();
    let len = dump.texts.len() as int;
    let lines = (len + n - 1) / n;
    lemma_longest(dump.texts);
    if len % n == 0 {
        assert(lines * n == len && (lines - 1) * n == len - n && n <= len) by (nonlinear_arith)
            requires
                n > 0,
                len > 0,
                len % n == 0,
                lines == (len + n - 1) / n,
        ;
    }
    if dump.stride is None {
        assert((len + len - 1) / len == 1) by (nonlinear_arith)
            requires
                len > 0,
        ;
    }
}

/// A line of a dump names the buffer and the byte at which its first value stands, and then shows its
/// values in columns.
pub proof fn lemma_dump_line(dump: DumpView, k: int)
    requires
        dump.format is List,
    ensures
        ({
            let offset = right_aligned(
                decimal_digits((k * dump.per_line() * dump.typ.size()) as nat),
                dump.offset_width(),
            );
            let n = dump.name.len() as int;
            let line = dump.line(k);
            &&& line.take(n) == dump.name
            &&& line[n] == '['
            &&& line.subrange(n + 1, n + 1 + offset.len()) == offset
            &&& line.subrange(n + 1 + offset.len(), n + 4 + offset.len()) == seq![']', ':', ' ']
            &&& line.skip(n + 4 + offset.len()) == value_row(
                dump.line_values(k),
                dump.value_width(),
            )
        }),
{
    reveal_strlit("[");
    reveal_strlit("]: ");
    let offset = right_aligned(
        decimal_digits((k * dump.per_line() * dump.typ.size()) as nat),
        dump.offset_width(),
    );
    let n = dump.name.len() as int;
    let line = dump.line(k);
    assert(line.take(n) =~= dump.name);
    assert(line.subrange(n + 1, n + 1 + offset.len()) =~= offset);
    assert(line.subrange(n + 1 + offset.len(), n + 4 + offset.len()) =~= seq![']', ':', ' ']);
    assert(line.skip(n + 4 + offset.len()) =~= value_row(dump.line_values(k), dump.value_width()));
}

/// The larger of two numbers.
pub open spec fn larger(a: nat, b: nat) -> nat {
    if a >= b {
        a
    } else {
        b
    }
}

/// The smaller of two numbers.
pub open spec fn smaller(a: nat, b: nat) -> nat {
    if a <= b {
        a
    } else {
        b
    }
}

/// The width of the column of two values: the longer of their texts fits in it.
pub open spec fn column_width(expected: Seq<Seq<char>>, actual: Seq<Seq<char>>, i: int) -> nat {
    larger(expected[i].len(), actual[i].len())
}

/// The first `n` expected values in columns.
pub open spec fn expected_columns(
    expected: Seq<Seq<char>>,
    actual: Seq<Seq<char>>,
    n: nat,
) -> Seq<char>
    decreases n,
{
    if n == 0 {
        Seq::empty()
    } else {
        expected_columns(expected, actual, (n - 1) as nat) + " "@ + right_aligned(
            expected[n - 1],
            column_width(expected, actual, n - 1),
        )
    }
}

/// The first `n` actual values in the same columns, only those that are not the same. A value
/// counts as the same only if `same` says so.
pub open spec fn actual_columns(
    expected: Seq<Seq<char>>,
    actual: Seq<Seq<char>>,
    same: Seq<bool>,
    n: nat,
) -> Seq<char>
    decreases n,
{
    if n == 0 {
        Seq::empty()
    } else {
        let shown = if n - 1 < same.len() && same[n - 1] {
            " "@
        } else {
            actual[n - 1]
        };
        actual_columns(expected, actual, same, (n - 1) as nat) + " "@ + right_aligned(
            shown,
            column_width(expected, actual, n - 1),
        )
    }
}

/// The width of the first `n` columns, each behind a space.
pub open spec fn columns_width(expected: Seq<Seq<char>>, actual: Seq<Seq<char>>, n: nat) -> nat
    decreases n,
{
    if n == 0 {
        0
    } else {
        columns_width(expected, actual, (n - 1) as nat) + 1 + column_width(expected, actual, n - 1)
    }
}

/// The actual values stand below the expected ones: both rows are as wide as their columns.
pub proof fn lemma_columns_aligned(
    expected: Seq<Seq<char>>,
    actual: Seq<Seq<char>>,
    same: Seq<bool>,
    n: nat,
)
    requires
        forall|i: int| #![trigger expected[i]] 0 <= i < n ==> column_width(expected, actual, i) > 0,
    ensures
        expected_columns(expected, actual, n).len() == columns_width(expected, actual, n),
        actual_columns(expected, actual, same, n).len() == columns_width(expected, actual, n),
    decreases n,
{
    if n > 0 {
        lemma_columns_aligned(expected, actual, same, (n - 1) as nat);
        reveal_strlit(" ");
        assert(column_width(expected, actual, n - 1) > 0);
    }
}

/// Each column holds the value that is expected, and below it the value that is there, unless it is
/// the same: then there are only spaces.
pub proof fn lemma_column(
    expected: Seq<Seq<char>>,
    actual: Seq<Seq<char>>,
    same: Seq<bool>,
    n: nat,
    i: int,
)
    requires
        0 <= i < n,
        forall|i: int| #![trigger expected[i]] 0 <= i < n ==> column_width(expected, actual, i) > 0,
    ensures
        ({
            let start = columns_width(expected, actual, i as nat) + 1;
            let end = columns_width(expected, actual, (i + 1) as nat);
            let width = (end - start) as nat;
            let above = expected_columns(expected, actual, n).subrange(start as int, end as int);
            let below = actual_columns(expected, actual, same, n).subrange(start as int, end as int);
            &&& start <= end <= columns_width(expected, actual, n)
            &&& width >= expected[i].len() && width >= actual[i].len()
            &&& width == expected[i].len() || width == actual[i].len()
            &&& above == right_aligned(expected[i], width)
            &&& i < same.len() && same[i] ==> forall|j: int|
                0 <= j < width ==> #[trigger] below[j] == ' '
            &&& !(i < same.len() && same[i]) ==> below == right_aligned(actual[i], width)
        }),
    decreases n,
{
    let m = (n - 1) as nat;
    let width = column_width(expected, actual, n - 1);
    let start = columns_width(expected, actual, i as nat) + 1;
    let end = columns_width(expected, actual, (i + 1) as nat);
    let above = expected_columns(expected, actual, n);
    let below = actual_columns(expected, actual, same, n);
    reveal_strlit(" ");
    assert(expected[n - 1].len() <= width);
    lemma_columns_aligned(expected, actual, same, m);
    lemma_columns_aligned(expected, actual, same, n);
    if i < m {
        lemma_column(expected, actual, same, m, i);
        assert(above.subrange(start as int, end as int) =~= expected_columns(
            expected,
            actual,
            m,
        ).subrange(start as int, end as int));
        assert(below.subrange(start as int, end as int) =~= actual_columns(
            expected,
            actual,
            same,
            m,
        ).subrange(start as int, end as int));
    } else {
        let shown = if i < same.len() && same[i] {
            " "@
        } else {
            actual[i]
        };
        assert(above.subrange(start as int, end as int) =~= right_aligned(expected[i], width));
        assert(below.subrange(start as int, end as int) =~= right_aligned(shown, width));
    }
}

/// Formats two number sequences to be aligned. The expected will always print all numbers,
/// the actually observed sequence only prints the numbers that are incorrect. Both end with the
/// shorter sequence.
pub fn aligned_buffer_format(expected: &Vec<String>, actual: &Vec<String>, same: &Vec<bool>) -> (r: (
    String,
    String,
))
    ensures
        ({
            let n = smaller(expected@.len(), actual@.len());
            &&& r.0@ == expected_columns(expected.deep_view(), actual.deep_view(), n)
            &&& r.1@ == actual_columns(expected.deep_view(), actual.deep_view(), same@, n)
        }),
{
    let ghost es = expected.deep_view();
    let ghost xs = actual.deep_view();
    let mut expect_out = String::new();
    let mut actual_out = String::new();
    let mut i: usize = 0;
    while i < expected.len() && i < actual.len()
        invariant
            i <= smaller(expected@.len(), actual@.len()),
            es == expected.deep_view(),
            xs == actual.deep_view(),
            expect_out@ == expected_columns(es, xs, i as nat),
            actual_out@ == actual_columns(es, xs, same@, i as nat),
        decreases expected@.len() - i,
    {
        assert(es[i as int] == expected[i as int]@ && xs[i as int] == actual[i as int]@);
        let e = expected[i].as_str();
        let a = actual[i].as_str();
        let e_len: usize = e.unicode_len();
        let a_len: usize = a.unicode_len();
        let width: usize = if e_len >= a_len {
            e_len
        } else {
            a_len
        };
        expect_out.append(" ");
        expect_out.append(right_align(e, width).as_str());
        actual_out.append(" ");
        if i < same.len() && same[i] {
            // values identical -> just write spaces
            actual_out.append(right_align(" ", width).as_str());
        } else {
            // Write diff
            actual_out.append(right_align(a, width).as_str());
        }
        i += 1;
    }
    (expect_out, actual_out)
}

/// What stands before the expected values.
pub open spec fn expected_prefix(offset: nat) -> Seq<char> {
    "Expected at OFFSET "@ + decimal_digits(offset) + ":"@
}

/// What stands before the differences.
pub open spec fn differences_prefix(name: Seq<char>) -> Seq<char> {
    "Differences in "@ + name + ":"@
}

/// The help text for a failed EXPECT statement.
pub open spec fn expect_help(
    name: Seq<char>,
    offset: nat,
    expected: Seq<Seq<char>>,
    actual: Seq<Seq<char>>,
    same: Seq<bool>,
) -> Seq<char> {
    let prefix_a = expected_prefix(offset);
    let prefix_b = differences_prefix(name);
    let width = larger(prefix_a.len(), prefix_b.len());
    let n = smaller(expected.len(), actual.len());
    "  ╰"@ + Seq::new(60, |i: int| '─') + "\n"@ + right_aligned(prefix_a, width)
        + expected_columns(expected, actual, n) + "\n"@ + right_aligned(prefix_b, width)
        + actual_columns(expected, actual, same, n) + "\n"@
}

/// Create the help string that is used with Expect and ExpectEpsilon errors
pub fn create_expect_help(
    resource_name: &str,
    offset: usize,
    expected: &Vec<String>,
    actual: &Vec<String>,
    same: &Vec<bool>,
) -> (help: String)
    ensures
        help@ == expect_help(
            resource_name@,
            offset as nat,
            expected.deep_view(),
            actual.deep_view(),
            same@,
        ),
{
    let (a, b) = aligned_buffer_format(expected, actual, same);
    // Keep description short to avoid word wrap as much as possible
    let mut prefix_a = String::from_str("Expected at OFFSET ");
    prefix_a.append(decimal(offset as u64).as_str());
    prefix_a.append(":");
    let mut prefix_b = String::from_str("Differences in ");
    prefix_b.append(resource_name);
    prefix_b.append(":");
    let len_a: usize = prefix_a.as_str().unicode_len();
    let len_b: usize = prefix_b.as_str().unicode_len();
    let width: usize = if len_a >= len_b {
        len_a
    } else {
        len_b
    };
    let mut help = String::from_str("  ╰");
    help.append(repeated('─', 60).as_str());
    help.append("\n");
    help.append(right_align(prefix_a.as_str(), width).as_str());
    help.append(a.as_str());
    help.append("\n");
    help.append(right_align(prefix_b.as_str(), width).as_str());
    help.append(b.as_str());
    help.append("\n");
    help
}

} // verus!
