//! Dumps that can be read again.
use vstd::prelude::*;

use crate::check::{expectation_holds, in_bounds, lemma_dump_line_expected};
use crate::content::resolved_values;
use crate::grammar::checks::{
    epsilon, expect, expect_value, expect_values, expect_values_from, ExpectItemsView,
};
use crate::grammar::laws::is_word;
use crate::grammar::statements::{script, statement, statements, statements_from};
use crate::grammar::tokens::{
    data_type, digit_value, digits_at, identifier, in_class, is_char, is_digit, keyword, line_end,
    line_ending, line_gap, line_gaps_end, literal, multiline_comment, radix_value, run_end,
    single_line_end, singleline_comment, space, space_identifier, space_item, spaces_end,
    starts_with, uint, value, word, CharClass,
};
use crate::parse_error::{int_max, Fail, IntType};
use crate::report::{data_type_text, value_row, DumpView};
use crate::script::{DirectiveView, DumpFormat, NumberForm, UnresolvedValue};
use crate::source::{IdentifierView, Script};
use crate::text::{decimal_digits, joined, right_aligned};
use crate::value::{is_float, typed_values, values_size, DataType, Value};

verus! {

proof fn lemma_run_exact(text: Seq<char>, p: int, q: int, class: CharClass)
    requires
        0 <= p <= q <= text.len(),
        forall|i: int| p <= i < q ==> in_class(class, #[trigger] text[i]),
        q < text.len() ==> !in_class(class, text[q]),
    ensures
        run_end(text, p, class) == q,
    decreases q - p,
{
    if p < q {
        assert(in_class(class, text[p]));
        lemma_run_exact(text, p + 1, q, class);
    }
}

/// A word that stands in a script is read there, if no letter, digit or underscore follows it.
pub proof fn lemma_reads_word(s: Script, p: int, w: Seq<char>)
    requires
        0 <= p,
        starts_with(s.text, p, w),
        is_word(w),
        p + w.len() < s.text.len() ==> !in_class(CharClass::Word, s.text[(p + w.len()) as int]),
    ensures
        word(s, p) == Ok::<(Seq<char>, int), Fail<Seq<char>>>((w, p + w.len())),
        identifier(s, p) == Ok::<(IdentifierView, int), Fail<Seq<char>>>(
            (s.object(w, p, p + w.len()), p + w.len()),
        ),
{
    reveal(word);
    reveal(identifier);
    let q = p + w.len();
    assert forall|i: int| p <= i < q implies in_class(CharClass::Word, #[trigger] s.text[i]) by {
        assert(s.text[i] == s.text.subrange(p, q)[i - p]);
        assert(in_class(CharClass::Word, w[i - p]));
    }
    assert(s.text[p] == s.text.subrange(p, q)[0]);
    lemma_run_exact(s.text, p, q, CharClass::Word);
}

/// Blanks are read up to what follows them.
proof fn lemma_reads_blanks(s: Script, p: int, q: int)
    requires
        0 <= p < q <= s.text.len(),
        forall|i: int| p <= i < q ==> #[trigger] s.text[i] == ' ',
        q < s.text.len() ==> s.text[q] != ' ' && s.text[q] != '\t' && s.text[q] != '/',
    ensures
        space(s, p) == Ok::<((), int), Fail<Seq<char>>>(((), q)),
{
    reveal(space);
    reveal(multiline_comment);
    lemma_run_exact(s.text, p, q, CharClass::Blank);
    lemma_run_exact(s.text, q, q, CharClass::Blank);
    assert(space_item(s, p) == Ok::<((), int), Fail<Seq<char>>>(((), q)));
    assert(space_item(s, q) is Err);
    assert(spaces_end(s, q) == q);
}

/// The decimal digits of a number.
pub proof fn lemma_decimal(n: nat)
    ensures
        decimal_digits(n).len() > 0,
        forall|i: int| 0 <= i < decimal_digits(n).len() ==> is_digit(#[trigger] decimal_digits(n)[i]),
        radix_value(decimal_digits(n), 10) == n,
    decreases n,
{
    let last = ('0' as u32 + n % 10) as char;
    assert(is_digit(last) && digit_value(last) == n % 10);
    if n < 10 {
        let digits = decimal_digits(n);
        assert(digits.drop_last() =~= Seq::<char>::empty());
        reveal_with_fuel(radix_value, 2);
    } else {
        lemma_decimal(n / 10);
        let front = decimal_digits(n / 10);
        let digits = decimal_digits(n);
        assert(digits == front.push(last));
        assert(digits.drop_last() =~= front);
        assert forall|i: int| 0 <= i < digits.len() implies is_digit(#[trigger] digits[i]) by {
            if i < front.len() {
                assert(digits[i] == front[i]);
            }
        }
    }
}

/// A number that stands in a script in decimal is read there, if a space follows it or nothing.
pub proof fn lemma_reads_number(s: Script, p: int, n: nat, typ: IntType)
    requires
        0 <= p,
        starts_with(s.text, p, decimal_digits(n)),
        n <= int_max(typ),
        p + decimal_digits(n).len() < s.text.len() ==> s.text[(p + decimal_digits(n).len()) as int]
            == ' ',
    ensures
        uint(s, p, typ) == Ok::<(u64, int), Fail<Seq<char>>>(
            (n as u64, p + decimal_digits(n).len()),
        ),
{
    reveal(uint);
    lemma_decimal(n);
    let w = decimal_digits(n);
    let q = p + w.len();
    assert forall|i: int| p <= i < q implies in_class(CharClass::Digit, #[trigger] s.text[i]) by {
        assert(s.text[i] == s.text.subrange(p, q)[i - p]);
        assert(is_digit(w[i - p]));
    }
    lemma_run_exact(s.text, p, q, CharClass::Digit);
    assert(!is_char(s.text, p + 1, 'x') && !is_char(s.text, p + 1, 'b')) by {
        if p + 1 < q {
            assert(in_class(CharClass::Digit, s.text[p + 1]));
        }
    }
    assert(digits_at(s.text, p) == (NumberForm::Decimal, p, q));
    assert(s.text.subrange(p, q) == w);
}

/// The same for a value of an integer type.
pub proof fn lemma_reads_value(s: Script, p: int, v: Value)
    requires
        0 <= p,
        !is_float(v.spec_type()),
        starts_with(s.text, p, decimal_digits(v.bits())),
        p + decimal_digits(v.bits()).len() < s.text.len() ==> s.text[(p + decimal_digits(
            v.bits(),
        ).len()) as int] == ' ',
    ensures
        value(s, p, v.spec_type()) == Ok::<
            (UnresolvedValue<Seq<char>>, int),
            Fail<Seq<char>>,
        >((UnresolvedValue::Resolved(v), p + decimal_digits(v.bits()).len())),
{
    reveal(value);
    match v {
        Value::U64(n) => {
            lemma_reads_number(s, p, n as nat, IntType::U64);
        },
        Value::U32(n) => {
            lemma_reads_number(s, p, n as nat, IntType::U32);
        },
        Value::U16(n) => {
            lemma_reads_number(s, p, n as nat, IntType::U16);
        },
        Value::U8(n) => {
            lemma_reads_number(s, p, n as nat, IntType::U8);
        },
        _ => {},
    }
}

/// Texts one behind the other, each behind a space.
spec fn spaced(items: Seq<Seq<char>>) -> Seq<char>
    decreases items.len(),
{
    if items.len() == 0 {
        Seq::empty()
    } else {
        spaced(items.drop_last()) + (seq![' '] + items.last())
    }
}

proof fn lemma_spaced_row(items: Seq<Seq<char>>)
    requires
        items.len() > 0,
    ensures
        seq![' '] + joined(items, " "@) == spaced(items),
    decreases items.len(),
{
    reveal_strlit(" ");
    assert(" "@ =~= seq![' ']);
    reveal_with_fuel(spaced, 2);
    if items.len() == 1 {
        assert(items.drop_last() =~= Seq::<Seq<char>>::empty());
        assert(items.last() == items[0]);
        assert(spaced(items) =~= seq![' '] + items[0]);
    } else {
        lemma_spaced_row(items.drop_last());
        assert(seq![' '] + joined(items, " "@) =~= (seq![' '] + joined(items.drop_last(), " "@)) + (
        seq![' '] + items.last()));
    }
}

proof fn lemma_spaced_at(items: Seq<Seq<char>>, i: int)
    requires
        0 <= i < items.len(),
    ensures
        spaced(items.take(i + 1)).len() == spaced(items.take(i)).len() + 1 + items[i].len(),
        spaced(items.take(i + 1)).len() <= spaced(items).len(),
        spaced(items).subrange(
            spaced(items.take(i)).len() as int,
            spaced(items.take(i + 1)).len() as int,
        ) == seq![' '] + items[i],
    decreases items.len(),
{
    assert(items.take(i + 1).drop_last() =~= items.take(i));
    assert(items.take(i + 1).last() == items[i]);
    let start = spaced(items.take(i)).len() as int;
    let end = spaced(items.take(i + 1)).len() as int;
    if i == items.len() - 1 {
        assert(items.take(i + 1) =~= items);
        assert(spaced(items).subrange(start, end) =~= seq![' '] + items[i]);
    } else {
        let rest = items.drop_last();
        lemma_spaced_at(rest, i);
        assert(rest.take(i) =~= items.take(i));
        assert(rest.take(i + 1) =~= items.take(i + 1));
        assert(spaced(items).subrange(start, end) =~= spaced(rest).subrange(start, end));
    }
}

/// Whether a statement is an EXPECT statement of a buffer, without an allowed difference.
pub open spec fn is_expect(
    d: DirectiveView,
    buffer: Seq<char>,
    place: nat,
    expected: Seq<UnresolvedValue<Seq<char>>>,
) -> bool {
    match d {
        DirectiveView::Expect { resource, epsilon, offset, values, .. } => resource.content
            == buffer && epsilon is None && offset.content == place && values == expected,
        _ => false,
    }
}

/// Known values, as a script gives them.
pub open spec fn read_values(values: Seq<Value>) -> Seq<UnresolvedValue<Seq<char>>> {
    Seq::new(values.len(), |i: int| UnresolvedValue::Resolved(values[i]))
}

/// The texts of values in columns.
spec fn columns(values: Seq<Value>, width: nat) -> Seq<Seq<char>> {
    Seq::new(values.len(), |i: int| right_aligned(decimal_digits(values[i].bits()), width))
}

/// Where the value `i` of a row starts, if the row starts at `e`.
spec fn column_start(e: int, values: Seq<Value>, width: nat, i: int) -> int {
    e + spaced(columns(values, width).take(i)).len()
}

spec fn row_ok(s: Script, e: int, values: Seq<Value>, width: nat, typ: DataType) -> bool {
    &&& 0 <= e <= s.text.len()
    &&& !is_float(typ)
    &&& forall|i: int| 0 <= i < values.len() ==> (#[trigger] values[i]).spec_type() == typ
    &&& s.text.skip(e) == spaced(columns(values, width))
}

/// The text of the value `i` of a row: spaces, then digits, then a space or nothing.
#[verifier::spinoff_prover]
proof fn lemma_column_text(
    s: Script,
    e: int,
    values: Seq<Value>,
    width: nat,
    typ: DataType,
    i: int,
) -> (start: int)
    requires
        row_ok(s, e, values, width, typ),
        0 <= i < values.len(),
    ensures
        ({
            let p = column_start(e, values, width, i);
            let end = column_start(e, values, width, i + 1);
            let digits = decimal_digits(values[i].bits());
            &&& 0 <= p < start
            &&& start + digits.len() == end
            &&& end <= s.text.len()
            &&& forall|j: int| p <= j < start ==> #[trigger] s.text[j] == ' '
            &&& s.text.subrange(start, end) == digits
            &&& end < s.text.len() ==> s.text[end] == ' '
        }),
{
    let items = columns(values, width);
    let p = column_start(e, values, width, i);
    let end = column_start(e, values, width, i + 1);
    let digits = decimal_digits(values[i].bits());
    let item = items[i];
    lemma_spaced_at(items, i);
    let start = p + 1 + item.len() - digits.len();
    let row = spaced(items);
    assert(row.len() == s.text.len() - e);
    assert(item == right_aligned(digits, width));
    let part = s.text.subrange(p, end);
    assert(part =~= seq![' '] + item) by {
        assert(part =~= s.text.skip(e).subrange(p - e, end - e));
    }
    assert forall|j: int| p <= j < start implies #[trigger] s.text[j] == ' ' by {
        assert(s.text[j] == part[j - p]);
    }
    assert(s.text.subrange(start, end) =~= digits) by {
        assert(s.text.subrange(start, end) =~= part.subrange(start - p, end - p));
    }
    if end < s.text.len() {
        if i + 1 == values.len() {
            assert(items.take(i + 1) =~= items);
        }
        lemma_spaced_at(items, i + 1);
        let after = spaced(items.take(i + 2)).len() as int;
        assert(row[end - e] == row.subrange(end - e, after)[0]);
        assert(s.text[end] == s.text.skip(e)[end - e]);
    }
    start
}

#[verifier::spinoff_prover]
proof fn lemma_column(s: Script, e: int, values: Seq<Value>, width: nat, typ: DataType, i: int)
    requires
        row_ok(s, e, values, width, typ),
        0 <= i < values.len(),
    ensures
        expect_value(s, column_start(e, values, width, i), typ) matches Ok((item, end)) && item.0
            == UnresolvedValue::<Seq<char>>::Resolved(values[i]) && end == column_start(
            e,
            values,
            width,
            i + 1,
        ),
        column_start(e, values, width, i) < column_start(e, values, width, i + 1)
            <= s.text.len(),
{
    let p = column_start(e, values, width, i);
    let digits = decimal_digits(values[i].bits());
    let start = lemma_column_text(s, e, values, width, typ, i);
    lemma_decimal(values[i].bits());
    assert(s.text[start] == s.text.subrange(start, start + digits.len())[0]);
    assert(is_digit(digits[0]));
    lemma_reads_blanks(s, p, start);
    lemma_reads_value(s, start, values[i]);
    reveal(expect_value);
}

proof fn lemma_columns_from(
    s: Script,
    e: int,
    values: Seq<Value>,
    width: nat,
    typ: DataType,
    i: int,
    found: ExpectItemsView,
)
    requires
        row_ok(s, e, values, width, typ),
        0 <= i <= values.len(),
        found.values == read_values(values.take(i)),
    ensures
        expect_values_from(s, column_start(e, values, width, i), typ, found) matches Ok((items, end))
            && items.values == read_values(values) && end == s.text.len(),
    decreases values.len() - i,
{
    let p = column_start(e, values, width, i);
    if i < values.len() {
        lemma_column(s, e, values, width, typ, i);
        if let Ok((item, end)) = expect_value(s, p, typ) {
            let next = found.push(item);
            assert(next.values =~= read_values(values.take(i + 1)));
            lemma_columns_from(s, e, values, width, typ, i + 1, next);
        }
    } else {
        assert(columns(values, width).take(i) =~= columns(values, width));
        assert(values.take(i) =~= values);
        assert(p == s.text.len());
        reveal(expect_value);
        lemma_nothing_left(s);
    }
}

/// At the end of a script there is nothing more to read.
proof fn lemma_nothing_left(s: Script)
    ensures
        space(s, s.text.len() as int) matches Err(f) && !f.cut,
        identifier(s, s.text.len() as int) matches Err(f) && !f.cut,
        line_end(s, s.text.len() as int) == Ok::<((), int), Fail<Seq<char>>>(
            ((), s.text.len() as int),
        ),
{
    let n = s.text.len() as int;
    reveal(space);
    reveal(multiline_comment);
    reveal(identifier);
    reveal(word);
    reveal(line_end);
    reveal(single_line_end);
    reveal(singleline_comment);
    reveal(line_ending);
    assert(line_gap(s, n) is Err);
    assert(line_gaps_end(s, n) == n);
}

/// The values that stand behind `EQ` are read.
proof fn lemma_reads_row(s: Script, e: int, values: Seq<Value>, width: nat, typ: DataType)
    requires
        row_ok(s, e, values, width, typ),
        values.len() > 0,
    ensures
        expect_values(s, e, typ) matches Ok((items, end)) && items.values == read_values(values)
            && end == s.text.len(),
{
    reveal(expect_values);
    lemma_column(s, e, values, width, typ, 0);
    assert(columns(values, width).take(0) =~= Seq::<Seq<char>>::empty());
    assert(column_start(e, values, width, 0) == e);
    if let Ok((item, end)) = expect_value(s, e, typ) {
        let nothing = ExpectItemsView { values: Seq::empty(), value_spans: Seq::empty() };
        let one = nothing.push(item);
        assert(one.values =~= read_values(values.take(1)));
        lemma_columns_from(s, e, values, width, typ, 1, one);
    }
}

/// The name of a data type is read as that type.
proof fn lemma_reads_type(s: Script, p: int, typ: DataType)
    requires
        0 <= p,
        starts_with(s.text, p, data_type_text(typ)),
        p + data_type_text(typ).len() < s.text.len() ==> s.text[(p + data_type_text(
            typ,
        ).len()) as int] == ' ',
    ensures
        data_type(s, p) == Ok::<(DataType, int), Fail<Seq<char>>>(
            (typ, p + data_type_text(typ).len()),
        ),
{
    reveal(data_type);
    reveal_strlit("uint64");
    reveal_strlit("uint32");
    reveal_strlit("uint16");
    reveal_strlit("uint8");
    reveal_strlit("float");
    reveal_strlit("float16");
    assert(is_word(data_type_text(typ)));
    assert("uint64"@[4] == '6' && "uint32"@[4] == '3' && "uint16"@[4] == '1');
    lemma_reads_word(s, p, data_type_text(typ));
}

/// The start of a line that is printed for an EXPECT statement, up to `EQ`.
spec fn expect_start(name: Seq<char>, typ: DataType, offset: Seq<char>) -> Seq<char> {
    "EXPECT "@ + name + " "@ + data_type_text(typ) + " OFFSET "@ + offset + " EQ"@
}

proof fn lemma_part(text: Seq<char>, before: Seq<char>, part: Seq<char>, after: Seq<char>)
    requires
        text == before + part + after,
    ensures
        starts_with(text, before.len() as int, part),
        forall|i: int|
            0 <= i < part.len() ==> text[before.len() + i] == #[trigger] part[i],
        after.len() > 0 ==> text[(before.len() + part.len()) as int] == after[0],
        text.len() == before.len() + part.len() + after.len(),
{
    assert(text.subrange(before.len() as int, (before.len() + part.len()) as int) =~= part);
}

/// Whether a script starts like a line that is printed for an EXPECT statement.
spec fn starts_like(
    s: Script,
    name: Seq<char>,
    typ: DataType,
    offset: nat,
    width: nat,
    rest: Seq<char>,
) -> bool {
    &&& is_word(name)
    &&& offset <= u64::MAX
    &&& s.text == expect_start(name, typ, right_aligned(decimal_digits(offset), width)) + rest
    &&& rest.len() > 0
    &&& rest[0] == ' '
}

/// Where the type ends in such a line.
spec fn type_end(name: Seq<char>, typ: DataType) -> int {
    8int + name.len() + data_type_text(typ).len()
}

/// The first word and the name are read.
#[verifier::spinoff_prover]
proof fn lemma_reads_name(
    s: Script,
    name: Seq<char>,
    typ: DataType,
    offset: nat,
    width: nat,
    rest: Seq<char>,
)
    requires
        starts_like(s, name, typ, offset, width, rest),
    ensures
        identifier(s, 0) == Ok::<(IdentifierView, int), Fail<Seq<char>>>(
            (s.object("EXPECT"@, 0, 6), 6),
        ),
        space_identifier(s, 6) == Ok::<(IdentifierView, int), Fail<Seq<char>>>(
            (s.object(name, 7, 7int + name.len()), 7int + name.len()),
        ),
{
    let t = s.text;
    let off = right_aligned(decimal_digits(offset), width);
    let tt = data_type_text(typ);
    reveal_strlit("EXPECT ");
    reveal_strlit("EXPECT");
    reveal_strlit(" ");
    let w = "EXPECT"@;
    let after_word = " "@ + name + " "@ + tt + " OFFSET "@ + off + " EQ"@ + rest;
    assert(t =~= Seq::<char>::empty() + w + after_word);
    lemma_part(t, Seq::empty(), w, after_word);
    lemma_reads_word(s, 0, w);
    let after_name = " "@ + tt + " OFFSET "@ + off + " EQ"@ + rest;
    assert(t =~= "EXPECT "@ + name + after_name);
    lemma_part(t, "EXPECT "@, name, after_name);
    assert(after_name[0] == ' ');
    assert(t[6] == ' ');
    assert(t[7] == name[0]);
    lemma_reads_blanks(s, 6, 7);
    lemma_reads_word(s, 7, name);
    reveal(space_identifier);
}

/// The type is read, and there is no allowed difference behind it.
#[verifier::spinoff_prover]
proof fn lemma_reads_middle(
    s: Script,
    name: Seq<char>,
    typ: DataType,
    offset: nat,
    width: nat,
    rest: Seq<char>,
)
    requires
        starts_like(s, name, typ, offset, width, rest),
    ensures
        space(s, 7int + name.len()) == Ok::<((), int), Fail<Seq<char>>>(((), 8int + name.len())),
        data_type(s, 8int + name.len()) == Ok::<(DataType, int), Fail<Seq<char>>>(
            (typ, type_end(name, typ)),
        ),
        epsilon(s, type_end(name, typ), typ) matches Err(f) && !f.cut,
{
    let t = s.text;
    let off = right_aligned(decimal_digits(offset), width);
    let tt = data_type_text(typ);
    let a = type_end(name, typ);
    reveal_strlit("EXPECT ");
    reveal_strlit(" ");
    reveal_strlit(" OFFSET ");
    reveal_strlit("OFFSET");
    reveal_strlit("EPSILON");
    let before_type = "EXPECT "@ + name + " "@;
    let after_type = " OFFSET "@ + off + " EQ"@ + rest;
    assert(t =~= before_type + tt + after_type);
    lemma_part(t, before_type, tt, after_type);
    lemma_type_word(typ);
    assert(t[7int + name.len()] == ' ');
    assert(t[8int + name.len()] == tt[0]);
    lemma_reads_blanks(s, 7int + name.len(), 8int + name.len());
    assert(after_type[0] == ' ');
    lemma_reads_type(s, 8int + name.len(), typ);
    assert(after_type[1] == 'O');
    assert(t[a] == ' ');
    assert(t[a + 1] == 'O');
    lemma_reads_blanks(s, a, a + 1);
    reveal(literal);
    reveal(keyword);
    reveal(epsilon);
    assert(!starts_with(t, a + 1, "EPSILON"@)) by {
        if starts_with(t, a + 1, "EPSILON"@) {
            assert(t.subrange(a + 1, a + 1 + "EPSILON"@.len())[0] == t[a + 1]);
        }
    }
}

/// The offset is read, and `EQ` behind it.
#[verifier::spinoff_prover]
proof fn lemma_reads_offset(
    s: Script,
    name: Seq<char>,
    typ: DataType,
    offset: nat,
    width: nat,
    rest: Seq<char>,
)
    requires
        starts_like(s, name, typ, offset, width, rest),
    ensures
        ({
            let off = right_aligned(decimal_digits(offset), width);
            let start = type_end(name, typ) + 8 + off.len() - decimal_digits(offset).len();
            let end = start + decimal_digits(offset).len();
            &&& keyword(s, type_end(name, typ), "OFFSET"@) == Ok::<((), int), Fail<Seq<char>>>(
                ((), start),
            )
            &&& uint(s, start, IntType::U64) == Ok::<(u64, int), Fail<Seq<char>>>(
                (offset as u64, end),
            )
            &&& space(s, end) == Ok::<((), int), Fail<Seq<char>>>(((), end + 1))
            &&& literal(s, end + 1, "EQ"@) == Ok::<((), int), Fail<Seq<char>>>(((), end + 3))
            &&& end + 3 == expect_start(name, typ, off).len()
        }),
{
    let t = s.text;
    let digits = decimal_digits(offset);
    let off = right_aligned(digits, width);
    let tt = data_type_text(typ);
    let a = type_end(name, typ);
    let pad = off.len() - digits.len();
    let start = a + 8 + pad;
    let end = start + digits.len();
    reveal_strlit("EXPECT ");
    reveal_strlit(" ");
    reveal_strlit(" OFFSET ");
    reveal_strlit("OFFSET");
    reveal_strlit(" EQ");
    reveal_strlit("EQ");
    lemma_decimal(offset);
    let before_word = "EXPECT "@ + name + " "@ + tt + " "@;
    let after_word = " "@ + off + " EQ"@ + rest;
    assert(t =~= before_word + "OFFSET"@ + after_word);
    lemma_part(t, before_word, "OFFSET"@, after_word);
    assert(before_word.len() == a + 1);
    assert(t[a] == ' ');
    assert(t[a + 1] == "OFFSET"@[0]);
    lemma_reads_blanks(s, a, a + 1);
    reveal(literal);
    reveal(keyword);
    let before = "EXPECT "@ + name + " "@ + tt + " OFFSET "@;
    let after = " EQ"@ + rest;
    assert(t =~= before + off + after);
    lemma_part(t, before, off, after);
    assert(before.len() == a + 8);
    assert(t[a + 7] == after_word[0]);
    assert forall|i: int| a + 7 <= i < start implies #[trigger] t[i] == ' ' by {
        if i > a + 7 {
            assert(t[before.len() + (i - a - 8)] == off[i - a - 8]);
        }
    }
    let before_digits = before + off.take(pad);
    assert(off =~= off.take(pad) + digits);
    assert(t =~= before_digits + digits + after);
    lemma_part(t, before_digits, digits, after);
    assert(t[start] == digits[0]);
    assert(is_digit(digits[0]));
    lemma_reads_blanks(s, a + 7, start);
    assert(after[0] == ' ');
    lemma_reads_number(s, start, offset, IntType::U64);
    let before_eq = before + off + " "@;
    assert(t =~= before_eq + "EQ"@ + rest);
    lemma_part(t, before_eq, "EQ"@, rest);
    assert(t[end] == ' ');
    assert(t[end + 1] == "EQ"@[0]);
    lemma_reads_blanks(s, end, end + 1);
}

/// What stands before `EQ` is read.
#[verifier::spinoff_prover]
proof fn lemma_reads_start(
    s: Script,
    name: Seq<char>,
    typ: DataType,
    offset: nat,
    width: nat,
    rest: Seq<char>,
)
    requires
        starts_like(s, name, typ, offset, width, rest),
    ensures
        ({
            let e = expect_start(
                name,
                typ,
                right_aligned(decimal_digits(offset), width),
            ).len() as int;
            let id = s.object("EXPECT"@, 0, 6);
            &&& identifier(s, 0) == Ok::<(IdentifierView, int), Fail<Seq<char>>>((id, 6))
            &&& match expect_values(s, e, typ) {
                Ok((items, end)) => match line_end(s, end) {
                    Ok((_, last)) => match expect(s, 6, id) {
                        Ok((d, q)) => q == last && is_expect(d, name, offset, items.values),
                        Err(_) => false,
                    },
                    Err(_) => true,
                },
                Err(_) => true,
            }
        }),
{
    lemma_reads_name(s, name, typ, offset, width, rest);
    lemma_reads_middle(s, name, typ, offset, width, rest);
    lemma_reads_offset(s, name, typ, offset, width, rest);
    reveal(expect);
}

proof fn lemma_type_word(typ: DataType)
    ensures
        is_word(data_type_text(typ)),
{
    reveal_strlit("uint64");
    reveal_strlit("uint32");
    reveal_strlit("uint16");
    reveal_strlit("uint8");
    reveal_strlit("float");
    reveal_strlit("float16");
}

/// A statement that starts with `EXPECT` is an EXPECT statement.
proof fn lemma_expect_statement(s: Script, p: int, id: IdentifierView, q: int)
    requires
        identifier(s, p) == Ok::<(IdentifierView, int), Fail<Seq<char>>>((id, q)),
        id.content == "EXPECT"@,
    ensures
        expect(s, q, id) matches Ok(found) ==> statement(s, p) == Ok::<
            (DirectiveView, int),
            Fail<Seq<char>>,
        >(found),
{
    reveal(statement);
    reveal_strlit("EXPECT");
    reveal_strlit("ASSERT");
    reveal_strlit("BLAS");
    reveal_strlit("BUFFER");
    reveal_strlit("COLLECTION");
    reveal_strlit("COMMAND_SIGNATURE");
    reveal_strlit("DISPATCH");
    reveal_strlit("DISPATCHRAYS");
    reveal_strlit("DUMP");
    reveal_strlit("EXECUTE_INDIRECT");
    assert(id.content[0] == 'E');
    assert(id.content != "ASSERT"@ && id.content != "BLAS"@ && id.content != "BUFFER"@) by {
        assert("ASSERT"@[0] == 'A' && "BUFFER"@[0] == 'B');
    }
    assert(id.content != "COLLECTION"@ && id.content != "COMMAND_SIGNATURE"@);
    assert(id.content != "DISPATCH"@ && id.content != "DISPATCHRAYS"@ && id.content != "DUMP"@);
    assert(id.content != "EXECUTE_INDIRECT"@) by {
        assert("EXPECT"@[2] == 'P' && "EXECUTE_INDIRECT"@[2] == 'E');
    }
}

/// If one statement takes the whole script, it is all that is read.
#[verifier::spinoff_prover]
proof fn lemma_one_statement(s: Script, d: DirectiveView)
    requires
        s.text.len() > 0,
        s.text[0] != ' ' && s.text[0] != '\t' && s.text[0] != '/' && s.text[0] != '#' && s.text[0]
            != '\n' && s.text[0] != '\r',
        statement(s, 0) == Ok::<(DirectiveView, int), Fail<Seq<char>>>((d, s.text.len() as int)),
    ensures
        script(s) == Ok::<
            Seq<DirectiveView>,
            crate::parse_error::ParserError<Seq<char>>,
        >(seq![d]),
{
    let n = s.text.len() as int;
    reveal(statements);
    reveal(line_end);
    reveal(single_line_end);
    reveal(singleline_comment);
    reveal(line_ending);
    reveal(space);
    reveal(multiline_comment);
    lemma_run_exact(s.text, 0, 0, CharClass::Blank);
    assert(space(s, 0) is Err);
    assert(single_line_end(s, 0) matches Err(f) && !f.cut);
    lemma_nothing_left(s);
    reveal(statement);
    assert(statement(s, n) matches Err(f) && !f.cut);
    let nothing = Seq::<DirectiveView>::empty();
    assert(nothing.push(d) =~= seq![d]);
    reveal_with_fuel(statements_from, 2);
    assert(statements_from(s, 0, nothing) == statements_from(s, n, seq![d]));
    assert(statements_from(s, n, seq![d]) == Ok::<(Seq<DirectiveView>, int), Fail<Seq<char>>>(
        (seq![d], n),
    ));
}

/// A line that a dump of integers prints for an EXPECT statement, read as a script, is one EXPECT
/// statement: of the buffer that was printed, at the place of the line in the buffer, with the
/// values of the line.
#[verifier::spinoff_prover]
pub proof fn lemma_dump_line_reads(
    dump: DumpView,
    values: Seq<Value>,
    k: int,
    file: crate::source::SourceFileIdx,
)
    requires
        dump.format == DumpFormat::Expect,
        is_word(dump.name),
        !is_float(dump.typ),
        dump.lines_hold_values(),
        dump.texts.len() == values.len(),
        forall|i: int|
            0 <= i < values.len() ==> (#[trigger] values[i]).spec_type() == dump.typ
                && dump.texts[i] == decimal_digits(values[i].bits()),
        0 <= k < dump.lines(),
        values.len() * dump.typ.size() <= u64::MAX,
    ensures
        match script(Script { text: dump.line(k), file }) {
            Ok(all) => all.len() == 1 && is_expect(
                all[0],
                dump.name,
                (k * dump.per_line() * dump.typ.size()) as nat,
                read_values(
                    values.subrange(
                        k * dump.per_line(),
                        k * dump.per_line() + dump.line_values(k).len(),
                    ),
                ),
            ),
            Err(_) => false,
        },
{
    let s = Script { text: dump.line(k), file };
    let per_line = dump.per_line();
    let n = values.len() as int;
    let first = k * per_line;
    assert(0 <= first < n) by (nonlinear_arith)
        requires
            0 <= k < (n + per_line - 1) / per_line,
            0 < per_line,
            first == k * per_line,
    ;
    let texts = dump.line_values(k);
    let part = values.subrange(first, first + texts.len());
    let size = dump.typ.size();
    assert(0 <= first * size <= n * size) by (nonlinear_arith)
        requires
            0 <= first <= n,
            size >= 0,
    ;
    let offset = (first * size) as nat;
    assert(k * per_line * size == first * size);
    let width = dump.value_width();
    let off = right_aligned(decimal_digits(offset), dump.offset_width());
    let start = expect_start(dump.name, dump.typ, off);
    let aligned = Seq::new(texts.len(), |i: int| right_aligned(texts[i], width));
    assert(aligned =~= columns(part, width)) by {
        assert forall|i: int| 0 <= i < texts.len() implies #[trigger] aligned[i] == columns(
            part,
            width,
        )[i] by {
            assert(texts[i] == dump.texts[first + i]);
            assert(part[i] == values[first + i]);
        }
    }
    lemma_spaced_row(aligned);
    reveal_strlit(" EQ ");
    reveal_strlit(" EQ");
    let rest = spaced(aligned);
    assert(" EQ "@ =~= " EQ"@ + seq![' ']);
    assert(rest == seq![' '] + value_row(texts, width));
    assert(s.text =~= start + rest);
    assert(rest[0] == ' ');
    lemma_reads_start(s, dump.name, dump.typ, offset, dump.offset_width(), rest);
    let e = start.len() as int;
    assert(s.text.skip(e) =~= rest);
    assert forall|i: int| 0 <= i < part.len() implies (#[trigger] part[i]).spec_type()
        == dump.typ by {
        assert(part[i] == values[first + i]);
    }
    lemma_reads_row(s, e, part, width, dump.typ);
    lemma_nothing_left(s);
    let id = s.object("EXPECT"@, 0, 6);
    lemma_expect_statement(s, 0, id, 6);
    if let Ok((d, _)) = expect(s, 6, id) {
        reveal_strlit("EXPECT ");
        assert(s.text[0] == "EXPECT "@[0]);
        lemma_one_statement(s, d);
    }
}

/// Each line that a dump of integers prints for an EXPECT statement, read as a script and run on
/// the buffer that was printed, holds. Nothing has to be asked for it.
pub proof fn lemma_dump_line_holds(
    dump: DumpView,
    data: Seq<u8>,
    k: int,
    file: crate::source::SourceFileIdx,
    answers: Seq<u64>,
)
    requires
        dump.format == DumpFormat::Expect,
        is_word(dump.name),
        !is_float(dump.typ),
        dump.lines_hold_values(),
        data.len() % dump.typ.size() == 0,
        data.len() <= u64::MAX,
        dump.texts == Seq::new(
            data.len() / dump.typ.size(),
            |i: int| decimal_digits(typed_values(dump.typ, data)[i].bits()),
        ),
        0 <= k < dump.lines(),
    ensures
        match script(Script { text: dump.line(k), file }) {
            Ok(all) => all.len() == 1 && match all[0] {
                DirectiveView::Expect { resource, epsilon, offset, values, .. } => {
                    let expected = resolved_values(values, answers);
                    &&& resource.content == dump.name
                    &&& epsilon is None
                    &&& in_bounds(offset.content, values_size(expected), data.len())
                    &&& expectation_holds(
                        expected,
                        data.subrange(
                            offset.content as int,
                            offset.content + values_size(expected),
                        ),
                        None,
                        Seq::empty(),
                    )
                },
                _ => false,
            },
            Err(_) => false,
        },
{
    let typ = dump.typ;
    let values = typed_values(typ, data);
    let size = typ.size() as int;
    let n = values.len() as int;
    assert(n * size == data.len()) by (nonlinear_arith)
        requires
            data.len() % (size as nat) == 0,
            n == data.len() / (size as nat),
            size > 0,
    ;
    lemma_dump_line_reads(dump, values, k, file);
    let per_line = dump.per_line();
    let first = k * per_line;
    assert(0 <= first < n) by (nonlinear_arith)
        requires
            0 <= k < (n + per_line - 1) / per_line,
            0 < per_line,
            first == k * per_line,
    ;
    let count = dump.line_values(k).len() as int;
    lemma_dump_line_expected(typ, data, first, count);
    let part = values.subrange(first, first + count);
    assert(resolved_values(read_values(part), answers) =~= part);
}

} // verus!
