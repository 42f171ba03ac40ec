//! The forms of statements that print, check, wait or read another file.
use vstd::prelude::*;

use crate::grammar::checks::{
    assert_shader_id, dump, dump_type, epsilon, equal_word, expect, expect_value, expect_values,
    expect_values_from, expect_word, include_file, print_stride, value_object, ExpectItemsView,
};
use crate::grammar::forms::values::{is_value, lemma_data_type, lemma_value};
use crate::grammar::laws::is_word;
use crate::grammar::tokens::{data_type, non_zero_u64};
use crate::grammar::written::{
    end, eol, is_plain, is_written, lemma_keyword, lemma_line_end, lemma_literal, lemma_name,
    lemma_no_keyword, lemma_no_literal, lemma_space, lemma_string, lemma_token, lemma_uint,
    lemma_word, name_at, place, tok, Token,
};
use crate::parse_error::{Fail, IntType};
use crate::report::data_type_text;
use crate::script::{DirectiveView, DumpDataType, DumpFormat, UnresolvedValue};
use crate::source::{IdentifierView, Script};
use crate::text::decimal_digits;
use crate::value::DataType;

verus! {

/// An INCLUDE statement has the path that is written in it.
pub proof fn lemma_include_form(s: Script, ts: Seq<Token>, i: int, id: IdentifierView)
    requires
        is_written(s, ts),
        0 <= i,
        i + 2 <= ts.len(),
        !ts[i].last,
        is_plain(ts[i + 1].word) && ts[i + 1].last,
    ensures
        include_file(s, end(ts, i), id) == Ok::<(DirectiveView, int), Fail<Seq<char>>>(
            (
                DirectiveView::Include { identifier: id, path: name_at(s, ts, i + 1) },
                place(ts, i + 2),
            ),
        ),
{
    reveal(include_file);
    lemma_space(s, ts, i);
    lemma_string(s, ts, i + 1);
    lemma_line_end(s, ts, i + 1);
}

/// An ASSERT statement says whether two shader identifiers are equal, and which ones.
pub proof fn lemma_assert_form(s: Script, ts: Seq<Token>, i: int, equal: bool, id: IdentifierView)
    requires
        is_written(s, ts),
        0 <= i,
        i + 5 <= ts.len(),
        !ts[i].last,
        ts[i + 1] == tok("SHADERID"@),
        ts[i + 2] == tok(
            if equal {
                "EQ"@
            } else {
                "NE"@
            },
        ),
        is_word(ts[i + 3].word) && !ts[i + 3].last,
        is_word(ts[i + 4].word) && ts[i + 4].last,
    ensures
        assert_shader_id(s, end(ts, i), id) == Ok::<(DirectiveView, int), Fail<Seq<char>>>(
            (
                DirectiveView::AssertShaderId {
                    identifier: id,
                    equal,
                    id_a: name_at(s, ts, i + 3),
                    id_b: name_at(s, ts, i + 4),
                },
                place(ts, i + 5),
            ),
        ),
{
    reveal(assert_shader_id);
    reveal(equal_word);
    reveal_strlit("EQ");
    reveal_strlit("NE");
    lemma_keyword(s, ts, i + 1);
    lemma_literal(s, ts, i + 2);
    if !equal {
        assert("NE"@.take(2)[0] == 'N' && "EQ"@[0] == 'E');
        lemma_no_literal(s, ts, i + 2, "EQ"@);
    }
    lemma_name(s, ts, i + 3);
    lemma_name(s, ts, i + 4);
    lemma_line_end(s, ts, i + 4);
}

/// The word for what a DUMP statement prints.
pub open spec fn dump_word(typ: DumpDataType) -> Seq<char> {
    match typ {
        DumpDataType::DataType(typ) => data_type_text(typ),
        DumpDataType::Dxil => "DXIL"@,
    }
}

/// The first word behind a DUMP statement at the word `i`, and the word `EXPECT` in it.
pub open spec fn dump_places(i: int, stride: Option<u64>, as_expect: bool) -> (int, int) {
    let at = if stride is Some {
        i + 5
    } else {
        i + 3
    };
    (
        if as_expect {
            at + 1
        } else {
            at
        },
        at,
    )
}

/// Whether a DUMP statement stands at the word `i`.
pub open spec fn is_dump(
    ts: Seq<Token>,
    i: int,
    typ: DumpDataType,
    stride: Option<u64>,
    as_expect: bool,
) -> bool {
    let (last, at) = dump_places(i, stride, as_expect);
    &&& 0 <= i
    &&& last <= ts.len()
    &&& !ts[i].last
    &&& is_word(ts[i + 1].word) && !ts[i + 1].last
    &&& ts[i + 2].word == dump_word(typ)
    &&& ts[i + 2].last == (last == i + 3)
    &&& stride matches Some(n) ==> n > 0 && ts[i + 3] == tok("PRINT_STRIDE"@) && ts[i + 4].word
        == decimal_digits(n as nat) && ts[i + 4].last == (last == i + 5)
    &&& as_expect ==> ts[at] == eol("EXPECT"@)
}

/// A DUMP statement has the buffer, the type, the number of elements on a line and the form that
/// are written in it.
#[verifier::spinoff_prover]
pub proof fn lemma_dump_form(
    s: Script,
    ts: Seq<Token>,
    i: int,
    typ: DumpDataType,
    stride: Option<u64>,
    as_expect: bool,
    id: IdentifierView,
)
    requires
        is_written(s, ts),
        is_dump(ts, i, typ, stride, as_expect),
    ensures
        dump(s, end(ts, i), id) == Ok::<(DirectiveView, int), Fail<Seq<char>>>(
            (
                DirectiveView::Dump {
                    identifier: id,
                    resource: name_at(s, ts, i + 1),
                    typ,
                    print_stride: stride,
                    format: if as_expect {
                        DumpFormat::Expect
                    } else {
                        DumpFormat::List
                    },
                },
                place(ts, dump_places(i, stride, as_expect).0),
            ),
        ),
{
    reveal(dump);
    reveal(print_stride);
    reveal(non_zero_u64);
    reveal(expect_word);
    reveal_strlit("PRINT_STRIDE");
    reveal_strlit("EXPECT");
    let (last, at) = dump_places(i, stride, as_expect);
    lemma_name(s, ts, i + 1);
    lemma_space(s, ts, i + 1);
    lemma_dump_type(s, ts, i + 2, typ);
    match stride {
        Some(n) => {
            lemma_keyword(s, ts, i + 3);
            lemma_uint(s, ts, i + 4, n as nat, IntType::U64);
        },
        None => {
            lemma_no_keyword(s, ts, i + 3, "PRINT_STRIDE"@);
        },
    }
    if as_expect {
        lemma_space(s, ts, at - 1);
        lemma_literal(s, ts, at);
        lemma_line_end(s, ts, at);
    } else {
        lemma_line_end(s, ts, at - 1);
    }
}

#[verifier::spinoff_prover]
proof fn lemma_dump_type(s: Script, ts: Seq<Token>, i: int, typ: DumpDataType)
    requires
        is_written(s, ts),
        0 <= i < ts.len(),
        ts[i].word == dump_word(typ),
    ensures
        dump_type(s, place(ts, i)) == Ok::<(DumpDataType, int), Fail<Seq<char>>>(
            (typ, end(ts, i)),
        ),
{
    reveal(dump_type);
    match typ {
        DumpDataType::DataType(typ) => {
            lemma_data_type(s, ts, i, typ);
        },
        DumpDataType::Dxil => {
            reveal(data_type);
            reveal_strlit("DXIL");
            reveal_strlit("uint64");
            reveal_strlit("uint32");
            reveal_strlit("uint16");
            reveal_strlit("uint8");
            reveal_strlit("float");
            reveal_strlit("float16");
            lemma_word(s, ts, i);
            lemma_literal(s, ts, i);
        },
    }
}

/// What is written in an EXPECT statement.
pub struct ExpectForm {
    pub typ: DataType,
    pub epsilon: Option<UnresolvedValue<Seq<char>>>,
    pub offset: u64,
    pub values: Seq<UnresolvedValue<Seq<char>>>,
}

/// The word `OFFSET` of an EXPECT statement at the word `i`.
pub open spec fn offset_word(i: int, f: ExpectForm) -> int {
    if f.epsilon is Some {
        i + 5
    } else {
        i + 3
    }
}

/// Whether an EXPECT statement stands at the word `i`.
pub open spec fn is_expect_form(s: Script, ts: Seq<Token>, i: int, f: ExpectForm) -> bool {
    let o = offset_word(i, f);
    &&& 0 <= i
    &&& o + 3 + f.values.len() <= ts.len()
    &&& !ts[i].last
    &&& is_word(ts[i + 1].word) && !ts[i + 1].last
    &&& ts[i + 2] == tok(data_type_text(f.typ))
    &&& f.epsilon matches Some(e) ==> ts[i + 3] == tok("EPSILON"@) && is_value(
        s,
        ts[i + 4].word,
        f.typ,
        e,
    ) && !ts[i + 4].last
    &&& ts[o] == tok("OFFSET"@)
    &&& ts[o + 1] == tok(decimal_digits(f.offset as nat))
    &&& ts[o + 2] == tok("EQ"@)
    &&& f.values.len() > 0
    &&& forall|k: int|
        0 <= k < f.values.len() ==> is_value(s, ts[o + 3 + k].word, f.typ, #[trigger] f.values[k])
            && ts[o + 3 + k].last == (k == f.values.len() - 1)
}

/// The values of an EXPECT statement as they are written, `n` of them from the word `i` on.
pub open spec fn value_names(s: Script, ts: Seq<Token>, i: int, n: int) -> Seq<IdentifierView> {
    Seq::new(n as nat, |k: int| name_at(s, ts, i + k))
}

proof fn lemma_expect_value_form(
    s: Script,
    ts: Seq<Token>,
    i: int,
    typ: DataType,
    v: UnresolvedValue<Seq<char>>,
)
    requires
        is_written(s, ts),
        0 < i < ts.len(),
        !ts[i - 1].last,
        is_value(s, ts[i].word, typ, v),
    ensures
        expect_value(s, end(ts, i - 1), typ) == Ok::<
            ((UnresolvedValue<Seq<char>>, IdentifierView), int),
            Fail<Seq<char>>,
        >(((v, name_at(s, ts, i)), end(ts, i))),
{
    reveal(expect_value);
    lemma_space(s, ts, i - 1);
    lemma_value(s, ts, i, typ, v);
    lemma_token(s, ts, i);
}

proof fn lemma_expect_values_form(s: Script, ts: Seq<Token>, i: int, f: ExpectForm, k: int)
    requires
        is_written(s, ts),
        is_expect_form(s, ts, i, f),
        0 < k <= f.values.len(),
    ensures
        ({
            let v = offset_word(i, f) + 3;
            expect_values_from(
                s,
                end(ts, v + k - 1),
                f.typ,
                ExpectItemsView {
                    values: f.values.take(k),
                    value_spans: value_names(s, ts, v, k),
                },
            ) == Ok::<(ExpectItemsView, int), Fail<Seq<char>>>(
                (
                    ExpectItemsView {
                        values: f.values,
                        value_spans: value_names(s, ts, v, f.values.len() as int),
                    },
                    end(ts, v + f.values.len() - 1),
                ),
            )
        }),
    decreases f.values.len() - k,
{
    let v = offset_word(i, f) + 3;
    let now = ExpectItemsView {
        values: f.values.take(k),
        value_spans: value_names(s, ts, v, k),
    };
    assert(is_value(s, ts[v + (k - 1)].word, f.typ, f.values[k - 1]));
    if k < f.values.len() {
        assert(is_value(s, ts[v + k].word, f.typ, f.values[k]));
        lemma_expect_value_form(s, ts, v + k, f.typ, f.values[k]);
        lemma_token(s, ts, v + k - 1);
        lemma_token(s, ts, v + k);
        let next = now.push((f.values[k], name_at(s, ts, v + k)));
        assert(next.values =~= f.values.take(k + 1));
        assert(next.value_spans =~= value_names(s, ts, v, k + 1));
        lemma_expect_values_form(s, ts, i, f, k + 1);
    } else {
        reveal(expect_value);
        lemma_line_end(s, ts, v + k - 1);
        assert(f.values.take(k) =~= f.values);
    }
}

/// An EXPECT statement has the buffer, the allowed difference, the offset and the values in their
/// order as they are written in it.
#[verifier::spinoff_prover]
pub proof fn lemma_expect_form(
    s: Script,
    ts: Seq<Token>,
    i: int,
    f: ExpectForm,
    id: IdentifierView,
)
    requires
        is_written(s, ts),
        is_expect_form(s, ts, i, f),
    ensures
        ({
            let o = offset_word(i, f);
            expect(s, end(ts, i), id) == Ok::<(DirectiveView, int), Fail<Seq<char>>>(
                (
                    DirectiveView::Expect {
                        identifier: id,
                        resource: name_at(s, ts, i + 1),
                        epsilon: match f.epsilon {
                            Some(e) => Some(s.object(e, place(ts, i + 4), end(ts, i + 4))),
                            None => None,
                        },
                        offset: s.object(f.offset, place(ts, o + 1), end(ts, o + 1)),
                        values: f.values,
                        value_spans: value_names(s, ts, o + 3, f.values.len() as int),
                    },
                    place(ts, o + 3 + f.values.len()),
                ),
            )
        }),
{
    reveal(expect);
    reveal(epsilon);
    reveal(value_object);
    reveal(expect_values);
    reveal_strlit("EPSILON");
    reveal_strlit("OFFSET");
    let o = offset_word(i, f);
    lemma_name(s, ts, i + 1);
    lemma_space(s, ts, i + 1);
    lemma_data_type(s, ts, i + 2, f.typ);
    match f.epsilon {
        Some(e) => {
            lemma_keyword(s, ts, i + 3);
            lemma_value(s, ts, i + 4, f.typ, e);
        },
        None => {
            lemma_no_keyword(s, ts, i + 3, "EPSILON"@);
        },
    }
    lemma_keyword(s, ts, o);
    lemma_uint(s, ts, o + 1, f.offset as nat, IntType::U64);
    lemma_space(s, ts, o + 1);
    lemma_literal(s, ts, o + 2);
    assert(is_value(s, ts[o + 3 + 0].word, f.typ, f.values[0]));
    lemma_expect_value_form(s, ts, o + 3, f.typ, f.values[0]);
    let none = ExpectItemsView { values: Seq::empty(), value_spans: Seq::empty() };
    let one = none.push((f.values[0], name_at(s, ts, o + 3)));
    assert(one.values =~= f.values.take(1));
    assert(one.value_spans =~= value_names(s, ts, o + 3, 1));
    lemma_expect_values_form(s, ts, i, f, 1);
    assert(f.values[f.values.len() - 1] == f.values.last());
    lemma_line_end(s, ts, o + 3 + f.values.len() - 1);
}

} // verus!
