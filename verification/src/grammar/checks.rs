//! Statements that print, check, wait or read another file.
use vstd::prelude::*;

use crate::duration::{duration, DurationError};
use crate::grammar::tokens::{
    cut, data_type, either, identifier, keyword, line_end, literal, non_zero_u64, optional,
    run_end, space, space_identifier, string_object, uint, unknown, value, CharClass,
};
use crate::parse_error::{Fail, IntType, Outcome, ParserError};
use crate::script::{DirectiveView, DumpDataType, DumpFormat, TimeSpan, UnresolvedValue};
use crate::source::{IdentifierView, Script, SpanObj};
use crate::value::DataType;

verus! {

/// `INCLUDE`, the word `id`.
#[verifier::opaque]
pub open spec fn include_file(s: Script, p: int, id: IdentifierView) -> Outcome<DirectiveView> {
    match space(s, p) { Err(f) => Err(f), Ok((_, p)) =>
    match string_object(s, p) { Err(f) => Err(f), Ok((path, p)) =>
    match line_end(s, p) { Err(f) => Err(f), Ok((_, p)) =>
    Ok((DirectiveView::Include { identifier: id, path }, p))
    }}}
}

/// The text of a length of time, and where it stands.
#[verifier::opaque]
pub open spec fn duration_text(s: Script, p: int) -> Outcome<IdentifierView> {
    let end = run_end(s.text, p, CharClass::Duration);
    if end > p {
        Ok((s.object(s.text.subrange(p, end), p, end), end))
    } else {
        unknown(s, p)
    }
}

/// A `SLEEP` statement `id` that says `text`, if `time` is what the text stands for.
pub open spec fn sleep_for(
    id: IdentifierView,
    text: IdentifierView,
    time: Result<TimeSpan, DurationError>,
) -> Result<DirectiveView, Fail<Seq<char>>> {
    match time {
        Ok(t) => Ok(
            DirectiveView::Sleep {
                identifier: id,
                duration: SpanObj {
                    content: t,
                    source_file: text.source_file,
                    span: text.span,
                },
            },
        ),
        Err(source) => Err(
            Fail {
                cut: false,
                error: ParserError::ParseDuration {
                    source,
                    duration_span: text.span,
                    identifier: id,
                },
            },
        ),
    }
}

/// `SLEEP`, the word `id`.
#[verifier::opaque]
pub open spec fn sleep(s: Script, p: int, id: IdentifierView) -> Outcome<DirectiveView> {
    match space(s, p) { Err(f) => Err(f), Ok((_, p)) =>
    match duration_text(s, p) { Err(f) => Err(f), Ok((text, p)) =>
    match line_end(s, p) { Err(f) => Err(f), Ok((_, p)) =>
    match sleep_for(id, text, duration(text.content)) { Err(f) => Err(f), Ok(directive) =>
    Ok((directive, p))
    }}}}
}

/// What a `DUMP` statement prints.
#[verifier::opaque]
pub open spec fn dump_type(s: Script, p: int) -> Outcome<DumpDataType> {
    let typed: Outcome<DumpDataType> = match data_type(s, p) {
        Ok((typ, end)) => Ok((DumpDataType::DataType(typ), end)),
        Err(f) => Err(f),
    };
    let dxil: Outcome<DumpDataType> = match literal(s, p, "DXIL"@) {
        Ok((_, end)) => Ok((DumpDataType::Dxil, end)),
        Err(f) => Err(f),
    };
    either(typed, dxil)
}

/// The number of elements on a line, behind `PRINT_STRIDE`.
#[verifier::opaque]
pub open spec fn print_stride(s: Script, p: int) -> Outcome<u64> {
    match keyword(s, p, "PRINT_STRIDE"@) { Err(f) => Err(f), Ok((_, p)) =>
    non_zero_u64(s, p)
    }
}

/// `EXPECT` behind space.
#[verifier::opaque]
pub open spec fn expect_word(s: Script, p: int) -> Outcome<()> {
    match space(s, p) { Err(f) => Err(f), Ok((_, p)) =>
    literal(s, p, "EXPECT"@)
    }
}

/// `DUMP`, the word `id`.
#[verifier::opaque]
pub open spec fn dump(s: Script, p: int, id: IdentifierView) -> Outcome<DirectiveView> {
    match space_identifier(s, p) { Err(f) => Err(f), Ok((resource, p)) =>
    match space(s, p) { Err(f) => Err(f), Ok((_, p)) =>
    match dump_type(s, p) { Err(f) => Err(f), Ok((typ, p)) =>
    match optional(print_stride(s, p), p) { Err(f) => Err(f), Ok((print_stride, p)) =>
    match optional(expect_word(s, p), p) { Err(f) => Err(f), Ok((expect, p)) =>
    match line_end(s, p) { Err(f) => Err(f), Ok((_, p)) =>
    Ok((DirectiveView::Dump {
        identifier: id,
        resource,
        typ,
        print_stride,
        format: if expect is Some {
            DumpFormat::Expect
        } else {
            DumpFormat::List
        },
    }, p))
    }}}}}}
}

/// A value and where it stands.
#[verifier::opaque]
pub open spec fn value_object(s: Script, p: int, typ: DataType) -> Outcome<
    SpanObj<UnresolvedValue<Seq<char>>>,
> {
    match value(s, p, typ) {
        Ok((v, end)) => Ok((s.object(v, p, end), end)),
        Err(f) => Err(f),
    }
}

/// The allowed difference, behind `EPSILON`.
#[verifier::opaque]
pub open spec fn epsilon(s: Script, p: int, typ: DataType) -> Outcome<
    SpanObj<UnresolvedValue<Seq<char>>>,
> {
    match keyword(s, p, "EPSILON"@) { Err(f) => Err(f), Ok((_, p)) =>
    cut(value_object(s, p, typ))
    }
}

/// A value behind space, and the value as it is written.
#[verifier::opaque]
pub open spec fn expect_value(s: Script, p: int, typ: DataType) -> Outcome<
    (UnresolvedValue<Seq<char>>, IdentifierView),
> {
    match space(s, p) { Err(f) => Err(f), Ok((_, start)) =>
    match value(s, start, typ) { Err(f) => Err(f), Ok((v, end)) =>
    Ok(((v, s.object(s.text.subrange(start, end), start, end)), end))
    }}
}

/// Expected values, and the values as they are written.
pub struct ExpectItemsView {
    pub values: Seq<UnresolvedValue<Seq<char>>>,
    pub value_spans: Seq<IdentifierView>,
}

impl ExpectItemsView {
    /// One more value.
    pub open spec fn push(self, item: (UnresolvedValue<Seq<char>>, IdentifierView)) -> Self {
        ExpectItemsView {
            values: self.values.push(item.0),
            value_spans: self.value_spans.push(item.1),
        }
    }
}

/// As many values as there are, put behind `found`.
pub open spec fn expect_values_from(s: Script, p: int, typ: DataType, found: ExpectItemsView) -> Outcome<
    ExpectItemsView,
>
    decreases s.text.len() - p,
{
    match expect_value(s, p, typ) {
        Ok((item, end)) => if p < end && end <= s.text.len() {
            expect_values_from(s, end, typ, found.push(item))
        } else {
            Ok((found, p))
        },
        Err(f) => if f.cut {
            Err(f)
        } else {
            Ok((found, p))
        },
    }
}

/// At least one value.
#[verifier::opaque]
pub open spec fn expect_values(s: Script, p: int, typ: DataType) -> Outcome<ExpectItemsView> {
    match expect_value(s, p, typ) { Err(f) => Err(f), Ok((first, p)) => {
    let nothing = ExpectItemsView { values: Seq::empty(), value_spans: Seq::empty() };
    expect_values_from(s, p, typ, nothing.push(first))
    }}
}

/// `EXPECT`, the word `id`.
#[verifier::opaque]
pub open spec fn expect(s: Script, p: int, id: IdentifierView) -> Outcome<DirectiveView> {
    match space_identifier(s, p) { Err(f) => Err(f), Ok((resource, p)) =>
    match space(s, p) { Err(f) => Err(f), Ok((_, p)) =>
    match data_type(s, p) { Err(f) => Err(f), Ok((typ, p)) =>
    match optional(epsilon(s, p, typ), p) { Err(f) => Err(f), Ok((epsilon, p)) =>
    match keyword(s, p, "OFFSET"@) { Err(f) => Err(f), Ok((_, start)) =>
    match uint(s, start, IntType::U64) { Err(f) => Err(f), Ok((n, end)) =>
    match space(s, end) { Err(f) => Err(f), Ok((_, p)) =>
    match literal(s, p, "EQ"@) { Err(f) => Err(f), Ok((_, p)) =>
    match expect_values(s, p, typ) { Err(f) => Err(f), Ok((items, p)) =>
    match line_end(s, p) { Err(f) => Err(f), Ok((_, p)) =>
    Ok((DirectiveView::Expect {
        identifier: id,
        resource,
        epsilon,
        offset: s.object(n, start, end),
        values: items.values,
        value_spans: items.value_spans,
    }, p))
    }}}}}}}}}}
}

/// Whether shader identifiers are meant to be equal or different.
#[verifier::opaque]
pub open spec fn equal_word(s: Script, p: int) -> Outcome<bool> {
    let eq: Outcome<bool> = match literal(s, p, "EQ"@) {
        Ok((_, end)) => Ok((true, end)),
        Err(f) => Err(f),
    };
    let ne: Outcome<bool> = match literal(s, p, "NE"@) {
        Ok((_, end)) => Ok((false, end)),
        Err(f) => Err(f),
    };
    either(eq, ne)
}

/// `ASSERT`, the word `id`.
#[verifier::opaque]
pub open spec fn assert_shader_id(s: Script, p: int, id: IdentifierView) -> Outcome<
    DirectiveView,
> {
    match keyword(s, p, "SHADERID"@) { Err(f) => Err(f), Ok((_, p)) =>
    match equal_word(s, p) { Err(f) => Err(f), Ok((equal, p)) =>
    match space_identifier(s, p) { Err(f) => Err(f), Ok((id_a, p)) =>
    match space_identifier(s, p) { Err(f) => Err(f), Ok((id_b, p)) =>
    match line_end(s, p) { Err(f) => Err(f), Ok((_, p)) =>
    Ok((DirectiveView::AssertShaderId { identifier: id, equal, id_a, id_b }, p))
    }}}}}
}

} // verus!
