//! Values: the content of buffers and root constants.
use vstd::prelude::*;

use crate::grammar::tokens::{
    cut, data_type, either, end_line, identifier, in_statement, keyword, line_end, literal, space,
    space_identifier, uint, unknown, value, word,
};
use crate::parse_error::{Fail, IntType, Outcome, ParserError, StatementFormat};
use crate::script::{total_size, DirectiveView, Fill, UnresolvedValue, ValueContentView};
use crate::source::Script;
use crate::value::DataType;

verus! {

/// A value of a type, behind space.
#[verifier::opaque]
pub open spec fn space_value(s: Script, p: int, typ: DataType) -> Outcome<
    UnresolvedValue<Seq<char>>,
> {
    match space(s, p) { Err(f) => Err(f), Ok((_, p)) =>
    value(s, p, typ)
    }
}

/// The first element of a series and what each one adds.
#[verifier::opaque]
pub open spec fn fill_series(s: Script, p: int, typ: DataType) -> Outcome<
    Fill<UnresolvedValue<Seq<char>>>,
> {
    match space_value(s, p, typ) { Err(f) => Err(f), Ok((from, p)) =>
    match keyword(s, p, "INC_BY"@) { Err(f) => Err(f), Ok((_, p)) =>
    match value(s, p, typ) { Err(f) => Err(f), Ok((increment, p)) =>
    Ok((Fill::Series { from, increment }, p))
    }}}
}

/// The value of all elements.
#[verifier::opaque]
pub open spec fn fill_const(s: Script, p: int, typ: DataType) -> Outcome<
    Fill<UnresolvedValue<Seq<char>>>,
> {
    match space_value(s, p, typ) { Err(f) => Err(f), Ok((v, p)) =>
    Ok((Fill::Const(v), p))
    }
}

/// How the elements of an array are filled.
#[verifier::opaque]
pub open spec fn fill(s: Script, p: int, typ: DataType) -> Outcome<
    Fill<UnresolvedValue<Seq<char>>>,
> {
    match identifier(s, p) { Err(f) => Err(f), Ok((id, p)) =>
    if id.content == "SERIES_FROM"@ {
        in_statement(fill_series(s, p, typ), StatementFormat::SeriesFrom, id.span)
    } else if id.content == "FILL"@ {
        in_statement(fill_const(s, p, typ), StatementFormat::Fill, id.span)
    } else {
        unknown(s, p)
    }}
}

/// Behind `DATA_TYPE`: an array of elements of one type.
#[verifier::opaque]
pub open spec fn content_typed(s: Script, p: int) -> Outcome<ValueContentView> {
    match space(s, p) { Err(f) => Err(f), Ok((_, p)) =>
    match data_type(s, p) { Err(f) => Err(f), Ok((typ, p)) =>
    match keyword(s, p, "SIZE"@) { Err(f) => Err(f), Ok((_, p)) =>
    match uint(s, p, IntType::U64) { Err(f) => Err(f), Ok((element_count, p)) =>
    match space(s, p) { Err(f) => Err(f), Ok((_, p)) =>
    match fill(s, p, typ) { Err(f) => Err(f), Ok((fill, p)) =>
    match line_end(s, p) { Err(f) => Err(f), Ok((_, p)) =>
    Ok((ValueContentView::Typed { typ, element_count, fill }, p))
    }}}}}}}
}

/// A line with the address of a buffer.
#[verifier::opaque]
pub open spec fn gpuva_line(s: Script, p: int) -> Outcome<Seq<UnresolvedValue<Seq<char>>>> {
    match literal(s, p, "GPUVA"@) { Err(f) => Err(f), Ok((_, p)) =>
    match space_identifier(s, p) { Err(f) => Err(f), Ok((id, p)) =>
    match line_end(s, p) { Err(f) => Err(f), Ok((_, p)) =>
    Ok((Seq::empty().push(UnresolvedValue::Gpuva(id)), p))
    }}}
}

/// As many values as there are, put behind `found`.
pub open spec fn values_from(
    s: Script,
    p: int,
    typ: DataType,
    found: Seq<UnresolvedValue<Seq<char>>>,
) -> Outcome<Seq<UnresolvedValue<Seq<char>>>>
    decreases s.text.len() - p,
{
    match space_value(s, p, typ) {
        Ok((v, end)) => if p < end && end <= s.text.len() {
            values_from(s, end, typ, found.push(v))
        } else {
            Ok((found, p))
        },
        Err(f) => if f.cut {
            Err(f)
        } else {
            Ok((found, p))
        },
    }
}

/// A line with at least one value of a type.
#[verifier::opaque]
pub open spec fn typed_line(s: Script, p: int) -> Outcome<Seq<UnresolvedValue<Seq<char>>>> {
    match data_type(s, p) { Err(f) => Err(f), Ok((typ, p)) =>
    match space_value(s, p, typ) { Err(f) => Err(f), Ok((first, p)) =>
    match values_from(s, p, typ, Seq::empty().push(first)) { Err(f) => Err(f), Ok((values, p)) =>
    match line_end(s, p) { Err(f) => Err(f), Ok((_, p)) =>
    Ok((values, p))
    }}}}
}

/// A line of raw values.
#[verifier::opaque]
pub open spec fn raw_line(s: Script, p: int) -> Outcome<Seq<UnresolvedValue<Seq<char>>>> {
    either(gpuva_line(s, p), typed_line(s, p))
}

/// As many lines of raw values as there are, put behind `found`.
pub open spec fn raw_lines(s: Script, p: int, found: Seq<UnresolvedValue<Seq<char>>>) -> Outcome<
    Seq<UnresolvedValue<Seq<char>>>,
>
    decreases s.text.len() - p,
{
    match raw_line(s, p) {
        Ok((values, end)) => if p < end && end <= s.text.len() {
            raw_lines(s, end, found + values)
        } else {
            Ok((found, p))
        },
        Err(f) => if f.cut {
            Err(f)
        } else {
            Ok((found, p))
        },
    }
}

/// Behind `RAW`: the number of bytes, and values that take as many at most.
#[verifier::opaque]
pub open spec fn content_raw(s: Script, p: int) -> Outcome<ValueContentView> {
    match space(s, p) { Err(f) => Err(f), Ok((_, size_start)) =>
    match uint(s, size_start, IntType::U64) { Err(f) => Err(f), Ok((n, size_end)) =>
    match line_end(s, size_end) { Err(f) => Err(f), Ok((_, start)) =>
    match raw_lines(s, start, Seq::empty()) { Err(f) => Err(f), Ok((values, end)) =>
    match end_line(s, end) { Err(f) => Err(f), Ok((_, p)) =>
    if total_size(values) <= n {
        Ok((ValueContentView::Raw { size: n, values }, p))
    } else {
        Err(
            Fail {
                cut: false,
                error: ParserError::RawSizeMismatch {
                    size: s.object(n, size_start, size_end),
                    content: s.span(start, end),
                    content_size: total_size(values) as u128,
                },
            },
        )
    }
    }}}}}
}

/// Values, as an array or raw.
#[verifier::opaque]
pub open spec fn content(s: Script, p: int) -> Outcome<ValueContentView> {
    match word(s, p) { Err(f) => Err(f), Ok((w, p)) =>
    if w == "DATA_TYPE"@ {
        cut(content_typed(s, p))
    } else if w == "RAW"@ {
        cut(content_raw(s, p))
    } else {
        unknown(s, p)
    }}
}

/// `BUFFER`.
#[verifier::opaque]
pub open spec fn buffer(s: Script, p: int) -> Outcome<DirectiveView> {
    match space_identifier(s, p) { Err(f) => Err(f), Ok((name, p)) =>
    match space(s, p) { Err(f) => Err(f), Ok((_, p)) =>
    match content(s, p) { Err(f) => Err(f), Ok((content, p)) =>
    Ok((DirectiveView::Buffer { name, content }, p))
    }}}
}

} // verus!
