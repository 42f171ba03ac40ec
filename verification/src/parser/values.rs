//! Values: the content of buffers and root constants.
use vstd::prelude::*;

use crate::grammar::values as grammar;
use crate::parse_error::{Fail, IntType, Parsed, ParserError, StatementFormat};
use crate::parser::tokens::{
    cut_err, data_type, end_line, identifier, inv_statement, keyword, line_end, literal, reads,
    reads_lines, reads_some, space, space_identifier, uint, unknown, value, word,
};
use crate::script::{
    append_items, new_list, push_item, total_bytes, Directive, Fill, UnresolvedValue,
    UnresolvedValueContent,
};
use crate::source::{span_obj, Source};
use crate::text::same_text;
use crate::value::DataType;

verus! {

/// A value of a type, behind space.
pub fn space_value(src: &Source, pos: usize, typ: DataType) -> (r: Parsed<UnresolvedValue<String>>)
    requires
        src.wf(),
        pos <= src@.text.len(),
    ensures
        reads_some(src@, pos, r, grammar::space_value(src@, pos as int, typ)),
{
    reveal(grammar::space_value);
    let (_, p) = space(src, pos)?;
    value(src, p, typ)
}

/// The first element of a series and what each one adds.
fn fill_series(src: &Source, pos: usize, typ: DataType) -> (r: Parsed<Fill<UnresolvedValue<String>>>)
    requires
        src.wf(),
        pos <= src@.text.len(),
    ensures
        reads_some(src@, pos, r, grammar::fill_series(src@, pos as int, typ)),
{
    reveal(grammar::fill_series);
    let (from, p) = space_value(src, pos, typ)?;
    let (_, p) = keyword(src, p, "INC_BY")?;
    let (increment, p) = value(src, p, typ)?;
    Ok((Fill::Series { from, increment }, p))
}

/// The value of all elements.
fn fill_const(src: &Source, pos: usize, typ: DataType) -> (r: Parsed<Fill<UnresolvedValue<String>>>)
    requires
        src.wf(),
        pos <= src@.text.len(),
    ensures
        reads_some(src@, pos, r, grammar::fill_const(src@, pos as int, typ)),
{
    reveal(grammar::fill_const);
    let (v, p) = space_value(src, pos, typ)?;
    Ok((Fill::Const(v), p))
}

/// How the elements of an array are filled.
fn fill(src: &Source, pos: usize, typ: DataType) -> (r: Parsed<Fill<UnresolvedValue<String>>>)
    requires
        src.wf(),
        pos <= src@.text.len(),
    ensures
        reads_some(src@, pos, r, grammar::fill(src@, pos as int, typ)),
{
    reveal(grammar::fill);
    let (id, p) = identifier(src, pos)?;
    let w = id.content.as_str();
    if same_text(w, "SERIES_FROM") {
        inv_statement(fill_series(src, p, typ), StatementFormat::SeriesFrom, id.span)
    } else if same_text(w, "FILL") {
        inv_statement(fill_const(src, p, typ), StatementFormat::Fill, id.span)
    } else {
        Err(unknown(src, p))
    }
}

/// Behind `DATA_TYPE`: an array of elements of one type.
fn content_typed(src: &Source, pos: usize) -> (r: Parsed<UnresolvedValueContent>)
    requires
        src.wf(),
        pos <= src@.text.len(),
    ensures
        reads_some(src@, pos, r, grammar::content_typed(src@, pos as int)),
{
    reveal(grammar::content_typed);
    let (_, p) = space(src, pos)?;
    let (typ, p) = data_type(src, p)?;
    let (_, p) = keyword(src, p, "SIZE")?;
    let (element_count, p) = uint(src, p, IntType::U64)?;
    let (_, p) = space(src, p)?;
    let (fill, p) = fill(src, p, typ)?;
    let (_, p) = line_end(src, p)?;
    Ok((UnresolvedValueContent::Typed { typ, element_count, fill }, p))
}

/// A line with the address of a buffer.
fn gpuva_line(src: &Source, pos: usize) -> (r: Parsed<Vec<UnresolvedValue<String>>>)
    requires
        src.wf(),
        pos <= src@.text.len(),
    ensures
        reads_some(src@, pos, r, grammar::gpuva_line(src@, pos as int)),
        r matches Err(f) ==> !f.cut,
{
    reveal(grammar::gpuva_line);
    let (_, p) = literal(src, pos, "GPUVA")?;
    let (id, p) = space_identifier(src, p)?;
    let (_, p) = line_end(src, p)?;
    let mut values: Vec<UnresolvedValue<String>> = new_list();
    push_item(&mut values, UnresolvedValue::Gpuva(id));
    Ok((values, p))
}

/// A line with at least one value of a type.
fn typed_line(src: &Source, pos: usize) -> (r: Parsed<Vec<UnresolvedValue<String>>>)
    requires
        src.wf(),
        pos <= src@.text.len(),
    ensures
        reads_some(src@, pos, r, grammar::typed_line(src@, pos as int)),
{
    reveal(grammar::typed_line);
    let (typ, p) = data_type(src, pos)?;
    let (first, start) = space_value(src, p, typ)?;
    let mut values: Vec<UnresolvedValue<String>> = new_list();
    push_item(&mut values, first);
    let (_, p) = more_values(src, start, typ, &mut values)?;
    let (_, p) = line_end(src, p)?;
    Ok((values, p))
}

/// As many values as there are, put behind `found`.
fn more_values(src: &Source, pos: usize, typ: DataType, found: &mut Vec<UnresolvedValue<String>>) -> (r:
    Parsed<()>)
    requires
        src.wf(),
        pos <= src@.text.len(),
    ensures
        reads_lines(
            src@,
            pos,
            r,
            final(found).deep_view(),
            grammar::values_from(src@, pos as int, typ, old(found).deep_view()),
        ),
{
    let mut p: usize = pos;
    loop
        invariant
            src.wf(),
            pos <= p <= src@.text.len(),
            grammar::values_from(src@, pos as int, typ, old(found).deep_view())
                == grammar::values_from(src@, p as int, typ, found.deep_view()),
        decreases src@.text.len() - p,
    {
        match space_value(src, p, typ) {
            Ok((v, end)) => {
                push_item(found, v);
                p = end;
            },
            Err(f) => {
                if f.cut {
                    return Err(f);
                }
                return Ok(((), p));
            },
        }
    }
}

/// A line of raw values.
fn raw_line(src: &Source, pos: usize) -> (r: Parsed<Vec<UnresolvedValue<String>>>)
    requires
        src.wf(),
        pos <= src@.text.len(),
    ensures
        reads_some(src@, pos, r, grammar::raw_line(src@, pos as int)),
{
    reveal(grammar::raw_line);
    match gpuva_line(src, pos) {
        Ok(found) => Ok(found),
        Err(f) => match typed_line(src, pos) {
            Ok(found) => Ok(found),
            Err(g) => {
                if g.cut {
                    return Err(g);
                }
                Err(Fail { cut: false, error: f.error.or(g.error) })
            },
        },
    }
}

/// As many lines of raw values as there are.
fn raw_lines(src: &Source, pos: usize) -> (r: Parsed<Vec<UnresolvedValue<String>>>)
    requires
        src.wf(),
        pos <= src@.text.len(),
    ensures
        reads(src@, pos, r, grammar::raw_lines(src@, pos as int, Seq::empty())),
{
    let mut found: Vec<UnresolvedValue<String>> = new_list();
    let mut p: usize = pos;
    loop
        invariant
            src.wf(),
            pos <= p <= src@.text.len(),
            grammar::raw_lines(src@, pos as int, Seq::empty()) == grammar::raw_lines(
                src@,
                p as int,
                found.deep_view(),
            ),
        decreases src@.text.len() - p,
    {
        match raw_line(src, p) {
            Ok((values, end)) => {
                append_items(&mut found, values);
                p = end;
            },
            Err(f) => {
                if f.cut {
                    return Err(f);
                }
                return Ok((found, p));
            },
        }
    }
}

/// Behind `RAW`: the number of bytes, and values that take as many at most.
fn content_raw(src: &Source, pos: usize) -> (r: Parsed<UnresolvedValueContent>)
    requires
        src.wf(),
        pos <= src@.text.len(),
    ensures
        reads_some(src@, pos, r, grammar::content_raw(src@, pos as int)),
{
    reveal(grammar::content_raw);
    let (_, size_start) = space(src, pos)?;
    let (n, size_end) = uint(src, size_start, IntType::U64)?;
    let (_, start) = line_end(src, size_end)?;
    let (values, end) = raw_lines(src, start)?;
    let (_, p) = end_line(src, end)?;
    let content_size: u128 = total_bytes(&values);
    if content_size > n as u128 {
        return Err(
            Fail {
                cut: false,
                error: ParserError::RawSizeMismatch {
                    size: span_obj(src, n, size_start, size_end),
                    content: src.span(start, end),
                    content_size,
                },
            },
        );
    }
    Ok((UnresolvedValueContent::Raw { size: n, values }, p))
}

/// Values, as an array or raw.
pub fn content(src: &Source, pos: usize) -> (r: Parsed<UnresolvedValueContent>)
    requires
        src.wf(),
        pos <= src@.text.len(),
    ensures
        reads_some(src@, pos, r, grammar::content(src@, pos as int)),
{
    reveal(grammar::content);
    let (w, p) = word(src, pos)?;
    if same_text(w.as_str(), "DATA_TYPE") {
        cut_err(content_typed(src, p))
    } else if same_text(w.as_str(), "RAW") {
        cut_err(content_raw(src, p))
    } else {
        Err(unknown(src, p))
    }
}

/// `BUFFER`.
pub fn buffer(src: &Source, pos: usize) -> (r: Parsed<Directive>)
    requires
        src.wf(),
        pos <= src@.text.len(),
    ensures
        reads_some(src@, pos, r, grammar::buffer(src@, pos as int)),
{
    reveal(grammar::buffer);
    let (name, p) = space_identifier(src, pos)?;
    let (_, p) = space(src, p)?;
    let (content, p) = content(src, p)?;
    Ok((Directive::Buffer { name, content }, p))
}

} // verus!
