//! Statements that print, check, wait or read another file.
use vstd::prelude::*;

use crate::duration::{is_duration_char, parse_duration, DurationError};
use crate::grammar::checks as grammar;
use crate::grammar::tokens::CharClass;
use crate::parse_error::{Fail, IntType, Parsed, ParserError};
use crate::parser::tokens::{
    cut_err, data_type, identifier, keyword, line_end, literal, non_zero_u64, opt, reads,
    reads_some, run_end, space, space_identifier, string_object, uint, unknown, value,
};
use crate::script::{
    new_list, push_item, Directive, DumpDataType, DumpFormat, TimeSpan, UnresolvedValue,
};
use crate::source::{copy_identifier, span_obj, Identifier, Source, SpanObj};
use crate::value::DataType;

verus! {

/// `INCLUDE`, the word `id`.
pub fn include_file(src: &Source, pos: usize, id: &Identifier) -> (r: Parsed<Directive>)
    requires
        src.wf(),
        pos <= src@.text.len(),
    ensures
        reads_some(src@, pos, r, grammar::include_file(src@, pos as int, id.deep_view())),
{
    reveal(grammar::include_file);
    let (_, p) = space(src, pos)?;
    let (path, p) = string_object(src, p)?;
    let (_, p) = line_end(src, p)?;
    Ok((Directive::Include { identifier: copy_identifier(id), path }, p))
}

/// The text of a length of time, and where it stands.
fn duration_text(src: &Source, pos: usize) -> (r: Parsed<Identifier>)
    requires
        src.wf(),
        pos <= src@.text.len(),
    ensures
        reads_some(src@, pos, r, grammar::duration_text(src@, pos as int)),
        r matches Ok((text, _)) ==> forall|i: int|
            0 <= i < text.content@.len() ==> is_duration_char(#[trigger] text.content@[i]),
{
    reveal(grammar::duration_text);
    let end: usize = run_end(src, pos, CharClass::Duration);
    if end > pos {
        let text = src.slice(pos, end);
        assert forall|i: int| 0 <= i < text@.len() implies is_duration_char(#[trigger] text@[i]) by {
            assert(text@[i] == src@.text[pos + i]);
        }
        Ok((span_obj(src, text, pos, end), end))
    } else {
        Err(unknown(src, pos))
    }
}

/// A `SLEEP` statement `id` that says `text`, if `time` is what the text stands for.
pub fn sleep_for(id: &Identifier, text: &Identifier, time: Result<TimeSpan, DurationError>) -> (r:
    Result<Directive, Fail<String>>)
    ensures
        match r {
            Ok(directive) => grammar::sleep_for(id.deep_view(), text.deep_view(), time) == Ok::<
                _,
                Fail<Seq<char>>,
            >(directive.deep_view()),
            Err(f) => grammar::sleep_for(id.deep_view(), text.deep_view(), time) == Err::<
                crate::script::DirectiveView,
                _,
            >(f.deep_view()),
        },
{
    match time {
        Ok(t) => Ok(
            Directive::Sleep { identifier: copy_identifier(id), duration: text.map_content(t) },
        ),
        Err(source) => Err(
            Fail {
                cut: false,
                error: ParserError::ParseDuration {
                    source,
                    duration_span: text.span,
                    identifier: copy_identifier(id),
                },
            },
        ),
    }
}

/// `SLEEP`, the word `id`.
pub fn sleep(src: &Source, pos: usize, id: &Identifier) -> (r: Parsed<Directive>)
    requires
        src.wf(),
        pos <= src@.text.len(),
    ensures
        reads_some(src@, pos, r, grammar::sleep(src@, pos as int, id.deep_view())),
{
    reveal(grammar::sleep);
    let (_, p) = space(src, pos)?;
    let (text, p) = duration_text(src, p)?;
    let (_, p) = line_end(src, p)?;
    let time = parse_duration(text.content.as_str());
    match sleep_for(id, &text, time) {
        Ok(directive) => Ok((directive, p)),
        Err(f) => Err(f),
    }
}

/// What a `DUMP` statement prints.
fn dump_type(src: &Source, pos: usize) -> (r: Parsed<DumpDataType>)
    requires
        src.wf(),
        pos <= src@.text.len(),
    ensures
        reads_some(src@, pos, r, grammar::dump_type(src@, pos as int)),
{
    reveal(grammar::dump_type);
    match data_type(src, pos) {
        Ok((typ, end)) => Ok((DumpDataType::DataType(typ), end)),
        Err(f) => match literal(src, pos, "DXIL") {
            Ok((_, end)) => {
                proof {
                    reveal_strlit("DXIL");
                }
                Ok((DumpDataType::Dxil, end))
            },
            Err(g) => Err(Fail { cut: false, error: f.error.or(g.error) }),
        },
    }
}

/// The number of elements on a line, behind `PRINT_STRIDE`.
fn print_stride(src: &Source, pos: usize) -> (r: Parsed<u64>)
    requires
        src.wf(),
        pos <= src@.text.len(),
    ensures
        reads_some(src@, pos, r, grammar::print_stride(src@, pos as int)),
        r matches Ok((n, _)) ==> n != 0,
{
    reveal(grammar::print_stride);
    let (_, p) = keyword(src, pos, "PRINT_STRIDE")?;
    non_zero_u64(src, p)
}

/// `EXPECT` behind space.
fn expect_word(src: &Source, pos: usize) -> (r: Parsed<()>)
    requires
        src.wf(),
        pos <= src@.text.len(),
    ensures
        reads_some(src@, pos, r, grammar::expect_word(src@, pos as int)),
{
    reveal(grammar::expect_word);
    let (_, p) = space(src, pos)?;
    literal(src, p, "EXPECT")
}

/// `DUMP`, the word `id`.
pub fn dump(src: &Source, pos: usize, id: &Identifier) -> (r: Parsed<Directive>)
    requires
        src.wf(),
        pos <= src@.text.len(),
    ensures
        reads_some(src@, pos, r, grammar::dump(src@, pos as int, id.deep_view())),
{
    reveal(grammar::dump);
    let (resource, p) = space_identifier(src, pos)?;
    let (_, p) = space(src, p)?;
    let (typ, p) = dump_type(src, p)?;
    let (print_stride, p) = opt(print_stride(src, p), p)?;
    let (expect, p) = opt(expect_word(src, p), p)?;
    let (_, p) = line_end(src, p)?;
    let format = match expect {
        Some(_) => DumpFormat::Expect,
        None => DumpFormat::List,
    };
    Ok((Directive::Dump { identifier: copy_identifier(id), resource, typ, print_stride, format }, p))
}

/// A value and where it stands.
fn value_object(src: &Source, pos: usize, typ: DataType) -> (r: Parsed<SpanObj<UnresolvedValue<String>>>)
    requires
        src.wf(),
        pos <= src@.text.len(),
    ensures
        reads_some(src@, pos, r, grammar::value_object(src@, pos as int, typ)),
{
    reveal(grammar::value_object);
    let (v, end) = value(src, pos, typ)?;
    Ok((span_obj(src, v, pos, end), end))
}

/// The allowed difference, behind `EPSILON`.
fn epsilon(src: &Source, pos: usize, typ: DataType) -> (r: Parsed<SpanObj<UnresolvedValue<String>>>)
    requires
        src.wf(),
        pos <= src@.text.len(),
    ensures
        reads_some(src@, pos, r, grammar::epsilon(src@, pos as int, typ)),
{
    reveal(grammar::epsilon);
    let (_, p) = keyword(src, pos, "EPSILON")?;
    cut_err(value_object(src, p, typ))
}

/// A value behind space, and the value as it is written.
fn expect_value(src: &Source, pos: usize, typ: DataType) -> (r: Parsed<(UnresolvedValue<String>, Identifier)>)
    requires
        src.wf(),
        pos <= src@.text.len(),
    ensures
        reads_some(src@, pos, r, grammar::expect_value(src@, pos as int, typ)),
{
    reveal(grammar::expect_value);
    let (_, start) = space(src, pos)?;
    let (v, end) = value(src, start, typ)?;
    Ok(((v, span_obj(src, src.slice(start, end), start, end)), end))
}

/// Expected values, and the values as they are written.
struct ExpectItems {
    values: Vec<UnresolvedValue<String>>,
    value_spans: Vec<Identifier>,
}

impl DeepView for ExpectItems {
    type V = grammar::ExpectItemsView;

    closed spec fn deep_view(&self) -> grammar::ExpectItemsView {
        grammar::ExpectItemsView {
            values: self.values.deep_view(),
            value_spans: self.value_spans.deep_view(),
        }
    }
}

/// At least one value.
fn expect_values(src: &Source, pos: usize, typ: DataType) -> (r: Parsed<ExpectItems>)
    requires
        src.wf(),
        pos <= src@.text.len(),
    ensures
        reads_some(src@, pos, r, grammar::expect_values(src@, pos as int, typ)),
{
    reveal(grammar::expect_values);
    let ((first, span), start) = expect_value(src, pos, typ)?;
    let mut items = ExpectItems { values: new_list(), value_spans: new_list() };
    push_item(&mut items.values, first);
    push_item(&mut items.value_spans, span);
    let ghost begun = items.deep_view();
    let mut p: usize = start;
    loop
        invariant
            src.wf(),
            pos < start <= p <= src@.text.len(),
            grammar::expect_values(src@, pos as int, typ) == grammar::expect_values_from(
                src@,
                p as int,
                typ,
                items.deep_view(),
            ),
        decreases src@.text.len() - p,
    {
        match expect_value(src, p, typ) {
            Ok(((v, span), end)) => {
                push_item(&mut items.values, v);
                push_item(&mut items.value_spans, span);
                p = end;
            },
            Err(f) => {
                if f.cut {
                    return Err(f);
                }
                return Ok((items, p));
            },
        }
    }
}

/// `EXPECT`, the word `id`.
pub fn expect(src: &Source, pos: usize, id: &Identifier) -> (r: Parsed<Directive>)
    requires
        src.wf(),
        pos <= src@.text.len(),
    ensures
        reads_some(src@, pos, r, grammar::expect(src@, pos as int, id.deep_view())),
{
    reveal(grammar::expect);
    let (resource, p) = space_identifier(src, pos)?;
    let (_, p) = space(src, p)?;
    let (typ, p) = data_type(src, p)?;
    let (epsilon, p) = opt(epsilon(src, p, typ), p)?;
    let (_, start) = keyword(src, p, "OFFSET")?;
    let (n, end) = uint(src, start, IntType::U64)?;
    let (_, p) = space(src, end)?;
    let (_, p) = literal(src, p, "EQ")?;
    let (items, p) = expect_values(src, p, typ)?;
    let (_, p) = line_end(src, p)?;
    Ok((Directive::Expect {
        identifier: copy_identifier(id),
        resource,
        epsilon,
        offset: span_obj(src, n, start, end),
        values: items.values,
        value_spans: items.value_spans,
    }, p))
}

/// Whether shader identifiers are meant to be equal or different.
fn equal_word(src: &Source, pos: usize) -> (r: Parsed<bool>)
    requires
        src.wf(),
        pos <= src@.text.len(),
    ensures
        reads(src@, pos, r, grammar::equal_word(src@, pos as int)),
{
    reveal(grammar::equal_word);
    match literal(src, pos, "EQ") {
        Ok((_, end)) => Ok((true, end)),
        Err(f) => match literal(src, pos, "NE") {
            Ok((_, end)) => Ok((false, end)),
            Err(g) => Err(Fail { cut: false, error: f.error.or(g.error) }),
        },
    }
}

/// `ASSERT`, the word `id`.
pub fn assert_shader_id(src: &Source, pos: usize, id: &Identifier) -> (r: Parsed<Directive>)
    requires
        src.wf(),
        pos <= src@.text.len(),
    ensures
        reads_some(src@, pos, r, grammar::assert_shader_id(src@, pos as int, id.deep_view())),
{
    reveal(grammar::assert_shader_id);
    let (_, p) = keyword(src, pos, "SHADERID")?;
    let (equal, p) = equal_word(src, p)?;
    let (id_a, p) = space_identifier(src, p)?;
    let (id_b, p) = space_identifier(src, p)?;
    let (_, p) = line_end(src, p)?;
    Ok((Directive::AssertShaderId { identifier: copy_identifier(id), equal, id_a, id_b }, p))
}

} // verus!
