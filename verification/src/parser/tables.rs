//! Shader tables and shader identifiers.
use vstd::prelude::*;

use crate::grammar::tables as grammar;
use crate::grammar::tables::RecordItemsView;
use crate::parse_error::{Fail, Parsed};
use crate::parser::geometry::no_lines;
use crate::parser::tokens::{
    check_once, cut_err, end_line, identifier, identifier_line, line_end, literal, reads,
    reads_into, reads_lines, reads_some, space, space_identifier, string_object, uint32, unknown,
    Once,
};
use crate::script::{
    new_list, push_item, Bind, Directive, RootValView, ShaderReference, UnresolvedRootVal,
    UnresolvedShaderTableRecord,
};
use crate::source::{copy_identifier, Identifier, Source};
use crate::text::same_text;

verus! {

/// What the lines of a record have given so far.
struct RecordItems {
    shader: Once<ShaderReference<String>>,
    root_val: UnresolvedRootVal,
    /// The place in the local root signature that comes next
    next: u32,
}

impl DeepView for RecordItems {
    type V = RecordItemsView;

    closed spec fn deep_view(&self) -> RecordItemsView {
        RecordItemsView {
            shader: self.shader.deep_view(),
            root_val: self.root_val.deep_view(),
            next: self.next,
        }
    }
}

/// The number after `n`, zero after the largest one.
fn following(n: u32) -> (next: u32)
    ensures
        next == grammar::following(n),
{
    if n == u32::MAX {
        0
    } else {
        n + 1
    }
}

/// A shader identifier for a record, if it has no shader so far.
fn record_shader_id(
    src: &Source,
    pos: usize,
    set: &Once<ShaderReference<String>>,
    id: &Identifier,
) -> (r: Parsed<Once<ShaderReference<String>>>)
    requires
        src.wf(),
        pos <= src@.text.len(),
    ensures
        reads_some(
            src@,
            pos,
            r,
            grammar::record_shader_id(src@, pos as int, set.deep_view(), id.deep_view()),
        ),
{
    reveal(grammar::record_shader_id);
    let (_, p) = space(src, pos)?;
    check_once(set, id)?;
    let (shader_id, p) = identifier(src, p)?;
    let (_, p) = line_end(src, p)?;
    Ok((Some((ShaderReference::ShaderId(shader_id), copy_identifier(id))), p))
}

/// A line of a record.
fn record_item(src: &Source, pos: usize, items: &mut RecordItems) -> (r: Parsed<()>)
    requires
        src.wf(),
        pos <= src@.text.len(),
    ensures
        reads_into(
            src@,
            pos,
            r,
            old(items).deep_view(),
            final(items).deep_view(),
            grammar::record_item(src@, pos as int, old(items).deep_view()),
        ),
{
    reveal(grammar::record_item);
    let (id, p) = identifier(src, pos)?;
    let w = id.content.as_str();
    if same_text(w, "TABLE") {
        let (view, end) = cut_err(identifier_line(src, p))?;
        let index: u32 = items.next;
        push_item(&mut items.root_val.binds, Bind { index, view });
        items.next = following(index);
        Ok(((), end))
    } else if same_text(w, "GPUVA") {
        let (buffer, end) = cut_err(identifier_line(src, p))?;
        let index: u32 = items.next;
        push_item(&mut items.root_val.views, RootValView { index, typ: None, buffer });
        items.next = following(index);
        Ok(((), end))
    } else if same_text(w, "SHADERID") {
        let (shader, end) = cut_err(record_shader_id(src, p, &items.shader, &id))?;
        items.shader = shader;
        Ok(((), end))
    } else {
        Err(unknown(src, p))
    }
}

/// The lines of a record, as many as there are.
fn record_items(src: &Source, pos: usize, items: &mut RecordItems) -> (r: Parsed<()>)
    requires
        src.wf(),
        pos <= src@.text.len(),
    ensures
        reads_lines(
            src@,
            pos,
            r,
            final(items).deep_view(),
            grammar::record_items(src@, pos as int, old(items).deep_view()),
        ),
{
    let mut p: usize = pos;
    loop
        invariant
            src.wf(),
            pos <= p <= src@.text.len(),
            grammar::record_items(src@, pos as int, old(items).deep_view()) == grammar::record_items(
                src@,
                p as int,
                items.deep_view(),
            ),
        decreases src@.text.len() - p,
    {
        match record_item(src, p, items) {
            Ok((_, end)) => {
                p = end;
            },
            Err(f) => {
                if f.cut {
                    return Err(f);
                }
                return Ok(((), p));
            },
        }
    }
}

/// No lines of a record whose shader is `shader`.
fn no_record_items(shader: Once<ShaderReference<String>>) -> (items: RecordItems)
    ensures
        items.deep_view() == grammar::no_record_items(shader.deep_view()),
{
    RecordItems {
        shader,
        root_val: UnresolvedRootVal { binds: new_list(), consts: new_list(), views: new_list() },
        next: 0,
    }
}

/// The lines of a record up to its end.
fn record_content(src: &Source, pos: usize, shader: Once<ShaderReference<String>>) -> (r: Parsed<
    RecordItems,
>)
    requires
        src.wf(),
        pos <= src@.text.len(),
    ensures
        reads(src@, pos, r, grammar::record_content(src@, pos as int, shader.deep_view())),
{
    reveal(grammar::record_content);
    let (_, p) = line_end(src, pos)?;
    let mut items = no_record_items(shader);
    let (_, p) = record_items(src, p, &mut items)?;
    let (_, p) = end_line(src, p)?;
    Ok((items, p))
}

/// The shader that a record names.
fn name_once(name: &Identifier) -> (shader: Once<ShaderReference<String>>)
    ensures
        shader.deep_view() == Some((ShaderReference::Name(name.deep_view()), name.deep_view())),
{
    Some((ShaderReference::Name(copy_identifier(name)), copy_identifier(name)))
}

/// The rest of a record that names its shader.
fn named_record(src: &Source, pos: usize) -> (r: Parsed<RecordItems>)
    requires
        src.wf(),
        pos <= src@.text.len(),
    ensures
        reads_some(src@, pos, r, grammar::named_record(src@, pos as int)),
{
    reveal(grammar::named_record);
    let (_, p) = space(src, pos)?;
    let (name, p) = string_object(src, p)?;
    match no_lines(src, p) {
        Ok((_, end)) => Ok((no_record_items(name_once(&name)), end)),
        Err(f) => match record_content(src, p, name_once(&name)) {
            Ok(found) => Ok(found),
            Err(g) => {
                if g.cut {
                    return Err(g);
                }
                Err(Fail { cut: false, error: f.error.or(g.error) })
            },
        },
    }
}

/// A record of a shader table.
fn record(src: &Source, pos: usize) -> (r: Parsed<UnresolvedShaderTableRecord>)
    requires
        src.wf(),
        pos <= src@.text.len(),
    ensures
        reads_some(src@, pos, r, grammar::record(src@, pos as int)),
{
    reveal(grammar::record);
    let (_, p) = space(src, pos)?;
    let (index, p) = uint32(src, p)?;
    let (items, end) = match named_record(src, p) {
        Ok(found) => found,
        Err(f) => {
            if f.cut {
                return Err(f);
            }
            match record_content(src, p, None) {
                Ok(found) => found,
                Err(g) => {
                    if g.cut {
                        return Err(g);
                    }
                    return Err(Fail { cut: false, error: f.error.or(g.error) });
                },
            }
        },
    };
    let shader = match items.shader {
        Some((shader, _)) => shader,
        None => ShaderReference::Null,
    };
    Ok((UnresolvedShaderTableRecord { index, shader, root_val: items.root_val }, end))
}

/// `RECORD` and a record.
fn record_statement(src: &Source, pos: usize) -> (r: Parsed<UnresolvedShaderTableRecord>)
    requires
        src.wf(),
        pos <= src@.text.len(),
    ensures
        reads_some(src@, pos, r, grammar::record_statement(src@, pos as int)),
{
    reveal(grammar::record_statement);
    let (_, p) = literal(src, pos, "RECORD")?;
    cut_err(record(src, p))
}

/// As many records as there are.
fn records(src: &Source, pos: usize) -> (r: Parsed<Vec<UnresolvedShaderTableRecord>>)
    requires
        src.wf(),
        pos <= src@.text.len(),
    ensures
        reads(src@, pos, r, grammar::records(src@, pos as int, Seq::empty())),
{
    let mut found: Vec<UnresolvedShaderTableRecord> = new_list();
    let mut p: usize = pos;
    loop
        invariant
            src.wf(),
            pos <= p <= src@.text.len(),
            grammar::records(src@, pos as int, Seq::empty()) == grammar::records(
                src@,
                p as int,
                found.deep_view(),
            ),
        decreases src@.text.len() - p,
    {
        match record_statement(src, p) {
            Ok((r, end)) => {
                push_item(&mut found, r);
                p = end;
            },
            Err(f) => {
                if f.cut {
                    return Err(f);
                }
                return Ok((found, p));
            },
        }
    }
}

/// `SHADERTABLE`.
pub fn shadertable(src: &Source, pos: usize) -> (r: Parsed<Directive>)
    requires
        src.wf(),
        pos <= src@.text.len(),
    ensures
        reads_some(src@, pos, r, grammar::shadertable(src@, pos as int)),
{
    reveal(grammar::shadertable);
    let (name, p) = space_identifier(src, pos)?;
    let (pipeline_state_object, p) = space_identifier(src, p)?;
    let (_, p) = line_end(src, p)?;
    let (records, p) = records(src, p)?;
    let (_, p) = end_line(src, p)?;
    Ok((Directive::ShaderTable { name, pipeline_state_object, records }, p))
}

/// `SHADERID`.
pub fn shaderid(src: &Source, pos: usize) -> (r: Parsed<Directive>)
    requires
        src.wf(),
        pos <= src@.text.len(),
    ensures
        reads_some(src@, pos, r, grammar::shaderid(src@, pos as int)),
{
    reveal(grammar::shaderid);
    let (name, p) = space_identifier(src, pos)?;
    let (pipeline_state_object, p) = space_identifier(src, p)?;
    let (_, p) = space(src, p)?;
    let (shader_name, p) = string_object(src, p)?;
    let (_, p) = line_end(src, p)?;
    Ok((Directive::ShaderId { name, pipeline_state_object, shader_name }, p))
}

} // verus!
