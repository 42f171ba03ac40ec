//! Dispatches.
use vstd::prelude::*;

use crate::grammar::dispatches as grammar;
use crate::grammar::dispatches::{DispatchItemsView, DispatchParseType};
use crate::parse_error::{IntType, Parsed, StatementFormat};
use crate::parser::tokens::{
    check_once, identifier, inv_statement, keyword, line_end, literal, opt, reads, reads_into,
    reads_lines, reads_some, space, space_identifier, space_identifier_or_none, take_set, uint,
    uint32, unknown, Once,
};
use crate::parser::values::content;
use crate::script::{
    new_list, push_item, Bind, Dim3, Directive, DispatchType, RayTables, RootValView,
    UnresolvedRootVal, UnresolvedRootValConst, ViewType,
};
use crate::source::{copy_identifier, Identifier, Source};
use crate::text::same_text;

verus! {

/// A number behind space.
fn space_uint32(src: &Source, pos: usize) -> (r: Parsed<u32>)
    requires
        src.wf(),
        pos <= src@.text.len(),
    ensures
        reads_some(src@, pos, r, grammar::space_uint32(src@, pos as int)),
{
    reveal(grammar::space_uint32);
    let (_, p) = space(src, pos)?;
    uint32(src, p)
}

/// Three numbers.
fn dim3(src: &Source, pos: usize) -> (r: Parsed<Dim3>)
    requires
        src.wf(),
        pos <= src@.text.len(),
    ensures
        reads_some(src@, pos, r, grammar::dim3(src@, pos as int)),
{
    reveal(grammar::dim3);
    let (x, p) = space_uint32(src, pos)?;
    let (y, p) = space_uint32(src, p)?;
    let (z, p) = space_uint32(src, p)?;
    Ok((Dim3 { x, y, z }, p))
}

/// A view for the root signature.
fn bind(src: &Source, pos: usize) -> (r: Parsed<Bind<String>>)
    requires
        src.wf(),
        pos <= src@.text.len(),
    ensures
        reads_some(src@, pos, r, grammar::bind(src@, pos as int)),
{
    reveal(grammar::bind);
    let (index, p) = space_uint32(src, pos)?;
    let (_, p) = keyword(src, p, "TABLE")?;
    let (view, p) = identifier(src, p)?;
    let (_, p) = line_end(src, p)?;
    Ok((Bind { index, view }, p))
}

/// Constants for the root signature.
fn root_const(src: &Source, pos: usize) -> (r: Parsed<UnresolvedRootValConst>)
    requires
        src.wf(),
        pos <= src@.text.len(),
    ensures
        reads_some(src@, pos, r, grammar::root_const(src@, pos as int)),
{
    reveal(grammar::root_const);
    let (index, p) = space_uint32(src, pos)?;
    let (_, p) = space(src, p)?;
    let (content, p) = content(src, p)?;
    Ok((UnresolvedRootValConst { index, content }, p))
}

/// A buffer for the root signature.
fn dispatch_view(src: &Source, pos: usize, typ: ViewType) -> (r: Parsed<RootValView<String>>)
    requires
        src.wf(),
        pos <= src@.text.len(),
    ensures
        reads_some(src@, pos, r, grammar::dispatch_view(src@, pos as int, typ)),
{
    reveal(grammar::dispatch_view);
    let (index, p) = space_uint32(src, pos)?;
    let (buffer, p) = space_identifier(src, p)?;
    let (_, p) = line_end(src, p)?;
    Ok((RootValView { index, typ: Some(typ), buffer }, p))
}

/// The root signature of a dispatch, if it has none so far.
fn dispatch_root_sig(src: &Source, pos: usize, set: &Once<Identifier>, id: &Identifier) -> (r:
    Parsed<Once<Identifier>>)
    requires
        src.wf(),
        pos <= src@.text.len(),
    ensures
        reads_some(
            src@,
            pos,
            r,
            grammar::dispatch_root_sig(src@, pos as int, set.deep_view(), id.deep_view()),
        ),
{
    reveal(grammar::dispatch_root_sig);
    let (_, p) = space(src, pos)?;
    check_once(set, id)?;
    let (root_sig, p) = identifier(src, p)?;
    let (_, p) = line_end(src, p)?;
    Ok((Some((root_sig, copy_identifier(id))), p))
}

/// What the lines of a dispatch have given so far.
struct DispatchItems {
    root_val: UnresolvedRootVal,
    root_sig: Once<Identifier>,
}

impl DeepView for DispatchItems {
    type V = DispatchItemsView;

    closed spec fn deep_view(&self) -> DispatchItemsView {
        DispatchItemsView {
            root_val: self.root_val.deep_view(),
            root_sig: self.root_sig.deep_view(),
        }
    }
}

/// A line of a dispatch.
fn dispatch_item(src: &Source, pos: usize, items: &mut DispatchItems) -> (r: Parsed<()>)
    requires
        src.wf(),
        pos <= src@.text.len(),
    ensures
        reads_into(
            src@,
            pos,
            r,
            old(items).deep_view(),
            final(items).deep_view(),
            grammar::dispatch_item(src@, pos as int, old(items).deep_view()),
        ),
{
    reveal(grammar::dispatch_item);
    let (id, p) = identifier(src, pos)?;
    let w = id.content.as_str();
    if same_text(w, "BIND") {
        let (found, end) = inv_statement(
            bind(src, p),
            StatementFormat::DispatchBind,
            id.span,
        )?;
        push_item(&mut items.root_val.binds, found);
        Ok(((), end))
    } else if same_text(w, "ROOT_CONST") {
        let (found, end) = inv_statement(
            root_const(src, p),
            StatementFormat::DispatchRootConst,
            id.span,
        )?;
        push_item(&mut items.root_val.consts, found);
        Ok(((), end))
    } else if same_text(w, "SRV") {
        let (found, end) = inv_statement(
            dispatch_view(src, p, ViewType::Srv),
            StatementFormat::DispatchSrv,
            id.span,
        )?;
        push_item(&mut items.root_val.views, found);
        Ok(((), end))
    } else if same_text(w, "UAV") {
        let (found, end) = inv_statement(
            dispatch_view(src, p, ViewType::Uav),
            StatementFormat::DispatchUav,
            id.span,
        )?;
        push_item(&mut items.root_val.views, found);
        Ok(((), end))
    } else if same_text(w, "ROOT_SIG") {
        let (root_sig, end) = inv_statement(
            dispatch_root_sig(src, p, &items.root_sig, &id),
            StatementFormat::DispatchRootSig,
            id.span,
        )?;
        items.root_sig = root_sig;
        Ok(((), end))
    } else {
        Err(unknown(src, p))
    }
}

/// The lines of a dispatch, as many as there are.
fn dispatch_items(src: &Source, pos: usize, items: &mut DispatchItems) -> (r: Parsed<()>)
    requires
        src.wf(),
        pos <= src@.text.len(),
    ensures
        reads_lines(
            src@,
            pos,
            r,
            final(items).deep_view(),
            grammar::dispatch_items(src@, pos as int, old(items).deep_view()),
        ),
{
    let mut p: usize = pos;
    loop
        invariant
            src.wf(),
            pos <= p <= src@.text.len(),
            grammar::dispatch_items(src@, pos as int, old(items).deep_view()) == grammar::dispatch_items(
                src@,
                p as int,
                items.deep_view(),
            ),
        decreases src@.text.len() - p,
    {
        match dispatch_item(src, p, items) {
            Ok((_, end)) => {
                p = end;
            },
            Err(f) => {
                if f.cut {
                    return Err(f);
                }
                return Ok(((), p));
            },
        }
    }
}

/// The dimensions of a compute dispatch.
fn run_dispatch(src: &Source, pos: usize) -> (r: Parsed<DispatchType<String>>)
    requires
        src.wf(),
        pos <= src@.text.len(),
    ensures
        reads_some(src@, pos, r, grammar::run_dispatch(src@, pos as int)),
{
    reveal(grammar::run_dispatch);
    let (dimensions, p) = dim3(src, pos)?;
    let (_, p) = line_end(src, p)?;
    Ok((DispatchType::Dispatch { dimensions }, p))
}

/// The shader tables for ray generation, hit groups, miss and callable shaders, and the dimensions
/// of a raytracing dispatch.
fn run_dispatch_rays(src: &Source, pos: usize) -> (r: Parsed<DispatchType<String>>)
    requires
        src.wf(),
        pos <= src@.text.len(),
    ensures
        reads_some(src@, pos, r, grammar::run_dispatch_rays(src@, pos as int)),
{
    reveal(grammar::run_dispatch_rays);
    let (raygen, p) = space_identifier_or_none(src, pos)?;
    let (hit_group, p) = space_identifier_or_none(src, p)?;
    let (miss, p) = space_identifier_or_none(src, p)?;
    let (callable, p) = space_identifier_or_none(src, p)?;
    let (dimensions, p) = dim3(src, p)?;
    let (_, p) = line_end(src, p)?;
    Ok((DispatchType::DispatchRays {
        dimensions,
        tables: RayTables { raygen, miss, hit_group, callable },
    }, p))
}

/// The offset behind `OFFSET`.
fn argument_offset(src: &Source, pos: usize) -> (r: Parsed<u64>)
    requires
        src.wf(),
        pos <= src@.text.len(),
    ensures
        reads_some(src@, pos, r, grammar::argument_offset(src@, pos as int)),
{
    reveal(grammar::argument_offset);
    let (_, p) = keyword(src, pos, "OFFSET")?;
    uint(src, p, IntType::U64)
}

/// The offset behind `COUNT_OFFSET`.
fn count_offset(src: &Source, pos: usize) -> (r: Parsed<u64>)
    requires
        src.wf(),
        pos <= src@.text.len(),
    ensures
        reads_some(src@, pos, r, grammar::count_offset(src@, pos as int)),
{
    reveal(grammar::count_offset);
    let (_, p) = keyword(src, pos, "COUNT_OFFSET")?;
    uint(src, p, IntType::U64)
}

/// The buffer behind `COUNT`, and where in it the count is.
fn count(src: &Source, pos: usize) -> (r: Parsed<(Identifier, Option<u64>)>)
    requires
        src.wf(),
        pos <= src@.text.len(),
    ensures
        reads_some(src@, pos, r, grammar::count(src@, pos as int)),
{
    reveal(grammar::count);
    let (_, p) = keyword(src, pos, "COUNT")?;
    let (buffer, p) = identifier(src, p)?;
    let (offset, p) = opt(count_offset(src, p), p)?;
    Ok(((buffer, offset), p))
}

/// The arguments of an indirect dispatch.
fn run_execute_indirect(src: &Source, pos: usize, signature: Identifier) -> (r: Parsed<DispatchType<String>>)
    requires
        src.wf(),
        pos <= src@.text.len(),
    ensures
        reads_some(src@, pos, r, grammar::run_execute_indirect(src@, pos as int, signature.deep_view())),
{
    reveal(grammar::run_execute_indirect);
    let (argument_buffer, p) = space_identifier(src, pos)?;
    let (argument_offset, p) = opt(argument_offset(src, p), p)?;
    let (_, p) = keyword(src, p, "MAX_COMMANDS")?;
    let (max_commands, p) = uint32(src, p)?;
    let (count, p) = opt(count(src, p), p)?;
    let (_, p) = line_end(src, p)?;
    let (count_buffer, count_offset) = match count {
        Some((buffer, offset)) => (Some(buffer), offset),
        None => (None, None),
    };
    Ok((DispatchType::ExecuteIndirect {
        signature,
        argument_buffer,
        argument_offset,
        count_buffer,
        count_offset,
        max_commands,
    }, p))
}

/// The command signature behind `SIGNATURE`, for an indirect dispatch.
fn signature(src: &Source, pos: usize, ty: DispatchParseType) -> (r: Parsed<Option<Identifier>>)
    requires
        src.wf(),
        pos <= src@.text.len(),
    ensures
        reads(src@, pos, r, grammar::signature(src@, pos as int, ty)),
{
    reveal(grammar::signature);
    match ty {
        DispatchParseType::ExecuteIndirect => {
            let (_, p) = keyword(src, pos, "SIGNATURE")?;
            let (id, p) = identifier(src, p)?;
            Ok((Some(id), p))
        },
        _ => Ok((None, pos)),
    }
}

/// What is dispatched. An indirect dispatch has a command signature.
fn run(src: &Source, pos: usize, signature: Option<Identifier>, rays: bool) -> (r: Parsed<DispatchType<String>>)
    requires
        src.wf(),
        pos <= src@.text.len(),
    ensures
        reads_some(src@, pos, r, grammar::run(src@, pos as int, signature.deep_view(), rays)),
{
    reveal(grammar::run);
    match signature {
        Some(id) => run_execute_indirect(src, pos, id),
        None => if rays {
            run_dispatch_rays(src, pos)
        } else {
            run_dispatch(src, pos)
        },
    }
}

/// `DISPATCH`, `DISPATCHRAYS` or `EXECUTE_INDIRECT`, the word `id`.
pub fn dispatch(src: &Source, pos: usize, id: &Identifier, ty: DispatchParseType) -> (r: Parsed<Directive>)
    requires
        src.wf(),
        pos <= src@.text.len(),
    ensures
        reads_some(src@, pos, r, grammar::dispatch(src@, pos as int, id.deep_view(), ty)),
{
    reveal(grammar::dispatch);
    let (pipeline, p) = space_identifier(src, pos)?;
    let (signature, p) = signature(src, p, ty)?;
    let (_, p) = line_end(src, p)?;
    let mut items = DispatchItems {
        root_val: UnresolvedRootVal { binds: new_list(), consts: new_list(), views: new_list() },
        root_sig: None,
    };
    let (_, p) = dispatch_items(src, p, &mut items)?;
    let (_, p) = literal(src, p, "RUN")?;
    let rays: bool = match ty {
        DispatchParseType::DispatchRays => true,
        _ => false,
    };
    let (typ, p) = run(src, p, signature, rays)?;
    let root_sig = take_set(items.root_sig);
    Ok((Directive::Dispatch {
        identifier: copy_identifier(id),
        pipeline,
        root_val: items.root_val,
        root_sig,
        typ,
    }, p))
}

} // verus!
