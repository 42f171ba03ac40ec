//! Root signatures, pipelines, views and command signatures.
use vstd::prelude::*;

use crate::flags::FlagKind;
use crate::grammar::bindings as grammar;
use crate::grammar::bindings::{PipelineItemsView, RootSigItemsView};
use crate::parse_error::{Fail, Parsed, ParserError, StatementFormat, WordKind};
use crate::parser::tokens::{
    check_once, cut_err, data_type, end_line, flags, identifier, identifier_line, inv_statement,
    keyword, line_end, literal, opt, reads, reads_into, reads_lines, reads_some, set_bits, space,
    space_identifier, take_set, uint32, unknown, view_type, word, Once,
};
use crate::script::{
    new_list, push_item, CommandSignatureArgument, Directive, InputViewType, PipelineType,
    RootSigConst, RootSigEntry, RootSigTable, RootSigView, ViewType,
};
use crate::source::{Identifier, Source};
use crate::text::same_text;

verus! {

/// Descriptors in the descriptor heap.
fn root_sig_table(src: &Source, pos: usize) -> (r: Parsed<RootSigEntry>)
    requires
        src.wf(),
        pos <= src@.text.len(),
    ensures
        reads_some(src@, pos, r, grammar::root_sig_table(src@, pos as int)),
{
    reveal(grammar::root_sig_table);
    let (_, p) = space(src, pos)?;
    let (typ, p) = view_type(src, p)?;
    let (_, p) = keyword(src, p, "REGISTER")?;
    let (register, p) = uint32(src, p)?;
    let (_, p) = keyword(src, p, "NUMBER")?;
    let (number, p) = uint32(src, p)?;
    let (_, p) = keyword(src, p, "SPACE")?;
    let (space, p) = uint32(src, p)?;
    let (_, p) = line_end(src, p)?;
    Ok((RootSigEntry::Table(RootSigTable { typ, register, number, space }), p))
}

/// A pointer to GPU memory.
fn root_sig_view(src: &Source, pos: usize, typ: ViewType) -> (r: Parsed<RootSigEntry>)
    requires
        src.wf(),
        pos <= src@.text.len(),
    ensures
        reads_some(src@, pos, r, grammar::root_sig_view(src@, pos as int, typ)),
{
    reveal(grammar::root_sig_view);
    let (_, p) = keyword(src, pos, "REGISTER")?;
    let (register, p) = uint32(src, p)?;
    let (_, p) = keyword(src, p, "SPACE")?;
    let (space, p) = uint32(src, p)?;
    let (_, p) = line_end(src, p)?;
    Ok((RootSigEntry::View(RootSigView { typ, register, space }), p))
}

/// Constant values.
fn root_sig_const(src: &Source, pos: usize) -> (r: Parsed<RootSigEntry>)
    requires
        src.wf(),
        pos <= src@.text.len(),
    ensures
        reads_some(src@, pos, r, grammar::root_sig_const(src@, pos as int)),
{
    reveal(grammar::root_sig_const);
    let (_, p) = keyword(src, pos, "NUMBER")?;
    let (number, p) = uint32(src, p)?;
    let (_, p) = keyword(src, p, "REGISTER")?;
    let (register, p) = uint32(src, p)?;
    let (_, p) = keyword(src, p, "SPACE")?;
    let (space, p) = uint32(src, p)?;
    let (_, p) = line_end(src, p)?;
    Ok((RootSigEntry::Const(RootSigConst { number, register, space }), p))
}

/// What the lines of a root signature have given so far.
struct RootSigItems {
    entries: Vec<RootSigEntry>,
    config: Once<u32>,
}

impl DeepView for RootSigItems {
    type V = RootSigItemsView;

    closed spec fn deep_view(&self) -> RootSigItemsView {
        RootSigItemsView {
            entries: self.entries.deep_view(),
            config: self.config.deep_view(),
        }
    }
}

/// A line of a root signature.
fn root_sig_item(src: &Source, pos: usize, items: &mut RootSigItems) -> (r: Parsed<()>)
    requires
        src.wf(),
        pos <= src@.text.len(),
    ensures
        reads_into(
            src@,
            pos,
            r,
            old(items).deep_view(),
            final(items).deep_view(),
            grammar::root_sig_item(src@, pos as int, old(items).deep_view()),
        ),
{
    reveal(grammar::root_sig_item);
    let (id, p) = identifier(src, pos)?;
    let w = id.content.as_str();
    if same_text(w, "TABLE") {
        let (found, end) = inv_statement(root_sig_table(src, p), StatementFormat::RootTable, id.span)?;
        push_item(&mut items.entries, found);
        Ok(((), end))
    } else if same_text(w, "SRV") {
        let (found, end) = inv_statement(root_sig_view(src, p, ViewType::Srv), StatementFormat::RootSrv, id.span)?;
        push_item(&mut items.entries, found);
        Ok(((), end))
    } else if same_text(w, "UAV") {
        let (found, end) = inv_statement(root_sig_view(src, p, ViewType::Uav), StatementFormat::RootUav, id.span)?;
        push_item(&mut items.entries, found);
        Ok(((), end))
    } else if same_text(w, "ROOT_CONST") {
        let (found, end) = inv_statement(root_sig_const(src, p), StatementFormat::RootConst, id.span)?;
        push_item(&mut items.entries, found);
        Ok(((), end))
    } else if same_text(w, "CONFIG") {
        if let Err(f) = check_once(&items.config, &id) {
            return Err(Fail { cut: true, error: f.error });
        }
        let (bits, end) = cut_err(flags(src, p, FlagKind::RootSig))?;
        items.config = Some((bits, id));
        Ok(((), end))
    } else {
        Err(unknown(src, p))
    }
}

/// The lines of a root signature, as many as there are.
fn root_sig_items(src: &Source, pos: usize, items: &mut RootSigItems) -> (r: Parsed<()>)
    requires
        src.wf(),
        pos <= src@.text.len(),
    ensures
        reads_lines(
            src@,
            pos,
            r,
            final(items).deep_view(),
            grammar::root_sig_items(src@, pos as int, old(items).deep_view()),
        ),
{
    let mut p: usize = pos;
    loop
        invariant
            src.wf(),
            pos <= p <= src@.text.len(),
            grammar::root_sig_items(src@, pos as int, old(items).deep_view()) == grammar::root_sig_items(
                src@,
                p as int,
                items.deep_view(),
            ),
        decreases src@.text.len() - p,
    {
        match root_sig_item(src, p, items) {
            Ok((_, end)) => {
                p = end;
            },
            Err(f) => {
                if f.cut {
                    return Err(f);
                }
                return Ok(((), p));
            },
        }
    }
}

/// `ROOT`.
pub fn root_sig(src: &Source, pos: usize) -> (r: Parsed<Directive>)
    requires
        src.wf(),
        pos <= src@.text.len(),
    ensures
        reads_some(src@, pos, r, grammar::root_sig(src@, pos as int)),
{
    reveal(grammar::root_sig);
    let (name, p) = space_identifier(src, pos)?;
    let (_, p) = line_end(src, p)?;
    let mut items = RootSigItems { entries: new_list(), config: None };
    let (_, p) = root_sig_items(src, p, &mut items)?;
    let (_, p) = end_line(src, p)?;
    let config: u32 = set_bits(&items.config);
    Ok((Directive::RootSig { name, entries: items.entries, config }, p))
}

/// `ROOT_DXIL`.
pub fn root_sig_dxil(src: &Source, pos: usize) -> (r: Parsed<Directive>)
    requires
        src.wf(),
        pos <= src@.text.len(),
    ensures
        reads_some(src@, pos, r, grammar::root_sig_dxil(src@, pos as int)),
{
    reveal(grammar::root_sig_dxil);
    let (name, p) = space_identifier(src, pos)?;
    let (object, p) = space_identifier(src, p)?;
    let (_, p) = line_end(src, p)?;
    Ok((Directive::RootSigDxil { name, object }, p))
}

/// The type of a pipeline.
fn pipeline_type(src: &Source, pos: usize) -> (r: Parsed<PipelineType>)
    requires
        src.wf(),
        pos <= src@.text.len(),
    ensures
        reads_some(src@, pos, r, grammar::pipeline_type(src@, pos as int)),
{
    reveal(grammar::pipeline_type);
    let (id, p) = identifier(src, pos)?;
    if same_text(id.content.as_str(), "COMPUTE") {
        Ok((PipelineType::Compute, p))
    } else {
        Err(
            Fail {
                cut: false,
                error: ParserError::InvalidWord { span: id.span, word: WordKind::PipelineType },
            },
        )
    }
}

/// What the lines of a pipeline have given so far.
struct PipelineItems {
    shaders: Vec<Identifier>,
    root_sig: Once<Identifier>,
}

impl DeepView for PipelineItems {
    type V = PipelineItemsView;

    closed spec fn deep_view(&self) -> PipelineItemsView {
        PipelineItemsView {
            shaders: self.shaders.deep_view(),
            root_sig: self.root_sig.deep_view(),
        }
    }
}

/// A line of a pipeline.
fn pipeline_item(src: &Source, pos: usize, items: &mut PipelineItems) -> (r: Parsed<()>)
    requires
        src.wf(),
        pos <= src@.text.len(),
    ensures
        reads_into(
            src@,
            pos,
            r,
            old(items).deep_view(),
            final(items).deep_view(),
            grammar::pipeline_item(src@, pos as int, old(items).deep_view()),
        ),
{
    reveal(grammar::pipeline_item);
    let (id, p) = identifier(src, pos)?;
    let w = id.content.as_str();
    if same_text(w, "ATTACH") {
        let (found, end) = inv_statement(identifier_line(src, p), StatementFormat::PipelineAttach, id.span)?;
        push_item(&mut items.shaders, found);
        Ok(((), end))
    } else if same_text(w, "ROOT") {
        if let Err(f) = check_once(&items.root_sig, &id) {
            return Err(Fail { cut: true, error: f.error });
        }
        let (found, end) = inv_statement(identifier_line(src, p), StatementFormat::PipelineRoot, id.span)?;
        items.root_sig = Some((found, id));
        Ok(((), end))
    } else {
        Err(unknown(src, p))
    }
}

/// The lines of a pipeline, as many as there are.
fn pipeline_items(src: &Source, pos: usize, items: &mut PipelineItems) -> (r: Parsed<()>)
    requires
        src.wf(),
        pos <= src@.text.len(),
    ensures
        reads_lines(
            src@,
            pos,
            r,
            final(items).deep_view(),
            grammar::pipeline_items(src@, pos as int, old(items).deep_view()),
        ),
{
    let mut p: usize = pos;
    loop
        invariant
            src.wf(),
            pos <= p <= src@.text.len(),
            grammar::pipeline_items(src@, pos as int, old(items).deep_view()) == grammar::pipeline_items(
                src@,
                p as int,
                items.deep_view(),
            ),
        decreases src@.text.len() - p,
    {
        match pipeline_item(src, p, items) {
            Ok((_, end)) => {
                p = end;
            },
            Err(f) => {
                if f.cut {
                    return Err(f);
                }
                return Ok(((), p));
            },
        }
    }
}

/// `PIPELINE`.
pub fn pipeline(src: &Source, pos: usize) -> (r: Parsed<Directive>)
    requires
        src.wf(),
        pos <= src@.text.len(),
    ensures
        reads_some(src@, pos, r, grammar::pipeline(src@, pos as int)),
{
    reveal(grammar::pipeline);
    let (name, p) = space_identifier(src, pos)?;
    let (_, p) = space(src, p)?;
    let (typ, p) = pipeline_type(src, p)?;
    let (_, p) = line_end(src, p)?;
    let mut items = PipelineItems { shaders: new_list(), root_sig: None };
    let (_, p) = pipeline_items(src, p, &mut items)?;
    let (_, p) = end_line(src, p)?;
    let root_sig = take_set(items.root_sig);
    Ok((Directive::Pipeline { name, typ, shaders: items.shaders, root_sig }, p))
}

/// A typed buffer view.
fn typed_view(src: &Source, pos: usize) -> (r: Parsed<InputViewType>)
    requires
        src.wf(),
        pos <= src@.text.len(),
    ensures
        reads_some(src@, pos, r, grammar::typed_view(src@, pos as int)),
        r matches Err(f) ==> !f.cut,
{
    reveal(grammar::typed_view);
    let (_, p) = literal(src, pos, "TYPED")?;
    let (_, p) = space(src, p)?;
    let (typ, p) = view_type(src, p)?;
    let (_, p) = space(src, p)?;
    let (data_type, p) = data_type(src, p)?;
    Ok((InputViewType::Typed { typ, data_type }, p))
}

/// A structured buffer view.
fn structured_view(src: &Source, pos: usize) -> (r: Parsed<InputViewType>)
    requires
        src.wf(),
        pos <= src@.text.len(),
    ensures
        reads_some(src@, pos, r, grammar::structured_view(src@, pos as int)),
{
    reveal(grammar::structured_view);
    let (_, p) = literal(src, pos, "STRUCTURED")?;
    let (_, p) = space(src, p)?;
    let (typ, p) = view_type(src, p)?;
    let (_, p) = keyword(src, p, "BYTES")?;
    let (struct_size, p) = uint32(src, p)?;
    Ok((InputViewType::Structured { typ, struct_size }, p))
}

/// An untyped buffer view.
fn raw_view(src: &Source, pos: usize) -> (r: Parsed<InputViewType>)
    requires
        src.wf(),
        pos <= src@.text.len(),
    ensures
        reads_some(src@, pos, r, grammar::raw_view(src@, pos as int)),
        r matches Err(f) ==> !f.cut,
{
    reveal(grammar::raw_view);
    let (typ, p) = view_type(src, pos)?;
    Ok((InputViewType::Raw { typ }, p))
}

/// A view of an acceleration structure.
fn rtas_view(src: &Source, pos: usize) -> (r: Parsed<InputViewType>)
    requires
        src.wf(),
        pos <= src@.text.len(),
    ensures
        reads_some(src@, pos, r, grammar::rtas_view(src@, pos as int)),
        r matches Err(f) ==> !f.cut,
{
    reveal(grammar::rtas_view);
    let (_, p) = literal(src, pos, "RTAS")?;
    let (_, p) = space(src, p)?;
    let (_, p) = literal(src, p, "SRV")?;
    Ok((InputViewType::RaytracingAccelStruct, p))
}

/// The description of a view.
fn view_description(src: &Source, pos: usize) -> (r: Parsed<InputViewType>)
    requires
        src.wf(),
        pos <= src@.text.len(),
    ensures
        reads_some(src@, pos, r, grammar::view_description(src@, pos as int)),
{
    reveal(grammar::view_description);
    let f = match typed_view(src, pos) {
        Ok(found) => {
            return Ok(found);
        },
        Err(f) => f,
    };
    let g = match structured_view(src, pos) {
        Ok(found) => {
            return Ok(found);
        },
        Err(g) => g,
    };
    if g.cut {
        return Err(g);
    }
    let h = match raw_view(src, pos) {
        Ok(found) => {
            return Ok(found);
        },
        Err(h) => h,
    };
    match rtas_view(src, pos) {
        Ok(found) => Ok(found),
        Err(i) => {
            let error = f.error.or(g.error).or(h.error).or(i.error);
            Err(Fail { cut: false, error })
        },
    }
}

/// `VIEW`.
pub fn view(src: &Source, pos: usize) -> (r: Parsed<Directive>)
    requires
        src.wf(),
        pos <= src@.text.len(),
    ensures
        reads_some(src@, pos, r, grammar::view(src@, pos as int)),
{
    reveal(grammar::view);
    let (name, p) = space_identifier(src, pos)?;
    let (buffer, p) = space_identifier(src, p)?;
    let (_, p) = keyword(src, p, "AS")?;
    let (typ, p) = view_description(src, p)?;
    let (_, p) = line_end(src, p)?;
    Ok((Directive::View { name, buffer: Some(buffer), typ }, p))
}

/// A view in an argument buffer.
fn argument_view(src: &Source, pos: usize, typ: ViewType) -> (r: Parsed<CommandSignatureArgument>)
    requires
        src.wf(),
        pos <= src@.text.len(),
    ensures
        reads_some(src@, pos, r, grammar::argument_view(src@, pos as int, typ)),
{
    reveal(grammar::argument_view);
    let (_, p) = keyword(src, pos, "REGISTER")?;
    let (index, p) = uint32(src, p)?;
    Ok((CommandSignatureArgument::View { typ, index }, p))
}

/// Constants in an argument buffer.
fn argument_const(src: &Source, pos: usize) -> (r: Parsed<CommandSignatureArgument>)
    requires
        src.wf(),
        pos <= src@.text.len(),
    ensures
        reads_some(src@, pos, r, grammar::argument_const(src@, pos as int)),
{
    reveal(grammar::argument_const);
    let (_, p) = keyword(src, pos, "NUMBER")?;
    let (number, p) = uint32(src, p)?;
    let (_, p) = keyword(src, p, "REGISTER")?;
    let (index, p) = uint32(src, p)?;
    let (_, p) = keyword(src, p, "OFFSET")?;
    let (offset, p) = uint32(src, p)?;
    Ok((CommandSignatureArgument::Constant { index, number, offset }, p))
}

/// A line of a command signature.
fn argument(src: &Source, pos: usize) -> (r: Parsed<CommandSignatureArgument>)
    requires
        src.wf(),
        pos <= src@.text.len(),
    ensures
        reads_some(src@, pos, r, grammar::argument(src@, pos as int)),
{
    reveal(grammar::argument);
    let (w, p) = word(src, pos)?;
    let w = w.as_str();
    let (argument, p) = if same_text(w, "SRV") {
        cut_err(argument_view(src, p, ViewType::Srv))?
    } else if same_text(w, "UAV") {
        cut_err(argument_view(src, p, ViewType::Uav))?
    } else if same_text(w, "ROOT_CONST") {
        cut_err(argument_const(src, p))?
    } else if same_text(w, "DISPATCH") {
        (CommandSignatureArgument::Dispatch, p)
    } else if same_text(w, "DISPATCHRAYS") {
        (CommandSignatureArgument::DispatchRays, p)
    } else {
        return Err(unknown(src, p));
    };
    let (_, p) = line_end(src, p)?;
    Ok((argument, p))
}

/// As many lines of a command signature as there are.
fn arguments(src: &Source, pos: usize) -> (r: Parsed<Vec<CommandSignatureArgument>>)
    requires
        src.wf(),
        pos <= src@.text.len(),
    ensures
        reads(src@, pos, r, grammar::arguments(src@, pos as int, Seq::empty())),
{
    let mut found: Vec<CommandSignatureArgument> = new_list();
    let mut p: usize = pos;
    loop
        invariant
            src.wf(),
            pos <= p <= src@.text.len(),
            grammar::arguments(src@, pos as int, Seq::empty()) == grammar::arguments(
                src@,
                p as int,
                found.deep_view(),
            ),
        decreases src@.text.len() - p,
    {
        match argument(src, p) {
            Ok((a, end)) => {
                push_item(&mut found, a);
                p = end;
            },
            Err(f) => {
                if f.cut {
                    return Err(f);
                }
                return Ok((found, p));
            },
        }
    }
}

/// The stride behind `STRIDE`.
fn stride(src: &Source, pos: usize) -> (r: Parsed<u32>)
    requires
        src.wf(),
        pos <= src@.text.len(),
    ensures
        reads_some(src@, pos, r, grammar::stride(src@, pos as int)),
{
    reveal(grammar::stride);
    let (_, p) = keyword(src, pos, "STRIDE")?;
    uint32(src, p)
}

/// The root signature behind `ROOT_SIG`.
fn signature_root_sig(src: &Source, pos: usize) -> (r: Parsed<Identifier>)
    requires
        src.wf(),
        pos <= src@.text.len(),
    ensures
        reads_some(src@, pos, r, grammar::signature_root_sig(src@, pos as int)),
{
    reveal(grammar::signature_root_sig);
    let (_, p) = keyword(src, pos, "ROOT_SIG")?;
    identifier(src, p)
}

/// `COMMAND_SIGNATURE`.
pub fn command_signature(src: &Source, pos: usize) -> (r: Parsed<Directive>)
    requires
        src.wf(),
        pos <= src@.text.len(),
    ensures
        reads_some(src@, pos, r, grammar::command_signature(src@, pos as int)),
{
    reveal(grammar::command_signature);
    let (name, p) = space_identifier(src, pos)?;
    let (stride, p) = opt(stride(src, p), p)?;
    let (root_sig, p) = opt(signature_root_sig(src, p), p)?;
    let (_, p) = line_end(src, p)?;
    let (arguments, p) = arguments(src, p)?;
    let (_, p) = end_line(src, p)?;
    Ok((Directive::CommandSignature { name, stride, arguments, root_sig }, p))
}

} // verus!
