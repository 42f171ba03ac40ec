//! Shader sources, objects and pipeline state objects.
use vstd::prelude::*;
use vstd::string::*;

use crate::flags::FlagKind;
use crate::grammar::objects as grammar;
use crate::grammar::objects::PsoItemsView;
use crate::parse_error::{Fail, Parsed, StatementFormat};
use crate::parser::tokens::{
    check_once, cut_err, end_line, flags, identifier, inv_statement, keyword, line_end, literal,
    opt, reads, reads_into, reads_lines, reads_some, set_bits, single_line_end, space, space_identifier,
    space_identifier_or_none, string, string_no_equals, unknown, until_end_literal, word, Once,
};
use crate::script::{
    new_list, push_item, Directive, Export, HitGroup, LinkObject, PipelineStateObjectType,
};
use crate::source::{copy_identifier, Identifier, Source};
use crate::text::{repeated, same_text};

verus! {

/// A word behind space.
fn space_word(src: &Source, pos: usize) -> (r: Parsed<String>)
    requires
        src.wf(),
        pos <= src@.text.len(),
    ensures
        reads_some(src@, pos, r, grammar::space_word(src@, pos as int)),
{
    reveal(grammar::space_word);
    let (_, p) = space(src, pos)?;
    word(src, p)
}

/// A string behind space.
fn space_string(src: &Source, pos: usize) -> (r: Parsed<String>)
    requires
        src.wf(),
        pos <= src@.text.len(),
    ensures
        reads_some(src@, pos, r, grammar::space_string(src@, pos as int)),
{
    reveal(grammar::space_string);
    let (_, p) = space(src, pos)?;
    string(src, p)
}

/// As many strings as there are.
fn strings(src: &Source, pos: usize) -> (r: Parsed<Vec<String>>)
    requires
        src.wf(),
        pos <= src@.text.len(),
    ensures
        reads(src@, pos, r, grammar::strings(src@, pos as int, Seq::empty())),
{
    let mut found: Vec<String> = new_list();
    let mut p: usize = pos;
    loop
        invariant
            src.wf(),
            pos <= p <= src@.text.len(),
            grammar::strings(src@, pos as int, Seq::empty()) == grammar::strings(
                src@,
                p as int,
                found.deep_view(),
            ),
        decreases src@.text.len() - p,
    {
        match space_string(src, p) {
            Ok((text, end)) => {
                push_item(&mut found, text);
                p = end;
            },
            Err(f) => {
                if f.cut {
                    return Err(f);
                }
                return Ok((found, p));
            },
        }
    }
}

/// An object that is compiled from a source.
fn object_args(src: &Source, pos: usize, name: &Identifier, is_object: bool) -> (r: Parsed<
    Directive,
>)
    requires
        src.wf(),
        pos <= src@.text.len(),
    ensures
        reads_some(
            src@,
            pos,
            r,
            grammar::object_args(src@, pos as int, name.deep_view(), is_object),
        ),
{
    reveal(grammar::object_args);
    let (source, p) = space_identifier(src, pos)?;
    let (shader_model, p) = space_word(src, p)?;
    let (entrypoint, p) = if is_object {
        let (w, p) = space_word(src, p)?;
        (Some(w), p)
    } else {
        (None, p)
    };
    let (args, p) = strings(src, p)?;
    let (_, p) = line_end(src, p)?;
    let name = copy_identifier(name);
    Ok((Directive::Object { name, source, shader_model, entrypoint, args }, p))
}

/// An object that is given as DXIL.
fn object_dxil(src: &Source, pos: usize, name: &Identifier) -> (r: Parsed<Directive>)
    requires
        src.wf(),
        pos <= src@.text.len(),
    ensures
        reads(src@, pos, r, grammar::object_dxil(src@, pos as int, name.deep_view())),
{
    reveal(grammar::object_dxil);
    let (_, p) = single_line_end(src, pos)?;
    let (content, p) = until_end_literal(src, p)?;
    Ok((Directive::ObjectDxil { name: copy_identifier(name), content }, p))
}

/// `OBJECT` or `LIB`: either arguments or a DXIL code block.
pub fn object(src: &Source, pos: usize, is_object: bool) -> (r: Parsed<Directive>)
    requires
        src.wf(),
        pos <= src@.text.len(),
    ensures
        reads_some(src@, pos, r, grammar::object(src@, pos as int, is_object)),
{
    reveal(grammar::object);
    let (name, p) = space_identifier(src, pos)?;
    match object_args(src, p, &name, is_object) {
        Ok(found) => Ok(found),
        Err(f) => {
            if f.cut {
                return Err(f);
            }
            match object_dxil(src, p, &name) {
                Ok(found) => Ok(found),
                Err(g) => {
                    if g.cut {
                        return Err(g);
                    }
                    Err(Fail { cut: false, error: f.error.or(g.error) })
                },
            }
        },
    }
}

/// `SOURCE`: the content comes with as many line feeds before it as the script has, so that line
/// numbers in it are those of the script.
pub fn source(src: &Source, pos: usize) -> (r: Parsed<Directive>)
    requires
        src.wf(),
        pos <= src@.text.len(),
    ensures
        reads_some(src@, pos, r, grammar::source(src@, pos as int)),
{
    reveal(grammar::source);
    let (name, p) = space_identifier(src, pos)?;
    let (_, start) = single_line_end(src, p)?;
    let (content, p) = until_end_literal(src, start)?;
    let mut lines = repeated('\n', src.lines_before(start));
    lines.append(content.as_str());
    Ok((Directive::Source { name, content: lines }, p))
}

/// The name that is renamed, behind an equals sign.
fn rename(src: &Source, pos: usize) -> (r: Parsed<String>)
    requires
        src.wf(),
        pos <= src@.text.len(),
    ensures
        reads_some(src@, pos, r, grammar::rename(src@, pos as int)),
{
    reveal(grammar::rename);
    let (_, p) = literal(src, pos, "=")?;
    string(src, p)
}

/// An export, maybe under another name.
fn export(src: &Source, pos: usize) -> (r: Parsed<Export<String>>)
    requires
        src.wf(),
        pos <= src@.text.len(),
    ensures
        reads_some(src@, pos, r, grammar::export(src@, pos as int)),
{
    reveal(grammar::export);
    let (_, p) = space(src, pos)?;
    let (name, p) = string_no_equals(src, p)?;
    let (to_rename, p) = opt(rename(src, p), p)?;
    Ok((Export { name, to_rename }, p))
}

/// `EXPORTS` and at least one export.
fn exports(src: &Source, pos: usize) -> (r: Parsed<Vec<Export<String>>>)
    requires
        src.wf(),
        pos <= src@.text.len(),
    ensures
        reads_some(src@, pos, r, grammar::exports(src@, pos as int)),
{
    reveal(grammar::exports);
    let (_, p) = space(src, pos)?;
    let (_, p) = literal(src, p, "EXPORTS")?;
    let (first, start) = export(src, p)?;
    let mut found: Vec<Export<String>> = new_list();
    push_item(&mut found, first);
    let ghost begun = found.deep_view();
    let mut p: usize = start;
    loop
        invariant
            src.wf(),
            pos < start <= p <= src@.text.len(),
            grammar::exports_from(src@, start as int, begun) == grammar::exports_from(
                src@,
                p as int,
                found.deep_view(),
            ),
            grammar::exports(src@, pos as int) == grammar::exports_from(src@, start as int, begun),
        decreases src@.text.len() - p,
    {
        match export(src, p) {
            Ok((e, end)) => {
                push_item(&mut found, e);
                p = end;
            },
            Err(f) => {
                if f.cut {
                    return Err(f);
                }
                return Ok((found, p));
            },
        }
    }
}

/// A library or collection in a pipeline state object.
fn pso_lib(src: &Source, pos: usize) -> (r: Parsed<LinkObject>)
    requires
        src.wf(),
        pos <= src@.text.len(),
    ensures
        reads_some(src@, pos, r, grammar::pso_lib(src@, pos as int)),
{
    reveal(grammar::pso_lib);
    let (name, p) = space_identifier(src, pos)?;
    let (list, p) = opt(exports(src, p), p)?;
    let (_, p) = line_end(src, p)?;
    let exports = match list {
        Some(list) => list,
        None => new_list(),
    };
    Ok((LinkObject { name, exports }, p))
}

/// A hit group in a pipeline state object.
fn pso_hit_group(src: &Source, pos: usize) -> (r: Parsed<HitGroup<String>>)
    requires
        src.wf(),
        pos <= src@.text.len(),
    ensures
        reads_some(src@, pos, r, grammar::pso_hit_group(src@, pos as int)),
{
    reveal(grammar::pso_hit_group);
    let (name, p) = space_identifier(src, pos)?;
    let (any_hit, p) = space_identifier_or_none(src, p)?;
    let (closest_hit, p) = space_identifier_or_none(src, p)?;
    let (intersection, p) = space_identifier_or_none(src, p)?;
    let (_, p) = line_end(src, p)?;
    Ok((HitGroup { name, any_hit, closest_hit, intersection }, p))
}

/// What the lines of a pipeline state object have given so far.
struct PsoItems {
    libs: Vec<LinkObject>,
    collections: Vec<LinkObject>,
    hit_groups: Vec<HitGroup<String>>,
    config: Once<u32>,
}

impl DeepView for PsoItems {
    type V = PsoItemsView;

    closed spec fn deep_view(&self) -> PsoItemsView {
        PsoItemsView {
            libs: self.libs.deep_view(),
            collections: self.collections.deep_view(),
            hit_groups: self.hit_groups.deep_view(),
            config: self.config.deep_view(),
        }
    }
}

/// A line of a pipeline state object.
fn pso_item(src: &Source, pos: usize, items: &mut PsoItems) -> (r: Parsed<()>)
    requires
        src.wf(),
        pos <= src@.text.len(),
    ensures
        reads_into(
            src@,
            pos,
            r,
            old(items).deep_view(),
            final(items).deep_view(),
            grammar::pso_item(src@, pos as int, old(items).deep_view()),
        ),
{
    reveal(grammar::pso_item);
    let (id, p) = identifier(src, pos)?;
    let w = id.content.as_str();
    if same_text(w, "COLLECTION") {
        let (lib, end) = inv_statement(pso_lib(src, p), StatementFormat::PsoCollection, id.span)?;
        push_item(&mut items.collections, lib);
        Ok(((), end))
    } else if same_text(w, "LIB") {
        let (lib, end) = inv_statement(pso_lib(src, p), StatementFormat::PsoLib, id.span)?;
        push_item(&mut items.libs, lib);
        Ok(((), end))
    } else if same_text(w, "HIT_GROUP") {
        let (group, end) = inv_statement(
            pso_hit_group(src, p),
            StatementFormat::PsoHitGroup,
            id.span,
        )?;
        push_item(&mut items.hit_groups, group);
        Ok(((), end))
    } else if same_text(w, "CONFIG") {
        if let Err(f) = check_once(&items.config, &id) {
            return Err(Fail { cut: true, error: f.error });
        }
        let (bits, end) = cut_err(flags(src, p, FlagKind::StateObject))?;
        items.config = Some((bits, id));
        Ok(((), end))
    } else {
        Err(unknown(src, p))
    }
}

/// The lines of a pipeline state object, as many as there are.
fn pso_items(src: &Source, pos: usize, items: &mut PsoItems) -> (r: Parsed<()>)
    requires
        src.wf(),
        pos <= src@.text.len(),
    ensures
        reads_lines(
            src@,
            pos,
            r,
            final(items).deep_view(),
            grammar::pso_items(src@, pos as int, old(items).deep_view()),
        ),
{
    let mut p: usize = pos;
    loop
        invariant
            src.wf(),
            pos <= p <= src@.text.len(),
            grammar::pso_items(src@, pos as int, old(items).deep_view()) == grammar::pso_items(
                src@,
                p as int,
                items.deep_view(),
            ),
        decreases src@.text.len() - p,
    {
        match pso_item(src, p, items) {
            Ok((_, end)) => {
                p = end;
            },
            Err(f) => {
                if f.cut {
                    return Err(f);
                }
                return Ok(((), p));
            },
        }
    }
}

/// The state object that is added to, behind `ADDTO`.
fn add_to(src: &Source, pos: usize) -> (r: Parsed<Identifier>)
    requires
        src.wf(),
        pos <= src@.text.len(),
    ensures
        reads_some(src@, pos, r, grammar::add_to(src@, pos as int)),
{
    reveal(grammar::add_to);
    let (_, p) = keyword(src, pos, "ADDTO")?;
    identifier(src, p)
}

/// `RTPSO` or `COLLECTION`.
pub fn pso(src: &Source, pos: usize, typ: PipelineStateObjectType) -> (r: Parsed<Directive>)
    requires
        src.wf(),
        pos <= src@.text.len(),
    ensures
        reads_some(src@, pos, r, grammar::pso(src@, pos as int, typ)),
{
    reveal(grammar::pso);
    let (name, p) = space_identifier(src, pos)?;
    let (add_to, p) = opt(add_to(src, p), p)?;
    let (_, p) = line_end(src, p)?;
    let mut items = PsoItems {
        libs: new_list(),
        collections: new_list(),
        hit_groups: new_list(),
        config: None,
    };
    let (_, p) = pso_items(src, p, &mut items)?;
    let (_, p) = end_line(src, p)?;
    let config: u32 = set_bits(&items.config);
    Ok((Directive::PipelineStateObject {
        name,
        typ,
        add_to,
        libs: items.libs,
        collections: items.collections,
        hit_groups: items.hit_groups,
        config,
    }, p))
}

} // verus!
