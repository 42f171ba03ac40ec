//! Acceleration structures.
use vstd::prelude::*;

use crate::flags::FlagKind;
use crate::grammar::geometry as grammar;
use crate::grammar::geometry::{
    BlasItemsView, InstanceItemsView, ProceduralItemsView, TlasItemsView, TriangleItemsView,
};
use crate::parse_error::{Fail, IntType, Parsed, StatementFormat};
use crate::parser::tokens::{
    check_once, cut_err, end_line, flags, identifier, inv_statement, line_end, none, number,
    reads, reads_into, reads_lines, reads_some, set_bits, space, space_identifier, take_set, uint,
    unknown, word, Once,
};
use crate::script::{
    new_list, push_item, Aabb, Directive, NumberLiteral, ProceduralGeometry, TlasBlas, Transform,
    TransformRow, TriangleGeometry, Vertex,
};
use crate::source::Source;
use crate::text::same_text;

verus! {

/// A number behind space.
fn space_number(src: &Source, pos: usize) -> (r: Parsed<NumberLiteral<String>>)
    requires
        src.wf(),
        pos <= src@.text.len(),
    ensures
        reads_some(src@, pos, r, grammar::space_number(src@, pos as int)),
{
    reveal(grammar::space_number);
    let (_, p) = space(src, pos)?;
    number(src, p)
}

/// Three coordinates.
fn vertex(src: &Source, pos: usize) -> (r: Parsed<Vertex<String>>)
    requires
        src.wf(),
        pos <= src@.text.len(),
    ensures
        reads_some(src@, pos, r, grammar::vertex(src@, pos as int)),
{
    reveal(grammar::vertex);
    let (x, p) = space_number(src, pos)?;
    let (y, p) = space_number(src, p)?;
    let (z, p) = space_number(src, p)?;
    Ok((Vertex { x, y, z }, p))
}

/// Three coordinates and the end of their line.
fn vertex_line(src: &Source, pos: usize) -> (r: Parsed<Vertex<String>>)
    requires
        src.wf(),
        pos <= src@.text.len(),
    ensures
        reads_some(src@, pos, r, grammar::vertex_line(src@, pos as int)),
{
    reveal(grammar::vertex_line);
    let (v, p) = vertex(src, pos)?;
    let (_, p) = line_end(src, p)?;
    Ok((v, p))
}

/// The corners of a box.
fn aabb(src: &Source, pos: usize) -> (r: Parsed<Aabb<String>>)
    requires
        src.wf(),
        pos <= src@.text.len(),
    ensures
        reads_some(src@, pos, r, grammar::aabb(src@, pos as int)),
{
    reveal(grammar::aabb);
    let (min, p) = vertex(src, pos)?;
    let (max, p) = vertex(src, p)?;
    let (_, p) = line_end(src, p)?;
    Ok((Aabb { min, max }, p))
}

/// A row of a transformation matrix.
fn transform_row(src: &Source, pos: usize) -> (r: Parsed<TransformRow<String>>)
    requires
        src.wf(),
        pos <= src@.text.len(),
    ensures
        reads_some(src@, pos, r, grammar::transform_row(src@, pos as int)),
{
    reveal(grammar::transform_row);
    let (x, p) = number(src, pos)?;
    let (y, p) = space_number(src, p)?;
    let (z, p) = space_number(src, p)?;
    let (w, p) = space_number(src, p)?;
    let (_, p) = line_end(src, p)?;
    Ok((TransformRow { x, y, z, w }, p))
}

/// A transformation matrix.
fn transform(src: &Source, pos: usize) -> (r: Parsed<Transform<String>>)
    requires
        src.wf(),
        pos <= src@.text.len(),
    ensures
        reads_some(src@, pos, r, grammar::transform(src@, pos as int)),
{
    reveal(grammar::transform);
    let (_, p) = line_end(src, pos)?;
    let (row0, p) = transform_row(src, p)?;
    let (row1, p) = transform_row(src, p)?;
    let (row2, p) = transform_row(src, p)?;
    let (_, p) = end_line(src, p)?;
    Ok((Transform { row0, row1, row2 }, p))
}

/// What the lines of a procedural geometry have given so far.
struct ProceduralItems {
    aabbs: Vec<Aabb<String>>,
    config: Once<u32>,
}

impl DeepView for ProceduralItems {
    type V = ProceduralItemsView;

    closed spec fn deep_view(&self) -> ProceduralItemsView {
        ProceduralItemsView {
            aabbs: self.aabbs.deep_view(),
            config: self.config.deep_view(),
        }
    }
}

/// A line of a procedural geometry.
fn procedural_item(src: &Source, pos: usize, items: &mut ProceduralItems) -> (r: Parsed<()>)
    requires
        src.wf(),
        pos <= src@.text.len(),
    ensures
        reads_into(
            src@,
            pos,
            r,
            old(items).deep_view(),
            final(items).deep_view(),
            grammar::procedural_item(src@, pos as int, old(items).deep_view()),
        ),
{
    reveal(grammar::procedural_item);
    let (id, p) = identifier(src, pos)?;
    let w = id.content.as_str();
    if same_text(w, "AABB") {
        let (found, end) = inv_statement(aabb(src, p), StatementFormat::Aabb, id.span)?;
        push_item(&mut items.aabbs, found);
        Ok(((), end))
    } else if same_text(w, "CONFIG") {
        if let Err(f) = check_once(&items.config, &id) {
            return Err(Fail { cut: true, error: f.error });
        }
        let (bits, end) = cut_err(flags(src, p, FlagKind::Geometry))?;
        items.config = Some((bits, id));
        Ok(((), end))
    } else {
        Err(unknown(src, p))
    }
}

/// The lines of a procedural geometry, as many as there are.
fn procedural_items(src: &Source, pos: usize, items: &mut ProceduralItems) -> (r: Parsed<()>)
    requires
        src.wf(),
        pos <= src@.text.len(),
    ensures
        reads_lines(
            src@,
            pos,
            r,
            final(items).deep_view(),
            grammar::procedural_items(src@, pos as int, old(items).deep_view()),
        ),
{
    let mut p: usize = pos;
    loop
        invariant
            src.wf(),
            pos <= p <= src@.text.len(),
            grammar::procedural_items(src@, pos as int, old(items).deep_view()) == grammar::procedural_items(
                src@,
                p as int,
                items.deep_view(),
            ),
        decreases src@.text.len() - p,
    {
        match procedural_item(src, p, items) {
            Ok((_, end)) => {
                p = end;
            },
            Err(f) => {
                if f.cut {
                    return Err(f);
                }
                return Ok(((), p));
            },
        }
    }
}

/// A procedural geometry.
fn blas_geometry_procedural(src: &Source, pos: usize) -> (r: Parsed<ProceduralGeometry>)
    requires
        src.wf(),
        pos <= src@.text.len(),
    ensures
        reads(src@, pos, r, grammar::blas_geometry_procedural(src@, pos as int)),
{
    reveal(grammar::blas_geometry_procedural);
    let (_, p) = line_end(src, pos)?;
    let mut items = ProceduralItems { aabbs: new_list(), config: None };
    let (_, p) = procedural_items(src, p, &mut items)?;
    let (_, p) = end_line(src, p)?;
    let config: u32 = set_bits(&items.config);
    Ok((ProceduralGeometry { aabbs: items.aabbs, config }, p))
}

/// What the lines of a triangle geometry have given so far.
struct TriangleItems {
    vertices: Vec<Vertex<String>>,
    transform: Once<Transform<String>>,
    config: Once<u32>,
}

impl DeepView for TriangleItems {
    type V = TriangleItemsView;

    closed spec fn deep_view(&self) -> TriangleItemsView {
        TriangleItemsView {
            vertices: self.vertices.deep_view(),
            transform: self.transform.deep_view(),
            config: self.config.deep_view(),
        }
    }
}

/// A line of a triangle geometry.
fn triangle_item(src: &Source, pos: usize, items: &mut TriangleItems) -> (r: Parsed<()>)
    requires
        src.wf(),
        pos <= src@.text.len(),
    ensures
        reads_into(
            src@,
            pos,
            r,
            old(items).deep_view(),
            final(items).deep_view(),
            grammar::triangle_item(src@, pos as int, old(items).deep_view()),
        ),
{
    reveal(grammar::triangle_item);
    let (id, p) = identifier(src, pos)?;
    let w = id.content.as_str();
    if same_text(w, "VERTEX") {
        let (found, end) = inv_statement(vertex_line(src, p), StatementFormat::Vertex, id.span)?;
        push_item(&mut items.vertices, found);
        Ok(((), end))
    } else if same_text(w, "TRANSFORM") {
        if let Err(f) = check_once(&items.transform, &id) {
            return Err(Fail { cut: true, error: f.error });
        }
        let (found, end) = inv_statement(transform(src, p), StatementFormat::Transform, id.span)?;
        items.transform = Some((found, id));
        Ok(((), end))
    } else if same_text(w, "CONFIG") {
        if let Err(f) = check_once(&items.config, &id) {
            return Err(Fail { cut: true, error: f.error });
        }
        let (bits, end) = cut_err(flags(src, p, FlagKind::Geometry))?;
        items.config = Some((bits, id));
        Ok(((), end))
    } else {
        Err(unknown(src, p))
    }
}

/// The lines of a triangle geometry, as many as there are.
fn triangle_items(src: &Source, pos: usize, items: &mut TriangleItems) -> (r: Parsed<()>)
    requires
        src.wf(),
        pos <= src@.text.len(),
    ensures
        reads_lines(
            src@,
            pos,
            r,
            final(items).deep_view(),
            grammar::triangle_items(src@, pos as int, old(items).deep_view()),
        ),
{
    let mut p: usize = pos;
    loop
        invariant
            src.wf(),
            pos <= p <= src@.text.len(),
            grammar::triangle_items(src@, pos as int, old(items).deep_view()) == grammar::triangle_items(
                src@,
                p as int,
                items.deep_view(),
            ),
        decreases src@.text.len() - p,
    {
        match triangle_item(src, p, items) {
            Ok((_, end)) => {
                p = end;
            },
            Err(f) => {
                if f.cut {
                    return Err(f);
                }
                return Ok(((), p));
            },
        }
    }
}

/// A triangle geometry.
fn blas_geometry_triangle(src: &Source, pos: usize) -> (r: Parsed<TriangleGeometry>)
    requires
        src.wf(),
        pos <= src@.text.len(),
    ensures
        reads(src@, pos, r, grammar::blas_geometry_triangle(src@, pos as int)),
{
    reveal(grammar::blas_geometry_triangle);
    let (_, p) = line_end(src, pos)?;
    let mut items = TriangleItems { vertices: new_list(), transform: None, config: None };
    let (_, p) = triangle_items(src, p, &mut items)?;
    let (_, p) = end_line(src, p)?;
    let config: u32 = set_bits(&items.config);
    let transform = take_set(items.transform);
    Ok((TriangleGeometry { vertices: items.vertices, transform, config }, p))
}

/// What the lines of a bottom-level acceleration structure have given so far.
struct BlasItems {
    procedurals: Vec<ProceduralGeometry>,
    triangles: Vec<TriangleGeometry>,
    config: Once<u32>,
}

impl DeepView for BlasItems {
    type V = BlasItemsView;

    closed spec fn deep_view(&self) -> BlasItemsView {
        BlasItemsView {
            procedurals: self.procedurals.deep_view(),
            triangles: self.triangles.deep_view(),
            config: self.config.deep_view(),
        }
    }
}

/// A geometry of a bottom-level acceleration structure.
fn blas_geometry(src: &Source, pos: usize, items: &mut BlasItems) -> (r: Parsed<()>)
    requires
        src.wf(),
        pos <= src@.text.len(),
    ensures
        reads_into(
            src@,
            pos,
            r,
            old(items).deep_view(),
            final(items).deep_view(),
            grammar::blas_geometry(src@, pos as int, old(items).deep_view()),
        ),
{
    reveal(grammar::blas_geometry);
    let (_, p) = space(src, pos)?;
    let (kind, p) = word(src, p)?;
    if same_text(kind.as_str(), "PROCEDURAL") {
        let (found, end) = blas_geometry_procedural(src, p)?;
        push_item(&mut items.procedurals, found);
        Ok(((), end))
    } else if same_text(kind.as_str(), "TRIANGLE") {
        let (found, end) = blas_geometry_triangle(src, p)?;
        push_item(&mut items.triangles, found);
        Ok(((), end))
    } else {
        Err(unknown(src, p))
    }
}

/// A line or geometry of a bottom-level acceleration structure.
fn blas_item(src: &Source, pos: usize, items: &mut BlasItems) -> (r: Parsed<()>)
    requires
        src.wf(),
        pos <= src@.text.len(),
    ensures
        reads_into(
            src@,
            pos,
            r,
            old(items).deep_view(),
            final(items).deep_view(),
            grammar::blas_item(src@, pos as int, old(items).deep_view()),
        ),
{
    reveal(grammar::blas_item);
    let (id, p) = identifier(src, pos)?;
    let w = id.content.as_str();
    if same_text(w, "GEOMETRY") {
        cut_err(blas_geometry(src, p, items))
    } else if same_text(w, "CONFIG") {
        if let Err(f) = check_once(&items.config, &id) {
            return Err(Fail { cut: true, error: f.error });
        }
        let (bits, end) = cut_err(flags(src, p, FlagKind::AccelStruct))?;
        items.config = Some((bits, id));
        Ok(((), end))
    } else {
        Err(unknown(src, p))
    }
}

/// The lines and geometries of a bottom-level acceleration structure, as many as there are.
fn blas_items(src: &Source, pos: usize, items: &mut BlasItems) -> (r: Parsed<()>)
    requires
        src.wf(),
        pos <= src@.text.len(),
    ensures
        reads_lines(
            src@,
            pos,
            r,
            final(items).deep_view(),
            grammar::blas_items(src@, pos as int, old(items).deep_view()),
        ),
{
    let mut p: usize = pos;
    loop
        invariant
            src.wf(),
            pos <= p <= src@.text.len(),
            grammar::blas_items(src@, pos as int, old(items).deep_view()) == grammar::blas_items(
                src@,
                p as int,
                items.deep_view(),
            ),
        decreases src@.text.len() - p,
    {
        match blas_item(src, p, items) {
            Ok((_, end)) => {
                p = end;
            },
            Err(f) => {
                if f.cut {
                    return Err(f);
                }
                return Ok(((), p));
            },
        }
    }
}

/// `BLAS`.
pub fn blas(src: &Source, pos: usize) -> (r: Parsed<Directive>)
    requires
        src.wf(),
        pos <= src@.text.len(),
    ensures
        reads_some(src@, pos, r, grammar::blas(src@, pos as int)),
{
    reveal(grammar::blas);
    let (name, p) = space_identifier(src, pos)?;
    let (_, p) = line_end(src, p)?;
    let mut items = BlasItems { procedurals: new_list(), triangles: new_list(), config: None };
    let (_, p) = blas_items(src, p, &mut items)?;
    let (_, p) = end_line(src, p)?;
    let config: u32 = set_bits(&items.config);
    Ok((Directive::Blas {
        name,
        procedurals: items.procedurals,
        triangles: items.triangles,
        config,
    }, p))
}

/// A number behind space, with the end of its line.
fn number_line(src: &Source, pos: usize, typ: IntType) -> (r: Parsed<u64>)
    requires
        src.wf(),
        pos <= src@.text.len(),
    ensures
        reads_some(src@, pos, r, grammar::number_line(src@, pos as int, typ)),
{
    reveal(grammar::number_line);
    let (_, p) = space(src, pos)?;
    let (n, p) = uint(src, p, typ)?;
    let (_, p) = line_end(src, p)?;
    Ok((n, p))
}

/// What the lines of an instance have given so far.
struct InstanceItems {
    id: Once<u64>,
    mask: Once<u64>,
    index_contrib: Once<u64>,
    transform: Once<Transform<String>>,
    config: Once<u32>,
}

impl DeepView for InstanceItems {
    type V = InstanceItemsView;

    closed spec fn deep_view(&self) -> InstanceItemsView {
        InstanceItemsView {
            id: self.id.deep_view(),
            mask: self.mask.deep_view(),
            index_contrib: self.index_contrib.deep_view(),
            transform: self.transform.deep_view(),
            config: self.config.deep_view(),
        }
    }
}

/// A line of an instance.
fn instance_item(src: &Source, pos: usize, items: &mut InstanceItems) -> (r: Parsed<()>)
    requires
        src.wf(),
        pos <= src@.text.len(),
    ensures
        reads_into(
            src@,
            pos,
            r,
            old(items).deep_view(),
            final(items).deep_view(),
            grammar::instance_item(src@, pos as int, old(items).deep_view()),
        ),
{
    reveal(grammar::instance_item);
    let (id, p) = identifier(src, pos)?;
    let w = id.content.as_str();
    if same_text(w, "ID") {
        if let Err(f) = check_once(&items.id, &id) {
            return Err(Fail { cut: true, error: f.error });
        }
        let (found, end) = inv_statement(number_line(src, p, IntType::U32), StatementFormat::InstanceId, id.span)?;
        items.id = Some((found, id));
        Ok(((), end))
    } else if same_text(w, "MASK") {
        if let Err(f) = check_once(&items.mask, &id) {
            return Err(Fail { cut: true, error: f.error });
        }
        let (found, end) = inv_statement(number_line(src, p, IntType::U8), StatementFormat::InstanceMask, id.span)?;
        items.mask = Some((found, id));
        Ok(((), end))
    } else if same_text(w, "HIT_GROUP_INDEX_CONTRIBUTION") {
        if let Err(f) = check_once(&items.index_contrib, &id) {
            return Err(Fail { cut: true, error: f.error });
        }
        let (found, end) = inv_statement(number_line(src, p, IntType::U32), StatementFormat::InstanceContribution, id.span)?;
        items.index_contrib = Some((found, id));
        Ok(((), end))
    } else if same_text(w, "TRANSFORM") {
        if let Err(f) = check_once(&items.transform, &id) {
            return Err(Fail { cut: true, error: f.error });
        }
        let (found, end) = inv_statement(transform(src, p), StatementFormat::Transform, id.span)?;
        items.transform = Some((found, id));
        Ok(((), end))
    } else if same_text(w, "CONFIG") {
        if let Err(f) = check_once(&items.config, &id) {
            return Err(Fail { cut: true, error: f.error });
        }
        let (bits, end) = cut_err(flags(src, p, FlagKind::TlasBlas))?;
        items.config = Some((bits, id));
        Ok(((), end))
    } else {
        Err(unknown(src, p))
    }
}

/// The lines of an instance, as many as there are.
fn instance_items(src: &Source, pos: usize, items: &mut InstanceItems) -> (r: Parsed<()>)
    requires
        src.wf(),
        pos <= src@.text.len(),
    ensures
        reads_lines(
            src@,
            pos,
            r,
            final(items).deep_view(),
            grammar::instance_items(src@, pos as int, old(items).deep_view()),
        ),
{
    let mut p: usize = pos;
    loop
        invariant
            src.wf(),
            pos <= p <= src@.text.len(),
            grammar::instance_items(src@, pos as int, old(items).deep_view()) == grammar::instance_items(
                src@,
                p as int,
                items.deep_view(),
            ),
        decreases src@.text.len() - p,
    {
        match instance_item(src, p, items) {
            Ok((_, end)) => {
                p = end;
            },
            Err(f) => {
                if f.cut {
                    return Err(f);
                }
                return Ok(((), p));
            },
        }
    }
}

/// A minus sign for an instance without lines.
pub fn no_lines(src: &Source, pos: usize) -> (r: Parsed<()>)
    requires
        src.wf(),
        pos <= src@.text.len(),
    ensures
        reads_some(src@, pos, r, grammar::no_lines(src@, pos as int)),
        r matches Err(f) ==> !f.cut,
{
    reveal(grammar::no_lines);
    let (_, p) = space(src, pos)?;
    let (_, p) = none::<()>(src, p)?;
    line_end(src, p)
}

/// The lines of an instance up to its end.
fn instance_lines(src: &Source, pos: usize) -> (r: Parsed<InstanceItems>)
    requires
        src.wf(),
        pos <= src@.text.len(),
    ensures
        reads(src@, pos, r, grammar::instance_lines(src@, pos as int)),
{
    reveal(grammar::instance_lines);
    let (_, p) = line_end(src, pos)?;
    let mut items = no_instance_items();
    let (_, p) = instance_items(src, p, &mut items)?;
    let (_, p) = end_line(src, p)?;
    Ok((items, p))
}

/// No lines of an instance.
fn no_instance_items() -> (items: InstanceItems)
    ensures
        items.deep_view() == grammar::no_instance_items(),
{
    InstanceItems { id: None, mask: None, index_contrib: None, transform: None, config: None }
}

/// A number that has been set, as one of 32 bits.
fn set_u32(set: &Once<u64>) -> (n: Option<u32>)
    ensures
        n == grammar::set_u32(set.deep_view()),
{
    match set {
        Some((n, _)) => Some(*n as u32),
        None => None,
    }
}

/// A number that has been set, as one of 8 bits.
fn set_u8(set: &Once<u64>) -> (n: Option<u8>)
    ensures
        n == grammar::set_u8(set.deep_view()),
{
    match set {
        Some((n, _)) => Some(*n as u8),
        None => None,
    }
}

/// An instance in a top-level acceleration structure.
fn tlas_blas(src: &Source, pos: usize) -> (r: Parsed<TlasBlas<String>>)
    requires
        src.wf(),
        pos <= src@.text.len(),
    ensures
        reads_some(src@, pos, r, grammar::tlas_blas(src@, pos as int)),
{
    reveal(grammar::tlas_blas);
    let (name, p) = space_identifier(src, pos)?;
    let (items, p) = match no_lines(src, p) {
        Ok((_, end)) => (no_instance_items(), end),
        Err(f) => match instance_lines(src, p) {
            Ok(found) => found,
            Err(g) => {
                if g.cut {
                    return Err(g);
                }
                return Err(Fail { cut: false, error: f.error.or(g.error) });
            },
        },
    };
    Ok((TlasBlas {
        name,
        id: set_u32(&items.id),
        mask: set_u8(&items.mask),
        index_contrib: set_u32(&items.index_contrib),
        config: set_bits(&items.config),
        transform: take_set(items.transform),
    }, p))
}

/// What the lines of a top-level acceleration structure have given so far.
struct TlasItems {
    blas: Vec<TlasBlas<String>>,
    config: Once<u32>,
}

impl DeepView for TlasItems {
    type V = TlasItemsView;

    closed spec fn deep_view(&self) -> TlasItemsView {
        TlasItemsView {
            blas: self.blas.deep_view(),
            config: self.config.deep_view(),
        }
    }
}

/// A line or instance of a top-level acceleration structure.
fn tlas_item(src: &Source, pos: usize, items: &mut TlasItems) -> (r: Parsed<()>)
    requires
        src.wf(),
        pos <= src@.text.len(),
    ensures
        reads_into(
            src@,
            pos,
            r,
            old(items).deep_view(),
            final(items).deep_view(),
            grammar::tlas_item(src@, pos as int, old(items).deep_view()),
        ),
{
    reveal(grammar::tlas_item);
    let (id, p) = identifier(src, pos)?;
    let w = id.content.as_str();
    if same_text(w, "BLAS") {
        let (found, end) = inv_statement(tlas_blas(src, p), StatementFormat::Instance, id.span)?;
        push_item(&mut items.blas, found);
        Ok(((), end))
    } else if same_text(w, "CONFIG") {
        if let Err(f) = check_once(&items.config, &id) {
            return Err(Fail { cut: true, error: f.error });
        }
        let (bits, end) = cut_err(flags(src, p, FlagKind::AccelStruct))?;
        items.config = Some((bits, id));
        Ok(((), end))
    } else {
        Err(unknown(src, p))
    }
}

/// The lines and instances of a top-level acceleration structure, as many as there are.
fn tlas_items(src: &Source, pos: usize, items: &mut TlasItems) -> (r: Parsed<()>)
    requires
        src.wf(),
        pos <= src@.text.len(),
    ensures
        reads_lines(
            src@,
            pos,
            r,
            final(items).deep_view(),
            grammar::tlas_items(src@, pos as int, old(items).deep_view()),
        ),
{
    let mut p: usize = pos;
    loop
        invariant
            src.wf(),
            pos <= p <= src@.text.len(),
            grammar::tlas_items(src@, pos as int, old(items).deep_view()) == grammar::tlas_items(
                src@,
                p as int,
                items.deep_view(),
            ),
        decreases src@.text.len() - p,
    {
        match tlas_item(src, p, items) {
            Ok((_, end)) => {
                p = end;
            },
            Err(f) => {
                if f.cut {
                    return Err(f);
                }
                return Ok(((), p));
            },
        }
    }
}

/// `TLAS`.
pub fn tlas(src: &Source, pos: usize) -> (r: Parsed<Directive>)
    requires
        src.wf(),
        pos <= src@.text.len(),
    ensures
        reads_some(src@, pos, r, grammar::tlas(src@, pos as int)),
{
    reveal(grammar::tlas);
    let (name, p) = space_identifier(src, pos)?;
    let (_, p) = line_end(src, p)?;
    let mut items = TlasItems { blas: new_list(), config: None };
    let (_, p) = tlas_items(src, p, &mut items)?;
    let (_, p) = end_line(src, p)?;
    let config: u32 = set_bits(&items.config);
    Ok((Directive::Tlas { name, blas: items.blas, config }, p))
}

} // verus!
