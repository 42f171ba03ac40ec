//! Acceleration structures.
use vstd::prelude::*;

use crate::flags::FlagKind;
use crate::grammar::tokens::{
    cut, either, end_line, flags, identifier, in_statement, line_end, no_dup, none, number,
    set_bits, set_value, space, space_identifier, uint, unknown, word, OnceView,
};
use crate::parse_error::{IntType, Outcome, StatementFormat};
use crate::script::{
    Aabb, DirectiveView, NumberLiteral, ProceduralGeometryView, TlasBlas, Transform, TransformRow,
    TriangleGeometryView, Vertex,
};
use crate::source::Script;

verus! {

/// A number behind space.
#[verifier::opaque]
pub open spec fn space_number(s: Script, p: int) -> Outcome<NumberLiteral<Seq<char>>> {
    match space(s, p) { Err(f) => Err(f), Ok((_, p)) =>
    number(s, p)
    }
}

/// Three coordinates.
#[verifier::opaque]
pub open spec fn vertex(s: Script, p: int) -> Outcome<Vertex<Seq<char>>> {
    match space_number(s, p) { Err(f) => Err(f), Ok((x, p)) =>
    match space_number(s, p) { Err(f) => Err(f), Ok((y, p)) =>
    match space_number(s, p) { Err(f) => Err(f), Ok((z, p)) =>
    Ok((Vertex { x, y, z }, p))
    }}}
}

/// Three coordinates and the end of their line.
#[verifier::opaque]
pub open spec fn vertex_line(s: Script, p: int) -> Outcome<Vertex<Seq<char>>> {
    match vertex(s, p) { Err(f) => Err(f), Ok((v, p)) =>
    match line_end(s, p) { Err(f) => Err(f), Ok((_, p)) =>
    Ok((v, p))
    }}
}

/// The corners of a box.
#[verifier::opaque]
pub open spec fn aabb(s: Script, p: int) -> Outcome<Aabb<Seq<char>>> {
    match vertex(s, p) { Err(f) => Err(f), Ok((min, p)) =>
    match vertex(s, p) { Err(f) => Err(f), Ok((max, p)) =>
    match line_end(s, p) { Err(f) => Err(f), Ok((_, p)) =>
    Ok((Aabb { min, max }, p))
    }}}
}

/// A row of a transformation matrix.
#[verifier::opaque]
pub open spec fn transform_row(s: Script, p: int) -> Outcome<TransformRow<Seq<char>>> {
    match number(s, p) { Err(f) => Err(f), Ok((x, p)) =>
    match space_number(s, p) { Err(f) => Err(f), Ok((y, p)) =>
    match space_number(s, p) { Err(f) => Err(f), Ok((z, p)) =>
    match space_number(s, p) { Err(f) => Err(f), Ok((w, p)) =>
    match line_end(s, p) { Err(f) => Err(f), Ok((_, p)) =>
    Ok((TransformRow { x, y, z, w }, p))
    }}}}}
}

/// A transformation matrix.
#[verifier::opaque]
pub open spec fn transform(s: Script, p: int) -> Outcome<Transform<Seq<char>>> {
    match line_end(s, p) { Err(f) => Err(f), Ok((_, p)) =>
    match transform_row(s, p) { Err(f) => Err(f), Ok((row0, p)) =>
    match transform_row(s, p) { Err(f) => Err(f), Ok((row1, p)) =>
    match transform_row(s, p) { Err(f) => Err(f), Ok((row2, p)) =>
    match end_line(s, p) { Err(f) => Err(f), Ok((_, p)) =>
    Ok((Transform { row0, row1, row2 }, p))
    }}}}}
}

/// What the lines of a procedural geometry have given so far.
pub struct ProceduralItemsView {
    pub aabbs: Seq<Aabb<Seq<char>>>,
    pub config: OnceView<u32>,
}

/// A line of a procedural geometry.
#[verifier::opaque]
pub open spec fn procedural_item(s: Script, p: int, items: ProceduralItemsView) -> Outcome<ProceduralItemsView> {
    match identifier(s, p) { Err(f) => Err(f), Ok((id, p)) =>
    if id.content == "AABB"@ {
        match in_statement(aabb(s, p), StatementFormat::Aabb, id.span) {
            Ok((found, end)) => Ok((ProceduralItemsView { aabbs: items.aabbs.push(found), ..items }, end)),
            Err(f) => Err(f),
        }
    } else if id.content == "CONFIG"@ {
        match cut(no_dup(items.config, id, flags(s, p, FlagKind::Geometry))) {
            Ok((config, end)) => Ok((ProceduralItemsView { config, ..items }, end)),
            Err(f) => Err(f),
        }
    } else {
        unknown(s, p)
    }}
}

/// The lines of a procedural geometry, as many as there are.
pub open spec fn procedural_items(s: Script, p: int, items: ProceduralItemsView) -> Outcome<ProceduralItemsView>
    decreases s.text.len() - p,
{
    match procedural_item(s, p, items) {
        Ok((items, end)) => if p < end && end <= s.text.len() {
            procedural_items(s, end, items)
        } else {
            Ok((items, p))
        },
        Err(f) => if f.cut {
            Err(f)
        } else {
            Ok((items, p))
        },
    }
}

/// A procedural geometry.
#[verifier::opaque]
pub open spec fn blas_geometry_procedural(s: Script, p: int) -> Outcome<ProceduralGeometryView> {
    match line_end(s, p) { Err(f) => Err(f), Ok((_, p)) => {
    let nothing = ProceduralItemsView { aabbs: Seq::empty(), config: None };
    match procedural_items(s, p, nothing) { Err(f) => Err(f), Ok((items, p)) =>
    match end_line(s, p) { Err(f) => Err(f), Ok((_, p)) =>
    Ok((ProceduralGeometryView { aabbs: items.aabbs, config: set_bits(items.config) }, p))
    }}}}
}

/// What the lines of a triangle geometry have given so far.
pub struct TriangleItemsView {
    pub vertices: Seq<Vertex<Seq<char>>>,
    pub transform: OnceView<Transform<Seq<char>>>,
    pub config: OnceView<u32>,
}

/// A line of a triangle geometry.
#[verifier::opaque]
pub open spec fn triangle_item(s: Script, p: int, items: TriangleItemsView) -> Outcome<TriangleItemsView> {
    match identifier(s, p) { Err(f) => Err(f), Ok((id, p)) =>
    if id.content == "VERTEX"@ {
        match in_statement(vertex_line(s, p), StatementFormat::Vertex, id.span) {
            Ok((found, end)) => Ok((TriangleItemsView { vertices: items.vertices.push(found), ..items }, end)),
            Err(f) => Err(f),
        }
    } else if id.content == "TRANSFORM"@ {
        let o = no_dup(items.transform, id, transform(s, p));
        match in_statement(o, StatementFormat::Transform, id.span) {
            Ok((transform, end)) => Ok((TriangleItemsView { transform, ..items }, end)),
            Err(f) => Err(f),
        }
    } else if id.content == "CONFIG"@ {
        match cut(no_dup(items.config, id, flags(s, p, FlagKind::Geometry))) {
            Ok((config, end)) => Ok((TriangleItemsView { config, ..items }, end)),
            Err(f) => Err(f),
        }
    } else {
        unknown(s, p)
    }}
}

/// The lines of a triangle geometry, as many as there are.
pub open spec fn triangle_items(s: Script, p: int, items: TriangleItemsView) -> Outcome<TriangleItemsView>
    decreases s.text.len() - p,
{
    match triangle_item(s, p, items) {
        Ok((items, end)) => if p < end && end <= s.text.len() {
            triangle_items(s, end, items)
        } else {
            Ok((items, p))
        },
        Err(f) => if f.cut {
            Err(f)
        } else {
            Ok((items, p))
        },
    }
}

/// A triangle geometry.
#[verifier::opaque]
pub open spec fn blas_geometry_triangle(s: Script, p: int) -> Outcome<TriangleGeometryView> {
    match line_end(s, p) { Err(f) => Err(f), Ok((_, p)) => {
    let nothing = TriangleItemsView { vertices: Seq::empty(), transform: None, config: None };
    match triangle_items(s, p, nothing) { Err(f) => Err(f), Ok((items, p)) =>
    match end_line(s, p) { Err(f) => Err(f), Ok((_, p)) =>
    Ok((TriangleGeometryView {
        vertices: items.vertices,
        transform: set_value(items.transform),
        config: set_bits(items.config),
    }, p))
    }}}}
}

/// What the lines of a bottom-level acceleration structure have given so far.
pub struct BlasItemsView {
    pub procedurals: Seq<ProceduralGeometryView>,
    pub triangles: Seq<TriangleGeometryView>,
    pub config: OnceView<u32>,
}

/// A geometry of a bottom-level acceleration structure.
#[verifier::opaque]
pub open spec fn blas_geometry(s: Script, p: int, items: BlasItemsView) -> Outcome<BlasItemsView> {
    match space(s, p) { Err(f) => Err(f), Ok((_, p)) =>
    match word(s, p) { Err(f) => Err(f), Ok((kind, p)) =>
    if kind == "PROCEDURAL"@ {
        match blas_geometry_procedural(s, p) {
            Ok((found, end)) => Ok(
                (BlasItemsView { procedurals: items.procedurals.push(found), ..items }, end),
            ),
            Err(f) => Err(f),
        }
    } else if kind == "TRIANGLE"@ {
        match blas_geometry_triangle(s, p) {
            Ok((found, end)) => Ok(
                (BlasItemsView { triangles: items.triangles.push(found), ..items }, end),
            ),
            Err(f) => Err(f),
        }
    } else {
        unknown(s, p)
    }}}
}

/// A line or geometry of a bottom-level acceleration structure.
#[verifier::opaque]
pub open spec fn blas_item(s: Script, p: int, items: BlasItemsView) -> Outcome<BlasItemsView> {
    match identifier(s, p) { Err(f) => Err(f), Ok((id, p)) =>
    if id.content == "GEOMETRY"@ {
        cut(blas_geometry(s, p, items))
    } else if id.content == "CONFIG"@ {
        match cut(no_dup(items.config, id, flags(s, p, FlagKind::AccelStruct))) {
            Ok((config, end)) => Ok((BlasItemsView { config, ..items }, end)),
            Err(f) => Err(f),
        }
    } else {
        unknown(s, p)
    }}
}

/// The lines and geometries of a bottom-level acceleration structure, as many as there are.
pub open spec fn blas_items(s: Script, p: int, items: BlasItemsView) -> Outcome<BlasItemsView>
    decreases s.text.len() - p,
{
    match blas_item(s, p, items) {
        Ok((items, end)) => if p < end && end <= s.text.len() {
            blas_items(s, end, items)
        } else {
            Ok((items, p))
        },
        Err(f) => if f.cut {
            Err(f)
        } else {
            Ok((items, p))
        },
    }
}

/// `BLAS`.
#[verifier::opaque]
pub open spec fn blas(s: Script, p: int) -> Outcome<DirectiveView> {
    match space_identifier(s, p) { Err(f) => Err(f), Ok((name, p)) =>
    match line_end(s, p) { Err(f) => Err(f), Ok((_, p)) => {
    let nothing = BlasItemsView {
        procedurals: Seq::empty(),
        triangles: Seq::empty(),
        config: None,
    };
    match blas_items(s, p, nothing) { Err(f) => Err(f), Ok((items, p)) =>
    match end_line(s, p) { Err(f) => Err(f), Ok((_, p)) =>
    Ok((DirectiveView::Blas {
        name,
        procedurals: items.procedurals,
        triangles: items.triangles,
        config: set_bits(items.config),
    }, p))
    }}}}}
}

/// A number behind space, with the end of its line.
#[verifier::opaque]
pub open spec fn number_line(s: Script, p: int, typ: IntType) -> Outcome<u64> {
    match space(s, p) { Err(f) => Err(f), Ok((_, p)) =>
    match uint(s, p, typ) { Err(f) => Err(f), Ok((n, p)) =>
    match line_end(s, p) { Err(f) => Err(f), Ok((_, p)) =>
    Ok((n, p))
    }}}
}

/// What the lines of an instance have given so far.
pub struct InstanceItemsView {
    pub id: OnceView<u64>,
    pub mask: OnceView<u64>,
    pub index_contrib: OnceView<u64>,
    pub transform: OnceView<Transform<Seq<char>>>,
    pub config: OnceView<u32>,
}

/// A line of an instance.
#[verifier::opaque]
pub open spec fn instance_item(s: Script, p: int, items: InstanceItemsView) -> Outcome<InstanceItemsView> {
    match identifier(s, p) { Err(f) => Err(f), Ok((id, p)) =>
    if id.content == "ID"@ {
        let o = no_dup(items.id, id, number_line(s, p, IntType::U32));
        match in_statement(o, StatementFormat::InstanceId, id.span) {
            Ok((id, end)) => Ok((InstanceItemsView { id, ..items }, end)),
            Err(f) => Err(f),
        }
    } else if id.content == "MASK"@ {
        let o = no_dup(items.mask, id, number_line(s, p, IntType::U8));
        match in_statement(o, StatementFormat::InstanceMask, id.span) {
            Ok((mask, end)) => Ok((InstanceItemsView { mask, ..items }, end)),
            Err(f) => Err(f),
        }
    } else if id.content == "HIT_GROUP_INDEX_CONTRIBUTION"@ {
        let o = no_dup(items.index_contrib, id, number_line(s, p, IntType::U32));
        match in_statement(o, StatementFormat::InstanceContribution, id.span) {
            Ok((index_contrib, end)) => Ok((InstanceItemsView { index_contrib, ..items }, end)),
            Err(f) => Err(f),
        }
    } else if id.content == "TRANSFORM"@ {
        let o = no_dup(items.transform, id, transform(s, p));
        match in_statement(o, StatementFormat::Transform, id.span) {
            Ok((transform, end)) => Ok((InstanceItemsView { transform, ..items }, end)),
            Err(f) => Err(f),
        }
    } else if id.content == "CONFIG"@ {
        match cut(no_dup(items.config, id, flags(s, p, FlagKind::TlasBlas))) {
            Ok((config, end)) => Ok((InstanceItemsView { config, ..items }, end)),
            Err(f) => Err(f),
        }
    } else {
        unknown(s, p)
    }}
}

/// The lines of an instance, as many as there are.
pub open spec fn instance_items(s: Script, p: int, items: InstanceItemsView) -> Outcome<InstanceItemsView>
    decreases s.text.len() - p,
{
    match instance_item(s, p, items) {
        Ok((items, end)) => if p < end && end <= s.text.len() {
            instance_items(s, end, items)
        } else {
            Ok((items, p))
        },
        Err(f) => if f.cut {
            Err(f)
        } else {
            Ok((items, p))
        },
    }
}

/// A minus sign for an instance without lines.
#[verifier::opaque]
pub open spec fn no_lines(s: Script, p: int) -> Outcome<()> {
    match space(s, p) { Err(f) => Err(f), Ok((_, p)) =>
    match none::<()>(s, p) { Err(f) => Err(f), Ok((_, p)) =>
    line_end(s, p)
    }}
}

/// The lines of an instance up to its end.
#[verifier::opaque]
pub open spec fn instance_lines(s: Script, p: int) -> Outcome<InstanceItemsView> {
    match line_end(s, p) { Err(f) => Err(f), Ok((_, p)) =>
    match instance_items(s, p, no_instance_items()) { Err(f) => Err(f), Ok((items, p)) =>
    match end_line(s, p) { Err(f) => Err(f), Ok((_, p)) =>
    Ok((items, p))
    }}}
}

/// No lines of an instance.
pub open spec fn no_instance_items() -> InstanceItemsView {
    InstanceItemsView { id: None, mask: None, index_contrib: None, transform: None, config: None }
}

/// A number that has been set, as one of 32 bits.
pub open spec fn set_u32(set: OnceView<u64>) -> Option<u32> {
    match set {
        Some((n, _)) => Some(n as u32),
        None => None,
    }
}

/// A number that has been set, as one of 8 bits.
pub open spec fn set_u8(set: OnceView<u64>) -> Option<u8> {
    match set {
        Some((n, _)) => Some(n as u8),
        None => None,
    }
}

/// An instance in a top-level acceleration structure.
#[verifier::opaque]
pub open spec fn tlas_blas(s: Script, p: int) -> Outcome<TlasBlas<Seq<char>>> {
    match space_identifier(s, p) { Err(f) => Err(f), Ok((name, p)) => {
    let without: Outcome<InstanceItemsView> = match no_lines(s, p) {
        Ok((_, end)) => Ok((no_instance_items(), end)),
        Err(f) => Err(f),
    };
    match either(without, instance_lines(s, p)) { Err(f) => Err(f), Ok((items, p)) =>
    Ok((TlasBlas {
        name,
        id: set_u32(items.id),
        mask: set_u8(items.mask),
        index_contrib: set_u32(items.index_contrib),
        transform: set_value(items.transform),
        config: set_bits(items.config),
    }, p))
    }}}
}

/// What the lines of a top-level acceleration structure have given so far.
pub struct TlasItemsView {
    pub blas: Seq<TlasBlas<Seq<char>>>,
    pub config: OnceView<u32>,
}

/// A line or instance of a top-level acceleration structure.
#[verifier::opaque]
pub open spec fn tlas_item(s: Script, p: int, items: TlasItemsView) -> Outcome<TlasItemsView> {
    match identifier(s, p) { Err(f) => Err(f), Ok((id, p)) =>
    if id.content == "BLAS"@ {
        match in_statement(tlas_blas(s, p), StatementFormat::Instance, id.span) {
            Ok((found, end)) => Ok((TlasItemsView { blas: items.blas.push(found), ..items }, end)),
            Err(f) => Err(f),
        }
    } else if id.content == "CONFIG"@ {
        match cut(no_dup(items.config, id, flags(s, p, FlagKind::AccelStruct))) {
            Ok((config, end)) => Ok((TlasItemsView { config, ..items }, end)),
            Err(f) => Err(f),
        }
    } else {
        unknown(s, p)
    }}
}

/// The lines and instances of a top-level acceleration structure, as many as there are.
pub open spec fn tlas_items(s: Script, p: int, items: TlasItemsView) -> Outcome<TlasItemsView>
    decreases s.text.len() - p,
{
    match tlas_item(s, p, items) {
        Ok((items, end)) => if p < end && end <= s.text.len() {
            tlas_items(s, end, items)
        } else {
            Ok((items, p))
        },
        Err(f) => if f.cut {
            Err(f)
        } else {
            Ok((items, p))
        },
    }
}

/// `TLAS`.
#[verifier::opaque]
pub open spec fn tlas(s: Script, p: int) -> Outcome<DirectiveView> {
    match space_identifier(s, p) { Err(f) => Err(f), Ok((name, p)) =>
    match line_end(s, p) { Err(f) => Err(f), Ok((_, p)) => {
    let nothing = TlasItemsView { blas: Seq::empty(), config: None };
    match tlas_items(s, p, nothing) { Err(f) => Err(f), Ok((items, p)) =>
    match end_line(s, p) { Err(f) => Err(f), Ok((_, p)) =>
    Ok((DirectiveView::Tlas { name, blas: items.blas, config: set_bits(items.config) }, p))
    }}}}}
}

} // verus!
