//! The forms of acceleration structures.
use vstd::prelude::*;

use crate::flags::FlagKind;
use crate::grammar::geometry::{
    aabb, blas, blas_geometry, blas_geometry_procedural, blas_geometry_triangle, blas_item,
    blas_items, instance_item, instance_items, instance_lines, no_instance_items, no_lines,
    number_line, procedural_item, procedural_items, space_number, tlas, tlas_blas, tlas_item,
    tlas_items, transform, transform_row, triangle_item, triangle_items, vertex, vertex_line,
    set_u32, set_u8, BlasItemsView, InstanceItemsView, ProceduralItemsView, TlasItemsView, TriangleItemsView,
};
use crate::grammar::laws::is_word;
use crate::grammar::tokens::{none, set_bits, set_value};
use crate::grammar::written::{
    are_flags, bits_of, end, eol, is_number, is_written, lemma_end, lemma_flags, lemma_line_end, lemma_name, lemma_number,
    lemma_space, lemma_token, lemma_uint, lemma_word, name_at, place, tok, Token,
};
use crate::parse_error::{Fail, IntType};
use crate::script::{
    Aabb, DirectiveView, NumberLiteral, ProceduralGeometryView, TlasBlas, Transform, TransformRow,
    TriangleGeometryView, Vertex,
};
use crate::source::Script;
use crate::text::decimal_digits;

verus! {

/// A number behind a space is read.
pub proof fn lemma_space_number(s: Script, ts: Seq<Token>, i: int, n: NumberLiteral<Seq<char>>)
    requires
        is_written(s, ts),
        0 < i < ts.len(),
        !ts[i - 1].last,
        is_number(s, ts[i].word, n),
    ensures
        space_number(s, end(ts, i - 1)) == Ok::<(NumberLiteral<Seq<char>>, int), Fail<Seq<char>>>(
            (n, end(ts, i)),
        ),
{
    reveal(space_number);
    lemma_space(s, ts, i - 1);
    lemma_number(s, ts, i, n);
}

/// Whether the words from `i` on are the numbers `ns`, all on one line. The line ends behind them
/// if `last`.
pub open spec fn are_numbers(
    s: Script,
    ts: Seq<Token>,
    i: int,
    ns: Seq<NumberLiteral<Seq<char>>>,
    last: bool,
) -> bool {
    &&& 0 <= i
    &&& i + ns.len() <= ts.len()
    &&& forall|k: int|
        0 <= k < ns.len() ==> is_number(s, ts[i + k].word, #[trigger] ns[k]) && ts[i + k].last
            == (last && k == ns.len() - 1)
}

/// Three numbers are the coordinates `x`, `y` and `z`.
pub proof fn lemma_vertex(
    s: Script,
    ts: Seq<Token>,
    i: int,
    ns: Seq<NumberLiteral<Seq<char>>>,
    last: bool,
)
    requires
        is_written(s, ts),
        0 < i,
        !ts[i - 1].last,
        ns.len() == 3,
        are_numbers(s, ts, i, ns, last),
    ensures
        vertex(s, end(ts, i - 1)) == Ok::<(Vertex<Seq<char>>, int), Fail<Seq<char>>>(
            (Vertex { x: ns[0], y: ns[1], z: ns[2] }, end(ts, i + 2)),
        ),
{
    reveal(vertex);
    lemma_space_number(s, ts, i, ns[0]);
    lemma_space_number(s, ts, i + 1, ns[1]);
    lemma_space_number(s, ts, i + 2, ns[2]);
}

/// Six numbers are the corners of a box, the lower one first.
pub proof fn lemma_aabb(s: Script, ts: Seq<Token>, i: int, ns: Seq<NumberLiteral<Seq<char>>>)
    requires
        is_written(s, ts),
        0 < i,
        !ts[i - 1].last,
        ns.len() == 6,
        are_numbers(s, ts, i, ns, true),
    ensures
        aabb(s, end(ts, i - 1)) == Ok::<(Aabb<Seq<char>>, int), Fail<Seq<char>>>(
            (
                Aabb {
                    min: Vertex { x: ns[0], y: ns[1], z: ns[2] },
                    max: Vertex { x: ns[3], y: ns[4], z: ns[5] },
                },
                place(ts, i + 6),
            ),
        ),
{
    reveal(aabb);
    let (a, b) = (ns.subrange(0, 3), ns.subrange(3, 6));
    assert forall|k: int| 0 <= k < 3 implies is_number(s, ts[i + k].word, #[trigger] a[k]) && ts[i
        + k].last == (false && k == a.len() - 1) by {
        assert(a[k] == ns[k]);
    }
    assert forall|k: int| 0 <= k < 3 implies is_number(s, ts[i + 3 + k].word, #[trigger] b[k])
        && ts[i + 3 + k].last == (true && k == b.len() - 1) by {
        assert(b[k] == ns[3 + k]);
    }
    lemma_vertex(s, ts, i, a, false);
    assert(!ts[i + 2].last) by {
        assert(ns[2] == a[2]);
    }
    lemma_vertex(s, ts, i + 3, b, true);
    assert(ts[i + 5].last) by {
        assert(ns[5] == b[2]);
    }
    lemma_line_end(s, ts, i + 5);
}

/// A line of four numbers is a row of a matrix.
pub proof fn lemma_transform_row(
    s: Script,
    ts: Seq<Token>,
    i: int,
    ns: Seq<NumberLiteral<Seq<char>>>,
)
    requires
        is_written(s, ts),
        ns.len() == 4,
        are_numbers(s, ts, i, ns, true),
    ensures
        transform_row(s, place(ts, i)) == Ok::<(TransformRow<Seq<char>>, int), Fail<Seq<char>>>(
            (TransformRow { x: ns[0], y: ns[1], z: ns[2], w: ns[3] }, place(ts, i + 4)),
        ),
{
    reveal(transform_row);
    lemma_number(s, ts, i, ns[0]);
    lemma_space_number(s, ts, i + 1, ns[1]);
    lemma_space_number(s, ts, i + 2, ns[2]);
    lemma_space_number(s, ts, i + 3, ns[3]);
    lemma_line_end(s, ts, i + 3);
}

/// The matrix with the rows `rows`.
pub open spec fn matrix(rows: Seq<Seq<NumberLiteral<Seq<char>>>>) -> Transform<Seq<char>> {
    Transform {
        row0: TransformRow { x: rows[0][0], y: rows[0][1], z: rows[0][2], w: rows[0][3] },
        row1: TransformRow { x: rows[1][0], y: rows[1][1], z: rows[1][2], w: rows[1][3] },
        row2: TransformRow { x: rows[2][0], y: rows[2][1], z: rows[2][2], w: rows[2][3] },
    }
}

/// Whether three lines of four numbers each and `END` stand from the word `i` on.
pub open spec fn are_rows(
    s: Script,
    ts: Seq<Token>,
    i: int,
    rows: Seq<Seq<NumberLiteral<Seq<char>>>>,
) -> bool {
    &&& rows.len() == 3
    &&& rows[0].len() == 4 && are_numbers(s, ts, i, rows[0], true)
    &&& rows[1].len() == 4 && are_numbers(s, ts, i + 4, rows[1], true)
    &&& rows[2].len() == 4 && are_numbers(s, ts, i + 8, rows[2], true)
    &&& i + 12 < ts.len()
    &&& ts[i + 12] == eol("END"@)
}

/// Three lines of four numbers each are a matrix: the number `j` on the line `k` stands in the
/// row `k` and the column `j`.
pub proof fn lemma_transform(
    s: Script,
    ts: Seq<Token>,
    i: int,
    rows: Seq<Seq<NumberLiteral<Seq<char>>>>,
)
    requires
        is_written(s, ts),
        0 < i,
        ts[i - 1].last,
        are_rows(s, ts, i, rows),
    ensures
        transform(s, end(ts, i - 1)) == Ok::<(Transform<Seq<char>>, int), Fail<Seq<char>>>(
            (matrix(rows), place(ts, i + 13)),
        ),
{
    reveal(transform);
    lemma_line_end(s, ts, i - 1);
    lemma_transform_row(s, ts, i, rows[0]);
    lemma_transform_row(s, ts, i + 4, rows[1]);
    lemma_transform_row(s, ts, i + 8, rows[2]);
    lemma_end(s, ts, i + 12);
}

/// Whether a `CONFIG` line with the flags `words` stands at the word `i`, if there are any.
pub open spec fn is_config(ts: Seq<Token>, i: int, kind: FlagKind, words: Seq<Seq<char>>) -> bool {
    words.len() > 0 ==> 0 <= i < ts.len() && ts[i] == tok("CONFIG"@) && are_flags(
        ts,
        i + 1,
        kind,
        words,
    )
}

/// The first word behind a `CONFIG` line with the flags `words`, if there are any.
pub open spec fn config_end(i: int, words: Seq<Seq<char>>) -> int {
    if words.len() > 0 {
        i + 1 + words.len()
    } else {
        i
    }
}

/// The numbers of a box: `AABB` and six numbers.
pub open spec fn is_aabb_line(
    s: Script,
    ts: Seq<Token>,
    i: int,
    ns: Seq<NumberLiteral<Seq<char>>>,
) -> bool {
    &&& 0 <= i
    &&& i + 7 <= ts.len()
    &&& ts[i] == tok("AABB"@)
    &&& ns.len() == 6
    &&& are_numbers(s, ts, i + 1, ns, true)
}

/// The box with the coordinates `ns`.
pub open spec fn box_of(ns: Seq<NumberLiteral<Seq<char>>>) -> Aabb<Seq<char>> {
    Aabb {
        min: Vertex { x: ns[0], y: ns[1], z: ns[2] },
        max: Vertex { x: ns[3], y: ns[4], z: ns[5] },
    }
}

/// Whether a procedural geometry stands behind the word `i - 1`: its boxes, its flags and `END`.
pub open spec fn is_procedural(
    s: Script,
    ts: Seq<Token>,
    i: int,
    boxes: Seq<Seq<NumberLiteral<Seq<char>>>>,
    words: Seq<Seq<char>>,
) -> bool {
    let c = i + 7 * boxes.len();
    &&& 0 < i
    &&& ts[i - 1].last
    &&& forall|k: int| 0 <= k < boxes.len() ==> is_aabb_line(s, ts, i + 7 * k, #[trigger] boxes[k])
    &&& is_config(ts, c, FlagKind::Geometry, words)
    &&& config_end(c, words) < ts.len()
    &&& ts[config_end(c, words)] == eol("END"@)
}

proof fn lemma_procedural_end(
    s: Script,
    ts: Seq<Token>,
    c: int,
    words: Seq<Seq<char>>,
    aabbs: Seq<Aabb<Seq<char>>>,
)
    requires
        is_written(s, ts),
        0 <= c,
        is_config(ts, c, FlagKind::Geometry, words),
        config_end(c, words) < ts.len(),
        ts[config_end(c, words)] == eol("END"@),
    ensures
        procedural_items(
            s,
            place(ts, c),
            ProceduralItemsView { aabbs, config: None },
        ) matches Ok((items, q)) && q == place(ts, config_end(c, words)) && items.aabbs == aabbs
            && set_bits(items.config) == bits_of(
            FlagKind::Geometry,
            words,
        ),
{
    reveal(procedural_item);
    reveal_strlit("AABB");
    reveal_strlit("CONFIG");
    reveal_strlit("END");
    let e = config_end(c, words);
    lemma_end(s, ts, e);
    lemma_token(s, ts, e);
    if words.len() > 0 {
        lemma_word(s, ts, c);
        lemma_token(s, ts, c);
        lemma_flags(s, ts, c + 1, FlagKind::Geometry, words);
        reveal_with_fuel(procedural_items, 2);
        lemma_later(s, ts, c, e);
    }
}

/// Later words stand at later places.
pub proof fn lemma_later(s: Script, ts: Seq<Token>, i: int, j: int)
    requires
        is_written(s, ts),
        0 <= i < j <= ts.len(),
    ensures
        place(ts, i) < place(ts, j) <= s.text.len(),
    decreases j - i,
{
    lemma_token(s, ts, i);
    if i + 1 < j {
        lemma_later(s, ts, i + 1, j);
    }
}

proof fn lemma_boxes(
    s: Script,
    ts: Seq<Token>,
    i: int,
    boxes: Seq<Seq<NumberLiteral<Seq<char>>>>,
    words: Seq<Seq<char>>,
    k: int,
    aabbs: Seq<Aabb<Seq<char>>>,
)
    requires
        is_written(s, ts),
        is_procedural(s, ts, i, boxes, words),
        0 <= k <= boxes.len(),
        aabbs == Seq::new(k as nat, |j: int| box_of(boxes[j])),
    ensures
        procedural_items(
            s,
            place(ts, i + 7 * k),
            ProceduralItemsView { aabbs, config: None },
        ) matches Ok((items, q)) && q == place(ts, config_end(i + 7 * boxes.len(), words))
            && items.aabbs == Seq::new(boxes.len(), |j: int| box_of(boxes[j]))
            && set_bits(items.config) == bits_of(
            FlagKind::Geometry,
            words,
        ),
    decreases boxes.len() - k,
{
    if k < boxes.len() {
        let at = i + 7 * k;
        assert(is_aabb_line(s, ts, at, boxes[k]));
        reveal(procedural_item);
        reveal_strlit("AABB");
        reveal_strlit("CONFIG");
        lemma_word(s, ts, at);
        lemma_aabb(s, ts, at + 1, boxes[k]);
        lemma_later(s, ts, at, at + 7);
        let next = aabbs.push(box_of(boxes[k]));
        assert(next =~= Seq::new((k + 1) as nat, |j: int| box_of(boxes[j])));
        lemma_boxes(s, ts, i, boxes, words, k + 1, next);
    } else {
        lemma_procedural_end(s, ts, i + 7 * boxes.len(), words, aabbs);
    }
}

/// A procedural geometry has the boxes that are written in it, in their order, and its flags.
pub proof fn lemma_procedural(
    s: Script,
    ts: Seq<Token>,
    i: int,
    boxes: Seq<Seq<NumberLiteral<Seq<char>>>>,
    words: Seq<Seq<char>>,
)
    requires
        is_written(s, ts),
        is_procedural(s, ts, i, boxes, words),
    ensures
        blas_geometry_procedural(s, end(ts, i - 1)) == Ok::<
            (ProceduralGeometryView, int),
            Fail<Seq<char>>,
        >(
            (
                ProceduralGeometryView {
                    aabbs: Seq::new(boxes.len(), |j: int| box_of(boxes[j])),
                    config: bits_of(FlagKind::Geometry, words),
                },
                place(ts, config_end(i + 7 * boxes.len(), words) + 1),
            ),
        ),
{
    reveal(blas_geometry_procedural);
    lemma_line_end(s, ts, i - 1);
    let none = Seq::<Aabb<Seq<char>>>::empty();
    assert(none =~= Seq::new(0, |j: int| box_of(boxes[j])));
    lemma_boxes(s, ts, i, boxes, words, 0, none);
    lemma_end(s, ts, config_end(i + 7 * boxes.len(), words));
}

/// Whether a `VERTEX` line with three numbers stands at the word `i`.
pub open spec fn is_vertex_line(
    s: Script,
    ts: Seq<Token>,
    i: int,
    ns: Seq<NumberLiteral<Seq<char>>>,
) -> bool {
    &&& 0 <= i
    &&& i + 4 <= ts.len()
    &&& ts[i] == tok("VERTEX"@)
    &&& ns.len() == 3
    &&& are_numbers(s, ts, i + 1, ns, true)
}

/// The point with the coordinates `ns`.
pub open spec fn point(ns: Seq<NumberLiteral<Seq<char>>>) -> Vertex<Seq<char>> {
    Vertex { x: ns[0], y: ns[1], z: ns[2] }
}

/// Whether a `TRANSFORM` block stands at the word `i`, if there is one.
pub open spec fn is_transform(
    s: Script,
    ts: Seq<Token>,
    i: int,
    rows: Option<Seq<Seq<NumberLiteral<Seq<char>>>>>,
) -> bool {
    rows matches Some(rows) ==> 0 <= i < ts.len() && ts[i] == eol("TRANSFORM"@) && are_rows(
        s,
        ts,
        i + 1,
        rows,
    )
}

/// The first word behind a `TRANSFORM` block, if there is one.
pub open spec fn transform_end(
    i: int,
    rows: Option<Seq<Seq<NumberLiteral<Seq<char>>>>>,
) -> int {
    if rows is Some {
        i + 14
    } else {
        i
    }
}

/// The matrix of a `TRANSFORM` block, if there is one.
pub open spec fn set_matrix(
    rows: Option<Seq<Seq<NumberLiteral<Seq<char>>>>>,
) -> Option<Transform<Seq<char>>> {
    match rows {
        Some(rows) => Some(matrix(rows)),
        None => None,
    }
}

/// What is written in a geometry.
pub enum GeometryForm {
    Procedural { boxes: Seq<Seq<NumberLiteral<Seq<char>>>>, words: Seq<Seq<char>> },
    Triangle {
        vertices: Seq<Seq<NumberLiteral<Seq<char>>>>,
        rows: Option<Seq<Seq<NumberLiteral<Seq<char>>>>>,
        words: Seq<Seq<char>>,
    },
}

/// Whether a triangle geometry stands behind the word `i - 1`: its vertices, its matrix, its flags
/// and `END`.
pub open spec fn is_triangle(
    s: Script,
    ts: Seq<Token>,
    i: int,
    vertices: Seq<Seq<NumberLiteral<Seq<char>>>>,
    rows: Option<Seq<Seq<NumberLiteral<Seq<char>>>>>,
    words: Seq<Seq<char>>,
) -> bool {
    let t = i + 4 * vertices.len();
    let c = transform_end(t, rows);
    &&& 0 < i
    &&& ts[i - 1].last
    &&& forall|k: int|
        0 <= k < vertices.len() ==> is_vertex_line(s, ts, i + 4 * k, #[trigger] vertices[k])
    &&& is_transform(s, ts, t, rows)
    &&& is_config(ts, c, FlagKind::Geometry, words)
    &&& config_end(c, words) < ts.len()
    &&& ts[config_end(c, words)] == eol("END"@)
}

proof fn lemma_triangle_end(
    s: Script,
    ts: Seq<Token>,
    i: int,
    vertices: Seq<Seq<NumberLiteral<Seq<char>>>>,
    rows: Option<Seq<Seq<NumberLiteral<Seq<char>>>>>,
    words: Seq<Seq<char>>,
    points: Seq<Vertex<Seq<char>>>,
)
    requires
        is_written(s, ts),
        is_triangle(s, ts, i, vertices, rows, words),
    ensures
        triangle_items(
            s,
            place(ts, i + 4 * vertices.len()),
            TriangleItemsView { vertices: points, transform: None, config: None },
        ) matches Ok((items, q)) && q == place(
            ts,
            config_end(transform_end(i + 4 * vertices.len(), rows), words),
        ) && items.vertices == points && set_value(items.transform) == set_matrix(rows)
            && set_bits(items.config) == bits_of(FlagKind::Geometry, words),
{
    reveal(triangle_item);
    reveal_strlit("VERTEX");
    reveal_strlit("TRANSFORM");
    reveal_strlit("CONFIG");
    reveal_strlit("END");
    assert("VERTEX"@[0] == 'V' && "CONFIG"@[0] == 'C');
    let t = i + 4 * vertices.len();
    let c = transform_end(t, rows);
    let e = config_end(c, words);
    lemma_end(s, ts, e);
    let start = TriangleItemsView { vertices: points, transform: None, config: None };
    let middle = match rows {
        Some(rows) => TriangleItemsView {
            transform: Some((matrix(rows), name_at(s, ts, t))),
            ..start
        },
        None => start,
    };
    if let Some(rows) = rows {
        lemma_word(s, ts, t);
        lemma_transform(s, ts, t + 1, rows);
        lemma_later(s, ts, t, c);
    }
    assert(triangle_items(s, place(ts, t), start) == triangle_items(s, place(ts, c), middle));
    if words.len() > 0 {
        lemma_word(s, ts, c);
        lemma_flags(s, ts, c + 1, FlagKind::Geometry, words);
        lemma_later(s, ts, c, e);
        reveal_with_fuel(triangle_items, 2);
    }
}

proof fn lemma_vertices(
    s: Script,
    ts: Seq<Token>,
    i: int,
    vertices: Seq<Seq<NumberLiteral<Seq<char>>>>,
    rows: Option<Seq<Seq<NumberLiteral<Seq<char>>>>>,
    words: Seq<Seq<char>>,
    k: int,
    points: Seq<Vertex<Seq<char>>>,
)
    requires
        is_written(s, ts),
        is_triangle(s, ts, i, vertices, rows, words),
        0 <= k <= vertices.len(),
        points == Seq::new(k as nat, |j: int| point(vertices[j])),
    ensures
        triangle_items(
            s,
            place(ts, i + 4 * k),
            TriangleItemsView { vertices: points, transform: None, config: None },
        ) matches Ok((items, q)) && q == place(
            ts,
            config_end(transform_end(i + 4 * vertices.len(), rows), words),
        ) && items.vertices == Seq::new(vertices.len(), |j: int| point(vertices[j])) && set_value(
            items.transform,
        ) == set_matrix(rows) && set_bits(items.config) == bits_of(FlagKind::Geometry, words),
    decreases vertices.len() - k,
{
    if k < vertices.len() {
        let at = i + 4 * k;
        assert(is_vertex_line(s, ts, at, vertices[k]));
        reveal(triangle_item);
        reveal(vertex_line);
        reveal_strlit("VERTEX");
        lemma_word(s, ts, at);
        lemma_vertex(s, ts, at + 1, vertices[k], true);
        assert(ts[at + 3].last) by {
            assert(vertices[k][2] == vertices[k][2]);
        }
        lemma_line_end(s, ts, at + 3);
        lemma_later(s, ts, at, at + 4);
        let next = points.push(point(vertices[k]));
        assert(next =~= Seq::new((k + 1) as nat, |j: int| point(vertices[j])));
        lemma_vertices(s, ts, i, vertices, rows, words, k + 1, next);
    } else {
        lemma_triangle_end(s, ts, i, vertices, rows, words, points);
    }
}

/// A triangle geometry has the vertices that are written in it, in their order, its matrix and its
/// flags.
pub proof fn lemma_triangle(
    s: Script,
    ts: Seq<Token>,
    i: int,
    vertices: Seq<Seq<NumberLiteral<Seq<char>>>>,
    rows: Option<Seq<Seq<NumberLiteral<Seq<char>>>>>,
    words: Seq<Seq<char>>,
)
    requires
        is_written(s, ts),
        is_triangle(s, ts, i, vertices, rows, words),
    ensures
        blas_geometry_triangle(s, end(ts, i - 1)) == Ok::<
            (TriangleGeometryView, int),
            Fail<Seq<char>>,
        >(
            (
                TriangleGeometryView {
                    vertices: Seq::new(vertices.len(), |j: int| point(vertices[j])),
                    transform: set_matrix(rows),
                    config: bits_of(FlagKind::Geometry, words),
                },
                place(
                    ts,
                    config_end(transform_end(i + 4 * vertices.len(), rows), words) + 1,
                ),
            ),
        ),
{
    reveal(blas_geometry_triangle);
    lemma_line_end(s, ts, i - 1);
    let none = Seq::<Vertex<Seq<char>>>::empty();
    assert(none =~= Seq::new(0, |j: int| point(vertices[j])));
    lemma_vertices(s, ts, i, vertices, rows, words, 0, none);
    lemma_end(s, ts, config_end(transform_end(i + 4 * vertices.len(), rows), words));
}

/// The words of a geometry, with `GEOMETRY`, its kind and `END`.
pub open spec fn geometry_len(g: GeometryForm) -> int {
    match g {
        GeometryForm::Procedural { boxes, words } => config_end(2int + 7 * boxes.len(), words) + 1,
        GeometryForm::Triangle { vertices, rows, words } => config_end(
            transform_end(2int + 4 * vertices.len(), rows),
            words,
        ) + 1,
    }
}

/// Whether a geometry stands at the word `i`.
pub open spec fn is_geometry(s: Script, ts: Seq<Token>, i: int, g: GeometryForm) -> bool {
    &&& 0 <= i
    &&& i + 2 <= ts.len()
    &&& ts[i] == tok("GEOMETRY"@)
    &&& match g {
        GeometryForm::Procedural { boxes, words } => ts[i + 1] == eol("PROCEDURAL"@)
            && is_procedural(s, ts, i + 2, boxes, words),
        GeometryForm::Triangle { vertices, rows, words } => ts[i + 1] == eol("TRIANGLE"@)
            && is_triangle(s, ts, i + 2, vertices, rows, words),
    }
}

/// The procedural geometries of a list.
pub open spec fn procedurals_of(gs: Seq<GeometryForm>) -> Seq<ProceduralGeometryView>
    decreases gs.len(),
{
    if gs.len() == 0 {
        Seq::empty()
    } else {
        let before = procedurals_of(gs.drop_last());
        match gs.last() {
            GeometryForm::Procedural { boxes, words } => before.push(
                ProceduralGeometryView {
                    aabbs: Seq::new(boxes.len(), |j: int| box_of(boxes[j])),
                    config: bits_of(FlagKind::Geometry, words),
                },
            ),
            _ => before,
        }
    }
}

/// The triangle geometries of a list.
pub open spec fn triangles_of(gs: Seq<GeometryForm>) -> Seq<TriangleGeometryView>
    decreases gs.len(),
{
    if gs.len() == 0 {
        Seq::empty()
    } else {
        let before = triangles_of(gs.drop_last());
        match gs.last() {
            GeometryForm::Triangle { vertices, rows, words } => before.push(
                TriangleGeometryView {
                    vertices: Seq::new(vertices.len(), |j: int| point(vertices[j])),
                    transform: set_matrix(rows),
                    config: bits_of(FlagKind::Geometry, words),
                },
            ),
            _ => before,
        }
    }
}

/// The words of the first `k` geometries.
pub open spec fn geometries_len(gs: Seq<GeometryForm>, k: int) -> int
    decreases k,
{
    if k <= 0 {
        0
    } else {
        geometries_len(gs, k - 1) + geometry_len(gs[k - 1])
    }
}

/// Whether a BLAS statement stands at the word `i`: its name, its geometries, its flags and `END`.
pub open spec fn is_blas(
    s: Script,
    ts: Seq<Token>,
    i: int,
    gs: Seq<GeometryForm>,
    words: Seq<Seq<char>>,
) -> bool {
    let c = i + 2 + geometries_len(gs, gs.len() as int);
    &&& 0 <= i
    &&& i + 2 <= ts.len()
    &&& ts[i] == tok("BLAS"@)
    &&& is_word(ts[i + 1].word)
    &&& ts[i + 1].last
    &&& forall|k: int|
        0 <= k < gs.len() ==> is_geometry(s, ts, i + 2 + geometries_len(gs, k), #[trigger] gs[k])
    &&& is_config(ts, c, FlagKind::AccelStruct, words)
    &&& i + 2 <= config_end(c, words) < ts.len()
    &&& ts[config_end(c, words)] == eol("END"@)
}

proof fn lemma_geometry(
    s: Script,
    ts: Seq<Token>,
    i: int,
    g: GeometryForm,
    items: BlasItemsView,
)
    requires
        is_written(s, ts),
        is_geometry(s, ts, i, g),
    ensures
        blas_item(s, place(ts, i), items) == Ok::<(BlasItemsView, int), Fail<Seq<char>>>(
            (
                BlasItemsView {
                    procedurals: items.procedurals + procedurals_of(seq![g]),
                    triangles: items.triangles + triangles_of(seq![g]),
                    config: items.config,
                },
                place(ts, i + geometry_len(g)),
            ),
        ),
        i < i + geometry_len(g) <= ts.len(),
{
    reveal(blas_item);
    reveal(blas_geometry);
    reveal_strlit("GEOMETRY");
    reveal_strlit("CONFIG");
    reveal_strlit("PROCEDURAL");
    reveal_strlit("TRIANGLE");
    lemma_word(s, ts, i);
    lemma_space(s, ts, i);
    lemma_word(s, ts, i + 1);
    assert(seq![g].drop_last() =~= Seq::<GeometryForm>::empty());
    assert(seq![g].last() == g);
    reveal_with_fuel(procedurals_of, 2);
    reveal_with_fuel(triangles_of, 2);
    match g {
        GeometryForm::Procedural { boxes, words } => {
            lemma_procedural(s, ts, i + 2, boxes, words);
            assert(items.procedurals + procedurals_of(seq![g]) =~= items.procedurals.push(
                procedurals_of(seq![g])[0],
            ));
            assert(items.triangles + triangles_of(seq![g]) =~= items.triangles);
        },
        GeometryForm::Triangle { vertices, rows, words } => {
            lemma_triangle(s, ts, i + 2, vertices, rows, words);
            assert(items.triangles + triangles_of(seq![g]) =~= items.triangles.push(
                triangles_of(seq![g])[0],
            ));
            assert(items.procedurals + procedurals_of(seq![g]) =~= items.procedurals);
        },
    }
}

proof fn lemma_geometries(
    s: Script,
    ts: Seq<Token>,
    i: int,
    gs: Seq<GeometryForm>,
    words: Seq<Seq<char>>,
    k: int,
)
    requires
        is_written(s, ts),
        is_blas(s, ts, i, gs, words),
        0 <= k <= gs.len(),
    ensures
        blas_items(
            s,
            place(ts, i + 2 + geometries_len(gs, k)),
            BlasItemsView {
                procedurals: procedurals_of(gs.take(k)),
                triangles: triangles_of(gs.take(k)),
                config: None,
            },
        ) matches Ok((items, q)) && q == place(
            ts,
            config_end(i + 2 + geometries_len(gs, gs.len() as int), words),
        ) && items.procedurals == procedurals_of(gs) && items.triangles == triangles_of(gs)
            && set_bits(items.config) == bits_of(FlagKind::AccelStruct, words),
    decreases gs.len() - k,
{
    let now = BlasItemsView {
        procedurals: procedurals_of(gs.take(k)),
        triangles: triangles_of(gs.take(k)),
        config: None,
    };
    let at = i + 2 + geometries_len(gs, k);
    if k < gs.len() {
        let g = gs[k];
        assert(is_geometry(s, ts, at, g));
        lemma_geometry(s, ts, at, g, now);
        lemma_later(s, ts, at, at + geometry_len(g));
        assert(gs.take(k + 1).drop_last() =~= gs.take(k));
        assert(gs.take(k + 1).last() == g);
        assert(seq![g].drop_last() =~= Seq::<GeometryForm>::empty());
        reveal_with_fuel(procedurals_of, 2);
        reveal_with_fuel(triangles_of, 2);
        assert(now.procedurals + procedurals_of(seq![g]) =~= procedurals_of(gs.take(k + 1)));
        assert(now.triangles + triangles_of(seq![g]) =~= triangles_of(gs.take(k + 1)));
        lemma_geometries(s, ts, i, gs, words, k + 1);
    } else {
        assert(gs.take(k) =~= gs);
        reveal(blas_item);
        reveal_strlit("GEOMETRY");
        reveal_strlit("CONFIG");
        reveal_strlit("END");
        let e = config_end(at, words);
        lemma_end(s, ts, e);
        if words.len() > 0 {
            lemma_word(s, ts, at);
            lemma_flags(s, ts, at + 1, FlagKind::AccelStruct, words);
            lemma_later(s, ts, at, e);
            reveal_with_fuel(blas_items, 2);
        }
    }
}

/// A BLAS statement has the name, the geometries and the flags that are written in it. Procedural
/// geometries and triangles are kept apart, each in their order.
pub proof fn lemma_blas(
    s: Script,
    ts: Seq<Token>,
    i: int,
    gs: Seq<GeometryForm>,
    words: Seq<Seq<char>>,
)
    requires
        is_written(s, ts),
        is_blas(s, ts, i, gs, words),
    ensures
        blas(s, end(ts, i)) == Ok::<(DirectiveView, int), Fail<Seq<char>>>(
            (
                DirectiveView::Blas {
                    name: name_at(s, ts, i + 1),
                    procedurals: procedurals_of(gs),
                    triangles: triangles_of(gs),
                    config: bits_of(FlagKind::AccelStruct, words),
                },
                place(
                    ts,
                    config_end(i + 2 + geometries_len(gs, gs.len() as int), words) + 1,
                ),
            ),
        ),
{
    reveal(blas);
    lemma_name(s, ts, i + 1);
    lemma_line_end(s, ts, i + 1);
    assert(gs.take(0) =~= Seq::<GeometryForm>::empty());
    lemma_geometries(s, ts, i, gs, words, 0);
    lemma_end(s, ts, config_end(i + 2 + geometries_len(gs, gs.len() as int), words));
}

/// What is written in an instance: numbers that may be left out, a matrix and flags.
pub struct InstanceForm {
    pub id: Option<u32>,
    pub mask: Option<u8>,
    pub contribution: Option<u32>,
    pub rows: Option<Seq<Seq<NumberLiteral<Seq<char>>>>>,
    pub words: Seq<Seq<char>>,
}

/// Whether a line with a word and a number stands at the word `i`, if there is a number.
pub open spec fn is_number_line(ts: Seq<Token>, i: int, word: Seq<char>, n: Option<nat>) -> bool {
    n matches Some(n) ==> 0 <= i && i + 2 <= ts.len() && ts[i] == tok(word) && ts[i + 1] == eol(
        decimal_digits(n),
    )
}

/// The first word behind a line with a word and a number, if there is one.
pub open spec fn number_line_end(i: int, n: bool) -> int {
    if n {
        i + 2
    } else {
        i
    }
}

/// The number of 32 bits, if there is one.
pub open spec fn as_nat32(n: Option<u32>) -> Option<nat> {
    match n {
        Some(n) => Some(n as nat),
        None => None,
    }
}

/// The number of 8 bits, if there is one.
pub open spec fn as_nat8(n: Option<u8>) -> Option<nat> {
    match n {
        Some(n) => Some(n as nat),
        None => None,
    }
}

/// Where the lines of an instance start.
pub open spec fn instance_places(i: int, f: InstanceForm) -> (int, int, int, int, int) {
    let mask = number_line_end(i, f.id is Some);
    let contribution = number_line_end(mask, f.mask is Some);
    let rows = number_line_end(contribution, f.contribution is Some);
    let words = transform_end(rows, f.rows);
    (mask, contribution, rows, words, config_end(words, f.words))
}

/// Whether the lines of an instance stand behind the word `i - 1`, up to `END`.
pub open spec fn is_instance(s: Script, ts: Seq<Token>, i: int, f: InstanceForm) -> bool {
    let (mask, contribution, rows, words, last) = instance_places(i, f);
    &&& 0 < i
    &&& ts[i - 1].last
    &&& is_number_line(ts, i, "ID"@, as_nat32(f.id))
    &&& is_number_line(ts, mask, "MASK"@, as_nat8(f.mask))
    &&& is_number_line(ts, contribution, "HIT_GROUP_INDEX_CONTRIBUTION"@, as_nat32(f.contribution))
    &&& is_transform(s, ts, rows, f.rows)
    &&& is_config(ts, words, FlagKind::TlasBlas, f.words)
    &&& last < ts.len()
    &&& ts[last] == eol("END"@)
}

proof fn lemma_number_line(s: Script, ts: Seq<Token>, i: int, n: nat, typ: IntType)
    requires
        is_written(s, ts),
        0 < i < ts.len(),
        !ts[i - 1].last,
        ts[i] == eol(decimal_digits(n)),
        n <= crate::parse_error::int_max(typ),
    ensures
        number_line(s, end(ts, i - 1), typ) == Ok::<(u64, int), Fail<Seq<char>>>(
            (n as u64, place(ts, i + 1)),
        ),
{
    reveal(number_line);
    lemma_space(s, ts, i - 1);
    lemma_uint(s, ts, i, n, typ);
    lemma_line_end(s, ts, i);
}

proof fn lemma_instance_words()
    ensures
        is_word("ID"@),
        is_word("MASK"@),
        is_word("HIT_GROUP_INDEX_CONTRIBUTION"@),
        is_word("TRANSFORM"@),
        is_word("CONFIG"@),
        "ID"@.len() == 2,
        "MASK"@.len() == 4,
        "HIT_GROUP_INDEX_CONTRIBUTION"@.len() == 28,
        "TRANSFORM"@.len() == 9,
        "CONFIG"@.len() == 6,
        "END"@.len() == 3,
{
    reveal_strlit("ID");
    reveal_strlit("MASK");
    reveal_strlit("HIT_GROUP_INDEX_CONTRIBUTION");
    reveal_strlit("TRANSFORM");
    reveal_strlit("CONFIG");
    reveal_strlit("END");
}

#[verifier::spinoff_prover]
proof fn lemma_instance_number(
    s: Script,
    ts: Seq<Token>,
    i: int,
    word: Seq<char>,
    n: nat,
    items: InstanceItemsView,
)
    requires
        is_written(s, ts),
        is_number_line(ts, i, word, Some(n)),
        word == "ID"@ || word == "MASK"@ || word == "HIT_GROUP_INDEX_CONTRIBUTION"@,
        n <= if word == "MASK"@ {
            0xffnat
        } else {
            0xffff_ffffnat
        },
        word == "ID"@ ==> items.id is None,
        word == "MASK"@ ==> items.mask is None,
        word == "HIT_GROUP_INDEX_CONTRIBUTION"@ ==> items.index_contrib is None,
    ensures
        instance_items(s, place(ts, i), items) == instance_items(
            s,
            place(ts, i + 2),
            if word == "ID"@ {
                InstanceItemsView { id: Some((n as u64, name_at(s, ts, i))), ..items }
            } else if word == "MASK"@ {
                InstanceItemsView { mask: Some((n as u64, name_at(s, ts, i))), ..items }
            } else {
                InstanceItemsView { index_contrib: Some((n as u64, name_at(s, ts, i))), ..items }
            },
        ),
{
    reveal(instance_item);
    lemma_instance_words();
    lemma_word(s, ts, i);
    if word == "MASK"@ {
        lemma_number_line(s, ts, i + 1, n, IntType::U8);
    } else {
        lemma_number_line(s, ts, i + 1, n, IntType::U32);
    }
    lemma_later(s, ts, i, i + 2);
}

#[verifier::spinoff_prover]
proof fn lemma_instance_matrix(
    s: Script,
    ts: Seq<Token>,
    i: int,
    rows: Seq<Seq<NumberLiteral<Seq<char>>>>,
    items: InstanceItemsView,
)
    requires
        is_written(s, ts),
        is_transform(s, ts, i, Some(rows)),
        items.transform is None,
    ensures
        instance_items(s, place(ts, i), items) == instance_items(
            s,
            place(ts, i + 14),
            InstanceItemsView {
                transform: Some((matrix(rows), name_at(s, ts, i))),
                ..items
            },
        ),
{
    reveal(instance_item);
    lemma_instance_words();
    lemma_word(s, ts, i);
    lemma_transform(s, ts, i + 1, rows);
    lemma_later(s, ts, i, i + 14);
}

#[verifier::spinoff_prover]
proof fn lemma_instance_config(
    s: Script,
    ts: Seq<Token>,
    i: int,
    words: Seq<Seq<char>>,
    items: InstanceItemsView,
)
    requires
        is_written(s, ts),
        0 <= i,
        is_config(ts, i, FlagKind::TlasBlas, words),
        config_end(i, words) < ts.len(),
        ts[config_end(i, words)] == eol("END"@),
        items.config is None,
    ensures
        instance_items(s, place(ts, i), items) matches Ok((found, q)) && q == place(
            ts,
            config_end(i, words),
        ) && found == (InstanceItemsView { config: found.config, ..items }) && set_bits(
            found.config,
        ) == bits_of(FlagKind::TlasBlas, words),
{
    reveal(instance_item);
    lemma_instance_words();
    lemma_end(s, ts, config_end(i, words));
    if words.len() > 0 {
        lemma_word(s, ts, i);
        lemma_flags(s, ts, i + 1, FlagKind::TlasBlas, words);
        lemma_later(s, ts, i, config_end(i, words));
        reveal_with_fuel(instance_items, 2);
    }
}

/// The lines of an instance set each what their word says, and nothing else.
#[verifier::spinoff_prover]
pub proof fn lemma_instance(s: Script, ts: Seq<Token>, i: int, f: InstanceForm)
    requires
        is_written(s, ts),
        is_instance(s, ts, i, f),
    ensures
        instance_lines(s, end(ts, i - 1)) matches Ok((items, q)) && q == place(
            ts,
            instance_places(i, f).4 + 1,
        ) && set_u32(items.id) == f.id && set_u8(items.mask) == f.mask && set_u32(
            items.index_contrib,
        ) == f.contribution && set_value(items.transform) == set_matrix(f.rows) && set_bits(
            items.config,
        ) == bits_of(FlagKind::TlasBlas, f.words),
{
    reveal(instance_lines);
    lemma_instance_words();
    lemma_line_end(s, ts, i - 1);
    let (mask, contribution, rows, words, last) = instance_places(i, f);
    let a = no_instance_items();
    let b = match f.id {
        Some(n) => InstanceItemsView { id: Some((n as u64, name_at(s, ts, i))), ..a },
        None => a,
    };
    if let Some(n) = f.id {
        lemma_instance_number(s, ts, i, "ID"@, n as nat, a);
    }
    let c = match f.mask {
        Some(n) => InstanceItemsView { mask: Some((n as u64, name_at(s, ts, mask))), ..b },
        None => b,
    };
    if let Some(n) = f.mask {
        lemma_instance_number(s, ts, mask, "MASK"@, n as nat, b);
    }
    let d = match f.contribution {
        Some(n) => InstanceItemsView {
            index_contrib: Some((n as u64, name_at(s, ts, contribution))),
            ..c
        },
        None => c,
    };
    if let Some(n) = f.contribution {
        lemma_instance_number(s, ts, contribution, "HIT_GROUP_INDEX_CONTRIBUTION"@, n as nat, c);
    }
    let e = match f.rows {
        Some(r) => InstanceItemsView {
            transform: Some((matrix(r), name_at(s, ts, rows))),
            ..d
        },
        None => d,
    };
    if let Some(r) = f.rows {
        lemma_instance_matrix(s, ts, rows, r, d);
    }
    lemma_instance_config(s, ts, words, f.words, e);
    lemma_end(s, ts, last);
}

/// An instance in a TLAS statement: its name, and a minus sign or its lines.
pub enum TlasForm {
    Plain,
    Lines(InstanceForm),
}

/// The words of an instance, with `BLAS` and its name.
pub open spec fn tlas_form_len(f: TlasForm) -> int {
    match f {
        TlasForm::Plain => 3,
        TlasForm::Lines(f) => instance_places(2, f).4 + 1,
    }
}

/// Whether an instance stands at the word `i`.
pub open spec fn is_tlas_form(s: Script, ts: Seq<Token>, i: int, f: TlasForm) -> bool {
    &&& 0 <= i
    &&& i + 2 <= ts.len()
    &&& ts[i] == tok("BLAS"@)
    &&& is_word(ts[i + 1].word)
    &&& match f {
        TlasForm::Plain => i + 3 <= ts.len() && !ts[i + 1].last && ts[i + 2] == eol(seq!['-']),
        TlasForm::Lines(f) => ts[i + 1].last && is_instance(s, ts, i + 2, f),
    }
}

/// The instance that stands at the word `i`.
pub open spec fn instance_of(s: Script, ts: Seq<Token>, i: int, f: TlasForm) -> TlasBlas<
    Seq<char>,
> {
    let name = name_at(s, ts, i + 1);
    match f {
        TlasForm::Plain => TlasBlas {
            name,
            id: None,
            mask: None,
            index_contrib: None,
            transform: None,
            config: 0,
        },
        TlasForm::Lines(f) => TlasBlas {
            name,
            id: f.id,
            mask: f.mask,
            index_contrib: f.contribution,
            transform: set_matrix(f.rows),
            config: bits_of(FlagKind::TlasBlas, f.words),
        },
    }
}

proof fn lemma_instance_len(i: int, f: InstanceForm)
    ensures
        instance_places(i, f).4 == i - 2 + instance_places(2, f).4,
        instance_places(2, f).4 >= 2,
{
}

/// An instance has the name and all that is written in its lines.
pub proof fn lemma_tlas_instance(s: Script, ts: Seq<Token>, i: int, f: TlasForm)
    requires
        is_written(s, ts),
        is_tlas_form(s, ts, i, f),
    ensures
        tlas_blas(s, end(ts, i)) == Ok::<(TlasBlas<Seq<char>>, int), Fail<Seq<char>>>(
            (instance_of(s, ts, i, f), place(ts, i + tlas_form_len(f))),
        ),
        i < i + tlas_form_len(f) <= ts.len(),
{
    reveal(tlas_blas);
    reveal(no_lines);
    reveal(none);
    lemma_name(s, ts, i + 1);
    match f {
        TlasForm::Plain => {
            lemma_space(s, ts, i + 1);
            lemma_token(s, ts, i + 2);
            lemma_line_end(s, ts, i + 2);
        },
        TlasForm::Lines(g) => {
            lemma_line_end(s, ts, i + 1);
            lemma_instance(s, ts, i + 2, g);
            lemma_instance_len(i + 2, g);
        },
    }
}

/// The words of the first `k` instances.
pub open spec fn instances_len(fs: Seq<TlasForm>, k: int) -> int
    decreases k,
{
    if k <= 0 {
        0
    } else {
        instances_len(fs, k - 1) + tlas_form_len(fs[k - 1])
    }
}

/// Whether a TLAS statement stands at the word `i`: its name, its instances, its flags and `END`.
pub open spec fn is_tlas(
    s: Script,
    ts: Seq<Token>,
    i: int,
    fs: Seq<TlasForm>,
    words: Seq<Seq<char>>,
) -> bool {
    let c = i + 2 + instances_len(fs, fs.len() as int);
    &&& 0 <= i
    &&& i + 2 <= ts.len()
    &&& ts[i] == tok("TLAS"@)
    &&& is_word(ts[i + 1].word)
    &&& ts[i + 1].last
    &&& forall|k: int|
        0 <= k < fs.len() ==> is_tlas_form(s, ts, i + 2 + instances_len(fs, k), #[trigger] fs[k])
    &&& is_config(ts, c, FlagKind::AccelStruct, words)
    &&& i + 2 <= config_end(c, words) < ts.len()
    &&& ts[config_end(c, words)] == eol("END"@)
}

/// The instances of a TLAS statement that stands at the word `i`.
pub open spec fn instances_of(s: Script, ts: Seq<Token>, i: int, fs: Seq<TlasForm>, n: int) -> Seq<
    TlasBlas<Seq<char>>,
> {
    Seq::new(
        n as nat,
        |k: int| instance_of(s, ts, i + 2 + instances_len(fs, k), fs[k]),
    )
}

#[verifier::spinoff_prover]
proof fn lemma_tlas_item(s: Script, ts: Seq<Token>, i: int, f: TlasForm, items: TlasItemsView)
    requires
        is_written(s, ts),
        is_tlas_form(s, ts, i, f),
    ensures
        tlas_items(s, place(ts, i), items) == tlas_items(
            s,
            place(ts, i + tlas_form_len(f)),
            TlasItemsView { blas: items.blas.push(instance_of(s, ts, i, f)), ..items },
        ),
{
    reveal(tlas_item);
    reveal_strlit("BLAS");
    lemma_word(s, ts, i);
    lemma_tlas_instance(s, ts, i, f);
    lemma_later(s, ts, i, i + tlas_form_len(f));
}

#[verifier::spinoff_prover]
proof fn lemma_tlas_config(
    s: Script,
    ts: Seq<Token>,
    i: int,
    words: Seq<Seq<char>>,
    blas: Seq<TlasBlas<Seq<char>>>,
)
    requires
        is_written(s, ts),
        0 <= i,
        is_config(ts, i, FlagKind::AccelStruct, words),
        config_end(i, words) < ts.len(),
        ts[config_end(i, words)] == eol("END"@),
    ensures
        tlas_items(s, place(ts, i), TlasItemsView { blas, config: None }) matches Ok((items, q)) && q
            == place(ts, config_end(i, words)) && items.blas == blas && set_bits(items.config)
            == bits_of(FlagKind::AccelStruct, words),
{
    reveal(tlas_item);
    reveal_strlit("BLAS");
    reveal_strlit("CONFIG");
    reveal_strlit("END");
    lemma_end(s, ts, config_end(i, words));
    if words.len() > 0 {
        lemma_word(s, ts, i);
        lemma_flags(s, ts, i + 1, FlagKind::AccelStruct, words);
        lemma_later(s, ts, i, config_end(i, words));
        reveal_with_fuel(tlas_items, 2);
    }
}

proof fn lemma_instances(
    s: Script,
    ts: Seq<Token>,
    i: int,
    fs: Seq<TlasForm>,
    words: Seq<Seq<char>>,
    k: int,
)
    requires
        is_written(s, ts),
        is_tlas(s, ts, i, fs, words),
        0 <= k <= fs.len(),
    ensures
        tlas_items(
            s,
            place(ts, i + 2 + instances_len(fs, k)),
            TlasItemsView { blas: instances_of(s, ts, i, fs, k), config: None },
        ) matches Ok((items, q)) && q == place(
            ts,
            config_end(i + 2 + instances_len(fs, fs.len() as int), words),
        ) && items.blas == instances_of(s, ts, i, fs, fs.len() as int) && set_bits(items.config)
            == bits_of(FlagKind::AccelStruct, words),
    decreases fs.len() - k,
{
    let at = i + 2 + instances_len(fs, k);
    let now = instances_of(s, ts, i, fs, k);
    if k < fs.len() {
        assert(is_tlas_form(s, ts, at, fs[k]));
        lemma_tlas_item(s, ts, at, fs[k], TlasItemsView { blas: now, config: None });
        assert(now.push(instance_of(s, ts, at, fs[k])) =~= instances_of(s, ts, i, fs, k + 1));
        lemma_instances(s, ts, i, fs, words, k + 1);
    } else {
        lemma_instances_len(fs, k);
        lemma_tlas_config(s, ts, at, words, now);
    }
}

proof fn lemma_instances_len(fs: Seq<TlasForm>, k: int)
    ensures
        instances_len(fs, k) >= 0,
    decreases k,
{
    if k > 0 {
        lemma_instances_len(fs, k - 1);
        if let TlasForm::Lines(f) = fs[k - 1] {
            lemma_instance_len(2, f);
        }
    }
}

/// A TLAS statement has the name, the instances and the flags that are written in it.
pub proof fn lemma_tlas(
    s: Script,
    ts: Seq<Token>,
    i: int,
    fs: Seq<TlasForm>,
    words: Seq<Seq<char>>,
)
    requires
        is_written(s, ts),
        is_tlas(s, ts, i, fs, words),
    ensures
        tlas(s, end(ts, i)) == Ok::<(DirectiveView, int), Fail<Seq<char>>>(
            (
                DirectiveView::Tlas {
                    name: name_at(s, ts, i + 1),
                    blas: instances_of(s, ts, i, fs, fs.len() as int),
                    config: bits_of(FlagKind::AccelStruct, words),
                },
                place(ts, config_end(i + 2 + instances_len(fs, fs.len() as int), words) + 1),
            ),
        ),
{
    reveal(tlas);
    lemma_name(s, ts, i + 1);
    lemma_line_end(s, ts, i + 1);
    assert(instances_of(s, ts, i, fs, 0) =~= Seq::<TlasBlas<Seq<char>>>::empty());
    lemma_instances(s, ts, i, fs, words, 0);
    lemma_end(s, ts, config_end(i + 2 + instances_len(fs, fs.len() as int), words));
}

} // verus!
