//! Acceleration structures: the bytes of geometries and instances.
use vstd::prelude::*;

use crate::gpu::layout::{
    lemma_word_bytes_at, lemma_word_bytes_len, lemma_word_found, push_words, word_bytes,
};
use crate::value::{
    le_bytes, le_number, le_range, lemma_le_bytes_len, lemma_le_round_trip, push_le,
};

verus! {

/// Triangles of a geometry. Floating-point numbers are held as their bits.
#[derive(Clone, Debug, Eq, Hash, PartialEq)]
pub struct TriangleData {
    /// Three words for each vertex
    pub vertices: Vec<u32>,
    /// Twelve words
    pub transform: Option<Vec<u32>>,
    pub config: u32,
}

/// The view of `TriangleData`.
pub struct TriangleDataView {
    pub vertices: Seq<u32>,
    pub transform: Option<Seq<u32>>,
    pub config: u32,
}

impl DeepView for TriangleData {
    type V = TriangleDataView;

    open spec fn deep_view(&self) -> TriangleDataView {
        TriangleDataView {
            vertices: self.vertices@,
            transform: match self.transform {
                Some(t) => Some(t@),
                None => None,
            },
            config: self.config,
        }
    }
}

/// Boxes of a geometry. Floating-point numbers are held as their bits.
#[derive(Clone, Debug, Eq, Hash, PartialEq)]
pub struct ProceduralData {
    /// Six words for each box
    pub aabbs: Vec<u32>,
    pub config: u32,
}

/// The view of `ProceduralData`.
pub struct ProceduralDataView {
    pub aabbs: Seq<u32>,
    pub config: u32,
}

impl DeepView for ProceduralData {
    type V = ProceduralDataView;

    open spec fn deep_view(&self) -> ProceduralDataView {
        ProceduralDataView { aabbs: self.aabbs@, config: self.config }
    }
}

/// The words of the transformation of a geometry.
pub open spec fn transform_words(t: TriangleDataView) -> Seq<u32> {
    match t.transform {
        Some(words) => words,
        None => Seq::empty(),
    }
}

/// The words of all transformations, one behind the other.
pub open spec fn all_transforms(triangles: Seq<TriangleDataView>) -> Seq<u32>
    decreases triangles.len(),
{
    if triangles.len() == 0 {
        Seq::empty()
    } else {
        all_transforms(triangles.drop_last()) + transform_words(triangles.last())
    }
}

/// The words of all vertices, one behind the other.
pub open spec fn all_vertices(triangles: Seq<TriangleDataView>) -> Seq<u32>
    decreases triangles.len(),
{
    if triangles.len() == 0 {
        Seq::empty()
    } else {
        all_vertices(triangles.drop_last()) + triangles.last().vertices
    }
}

/// The words of all boxes, one behind the other.
pub open spec fn all_aabbs(procedurals: Seq<ProceduralDataView>) -> Seq<u32>
    decreases procedurals.len(),
{
    if procedurals.len() == 0 {
        Seq::empty()
    } else {
        all_aabbs(procedurals.drop_last()) + procedurals.last().aabbs
    }
}

/// The words of a bottom-level acceleration structure: transforms, aabbs, vertices.
pub open spec fn blas_words(
    triangles: Seq<TriangleDataView>,
    procedurals: Seq<ProceduralDataView>,
) -> Seq<u32> {
    all_transforms(triangles) + all_aabbs(procedurals) + all_vertices(triangles)
}

/// A geometry as the GPU is told of it, with addresses.
#[derive(Clone, Copy, Debug, Eq, Hash, PartialEq, Structural)]
pub enum GeometryDesc {
    Triangles {
        flags: u32,
        /// Zero if there is none
        transform: u64,
        vertex_count: u64,
        vertex_start: u64,
        vertex_stride: u64,
    },
    Aabbs { flags: u32, count: u64, start: u64, stride: u64 },
}

impl DeepView for GeometryDesc {
    type V = GeometryDesc;

    open spec fn deep_view(&self) -> GeometryDesc {
        *self
    }
}

/// Where the words of the transformation of triangles start.
pub open spec fn transform_place(triangles: Seq<TriangleDataView>, k: int) -> int {
    all_transforms(triangles.take(k)).len() as int
}

/// Where the words of the vertices of triangles start.
pub open spec fn vertex_place(
    triangles: Seq<TriangleDataView>,
    procedurals: Seq<ProceduralDataView>,
    k: int,
) -> int {
    (all_transforms(triangles).len() + all_aabbs(procedurals).len() + all_vertices(
        triangles.take(k),
    ).len()) as int
}

/// Where the words of boxes start.
pub open spec fn aabb_place(
    triangles: Seq<TriangleDataView>,
    procedurals: Seq<ProceduralDataView>,
    k: int,
) -> int {
    (all_transforms(triangles).len() + all_aabbs(procedurals.take(k)).len()) as int
}

/// A geometry of triangles, in a buffer at an address.
pub open spec fn triangle_desc(
    triangles: Seq<TriangleDataView>,
    procedurals: Seq<ProceduralDataView>,
    address: u64,
    k: int,
) -> GeometryDesc {
    GeometryDesc::Triangles {
        flags: triangles[k].config,
        transform: if triangles[k].transform is Some {
            (address + 4 * transform_place(triangles, k)) as u64
        } else {
            0
        },
        vertex_count: (triangles[k].vertices.len() / 3) as u64,
        vertex_start: (address + 4 * vertex_place(triangles, procedurals, k)) as u64,
        vertex_stride: 12,
    }
}

/// A geometry of boxes, in a buffer at an address.
pub open spec fn aabb_desc(
    triangles: Seq<TriangleDataView>,
    procedurals: Seq<ProceduralDataView>,
    address: u64,
    k: int,
) -> GeometryDesc {
    GeometryDesc::Aabbs {
        flags: procedurals[k].config,
        count: (procedurals[k].aabbs.len() / 6) as u64,
        start: (address + 4 * aabb_place(triangles, procedurals, k)) as u64,
        stride: 24,
    }
}

/// All geometries: those of triangles, then those of boxes.
pub open spec fn geometry_descs(
    triangles: Seq<TriangleDataView>,
    procedurals: Seq<ProceduralDataView>,
    address: u64,
) -> Seq<GeometryDesc> {
    Seq::new(triangles.len(), |k: int| triangle_desc(triangles, procedurals, address, k))
        + Seq::new(procedurals.len(), |k: int| aabb_desc(triangles, procedurals, address, k))
}

/// The GPU is told of each geometry of triangles that its vertices are three words apart, how many
/// there are, and where their bytes and those of its transformation stand.
pub proof fn lemma_triangle_desc(
    triangles: Seq<TriangleDataView>,
    procedurals: Seq<ProceduralDataView>,
    address: u64,
    k: int,
)
    requires
        0 <= k < triangles.len(),
        address + 4 * blas_words(triangles, procedurals).len() <= u64::MAX,
    ensures
        ({
            let bytes = word_bytes(blas_words(triangles, procedurals));
            let t = triangles[k];
            geometry_descs(triangles, procedurals, address)[k] matches GeometryDesc::Triangles {
                flags,
                transform,
                vertex_count,
                vertex_start,
                vertex_stride,
            } && flags == t.config && vertex_stride == 3 * 4 && 3 * vertex_count
                <= t.vertices.len() < 3 * vertex_count + 3 && (t.transform is None ==> transform
                == 0) && (t.transform matches Some(words) ==> transform >= address && bytes.subrange(
                transform - address,
                transform - address + 4 * words.len(),
            ) == word_bytes(words)) && vertex_start >= address && bytes.subrange(
                vertex_start - address,
                vertex_start - address + 4 * t.vertices.len(),
            ) == word_bytes(t.vertices)
        }),
{
    let t = triangles[k];
    lemma_triangles_found(triangles, procedurals, k);
    lemma_word_bytes_len(blas_words(triangles, procedurals));
    lemma_transform_at(triangles, k);
    lemma_vertices_at(triangles, k);
    assert(geometry_descs(triangles, procedurals, address)[k] == triangle_desc(
        triangles,
        procedurals,
        address,
        k,
    ));
}

/// The GPU is told of each geometry of boxes that its boxes are six words apart, how many there
/// are, and where their bytes stand. These geometries come behind those of triangles.
pub proof fn lemma_aabb_desc(
    triangles: Seq<TriangleDataView>,
    procedurals: Seq<ProceduralDataView>,
    address: u64,
    k: int,
)
    requires
        0 <= k < procedurals.len(),
        address + 4 * blas_words(triangles, procedurals).len() <= u64::MAX,
    ensures
        ({
            let bytes = word_bytes(blas_words(triangles, procedurals));
            let p = procedurals[k];
            let descs = geometry_descs(triangles, procedurals, address);
            &&& descs.len() == triangles.len() + procedurals.len()
            &&& descs[triangles.len() + k] matches GeometryDesc::Aabbs {
                flags,
                count,
                start,
                stride,
            } && flags == p.config && stride == 6 * 4 && 6 * count <= p.aabbs.len() < 6 * count + 6
                && start >= address && bytes.subrange(
                start - address,
                start - address + 4 * p.aabbs.len(),
            ) == word_bytes(p.aabbs)
        }),
{
    lemma_aabbs_found(triangles, procedurals, k);
    lemma_word_bytes_len(blas_words(triangles, procedurals));
    lemma_aabbs_at(procedurals, k);
    assert(geometry_descs(triangles, procedurals, address)[triangles.len() + k] == aabb_desc(
        triangles,
        procedurals,
        address,
        k,
    ));
}

proof fn lemma_transform_at(triangles: Seq<TriangleDataView>, k: int)
    requires
        0 <= k < triangles.len(),
    ensures
        transform_place(triangles, k) + transform_words(triangles[k]).len() <= all_transforms(
            triangles,
        ).len(),
        all_transforms(triangles).subrange(
            transform_place(triangles, k),
            transform_place(triangles, k) + transform_words(triangles[k]).len(),
        ) == transform_words(triangles[k]),
    decreases triangles.len(),
{
    let rest = triangles.drop_last();
    let start = transform_place(triangles, k);
    let end = start + transform_words(triangles[k]).len();
    if k < rest.len() {
        lemma_transform_at(rest, k);
        assert(rest.take(k) =~= triangles.take(k));
        assert(all_transforms(triangles).subrange(start, end) =~= all_transforms(rest).subrange(
            start,
            end,
        ));
    } else {
        assert(triangles.take(k) =~= rest);
        assert(all_transforms(triangles).subrange(start, end) =~= transform_words(triangles[k]));
    }
}

proof fn lemma_vertices_at(triangles: Seq<TriangleDataView>, k: int)
    requires
        0 <= k < triangles.len(),
    ensures
        all_vertices(triangles.take(k)).len() + triangles[k].vertices.len() <= all_vertices(
            triangles,
        ).len(),
        all_vertices(triangles).subrange(
            all_vertices(triangles.take(k)).len() as int,
            all_vertices(triangles.take(k)).len() + triangles[k].vertices.len() as int,
        ) == triangles[k].vertices,
    decreases triangles.len(),
{
    let rest = triangles.drop_last();
    let start = all_vertices(triangles.take(k)).len() as int;
    let end = start + triangles[k].vertices.len();
    if k < rest.len() {
        lemma_vertices_at(rest, k);
        assert(rest.take(k) =~= triangles.take(k));
        assert(all_vertices(triangles).subrange(start, end) =~= all_vertices(rest).subrange(
            start,
            end,
        ));
    } else {
        assert(triangles.take(k) =~= rest);
        assert(all_vertices(triangles).subrange(start, end) =~= triangles[k].vertices);
    }
}

proof fn lemma_aabbs_at(procedurals: Seq<ProceduralDataView>, k: int)
    requires
        0 <= k < procedurals.len(),
    ensures
        all_aabbs(procedurals.take(k)).len() + procedurals[k].aabbs.len() <= all_aabbs(
            procedurals,
        ).len(),
        all_aabbs(procedurals).subrange(
            all_aabbs(procedurals.take(k)).len() as int,
            all_aabbs(procedurals.take(k)).len() + procedurals[k].aabbs.len() as int,
        ) == procedurals[k].aabbs,
    decreases procedurals.len(),
{
    let rest = procedurals.drop_last();
    let start = all_aabbs(procedurals.take(k)).len() as int;
    let end = start + procedurals[k].aabbs.len();
    if k < rest.len() {
        lemma_aabbs_at(rest, k);
        assert(rest.take(k) =~= procedurals.take(k));
        assert(all_aabbs(procedurals).subrange(start, end) =~= all_aabbs(rest).subrange(
            start,
            end,
        ));
    } else {
        assert(procedurals.take(k) =~= rest);
        assert(all_aabbs(procedurals).subrange(start, end) =~= procedurals[k].aabbs);
    }
}

/// The GPU finds the transformation and the vertices of each geometry of triangles where it is
/// told to look for them.
pub proof fn lemma_triangles_found(
    triangles: Seq<TriangleDataView>,
    procedurals: Seq<ProceduralDataView>,
    k: int,
)
    requires
        0 <= k < triangles.len(),
    ensures
        ({
            let bytes = word_bytes(blas_words(triangles, procedurals));
            let t = 4 * transform_place(triangles, k);
            let v = 4 * vertex_place(triangles, procedurals, k);
            &&& t + 4 * transform_words(triangles[k]).len() <= bytes.len()
            &&& bytes.subrange(t, t + 4 * transform_words(triangles[k]).len()) == word_bytes(
                transform_words(triangles[k]),
            )
            &&& v + 4 * triangles[k].vertices.len() <= bytes.len()
            &&& bytes.subrange(v, v + 4 * triangles[k].vertices.len()) == word_bytes(
                triangles[k].vertices,
            )
        }),
{
    let words = blas_words(triangles, procedurals);
    lemma_transform_at(triangles, k);
    lemma_vertices_at(triangles, k);
    let t = transform_place(triangles, k);
    let t_end = t + transform_words(triangles[k]).len();
    assert(words.subrange(t, t_end) =~= all_transforms(triangles).subrange(t, t_end));
    lemma_word_bytes_at(words, t, t_end);
    let v = vertex_place(triangles, procedurals, k);
    let v_end = v + triangles[k].vertices.len();
    let before = all_transforms(triangles).len() + all_aabbs(procedurals).len();
    assert(words.subrange(v, v_end) =~= all_vertices(triangles).subrange(v - before, v_end - before));
    lemma_word_bytes_at(words, v, v_end);
}

/// The GPU finds the boxes of each procedural geometry where it is told to look for them.
pub proof fn lemma_aabbs_found(
    triangles: Seq<TriangleDataView>,
    procedurals: Seq<ProceduralDataView>,
    k: int,
)
    requires
        0 <= k < procedurals.len(),
    ensures
        ({
            let bytes = word_bytes(blas_words(triangles, procedurals));
            let b = 4 * aabb_place(triangles, procedurals, k);
            &&& b + 4 * procedurals[k].aabbs.len() <= bytes.len()
            &&& bytes.subrange(b, b + 4 * procedurals[k].aabbs.len()) == word_bytes(
                procedurals[k].aabbs,
            )
        }),
{
    let words = blas_words(triangles, procedurals);
    lemma_aabbs_at(procedurals, k);
    let b = aabb_place(triangles, procedurals, k);
    let b_end = b + procedurals[k].aabbs.len();
    let before = all_transforms(triangles).len();
    assert(words.subrange(b, b_end) =~= all_aabbs(procedurals).subrange(b - before, b_end - before));
    lemma_word_bytes_at(words, b, b_end);
}

/// Puts words behind others.
fn append_words(words: &mut Vec<u32>, more: &Vec<u32>)
    ensures
        final(words)@ == old(words)@ + more@,
{
    let mut i: usize = 0;
    assert(words@ + more@.take(0) =~= words@);
    while i < more.len()
        invariant
            i <= more@.len(),
            words@ == old(words)@ + more@.take(i as int),
        decreases more@.len() - i,
    {
        words.push(more[i]);
        i += 1;
        assert(words@ =~= old(words)@ + more@.take(i as int));
    }
    assert(more@.take(i as int) =~= more@);
}

/// The words of all transformations.
fn collect_transforms(triangles: &Vec<TriangleData>) -> (words: Vec<u32>)
    ensures
        words@ == all_transforms(triangles.deep_view()),
{
    let ghost all = triangles.deep_view();
    let mut words: Vec<u32> = Vec::new();
    let mut i: usize = 0;
    while i < triangles.len()
        invariant
            i <= triangles@.len(),
            all == triangles.deep_view(),
            words@ == all_transforms(all.take(i as int)),
        decreases triangles@.len() - i,
    {
        proof {
            assert(all.take(i + 1).drop_last() =~= all.take(i as int));
            assert(all.take(i + 1).last() == triangles@[i as int].deep_view());
        }
        match &triangles[i].transform {
            Some(t) => {
                append_words(&mut words, t);
            },
            None => {
                assert(words@ + Seq::<u32>::empty() =~= words@);
            },
        }
        i += 1;
    }
    assert(all.take(i as int) =~= all);
    words
}

/// The words of all vertices.
fn collect_vertices(triangles: &Vec<TriangleData>) -> (words: Vec<u32>)
    ensures
        words@ == all_vertices(triangles.deep_view()),
{
    let ghost all = triangles.deep_view();
    let mut words: Vec<u32> = Vec::new();
    let mut i: usize = 0;
    while i < triangles.len()
        invariant
            i <= triangles@.len(),
            all == triangles.deep_view(),
            words@ == all_vertices(all.take(i as int)),
        decreases triangles@.len() - i,
    {
        proof {
            assert(all.take(i + 1).drop_last() =~= all.take(i as int));
            assert(all.take(i + 1).last() == triangles@[i as int].deep_view());
        }
        append_words(&mut words, &triangles[i].vertices);
        i += 1;
    }
    assert(all.take(i as int) =~= all);
    words
}

/// The words of all boxes.
fn collect_aabbs(procedurals: &Vec<ProceduralData>) -> (words: Vec<u32>)
    ensures
        words@ == all_aabbs(procedurals.deep_view()),
{
    let ghost all = procedurals.deep_view();
    let mut words: Vec<u32> = Vec::new();
    let mut i: usize = 0;
    while i < procedurals.len()
        invariant
            i <= procedurals@.len(),
            all == procedurals.deep_view(),
            words@ == all_aabbs(all.take(i as int)),
        decreases procedurals@.len() - i,
    {
        proof {
            assert(all.take(i + 1).drop_last() =~= all.take(i as int));
            assert(all.take(i + 1).last() == procedurals@[i as int].deep_view());
        }
        append_words(&mut words, &procedurals[i].aabbs);
        i += 1;
    }
    assert(all.take(i as int) =~= all);
    words
}

/// The bytes of the geometries of a bottom-level acceleration structure.
pub fn blas_bytes(triangles: &Vec<TriangleData>, procedurals: &Vec<ProceduralData>) -> (bytes: Vec<u8>)
    ensures
        bytes@ == word_bytes(blas_words(triangles.deep_view(), procedurals.deep_view())),
{
    let mut words = collect_transforms(triangles);
    append_words(&mut words, &collect_aabbs(procedurals));
    append_words(&mut words, &collect_vertices(triangles));
    let mut bytes: Vec<u8> = Vec::new();
    push_words(&mut bytes, &words);
    assert(bytes@ =~= word_bytes(words@));
    bytes
}

/// The geometries of a bottom-level acceleration structure, in a buffer at an address.
pub fn blas_geometries(
    triangles: &Vec<TriangleData>,
    procedurals: &Vec<ProceduralData>,
    address: u64,
) -> (descs: Vec<GeometryDesc>)
    requires
        address + 4 * blas_words(triangles.deep_view(), procedurals.deep_view()).len() <= u64::MAX,
    ensures
        descs@ == geometry_descs(triangles.deep_view(), procedurals.deep_view(), address),
{
    let ghost ts = triangles.deep_view();
    let ghost ps = procedurals.deep_view();
    let transforms: usize = collect_transforms(triangles).len();
    let aabbs: usize = collect_aabbs(procedurals).len();
    let mut transform_offset: u64 = 0;
    let mut vertex_offset: u64 = 4 * (transforms as u64 + aabbs as u64);
    let mut descs: Vec<GeometryDesc> = Vec::new();
    let mut i: usize = 0;
    assert(ts.take(0) =~= Seq::<TriangleDataView>::empty());
    while i < triangles.len()
        invariant
            i <= triangles@.len(),
            ts == triangles.deep_view(),
            ps == procedurals.deep_view(),
            transforms == all_transforms(ts).len(),
            aabbs == all_aabbs(ps).len(),
            address + 4 * blas_words(ts, ps).len() <= u64::MAX,
            transform_offset == 4 * transform_place(ts, i as int),
            vertex_offset == 4 * vertex_place(ts, ps, i as int),
            descs@.len() == i,
            forall|j: int| 0 <= j < i ==> #[trigger] descs@[j] == triangle_desc(ts, ps, address, j),
        decreases triangles@.len() - i,
    {
        proof {
            lemma_transform_at(ts, i as int);
            lemma_vertices_at(ts, i as int);
            assert(ts.take(i + 1).drop_last() =~= ts.take(i as int));
            assert(ts.take(i + 1).last() == ts[i as int]);
            assert(ts[i as int] == triangles@[i as int].deep_view());
        }
        let t = &triangles[i];
        let words: usize = t.vertices.len();
        let transform: u64 = match &t.transform {
            Some(_) => address + transform_offset,
            None => 0,
        };
        descs.push(
            GeometryDesc::Triangles {
                flags: t.config,
                transform,
                vertex_count: (words / 3) as u64,
                vertex_start: address + vertex_offset,
                vertex_stride: 12,
            },
        );
        if let Some(m) = &t.transform {
            transform_offset = transform_offset + 4 * m.len() as u64;
        }
        vertex_offset = vertex_offset + 4 * words as u64;
        i += 1;
    }
    let mut aabb_offset: u64 = 4 * transforms as u64;
    let mut i: usize = 0;
    let count: usize = triangles.len();
    assert(ps.take(0) =~= Seq::<ProceduralDataView>::empty());
    while i < procedurals.len()
        invariant
            i <= procedurals@.len(),
            count == ts.len(),
            ts == triangles.deep_view(),
            ps == procedurals.deep_view(),
            address + 4 * blas_words(ts, ps).len() <= u64::MAX,
            aabb_offset == 4 * aabb_place(ts, ps, i as int),
            descs@.len() == count + i,
            forall|j: int|
                0 <= j < count ==> #[trigger] descs@[j] == triangle_desc(ts, ps, address, j),
            forall|j: int|
                count <= j < count + i ==> #[trigger] descs@[j] == aabb_desc(
                    ts,
                    ps,
                    address,
                    j - count,
                ),
        decreases procedurals@.len() - i,
    {
        proof {
            lemma_aabbs_at(ps, i as int);
            assert(ps.take(i + 1).drop_last() =~= ps.take(i as int));
            assert(ps.take(i + 1).last() == ps[i as int]);
            assert(ps[i as int] == procedurals@[i as int].deep_view());
        }
        let p = &procedurals[i];
        let words: usize = p.aabbs.len();
        descs.push(
            GeometryDesc::Aabbs {
                flags: p.config,
                count: (words / 6) as u64,
                start: address + aabb_offset,
                stride: 24,
            },
        );
        aabb_offset = aabb_offset + 4 * words as u64;
        i += 1;
    }
    assert(descs@ =~= geometry_descs(ts, ps, address));
    descs
}

/// An instance in a top-level acceleration structure. Floating-point numbers are held as their
/// bits.
#[derive(Clone, Debug, Eq, Hash, PartialEq)]
pub struct InstanceData {
    /// Twelve words
    pub transform: Option<Vec<u32>>,
    pub id: Option<u32>,
    pub mask: Option<u8>,
    pub index_contrib: Option<u32>,
    pub flags: u32,
    /// Address of the bottom-level acceleration structure
    pub address: u64,
}

/// The view of `InstanceData`.
pub struct InstanceDataView {
    pub transform: Option<Seq<u32>>,
    pub id: Option<u32>,
    pub mask: Option<u8>,
    pub index_contrib: Option<u32>,
    pub flags: u32,
    pub address: u64,
}

impl DeepView for InstanceData {
    type V = InstanceDataView;

    open spec fn deep_view(&self) -> InstanceDataView {
        InstanceDataView {
            transform: match self.transform {
                Some(t) => Some(t@),
                None => None,
            },
            id: self.id,
            mask: self.mask,
            index_contrib: self.index_contrib,
            flags: self.flags,
            address: self.address,
        }
    }
}

/// The bits of the floating-point number one.
pub const ONE_BITS: u32 = 0x3f80_0000;

/// The identity matrix of three rows and four columns, as bits.
pub open spec fn identity_words() -> Seq<u32> {
    Seq::new(
        12,
        |i: int|
            if i == 0 || i == 5 || i == 10 {
                ONE_BITS
            } else {
                0
            },
    )
}

/// The words of an instance before the address: the transformation, then the id with the mask in
/// its highest byte, then the contribution to the hit group index with the flags in its highest
/// byte.
pub open spec fn instance_words(i: InstanceDataView) -> Seq<u32> {
    let transform = match i.transform {
        Some(t) => t,
        None => identity_words(),
    };
    let id = match i.id {
        Some(id) => id,
        None => 0,
    };
    let mask = match i.mask {
        Some(mask) => mask,
        None => 0xff,
    };
    let hit_index = match i.index_contrib {
        Some(n) => n,
        None => 0,
    };
    transform + seq![id | ((mask as u32) << 24), hit_index | (i.flags << 24)]
}

/// The bytes of an instance.
pub open spec fn instance_bytes(i: InstanceDataView) -> Seq<u8> {
    word_bytes(instance_words(i)) + le_bytes(i.address as nat, 8)
}

/// The bytes of instances, one behind the other.
pub open spec fn tlas_bytes(instances: Seq<InstanceDataView>) -> Seq<u8>
    decreases instances.len(),
{
    if instances.len() == 0 {
        Seq::empty()
    } else {
        tlas_bytes(instances.drop_last()) + instance_bytes(instances.last())
    }
}

/// Whether each transformation has twelve words.
pub open spec fn instances_ok(instances: Seq<InstanceDataView>) -> bool {
    forall|i: int|
        0 <= i < instances.len() ==> ((#[trigger] instances[i]).transform matches Some(t)
            ==> t.len() == 12)
}

proof fn lemma_instance_len(i: InstanceDataView)
    requires
        i.transform matches Some(t) ==> t.len() == 12,
    ensures
        instance_bytes(i).len() == 64,
{
    lemma_word_bytes_len(instance_words(i));
    lemma_le_bytes_len(i.address as nat, 8);
}

/// Each instance takes 64 bytes, and stands behind those before it.
pub proof fn lemma_instance_found(instances: Seq<InstanceDataView>, k: int)
    requires
        instances_ok(instances),
        0 <= k < instances.len(),
    ensures
        tlas_bytes(instances).len() == 64 * instances.len(),
        tlas_bytes(instances).subrange(64 * k, 64 * k + 64) == instance_bytes(instances[k]),
    decreases instances.len(),
{
    let rest = instances.drop_last();
    lemma_instance_len(instances.last());
    reveal_with_fuel(tlas_bytes, 2);
    if rest.len() > 0 {
        lemma_instance_found(
            rest,
            if k < rest.len() {
                k
            } else {
                0
            },
        );
    }
    if k < rest.len() {
        assert(tlas_bytes(instances).subrange(64 * k, 64 * k + 64) =~= tlas_bytes(rest).subrange(
            64 * k,
            64 * k + 64,
        ));
    } else {
        assert(tlas_bytes(instances).subrange(64 * k, 64 * k + 64) =~= instance_bytes(
            instances[k],
        ));
    }
}

/// The word at a place in the bytes of an instance.
pub open spec fn word_at(bytes: Seq<u8>, k: int) -> nat {
    le_number(bytes.subrange(4 * k, 4 * k + 4))
}

/// What the GPU reads of an instance. The first twelve words are the transformation, row by row:
/// the one that is given, or else the one that keeps each point. The next two words hold the id in
/// the lower three bytes and the mask in the highest one, then the contribution to the hit group
/// index in the lower three bytes and the flags in the highest one. An id or a contribution that is
/// left out is zero, and without a mask each ray sees the instance. The last eight bytes are the
/// address.
pub proof fn lemma_instance_read(i: InstanceDataView, row: int, column: int)
    requires
        i.transform matches Some(t) ==> t.len() == 12,
        i.id matches Some(id) ==> id < 0x100_0000,
        i.index_contrib matches Some(n) ==> n < 0x100_0000,
        i.flags < 0x100,
        0 <= row < 3,
        0 <= column < 4,
    ensures
        ({
            let bytes = instance_bytes(i);
            &&& bytes.len() == 64
            &&& i.transform matches Some(t) ==> word_at(bytes, 4 * row + column) == t[4 * row
                + column]
            &&& i.transform is None ==> word_at(bytes, 4 * row + column) == if row == column {
                0x3f80_0000nat
            } else {
                0
            }
            &&& i.id matches Some(id) ==> word_at(bytes, 12) % 0x100_0000 == id
            &&& i.id is None ==> word_at(bytes, 12) % 0x100_0000 == 0
            &&& i.mask matches Some(mask) ==> word_at(bytes, 12) / 0x100_0000 == mask
            &&& i.mask is None ==> word_at(bytes, 12) / 0x100_0000 == 0xff
            &&& i.index_contrib matches Some(n) ==> word_at(bytes, 13) % 0x100_0000 == n
            &&& i.index_contrib is None ==> word_at(bytes, 13) % 0x100_0000 == 0
            &&& word_at(bytes, 13) / 0x100_0000 == i.flags
            &&& le_number(bytes.subrange(56, 64)) == i.address
        }),
{
    let words = instance_words(i);
    let bytes = instance_bytes(i);
    let head = word_bytes(words);
    let k = 4 * row + column;
    lemma_instance_len(i);
    lemma_word_bytes_len(words);
    lemma_word_found(words, k);
    lemma_word_found(words, 12);
    lemma_word_found(words, 13);
    assert(bytes.subrange(4 * k, 4 * k + 4) =~= head.subrange(4 * k, 4 * k + 4));
    assert(bytes.subrange(48, 52) =~= head.subrange(48, 52));
    assert(bytes.subrange(52, 56) =~= head.subrange(52, 56));
    assert(bytes.subrange(56, 64) =~= le_bytes(i.address as nat, 8));
    reveal_with_fuel(le_range, 9);
    lemma_le_round_trip(i.address as nat, 8);
    let id = match i.id {
        Some(id) => id,
        None => 0,
    };
    let mask = match i.mask {
        Some(mask) => mask,
        None => 0xff,
    };
    let n = match i.index_contrib {
        Some(n) => n,
        None => 0,
    };
    lemma_packed(id, mask as u32);
    lemma_packed(n, i.flags);
    assert(words[12] == id | ((mask as u32) << 24));
    assert(words[13] == n | (i.flags << 24));
}

proof fn lemma_packed(low: u32, high: u32)
    requires
        low < 0x100_0000,
        high < 0x100,
    ensures
        (low | (high << 24)) % 0x100_0000 == low,
        (low | (high << 24)) / 0x100_0000 == high,
{
    assert((low | (high << 24)) % 0x100_0000 == low && (low | (high << 24)) / 0x100_0000 == high)
        by (bit_vector)
        requires
            low < 0x100_0000,
            high < 0x100,
    ;
}

/// The identity matrix of three rows and four columns, as bits.
fn identity() -> (words: Vec<u32>)
    ensures
        words@ == identity_words(),
{
    let mut words: Vec<u32> = Vec::new();
    let mut i: usize = 0;
    while i < 12
        invariant
            i <= 12,
            words@ == identity_words().take(i as int),
        decreases 12 - i,
    {
        let w: u32 = if i == 0 || i == 5 || i == 10 {
            ONE_BITS
        } else {
            0
        };
        words.push(w);
        i += 1;
        assert(words@ =~= identity_words().take(i as int));
    }
    assert(identity_words().take(12) =~= identity_words());
    words
}

/// The bytes of the instances of a top-level acceleration structure.
pub fn get_tlas_bytes(instances: &Vec<InstanceData>) -> (bytes: Vec<u8>)
    ensures
        bytes@ == tlas_bytes(instances.deep_view()),
{
    let ghost all = instances.deep_view();
    let mut bytes: Vec<u8> = Vec::new();
    let mut i: usize = 0;
    while i < instances.len()
        invariant
            i <= instances@.len(),
            all == instances.deep_view(),
            bytes@ == tlas_bytes(all.take(i as int)),
        decreases instances@.len() - i,
    {
        proof {
            assert(all.take(i + 1).drop_last() =~= all.take(i as int));
            assert(all.take(i + 1).last() == instances@[i as int].deep_view());
        }
        let instance = &instances[i];
        let mut words: Vec<u32> = Vec::new();
        match &instance.transform {
            Some(t) => {
                append_words(&mut words, t);
            },
            None => {
                append_words(&mut words, &identity());
            },
        }
        let id: u32 = match instance.id {
            Some(id) => id,
            None => 0,
        };
        let mask: u8 = match instance.mask {
            Some(mask) => mask,
            None => 0xff,
        };
        let hit_index: u32 = match instance.index_contrib {
            Some(n) => n,
            None => 0,
        };
        words.push(id | ((mask as u32) << 24));
        words.push(hit_index | (instance.flags << 24));
        let ghost before = bytes@;
        proof {
            assert(words@ =~= instance_words(instance.deep_view()));
        }
        push_words(&mut bytes, &words);
        push_le(&mut bytes, instance.address as u128, 8);
        assert(bytes@ =~= before + instance_bytes(instance.deep_view()));
        i += 1;
    }
    assert(all.take(i as int) =~= all);
    bytes
}

} // verus!
