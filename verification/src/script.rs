//! The statements of a script, as they are after parsing.
//!
//! Types that hold texts take the type of a text as a parameter: `String` in code, `Seq<char>`
//! in contracts. Types that hold lists have a counterpart, named `...View`, that holds sequences.
use vstd::prelude::*;

use crate::source::{Identifier, IdentifierView, SpanObj};
use crate::value::{DataType, Value};

verus! {

/// How a number is written.
#[derive(Clone, Copy, Debug, Eq, Hash, PartialEq, Structural)]
pub enum NumberForm {
    Decimal,
    /// Behind `0x`.
    Hexadecimal,
    /// Behind `0b`.
    Binary,
    /// With a decimal point.
    Float,
}

/// A number that is meant as a floating-point number, as it is written.
#[derive(Clone, Debug, Eq, Hash, PartialEq)]
pub struct NumberLiteral<S> {
    pub negative: bool,
    pub form: NumberForm,
    /// The digits without sign and prefix. In the form `Float` the whole text, sign included.
    pub digits: S,
}

impl<S: DeepView> DeepView for NumberLiteral<S> {
    type V = NumberLiteral<S::V>;

    open spec fn deep_view(&self) -> NumberLiteral<S::V> {
        NumberLiteral {
            negative: self.negative,
            form: self.form,
            digits: self.digits.deep_view(),
        }
    }
}

/// A value in a script. Integers are known when the script is parsed, the other values later.
#[derive(Clone, Debug, Eq, Hash, PartialEq)]
pub enum UnresolvedValue<S> {
    Resolved(Value),
    /// The 32-bit floating-point number nearest to a literal
    F32(NumberLiteral<S>),
    /// The 16-bit floating-point number nearest to a literal
    F16(NumberLiteral<S>),
    /// 64-bit address of a buffer
    Gpuva(SpanObj<S>),
}

impl<S: DeepView> DeepView for UnresolvedValue<S> {
    type V = UnresolvedValue<S::V>;

    open spec fn deep_view(&self) -> UnresolvedValue<S::V> {
        match self {
            UnresolvedValue::Resolved(v) => UnresolvedValue::Resolved(*v),
            UnresolvedValue::F32(n) => UnresolvedValue::F32(n.deep_view()),
            UnresolvedValue::F16(n) => UnresolvedValue::F16(n.deep_view()),
            UnresolvedValue::Gpuva(i) => UnresolvedValue::Gpuva(i.deep_view()),
        }
    }
}

/// The type of a value.
pub open spec fn unresolved_type<S>(v: UnresolvedValue<S>) -> DataType {
    match v {
        UnresolvedValue::Resolved(v) => v.spec_type(),
        UnresolvedValue::F32(_) => DataType::F32,
        UnresolvedValue::F16(_) => DataType::F16,
        UnresolvedValue::Gpuva(_) => DataType::U64,
    }
}

/// The number of bytes that values take, one behind the other.
pub open spec fn total_size<S>(values: Seq<UnresolvedValue<S>>) -> nat
    decreases values.len(),
{
    if values.len() == 0 {
        0
    } else {
        total_size(values.drop_last()) + unresolved_type(values.last()).size()
    }
}

impl UnresolvedValue<String> {
    /// The type of the value.
    pub fn get_type(&self) -> (typ: DataType)
        ensures
            typ == unresolved_type(*self),
            typ == unresolved_type(self.deep_view()),
    {
        match self {
            UnresolvedValue::Resolved(v) => v.get_type(),
            UnresolvedValue::F32(_) => DataType::F32,
            UnresolvedValue::F16(_) => DataType::F16,
            UnresolvedValue::Gpuva(_) => DataType::U64,
        }
    }

    /// The number of bytes that the value takes.
    pub fn len(&self) -> (size: usize)
        ensures
            size == unresolved_type(self.deep_view()).size(),
    {
        self.get_type().len()
    }
}

/// The number of bytes that values take, one behind the other.
pub fn total_bytes(values: &Vec<UnresolvedValue<String>>) -> (size: u128)
    ensures
        size == total_size(values.deep_view()),
{
    let mut size: u128 = 0;
    let mut i: usize = 0;
    assert(values.deep_view().take(0) =~= Seq::<UnresolvedValue<Seq<char>>>::empty());
    while i < values.len()
        invariant
            i <= values.len(),
            size == total_size(values.deep_view().take(i as int)),
            size <= 8 * i,
        decreases values.len() - i,
    {
        proof {
            let next = values.deep_view().take(i + 1);
            assert(next.drop_last() =~= values.deep_view().take(i as int));
            assert(next.last() == values[i as int].deep_view());
        }
        size = size + values[i].len() as u128;
        i += 1;
    }
    assert(values.deep_view().take(i as int) =~= values.deep_view());
    size
}

/// How the elements of an array are filled, with values of the type `V`.
#[derive(Clone, Copy, Debug, Eq, Hash, PartialEq)]
pub enum Fill<V> {
    Series { from: V, increment: V },
    Const(V),
}

impl<V: DeepView> DeepView for Fill<V> {
    type V = Fill<V::V>;

    open spec fn deep_view(&self) -> Fill<V::V> {
        match self {
            Fill::Series { from, increment } => Fill::Series {
                from: from.deep_view(),
                increment: increment.deep_view(),
            },
            Fill::Const(v) => Fill::Const(v.deep_view()),
        }
    }
}

/// The content of a buffer or of root constants.
#[derive(Clone, Debug, Eq, Hash, PartialEq)]
pub enum UnresolvedValueContent {
    Typed { typ: DataType, element_count: u64, fill: Fill<UnresolvedValue<String>> },
    Raw { size: u64, values: Vec<UnresolvedValue<String>> },
}

/// The view of `UnresolvedValueContent`.
pub enum ValueContentView {
    Typed { typ: DataType, element_count: u64, fill: Fill<UnresolvedValue<Seq<char>>> },
    Raw { size: u64, values: Seq<UnresolvedValue<Seq<char>>> },
}

impl DeepView for UnresolvedValueContent {
    type V = ValueContentView;

    open spec fn deep_view(&self) -> ValueContentView {
        match self {
            UnresolvedValueContent::Typed { typ, element_count, fill } => ValueContentView::Typed {
                typ: *typ,
                element_count: *element_count,
                fill: fill.deep_view(),
            },
            UnresolvedValueContent::Raw { size, values } => ValueContentView::Raw {
                size: *size,
                values: values.deep_view(),
            },
        }
    }
}

#[derive(Clone, Copy, Debug, Eq, Hash, PartialEq, Structural)]
pub enum ViewType {
    /// Unordered access view aka read-write buffer
    Uav,
    /// Shader resource view aka read-only buffer
    Srv,
}

impl DeepView for ViewType {
    type V = ViewType;

    open spec fn deep_view(&self) -> ViewType {
        *self
    }
}

#[derive(Clone, Copy, Debug, Eq, Hash, PartialEq, Structural)]
pub enum DumpFormat {
    List,
    /// The format of EXPECT statements.
    Expect,
}

#[derive(Clone, Copy, Debug, Eq, Hash, PartialEq, Structural)]
pub enum DumpDataType {
    DataType(DataType),
    /// Dump DXIL from shader object
    Dxil,
}

impl DeepView for DumpDataType {
    type V = DumpDataType;

    open spec fn deep_view(&self) -> DumpDataType {
        *self
    }
}

#[derive(Clone, Copy, Debug, Eq, Hash, PartialEq, Structural)]
pub enum InputViewType {
    Raw { typ: ViewType },
    Typed { typ: ViewType, data_type: DataType },
    Structured {
        typ: ViewType,
        /// Size of the struct in bytes
        struct_size: u32,
    },
    /// Raytracing acceleration structure
    RaytracingAccelStruct,
}

impl DeepView for InputViewType {
    type V = InputViewType;

    open spec fn deep_view(&self) -> InputViewType {
        *self
    }
}

#[derive(Clone, Copy, Debug, Eq, Hash, PartialEq, Structural)]
pub struct RootSigTable {
    pub typ: ViewType,
    pub register: u32,
    pub number: u32,
    pub space: u32,
}

#[derive(Clone, Copy, Debug, Eq, Hash, PartialEq, Structural)]
pub struct RootSigView {
    pub typ: ViewType,
    pub register: u32,
    pub space: u32,
}

#[derive(Clone, Copy, Debug, Eq, Hash, PartialEq, Structural)]
pub struct RootSigConst {
    pub number: u32,
    pub register: u32,
    pub space: u32,
}

#[derive(Clone, Copy, Debug, Eq, Hash, PartialEq, Structural)]
pub enum RootSigEntry {
    Table(RootSigTable),
    /// UAV or SRV
    View(RootSigView),
    Const(RootSigConst),
}

impl DeepView for RootSigEntry {
    type V = RootSigEntry;

    open spec fn deep_view(&self) -> RootSigEntry {
        *self
    }
}

#[derive(Clone, Copy, Debug, Eq, Hash, PartialEq, Structural)]
pub enum PipelineType {
    Compute,
}

impl DeepView for PipelineType {
    type V = PipelineType;

    open spec fn deep_view(&self) -> PipelineType {
        *self
    }
}

#[derive(Clone, Copy, Debug, Eq, Hash, PartialEq, Structural)]
pub enum PipelineStateObjectType {
    Pipeline,
    Collection,
}

/// A view, bound at a place of the root signature.
#[derive(Clone, Debug, Eq, Hash, PartialEq)]
pub struct Bind<S> {
    pub index: u32,
    pub view: SpanObj<S>,
}

impl<S: DeepView> DeepView for Bind<S> {
    type V = Bind<S::V>;

    open spec fn deep_view(&self) -> Bind<S::V> {
        Bind { index: self.index, view: self.view.deep_view() }
    }
}

/// A buffer, bound at a place of the root signature.
#[derive(Clone, Debug, Eq, Hash, PartialEq)]
pub struct RootValView<S> {
    pub index: u32,
    /// Always set for global root signatures, not set for local root signatures.
    pub typ: Option<ViewType>,
    pub buffer: SpanObj<S>,
}

impl<S: DeepView> DeepView for RootValView<S> {
    type V = RootValView<S::V>;

    open spec fn deep_view(&self) -> RootValView<S::V> {
        RootValView { index: self.index, typ: self.typ, buffer: self.buffer.deep_view() }
    }
}

/// Constants at a place of the root signature.
#[derive(Clone, Debug, Eq, Hash, PartialEq)]
pub struct UnresolvedRootValConst {
    pub index: u32,
    pub content: UnresolvedValueContent,
}

/// The view of `UnresolvedRootValConst`.
pub struct RootValConstView {
    pub index: u32,
    pub content: ValueContentView,
}

impl DeepView for UnresolvedRootValConst {
    type V = RootValConstView;

    open spec fn deep_view(&self) -> RootValConstView {
        RootValConstView { index: self.index, content: self.content.deep_view() }
    }
}

/// The values for a root signature.
#[derive(Clone, Debug, Default, Eq, Hash, PartialEq)]
pub struct UnresolvedRootVal {
    pub binds: Vec<Bind<String>>,
    pub consts: Vec<UnresolvedRootValConst>,
    pub views: Vec<RootValView<String>>,
}

/// The view of `UnresolvedRootVal`.
pub struct RootValsView {
    pub binds: Seq<Bind<Seq<char>>>,
    pub consts: Seq<RootValConstView>,
    pub views: Seq<RootValView<Seq<char>>>,
}

impl RootValsView {
    /// No values.
    pub open spec fn empty() -> RootValsView {
        RootValsView { binds: Seq::empty(), consts: Seq::empty(), views: Seq::empty() }
    }
}

impl DeepView for UnresolvedRootVal {
    type V = RootValsView;

    open spec fn deep_view(&self) -> RootValsView {
        RootValsView {
            binds: self.binds.deep_view(),
            consts: self.consts.deep_view(),
            views: self.views.deep_view(),
        }
    }
}

#[derive(Clone, Copy, Debug, Default, Eq, Hash, PartialEq, Structural)]
pub struct Dim3 {
    pub x: u32,
    pub y: u32,
    pub z: u32,
}

impl DeepView for Dim3 {
    type V = Dim3;

    open spec fn deep_view(&self) -> Dim3 {
        *self
    }
}

#[derive(Clone, Debug, Eq, Hash, PartialEq)]
pub struct Vertex<S> {
    pub x: NumberLiteral<S>,
    pub y: NumberLiteral<S>,
    pub z: NumberLiteral<S>,
}

impl<S: DeepView> DeepView for Vertex<S> {
    type V = Vertex<S::V>;

    open spec fn deep_view(&self) -> Vertex<S::V> {
        Vertex { x: self.x.deep_view(), y: self.y.deep_view(), z: self.z.deep_view() }
    }
}

/// A row of a transformation matrix.
#[derive(Clone, Debug, Eq, Hash, PartialEq)]
pub struct TransformRow<S> {
    pub x: NumberLiteral<S>,
    pub y: NumberLiteral<S>,
    pub z: NumberLiteral<S>,
    pub w: NumberLiteral<S>,
}

impl<S: DeepView> DeepView for TransformRow<S> {
    type V = TransformRow<S::V>;

    open spec fn deep_view(&self) -> TransformRow<S::V> {
        TransformRow {
            x: self.x.deep_view(),
            y: self.y.deep_view(),
            z: self.z.deep_view(),
            w: self.w.deep_view(),
        }
    }
}

/// 4x3 transformation matrix, stored row-major. (`float[3][4]` in C++)
#[derive(Clone, Debug, Eq, Hash, PartialEq)]
pub struct Transform<S> {
    pub row0: TransformRow<S>,
    pub row1: TransformRow<S>,
    pub row2: TransformRow<S>,
}

impl<S: DeepView> DeepView for Transform<S> {
    type V = Transform<S::V>;

    open spec fn deep_view(&self) -> Transform<S::V> {
        Transform {
            row0: self.row0.deep_view(),
            row1: self.row1.deep_view(),
            row2: self.row2.deep_view(),
        }
    }
}

#[derive(Clone, Debug, Eq, Hash, PartialEq)]
pub struct Aabb<S> {
    pub min: Vertex<S>,
    pub max: Vertex<S>,
}

impl<S: DeepView> DeepView for Aabb<S> {
    type V = Aabb<S::V>;

    open spec fn deep_view(&self) -> Aabb<S::V> {
        Aabb { min: self.min.deep_view(), max: self.max.deep_view() }
    }
}

/// Procedural geometry in a blas.
#[derive(Clone, Debug, Eq, Hash, PartialEq)]
pub struct ProceduralGeometry {
    pub aabbs: Vec<Aabb<String>>,
    pub config: u32,
}

/// The view of `ProceduralGeometry`.
pub struct ProceduralGeometryView {
    pub aabbs: Seq<Aabb<Seq<char>>>,
    pub config: u32,
}

impl DeepView for ProceduralGeometry {
    type V = ProceduralGeometryView;

    open spec fn deep_view(&self) -> ProceduralGeometryView {
        ProceduralGeometryView { aabbs: self.aabbs.deep_view(), config: self.config }
    }
}

/// Triangle geometry in a blas.
#[derive(Clone, Debug, Eq, Hash, PartialEq)]
pub struct TriangleGeometry {
    pub vertices: Vec<Vertex<String>>,
    pub transform: Option<Transform<String>>,
    pub config: u32,
}

/// The view of `TriangleGeometry`.
pub struct TriangleGeometryView {
    pub vertices: Seq<Vertex<Seq<char>>>,
    pub transform: Option<Transform<Seq<char>>>,
    pub config: u32,
}

impl DeepView for TriangleGeometry {
    type V = TriangleGeometryView;

    open spec fn deep_view(&self) -> TriangleGeometryView {
        TriangleGeometryView {
            vertices: self.vertices.deep_view(),
            transform: self.transform.deep_view(),
            config: self.config,
        }
    }
}

/// Blas reference in a tlas.
#[derive(Clone, Debug, Eq, Hash, PartialEq)]
pub struct TlasBlas<S> {
    pub name: SpanObj<S>,
    pub id: Option<u32>,
    pub mask: Option<u8>,
    pub index_contrib: Option<u32>,
    pub transform: Option<Transform<S>>,
    pub config: u32,
}

impl<S: DeepView> DeepView for TlasBlas<S> {
    type V = TlasBlas<S::V>;

    open spec fn deep_view(&self) -> TlasBlas<S::V> {
        TlasBlas {
            name: self.name.deep_view(),
            id: self.id,
            mask: self.mask,
            index_contrib: self.index_contrib,
            transform: self.transform.deep_view(),
            config: self.config,
        }
    }
}

/// How the record of a shader table names its shader.
#[derive(Clone, Debug, Eq, Hash, PartialEq)]
pub enum ShaderReference<S> {
    /// No shader at all
    Null,
    Name(SpanObj<S>),
    ShaderId(SpanObj<S>),
}

impl<S: DeepView> DeepView for ShaderReference<S> {
    type V = ShaderReference<S::V>;

    open spec fn deep_view(&self) -> ShaderReference<S::V> {
        match self {
            ShaderReference::Null => ShaderReference::Null,
            ShaderReference::Name(n) => ShaderReference::Name(n.deep_view()),
            ShaderReference::ShaderId(n) => ShaderReference::ShaderId(n.deep_view()),
        }
    }
}

/// A record of a shader table.
#[derive(Clone, Debug, Eq, Hash, PartialEq)]
pub struct UnresolvedShaderTableRecord {
    pub index: u32,
    pub shader: ShaderReference<String>,
    pub root_val: UnresolvedRootVal,
}

/// The view of `UnresolvedShaderTableRecord`.
pub struct ShaderTableRecordView {
    pub index: u32,
    pub shader: ShaderReference<Seq<char>>,
    pub root_val: RootValsView,
}

impl DeepView for UnresolvedShaderTableRecord {
    type V = ShaderTableRecordView;

    open spec fn deep_view(&self) -> ShaderTableRecordView {
        ShaderTableRecordView {
            index: self.index,
            shader: self.shader.deep_view(),
            root_val: self.root_val.deep_view(),
        }
    }
}

#[derive(Clone, Debug, Eq, Hash, PartialEq)]
pub struct Export<S> {
    pub name: S,
    pub to_rename: Option<S>,
}

impl<S: DeepView> DeepView for Export<S> {
    type V = Export<S::V>;

    open spec fn deep_view(&self) -> Export<S::V> {
        Export { name: self.name.deep_view(), to_rename: self.to_rename.deep_view() }
    }
}

/// Library or collection with associated exports
#[derive(Clone, Debug, Eq, Hash, PartialEq)]
pub struct LinkObject {
    pub name: Identifier,
    pub exports: Vec<Export<String>>,
}

/// The view of `LinkObject`.
pub struct LinkObjectView {
    pub name: IdentifierView,
    pub exports: Seq<Export<Seq<char>>>,
}

impl DeepView for LinkObject {
    type V = LinkObjectView;

    open spec fn deep_view(&self) -> LinkObjectView {
        LinkObjectView { name: self.name.deep_view(), exports: self.exports.deep_view() }
    }
}

#[derive(Clone, Debug, Eq, Hash, PartialEq)]
pub struct HitGroup<S> {
    pub name: SpanObj<S>,
    pub any_hit: Option<SpanObj<S>>,
    pub closest_hit: Option<SpanObj<S>>,
    pub intersection: Option<SpanObj<S>>,
}

impl<S: DeepView> DeepView for HitGroup<S> {
    type V = HitGroup<S::V>;

    open spec fn deep_view(&self) -> HitGroup<S::V> {
        HitGroup {
            name: self.name.deep_view(),
            any_hit: self.any_hit.deep_view(),
            closest_hit: self.closest_hit.deep_view(),
            intersection: self.intersection.deep_view(),
        }
    }
}

/// The shader tables of a raytracing dispatch.
#[derive(Clone, Copy, Debug, Eq, Hash, PartialEq)]
pub struct RayTables<T> {
    pub raygen: Option<T>,
    pub miss: Option<T>,
    pub hit_group: Option<T>,
    pub callable: Option<T>,
}

impl<T: DeepView> DeepView for RayTables<T> {
    type V = RayTables<T::V>;

    open spec fn deep_view(&self) -> RayTables<T::V> {
        RayTables {
            raygen: self.raygen.deep_view(),
            miss: self.miss.deep_view(),
            hit_group: self.hit_group.deep_view(),
            callable: self.callable.deep_view(),
        }
    }
}

/// Different types of dispatches
#[derive(Clone, Debug, Eq, Hash, PartialEq)]
pub enum DispatchType<S> {
    /// Compute dispatch
    Dispatch { dimensions: Dim3 },
    DispatchRays { dimensions: Dim3, tables: RayTables<SpanObj<S>> },
    ExecuteIndirect {
        signature: SpanObj<S>,
        argument_buffer: SpanObj<S>,
        argument_offset: Option<u64>,
        count_buffer: Option<SpanObj<S>>,
        count_offset: Option<u64>,
        max_commands: u32,
    },
}

impl<S: DeepView> DeepView for DispatchType<S> {
    type V = DispatchType<S::V>;

    open spec fn deep_view(&self) -> DispatchType<S::V> {
        match self {
            DispatchType::Dispatch { dimensions } => DispatchType::Dispatch {
                dimensions: *dimensions,
            },
            DispatchType::DispatchRays { dimensions, tables } => DispatchType::DispatchRays {
                dimensions: *dimensions,
                tables: tables.deep_view(),
            },
            DispatchType::ExecuteIndirect {
                signature,
                argument_buffer,
                argument_offset,
                count_buffer,
                count_offset,
                max_commands,
            } => DispatchType::ExecuteIndirect {
                signature: signature.deep_view(),
                argument_buffer: argument_buffer.deep_view(),
                argument_offset: *argument_offset,
                count_buffer: count_buffer.deep_view(),
                count_offset: *count_offset,
                max_commands: *max_commands,
            },
        }
    }
}

#[derive(Clone, Copy, Debug, Eq, Hash, PartialEq, Structural)]
pub enum CommandSignatureArgument {
    Constant {
        index: u32,
        /// In 32 bit values
        number: u32,
        /// In bytes, must be a multiple of 4
        offset: u32,
    },
    View { typ: ViewType, index: u32 },
    Dispatch,
    DispatchRays,
}

impl DeepView for CommandSignatureArgument {
    type V = CommandSignatureArgument;

    open spec fn deep_view(&self) -> CommandSignatureArgument {
        *self
    }
}

/// A length of time.
#[derive(Clone, Copy, Debug, Default, Eq, Hash, PartialEq, Structural)]
pub struct TimeSpan {
    pub seconds: u64,
    /// Less than a second
    pub nanoseconds: u32,
}

impl DeepView for TimeSpan {
    type V = TimeSpan;

    open spec fn deep_view(&self) -> TimeSpan {
        *self
    }
}

/// A directive in a script file
#[derive(Clone, Debug, Eq, Hash, PartialEq)]
pub enum Directive {
    Source { name: Identifier, content: String },
    Object {
        name: Identifier,
        source: Identifier,
        shader_model: String,
        entrypoint: Option<String>,
        args: Vec<String>,
    },
    ObjectDxil { name: Identifier, content: String },
    Blas {
        name: Identifier,
        procedurals: Vec<ProceduralGeometry>,
        triangles: Vec<TriangleGeometry>,
        config: u32,
    },
    Tlas { name: Identifier, blas: Vec<TlasBlas<String>>, config: u32 },
    Buffer { name: Identifier, content: UnresolvedValueContent },
    RootSig { name: Identifier, entries: Vec<RootSigEntry>, config: u32 },
    RootSigDxil { name: Identifier, object: Identifier },
    ShaderId {
        name: Identifier,
        pipeline_state_object: Identifier,
        shader_name: Identifier,
    },
    ShaderTable {
        name: Identifier,
        pipeline_state_object: Identifier,
        records: Vec<UnresolvedShaderTableRecord>,
    },
    Pipeline {
        name: Identifier,
        typ: PipelineType,
        shaders: Vec<Identifier>,
        /// Root signature
        root_sig: Option<Identifier>,
    },
    PipelineStateObject {
        name: Identifier,
        typ: PipelineStateObjectType,
        add_to: Option<Identifier>,
        libs: Vec<LinkObject>,
        collections: Vec<LinkObject>,
        hit_groups: Vec<HitGroup<String>>,
        config: u32,
    },
    View {
        name: Identifier,
        /// The buffer can be null for raytracing acceleration structures
        buffer: Option<Identifier>,
        typ: InputViewType,
    },
    CommandSignature {
        name: Identifier,
        stride: Option<u32>,
        arguments: Vec<CommandSignatureArgument>,
        root_sig: Option<Identifier>,
    },
    Dispatch {
        identifier: Identifier,
        pipeline: Identifier,
        root_val: UnresolvedRootVal,
        root_sig: Option<Identifier>,
        typ: DispatchType<String>,
    },
    Include { identifier: Identifier, path: Identifier },
    Sleep { identifier: Identifier, duration: SpanObj<TimeSpan> },
    Dump {
        identifier: Identifier,
        resource: Identifier,
        typ: DumpDataType,
        /// Not zero
        print_stride: Option<u64>,
        format: DumpFormat,
    },
    Expect {
        identifier: Identifier,
        resource: Identifier,
        epsilon: Option<SpanObj<UnresolvedValue<String>>>,
        offset: SpanObj<u64>,
        values: Vec<UnresolvedValue<String>>,
        /// The values as they are written
        value_spans: Vec<Identifier>,
    },
    AssertShaderId {
        identifier: Identifier,
        /// `true` for equal, `false` for not equal
        equal: bool,
        id_a: Identifier,
        id_b: Identifier,
    },
}

/// The view of `Directive`.
pub enum DirectiveView {
    Source { name: IdentifierView, content: Seq<char> },
    Object {
        name: IdentifierView,
        source: IdentifierView,
        shader_model: Seq<char>,
        entrypoint: Option<Seq<char>>,
        args: Seq<Seq<char>>,
    },
    ObjectDxil { name: IdentifierView, content: Seq<char> },
    Blas {
        name: IdentifierView,
        procedurals: Seq<ProceduralGeometryView>,
        triangles: Seq<TriangleGeometryView>,
        config: u32,
    },
    Tlas { name: IdentifierView, blas: Seq<TlasBlas<Seq<char>>>, config: u32 },
    Buffer { name: IdentifierView, content: ValueContentView },
    RootSig { name: IdentifierView, entries: Seq<RootSigEntry>, config: u32 },
    RootSigDxil { name: IdentifierView, object: IdentifierView },
    ShaderId {
        name: IdentifierView,
        pipeline_state_object: IdentifierView,
        shader_name: IdentifierView,
    },
    ShaderTable {
        name: IdentifierView,
        pipeline_state_object: IdentifierView,
        records: Seq<ShaderTableRecordView>,
    },
    Pipeline {
        name: IdentifierView,
        typ: PipelineType,
        shaders: Seq<IdentifierView>,
        root_sig: Option<IdentifierView>,
    },
    PipelineStateObject {
        name: IdentifierView,
        typ: PipelineStateObjectType,
        add_to: Option<IdentifierView>,
        libs: Seq<LinkObjectView>,
        collections: Seq<LinkObjectView>,
        hit_groups: Seq<HitGroup<Seq<char>>>,
        config: u32,
    },
    View { name: IdentifierView, buffer: Option<IdentifierView>, typ: InputViewType },
    CommandSignature {
        name: IdentifierView,
        stride: Option<u32>,
        arguments: Seq<CommandSignatureArgument>,
        root_sig: Option<IdentifierView>,
    },
    Dispatch {
        identifier: IdentifierView,
        pipeline: IdentifierView,
        root_val: RootValsView,
        root_sig: Option<IdentifierView>,
        typ: DispatchType<Seq<char>>,
    },
    Include { identifier: IdentifierView, path: IdentifierView },
    Sleep { identifier: IdentifierView, duration: SpanObj<TimeSpan> },
    Dump {
        identifier: IdentifierView,
        resource: IdentifierView,
        typ: DumpDataType,
        print_stride: Option<u64>,
        format: DumpFormat,
    },
    Expect {
        identifier: IdentifierView,
        resource: IdentifierView,
        epsilon: Option<SpanObj<UnresolvedValue<Seq<char>>>>,
        offset: SpanObj<u64>,
        values: Seq<UnresolvedValue<Seq<char>>>,
        value_spans: Seq<IdentifierView>,
    },
    AssertShaderId {
        identifier: IdentifierView,
        equal: bool,
        id_a: IdentifierView,
        id_b: IdentifierView,
    },
}

impl DeepView for Directive {
    type V = DirectiveView;

    open spec fn deep_view(&self) -> DirectiveView {
        match self {
            Directive::Source { name, content } => DirectiveView::Source {
                name: name.deep_view(),
                content: content@,
            },
            Directive::Object { name, source, shader_model, entrypoint, args } =>
                DirectiveView::Object {
                name: name.deep_view(),
                source: source.deep_view(),
                shader_model: shader_model@,
                entrypoint: entrypoint.deep_view(),
                args: args.deep_view(),
            },
            Directive::ObjectDxil { name, content } => DirectiveView::ObjectDxil {
                name: name.deep_view(),
                content: content@,
            },
            Directive::Blas { name, procedurals, triangles, config } => DirectiveView::Blas {
                name: name.deep_view(),
                procedurals: procedurals.deep_view(),
                triangles: triangles.deep_view(),
                config: *config,
            },
            Directive::Tlas { name, blas, config } => DirectiveView::Tlas {
                name: name.deep_view(),
                blas: blas.deep_view(),
                config: *config,
            },
            Directive::Buffer { name, content } => DirectiveView::Buffer {
                name: name.deep_view(),
                content: content.deep_view(),
            },
            Directive::RootSig { name, entries, config } => DirectiveView::RootSig {
                name: name.deep_view(),
                entries: entries.deep_view(),
                config: *config,
            },
            Directive::RootSigDxil { name, object } => DirectiveView::RootSigDxil {
                name: name.deep_view(),
                object: object.deep_view(),
            },
            Directive::ShaderId { name, pipeline_state_object, shader_name } =>
                DirectiveView::ShaderId {
                name: name.deep_view(),
                pipeline_state_object: pipeline_state_object.deep_view(),
                shader_name: shader_name.deep_view(),
            },
            Directive::ShaderTable { name, pipeline_state_object, records } =>
                DirectiveView::ShaderTable {
                name: name.deep_view(),
                pipeline_state_object: pipeline_state_object.deep_view(),
                records: records.deep_view(),
            },
            Directive::Pipeline { name, typ, shaders, root_sig } => DirectiveView::Pipeline {
                name: name.deep_view(),
                typ: *typ,
                shaders: shaders.deep_view(),
                root_sig: root_sig.deep_view(),
            },
            Directive::PipelineStateObject {
                name,
                typ,
                add_to,
                libs,
                collections,
                hit_groups,
                config,
            } => DirectiveView::PipelineStateObject {
                name: name.deep_view(),
                typ: *typ,
                add_to: add_to.deep_view(),
                libs: libs.deep_view(),
                collections: collections.deep_view(),
                hit_groups: hit_groups.deep_view(),
                config: *config,
            },
            Directive::View { name, buffer, typ } => DirectiveView::View {
                name: name.deep_view(),
                buffer: buffer.deep_view(),
                typ: *typ,
            },
            Directive::CommandSignature { name, stride, arguments, root_sig } =>
                DirectiveView::CommandSignature {
                name: name.deep_view(),
                stride: *stride,
                arguments: arguments.deep_view(),
                root_sig: root_sig.deep_view(),
            },
            Directive::Dispatch { identifier, pipeline, root_val, root_sig, typ } =>
                DirectiveView::Dispatch {
                identifier: identifier.deep_view(),
                pipeline: pipeline.deep_view(),
                root_val: root_val.deep_view(),
                root_sig: root_sig.deep_view(),
                typ: typ.deep_view(),
            },
            Directive::Include { identifier, path } => DirectiveView::Include {
                identifier: identifier.deep_view(),
                path: path.deep_view(),
            },
            Directive::Sleep { identifier, duration } => DirectiveView::Sleep {
                identifier: identifier.deep_view(),
                duration: *duration,
            },
            Directive::Dump { identifier, resource, typ, print_stride, format } =>
                DirectiveView::Dump {
                identifier: identifier.deep_view(),
                resource: resource.deep_view(),
                typ: *typ,
                print_stride: *print_stride,
                format: *format,
            },
            Directive::Expect { identifier, resource, epsilon, offset, values, value_spans } =>
                DirectiveView::Expect {
                identifier: identifier.deep_view(),
                resource: resource.deep_view(),
                epsilon: epsilon.deep_view(),
                offset: *offset,
                values: values.deep_view(),
                value_spans: value_spans.deep_view(),
            },
            Directive::AssertShaderId { identifier, equal, id_a, id_b } =>
                DirectiveView::AssertShaderId {
                identifier: identifier.deep_view(),
                equal: *equal,
                id_a: id_a.deep_view(),
                id_b: id_b.deep_view(),
            },
        }
    }
}

impl DirectiveView {
    /// The name that a directive gives to its result, or the word that it starts with.
    pub open spec fn identifier(self) -> IdentifierView {
        match self {
            DirectiveView::Source { name, .. } => name,
            DirectiveView::Object { name, .. } => name,
            DirectiveView::ObjectDxil { name, .. } => name,
            DirectiveView::Blas { name, .. } => name,
            DirectiveView::Tlas { name, .. } => name,
            DirectiveView::Buffer { name, .. } => name,
            DirectiveView::RootSig { name, .. } => name,
            DirectiveView::RootSigDxil { name, .. } => name,
            DirectiveView::ShaderId { name, .. } => name,
            DirectiveView::ShaderTable { name, .. } => name,
            DirectiveView::Pipeline { name, .. } => name,
            DirectiveView::PipelineStateObject { name, .. } => name,
            DirectiveView::View { name, .. } => name,
            DirectiveView::CommandSignature { name, .. } => name,
            DirectiveView::Dispatch { identifier, .. } => identifier,
            DirectiveView::Include { identifier, .. } => identifier,
            DirectiveView::Sleep { identifier, .. } => identifier,
            DirectiveView::Dump { identifier, .. } => identifier,
            DirectiveView::Expect { identifier, .. } => identifier,
            DirectiveView::AssertShaderId { identifier, .. } => identifier,
        }
    }
}

impl Directive {
    /// The name that the directive gives to its result, or the word that it starts with.
    pub fn get_identifier(&self) -> (id: &Identifier)
        ensures
            id.deep_view() == self.deep_view().identifier(),
    {
        match self {
            Directive::Source { name, .. } => name,
            Directive::Object { name, .. } => name,
            Directive::ObjectDxil { name, .. } => name,
            Directive::Blas { name, .. } => name,
            Directive::Tlas { name, .. } => name,
            Directive::Buffer { name, .. } => name,
            Directive::RootSig { name, .. } => name,
            Directive::RootSigDxil { name, .. } => name,
            Directive::ShaderId { name, .. } => name,
            Directive::ShaderTable { name, .. } => name,
            Directive::Pipeline { name, .. } => name,
            Directive::PipelineStateObject { name, .. } => name,
            Directive::View { name, .. } => name,
            Directive::CommandSignature { name, .. } => name,
            Directive::Dispatch { identifier, .. } => identifier,
            Directive::Include { identifier, .. } => identifier,
            Directive::Sleep { identifier, .. } => identifier,
            Directive::Dump { identifier, .. } => identifier,
            Directive::Expect { identifier, .. } => identifier,
            Directive::AssertShaderId { identifier, .. } => identifier,
        }
    }
}

/// An empty list.
pub fn new_list<T: DeepView>() -> (list: Vec<T>)
    ensures
        list.deep_view() == Seq::<T::V>::empty(),
        list@ == Seq::<T>::empty(),
{
    let list: Vec<T> = Vec::new();
    assert(list.deep_view() =~= Seq::<T::V>::empty());
    list
}

/// Puts the items of one list behind another.
pub fn append_items<T: DeepView>(list: &mut Vec<T>, mut more: Vec<T>)
    ensures
        final(list).deep_view() == old(list).deep_view() + more.deep_view(),
{
    let ghost added = more@;
    list.append(&mut more);
    assert(list@ =~= old(list)@ + added);
    assert(list.deep_view() =~= old(list).deep_view() + Seq::new(
        added.len(),
        |i: int| added[i].deep_view(),
    ));
}

/// Puts an item behind a list.
pub fn push_item<T: DeepView>(list: &mut Vec<T>, item: T)
    ensures
        final(list).deep_view() == old(list).deep_view().push(item.deep_view()),
{
    list.push(item);
    assert(list.deep_view() =~= old(list).deep_view().push(item.deep_view()));
}

} // verus!
