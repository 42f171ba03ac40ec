//! Running statements: what a statement asks of the backend.
//!
//! A statement is run in two steps. The first one, here, names the object that the statement
//! makes and looks up the objects that it uses. What comes out is an `Action` for the backend.
use std::collections::HashMap;

use vstd::prelude::*;
use vstd::std_specs::hash::*;

use crate::content::written_values;
use crate::names::{
    added, find, lemma_added, lemma_find, lookup_type, lookup_types, names_ok, result_view,
    ExpectedTypes, IdentifierIdx, IdentifierType, NameError, Names, NamesView,
};
use crate::script::{
    new_list, push_item, Bind, Directive, DirectiveView, DispatchType, DumpDataType, Fill,
    InputViewType, LinkObject, NumberLiteral, RayTables, RootValConstView, RootValView,
    RootValsView, ShaderReference, ShaderTableRecordView, TlasBlas, UnresolvedRootVal,
    UnresolvedRootValConst, UnresolvedShaderTableRecord, UnresolvedValue, UnresolvedValueContent,
};
use crate::source::{copy_identifier, Identifier, IdentifierView, SpanObj};

verus! {

/// What has to be known of a value before it can be used.
#[derive(Clone, Debug, Eq, Hash, PartialEq)]
pub enum Query<S> {
    /// Nothing, the script says it all.
    Known,
    /// The address of an object on the GPU.
    Address { id: IdentifierIdx, typ: IdentifierType },
    /// The bits of a 32-bit floating-point number.
    F32(NumberLiteral<S>),
    /// The bits of a 16-bit floating-point number.
    F16(NumberLiteral<S>),
}

impl<S: DeepView> DeepView for Query<S> {
    type V = Query<S::V>;

    open spec fn deep_view(&self) -> Query<S::V> {
        match self {
            Query::Known => Query::Known,
            Query::Address { id, typ } => Query::Address { id: *id, typ: *typ },
            Query::F32(n) => Query::F32(n.deep_view()),
            Query::F16(n) => Query::F16(n.deep_view()),
        }
    }
}

/// The objects for a root signature, and what has to be known of its constants.
#[derive(Clone, Debug, Eq, Hash, PartialEq)]
pub struct RootVal {
    pub binds: Vec<IdentifierIdx>,
    pub consts: Vec<Vec<Query<String>>>,
    pub views: Vec<IdentifierIdx>,
}

/// The view of `RootVal`.
pub struct RootObjectsView {
    pub binds: Seq<IdentifierIdx>,
    pub consts: Seq<Seq<Query<Seq<char>>>>,
    pub views: Seq<IdentifierIdx>,
}

impl DeepView for RootVal {
    type V = RootObjectsView;

    open spec fn deep_view(&self) -> RootObjectsView {
        RootObjectsView {
            binds: self.binds.deep_view(),
            consts: self.consts.deep_view(),
            views: self.views.deep_view(),
        }
    }
}

/// The two kinds of pipelines that an indirect dispatch can run.
#[derive(Clone, Copy, Debug, Eq, Hash, PartialEq, Structural)]
pub enum PipelineKind {
    Pipeline,
    PipelineStateObject,
}

/// The objects of a dispatch.
#[derive(Clone, Copy, Debug, Eq, Hash, PartialEq)]
pub enum DispatchContent {
    Dispatch,
    DispatchRays { tables: RayTables<IdentifierIdx> },
    ExecuteIndirect {
        signature: IdentifierIdx,
        pipeline_kind: PipelineKind,
        argument_buffer: IdentifierIdx,
        count_buffer: Option<IdentifierIdx>,
    },
}

/// What a statement asks for.
#[derive(Clone, Debug, Eq, Hash, PartialEq)]
pub enum Action {
    /// Nothing more.
    Nothing,
    Compile { id: IdentifierIdx, source: IdentifierIdx },
    CompileDxil { id: IdentifierIdx },
    CreateBlas { id: IdentifierIdx },
    CreateTlas { id: IdentifierIdx, blas: Vec<IdentifierIdx> },
    CreateBuffer { id: IdentifierIdx, queries: Vec<Query<String>> },
    CreateRootSig { id: IdentifierIdx },
    CreateRootSigDxil { id: IdentifierIdx, object: IdentifierIdx },
    CreateShaderId { id: IdentifierIdx, pso: IdentifierIdx },
    CreateShaderTable {
        id: IdentifierIdx,
        pso: IdentifierIdx,
        root_vals: Vec<RootVal>,
        shaders: Vec<Option<IdentifierIdx>>,
    },
    CreateComputePipeline {
        id: IdentifierIdx,
        shader: IdentifierIdx,
        root_sig: Option<IdentifierIdx>,
    },
    CreatePipelineStateObject {
        id: IdentifierIdx,
        add_to: Option<IdentifierIdx>,
        libs: Vec<IdentifierIdx>,
        collections: Vec<IdentifierIdx>,
    },
    CreateView { id: IdentifierIdx, buffer: Option<IdentifierIdx> },
    CreateCommandSignature { id: IdentifierIdx, root_sig: Option<IdentifierIdx> },
    Dispatch {
        pipeline: IdentifierIdx,
        root_val: RootVal,
        content: DispatchContent,
        root_sig: Option<IdentifierIdx>,
    },
    /// Read and run another script.
    Include,
    Sleep,
    /// Print the content of a buffer.
    DumpBuffer { resource: IdentifierIdx },
    /// Print an object.
    DumpDxil { object: IdentifierIdx },
    /// Compare the content of a buffer.
    Expect { resource: IdentifierIdx, queries: Vec<Query<String>> },
    /// Compare two shader identifiers.
    CompareShaderIds { id_a: IdentifierIdx, id_b: IdentifierIdx },
}

/// The view of `Action`.
pub enum ActionView {
    Nothing,
    Compile { id: IdentifierIdx, source: IdentifierIdx },
    CompileDxil { id: IdentifierIdx },
    CreateBlas { id: IdentifierIdx },
    CreateTlas { id: IdentifierIdx, blas: Seq<IdentifierIdx> },
    CreateBuffer { id: IdentifierIdx, queries: Seq<Query<Seq<char>>> },
    CreateRootSig { id: IdentifierIdx },
    CreateRootSigDxil { id: IdentifierIdx, object: IdentifierIdx },
    CreateShaderId { id: IdentifierIdx, pso: IdentifierIdx },
    CreateShaderTable {
        id: IdentifierIdx,
        pso: IdentifierIdx,
        root_vals: Seq<RootObjectsView>,
        shaders: Seq<Option<IdentifierIdx>>,
    },
    CreateComputePipeline {
        id: IdentifierIdx,
        shader: IdentifierIdx,
        root_sig: Option<IdentifierIdx>,
    },
    CreatePipelineStateObject {
        id: IdentifierIdx,
        add_to: Option<IdentifierIdx>,
        libs: Seq<IdentifierIdx>,
        collections: Seq<IdentifierIdx>,
    },
    CreateView { id: IdentifierIdx, buffer: Option<IdentifierIdx> },
    CreateCommandSignature { id: IdentifierIdx, root_sig: Option<IdentifierIdx> },
    Dispatch {
        pipeline: IdentifierIdx,
        root_val: RootObjectsView,
        content: DispatchContent,
        root_sig: Option<IdentifierIdx>,
    },
    Include,
    Sleep,
    DumpBuffer { resource: IdentifierIdx },
    DumpDxil { object: IdentifierIdx },
    Expect { resource: IdentifierIdx, queries: Seq<Query<Seq<char>>> },
    CompareShaderIds { id_a: IdentifierIdx, id_b: IdentifierIdx },
}

impl DeepView for Action {
    type V = ActionView;

    open spec fn deep_view(&self) -> ActionView {
        match self {
            Action::Nothing => ActionView::Nothing,
            Action::Compile { id, source } => ActionView::Compile { id: *id, source: *source },
            Action::CompileDxil { id } => ActionView::CompileDxil { id: *id },
            Action::CreateBlas { id } => ActionView::CreateBlas { id: *id },
            Action::CreateTlas { id, blas } => ActionView::CreateTlas {
                id: *id,
                blas: blas.deep_view(),
            },
            Action::CreateBuffer { id, queries } => ActionView::CreateBuffer {
                id: *id,
                queries: queries.deep_view(),
            },
            Action::CreateRootSig { id } => ActionView::CreateRootSig { id: *id },
            Action::CreateRootSigDxil { id, object } => ActionView::CreateRootSigDxil {
                id: *id,
                object: *object,
            },
            Action::CreateShaderId { id, pso } => ActionView::CreateShaderId {
                id: *id,
                pso: *pso,
            },
            Action::CreateShaderTable { id, pso, root_vals, shaders } =>
                ActionView::CreateShaderTable {
                id: *id,
                pso: *pso,
                root_vals: root_vals.deep_view(),
                shaders: shaders.deep_view(),
            },
            Action::CreateComputePipeline { id, shader, root_sig } =>
                ActionView::CreateComputePipeline {
                id: *id,
                shader: *shader,
                root_sig: *root_sig,
            },
            Action::CreatePipelineStateObject { id, add_to, libs, collections } =>
                ActionView::CreatePipelineStateObject {
                id: *id,
                add_to: *add_to,
                libs: libs.deep_view(),
                collections: collections.deep_view(),
            },
            Action::CreateView { id, buffer } => ActionView::CreateView {
                id: *id,
                buffer: *buffer,
            },
            Action::CreateCommandSignature { id, root_sig } => ActionView::CreateCommandSignature {
                id: *id,
                root_sig: *root_sig,
            },
            Action::Dispatch { pipeline, root_val, content, root_sig } => ActionView::Dispatch {
                pipeline: *pipeline,
                root_val: root_val.deep_view(),
                content: *content,
                root_sig: *root_sig,
            },
            Action::Include => ActionView::Include,
            Action::Sleep => ActionView::Sleep,
            Action::DumpBuffer { resource } => ActionView::DumpBuffer { resource: *resource },
            Action::DumpDxil { object } => ActionView::DumpDxil { object: *object },
            Action::Expect { resource, queries } => ActionView::Expect {
                resource: *resource,
                queries: queries.deep_view(),
            },
            Action::CompareShaderIds { id_a, id_b } => ActionView::CompareShaderIds {
                id_a: *id_a,
                id_b: *id_b,
            },
        }
    }
}

/// A result that may be that names or objects are wrong.
pub type Found<V> = Result<V, NameError<Seq<char>>>;

/// The object that is meant, if one is.
pub open spec fn lookup_optional(
    names: NamesView,
    id: Option<IdentifierView>,
    typ: IdentifierType,
) -> Found<Option<IdentifierIdx>> {
    match id {
        Some(id) => match lookup_type(names, id, typ) {
            Ok(i) => Ok(Some(i)),
            Err(e) => Err(e),
        },
        None => Ok(None),
    }
}

/// The objects that are meant. The first one that is wrong counts.
pub open spec fn lookup_all(
    names: NamesView,
    ids: Seq<IdentifierView>,
    typ: IdentifierType,
) -> Found<Seq<IdentifierIdx>>
    decreases ids.len(),
{
    if ids.len() == 0 {
        Ok(Seq::empty())
    } else {
        match lookup_all(names, ids.drop_last(), typ) {
            Ok(found) => match lookup_type(names, ids.last(), typ) {
                Ok(i) => Ok(found.push(i)),
                Err(e) => Err(e),
            },
            Err(e) => Err(e),
        }
    }
}

/// What has to be known of a value.
pub open spec fn query(names: NamesView, v: UnresolvedValue<Seq<char>>) -> Found<Query<Seq<char>>> {
    match v {
        UnresolvedValue::Resolved(_) => Ok(Query::Known),
        UnresolvedValue::F32(n) => Ok(Query::F32(n)),
        UnresolvedValue::F16(n) => Ok(Query::F16(n)),
        UnresolvedValue::Gpuva(id) => match lookup_types(names, id, ExpectedTypes::Addressable) {
            Ok(i) => Ok(Query::Address { id: i, typ: names[i.0 as int].1 }),
            Err(e) => Err(e),
        },
    }
}

/// What has to be known of values. The first one that is wrong counts.
pub open spec fn queries(names: NamesView, values: Seq<UnresolvedValue<Seq<char>>>) -> Found<
    Seq<Query<Seq<char>>>,
>
    decreases values.len(),
{
    if values.len() == 0 {
        Ok(Seq::empty())
    } else {
        match queries(names, values.drop_last()) {
            Ok(found) => match query(names, values.last()) {
                Ok(q) => Ok(found.push(q)),
                Err(e) => Err(e),
            },
            Err(e) => Err(e),
        }
    }
}

/// What has to be known of constants. The first value that is wrong counts.
pub open spec fn const_queries(names: NamesView, consts: Seq<RootValConstView>) -> Found<
    Seq<Seq<Query<Seq<char>>>>,
>
    decreases consts.len(),
{
    if consts.len() == 0 {
        Ok(Seq::empty())
    } else {
        match const_queries(names, consts.drop_last()) {
            Ok(found) => match queries(names, written_values(consts.last().content)) {
                Ok(q) => Ok(found.push(q)),
                Err(e) => Err(e),
            },
            Err(e) => Err(e),
        }
    }
}

/// The objects for a root signature.
pub open spec fn root_objects(names: NamesView, vals: RootValsView) -> Found<RootObjectsView> {
    let bound = Seq::new(vals.binds.len(), |i: int| vals.binds[i].view);
    let buffers = Seq::new(vals.views.len(), |i: int| vals.views[i].buffer);
    match lookup_all(names, bound, IdentifierType::View) { Err(e) => Err(e), Ok(binds) =>
    match const_queries(names, vals.consts) { Err(e) => Err(e), Ok(consts) =>
    match lookup_all(names, buffers, IdentifierType::Buffer) { Err(e) => Err(e), Ok(views) =>
    Ok(RootObjectsView { binds, consts, views })
    }}}
}

/// The objects for the root signatures of the records of a shader table.
pub open spec fn record_objects(names: NamesView, records: Seq<ShaderTableRecordView>) -> Found<
    Seq<RootObjectsView>,
>
    decreases records.len(),
{
    if records.len() == 0 {
        Ok(Seq::empty())
    } else {
        match record_objects(names, records.drop_last()) {
            Ok(found) => match root_objects(names, records.last().root_val) {
                Ok(objects) => Ok(found.push(objects)),
                Err(e) => Err(e),
            },
            Err(e) => Err(e),
        }
    }
}

/// The shader identifier that a record names, if it does.
pub open spec fn shader_object(names: NamesView, shader: ShaderReference<Seq<char>>) -> Found<
    Option<IdentifierIdx>,
> {
    match shader {
        ShaderReference::ShaderId(id) => lookup_optional(
            names,
            Some(id),
            IdentifierType::ShaderId,
        ),
        _ => Ok(None),
    }
}

/// The shader identifiers that the records of a shader table name.
pub open spec fn record_shaders(names: NamesView, records: Seq<ShaderTableRecordView>) -> Found<
    Seq<Option<IdentifierIdx>>,
>
    decreases records.len(),
{
    if records.len() == 0 {
        Ok(Seq::empty())
    } else {
        match record_shaders(names, records.drop_last()) {
            Ok(found) => match shader_object(names, records.last().shader) {
                Ok(shader) => Ok(found.push(shader)),
                Err(e) => Err(e),
            },
            Err(e) => Err(e),
        }
    }
}

/// The objects of a dispatch of a pipeline, and the kind of the pipeline.
pub open spec fn dispatch_objects(
    names: NamesView,
    pipeline: IdentifierView,
    typ: DispatchType<Seq<char>>,
) -> Found<(ExpectedTypes, DispatchContent)> {
    match typ {
        DispatchType::Dispatch { .. } => Ok(
            (ExpectedTypes::One(IdentifierType::Pipeline), DispatchContent::Dispatch),
        ),
        DispatchType::DispatchRays { tables, .. } => {
            let table = IdentifierType::ShaderTable;
            match lookup_optional(names, tables.raygen, table) { Err(e) => Err(e), Ok(raygen) =>
            match lookup_optional(names, tables.miss, table) { Err(e) => Err(e), Ok(miss) =>
            match lookup_optional(names, tables.hit_group, table) { Err(e) => Err(e), Ok(hit_group) =>
            match lookup_optional(names, tables.callable, table) { Err(e) => Err(e), Ok(callable) =>
            Ok((
                ExpectedTypes::One(IdentifierType::PipelineStateObject),
                DispatchContent::DispatchRays {
                    tables: RayTables { raygen, miss, hit_group, callable },
                },
            ))
            }}}}
        },
        DispatchType::ExecuteIndirect { signature, argument_buffer, count_buffer, .. } => {
            let buffer = IdentifierType::Buffer;
            match lookup_types(names, pipeline, ExpectedTypes::Runnable) { Err(e) => Err(e), Ok(i) =>
            match lookup_type(names, signature, IdentifierType::CommandSignature) { Err(e) => Err(e), Ok(signature) =>
            match lookup_type(names, argument_buffer, buffer) { Err(e) => Err(e), Ok(argument_buffer) =>
            match lookup_optional(names, count_buffer, buffer) { Err(e) => Err(e), Ok(count_buffer) =>
            Ok((
                ExpectedTypes::Runnable,
                DispatchContent::ExecuteIndirect {
                    signature,
                    pipeline_kind: if names[i.0 as int].1 == IdentifierType::Pipeline {
                        PipelineKind::Pipeline
                    } else {
                        PipelineKind::PipelineStateObject
                    },
                    argument_buffer,
                    count_buffer,
                },
            ))
            }}}}
        },
    }
}

/// The kind of object that a statement makes, if it makes one.
pub open spec fn made_type(dir: DirectiveView) -> Option<IdentifierType> {
    match dir {
        DirectiveView::Source { .. } => Some(IdentifierType::Source),
        DirectiveView::Object { .. } => Some(IdentifierType::Object),
        DirectiveView::ObjectDxil { .. } => Some(IdentifierType::Object),
        DirectiveView::Blas { .. } => Some(IdentifierType::Blas),
        DirectiveView::Tlas { .. } => Some(IdentifierType::Tlas),
        DirectiveView::Buffer { .. } => Some(IdentifierType::Buffer),
        DirectiveView::RootSig { .. } => Some(IdentifierType::RootSig),
        DirectiveView::RootSigDxil { .. } => Some(IdentifierType::RootSig),
        DirectiveView::ShaderId { .. } => Some(IdentifierType::ShaderId),
        DirectiveView::ShaderTable { .. } => Some(IdentifierType::ShaderTable),
        DirectiveView::Pipeline { .. } => Some(IdentifierType::Pipeline),
        DirectiveView::PipelineStateObject { .. } => Some(IdentifierType::PipelineStateObject),
        DirectiveView::View { .. } => Some(IdentifierType::View),
        DirectiveView::CommandSignature { .. } => Some(IdentifierType::CommandSignature),
        _ => None,
    }
}

/// What a statement asks for. The object that it makes has the number `id` in `names`.
pub open spec fn action(names: NamesView, id: IdentifierIdx, dir: DirectiveView) -> Found<
    ActionView,
> {
    match dir {
        DirectiveView::Source { .. } => Ok(ActionView::Nothing),
        DirectiveView::Object { source, .. } => match lookup_type(
            names,
            source,
            IdentifierType::Source,
        ) {
            Ok(source) => Ok(ActionView::Compile { id, source }),
            Err(e) => Err(e),
        },
        DirectiveView::ObjectDxil { .. } => Ok(ActionView::CompileDxil { id }),
        DirectiveView::Blas { .. } => Ok(ActionView::CreateBlas { id }),
        DirectiveView::Tlas { blas, .. } => {
            let instances = Seq::new(blas.len(), |i: int| blas[i].name);
            match lookup_all(names, instances, IdentifierType::Blas) {
                Ok(blas) => Ok(ActionView::CreateTlas { id, blas }),
                Err(e) => Err(e),
            }
        },
        DirectiveView::Buffer { content, .. } => match queries(names, written_values(content)) {
            Ok(queries) => Ok(ActionView::CreateBuffer { id, queries }),
            Err(e) => Err(e),
        },
        DirectiveView::RootSig { .. } => Ok(ActionView::CreateRootSig { id }),
        DirectiveView::RootSigDxil { object, .. } => match lookup_type(
            names,
            object,
            IdentifierType::Object,
        ) {
            Ok(object) => Ok(ActionView::CreateRootSigDxil { id, object }),
            Err(e) => Err(e),
        },
        DirectiveView::ShaderId { pipeline_state_object, .. } => match lookup_type(
            names,
            pipeline_state_object,
            IdentifierType::PipelineStateObject,
        ) {
            Ok(pso) => Ok(ActionView::CreateShaderId { id, pso }),
            Err(e) => Err(e),
        },
        DirectiveView::ShaderTable { pipeline_state_object, records, .. } => {
            let kind = IdentifierType::PipelineStateObject;
            match lookup_type(names, pipeline_state_object, kind) { Err(e) => Err(e), Ok(pso) =>
            match record_objects(names, records) { Err(e) => Err(e), Ok(root_vals) =>
            match record_shaders(names, records) { Err(e) => Err(e), Ok(shaders) =>
            Ok(ActionView::CreateShaderTable { id, pso, root_vals, shaders })
            }}}
        },
        DirectiveView::Pipeline { name, shaders, root_sig, .. } => match lookup_all(
            names,
            shaders,
            IdentifierType::Object,
        ) {
            Ok(found) => if found.len() != 1 {
                Err(NameError::InvalidShaderCount { name, shader_count: found.len() as usize })
            } else {
                match lookup_optional(names, root_sig, IdentifierType::RootSig) {
                    Ok(root_sig) => Ok(
                        ActionView::CreateComputePipeline { id, shader: found[0], root_sig },
                    ),
                    Err(e) => Err(e),
                }
            },
            Err(e) => Err(e),
        },
        DirectiveView::PipelineStateObject { add_to, libs, collections, .. } => {
            let kind = IdentifierType::PipelineStateObject;
            let lib_names = Seq::new(libs.len(), |i: int| libs[i].name);
            let collection_names = Seq::new(collections.len(), |i: int| collections[i].name);
            match lookup_optional(names, add_to, kind) { Err(e) => Err(e), Ok(add_to) =>
            match lookup_all(names, lib_names, IdentifierType::Object) { Err(e) => Err(e), Ok(libs) =>
            match lookup_all(names, collection_names, kind) { Err(e) => Err(e), Ok(collections) =>
            Ok(ActionView::CreatePipelineStateObject { id, add_to, libs, collections })
            }}}
        },
        DirectiveView::View { name, buffer, typ } => if typ
            != InputViewType::RaytracingAccelStruct && buffer is None {
            Err(NameError::ViewNoBuffer { name })
        } else {
            let kind = if typ == InputViewType::RaytracingAccelStruct {
                IdentifierType::Tlas
            } else {
                IdentifierType::Buffer
            };
            match lookup_optional(names, buffer, kind) {
                Ok(buffer) => Ok(ActionView::CreateView { id, buffer }),
                Err(e) => Err(e),
            }
        },
        DirectiveView::CommandSignature { root_sig, .. } => match lookup_optional(
            names,
            root_sig,
            IdentifierType::RootSig,
        ) {
            Ok(root_sig) => Ok(ActionView::CreateCommandSignature { id, root_sig }),
            Err(e) => Err(e),
        },
        DirectiveView::Dispatch { pipeline, root_val, root_sig, typ, .. } => {
            let root = IdentifierType::RootSig;
            match dispatch_objects(names, pipeline, typ) { Err(e) => Err(e), Ok((kinds, content)) =>
            match lookup_types(names, pipeline, kinds) { Err(e) => Err(e), Ok(pipeline) =>
            match lookup_optional(names, root_sig, root) { Err(e) => Err(e), Ok(root_sig) =>
            match root_objects(names, root_val) { Err(e) => Err(e), Ok(root_val) =>
            Ok(ActionView::Dispatch { pipeline, root_val, content, root_sig })
            }}}}
        },
        DirectiveView::Include { .. } => Ok(ActionView::Include),
        DirectiveView::Sleep { .. } => Ok(ActionView::Sleep),
        DirectiveView::Dump { resource, typ, .. } => match typ {
            DumpDataType::DataType(_) => match lookup_type(
                names,
                resource,
                IdentifierType::Buffer,
            ) {
                Ok(resource) => Ok(ActionView::DumpBuffer { resource }),
                Err(e) => Err(e),
            },
            DumpDataType::Dxil => match lookup_type(names, resource, IdentifierType::Object) {
                Ok(object) => Ok(ActionView::DumpDxil { object }),
                Err(e) => Err(e),
            },
        },
        DirectiveView::Expect { resource, epsilon, values, .. } => {
            let allowed = match epsilon {
                Some(e) => values.push(e.content),
                None => values,
            };
            match lookup_type(names, resource, IdentifierType::Buffer) { Err(e) => Err(e), Ok(resource) =>
            match queries(names, allowed) { Err(e) => Err(e), Ok(queries) =>
            Ok(ActionView::Expect { resource, queries })
            }}
        },
        DirectiveView::AssertShaderId { id_a, id_b, .. } => {
            let kind = IdentifierType::ShaderId;
            match lookup_type(names, id_a, kind) { Err(e) => Err(e), Ok(id_a) =>
            match lookup_type(names, id_b, kind) { Err(e) => Err(e), Ok(id_b) =>
            Ok(ActionView::CompareShaderIds { id_a, id_b })
            }}
        },
    }
}

/// What is known while a script runs.
pub struct StateView {
    pub names: NamesView,
    /// The texts of the sources, by the number of the source.
    pub sources: Map<usize, Seq<char>>,
    /// The contents of buffers that have been read since the last dispatch.
    pub cache: Map<usize, Seq<u8>>,
}

impl StateView {
    /// Nothing is known.
    pub open spec fn empty() -> StateView {
        StateView { names: Seq::empty(), sources: Map::empty(), cache: Map::empty() }
    }
}

/// Running a statement: what is known after it, and what it asks for.
///
/// The object that a statement makes has its name even if something else is wrong with the
/// statement. A dispatch may write to buffers, so what has been read of them is forgotten.
pub open spec fn applied(state: StateView, dir: DirectiveView) -> (StateView, Found<ActionView>) {
    match made_type(dir) {
        Some(typ) => match added(state.names, dir.identifier(), typ) {
            Ok(names) => {
                let id = IdentifierIdx(state.names.len() as usize);
                let sources = match dir {
                    DirectiveView::Source { content, .. } => state.sources.insert(id.0, content),
                    _ => state.sources,
                };
                (StateView { names, sources, ..state }, action(names, id, dir))
            },
            Err(e) => (state, Err(e)),
        },
        None => {
            let asked = action(state.names, IdentifierIdx(0), dir);
            if dir is Dispatch && asked is Ok {
                (StateView { cache: Map::empty(), ..state }, asked)
            } else {
                (state, asked)
            }
        },
    }
}

/// Running a statement forgets no name and no source, and gives no name away twice. Names that
/// were known still mean the same objects. What has been read of buffers is kept, except over a
/// dispatch, which forgets all of it.
pub proof fn lemma_applied(state: StateView, dir: DirectiveView)
    requires
        names_ok(state.names),
        state.names.len() < usize::MAX,
    ensures
        ({
            let (after, asked) = applied(state, dir);
            &&& names_ok(after.names)
            &&& after.names.len() <= state.names.len() + 1
            &&& state.names.is_prefix_of(after.names)
            &&& forall|name: Seq<char>|
                find(state.names, name) is Some ==> #[trigger] find(after.names, name) == find(
                    state.names,
                    name,
                )
            &&& forall|i: usize|
                i < state.names.len() && state.sources.contains_key(i)
                    ==> #[trigger] after.sources.contains_key(i) && after.sources[i]
                    == state.sources[i]
            &&& after.cache == if dir is Dispatch && asked is Ok {
                Map::empty()
            } else {
                state.cache
            }
        }),
{
    if let Some(typ) = made_type(dir) {
        lemma_added(state.names, dir.identifier(), typ);
        lemma_find(state.names, dir.identifier().content);
    }
}

/// A statement that makes an object makes it known under its name, even if something else is wrong
/// with the statement, unless the name cannot be given.
pub proof fn lemma_made_known(state: StateView, dir: DirectiveView, typ: IdentifierType)
    requires
        names_ok(state.names),
        state.names.len() < usize::MAX,
        made_type(dir) == Some(typ),
    ensures
        ({
            let id = dir.identifier();
            let (after, asked) = applied(state, dir);
            &&& id.content != "NULL"@ && find(state.names, id.content) is None ==> lookup_type(
                after.names,
                id,
                typ,
            ) == Ok::<_, NameError<Seq<char>>>(IdentifierIdx(state.names.len() as usize))
            &&& id.content == "NULL"@ || find(state.names, id.content) is Some ==> asked is Err
                && after == state
        }),
{
    lemma_added(state.names, dir.identifier(), typ);
}

/// What is known after statements, one after the other.
pub open spec fn applied_all(state: StateView, dirs: Seq<DirectiveView>) -> StateView
    decreases dirs.len(),
{
    if dirs.len() == 0 {
        state
    } else {
        applied(applied_all(state, dirs.drop_last()), dirs.last()).0
    }
}

/// What is known before statements is known to each of them and after them. So the objects of a
/// script are there for a script that it reads, and those of that script are there behind it.
pub proof fn lemma_applied_all(state: StateView, dirs: Seq<DirectiveView>)
    requires
        names_ok(state.names),
        state.names.len() + dirs.len() <= usize::MAX,
    ensures
        ({
            let after = applied_all(state, dirs);
            &&& names_ok(after.names)
            &&& after.names.len() <= state.names.len() + dirs.len()
            &&& state.names.is_prefix_of(after.names)
            &&& forall|name: Seq<char>|
                find(state.names, name) is Some ==> #[trigger] find(after.names, name) == find(
                    state.names,
                    name,
                )
        }),
    decreases dirs.len(),
{
    if dirs.len() > 0 {
        lemma_applied_all(state, dirs.drop_last());
        let before = applied_all(state, dirs.drop_last());
        lemma_applied(before, dirs.last());
        let after = applied_all(state, dirs);
        assert forall|name: Seq<char>| find(state.names, name) is Some implies #[trigger] find(
            after.names,
            name,
        ) == find(state.names, name) by {
            assert(find(before.names, name) == find(state.names, name));
        }
        assert(state.names.is_prefix_of(after.names)) by {
            assert(after.names.take(state.names.len() as int) =~= before.names.take(
                state.names.len() as int,
            ));
        }
    }
}

/// Statements of a script that are run where another script reads it go on from what is known
/// there.
pub proof fn lemma_applied_concat(
    state: StateView,
    first: Seq<DirectiveView>,
    second: Seq<DirectiveView>,
)
    ensures
        applied_all(state, first + second) == applied_all(applied_all(state, first), second),
    decreases second.len(),
{
    if second.len() == 0 {
        assert(first + second =~= first);
    } else {
        lemma_applied_concat(state, first, second.drop_last());
        assert((first + second).drop_last() =~= first + second.drop_last());
    }
}

/// A source has the text that its statement gave it.
pub proof fn lemma_source_known(state: StateView, name: IdentifierView, content: Seq<char>)
    requires
        names_ok(state.names),
        state.names.len() < usize::MAX,
    ensures
        ({
            let dir = DirectiveView::Source { name, content };
            let (after, asked) = applied(state, dir);
            asked is Ok ==> after.sources.contains_key(state.names.len() as usize)
                && after.sources[state.names.len() as usize] == content
        }),
{
}

/// The object that is meant, if one is.
fn get_optional(names: &Names, id: &Option<Identifier>, typ: IdentifierType) -> (r: Result<
    Option<IdentifierIdx>,
    NameError<String>,
>)
    requires
        names.wf(),
    ensures
        result_view(r) == lookup_optional(names@, id.deep_view(), typ),
{
    match id {
        Some(id) => Ok(Some(names.get_type(id, typ)?)),
        None => Ok(None),
    }
}

/// The first `n` of some sequence that grows by one item at a time.
proof fn lemma_take_next<T>(s: Seq<T>, i: int)
    requires
        0 <= i < s.len(),
    ensures
        s.take(i + 1).drop_last() == s.take(i),
        s.take(i + 1).last() == s[i],
        s.take(i + 1).len() == i + 1,
{
    assert(s.take(i + 1).drop_last() =~= s.take(i));
}

proof fn lemma_lookup_all_fails(
    names: NamesView,
    ids: Seq<IdentifierView>,
    typ: IdentifierType,
    i: int,
)
    requires
        0 <= i <= ids.len(),
        lookup_all(names, ids.take(i), typ) is Err,
    ensures
        lookup_all(names, ids, typ) == lookup_all(names, ids.take(i), typ),
    decreases ids.len() - i,
{
    if i < ids.len() {
        lemma_take_next(ids, i);
        lemma_lookup_all_fails(names, ids, typ, i + 1);
    } else {
        assert(ids.take(i) =~= ids);
    }
}

/// Puts the object that is meant behind those that were found.
fn get_next(
    names: &Names,
    ids: Ghost<Seq<IdentifierView>>,
    i: Ghost<int>,
    id: &Identifier,
    typ: IdentifierType,
    found: &mut Vec<IdentifierIdx>,
) -> (r: Result<(), NameError<String>>)
    requires
        names.wf(),
        0 <= i@ < ids@.len(),
        ids@[i@] == id.deep_view(),
        lookup_all(names@, ids@.take(i@), typ) == Ok::<_, NameError<Seq<char>>>(
            old(found).deep_view(),
        ),
    ensures
        match r {
            Ok(_) => lookup_all(names@, ids@.take(i@ + 1), typ) == Ok::<_, NameError<Seq<char>>>(
                final(found).deep_view(),
            ),
            Err(e) => lookup_all(names@, ids@, typ) == Err::<Seq<IdentifierIdx>, _>(e.deep_view()),
        },
{
    proof {
        lemma_take_next(ids@, i@);
        if lookup_all(names@, ids@.take(i@ + 1), typ) is Err {
            lemma_lookup_all_fails(names@, ids@, typ, i@ + 1);
        }
    }
    let index = names.get_type(id, typ)?;
    push_item(found, index);
    Ok(())
}

/// The objects that are meant. The first one that is wrong counts.
fn get_all(names: &Names, ids: &Vec<Identifier>, typ: IdentifierType) -> (r: Result<
    Vec<IdentifierIdx>,
    NameError<String>,
>)
    requires
        names.wf(),
    ensures
        result_view(r) == lookup_all(names@, ids.deep_view(), typ),
{
    let ghost all = ids.deep_view();
    let mut found: Vec<IdentifierIdx> = new_list();
    let mut i: usize = 0;
    assert(all.take(0) =~= Seq::<IdentifierView>::empty());
    while i < ids.len()
        invariant
            names.wf(),
            i <= ids@.len(),
            all == ids.deep_view(),
            lookup_all(names@, all.take(i as int), typ) == Ok::<_, NameError<Seq<char>>>(
                found.deep_view(),
            ),
        decreases ids@.len() - i,
    {
        get_next(names, Ghost(all), Ghost(i as int), &ids[i], typ, &mut found)?;
        i += 1;
    }
    assert(all.take(i as int) =~= all);
    Ok(found)
}

/// The bottom-level acceleration structures of instances.
fn get_instances(names: &Names, blas: &Vec<TlasBlas<String>>) -> (r: Result<
    Vec<IdentifierIdx>,
    NameError<String>,
>)
    requires
        names.wf(),
    ensures
        result_view(r) == lookup_all(
            names@,
            Seq::new(blas.deep_view().len(), |i: int| blas.deep_view()[i].name),
            IdentifierType::Blas,
        ),
{
    let ghost all = Seq::new(blas.deep_view().len(), |i: int| blas.deep_view()[i].name);
    let mut found: Vec<IdentifierIdx> = new_list();
    let mut i: usize = 0;
    assert(all.take(0) =~= Seq::<IdentifierView>::empty());
    while i < blas.len()
        invariant
            names.wf(),
            i <= blas@.len(),
            all == Seq::new(blas.deep_view().len(), |i: int| blas.deep_view()[i].name),
            lookup_all(names@, all.take(i as int), IdentifierType::Blas) == Ok::<
                _,
                NameError<Seq<char>>,
            >(found.deep_view()),
        decreases blas@.len() - i,
    {
        let kind = IdentifierType::Blas;
        get_next(names, Ghost(all), Ghost(i as int), &blas[i].name, kind, &mut found)?;
        i += 1;
    }
    assert(all.take(i as int) =~= all);
    Ok(found)
}

/// The libraries or collections of a pipeline state object.
fn get_linked(names: &Names, objects: &Vec<LinkObject>, typ: IdentifierType) -> (r: Result<
    Vec<IdentifierIdx>,
    NameError<String>,
>)
    requires
        names.wf(),
    ensures
        result_view(r) == lookup_all(
            names@,
            Seq::new(objects.deep_view().len(), |i: int| objects.deep_view()[i].name),
            typ,
        ),
{
    let ghost all = Seq::new(objects.deep_view().len(), |i: int| objects.deep_view()[i].name);
    let mut found: Vec<IdentifierIdx> = new_list();
    let mut i: usize = 0;
    assert(all.take(0) =~= Seq::<IdentifierView>::empty());
    while i < objects.len()
        invariant
            names.wf(),
            i <= objects@.len(),
            all == Seq::new(objects.deep_view().len(), |i: int| objects.deep_view()[i].name),
            lookup_all(names@, all.take(i as int), typ) == Ok::<_, NameError<Seq<char>>>(
                found.deep_view(),
            ),
        decreases objects@.len() - i,
    {
        get_next(names, Ghost(all), Ghost(i as int), &objects[i].name, typ, &mut found)?;
        i += 1;
    }
    assert(all.take(i as int) =~= all);
    Ok(found)
}

/// The views that are bound.
fn get_binds(names: &Names, binds: &Vec<Bind<String>>) -> (r: Result<
    Vec<IdentifierIdx>,
    NameError<String>,
>)
    requires
        names.wf(),
    ensures
        result_view(r) == lookup_all(
            names@,
            Seq::new(binds.deep_view().len(), |i: int| binds.deep_view()[i].view),
            IdentifierType::View,
        ),
{
    let ghost all = Seq::new(binds.deep_view().len(), |i: int| binds.deep_view()[i].view);
    let mut found: Vec<IdentifierIdx> = new_list();
    let mut i: usize = 0;
    assert(all.take(0) =~= Seq::<IdentifierView>::empty());
    while i < binds.len()
        invariant
            names.wf(),
            i <= binds@.len(),
            all == Seq::new(binds.deep_view().len(), |i: int| binds.deep_view()[i].view),
            lookup_all(names@, all.take(i as int), IdentifierType::View) == Ok::<
                _,
                NameError<Seq<char>>,
            >(found.deep_view()),
        decreases binds@.len() - i,
    {
        let kind = IdentifierType::View;
        get_next(names, Ghost(all), Ghost(i as int), &binds[i].view, kind, &mut found)?;
        i += 1;
    }
    assert(all.take(i as int) =~= all);
    Ok(found)
}

/// The buffers that are bound.
fn get_views(names: &Names, views: &Vec<RootValView<String>>) -> (r: Result<
    Vec<IdentifierIdx>,
    NameError<String>,
>)
    requires
        names.wf(),
    ensures
        result_view(r) == lookup_all(
            names@,
            Seq::new(views.deep_view().len(), |i: int| views.deep_view()[i].buffer),
            IdentifierType::Buffer,
        ),
{
    let ghost all = Seq::new(views.deep_view().len(), |i: int| views.deep_view()[i].buffer);
    let mut found: Vec<IdentifierIdx> = new_list();
    let mut i: usize = 0;
    assert(all.take(0) =~= Seq::<IdentifierView>::empty());
    while i < views.len()
        invariant
            names.wf(),
            i <= views@.len(),
            all == Seq::new(views.deep_view().len(), |i: int| views.deep_view()[i].buffer),
            lookup_all(names@, all.take(i as int), IdentifierType::Buffer) == Ok::<
                _,
                NameError<Seq<char>>,
            >(found.deep_view()),
        decreases views@.len() - i,
    {
        let kind = IdentifierType::Buffer;
        get_next(names, Ghost(all), Ghost(i as int), &views[i].buffer, kind, &mut found)?;
        i += 1;
    }
    assert(all.take(i as int) =~= all);
    Ok(found)
}

/// A copy of a number as it is written.
fn copy_literal(n: &NumberLiteral<String>) -> (copy: NumberLiteral<String>)
    ensures
        copy == *n,
{
    NumberLiteral { negative: n.negative, form: n.form, digits: n.digits.clone() }
}

/// What has to be known of a value.
pub fn query_value(names: &Names, v: &UnresolvedValue<String>) -> (r: Result<
    Query<String>,
    NameError<String>,
>)
    requires
        names.wf(),
    ensures
        result_view(r) == query(names@, v.deep_view()),
{
    match v {
        UnresolvedValue::Resolved(_) => Ok(Query::Known),
        UnresolvedValue::F32(n) => Ok(Query::F32(copy_literal(n))),
        UnresolvedValue::F16(n) => Ok(Query::F16(copy_literal(n))),
        UnresolvedValue::Gpuva(id) => {
            let i = names.get_types(id, ExpectedTypes::Addressable)?;
            Ok(Query::Address { id: i, typ: names.type_of(i) })
        },
    }
}

proof fn lemma_queries_fail(names: NamesView, values: Seq<UnresolvedValue<Seq<char>>>, i: int)
    requires
        0 <= i <= values.len(),
        queries(names, values.take(i)) is Err,
    ensures
        queries(names, values) == queries(names, values.take(i)),
    decreases values.len() - i,
{
    if i < values.len() {
        lemma_take_next(values, i);
        lemma_queries_fail(names, values, i + 1);
    } else {
        assert(values.take(i) =~= values);
    }
}

/// There is one thing to know of each value.
pub proof fn lemma_queries_len(names: NamesView, values: Seq<UnresolvedValue<Seq<char>>>)
    ensures
        queries(names, values) matches Ok(found) ==> found.len() == values.len(),
    decreases values.len(),
{
    if values.len() > 0 {
        lemma_queries_len(names, values.drop_last());
    }
}

/// What has to be known of values. The first one that is wrong counts.
fn query_values(names: &Names, values: &Vec<UnresolvedValue<String>>) -> (r: Result<
    Vec<Query<String>>,
    NameError<String>,
>)
    requires
        names.wf(),
    ensures
        result_view(r) == queries(names@, values.deep_view()),
{
    let ghost all = values.deep_view();
    let mut found: Vec<Query<String>> = new_list();
    let mut i: usize = 0;
    assert(all.take(0) =~= Seq::<UnresolvedValue<Seq<char>>>::empty());
    while i < values.len()
        invariant
            names.wf(),
            i <= values@.len(),
            all == values.deep_view(),
            queries(names@, all.take(i as int)) == Ok::<_, NameError<Seq<char>>>(
                found.deep_view(),
            ),
        decreases values@.len() - i,
    {
        proof {
            lemma_take_next(all, i as int);
            if queries(names@, all.take(i + 1)) is Err {
                lemma_queries_fail(names@, all, i + 1);
            }
        }
        let q = query_value(names, &values[i])?;
        push_item(&mut found, q);
        i += 1;
    }
    assert(all.take(i as int) =~= all);
    Ok(found)
}

/// What has to be known of a content.
pub fn query_content(names: &Names, content: &UnresolvedValueContent) -> (r: Result<
    Vec<Query<String>>,
    NameError<String>,
>)
    requires
        names.wf(),
    ensures
        result_view(r) == queries(names@, written_values(content.deep_view())),
{
    let ghost all = written_values(content.deep_view());
    match content {
        UnresolvedValueContent::Typed { fill, .. } => {
            let mut found: Vec<Query<String>> = new_list();
            match fill {
                Fill::Series { from, increment } => {
                    assert(all.drop_last() =~= seq![from.deep_view()]);
                    assert(all.drop_last().drop_last() =~= Seq::<
                        UnresolvedValue<Seq<char>>,
                    >::empty());
                    proof {
                        reveal_with_fuel(queries, 3);
                    }
                    push_item(&mut found, query_value(names, from)?);
                    push_item(&mut found, query_value(names, increment)?);
                },
                Fill::Const(v) => {
                    assert(all.drop_last() =~= Seq::<UnresolvedValue<Seq<char>>>::empty());
                    proof {
                        reveal_with_fuel(queries, 2);
                    }
                    push_item(&mut found, query_value(names, v)?);
                },
            }
            Ok(found)
        },
        UnresolvedValueContent::Raw { values, .. } => query_values(names, values),
    }
}

proof fn lemma_const_queries_fail(names: NamesView, consts: Seq<RootValConstView>, i: int)
    requires
        0 <= i <= consts.len(),
        const_queries(names, consts.take(i)) is Err,
    ensures
        const_queries(names, consts) == const_queries(names, consts.take(i)),
    decreases consts.len() - i,
{
    if i < consts.len() {
        lemma_take_next(consts, i);
        lemma_const_queries_fail(names, consts, i + 1);
    } else {
        assert(consts.take(i) =~= consts);
    }
}

/// What has to be known of constants. The first value that is wrong counts.
fn query_consts(names: &Names, consts: &Vec<UnresolvedRootValConst>) -> (r: Result<
    Vec<Vec<Query<String>>>,
    NameError<String>,
>)
    requires
        names.wf(),
    ensures
        result_view(r) == const_queries(names@, consts.deep_view()),
{
    let ghost all = consts.deep_view();
    let mut found: Vec<Vec<Query<String>>> = new_list();
    let mut i: usize = 0;
    assert(all.take(0) =~= Seq::<RootValConstView>::empty());
    while i < consts.len()
        invariant
            names.wf(),
            i <= consts@.len(),
            all == consts.deep_view(),
            const_queries(names@, all.take(i as int)) == Ok::<_, NameError<Seq<char>>>(
                found.deep_view(),
            ),
        decreases consts@.len() - i,
    {
        proof {
            lemma_take_next(all, i as int);
            if const_queries(names@, all.take(i + 1)) is Err {
                lemma_const_queries_fail(names@, all, i + 1);
            }
        }
        let q = query_content(names, &consts[i].content)?;
        push_item(&mut found, q);
        i += 1;
    }
    assert(all.take(i as int) =~= all);
    Ok(found)
}

/// The objects for a root signature.
fn resolve_root(names: &Names, vals: &UnresolvedRootVal) -> (r: Result<RootVal, NameError<String>>)
    requires
        names.wf(),
    ensures
        result_view(r) == root_objects(names@, vals.deep_view()),
{
    let binds = get_binds(names, &vals.binds)?;
    let consts = query_consts(names, &vals.consts)?;
    let views = get_views(names, &vals.views)?;
    Ok(RootVal { binds, consts, views })
}

proof fn lemma_record_objects_fail(names: NamesView, records: Seq<ShaderTableRecordView>, i: int)
    requires
        0 <= i <= records.len(),
        record_objects(names, records.take(i)) is Err,
    ensures
        record_objects(names, records) == record_objects(names, records.take(i)),
    decreases records.len() - i,
{
    if i < records.len() {
        lemma_take_next(records, i);
        lemma_record_objects_fail(names, records, i + 1);
    } else {
        assert(records.take(i) =~= records);
    }
}

/// The objects for the root signatures of the records of a shader table.
fn resolve_records(names: &Names, records: &Vec<UnresolvedShaderTableRecord>) -> (r: Result<
    Vec<RootVal>,
    NameError<String>,
>)
    requires
        names.wf(),
    ensures
        result_view(r) == record_objects(names@, records.deep_view()),
{
    let ghost all = records.deep_view();
    let mut found: Vec<RootVal> = new_list();
    let mut i: usize = 0;
    assert(all.take(0) =~= Seq::<ShaderTableRecordView>::empty());
    while i < records.len()
        invariant
            names.wf(),
            i <= records@.len(),
            all == records.deep_view(),
            record_objects(names@, all.take(i as int)) == Ok::<_, NameError<Seq<char>>>(
                found.deep_view(),
            ),
        decreases records@.len() - i,
    {
        proof {
            lemma_take_next(all, i as int);
            if record_objects(names@, all.take(i + 1)) is Err {
                lemma_record_objects_fail(names@, all, i + 1);
            }
        }
        let objects = resolve_root(names, &records[i].root_val)?;
        push_item(&mut found, objects);
        i += 1;
    }
    assert(all.take(i as int) =~= all);
    Ok(found)
}

proof fn lemma_record_shaders_fail(names: NamesView, records: Seq<ShaderTableRecordView>, i: int)
    requires
        0 <= i <= records.len(),
        record_shaders(names, records.take(i)) is Err,
    ensures
        record_shaders(names, records) == record_shaders(names, records.take(i)),
    decreases records.len() - i,
{
    if i < records.len() {
        lemma_take_next(records, i);
        lemma_record_shaders_fail(names, records, i + 1);
    } else {
        assert(records.take(i) =~= records);
    }
}

/// The shader identifier that a record names, if it does.
fn get_shader(names: &Names, shader: &ShaderReference<String>) -> (r: Result<
    Option<IdentifierIdx>,
    NameError<String>,
>)
    requires
        names.wf(),
    ensures
        result_view(r) == shader_object(names@, shader.deep_view()),
{
    match shader {
        ShaderReference::ShaderId(id) => Ok(Some(names.get_type(id, IdentifierType::ShaderId)?)),
        _ => Ok(None),
    }
}

/// The shader identifiers that the records of a shader table name.
fn get_shaders(names: &Names, records: &Vec<UnresolvedShaderTableRecord>) -> (r: Result<
    Vec<Option<IdentifierIdx>>,
    NameError<String>,
>)
    requires
        names.wf(),
    ensures
        result_view(r) == record_shaders(names@, records.deep_view()),
{
    let ghost all = records.deep_view();
    let mut found: Vec<Option<IdentifierIdx>> = new_list();
    let mut i: usize = 0;
    assert(all.take(0) =~= Seq::<ShaderTableRecordView>::empty());
    while i < records.len()
        invariant
            names.wf(),
            i <= records@.len(),
            all == records.deep_view(),
            record_shaders(names@, all.take(i as int)) == Ok::<_, NameError<Seq<char>>>(
                found.deep_view(),
            ),
        decreases records@.len() - i,
    {
        proof {
            lemma_take_next(all, i as int);
            if record_shaders(names@, all.take(i + 1)) is Err {
                lemma_record_shaders_fail(names@, all, i + 1);
            }
        }
        let shader = get_shader(names, &records[i].shader)?;
        push_item(&mut found, shader);
        i += 1;
    }
    assert(all.take(i as int) =~= all);
    Ok(found)
}

/// The objects of a dispatch of a pipeline, and the kind of the pipeline.
fn resolve_dispatch(names: &Names, pipeline: &Identifier, typ: &DispatchType<String>) -> (r: Result<
    (ExpectedTypes, DispatchContent),
    NameError<String>,
>)
    requires
        names.wf(),
    ensures
        match r {
            Ok(found) => dispatch_objects(names@, pipeline.deep_view(), typ.deep_view()) == Ok::<
                _,
                NameError<Seq<char>>,
            >(found),
            Err(e) => dispatch_objects(names@, pipeline.deep_view(), typ.deep_view()) == Err::<
                (ExpectedTypes, DispatchContent),
                _,
            >(e.deep_view()),
        },
{
    match typ {
        DispatchType::Dispatch { .. } => Ok(
            (ExpectedTypes::One(IdentifierType::Pipeline), DispatchContent::Dispatch),
        ),
        DispatchType::DispatchRays { tables, .. } => {
            let table = IdentifierType::ShaderTable;
            let raygen = get_optional(names, &tables.raygen, table)?;
            let miss = get_optional(names, &tables.miss, table)?;
            let hit_group = get_optional(names, &tables.hit_group, table)?;
            let callable = get_optional(names, &tables.callable, table)?;
            let tables = RayTables { raygen, miss, hit_group, callable };
            Ok(
                (
                    ExpectedTypes::One(IdentifierType::PipelineStateObject),
                    DispatchContent::DispatchRays { tables },
                ),
            )
        },
        DispatchType::ExecuteIndirect { signature, argument_buffer, count_buffer, .. } => {
            // Both, PSOs and pipelines are supported
            let i = names.get_types(pipeline, ExpectedTypes::Runnable)?;
            let pipeline_kind = if names.type_of(i) == IdentifierType::Pipeline {
                PipelineKind::Pipeline
            } else {
                PipelineKind::PipelineStateObject
            };
            let signature = names.get_type(signature, IdentifierType::CommandSignature)?;
            let argument_buffer = names.get_type(argument_buffer, IdentifierType::Buffer)?;
            let count_buffer = get_optional(names, count_buffer, IdentifierType::Buffer)?;
            Ok(
                (
                    ExpectedTypes::Runnable,
                    DispatchContent::ExecuteIndirect {
                        signature,
                        pipeline_kind,
                        argument_buffer,
                        count_buffer,
                    },
                ),
            )
        },
    }
}

/// What has to be known of expected values and of the difference that is allowed.
fn query_expected(
    names: &Names,
    values: &Vec<UnresolvedValue<String>>,
    epsilon: &Option<SpanObj<UnresolvedValue<String>>>,
) -> (r: Result<Vec<Query<String>>, NameError<String>>)
    requires
        names.wf(),
    ensures
        result_view(r) == queries(
            names@,
            match epsilon.deep_view() {
                Some(e) => values.deep_view().push(e.content),
                None => values.deep_view(),
            },
        ),
{
    proof {
        if let Some(e) = epsilon.deep_view() {
            assert(values.deep_view().push(e.content).drop_last() =~= values.deep_view());
        }
    }
    let mut found = query_values(names, values)?;
    if let Some(e) = epsilon {
        push_item(&mut found, query_value(names, &e.content)?);
    }
    Ok(found)
}

/// The kind of object that a statement makes, if it makes one.
fn get_made_type(dir: &Directive) -> (typ: Option<IdentifierType>)
    ensures
        typ == made_type(dir.deep_view()),
{
    match dir {
        Directive::Source { .. } => Some(IdentifierType::Source),
        Directive::Object { .. } => Some(IdentifierType::Object),
        Directive::ObjectDxil { .. } => Some(IdentifierType::Object),
        Directive::Blas { .. } => Some(IdentifierType::Blas),
        Directive::Tlas { .. } => Some(IdentifierType::Tlas),
        Directive::Buffer { .. } => Some(IdentifierType::Buffer),
        Directive::RootSig { .. } => Some(IdentifierType::RootSig),
        Directive::RootSigDxil { .. } => Some(IdentifierType::RootSig),
        Directive::ShaderId { .. } => Some(IdentifierType::ShaderId),
        Directive::ShaderTable { .. } => Some(IdentifierType::ShaderTable),
        Directive::Pipeline { .. } => Some(IdentifierType::Pipeline),
        Directive::PipelineStateObject { .. } => Some(IdentifierType::PipelineStateObject),
        Directive::View { .. } => Some(IdentifierType::View),
        Directive::CommandSignature { .. } => Some(IdentifierType::CommandSignature),
        _ => None,
    }
}

/// What a statement asks for. The object that it makes has the number `id` in `names`.
fn get_action(names: &Names, id: IdentifierIdx, dir: &Directive) -> (r: Result<
    Action,
    NameError<String>,
>)
    requires
        names.wf(),
    ensures
        result_view(r) == action(names@, id, dir.deep_view()),
{
    let pso_kind = IdentifierType::PipelineStateObject;
    match dir {
        Directive::Source { .. } => Ok(Action::Nothing),
        Directive::Object { source, .. } => {
            let source = names.get_type(source, IdentifierType::Source)?;
            Ok(Action::Compile { id, source })
        },
        Directive::ObjectDxil { .. } => Ok(Action::CompileDxil { id }),
        Directive::Blas { .. } => Ok(Action::CreateBlas { id }),
        Directive::Tlas { blas, .. } => {
            let blas = get_instances(names, blas)?;
            Ok(Action::CreateTlas { id, blas })
        },
        Directive::Buffer { content, .. } => {
            let queries = query_content(names, content)?;
            Ok(Action::CreateBuffer { id, queries })
        },
        Directive::RootSig { .. } => Ok(Action::CreateRootSig { id }),
        Directive::RootSigDxil { object, .. } => {
            let object = names.get_type(object, IdentifierType::Object)?;
            Ok(Action::CreateRootSigDxil { id, object })
        },
        Directive::ShaderId { pipeline_state_object, .. } => {
            let pso = names.get_type(pipeline_state_object, pso_kind)?;
            Ok(Action::CreateShaderId { id, pso })
        },
        Directive::ShaderTable { pipeline_state_object, records, .. } => {
            let pso = names.get_type(pipeline_state_object, pso_kind)?;
            let root_vals = resolve_records(names, records)?;
            let shaders = get_shaders(names, records)?;
            Ok(Action::CreateShaderTable { id, pso, root_vals, shaders })
        },
        Directive::Pipeline { name, shaders, root_sig, .. } => {
            let found = get_all(names, shaders, IdentifierType::Object)?;
            if found.len() != 1 {
                return Err(
                    NameError::InvalidShaderCount {
                        name: copy_identifier(name),
                        shader_count: found.len(),
                    },
                );
            }
            let root_sig = get_optional(names, root_sig, IdentifierType::RootSig)?;
            Ok(Action::CreateComputePipeline { id, shader: found[0], root_sig })
        },
        Directive::PipelineStateObject { add_to, libs, collections, .. } => {
            let add_to = get_optional(names, add_to, pso_kind)?;
            let libs = get_linked(names, libs, IdentifierType::Object)?;
            let collections = get_linked(names, collections, pso_kind)?;
            Ok(Action::CreatePipelineStateObject { id, add_to, libs, collections })
        },
        Directive::View { name, buffer, typ } => {
            let kind = match typ {
                InputViewType::RaytracingAccelStruct => IdentifierType::Tlas,
                _ => {
                    if buffer.is_none() {
                        return Err(NameError::ViewNoBuffer { name: copy_identifier(name) });
                    }
                    IdentifierType::Buffer
                },
            };
            let buffer = get_optional(names, buffer, kind)?;
            Ok(Action::CreateView { id, buffer })
        },
        Directive::CommandSignature { root_sig, .. } => {
            let root_sig = get_optional(names, root_sig, IdentifierType::RootSig)?;
            Ok(Action::CreateCommandSignature { id, root_sig })
        },
        Directive::Dispatch { pipeline, root_val, root_sig, typ, .. } => {
            let (kinds, content) = resolve_dispatch(names, pipeline, typ)?;
            let pipeline = names.get_types(pipeline, kinds)?;
            let root_sig = get_optional(names, root_sig, IdentifierType::RootSig)?;
            let root_val = resolve_root(names, root_val)?;
            Ok(Action::Dispatch { pipeline, root_val, content, root_sig })
        },
        Directive::Include { .. } => Ok(Action::Include),
        Directive::Sleep { .. } => Ok(Action::Sleep),
        Directive::Dump { resource, typ, .. } => match typ {
            DumpDataType::DataType(_) => {
                let resource = names.get_type(resource, IdentifierType::Buffer)?;
                Ok(Action::DumpBuffer { resource })
            },
            DumpDataType::Dxil => {
                let object = names.get_type(resource, IdentifierType::Object)?;
                Ok(Action::DumpDxil { object })
            },
        },
        Directive::Expect { resource, epsilon, values, .. } => {
            let resource = names.get_type(resource, IdentifierType::Buffer)?;
            let queries = query_expected(names, values, epsilon)?;
            Ok(Action::Expect { resource, queries })
        },
        Directive::AssertShaderId { id_a, id_b, .. } => {
            let id_a = names.get_type(id_a, IdentifierType::ShaderId)?;
            let id_b = names.get_type(id_b, IdentifierType::ShaderId)?;
            Ok(Action::CompareShaderIds { id_a, id_b })
        },
    }
}

/// What is known while a script runs.
pub struct State {
    names: Names,
    /// HLSL source codes
    ///
    /// Map from identifier to content
    sources: HashMap<usize, String>,
    /// Cached buffers downloaded from the GPU.
    /// The cache is cleared when a dispatch is run.
    download_cache: HashMap<usize, Vec<u8>>,
}

impl View for State {
    type V = StateView;

    closed spec fn view(&self) -> StateView {
        StateView {
            names: self.names@,
            sources: self.sources@.map_values(|text: String| text@),
            cache: self.download_cache@.map_values(|data: Vec<u8>| data@),
        }
    }
}

impl State {
    /// Names are found, and each source has a text.
    pub closed spec fn wf(&self) -> bool {
        &&& self.names.wf()
        &&& forall|i: int|
            0 <= i < self.names@.len() && (#[trigger] self.names@[i]).1 is Source
                ==> self.sources@.contains_key(i as usize)
    }

    /// Nothing is known.
    pub fn new() -> (state: State)
        ensures
            state.wf(),
            state@ == StateView::empty(),
    {
        broadcast use group_hash_axioms;

        let state = State {
            names: Names::new(),
            sources: HashMap::new(),
            download_cache: HashMap::new(),
        };
        assert(state@.sources =~= Map::empty());
        assert(state@.cache =~= Map::empty());
        state
    }

    /// Forgets everything, to run a script once more.
    pub fn reset(&mut self)
        ensures
            final(self).wf(),
            final(self)@ == StateView::empty(),
    {
        broadcast use group_hash_axioms;

        self.names.clear();
        self.sources.clear();
        self.download_cache.clear();
        assert(self@.sources =~= Map::empty());
        assert(self@.cache =~= Map::empty());
    }

    /// Each name is that of one object, and each source has a text.
    pub proof fn lemma_state_ok(&self)
        requires
            self.wf(),
        ensures
            names_ok(self@.names),
            self@.names.len() <= isize::MAX,
            forall|i: int|
                0 <= i < self@.names.len() && (#[trigger] self@.names[i]).1 is Source
                    ==> self@.sources.contains_key(i as usize),
    {
        self.names.lemma_ok();
    }

    /// The names that the script has given so far.
    pub fn names(&self) -> (names: &Names)
        requires
            self.wf(),
        ensures
            names.wf(),
            names@ == self@.names,
    {
        &self.names
    }

    /// Runs a statement, up to what it asks for.
    pub fn apply(&mut self, dir: &Directive) -> (r: Result<Action, NameError<String>>)
        requires
            old(self).wf(),
        ensures
            final(self).wf(),
            applied(old(self)@, dir.deep_view()) == (final(self)@, result_view(r)),
    {
        broadcast use group_hash_axioms;

        let ghost before = self@;
        match get_made_type(dir) {
            Some(typ) => {
                proof {
                    self.names.lemma_ok();
                }
                let id = self.names.add_identifier(copy_identifier(dir.get_identifier()), typ)?;
                if let Directive::Source { content, .. } = dir {
                    let ghost texts = self.sources@;
                    self.sources.insert(id.0, content.clone());
                    assert(self@.sources =~= before.sources.insert(id.0, content@));
                }
                proof {
                    assert forall|i: int|
                        0 <= i < self.names@.len() && (#[trigger] self.names@[i]).1 is Source
                        implies self.sources@.contains_key(i as usize) by {
                        if i < before.names.len() {
                            assert(self.names@[i] == before.names[i]);
                        }
                    }
                }
                get_action(&self.names, id, dir)
            },
            None => {
                let asked = get_action(&self.names, IdentifierIdx(0), dir)?;
                if let Directive::Dispatch { .. } = dir {
                    self.download_cache.clear();
                    assert(self@.cache =~= Map::empty());
                }
                Ok(asked)
            },
        }
    }

    /// The text of a source.
    pub fn source_text(&self, source: IdentifierIdx) -> (text: &String)
        requires
            self.wf(),
            source.0 < self@.names.len(),
            self@.names[source.0 as int].1 is Source,
        ensures
            text@ == self@.sources[source.0],
    {
        broadcast use group_hash_axioms;

        match self.sources.get(&source.0) {
            Some(text) => text,
            None => {
                assert(self.names@[source.0 as int].1 is Source);
                assert(false);
                vstd::pervasive::unreached()
            },
        }
    }

    /// The content of a buffer, if it has been read since the last dispatch.
    pub fn downloaded(&self, buffer: IdentifierIdx) -> (data: Option<&Vec<u8>>)
        ensures
            match data {
                Some(data) => self@.cache.contains_key(buffer.0) && data@ == self@.cache[buffer.0],
                None => !self@.cache.contains_key(buffer.0),
            },
    {
        broadcast use group_hash_axioms;

        self.download_cache.get(&buffer.0)
    }

    /// Keeps the content of a buffer that has been read.
    pub fn keep_download(&mut self, buffer: IdentifierIdx, data: Vec<u8>)
        requires
            old(self).wf(),
        ensures
            final(self).wf(),
            final(self)@ == (StateView {
                cache: old(self)@.cache.insert(buffer.0, data@),
                ..old(self)@
            }),
    {
        broadcast use group_hash_axioms;

        self.download_cache.insert(buffer.0, data);
        assert(self@.cache =~= old(self)@.cache.insert(buffer.0, data@));
    }
}

} // verus!
