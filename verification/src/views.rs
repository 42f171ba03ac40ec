//! A view keeps each part of a value in its place.
use vstd::prelude::*;

use crate::script::{
    Aabb, Directive, DispatchType, Export, Fill, HitGroup, RayTables, TlasBlas, Transform,
    TransformRow, UnresolvedValue, Vertex,
};
use crate::source::Identifier;
use crate::state::Action;

verus! {

/// A vertex keeps its coordinates.
pub proof fn lemma_vertex_view(x: Vertex<String>)
    ensures
        x.deep_view().x == x.x.deep_view(),
        x.deep_view().y == x.y.deep_view(),
        x.deep_view().z == x.z.deep_view(),
{
}

/// A row of a transformation keeps its columns.
pub proof fn lemma_row_view(x: TransformRow<String>)
    ensures
        x.deep_view().x == x.x.deep_view(),
        x.deep_view().y == x.y.deep_view(),
        x.deep_view().z == x.z.deep_view(),
        x.deep_view().w == x.w.deep_view(),
{
}

/// A transformation keeps its rows.
pub proof fn lemma_transform_view(x: Transform<String>)
    ensures
        x.deep_view().row0 == x.row0.deep_view(),
        x.deep_view().row1 == x.row1.deep_view(),
        x.deep_view().row2 == x.row2.deep_view(),
{
}

/// A box keeps its corners.
pub proof fn lemma_aabb_view(x: Aabb<String>)
    ensures
        x.deep_view().min == x.min.deep_view(),
        x.deep_view().max == x.max.deep_view(),
{
}

/// An instance keeps what is said of it.
pub proof fn lemma_instance_view(x: TlasBlas<String>)
    ensures
        x.deep_view().name == x.name.deep_view(),
        x.deep_view().id == x.id,
        x.deep_view().mask == x.mask,
        x.deep_view().index_contrib == x.index_contrib,
        x.deep_view().transform == x.transform.deep_view(),
        x.deep_view().config == x.config,
{
}

/// An export keeps its two names.
pub proof fn lemma_export_view(x: Export<String>)
    ensures
        x.deep_view().name == x.name.deep_view(),
        x.deep_view().to_rename == x.to_rename.deep_view(),
{
}

/// A hit group keeps its shaders, each in its role.
pub proof fn lemma_hit_group_view(x: HitGroup<String>)
    ensures
        x.deep_view().name == x.name.deep_view(),
        x.deep_view().any_hit == x.any_hit.deep_view(),
        x.deep_view().closest_hit == x.closest_hit.deep_view(),
        x.deep_view().intersection == x.intersection.deep_view(),
{
}

/// The shader tables of a dispatch of rays keep their roles.
pub proof fn lemma_tables_view(x: RayTables<Identifier>)
    ensures
        x.deep_view().raygen == x.raygen.deep_view(),
        x.deep_view().miss == x.miss.deep_view(),
        x.deep_view().hit_group == x.hit_group.deep_view(),
        x.deep_view().callable == x.callable.deep_view(),
{
}

/// A series keeps its start and its increment.
pub proof fn lemma_fill_view(x: Fill<UnresolvedValue<String>>)
    ensures
        match x {
            Fill::Series { from, increment } => x.deep_view() is Series && x.deep_view()->from
                == from.deep_view() && x.deep_view()->increment == increment.deep_view(),
            Fill::Const(v) => x.deep_view() == Fill::Const(v.deep_view()),
        },
{
}

/// A dispatch keeps its buffers, each in its role.
pub proof fn lemma_dispatch_view(x: DispatchType<String>)
    ensures
        ({
            let v = x.deep_view();
            match x {
                DispatchType::Dispatch { dimensions } => v is Dispatch && v->Dispatch_dimensions
                    == dimensions,
                DispatchType::DispatchRays { dimensions, tables } => v is DispatchRays
                    && v->DispatchRays_dimensions == dimensions && v->tables == tables.deep_view(),
                DispatchType::ExecuteIndirect {
                    signature,
                    argument_buffer,
                    argument_offset,
                    count_buffer,
                    count_offset,
                    max_commands,
                } => {
                    &&& v is ExecuteIndirect
                    &&& v->signature == signature.deep_view()
                    &&& v->argument_buffer == argument_buffer.deep_view()
                    &&& v->argument_offset == argument_offset
                    &&& v->count_buffer == count_buffer.deep_view()
                    &&& v->count_offset == count_offset
                    &&& v->max_commands == max_commands
                },
            }
        }),
{
}

/// A statement keeps its parts.
pub proof fn lemma_directive_view(d: Directive)
    ensures
        ({
            let v = d.deep_view();
            match d {
                Directive::Source { name, content } => {
                    &&& v is Source
                    &&& v->Source_name == name.deep_view()
                    &&& v->Source_content == content.deep_view()
                },
                Directive::Object { name, source, shader_model, entrypoint, args } => {
                    &&& v is Object
                    &&& v->Object_name == name.deep_view()
                    &&& v->Object_source == source.deep_view()
                    &&& v->Object_shader_model == shader_model.deep_view()
                    &&& v->Object_entrypoint == entrypoint.deep_view()
                    &&& v->Object_args == args.deep_view()
                },
                Directive::ObjectDxil { name, content } => {
                    &&& v is ObjectDxil
                    &&& v->ObjectDxil_name == name.deep_view()
                    &&& v->ObjectDxil_content == content.deep_view()
                },
                Directive::Blas { name, procedurals, triangles, config } => {
                    &&& v is Blas
                    &&& v->Blas_name == name.deep_view()
                    &&& v->Blas_procedurals == procedurals.deep_view()
                    &&& v->Blas_triangles == triangles.deep_view()
                    &&& v->Blas_config == config
                },
                Directive::Tlas { name, blas, config } => {
                    &&& v is Tlas
                    &&& v->Tlas_name == name.deep_view()
                    &&& v->Tlas_blas == blas.deep_view()
                    &&& v->Tlas_config == config
                },
                Directive::Buffer { name, content } => {
                    &&& v is Buffer
                    &&& v->Buffer_name == name.deep_view()
                    &&& v->Buffer_content == content.deep_view()
                },
                Directive::RootSig { name, entries, config } => {
                    &&& v is RootSig
                    &&& v->RootSig_name == name.deep_view()
                    &&& v->RootSig_entries == entries.deep_view()
                    &&& v->RootSig_config == config
                },
                Directive::RootSigDxil { name, object } => {
                    &&& v is RootSigDxil
                    &&& v->RootSigDxil_name == name.deep_view()
                    &&& v->RootSigDxil_object == object.deep_view()
                },
                Directive::ShaderId { name, pipeline_state_object, shader_name } => {
                    &&& v is ShaderId
                    &&& v->ShaderId_name == name.deep_view()
                    &&& v->ShaderId_pipeline_state_object == pipeline_state_object.deep_view()
                    &&& v->ShaderId_shader_name == shader_name.deep_view()
                },
                Directive::ShaderTable { name, pipeline_state_object, records } => {
                    &&& v is ShaderTable
                    &&& v->ShaderTable_name == name.deep_view()
                    &&& v->ShaderTable_pipeline_state_object == pipeline_state_object.deep_view()
                    &&& v->ShaderTable_records == records.deep_view()
                },
                Directive::Pipeline { name, typ, shaders, root_sig } => {
                    &&& v is Pipeline
                    &&& v->Pipeline_name == name.deep_view()
                    &&& v->Pipeline_typ == typ
                    &&& v->Pipeline_shaders == shaders.deep_view()
                    &&& v->Pipeline_root_sig == root_sig.deep_view()
                },
                Directive::PipelineStateObject {
                    name,
                    typ,
                    add_to,
                    libs,
                    collections,
                    hit_groups,
                    config,
                } => {
                    &&& v is PipelineStateObject
                    &&& v->PipelineStateObject_name == name.deep_view()
                    &&& v->PipelineStateObject_typ == typ
                    &&& v->PipelineStateObject_add_to == add_to.deep_view()
                    &&& v->PipelineStateObject_libs == libs.deep_view()
                    &&& v->PipelineStateObject_collections == collections.deep_view()
                    &&& v->PipelineStateObject_hit_groups == hit_groups.deep_view()
                    &&& v->PipelineStateObject_config == config
                },
                Directive::View { name, buffer, typ } => {
                    &&& v is View
                    &&& v->View_name == name.deep_view()
                    &&& v->View_buffer == buffer.deep_view()
                    &&& v->View_typ == typ
                },
                Directive::CommandSignature { name, stride, arguments, root_sig } => {
                    &&& v is CommandSignature
                    &&& v->CommandSignature_name == name.deep_view()
                    &&& v->CommandSignature_stride == stride
                    &&& v->CommandSignature_arguments == arguments.deep_view()
                    &&& v->CommandSignature_root_sig == root_sig.deep_view()
                },
                Directive::Dispatch { identifier, pipeline, root_val, root_sig, typ } => {
                    &&& v is Dispatch
                    &&& v->Dispatch_identifier == identifier.deep_view()
                    &&& v->Dispatch_pipeline == pipeline.deep_view()
                    &&& v->Dispatch_root_val == root_val.deep_view()
                    &&& v->Dispatch_root_sig == root_sig.deep_view()
                    &&& v->Dispatch_typ == typ.deep_view()
                },
                Directive::Include { identifier, path } => {
                    &&& v is Include
                    &&& v->Include_identifier == identifier.deep_view()
                    &&& v->Include_path == path.deep_view()
                },
                Directive::Sleep { identifier, duration } => {
                    &&& v is Sleep
                    &&& v->Sleep_identifier == identifier.deep_view()
                    &&& v->Sleep_duration == duration
                },
                Directive::Dump { identifier, resource, typ, print_stride, format } => {
                    &&& v is Dump
                    &&& v->Dump_identifier == identifier.deep_view()
                    &&& v->Dump_resource == resource.deep_view()
                    &&& v->Dump_typ == typ
                    &&& v->Dump_print_stride == print_stride
                    &&& v->Dump_format == format
                },
                Directive::Expect {
                    identifier,
                    resource,
                    epsilon,
                    offset,
                    values,
                    value_spans,
                } => {
                    &&& v is Expect
                    &&& v->Expect_identifier == identifier.deep_view()
                    &&& v->Expect_resource == resource.deep_view()
                    &&& v->Expect_epsilon == epsilon.deep_view()
                    &&& v->Expect_offset == offset
                    &&& v->Expect_values == values.deep_view()
                    &&& v->Expect_value_spans == value_spans.deep_view()
                },
                Directive::AssertShaderId { identifier, equal, id_a, id_b } => {
                    &&& v is AssertShaderId
                    &&& v->AssertShaderId_identifier == identifier.deep_view()
                    &&& v->AssertShaderId_equal == equal
                    &&& v->AssertShaderId_id_a == id_a.deep_view()
                    &&& v->AssertShaderId_id_b == id_b.deep_view()
                },
            }
        }),
{
}

/// An action keeps its objects, each in its role.
pub proof fn lemma_action_view(a: Action)
    ensures
        ({
            let v = a.deep_view();
            match a {
                Action::Nothing => v is Nothing,
                Action::Compile { id, source } => {
                    &&& v is Compile
                    &&& v->Compile_id == id
                    &&& v->Compile_source == source
                },
                Action::CompileDxil { id } => {
                    &&& v is CompileDxil
                    &&& v->CompileDxil_id == id
                },
                Action::CreateBlas { id } => {
                    &&& v is CreateBlas
                    &&& v->CreateBlas_id == id
                },
                Action::CreateTlas { id, blas } => {
                    &&& v is CreateTlas
                    &&& v->CreateTlas_id == id
                    &&& v->CreateTlas_blas == blas.deep_view()
                },
                Action::CreateBuffer { id, queries } => {
                    &&& v is CreateBuffer
                    &&& v->CreateBuffer_id == id
                    &&& v->CreateBuffer_queries == queries.deep_view()
                },
                Action::CreateRootSig { id } => {
                    &&& v is CreateRootSig
                    &&& v->CreateRootSig_id == id
                },
                Action::CreateRootSigDxil { id, object } => {
                    &&& v is CreateRootSigDxil
                    &&& v->CreateRootSigDxil_id == id
                    &&& v->CreateRootSigDxil_object == object
                },
                Action::CreateShaderId { id, pso } => {
                    &&& v is CreateShaderId
                    &&& v->CreateShaderId_id == id
                    &&& v->CreateShaderId_pso == pso
                },
                Action::CreateShaderTable { id, pso, root_vals, shaders } => {
                    &&& v is CreateShaderTable
                    &&& v->CreateShaderTable_id == id
                    &&& v->CreateShaderTable_pso == pso
                    &&& v->CreateShaderTable_root_vals == root_vals.deep_view()
                    &&& v->CreateShaderTable_shaders == shaders.deep_view()
                },
                Action::CreateComputePipeline { id, shader, root_sig } => {
                    &&& v is CreateComputePipeline
                    &&& v->CreateComputePipeline_id == id
                    &&& v->CreateComputePipeline_shader == shader
                    &&& v->CreateComputePipeline_root_sig == root_sig
                },
                Action::CreatePipelineStateObject { id, add_to, libs, collections } => {
                    &&& v is CreatePipelineStateObject
                    &&& v->CreatePipelineStateObject_id == id
                    &&& v->CreatePipelineStateObject_add_to == add_to
                    &&& v->CreatePipelineStateObject_libs == libs.deep_view()
                    &&& v->CreatePipelineStateObject_collections == collections.deep_view()
                },
                Action::CreateView { id, buffer } => {
                    &&& v is CreateView
                    &&& v->CreateView_id == id
                    &&& v->CreateView_buffer == buffer
                },
                Action::CreateCommandSignature { id, root_sig } => {
                    &&& v is CreateCommandSignature
                    &&& v->CreateCommandSignature_id == id
                    &&& v->CreateCommandSignature_root_sig == root_sig
                },
                Action::Dispatch { pipeline, root_val, content, root_sig } => {
                    &&& v is Dispatch
                    &&& v->Dispatch_pipeline == pipeline
                    &&& v->Dispatch_root_val == root_val.deep_view()
                    &&& v->Dispatch_content == content
                    &&& v->Dispatch_root_sig == root_sig
                },
                Action::Include => v is Include,
                Action::Sleep => v is Sleep,
                Action::DumpBuffer { resource } => {
                    &&& v is DumpBuffer
                    &&& v->DumpBuffer_resource == resource
                },
                Action::DumpDxil { object } => {
                    &&& v is DumpDxil
                    &&& v->DumpDxil_object == object
                },
                Action::Expect { resource, queries } => {
                    &&& v is Expect
                    &&& v->Expect_resource == resource
                    &&& v->Expect_queries == queries.deep_view()
                },
                Action::CompareShaderIds { id_a, id_b } => {
                    &&& v is CompareShaderIds
                    &&& v->CompareShaderIds_id_a == id_a
                    &&& v->CompareShaderIds_id_b == id_b
                },
            }
        }),
{
}

} // verus!
