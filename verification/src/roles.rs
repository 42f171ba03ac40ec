//! Which objects a statement is about: each object of an action is the one that the statement names
//! in the same role.
use vstd::prelude::*;

use crate::content::written_values;
use crate::names::{
    find, lemma_find, lookup_type, lookup_types, ExpectedTypes, IdentifierIdx, IdentifierType,
    NamesView,
};
use crate::script::{
    DirectiveView, DispatchType, DumpDataType, RootValConstView, RootValsView, ShaderReference,
    ShaderTableRecordView, UnresolvedValue,
};
use crate::source::IdentifierView;
use crate::state::{
    action, applied, const_queries, dispatch_objects, lookup_all, lookup_optional, made_type,
    queries, record_objects, record_shaders, root_objects, ActionView, DispatchContent, Query,
    RootObjectsView, StateView,
};

verus! {

/// Whether a name means the object `i`, and the object is of a kind.
pub open spec fn means(
    names: NamesView,
    name: IdentifierView,
    i: IdentifierIdx,
    typ: IdentifierType,
) -> bool {
    &&& i.0 < names.len()
    &&& names[i.0 as int].0.content == name.content
    &&& names[i.0 as int].1 == typ
}

/// The same for a name that may be left out: there is an object exactly if there is a name.
pub open spec fn means_optional(
    names: NamesView,
    name: Option<IdentifierView>,
    i: Option<IdentifierIdx>,
    typ: IdentifierType,
) -> bool {
    match (name, i) {
        (Some(name), Some(i)) => means(names, name, i, typ),
        (None, None) => true,
        _ => false,
    }
}

/// The same for each name of a list.
pub open spec fn means_all(
    names: NamesView,
    ids: Seq<IdentifierView>,
    found: Seq<IdentifierIdx>,
    typ: IdentifierType,
) -> bool {
    &&& found.len() == ids.len()
    &&& forall|k: int| 0 <= k < ids.len() ==> means(names, ids[k], #[trigger] found[k], typ)
}

/// Whether there is an object of a name, and it is of a kind.
pub open spec fn is_known(names: NamesView, name: IdentifierView, typ: IdentifierType) -> bool {
    exists|i: IdentifierIdx| means(names, name, i, typ)
}

/// A name is found exactly if an object of the kind has it, and then that object is found.
pub proof fn lemma_lookup(names: NamesView, name: IdentifierView, typ: IdentifierType)
    requires
        crate::names::names_ok(names),
        names.len() <= usize::MAX,
    ensures
        lookup_type(names, name, typ) matches Ok(i) ==> means(names, name, i, typ),
        lookup_type(names, name, typ) is Ok <==> is_known(names, name, typ),
{
    lemma_find(names, name.content);
    let list = ExpectedTypes::One(typ).spec_list();
    assert(list[0] == typ);
    if is_known(names, name, typ) {
        let i = choose|i: IdentifierIdx| means(names, name, i, typ);
        crate::names::lemma_find_named(names, i.0 as int);
        assert(find(names, name.content) == Some(i));
    }
    if let Ok(i) = lookup_type(names, name, typ) {
        assert(means(names, name, i, typ));
    }
}

proof fn lemma_optional(names: NamesView, name: Option<IdentifierView>, typ: IdentifierType)
    requires
        crate::names::names_ok(names),
        names.len() <= usize::MAX,
    ensures
        lookup_optional(names, name, typ) matches Ok(i) ==> means_optional(names, name, i, typ),
        lookup_optional(names, name, typ) is Ok <==> (name matches Some(n) ==> is_known(
            names,
            n,
            typ,
        )),
{
    if let Some(n) = name {
        lemma_lookup(names, n, typ);
    }
}

proof fn lemma_all(names: NamesView, ids: Seq<IdentifierView>, typ: IdentifierType)
    requires
        crate::names::names_ok(names),
        names.len() <= usize::MAX,
    ensures
        lookup_all(names, ids, typ) matches Ok(found) ==> means_all(names, ids, found, typ),
        lookup_all(names, ids, typ) is Ok <==> forall|k: int|
            0 <= k < ids.len() ==> is_known(names, #[trigger] ids[k], typ),
    decreases ids.len(),
{
    if ids.len() > 0 {
        let rest = ids.drop_last();
        lemma_all(names, rest, typ);
        lemma_lookup(names, ids.last(), typ);
        if let Ok(found) = lookup_all(names, ids, typ) {
            assert forall|k: int| 0 <= k < ids.len() implies means(
                names,
                ids[k],
                #[trigger] found[k],
                typ,
            ) by {
                if k < rest.len() {
                    assert(rest[k] == ids[k]);
                    assert(found.drop_last()[k] == found[k]);
                    if let Ok(before) = lookup_all(names, rest, typ) {
                        assert(before[k] == found[k]);
                    }
                }
            }
        }
        if lookup_all(names, rest, typ) is Ok {
            assert forall|k: int| 0 <= k < ids.len() && lookup_all(names, ids, typ) is Ok implies
                is_known(names, #[trigger] ids[k], typ) by {
                if k < rest.len() {
                    assert(rest[k] == ids[k]);
                }
            }
        }
        if forall|k: int| 0 <= k < ids.len() ==> is_known(names, #[trigger] ids[k], typ) {
            assert forall|k: int| 0 <= k < rest.len() implies is_known(
                names,
                #[trigger] rest[k],
                typ,
            ) by {
                assert(rest[k] == ids[k]);
            }
            assert(is_known(names, ids[ids.len() - 1], typ));
        }
    }
}

/// Whether a question is the one that a value raises: of the address of a buffer, a shader table or
/// an acceleration structure, or of the bits of a floating-point number.
pub open spec fn asks(
    names: NamesView,
    v: UnresolvedValue<Seq<char>>,
    q: Query<Seq<char>>,
) -> bool {
    match v {
        UnresolvedValue::Resolved(_) => q is Known,
        UnresolvedValue::F32(n) => q == Query::F32(n),
        UnresolvedValue::F16(n) => q == Query::F16(n),
        UnresolvedValue::Gpuva(name) => q matches Query::Address { id, typ } && means(
            names,
            name,
            id,
            typ,
        ) && has_address(typ),
    }
}

/// The kinds of objects that have an address on the GPU.
pub open spec fn has_address(typ: IdentifierType) -> bool {
    typ is Buffer || typ is ShaderTable || typ is Tlas || typ is Blas
}

/// Whether questions are those that values raise, one for each.
pub open spec fn asks_all(
    names: NamesView,
    values: Seq<UnresolvedValue<Seq<char>>>,
    qs: Seq<Query<Seq<char>>>,
) -> bool {
    &&& qs.len() == values.len()
    &&& forall|k: int| 0 <= k < values.len() ==> asks(names, values[k], #[trigger] qs[k])
}

proof fn lemma_addressable(typ: IdentifierType)
    ensures
        ExpectedTypes::Addressable.allows(typ) <==> has_address(typ),
        ExpectedTypes::Runnable.allows(typ) <==> typ is Pipeline || typ is PipelineStateObject,
{
    let list = ExpectedTypes::Addressable.spec_list();
    assert(list[0] is Buffer && list[1] is ShaderTable && list[2] is Tlas && list[3] is Blas);
    let list = ExpectedTypes::Runnable.spec_list();
    assert(list[0] is Pipeline && list[1] is PipelineStateObject);
}

/// Each value raises its own question. A name whose address is wanted must be that of an object
/// with an address.
pub proof fn lemma_queries_ask(names: NamesView, values: Seq<UnresolvedValue<Seq<char>>>)
    requires
        names.len() <= usize::MAX,
    ensures
        queries(names, values) matches Ok(qs) ==> asks_all(names, values, qs),
    decreases values.len(),
{
    if values.len() > 0 {
        let rest = values.drop_last();
        lemma_queries_ask(names, rest);
        if let UnresolvedValue::Gpuva(name) = values.last() {
            lemma_find(names, name.content);
            if let Some(i) = find(names, name.content) {
                lemma_addressable(names[i.0 as int].1);
            }
        }
        if let Ok(qs) = queries(names, values) {
            assert forall|k: int| 0 <= k < values.len() implies asks(
                names,
                values[k],
                #[trigger] qs[k],
            ) by {
                if k < rest.len() {
                    if let Ok(before) = queries(names, rest) {
                        assert(before[k] == qs[k]);
                        assert(rest[k] == values[k]);
                    }
                }
            }
        }
    }
}

/// Whether questions are those that constants raise.
pub open spec fn asks_consts(
    names: NamesView,
    consts: Seq<RootValConstView>,
    qs: Seq<Seq<Query<Seq<char>>>>,
) -> bool {
    &&& qs.len() == consts.len()
    &&& forall|k: int|
        0 <= k < consts.len() ==> asks_all(
            names,
            written_values(consts[k].content),
            #[trigger] qs[k],
        )
}

proof fn lemma_consts(names: NamesView, consts: Seq<RootValConstView>)
    requires
        names.len() <= usize::MAX,
    ensures
        const_queries(names, consts) matches Ok(qs) ==> asks_consts(names, consts, qs),
    decreases consts.len(),
{
    if consts.len() > 0 {
        let rest = consts.drop_last();
        lemma_consts(names, rest);
        lemma_queries_ask(names, written_values(consts.last().content));
        if let Ok(qs) = const_queries(names, consts) {
            assert forall|k: int| 0 <= k < consts.len() implies asks_all(
                names,
                written_values(consts[k].content),
                #[trigger] qs[k],
            ) by {
                if k < rest.len() {
                    if let Ok(before) = const_queries(names, rest) {
                        assert(before[k] == qs[k]);
                        assert(rest[k] == consts[k]);
                    }
                }
            }
        }
    }
}

/// Whether the objects for a root signature are those that are named: views for what is bound,
/// buffers for what is viewed, and the questions of the constants.
pub open spec fn are_root_objects(
    names: NamesView,
    vals: RootValsView,
    objects: RootObjectsView,
) -> bool {
    &&& objects.binds.len() == vals.binds.len()
    &&& forall|k: int|
        0 <= k < vals.binds.len() ==> means(
            names,
            vals.binds[k].view,
            #[trigger] objects.binds[k],
            IdentifierType::View,
        )
    &&& objects.views.len() == vals.views.len()
    &&& forall|k: int|
        0 <= k < vals.views.len() ==> means(
            names,
            vals.views[k].buffer,
            #[trigger] objects.views[k],
            IdentifierType::Buffer,
        )
    &&& asks_consts(names, vals.consts, objects.consts)
}

proof fn lemma_root_objects(names: NamesView, vals: RootValsView)
    requires
        crate::names::names_ok(names),
        names.len() <= usize::MAX,
    ensures
        root_objects(names, vals) matches Ok(objects) ==> are_root_objects(names, vals, objects),
{
    let bound = Seq::new(vals.binds.len(), |i: int| vals.binds[i].view);
    let buffers = Seq::new(vals.views.len(), |i: int| vals.views[i].buffer);
    lemma_all(names, bound, IdentifierType::View);
    lemma_all(names, buffers, IdentifierType::Buffer);
    lemma_consts(names, vals.consts);
    if let Ok(objects) = root_objects(names, vals) {
        assert forall|k: int| 0 <= k < vals.binds.len() implies means(
            names,
            vals.binds[k].view,
            #[trigger] objects.binds[k],
            IdentifierType::View,
        ) by {
            assert(bound[k] == vals.binds[k].view);
        }
        assert forall|k: int| 0 <= k < vals.views.len() implies means(
            names,
            vals.views[k].buffer,
            #[trigger] objects.views[k],
            IdentifierType::Buffer,
        ) by {
            assert(buffers[k] == vals.views[k].buffer);
        }
    }
}

/// Whether the shader identifier of a record is the one that it names.
pub open spec fn is_record_shader(
    names: NamesView,
    shader: ShaderReference<Seq<char>>,
    i: Option<IdentifierIdx>,
) -> bool {
    match shader {
        ShaderReference::ShaderId(name) => i matches Some(i) && means(
            names,
            name,
            i,
            IdentifierType::ShaderId,
        ),
        _ => i is None,
    }
}

proof fn lemma_records(names: NamesView, records: Seq<ShaderTableRecordView>)
    requires
        crate::names::names_ok(names),
        names.len() <= usize::MAX,
    ensures
        record_objects(names, records) matches Ok(found) ==> found.len() == records.len()
            && forall|k: int|
            0 <= k < records.len() ==> are_root_objects(
                names,
                records[k].root_val,
                #[trigger] found[k],
            ),
        record_shaders(names, records) matches Ok(found) ==> found.len() == records.len()
            && forall|k: int|
            0 <= k < records.len() ==> is_record_shader(
                names,
                records[k].shader,
                #[trigger] found[k],
            ),
    decreases records.len(),
{
    if records.len() > 0 {
        let rest = records.drop_last();
        lemma_records(names, rest);
        lemma_root_objects(names, records.last().root_val);
        if let ShaderReference::ShaderId(name) = records.last().shader {
            lemma_lookup(names, name, IdentifierType::ShaderId);
        }
        if let Ok(found) = record_objects(names, records) {
            assert forall|k: int| 0 <= k < records.len() implies are_root_objects(
                names,
                records[k].root_val,
                #[trigger] found[k],
            ) by {
                if k < rest.len() {
                    if let Ok(before) = record_objects(names, rest) {
                        assert(before[k] == found[k]);
                        assert(rest[k] == records[k]);
                    }
                }
            }
        }
        if let Ok(found) = record_shaders(names, records) {
            assert forall|k: int| 0 <= k < records.len() implies is_record_shader(
                names,
                records[k].shader,
                #[trigger] found[k],
            ) by {
                if k < rest.len() {
                    if let Ok(before) = record_shaders(names, rest) {
                        assert(before[k] == found[k]);
                        assert(rest[k] == records[k]);
                    }
                }
            }
        }
    }
}

/// Whether the objects of a dispatch are those that the statement names, each in its own role.
pub open spec fn are_dispatch_objects(
    names: NamesView,
    pipeline: IdentifierIdx,
    typ: DispatchType<Seq<char>>,
    content: DispatchContent,
) -> bool {
    match typ {
        DispatchType::Dispatch { .. } => content is Dispatch && names[pipeline.0 as int].1
            is Pipeline,
        DispatchType::DispatchRays { tables, .. } => {
            let table = IdentifierType::ShaderTable;
            &&& names[pipeline.0 as int].1 is PipelineStateObject
            &&& content matches DispatchContent::DispatchRays { tables: found } && means_optional(
                names,
                tables.raygen,
                found.raygen,
                table,
            ) && means_optional(names, tables.miss, found.miss, table) && means_optional(
                names,
                tables.hit_group,
                found.hit_group,
                table,
            ) && means_optional(names, tables.callable, found.callable, table)
        },
        DispatchType::ExecuteIndirect { signature, argument_buffer, count_buffer, .. } => {
            &&& names[pipeline.0 as int].1 is Pipeline || names[pipeline.0 as int].1
                is PipelineStateObject
            &&& content matches DispatchContent::ExecuteIndirect {
                signature: sig,
                pipeline_kind,
                argument_buffer: argument,
                count_buffer: count,
            } && means(names, signature, sig, IdentifierType::CommandSignature) && means(
                names,
                argument_buffer,
                argument,
                IdentifierType::Buffer,
            ) && means_optional(names, count_buffer, count, IdentifierType::Buffer) && (
            pipeline_kind is Pipeline <==> names[pipeline.0 as int].1 is Pipeline)
        },
    }
}

/// Whether the objects of an action are those that the statement names, each in its own role. The
/// object that the statement makes has the number `id`.
pub open spec fn are_roles(
    names: NamesView,
    id: IdentifierIdx,
    dir: DirectiveView,
    a: ActionView,
) -> bool {
    match dir {
        DirectiveView::Source { .. } => a is Nothing,
        DirectiveView::Object { source, .. } => a matches ActionView::Compile {
            id: made,
            source: found,
        } && made == id && means(names, source, found, IdentifierType::Source),
        DirectiveView::ObjectDxil { .. } => a == ActionView::CompileDxil { id },
        DirectiveView::Blas { .. } => a == ActionView::CreateBlas { id },
        DirectiveView::Tlas { blas, .. } => a matches ActionView::CreateTlas {
            id: made,
            blas: found,
        } && made == id && found.len() == blas.len() && forall|k: int|
            0 <= k < blas.len() ==> means(
                names,
                blas[k].name,
                #[trigger] found[k],
                IdentifierType::Blas,
            ),
        DirectiveView::Buffer { content, .. } => a matches ActionView::CreateBuffer {
            id: made,
            queries: qs,
        } && made == id && asks_all(names, written_values(content), qs),
        DirectiveView::RootSig { .. } => a == ActionView::CreateRootSig { id },
        DirectiveView::RootSigDxil { object, .. } => a matches ActionView::CreateRootSigDxil {
            id: made,
            object: found,
        } && made == id && means(names, object, found, IdentifierType::Object),
        DirectiveView::ShaderId { pipeline_state_object, .. } => a matches
            ActionView::CreateShaderId { id: made, pso } && made == id && means(
            names,
            pipeline_state_object,
            pso,
            IdentifierType::PipelineStateObject,
        ),
        DirectiveView::ShaderTable { pipeline_state_object, records, .. } => a matches
            ActionView::CreateShaderTable { id: made, pso, root_vals, shaders } && made == id && means(
            names,
            pipeline_state_object,
            pso,
            IdentifierType::PipelineStateObject,
        ) && root_vals.len() == records.len() && shaders.len() == records.len() && (forall|k: int|
            0 <= k < records.len() ==> are_root_objects(
                names,
                records[k].root_val,
                #[trigger] root_vals[k],
            )) && (forall|k: int|
            0 <= k < records.len() ==> is_record_shader(
                names,
                records[k].shader,
                #[trigger] shaders[k],
            )),
        DirectiveView::Pipeline { shaders, root_sig, .. } => a matches
            ActionView::CreateComputePipeline { id: made, shader, root_sig: root } && made == id
            && shaders.len() == 1 && means(names, shaders[0], shader, IdentifierType::Object)
            && means_optional(names, root_sig, root, IdentifierType::RootSig),
        DirectiveView::PipelineStateObject { add_to, libs, collections, .. } => a matches
            ActionView::CreatePipelineStateObject {
            id: made,
            add_to: base,
            libs: lib_ids,
            collections: collection_ids,
        } && made == id && means_optional(names, add_to, base, IdentifierType::PipelineStateObject)
            && lib_ids.len() == libs.len() && collection_ids.len() == collections.len() && (
        forall|k: int|
            0 <= k < libs.len() ==> means(
                names,
                libs[k].name,
                #[trigger] lib_ids[k],
                IdentifierType::Object,
            )) && (forall|k: int|
            0 <= k < collections.len() ==> means(
                names,
                collections[k].name,
                #[trigger] collection_ids[k],
                IdentifierType::PipelineStateObject,
            )),
        DirectiveView::View { buffer, typ, .. } => a matches ActionView::CreateView {
            id: made,
            buffer: found,
        } && made == id && means_optional(
            names,
            buffer,
            found,
            if typ is RaytracingAccelStruct {
                IdentifierType::Tlas
            } else {
                IdentifierType::Buffer
            },
        ) && (typ !is RaytracingAccelStruct ==> buffer is Some),
        DirectiveView::CommandSignature { root_sig, .. } => a matches
            ActionView::CreateCommandSignature { id: made, root_sig: root } && made == id
            && means_optional(names, root_sig, root, IdentifierType::RootSig),
        DirectiveView::Dispatch { pipeline, root_val, root_sig, typ, .. } => a matches
            ActionView::Dispatch {
            pipeline: found,
            root_val: objects,
            content,
            root_sig: root,
        } && found.0 < names.len() && names[found.0 as int].0.content == pipeline.content
            && are_root_objects(names, root_val, objects) && means_optional(
            names,
            root_sig,
            root,
            IdentifierType::RootSig,
        ) && are_dispatch_objects(names, found, typ, content),
        DirectiveView::Include { .. } => a is Include,
        DirectiveView::Sleep { .. } => a is Sleep,
        DirectiveView::Dump { resource, typ, .. } => match typ {
            DumpDataType::DataType(_) => a matches ActionView::DumpBuffer { resource: found }
                && means(names, resource, found, IdentifierType::Buffer),
            DumpDataType::Dxil => a matches ActionView::DumpDxil { object } && means(
                names,
                resource,
                object,
                IdentifierType::Object,
            ),
        },
        DirectiveView::Expect { resource, epsilon, values, .. } => a matches ActionView::Expect {
            resource: found,
            queries: qs,
        } && means(names, resource, found, IdentifierType::Buffer) && asks_all(
            names,
            match epsilon {
                Some(e) => values.push(e.content),
                None => values,
            },
            qs,
        ),
        DirectiveView::AssertShaderId { id_a, id_b, .. } => a matches ActionView::CompareShaderIds {
            id_a: a,
            id_b: b,
        } && means(names, id_a, a, IdentifierType::ShaderId) && means(
            names,
            id_b,
            b,
            IdentifierType::ShaderId,
        ),
    }
}

#[verifier::spinoff_prover]
proof fn lemma_dispatch_roles(
    names: NamesView,
    pipeline: IdentifierView,
    typ: DispatchType<Seq<char>>,
)
    requires
        crate::names::names_ok(names),
        names.len() <= usize::MAX,
    ensures
        dispatch_objects(names, pipeline, typ) matches Ok((kinds, content)) ==> (lookup_types(
            names,
            pipeline,
            kinds,
        ) matches Ok(found) ==> found.0 < names.len() && names[found.0 as int].0.content
            == pipeline.content && are_dispatch_objects(names, found, typ, content)),
{
    lemma_find(names, pipeline.content);
    let list = ExpectedTypes::One(IdentifierType::Pipeline).spec_list();
    assert(list[0] is Pipeline);
    let list = ExpectedTypes::One(IdentifierType::PipelineStateObject).spec_list();
    assert(list[0] is PipelineStateObject);
    if let Some(i) = find(names, pipeline.content) {
        lemma_addressable(names[i.0 as int].1);
    }
    match typ {
        DispatchType::Dispatch { .. } => {},
        DispatchType::DispatchRays { tables, .. } => {
            lemma_optional(names, tables.raygen, IdentifierType::ShaderTable);
            lemma_optional(names, tables.miss, IdentifierType::ShaderTable);
            lemma_optional(names, tables.hit_group, IdentifierType::ShaderTable);
            lemma_optional(names, tables.callable, IdentifierType::ShaderTable);
        },
        DispatchType::ExecuteIndirect { signature, argument_buffer, count_buffer, .. } => {
            lemma_lookup(names, signature, IdentifierType::CommandSignature);
            lemma_lookup(names, argument_buffer, IdentifierType::Buffer);
            lemma_optional(names, count_buffer, IdentifierType::Buffer);
        },
    }
}

/// What a statement asks for is about the objects that the statement names, each in its own role
/// and of the kind that the role wants. What may be left out is there exactly if it is named.
#[verifier::spinoff_prover]
pub proof fn lemma_roles(names: NamesView, id: IdentifierIdx, dir: DirectiveView)
    requires
        crate::names::names_ok(names),
        names.len() <= usize::MAX,
    ensures
        action(names, id, dir) matches Ok(a) ==> are_roles(names, id, dir, a),
{
    match dir {
        DirectiveView::Object { source, .. } => {
            lemma_lookup(names, source, IdentifierType::Source);
        },
        DirectiveView::Tlas { blas, .. } => {
            let instances = Seq::new(blas.len(), |i: int| blas[i].name);
            lemma_all(names, instances, IdentifierType::Blas);
            if let Ok(ActionView::CreateTlas { blas: found, .. }) = action(names, id, dir) {
                assert forall|k: int| 0 <= k < blas.len() implies means(
                    names,
                    blas[k].name,
                    #[trigger] found[k],
                    IdentifierType::Blas,
                ) by {
                    assert(instances[k] == blas[k].name);
                }
            }
        },
        DirectiveView::Buffer { content, .. } => {
            lemma_queries_ask(names, written_values(content));
        },
        DirectiveView::RootSigDxil { object, .. } => {
            lemma_lookup(names, object, IdentifierType::Object);
        },
        DirectiveView::ShaderId { pipeline_state_object, .. } => {
            lemma_lookup(names, pipeline_state_object, IdentifierType::PipelineStateObject);
        },
        DirectiveView::ShaderTable { pipeline_state_object, records, .. } => {
            lemma_lookup(names, pipeline_state_object, IdentifierType::PipelineStateObject);
            lemma_records(names, records);
        },
        DirectiveView::Pipeline { shaders, root_sig, .. } => {
            lemma_all(names, shaders, IdentifierType::Object);
            lemma_optional(names, root_sig, IdentifierType::RootSig);
        },
        DirectiveView::PipelineStateObject { add_to, libs, collections, .. } => {
            let lib_names = Seq::new(libs.len(), |i: int| libs[i].name);
            let collection_names = Seq::new(collections.len(), |i: int| collections[i].name);
            lemma_optional(names, add_to, IdentifierType::PipelineStateObject);
            lemma_all(names, lib_names, IdentifierType::Object);
            lemma_all(names, collection_names, IdentifierType::PipelineStateObject);
            if let Ok(
                ActionView::CreatePipelineStateObject { libs: a, collections: b, .. },
            ) = action(names, id, dir) {
                assert forall|k: int| 0 <= k < libs.len() implies means(
                    names,
                    libs[k].name,
                    #[trigger] a[k],
                    IdentifierType::Object,
                ) by {
                    assert(lib_names[k] == libs[k].name);
                }
                assert forall|k: int| 0 <= k < collections.len() implies means(
                    names,
                    collections[k].name,
                    #[trigger] b[k],
                    IdentifierType::PipelineStateObject,
                ) by {
                    assert(collection_names[k] == collections[k].name);
                }
            }
        },
        DirectiveView::View { buffer, typ, .. } => {
            lemma_optional(names, buffer, IdentifierType::Tlas);
            lemma_optional(names, buffer, IdentifierType::Buffer);
        },
        DirectiveView::CommandSignature { root_sig, .. } => {
            lemma_optional(names, root_sig, IdentifierType::RootSig);
        },
        DirectiveView::Dispatch { pipeline, root_val, root_sig, typ, .. } => {
            lemma_dispatch_roles(names, pipeline, typ);
            lemma_optional(names, root_sig, IdentifierType::RootSig);
            lemma_root_objects(names, root_val);
        },
        DirectiveView::Dump { resource, .. } => {
            lemma_lookup(names, resource, IdentifierType::Buffer);
            lemma_lookup(names, resource, IdentifierType::Object);
        },
        DirectiveView::Expect { resource, epsilon, values, .. } => {
            lemma_lookup(names, resource, IdentifierType::Buffer);
            lemma_queries_ask(names, values);
            if let Some(e) = epsilon {
                lemma_queries_ask(names, values.push(e.content));
            }
        },
        DirectiveView::AssertShaderId { id_a, id_b, .. } => {
            lemma_lookup(names, id_a, IdentifierType::ShaderId);
            lemma_lookup(names, id_b, IdentifierType::ShaderId);
        },
        _ => {},
    }
}

/// A statement that makes an object makes it under its own name and of the kind that its first word
/// says, and what it asks for is about this object.
pub proof fn lemma_applied_roles(state: StateView, dir: DirectiveView)
    requires
        crate::names::names_ok(state.names),
        state.names.len() < usize::MAX,
    ensures
        ({
            let (after, asked) = applied(state, dir);
            let id = if made_type(dir) is Some {
                IdentifierIdx(state.names.len() as usize)
            } else {
                IdentifierIdx(0)
            };
            asked matches Ok(a) ==> are_roles(after.names, id, dir, a) && (made_type(dir) matches
                Some(typ) ==> means(after.names, dir.identifier(), id, typ))
        }),
{
    if let Some(typ) = made_type(dir) {
        crate::names::lemma_added(state.names, dir.identifier(), typ);
        if let Ok(names) = crate::names::added(state.names, dir.identifier(), typ) {
            lemma_roles(names, IdentifierIdx(state.names.len() as usize), dir);
        }
    } else {
        lemma_roles(state.names, IdentifierIdx(0), dir);
    }
}

/// A statement that declares something makes an object of the declared kind, under the declared
/// name. A statement that does something makes no object, and is known by its first word.
pub proof fn lemma_made_type(dir: DirectiveView)
    ensures
        match dir {
            DirectiveView::Source { name, .. } => dir.identifier() == name && made_type(dir)
                == Some(IdentifierType::Source),
            DirectiveView::Object { name, .. } => dir.identifier() == name && made_type(dir)
                == Some(IdentifierType::Object),
            DirectiveView::ObjectDxil { name, .. } => dir.identifier() == name && made_type(dir)
                == Some(IdentifierType::Object),
            DirectiveView::Blas { name, .. } => dir.identifier() == name && made_type(dir)
                == Some(IdentifierType::Blas),
            DirectiveView::Tlas { name, .. } => dir.identifier() == name && made_type(dir)
                == Some(IdentifierType::Tlas),
            DirectiveView::Buffer { name, .. } => dir.identifier() == name && made_type(dir)
                == Some(IdentifierType::Buffer),
            DirectiveView::RootSig { name, .. } => dir.identifier() == name && made_type(dir)
                == Some(IdentifierType::RootSig),
            DirectiveView::RootSigDxil { name, .. } => dir.identifier() == name && made_type(dir)
                == Some(IdentifierType::RootSig),
            DirectiveView::ShaderId { name, .. } => dir.identifier() == name && made_type(dir)
                == Some(IdentifierType::ShaderId),
            DirectiveView::ShaderTable { name, .. } => dir.identifier() == name && made_type(dir)
                == Some(IdentifierType::ShaderTable),
            DirectiveView::Pipeline { name, .. } => dir.identifier() == name && made_type(dir)
                == Some(IdentifierType::Pipeline),
            DirectiveView::PipelineStateObject { name, .. } => dir.identifier() == name && made_type(dir)
                == Some(IdentifierType::PipelineStateObject),
            DirectiveView::View { name, .. } => dir.identifier() == name && made_type(dir)
                == Some(IdentifierType::View),
            DirectiveView::CommandSignature { name, .. } => dir.identifier() == name && made_type(dir)
                == Some(IdentifierType::CommandSignature),
            DirectiveView::Dispatch { identifier, .. } => made_type(dir) is None && dir.identifier()
                == identifier,
            DirectiveView::Include { identifier, .. } => made_type(dir) is None && dir.identifier()
                == identifier,
            DirectiveView::Sleep { identifier, .. } => made_type(dir) is None && dir.identifier()
                == identifier,
            DirectiveView::Dump { identifier, .. } => made_type(dir) is None && dir.identifier()
                == identifier,
            DirectiveView::Expect { identifier, .. } => made_type(dir) is None && dir.identifier()
                == identifier,
            DirectiveView::AssertShaderId { identifier, .. } => made_type(dir) is None && dir.identifier()
                == identifier,
        },
{
}

/// Whether there is an object of a name, and it is of one of some kinds.
pub open spec fn is_known_as(names: NamesView, name: IdentifierView, kinds: ExpectedTypes) -> bool {
    exists|i: IdentifierIdx, typ: IdentifierType|
        #[trigger] means(names, name, i, typ) && kinds.allows(typ)
}

proof fn lemma_lookup_kinds(names: NamesView, name: IdentifierView, kinds: ExpectedTypes)
    requires
        crate::names::names_ok(names),
        names.len() <= usize::MAX,
    ensures
        lookup_types(names, name, kinds) is Ok <==> is_known_as(names, name, kinds),
{
    lemma_find(names, name.content);
    if is_known_as(names, name, kinds) {
        let (i, typ) = choose|i: IdentifierIdx, typ: IdentifierType|
            #[trigger] means(names, name, i, typ) && kinds.allows(typ);
        crate::names::lemma_find_named(names, i.0 as int);
        assert(find(names, name.content) == Some(i));
    }
    if let Ok(i) = lookup_types(names, name, kinds) {
        assert(means(names, name, i, names[i.0 as int].1) && kinds.allows(names[i.0 as int].1));
    }
}

/// Whether what a value raises can be answered: only a name whose address is wanted can be wrong.
pub open spec fn value_known(names: NamesView, v: UnresolvedValue<Seq<char>>) -> bool {
    v matches UnresolvedValue::Gpuva(name) ==> is_known_as(names, name, ExpectedTypes::Addressable)
}

/// The same for each of some values.
pub open spec fn values_known(names: NamesView, values: Seq<UnresolvedValue<Seq<char>>>) -> bool {
    forall|k: int| 0 <= k < values.len() ==> value_known(names, #[trigger] values[k])
}

proof fn lemma_queries_known(names: NamesView, values: Seq<UnresolvedValue<Seq<char>>>)
    requires
        crate::names::names_ok(names),
        names.len() <= usize::MAX,
    ensures
        queries(names, values) is Ok <==> values_known(names, values),
    decreases values.len(),
{
    if values.len() > 0 {
        let rest = values.drop_last();
        lemma_queries_known(names, rest);
        if let UnresolvedValue::Gpuva(name) = values.last() {
            lemma_lookup_kinds(names, name, ExpectedTypes::Addressable);
        }
        assert(values.last() == values[values.len() - 1]);
        assert forall|k: int| 0 <= k < rest.len() implies #[trigger] rest[k] == values[k] by {}
        if values_known(names, rest) && value_known(names, values.last()) {
            assert forall|k: int| 0 <= k < values.len() implies value_known(
                names,
                #[trigger] values[k],
            ) by {
                if k < rest.len() {
                    assert(value_known(names, rest[k]));
                }
            }
        }
        if values_known(names, values) {
            assert(value_known(names, values[values.len() - 1]));
            assert forall|k: int| 0 <= k < rest.len() implies value_known(
                names,
                #[trigger] rest[k],
            ) by {
                assert(value_known(names, values[k]));
            }
        }
    }
}

/// Whether all that root values name is known.
pub open spec fn root_known(names: NamesView, vals: RootValsView) -> bool {
    &&& forall|k: int|
        0 <= k < vals.binds.len() ==> is_known(
            names,
            (#[trigger] vals.binds[k]).view,
            IdentifierType::View,
        )
    &&& forall|k: int|
        0 <= k < vals.views.len() ==> is_known(
            names,
            (#[trigger] vals.views[k]).buffer,
            IdentifierType::Buffer,
        )
    &&& forall|k: int|
        0 <= k < vals.consts.len() ==> values_known(
            names,
            written_values((#[trigger] vals.consts[k]).content),
        )
}

proof fn lemma_consts_known(names: NamesView, consts: Seq<RootValConstView>)
    requires
        crate::names::names_ok(names),
        names.len() <= usize::MAX,
    ensures
        const_queries(names, consts) is Ok <==> forall|k: int|
            0 <= k < consts.len() ==> values_known(
                names,
                written_values((#[trigger] consts[k]).content),
            ),
    decreases consts.len(),
{
    if consts.len() > 0 {
        let rest = consts.drop_last();
        lemma_consts_known(names, rest);
        lemma_queries_known(names, written_values(consts.last().content));
        assert(consts.last() == consts[consts.len() - 1]);
        assert forall|k: int| 0 <= k < rest.len() implies #[trigger] rest[k] == consts[k] by {}
        if const_queries(names, consts) is Ok {
            assert forall|k: int| 0 <= k < consts.len() implies values_known(
                names,
                written_values((#[trigger] consts[k]).content),
            ) by {
                if k < rest.len() {
                    assert(values_known(names, written_values(rest[k].content)));
                }
            }
        } else if const_queries(names, rest) is Err {
            let k = choose|k: int|
                0 <= k < rest.len() && !values_known(
                    names,
                    written_values((#[trigger] rest[k]).content),
                );
            assert(!values_known(names, written_values(consts[k].content)));
        }
    }
}

proof fn lemma_root_known(names: NamesView, vals: RootValsView)
    requires
        crate::names::names_ok(names),
        names.len() <= usize::MAX,
    ensures
        root_objects(names, vals) is Ok <==> root_known(names, vals),
{
    let bound = Seq::new(vals.binds.len(), |i: int| vals.binds[i].view);
    let buffers = Seq::new(vals.views.len(), |i: int| vals.views[i].buffer);
    lemma_all(names, bound, IdentifierType::View);
    lemma_all(names, buffers, IdentifierType::Buffer);
    lemma_consts_known(names, vals.consts);
    if root_objects(names, vals) is Ok {
        assert forall|k: int| 0 <= k < vals.binds.len() implies is_known(
            names,
            (#[trigger] vals.binds[k]).view,
            IdentifierType::View,
        ) by {
            assert(is_known(names, bound[k], IdentifierType::View));
        }
        assert forall|k: int| 0 <= k < vals.views.len() implies is_known(
            names,
            (#[trigger] vals.views[k]).buffer,
            IdentifierType::Buffer,
        ) by {
            assert(is_known(names, buffers[k], IdentifierType::Buffer));
        }
    }
    if root_known(names, vals) {
        assert forall|k: int| 0 <= k < bound.len() implies is_known(
            names,
            #[trigger] bound[k],
            IdentifierType::View,
        ) by {
            assert(is_known(names, vals.binds[k].view, IdentifierType::View));
        }
        assert forall|k: int| 0 <= k < buffers.len() implies is_known(
            names,
            #[trigger] buffers[k],
            IdentifierType::Buffer,
        ) by {
            assert(is_known(names, vals.views[k].buffer, IdentifierType::Buffer));
        }
    }
}

/// Whether all that a record of a shader table names is known.
pub open spec fn record_known(names: NamesView, record: ShaderTableRecordView) -> bool {
    &&& root_known(names, record.root_val)
    &&& record.shader matches ShaderReference::ShaderId(name) ==> is_known(
        names,
        name,
        IdentifierType::ShaderId,
    )
}

proof fn lemma_records_known(names: NamesView, records: Seq<ShaderTableRecordView>)
    requires
        crate::names::names_ok(names),
        names.len() <= usize::MAX,
    ensures
        record_objects(names, records) is Ok && record_shaders(names, records) is Ok <==> forall|
            k: int,
        |
            0 <= k < records.len() ==> record_known(names, #[trigger] records[k]),
    decreases records.len(),
{
    if records.len() > 0 {
        let rest = records.drop_last();
        let last = records.last();
        lemma_records_known(names, rest);
        lemma_root_known(names, last.root_val);
        if let ShaderReference::ShaderId(name) = last.shader {
            lemma_lookup(names, name, IdentifierType::ShaderId);
        }
        assert(last == records[records.len() - 1]);
        assert forall|k: int| 0 <= k < rest.len() implies #[trigger] rest[k] == records[k] by {}
        if record_objects(names, records) is Ok && record_shaders(names, records) is Ok {
            assert forall|k: int| 0 <= k < records.len() implies record_known(
                names,
                #[trigger] records[k],
            ) by {
                if k < rest.len() {
                    assert(record_known(names, rest[k]));
                }
            }
        } else if record_objects(names, rest) is Err || record_shaders(names, rest) is Err {
            let k = choose|k: int|
                0 <= k < rest.len() && !record_known(names, #[trigger] rest[k]);
            assert(!record_known(names, records[k]));
        }
    }
}

/// Whether a name that may be left out is known, if it is there.
pub open spec fn optional_known(
    names: NamesView,
    name: Option<IdentifierView>,
    typ: IdentifierType,
) -> bool {
    name matches Some(name) ==> is_known(names, name, typ)
}

/// Whether all that a dispatch names besides its root values is known.
pub open spec fn dispatch_known(
    names: NamesView,
    pipeline: IdentifierView,
    typ: DispatchType<Seq<char>>,
) -> bool {
    match typ {
        DispatchType::Dispatch { .. } => is_known(names, pipeline, IdentifierType::Pipeline),
        DispatchType::DispatchRays { tables, .. } => {
            let table = IdentifierType::ShaderTable;
            &&& is_known(names, pipeline, IdentifierType::PipelineStateObject)
            &&& optional_known(names, tables.raygen, table)
            &&& optional_known(names, tables.miss, table)
            &&& optional_known(names, tables.hit_group, table)
            &&& optional_known(names, tables.callable, table)
        },
        DispatchType::ExecuteIndirect { signature, argument_buffer, count_buffer, .. } => {
            &&& is_known(names, pipeline, IdentifierType::Pipeline) || is_known(
                names,
                pipeline,
                IdentifierType::PipelineStateObject,
            )
            &&& is_known(names, signature, IdentifierType::CommandSignature)
            &&& is_known(names, argument_buffer, IdentifierType::Buffer)
            &&& optional_known(names, count_buffer, IdentifierType::Buffer)
        },
    }
}

/// Whether all that a statement names is known, and of the kind that its role wants.
pub open spec fn all_known(names: NamesView, dir: DirectiveView) -> bool {
    match dir {
        DirectiveView::Object { source, .. } => is_known(names, source, IdentifierType::Source),
        DirectiveView::Tlas { blas, .. } => forall|k: int|
            0 <= k < blas.len() ==> is_known(
                names,
                (#[trigger] blas[k]).name,
                IdentifierType::Blas,
            ),
        DirectiveView::Buffer { content, .. } => values_known(names, written_values(content)),
        DirectiveView::RootSigDxil { object, .. } => is_known(
            names,
            object,
            IdentifierType::Object,
        ),
        DirectiveView::ShaderId { pipeline_state_object, .. } => is_known(
            names,
            pipeline_state_object,
            IdentifierType::PipelineStateObject,
        ),
        DirectiveView::ShaderTable { pipeline_state_object, records, .. } => is_known(
            names,
            pipeline_state_object,
            IdentifierType::PipelineStateObject,
        ) && forall|k: int| 0 <= k < records.len() ==> record_known(names, #[trigger] records[k]),
        DirectiveView::Pipeline { shaders, root_sig, .. } => shaders.len() == 1 && is_known(
            names,
            shaders[0],
            IdentifierType::Object,
        ) && optional_known(names, root_sig, IdentifierType::RootSig),
        DirectiveView::PipelineStateObject { add_to, libs, collections, .. } => {
            let kind = IdentifierType::PipelineStateObject;
            &&& optional_known(names, add_to, kind)
            &&& forall|k: int|
                0 <= k < libs.len() ==> is_known(
                    names,
                    (#[trigger] libs[k]).name,
                    IdentifierType::Object,
                )
            &&& forall|k: int|
                0 <= k < collections.len() ==> is_known(
                    names,
                    (#[trigger] collections[k]).name,
                    kind,
                )
        },
        DirectiveView::View { buffer, typ, .. } => if typ is RaytracingAccelStruct {
            optional_known(names, buffer, IdentifierType::Tlas)
        } else {
            buffer matches Some(b) && is_known(names, b, IdentifierType::Buffer)
        },
        DirectiveView::CommandSignature { root_sig, .. } => optional_known(
            names,
            root_sig,
            IdentifierType::RootSig,
        ),
        DirectiveView::Dispatch { pipeline, root_val, root_sig, typ, .. } => dispatch_known(
            names,
            pipeline,
            typ,
        ) && optional_known(names, root_sig, IdentifierType::RootSig) && root_known(
            names,
            root_val,
        ),
        DirectiveView::Dump { resource, typ, .. } => is_known(
            names,
            resource,
            if typ is Dxil {
                IdentifierType::Object
            } else {
                IdentifierType::Buffer
            },
        ),
        DirectiveView::Expect { resource, epsilon, values, .. } => is_known(
            names,
            resource,
            IdentifierType::Buffer,
        ) && values_known(names, values) && (epsilon matches Some(e) ==> value_known(
            names,
            e.content,
        )),
        DirectiveView::AssertShaderId { id_a, id_b, .. } => is_known(
            names,
            id_a,
            IdentifierType::ShaderId,
        ) && is_known(names, id_b, IdentifierType::ShaderId),
        _ => true,
    }
}

#[verifier::spinoff_prover]
proof fn lemma_dispatch_known(
    names: NamesView,
    pipeline: IdentifierView,
    typ: DispatchType<Seq<char>>,
)
    requires
        crate::names::names_ok(names),
        names.len() <= usize::MAX,
    ensures
        dispatch_known(names, pipeline, typ) <==> (dispatch_objects(names, pipeline, typ) matches Ok(
            (kinds, _),
        ) && lookup_types(names, pipeline, kinds) is Ok),
{
    lemma_lookup(names, pipeline, IdentifierType::Pipeline);
    lemma_lookup(names, pipeline, IdentifierType::PipelineStateObject);
    lemma_find(names, pipeline.content);
    let list = ExpectedTypes::One(IdentifierType::Pipeline).spec_list();
    assert(list[0] is Pipeline);
    let list = ExpectedTypes::One(IdentifierType::PipelineStateObject).spec_list();
    assert(list[0] is PipelineStateObject);
    if let Some(i) = find(names, pipeline.content) {
        lemma_addressable(names[i.0 as int].1);
    }
    match typ {
        DispatchType::Dispatch { .. } => {},
        DispatchType::DispatchRays { tables, .. } => {
            lemma_optional(names, tables.raygen, IdentifierType::ShaderTable);
            lemma_optional(names, tables.miss, IdentifierType::ShaderTable);
            lemma_optional(names, tables.hit_group, IdentifierType::ShaderTable);
            lemma_optional(names, tables.callable, IdentifierType::ShaderTable);
        },
        DispatchType::ExecuteIndirect { signature, argument_buffer, count_buffer, .. } => {
            lemma_lookup(names, signature, IdentifierType::CommandSignature);
            lemma_lookup(names, argument_buffer, IdentifierType::Buffer);
            lemma_optional(names, count_buffer, IdentifierType::Buffer);
        },
    }
}

/// A statement can be run exactly if all that it names is known.
#[verifier::spinoff_prover]
pub proof fn lemma_known(names: NamesView, id: IdentifierIdx, dir: DirectiveView)
    requires
        crate::names::names_ok(names),
        names.len() <= usize::MAX,
    ensures
        action(names, id, dir) is Ok <==> all_known(names, dir),
{
    match dir {
        DirectiveView::Object { source, .. } => {
            lemma_lookup(names, source, IdentifierType::Source);
        },
        DirectiveView::Tlas { blas, .. } => {
            let instances = Seq::new(blas.len(), |i: int| blas[i].name);
            lemma_all(names, instances, IdentifierType::Blas);
            if action(names, id, dir) is Ok {
                assert forall|k: int| 0 <= k < blas.len() implies is_known(
                    names,
                    (#[trigger] blas[k]).name,
                    IdentifierType::Blas,
                ) by {
                    assert(is_known(names, instances[k], IdentifierType::Blas));
                }
            }
        },
        DirectiveView::Buffer { content, .. } => {
            lemma_queries_known(names, written_values(content));
        },
        DirectiveView::RootSigDxil { object, .. } => {
            lemma_lookup(names, object, IdentifierType::Object);
        },
        DirectiveView::ShaderId { pipeline_state_object, .. } => {
            lemma_lookup(names, pipeline_state_object, IdentifierType::PipelineStateObject);
        },
        DirectiveView::ShaderTable { pipeline_state_object, records, .. } => {
            lemma_lookup(names, pipeline_state_object, IdentifierType::PipelineStateObject);
            lemma_records_known(names, records);
        },
        DirectiveView::Pipeline { shaders, root_sig, .. } => {
            lemma_all(names, shaders, IdentifierType::Object);
            lemma_optional(names, root_sig, IdentifierType::RootSig);
        },
        DirectiveView::PipelineStateObject { add_to, libs, collections, .. } => {
            let kind = IdentifierType::PipelineStateObject;
            let lib_names = Seq::new(libs.len(), |i: int| libs[i].name);
            let collection_names = Seq::new(collections.len(), |i: int| collections[i].name);
            lemma_optional(names, add_to, kind);
            lemma_all(names, lib_names, IdentifierType::Object);
            lemma_all(names, collection_names, kind);
            if action(names, id, dir) is Ok {
                assert forall|k: int| 0 <= k < libs.len() implies is_known(
                    names,
                    (#[trigger] libs[k]).name,
                    IdentifierType::Object,
                ) by {
                    assert(is_known(names, lib_names[k], IdentifierType::Object));
                }
                assert forall|k: int| 0 <= k < collections.len() implies is_known(
                    names,
                    (#[trigger] collections[k]).name,
                    kind,
                ) by {
                    assert(is_known(names, collection_names[k], kind));
                }
            }
        },
        DirectiveView::View { buffer, .. } => {
            lemma_optional(names, buffer, IdentifierType::Tlas);
            lemma_optional(names, buffer, IdentifierType::Buffer);
        },
        DirectiveView::CommandSignature { root_sig, .. } => {
            lemma_optional(names, root_sig, IdentifierType::RootSig);
        },
        DirectiveView::Dispatch { pipeline, root_val, root_sig, typ, .. } => {
            lemma_dispatch_known(names, pipeline, typ);
            lemma_optional(names, root_sig, IdentifierType::RootSig);
            lemma_root_known(names, root_val);
        },
        DirectiveView::Dump { resource, .. } => {
            lemma_lookup(names, resource, IdentifierType::Buffer);
            lemma_lookup(names, resource, IdentifierType::Object);
        },
        DirectiveView::Expect { resource, epsilon, values, .. } => {
            lemma_lookup(names, resource, IdentifierType::Buffer);
            lemma_queries_known(names, values);
            if let Some(e) = epsilon {
                let all = values.push(e.content);
                lemma_queries_known(names, all);
                assert(all[values.len() as int] == e.content);
                assert forall|k: int| 0 <= k < values.len() implies #[trigger] all[k]
                    == values[k] by {}
                if values_known(names, all) {
                    assert(value_known(names, all[values.len() as int]));
                    assert forall|k: int| 0 <= k < values.len() implies value_known(
                        names,
                        #[trigger] values[k],
                    ) by {
                        assert(value_known(names, all[k]));
                    }
                }
            }
        },
        DirectiveView::AssertShaderId { id_a, id_b, .. } => {
            lemma_lookup(names, id_a, IdentifierType::ShaderId);
            lemma_lookup(names, id_b, IdentifierType::ShaderId);
        },
        _ => {},
    }
}

} // verus!
