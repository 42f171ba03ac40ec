//! What holds of every script that can be read.
use vstd::prelude::*;
use vstd::utf8::encode_utf8;

use crate::content::{fill_matches};
use crate::grammar::bindings::{command_signature, pipeline, root_sig, root_sig_dxil, view};
use crate::grammar::checks::{
    assert_shader_id, dump, epsilon, expect, expect_value, expect_values, expect_values_from,
    include_file, print_stride, sleep, value_object, ExpectItemsView,
};
use crate::grammar::dispatches::{
    dispatch, dispatch_item, dispatch_items, dispatch_view, root_const, DispatchItemsView,
    DispatchParseType,
};
use crate::grammar::geometry::{blas, tlas};
use crate::grammar::objects::{object, object_args, object_dxil, pso, source};
use crate::grammar::statements::{script, statement, statements, statements_from};
use crate::grammar::tables::{
    named_record, record, record_content, record_item, record_items, record_statement, records,
    shaderid, shadertable, RecordItemsView,
};
use crate::grammar::tokens::{
    comment_end, identifier, in_class, in_statement, is_letter, line_end, line_ending, line_gap, line_gaps_end,
    multiline_comment, non_zero_u64, run_end, single_line_end, singleline_comment, space,
    space_identifier, space_item, spaces_end, value, word, CharClass,
};
use crate::grammar::values::{
    buffer, content, content_raw, content_typed, fill, fill_const, fill_series, space_value,
};
use crate::parse_error::{Fail, Outcome, ParserError, StatementFormat};
use crate::script::{
    unresolved_type, DirectiveView, PipelineStateObjectType, RootValsView, ShaderTableRecordView,
};
use crate::source::{lemma_span_in_text, IdentifierView, Script, Span};
use crate::value::DataType;

verus! {

/// Whether a text is a word: letters, digits and underscores, but no digit at its start.
pub open spec fn is_word(w: Seq<char>) -> bool {
    &&& w.len() > 0
    &&& is_letter(w[0]) || w[0] == '_'
    &&& forall|i: int| 0 <= i < w.len() ==> in_class(CharClass::Word, #[trigger] w[i])
}

/// Whether a word stands where it says that it stands.
pub open spec fn names_place(s: Script, id: IdentifierView) -> bool {
    &&& is_word(id.content)
    &&& id.source_file == s.file
    &&& id.span.start < id.span.end <= encode_utf8(s.text).len()
    &&& encode_utf8(s.text).subrange(id.span.start as int, id.span.end as int) == encode_utf8(
        id.content,
    )
}

/// Whether the root values of a statement are of use: arrays are filled with values of their own
/// type, and for a dispatch it is known how each buffer is accessed.
pub open spec fn root_vals_ok(vals: RootValsView, is_dispatch: bool) -> bool {
    &&& forall|i: int| 0 <= i < vals.consts.len() ==> fill_matches((#[trigger] vals.consts[i]).content)
    &&& is_dispatch ==> forall|i: int|
        0 <= i < vals.views.len() ==> (#[trigger] vals.views[i]).typ is Some
}

/// Whether the values of a statement fit together.
pub open spec fn values_ok(d: DirectiveView) -> bool {
    match d {
        DirectiveView::Buffer { content, .. } => fill_matches(content),
        DirectiveView::ShaderTable { records, .. } => forall|i: int|
            0 <= i < records.len() ==> root_vals_ok((#[trigger] records[i]).root_val, false),
        DirectiveView::Dispatch { root_val, .. } => root_vals_ok(root_val, true),
        DirectiveView::Dump { print_stride, .. } => print_stride != Some(0u64),
        DirectiveView::Expect { epsilon, values, value_spans, .. } => {
            &&& values.len() > 0
            &&& value_spans.len() == values.len()
            &&& forall|i: int|
                0 <= i < values.len() ==> unresolved_type(#[trigger] values[i]) == unresolved_type(
                    values[0],
                ) && values[i] !is Gpuva
            &&& epsilon matches Some(e) ==> unresolved_type(e.content) == unresolved_type(
                values[0],
            ) && e.content !is Gpuva
        },
        _ => true,
    }
}

proof fn lemma_run_end(text: Seq<char>, p: int, class: CharClass)
    requires
        0 <= p <= text.len(),
    ensures
        p <= run_end(text, p, class) <= text.len(),
        forall|i: int| p <= i < run_end(text, p, class) ==> in_class(class, #[trigger] text[i]),
    decreases text.len() - p,
{
    if p < text.len() && in_class(class, text[p]) {
        lemma_run_end(text, p + 1, class);
    }
}

proof fn lemma_comment_end(text: Seq<char>, p: int, depth: nat)
    requires
        0 <= p,
    ensures
        comment_end(text, p, depth) matches Some(end) ==> p < end <= text.len(),
    decreases text.len() - p,
{
    if p < text.len() {
        lemma_comment_end(text, p + 1, depth);
        if p + 1 < text.len() {
            lemma_comment_end(text, p + 2, depth + 1);
            if depth > 1 {
                lemma_comment_end(text, p + 2, (depth - 1) as nat);
            }
        }
    }
}

proof fn lemma_space_item(s: Script, p: int)
    requires
        0 <= p <= s.text.len(),
    ensures
        space_item(s, p) matches Ok((_, end)) ==> p < end <= s.text.len(),
{
    reveal(multiline_comment);
    lemma_run_end(s.text, p, CharClass::Blank);
    lemma_comment_end(s.text, p + 2, 1);
}

proof fn lemma_spaces_end(s: Script, p: int)
    requires
        0 <= p <= s.text.len(),
    ensures
        p <= spaces_end(s, p) <= s.text.len(),
    decreases s.text.len() - p,
{
    lemma_space_item(s, p);
    if let Ok((_, end)) = space_item(s, p) {
        lemma_spaces_end(s, end);
    }
}

proof fn lemma_space(s: Script, p: int)
    requires
        0 <= p <= s.text.len(),
    ensures
        space(s, p) matches Ok((_, end)) ==> p < end <= s.text.len(),
{
    reveal(space);
    lemma_space_item(s, p);
    if let Ok((_, end)) = space_item(s, p) {
        lemma_spaces_end(s, end);
    }
}

proof fn lemma_singleline_comment(s: Script, p: int)
    requires
        0 <= p <= s.text.len(),
    ensures
        singleline_comment(s, p) matches Ok((_, end)) ==> p < end <= s.text.len(),
{
    reveal(singleline_comment);
    if p + 1 <= s.text.len() {
        lemma_run_end(s.text, p + 1, CharClass::Line);
    }
    if p + 2 <= s.text.len() {
        lemma_run_end(s.text, p + 2, CharClass::Line);
    }
}

proof fn lemma_line_gaps_end(s: Script, p: int)
    requires
        0 <= p <= s.text.len(),
    ensures
        p <= line_gaps_end(s, p) <= s.text.len(),
    decreases s.text.len() - p,
{
    if let Ok((_, end)) = line_gap(s, p) {
        if p < end && end <= s.text.len() {
            lemma_line_gaps_end(s, end);
        }
    }
}

proof fn lemma_line_end(s: Script, p: int)
    requires
        0 <= p <= s.text.len(),
    ensures
        line_end(s, p) matches Ok((_, end)) ==> p <= end <= s.text.len(),
{
    reveal(line_end);
    reveal(single_line_end);
    reveal(line_ending);
    lemma_space(s, p);
    let after_space = crate::grammar::tokens::skipped(space(s, p), p);
    lemma_singleline_comment(s, after_space);
    if let Ok((_, end)) = single_line_end(s, p) {
        lemma_line_gaps_end(s, end);
    }
}

/// A word is what stands at its place.
pub proof fn lemma_identifier(s: Script, p: int)
    requires
        0 <= p <= s.text.len(),
        encode_utf8(s.text).len() <= usize::MAX,
    ensures
        identifier(s, p) matches Ok((id, end)) ==> p < end <= s.text.len() && names_place(s, id),
{
    reveal(identifier);
    reveal(word);
    lemma_run_end(s.text, p, CharClass::Word);
    if let Ok((w, end)) = word(s, p) {
        assert(in_class(CharClass::Word, s.text[p]));
        assert(run_end(s.text, p, CharClass::Word) == run_end(s.text, p + 1, CharClass::Word));
        lemma_run_end(s.text, p + 1, CharClass::Word);
        assert(w[0] == s.text[p]);
        assert forall|i: int| 0 <= i < w.len() implies in_class(CharClass::Word, #[trigger] w[i]) by {
            assert(w[i] == s.text[p + i]);
        }
        lemma_span_in_text(s, p, end);
    }
}

proof fn lemma_space_identifier(s: Script, p: int)
    requires
        0 <= p <= s.text.len(),
        encode_utf8(s.text).len() <= usize::MAX,
    ensures
        space_identifier(s, p) matches Ok((id, end)) ==> names_place(s, id),
{
    reveal(space_identifier);
    lemma_space(s, p);
    if let Ok((_, end)) = space(s, p) {
        lemma_identifier(s, end);
    }
}

/// A value that is read as one of some type is of that type.
pub proof fn lemma_value(s: Script, p: int, typ: DataType)
    ensures
        value(s, p, typ) matches Ok((v, _)) ==> unresolved_type(v) == typ && v !is Gpuva,
{
    reveal(value);
}

/// Arrays are filled with values of their own type, and raw values fit into their size.
pub proof fn lemma_content(s: Script, p: int)
    ensures
        content(s, p) matches Ok((c, _)) ==> fill_matches(c),
{
    reveal(content);
    reveal(content_typed);
    reveal(content_raw);
    reveal(fill);
    reveal(fill_series);
    reveal(fill_const);
    reveal(space_value);
    assert forall|q: int, typ: DataType| true implies (#[trigger] value(s, q, typ) matches Ok((v, _))
        ==> unresolved_type(v) == typ) by {
        lemma_value(s, q, typ);
    }
}

/// What the values that are expected of a buffer have in common.
spec fn expect_items_ok(items: ExpectItemsView, typ: DataType) -> bool {
    &&& items.value_spans.len() == items.values.len()
    &&& forall|i: int|
        0 <= i < items.values.len() ==> unresolved_type(#[trigger] items.values[i]) == typ
            && items.values[i] !is Gpuva
}

proof fn lemma_expect_values_from(s: Script, p: int, typ: DataType, found: ExpectItemsView)
    requires
        expect_items_ok(found, typ),
        found.values.len() > 0,
    ensures
        expect_values_from(s, p, typ, found) matches Ok((items, _)) ==> expect_items_ok(items, typ)
            && items.values.len() > 0,
    decreases s.text.len() - p,
{
    if let Ok((item, end)) = expect_value(s, p, typ) {
        if p < end && end <= s.text.len() {
            lemma_expect_value(s, p, typ);
            let next = found.push(item);
            assert forall|i: int| 0 <= i < next.values.len() implies unresolved_type(
                #[trigger] next.values[i],
            ) == typ && next.values[i] !is Gpuva by {
                if i < found.values.len() {
                    assert(next.values[i] == found.values[i]);
                }
            }
            lemma_expect_values_from(s, end, typ, next);
        }
    }
}

proof fn lemma_expect_value(s: Script, p: int, typ: DataType)
    ensures
        expect_value(s, p, typ) matches Ok((item, _)) ==> unresolved_type(item.0) == typ
            && item.0 !is Gpuva,
{
    reveal(expect_value);
    if let Ok((_, start)) = space(s, p) {
        lemma_value(s, start, typ);
    }
}

/// The values that are expected of a buffer are of one type, which the allowed difference has too,
/// and for each of them it is known where it is written.
#[verifier::spinoff_prover]
pub proof fn lemma_expect(s: Script, p: int, id: IdentifierView)
    ensures
        expect(s, p, id) matches Ok((d, _)) ==> values_ok(d),
{
    reveal(expect);
    reveal(epsilon);
    reveal(value_object);
    reveal(expect_values);
    assert forall|q: int, typ: DataType| true implies (#[trigger] value(s, q, typ) matches Ok((v, _))
        ==> unresolved_type(v) == typ && v !is Gpuva) by {
        lemma_value(s, q, typ);
    }
    assert forall|q: int, typ: DataType| true implies (#[trigger] expect_values(s, q, typ) matches Ok(
        (items, _),
    ) ==> expect_items_ok(items, typ) && items.values.len() > 0) by {
        if let Ok((first, end)) = expect_value(s, q, typ) {
            lemma_expect_value(s, q, typ);
            let nothing = ExpectItemsView { values: Seq::empty(), value_spans: Seq::empty() };
            let one = nothing.push(first);
            assert(expect_items_ok(one, typ));
            lemma_expect_values_from(s, end, typ, one);
        }
    }
}

/// Lines are never printed without elements.
pub proof fn lemma_dump(s: Script, p: int, id: IdentifierView)
    ensures
        dump(s, p, id) matches Ok((d, _)) ==> values_ok(d),
{
    reveal(dump);
    reveal(print_stride);
    reveal(non_zero_u64);
}

proof fn lemma_dispatch_item(s: Script, p: int, items: DispatchItemsView)
    requires
        root_vals_ok(items.root_val, true),
    ensures
        dispatch_item(s, p, items) matches Ok((next, _)) ==> root_vals_ok(next.root_val, true),
{
    reveal(dispatch_item);
    reveal(root_const);
    reveal(dispatch_view);
    assert forall|q: int| true implies (#[trigger] content(s, q) matches Ok((c, _))
        ==> fill_matches(c)) by {
        lemma_content(s, q);
    }
}

proof fn lemma_dispatch_items(s: Script, p: int, items: DispatchItemsView)
    requires
        root_vals_ok(items.root_val, true),
    ensures
        dispatch_items(s, p, items) matches Ok((all, _)) ==> root_vals_ok(all.root_val, true),
    decreases s.text.len() - p,
{
    lemma_dispatch_item(s, p, items);
    if let Ok((next, end)) = dispatch_item(s, p, items) {
        if p < end && end <= s.text.len() {
            lemma_dispatch_items(s, end, next);
        }
    }
}

/// The root values of a dispatch are of use.
pub proof fn lemma_dispatch(s: Script, p: int, id: IdentifierView, ty: DispatchParseType)
    ensures
        dispatch(s, p, id, ty) matches Ok((d, _)) ==> values_ok(d) && d.identifier() == id,
{
    reveal(dispatch);
    let nothing = DispatchItemsView { root_val: RootValsView::empty(), root_sig: None };
    assert forall|q: int| true implies (#[trigger] dispatch_items(s, q, nothing) matches Ok((all, _))
        ==> root_vals_ok(all.root_val, true)) by {
        lemma_dispatch_items(s, q, nothing);
    }
}

proof fn lemma_record_items(s: Script, p: int, items: RecordItemsView)
    requires
        items.root_val.consts.len() == 0,
    ensures
        record_items(s, p, items) matches Ok((all, _)) ==> all.root_val.consts.len() == 0,
    decreases s.text.len() - p,
{
    reveal(record_item);
    if let Ok((next, end)) = record_item(s, p, items) {
        assert(next.root_val.consts == items.root_val.consts);
        if p < end && end <= s.text.len() {
            lemma_record_items(s, end, next);
        }
    }
}

#[verifier::spinoff_prover]
proof fn lemma_record(s: Script, p: int)
    ensures
        record_statement(s, p) matches Ok((r, _)) ==> root_vals_ok(r.root_val, false),
{
    reveal(record_statement);
    reveal(record);
    reveal(named_record);
    reveal(record_content);
    assert forall|q: int, items: RecordItemsView| items.root_val.consts.len() == 0 implies (
    #[trigger] record_items(s, q, items) matches Ok((all, _)) ==> all.root_val.consts.len()
        == 0) by {
        lemma_record_items(s, q, items);
    }
}

proof fn lemma_records(s: Script, p: int, found: Seq<ShaderTableRecordView>)
    requires
        forall|i: int| 0 <= i < found.len() ==> root_vals_ok((#[trigger] found[i]).root_val, false),
    ensures
        records(s, p, found) matches Ok((all, _)) ==> forall|i: int|
            0 <= i < all.len() ==> root_vals_ok((#[trigger] all[i]).root_val, false),
    decreases s.text.len() - p,
{
    if let Ok((r, end)) = record_statement(s, p) {
        if p < end && end <= s.text.len() {
            lemma_record(s, p);
            let next = found.push(r);
            assert forall|i: int| 0 <= i < next.len() implies root_vals_ok(
                (#[trigger] next[i]).root_val,
                false,
            ) by {
                if i < found.len() {
                    assert(next[i] == found[i]);
                }
            }
            lemma_records(s, end, next);
        }
    }
}

/// The root values of the records of a shader table are of use.
pub proof fn lemma_shadertable(s: Script, p: int)
    ensures
        shadertable(s, p) matches Ok((d, _)) ==> values_ok(d),
{
    reveal(shadertable);
    let nothing = Seq::<ShaderTableRecordView>::empty();
    assert forall|q: int| true implies (#[trigger] records(s, q, nothing) matches Ok((all, _))
        ==> forall|i: int|
        0 <= i < all.len() ==> root_vals_ok((#[trigger] all[i]).root_val, false)) by {
        lemma_records(s, q, nothing);
    }
}

/// A statement is told by a word of the script, and its values fit together.
pub open spec fn statement_ok(s: Script, d: DirectiveView) -> bool {
    names_place(s, d.identifier()) && values_ok(d)
}

/// The statements that do not start with the name of an object are told by their first word.
proof fn lemma_told_by_word(s: Script, p: int, id: IdentifierView)
    ensures
        include_file(s, p, id) matches Ok((d, _)) ==> d.identifier() == id && values_ok(d),
        sleep(s, p, id) matches Ok((d, _)) ==> d.identifier() == id && values_ok(d),
        dump(s, p, id) matches Ok((d, _)) ==> d.identifier() == id,
        expect(s, p, id) matches Ok((d, _)) ==> d.identifier() == id,
        assert_shader_id(s, p, id) matches Ok((d, _)) ==> d.identifier() == id && values_ok(d),
{
    reveal(include_file);
    reveal(sleep);
    reveal(dump);
    reveal(expect);
    reveal(assert_shader_id);
}

/// The other statements are told by the name of their object.
#[verifier::spinoff_prover]
proof fn lemma_told_by_name(
    s: Script,
    p: int,
    is_object: bool,
    typ: PipelineStateObjectType,
    name: IdentifierView,
    end: int,
)
    requires
        space_identifier(s, p) == Ok::<(IdentifierView, int), Fail<Seq<char>>>(
            (name, end),
        ),
    ensures
        source(s, p) matches Ok((d, _)) ==> d.identifier() == name && values_ok(d),
        object(s, p, is_object) matches Ok((d, _)) ==> d.identifier() == name && values_ok(d),
        pso(s, p, typ) matches Ok((d, _)) ==> d.identifier() == name && values_ok(d),
        blas(s, p) matches Ok((d, _)) ==> d.identifier() == name && values_ok(d),
        tlas(s, p) matches Ok((d, _)) ==> d.identifier() == name && values_ok(d),
        buffer(s, p) matches Ok((d, _)) ==> d.identifier() == name && values_ok(d),
        root_sig(s, p) matches Ok((d, _)) ==> d.identifier() == name && values_ok(d),
        root_sig_dxil(s, p) matches Ok((d, _)) ==> d.identifier() == name && values_ok(d),
        shaderid(s, p) matches Ok((d, _)) ==> d.identifier() == name && values_ok(d),
        shadertable(s, p) matches Ok((d, _)) ==> d.identifier() == name,
        pipeline(s, p) matches Ok((d, _)) ==> d.identifier() == name && values_ok(d),
        view(s, p) matches Ok((d, _)) ==> d.identifier() == name && values_ok(d),
        command_signature(s, p) matches Ok((d, _)) ==> d.identifier() == name && values_ok(d),
{
    assert forall|q: int| true implies (#[trigger] content(s, q) matches Ok((c, _))
        ==> fill_matches(c)) by {
        lemma_content(s, q);
    }
    reveal(source);
    reveal(object);
    reveal(object_args);
    reveal(object_dxil);
    reveal(pso);
    reveal(blas);
    reveal(tlas);
    reveal(buffer);
    reveal(root_sig);
    reveal(root_sig_dxil);
    reveal(shaderid);
    reveal(shadertable);
    reveal(pipeline);
    reveal(view);
    reveal(command_signature);
}

/// Whether what a rule finds, if anything, is told by a word of the script, and its values fit
/// together.
#[verifier::opaque]
spec fn outcome_ok(s: Script, o: Outcome<DirectiveView>) -> bool {
    o matches Ok((d, _)) ==> statement_ok(s, d)
}

proof fn lemma_in_statement(
    s: Script,
    o: Outcome<DirectiveView>,
    format: StatementFormat,
    decl: Span,
)
    requires
        outcome_ok(s, o),
    ensures
        in_statement(o, format, decl) matches Ok((d, _)) ==> statement_ok(s, d),
{
    reveal(outcome_ok);
}

proof fn lemma_word_rules(s: Script, p: int, id: IdentifierView)
    requires
        names_place(s, id),
    ensures
        outcome_ok(s, include_file(s, p, id)),
        outcome_ok(s, sleep(s, p, id)),
        outcome_ok(s, dump(s, p, id)),
        outcome_ok(s, expect(s, p, id)),
        outcome_ok(s, assert_shader_id(s, p, id)),
        outcome_ok(s, dispatch(s, p, id, DispatchParseType::Dispatch)),
        outcome_ok(s, dispatch(s, p, id, DispatchParseType::DispatchRays)),
        outcome_ok(s, dispatch(s, p, id, DispatchParseType::ExecuteIndirect)),
{
    reveal(outcome_ok);
    lemma_told_by_word(s, p, id);
    lemma_dump(s, p, id);
    lemma_expect(s, p, id);
    lemma_dispatch(s, p, id, DispatchParseType::Dispatch);
    lemma_dispatch(s, p, id, DispatchParseType::DispatchRays);
    lemma_dispatch(s, p, id, DispatchParseType::ExecuteIndirect);
}

proof fn lemma_name_rules(s: Script, p: int)
    requires
        0 <= p <= s.text.len(),
        encode_utf8(s.text).len() <= usize::MAX,
    ensures
        outcome_ok(s, source(s, p)),
        outcome_ok(s, object(s, p, true)),
        outcome_ok(s, object(s, p, false)),
        outcome_ok(s, pso(s, p, PipelineStateObjectType::Pipeline)),
        outcome_ok(s, pso(s, p, PipelineStateObjectType::Collection)),
        outcome_ok(s, blas(s, p)),
        outcome_ok(s, tlas(s, p)),
        outcome_ok(s, buffer(s, p)),
        outcome_ok(s, root_sig(s, p)),
        outcome_ok(s, root_sig_dxil(s, p)),
        outcome_ok(s, shaderid(s, p)),
        outcome_ok(s, shadertable(s, p)),
        outcome_ok(s, pipeline(s, p)),
        outcome_ok(s, view(s, p)),
        outcome_ok(s, command_signature(s, p)),
{
    reveal(outcome_ok);
    lemma_shadertable(s, p);
    lemma_space_identifier(s, p);
    if let Ok((name, end)) = space_identifier(s, p) {
        lemma_told_by_name(s, p, true, PipelineStateObjectType::Pipeline, name, end);
        lemma_told_by_name(s, p, false, PipelineStateObjectType::Collection, name, end);
    } else {
        lemma_needs_name(s, p, true, PipelineStateObjectType::Pipeline);
        lemma_needs_name(s, p, false, PipelineStateObjectType::Collection);
    }
}

/// Without a name there is no object.
#[verifier::spinoff_prover]
proof fn lemma_needs_name(s: Script, p: int, is_object: bool, typ: PipelineStateObjectType)
    requires
        space_identifier(s, p) is Err,
    ensures
        source(s, p) is Err,
        object(s, p, is_object) is Err,
        pso(s, p, typ) is Err,
        blas(s, p) is Err,
        tlas(s, p) is Err,
        buffer(s, p) is Err,
        root_sig(s, p) is Err,
        root_sig_dxil(s, p) is Err,
        shaderid(s, p) is Err,
        shadertable(s, p) is Err,
        pipeline(s, p) is Err,
        view(s, p) is Err,
        command_signature(s, p) is Err,
{
    reveal(source);
    reveal(object);
    reveal(pso);
    reveal(blas);
    reveal(tlas);
    reveal(buffer);
    reveal(root_sig);
    reveal(root_sig_dxil);
    reveal(shaderid);
    reveal(shadertable);
    reveal(pipeline);
    reveal(view);
    reveal(command_signature);
}

/// Every statement that can be read is told by a word of the script, and its values fit together.
#[verifier::spinoff_prover]
pub proof fn lemma_statement(s: Script, p: int)
    requires
        0 <= p <= s.text.len(),
        encode_utf8(s.text).len() <= usize::MAX,
    ensures
        statement(s, p) matches Ok((d, _)) ==> statement_ok(s, d),
{
    reveal(statement);
    lemma_identifier(s, p);
    if let Ok((id, q)) = identifier(s, p) {
        assert(outcome_ok(s, statement(s, p))) by {
            lemma_word_rules(s, q, id);
            lemma_name_rules(s, q);
            assert forall|o: Outcome<DirectiveView>, format: StatementFormat, decl: Span| outcome_ok(
                s,
                o,
            ) implies outcome_ok(s, #[trigger] in_statement(o, format, decl)) by {
                lemma_in_statement(s, o, format, decl);
                reveal(outcome_ok);
            }
            lemma_unknown_statement(s, id.span);
        }
    }
    reveal(outcome_ok);
}

proof fn lemma_unknown_statement(s: Script, span: Span)
    ensures
        outcome_ok(
            s,
            Err(Fail { cut: true, error: ParserError::UnknownStatement { span } }),
        ),
{
    reveal(outcome_ok);
}

proof fn lemma_statements_from(s: Script, p: int, found: Seq<DirectiveView>)
    requires
        0 <= p <= s.text.len(),
        encode_utf8(s.text).len() <= usize::MAX,
        forall|i: int| 0 <= i < found.len() ==> statement_ok(s, #[trigger] found[i]),
    ensures
        statements_from(s, p, found) matches Ok((all, _)) ==> forall|i: int|
            0 <= i < all.len() ==> statement_ok(s, #[trigger] all[i]),
    decreases s.text.len() - p,
{
    lemma_statement(s, p);
    if let Ok((d, end)) = statement(s, p) {
        if p < end && end <= s.text.len() {
            let next = found.push(d);
            assert forall|i: int| 0 <= i < next.len() implies statement_ok(s, #[trigger] next[i]) by {
                if i < found.len() {
                    assert(next[i] == found[i]);
                }
            }
            lemma_statements_from(s, end, next);
        }
    }
}

/// In every script that can be read, each statement is told by a word of the script, and its
/// values fit together.
pub proof fn lemma_script(s: Script)
    requires
        encode_utf8(s.text).len() <= usize::MAX,
    ensures
        script(s) matches Ok(all) ==> forall|i: int|
            0 <= i < all.len() ==> statement_ok(s, #[trigger] all[i]),
{
    reveal(statements);
    lemma_line_end(s, 0);
    lemma_statements_from(s, 0, Seq::empty());
    if let Ok((_, end)) = line_end(s, 0) {
        lemma_statements_from(s, end, Seq::empty());
    }
}

} // verus!
