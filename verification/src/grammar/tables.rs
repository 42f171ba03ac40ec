//! Shader tables and shader identifiers.
use vstd::prelude::*;

use crate::grammar::geometry::no_lines;
use crate::grammar::tokens::{
    cut, either, end_line, identifier, identifier_line, line_end, literal, no_dup, space,
    space_identifier, string_object, uint32, unknown, OnceView,
};
use crate::parse_error::Outcome;
use crate::script::{
    Bind, DirectiveView, RootValView, RootValsView, ShaderReference, ShaderTableRecordView,
};
use crate::source::{IdentifierView, Script};

verus! {

/// What the lines of a record have given so far.
pub struct RecordItemsView {
    pub shader: OnceView<ShaderReference<Seq<char>>>,
    pub root_val: RootValsView,
    /// The place in the local root signature that comes next
    pub next: u32,
}

/// The number after `n`, zero after the largest one.
pub open spec fn following(n: u32) -> u32 {
    if n == u32::MAX {
        0
    } else {
        (n + 1) as u32
    }
}

/// A shader identifier for a record, if it has no shader so far.
#[verifier::opaque]
pub open spec fn record_shader_id(
    s: Script,
    p: int,
    set: OnceView<ShaderReference<Seq<char>>>,
    id: IdentifierView,
) -> Outcome<OnceView<ShaderReference<Seq<char>>>> {
    match space(s, p) { Err(f) => Err(f), Ok((_, p)) => {
    let o: Outcome<ShaderReference<Seq<char>>> = match identifier(s, p) {
        Ok((shader_id, end)) => Ok((ShaderReference::ShaderId(shader_id), end)),
        Err(f) => Err(f),
    };
    match no_dup(set, id, o) { Err(f) => Err(f), Ok((shader, p)) =>
    match line_end(s, p) { Err(f) => Err(f), Ok((_, p)) =>
    Ok((shader, p))
    }}}}
}

/// A line of a record.
#[verifier::opaque]
pub open spec fn record_item(s: Script, p: int, items: RecordItemsView) -> Outcome<
    RecordItemsView,
> {
    match identifier(s, p) { Err(f) => Err(f), Ok((id, p)) =>
    if id.content == "TABLE"@ {
        match cut(identifier_line(s, p)) {
            Ok((view, end)) => Ok(
                (
                    RecordItemsView {
                        root_val: RootValsView {
                            binds: items.root_val.binds.push(Bind { index: items.next, view }),
                            ..items.root_val
                        },
                        next: following(items.next),
                        ..items
                    },
                    end,
                ),
            ),
            Err(f) => Err(f),
        }
    } else if id.content == "GPUVA"@ {
        match cut(identifier_line(s, p)) {
            Ok((buffer, end)) => Ok(
                (
                    RecordItemsView {
                        root_val: RootValsView {
                            views: items.root_val.views.push(
                                RootValView { index: items.next, typ: None, buffer },
                            ),
                            ..items.root_val
                        },
                        next: following(items.next),
                        ..items
                    },
                    end,
                ),
            ),
            Err(f) => Err(f),
        }
    } else if id.content == "SHADERID"@ {
        match cut(record_shader_id(s, p, items.shader, id)) {
            Ok((shader, end)) => Ok((RecordItemsView { shader, ..items }, end)),
            Err(f) => Err(f),
        }
    } else {
        unknown(s, p)
    }}
}

/// The lines of a record, as many as there are.
pub open spec fn record_items(s: Script, p: int, items: RecordItemsView) -> Outcome<RecordItemsView>
    decreases s.text.len() - p,
{
    match record_item(s, p, items) {
        Ok((items, end)) => if p < end && end <= s.text.len() {
            record_items(s, end, items)
        } else {
            Ok((items, p))
        },
        Err(f) => if f.cut {
            Err(f)
        } else {
            Ok((items, p))
        },
    }
}

/// No lines of a record whose shader is `shader`.
pub open spec fn no_record_items(shader: OnceView<ShaderReference<Seq<char>>>) -> RecordItemsView {
    RecordItemsView { shader, root_val: RootValsView::empty(), next: 0 }
}

/// The lines of a record up to its end.
#[verifier::opaque]
pub open spec fn record_content(
    s: Script,
    p: int,
    shader: OnceView<ShaderReference<Seq<char>>>,
) -> Outcome<RecordItemsView> {
    match line_end(s, p) { Err(f) => Err(f), Ok((_, p)) =>
    match record_items(s, p, no_record_items(shader)) { Err(f) => Err(f), Ok((items, p)) =>
    match end_line(s, p) { Err(f) => Err(f), Ok((_, p)) =>
    Ok((items, p))
    }}}
}

/// The rest of a record that names its shader.
#[verifier::opaque]
pub open spec fn named_record(s: Script, p: int) -> Outcome<RecordItemsView> {
    match space(s, p) { Err(f) => Err(f), Ok((_, p)) =>
    match string_object(s, p) { Err(f) => Err(f), Ok((name, p)) => {
    let shader = Some((ShaderReference::Name(name), name));
    let without: Outcome<RecordItemsView> = match no_lines(s, p) {
        Ok((_, end)) => Ok((no_record_items(shader), end)),
        Err(f) => Err(f),
    };
    either(without, record_content(s, p, shader))
    }}}
}

/// The shader of a record.
pub open spec fn record_shader(set: OnceView<ShaderReference<Seq<char>>>) -> ShaderReference<
    Seq<char>,
> {
    match set {
        Some((shader, _)) => shader,
        None => ShaderReference::Null,
    }
}

/// A record of a shader table.
#[verifier::opaque]
pub open spec fn record(s: Script, p: int) -> Outcome<ShaderTableRecordView> {
    match space(s, p) { Err(f) => Err(f), Ok((_, p)) =>
    match uint32(s, p) { Err(f) => Err(f), Ok((index, p)) =>
    match either(named_record(s, p), record_content(s, p, None)) {
        Ok((items, end)) => Ok((ShaderTableRecordView {
            index,
            shader: record_shader(items.shader),
            root_val: items.root_val,
        }, end)),
        Err(f) => Err(f),
    }}}
}

/// `RECORD` and a record.
#[verifier::opaque]
pub open spec fn record_statement(s: Script, p: int) -> Outcome<ShaderTableRecordView> {
    match literal(s, p, "RECORD"@) { Err(f) => Err(f), Ok((_, p)) =>
    cut(record(s, p))
    }
}

/// As many records as there are, put behind `found`.
pub open spec fn records(s: Script, p: int, found: Seq<ShaderTableRecordView>) -> Outcome<
    Seq<ShaderTableRecordView>,
>
    decreases s.text.len() - p,
{
    match record_statement(s, p) {
        Ok((r, end)) => if p < end && end <= s.text.len() {
            records(s, end, found.push(r))
        } else {
            Ok((found, p))
        },
        Err(f) => if f.cut {
            Err(f)
        } else {
            Ok((found, p))
        },
    }
}

/// `SHADERTABLE`.
#[verifier::opaque]
pub open spec fn shadertable(s: Script, p: int) -> Outcome<DirectiveView> {
    match space_identifier(s, p) { Err(f) => Err(f), Ok((name, p)) =>
    match space_identifier(s, p) { Err(f) => Err(f), Ok((pipeline_state_object, p)) =>
    match line_end(s, p) { Err(f) => Err(f), Ok((_, p)) =>
    match records(s, p, Seq::empty()) { Err(f) => Err(f), Ok((records, p)) =>
    match end_line(s, p) { Err(f) => Err(f), Ok((_, p)) =>
    Ok((DirectiveView::ShaderTable { name, pipeline_state_object, records }, p))
    }}}}}
}

/// `SHADERID`.
#[verifier::opaque]
pub open spec fn shaderid(s: Script, p: int) -> Outcome<DirectiveView> {
    match space_identifier(s, p) { Err(f) => Err(f), Ok((name, p)) =>
    match space_identifier(s, p) { Err(f) => Err(f), Ok((pipeline_state_object, p)) =>
    match space(s, p) { Err(f) => Err(f), Ok((_, p)) =>
    match string_object(s, p) { Err(f) => Err(f), Ok((shader_name, p)) =>
    match line_end(s, p) { Err(f) => Err(f), Ok((_, p)) =>
    Ok((DirectiveView::ShaderId { name, pipeline_state_object, shader_name }, p))
    }}}}}
}

} // verus!
