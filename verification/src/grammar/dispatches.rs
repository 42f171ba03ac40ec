//! Dispatches.
use vstd::prelude::*;

use crate::grammar::tokens::{
    identifier, in_statement, keyword, line_end, literal, no_dup, optional, set_value, space,
    space_identifier, space_identifier_or_none, uint, uint32, unknown, OnceView,
};
use crate::grammar::values::content;
use crate::parse_error::{IntType, Outcome, StatementFormat};
use crate::script::{
    Bind, Dim3, DirectiveView, DispatchType, RayTables, RootValConstView, RootValView,
    RootValsView, ViewType,
};
use crate::source::{IdentifierView, Script};

verus! {

/// The statements that dispatch something.
#[derive(Clone, Copy, Debug, Eq, Hash, PartialEq, Structural)]
pub enum DispatchParseType {
    Dispatch,
    DispatchRays,
    ExecuteIndirect,
}

/// A number behind space.
#[verifier::opaque]
pub open spec fn space_uint32(s: Script, p: int) -> Outcome<u32> {
    match space(s, p) { Err(f) => Err(f), Ok((_, p)) =>
    uint32(s, p)
    }
}

/// Three numbers.
#[verifier::opaque]
pub open spec fn dim3(s: Script, p: int) -> Outcome<Dim3> {
    match space_uint32(s, p) { Err(f) => Err(f), Ok((x, p)) =>
    match space_uint32(s, p) { Err(f) => Err(f), Ok((y, p)) =>
    match space_uint32(s, p) { Err(f) => Err(f), Ok((z, p)) =>
    Ok((Dim3 { x, y, z }, p))
    }}}
}

/// A view for the root signature.
#[verifier::opaque]
pub open spec fn bind(s: Script, p: int) -> Outcome<Bind<Seq<char>>> {
    match space_uint32(s, p) { Err(f) => Err(f), Ok((index, p)) =>
    match keyword(s, p, "TABLE"@) { Err(f) => Err(f), Ok((_, p)) =>
    match identifier(s, p) { Err(f) => Err(f), Ok((view, p)) =>
    match line_end(s, p) { Err(f) => Err(f), Ok((_, p)) =>
    Ok((Bind { index, view }, p))
    }}}}
}

/// Constants for the root signature.
#[verifier::opaque]
pub open spec fn root_const(s: Script, p: int) -> Outcome<RootValConstView> {
    match space_uint32(s, p) { Err(f) => Err(f), Ok((index, p)) =>
    match space(s, p) { Err(f) => Err(f), Ok((_, p)) =>
    match content(s, p) { Err(f) => Err(f), Ok((content, p)) =>
    Ok((RootValConstView { index, content }, p))
    }}}
}

/// A buffer for the root signature.
#[verifier::opaque]
pub open spec fn dispatch_view(s: Script, p: int, typ: ViewType) -> Outcome<RootValView<Seq<char>>> {
    match space_uint32(s, p) { Err(f) => Err(f), Ok((index, p)) =>
    match space_identifier(s, p) { Err(f) => Err(f), Ok((buffer, p)) =>
    match line_end(s, p) { Err(f) => Err(f), Ok((_, p)) =>
    Ok((RootValView { index, typ: Some(typ), buffer }, p))
    }}}
}

/// The root signature of a dispatch, if it has none so far.
#[verifier::opaque]
pub open spec fn dispatch_root_sig(
    s: Script,
    p: int,
    set: OnceView<IdentifierView>,
    id: IdentifierView,
) -> Outcome<OnceView<IdentifierView>> {
    match space(s, p) { Err(f) => Err(f), Ok((_, p)) =>
    match no_dup(set, id, identifier(s, p)) { Err(f) => Err(f), Ok((root_sig, p)) =>
    match line_end(s, p) { Err(f) => Err(f), Ok((_, p)) =>
    Ok((root_sig, p))
    }}}
}

/// What the lines of a dispatch have given so far.
pub struct DispatchItemsView {
    pub root_val: RootValsView,
    pub root_sig: OnceView<IdentifierView>,
}

/// A line of a dispatch.
#[verifier::opaque]
pub open spec fn dispatch_item(s: Script, p: int, items: DispatchItemsView) -> Outcome<
    DispatchItemsView,
> {
    match identifier(s, p) { Err(f) => Err(f), Ok((id, p)) => {
    let vals = items.root_val;
    if id.content == "BIND"@ {
        match in_statement(bind(s, p), StatementFormat::DispatchBind, id.span) {
            Ok((found, end)) => Ok((DispatchItemsView {
                root_val: RootValsView { binds: vals.binds.push(found), ..vals },
                ..items
            }, end)),
            Err(f) => Err(f),
        }
    } else if id.content == "ROOT_CONST"@ {
        match in_statement(root_const(s, p), StatementFormat::DispatchRootConst, id.span) {
            Ok((found, end)) => Ok((DispatchItemsView {
                root_val: RootValsView { consts: vals.consts.push(found), ..vals },
                ..items
            }, end)),
            Err(f) => Err(f),
        }
    } else if id.content == "SRV"@ {
        let o = dispatch_view(s, p, ViewType::Srv);
        match in_statement(o, StatementFormat::DispatchSrv, id.span) {
            Ok((found, end)) => Ok((DispatchItemsView {
                root_val: RootValsView { views: vals.views.push(found), ..vals },
                ..items
            }, end)),
            Err(f) => Err(f),
        }
    } else if id.content == "UAV"@ {
        let o = dispatch_view(s, p, ViewType::Uav);
        match in_statement(o, StatementFormat::DispatchUav, id.span) {
            Ok((found, end)) => Ok((DispatchItemsView {
                root_val: RootValsView { views: vals.views.push(found), ..vals },
                ..items
            }, end)),
            Err(f) => Err(f),
        }
    } else if id.content == "ROOT_SIG"@ {
        let o = dispatch_root_sig(s, p, items.root_sig, id);
        match in_statement(o, StatementFormat::DispatchRootSig, id.span) {
            Ok((root_sig, end)) => Ok((DispatchItemsView { root_sig, ..items }, end)),
            Err(f) => Err(f),
        }
    } else {
        unknown(s, p)
    }}}
}

/// The lines of a dispatch, as many as there are.
pub open spec fn dispatch_items(s: Script, p: int, items: DispatchItemsView) -> Outcome<DispatchItemsView>
    decreases s.text.len() - p,
{
    match dispatch_item(s, p, items) {
        Ok((items, end)) => if p < end && end <= s.text.len() {
            dispatch_items(s, end, items)
        } else {
            Ok((items, p))
        },
        Err(f) => if f.cut {
            Err(f)
        } else {
            Ok((items, p))
        },
    }
}

/// The dimensions of a compute dispatch.
#[verifier::opaque]
pub open spec fn run_dispatch(s: Script, p: int) -> Outcome<DispatchType<Seq<char>>> {
    match dim3(s, p) { Err(f) => Err(f), Ok((dimensions, p)) =>
    match line_end(s, p) { Err(f) => Err(f), Ok((_, p)) =>
    Ok((DispatchType::Dispatch { dimensions }, p))
    }}
}

/// The shader tables for ray generation, hit groups, miss and callable shaders, and the dimensions
/// of a raytracing dispatch.
#[verifier::opaque]
pub open spec fn run_dispatch_rays(s: Script, p: int) -> Outcome<DispatchType<Seq<char>>> {
    match space_identifier_or_none(s, p) { Err(f) => Err(f), Ok((raygen, p)) =>
    match space_identifier_or_none(s, p) { Err(f) => Err(f), Ok((hit_group, p)) =>
    match space_identifier_or_none(s, p) { Err(f) => Err(f), Ok((miss, p)) =>
    match space_identifier_or_none(s, p) { Err(f) => Err(f), Ok((callable, p)) =>
    match dim3(s, p) { Err(f) => Err(f), Ok((dimensions, p)) =>
    match line_end(s, p) { Err(f) => Err(f), Ok((_, p)) =>
    Ok((DispatchType::DispatchRays {
        dimensions,
        tables: RayTables { raygen, miss, hit_group, callable },
    }, p))
    }}}}}}
}

/// The offset behind `OFFSET`.
#[verifier::opaque]
pub open spec fn argument_offset(s: Script, p: int) -> Outcome<u64> {
    match keyword(s, p, "OFFSET"@) { Err(f) => Err(f), Ok((_, p)) =>
    uint(s, p, IntType::U64)
    }
}

/// The offset behind `COUNT_OFFSET`.
#[verifier::opaque]
pub open spec fn count_offset(s: Script, p: int) -> Outcome<u64> {
    match keyword(s, p, "COUNT_OFFSET"@) { Err(f) => Err(f), Ok((_, p)) =>
    uint(s, p, IntType::U64)
    }
}

/// The buffer behind `COUNT`, and where in it the count is.
#[verifier::opaque]
pub open spec fn count(s: Script, p: int) -> Outcome<(IdentifierView, Option<u64>)> {
    match keyword(s, p, "COUNT"@) { Err(f) => Err(f), Ok((_, p)) =>
    match identifier(s, p) { Err(f) => Err(f), Ok((buffer, p)) =>
    match optional(count_offset(s, p), p) { Err(f) => Err(f), Ok((offset, p)) =>
    Ok(((buffer, offset), p))
    }}}
}

/// The arguments of an indirect dispatch.
#[verifier::opaque]
pub open spec fn run_execute_indirect(s: Script, p: int, signature: IdentifierView) -> Outcome<
    DispatchType<Seq<char>>,
> {
    match space_identifier(s, p) { Err(f) => Err(f), Ok((argument_buffer, p)) =>
    match optional(argument_offset(s, p), p) { Err(f) => Err(f), Ok((argument_offset, p)) =>
    match keyword(s, p, "MAX_COMMANDS"@) { Err(f) => Err(f), Ok((_, p)) =>
    match uint32(s, p) { Err(f) => Err(f), Ok((max_commands, p)) =>
    match optional(count(s, p), p) { Err(f) => Err(f), Ok((count, p)) =>
    match line_end(s, p) { Err(f) => Err(f), Ok((_, p)) =>
    Ok((DispatchType::ExecuteIndirect {
        signature,
        argument_buffer,
        argument_offset,
        count_buffer: match count {
            Some((buffer, _)) => Some(buffer),
            None => None,
        },
        count_offset: match count {
            Some((_, offset)) => offset,
            None => None,
        },
        max_commands,
    }, p))
    }}}}}}
}

/// The command signature behind `SIGNATURE`, for an indirect dispatch.
#[verifier::opaque]
pub open spec fn signature(s: Script, p: int, ty: DispatchParseType) -> Outcome<
    Option<IdentifierView>,
> {
    if ty is ExecuteIndirect {
        match keyword(s, p, "SIGNATURE"@) { Err(f) => Err(f), Ok((_, p)) =>
        match identifier(s, p) { Err(f) => Err(f), Ok((id, p)) =>
        Ok((Some(id), p))
        }}
    } else {
        Ok((None, p))
    }
}

/// What is dispatched. An indirect dispatch has a command signature.
#[verifier::opaque]
pub open spec fn run(s: Script, p: int, signature: Option<IdentifierView>, rays: bool) -> Outcome<
    DispatchType<Seq<char>>,
> {
    match signature {
        Some(id) => run_execute_indirect(s, p, id),
        None => if rays {
            run_dispatch_rays(s, p)
        } else {
            run_dispatch(s, p)
        },
    }
}

/// `DISPATCH`, `DISPATCHRAYS` or `EXECUTE_INDIRECT`, the word `id`.
#[verifier::opaque]
pub open spec fn dispatch(s: Script, p: int, id: IdentifierView, ty: DispatchParseType) -> Outcome<
    DirectiveView,
> {
    match space_identifier(s, p) { Err(f) => Err(f), Ok((pipeline, p)) =>
    match signature(s, p, ty) { Err(f) => Err(f), Ok((signature, p)) =>
    match line_end(s, p) { Err(f) => Err(f), Ok((_, p)) => {
    let nothing = DispatchItemsView { root_val: RootValsView::empty(), root_sig: None };
    match dispatch_items(s, p, nothing) { Err(f) => Err(f), Ok((items, p)) =>
    match literal(s, p, "RUN"@) { Err(f) => Err(f), Ok((_, p)) =>
    match run(s, p, signature, ty is DispatchRays) { Err(f) => Err(f), Ok((typ, p)) =>
    Ok((DirectiveView::Dispatch {
        identifier: id,
        pipeline,
        root_val: items.root_val,
        root_sig: set_value(items.root_sig),
        typ,
    }, p))
    }}}}}}}
}

} // verus!
