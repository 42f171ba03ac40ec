//! Root signatures, pipelines, views and command signatures.
use vstd::prelude::*;

use crate::flags::FlagKind;
use crate::grammar::tokens::{
    cut, data_type, either, end_line, flags, identifier, identifier_line, in_statement, keyword,
    line_end, literal, no_dup, optional, set_bits, set_value, space, space_identifier, uint32,
    unknown, view_type, word, OnceView,
};
use crate::parse_error::{Fail, Outcome, ParserError, StatementFormat, WordKind};
use crate::script::{
    CommandSignatureArgument, DirectiveView, InputViewType, PipelineType, RootSigConst,
    RootSigEntry, RootSigTable, RootSigView, ViewType,
};
use crate::source::{IdentifierView, Script};

verus! {

/// Descriptors in the descriptor heap.
#[verifier::opaque]
pub open spec fn root_sig_table(s: Script, p: int) -> Outcome<RootSigEntry> {
    match space(s, p) { Err(f) => Err(f), Ok((_, p)) =>
    match view_type(s, p) { Err(f) => Err(f), Ok((typ, p)) =>
    match keyword(s, p, "REGISTER"@) { Err(f) => Err(f), Ok((_, p)) =>
    match uint32(s, p) { Err(f) => Err(f), Ok((register, p)) =>
    match keyword(s, p, "NUMBER"@) { Err(f) => Err(f), Ok((_, p)) =>
    match uint32(s, p) { Err(f) => Err(f), Ok((number, p)) =>
    match keyword(s, p, "SPACE"@) { Err(f) => Err(f), Ok((_, p)) =>
    match uint32(s, p) { Err(f) => Err(f), Ok((space, p)) =>
    match line_end(s, p) { Err(f) => Err(f), Ok((_, p)) =>
    Ok((RootSigEntry::Table(RootSigTable { typ, register, number, space }), p))
    }}}}}}}}}
}

/// A pointer to GPU memory.
#[verifier::opaque]
pub open spec fn root_sig_view(s: Script, p: int, typ: ViewType) -> Outcome<RootSigEntry> {
    match keyword(s, p, "REGISTER"@) { Err(f) => Err(f), Ok((_, p)) =>
    match uint32(s, p) { Err(f) => Err(f), Ok((register, p)) =>
    match keyword(s, p, "SPACE"@) { Err(f) => Err(f), Ok((_, p)) =>
    match uint32(s, p) { Err(f) => Err(f), Ok((space, p)) =>
    match line_end(s, p) { Err(f) => Err(f), Ok((_, p)) =>
    Ok((RootSigEntry::View(RootSigView { typ, register, space }), p))
    }}}}}
}

/// Constant values.
#[verifier::opaque]
pub open spec fn root_sig_const(s: Script, p: int) -> Outcome<RootSigEntry> {
    match keyword(s, p, "NUMBER"@) { Err(f) => Err(f), Ok((_, p)) =>
    match uint32(s, p) { Err(f) => Err(f), Ok((number, p)) =>
    match keyword(s, p, "REGISTER"@) { Err(f) => Err(f), Ok((_, p)) =>
    match uint32(s, p) { Err(f) => Err(f), Ok((register, p)) =>
    match keyword(s, p, "SPACE"@) { Err(f) => Err(f), Ok((_, p)) =>
    match uint32(s, p) { Err(f) => Err(f), Ok((space, p)) =>
    match line_end(s, p) { Err(f) => Err(f), Ok((_, p)) =>
    Ok((RootSigEntry::Const(RootSigConst { number, register, space }), p))
    }}}}}}}
}

/// What the lines of a root signature have given so far.
pub struct RootSigItemsView {
    pub entries: Seq<RootSigEntry>,
    pub config: OnceView<u32>,
}

/// A line of a root signature.
#[verifier::opaque]
pub open spec fn root_sig_item(s: Script, p: int, items: RootSigItemsView) -> Outcome<RootSigItemsView> {
    match identifier(s, p) { Err(f) => Err(f), Ok((id, p)) =>
    if id.content == "TABLE"@ {
        match in_statement(root_sig_table(s, p), StatementFormat::RootTable, id.span) {
            Ok((found, end)) => Ok((RootSigItemsView { entries: items.entries.push(found), ..items }, end)),
            Err(f) => Err(f),
        }
    } else if id.content == "SRV"@ {
        match in_statement(root_sig_view(s, p, ViewType::Srv), StatementFormat::RootSrv, id.span) {
            Ok((found, end)) => Ok((RootSigItemsView { entries: items.entries.push(found), ..items }, end)),
            Err(f) => Err(f),
        }
    } else if id.content == "UAV"@ {
        match in_statement(root_sig_view(s, p, ViewType::Uav), StatementFormat::RootUav, id.span) {
            Ok((found, end)) => Ok((RootSigItemsView { entries: items.entries.push(found), ..items }, end)),
            Err(f) => Err(f),
        }
    } else if id.content == "ROOT_CONST"@ {
        match in_statement(root_sig_const(s, p), StatementFormat::RootConst, id.span) {
            Ok((found, end)) => Ok((RootSigItemsView { entries: items.entries.push(found), ..items }, end)),
            Err(f) => Err(f),
        }
    } else if id.content == "CONFIG"@ {
        match cut(no_dup(items.config, id, flags(s, p, FlagKind::RootSig))) {
            Ok((config, end)) => Ok((RootSigItemsView { config, ..items }, end)),
            Err(f) => Err(f),
        }
    } else {
        unknown(s, p)
    }}
}

/// The lines of a root signature, as many as there are.
pub open spec fn root_sig_items(s: Script, p: int, items: RootSigItemsView) -> Outcome<RootSigItemsView>
    decreases s.text.len() - p,
{
    match root_sig_item(s, p, items) {
        Ok((items, end)) => if p < end && end <= s.text.len() {
            root_sig_items(s, end, items)
        } else {
            Ok((items, p))
        },
        Err(f) => if f.cut {
            Err(f)
        } else {
            Ok((items, p))
        },
    }
}

/// `ROOT`.
#[verifier::opaque]
pub open spec fn root_sig(s: Script, p: int) -> Outcome<DirectiveView> {
    match space_identifier(s, p) { Err(f) => Err(f), Ok((name, p)) =>
    match line_end(s, p) { Err(f) => Err(f), Ok((_, p)) => {
    let nothing = RootSigItemsView { entries: Seq::empty(), config: None };
    match root_sig_items(s, p, nothing) { Err(f) => Err(f), Ok((items, p)) =>
    match end_line(s, p) { Err(f) => Err(f), Ok((_, p)) =>
    Ok((DirectiveView::RootSig { name, entries: items.entries, config: set_bits(items.config) }, p))
    }}}}}
}

/// `ROOT_DXIL`.
#[verifier::opaque]
pub open spec fn root_sig_dxil(s: Script, p: int) -> Outcome<DirectiveView> {
    match space_identifier(s, p) { Err(f) => Err(f), Ok((name, p)) =>
    match space_identifier(s, p) { Err(f) => Err(f), Ok((object, p)) =>
    match line_end(s, p) { Err(f) => Err(f), Ok((_, p)) =>
    Ok((DirectiveView::RootSigDxil { name, object }, p))
    }}}
}

/// The type of a pipeline.
#[verifier::opaque]
pub open spec fn pipeline_type(s: Script, p: int) -> Outcome<PipelineType> {
    match identifier(s, p) { Err(f) => Err(f), Ok((id, p)) =>
    if id.content == "COMPUTE"@ {
        Ok((PipelineType::Compute, p))
    } else {
        Err(
            Fail {
                cut: false,
                error: ParserError::InvalidWord { span: id.span, word: WordKind::PipelineType },
            },
        )
    }}
}

/// What the lines of a pipeline have given so far.
pub struct PipelineItemsView {
    pub shaders: Seq<IdentifierView>,
    pub root_sig: OnceView<IdentifierView>,
}

/// A line of a pipeline.
#[verifier::opaque]
pub open spec fn pipeline_item(s: Script, p: int, items: PipelineItemsView) -> Outcome<PipelineItemsView> {
    match identifier(s, p) { Err(f) => Err(f), Ok((id, p)) =>
    if id.content == "ATTACH"@ {
        match in_statement(identifier_line(s, p), StatementFormat::PipelineAttach, id.span) {
            Ok((found, end)) => Ok((PipelineItemsView { shaders: items.shaders.push(found), ..items }, end)),
            Err(f) => Err(f),
        }
    } else if id.content == "ROOT"@ {
        let o = no_dup(items.root_sig, id, identifier_line(s, p));
        match in_statement(o, StatementFormat::PipelineRoot, id.span) {
            Ok((root_sig, end)) => Ok((PipelineItemsView { root_sig, ..items }, end)),
            Err(f) => Err(f),
        }
    } else {
        unknown(s, p)
    }}
}

/// The lines of a pipeline, as many as there are.
pub open spec fn pipeline_items(s: Script, p: int, items: PipelineItemsView) -> Outcome<PipelineItemsView>
    decreases s.text.len() - p,
{
    match pipeline_item(s, p, items) {
        Ok((items, end)) => if p < end && end <= s.text.len() {
            pipeline_items(s, end, items)
        } else {
            Ok((items, p))
        },
        Err(f) => if f.cut {
            Err(f)
        } else {
            Ok((items, p))
        },
    }
}

/// `PIPELINE`.
#[verifier::opaque]
pub open spec fn pipeline(s: Script, p: int) -> Outcome<DirectiveView> {
    match space_identifier(s, p) { Err(f) => Err(f), Ok((name, p)) =>
    match space(s, p) { Err(f) => Err(f), Ok((_, p)) =>
    match pipeline_type(s, p) { Err(f) => Err(f), Ok((typ, p)) =>
    match line_end(s, p) { Err(f) => Err(f), Ok((_, p)) => {
    let nothing = PipelineItemsView { shaders: Seq::empty(), root_sig: None };
    match pipeline_items(s, p, nothing) { Err(f) => Err(f), Ok((items, p)) =>
    match end_line(s, p) { Err(f) => Err(f), Ok((_, p)) =>
    Ok((DirectiveView::Pipeline {
        name,
        typ,
        shaders: items.shaders,
        root_sig: set_value(items.root_sig),
    }, p))
    }}}}}}}
}

/// A typed buffer view.
#[verifier::opaque]
pub open spec fn typed_view(s: Script, p: int) -> Outcome<InputViewType> {
    match literal(s, p, "TYPED"@) { Err(f) => Err(f), Ok((_, p)) =>
    match space(s, p) { Err(f) => Err(f), Ok((_, p)) =>
    match view_type(s, p) { Err(f) => Err(f), Ok((typ, p)) =>
    match space(s, p) { Err(f) => Err(f), Ok((_, p)) =>
    match data_type(s, p) { Err(f) => Err(f), Ok((data_type, p)) =>
    Ok((InputViewType::Typed { typ, data_type }, p))
    }}}}}
}

/// A structured buffer view.
#[verifier::opaque]
pub open spec fn structured_view(s: Script, p: int) -> Outcome<InputViewType> {
    match literal(s, p, "STRUCTURED"@) { Err(f) => Err(f), Ok((_, p)) =>
    match space(s, p) { Err(f) => Err(f), Ok((_, p)) =>
    match view_type(s, p) { Err(f) => Err(f), Ok((typ, p)) =>
    match keyword(s, p, "BYTES"@) { Err(f) => Err(f), Ok((_, p)) =>
    match uint32(s, p) { Err(f) => Err(f), Ok((struct_size, p)) =>
    Ok((InputViewType::Structured { typ, struct_size }, p))
    }}}}}
}

/// An untyped buffer view.
#[verifier::opaque]
pub open spec fn raw_view(s: Script, p: int) -> Outcome<InputViewType> {
    match view_type(s, p) { Err(f) => Err(f), Ok((typ, p)) =>
    Ok((InputViewType::Raw { typ }, p))
    }
}

/// A view of an acceleration structure.
#[verifier::opaque]
pub open spec fn rtas_view(s: Script, p: int) -> Outcome<InputViewType> {
    match literal(s, p, "RTAS"@) { Err(f) => Err(f), Ok((_, p)) =>
    match space(s, p) { Err(f) => Err(f), Ok((_, p)) =>
    match literal(s, p, "SRV"@) { Err(f) => Err(f), Ok((_, p)) =>
    Ok((InputViewType::RaytracingAccelStruct, p))
    }}}
}

/// The description of a view.
#[verifier::opaque]
pub open spec fn view_description(s: Script, p: int) -> Outcome<InputViewType> {
    either(
        either(either(typed_view(s, p), structured_view(s, p)), raw_view(s, p)),
        rtas_view(s, p),
    )
}

/// `VIEW`.
#[verifier::opaque]
pub open spec fn view(s: Script, p: int) -> Outcome<DirectiveView> {
    match space_identifier(s, p) { Err(f) => Err(f), Ok((name, p)) =>
    match space_identifier(s, p) { Err(f) => Err(f), Ok((buffer, p)) =>
    match keyword(s, p, "AS"@) { Err(f) => Err(f), Ok((_, p)) =>
    match view_description(s, p) { Err(f) => Err(f), Ok((typ, p)) =>
    match line_end(s, p) { Err(f) => Err(f), Ok((_, p)) =>
    Ok((DirectiveView::View { name, buffer: Some(buffer), typ }, p))
    }}}}}
}

/// A view in an argument buffer.
#[verifier::opaque]
pub open spec fn argument_view(s: Script, p: int, typ: ViewType) -> Outcome<CommandSignatureArgument> {
    match keyword(s, p, "REGISTER"@) { Err(f) => Err(f), Ok((_, p)) =>
    match uint32(s, p) { Err(f) => Err(f), Ok((index, p)) =>
    Ok((CommandSignatureArgument::View { typ, index }, p))
    }}
}

/// Constants in an argument buffer.
#[verifier::opaque]
pub open spec fn argument_const(s: Script, p: int) -> Outcome<CommandSignatureArgument> {
    match keyword(s, p, "NUMBER"@) { Err(f) => Err(f), Ok((_, p)) =>
    match uint32(s, p) { Err(f) => Err(f), Ok((number, p)) =>
    match keyword(s, p, "REGISTER"@) { Err(f) => Err(f), Ok((_, p)) =>
    match uint32(s, p) { Err(f) => Err(f), Ok((index, p)) =>
    match keyword(s, p, "OFFSET"@) { Err(f) => Err(f), Ok((_, p)) =>
    match uint32(s, p) { Err(f) => Err(f), Ok((offset, p)) =>
    Ok((CommandSignatureArgument::Constant { index, number, offset }, p))
    }}}}}}
}

/// A line of a command signature.
#[verifier::opaque]
pub open spec fn argument(s: Script, p: int) -> Outcome<CommandSignatureArgument> {
    match word(s, p) { Err(f) => Err(f), Ok((w, p)) => {
    let o: Outcome<CommandSignatureArgument> = if w == "SRV"@ {
        cut(argument_view(s, p, ViewType::Srv))
    } else if w == "UAV"@ {
        cut(argument_view(s, p, ViewType::Uav))
    } else if w == "ROOT_CONST"@ {
        cut(argument_const(s, p))
    } else if w == "DISPATCH"@ {
        Ok((CommandSignatureArgument::Dispatch, p))
    } else if w == "DISPATCHRAYS"@ {
        Ok((CommandSignatureArgument::DispatchRays, p))
    } else {
        unknown(s, p)
    };
    match o { Err(f) => Err(f), Ok((argument, p)) =>
    match line_end(s, p) { Err(f) => Err(f), Ok((_, p)) =>
    Ok((argument, p))
    }}}}
}

/// As many lines of a command signature as there are, put behind `found`.
pub open spec fn arguments(s: Script, p: int, found: Seq<CommandSignatureArgument>) -> Outcome<
    Seq<CommandSignatureArgument>,
>
    decreases s.text.len() - p,
{
    match argument(s, p) {
        Ok((a, end)) => if p < end && end <= s.text.len() {
            arguments(s, end, found.push(a))
        } else {
            Ok((found, p))
        },
        Err(f) => if f.cut {
            Err(f)
        } else {
            Ok((found, p))
        },
    }
}

/// The stride behind `STRIDE`.
#[verifier::opaque]
pub open spec fn stride(s: Script, p: int) -> Outcome<u32> {
    match keyword(s, p, "STRIDE"@) { Err(f) => Err(f), Ok((_, p)) =>
    uint32(s, p)
    }
}

/// The root signature behind `ROOT_SIG`.
#[verifier::opaque]
pub open spec fn signature_root_sig(s: Script, p: int) -> Outcome<IdentifierView> {
    match keyword(s, p, "ROOT_SIG"@) { Err(f) => Err(f), Ok((_, p)) =>
    identifier(s, p)
    }
}

/// `COMMAND_SIGNATURE`.
#[verifier::opaque]
pub open spec fn command_signature(s: Script, p: int) -> Outcome<DirectiveView> {
    match space_identifier(s, p) { Err(f) => Err(f), Ok((name, p)) =>
    match optional(stride(s, p), p) { Err(f) => Err(f), Ok((stride, p)) =>
    match optional(signature_root_sig(s, p), p) { Err(f) => Err(f), Ok((root_sig, p)) =>
    match line_end(s, p) { Err(f) => Err(f), Ok((_, p)) =>
    match arguments(s, p, Seq::empty()) { Err(f) => Err(f), Ok((arguments, p)) =>
    match end_line(s, p) { Err(f) => Err(f), Ok((_, p)) =>
    Ok((DirectiveView::CommandSignature { name, stride, arguments, root_sig }, p))
    }}}}}}
}

} // verus!
