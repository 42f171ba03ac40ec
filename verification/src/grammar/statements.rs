//! Statements, and whole scripts.
use vstd::prelude::*;

use crate::grammar::bindings::{command_signature, pipeline, root_sig, root_sig_dxil, view};
use crate::grammar::checks::{assert_shader_id, dump, expect, include_file, sleep};
use crate::grammar::dispatches::{dispatch, DispatchParseType};
use crate::grammar::geometry::{blas, tlas};
use crate::grammar::objects::{object, pso, source};
use crate::grammar::tables::{shaderid, shadertable};
use crate::grammar::tokens::{identifier, in_statement, line_end, optional, unknown};
use crate::grammar::values::buffer;
use crate::parse_error::{Fail, Outcome, ParserError, StatementFormat};
use crate::script::{DirectiveView, PipelineStateObjectType};
use crate::source::Script;

verus! {

/// A statement.
#[verifier::opaque]
pub open spec fn statement(s: Script, p: int) -> Outcome<DirectiveView> {
    match identifier(s, p) { Err(f) => Err(f), Ok((id, p)) =>
    if id.content == "ASSERT"@ {
        in_statement(assert_shader_id(s, p, id), StatementFormat::Assert, id.span)
    } else if id.content == "BLAS"@ {
        in_statement(blas(s, p), StatementFormat::Blas, id.span)
    } else if id.content == "BUFFER"@ {
        in_statement(buffer(s, p), StatementFormat::Buffer, id.span)
    } else if id.content == "COLLECTION"@ {
        in_statement(pso(s, p, PipelineStateObjectType::Collection), StatementFormat::Collection, id.span)
    } else if id.content == "COMMAND_SIGNATURE"@ {
        in_statement(command_signature(s, p), StatementFormat::CommandSignature, id.span)
    } else if id.content == "DISPATCH"@ {
        in_statement(dispatch(s, p, id, DispatchParseType::Dispatch), StatementFormat::Dispatch, id.span)
    } else if id.content == "DISPATCHRAYS"@ {
        in_statement(dispatch(s, p, id, DispatchParseType::DispatchRays), StatementFormat::DispatchRays, id.span)
    } else if id.content == "DUMP"@ {
        in_statement(dump(s, p, id), StatementFormat::Dump, id.span)
    } else if id.content == "EXECUTE_INDIRECT"@ {
        in_statement(dispatch(s, p, id, DispatchParseType::ExecuteIndirect), StatementFormat::ExecuteIndirect, id.span)
    } else if id.content == "EXPECT"@ {
        in_statement(expect(s, p, id), StatementFormat::Expect, id.span)
    } else if id.content == "INCLUDE"@ {
        in_statement(include_file(s, p, id), StatementFormat::Include, id.span)
    } else if id.content == "LIB"@ {
        in_statement(object(s, p, false), StatementFormat::Lib, id.span)
    } else if id.content == "OBJECT"@ {
        in_statement(object(s, p, true), StatementFormat::Object, id.span)
    } else if id.content == "PIPELINE"@ {
        in_statement(pipeline(s, p), StatementFormat::Pipeline, id.span)
    } else if id.content == "RTPSO"@ {
        in_statement(pso(s, p, PipelineStateObjectType::Pipeline), StatementFormat::Rtpso, id.span)
    } else if id.content == "ROOT"@ {
        in_statement(root_sig(s, p), StatementFormat::Root, id.span)
    } else if id.content == "ROOT_DXIL"@ {
        in_statement(root_sig_dxil(s, p), StatementFormat::RootDxil, id.span)
    } else if id.content == "SHADERTABLE"@ {
        in_statement(shadertable(s, p), StatementFormat::ShaderTable, id.span)
    } else if id.content == "SHADERID"@ {
        in_statement(shaderid(s, p), StatementFormat::ShaderId, id.span)
    } else if id.content == "SLEEP"@ {
        in_statement(sleep(s, p, id), StatementFormat::Sleep, id.span)
    } else if id.content == "SOURCE"@ {
        in_statement(source(s, p), StatementFormat::Source, id.span)
    } else if id.content == "TLAS"@ {
        in_statement(tlas(s, p), StatementFormat::Tlas, id.span)
    } else if id.content == "VIEW"@ {
        in_statement(view(s, p), StatementFormat::View, id.span)
    } else {
        Err(Fail { cut: true, error: ParserError::UnknownStatement { span: id.span } })
    }}
}

/// As many statements as there are, put behind `found`.
pub open spec fn statements_from(s: Script, p: int, found: Seq<DirectiveView>) -> Outcome<
    Seq<DirectiveView>,
>
    decreases s.text.len() - p,
{
    match statement(s, p) {
        Ok((d, end)) => if p < end && end <= s.text.len() {
            statements_from(s, end, found.push(d))
        } else {
            Ok((found, p))
        },
        Err(f) => if f.cut {
            Err(f)
        } else {
            Ok((found, p))
        },
    }
}

/// A list of statements.
#[verifier::opaque]
pub open spec fn statements(s: Script, p: int) -> Outcome<Seq<DirectiveView>> {
    match optional(line_end(s, p), p) { Err(f) => Err(f), Ok((_, p)) =>
    statements_from(s, p, Seq::empty())
    }
}

/// A whole script: a list of statements, and nothing behind it.
pub open spec fn script(s: Script) -> Result<Seq<DirectiveView>, ParserError<Seq<char>>> {
    match statements(s, 0) {
        Ok((directives, end)) => if end == s.text.len() {
            Ok(directives)
        } else {
            match unknown::<()>(s, end) {
                Ok(_) => Ok(directives),
                Err(f) => Err(f.error),
            }
        },
        Err(f) => Err(f.error),
    }
}

} // verus!
