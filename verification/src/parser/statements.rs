//! Statements, and whole scripts.
use vstd::prelude::*;

use crate::grammar::dispatches::DispatchParseType;
use crate::grammar::statements as grammar;
use crate::parse_error::{Fail, Parsed, ParserError, StatementFormat};
use crate::parser::bindings::{command_signature, pipeline, root_sig, root_sig_dxil, view};
use crate::parser::checks::{assert_shader_id, dump, expect, include_file, sleep};
use crate::parser::dispatches::dispatch;
use crate::parser::geometry::{blas, tlas};
use crate::parser::objects::{object, pso, source};
use crate::parser::tables::{shaderid, shadertable};
use crate::parser::tokens::{
    identifier, inv_statement, line_end, opt, reads, reads_some, unknown,
};
use crate::parser::values::buffer;
use crate::script::{new_list, push_item, Directive, DirectiveView, PipelineStateObjectType};
use crate::source::{Script, Source, SourceFileIdx};
use crate::text::same_text;

verus! {

/// A statement.
pub fn statement(src: &Source, pos: usize) -> (r: Parsed<Directive>)
    requires
        src.wf(),
        pos <= src@.text.len(),
    ensures
        reads_some(src@, pos, r, grammar::statement(src@, pos as int)),
{
    reveal(grammar::statement);
    let (id, p) = identifier(src, pos)?;
    let w = id.content.as_str();
    if same_text(w, "ASSERT") {
        inv_statement(assert_shader_id(src, p, &id), StatementFormat::Assert, id.span)
    } else if same_text(w, "BLAS") {
        inv_statement(blas(src, p), StatementFormat::Blas, id.span)
    } else if same_text(w, "BUFFER") {
        inv_statement(buffer(src, p), StatementFormat::Buffer, id.span)
    } else if same_text(w, "COLLECTION") {
        inv_statement(pso(src, p, PipelineStateObjectType::Collection), StatementFormat::Collection, id.span)
    } else if same_text(w, "COMMAND_SIGNATURE") {
        inv_statement(command_signature(src, p), StatementFormat::CommandSignature, id.span)
    } else if same_text(w, "DISPATCH") {
        inv_statement(dispatch(src, p, &id, DispatchParseType::Dispatch), StatementFormat::Dispatch, id.span)
    } else if same_text(w, "DISPATCHRAYS") {
        inv_statement(dispatch(src, p, &id, DispatchParseType::DispatchRays), StatementFormat::DispatchRays, id.span)
    } else if same_text(w, "DUMP") {
        inv_statement(dump(src, p, &id), StatementFormat::Dump, id.span)
    } else if same_text(w, "EXECUTE_INDIRECT") {
        inv_statement(dispatch(src, p, &id, DispatchParseType::ExecuteIndirect), StatementFormat::ExecuteIndirect, id.span)
    } else if same_text(w, "EXPECT") {
        inv_statement(expect(src, p, &id), StatementFormat::Expect, id.span)
    } else if same_text(w, "INCLUDE") {
        inv_statement(include_file(src, p, &id), StatementFormat::Include, id.span)
    } else if same_text(w, "LIB") {
        inv_statement(object(src, p, false), StatementFormat::Lib, id.span)
    } else if same_text(w, "OBJECT") {
        inv_statement(object(src, p, true), StatementFormat::Object, id.span)
    } else if same_text(w, "PIPELINE") {
        inv_statement(pipeline(src, p), StatementFormat::Pipeline, id.span)
    } else if same_text(w, "RTPSO") {
        inv_statement(pso(src, p, PipelineStateObjectType::Pipeline), StatementFormat::Rtpso, id.span)
    } else if same_text(w, "ROOT") {
        inv_statement(root_sig(src, p), StatementFormat::Root, id.span)
    } else if same_text(w, "ROOT_DXIL") {
        inv_statement(root_sig_dxil(src, p), StatementFormat::RootDxil, id.span)
    } else if same_text(w, "SHADERTABLE") {
        inv_statement(shadertable(src, p), StatementFormat::ShaderTable, id.span)
    } else if same_text(w, "SHADERID") {
        inv_statement(shaderid(src, p), StatementFormat::ShaderId, id.span)
    } else if same_text(w, "SLEEP") {
        inv_statement(sleep(src, p, &id), StatementFormat::Sleep, id.span)
    } else if same_text(w, "SOURCE") {
        inv_statement(source(src, p), StatementFormat::Source, id.span)
    } else if same_text(w, "TLAS") {
        inv_statement(tlas(src, p), StatementFormat::Tlas, id.span)
    } else if same_text(w, "VIEW") {
        inv_statement(view(src, p), StatementFormat::View, id.span)
    } else {
        Err(Fail { cut: true, error: ParserError::UnknownStatement { span: id.span } })
    }
}

/// As many statements as there are.
fn statements_from(src: &Source, pos: usize) -> (r: Parsed<Vec<Directive>>)
    requires
        src.wf(),
        pos <= src@.text.len(),
    ensures
        reads(src@, pos, r, grammar::statements_from(src@, pos as int, Seq::empty())),
{
    let mut found: Vec<Directive> = new_list();
    let mut p: usize = pos;
    loop
        invariant
            src.wf(),
            pos <= p <= src@.text.len(),
            grammar::statements_from(src@, pos as int, Seq::empty()) == grammar::statements_from(
                src@,
                p as int,
                found.deep_view(),
            ),
        decreases src@.text.len() - p,
    {
        match statement(src, p) {
            Ok((d, end)) => {
                push_item(&mut found, d);
                p = end;
            },
            Err(f) => {
                if f.cut {
                    return Err(f);
                }
                return Ok((found, p));
            },
        }
    }
}

/// A list of statements.
pub fn statements(src: &Source, pos: usize) -> (r: Parsed<Vec<Directive>>)
    requires
        src.wf(),
        pos <= src@.text.len(),
    ensures
        reads(src@, pos, r, grammar::statements(src@, pos as int)),
{
    reveal(grammar::statements);
    let (_, p) = opt(line_end(src, pos), pos)?;
    statements_from(src, p)
}

/// Reads a whole script.
pub fn parse(input: &str, source_file: SourceFileIdx) -> (r: Result<
    Vec<Directive>,
    ParserError<String>,
>)
    ensures
        match r {
            Ok(directives) => grammar::script(Script { text: input@, file: source_file }) == Ok::<
                Seq<DirectiveView>,
                ParserError<Seq<char>>,
            >(directives.deep_view()),
            Err(error) => grammar::script(Script { text: input@, file: source_file }) == Err::<
                Seq<DirectiveView>,
                ParserError<Seq<char>>,
            >(error.deep_view()),
        },
{
    let src = Source::new(input, source_file);
    match statements(&src, 0) {
        Ok((directives, end)) => if end == src.len() {
            Ok(directives)
        } else {
            Err(unknown(&src, end).error)
        },
        Err(f) => Err(f.error),
    }
}

/// Reads a whole script that is not in a file.
pub fn parse_str(input: &str) -> (r: Result<Vec<Directive>, ParserError<String>>)
    ensures
        match r {
            Ok(directives) => grammar::script(
                Script { text: input@, file: SourceFileIdx(0) },
            ) == Ok::<Seq<DirectiveView>, ParserError<Seq<char>>>(directives.deep_view()),
            Err(error) => grammar::script(
                Script { text: input@, file: SourceFileIdx(0) },
            ) == Err::<Seq<DirectiveView>, ParserError<Seq<char>>>(error.deep_view()),
        },
{
    parse(input, SourceFileIdx(0))
}

} // verus!
