//! The forms that errors show: which word each of them is about.
use vstd::prelude::*;

use crate::grammar::bindings::{command_signature, pipeline, root_sig, root_sig_dxil, view};
use crate::grammar::checks::{assert_shader_id, dump, expect, include_file, sleep};
use crate::grammar::dispatches::{dispatch, DispatchParseType};
use crate::grammar::geometry::{blas, tlas};
use crate::grammar::objects::{object, object_args, object_dxil, pso, source};
use crate::grammar::statements::statement;
use crate::grammar::tables::{shaderid, shadertable};
use crate::grammar::tokens::identifier;
use crate::grammar::values::buffer;
use crate::names::{type_text, IdentifierType};
use crate::parse_error::{format_text, Fail, Outcome, ParserError, StatementFormat};
use crate::script::{DirectiveView, PipelineStateObjectType};
use crate::source::{IdentifierView, Script};
use crate::state::made_type;
use crate::text::{before, lemma_before};

verus! {

/// The word that a statement or a line starts with.
pub open spec fn format_word(format: StatementFormat) -> Seq<char> {
    match format {
        StatementFormat::Assert => "ASSERT"@,
        StatementFormat::Blas => "BLAS"@,
        StatementFormat::Buffer => "BUFFER"@,
        StatementFormat::Collection => "COLLECTION"@,
        StatementFormat::CommandSignature => "COMMAND_SIGNATURE"@,
        StatementFormat::Dispatch => "DISPATCH"@,
        StatementFormat::DispatchRays => "DISPATCHRAYS"@,
        StatementFormat::Dump => "DUMP"@,
        StatementFormat::ExecuteIndirect => "EXECUTE_INDIRECT"@,
        StatementFormat::Expect => "EXPECT"@,
        StatementFormat::Include => "INCLUDE"@,
        StatementFormat::Lib => "LIB"@,
        StatementFormat::Object => "OBJECT"@,
        StatementFormat::Pipeline => "PIPELINE"@,
        StatementFormat::Rtpso => "RTPSO"@,
        StatementFormat::Root => "ROOT"@,
        StatementFormat::RootDxil => "ROOT_DXIL"@,
        StatementFormat::ShaderTable => "SHADERTABLE"@,
        StatementFormat::ShaderId => "SHADERID"@,
        StatementFormat::Sleep => "SLEEP"@,
        StatementFormat::Source => "SOURCE"@,
        StatementFormat::Tlas => "TLAS"@,
        StatementFormat::View => "VIEW"@,
        StatementFormat::PsoCollection => "COLLECTION"@,
        StatementFormat::PsoLib => "LIB"@,
        StatementFormat::PsoHitGroup => "HIT_GROUP"@,
        StatementFormat::Aabb => "AABB"@,
        StatementFormat::Vertex => "VERTEX"@,
        StatementFormat::Transform => "TRANSFORM"@,
        StatementFormat::InstanceId => "ID"@,
        StatementFormat::InstanceMask => "MASK"@,
        StatementFormat::InstanceContribution => "HIT_GROUP_INDEX_CONTRIBUTION"@,
        StatementFormat::Instance => "BLAS"@,
        StatementFormat::SeriesFrom => "SERIES_FROM"@,
        StatementFormat::Fill => "FILL"@,
        StatementFormat::RootTable => "TABLE"@,
        StatementFormat::RootSrv => "SRV"@,
        StatementFormat::RootUav => "UAV"@,
        StatementFormat::RootConst => "ROOT_CONST"@,
        StatementFormat::PipelineAttach => "ATTACH"@,
        StatementFormat::PipelineRoot => "ROOT"@,
        StatementFormat::DispatchBind => "BIND"@,
        StatementFormat::DispatchRootConst => "ROOT_CONST"@,
        StatementFormat::DispatchSrv => "SRV"@,
        StatementFormat::DispatchUav => "UAV"@,
        StatementFormat::DispatchRootSig => "ROOT_SIG"@,
    }
}

proof fn lemma_first_word(text: Seq<char>, w: Seq<char>)
    requires
        w.len() < text.len(),
        forall|i: int| 0 <= i < w.len() ==> text[i] == #[trigger] w[i] && w[i] != ' ',
        text[w.len() as int] == ' ',
    ensures
        before(text, ' ') == w,
{
    lemma_before(text, ' ');
    let b = before(text, ' ');
    if b.len() < w.len() {
        assert(text[b.len() as int] == w[b.len() as int]);
        assert(false);
    }
    if b.len() > w.len() {
        assert(text.take(b.len() as int)[w.len() as int] == text[w.len() as int]);
        assert(b[w.len() as int] == ' ');
        assert(b.contains(' '));
        assert(false);
    }
    assert(b =~= w);
}

/// The form of a statement or a line starts with its word.
#[verifier::spinoff_prover]
#[verifier::rlimit(40)]
pub proof fn lemma_format_word(format: StatementFormat)
    ensures
        before(format_text(format), ' ') == format_word(format),
{
    match format {
        StatementFormat::Assert => {
            reveal_strlit("ASSERT SHADERID [EQ|NE] <shaderid_a> <shaderid_b>");
            reveal_strlit("ASSERT");
        },
        StatementFormat::Blas => {
            reveal_strlit("BLAS <name> content... END");
            reveal_strlit("BLAS");
        },
        StatementFormat::Buffer => {
            reveal_strlit(
                "BUFFER <name> [DATA_TYPE <tyflagspe> SIZE <elements> | RAW <bytes> ... END]",
            );
            reveal_strlit("BUFFER");
        },
        StatementFormat::Collection => {
            reveal_strlit("COLLECTION name [ADDTO existing_name]");
            reveal_strlit("COLLECTION");
        },
        StatementFormat::CommandSignature => {
            reveal_strlit(
                "COMMAND_SIGNATURE <name> [STRIDE <stride>] [ROOT_SIG <root_sig>] content... END",
            );
            reveal_strlit("COMMAND_SIGNATURE");
        },
        StatementFormat::Dispatch => {
            reveal_strlit("DISPATCH <pipeline> content... RUN <x> <y> <z>");
            reveal_strlit("DISPATCH");
        },
        StatementFormat::DispatchRays => {
            reveal_strlit(
                "DISPATCHRAYS <pipeline> content... RUN <raygentab> <hittab> <misstab> <calltab> <x> <y> <z>",
            );
            reveal_strlit("DISPATCHRAYS");
        },
        StatementFormat::Dump => {
            reveal_strlit("DUMP <resource> <type> [PRINT_STRIDE <stride>] [EXPECT]");
            reveal_strlit("DUMP");
        },
        StatementFormat::ExecuteIndirect => {
            reveal_strlit(
                "EXECUTE_INDIRECT <pipeline> SIGNATURE <command_signature> content... RUN <argument_buffer> [OFFSET <offset>] MAX_COMMANDS <num> [COUNT <count_buffer> [COUNT_OFFSET <offset>]]",
            );
            reveal_strlit("EXECUTE_INDIRECT");
        },
        StatementFormat::Expect => {
            reveal_strlit(
                "EXPECT <resource> <type> [EPSILON <epsilon>] OFFSET <offset> EQ <list>",
            );
            reveal_strlit("EXPECT");
        },
        StatementFormat::Include => {
            reveal_strlit("INCLUDE <path>");
            reveal_strlit("INCLUDE");
        },
        StatementFormat::Lib => {
            reveal_strlit("LIB <name> <source_name> <shader_model> [<compile arguments>]");
            reveal_strlit("LIB");
        },
        StatementFormat::Object => {
            reveal_strlit(
                "OBJECT <name> <source_name> <shader_model> <entrypoint> [<compile arguments>]",
            );
            reveal_strlit("OBJECT");
        },
        StatementFormat::Pipeline => {
            reveal_strlit("PIPELINE <name> <type> content... END");
            reveal_strlit("PIPELINE");
        },
        StatementFormat::Rtpso => {
            reveal_strlit("RTPSO name [ADDTO existing_name]");
            reveal_strlit("RTPSO");
        },
        StatementFormat::Root => {
            reveal_strlit("ROOT <name> content... END");
            reveal_strlit("ROOT");
        },
        StatementFormat::RootDxil => {
            reveal_strlit("ROOT_DXIL <sig_name> <object>");
            reveal_strlit("ROOT_DXIL");
        },
        StatementFormat::ShaderTable => {
            reveal_strlit("SHADERTABLE <name> <state_object> content... END");
            reveal_strlit("SHADERTABLE");
        },
        StatementFormat::ShaderId => {
            reveal_strlit("SHADERID <name> <state_object> <shader_name>");
            reveal_strlit("SHADERID");
        },
        StatementFormat::Sleep => {
            reveal_strlit("SLEEP <duration>");
            reveal_strlit("SLEEP");
        },
        StatementFormat::Source => {
            reveal_strlit("SOURCE <name> code... END");
            reveal_strlit("SOURCE");
        },
        StatementFormat::Tlas => {
            reveal_strlit("TLAS <name> content... END");
            reveal_strlit("TLAS");
        },
        StatementFormat::View => {
            reveal_strlit("VIEW <name> <buffer_name> AS [UAV|SRV|RTAS SRV]");
            reveal_strlit("VIEW");
        },
        StatementFormat::PsoCollection => {
            reveal_strlit("COLLECTION <obj> [EXPORTS <name>[=<exportToRename>] <....>]");
            reveal_strlit("COLLECTION");
        },
        StatementFormat::PsoLib => {
            reveal_strlit("LIB <obj> [EXPORTS <name>[=<exportToRename>] <....>]");
            reveal_strlit("LIB");
        },
        StatementFormat::PsoHitGroup => {
            reveal_strlit("HIT_GROUP <name> <anyhit> <closesthit> <intersection>");
            reveal_strlit("HIT_GROUP");
        },
        StatementFormat::Aabb => {
            reveal_strlit("AABB <min_x> <min_y> <min_z> <max_x> <max_y> <max_z>");
            reveal_strlit("AABB");
        },
        StatementFormat::Vertex => {
            reveal_strlit("VERTEX <x> <y> <z>");
            reveal_strlit("VERTEX");
        },
        StatementFormat::Transform => {
            reveal_strlit("TRANSFORM content 3x4... END");
            reveal_strlit("TRANSFORM");
        },
        StatementFormat::InstanceId => {
            reveal_strlit("ID <num>");
            reveal_strlit("ID");
        },
        StatementFormat::InstanceMask => {
            reveal_strlit("MASK <num>");
            reveal_strlit("MASK");
        },
        StatementFormat::InstanceContribution => {
            reveal_strlit("HIT_GROUP_INDEX_CONTRIBUTION <num>");
            reveal_strlit("HIT_GROUP_INDEX_CONTRIBUTION");
        },
        StatementFormat::Instance => {
            reveal_strlit("BLAS <name> [-]");
            reveal_strlit("BLAS");
        },
        StatementFormat::SeriesFrom => {
            reveal_strlit("SERIES_FROM <start> INC_BY <increment>");
            reveal_strlit("SERIES_FROM");
        },
        StatementFormat::Fill => {
            reveal_strlit("FILL <const>");
            reveal_strlit("FILL");
        },
        StatementFormat::RootTable => {
            reveal_strlit("TABLE <type> REGISTER <num> NUMBER <num> SPACE <space>");
            reveal_strlit("TABLE");
        },
        StatementFormat::RootSrv => {
            reveal_strlit("SRV REGISTER <num> SPACE <space>");
            reveal_strlit("SRV");
        },
        StatementFormat::RootUav => {
            reveal_strlit("UAV REGISTER <num> SPACE <space>");
            reveal_strlit("UAV");
        },
        StatementFormat::RootConst => {
            reveal_strlit("ROOT_CONST COUNT <num> REGISTER <num> SPACE <space>");
            reveal_strlit("ROOT_CONST");
        },
        StatementFormat::PipelineAttach => {
            reveal_strlit("ATTACH <name>");
            reveal_strlit("ATTACH");
        },
        StatementFormat::PipelineRoot => {
            reveal_strlit("ROOT <root_sig>");
            reveal_strlit("ROOT");
        },
        StatementFormat::DispatchBind => {
            reveal_strlit("BIND <index> [TABLE <view>]");
            reveal_strlit("BIND");
        },
        StatementFormat::DispatchRootConst => {
            reveal_strlit("ROOT_CONST <idx> <data_spec>");
            reveal_strlit("ROOT_CONST");
        },
        StatementFormat::DispatchSrv => {
            reveal_strlit("SRV <idx> <buffer_name>");
            reveal_strlit("SRV");
        },
        StatementFormat::DispatchUav => {
            reveal_strlit("UAV <idx> <buffer_name>");
            reveal_strlit("UAV");
        },
        StatementFormat::DispatchRootSig => {
            reveal_strlit("ROOT_SIG <name>");
            reveal_strlit("ROOT_SIG");
        },
    }
    lemma_first_word(format_text(format), format_word(format));
}

/// Whether an error shows the form of the statement that starts with a word, if all that is known of
/// it is where it is.
pub open spec fn is_shown<V>(s: Script, p: int, id: IdentifierView, o: Outcome<V>) -> bool {
    o matches Err(f) ==> (f.error matches ParserError::Unknown { span: at } ==> (statement(
        s,
        p,
    ) matches Err(g) && (g.error matches ParserError::InvalidStatement { decl, span, format }
        && decl == id.span && span == at && before(format_text(format), ' ') == id.content)))
}

/// If something else is expected in a statement, the form of the statement is shown: it starts with
/// the word that the statement starts with.
#[verifier::spinoff_prover]
#[verifier::rlimit(100)]
pub proof fn lemma_invalid_statement(s: Script, p: int, id: IdentifierView, q: int)
    requires
        identifier(s, p) == Ok::<(IdentifierView, int), Fail<Seq<char>>>((id, q)),
    ensures
        id.content == "ASSERT"@ ==> is_shown(
            s,
            p,
            id,
            assert_shader_id(s, q, id),
        ),
        id.content == "BLAS"@ ==> is_shown(
            s,
            p,
            id,
            blas(s, q),
        ),
        id.content == "BUFFER"@ ==> is_shown(
            s,
            p,
            id,
            buffer(s, q),
        ),
        id.content == "COLLECTION"@ ==> is_shown(
            s,
            p,
            id,
            pso(s, q, PipelineStateObjectType::Collection),
        ),
        id.content == "COMMAND_SIGNATURE"@ ==> is_shown(
            s,
            p,
            id,
            command_signature(s, q),
        ),
        id.content == "DISPATCH"@ ==> is_shown(
            s,
            p,
            id,
            dispatch(s, q, id, DispatchParseType::Dispatch),
        ),
        id.content == "DISPATCHRAYS"@ ==> is_shown(
            s,
            p,
            id,
            dispatch(s, q, id, DispatchParseType::DispatchRays),
        ),
        id.content == "DUMP"@ ==> is_shown(
            s,
            p,
            id,
            dump(s, q, id),
        ),
        id.content == "EXECUTE_INDIRECT"@ ==> is_shown(
            s,
            p,
            id,
            dispatch(s, q, id, DispatchParseType::ExecuteIndirect),
        ),
        id.content == "EXPECT"@ ==> is_shown(
            s,
            p,
            id,
            expect(s, q, id),
        ),
        id.content == "INCLUDE"@ ==> is_shown(
            s,
            p,
            id,
            include_file(s, q, id),
        ),
        id.content == "LIB"@ ==> is_shown(
            s,
            p,
            id,
            object(s, q, false),
        ),
        id.content == "OBJECT"@ ==> is_shown(
            s,
            p,
            id,
            object(s, q, true),
        ),
        id.content == "PIPELINE"@ ==> is_shown(
            s,
            p,
            id,
            pipeline(s, q),
        ),
        id.content == "RTPSO"@ ==> is_shown(
            s,
            p,
            id,
            pso(s, q, PipelineStateObjectType::Pipeline),
        ),
        id.content == "ROOT"@ ==> is_shown(
            s,
            p,
            id,
            root_sig(s, q),
        ),
        id.content == "ROOT_DXIL"@ ==> is_shown(
            s,
            p,
            id,
            root_sig_dxil(s, q),
        ),
        id.content == "SHADERTABLE"@ ==> is_shown(
            s,
            p,
            id,
            shadertable(s, q),
        ),
        id.content == "SHADERID"@ ==> is_shown(
            s,
            p,
            id,
            shaderid(s, q),
        ),
        id.content == "SLEEP"@ ==> is_shown(
            s,
            p,
            id,
            sleep(s, q, id),
        ),
        id.content == "SOURCE"@ ==> is_shown(
            s,
            p,
            id,
            source(s, q),
        ),
        id.content == "TLAS"@ ==> is_shown(
            s,
            p,
            id,
            tlas(s, q),
        ),
        id.content == "VIEW"@ ==> is_shown(
            s,
            p,
            id,
            view(s, q),
        ),
{
    reveal(statement);
    if let Err(g) = statement(s, p) {
        if let ParserError::InvalidStatement { format, .. } = g.error {
            lemma_format_word(format);
        }
    }
    reveal_strlit("ASSERT");
    assert("ASSERT"@.len() == 6 && "ASSERT"@[0] == 'A');
    reveal_strlit("BLAS");
    assert("BLAS"@.len() == 4 && "BLAS"@[0] == 'B');
    reveal_strlit("BUFFER");
    assert("BUFFER"@.len() == 6 && "BUFFER"@[0] == 'B');
    reveal_strlit("COLLECTION");
    assert("COLLECTION"@.len() == 10 && "COLLECTION"@[0] == 'C');
    reveal_strlit("COMMAND_SIGNATURE");
    assert("COMMAND_SIGNATURE"@.len() == 17 && "COMMAND_SIGNATURE"@[0] == 'C');
    reveal_strlit("DISPATCH");
    assert("DISPATCH"@.len() == 8 && "DISPATCH"@[0] == 'D');
    reveal_strlit("DISPATCHRAYS");
    assert("DISPATCHRAYS"@.len() == 12 && "DISPATCHRAYS"@[0] == 'D');
    reveal_strlit("DUMP");
    assert("DUMP"@.len() == 4 && "DUMP"@[0] == 'D');
    reveal_strlit("EXECUTE_INDIRECT");
    assert("EXECUTE_INDIRECT"@.len() == 16 && "EXECUTE_INDIRECT"@[0] == 'E');
    reveal_strlit("EXPECT");
    assert("EXPECT"@.len() == 6 && "EXPECT"@[0] == 'E');
    reveal_strlit("INCLUDE");
    assert("INCLUDE"@.len() == 7 && "INCLUDE"@[0] == 'I');
    reveal_strlit("LIB");
    assert("LIB"@.len() == 3 && "LIB"@[0] == 'L');
    reveal_strlit("OBJECT");
    assert("OBJECT"@.len() == 6 && "OBJECT"@[0] == 'O');
    reveal_strlit("PIPELINE");
    assert("PIPELINE"@.len() == 8 && "PIPELINE"@[0] == 'P');
    reveal_strlit("RTPSO");
    assert("RTPSO"@.len() == 5 && "RTPSO"@[0] == 'R');
    reveal_strlit("ROOT");
    assert("ROOT"@.len() == 4 && "ROOT"@[0] == 'R');
    reveal_strlit("ROOT_DXIL");
    assert("ROOT_DXIL"@.len() == 9 && "ROOT_DXIL"@[0] == 'R');
    reveal_strlit("SHADERTABLE");
    assert("SHADERTABLE"@.len() == 11 && "SHADERTABLE"@[0] == 'S');
    reveal_strlit("SHADERID");
    assert("SHADERID"@.len() == 8 && "SHADERID"@[0] == 'S');
    reveal_strlit("SLEEP");
    assert("SLEEP"@.len() == 5 && "SLEEP"@[0] == 'S');
    reveal_strlit("SOURCE");
    assert("SOURCE"@.len() == 6 && "SOURCE"@[0] == 'S');
    reveal_strlit("TLAS");
    assert("TLAS"@.len() == 4 && "TLAS"@[0] == 'T');
    reveal_strlit("VIEW");
    assert("VIEW"@.len() == 4 && "VIEW"@[0] == 'V');
}

/// Whether a statement makes an object of a kind.
pub open spec fn makes(o: Outcome<DirectiveView>, typ: IdentifierType) -> bool {
    o matches Ok((d, _)) ==> made_type(d) == Some(typ)
}

proof fn lemma_makes(s: Script, p: int)
    ensures
        makes(source(s, p), IdentifierType::Source),
        makes(object(s, p, true), IdentifierType::Object),
        makes(blas(s, p), IdentifierType::Blas),
        makes(tlas(s, p), IdentifierType::Tlas),
        makes(buffer(s, p), IdentifierType::Buffer),
        makes(root_sig(s, p), IdentifierType::RootSig),
        makes(shaderid(s, p), IdentifierType::ShaderId),
        makes(shadertable(s, p), IdentifierType::ShaderTable),
        makes(pipeline(s, p), IdentifierType::Pipeline),
        makes(view(s, p), IdentifierType::View),
        makes(command_signature(s, p), IdentifierType::CommandSignature),
{
    reveal(source);
    reveal(object);
    reveal(object_args);
    reveal(object_dxil);
    reveal(blas);
    reveal(tlas);
    reveal(buffer);
    reveal(root_sig);
    reveal(shaderid);
    reveal(shadertable);
    reveal(pipeline);
    reveal(view);
    reveal(command_signature);
}

/// A kind of object is shown as the word of the statement that makes such objects. Only that of
/// state objects, which several statements make, is no such word.
#[verifier::spinoff_prover]
#[verifier::rlimit(100)]
pub proof fn lemma_type_text(s: Script, p: int, id: IdentifierView, q: int, typ: IdentifierType)
    requires
        identifier(s, p) == Ok::<(IdentifierView, int), Fail<Seq<char>>>((id, q)),
        id.content == type_text(typ),
        typ !is PipelineStateObject,
    ensures
        makes(statement(s, p), typ),
{
    reveal(statement);
    lemma_makes(s, q);
    reveal_strlit("ASSERT");
    assert("ASSERT"@.len() == 6 && "ASSERT"@[0] == 'A');
    reveal_strlit("BLAS");
    assert("BLAS"@.len() == 4 && "BLAS"@[0] == 'B');
    reveal_strlit("BUFFER");
    assert("BUFFER"@.len() == 6 && "BUFFER"@[0] == 'B');
    reveal_strlit("COLLECTION");
    assert("COLLECTION"@.len() == 10 && "COLLECTION"@[0] == 'C');
    reveal_strlit("COMMAND_SIGNATURE");
    assert("COMMAND_SIGNATURE"@.len() == 17 && "COMMAND_SIGNATURE"@[0] == 'C');
    reveal_strlit("DISPATCH");
    assert("DISPATCH"@.len() == 8 && "DISPATCH"@[0] == 'D');
    reveal_strlit("DISPATCHRAYS");
    assert("DISPATCHRAYS"@.len() == 12 && "DISPATCHRAYS"@[0] == 'D');
    reveal_strlit("DUMP");
    assert("DUMP"@.len() == 4 && "DUMP"@[0] == 'D');
    reveal_strlit("EXECUTE_INDIRECT");
    assert("EXECUTE_INDIRECT"@.len() == 16 && "EXECUTE_INDIRECT"@[0] == 'E');
    reveal_strlit("EXPECT");
    assert("EXPECT"@.len() == 6 && "EXPECT"@[0] == 'E');
    reveal_strlit("INCLUDE");
    assert("INCLUDE"@.len() == 7 && "INCLUDE"@[0] == 'I');
    reveal_strlit("LIB");
    assert("LIB"@.len() == 3 && "LIB"@[0] == 'L');
    reveal_strlit("OBJECT");
    assert("OBJECT"@.len() == 6 && "OBJECT"@[0] == 'O');
    reveal_strlit("PIPELINE");
    assert("PIPELINE"@.len() == 8 && "PIPELINE"@[0] == 'P');
    reveal_strlit("RTPSO");
    assert("RTPSO"@.len() == 5 && "RTPSO"@[0] == 'R');
    reveal_strlit("ROOT");
    assert("ROOT"@.len() == 4 && "ROOT"@[0] == 'R');
    reveal_strlit("ROOT_DXIL");
    assert("ROOT_DXIL"@.len() == 9 && "ROOT_DXIL"@[0] == 'R');
    reveal_strlit("SHADERTABLE");
    assert("SHADERTABLE"@.len() == 11 && "SHADERTABLE"@[0] == 'S');
    reveal_strlit("SHADERID");
    assert("SHADERID"@.len() == 8 && "SHADERID"@[0] == 'S');
    reveal_strlit("SLEEP");
    assert("SLEEP"@.len() == 5 && "SLEEP"@[0] == 'S');
    reveal_strlit("SOURCE");
    assert("SOURCE"@.len() == 6 && "SOURCE"@[0] == 'S');
    reveal_strlit("TLAS");
    assert("TLAS"@.len() == 4 && "TLAS"@[0] == 'T');
    reveal_strlit("VIEW");
    assert("VIEW"@.len() == 4 && "VIEW"@[0] == 'V');
}

} // verus!
