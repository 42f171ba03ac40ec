//! Which word starts which statement, and scripts of several statements.
use vstd::prelude::*;

use crate::duration::{duration, is_duration_char, DurationError};
use crate::grammar::bindings::{command_signature, pipeline, root_sig, root_sig_dxil, view};
use crate::grammar::checks::{
    assert_shader_id, dump, duration_text, expect, include_file, sleep, sleep_for,
};
use crate::grammar::dispatches::{dispatch, DispatchParseType};
use crate::grammar::forms::geometry::lemma_later;
use crate::grammar::geometry::{blas, tlas};
use crate::grammar::objects::{object, pso, source};
use crate::grammar::statements::{script, statement, statements, statements_from};
use crate::grammar::tables::{shaderid, shadertable};
use crate::grammar::tokens::{
    identifier, in_class, single_line_end, until_end_literal, word, CharClass,
};
use crate::grammar::values::buffer;
use crate::grammar::written::{
    end, is_written, lemma_line_end, lemma_space, lemma_token, name_at, place, Token,
};
use crate::parse_error::{Fail, Outcome, ParserError};
use crate::script::{DirectiveView, PipelineStateObjectType, TimeSpan};
use crate::source::{occurrences, IdentifierView, Script};

verus! {

/// Whether a statement is what a rule finds, if it finds something.
pub open spec fn is_found(s: Script, p: int, o: Outcome<DirectiveView>) -> bool {
    o matches Ok(found) ==> statement(s, p) == Ok::<(DirectiveView, int), Fail<Seq<char>>>(found)
}

/// The first word of a statement says which statement it is.
#[verifier::spinoff_prover]
#[verifier::rlimit(60)]
pub proof fn lemma_statement_word(s: Script, p: int, id: IdentifierView, q: int)
    requires
        identifier(s, p) == Ok::<(IdentifierView, int), Fail<Seq<char>>>((id, q)),
    ensures
        id.content == "ASSERT"@ ==> is_found(s, p, assert_shader_id(s, q, id)),
        id.content == "BLAS"@ ==> is_found(s, p, blas(s, q)),
        id.content == "BUFFER"@ ==> is_found(s, p, buffer(s, q)),
        id.content == "COLLECTION"@ ==> is_found(s, p, pso(s, q, PipelineStateObjectType::Collection)),
        id.content == "COMMAND_SIGNATURE"@ ==> is_found(s, p, command_signature(s, q)),
        id.content == "DISPATCH"@ ==> is_found(s, p, dispatch(s, q, id, DispatchParseType::Dispatch)),
        id.content == "DISPATCHRAYS"@ ==> is_found(s, p, dispatch(s, q, id, DispatchParseType::DispatchRays)),
        id.content == "DUMP"@ ==> is_found(s, p, dump(s, q, id)),
        id.content == "EXECUTE_INDIRECT"@ ==> is_found(s, p, dispatch(s, q, id, DispatchParseType::ExecuteIndirect)),
        id.content == "EXPECT"@ ==> is_found(s, p, expect(s, q, id)),
        id.content == "INCLUDE"@ ==> is_found(s, p, include_file(s, q, id)),
        id.content == "LIB"@ ==> is_found(s, p, object(s, q, false)),
        id.content == "OBJECT"@ ==> is_found(s, p, object(s, q, true)),
        id.content == "PIPELINE"@ ==> is_found(s, p, pipeline(s, q)),
        id.content == "RTPSO"@ ==> is_found(s, p, pso(s, q, PipelineStateObjectType::Pipeline)),
        id.content == "ROOT"@ ==> is_found(s, p, root_sig(s, q)),
        id.content == "ROOT_DXIL"@ ==> is_found(s, p, root_sig_dxil(s, q)),
        id.content == "SHADERTABLE"@ ==> is_found(s, p, shadertable(s, q)),
        id.content == "SHADERID"@ ==> is_found(s, p, shaderid(s, q)),
        id.content == "SLEEP"@ ==> is_found(s, p, sleep(s, q, id)),
        id.content == "SOURCE"@ ==> is_found(s, p, source(s, q)),
        id.content == "TLAS"@ ==> is_found(s, p, tlas(s, q)),
        id.content == "VIEW"@ ==> is_found(s, p, view(s, q)),
{
    reveal(statement);
    reveal_strlit("ASSERT");
    assert("ASSERT"@.len() == 6 && "ASSERT"@[0] == 'A');
    reveal_strlit("BLAS");
    assert("BLAS"@.len() == 4 && "BLAS"@[0] == 'B');
    reveal_strlit("BUFFER");
    assert("BUFFER"@.len() == 6 && "BUFFER"@[0] == 'B');
    reveal_strlit("COLLECTION");
    assert("COLLECTION"@.len() == 10 && "COLLECTION"@[0] == 'C');
    reveal_strlit("COMMAND_SIGNATURE");
    assert("COMMAND_SIGNATURE"@.len() == 17 && "COMMAND_SIGNATURE"@[0] == 'C');
    reveal_strlit("DISPATCH");
    assert("DISPATCH"@.len() == 8 && "DISPATCH"@[0] == 'D');
    reveal_strlit("DISPATCHRAYS");
    assert("DISPATCHRAYS"@.len() == 12 && "DISPATCHRAYS"@[0] == 'D');
    reveal_strlit("DUMP");
    assert("DUMP"@.len() == 4 && "DUMP"@[0] == 'D');
    reveal_strlit("EXECUTE_INDIRECT");
    assert("EXECUTE_INDIRECT"@.len() == 16 && "EXECUTE_INDIRECT"@[0] == 'E');
    reveal_strlit("EXPECT");
    assert("EXPECT"@.len() == 6 && "EXPECT"@[0] == 'E');
    reveal_strlit("INCLUDE");
    assert("INCLUDE"@.len() == 7 && "INCLUDE"@[0] == 'I');
    reveal_strlit("LIB");
    assert("LIB"@.len() == 3 && "LIB"@[0] == 'L');
    reveal_strlit("OBJECT");
    assert("OBJECT"@.len() == 6 && "OBJECT"@[0] == 'O');
    reveal_strlit("PIPELINE");
    assert("PIPELINE"@.len() == 8 && "PIPELINE"@[0] == 'P');
    reveal_strlit("RTPSO");
    assert("RTPSO"@.len() == 5 && "RTPSO"@[0] == 'R');
    reveal_strlit("ROOT");
    assert("ROOT"@.len() == 4 && "ROOT"@[0] == 'R');
    reveal_strlit("ROOT_DXIL");
    assert("ROOT_DXIL"@.len() == 9 && "ROOT_DXIL"@[0] == 'R');
    reveal_strlit("SHADERTABLE");
    assert("SHADERTABLE"@.len() == 11 && "SHADERTABLE"@[0] == 'S');
    reveal_strlit("SHADERID");
    assert("SHADERID"@.len() == 8 && "SHADERID"@[0] == 'S');
    reveal_strlit("SLEEP");
    assert("SLEEP"@.len() == 5 && "SLEEP"@[0] == 'S');
    reveal_strlit("SOURCE");
    assert("SOURCE"@.len() == 6 && "SOURCE"@[0] == 'S');
    reveal_strlit("TLAS");
    assert("TLAS"@.len() == 4 && "TLAS"@[0] == 'T');
    reveal_strlit("VIEW");
    assert("VIEW"@.len() == 4 && "VIEW"@[0] == 'V');
}

/// A SLEEP statement waits exactly as long as its text stands for, and keeps where the text stands.
/// If the text stands for no time, the error tells the text and the statement.
pub proof fn lemma_sleep_time(
    id: IdentifierView,
    text: IdentifierView,
    time: Result<TimeSpan, DurationError>,
)
    ensures
        match (time, sleep_for(id, text, time)) {
            (Ok(t), Ok(DirectiveView::Sleep { identifier, duration })) => identifier == id
                && duration.content == t && duration.span == text.span && duration.source_file
                == text.source_file,
            (Err(e), Err(f)) => f.error matches ParserError::ParseDuration {
                source,
                duration_span,
                identifier,
            } && source == e && duration_span == text.span && identifier == id,
            _ => false,
        },
{
}

/// A SLEEP statement waits as long as the word that is written in it says.
pub proof fn lemma_sleep_form(s: Script, ts: Seq<Token>, i: int, id: IdentifierView)
    requires
        is_written(s, ts),
        0 <= i,
        i + 2 <= ts.len(),
        !ts[i].last,
        ts[i + 1].last,
        forall|k: int|
            0 <= k < ts[i + 1].word.len() ==> is_duration_char(#[trigger] ts[i + 1].word[k]),
    ensures
        sleep_for(id, name_at(s, ts, i + 1), duration(ts[i + 1].word)) matches Ok(d) ==> sleep(
            s,
            end(ts, i),
            id,
        ) == Ok::<(DirectiveView, int), Fail<Seq<char>>>((d, place(ts, i + 2))),
{
    reveal(sleep);
    reveal(duration_text);
    lemma_space(s, ts, i);
    lemma_token(s, ts, i + 1);
    lemma_line_end(s, ts, i + 1);
    let (p, q) = (place(ts, i + 1), end(ts, i + 1));
    assert forall|k: int| p <= k < q implies in_class(
        CharClass::Duration,
        #[trigger] s.text[k],
    ) by {
        assert(s.text.subrange(p, q)[k - p] == s.text[k]);
        assert(is_duration_char(ts[i + 1].word[k - p]));
    }
    crate::grammar::written::lemma_run_exact(s.text, p, q, CharClass::Duration);
}

/// The lines of a source have the numbers that they have in the script: as many lines end before a
/// character of the source as before the same character of the script.
pub proof fn lemma_source_lines(s: Script, p: int) -> (start: int)
    ensures
        source(s, p) matches Ok((d, _)) ==> (d matches DirectiveView::Source { content, .. } && ({
            let n = occurrences(s.text.take(start), '\n');
            &&& n <= content.len()
            &&& until_end_literal(s, start) matches Ok((block, _)) && content.skip(n as int) == block
            &&& forall|k: int|
                0 <= k <= content.len() - n ==> #[trigger] occurrences(
                    content.take(n + k),
                    '\n',
                ) == n + occurrences(content.skip(n as int).take(k), '\n')
        })),
{
    reveal(source);
    match crate::grammar::tokens::space_identifier(s, p) {
        Ok((_, q)) => match single_line_end(s, q) {
            Ok((_, start)) => {
                if let Ok((DirectiveView::Source { content, .. }, _)) = source(s, p) {
                    let n = occurrences(s.text.take(start), '\n');
                    let lines = Seq::new(n, |i: int| '\n');
                    let block = content.skip(n as int);
                    assert(content.take(n as int) =~= lines);
                    if let Ok((found, _)) = until_end_literal(s, start) {
                        assert(block =~= found);
                    }
                    lemma_feeds(n);
                    assert forall|k: int| 0 <= k <= content.len() - n implies #[trigger] occurrences(
                        content.take(n + k),
                        '\n',
                    ) == n + occurrences(block.take(k), '\n') by {
                        assert(content.take(n + k) =~= lines + block.take(k));
                        lemma_occurrences(lines, block.take(k));
                    }
                }
                start
            },
            Err(_) => 0,
        },
        Err(_) => 0,
    }
}

proof fn lemma_feeds(n: nat)
    ensures
        occurrences(Seq::new(n, |i: int| '\n'), '\n') == n,
    decreases n,
{
    if n > 0 {
        let all = Seq::new(n, |i: int| '\n');
        assert(all.drop_last() =~= Seq::new((n - 1) as nat, |i: int| '\n'));
        lemma_feeds((n - 1) as nat);
    }
}

proof fn lemma_occurrences(a: Seq<char>, b: Seq<char>)
    ensures
        occurrences(a + b, '\n') == occurrences(a, '\n') + occurrences(b, '\n'),
    decreases b.len(),
{
    if b.len() > 0 {
        lemma_occurrences(a, b.drop_last());
        assert((a + b).drop_last() =~= a + b.drop_last());
        assert((a + b).last() == b.last());
    } else {
        assert(a + b =~= a);
    }
}

/// Whether statements stand one behind the other: the statement `k` starts at the word
/// `starts[k]`, and the next one where it ends.
pub open spec fn are_statements(
    s: Script,
    ts: Seq<Token>,
    starts: Seq<int>,
    ds: Seq<DirectiveView>,
) -> bool {
    &&& starts.len() == ds.len() + 1
    &&& starts[0] == 0
    &&& starts.last() == ts.len()
    &&& forall|k: int|
        0 <= k < ds.len() ==> 0 <= starts[k] < starts[k + 1] <= ts.len() && statement(
            s,
            place(ts, starts[k]),
        ) == Ok::<(DirectiveView, int), Fail<Seq<char>>>(
            (#[trigger] ds[k], place(ts, starts[k + 1])),
        )
}

proof fn lemma_statements_from(
    s: Script,
    ts: Seq<Token>,
    starts: Seq<int>,
    ds: Seq<DirectiveView>,
    k: int,
)
    requires
        is_written(s, ts),
        are_statements(s, ts, starts, ds),
        0 <= k <= ds.len(),
    ensures
        statements_from(s, place(ts, starts[k]), ds.take(k)) == Ok::<
            (Seq<DirectiveView>, int),
            Fail<Seq<char>>,
        >((ds, place(ts, ts.len() as int))),
    decreases ds.len() - k,
{
    if k < ds.len() {
        assert(statement(s, place(ts, starts[k])) == Ok::<(DirectiveView, int), Fail<Seq<char>>>(
            (ds[k], place(ts, starts[k + 1])),
        ));
        lemma_later(s, ts, starts[k], starts[k + 1]);
        assert(ds.take(k).push(ds[k]) =~= ds.take(k + 1));
        lemma_statements_from(s, ts, starts, ds, k + 1);
    } else {
        assert(ds.take(k) =~= ds);
        lemma_all(s, ts);
        reveal(statement);
        reveal(identifier);
        reveal(word);
    }
}

proof fn lemma_all(s: Script, ts: Seq<Token>)
    requires
        is_written(s, ts),
    ensures
        place(ts, ts.len() as int) == s.text.len(),
{
    reveal(is_written);
    assert(ts.take(ts.len() as int) =~= ts);
}

/// A script is read as its statements, in their order.
pub proof fn lemma_script_form(
    s: Script,
    ts: Seq<Token>,
    starts: Seq<int>,
    ds: Seq<DirectiveView>,
)
    requires
        is_written(s, ts),
        are_statements(s, ts, starts, ds),
        ds.len() > 0,
    ensures
        script(s) == Ok::<Seq<DirectiveView>, crate::parse_error::ParserError<Seq<char>>>(ds),
{
    reveal(statements);
    lemma_all(s, ts);
    let first = ds[0];
    assert(statement(s, place(ts, starts[0])) == Ok::<(DirectiveView, int), Fail<Seq<char>>>(
        (first, place(ts, starts[1])),
    ));
    lemma_token(s, ts, 0);
    assert(place(ts, 0) == 0) by {
        assert(ts.take(0) =~= Seq::<Token>::empty());
    }
    crate::grammar::written::lemma_no_line_end(s, 0);
    assert(ds.take(0) =~= Seq::<DirectiveView>::empty());
    lemma_statements_from(s, ts, starts, ds, 0);
}

} // verus!
