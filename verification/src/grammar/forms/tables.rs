//! The forms of shader tables and shader identifiers.
use vstd::prelude::*;

use crate::grammar::forms::geometry::lemma_later;
use crate::grammar::geometry::no_lines;
use crate::grammar::laws::is_word;
use crate::grammar::tables::{
    named_record, no_record_items, record, record_content, record_item, record_items,
    record_shader, record_shader_id, record_statement, records, shaderid, shadertable,
    RecordItemsView,
};
use crate::grammar::tokens::{identifier_line, none, OnceView};
use crate::grammar::written::{
    end, eol, is_plain, is_written, lemma_end, lemma_line_end, lemma_literal, lemma_name,
    lemma_no_literal, lemma_space, lemma_string, lemma_token, lemma_uint, lemma_word, name_at,
    place, tok, Token,
};
use crate::parse_error::{Fail, IntType};
use crate::script::{
    Bind, DirectiveView, RootValView, RootValsView, ShaderReference, ShaderTableRecordView,
};
use crate::source::Script;
use crate::text::decimal_digits;

verus! {

/// The number of root arguments of a record.
pub open spec fn argument_count(vals: RootValsView) -> nat {
    vals.binds.len() + vals.views.len()
}

/// Whether each place in the local root signature is taken by one root argument of a record, up to
/// the number of root arguments.
pub open spec fn indexes_ok(vals: RootValsView) -> bool {
    let n = argument_count(vals);
    &&& forall|i: int| 0 <= i < vals.binds.len() ==> (#[trigger] vals.binds[i]).index < n
    &&& forall|i: int| 0 <= i < vals.views.len() ==> (#[trigger] vals.views[i]).index < n
    &&& forall|i: int, j: int|
        0 <= i < j < vals.binds.len() ==> (#[trigger] vals.binds[i]).index < (
        #[trigger] vals.binds[j]).index
    &&& forall|i: int, j: int|
        0 <= i < j < vals.views.len() ==> (#[trigger] vals.views[i]).index < (
        #[trigger] vals.views[j]).index
    &&& forall|i: int, j: int|
        0 <= i < vals.binds.len() && 0 <= j < vals.views.len() ==> (
        #[trigger] vals.binds[i]).index != (#[trigger] vals.views[j]).index
}

/// What holds while the lines of a record are read, as long as there are not too many.
spec fn items_ok(items: RecordItemsView) -> bool {
    argument_count(items.root_val) <= u32::MAX ==> {
        &&& items.next == argument_count(items.root_val)
        &&& indexes_ok(items.root_val)
    }
}

proof fn lemma_record_item_indexes(s: Script, p: int, items: RecordItemsView)
    requires
        items_ok(items),
    ensures
        record_item(s, p, items) matches Ok((found, _)) ==> items_ok(found),
{
    reveal(record_item);
    if argument_count(items.root_val) < u32::MAX {
        if let Ok((found, _)) = record_item(s, p, items) {
            assert forall|i: int| 0 <= i < found.root_val.binds.len() implies (
            #[trigger] found.root_val.binds[i]).index < argument_count(found.root_val) by {
                if i < items.root_val.binds.len() {
                    assert(found.root_val.binds[i] == items.root_val.binds[i]);
                }
            }
            assert forall|i: int| 0 <= i < found.root_val.views.len() implies (
            #[trigger] found.root_val.views[i]).index < argument_count(found.root_val) by {
                if i < items.root_val.views.len() {
                    assert(found.root_val.views[i] == items.root_val.views[i]);
                }
            }
        }
    }
}

proof fn lemma_record_items_indexes(s: Script, p: int, items: RecordItemsView)
    requires
        items_ok(items),
    ensures
        record_items(s, p, items) matches Ok((found, _)) ==> items_ok(found),
    decreases s.text.len() - p,
{
    lemma_record_item_indexes(s, p, items);
    if let Ok((found, q)) = record_item(s, p, items) {
        if p < q && q <= s.text.len() {
            lemma_record_items_indexes(s, q, found);
        }
    }
}

/// In every record that can be read, the root arguments take the places of the local root signature
/// from the first one on, each of them one place.
pub proof fn lemma_record_indexes(s: Script, p: int)
    ensures
        record(s, p) matches Ok((r, _)) ==> argument_count(r.root_val) <= u32::MAX ==> indexes_ok(
            r.root_val,
        ),
{
    reveal(record);
    reveal(named_record);
    reveal(record_content);
    assert forall|q: int, shader: OnceView<ShaderReference<Seq<char>>>| true implies (
    #[trigger] record_items(s, q, no_record_items(shader)) matches Ok((found, _)) ==> items_ok(
        found,
    )) by {
        lemma_record_items_indexes(s, q, no_record_items(shader));
    }
}

/// A line of a record.
pub enum RecordLine {
    Table,
    Gpuva,
}

/// The word that a line starts with.
pub open spec fn line_word(line: RecordLine) -> Seq<char> {
    match line {
        RecordLine::Table => "TABLE"@,
        RecordLine::Gpuva => "GPUVA"@,
    }
}

/// Whether lines with root arguments stand from the word `i` on, up to `END`. Maybe a `SHADERID`
/// line stands before it.
pub open spec fn are_record_lines(
    ts: Seq<Token>,
    i: int,
    lines: Seq<RecordLine>,
    shader_id: bool,
) -> bool {
    let c = i + 2 * lines.len();
    &&& 0 < i
    &&& ts[i - 1].last
    &&& forall|k: int|
        0 <= k < lines.len() ==> i + 2 * k + 2 <= ts.len() && ts[i + 2 * k] == tok(
            line_word(#[trigger] lines[k]),
        ) && is_word(ts[i + 2 * k + 1].word) && ts[i + 2 * k + 1].last
    &&& shader_id ==> c + 2 <= ts.len() && ts[c] == tok("SHADERID"@) && is_word(ts[c + 1].word)
        && ts[c + 1].last
    &&& record_end(i, lines, shader_id) < ts.len()
    &&& ts[record_end(i, lines, shader_id)] == eol("END"@)
}

/// The word that ends a record.
pub open spec fn record_end(i: int, lines: Seq<RecordLine>, shader_id: bool) -> int {
    i + 2 * lines.len() + if shader_id {
        2int
    } else {
        0
    }
}

/// The root arguments of the first `k` lines: each has the place of its line.
pub open spec fn record_vals(
    s: Script,
    ts: Seq<Token>,
    i: int,
    lines: Seq<RecordLine>,
    k: int,
) -> RootValsView
    decreases k,
{
    if k <= 0 {
        RootValsView { binds: Seq::empty(), consts: Seq::empty(), views: Seq::empty() }
    } else {
        let before = record_vals(s, ts, i, lines, k - 1);
        let name = name_at(s, ts, i + 2 * (k - 1) + 1);
        match lines[k - 1] {
            RecordLine::Table => RootValsView {
                binds: before.binds.push(Bind { index: (k - 1) as u32, view: name }),
                ..before
            },
            RecordLine::Gpuva => RootValsView {
                views: before.views.push(
                    RootValView { index: (k - 1) as u32, typ: None, buffer: name },
                ),
                ..before
            },
        }
    }
}

#[verifier::spinoff_prover]
proof fn lemma_record_line(
    s: Script,
    ts: Seq<Token>,
    i: int,
    lines: Seq<RecordLine>,
    shader_id: bool,
    shader: OnceView<ShaderReference<Seq<char>>>,
    k: int,
)
    requires
        is_written(s, ts),
        are_record_lines(ts, i, lines, shader_id),
        0 <= k < lines.len() <= u32::MAX,
    ensures
        record_items(
            s,
            place(ts, i + 2 * k),
            RecordItemsView { shader, root_val: record_vals(s, ts, i, lines, k), next: k as u32 },
        ) == record_items(
            s,
            place(ts, i + 2 * k + 2),
            RecordItemsView {
                shader,
                root_val: record_vals(s, ts, i, lines, k + 1),
                next: (k + 1) as u32,
            },
        ),
{
    let at = i + 2 * k;
    assert(ts[at] == tok(line_word(lines[k])));
    reveal(record_item);
    reveal(identifier_line);
    reveal_strlit("TABLE");
    reveal_strlit("GPUVA");
    reveal_strlit("SHADERID");
    assert("TABLE"@[0] == 'T' && "GPUVA"@[0] == 'G');
    lemma_word(s, ts, at);
    lemma_name(s, ts, at + 1);
    lemma_line_end(s, ts, at + 1);
    lemma_later(s, ts, at, at + 2);
}

proof fn lemma_record_lines(
    s: Script,
    ts: Seq<Token>,
    i: int,
    lines: Seq<RecordLine>,
    shader_id: bool,
    shader: OnceView<ShaderReference<Seq<char>>>,
    k: int,
)
    requires
        is_written(s, ts),
        are_record_lines(ts, i, lines, shader_id),
        0 <= k <= lines.len() <= u32::MAX,
        shader_id ==> shader is None,
    ensures
        record_items(
            s,
            place(ts, i + 2 * k),
            RecordItemsView { shader, root_val: record_vals(s, ts, i, lines, k), next: k as u32 },
        ) matches Ok((items, q)) && q == place(ts, record_end(i, lines, shader_id))
            && items.root_val == record_vals(s, ts, i, lines, lines.len() as int)
            && record_shader(items.shader) == if shader_id {
            ShaderReference::ShaderId(name_at(s, ts, i + 2 * lines.len() + 1))
        } else {
            record_shader(shader)
        },
    decreases lines.len() - k,
{
    if k < lines.len() {
        lemma_record_line(s, ts, i, lines, shader_id, shader, k);
        lemma_record_lines(s, ts, i, lines, shader_id, shader, k + 1);
    } else {
        let c = i + 2 * lines.len();
        let e = record_end(i, lines, shader_id);
        reveal(record_item);
        reveal(record_shader_id);
        reveal_strlit("TABLE");
        reveal_strlit("GPUVA");
        reveal_strlit("SHADERID");
        reveal_strlit("END");
        lemma_end(s, ts, e);
        if shader_id {
            lemma_word(s, ts, c);
            lemma_space(s, ts, c);
            lemma_word(s, ts, c + 1);
            lemma_line_end(s, ts, c + 1);
            lemma_later(s, ts, c, e);
            reveal_with_fuel(record_items, 2);
        }
    }
}

/// What is written in a record: its index, its shader and its lines.
pub struct RecordForm {
    pub index: u32,
    /// Whether the name of a shader is written behind the index
    pub named: bool,
    /// Whether there is a `SHADERID` line
    pub shader_id: bool,
    /// A minus sign stands for no lines
    pub lines: Option<Seq<RecordLine>>,
}

/// The first word of the lines of a record.
pub open spec fn lines_start(i: int, f: RecordForm) -> int {
    if f.named {
        i + 3
    } else {
        i + 2
    }
}

/// Whether a record stands at the word `i`.
pub open spec fn is_record(ts: Seq<Token>, i: int, f: RecordForm) -> bool {
    &&& 0 <= i
    &&& i + 3 <= ts.len()
    &&& ts[i] == tok("RECORD"@)
    &&& ts[i + 1].word == decimal_digits(f.index as nat)
    &&& f.named ==> !ts[i + 1].last && is_plain(ts[i + 2].word) && !f.shader_id
    &&& match f.lines {
        Some(lines) => are_record_lines(ts, lines_start(i, f), lines, f.shader_id) && lines.len()
            <= u32::MAX,
        None => f.named && i + 4 <= ts.len() && !ts[i + 2].last && ts[i + 3] == eol(seq!['-']),
    }
}

/// The words of a record.
pub open spec fn record_len(f: RecordForm) -> int {
    match f.lines {
        Some(lines) => record_end(lines_start(0, f), lines, f.shader_id) + 1,
        None => 4,
    }
}

/// The record that stands at the word `i`.
pub open spec fn record_of(s: Script, ts: Seq<Token>, i: int, f: RecordForm) -> ShaderTableRecordView {
    ShaderTableRecordView {
        index: f.index,
        shader: if f.named {
            ShaderReference::Name(name_at(s, ts, i + 2))
        } else if f.shader_id {
            match f.lines {
                Some(lines) => ShaderReference::ShaderId(
                    name_at(s, ts, lines_start(i, f) + 2 * lines.len() + 1),
                ),
                None => ShaderReference::Null,
            }
        } else {
            ShaderReference::Null
        },
        root_val: match f.lines {
            Some(lines) => record_vals(s, ts, lines_start(i, f), lines, lines.len() as int),
            None => record_vals(s, ts, 0, Seq::empty(), 0),
        },
    }
}

/// A record has the index, the shader and the root arguments that are written in it.
#[verifier::spinoff_prover]
pub proof fn lemma_record(s: Script, ts: Seq<Token>, i: int, f: RecordForm)
    requires
        is_written(s, ts),
        is_record(ts, i, f),
    ensures
        record_statement(s, place(ts, i)) == Ok::<(ShaderTableRecordView, int), Fail<Seq<char>>>(
            (record_of(s, ts, i, f), place(ts, i + record_len(f))),
        ),
        i < i + record_len(f) <= ts.len(),
{
    reveal(record_statement);
    reveal(record);
    reveal(named_record);
    reveal(record_content);
    reveal(no_lines);
    reveal(none);
    lemma_literal(s, ts, i);
    lemma_space(s, ts, i);
    lemma_uint(s, ts, i + 1, f.index as nat, IntType::U32);
    let at = lines_start(i, f);
    if f.named {
        lemma_space(s, ts, i + 1);
        lemma_string(s, ts, i + 2);
        let shader = Some((ShaderReference::Name(name_at(s, ts, i + 2)), name_at(s, ts, i + 2)));
        match f.lines {
            Some(lines) => {
                lemma_line_end(s, ts, i + 2);
                lemma_record_lines(s, ts, at, lines, false, shader, 0);
                lemma_end(s, ts, record_end(at, lines, false));
            },
            None => {
                lemma_space(s, ts, i + 2);
                lemma_token(s, ts, i + 3);
                lemma_line_end(s, ts, i + 3);
            },
        }
    } else {
        let lines = f.lines->0;
        lemma_line_end(s, ts, i + 1);
        lemma_record_lines(s, ts, at, lines, f.shader_id, None, 0);
        lemma_end(s, ts, record_end(at, lines, f.shader_id));
    }
}

/// The words of the first `k` records.
pub open spec fn records_len(fs: Seq<RecordForm>, k: int) -> int
    decreases k,
{
    if k <= 0 {
        0
    } else {
        records_len(fs, k - 1) + record_len(fs[k - 1])
    }
}

/// Whether a SHADERTABLE statement stands at the word `i`.
pub open spec fn is_shadertable(ts: Seq<Token>, i: int, fs: Seq<RecordForm>) -> bool {
    let e = i + 3 + records_len(fs, fs.len() as int);
    &&& 0 <= i
    &&& i + 3 <= ts.len()
    &&& ts[i] == tok("SHADERTABLE"@)
    &&& is_word(ts[i + 1].word) && !ts[i + 1].last
    &&& is_word(ts[i + 2].word) && ts[i + 2].last
    &&& forall|k: int|
        0 <= k < fs.len() ==> is_record(ts, i + 3 + records_len(fs, k), #[trigger] fs[k])
    &&& 0 <= e < ts.len()
    &&& ts[e] == eol("END"@)
}

/// The first `n` records of a SHADERTABLE statement that stands at the word `i`.
pub open spec fn records_of(s: Script, ts: Seq<Token>, i: int, fs: Seq<RecordForm>, n: int) -> Seq<
    ShaderTableRecordView,
> {
    Seq::new(n as nat, |k: int| record_of(s, ts, i + 3 + records_len(fs, k), fs[k]))
}

proof fn lemma_records(s: Script, ts: Seq<Token>, i: int, fs: Seq<RecordForm>, k: int)
    requires
        is_written(s, ts),
        is_shadertable(ts, i, fs),
        0 <= k <= fs.len(),
    ensures
        records(s, place(ts, i + 3 + records_len(fs, k)), records_of(s, ts, i, fs, k)) == Ok::<
            (Seq<ShaderTableRecordView>, int),
            Fail<Seq<char>>,
        >(
            (
                records_of(s, ts, i, fs, fs.len() as int),
                place(ts, i + 3 + records_len(fs, fs.len() as int)),
            ),
        ),
    decreases fs.len() - k,
{
    let at = i + 3 + records_len(fs, k);
    if k < fs.len() {
        assert(is_record(ts, at, fs[k]));
        lemma_record(s, ts, at, fs[k]);
        lemma_later(s, ts, at, at + record_len(fs[k]));
        assert(records_of(s, ts, i, fs, k).push(record_of(s, ts, at, fs[k])) =~= records_of(
            s,
            ts,
            i,
            fs,
            k + 1,
        ));
        lemma_records(s, ts, i, fs, k + 1);
    } else {
        reveal(record_statement);
        reveal_strlit("RECORD");
        reveal_strlit("END");
        lemma_no_literal(s, ts, at, "RECORD"@);
    }
}

/// A SHADERTABLE statement has the name, the state object and the records that are written in it.
pub proof fn lemma_shadertable_form(s: Script, ts: Seq<Token>, i: int, fs: Seq<RecordForm>)
    requires
        is_written(s, ts),
        is_shadertable(ts, i, fs),
    ensures
        shadertable(s, end(ts, i)) == Ok::<(DirectiveView, int), Fail<Seq<char>>>(
            (
                DirectiveView::ShaderTable {
                    name: name_at(s, ts, i + 1),
                    pipeline_state_object: name_at(s, ts, i + 2),
                    records: records_of(s, ts, i, fs, fs.len() as int),
                },
                place(ts, i + 3 + records_len(fs, fs.len() as int) + 1),
            ),
        ),
{
    reveal(shadertable);
    lemma_name(s, ts, i + 1);
    lemma_name(s, ts, i + 2);
    lemma_line_end(s, ts, i + 2);
    assert(records_of(s, ts, i, fs, 0) =~= Seq::<ShaderTableRecordView>::empty());
    lemma_records(s, ts, i, fs, 0);
    lemma_end(s, ts, i + 3 + records_len(fs, fs.len() as int));
}

/// A SHADERID statement has the name, the state object and the shader that are written in it.
pub proof fn lemma_shaderid_form(s: Script, ts: Seq<Token>, i: int)
    requires
        is_written(s, ts),
        0 <= i,
        i + 4 <= ts.len(),
        ts[i] == tok("SHADERID"@),
        is_word(ts[i + 1].word) && !ts[i + 1].last,
        is_word(ts[i + 2].word) && !ts[i + 2].last,
        is_plain(ts[i + 3].word) && ts[i + 3].last,
    ensures
        shaderid(s, end(ts, i)) == Ok::<(DirectiveView, int), Fail<Seq<char>>>(
            (
                DirectiveView::ShaderId {
                    name: name_at(s, ts, i + 1),
                    pipeline_state_object: name_at(s, ts, i + 2),
                    shader_name: name_at(s, ts, i + 3),
                },
                place(ts, i + 4),
            ),
        ),
{
    reveal(shaderid);
    lemma_name(s, ts, i + 1);
    lemma_name(s, ts, i + 2);
    lemma_space(s, ts, i + 2);
    lemma_string(s, ts, i + 3);
    lemma_line_end(s, ts, i + 3);
}

} // verus!
