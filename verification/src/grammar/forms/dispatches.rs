//! The forms of dispatches.
use vstd::prelude::*;

use crate::grammar::dispatches::{
    argument_offset, bind, count, count_offset, dim3, dispatch, dispatch_item, dispatch_items,
    dispatch_root_sig, dispatch_view, root_const, run, run_dispatch, run_dispatch_rays,
    run_execute_indirect, signature, space_uint32, DispatchItemsView, DispatchParseType,
};
use crate::grammar::forms::geometry::lemma_later;
use crate::grammar::forms::values::{content_len, content_of, is_content, lemma_content_form, ContentForm};
use crate::grammar::laws::is_word;
use crate::grammar::tokens::set_value;
use crate::grammar::written::{
    end, eol, is_written, lemma_keyword, lemma_line_end, lemma_literal, lemma_name, lemma_no_keyword,
    lemma_no_name, lemma_space, lemma_uint, lemma_word, name_at, place, tok, Token,
};
use crate::parse_error::{Fail, IntType};
use crate::script::{
    Bind, Dim3, DirectiveView, DispatchType, RayTables, RootValConstView, RootValView,
    RootValsView, ViewType,
};
use crate::source::{IdentifierView, Script};
use crate::text::decimal_digits;

verus! {

proof fn lemma_space_uint32(s: Script, ts: Seq<Token>, i: int, n: u32)
    requires
        is_written(s, ts),
        0 < i < ts.len(),
        !ts[i - 1].last,
        ts[i].word == decimal_digits(n as nat),
    ensures
        space_uint32(s, end(ts, i - 1)) == Ok::<(u32, int), Fail<Seq<char>>>((n, end(ts, i))),
{
    reveal(space_uint32);
    lemma_space(s, ts, i - 1);
    lemma_uint(s, ts, i, n as nat, IntType::U32);
}

/// Whether three numbers stand behind the word `i - 1`, at the end of a line.
pub open spec fn are_dimensions(ts: Seq<Token>, i: int, d: Dim3) -> bool {
    &&& 0 < i
    &&& i + 3 <= ts.len()
    &&& !ts[i - 1].last
    &&& ts[i] == tok(decimal_digits(d.x as nat))
    &&& ts[i + 1] == tok(decimal_digits(d.y as nat))
    &&& ts[i + 2] == eol(decimal_digits(d.z as nat))
}

/// Three numbers are the dimensions `x`, `y` and `z`.
pub proof fn lemma_dim3(s: Script, ts: Seq<Token>, i: int, d: Dim3)
    requires
        is_written(s, ts),
        are_dimensions(ts, i, d),
    ensures
        dim3(s, end(ts, i - 1)) == Ok::<(Dim3, int), Fail<Seq<char>>>((d, end(ts, i + 2))),
{
    reveal(dim3);
    lemma_space_uint32(s, ts, i, d.x);
    lemma_space_uint32(s, ts, i + 1, d.y);
    lemma_space_uint32(s, ts, i + 2, d.z);
}

/// A line of a dispatch, with the place in the root signature that it is for.
pub enum DispatchLine {
    Bind { index: u32 },
    Const { index: u32, content: ContentForm },
    View { typ: ViewType, index: u32 },
}

/// The word for the kind of a view.
pub open spec fn view_word(typ: ViewType) -> Seq<char> {
    match typ {
        ViewType::Srv => "SRV"@,
        ViewType::Uav => "UAV"@,
    }
}

/// The words of a line of a dispatch.
pub open spec fn dispatch_line_len(line: DispatchLine) -> int {
    match line {
        DispatchLine::Bind { .. } => 4,
        DispatchLine::Const { content, .. } => 2 + content_len(content),
        DispatchLine::View { .. } => 3,
    }
}

/// Whether a line of a dispatch stands at the word `i`.
pub open spec fn is_dispatch_line(s: Script, ts: Seq<Token>, i: int, line: DispatchLine) -> bool {
    &&& 0 <= i
    &&& i + dispatch_line_len(line) <= ts.len()
    &&& 0 < dispatch_line_len(line)
    &&& match line {
        DispatchLine::Bind { index } => ts[i] == tok("BIND"@) && ts[i + 1] == tok(
            decimal_digits(index as nat),
        ) && ts[i + 2] == tok("TABLE"@) && is_word(ts[i + 3].word) && ts[i + 3].last,
        DispatchLine::Const { index, content } => ts[i] == tok("ROOT_CONST"@) && ts[i + 1] == tok(
            decimal_digits(index as nat),
        ) && is_content(s, ts, i + 2, content),
        DispatchLine::View { typ, index } => ts[i] == tok(view_word(typ)) && ts[i + 1] == tok(
            decimal_digits(index as nat),
        ) && is_word(ts[i + 2].word) && ts[i + 2].last,
    }
}

/// Root values with those of the line at the word `i` behind them.
pub open spec fn with_line(
    s: Script,
    ts: Seq<Token>,
    i: int,
    line: DispatchLine,
    vals: RootValsView,
) -> RootValsView {
    match line {
        DispatchLine::Bind { index } => RootValsView {
            binds: vals.binds.push(Bind { index, view: name_at(s, ts, i + 3) }),
            ..vals
        },
        DispatchLine::Const { index, content } => RootValsView {
            consts: vals.consts.push(
                RootValConstView { index, content: content_of(s, ts, i + 2, content) },
            ),
            ..vals
        },
        DispatchLine::View { typ, index } => RootValsView {
            views: vals.views.push(
                RootValView { index, typ: Some(typ), buffer: name_at(s, ts, i + 2) },
            ),
            ..vals
        },
    }
}

proof fn lemma_dispatch_words()
    ensures
        is_word("BIND"@),
        is_word("ROOT_CONST"@),
        is_word("SRV"@),
        is_word("UAV"@),
        is_word("ROOT_SIG"@),
        is_word("RUN"@),
        "BIND"@.len() == 4,
        "ROOT_CONST"@.len() == 10,
        "SRV"@.len() == 3,
        "UAV"@.len() == 3,
        "ROOT_SIG"@.len() == 8,
        "RUN"@.len() == 3,
        "SRV"@ != "UAV"@,
        "SRV"@ != "RUN"@,
        "RUN"@ != "UAV"@,
{
    reveal_strlit("BIND");
    reveal_strlit("ROOT_CONST");
    reveal_strlit("SRV");
    reveal_strlit("UAV");
    reveal_strlit("ROOT_SIG");
    reveal_strlit("RUN");
    assert("SRV"@[0] == 'S' && "UAV"@[0] == 'U' && "RUN"@[0] == 'R');
}

/// A line of a dispatch gives what is written in it, and keeps what was there before.
#[verifier::spinoff_prover]
pub proof fn lemma_dispatch_line(
    s: Script,
    ts: Seq<Token>,
    i: int,
    line: DispatchLine,
    items: DispatchItemsView,
)
    requires
        is_written(s, ts),
        is_dispatch_line(s, ts, i, line),
    ensures
        dispatch_item(s, place(ts, i), items) == Ok::<(DispatchItemsView, int), Fail<Seq<char>>>(
            (
                DispatchItemsView {
                    root_val: with_line(s, ts, i, line, items.root_val),
                    ..items
                },
                place(ts, i + dispatch_line_len(line)),
            ),
        ),
{
    reveal(dispatch_item);
    lemma_dispatch_words();
    lemma_word(s, ts, i);
    match line {
        DispatchLine::Bind { index } => {
            reveal(bind);
            lemma_space_uint32(s, ts, i + 1, index);
            lemma_keyword(s, ts, i + 2);
            lemma_word(s, ts, i + 3);
            lemma_line_end(s, ts, i + 3);
        },
        DispatchLine::Const { index, content } => {
            reveal(root_const);
            lemma_space_uint32(s, ts, i + 1, index);
            lemma_space(s, ts, i + 1);
            lemma_content_form(s, ts, i + 2, content);
        },
        DispatchLine::View { typ, index } => {
            reveal(dispatch_view);
            lemma_space_uint32(s, ts, i + 1, index);
            lemma_name(s, ts, i + 2);
            lemma_line_end(s, ts, i + 2);
        },
    }
}

/// The words of the first `k` lines.
pub open spec fn dispatch_lines_len(lines: Seq<DispatchLine>, k: int) -> int
    decreases k,
{
    if k <= 0 {
        0
    } else {
        dispatch_lines_len(lines, k - 1) + dispatch_line_len(lines[k - 1])
    }
}

/// The root values of the first `k` lines that stand from the word `i` on.
pub open spec fn lines_vals(
    s: Script,
    ts: Seq<Token>,
    i: int,
    lines: Seq<DispatchLine>,
    k: int,
) -> RootValsView
    decreases k,
{
    if k <= 0 {
        RootValsView { binds: Seq::empty(), consts: Seq::empty(), views: Seq::empty() }
    } else {
        with_line(
            s,
            ts,
            i + dispatch_lines_len(lines, k - 1),
            lines[k - 1],
            lines_vals(s, ts, i, lines, k - 1),
        )
    }
}

/// Whether the lines of a dispatch stand from the word `i` on, up to `RUN`. Maybe a `ROOT_SIG` line
/// is the last of them.
#[verifier::opaque]
pub open spec fn are_dispatch_lines(
    s: Script,
    ts: Seq<Token>,
    i: int,
    lines: Seq<DispatchLine>,
    root_sig: bool,
) -> bool {
    let c = i + dispatch_lines_len(lines, lines.len() as int);
    &&& 0 <= i
    &&& forall|k: int|
        0 <= k < lines.len() ==> is_dispatch_line(
            s,
            ts,
            i + dispatch_lines_len(lines, k),
            #[trigger] lines[k],
        )
    &&& root_sig ==> 0 <= c && c + 2 <= ts.len() && ts[c] == tok("ROOT_SIG"@) && is_word(
        ts[c + 1].word,
    ) && ts[c + 1].last
    &&& 0 <= run_word(i, lines, root_sig) < ts.len()
    &&& ts[run_word(i, lines, root_sig)] == tok("RUN"@)
}

/// The word `RUN` of a dispatch.
pub open spec fn run_word(i: int, lines: Seq<DispatchLine>, root_sig: bool) -> int {
    i + dispatch_lines_len(lines, lines.len() as int) + if root_sig {
        2int
    } else {
        0
    }
}

#[verifier::spinoff_prover]
proof fn lemma_dispatch_root_sig(
    s: Script,
    ts: Seq<Token>,
    c: int,
    root_sig: bool,
    root_val: RootValsView,
)
    requires
        is_written(s, ts),
        0 <= c,
        root_sig ==> c + 2 <= ts.len() && ts[c] == tok("ROOT_SIG"@) && is_word(ts[c + 1].word)
            && ts[c + 1].last,
        (if root_sig {
            c + 2
        } else {
            c
        }) < ts.len(),
        ts[if root_sig {
            c + 2
        } else {
            c
        }] == tok("RUN"@),
    ensures
        dispatch_items(
            s,
            place(ts, c),
            DispatchItemsView { root_val, root_sig: None },
        ) matches Ok((items, q)) && q == place(
            ts,
            if root_sig {
                c + 2
            } else {
                c
            },
        ) && items.root_val == root_val && set_value(items.root_sig) == if root_sig {
            Some(name_at(s, ts, c + 1))
        } else {
            None
        },
{
    reveal(dispatch_item);
    reveal(dispatch_root_sig);
    lemma_dispatch_words();
    let e = if root_sig {
        c + 2
    } else {
        c
    };
    lemma_word(s, ts, e);
    if root_sig {
        lemma_word(s, ts, c);
        lemma_space(s, ts, c);
        lemma_word(s, ts, c + 1);
        lemma_line_end(s, ts, c + 1);
        lemma_later(s, ts, c, e);
        reveal_with_fuel(dispatch_items, 2);
    }
}

#[verifier::spinoff_prover]
proof fn lemma_next_line(
    s: Script,
    ts: Seq<Token>,
    at: int,
    line: DispatchLine,
    items: DispatchItemsView,
)
    requires
        is_written(s, ts),
        is_dispatch_line(s, ts, at, line),
    ensures
        dispatch_items(s, place(ts, at), items) == dispatch_items(
            s,
            place(ts, at + dispatch_line_len(line)),
            DispatchItemsView { root_val: with_line(s, ts, at, line, items.root_val), ..items },
        ),
{
    lemma_dispatch_line(s, ts, at, line, items);
    lemma_later(s, ts, at, at + dispatch_line_len(line));
}

proof fn lemma_line_at(
    s: Script,
    ts: Seq<Token>,
    i: int,
    lines: Seq<DispatchLine>,
    root_sig: bool,
    k: int,
)
    requires
        are_dispatch_lines(s, ts, i, lines, root_sig),
        0 <= k < lines.len(),
    ensures
        is_dispatch_line(s, ts, i + dispatch_lines_len(lines, k), lines[k]),
{
    reveal(are_dispatch_lines);
    assert(is_dispatch_line(s, ts, i + dispatch_lines_len(lines, k), lines[k]));
}

proof fn lemma_lines_end(
    s: Script,
    ts: Seq<Token>,
    i: int,
    lines: Seq<DispatchLine>,
    root_sig: bool,
)
    requires
        are_dispatch_lines(s, ts, i, lines, root_sig),
    ensures
        ({
            let c = i + dispatch_lines_len(lines, lines.len() as int);
            let r = run_word(i, lines, root_sig);
            &&& 0 <= i
            &&& root_sig ==> 0 <= c && c + 2 <= ts.len() && ts[c] == tok("ROOT_SIG"@) && is_word(
                ts[c + 1].word,
            ) && ts[c + 1].last
            &&& 0 <= r < ts.len()
            &&& ts[r] == tok("RUN"@)
        }),
{
    reveal(are_dispatch_lines);
}

proof fn lemma_dispatch_lines(
    s: Script,
    ts: Seq<Token>,
    i: int,
    lines: Seq<DispatchLine>,
    root_sig: bool,
    k: int,
)
    requires
        is_written(s, ts),
        are_dispatch_lines(s, ts, i, lines, root_sig),
        0 <= k <= lines.len(),
    ensures
        dispatch_items(
            s,
            place(ts, i + dispatch_lines_len(lines, k)),
            DispatchItemsView { root_val: lines_vals(s, ts, i, lines, k), root_sig: None },
        ) matches Ok((items, q)) && q == place(ts, run_word(i, lines, root_sig)) && items.root_val
            == lines_vals(s, ts, i, lines, lines.len() as int) && set_value(items.root_sig)
            == if root_sig {
            Some(name_at(s, ts, i + dispatch_lines_len(lines, lines.len() as int) + 1))
        } else {
            None
        },
    decreases lines.len() - k,
{
    let at = i + dispatch_lines_len(lines, k);
    let vals = lines_vals(s, ts, i, lines, k);
    if k < lines.len() {
        lemma_line_at(s, ts, i, lines, root_sig, k);
        lemma_next_line(s, ts, at, lines[k], DispatchItemsView { root_val: vals, root_sig: None });
        lemma_dispatch_lines(s, ts, i, lines, root_sig, k + 1);
    } else {
        lemma_lines_end(s, ts, i, lines, root_sig);
        lemma_dispatch_root_sig(s, ts, at, root_sig, vals);
    }
}

/// Whether a name or a minus sign stands at the word `i`, and which one.
pub open spec fn is_maybe_name(
    s: Script,
    ts: Seq<Token>,
    i: int,
    name: Option<IdentifierView>,
) -> bool {
    &&& 0 <= i < ts.len()
    &&& !ts[i].last
    &&& match name {
        Some(n) => is_word(ts[i].word) && n == name_at(s, ts, i),
        None => ts[i].word == seq!['-'],
    }
}

proof fn lemma_maybe_name(
    s: Script,
    ts: Seq<Token>,
    i: int,
    name: Option<IdentifierView>,
)
    requires
        is_written(s, ts),
        0 < i,
        !ts[i - 1].last,
        is_maybe_name(s, ts, i, name),
    ensures
        crate::grammar::tokens::space_identifier_or_none(s, end(ts, i - 1)) == Ok::<
            (Option<IdentifierView>, int),
            Fail<Seq<char>>,
        >((name, end(ts, i))),
{
    if name is Some {
        lemma_name(s, ts, i);
    } else {
        lemma_no_name(s, ts, i);
    }
}

/// Behind `RUN` at the word `i`, a compute dispatch has its dimensions.
pub proof fn lemma_run_dispatch(s: Script, ts: Seq<Token>, i: int, d: Dim3)
    requires
        is_written(s, ts),
        0 <= i,
        are_dimensions(ts, i + 1, d),
    ensures
        run_dispatch(s, end(ts, i)) == Ok::<(DispatchType<Seq<char>>, int), Fail<Seq<char>>>(
            (DispatchType::Dispatch { dimensions: d }, place(ts, i + 4)),
        ),
{
    reveal(run_dispatch);
    lemma_dim3(s, ts, i + 1, d);
    lemma_line_end(s, ts, i + 3);
}

/// Behind `RUN` at the word `i`, a raytracing dispatch has the tables for ray generation, hit
/// groups, miss and callable shaders, in this order, and its dimensions. A minus sign stands for no
/// table.
pub proof fn lemma_run_rays(
    s: Script,
    ts: Seq<Token>,
    i: int,
    tables: RayTables<IdentifierView>,
    d: Dim3,
)
    requires
        is_written(s, ts),
        0 <= i < ts.len(),
        !ts[i].last,
        is_maybe_name(s, ts, i + 1, tables.raygen),
        is_maybe_name(s, ts, i + 2, tables.hit_group),
        is_maybe_name(s, ts, i + 3, tables.miss),
        is_maybe_name(s, ts, i + 4, tables.callable),
        are_dimensions(ts, i + 5, d),
    ensures
        run_dispatch_rays(s, end(ts, i)) == Ok::<(DispatchType<Seq<char>>, int), Fail<Seq<char>>>(
            (DispatchType::DispatchRays { dimensions: d, tables }, place(ts, i + 8)),
        ),
{
    reveal(run_dispatch_rays);
    lemma_maybe_name(s, ts, i + 1, tables.raygen);
    lemma_maybe_name(s, ts, i + 2, tables.hit_group);
    lemma_maybe_name(s, ts, i + 3, tables.miss);
    lemma_maybe_name(s, ts, i + 4, tables.callable);
    lemma_dim3(s, ts, i + 5, d);
    lemma_line_end(s, ts, i + 7);
}

/// What is written of an indirect dispatch, apart from names.
pub struct IndirectForm {
    pub offset: Option<u64>,
    pub max_commands: u32,
    /// A count buffer, and maybe an offset in it
    pub count: Option<Option<u64>>,
}

/// The words of an indirect dispatch: those of `MAX_COMMANDS`, of `COUNT`, of `COUNT_OFFSET`, and
/// the first one behind all of them.
pub open spec fn indirect_places(i: int, f: IndirectForm) -> (int, int, int, int) {
    let max = if f.offset is Some {
        i + 4
    } else {
        i + 2
    };
    let count = max + 2;
    let count_offset = if f.count is Some {
        count + 2
    } else {
        count
    };
    let last = if f.count matches Some(Some(_)) {
        count_offset + 2
    } else {
        count_offset
    };
    (max, count, count_offset, last)
}

/// Whether an indirect dispatch stands behind `RUN` at the word `i`.
pub open spec fn is_indirect(ts: Seq<Token>, i: int, f: IndirectForm) -> bool {
    let (max, count, count_offset, last) = indirect_places(i, f);
    &&& 0 <= i
    &&& last <= ts.len()
    &&& !ts[i].last
    &&& is_word(ts[i + 1].word)
    &&& f.offset matches Some(n) ==> ts[i + 2] == tok("OFFSET"@) && ts[i + 3].word
        == decimal_digits(n as nat)
    &&& ts[max] == tok("MAX_COMMANDS"@)
    &&& ts[max + 1].word == decimal_digits(f.max_commands as nat)
    &&& f.count is Some ==> ts[count] == tok("COUNT"@) && is_word(ts[count + 1].word)
    &&& f.count matches Some(Some(n)) ==> ts[count_offset] == tok("COUNT_OFFSET"@) && ts[count_offset
        + 1].word == decimal_digits(n as nat)
    &&& forall|k: int| i < k < last ==> (#[trigger] ts[k]).last == (k == last - 1)
}

proof fn lemma_indirect_words()
    ensures
        is_word("OFFSET"@),
        is_word("COUNT"@),
        is_word("COUNT_OFFSET"@),
        "OFFSET"@.len() == 6,
        "MAX_COMMANDS"@.len() == 12,
        "OFFSET"@[0] == 'O',
        "MAX_COMMANDS"@[0] == 'M',
{
    reveal_strlit("OFFSET");
    reveal_strlit("COUNT");
    reveal_strlit("COUNT_OFFSET");
    reveal_strlit("MAX_COMMANDS");
}

#[verifier::spinoff_prover]
proof fn lemma_count(s: Script, ts: Seq<Token>, i: int, f: IndirectForm)
    requires
        is_written(s, ts),
        is_indirect(ts, i, f),
    ensures
        ({
            let (max, at, count_offset, last) = indirect_places(i, f);
            match f.count {
                Some(offset) => count(s, end(ts, at - 1)) == Ok::<
                    ((IdentifierView, Option<u64>), int),
                    Fail<Seq<char>>,
                >(((name_at(s, ts, at + 1), offset), end(ts, last - 1))),
                None => count(s, end(ts, at - 1)) matches Err(e) && !e.cut,
            }
        }),
{
    reveal(count);
    reveal(count_offset);
    lemma_indirect_words();
    let (max, at, count_at, last) = indirect_places(i, f);
    assert(ts[at - 1].last == (at == last));
    match f.count {
        Some(offset) => {
            assert(ts[at].last == false);
            assert(ts[at + 1].last == (at + 2 == last));
            lemma_keyword(s, ts, at);
            lemma_word(s, ts, at + 1);
            match offset {
                Some(n) => {
                    lemma_keyword(s, ts, count_at);
                    lemma_uint(s, ts, count_at + 1, n as nat, IntType::U64);
                },
                None => {
                    lemma_no_keyword(s, ts, at + 2, "COUNT_OFFSET"@);
                },
            }
        },
        None => {
            lemma_no_keyword(s, ts, at, "COUNT"@);
        },
    }
}

/// Behind `RUN` at the word `i`, an indirect dispatch has the argument buffer, the offset in it, the
/// largest number of commands, the count buffer and the offset in that one, as they are written.
#[verifier::spinoff_prover]
pub proof fn lemma_run_indirect(
    s: Script,
    ts: Seq<Token>,
    i: int,
    f: IndirectForm,
    signature: IdentifierView,
)
    requires
        is_written(s, ts),
        is_indirect(ts, i, f),
    ensures
        run_execute_indirect(s, end(ts, i), signature) == Ok::<
            (DispatchType<Seq<char>>, int),
            Fail<Seq<char>>,
        >(
            (
                DispatchType::ExecuteIndirect {
                    signature,
                    argument_buffer: name_at(s, ts, i + 1),
                    argument_offset: f.offset,
                    count_buffer: if f.count is Some {
                        Some(name_at(s, ts, indirect_places(i, f).1 + 1))
                    } else {
                        None
                    },
                    count_offset: match f.count {
                        Some(offset) => offset,
                        None => None,
                    },
                    max_commands: f.max_commands,
                },
                place(ts, indirect_places(i, f).3),
            ),
        ),
{
    reveal(run_execute_indirect);
    reveal(argument_offset);
    lemma_indirect_words();
    let (max, at, count_at, last) = indirect_places(i, f);
    assert(!ts[i + 1].last);
    lemma_name(s, ts, i + 1);
    match f.offset {
        Some(n) => {
            assert(!ts[i + 3].last);
            lemma_keyword(s, ts, i + 2);
            lemma_uint(s, ts, i + 3, n as nat, IntType::U64);
        },
        None => {
            assert(ts[i + 2].word.take(6)[0] == 'M');
            lemma_no_keyword(s, ts, i + 2, "OFFSET"@);
        },
    }
    lemma_keyword(s, ts, max);
    lemma_uint(s, ts, max + 1, f.max_commands as nat, IntType::U32);
    lemma_count(s, ts, i, f);
    assert(ts[last - 1].last);
    lemma_line_end(s, ts, last - 1);
}

/// What is dispatched.
pub enum RunForm {
    Dispatch { dimensions: Dim3 },
    Rays { dimensions: Dim3, tables: RayTables<IdentifierView> },
    Indirect { form: IndirectForm },
}

/// The words of a dispatch before its lines.
pub open spec fn dispatch_head(f: RunForm) -> int {
    if f is Indirect {
        4
    } else {
        2
    }
}

/// Whether a dispatch stands at the word `i`: its pipeline, its lines and what is run.
pub open spec fn is_dispatch(
    s: Script,
    ts: Seq<Token>,
    i: int,
    lines: Seq<DispatchLine>,
    root_sig: bool,
    f: RunForm,
) -> bool {
    let head = dispatch_head(f);
    let r = run_word(i + head, lines, root_sig);
    &&& 0 <= i
    &&& i + head <= ts.len()
    &&& !ts[i].last
    &&& is_word(ts[i + 1].word)
    &&& ts[i + head - 1].last
    &&& f is Indirect ==> !ts[i + 1].last && ts[i + 2] == tok("SIGNATURE"@) && is_word(
        ts[i + 3].word,
    )
    &&& are_dispatch_lines(s, ts, i + head, lines, root_sig)
    &&& match f {
        RunForm::Dispatch { dimensions } => are_dimensions(ts, r + 1, dimensions),
        RunForm::Rays { dimensions, tables } => is_maybe_name(s, ts, r + 1, tables.raygen)
            && is_maybe_name(s, ts, r + 2, tables.hit_group) && is_maybe_name(
            s,
            ts,
            r + 3,
            tables.miss,
        ) && is_maybe_name(s, ts, r + 4, tables.callable) && are_dimensions(
            ts,
            r + 5,
            dimensions,
        ),
        RunForm::Indirect { form } => is_indirect(ts, r, form),
    }
}

/// The statement that a form belongs to.
pub open spec fn parse_type(f: RunForm) -> DispatchParseType {
    match f {
        RunForm::Dispatch { .. } => DispatchParseType::Dispatch,
        RunForm::Rays { .. } => DispatchParseType::DispatchRays,
        RunForm::Indirect { .. } => DispatchParseType::ExecuteIndirect,
    }
}

/// The dispatch whose word `RUN` is the word `r`, of the statement at the word `i`.
pub open spec fn dispatch_of(s: Script, ts: Seq<Token>, i: int, r: int, f: RunForm) -> DispatchType<
    Seq<char>,
> {
    match f {
        RunForm::Dispatch { dimensions } => DispatchType::Dispatch { dimensions },
        RunForm::Rays { dimensions, tables } => DispatchType::DispatchRays { dimensions, tables },
        RunForm::Indirect { form } => DispatchType::ExecuteIndirect {
            signature: name_at(s, ts, i + 3),
            argument_buffer: name_at(s, ts, r + 1),
            argument_offset: form.offset,
            count_buffer: if form.count is Some {
                Some(name_at(s, ts, indirect_places(r, form).1 + 1))
            } else {
                None
            },
            count_offset: match form.count {
                Some(offset) => offset,
                None => None,
            },
            max_commands: form.max_commands,
        },
    }
}

/// The first word behind a dispatch whose word `RUN` is the word `r`.
pub open spec fn dispatch_end(r: int, f: RunForm) -> int {
    match f {
        RunForm::Dispatch { .. } => r + 4,
        RunForm::Rays { .. } => r + 8,
        RunForm::Indirect { form } => indirect_places(r, form).3,
    }
}

/// A dispatch has the pipeline, the root values, the root signature and what is run as they are
/// written.
#[verifier::spinoff_prover]
pub proof fn lemma_dispatch_form(
    s: Script,
    ts: Seq<Token>,
    i: int,
    lines: Seq<DispatchLine>,
    root_sig: bool,
    f: RunForm,
    id: IdentifierView,
)
    requires
        is_written(s, ts),
        is_dispatch(s, ts, i, lines, root_sig, f),
    ensures
        ({
            let at = i + dispatch_head(f);
            let r = run_word(at, lines, root_sig);
            dispatch(s, end(ts, i), id, parse_type(f)) == Ok::<
                (DirectiveView, int),
                Fail<Seq<char>>,
            >(
                (
                    DirectiveView::Dispatch {
                        identifier: id,
                        pipeline: name_at(s, ts, i + 1),
                        root_val: lines_vals(s, ts, at, lines, lines.len() as int),
                        root_sig: if root_sig {
                            Some(
                                name_at(
                                    s,
                                    ts,
                                    at + dispatch_lines_len(lines, lines.len() as int) + 1,
                                ),
                            )
                        } else {
                            None
                        },
                        typ: dispatch_of(s, ts, i, r, f),
                    },
                    place(ts, dispatch_end(r, f)),
                ),
            )
        }),
{
    reveal(dispatch);
    reveal(signature);
    reveal(run);
    let at = i + dispatch_head(f);
    let r = run_word(at, lines, root_sig);
    lemma_name(s, ts, i + 1);
    if f is Indirect {
        lemma_keyword(s, ts, i + 2);
        lemma_word(s, ts, i + 3);
    }
    lemma_line_end(s, ts, at - 1);
    lemma_lines_end(s, ts, at, lines, root_sig);
    lemma_dispatch_lines(s, ts, at, lines, root_sig, 0);
    lemma_literal(s, ts, r);
    match f {
        RunForm::Dispatch { dimensions } => {
            lemma_run_dispatch(s, ts, r, dimensions);
        },
        RunForm::Rays { dimensions, tables } => {
            lemma_run_rays(s, ts, r, tables, dimensions);
        },
        RunForm::Indirect { form } => {
            lemma_run_indirect(s, ts, r, form, name_at(s, ts, i + 3));
        },
    }
}

} // verus!
