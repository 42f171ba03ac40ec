//! The forms of root signatures, pipelines, views and command signatures.
use vstd::prelude::*;

use crate::flags::FlagKind;
use crate::grammar::bindings::{
    argument, argument_const, argument_view, arguments, command_signature, pipeline, pipeline_item,
    pipeline_items, pipeline_type, raw_view, root_sig, root_sig_const, root_sig_dxil,
    root_sig_item, root_sig_items, root_sig_table, root_sig_view, rtas_view, signature_root_sig,
    stride, structured_view, typed_view, view, view_description, PipelineItemsView,
    RootSigItemsView,
};
use crate::grammar::forms::dispatches::view_word;
use crate::grammar::forms::geometry::{config_end, is_config, lemma_later};
use crate::grammar::forms::values::lemma_data_type;
use crate::grammar::laws::is_word;
use crate::grammar::tokens::{identifier_line, set_bits, view_type};
use crate::grammar::written::{
    bits_of, end, eol, is_written, lemma_end, lemma_flags, lemma_keyword, lemma_line_end,
    lemma_literal, lemma_name, lemma_no_keyword, lemma_no_literal, lemma_space, lemma_uint,
    lemma_word, name_at, place, tok, Token,
};
use crate::parse_error::{Fail, IntType};
use crate::report::data_type_text;
use crate::script::{
    CommandSignatureArgument, DirectiveView, InputViewType, PipelineType, RootSigEntry, ViewType,
};
use crate::source::{IdentifierView, Script};
use crate::text::decimal_digits;

verus! {

/// The word for the kind of a view is read as that kind.
pub proof fn lemma_view_type(s: Script, ts: Seq<Token>, i: int, typ: ViewType)
    requires
        is_written(s, ts),
        0 <= i < ts.len(),
        ts[i].word == view_word(typ),
    ensures
        view_type(s, place(ts, i)) == Ok::<(ViewType, int), Fail<Seq<char>>>((typ, end(ts, i))),
        is_word(ts[i].word),
        ts[i].word.len() == 3,
        ts[i].word[0] == 'S' || ts[i].word[0] == 'U',
        ts[i].word[1] == 'R' || ts[i].word[1] == 'A',
{
    reveal(view_type);
    reveal_strlit("SRV");
    reveal_strlit("UAV");
    assert("SRV"@[0] == 'S' && "UAV"@[0] == 'U');
    lemma_word(s, ts, i);
}

/// The words of an entry of a root signature.
pub open spec fn entry_words(e: RootSigEntry) -> Seq<Token> {
    match e {
        RootSigEntry::Table(t) => seq![
            tok("TABLE"@),
            tok(view_word(t.typ)),
            tok("REGISTER"@),
            tok(decimal_digits(t.register as nat)),
            tok("NUMBER"@),
            tok(decimal_digits(t.number as nat)),
            tok("SPACE"@),
            eol(decimal_digits(t.space as nat)),
        ],
        RootSigEntry::View(v) => seq![
            tok(view_word(v.typ)),
            tok("REGISTER"@),
            tok(decimal_digits(v.register as nat)),
            tok("SPACE"@),
            eol(decimal_digits(v.space as nat)),
        ],
        RootSigEntry::Const(c) => seq![
            tok("ROOT_CONST"@),
            tok("NUMBER"@),
            tok(decimal_digits(c.number as nat)),
            tok("REGISTER"@),
            tok(decimal_digits(c.register as nat)),
            tok("SPACE"@),
            eol(decimal_digits(c.space as nat)),
        ],
    }
}

/// Whether words stand from the word `i` on.
pub open spec fn stand_at(ts: Seq<Token>, i: int, words: Seq<Token>) -> bool {
    &&& 0 <= i
    &&& i + words.len() <= ts.len()
    &&& forall|k: int| 0 <= k < words.len() ==> ts[i + k] == #[trigger] words[k]
}

proof fn lemma_root_words()
    ensures
        is_word("TABLE"@),
        is_word("SRV"@),
        is_word("UAV"@),
        is_word("ROOT_CONST"@),
        is_word("CONFIG"@),
        "TABLE"@.len() == 5,
        "SRV"@.len() == 3,
        "UAV"@.len() == 3,
        "ROOT_CONST"@.len() == 10,
        "CONFIG"@.len() == 6,
        "END"@.len() == 3,
        "SRV"@ != "UAV"@,
        "END"@ != "SRV"@,
        "END"@ != "UAV"@,
{
    reveal_strlit("TABLE");
    reveal_strlit("SRV");
    reveal_strlit("UAV");
    reveal_strlit("ROOT_CONST");
    reveal_strlit("CONFIG");
    reveal_strlit("END");
    assert("SRV"@[0] == 'S' && "UAV"@[0] == 'U' && "END"@[0] == 'E');
}

/// An entry of a root signature has the kind, the register, the number and the space that are
/// written in it, and keeps the entries before it.
#[verifier::spinoff_prover]
#[verifier::rlimit(40)]
pub proof fn lemma_root_entry(
    s: Script,
    ts: Seq<Token>,
    i: int,
    e: RootSigEntry,
    items: RootSigItemsView,
)
    requires
        is_written(s, ts),
        stand_at(ts, i, entry_words(e)),
    ensures
        root_sig_item(s, place(ts, i), items) == Ok::<(RootSigItemsView, int), Fail<Seq<char>>>(
            (
                RootSigItemsView { entries: items.entries.push(e), ..items },
                place(ts, i + entry_words(e).len()),
            ),
        ),
{
    reveal(root_sig_item);
    lemma_root_words();
    let words = entry_words(e);
    assert(ts[i] == words[0]);
    assert(ts[i + 1] == words[1]);
    assert(ts[i + 2] == words[2]);
    assert(ts[i + 3] == words[3]);
    assert(ts[i + 4] == words[4]);
    lemma_word(s, ts, i);
    match e {
        RootSigEntry::Table(t) => {
            assert(ts[i + 5] == words[5]);
            assert(ts[i + 6] == words[6]);
            assert(ts[i + 7] == words[7]);
            reveal(root_sig_table);
            lemma_space(s, ts, i);
            lemma_view_type(s, ts, i + 1, t.typ);
            lemma_keyword(s, ts, i + 2);
            lemma_uint(s, ts, i + 3, t.register as nat, IntType::U32);
            lemma_keyword(s, ts, i + 4);
            lemma_uint(s, ts, i + 5, t.number as nat, IntType::U32);
            lemma_keyword(s, ts, i + 6);
            lemma_uint(s, ts, i + 7, t.space as nat, IntType::U32);
            lemma_line_end(s, ts, i + 7);
        },
        RootSigEntry::View(v) => {
            reveal(root_sig_view);
            lemma_keyword(s, ts, i + 1);
            lemma_uint(s, ts, i + 2, v.register as nat, IntType::U32);
            lemma_keyword(s, ts, i + 3);
            lemma_uint(s, ts, i + 4, v.space as nat, IntType::U32);
            lemma_line_end(s, ts, i + 4);
        },
        RootSigEntry::Const(c) => {
            assert(ts[i + 5] == words[5]);
            assert(ts[i + 6] == words[6]);
            reveal(root_sig_const);
            lemma_keyword(s, ts, i + 1);
            lemma_uint(s, ts, i + 2, c.number as nat, IntType::U32);
            lemma_keyword(s, ts, i + 3);
            lemma_uint(s, ts, i + 4, c.register as nat, IntType::U32);
            lemma_keyword(s, ts, i + 5);
            lemma_uint(s, ts, i + 6, c.space as nat, IntType::U32);
            lemma_line_end(s, ts, i + 6);
        },
    }
}

/// The words of the first `k` entries of a root signature.
pub open spec fn entries_words(es: Seq<RootSigEntry>, k: int) -> Seq<Token>
    decreases k,
{
    if k <= 0 {
        Seq::empty()
    } else {
        entries_words(es, k - 1) + entry_words(es[k - 1])
    }
}

proof fn lemma_entry_at(ts: Seq<Token>, i: int, es: Seq<RootSigEntry>, n: int, k: int)
    requires
        stand_at(ts, i, entries_words(es, n)),
        0 <= k < n,
    ensures
        stand_at(ts, i + entries_words(es, k).len(), entry_words(es[k])),
        entries_words(es, k + 1).len() == entries_words(es, k).len() + entry_words(es[k]).len(),
    decreases n - k,
{
    let all = entries_words(es, n);
    let before = entries_words(es, n - 1);
    let last = entry_words(es[n - 1]);
    if k == n - 1 {
        assert forall|j: int| 0 <= j < last.len() implies ts[i + before.len() + j]
            == #[trigger] last[j] by {
            assert(all[before.len() + j] == last[j]);
        }
    } else {
        assert forall|j: int| 0 <= j < before.len() implies ts[i + j] == #[trigger] before[j] by {
            assert(all[j] == before[j]);
        }
        lemma_entry_at(ts, i, es, n - 1, k);
    }
}

#[verifier::spinoff_prover]
proof fn lemma_root_config(
    s: Script,
    ts: Seq<Token>,
    i: int,
    words: Seq<Seq<char>>,
    entries: Seq<RootSigEntry>,
)
    requires
        is_written(s, ts),
        0 <= i,
        is_config(ts, i, FlagKind::RootSig, words),
        config_end(i, words) < ts.len(),
        ts[config_end(i, words)] == eol("END"@),
    ensures
        root_sig_items(
            s,
            place(ts, i),
            RootSigItemsView { entries, config: None },
        ) matches Ok((items, q)) && q == place(ts, config_end(i, words)) && items.entries
            == entries && set_bits(items.config) == bits_of(FlagKind::RootSig, words),
{
    reveal(root_sig_item);
    lemma_root_words();
    lemma_end(s, ts, config_end(i, words));
    if words.len() > 0 {
        lemma_word(s, ts, i);
        lemma_flags(s, ts, i + 1, FlagKind::RootSig, words);
        lemma_later(s, ts, i, config_end(i, words));
        reveal_with_fuel(root_sig_items, 2);
    }
}

#[verifier::spinoff_prover]
proof fn lemma_root_entries(
    s: Script,
    ts: Seq<Token>,
    i: int,
    es: Seq<RootSigEntry>,
    k: int,
)
    requires
        is_written(s, ts),
        stand_at(ts, i, entries_words(es, es.len() as int)),
        0 <= k <= es.len(),
    ensures
        root_sig_items(
            s,
            place(ts, i + entries_words(es, k).len()),
            RootSigItemsView { entries: es.take(k), config: None },
        ) == root_sig_items(
            s,
            place(ts, i + entries_words(es, es.len() as int).len()),
            RootSigItemsView { entries: es, config: None },
        ),
    decreases es.len() - k,
{
    if k < es.len() {
        lemma_entry_at(ts, i, es, es.len() as int, k);
        let at = i + entries_words(es, k).len();
        let now = RootSigItemsView { entries: es.take(k), config: None };
        lemma_root_entry(s, ts, at, es[k], now);
        lemma_later(s, ts, at, at + entry_words(es[k]).len());
        assert(es.take(k).push(es[k]) =~= es.take(k + 1));
        lemma_root_entries(s, ts, i, es, k + 1);
    } else {
        assert(es.take(k) =~= es);
    }
}

/// A ROOT statement has the name, the entries in their order and the flags that are written in it.
pub proof fn lemma_root_form(
    s: Script,
    ts: Seq<Token>,
    i: int,
    es: Seq<RootSigEntry>,
    words: Seq<Seq<char>>,
)
    requires
        is_written(s, ts),
        0 <= i,
        i + 2 <= ts.len(),
        ts[i] == tok("ROOT"@),
        is_word(ts[i + 1].word) && ts[i + 1].last,
        stand_at(ts, i + 2, entries_words(es, es.len() as int)),
        is_config(
            ts,
            i + 2 + entries_words(es, es.len() as int).len(),
            FlagKind::RootSig,
            words,
        ),
        config_end(i + 2 + entries_words(es, es.len() as int).len(), words) < ts.len(),
        ts[config_end(i + 2 + entries_words(es, es.len() as int).len(), words)] == eol("END"@),
    ensures
        root_sig(s, end(ts, i)) == Ok::<(DirectiveView, int), Fail<Seq<char>>>(
            (
                DirectiveView::RootSig {
                    name: name_at(s, ts, i + 1),
                    entries: es,
                    config: bits_of(FlagKind::RootSig, words),
                },
                place(
                    ts,
                    config_end(i + 2 + entries_words(es, es.len() as int).len(), words) + 1,
                ),
            ),
        ),
{
    reveal(root_sig);
    let c = i + 2 + entries_words(es, es.len() as int).len();
    lemma_name(s, ts, i + 1);
    lemma_line_end(s, ts, i + 1);
    assert(es.take(0) =~= Seq::<RootSigEntry>::empty());
    lemma_root_entries(s, ts, i + 2, es, 0);
    lemma_root_config(s, ts, c, words, es);
    lemma_end(s, ts, config_end(c, words));
}

/// A ROOT_DXIL statement has the name and the object that are written in it.
pub proof fn lemma_root_dxil_form(s: Script, ts: Seq<Token>, i: int)
    requires
        is_written(s, ts),
        0 <= i,
        i + 3 <= ts.len(),
        ts[i] == tok("ROOT_DXIL"@),
        is_word(ts[i + 1].word) && !ts[i + 1].last,
        is_word(ts[i + 2].word) && ts[i + 2].last,
    ensures
        root_sig_dxil(s, end(ts, i)) == Ok::<(DirectiveView, int), Fail<Seq<char>>>(
            (
                DirectiveView::RootSigDxil {
                    name: name_at(s, ts, i + 1),
                    object: name_at(s, ts, i + 2),
                },
                place(ts, i + 3),
            ),
        ),
{
    reveal(root_sig_dxil);
    lemma_name(s, ts, i + 1);
    lemma_name(s, ts, i + 2);
    lemma_line_end(s, ts, i + 2);
}

/// Whether `n` lines with `ATTACH` stand from the word `i` on, maybe a `ROOT` line behind them, and
/// `END`.
pub open spec fn are_pipeline_lines(ts: Seq<Token>, i: int, n: int, root: bool) -> bool {
    let c = i + 2 * n;
    &&& 0 <= i
    &&& 0 <= n
    &&& c + (if root {
        2int
    } else {
        0
    }) < ts.len()
    &&& forall|k: int|
        0 <= k < n ==> #[trigger] ts[i + 2 * k] == tok("ATTACH"@) && is_word(ts[i + 2 * k + 1].word)
            && ts[i + 2 * k + 1].last
    &&& root ==> ts[c] == tok("ROOT"@) && is_word(ts[c + 1].word) && ts[c + 1].last
    &&& ts[if root {
        c + 2
    } else {
        c
    }] == eol("END"@)
}

/// The shaders of the first `n` lines with `ATTACH`.
pub open spec fn attached(s: Script, ts: Seq<Token>, i: int, n: int) -> Seq<IdentifierView> {
    Seq::new(n as nat, |k: int| name_at(s, ts, i + 2 * k + 1))
}

#[verifier::spinoff_prover]
proof fn lemma_attach(s: Script, ts: Seq<Token>, i: int, n: int, root: bool, k: int)
    requires
        is_written(s, ts),
        are_pipeline_lines(ts, i, n, root),
        0 <= k <= n,
    ensures
        pipeline_items(
            s,
            place(ts, i + 2 * k),
            PipelineItemsView { shaders: attached(s, ts, i, k), root_sig: None },
        ) == pipeline_items(
            s,
            place(ts, i + 2 * n),
            PipelineItemsView { shaders: attached(s, ts, i, n), root_sig: None },
        ),
    decreases n - k,
{
    if k < n {
        let at = i + 2 * k;
        reveal(pipeline_item);
        reveal(identifier_line);
        reveal_strlit("ATTACH");
        reveal_strlit("ROOT");
        assert(ts[at] == tok("ATTACH"@));
        lemma_word(s, ts, at);
        lemma_name(s, ts, at + 1);
        lemma_line_end(s, ts, at + 1);
        lemma_later(s, ts, at, at + 2);
        assert(attached(s, ts, i, k).push(name_at(s, ts, at + 1)) =~= attached(s, ts, i, k + 1));
        lemma_attach(s, ts, i, n, root, k + 1);
    }
}

/// A PIPELINE statement has the name, the shaders in their order and the root signature that are
/// written in it.
#[verifier::spinoff_prover]
pub proof fn lemma_pipeline_form(s: Script, ts: Seq<Token>, i: int, n: int, root: bool)
    requires
        is_written(s, ts),
        0 <= i,
        i + 3 <= ts.len(),
        ts[i] == tok("PIPELINE"@),
        is_word(ts[i + 1].word) && !ts[i + 1].last,
        ts[i + 2] == eol("COMPUTE"@),
        are_pipeline_lines(ts, i + 3, n, root),
    ensures
        pipeline(s, end(ts, i)) == Ok::<(DirectiveView, int), Fail<Seq<char>>>(
            (
                DirectiveView::Pipeline {
                    name: name_at(s, ts, i + 1),
                    typ: PipelineType::Compute,
                    shaders: attached(s, ts, i + 3, n),
                    root_sig: if root {
                        Some(name_at(s, ts, i + 3 + 2 * n + 1))
                    } else {
                        None
                    },
                },
                place(
                    ts,
                    i + 3 + 2 * n + if root {
                        3int
                    } else {
                        1
                    },
                ),
            ),
        ),
{
    reveal(pipeline);
    reveal(pipeline_type);
    reveal(pipeline_item);
    reveal(identifier_line);
    reveal_strlit("COMPUTE");
    reveal_strlit("ATTACH");
    reveal_strlit("ROOT");
    reveal_strlit("END");
    lemma_name(s, ts, i + 1);
    lemma_space(s, ts, i + 1);
    lemma_word(s, ts, i + 2);
    lemma_line_end(s, ts, i + 2);
    assert(attached(s, ts, i + 3, 0) =~= Seq::<IdentifierView>::empty());
    lemma_attach(s, ts, i + 3, n, root, 0);
    let c = i + 3 + 2 * n;
    let e = if root {
        c + 2
    } else {
        c
    };
    lemma_end(s, ts, e);
    if root {
        lemma_word(s, ts, c);
        lemma_name(s, ts, c + 1);
        lemma_line_end(s, ts, c + 1);
        lemma_later(s, ts, c, e);
        reveal_with_fuel(pipeline_items, 2);
    }
}

/// The words of the description of a view.
pub open spec fn view_words(v: InputViewType) -> Seq<Token> {
    match v {
        InputViewType::RaytracingAccelStruct => seq![tok("RTAS"@), eol("SRV"@)],
        InputViewType::Raw { typ } => seq![eol(view_word(typ))],
        InputViewType::Typed { typ, data_type } => seq![
            tok("TYPED"@),
            tok(view_word(typ)),
            eol(data_type_text(data_type)),
        ],
        InputViewType::Structured { typ, struct_size } => seq![
            tok("STRUCTURED"@),
            tok(view_word(typ)),
            tok("BYTES"@),
            eol(decimal_digits(struct_size as nat)),
        ],
    }
}

/// A view is described by its kind, and by the type or the size of its elements.
#[verifier::spinoff_prover]
pub proof fn lemma_view_description(s: Script, ts: Seq<Token>, i: int, v: InputViewType)
    requires
        is_written(s, ts),
        stand_at(ts, i, view_words(v)),
    ensures
        view_description(s, place(ts, i)) == Ok::<(InputViewType, int), Fail<Seq<char>>>(
            (v, end(ts, i + view_words(v).len() - 1)),
        ),
{
    reveal(view_description);
    reveal(typed_view);
    reveal(structured_view);
    reveal(raw_view);
    reveal(rtas_view);
    reveal_strlit("TYPED");
    reveal_strlit("STRUCTURED");
    reveal_strlit("RTAS");
    reveal_strlit("SRV");
    reveal_strlit("UAV");
    let words = view_words(v);
    assert(ts[i] == words[0]);
    match v {
        InputViewType::RaytracingAccelStruct => {
            assert(ts[i + 1] == words[1]);
            reveal(view_type);
            lemma_no_literal(s, ts, i, "TYPED"@);
            lemma_no_literal(s, ts, i, "STRUCTURED"@);
            lemma_word(s, ts, i);
            lemma_literal(s, ts, i);
            lemma_space(s, ts, i);
            lemma_literal(s, ts, i + 1);
        },
        InputViewType::Raw { typ } => {
            lemma_view_type(s, ts, i, typ);
            lemma_no_literal(s, ts, i, "TYPED"@);
            lemma_no_literal(s, ts, i, "STRUCTURED"@);
        },
        InputViewType::Typed { typ, data_type } => {
            assert(ts[i + 1] == words[1]);
            assert(ts[i + 2] == words[2]);
            lemma_literal(s, ts, i);
            lemma_space(s, ts, i);
            lemma_view_type(s, ts, i + 1, typ);
            lemma_space(s, ts, i + 1);
            lemma_data_type(s, ts, i + 2, data_type);
        },
        InputViewType::Structured { typ, struct_size } => {
            assert(ts[i + 1] == words[1]);
            assert(ts[i + 2] == words[2]);
            assert(ts[i + 3] == words[3]);
            assert("STRUCTURED"@.take(5)[0] == 'S');
            assert("TYPED"@[0] == 'T');
            lemma_no_literal(s, ts, i, "TYPED"@);
            lemma_literal(s, ts, i);
            lemma_space(s, ts, i);
            lemma_view_type(s, ts, i + 1, typ);
            lemma_keyword(s, ts, i + 2);
            lemma_uint(s, ts, i + 3, struct_size as nat, IntType::U32);
        },
    }
}

/// A VIEW statement has the name, the buffer and the description that are written in it.
pub proof fn lemma_view_form(s: Script, ts: Seq<Token>, i: int, v: InputViewType)
    requires
        is_written(s, ts),
        0 <= i,
        i + 4 <= ts.len(),
        ts[i] == tok("VIEW"@),
        is_word(ts[i + 1].word) && !ts[i + 1].last,
        is_word(ts[i + 2].word) && !ts[i + 2].last,
        ts[i + 3] == tok("AS"@),
        stand_at(ts, i + 4, view_words(v)),
    ensures
        view(s, end(ts, i)) == Ok::<(DirectiveView, int), Fail<Seq<char>>>(
            (
                DirectiveView::View {
                    name: name_at(s, ts, i + 1),
                    buffer: Some(name_at(s, ts, i + 2)),
                    typ: v,
                },
                place(ts, i + 4 + view_words(v).len()),
            ),
        ),
{
    reveal(view);
    lemma_name(s, ts, i + 1);
    lemma_name(s, ts, i + 2);
    lemma_keyword(s, ts, i + 3);
    lemma_view_description(s, ts, i + 4, v);
    let n = view_words(v).len() as int;
    assert(ts[i + 4 + (n - 1)] == view_words(v)[n - 1]);
    lemma_line_end(s, ts, i + 4 + n - 1);
}

/// The words of a line of a command signature.
pub open spec fn argument_words(a: CommandSignatureArgument) -> Seq<Token> {
    match a {
        CommandSignatureArgument::Constant { index, number, offset } => seq![
            tok("ROOT_CONST"@),
            tok("NUMBER"@),
            tok(decimal_digits(number as nat)),
            tok("REGISTER"@),
            tok(decimal_digits(index as nat)),
            tok("OFFSET"@),
            eol(decimal_digits(offset as nat)),
        ],
        CommandSignatureArgument::View { typ, index } => seq![
            tok(view_word(typ)),
            tok("REGISTER"@),
            eol(decimal_digits(index as nat)),
        ],
        CommandSignatureArgument::Dispatch => seq![eol("DISPATCH"@)],
        CommandSignatureArgument::DispatchRays => seq![eol("DISPATCHRAYS"@)],
    }
}

proof fn lemma_argument_words()
    ensures
        is_word("SRV"@),
        is_word("UAV"@),
        is_word("ROOT_CONST"@),
        is_word("DISPATCH"@),
        is_word("DISPATCHRAYS"@),
        "SRV"@.len() == 3,
        "UAV"@.len() == 3,
        "ROOT_CONST"@.len() == 10,
        "DISPATCH"@.len() == 8,
        "DISPATCHRAYS"@.len() == 12,
        "END"@.len() == 3,
        "SRV"@ != "UAV"@,
        "END"@ != "SRV"@,
        "END"@ != "UAV"@,
{
    lemma_root_words();
    reveal_strlit("DISPATCH");
    reveal_strlit("DISPATCHRAYS");
}

/// A line of a command signature is the argument that is written in it.
#[verifier::spinoff_prover]
pub proof fn lemma_argument(s: Script, ts: Seq<Token>, i: int, a: CommandSignatureArgument)
    requires
        is_written(s, ts),
        stand_at(ts, i, argument_words(a)),
    ensures
        argument(s, place(ts, i)) == Ok::<(CommandSignatureArgument, int), Fail<Seq<char>>>(
            (a, place(ts, i + argument_words(a).len())),
        ),
{
    reveal(argument);
    lemma_argument_words();
    let words = argument_words(a);
    assert(ts[i] == words[0]);
    lemma_word(s, ts, i);
    match a {
        CommandSignatureArgument::Constant { index, number, offset } => {
            assert(ts[i + 1] == words[1]);
            assert(ts[i + 2] == words[2]);
            assert(ts[i + 3] == words[3]);
            assert(ts[i + 4] == words[4]);
            assert(ts[i + 5] == words[5]);
            assert(ts[i + 6] == words[6]);
            reveal(argument_const);
            lemma_keyword(s, ts, i + 1);
            lemma_uint(s, ts, i + 2, number as nat, IntType::U32);
            lemma_keyword(s, ts, i + 3);
            lemma_uint(s, ts, i + 4, index as nat, IntType::U32);
            lemma_keyword(s, ts, i + 5);
            lemma_uint(s, ts, i + 6, offset as nat, IntType::U32);
            lemma_line_end(s, ts, i + 6);
        },
        CommandSignatureArgument::View { typ, index } => {
            assert(ts[i + 1] == words[1]);
            assert(ts[i + 2] == words[2]);
            reveal(argument_view);
            lemma_keyword(s, ts, i + 1);
            lemma_uint(s, ts, i + 2, index as nat, IntType::U32);
            lemma_line_end(s, ts, i + 2);
        },
        _ => {
            lemma_line_end(s, ts, i);
        },
    }
}

/// The words of the first `k` lines of a command signature.
pub open spec fn arguments_words(args: Seq<CommandSignatureArgument>, k: int) -> Seq<Token>
    decreases k,
{
    if k <= 0 {
        Seq::empty()
    } else {
        arguments_words(args, k - 1) + argument_words(args[k - 1])
    }
}

proof fn lemma_argument_at(
    ts: Seq<Token>,
    i: int,
    args: Seq<CommandSignatureArgument>,
    n: int,
    k: int,
)
    requires
        stand_at(ts, i, arguments_words(args, n)),
        0 <= k < n,
    ensures
        stand_at(ts, i + arguments_words(args, k).len(), argument_words(args[k])),
        arguments_words(args, k + 1).len() == arguments_words(args, k).len() + argument_words(
            args[k],
        ).len(),
    decreases n - k,
{
    let all = arguments_words(args, n);
    let before = arguments_words(args, n - 1);
    let last = argument_words(args[n - 1]);
    if k == n - 1 {
        assert forall|j: int| 0 <= j < last.len() implies ts[i + before.len() + j]
            == #[trigger] last[j] by {
            assert(all[before.len() + j] == last[j]);
        }
    } else {
        assert forall|j: int| 0 <= j < before.len() implies ts[i + j] == #[trigger] before[j] by {
            assert(all[j] == before[j]);
        }
        lemma_argument_at(ts, i, args, n - 1, k);
    }
}

#[verifier::spinoff_prover]
proof fn lemma_arguments(
    s: Script,
    ts: Seq<Token>,
    i: int,
    args: Seq<CommandSignatureArgument>,
    k: int,
)
    requires
        is_written(s, ts),
        stand_at(ts, i, arguments_words(args, args.len() as int)),
        i + arguments_words(args, args.len() as int).len() < ts.len(),
        ts[i + arguments_words(args, args.len() as int).len()] == eol("END"@),
        0 <= k <= args.len(),
    ensures
        arguments(s, place(ts, i + arguments_words(args, k).len()), args.take(k)) == Ok::<
            (Seq<CommandSignatureArgument>, int),
            Fail<Seq<char>>,
        >((args, place(ts, i + arguments_words(args, args.len() as int).len()))),
    decreases args.len() - k,
{
    let at = i + arguments_words(args, k).len();
    if k < args.len() {
        lemma_argument_at(ts, i, args, args.len() as int, k);
        lemma_argument(s, ts, at, args[k]);
        lemma_later(s, ts, at, at + argument_words(args[k]).len());
        assert(args.take(k).push(args[k]) =~= args.take(k + 1));
        lemma_arguments(s, ts, i, args, k + 1);
    } else {
        assert(args.take(k) =~= args);
        reveal(argument);
        lemma_argument_words();
        reveal_strlit("END");
        lemma_word(s, ts, at);
    }
}

/// The words of a command signature before its lines.
pub open spec fn signature_head(has_stride: bool, has_root: bool) -> int {
    2int + (if has_stride {
        2int
    } else {
        0
    }) + (if has_root {
        2int
    } else {
        0
    })
}

/// A COMMAND_SIGNATURE statement has the name, the stride, the root signature and the arguments in
/// their order as they are written in it.
#[verifier::spinoff_prover]
pub proof fn lemma_command_signature_form(
    s: Script,
    ts: Seq<Token>,
    i: int,
    given: Option<u32>,
    has_root: bool,
    args: Seq<CommandSignatureArgument>,
)
    requires
        is_written(s, ts),
        0 <= i,
        i + signature_head(given is Some, has_root) <= ts.len(),
        ts[i] == tok("COMMAND_SIGNATURE"@),
        is_word(ts[i + 1].word),
        given matches Some(n) ==> ts[i + 2] == tok("STRIDE"@) && ts[i + 3].word == decimal_digits(
            n as nat,
        ),
        has_root ==> ts[i + signature_head(given is Some, has_root) - 2] == tok("ROOT_SIG"@)
            && is_word(ts[i + signature_head(given is Some, has_root) - 1].word),
        ts[i + 1].last == (signature_head(given is Some, has_root) == 2),
        given is Some ==> ts[i + 3].last == !has_root,
        ts[i + signature_head(given is Some, has_root) - 1].last,
        stand_at(
            ts,
            i + signature_head(given is Some, has_root),
            arguments_words(args, args.len() as int),
        ),
        i + signature_head(given is Some, has_root) + arguments_words(args, args.len() as int).len()
            < ts.len(),
        ts[i + signature_head(given is Some, has_root) + arguments_words(
            args,
            args.len() as int,
        ).len()] == eol("END"@),
    ensures
        command_signature(s, end(ts, i)) == Ok::<(DirectiveView, int), Fail<Seq<char>>>(
            (
                DirectiveView::CommandSignature {
                    name: name_at(s, ts, i + 1),
                    stride: given,
                    arguments: args,
                    root_sig: if has_root {
                        Some(name_at(s, ts, i + signature_head(given is Some, has_root) - 1))
                    } else {
                        None
                    },
                },
                place(
                    ts,
                    i + signature_head(given is Some, has_root) + arguments_words(
                        args,
                        args.len() as int,
                    ).len() + 1,
                ),
            ),
        ),
{
    reveal(command_signature);
    reveal(stride);
    reveal(signature_root_sig);
    reveal_strlit("STRIDE");
    reveal_strlit("ROOT_SIG");
    let head = i + signature_head(given is Some, has_root);
    lemma_name(s, ts, i + 1);
    match given {
        Some(n) => {
            lemma_keyword(s, ts, i + 2);
            lemma_uint(s, ts, i + 3, n as nat, IntType::U32);
        },
        None => {
            if has_root {
                assert(ts[i + 2].word.take(6)[0] == 'R');
            }
            lemma_no_keyword(s, ts, i + 2, "STRIDE"@);
        },
    }
    if has_root {
        lemma_keyword(s, ts, head - 2);
        lemma_word(s, ts, head - 1);
    } else {
        lemma_no_keyword(s, ts, head, "ROOT_SIG"@);
    }
    lemma_line_end(s, ts, head - 1);
    assert(args.take(0) =~= Seq::<CommandSignatureArgument>::empty());
    lemma_arguments(s, ts, head, args, 0);
    lemma_end(s, ts, head + arguments_words(args, args.len() as int).len());
}

} // verus!
