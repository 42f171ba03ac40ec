//! The forms of shader sources, objects and pipeline state objects.
use vstd::prelude::*;

use crate::flags::FlagKind;
use crate::grammar::forms::geometry::{config_end, is_config, lemma_later};
use crate::grammar::laws::is_word;
use crate::grammar::objects::{
    add_to, export, exports, exports_from, object, object_args, pso, pso_hit_group, pso_item,
    pso_items, pso_lib, rename, source, space_string, space_word, strings, PsoItemsView,
};
use crate::grammar::tokens::{
    end_line, find_end_line, in_class, is_end_line, literal, set_bits, starts_with, string_escapes,
    string_no_equals, until_end_literal, CharClass,
};
use crate::grammar::written::{
    bits_of, end, eol, is_plain, is_written, lemma_end, lemma_flags, lemma_keyword, lemma_line_end,
    lemma_literal, lemma_name, lemma_no_keyword, lemma_no_name, lemma_space, lemma_string,
    lemma_token, lemma_word, name_at, place, tok, Token,
};
use crate::parse_error::Fail;
use crate::script::{DirectiveView, Export, HitGroup, LinkObjectView, PipelineStateObjectType};
use crate::source::{IdentifierView, Script};

verus! {

/// Whether `n` strings stand from the word `i` on, to the end of their line, if there are any.
pub open spec fn are_strings(ts: Seq<Token>, i: int, n: int) -> bool {
    &&& 0 < i
    &&& 0 <= n
    &&& i + n <= ts.len()
    &&& ts[i - 1].last == (n == 0)
    &&& forall|k: int|
        i <= k < i + n ==> is_plain((#[trigger] ts[k]).word) && ts[k].last == (k == i + n - 1)
}

/// The words from `i` on, `n` of them.
pub open spec fn words_at(ts: Seq<Token>, i: int, n: int) -> Seq<Seq<char>> {
    Seq::new(n as nat, |k: int| ts[i + k].word)
}

proof fn lemma_strings(s: Script, ts: Seq<Token>, i: int, n: int, k: int)
    requires
        is_written(s, ts),
        are_strings(ts, i, n),
        0 <= k <= n,
    ensures
        strings(s, end(ts, i + k - 1), words_at(ts, i, k)) == Ok::<
            (Seq<Seq<char>>, int),
            Fail<Seq<char>>,
        >((words_at(ts, i, n), end(ts, i + n - 1))),
    decreases n - k,
{
    reveal(space_string);
    if k > 0 {
        assert(ts[i + k - 1].last == (k == n));
    }
    if k < n {
        assert(is_plain(ts[i + k].word));
        lemma_space(s, ts, i + k - 1);
        lemma_string(s, ts, i + k);
        lemma_token(s, ts, i + k - 1);
        lemma_token(s, ts, i + k);
        assert(words_at(ts, i, k).push(ts[i + k].word) =~= words_at(ts, i, k + 1));
        lemma_strings(s, ts, i, n, k + 1);
    } else {
        lemma_line_end(s, ts, i + k - 1);
    }
}

/// An OBJECT or LIB statement has the name, the source, the shader model, the entry point of an
/// object, and the arguments in their order as they are written in it.
#[verifier::spinoff_prover]
pub proof fn lemma_object_form(s: Script, ts: Seq<Token>, i: int, is_object: bool, n: int)
    requires
        is_written(s, ts),
        0 <= i,
        i + 5 <= ts.len() || (!is_object && i + 4 <= ts.len()),
        !ts[i].last,
        is_word(ts[i + 1].word) && !ts[i + 1].last,
        is_word(ts[i + 2].word) && !ts[i + 2].last,
        is_word(ts[i + 3].word),
        is_object ==> !ts[i + 3].last && is_word(ts[i + 4].word),
        are_strings(
            ts,
            if is_object {
                i + 5
            } else {
                i + 4
            },
            n,
        ),
    ensures
        ({
            let a = if is_object {
                i + 5
            } else {
                i + 4
            };
            object(s, end(ts, i), is_object) == Ok::<(DirectiveView, int), Fail<Seq<char>>>(
                (
                    DirectiveView::Object {
                        name: name_at(s, ts, i + 1),
                        source: name_at(s, ts, i + 2),
                        shader_model: ts[i + 3].word,
                        entrypoint: if is_object {
                            Some(ts[i + 4].word)
                        } else {
                            None
                        },
                        args: words_at(ts, a, n),
                    },
                    place(ts, a + n),
                ),
            )
        }),
{
    reveal(object);
    reveal(object_args);
    reveal(space_word);
    let a = if is_object {
        i + 5
    } else {
        i + 4
    };
    lemma_name(s, ts, i + 1);
    lemma_name(s, ts, i + 2);
    lemma_space(s, ts, i + 2);
    lemma_word(s, ts, i + 3);
    if is_object {
        lemma_space(s, ts, i + 3);
        lemma_word(s, ts, i + 4);
    }
    assert(words_at(ts, a, 0) =~= Seq::<Seq<char>>::empty());
    lemma_strings(s, ts, a, n, 0);
    if n > 0 {
        assert(ts[a + n - 1].last);
    }
    lemma_line_end(s, ts, a + n - 1);
}

/// The first line that consists of `END` ends a block.
pub proof fn lemma_find_end(text: Seq<char>, p: int, q: int)
    requires
        0 <= p <= q,
        is_end_line(text, q),
        forall|k: int| p <= k < q ==> !#[trigger] is_end_line(text, k),
    ensures
        find_end_line(text, p) == Some(q),
    decreases q - p,
{
    if p < q {
        assert(!is_end_line(text, p));
        lemma_find_end(text, p + 1, q);
    }
}

/// A block is read as it is written, up to the first line that consists of `END`. The line feed
/// before that line is not part of it.
pub proof fn lemma_block(s: Script, p: int, block: Seq<char>)
    requires
        0 <= p,
        s.text == s.text.take(p) + block + "\nEND\n"@,
        p <= s.text.len(),
        block.len() > 0,
        block[0] != 'E',
        forall|k: int| p <= k < p + block.len() ==> !#[trigger] is_end_line(s.text, k),
    ensures
        until_end_literal(s, p) == Ok::<(Seq<char>, int), Fail<Seq<char>>>(
            (block, s.text.len() as int),
        ),
{
    reveal(until_end_literal);
    reveal(end_line);
    reveal(literal);
    reveal_strlit("\nEND\n");
    reveal_strlit("END");
    let t = s.text;
    let q = p + block.len();
    assert(t[p] == block[0]);
    assert(!starts_with(t, p, "END"@)) by {
        if starts_with(t, p, "END"@) {
            assert(t.subrange(p, p + 3)[0] == 'E');
        }
    }
    let tail = "\nEND\n"@;
    assert(t[q] == tail[0] && t[q + 1] == tail[1] && t[q + 2] == tail[2] && t[q + 3] == tail[3]
        && t[q + 4] == tail[4]);
    assert(t.len() == q + 5);
    assert(is_end_line(t, q));
    lemma_find_end(t, p, q);
    assert(t.subrange(p, q) =~= block);
    crate::grammar::written::lemma_last_line(s, q + 4);
}

/// Whether a library or collection with exports stands at the word `i`: maybe `EXPORTS` and `n`
/// names.
pub open spec fn is_link(ts: Seq<Token>, i: int, n: int) -> bool {
    &&& 0 <= i
    &&& 0 <= n
    &&& i + link_len(n) <= ts.len()
    &&& !ts[i].last
    &&& is_word(ts[i + 1].word)
    &&& ts[i + 1].last == (n == 0)
    &&& n > 0 ==> ts[i + 2] == tok("EXPORTS"@)
    &&& forall|k: int|
        i + 3 <= k < i + 3 + n ==> is_plain((#[trigger] ts[k]).word) && no_equals(ts[k].word)
            && ts[k].last == (k == i + 2 + n)
}

/// Whether a word has no equals sign.
pub open spec fn no_equals(w: Seq<char>) -> bool {
    forall|k: int| 0 <= k < w.len() ==> #[trigger] w[k] != '='
}

/// The words of a library or collection.
pub open spec fn link_len(n: int) -> int {
    if n > 0 {
        3 + n
    } else {
        2
    }
}

/// The exports of `n` names from the word `i` on.
pub open spec fn exports_at(ts: Seq<Token>, i: int, n: int) -> Seq<Export<Seq<char>>> {
    Seq::new(n as nat, |k: int| Export { name: ts[i + k].word, to_rename: None })
}

proof fn lemma_export(s: Script, ts: Seq<Token>, i: int)
    requires
        is_written(s, ts),
        0 < i < ts.len(),
        !ts[i - 1].last,
        is_plain(ts[i].word),
        no_equals(ts[i].word),
    ensures
        export(s, end(ts, i - 1)) == Ok::<(Export<Seq<char>>, int), Fail<Seq<char>>>(
            (Export { name: ts[i].word, to_rename: None }, end(ts, i)),
        ),
{
    reveal(export);
    reveal(rename);
    reveal(literal);
    reveal_strlit("=");
    lemma_space(s, ts, i - 1);
    lemma_string(s, ts, i);
    lemma_token(s, ts, i);
    assert(!starts_with(s.text, end(ts, i), "="@)) by {
        if starts_with(s.text, end(ts, i), "="@) {
            assert(s.text.subrange(end(ts, i), end(ts, i) + 1)[0] == '=');
        }
    }
}

proof fn lemma_exports_from(s: Script, ts: Seq<Token>, i: int, n: int, k: int)
    requires
        is_written(s, ts),
        is_link(ts, i, n),
        0 < k <= n,
    ensures
        exports_from(s, end(ts, i + 2 + k), exports_at(ts, i + 3, k)) == Ok::<
            (Seq<Export<Seq<char>>>, int),
            Fail<Seq<char>>,
        >((exports_at(ts, i + 3, n), end(ts, i + 2 + n))),
    decreases n - k,
{
    assert(ts[i + 2 + k].last == (k == n));
    if k < n {
        assert(is_plain(ts[i + 3 + k].word));
        lemma_export(s, ts, i + 3 + k);
        lemma_token(s, ts, i + 2 + k);
        lemma_token(s, ts, i + 3 + k);
        assert(exports_at(ts, i + 3, k).push(
            Export { name: ts[i + 3 + k].word, to_rename: None },
        ) =~= exports_at(ts, i + 3, k + 1));
        lemma_exports_from(s, ts, i, n, k + 1);
    } else {
        reveal(export);
        lemma_line_end(s, ts, i + 2 + k);
    }
}

/// A library or collection has the name and the exports in their order that are written.
#[verifier::spinoff_prover]
pub proof fn lemma_link(s: Script, ts: Seq<Token>, i: int, n: int)
    requires
        is_written(s, ts),
        is_link(ts, i, n),
    ensures
        pso_lib(s, end(ts, i)) == Ok::<(LinkObjectView, int), Fail<Seq<char>>>(
            (
                LinkObjectView {
                    name: name_at(s, ts, i + 1),
                    exports: exports_at(ts, i + 3, n),
                },
                place(ts, i + link_len(n)),
            ),
        ),
{
    reveal(pso_lib);
    reveal(exports);
    lemma_name(s, ts, i + 1);
    if n > 0 {
        lemma_space(s, ts, i + 1);
        lemma_literal(s, ts, i + 2);
        assert(is_plain(ts[i + 3].word));
        lemma_export(s, ts, i + 3);
        assert(Seq::<Export<Seq<char>>>::empty().push(
            Export { name: ts[i + 3].word, to_rename: None },
        ) =~= exports_at(ts, i + 3, 1));
        lemma_exports_from(s, ts, i, n, 1);
        assert(ts[i + 2 + n].last);
        lemma_line_end(s, ts, i + 2 + n);
    } else {
        lemma_line_end(s, ts, i + 1);
        assert(exports_at(ts, i + 3, n) =~= Seq::<Export<Seq<char>>>::empty());
    }
}

/// An export with an equals sign renames: the new name stands before it, the old one behind it.
pub proof fn lemma_rename(s: Script, ts: Seq<Token>, i: int, new: Seq<char>, old: Seq<char>)
    requires
        is_written(s, ts),
        0 < i < ts.len(),
        !ts[i - 1].last,
        is_plain(new),
        no_equals(new),
        is_plain(old),
        ts[i].word == new + seq!['='] + old,
    ensures
        export(s, end(ts, i - 1)) == Ok::<(Export<Seq<char>>, int), Fail<Seq<char>>>(
            (Export { name: new, to_rename: Some(old) }, end(ts, i)),
        ),
{
    reveal(export);
    reveal(rename);
    reveal(literal);
    reveal(crate::grammar::tokens::string);
    reveal(string_no_equals);
    reveal(string_escapes);
    reveal_strlit("=");
    lemma_space(s, ts, i - 1);
    lemma_token(s, ts, i);
    let w = ts[i].word;
    let (p, q) = (place(ts, i), end(ts, i));
    let m = p + new.len();
    assert forall|k: int| p <= k < q implies #[trigger] s.text[k] == w[k - p] by {
        assert(s.text.subrange(p, q)[k - p] == s.text[k]);
    }
    assert forall|k: int| p <= k < m implies in_class(
        CharClass::UnquotedNoEquals,
        #[trigger] s.text[k],
    ) by {
        assert(s.text[k] == new[k - p]);
    }
    assert(s.text[m] == '=');
    crate::grammar::written::lemma_escaped(s, p, m, CharClass::UnquotedNoEquals, Seq::empty());
    assert(s.text.subrange(p, m) =~= new);
    assert(Seq::<char>::empty() + new =~= new);
    assert(s.text.subrange(m, m + 1) =~= "="@);
    assert forall|k: int| m + 1 <= k < q implies in_class(
        CharClass::Unquoted,
        #[trigger] s.text[k],
    ) by {
        assert(s.text[k] == old[k - m - 1]);
    }
    assert(s.text[m + 1] == old[0]);
    crate::grammar::written::lemma_escaped(s, m + 1, q, CharClass::Unquoted, Seq::empty());
    assert(s.text.subrange(m + 1, q) =~= old);
    assert(Seq::<char>::empty() + old =~= old);
}

/// Whether a name or a minus sign stands at the word `i`, and which one.
pub open spec fn is_shader(
    s: Script,
    ts: Seq<Token>,
    i: int,
    name: Option<IdentifierView>,
) -> bool {
    match name {
        Some(n) => is_word(ts[i].word) && n == name_at(s, ts, i),
        None => ts[i].word == seq!['-'],
    }
}

proof fn lemma_shader(
    s: Script,
    ts: Seq<Token>,
    i: int,
    name: Option<IdentifierView>,
)
    requires
        is_written(s, ts),
        0 < i < ts.len(),
        !ts[i - 1].last,
        is_shader(s, ts, i, name),
    ensures
        crate::grammar::tokens::space_identifier_or_none(s, end(ts, i - 1)) == Ok::<
            (Option<IdentifierView>, int),
            Fail<Seq<char>>,
        >((name, end(ts, i))),
{
    if name is Some {
        lemma_name(s, ts, i);
    } else {
        lemma_no_name(s, ts, i);
    }
}

/// Whether a hit group stands at the word `i`.
pub open spec fn is_hit_group(
    s: Script,
    ts: Seq<Token>,
    i: int,
    g: HitGroup<Seq<char>>,
) -> bool {
    &&& 0 <= i
    &&& i + 5 <= ts.len()
    &&& ts[i] == tok("HIT_GROUP"@)
    &&& is_word(ts[i + 1].word) && g.name == name_at(s, ts, i + 1)
    &&& is_shader(s, ts, i + 2, g.any_hit)
    &&& is_shader(s, ts, i + 3, g.closest_hit)
    &&& is_shader(s, ts, i + 4, g.intersection)
    &&& !ts[i + 1].last && !ts[i + 2].last && !ts[i + 3].last && ts[i + 4].last
}

/// A hit group has its name, and the shaders for any hit, the closest hit and intersections, in
/// this order. A minus sign stands for no shader.
pub proof fn lemma_hit_group(s: Script, ts: Seq<Token>, i: int, g: HitGroup<Seq<char>>)
    requires
        is_written(s, ts),
        is_hit_group(s, ts, i, g),
    ensures
        pso_hit_group(s, end(ts, i)) == Ok::<(HitGroup<Seq<char>>, int), Fail<Seq<char>>>(
            (g, place(ts, i + 5)),
        ),
{
    reveal(pso_hit_group);
    lemma_name(s, ts, i + 1);
    lemma_shader(s, ts, i + 2, g.any_hit);
    lemma_shader(s, ts, i + 3, g.closest_hit);
    lemma_shader(s, ts, i + 4, g.intersection);
    lemma_line_end(s, ts, i + 4);
}

/// A line of a pipeline state object.
pub enum PsoLine {
    Lib { exports: int },
    Collection { exports: int },
    HitGroup { group: HitGroup<Seq<char>> },
}

/// The words of a line of a pipeline state object.
pub open spec fn pso_line_len(line: PsoLine) -> int {
    match line {
        PsoLine::Lib { exports } => link_len(exports),
        PsoLine::Collection { exports } => link_len(exports),
        PsoLine::HitGroup { .. } => 5,
    }
}

/// Whether a line of a pipeline state object stands at the word `i`.
pub open spec fn is_pso_line(s: Script, ts: Seq<Token>, i: int, line: PsoLine) -> bool {
    match line {
        PsoLine::Lib { exports } => is_link(ts, i, exports) && ts[i].word == "LIB"@,
        PsoLine::Collection { exports } => is_link(ts, i, exports) && ts[i].word == "COLLECTION"@,
        PsoLine::HitGroup { group } => is_hit_group(s, ts, i, group),
    }
}

/// What the lines gave so far, with the line at the word `i` behind it.
pub open spec fn with_pso_line(
    s: Script,
    ts: Seq<Token>,
    i: int,
    line: PsoLine,
    items: PsoItemsView,
) -> PsoItemsView {
    match line {
        PsoLine::Lib { exports } => PsoItemsView {
            libs: items.libs.push(
                LinkObjectView {
                    name: name_at(s, ts, i + 1),
                    exports: exports_at(ts, i + 3, exports),
                },
            ),
            ..items
        },
        PsoLine::Collection { exports } => PsoItemsView {
            collections: items.collections.push(
                LinkObjectView {
                    name: name_at(s, ts, i + 1),
                    exports: exports_at(ts, i + 3, exports),
                },
            ),
            ..items
        },
        PsoLine::HitGroup { group } => PsoItemsView {
            hit_groups: items.hit_groups.push(group),
            ..items
        },
    }
}

proof fn lemma_pso_words()
    ensures
        is_word("COLLECTION"@),
        is_word("LIB"@),
        is_word("HIT_GROUP"@),
        is_word("CONFIG"@),
        "COLLECTION"@.len() == 10,
        "LIB"@.len() == 3,
        "HIT_GROUP"@.len() == 9,
        "CONFIG"@.len() == 6,
        "END"@.len() == 3,
        "END"@ != "LIB"@,
{
    reveal_strlit("COLLECTION");
    reveal_strlit("LIB");
    reveal_strlit("HIT_GROUP");
    reveal_strlit("CONFIG");
    reveal_strlit("END");
    assert("END"@[0] == 'E' && "LIB"@[0] == 'L');
}

/// A line of a pipeline state object gives what is written in it, and keeps what was there before.
#[verifier::spinoff_prover]
pub proof fn lemma_pso_line(
    s: Script,
    ts: Seq<Token>,
    i: int,
    line: PsoLine,
    items: PsoItemsView,
)
    requires
        is_written(s, ts),
        is_pso_line(s, ts, i, line),
    ensures
        pso_item(s, place(ts, i), items) == Ok::<(PsoItemsView, int), Fail<Seq<char>>>(
            (with_pso_line(s, ts, i, line, items), place(ts, i + pso_line_len(line))),
        ),
        pso_items(s, place(ts, i), items) == pso_items(
            s,
            place(ts, i + pso_line_len(line)),
            with_pso_line(s, ts, i, line, items),
        ),
        0 <= i < i + pso_line_len(line) <= ts.len(),
{
    reveal(pso_item);
    lemma_pso_words();
    lemma_word(s, ts, i);
    match line {
        PsoLine::Lib { exports } => {
            lemma_link(s, ts, i, exports);
        },
        PsoLine::Collection { exports } => {
            lemma_link(s, ts, i, exports);
        },
        PsoLine::HitGroup { group } => {
            lemma_hit_group(s, ts, i, group);
        },
    }
    lemma_later(s, ts, i, i + pso_line_len(line));
}

/// The words of the first `k` lines.
pub open spec fn pso_lines_len(lines: Seq<PsoLine>, k: int) -> int
    decreases k,
{
    if k <= 0 {
        0
    } else {
        pso_lines_len(lines, k - 1) + pso_line_len(lines[k - 1])
    }
}

/// What the first `k` lines from the word `i` on give.
pub open spec fn pso_of(s: Script, ts: Seq<Token>, i: int, lines: Seq<PsoLine>, k: int) -> PsoItemsView
    decreases k,
{
    if k <= 0 {
        PsoItemsView {
            libs: Seq::empty(),
            collections: Seq::empty(),
            hit_groups: Seq::empty(),
            config: None,
        }
    } else {
        with_pso_line(
            s,
            ts,
            i + pso_lines_len(lines, k - 1),
            lines[k - 1],
            pso_of(s, ts, i, lines, k - 1),
        )
    }
}

/// Whether lines of a pipeline state object stand from the word `i` on.
#[verifier::opaque]
pub open spec fn are_pso_lines(s: Script, ts: Seq<Token>, i: int, lines: Seq<PsoLine>) -> bool {
    &&& 0 <= i
    &&& forall|k: int|
        0 <= k < lines.len() ==> is_pso_line(
            s,
            ts,
            i + pso_lines_len(lines, k),
            #[trigger] lines[k],
        )
}

proof fn lemma_pso_line_at(s: Script, ts: Seq<Token>, i: int, lines: Seq<PsoLine>, k: int)
    requires
        are_pso_lines(s, ts, i, lines),
        0 <= k < lines.len(),
    ensures
        is_pso_line(s, ts, i + pso_lines_len(lines, k), lines[k]),
{
    reveal(are_pso_lines);
    assert(is_pso_line(s, ts, i + pso_lines_len(lines, k), lines[k]));
}

proof fn lemma_pso_lines(s: Script, ts: Seq<Token>, i: int, lines: Seq<PsoLine>, k: int)
    requires
        is_written(s, ts),
        are_pso_lines(s, ts, i, lines),
        0 <= k <= lines.len(),
    ensures
        pso_items(s, place(ts, i + pso_lines_len(lines, k)), pso_of(s, ts, i, lines, k))
            == pso_items(
            s,
            place(ts, i + pso_lines_len(lines, lines.len() as int)),
            pso_of(s, ts, i, lines, lines.len() as int),
        ),
        pso_of(s, ts, i, lines, k).config is None,
    decreases lines.len() - k,
{
    if k < lines.len() {
        let at = i + pso_lines_len(lines, k);
        lemma_pso_line_at(s, ts, i, lines, k);
        lemma_pso_line(s, ts, at, lines[k], pso_of(s, ts, i, lines, k));
        lemma_pso_lines(s, ts, i, lines, k + 1);
    }
    lemma_no_config(s, ts, i, lines, k);
}

proof fn lemma_no_config(s: Script, ts: Seq<Token>, i: int, lines: Seq<PsoLine>, k: int)
    ensures
        pso_of(s, ts, i, lines, k).config is None,
    decreases k,
{
    if k > 0 {
        lemma_no_config(s, ts, i, lines, k - 1);
    }
}

/// Whether a pipeline state object or a collection stands at the word `i`: its name, maybe the one
/// that it is added to, its lines, its flags and `END`.
pub open spec fn is_pso(
    s: Script,
    ts: Seq<Token>,
    i: int,
    added: bool,
    lines: Seq<PsoLine>,
    words: Seq<Seq<char>>,
) -> bool {
    let head = pso_head(i, added);
    let c = head + pso_lines_len(lines, lines.len() as int);
    &&& 0 <= i
    &&& head <= ts.len()
    &&& !ts[i].last
    &&& is_word(ts[i + 1].word)
    &&& ts[head - 1].last
    &&& added ==> !ts[i + 1].last && ts[i + 2] == tok("ADDTO"@) && is_word(ts[i + 3].word)
    &&& are_pso_lines(s, ts, head, lines)
    &&& 0 <= c
    &&& is_config(ts, c, FlagKind::StateObject, words)
    &&& config_end(c, words) < ts.len()
    &&& ts[config_end(c, words)] == eol("END"@)
}

/// The first word of the lines of a pipeline state object.
pub open spec fn pso_head(i: int, added: bool) -> int {
    if added {
        i + 4
    } else {
        i + 2
    }
}

#[verifier::spinoff_prover]
proof fn lemma_pso_config(
    s: Script,
    ts: Seq<Token>,
    i: int,
    words: Seq<Seq<char>>,
    items: PsoItemsView,
)
    requires
        is_written(s, ts),
        0 <= i,
        is_config(ts, i, FlagKind::StateObject, words),
        config_end(i, words) < ts.len(),
        ts[config_end(i, words)] == eol("END"@),
        items.config is None,
    ensures
        pso_items(s, place(ts, i), items) matches Ok((found, q)) && q == place(
            ts,
            config_end(i, words),
        ) && found == (PsoItemsView { config: found.config, ..items }) && set_bits(found.config)
            == bits_of(FlagKind::StateObject, words),
{
    reveal(pso_item);
    lemma_pso_words();
    lemma_end(s, ts, config_end(i, words));
    if words.len() > 0 {
        lemma_word(s, ts, i);
        lemma_flags(s, ts, i + 1, FlagKind::StateObject, words);
        lemma_later(s, ts, i, config_end(i, words));
        reveal_with_fuel(pso_items, 2);
    }
}

/// A pipeline state object or a collection has the name, the state object that it is added to, the
/// libraries, the collections, the hit groups and the flags as they are written in it.
#[verifier::spinoff_prover]
pub proof fn lemma_pso_form(
    s: Script,
    ts: Seq<Token>,
    i: int,
    added: bool,
    lines: Seq<PsoLine>,
    words: Seq<Seq<char>>,
    typ: PipelineStateObjectType,
)
    requires
        is_written(s, ts),
        is_pso(s, ts, i, added, lines, words),
    ensures
        ({
            let head = pso_head(i, added);
            let c = head + pso_lines_len(lines, lines.len() as int);
            let items = pso_of(s, ts, head, lines, lines.len() as int);
            pso(s, end(ts, i), typ) == Ok::<(DirectiveView, int), Fail<Seq<char>>>(
                (
                    DirectiveView::PipelineStateObject {
                        name: name_at(s, ts, i + 1),
                        typ,
                        add_to: if added {
                            Some(name_at(s, ts, i + 3))
                        } else {
                            None
                        },
                        libs: items.libs,
                        collections: items.collections,
                        hit_groups: items.hit_groups,
                        config: bits_of(FlagKind::StateObject, words),
                    },
                    place(ts, config_end(c, words) + 1),
                ),
            )
        }),
{
    reveal(pso);
    reveal(add_to);
    reveal_strlit("ADDTO");
    let head = pso_head(i, added);
    let c = head + pso_lines_len(lines, lines.len() as int);
    lemma_name(s, ts, i + 1);
    if added {
        lemma_keyword(s, ts, i + 2);
        lemma_word(s, ts, i + 3);
    } else {
        lemma_no_keyword(s, ts, i + 2, "ADDTO"@);
    }
    lemma_line_end(s, ts, head - 1);
    lemma_pso_lines(s, ts, head, lines, 0);
    lemma_pso_lines(s, ts, head, lines, lines.len() as int);
    lemma_pso_config(s, ts, c, words, pso_of(s, ts, head, lines, lines.len() as int));
    lemma_end(s, ts, config_end(c, words));
}

} // verus!
