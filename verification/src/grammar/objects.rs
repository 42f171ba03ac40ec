//! Shader sources, objects and pipeline state objects.
use vstd::prelude::*;

use crate::flags::FlagKind;
use crate::grammar::tokens::{
    cut, either, end_line, flags, identifier, in_statement, keyword, line_end, literal, no_dup,
    optional, set_bits, single_line_end, space, space_identifier, space_identifier_or_none, string,
    string_no_equals, unknown, until_end_literal, word, OnceView,
};
use crate::parse_error::{Outcome, StatementFormat};
use crate::script::{
    DirectiveView, Export, HitGroup, LinkObjectView, PipelineStateObjectType,
};
use crate::source::{occurrences, IdentifierView, Script};

verus! {

/// A word behind space.
#[verifier::opaque]
pub open spec fn space_word(s: Script, p: int) -> Outcome<Seq<char>> {
    match space(s, p) { Err(f) => Err(f), Ok((_, p)) =>
    word(s, p)
    }
}

/// A string behind space.
#[verifier::opaque]
pub open spec fn space_string(s: Script, p: int) -> Outcome<Seq<char>> {
    match space(s, p) { Err(f) => Err(f), Ok((_, p)) =>
    string(s, p)
    }
}

/// As many strings as there are, put behind `found`.
pub open spec fn strings(s: Script, p: int, found: Seq<Seq<char>>) -> Outcome<Seq<Seq<char>>>
    decreases s.text.len() - p,
{
    match space_string(s, p) {
        Ok((text, end)) => if p < end && end <= s.text.len() {
            strings(s, end, found.push(text))
        } else {
            Ok((found, p))
        },
        Err(f) => if f.cut {
            Err(f)
        } else {
            Ok((found, p))
        },
    }
}

/// An object that is compiled from a source.
#[verifier::opaque]
pub open spec fn object_args(
    s: Script,
    p: int,
    name: IdentifierView,
    is_object: bool,
) -> Outcome<DirectiveView> {
    match space_identifier(s, p) { Err(f) => Err(f), Ok((source, p)) =>
    match space_word(s, p) { Err(f) => Err(f), Ok((shader_model, p)) => {
    let entry: Outcome<Option<Seq<char>>> = if is_object {
        match space_word(s, p) {
            Ok((w, end)) => Ok((Some(w), end)),
            Err(f) => Err(f),
        }
    } else {
        Ok((None, p))
    };
    match entry { Err(f) => Err(f), Ok((entrypoint, p)) =>
    match strings(s, p, Seq::empty()) { Err(f) => Err(f), Ok((args, p)) =>
    match line_end(s, p) { Err(f) => Err(f), Ok((_, p)) =>
    Ok((DirectiveView::Object { name, source, shader_model, entrypoint, args }, p))
    }}}
    }}}
}

/// An object that is given as DXIL.
#[verifier::opaque]
pub open spec fn object_dxil(s: Script, p: int, name: IdentifierView) -> Outcome<DirectiveView> {
    match single_line_end(s, p) { Err(f) => Err(f), Ok((_, p)) =>
    match until_end_literal(s, p) { Err(f) => Err(f), Ok((content, p)) =>
    Ok((DirectiveView::ObjectDxil { name, content }, p))
    }}
}

/// `OBJECT` or `LIB`: either arguments or a DXIL code block.
#[verifier::opaque]
pub open spec fn object(s: Script, p: int, is_object: bool) -> Outcome<DirectiveView> {
    match space_identifier(s, p) { Err(f) => Err(f), Ok((name, p)) =>
    either(object_args(s, p, name, is_object), object_dxil(s, p, name))
    }
}

/// `SOURCE`: the content comes with as many line feeds before it as the script has, so that line
/// numbers in it are those of the script.
#[verifier::opaque]
pub open spec fn source(s: Script, p: int) -> Outcome<DirectiveView> {
    match space_identifier(s, p) { Err(f) => Err(f), Ok((name, p)) =>
    match single_line_end(s, p) { Err(f) => Err(f), Ok((_, start)) =>
    match until_end_literal(s, start) { Err(f) => Err(f), Ok((content, p)) => {
    let lines = Seq::new(occurrences(s.text.take(start), '\n'), |i: int| '\n');
    Ok((DirectiveView::Source { name, content: lines + content }, p))
    }}}}
}

/// The name that is renamed, behind an equals sign.
#[verifier::opaque]
pub open spec fn rename(s: Script, p: int) -> Outcome<Seq<char>> {
    match literal(s, p, "="@) { Err(f) => Err(f), Ok((_, p)) =>
    string(s, p)
    }
}

/// An export, maybe under another name.
#[verifier::opaque]
pub open spec fn export(s: Script, p: int) -> Outcome<Export<Seq<char>>> {
    match space(s, p) { Err(f) => Err(f), Ok((_, p)) =>
    match string_no_equals(s, p) { Err(f) => Err(f), Ok((name, p)) =>
    match optional(rename(s, p), p) { Err(f) => Err(f), Ok((to_rename, p)) =>
    Ok((Export { name, to_rename }, p))
    }}}
}

/// As many exports as there are, put behind `found`.
pub open spec fn exports_from(s: Script, p: int, found: Seq<Export<Seq<char>>>) -> Outcome<
    Seq<Export<Seq<char>>>,
>
    decreases s.text.len() - p,
{
    match export(s, p) {
        Ok((e, end)) => if p < end && end <= s.text.len() {
            exports_from(s, end, found.push(e))
        } else {
            Ok((found, p))
        },
        Err(f) => if f.cut {
            Err(f)
        } else {
            Ok((found, p))
        },
    }
}

/// `EXPORTS` and at least one export.
#[verifier::opaque]
pub open spec fn exports(s: Script, p: int) -> Outcome<Seq<Export<Seq<char>>>> {
    match space(s, p) { Err(f) => Err(f), Ok((_, p)) =>
    match literal(s, p, "EXPORTS"@) { Err(f) => Err(f), Ok((_, p)) =>
    match export(s, p) { Err(f) => Err(f), Ok((first, p)) =>
    exports_from(s, p, Seq::empty().push(first))
    }}}
}

/// A library or collection in a pipeline state object.
#[verifier::opaque]
pub open spec fn pso_lib(s: Script, p: int) -> Outcome<LinkObjectView> {
    match space_identifier(s, p) { Err(f) => Err(f), Ok((name, p)) =>
    match optional(exports(s, p), p) { Err(f) => Err(f), Ok((list, p)) =>
    match line_end(s, p) { Err(f) => Err(f), Ok((_, p)) =>
    Ok((LinkObjectView {
        name,
        exports: match list {
            Some(list) => list,
            None => Seq::empty(),
        },
    }, p))
    }}}
}

/// A hit group in a pipeline state object.
#[verifier::opaque]
pub open spec fn pso_hit_group(s: Script, p: int) -> Outcome<HitGroup<Seq<char>>> {
    match space_identifier(s, p) { Err(f) => Err(f), Ok((name, p)) =>
    match space_identifier_or_none(s, p) { Err(f) => Err(f), Ok((any_hit, p)) =>
    match space_identifier_or_none(s, p) { Err(f) => Err(f), Ok((closest_hit, p)) =>
    match space_identifier_or_none(s, p) { Err(f) => Err(f), Ok((intersection, p)) =>
    match line_end(s, p) { Err(f) => Err(f), Ok((_, p)) =>
    Ok((HitGroup { name, any_hit, closest_hit, intersection }, p))
    }}}}}
}

/// What the lines of a pipeline state object have given so far.
pub struct PsoItemsView {
    pub libs: Seq<LinkObjectView>,
    pub collections: Seq<LinkObjectView>,
    pub hit_groups: Seq<HitGroup<Seq<char>>>,
    pub config: OnceView<u32>,
}

/// A line of a pipeline state object.
#[verifier::opaque]
pub open spec fn pso_item(s: Script, p: int, items: PsoItemsView) -> Outcome<PsoItemsView> {
    match identifier(s, p) { Err(f) => Err(f), Ok((id, p)) =>
    if id.content == "COLLECTION"@ {
        match in_statement(pso_lib(s, p), StatementFormat::PsoCollection, id.span) {
            Ok((lib, end)) => Ok(
                (PsoItemsView { collections: items.collections.push(lib), ..items }, end),
            ),
            Err(f) => Err(f),
        }
    } else if id.content == "LIB"@ {
        match in_statement(pso_lib(s, p), StatementFormat::PsoLib, id.span) {
            Ok((lib, end)) => Ok((PsoItemsView { libs: items.libs.push(lib), ..items }, end)),
            Err(f) => Err(f),
        }
    } else if id.content == "HIT_GROUP"@ {
        match in_statement(pso_hit_group(s, p), StatementFormat::PsoHitGroup, id.span) {
            Ok((group, end)) => Ok(
                (PsoItemsView { hit_groups: items.hit_groups.push(group), ..items }, end),
            ),
            Err(f) => Err(f),
        }
    } else if id.content == "CONFIG"@ {
        match cut(no_dup(items.config, id, flags(s, p, FlagKind::StateObject))) {
            Ok((config, end)) => Ok((PsoItemsView { config, ..items }, end)),
            Err(f) => Err(f),
        }
    } else {
        unknown(s, p)
    }}
}

/// The lines of a pipeline state object, as many as there are, after those that gave `items`.
pub open spec fn pso_items(s: Script, p: int, items: PsoItemsView) -> Outcome<PsoItemsView>
    decreases s.text.len() - p,
{
    match pso_item(s, p, items) {
        Ok((items, end)) => if p < end && end <= s.text.len() {
            pso_items(s, end, items)
        } else {
            Ok((items, p))
        },
        Err(f) => if f.cut {
            Err(f)
        } else {
            Ok((items, p))
        },
    }
}

/// The state object that is added to, behind `ADDTO`.
#[verifier::opaque]
pub open spec fn add_to(s: Script, p: int) -> Outcome<IdentifierView> {
    match keyword(s, p, "ADDTO"@) { Err(f) => Err(f), Ok((_, p)) =>
    identifier(s, p)
    }
}

/// `RTPSO` or `COLLECTION`.
#[verifier::opaque]
pub open spec fn pso(s: Script, p: int, typ: PipelineStateObjectType) -> Outcome<DirectiveView> {
    match space_identifier(s, p) { Err(f) => Err(f), Ok((name, p)) =>
    match optional(add_to(s, p), p) { Err(f) => Err(f), Ok((add_to, p)) =>
    match line_end(s, p) { Err(f) => Err(f), Ok((_, p)) => {
    let nothing = PsoItemsView {
        libs: Seq::empty(),
        collections: Seq::empty(),
        hit_groups: Seq::empty(),
        config: None,
    };
    match pso_items(s, p, nothing) { Err(f) => Err(f), Ok((items, p)) =>
    match end_line(s, p) { Err(f) => Err(f), Ok((_, p)) =>
    Ok((DirectiveView::PipelineStateObject {
        name,
        typ,
        add_to,
        libs: items.libs,
        collections: items.collections,
        hit_groups: items.hit_groups,
        config: set_bits(items.config),
    }, p))
    }}}}}}
}

} // verus!
