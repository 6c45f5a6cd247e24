//! What is asked of a workspace.

use vstd::prelude::*;

use crate::model::{Position, Range, SemanticToken};
use crate::spec::calls as sca;
use crate::spec::completion as sco;
use crate::spec::completion::{Context, Items};
use crate::spec::model as sm;
use crate::spec::model::Scope;
use crate::spec::order as sr;
use crate::spec::path as sh;
use crate::spec::query as sqy;
use crate::spec::scan as ss;
use crate::spec::text as st;
use crate::spec::text::Text;
use crate::spec::tokens as sto;
use crate::spec::tokens::Tokens;
use crate::spec::workspace as sw;
use crate::spec::workspace::Workspace;

verus! {

// ---------------------------------------------------------------------------
// New names
// ---------------------------------------------------------------------------

/// A renaming that succeeds changes exactly the places that the search for
/// references finds, each to the new name.
pub proof fn law_rename(ws: Workspace, path: Text, pos: Position, source: Text, new_name: Text)
    ensures
        sqy::rename(ws, path, pos, source, new_name) matches Ok(edits) ==> edits == sqy::edits(
            sqy::references(ws, path, pos, source),
            new_name,
        ),
{
}

/// A new name that is no name is refused as such and nothing else is; that
/// nothing is found to rename is said only where there are no references.
pub proof fn law_rename_refused(
    ws: Workspace,
    path: Text,
    pos: Position,
    source: Text,
    new_name: Text,
)
    ensures
        !st::is_fortran_name(new_name) <==> sqy::rename(ws, path, pos, source, new_name) == Err::<
            Seq<sm::TextEdit>,
            sm::RenameError,
        >(sm::RenameError::InvalidIdentifier),
        sqy::rename(ws, path, pos, source, new_name) == Err::<Seq<sm::TextEdit>, sm::RenameError>(
            sm::RenameError::UnresolvedSymbol,
        ) ==> sqy::references(ws, path, pos, source) == Seq::<sm::Location>::empty(),
{
}

// ---------------------------------------------------------------------------
// Highlights
// ---------------------------------------------------------------------------

/// Whether one of the places from `i` on is the stretch `r` of the file `path`.
pub open spec fn lies_from(list: Seq<sm::Location>, path: Text, i: int, r: Range) -> bool {
    exists|k: int| i <= k < list.len() && is_place(#[trigger] list[k], path, r)
}

/// Whether a place is the stretch `r` of the file `path`.
pub open spec fn is_place(place: sm::Location, path: Text, r: Range) -> bool {
    sh::same_path(place.file, path) && place.range == r
}

proof fn lemma_highlights(list: Seq<sm::Location>, path: Text, i: int, out: Seq<Range>, r: Range)
    requires
        0 <= i,
    ensures
        sqy::highlights_from(list, path, i, out).contains(r) <==> out.contains(r) || lies_from(
            list,
            path,
            i,
            r,
        ),
    decreases list.len() - i,
{
    if i < list.len() {
        let next = if sh::same_path(list[i].file, path) {
            out.push(list[i].range)
        } else {
            out
        };
        lemma_highlights(list, path, i + 1, next, r);
        let here = is_place(list[i], path, r);
        if out.contains(r) {
            let k = choose|k: int| 0 <= k < out.len() && out[k] == r;
            assert(next[k] == r);
        }
        if here {
            assert(next[out.len() as int] == r);
            assert(lies_from(list, path, i, r));
        }
        if next.contains(r) && !out.contains(r) {
            let k = choose|k: int| 0 <= k < next.len() && next[k] == r;
            if k < out.len() {
                assert(out[k] == r);
            }
            assert(here);
        }
        if lies_from(list, path, i, r) && !here {
            let k = choose|k: int| i <= k < list.len() && is_place(#[trigger] list[k], path, r);
            assert(i + 1 <= k < list.len() && is_place(list[k], path, r));
        }
        if lies_from(list, path, i + 1, r) {
            let k = choose|k: int|
                i + 1 <= k < list.len() && is_place(#[trigger] list[k], path, r);
            assert(i <= k < list.len() && is_place(list[k], path, r));
        }
    }
}

/// What is highlighted in a document are the references that lie in it, and no
/// others.
pub proof fn law_highlights(ws: Workspace, path: Text, pos: Position, source: Text, r: Range)
    ensures
        sqy::highlights(ws, path, pos, source).contains(r) <==> lies_from(
            sqy::references(ws, path, pos, source),
            path,
            0,
            r,
        ),
{
    lemma_highlights(sqy::references(ws, path, pos, source), path, 0, Seq::empty(), r);
}

// ---------------------------------------------------------------------------
// Completions
// ---------------------------------------------------------------------------

/// Whether all labels start with a prefix, case aside.
pub open spec fn all_start(items: Items, prefix: Text) -> bool {
    forall|i: int| 0 <= i < items.len() ==> sco::starts((#[trigger] items[i]).label, prefix)
}

proof fn lemma_symbol_items(
    ws: Workspace,
    f: int,
    scope: Scope,
    c: Context,
    prefix: Text,
    g: int,
    k: int,
    out: Items,
)
    requires
        all_start(out, prefix),
    ensures
        all_start(sco::symbol_items(ws, f, scope, c, prefix, g, k, out), prefix),
    decreases ws.index.files[g].symbols.len() - k,
{
    let symbols = ws.index.files[g].symbols;
    if k < symbols.len() {
        let next = if sco::starts(symbols[k].name, prefix) && sco::can_stand(
            ws,
            f,
            scope,
            c,
            (g, k),
        ) {
            out.push(sco::item(symbols[k].name, symbols[k]))
        } else {
            out
        };
        lemma_symbol_items(ws, f, scope, c, prefix, g, k + 1, next);
    }
}

proof fn lemma_file_items(
    ws: Workspace,
    f: int,
    scope: Scope,
    c: Context,
    prefix: Text,
    g: int,
    out: Items,
)
    requires
        all_start(out, prefix),
    ensures
        all_start(sco::file_items(ws, f, scope, c, prefix, g, out), prefix),
    decreases ws.index.files.len() - g,
{
    if g < ws.index.files.len() {
        lemma_symbol_items(ws, f, scope, c, prefix, g, 0, out);
        lemma_file_items(
            ws,
            f,
            scope,
            c,
            prefix,
            g + 1,
            sco::symbol_items(ws, f, scope, c, prefix, g, 0, out),
        );
    }
}

proof fn lemma_rename_items(
    ws: Workspace,
    f: int,
    scope: Scope,
    c: Context,
    prefix: Text,
    u: sm::UseStmt,
    j: int,
    out: Items,
)
    requires
        all_start(out, prefix),
    ensures
        all_start(sco::rename_items(ws, f, scope, c, prefix, u, j, out), prefix),
    decreases u.renames.len() - j,
{
    if j < u.renames.len() {
        let local = u.renames[j].local;
        lemma_rename_items(ws, f, scope, c, prefix, u, j + 1, out);
        if sco::starts(local, prefix) {
            assert forall|s: sm::Symbol| all_start(
                out.push(#[trigger] sco::item(local, s)),
                prefix,
            ) by {}
            match crate::spec::resolve::lookup(
                ws,
                f,
                if c is Whole {
                    u.scope
                } else {
                    scope
                },
                local,
            ) {
                Some(r) => {
                    lemma_rename_items(
                        ws,
                        f,
                        scope,
                        c,
                        prefix,
                        u,
                        j + 1,
                        out.push(sco::item(local, crate::spec::bindings::symbol(ws, r))),
                    );
                },
                None => {},
            }
        }
    }
}

proof fn lemma_named_items(
    table: Seq<crate::spec::intrinsics::IntrinsicSymbol>,
    c: Context,
    prefix: Text,
    module: Text,
    names: Seq<(Text, Text)>,
    j: int,
    out: Items,
)
    requires
        all_start(out, prefix),
    ensures
        all_start(sco::named_items(table, c, prefix, module, names, j, out), prefix),
    decreases names.len() - j,
{
    if j < names.len() {
        let next = match sco::member_from(table, module, names[j].1, 0) {
            Some(k) => if sco::intrinsic_fits(c, table[k]) {
                sco::offer(out, prefix, sco::intrinsic_item(names[j].0, table[k]))
            } else {
                out
            },
            None => out,
        };
        lemma_named_items(table, c, prefix, module, names, j + 1, next);
    }
}

proof fn lemma_member_items(
    table: Seq<crate::spec::intrinsics::IntrinsicSymbol>,
    c: Context,
    fits: bool,
    prefix: Text,
    module: Text,
    i: int,
    out: Items,
)
    requires
        all_start(out, prefix),
    ensures
        all_start(sco::member_items(table, c, fits, prefix, module, i, out), prefix),
    decreases table.len() - i,
{
    if i < table.len() {
        lemma_member_items(table, c, fits, prefix, module, i + 1, out);
        lemma_member_items(
            table,
            c,
            fits,
            prefix,
            module,
            i + 1,
            sco::offer(out, prefix, sco::intrinsic_item(table[i].name, table[i])),
        );
    }
}

proof fn lemma_uses_items(
    ws: Workspace,
    f: int,
    scope: Scope,
    c: Context,
    prefix: Text,
    i: int,
    out: Items,
)
    requires
        all_start(out, prefix),
    ensures
        all_start(sco::uses_items(ws, f, scope, c, prefix, i, out), prefix),
    decreases ws.index.files[f].uses.len() - i,
{
    let uses = ws.index.files[f].uses;
    if i < uses.len() {
        let u = uses[i];
        lemma_rename_items(ws, f, scope, c, prefix, u, 0, out);
        let names = crate::spec::checks::named_items(u);
        lemma_named_items(ws.index.intrinsics, c, prefix, u.module, names, 0, out);
        lemma_member_items(
            ws.index.intrinsics,
            c,
            true,
            prefix,
            u.module,
            0,
            sco::named_items(ws.index.intrinsics, c, prefix, u.module, names, 0, out),
        );
        lemma_uses_items(
            ws,
            f,
            scope,
            c,
            prefix,
            i + 1,
            sco::use_items(ws, f, scope, c, prefix, u, out),
        );
    }
}

proof fn lemma_intrinsic_items(
    table: Seq<crate::spec::intrinsics::IntrinsicSymbol>,
    c: Context,
    prefix: Text,
    i: int,
    out: Items,
)
    requires
        all_start(out, prefix),
    ensures
        all_start(sco::intrinsic_items(table, c, prefix, i, out), prefix),
    decreases table.len() - i,
{
    if i < table.len() {
        lemma_intrinsic_items(table, c, prefix, i + 1, out);
        lemma_intrinsic_items(
            table,
            c,
            prefix,
            i + 1,
            sco::offer(out, prefix, sco::intrinsic_item(table[i].name, table[i])),
        );
    }
}

proof fn lemma_macro_items(macros: Seq<(Text, Text)>, prefix: Text, i: int, out: Items)
    requires
        all_start(out, prefix),
    ensures
        all_start(sco::macro_items(macros, prefix, i, out), prefix),
    decreases macros.len() - i,
{
    if i < macros.len() {
        lemma_macro_items(
            macros,
            prefix,
            i + 1,
            sco::offer(out, prefix, sco::macro_item(macros[i].0, macros[i].1)),
        );
    }
}

proof fn lemma_word_items(words: Seq<Text>, prefix: Text, i: int, out: Items)
    requires
        all_start(out, prefix),
    ensures
        all_start(sco::word_items(words, prefix, i, out), prefix),
    decreases words.len() - i,
{
    if i < words.len() {
        lemma_word_items(
            words,
            prefix,
            i + 1,
            sco::offer(out, prefix, sco::word_item(words[i])),
        );
    }
}

proof fn lemma_words(list: Text, prefix: Text, out: Items)
    requires
        all_start(out, prefix),
    ensures
        all_start(sco::words(list, prefix, out), prefix),
{
    lemma_word_items(st::split_char(list, ' '), prefix, 0, out);
}

proof fn lemma_part_items(
    symbols: Seq<sm::Symbol>,
    t: sm::Symbol,
    prefix: Text,
    k: int,
    out: Items,
)
    requires
        all_start(out, prefix),
    ensures
        all_start(sco::part_items(symbols, t, prefix, k, out), prefix),
    decreases symbols.len() - k,
{
    if k < symbols.len() {
        lemma_part_items(symbols, t, prefix, k + 1, out);
        lemma_part_items(
            symbols,
            t,
            prefix,
            k + 1,
            sco::offer_once(out, prefix, sco::item(symbols[k].name, symbols[k])),
        );
    }
}

proof fn lemma_generic_items(
    list: Seq<sm::GenericBinding>,
    t: sm::Symbol,
    prefix: Text,
    k: int,
    out: Items,
)
    requires
        all_start(out, prefix),
    ensures
        all_start(sco::generic_items(list, t, prefix, k, out), prefix),
    decreases list.len() - k,
{
    if k < list.len() {
        lemma_generic_items(list, t, prefix, k + 1, out);
        lemma_generic_items(
            list,
            t,
            prefix,
            k + 1,
            sco::offer_once(out, prefix, sco::generic_item(list[k])),
        );
    }
}

proof fn lemma_type_items(
    ws: Workspace,
    types: Seq<crate::spec::resolve::Ref>,
    prefix: Text,
    i: int,
    out: Items,
)
    requires
        all_start(out, prefix),
    ensures
        all_start(sco::type_items(ws, types, prefix, i, out), prefix),
    decreases types.len() - i,
{
    if i < types.len() {
        let p = ws.index.files[types[i].0];
        let t = crate::spec::bindings::symbol(ws, types[i]);
        let parts = sco::part_items(p.symbols, t, prefix, 0, out);
        lemma_part_items(p.symbols, t, prefix, 0, out);
        lemma_generic_items(p.generic_bindings, t, prefix, 0, parts);
        lemma_type_items(
            ws,
            types,
            prefix,
            i + 1,
            sco::generic_items(p.generic_bindings, t, prefix, 0, parts),
        );
    }
}

proof fn lemma_items(ws: Workspace, f: int, scope: Scope, c: Context, prefix: Text)
    ensures
        all_start(sco::items(ws, f, scope, c, prefix), prefix),
{
    let none: Items = Seq::empty();
    match c {
        Context::Nothing => {},
        Context::Component(name) => {
            if let Some(r) = sco::type_of(ws, f, scope, name) {
                lemma_type_items(ws, crate::spec::bindings::chain(ws, r), prefix, 0, none);
            }
        },
        Context::Attributes => {
            lemma_words(sco::component_attributes(), prefix, none);
            lemma_words(sco::common_attributes(), prefix, none);
            lemma_words(
                sco::argument_attributes(),
                prefix,
                sco::words(sco::common_attributes(), prefix, none),
            );
        },
        _ => {
            let symbols = sco::file_items(ws, f, scope, c, prefix, 0, none);
            lemma_file_items(ws, f, scope, c, prefix, 0, none);
            let used = sco::uses_items(ws, f, scope, c, prefix, 0, symbols);
            lemma_uses_items(ws, f, scope, c, prefix, 0, symbols);
            let members = match c {
                Context::Members(module) => sco::member_items(
                    ws.index.intrinsics,
                    c,
                    false,
                    prefix,
                    module,
                    0,
                    used,
                ),
                _ => used,
            };
            if let Context::Members(module) = c {
                lemma_member_items(ws.index.intrinsics, c, false, prefix, module, 0, used);
            }
            let definitions = ws.index.files[f].preprocessor_definitions;
            let macros = if sco::takes_macros(c) {
                sco::macro_items(definitions, prefix, 0, members)
            } else {
                members
            };
            lemma_macro_items(definitions, prefix, 0, members);
            lemma_intrinsic_items(ws.index.intrinsics, c, prefix, 0, macros);
            lemma_words(
                sco::statement_words(),
                prefix,
                sco::intrinsic_items(ws.index.intrinsics, c, prefix, 0, macros),
            );
        },
    }
}

/// Everything that is offered to complete a name starts with what is typed of
/// it, case aside.
pub proof fn law_completions_start(ws: Workspace, path: Text, pos: Position, prefix: Text)
    ensures
        all_start(sco::completions_at(ws, path, pos, prefix), prefix),
        all_start(sco::completions(ws, path, prefix), prefix),
{
    if let Some(f) = sw::find_file(ws, path) {
        let p = ws.index.files[f];
        lemma_items(
            ws,
            f,
            sco::scope_at(p.symbols, pos),
            sco::context(sco::before_cursor(p.source, pos)),
            prefix,
        );
        lemma_items(ws, f, Seq::empty(), Context::Whole, prefix);
    }
}

// ---------------------------------------------------------------------------
// Hints
// ---------------------------------------------------------------------------

/// Whether all hints stand on the lines from `first` to `last`.
pub open spec fn all_between(hints: Seq<sm::InlayHint>, first: int, last: int) -> bool {
    forall|i: int|
        0 <= i < hints.len() ==> first <= (#[trigger] hints[i]).position.line <= last
}

proof fn lemma_hints(
    line: Text,
    number: usize,
    call: sca::Call,
    c: sqy::Callee,
    j: int,
    out: Seq<sm::InlayHint>,
    first: int,
    last: int,
)
    requires
        all_between(out, first, last),
        first <= number <= last,
    ensures
        all_between(sca::hints_from(line, number, call, c, j, out), first, last),
    decreases call.args.len() - j,
{
    if j < call.args.len() && j < call.starts.len() && j < c.args.len() && sca::keyword(
        call.args[j],
    ) is None {
        lemma_hints(
            line,
            number,
            call,
            c,
            j + 1,
            out.push(sca::hint(line, number, call, c, j)),
            first,
            last,
        );
    }
}

proof fn lemma_line_hints(
    ws: Workspace,
    f: int,
    line: Text,
    number: usize,
    calls: Seq<sca::Call>,
    j: int,
    out: Seq<sm::InlayHint>,
    first: int,
    last: int,
)
    requires
        all_between(out, first, last),
        first <= number <= last,
        0 <= j,
    ensures
        all_between(sca::line_hints(ws, f, line, number, calls, j, out), first, last),
    decreases calls.len() - j,
{
    if j < calls.len() {
        let call = calls[j];
        let scope = sco::scope_at(
            ws.index.files[f].symbols,
            sca::call_range(line, number, call).start,
        );
        let list = sqy::callees(ws, f, scope, call.receiver, call.name);
        let fit = sca::accepting(list, call.args);
        if fit.len() == 1 {
            lemma_hints(line, number, call, list[fit[0]], 0, out, first, last);
        }
        lemma_line_hints(
            ws,
            f,
            line,
            number,
            calls,
            j + 1,
            sca::call_hints(ws, f, line, number, call, out),
            first,
            last,
        );
    }
}

proof fn lemma_hint_lines(
    ws: Workspace,
    f: int,
    lines: Seq<Text>,
    fixed: bool,
    n: int,
    last: usize,
    out: Seq<sm::InlayHint>,
    first: int,
)
    requires
        all_between(out, first, last as int),
        0 <= first <= n,
    ensures
        all_between(
            sca::hint_lines(ws, f, lines, fixed, n, last as int, out),
            first,
            last as int,
        ),
    decreases lines.len() - n,
{
    if n < lines.len() && n <= last {
        let calls = sca::calls_on(ws, f, lines, fixed, n);
        lemma_line_hints(ws, f, lines[n], n as usize, calls, 0, out, first, last as int);
        lemma_hint_lines(
            ws,
            f,
            lines,
            fixed,
            n + 1,
            last,
            sca::line_hints(ws, f, lines[n], n as usize, calls, 0, out),
            first,
        );
    }
}

/// All hints stand on the lines that were asked for.
pub proof fn law_hints_between(ws: Workspace, path: Text, first: usize, last: usize)
    ensures
        all_between(sca::inlay_hints(ws, path, first, last), first as int, last as int),
{
    if let Some(f) = sw::find_file(ws, path) {
        let p = ws.index.files[f];
        lemma_hint_lines(
            ws,
            f,
            st::lines(p.source),
            crate::spec::path::is_fixed_form_path(p.path),
            first as int,
            last,
            Seq::empty(),
            first as int,
        );
    }
}

// ---------------------------------------------------------------------------
// Semantic tokens
// ---------------------------------------------------------------------------

/// Whether every token starts behind the one before it.
pub open spec fn is_ascending(list: Tokens) -> bool {
    forall|i: int, j: int|
        0 <= i < j < list.len() ==> sm::not_after(
            (#[trigger] list[i]).range.start,
            (#[trigger] list[j]).range.start,
        ) && list[i].range.start != list[j].range.start
}

proof fn lemma_distinct(list: Tokens, i: int, out: Tokens)
    requires
        0 <= i <= list.len(),
        sr::is_sorted(list, sto::token_order()),
        is_ascending(out),
        forall|k: int, j: int|
            0 <= k < out.len() && i <= j < list.len() ==> sm::not_after(
                (#[trigger] out[k]).range.start,
                (#[trigger] list[j]).range.start,
            ),
    ensures
        is_ascending(sto::distinct_from(list, i, out)),
    decreases list.len() - i,
{
    if i < list.len() {
        let same = out.len() > 0 && out.last().range.start == list[i].range.start;
        let next = if same {
            out
        } else {
            out.push(list[i])
        };
        let order = sto::token_order();
        assert forall|j: int| i < j < list.len() implies sm::not_after(
            list[i].range.start,
            (#[trigger] list[j]).range.start,
        ) by {
            assert(order(list[i], list[j]));
        }
        if !same {
            assert forall|a: int, b: int| 0 <= a < b < next.len() implies sm::not_after(
                (#[trigger] next[a]).range.start,
                (#[trigger] next[b]).range.start,
            ) && next[a].range.start != next[b].range.start by {
                if b == out.len() {
                    assert(sm::not_after(out[a].range.start, list[i].range.start));
                    if a < out.len() - 1 {
                        assert(sm::not_after(out[a].range.start, out.last().range.start));
                        assert(out[a].range.start != out.last().range.start);
                        assert(sm::not_after(out.last().range.start, list[i].range.start));
                    }
                }
            }
        }
        lemma_distinct(list, i + 1, next);
    }
}

/// The tokens of a file come in order, and no two start at the same place.
pub proof fn law_tokens_ascend(ws: Workspace, path: Text)
    ensures
        is_ascending(sto::semantic_tokens(ws, path)),
{
    if let Some(f) = sw::find_file(ws, path) {
        let p = ws.index.files[f];
        let all = sto::macros_from(p, 0, sto::symbols_from(p.symbols, 0, Seq::empty()));
        assert(sr::is_order(sto::token_order()));
        sr::law_sorted(all, sto::token_order());
        lemma_distinct(sr::sorted(all, sto::token_order()), 0, Seq::empty());
    }
}

/// A token as its place, its length and its class.
#[verifier::ext_equal]
pub struct Mark {
    pub line: int,
    pub character: int,
    pub length: int,
    pub token_type: u32,
}

/// The tokens that the numbers from `i` on stand for, each counted from the one
/// before it, behind `out`.
pub open spec fn decoded_from(
    data: Seq<u32>,
    i: int,
    line: int,
    character: int,
    out: Seq<Mark>,
) -> Seq<Mark>
    decreases data.len() - i,
{
    if i + 5 > data.len() {
        out
    } else {
        let next_line = line + data[i];
        let next_character = if data[i] == 0 {
            character + data[i + 1]
        } else {
            data[i + 1] as int
        };
        decoded_from(
            data,
            i + 5,
            next_line,
            next_character,
            out.push(
                Mark {
                    line: next_line,
                    character: next_character,
                    length: data[i + 2] as int,
                    token_type: data[i + 3],
                },
            ),
        )
    }
}

/// Whether the place and the length of a token are numbers that fit.
pub open spec fn fits(t: SemanticToken) -> bool {
    &&& t.range.start.line <= u32::MAX
    &&& t.range.start.character <= u32::MAX
    &&& t.range.start.character <= t.range.end.character <= u32::MAX
}

pub open spec fn mark(t: SemanticToken) -> Mark {
    Mark {
        line: t.range.start.line as int,
        character: t.range.start.character as int,
        length: t.range.end.character - t.range.start.character,
        token_type: t.token_type,
    }
}

proof fn lemma_data_grows(list: Tokens, i: int, before: Position, out: Seq<u32>)
    requires
        0 <= i <= list.len(),
    ensures
        sto::data_from(list, i, before, out).len() == out.len() + 5 * (list.len() - i),
        out.is_prefix_of(sto::data_from(list, i, before, out)),
    decreases list.len() - i,
{
    if i < list.len() {
        let t = list[i];
        let next = out.push(sto::narrow(t.range.start.line - before.line)).push(
            sto::narrow(sto::column(t, before)),
        ).push(sto::narrow(t.range.end.character - t.range.start.character)).push(
            t.token_type,
        ).push(0);
        lemma_data_grows(list, i + 1, t.range.start, next);
        let all = sto::data_from(list, i, before, out);
        assert forall|k: int| 0 <= k < out.len() implies all[k] == out[k] by {
            assert(next[k] == out[k]);
        }
    }
}

proof fn lemma_decoded(
    list: Tokens,
    i: int,
    before: Position,
    out: Seq<u32>,
    marks: Seq<Mark>,
)
    requires
        0 <= i <= list.len(),
        is_ascending(list),
        forall|k: int| 0 <= k < list.len() ==> fits(#[trigger] list[k]),
        i < list.len() ==> sm::not_after(before, list[i].range.start),
    ensures
        decoded_from(
            sto::data_from(list, i, before, out),
            out.len() as int,
            before.line as int,
            before.character as int,
            marks,
        ) == marks + list.skip(i).map_values(|t: SemanticToken| mark(t)),
    decreases list.len() - i,
{
    lemma_data_grows(list, i, before, out);
    if i < list.len() {
        let t = list[i];
        let next = out.push(sto::narrow(t.range.start.line - before.line)).push(
            sto::narrow(sto::column(t, before)),
        ).push(sto::narrow(t.range.end.character - t.range.start.character)).push(
            t.token_type,
        ).push(0);
        let all = sto::data_from(list, i, before, out);
        lemma_data_grows(list, i + 1, t.range.start, next);
        assert(fits(t));
        let n = out.len() as int;
        assert(all[n] == next[n]);
        assert(all[n + 1] == next[n + 1]);
        assert(all[n + 2] == next[n + 2]);
        assert(all[n + 3] == next[n + 3]);
        if i + 1 < list.len() {
            assert(sm::not_after(list[i].range.start, list[i + 1].range.start));
        }
        lemma_decoded(list, i + 1, t.range.start, next, marks.push(mark(t)));
        assert(marks + list.skip(i).map_values(|t: SemanticToken| mark(t)) =~= marks.push(mark(t))
            + list.skip(i + 1).map_values(|t: SemanticToken| mark(t)));
    } else {
        assert(marks + list.skip(i).map_values(|t: SemanticToken| mark(t)) =~= marks);
    }
}

/// The numbers that are sent for the tokens of a file are five for each token,
/// and they give back the place, the length and the class of every one.
pub proof fn law_token_data(ws: Workspace, path: Text)
    requires
        forall|k: int|
            0 <= k < sto::semantic_tokens(ws, path).len() ==> fits(
                #[trigger] sto::semantic_tokens(ws, path)[k],
            ),
    ensures
        sto::semantic_token_data(ws, path).len() == 5 * sto::semantic_tokens(ws, path).len(),
        decoded_from(sto::semantic_token_data(ws, path), 0, 0, 0, Seq::empty())
            == sto::semantic_tokens(ws, path).map_values(|t: SemanticToken| mark(t)),
{
    let list = sto::semantic_tokens(ws, path);
    let start = Position { line: 0, character: 0 };
    law_tokens_ascend(ws, path);
    lemma_data_grows(list, 0, start, Seq::empty());
    lemma_decoded(list, 0, start, Seq::empty(), Seq::empty());
    assert(list.skip(0) =~= list);
    assert(Seq::<Mark>::empty() + list.map_values(|t: SemanticToken| mark(t)) =~= list.map_values(
        |t: SemanticToken| mark(t),
    ));
}

// ---------------------------------------------------------------------------
// Calls
// ---------------------------------------------------------------------------

/// Whether what has its parenthesis at index `i` of a line is a type, or starts
/// a statement.
pub open spec fn is_no_call_at(code: Text, i: int, first: bool) -> bool {
    let before = st::trim_end(code.take(i));
    let start = st::name_begin(before, before.len() as int);
    ss::matching_paren_index(code, i) matches Some(close) && sca::is_no_call(
        before.take(start),
        before.skip(start),
        sca::arguments(code.subrange(i + 1, close)),
        code.skip(close + 1),
        first,
    )
}

/// Whether none of the calls of a line is a type or starts a statement.
pub open spec fn all_calls(calls: Seq<sca::Call>, code: Text, first: bool) -> bool {
    forall|k: int| 0 <= k < calls.len() ==> !is_no_call_at(code, (#[trigger] calls[k]).open, first)
}

proof fn lemma_calls(
    code: Text,
    first: bool,
    i: int,
    q: ss::Quotes,
    out: Seq<sca::Call>,
)
    requires
        0 <= i,
        all_calls(out, code, first),
    ensures
        all_calls(sca::calls_from(code, first, i, q, out), code, first),
    decreases code.len() - i,
{
    if i < code.len() {
        let next = if code[i] == '(' && !ss::quoted(q) {
            match sca::call_at(code, i, first) {
                Some(call) => out.push(call),
                None => out,
            }
        } else {
            out
        };
        lemma_calls(code, first, i + 1, ss::quote_step(q, code[i]), next);
    }
}

/// Neither the type of a declaration nor what a statement starts with is a
/// call.
pub proof fn law_types_are_no_calls(line: Text, fixed: bool, first: bool)
    ensures
        all_calls(
            sca::line_calls(line, fixed, first),
            ss::strip_inline_comment(line),
            first,
        ),
{
    lemma_calls(ss::strip_inline_comment(line), first, 0, ss::unquoted(), Seq::empty());
}

/// Whether a diagnostic is that of one of the calls from `j` on.
pub open spec fn is_of_call(
    ws: Workspace,
    f: int,
    line: Text,
    number: usize,
    calls: Seq<sca::Call>,
    j: int,
    d: sm::Diagnostic,
) -> bool {
    exists|k: int|
        j <= k < calls.len() && sca::call_diagnostic(ws, f, line, number, #[trigger] calls[k])
            == Some(d)
}

/// The diagnostics for the calls of a line are those that were there, and each
/// other one is for one of the calls: a type, which is no call, gets none.
pub proof fn law_call_diagnostics(
    ws: Workspace,
    f: int,
    line: Text,
    number: usize,
    calls: Seq<sca::Call>,
    j: int,
    out: Seq<sm::Diagnostic>,
    d: sm::Diagnostic,
)
    requires
        0 <= j,
    ensures
        sca::line_from(ws, f, line, number, calls, j, out).contains(d) <==> out.contains(d)
            || is_of_call(ws, f, line, number, calls, j, d),
    decreases calls.len() - j,
{
    if j < calls.len() {
        let here = sca::call_diagnostic(ws, f, line, number, calls[j]);
        let next = match here {
            Some(x) => out.push(x),
            None => out,
        };
        law_call_diagnostics(ws, f, line, number, calls, j + 1, next, d);
        if out.contains(d) {
            let k = choose|k: int| 0 <= k < out.len() && out[k] == d;
            assert(next[k] == d);
        }
        if here == Some(d) {
            assert(next[out.len() as int] == d);
            assert(sca::call_diagnostic(ws, f, line, number, calls[j]) == Some(d));
        }
        if next.contains(d) && !out.contains(d) {
            let k = choose|k: int| 0 <= k < next.len() && next[k] == d;
            if k < out.len() {
                assert(out[k] == d);
            }
            assert(here == Some(d));
        }
        if is_of_call(ws, f, line, number, calls, j, d) && here != Some(d) {
            let k = choose|k: int|
                j <= k < calls.len() && sca::call_diagnostic(
                    ws,
                    f,
                    line,
                    number,
                    #[trigger] calls[k],
                ) == Some(d);
            assert(j + 1 <= k && sca::call_diagnostic(ws, f, line, number, calls[k]) == Some(d));
        }
        if is_of_call(ws, f, line, number, calls, j + 1, d) {
            let k = choose|k: int|
                j + 1 <= k < calls.len() && sca::call_diagnostic(
                    ws,
                    f,
                    line,
                    number,
                    #[trigger] calls[k],
                ) == Some(d);
            assert(j <= k && sca::call_diagnostic(ws, f, line, number, calls[k]) == Some(d));
        }
    }
}

/// Whether a diagnostic is that of a call on one of the lines from `n` on.
pub open spec fn is_on_line(
    ws: Workspace,
    f: int,
    lines: Seq<Text>,
    fixed: bool,
    n: int,
    d: sm::Diagnostic,
) -> bool {
    exists|m: int| n <= m < lines.len() && #[trigger] is_of_line(ws, f, lines, fixed, m, d)
}

/// Whether a diagnostic is that of a call on the line `n`.
pub open spec fn is_of_line(
    ws: Workspace,
    f: int,
    lines: Seq<Text>,
    fixed: bool,
    n: int,
    d: sm::Diagnostic,
) -> bool {
    is_of_call(ws, f, lines[n], n as usize, sca::calls_on(ws, f, lines, fixed, n), 0, d)
}

proof fn lemma_on_line(
    ws: Workspace,
    f: int,
    lines: Seq<Text>,
    fixed: bool,
    n: int,
    d: sm::Diagnostic,
)
    requires
        0 <= n < lines.len(),
    ensures
        is_on_line(ws, f, lines, fixed, n, d) <==> is_of_line(ws, f, lines, fixed, n, d)
            || is_on_line(ws, f, lines, fixed, n + 1, d),
{
    let here = is_of_line(ws, f, lines, fixed, n, d);
    if is_on_line(ws, f, lines, fixed, n + 1, d) {
        let m = choose|m: int|
            n + 1 <= m < lines.len() && #[trigger] is_of_line(ws, f, lines, fixed, m, d);
        assert(n <= m && is_of_line(ws, f, lines, fixed, m, d));
    }
    if is_on_line(ws, f, lines, fixed, n, d) && !here {
        let m = choose|m: int|
            n <= m < lines.len() && #[trigger] is_of_line(ws, f, lines, fixed, m, d);
        assert(n + 1 <= m && is_of_line(ws, f, lines, fixed, m, d));
    }
}

proof fn lemma_one_line(
    ws: Workspace,
    f: int,
    lines: Seq<Text>,
    fixed: bool,
    n: int,
    out: Seq<sm::Diagnostic>,
    d: sm::Diagnostic,
) -> (next: Seq<sm::Diagnostic>)
    requires
        0 <= n < lines.len(),
    ensures
        sca::lines_from(ws, f, lines, fixed, n, out) == sca::lines_from(
            ws,
            f,
            lines,
            fixed,
            n + 1,
            next,
        ),
        next.contains(d) <==> out.contains(d) || is_of_line(ws, f, lines, fixed, n, d),
{
    let calls = sca::calls_on(ws, f, lines, fixed, n);
    law_call_diagnostics(ws, f, lines[n], n as usize, calls, 0, out, d);
    sca::line_from(ws, f, lines[n], n as usize, calls, 0, out)
}

#[verifier::opaque]
spec fn is_reported(
    ws: Workspace,
    f: int,
    lines: Seq<Text>,
    fixed: bool,
    n: int,
    out: Seq<sm::Diagnostic>,
    d: sm::Diagnostic,
) -> bool {
    sca::lines_from(ws, f, lines, fixed, n, out).contains(d) <==> out.contains(d) || is_on_line(
        ws,
        f,
        lines,
        fixed,
        n,
        d,
    )
}

proof fn lemma_reported_step(
    ws: Workspace,
    f: int,
    lines: Seq<Text>,
    fixed: bool,
    n: int,
    out: Seq<sm::Diagnostic>,
    next: Seq<sm::Diagnostic>,
    d: sm::Diagnostic,
)
    requires
        0 <= n < lines.len(),
        sca::lines_from(ws, f, lines, fixed, n, out) == sca::lines_from(
            ws,
            f,
            lines,
            fixed,
            n + 1,
            next,
        ),
        next.contains(d) <==> out.contains(d) || is_of_line(ws, f, lines, fixed, n, d),
        is_reported(ws, f, lines, fixed, n + 1, next, d),
    ensures
        is_reported(ws, f, lines, fixed, n, out, d),
{
    reveal(is_reported);
    lemma_on_line(ws, f, lines, fixed, n, d);
}

proof fn lemma_file_calls(
    ws: Workspace,
    f: int,
    lines: Seq<Text>,
    fixed: bool,
    n: int,
    out: Seq<sm::Diagnostic>,
    d: sm::Diagnostic,
)
    requires
        0 <= n,
    ensures
        is_reported(ws, f, lines, fixed, n, out, d),
    decreases lines.len() - n,
{
    if n < lines.len() {
        let next = lemma_one_line(ws, f, lines, fixed, n, out, d);
        lemma_file_calls(ws, f, lines, fixed, n + 1, next, d);
        lemma_reported_step(ws, f, lines, fixed, n, out, next, d);
    } else {
        reveal(is_reported);
    }
}

/// The diagnostics for the calls of a file are those for the calls on its
/// lines, and no others.
pub proof fn law_file_calls(
    ws: Workspace,
    f: int,
    out: Seq<sm::Diagnostic>,
    d: sm::Diagnostic,
)
    ensures
        sca::call_diagnostics(ws, f, out).contains(d) <==> out.contains(d) || is_on_line(
            ws,
            f,
            st::lines(ws.index.files[f].source),
            sh::is_fixed_form_path(ws.index.files[f].path),
            0,
            d,
        ),
{
    let p = ws.index.files[f];
    reveal(is_reported);
    lemma_file_calls(ws, f, st::lines(p.source), sh::is_fixed_form_path(p.path), 0, out, d);
}

/// Whether a hint is one for an argument of one of the calls.
pub open spec fn is_hint_of(
    line: Text,
    number: usize,
    calls: Seq<sca::Call>,
    h: sm::InlayHint,
) -> bool {
    exists|k: int, c: sqy::Callee, a: int|
        0 <= k < calls.len() && h == #[trigger] sca::hint(line, number, calls[k], c, a)
}

/// Whether all hints from `n` on are for arguments of the calls.
pub open spec fn are_hints_of(
    line: Text,
    number: usize,
    calls: Seq<sca::Call>,
    n: int,
    hints: Seq<sm::InlayHint>,
) -> bool {
    forall|i: int| n <= i < hints.len() ==> is_hint_of(line, number, calls, #[trigger] hints[i])
}

proof fn lemma_call_hints(
    line: Text,
    number: usize,
    calls: Seq<sca::Call>,
    k: int,
    c: sqy::Callee,
    a: int,
    n: int,
    out: Seq<sm::InlayHint>,
)
    requires
        0 <= k < calls.len(),
        0 <= n <= out.len(),
        are_hints_of(line, number, calls, n, out),
    ensures
        are_hints_of(line, number, calls, n, sca::hints_from(line, number, calls[k], c, a, out)),
        out.len() <= sca::hints_from(line, number, calls[k], c, a, out).len(),
    decreases calls[k].args.len() - a,
{
    let call = calls[k];
    if a < call.args.len() && a < call.starts.len() && a < c.args.len() && sca::keyword(
        call.args[a],
    ) is None {
        let h = sca::hint(line, number, calls[k], c, a);
        let next = out.push(h);
        assert forall|i: int| n <= i < next.len() implies is_hint_of(
            line,
            number,
            calls,
            #[trigger] next[i],
        ) by {
            if i < out.len() {
                assert(next[i] == out[i]);
            }
        }
        lemma_call_hints(line, number, calls, k, c, a + 1, n, out.push(h));
    }
}

/// Every hint that a line adds is for an argument of one of its calls: a type,
/// which is no call, gets none.
pub proof fn law_line_hints(
    ws: Workspace,
    f: int,
    line: Text,
    number: usize,
    calls: Seq<sca::Call>,
    j: int,
    n: int,
    out: Seq<sm::InlayHint>,
)
    requires
        0 <= j,
        0 <= n <= out.len(),
        are_hints_of(line, number, calls, n, out),
    ensures
        are_hints_of(
            line,
            number,
            calls,
            n,
            sca::line_hints(ws, f, line, number, calls, j, out),
        ),
    decreases calls.len() - j,
{
    if j < calls.len() {
        let call = calls[j];
        let scope = sco::scope_at(
            ws.index.files[f].symbols,
            sca::call_range(line, number, call).start,
        );
        let list = sqy::callees(ws, f, scope, call.receiver, call.name);
        let fit = sca::accepting(list, call.args);
        if fit.len() == 1 {
            lemma_call_hints(line, number, calls, j, list[fit[0]], 0, n, out);
        }
        law_line_hints(
            ws,
            f,
            line,
            number,
            calls,
            j + 1,
            n,
            sca::call_hints(ws, f, line, number, call, out),
        );
    }
}

/// A line whose parentheses belong to types or to what a statement starts with
/// gives no diagnostic for a call and no hint.
pub proof fn law_declarations(
    ws: Workspace,
    f: int,
    line: Text,
    number: usize,
    fixed: bool,
    first: bool,
    out: Seq<sm::Diagnostic>,
    hints: Seq<sm::InlayHint>,
)
    requires
        ({
            let code = ss::strip_inline_comment(line);
            forall|i: int|
                0 <= i < code.len() && #[trigger] code[i] == '(' ==> is_no_call_at(code, i, first)
        }),
    ensures
        ({
            let calls = sca::line_calls(line, fixed, first);
            &&& calls.len() == 0
            &&& sca::line_from(ws, f, line, number, calls, 0, out) == out
            &&& sca::line_hints(ws, f, line, number, calls, 0, hints) == hints
        }),
{
    lemma_no_calls(ss::strip_inline_comment(line), first, 0, ss::unquoted());
}

proof fn lemma_no_calls(code: Text, first: bool, i: int, q: ss::Quotes)
    requires
        0 <= i,
        forall|k: int|
            0 <= k < code.len() && #[trigger] code[k] == '(' ==> is_no_call_at(code, k, first),
    ensures
        sca::calls_from(code, first, i, q, Seq::empty()).len() == 0,
    decreases code.len() - i,
{
    if i < code.len() {
        if code[i] == '(' {
            assert(is_no_call_at(code, i, first));
        }
        lemma_no_calls(code, first, i + 1, ss::quote_step(q, code[i]));
    }
}

/// A line in a branch that is not active gives no diagnostic for a call and no
/// hint.
pub proof fn law_inactive_calls(
    ws: Workspace,
    f: int,
    lines: Seq<Text>,
    fixed: bool,
    n: int,
)
    requires
        !crate::spec::source::is_live(
            ws.sources,
            ws.index.files[f].path,
            lines,
            crate::spec::parser::predefined_from(ws.macros, 0, Seq::empty()),
            n,
        ),
    ensures
        sca::calls_on(ws, f, lines, fixed, n) == Seq::<sca::Call>::empty(),
{
}

} // verus!
