//! What an editor reads out of the answers.

use vstd::prelude::*;

use crate::model::{Position, Range, SymbolKind};
use crate::spec::json as sj;
use crate::spec::json::Json;
use crate::spec::lsp as sl;
use crate::spec::model as sm;
use crate::spec::outline as so;
use crate::spec::source as ssr;
use crate::spec::text as st;
use crate::spec::text::Text;

verus! {

// ---------------------------------------------------------------------------
// Places
// ---------------------------------------------------------------------------

/// Whether a value holds a position under `line` and `character`.
pub open spec fn reads_position(j: Option<Json>, p: Position) -> bool {
    &&& sj::as_unsigned(sj::get_in(j, "line"@)) == Some(p.line as u64)
    &&& sj::as_unsigned(sj::get_in(j, "character"@)) == Some(p.character as u64)
}

/// Whether a value holds a stretch: where it starts under `start`, and where it
/// ends under `end`.
pub open spec fn reads_range(j: Option<Json>, r: Range) -> bool {
    &&& reads_position(sj::get_in(j, "start"@), r.start)
    &&& reads_position(sj::get_in(j, "end"@), r.end)
}

/// Whether a value holds a text.
pub open spec fn reads_text(j: Option<Json>, t: Text) -> bool {
    sj::as_text(j) == Some(t)
}

/// Whether a value is a number.
pub open spec fn reads_number(j: Option<Json>, n: nat) -> bool {
    sj::as_unsigned(j) matches Some(m) && m == n
}

/// A position that is sent holds its line and its character.
pub proof fn law_read_position(p: Position)
    ensures
        reads_position(Some(sl::position(p)), p),
{
    reveal_strlit("line");
    reveal_strlit("character");
    reveal_with_fuel(sj::entry_from, 4);
    assert("line"@.len() != "character"@.len());
    let f0 = sl::position(p)->Object_0;
    assert(f0[0].0 == "line"@);
    assert(f0[1].0 == "character"@);
}

/// A stretch that is sent starts and ends where it does.
pub proof fn law_read_range(r: Range)
    ensures
        reads_range(Some(sl::range(r)), r),
{
    reveal_strlit("start");
    reveal_strlit("end");
    reveal_with_fuel(sj::entry_from, 4);
    assert("start"@.len() != "end"@.len());
    let f0 = sl::range(r)->Object_0;
    assert(f0[0].0 == "start"@);
    assert(f0[1].0 == "end"@);
    law_read_position(r.start);
    law_read_position(r.end);
}

/// Whether a value holds a place: a file under `uri`, and a stretch of it under
/// `range`.
pub open spec fn reads_location(
    j: Option<Json>,
    files: Seq<ssr::SourceFile>,
    loc: sm::Location,
) -> bool {
    &&& reads_text(sj::get_in(j, "uri"@), "file://"@ + ssr::canonical(files, loc.file))
    &&& reads_range(sj::get_in(j, "range"@), loc.range)
}

/// A place that is sent holds the URI of its file and its stretch.
pub proof fn law_read_location(files: Seq<ssr::SourceFile>, loc: sm::Location)
    ensures
        reads_location(Some(sl::location(files, loc)), files, loc),
{
    reveal_strlit("uri");
    reveal_strlit("range");
    reveal_with_fuel(sj::entry_from, 4);
    assert("uri"@.len() != "range"@.len());
    let f0 = sl::location(files, loc)->Object_0;
    assert(f0[0].0 == "uri"@);
    assert(f0[1].0 == "range"@);
    law_read_range(loc.range);
}

/// The places that are sent are those of the list, one by one.
pub proof fn law_read_locations(files: Seq<ssr::SourceFile>, list: Seq<sm::Location>)
    ensures
        sj::as_array(Some(sl::locations(files, list))) matches Some(items) && items.len()
            == list.len() && forall|i: int|
            0 <= i < list.len() ==> reads_location(Some(#[trigger] items[i]), files, list[i]),
{
    let items = sl::locations(files, list)->Array_0;
    assert forall|i: int| 0 <= i < list.len() implies reads_location(
        Some(#[trigger] items[i]),
        files,
        list[i],
    ) by {
        law_read_location(files, list[i]);
    }
}

/// The marked places that are sent are those of the list, one by one.
pub proof fn law_read_highlights(list: Seq<Range>)
    ensures
        sj::as_array(Some(sl::highlights(list))) matches Some(items) && items.len() == list.len()
            && forall|i: int|
            0 <= i < list.len() ==> reads_range(
                sj::get_in(Some(#[trigger] items[i]), "range"@),
                list[i],
            ),
{
    let items = sl::highlights(list)->Array_0;
    assert forall|i: int| 0 <= i < list.len() implies reads_range(
        sj::get_in(Some(#[trigger] items[i]), "range"@),
        list[i],
    ) by {
        law_read_highlight(list[i]);
    }
}

/// A marked place that is sent holds its stretch, and that it is plain text.
pub proof fn law_read_highlight(r: Range)
    ensures
        reads_range(sj::get_in(Some(sl::highlight(r)), "range"@), r),
        reads_number(sj::get_in(Some(sl::highlight(r)), "kind"@), 1),
{
    reveal_strlit("range");
    reveal_strlit("kind");
    reveal_with_fuel(sj::entry_from, 4);
    assert("range"@.len() != "kind"@.len());
    let f0 = sl::highlight(r)->Object_0;
    assert(f0[0].0 == "range"@);
    assert(f0[1].0 == "kind"@);
    law_read_range(r);
}

// ---------------------------------------------------------------------------
// Answers
// ---------------------------------------------------------------------------

/// Whether a value holds a text in Markdown.
pub open spec fn reads_markdown(j: Option<Json>, t: Text) -> bool {
    &&& reads_text(sj::get_in(j, "kind"@), "markdown"@)
    &&& reads_text(sj::get_in(j, "value"@), t)
}

/// Whether a value holds documentation where there is some, and only there.
pub open spec fn reads_docs(j: Json, docs: Option<Text>) -> bool {
    match docs {
        Some(t) => reads_markdown(sj::get(j, "documentation"@), t),
        None => sj::get(j, "documentation"@) is None,
    }
}

/// A text that is sent in Markdown says so.
pub proof fn law_read_markdown(t: Text)
    ensures
        reads_markdown(Some(sl::markdown(t)), t),
{
    reveal_strlit("kind");
    reveal_strlit("value");
    reveal_with_fuel(sj::entry_from, 4);
    assert("kind"@.len() != "value"@.len());
    let f0 = sl::markdown(t)->Object_0;
    assert(f0[0].0 == "kind"@);
    assert(f0[1].0 == "value"@);
}

/// What is shown under the cursor is sent in full.
pub proof fn law_read_hover(t: Text)
    ensures
        reads_markdown(sj::get(sl::hover(t), "contents"@), t),
{
    reveal_strlit("contents");
    reveal_with_fuel(sj::entry_from, 3);
    let f0 = sl::hover(t)->Object_0;
    assert(f0[0].0 == "contents"@);
    law_read_markdown(t);
}

/// A remark that is sent holds its stretch, its message, and how severe it is: 1
/// for an error, 2 for a warning, and 3 for a remark.
pub proof fn law_read_diagnostic(d: sm::Diagnostic)
    ensures
        reads_range(sj::get(sl::diagnostic(d), "range"@), d.range),
        reads_text(sj::get(sl::diagnostic(d), "message"@), d.message),
        reads_text(sj::get(sl::diagnostic(d), "source"@), "fortran-lsp"@),
        d.severity is Error ==> reads_number(sj::get(sl::diagnostic(d), "severity"@), 1),
        d.severity is Warning ==> reads_number(sj::get(sl::diagnostic(d), "severity"@), 2),
        d.severity is Information ==> reads_number(sj::get(sl::diagnostic(d), "severity"@), 3),
{
    reveal_strlit("range");
    reveal_strlit("severity");
    reveal_strlit("source");
    reveal_strlit("message");
    reveal_with_fuel(sj::entry_from, 6);
    assert("range"@.len() != "severity"@.len());
    assert("range"@.len() != "source"@.len());
    assert("range"@.len() != "message"@.len());
    assert("severity"@.len() != "source"@.len());
    assert("severity"@.len() != "message"@.len());
    assert("source"@.len() != "message"@.len());
    let f0 = sl::diagnostic(d)->Object_0;
    assert(f0[0].0 == "range"@);
    assert(f0[1].0 == "severity"@);
    assert(f0[2].0 == "source"@);
    assert(f0[3].0 == "message"@);
    law_read_range(d.range);
}

/// A parameter that is sent holds its label.
pub proof fn law_read_parameter(t: Text)
    ensures
        reads_text(sj::get(sl::parameter(t), "label"@), t),
{
    reveal_strlit("label");
    reveal_with_fuel(sj::entry_from, 3);
    let f0 = sl::parameter(t)->Object_0;
    assert(f0[0].0 == "label"@);
}

/// The procedure that is being called is sent with its label, its parameters one by
/// one, its documentation, and the number of the parameter that is being written.
pub proof fn law_read_signature(help: sl::SignatureHelp)
    ensures
        reads_number(
            sj::get(sl::signature_help(help), "activeParameter"@),
            help.active_parameter as nat,
        ),
        reads_number(sj::get(sl::signature_help(help), "activeSignature"@), 0),
        ({
            let all = sj::as_array(sj::get(sl::signature_help(help), "signatures"@));
            &&& all matches Some(list) && list.len() == 1
            &&& reads_text(sj::get(all->0[0], "label"@), help.label)
            &&& reads_docs(all->0[0], help.documentation)
            &&& sj::as_array(sj::get(all->0[0], "parameters"@)) matches Some(items)
                && items.len() == help.parameters.len() && forall|i: int|
                0 <= i < items.len() ==> reads_text(
                    sj::get(#[trigger] items[i], "label"@),
                    help.parameters[i],
                )
        }),
{
    reveal_strlit("signatures");
    reveal_strlit("activeSignature");
    reveal_strlit("activeParameter");
    reveal_strlit("label");
    reveal_strlit("parameters");
    reveal_strlit("documentation");
    reveal_with_fuel(sj::entry_from, 5);
    assert("signatures"@.len() != "activeSignature"@.len());
    assert("signatures"@.len() != "activeParameter"@.len());
    assert("activeSignature"@[6] != "activeParameter"@[6]);
    assert("label"@.len() != "parameters"@.len());
    assert("label"@.len() != "documentation"@.len());
    assert("parameters"@.len() != "documentation"@.len());
    let f0 = sl::signature_help(help)->Object_0;
    assert(f0[0].0 == "signatures"@);
    assert(f0[1].0 == "activeSignature"@);
    assert(f0[2].0 == "activeParameter"@);
    let f1 = sl::signature_help(help)->Object_0[0].1->Array_0[0]->Object_0;
    assert(f1[0].0 == "label"@);
    assert(f1[1].0 == "parameters"@);
    if let Some(docs) = help.documentation {
        law_read_markdown(docs);
        assert(f1[2].0 == "documentation"@);
    }
    let items = sl::parameters(help.parameters)->Array_0;
    assert forall|i: int| 0 <= i < items.len() implies reads_text(
        sj::get(#[trigger] items[i], "label"@),
        help.parameters[i],
    ) by {
        law_read_parameter(help.parameters[i]);
    }
}

/// The number by which an editor knows what kind of thing a completion is: 9 for
/// a module, 7 for a type, 3 for a procedure, 6 for a variable, 14 for a word of
/// the language.
pub open spec fn is_completion_number(kind: SymbolKind, n: int) -> bool {
    &&& kind is Module || kind is Program || kind is Submodule || kind is Use ==> n == 9
    &&& kind is Interface || kind is Type ==> n == 7
    &&& kind is Subroutine || kind is Function || kind is Method ==> n == 3
    &&& kind is Variable ==> n == 6
    &&& kind is Block || kind is Associate || kind is SelectType ==> n == 14
}

/// What is offered is sent with its label, its kind, its detail and its
/// documentation.
pub proof fn law_read_completion(item: sl::CompletionItem)
    ensures
        reads_text(sj::get(sl::completion(item), "label"@), item.label),
        reads_text(sj::get(sl::completion(item), "detail"@), item.detail),
        sj::as_unsigned(sj::get(sl::completion(item), "kind"@)) matches Some(n)
            && is_completion_number(item.kind, n as int),
        reads_docs(sl::completion(item), item.documentation),
{
    reveal_strlit("label");
    reveal_strlit("kind");
    reveal_strlit("detail");
    reveal_strlit("documentation");
    reveal_with_fuel(sj::entry_from, 5);
    assert("label"@.len() != "kind"@.len());
    assert("label"@.len() != "detail"@.len());
    assert("label"@.len() != "documentation"@.len());
    assert("kind"@.len() != "detail"@.len());
    assert("kind"@.len() != "documentation"@.len());
    assert("detail"@.len() != "documentation"@.len());
    let f0 = sl::completion(item)->Object_0;
    assert(f0[0].0 == "label"@);
    assert(f0[1].0 == "kind"@);
    assert(f0[2].0 == "detail"@);
    if let Some(docs) = item.documentation {
        law_read_markdown(docs);
        assert(f0[3].0 == "documentation"@);
    }
}

/// Everything that is offered is sent, one by one, and nothing is left to ask for.
pub proof fn law_read_completions(items: Seq<sl::CompletionItem>)
    ensures
        sj::get(sl::completion_list(items), "isIncomplete"@) == Some(Json::Bool(false)),
        sj::as_array(sj::get(sl::completion_list(items), "items"@)) matches Some(list)
            && list.len() == items.len() && forall|i: int|
            0 <= i < items.len() ==> reads_text(
                sj::get(#[trigger] list[i], "label"@),
                items[i].label,
            ),
{
    reveal_strlit("isIncomplete");
    reveal_strlit("items");
    reveal_with_fuel(sj::entry_from, 4);
    assert("isIncomplete"@.len() != "items"@.len());
    let f0 = sl::completion_list(items)->Object_0;
    assert(f0[0].0 == "isIncomplete"@);
    assert(f0[1].0 == "items"@);
    let list = f0[1].1->Array_0;
    assert forall|i: int| 0 <= i < items.len() implies reads_text(
        sj::get(#[trigger] list[i], "label"@),
        items[i].label,
    ) by {
        law_read_completion(items[i]);
    }
}

/// A hint that is sent holds its position and its label.
pub proof fn law_read_hint(hint: sm::InlayHint)
    ensures
        reads_position(sj::get(sl::inlay_hint(hint), "position"@), hint.position),
        reads_text(sj::get(sl::inlay_hint(hint), "label"@), hint.label),
        reads_number(sj::get(sl::inlay_hint(hint), "kind"@), 2),
        sj::get(sl::inlay_hint(hint), "paddingRight"@) == Some(Json::Bool(true)),
{
    reveal_strlit("position");
    reveal_strlit("label");
    reveal_strlit("kind");
    reveal_strlit("paddingRight");
    reveal_with_fuel(sj::entry_from, 6);
    assert("position"@.len() != "label"@.len());
    assert("position"@.len() != "kind"@.len());
    assert("position"@.len() != "paddingRight"@.len());
    assert("label"@.len() != "kind"@.len());
    assert("label"@.len() != "paddingRight"@.len());
    assert("kind"@.len() != "paddingRight"@.len());
    let f0 = sl::inlay_hint(hint)->Object_0;
    assert(f0[0].0 == "position"@);
    assert(f0[1].0 == "label"@);
    assert(f0[2].0 == "kind"@);
    assert(f0[3].0 == "paddingRight"@);
    law_read_position(hint.position);
}

/// The hints that are sent are those of the list, one by one.
pub proof fn law_read_hints(list: Seq<sm::InlayHint>)
    ensures
        sj::as_array(Some(sl::inlay_hints(list))) matches Some(items) && items.len() == list.len()
            && forall|i: int|
            0 <= i < list.len() ==> reads_position(
                sj::get(#[trigger] items[i], "position"@),
                list[i].position,
            ) && reads_text(sj::get(items[i], "label"@), list[i].label),
{
    let items = sl::inlay_hints(list)->Array_0;
    assert forall|i: int| 0 <= i < list.len() implies reads_position(
        sj::get(#[trigger] items[i], "position"@),
        list[i].position,
    ) && reads_text(sj::get(items[i], "label"@), list[i].label) by {
        law_read_hint(list[i]);
    }
}

// ---------------------------------------------------------------------------
// Symbols
// ---------------------------------------------------------------------------

/// The number by which an editor knows what kind of symbol something is: 2 for a
/// module, 11 for an interface, 23 for a structure, 12 for a function, 6 for a
/// method, 13 for a variable, 3 for a scope without a name.
pub open spec fn is_symbol_number(kind: SymbolKind, n: int) -> bool {
    &&& kind is Module || kind is Program || kind is Submodule || kind is Use ==> n == 2
    &&& kind is Interface ==> n == 11
    &&& kind is Type ==> n == 23
    &&& kind is Subroutine || kind is Function ==> n == 12
    &&& kind is Method ==> n == 6
    &&& kind is Variable ==> n == 13
    &&& kind is Block || kind is Associate || kind is SelectType ==> n == 3
}

/// Whether a value holds a symbol of a file with all the symbols in it.
pub open spec fn reads_symbol(j: Json, s: so::DocumentSymbol) -> bool
    decreases s,
{
    &&& reads_text(sj::get(j, "name"@), s.name)
    &&& sj::get(j, "detail"@) == Some(
        match s.detail {
            Some(t) => Json::Text(t),
            None => Json::Null,
        },
    )
    &&& sj::as_unsigned(sj::get(j, "kind"@)) matches Some(n) && is_symbol_number(s.kind, n as int)
    &&& reads_range(sj::get(j, "range"@), s.range)
    &&& reads_range(sj::get(j, "selectionRange"@), s.selection_range)
    &&& sj::as_array(sj::get(j, "children"@)) matches Some(items) && items.len()
        == s.children.len() && forall|i: int|
        0 <= i < s.children.len() ==> reads_symbol(#[trigger] items[i], s.children[i])
}

/// A symbol of a file that is sent holds its name, its kind, where it is, and the
/// symbols in it.
pub proof fn law_read_symbol(s: so::DocumentSymbol)
    ensures
        reads_symbol(sl::document_symbol(s), s),
    decreases s,
{
    reveal_strlit("name");
    reveal_strlit("detail");
    reveal_strlit("kind");
    reveal_strlit("range");
    reveal_strlit("selectionRange");
    reveal_strlit("children");
    reveal_with_fuel(sj::entry_from, 8);
    assert("name"@.len() != "detail"@.len());
    assert("name"@[0] != "kind"@[0]);
    assert("name"@.len() != "range"@.len());
    assert("name"@.len() != "selectionRange"@.len());
    assert("name"@.len() != "children"@.len());
    assert("detail"@.len() != "kind"@.len());
    assert("detail"@.len() != "range"@.len());
    assert("detail"@.len() != "selectionRange"@.len());
    assert("detail"@.len() != "children"@.len());
    assert("kind"@.len() != "range"@.len());
    assert("kind"@.len() != "selectionRange"@.len());
    assert("kind"@.len() != "children"@.len());
    assert("range"@.len() != "selectionRange"@.len());
    assert("range"@.len() != "children"@.len());
    assert("selectionRange"@.len() != "children"@.len());
    let f0 = sl::document_symbol(s)->Object_0;
    assert(f0[0].0 == "name"@);
    assert(f0[1].0 == "detail"@);
    assert(f0[2].0 == "kind"@);
    assert(f0[3].0 == "range"@);
    assert(f0[4].0 == "selectionRange"@);
    assert(f0[5].0 == "children"@);
    law_read_range(s.range);
    law_read_range(s.selection_range);
    let items = f0[5].1->Array_0;
    assert forall|i: int| 0 <= i < s.children.len() implies reads_symbol(
        #[trigger] items[i],
        s.children[i],
    ) by {
        law_read_symbol(s.children[i]);
    }
}

/// The symbols of a file that are sent are those of the list, one by one.
pub proof fn law_read_symbols(list: Seq<so::DocumentSymbol>)
    ensures
        sj::as_array(Some(sl::document_symbols(list))) matches Some(items) && items.len()
            == list.len() && forall|i: int|
            0 <= i < list.len() ==> reads_symbol(#[trigger] items[i], list[i]),
{
    let items = sl::document_symbols(list)->Array_0;
    assert forall|i: int| 0 <= i < list.len() implies reads_symbol(
        #[trigger] items[i],
        list[i],
    ) by {
        law_read_symbol(list[i]);
    }
}

/// A symbol of the workspace that is sent holds its name behind those of the scopes
/// around it, its kind, where its name stands, and the scopes as its container.
pub proof fn law_read_workspace_symbol(files: Seq<ssr::SourceFile>, s: sm::Symbol)
    ensures
        reads_text(
            sj::get(sl::workspace_symbol(files, s), "name"@),
            st::join(s.scope.push(s.name), "::"@),
        ),
        sj::as_unsigned(sj::get(sl::workspace_symbol(files, s), "kind"@)) matches Some(n)
            && is_symbol_number(s.kind, n as int),
        reads_location(
            sj::get(sl::workspace_symbol(files, s), "location"@),
            files,
            sm::Location { file: s.file, range: s.selection_range },
        ),
        s.scope.len() > 0 ==> reads_text(
            sj::get(sl::workspace_symbol(files, s), "containerName"@),
            st::join(s.scope, "::"@),
        ),
        s.scope.len() == 0 ==> sj::get(sl::workspace_symbol(files, s), "containerName"@) is None,
{
    reveal_strlit("name");
    reveal_strlit("kind");
    reveal_strlit("location");
    reveal_strlit("containerName");
    reveal_with_fuel(sj::entry_from, 5);
    assert("name"@[0] != "kind"@[0]);
    assert("name"@.len() != "location"@.len());
    assert("name"@.len() != "containerName"@.len());
    assert("kind"@.len() != "location"@.len());
    assert("kind"@.len() != "containerName"@.len());
    assert("location"@.len() != "containerName"@.len());
    let f0 = sl::workspace_symbol(files, s)->Object_0;
    assert(f0[0].0 == "name"@);
    assert(f0[1].0 == "kind"@);
    assert(f0[2].0 == "location"@);
    law_read_location(files, sm::Location { file: s.file, range: s.selection_range });
    if s.scope.len() > 0 {
        assert(f0[3].0 == "containerName"@);
    }
    lemma_qualified(s);
}

proof fn lemma_qualified(s: sm::Symbol)
    ensures
        sm::qualified_name(s) == st::join(s.scope.push(s.name), "::"@),
{
    let all = s.scope.push(s.name);
    assert(all.drop_last() =~= s.scope);
    assert(all.last() == s.name);
    if s.scope.len() == 0 {
        assert(all[0] == s.name);
    }
}

/// Whether a value holds a stretch and all those around it.
pub open spec fn reads_selection(j: Json, s: sm::SelectionRange) -> bool
    decreases s,
{
    &&& reads_range(sj::get(j, "range"@), s.range)
    &&& match s.parent {
        Some(parent) => sj::get(j, "parent"@) matches Some(p) && reads_selection(p, *parent),
        None => sj::get(j, "parent"@) is None,
    }
}

/// A stretch that can be selected is sent with those around it.
pub proof fn law_read_selection(s: sm::SelectionRange)
    ensures
        reads_selection(sl::selection_range(s), s),
    decreases s,
{
    reveal_strlit("range");
    reveal_strlit("parent");
    reveal_with_fuel(sj::entry_from, 3);
    assert("range"@.len() != "parent"@.len());
    let f0 = sl::selection_range(s)->Object_0;
    assert(f0[0].0 == "range"@);
    law_read_range(s.range);
    if let Some(parent) = s.parent {
        law_read_selection(*parent);
        assert(f0[1].0 == "parent"@);
    }
}

// ---------------------------------------------------------------------------
// Stretches that can be folded
// ---------------------------------------------------------------------------

/// Whether a value holds the stretch of a symbol that can be folded.
pub open spec fn reads_fold(j: Json, r: Range) -> bool {
    &&& reads_number(sj::get(j, "startLine"@), r.start.line as nat)
    &&& reads_number(sj::get(j, "startCharacter"@), r.start.character as nat)
    &&& reads_number(sj::get(j, "endLine"@), r.end.line as nat)
    &&& reads_number(sj::get(j, "endCharacter"@), r.end.character as nat)
    &&& reads_text(sj::get(j, "kind"@), "region"@)
}

/// The stretch of a symbol that is sent for folding is that of the symbol.
pub proof fn law_read_fold(s: so::DocumentSymbol)
    ensures
        reads_fold(sl::fold(s), s.range),
{
    reveal_strlit("startLine");
    reveal_strlit("startCharacter");
    reveal_strlit("endLine");
    reveal_strlit("endCharacter");
    reveal_strlit("kind");
    reveal_with_fuel(sj::entry_from, 7);
    assert("startLine"@.len() != "startCharacter"@.len());
    assert("startLine"@.len() != "endLine"@.len());
    assert("startLine"@.len() != "endCharacter"@.len());
    assert("startLine"@.len() != "kind"@.len());
    assert("startCharacter"@.len() != "endLine"@.len());
    assert("startCharacter"@.len() != "endCharacter"@.len());
    assert("startCharacter"@.len() != "kind"@.len());
    assert("endLine"@.len() != "endCharacter"@.len());
    assert("endLine"@.len() != "kind"@.len());
    assert("endCharacter"@.len() != "kind"@.len());
    let f0 = sl::fold(s)->Object_0;
    assert(f0[0].0 == "startLine"@);
    assert(f0[1].0 == "startCharacter"@);
    assert(f0[2].0 == "endLine"@);
    assert(f0[3].0 == "endCharacter"@);
    assert(f0[4].0 == "kind"@);
}

/// Whether a stretch is that of a symbol over several lines: of the symbol
/// itself, or of one in it at any depth.
pub open spec fn is_folded_in(j: Json, s: so::DocumentSymbol) -> bool
    decreases s,
{
    ||| reads_fold(j, s.range) && s.range.end.line > s.range.start.line
    ||| exists|i: int| 0 <= i < s.children.len() && is_folded_in(j, #[trigger] s.children[i])
}

/// How many of a symbol and the symbols in it span several lines.
pub open spec fn fold_count(s: so::DocumentSymbol) -> nat
    decreases s, 0int,
{
    (if s.range.end.line > s.range.start.line {
        1nat
    } else {
        0nat
    }) + fold_count_from(s.children, 0)
}

pub open spec fn fold_count_from(list: Seq<so::DocumentSymbol>, i: int) -> nat
    decreases list, list.len() - i,
{
    if 0 <= i < list.len() {
        fold_count(list[i]) + fold_count_from(list, i + 1)
    } else {
        0
    }
}

/// The stretches that can be folded are those of the symbols that span several
/// lines, at any depth, behind those that were there, and there are as many.
pub proof fn law_folds(s: so::DocumentSymbol, out: Seq<Json>)
    ensures
        sl::symbol_folds(s, out).len() == out.len() + fold_count(s),
        forall|k: int|
            0 <= k < out.len() ==> #[trigger] sl::symbol_folds(s, out)[k] == out[k],
        forall|k: int|
            out.len() <= k < sl::symbol_folds(s, out).len() ==> is_folded_in(
                #[trigger] sl::symbol_folds(s, out)[k],
                s,
            ),
        s.range.end.line > s.range.start.line ==> reads_fold(
            sl::symbol_folds(s, out)[out.len() as int],
            s.range,
        ),
    decreases s, 0int,
{
    let next = if s.range.end.line > s.range.start.line {
        out.push(sl::fold(s))
    } else {
        out
    };
    law_read_fold(s);
    lemma_folds_from(s.children, 0, next);
    let all = sl::symbol_folds(s, out);
    assert forall|k: int| 0 <= k < out.len() implies #[trigger] all[k] == out[k] by {
        assert(next[k] == out[k]);
        assert(sl::folds_from(s.children, 0, next)[k] == next[k]);
    }
    assert forall|k: int| out.len() <= k < all.len() implies is_folded_in(#[trigger] all[k], s) by {
        if k < next.len() {
            assert(sl::folds_from(s.children, 0, next)[k] == next[k]);
        } else {
            assert(exists|i: int|
                0 <= i < s.children.len() && is_folded_in(
                    sl::folds_from(s.children, 0, next)[k],
                    #[trigger] s.children[i],
                ));
        }
    }
    if s.range.end.line > s.range.start.line {
        assert(sl::folds_from(s.children, 0, next)[out.len() as int] == next[out.len() as int]);
    }
}

/// Whether a stretch is that of one of the symbols from `i` on, or of one in it.
pub open spec fn is_folded_from(j: Json, list: Seq<so::DocumentSymbol>, i: int) -> bool {
    exists|k: int| i <= k < list.len() && is_folded_in(j, #[trigger] list[k])
}

proof fn lemma_folds_from(list: Seq<so::DocumentSymbol>, i: int, out: Seq<Json>)
    requires
        0 <= i <= list.len(),
    ensures
        sl::folds_from(list, i, out).len() == out.len() + fold_count_from(list, i),
        forall|k: int|
            0 <= k < out.len() ==> #[trigger] sl::folds_from(list, i, out)[k] == out[k],
        forall|k: int|
            out.len() <= k < sl::folds_from(list, i, out).len() ==> is_folded_from(
                #[trigger] sl::folds_from(list, i, out)[k],
                list,
                i,
            ),
    decreases list, list.len() - i,
{
    if i < list.len() {
        let next = sl::symbol_folds(list[i], out);
        law_folds(list[i], out);
        lemma_folds_from(list, i + 1, next);
        let all = sl::folds_from(list, i, out);
        assert(all == sl::folds_from(list, i + 1, next));
        assert forall|k: int| 0 <= k < out.len() implies #[trigger] all[k] == out[k] by {
            assert(sl::folds_from(list, i + 1, next)[k] == next[k]);
        }
        assert forall|k: int| out.len() <= k < all.len() implies is_folded_from(
            #[trigger] all[k],
            list,
            i,
        ) by {
            if k < next.len() {
                assert(sl::folds_from(list, i + 1, next)[k] == next[k]);
                assert(is_folded_in(next[k], list[i]));
            } else {
                assert(is_folded_from(sl::folds_from(list, i + 1, next)[k], list, i + 1));
                let m = choose|m: int|
                    i + 1 <= m < list.len() && is_folded_in(all[k], #[trigger] list[m]);
                assert(i <= m && is_folded_in(all[k], list[m]));
            }
        }
    }
}

// ---------------------------------------------------------------------------
// Edits
// ---------------------------------------------------------------------------

/// Whether a value holds a change: the stretch that it replaces, and the new
/// text.
pub open spec fn reads_edit(j: Json, e: sm::TextEdit) -> bool {
    &&& reads_range(sj::get(j, "range"@), e.range)
    &&& reads_text(sj::get(j, "newText"@), e.new_text)
}

/// A change that is sent replaces the stretch of the edit by its new text.
pub proof fn law_read_edit(e: sm::TextEdit)
    ensures
        reads_edit(sl::edit(e), e),
{
    reveal_strlit("range");
    reveal_strlit("newText");
    reveal_with_fuel(sj::entry_from, 4);
    assert("range"@.len() != "newText"@.len());
    let f0 = sl::edit(e)->Object_0;
    assert(f0[0].0 == "range"@);
    assert(f0[1].0 == "newText"@);
    law_read_range(e.range);
}

/// The edits of a file, in order.
pub open spec fn edits_of(
    files: Seq<ssr::SourceFile>,
    edits: Seq<sm::TextEdit>,
    uri: Text,
) -> Seq<sm::TextEdit>
    decreases edits.len(),
{
    if edits.len() == 0 {
        Seq::empty()
    } else if "file://"@ + ssr::canonical(files, edits.last().file) == uri {
        edits_of(files, edits.drop_last(), uri).push(edits.last())
    } else {
        edits_of(files, edits.drop_last(), uri)
    }
}

/// Whether the changes to a file are its edits, one by one; nothing where it has
/// none.
pub open spec fn are_edits(j: Option<Json>, list: Seq<sm::TextEdit>) -> bool {
    if list.len() == 0 {
        j is None
    } else {
        sj::as_array(j) matches Some(items) && items.len() == list.len() && forall|i: int|
            0 <= i < list.len() ==> reads_edit(#[trigger] items[i], list[i])
    }
}

/// Whether the changes by file are the edits of each of them.
pub open spec fn are_changes(
    files: Seq<ssr::SourceFile>,
    changes: sl::Changes,
    edits: Seq<sm::TextEdit>,
) -> bool {
    forall|uri: Text| #[trigger]
        are_edits(
            sj::entry_from(sl::change_fields(changes), uri, 0),
            edits_of(files, edits, uri),
        )
}

proof fn lemma_find_change(changes: sl::Changes, uri: Text, i: int)
    requires
        0 <= i,
    ensures
        match sl::find_change(changes, uri, i) {
            Some(k) => i <= k < changes.len() && changes[k].0 == uri && forall|j: int|
                i <= j < k ==> (#[trigger] changes[j]).0 != uri,
            None => forall|j: int| i <= j < changes.len() ==> (#[trigger] changes[j]).0 != uri,
        },
        sj::entry_from(sl::change_fields(changes), uri, i) == match sl::find_change(
            changes,
            uri,
            i,
        ) {
            Some(k) => Some(Json::Array(changes[k].1)),
            None => None,
        },
    decreases changes.len() - i,
{
    if i < changes.len() {
        assert(sl::change_fields(changes)[i].0 == changes[i].0);
        if changes[i].0 != uri {
            lemma_find_change(changes, uri, i + 1);
        }
    }
}

proof fn lemma_is_change(changes: sl::Changes, uri: Text, k: int, i: int)
    requires
        0 <= i <= k < changes.len(),
        changes[k].0 == uri,
        forall|j: int| i <= j < k ==> (#[trigger] changes[j]).0 != uri,
    ensures
        sl::find_change(changes, uri, i) == Some(k),
    decreases k - i,
{
    if i < k {
        assert(changes[i].0 != uri);
        lemma_is_change(changes, uri, k, i + 1);
    }
}

proof fn lemma_add_change(changes: sl::Changes, uri: Text, change: Json, other: Text)
    ensures
        ({
            let after = sl::add_change(changes, uri, change);
            let was = sj::entry_from(sl::change_fields(changes), other, 0);
            let is = sj::entry_from(sl::change_fields(after), other, 0);
            if other == uri {
                is == Some(
                    Json::Array(
                        match was {
                            Some(Json::Array(items)) => items.push(change),
                            _ => seq![change],
                        },
                    ),
                )
            } else {
                is == was
            }
        }),
{
    let after = sl::add_change(changes, uri, change);
    lemma_find_change(changes, uri, 0);
    lemma_find_change(changes, other, 0);
    lemma_find_change(after, other, 0);
    assert(Seq::<Json>::empty().push(change) =~= seq![change]);
    match sl::find_change(changes, other, 0) {
        Some(k) => {
            assert forall|j: int| 0 <= j < k implies (#[trigger] after[j]).0 != other by {
                assert(changes[j].0 != other);
            }
            assert(after[k].0 == other);
            lemma_is_change(after, other, k, 0);
        },
        None => {
            if other == uri {
                let k = changes.len() as int;
                assert forall|j: int| 0 <= j < k implies (#[trigger] after[j]).0 != other by {
                    assert(changes[j].0 != other);
                }
                lemma_is_change(after, other, k, 0);
            } else {
                assert forall|j: int| 0 <= j < after.len() implies (#[trigger] after[j]).0
                    != other by {
                    if j < changes.len() {
                        assert(changes[j].0 != other);
                    }
                }
            }
        },
    }
}

proof fn lemma_changes(
    files: Seq<ssr::SourceFile>,
    edits: Seq<sm::TextEdit>,
    i: int,
    out: sl::Changes,
)
    requires
        0 <= i <= edits.len(),
        are_changes(files, out, edits.take(i)),
    ensures
        are_changes(files, sl::changes_from(files, edits, i, out), edits),
    decreases edits.len() - i,
{
    if i < edits.len() {
        let e = edits[i];
        let uri = sl::uri_from_path(files, e.file);
        let next = sl::add_change(out, uri, sl::edit(e));
        law_read_edit(e);
        assert(edits.take(i + 1).drop_last() =~= edits.take(i));
        assert(edits.take(i + 1).last() == e);
        assert forall|other: Text| #[trigger]
            are_edits(
                sj::entry_from(sl::change_fields(next), other, 0),
                edits_of(files, edits.take(i + 1), other),
            ) by {
            lemma_add_change(out, uri, sl::edit(e), other);
            assert(are_edits(
                sj::entry_from(sl::change_fields(out), other, 0),
                edits_of(files, edits.take(i), other),
            ));
        }
        lemma_changes(files, edits, i + 1, next);
    } else {
        assert(edits.take(i) =~= edits);
    }
}

/// The changes that are sent are the edits, no more and no less: under the URI of a
/// file stand the edits of that file in order, and nothing stands under any other
/// name.
pub proof fn law_read_edits(files: Seq<ssr::SourceFile>, edits: Seq<sm::TextEdit>, uri: Text)
    ensures
        are_edits(
            sj::get_in(sj::get(sl::workspace_edit(files, edits), "changes"@), uri),
            edits_of(files, edits, uri),
        ),
{
    reveal_strlit("changes");
    reveal_with_fuel(sj::entry_from, 3);
    let f0 = sl::workspace_edit(files, edits)->Object_0;
    assert(f0[0].0 == "changes"@);
    let none: sl::Changes = Seq::empty();
    assert(edits.take(0) =~= Seq::empty());
    assert forall|other: Text| #[trigger]
        are_edits(
            sj::entry_from(sl::change_fields(none), other, 0),
            edits_of(files, edits.take(0), other),
        ) by {}
    lemma_changes(files, edits, 0, none);
    let all = sl::changes_from(files, edits, 0, none);
    assert(are_edits(
        sj::entry_from(sl::change_fields(all), uri, 0),
        edits_of(files, edits, uri),
    ));
}

/// An action that is sent holds its title, its kind and its edits.
pub proof fn law_read_action(files: Seq<ssr::SourceFile>, a: sm::CodeAction, uri: Text)
    ensures
        reads_text(sj::get(sl::code_action(files, a), "title"@), a.title),
        reads_text(sj::get(sl::code_action(files, a), "kind"@), a.kind),
        are_edits(
            sj::get_in(
                sj::get_in(sj::get(sl::code_action(files, a), "edit"@), "changes"@),
                uri,
            ),
            edits_of(files, a.edits, uri),
        ),
{
    reveal_strlit("title");
    reveal_strlit("kind");
    reveal_strlit("edit");
    reveal_with_fuel(sj::entry_from, 5);
    assert("title"@.len() != "kind"@.len());
    assert("title"@.len() != "edit"@.len());
    assert("kind"@[0] != "edit"@[0]);
    let f0 = sl::code_action(files, a)->Object_0;
    assert(f0[0].0 == "title"@);
    assert(f0[1].0 == "kind"@);
    assert(f0[2].0 == "edit"@);
    law_read_edits(files, a.edits, uri);
}

// ---------------------------------------------------------------------------
// Messages
// ---------------------------------------------------------------------------

/// An answer holds the number of the request, and its result.
pub proof fn law_read_response(id: Json, result: Json)
    ensures
        sj::get(sl::response(id, result), "id"@) == Some(id),
        sj::get(sl::response(id, result), "result"@) == Some(result),
        reads_text(sj::get(sl::response(id, result), "jsonrpc"@), "2.0"@),
{
    reveal_strlit("jsonrpc");
    reveal_strlit("id");
    reveal_strlit("result");
    reveal_with_fuel(sj::entry_from, 5);
    assert("jsonrpc"@.len() != "id"@.len());
    assert("jsonrpc"@.len() != "result"@.len());
    assert("id"@.len() != "result"@.len());
    let f0 = sl::response(id, result)->Object_0;
    assert(f0[0].0 == "jsonrpc"@);
    assert(f0[1].0 == "id"@);
    assert(f0[2].0 == "result"@);
}

/// The remarks about a file are sent under its URI, one by one.
pub proof fn law_read_published(uri: Text, list: Seq<sm::Diagnostic>)
    ensures
        ({
            let sent = sl::published_diagnostics(uri, list);
            let params = sj::get(sent, "params"@);
            &&& reads_text(sj::get(sent, "jsonrpc"@), "2.0"@)
            &&& reads_text(sj::get(sent, "method"@), "textDocument/publishDiagnostics"@)
            &&& reads_text(sj::get_in(params, "uri"@), uri)
            &&& sj::as_array(sj::get_in(params, "diagnostics"@)) matches Some(items)
                && items.len() == list.len() && forall|i: int|
                0 <= i < list.len() ==> reads_range(
                    sj::get(#[trigger] items[i], "range"@),
                    list[i].range,
                ) && reads_text(sj::get(items[i], "message"@), list[i].message)
        }),
{
    reveal_strlit("jsonrpc");
    reveal_strlit("method");
    reveal_strlit("params");
    reveal_strlit("uri");
    reveal_strlit("diagnostics");
    reveal_with_fuel(sj::entry_from, 5);
    assert("jsonrpc"@.len() != "method"@.len());
    assert("jsonrpc"@.len() != "params"@.len());
    assert("method"@[0] != "params"@[0]);
    assert("uri"@.len() != "diagnostics"@.len());
    let f0 = sl::published_diagnostics(uri, list)->Object_0;
    assert(f0[0].0 == "jsonrpc"@);
    assert(f0[1].0 == "method"@);
    assert(f0[2].0 == "params"@);
    let f1 = sl::published_diagnostics(uri, list)->Object_0[2].1->Object_0;
    assert(f1[0].0 == "uri"@);
    assert(f1[1].0 == "diagnostics"@);
    let items = f1[1].1->Array_0;
    assert forall|i: int| 0 <= i < list.len() implies reads_range(
        sj::get(#[trigger] items[i], "range"@),
        list[i].range,
    ) && reads_text(sj::get(items[i], "message"@), list[i].message) by {
        law_read_diagnostic(list[i]);
    }
}

} // verus!
