//! What is answered to an editor.

use vstd::prelude::*;

use crate::json::{Json, array, no_entries, no_items, number, object, put_entry, put_item, string};
use crate::model::{
    CodeAction, Diagnostic, DiagnosticSeverity, InlayHint, Location, Position, Range, RenameError,
    SelectionRange, Symbol, SymbolKind, TextEdit,
};
use crate::outline::DocumentSymbol;
use crate::source::{SourceFile, canonical};
use crate::spec::json as sj;
use crate::spec::lsp as sl;
use crate::text::{decimal, join, owned, push_text, sum};

verus! {

/// Something that can be put where the cursor stands.
#[derive(Debug, PartialEq, Eq)]
pub struct CompletionItem {
    pub label: String,
    pub detail: String,
    pub kind: SymbolKind,
    pub documentation: Option<String>,
}

impl DeepView for CompletionItem {
    type V = sl::CompletionItem;

    open spec fn deep_view(&self) -> sl::CompletionItem {
        sl::CompletionItem {
            label: self.label@,
            detail: self.detail@,
            kind: self.kind,
            documentation: self.documentation.deep_view(),
        }
    }
}

/// The procedure whose arguments are being written.
#[derive(Debug, PartialEq, Eq)]
pub struct SignatureHelp {
    pub label: String,
    pub parameters: Vec<String>,
    pub active_parameter: usize,
    pub documentation: Option<String>,
}

impl DeepView for SignatureHelp {
    type V = sl::SignatureHelp;

    open spec fn deep_view(&self) -> sl::SignatureHelp {
        sl::SignatureHelp {
            label: self.label@,
            parameters: self.parameters.deep_view(),
            active_parameter: self.active_parameter,
            documentation: self.documentation.deep_view(),
        }
    }
}

// ---------------------------------------------------------------------------
// Numbers for kinds
// ---------------------------------------------------------------------------

pub fn symbol_kind(kind: SymbolKind) -> (r: usize)
    ensures
        r == sl::symbol_kind(kind),
{
    match kind {
        SymbolKind::Module | SymbolKind::Program | SymbolKind::Submodule => 2,
        SymbolKind::Interface => 11,
        SymbolKind::Type => 23,
        SymbolKind::Subroutine | SymbolKind::Function => 12,
        SymbolKind::Method => 6,
        SymbolKind::Variable => 13,
        SymbolKind::Block | SymbolKind::Associate | SymbolKind::SelectType => 3,
        SymbolKind::Use => 2,
    }
}

pub fn completion_kind(kind: SymbolKind) -> (r: usize)
    ensures
        r == sl::completion_kind(kind),
{
    match kind {
        SymbolKind::Module | SymbolKind::Program | SymbolKind::Submodule => 9,
        SymbolKind::Interface | SymbolKind::Type => 7,
        SymbolKind::Subroutine | SymbolKind::Function | SymbolKind::Method => 3,
        SymbolKind::Variable => 6,
        SymbolKind::Block | SymbolKind::Associate | SymbolKind::SelectType => 14,
        SymbolKind::Use => 9,
    }
}

fn severity(s: DiagnosticSeverity) -> (r: usize)
    ensures
        r == sl::severity(s),
{
    match s {
        DiagnosticSeverity::Error => 1,
        DiagnosticSeverity::Warning => 2,
        DiagnosticSeverity::Information => 3,
    }
}

// ---------------------------------------------------------------------------
// Places
// ---------------------------------------------------------------------------

pub fn position_to_lsp(p: Position) -> (r: Json)
    ensures
        r.model() == sl::position(p),
{
    let mut fields = no_entries();
    put_entry(&mut fields, "line", number(p.line));
    put_entry(&mut fields, "character", number(p.character));
    object(fields)
}

pub fn range_to_lsp(range: Range) -> (r: Json)
    ensures
        r.model() == sl::range(range),
{
    let mut fields = no_entries();
    put_entry(&mut fields, "start", position_to_lsp(range.start));
    put_entry(&mut fields, "end", position_to_lsp(range.end));
    object(fields)
}

/// The URI of a file: that of the path that identifies it.
pub fn uri_from_path(files: &Vec<SourceFile>, path: &str) -> (r: String)
    ensures
        r@ == sl::uri_from_path(files.deep_view(), path@),
{
    let mut out = owned("file://");
    push_text(&mut out, canonical(files, path).as_str());
    out
}

pub fn location_to_lsp(files: &Vec<SourceFile>, loc: &Location) -> (r: Json)
    ensures
        r.model() == sl::location(files.deep_view(), loc.deep_view()),
{
    let mut fields = no_entries();
    put_entry(&mut fields, "uri", Json::Text(uri_from_path(files, loc.file.as_str())));
    put_entry(&mut fields, "range", range_to_lsp(loc.range));
    object(fields)
}

pub fn highlight_to_lsp(range: Range) -> (r: Json)
    ensures
        r.model() == sl::highlight(range),
{
    let mut fields = no_entries();
    put_entry(&mut fields, "range", range_to_lsp(range));
    put_entry(&mut fields, "kind", number(1));
    object(fields)
}

// ---------------------------------------------------------------------------
// Answers
// ---------------------------------------------------------------------------

fn markdown(t: &str) -> (r: Json)
    ensures
        r.model() == sl::markdown(t@),
{
    let mut fields = no_entries();
    put_entry(&mut fields, "kind", string("markdown"));
    put_entry(&mut fields, "value", string(t));
    object(fields)
}

pub fn hover_to_lsp(md: &str) -> (r: Json)
    ensures
        r.model() == sl::hover(md@),
{
    let mut fields = no_entries();
    put_entry(&mut fields, "contents", markdown(md));
    object(fields)
}

pub fn diagnostic_to_lsp(d: &Diagnostic) -> (r: Json)
    ensures
        r.model() == sl::diagnostic(d.deep_view()),
{
    let mut fields = no_entries();
    put_entry(&mut fields, "range", range_to_lsp(d.range));
    put_entry(&mut fields, "severity", number(severity(d.severity)));
    put_entry(&mut fields, "source", string("fortran-lsp"));
    put_entry(&mut fields, "message", string(d.message.as_str()));
    object(fields)
}

/// Adds documentation, where there is any.
fn add_documentation(fields: &mut Vec<(String, Json)>, documentation: &Option<String>)
    ensures
        crate::json::entry_models(final(fields)@) == sl::documented(
            crate::json::entry_models(old(fields)@),
            documentation.deep_view(),
        ),
{
    if let Some(docs) = documentation {
        put_entry(fields, "documentation", markdown(docs.as_str()));
    }
}

fn parameters(labels: &Vec<String>) -> (r: Json)
    ensures
        r.model() == sl::parameters(labels.deep_view()),
{
    let ghost all = labels.deep_view();
    let mut items = no_items();
    let mut i: usize = 0;
    while i < labels.len()
        invariant
            i <= labels@.len(),
            all == labels.deep_view(),
            crate::json::json_models(items@) == Seq::new(i as nat, |k: int| sl::parameter(all[k])),
        decreases labels@.len() - i,
    {
        assert(all[i as int] == labels@[i as int]@);
        let mut fields = no_entries();
        put_entry(&mut fields, "label", string(labels[i].as_str()));
        put_item(&mut items, object(fields));
        i = i + 1;
        assert(crate::json::json_models(items@) =~= Seq::new(
            i as nat,
            |k: int| sl::parameter(all[k]),
        ));
    }
    assert(crate::json::json_models(items@) =~= Seq::new(
        all.len(),
        |k: int| sl::parameter(all[k]),
    ));
    array(items)
}

pub fn signature_help_to_lsp(help: &SignatureHelp) -> (r: Json)
    ensures
        r.model() == sl::signature_help(help.deep_view()),
{
    let mut signature = no_entries();
    put_entry(&mut signature, "label", string(help.label.as_str()));
    put_entry(&mut signature, "parameters", parameters(&help.parameters));
    add_documentation(&mut signature, &help.documentation);
    let mut signatures = no_items();
    put_item(&mut signatures, object(signature));
    let mut fields = no_entries();
    put_entry(&mut fields, "signatures", array(signatures));
    put_entry(&mut fields, "activeSignature", number(0));
    put_entry(&mut fields, "activeParameter", number(help.active_parameter));
    object(fields)
}

pub fn completion_to_lsp(item: &CompletionItem) -> (r: Json)
    ensures
        r.model() == sl::completion(item.deep_view()),
{
    let mut fields = no_entries();
    put_entry(&mut fields, "label", string(item.label.as_str()));
    put_entry(&mut fields, "kind", number(completion_kind(item.kind)));
    put_entry(&mut fields, "detail", string(item.detail.as_str()));
    add_documentation(&mut fields, &item.documentation);
    object(fields)
}

pub fn completions_to_lsp(list: &Vec<CompletionItem>) -> (r: Json)
    ensures
        r.model() == sl::completion_list(list.deep_view()),
{
    let ghost all = list.deep_view();
    let mut items = no_items();
    let mut i: usize = 0;
    while i < list.len()
        invariant
            i <= list@.len(),
            all == list.deep_view(),
            crate::json::json_models(items@) == Seq::new(i as nat, |k: int| sl::completion(all[k])),
        decreases list@.len() - i,
    {
        assert(all[i as int] == list@[i as int].deep_view());
        put_item(&mut items, completion_to_lsp(&list[i]));
        i = i + 1;
        assert(crate::json::json_models(items@) =~= Seq::new(
            i as nat,
            |k: int| sl::completion(all[k]),
        ));
    }
    assert(crate::json::json_models(items@) =~= Seq::new(
        all.len(),
        |k: int| sl::completion(all[k]),
    ));
    let mut fields = no_entries();
    put_entry(&mut fields, "isIncomplete", Json::Bool(false));
    put_entry(&mut fields, "items", array(items));
    object(fields)
}

pub fn inlay_hint_to_lsp(hint: &InlayHint) -> (r: Json)
    ensures
        r.model() == sl::inlay_hint(hint.deep_view()),
{
    let mut fields = no_entries();
    put_entry(&mut fields, "position", position_to_lsp(hint.position));
    put_entry(&mut fields, "label", string(hint.label.as_str()));
    put_entry(&mut fields, "kind", number(2));
    put_entry(&mut fields, "paddingRight", Json::Bool(true));
    object(fields)
}

fn optional_text(t: &Option<String>) -> (r: Json)
    ensures
        r.model() == sl::optional_text(t.deep_view()),
{
    match t {
        Some(t) => string(t.as_str()),
        None => Json::Null,
    }
}

pub fn document_symbol_to_lsp(s: &DocumentSymbol) -> (r: Json)
    ensures
        r.model() == sl::document_symbol(s.model()),
    decreases s,
{
    let ghost all = s.model().children;
    let mut children = no_items();
    let mut i: usize = 0;
    while i < s.children.len()
        invariant
            i <= s.children@.len(),
            all == s.model().children,
            crate::json::json_models(children@) == Seq::new(
                i as nat,
                |k: int| sl::document_symbol(all[k]),
            ),
        decreases s.children@.len() - i,
    {
        assert(all[i as int] == s.children@[i as int].model());
        put_item(&mut children, document_symbol_to_lsp(&s.children[i]));
        i = i + 1;
        assert(crate::json::json_models(children@) =~= Seq::new(
            i as nat,
            |k: int| sl::document_symbol(all[k]),
        ));
    }
    let mut fields = no_entries();
    put_entry(&mut fields, "name", string(s.name.as_str()));
    put_entry(&mut fields, "detail", optional_text(&s.detail));
    put_entry(&mut fields, "kind", number(symbol_kind(s.kind)));
    put_entry(&mut fields, "range", range_to_lsp(s.range));
    put_entry(&mut fields, "selectionRange", range_to_lsp(s.selection_range));
    let ghost wanted = sl::document_symbol(s.model())->Object_0[5].1;
    assert(wanted->Array_0 =~= crate::json::json_models(children@));
    put_entry(&mut fields, "children", array(children));
    object(fields)
}

pub fn workspace_symbol_to_lsp(files: &Vec<SourceFile>, s: &Symbol) -> (r: Json)
    ensures
        r.model() == sl::workspace_symbol(files.deep_view(), s.deep_view()),
{
    let location = Location { file: s.file.clone(), range: s.selection_range };
    let mut fields = no_entries();
    put_entry(&mut fields, "name", Json::Text(s.qualified_name()));
    put_entry(&mut fields, "kind", number(symbol_kind(s.kind)));
    put_entry(&mut fields, "location", location_to_lsp(files, &location));
    assert(s.deep_view().scope.len() == s.scope@.len());
    if s.scope.len() > 0 {
        put_entry(&mut fields, "containerName", Json::Text(join(s.scope.as_slice(), "::")));
    }
    object(fields)
}

pub fn selection_range_to_lsp(s: &SelectionRange) -> (r: Json)
    ensures
        r.model() == sl::selection_range(s.model()),
    decreases s,
{
    let mut fields = no_entries();
    put_entry(&mut fields, "range", range_to_lsp(s.range));
    if let Some(parent) = &s.parent {
        put_entry(&mut fields, "parent", selection_range_to_lsp(parent));
    }
    object(fields)
}

/// The stretch of a symbol that spans several lines.
fn fold(s: &DocumentSymbol) -> (r: Json)
    ensures
        r.model() == sl::fold(s.model()),
{
    let mut fields = no_entries();
    put_entry(&mut fields, "startLine", number(s.range.start.line));
    put_entry(&mut fields, "startCharacter", number(s.range.start.character));
    put_entry(&mut fields, "endLine", number(s.range.end.line));
    put_entry(&mut fields, "endCharacter", number(s.range.end.character));
    put_entry(&mut fields, "kind", string("region"));
    object(fields)
}

/// Adds the stretches of a symbol and of the symbols in it.
pub fn collect_symbol_folds(s: &DocumentSymbol, out: &mut Vec<Json>)
    ensures
        crate::json::json_models(final(out)@) == sl::symbol_folds(
            s.model(),
            crate::json::json_models(old(out)@),
        ),
    decreases s,
{
    let ghost wanted = sl::symbol_folds(s.model(), crate::json::json_models(out@));
    let ghost all = s.model().children;
    if s.range.end.line > s.range.start.line {
        put_item(out, fold(s));
    }
    let mut i: usize = 0;
    while i < s.children.len()
        invariant
            i <= s.children@.len(),
            all == s.model().children,
            wanted == sl::folds_from(all, i as int, crate::json::json_models(out@)),
        decreases s.children@.len() - i,
    {
        assert(all[i as int] == s.children@[i as int].model());
        collect_symbol_folds(&s.children[i], out);
        i = i + 1;
    }
}

/// The stretches of the symbols of a file.
pub fn folding_ranges(symbols: &Vec<DocumentSymbol>) -> (r: Json)
    ensures
        r.model() == sj::Json::Array(
            sl::folds_from(crate::outline::models(symbols@), 0, Seq::empty()),
        ),
{
    let ghost all = crate::outline::models(symbols@);
    let mut out = no_items();
    let mut i: usize = 0;
    while i < symbols.len()
        invariant
            i <= symbols@.len(),
            all == crate::outline::models(symbols@),
            sl::folds_from(all, 0, Seq::empty()) == sl::folds_from(
                all,
                i as int,
                crate::json::json_models(out@),
            ),
        decreases symbols@.len() - i,
    {
        collect_symbol_folds(&symbols[i], &mut out);
        i = i + 1;
    }
    array(out)
}

// ---------------------------------------------------------------------------
// Edits
// ---------------------------------------------------------------------------

fn edit(e: &TextEdit) -> (r: Json)
    ensures
        r.model() == sl::edit(e.deep_view()),
{
    let mut fields = no_entries();
    put_entry(&mut fields, "range", range_to_lsp(e.range));
    put_entry(&mut fields, "newText", string(e.new_text.as_str()));
    object(fields)
}

/// The models of changes by file.
pub open spec fn change_models(changes: Seq<(String, Vec<Json>)>) -> sl::Changes {
    Seq::new(
        changes.len(),
        |i: int| (changes[i].0@, crate::json::json_models(changes[i].1@)),
    )
}

/// Adds a change to those of its file.
fn add_change(changes: &mut Vec<(String, Vec<Json>)>, uri: String, change: Json)
    ensures
        change_models(final(changes)@) == sl::add_change(
            change_models(old(changes)@),
            uri@,
            change.model(),
        ),
{
    let ghost before = change_models(changes@);
    let ghost wanted = sl::add_change(before, uri@, change.model());
    let mut i: usize = 0;
    while i < changes.len()
        invariant
            i <= changes@.len(),
            before == change_models(changes@),
            sl::find_change(before, uri@, 0) == sl::find_change(before, uri@, i as int),
        ensures
            i <= changes@.len(),
            before == change_models(changes@),
            i < changes@.len() ==> sl::find_change(before, uri@, 0) == Some(i as int)
                && before[i as int].0 == uri@,
            i == changes@.len() ==> sl::find_change(before, uri@, 0) is None,
        decreases changes@.len() - i,
    {
        if changes[i].0 == uri {
            break;
        }
        i = i + 1;
    }
    if i < changes.len() {
        let ghost grown = before[i as int].1.push(change.model());
        let mut group = changes.remove(i);
        assert(before[i as int].1 == crate::json::json_models(group.1@));
        put_item(&mut group.1, change);
        changes.insert(i, group);
        assert(change_models(changes@) =~= before.update(i as int, (uri@, grown)));
    } else {
        let mut list = no_items();
        put_item(&mut list, change);
        changes.push((uri, list));
        assert(change_models(changes@) =~= wanted);
    }
}

pub fn workspace_edit_to_lsp(files: &Vec<SourceFile>, edits: &Vec<TextEdit>) -> (r: Json)
    ensures
        r.model() == sl::workspace_edit(files.deep_view(), edits.deep_view()),
{
    let ghost all = edits.deep_view();
    let ghost wanted = sl::changes_from(files.deep_view(), all, 0, Seq::empty());
    let mut changes: Vec<(String, Vec<Json>)> = Vec::new();
    assert(change_models(changes@) =~= Seq::empty());
    let mut i: usize = 0;
    while i < edits.len()
        invariant
            i <= edits@.len(),
            all == edits.deep_view(),
            wanted == sl::changes_from(
                files.deep_view(),
                all,
                i as int,
                change_models(changes@),
            ),
        decreases edits@.len() - i,
    {
        assert(all[i as int] == edits@[i as int].deep_view());
        add_change(
            &mut changes,
            uri_from_path(files, edits[i].file.as_str()),
            edit(&edits[i]),
        );
        i = i + 1;
    }
    let mut rest = changes;
    let mut turned: Vec<(String, Json)> = Vec::new();
    let ghost fields = sl::change_fields(wanted);
    while rest.len() > 0
        invariant
            rest@.len() + turned@.len() == wanted.len(),
            fields == sl::change_fields(wanted),
            change_models(rest@) =~= wanted.take(rest@.len() as int),
            forall|k: int|
                0 <= k < turned@.len() ==> (#[trigger] turned@[k].0@, turned@[k].1.model())
                    == fields[wanted.len() - 1 - k],
        decreases rest@.len(),
    {
        let ghost n = rest@.len() as int;
        assert(change_models(rest@)[n - 1] == wanted[n - 1]);
        if let Some(group) = rest.pop() {
            let (uri, list) = group;
            let value = array(list);
            assert((uri@, value.model()) == fields[n - 1]);
            turned.push((uri, value));
            assert(change_models(rest@) =~= wanted.take(n - 1));
        }
    }
    let mut out = no_entries();
    assert(crate::json::entry_models(out@).len() == out@.len());
    while turned.len() > 0
        invariant
            turned@.len() + out@.len() == wanted.len(),
            fields == sl::change_fields(wanted),
            crate::json::entry_models(out@) =~= fields.take(out@.len() as int),
            forall|k: int|
                0 <= k < turned@.len() ==> (#[trigger] turned@[k].0@, turned@[k].1.model())
                    == fields[wanted.len() - 1 - k],
        decreases turned@.len(),
    {
        let ghost n = out@.len() as int;
        if let Some(entry) = turned.pop() {
            let (uri, value) = entry;
            assert((uri@, value.model()) == fields[n]);
            put_entry(&mut out, uri.as_str(), value);
            assert(crate::json::entry_models(out@).len() == out@.len());
            assert(fields.take(n).push(fields[n]) =~= fields.take(n + 1));
        }
    }
    assert(crate::json::entry_models(out@) =~= fields);
    let mut result = no_entries();
    put_entry(&mut result, "changes", object(out));
    object(result)
}

pub fn code_action_to_lsp(files: &Vec<SourceFile>, a: &CodeAction) -> (r: Json)
    ensures
        r.model() == sl::code_action(files.deep_view(), a.deep_view()),
{
    let mut fields = no_entries();
    put_entry(&mut fields, "title", string(a.title.as_str()));
    put_entry(&mut fields, "kind", string(a.kind.as_str()));
    put_entry(&mut fields, "edit", workspace_edit_to_lsp(files, &a.edits));
    object(fields)
}

fn rename_message(e: &RenameError) -> (r: String)
    ensures
        r@ == sl::rename_message(e.deep_view()),
{
    match e {
        RenameError::UnresolvedSymbol => owned("No Fortran symbol at cursor"),
        RenameError::InvalidIdentifier => owned("New name is not a valid Fortran identifier"),
        RenameError::ConflictingSymbol { file, range } => {
            let mut out = owned("Rename would conflict with symbol at ");
            push_text(&mut out, file.as_str());
            push_text(&mut out, ":");
            push_text(&mut out, decimal(sum(range.start.line, 1)).as_str());
            push_text(&mut out, ":");
            push_text(&mut out, decimal(sum(range.start.character, 1)).as_str());
            out
        },
    }
}

pub fn rename_error_to_lsp(e: &RenameError) -> (r: Json)
    ensures
        r.model() == sl::rename_error(e.deep_view()),
{
    let mut fields = no_entries();
    put_entry(&mut fields, "documentChanges", array(no_items()));
    put_entry(&mut fields, "failureReason", Json::Text(rename_message(e)));
    object(fields)
}

// ---------------------------------------------------------------------------
// Messages
// ---------------------------------------------------------------------------

/// The answer to the request `id`.
pub fn response(id: Json, result: Json) -> (r: Json)
    ensures
        r.model() == sl::response(id.model(), result.model()),
{
    let mut fields = no_entries();
    put_entry(&mut fields, "jsonrpc", string("2.0"));
    put_entry(&mut fields, "id", id);
    put_entry(&mut fields, "result", result);
    object(fields)
}

/// The message that tells an editor what was found in a file.
pub fn published_diagnostics(uri: &str, diagnostics: &Vec<Diagnostic>) -> (r: Json)
    ensures
        r.model() == sl::published_diagnostics(uri@, diagnostics.deep_view()),
{
    let ghost all = diagnostics.deep_view();
    let mut items = no_items();
    let mut i: usize = 0;
    while i < diagnostics.len()
        invariant
            i <= diagnostics@.len(),
            all == diagnostics.deep_view(),
            crate::json::json_models(items@) == Seq::new(i as nat, |k: int| sl::diagnostic(all[k])),
        decreases diagnostics@.len() - i,
    {
        assert(all[i as int] == diagnostics@[i as int].deep_view());
        put_item(&mut items, diagnostic_to_lsp(&diagnostics[i]));
        i = i + 1;
        assert(crate::json::json_models(items@) =~= Seq::new(
            i as nat,
            |k: int| sl::diagnostic(all[k]),
        ));
    }
    assert(crate::json::json_models(items@) =~= Seq::new(
        all.len(),
        |k: int| sl::diagnostic(all[k]),
    ));
    let mut params = no_entries();
    put_entry(&mut params, "uri", string(uri));
    put_entry(&mut params, "diagnostics", array(items));
    let mut fields = no_entries();
    put_entry(&mut fields, "jsonrpc", string("2.0"));
    put_entry(&mut fields, "method", string("textDocument/publishDiagnostics"));
    put_entry(&mut fields, "params", object(params));
    object(fields)
}

fn document_sync() -> (r: Json)
    ensures
        r.model() == sl::document_sync(),
{
    let mut save = no_entries();
    put_entry(&mut save, "includeText", Json::Bool(true));
    let mut fields = no_entries();
    put_entry(&mut fields, "openClose", Json::Bool(true));
    put_entry(&mut fields, "change", number(1));
    put_entry(&mut fields, "save", object(save));
    object(fields)
}

fn completion_provider() -> (r: Json)
    ensures
        r.model() == sl::completion_provider(),
{
    let mut triggers = no_items();
    put_item(&mut triggers, string(":"));
    put_item(&mut triggers, string("%"));
    put_item(&mut triggers, string("("));
    put_item(&mut triggers, string(","));
    let mut fields = no_entries();
    put_entry(&mut fields, "resolveProvider", Json::Bool(false));
    put_entry(&mut fields, "triggerCharacters", array(triggers));
    object(fields)
}

fn signature_provider() -> (r: Json)
    ensures
        r.model() == sl::signature_provider(),
{
    let mut triggers = no_items();
    put_item(&mut triggers, string("("));
    put_item(&mut triggers, string(","));
    let mut fields = no_entries();
    put_entry(&mut fields, "triggerCharacters", array(triggers));
    object(fields)
}

/// The classes of tokens, each at the place of its number.
fn token_types() -> (r: Json)
    ensures
        r.model() == sl::token_types(),
{
    let mut types = no_items();
    put_item(&mut types, string("namespace"));
    put_item(&mut types, string("type"));
    put_item(&mut types, string("function"));
    put_item(&mut types, string("method"));
    put_item(&mut types, string("property"));
    put_item(&mut types, string("variable"));
    put_item(&mut types, string("parameter"));
    put_item(&mut types, string("enumMember"));
    put_item(&mut types, string("macro"));
    array(types)
}

fn token_provider() -> (r: Json)
    ensures
        r.model() == sl::token_provider(),
{
    let mut legend = no_entries();
    put_entry(&mut legend, "tokenTypes", token_types());
    put_entry(&mut legend, "tokenModifiers", array(no_items()));
    let mut fields = no_entries();
    put_entry(&mut fields, "legend", object(legend));
    put_entry(&mut fields, "full", Json::Bool(true));
    put_entry(&mut fields, "range", Json::Bool(false));
    object(fields)
}

fn capabilities() -> (r: Json)
    ensures
        r.model() == sl::capabilities(),
{
    let mut fields = no_entries();
    put_entry(&mut fields, "textDocumentSync", document_sync());
    put_entry(&mut fields, "hoverProvider", Json::Bool(true));
    put_entry(&mut fields, "definitionProvider", Json::Bool(true));
    put_entry(&mut fields, "implementationProvider", Json::Bool(true));
    put_entry(&mut fields, "referencesProvider", Json::Bool(true));
    put_entry(&mut fields, "documentHighlightProvider", Json::Bool(true));
    put_entry(&mut fields, "documentSymbolProvider", Json::Bool(true));
    put_entry(&mut fields, "workspaceSymbolProvider", Json::Bool(true));
    put_entry(&mut fields, "completionProvider", completion_provider());
    put_entry(&mut fields, "signatureHelpProvider", signature_provider());
    put_entry(&mut fields, "foldingRangeProvider", Json::Bool(true));
    put_entry(&mut fields, "codeActionProvider", Json::Bool(true));
    put_entry(&mut fields, "selectionRangeProvider", Json::Bool(true));
    put_entry(&mut fields, "inlayHintProvider", Json::Bool(true));
    put_entry(&mut fields, "renameProvider", Json::Bool(true));
    put_entry(&mut fields, "semanticTokensProvider", token_provider());
    object(fields)
}

/// What the server can do.
pub fn initialize_result(version: &str) -> (r: Json)
    ensures
        r.model() == sl::initialize_result(version@),
{
    let mut server = no_entries();
    put_entry(&mut server, "name", string("fortran-lsp"));
    put_entry(&mut server, "version", string(version));
    let mut fields = no_entries();
    put_entry(&mut fields, "capabilities", capabilities());
    put_entry(&mut fields, "serverInfo", object(server));
    object(fields)
}

// ---------------------------------------------------------------------------
// Lists
// ---------------------------------------------------------------------------

/// The places of a list.
pub fn locations_to_lsp(files: &Vec<SourceFile>, list: &Vec<Location>) -> (r: Json)
    ensures
        r.model() == sl::locations(files.deep_view(), list.deep_view()),
{
    let ghost all = list.deep_view();
    let mut items = no_items();
    let mut i: usize = 0;
    while i < list.len()
        invariant
            i <= list@.len(),
            all == list.deep_view(),
            crate::json::json_models(items@) == Seq::new(i as nat, |k: int| sl::location(files.deep_view(), all[k])),
        decreases list@.len() - i,
    {
        assert(all[i as int] == list@[i as int].deep_view());
        put_item(&mut items, location_to_lsp(files, &list[i]));
        i = i + 1;
        assert(crate::json::json_models(items@) =~= Seq::new(i as nat, |k: int| sl::location(files.deep_view(), all[k])));
    }
    assert(crate::json::json_models(items@) =~= Seq::new(all.len(), |k: int| sl::location(files.deep_view(), all[k])));
    array(items)
}

/// The marked places of a list.
pub fn highlights_to_lsp(list: &Vec<Range>) -> (r: Json)
    ensures
        r.model() == sl::highlights(list.deep_view()),
{
    let ghost all = list.deep_view();
    let mut items = no_items();
    let mut i: usize = 0;
    while i < list.len()
        invariant
            i <= list@.len(),
            all == list.deep_view(),
            crate::json::json_models(items@) == Seq::new(i as nat, |k: int| sl::highlight(all[k])),
        decreases list@.len() - i,
    {
        assert(all[i as int] == list@[i as int].deep_view());
        put_item(&mut items, highlight_to_lsp(list[i]));
        i = i + 1;
        assert(crate::json::json_models(items@) =~= Seq::new(i as nat, |k: int| sl::highlight(all[k])));
    }
    assert(crate::json::json_models(items@) =~= Seq::new(all.len(), |k: int| sl::highlight(all[k])));
    array(items)
}

/// The actions of a list.
pub fn code_actions_to_lsp(files: &Vec<SourceFile>, list: &Vec<CodeAction>) -> (r: Json)
    ensures
        r.model() == sl::code_actions(files.deep_view(), list.deep_view()),
{
    let ghost all = list.deep_view();
    let mut items = no_items();
    let mut i: usize = 0;
    while i < list.len()
        invariant
            i <= list@.len(),
            all == list.deep_view(),
            crate::json::json_models(items@) == Seq::new(i as nat, |k: int| sl::code_action(files.deep_view(), all[k])),
        decreases list@.len() - i,
    {
        assert(all[i as int] == list@[i as int].deep_view());
        put_item(&mut items, code_action_to_lsp(files, &list[i]));
        i = i + 1;
        assert(crate::json::json_models(items@) =~= Seq::new(i as nat, |k: int| sl::code_action(files.deep_view(), all[k])));
    }
    assert(crate::json::json_models(items@) =~= Seq::new(all.len(), |k: int| sl::code_action(files.deep_view(), all[k])));
    array(items)
}

/// The hints of a list.
pub fn inlay_hints_to_lsp(list: &Vec<InlayHint>) -> (r: Json)
    ensures
        r.model() == sl::inlay_hints(list.deep_view()),
{
    let ghost all = list.deep_view();
    let mut items = no_items();
    let mut i: usize = 0;
    while i < list.len()
        invariant
            i <= list@.len(),
            all == list.deep_view(),
            crate::json::json_models(items@) == Seq::new(i as nat, |k: int| sl::inlay_hint(all[k])),
        decreases list@.len() - i,
    {
        assert(all[i as int] == list@[i as int].deep_view());
        put_item(&mut items, inlay_hint_to_lsp(&list[i]));
        i = i + 1;
        assert(crate::json::json_models(items@) =~= Seq::new(i as nat, |k: int| sl::inlay_hint(all[k])));
    }
    assert(crate::json::json_models(items@) =~= Seq::new(all.len(), |k: int| sl::inlay_hint(all[k])));
    array(items)
}

/// The symbols of a list.
pub fn workspace_symbols_to_lsp(files: &Vec<SourceFile>, list: &Vec<Symbol>) -> (r: Json)
    ensures
        r.model() == sl::workspace_symbols(files.deep_view(), list.deep_view()),
{
    let ghost all = list.deep_view();
    let mut items = no_items();
    let mut i: usize = 0;
    while i < list.len()
        invariant
            i <= list@.len(),
            all == list.deep_view(),
            crate::json::json_models(items@) == Seq::new(i as nat, |k: int| sl::workspace_symbol(files.deep_view(), all[k])),
        decreases list@.len() - i,
    {
        assert(all[i as int] == list@[i as int].deep_view());
        put_item(&mut items, workspace_symbol_to_lsp(files, &list[i]));
        i = i + 1;
        assert(crate::json::json_models(items@) =~= Seq::new(i as nat, |k: int| sl::workspace_symbol(files.deep_view(), all[k])));
    }
    assert(crate::json::json_models(items@) =~= Seq::new(all.len(), |k: int| sl::workspace_symbol(files.deep_view(), all[k])));
    array(items)
}

/// The symbols of a file.
pub fn document_symbols_to_lsp(list: &Vec<DocumentSymbol>) -> (r: Json)
    ensures
        r.model() == sl::document_symbols(crate::outline::models(list@)),
{
    let ghost all = crate::outline::models(list@);
    let mut items = no_items();
    let mut i: usize = 0;
    while i < list.len()
        invariant
            i <= list@.len(),
            all == crate::outline::models(list@),
            crate::json::json_models(items@) == Seq::new(i as nat, |k: int| sl::document_symbol(all[k])),
        decreases list@.len() - i,
    {
        assert(all[i as int] == list@[i as int].model());
        put_item(&mut items, document_symbol_to_lsp(&list[i]));
        i = i + 1;
        assert(crate::json::json_models(items@) =~= Seq::new(i as nat, |k: int| sl::document_symbol(all[k])));
    }
    assert(crate::json::json_models(items@) =~= Seq::new(all.len(), |k: int| sl::document_symbol(all[k])));
    array(items)
}

/// The numbers of a list.
pub fn numbers_to_lsp(list: &Vec<u32>) -> (r: Json)
    ensures
        r.model() == sl::numbers(list@),
{
    let ghost all = list@;
    let mut items = no_items();
    let mut i: usize = 0;
    while i < list.len()
        invariant
            i <= list@.len(),
            all == list@,
            crate::json::json_models(items@) == Seq::new(i as nat, |k: int| sj::number(all[k] as usize)),
        decreases list@.len() - i,
    {
        assert(all[i as int] == list@[i as int]);
        put_item(&mut items, number(list[i] as usize));
        i = i + 1;
        assert(crate::json::json_models(items@) =~= Seq::new(i as nat, |k: int| sj::number(all[k] as usize)));
    }
    assert(crate::json::json_models(items@) =~= Seq::new(all.len(), |k: int| sj::number(all[k] as usize)));
    array(items)
}

} // verus!
