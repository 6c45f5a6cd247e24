//! What is answered to an editor.

use vstd::prelude::*;

use crate::model::{DiagnosticSeverity, Position, Range, SymbolKind};
use crate::spec::json as sj;
use crate::spec::json::Json;
use crate::spec::model as sm;
use crate::spec::outline as so;
use crate::spec::source as ssr;
use crate::spec::text as st;
use crate::spec::text::Text;

verus! {

/// The entries of an object, as they are put together.
pub type Fields = Seq<(Text, Json)>;

/// An object without entries.
pub open spec fn no_fields() -> Fields {
    Seq::empty()
}

#[verifier::ext_equal]
pub struct CompletionItem {
    pub label: Text,
    pub detail: Text,
    pub kind: SymbolKind,
    pub documentation: Option<Text>,
}

#[verifier::ext_equal]
pub struct SignatureHelp {
    pub label: Text,
    pub parameters: Seq<Text>,
    pub active_parameter: usize,
    pub documentation: Option<Text>,
}

// ---------------------------------------------------------------------------
// Numbers for kinds
// ---------------------------------------------------------------------------

pub open spec fn symbol_kind(kind: SymbolKind) -> usize {
    match kind {
        SymbolKind::Module | SymbolKind::Program | SymbolKind::Submodule => 2,
        SymbolKind::Interface => 11,
        SymbolKind::Type => 23,
        SymbolKind::Subroutine | SymbolKind::Function => 12,
        SymbolKind::Method => 6,
        SymbolKind::Variable => 13,
        SymbolKind::Block | SymbolKind::Associate | SymbolKind::SelectType => 3,
        SymbolKind::Use => 2,
    }
}

pub open spec fn completion_kind(kind: SymbolKind) -> usize {
    match kind {
        SymbolKind::Module | SymbolKind::Program | SymbolKind::Submodule => 9,
        SymbolKind::Interface | SymbolKind::Type => 7,
        SymbolKind::Subroutine | SymbolKind::Function | SymbolKind::Method => 3,
        SymbolKind::Variable => 6,
        SymbolKind::Block | SymbolKind::Associate | SymbolKind::SelectType => 14,
        SymbolKind::Use => 9,
    }
}

pub open spec fn severity(s: DiagnosticSeverity) -> usize {
    match s {
        DiagnosticSeverity::Error => 1,
        DiagnosticSeverity::Warning => 2,
        DiagnosticSeverity::Information => 3,
    }
}

// ---------------------------------------------------------------------------
// Places
// ---------------------------------------------------------------------------

pub open spec fn position(p: Position) -> Json {
    Json::Object(
        no_fields().push(("line"@, sj::number(p.line))).push(
            ("character"@, sj::number(p.character)),
        ),
    )
}

pub open spec fn range(r: Range) -> Json {
    Json::Object(no_fields().push(("start"@, position(r.start))).push(("end"@, position(r.end))))
}

/// The URI of a file: that of the path that identifies it.
pub open spec fn uri_from_path(files: Seq<ssr::SourceFile>, path: Text) -> Text {
    "file://"@ + ssr::canonical(files, path)
}

pub open spec fn location(files: Seq<ssr::SourceFile>, loc: sm::Location) -> Json {
    Json::Object(
        no_fields().push(("uri"@, Json::Text(uri_from_path(files, loc.file)))).push(
            ("range"@, range(loc.range)),
        ),
    )
}

pub open spec fn highlight(r: Range) -> Json {
    Json::Object(no_fields().push(("range"@, range(r))).push(("kind"@, sj::number(1))))
}

// ---------------------------------------------------------------------------
// Answers
// ---------------------------------------------------------------------------

pub open spec fn markdown(t: Text) -> Json {
    Json::Object(
        no_fields().push(("kind"@, Json::Text("markdown"@))).push(("value"@, Json::Text(t))),
    )
}

pub open spec fn hover(md: Text) -> Json {
    Json::Object(no_fields().push(("contents"@, markdown(md))))
}

pub open spec fn diagnostic(d: sm::Diagnostic) -> Json {
    Json::Object(
        no_fields().push(("range"@, range(d.range))).push(
            ("severity"@, sj::number(severity(d.severity))),
        ).push(("source"@, Json::Text("fortran-lsp"@))).push(("message"@, Json::Text(d.message))),
    )
}

/// The entries with documentation behind them, where there is any.
pub open spec fn documented(fields: Fields, documentation: Option<Text>) -> Fields {
    match documentation {
        Some(docs) => fields.push(("documentation"@, markdown(docs))),
        None => fields,
    }
}

pub open spec fn parameter(label: Text) -> Json {
    Json::Object(no_fields().push(("label"@, Json::Text(label))))
}

pub open spec fn parameters(labels: Seq<Text>) -> Json {
    Json::Array(Seq::new(labels.len(), |i: int| parameter(labels[i])))
}

pub open spec fn signature_help(help: SignatureHelp) -> Json {
    let signature = Json::Object(
        documented(
            no_fields().push(("label"@, Json::Text(help.label))).push(
                ("parameters"@, parameters(help.parameters)),
            ),
            help.documentation,
        ),
    );
    Json::Object(
        no_fields().push(("signatures"@, Json::Array(Seq::empty().push(signature)))).push(
            ("activeSignature"@, sj::number(0)),
        ).push(("activeParameter"@, sj::number(help.active_parameter))),
    )
}

pub open spec fn completion(item: CompletionItem) -> Json {
    Json::Object(
        documented(
            no_fields().push(("label"@, Json::Text(item.label))).push(
                ("kind"@, sj::number(completion_kind(item.kind))),
            ).push(("detail"@, Json::Text(item.detail))),
            item.documentation,
        ),
    )
}

pub open spec fn completion_list(items: Seq<CompletionItem>) -> Json {
    Json::Object(
        no_fields().push(("isIncomplete"@, Json::Bool(false))).push(
            ("items"@, Json::Array(Seq::new(items.len(), |i: int| completion(items[i])))),
        ),
    )
}

pub open spec fn inlay_hint(hint: sm::InlayHint) -> Json {
    Json::Object(
        no_fields().push(("position"@, position(hint.position))).push(
            ("label"@, Json::Text(hint.label)),
        ).push(("kind"@, sj::number(2))).push(("paddingRight"@, Json::Bool(true))),
    )
}

pub open spec fn optional_text(t: Option<Text>) -> Json {
    match t {
        Some(t) => Json::Text(t),
        None => Json::Null,
    }
}

pub open spec fn document_symbol(s: so::DocumentSymbol) -> Json
    decreases s,
{
    Json::Object(
        no_fields().push(("name"@, Json::Text(s.name))).push(
            ("detail"@, optional_text(s.detail)),
        ).push(("kind"@, sj::number(symbol_kind(s.kind)))).push(("range"@, range(s.range))).push(
            ("selectionRange"@, range(s.selection_range)),
        ).push(
            (
                "children"@,
                Json::Array(
                    Seq::new(
                        s.children.len(),
                        |i: int|
                            if 0 <= i < s.children.len() {
                                document_symbol(s.children[i])
                            } else {
                                arbitrary()
                            },
                    ),
                ),
            ),
        ),
    )
}

pub open spec fn workspace_symbol(files: Seq<ssr::SourceFile>, s: sm::Symbol) -> Json {
    let fields = no_fields().push(("name"@, Json::Text(sm::qualified_name(s)))).push(
        ("kind"@, sj::number(symbol_kind(s.kind))),
    ).push(
        ("location"@, location(files, sm::Location { file: s.file, range: s.selection_range })),
    );
    Json::Object(
        if s.scope.len() == 0 {
            fields
        } else {
            fields.push(("containerName"@, Json::Text(st::join(s.scope, "::"@))))
        },
    )
}

pub open spec fn selection_range(s: sm::SelectionRange) -> Json
    decreases s,
{
    let fields = no_fields().push(("range"@, range(s.range)));
    Json::Object(
        match s.parent {
            Some(parent) => fields.push(("parent"@, selection_range(*parent))),
            None => fields,
        },
    )
}

/// The stretch of a symbol that spans several lines.
pub open spec fn fold(s: so::DocumentSymbol) -> Json {
    Json::Object(
        no_fields().push(("startLine"@, sj::number(s.range.start.line))).push(
            ("startCharacter"@, sj::number(s.range.start.character)),
        ).push(("endLine"@, sj::number(s.range.end.line))).push(
            ("endCharacter"@, sj::number(s.range.end.character)),
        ).push(("kind"@, Json::Text("region"@))),
    )
}

/// The stretches of a symbol and of the symbols in it, behind `out`.
pub open spec fn symbol_folds(s: so::DocumentSymbol, out: Seq<Json>) -> Seq<Json>
    decreases s, 0int,
{
    folds_from(
        s.children,
        0,
        if s.range.end.line > s.range.start.line {
            out.push(fold(s))
        } else {
            out
        },
    )
}

/// The stretches of the symbols from `i` on, behind `out`.
pub open spec fn folds_from(
    symbols: Seq<so::DocumentSymbol>,
    i: int,
    out: Seq<Json>,
) -> Seq<Json>
    decreases symbols, symbols.len() - i,
{
    if 0 <= i < symbols.len() {
        folds_from(symbols, i + 1, symbol_folds(symbols[i], out))
    } else {
        out
    }
}

// ---------------------------------------------------------------------------
// Edits
// ---------------------------------------------------------------------------

/// Changes by the URI of the file that they are made to.
pub type Changes = Seq<(Text, Seq<Json>)>;

pub open spec fn edit(e: sm::TextEdit) -> Json {
    Json::Object(
        no_fields().push(("range"@, range(e.range))).push(("newText"@, Json::Text(e.new_text))),
    )
}

/// The first of the changes from `i` on that are made to a file.
pub open spec fn find_change(changes: Changes, uri: Text, i: int) -> Option<int>
    decreases changes.len() - i,
{
    if i >= changes.len() {
        None
    } else if changes[i].0 == uri {
        Some(i)
    } else {
        find_change(changes, uri, i + 1)
    }
}

/// The changes with one more.
pub open spec fn add_change(changes: Changes, uri: Text, change: Json) -> Changes {
    match find_change(changes, uri, 0) {
        Some(k) => changes.update(k, (uri, changes[k].1.push(change))),
        None => changes.push((uri, Seq::empty().push(change))),
    }
}

/// The changes that the edits from `i` on make, behind `out`.
pub open spec fn changes_from(
    files: Seq<ssr::SourceFile>,
    edits: Seq<sm::TextEdit>,
    i: int,
    out: Changes,
) -> Changes
    decreases edits.len() - i,
{
    if i >= edits.len() {
        out
    } else {
        changes_from(
            files,
            edits,
            i + 1,
            add_change(out, uri_from_path(files, edits[i].file), edit(edits[i])),
        )
    }
}

pub open spec fn change_fields(changes: Changes) -> Fields {
    Seq::new(changes.len(), |i: int| (changes[i].0, Json::Array(changes[i].1)))
}

pub open spec fn workspace_edit(files: Seq<ssr::SourceFile>, edits: Seq<sm::TextEdit>) -> Json {
    Json::Object(
        no_fields().push(
            (
                "changes"@,
                Json::Object(change_fields(changes_from(files, edits, 0, Seq::empty()))),
            ),
        ),
    )
}

pub open spec fn code_action(files: Seq<ssr::SourceFile>, a: sm::CodeAction) -> Json {
    Json::Object(
        no_fields().push(("title"@, Json::Text(a.title))).push(("kind"@, Json::Text(a.kind))).push(
            ("edit"@, workspace_edit(files, a.edits)),
        ),
    )
}

pub open spec fn rename_message(e: sm::RenameError) -> Text {
    match e {
        sm::RenameError::UnresolvedSymbol => "No Fortran symbol at cursor"@,
        sm::RenameError::InvalidIdentifier => "New name is not a valid Fortran identifier"@,
        sm::RenameError::ConflictingSymbol { file, range } => {
            "Rename would conflict with symbol at "@ + file + ":"@ + st::decimal(
                st::size((range.start.line + 1) as nat) as nat,
            ) + ":"@ + st::decimal(st::size((range.start.character + 1) as nat) as nat)
        },
    }
}

pub open spec fn rename_error(e: sm::RenameError) -> Json {
    Json::Object(
        no_fields().push(("documentChanges"@, Json::Array(Seq::empty()))).push(
            ("failureReason"@, Json::Text(rename_message(e))),
        ),
    )
}

// ---------------------------------------------------------------------------
// Messages
// ---------------------------------------------------------------------------

pub open spec fn response(id: Json, result: Json) -> Json {
    Json::Object(
        no_fields().push(("jsonrpc"@, Json::Text("2.0"@))).push(("id"@, id)).push(
            ("result"@, result),
        ),
    )
}

pub open spec fn published_diagnostics(uri: Text, diagnostics: Seq<sm::Diagnostic>) -> Json {
    let params = Json::Object(
        no_fields().push(("uri"@, Json::Text(uri))).push(
            (
                "diagnostics"@,
                Json::Array(Seq::new(diagnostics.len(), |i: int| diagnostic(diagnostics[i]))),
            ),
        ),
    );
    Json::Object(
        no_fields().push(("jsonrpc"@, Json::Text("2.0"@))).push(
            ("method"@, Json::Text("textDocument/publishDiagnostics"@)),
        ).push(("params"@, params)),
    )
}

pub open spec fn document_sync() -> Json {
    Json::Object(
        no_fields().push(("openClose"@, Json::Bool(true))).push(("change"@, sj::number(1))).push(
            ("save"@, Json::Object(no_fields().push(("includeText"@, Json::Bool(true))))),
        ),
    )
}

pub open spec fn completion_provider() -> Json {
    Json::Object(
        no_fields().push(("resolveProvider"@, Json::Bool(false))).push(
            (
                "triggerCharacters"@,
                Json::Array(
                    Seq::empty().push(Json::Text(":"@)).push(Json::Text("%"@)).push(
                        Json::Text("("@),
                    ).push(Json::Text(","@)),
                ),
            ),
        ),
    )
}

pub open spec fn signature_provider() -> Json {
    Json::Object(
        no_fields().push(
            (
                "triggerCharacters"@,
                Json::Array(Seq::empty().push(Json::Text("("@)).push(Json::Text(","@))),
            ),
        ),
    )
}

/// The classes of tokens, each at the place of its number.
pub open spec fn token_types() -> Json {
    Json::Array(
        Seq::empty().push(Json::Text("namespace"@)).push(Json::Text("type"@)).push(
            Json::Text("function"@),
        ).push(Json::Text("method"@)).push(Json::Text("property"@)).push(
            Json::Text("variable"@),
        ).push(Json::Text("parameter"@)).push(Json::Text("enumMember"@)).push(
            Json::Text("macro"@),
        ),
    )
}

pub open spec fn token_provider() -> Json {
    Json::Object(
        no_fields().push(
            (
                "legend"@,
                Json::Object(
                    no_fields().push(("tokenTypes"@, token_types())).push(
                        ("tokenModifiers"@, Json::Array(Seq::empty())),
                    ),
                ),
            ),
        ).push(("full"@, Json::Bool(true))).push(("range"@, Json::Bool(false))),
    )
}

pub open spec fn capabilities() -> Json {
    Json::Object(
        no_fields().push(("textDocumentSync"@, document_sync())).push(
            ("hoverProvider"@, Json::Bool(true)),
        ).push(("definitionProvider"@, Json::Bool(true))).push(
            ("implementationProvider"@, Json::Bool(true)),
        ).push(("referencesProvider"@, Json::Bool(true))).push(
            ("documentHighlightProvider"@, Json::Bool(true)),
        ).push(("documentSymbolProvider"@, Json::Bool(true))).push(
            ("workspaceSymbolProvider"@, Json::Bool(true)),
        ).push(("completionProvider"@, completion_provider())).push(
            ("signatureHelpProvider"@, signature_provider()),
        ).push(("foldingRangeProvider"@, Json::Bool(true))).push(
            ("codeActionProvider"@, Json::Bool(true)),
        ).push(("selectionRangeProvider"@, Json::Bool(true))).push(
            ("inlayHintProvider"@, Json::Bool(true)),
        ).push(("renameProvider"@, Json::Bool(true))).push(
            ("semanticTokensProvider"@, token_provider()),
        ),
    )
}

pub open spec fn initialize_result(version: Text) -> Json {
    Json::Object(
        no_fields().push(("capabilities"@, capabilities())).push(
            (
                "serverInfo"@,
                Json::Object(
                    no_fields().push(("name"@, Json::Text("fortran-lsp"@))).push(
                        ("version"@, Json::Text(version)),
                    ),
                ),
            ),
        ),
    )
}

// ---------------------------------------------------------------------------
// Lists
// ---------------------------------------------------------------------------

/// The places of a list.
pub open spec fn locations(files: Seq<ssr::SourceFile>, list: Seq<sm::Location>) -> Json {
    Json::Array(Seq::new(list.len(), |i: int| location(files, list[i])))
}

/// The marked places of a list.
pub open spec fn highlights(list: Seq<Range>) -> Json {
    Json::Array(Seq::new(list.len(), |i: int| highlight(list[i])))
}

/// The actions of a list.
pub open spec fn code_actions(files: Seq<ssr::SourceFile>, list: Seq<sm::CodeAction>) -> Json {
    Json::Array(Seq::new(list.len(), |i: int| code_action(files, list[i])))
}

/// The hints of a list.
pub open spec fn inlay_hints(list: Seq<sm::InlayHint>) -> Json {
    Json::Array(Seq::new(list.len(), |i: int| inlay_hint(list[i])))
}

/// The symbols of a list.
pub open spec fn workspace_symbols(files: Seq<ssr::SourceFile>, list: Seq<sm::Symbol>) -> Json {
    Json::Array(Seq::new(list.len(), |i: int| workspace_symbol(files, list[i])))
}

/// The symbols of a file.
pub open spec fn document_symbols(list: Seq<so::DocumentSymbol>) -> Json {
    Json::Array(Seq::new(list.len(), |i: int| document_symbol(list[i])))
}

/// The numbers of a list.
pub open spec fn numbers(list: Seq<u32>) -> Json {
    Json::Array(Seq::new(list.len(), |i: int| sj::number(list[i] as usize)))
}

} // verus!
