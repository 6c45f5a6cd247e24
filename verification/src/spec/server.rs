//! The language server: what a message changes and what it is answered.

use vstd::prelude::*;

use crate::model::Position;
use crate::spec::actions as sac;
use crate::spec::calls as sca;
use crate::spec::completion as sco;
use crate::spec::cursor as su;
use crate::spec::json as sj;
use crate::spec::json::Json;
use crate::spec::lsp as sl;
use crate::spec::model as sm;
use crate::spec::path as sh;
use crate::spec::protocol as sq;
use crate::spec::query as sqy;
use crate::spec::table as sb;
use crate::spec::table::Entries;
use crate::spec::text as st;
use crate::spec::text::Text;
use crate::spec::tokens as sto;
use crate::spec::workspace as sw;
use crate::spec::workspace::Workspace;

verus! {

/// A server: its workspace, the texts of the documents that an editor has open
/// under the components of their paths, and whether it was told to shut down.
#[verifier::ext_equal]
pub struct Server {
    pub workspace: Workspace,
    pub open_sources: Entries<Seq<Text>, Text>,
    pub shutdown_requested: bool,
}

/// What is read from disk for a message: the file that it speaks of, the
/// directories that it names, and the sources in them.
#[verifier::ext_equal]
pub struct Outside {
    pub disk: Option<Text>,
    pub dirs: Seq<(Text, Option<Text>)>,
    pub files: Seq<(Text, Text)>,
}

/// What a message leads to: the server behind it, what is sent back, and
/// whether the server stops.
#[verifier::ext_equal]
pub struct Outcome {
    pub server: Server,
    pub reply: Option<Json>,
    pub exit: bool,
}

/// A workspace as it is at first.
pub open spec fn no_workspace() -> Workspace {
    Workspace {
        index: crate::spec::modules::Index { files: Seq::empty(), intrinsics: Seq::empty() },
        include_roots: Seq::empty(),
        macros: Seq::empty(),
        max_line_length: None,
        max_comment_line_length: None,
        sources: Seq::empty(),
    }
}

// ---------------------------------------------------------------------------
// Documents
// ---------------------------------------------------------------------------

/// The path of the document that a message speaks of.
pub open spec fn document_path(msg: Json) -> Option<Text> {
    match sq::text_document_uri(msg) {
        Some(uri) => sq::path_from_uri(uri),
        None => None,
    }
}

/// The path of the source that a message speaks of.
pub open spec fn source_path(msg: Json) -> Option<Text> {
    match document_path(msg) {
        Some(path) => if sq::is_fortran_indexable(path) {
            Some(path)
        } else {
            None
        },
        None => None,
    }
}

pub open spec fn with_file(s: Server, path: Text, source: Text) -> Server {
    Server { workspace: sw::upsert_file(s.workspace, path, source), ..s }
}

/// The text of a document that is open.
pub open spec fn open_text(s: Server, path: Text) -> Option<Text> {
    sb::find(s.open_sources, sh::components(path))
}

/// The server with the text of an open document.
pub open spec fn with_text(s: Server, path: Text, text: Text) -> Server {
    Server {
        open_sources: sb::insert(s.open_sources, sh::components(path), text),
        ..with_file(s, path, text)
    }
}

/// The server behind a message that brings the text of a document along.
pub open spec fn with_document(s: Server, msg: Json, text: Option<Text>) -> Server {
    match source_path(msg) {
        Some(path) => match text {
            Some(text) => with_text(s, path, text),
            None => s,
        },
        None => s,
    }
}

pub open spec fn did_open(s: Server, msg: Json) -> Server {
    with_document(s, msg, sq::opened_text(msg))
}

pub open spec fn did_change(s: Server, msg: Json) -> Server {
    with_document(s, msg, sq::changed_text(msg))
}

/// The server behind the saving of a document. The text comes with the
/// message, or else from disk; it takes the place of that of an open document.
pub open spec fn did_save(s: Server, msg: Json, disk: Option<Text>) -> Server {
    let text = match sq::saved_text(msg) {
        Some(text) => Some(text),
        None => disk,
    };
    match source_path(msg) {
        Some(path) => match text {
            Some(text) => if open_text(s, path) is Some {
                with_text(s, path, text)
            } else {
                with_file(s, path, text)
            },
            None => s,
        },
        None => s,
    }
}

/// The server behind the closing of a document: what is on disk counts again,
/// and where there is nothing the file is gone.
pub open spec fn did_close(s: Server, msg: Json, disk: Option<Text>) -> Server {
    match document_path(msg) {
        Some(path) => {
            let closed = Server {
                open_sources: sb::remove(s.open_sources, sh::components(path)),
                ..s
            };
            match disk {
                Some(source) => if sq::is_fortran_indexable(path) {
                    with_file(closed, path, source)
                } else {
                    Server { workspace: sw::remove_file(closed.workspace, path), ..closed }
                },
                None => Server {
                    workspace: sw::remove_file(closed.workspace, path),
                    ..closed
                },
            }
        },
        None => s,
    }
}

// ---------------------------------------------------------------------------
// Settings
// ---------------------------------------------------------------------------

/// The workspace with the settings of a message.
pub open spec fn with_options(ws: Workspace, options: Option<Json>) -> Workspace {
    match options {
        Some(options) => sw::reparsed(
            Workspace {
                max_line_length: sq::limit(options, "maxLineLength"@),
                max_comment_line_length: sq::limit(options, "maxCommentLineLength"@),
                macros: sq::predefined_macros(options),
                ..ws
            },
        ),
        None => ws,
    }
}

/// The server with the sources from `i` on, without those of documents that are
/// open.
pub open spec fn indexed_from(s: Server, files: Seq<(Text, Text)>, i: int) -> Server
    decreases files.len() - i,
{
    if i >= files.len() {
        s
    } else {
        indexed_from(
            if open_text(s, files[i].0) is Some {
                s
            } else {
                with_file(s, files[i].0, files[i].1)
            },
            files,
            i + 1,
        )
    }
}

/// The server behind the message that starts it.
pub open spec fn configured(s: Server, msg: Json, outside: Outside) -> Server {
    let ws = with_options(s.workspace, sq::options(msg));
    indexed_from(
        Server {
            workspace: Workspace {
                include_roots: sq::existing_from(outside.dirs, 0, Seq::empty()),
                ..ws
            },
            ..s
        },
        outside.files,
        0,
    )
}

// ---------------------------------------------------------------------------
// Requests
// ---------------------------------------------------------------------------

/// The source that a request speaks of: that of an open document, or else what
/// is on disk, which the workspace then has too.
pub open spec fn source_for(s: Server, uri: Text, disk: Option<Text>) -> (
    Server,
    Option<(Text, Text)>,
) {
    match sq::path_from_uri(uri) {
        Some(path) => if !sq::is_fortran(path) {
            (s, None)
        } else {
            match open_text(s, path) {
                Some(source) => (s, Some((path, source))),
                None => match disk {
                    Some(source) => (with_file(s, path, source), Some((path, source))),
                    None => (s, None),
                },
            }
        },
        None => (s, None),
    }
}

/// The source of the document that a request speaks of.
pub open spec fn document(s: Server, msg: Json, disk: Option<Text>) -> (
    Server,
    Option<(Text, Text)>,
) {
    match sq::text_document_uri(msg) {
        Some(uri) => source_for(s, uri, disk),
        None => (s, None),
    }
}

/// The source of the document that a request speaks of, where it speaks of a
/// position too.
pub open spec fn located(s: Server, msg: Json, disk: Option<Text>) -> (
    Server,
    Option<(Text, Text)>,
) {
    if sq::position(msg) is Some {
        document(s, msg, disk)
    } else {
        (s, None)
    }
}

pub open spec fn no_list() -> Json {
    Json::Array(Seq::empty())
}

#[verifier::opaque]
pub open spec fn hover(s: Server, msg: Json, disk: Option<Text>) -> (Server, Json) {
    let (t, found) = located(s, msg, disk);
    match found {
        Some((path, source)) => match sqy::hover(
            t.workspace,
            path,
            sq::position(msg)->0,
            source,
        ) {
            Some(md) => (t, sl::hover(md)),
            None => (t, Json::Null),
        },
        None => (t, Json::Null),
    }
}

#[verifier::opaque]
pub open spec fn signature_help(s: Server, msg: Json, disk: Option<Text>) -> (Server, Json) {
    let (t, found) = located(s, msg, disk);
    match found {
        Some((path, source)) => match sqy::signature_help(
            t.workspace,
            path,
            sq::position(msg)->0,
            source,
        ) {
            Some(help) => (t, sl::signature_help(help)),
            None => (t, Json::Null),
        },
        None => (t, Json::Null),
    }
}

/// A place, or null.
pub open spec fn place(ws: Workspace, loc: Option<sm::Location>) -> Json {
    match loc {
        Some(loc) => sl::location(ws.sources, loc),
        None => Json::Null,
    }
}

#[verifier::opaque]
pub open spec fn definition(s: Server, msg: Json, disk: Option<Text>) -> (Server, Json) {
    let (t, found) = located(s, msg, disk);
    match found {
        Some((path, source)) => (
            t,
            place(
                t.workspace,
                sqy::definition_location(t.workspace, path, sq::position(msg)->0, source),
            ),
        ),
        None => (t, Json::Null),
    }
}

#[verifier::opaque]
pub open spec fn implementation(s: Server, msg: Json, disk: Option<Text>) -> (Server, Json) {
    let (t, found) = located(s, msg, disk);
    match found {
        Some((path, source)) => (
            t,
            place(
                t.workspace,
                sqy::implementation_location(t.workspace, path, sq::position(msg)->0, source),
            ),
        ),
        None => (t, Json::Null),
    }
}

/// The part of the name before a position.
pub open spec fn prefix_at(source: Text, pos: Position) -> Text {
    su::identifier_prefix(st::line(source, pos.line as int), pos.character)
}

#[verifier::opaque]
pub open spec fn completion(s: Server, msg: Json, disk: Option<Text>) -> (Server, Json) {
    let (t, found) = located(s, msg, disk);
    match found {
        Some((path, source)) => {
            let pos = sq::position(msg)->0;
            (
                t,
                sl::completion_list(
                    sco::completions_at(t.workspace, path, pos, prefix_at(source, pos)),
                ),
            )
        },
        None => (t, sl::completion_list(Seq::empty())),
    }
}

#[verifier::opaque]
pub open spec fn document_symbols(s: Server, msg: Json, disk: Option<Text>) -> (Server, Json) {
    let (t, found) = document(s, msg, disk);
    match found {
        Some((path, source)) => (
            t,
            sl::document_symbols(sw::document_symbols(t.workspace, path)),
        ),
        None => (t, no_list()),
    }
}

pub open spec fn workspace_symbols(s: Server, msg: Json) -> (Server, Json) {
    (
        s,
        sl::workspace_symbols(
            s.workspace.sources,
            sw::workspace_symbols(s.workspace, sq::query(msg)),
        ),
    )
}

#[verifier::opaque]
pub open spec fn folding_ranges(s: Server, msg: Json, disk: Option<Text>) -> (Server, Json) {
    let (t, found) = document(s, msg, disk);
    match found {
        Some((path, source)) => (
            t,
            Json::Array(
                sl::folds_from(sw::document_symbols(t.workspace, path), 0, Seq::empty()),
            ),
        ),
        None => (t, no_list()),
    }
}

/// The actions that a request asks for: at the start of its range, where it has
/// one, or else for the whole file.
pub open spec fn asked_actions(ws: Workspace, msg: Json, path: Text, source: Text) -> Option<
    Seq<sm::CodeAction>,
> {
    match sj::get_in(sq::param(msg, "range"@), "start"@) {
        Some(start) => match sq::position_of(Some(start)) {
            Some(pos) => Some(sac::code_actions_at(ws, path, pos, source)),
            None => None,
        },
        None => Some(sac::code_actions(ws, path)),
    }
}

#[verifier::opaque]
pub open spec fn code_actions(s: Server, msg: Json, disk: Option<Text>) -> (Server, Json) {
    let (t, found) = document(s, msg, disk);
    match found {
        Some((path, source)) => match asked_actions(t.workspace, msg, path, source) {
            Some(list) => (t, sl::code_actions(t.workspace.sources, list)),
            None => (t, no_list()),
        },
        None => (t, no_list()),
    }
}

#[verifier::opaque]
pub open spec fn references(s: Server, msg: Json, disk: Option<Text>) -> (Server, Json) {
    let (t, found) = located(s, msg, disk);
    match found {
        Some((path, source)) => (
            t,
            sl::locations(
                t.workspace.sources,
                sqy::references(t.workspace, path, sq::position(msg)->0, source),
            ),
        ),
        None => (t, no_list()),
    }
}

#[verifier::opaque]
pub open spec fn document_highlight(s: Server, msg: Json, disk: Option<Text>) -> (Server, Json) {
    let (t, found) = located(s, msg, disk);
    match found {
        Some((path, source)) => (
            t,
            sl::highlights(sqy::highlights(t.workspace, path, sq::position(msg)->0, source)),
        ),
        None => (t, no_list()),
    }
}

/// What can be selected at the positions from `i` on, behind `out`.
pub open spec fn selections_from(
    ws: Workspace,
    path: Text,
    source: Text,
    positions: Seq<Position>,
    i: int,
    out: Seq<Json>,
) -> Seq<Json>
    decreases positions.len() - i,
{
    if i >= positions.len() {
        out
    } else {
        selections_from(
            ws,
            path,
            source,
            positions,
            i + 1,
            match sw::selection_range(ws, path, positions[i], source) {
                Some(r) => out.push(sl::selection_range(r)),
                None => out,
            },
        )
    }
}

#[verifier::opaque]
pub open spec fn selection_ranges(s: Server, msg: Json, disk: Option<Text>) -> (Server, Json) {
    match (sq::text_document_uri(msg), sq::selection_range_positions(msg)) {
        (Some(uri), Some(positions)) => {
            let (t, found) = source_for(s, uri, disk);
            match found {
                Some((path, source)) => (
                    t,
                    Json::Array(
                        selections_from(t.workspace, path, source, positions, 0, Seq::empty()),
                    ),
                ),
                None => (t, no_list()),
            }
        },
        _ => (s, no_list()),
    }
}

#[verifier::opaque]
pub open spec fn inlay_hints(s: Server, msg: Json, disk: Option<Text>) -> (Server, Json) {
    let (t, found) = document(s, msg, disk);
    match found {
        Some((path, source)) => match sq::line_range(msg) {
            Some((first, last)) => (
                t,
                sl::inlay_hints(sca::inlay_hints(t.workspace, path, first, last)),
            ),
            None => (t, no_list()),
        },
        None => (t, no_list()),
    }
}

pub open spec fn token_data(numbers: Seq<u32>) -> Json {
    Json::Object(sl::no_fields().push(("data"@, sl::numbers(numbers))))
}

#[verifier::opaque]
pub open spec fn semantic_tokens(s: Server, msg: Json, disk: Option<Text>) -> (Server, Json) {
    let (t, found) = document(s, msg, disk);
    match found {
        Some((path, source)) => (
            t,
            token_data(sto::semantic_token_data(t.workspace, path)),
        ),
        None => (t, token_data(Seq::empty())),
    }
}

pub open spec fn rename_result(
    ws: Workspace,
    r: Result<Seq<sm::TextEdit>, sm::RenameError>,
) -> Json {
    match r {
        Ok(edits) => sl::workspace_edit(ws.sources, edits),
        Err(e) => sl::rename_error(e),
    }
}

#[verifier::opaque]
pub open spec fn rename(s: Server, msg: Json, disk: Option<Text>) -> (Server, Json) {
    match sj::as_text(sq::param(msg, "newName"@)) {
        Some(name) => {
            let (t, found) = located(s, msg, disk);
            match found {
                Some((path, source)) => (
                    t,
                    rename_result(
                        t.workspace,
                        sqy::rename(t.workspace, path, sq::position(msg)->0, source, name),
                    ),
                ),
                None => (t, Json::Null),
            }
        },
        None => (s, Json::Null),
    }
}

/// What a request is answered.
pub open spec fn request_result(s: Server, method: Text, msg: Json, disk: Option<Text>) -> (
    Server,
    Json,
) {
    if method == "textDocument/hover"@ {
        hover(s, msg, disk)
    } else if method == "textDocument/signatureHelp"@ {
        signature_help(s, msg, disk)
    } else if method == "textDocument/definition"@ {
        definition(s, msg, disk)
    } else if method == "textDocument/implementation"@ {
        implementation(s, msg, disk)
    } else if method == "textDocument/completion"@ {
        completion(s, msg, disk)
    } else if method == "textDocument/documentSymbol"@ {
        document_symbols(s, msg, disk)
    } else if method == "workspace/symbol"@ {
        workspace_symbols(s, msg)
    } else if method == "textDocument/foldingRange"@ {
        folding_ranges(s, msg, disk)
    } else if method == "textDocument/codeAction"@ {
        code_actions(s, msg, disk)
    } else if method == "textDocument/references"@ {
        references(s, msg, disk)
    } else if method == "textDocument/documentHighlight"@ {
        document_highlight(s, msg, disk)
    } else if method == "textDocument/selectionRange"@ {
        selection_ranges(s, msg, disk)
    } else if method == "textDocument/inlayHint"@ {
        inlay_hints(s, msg, disk)
    } else if method == "textDocument/semanticTokens/full"@ {
        semantic_tokens(s, msg, disk)
    } else if method == "textDocument/rename"@ {
        rename(s, msg, disk)
    } else {
        (s, Json::Null)
    }
}

// ---------------------------------------------------------------------------
// Messages
// ---------------------------------------------------------------------------

/// The message with the diagnostics of the source that a message speaks of.
pub open spec fn published(s: Server, msg: Json) -> Option<Json> {
    match source_path(msg) {
        Some(path) => Some(
            sl::published_diagnostics(
                sq::text_document_uri(msg)->0,
                sw::diagnostics(s.workspace, path),
            ),
        ),
        None => None,
    }
}

/// The answer to a message that is a request.
pub open spec fn answer(msg: Json, result: Json) -> Option<Json> {
    match sj::get(msg, "id"@) {
        Some(id) => Some(sl::response(id, result)),
        None => None,
    }
}

/// What a notification about a document leads to.
pub open spec fn noticed(s: Server, msg: Json) -> Outcome {
    Outcome { server: s, reply: published(s, msg), exit: false }
}

/// What a message leads to.
pub open spec fn handle_message(s: Server, msg: Json, outside: Outside, version: Text) -> Outcome {
    match sq::action(msg) {
        sq::Action::Nothing => Outcome { server: s, reply: None, exit: false },
        sq::Action::Initialize => Outcome {
            server: configured(s, msg, outside),
            reply: answer(msg, sl::initialize_result(version)),
            exit: false,
        },
        sq::Action::Shutdown => Outcome {
            server: Server { shutdown_requested: true, ..s },
            reply: answer(msg, Json::Null),
            exit: false,
        },
        sq::Action::Exit => Outcome { server: s, reply: None, exit: true },
        sq::Action::Open => noticed(did_open(s, msg), msg),
        sq::Action::Change => noticed(did_change(s, msg), msg),
        sq::Action::Save => noticed(did_save(s, msg, outside.disk), msg),
        sq::Action::Close => noticed(did_close(s, msg, outside.disk), msg),
        sq::Action::Request => {
            let (t, result) = request_result(s, sq::method(msg)->0, msg, outside.disk);
            Outcome { server: t, reply: answer(msg, result), exit: false }
        },
    }
}

} // verus!
