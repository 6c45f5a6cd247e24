//! The language server: what a message changes and what it is answered.

use vstd::prelude::*;

use crate::cursor::identifier_prefix;
use crate::json::{Json, array, as_text, get_in, no_items, object_of, put_item};
use crate::list::empty;
use crate::lsp::{
    CompletionItem, code_actions_to_lsp, completions_to_lsp, document_symbols_to_lsp,
    highlights_to_lsp, hover_to_lsp, initialize_result, inlay_hints_to_lsp, location_to_lsp,
    locations_to_lsp, numbers_to_lsp, published_diagnostics, rename_error_to_lsp, response,
    selection_range_to_lsp, signature_help_to_lsp, workspace_edit_to_lsp, workspace_symbols_to_lsp,
};
use crate::model::{CodeAction, Location, Position, RenameError, TextEdit};
use crate::path::components;
use crate::protocol::{
    Action, action, changed_text, existing_dirs, is_fortran, is_fortran_indexable, limit,
    line_range, method, opened_text, options, param, parse_predefined_macros, path_from_uri,
    position, position_of, query, saved_text, selection_range_positions, text_document_uri,
};
use crate::spec::json as sj;
use crate::spec::protocol as sq;
use crate::spec::server as ssv;
use crate::table::Table;
use crate::text::{chars, is_word, line, owned, text};
use crate::workspace::Workspace;

verus! {

/// A server: its workspace, the texts of the documents that an editor has
/// open, and whether it was told to shut down.
pub struct Server {
    pub workspace: Workspace,
    pub open_sources: Table<Vec<String>, String>,
    pub shutdown_requested: bool,
}

impl DeepView for Server {
    type V = ssv::Server;

    open spec fn deep_view(&self) -> ssv::Server {
        ssv::Server {
            workspace: self.workspace.deep_view(),
            open_sources: self.open_sources.deep_view(),
            shutdown_requested: self.shutdown_requested,
        }
    }
}

/// What is read from disk for a message: the file that it speaks of, the
/// directories that it names, and the sources in them.
pub struct Outside {
    pub disk: Option<String>,
    pub dirs: Vec<(String, Option<String>)>,
    pub files: Vec<(String, String)>,
}

impl DeepView for Outside {
    type V = ssv::Outside;

    open spec fn deep_view(&self) -> ssv::Outside {
        ssv::Outside {
            disk: self.disk.deep_view(),
            dirs: self.dirs.deep_view(),
            files: self.files.deep_view(),
        }
    }
}

/// What a message leads to: what is sent back, and whether the server stops.
pub struct Outcome {
    pub reply: Option<Json>,
    pub exit: bool,
}

/// The model of a value that there may be.
pub open spec fn reply_model(j: Option<Json>) -> Option<sj::Json> {
    match j {
        Some(j) => Some(j.model()),
        None => None,
    }
}

/// Whether `s` and `r` are what `wanted` says.
pub open spec fn is_outcome(s: Server, r: Outcome, wanted: ssv::Outcome) -> bool {
    &&& s.deep_view() == wanted.server
    &&& reply_model(r.reply) == wanted.reply
    &&& r.exit == wanted.exit
}

// ---------------------------------------------------------------------------
// Documents
// ---------------------------------------------------------------------------

/// The path of the document that a message speaks of.
pub fn document_path(msg: &Json) -> (r: Option<String>)
    ensures
        r.deep_view() == ssv::document_path(msg.model()),
{
    match text_document_uri(msg) {
        Some(uri) => path_from_uri(uri.as_str()),
        None => None,
    }
}

/// The path of the source that a message speaks of.
pub fn source_path(msg: &Json) -> (r: Option<String>)
    ensures
        r.deep_view() == ssv::source_path(msg.model()),
{
    match document_path(msg) {
        Some(path) => if is_fortran_indexable(path.as_str()) {
            Some(path)
        } else {
            None
        },
        None => None,
    }
}

/// A list without items.
fn no_list() -> (r: Json)
    ensures
        r.model() == ssv::no_list(),
{
    let items = no_items();
    array(items)
}

/// A place, or null.
fn place(ws: &Workspace, loc: Option<Location>) -> (r: Json)
    ensures
        r.model() == ssv::place(ws.deep_view(), loc.deep_view()),
{
    match loc {
        Some(loc) => location_to_lsp(&ws.sources, &loc),
        None => Json::Null,
    }
}

/// The part of the name before a position.
fn prefix_at(source: &str, pos: Position) -> (r: String)
    ensures
        r@ == ssv::prefix_at(source@, pos),
{
    let all = chars(source);
    let on = line(all.as_slice(), pos.line);
    let t = text(on.as_slice());
    identifier_prefix(t.as_str(), pos.character)
}

/// The actions that a request asks for: at the start of its range, where it has
/// one, or else for the whole file.
fn asked_actions(ws: &Workspace, msg: &Json, path: &str, source: &str) -> (r: Option<
    Vec<CodeAction>,
>)
    ensures
        r.deep_view() == ssv::asked_actions(ws.deep_view(), msg.model(), path@, source@),
{
    match get_in(param(msg, "range"), "start") {
        Some(start) => match position_of(Some(start)) {
            Some(pos) => Some(ws.code_actions_at(path, pos, source)),
            None => None,
        },
        None => Some(ws.code_actions(path)),
    }
}

/// What can be selected at some positions.
fn selections(ws: &Workspace, path: &str, source: &str, positions: &Vec<Position>) -> (r: Json)
    ensures
        r.model() == sj::Json::Array(
            ssv::selections_from(ws.deep_view(), path@, source@, positions@, 0, Seq::empty()),
        ),
{
    let mut out = no_items();
    let mut i: usize = 0;
    while i < positions.len()
        invariant
            i <= positions@.len(),
            ssv::selections_from(ws.deep_view(), path@, source@, positions@, 0, Seq::empty())
                == ssv::selections_from(
                ws.deep_view(),
                path@,
                source@,
                positions@,
                i as int,
                crate::json::json_models(out@),
            ),
        decreases positions@.len() - i,
    {
        if let Some(found) = ws.selection_range(path, positions[i], source) {
            put_item(&mut out, selection_range_to_lsp(&found));
        }
        i = i + 1;
    }
    array(out)
}

fn token_data(data: &Vec<u32>) -> (r: Json)
    ensures
        r.model() == ssv::token_data(data@),
{
    object_of("data", numbers_to_lsp(data))
}

fn rename_result(ws: &Workspace, found: Result<Vec<TextEdit>, RenameError>) -> (r: Json)
    ensures
        r.model() == ssv::rename_result(ws.deep_view(), crate::query::rename_model(found)),
{
    match found {
        Ok(edits) => workspace_edit_to_lsp(&ws.sources, &edits),
        Err(e) => rename_error_to_lsp(&e),
    }
}

/// The answer to a message that is a request.
fn answer(msg: &Json, result: Json) -> (r: Option<Json>)
    ensures
        reply_model(r) == ssv::answer(msg.model(), result.model()),
{
    match msg.get("id") {
        Some(id) => Some(response(id.copy(), result)),
        None => None,
    }
}

impl Server {
    /// A server without files.
    pub fn new() -> (r: Self)
        ensures
            r.deep_view().open_sources == Seq::<(Seq<Seq<char>>, Seq<char>)>::empty(),
            !r.deep_view().shutdown_requested,
            r.deep_view().workspace == ssv::no_workspace(),
    {
        Server { workspace: Workspace::new(), open_sources: Table::new(), shutdown_requested: false }
    }

    fn with_file(&mut self, path: &str, source: &str)
        ensures
            final(self).deep_view() == ssv::with_file(old(self).deep_view(), path@, source@),
    {
        let changed = self.workspace.upsert_file(path, source);
    }

    /// Takes in the text of an open document.
    fn with_text(&mut self, path: &str, source: &str)
        ensures
            final(self).deep_view() == ssv::with_text(old(self).deep_view(), path@, source@),
    {
        self.with_file(path, source);
        self.open_sources.insert(components(path), owned(source));
    }

    /// Takes in the text that a message brings along.
    fn with_document(&mut self, msg: &Json, source: Option<&String>)
        ensures
            final(self).deep_view() == ssv::with_document(
                old(self).deep_view(),
                msg.model(),
                source.deep_view(),
            ),
    {
        match source_path(msg) {
            Some(path) => match source {
                Some(source) => self.with_text(path.as_str(), source.as_str()),
                None => {},
            },
            None => {},
        }
    }

    pub fn did_open(&mut self, msg: &Json)
        ensures
            final(self).deep_view() == ssv::did_open(old(self).deep_view(), msg.model()),
    {
        self.with_document(msg, opened_text(msg));
    }

    pub fn did_change(&mut self, msg: &Json)
        ensures
            final(self).deep_view() == ssv::did_change(old(self).deep_view(), msg.model()),
    {
        self.with_document(msg, changed_text(msg));
    }

    /// Takes in a document that was saved, with its text on disk where the
    /// message brings none along.
    pub fn did_save(&mut self, msg: &Json, disk: &Option<String>)
        ensures
            final(self).deep_view() == ssv::did_save(
                old(self).deep_view(),
                msg.model(),
                disk.deep_view(),
            ),
    {
        let source = match saved_text(msg) {
            Some(source) => Some(source),
            None => match disk {
                Some(source) => Some(source),
                None => None,
            },
        };
        match source_path(msg) {
            Some(path) => match source {
                Some(source) => if self.open_sources.contains_key(&components(path.as_str())) {
                    self.with_text(path.as_str(), source.as_str());
                } else {
                    self.with_file(path.as_str(), source.as_str());
                },
                None => {},
            },
            None => {},
        }
    }

    /// Forgets the text of a document that was closed, and takes in what is on
    /// disk.
    pub fn did_close(&mut self, msg: &Json, disk: &Option<String>)
        ensures
            final(self).deep_view() == ssv::did_close(
                old(self).deep_view(),
                msg.model(),
                disk.deep_view(),
            ),
    {
        match document_path(msg) {
            Some(path) => {
                self.open_sources.remove(&components(path.as_str()));
                match disk {
                    Some(source) => if is_fortran_indexable(path.as_str()) {
                        self.with_file(path.as_str(), source.as_str());
                    } else {
                        self.workspace.remove_file(path.as_str());
                    },
                    None => {
                        self.workspace.remove_file(path.as_str());
                    },
                }
            },
            None => {},
        }
    }

    /// Takes in sources, without those of documents that are open.
    pub fn index_workspace_sources(&mut self, files: &Vec<(String, String)>)
        ensures
            final(self).deep_view() == ssv::indexed_from(
                old(self).deep_view(),
                files.deep_view(),
                0,
            ),
    {
        let ghost all = files.deep_view();
        let mut i: usize = 0;
        while i < files.len()
            invariant
                i <= files@.len(),
                all == files.deep_view(),
                ssv::indexed_from(old(self).deep_view(), all, 0) == ssv::indexed_from(
                    self.deep_view(),
                    all,
                    i as int,
                ),
            decreases files@.len() - i,
        {
            assert(all[i as int] == files@[i as int].deep_view());
            if !self.open_sources.contains_key(&components(files[i].0.as_str())) {
                self.with_file(files[i].0.as_str(), files[i].1.as_str());
            }
            i = i + 1;
        }
    }

    /// Takes in the settings of the message that starts the server, and the
    /// sources that were found.
    pub fn configure_from_initialize(&mut self, msg: &Json, outside: &Outside)
        ensures
            final(self).deep_view() == ssv::configured(
                old(self).deep_view(),
                msg.model(),
                outside.deep_view(),
            ),
    {
        let ghost before = self.deep_view();
        if let Some(options) = options(msg) {
            self.workspace.set_line_length_limits(
                limit(options, "maxLineLength"),
                limit(options, "maxCommentLineLength"),
            );
            self.workspace.set_predefined_macros(parse_predefined_macros(options));
            assert(self.workspace.deep_view() == ssv::with_options(
                before.workspace,
                sq::options(msg.model()),
            ));
        }
        self.workspace.set_include_roots(existing_dirs(&outside.dirs));
        self.index_workspace_sources(&outside.files);
    }

    /// The source that a request speaks of: that of an open document, or else
    /// what is on disk.
    pub fn source_for_uri(&mut self, uri: &str, disk: &Option<String>) -> (r: Option<
        (String, String),
    >)
        ensures
            ssv::source_for(old(self).deep_view(), uri@, disk.deep_view()) == (
                final(self).deep_view(),
                r.deep_view(),
            ),
    {
        match path_from_uri(uri) {
            Some(path) => {
                if !is_fortran(path.as_str()) {
                    return None;
                }
                if let Some(source) = self.open_sources.find(&components(path.as_str())) {
                    return Some((path, source.clone()));
                }
                match disk {
                    Some(source) => {
                        self.with_file(path.as_str(), source.as_str());
                        Some((path, source.clone()))
                    },
                    None => None,
                }
            },
            None => None,
        }
    }

    /// The source of the document that a request speaks of.
    fn document(&mut self, msg: &Json, disk: &Option<String>) -> (r: Option<(String, String)>)
        ensures
            ssv::document(old(self).deep_view(), msg.model(), disk.deep_view()) == (
                final(self).deep_view(),
                r.deep_view(),
            ),
    {
        match text_document_uri(msg) {
            Some(uri) => self.source_for_uri(uri.as_str(), disk),
            None => None,
        }
    }

    /// The position that a request speaks of, and the source of its document.
    fn located(&mut self, msg: &Json, disk: &Option<String>) -> (r: Option<
        (Position, String, String),
    >)
        ensures
            ({
                let (t, found) = ssv::located(
                    old(self).deep_view(),
                    msg.model(),
                    disk.deep_view(),
                );
                &&& final(self).deep_view() == t
                &&& match r {
                    Some((pos, path, source)) => {
                        &&& sq::position(msg.model()) == Some(pos)
                        &&& found == Some((path@, source@))
                    },
                    None => found is None,
                }
            }),
    {
        match position(msg) {
            Some(pos) => match self.document(msg, disk) {
                Some((path, source)) => Some((pos, path, source)),
                None => None,
            },
            None => None,
        }
    }

    /// What is shown of the name at a position.
    pub fn hover(&mut self, msg: &Json, disk: &Option<String>) -> (r: Json)
        ensures
            ssv::hover(old(self).deep_view(), msg.model(), disk.deep_view()) == (
                final(self).deep_view(),
                r.model(),
            ),
    {
        reveal(ssv::hover);
        match self.located(msg, disk) {
            Some((pos, path, source)) => match self.workspace.hover(
                path.as_str(),
                pos,
                source.as_str(),
            ) {
                Some(md) => hover_to_lsp(md.as_str()),
                None => Json::Null,
            },
            None => Json::Null,
        }
    }

    /// The signature of the call at a position.
    pub fn signature_help(&mut self, msg: &Json, disk: &Option<String>) -> (r: Json)
        ensures
            ssv::signature_help(old(self).deep_view(), msg.model(), disk.deep_view()) == (
                final(self).deep_view(),
                r.model(),
            ),
    {
        reveal(ssv::signature_help);
        match self.located(msg, disk) {
            Some((pos, path, source)) => match self.workspace.signature_help(
                path.as_str(),
                pos,
                source.as_str(),
            ) {
                Some(help) => signature_help_to_lsp(&help),
                None => Json::Null,
            },
            None => Json::Null,
        }
    }

    /// Where the name at a position is defined.
    pub fn definition(&mut self, msg: &Json, disk: &Option<String>) -> (r: Json)
        ensures
            ssv::definition(old(self).deep_view(), msg.model(), disk.deep_view()) == (
                final(self).deep_view(),
                r.model(),
            ),
    {
        reveal(ssv::definition);
        match self.located(msg, disk) {
            Some((pos, path, source)) => {
                let loc = self.workspace.definition_location(path.as_str(), pos, source.as_str());
                place(&self.workspace, loc)
            },
            None => Json::Null,
        }
    }

    /// Where the name at a position is implemented.
    pub fn implementation(&mut self, msg: &Json, disk: &Option<String>) -> (r: Json)
        ensures
            ssv::implementation(old(self).deep_view(), msg.model(), disk.deep_view()) == (
                final(self).deep_view(),
                r.model(),
            ),
    {
        reveal(ssv::implementation);
        match self.located(msg, disk) {
            Some((pos, path, source)) => {
                let loc = self.workspace.implementation_location(path.as_str(), pos, source.as_str());
                place(&self.workspace, loc)
            },
            None => Json::Null,
        }
    }

    /// The names that can stand at a position.
    pub fn completion(&mut self, msg: &Json, disk: &Option<String>) -> (r: Json)
        ensures
            ssv::completion(old(self).deep_view(), msg.model(), disk.deep_view()) == (
                final(self).deep_view(),
                r.model(),
            ),
    {
        reveal(ssv::completion);
        match self.located(msg, disk) {
            Some((pos, path, source)) => {
                let prefix = prefix_at(source.as_str(), pos);
                let items = self.workspace.completions_at(path.as_str(), pos, prefix.as_str());
                completions_to_lsp(&items)
            },
            None => {
                let items: Vec<CompletionItem> = empty();
                completions_to_lsp(&items)
            },
        }
    }

    /// The symbols of a document.
    pub fn document_symbols(&mut self, msg: &Json, disk: &Option<String>) -> (r: Json)
        ensures
            ssv::document_symbols(old(self).deep_view(), msg.model(), disk.deep_view()) == (
                final(self).deep_view(),
                r.model(),
            ),
    {
        reveal(ssv::document_symbols);
        match self.document(msg, disk) {
            Some((path, source)) => {
                let symbols = self.workspace.document_symbols(path.as_str());
                document_symbols_to_lsp(&symbols)
            },
            None => no_list(),
        }
    }

    /// The symbols of the workspace that are searched for.
    pub fn workspace_symbols(&self, msg: &Json) -> (r: Json)
        ensures
            ssv::workspace_symbols(self.deep_view(), msg.model()) == (self.deep_view(), r.model()),
    {
        let wanted = query(msg);
        let symbols = self.workspace.workspace_symbols(wanted.as_str());
        workspace_symbols_to_lsp(&self.workspace.sources, &symbols)
    }

    /// The stretches of a document that can be folded.
    pub fn folding_ranges(&mut self, msg: &Json, disk: &Option<String>) -> (r: Json)
        ensures
            ssv::folding_ranges(old(self).deep_view(), msg.model(), disk.deep_view()) == (
                final(self).deep_view(),
                r.model(),
            ),
    {
        reveal(ssv::folding_ranges);
        match self.document(msg, disk) {
            Some((path, source)) => {
                let symbols = self.workspace.document_symbols(path.as_str());
                crate::lsp::folding_ranges(&symbols)
            },
            None => no_list(),
        }
    }

    /// The actions that are offered.
    pub fn code_actions(&mut self, msg: &Json, disk: &Option<String>) -> (r: Json)
        ensures
            ssv::code_actions(old(self).deep_view(), msg.model(), disk.deep_view()) == (
                final(self).deep_view(),
                r.model(),
            ),
    {
        reveal(ssv::code_actions);
        match self.document(msg, disk) {
            Some((path, source)) => match asked_actions(
                &self.workspace,
                msg,
                path.as_str(),
                source.as_str(),
            ) {
                Some(list) => code_actions_to_lsp(&self.workspace.sources, &list),
                None => no_list(),
            },
            None => no_list(),
        }
    }

    /// The uses of the name at a position.
    pub fn references(&mut self, msg: &Json, disk: &Option<String>) -> (r: Json)
        ensures
            ssv::references(old(self).deep_view(), msg.model(), disk.deep_view()) == (
                final(self).deep_view(),
                r.model(),
            ),
    {
        reveal(ssv::references);
        match self.located(msg, disk) {
            Some((pos, path, source)) => {
                let list = self.workspace.references(path.as_str(), pos, source.as_str());
                locations_to_lsp(&self.workspace.sources, &list)
            },
            None => no_list(),
        }
    }

    /// The uses in the document of the name at a position.
    pub fn document_highlight(&mut self, msg: &Json, disk: &Option<String>) -> (r: Json)
        ensures
            ssv::document_highlight(old(self).deep_view(), msg.model(), disk.deep_view()) == (
                final(self).deep_view(),
                r.model(),
            ),
    {
        reveal(ssv::document_highlight);
        match self.located(msg, disk) {
            Some((pos, path, source)) => {
                let list = self.workspace.highlights(path.as_str(), pos, source.as_str());
                highlights_to_lsp(&list)
            },
            None => no_list(),
        }
    }

    /// What can be selected at some positions.
    pub fn selection_ranges(&mut self, msg: &Json, disk: &Option<String>) -> (r: Json)
        ensures
            ssv::selection_ranges(old(self).deep_view(), msg.model(), disk.deep_view()) == (
                final(self).deep_view(),
                r.model(),
            ),
    {
        reveal(ssv::selection_ranges);
        match (text_document_uri(msg), selection_range_positions(msg)) {
            (Some(uri), Some(positions)) => match self.source_for_uri(uri.as_str(), disk) {
                Some((path, source)) => selections(
                    &self.workspace,
                    path.as_str(),
                    source.as_str(),
                    &positions,
                ),
                None => no_list(),
            },
            _ => no_list(),
        }
    }

    /// The names of arguments that are shown in calls.
    pub fn inlay_hints(&mut self, msg: &Json, disk: &Option<String>) -> (r: Json)
        ensures
            ssv::inlay_hints(old(self).deep_view(), msg.model(), disk.deep_view()) == (
                final(self).deep_view(),
                r.model(),
            ),
    {
        reveal(ssv::inlay_hints);
        match self.document(msg, disk) {
            Some((path, source)) => match line_range(msg) {
                Some((first, last)) => {
                    let hints = self.workspace.inlay_hints(path.as_str(), first, last);
                    inlay_hints_to_lsp(&hints)
                },
                None => no_list(),
            },
            None => no_list(),
        }
    }

    /// The numbers that stand for the tokens of a document.
    pub fn semantic_tokens(&mut self, msg: &Json, disk: &Option<String>) -> (r: Json)
        ensures
            ssv::semantic_tokens(old(self).deep_view(), msg.model(), disk.deep_view()) == (
                final(self).deep_view(),
                r.model(),
            ),
    {
        reveal(ssv::semantic_tokens);
        match self.document(msg, disk) {
            Some((path, source)) => {
                let data = self.workspace.semantic_token_data(path.as_str());
                token_data(&data)
            },
            None => {
                let data: Vec<u32> = Vec::new();
                token_data(&data)
            },
        }
    }

    /// The changes that give the name at a position another name.
    pub fn rename(&mut self, msg: &Json, disk: &Option<String>) -> (r: Json)
        ensures
            ssv::rename(old(self).deep_view(), msg.model(), disk.deep_view()) == (
                final(self).deep_view(),
                r.model(),
            ),
    {
        reveal(ssv::rename);
        match as_text(param(msg, "newName")) {
            Some(name) => match self.located(msg, disk) {
                Some((pos, path, source)) => {
                    let found = self.workspace.rename(
                        path.as_str(),
                        pos,
                        source.as_str(),
                        name.as_str(),
                    );
                    rename_result(&self.workspace, found)
                },
                None => Json::Null,
            },
            None => Json::Null,
        }
    }

    /// What a request is answered.
    pub fn request_result(&mut self, name: &str, msg: &Json, disk: &Option<String>) -> (r: Json)
        ensures
            ssv::request_result(old(self).deep_view(), name@, msg.model(), disk.deep_view()) == (
                final(self).deep_view(),
                r.model(),
            ),
    {
        let all = chars(name);
        let name = all.as_slice();
        if is_word(name, "textDocument/hover") {
            self.hover(msg, disk)
        } else if is_word(name, "textDocument/signatureHelp") {
            self.signature_help(msg, disk)
        } else if is_word(name, "textDocument/definition") {
            self.definition(msg, disk)
        } else if is_word(name, "textDocument/implementation") {
            self.implementation(msg, disk)
        } else if is_word(name, "textDocument/completion") {
            self.completion(msg, disk)
        } else if is_word(name, "textDocument/documentSymbol") {
            self.document_symbols(msg, disk)
        } else if is_word(name, "workspace/symbol") {
            self.workspace_symbols(msg)
        } else if is_word(name, "textDocument/foldingRange") {
            self.folding_ranges(msg, disk)
        } else if is_word(name, "textDocument/codeAction") {
            self.code_actions(msg, disk)
        } else if is_word(name, "textDocument/references") {
            self.references(msg, disk)
        } else if is_word(name, "textDocument/documentHighlight") {
            self.document_highlight(msg, disk)
        } else if is_word(name, "textDocument/selectionRange") {
            self.selection_ranges(msg, disk)
        } else if is_word(name, "textDocument/inlayHint") {
            self.inlay_hints(msg, disk)
        } else if is_word(name, "textDocument/semanticTokens/full") {
            self.semantic_tokens(msg, disk)
        } else if is_word(name, "textDocument/rename") {
            self.rename(msg, disk)
        } else {
            Json::Null
        }
    }

    /// The message with the diagnostics of the source that a message speaks of.
    pub fn published(&self, msg: &Json) -> (r: Option<Json>)
        ensures
            reply_model(r) == ssv::published(self.deep_view(), msg.model()),
    {
        match text_document_uri(msg) {
            Some(uri) => match source_path(msg) {
                Some(path) => {
                    let diagnostics = self.workspace.diagnostics(path.as_str());
                    Some(published_diagnostics(uri.as_str(), &diagnostics))
                },
                None => None,
            },
            None => None,
        }
    }

    /// Takes in a message, with what was read from disk for it, and says what
    /// is sent back and whether the server stops.
    pub fn handle_message(&mut self, msg: &Json, outside: &Outside, version: &str) -> (r: Outcome)
        ensures
            is_outcome(
                *final(self),
                r,
                ssv::handle_message(
                    old(self).deep_view(),
                    msg.model(),
                    outside.deep_view(),
                    version@,
                ),
            ),
    {
        match action(msg) {
            Action::Nothing => Outcome { reply: None, exit: false },
            Action::Initialize => {
                self.configure_from_initialize(msg, outside);
                Outcome { reply: answer(msg, initialize_result(version)), exit: false }
            },
            Action::Shutdown => {
                self.shutdown_requested = true;
                Outcome { reply: answer(msg, Json::Null), exit: false }
            },
            Action::Exit => Outcome { reply: None, exit: true },
            Action::Open => {
                self.did_open(msg);
                Outcome { reply: self.published(msg), exit: false }
            },
            Action::Change => {
                self.did_change(msg);
                Outcome { reply: self.published(msg), exit: false }
            },
            Action::Save => {
                self.did_save(msg, &outside.disk);
                Outcome { reply: self.published(msg), exit: false }
            },
            Action::Close => {
                self.did_close(msg, &outside.disk);
                Outcome { reply: self.published(msg), exit: false }
            },
            Action::Request => match method(msg) {
                Some(name) => {
                    let result = self.request_result(name.as_str(), msg, &outside.disk);
                    Outcome { reply: answer(msg, result), exit: false }
                },
                None => Outcome { reply: None, exit: false },
            },
        }
    }
}

} // verus!
