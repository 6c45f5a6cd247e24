//! The language server.

use vstd::prelude::*;

use crate::laws::workspace::{
    law_current, law_remove_file, law_reparsed_files, law_same_path, law_upsert_file,
};
use crate::spec::json as sj;
use crate::spec::json::Json;
use crate::spec::lsp as sl;
use crate::spec::path as sh;
use crate::spec::protocol as sq;
use crate::spec::server as ssv;
use crate::spec::server::{Outside, Server};
use crate::spec::table as sb;
use crate::spec::text::Text;
use crate::spec::workspace as sw;
use crate::spec::workspace::Workspace;

verus! {

/// Whether the workspace holds a document that is open with the text that the
/// editor gave.
pub open spec fn holds_open(s: Server, path: Text) -> bool {
    ssv::open_text(s, path) matches Some(t) ==> crate::laws::workspace::file_of(
        s.workspace,
        path,
    ) matches Some(p) && p.source == t
}

/// What holds of a server at all times: no file is there twice, every file is
/// what its source stands for, and the open documents are there with the texts
/// that the editor gave.
pub open spec fn is_consistent(s: Server) -> bool {
    &&& crate::laws::workspace::distinct_paths(s.workspace)
    &&& crate::laws::workspace::is_current(s.workspace)
    &&& forall|path: Text| #[trigger] holds_open(s, path)
}

/// A server as it is at first is consistent.
pub proof fn law_new(s: Server)
    requires
        s.workspace == ssv::no_workspace(),
        s.open_sources == Seq::<(Seq<Text>, Text)>::empty(),
    ensures
        is_consistent(s),
{
}

proof fn lemma_with_file(s: Server, path: Text, source: Text)
    requires
        is_consistent(s),
        ssv::open_text(s, path) matches Some(t) ==> t == source,
    ensures
        is_consistent(ssv::with_file(s, path, source)),
{
    let t = ssv::with_file(s, path, source);
    law_upsert_file(s.workspace, path, source, path);
    law_current(s.workspace, path, source);
    assert forall|other: Text| #[trigger] holds_open(t, other) by {
        assert(holds_open(s, other));
        law_upsert_file(s.workspace, path, source, other);
        if sh::same_path(other, path) {
            law_same_path(t.workspace, other, path);
        }
    }
}

proof fn lemma_with_text(s: Server, path: Text, source: Text)
    requires
        is_consistent(s),
    ensures
        is_consistent(ssv::with_text(s, path, source)),
        ssv::open_text(ssv::with_text(s, path, source), path) == Some(source),
{
    let t = ssv::with_text(s, path, source);
    law_upsert_file(s.workspace, path, source, path);
    law_current(s.workspace, path, source);
    sb::law_insert(s.open_sources, sh::components(path), source, sh::components(path));
    assert forall|other: Text| #[trigger] holds_open(t, other) by {
        assert(holds_open(s, other));
        law_upsert_file(s.workspace, path, source, other);
        if sh::same_path(other, path) {
            law_same_path(t.workspace, other, path);
        }
        sb::law_insert(s.open_sources, sh::components(path), source, sh::components(other));
    }
}

proof fn lemma_closed(s: Server, msg: Json, disk: Option<Text>)
    requires
        is_consistent(s),
    ensures
        is_consistent(ssv::did_close(s, msg, disk)),
{
    if let Some(path) = ssv::document_path(msg) {
        let closed = Server { open_sources: sb::remove(s.open_sources, sh::components(path)), ..s };
        sb::law_remove(s.open_sources, sh::components(path), sh::components(path));
        assert forall|other: Text| #[trigger] holds_open(closed, other) by {
            assert(holds_open(s, other));
            sb::law_remove(s.open_sources, sh::components(path), sh::components(other));
        }
        let gone = Server { workspace: sw::remove_file(closed.workspace, path), ..closed };
        law_remove_file(closed.workspace, path, path);
        law_current(closed.workspace, path, path);
        assert forall|other: Text| #[trigger] holds_open(gone, other) by {
            assert(holds_open(closed, other));
            law_remove_file(closed.workspace, path, other);
        }
        if let Some(source) = disk {
            lemma_with_file(closed, path, source);
        }
    }
}

proof fn lemma_indexed(s: Server, files: Seq<(Text, Text)>, i: int)
    requires
        is_consistent(s),
        0 <= i,
    ensures
        is_consistent(ssv::indexed_from(s, files, i)),
    decreases files.len() - i,
{
    if i < files.len() {
        if ssv::open_text(s, files[i].0) is Some {
            lemma_indexed(s, files, i + 1);
        } else {
            lemma_with_file(s, files[i].0, files[i].1);
            lemma_indexed(ssv::with_file(s, files[i].0, files[i].1), files, i + 1);
        }
    }
}

proof fn lemma_reparsed(s: Server, t: Server)
    requires
        crate::laws::workspace::distinct_paths(s.workspace),
        forall|path: Text| #[trigger] holds_open(s, path),
        t == (Server { workspace: sw::reparsed(s.workspace), ..s }),
    ensures
        is_consistent(t),
{
    law_current(s.workspace, Seq::empty(), Seq::empty());
    law_reparsed_files(s.workspace, Seq::empty());
    assert forall|path: Text| #[trigger] holds_open(t, path) by {
        assert(holds_open(s, path));
        law_reparsed_files(s.workspace, path);
    }
}

proof fn lemma_configured(s: Server, msg: Json, outside: Outside)
    requires
        is_consistent(s),
    ensures
        is_consistent(ssv::configured(s, msg, outside)),
{
    let ws = ssv::with_options(s.workspace, sq::options(msg));
    let t = Server { workspace: ws, ..s };
    if let Some(options) = sq::options(msg) {
        let set = Server {
            workspace: Workspace {
                max_line_length: sq::limit(options, "maxLineLength"@),
                max_comment_line_length: sq::limit(options, "maxCommentLineLength"@),
                macros: sq::predefined_macros(options),
                ..s.workspace
            },
            ..s
        };
        assert forall|path: Text| #[trigger] holds_open(set, path) by {
            assert(holds_open(s, path));
        }
        lemma_reparsed(set, t);
    }
    let u = Server {
        workspace: Workspace {
            include_roots: sq::existing_from(outside.dirs, 0, Seq::empty()),
            ..ws
        },
        ..s
    };
    assert forall|path: Text| #[trigger] holds_open(u, path) by {
        assert(holds_open(t, path));
    }
    assert(crate::laws::workspace::is_current(u.workspace)) by {
        assert forall|i: int| 0 <= i < u.workspace.index.files.len() implies
            #[trigger] u.workspace.index.files[i] == sw::parse(
            u.workspace,
            u.workspace.index.files[i].path,
            u.workspace.index.files[i].source,
        ) by {
            assert(t.workspace.index.files[i] == u.workspace.index.files[i]);
        }
    }
    lemma_indexed(u, outside.files, 0);
}

proof fn lemma_source_for(s: Server, uri: Text, disk: Option<Text>)
    requires
        is_consistent(s),
    ensures
        is_consistent(ssv::source_for(s, uri, disk).0),
{
    if let Some(path) = sq::path_from_uri(uri) {
        if ssv::open_text(s, path) is None {
            if let Some(source) = disk {
                lemma_with_file(s, path, source);
            }
        }
    }
}

/// Whether a server is as it was, or with the source that a request speaks of.
spec fn is_kept(t: Server, s: Server, msg: Json, disk: Option<Text>) -> bool {
    t == s || (sq::text_document_uri(msg) matches Some(uri) && t == ssv::source_for(
        s,
        uri,
        disk,
    ).0)
}

proof fn lemma_located(s: Server, msg: Json, disk: Option<Text>)
    ensures
        is_kept(ssv::document(s, msg, disk).0, s, msg, disk),
        is_kept(ssv::located(s, msg, disk).0, s, msg, disk),
{
}

proof fn lemma_located_requests(s: Server, msg: Json, disk: Option<Text>)
    ensures
        ssv::hover(s, msg, disk).0 == ssv::located(s, msg, disk).0,
        ssv::signature_help(s, msg, disk).0 == ssv::located(s, msg, disk).0,
        ssv::definition(s, msg, disk).0 == ssv::located(s, msg, disk).0,
        ssv::implementation(s, msg, disk).0 == ssv::located(s, msg, disk).0,
        ssv::completion(s, msg, disk).0 == ssv::located(s, msg, disk).0,
        ssv::references(s, msg, disk).0 == ssv::located(s, msg, disk).0,
        ssv::document_highlight(s, msg, disk).0 == ssv::located(s, msg, disk).0,
        ssv::rename(s, msg, disk).0 == s || ssv::rename(s, msg, disk).0 == ssv::located(
            s,
            msg,
            disk,
        ).0,
{
    reveal(ssv::hover);
    reveal(ssv::signature_help);
    reveal(ssv::definition);
    reveal(ssv::implementation);
    reveal(ssv::completion);
    reveal(ssv::references);
    reveal(ssv::document_highlight);
    reveal(ssv::rename);
}

proof fn lemma_document_requests(s: Server, msg: Json, disk: Option<Text>)
    ensures
        ssv::document_symbols(s, msg, disk).0 == ssv::document(s, msg, disk).0,
        ssv::folding_ranges(s, msg, disk).0 == ssv::document(s, msg, disk).0,
        ssv::code_actions(s, msg, disk).0 == ssv::document(s, msg, disk).0,
        ssv::inlay_hints(s, msg, disk).0 == ssv::document(s, msg, disk).0,
        ssv::semantic_tokens(s, msg, disk).0 == ssv::document(s, msg, disk).0,
        ssv::selection_ranges(s, msg, disk).0 == s || ssv::selection_ranges(s, msg, disk).0
            == ssv::document(s, msg, disk).0,
{
    reveal(ssv::document_symbols);
    reveal(ssv::folding_ranges);
    reveal(ssv::code_actions);
    reveal(ssv::inlay_hints);
    reveal(ssv::semantic_tokens);
    reveal(ssv::selection_ranges);
}

/// A request leaves the server as it was, or with the source that it speaks of.
proof fn lemma_request(s: Server, method: Text, msg: Json, disk: Option<Text>)
    ensures
        is_kept(ssv::request_result(s, method, msg, disk).0, s, msg, disk),
{
    lemma_located(s, msg, disk);
    lemma_located_requests(s, msg, disk);
    lemma_document_requests(s, msg, disk);
}

/// Every message leaves a consistent server consistent.
pub proof fn law_handle_message(s: Server, msg: Json, outside: Outside, version: Text)
    requires
        is_consistent(s),
    ensures
        is_consistent(ssv::handle_message(s, msg, outside, version).server),
{
    match sq::action(msg) {
        sq::Action::Nothing => {},
        sq::Action::Initialize => {
            lemma_configured(s, msg, outside);
        },
        sq::Action::Shutdown => {
            let t = Server { shutdown_requested: true, ..s };
            assert forall|path: Text| #[trigger] holds_open(t, path) by {
                assert(holds_open(s, path));
            }
        },
        sq::Action::Exit => {},
        sq::Action::Open => {
            if let (Some(path), Some(t)) = (ssv::source_path(msg), sq::opened_text(msg)) {
                lemma_with_text(s, path, t);
            }
        },
        sq::Action::Change => {
            if let (Some(path), Some(t)) = (ssv::source_path(msg), sq::changed_text(msg)) {
                lemma_with_text(s, path, t);
            }
        },
        sq::Action::Save => {
            let found = match sq::saved_text(msg) {
                Some(t) => Some(t),
                None => outside.disk,
            };
            if let (Some(path), Some(t)) = (ssv::source_path(msg), found) {
                if ssv::open_text(s, path) is Some {
                    lemma_with_text(s, path, t);
                } else {
                    lemma_with_file(s, path, t);
                }
            }
        },
        sq::Action::Close => {
            lemma_closed(s, msg, outside.disk);
        },
        sq::Action::Request => {
            lemma_request(s, sq::method(msg)->0, msg, outside.disk);
            if let Some(uri) = sq::text_document_uri(msg) {
                lemma_source_for(s, uri, outside.disk);
            }
        },
    }
}

/// The text that an editor opens a document with is what requests about it see,
/// whatever is on disk; the other documents keep their texts.
pub proof fn law_open(s: Server, msg: Json, uri: Text, disk: Option<Text>, other: Text)
    requires
        sq::text_document_uri(msg) == Some(uri),
        sq::opened_text(msg) is Some,
        ssv::source_path(msg) is Some,
    ensures
        ({
            let path = ssv::source_path(msg)->0;
            let t = ssv::did_open(s, msg);
            &&& ssv::open_text(t, path) == sq::opened_text(msg)
            &&& sq::is_fortran(path) ==> ssv::source_for(t, uri, disk) == (
                t,
                Some((path, sq::opened_text(msg)->0)),
            )
            &&& !sh::same_path(other, path) ==> ssv::open_text(t, other) == ssv::open_text(s, other)
        }),
{
    let path = ssv::source_path(msg)->0;
    sb::law_insert(
        s.open_sources,
        sh::components(path),
        sq::opened_text(msg)->0,
        sh::components(other),
    );
}

/// A document that is closed is open no more; what is on disk counts, and where
/// there is nothing on disk the workspace has it no more.
pub proof fn law_close(s: Server, msg: Json, path: Text, disk: Option<Text>)
    requires
        is_consistent(s),
        ssv::document_path(msg) == Some(path),
    ensures
        ({
            let t = ssv::did_close(s, msg, disk);
            &&& ssv::open_text(t, path) is None
            &&& match disk {
                Some(source) => if sq::is_fortran_indexable(path) {
                    crate::laws::workspace::file_of(t.workspace, path) matches Some(p) && p.source
                        == source
                } else {
                    crate::laws::workspace::file_of(t.workspace, path) is None
                },
                None => crate::laws::workspace::file_of(t.workspace, path) is None,
            }
        }),
{
    sb::law_remove(s.open_sources, sh::components(path), sh::components(path));
    law_remove_file(s.workspace, path, path);
    if let Some(source) = disk {
        law_upsert_file(s.workspace, path, source, path);
    }
}

/// A server stops at `exit` and at nothing else; `shutdown` is remembered.
pub proof fn law_exit(s: Server, msg: Json, outside: Outside, version: Text)
    ensures
        ssv::handle_message(s, msg, outside, version).exit <==> sq::method(msg) == Some("exit"@),
        sq::method(msg) == Some("shutdown"@) ==> ssv::handle_message(
            s,
            msg,
            outside,
            version,
        ).server.shutdown_requested,
{
    reveal_strlit("exit");
    reveal_strlit("initialize");
    reveal_strlit("initialized");
    reveal_strlit("shutdown");
    reveal_strlit("textDocument/didOpen");
    assert("exit"@.len() != "initialize"@.len());
    assert("exit"@.len() != "initialized"@.len());
    assert("exit"@.len() != "shutdown"@.len());
    assert("shutdown"@.len() != "initialize"@.len());
    assert("shutdown"@.len() != "initialized"@.len());
}

/// Every request is answered under its own id; a request without an id, `exit`
/// and what asks for nothing are answered nothing.
pub proof fn law_answer(s: Server, msg: Json, outside: Outside, version: Text)
    ensures
        ({
            let reply = ssv::handle_message(s, msg, outside, version).reply;
            &&& sq::action(msg) is Request || sq::action(msg) is Initialize || sq::action(
                msg,
            ) is Shutdown ==> match sj::get(msg, "id"@) {
                Some(id) => exists|result: Json| reply == Some(#[trigger] sl::response(id, result)),
                None => reply is None,
            }
            &&& sq::action(msg) is Nothing || sq::action(msg) is Exit ==> reply is None
        }),
{
    if let Some(id) = sj::get(msg, "id"@) {
        let result = match sq::action(msg) {
            sq::Action::Initialize => sl::initialize_result(version),
            sq::Action::Request => ssv::request_result(
                s,
                sq::method(msg)->0,
                msg,
                outside.disk,
            ).1,
            _ => Json::Null,
        };
        assert(sl::response(id, result) == sl::response(id, result));
    }
}

/// Whether a value says that nothing was found.
pub open spec fn says_nothing(j: Json) -> bool {
    j is Null || j == ssv::no_list() || j == sl::completion_list(Seq::empty()) || j
        == ssv::token_data(Seq::empty())
}

/// Whether the document that a request speaks of is no source, or neither open
/// nor on disk.
pub open spec fn is_unknown(s: Server, msg: Json, disk: Option<Text>) -> bool {
    sq::text_document_uri(msg) matches Some(uri) ==> match sq::path_from_uri(uri) {
        Some(path) => !sq::is_fortran(path) || (disk is None && ssv::open_text(s, path) is None),
        None => true,
    }
}

proof fn lemma_unknown(s: Server, msg: Json, disk: Option<Text>)
    requires
        is_unknown(s, msg, disk),
    ensures
        ssv::document(s, msg, disk) == (s, None::<(Text, Text)>),
        ssv::located(s, msg, disk) == (s, None::<(Text, Text)>),
{
}

proof fn lemma_unknown_located(s: Server, msg: Json, disk: Option<Text>)
    requires
        ssv::located(s, msg, disk) == (s, None::<(Text, Text)>),
    ensures
        ssv::hover(s, msg, disk) == (s, Json::Null),
        ssv::signature_help(s, msg, disk) == (s, Json::Null),
        ssv::definition(s, msg, disk) == (s, Json::Null),
        ssv::implementation(s, msg, disk) == (s, Json::Null),
        ssv::completion(s, msg, disk) == (s, sl::completion_list(Seq::empty())),
        ssv::references(s, msg, disk) == (s, ssv::no_list()),
        ssv::document_highlight(s, msg, disk) == (s, ssv::no_list()),
        ssv::rename(s, msg, disk) == (s, Json::Null),
{
    reveal(ssv::hover);
    reveal(ssv::signature_help);
    reveal(ssv::definition);
    reveal(ssv::implementation);
    reveal(ssv::completion);
    reveal(ssv::references);
    reveal(ssv::document_highlight);
    reveal(ssv::rename);
}

proof fn lemma_unknown_document(s: Server, msg: Json, disk: Option<Text>)
    requires
        ssv::document(s, msg, disk) == (s, None::<(Text, Text)>),
    ensures
        ssv::document_symbols(s, msg, disk) == (s, ssv::no_list()),
        ssv::folding_ranges(s, msg, disk) == (s, ssv::no_list()),
        ssv::code_actions(s, msg, disk) == (s, ssv::no_list()),
        ssv::inlay_hints(s, msg, disk) == (s, ssv::no_list()),
        ssv::semantic_tokens(s, msg, disk) == (s, ssv::token_data(Seq::empty())),
        ssv::selection_ranges(s, msg, disk) == (s, ssv::no_list()),
{
    reveal(ssv::document_symbols);
    reveal(ssv::folding_ranges);
    reveal(ssv::code_actions);
    reveal(ssv::inlay_hints);
    reveal(ssv::semantic_tokens);
    reveal(ssv::selection_ranges);
}

/// A request about a document that is no source, or that is neither open nor on
/// disk, changes nothing and is answered that nothing was found.
pub proof fn law_unknown_document(s: Server, method: Text, msg: Json, disk: Option<Text>)
    requires
        method != "workspace/symbol"@,
        is_unknown(s, msg, disk),
    ensures
        ssv::request_result(s, method, msg, disk).0 == s,
        says_nothing(ssv::request_result(s, method, msg, disk).1),
{
    lemma_unknown(s, msg, disk);
    lemma_unknown_located(s, msg, disk);
    lemma_unknown_document(s, msg, disk);
}

} // verus!
