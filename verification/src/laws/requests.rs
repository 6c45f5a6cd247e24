//! What requests are answered.

use vstd::prelude::*;

use crate::laws::lsp::{
    are_edits, edits_of, law_read_completions, law_read_edits, law_read_highlights, law_read_hints,
    law_read_hover, law_read_location, law_read_locations, law_read_signature, law_read_symbols,
    reads_location, reads_markdown, reads_number, reads_position, reads_range, reads_symbol,
    reads_text,
};
use crate::model::Position;
use crate::spec::calls as sca;
use crate::spec::completion as sco;
use crate::spec::cursor as su;
use crate::spec::json as sj;
use crate::spec::json::Json;
use crate::spec::protocol as sq;
use crate::spec::query as sqy;
use crate::spec::server as ssv;
use crate::spec::server::Server;
use crate::spec::text as st;
use crate::spec::text::Text;
use crate::spec::workspace as sw;

verus! {

/// Whether a message speaks of a document that is open with a text.
pub open spec fn speaks_of(s: Server, msg: Json, path: Text, source: Text) -> bool {
    &&& sj::as_text(
        sj::get_in(sj::get_in(sj::get(msg, "params"@), "textDocument"@), "uri"@),
    ) matches Some(uri) && sq::path_from_uri(uri) == Some(path)
    &&& sq::is_fortran(path)
    &&& ssv::open_text(s, path) == Some(source)
}

/// Whether a message speaks of a position of a document that is open with a text.
pub open spec fn asks_at(s: Server, msg: Json, path: Text, source: Text, pos: Position) -> bool {
    &&& speaks_of(s, msg, path, source)
    &&& reads_position(sj::get_in(sj::get(msg, "params"@), "position"@), pos)
}

proof fn lemma_asks(s: Server, msg: Json, disk: Option<Text>, path: Text, source: Text)
    requires
        speaks_of(s, msg, path, source),
    ensures
        ssv::document(s, msg, disk) == (s, Some((path, source))),
        sq::position(msg) is Some ==> ssv::located(s, msg, disk) == (s, Some((path, source))),
{
}

proof fn lemma_position(msg: Json, pos: Position)
    requires
        reads_position(sj::get_in(sj::get(msg, "params"@), "position"@), pos),
    ensures
        sq::position(msg) == Some(pos),
{
}

/// A request for what is shown at a position is answered with it.
pub proof fn law_hover_request(
    s: Server,
    msg: Json,
    disk: Option<Text>,
    path: Text,
    source: Text,
    pos: Position,
)
    requires
        asks_at(s, msg, path, source, pos),
    ensures
        ({
            let (t, result) = ssv::request_result(s, "textDocument/hover"@, msg, disk);
            &&& t == s
            &&& match sqy::hover(s.workspace, path, pos, source) {
                Some(md) => reads_markdown(sj::get(result, "contents"@), md),
                None => result == Json::Null,
            }
        }),
{
    reveal_strlit("textDocument/hover");
    reveal(ssv::hover);
    lemma_asks(s, msg, disk, path, source);
    lemma_position(msg, pos);
    if let Some(md) = sqy::hover(s.workspace, path, pos, source) {
        law_read_hover(md);
    }
}

/// A request for the procedure that is being called is answered with its label and the
/// number of the argument that is being written.
pub proof fn law_signature_request(
    s: Server,
    msg: Json,
    disk: Option<Text>,
    path: Text,
    source: Text,
    pos: Position,
)
    requires
        asks_at(s, msg, path, source, pos),
    ensures
        ({
            let (t, result) = ssv::request_result(s, "textDocument/signatureHelp"@, msg, disk);
            &&& t == s
            &&& match sqy::signature_help(s.workspace, path, pos, source) {
                Some(help) => {
                    &&& reads_number(
                        sj::get(result, "activeParameter"@),
                        help.active_parameter as nat,
                    )
                    &&& sj::as_array(sj::get(result, "signatures"@)) matches Some(list)
                        && list.len() == 1 && reads_text(sj::get(list[0], "label"@), help.label)
                },
                None => result == Json::Null,
            }
        }),
{
    reveal_strlit("textDocument/signatureHelp");
    reveal_strlit("textDocument/hover");
    assert("textDocument/hover"@.len() != "textDocument/signatureHelp"@.len());
    reveal(ssv::signature_help);
    lemma_asks(s, msg, disk, path, source);
    lemma_position(msg, pos);
    if let Some(help) = sqy::signature_help(s.workspace, path, pos, source) {
        law_read_signature(help);
    }
}

/// A request for where a name is defined is answered with that place.
pub proof fn law_definition_request(
    s: Server,
    msg: Json,
    disk: Option<Text>,
    path: Text,
    source: Text,
    pos: Position,
)
    requires
        asks_at(s, msg, path, source, pos),
    ensures
        ({
            let (t, result) = ssv::request_result(s, "textDocument/definition"@, msg, disk);
            &&& t == s
            &&& match sqy::definition_location(s.workspace, path, pos, source) {
                Some(loc) => reads_location(Some(result), s.workspace.sources, loc),
                None => result == Json::Null,
            }
        }),
{
    reveal_strlit("textDocument/definition");
    reveal_strlit("textDocument/hover");
    assert("textDocument/hover"@.len() != "textDocument/definition"@.len());
    reveal_strlit("textDocument/signatureHelp");
    assert("textDocument/signatureHelp"@.len() != "textDocument/definition"@.len());
    reveal(ssv::definition);
    lemma_asks(s, msg, disk, path, source);
    lemma_position(msg, pos);
    if let Some(loc) = sqy::definition_location(s.workspace, path, pos, source) {
        law_read_location(s.workspace.sources, loc);
    }
}

/// A request for where a name is implemented is answered with that place.
pub proof fn law_implementation_request(
    s: Server,
    msg: Json,
    disk: Option<Text>,
    path: Text,
    source: Text,
    pos: Position,
)
    requires
        asks_at(s, msg, path, source, pos),
    ensures
        ({
            let (t, result) = ssv::request_result(s, "textDocument/implementation"@, msg, disk);
            &&& t == s
            &&& match sqy::implementation_location(s.workspace, path, pos, source) {
                Some(loc) => reads_location(Some(result), s.workspace.sources, loc),
                None => result == Json::Null,
            }
        }),
{
    reveal_strlit("textDocument/implementation");
    reveal_strlit("textDocument/hover");
    assert("textDocument/hover"@.len() != "textDocument/implementation"@.len());
    reveal_strlit("textDocument/signatureHelp");
    assert("textDocument/signatureHelp"@.len() != "textDocument/implementation"@.len());
    reveal_strlit("textDocument/definition");
    assert("textDocument/definition"@.len() != "textDocument/implementation"@.len());
    reveal(ssv::implementation);
    lemma_asks(s, msg, disk, path, source);
    lemma_position(msg, pos);
    if let Some(loc) = sqy::implementation_location(s.workspace, path, pos, source) {
        law_read_location(s.workspace.sources, loc);
    }
}

/// A request for what can stand at a position is answered with what is offered for
/// the part of the name before it.
pub proof fn law_completion_request(
    s: Server,
    msg: Json,
    disk: Option<Text>,
    path: Text,
    source: Text,
    pos: Position,
)
    requires
        asks_at(s, msg, path, source, pos),
    ensures
        ({
            let (t, result) = ssv::request_result(s, "textDocument/completion"@, msg, disk);
            &&& t == s
            &&& ({
                let offered = sco::completions_at(
                    s.workspace,
                    path,
                    pos,
                    su::identifier_prefix(st::line(source, pos.line as int), pos.character),
                );
                sj::as_array(sj::get(result, "items"@)) matches Some(list) && list.len()
                    == offered.len() && forall|i: int|
                    0 <= i < offered.len() ==> reads_text(
                        sj::get(#[trigger] list[i], "label"@),
                        offered[i].label,
                    )
            })
        }),
{
    reveal_strlit("textDocument/completion");
    reveal_strlit("textDocument/hover");
    assert("textDocument/hover"@.len() != "textDocument/completion"@.len());
    reveal_strlit("textDocument/signatureHelp");
    assert("textDocument/signatureHelp"@.len() != "textDocument/completion"@.len());
    reveal_strlit("textDocument/definition");
    assert("textDocument/definition"@[13] != "textDocument/completion"@[13]);
    reveal_strlit("textDocument/implementation");
    assert("textDocument/implementation"@.len() != "textDocument/completion"@.len());
    reveal(ssv::completion);
    lemma_asks(s, msg, disk, path, source);
    lemma_position(msg, pos);
    law_read_completions(
        sco::completions_at(
            s.workspace,
            path,
            pos,
            su::identifier_prefix(st::line(source, pos.line as int), pos.character),
        ),
    );
}

/// A request for the symbols of a document is answered with them.
pub proof fn law_symbols_request(
    s: Server,
    msg: Json,
    disk: Option<Text>,
    path: Text,
    source: Text,
)
    requires
        speaks_of(s, msg, path, source),
    ensures
        ({
            let (t, result) = ssv::request_result(s, "textDocument/documentSymbol"@, msg, disk);
            &&& t == s
            &&& ({
                let symbols = sw::document_symbols(s.workspace, path);
                sj::as_array(Some(result)) matches Some(items) && items.len() == symbols.len()
                    && forall|i: int|
                    0 <= i < symbols.len() ==> reads_symbol(#[trigger] items[i], symbols[i])
            })
        }),
{
    reveal_strlit("textDocument/documentSymbol");
    reveal_strlit("textDocument/hover");
    assert("textDocument/hover"@.len() != "textDocument/documentSymbol"@.len());
    reveal_strlit("textDocument/signatureHelp");
    assert("textDocument/signatureHelp"@.len() != "textDocument/documentSymbol"@.len());
    reveal_strlit("textDocument/definition");
    assert("textDocument/definition"@.len() != "textDocument/documentSymbol"@.len());
    reveal_strlit("textDocument/implementation");
    assert("textDocument/implementation"@[13] != "textDocument/documentSymbol"@[13]);
    reveal_strlit("textDocument/completion");
    assert("textDocument/completion"@.len() != "textDocument/documentSymbol"@.len());
    reveal(ssv::document_symbols);
    lemma_asks(s, msg, disk, path, source);
    law_read_symbols(sw::document_symbols(s.workspace, path));
}

/// A request for the references of a name is answered with their places.
pub proof fn law_references_request(
    s: Server,
    msg: Json,
    disk: Option<Text>,
    path: Text,
    source: Text,
    pos: Position,
)
    requires
        asks_at(s, msg, path, source, pos),
    ensures
        ({
            let (t, result) = ssv::request_result(s, "textDocument/references"@, msg, disk);
            &&& t == s
            &&& ({
                let list = sqy::references(s.workspace, path, pos, source);
                sj::as_array(Some(result)) matches Some(items) && items.len() == list.len()
                    && forall|i: int|
                    0 <= i < list.len() ==> reads_location(
                        Some(#[trigger] items[i]),
                        s.workspace.sources,
                        list[i],
                    )
            })
        }),
{
    reveal_strlit("textDocument/references");
    reveal_strlit("textDocument/hover");
    assert("textDocument/hover"@.len() != "textDocument/references"@.len());
    reveal_strlit("textDocument/signatureHelp");
    assert("textDocument/signatureHelp"@.len() != "textDocument/references"@.len());
    reveal_strlit("textDocument/definition");
    assert("textDocument/definition"@[13] != "textDocument/references"@[13]);
    reveal_strlit("textDocument/implementation");
    assert("textDocument/implementation"@.len() != "textDocument/references"@.len());
    reveal_strlit("textDocument/completion");
    assert("textDocument/completion"@[13] != "textDocument/references"@[13]);
    reveal_strlit("textDocument/documentSymbol");
    assert("textDocument/documentSymbol"@.len() != "textDocument/references"@.len());
    reveal_strlit("workspace/symbol");
    assert("workspace/symbol"@.len() != "textDocument/references"@.len());
    reveal_strlit("textDocument/foldingRange");
    assert("textDocument/foldingRange"@.len() != "textDocument/references"@.len());
    reveal_strlit("textDocument/codeAction");
    assert("textDocument/codeAction"@[13] != "textDocument/references"@[13]);
    reveal(ssv::references);
    lemma_asks(s, msg, disk, path, source);
    lemma_position(msg, pos);
    law_read_locations(
        s.workspace.sources,
        sqy::references(s.workspace, path, pos, source),
    );
}

/// A request for the places of a name in its document is answered with them.
pub proof fn law_highlight_request(
    s: Server,
    msg: Json,
    disk: Option<Text>,
    path: Text,
    source: Text,
    pos: Position,
)
    requires
        asks_at(s, msg, path, source, pos),
    ensures
        ({
            let (t, result) = ssv::request_result(s, "textDocument/documentHighlight"@, msg, disk);
            &&& t == s
            &&& ({
                let list = sqy::highlights(s.workspace, path, pos, source);
                sj::as_array(Some(result)) matches Some(items) && items.len() == list.len()
                    && forall|i: int|
                    0 <= i < list.len() ==> reads_range(
                        sj::get_in(Some(#[trigger] items[i]), "range"@),
                        list[i],
                    )
            })
        }),
{
    reveal_strlit("textDocument/documentHighlight");
    reveal_strlit("textDocument/hover");
    assert("textDocument/hover"@.len() != "textDocument/documentHighlight"@.len());
    reveal_strlit("textDocument/signatureHelp");
    assert("textDocument/signatureHelp"@.len() != "textDocument/documentHighlight"@.len());
    reveal_strlit("textDocument/definition");
    assert("textDocument/definition"@.len() != "textDocument/documentHighlight"@.len());
    reveal_strlit("textDocument/implementation");
    assert("textDocument/implementation"@.len() != "textDocument/documentHighlight"@.len());
    reveal_strlit("textDocument/completion");
    assert("textDocument/completion"@.len() != "textDocument/documentHighlight"@.len());
    reveal_strlit("textDocument/documentSymbol");
    assert("textDocument/documentSymbol"@.len() != "textDocument/documentHighlight"@.len());
    reveal_strlit("workspace/symbol");
    assert("workspace/symbol"@.len() != "textDocument/documentHighlight"@.len());
    reveal_strlit("textDocument/foldingRange");
    assert("textDocument/foldingRange"@.len() != "textDocument/documentHighlight"@.len());
    reveal_strlit("textDocument/codeAction");
    assert("textDocument/codeAction"@.len() != "textDocument/documentHighlight"@.len());
    reveal_strlit("textDocument/references");
    assert("textDocument/references"@.len() != "textDocument/documentHighlight"@.len());
    reveal(ssv::document_highlight);
    lemma_asks(s, msg, disk, path, source);
    lemma_position(msg, pos);
    law_read_highlights(sqy::highlights(s.workspace, path, pos, source));
}

/// A request for hints is answered with those of the lines that it asks for.
pub proof fn law_hints_request(
    s: Server,
    msg: Json,
    disk: Option<Text>,
    path: Text,
    source: Text,
    first: usize,
    last: usize,
)
    requires
        speaks_of(s, msg, path, source),
        sq::line_range(msg) == Some((first, last)),
    ensures
        ({
            let (t, result) = ssv::request_result(s, "textDocument/inlayHint"@, msg, disk);
            &&& t == s
            &&& ({
                let list = sca::inlay_hints(s.workspace, path, first, last);
                sj::as_array(Some(result)) matches Some(items) && items.len() == list.len()
                    && forall|i: int|
                    0 <= i < list.len() ==> reads_position(
                        sj::get(#[trigger] items[i], "position"@),
                        list[i].position,
                    ) && reads_text(sj::get(items[i], "label"@), list[i].label)
            })
        }),
{
    reveal_strlit("textDocument/inlayHint");
    reveal_strlit("textDocument/hover");
    assert("textDocument/hover"@.len() != "textDocument/inlayHint"@.len());
    reveal_strlit("textDocument/signatureHelp");
    assert("textDocument/signatureHelp"@.len() != "textDocument/inlayHint"@.len());
    reveal_strlit("textDocument/definition");
    assert("textDocument/definition"@.len() != "textDocument/inlayHint"@.len());
    reveal_strlit("textDocument/implementation");
    assert("textDocument/implementation"@.len() != "textDocument/inlayHint"@.len());
    reveal_strlit("textDocument/completion");
    assert("textDocument/completion"@.len() != "textDocument/inlayHint"@.len());
    reveal_strlit("textDocument/documentSymbol");
    assert("textDocument/documentSymbol"@.len() != "textDocument/inlayHint"@.len());
    reveal_strlit("workspace/symbol");
    assert("workspace/symbol"@.len() != "textDocument/inlayHint"@.len());
    reveal_strlit("textDocument/foldingRange");
    assert("textDocument/foldingRange"@.len() != "textDocument/inlayHint"@.len());
    reveal_strlit("textDocument/codeAction");
    assert("textDocument/codeAction"@.len() != "textDocument/inlayHint"@.len());
    reveal_strlit("textDocument/references");
    assert("textDocument/references"@.len() != "textDocument/inlayHint"@.len());
    reveal_strlit("textDocument/documentHighlight");
    assert("textDocument/documentHighlight"@.len() != "textDocument/inlayHint"@.len());
    reveal_strlit("textDocument/selectionRange");
    assert("textDocument/selectionRange"@.len() != "textDocument/inlayHint"@.len());
    reveal(ssv::inlay_hints);
    lemma_asks(s, msg, disk, path, source);
    law_read_hints(sca::inlay_hints(s.workspace, path, first, last));
}

/// A request for a new name is answered with the changes that give it, by file.
pub proof fn law_rename_request(
    s: Server,
    msg: Json,
    disk: Option<Text>,
    path: Text,
    source: Text,
    pos: Position,
    name: Text,
    uri: Text,
)
    requires
        asks_at(s, msg, path, source, pos),
        reads_text(sj::get_in(sj::get(msg, "params"@), "newName"@), name),
    ensures
        ({
            let (t, result) = ssv::request_result(s, "textDocument/rename"@, msg, disk);
            &&& t == s
            &&& sqy::rename(s.workspace, path, pos, source, name) matches Ok(edits) ==> are_edits(
                sj::get_in(sj::get(result, "changes"@), uri),
                edits_of(s.workspace.sources, edits, uri),
            )
        }),
{
    reveal_strlit("textDocument/rename");
    reveal_strlit("textDocument/hover");
    assert("textDocument/hover"@.len() != "textDocument/rename"@.len());
    reveal_strlit("textDocument/signatureHelp");
    assert("textDocument/signatureHelp"@.len() != "textDocument/rename"@.len());
    reveal_strlit("textDocument/definition");
    assert("textDocument/definition"@.len() != "textDocument/rename"@.len());
    reveal_strlit("textDocument/implementation");
    assert("textDocument/implementation"@.len() != "textDocument/rename"@.len());
    reveal_strlit("textDocument/completion");
    assert("textDocument/completion"@.len() != "textDocument/rename"@.len());
    reveal_strlit("textDocument/documentSymbol");
    assert("textDocument/documentSymbol"@.len() != "textDocument/rename"@.len());
    reveal_strlit("workspace/symbol");
    assert("workspace/symbol"@.len() != "textDocument/rename"@.len());
    reveal_strlit("textDocument/foldingRange");
    assert("textDocument/foldingRange"@.len() != "textDocument/rename"@.len());
    reveal_strlit("textDocument/codeAction");
    assert("textDocument/codeAction"@.len() != "textDocument/rename"@.len());
    reveal_strlit("textDocument/references");
    assert("textDocument/references"@.len() != "textDocument/rename"@.len());
    reveal_strlit("textDocument/documentHighlight");
    assert("textDocument/documentHighlight"@.len() != "textDocument/rename"@.len());
    reveal_strlit("textDocument/selectionRange");
    assert("textDocument/selectionRange"@.len() != "textDocument/rename"@.len());
    reveal_strlit("textDocument/inlayHint");
    assert("textDocument/inlayHint"@.len() != "textDocument/rename"@.len());
    reveal_strlit("textDocument/semanticTokens/full");
    assert("textDocument/semanticTokens/full"@.len() != "textDocument/rename"@.len());
    reveal(ssv::rename);
    lemma_asks(s, msg, disk, path, source);
    lemma_position(msg, pos);
    if let Ok(edits) = sqy::rename(s.workspace, path, pos, source, name) {
        law_read_edits(s.workspace.sources, edits, uri);
    }
}

} // verus!
