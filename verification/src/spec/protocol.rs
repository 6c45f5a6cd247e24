//! How an editor talks to the server.

use vstd::prelude::*;
use vstd::utf8::*;

use crate::model::Position;
use crate::spec::expression as se;
use crate::spec::json as sj;
use crate::spec::json::Json;
use crate::spec::order as sr;
use crate::spec::path as sh;
use crate::spec::text as st;
use crate::spec::text::Text;

verus! {

// ---------------------------------------------------------------------------
// Framing
// ---------------------------------------------------------------------------

/// What a line of the head of a message says.
pub enum Header {
    /// The head is over.
    End,
    /// The body has so many bytes, where the line gives a number.
    Length(Option<usize>),
    /// Something else.
    Other,
}

/// A number without a sign, or with a plus.
pub open spec fn count(s: Text) -> Option<usize> {
    let rest = if st::starts_with_char(s, '+') {
        s.skip(1)
    } else {
        s
    };
    match se::digits(rest, 10) {
        Some(n) => if n <= usize::MAX {
            Some(n as usize)
        } else {
            None
        },
        None => None,
    }
}

/// The end of the first `j` characters, line ends left aside.
pub open spec fn before_line_end(s: Text, j: int) -> int
    decreases j,
{
    if 0 < j <= s.len() && (s[j - 1] == '\r' || s[j - 1] == '\n') {
        before_line_end(s, j - 1)
    } else {
        j
    }
}

pub open spec fn header(line: Text) -> Header {
    let content = line.take(before_line_end(line, line.len() as int));
    if content.len() == 0 {
        Header::End
    } else {
        match st::strip_prefix(content, "Content-Length:"@) {
            Some(rest) => Header::Length(count(st::trim(rest))),
            None => Header::Other,
        }
    }
}

/// How far the head of a message has been read, with the number of bytes that
/// the body has, where that is known.
pub enum Head {
    /// More lines follow.
    More(Option<usize>),
    /// The body follows.
    Done(Option<usize>),
}

/// A line of the head of a message, behind lines that gave the length `len`.
pub open spec fn head_step(len: Option<usize>, line: Text) -> Head {
    match header(line) {
        Header::End => Head::Done(len),
        Header::Length(n) => Head::More(n),
        Header::Other => Head::More(len),
    }
}

/// The message that the bytes of a body stand for.
pub open spec fn body(bytes: Seq<u8>) -> Option<Json> {
    if valid_utf8(bytes) {
        sj::json_of_text(decode_utf8(bytes))
    } else {
        None
    }
}

/// A message with its head.
pub open spec fn framed(body: Text) -> Text {
    "Content-Length: "@ + st::decimal(st::bytes(body) as nat) + "\r\n\r\n"@ + body
}

// ---------------------------------------------------------------------------
// Paths
// ---------------------------------------------------------------------------

pub open spec fn hex_digit(b: u8) -> Option<u8> {
    if 48 <= b <= 57 {
        Some((b - 48) as u8)
    } else if 65 <= b <= 70 {
        Some((b - 55) as u8)
    } else if 97 <= b <= 102 {
        Some((b - 87) as u8)
    } else {
        None
    }
}

/// The byte that two bytes after a `%` stand for: two hexadecimal digits, or
/// one behind a plus.
pub open spec fn hex_byte(high: u8, low: u8) -> Option<u8> {
    match hex_digit(low) {
        Some(l) => match hex_digit(high) {
            Some(h) => Some((16 * h + l) as u8),
            None => if high == 43 {
                Some(l)
            } else {
                None
            },
        },
        None => None,
    }
}

/// The bytes from `i` on with what stands behind a `%` decoded, behind `out`.
pub open spec fn decoded_from(raw: Seq<u8>, i: int, out: Seq<u8>) -> Option<Seq<u8>>
    decreases raw.len() - i,
{
    if i >= raw.len() {
        Some(out)
    } else if raw[i] == 37 && i + 2 < raw.len() {
        match hex_byte(raw[i + 1], raw[i + 2]) {
            Some(b) => decoded_from(raw, i + 3, out.push(b)),
            None => None,
        }
    } else {
        decoded_from(raw, i + 1, out.push(raw[i]))
    }
}

/// The path that a URI of a file stands for.
pub open spec fn path_from_uri(uri: Text) -> Option<Text> {
    match st::strip_prefix(uri, "file://"@) {
        Some(raw) => match decoded_from(encode_utf8(raw), 0, Seq::empty()) {
            Some(bytes) => if valid_utf8(bytes) {
                Some(decode_utf8(bytes))
            } else {
                None
            },
            None => None,
        },
        None => None,
    }
}

/// The extension of a path, or an empty text.
pub open spec fn extension(path: Text) -> Text {
    match sh::extension(path) {
        Some(ext) => ext,
        None => Seq::empty(),
    }
}

/// Whether a path is that of a Fortran source.
pub open spec fn is_fortran(path: Text) -> bool {
    let ext = extension(path);
    st::same(ext, "f"@) || st::same(ext, "for"@) || st::same(ext, "ftn"@) || st::same(
        ext,
        "f90"@,
    ) || st::same(ext, "f95"@) || st::same(ext, "f03"@) || st::same(ext, "f08"@) || st::same(
        ext,
        "f18"@,
    ) || st::same(ext, "f77"@) || st::same(ext, "f66"@)
}

/// Whether a path is that of a file that is indexed.
pub open spec fn is_fortran_indexable(path: Text) -> bool {
    is_fortran(path) || st::same(extension(path), "inc"@)
}

/// Whether a directory is left out when sources are collected.
pub open spec fn is_skipped_dir(name: Text) -> bool {
    st::starts_with_char(name, '.') || name == "target"@ || name == "build"@
}

// ---------------------------------------------------------------------------
// Messages
// ---------------------------------------------------------------------------

/// What a message asks for.
pub enum Action {
    Nothing,
    Initialize,
    Shutdown,
    Exit,
    Open,
    Change,
    Save,
    Close,
    Request,
}

pub open spec fn method(msg: Json) -> Option<Text> {
    sj::as_text(sj::get(msg, "method"@))
}

pub open spec fn action(msg: Json) -> Action {
    match method(msg) {
        Some(m) => {
            if m == "initialize"@ {
                Action::Initialize
            } else if m == "initialized"@ {
                Action::Nothing
            } else if m == "shutdown"@ {
                Action::Shutdown
            } else if m == "exit"@ {
                Action::Exit
            } else if m == "textDocument/didOpen"@ {
                Action::Open
            } else if m == "textDocument/didChange"@ {
                Action::Change
            } else if m == "textDocument/didSave"@ {
                Action::Save
            } else if m == "textDocument/didClose"@ {
                Action::Close
            } else if sj::get(msg, "id"@) is Some {
                Action::Request
            } else {
                Action::Nothing
            }
        },
        None => Action::Nothing,
    }
}

/// A part of what a message brings along.
pub open spec fn param(msg: Json, key: Text) -> Option<Json> {
    sj::get_in(sj::get(msg, "params"@), key)
}

/// A position, where both numbers are there.
pub open spec fn position_of(pos: Option<Json>) -> Option<Position> {
    match (
        sj::as_unsigned(sj::get_in(pos, "line"@)),
        sj::as_unsigned(sj::get_in(pos, "character"@)),
    ) {
        (Some(line), Some(character)) => Some(
            Position { line: line as usize, character: character as usize },
        ),
        _ => None,
    }
}

/// The position that a message speaks of.
pub open spec fn position(msg: Json) -> Option<Position> {
    position_of(param(msg, "position"@))
}

/// The URI of the document that a message speaks of.
pub open spec fn text_document_uri(msg: Json) -> Option<Text> {
    sj::as_text(sj::get_in(param(msg, "textDocument"@), "uri"@))
}

/// The positions from `i` on that are complete, behind `out`.
pub open spec fn positions_from(items: Seq<Json>, i: int, out: Seq<Position>) -> Seq<Position>
    decreases items.len() - i,
{
    if i >= items.len() {
        out
    } else {
        positions_from(
            items,
            i + 1,
            match position_of(Some(items[i])) {
                Some(pos) => out.push(pos),
                None => out,
            },
        )
    }
}

/// The positions that a message speaks of.
pub open spec fn selection_range_positions(msg: Json) -> Option<Seq<Position>> {
    match sj::as_array(param(msg, "positions"@)) {
        Some(items) => Some(positions_from(items, 0, Seq::empty())),
        None => None,
    }
}

/// The text of a document that was opened.
pub open spec fn opened_text(msg: Json) -> Option<Text> {
    sj::as_text(sj::get_in(param(msg, "textDocument"@), "text"@))
}

/// The text of a document after its last change.
pub open spec fn changed_text(msg: Json) -> Option<Text> {
    match sj::as_array(param(msg, "contentChanges"@)) {
        Some(changes) => if changes.len() > 0 {
            sj::as_text(sj::get(changes.last(), "text"@))
        } else {
            None
        },
        None => None,
    }
}

/// The text of a document that was saved, where the message brings it along.
pub open spec fn saved_text(msg: Json) -> Option<Text> {
    sj::as_text(param(msg, "text"@))
}

/// The first and the last line that a message speaks of.
pub open spec fn line_range(msg: Json) -> Option<(usize, usize)> {
    let range = param(msg, "range"@);
    match (
        sj::as_unsigned(sj::get_in(sj::get_in(range, "start"@), "line"@)),
        sj::as_unsigned(sj::get_in(sj::get_in(range, "end"@), "line"@)),
    ) {
        (Some(start), Some(end)) => Some((start as usize, end as usize)),
        _ => None,
    }
}

/// What symbols are searched for.
pub open spec fn query(msg: Json) -> Text {
    match sj::as_text(param(msg, "query"@)) {
        Some(q) => q,
        None => Seq::empty(),
    }
}

// ---------------------------------------------------------------------------
// Settings
// ---------------------------------------------------------------------------

/// A root and the directories in it where sources are looked for.
pub open spec fn root_dirs(root: Text) -> Seq<Text> {
    Seq::empty().push(root).push(sh::join(root, "include"@)).push(sh::join(root, "inc"@)).push(
        sh::join(root, "src"@),
    )
}

/// The texts among the values from `i` on, behind `out`.
pub open spec fn texts_from(items: Seq<Json>, i: int, out: Seq<Text>) -> Seq<Text>
    decreases items.len() - i,
{
    if i >= items.len() {
        out
    } else {
        texts_from(
            items,
            i + 1,
            match sj::as_text(Some(items[i])) {
                Some(t) => out.push(t),
                None => out,
            },
        )
    }
}

/// The directories that belong to the root of the workspace.
pub open spec fn workspace_dirs(msg: Json) -> Seq<Text> {
    match sj::as_text(param(msg, "rootUri"@)) {
        Some(uri) => match path_from_uri(uri) {
            Some(root) => root_dirs(root),
            None => Seq::empty(),
        },
        None => match sj::as_text(param(msg, "rootPath"@)) {
            Some(root) => root_dirs(root),
            None => Seq::empty(),
        },
    }
}

pub open spec fn options(msg: Json) -> Option<Json> {
    param(msg, "initializationOptions"@)
}

/// The directories where sources are looked for, whether they exist or not.
pub open spec fn root_candidates(msg: Json) -> Seq<Text> {
    match sj::as_array(sj::get_in(options(msg), "includeRoots"@)) {
        Some(items) => texts_from(items, 0, workspace_dirs(msg)),
        None => workspace_dirs(msg),
    }
}

/// Whether one of the first `n` directories is known under the given path.
pub open spec fn is_known_dir(
    dirs: Seq<(Text, Option<Text>)>,
    canonical: Text,
    n: int,
) -> bool {
    exists|k: int|
        0 <= k < n && ((#[trigger] dirs[k]).1 matches Some(c) && sh::same_path(c, canonical))
}

/// The directories from `i` on that exist and are not among those before them,
/// behind `out`. A directory that exists comes with the path that identifies
/// it.
pub open spec fn existing_from(
    dirs: Seq<(Text, Option<Text>)>,
    i: int,
    out: Seq<Text>,
) -> Seq<Text>
    decreases dirs.len() - i,
{
    if i >= dirs.len() {
        out
    } else {
        existing_from(
            dirs,
            i + 1,
            match dirs[i].1 {
                Some(canonical) => if is_known_dir(dirs, canonical, i) {
                    out
                } else {
                    out.push(dirs[i].0)
                },
                None => out,
            },
        )
    }
}

/// A length that may have been set.
pub open spec fn limit(options: Json, key: Text) -> Option<usize> {
    match sj::as_unsigned(sj::get(options, key)) {
        Some(n) => Some(n as usize),
        None => None,
    }
}

/// A text without the `-D` before it, however often it stands there.
pub open spec fn without_define_flags(s: Text) -> Text
    decreases s.len(),
{
    if s.len() >= 2 && s[0] == '-' && s[1] == 'D' {
        without_define_flags(s.skip(2))
    } else {
        s
    }
}

/// The macro that `-DNAME=value` or `NAME` defines.
pub open spec fn define_flag(value: Text) -> Option<(Text, Text)> {
    let define = without_define_flags(st::trim(value));
    match st::split_once_char(define, '=') {
        Some((name, val)) => if name.len() > 0 {
            Some((name, val))
        } else {
            None
        },
        None => if define.len() > 0 {
            Some((define, Seq::empty()))
        } else {
            None
        },
    }
}

/// The macros of the flags from `i` on, behind `out`.
pub open spec fn flags_from(items: Seq<Json>, i: int, out: Seq<(Text, Text)>) -> Seq<(Text, Text)>
    decreases items.len() - i,
{
    if i >= items.len() {
        out
    } else {
        flags_from(
            items,
            i + 1,
            match sj::as_text(Some(items[i])) {
                Some(value) => match define_flag(value) {
                    Some(m) => out.push(m),
                    None => out,
                },
                None => out,
            },
        )
    }
}

/// The value of a macro: a text as it is, and of anything else its JSON.
pub open spec fn macro_value(value: Json) -> Text {
    match value {
        Json::Text(t) => t,
        _ => sj::text_of_json(value),
    }
}

/// The macros of the entries from `i` on, behind `out`.
pub open spec fn entry_macros_from(
    entries: Seq<(Text, Json)>,
    i: int,
    out: Seq<(Text, Text)>,
) -> Seq<(Text, Text)>
    decreases entries.len() - i,
{
    if i >= entries.len() {
        out
    } else {
        entry_macros_from(
            entries,
            i + 1,
            out.push((entries[i].0, macro_value(entries[i].1))),
        )
    }
}

/// Whether a macro stands before another, or beside it.
pub open spec fn macro_not_after(a: (Text, Text), b: (Text, Text)) -> bool {
    if a.0 != b.0 {
        sr::text_not_after(a.0, b.0)
    } else {
        sr::text_not_after(a.1, b.1)
    }
}

pub open spec fn macro_order() -> sr::Order<(Text, Text)> {
    |a: (Text, Text), b: (Text, Text)| macro_not_after(a, b)
}

/// The macros from `i` on without those that are the one before them, behind
/// `out`.
pub open spec fn distinct_from(
    macros: Seq<(Text, Text)>,
    i: int,
    out: Seq<(Text, Text)>,
) -> Seq<(Text, Text)>
    decreases macros.len() - i,
{
    if i >= macros.len() {
        out
    } else {
        distinct_from(
            macros,
            i + 1,
            if out.len() > 0 && out.last() == macros[i] {
                out
            } else {
                out.push(macros[i])
            },
        )
    }
}

/// Macros in order, each once.
pub open spec fn distinct_macros(macros: Seq<(Text, Text)>) -> Seq<(Text, Text)> {
    distinct_from(sr::sorted(macros, macro_order()), 0, Seq::empty())
}

/// The macros that the settings define.
pub open spec fn predefined_macros(options: Json) -> Seq<(Text, Text)> {
    match sj::get(options, "predefinedMacros"@) {
        Some(Json::Object(entries)) => distinct_macros(
            entry_macros_from(entries, 0, Seq::empty()),
        ),
        Some(Json::Array(items)) => distinct_macros(flags_from(items, 0, Seq::empty())),
        _ => distinct_macros(Seq::empty()),
    }
}

} // verus!
