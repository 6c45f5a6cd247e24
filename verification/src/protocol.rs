//! How an editor talks to the server.

use vstd::prelude::*;
use vstd::utf8::*;

use crate::expression::digit_value;
use crate::json::{Json, as_array, as_object, as_text, as_unsigned, get_in, read_json, write_json};
use crate::list::{empty, put};
use crate::model::Position;
use crate::order::{Ordered, sorted, text_not_after};
use crate::path::{extension, holds_path, join_path};
use crate::spec::expression as se;
use crate::spec::json as sj;
use crate::spec::order as sr;
use crate::spec::path as sh;
use crate::spec::protocol as sq;
use crate::spec::text as st;
use crate::text::{
    byte_len, chars, decimal, is_word, no_text, owned, push_text, same_text, skip, split_once_char,
    starts_with_char, strip_prefix, take, text, trim,
};

verus! {

// ---------------------------------------------------------------------------
// Framing
// ---------------------------------------------------------------------------

/// What a line of the head of a message says.
#[derive(Debug, Clone, Copy, PartialEq, Eq)]
pub enum Header {
    /// The head is over.
    End,
    /// The body has so many bytes, where the line gives a number.
    Length(Option<usize>),
    /// Something else.
    Other,
}

impl Header {
    /// The model of what a line says.
    pub open spec fn model(self) -> sq::Header {
        match self {
            Header::End => sq::Header::End,
            Header::Length(n) => sq::Header::Length(n),
            Header::Other => sq::Header::Other,
        }
    }
}

/// A number without a sign, or with a plus.
fn count(s: &[char]) -> (r: Option<usize>)
    ensures
        r == sq::count(s@),
{
    let rest = if starts_with_char(s, '+') {
        skip(s, 1)
    } else {
        s
    };
    if rest.len() == 0 {
        return None;
    }
    let mut value: usize = 0;
    let mut i: usize = 0;
    while i < rest.len()
        invariant
            i <= rest@.len(),
            rest@.len() > 0,
            rest@ == (if st::starts_with_char(s@, '+') {
                s@.skip(1)
            } else {
                s@
            }),
            se::digits(rest@, 10) == se::digits_from(rest@, 10, i as int, value as int),
        decreases rest@.len() - i,
    {
        let d: u64 = digit_value(rest[i]);
        if d >= 10 {
            return None;
        }
        let next: u128 = value as u128 * 10 + d as u128;
        if next > usize::MAX as u128 {
            proof {
                se::lemma_digits_grow(rest@, 10, i + 1, next as int);
            }
            return None;
        }
        value = next as usize;
        i = i + 1;
    }
    Some(value)
}

/// What a line of the head of a message says.
pub fn header(line: &str) -> (r: Header)
    ensures
        r.model() == sq::header(line@),
{
    let all = chars(line);
    let mut j: usize = all.len();
    while j > 0 && (all[j - 1] == '\r' || all[j - 1] == '\n')
        invariant
            j <= all@.len(),
            sq::before_line_end(all@, all@.len() as int) == sq::before_line_end(all@, j as int),
        decreases j,
    {
        j = j - 1;
    }
    let content = take(all.as_slice(), j);
    if content.len() == 0 {
        return Header::End;
    }
    match strip_prefix(content, "Content-Length:") {
        Some(rest) => Header::Length(count(trim(rest))),
        None => Header::Other,
    }
}

/// How far the head of a message has been read, with the number of bytes that
/// the body has, where that is known.
#[derive(Debug, Clone, Copy, PartialEq, Eq)]
pub enum Head {
    /// More lines follow.
    More(Option<usize>),
    /// The body follows.
    Done(Option<usize>),
}

impl Head {
    /// How far the head has been read, as the contracts speak of it.
    pub open spec fn model(self) -> sq::Head {
        match self {
            Head::More(n) => sq::Head::More(n),
            Head::Done(n) => sq::Head::Done(n),
        }
    }
}

/// Takes in a line of the head of a message, behind lines that gave the length
/// `len`: the last length that is given counts.
pub fn head_step(len: Option<usize>, line: &str) -> (r: Head)
    ensures
        r.model() == sq::head_step(len, line@),
{
    match header(line) {
        Header::End => Head::Done(len),
        Header::Length(n) => Head::More(n),
        Header::Other => Head::More(len),
    }
}

/// A message with its head.
pub fn framed(body: &str) -> (r: String)
    ensures
        r@ == sq::framed(body@),
{
    let all = chars(body);
    let mut out = owned("Content-Length: ");
    push_text(&mut out, decimal(byte_len(all.as_slice())).as_str());
    push_text(&mut out, "\r\n\r\n");
    push_text(&mut out, body);
    out
}

/// The message that the body of a message stands for.
pub fn parse_message(body: &str) -> (r: Option<Json>)
    ensures
        (match r {
            Some(j) => Some(j.model()),
            None => None,
        }) == sj::json_of_text(body@),
{
    read_json(body)
}

/// The message that the bytes of a body stand for: nothing where they are not
/// UTF-8 or hold no JSON.
pub fn parse_body(bytes: Vec<u8>) -> (r: Option<Json>)
    ensures
        (match r {
            Some(j) => Some(j.model()),
            None => None,
        }) == sq::body(bytes@),
{
    match text_of_bytes(bytes) {
        Some(body) => parse_message(body.as_str()),
        None => None,
    }
}

/// A message as it is sent.
pub fn written_message(msg: &Json) -> (r: String)
    ensures
        r@ == sq::framed(sj::text_of_json(msg.model())),
{
    let body = write_json(msg);
    framed(body.as_str())
}

// ---------------------------------------------------------------------------
// Paths
// ---------------------------------------------------------------------------

/// The text that bytes encode, as `String::from_utf8` decodes them: it fails
/// where the bytes are not UTF-8, and only there.
#[verifier::external_body]
fn text_of_bytes(bytes: Vec<u8>) -> (r: Option<String>)
    ensures
        r matches Some(t) ==> valid_utf8(bytes@) && t@ == decode_utf8(bytes@),
        r is None ==> !valid_utf8(bytes@),
{
    String::from_utf8(bytes).ok()
}

fn hex_digit(b: u8) -> (r: Option<u8>)
    ensures
        r == sq::hex_digit(b),
        r matches Some(d) ==> d < 16,
{
    if 48 <= b && b <= 57 {
        Some(b - 48)
    } else if 65 <= b && b <= 70 {
        Some(b - 55)
    } else if 97 <= b && b <= 102 {
        Some(b - 87)
    } else {
        None
    }
}

/// The byte that two bytes after a `%` stand for.
fn hex_byte(high: u8, low: u8) -> (r: Option<u8>)
    ensures
        r == sq::hex_byte(high, low),
{
    match hex_digit(low) {
        Some(l) => match hex_digit(high) {
            Some(h) => Some(16 * h + l),
            None => if high == 43 {
                Some(l)
            } else {
                None
            },
        },
        None => None,
    }
}

/// The path that a URI of a file stands for.
pub fn path_from_uri(uri: &str) -> (r: Option<String>)
    ensures
        r.deep_view() == sq::path_from_uri(uri@),
{
    let all = chars(uri);
    let raw = match strip_prefix(all.as_slice(), "file://") {
        Some(raw) => text(raw),
        None => {
            return None;
        },
    };
    let bytes = raw.as_str().as_bytes();
    let mut out: Vec<u8> = Vec::new();
    let mut i: usize = 0;
    let n: usize = bytes.len();
    while i < n
        invariant
            i <= n,
            n == bytes@.len(),
            sq::decoded_from(bytes@, 0, Seq::empty()) == sq::decoded_from(
                bytes@,
                i as int,
                out@,
            ),
            bytes@ == encode_utf8(raw@),
            st::strip_prefix(uri@, "file://"@) == Some(raw@),
        decreases n - i,
    {
        if bytes[i] == 37 && n - i > 2 {
            match hex_byte(bytes[i + 1], bytes[i + 2]) {
                Some(b) => {
                    out.push(b);
                    i = i + 3;
                },
                None => {
                    return None;
                },
            }
        } else {
            out.push(bytes[i]);
            i = i + 1;
        }
    }
    text_of_bytes(out)
}

/// Whether a path is that of a Fortran source.
pub fn is_fortran(path: &str) -> (r: bool)
    ensures
        r == sq::is_fortran(path@),
{
    let found = match extension(path) {
        Some(ext) => ext,
        None => no_text(),
    };
    let ext = found.as_str();
    same_text(ext, "f") || same_text(ext, "for") || same_text(ext, "ftn") || same_text(ext, "f90")
        || same_text(ext, "f95") || same_text(ext, "f03") || same_text(ext, "f08") || same_text(
        ext,
        "f18",
    ) || same_text(ext, "f77") || same_text(ext, "f66")
}

/// Whether a path is that of a file that is indexed.
pub fn is_fortran_indexable(path: &str) -> (r: bool)
    ensures
        r == sq::is_fortran_indexable(path@),
{
    let found = match extension(path) {
        Some(ext) => ext,
        None => no_text(),
    };
    is_fortran(path) || same_text(found.as_str(), "inc")
}

/// Whether a directory is left out when sources are collected.
pub fn is_skipped_dir(name: &str) -> (r: bool)
    ensures
        r == sq::is_skipped_dir(name@),
{
    let all = chars(name);
    starts_with_char(all.as_slice(), '.') || is_word(all.as_slice(), "target") || is_word(
        all.as_slice(),
        "build",
    )
}

// ---------------------------------------------------------------------------
// Messages
// ---------------------------------------------------------------------------

/// What a message asks for.
#[derive(Debug, Clone, Copy, PartialEq, Eq)]
pub enum Action {
    Nothing,
    Initialize,
    Shutdown,
    Exit,
    Open,
    Change,
    Save,
    Close,
    Request,
}

impl Action {
    /// The model of what a message asks for.
    pub open spec fn model(self) -> sq::Action {
        match self {
            Action::Nothing => sq::Action::Nothing,
            Action::Initialize => sq::Action::Initialize,
            Action::Shutdown => sq::Action::Shutdown,
            Action::Exit => sq::Action::Exit,
            Action::Open => sq::Action::Open,
            Action::Change => sq::Action::Change,
            Action::Save => sq::Action::Save,
            Action::Close => sq::Action::Close,
            Action::Request => sq::Action::Request,
        }
    }
}

/// The name of what a message asks for.
pub fn method<'a>(msg: &'a Json) -> (r: Option<&'a String>)
    ensures
        r.deep_view() == sq::method(msg.model()),
{
    as_text(msg.get("method"))
}

/// What a message asks for.
pub fn action(msg: &Json) -> (r: Action)
    ensures
        r.model() == sq::action(msg.model()),
{
    let m = match method(msg) {
        Some(m) => chars(m.as_str()),
        None => {
            return Action::Nothing;
        },
    };
    let name = m.as_slice();
    if is_word(name, "initialize") {
        Action::Initialize
    } else if is_word(name, "initialized") {
        Action::Nothing
    } else if is_word(name, "shutdown") {
        Action::Shutdown
    } else if is_word(name, "exit") {
        Action::Exit
    } else if is_word(name, "textDocument/didOpen") {
        Action::Open
    } else if is_word(name, "textDocument/didChange") {
        Action::Change
    } else if is_word(name, "textDocument/didSave") {
        Action::Save
    } else if is_word(name, "textDocument/didClose") {
        Action::Close
    } else if msg.get("id").is_some() {
        Action::Request
    } else {
        Action::Nothing
    }
}

/// A part of what a message brings along.
pub fn param<'a>(msg: &'a Json, key: &str) -> (r: Option<&'a Json>)
    ensures
        crate::json::model_of(r) == sq::param(msg.model(), key@),
{
    get_in(msg.get("params"), key)
}

/// A position, where both numbers are there.
pub fn position_of(pos: Option<&Json>) -> (r: Option<Position>)
    ensures
        r == sq::position_of(crate::json::model_of(pos)),
{
    match (as_unsigned(get_in(pos, "line")), as_unsigned(get_in(pos, "character"))) {
        (Some(line), Some(character)) => Some(
            Position { line: line as usize, character: character as usize },
        ),
        _ => None,
    }
}

/// The position that a message speaks of.
pub fn position(msg: &Json) -> (r: Option<Position>)
    ensures
        r == sq::position(msg.model()),
{
    position_of(param(msg, "position"))
}

/// The URI of the document that a message speaks of.
pub fn text_document_uri<'a>(msg: &'a Json) -> (r: Option<&'a String>)
    ensures
        r.deep_view() == sq::text_document_uri(msg.model()),
{
    as_text(get_in(param(msg, "textDocument"), "uri"))
}

/// The positions that a message speaks of.
pub fn selection_range_positions(msg: &Json) -> (r: Option<Vec<Position>>)
    ensures
        (match r {
            Some(list) => Some(list@),
            None => None,
        }) == sq::selection_range_positions(msg.model()),
{
    let items = match as_array(param(msg, "positions")) {
        Some(items) => items,
        None => {
            return None;
        },
    };
    let ghost all = crate::json::json_models(items@);
    let mut out: Vec<Position> = Vec::new();
    let mut i: usize = 0;
    while i < items.len()
        invariant
            i <= items@.len(),
            all == crate::json::json_models(items@),
            sq::positions_from(all, 0, Seq::empty()) == sq::positions_from(all, i as int, out@),
        decreases items@.len() - i,
    {
        if let Some(pos) = position_of(Some(&items[i])) {
            out.push(pos);
        }
        i = i + 1;
    }
    Some(out)
}

/// The text of a document that was opened.
pub fn opened_text<'a>(msg: &'a Json) -> (r: Option<&'a String>)
    ensures
        r.deep_view() == sq::opened_text(msg.model()),
{
    as_text(get_in(param(msg, "textDocument"), "text"))
}

/// The text of a document after its last change.
pub fn changed_text<'a>(msg: &'a Json) -> (r: Option<&'a String>)
    ensures
        r.deep_view() == sq::changed_text(msg.model()),
{
    match as_array(param(msg, "contentChanges")) {
        Some(changes) => {
            let n: usize = changes.len();
            if n > 0 {
                assert(crate::json::json_models(changes@).last() == changes@[n - 1].model());
                as_text(changes[n - 1].get("text"))
            } else {
                None
            }
        },
        None => None,
    }
}

/// The text of a document that was saved, where the message brings it along.
pub fn saved_text<'a>(msg: &'a Json) -> (r: Option<&'a String>)
    ensures
        r.deep_view() == sq::saved_text(msg.model()),
{
    as_text(param(msg, "text"))
}

/// The first and the last line that a message speaks of.
pub fn line_range(msg: &Json) -> (r: Option<(usize, usize)>)
    ensures
        r == sq::line_range(msg.model()),
{
    let range = param(msg, "range");
    match (
        as_unsigned(get_in(get_in(range, "start"), "line")),
        as_unsigned(get_in(get_in(range, "end"), "line")),
    ) {
        (Some(start), Some(end)) => Some((start as usize, end as usize)),
        _ => None,
    }
}

/// What symbols are searched for.
pub fn query(msg: &Json) -> (r: String)
    ensures
        r@ == sq::query(msg.model()),
{
    match as_text(param(msg, "query")) {
        Some(q) => q.clone(),
        None => no_text(),
    }
}

// ---------------------------------------------------------------------------
// Settings
// ---------------------------------------------------------------------------

/// A root and the directories in it where sources are looked for.
fn root_dirs(root: &str) -> (r: Vec<String>)
    ensures
        r.deep_view() == sq::root_dirs(root@),
{
    let mut out: Vec<String> = empty();
    put(&mut out, owned(root));
    put(&mut out, join_path(root, "include"));
    put(&mut out, join_path(root, "inc"));
    put(&mut out, join_path(root, "src"));
    out
}

/// The directories that belong to the root of the workspace.
fn workspace_dirs(msg: &Json) -> (r: Vec<String>)
    ensures
        r.deep_view() == sq::workspace_dirs(msg.model()),
{
    match as_text(param(msg, "rootUri")) {
        Some(uri) => match path_from_uri(uri.as_str()) {
            Some(root) => root_dirs(root.as_str()),
            None => empty(),
        },
        None => match as_text(param(msg, "rootPath")) {
            Some(root) => root_dirs(root.as_str()),
            None => empty(),
        },
    }
}

/// The settings that a message brings along.
pub fn options<'a>(msg: &'a Json) -> (r: Option<&'a Json>)
    ensures
        crate::json::model_of(r) == sq::options(msg.model()),
{
    param(msg, "initializationOptions")
}

/// The directories where sources are looked for, whether they exist or not.
pub fn root_candidates(msg: &Json) -> (r: Vec<String>)
    ensures
        r.deep_view() == sq::root_candidates(msg.model()),
{
    let mut out = workspace_dirs(msg);
    let items = match as_array(get_in(options(msg), "includeRoots")) {
        Some(items) => items,
        None => {
            return out;
        },
    };
    let ghost all = crate::json::json_models(items@);
    let ghost wanted = sq::texts_from(all, 0, out.deep_view());
    let mut i: usize = 0;
    while i < items.len()
        invariant
            i <= items@.len(),
            all == crate::json::json_models(items@),
            wanted == sq::texts_from(all, i as int, out.deep_view()),
        decreases items@.len() - i,
    {
        if let Some(t) = as_text(Some(&items[i])) {
            put(&mut out, t.clone());
        }
        i = i + 1;
    }
    out
}

/// The directories that exist, each once. A directory that exists comes with
/// the path that identifies it.
pub fn existing_dirs(dirs: &Vec<(String, Option<String>)>) -> (r: Vec<String>)
    ensures
        r.deep_view() == sq::existing_from(dirs.deep_view(), 0, Seq::empty()),
{
    let ghost all = dirs.deep_view();
    let mut known: Vec<String> = empty();
    let mut out: Vec<String> = empty();
    let mut i: usize = 0;
    while i < dirs.len()
        invariant
            i <= dirs@.len(),
            all == dirs.deep_view(),
            forall|c: st::Text| #[trigger]
                sh::holds_path(known.deep_view(), c) <==> sq::is_known_dir(all, c, i as int),
            sq::existing_from(all, 0, Seq::empty()) == sq::existing_from(
                all,
                i as int,
                out.deep_view(),
            ),
        decreases dirs@.len() - i,
    {
        assert(all[i as int] == dirs@[i as int].deep_view());
        let ghost before = known.deep_view();
        if let Some(canonical) = &dirs[i].1 {
            if !holds_path(&known, canonical.as_str()) {
                put(&mut out, dirs[i].0.clone());
                put(&mut known, canonical.clone());
            }
        }
        proof {
            lemma_known(all, i as int, before, known.deep_view());
        }
        i = i + 1;
    }
    out
}

/// The paths that are known after one more directory.
proof fn lemma_known(
    dirs: Seq<(st::Text, Option<st::Text>)>,
    i: int,
    before: Seq<st::Text>,
    after: Seq<st::Text>,
)
    requires
        0 <= i < dirs.len(),
        forall|c: st::Text| #[trigger]
            sh::holds_path(before, c) <==> sq::is_known_dir(dirs, c, i),
        after == match dirs[i].1 {
            Some(c) => if sh::holds_path(before, c) {
                before
            } else {
                before.push(c)
            },
            None => before,
        },
    ensures
        forall|c: st::Text| #[trigger]
            sh::holds_path(after, c) <==> sq::is_known_dir(dirs, c, i + 1),
{
    assert forall|c: st::Text| #[trigger] sh::holds_path(after, c) <==> sq::is_known_dir(
        dirs,
        c,
        i + 1,
    ) by {
        assert(sh::holds_path(before, c) <==> sq::is_known_dir(dirs, c, i));
        if sh::holds_path(before, c) {
            let k = choose|k: int| 0 <= k < before.len() && sh::same_path(before[k], c);
            assert(sh::same_path(after[k], c));
            let d = choose|d: int|
                0 <= d < i && ((#[trigger] dirs[d]).1 matches Some(x) && sh::same_path(x, c));
            assert(dirs[d].1 matches Some(x) && sh::same_path(x, c));
        } else if let Some(x) = dirs[i].1 {
            if sh::same_path(x, c) {
                if sh::holds_path(before, x) {
                    let k = choose|k: int| 0 <= k < before.len() && sh::same_path(before[k], x);
                    assert(sh::same_path(before[k], c));
                }
                assert(sh::same_path(after[before.len() as int], c));
            }
        }
        if sh::holds_path(after, c) && !sh::holds_path(before, c) {
            let k = choose|k: int| 0 <= k < after.len() && sh::same_path(after[k], c);
            if k < before.len() {
                assert(sh::same_path(before[k], c));
            }
        }
    }
}

/// A length that may have been set.
pub fn limit(options: &Json, key: &str) -> (r: Option<usize>)
    ensures
        r == sq::limit(options.model(), key@),
{
    match as_unsigned(options.get(key)) {
        Some(n) => Some(n as usize),
        None => None,
    }
}

/// A text without the `-D` before it, however often it stands there.
fn without_define_flags<'a>(s: &'a [char]) -> (r: &'a [char])
    ensures
        r@ == sq::without_define_flags(s@),
{
    let mut rest = s;
    while rest.len() >= 2 && rest[0] == '-' && rest[1] == 'D'
        invariant
            sq::without_define_flags(s@) == sq::without_define_flags(rest@),
        decreases rest@.len(),
    {
        rest = skip(rest, 2);
    }
    rest
}

/// The macro that `-DNAME=value` or `NAME` defines.
fn define_flag(value: &str) -> (r: Option<(String, String)>)
    ensures
        r.deep_view() == sq::define_flag(value@),
{
    let all = chars(value);
    let define = without_define_flags(trim(all.as_slice()));
    match split_once_char(define, '=') {
        Some((name, val)) => if name.len() > 0 {
            Some((text(name), text(val)))
        } else {
            None
        },
        None => if define.len() > 0 {
            Some((text(define), no_text()))
        } else {
            None
        },
    }
}

/// The value of a macro: a text as it is, and of anything else its JSON.
fn macro_value(value: &Json) -> (r: String)
    ensures
        r@ == sq::macro_value(value.model()),
{
    match value {
        Json::Text(t) => t.clone(),
        _ => write_json(value),
    }
}

impl Ordered for (String, String) {
    type Model = (st::Text, st::Text);

    open spec fn order_model(&self) -> (st::Text, st::Text) {
        (self.0@, self.1@)
    }

    open spec fn order() -> sr::Order<(st::Text, st::Text)> {
        sq::macro_order()
    }

    fn is_not_after(&self, other: &Self) -> (r: bool) {
        if self.0 != other.0 {
            text_not_after(self.0.as_str(), other.0.as_str())
        } else {
            text_not_after(self.1.as_str(), other.1.as_str())
        }
    }
}

/// Macros in order, each once.
pub fn distinct_macros(macros: Vec<(String, String)>) -> (r: Vec<(String, String)>)
    ensures
        r.deep_view() == sq::distinct_macros(macros.deep_view()),
{
    assert(crate::order::order_models(macros@) =~= macros.deep_view());
    let in_order = sorted(macros);
    assert(crate::order::order_models(in_order@) =~= in_order.deep_view());
    let ghost all = in_order.deep_view();
    let mut out: Vec<(String, String)> = empty();
    let mut i: usize = 0;
    while i < in_order.len()
        invariant
            i <= in_order@.len(),
            all == in_order.deep_view(),
            sq::distinct_from(all, 0, Seq::empty()) == sq::distinct_from(
                all,
                i as int,
                out.deep_view(),
            ),
        decreases in_order@.len() - i,
    {
        assert(all[i as int] == in_order@[i as int].deep_view());
        assert(out.deep_view().len() == out@.len());
        let n: usize = out.len();
        let repeated: bool = if n > 0 {
            assert(out.deep_view().last() == out@[n - 1].deep_view());
            out[n - 1].0 == in_order[i].0 && out[n - 1].1 == in_order[i].1
        } else {
            false
        };
        if !repeated {
            put(&mut out, (in_order[i].0.clone(), in_order[i].1.clone()));
        }
        i = i + 1;
    }
    out
}

/// The macros that entries define.
fn entry_macros(entries: &Vec<(String, Json)>) -> (r: Vec<(String, String)>)
    ensures
        r.deep_view() == sq::entry_macros_from(
            crate::json::entry_models(entries@),
            0,
            Seq::empty(),
        ),
{
    let ghost all = crate::json::entry_models(entries@);
    let mut out: Vec<(String, String)> = empty();
    let mut i: usize = 0;
    while i < entries.len()
        invariant
            i <= entries@.len(),
            all == crate::json::entry_models(entries@),
            sq::entry_macros_from(all, 0, Seq::empty()) == sq::entry_macros_from(
                all,
                i as int,
                out.deep_view(),
            ),
        decreases entries@.len() - i,
    {
        put(&mut out, (entries[i].0.clone(), macro_value(&entries[i].1)));
        i = i + 1;
    }
    out
}

/// The macros that flags define.
fn flag_macros(items: &Vec<Json>) -> (r: Vec<(String, String)>)
    ensures
        r.deep_view() == sq::flags_from(crate::json::json_models(items@), 0, Seq::empty()),
{
    let ghost all = crate::json::json_models(items@);
    let mut out: Vec<(String, String)> = empty();
    let mut i: usize = 0;
    while i < items.len()
        invariant
            i <= items@.len(),
            all == crate::json::json_models(items@),
            sq::flags_from(all, 0, Seq::empty()) == sq::flags_from(
                all,
                i as int,
                out.deep_view(),
            ),
        decreases items@.len() - i,
    {
        if let Some(value) = as_text(Some(&items[i])) {
            if let Some(m) = define_flag(value.as_str()) {
                put(&mut out, m);
            }
        }
        i = i + 1;
    }
    out
}

/// The macros that the settings define.
pub fn parse_predefined_macros(options: &Json) -> (r: Vec<(String, String)>)
    ensures
        r.deep_view() == sq::predefined_macros(options.model()),
{
    match options.get("predefinedMacros") {
        Some(raw) => {
            if let Some(entries) = as_object(raw) {
                distinct_macros(entry_macros(entries))
            } else if let Some(items) = as_array(Some(raw)) {
                distinct_macros(flag_macros(items))
            } else {
                distinct_macros(empty())
            }
        },
        None => distinct_macros(empty()),
    }
}

} // verus!
