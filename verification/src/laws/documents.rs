//! Documents that an editor opens, changes and saves, and the places in them.

use vstd::prelude::*;

use crate::laws::lsp::{law_read_published, reads_range, reads_text};
use crate::laws::path::law_extension;
use crate::laws::text::{all_space, is_name, is_name_character, law_trim_end, law_trim_start};
use crate::spec::calls as sca;
use crate::spec::completion as sco;
use crate::spec::completion::Context;
use crate::spec::json as sj;
use crate::spec::json::Json;
use crate::spec::model as sm;
use crate::spec::path as sh;
use crate::spec::protocol as sq;
use crate::spec::query as sqy;
use crate::spec::server as ssv;
use crate::spec::server::{Outside, Server};
use crate::spec::table as sb;
use crate::spec::text as st;
use crate::spec::text::Text;
use crate::spec::workspace as sw;
use crate::spec::workspace::Workspace;

verus! {

// ---------------------------------------------------------------------------
// Files
// ---------------------------------------------------------------------------

/// Whether an extension, in lower case, is one of Fortran sources.
pub open spec fn is_source_extension(ext: Text) -> bool {
    ||| ext == "f"@
    ||| ext == "for"@
    ||| ext == "ftn"@
    ||| ext == "f90"@
    ||| ext == "f95"@
    ||| ext == "f03"@
    ||| ext == "f08"@
    ||| ext == "f18"@
    ||| ext == "f77"@
    ||| ext == "f66"@
}

/// A file is a Fortran source exactly where its extension is one of theirs, case
/// aside; a file that is only taken in has the extension `inc`.
pub proof fn law_source_file(dir: Text, stem: Text, ext: Text)
    requires
        dir.len() == 0 || dir.last() == '/',
        stem.len() > 0,
        !stem.contains('/'),
        !ext.contains('/'),
        !ext.contains('.'),
        ext.len() > 0,
    ensures
        sq::is_fortran(dir + (stem + seq!['.'] + ext)) == is_source_extension(st::lower(ext)),
        sq::is_fortran_indexable(dir + (stem + seq!['.'] + ext)) == (is_source_extension(
            st::lower(ext),
        ) || st::lower(ext) == "inc"@),
{
    law_extension(dir, stem, ext);
    reveal_strlit("f");
    reveal_strlit("for");
    reveal_strlit("ftn");
    reveal_strlit("f90");
    reveal_strlit("f95");
    reveal_strlit("f03");
    reveal_strlit("f08");
    reveal_strlit("f18");
    reveal_strlit("f77");
    reveal_strlit("f66");
    reveal_strlit("inc");
    assert(st::lower("f"@) =~= "f"@);
    assert(st::lower("for"@) =~= "for"@);
    assert(st::lower("ftn"@) =~= "ftn"@);
    assert(st::lower("f90"@) =~= "f90"@);
    assert(st::lower("f95"@) =~= "f95"@);
    assert(st::lower("f03"@) =~= "f03"@);
    assert(st::lower("f08"@) =~= "f08"@);
    assert(st::lower("f18"@) =~= "f18"@);
    assert(st::lower("f77"@) =~= "f77"@);
    assert(st::lower("f66"@) =~= "f66"@);
    assert(st::lower("inc"@) =~= "inc"@);
}

/// A hexadecimal digit.
pub open spec fn hex(n: int, upper: bool) -> u8 {
    if n < 10 {
        (48 + n) as u8
    } else if upper {
        (55 + n) as u8
    } else {
        (87 + n) as u8
    }
}

/// How a byte is written in a URI: as it is, or as a percent sign and two
/// hexadecimal digits.
pub struct Written {
    pub byte: u8,
    pub escaped: bool,
    pub upper: bool,
}

pub open spec fn written(list: Seq<Written>) -> Seq<u8>
    decreases list.len(),
{
    if list.len() == 0 {
        Seq::empty()
    } else {
        let w = list[0];
        (if w.escaped {
            seq![37u8, hex(w.byte as int / 16, w.upper), hex(w.byte as int % 16, w.upper)]
        } else {
            seq![w.byte]
        }) + written(list.skip(1))
    }
}

pub open spec fn bytes_of(list: Seq<Written>) -> Seq<u8> {
    Seq::new(list.len(), |i: int| list[i].byte)
}

proof fn lemma_hex(b: u8, upper: bool)
    ensures
        sq::hex_byte(hex(b as int / 16, upper), hex(b as int % 16, upper)) == Some(b),
{
    let h = b as int / 16;
    let l = b as int % 16;
    assert(0 <= h < 16 && 0 <= l < 16 && 16 * h + l == b);
    assert(sq::hex_digit(hex(h, upper)) == Some(h as u8));
    assert(sq::hex_digit(hex(l, upper)) == Some(l as u8));
}

proof fn lemma_decoded(raw: Seq<u8>, list: Seq<Written>, i: int, out: Seq<u8>)
    requires
        0 <= i <= raw.len(),
        raw.skip(i) == written(list),
        forall|k: int|
            0 <= k < list.len() ==> (#[trigger] list[k]).escaped || list[k].byte != 37,
    ensures
        sq::decoded_from(raw, i, out) == Some(out + bytes_of(list)),
    decreases list.len(),
{
    if list.len() == 0 {
        assert(raw.skip(i).len() == 0);
        assert(out + bytes_of(list) =~= out);
    } else {
        let w = list[0];
        let rest = list.skip(1);
        assert(w.escaped || w.byte != 37);
        assert forall|k: int| 0 <= k < rest.len() implies (#[trigger] rest[k]).escaped
            || rest[k].byte != 37 by {
            assert(rest[k] == list[k + 1]);
        }
        assert(written(list).len() > 0);
        assert(raw.skip(i).len() == raw.len() - i);
        assert(raw.skip(i)[0] == raw[i]);
        assert(out.push(w.byte) + bytes_of(rest) =~= out + bytes_of(list));
        if w.escaped {
            assert(raw.skip(i).len() >= 3);
            assert(raw.skip(i)[1] == raw[i + 1]);
            assert(raw.skip(i)[2] == raw[i + 2]);
            lemma_hex(w.byte, w.upper);
            assert(raw.skip(i + 3) =~= raw.skip(i).skip(3));
            assert(raw.skip(i).skip(3) =~= written(rest));
            lemma_decoded(raw, rest, i + 3, out.push(w.byte));
        } else {
            assert(raw.skip(i + 1) =~= raw.skip(i).skip(1));
            assert(raw.skip(i).skip(1) =~= written(rest));
            lemma_decoded(raw, rest, i + 1, out.push(w.byte));
        }
    }
}

/// The bytes of a URI are read back, those that are written behind a percent sign
/// too, in whichever case.
pub proof fn law_percent(list: Seq<Written>)
    requires
        forall|k: int|
            0 <= k < list.len() ==> (#[trigger] list[k]).escaped || list[k].byte != 37,
    ensures
        sq::decoded_from(written(list), 0, Seq::empty()) == Some(bytes_of(list)),
{
    let raw = written(list);
    assert(raw.skip(0) =~= raw);
    lemma_decoded(raw, list, 0, Seq::empty());
    assert(Seq::<u8>::empty() + bytes_of(list) =~= bytes_of(list));
}

// ---------------------------------------------------------------------------
// Changes
// ---------------------------------------------------------------------------

/// Whether a message speaks of a source.
pub open spec fn is_about(msg: Json, path: Text) -> bool {
    &&& sj::as_text(
        sj::get_in(sj::get_in(sj::get(msg, "params"@), "textDocument"@), "uri"@),
    ) matches Some(uri) && sq::path_from_uri(uri) == Some(path)
    &&& sq::is_fortran_indexable(path)
}

/// After a change the document has the text of the last change, in the requests
/// about it and in the workspace.
pub proof fn law_change(s: Server, msg: Json, path: Text, changes: Seq<Json>, text: Text)
    requires
        is_about(msg, path),
        sj::as_array(sj::get_in(sj::get(msg, "params"@), "contentChanges"@)) == Some(changes),
        changes.len() > 0,
        reads_text(sj::get(changes.last(), "text"@), text),
    ensures
        ssv::open_text(ssv::did_change(s, msg), path) == Some(text),
        ssv::did_change(s, msg).workspace == sw::upsert_file(s.workspace, path, text),
{
    sb::law_insert(s.open_sources, sh::components(path), text, sh::components(path));
}

/// After saving, a document that is open has the text that comes with the message,
/// or else the text on disk.
pub proof fn law_save(s: Server, msg: Json, path: Text, disk: Option<Text>, text: Text)
    requires
        is_about(msg, path),
        ssv::open_text(s, path) is Some,
        match sj::as_text(sj::get_in(sj::get(msg, "params"@), "text"@)) {
            Some(t) => t == text,
            None => disk == Some(text),
        },
    ensures
        ssv::open_text(ssv::did_save(s, msg, disk), path) == Some(text),
        ssv::did_save(s, msg, disk).workspace == sw::upsert_file(s.workspace, path, text),
{
    sb::law_insert(s.open_sources, sh::components(path), text, sh::components(path));
}

/// Each message about a source is followed by all the remarks about it, as they
/// are afterwards.
pub proof fn law_remarks_follow(
    s: Server,
    msg: Json,
    outside: Outside,
    version: Text,
    path: Text,
    method: Text,
)
    requires
        is_about(msg, path),
        reads_text(sj::get(msg, "method"@), method),
        method == "textDocument/didOpen"@ || method == "textDocument/didChange"@,
    ensures
        ({
            let o = ssv::handle_message(s, msg, outside, version);
            let list = sw::diagnostics(o.server.workspace, path);
            &&& !o.exit
            &&& o.reply matches Some(sent) && reads_text(
                sj::get(sent, "method"@),
                "textDocument/publishDiagnostics"@,
            ) && (sj::as_array(
                sj::get_in(sj::get(sent, "params"@), "diagnostics"@),
            ) matches Some(items) && items.len() == list.len() && forall|i: int|
                0 <= i < list.len() ==> reads_range(
                    sj::get(#[trigger] items[i], "range"@),
                    list[i].range,
                ) && reads_text(sj::get(items[i], "message"@), list[i].message))
        }),
{
    reveal_strlit("initialize");
    reveal_strlit("initialized");
    reveal_strlit("shutdown");
    reveal_strlit("exit");
    reveal_strlit("textDocument/didOpen");
    reveal_strlit("textDocument/didChange");
    assert("initialize"@.len() == 10 && "initialized"@.len() == 11 && "shutdown"@.len() == 8
        && "exit"@.len() == 4 && "textDocument/didOpen"@.len() == 20
        && "textDocument/didChange"@.len() == 22);
    let o = ssv::handle_message(s, msg, outside, version);
    let uri = sq::text_document_uri(msg)->0;
    law_read_published(uri, sw::diagnostics(o.server.workspace, path));
}

/// The limits for lines come from the settings under their names.
pub proof fn law_limits(ws: Workspace, options: Json)
    ensures
        ssv::with_options(ws, Some(options)).max_line_length == sq::limit(
            options,
            "maxLineLength"@,
        ),
        ssv::with_options(ws, Some(options)).max_comment_line_length == sq::limit(
            options,
            "maxCommentLineLength"@,
        ),
        ssv::with_options(ws, None) == ws,
{
}

// ---------------------------------------------------------------------------
// Places
// ---------------------------------------------------------------------------

/// Behind a name and `%` the parts of that name can stand.
pub proof fn law_component_place(
    indent: Text,
    before: Text,
    name: Text,
    gap: Text,
    gap2: Text,
    part: Text,
)
    requires
        all_space(indent),
        before.len() > 0 ==> !is_name_character(before.last()) && !st::is_space(before[0]),
        is_name(name),
        all_space(gap),
        all_space(gap2),
        forall|i: int| 0 <= i < part.len() ==> is_name_character(#[trigger] part[i]),
    ensures
        sco::context(indent + (before + name + gap + seq!['%'] + gap2 + part))
            == Context::Component(name),
{
    let head = before + name + gap + seq!['%'] + gap2 + part;
    assert(is_name_character(name[0]));
    assert(is_name_character(name.last()));
    assert(head[0] == if before.len() > 0 {
        before[0]
    } else {
        name[0]
    });
    law_trim_start(indent, head);
    let left = before + name + gap + seq!['%'];
    let lead = left + gap2;
    assert(head =~= lead + part);
    assert(lead.last() == if gap2.len() > 0 {
        gap2.last()
    } else {
        '%'
    });
    lemma_run_begin(lead, part, part.len() as int);
    assert(head.take(lead.len() as int) =~= lead);
    law_trim_end(left, gap2);
    assert(left.drop_last() =~= (before + name) + gap);
    assert((before + name).last() == name.last());
    law_trim_end(before + name, gap);
    lemma_run_begin(before, name, name.len() as int);
    assert((before + name).skip(before.len() as int) =~= name);
}

proof fn lemma_run_begin(before: Text, run: Text, j: int)
    requires
        forall|i: int| 0 <= i < run.len() ==> is_name_character(#[trigger] run[i]),
        before.len() > 0 ==> !is_name_character(before.last()),
        0 <= j <= run.len(),
    ensures
        st::name_begin(before + run, before.len() + j) == before.len(),
    decreases j,
{
    if j > 0 {
        assert((before + run)[before.len() + j - 1] == run[j - 1]);
        lemma_run_begin(before, run, j - 1);
    } else if before.len() > 0 {
        assert((before + run)[before.len() - 1] == before.last());
    }
}

// ---------------------------------------------------------------------------
// Hints
// ---------------------------------------------------------------------------

/// The hint before an argument is the name of the argument that it is given for,
/// with a colon.
pub proof fn law_hint(line: Text, number: usize, call: sca::Call, c: sqy::Callee, j: int)
    ensures
        sca::hint(line, number, call, c, j).label == sqy::argument_name(c.args[j]) + seq![':'],
        sca::hint(line, number, call, c, j).position.line == number,
{
    reveal_strlit(":");
    assert(":"@ =~= seq![':']);
}

proof fn lemma_hints(
    line: Text,
    number: usize,
    call: sca::Call,
    c: sqy::Callee,
    j: int,
    n: int,
    out: Seq<sm::InlayHint>,
)
    requires
        0 <= j <= n <= call.args.len(),
        n <= call.starts.len(),
        n <= c.args.len(),
        forall|k: int|
            0 <= k < n ==> sca::keyword(#[trigger] call.args[k]) is None && !sca::is_label(
                call.args[k],
            ),
        out.len() == j,
        forall|k: int| 0 <= k < j ==> #[trigger] out[k] == sca::hint(line, number, call, c, k),
    ensures
        ({
            let all = sca::hints_from(line, number, call, c, j, out);
            all.len() >= n && forall|k: int|
                0 <= k < n ==> #[trigger] all[k] == sca::hint(line, number, call, c, k)
        }),
        n == call.args.len() ==> sca::hints_from(line, number, call, c, j, out).len() == n,
    decreases n - j,
{
    if j < n {
        assert(sca::keyword(call.args[j]) is None && !sca::is_label(call.args[j]));
        lemma_hints(
            line,
            number,
            call,
            c,
            j + 1,
            n,
            out.push(sca::hint(line, number, call, c, j)),
        );
    } else {
        lemma_more(line, number, call, c, j, out);
    }
}

proof fn lemma_more(
    line: Text,
    number: usize,
    call: sca::Call,
    c: sqy::Callee,
    j: int,
    out: Seq<sm::InlayHint>,
)
    requires
        0 <= j,
    ensures
        ({
            let all = sca::hints_from(line, number, call, c, j, out);
            all.len() >= out.len() && forall|k: int| 0 <= k < out.len() ==> #[trigger] all[k]
                == out[k]
        }),
        j >= call.args.len() ==> sca::hints_from(line, number, call, c, j, out) == out,
    decreases call.args.len() - j,
{
    if j < call.args.len() && j < call.starts.len() && j < c.args.len() {
        let next = out.push(sca::hint(line, number, call, c, j));
        lemma_more(line, number, call, c, j + 1, next);
        let all = sca::hints_from(line, number, call, c, j + 1, next);
        assert forall|k: int| 0 <= k < out.len() implies #[trigger] all[k] == out[k] by {
            assert(next[k] == out[k]);
        }
    }
}

/// Each argument that stands by itself gets the hint of its place.
pub proof fn law_hints(line: Text, number: usize, call: sca::Call, c: sqy::Callee, n: int)
    requires
        0 <= n <= call.args.len(),
        n <= call.starts.len(),
        n <= c.args.len(),
        forall|k: int|
            0 <= k < n ==> sca::keyword(#[trigger] call.args[k]) is None && !sca::is_label(
                call.args[k],
            ),
    ensures
        ({
            let all = sca::hints_from(line, number, call, c, 0, Seq::empty());
            &&& all.len() >= n
            &&& forall|k: int|
                0 <= k < n ==> (#[trigger] all[k]).label == sqy::argument_name(c.args[k])
                    + seq![':'] && all[k].position.line == number
            &&& n == call.args.len() ==> all.len() == n
        }),
{
    reveal_strlit(":");
    assert(":"@ =~= seq![':']);
    lemma_hints(line, number, call, c, 0, n, Seq::empty());
}

} // verus!
