//! What is sent, and what comes back.

use vstd::prelude::*;
use vstd::utf8::*;

use crate::laws::text::law_decimal;
use crate::model::Position;
use crate::spec::json as sj;
use crate::spec::lsp as sl;
use crate::spec::order as sr;
use crate::spec::protocol as sq;
use crate::spec::source as ssr;
use crate::spec::text as st;
use crate::spec::text::Text;

verus! {

// ---------------------------------------------------------------------------
// Framing
// ---------------------------------------------------------------------------

/// Blanks before a text without white space at its ends are trimmed off.
proof fn lemma_trim_blank(t: Text)
    requires
        t.len() > 0,
        !st::is_space(t[0]),
        !st::is_space(t.last()),
    ensures
        st::trim(seq![' '] + t) == t,
{
    let s = seq![' '] + t;
    assert(s.last() == t.last());
    assert(st::before_spaces(s, s.len() as int) == s.len());
    let e = st::trim_end(s);
    assert(e =~= s);
    reveal_with_fuel(st::after_spaces, 3);
    assert(s[0] == ' ' && s[1] == t[0]);
    assert(st::after_spaces(s, 0) == 1);
    assert(s.skip(1) =~= t);
    lemma_after(s);
}

proof fn lemma_after(s: Text)
    requires
        s.len() > 1,
        st::is_space(s[0]),
        !st::is_space(s[1]),
        !st::is_space(s.last()),
    ensures
        st::trim(s) == s.skip(1),
{
    reveal_with_fuel(st::after_spaces, 3);
    let e = st::trim_end(s);
    assert(e =~= s);
    let b = st::trim_start(s);
    assert(b =~= s.skip(1));
    assert(b.last() == s.last());
    assert(st::trim_end(b) =~= b);
}

/// The bytes of a text are those of its first character and of the rest.
proof fn lemma_byte_len(s: Text)
    requires
        s.len() > 0,
    ensures
        st::byte_len(s) == st::byte_width(s[0]) + st::byte_len(s.drop_first()),
    decreases s.len(),
{
    reveal_with_fuel(st::byte_len, 2);
    if s.len() > 1 {
        lemma_byte_len(s.drop_last());
        assert(s.drop_last().drop_first() =~= s.drop_first().drop_last());
    }
}

proof fn lemma_encoded_len(s: Text)
    ensures
        encode_utf8(s).len() == st::byte_len(s),
    decreases s.len(),
{
    if s.len() > 0 {
        lemma_byte_len(s);
        lemma_encoded_len(s.drop_first());
        char_is_scalar(s[0]);
    }
}

/// What a text of JSON stands for is what its bytes stand for as a body.
pub proof fn law_body(text: Text)
    ensures
        sq::body(encode_utf8(text)) == sj::json_of_text(text),
{
    encode_utf8_valid_utf8(text);
    encode_utf8_decode_utf8(text);
}

/// The head of a message gives the number of bytes of its body back.
pub proof fn law_content_length(body: Text)
    requires
        encode_utf8(body).len() <= usize::MAX,
    ensures
        sq::framed(body) == "Content-Length: "@ + st::decimal(encode_utf8(body).len())
            + "\r\n\r\n"@ + body,
        sq::header("Content-Length: "@ + st::decimal(encode_utf8(body).len()) + "\r\n"@)
            == sq::Header::Length(Some(encode_utf8(body).len() as usize)),
        sq::header("\r\n"@) == sq::Header::End,
        forall|len: Option<usize>| #[trigger]
            sq::head_step(
                len,
                "Content-Length: "@ + st::decimal(encode_utf8(body).len()) + "\r\n"@,
            ) == sq::Head::More(Some(encode_utf8(body).len() as usize)),
        forall|len: Option<usize>| #[trigger]
            sq::head_step(len, "\r\n"@) == sq::Head::Done(len),
{
    lemma_encoded_len(body);
    lemma_header(st::bytes(body));
    reveal_strlit("\r\n");
    reveal_with_fuel(sq::before_line_end, 3);
}

proof fn lemma_header(n: usize)
    ensures
        sq::header("Content-Length: "@ + st::decimal(n as nat) + "\r\n"@) == sq::Header::Length(
            Some(n),
        ),
{
    let d = st::decimal(n as nat);
    law_decimal(n as nat);
    reveal_strlit("\r\n");
    reveal_strlit("Content-Length: ");
    reveal_strlit("Content-Length:");
    let head = "Content-Length: "@ + d;
    let line = head + "\r\n"@;
    assert(line.len() == head.len() + 2);
    assert(line[line.len() - 1] == '\n');
    assert(line[line.len() - 2] == '\r');
    assert(line[head.len() - 1] == d.last());
    reveal_with_fuel(sq::before_line_end, 4);
    assert(sq::before_line_end(line, line.len() as int) == head.len());
    let content = line.take(head.len() as int);
    assert(content =~= head);
    assert(st::starts_with(content, "Content-Length:"@)) by {
        assert(content.subrange(0, "Content-Length:"@.len() as int) =~= "Content-Length:"@);
    }
    let rest = content.skip("Content-Length:"@.len() as int);
    assert(rest =~= seq![' '] + d);
    lemma_trim_blank(d);
}

// ---------------------------------------------------------------------------
// Paths
// ---------------------------------------------------------------------------

/// A character other than `%` has no byte of it.
proof fn lemma_scalar_bytes(c: u32)
    requires
        c != 37,
    ensures
        forall|i: int| 0 <= i < encode_scalar(c).len() ==> #[trigger] encode_scalar(c)[i] != 37,
{
    assert(c < 128 && c != 37 ==> (c & 0x7f) as u8 != 37) by (bit_vector);
    assert((0xC0u8 | ((c >> 6) & 0x1F) as u8) != 37) by (bit_vector);
    assert((0xE0u8 | ((c >> 12) & 0x0F) as u8) != 37) by (bit_vector);
    assert((0xF0u8 | ((c >> 18) & 0x7) as u8) != 37) by (bit_vector);
    assert((0x80u8 | (c & 0x3F) as u8) != 37) by (bit_vector);
    assert((0x80u8 | ((c >> 6) & 0x3F) as u8) != 37) by (bit_vector);
    assert((0x80u8 | ((c >> 12) & 0x3F) as u8) != 37) by (bit_vector);
}

proof fn lemma_bytes(s: Text)
    requires
        !s.contains('%'),
    ensures
        forall|i: int| 0 <= i < encode_utf8(s).len() ==> #[trigger] encode_utf8(s)[i] != 37,
    decreases s.len(),
{
    if s.len() > 0 {
        let rest = s.drop_first();
        assert(s.contains(s[0]));
        assert(!rest.contains('%')) by {
            if rest.contains('%') {
                let k = choose|k: int| 0 <= k < rest.len() && rest[k] == '%';
                assert(s[k + 1] == '%');
            }
        }
        lemma_bytes(rest);
        let c: char = s[0];
        char_is_scalar(c);
        assert(c as u32 != 37) by {
            if c as u32 == 37 {
                char_u32_cast(c, 37);
                char_u32_cast('%', 37);
            }
        }
        lemma_scalar_bytes(c as u32);
        let first = encode_scalar(s[0] as u32);
        assert forall|i: int| 0 <= i < encode_utf8(s).len() implies #[trigger] encode_utf8(s)[i]
            != 37 by {
            if i >= first.len() {
                assert(encode_utf8(s)[i] == encode_utf8(rest)[i - first.len()]);
            } else {
                assert(encode_utf8(s)[i] == first[i]);
            }
        }
    }
}

proof fn lemma_plain_bytes(raw: Seq<u8>, i: int)
    requires
        0 <= i <= raw.len(),
        forall|k: int| 0 <= k < raw.len() ==> #[trigger] raw[k] != 37,
    ensures
        sq::decoded_from(raw, i, raw.take(i)) == Some(raw),
    decreases raw.len() - i,
{
    if i < raw.len() {
        assert(raw.take(i).push(raw[i]) =~= raw.take(i + 1));
        lemma_plain_bytes(raw, i + 1);
    } else {
        assert(raw.take(i) =~= raw);
    }
}

/// The URI of a path gives the path back, unless there is a `%` in it.
pub proof fn law_uri(path: Text)
    requires
        !path.contains('%'),
    ensures
        sq::path_from_uri("file://"@ + path) == Some(path),
{
    let uri = "file://"@ + path;
    assert(uri.subrange(0, "file://"@.len() as int) =~= "file://"@);
    assert(uri.skip("file://"@.len() as int) =~= path);
    lemma_bytes(path);
    let raw = encode_utf8(path);
    assert(raw.take(0) =~= Seq::empty());
    lemma_plain_bytes(raw, 0);
    encode_utf8_valid_utf8(path);
    encode_utf8_decode_utf8(path);
}

/// A file is answered under the path that identifies it.
pub proof fn law_location_uri(files: Seq<ssr::SourceFile>, path: Text)
    requires
        !ssr::canonical(files, path).contains('%'),
    ensures
        sq::path_from_uri(sl::uri_from_path(files, path)) == Some(ssr::canonical(files, path)),
{
    law_uri(ssr::canonical(files, path));
}

// ---------------------------------------------------------------------------
// Positions
// ---------------------------------------------------------------------------

/// A position that is sent reads as that position.
pub proof fn law_position(p: Position)
    ensures
        sq::position_of(Some(sl::position(p))) == Some(p),
{
    reveal_strlit("line");
    reveal_strlit("character");
    assert("line"@.len() != "character"@.len());
    let fields = sl::position(p)->Object_0;
    assert(fields.len() == 2);
    assert(fields[0].0 == "line"@);
    assert(fields[1].0 == "character"@);
    reveal_with_fuel(sj::entry_from, 3);
    assert(sj::entry_from(fields, "line"@, 0) == Some(fields[0].1));
    assert(sj::entry_from(fields, "character"@, 0) == Some(fields[1].1));
    assert((p.line as u64) as usize == p.line);
    assert((p.character as u64) as usize == p.character);
}

// ---------------------------------------------------------------------------
// Macros
// ---------------------------------------------------------------------------

/// Macros can be put in order.
pub proof fn lemma_macro_order()
    ensures
        sr::is_order(sq::macro_order()),
{
    let order = sq::macro_order();
    assert forall|a: (Text, Text), b: (Text, Text)| #[trigger] order(a, b) || order(b, a) by {
        sr::lemma_text_order(a.0, b.0, b.0, 0);
        sr::lemma_text_order(a.1, b.1, b.1, 0);
    }
    assert forall|a: (Text, Text), b: (Text, Text), c: (Text, Text)|
        #[trigger] order(a, b) && #[trigger] order(b, c) implies order(a, c) by {
        sr::lemma_text_order(a.0, b.0, c.0, 0);
        sr::lemma_text_order(a.1, b.1, c.1, 0);
        if a.0 != b.0 && b.0 != c.0 && a.0 == c.0 {
            sr::lemma_text_order(a.0, b.0, a.0, 0);
            assert(a.0.skip(0) =~= a.0);
            assert(b.0.skip(0) =~= b.0);
        }
    }
}

/// Whether no macro of a list is the one before it.
pub open spec fn no_repeats(macros: Seq<(Text, Text)>) -> bool {
    forall|i: int| 0 < i < macros.len() ==> #[trigger] macros[i] != macros[i - 1]
}

proof fn lemma_distinct(macros: Seq<(Text, Text)>, i: int, out: Seq<(Text, Text)>)
    requires
        0 <= i <= macros.len(),
        no_repeats(out),
        sr::is_sorted(macros, sq::macro_order()),
        sr::is_sorted(out, sq::macro_order()),
        out.len() > 0 ==> i > 0 && out.last() == macros[i - 1],
    ensures
        no_repeats(sq::distinct_from(macros, i, out)),
        sr::is_sorted(sq::distinct_from(macros, i, out), sq::macro_order()),
    decreases macros.len() - i,
{
    if i < macros.len() {
        if out.len() > 0 && out.last() == macros[i] {
            lemma_distinct(macros, i + 1, out);
        } else {
            let next = out.push(macros[i]);
            let order = sq::macro_order();
            lemma_macro_order();
            assert forall|a: int, b: int| 0 <= a < b < next.len() implies order(
                #[trigger] next[a],
                #[trigger] next[b],
            ) by {
                if b < out.len() {
                    assert(order(out[a], out[b]));
                } else {
                    assert(order(macros[i - 1], macros[i]));
                    if a < out.len() - 1 {
                        assert(order(out[a], out[out.len() - 1]));
                    }
                }
            }
            lemma_distinct(macros, i + 1, next);
        }
    }
}

/// The macros that the settings define stand in order, each once.
pub proof fn law_distinct_macros(macros: Seq<(Text, Text)>)
    ensures
        no_repeats(sq::distinct_macros(macros)),
        sr::is_sorted(sq::distinct_macros(macros), sq::macro_order()),
{
    lemma_macro_order();
    sr::law_sorted(macros, sq::macro_order());
    lemma_distinct(sr::sorted(macros, sq::macro_order()), 0, Seq::empty());
}

} // verus!
