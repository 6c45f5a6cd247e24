//! What is remarked about a file, and what is shown for a symbol.

use vstd::prelude::*;

use crate::spec::checks as sy;
use crate::spec::model as sm;
use crate::spec::model::{Diagnostic, ParsedFile, UseStmt};
use crate::spec::modules as sx;
use crate::spec::modules::Index;
use crate::spec::text as st;
use crate::spec::text::Text;

verus! {

/// Whether a text holds another one somewhere.
pub open spec fn shows(text: Text, part: Text) -> bool {
    exists|i: int| #[trigger] st::occurs_at(text, part, i)
}

pub proof fn lemma_shows(before: Text, part: Text, behind: Text)
    ensures
        shows(before + part + behind, part),
{
    let text = before + part + behind;
    let k = before.len() as int;
    assert(text.subrange(k, k + part.len()) =~= part);
    assert(st::occurs_at(text, part, k));
}

proof fn lemma_push<A>(s: Seq<A>, a: A, b: A)
    ensures
        s.push(a).contains(b) <==> s.contains(b) || a == b,
{
    if s.contains(b) {
        let k = choose|k: int| 0 <= k < s.len() && s[k] == b;
        assert(s.push(a)[k] == b);
    }
    if a == b {
        assert(s.push(a)[s.len() as int] == b);
    }
    if s.push(a).contains(b) && a != b {
        let k = choose|k: int| 0 <= k < s.push(a).len() && s.push(a)[k] == b;
        assert(s[k] == b);
    }
}

// ---------------------------------------------------------------------------
// Symbols
// ---------------------------------------------------------------------------

/// What is shown for a symbol holds its signature, the scopes around it, its
/// documentation, and its visibility where it has one of its own.
pub proof fn law_hover(s: sm::Symbol)
    ensures
        shows(sm::hover_markdown(s), s.signature),
        s.scope.len() > 0 ==> shows(sm::hover_markdown(s), st::join(s.scope, "::"@)),
        s.documentation matches Some(docs) ==> shows(sm::hover_markdown(s), docs),
        s.visibility is Public ==> shows(sm::hover_markdown(s), "public"@),
        s.visibility is Private ==> shows(sm::hover_markdown(s), "private"@),
        st::starts_with(sm::hover_markdown(s), "```fortran\n"@ + s.signature + "\n```"@),
{
    let none = Seq::<char>::empty();
    let head = "```fortran\n"@ + s.signature + "\n```"@;
    let scopes = st::join(s.scope, "::"@);
    let scope_part = if s.scope.len() == 0 {
        none
    } else {
        "\n\nscope: `"@ + scopes + "`"@
    };
    let docs_part = match s.documentation {
        Some(docs) => "\n\n"@ + docs,
        None => none,
    };
    let label = sm::visibility_label(s.visibility);
    let end = if s.visibility is Default {
        none
    } else {
        "\n\nvisibility: `"@ + label + "`"@
    };
    let text = head + scope_part + docs_part + end;
    lemma_hover_parts(s, head, scopes, label);
    assert(text.subrange(0, head.len() as int) =~= head);
    assert(shows(text, s.signature)) by {
        let tail = "\n```"@ + scope_part + docs_part + end;
        assert(text =~= "```fortran\n"@ + s.signature + tail);
        lemma_shows("```fortran\n"@, s.signature, tail);
    }
    if s.scope.len() > 0 {
        let before = head + "\n\nscope: `"@;
        let behind = "`"@ + docs_part + end;
        assert(text =~= before + scopes + behind);
        lemma_shows(before, scopes, behind);
    }
    if let Some(docs) = s.documentation {
        let before = head + scope_part + "\n\n"@;
        assert(text =~= before + docs + end);
        lemma_shows(before, docs, end);
    }
    if !(s.visibility is Default) {
        let before = head + scope_part + docs_part + "\n\nvisibility: `"@;
        assert(text =~= before + label + "`"@);
        lemma_shows(before, label, "`"@);
    }
}

proof fn lemma_hover_parts(s: sm::Symbol, head: Text, scopes: Text, label: Text)
    requires
        head == "```fortran\n"@ + s.signature + "\n```"@,
        scopes == st::join(s.scope, "::"@),
        label == sm::visibility_label(s.visibility),
    ensures
        sm::hover_markdown(s) == head + (if s.scope.len() == 0 {
            Seq::<char>::empty()
        } else {
            "\n\nscope: `"@ + scopes + "`"@
        }) + (match s.documentation {
            Some(docs) => "\n\n"@ + docs,
            None => Seq::<char>::empty(),
        }) + (if s.visibility is Default {
            Seq::<char>::empty()
        } else {
            "\n\nvisibility: `"@ + label + "`"@
        }),
{
    let none = Seq::<char>::empty();
    let scoped = if s.scope.len() == 0 {
        head
    } else {
        head + "\n\nscope: `"@ + scopes + "`"@
    };
    let a = if s.scope.len() == 0 {
        none
    } else {
        "\n\nscope: `"@ + scopes + "`"@
    };
    assert(scoped =~= head + a);
    let documented = match s.documentation {
        Some(docs) => scoped + "\n\n"@ + docs,
        None => scoped,
    };
    let b = match s.documentation {
        Some(docs) => "\n\n"@ + docs,
        None => none,
    };
    assert(documented =~= head + a + b);
    if s.visibility is Default {
        assert(documented + none =~= documented);
    } else {
        let c = "\n\nvisibility: `"@ + label + "`"@;
        assert(documented + "\n\nvisibility: `"@ + label + "`"@ =~= documented + c);
    }
}

// ---------------------------------------------------------------------------
// Lines
// ---------------------------------------------------------------------------

/// Whether a remark says that a line is longer than it may be: it covers what is
/// too much, and names the limit.
pub open spec fn is_too_long(lines: Seq<Text>, i: int, limit: usize, d: Diagnostic) -> bool {
    &&& st::utf16_len(lines[i]) > limit
    &&& d.severity is Warning
    &&& d.range.start.line == i
    &&& d.range.end.line == i
    &&& d.range.start.character == limit
    &&& d.range.end.character == st::size(st::utf16_len(lines[i]))
}

/// The limit for a line: comments have one of their own.
pub open spec fn limit_of(
    line: Text,
    fixed: bool,
    max_line: Option<usize>,
    max_comment: Option<usize>,
) -> Option<usize> {
    if sy::is_comment_line(line, fixed) {
        max_comment
    } else {
        max_line
    }
}

/// Whether a remark is about one of the lines from `n` on.
pub open spec fn is_length_remark(
    lines: Seq<Text>,
    fixed: bool,
    max_line: Option<usize>,
    max_comment: Option<usize>,
    n: int,
    d: Diagnostic,
) -> bool {
    exists|i: int|
        n <= i < lines.len() && (limit_of(#[trigger] lines[i], fixed, max_line, max_comment)
            matches Some(limit) && is_too_long(lines, i, limit, d) && d.message
            == sy::length_message(sy::is_comment_line(lines[i], fixed), limit))
}

proof fn lemma_lengths(
    lines: Seq<Text>,
    fixed: bool,
    max_line: Option<usize>,
    max_comment: Option<usize>,
    n: int,
    out: Seq<Diagnostic>,
    d: Diagnostic,
)
    requires
        0 <= n <= lines.len() <= usize::MAX,
        forall|i: int| 0 <= i < lines.len() ==> st::utf16_len(#[trigger] lines[i]) <= usize::MAX,
    ensures
        sy::lengths_from(lines, fixed, max_line, max_comment, n, out).contains(d) <==> out.contains(
            d,
        ) || is_length_remark(lines, fixed, max_line, max_comment, n, d),
    decreases lines.len() - n,
{
    if n < lines.len() {
        let comment = sy::is_comment_line(lines[n], fixed);
        let one = sy::length_diagnostic(
            lines[n],
            n as usize,
            comment,
            limit_of(lines[n], fixed, max_line, max_comment),
        );
        let next = sy::with_diagnostic(out, one);
        lemma_lengths(lines, fixed, max_line, max_comment, n + 1, next, d);
        if let Some(x) = one {
            lemma_push(out, x, d);
        }
        if is_length_remark(lines, fixed, max_line, max_comment, n, d) {
            let i = choose|i: int|
                n <= i < lines.len() && (limit_of(
                    #[trigger] lines[i],
                    fixed,
                    max_line,
                    max_comment,
                ) matches Some(limit) && is_too_long(lines, i, limit, d) && d.message
                    == sy::length_message(sy::is_comment_line(lines[i], fixed), limit));
            if i > n {
                assert(n + 1 <= i < lines.len());
            } else {
                assert(one == Some(d));
            }
        }
        if one == Some(d) {
            assert(limit_of(lines[n], fixed, max_line, max_comment) is Some);
        }
        if is_length_remark(lines, fixed, max_line, max_comment, n + 1, d) {
            let i = choose|i: int|
                n + 1 <= i < lines.len() && (limit_of(
                    #[trigger] lines[i],
                    fixed,
                    max_line,
                    max_comment,
                ) matches Some(limit) && is_too_long(lines, i, limit, d) && d.message
                    == sy::length_message(sy::is_comment_line(lines[i], fixed), limit));
            assert(n <= i < lines.len());
        }
    }
}

/// A line is remarked on exactly where it is longer than the limit for its kind.
pub proof fn law_line_lengths(
    lines: Seq<Text>,
    fixed: bool,
    max_line: Option<usize>,
    max_comment: Option<usize>,
    d: Diagnostic,
)
    requires
        lines.len() <= usize::MAX,
        forall|i: int| 0 <= i < lines.len() ==> st::utf16_len(#[trigger] lines[i]) <= usize::MAX,
    ensures
        sy::lengths_from(lines, fixed, max_line, max_comment, 0, Seq::empty()).contains(d)
            <==> is_length_remark(lines, fixed, max_line, max_comment, 0, d),
{
    lemma_lengths(lines, fixed, max_line, max_comment, 0, Seq::empty(), d);
    assert(!Seq::<Diagnostic>::empty().contains(d));
}

/// The remark on a line that is too long names its limit.
pub proof fn law_length_message(comment: bool, limit: usize)
    ensures
        shows(sy::length_message(comment, limit), st::decimal(limit as nat)),
        comment ==> shows(sy::length_message(comment, limit), "max_comment_line_length"@),
        !comment ==> shows(sy::length_message(comment, limit), "max_line_length"@),
{
    let n = st::decimal(limit as nat);
    if comment {
        lemma_shows("Comment line length exceeds \"max_comment_line_length\" ("@, n, ")"@);
        reveal_strlit("Comment line length exceeds \"max_comment_line_length\" (");
        reveal_strlit("max_comment_line_length");
        let a = "Comment line length exceeds \"max_comment_line_length\" ("@;
        assert(a.subrange(29, 52) =~= "max_comment_line_length"@);
        assert(sy::length_message(comment, limit) =~= a.take(29) + "max_comment_line_length"@ + (
        a.skip(52) + n + ")"@));
        lemma_shows(a.take(29), "max_comment_line_length"@, a.skip(52) + n + ")"@);
    } else {
        lemma_shows("Line length exceeds \"max_line_length\" ("@, n, ")"@);
        reveal_strlit("Line length exceeds \"max_line_length\" (");
        reveal_strlit("max_line_length");
        let a = "Line length exceeds \"max_line_length\" ("@;
        assert(a.subrange(21, 36) =~= "max_line_length"@);
        assert(sy::length_message(comment, limit) =~= a.take(21) + "max_line_length"@ + (a.skip(36)
            + n + ")"@));
        lemma_shows(a.take(21), "max_line_length"@, a.skip(36) + n + ")"@);
    }
}

/// A remark beyond the first lines of a file is dropped, and no other.
pub proof fn law_within(list: Seq<Diagnostic>, n: nat, d: Diagnostic)
    ensures
        sy::within_from(list, n, 0, Seq::empty()).contains(d) <==> list.contains(d)
            && d.range.start.line < n,
{
    lemma_within(list, n, 0, Seq::empty(), d);
    assert(!Seq::<Diagnostic>::empty().contains(d));
    assert(list.skip(0) =~= list);
}

proof fn lemma_within(
    list: Seq<Diagnostic>,
    n: nat,
    i: int,
    out: Seq<Diagnostic>,
    d: Diagnostic,
)
    requires
        0 <= i <= list.len(),
    ensures
        sy::within_from(list, n, i, out).contains(d) <==> out.contains(d) || (list.skip(i).contains(
            d,
        ) && d.range.start.line < n),
    decreases list.len() - i,
{
    if i < list.len() {
        let next = if list[i].range.start.line < n {
            out.push(list[i])
        } else {
            out
        };
        lemma_within(list, n, i + 1, next, d);
        lemma_push(out, list[i], d);
        let here = list.skip(i);
        let rest = list.skip(i + 1);
        if here.contains(d) {
            let k = choose|k: int| 0 <= k < here.len() && here[k] == d;
            if k > 0 {
                assert(rest[k - 1] == d);
            }
        }
        if list[i] == d {
            assert(here[0] == d);
        }
        if rest.contains(d) {
            let k = choose|k: int| 0 <= k < rest.len() && rest[k] == d;
            assert(here[k + 1] == d);
        }
    }
}

// ---------------------------------------------------------------------------
// Use statements
// ---------------------------------------------------------------------------

/// Whether a remark says that a module does not export one of the names that a
/// `use` statement asks for, from the name `n` on.
pub open spec fn is_missing(
    index: Index,
    u: UseStmt,
    items: Seq<(Text, Text)>,
    n: int,
    d: Diagnostic,
) -> bool {
    exists|i: int|
        n <= i < items.len() && sx::use_exports(index, u, (#[trigger] items[i]).1) is No && d
            == sy::missing_export(u, items[i])
}

proof fn lemma_missing(
    index: Index,
    u: UseStmt,
    items: Seq<(Text, Text)>,
    n: int,
    out: Seq<Diagnostic>,
    d: Diagnostic,
)
    requires
        0 <= n <= items.len(),
    ensures
        sy::missing_from(index, u, items, n, out).contains(d) <==> out.contains(d) || is_missing(
            index,
            u,
            items,
            n,
            d,
        ),
    decreases items.len() - n,
{
    if n < items.len() {
        let bad = sx::use_exports(index, u, items[n].1) is No;
        let one = sy::missing_export(u, items[n]);
        let next = if bad {
            out.push(one)
        } else {
            out
        };
        lemma_missing(index, u, items, n + 1, next, d);
        lemma_push(out, one, d);
        if is_missing(index, u, items, n, d) {
            let i = choose|i: int|
                n <= i < items.len() && sx::use_exports(index, u, (#[trigger] items[i]).1) is No
                    && d == sy::missing_export(u, items[i]);
            assert(i == n || n + 1 <= i);
        }
        if is_missing(index, u, items, n + 1, d) {
            let i = choose|i: int|
                n + 1 <= i < items.len() && sx::use_exports(
                    index,
                    u,
                    (#[trigger] items[i]).1,
                ) is No && d == sy::missing_export(u, items[i]);
            assert(n <= i);
        }
    }
}

/// A `use` statement with a list, of a module that is there, is remarked on for
/// exactly those names of the list that the module does not export, and once more
/// where that cannot be known of one of them.
pub proof fn law_use_remarks(index: Index, p: ParsedFile, u: UseStmt, d: Diagnostic)
    ensures
        !sx::is_resolved(index, u) ==> (sy::use_diagnostics(index, p, u, Seq::empty()).contains(d)
            <==> d == sy::unresolved_module(u)),
        sx::is_resolved(index, u) && u.only.len() > 0 ==> (sy::use_diagnostics(
            index,
            p,
            u,
            Seq::empty(),
        ).contains(d) <==> is_missing(index, u, sy::named_items(u), 0, d) || (d
            == sy::unresolved_module(u) && exists|i: int|
            0 <= i < u.only.len() && sx::use_exports(
                index,
                u,
                sx::remote_name(u, #[trigger] u.only[i]),
            ) is Unknown)),
{
    let none = Seq::<Diagnostic>::empty();
    assert(!none.contains(d));
    let one = sy::unresolved_module(u);
    lemma_push(none, one, d);
    let items = sy::named_items(u);
    lemma_missing(index, u, items, 0, none, d);
    lemma_push(sy::missing_from(index, u, items, 0, none), one, d);
    if u.only.len() > 0 {
        if sy::any_unknown(index, u, items) {
            let i = choose|i: int|
                0 <= i < items.len() && sx::use_exports(
                    index,
                    u,
                    (#[trigger] items[i]).1,
                ) is Unknown;
            assert(sx::use_exports(index, u, sx::remote_name(u, u.only[i])) is Unknown);
        }
        if exists|i: int|
            0 <= i < u.only.len() && sx::use_exports(
                index,
                u,
                sx::remote_name(u, #[trigger] u.only[i]),
            ) is Unknown {
            let i = choose|i: int|
                0 <= i < u.only.len() && sx::use_exports(
                    index,
                    u,
                    sx::remote_name(u, #[trigger] u.only[i]),
                ) is Unknown;
            assert(items[i].1 == sx::remote_name(u, u.only[i]));
            assert(sx::use_exports(index, u, items[i].1) is Unknown);
        }
    }
}

/// The remarks on a `use` statement stand where it stands, and name the module and
/// the name that it is about: an error where a name is missing, a warning where
/// the module is.
pub proof fn law_use_messages(u: UseStmt, item: (Text, Text))
    ensures
        sy::unresolved_module(u).range == u.range,
        sy::unresolved_module(u).severity is Warning,
        shows(sy::unresolved_module(u).message, u.module),
        sy::missing_export(u, item).range == u.range,
        sy::missing_export(u, item).severity is Error,
        shows(sy::missing_export(u, item).message, u.module),
        shows(sy::missing_export(u, item).message, item.0),
        shows(sy::missing_export(u, item).message, item.1),
{
    lemma_shows("module `"@, u.module, "` could not be resolved"@);
    let m = sy::missing_export(u, item).message;
    let head = "module `"@ + u.module + "` does not export `"@;
    assert(m =~= "module `"@ + u.module + ("` does not export `"@ + sy::item_label(item) + "`"@));
    lemma_shows("module `"@, u.module, "` does not export `"@ + sy::item_label(item) + "`"@);
    if item.0 == item.1 {
        assert(m =~= head + item.0 + "`"@);
        lemma_shows(head, item.0, "`"@);
    } else {
        assert(m =~= head + item.0 + (" => "@ + item.1 + "`"@));
        lemma_shows(head, item.0, " => "@ + item.1 + "`"@);
        assert(m =~= (head + item.0 + " => "@) + item.1 + "`"@);
        lemma_shows(head + item.0 + " => "@, item.1, "`"@);
    }
}

} // verus!
