//! Lines of a text, files that are taken in, and intrinsic procedures.

use vstd::prelude::*;

use crate::intrinsics::IntrinsicKind;
use crate::laws::remarks::{lemma_shows, shows};
use crate::spec::intrinsics as si;
use crate::spec::intrinsics::IntrinsicSymbol;
use crate::spec::json as sj;
use crate::spec::json::Json;
use crate::spec::model as sm;
use crate::spec::model::{Diagnostic, ResolvedInclude};
use crate::spec::path as sh;
use crate::spec::source as ssr;
use crate::spec::text as st;
use crate::spec::text::Text;
use crate::spec::workspace as sw;
use crate::spec::workspace::Workspace;

verus! {

// ---------------------------------------------------------------------------
// Lines
// ---------------------------------------------------------------------------

/// Lines, each with what ends it: a line feed, or a carriage return and a line
/// feed.
pub open spec fn ended(lines: Seq<Text>, ends: Seq<bool>) -> Text
    decreases lines.len(),
{
    if lines.len() == 0 {
        Seq::empty()
    } else {
        ended(lines.drop_last(), ends) + lines.last() + (if ends[lines.len() - 1] {
            seq!['\r', '\n']
        } else {
            seq!['\n']
        })
    }
}

/// Whether a text is a line: no line feed stands in it, and no carriage return at
/// its end.
pub open spec fn is_line(t: Text) -> bool {
    !t.contains('\n') && (t.len() == 0 || t.last() != '\r')
}

proof fn lemma_no_end(s: Text, start: int, i: int, e: int, done: Seq<Text>)
    requires
        0 <= start <= i <= e <= s.len(),
        forall|k: int| i <= k < e ==> #[trigger] s[k] != '\n',
    ensures
        st::lines_from(s, start, i, done) == st::lines_from(s, start, e, done),
    decreases e - i,
{
    if i < e {
        lemma_no_end(s, start, i + 1, e, done);
    }
}

proof fn lemma_lines(lines: Seq<Text>, ends: Seq<bool>, s: Text, n: int)
    requires
        lines.len() == ends.len(),
        forall|k: int| 0 <= k < lines.len() ==> is_line(#[trigger] lines[k]),
        0 <= n <= lines.len(),
        ended(lines.take(n), ends).len() <= s.len(),
        s.take(ended(lines.take(n), ends).len() as int) == ended(lines.take(n), ends),
    ensures
        st::lines_from(s, 0, 0, Seq::empty()) == st::lines_from(
            s,
            ended(lines.take(n), ends).len() as int,
            ended(lines.take(n), ends).len() as int,
            lines.take(n),
        ),
    decreases n,
{
    if n > 0 {
        let before = lines.take(n - 1);
        let one = lines[n - 1];
        let head = ended(before, ends);
        let all = ended(lines.take(n), ends);
        assert(lines.take(n).drop_last() =~= before);
        assert(lines.take(n).last() == one);
        let end = if ends[n - 1] {
            seq!['\r', '\n']
        } else {
            seq!['\n']
        };
        assert(all == head + one + end);
        assert(s.take(head.len() as int) =~= head) by {
            assert forall|k: int| 0 <= k < head.len() implies s[k] == head[k] by {
                assert(s.take(all.len() as int)[k] == s[k]);
                assert(all[k] == head[k]);
            }
        }
        lemma_lines(lines, ends, s, n - 1);
        let start = head.len() as int;
        let e = all.len() - 1;
        assert forall|k: int| start <= k < all.len() implies #[trigger] s[k] == (one + end)[k
            - start] by {
            assert(s.take(all.len() as int)[k] == s[k]);
            assert(all[k] == (one + end)[k - start]);
        }
        assert(is_line(one));
        assert forall|k: int| start <= k < e implies #[trigger] s[k] != '\n' by {
            if k - start < one.len() {
                assert(s[k] == one[k - start]);
                assert(one.contains(one[k - start]));
            }
        }
        lemma_no_end(s, start, start, e, before);
        assert(s[e] == '\n');
        let piece = s.subrange(start, e);
        if ends[n - 1] {
            assert(piece =~= one.push('\r'));
            assert(piece.drop_last() =~= one);
        } else {
            assert(piece =~= one);
        }
        assert(st::strip_return(piece) == one);
        assert(before.push(one) =~= lines.take(n));
    } else {
        assert(lines.take(0) =~= Seq::<Text>::empty());
    }
}

/// A text is split into the lines that it is made of, whichever of the two ends
/// each of them has, and what stands behind the last end is a line too.
pub proof fn law_lines(lines: Seq<Text>, ends: Seq<bool>, last: Text)
    requires
        lines.len() == ends.len(),
        forall|k: int| 0 <= k < lines.len() ==> is_line(#[trigger] lines[k]),
        !last.contains('\n'),
    ensures
        st::lines(ended(lines, ends)) == lines,
        last.len() > 0 ==> st::lines(ended(lines, ends) + last) == lines.push(last),
{
    let n = lines.len() as int;
    assert(lines.take(n) =~= lines);
    let all = ended(lines, ends);
    assert(all.take(all.len() as int) =~= all);
    lemma_lines(lines, ends, all, n);
    if last.len() > 0 {
        let s = all + last;
        assert(s.take(all.len() as int) =~= all);
        lemma_lines(lines, ends, s, n);
        assert forall|k: int| all.len() <= k < s.len() implies #[trigger] s[k] != '\n' by {
            assert(s[k] == last[k - all.len()]);
            assert(last.contains(last[k - all.len()]));
        }
        lemma_no_end(s, all.len() as int, all.len() as int, s.len() as int, lines);
        assert(s.skip(all.len() as int) =~= last);
    }
}

/// A line has its number, counted from 0; beyond the last one there is nothing.
pub proof fn law_line(s: Text, n: int)
    ensures
        0 <= n < st::lines(s).len() ==> st::line(s, n) == st::lines(s)[n],
        n >= st::lines(s).len() ==> st::line(s, n).len() == 0,
{
}

// ---------------------------------------------------------------------------
// Files that are taken in
// ---------------------------------------------------------------------------

/// A file that is named without a root is looked for in the directory of the file
/// that names it; one with a root is looked for there.
pub proof fn law_candidate(dir: Text, from: Text, name: Text)
    requires
        sh::parent(from) == Some(dir),
        dir.len() > 0,
        dir.last() != '/',
    ensures
        name.len() > 0 && name[0] == '/' ==> ssr::candidate(from, name) == Some(name),
        name.len() == 0 || name[0] != '/' ==> ssr::candidate(from, name) == Some(
            dir + seq!['/'] + name,
        ),
{
    reveal_strlit("/");
    assert("/"@ =~= seq!['/']);
}

/// A file is found beside the one that names it, where there is one there; else in
/// the first of the roots that has it; else anywhere in the workspace under a path
/// that ends in its name.
pub proof fn law_found(ws: Workspace, from: Text, name: Text, beside: Text, k: int)
    requires
        ssr::candidate(from, name) == Some(beside),
    ensures
        sw::exists_file(ws, beside) ==> sw::resolve_path(ws, from, name) == Some(beside),
        !sw::exists_file(ws, beside) && 0 <= k < ws.include_roots.len() && sw::exists_file(
            ws,
            sh::join(ws.include_roots[k], name),
        ) && (forall|j: int|
            0 <= j < k ==> !sw::exists_file(ws, sh::join(#[trigger] ws.include_roots[j], name)))
            ==> sw::resolve_path(ws, from, name) == Some(sh::join(ws.include_roots[k], name)),
        !sw::exists_file(ws, beside) && (forall|j: int|
            0 <= j < ws.include_roots.len() ==> !sw::exists_file(
                ws,
                sh::join(#[trigger] ws.include_roots[j], name),
            )) && (forall|j: int|
            0 <= j < ws.index.files.len() ==> !sw::ends_in(
                (#[trigger] ws.index.files[j]).path,
                name,
            )) ==> sw::resolve_path(ws, from, name) is None,
{
    lemma_roots(ws, name, 0, k);
    lemma_files(ws.index.files, name, 0);
}

proof fn lemma_roots(ws: Workspace, name: Text, i: int, k: int)
    requires
        0 <= i,
    ensures
        i <= k < ws.include_roots.len() && sw::exists_file(
            ws,
            sh::join(ws.include_roots[k], name),
        ) && (forall|j: int|
            i <= j < k ==> !sw::exists_file(ws, sh::join(#[trigger] ws.include_roots[j], name)))
            ==> sw::in_roots_from(ws, name, i) == Some(sh::join(ws.include_roots[k], name)),
        (forall|j: int|
            i <= j < ws.include_roots.len() ==> !sw::exists_file(
                ws,
                sh::join(#[trigger] ws.include_roots[j], name),
            )) ==> sw::in_roots_from(ws, name, i) is None,
    decreases ws.include_roots.len() - i,
{
    if i < ws.include_roots.len() {
        lemma_roots(ws, name, i + 1, k);
        if i < k {
            let root = ws.include_roots[i];
            assert(sh::join(root, name) == sh::join(ws.include_roots[i], name));
        }
    }
}

proof fn lemma_files(files: Seq<sm::ParsedFile>, name: Text, i: int)
    requires
        0 <= i,
    ensures
        (forall|j: int|
            i <= j < files.len() ==> !sw::ends_in((#[trigger] files[j]).path, name))
            ==> sw::in_files_from(files, name, i) is None,
    decreases files.len() - i,
{
    if i < files.len() {
        lemma_files(files, name, i + 1);
    }
}

proof fn lemma_unresolved(list: Seq<ResolvedInclude>, i: int, out: Seq<Diagnostic>, d: Diagnostic)
    requires
        0 <= i,
    ensures
        sw::unresolved_from(list, i, out).contains(d) <==> out.contains(d) || exists|k: int|
            i <= k < list.len() && (#[trigger] list[k]).resolved_path is None && st::lower(
                list[k].include_stmt.path,
            ) != "mpif.h"@ && d == sw::unresolved_file(list[k].include_stmt),
    decreases list.len() - i,
{
    reveal_strlit("mpif.h");
    assert(st::lower("mpif.h"@) =~= "mpif.h"@);
    if i < list.len() {
        let hit = list[i].resolved_path is None && !sw::is_external(list[i].include_stmt.path);
        let one = sw::unresolved_file(list[i].include_stmt);
        let next = if hit {
            out.push(one)
        } else {
            out
        };
        lemma_unresolved(list, i + 1, next, d);
        if out.contains(d) {
            let m = choose|m: int| 0 <= m < out.len() && out[m] == d;
            assert(next[m] == d);
        }
        if hit && one == d {
            assert(next[out.len() as int] == d);
        }
        if next.contains(d) && !out.contains(d) {
            let m = choose|m: int| 0 <= m < next.len() && next[m] == d;
            if m < out.len() {
                assert(out[m] == d);
            }
        }
    }
}

/// A statement that takes a file in is remarked on exactly where the file is not
/// found, unless it is one that libraries bring along.
pub proof fn law_unresolved(list: Seq<ResolvedInclude>, d: Diagnostic)
    ensures
        sw::unresolved_from(list, 0, Seq::empty()).contains(d) <==> exists|k: int|
            0 <= k < list.len() && (#[trigger] list[k]).resolved_path is None && st::lower(
                list[k].include_stmt.path,
            ) != "mpif.h"@ && d == sw::unresolved_file(list[k].include_stmt),
{
    lemma_unresolved(list, 0, Seq::empty(), d);
    assert(!Seq::<Diagnostic>::empty().contains(d));
}

/// Such a remark stands where the statement stands, as a warning, and names the
/// file.
pub proof fn law_unresolved_message(stmt: sm::IncludeStmt)
    ensures
        sw::unresolved_file(stmt).range == stmt.range,
        sw::unresolved_file(stmt).severity is Warning,
        shows(sw::unresolved_file(stmt).message, stmt.path),
{
    lemma_shows("include file `"@, stmt.path, "` could not be resolved"@);
}

// ---------------------------------------------------------------------------
// Intrinsic procedures
// ---------------------------------------------------------------------------

/// What is shown for an intrinsic symbol holds its name with its arguments, its
/// documentation and its module.
pub proof fn law_intrinsic_hover(s: IntrinsicSymbol)
    ensures
        shows(si::hover_markdown(s), si::signature(s)),
        shows(si::hover_markdown(s), s.documentation),
        s.module matches Some(module) ==> shows(si::hover_markdown(s), module),
        s.kind is Function || s.kind is Subroutine ==> si::signature(s) == s.name + seq!['(']
            + st::join(s.args, seq![',', ' ']) + seq![')'],
        !(s.kind is Function || s.kind is Subroutine) ==> si::signature(s) == s.name,
{
    reveal_strlit("(");
    reveal_strlit(")");
    reveal_strlit(", ");
    assert("("@ =~= seq!['(']);
    assert(")"@ =~= seq![')']);
    assert(", "@ =~= seq![',', ' ']);
    let none = Seq::<char>::empty();
    let a = "```fortran\n"@;
    let sig = si::signature(s);
    let b = "\n```"@;
    let head = a + sig + b;
    let docs = if s.documentation.len() == 0 {
        none
    } else {
        "\n\n"@ + s.documentation
    };
    let end = match s.module {
        Some(module) => "\n\nmodule: `"@ + module + "`"@,
        None => none,
    };
    let text = si::hover_markdown(s);
    assert(text =~= head + docs + end);
    assert(text =~= a + sig + (b + docs + end));
    lemma_shows(a, sig, b + docs + end);
    if s.documentation.len() == 0 {
        assert(text =~= none + s.documentation + text);
        lemma_shows(none, s.documentation, text);
    } else {
        assert(text =~= (head + "\n\n"@) + s.documentation + end);
        lemma_shows(head + "\n\n"@, s.documentation, end);
    }
    if let Some(module) = s.module {
        assert(text =~= (head + docs + "\n\nmodule: `"@) + module + "`"@);
        lemma_shows(head + docs + "\n\nmodule: `"@, module, "`"@);
    }
}

/// An entry of the table of procedures is a subroutine for the type 2 and a function
/// for the type 3; its name is in lower case, and its text is its documentation.
pub proof fn law_procedure_entry(name: Text, item: Json)
    ensures
        sj::as_signed(sj::get(item, "type"@)) == Some(2i64) ==> (si::procedure(
            name,
            item,
        ) matches Some(s) && s.kind is Subroutine),
        sj::as_signed(sj::get(item, "type"@)) == Some(3i64) ==> (si::procedure(
            name,
            item,
        ) matches Some(s) && s.kind is Function),
        si::procedure(name, item) matches Some(s) ==> s.name == st::lower(st::trim(name))
            && s.module is None && (sj::as_text(sj::get(item, "doc"@)) matches Some(t)
            ==> s.documentation == t),
        si::procedure(name, item) is Some <==> sj::as_signed(sj::get(item, "type"@)) == Some(2i64)
            || sj::as_signed(sj::get(item, "type"@)) == Some(3i64),
{
}

/// A member of a module is a subroutine for the type 1, a function for 2, a constant
/// for 3 and a type for 4.
pub proof fn law_member_entry(module: Text, child: Json, name: Text)
    requires
        sj::as_text(sj::get(child, "name"@)) == Some(name),
    ensures
        ({
            let code = sj::as_signed(sj::get(child, "type"@));
            let r = si::module_child(module, child);
            &&& code == Some(1i64) ==> r is Some && r->0.kind == IntrinsicKind::Subroutine
            &&& code == Some(2i64) ==> r is Some && r->0.kind == IntrinsicKind::Function
            &&& code == Some(3i64) ==> r is Some && r->0.kind == IntrinsicKind::Constant
            &&& code == Some(4i64) ==> r is Some && r->0.kind == IntrinsicKind::Type
            &&& r matches Some(s) ==> s.name == st::lower(st::trim(name)) && s.module == Some(
                module,
            ) && (sj::as_text(sj::get(child, "desc"@)) matches Some(t) ==> shows(
                s.documentation,
                t,
            ))
        }),
{
    let none = Seq::<Text>::empty();
    if let Some(t) = sj::as_text(sj::get(child, "desc"@)) {
        let e = Seq::<char>::empty();
        match sj::as_text(sj::get(child, "return"@)) {
            Some(u) => {
                let first = "Returns `"@ + u + "`."@;
                let parts = seq![first].push(t);
                assert(parts.drop_last() =~= seq![first]);
                assert(parts.last() == t);
                assert(st::join(seq![first], "\n\n"@) == first) by {
                    assert(seq![first][0] == first);
                }
                let doc = st::join(parts, "\n\n"@);
                assert(doc =~= (first + "\n\n"@) + t + e);
                lemma_shows(first + "\n\n"@, t, e);
            },
            None => {
                let parts = none.push(t);
                assert(parts[0] == t);
                assert(st::join(parts, "\n\n"@) == t);
                assert(e + t + e =~= t);
                lemma_shows(e, t, e);
            },
        }
    }
}

} // verus!
