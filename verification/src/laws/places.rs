//! Where names stand, and what a new name changes.

use vstd::prelude::*;

use crate::laws::text::is_name_character;
use crate::model::{Position, Range};
use crate::spec::bindings as sg;
use crate::spec::cursor as su;
use crate::spec::model as sm;
use crate::spec::model::{Location, RenameError, TextEdit};
use crate::spec::query as sqy;
use crate::spec::resolve as sv;
use crate::spec::resolve::Ref;
use crate::spec::scan as ss;
use crate::spec::text as st;
use crate::spec::text::Text;
use crate::spec::workspace as sw;
use crate::spec::workspace::Workspace;

verus! {

/// Whether a whole name stands between two indices of a line, the letters' case
/// aside.
pub open spec fn is_name_at(code: Text, name: Text, a: int, b: int) -> bool {
    &&& 0 <= a < b <= code.len()
    &&& forall|i: int| a <= i < b ==> is_name_character(#[trigger] code[i])
    &&& a == 0 || !is_name_character(code[a - 1])
    &&& b == code.len() || !is_name_character(code[b])
    &&& st::lower(code.subrange(a, b)) == st::lower(name)
}

/// Whether a stretch covers the characters between two indices of a line.
pub open spec fn covers(code: Text, number: int, a: int, b: int, r: Range) -> bool {
    &&& r.start.line == number
    &&& r.end.line == number
    &&& r.start.character == st::size(st::utf16_len(code.take(a)))
    &&& r.end.character == st::size(st::utf16_len(code.take(b)))
}

/// Whether a stretch of a line covers a name from index `i` on.
pub open spec fn is_place_from(code: Text, number: int, name: Text, i: int, r: Range) -> bool {
    exists|a: int, b: int|
        i <= a && #[trigger] is_name_at(code, name, a, b) && covers(code, number, a, b, r)
}

/// Whether a stretch of a text covers a name outside of comments.
pub open spec fn is_place_of(source: Text, name: Text, r: Range) -> bool {
    exists|n: int|
        0 <= n < st::lines(source).len() && #[trigger] is_place_from(
            ss::strip_inline_comment(st::lines(source)[n]),
            n,
            name,
            0,
            r,
        )
}

proof fn lemma_run(code: Text, i: int)
    requires
        0 <= i <= code.len(),
    ensures
        i <= st::name_end(code, i) <= code.len(),
        forall|j: int| i <= j < st::name_end(code, i) ==> is_name_character(#[trigger] code[j]),
        st::name_end(code, i) < code.len() ==> !is_name_character(code[st::name_end(code, i)]),
    decreases code.len() - i,
{
    if i < code.len() && st::is_ident(code[i]) {
        lemma_run(code, i + 1);
    }
}

proof fn lemma_line_places(
    code: Text,
    number: usize,
    name: Text,
    i: int,
    out: Seq<Range>,
    r: Range,
)
    requires
        0 <= i <= code.len(),
        i == 0 || i == code.len() || !is_name_character(code[i - 1]) || !is_name_character(code[i]),
    ensures
        su::occurrences_from(code, number, name, i, out).contains(r) <==> out.contains(r)
            || is_place_from(code, number as int, name, i, r),
    decreases code.len() - i,
{
    let all = su::occurrences_from(code, number, name, i, out);
    if i < code.len() {
        lemma_run(code, i);
        if !is_name_character(code[i]) {
            lemma_line_places(code, number, name, i + 1, out, r);
            if is_place_from(code, number as int, name, i, r) {
                let (a, b) = choose|a: int, b: int|
                    i <= a && #[trigger] is_name_at(code, name, a, b) && covers(
                        code,
                        number as int,
                        a,
                        b,
                        r,
                    );
                assert(is_name_character(code[a]));
                assert(i + 1 <= a && is_name_at(code, name, a, b));
            }
            if is_place_from(code, number as int, name, i + 1, r) {
                let (a, b) = choose|a: int, b: int|
                    i + 1 <= a && #[trigger] is_name_at(code, name, a, b) && covers(
                        code,
                        number as int,
                        a,
                        b,
                        r,
                    );
                assert(i <= a && is_name_at(code, name, a, b));
            }
        } else {
            st::lemma_name_end(code, i);
            let end = st::name_end(code, i);
            let range = su::column_range(code, number, i, end);
            let here = st::same(code.subrange(i, end), name);
            let next = if here {
                out.push(range)
            } else {
                out
            };
            lemma_line_places(code, number, name, end, next, r);
            assert(is_name_at(code, name, i, end) == here);
            if out.contains(r) {
                let k = choose|k: int| 0 <= k < out.len() && out[k] == r;
                assert(next[k] == r);
            }
            if next.contains(r) && !out.contains(r) {
                let k = choose|k: int| 0 <= k < next.len() && next[k] == r;
                if k < out.len() {
                    assert(out[k] == r);
                }
                assert(r == range && here);
                assert(is_name_at(code, name, i, end) && covers(code, number as int, i, end, r));
            }
            if is_place_from(code, number as int, name, i, r) {
                let (a, b) = choose|a: int, b: int|
                    i <= a && #[trigger] is_name_at(code, name, a, b) && covers(
                        code,
                        number as int,
                        a,
                        b,
                        r,
                    );
                if a == i {
                    if b < end {
                        assert(is_name_character(code[b]));
                    }
                    if end < b {
                        assert(is_name_character(code[end]));
                    }
                    assert(b == end);
                    assert(r == range);
                    assert(next[out.len() as int] == r);
                } else {
                    if a < end {
                        assert(is_name_character(code[a - 1]));
                    }
                    assert(end <= a && is_name_at(code, name, a, b));
                }
            }
            if is_place_from(code, number as int, name, end, r) {
                let (a, b) = choose|a: int, b: int|
                    end <= a && #[trigger] is_name_at(code, name, a, b) && covers(
                        code,
                        number as int,
                        a,
                        b,
                        r,
                    );
                assert(i <= a && is_name_at(code, name, a, b));
            }
        }
    } else {
        if is_place_from(code, number as int, name, i, r) {
            let (a, b) = choose|a: int, b: int|
                i <= a && #[trigger] is_name_at(code, name, a, b) && covers(
                    code,
                    number as int,
                    a,
                    b,
                    r,
                );
        }
    }
}

proof fn lemma_places(source: Text, name: Text, n: int, out: Seq<Range>, r: Range)
    requires
        0 <= n <= st::lines(source).len() <= usize::MAX,
    ensures
        su::line_occurrences_from(st::lines(source), name, n, out).contains(r) <==> out.contains(r)
            || exists|m: int|
            n <= m < st::lines(source).len() && #[trigger] is_place_from(
                ss::strip_inline_comment(st::lines(source)[m]),
                m,
                name,
                0,
                r,
            ),
    decreases st::lines(source).len() - n,
{
    let lines = st::lines(source);
    if n < lines.len() {
        let code = ss::strip_inline_comment(lines[n]);
        let next = su::occurrences_from(code, n as usize, name, 0, out);
        lemma_line_places(code, n as usize, name, 0, out, r);
        lemma_places(source, name, n + 1, next, r);
        if is_place_from(code, n, name, 0, r) {
            assert(n <= n < lines.len() && is_place_from(
                ss::strip_inline_comment(lines[n]),
                n,
                name,
                0,
                r,
            ));
        }
    }
}

/// The places of a name are the whole names that are it outside of comments, case
/// aside, each from its first character to behind its last one; there are no
/// others.
pub proof fn law_occurrences(source: Text, name: Text, r: Range)
    requires
        st::lines(source).len() <= usize::MAX,
    ensures
        su::identifier_occurrences(source, name).contains(r) <==> is_place_of(source, name, r),
{
    lemma_places(source, name, 0, Seq::empty(), r);
    assert(!Seq::<Range>::empty().contains(r));
}

// ---------------------------------------------------------------------------
// References
// ---------------------------------------------------------------------------

/// Whether a place lies in the file `g`, covers the name of a symbol there, and
/// stands for that symbol.
pub open spec fn refers(ws: Workspace, r: Ref, g: int, loc: Location) -> bool {
    let p = ws.index.files[g];
    &&& loc.file == p.path
    &&& su::identifier_occurrences(p.source, sg::symbol(ws, r).name).contains(loc.range)
    &&& sqy::target(ws, g, p.source, loc.range.start) == Some(r)
}

proof fn lemma_file_places(
    ws: Workspace,
    r: Ref,
    g: int,
    list: Seq<Range>,
    i: int,
    out: Seq<Location>,
    loc: Location,
)
    requires
        0 <= i <= list.len(),
    ensures
        sqy::places_from(ws, r, g, list, i, out).contains(loc) <==> out.contains(loc) || (loc.file
            == ws.index.files[g].path && list.skip(i).contains(loc.range) && sqy::target(
            ws,
            g,
            ws.index.files[g].source,
            loc.range.start,
        ) == Some(r)),
    decreases list.len() - i,
{
    if i < list.len() {
        let p = ws.index.files[g];
        let here = Location { file: p.path, range: list[i] };
        let hit = sqy::target(ws, g, p.source, list[i].start) == Some(r);
        let next = if hit {
            out.push(here)
        } else {
            out
        };
        lemma_file_places(ws, r, g, list, i + 1, next, loc);
        lemma_push_contains(out, here, loc);
        lemma_skip_contains(list, i, loc.range);
    }
}

proof fn lemma_push_contains<A>(s: Seq<A>, a: A, b: A)
    ensures
        s.push(a).contains(b) <==> s.contains(b) || a == b,
{
    if s.contains(b) {
        let k = choose|k: int| 0 <= k < s.len() && s[k] == b;
        assert(s.push(a)[k] == b);
    }
    if a == b {
        assert(s.push(a)[s.len() as int] == b);
    }
    if s.push(a).contains(b) && a != b {
        let k = choose|k: int| 0 <= k < s.push(a).len() && s.push(a)[k] == b;
        assert(s[k] == b);
    }
}

proof fn lemma_skip_contains<A>(s: Seq<A>, i: int, a: A)
    requires
        0 <= i < s.len(),
    ensures
        s.skip(i).contains(a) <==> s[i] == a || s.skip(i + 1).contains(a),
{
    if s.skip(i).contains(a) {
        let k = choose|k: int| 0 <= k < s.skip(i).len() && s.skip(i)[k] == a;
        if k > 0 {
            assert(s.skip(i + 1)[k - 1] == a);
        }
    }
    if s[i] == a {
        assert(s.skip(i)[0] == a);
    }
    if s.skip(i + 1).contains(a) {
        let rest = s.skip(i + 1);
        let k = choose|k: int| 0 <= k < rest.len() && rest[k] == a;
        assert(s.skip(i)[k + 1] == a);
    }
}

proof fn lemma_references(ws: Workspace, r: Ref, g: int, out: Seq<Location>, loc: Location)
    requires
        0 <= g <= ws.index.files.len(),
    ensures
        sqy::references_from(ws, r, g, out).contains(loc) <==> out.contains(loc) || exists|h: int|
            g <= h < ws.index.files.len() && #[trigger] refers(ws, r, h, loc),
    decreases ws.index.files.len() - g,
{
    if g < ws.index.files.len() {
        let list = su::identifier_occurrences(ws.index.files[g].source, sg::symbol(ws, r).name);
        let next = sqy::places_from(ws, r, g, list, 0, out);
        lemma_file_places(ws, r, g, list, 0, out, loc);
        assert(list.skip(0) =~= list);
        lemma_references(ws, r, g + 1, next, loc);
        if refers(ws, r, g, loc) {
            assert(g <= g < ws.index.files.len() && refers(ws, r, g, loc));
        }
    }
}

/// The references of a symbol are the places of its name, in all files, that
/// stand for the symbol, and no others.
pub proof fn law_references(
    ws: Workspace,
    path: Text,
    pos: Position,
    source: Text,
    f: int,
    r: Ref,
    loc: Location,
)
    requires
        sw::find_file(ws, path) == Some(f),
        sqy::target(ws, f, source, pos) == Some(r),
    ensures
        sqy::references(ws, path, pos, source).contains(loc) <==> exists|g: int|
            0 <= g < ws.index.files.len() && #[trigger] refers(ws, r, g, loc),
{
    lemma_references(ws, r, 0, Seq::empty(), loc);
    assert(!Seq::<Location>::empty().contains(loc));
}

/// A name that stands for no symbol but for a macro of its file has its places in
/// that file as references.
pub proof fn law_macro_references(
    ws: Workspace,
    path: Text,
    pos: Position,
    source: Text,
    f: int,
    name: Text,
    loc: Location,
)
    requires
        sw::find_file(ws, path) == Some(f),
        sqy::target(ws, f, source, pos) is None,
        su::word_at_source(source, pos) == Some(name),
        sqy::macro_value(ws.index.files[f], name) is Some,
    ensures
        sqy::references(ws, path, pos, source).contains(loc) <==> loc.file
            == ws.index.files[f].path && su::identifier_occurrences(
            ws.index.files[f].source,
            name,
        ).contains(loc.range),
{
    let list = su::identifier_occurrences(ws.index.files[f].source, name);
    let places = sqy::references(ws, path, pos, source);
    if places.contains(loc) {
        let k = choose|k: int| 0 <= k < places.len() && places[k] == loc;
        assert(list[k] == loc.range);
    }
    if loc.file == ws.index.files[f].path && list.contains(loc.range) {
        let k = choose|k: int| 0 <= k < list.len() && list[k] == loc.range;
        assert(places[k] == loc);
    }
}

// ---------------------------------------------------------------------------
// New names
// ---------------------------------------------------------------------------

/// Whether a change puts a new name in the place of a reference.
pub open spec fn renames(ws: Workspace, r: Ref, e: TextEdit, new_name: Text) -> bool {
    &&& e.new_text == new_name
    &&& exists|g: int|
        0 <= g < ws.index.files.len() && e.file == (#[trigger] ws.index.files[g]).path
            && is_place_of(ws.index.files[g].source, sg::symbol(ws, r).name, e.range)
            && sqy::target(ws, g, ws.index.files[g].source, e.range.start) == Some(r)
}

/// Each change of a renaming covers the old name of the symbol in one of the
/// files, where it stands for that symbol, and writes the new name there; each
/// reference is changed.
pub proof fn law_rename_places(
    ws: Workspace,
    path: Text,
    pos: Position,
    source: Text,
    new_name: Text,
    f: int,
    r: Ref,
    e: TextEdit,
)
    requires
        sw::find_file(ws, path) == Some(f),
        sqy::target(ws, f, source, pos) == Some(r),
        forall|g: int|
            0 <= g < ws.index.files.len() ==> st::lines(
                (#[trigger] ws.index.files[g]).source,
            ).len() <= usize::MAX,
    ensures
        sqy::rename(ws, path, pos, source, new_name) matches Ok(edits) ==> (edits.contains(e)
            <==> renames(ws, r, e, new_name)),
{
    if let Ok(edits) = sqy::rename(ws, path, pos, source, new_name) {
        let places = sqy::references_from(ws, r, 0, Seq::empty());
        let loc = Location { file: e.file, range: e.range };
        assert(edits == sqy::edits(places, new_name));
        lemma_references(ws, r, 0, Seq::empty(), loc);
        assert(!Seq::<Location>::empty().contains(loc));
        if edits.contains(e) {
            let k = choose|k: int| 0 <= k < edits.len() && edits[k] == e;
            assert(places[k] == loc);
            assert(places.contains(loc));
            let g = choose|g: int|
                0 <= g < ws.index.files.len() && #[trigger] refers(ws, r, g, loc);
            law_occurrences(ws.index.files[g].source, sg::symbol(ws, r).name, e.range);
        }
        if renames(ws, r, e, new_name) {
            let g = choose|g: int|
                0 <= g < ws.index.files.len() && e.file == (#[trigger] ws.index.files[g]).path
                    && is_place_of(ws.index.files[g].source, sg::symbol(ws, r).name, e.range)
                    && sqy::target(ws, g, ws.index.files[g].source, e.range.start) == Some(r);
            law_occurrences(ws.index.files[g].source, sg::symbol(ws, r).name, e.range);
            assert(refers(ws, r, g, loc));
            let k = choose|k: int| 0 <= k < places.len() && places[k] == loc;
            assert(edits[k] == e);
        }
    }
}

pub proof fn lemma_symbol(symbols: Seq<sm::Symbol>, scope: sm::Scope, name: Text, i: int)
    requires
        0 <= i,
    ensures
        match sv::symbol_from(symbols, scope, name, i) {
            Some(k) => i <= k < symbols.len() && is_in(symbols[k], scope, name) && forall|j: int|
                i <= j < k ==> !is_in(#[trigger] symbols[j], scope, name),
            None => forall|j: int|
                i <= j < symbols.len() ==> !is_in(#[trigger] symbols[j], scope, name),
        },
    decreases symbols.len() - i,
{
    if i < symbols.len() && !is_in(symbols[i], scope, name) {
        lemma_symbol(symbols, scope, name, i + 1);
    }
}

/// Whether a symbol has a name in a scope, case aside.
pub open spec fn is_in(s: sm::Symbol, scope: sm::Scope, name: Text) -> bool {
    &&& st::lower(s.name) == st::lower(name)
    &&& s.scope.len() == scope.len()
    &&& forall|i: int|
        0 <= i < scope.len() ==> st::lower(#[trigger] s.scope[i]) == st::lower(scope[i])
}

/// A symbol can be renamed to a name that nothing else in its scope has, and to
/// its own name in another case. Otherwise the first symbol of the scope that has
/// the name is in the way.
pub proof fn law_rename_conflict(
    ws: Workspace,
    path: Text,
    pos: Position,
    source: Text,
    new_name: Text,
    f: int,
    r: Ref,
)
    requires
        sw::find_file(ws, path) == Some(f),
        sqy::target(ws, f, source, pos) == Some(r),
        st::is_fortran_name(new_name),
    ensures
        ({
            let symbols = ws.index.files[r.0].symbols;
            let scope = sg::symbol(ws, r).scope;
            match sqy::rename(ws, path, pos, source, new_name) {
                Ok(_) => forall|k: int|
                    0 <= k < symbols.len() && is_in(#[trigger] symbols[k], scope, new_name)
                        ==> k >= r.1,
                Err(e) => exists|k: int|
                    0 <= k < symbols.len() && k != r.1 && is_in(
                        #[trigger] symbols[k],
                        scope,
                        new_name,
                    ) && e == (RenameError::ConflictingSymbol {
                        file: symbols[k].file,
                        range: symbols[k].selection_range,
                    }),
            }
        }),
{
    lemma_symbol(ws.index.files[r.0].symbols, sg::symbol(ws, r).scope, new_name, 0);
}

} // verus!
