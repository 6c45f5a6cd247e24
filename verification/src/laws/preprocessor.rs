//! Macros and conditionals.

use vstd::prelude::*;

use crate::expression::Part;
use crate::spec::expression as se;
use crate::spec::expression::Definitions;
use crate::spec::model as sm;
use crate::spec::parser as pr;
use crate::spec::preproc as spp;
use crate::spec::source as ssr;
use crate::spec::table as sb;
use crate::spec::text as st;
use crate::spec::text::Text;

verus! {

/// Whether a directive opens a conditional.
pub open spec fn opens(d: sm::PreprocessorDirective) -> bool {
    d.kind is If || d.kind is Ifdef || d.kind is Ifndef
}

proof fn lemma_expand_nothing(line: Text, i: int, out: Text)
    requires
        0 <= i <= line.len(),
    ensures
        spp::expand_from(line, Seq::empty(), i, out) == out + line.skip(i),
    decreases line.len() - i,
{
    if i < line.len() {
        let rest = line.skip(i);
        if let Some((k, name)) = st::next_name(rest) {
            st::lemma_next_name(rest);
            let end = i + k + name.len();
            lemma_expand_nothing(line, end, out + rest.take(k) + name);
            assert(out + rest.take(k) + name + line.skip(end) =~= out + rest);
        }
    } else {
        assert(out + line.skip(i) =~= out);
    }
}

/// Where no macro is defined, lines stay as they are.
pub proof fn law_no_macros(line: Text)
    ensures
        spp::expand_macros(line, Seq::empty()) == line,
{
    lemma_expand_nothing(line, 0, Seq::empty());
    assert(Seq::<char>::empty() + line.skip(0) =~= line);
}

/// The end of a conditional undoes its beginning, for the lines that are
/// dropped.
pub proof fn law_fold_endif(
    s: spp::FoldState,
    opening: sm::PreprocessorDirective,
    end: sm::PreprocessorDirective,
)
    requires
        opens(opening),
        end.kind is Endif,
    ensures
        spp::fold_apply(spp::fold_apply(s, opening), end) == s,
{
    let inner = spp::fold_apply(s, opening);
    assert(inner.stack.drop_last() =~= s.stack);
}

/// Where lines count, those of exactly one branch of a conditional with an
/// `#else` do; elsewhere those of neither do.
pub proof fn law_fold_else(
    s: spp::FoldState,
    opening: sm::PreprocessorDirective,
    other: sm::PreprocessorDirective,
)
    requires
        opens(opening),
        other.kind is Else,
    ensures
        spp::fold_active(spp::fold_apply(s, opening)) == (spp::fold_active(s)
            && spp::condition_holds(opening, s.definitions)),
        spp::fold_active(spp::fold_apply(spp::fold_apply(s, opening), other)) == (spp::fold_active(
            s,
        ) && !spp::condition_holds(opening, s.definitions)),
{
    let first = spp::fold_apply(s, opening);
    let second = spp::fold_apply(first, other);
    lemma_active_push(s, first);
    assert(first.stack.drop_last() =~= s.stack);
    assert(second.stack.drop_last() =~= s.stack);
    lemma_active_push(s, second);
}

/// Lines count inside one more conditional where they count around it and in
/// its branch.
proof fn lemma_active_push(outer: spp::FoldState, inner: spp::FoldState)
    requires
        inner.stack.len() == outer.stack.len() + 1,
        inner.stack.drop_last() =~= outer.stack,
    ensures
        spp::fold_active(inner) == (spp::fold_active(outer) && inner.stack.last().branch_active),
{
    let n = outer.stack.len() as int;
    assert(outer.stack =~= inner.stack.take(n));
    if spp::fold_active(inner) {
        assert forall|i: int| 0 <= i < n implies (#[trigger] outer.stack[i]).branch_active by {
            assert(inner.stack[i].branch_active);
        }
        assert(inner.stack[n].branch_active);
    }
    if spp::fold_active(outer) && inner.stack.last().branch_active {
        assert forall|i: int| 0 <= i < inner.stack.len() implies (
        #[trigger] inner.stack[i]).branch_active by {
            if i < n {
                assert(outer.stack[i].branch_active);
            }
        }
    }
}

/// The end of a conditional closes the one that was opened last, for the
/// statements that are read.
pub proof fn law_endif(
    s: pr::State,
    opening: sm::PreprocessorDirective,
    end: sm::PreprocessorDirective,
)
    requires
        opens(opening),
        end.kind is Endif,
    ensures
        pr::apply_preprocessor(pr::apply_preprocessor(s, opening), end).preprocessor_stack
            == s.preprocessor_stack,
        pr::apply_preprocessor(pr::apply_preprocessor(s, opening), end).macros == s.macros,
        pr::apply_preprocessor(pr::apply_preprocessor(s, opening), end).parsed.diagnostics
            == s.parsed.diagnostics,
{
    let inner = pr::apply_preprocessor(s, opening);
    assert(inner.preprocessor_stack.drop_last() =~= s.preprocessor_stack);
}

/// A name that is defined has its value until it is given another one or
/// undefined; other names keep theirs.
pub proof fn law_define(
    s: pr::State,
    d: sm::PreprocessorDirective,
    name: Text,
    other: Text,
)
    requires
        d.kind is Define,
        d.name == Some(name),
        pr::preprocessor_active(s.preprocessor_stack),
    ensures
        sb::find(pr::apply_preprocessor(s, d).parsed.preprocessor_definitions, name) == Some(
            match d.argument {
                Some(value) => value,
                None => Seq::empty(),
            },
        ),
        sb::find(pr::apply_preprocessor(s, d).macros, name) == Some(
            spp::macro_definition(d.argument),
        ),
        other != name ==> sb::find(
            pr::apply_preprocessor(s, d).parsed.preprocessor_definitions,
            other,
        ) == sb::find(s.parsed.preprocessor_definitions, other),
        other != name ==> sb::find(pr::apply_preprocessor(s, d).macros, other) == sb::find(
            s.macros,
            other,
        ),
{
    let value = match d.argument {
        Some(value) => value,
        None => Seq::empty(),
    };
    sb::law_insert(s.parsed.preprocessor_definitions, name, value, other);
    sb::law_insert(s.macros, name, spp::macro_definition(d.argument), other);
}

/// A name that is undefined is gone.
pub proof fn law_undef(s: pr::State, d: sm::PreprocessorDirective, name: Text)
    requires
        d.kind is Undef,
        d.name == Some(name),
        pr::preprocessor_active(s.preprocessor_stack),
    ensures
        sb::find(pr::apply_preprocessor(s, d).parsed.preprocessor_definitions, name) is None,
        sb::find(pr::apply_preprocessor(s, d).macros, name) is None,
{
    sb::law_remove(s.parsed.preprocessor_definitions, name, name);
    sb::law_remove(s.macros, name, name);
}

/// In a branch that does not count, nothing is defined or undefined.
pub proof fn law_inactive(s: pr::State, d: sm::PreprocessorDirective)
    requires
        !pr::preprocessor_active(s.preprocessor_stack),
    ensures
        pr::apply_preprocessor(s, d).macros == s.macros,
        pr::apply_preprocessor(s, d).parsed.preprocessor_definitions
            == s.parsed.preprocessor_definitions,
{
}

/// A definition from outside without a value is one with the value 1.
pub proof fn law_bare_define(path: Text, source: Text, defines: Seq<(Text, Text)>)
    ensures
        pr::initial(path, source, defines) == pr::initial(
            path,
            source,
            Seq::new(
                defines.len(),
                |i: int| (defines[i].0, pr::predefined_value(defines[i].1)),
            ),
        ),
{
    reveal_strlit("1");
    let filled = Seq::new(
        defines.len(),
        |i: int| (defines[i].0, pr::predefined_value(defines[i].1)),
    );
    lemma_filled(defines, filled, 0, Seq::empty(), Seq::empty());
}

proof fn lemma_filled(
    defines: Seq<(Text, Text)>,
    filled: Seq<(Text, Text)>,
    i: int,
    definitions: Definitions,
    macros: spp::Macros,
)
    requires
        0 <= i <= defines.len(),
        "1"@.len() == 1,
        filled == Seq::new(
            defines.len(),
            |i: int| (defines[i].0, pr::predefined_value(defines[i].1)),
        ),
    ensures
        pr::predefined_from(defines, i, definitions) == pr::predefined_from(
            filled,
            i,
            definitions,
        ),
        pr::predefined_macros_from(defines, i, macros) == pr::predefined_macros_from(
            filled,
            i,
            macros,
        ),
    decreases defines.len() - i,
{
    if i < defines.len() {
        let value = pr::predefined_value(defines[i].1);
        assert(pr::predefined_value(value) == value);
        lemma_filled(
            defines,
            filled,
            i + 1,
            sb::insert(definitions, defines[i].0, value),
            sb::insert(macros, defines[i].0, spp::MacroDefinition::Object(value)),
        );
    }
}

proof fn lemma_filter_plain(lines: Seq<spp::Line>, i: int, s: spp::FoldState)
    requires
        0 <= i <= lines.len(),
        spp::fold_active(s),
        forall|k: int| 0 <= k < lines.len() ==> spp::fold_directive(#[trigger] lines[k]) is None,
    ensures
        spp::filter_from(lines, i, s, lines.take(i)) == lines,
    decreases lines.len() - i,
{
    if i < lines.len() {
        assert(spp::fold_directive(lines[i]) is None);
        assert(lines.take(i).push(lines[i]) =~= lines.take(i + 1));
        lemma_filter_plain(lines, i + 1, s);
    } else {
        assert(lines.take(i) =~= lines);
    }
}

/// Without directives no line is dropped.
pub proof fn law_no_directives(lines: Seq<spp::Line>, predefined: Definitions)
    requires
        forall|k: int| 0 <= k < lines.len() ==> spp::fold_directive(#[trigger] lines[k]) is None,
    ensures
        spp::filter_inactive(lines, predefined) == lines,
{
    let s = spp::FoldState { stack: Seq::empty(), definitions: predefined };
    assert(lines.take(0) =~= Seq::empty());
    lemma_filter_plain(lines, 0, s);
}

/// Whether a line is among others.
pub open spec fn is_line_of(lines: Seq<spp::Line>, line: spp::Line) -> bool {
    lines.contains(line)
}

proof fn lemma_filter_keeps(
    lines: Seq<spp::Line>,
    i: int,
    s: spp::FoldState,
    out: Seq<spp::Line>,
)
    requires
        0 <= i <= lines.len(),
    ensures
        forall|k: int|
            i <= k < lines.len() && spp::fold_directive(#[trigger] lines[k]) is Some
                ==> is_line_of(spp::filter_from(lines, i, s, out), lines[k]),
        forall|line: spp::Line|
            #[trigger] is_line_of(out, line) ==> is_line_of(
                spp::filter_from(lines, i, s, out),
                line,
            ),
        forall|line: spp::Line|
            #[trigger] is_line_of(spp::filter_from(lines, i, s, out), line) ==> is_line_of(
                out,
                line,
            ) || is_line_of(lines, line),
    decreases lines.len() - i,
{
    if i < lines.len() {
        let r = spp::filter_from(lines, i, s, out);
        let kept = out.push(lines[i]);
        assert(kept.last() == lines[i]);
        assert(is_line_of(kept, lines[i]));
        assert forall|line: spp::Line| #[trigger] is_line_of(out, line) implies is_line_of(
            kept,
            line,
        ) by {
            let k = choose|k: int| 0 <= k < out.len() && out[k] == line;
            assert(kept[k] == line);
        }
        assert forall|line: spp::Line| #[trigger] is_line_of(kept, line) implies is_line_of(
            out,
            line,
        ) || is_line_of(lines, line) by {
            let k = choose|k: int| 0 <= k < kept.len() && kept[k] == line;
            if k < out.len() {
                assert(out[k] == line);
            } else {
                assert(lines[i] == line);
            }
        }
        match spp::fold_directive(lines[i]) {
            Some(d) => {
                lemma_filter_keeps(lines, i + 1, spp::fold_apply(s, d), kept);
            },
            None => {
                lemma_filter_keeps(
                    lines,
                    i + 1,
                    s,
                    if spp::fold_active(s) {
                        kept
                    } else {
                        out
                    },
                );
            },
        }
    }
}

/// Dropping lines keeps all directives, and adds no line.
pub proof fn law_filter(lines: Seq<spp::Line>, predefined: Definitions)
    ensures
        forall|k: int|
            0 <= k < lines.len() && spp::fold_directive(#[trigger] lines[k]) is Some
                ==> is_line_of(spp::filter_inactive(lines, predefined), lines[k]),
        forall|line: spp::Line|
            #[trigger] is_line_of(spp::filter_inactive(lines, predefined), line) ==> is_line_of(
                lines,
                line,
            ),
{
    let s = spp::FoldState { stack: Seq::empty(), definitions: predefined };
    lemma_filter_keeps(lines, 0, s, Seq::empty());
    assert forall|line: spp::Line|
        #[trigger] is_line_of(spp::filter_inactive(lines, predefined), line) implies is_line_of(
        lines,
        line,
    ) by {
        assert(!is_line_of(Seq::empty(), line));
    }
}

proof fn lemma_fold_behind(s: spp::FoldState, a: Seq<spp::Line>, b: Seq<spp::Line>, j: int)
    requires
        0 <= j <= b.len(),
    ensures
        spp::fold_lines(s, a + b, a.len() + j) == spp::fold_lines(s, b, j),
    decreases b.len() - j,
{
    if j < b.len() {
        assert((a + b)[a.len() + j] == b[j]);
        let next = match spp::fold_directive(b[j]) {
            Some(d) => spp::fold_apply(s, d),
            None => s,
        };
        lemma_fold_behind(next, a, b, j + 1);
    }
}

proof fn lemma_fold_both(s: spp::FoldState, a: Seq<spp::Line>, b: Seq<spp::Line>, i: int)
    requires
        0 <= i <= a.len(),
    ensures
        spp::fold_lines(s, a + b, i) == spp::fold_lines(spp::fold_lines(s, a, i), b, 0),
    decreases a.len() - i,
{
    if i < a.len() {
        assert((a + b)[i] == a[i]);
        let next = match spp::fold_directive(a[i]) {
            Some(d) => spp::fold_apply(s, d),
            None => s,
        };
        lemma_fold_both(next, a, b, i + 1);
    } else {
        lemma_fold_behind(s, a, b, 0);
    }
}

proof fn lemma_expanded_state(
    files: Seq<ssr::SourceFile>,
    path: Text,
    lines: Seq<Text>,
    predefined: Definitions,
    i: int,
    out: Seq<spp::Line>,
)
    requires
        0 <= i <= lines.len(),
        spp::fold_lines(
            spp::FoldState { stack: Seq::empty(), definitions: predefined },
            out,
            0,
        ) == ssr::state_behind(files, path, lines, predefined, i as nat),
    ensures
        spp::fold_lines(
            spp::FoldState { stack: Seq::empty(), definitions: predefined },
            ssr::expand_from(files, path, lines, i, seq![ssr::canonical(files, path)], out),
            0,
        ) == ssr::state_behind(files, path, lines, predefined, lines.len()),
    decreases lines.len() - i,
{
    if i < lines.len() {
        let start = spp::FoldState { stack: Seq::empty(), definitions: predefined };
        let read = seq![(i as usize, lines[i])] + ssr::taken_in(files, path, lines[i]);
        lemma_fold_both(start, out, read, 0);
        assert(out.push((i as usize, lines[i])) + ssr::taken_in(files, path, lines[i]) =~= out
            + read);
        assert(out.push((i as usize, lines[i])) + Seq::<spp::Line>::empty() =~= out.push(
            (i as usize, lines[i]),
        ));
        lemma_expanded_state(files, path, lines, predefined, i + 1, out + read);
    }
}

/// The conditionals and definitions behind all lines of a file are those behind
/// its lines together with those of the files that they take in.
pub proof fn law_state_behind(
    files: Seq<ssr::SourceFile>,
    path: Text,
    source: Text,
    predefined: Definitions,
)
    ensures
        ssr::state_behind(files, path, st::lines(source), predefined, st::lines(source).len())
            == spp::fold_lines(
            spp::FoldState { stack: Seq::empty(), definitions: predefined },
            ssr::physical_lines(files, path, source),
            0,
        ),
{
    lemma_expanded_state(files, path, st::lines(source), predefined, 0, Seq::empty());
}

// ---------------------------------------------------------------------------
// Conditions
// ---------------------------------------------------------------------------

/// Whether the part `k` is the operator that is applied last: none binds less,
/// and of those that bind as much it is the last one.
pub open spec fn is_main(ps: Seq<Part>, k: int, n: int) -> bool {
    &&& k < n
    &&& se::splits_at(ps, k)
    &&& forall|j: int|
        j < n && j != k && #[trigger] se::splits_at(ps, j) ==> se::rank(ps[k]->Operator_0)
            < se::rank(ps[j]->Operator_0) || (j < k && se::rank(ps[k]->Operator_0) == se::rank(
            ps[j]->Operator_0,
        ))
}

proof fn lemma_main(ps: Seq<Part>, n: int)
    ensures
        match se::main_operator(ps, n) {
            Some(k) => is_main(ps, k, n),
            None => forall|j: int| j < n ==> !#[trigger] se::splits_at(ps, j),
        },
    decreases n,
{
    if n > 0 {
        lemma_main(ps, n - 1);
    }
}

/// What an operator outside of parentheses splits is worth what the operator
/// makes of its two sides: the one that binds least, and of several the last
/// one, so that operators that bind as much count from left to right.
pub proof fn law_operators(ps: Seq<Part>, k: int)
    requires
        is_main(ps, k, ps.len() as int),
    ensures
        se::value(ps) == se::apply(
            ps[k]->Operator_0,
            se::value(ps.take(k)),
            se::value(ps.skip(k + 1)),
        ),
{
    lemma_main(ps, ps.len() as int);
    se::lemma_main_operator(ps, ps.len() as int);
}

/// Whether each parenthesis that closes closes one that is open, and none
/// stays open.
pub open spec fn is_balanced(ps: Seq<Part>) -> bool {
    &&& forall|i: int| 0 <= i < ps.len() && #[trigger] ps[i] is Close ==> se::depth(ps, i) > 0
    &&& se::depth(ps, ps.len() as int) == 0
}

proof fn lemma_depth(inner: Seq<Part>, i: int)
    requires
        is_balanced(inner),
        0 <= i <= inner.len(),
    ensures
        se::depth(seq![Part::Open] + inner + seq![Part::Close], i + 1) == se::depth(inner, i) + 1,
    decreases i,
{
    let ps = seq![Part::Open] + inner + seq![Part::Close];
    assert(ps[0] is Open);
    if i > 0 {
        lemma_depth(inner, i - 1);
        assert(ps[i] == inner[i - 1]);
    } else {
        assert(se::depth(ps, 0) == 0);
    }
}

/// The last parenthesis closes the first one.
proof fn lemma_closed_at_end(inner: Seq<Part>, i: int)
    requires
        is_balanced(inner),
        1 <= i <= inner.len() + 1,
    ensures
        se::closing_from(seq![Part::Open] + inner + seq![Part::Close], i) == Some(
            inner.len() as int + 1,
        ),
    decreases inner.len() + 1 - i,
{
    let ps = seq![Part::Open] + inner + seq![Part::Close];
    lemma_depth(inner, i - 1);
    if i <= inner.len() {
        assert(ps[i] == inner[i - 1]);
        lemma_closed_at_end(inner, i + 1);
    } else {
        assert(ps[i] is Close);
    }
}

/// Parentheses around an expression leave its value as it is.
pub proof fn law_parentheses(inner: Seq<Part>)
    requires
        is_balanced(inner),
    ensures
        se::value(seq![Part::Open] + inner + seq![Part::Close]) == se::value(inner),
{
    let ps = seq![Part::Open] + inner + seq![Part::Close];
    assert forall|i: int| 0 < i < ps.len() implies #[trigger] se::depth(ps, i) > 0 by {
        lemma_depth(inner, i - 1);
    }
    lemma_main(ps, ps.len() as int);
    if let Some(k) = se::main_operator(ps, ps.len() as int) {
        assert(se::depth(ps, k) == 0);
    }
    assert(ps[0] is Open);
    lemma_closed_at_end(inner, 1);
    assert(ps.subrange(1, ps.len() - 1) =~= inner);
}

} // verus!
