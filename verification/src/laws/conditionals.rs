//! Conditionals, and the directives that make them.

use vstd::prelude::*;

use crate::laws::nesting::lemma_find_char;
use crate::laws::preprocessor::opens;
use crate::laws::text::{
    all_space, ends_name, is_name, is_name_character, law_first_name, law_trim_start, starts_solid,
};
use crate::parser::PreprocessorFrame;
use crate::spec::expression as se;
use crate::spec::expression::Definitions;
use crate::spec::model as sm;
use crate::spec::parser as pr;
use crate::spec::preproc as spp;
use crate::spec::table as sb;
use crate::spec::text as st;
use crate::spec::text::Text;

verus! {

// ---------------------------------------------------------------------------
// Branches
// ---------------------------------------------------------------------------

/// Whether an expression is there and holds.
pub open spec fn holds(e: Option<Text>, defs: Definitions) -> bool {
    e matches Some(expr) && se::eval_preprocessor_expr(expr, defs)
}

/// Whether a conditional starts with its first branch: `#if` with an expression
/// that holds, `#ifdef` with a name that is defined, `#ifndef` with one that is
/// not.
pub open spec fn starts_active(d: sm::PreprocessorDirective, defs: Definitions) -> bool {
    &&& d.kind is If ==> holds(d.argument, defs)
    &&& d.kind is Ifdef ==> (d.name matches Some(name) && sb::find(defs, name) is Some)
    &&& d.kind is Ifndef ==> (d.name matches Some(name) && sb::find(defs, name) is None)
}

/// Whether the directives are `#elif` with these expressions.
pub open spec fn are_elifs(ds: Seq<sm::PreprocessorDirective>, es: Seq<Option<Text>>) -> bool {
    &&& ds.len() == es.len()
    &&& forall|i: int|
        0 <= i < ds.len() ==> (#[trigger] ds[i]).kind is Elif && ds[i].argument == es[i]
}

/// Whether none of the expressions holds.
pub open spec fn none_holds(es: Seq<Option<Text>>, defs: Definitions) -> bool {
    forall|i: int| 0 <= i < es.len() ==> !holds(#[trigger] es[i], defs)
}

proof fn lemma_none_holds(es: Seq<Option<Text>>, defs: Definitions)
    requires
        es.len() > 0,
    ensures
        none_holds(es, defs) == (none_holds(es.drop_last(), defs) && !holds(es.last(), defs)),
{
    let fewer = es.drop_last();
    if none_holds(es, defs) {
        assert forall|i: int| 0 <= i < fewer.len() implies !holds(#[trigger] fewer[i], defs) by {
            assert(fewer[i] == es[i]);
        }
    }
    if none_holds(fewer, defs) && !holds(es.last(), defs) {
        assert forall|i: int| 0 <= i < es.len() implies !holds(#[trigger] es[i], defs) by {
            if i < fewer.len() {
                assert(fewer[i] == es[i]);
            }
        }
    }
}

/// The state behind directives, for the lines that are dropped.
pub open spec fn fold_all(
    s: spp::FoldState,
    ds: Seq<sm::PreprocessorDirective>,
) -> spp::FoldState
    decreases ds.len(),
{
    if ds.len() == 0 {
        s
    } else {
        spp::fold_apply(fold_all(s, ds.drop_last()), ds.last())
    }
}

/// The state behind directives, for the statements that are read.
pub open spec fn apply_all(s: pr::State, ds: Seq<sm::PreprocessorDirective>) -> pr::State
    decreases ds.len(),
{
    if ds.len() == 0 {
        s
    } else {
        pr::apply_preprocessor(apply_all(s, ds.drop_last()), ds.last())
    }
}

proof fn lemma_fold_pushed(outer: Seq<spp::FoldFrame>, inner: Seq<spp::FoldFrame>)
    requires
        inner.len() > 0,
        inner.drop_last() == outer,
    ensures
        (forall|i: int| 0 <= i < inner.len() ==> (#[trigger] inner[i]).branch_active) == ((forall|
            i: int,
        |
            0 <= i < outer.len() ==> (#[trigger] outer[i]).branch_active)
            && inner.last().branch_active),
{
    let n = outer.len() as int;
    if forall|i: int| 0 <= i < inner.len() ==> (#[trigger] inner[i]).branch_active {
        assert forall|i: int| 0 <= i < n implies (#[trigger] outer[i]).branch_active by {
            assert(inner[i].branch_active);
        }
        assert(inner[n].branch_active);
    }
    if (forall|i: int| 0 <= i < n ==> (#[trigger] outer[i]).branch_active)
        && inner.last().branch_active {
        assert forall|i: int| 0 <= i < inner.len() implies (#[trigger] inner[i]).branch_active by {
            if i < n {
                assert(outer[i].branch_active);
            }
        }
    }
}

proof fn lemma_fold_elifs(
    s: spp::FoldState,
    opening: sm::PreprocessorDirective,
    ds: Seq<sm::PreprocessorDirective>,
    es: Seq<Option<Text>>,
)
    requires
        opens(opening),
        are_elifs(ds, es),
    ensures
        ({
            let t = fold_all(spp::fold_apply(s, opening), ds);
            &&& t.definitions == s.definitions
            &&& t.stack.len() > 0
            &&& t.stack.drop_last() == s.stack
            &&& t.stack.last().parent_active == spp::fold_active(s)
            &&& !t.stack.last().saw_else
            &&& t.stack.last().any_taken
                == (spp::fold_active(s)
                    && (starts_active(opening, s.definitions) || !none_holds(es, s.definitions)))
            &&& es.len() == 0 ==> t.stack.last().branch_active == (spp::fold_active(s)
                && starts_active(opening, s.definitions))
            &&& es.len() > 0 ==> t.stack.last().branch_active == (spp::fold_active(s)
                && !starts_active(opening, s.definitions) && none_holds(
                es.drop_last(),
                s.definitions,
            ) && holds(es.last(), s.definitions))
        }),
    decreases ds.len(),
{
    let t = fold_all(spp::fold_apply(s, opening), ds);
    if ds.len() == 0 {
        assert(s.stack.push(t.stack.last()).drop_last() =~= s.stack);
    } else {
        let fewer = ds.drop_last();
        assert forall|i: int| 0 <= i < fewer.len() implies (#[trigger] fewer[i]).kind is Elif
            && fewer[i].argument == es.drop_last()[i] by {
            assert(fewer[i] == ds[i]);
        }
        lemma_fold_elifs(s, opening, fewer, es.drop_last());
        lemma_none_holds(es, s.definitions);
        let before = fold_all(spp::fold_apply(s, opening), fewer);
        assert(ds.last() == ds[ds.len() - 1]);
        assert(before.stack.drop_last().push(t.stack.last()).drop_last() =~= s.stack);
    }
}

/// Of the branches of a conditional at most one counts, for the lines that are dropped, and none
/// inside of something that does not count: the first branch where its condition
/// holds; one behind an `#elif` where its expression holds and nothing before it
/// did; the one behind `#else` where nothing before it did. The end brings back
/// what counted around it.
pub proof fn law_fold_branches(
    s: spp::FoldState,
    opening: sm::PreprocessorDirective,
    ds: Seq<sm::PreprocessorDirective>,
    es: Seq<Option<Text>>,
    other: sm::PreprocessorDirective,
    end: sm::PreprocessorDirective,
)
    requires
        opens(opening),
        are_elifs(ds, es),
        other.kind is Else,
        end.kind is Endif,
    ensures
        ({
            let defs = s.definitions;
            let t = fold_all(spp::fold_apply(s, opening), ds);
            let u = spp::fold_apply(t, other);
            &&& ds.len() == 0 ==> spp::fold_active(t) == (spp::fold_active(s)
                && starts_active(opening, defs))
            &&& ds.len() > 0 ==> spp::fold_active(t) == (spp::fold_active(s)
                && !starts_active(opening, defs) && none_holds(es.drop_last(), defs) && holds(
                es.last(),
                defs,
            ))
            &&& spp::fold_active(u) == (spp::fold_active(s) && !starts_active(opening, defs)
                && none_holds(es, defs))
            &&& spp::fold_active(spp::fold_apply(t, end)) == spp::fold_active(s)
            &&& spp::fold_active(spp::fold_apply(u, end)) == spp::fold_active(s)
        }),
{
    let t = fold_all(spp::fold_apply(s, opening), ds);
    let u = spp::fold_apply(t, other);
    lemma_fold_elifs(s, opening, ds, es);
    lemma_fold_pushed(s.stack, t.stack);
    assert(t.stack.drop_last().push(u.stack.last()).drop_last() =~= s.stack);
    lemma_fold_pushed(s.stack, u.stack);
}

proof fn lemma_read_pushed(outer: Seq<PreprocessorFrame>, inner: Seq<PreprocessorFrame>)
    requires
        inner.len() > 0,
        inner.drop_last() == outer,
    ensures
        (forall|i: int| 0 <= i < inner.len() ==> (#[trigger] inner[i]).branch_active) == ((forall|
            i: int,
        |
            0 <= i < outer.len() ==> (#[trigger] outer[i]).branch_active)
            && inner.last().branch_active),
{
    let n = outer.len() as int;
    if forall|i: int| 0 <= i < inner.len() ==> (#[trigger] inner[i]).branch_active {
        assert forall|i: int| 0 <= i < n implies (#[trigger] outer[i]).branch_active by {
            assert(inner[i].branch_active);
        }
        assert(inner[n].branch_active);
    }
    if (forall|i: int| 0 <= i < n ==> (#[trigger] outer[i]).branch_active)
        && inner.last().branch_active {
        assert forall|i: int| 0 <= i < inner.len() implies (#[trigger] inner[i]).branch_active by {
            if i < n {
                assert(outer[i].branch_active);
            }
        }
    }
}

proof fn lemma_read_elifs(
    s: pr::State,
    opening: sm::PreprocessorDirective,
    ds: Seq<sm::PreprocessorDirective>,
    es: Seq<Option<Text>>,
)
    requires
        opens(opening),
        are_elifs(ds, es),
    ensures
        ({
            let t = apply_all(pr::apply_preprocessor(s, opening), ds);
            &&& t.parsed.preprocessor_definitions == s.parsed.preprocessor_definitions
            &&& t.preprocessor_stack.len() > 0
            &&& t.preprocessor_stack.drop_last() == s.preprocessor_stack
            &&& t.preprocessor_stack.last().parent_active
                == pr::preprocessor_active(s.preprocessor_stack)
            &&& !t.preprocessor_stack.last().saw_else
            &&& t.preprocessor_stack.last().any_taken
                == (starts_active(opening, s.parsed.preprocessor_definitions)
                    || !none_holds(es, s.parsed.preprocessor_definitions))
            &&& es.len() == 0 ==> t.preprocessor_stack.last().branch_active
                == (pr::preprocessor_active(s.preprocessor_stack)
                && starts_active(opening, s.parsed.preprocessor_definitions))
            &&& es.len() > 0 ==> t.preprocessor_stack.last().branch_active
                == (pr::preprocessor_active(s.preprocessor_stack)
                && !starts_active(opening, s.parsed.preprocessor_definitions) && none_holds(
                es.drop_last(),
                s.parsed.preprocessor_definitions,
            ) && holds(es.last(), s.parsed.preprocessor_definitions))
        }),
    decreases ds.len(),
{
    let t = apply_all(pr::apply_preprocessor(s, opening), ds);
    if ds.len() == 0 {
        assert(s.preprocessor_stack.push(t.preprocessor_stack.last()).drop_last()
            =~= s.preprocessor_stack);
    } else {
        let fewer = ds.drop_last();
        assert forall|i: int| 0 <= i < fewer.len() implies (#[trigger] fewer[i]).kind is Elif
            && fewer[i].argument == es.drop_last()[i] by {
            assert(fewer[i] == ds[i]);
        }
        lemma_read_elifs(s, opening, fewer, es.drop_last());
        lemma_none_holds(es, s.parsed.preprocessor_definitions);
        let before = apply_all(pr::apply_preprocessor(s, opening), fewer);
        assert(ds.last() == ds[ds.len() - 1]);
        assert(before.preprocessor_stack.drop_last().push(t.preprocessor_stack.last()).drop_last()
            =~= s.preprocessor_stack);
    }
}

/// Of the branches of a conditional at most one counts, for the statements that are read, and none
/// inside of something that does not count: the first branch where its condition
/// holds; one behind an `#elif` where its expression holds and nothing before it
/// did; the one behind `#else` where nothing before it did. The end brings back
/// what counted around it.
pub proof fn law_read_branches(
    s: pr::State,
    opening: sm::PreprocessorDirective,
    ds: Seq<sm::PreprocessorDirective>,
    es: Seq<Option<Text>>,
    other: sm::PreprocessorDirective,
    end: sm::PreprocessorDirective,
)
    requires
        opens(opening),
        are_elifs(ds, es),
        other.kind is Else,
        end.kind is Endif,
    ensures
        ({
            let defs = s.parsed.preprocessor_definitions;
            let t = apply_all(pr::apply_preprocessor(s, opening), ds);
            let u = pr::apply_preprocessor(t, other);
            &&& ds.len() == 0 ==> pr::preprocessor_active(t.preprocessor_stack)
                == (pr::preprocessor_active(s.preprocessor_stack)
                && starts_active(opening, defs))
            &&& ds.len() > 0 ==> pr::preprocessor_active(t.preprocessor_stack)
                == (pr::preprocessor_active(s.preprocessor_stack)
                && !starts_active(opening, defs) && none_holds(es.drop_last(), defs) && holds(
                es.last(),
                defs,
            ))
            &&& pr::preprocessor_active(u.preprocessor_stack)
                == (pr::preprocessor_active(s.preprocessor_stack) && !starts_active(opening, defs)
                && none_holds(es, defs))
            &&& pr::preprocessor_active(pr::apply_preprocessor(t, end).preprocessor_stack)
                == pr::preprocessor_active(s.preprocessor_stack)
            &&& pr::preprocessor_active(pr::apply_preprocessor(u, end).preprocessor_stack)
                == pr::preprocessor_active(s.preprocessor_stack)
        }),
{
    let t = apply_all(pr::apply_preprocessor(s, opening), ds);
    let u = pr::apply_preprocessor(t, other);
    lemma_read_elifs(s, opening, ds, es);
    lemma_read_pushed(s.preprocessor_stack, t.preprocessor_stack);
    assert(t.preprocessor_stack.drop_last().push(u.preprocessor_stack.last()).drop_last()
            =~= s.preprocessor_stack);
    lemma_read_pushed(s.preprocessor_stack, u.preprocessor_stack);
}

// ---------------------------------------------------------------------------
// Directives
// ---------------------------------------------------------------------------

/// The line of a directive: a `#`, a word, and what follows it.
pub open spec fn directive_line(before: Text, gap: Text, word: Text, tail: Text) -> Text {
    before + seq!['#'] + gap + word + tail
}

proof fn lemma_name_bytes(name: Text, tail: Text, i: int)
    requires
        is_name(name),
        0 <= i <= name.len(),
    ensures
        st::byte_len((name + tail).take(i)) == i,
    decreases i,
{
    let s = name + tail;
    if i > 0 {
        lemma_name_bytes(name, tail, i - 1);
        assert(s.take(i).drop_last() =~= s.take(i - 1));
        assert(s.take(i).last() == name[i - 1]);
        assert(is_name_character(name[i - 1]));
        assert(st::byte_width(name[i - 1]) == 1);
    } else {
        assert(s.take(0).len() == 0);
    }
}

proof fn lemma_byte_index(name: Text, tail: Text, i: int)
    requires
        is_name(name),
        0 <= i <= name.len(),
    ensures
        st::index_of_byte(name + tail, name.len(), i) == name.len(),
    decreases name.len() - i,
{
    lemma_name_bytes(name, tail, i);
    if i < name.len() {
        lemma_byte_index(name, tail, i + 1);
    }
}

/// A name is cut off by its bytes.
pub proof fn lemma_cut_name(name: Text, tail: Text)
    requires
        is_name(name),
        name.len() <= usize::MAX,
    ensures
        st::bytes(name) == name.len(),
        st::skip_bytes(name + tail, st::bytes(name) as nat) == tail,
        st::get_bytes(name + tail, st::bytes(name) as nat) == Some(tail),
{
    lemma_name_bytes(name, Seq::empty(), name.len() as int);
    assert((name + Seq::empty()).take(name.len() as int) =~= name);
    lemma_byte_index(name, tail, 0);
    lemma_name_bytes(name, tail, name.len() as int);
    assert((name + tail).skip(name.len() as int) =~= tail);
}

proof fn lemma_directive(
    before: Text,
    gap: Text,
    word: Text,
    tail: Text,
    line: usize,
    file: Text,
    scope: sm::Scope,
)
    requires
        all_space(before),
        all_space(gap),
        is_name(word),
        word.len() <= usize::MAX,
        ends_name(tail),
    ensures
        ({
            let code = directive_line(before, gap, word, tail);
            spp::parse_preprocessor(code, line, file, scope) == match spp::directive_parts(
                st::lower(word),
                st::trim_start(tail),
            ) {
                Some((kind, name, argument)) => Some(
                    sm::PreprocessorDirective {
                        kind,
                        name,
                        argument,
                        file,
                        range: sm::on_line(line, 0, st::bytes(code)),
                        scope,
                    },
                ),
                None => None,
            }
        }),
{
    let code = directive_line(before, gap, word, tail);
    let rest = gap + word + tail;
    assert(code =~= before + (seq!['#'] + rest));
    assert((seq!['#'] + rest)[0] == '#');
    law_trim_start(before, seq!['#'] + rest);
    assert((seq!['#'] + rest).skip(1) =~= rest);
    assert(word[0] == (word + tail)[0]);
    assert(is_name_character(word[0]));
    law_trim_start(gap, word + tail);
    assert(gap + (word + tail) =~= rest);
    law_first_name(Seq::empty(), word, tail);
    assert(Seq::<char>::empty() + word + tail =~= word + tail);
    lemma_cut_name(word, tail);
}

proof fn lemma_word(word: Text, keyword: Text)
    requires
        st::lower(word) == keyword,
        keyword.len() > 0,
        forall|i: int| 0 <= i < keyword.len() ==> 'a' <= #[trigger] keyword[i] <= 'z',
    ensures
        is_name(word),
        word.len() == keyword.len(),
{
    assert(st::lower(word).len() == word.len());
    assert forall|i: int| 0 <= i < word.len() implies is_name_character(#[trigger] word[i])
        && !('0' <= word[i] <= '9') by {
        assert(keyword[i] == st::lower_char(word[i]));
    }
}

proof fn lemma_keywords()
    ensures
        "if"@ != "ifdef"@,
        "if"@ != "ifndef"@,
        "if"@ != "elif"@,
        "if"@ != "else"@,
        "if"@ != "endif"@,
        "if"@ != "define"@,
        "if"@ != "undef"@,
        "if"@ != "include"@,
        "ifdef"@ != "ifndef"@,
        "ifdef"@ != "elif"@,
        "ifdef"@ != "else"@,
        "ifdef"@ != "endif"@,
        "ifdef"@ != "define"@,
        "ifdef"@ != "undef"@,
        "ifdef"@ != "include"@,
        "ifndef"@ != "elif"@,
        "ifndef"@ != "else"@,
        "ifndef"@ != "endif"@,
        "ifndef"@ != "define"@,
        "ifndef"@ != "undef"@,
        "ifndef"@ != "include"@,
        "elif"@ != "else"@,
        "elif"@ != "endif"@,
        "elif"@ != "define"@,
        "elif"@ != "undef"@,
        "elif"@ != "include"@,
        "else"@ != "endif"@,
        "else"@ != "define"@,
        "else"@ != "undef"@,
        "else"@ != "include"@,
        "endif"@ != "define"@,
        "endif"@ != "undef"@,
        "endif"@ != "include"@,
        "define"@ != "undef"@,
        "define"@ != "include"@,
        "undef"@ != "include"@,
        0 < "if"@.len() <= 7,
        forall|i: int| 0 <= i < "if"@.len() ==> 'a' <= #[trigger] "if"@[i] <= 'z',
        0 < "ifdef"@.len() <= 7,
        forall|i: int| 0 <= i < "ifdef"@.len() ==> 'a' <= #[trigger] "ifdef"@[i] <= 'z',
        0 < "ifndef"@.len() <= 7,
        forall|i: int| 0 <= i < "ifndef"@.len() ==> 'a' <= #[trigger] "ifndef"@[i] <= 'z',
        0 < "elif"@.len() <= 7,
        forall|i: int| 0 <= i < "elif"@.len() ==> 'a' <= #[trigger] "elif"@[i] <= 'z',
        0 < "else"@.len() <= 7,
        forall|i: int| 0 <= i < "else"@.len() ==> 'a' <= #[trigger] "else"@[i] <= 'z',
        0 < "endif"@.len() <= 7,
        forall|i: int| 0 <= i < "endif"@.len() ==> 'a' <= #[trigger] "endif"@[i] <= 'z',
        0 < "define"@.len() <= 7,
        forall|i: int| 0 <= i < "define"@.len() ==> 'a' <= #[trigger] "define"@[i] <= 'z',
        0 < "undef"@.len() <= 7,
        forall|i: int| 0 <= i < "undef"@.len() ==> 'a' <= #[trigger] "undef"@[i] <= 'z',
        0 < "include"@.len() <= 7,
        forall|i: int| 0 <= i < "include"@.len() ==> 'a' <= #[trigger] "include"@[i] <= 'z',
{
    reveal_strlit("if");
    reveal_strlit("ifdef");
    reveal_strlit("ifndef");
    reveal_strlit("elif");
    reveal_strlit("else");
    reveal_strlit("endif");
    reveal_strlit("define");
    reveal_strlit("undef");
    reveal_strlit("include");
    assert("if"@.len() != "ifdef"@.len());
    assert("if"@.len() != "ifndef"@.len());
    assert("if"@.len() != "elif"@.len());
    assert("if"@.len() != "else"@.len());
    assert("if"@.len() != "endif"@.len());
    assert("if"@.len() != "define"@.len());
    assert("if"@.len() != "undef"@.len());
    assert("if"@.len() != "include"@.len());
    assert("ifdef"@.len() != "ifndef"@.len());
    assert("ifdef"@.len() != "elif"@.len());
    assert("ifdef"@.len() != "else"@.len());
    assert("ifdef"@[0] != "endif"@[0]);
    assert("ifdef"@.len() != "define"@.len());
    assert("ifdef"@[0] != "undef"@[0]);
    assert("ifdef"@.len() != "include"@.len());
    assert("ifndef"@.len() != "elif"@.len());
    assert("ifndef"@.len() != "else"@.len());
    assert("ifndef"@.len() != "endif"@.len());
    assert("ifndef"@[0] != "define"@[0]);
    assert("ifndef"@.len() != "undef"@.len());
    assert("ifndef"@.len() != "include"@.len());
    assert("elif"@[2] != "else"@[2]);
    assert("elif"@.len() != "endif"@.len());
    assert("elif"@.len() != "define"@.len());
    assert("elif"@.len() != "undef"@.len());
    assert("elif"@.len() != "include"@.len());
    assert("else"@.len() != "endif"@.len());
    assert("else"@.len() != "define"@.len());
    assert("else"@.len() != "undef"@.len());
    assert("else"@.len() != "include"@.len());
    assert("endif"@.len() != "define"@.len());
    assert("endif"@[0] != "undef"@[0]);
    assert("endif"@.len() != "include"@.len());
    assert("define"@.len() != "undef"@.len());
    assert("define"@.len() != "include"@.len());
    assert("undef"@.len() != "include"@.len());
}

/// `#if` and `#elif` take all that follows as their expression.
pub proof fn law_if_line(
    before: Text,
    gap: Text,
    word: Text,
    space: Text,
    expr: Text,
    line: usize,
    file: Text,
    scope: sm::Scope,
)
    requires
        all_space(before),
        all_space(gap),
        st::lower(word) == "if"@ || st::lower(word) == "elif"@,
        all_space(space),
        space.len() > 0,
        starts_solid(expr),
    ensures
        ({
            let d = spp::parse_preprocessor(
                directive_line(before, gap, word, space + expr),
                line,
                file,
                scope,
            );
            &&& st::lower(word) == "if"@ ==> (d matches Some(x) && x.kind is If)
            &&& st::lower(word) == "elif"@ ==> (d matches Some(x) && x.kind is Elif)
            &&& d matches Some(x) && x.argument == Some(expr) && x.name is None
        }),
{
    lemma_keywords();
    if st::lower(word) == "if"@ {
        lemma_word(word, "if"@);
    }
    if st::lower(word) == "elif"@ {
        lemma_word(word, "elif"@);
    }
    assert((space + expr)[0] == space[0]);
    lemma_directive(before, gap, word, space + expr, line, file, scope);
    law_trim_start(space, expr);
}

/// `#ifdef`, `#ifndef` and `#undef` are about the name that follows.
pub proof fn law_ifdef_line(
    before: Text,
    gap: Text,
    word: Text,
    space: Text,
    name: Text,
    behind: Text,
    line: usize,
    file: Text,
    scope: sm::Scope,
)
    requires
        all_space(before),
        all_space(gap),
        st::lower(word) == "ifdef"@ || st::lower(word) == "ifndef"@ || st::lower(word) == "undef"@,
        all_space(space),
        space.len() > 0,
        is_name(name),
        ends_name(behind),
    ensures
        ({
            let d = spp::parse_preprocessor(
                directive_line(before, gap, word, space + name + behind),
                line,
                file,
                scope,
            );
            &&& st::lower(word) == "ifdef"@ ==> (d matches Some(x) && x.kind is Ifdef)
            &&& st::lower(word) == "ifndef"@ ==> (d matches Some(x) && x.kind is Ifndef)
            &&& st::lower(word) == "undef"@ ==> (d matches Some(x) && x.kind is Undef)
            &&& d matches Some(x) && x.name == Some(name) && x.argument is None
        }),
{
    lemma_keywords();
    if st::lower(word) == "ifdef"@ {
        lemma_word(word, "ifdef"@);
    }
    if st::lower(word) == "ifndef"@ {
        lemma_word(word, "ifndef"@);
    }
    if st::lower(word) == "undef"@ {
        lemma_word(word, "undef"@);
    }
    assert((space + name + behind)[0] == space[0]);
    lemma_directive(before, gap, word, space + name + behind, line, file, scope);
    assert(space + name + behind =~= space + (name + behind));
    assert((name + behind)[0] == name[0]);
    assert(is_name_character(name[0]));
    law_trim_start(space, name + behind);
    law_first_name(Seq::empty(), name, behind);
    assert(Seq::<char>::empty() + name + behind =~= name + behind);
}

/// `#else` and `#endif` take nothing.
pub proof fn law_else_line(
    before: Text,
    gap: Text,
    word: Text,
    behind: Text,
    line: usize,
    file: Text,
    scope: sm::Scope,
)
    requires
        all_space(before),
        all_space(gap),
        st::lower(word) == "else"@ || st::lower(word) == "endif"@,
        ends_name(behind),
    ensures
        ({
            let d = spp::parse_preprocessor(
                directive_line(before, gap, word, behind),
                line,
                file,
                scope,
            );
            &&& st::lower(word) == "else"@ ==> (d matches Some(x) && x.kind is Else)
            &&& st::lower(word) == "endif"@ ==> (d matches Some(x) && x.kind is Endif)
            &&& d matches Some(x) && x.name is None && x.argument is None
        }),
{
    lemma_keywords();
    if st::lower(word) == "else"@ {
        lemma_word(word, "else"@);
    }
    if st::lower(word) == "endif"@ {
        lemma_word(word, "endif"@);
    }
    lemma_directive(before, gap, word, behind, line, file, scope);
}

/// `#define` is about the name that follows, and gives it what follows that.
pub proof fn law_define_line(
    before: Text,
    gap: Text,
    word: Text,
    space: Text,
    name: Text,
    value: Text,
    line: usize,
    file: Text,
    scope: sm::Scope,
)
    requires
        all_space(before),
        all_space(gap),
        st::lower(word) == "define"@,
        all_space(space),
        space.len() > 0,
        is_name(name),
        name.len() <= usize::MAX,
        ends_name(value),
    ensures
        ({
            let d = spp::parse_preprocessor(
                directive_line(before, gap, word, space + name + value),
                line,
                file,
                scope,
            );
            &&& st::lower(word) == "define"@ ==> (d matches Some(x) && x.kind is Define)
            &&& d matches Some(x) && x.name == Some(name) && x.argument == if st::trim(value).len()
                == 0 {
                None
            } else {
                Some(st::trim(value))
            }
        }),
{
    lemma_keywords();
    if st::lower(word) == "define"@ {
        lemma_word(word, "define"@);
    }
    assert((space + name + value)[0] == space[0]);
    lemma_directive(before, gap, word, space + name + value, line, file, scope);
    assert(space + name + value =~= space + (name + value));
    assert((name + value)[0] == name[0]);
    assert(is_name_character(name[0]));
    law_trim_start(space, name + value);
    law_first_name(Seq::empty(), name, value);
    assert(Seq::<char>::empty() + name + value =~= name + value);
    lemma_cut_name(name, value);
}

/// `#include` takes the path between quotes or angle brackets.
#[verifier::rlimit(40)]
pub proof fn law_include_line(
    before: Text,
    gap: Text,
    word: Text,
    space: Text,
    open: char,
    path: Text,
    close: char,
    behind: Text,
    line: usize,
    file: Text,
    scope: sm::Scope,
)
    requires
        all_space(before),
        all_space(gap),
        st::lower(word) == "include"@,
        all_space(space),
        (open == '"' && close == '"') || (open == '\'' && close == '\'') || (open == '<' && close
            == '>'),
        !path.contains(close),
    ensures
        ({
            let d = spp::parse_preprocessor(
                directive_line(before, gap, word, space + seq![open] + path + seq![close] + behind),
                line,
                file,
                scope,
            );
            &&& st::lower(word) == "include"@ ==> (d matches Some(x) && x.kind is Include)
            &&& d matches Some(x) && x.argument == Some(path) && x.name is None
        }),
{
    lemma_keywords();
    if st::lower(word) == "include"@ {
        lemma_word(word, "include"@);
    }
    let quoted = seq![open] + path + seq![close] + behind;
    assert(space + seq![open] + path + seq![close] + behind =~= space + quoted);
    assert((space + quoted)[0] == if space.len() > 0 {
        space[0]
    } else {
        open
    });
    lemma_directive(before, gap, word, space + quoted, line, file, scope);
    assert(quoted[0] == open);
    law_trim_start(space, quoted);
    law_trim_start(Seq::empty(), quoted);
    assert(Seq::<char>::empty() + quoted =~= quoted);
    let rest = quoted.skip(1);
    assert(rest =~= path + seq![close] + behind);
    lemma_find_char(path, close, behind, 0);
    assert(rest.take(path.len() as int) =~= path);
}

/// A word that names no directive makes none.
pub proof fn law_no_directive(
    before: Text,
    gap: Text,
    word: Text,
    tail: Text,
    line: usize,
    file: Text,
    scope: sm::Scope,
)
    requires
        all_space(before),
        all_space(gap),
        is_name(word),
        word.len() <= usize::MAX,
        ends_name(tail),
        st::lower(word) != "if"@,
        st::lower(word) != "ifdef"@,
        st::lower(word) != "ifndef"@,
        st::lower(word) != "elif"@,
        st::lower(word) != "else"@,
        st::lower(word) != "endif"@,
        st::lower(word) != "define"@,
        st::lower(word) != "undef"@,
        st::lower(word) != "include"@,
    ensures
        spp::parse_preprocessor(
            directive_line(before, gap, word, tail),
            line,
            file,
            scope,
        ) is None,
{
    lemma_directive(before, gap, word, tail, line, file, scope);
}

} // verus!
