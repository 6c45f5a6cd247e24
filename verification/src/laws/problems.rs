//! What is wrong with calls and with names that are defined twice, and the classes
//! of names.

use vstd::prelude::*;

use crate::laws::nesting::{is_open_free, is_well, law_equals, lemma_find_char, show, Nest};
use crate::laws::places::{is_in, lemma_symbol};
use crate::laws::remarks::{lemma_shows, shows};
use crate::laws::text::{all_space, is_trimmed, law_trim};
use crate::semantic_token_type;
use crate::spec::bindings as sg;
use crate::spec::calls as sca;
use crate::spec::json as sj;
use crate::spec::json::Json;
use crate::spec::lsp as sl;
use crate::spec::masking as sk;
use crate::spec::model as sm;
use crate::spec::model::Symbol;
use crate::spec::query as sqy;
use crate::spec::query::Callee;
use crate::spec::text as st;
use crate::spec::text::Text;
use crate::spec::tokens as sto;

verus! {

// ---------------------------------------------------------------------------
// Definitions
// ---------------------------------------------------------------------------

/// Whether two symbols stand in one scope under one name, the case of the name
/// aside.
pub open spec fn clashes(a: Symbol, b: Symbol) -> bool {
    a.scope == b.scope && st::lower(a.name) == st::lower(b.name)
}

proof fn lemma_first_definition(symbols: Seq<Symbol>, i: int, j: int)
    requires
        0 <= j <= i,
    ensures
        match sk::first_definition(symbols, i, j) {
            Some(k) => j <= k < i && !sk::may_repeat(symbols[k]) && clashes(
                symbols[k],
                symbols[i],
            ) && forall|m: int|
                j <= m < k ==> sk::may_repeat(#[trigger] symbols[m]) || !clashes(
                    symbols[m],
                    symbols[i],
                ),
            None => forall|m: int|
                j <= m < i ==> sk::may_repeat(#[trigger] symbols[m]) || !clashes(
                    symbols[m],
                    symbols[i],
                ),
        },
    decreases i - j,
{
    if j < i && !(!sk::may_repeat(symbols[j]) && clashes(symbols[j], symbols[i])) {
        lemma_first_definition(symbols, i, j + 1);
    }
}

/// Whether a remark says that the symbol `i` was defined before by the symbol `j`:
/// it covers the symbol, and gives its name and the line of the first definition,
/// counted from one.
pub open spec fn says_defined(symbols: Seq<Symbol>, i: int, j: int, d: sm::Diagnostic) -> bool {
    &&& d.range == symbols[i].range
    &&& d.severity is Error
    &&& shows(d.message, symbols[i].name)
    &&& shows(
        d.message,
        st::decimal(st::size((symbols[j].range.start.line + 1) as nat) as nat),
    )
}

/// Whether the symbol `i` repeats an earlier one that may not be repeated, of which
/// `j` is the first.
pub open spec fn repeats(symbols: Seq<Symbol>, i: int, j: int) -> bool {
    &&& 0 <= j < i < symbols.len()
    &&& !sk::may_repeat(symbols[i])
    &&& !sk::may_repeat(symbols[j])
    &&& clashes(symbols[j], symbols[i])
    &&& forall|m: int|
        0 <= m < j ==> sk::may_repeat(#[trigger] symbols[m]) || !clashes(symbols[m], symbols[i])
}

proof fn lemma_duplicates(
    symbols: Seq<Symbol>,
    i: int,
    out: Seq<sm::Diagnostic>,
    d: sm::Diagnostic,
)
    requires
        0 <= i <= symbols.len(),
    ensures
        sk::duplicates_from(symbols, i, out).contains(d) <==> out.contains(d) || exists|
            k: int,
            j: int,
        |
            i <= k && #[trigger] repeats(symbols, k, j) && d == sk::duplicate_diagnostic(
                symbols[k],
                symbols[j],
            ),
    decreases symbols.len() - i,
{
    if i < symbols.len() {
        lemma_first_definition(symbols, i, 0);
        let found = if sk::may_repeat(symbols[i]) {
            None
        } else {
            sk::first_definition(symbols, i, 0)
        };
        let next = match found {
            Some(j) => out.push(sk::duplicate_diagnostic(symbols[i], symbols[j])),
            None => out,
        };
        lemma_duplicates(symbols, i + 1, next, d);
        if out.contains(d) {
            let m = choose|m: int| 0 <= m < out.len() && out[m] == d;
            assert(next[m] == d);
        }
        if next.contains(d) && !out.contains(d) {
            let m = choose|m: int| 0 <= m < next.len() && next[m] == d;
            if m < out.len() {
                assert(out[m] == d);
            }
            assert(repeats(symbols, i, found->0));
        }
        if exists|k: int, j: int|
            i <= k && #[trigger] repeats(symbols, k, j) && d == sk::duplicate_diagnostic(
                symbols[k],
                symbols[j],
            ) {
            let (k, j) = choose|k: int, j: int|
                i <= k && #[trigger] repeats(symbols, k, j) && d == sk::duplicate_diagnostic(
                    symbols[k],
                    symbols[j],
                );
            if k == i {
                let f = found->0;
                if f < j {
                    assert(sk::may_repeat(symbols[f]) || !clashes(symbols[f], symbols[i]));
                } else if j < f {
                    assert(sk::may_repeat(symbols[j]) || !clashes(symbols[j], symbols[i]));
                }
                assert(f == j);
                assert(next[out.len() as int] == d);
            } else {
                assert(i + 1 <= k && repeats(symbols, k, j));
            }
        }
    }
}

/// A remark on a name that is defined twice comes for each symbol that repeats an
/// earlier one of its scope, case aside, and for no other.
pub proof fn law_duplicates(symbols: Seq<Symbol>, d: sm::Diagnostic)
    ensures
        sk::duplicate_diagnostics(symbols).contains(d) <==> exists|k: int, j: int|
            #[trigger] repeats(symbols, k, j) && d == sk::duplicate_diagnostic(
                symbols[k],
                symbols[j],
            ),
{
    lemma_duplicates(symbols, 0, Seq::empty(), d);
    assert(!Seq::<sm::Diagnostic>::empty().contains(d));
    if exists|k: int, j: int|
        #[trigger] repeats(symbols, k, j) && d == sk::duplicate_diagnostic(symbols[k], symbols[j]) {
        let (k, j) = choose|k: int, j: int|
            #[trigger] repeats(symbols, k, j) && d == sk::duplicate_diagnostic(
                symbols[k],
                symbols[j],
            );
        assert(0 <= k && repeats(symbols, k, j));
    }
}

/// What such a remark says.
pub proof fn law_duplicate_message(symbols: Seq<Symbol>, i: int, j: int)
    ensures
        says_defined(symbols, i, j, sk::duplicate_diagnostic(symbols[i], symbols[j])),
{
    let n = st::decimal(st::size((symbols[j].range.start.line + 1) as nat) as nat);
    let middle = "` is already defined in this scope at line "@;
    let m = sk::duplicate_diagnostic(symbols[i], symbols[j]).message;
    assert(m =~= "symbol `"@ + symbols[i].name + (middle + n));
    lemma_shows("symbol `"@, symbols[i].name, middle + n);
    assert(m =~= ("symbol `"@ + symbols[i].name + middle) + n + Seq::<char>::empty());
    lemma_shows("symbol `"@ + symbols[i].name + middle, n, Seq::empty());
}

/// Interfaces, and links to procedures of a module, may stand beside others of
/// their name; variables, types and modules may not.
pub proof fn law_may_repeat(s: Symbol)
    ensures
        s.kind is Interface ==> sk::may_repeat(s),
        s.kind is Variable || s.kind is Type || s.kind is Module || s.kind is Program
            || s.kind is Method ==> !sk::may_repeat(s),
{
}

// ---------------------------------------------------------------------------
// Arguments of calls
// ---------------------------------------------------------------------------

/// An argument has the keyword in front of its equals sign, unless that sign
/// belongs to `==` or `=>`.
pub proof fn law_keyword_of(before: Text, name: Text, after: Text, left: Nest, value: Text)
    requires
        show(left) == before + name + after,
        is_well(left),
        is_open_free(left, '='),
        all_space(before),
        all_space(after),
        st::is_fortran_name(name),
        is_trimmed(name),
    ensures
        value.len() == 0 || (value[0] != '=' && value[0] != '>') ==> sca::keyword(
            show(left) + seq!['='] + value,
        ) == Some(name),
        value.len() > 0 && (value[0] == '=' || value[0] == '>') ==> sca::keyword(
            show(left) + seq!['='] + value,
        ) is None,
        sca::keyword(show(left)) is None,
{
    law_equals(left, value);
    let arg = show(left) + seq!['='] + value;
    let k = show(left).len() as int;
    assert(arg.take(k) =~= before + name + after);
    law_trim(before, name, after);
    if value.len() > 0 {
        assert(arg[k + 1] == value[0]);
    }
}

/// The name of an argument in a list of arguments is what stands before its equals
/// sign, or all of it where there is none.
pub proof fn law_argument_name(before: Text, name: Text, after: Text, value: Text)
    requires
        all_space(before),
        all_space(after),
        is_trimmed(name),
        !name.contains('='),
    ensures
        sqy::argument_name(before + name + after + seq!['='] + value) == name,
        sqy::argument_name(name) == name,
{
    let lead = before + name + after;
    assert(!lead.contains('=')) by {
        assert forall|i: int| 0 <= i < lead.len() implies lead[i] != '=' by {
            if i < before.len() {
                assert(lead[i] == before[i]);
            } else if i < before.len() + name.len() {
                assert(lead[i] == name[i - before.len()]);
                assert(name.contains(name[i - before.len()]));
            } else {
                assert(lead[i] == after[i - before.len() - name.len()]);
            }
        }
    }
    lemma_find_char(lead, '=', value, 0);
    assert((lead + seq!['='] + value).take(lead.len() as int) =~= lead);
    law_trim(before, name, after);
    lemma_no_char(name, 0);
}

proof fn lemma_no_char(s: Text, i: int)
    requires
        !s.contains('='),
        0 <= i,
    ensures
        st::find_char_from(s, '=', i) is None,
    decreases s.len() - i,
{
    if i < s.len() {
        assert(s.contains(s[i]));
        lemma_no_char(s, i + 1);
    }
}

/// Whether an argument stands by itself: it has no keyword and is no label.
pub open spec fn is_plain_argument(arg: Text) -> bool {
    sca::keyword(arg) is None && !sca::is_label(arg)
}

/// How many arguments stand by themselves.
pub open spec fn plain_count(args: Seq<Text>) -> nat
    decreases args.len(),
{
    if args.len() == 0 {
        0
    } else {
        plain_count(args.drop_last()) + (if is_plain_argument(args.last()) {
            1nat
        } else {
            0nat
        })
    }
}

proof fn lemma_positional(args: Seq<Text>, i: int)
    requires
        0 <= i <= args.len(),
    ensures
        sca::positional_from(args, i, plain_count(args.take(i))) == plain_count(args),
    decreases args.len() - i,
{
    if i < args.len() {
        assert(args.take(i + 1).drop_last() =~= args.take(i));
        assert(args.take(i + 1).last() == args[i]);
        lemma_positional(args, i + 1);
    } else {
        assert(args.take(i) =~= args);
    }
}

/// Whether a callee has an argument of a name, case aside, at index `k`.
pub open spec fn takes_at(c: Callee, name: Text, k: int) -> bool {
    &&& 0 <= k < c.args.len()
    &&& st::lower(sqy::argument_name(c.args[k])) == st::lower(name)
    &&& forall|j: int|
        0 <= j < k ==> st::lower(sqy::argument_name(#[trigger] c.args[j])) != st::lower(name)
}

proof fn lemma_index(c: Callee, name: Text, i: int)
    requires
        0 <= i,
        forall|j: int|
            0 <= j < i && j < c.args.len() ==> st::lower(sqy::argument_name(#[trigger] c.args[j]))
                != st::lower(name),
    ensures
        match sqy::argument_index(c.args, name, i) {
            Some(k) => takes_at(c, name, k),
            None => forall|j: int|
                0 <= j < c.args.len() ==> st::lower(sqy::argument_name(#[trigger] c.args[j]))
                    != st::lower(name),
        },
    decreases c.args.len() - i,
{
    if i < c.args.len() && st::lower(sqy::argument_name(c.args[i])) != st::lower(name) {
        lemma_index(c, name, i + 1);
    }
}

/// Whether one of the first `n` arguments is given by a keyword.
pub open spec fn given(args: Seq<Text>, name: Text, n: int) -> bool {
    exists|i: int|
        0 <= i < n && i < args.len() && (sca::keyword(#[trigger] args[i]) matches Some(k)
            && st::lower(k) == st::lower(name))
}

proof fn lemma_given(args: Seq<Text>, name: Text, n: int)
    requires
        n <= args.len(),
    ensures
        sca::is_given(args, name, n) == given(args, name, n),
{
    if given(args, name, n) {
        let i = choose|i: int|
            0 <= i < n && i < args.len() && (sca::keyword(#[trigger] args[i]) matches Some(k)
                && st::lower(k) == st::lower(name));
        assert(sca::keyword(args[i]) is Some);
        assert(st::same(sca::keyword(args[i])->0, name));
    }
    if sca::is_given(args, name, n) {
        let i = choose|i: int|
            0 <= i < n && (#[trigger] sca::keyword(args[i]) matches Some(k) && st::same(k, name));
        assert(st::lower(sca::keyword(args[i])->0) == st::lower(name));
        assert(0 <= i < n && i < args.len());
        let a = args[i];
        assert(sca::keyword(a) is Some);
    }
}

/// Whether the argument at index `k` of a callee is given: by its place, or by its
/// keyword.
pub open spec fn is_filled(c: Callee, args: Seq<Text>, name: Text) -> bool {
    ||| given(args, name, args.len() as int)
    ||| exists|k: int| #[trigger] takes_at(c, name, k) && k < plain_count(args)
}

/// Whether all is well with the arguments of a call: there are not too many by
/// place, each keyword is one of the callee's and given once, by place or by
/// keyword, and each required argument is given.
pub open spec fn is_good(c: Callee, args: Seq<Text>) -> bool {
    &&& plain_count(args) <= c.args.len()
    &&& forall|i: int|
        0 <= i < args.len() && (sca::keyword(#[trigger] args[i]) is Some) ==> exists|k: int|
            #[trigger] takes_at(c, sca::keyword(args[i])->0, k) && k >= plain_count(args)
    &&& forall|i: int|
        0 <= i < args.len() && (sca::keyword(#[trigger] args[i]) is Some) ==> !given(
            args,
            sca::keyword(args[i])->0,
            i,
        )
    &&& forall|i: int|
        0 <= i < c.required.len() ==> is_filled(c, args, #[trigger] c.required[i])
}

proof fn lemma_unknown(c: Callee, args: Seq<Text>, i: int)
    requires
        0 <= i,
    ensures
        sca::unknown_from(c, args, i) is None <==> forall|j: int|
            i <= j < args.len() && (sca::keyword(#[trigger] args[j]) is Some)
                ==> sqy::argument_index(c.args, sca::keyword(args[j])->0, 0) is Some,
    decreases args.len() - i,
{
    if i < args.len() {
        lemma_unknown(c, args, i + 1);
        let a = args[i];
        if sca::keyword(a) is Some && sqy::argument_index(c.args, sca::keyword(a)->0, 0) is None {
            assert(sca::keyword(args[i]) is Some);
        }
    }
}

proof fn lemma_repeated(c: Callee, args: Seq<Text>, i: int)
    requires
        0 <= i,
    ensures
        sca::repeated_from(c, args, i) is None <==> forall|j: int|
            i <= j < args.len() && (sca::keyword(#[trigger] args[j]) is Some) ==> !sca::is_repeated(
                c,
                args,
                sca::keyword(args[j])->0,
                j,
            ),
    decreases args.len() - i,
{
    if i < args.len() {
        lemma_repeated(c, args, i + 1);
        let a = args[i];
        if sca::keyword(a) is Some && sca::is_repeated(c, args, sca::keyword(a)->0, i) {
            assert(sca::keyword(args[i]) is Some);
        }
    }
}

proof fn lemma_missing(c: Callee, args: Seq<Text>, i: int)
    requires
        0 <= i,
    ensures
        sca::missing_from(c, args, i) is None <==> forall|j: int|
            i <= j < c.required.len() ==> sca::is_there(c, args, #[trigger] c.required[j]),
    decreases c.required.len() - i,
{
    if i < c.required.len() && sca::is_there(c, args, c.required[i]) {
        lemma_missing(c, args, i + 1);
    }
}

proof fn lemma_there(c: Callee, args: Seq<Text>, name: Text)
    ensures
        sca::is_there(c, args, name) == is_filled(c, args, name),
{
    lemma_given(args, name, args.len() as int);
    lemma_positional(args, 0);
    assert(args.take(0).len() == 0);
    lemma_index(c, name, 0);
    if let Some(k) = sqy::argument_index(c.args, name, 0) {
        assert forall|j: int| #[trigger] takes_at(c, name, j) implies j == k by {
            if j < k {
                assert(st::lower(sqy::argument_name(c.args[j])) != st::lower(name));
            } else if k < j {
                assert(st::lower(sqy::argument_name(c.args[k])) != st::lower(name));
            }
        }
        assert(takes_at(c, name, k));
    }
}

/// A callee takes the arguments of a call exactly where all is well with them.
pub proof fn law_problem(c: Callee, args: Seq<Text>)
    ensures
        sca::problem(c, args) is None <==> is_good(c, args),
{
    lemma_positional(args, 0);
    assert(args.take(0).len() == 0);
    lemma_unknown(c, args, 0);
    lemma_repeated(c, args, 0);
    lemma_missing(c, args, 0);
    assert forall|i: int| 0 <= i < c.required.len() implies sca::is_there(
        c,
        args,
        #[trigger] c.required[i],
    ) == is_filled(c, args, c.required[i]) by {
        lemma_there(c, args, c.required[i]);
    }
    assert forall|i: int|
        0 <= i < args.len() && (sca::keyword(#[trigger] args[i]) is Some)
            implies ((sqy::argument_index(
        c.args,
        sca::keyword(args[i])->0,
        0,
    ) is Some && !sca::is_repeated(c, args, sca::keyword(args[i])->0, i)) <==> (!given(
        args,
        sca::keyword(args[i])->0,
        i,
    ) && exists|k: int|
        #[trigger] takes_at(c, sca::keyword(args[i])->0, k) && k >= plain_count(args))) by {
        let name = sca::keyword(args[i])->0;
        lemma_given(args, name, i);
        lemma_index(c, name, 0);
        if let Some(k) = sqy::argument_index(c.args, name, 0) {
            assert forall|j: int| #[trigger] takes_at(c, name, j) implies j == k by {
                if j < k {
                    assert(st::lower(sqy::argument_name(c.args[j])) != st::lower(name));
                } else if k < j {
                    assert(st::lower(sqy::argument_name(c.args[k])) != st::lower(name));
                }
            }
            assert(takes_at(c, name, k));
        }
    }
}

// ---------------------------------------------------------------------------
// Classes of names
// ---------------------------------------------------------------------------

/// The class of a name by its kind, as its number in the list of classes: modules
/// and programs are name spaces, types are types, procedures and interfaces are
/// functions, and bindings are methods.
pub proof fn law_token_class(symbols: Seq<Symbol>, s: Symbol)
    ensures
        s.kind is Module || s.kind is Program || s.kind is Submodule ==> sto::class(symbols, s)
            == Some(semantic_token_type::NAMESPACE),
        s.kind is Type ==> sto::class(symbols, s) == Some(semantic_token_type::TYPE),
        s.kind is Subroutine || s.kind is Function || s.kind is Interface ==> sto::class(symbols, s)
            == Some(semantic_token_type::FUNCTION),
        s.kind is Method ==> sto::class(symbols, s) == Some(semantic_token_type::METHOD),
        s.kind is Block || s.kind is Associate || s.kind is SelectType || s.kind is Use
            ==> sto::class(symbols, s) is None,
{
}

/// The name that an editor is told for a class.
pub open spec fn class_name(n: u32) -> Option<Text> {
    match sl::token_types() {
        Json::Array(items) => if n < items.len() {
            sj::as_text(Some(items[n as int]))
        } else {
            None
        },
        _ => None,
    }
}

/// Each class is told to an editor under its name.
pub proof fn law_legend(symbols: Seq<Symbol>, s: Symbol)
    ensures
        class_name(semantic_token_type::NAMESPACE) == Some("namespace"@),
        class_name(semantic_token_type::TYPE) == Some("type"@),
        class_name(semantic_token_type::FUNCTION) == Some("function"@),
        class_name(semantic_token_type::METHOD) == Some("method"@),
        class_name(semantic_token_type::PROPERTY) == Some("property"@),
        class_name(semantic_token_type::VARIABLE) == Some("variable"@),
        class_name(semantic_token_type::PARAMETER) == Some("parameter"@),
        class_name(semantic_token_type::ENUM_MEMBER) == Some("enumMember"@),
        class_name(semantic_token_type::MACRO) == Some("macro"@),
        s.kind is Module ==> (sto::class(symbols, s) matches Some(n) && class_name(n) == Some(
            "namespace"@,
        )),
        s.kind is Type ==> (sto::class(symbols, s) matches Some(n) && class_name(n) == Some(
            "type"@,
        )),
        s.kind is Subroutine ==> (sto::class(symbols, s) matches Some(n) && class_name(n) == Some(
            "function"@,
        )),
        s.kind is Method ==> (sto::class(symbols, s) matches Some(n) && class_name(n) == Some(
            "method"@,
        )),
{
}

/// A variable that is listed as an argument of the procedure around it is a
/// parameter; one outside of any scope is a variable.
pub proof fn law_variable_class(symbols: Seq<Symbol>, s: Symbol)
    requires
        s.kind is Variable,
        !st::starts_with(st::lower(s.signature), "enumerator"@),
    ensures
        s.scope.len() == 0 ==> sto::class(symbols, s) == Some(semantic_token_type::VARIABLE),
        s.scope.len() > 0 && (exists|k: int|
            0 <= k < symbols.len() && is_in(
                #[trigger] symbols[k],
                s.scope.drop_last(),
                s.scope.last(),
            )) && (forall|k: int|
            0 <= k < symbols.len() && is_in(
                #[trigger] symbols[k],
                s.scope.drop_last(),
                s.scope.last(),
            ) ==> (symbols[k].kind is Subroutine || symbols[k].kind is Function) && st::has_name(
                symbols[k].args,
                s.name,
            )) ==> sto::class(symbols, s) == Some(semantic_token_type::PARAMETER),
{
    if s.scope.len() > 0 {
        lemma_symbol(symbols, s.scope.drop_last(), s.scope.last(), 0);
        lemma_type(symbols, s.scope.drop_last(), s.scope.last(), 0);
    }
}

proof fn lemma_type(symbols: Seq<Symbol>, scope: sm::Scope, name: Text, i: int)
    requires
        0 <= i,
    ensures
        sg::type_from(symbols, scope, name, i) matches Some(k) ==> i <= k
            < symbols.len() && symbols[k].kind is Type && is_in(symbols[k], scope, name),
    decreases symbols.len() - i,
{
    if i < symbols.len() {
        lemma_type(symbols, scope, name, i + 1);
    }
}

} // verus!
