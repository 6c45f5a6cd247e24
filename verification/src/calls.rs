//! The calls in a file: what is wrong with their arguments, and the names of
//! their arguments.

use vstd::prelude::*;

use crate::completion::scope_at;
use crate::cursor::column_range;
use crate::intrinsics::find_intrinsic;
use crate::list::{empty, put};
use crate::model::{Diagnostic, DiagnosticSeverity, InlayHint, Symbol, SymbolKind};
use crate::modules::Export;
use crate::names::{about, is_intrinsic_type};
use crate::outline::is_visible;
use crate::parser::Parser;
use crate::path::is_fixed_form_path;
use crate::query::{Callee, argument_index, argument_name};
use crate::scan::{
    Quotes, matching_paren_index, split_top_level_commas, strip_inline_comment, top_level_equals,
};
use crate::resolve::eq_scopes;
use crate::scope::parse_scope_start;
use crate::source::{
    is_fixed_comment, is_fixed_continuation, live_lines, logical_lines, source_lines,
};
use crate::spec::calls as sca;
use crate::spec::query as sqy;
use crate::spec::scan as ss;
use crate::spec::text as st;
use crate::text::{
    after_keyword, after_keywords, all_digits, chars, copy_texts, ends_with_char, first_ident,
    first_ident_is, has_name, is_blank, is_fortran_name, is_name_start, is_space,
    name_begin, owned, push_text, same_text, same_word, skip, split_char, starts_with_char,
    starts_with_word, strip_char, take, text, trim, trim_end, trim_start,
};
use crate::workspace::Workspace;

verus! {

// ---------------------------------------------------------------------------
// Calls of a line
// ---------------------------------------------------------------------------

/// A call on a line: where its name stands, the parenthesis behind it, what it
/// belongs to, and its arguments with the places where they start behind the
/// parenthesis.
#[derive(Debug, PartialEq, Eq)]
pub struct Call {
    pub start: usize,
    pub end: usize,
    pub open: usize,
    pub receiver: Option<String>,
    pub name: String,
    pub args: Vec<String>,
    pub starts: Vec<usize>,
}

/// The model of a list of places.
pub open spec fn places(list: Seq<usize>) -> Seq<int> {
    Seq::new(list.len(), |i: int| list[i] as int)
}

impl DeepView for Call {
    type V = sca::Call;

    open spec fn deep_view(&self) -> sca::Call {
        sca::Call {
            start: self.start as int,
            end: self.end as int,
            open: self.open as int,
            receiver: self.receiver.deep_view(),
            name: self.name@,
            args: self.args.deep_view(),
            starts: places(self.starts@),
        }
    }
}

impl Call {
    /// Whether a call lies in a line of `n` characters.
    pub open spec fn lies_in(&self, n: nat) -> bool {
        &&& self.start <= self.end <= n
        &&& forall|k: int|
            0 <= k < self.starts@.len() ==> self.open + 1 + #[trigger] self.starts@[k] <= n
    }
}

/// Whether all calls lie in a line of `n` characters.
pub open spec fn all_lie_in(list: Seq<Call>, n: nat) -> bool {
    forall|i: int| 0 <= i < list.len() ==> (#[trigger] list[i]).lies_in(n)
}

/// What stands before a name: nothing, a name and `%`, or more than that.
enum Before {
    Nothing,
    Receiver(String),
    Other,
}

impl DeepView for Before {
    type V = sca::Before;

    closed spec fn deep_view(&self) -> sca::Before {
        match self {
            Before::Nothing => sca::Before::Nothing,
            Before::Receiver(name) => sca::Before::Receiver(name@),
            Before::Other => sca::Before::Other,
        }
    }
}

/// What stands before a name that follows the given text.
fn before_name(left: &[char]) -> (r: Before)
    ensures
        r.deep_view() == sca::before_name(left@),
{
    let head = trim_end(left);
    if !ends_with_char(head, '%') {
        return Before::Nothing;
    }
    let shorter = take(head, head.len() - 1);
    assert(shorter@ =~= head@.drop_last());
    let prefix = trim_end(shorter);
    let start: usize = name_begin(prefix, prefix.len());
    if start == prefix.len() || ends_with_char(trim_end(take(prefix, start)), '%') {
        Before::Other
    } else {
        Before::Receiver(text(skip(prefix, start)))
    }
}

/// The arguments in a text.
fn arguments(inner: &[char]) -> (r: Vec<String>)
    ensures
        r.deep_view() == sca::arguments(inner@),
{
    if is_blank(inner) {
        empty()
    } else {
        split_top_level_commas(inner)
    }
}

/// The places where the parts of a list start.
fn argument_starts(s: &[char]) -> (r: Vec<usize>)
    ensures
        places(r@) == sca::argument_starts(s@),
        forall|k: int| 0 <= k < r@.len() ==> #[trigger] r@[k] <= s@.len(),
{
    let mut out: Vec<usize> = Vec::new();
    out.push(0);
    assert(places(out@) =~= Seq::empty().push(0int));
    let mut q = Quotes { single: false, double: false };
    let mut parens: usize = 0;
    let mut brackets: usize = 0;
    let mut i: usize = 0;
    while i < s.len()
        invariant
            i <= s@.len(),
            parens <= i,
            brackets <= i,
            forall|k: int| 0 <= k < out@.len() ==> #[trigger] out@[k] <= s@.len(),
            sca::argument_starts(s@) == sca::starts_from(
                s@,
                i as int,
                q@,
                parens as nat,
                brackets as nat,
                places(out@),
            ),
        decreases s@.len() - i,
    {
        let c = s[i];
        let next = q.step(c);
        if !q.quoted() {
            if c == '(' {
                parens = parens + 1;
            } else if c == ')' {
                if parens > 0 {
                    parens = parens - 1;
                }
            } else if c == '[' {
                brackets = brackets + 1;
            } else if c == ']' {
                if brackets > 0 {
                    brackets = brackets - 1;
                }
            } else if c == ',' && parens == 0 && brackets == 0 {
                let ghost before = places(out@);
                out.push(i + 1);
                assert(places(out@) =~= before.push(i + 1));
            }
        }
        q = next;
        i = i + 1;
    }
    out
}

/// Whether a statement starts behind the given text: there is nothing but a
/// label in it, or it ends with a semicolon.
fn starts_statement(left: &[char], first: bool) -> (r: bool)
    ensures
        r == sca::starts_statement(left@, first),
{
    let before = trim(left);
    ends_with_char(before, ';') || (first && all_digits(before))
}

/// Whether all arguments are those of a type: its kind and its length.
fn are_type_parameters(args: &Vec<String>) -> (r: bool)
    ensures
        r == sca::are_type_parameters(args.deep_view()),
{
    let ghost all = args.deep_view();
    let mut k: usize = 0;
    while k < args.len()
        invariant
            k <= args@.len(),
            all == args.deep_view(),
            forall|j: int|
                0 <= j < k ==> (#[trigger] sca::keyword(all[j]) matches Some(word) && (st::same(
                    word,
                    "kind"@,
                ) || st::same(word, "len"@))),
        decreases args@.len() - k,
    {
        assert(all[k as int] == args@[k as int]@);
        let fits: bool = match keyword(args[k].as_str()) {
            Some(word) => same_text(word.as_str(), "kind") || same_text(word.as_str(), "len"),
            None => false,
        };
        if !fits {
            assert(!(sca::keyword(all[k as int]) matches Some(word) && (st::same(word, "kind"@)
                || st::same(word, "len"@))));
            return false;
        }
        k = k + 1;
    }
    args.len() > 0
}

/// Whether a type can follow the given text.
fn precedes_type(left: &[char]) -> (r: bool)
    ensures
        r == sca::precedes_type(left@),
{
    after_keywords(left, "type", "is").is_some() || after_keywords(left, "class", "is").is_some()
        || after_keyword(left, "implicit").is_some() || after_keyword(left, "procedure").is_some()
}

/// Whether a name with what stands in parentheses behind it is a type and no
/// call.
fn is_type_spec(left: &[char], name: &[char], args: &Vec<String>, right: &[char]) -> (r: bool)
    ensures
        r == sca::is_type_spec(left@, name@, args.deep_view(), right@),
{
    is_intrinsic_type(name) && (are_type_parameters(args) || precedes_type(left) || after_keyword(
        right,
        "function",
    ).is_some())
}

/// The call with a parenthesis at an index. `first` says whether the line
/// starts a statement.
fn call_at(code: &[char], i: usize, first: bool) -> (r: Option<Call>)
    requires
        i < code@.len(),
    ensures
        r.deep_view() == sca::call_at(code@, i as int, first),
        r matches Some(call) ==> call.lies_in(code@.len()),
{
    let before = trim_end(take(code, i));
    proof {
        st::lemma_before_spaces(code@.take(i as int), i as int);
    }
    let n: usize = code.len();
    let start: usize = name_begin(before, before.len());
    let name = skip(before, start);
    let left = take(before, start);
    match matching_paren_index(code, i) {
        Some(close) => {
            if name.len() == 0 || !is_name_start(name[0]) {
                return None;
            }
            let right = skip(code, close + 1);
            let inner = vstd::slice::slice_subrange(code, i + 1, close);
            let args = arguments(inner);
            if starts_statement(left, first) || starts_with_word(trim_start(right), "::")
                || is_type_spec(left, name, &args, right) {
                return None;
            }
            let starts = argument_starts(inner);
            let receiver = match before_name(left) {
                Before::Nothing => None,
                Before::Receiver(receiver) => Some(receiver),
                Before::Other => {
                    return None;
                },
            };
            Some(
                Call { start, end: before.len(), open: i, receiver, name: text(name), args, starts },
            )
        },
        None => None,
    }
}

/// The calls of a line.
fn line_calls(line: &[char], fixed: bool, first: bool) -> (r: Vec<Call>)
    ensures
        r.deep_view() == sca::line_calls(line@, fixed, first),
        all_lie_in(r@, ss::strip_inline_comment(line@).len()),
{
    let code = strip_inline_comment(line);
    let mut out: Vec<Call> = empty();
    if (fixed && is_fixed_comment(line)) || starts_with_char(line, '#') || first_ident_is(
        code,
        "end",
    ) || parse_scope_start(code).is_some() {
        return out;
    }
    let mut q = Quotes { single: false, double: false };
    let mut i: usize = 0;
    while i < code.len()
        invariant
            i <= code@.len(),
            all_lie_in(out@, code@.len()),
            sca::calls_from(code@, first, 0, ss::unquoted(), Seq::empty()) == sca::calls_from(
                code@,
                first,
                i as int,
                q@,
                out.deep_view(),
            ),
        decreases code@.len() - i,
    {
        if code[i] == '(' && !q.quoted() {
            if let Some(call) = call_at(code, i, first) {
                put(&mut out, call);
            }
        }
        q = q.step(code[i]);
        i = i + 1;
    }
    out
}

// ---------------------------------------------------------------------------
// Arguments
// ---------------------------------------------------------------------------

/// The keyword of an argument.
fn keyword(arg: &str) -> (r: Option<String>)
    ensures
        r.deep_view() == sca::keyword(arg@),
{
    let all = chars(arg);
    let a = all.as_slice();
    match top_level_equals(a) {
        Some(eq) => {
            let name = trim(take(a, eq));
            let n: usize = a.len();
            let next: bool = eq + 1 < n && (a[eq + 1] == '=' || a[eq + 1] == '>');
            if is_fortran_name(name) && !next {
                Some(text(name))
            } else {
                None
            }
        },
        None => None,
    }
}

/// Whether an argument is the label that a procedure can return to.
fn is_label(arg: &str) -> (r: bool)
    ensures
        r == sca::is_label(arg@),
{
    let all = chars(arg);
    match strip_char(trim(all.as_slice()), '*') {
        Some(rest) => all_digits(trim(rest)),
        None => false,
    }
}

/// How many of the arguments have no keyword and are no labels.
fn positional(args: &Vec<String>) -> (r: usize)
    ensures
        r == sca::positional(args.deep_view()),
        r <= args@.len(),
{
    let ghost all = args.deep_view();
    let mut n: usize = 0;
    let mut i: usize = 0;
    while i < args.len()
        invariant
            n <= i <= args@.len(),
            all == args.deep_view(),
            sca::positional(all) == sca::positional_from(all, i as int, n as nat),
        decreases args@.len() - i,
    {
        assert(all[i as int] == args@[i as int]@);
        if keyword(args[i].as_str()).is_none() && !is_label(args[i].as_str()) {
            n = n + 1;
        }
        i = i + 1;
    }
    n
}

/// Whether one of the first `n` arguments has a keyword.
fn is_given(args: &Vec<String>, name: &str, n: usize) -> (r: bool)
    requires
        n <= args@.len(),
    ensures
        r == sca::is_given(args.deep_view(), name@, n as int),
{
    let ghost all = args.deep_view();
    let mut i: usize = 0;
    while i < n
        invariant
            i <= n <= args@.len(),
            all == args.deep_view(),
            forall|j: int|
                0 <= j < i ==> !(#[trigger] sca::keyword(all[j]) matches Some(k) && st::same(
                    k,
                    name@,
                )),
        decreases n - i,
    {
        assert(all[i as int] == args@[i as int]@);
        if let Some(k) = keyword(args[i].as_str()) {
            if same_text(k.as_str(), name) {
                assert(sca::keyword(all[i as int]) == Some(k@));
                return true;
            }
        }
        i = i + 1;
    }
    false
}

/// The first keyword that a callee does not have.
fn unknown_keyword(c: &Callee, args: &Vec<String>) -> (r: Option<String>)
    ensures
        r.deep_view() == sca::unknown_from(c.deep_view(), args.deep_view(), 0),
{
    let ghost all = args.deep_view();
    let mut i: usize = 0;
    while i < args.len()
        invariant
            i <= args@.len(),
            all == args.deep_view(),
            sca::unknown_from(c.deep_view(), args.deep_view(), 0) == sca::unknown_from(
                c.deep_view(),
                all,
                i as int,
            ),
        decreases args@.len() - i,
    {
        assert(all[i as int] == args@[i as int]@);
        if let Some(name) = keyword(args[i].as_str()) {
            if argument_index(&c.args, name.as_str()).is_none() {
                return Some(name);
            }
        }
        i = i + 1;
    }
    None
}

/// Whether an argument of a callee is among those without a keyword.
fn is_positional(c: &Callee, args: &Vec<String>, name: &str) -> (r: bool)
    ensures
        r == (sqy::argument_index(c.deep_view().args, name@, 0) matches Some(k) && k
            < sca::positional(args.deep_view())),
{
    match argument_index(&c.args, name) {
        Some(k) => k < positional(args),
        None => false,
    }
}

/// The first keyword whose argument was given before.
fn repeated_keyword(c: &Callee, args: &Vec<String>) -> (r: Option<String>)
    ensures
        r.deep_view() == sca::repeated_from(c.deep_view(), args.deep_view(), 0),
{
    let ghost all = args.deep_view();
    let mut i: usize = 0;
    while i < args.len()
        invariant
            i <= args@.len(),
            all == args.deep_view(),
            sca::repeated_from(c.deep_view(), args.deep_view(), 0) == sca::repeated_from(
                c.deep_view(),
                all,
                i as int,
            ),
        decreases args@.len() - i,
    {
        assert(all[i as int] == args@[i as int]@);
        if let Some(name) = keyword(args[i].as_str()) {
            if is_given(args, name.as_str(), i) || is_positional(c, args, name.as_str()) {
                return Some(name);
            }
        }
        i = i + 1;
    }
    None
}

/// The first required argument that is not there.
fn missing_argument(c: &Callee, args: &Vec<String>) -> (r: Option<String>)
    ensures
        r.deep_view() == sca::missing_from(c.deep_view(), args.deep_view(), 0),
{
    assert(args.deep_view().len() == args@.len());
    let ghost all = c.deep_view().required;
    let mut i: usize = 0;
    while i < c.required.len()
        invariant
            i <= c.required@.len(),
            args.deep_view().len() == args@.len(),
            all == c.deep_view().required,
            sca::missing_from(c.deep_view(), args.deep_view(), 0) == sca::missing_from(
                c.deep_view(),
                args.deep_view(),
                i as int,
            ),
        decreases c.required@.len() - i,
    {
        assert(all[i as int] == c.required@[i as int]@);
        let name = c.required[i].as_str();
        if !is_given(args, name, args.len()) && !is_positional(c, args, name) {
            return Some(owned(name));
        }
        i = i + 1;
    }
    None
}

/// What is wrong with the arguments for a callee.
fn problem(c: &Callee, args: &Vec<String>) -> (r: Option<String>)
    ensures
        r.deep_view() == sca::problem(c.deep_view(), args.deep_view()),
{
    assert(c.deep_view().args.len() == c.args@.len());
    if positional(args) > c.args.len() {
        return Some(owned("has too many positional arguments"));
    }
    if let Some(name) = unknown_keyword(c, args) {
        return Some(about("has no argument named `", name.as_str(), "`"));
    }
    if let Some(name) = repeated_keyword(c, args) {
        return Some(about("repeats argument `", name.as_str(), "`"));
    }
    match missing_argument(c, args) {
        Some(name) => Some(about("is missing required argument `", name.as_str(), "`")),
        None => None,
    }
}

/// The numbers of the callees that take the arguments.
fn accepting(list: &Vec<Callee>, args: &Vec<String>) -> (r: Vec<usize>)
    ensures
        places(r@) == sca::accepting(list.deep_view(), args.deep_view()),
        forall|k: int| 0 <= k < r@.len() ==> #[trigger] r@[k] < list@.len(),
{
    let ghost all = list.deep_view();
    let mut out: Vec<usize> = Vec::new();
    assert(places(out@) =~= Seq::empty());
    let mut i: usize = 0;
    while i < list.len()
        invariant
            i <= list@.len(),
            all == list.deep_view(),
            forall|k: int| 0 <= k < out@.len() ==> #[trigger] out@[k] < list@.len(),
            sca::accepting(all, args.deep_view()) == sca::accepting_from(
                all,
                args.deep_view(),
                i as int,
                places(out@),
            ),
        decreases list@.len() - i,
    {
        assert(all[i as int] == list@[i as int].deep_view());
        if problem(&list[i], args).is_none() {
            let ghost before = places(out@);
            out.push(i);
            assert(places(out@) =~= before.push(i as int));
        }
        i = i + 1;
    }
    out
}

/// The first callee with so many arguments, or else the first of all.
fn closest<'a>(list: &'a Vec<Callee>, n: usize) -> (r: &'a Callee)
    requires
        list@.len() > 0,
    ensures
        r.deep_view() == sca::closest_from(list.deep_view(), n as nat, 0),
{
    let ghost all = list.deep_view();
    let mut i: usize = 0;
    while i < list.len()
        invariant
            i <= list@.len(),
            all == list.deep_view(),
            sca::closest_from(list.deep_view(), n as nat, 0) == sca::closest_from(
                all,
                n as nat,
                i as int,
            ),
        decreases list@.len() - i,
    {
        assert(all[i as int] == list@[i as int].deep_view());
        assert(list@[i as int].deep_view().args.len() == list@[i as int].args@.len());
        if list[i].args.len() >= n {
            return &list[i];
        }
        i = i + 1;
    }
    assert(all[0] == list@[0].deep_view());
    &list[0]
}

/// Whether an intrinsic procedure takes its arguments in more ways than its
/// entry says.
fn is_lenient(name: &str) -> (r: bool)
    ensures
        r == sca::is_lenient(name@),
{
    let list = chars("all any count sum product maxval minval maxloc minloc findloc iall iany iparity parity norm2 reduce max min max0 max1 min0 min1 amax0 amax1 amin0 amin1 dmax1 dmin1 size shape lbound ubound lcobound ucobound cshift eoshift pack unpack spread reshape merge transfer index scan verify associated null atan bessel_jn bessel_yn cmplx dcmplx ishftc selected_real_kind move_alloc date_and_time system_clock random_seed random_init command_argument_count get_command get_command_argument get_environment_variable execute_command_line flush exit signal num_images this_image image_index co_broadcast co_max co_min co_reduce co_sum");
    let words = split_char(list.as_slice(), ' ');
    let all = words.as_slice();
    assert(all.deep_view() =~= words.deep_view());
    has_name(all, name)
}

/// Whether a statement in free form goes on behind a line.
fn goes_on(open: bool, line: &[char]) -> (r: bool)
    ensures
        r == sca::goes_on(open, line@),
{
    let code = trim_start(line);
    if code.len() == 0 || starts_with_char(code, '!') || starts_with_char(code, '#') {
        open
    } else {
        ends_with_char(trim_end(strip_inline_comment(line)), '&')
    }
}

/// The first index from `i` on that holds no white space, or the end.
pub fn after_spaces(s: &[char], i: usize) -> (r: usize)
    requires
        i <= s@.len(),
    ensures
        r == st::after_spaces(s@, i as int),
        r <= s@.len(),
{
    let mut k: usize = i;
    while k < s.len() && is_space(s[k])
        invariant
            i <= k <= s@.len(),
            st::after_spaces(s@, i as int) == st::after_spaces(s@, k as int),
        decreases s@.len() - k,
    {
        k = k + 1;
    }
    k
}

/// Adds the hints for the arguments of a call.
fn put_hints(line: &[char], number: usize, call: &Call, c: &Callee, out: &mut Vec<InlayHint>)
    requires
        call.lies_in(ss::strip_inline_comment(line@).len()),
    ensures
        final(out).deep_view() == sca::hints_from(
            line@,
            number,
            call.deep_view(),
            c.deep_view(),
            0,
            old(out).deep_view(),
        ),
{
    let code = strip_inline_comment(line);
    assert(call.deep_view().args.len() == call.args@.len());
    assert(c.deep_view().args.len() == c.args@.len());
    let ghost wanted = sca::hints_from(
        line@,
        number,
        call.deep_view(),
        c.deep_view(),
        0,
        out.deep_view(),
    );
    let mut j: usize = 0;
    while j < call.args.len() && j < call.starts.len() && j < c.args.len() && keyword(
        call.args[j].as_str(),
    ).is_none() && !is_label(call.args[j].as_str())
        invariant
            j <= call.args@.len(),
            call.deep_view().args.len() == call.args@.len(),
            c.deep_view().args.len() == c.args@.len(),
            code@ == ss::strip_inline_comment(line@),
            call.lies_in(code@.len()),
            forall|k: int|
                0 <= k < call.args@.len() ==> #[trigger] call.deep_view().args[k]
                    == call.args@[k]@,
            wanted == sca::hints_from(
                line@,
                number,
                call.deep_view(),
                c.deep_view(),
                j as int,
                out.deep_view(),
            ),
        decreases call.args@.len() - j,
    {
        assert(call.deep_view().starts[j as int] == call.starts@[j as int] as int);
        assert(c.deep_view().args[j as int] == c.args@[j as int]@);
        assert(call.open + 1 + call.starts@[j as int] <= code@.len());
        let n: usize = code.len();
        let at: usize = after_spaces(code, call.open + 1 + call.starts[j]);
        let mut label = argument_name(c.args[j].as_str());
        push_text(&mut label, ":");
        put(out, InlayHint { position: column_range(code, number, at, at).start, label });
        j = j + 1;
    }
}

/// The literal that goes on behind a line in free form.
fn literal_step(q: Quotes, line: &[char]) -> (r: Quotes)
    ensures
        r@ == sca::literal_step(q@, line@),
{
    let code = trim_end(
        if q.quoted() {
            line
        } else {
            strip_inline_comment(line)
        },
    );
    if !ends_with_char(code, '&') {
        return Quotes::new();
    }
    let mut at = q;
    let mut i: usize = 0;
    while i < code.len()
        invariant
            i <= code@.len(),
            sca::quotes_behind(code@, 0, q@) == sca::quotes_behind(code@, i as int, at@),
        decreases code@.len() - i,
    {
        at = at.step(code[i]);
        i = i + 1;
    }
    at
}

// ---------------------------------------------------------------------------
// Names that are not declared
// ---------------------------------------------------------------------------

/// Whether one of the symbols stands in a scope and has a name.
fn is_declared_in(symbols: &Vec<Symbol>, scope: &Vec<String>, name: &str) -> (r: bool)
    ensures
        r == sca::is_declared_in(symbols.deep_view(), scope.deep_view(), name@),
{
    let ghost all = symbols.deep_view();
    let mut i: usize = 0;
    while i < symbols.len()
        invariant
            i <= symbols@.len(),
            all == symbols.deep_view(),
            forall|k: int|
                0 <= k < i ==> !(st::same_scope((#[trigger] all[k]).scope, scope.deep_view())
                    && st::same(all[k].name, name@)),
        decreases symbols@.len() - i,
    {
        assert(all[i as int] == symbols@[i as int].deep_view());
        if same_text(symbols[i].name.as_str(), name) && eq_scopes(&symbols[i].scope, scope) {
            return true;
        }
        i = i + 1;
    }
    false
}

/// Whether a name is that of a dummy argument that is not declared.
fn is_bare_dummy(symbols: &Vec<Symbol>, scope: &Vec<String>, name: &str) -> (r: bool)
    ensures
        r == sca::is_bare_dummy(symbols.deep_view(), scope.deep_view(), name@),
{
    let ghost all = symbols.deep_view();
    let mut i: usize = 0;
    while i < symbols.len()
        invariant
            i <= symbols@.len(),
            all == symbols.deep_view(),
            forall|k: int|
                0 <= k < i ==> !(sca::is_dummy_of(#[trigger] all[k], scope.deep_view(), name@)
                    && !sca::is_declared_in(all, all[k].scope.push(all[k].name), name@)),
        decreases symbols@.len() - i,
    {
        let s = &symbols[i];
        assert(all[i as int] == s.deep_view());
        let args = s.args.as_slice();
        assert(args.deep_view() =~= s.args.deep_view());
        if s.kind.is_procedure() && has_name(args, name) {
            let mut inner = copy_texts(&s.scope);
            put(&mut inner, s.name.clone());
            if is_visible(scope, &inner) && !is_declared_in(symbols, &inner, name) {
                return true;
            }
        }
        i = i + 1;
    }
    false
}

/// What stands behind the word that a statement starts with, where the word
/// says what names are without their types.
fn attributed<'a>(code: &'a [char]) -> (r: Option<&'a [char]>)
    ensures
        st::slice(r) == sca::attributed_from(code@, sca::attribute_words(), 0),
{
    let list = chars("dimension external allocatable pointer target codimension contiguous");
    let words = split_char(list.as_slice(), ' ');
    let ghost all = words.deep_view();
    let mut k: usize = 0;
    while k < words.len()
        invariant
            k <= words@.len(),
            all == words.deep_view(),
            all == sca::attribute_words(),
            sca::attributed_from(code@, all, 0) == sca::attributed_from(code@, all, k as int),
        decreases words@.len() - k,
    {
        assert(all[k as int] == words@[k as int]@);
        let found = after_keyword(code, words[k].as_str());
        if found.is_some() {
            return found;
        }
        k = k + 1;
    }
    None
}

/// Whether a statement says what a name is without its type.
fn is_attribute_of(code: &[char], name: &str) -> (r: bool)
    ensures
        r == sca::is_attribute_of(code@, name@),
{
    let rest = match attributed(code) {
        Some(rest) => rest,
        None => {
            return false;
        },
    };
    let parts = split_top_level_commas(rest);
    let ghost all = parts.deep_view();
    let mut i: usize = 0;
    while i < parts.len()
        invariant
            i <= parts@.len(),
            all == parts.deep_view(),
            all == ss::split_top_level_commas(rest@),
            sca::attributed_from(code@, sca::attribute_words(), 0) == Some(rest@),
            forall|k: int|
                0 <= k < i ==> !(st::first_ident(#[trigger] all[k]) matches Some(word)
                    && st::same(word, name@)),
        decreases parts@.len() - i,
    {
        let part = chars(parts[i].as_str());
        assert(part@ == all[i as int]);
        if let Some(word) = first_ident(part.as_slice()) {
            if same_word(word, name) {
                return true;
            }
        }
        i = i + 1;
    }
    false
}

// ---------------------------------------------------------------------------
// In the workspace
// ---------------------------------------------------------------------------

impl Workspace {
    /// Whether a name can stand for more than what is known of it.
    fn is_open_name(&self, f: usize, scope: &Vec<String>, name: &str) -> (r: bool)
        requires
            f < self.index.files@.len(),
        ensures
            r == sca::is_open_name(self.deep_view(), f as int, scope.deep_view(), name@),
    {
        match self.resolve(f, scope, name) {
            Some(t) => {
                let s = self.symbol(t);
                assert(self.deep_view().index.files[t.file as int]
                    == self.index.files@[t.file as int].deep_view());
                s.kind == SymbolKind::Interface && (find_intrinsic(
                    &self.index.intrinsics,
                    name,
                ).is_some() || self.index.used_export(
                    &self.index.files[t.file].uses,
                    &s.scope,
                    s.name.as_str(),
                    false,
                    Export::No,
                ) != Export::No)
            },
            None => is_lenient(name) || self.known(f, scope, name, false) != Export::No,
        }
    }

    /// Whether a statement of a file says what a name is without its type.
    fn is_attributed(&self, f: usize, name: &str) -> (r: bool)
        requires
            f < self.index.files@.len(),
        ensures
            r == sca::is_attributed(self.deep_view(), f as int, name@),
    {
        let ghost ws = self.deep_view();
        let p = &self.index.files[f];
        assert(ws.index.files[f as int] == p.deep_view());
        let macros = self.macros.as_slice();
        assert(macros.deep_view() =~= ws.macros);
        let start = Parser::with_defines(p.path.as_str(), p.source.as_str(), macros);
        let statements = logical_lines(
            &self.sources,
            p.path.as_str(),
            p.source.as_str(),
            &start.parsed.preprocessor_definitions,
        );
        let ghost all = statements.deep_view();
        let ghost wanted = sca::is_attributed(ws, f as int, name@);
        let ghost defs = crate::spec::parser::predefined_from(ws.macros, 0, Seq::empty());
        assert(start.parsed.preprocessor_definitions.deep_view() == defs);
        assert(all == crate::spec::source::logical_lines(ws.sources, p.path@, p.source@, defs));
        assert(ws.index.files[f as int].path == p.path@);
        assert(ws.index.files[f as int].source == p.source@);
        assert(wanted == exists|j: int|
            0 <= j < all.len() && sca::is_attribute_of((#[trigger] all[j]).1, name@));
        let mut k: usize = 0;
        while k < statements.len()
            invariant
                k <= statements@.len(),
                all == statements.deep_view(),
                wanted == sca::is_attributed(self.deep_view(), f as int, name@),
                wanted == exists|j: int|
                    0 <= j < all.len() && sca::is_attribute_of((#[trigger] all[j]).1, name@),
                forall|j: int| 0 <= j < k ==> !sca::is_attribute_of((#[trigger] all[j]).1, name@),
            decreases statements@.len() - k,
        {
            let code = chars(statements[k].1.as_str());
            assert(all[k as int].1 == code@);
            if is_attribute_of(code.as_slice(), name) {
                assert(sca::is_attribute_of(all[k as int].1, name@));
                return true;
            }
            k = k + 1;
        }
        false
    }

    /// Whether a file takes in one that the workspace does not have.
    fn misses_file(&self, f: usize) -> (r: bool)
        requires
            f < self.index.files@.len(),
        ensures
            r == sca::misses_file(self.deep_view(), f as int),
    {
        let ghost ws = self.deep_view();
        let p = &self.index.files[f];
        assert(ws.index.files[f as int] == p.deep_view());
        let list = self.resolved_of(p);
        let ghost all = list.deep_view();
        let mut k: usize = 0;
        while k < list.len()
            invariant
                k <= list@.len(),
                ws == self.deep_view(),
                all == list.deep_view(),
                all == crate::spec::workspace::resolved_of(ws, ws.index.files[f as int]),
                forall|j: int| 0 <= j < k ==> sca::is_read(ws, #[trigger] all[j]),
            decreases list@.len() - k,
        {
            assert(all[k as int] == list@[k as int].deep_view());
            let read: bool = match &list[k].resolved_path {
                Some(path) => self.file_number(path.as_str()).is_some(),
                None => false,
            };
            if !read {
                return true;
            }
            k = k + 1;
        }
        false
    }

    /// Whether a name stands for something of which only the name is known.
    fn is_hidden(&self, f: usize, scope: &Vec<String>, name: &str) -> (r: bool)
        requires
            f < self.index.files@.len(),
        ensures
            r == sca::is_hidden(self.deep_view(), f as int, scope.deep_view(), name@),
    {
        assert(self.deep_view().index.files[f as int] == self.index.files@[f as int].deep_view());
        is_bare_dummy(&self.index.files[f].symbols, scope, name) || self.resolve(
            f,
            scope,
            name,
        ).is_none() && (self.misses_file(f) || self.is_attributed(f, name))
    }

    /// Whether the arguments of a call are looked at.
    fn is_checked(&self, f: usize, scope: &Vec<String>, call: &Call) -> (r: bool)
        requires
            f < self.index.files@.len(),
        ensures
            r == sca::is_checked(self.deep_view(), f as int, scope.deep_view(), call.deep_view()),
    {
        let names = scope.as_slice();
        assert(names.deep_view() =~= scope.deep_view());
        call.receiver.is_some() || !has_name(names, call.name.as_str()) && !self.is_open_name(
            f,
            scope,
            call.name.as_str(),
        ) && !self.is_hidden(f, scope, call.name.as_str())
    }

    /// The diagnostic for a call on a line.
    fn call_diagnostic(&self, f: usize, line: &[char], number: usize, call: &Call) -> (r: Option<
        Diagnostic,
    >)
        requires
            f < self.index.files@.len(),
            call.lies_in(ss::strip_inline_comment(line@).len()),
        ensures
            r.deep_view() == sca::call_diagnostic(
                self.deep_view(),
                f as int,
                line@,
                number,
                call.deep_view(),
            ),
    {
        let code = strip_inline_comment(line);
        let range = column_range(code, number, call.start, call.end);
        assert(self.deep_view().index.files[f as int] == self.index.files@[f as int].deep_view());
        let scope = scope_at(&self.index.files[f].symbols, range.start);
        let list = self.callees(f, &scope, &call.receiver, call.name.as_str());
        assert(list.deep_view().len() == list@.len());
        assert(call.deep_view().args.len() == call.args@.len());
        if list.len() == 0 {
            return None;
        }
        let fit = accepting(&list, &call.args);
        assert(places(fit@).len() == fit@.len());
        if fit.len() > 0 || !self.is_checked(f, &scope, call) {
            return None;
        }
        match problem(closest(&list, call.args.len()), &call.args) {
            Some(p) => {
                let mut message = about("call to `", call.name.as_str(), "` ");
                push_text(&mut message, p.as_str());
                Some(Diagnostic { range, severity: DiagnosticSeverity::Error, message })
            },
            None => None,
        }
    }

    /// Adds the diagnostics for the calls of a line.
    fn check_line(&self, f: usize, line: &[char], number: usize, calls: &Vec<Call>, out: &mut Vec<
        Diagnostic,
    >)
        requires
            f < self.index.files@.len(),
            all_lie_in(calls@, ss::strip_inline_comment(line@).len()),
        ensures
            final(out).deep_view() == sca::line_from(
                self.deep_view(),
                f as int,
                line@,
                number,
                calls.deep_view(),
                0,
                old(out).deep_view(),
            ),
    {
        let ghost all = calls.deep_view();
        let ghost wanted = sca::line_from(
            self.deep_view(),
            f as int,
            line@,
            number,
            all,
            0,
            out.deep_view(),
        );
        let mut j: usize = 0;
        while j < calls.len()
            invariant
                j <= calls@.len(),
                f < self.index.files@.len(),
                all == calls.deep_view(),
                all_lie_in(calls@, ss::strip_inline_comment(line@).len()),
                wanted == sca::line_from(
                    self.deep_view(),
                    f as int,
                    line@,
                    number,
                    all,
                    j as int,
                    out.deep_view(),
                ),
            decreases calls@.len() - j,
        {
            assert(all[j as int] == calls@[j as int].deep_view());
            if let Some(d) = self.call_diagnostic(f, line, number, &calls[j]) {
                put(out, d);
            }
            j = j + 1;
        }
    }

    /// The calls on each line of a file.
    fn file_calls(&self, f: usize, lines: &Vec<String>, fixed: bool) -> (r: Vec<Vec<Call>>)
        requires
            f < self.index.files@.len(),
        ensures
            r@.len() == lines@.len(),
            forall|n: int|
                #![trigger r@[n]]
                0 <= n < r@.len() ==> r@[n].deep_view() == sca::calls_on(
                    self.deep_view(),
                    f as int,
                    lines.deep_view(),
                    fixed,
                    n,
                ) && all_lie_in(r@[n]@, ss::strip_inline_comment(lines@[n]@).len()),
    {
        let ghost ws = self.deep_view();
        let ghost all = lines.deep_view();
        let p = &self.index.files[f];
        assert(ws.index.files[f as int] == p.deep_view());
        let macros = self.macros.as_slice();
        assert(macros.deep_view() =~= ws.macros);
        let start = Parser::with_defines(p.path.as_str(), p.source.as_str(), macros);
        let live = live_lines(
            &self.sources,
            p.path.as_str(),
            lines,
            &start.parsed.preprocessor_definitions,
        );
        let mut out: Vec<Vec<Call>> = Vec::new();
        let mut open: bool = false;
        let mut literal = Quotes::new();
        let mut n: usize = 0;
        while n < lines.len()
            invariant
                n <= lines@.len(),
                all == lines.deep_view(),
                ws == self.deep_view(),
                out@.len() == n,
                live@.len() == lines@.len(),
                open == sca::is_open(all, n as nat),
                literal@ == sca::literal_behind(all, n as nat),
                ws.index.files[f as int].path == p.path@,
                forall|k: int|
                    0 <= k < live@.len() ==> #[trigger] live@[k] == crate::spec::source::is_live(
                        ws.sources,
                        p.path@,
                        all,
                        crate::spec::parser::predefined_from(ws.macros, 0, Seq::empty()),
                        k,
                    ),
                forall|k: int|
                    #![trigger out@[k]]
                    0 <= k < n ==> out@[k].deep_view() == sca::calls_on(
                        ws,
                        f as int,
                        all,
                        fixed,
                        k,
                    ) && all_lie_in(out@[k]@, ss::strip_inline_comment(lines@[k]@).len()),
            decreases lines@.len() - n,
        {
            let line = chars(lines[n].as_str());
            assert(line@ == all[n as int]);
            let starts: bool = if fixed {
                !is_fixed_continuation(line.as_slice())
            } else {
                !open
            };
            let calls = if live[n] && (fixed || !literal.quoted()) {
                line_calls(line.as_slice(), fixed, starts)
            } else {
                empty()
            };
            out.push(calls);
            open = goes_on(open, line.as_slice());
            literal = literal_step(literal, line.as_slice());
            n = n + 1;
        }
        out
    }

    /// Adds the diagnostics for the calls of a file.
    pub fn check_calls(&self, f: usize, out: &mut Vec<Diagnostic>)
        requires
            f < self.index.files@.len(),
        ensures
            final(out).deep_view() == sca::call_diagnostics(
                self.deep_view(),
                f as int,
                old(out).deep_view(),
            ),
    {
        let ghost ws = self.deep_view();
        let p = &self.index.files[f];
        assert(ws.index.files[f as int] == p.deep_view());
        let lines = source_lines(p.source.as_str());
        let fixed: bool = is_fixed_form_path(p.path.as_str());
        let calls = self.file_calls(f, &lines, fixed);
        let ghost all = lines.deep_view();
        let ghost wanted = sca::lines_from(ws, f as int, all, fixed, 0, out.deep_view());
        let mut n: usize = 0;
        while n < lines.len()
            invariant
                n <= lines@.len(),
                f < self.index.files@.len(),
                ws == self.deep_view(),
                all == lines.deep_view(),
                calls@.len() == lines@.len(),
                forall|k: int|
                    #![trigger calls@[k]]
                    0 <= k < calls@.len() ==> calls@[k].deep_view() == sca::calls_on(
                        ws,
                        f as int,
                        all,
                        fixed,
                        k,
                    ) && all_lie_in(calls@[k]@, ss::strip_inline_comment(lines@[k]@).len()),
                wanted == sca::lines_from(ws, f as int, all, fixed, n as int, out.deep_view()),
            decreases lines@.len() - n,
        {
            assert(all[n as int] == lines@[n as int]@);
            let line = chars(lines[n].as_str());
            self.check_line(f, line.as_slice(), n, &calls[n], out);
            n = n + 1;
        }
    }

    /// Adds the hints for the calls of a line.
    fn hint_line(&self, f: usize, line: &[char], number: usize, calls: &Vec<Call>, out: &mut Vec<
        InlayHint,
    >)
        requires
            f < self.index.files@.len(),
            all_lie_in(calls@, ss::strip_inline_comment(line@).len()),
        ensures
            final(out).deep_view() == sca::line_hints(
                self.deep_view(),
                f as int,
                line@,
                number,
                calls.deep_view(),
                0,
                old(out).deep_view(),
            ),
    {
        let ghost ws = self.deep_view();
        assert(ws.index.files[f as int] == self.index.files@[f as int].deep_view());
        let code = strip_inline_comment(line);
        let ghost all = calls.deep_view();
        let ghost wanted = sca::line_hints(ws, f as int, line@, number, all, 0, out.deep_view());
        let mut j: usize = 0;
        while j < calls.len()
            invariant
                j <= calls@.len(),
                f < self.index.files@.len(),
                ws == self.deep_view(),
                ws.index.files[f as int] == self.index.files@[f as int].deep_view(),
                code@ == ss::strip_inline_comment(line@),
                all == calls.deep_view(),
                all_lie_in(calls@, code@.len()),
                wanted == sca::line_hints(
                    ws,
                    f as int,
                    line@,
                    number,
                    all,
                    j as int,
                    out.deep_view(),
                ),
            decreases calls@.len() - j,
        {
            let call = &calls[j];
            assert(all[j as int] == call.deep_view());
            assert(call.lies_in(code@.len()));
            let range = column_range(code, number, call.start, call.end);
            let scope = scope_at(&self.index.files[f].symbols, range.start);
            let list = self.callees(f, &scope, &call.receiver, call.name.as_str());
            let fit = accepting(&list, &call.args);
            assert(places(fit@).len() == fit@.len());
            if fit.len() == 1 && (call.receiver.is_some() || !self.is_hidden(
                f,
                &scope,
                call.name.as_str(),
            )) {
                assert(places(fit@)[0] == fit@[0] as int);
                assert(list.deep_view()[fit@[0] as int] == list@[fit@[0] as int].deep_view());
                put_hints(line, number, call, &list[fit[0]], out);
            }
            j = j + 1;
        }
    }

    /// The names of the arguments of the calls between two lines.
    pub fn inlay_hints(&self, path: &str, first: usize, last: usize) -> (r: Vec<InlayHint>)
        ensures
            r.deep_view() == sca::inlay_hints(self.deep_view(), path@, first, last),
    {
        let ghost ws = self.deep_view();
        let mut out: Vec<InlayHint> = empty();
        let f = match self.file_number(path) {
            Some(f) => f,
            None => {
                return out;
            },
        };
        let p = &self.index.files[f];
        assert(ws.index.files[f as int] == p.deep_view());
        let lines = source_lines(p.source.as_str());
        let fixed: bool = is_fixed_form_path(p.path.as_str());
        let calls = self.file_calls(f, &lines, fixed);
        let ghost all = lines.deep_view();
        let ghost wanted = sca::hint_lines(
            ws,
            f as int,
            all,
            fixed,
            first as int,
            last as int,
            Seq::empty(),
        );
        let mut n: usize = first;
        while n < lines.len() && n <= last
            invariant
                f < self.index.files@.len(),
                ws == self.deep_view(),
                all == lines.deep_view(),
                calls@.len() == lines@.len(),
                forall|k: int|
                    #![trigger calls@[k]]
                    0 <= k < calls@.len() ==> calls@[k].deep_view() == sca::calls_on(
                        ws,
                        f as int,
                        all,
                        fixed,
                        k,
                    ) && all_lie_in(calls@[k]@, ss::strip_inline_comment(lines@[k]@).len()),
                wanted == sca::hint_lines(
                    ws,
                    f as int,
                    all,
                    fixed,
                    n as int,
                    last as int,
                    out.deep_view(),
                ),
            decreases lines@.len() - n,
        {
            assert(all[n as int] == lines@[n as int]@);
            let line = chars(lines[n].as_str());
            self.hint_line(f, line.as_slice(), n, &calls[n], &mut out);
            n = n + 1;
        }
        out
    }
}

} // verus!
