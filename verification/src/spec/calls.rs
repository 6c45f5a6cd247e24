//! The calls in a file: what is wrong with their arguments, and the names of
//! their arguments.

use vstd::prelude::*;

use crate::model::{DiagnosticSeverity, Range};
use crate::spec::bindings as sg;
use crate::spec::completion as sco;
use crate::spec::cursor as su;
use crate::spec::intrinsics as si;
use crate::spec::model as sm;
use crate::spec::model::{Diagnostic, InlayHint, Scope, Symbol};
use crate::spec::modules as sx;
use crate::spec::names as sn;
use crate::spec::outline as so;
use crate::spec::parser as pr;
use crate::spec::path as sh;
use crate::spec::query as sqy;
use crate::spec::query::Callee;
use crate::spec::resolve as sv;
use crate::spec::scan as ss;
use crate::spec::scope as sc;
use crate::spec::source as ssr;
use crate::spec::text as st;
use crate::spec::text::Text;
use crate::spec::workspace as sw;
use crate::spec::workspace::Workspace;

verus! {

// ---------------------------------------------------------------------------
// Calls of a line
// ---------------------------------------------------------------------------

/// A call on a line: where its name stands, the parenthesis behind it, what it
/// belongs to, and its arguments with the places where they start behind the
/// parenthesis.
#[verifier::ext_equal]
pub struct Call {
    pub start: int,
    pub end: int,
    pub open: int,
    pub receiver: Option<Text>,
    pub name: Text,
    pub args: Seq<Text>,
    pub starts: Seq<int>,
}

/// What stands before a name: nothing, a name and `%`, or more than that.
pub enum Before {
    Nothing,
    Receiver(Text),
    Other,
}

/// What stands before a name that follows the given text.
pub open spec fn before_name(left: Text) -> Before {
    let head = st::trim_end(left);
    if !st::ends_with_char(head, '%') {
        Before::Nothing
    } else {
        let prefix = st::trim_end(head.drop_last());
        let start = st::name_begin(prefix, prefix.len() as int);
        if start == prefix.len() || st::ends_with_char(st::trim_end(prefix.take(start)), '%') {
            Before::Other
        } else {
            Before::Receiver(prefix.skip(start))
        }
    }
}

/// The arguments in a text.
pub open spec fn arguments(inner: Text) -> Seq<Text> {
    if st::is_blank(inner) {
        Seq::empty()
    } else {
        ss::split_top_level_commas(inner)
    }
}

/// The places behind the commas from index `i` on that are outside of literals,
/// parentheses and brackets, behind `out`.
pub open spec fn starts_from(
    s: Text,
    i: int,
    q: ss::Quotes,
    parens: nat,
    brackets: nat,
    out: Seq<int>,
) -> Seq<int>
    decreases s.len() - i,
{
    if i >= s.len() {
        out
    } else {
        let c = s[i];
        let next = ss::quote_step(q, c);
        if ss::quoted(q) {
            starts_from(s, i + 1, next, parens, brackets, out)
        } else if c == '(' {
            starts_from(s, i + 1, next, parens + 1, brackets, out)
        } else if c == ')' {
            starts_from(s, i + 1, next, ss::up(parens), brackets, out)
        } else if c == '[' {
            starts_from(s, i + 1, next, parens, brackets + 1, out)
        } else if c == ']' {
            starts_from(s, i + 1, next, parens, ss::up(brackets), out)
        } else if c == ',' && parens == 0 && brackets == 0 {
            starts_from(s, i + 1, next, parens, brackets, out.push(i + 1))
        } else {
            starts_from(s, i + 1, next, parens, brackets, out)
        }
    }
}

/// The places where the parts of a list start.
pub open spec fn argument_starts(s: Text) -> Seq<int> {
    starts_from(s, 0, ss::unquoted(), 0, 0, Seq::empty().push(0))
}

/// Whether a statement starts behind the given text: there is nothing but a
/// label in it, or it ends with a semicolon. At the start of a line that goes on
/// with the statement before it none starts.
pub open spec fn starts_statement(left: Text, first: bool) -> bool {
    let before = st::trim(left);
    st::ends_with_char(before, ';') || (first && st::all_digits(before))
}

/// Whether all arguments are those of a type: its kind and its length.
pub open spec fn are_type_parameters(args: Seq<Text>) -> bool {
    &&& args.len() > 0
    &&& forall|k: int|
        0 <= k < args.len() ==> (#[trigger] keyword(args[k]) matches Some(word) && (st::same(
            word,
            "kind"@,
        ) || st::same(word, "len"@)))
}

/// Whether a type can follow the given text: a guard of a type, the types of
/// implicit names or an interface.
pub open spec fn precedes_type(left: Text) -> bool {
    ||| st::after_keywords(left, "type"@, "is"@) is Some
    ||| st::after_keywords(left, "class"@, "is"@) is Some
    ||| st::after_keyword(left, "implicit"@) is Some
    ||| st::after_keyword(left, "procedure"@) is Some
}

/// Whether a name with what stands in parentheses behind it is a type and no
/// call: the name of an intrinsic type with the parameters of a type, at a place
/// for a type, or before a function.
pub open spec fn is_type_spec(left: Text, name: Text, args: Seq<Text>, right: Text) -> bool {
    sn::is_intrinsic_type(name) && (are_type_parameters(args) || precedes_type(left)
        || st::after_keyword(right, "function"@) is Some)
}

/// Whether a name with what stands in parentheses behind it is no call: what a
/// statement starts with is none, and neither is a type. `left` is what stands
/// before the name, `right` what stands behind the parentheses.
pub open spec fn is_no_call(
    left: Text,
    name: Text,
    args: Seq<Text>,
    right: Text,
    first: bool,
) -> bool {
    ||| starts_statement(left, first)
    ||| st::starts_with(st::trim_start(right), "::"@)
    ||| is_type_spec(left, name, args, right)
}

/// The call with a parenthesis at index `i` of a line. `first` says whether the
/// line starts a statement.
pub open spec fn call_at(code: Text, i: int, first: bool) -> Option<Call> {
    let before = st::trim_end(code.take(i));
    let start = st::name_begin(before, before.len() as int);
    let name = before.skip(start);
    match ss::matching_paren_index(code, i) {
        Some(close) => if name.len() == 0 || !st::is_name_start(name[0]) || is_no_call(
            before.take(start),
            name,
            arguments(code.subrange(i + 1, close)),
            code.skip(close + 1),
            first,
        ) {
            None
        } else {
            let inner = code.subrange(i + 1, close);
            let call = Call {
                start,
                end: before.len() as int,
                open: i,
                receiver: None,
                name,
                args: arguments(inner),
                starts: argument_starts(inner),
            };
            match before_name(before.take(start)) {
                Before::Nothing => Some(call),
                Before::Receiver(receiver) => Some(Call { receiver: Some(receiver), ..call }),
                Before::Other => None,
            }
        },
        None => None,
    }
}

/// The calls from index `i` on, behind `out`.
pub open spec fn calls_from(
    code: Text,
    first: bool,
    i: int,
    q: ss::Quotes,
    out: Seq<Call>,
) -> Seq<Call>
    decreases code.len() - i,
{
    if i >= code.len() {
        out
    } else {
        calls_from(
            code,
            first,
            i + 1,
            ss::quote_step(q, code[i]),
            if code[i] == '(' && !ss::quoted(q) {
                match call_at(code, i, first) {
                    Some(call) => out.push(call),
                    None => out,
                }
            } else {
                out
            },
        )
    }
}

/// Whether calls are looked for on a line: it is no directive or comment, and
/// it neither opens nor ends a scope.
pub open spec fn has_calls(line: Text, fixed: bool) -> bool {
    let code = ss::strip_inline_comment(line);
    !(fixed && ssr::is_fixed_comment(line)) && !st::starts_with_char(line, '#')
        && !st::first_ident_is(code, "end"@) && sc::parse_scope_start(code) is None
}

/// The calls of a line.
pub open spec fn line_calls(line: Text, fixed: bool, first: bool) -> Seq<Call> {
    if has_calls(line, fixed) {
        calls_from(ss::strip_inline_comment(line), first, 0, ss::unquoted(), Seq::empty())
    } else {
        Seq::empty()
    }
}

/// Whether a statement in free form goes on behind a line. `open` says whether
/// it does before the line.
pub open spec fn goes_on(open: bool, line: Text) -> bool {
    let code = st::trim_start(line);
    if code.len() == 0 || st::starts_with_char(code, '!') || st::starts_with_char(code, '#') {
        open
    } else {
        st::ends_with_char(st::trim_end(ss::strip_inline_comment(line)), '&')
    }
}

/// Whether a statement in free form goes on behind the first `n` lines.
pub open spec fn is_open(lines: Seq<Text>, n: nat) -> bool
    decreases n,
{
    n > 0 && goes_on(is_open(lines, (n - 1) as nat), lines[n - 1])
}

/// Whether the line `n` starts a statement.
pub open spec fn starts_at(lines: Seq<Text>, fixed: bool, n: int) -> bool {
    if fixed {
        !ssr::is_fixed_continuation(lines[n])
    } else {
        !is_open(lines, n as nat)
    }
}

/// The literal that is open behind a text from index `i` on.
pub open spec fn quotes_behind(s: Text, i: int, q: ss::Quotes) -> ss::Quotes
    decreases s.len() - i,
{
    if i >= s.len() {
        q
    } else {
        quotes_behind(s, i + 1, ss::quote_step(q, s[i]))
    }
}

/// The literal that goes on behind a line in free form. `q` is the one that
/// goes on before it.
pub open spec fn literal_step(q: ss::Quotes, line: Text) -> ss::Quotes {
    let code = st::trim_end(
        if ss::quoted(q) {
            line
        } else {
            ss::strip_inline_comment(line)
        },
    );
    if st::ends_with_char(code, '&') {
        quotes_behind(code, 0, q)
    } else {
        ss::unquoted()
    }
}

/// The literal that goes on behind the first `n` lines.
pub open spec fn literal_behind(lines: Seq<Text>, n: nat) -> ss::Quotes
    decreases n,
{
    if n == 0 {
        ss::unquoted()
    } else {
        literal_step(literal_behind(lines, (n - 1) as nat), lines[n - 1])
    }
}

/// The calls on the line `n` of a file; there are none in a branch that is not
/// active, and none are looked for where a literal of the line before goes on.
pub open spec fn calls_on(ws: Workspace, f: int, lines: Seq<Text>, fixed: bool, n: int) -> Seq<
    Call,
> {
    let defs = pr::predefined_from(ws.macros, 0, Seq::empty());
    if ssr::is_live(ws.sources, ws.index.files[f].path, lines, defs, n) && (fixed || !ss::quoted(
        literal_behind(lines, n as nat),
    )) {
        line_calls(lines[n], fixed, starts_at(lines, fixed, n))
    } else {
        Seq::empty()
    }
}

/// The place of the name of a call.
pub open spec fn call_range(line: Text, number: usize, call: Call) -> Range {
    su::column_range(ss::strip_inline_comment(line), number, call.start, call.end)
}

// ---------------------------------------------------------------------------
// Arguments
// ---------------------------------------------------------------------------

/// The keyword of an argument.
pub open spec fn keyword(arg: Text) -> Option<Text> {
    match ss::top_level_equals(arg) {
        Some(eq) => if st::is_fortran_name(st::trim(arg.take(eq))) && !(eq + 1 < arg.len() && (
        arg[eq + 1] == '=' || arg[eq + 1] == '>')) {
            Some(st::trim(arg.take(eq)))
        } else {
            None
        },
        None => None,
    }
}

/// Whether an argument is the label that a procedure can return to.
pub open spec fn is_label(arg: Text) -> bool {
    match st::strip_char(st::trim(arg), '*') {
        Some(rest) => st::all_digits(st::trim(rest)),
        None => false,
    }
}

/// How many of the arguments from `i` on have no keyword and are no labels, more
/// than `n`.
pub open spec fn positional_from(args: Seq<Text>, i: int, n: nat) -> nat
    decreases args.len() - i,
{
    if i >= args.len() {
        n
    } else {
        positional_from(
            args,
            i + 1,
            if keyword(args[i]) is None && !is_label(args[i]) {
                n + 1
            } else {
                n
            },
        )
    }
}

pub open spec fn positional(args: Seq<Text>) -> nat {
    positional_from(args, 0, 0)
}

/// Whether one of the first `n` arguments has a keyword.
pub open spec fn is_given(args: Seq<Text>, name: Text, n: int) -> bool {
    exists|i: int|
        0 <= i < n && (#[trigger] keyword(args[i]) matches Some(k) && st::same(k, name))
}

/// The first keyword from `i` on that a callee does not have.
pub open spec fn unknown_from(c: Callee, args: Seq<Text>, i: int) -> Option<Text>
    decreases args.len() - i,
{
    if i >= args.len() {
        None
    } else {
        match keyword(args[i]) {
            Some(name) => if sqy::argument_index(c.args, name, 0) is None {
                Some(name)
            } else {
                unknown_from(c, args, i + 1)
            },
            None => unknown_from(c, args, i + 1),
        }
    }
}

/// Whether an argument with a keyword was given before.
pub open spec fn is_repeated(c: Callee, args: Seq<Text>, name: Text, i: int) -> bool {
    is_given(args, name, i) || (sqy::argument_index(c.args, name, 0) matches Some(k) && k
        < positional(args))
}

/// The first keyword from `i` on whose argument was given before.
pub open spec fn repeated_from(c: Callee, args: Seq<Text>, i: int) -> Option<Text>
    decreases args.len() - i,
{
    if i >= args.len() {
        None
    } else {
        match keyword(args[i]) {
            Some(name) => if is_repeated(c, args, name, i) {
                Some(name)
            } else {
                repeated_from(c, args, i + 1)
            },
            None => repeated_from(c, args, i + 1),
        }
    }
}

/// Whether an argument of a callee is there.
pub open spec fn is_there(c: Callee, args: Seq<Text>, name: Text) -> bool {
    is_given(args, name, args.len() as int) || (sqy::argument_index(c.args, name, 0) matches Some(k)
        && k < positional(args))
}

/// The first required argument from `i` on that is not there.
pub open spec fn missing_from(c: Callee, args: Seq<Text>, i: int) -> Option<Text>
    decreases c.required.len() - i,
{
    if i >= c.required.len() {
        None
    } else if is_there(c, args, c.required[i]) {
        missing_from(c, args, i + 1)
    } else {
        Some(c.required[i])
    }
}

/// What is wrong with the arguments for a callee: too many of them, a keyword
/// that it does not have, one that was given before, or one that is not there.
pub open spec fn problem(c: Callee, args: Seq<Text>) -> Option<Text> {
    if positional(args) > c.args.len() {
        Some("has too many positional arguments"@)
    } else {
        match unknown_from(c, args, 0) {
            Some(name) => Some("has no argument named `"@ + name + "`"@),
            None => match repeated_from(c, args, 0) {
                Some(name) => Some("repeats argument `"@ + name + "`"@),
                None => match missing_from(c, args, 0) {
                    Some(name) => Some("is missing required argument `"@ + name + "`"@),
                    None => None,
                },
            },
        }
    }
}

/// The numbers of the callees from `i` on that take the arguments, behind
/// `out`.
pub open spec fn accepting_from(
    list: Seq<Callee>,
    args: Seq<Text>,
    i: int,
    out: Seq<int>,
) -> Seq<int>
    decreases list.len() - i,
{
    if i >= list.len() {
        out
    } else {
        accepting_from(
            list,
            args,
            i + 1,
            if problem(list[i], args) is None {
                out.push(i)
            } else {
                out
            },
        )
    }
}

pub open spec fn accepting(list: Seq<Callee>, args: Seq<Text>) -> Seq<int> {
    accepting_from(list, args, 0, Seq::empty())
}

/// The first callee from `i` on with so many arguments, or else the first of
/// all.
pub open spec fn closest_from(list: Seq<Callee>, n: nat, i: int) -> Callee
    decreases list.len() - i,
{
    if i >= list.len() {
        list[0]
    } else if list[i].args.len() >= n {
        list[i]
    } else {
        closest_from(list, n, i + 1)
    }
}

// ---------------------------------------------------------------------------
// Diagnostics
// ---------------------------------------------------------------------------

/// Intrinsic procedures that take any number of arguments, or whose arguments
/// can be left out: reductions and searches, those that look at the bounds of an
/// array or rearrange it, and those that ask the system.
pub open spec fn lenient_names() -> Text {
    "all any count sum product maxval minval maxloc minloc findloc iall iany iparity parity norm2 reduce max min max0 max1 min0 min1 amax0 amax1 amin0 amin1 dmax1 dmin1 size shape lbound ubound lcobound ucobound cshift eoshift pack unpack spread reshape merge transfer index scan verify associated null atan bessel_jn bessel_yn cmplx dcmplx ishftc selected_real_kind move_alloc date_and_time system_clock random_seed random_init command_argument_count get_command get_command_argument get_environment_variable execute_command_line flush exit signal num_images this_image image_index co_broadcast co_max co_min co_reduce co_sum"@
}

/// Whether an intrinsic procedure takes its arguments in more ways than its
/// entry says.
pub open spec fn is_lenient(name: Text) -> bool {
    st::has_name(st::split_char(lenient_names(), ' '), name)
}

/// Whether a name can stand for more than what is known of it: a generic name
/// can also be that of an intrinsic procedure or one of a module that is used.
pub open spec fn is_open_name(ws: Workspace, f: int, scope: Scope, name: Text) -> bool {
    match sv::resolve(ws, f, scope, name) {
        Some(r) => {
            let s = sg::symbol(ws, r);
            s.kind is Interface && (si::find_from(ws.index.intrinsics, name, 0) is Some
                || !(sv::used_export_from(
                ws.index,
                ws.index.files[r.0].uses,
                s.scope,
                s.name,
                false,
                0,
                sx::Export::No,
            ) is No))
        },
        None => is_lenient(name) || !(sv::known(ws, f, scope, name, false) is No),
    }
}

/// Whether a name is that of a dummy argument of a procedure around a scope.
pub open spec fn is_dummy_of(s: Symbol, scope: Scope, name: Text) -> bool {
    sm::is_procedure_kind(s.kind) && so::is_visible(scope, s.scope.push(s.name)) && st::has_name(
        s.args,
        name,
    )
}

/// Whether one of the symbols stands in a scope and has a name.
pub open spec fn is_declared_in(symbols: Seq<Symbol>, scope: Scope, name: Text) -> bool {
    exists|i: int|
        0 <= i < symbols.len() && st::same_scope((#[trigger] symbols[i]).scope, scope) && st::same(
            symbols[i].name,
            name,
        )
}

/// Whether a name is that of a dummy argument that is not declared.
pub open spec fn is_bare_dummy(symbols: Seq<Symbol>, scope: Scope, name: Text) -> bool {
    exists|i: int|
        0 <= i < symbols.len() && is_dummy_of(#[trigger] symbols[i], scope, name)
            && !is_declared_in(symbols, symbols[i].scope.push(symbols[i].name), name)
}

/// The words of statements that say what a name is without its type.
pub open spec fn attribute_words() -> Seq<Text> {
    st::split_char("dimension external allocatable pointer target codimension contiguous"@, ' ')
}

/// What stands behind the first of the words from `k` on that a statement
/// starts with.
pub open spec fn attributed_from(code: Text, words: Seq<Text>, k: int) -> Option<Text>
    decreases words.len() - k,
{
    if k >= words.len() {
        None
    } else {
        match st::after_keyword(code, words[k]) {
            Some(rest) => Some(rest),
            None => attributed_from(code, words, k + 1),
        }
    }
}

/// Whether one of the parts starts with a name.
pub open spec fn starts_with_name(parts: Seq<Text>, name: Text) -> bool {
    exists|i: int|
        0 <= i < parts.len() && (st::first_ident(#[trigger] parts[i]) matches Some(word)
            && st::same(word, name))
}

/// Whether a statement says what a name is without its type.
pub open spec fn is_attribute_of(code: Text, name: Text) -> bool {
    attributed_from(code, attribute_words(), 0) matches Some(rest) && starts_with_name(
        ss::split_top_level_commas(rest),
        name,
    )
}

/// Whether a statement of a file says what a name is without its type.
pub open spec fn is_attributed(ws: Workspace, f: int, name: Text) -> bool {
    let p = ws.index.files[f];
    let statements = ssr::logical_lines(
        ws.sources,
        p.path,
        p.source,
        pr::predefined_from(ws.macros, 0, Seq::empty()),
    );
    exists|k: int|
        0 <= k < statements.len() && is_attribute_of((#[trigger] statements[k]).1, name)
}

/// Whether a file takes in one that the workspace does not have.
pub open spec fn misses_file(ws: Workspace, f: int) -> bool {
    let list = sw::resolved_of(ws, ws.index.files[f]);
    exists|k: int| 0 <= k < list.len() && !is_read(ws, #[trigger] list[k])
}

/// Whether the workspace has the file that a statement takes in.
pub open spec fn is_read(ws: Workspace, stmt: sm::ResolvedInclude) -> bool {
    stmt.resolved_path matches Some(path) && sw::find_file(ws, path) is Some
}

/// Whether a name stands for something of which only the name is known: an
/// argument that is not declared, or an array or a procedure without a type that
/// hides an intrinsic procedure.
pub open spec fn is_hidden(ws: Workspace, f: int, scope: Scope, name: Text) -> bool {
    ||| is_bare_dummy(ws.index.files[f].symbols, scope, name)
    ||| sv::resolve(ws, f, scope, name) is None && (misses_file(ws, f) || is_attributed(
        ws,
        f,
        name,
    ))
}

/// Whether the arguments of a call are looked at. Those behind the name of a
/// procedure around it are not: the name may stand for its result.
pub open spec fn is_checked(ws: Workspace, f: int, scope: Scope, call: Call) -> bool {
    call.receiver is Some || !st::has_name(scope, call.name) && !is_open_name(
        ws,
        f,
        scope,
        call.name,
    ) && !is_hidden(ws, f, scope, call.name)
}

pub open spec fn bad_call(range: Range, name: Text, problem: Text) -> Diagnostic {
    Diagnostic {
        range,
        severity: DiagnosticSeverity::Error,
        message: "call to `"@ + name + "` "@ + problem,
    }
}

/// The diagnostic for a call on a line.
pub open spec fn call_diagnostic(ws: Workspace, f: int, line: Text, number: usize, call: Call) -> Option<
    Diagnostic,
> {
    let range = call_range(line, number, call);
    let scope = sco::scope_at(ws.index.files[f].symbols, range.start);
    let list = sqy::callees(ws, f, scope, call.receiver, call.name);
    if list.len() == 0 || accepting(list, call.args).len() > 0 || !is_checked(ws, f, scope, call) {
        None
    } else {
        match problem(closest_from(list, call.args.len(), 0), call.args) {
            Some(p) => Some(bad_call(range, call.name, p)),
            None => None,
        }
    }
}

/// The diagnostics for the calls of a line from `j` on, behind `out`.
pub open spec fn line_from(
    ws: Workspace,
    f: int,
    line: Text,
    number: usize,
    calls: Seq<Call>,
    j: int,
    out: Seq<Diagnostic>,
) -> Seq<Diagnostic>
    decreases calls.len() - j,
{
    if j >= calls.len() {
        out
    } else {
        line_from(
            ws,
            f,
            line,
            number,
            calls,
            j + 1,
            match call_diagnostic(ws, f, line, number, calls[j]) {
                Some(d) => out.push(d),
                None => out,
            },
        )
    }
}

/// The diagnostics for the calls of the lines from `n` on, behind `out`.
pub open spec fn lines_from(
    ws: Workspace,
    f: int,
    lines: Seq<Text>,
    fixed: bool,
    n: int,
    out: Seq<Diagnostic>,
) -> Seq<Diagnostic>
    decreases lines.len() - n,
{
    if n >= lines.len() {
        out
    } else {
        lines_from(
            ws,
            f,
            lines,
            fixed,
            n + 1,
            line_from(ws, f, lines[n], n as usize, calls_on(ws, f, lines, fixed, n), 0, out),
        )
    }
}

/// The diagnostics for the calls of a file, behind `out`.
pub open spec fn call_diagnostics(ws: Workspace, f: int, out: Seq<Diagnostic>) -> Seq<Diagnostic> {
    let p = ws.index.files[f];
    lines_from(ws, f, st::lines(p.source), sh::is_fixed_form_path(p.path), 0, out)
}

// ---------------------------------------------------------------------------
// Names of arguments
// ---------------------------------------------------------------------------

/// The hint before the argument `j` of a call.
pub open spec fn hint(line: Text, number: usize, call: Call, c: Callee, j: int) -> InlayHint {
    let code = ss::strip_inline_comment(line);
    let at = st::after_spaces(code, call.open + 1 + call.starts[j]);
    InlayHint {
        position: su::column_range(code, number, at, at).start,
        label: sqy::argument_name(c.args[j]) + ":"@,
    }
}

/// The hints for the arguments of a call from `j` on, behind `out`.
pub open spec fn hints_from(
    line: Text,
    number: usize,
    call: Call,
    c: Callee,
    j: int,
    out: Seq<InlayHint>,
) -> Seq<InlayHint>
    decreases call.args.len() - j,
{
    if j >= call.args.len() || j >= call.starts.len() || j >= c.args.len() || keyword(
        call.args[j],
    ) is Some || is_label(call.args[j]) {
        out
    } else {
        hints_from(line, number, call, c, j + 1, out.push(hint(line, number, call, c, j)))
    }
}

/// The hints for a call that can go to one callee only, behind `out`. There are
/// none where the name can stand for something else.
pub open spec fn call_hints(
    ws: Workspace,
    f: int,
    line: Text,
    number: usize,
    call: Call,
    out: Seq<InlayHint>,
) -> Seq<InlayHint> {
    let scope = sco::scope_at(ws.index.files[f].symbols, call_range(line, number, call).start);
    let list = sqy::callees(ws, f, scope, call.receiver, call.name);
    let fit = accepting(list, call.args);
    if fit.len() == 1 && (call.receiver is Some || !is_hidden(ws, f, scope, call.name)) {
        hints_from(line, number, call, list[fit[0]], 0, out)
    } else {
        out
    }
}

/// The hints for the calls of a line from `j` on, behind `out`.
pub open spec fn line_hints(
    ws: Workspace,
    f: int,
    line: Text,
    number: usize,
    calls: Seq<Call>,
    j: int,
    out: Seq<InlayHint>,
) -> Seq<InlayHint>
    decreases calls.len() - j,
{
    if j >= calls.len() {
        out
    } else {
        line_hints(
            ws,
            f,
            line,
            number,
            calls,
            j + 1,
            call_hints(ws, f, line, number, calls[j], out),
        )
    }
}

/// The hints for the lines from `n` up to `last`, behind `out`.
pub open spec fn hint_lines(
    ws: Workspace,
    f: int,
    lines: Seq<Text>,
    fixed: bool,
    n: int,
    last: int,
    out: Seq<InlayHint>,
) -> Seq<InlayHint>
    decreases lines.len() - n,
{
    if n >= lines.len() || n > last {
        out
    } else {
        hint_lines(
            ws,
            f,
            lines,
            fixed,
            n + 1,
            last,
            line_hints(ws, f, lines[n], n as usize, calls_on(ws, f, lines, fixed, n), 0, out),
        )
    }
}

/// The names of the arguments of the calls between two lines.
pub open spec fn inlay_hints(ws: Workspace, path: Text, first: usize, last: usize) -> Seq<
    InlayHint,
> {
    match sw::find_file(ws, path) {
        Some(f) => {
            let p = ws.index.files[f];
            hint_lines(
                ws,
                f,
                st::lines(p.source),
                sh::is_fixed_form_path(p.path),
                first as int,
                last as int,
                Seq::empty(),
            )
        },
        None => Seq::empty(),
    }
}

} // verus!
