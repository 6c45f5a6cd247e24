//! Preprocessor directives, macros and conditionals.

use vstd::prelude::*;

use crate::model::PreprocessorKind;
use crate::spec::expression as se;
use crate::spec::expression::Definitions;
use crate::spec::model as sm;
use crate::spec::model::Scope;
use crate::spec::scan as ss;
use crate::spec::statement as sp;
use crate::spec::table as sb;
use crate::spec::table::Entries;
use crate::spec::text as st;
use crate::spec::text::Text;

verus! {

// ---------------------------------------------------------------------------
// Directives
// ---------------------------------------------------------------------------

/// A text, unless it is empty.
pub open spec fn some_text(s: Text) -> Option<Text> {
    if s.len() == 0 {
        None
    } else {
        Some(s)
    }
}

/// What stands behind the name of a `#define`. As many bytes are cut off as
/// the name has.
pub open spec fn define_argument(after: Text) -> Option<Text> {
    match st::first_ident(after) {
        Some(name) => match st::get_bytes(after, st::bytes(name) as nat) {
            Some(rest) => some_text(st::trim(rest)),
            None => None,
        },
        None => None,
    }
}

/// What a directive with the given keyword does, the name that it is about,
/// and its argument.
pub open spec fn directive_parts(keyword: Text, after: Text) -> Option<
    (PreprocessorKind, Option<Text>, Option<Text>),
> {
    if keyword == "if"@ {
        Some((PreprocessorKind::If, None, some_text(after)))
    } else if keyword == "ifdef"@ {
        Some((PreprocessorKind::Ifdef, st::first_ident(after), None))
    } else if keyword == "ifndef"@ {
        Some((PreprocessorKind::Ifndef, st::first_ident(after), None))
    } else if keyword == "elif"@ {
        Some((PreprocessorKind::Elif, None, some_text(after)))
    } else if keyword == "else"@ {
        Some((PreprocessorKind::Else, None, None))
    } else if keyword == "endif"@ {
        Some((PreprocessorKind::Endif, None, None))
    } else if keyword == "define"@ {
        Some((PreprocessorKind::Define, st::first_ident(after), define_argument(after)))
    } else if keyword == "undef"@ {
        Some((PreprocessorKind::Undef, st::first_ident(after), None))
    } else if keyword == "include"@ {
        Some((PreprocessorKind::Include, None, sp::quoted_path(after)))
    } else {
        None
    }
}

/// The directive on a line. As many bytes are cut off behind the `#` as the
/// keyword has.
pub open spec fn parse_preprocessor(code: Text, line: usize, file: Text, scope: Scope) -> Option<
    sm::PreprocessorDirective,
> {
    match st::strip_char(st::trim_start(code), '#') {
        Some(tail) => {
            let rest = st::trim_start(tail);
            match st::first_ident(rest) {
                Some(word) => match directive_parts(
                    st::lower(word),
                    st::trim_start(st::skip_bytes(rest, st::bytes(word) as nat)),
                ) {
                    Some((kind, name, argument)) => Some(
                        sm::PreprocessorDirective {
                            kind,
                            name,
                            argument,
                            file,
                            range: sm::on_line(line, 0, st::bytes(code)),
                            scope,
                        },
                    ),
                    None => None,
                },
                None => None,
            }
        },
        None => None,
    }
}

/// Whether the condition of a directive that opens or continues a conditional
/// holds.
pub open spec fn condition_holds(d: sm::PreprocessorDirective, defs: Definitions) -> bool {
    match d.kind {
        PreprocessorKind::If | PreprocessorKind::Elif => match d.argument {
            Some(expr) => se::eval_preprocessor_expr(expr, defs),
            None => false,
        },
        PreprocessorKind::Ifdef => match d.name {
            Some(name) => sb::find(defs, name) is Some,
            None => false,
        },
        PreprocessorKind::Ifndef => match d.name {
            Some(name) => sb::find(defs, name) is None,
            None => false,
        },
        _ => false,
    }
}

// ---------------------------------------------------------------------------
// Macros
// ---------------------------------------------------------------------------

/// What a macro name stands for.
#[verifier::ext_equal]
pub enum MacroDefinition {
    Object(Text),
    Function { params: Seq<Text>, body: Text },
}

/// The macros of macro names.
pub type Macros = Entries<Text, MacroDefinition>;

/// The names of the parameters from `i` on.
pub open spec fn params_from(parts: Seq<Text>, i: int, out: Seq<Text>) -> Seq<Text>
    decreases parts.len() - i,
{
    if i >= parts.len() {
        out
    } else {
        params_from(parts, i + 1, sp::add_name(out, st::first_ident(st::trim(parts[i]))))
    }
}

/// A macro without parameters; one without a value is 1.
pub open spec fn object_macro(value: Text) -> MacroDefinition {
    MacroDefinition::Object(
        if value.len() == 0 {
            "1"@
        } else {
            value
        },
    )
}

/// The macro that a `#define` with the given argument makes.
pub open spec fn macro_definition(argument: Option<Text>) -> MacroDefinition {
    match argument {
        Some(argument) => {
            let t = st::trim(argument);
            match ss::matching_paren_index(t, 0) {
                Some(close) => MacroDefinition::Function {
                    params: params_from(
                        ss::split_top_level_commas(t.subrange(1, close)),
                        0,
                        Seq::empty(),
                    ),
                    body: st::trim(t.skip(close + 1)),
                },
                None => object_macro(t),
            }
        },
        None => MacroDefinition::Object("1"@),
    }
}

/// The text from index `i` on with `replacement` in place of the name
/// `ident`, behind `out`.
pub open spec fn replace_from(
    source: Text,
    ident: Text,
    replacement: Text,
    i: int,
    out: Text,
) -> Text
    decreases source.len() - i,
{
    if i < 0 || i >= source.len() {
        out
    } else {
        let rest = source.skip(i);
        match st::next_name(rest) {
            Some((k, name)) => {
                proof {
                    st::lemma_next_name(rest);
                }
                replace_from(
                    source,
                    ident,
                    replacement,
                    i + k + name.len(),
                    out + rest.take(k) + if name == ident {
                        replacement
                    } else {
                        name
                    },
                )
            },
            None => out + rest,
        }
    }
}

/// A text with `replacement` in place of the name `ident`.
pub open spec fn replace_identifier(source: Text, ident: Text, replacement: Text) -> Text {
    replace_from(source, ident, replacement, 0, Seq::empty())
}

/// The text from index `i` on without the occurrences of `p`, behind `out`.
pub open spec fn without_from(s: Text, p: Text, i: int, out: Text) -> Text
    decreases s.len() - i,
{
    if i >= s.len() {
        out
    } else if st::occurs_at(s, p, i) && p.len() > 0 {
        without_from(s, p, i + p.len(), out)
    } else {
        without_from(s, p, i + 1, out.push(s[i]))
    }
}

/// The body of a macro with the arguments from `i` on in place of the
/// parameters.
pub open spec fn substitute_from(
    params: Seq<Text>,
    args: Seq<Text>,
    i: int,
    body: Text,
) -> Text
    decreases params.len() - i,
{
    if i >= params.len() || i >= args.len() {
        body
    } else {
        substitute_from(
            params,
            args,
            i + 1,
            replace_identifier(body, params[i], st::trim(args[i])),
        )
    }
}

/// A call of a macro with parameters. An empty comment in the body joins what
/// stands around it.
pub open spec fn expand_function_macro(params: Seq<Text>, body: Text, args: Seq<Text>) -> Text {
    without_from(substitute_from(params, args, 0, body), "/**/"@, 0, Seq::empty())
}

/// The line from index `i` on with its macros replaced, behind `out`.
pub open spec fn expand_from(line: Text, macros: Macros, i: int, out: Text) -> Text
    decreases line.len() - i,
{
    if i < 0 || i >= line.len() {
        out
    } else {
        let rest = line.skip(i);
        match st::next_name(rest) {
            Some((k, name)) => {
                let before = out + rest.take(k);
                let end = i + k + name.len();
                proof {
                    st::lemma_next_name(rest);
                    st::lemma_after_spaces(line, end);
                    ss::lemma_matching_paren(line, st::after_spaces(line, end));
                }
                match sb::find(macros, name) {
                    Some(MacroDefinition::Function { params, body }) => {
                        let call = st::after_spaces(line, end);
                        match ss::matching_paren_index(line, call) {
                            Some(close) => expand_from(
                                line,
                                macros,
                                close + 1,
                                before + expand_function_macro(
                                    params,
                                    body,
                                    ss::split_top_level_commas(line.subrange(call + 1, close)),
                                ),
                            ),
                            None => expand_from(line, macros, end, before + name),
                        }
                    },
                    Some(MacroDefinition::Object(value)) => expand_from(
                        line,
                        macros,
                        end,
                        before + value,
                    ),
                    None => expand_from(line, macros, end, before + name),
                }
            },
            None => out + rest,
        }
    }
}

/// A line with each macro in it replaced once.
pub open spec fn expand_macro_once(line: Text, macros: Macros) -> Text {
    expand_from(line, macros, 0, Seq::empty())
}

/// A line with its macros replaced again and again, `n` times at most.
pub open spec fn expand_times(line: Text, macros: Macros, n: nat) -> Text
    decreases n,
{
    let next = expand_macro_once(line, macros);
    if n == 0 || next == line {
        line
    } else {
        expand_times(next, macros, (n - 1) as nat)
    }
}

/// How often the macros of a line are replaced at most.
pub open spec fn expansion_limit() -> nat {
    8
}

/// A line with its macros replaced.
pub open spec fn expand_macros(line: Text, macros: Macros) -> Text {
    expand_times(line, macros, expansion_limit())
}

// ---------------------------------------------------------------------------
// Conditionals that drop lines
// ---------------------------------------------------------------------------

/// An open conditional.
#[verifier::ext_equal]
pub struct FoldFrame {
    pub parent_active: bool,
    pub branch_active: bool,
    pub any_taken: bool,
    pub saw_else: bool,
}

/// The open conditionals, outermost first, and the definitions so far.
#[verifier::ext_equal]
pub struct FoldState {
    pub stack: Seq<FoldFrame>,
    pub definitions: Definitions,
}

/// Whether lines count: each open conditional is in an active branch.
pub open spec fn fold_active(s: FoldState) -> bool {
    forall|i: int| 0 <= i < s.stack.len() ==> (#[trigger] s.stack[i]).branch_active
}

/// The state with another innermost frame.
pub open spec fn set_fold_frame(s: FoldState, f: FoldFrame) -> FoldState {
    FoldState { stack: s.stack.drop_last().push(f), ..s }
}

/// The state behind a directive.
pub open spec fn fold_apply(s: FoldState, d: sm::PreprocessorDirective) -> FoldState {
    match d.kind {
        PreprocessorKind::If | PreprocessorKind::Ifdef | PreprocessorKind::Ifndef => {
            let active = fold_active(s) && condition_holds(d, s.definitions);
            FoldState {
                stack: s.stack.push(
                    FoldFrame {
                        parent_active: fold_active(s),
                        branch_active: active,
                        any_taken: active,
                        saw_else: false,
                    },
                ),
                ..s
            }
        },
        PreprocessorKind::Elif => if s.stack.len() == 0 {
            s
        } else {
            let f = s.stack.last();
            let active = f.parent_active && !f.saw_else && !f.any_taken && condition_holds(
                d,
                s.definitions,
            );
            set_fold_frame(
                s,
                FoldFrame { branch_active: active, any_taken: f.any_taken || active, ..f },
            )
        },
        PreprocessorKind::Else => if s.stack.len() == 0 {
            s
        } else {
            let f = s.stack.last();
            let active = f.parent_active && !f.saw_else && !f.any_taken;
            set_fold_frame(
                s,
                FoldFrame {
                    branch_active: active,
                    any_taken: f.any_taken || active,
                    saw_else: true,
                    ..f
                },
            )
        },
        PreprocessorKind::Endif => if s.stack.len() == 0 {
            s
        } else {
            FoldState { stack: s.stack.drop_last(), ..s }
        },
        PreprocessorKind::Define => match d.name {
            Some(name) => if fold_active(s) {
                FoldState {
                    definitions: sb::insert(
                        s.definitions,
                        name,
                        match d.argument {
                            Some(value) => value,
                            None => "1"@,
                        },
                    ),
                    ..s
                }
            } else {
                s
            },
            None => s,
        },
        PreprocessorKind::Undef => match d.name {
            Some(name) => if fold_active(s) {
                FoldState { definitions: sb::remove(s.definitions, name), ..s }
            } else {
                s
            },
            None => s,
        },
        PreprocessorKind::Include => s,
    }
}

/// A numbered line.
pub type Line = (usize, Text);

/// The directive on a line, as far as dropping lines is concerned.
pub open spec fn fold_directive(line: Line) -> Option<sm::PreprocessorDirective> {
    parse_preprocessor(st::trim(line.1), line.0, "<fold>"@, Seq::empty())
}

/// The directives and the lines that count, from `i` on.
pub open spec fn filter_from(
    lines: Seq<Line>,
    i: int,
    s: FoldState,
    out: Seq<Line>,
) -> Seq<Line>
    decreases lines.len() - i,
{
    if i >= lines.len() {
        out
    } else {
        match fold_directive(lines[i]) {
            Some(d) => filter_from(lines, i + 1, fold_apply(s, d), out.push(lines[i])),
            None => filter_from(
                lines,
                i + 1,
                s,
                if fold_active(s) {
                    out.push(lines[i])
                } else {
                    out
                },
            ),
        }
    }
}

/// The directives and the lines that count.
pub open spec fn filter_inactive(lines: Seq<Line>, predefined: Definitions) -> Seq<Line> {
    filter_from(
        lines,
        0,
        FoldState { stack: Seq::empty(), definitions: predefined },
        Seq::empty(),
    )
}

/// The state behind the lines from `i` on.
pub open spec fn fold_lines(s: FoldState, lines: Seq<Line>, i: int) -> FoldState
    decreases lines.len() - i,
{
    if i >= lines.len() {
        s
    } else {
        fold_lines(
            match fold_directive(lines[i]) {
                Some(d) => fold_apply(s, d),
                None => s,
            },
            lines,
            i + 1,
        )
    }
}

} // verus!
