//! Preprocessor directives, macros and conditionals.

use vstd::prelude::*;
use vstd::slice::slice_subrange;

use crate::expression::eval_preprocessor_expr;
use crate::list::{empty, put, take_last};
use crate::model::{PreprocessorDirective, PreprocessorKind, Range};
use crate::scan::{matching_paren_index, split_top_level_commas};
use crate::spec::preproc as spp;
use crate::spec::scan as ss;
use crate::spec::text as st;
use crate::statement::{ident_text, quoted_path};
use crate::table::Table;
use crate::text::{
    byte_len, chars, copy_texts, first_ident, get_bytes, is_space, is_word, lower, next_name,
    occurs_at, owned, push_chars, push_text, skip, skip_bytes, strip_char, take, text, trim,
    trim_start,
};

verus! {

// ---------------------------------------------------------------------------
// Directives
// ---------------------------------------------------------------------------

/// A text, unless it is empty.
fn some_text(s: &[char]) -> (r: Option<String>)
    ensures
        r.deep_view() == spp::some_text(s@),
{
    if s.len() == 0 {
        None
    } else {
        Some(text(s))
    }
}

/// What stands behind the name of a `#define`.
fn define_argument(after: &[char]) -> (r: Option<String>)
    ensures
        r.deep_view() == spp::define_argument(after@),
{
    match first_ident(after) {
        Some(name) => match get_bytes(after, byte_len(name)) {
            Some(rest) => some_text(trim(rest)),
            None => None,
        },
        None => None,
    }
}

/// What a directive with the given keyword does, the name that it is about,
/// and its argument.
fn directive_parts(keyword: &[char], after: &[char]) -> (r: Option<
    (PreprocessorKind, Option<String>, Option<String>),
>)
    ensures
        r.deep_view() == spp::directive_parts(keyword@, after@),
{
    if is_word(keyword, "if") {
        Some((PreprocessorKind::If, None, some_text(after)))
    } else if is_word(keyword, "ifdef") {
        Some((PreprocessorKind::Ifdef, ident_text(after), None))
    } else if is_word(keyword, "ifndef") {
        Some((PreprocessorKind::Ifndef, ident_text(after), None))
    } else if is_word(keyword, "elif") {
        Some((PreprocessorKind::Elif, None, some_text(after)))
    } else if is_word(keyword, "else") {
        Some((PreprocessorKind::Else, None, None))
    } else if is_word(keyword, "endif") {
        Some((PreprocessorKind::Endif, None, None))
    } else if is_word(keyword, "define") {
        Some((PreprocessorKind::Define, ident_text(after), define_argument(after)))
    } else if is_word(keyword, "undef") {
        Some((PreprocessorKind::Undef, ident_text(after), None))
    } else if is_word(keyword, "include") {
        Some((PreprocessorKind::Include, None, quoted_path(after)))
    } else {
        None
    }
}

/// The directive on a line.
pub fn parse_preprocessor(code: &[char], line: usize, file: &str, scope: &Vec<String>) -> (r:
    Option<PreprocessorDirective>)
    ensures
        r.deep_view() == spp::parse_preprocessor(code@, line, file@, scope.deep_view()),
{
    match strip_char(trim_start(code), '#') {
        Some(tail) => {
            let rest = trim_start(tail);
            match first_ident(rest) {
                Some(word) => {
                    let keyword = lower(word);
                    let after = trim_start(skip_bytes(rest, byte_len(word)));
                    match directive_parts(keyword.as_slice(), after) {
                        Some((kind, name, argument)) => Some(
                            PreprocessorDirective {
                                kind,
                                name,
                                argument,
                                file: owned(file),
                                range: Range::on_line(line, 0, byte_len(code)),
                                scope: copy_texts(scope),
                            },
                        ),
                        None => None,
                    }
                },
                None => None,
            }
        },
        None => None,
    }
}

/// Whether the condition of a directive that opens or continues a conditional
/// holds.
pub fn condition_holds(d: &PreprocessorDirective, defs: &Table<String, String>) -> (r: bool)
    ensures
        r == spp::condition_holds(d.deep_view(), defs.deep_view()),
{
    match d.kind {
        PreprocessorKind::If | PreprocessorKind::Elif => match &d.argument {
            Some(expr) => {
                let e = chars(expr.as_str());
                eval_preprocessor_expr(e.as_slice(), defs)
            },
            None => false,
        },
        PreprocessorKind::Ifdef => match &d.name {
            Some(name) => defs.contains_key(name),
            None => false,
        },
        PreprocessorKind::Ifndef => match &d.name {
            Some(name) => !defs.contains_key(name),
            None => false,
        },
        _ => false,
    }
}

// ---------------------------------------------------------------------------
// Macros
// ---------------------------------------------------------------------------

/// What a macro name stands for.
#[derive(Debug, PartialEq, Eq)]
pub enum MacroDefinition {
    Object(String),
    Function { params: Vec<String>, body: String },
}

impl DeepView for MacroDefinition {
    type V = spp::MacroDefinition;

    open spec fn deep_view(&self) -> spp::MacroDefinition {
        match self {
            MacroDefinition::Object(value) => spp::MacroDefinition::Object(value@),
            MacroDefinition::Function { params, body } => spp::MacroDefinition::Function {
                params: params.deep_view(),
                body: body@,
            },
        }
    }
}

/// The names of the parameters of a macro.
fn macro_params(list: &[char]) -> (r: Vec<String>)
    ensures
        r.deep_view() == spp::params_from(ss::split_top_level_commas(list@), 0, Seq::empty()),
{
    let parts = split_top_level_commas(list);
    let ghost wanted = spp::params_from(ss::split_top_level_commas(list@), 0, Seq::empty());
    let mut out: Vec<String> = empty();
    let mut i: usize = 0;
    while i < parts.len()
        invariant
            i <= parts@.len(),
            wanted == spp::params_from(parts.deep_view(), i as int, out.deep_view()),
        decreases parts@.len() - i,
    {
        let part = chars(parts[i].as_str());
        match ident_text(trim(part.as_slice())) {
            Some(name) => {
                put(&mut out, name);
            },
            None => {
            },
        }
        i = i + 1;
    }
    out
}

/// The macro that a `#define` with the given argument makes.
pub fn macro_definition(argument: &Option<String>) -> (r: MacroDefinition)
    ensures
        r.deep_view() == spp::macro_definition(argument.deep_view()),
{
    match argument {
        Some(argument) => {
            let all = chars(argument.as_str());
            let t = trim(all.as_slice());
            let n: usize = t.len();
            match matching_paren_index(t, 0) {
                Some(close) => MacroDefinition::Function {
                    params: macro_params(slice_subrange(t, 1, close)),
                    body: text(trim(skip(t, close + 1))),
                },
                None => if t.len() == 0 {
                    MacroDefinition::Object(owned("1"))
                } else {
                    MacroDefinition::Object(text(t))
                },
            }
        },
        None => MacroDefinition::Object(owned("1")),
    }
}

/// A text with `replacement` in place of the name `ident`.
pub fn replace_identifier(source: &[char], ident: &str, replacement: &[char]) -> (r: String)
    ensures
        r@ == spp::replace_identifier(source@, ident@, replacement@),
{
    let mut out = String::new();
    let mut i: usize = 0;
    assert(out@ =~= Seq::empty());
    while i < source.len()
        invariant
            i <= source@.len(),
            spp::replace_identifier(source@, ident@, replacement@) == spp::replace_from(
                source@,
                ident@,
                replacement@,
                i as int,
                out@,
            ),
        decreases source@.len() - i,
    {
        let rest = skip(source, i);
        match next_name(rest) {
            Some((k, name)) => {
                proof {
                    st::lemma_next_name(rest@);
                }
                push_chars(&mut out, take(rest, k));
                if is_word(name, ident) {
                    push_chars(&mut out, replacement);
                } else {
                    push_chars(&mut out, name);
                }
                i = i + k + name.len();
            },
            None => {
                push_chars(&mut out, rest);
                return out;
            },
        }
    }
    out
}

/// A text without the occurrences of `word`.
fn without(s: &[char], word: &str) -> (r: String)
    ensures
        r@ == spp::without_from(s@, word@, 0, Seq::empty()),
{
    let p = chars(word);
    let mut out = String::new();
    let mut i: usize = 0;
    assert(out@ =~= Seq::empty());
    while i < s.len()
        invariant
            i <= s@.len(),
            p@ == word@,
            spp::without_from(s@, word@, 0, Seq::empty()) == spp::without_from(
                s@,
                word@,
                i as int,
                out@,
            ),
        decreases s@.len() - i,
    {
        if p.len() > 0 && occurs_at(s, p.as_slice(), i) {
            i = i + p.len();
        } else {
            out.push(s[i]);
            i = i + 1;
        }
    }
    out
}

/// A call of a macro with parameters.
pub fn expand_function_macro(params: &Vec<String>, body: &str, args: &Vec<String>) -> (r: String)
    ensures
        r@ == spp::expand_function_macro(params.deep_view(), body@, args.deep_view()),
{
    let mut expanded = owned(body);
    let mut i: usize = 0;
    while i < params.len() && i < args.len()
        invariant
            i <= params@.len(),
            i <= args@.len(),
            spp::substitute_from(params.deep_view(), args.deep_view(), 0, body@)
                == spp::substitute_from(
                params.deep_view(),
                args.deep_view(),
                i as int,
                expanded@,
            ),
        decreases params@.len() - i,
    {
        let source = chars(expanded.as_str());
        let arg = chars(args[i].as_str());
        expanded = replace_identifier(source.as_slice(), params[i].as_str(), trim(arg.as_slice()));
        i = i + 1;
    }
    let all = chars(expanded.as_str());
    without(all.as_slice(), "/**/")
}

/// The index behind the white space that goes on at `i`.
fn after_spaces(s: &[char], i: usize) -> (r: usize)
    requires
        i <= s@.len(),
    ensures
        r == st::after_spaces(s@, i as int),
        i <= r <= s@.len(),
{
    let mut j: usize = i;
    while j < s.len() && is_space(s[j])
        invariant
            i <= j <= s@.len(),
            st::after_spaces(s@, i as int) == st::after_spaces(s@, j as int),
        decreases s@.len() - j,
    {
        j = j + 1;
    }
    j
}

/// A line with each macro in it replaced once.
pub fn expand_macro_once(line: &[char], macros: &Table<String, MacroDefinition>) -> (r: String)
    ensures
        r@ == spp::expand_macro_once(line@, macros.deep_view()),
{
    let mut out = String::new();
    let mut i: usize = 0;
    assert(out@ =~= Seq::empty());
    while i < line.len()
        invariant
            i <= line@.len(),
            spp::expand_macro_once(line@, macros.deep_view()) == spp::expand_from(
                line@,
                macros.deep_view(),
                i as int,
                out@,
            ),
        decreases line@.len() - i,
    {
        let rest = skip(line, i);
        let (k, name): (usize, &[char]) = match next_name(rest) {
            Some((k, name)) => (k, name),
            None => {
                push_chars(&mut out, rest);
                return out;
            },
        };
        proof {
            st::lemma_next_name(rest@);
        }
        push_chars(&mut out, take(rest, k));
        let end: usize = i + k + name.len();
        let key = text(name);
        match macros.find(&key) {
            Some(MacroDefinition::Function { params, body }) => {
                let call: usize = after_spaces(line, end);
                match matching_paren_index(line, call) {
                    Some(close) => {
                        let args = split_top_level_commas(slice_subrange(line, call + 1, close));
                        let call_text = expand_function_macro(params, body.as_str(), &args);
                        push_text(&mut out, call_text.as_str());
                        i = close + 1;
                    },
                    None => {
                        push_chars(&mut out, name);
                        i = end;
                    },
                }
            },
            Some(MacroDefinition::Object(value)) => {
                push_text(&mut out, value.as_str());
                i = end;
            },
            None => {
                push_chars(&mut out, name);
                i = end;
            },
        }
    }
    out
}

/// A line with its macros replaced.
pub fn expand_macros(line: &[char], macros: &Table<String, MacroDefinition>) -> (r: String)
    ensures
        r@ == spp::expand_macros(line@, macros.deep_view()),
{
    let mut expanded = text(line);
    let mut left: usize = 8;
    while left > 0
        invariant
            spp::expand_macros(line@, macros.deep_view()) == spp::expand_times(
                expanded@,
                macros.deep_view(),
                left as nat,
            ),
        decreases left,
    {
        let current = chars(expanded.as_str());
        let next = expand_macro_once(current.as_slice(), macros);
        if next == expanded {
            return next;
        }
        expanded = next;
        left = left - 1;
    }
    expanded
}

// ---------------------------------------------------------------------------
// Conditionals that drop lines
// ---------------------------------------------------------------------------

/// An open conditional.
#[derive(Debug, Clone, Copy, PartialEq, Eq, Structural)]
pub struct FoldFrame {
    pub parent_active: bool,
    pub branch_active: bool,
    pub any_taken: bool,
    pub saw_else: bool,
}

impl DeepView for FoldFrame {
    type V = spp::FoldFrame;

    open spec fn deep_view(&self) -> spp::FoldFrame {
        spp::FoldFrame {
            parent_active: self.parent_active,
            branch_active: self.branch_active,
            any_taken: self.any_taken,
            saw_else: self.saw_else,
        }
    }
}

/// The open conditionals, outermost first, and the definitions so far.
#[derive(Debug, PartialEq, Eq)]
pub struct FoldPreprocessorState {
    pub stack: Vec<FoldFrame>,
    pub definitions: Table<String, String>,
}

impl DeepView for FoldPreprocessorState {
    type V = spp::FoldState;

    open spec fn deep_view(&self) -> spp::FoldState {
        spp::FoldState {
            stack: self.stack.deep_view(),
            definitions: self.definitions.deep_view(),
        }
    }
}

impl FoldPreprocessorState {
    /// Whether lines count: each open conditional is in an active branch.
    pub fn active(&self) -> (r: bool)
        ensures
            r == spp::fold_active(self.deep_view()),
    {
        let ghost stack = self.deep_view().stack;
        let mut i: usize = 0;
        while i < self.stack.len()
            invariant
                i <= self.stack@.len(),
                stack == self.deep_view().stack,
                forall|k: int| 0 <= k < i ==> (#[trigger] stack[k]).branch_active,
            decreases self.stack@.len() - i,
        {
            if !self.stack[i].branch_active {
                assert(!stack[i as int].branch_active);
                return false;
            }
            i = i + 1;
        }
        true
    }

    /// Puts another frame in the place of the innermost one.
    fn set_frame(&mut self, frame: FoldFrame)
        requires
            old(self).stack@.len() > 0,
        ensures
            final(self).deep_view() == spp::set_fold_frame(
                old(self).deep_view(),
                frame.deep_view(),
            ),
    {
        let _ = take_last(&mut self.stack);
        put(&mut self.stack, frame);
    }

    /// Takes in a directive.
    pub fn apply(&mut self, directive: &PreprocessorDirective)
        ensures
            final(self).deep_view() == spp::fold_apply(
                old(self).deep_view(),
                directive.deep_view(),
            ),
    {
        assert(self.stack.deep_view().len() == self.stack@.len());
        match directive.kind {
            PreprocessorKind::If | PreprocessorKind::Ifdef | PreprocessorKind::Ifndef => {
                let parent_active: bool = self.active();
                let condition: bool = condition_holds(directive, &self.definitions);
                let branch_active: bool = parent_active && condition;
                put(
                    &mut self.stack,
                    FoldFrame {
                        parent_active,
                        branch_active,
                        any_taken: branch_active,
                        saw_else: false,
                    },
                );
            },
            PreprocessorKind::Elif => {
                if self.stack.len() == 0 {
                    return ;
                }
                let mut frame = self.stack[self.stack.len() - 1];
                let condition: bool = condition_holds(directive, &self.definitions);
                frame.branch_active = frame.parent_active && !frame.saw_else && !frame.any_taken
                    && condition;
                frame.any_taken = frame.any_taken || frame.branch_active;
                self.set_frame(frame);
            },
            PreprocessorKind::Else => {
                if self.stack.len() == 0 {
                    return ;
                }
                let mut frame = self.stack[self.stack.len() - 1];
                frame.branch_active = frame.parent_active && !frame.saw_else && !frame.any_taken;
                frame.any_taken = frame.any_taken || frame.branch_active;
                frame.saw_else = true;
                self.set_frame(frame);
            },
            PreprocessorKind::Endif => {
                let _ = take_last(&mut self.stack);
            },
            PreprocessorKind::Define => {
                if let Some(name) = &directive.name {
                    if self.active() {
                        let value = match &directive.argument {
                            Some(value) => value.clone(),
                            None => owned("1"),
                        };
                        self.definitions.insert(name.clone(), value);
                    }
                }
            },
            PreprocessorKind::Undef => {
                if let Some(name) = &directive.name {
                    if self.active() {
                        self.definitions.remove(name);
                    }
                }
            },
            PreprocessorKind::Include => {
            },
        }
    }

    /// Takes in the directives among lines.
    pub fn apply_lines(&mut self, lines: &Vec<(usize, String)>)
        ensures
            final(self).deep_view() == spp::fold_lines(
                old(self).deep_view(),
                lines.deep_view(),
                0,
            ),
    {
        let ghost all = lines.deep_view();
        let nowhere: Vec<String> = empty();
        let mut i: usize = 0;
        while i < lines.len()
            invariant
                i <= lines@.len(),
                all == lines.deep_view(),
                nowhere.deep_view() == Seq::<st::Text>::empty(),
                spp::fold_lines(old(self).deep_view(), all, 0) == spp::fold_lines(
                    self.deep_view(),
                    all,
                    i as int,
                ),
            decreases lines@.len() - i,
        {
            let line = chars(lines[i].1.as_str());
            assert(all[i as int] == (lines@[i as int].0, line@));
            if let Some(directive) = parse_preprocessor(
                trim(line.as_slice()),
                lines[i].0,
                "<fold>",
                &nowhere,
            ) {
                self.apply(&directive);
            }
            i = i + 1;
        }
    }
}

/// The directives and the lines that count.
pub fn filter_inactive_preprocessor_lines(
    lines: &Vec<(usize, String)>,
    predefined: &Table<String, String>,
) -> (r: Vec<(usize, String)>)
    ensures
        r.deep_view() == spp::filter_inactive(lines.deep_view(), predefined.deep_view()),
{
    let mut out: Vec<(usize, String)> = empty();
    let mut state = FoldPreprocessorState { stack: empty(), definitions: predefined.clone() };
    let nowhere: Vec<String> = empty();
    let mut i: usize = 0;
    while i < lines.len()
        invariant
            i <= lines@.len(),
            nowhere.deep_view() == Seq::<st::Text>::empty(),
            spp::filter_inactive(lines.deep_view(), predefined.deep_view()) == spp::filter_from(
                lines.deep_view(),
                i as int,
                state.deep_view(),
                out.deep_view(),
            ),
        decreases lines@.len() - i,
    {
        let line = chars(lines[i].1.as_str());
        assert(lines.deep_view()[i as int] == (lines@[i as int].0, line@));
        match parse_preprocessor(trim(line.as_slice()), lines[i].0, "<fold>", &nowhere) {
            Some(directive) => {
                state.apply(&directive);
                put(&mut out, (lines[i].0, lines[i].1.clone()));
            },
            None => {
                if state.active() {
                    put(&mut out, (lines[i].0, lines[i].1.clone()));
                }
            },
        }
        i = i + 1;
    }
    out
}

} // verus!
