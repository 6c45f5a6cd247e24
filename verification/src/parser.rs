//! Reading a source file statement by statement.

use vstd::prelude::*;

use crate::declaration::{
    has_intent_attribute, legacy_symbol, parse_common, parse_enumerators, parse_equivalence,
    parse_module_procedure_prototypes, parse_namelist, parse_statement_function_lhs,
    parse_variables,
};
use crate::masking::{duplicate_diagnostics, masking_diagnostics};
use crate::outline::is_visible;
use crate::path::{holds_path, same_path};
use crate::scan::{split_statement_line, strip_inline_comment};
use crate::list::{empty, put, put_all, take_last};
use crate::model::{
    Diagnostic, DiagnosticSeverity, IncludeStmt, ParsedFile, Position, PreprocessorDirective,
    PreprocessorKind, PreprocessorRegion, Range, Symbol, SymbolKind, Visibility, VisibilityStmt,
};
use crate::preproc::{
    MacroDefinition, condition_holds, expand_macros, macro_definition, parse_preprocessor,
};
use crate::scope::{ScopeStart, construct_label, parse_result_name, parse_scope_start};
use crate::source::{SourceFile, contains_text, logical_lines, resolve, source_lines};
use crate::spec::model as sm;
use crate::spec::outline as so;
use crate::spec::parser as pr;
use crate::spec::source as ssr;
use crate::spec::text as st;
use crate::statement::{
    args_of, end_kind, end_statement, implicit_none_statement, is_assignment, parse_doc_comment,
    parse_generic_binding, parse_import, parse_include, parse_use, parse_visibility, span,
};
use crate::table::Table;
use crate::text::{
    after_keyword, after_word, chars, copy_texts, decimal, eq_texts, first_ident, first_word,
    has_keyword, has_name, is_blank, is_word, join, line, lower, lower_text, no_text, owned,
    push_text, same_text, starts_with, starts_with_word, sum, text, trim, trim_end, trim_start,
    utf16_column_of, utf16_len,
};

verus! {

// ---------------------------------------------------------------------------
// State
// ---------------------------------------------------------------------------

/// An open scope.
#[derive(Debug, PartialEq, Eq)]
pub struct ScopeFrame {
    pub name: String,
    pub kind: SymbolKind,
    pub symbol_idx: usize,
    pub default_visibility: Visibility,
    pub implicit_line: Option<usize>,
    pub implicit_none: bool,
    pub use_after_implicit: bool,
    pub contains_line: Option<usize>,
    pub declared_variables: Vec<String>,
    pub seen_executable: bool,
}

impl DeepView for ScopeFrame {
    type V = pr::ScopeFrame;

    open spec fn deep_view(&self) -> pr::ScopeFrame {
        pr::ScopeFrame {
            name: self.name@,
            kind: self.kind,
            symbol_idx: self.symbol_idx,
            default_visibility: self.default_visibility,
            implicit_line: self.implicit_line,
            implicit_none: self.implicit_none,
            use_after_implicit: self.use_after_implicit,
            contains_line: self.contains_line,
            declared_variables: self.declared_variables.deep_view(),
            seen_executable: self.seen_executable,
        }
    }
}

/// An open preprocessor conditional.
#[derive(Debug, Clone, Copy, PartialEq, Eq, Structural)]
pub struct PreprocessorFrame {
    pub start: Position,
    pub range: Range,
    pub saw_else: bool,
    pub parent_active: bool,
    pub branch_active: bool,
    pub any_taken: bool,
}

impl DeepView for PreprocessorFrame {
    type V = PreprocessorFrame;

    #[verifier::inline]
    open spec fn deep_view(&self) -> PreprocessorFrame {
        *self
    }
}

/// What is known at a point of a source file.
pub struct Parser {
    pub parsed: ParsedFile,
    pub scopes: Vec<ScopeFrame>,
    pub pending_doc: Vec<String>,
    pub default_visibility: Table<Vec<String>, Visibility>,
    pub explicit_visibility: Table<(Vec<String>, String), Visibility>,
    pub preprocessor_stack: Vec<PreprocessorFrame>,
    pub macros: Table<String, MacroDefinition>,
    pub pending_legacy: Vec<Symbol>,
}

impl DeepView for Parser {
    type V = pr::State;

    open spec fn deep_view(&self) -> pr::State {
        pr::State {
            parsed: self.parsed.deep_view(),
            scopes: self.scopes.deep_view(),
            pending_doc: self.pending_doc.deep_view(),
            default_visibility: self.default_visibility.deep_view(),
            explicit_visibility: self.explicit_visibility.deep_view(),
            preprocessor_stack: self.preprocessor_stack.deep_view(),
            macros: self.macros.deep_view(),
            pending_legacy: self.pending_legacy.deep_view(),
        }
    }
}

/// The line with number `n`, counted from 0; an empty one if there is none.
pub fn source_line(source: &str, n: usize) -> (r: Vec<char>)
    ensures
        r@ == st::line(source@, n as int),
{
    let all = chars(source);
    line(all.as_slice(), n)
}

/// The end of a line of a text.
pub fn line_end(source: &str, line: usize) -> (r: Position)
    ensures
        r == pr::line_end(source@, line),
{
    let code = source_line(source, line);
    Position::new(line, utf16_len(code.as_slice()))
}

/// The end of a text.
pub fn source_end(source: &str) -> (r: Position)
    ensures
        r == pr::source_end(source@),
{
    let all = source_lines(source);
    assert(all.deep_view().len() == all@.len());
    if all.len() == 0 {
        return Position::new(0, 0);
    }
    let last = chars(all[all.len() - 1].as_str());
    Position::new(all.len() - 1, utf16_len(last.as_slice()))
}

/// The line of the `implicit` statement of a scope with a `use` behind it.
fn use_after_implicit_line(f: &ScopeFrame) -> (r: Option<usize>)
    ensures
        r == pr::use_after_implicit_line(f.deep_view()),
{
    if f.use_after_implicit {
        f.implicit_line
    } else {
        None
    }
}

/// Whether procedures can stand in a scope of a kind only behind `contains`.
fn needs_contains(kind: SymbolKind) -> (r: bool)
    ensures
        r == pr::needs_contains(kind),
{
    kind == SymbolKind::Module || kind == SymbolKind::Submodule || kind.is_procedure()
}

/// The kind of scope that an `end` statement ends.
fn end_target(lower: &[char]) -> (r: Option<Option<SymbolKind>>)
    ensures
        r == pr::end_target(lower@),
{
    if is_word(lower, "end") {
        Some(None)
    } else if starts_with_word(lower, "end block data") || starts_with_word(
        lower,
        "end blockdata",
    ) {
        Some(Some(SymbolKind::Program))
    } else {
        match end_kind(first_word(after_word(lower))) {
            Some(kind) => Some(Some(kind)),
            None => None,
        }
    }
}

/// The remark about an `end` without a scope to end.
fn unmatched_end_message(target: Option<SymbolKind>) -> (r: String)
    ensures
        r@ == pr::unmatched_end_message(target),
{
    match target {
        Some(kind) => {
            let mut message = owned("end statement has no matching ");
            push_text(&mut message, kind.label());
            push_text(&mut message, " scope");
            message
        },
        None => owned("end statement has no matching scope"),
    }
}

/// The name of a scope; a construct without a label is named after its line.
fn scope_name(code: &[char], line: usize, start: &ScopeStart) -> (r: String)
    ensures
        r@ == pr::scope_name(code@, line, start.deep_view()),
{
    if start.kind.is_construct() && construct_label(trim(code)).is_none() {
        let mut name = start.name.clone();
        push_text(&mut name, "@");
        push_text(&mut name, decimal(sum(line, 1)).as_str());
        name
    } else {
        start.name.clone()
    }
}

/// The place of a name on a line, in UTF-16 columns.
fn name_range(code: &[char], line: usize, name: &str) -> (r: Range)
    ensures
        r == pr::name_range(code@, line, name@),
{
    let wanted = chars(name);
    span(line, utf16_column_of(code, wanted.as_slice()), utf16_len(wanted.as_slice()))
}

/// The name that an `associate` construct defines.
fn associate_symbol(
    code: &[char],
    line: usize,
    file: &str,
    scope: &Vec<String>,
    name: &String,
) -> (r: Symbol)
    ensures
        r.deep_view() == pr::associate_symbol(code@, line, file@, scope.deep_view(), name@),
{
    let range = name_range(code, line, name.as_str());
    let mut signature = owned("associate :: ");
    push_text(&mut signature, name.as_str());
    Symbol::bare(name.clone(), SymbolKind::Variable, file, range, range, scope, signature)
}

/// The remark about a name that has an intent but is no argument.
fn intent_diagnostic(var: &Symbol) -> (r: Diagnostic)
    ensures
        r.deep_view() == pr::intent_diagnostic(var.deep_view()),
{
    let mut message = owned("Variable \"");
    push_text(&mut message, var.name.as_str());
    push_text(&mut message, "\" with INTENT keyword not found in argument list");
    Diagnostic { range: var.range, severity: DiagnosticSeverity::Error, message }
}

impl Parser {
    /// A parser at the start of a source file.
    pub fn with_defines(path: &str, source: &str, defines: &[(String, String)]) -> (r: Parser)
        ensures
            r.deep_view() == pr::initial(path@, source@, defines.deep_view()),
    {
        let mut definitions: Table<String, String> = Table::new();
        let mut macros: Table<String, MacroDefinition> = Table::new();
        let ghost all = defines.deep_view();
        let mut i: usize = 0;
        while i < defines.len()
            invariant
                i <= defines@.len(),
                all == defines.deep_view(),
                pr::predefined_from(all, 0, Seq::empty()) == pr::predefined_from(
                    all,
                    i as int,
                    definitions.deep_view(),
                ),
                pr::predefined_macros_from(all, 0, Seq::empty()) == pr::predefined_macros_from(
                    all,
                    i as int,
                    macros.deep_view(),
                ),
            decreases defines@.len() - i,
        {
            assert(all[i as int] == defines@[i as int].deep_view());
            let given = chars(defines[i].1.as_str());
            let value = if given.len() == 0 {
                owned("1")
            } else {
                defines[i].1.clone()
            };
            definitions.insert(defines[i].0.clone(), value.clone());
            macros.insert(defines[i].0.clone(), MacroDefinition::Object(value));
            i = i + 1;
        }
        Parser {
            parsed: ParsedFile {
                path: owned(path),
                source: owned(source),
                symbols: empty(),
                uses: empty(),
                imports: empty(),
                generic_bindings: empty(),
                includes: empty(),
                preprocessor: empty(),
                preprocessor_regions: empty(),
                preprocessor_definitions: definitions,
                visibility: empty(),
                diagnostics: empty(),
            },
            scopes: empty(),
            pending_doc: empty(),
            default_visibility: Table::new(),
            explicit_visibility: Table::new(),
            preprocessor_stack: empty(),
            macros,
            pending_legacy: empty(),
        }
    }

    // -----------------------------------------------------------------------
    // Small steps
    // -----------------------------------------------------------------------
    /// The names of the open scopes, outermost first.
    pub fn current_scope(&self) -> (r: Vec<String>)
        ensures
            r.deep_view() == pr::current_scope(self.deep_view().scopes),
    {
        let ghost wanted = pr::current_scope(self.deep_view().scopes);
        let mut out: Vec<String> = empty();
        let mut i: usize = 0;
        while i < self.scopes.len()
            invariant
                i <= self.scopes@.len(),
                wanted == pr::current_scope(self.deep_view().scopes),
                out.deep_view() =~= wanted.take(i as int),
            decreases self.scopes@.len() - i,
        {
            put(&mut out, self.scopes[i].name.clone());
            i = i + 1;
        }
        assert(wanted.take(i as int) =~= wanted);
        out
    }

    /// Takes the innermost scope off.
    fn pop_frame(&mut self) -> (r: ScopeFrame)
        requires
            old(self).scopes@.len() > 0,
        ensures
            r.deep_view() == old(self).deep_view().scopes.last(),
            final(self).deep_view() == (pr::State {
                scopes: old(self).deep_view().scopes.drop_last(),
                ..old(self).deep_view()
            }),
    {
        let frame = self.scopes.pop();
        assert(self.scopes.deep_view() =~= old(self).scopes.deep_view().drop_last());
        frame.unwrap()
    }

    fn push_diagnostic(&mut self, d: Diagnostic)
        ensures
            final(self).deep_view() == pr::push_diagnostic(old(self).deep_view(), d.deep_view()),
    {
        put(&mut self.parsed.diagnostics, d);
    }

    fn push_region(&mut self, region: PreprocessorRegion)
        ensures
            final(self).deep_view() == pr::push_region(old(self).deep_view(), region),
    {
        put(&mut self.parsed.preprocessor_regions, region);
    }

    fn add_symbols(&mut self, symbols: Vec<Symbol>)
        ensures
            final(self).deep_view() == pr::add_symbols(
                old(self).deep_view(),
                symbols.deep_view(),
            ),
    {
        put_all(&mut self.parsed.symbols, symbols);
    }

    fn push_symbol(&mut self, symbol: Symbol)
        ensures
            final(self).deep_view() == pr::push_symbol(old(self).deep_view(), symbol.deep_view()),
    {
        put(&mut self.parsed.symbols, symbol);
    }

    /// Makes a remark about all of a statement.
    fn statement_diagnostic(&mut self, line: usize, code: &[char], message: &str)
        ensures
            final(self).deep_view() == pr::statement_diagnostic(
                old(self).deep_view(),
                line,
                code@,
                message@,
            ),
    {
        self.push_diagnostic(
            Diagnostic {
                range: Range::on_line(line, 0, utf16_len(code)),
                severity: DiagnosticSeverity::Error,
                message: owned(message),
            },
        );
    }

    /// Makes the symbol `idx` reach to `end`.
    fn set_symbol_end(&mut self, idx: usize, end: Position)
        ensures
            final(self).deep_view() == pr::set_symbol_end(old(self).deep_view(), idx, end),
    {
        assert(self.parsed.symbols.deep_view().len() == self.parsed.symbols@.len());
        if idx < self.parsed.symbols.len() {
            let mut symbol = self.parsed.symbols[idx].clone();
            symbol.range.end = end;
            self.parsed.symbols.set(idx, symbol);
            assert(self.parsed.symbols.deep_view() =~= old(
                self,
            ).parsed.symbols.deep_view().update(idx as int, symbol.deep_view()));
        }
    }

    /// Whether one of the open scopes is an interface.
    fn in_interface_scope(&self) -> (r: bool)
        ensures
            r == pr::in_interface_scope(self.deep_view().scopes),
    {
        let ghost scopes = self.deep_view().scopes;
        let mut i: usize = 0;
        while i < self.scopes.len()
            invariant
                i <= self.scopes@.len(),
                scopes == self.deep_view().scopes,
                forall|k: int| 0 <= k < i ==> !((#[trigger] scopes[k]).kind is Interface),
            decreases self.scopes@.len() - i,
        {
            assert(scopes[i as int] == self.scopes@[i as int].deep_view());
            if self.scopes[i].kind == SymbolKind::Interface {
                return true;
            }
            i = i + 1;
        }
        false
    }

    /// Whether the innermost scope is a derived type behind its `contains`.
    fn in_type_binding_part(&self) -> (r: bool)
        ensures
            r == pr::in_type_binding_part(self.deep_view().scopes),
    {
        let n: usize = self.scopes.len();
        assert(self.deep_view().scopes.len() == n);
        if n == 0 {
            return false;
        }
        let frame = &self.scopes[n - 1];
        assert(self.deep_view().scopes.last() == frame.deep_view());
        frame.kind == SymbolKind::Type && frame.contains_line.is_some()
    }

    fn mark_executable_statement(&mut self)
        ensures
            final(self).deep_view() == pr::mark_executable_statement(old(self).deep_view()),
    {
        assert(self.deep_view().scopes.len() == self.scopes@.len());
        if self.scopes.len() > 0 {
            let mut frame = self.pop_frame();
            frame.seen_executable = true;
            put(&mut self.scopes, frame);
        }
    }

    fn mark_implicit_statement(&mut self, line: usize, code: &[char])
        ensures
            final(self).deep_view() == pr::mark_implicit_statement(
                old(self).deep_view(),
                line,
                code@,
            ),
    {
        assert(self.deep_view().scopes.len() == self.scopes@.len());
        if self.scopes.len() == 0 {
            self.statement_diagnostic(line, code, "IMPLICIT statement without enclosing scope");
            return ;
        }
        let mut frame = self.pop_frame();
        if frame.implicit_line.is_none() {
            frame.implicit_line = Some(line);
        }
        frame.implicit_none = implicit_none_statement(code);
        put(&mut self.scopes, frame);
    }

    fn mark_use_statement(&mut self, line: usize)
        ensures
            final(self).deep_view() == pr::mark_use_statement(old(self).deep_view(), line),
    {
        let n: usize = self.scopes.len();
        assert(self.deep_view().scopes.len() == n);
        if n == 0 {
            return ;
        }
        assert(self.deep_view().scopes.last() == self.scopes@[n - 1].deep_view());
        let late: bool = match self.scopes[n - 1].implicit_line {
            Some(first) => line >= first,
            None => false,
        };
        if late {
            let mut frame = self.pop_frame();
            frame.use_after_implicit = true;
            put(&mut self.scopes, frame);
        }
    }

    fn mark_contains_statement(&mut self, line: usize, code: &[char])
        ensures
            final(self).deep_view() == pr::mark_contains_statement(
                old(self).deep_view(),
                line,
                code@,
            ),
    {
        let n: usize = self.scopes.len();
        assert(self.deep_view().scopes.len() == n);
        if n == 0 {
            self.statement_diagnostic(line, code, "CONTAINS statement without enclosing scope");
            return ;
        }
        assert(self.deep_view().scopes.last() == self.scopes@[n - 1].deep_view());
        if self.scopes[n - 1].contains_line.is_some() {
            self.statement_diagnostic(line, code, "Multiple CONTAINS statements in scope");
            return ;
        }
        let mut frame = self.pop_frame();
        frame.contains_line = Some(line);
        put(&mut self.scopes, frame);
    }

    fn diagnose_scope_before_contains(&mut self, line: usize, kind: SymbolKind)
        ensures
            final(self).deep_view() == pr::diagnose_scope_before_contains(
                old(self).deep_view(),
                line,
                kind,
            ),
    {
        let n: usize = self.scopes.len();
        assert(self.deep_view().scopes.len() == n);
        if !kind.is_procedure() || n == 0 {
            return ;
        }
        assert(self.deep_view().scopes.last() == self.scopes@[n - 1].deep_view());
        if needs_contains(self.scopes[n - 1].kind) && self.scopes[n - 1].contains_line.is_none() {
            let code = source_line(self.parsed.source.as_str(), line);
            self.statement_diagnostic(
                line,
                code.as_slice(),
                "Subroutine/Function definition before CONTAINS statement",
            );
        }
    }

    fn use_after_implicit_diagnostic(&mut self, line: usize)
        ensures
            final(self).deep_view() == pr::use_after_implicit_diagnostic(
                old(self).deep_view(),
                line,
            ),
    {
        let all = source_lines(self.parsed.source.as_str());
        assert(all.deep_view().len() == all@.len());
        let code = if line < all.len() {
            chars(all[line].as_str())
        } else {
            chars("implicit")
        };
        self.statement_diagnostic(
            line,
            code.as_slice(),
            "USE statements after IMPLICIT statement",
        );
    }

    // -----------------------------------------------------------------------
    // Declared names
    // -----------------------------------------------------------------------
    /// Makes the remarks about names that have an intent but are no
    /// arguments.
    fn add_intent_diagnostics(&mut self, vars: &Vec<Symbol>, args: &Vec<String>)
        ensures
            final(self).deep_view() == pr::set_parsed(
                old(self).deep_view(),
                (sm::ParsedFile {
                    diagnostics: pr::intent_diagnostics_from(
                        vars.deep_view(),
                        args.deep_view(),
                        0,
                        old(self).deep_view().parsed.diagnostics,
                    ),
                    ..old(self).deep_view().parsed
                }),
            ),
    {
        let ghost before = self.deep_view();
        let names = args.as_slice();
        assert(names.deep_view() =~= args.deep_view());
        let ghost wanted = pr::intent_diagnostics_from(
            vars.deep_view(),
            args.deep_view(),
            0,
            before.parsed.diagnostics,
        );
        let mut i: usize = 0;
        while i < vars.len()
            invariant
                i <= vars@.len(),
                names.deep_view() == args.deep_view(),
                self.deep_view() == pr::set_parsed(
                    before,
                    (sm::ParsedFile {
                        diagnostics: self.deep_view().parsed.diagnostics,
                        ..before.parsed
                    }),
                ),
                wanted == pr::intent_diagnostics_from(
                    vars.deep_view(),
                    args.deep_view(),
                    i as int,
                    self.deep_view().parsed.diagnostics,
                ),
            decreases vars@.len() - i,
        {
            assert(vars.deep_view()[i as int] == vars@[i as int].deep_view());
            if has_intent_attribute(&vars[i]) && !has_name(names, vars[i].name.as_str()) {
                self.push_diagnostic(intent_diagnostic(&vars[i]));
            }
            i = i + 1;
        }
    }

    fn record_variable_declarations(&mut self, vars: &Vec<Symbol>)
        ensures
            final(self).deep_view() == pr::record_variable_declarations(
                old(self).deep_view(),
                vars.deep_view(),
            ),
    {
        let ghost before = self.deep_view();
        assert(self.deep_view().scopes.len() == self.scopes@.len());
        assert(self.parsed.symbols.deep_view().len() == self.parsed.symbols@.len());
        if self.scopes.len() == 0 {
            return ;
        }
        let mut frame = self.pop_frame();
        let ghost old_frame = frame.deep_view();
        let kind = frame.kind;
        let args: Vec<String> = if frame.symbol_idx < self.parsed.symbols.len() {
            copy_texts(&self.parsed.symbols[frame.symbol_idx].args)
        } else {
            empty()
        };
        assert(args.deep_view() == pr::frame_args(before, old_frame));
        let ghost wanted = pr::declare_from(vars.deep_view(), 0, old_frame.declared_variables);
        let mut i: usize = 0;
        while i < vars.len()
            invariant
                i <= vars@.len(),
                frame.deep_view() == (pr::ScopeFrame {
                    declared_variables: frame.deep_view().declared_variables,
                    ..old_frame
                }),
                wanted == pr::declare_from(
                    vars.deep_view(),
                    i as int,
                    frame.deep_view().declared_variables,
                ),
            decreases vars@.len() - i,
        {
            assert(vars.deep_view()[i as int] == vars@[i as int].deep_view());
            put(&mut frame.declared_variables, lower_text(vars[i].name.as_str()));
            i = i + 1;
        }
        put(&mut self.scopes, frame);
        if kind.is_procedure() {
            self.add_intent_diagnostics(vars, &args);
        }
    }

    /// Whether names need declarations in a scope.
    fn effective_implicit_none(&self, frame: &ScopeFrame) -> (r: bool)
        ensures
            r == pr::effective_implicit_none(self.deep_view().scopes, frame.deep_view()),
    {
        if frame.implicit_none {
            return true;
        }
        let ghost scopes = self.deep_view().scopes;
        let mut i: usize = 0;
        while i < self.scopes.len()
            invariant
                i <= self.scopes@.len(),
                scopes == self.deep_view().scopes,
                forall|k: int| 0 <= k < i ==> !(#[trigger] scopes[k]).implicit_none,
            decreases self.scopes@.len() - i,
        {
            assert(scopes[i as int] == self.scopes@[i as int].deep_view());
            if self.scopes[i].implicit_none {
                return true;
            }
            i = i + 1;
        }
        false
    }

    /// The names in `declared` and those of the procedures that an interface in
    /// a scope describes.
    fn described(&self, scope: &Vec<String>, declared: &Vec<String>) -> (r: Vec<String>)
        ensures
            r.deep_view() == pr::described_from(
                self.deep_view().parsed.symbols,
                scope.deep_view(),
                0,
                declared.deep_view(),
            ),
    {
        let ghost symbols = self.deep_view().parsed.symbols;
        let mut out = copy_texts(declared);
        let mut i: usize = 0;
        while i < self.parsed.symbols.len()
            invariant
                i <= self.parsed.symbols@.len(),
                symbols == self.deep_view().parsed.symbols,
                pr::described_from(symbols, scope.deep_view(), 0, declared.deep_view())
                    == pr::described_from(
                    symbols,
                    scope.deep_view(),
                    i as int,
                    out.deep_view(),
                ),
            decreases self.parsed.symbols@.len() - i,
        {
            let s = &self.parsed.symbols[i];
            assert(symbols[i as int] == s.deep_view());
            let n: usize = s.scope.len();
            assert(s.scope.deep_view().len() == n);
            assert(scope.deep_view().len() == scope@.len());
            if s.kind.is_procedure() && n > 0 && n - 1 == scope.len() {
                let mut outer = copy_texts(&s.scope);
                let _ = take_last(&mut outer);
                assert(outer.deep_view() =~= s.scope.deep_view().drop_last());
                if eq_texts(&outer, scope) {
                    put(&mut out, lower_text(s.name.as_str()));
                }
            }
            i = i + 1;
        }
        out
    }

    fn add_argument_diagnostics(&mut self, frame: &ScopeFrame)
        ensures
            final(self).deep_view() == pr::add_argument_diagnostics(
                old(self).deep_view(),
                frame.deep_view(),
            ),
    {
        let ghost before = self.deep_view();
        assert(self.parsed.symbols.deep_view().len() == self.parsed.symbols@.len());
        if !frame.kind.is_procedure() || !self.effective_implicit_none(frame) || frame.symbol_idx
            >= self.parsed.symbols.len() {
            return ;
        }
        let args = copy_texts(&self.parsed.symbols[frame.symbol_idx].args);
        let range = self.parsed.symbols[frame.symbol_idx].selection_range;
        assert(before.parsed.symbols[frame.symbol_idx as int]
            == self.parsed.symbols@[frame.symbol_idx as int].deep_view());
        let mut inner = copy_texts(&self.parsed.symbols[frame.symbol_idx].scope);
        put(&mut inner, self.parsed.symbols[frame.symbol_idx].name.clone());
        let known = self.described(&inner, &frame.declared_variables);
        let ghost declared = known.deep_view();
        let ghost wanted = pr::missing_args_from(
            args.deep_view(),
            declared,
            range,
            0,
            before.parsed.diagnostics,
        );
        let mut i: usize = 0;
        while i < args.len()
            invariant
                i <= args@.len(),
                declared == known.deep_view(),
                self.deep_view() == pr::set_parsed(
                    before,
                    (sm::ParsedFile {
                        diagnostics: self.deep_view().parsed.diagnostics,
                        ..before.parsed
                    }),
                ),
                wanted == pr::missing_args_from(
                    args.deep_view(),
                    declared,
                    range,
                    i as int,
                    self.deep_view().parsed.diagnostics,
                ),
            decreases args@.len() - i,
        {
            let key = lower_text(args[i].as_str());
            if !contains_text(&known, &key) {
                let mut message = owned("No matching declaration found for argument \"");
                push_text(&mut message, args[i].as_str());
                push_text(&mut message, "\"");
                self.push_diagnostic(
                    Diagnostic { range, severity: DiagnosticSeverity::Error, message },
                );
            }
            i = i + 1;
        }
    }

    // -----------------------------------------------------------------------
    // Opening and closing scopes
    // -----------------------------------------------------------------------
    /// The documentation that has gathered before a scope.
    fn take_pending_doc(&mut self) -> (r: Option<String>)
        ensures
            r.deep_view() == pr::pending_documentation(old(self).deep_view().pending_doc),
            final(self).deep_view() == (pr::State {
                pending_doc: Seq::empty(),
                ..old(self).deep_view()
            }),
    {
        assert(self.pending_doc.deep_view().len() == self.pending_doc@.len());
        let docs = if self.pending_doc.len() == 0 {
            None
        } else {
            let parts = self.pending_doc.as_slice();
            assert(parts.deep_view() =~= self.pending_doc.deep_view());
            Some(join(parts, "\n"))
        };
        self.pending_doc = empty();
        docs
    }

    pub fn open_scope(&mut self, line: usize, start: ScopeStart)
        ensures
            final(self).deep_view() == pr::open_scope(
                old(self).deep_view(),
                line,
                start.deep_view(),
            ),
    {
        self.diagnose_scope_before_contains(line, start.kind);
        let ghost s = self.deep_view();
        let ghost begun = start.deep_view();
        let code = source_line(self.parsed.source.as_str(), line);
        let name = scope_name(code.as_slice(), line, &start);
        let kind = start.kind;
        let selection_range = name_range(code.as_slice(), line, start.selection.as_str());
        let idx: usize = self.parsed.symbols.len();
        assert(s.parsed.symbols.len() == idx);
        let scope = self.current_scope();
        let mut child_scope = self.current_scope();
        put(&mut child_scope, name.clone());
        let documentation = self.take_pending_doc();
        let signature = chars(start.signature.as_str());
        let symbol = Symbol {
            name: name.clone(),
            kind,
            file: self.parsed.path.clone(),
            range: Range {
                start: Position::new(line, 0),
                end: line_end(self.parsed.source.as_str(), line),
            },
            selection_range,
            scope,
            signature: start.signature,
            args: start.args,
            documentation,
            visibility: match start.visibility {
                Some(visibility) => visibility,
                None => Visibility::Default,
            },
            type_spec: None,
            attributes: start.attributes,
            result: parse_result_name(signature.as_slice()),
            is_parameter: false,
            is_external: false,
            extends: start.extends,
            is_abstract: start.is_abstract,
            binding_target: None,
            pass_arg: None,
            is_deferred: false,
            is_module_procedure: start.is_module_procedure,
            ancestor: start.ancestor,
        };
        assert(symbol.deep_view() == pr::scope_symbol(s, line, begun));
        self.push_symbol(symbol);
        let ghost wanted = pr::associate_symbols_from(
            code@,
            line,
            s.parsed.path,
            child_scope.deep_view(),
            begun.associate_names,
            0,
            s.parsed.symbols.push(pr::scope_symbol(s, line, begun)),
        );
        let mut i: usize = 0;
        while i < start.associate_names.len()
            invariant
                i <= start.associate_names@.len(),
                start.associate_names.deep_view() == begun.associate_names,
                self.deep_view() == (pr::State {
                    parsed: sm::ParsedFile {
                        symbols: self.deep_view().parsed.symbols,
                        ..s.parsed
                    },
                    pending_doc: Seq::empty(),
                    ..s
                }),
                wanted == pr::associate_symbols_from(
                    code@,
                    line,
                    s.parsed.path,
                    child_scope.deep_view(),
                    begun.associate_names,
                    i as int,
                    self.deep_view().parsed.symbols,
                ),
            decreases start.associate_names@.len() - i,
        {
            let symbol = associate_symbol(
                code.as_slice(),
                line,
                self.parsed.path.as_str(),
                &child_scope,
                &start.associate_names[i],
            );
            self.push_symbol(symbol);
            i = i + 1;
        }
        self.default_visibility.insert(child_scope, kind.default_visibility());
        put(
            &mut self.scopes,
            ScopeFrame {
                name,
                kind,
                symbol_idx: idx,
                default_visibility: kind.default_visibility(),
                implicit_line: None,
                implicit_none: false,
                use_after_implicit: false,
                contains_line: None,
                declared_variables: empty(),
                seen_executable: false,
            },
        );
    }

    /// Ends the scope of a frame that is no longer among the open ones.
    fn leave_scope(&mut self, frame: &ScopeFrame, end: Position)
        ensures
            final(self).deep_view() == pr::leave_scope(
                old(self).deep_view(),
                frame.deep_view(),
                end,
            ),
    {
        if let Some(line) = use_after_implicit_line(frame) {
            self.use_after_implicit_diagnostic(line);
        }
        self.add_argument_diagnostics(frame);
        self.set_symbol_end(frame.symbol_idx, end);
    }

    /// The innermost scope that an `end` can end.
    fn scope_to_close(&self, target: Option<SymbolKind>) -> (r: Option<usize>)
        ensures
            st::at(r) == pr::scope_to_close(
                self.deep_view().scopes,
                target,
                self.deep_view().scopes.len(),
            ),
            r matches Some(pos) ==> pos < self.scopes@.len(),
    {
        let ghost scopes = self.deep_view().scopes;
        let mut n: usize = self.scopes.len();
        assert(scopes.len() == n);
        while n > 0
            invariant
                n <= self.scopes@.len(),
                scopes == self.deep_view().scopes,
                scopes.len() == self.scopes@.len(),
                pr::scope_to_close(scopes, target, scopes.len()) == pr::scope_to_close(
                    scopes,
                    target,
                    n as nat,
                ),
            decreases n,
        {
            assert(scopes[n - 1] == self.scopes@[n - 1].deep_view());
            let found: bool = match target {
                Some(kind) => self.scopes[n - 1].kind == kind,
                None => true,
            };
            if found {
                return Some(n - 1);
            }
            n = n - 1;
        }
        None
    }

    pub fn close_scope(&mut self, line: usize, lower: &[char])
        ensures
            final(self).deep_view() == pr::close_scope(old(self).deep_view(), line, lower@),
    {
        let target = match end_target(lower) {
            Some(target) => target,
            None => {
                return ;
            },
        };
        let ghost before = self.deep_view();
        let pos: usize = match self.scope_to_close(target) {
            Some(pos) => pos,
            None => {
                let message = unmatched_end_message(target);
                self.statement_diagnostic(line, lower, message.as_str());
                return ;
            },
        };
        let end = line_end(self.parsed.source.as_str(), line);
        let ghost frames = self.scopes@;
        let closing = self.scopes.split_off(pos);
        assert(self.scopes.deep_view() =~= before.scopes.take(pos as int));
        assert(closing.deep_view() =~= before.scopes.skip(pos as int));
        let ghost wanted = pr::leave_scopes(
            pr::State { scopes: before.scopes.take(pos as int), ..before },
            closing.deep_view(),
            closing.deep_view().len(),
            end,
        );
        let mut n: usize = closing.len();
        assert(closing.deep_view().len() == n);
        while n > 0
            invariant
                n <= closing@.len(),
                closing.deep_view().len() == closing@.len(),
                wanted == pr::leave_scopes(
                    self.deep_view(),
                    closing.deep_view(),
                    n as nat,
                    end,
                ),
            decreases n,
        {
            n = n - 1;
            self.leave_scope(&closing[n], end);
        }
    }

    // -----------------------------------------------------------------------
    // Statements
    // -----------------------------------------------------------------------
    fn apply_visibility_stmt(&mut self, stmt: &VisibilityStmt)
        ensures
            final(self).deep_view() == pr::apply_visibility_stmt(
                old(self).deep_view(),
                stmt.deep_view(),
            ),
    {
        let ghost before = self.deep_view();
        assert(stmt.deep_view().names.len() == stmt.names@.len());
        assert(before.scopes.len() == self.scopes@.len());
        if stmt.names.len() == 0 {
            self.default_visibility.insert(copy_texts(&stmt.scope), stmt.visibility);
            if self.scopes.len() > 0 {
                let mut frame = self.pop_frame();
                frame.default_visibility = stmt.visibility;
                put(&mut self.scopes, frame);
            }
            return ;
        }
        let mut i: usize = 0;
        while i < stmt.names.len()
            invariant
                i <= stmt.names@.len(),
                stmt.deep_view().names.len() == stmt.names@.len(),
                self.deep_view() == (pr::State {
                    explicit_visibility: self.deep_view().explicit_visibility,
                    ..before
                }),
                pr::explicit_from(stmt.deep_view(), 0, before.explicit_visibility)
                    == pr::explicit_from(
                    stmt.deep_view(),
                    i as int,
                    self.deep_view().explicit_visibility,
                ),
            decreases stmt.names@.len() - i,
        {
            let key = (copy_texts(&stmt.scope), lower_text(stmt.names[i].as_str()));
            self.explicit_visibility.insert(key, stmt.visibility);
            i = i + 1;
        }
    }

    /// The symbol that an `entry` statement makes.
    fn parse_entry_statement(&self, line: usize, code: &[char]) -> (r: Option<Symbol>)
        ensures
            r.deep_view() == pr::parse_entry_statement(self.deep_view(), line, code@),
    {
        let rest = match after_keyword(code, "entry") {
            Some(rest) => rest,
            None => {
                return None;
            },
        };
        let n: usize = self.scopes.len();
        assert(self.deep_view().scopes.len() == n);
        if n == 0 {
            return None;
        }
        assert(self.deep_view().scopes.last() == self.scopes@[n - 1].deep_view());
        let kind = self.scopes[n - 1].kind;
        if !kind.is_procedure() {
            return None;
        }
        let name = match first_ident(rest) {
            Some(name) => name,
            None => {
                return None;
            },
        };
        if !starts_with(trim_start(rest), name) {
            return None;
        }
        let mut outer = self.current_scope();
        let _ = take_last(&mut outer);
        let args = args_of(rest);
        let name_text = text(name);
        let list = args.as_slice();
        assert(list.deep_view() =~= args.deep_view());
        let mut signature = owned("entry ");
        push_text(&mut signature, name_text.as_str());
        push_text(&mut signature, "(");
        push_text(&mut signature, join(list, ", ").as_str());
        push_text(&mut signature, ")");
        let mut symbol = legacy_symbol(
            name_text.as_str(),
            kind,
            code,
            line,
            self.parsed.path.as_str(),
            &outer,
            signature,
        );
        symbol.args = args;
        Some(symbol)
    }

    /// The first variable that a statement function declares again.
    fn statement_function_variable(&self, name: &String, scope: &Vec<String>) -> (r: Option<usize>)
        ensures
            st::at(r) == pr::statement_function_variable_from(
                self.deep_view().parsed.symbols,
                name@,
                scope.deep_view(),
                0,
            ),
            r matches Some(k) ==> k < self.parsed.symbols@.len(),
    {
        let ghost symbols = self.deep_view().parsed.symbols;
        let mut i: usize = 0;
        while i < self.parsed.symbols.len()
            invariant
                i <= self.parsed.symbols@.len(),
                symbols == self.deep_view().parsed.symbols,
                pr::statement_function_variable_from(symbols, name@, scope.deep_view(), 0)
                    == pr::statement_function_variable_from(
                    symbols,
                    name@,
                    scope.deep_view(),
                    i as int,
                ),
            decreases self.parsed.symbols@.len() - i,
        {
            let s = &self.parsed.symbols[i];
            assert(symbols[i as int] == s.deep_view());
            let attributes = s.attributes.as_slice();
            assert(attributes.deep_view() =~= s.attributes.deep_view());
            if s.kind == SymbolKind::Variable && same_text(s.name.as_str(), name.as_str())
                && eq_texts(&s.scope, scope) && !has_name(attributes, "dimension") {
                return Some(i);
            }
            i = i + 1;
        }
        None
    }

    /// Whether a name that is no variable of its own scope can be an array
    /// there.
    fn may_be_array(&self, name: &str, scope: &Vec<String>) -> (r: bool)
        ensures
            r == pr::may_be_array(self.deep_view().parsed, name@, scope.deep_view()),
    {
        let ghost p = self.deep_view().parsed;
        let mut i: usize = 0;
        while i < self.parsed.symbols.len()
            invariant
                i <= self.parsed.symbols@.len(),
                p == self.deep_view().parsed,
                forall|k: int|
                    0 <= k < i ==> !pr::is_around(
                        #[trigger] p.symbols[k],
                        name@,
                        scope.deep_view(),
                    ),
            decreases self.parsed.symbols@.len() - i,
        {
            let s = &self.parsed.symbols[i];
            assert(p.symbols[i as int] == s.deep_view());
            if s.kind == SymbolKind::Variable && same_text(s.name.as_str(), name) && is_visible(
                scope,
                &s.scope,
            ) {
                return true;
            }
            i = i + 1;
        }
        let mut j: usize = 0;
        while j < self.parsed.uses.len()
            invariant
                j <= self.parsed.uses@.len(),
                p == self.deep_view().parsed,
                forall|k: int|
                    0 <= k < p.symbols.len() ==> !pr::is_around(
                        #[trigger] p.symbols[k],
                        name@,
                        scope.deep_view(),
                    ),
                forall|k: int|
                    0 <= k < j ==> !so::is_visible(
                        scope.deep_view(),
                        (#[trigger] p.uses[k]).scope,
                    ),
            decreases self.parsed.uses@.len() - j,
        {
            assert(p.uses[j as int] == self.parsed.uses@[j as int].deep_view());
            if is_visible(scope, &self.parsed.uses[j].scope) {
                return true;
            }
            j = j + 1;
        }
        false
    }

    /// Whether statement functions can stand at this point.
    fn allows_statement_function(&self) -> (r: bool)
        ensures
            r == pr::allows_statement_function(self.deep_view().scopes),
    {
        let n: usize = self.scopes.len();
        assert(self.deep_view().scopes.len() == n);
        if n == 0 {
            return false;
        }
        let frame = &self.scopes[n - 1];
        assert(self.deep_view().scopes.last() == frame.deep_view());
        !frame.seen_executable && (frame.kind == SymbolKind::Program || frame.kind.is_procedure())
    }

    /// Takes in a statement function; says whether the statement is one.
    pub fn parse_statement_function(&mut self, line: usize, code: &[char]) -> (r: bool)
        ensures
            match pr::parse_statement_function(old(self).deep_view(), line, code@) {
                Some(next) => r && final(self).deep_view() == next,
                None => !r && final(self).deep_view() == old(self).deep_view(),
            },
    {
        if !self.allows_statement_function() {
            return false;
        }
        let (name, args): (String, Vec<String>) = match parse_statement_function_lhs(code) {
            Some((name, args)) => (name, args),
            None => {
                return false;
            },
        };
        let scope = self.current_scope();
        let mut made = legacy_symbol(
            name.as_str(),
            SymbolKind::Function,
            code,
            line,
            self.parsed.path.as_str(),
            &scope,
            text(trim(code)),
        );
        made.args = args;
        match self.statement_function_variable(&name, &scope) {
            Some(k) => {
                let mut symbol = self.parsed.symbols[k].clone();
                symbol.kind = SymbolKind::Function;
                symbol.args = made.args;
                symbol.signature = made.signature;
                symbol.range = made.range;
                symbol.selection_range = made.range;
                self.parsed.symbols.set(k, symbol);
                assert(self.parsed.symbols.deep_view() =~= old(
                    self,
                ).parsed.symbols.deep_view().update(k as int, symbol.deep_view()));
            },
            None => {
                if self.may_be_array(name.as_str(), &scope) {
                    return false;
                }
                self.push_symbol(made);
            },
        }
        true
    }

    fn parse_body_statement(&mut self, line: usize, code: &[char])
        ensures
            final(self).deep_view() == pr::parse_body_statement(
                old(self).deep_view(),
                line,
                code@,
            ),
    {
        if let Some(start) = parse_scope_start(code) {
            self.open_scope(line, start);
            return ;
        }
        if self.parse_statement_function(line, code) {
            return ;
        }
        let scope = self.current_scope();
        let in_binding_part: bool = self.in_type_binding_part();
        let declared = parse_variables(
            code,
            line,
            self.parsed.path.as_str(),
            &scope,
            in_binding_part,
        );
        match declared {
            Some(vars) => {
                self.record_variable_declarations(&vars);
                self.add_symbols(vars);
            },
            None => {
                self.mark_executable_statement();
            },
        }
    }

    fn parse_interface_statement(&mut self, line: usize, code: &[char])
        ensures
            final(self).deep_view() == pr::parse_interface_statement(
                old(self).deep_view(),
                line,
                code@,
            ),
    {
        if self.in_interface_scope() {
            let scope = self.current_scope();
            let prototypes = parse_module_procedure_prototypes(
                code,
                line,
                self.parsed.path.as_str(),
                &scope,
            );
            assert(prototypes.deep_view().len() == prototypes@.len());
            if prototypes.len() > 0 {
                self.add_symbols(prototypes);
                return ;
            }
        }
        self.parse_body_statement(line, code);
    }

    fn parse_legacy_statement(&mut self, line: usize, code: &[char])
        ensures
            final(self).deep_view() == pr::parse_legacy_statement(
                old(self).deep_view(),
                line,
                code@,
            ),
    {
        let scope = self.current_scope();
        if let Some(pending) = parse_common(code, line, self.parsed.path.as_str(), &scope) {
            put_all(&mut self.pending_legacy, pending);
            return ;
        }
        if let Some(pending) = parse_equivalence(code, line, self.parsed.path.as_str(), &scope) {
            put_all(&mut self.pending_legacy, pending);
            return ;
        }
        if let Some(pending) = parse_namelist(code, line, self.parsed.path.as_str(), &scope) {
            put_all(&mut self.pending_legacy, pending);
            return ;
        }
        self.parse_interface_statement(line, code);
    }

    fn parse_naming_statement(&mut self, line: usize, code: &[char])
        ensures
            final(self).deep_view() == pr::parse_naming_statement(
                old(self).deep_view(),
                line,
                code@,
            ),
    {
        let scope = self.current_scope();
        let enumerators = parse_enumerators(code, line, self.parsed.path.as_str(), &scope);
        assert(enumerators.deep_view().len() == enumerators@.len());
        if enumerators.len() > 0 {
            self.record_variable_declarations(&enumerators);
            self.add_symbols(enumerators);
            return ;
        }
        match self.parse_entry_statement(line, code) {
            Some(entry) => {
                self.push_symbol(entry);
            },
            None => {
                self.parse_legacy_statement(line, code);
            },
        }
    }

    fn parse_plain_statement(&mut self, line: usize, code: &[char])
        ensures
            final(self).deep_view() == pr::parse_plain_statement(
                old(self).deep_view(),
                line,
                code@,
            ),
    {
        let scope = self.current_scope();
        if let Some(stmt) = parse_import(code, line, self.parsed.path.as_str(), &scope) {
            if !self.in_interface_scope() {
                self.statement_diagnostic(line, code, "IMPORT statement outside of interface");
            }
            put(&mut self.parsed.imports, stmt);
            return ;
        }
        if let Some(stmt) = parse_include(code, line, self.parsed.path.as_str(), &scope) {
            put(&mut self.parsed.includes, stmt);
            return ;
        }
        if let Some(stmt) = parse_generic_binding(code, line, self.parsed.path.as_str(), &scope) {
            put(&mut self.parsed.generic_bindings, stmt);
            return ;
        }
        if let Some(stmt) = parse_visibility(code, line, self.parsed.path.as_str(), &scope) {
            self.apply_visibility_stmt(&stmt);
            put(&mut self.parsed.visibility, stmt);
            return ;
        }
        self.parse_naming_statement(line, code);
    }

    /// Takes in a statement.
    pub fn parse_statement(&mut self, line: usize, statement: &[char])
        ensures
            final(self).deep_view() == pr::parse_statement(
                old(self).deep_view(),
                line,
                statement@,
            ),
    {
        let code = trim_end(statement);
        if is_blank(code) {
            return ;
        }
        if is_assignment(code) {
            self.mark_executable_statement();
            return ;
        }
        let low = lower(trim_start(code));
        if let Some(ending) = end_statement(low.as_slice()) {
            let all = chars(ending.as_str());
            self.close_scope(line, all.as_slice());
            return ;
        }
        if is_word(low.as_slice(), "contains") {
            self.mark_contains_statement(line, code);
            return ;
        }
        if has_keyword(code, "implicit") {
            self.mark_implicit_statement(line, code);
            return ;
        }
        let scope = self.current_scope();
        if let Some(stmt) = parse_use(code, line, self.parsed.path.as_str(), &scope) {
            self.mark_use_statement(line);
            put(&mut self.parsed.uses, stmt);
            return ;
        }
        if has_keyword(code, "use") {
            self.statement_diagnostic(line, code, "incomplete or invalid use statement");
            return ;
        }
        self.parse_plain_statement(line, code);
    }

    // -----------------------------------------------------------------------
    // Directives
    // -----------------------------------------------------------------------
    /// Whether statements count: each open conditional is in an active branch.
    pub fn preprocessor_active(&self) -> (r: bool)
        ensures
            r == pr::preprocessor_active(self.deep_view().preprocessor_stack),
    {
        let ghost stack = self.deep_view().preprocessor_stack;
        let mut i: usize = 0;
        while i < self.preprocessor_stack.len()
            invariant
                i <= self.preprocessor_stack@.len(),
                stack == self.deep_view().preprocessor_stack,
                forall|k: int| 0 <= k < i ==> (#[trigger] stack[k]).branch_active,
            decreases self.preprocessor_stack@.len() - i,
        {
            assert(stack[i as int] == self.preprocessor_stack@[i as int]);
            if !self.preprocessor_stack[i].branch_active {
                return false;
            }
            i = i + 1;
        }
        true
    }

    /// Makes a remark about a directive.
    fn directive_diagnostic(&mut self, d: &PreprocessorDirective, message: &str)
        ensures
            final(self).deep_view() == pr::directive_diagnostic(
                old(self).deep_view(),
                d.deep_view(),
                message@,
            ),
    {
        self.push_diagnostic(
            Diagnostic {
                range: d.range,
                severity: DiagnosticSeverity::Error,
                message: owned(message),
            },
        );
    }

    /// Ends the branch of the innermost conditional at a directive and starts
    /// another one there.
    fn next_branch(&mut self, d: &PreprocessorDirective, frame: PreprocessorFrame)
        requires
            old(self).preprocessor_stack@.len() > 0,
        ensures
            final(self).deep_view() == pr::next_branch(
                old(self).deep_view(),
                d.deep_view(),
                frame,
            ),
    {
        let n: usize = self.preprocessor_stack.len();
        let top = self.preprocessor_stack[n - 1];
        assert(self.deep_view().preprocessor_stack.last() == top);
        self.push_region(PreprocessorRegion { start: top.start, end: d.range.start });
        let _ = take_last(&mut self.preprocessor_stack);
        put(&mut self.preprocessor_stack, frame);
    }

    /// Takes in a directive.
    pub fn apply_preprocessor(&mut self, directive: &PreprocessorDirective)
        ensures
            final(self).deep_view() == pr::apply_preprocessor(
                old(self).deep_view(),
                directive.deep_view(),
            ),
    {
        let n: usize = self.preprocessor_stack.len();
        assert(self.deep_view().preprocessor_stack.len() == n);
        match directive.kind {
            PreprocessorKind::If | PreprocessorKind::Ifdef | PreprocessorKind::Ifndef => {
                let parent_active: bool = self.preprocessor_active();
                let condition: bool = condition_holds(
                    directive,
                    &self.parsed.preprocessor_definitions,
                );
                put(
                    &mut self.preprocessor_stack,
                    PreprocessorFrame {
                        start: directive.range.start,
                        range: directive.range,
                        saw_else: false,
                        parent_active,
                        branch_active: parent_active && condition,
                        any_taken: condition,
                    },
                );
            },
            PreprocessorKind::Elif => {
                if n == 0 {
                    self.directive_diagnostic(directive, "`#elif` without `#if`");
                    return ;
                }
                let condition: bool = condition_holds(
                    directive,
                    &self.parsed.preprocessor_definitions,
                );
                let mut frame = self.preprocessor_stack[n - 1];
                assert(self.deep_view().preprocessor_stack.last() == frame);
                if frame.saw_else {
                    self.directive_diagnostic(directive, "`#elif` cannot appear after `#else`");
                }
                frame.start = directive.range.start;
                frame.branch_active = !frame.any_taken && frame.parent_active && condition;
                frame.any_taken = frame.any_taken || condition;
                self.next_branch(directive, frame);
            },
            PreprocessorKind::Else => {
                if n == 0 {
                    self.directive_diagnostic(directive, "`#else` without `#if`");
                    return ;
                }
                let mut frame = self.preprocessor_stack[n - 1];
                assert(self.deep_view().preprocessor_stack.last() == frame);
                if frame.saw_else {
                    self.directive_diagnostic(
                        directive,
                        "duplicate `#else` in preprocessor conditional",
                    );
                }
                frame.start = directive.range.start;
                frame.branch_active = frame.parent_active && !frame.any_taken;
                frame.any_taken = true;
                frame.saw_else = true;
                self.next_branch(directive, frame);
            },
            PreprocessorKind::Endif => {
                match take_last(&mut self.preprocessor_stack) {
                    Some(frame) => {
                        self.push_region(
                            PreprocessorRegion { start: frame.start, end: directive.range.end },
                        );
                    },
                    None => {
                        self.directive_diagnostic(directive, "`#endif` without `#if`");
                    },
                }
            },
            PreprocessorKind::Define => {
                if let Some(name) = &directive.name {
                    if self.preprocessor_active() {
                        let value = match &directive.argument {
                            Some(value) => value.clone(),
                            None => no_text(),
                        };
                        self.parsed.preprocessor_definitions.insert(name.clone(), value);
                        self.macros.insert(name.clone(), macro_definition(&directive.argument));
                    }
                }
            },
            PreprocessorKind::Undef => {
                if let Some(name) = &directive.name {
                    if self.preprocessor_active() {
                        self.parsed.preprocessor_definitions.remove(name);
                        self.macros.remove(name);
                    }
                }
            },
            PreprocessorKind::Include => {
            },
        }
    }

    /// The file that an active `#include` in the file `from` takes in.
    fn include_target(
        &self,
        files: &Vec<SourceFile>,
        from: &str,
        d: &PreprocessorDirective,
    ) -> (r: Option<usize>)
        ensures
            st::at(r) == pr::include_target(
                files.deep_view(),
                from@,
                self.deep_view(),
                d.deep_view(),
            ),
            r matches Some(k) ==> k < files@.len(),
    {
        match &d.argument {
            Some(name) => if d.kind == PreprocessorKind::Include && self.preprocessor_active() {
                resolve(files, from, name.as_str())
            } else {
                None
            },
            None => None,
        }
    }

    /// The file `k` before its first line.
    fn loading(&self, files: &Vec<SourceFile>, k: usize) -> (r: Loading)
        requires
            k < files@.len(),
        ensures
            r.deep_view() == pr::loading(files.deep_view(), k as int, self.deep_view()),
    {
        let file = &files[k];
        assert(files.deep_view()[k as int] == file.deep_view());
        Loading {
            path: file.canonical.clone(),
            lines: logical_lines(
                files,
                file.canonical.as_str(),
                file.source.as_str(),
                &self.parsed.preprocessor_definitions,
            ),
            i: 0,
        }
    }

    /// Takes in the directives of the file `k` and of those that it takes in.
    fn load_preprocessor_include_macros(&mut self, files: &Vec<SourceFile>, k: usize)
        requires
            k < files@.len(),
        ensures
            final(self).deep_view() == pr::load_from(
                files.deep_view(),
                seq![pr::loading(files.deep_view(), k as int, old(self).deep_view())],
                seq![
                    old(self).deep_view().parsed.path,
                    files.deep_view()[k as int].canonical,
                ],
                old(self).deep_view(),
            ),
    {
        let ghost all = files.deep_view();
        let mut visited: Vec<String> = empty();
        put(&mut visited, self.parsed.path.clone());
        put(&mut visited, files[k].canonical.clone());
        let mut stack: Vec<Loading> = empty();
        put(&mut stack, self.loading(files, k));
        let ghost wanted = pr::load_from(
            all,
            seq![pr::loading(all, k as int, self.deep_view())],
            seq![self.deep_view().parsed.path, all[k as int].canonical],
            self.deep_view(),
        );
        assert(all[k as int] == files@[k as int].deep_view());
        assert(visited.deep_view() =~= seq![
            self.deep_view().parsed.path,
            all[k as int].canonical,
        ]);
        assert(stack.deep_view() =~= seq![pr::loading(all, k as int, self.deep_view())]);
        while stack.len() > 0
            invariant
                all == files.deep_view(),
                stack.deep_view().len() == stack@.len(),
                wanted == pr::load_from(
                    all,
                    stack.deep_view(),
                    visited.deep_view(),
                    self.deep_view(),
                ),
            decreases
                    ssr::unvisited(all, visited.deep_view(), all.len()),
                    pr::steps_left(stack.deep_view()),
        {
            let ghost before = stack.deep_view();
            let mut top = take_last(&mut stack).unwrap();
            let ghost rest = stack.deep_view();
            if top.i < top.lines.len() {
                let number: usize = top.lines[top.i].0;
                let line = chars(top.lines[top.i].1.as_str());
                let path = top.path.clone();
                assert(before.last().lines[top.i as int] == (number, line@));
                top.i = top.i + 1;
                put(&mut stack, top);
                let ghost passed = stack.deep_view();
                assert(passed.drop_last() =~= rest);
                let scope = self.current_scope();
                if let Some(directive) = parse_preprocessor(
                    trim(line.as_slice()),
                    number,
                    path.as_str(),
                    &scope,
                ) {
                    let target = self.include_target(files, path.as_str(), &directive);
                    self.apply_preprocessor(&directive);
                    if let Some(next) = target {
                        assert(all[next as int] == files@[next as int].deep_view());
                        if !holds_path(&visited, files[next].canonical.as_str()) {
                            proof {
                                ssr::lemma_unvisited(
                                    all,
                                    visited.deep_view(),
                                    next as int,
                                    all.len(),
                                );
                            }
                            put(&mut visited, files[next].canonical.clone());
                            put(&mut stack, self.loading(files, next));
                        }
                    }
                }
            }
        }
    }

    /// Takes in a line with a directive.
    fn directive_step(&mut self, files: &Vec<SourceFile>, directive: PreprocessorDirective)
        ensures
            final(self).deep_view() == pr::directive_step(
                files.deep_view(),
                old(self).deep_view(),
                directive.deep_view(),
            ),
    {
        let ghost before = self.deep_view();
        let was_active: bool = self.preprocessor_active();
        let target = self.include_target(files, self.parsed.path.as_str(), &directive);
        self.apply_preprocessor(&directive);
        assert(self.deep_view().parsed.path == before.parsed.path);
        if was_active && directive.kind == PreprocessorKind::Include {
            if let Some(path) = &directive.argument {
                let stmt = IncludeStmt {
                    path: path.clone(),
                    file: self.parsed.path.clone(),
                    range: directive.range,
                    scope: copy_texts(&directive.scope),
                };
                put(&mut self.parsed.includes, stmt);
            }
        }
        if let Some(k) = target {
            assert(files.deep_view()[k as int] == files@[k as int].deep_view());
            if !same_path(files[k].canonical.as_str(), self.parsed.path.as_str()) {
                self.load_preprocessor_include_macros(files, k);
            }
        }
        put(&mut self.parsed.preprocessor, directive);
    }

    // -----------------------------------------------------------------------
    // Files
    // -----------------------------------------------------------------------
    /// Takes in a logical line.
    fn line_step(&mut self, files: &Vec<SourceFile>, number: usize, raw: &[char])
        ensures
            final(self).deep_view() == pr::line_step(
                files.deep_view(),
                old(self).deep_view(),
                (number, raw@),
            ),
    {
        let code = trim(raw);
        if code.len() == 0 {
            return ;
        }
        let scope = self.current_scope();
        if let Some(directive) = parse_preprocessor(
            code,
            number,
            self.parsed.path.as_str(),
            &scope,
        ) {
            self.directive_step(files, directive);
            return ;
        }
        if !self.preprocessor_active() {
            return ;
        }
        if let Some(doc) = parse_doc_comment(raw) {
            put(&mut self.pending_doc, doc);
            return ;
        }
        let expanded = expand_macros(strip_inline_comment(raw), &self.macros);
        let expanded_chars = chars(expanded.as_str());
        let statements = split_statement_line(expanded_chars.as_slice());
        let ghost wanted = pr::parse_statements(
            self.deep_view(),
            number,
            statements.deep_view(),
            0,
        );
        let mut i: usize = 0;
        while i < statements.len()
            invariant
                i <= statements@.len(),
                wanted == pr::parse_statements(
                    self.deep_view(),
                    number,
                    statements.deep_view(),
                    i as int,
                ),
            decreases statements@.len() - i,
        {
            let statement = chars(statements[i].as_str());
            self.parse_statement(number, statement.as_slice());
            i = i + 1;
        }
    }

    /// The remark about a scope that is still open at the end of the source.
    fn unterminated_scope(&self, frame: &ScopeFrame) -> (r: Diagnostic)
        ensures
            r.deep_view() == pr::unterminated_scope(self.deep_view(), frame.deep_view()),
    {
        let idx: usize = frame.symbol_idx;
        assert(self.deep_view().parsed.symbols.len() == self.parsed.symbols@.len());
        let range = if idx < self.parsed.symbols.len() {
            assert(self.deep_view().parsed.symbols[idx as int]
                == self.parsed.symbols@[idx as int].deep_view());
            self.parsed.symbols[idx].selection_range
        } else {
            let end = source_end(self.parsed.source.as_str());
            Range { start: end, end }
        };
        let mut message = owned("unterminated ");
        push_text(&mut message, frame.kind.label());
        push_text(&mut message, " scope `");
        push_text(&mut message, frame.name.as_str());
        push_text(&mut message, "`");
        Diagnostic { range, severity: DiagnosticSeverity::Warning, message }
    }

    /// Ends the scopes that are still open.
    fn finish_scopes(&mut self)
        ensures
            final(self).deep_view() == pr::finish_scopes(old(self).deep_view()),
    {
        let ghost wanted = pr::finish_scopes(self.deep_view());
        let end = source_end(self.parsed.source.as_str());
        let ghost source = self.deep_view().parsed.source;
        while self.scopes.len() > 0
            invariant
                wanted == pr::finish_scopes(self.deep_view()),
                self.deep_view().parsed.source == source,
                self.deep_view().scopes.len() == self.scopes@.len(),
                end == pr::source_end(source),
            decreases self.scopes@.len(),
        {
            let frame = self.pop_frame();
            if let Some(line) = use_after_implicit_line(&frame) {
                self.use_after_implicit_diagnostic(line);
            }
            self.add_argument_diagnostics(&frame);
            let d = self.unterminated_scope(&frame);
            self.push_diagnostic(d);
            self.set_symbol_end(frame.symbol_idx, end);
            assert(self.deep_view().scopes.len() == self.scopes@.len());
        }
    }

    /// Ends the conditionals that are still open.
    fn finish_conditionals(&mut self)
        ensures
            final(self).deep_view() == pr::finish_conditionals(old(self).deep_view()),
    {
        let ghost wanted = pr::finish_conditionals(self.deep_view());
        let end = source_end(self.parsed.source.as_str());
        let ghost source = self.deep_view().parsed.source;
        while self.preprocessor_stack.len() > 0
            invariant
                wanted == pr::finish_conditionals(self.deep_view()),
                self.deep_view().parsed.source == source,
                self.deep_view().preprocessor_stack.len() == self.preprocessor_stack@.len(),
                end == pr::source_end(source),
            decreases self.preprocessor_stack@.len(),
        {
            let frame = take_last(&mut self.preprocessor_stack).unwrap();
            self.push_diagnostic(
                Diagnostic {
                    range: frame.range,
                    severity: DiagnosticSeverity::Error,
                    message: owned("unterminated preprocessor conditional"),
                },
            );
            self.push_region(PreprocessorRegion { start: frame.start, end });
        }
    }

    /// The visibility that a symbol has in the end.
    fn final_visibility(&self, symbol: &Symbol) -> (r: Visibility)
        ensures
            r == pr::final_visibility(self.deep_view(), symbol.deep_view()),
    {
        let key = (copy_texts(&symbol.scope), lower_text(symbol.name.as_str()));
        if let Some(visibility) = self.explicit_visibility.find(&key) {
            return *visibility;
        }
        assert(symbol.deep_view().scope.len() == symbol.scope@.len());
        if symbol.scope.len() == 1 && symbol.visibility == Visibility::Default {
            match self.default_visibility.find(&symbol.scope) {
                Some(visibility) => *visibility,
                None => Visibility::Public,
            }
        } else {
            symbol.visibility
        }
    }

    /// Gives the symbols their visibility.
    fn apply_symbol_visibility(&mut self)
        ensures
            final(self).deep_view() == pr::apply_symbol_visibility(old(self).deep_view()),
    {
        let ghost before = self.deep_view();
        let ghost wanted = pr::apply_symbol_visibility(before).parsed.symbols;
        let mut symbols: Vec<Symbol> = empty();
        let mut i: usize = 0;
        while i < self.parsed.symbols.len()
            invariant
                i <= self.parsed.symbols@.len(),
                self.deep_view() == before,
                wanted == pr::apply_symbol_visibility(before).parsed.symbols,
                symbols.deep_view() =~= wanted.take(i as int),
            decreases self.parsed.symbols@.len() - i,
        {
            assert(before.parsed.symbols[i as int] == self.parsed.symbols@[i as int].deep_view());
            let mut symbol = self.parsed.symbols[i].clone();
            symbol.visibility = self.final_visibility(&self.parsed.symbols[i]);
            assert(symbol.deep_view() == wanted[i as int]);
            put(&mut symbols, symbol);
            i = i + 1;
        }
        assert(wanted.take(i as int) =~= wanted);
        self.parsed.symbols = symbols;
    }

    /// Adds the symbols from legacy statements that no other symbol stands
    /// for.
    fn flush_pending_legacy_symbols(&mut self)
        ensures
            final(self).deep_view() == pr::flush_pending_legacy_symbols(old(self).deep_view()),
    {
        let ghost before = self.deep_view();
        let mut i: usize = 0;
        while i < self.pending_legacy.len()
            invariant
                i <= self.pending_legacy@.len(),
                self.deep_view() == pr::set_parsed(
                    before,
                    (sm::ParsedFile {
                        symbols: self.deep_view().parsed.symbols,
                        ..before.parsed
                    }),
                ),
                pr::flush_from(before.pending_legacy, 0, before.parsed.symbols)
                    == pr::flush_from(
                    before.pending_legacy,
                    i as int,
                    self.deep_view().parsed.symbols,
                ),
            decreases self.pending_legacy@.len() - i,
        {
            let symbol = self.pending_legacy[i].clone();
            assert(before.pending_legacy[i as int] == symbol.deep_view());
            if !has_symbol(&self.parsed.symbols, &symbol.scope, symbol.name.as_str()) {
                self.push_symbol(symbol);
            }
            i = i + 1;
        }
        self.pending_legacy = empty();
    }

    /// Makes the remarks about the symbols as a whole.
    fn add_symbol_diagnostics(&mut self)
        ensures
            final(self).deep_view() == pr::add_symbol_diagnostics(old(self).deep_view()),
    {
        let duplicates = duplicate_diagnostics(&self.parsed.symbols);
        let masks = masking_diagnostics(&self.parsed);
        put_all(&mut self.parsed.diagnostics, duplicates);
        put_all(&mut self.parsed.diagnostics, masks);
    }

    /// Reads the source file. `files` are the files that it can take in.
    pub fn parse(self, files: &Vec<SourceFile>) -> (r: ParsedFile)
        ensures
            r.deep_view() == pr::finish(
                pr::lines_from(
                    files.deep_view(),
                    self.deep_view(),
                    ssr::logical_lines(
                        files.deep_view(),
                        self.deep_view().parsed.path,
                        self.deep_view().parsed.source,
                        self.deep_view().parsed.preprocessor_definitions,
                    ),
                    0,
                ),
            ).parsed,
    {
        let mut parser = self;
        let lines = logical_lines(
            files,
            parser.parsed.path.as_str(),
            parser.parsed.source.as_str(),
            &parser.parsed.preprocessor_definitions,
        );
        let ghost wanted = pr::lines_from(
            files.deep_view(),
            parser.deep_view(),
            lines.deep_view(),
            0,
        );
        let mut i: usize = 0;
        while i < lines.len()
            invariant
                i <= lines@.len(),
                wanted == pr::lines_from(
                    files.deep_view(),
                    parser.deep_view(),
                    lines.deep_view(),
                    i as int,
                ),
            decreases lines@.len() - i,
        {
            let raw = chars(lines[i].1.as_str());
            assert(lines.deep_view()[i as int] == (lines@[i as int].0, raw@));
            parser.line_step(files, lines[i].0, raw.as_slice());
            i = i + 1;
        }
        parser.finish_scopes();
        parser.finish_conditionals();
        parser.apply_symbol_visibility();
        parser.flush_pending_legacy_symbols();
        parser.add_symbol_diagnostics();
        parser.parsed
    }
}

/// A file whose directives are being taken in, up to the line `i`.
struct Loading {
    path: String,
    lines: Vec<(usize, String)>,
    i: usize,
}

impl DeepView for Loading {
    type V = pr::Loading;

    closed spec fn deep_view(&self) -> pr::Loading {
        pr::Loading { path: self.path@, lines: self.lines.deep_view(), i: self.i as nat }
    }
}

/// Whether one of the symbols has the given scope and name, case of the name
/// aside.
fn has_symbol(symbols: &Vec<Symbol>, scope: &Vec<String>, name: &str) -> (r: bool)
    ensures
        r == pr::has_symbol(symbols.deep_view(), scope.deep_view(), name@),
{
    let ghost all = symbols.deep_view();
    let mut i: usize = 0;
    while i < symbols.len()
        invariant
            i <= symbols@.len(),
            all == symbols.deep_view(),
            forall|k: int|
                0 <= k < i ==> !((#[trigger] all[k]).scope == scope.deep_view() && st::same(
                    all[k].name,
                    name@,
                )),
        decreases symbols@.len() - i,
    {
        assert(all[i as int] == symbols@[i as int].deep_view());
        if eq_texts(&symbols[i].scope, scope) && same_text(symbols[i].name.as_str(), name) {
            return true;
        }
        i = i + 1;
    }
    false
}

impl ParsedFile {
    /// Reads a source file.
    pub fn parse(path: &str, source: &str) -> (r: ParsedFile)
        ensures
            r.deep_view() == pr::parse_with_files(path@, source@, Seq::empty(), Seq::empty()),
    {
        let nothing: Vec<(String, String)> = empty();
        let defines = nothing.as_slice();
        assert(defines.deep_view() =~= Seq::empty());
        ParsedFile::parse_with_defines(path, source, defines)
    }

    /// Reads a source file with macros that are defined from outside, such as
    /// those of a build. A macro without a value is 1.
    pub fn parse_with_defines(path: &str, source: &str, defines: &[(String, String)]) -> (r:
        ParsedFile)
        ensures
            r.deep_view() == pr::parse_with_files(
                path@,
                source@,
                defines.deep_view(),
                Seq::empty(),
            ),
    {
        ParsedFile::parse_with_files(path, source, defines, &empty())
    }

    /// Reads a source file that can take in the files `files`.
    pub fn parse_with_files(
        path: &str,
        source: &str,
        defines: &[(String, String)],
        files: &Vec<SourceFile>,
    ) -> (r: ParsedFile)
        ensures
            r.deep_view() == pr::parse_with_files(
                path@,
                source@,
                defines.deep_view(),
                files.deep_view(),
            ),
    {
        Parser::with_defines(path, source, defines).parse(files)
    }
}

} // verus!
