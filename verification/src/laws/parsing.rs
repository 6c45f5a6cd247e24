//! Reading a source file.

use vstd::prelude::*;

use crate::model::{Position, Range, SymbolKind};
use crate::spec::declaration as sd;
use crate::spec::model as sm;
use crate::spec::model::{Diagnostic, ParsedFile, Symbol};
use crate::spec::parser as pr;
use crate::spec::parser::{ScopeFrame, State};
use crate::spec::path as sh;
use crate::spec::preproc as spp;
use crate::spec::scan as ss;
use crate::spec::scope as sc;
use crate::spec::source as ssr;
use crate::spec::source::SourceFile;
use crate::spec::statement as sp;
use crate::spec::text as st;
use crate::spec::text::Text;

verus! {

// ---------------------------------------------------------------------------
// What is read stays
// ---------------------------------------------------------------------------

/// Whether a list holds all of another one at its start.
pub open spec fn grows<T>(a: Seq<T>, b: Seq<T>) -> bool {
    a.len() <= b.len() && forall|i: int| 0 <= i < a.len() ==> #[trigger] b[i] == a[i]
}

/// Whether a list of symbols holds all of another one at its start, as far as
/// names and scopes go. What opens a scope stays what it is.
pub open spec fn keeps_names(a: Seq<Symbol>, b: Seq<Symbol>) -> bool {
    a.len() <= b.len() && forall|i: int|
        0 <= i < a.len() ==> (#[trigger] b[i]).name == a[i].name && b[i].scope == a[i].scope
            && b[i].file == a[i].file && (sm::is_scope_kind(a[i].kind) ==> b[i].kind == a[i].kind)
}

/// Whether what was read of a file is still there later on.
pub open spec fn keeps(a: ParsedFile, b: ParsedFile) -> bool {
    &&& b.path == a.path
    &&& b.source == a.source
    &&& keeps_names(a.symbols, b.symbols)
    &&& grows(a.uses, b.uses)
    &&& grows(a.imports, b.imports)
    &&& grows(a.generic_bindings, b.generic_bindings)
    &&& grows(a.includes, b.includes)
    &&& grows(a.preprocessor, b.preprocessor)
    &&& grows(a.preprocessor_regions, b.preprocessor_regions)
    &&& grows(a.visibility, b.visibility)
    &&& grows(a.diagnostics, b.diagnostics)
}

proof fn lemma_keeps(a: ParsedFile, b: ParsedFile, c: ParsedFile)
    requires
        keeps(a, b),
        keeps(b, c),
    ensures
        keeps(a, c),
{
    assert forall|i: int| 0 <= i < a.symbols.len() implies (#[trigger] c.symbols[i]).name
        == a.symbols[i].name && c.symbols[i].scope == a.symbols[i].scope && c.symbols[i].file
        == a.symbols[i].file && (sm::is_scope_kind(a.symbols[i].kind) ==> c.symbols[i].kind
        == a.symbols[i].kind) by {
        assert(b.symbols[i].name == a.symbols[i].name);
    }
    lemma_grows(a.uses, b.uses, c.uses);
    lemma_grows(a.imports, b.imports, c.imports);
    lemma_grows(a.generic_bindings, b.generic_bindings, c.generic_bindings);
    lemma_grows(a.includes, b.includes, c.includes);
    lemma_grows(a.preprocessor, b.preprocessor, c.preprocessor);
    lemma_grows(a.preprocessor_regions, b.preprocessor_regions, c.preprocessor_regions);
    lemma_grows(a.visibility, b.visibility, c.visibility);
    lemma_grows(a.diagnostics, b.diagnostics, c.diagnostics);
}

proof fn lemma_grows<T>(a: Seq<T>, b: Seq<T>, c: Seq<T>)
    requires
        grows(a, b),
        grows(b, c),
    ensures
        grows(a, c),
{
    assert forall|i: int| 0 <= i < a.len() implies #[trigger] c[i] == a[i] by {
        assert(b[i] == a[i]);
    }
}

proof fn lemma_intents(vars: Seq<Symbol>, args: Seq<Text>, i: int, out: Seq<Diagnostic>)
    ensures
        grows(out, pr::intent_diagnostics_from(vars, args, i, out)),
    decreases vars.len() - i,
{
    if i < vars.len() {
        let next = if sd::has_intent_attribute(vars[i]) && !st::has_name(args, vars[i].name) {
            out.push(pr::intent_diagnostic(vars[i]))
        } else {
            out
        };
        lemma_intents(vars, args, i + 1, next);
        lemma_grows(out, next, pr::intent_diagnostics_from(vars, args, i + 1, next));
    }
}

proof fn lemma_missing_args(
    args: Seq<Text>,
    declared: Seq<Text>,
    range: Range,
    i: int,
    out: Seq<Diagnostic>,
)
    ensures
        grows(out, pr::missing_args_from(args, declared, range, i, out)),
    decreases args.len() - i,
{
    reveal_with_fuel(pr::missing_args_from, 2);
    if i < args.len() {
        if declared.contains(st::lower(args[i])) {
            lemma_missing_args(args, declared, range, i + 1, out);
        } else {
            let next = out.push(
                Diagnostic {
                    range,
                    severity: crate::model::DiagnosticSeverity::Error,
                    message: "No matching declaration found for argument \""@ + args[i] + "\""@,
                },
            );
            lemma_missing_args(args, declared, range, i + 1, next);
            lemma_grows(
                out,
                next,
                pr::missing_args_from(args, declared, range, i + 1, next),
            );
        }
    }
}

pub proof fn lemma_associates(
    source_line: Text,
    line: usize,
    file: Text,
    scope: sm::Scope,
    names: Seq<Text>,
    i: int,
    out: Seq<Symbol>,
)
    ensures
        grows(out, pr::associate_symbols_from(source_line, line, file, scope, names, i, out)),
    decreases names.len() - i,
{
    if i < names.len() {
        let next = out.push(pr::associate_symbol(source_line, line, file, scope, names[i]));
        lemma_associates(source_line, line, file, scope, names, i + 1, next);
        lemma_grows(
            out,
            next,
            pr::associate_symbols_from(source_line, line, file, scope, names, i + 1, next),
        );
    }
}

proof fn lemma_declared(s: State, vars: Seq<Symbol>)
    ensures
        keeps(s.parsed, pr::record_variable_declarations(s, vars).parsed),
{
    if s.scopes.len() > 0 {
        lemma_intents(vars, pr::frame_args(s, s.scopes.last()), 0, s.parsed.diagnostics);
    }
}

proof fn lemma_open(s: State, line: usize, start: sc::ScopeStart)
    ensures
        keeps(s.parsed, pr::open_scope(s, line, start).parsed),
{
    let t = pr::diagnose_scope_before_contains(s, line, start.kind);
    assert(keeps(s.parsed, t.parsed));
    let source_line = st::line(t.parsed.source, line as int);
    let name = pr::scope_name(source_line, line, start);
    let pushed = t.parsed.symbols.push(pr::scope_symbol(t, line, start));
    lemma_associates(
        source_line,
        line,
        t.parsed.path,
        pr::current_scope(t.scopes).push(name),
        start.associate_names,
        0,
        pushed,
    );
    let all = pr::open_scope(s, line, start).parsed.symbols;
    assert forall|i: int| 0 <= i < t.parsed.symbols.len() implies (#[trigger] all[i])
        == t.parsed.symbols[i] by {
        assert(all[i] == pushed[i]);
    }
    assert(keeps(t.parsed, pr::open_scope(s, line, start).parsed));
    lemma_keeps(s.parsed, t.parsed, pr::open_scope(s, line, start).parsed);
}

proof fn lemma_leave(s: State, f: ScopeFrame, end: Position)
    ensures
        keeps(s.parsed, pr::leave_scope(s, f, end).parsed),
        pr::leave_scope(s, f, end).scopes == s.scopes,
{
    let remarked = match pr::use_after_implicit_line(f) {
        Some(line) => pr::use_after_implicit_diagnostic(s, line),
        None => s,
    };
    assert(keeps(s.parsed, remarked.parsed));
    let checked = pr::add_argument_diagnostics(remarked, f);
    lemma_arguments(remarked, f);
    lemma_keeps(s.parsed, remarked.parsed, checked.parsed);
    lemma_keeps(s.parsed, checked.parsed, pr::leave_scope(s, f, end).parsed);
}

proof fn lemma_arguments(s: State, f: ScopeFrame)
    ensures
        keeps(s.parsed, pr::add_argument_diagnostics(s, f).parsed),
        pr::add_argument_diagnostics(s, f).scopes == s.scopes,
{
    if f.symbol_idx < s.parsed.symbols.len() {
        let procedure = s.parsed.symbols[f.symbol_idx as int];
        lemma_missing_args(
            procedure.args,
            pr::described_from(
                s.parsed.symbols,
                procedure.scope.push(procedure.name),
                0,
                f.declared_variables,
            ),
            procedure.selection_range,
            0,
            s.parsed.diagnostics,
        );
    }
}

proof fn lemma_leave_all(s: State, closing: Seq<ScopeFrame>, n: nat, end: Position)
    ensures
        keeps(s.parsed, pr::leave_scopes(s, closing, n, end).parsed),
        pr::leave_scopes(s, closing, n, end).scopes == s.scopes,
    decreases n,
{
    if n > 0 && n <= closing.len() {
        let t = pr::leave_scope(s, closing[n - 1], end);
        lemma_leave(s, closing[n - 1], end);
        lemma_leave_all(t, closing, (n - 1) as nat, end);
        lemma_keeps(s.parsed, t.parsed, pr::leave_scopes(s, closing, n, end).parsed);
    }
}

proof fn lemma_close(s: State, line: usize, lower: Text)
    ensures
        keeps(s.parsed, pr::close_scope(s, line, lower).parsed),
{
    if let Some(target) = pr::end_target(lower) {
        if let Some(pos) = pr::scope_to_close(s.scopes, target, s.scopes.len()) {
            lemma_leave_all(
                State { scopes: s.scopes.take(pos), ..s },
                s.scopes.skip(pos),
                (s.scopes.len() - pos) as nat,
                pr::line_end(s.parsed.source, line),
            );
        }
    }
}

/// The variable that a statement function declares again is a variable.
pub proof fn lemma_found(symbols: Seq<Symbol>, name: Text, scope: sm::Scope, i: int)
    requires
        0 <= i,
    ensures
        pr::statement_function_variable_from(symbols, name, scope, i) matches Some(k) ==> i <= k
            < symbols.len() && symbols[k].kind is Variable,
    decreases symbols.len() - i,
{
    if i < symbols.len() && !pr::is_statement_function_variable(symbols[i], name, scope) {
        lemma_found(symbols, name, scope, i + 1);
    }
}

proof fn lemma_statement_function(s: State, line: usize, code: Text)
    ensures
        pr::parse_statement_function(s, line, code) matches Some(t) ==> keeps(
            s.parsed,
            t.parsed,
        ),
{
    if let Some((name, args)) = sd::parse_statement_function_lhs(code) {
        lemma_found(s.parsed.symbols, name, pr::current_scope(s.scopes), 0);
    }
}

proof fn lemma_body(s: State, line: usize, code: Text)
    ensures
        keeps(s.parsed, pr::parse_body_statement(s, line, code).parsed),
{
    match sc::parse_scope_start(code) {
        Some(start) => {
            lemma_open(s, line, start);
        },
        None => {
            lemma_statement_function(s, line, code);
            if let Some(vars) = sd::parse_variables(
                code,
                line,
                s.parsed.path,
                pr::current_scope(s.scopes),
                pr::in_type_binding_part(s.scopes),
            ) {
                let t = pr::record_variable_declarations(s, vars);
                lemma_declared(s, vars);
                lemma_keeps(s.parsed, t.parsed, pr::add_symbols(t, vars).parsed);
            }
        },
    }
}

proof fn lemma_naming(s: State, line: usize, code: Text)
    ensures
        keeps(s.parsed, pr::parse_naming_statement(s, line, code).parsed),
{
    let enumerators = sd::parse_enumerators(
        code,
        line,
        s.parsed.path,
        pr::current_scope(s.scopes),
    );
    let t = pr::record_variable_declarations(s, enumerators);
    lemma_declared(s, enumerators);
    lemma_keeps(s.parsed, t.parsed, pr::add_symbols(t, enumerators).parsed);
    lemma_body(s, line, code);
}

proof fn lemma_plain(s: State, line: usize, code: Text)
    ensures
        keeps(s.parsed, pr::parse_plain_statement(s, line, code).parsed),
{
    lemma_naming(s, line, code);
}

proof fn lemma_told(s: State, line: usize, code: Text, message: Text)
    ensures
        keeps(s.parsed, pr::statement_diagnostic(s, line, code, message).parsed),
{
}

proof fn lemma_contains(s: State, line: usize, code: Text)
    ensures
        keeps(s.parsed, pr::mark_contains_statement(s, line, code).parsed),
{
}

proof fn lemma_implicit(s: State, line: usize, code: Text)
    ensures
        keeps(s.parsed, pr::mark_implicit_statement(s, line, code).parsed),
{
}

proof fn lemma_use(s: State, line: usize, stmt: sm::UseStmt)
    ensures
        ({
            let t = pr::mark_use_statement(s, line);
            keeps(
                s.parsed,
                pr::set_parsed(
                    t,
                    ParsedFile { uses: t.parsed.uses.push(stmt), ..t.parsed },
                ).parsed,
            )
        }),
{
}

/// A statement takes back nothing of what was read before it.
pub proof fn law_statement_keeps(s: State, line: usize, statement: Text)
    ensures
        keeps(s.parsed, pr::parse_statement(s, line, statement).parsed),
{
    let code = st::trim_end(statement);
    let lower = st::lower(st::trim_start(code));
    if st::is_blank(code) {
    } else if sp::is_assignment(code) {
    } else if sp::end_statement(lower) is Some {
        lemma_close(s, line, sp::end_statement(lower)->0);
    } else if lower == "contains"@ {
        lemma_contains(s, line, code);
    } else if st::after_keyword(code, "implicit"@) is Some {
        lemma_implicit(s, line, code);
    } else {
        match sp::parse_use(code, line, s.parsed.path, pr::current_scope(s.scopes)) {
            Some(stmt) => {
                lemma_use(s, line, stmt);
            },
            None => {
                if st::after_keyword(code, "use"@) is Some {
                    lemma_told(s, line, code, "incomplete or invalid use statement"@);
                } else {
                    lemma_plain(s, line, code);
                }
            },
        }
    }
}

proof fn lemma_statements(s: State, line: usize, statements: Seq<Text>, i: int)
    ensures
        keeps(s.parsed, pr::parse_statements(s, line, statements, i).parsed),
    decreases statements.len() - i,
{
    if i < statements.len() {
        let t = pr::parse_statement(s, line, statements[i]);
        law_statement_keeps(s, line, statements[i]);
        lemma_statements(t, line, statements, i + 1);
        lemma_keeps(s.parsed, t.parsed, pr::parse_statements(t, line, statements, i + 1).parsed);
    }
}

proof fn lemma_directive(s: State, d: sm::PreprocessorDirective)
    ensures
        keeps(s.parsed, pr::apply_preprocessor(s, d).parsed),
{
}

proof fn lemma_load(
    files: Seq<SourceFile>,
    stack: Seq<pr::Loading>,
    visited: Seq<Text>,
    s: State,
)
    ensures
        keeps(s.parsed, pr::load_from(files, stack, visited, s).parsed),
    decreases ssr::unvisited(files, visited, files.len()), pr::steps_left(stack),
{
    if stack.len() > 0 {
        let top = stack.last();
        let rest = stack.drop_last();
        if top.i >= top.lines.len() {
            lemma_load(files, rest, visited, s);
        } else {
            let line = top.lines[top.i as int];
            let passed = rest.push(pr::Loading { i: top.i + 1, ..top });
            assert(passed.drop_last() =~= rest);
            match spp::parse_preprocessor(
                st::trim(line.1),
                line.0,
                top.path,
                pr::current_scope(s.scopes),
            ) {
                Some(d) => {
                    let next = pr::apply_preprocessor(s, d);
                    lemma_directive(s, d);
                    match pr::include_target(files, top.path, s, d) {
                        Some(k) => {
                            if sh::holds_path(visited, files[k].canonical) {
                                lemma_load(files, passed, visited, next);
                            } else {
                                pr::lemma_include_target(files, top.path, s, d);
                                ssr::lemma_unvisited(files, visited, k, files.len());
                                lemma_load(
                                    files,
                                    passed.push(pr::loading(files, k, next)),
                                    visited.push(files[k].canonical),
                                    next,
                                );
                            }
                        },
                        None => {
                            lemma_load(files, passed, visited, next);
                        },
                    }
                    lemma_keeps(
                        s.parsed,
                        next.parsed,
                        pr::load_from(files, stack, visited, s).parsed,
                    );
                },
                None => {
                    lemma_load(files, passed, visited, s);
                },
            }
        }
    }
}

proof fn lemma_directive_step(files: Seq<SourceFile>, s: State, d: sm::PreprocessorDirective)
    ensures
        keeps(s.parsed, pr::directive_step(files, s, d).parsed),
{
    let applied = pr::apply_preprocessor(s, d);
    lemma_directive(s, d);
    let included = match d.argument {
        Some(path) => if d.kind is Include && pr::preprocessor_active(s.preprocessor_stack) {
            pr::set_parsed(
                applied,
                ParsedFile {
                    includes: applied.parsed.includes.push(
                        sm::IncludeStmt {
                            path,
                            file: applied.parsed.path,
                            range: d.range,
                            scope: d.scope,
                        },
                    ),
                    ..applied.parsed
                },
            )
        } else {
            applied
        },
        None => applied,
    };
    lemma_keeps(s.parsed, applied.parsed, included.parsed);
    let t = pr::load_include(files, s, d, included);
    if let Some(k) = pr::include_target(files, s.parsed.path, s, d) {
        lemma_load(
            files,
            seq![pr::loading(files, k, included)],
            seq![s.parsed.path, files[k].canonical],
            included,
        );
    }
    assert(keeps(included.parsed, t.parsed));
    lemma_keeps(s.parsed, included.parsed, t.parsed);
    lemma_keeps(s.parsed, t.parsed, pr::directive_step(files, s, d).parsed);
}

proof fn lemma_line(files: Seq<SourceFile>, s: State, line: spp::Line)
    ensures
        keeps(s.parsed, pr::line_step(files, s, line).parsed),
{
    match spp::parse_preprocessor(
        st::trim(line.1),
        line.0,
        s.parsed.path,
        pr::current_scope(s.scopes),
    ) {
        Some(d) => {
            lemma_directive_step(files, s, d);
        },
        None => {
            lemma_statements(
                s,
                line.0,
                ss::split_statement_line(
                    spp::expand_macros(ss::strip_inline_comment(line.1), s.macros),
                ),
                0,
            );
        },
    }
}

/// A line takes back nothing of what was read before it.
pub proof fn law_lines_keep(files: Seq<SourceFile>, s: State, lines: Seq<spp::Line>, i: int)
    ensures
        keeps(s.parsed, pr::lines_from(files, s, lines, i).parsed),
    decreases lines.len() - i,
{
    if i < lines.len() {
        let t = pr::line_step(files, s, lines[i]);
        lemma_line(files, s, lines[i]);
        law_lines_keep(files, t, lines, i + 1);
        lemma_keeps(s.parsed, t.parsed, pr::lines_from(files, t, lines, i + 1).parsed);
    }
}

proof fn lemma_finish_scopes(s: State)
    ensures
        keeps(s.parsed, pr::finish_scopes(s).parsed),
        pr::finish_scopes(s).scopes.len() == 0,
    decreases s.scopes.len(),
{
    if s.scopes.len() > 0 {
        let f = s.scopes.last();
        let popped = State { scopes: s.scopes.drop_last(), ..s };
        let remarked = match pr::use_after_implicit_line(f) {
            Some(line) => pr::use_after_implicit_diagnostic(popped, line),
            None => popped,
        };
        let checked = pr::add_argument_diagnostics(remarked, f);
        lemma_arguments(remarked, f);
        let told = pr::push_diagnostic(checked, pr::unterminated_scope(checked, f));
        let ended = pr::set_symbol_end(told, f.symbol_idx, pr::source_end(s.parsed.source));
        lemma_keeps(s.parsed, remarked.parsed, checked.parsed);
        lemma_keeps(s.parsed, checked.parsed, told.parsed);
        lemma_keeps(s.parsed, told.parsed, ended.parsed);
        lemma_finish_scopes(ended);
        lemma_keeps(s.parsed, ended.parsed, pr::finish_scopes(ended).parsed);
    }
}

proof fn lemma_finish_conditionals(s: State)
    ensures
        keeps(s.parsed, pr::finish_conditionals(s).parsed),
        pr::finish_conditionals(s).preprocessor_stack.len() == 0,
    decreases s.preprocessor_stack.len(),
{
    if s.preprocessor_stack.len() > 0 {
        let f = s.preprocessor_stack.last();
        let remarked = pr::push_diagnostic(
            s,
            Diagnostic {
                range: f.range,
                severity: crate::model::DiagnosticSeverity::Error,
                message: "unterminated preprocessor conditional"@,
            },
        );
        let t = pr::push_region(
            remarked,
            crate::model::PreprocessorRegion {
                start: f.start,
                end: pr::source_end(s.parsed.source),
            },
        );
        let next = State { preprocessor_stack: s.preprocessor_stack.drop_last(), ..t };
        lemma_keeps(s.parsed, remarked.parsed, next.parsed);
        lemma_finish_conditionals(next);
        lemma_keeps(s.parsed, next.parsed, pr::finish_conditionals(next).parsed);
    }
}

proof fn lemma_flush(pending: Seq<Symbol>, i: int, symbols: Seq<Symbol>)
    ensures
        grows(symbols, pr::flush_from(pending, i, symbols)),
    decreases pending.len() - i,
{
    if i < pending.len() {
        let next = if pr::has_symbol(symbols, pending[i].scope, pending[i].name) {
            symbols
        } else {
            symbols.push(pending[i])
        };
        lemma_flush(pending, i + 1, next);
        lemma_grows(symbols, next, pr::flush_from(pending, i + 1, next));
    }
}

/// The end of a file takes back nothing of what was read before it.
pub proof fn law_finish_keeps(s: State)
    ensures
        keeps(s.parsed, pr::finish(s).parsed),
{
    let a = pr::finish_scopes(s);
    let b = pr::finish_conditionals(a);
    let c = pr::apply_symbol_visibility(b);
    let d = pr::flush_pending_legacy_symbols(c);
    lemma_finish_scopes(s);
    lemma_finish_conditionals(a);
    lemma_keeps(s.parsed, a.parsed, b.parsed);
    assert(keeps(b.parsed, c.parsed));
    lemma_keeps(s.parsed, b.parsed, c.parsed);
    lemma_flush(c.pending_legacy, 0, c.parsed.symbols);
    assert(keeps(c.parsed, d.parsed));
    lemma_keeps(s.parsed, c.parsed, d.parsed);
    lemma_keeps(s.parsed, d.parsed, pr::finish(s).parsed);
}

/// A file that was read has the path and the source that it was read with.
pub proof fn law_path_and_source(
    path: Text,
    source: Text,
    defines: Seq<(Text, Text)>,
    files: Seq<SourceFile>,
)
    ensures
        pr::parse_with_files(path, source, defines, files).path == path,
        pr::parse_with_files(path, source, defines, files).source == source,
{
    let s = pr::initial(path, source, defines);
    let lines = ssr::logical_lines(files, path, source, s.parsed.preprocessor_definitions);
    law_lines_keep(files, s, lines, 0);
    law_finish_keeps(pr::lines_from(files, s, lines, 0));
}

// ---------------------------------------------------------------------------
// Scopes
// ---------------------------------------------------------------------------

/// An `end` that fits a scope closes it: the scopes around it are open again,
/// and no others.
pub proof fn law_open_close(
    s: State,
    line: usize,
    start: sc::ScopeStart,
    end_line: usize,
    lower: Text,
)
    requires
        pr::end_target(lower) == Some(None::<SymbolKind>) || pr::end_target(lower) == Some(
            Some(start.kind),
        ),
    ensures
        pr::close_scope(pr::open_scope(s, line, start), end_line, lower).scopes == s.scopes,
{
    let t = pr::diagnose_scope_before_contains(s, line, start.kind);
    let inner = pr::open_scope(s, line, start);
    let n = s.scopes.len() as int;
    assert(t.scopes == s.scopes);
    assert(inner.scopes.len() == n + 1);
    assert(inner.scopes.last().kind == start.kind);
    assert(inner.scopes.take(n) =~= s.scopes);
    lemma_leave_all(
        State { scopes: inner.scopes.take(n), ..inner },
        inner.scopes.skip(n),
        1,
        pr::line_end(inner.parsed.source, end_line),
    );
}

/// A scope that opens is the innermost one, and its symbol stands in the
/// scopes around it.
pub proof fn law_open(s: State, line: usize, start: sc::ScopeStart)
    ensures
        pr::open_scope(s, line, start).scopes.len() == s.scopes.len() + 1,
        pr::open_scope(s, line, start).scopes.drop_last() == s.scopes,
        pr::open_scope(s, line, start).scopes.last().kind == start.kind,
        ({
            let symbols = pr::open_scope(s, line, start).parsed.symbols;
            let k = s.parsed.symbols.len() as int;
            k < symbols.len() && symbols[k].kind == start.kind && symbols[k].scope
                == pr::current_scope(s.scopes) && symbols[k].name == pr::open_scope(
                s,
                line,
                start,
            ).scopes.last().name
        }),
{
    let t = pr::diagnose_scope_before_contains(s, line, start.kind);
    let inner = pr::open_scope(s, line, start);
    assert(inner.scopes.drop_last() =~= s.scopes);
    let source_line = st::line(t.parsed.source, line as int);
    let name = pr::scope_name(source_line, line, start);
    let pushed = t.parsed.symbols.push(pr::scope_symbol(t, line, start));
    lemma_associates(
        source_line,
        line,
        t.parsed.path,
        pr::current_scope(t.scopes).push(name),
        start.associate_names,
        0,
        pushed,
    );
    assert(inner.parsed.symbols[t.parsed.symbols.len() as int]
        == pushed[t.parsed.symbols.len() as int]);
}

/// Statements in a branch that does not count leave everything as it was.
pub proof fn law_inactive_lines(files: Seq<SourceFile>, s: State, line: spp::Line)
    requires
        !pr::preprocessor_active(s.preprocessor_stack),
        spp::parse_preprocessor(
            st::trim(line.1),
            line.0,
            s.parsed.path,
            pr::current_scope(s.scopes),
        ) is None,
    ensures
        pr::line_step(files, s, line) == s,
{
}

/// A name from a legacy statement never stands beside a declared one: no two
/// names of the same scope are added.
pub proof fn law_legacy_names(pending: Seq<Symbol>, i: int, symbols: Seq<Symbol>)
    requires
        0 <= i <= pending.len(),
    ensures
        forall|k: int|
            i <= k < pending.len() ==> pr::has_symbol(
                pr::flush_from(pending, i, symbols),
                (#[trigger] pending[k]).scope,
                pending[k].name,
            ),
        grows(symbols, pr::flush_from(pending, i, symbols)),
    decreases pending.len() - i,
{
    lemma_flush(pending, i, symbols);
    if i < pending.len() {
        let next = if pr::has_symbol(symbols, pending[i].scope, pending[i].name) {
            symbols
        } else {
            symbols.push(pending[i])
        };
        let all = pr::flush_from(pending, i + 1, next);
        law_legacy_names(pending, i + 1, next);
        lemma_flush(pending, i + 1, next);
        assert(pr::has_symbol(next, pending[i].scope, pending[i].name)) by {
            if !pr::has_symbol(symbols, pending[i].scope, pending[i].name) {
                assert(next.last() == pending[i]);
                assert(next[symbols.len() as int].scope == pending[i].scope);
            }
        }
        let w = choose|w: int|
            0 <= w < next.len() && (#[trigger] next[w]).scope == pending[i].scope && st::same(
                next[w].name,
                pending[i].name,
            );
        assert(all[w] == next[w]);
        assert(pr::has_symbol(all, pending[i].scope, pending[i].name));
    }
}

/// A statement that gives a variable a value declares nothing, opens no scope
/// and ends none, whatever word the variable is called.
pub proof fn law_assignment(s: State, line: usize, statement: Text)
    requires
        sp::is_assignment(st::trim_end(statement)),
    ensures
        pr::parse_statement(s, line, statement).parsed == s.parsed,
        pr::parse_statement(s, line, statement).scopes.len() == s.scopes.len(),
{
}

/// A statement that gives an element of an array a value is no statement
/// function.
pub proof fn law_array_element(s: State, line: usize, code: Text, name: Text, args: Seq<Text>)
    requires
        sd::parse_statement_function_lhs(code) == Some((name, args)),
        pr::statement_function_variable_from(
            s.parsed.symbols,
            name,
            pr::current_scope(s.scopes),
            0,
        ) is None,
        pr::may_be_array(s.parsed, name, pr::current_scope(s.scopes)),
    ensures
        pr::parse_statement_function(s, line, code) is None,
{
}

} // verus!
