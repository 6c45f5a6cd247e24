//! Reading a source file statement by statement.

use vstd::prelude::*;

use crate::model::{
    DiagnosticSeverity, Position, PreprocessorKind, PreprocessorRegion, Range, SymbolKind,
    Visibility,
};
use crate::parser::PreprocessorFrame;
use crate::spec::declaration as sd;
use crate::spec::expression::Definitions;
use crate::spec::masking as sk;
use crate::spec::model as sm;
use crate::spec::model::Scope;
use crate::spec::outline as so;
use crate::spec::path as sh;
use crate::spec::preproc as spp;
use crate::spec::preproc::{Line, Macros};
use crate::spec::scan as ss;
use crate::spec::scope as sc;
use crate::spec::source as ssr;
use crate::spec::source::SourceFile;
use crate::spec::statement as sp;
use crate::spec::table as sb;
use crate::spec::table::Entries;
use crate::spec::text as st;
use crate::spec::text::Text;

verus! {

// ---------------------------------------------------------------------------
// State
// ---------------------------------------------------------------------------

/// An open scope.
#[verifier::ext_equal]
pub struct ScopeFrame {
    pub name: Text,
    pub kind: SymbolKind,
    pub symbol_idx: usize,
    pub default_visibility: Visibility,
    pub implicit_line: Option<usize>,
    pub implicit_none: bool,
    pub use_after_implicit: bool,
    pub contains_line: Option<usize>,
    pub declared_variables: Seq<Text>,
    pub seen_executable: bool,
}

/// What is known at a point of a source file.
#[verifier::ext_equal]
pub struct State {
    pub parsed: sm::ParsedFile,
    pub scopes: Seq<ScopeFrame>,
    pub pending_doc: Seq<Text>,
    pub default_visibility: Entries<Scope, Visibility>,
    pub explicit_visibility: Entries<(Scope, Text), Visibility>,
    pub preprocessor_stack: Seq<PreprocessorFrame>,
    pub macros: Macros,
    pub pending_legacy: Seq<sm::Symbol>,
}

/// The value of a definition that comes from outside; one without a value is
/// 1.
pub open spec fn predefined_value(value: Text) -> Text {
    if value.len() == 0 {
        "1"@
    } else {
        value
    }
}

/// The definitions from outside from `i` on, behind `out`.
pub open spec fn predefined_from(
    defines: Seq<(Text, Text)>,
    i: int,
    out: Definitions,
) -> Definitions
    decreases defines.len() - i,
{
    if i >= defines.len() {
        out
    } else {
        predefined_from(
            defines,
            i + 1,
            sb::insert(out, defines[i].0, predefined_value(defines[i].1)),
        )
    }
}

/// The macros from outside from `i` on, behind `out`.
pub open spec fn predefined_macros_from(
    defines: Seq<(Text, Text)>,
    i: int,
    out: Macros,
) -> Macros
    decreases defines.len() - i,
{
    if i >= defines.len() {
        out
    } else {
        predefined_macros_from(
            defines,
            i + 1,
            sb::insert(
                out,
                defines[i].0,
                spp::MacroDefinition::Object(predefined_value(defines[i].1)),
            ),
        )
    }
}

/// The state at the start of a source file.
pub open spec fn initial(path: Text, source: Text, defines: Seq<(Text, Text)>) -> State {
    State {
        parsed: sm::ParsedFile {
            path,
            source,
            preprocessor_definitions: predefined_from(defines, 0, Seq::empty()),
            ..sm::no_file()
        },
        scopes: Seq::empty(),
        pending_doc: Seq::empty(),
        default_visibility: Seq::empty(),
        explicit_visibility: Seq::empty(),
        preprocessor_stack: Seq::empty(),
        macros: predefined_macros_from(defines, 0, Seq::empty()),
        pending_legacy: Seq::empty(),
    }
}

// ---------------------------------------------------------------------------
// Small steps
// ---------------------------------------------------------------------------

/// The names of the open scopes, outermost first.
pub open spec fn current_scope(scopes: Seq<ScopeFrame>) -> Scope {
    Seq::new(scopes.len(), |i: int| scopes[i].name)
}

pub open spec fn set_parsed(s: State, parsed: sm::ParsedFile) -> State {
    State { parsed, ..s }
}

pub open spec fn push_diagnostic(s: State, d: sm::Diagnostic) -> State {
    set_parsed(s, sm::ParsedFile { diagnostics: s.parsed.diagnostics.push(d), ..s.parsed })
}

pub open spec fn push_region(s: State, r: PreprocessorRegion) -> State {
    set_parsed(
        s,
        sm::ParsedFile {
            preprocessor_regions: s.parsed.preprocessor_regions.push(r),
            ..s.parsed
        },
    )
}

pub open spec fn add_symbols(s: State, symbols: Seq<sm::Symbol>) -> State {
    set_parsed(s, sm::ParsedFile { symbols: s.parsed.symbols + symbols, ..s.parsed })
}

pub open spec fn push_symbol(s: State, symbol: sm::Symbol) -> State {
    set_parsed(s, sm::ParsedFile { symbols: s.parsed.symbols.push(symbol), ..s.parsed })
}

/// The state with another innermost scope.
pub open spec fn set_frame(s: State, f: ScopeFrame) -> State {
    State { scopes: s.scopes.drop_last().push(f), ..s }
}

/// The state with a remark about all of a statement.
pub open spec fn statement_diagnostic(s: State, line: usize, code: Text, message: Text) -> State {
    push_diagnostic(
        s,
        sm::Diagnostic {
            range: sm::on_line(line, 0, st::size(st::utf16_len(code))),
            severity: DiagnosticSeverity::Error,
            message,
        },
    )
}

/// The end of a line of a text.
pub open spec fn line_end(source: Text, line: usize) -> Position {
    Position { line, character: st::size(st::utf16_len(st::line(source, line as int))) }
}

/// The end of a text.
pub open spec fn source_end(source: Text) -> Position {
    let all = st::lines(source);
    if all.len() == 0 {
        Position { line: 0, character: 0 }
    } else {
        Position {
            line: (all.len() - 1) as usize,
            character: st::size(st::utf16_len(all.last())),
        }
    }
}

/// The state in which the symbol `idx` reaches to `end`.
pub open spec fn set_symbol_end(s: State, idx: usize, end: Position) -> State {
    if idx < s.parsed.symbols.len() {
        let symbol = s.parsed.symbols[idx as int];
        set_parsed(
            s,
            sm::ParsedFile {
                symbols: s.parsed.symbols.update(
                    idx as int,
                    sm::Symbol { range: Range { start: symbol.range.start, end }, ..symbol },
                ),
                ..s.parsed
            },
        )
    } else {
        s
    }
}

/// Whether one of the open scopes is an interface.
pub open spec fn in_interface_scope(scopes: Seq<ScopeFrame>) -> bool {
    exists|i: int| 0 <= i < scopes.len() && (#[trigger] scopes[i]).kind is Interface
}

/// Whether the innermost scope is a derived type behind its `contains`.
pub open spec fn in_type_binding_part(scopes: Seq<ScopeFrame>) -> bool {
    &&& scopes.len() > 0
    &&& scopes.last().kind is Type
    &&& scopes.last().contains_line is Some
}

pub open spec fn mark_executable_statement(s: State) -> State {
    if s.scopes.len() == 0 {
        s
    } else {
        set_frame(s, ScopeFrame { seen_executable: true, ..s.scopes.last() })
    }
}

pub open spec fn mark_implicit_statement(s: State, line: usize, code: Text) -> State {
    if s.scopes.len() == 0 {
        statement_diagnostic(s, line, code, "IMPLICIT statement without enclosing scope"@)
    } else {
        let f = s.scopes.last();
        set_frame(
            s,
            ScopeFrame {
                implicit_line: match f.implicit_line {
                    Some(first) => Some(first),
                    None => Some(line),
                },
                implicit_none: sp::implicit_none_statement(code),
                ..f
            },
        )
    }
}

pub open spec fn mark_use_statement(s: State, line: usize) -> State {
    if s.scopes.len() > 0 && (s.scopes.last().implicit_line matches Some(first) && line >= first) {
        set_frame(s, ScopeFrame { use_after_implicit: true, ..s.scopes.last() })
    } else {
        s
    }
}

pub open spec fn mark_contains_statement(s: State, line: usize, code: Text) -> State {
    if s.scopes.len() == 0 {
        statement_diagnostic(s, line, code, "CONTAINS statement without enclosing scope"@)
    } else if s.scopes.last().contains_line is Some {
        statement_diagnostic(s, line, code, "Multiple CONTAINS statements in scope"@)
    } else {
        set_frame(s, ScopeFrame { contains_line: Some(line), ..s.scopes.last() })
    }
}

/// Whether procedures can stand in a scope of a kind only behind `contains`.
pub open spec fn needs_contains(kind: SymbolKind) -> bool {
    kind is Module || kind is Submodule || kind is Subroutine || kind is Function
}

pub open spec fn diagnose_scope_before_contains(s: State, line: usize, kind: SymbolKind) -> State {
    if sm::is_procedure_kind(kind) && s.scopes.len() > 0 && needs_contains(s.scopes.last().kind)
        && s.scopes.last().contains_line is None {
        statement_diagnostic(
            s,
            line,
            st::line(s.parsed.source, line as int),
            "Subroutine/Function definition before CONTAINS statement"@,
        )
    } else {
        s
    }
}

/// The line of the `implicit` statement of a scope with a `use` behind it.
pub open spec fn use_after_implicit_line(f: ScopeFrame) -> Option<usize> {
    if f.use_after_implicit {
        f.implicit_line
    } else {
        None
    }
}

pub open spec fn use_after_implicit_diagnostic(s: State, line: usize) -> State {
    statement_diagnostic(
        s,
        line,
        if line < st::lines(s.parsed.source).len() {
            st::lines(s.parsed.source)[line as int]
        } else {
            "implicit"@
        },
        "USE statements after IMPLICIT statement"@,
    )
}

// ---------------------------------------------------------------------------
// Declared names
// ---------------------------------------------------------------------------

/// The remark about a name that has an intent but is no argument.
pub open spec fn intent_diagnostic(var: sm::Symbol) -> sm::Diagnostic {
    sm::Diagnostic {
        range: var.range,
        severity: DiagnosticSeverity::Error,
        message: "Variable \""@ + var.name + "\" with INTENT keyword not found in argument list"@,
    }
}

/// The remarks about the names from `i` on, behind `out`.
pub open spec fn intent_diagnostics_from(
    vars: Seq<sm::Symbol>,
    args: Seq<Text>,
    i: int,
    out: Seq<sm::Diagnostic>,
) -> Seq<sm::Diagnostic>
    decreases vars.len() - i,
{
    if i >= vars.len() {
        out
    } else {
        intent_diagnostics_from(
            vars,
            args,
            i + 1,
            if sd::has_intent_attribute(vars[i]) && !st::has_name(args, vars[i].name) {
                out.push(intent_diagnostic(vars[i]))
            } else {
                out
            },
        )
    }
}

/// The declared names with those from `i` on.
pub open spec fn declare_from(vars: Seq<sm::Symbol>, i: int, out: Seq<Text>) -> Seq<Text>
    decreases vars.len() - i,
{
    if i >= vars.len() {
        out
    } else {
        declare_from(vars, i + 1, out.push(st::lower(vars[i].name)))
    }
}

/// The arguments of the procedure that a scope belongs to.
pub open spec fn frame_args(s: State, f: ScopeFrame) -> Seq<Text> {
    if f.symbol_idx < s.parsed.symbols.len() {
        s.parsed.symbols[f.symbol_idx as int].args
    } else {
        Seq::empty()
    }
}

pub open spec fn record_variable_declarations(s: State, vars: Seq<sm::Symbol>) -> State {
    if s.scopes.len() == 0 {
        s
    } else {
        let f = s.scopes.last();
        let marked = set_frame(
            s,
            ScopeFrame { declared_variables: declare_from(vars, 0, f.declared_variables), ..f },
        );
        if sm::is_procedure_kind(f.kind) {
            set_parsed(
                marked,
                sm::ParsedFile {
                    diagnostics: intent_diagnostics_from(
                        vars,
                        frame_args(s, f),
                        0,
                        s.parsed.diagnostics,
                    ),
                    ..s.parsed
                },
            )
        } else {
            marked
        }
    }
}

/// Whether names need declarations in a scope.
pub open spec fn effective_implicit_none(scopes: Seq<ScopeFrame>, f: ScopeFrame) -> bool {
    f.implicit_none || exists|i: int| 0 <= i < scopes.len() && (#[trigger] scopes[i]).implicit_none
}

/// The remarks about the arguments from `i` on that have no declaration,
/// behind `out`.
pub open spec fn missing_args_from(
    args: Seq<Text>,
    declared: Seq<Text>,
    range: Range,
    i: int,
    out: Seq<sm::Diagnostic>,
) -> Seq<sm::Diagnostic>
    decreases args.len() - i,
{
    if i >= args.len() {
        out
    } else {
        missing_args_from(
            args,
            declared,
            range,
            i + 1,
            if declared.contains(st::lower(args[i])) {
                out
            } else {
                out.push(
                    sm::Diagnostic {
                        range,
                        severity: DiagnosticSeverity::Error,
                        message: "No matching declaration found for argument \""@ + args[i]
                            + "\""@,
                    },
                )
            },
        )
    }
}

/// The names, in lower case, of the procedures from `i` on that an interface in
/// a scope describes, behind `out`.
pub open spec fn described_from(
    symbols: Seq<sm::Symbol>,
    scope: Scope,
    i: int,
    out: Seq<Text>,
) -> Seq<Text>
    decreases symbols.len() - i,
{
    if i >= symbols.len() {
        out
    } else {
        described_from(
            symbols,
            scope,
            i + 1,
            if is_described(symbols[i], scope) {
                out.push(st::lower(symbols[i].name))
            } else {
                out
            },
        )
    }
}

/// Whether an interface in a scope describes a procedure.
pub open spec fn is_described(s: sm::Symbol, scope: Scope) -> bool {
    sm::is_procedure_kind(s.kind) && s.scope.len() == scope.len() + 1 && s.scope.drop_last()
        == scope
}

/// The state with remarks about the arguments of a procedure that have no
/// declaration: neither one of their own nor an interface.
pub open spec fn add_argument_diagnostics(s: State, f: ScopeFrame) -> State {
    if sm::is_procedure_kind(f.kind) && effective_implicit_none(s.scopes, f) && f.symbol_idx
        < s.parsed.symbols.len() {
        let procedure = s.parsed.symbols[f.symbol_idx as int];
        set_parsed(
            s,
            sm::ParsedFile {
                diagnostics: missing_args_from(
                    procedure.args,
                    described_from(
                        s.parsed.symbols,
                        procedure.scope.push(procedure.name),
                        0,
                        f.declared_variables,
                    ),
                    procedure.selection_range,
                    0,
                    s.parsed.diagnostics,
                ),
                ..s.parsed
            },
        )
    } else {
        s
    }
}

// ---------------------------------------------------------------------------
// Opening and closing scopes
// ---------------------------------------------------------------------------

/// The name of a scope; a construct without a label is named after its line.
pub open spec fn scope_name(source_line: Text, line: usize, start: sc::ScopeStart) -> Text {
    if sm::is_construct_kind(start.kind) && sc::construct_label(st::trim(source_line)) is None {
        start.name + "@"@ + st::decimal(st::size((line + 1) as nat) as nat)
    } else {
        start.name
    }
}

/// The place of a name on a line, in UTF-16 columns.
pub open spec fn name_range(source_line: Text, line: usize, name: Text) -> Range {
    sm::span(line, st::utf16_column_of(source_line, name), st::utf16_len(name))
}

/// The name that an `associate` construct defines.
pub open spec fn associate_symbol(
    source_line: Text,
    line: usize,
    file: Text,
    scope: Scope,
    name: Text,
) -> sm::Symbol {
    let range = name_range(source_line, line, name);
    sm::bare_symbol(
        name,
        SymbolKind::Variable,
        file,
        range,
        range,
        scope,
        "associate :: "@ + name,
    )
}

/// The names that an `associate` construct defines from `i` on, behind `out`.
pub open spec fn associate_symbols_from(
    source_line: Text,
    line: usize,
    file: Text,
    scope: Scope,
    names: Seq<Text>,
    i: int,
    out: Seq<sm::Symbol>,
) -> Seq<sm::Symbol>
    decreases names.len() - i,
{
    if i >= names.len() {
        out
    } else {
        associate_symbols_from(
            source_line,
            line,
            file,
            scope,
            names,
            i + 1,
            out.push(associate_symbol(source_line, line, file, scope, names[i])),
        )
    }
}

/// The documentation that has gathered before a scope.
pub open spec fn pending_documentation(docs: Seq<Text>) -> Option<Text> {
    if docs.len() == 0 {
        None
    } else {
        Some(st::join(docs, "\n"@))
    }
}

/// The symbol of a scope that opens.
pub open spec fn scope_symbol(s: State, line: usize, start: sc::ScopeStart) -> sm::Symbol {
    let source_line = st::line(s.parsed.source, line as int);
    sm::Symbol {
        name: scope_name(source_line, line, start),
        kind: start.kind,
        file: s.parsed.path,
        range: Range {
            start: Position { line, character: 0 },
            end: line_end(s.parsed.source, line),
        },
        selection_range: name_range(source_line, line, start.selection),
        scope: current_scope(s.scopes),
        signature: start.signature,
        args: start.args,
        documentation: pending_documentation(s.pending_doc),
        visibility: match start.visibility {
            Some(visibility) => visibility,
            None => Visibility::Default,
        },
        type_spec: None,
        attributes: start.attributes,
        result: sc::parse_result_name(start.signature),
        is_parameter: false,
        is_external: false,
        extends: start.extends,
        is_abstract: start.is_abstract,
        binding_target: None,
        pass_arg: None,
        is_deferred: false,
        is_module_procedure: start.is_module_procedure,
        ancestor: start.ancestor,
    }
}

/// The frame of a scope whose symbol is the symbol `idx`.
pub open spec fn fresh_frame(name: Text, kind: SymbolKind, idx: usize) -> ScopeFrame {
    ScopeFrame {
        name,
        kind,
        symbol_idx: idx,
        default_visibility: sm::default_visibility_for_scope(kind),
        implicit_line: None,
        implicit_none: false,
        use_after_implicit: false,
        contains_line: None,
        declared_variables: Seq::empty(),
        seen_executable: false,
    }
}

pub open spec fn open_scope(before: State, line: usize, start: sc::ScopeStart) -> State {
    let s = diagnose_scope_before_contains(before, line, start.kind);
    let source_line = st::line(s.parsed.source, line as int);
    let name = scope_name(source_line, line, start);
    let child_scope = current_scope(s.scopes).push(name);
    State {
        parsed: sm::ParsedFile {
            symbols: associate_symbols_from(
                source_line,
                line,
                s.parsed.path,
                child_scope,
                start.associate_names,
                0,
                s.parsed.symbols.push(scope_symbol(s, line, start)),
            ),
            ..s.parsed
        },
        scopes: s.scopes.push(fresh_frame(name, start.kind, s.parsed.symbols.len() as usize)),
        pending_doc: Seq::empty(),
        default_visibility: sb::insert(
            s.default_visibility,
            child_scope,
            sm::default_visibility_for_scope(start.kind),
        ),
        ..s
    }
}

/// The state in which the scope of the frame `f`, no longer among the open
/// ones, ends at `end`.
pub open spec fn leave_scope(s: State, f: ScopeFrame, end: Position) -> State {
    let remarked = match use_after_implicit_line(f) {
        Some(line) => use_after_implicit_diagnostic(s, line),
        None => s,
    };
    set_symbol_end(add_argument_diagnostics(remarked, f), f.symbol_idx, end)
}

/// The state in which the first `n` of the scopes `closing` end at `end`, the
/// innermost first.
pub open spec fn leave_scopes(s: State, closing: Seq<ScopeFrame>, n: nat, end: Position) -> State
    decreases n,
{
    if n == 0 || n > closing.len() {
        s
    } else {
        leave_scopes(leave_scope(s, closing[n - 1], end), closing, (n - 1) as nat, end)
    }
}

/// The innermost of the first `n` scopes that an `end` can end: one of the
/// given kind, or any.
pub open spec fn scope_to_close(
    scopes: Seq<ScopeFrame>,
    target: Option<SymbolKind>,
    n: nat,
) -> Option<int>
    decreases n,
{
    if n == 0 || n > scopes.len() {
        None
    } else if target is None || target == Some(scopes[n - 1].kind) {
        Some(n - 1)
    } else {
        scope_to_close(scopes, target, (n - 1) as nat)
    }
}

/// The kind of scope that an `end` statement ends: `Some(None)` for any, and
/// nothing where the statement ends no scope.
pub open spec fn end_target(lower: Text) -> Option<Option<SymbolKind>> {
    if lower == "end"@ {
        Some(None)
    } else if st::starts_with(lower, "end block data"@) || st::starts_with(
        lower,
        "end blockdata"@,
    ) {
        Some(Some(SymbolKind::Program))
    } else {
        match sp::end_kind(st::first_word(st::after_word(lower))) {
            Some(kind) => Some(Some(kind)),
            None => None,
        }
    }
}

/// The remark about an `end` without a scope to end.
pub open spec fn unmatched_end_message(target: Option<SymbolKind>) -> Text {
    match target {
        Some(kind) => "end statement has no matching "@ + sm::kind_label(kind) + " scope"@,
        None => "end statement has no matching scope"@,
    }
}

pub open spec fn close_scope(s: State, line: usize, lower: Text) -> State {
    match end_target(lower) {
        Some(target) => match scope_to_close(s.scopes, target, s.scopes.len()) {
            Some(pos) => leave_scopes(
                State { scopes: s.scopes.take(pos), ..s },
                s.scopes.skip(pos),
                (s.scopes.len() - pos) as nat,
                line_end(s.parsed.source, line),
            ),
            None => statement_diagnostic(s, line, lower, unmatched_end_message(target)),
        },
        None => s,
    }
}

// ---------------------------------------------------------------------------
// Statements
// ---------------------------------------------------------------------------

/// The explicit visibilities with those of the names from `i` on.
pub open spec fn explicit_from(
    stmt: sm::VisibilityStmt,
    i: int,
    out: Entries<(Scope, Text), Visibility>,
) -> Entries<(Scope, Text), Visibility>
    decreases stmt.names.len() - i,
{
    if i >= stmt.names.len() {
        out
    } else {
        explicit_from(
            stmt,
            i + 1,
            sb::insert(out, (stmt.scope, st::lower(stmt.names[i])), stmt.visibility),
        )
    }
}

pub open spec fn apply_visibility_stmt(s: State, stmt: sm::VisibilityStmt) -> State {
    if stmt.names.len() == 0 {
        let t = State {
            default_visibility: sb::insert(s.default_visibility, stmt.scope, stmt.visibility),
            ..s
        };
        if s.scopes.len() == 0 {
            t
        } else {
            set_frame(
                t,
                ScopeFrame { default_visibility: stmt.visibility, ..s.scopes.last() },
            )
        }
    } else {
        State { explicit_visibility: explicit_from(stmt, 0, s.explicit_visibility), ..s }
    }
}

/// The symbol that an `entry` statement makes: another name of the procedure
/// around it, beside that procedure.
pub open spec fn parse_entry_statement(s: State, line: usize, code: Text) -> Option<sm::Symbol> {
    match st::after_keyword(code, "entry"@) {
        Some(rest) => if s.scopes.len() == 0 || !sm::is_procedure_kind(s.scopes.last().kind) {
            None
        } else {
            match st::first_ident(rest) {
                Some(name) => if !st::starts_with(st::trim_start(rest), name) {
                    None
                } else {
                    let args = sp::args_of(rest);
                    Some(
                        sm::Symbol {
                            args,
                            ..sd::legacy_symbol(
                                name,
                                s.scopes.last().kind,
                                code,
                                line,
                                s.parsed.path,
                                current_scope(s.scopes).drop_last(),
                                "entry "@ + name + "("@ + st::join(args, ", "@) + ")"@,
                            )
                        },
                    )
                },
                None => None,
            }
        },
        None => None,
    }
}

/// Whether a symbol is the variable that a statement function declares again.
pub open spec fn is_statement_function_variable(
    symbol: sm::Symbol,
    name: Text,
    scope: Scope,
) -> bool {
    &&& symbol.kind is Variable
    &&& st::same(symbol.name, name)
    &&& symbol.scope == scope
    &&& !st::has_name(symbol.attributes, "dimension"@)
}

/// The first variable from `i` on that a statement function declares again.
pub open spec fn statement_function_variable_from(
    symbols: Seq<sm::Symbol>,
    name: Text,
    scope: Scope,
    i: int,
) -> Option<int>
    decreases symbols.len() - i,
{
    if i >= symbols.len() {
        None
    } else if is_statement_function_variable(symbols[i], name, scope) {
        Some(i)
    } else {
        statement_function_variable_from(symbols, name, scope, i + 1)
    }
}

/// Whether a name that is no variable of its own scope can be an array there:
/// one that is declared in it or around it, or one of a module that is used.
pub open spec fn may_be_array(p: sm::ParsedFile, name: Text, scope: Scope) -> bool {
    ||| exists|i: int| 0 <= i < p.symbols.len() && is_around(#[trigger] p.symbols[i], name, scope)
    ||| exists|i: int| 0 <= i < p.uses.len() && so::is_visible(scope, (#[trigger] p.uses[i]).scope)
}

/// Whether a symbol is a variable with a name in a scope or around it.
pub open spec fn is_around(symbol: sm::Symbol, name: Text, scope: Scope) -> bool {
    symbol.kind is Variable && st::same(symbol.name, name) && so::is_visible(scope, symbol.scope)
}

/// Whether statement functions can stand at this point.
pub open spec fn allows_statement_function(scopes: Seq<ScopeFrame>) -> bool {
    &&& scopes.len() > 0
    &&& !scopes.last().seen_executable
    &&& scopes.last().kind is Program || sm::is_procedure_kind(scopes.last().kind)
}

/// The state behind a statement function; nothing where the statement is none,
/// as where it gives a value to an element of an array.
pub open spec fn parse_statement_function(s: State, line: usize, code: Text) -> Option<State> {
    if !allows_statement_function(s.scopes) {
        None
    } else {
        match sd::parse_statement_function_lhs(code) {
            Some((name, args)) => {
                let scope = current_scope(s.scopes);
                let made = sm::Symbol {
                    args,
                    ..sd::legacy_symbol(
                        name,
                        SymbolKind::Function,
                        code,
                        line,
                        s.parsed.path,
                        scope,
                        st::trim(code),
                    )
                };
                match statement_function_variable_from(s.parsed.symbols, name, scope, 0) {
                    Some(k) => Some(
                        set_parsed(
                            s,
                            sm::ParsedFile {
                                symbols: s.parsed.symbols.update(
                                    k,
                                    sm::Symbol {
                                        kind: SymbolKind::Function,
                                        args,
                                        signature: made.signature,
                                        range: made.range,
                                        selection_range: made.range,
                                        ..s.parsed.symbols[k]
                                    },
                                ),
                                ..s.parsed
                            },
                        ),
                    ),
                    None => if may_be_array(s.parsed, name, scope) {
                        None
                    } else {
                        Some(push_symbol(s, made))
                    },
                }
            },
            None => None,
        }
    }
}

/// The state behind a statement that opens a scope, is a statement function,
/// declares variables or is to be executed.
pub open spec fn parse_body_statement(s: State, line: usize, code: Text) -> State {
    match sc::parse_scope_start(code) {
        Some(start) => open_scope(s, line, start),
        None => match parse_statement_function(s, line, code) {
            Some(next) => next,
            None => match sd::parse_variables(
                code,
                line,
                s.parsed.path,
                current_scope(s.scopes),
                in_type_binding_part(s.scopes),
            ) {
                Some(vars) => add_symbols(record_variable_declarations(s, vars), vars),
                None => mark_executable_statement(s),
            },
        },
    }
}

/// The state behind a statement of an interface body, or another one.
pub open spec fn parse_interface_statement(s: State, line: usize, code: Text) -> State {
    let prototypes = sd::parse_module_procedure_prototypes(
        code,
        line,
        s.parsed.path,
        current_scope(s.scopes),
    );
    if in_interface_scope(s.scopes) && prototypes.len() > 0 {
        add_symbols(s, prototypes)
    } else {
        parse_body_statement(s, line, code)
    }
}

/// The state behind a legacy storage statement, or another one.
pub open spec fn parse_legacy_statement(s: State, line: usize, code: Text) -> State {
    let scope = current_scope(s.scopes);
    match sd::parse_common(code, line, s.parsed.path, scope) {
        Some(pending) => State { pending_legacy: s.pending_legacy + pending, ..s },
        None => match sd::parse_equivalence(code, line, s.parsed.path, scope) {
            Some(pending) => State { pending_legacy: s.pending_legacy + pending, ..s },
            None => match sd::parse_namelist(code, line, s.parsed.path, scope) {
                Some(pending) => State { pending_legacy: s.pending_legacy + pending, ..s },
                None => parse_interface_statement(s, line, code),
            },
        },
    }
}

/// The state behind an `enumerator` or `entry` statement, or another one.
pub open spec fn parse_naming_statement(s: State, line: usize, code: Text) -> State {
    let enumerators = sd::parse_enumerators(
        code,
        line,
        s.parsed.path,
        current_scope(s.scopes),
    );
    if enumerators.len() > 0 {
        add_symbols(record_variable_declarations(s, enumerators), enumerators)
    } else {
        match parse_entry_statement(s, line, code) {
            Some(entry) => push_symbol(s, entry),
            None => parse_legacy_statement(s, line, code),
        }
    }
}

/// The state behind a statement that says something of names that others
/// declare, or another one.
pub open spec fn parse_plain_statement(s: State, line: usize, code: Text) -> State {
    let scope = current_scope(s.scopes);
    match sp::parse_import(code, line, s.parsed.path, scope) {
        Some(stmt) => {
            let t = if in_interface_scope(s.scopes) {
                s
            } else {
                statement_diagnostic(s, line, code, "IMPORT statement outside of interface"@)
            };
            set_parsed(t, sm::ParsedFile { imports: t.parsed.imports.push(stmt), ..t.parsed })
        },
        None => match sp::parse_include(code, line, s.parsed.path, scope) {
            Some(stmt) => set_parsed(
                s,
                sm::ParsedFile { includes: s.parsed.includes.push(stmt), ..s.parsed },
            ),
            None => match sp::parse_generic_binding(code, line, s.parsed.path, scope) {
                Some(stmt) => set_parsed(
                    s,
                    sm::ParsedFile {
                        generic_bindings: s.parsed.generic_bindings.push(stmt),
                        ..s.parsed
                    },
                ),
                None => match sp::parse_visibility(code, line, s.parsed.path, scope) {
                    Some(stmt) => {
                        let t = apply_visibility_stmt(s, stmt);
                        set_parsed(
                            t,
                            sm::ParsedFile {
                                visibility: t.parsed.visibility.push(stmt),
                                ..t.parsed
                            },
                        )
                    },
                    None => parse_naming_statement(s, line, code),
                },
            },
        },
    }
}

/// The state behind a statement.
pub open spec fn parse_statement(s: State, line: usize, statement: Text) -> State {
    let code = st::trim_end(statement);
    let lower = st::lower(st::trim_start(code));
    if st::is_blank(code) {
        s
    } else if sp::is_assignment(code) {
        mark_executable_statement(s)
    } else if sp::end_statement(lower) is Some {
        close_scope(s, line, sp::end_statement(lower)->0)
    } else if lower == "contains"@ {
        mark_contains_statement(s, line, code)
    } else if st::after_keyword(code, "implicit"@) is Some {
        mark_implicit_statement(s, line, code)
    } else {
        match sp::parse_use(code, line, s.parsed.path, current_scope(s.scopes)) {
            Some(stmt) => {
                let t = mark_use_statement(s, line);
                set_parsed(t, sm::ParsedFile { uses: t.parsed.uses.push(stmt), ..t.parsed })
            },
            None => if st::after_keyword(code, "use"@) is Some {
                statement_diagnostic(s, line, code, "incomplete or invalid use statement"@)
            } else {
                parse_plain_statement(s, line, code)
            },
        }
    }
}

/// The state behind the statements from `i` on.
pub open spec fn parse_statements(s: State, line: usize, statements: Seq<Text>, i: int) -> State
    decreases statements.len() - i,
{
    if i >= statements.len() {
        s
    } else {
        parse_statements(parse_statement(s, line, statements[i]), line, statements, i + 1)
    }
}

// ---------------------------------------------------------------------------
// Directives
// ---------------------------------------------------------------------------

/// Whether statements count: each open conditional is in an active branch.
pub open spec fn preprocessor_active(stack: Seq<PreprocessorFrame>) -> bool {
    forall|i: int| 0 <= i < stack.len() ==> (#[trigger] stack[i]).branch_active
}

/// The state with a remark about a directive.
pub open spec fn directive_diagnostic(
    s: State,
    d: sm::PreprocessorDirective,
    message: Text,
) -> State {
    push_diagnostic(
        s,
        sm::Diagnostic { range: d.range, severity: DiagnosticSeverity::Error, message },
    )
}

/// The state in which the branch of the innermost conditional ends at a
/// directive, and another one starts there.
pub open spec fn next_branch(
    s: State,
    d: sm::PreprocessorDirective,
    frame: PreprocessorFrame,
) -> State {
    let f = s.preprocessor_stack.last();
    let t = push_region(s, PreprocessorRegion { start: f.start, end: d.range.start });
    State { preprocessor_stack: s.preprocessor_stack.drop_last().push(frame), ..t }
}

/// The state behind a directive.
pub open spec fn apply_preprocessor(s: State, d: sm::PreprocessorDirective) -> State {
    let definitions = s.parsed.preprocessor_definitions;
    let active = preprocessor_active(s.preprocessor_stack);
    let condition = spp::condition_holds(d, definitions);
    match d.kind {
        PreprocessorKind::If | PreprocessorKind::Ifdef | PreprocessorKind::Ifndef => State {
            preprocessor_stack: s.preprocessor_stack.push(
                PreprocessorFrame {
                    start: d.range.start,
                    range: d.range,
                    saw_else: false,
                    parent_active: active,
                    branch_active: active && condition,
                    any_taken: condition,
                },
            ),
            ..s
        },
        PreprocessorKind::Elif => if s.preprocessor_stack.len() == 0 {
            directive_diagnostic(s, d, "`#elif` without `#if`"@)
        } else {
            let f = s.preprocessor_stack.last();
            next_branch(
                if f.saw_else {
                    directive_diagnostic(s, d, "`#elif` cannot appear after `#else`"@)
                } else {
                    s
                },
                d,
                PreprocessorFrame {
                    start: d.range.start,
                    branch_active: !f.any_taken && f.parent_active && condition,
                    any_taken: f.any_taken || condition,
                    ..f
                },
            )
        },
        PreprocessorKind::Else => if s.preprocessor_stack.len() == 0 {
            directive_diagnostic(s, d, "`#else` without `#if`"@)
        } else {
            let f = s.preprocessor_stack.last();
            next_branch(
                if f.saw_else {
                    directive_diagnostic(s, d, "duplicate `#else` in preprocessor conditional"@)
                } else {
                    s
                },
                d,
                PreprocessorFrame {
                    start: d.range.start,
                    branch_active: f.parent_active && !f.any_taken,
                    any_taken: true,
                    saw_else: true,
                    ..f
                },
            )
        },
        PreprocessorKind::Endif => if s.preprocessor_stack.len() == 0 {
            directive_diagnostic(s, d, "`#endif` without `#if`"@)
        } else {
            let f = s.preprocessor_stack.last();
            let t = push_region(s, PreprocessorRegion { start: f.start, end: d.range.end });
            State { preprocessor_stack: s.preprocessor_stack.drop_last(), ..t }
        },
        PreprocessorKind::Define => match d.name {
            Some(name) => if active {
                State {
                    parsed: sm::ParsedFile {
                        preprocessor_definitions: sb::insert(
                            definitions,
                            name,
                            match d.argument {
                                Some(value) => value,
                                None => Seq::empty(),
                            },
                        ),
                        ..s.parsed
                    },
                    macros: sb::insert(s.macros, name, spp::macro_definition(d.argument)),
                    ..s
                }
            } else {
                s
            },
            None => s,
        },
        PreprocessorKind::Undef => match d.name {
            Some(name) => if active {
                State {
                    parsed: sm::ParsedFile {
                        preprocessor_definitions: sb::remove(definitions, name),
                        ..s.parsed
                    },
                    macros: sb::remove(s.macros, name),
                    ..s
                }
            } else {
                s
            },
            None => s,
        },
        PreprocessorKind::Include => s,
    }
}

/// A file whose directives are being taken in, up to the line `i`.
#[verifier::ext_equal]
pub struct Loading {
    pub path: Text,
    pub lines: Seq<Line>,
    pub i: nat,
}

/// The steps that the files on a stack can take without another file.
pub open spec fn steps_left(stack: Seq<Loading>) -> nat
    decreases stack.len(),
{
    if stack.len() == 0 {
        0
    } else {
        let top = stack.last();
        steps_left(stack.drop_last()) + 1 + if top.i < top.lines.len() {
            (top.lines.len() - top.i) as nat
        } else {
            0
        }
    }
}

/// The state behind the directives of the files on a stack, the last one
/// first. A file whose directives were taken in is passed over.
pub open spec fn load_from(
    files: Seq<SourceFile>,
    stack: Seq<Loading>,
    visited: Seq<Text>,
    s: State,
) -> State
    decreases ssr::unvisited(files, visited, files.len()), steps_left(stack),
{
    if stack.len() == 0 {
        s
    } else {
        let top = stack.last();
        let rest = stack.drop_last();
        if top.i >= top.lines.len() {
            load_from(files, rest, visited, s)
        } else {
            let line = top.lines[top.i as int];
            let passed = rest.push(Loading { i: top.i + 1, ..top });
            proof {
                assert(passed.drop_last() =~= rest);
            }
            match spp::parse_preprocessor(
                st::trim(line.1),
                line.0,
                top.path,
                current_scope(s.scopes),
            ) {
                Some(d) => {
                    let next = apply_preprocessor(s, d);
                    match include_target(files, top.path, s, d) {
                        Some(k) => if sh::holds_path(visited, files[k].canonical) {
                            load_from(files, passed, visited, next)
                        } else {
                            proof {
                                lemma_include_target(files, top.path, s, d);
                                ssr::lemma_unvisited(files, visited, k, files.len());
                            }
                            load_from(
                                files,
                                passed.push(loading(files, k, next)),
                                visited.push(files[k].canonical),
                                next,
                            )
                        },
                        None => load_from(files, passed, visited, next),
                    }
                },
                None => load_from(files, passed, visited, s),
            }
        }
    }
}

/// The file that an active `#include` in the file `from` takes in.
pub open spec fn include_target(
    files: Seq<SourceFile>,
    from: Text,
    s: State,
    d: sm::PreprocessorDirective,
) -> Option<int> {
    match d.argument {
        Some(name) => if d.kind is Include && preprocessor_active(s.preprocessor_stack) {
            ssr::resolve(files, from, name)
        } else {
            None
        },
        None => None,
    }
}

/// The file `k` before its first line.
pub open spec fn loading(files: Seq<SourceFile>, k: int, s: State) -> Loading {
    Loading {
        path: files[k].canonical,
        lines: ssr::logical_lines(
            files,
            files[k].canonical,
            files[k].source,
            s.parsed.preprocessor_definitions,
        ),
        i: 0,
    }
}

pub proof fn lemma_include_target(
    files: Seq<SourceFile>,
    from: Text,
    s: State,
    d: sm::PreprocessorDirective,
)
    ensures
        include_target(files, from, s, d) matches Some(k) ==> 0 <= k < files.len(),
{
    if let Some(name) = d.argument {
        if let Some(path) = ssr::candidate(from, name) {
            ssr::lemma_find_file(files, path, 0);
        }
    }
}

/// The state behind the directives of the file that an active `#include`
/// takes in. `next` is the state behind the directive, `s` the one before it.
pub open spec fn load_include(
    files: Seq<SourceFile>,
    s: State,
    d: sm::PreprocessorDirective,
    next: State,
) -> State {
    match include_target(files, s.parsed.path, s, d) {
        Some(k) => if sh::same_path(files[k].canonical, s.parsed.path) {
            next
        } else {
            load_from(
                files,
                seq![loading(files, k, next)],
                seq![s.parsed.path, files[k].canonical],
                next,
            )
        },
        None => next,
    }
}

/// The state behind a line with a directive.
pub open spec fn directive_step(
    files: Seq<SourceFile>,
    s: State,
    d: sm::PreprocessorDirective,
) -> State {
    let applied = apply_preprocessor(s, d);
    let included = match d.argument {
        Some(path) => if d.kind is Include && preprocessor_active(s.preprocessor_stack) {
            set_parsed(
                applied,
                sm::ParsedFile {
                    includes: applied.parsed.includes.push(
                        sm::IncludeStmt {
                            path,
                            file: applied.parsed.path,
                            range: d.range,
                            scope: d.scope,
                        },
                    ),
                    ..applied.parsed
                },
            )
        } else {
            applied
        },
        None => applied,
    };
    let t = load_include(files, s, d, included);
    set_parsed(t, sm::ParsedFile { preprocessor: t.parsed.preprocessor.push(d), ..t.parsed })
}

// ---------------------------------------------------------------------------
// Files
// ---------------------------------------------------------------------------

/// The state behind a logical line.
pub open spec fn line_step(files: Seq<SourceFile>, s: State, line: Line) -> State {
    if st::is_blank(line.1) {
        s
    } else {
        match spp::parse_preprocessor(
            st::trim(line.1),
            line.0,
            s.parsed.path,
            current_scope(s.scopes),
        ) {
            Some(d) => directive_step(files, s, d),
            None => if !preprocessor_active(s.preprocessor_stack) {
                s
            } else {
                match sp::parse_doc_comment(line.1) {
                    Some(doc) => State { pending_doc: s.pending_doc.push(doc), ..s },
                    None => parse_statements(
                        s,
                        line.0,
                        ss::split_statement_line(
                            spp::expand_macros(ss::strip_inline_comment(line.1), s.macros),
                        ),
                        0,
                    ),
                }
            },
        }
    }
}

/// The state behind the logical lines from `i` on.
pub open spec fn lines_from(
    files: Seq<SourceFile>,
    s: State,
    lines: Seq<Line>,
    i: int,
) -> State
    decreases lines.len() - i,
{
    if i >= lines.len() {
        s
    } else {
        lines_from(files, line_step(files, s, lines[i]), lines, i + 1)
    }
}

/// The remark about a scope that is still open at the end of the source.
pub open spec fn unterminated_scope(s: State, f: ScopeFrame) -> sm::Diagnostic {
    sm::Diagnostic {
        range: if f.symbol_idx < s.parsed.symbols.len() {
            s.parsed.symbols[f.symbol_idx as int].selection_range
        } else {
            Range { start: source_end(s.parsed.source), end: source_end(s.parsed.source) }
        },
        severity: DiagnosticSeverity::Warning,
        message: "unterminated "@ + sm::kind_label(f.kind) + " scope `"@ + f.name + "`"@,
    }
}

/// The state in which no scope is open.
pub open spec fn finish_scopes(s: State) -> State
    decreases s.scopes.len(),
{
    if s.scopes.len() == 0 {
        s
    } else {
        let f = s.scopes.last();
        let popped = State { scopes: s.scopes.drop_last(), ..s };
        let remarked = match use_after_implicit_line(f) {
            Some(line) => use_after_implicit_diagnostic(popped, line),
            None => popped,
        };
        let checked = add_argument_diagnostics(remarked, f);
        finish_scopes(
            set_symbol_end(
                push_diagnostic(checked, unterminated_scope(checked, f)),
                f.symbol_idx,
                source_end(s.parsed.source),
            ),
        )
    }
}

/// The state in which no conditional is open.
pub open spec fn finish_conditionals(s: State) -> State
    decreases s.preprocessor_stack.len(),
{
    if s.preprocessor_stack.len() == 0 {
        s
    } else {
        let f = s.preprocessor_stack.last();
        let remarked = push_diagnostic(
            s,
            sm::Diagnostic {
                range: f.range,
                severity: DiagnosticSeverity::Error,
                message: "unterminated preprocessor conditional"@,
            },
        );
        let t = push_region(
            remarked,
            PreprocessorRegion { start: f.start, end: source_end(s.parsed.source) },
        );
        finish_conditionals(
            State { preprocessor_stack: s.preprocessor_stack.drop_last(), ..t },
        )
    }
}

/// The visibility that a symbol has in the end.
pub open spec fn final_visibility(s: State, symbol: sm::Symbol) -> Visibility {
    match sb::find(s.explicit_visibility, (symbol.scope, st::lower(symbol.name))) {
        Some(visibility) => visibility,
        None => if symbol.scope.len() == 1 && symbol.visibility is Default {
            match sb::find(s.default_visibility, symbol.scope) {
                Some(visibility) => visibility,
                None => Visibility::Public,
            }
        } else {
            symbol.visibility
        },
    }
}

/// The state in which the symbols have their visibility.
pub open spec fn apply_symbol_visibility(s: State) -> State {
    set_parsed(
        s,
        sm::ParsedFile {
            symbols: Seq::new(
                s.parsed.symbols.len(),
                |i: int|
                    sm::Symbol {
                        visibility: final_visibility(s, s.parsed.symbols[i]),
                        ..s.parsed.symbols[i]
                    },
            ),
            ..s.parsed
        },
    )
}

/// Whether one of the symbols has the given scope and name, case of the name
/// aside.
pub open spec fn has_symbol(symbols: Seq<sm::Symbol>, scope: Scope, name: Text) -> bool {
    exists|i: int|
        0 <= i < symbols.len() && (#[trigger] symbols[i]).scope == scope && st::same(
            symbols[i].name,
            name,
        )
}

/// The symbols with those from legacy statements from `i` on that no other
/// symbol stands for.
pub open spec fn flush_from(
    pending: Seq<sm::Symbol>,
    i: int,
    symbols: Seq<sm::Symbol>,
) -> Seq<sm::Symbol>
    decreases pending.len() - i,
{
    if i >= pending.len() {
        symbols
    } else {
        flush_from(
            pending,
            i + 1,
            if has_symbol(symbols, pending[i].scope, pending[i].name) {
                symbols
            } else {
                symbols.push(pending[i])
            },
        )
    }
}

pub open spec fn flush_pending_legacy_symbols(s: State) -> State {
    State {
        parsed: sm::ParsedFile {
            symbols: flush_from(s.pending_legacy, 0, s.parsed.symbols),
            ..s.parsed
        },
        pending_legacy: Seq::empty(),
        ..s
    }
}

/// The state with the remarks about the symbols as a whole.
pub open spec fn add_symbol_diagnostics(s: State) -> State {
    set_parsed(
        s,
        sm::ParsedFile {
            diagnostics: s.parsed.diagnostics + sk::duplicate_diagnostics(s.parsed.symbols)
                + sk::masking_diagnostics(s.parsed),
            ..s.parsed
        },
    )
}

/// The state behind all of a source file.
pub open spec fn finish(s: State) -> State {
    add_symbol_diagnostics(
        flush_pending_legacy_symbols(
            apply_symbol_visibility(finish_conditionals(finish_scopes(s))),
        ),
    )
}

/// A source file, read with the given definitions from outside. `files` are
/// the files that it can take in.
pub open spec fn parse_with_files(
    path: Text,
    source: Text,
    defines: Seq<(Text, Text)>,
    files: Seq<SourceFile>,
) -> sm::ParsedFile {
    let s = initial(path, source, defines);
    finish(
        lines_from(
            files,
            s,
            ssr::logical_lines(files, path, source, s.parsed.preprocessor_definitions),
            0,
        ),
    ).parsed
}

} // verus!
