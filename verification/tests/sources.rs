//! Files that other files take in.

use fortran_lsp::{ParsedFile, SourceFile, SymbolKind, Workspace};

fn source_file(path: &str, source: &str) -> SourceFile {
    SourceFile {
        path: path.to_string(),
        canonical: path.to_string(),
        source: source.to_string(),
    }
}

#[test]
fn preprocessor_include_definitions_expand_later_source() {
    let files = vec![source_file(
        "/tmp/macro/macros.inc",
        "# ifndef USE_WRAP\n#   define WRAP(PROCEDURE) PROCEDURE\n# else\n#   define WRAP(PROCEDURE) PROCEDURE , wrap_/**/PROCEDURE\n# endif\n",
    )];
    let parsed = ParsedFile::parse_with_files(
        "/tmp/macro/macro.F90",
        "#include \"macros.inc\"\nmodule m\ninterface set\nmodule procedure WRAP(abc)\nend interface\ncontains\nsubroutine abc()\nend subroutine\nend module",
        &[],
        &files,
    );
    let interface = parsed.symbols.iter().find(|sym| sym.name == "set").unwrap();
    assert_eq!(interface.kind, SymbolKind::Interface);
    let interface_scope = vec!["m".to_string(), "set".to_string()];
    let module_procedures: Vec<_> = parsed
        .symbols
        .iter()
        .filter(|sym| sym.scope == interface_scope)
        .map(|sym| sym.name.as_str())
        .collect();
    assert_eq!(module_procedures, vec!["abc"]);
    assert!(
        parsed
            .diagnostics
            .iter()
            .all(|diag| !diag.message.contains("WRAP")),
        "{:?}",
        parsed.diagnostics
    );
}

#[test]
fn preprocessor_includes_splice_continued_procedure_arguments_and_declarations() {
    let files = vec![
        source_file(
            "/tmp/splice/args.inc",
            "! dummy arguments\n!\n\nverbose,&\npath_separator&\n",
        ),
        source_file(
            "/tmp/splice/decls.inc",
            "logical, intent(in), optional :: verbose\ncharacter(len=1), intent(in), optional :: path_separator\n",
        ),
    ];
    let parsed = ParsedFile::parse_with_files(
        "/tmp/splice/splice.F90",
        "module m\n\
implicit none\n\
contains\n\
subroutine initialize(me,&\n\
#include \"args.inc\"\n\
)\n\
integer, intent(inout) :: me\n\
#include \"decls.inc\"\n\
end subroutine\n\
end module",
        &[],
        &files,
    );

    let procedure = parsed
        .symbols
        .iter()
        .find(|sym| sym.name == "initialize")
        .unwrap();
    assert_eq!(procedure.args, vec!["me", "verbose", "path_separator"]);
    assert!(parsed.diagnostics.iter().all(|diag| {
        !diag
            .message
            .contains("No matching declaration found for argument")
            && !diag
                .message
                .contains("with INTENT keyword not found in argument list")
    }));
}

#[test]
fn workspace_diagnostics_skip_preprocessor_include_ranges_outside_wrapper() {
    let wrapper = "/tmp/wrapper/wrapper.F90";
    let source = "module m\ninteger :: x\ncontains\n#include \"body.inc\"\nend module";
    let mut ws = Workspace::new();
    ws.set_source_files(vec![source_file(
        "/tmp/wrapper/body.inc",
        "\n\n\n\n\n\n\n\n\n\nsubroutine f()\ninteger :: x\nend subroutine\n",
    )]);
    ws.upsert_file(wrapper, source);
    let diagnostics = ws.diagnostics(wrapper);

    assert!(
        diagnostics
            .iter()
            .all(|diagnostic| diagnostic.range.start.line < 5),
        "{diagnostics:?}"
    );
    assert!(
        diagnostics
            .iter()
            .all(|diagnostic| !diagnostic.message.contains("masks variable")),
        "{diagnostics:?}"
    );
}

#[test]
fn resolves_existing_include_files_from_configured_roots() {
    let app = "/tmp/project/src/app.f90";
    let mut ws = Workspace::new();
    ws.set_include_roots(vec!["/tmp/project/include".to_string()]);
    ws.set_source_files(vec![source_file(
        "/tmp/project/include/defs.inc",
        "integer :: answer",
    )]);
    ws.upsert_file(app, "program app\ninclude 'defs.inc'\nend");
    let diagnostics = ws.diagnostics(app);

    assert!(
        diagnostics
            .iter()
            .all(|diag| !diag.message.contains("defs.inc")),
        "{diagnostics:?}"
    );
}

#[test]
fn what_is_found_for_a_name_is_there() {
    let app = "/p/src/app.f90";
    let mut ws = Workspace::new();
    ws.set_include_roots(vec!["/p/first".to_string(), "/p/second".to_string()]);
    ws.set_source_files(vec![
        source_file("/p/second/defs.inc", "integer :: answer"),
        source_file("/p/src/beside.inc", "integer :: near"),
    ]);
    ws.upsert_file("/p/lib/deep/other.inc", "integer :: far");
    assert_eq!(
        ws.resolve_path(app, "defs.inc"),
        Some("/p/second/defs.inc".to_string())
    );
    assert_eq!(
        ws.resolve_path(app, "beside.inc"),
        Some("/p/src/beside.inc".to_string())
    );
    assert_eq!(
        ws.resolve_path(app, "deep/other.inc"),
        Some("/p/lib/deep/other.inc".to_string())
    );
    assert_eq!(ws.resolve_path(app, "nowhere.inc"), None);
}

#[test]
fn files_are_read_again_when_what_they_take_in_changes() {
    let app = "/p/app.F90";
    let mut ws = Workspace::new();
    ws.upsert_file(app, "module m\n#include \"part.inc\"\nend module");
    assert_eq!(ws.workspace_symbols("answer").len(), 0);
    ws.set_source_files(vec![source_file("/p/part.inc", "integer :: answer\n")]);
    assert_eq!(ws.workspace_symbols("answer").len(), 1);
    ws.set_source_files(vec![source_file("/p/part.inc", "integer :: other\n")]);
    assert_eq!(ws.workspace_symbols("answer").len(), 0);
    assert_eq!(ws.workspace_symbols("other").len(), 1);
}

#[test]
fn a_file_that_takes_itself_in_is_taken_in_once() {
    let files = vec![source_file(
        "/p/self.F90",
        "integer :: once\n#include \"self.F90\"\n",
    )];
    let parsed = ParsedFile::parse_with_files(
        "/p/self.F90",
        "integer :: once\n#include \"self.F90\"\n",
        &[],
        &files,
    );
    let count = parsed.symbols.iter().filter(|s| s.name == "once").count();
    assert_eq!(count, 2);
}
