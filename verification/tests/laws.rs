//! What holds of the library as a whole, on some values.

use fortran_lsp::cursor::{identifier_prefix, word_at_line, word_range_at_source};
use fortran_lsp::expression::{eval_preprocessor_expr, parse_preprocessor_integer};
use fortran_lsp::intrinsics::{completions, find_intrinsic, intrinsics, module_symbols};
use fortran_lsp::json::Json;
use fortran_lsp::lsp::{position_to_lsp, uri_from_path};
use fortran_lsp::modules::Export;
use fortran_lsp::masking::interface_states;
use fortran_lsp::path::{components, extension, is_fixed_form_path, parent, same_path};
use fortran_lsp::preproc::expand_macros;
use fortran_lsp::protocol::{distinct_macros, parse_message, path_from_uri, position_of};
use fortran_lsp::scan::{split_statement_line, split_top_level_commas, strip_inline_comment};
use fortran_lsp::table::Table;
use fortran_lsp::text::{chars, decimal, index_of_column, join, lower_text, same_text, text};
use fortran_lsp::{
    ParsedFile, Position, Range, RenameError, SourceFile, SymbolKind, TextEdit, Workspace,
};

const MODULE: &str = "module m\nprivate\ninteger, public :: seen\ninteger :: hidden\ncontains\nsubroutine greet(name, times)\ncharacter(len=*) :: name\ninteger :: times\nend subroutine\nsubroutine run()\ncall greet('a', 2)\nend subroutine\nend module\n";

fn with_module() -> Workspace {
    let mut ws = Workspace::new();
    ws.upsert_file("m.f90", MODULE);
    ws
}

// Texts

#[test]
fn names_are_the_same_case_aside() {
    assert!(same_text("Axpy", "aXPY"));
    assert!(same_text("aXPY", "Axpy"));
    assert!(!same_text("axpy", "axp"));
    assert!(same_text("Axpy", &lower_text("Axpy")));
    assert_eq!(lower_text(&lower_text("AxPy")), "axpy");
}

#[test]
fn columns_point_at_characters() {
    let line = chars("a😀b");
    assert_eq!(index_of_column(&line, 0), 0);
    assert_eq!(index_of_column(&line, 1), 1);
    assert_eq!(index_of_column(&line, 3), 2);
    assert_eq!(index_of_column(&line, 99), 3);
}

#[test]
fn numbers_read_as_they_are_written() {
    for n in [0, 7, 10, 4096, usize::MAX / 2] {
        assert_eq!(decimal(n), n.to_string());
        assert_eq!(
            parse_preprocessor_integer(&chars(&decimal(n))),
            Some(n as i64)
        );
    }
}

#[test]
fn tables_hold_what_was_put_in_last() {
    let mut table: Table<String, String> = Table::new();
    table.insert("a".to_string(), "1".to_string());
    table.insert("b".to_string(), "2".to_string());
    table.insert("a".to_string(), "3".to_string());
    assert_eq!(table.find(&"a".to_string()), Some(&"3".to_string()));
    assert_eq!(table.find(&"b".to_string()), Some(&"2".to_string()));
    table.remove(&"a".to_string());
    assert_eq!(table.find(&"a".to_string()), None);
    assert_eq!(table.find(&"b".to_string()), Some(&"2".to_string()));
}

// Scanning

#[test]
fn comments_are_taken_off_once() {
    let line = chars("x = '!' ! note");
    let code = strip_inline_comment(&line);
    assert_eq!(text(code), "x = '!' ");
    assert_eq!(text(strip_inline_comment(code)), "x = '!' ");
    let plain = chars("x = 1");
    assert_eq!(text(strip_inline_comment(&plain)), "x = 1");
}

#[test]
fn lists_are_their_parts_with_commas() {
    let list = "a, f(b, c), 'd,e'";
    let parts = split_top_level_commas(&chars(list));
    assert_eq!(parts, vec!["a", " f(b, c)", " 'd,e'"]);
    assert_eq!(join(&parts, ","), list);
    for part in &parts {
        assert_eq!(split_top_level_commas(&chars(part)), vec![part.clone()]);
    }
}

#[test]
fn lines_are_their_statements() {
    assert_eq!(split_statement_line(&chars("x = 1  ")), vec!["x = 1"]);
    assert_eq!(split_statement_line(&chars("   ")), Vec::<String>::new());
    assert_eq!(
        split_statement_line(&chars("x = ';'; y = 2")).len(),
        2
    );
}

// Preprocessing

#[test]
fn lines_stay_without_macros() {
    let none = Table::new();
    assert_eq!(expand_macros(&chars("call A(B)"), &none), "call A(B)");
}

#[test]
fn conditions_are_computed() {
    let mut defs: Table<String, String> = Table::new();
    defs.insert("N".to_string(), "3".to_string());
    for (condition, holds) in [
        ("N", true),
        ("N == 3", true),
        ("N + 1 > 4", false),
        ("(N * 2) % 4 == 2", true),
        ("defined(N) && !defined(M)", true),
        ("defined M || N < 2", false),
        ("M", false),
        ("0x10 == 16", true),
        ("2 < 1 << 3", true),
        ("2 * 10 / 4 == 5", true),
        ("100 / 8 % 5 == 2", true),
        ("1 << 4 >> 2 == 4", true),
        ("10 - 3 - 2 == 5", true),
        ("1 < 2 == 1", true),
        ("3 > 2 > 1", false),
        ("1 | 2 == 2", true),
        ("6 & 3 == 3", false),
        ("4 ^ 4 | 1", true),
        ("0 && 0 || 1", true),
        ("1 || 0 && 0", true),
        ("!0 + 1 == 2", true),
        ("~0 == -1", true),
        ("- - 3 == N", true),
        ("-7 / 2 == -3", true),
        ("-7 % 2 == -1", true),
        ("((N)) * (1 + 1) == 6", true),
        ("(N == 3) && (N != 4)", true),
        ("N >= 3 && N <= 3", true),
        ("N /* three */ == 3", true),
        ("defined ( N )", true),
        ("!defined N", false),
        ("1 / 0", false),
        ("(N", false),
        ("defined N M", true),
        ("defined M N", false),
        ("defined(N) ! note", true),
        ("(N) 0", true),
        ("0 N", false),
        ("", false),
    ] {
        assert_eq!(
            eval_preprocessor_expr(&chars(condition), &defs),
            holds,
            "{condition}"
        );
    }
}

#[test]
fn definitions_stand_for_their_texts() {
    let mut defs: Table<String, String> = Table::new();
    defs.insert("SUM".to_string(), "1 + 2".to_string());
    defs.insert("ALL".to_string(), "(SUM)".to_string());
    defs.insert("SELF".to_string(), "SELF + 1".to_string());
    defs.insert("BARE".to_string(), String::new());
    for (condition, holds) in [
        ("SUM * 2 == 5", true),
        ("ALL * 2 == 6", true),
        ("SELF == 1", true),
        ("BARE == 1", true),
        ("defined(SUM) && defined(ALL)", true),
    ] {
        assert_eq!(
            eval_preprocessor_expr(&chars(condition), &defs),
            holds,
            "{condition}"
        );
    }
}

#[test]
fn macros_with_arguments_in_conditions() {
    let mut defs: Table<String, String> = Table::new();
    for (name, value) in [
        ("NEXT", "(x) (x) + 1"),
        ("ADD", "(a, b) ((a) + (b))"),
        ("SEVEN", "() 7"),
        ("V", "3"),
        ("AT_LEAST", "(x) (V >= (x))"),
        ("LOOP", "(x) LOOP(x) + x"),
        ("GROUP", "(V)"),
        ("NOT", "!"),
    ] {
        defs.insert(name.to_string(), value.to_string());
    }
    for (condition, holds) in [
        ("NEXT(2) == 3", true),
        ("ADD(1, 2) == 3", true),
        ("ADD(1, ADD(2, 3)) == 6", true),
        ("ADD((1 + 1) * 2, V) * 2 == 14", true),
        ("SEVEN() == 7", true),
        ("AT_LEAST(3) && !AT_LEAST(4)", true),
        ("AT_LEAST(2) || 0", true),
        ("LOOP(2) == 2", true),
        ("GROUP == 3", true),
        ("NOT (V)", false),
        ("ADD(1", false),
        ("NAME(1)", false),
    ] {
        assert_eq!(
            eval_preprocessor_expr(&chars(condition), &defs),
            holds,
            "{condition}"
        );
    }
    let parsed = ParsedFile::parse(
        "a.F90",
        "#define V 3\n#define AT_LEAST(x) (V >= (x))\n#if AT_LEAST(2)\ninteger :: yes\n#endif\n#if AT_LEAST(4)\ninteger :: no\n#endif\n",
    );
    let names: Vec<&str> = parsed.symbols.iter().map(|s| s.name.as_str()).collect();
    assert_eq!(names, vec!["yes"]);
}

#[test]
fn conditions_in_brackets() {
    let source = |condition: &str| {
        format!("module m\n#if {condition}\ninteger :: x\n#endif\nend module")
    };
    let has_x = |condition: &str, defines: &[(&str, &str)]| {
        let defines: Vec<(String, String)> = defines
            .iter()
            .map(|(name, value)| (name.to_string(), value.to_string()))
            .collect();
        let parsed = ParsedFile::parse_with_defines("c.F90", &source(condition), &defines);
        parsed.symbols.iter().any(|s| s.name == "x")
    };
    let either = "(defined(A) || defined(B))";
    let both = "(defined(A) && defined(B))";
    assert!(has_x(either, &[("B", "1")]));
    assert!(has_x(either, &[("A", "1")]));
    assert!(!has_x(either, &[]));
    assert!(has_x(both, &[("A", "1"), ("B", "1")]));
    assert!(!has_x(both, &[("A", "1")]));
    assert!(!has_x(both, &[("B", "1")]));
    assert!(has_x("(defined(A)) && (defined(B))", &[("A", "1"), ("B", "1")]));
}

#[test]
fn interfaces_open_and_close() {
    let state = |lines: &[&str], line: usize| {
        let lines: Vec<String> = lines.iter().map(|l| l.to_string()).collect();
        interface_states(&lines)[line]
    };
    assert_eq!(state(&["subroutine s", "interface_id = 3", "x = 1"], 2), None);
    assert_eq!(state(&["interface = 3", "x = 1"], 1), None);
    assert_eq!(state(&["interfaces(1) = 3", "x = 1"], 1), None);
    assert_eq!(state(&["interface", "x"], 1), Some(false));
    assert_eq!(state(&["INTERFACE operator(+) ! a", "x"], 1), Some(false));
    assert_eq!(state(&["abstract  interface", "x"], 1), Some(true));
    assert_eq!(state(&["interface", "end  interface", "x"], 2), None);
    assert_eq!(state(&["interface", "endinterface", "x"], 2), None);
    assert_eq!(state(&["interface", "end interface name", "x"], 2), None);
    assert_eq!(state(&["interface", "endinterface_id = 1", "x"], 2), Some(false));
}

#[test]
fn names_that_start_like_interface_hide_no_warning() {
    let mut ws = Workspace::new();
    ws.upsert_file(
        "a.f90",
        "module m\ninteger :: x\ninteger :: interface_id\ncontains\nsubroutine a\ninterface_id = 3\nend subroutine\nsubroutine b\ninteger :: x\nx = 1\nend subroutine\nend module\n",
    );
    let diagnostics = ws.diagnostics("a.f90");
    assert!(
        diagnostics
            .iter()
            .any(|d| d.message == "Variable \"x\" masks variable in parent scope"),
        "{diagnostics:?}"
    );
}

#[test]
fn one_branch_of_a_conditional_counts() {
    for (defines, seen, hidden) in [
        (vec![("A".to_string(), String::new())], "yes", "no"),
        (vec![], "no", "yes"),
    ] {
        let parsed = ParsedFile::parse_with_defines(
            "a.F90",
            "#ifdef A\ninteger :: yes\n#else\ninteger :: no\n#endif\ninteger :: after\n",
            &defines,
        );
        let names: Vec<&str> = parsed.symbols.iter().map(|s| s.name.as_str()).collect();
        assert!(names.contains(&seen), "{names:?}");
        assert!(!names.contains(&hidden), "{names:?}");
        assert!(names.contains(&"after"), "{names:?}");
    }
}

#[test]
fn definitions_last_until_they_are_taken_back() {
    let parsed = ParsedFile::parse(
        "a.F90",
        "#define A 1\n#define B 2\n#undef A\n#if 0\n#define C 3\n#undef B\n#endif\n",
    );
    assert_eq!(parsed.preprocessor_definitions.get("A"), None);
    assert_eq!(
        parsed.preprocessor_definitions.get("B"),
        Some(&"2".to_string())
    );
    assert_eq!(parsed.preprocessor_definitions.get("C"), None);
}

#[test]
fn definitions_from_outside_stay_without_directives() {
    let defines = vec![
        ("A".to_string(), "1".to_string()),
        ("B".to_string(), String::new()),
        ("A".to_string(), "2".to_string()),
    ];
    let parsed = ParsedFile::parse_with_defines("a.f90", "integer :: x\n", &defines);
    assert_eq!(
        parsed.preprocessor_definitions.get("A"),
        Some(&"2".to_string())
    );
    assert_eq!(
        parsed.preprocessor_definitions.get("B"),
        Some(&"1".to_string())
    );
    assert_eq!(parsed.preprocessor_definitions.get("C"), None);
}

#[test]
fn bare_definitions_have_the_value_one() {
    let source = "#if A == 1\ninteger :: x\n#endif\n";
    let bare = vec![("A".to_string(), String::new())];
    let one = vec![("A".to_string(), "1".to_string())];
    let a = ParsedFile::parse_with_defines("a.F90", source, &bare);
    let b = ParsedFile::parse_with_defines("a.F90", source, &one);
    assert_eq!(a.symbols.len(), 1);
    assert_eq!(a.symbols, b.symbols);
}

// Parsing

#[test]
fn parsed_files_keep_their_path_and_source() {
    let parsed = ParsedFile::parse("dir/a.f90", MODULE);
    assert_eq!(parsed.path, "dir/a.f90");
    assert_eq!(parsed.source, MODULE);
}

#[test]
fn scopes_open_and_close() {
    let parsed = ParsedFile::parse(
        "a.f90",
        "module m\ncontains\nsubroutine a\ninteger :: x\nend subroutine\nsubroutine b\nend subroutine\nend module\ninteger :: y\n",
    );
    let scope = |name: &str| {
        parsed
            .symbols
            .iter()
            .find(|s| s.name == name)
            .map(|s| s.scope.clone())
            .unwrap()
    };
    assert_eq!(scope("m"), Vec::<String>::new());
    assert_eq!(scope("a"), vec!["m"]);
    assert_eq!(scope("x"), vec!["m", "a"]);
    assert_eq!(scope("b"), vec!["m"]);
    assert_eq!(scope("y"), Vec::<String>::new());
}

#[test]
fn scopes_are_those_of_symbols() {
    let parsed = ParsedFile::parse(
        "a.f90",
        "module m\ntype :: t\ninteger :: i\nend type\ncontains\nsubroutine s(a)\ninteger :: a\nend subroutine\nend module\n",
    );
    assert!(parsed.symbols.len() >= 5);
    for symbol in &parsed.symbols {
        assert_eq!(symbol.file, "a.f90");
        for n in 0..symbol.scope.len() {
            assert!(
                parsed
                    .symbols
                    .iter()
                    .any(|s| s.name == symbol.scope[n] && s.scope[..] == symbol.scope[..n]),
                "{symbol:?}"
            );
        }
    }
}

#[test]
fn legacy_names_do_not_repeat_declared_ones() {
    let parsed = ParsedFile::parse(
        "a.f90",
        "subroutine s\ninteger :: a\ncommon /blk/ a, b\nend subroutine\n",
    );
    let count = |name: &str| parsed.symbols.iter().filter(|s| s.name == name).count();
    assert_eq!(count("a"), 1);
    assert_eq!(count("b"), 1);
}

#[test]
fn more_lines_take_nothing_back() {
    let short = ParsedFile::parse("a.f90", "module m\ninteger :: a\n");
    let long = ParsedFile::parse("a.f90", "module m\ninteger :: a\ninteger :: b\n");
    let names = |p: &ParsedFile| -> Vec<String> {
        p.symbols.iter().map(|s| s.name.clone()).collect()
    };
    assert_eq!(names(&short), vec!["m", "a"]);
    assert_eq!(names(&long), vec!["m", "a", "b"]);
}

// Positions

#[test]
fn words_at_positions() {
    let line = chars("  call my_sub(1)");
    assert_eq!(word_at_line(&line, 9), Some("my_sub".to_string()));
    assert_eq!(word_at_line(&line, 7), Some("my_sub".to_string()));
    assert_eq!(word_at_line(&line, 0), None);
    assert_eq!(
        word_range_at_source("x\n  call my_sub(1)", Position { line: 1, character: 9 }),
        Some(Range {
            start: Position { line: 1, character: 7 },
            end: Position { line: 1, character: 13 },
        })
    );
    assert_eq!(identifier_prefix("  call my_sub(1)", 9), "my");
    assert_eq!(identifier_prefix("  call my_sub(1)", 7), "");
}

#[test]
fn symbols_and_scopes_at_positions() {
    let parsed = ParsedFile::parse(
        "a.f90",
        "module m\ninteger :: x\ncontains\nsubroutine s\ninteger :: x\nx = 1\nend subroutine\nend module\n",
    );
    assert_eq!(parsed.scope_at(Position { line: 5, character: 0 }), vec!["m", "s"]);
    assert_eq!(parsed.scope_at(Position { line: 1, character: 0 }), vec!["m"]);
    assert_eq!(
        parsed.scope_at(Position { line: 9, character: 0 }),
        Vec::<String>::new()
    );
    let inner = parsed.symbol_at(Position { line: 5, character: 0 }).unwrap();
    assert_eq!(inner.scope, vec!["m", "s"]);
    let outer = parsed.symbol_at(Position { line: 1, character: 11 }).unwrap();
    assert_eq!(outer.scope, vec!["m"]);
    assert!(parsed.symbol_at(Position { line: 5, character: 4 }).is_none());
}

#[test]
fn the_last_of_equals_counts() {
    let parsed = ParsedFile::parse(
        "a.f90",
        "module m; type t\ninteger :: i\nend type\ninteger :: x\nreal :: x\ncontains\nsubroutine s\nx = 1\nend subroutine\nend module\n",
    );
    assert_eq!(parsed.scope_at(Position { line: 1, character: 0 }), vec!["m", "t"]);
    let x = parsed.symbol_at(Position { line: 7, character: 0 }).unwrap();
    assert_eq!(x.selection_range.start.line, 4);
}

#[test]
fn children_stand_in_order() {
    let parsed = ParsedFile::parse(
        "a.f90",
        "module m\ninteger :: b, a\ncontains\nsubroutine s\nend subroutine\nend module\n",
    );
    let roots = parsed.document_symbols();
    assert_eq!(roots.len(), 1);
    let names: Vec<&str> = roots[0].children.iter().map(|c| c.name.as_str()).collect();
    assert_eq!(names, vec!["b", "a", "s"]);
    assert_eq!(roots[0].clone(), roots[0]);
}

#[test]
fn files_without_anything() {
    let parsed = ParsedFile::default();
    assert_eq!(parsed.path, "");
    assert!(parsed.symbols.is_empty());
    assert!(parsed.document_symbols().is_empty());
}

#[test]
fn positions_and_uris_read_as_they_are_sent() {
    let pos = Position { line: 3, character: 14 };
    let sent = position_to_lsp(pos);
    assert_eq!(position_of(Some(&sent)), Some(pos));

    let files = vec![SourceFile {
        path: "link.f90".to_string(),
        canonical: "/real/one.f90".to_string(),
        source: String::new(),
    }];
    let uri = uri_from_path(&files, "link.f90");
    assert_eq!(uri, "file:///real/one.f90");
    assert_eq!(path_from_uri(&uri), Some("/real/one.f90".to_string()));
    assert_eq!(uri_from_path(&files, "/x/y.f90"), "file:///x/y.f90");
}

#[test]
fn macros_of_settings_stand_in_order() {
    let pair = |name: &str, value: &str| (name.to_string(), value.to_string());
    assert_eq!(
        distinct_macros(vec![pair("b", ""), pair("a", "2"), pair("b", ""), pair("a", "1")]),
        vec![pair("a", "1"), pair("a", "2"), pair("b", "")]
    );
}

// Intrinsic symbols

#[test]
fn intrinsic_symbols_stand_in_order() {
    let procedures = r#"{"TAN":{"type":3,"args":"X","doc":"d"},"SIN":{"type":3,"args":"X","doc":"d"}}"#;
    let modules = r#"{"env":{"name":"env","children":[{"name":"b","type":3},{"name":"a","type":3},{"name":"a","type":3}]}}"#;
    let table = intrinsics(procedures, modules).expect("two tables");
    let names: Vec<&str> = table
        .iter()
        .filter(|s| s.module.is_none() && s.args.len() == 1)
        .map(|s| s.name.as_str())
        .collect();
    assert_eq!(names, vec!["sin", "tan"]);
    assert_eq!(find_intrinsic(&table, "SIN").unwrap().name, "sin");
    assert!(find_intrinsic(&table, "cos").is_none());
    let members: Vec<String> = module_symbols(&table, "ENV")
        .into_iter()
        .map(|s| s.name)
        .collect();
    assert_eq!(members, vec!["a", "b"]);
    let offered: Vec<String> = completions(&table, "T").into_iter().map(|c| c.label).collect();
    assert_eq!(offered, vec!["tan"]);
    assert!(intrinsics("{", modules).is_none());
}

#[test]
fn intrinsic_symbols_are_there_once() {
    let procedures =
        r#"{"Abs":{"type":3,"args":"a"},"TAN":{"type":3,"args":"x"},"abs ":{"type":3,"args":"b"},"ABS":{"type":2,"args":"c"}}"#;
    let table = intrinsics(procedures, "{}").expect("two tables");
    let names: Vec<(&str, &str)> = table
        .iter()
        .filter(|s| s.args.len() == 1)
        .map(|s| (s.name.as_str(), s.args[0].as_str()))
        .collect();
    assert_eq!(names, vec![("abs", "a"), ("abs", "c"), ("tan", "x")]);
    assert_eq!(find_intrinsic(&table, "ABS").unwrap().args, vec!["a"]);
}

// Paths

#[test]
fn paths_are_their_components() {
    assert_eq!(components("/a//b/./c.f90/"), vec!["/", "a", "b", "c.f90"]);
    assert_eq!(components("./a/../b"), vec![".", "a", "..", "b"]);
    assert_eq!(components("/./a"), vec!["/", "a"]);
    assert!(components("").is_empty());
    assert!(same_path("/a//b.f90", "/a/./b.f90"));
    assert!(!same_path("/a/b.f90", "a/b.f90"));
    assert!(!same_path("a/../b", "b"));
    assert_eq!(extension("x.f90/."), Some("f90".to_string()));
    assert_eq!(extension("a.b/.f90"), None);
    assert_eq!(extension("a.f90/.."), None);
    assert_eq!(extension("/"), None);
    assert_eq!(parent("/a//b.f90"), Some("/a".to_string()));
    assert_eq!(parent("a/./b"), Some("a".to_string()));
    assert_eq!(parent("/a"), Some("/".to_string()));
    assert_eq!(parent("a"), Some(String::new()));
    assert_eq!(parent("/"), None);
    assert_eq!(parent(""), None);
    assert!(is_fixed_form_path("a/x.f/."));
}

#[test]
fn files_are_found_however_their_paths_are_written() {
    let mut ws = Workspace::new();
    ws.upsert_file("/a//b.f90", "module m\nend module\n");
    ws.upsert_file("/a/./b.f90", "module n\nend module\n");
    assert_eq!(ws.index.files.len(), 1);
    assert_eq!(ws.index.files[0].symbols[0].name, "n");
    ws.remove_file("/a/b.f90");
    assert!(ws.index.files.is_empty());
}

// Workspaces

#[test]
fn files_are_put_in_and_taken_out() {
    let mut ws = with_module();
    assert!(!ws.upsert_file("m.f90", MODULE));
    assert!(ws.upsert_file("n.f90", "module n\nend module"));
    assert_eq!(ws.file("m.f90").unwrap().source, MODULE);
    assert!(ws.upsert_file("n.f90", "module other\nend module"));
    assert_eq!(ws.file("n.f90").unwrap().source, "module other\nend module");
    ws.remove_file("n.f90");
    assert!(ws.file("n.f90").is_none());
    assert_eq!(ws.file("m.f90").unwrap().source, MODULE);
}

#[test]
fn files_read_elsewhere_are_the_same() {
    let defines = vec![("A".to_string(), "1".to_string())];
    let source = "#ifdef A\nmodule a\nend module\n#endif\n";
    let mut one = Workspace::new();
    one.set_predefined_macros(vec![("A".to_string(), "1".to_string())]);
    one.upsert_file("a.F90", source);
    let mut two = Workspace::new();
    two.upsert_parsed(ParsedFile::parse_with_defines("a.F90", source, &defines));
    assert_eq!(one.file("a.F90"), two.file("a.F90"));
}

#[test]
fn settings_count_for_all_files() {
    let mut ws = Workspace::new();
    ws.upsert_file("a.F90", "#ifdef A\nmodule a\nend module\n#endif\n");
    assert!(ws.workspace_symbols("a").is_empty());
    ws.set_predefined_macros(vec![("A".to_string(), String::new())]);
    assert_eq!(ws.workspace_symbols("a").len(), 1);
    ws.set_predefined_macros(vec![("A".to_string(), String::new())]);
    assert_eq!(ws.workspace_symbols("a").len(), 1);
}

#[test]
fn searches_find_what_holds_the_query() {
    let ws = with_module();
    let names: Vec<String> = ws
        .workspace_symbols("REE")
        .into_iter()
        .map(|s| s.name)
        .collect();
    assert_eq!(names, vec!["greet"]);
    assert!(ws.workspace_symbols("nothing").is_empty());
}

#[test]
fn modules_export_what_is_public() {
    let ws = with_module();
    assert!(matches!(ws.index.exports("m", "SEEN"), Export::Yes));
    assert!(matches!(ws.index.exports("m", "hidden"), Export::No));
    assert!(matches!(ws.index.exports("nowhere", "x"), Export::Unknown));
}

#[test]
fn renaming_changes_the_references() {
    let ws = with_module();
    let pos = Position { line: 10, character: 6 };
    let edits = ws.rename("m.f90", pos, MODULE, "welcome").expect("edits");
    let places = ws.references("m.f90", pos, MODULE);
    let wanted: Vec<TextEdit> = places
        .iter()
        .map(|loc| TextEdit {
            file: loc.file.clone(),
            range: loc.range,
            new_text: "welcome".to_string(),
        })
        .collect();
    assert_eq!(edits.len(), 2);
    assert_eq!(edits, wanted);
    let marked = ws.highlights("m.f90", pos, MODULE);
    let ranges: Vec<Range> = places.iter().map(|loc| loc.range).collect();
    assert_eq!(marked, ranges);
    assert!(matches!(
        ws.rename("m.f90", pos, MODULE, "2nd"),
        Err(RenameError::InvalidIdentifier)
    ));
    assert!(matches!(
        ws.rename("m.f90", Position { line: 10, character: 4 }, MODULE, "x"),
        Err(RenameError::UnresolvedSymbol)
    ));
}

#[test]
fn completions_start_with_what_is_typed() {
    let ws = with_module();
    let items = ws.completions("m.f90", "GR");
    assert!(!items.is_empty());
    for item in &items {
        assert!(item.label.to_lowercase().starts_with("gr"), "{}", item.label);
    }
    assert!(items.iter().any(|i| i.label == "greet" && i.kind == SymbolKind::Subroutine));
}

#[test]
fn hints_stand_on_the_lines_asked_for() {
    let ws = with_module();
    assert_eq!(ws.inlay_hints("m.f90", 0, 9), vec![]);
    let hints = ws.inlay_hints("m.f90", 10, 10);
    let labels: Vec<&str> = hints.iter().map(|h| h.label.as_str()).collect();
    assert_eq!(labels, vec!["name:", "times:"]);
    assert!(hints.iter().all(|h| h.position.line == 10));
}

#[test]
fn token_numbers_give_the_tokens_back() {
    let ws = with_module();
    let tokens = ws.semantic_tokens("m.f90");
    let data = ws.semantic_token_data("m.f90");
    assert_eq!(data.len(), 5 * tokens.len());
    assert!(!tokens.is_empty());
    let mut line = 0;
    let mut character = 0;
    for (token, numbers) in tokens.iter().zip(data.chunks(5)) {
        if numbers[0] > 0 {
            line += numbers[0];
            character = 0;
        }
        character += numbers[1];
        assert_eq!(token.range.start.line, line as usize);
        assert_eq!(token.range.start.character, character as usize);
        assert_eq!(
            token.range.end.character - token.range.start.character,
            numbers[2] as usize
        );
        assert_eq!(token.token_type, numbers[3]);
        assert_eq!(numbers[4], 0);
    }
    for pair in tokens.windows(2) {
        let (a, b) = (pair[0].range.start, pair[1].range.start);
        assert!((a.line, a.character) < (b.line, b.character));
    }
}

#[test]
fn values_are_found_by_key() {
    let value = parse_message(r#"{"a":{"b":[1,2]}}"#).unwrap();
    let inner = value.get("a").and_then(|a| a.get("b"));
    assert!(matches!(inner, Some(Json::Array(items)) if items.len() == 2));
    assert!(value.get("c").is_none());
    let copy = value.copy();
    assert!(copy.get("a").is_some());
}
