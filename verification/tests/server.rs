//! Messages to the server and what it answers.

use fortran_lsp::json::Json;
use fortran_lsp::protocol::{
    action, existing_dirs, framed, head_step, header, is_fortran, is_fortran_indexable,
    is_skipped_dir, parse_body, parse_message, parse_predefined_macros, path_from_uri,
    root_candidates, written_message, Action, Head, Header,
};
use fortran_lsp::server::document_path;
use fortran_lsp::{Outcome, Outside, Server};

fn message(text: &str) -> Json {
    parse_message(text).expect("a message")
}

fn nothing() -> Outside {
    on_disk(None)
}

fn on_disk(text: Option<&str>) -> Outside {
    Outside {
        disk: text.map(str::to_string),
        dirs: Vec::new(),
        files: Vec::new(),
    }
}

/// The body of what is sent for a value.
fn body(value: &Json) -> String {
    let sent = written_message(value);
    let (_, body) = sent.split_once("\r\n\r\n").expect("a head");
    body.to_string()
}

fn reply(outcome: &Outcome) -> String {
    body(outcome.reply.as_ref().expect("a reply"))
}

fn send(server: &mut Server, text: &str) -> Outcome {
    server.handle_message(&message(text), &nothing(), "1.2.3")
}

/// Opens the document `/w/a.f90` with a text.
fn open(server: &mut Server, text: &str) -> Outcome {
    let msg = format!(
        r#"{{"method":"textDocument/didOpen","params":{{"textDocument":{{"uri":"file:///w/a.f90","text":{text:?}}}}}}}"#
    );
    send(server, &msg)
}

/// Asks about a position of the document `/w/a.f90`.
fn ask(server: &mut Server, method: &str, line: usize, character: usize) -> String {
    let msg = format!(
        r#"{{"id":7,"method":{method:?},"params":{{"textDocument":{{"uri":"file:///w/a.f90"}},"position":{{"line":{line},"character":{character}}}}}}}"#
    );
    reply(&send(server, &msg))
}

#[test]
fn heads_of_messages() {
    assert!(matches!(header("\r\n"), Header::End));
    assert!(matches!(
        header("Content-Length: 12\r\n"),
        Header::Length(Some(12))
    ));
    assert!(matches!(
        header("Content-Length: x\r\n"),
        Header::Length(None)
    ));
    assert!(matches!(header("Content-Type: a\r\n"), Header::Other));
    assert_eq!(framed("äb"), "Content-Length: 3\r\n\r\näb");
}

#[test]
fn heads_are_read_line_by_line() {
    assert_eq!(
        head_step(None, "Content-Length: 12\r\n"),
        Head::More(Some(12))
    );
    assert_eq!(
        head_step(Some(12), "Content-Type: a\r\n"),
        Head::More(Some(12))
    );
    assert_eq!(
        head_step(Some(12), "Content-Length: 7\r\n"),
        Head::More(Some(7))
    );
    assert_eq!(head_step(Some(12), "Content-Length: x\r\n"), Head::More(None));
    assert_eq!(head_step(Some(12), "\r\n"), Head::Done(Some(12)));
    assert_eq!(head_step(None, "\n"), Head::Done(None));
}

#[test]
fn bodies_are_read_from_bytes() {
    let value = parse_body("{\"a\":\"ä\"}".as_bytes().to_vec()).expect("a message");
    assert_eq!(body(&value), "{\"a\":\"ä\"}");
    assert!(parse_body(vec![b'"', 0xff, b'"']).is_none());
    assert!(parse_body(b"{".to_vec()).is_none());
    assert!(parse_body(Vec::new()).is_none());
}

#[test]
fn numbers_come_back_as_they_were_sent() {
    for number in [
        "0",
        "18446744073709551615",
        "-9223372036854775808",
        "0.1",
        "123.456",
        "-2.5",
        "1.7976931348623157e+308",
        "5e-324",
        "0.30000000000000004",
        "9007199254740993.0",
    ] {
        let text = format!("{{\"n\":{number}}}");
        let same: serde_json::Value = serde_json::from_str(&text).unwrap();
        assert_eq!(body(&message(&text)), same.to_string(), "{number}");
    }
    let mut server = Server::new();
    let reply = reply(&send(&mut server, r#"{"id":0.30000000000000004,"method":"shutdown"}"#));
    assert!(reply.contains("\"id\":0.30000000000000004"), "{reply}");
}

#[test]
fn open_documents_are_known_however_their_paths_are_written() {
    let mut server = Server::new();
    open(&mut server, "module m\nend module\n");
    assert_eq!(server.open_sources.entries.len(), 1);
    let msg = r#"{"method":"textDocument/didOpen","params":{"textDocument":{"uri":"file:///w//./a.f90","text":"module n\nend module\n"}}}"#;
    send(&mut server, msg);
    assert_eq!(server.open_sources.entries.len(), 1);
    assert_eq!(server.workspace.index.files.len(), 1);
    assert_eq!(
        server.source_for_uri("file:///w/a.f90", &None).unwrap().1,
        "module n\nend module\n"
    );
    let msg = r#"{"method":"textDocument/didClose","params":{"textDocument":{"uri":"file:///w//a.f90"}}}"#;
    send(&mut server, msg);
    assert_eq!(server.open_sources.entries.len(), 0);
    assert_eq!(server.workspace.index.files.len(), 0);
}

#[test]
fn messages_are_written_as_they_are_read() {
    let value = message(r#"{"a":[1,-2,true,null,"x\ny"]}"#);
    assert_eq!(body(&value), r#"{"a":[1,-2,true,null,"x\ny"]}"#);
    assert!(parse_message("{").is_none());
}

#[test]
fn paths_of_uris() {
    assert_eq!(
        path_from_uri("file:///a%20b/c.f90"),
        Some("/a b/c.f90".to_string())
    );
    assert_eq!(
        path_from_uri("file:///a%c3%a4.f90"),
        Some("/aä.f90".to_string())
    );
    assert_eq!(path_from_uri("file:///a%f"), Some("/a%f".to_string()));
    assert_eq!(path_from_uri("file:///a%ff"), None);
    assert_eq!(path_from_uri("file:///a%zz.f90"), None);
    assert_eq!(path_from_uri("http://a"), None);
    assert_eq!(path_from_uri("file:///plain.f90"), Some("/plain.f90".to_string()));
}

#[test]
fn names_of_sources() {
    assert!(is_fortran("/a/b.F90"));
    assert!(is_fortran("b.for"));
    assert!(!is_fortran("b.inc"));
    assert!(is_fortran_indexable("b.INC"));
    assert!(!is_fortran_indexable("b.txt"));
    assert!(!is_fortran_indexable(".f90"));
    assert!(is_skipped_dir(".git"));
    assert!(is_skipped_dir("target"));
    assert!(is_skipped_dir("build"));
    assert!(!is_skipped_dir("src"));
}

#[test]
fn what_messages_ask_for() {
    assert!(matches!(
        action(&message(r#"{"method":"initialize","id":1}"#)),
        Action::Initialize
    ));
    assert!(matches!(
        action(&message(r#"{"method":"initialized"}"#)),
        Action::Nothing
    ));
    assert!(matches!(
        action(&message(r#"{"method":"x","id":1}"#)),
        Action::Request
    ));
    assert!(matches!(
        action(&message(r#"{"method":"x"}"#)),
        Action::Nothing
    ));
    assert!(matches!(action(&message(r#"{"id":1}"#)), Action::Nothing));
}

#[test]
fn macros_from_settings() {
    let pair = |name: &str, value: &str| (name.to_string(), value.to_string());
    let listed = message(r#"{"predefinedMacros":["B=2"," -DA","-DA=3","B=2","=4",""]}"#);
    assert_eq!(
        parse_predefined_macros(&listed),
        vec![pair("A", ""), pair("A", "3"), pair("B", "2")]
    );
    let keyed = message(r#"{"predefinedMacros":{"E":"x","C":true,"D":4}}"#);
    assert_eq!(
        parse_predefined_macros(&keyed),
        vec![pair("C", "true"), pair("D", "4"), pair("E", "x")]
    );
    assert_eq!(parse_predefined_macros(&message("{}")), vec![]);
}

#[test]
fn roots_are_taken_once() {
    let msg = message(
        r#"{"params":{"rootUri":"file:///w","initializationOptions":{"includeRoots":["/x"]}}}"#,
    );
    assert_eq!(
        root_candidates(&msg),
        vec!["/w", "/w/include", "/w/inc", "/w/src", "/x"]
    );
    let dirs = vec![
        ("/w".to_string(), Some("/w".to_string())),
        ("/w/include".to_string(), None),
        ("/link".to_string(), Some("/w".to_string())),
        ("/x".to_string(), Some("/x".to_string())),
    ];
    assert_eq!(existing_dirs(&dirs), vec!["/w", "/x"]);
}

#[test]
fn starting_and_stopping() {
    let mut server = Server::new();
    let started = send(&mut server, r#"{"id":1,"method":"initialize","params":{}}"#);
    assert!(!started.exit);
    let text = reply(&started);
    assert!(text.contains(r#""id":1"#), "{text}");
    assert!(text.contains(r#""version":"1.2.3""#), "{text}");
    assert!(text.contains(r#""renameProvider":true"#), "{text}");
    assert!(!server.shutdown_requested);
    let stopped = send(&mut server, r#"{"id":"two","method":"shutdown"}"#);
    assert_eq!(
        reply(&stopped),
        r#"{"id":"two","jsonrpc":"2.0","result":null}"#
    );
    assert!(server.shutdown_requested);
    let last = send(&mut server, r#"{"method":"exit"}"#);
    assert!(last.exit);
    assert!(last.reply.is_none());
}

#[test]
fn settings_and_sources_of_a_start() {
    let mut server = Server::new();
    open(&mut server, "program open_one\nend program\n");
    let msg = message(
        r#"{"id":1,"method":"initialize","params":{"initializationOptions":{"maxLineLength":10}}}"#,
    );
    let outside = Outside {
        disk: None,
        dirs: vec![("/w".to_string(), Some("/w".to_string()))],
        files: vec![
            ("/w/a.f90".to_string(), "program on_disk\nend".to_string()),
            ("/w/b.f90".to_string(), "module b\nend module".to_string()),
        ],
    };
    server.handle_message(&msg, &outside, "1");
    assert_eq!(server.workspace.include_roots, vec!["/w"]);
    assert_eq!(server.workspace.max_line_length, Some(10));
    assert_eq!(server.workspace.max_comment_line_length, None);
    assert!(server.workspace.file("/w/b.f90").is_some());
    let kept = server.workspace.file("/w/a.f90").expect("the open one");
    assert_eq!(kept.source, "program open_one\nend program\n");
}

#[test]
fn open_documents_hide_what_is_on_disk() {
    let mut server = Server::new();
    let opened = open(&mut server, "program first\nend program first\n");
    let text = reply(&opened);
    assert!(text.contains("textDocument/publishDiagnostics"), "{text}");
    assert!(text.contains("file:///w/a.f90"), "{text}");
    let symbols = r#"{"id":3,"method":"textDocument/documentSymbol","params":{"textDocument":{"uri":"file:///w/a.f90"}}}"#;
    let disk = on_disk(Some("program other\nend"));
    let answer = server.handle_message(&message(symbols), &disk, "1");
    let text = reply(&answer);
    assert!(text.contains(r#""name":"first""#), "{text}");
    assert!(!text.contains("other"), "{text}");

    let change = r#"{"method":"textDocument/didChange","params":{"textDocument":{"uri":"file:///w/a.f90"},"contentChanges":[{"text":"x"},{"text":"program second\nend"}]}}"#;
    send(&mut server, change);
    assert_eq!(
        server.workspace.file("/w/a.f90").unwrap().source,
        "program second\nend"
    );

    let save = r#"{"method":"textDocument/didSave","params":{"textDocument":{"uri":"file:///w/a.f90"}}}"#;
    server.handle_message(&message(save), &on_disk(Some("program third\nend")), "1");
    assert_eq!(
        server.workspace.file("/w/a.f90").unwrap().source,
        "program third\nend"
    );

    let close = r#"{"method":"textDocument/didClose","params":{"textDocument":{"uri":"file:///w/a.f90"}}}"#;
    server.handle_message(&message(close), &on_disk(Some("program fourth\nend")), "1");
    assert_eq!(
        server.workspace.file("/w/a.f90").unwrap().source,
        "program fourth\nend"
    );
    server.handle_message(&message(close), &nothing(), "1");
    assert!(server.workspace.file("/w/a.f90").is_none());
}

#[test]
fn requests_read_files_that_are_not_open() {
    let mut server = Server::new();
    let symbols = r#"{"id":3,"method":"textDocument/documentSymbol","params":{"textDocument":{"uri":"file:///w/a.f90"}}}"#;
    let disk = on_disk(Some("program there\nend program there"));
    let text = reply(&server.handle_message(&message(symbols), &disk, "1"));
    assert!(text.contains(r#""name":"there""#), "{text}");
    assert!(server.workspace.file("/w/a.f90").is_some());
}

#[test]
fn unknown_documents_are_answered_nothing() {
    let mut server = Server::new();
    for (method, wanted) in [
        ("textDocument/hover", "null"),
        ("textDocument/signatureHelp", "null"),
        ("textDocument/definition", "null"),
        ("textDocument/implementation", "null"),
        ("textDocument/completion", r#"{"isIncomplete":false,"items":[]}"#),
        ("textDocument/documentSymbol", "[]"),
        ("textDocument/foldingRange", "[]"),
        ("textDocument/codeAction", "[]"),
        ("textDocument/references", "[]"),
        ("textDocument/documentHighlight", "[]"),
        ("textDocument/selectionRange", "[]"),
        ("textDocument/inlayHint", "[]"),
        ("textDocument/semanticTokens/full", r#"{"data":[]}"#),
        ("textDocument/rename", "null"),
        ("no/such/method", "null"),
    ] {
        assert_eq!(
            ask(&mut server, method, 0, 0),
            format!(r#"{{"id":7,"jsonrpc":"2.0","result":{wanted}}}"#)
        );
    }
    assert!(server.workspace.file("/w/a.f90").is_none());
}

#[test]
fn files_that_are_no_sources_are_left_alone() {
    let mut server = Server::new();
    let opened = send(
        &mut server,
        r#"{"method":"textDocument/didOpen","params":{"textDocument":{"uri":"file:///w/a.txt","text":"program x"}}}"#,
    );
    assert!(opened.reply.is_none());
    assert!(server.workspace.file("/w/a.txt").is_none());
}

#[test]
fn answers_about_a_document() {
    let source = "module m\ncontains\nsubroutine greet(name, times)\ncharacter(len=*) :: name\ninteger :: times\nend subroutine\nsubroutine run()\ncall greet('a', 2)\nend subroutine\nend module\n";
    let mut server = Server::new();
    open(&mut server, source);

    let text = ask(&mut server, "textDocument/hover", 7, 6);
    assert!(text.contains("subroutine greet"), "{text}");
    assert!(text.contains("markdown"), "{text}");

    let text = ask(&mut server, "textDocument/definition", 7, 6);
    assert!(text.contains(r#""uri":"file:///w/a.f90""#), "{text}");
    assert!(text.contains(r#""start":{"character":11,"line":2}"#), "{text}");

    let text = ask(&mut server, "textDocument/references", 7, 6);
    assert_eq!(text.matches("\"uri\"").count(), 2, "{text}");

    let text = ask(&mut server, "textDocument/documentHighlight", 7, 6);
    assert_eq!(text.matches("\"kind\":1").count(), 2, "{text}");

    let text = ask(&mut server, "textDocument/signatureHelp", 7, 16);
    assert!(text.contains(r#""activeParameter":1"#), "{text}");

    let text = ask(&mut server, "textDocument/completion", 7, 8);
    assert!(text.contains(r#""label":"greet""#), "{text}");

    let text = ask(&mut server, "textDocument/foldingRange", 0, 0);
    assert!(text.contains(r#""startLine":2"#), "{text}");

    let text = ask(&mut server, "textDocument/semanticTokens/full", 0, 0);
    assert_eq!(
        text,
        r#"{"id":7,"jsonrpc":"2.0","result":{"data":[0,0,1,0,0,2,11,5,2,0,1,20,4,6,0,1,11,5,6,0,2,11,3,2,0]}}"#
    );

    let hints = r#"{"id":7,"method":"textDocument/inlayHint","params":{"textDocument":{"uri":"file:///w/a.f90"},"range":{"start":{"line":0,"character":0},"end":{"line":9,"character":0}}}}"#;
    let text = reply(&send(&mut server, hints));
    assert!(text.contains(r#""label":"name:""#), "{text}");
    assert!(text.contains(r#""label":"times:""#), "{text}");

    let ranges = r#"{"id":7,"method":"textDocument/selectionRange","params":{"textDocument":{"uri":"file:///w/a.f90"},"positions":[{"line":7,"character":6}]}}"#;
    let text = reply(&send(&mut server, ranges));
    assert!(text.contains("\"parent\""), "{text}");

    let found = r#"{"id":7,"method":"workspace/symbol","params":{"query":"gree"}}"#;
    let text = reply(&send(&mut server, found));
    assert!(text.contains(r#""name":"m::greet""#), "{text}");
    assert!(text.contains(r#""containerName":"m""#), "{text}");
}

#[test]
fn renaming() {
    let source = "subroutine a()\ninteger :: x, y\nx = 1\nend subroutine\n";
    let mut server = Server::new();
    open(&mut server, source);
    let rename = |name: &str| {
        format!(
            r#"{{"id":7,"method":"textDocument/rename","params":{{"textDocument":{{"uri":"file:///w/a.f90"}},"position":{{"line":2,"character":0}},"newName":{name:?}}}}}"#
        )
    };
    let text = reply(&send(&mut server, &rename("z")));
    assert_eq!(text.matches(r#""newText":"z""#).count(), 2, "{text}");
    assert_eq!(
        reply(&send(&mut server, &rename("1x"))),
        r#"{"id":7,"jsonrpc":"2.0","result":{"documentChanges":[],"failureReason":"New name is not a valid Fortran identifier"}}"#
    );
    assert_eq!(
        reply(&send(&mut server, &rename("y"))),
        r#"{"id":7,"jsonrpc":"2.0","result":{"documentChanges":[],"failureReason":"Rename would conflict with symbol at /w/a.f90:2:15"}}"#
    );
    let nowhere = r#"{"id":7,"method":"textDocument/rename","params":{"textDocument":{"uri":"file:///w/a.f90"},"position":{"line":2,"character":4},"newName":"z"}}"#;
    assert_eq!(
        reply(&send(&mut server, nowhere)),
        r#"{"id":7,"jsonrpc":"2.0","result":{"documentChanges":[],"failureReason":"No Fortran symbol at cursor"}}"#
    );
}

#[test]
fn paths_that_messages_speak_of() {
    let msg = message(r#"{"params":{"textDocument":{"uri":"file:///w/a.f90"}}}"#);
    assert_eq!(document_path(&msg), Some("/w/a.f90".to_string()));
    assert_eq!(document_path(&message("{}")), None);
}
