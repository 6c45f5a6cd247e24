# fortran_lsp

Fortran language intelligence: a parser, a workspace index, diagnostics and the
queries that an editor asks, together with the rules of a language server.
The functions of the library have contracts that say what they compute, and
the contracts are proved.

## Layout

- `src/` is the library.
  - `src/spec/` says what the functions compute, as mathematics: one module for
    each module of the library, under the same name.
  - `src/laws/` holds what is true of several functions together, such as that
    a document that is open in an editor hides what is on disk, or that a
    renaming changes exactly the references.
  - `text`, `path`, `scan`, `statement`, `declaration`, `scope`, `expression`,
    `preproc`, `source` and `parser` read a source file. `model` and `outline`
    hold what was read, and `masking` and `checks` say what is wrong with it.
  - `modules`, `resolve`, `names`, `bindings`, `calls`, `completion`, `query`,
    `tokens`, `actions` and `workspace` work on all files together.
  - `json`, `protocol`, `lsp` and `server` are the language server: messages in,
    messages out.
- `app/` is the program around the library. It reads and writes standard input
  and output, reads files, and hands both to `Server::handle_message`.
- `tests/` runs the library on sources and messages.

## Files

The library reads no files. What a source takes in with `#include` comes from
the list that `Workspace::set_source_files` is given, and what a message speaks
of comes with `Outside`.

Paths are read and compared by their components: `/a//b.f90` and `/a/./b.f90`
are the same file.

## Intrinsic symbols

`intrinsics::intrinsics` reads two tables in JSON, one of procedures and one of
modules. The program looks for them in `data/` beside itself, as
`intrinsic.procedures.json` and `intrinsic.modules.json`, and goes without them
where they are missing.

## What is taken for granted

JSON is read and written by `serde_json`: `json::read_json` and
`json::write_json` name what that crate returns. `String::from_utf8` and
`String::push` are believed to do what their documentation says.

## Use

```rust
use fortran_lsp::{Position, Workspace};

let source = "program app\nuse math\ncall axpy(1.0, 2.0)\nend program";
let mut ws = Workspace::new();
ws.set_include_roots(vec!["include".to_string()]);
ws.upsert_file(
    "src/math.f90",
    "module math\ncontains\nsubroutine axpy(a, x)\nreal :: a, x\nend subroutine\nend module",
);
ws.upsert_file("src/app.f90", source);

let hover = ws.hover("src/app.f90", Position::new(2, 7), source);
let diagnostics = ws.diagnostics("src/app.f90");
```
