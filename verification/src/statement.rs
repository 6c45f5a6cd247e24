//! Statements that stand for themselves: `use`, `import`, `public`, `generic`
//! and the like.

use vstd::prelude::*;

use crate::list::{empty, put};
use crate::model::{
    GenericBinding, GenericBindingKind, ImportKind, ImportStmt, IncludeStmt, Range, SymbolKind,
    UseRename, UseStmt, Visibility, VisibilityStmt,
};
use crate::scan::{matching_paren_index, paren_content, split_top_level_commas};
use crate::spec::model as sm;
use crate::spec::scan as ss;
use crate::spec::statement as sp;
use crate::spec::text as st;
use crate::text::{
    after_keyword, all_digits, byte_len, chars, column_of, contains, copy_texts, find_char,
    find_word, first_ident, is_space, is_word, lower, next_name, owned, push_chars, push_text, same,
    same_word, skip, split_char, split_once, split_once_char, squeeze, starts_with_char,
    starts_with_word, strip_char, strip_prefix, sum, take, text, trim, trim_start, trim_start_char,
};

verus! {

/// The range of `len` columns from the column `from` on.
pub fn span(line: usize, from: usize, len: usize) -> (r: Range)
    ensures
        forall|n: nat| st::size(n) == len ==> r == #[trigger] sm::span(line, from, n),
{
    Range::on_line(line, from, sum(from, len))
}

// ---------------------------------------------------------------------------
// Names
// ---------------------------------------------------------------------------

/// The name `operator(..)` or `assignment(..)` at the start of an item; the
/// outer `None` says that the item does not start that way.
fn operator_item(item: &[char], keyword: &str) -> (r: Option<Option<String>>)
    ensures
        r.deep_view() == sp::operator_item(item@, keyword@),
{
    let word = chars(keyword);
    if item.len() >= word.len() && same(take(item, word.len()), word.as_slice()) {
        let rest = trim_start(skip(item, word.len()));
        if starts_with_char(rest, '(') {
            let n: usize = rest.len();
            match matching_paren_index(rest, 0) {
                Some(close) => {
                    let mut name = owned(keyword);
                    push_chars(&mut name, squeeze(take(rest, close + 1)).as_slice());
                    Some(Some(name))
                },
                None => Some(None),
            }
        } else {
            None
        }
    } else {
        None
    }
}

/// A name as an owned text.
fn name_text(name: Option<&[char]>) -> (r: Option<String>)
    ensures
        r.deep_view() == st::slice(name),
{
    match name {
        Some(name) => Some(text(name)),
        None => None,
    }
}

/// The first name in a text, as an owned text.
pub fn ident_text(s: &[char]) -> (r: Option<String>)
    ensures
        r.deep_view() == st::first_ident(s@),
{
    name_text(first_ident(s))
}

/// The name in an item of a list: an operator, an assignment or a plain name.
pub fn use_or_visibility_name(item: &[char]) -> (r: Option<String>)
    ensures
        r.deep_view() == sp::use_or_visibility_name(item@),
{
    let item = trim_start(trim_start_char(trim(item), '&'));
    match operator_item(item, "operator") {
        Some(name) => name,
        None => match operator_item(item, "assignment") {
            Some(name) => name,
            None => ident_text(item),
        },
    }
}

/// Puts the name of an item behind the others, where it has one.
fn add_name(out: &mut Vec<String>, name: Option<String>)
    ensures
        final(out).deep_view() == sp::add_name(old(out).deep_view(), name.deep_view()),
{
    match name {
        Some(name) => {
            put(out, name);
        },
        None => {
        },
    }
}

/// The names of a list.
pub fn split_names(s: &[char]) -> (r: Vec<String>)
    ensures
        r.deep_view() == sp::split_names(s@),
{
    let parts = split_top_level_commas(s);
    let mut out: Vec<String> = empty();
    let mut i: usize = 0;
    while i < parts.len()
        invariant
            i <= parts@.len(),
            parts.deep_view() == ss::split_top_level_commas(s@),
            sp::split_names(s@) == sp::names_from(parts.deep_view(), i as int, out.deep_view()),
        decreases parts@.len() - i,
    {
        let item = chars(parts[i].as_str());
        add_name(&mut out, use_or_visibility_name(trim(item.as_slice())));
        i = i + 1;
    }
    out
}

/// The part of an item of an `only` list that is the local name.
fn local_part<'a>(item: &'a [char]) -> (r: &'a [char])
    ensures
        r@ == sp::local_part(item@),
{
    match split_once(item, "=>") {
        Some((lhs, _)) => lhs,
        None => item,
    }
}

/// The local names of an `only` list.
pub fn split_use_only_names(s: &[char]) -> (r: Vec<String>)
    ensures
        r.deep_view() == sp::split_use_only_names(s@),
{
    let parts = split_top_level_commas(s);
    let mut out: Vec<String> = empty();
    let mut i: usize = 0;
    while i < parts.len()
        invariant
            i <= parts@.len(),
            parts.deep_view() == ss::split_top_level_commas(s@),
            sp::split_use_only_names(s@) == sp::only_names_from(
                parts.deep_view(),
                i as int,
                out.deep_view(),
            ),
        decreases parts@.len() - i,
    {
        let item = chars(parts[i].as_str());
        add_name(&mut out, use_or_visibility_name(local_part(trim(item.as_slice()))));
        i = i + 1;
    }
    out
}

/// The rename in an item of an `only` list.
fn use_rename(item: &[char]) -> (r: Option<UseRename>)
    ensures
        r.deep_view() == sp::use_rename(item@),
{
    match split_once(trim(item), "=>") {
        Some((local, remote)) => match (
            use_or_visibility_name(local),
            use_or_visibility_name(remote),
        ) {
            (Some(local), Some(remote)) => Some(UseRename { local, remote }),
            _ => None,
        },
        None => None,
    }
}

/// The renames of an `only` list.
pub fn split_use_renames(s: &[char]) -> (r: Vec<UseRename>)
    ensures
        r.deep_view() == sp::split_use_renames(s@),
{
    let parts = split_top_level_commas(s);
    let mut out: Vec<UseRename> = empty();
    let mut i: usize = 0;
    while i < parts.len()
        invariant
            i <= parts@.len(),
            parts.deep_view() == ss::split_top_level_commas(s@),
            sp::split_use_renames(s@) == sp::renames_from(
                parts.deep_view(),
                i as int,
                out.deep_view(),
            ),
        decreases parts@.len() - i,
    {
        let item = chars(parts[i].as_str());
        match use_rename(item.as_slice()) {
            Some(rename) => {
                put(&mut out, rename);
            },
            None => {
            },
        }
        i = i + 1;
    }
    out
}

/// The names between the first parentheses; none without parentheses.
pub fn args_of(s: &[char]) -> (r: Vec<String>)
    ensures
        r.deep_view() == sp::args_of(s@),
{
    match paren_content(s) {
        Some(inner) => split_names(inner),
        None => empty(),
    }
}

/// The path between quotes or angle brackets at the start of a text.
pub fn quoted_path(s: &[char]) -> (r: Option<String>)
    ensures
        r.deep_view() == sp::quoted_path(s@),
{
    let t = trim_start(s);
    if t.len() > 0 && (t[0] == '\'' || t[0] == '"' || t[0] == '<') {
        let close: char = if t[0] == '<' {
            '>'
        } else {
            t[0]
        };
        let tail = skip(t, 1);
        match find_char(tail, close) {
            Some(end) => Some(text(take(tail, end))),
            None => None,
        }
    } else {
        None
    }
}

/// The text of a documentation comment.
pub fn parse_doc_comment(line: &[char]) -> (r: Option<String>)
    ensures
        r.deep_view() == sp::parse_doc_comment(line@),
{
    let t = trim_start(line);
    match strip_prefix(t, "!>") {
        Some(rest) => Some(text(trim_start(rest))),
        None => match strip_prefix(t, "!!") {
            Some(rest) => Some(text(trim_start(rest))),
            None => None,
        },
    }
}

// ---------------------------------------------------------------------------
// Statements
// ---------------------------------------------------------------------------

/// Whether a `use` statement says of which nature the module is.
fn use_nature<'a>(rest: &'a [char]) -> (r: Option<&'a [char]>)
    ensures
        st::slice(r) == sp::use_nature(rest@),
{
    match strip_char(rest, ',') {
        Some(after) => first_ident(trim_start(after)),
        None => None,
    }
}

/// What stands behind the nature of the module, where a `use` statement has
/// one.
pub fn after_use_nature<'a>(rest: &'a [char]) -> (r: &'a [char])
    ensures
        r@ == sp::after_use_nature(rest@),
{
    match use_nature(rest) {
        Some(nature) => if same_word(nature, "intrinsic") || same_word(nature, "non_intrinsic") {
            match split_once(rest, "::") {
                Some((_, rhs)) => rhs,
                None => rest,
            }
        } else {
            rest
        },
        None => rest,
    }
}

/// The list behind `only:`.
fn only_part<'a>(rest: &'a [char]) -> (r: Option<&'a [char]>)
    ensures
        st::slice(r) == sp::only_part(rest@),
{
    let low = lower(rest);
    match find_word(low.as_slice(), "only") {
        Some(i) => match split_once_char(skip(rest, i), ':') {
            Some((_, rhs)) => Some(rhs),
            None => None,
        },
        None => None,
    }
}

/// `use [, intrinsic ::] module [, only: names]`.
pub fn parse_use(code: &[char], line: usize, file: &str, scope: &Vec<String>) -> (r: Option<
    UseStmt,
>)
    ensures
        r.deep_view() == sp::parse_use(code@, line, file@, scope.deep_view()),
{
    match after_keyword(code, "use") {
        Some(after) => {
            let head = trim_start(after);
            let rest = after_use_nature(head);
            match first_ident(rest) {
                Some(module) => {
                    let (only, renames): (Vec<String>, Vec<UseRename>) = match only_part(rest) {
                        Some(list) => (split_use_only_names(list), split_use_renames(list)),
                        None => (empty(), empty()),
                    };
                    let intrinsic: bool = match use_nature(head) {
                        Some(nature) => same_word(nature, "intrinsic"),
                        None => false,
                    };
                    Some(
                        UseStmt {
                            module: text(module),
                            only,
                            renames,
                            intrinsic,
                            file: owned(file),
                            range: span(line, column_of(code, module), byte_len(rest)),
                            scope: copy_texts(scope),
                        },
                    )
                },
                None => None,
            }
        },
        None => None,
    }
}

/// What follows the colons of a list, or the list itself.
fn after_colons<'a>(rest: &'a [char]) -> (r: &'a [char])
    ensures
        r@ == sp::after_colons(rest@),
{
    match strip_prefix(rest, "::") {
        Some(rhs) => trim_start(rhs),
        None => trim_start(rest),
    }
}

/// What an `import` statement takes, and the names that it lists.
fn import_items(rest: &[char]) -> (r: Option<(ImportKind, Vec<String>)>)
    ensures
        r.deep_view() == sp::import_items(rest@),
{
    if rest.len() == 0 {
        return Some((ImportKind::All, empty()));
    }
    match strip_char(rest, ',') {
        Some(after) => {
            let after = trim_start(after);
            match first_ident(after) {
                Some(word) => if same_word(word, "all") {
                    Some((ImportKind::All, empty()))
                } else if same_word(word, "none") {
                    Some((ImportKind::Nothing, empty()))
                } else if same_word(word, "only") {
                    match split_once_char(after, ':') {
                        Some((_, rhs)) => Some((ImportKind::Only, split_names(trim_start(rhs)))),
                        None => {
                            let nothing: Vec<char> = Vec::new();
                            Some((ImportKind::Only, split_names(nothing.as_slice())))
                        },
                    }
                } else {
                    Some((ImportKind::Only, split_names(after)))
                },
                None => None,
            }
        },
        None => Some((ImportKind::Only, split_names(after_colons(rest)))),
    }
}

/// `import [, only: names]`.
pub fn parse_import(code: &[char], line: usize, file: &str, scope: &Vec<String>) -> (r: Option<
    ImportStmt,
>)
    ensures
        r.deep_view() == sp::parse_import(code@, line, file@, scope.deep_view()),
{
    match after_keyword(code, "import") {
        Some(after) => match import_items(trim_start(after)) {
            Some((kind, names)) => Some(
                ImportStmt {
                    kind,
                    names,
                    file: owned(file),
                    range: Range::on_line(line, 0, byte_len(code)),
                    scope: copy_texts(scope),
                },
            ),
            None => None,
        },
        None => None,
    }
}

/// `public [:: names]` or `private [:: names]`.
pub fn parse_visibility(code: &[char], line: usize, file: &str, scope: &Vec<String>) -> (r: Option<
    VisibilityStmt,
>)
    ensures
        r.deep_view() == sp::parse_visibility(code@, line, file@, scope.deep_view()),
{
    let trimmed = trim(code);
    let (visibility, after): (Visibility, &[char]) = match after_keyword(trimmed, "public") {
        Some(rest) => (Visibility::Public, rest),
        None => match after_keyword(trimmed, "private") {
            Some(rest) => (Visibility::Private, rest),
            None => {
                return None;
            },
        },
    };
    let rest = trim_start(after);
    let names: Vec<String> = if rest.len() == 0 {
        empty()
    } else {
        split_names(after_colons(rest))
    };
    Some(
        VisibilityStmt {
            visibility,
            names,
            file: owned(file),
            range: Range::on_line(line, 0, byte_len(code)),
            scope: copy_texts(scope),
        },
    )
}

/// `keyword(..)` with what stands between the first parentheses, where the
/// text starts with the keyword; the outer `None` says that it does not.
fn generic_name_of(s: &[char], keyword: &str) -> (r: Option<Option<String>>)
    ensures
        r.deep_view() == sp::generic_name_of(s@, keyword@),
{
    let low = lower(s);
    if starts_with_word(low.as_slice(), keyword) {
        match paren_content(s) {
            Some(inner) => {
                let mut name = owned(keyword);
                push_text(&mut name, "(");
                push_chars(&mut name, trim(inner));
                push_text(&mut name, ")");
                Some(Some(name))
            },
            None => Some(None),
        }
    } else {
        None
    }
}

/// The name of a generic operator or assignment.
pub fn generic_name(s: &[char]) -> (r: Option<String>)
    ensures
        r.deep_view() == sp::generic_name(s@),
{
    match generic_name_of(trim(s), "operator") {
        Some(name) => name,
        None => match generic_name_of(trim(s), "assignment") {
            Some(name) => name,
            None => None,
        },
    }
}

/// The name of a generic binding, and what it binds.
fn generic_binding_name(name: &[char]) -> (r: Option<(String, GenericBindingKind)>)
    ensures
        r.deep_view() == sp::generic_binding_name(name@),
{
    let low = lower(name);
    if starts_with_word(low.as_slice(), "operator") {
        match generic_name(name) {
            Some(found) => Some((found, GenericBindingKind::Operator)),
            None => None,
        }
    } else if starts_with_word(low.as_slice(), "assignment") {
        match generic_name(name) {
            Some(found) => Some((found, GenericBindingKind::Assignment)),
            None => None,
        }
    } else {
        match ident_text(name) {
            Some(found) => Some((found, GenericBindingKind::Named)),
            None => None,
        }
    }
}

/// The visibility that the attributes of a generic binding name.
fn binding_visibility(lhs: &[char]) -> (r: Visibility)
    ensures
        r == sp::binding_visibility(lhs@),
{
    let low = lower(lhs);
    if contains(low.as_slice(), "private") {
        Visibility::Private
    } else if contains(low.as_slice(), "public") {
        Visibility::Public
    } else {
        Visibility::Default
    }
}

/// `generic [, private] :: name => procedures`.
pub fn parse_generic_binding(
    code: &[char],
    line: usize,
    file: &str,
    scope: &Vec<String>,
) -> (r: Option<GenericBinding>)
    ensures
        r.deep_view() == sp::parse_generic_binding(code@, line, file@, scope.deep_view()),
{
    match after_keyword(code, "generic") {
        Some(after) => match split_once(trim_start(after), "::") {
            Some((lhs, rhs)) => match split_once(rhs, "=>") {
                Some((name, targets)) => match generic_binding_name(trim(name)) {
                    Some((name, kind)) => {
                        let procedures = split_names(targets);
                        if procedures.len() == 0 {
                            assert(procedures.deep_view().len() == 0);
                            return None;
                        }
                        assert(procedures.deep_view().len() > 0);
                        Some(
                            GenericBinding {
                                name,
                                kind,
                                procedures,
                                visibility: binding_visibility(lhs),
                                file: owned(file),
                                range: Range::on_line(line, 0, byte_len(code)),
                                scope: copy_texts(scope),
                            },
                        )
                    },
                    None => None,
                },
                None => None,
            },
            None => None,
        },
        None => None,
    }
}

/// The path of an `include` statement or directive.
pub fn include_path(code: &[char]) -> (r: Option<String>)
    ensures
        r.deep_view() == sp::include_path(code@),
{
    let t = trim_start(code);
    match after_keyword(t, "include") {
        Some(rest) => quoted_path(rest),
        None => match strip_prefix(t, "#include") {
            Some(rest) => quoted_path(rest),
            None => None,
        },
    }
}

/// `include 'path'`.
pub fn parse_include(code: &[char], line: usize, file: &str, scope: &Vec<String>) -> (r: Option<
    IncludeStmt,
>)
    ensures
        r.deep_view() == sp::parse_include(code@, line, file@, scope.deep_view()),
{
    match include_path(code) {
        Some(path) => {
            let wanted = chars(path.as_str());
            let range = span(line, column_of(code, wanted.as_slice()), byte_len(code));
            Some(IncludeStmt { path, file: owned(file), range, scope: copy_texts(scope) })
        },
        None => None,
    }
}

/// The kind of scope that the word behind `end` names.
pub fn end_kind(word: &[char]) -> (r: Option<SymbolKind>)
    ensures
        r == sp::end_kind(word@),
{
    if is_word(word, "module") {
        Some(SymbolKind::Module)
    } else if is_word(word, "program") {
        Some(SymbolKind::Program)
    } else if is_word(word, "submodule") {
        Some(SymbolKind::Submodule)
    } else if is_word(word, "subroutine") || is_word(word, "procedure") {
        Some(SymbolKind::Subroutine)
    } else if is_word(word, "function") {
        Some(SymbolKind::Function)
    } else if is_word(word, "type") {
        Some(SymbolKind::Type)
    } else if is_word(word, "interface") {
        Some(SymbolKind::Interface)
    } else if is_word(word, "block") {
        Some(SymbolKind::Block)
    } else if is_word(word, "associate") {
        Some(SymbolKind::Associate)
    } else if is_word(word, "select") {
        Some(SymbolKind::SelectType)
    } else {
        None
    }
}

/// Whether a statement is `end` and a word in one, with nothing but a name
/// behind them.
fn is_joined_end(lower: &[char], word: &str) -> (r: bool)
    ensures
        r == sp::is_joined_end(lower@, word@),
{
    proof {
        reveal_strlit("end");
    }
    let w = chars(word);
    let n: usize = w.len();
    if lower.len() < 3 || !starts_with_word(lower, "end") {
        assert(!st::starts_with(lower@, "end"@ + word@)) by {
            if st::starts_with(lower@, "end"@ + word@) {
                assert(lower@.subrange(0, 3) =~= ("end"@ + word@).subrange(0, 3));
                assert(("end"@ + word@).subrange(0, 3) =~= "end"@);
            }
        }
        return false;
    }
    let behind = skip(lower, 3);
    if !starts_with_word(behind, word) {
        assert(!st::starts_with(lower@, "end"@ + word@)) by {
            if st::starts_with(lower@, "end"@ + word@) {
                assert(behind@.subrange(0, n as int) =~= lower@.subrange(0, 3 + n).subrange(
                    3,
                    3 + n,
                ));
                assert(("end"@ + word@).subrange(3, 3 + n) =~= word@);
            }
        }
        return false;
    }
    assert(st::starts_with(lower@, "end"@ + word@)) by {
        assert(lower@.subrange(0, 3 + n) =~= "end"@ + word@) by {
            assert(lower@.subrange(0, 3) =~= "end"@);
            assert(behind@.subrange(0, n as int) =~= word@);
            assert forall|k: int| 0 <= k < 3 + n implies lower@.subrange(0, 3 + n)[k] == (
            "end"@ + word@)[k] by {
                if k < 3 {
                    assert(lower@.subrange(0, 3)[k] == lower@[k]);
                } else {
                    assert(behind@.subrange(0, n as int)[k - 3] == lower@[k]);
                }
            }
        }
    }
    let rest = skip(behind, n);
    assert(rest@ =~= lower@.skip(3 + n));
    rest.len() == 0 || (is_space(rest[0]) && !starts_with_char(trim_start(rest), '='))
}

/// An `end` statement with a blank behind the `end`; nothing where a statement
/// is none. The statement is in lower case.
pub fn end_statement(lower: &[char]) -> (r: Option<String>)
    ensures
        r.deep_view() == sp::end_statement(lower@),
{
    if starts_with_word(lower, "end ") || is_word(lower, "end") {
        return Some(text(lower));
    }
    let list = chars(
        "module program submodule subroutine function procedure type interface blockdata block associate select",
    );
    let words = split_char(list.as_slice(), ' ');
    let ghost all = words.deep_view();
    let mut k: usize = 0;
    while k < words.len()
        invariant
            k <= words@.len(),
            all == words.deep_view(),
            all == sp::end_words(),
            !(st::starts_with(lower@, "end "@) || lower@ == "end"@),
            forall|j: int| 0 <= j < k ==> !sp::is_joined_end(lower@, #[trigger] all[j]),
        decreases words@.len() - k,
    {
        assert(all[k as int] == words@[k as int]@);
        if is_joined_end(lower, words[k].as_str()) {
            assert(sp::is_joined_end(lower@, sp::end_words()[k as int]));
            proof {
                reveal_strlit("end");
                assert(lower@.len() >= 3);
            }
            let mut out = owned("end ");
            push_text(&mut out, text(skip(lower, 3)).as_str());
            return Some(out);
        }
        k = k + 1;
    }
    None
}

/// Whether a statement gives a variable a value.
pub fn is_assignment(code: &[char]) -> (r: bool)
    ensures
        r == sp::is_assignment(code@),
{
    proof {
        st::lemma_next_name(code@);
    }
    match next_name(code) {
        Some((i, name)) => {
            let n: usize = code.len();
            all_digits(trim(take(code, i))) && starts_with_char(
                trim_start(skip(code, i + name.len())),
                '=',
            )
        },
        None => false,
    }
}

/// Whether an `implicit` statement says `none`.
pub fn implicit_none_statement(code: &[char]) -> (r: bool)
    ensures
        r == sp::implicit_none_statement(code@),
{
    match after_keyword(code, "implicit") {
        Some(rest) => {
            let low = lower(trim_start(rest));
            starts_with_word(low.as_slice(), "none")
        },
        None => false,
    }
}

} // verus!
