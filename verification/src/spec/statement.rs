//! Statements that stand for themselves: `use`, `import`, `public`, `generic`
//! and the like.

use vstd::prelude::*;

use crate::model::{GenericBindingKind, ImportKind, SymbolKind, Visibility};
use crate::spec::model as sm;
use crate::spec::model::Scope;
use crate::spec::scan as ss;
use crate::spec::text as st;
use crate::spec::text::Text;

verus! {

// ---------------------------------------------------------------------------
// Names
// ---------------------------------------------------------------------------

/// The name `operator(..)` or `assignment(..)` at the start of an item; the
/// outer `None` says that the item does not start that way.
pub open spec fn operator_item(item: Text, keyword: Text) -> Option<Option<Text>> {
    if item.len() >= keyword.len() && st::same(item.take(keyword.len() as int), keyword) {
        let rest = st::trim_start(item.skip(keyword.len() as int));
        if st::starts_with_char(rest, '(') {
            match ss::matching_paren_index(rest, 0) {
                Some(close) => Some(Some(keyword + st::squeeze(rest.take(close + 1)))),
                None => Some(None),
            }
        } else {
            None
        }
    } else {
        None
    }
}

/// The name in an item of a list: an operator, an assignment or a plain name.
pub open spec fn use_or_visibility_name(item: Text) -> Option<Text> {
    let item = st::trim_start(st::trim_start_char(st::trim(item), '&'));
    match operator_item(item, "operator"@) {
        Some(name) => name,
        None => match operator_item(item, "assignment"@) {
            Some(name) => name,
            None => st::first_ident(item),
        },
    }
}

/// Puts the name of an item behind the others, where it has one.
pub open spec fn add_name(out: Seq<Text>, name: Option<Text>) -> Seq<Text> {
    match name {
        Some(name) => out.push(name),
        None => out,
    }
}

/// The names of the items from `i` on.
pub open spec fn names_from(parts: Seq<Text>, i: int, out: Seq<Text>) -> Seq<Text>
    decreases parts.len() - i,
{
    if i >= parts.len() {
        out
    } else {
        names_from(parts, i + 1, add_name(out, use_or_visibility_name(st::trim(parts[i]))))
    }
}

/// The names of a list.
pub open spec fn split_names(s: Text) -> Seq<Text> {
    names_from(ss::split_top_level_commas(s), 0, Seq::empty())
}

/// The part of an item of an `only` list that is the local name.
pub open spec fn local_part(item: Text) -> Text {
    match st::split_once(item, "=>"@) {
        Some((lhs, rhs)) => lhs,
        None => item,
    }
}

/// The local names of the items of an `only` list from `i` on.
pub open spec fn only_names_from(parts: Seq<Text>, i: int, out: Seq<Text>) -> Seq<Text>
    decreases parts.len() - i,
{
    if i >= parts.len() {
        out
    } else {
        only_names_from(
            parts,
            i + 1,
            add_name(out, use_or_visibility_name(local_part(st::trim(parts[i])))),
        )
    }
}

/// The local names of an `only` list.
pub open spec fn split_use_only_names(s: Text) -> Seq<Text> {
    only_names_from(ss::split_top_level_commas(s), 0, Seq::empty())
}

/// The rename in an item of an `only` list.
pub open spec fn use_rename(item: Text) -> Option<sm::UseRename> {
    match st::split_once(st::trim(item), "=>"@) {
        Some((local, remote)) => match (
            use_or_visibility_name(local),
            use_or_visibility_name(remote),
        ) {
            (Some(local), Some(remote)) => Some(sm::UseRename { local, remote }),
            _ => None,
        },
        None => None,
    }
}

/// The renames of the items of an `only` list from `i` on.
pub open spec fn renames_from(
    parts: Seq<Text>,
    i: int,
    out: Seq<sm::UseRename>,
) -> Seq<sm::UseRename>
    decreases parts.len() - i,
{
    if i >= parts.len() {
        out
    } else {
        renames_from(
            parts,
            i + 1,
            match use_rename(parts[i]) {
                Some(rename) => out.push(rename),
                None => out,
            },
        )
    }
}

/// The renames of an `only` list.
pub open spec fn split_use_renames(s: Text) -> Seq<sm::UseRename> {
    renames_from(ss::split_top_level_commas(s), 0, Seq::empty())
}

/// The names between the first parentheses.
pub open spec fn arg_list(s: Text) -> Option<Seq<Text>> {
    match ss::paren_content(s) {
        Some(inner) => Some(split_names(inner)),
        None => None,
    }
}

/// The names between the first parentheses; none without parentheses.
pub open spec fn args_of(s: Text) -> Seq<Text> {
    match arg_list(s) {
        Some(args) => args,
        None => Seq::empty(),
    }
}

/// The path between quotes or angle brackets at the start of a text.
pub open spec fn quoted_path(s: Text) -> Option<Text> {
    let t = st::trim_start(s);
    if t.len() > 0 && (t[0] == '\'' || t[0] == '"' || t[0] == '<') {
        let close = if t[0] == '<' {
            '>'
        } else {
            t[0]
        };
        match st::find_char(t.skip(1), close) {
            Some(end) => Some(t.skip(1).take(end)),
            None => None,
        }
    } else {
        None
    }
}

/// The text of a documentation comment.
pub open spec fn parse_doc_comment(line: Text) -> Option<Text> {
    let t = st::trim_start(line);
    match st::strip_prefix(t, "!>"@) {
        Some(rest) => Some(st::trim_start(rest)),
        None => match st::strip_prefix(t, "!!"@) {
            Some(rest) => Some(st::trim_start(rest)),
            None => None,
        },
    }
}

// ---------------------------------------------------------------------------
// Statements
// ---------------------------------------------------------------------------

/// Whether a `use` statement says of which nature the module is.
pub open spec fn use_nature(rest: Text) -> Option<Text> {
    match st::strip_char(rest, ',') {
        Some(after) => st::first_ident(st::trim_start(after)),
        None => None,
    }
}

/// What stands behind the nature of the module, where a `use` statement has
/// one.
pub open spec fn after_use_nature(rest: Text) -> Text {
    match use_nature(rest) {
        Some(nature) => if st::same(nature, "intrinsic"@) || st::same(nature, "non_intrinsic"@) {
            match st::split_once(rest, "::"@) {
                Some((lhs, rhs)) => rhs,
                None => rest,
            }
        } else {
            rest
        },
        None => rest,
    }
}

/// The list behind `only:`.
pub open spec fn only_part(rest: Text) -> Option<Text> {
    match st::find(st::lower(rest), "only"@) {
        Some(i) => match st::split_once_char(rest.skip(i), ':') {
            Some((lhs, rhs)) => Some(rhs),
            None => None,
        },
        None => None,
    }
}

/// `use [, intrinsic ::] module [, only: names]`.
pub open spec fn parse_use(code: Text, line: usize, file: Text, scope: Scope) -> Option<
    sm::UseStmt,
> {
    match st::after_keyword(code, "use"@) {
        Some(after) => {
            let head = st::trim_start(after);
            let rest = after_use_nature(head);
            match st::first_ident(rest) {
                Some(module) => Some(
                    sm::UseStmt {
                        module,
                        only: match only_part(rest) {
                            Some(list) => split_use_only_names(list),
                            None => Seq::empty(),
                        },
                        renames: match only_part(rest) {
                            Some(list) => split_use_renames(list),
                            None => Seq::empty(),
                        },
                        intrinsic: match use_nature(head) {
                            Some(nature) => st::same(nature, "intrinsic"@),
                            None => false,
                        },
                        file,
                        range: sm::span(line, st::column_of(code, module), st::byte_len(rest)),
                        scope,
                    },
                ),
                None => None,
            }
        },
        None => None,
    }
}

/// What follows the colons of a list, or the list itself.
pub open spec fn after_colons(rest: Text) -> Text {
    match st::strip_prefix(rest, "::"@) {
        Some(rhs) => st::trim_start(rhs),
        None => st::trim_start(rest),
    }
}

/// What an `import` statement takes, and the names that it lists.
pub open spec fn import_items(rest: Text) -> Option<(ImportKind, Seq<Text>)> {
    if rest.len() == 0 {
        Some((ImportKind::All, Seq::empty()))
    } else {
        match st::strip_char(rest, ',') {
            Some(after) => {
                let after = st::trim_start(after);
                match st::first_ident(after) {
                    Some(word) => Some(
                        if st::same(word, "all"@) {
                            (ImportKind::All, Seq::empty())
                        } else if st::same(word, "none"@) {
                            (ImportKind::Nothing, Seq::empty())
                        } else if st::same(word, "only"@) {
                            (
                                ImportKind::Only,
                                split_names(
                                    match st::split_once_char(after, ':') {
                                        Some((lhs, rhs)) => st::trim_start(rhs),
                                        None => Seq::empty(),
                                    },
                                ),
                            )
                        } else {
                            (ImportKind::Only, split_names(after))
                        },
                    ),
                    None => None,
                }
            },
            None => Some((ImportKind::Only, split_names(after_colons(rest)))),
        }
    }
}

/// `import [, only: names]`.
pub open spec fn parse_import(code: Text, line: usize, file: Text, scope: Scope) -> Option<
    sm::ImportStmt,
> {
    match st::after_keyword(code, "import"@) {
        Some(after) => match import_items(st::trim_start(after)) {
            Some((kind, names)) => Some(
                sm::ImportStmt {
                    kind,
                    names,
                    file,
                    range: sm::on_line(line, 0, st::bytes(code)),
                    scope,
                },
            ),
            None => None,
        },
        None => None,
    }
}

/// The visibility that a statement starts with, and what follows it.
pub open spec fn visibility_head(code: Text) -> Option<(Visibility, Text)> {
    match st::after_keyword(code, "public"@) {
        Some(rest) => Some((Visibility::Public, rest)),
        None => match st::after_keyword(code, "private"@) {
            Some(rest) => Some((Visibility::Private, rest)),
            None => None,
        },
    }
}

/// `public [:: names]` or `private [:: names]`.
pub open spec fn parse_visibility(code: Text, line: usize, file: Text, scope: Scope) -> Option<
    sm::VisibilityStmt,
> {
    match visibility_head(st::trim(code)) {
        Some((visibility, after)) => {
            let rest = st::trim_start(after);
            Some(
                sm::VisibilityStmt {
                    visibility,
                    names: if rest.len() == 0 {
                        Seq::empty()
                    } else {
                        split_names(after_colons(rest))
                    },
                    file,
                    range: sm::on_line(line, 0, st::bytes(code)),
                    scope,
                },
            )
        },
        None => None,
    }
}

/// `keyword(..)` with what stands between the first parentheses, where the
/// text starts with the keyword; the outer `None` says that it does not.
pub open spec fn generic_name_of(s: Text, keyword: Text) -> Option<Option<Text>> {
    if st::starts_with(st::lower(s), keyword) {
        match ss::paren_content(s) {
            Some(inner) => Some(Some(keyword + "("@ + st::trim(inner) + ")"@)),
            None => Some(None),
        }
    } else {
        None
    }
}

/// The name of a generic operator or assignment.
pub open spec fn generic_name(s: Text) -> Option<Text> {
    match generic_name_of(st::trim(s), "operator"@) {
        Some(name) => name,
        None => match generic_name_of(st::trim(s), "assignment"@) {
            Some(name) => name,
            None => None,
        },
    }
}

/// The name of a generic binding, and what it binds.
pub open spec fn generic_binding_name(name: Text) -> Option<(Text, GenericBindingKind)> {
    if st::starts_with(st::lower(name), "operator"@) {
        match generic_name(name) {
            Some(found) => Some((found, GenericBindingKind::Operator)),
            None => None,
        }
    } else if st::starts_with(st::lower(name), "assignment"@) {
        match generic_name(name) {
            Some(found) => Some((found, GenericBindingKind::Assignment)),
            None => None,
        }
    } else {
        match st::first_ident(name) {
            Some(found) => Some((found, GenericBindingKind::Named)),
            None => None,
        }
    }
}

/// The visibility that the attributes of a generic binding name.
pub open spec fn binding_visibility(lhs: Text) -> Visibility {
    if st::contains(st::lower(lhs), "private"@) {
        Visibility::Private
    } else if st::contains(st::lower(lhs), "public"@) {
        Visibility::Public
    } else {
        Visibility::Default
    }
}

/// `generic [, private] :: name => procedures`.
pub open spec fn parse_generic_binding(
    code: Text,
    line: usize,
    file: Text,
    scope: Scope,
) -> Option<sm::GenericBinding> {
    match st::after_keyword(code, "generic"@) {
        Some(after) => match st::split_once(st::trim_start(after), "::"@) {
            Some((lhs, rhs)) => match st::split_once(rhs, "=>"@) {
                Some((name, procedures)) => match generic_binding_name(st::trim(name)) {
                    Some((name, kind)) => if split_names(procedures).len() == 0 {
                        None
                    } else {
                        Some(
                            sm::GenericBinding {
                                name,
                                kind,
                                procedures: split_names(procedures),
                                visibility: binding_visibility(lhs),
                                file,
                                range: sm::on_line(line, 0, st::bytes(code)),
                                scope,
                            },
                        )
                    },
                    None => None,
                },
                None => None,
            },
            None => None,
        },
        None => None,
    }
}

/// The path of an `include` statement or directive.
pub open spec fn include_path(code: Text) -> Option<Text> {
    let t = st::trim_start(code);
    match st::after_keyword(t, "include"@) {
        Some(rest) => quoted_path(rest),
        None => match st::strip_prefix(t, "#include"@) {
            Some(rest) => quoted_path(rest),
            None => None,
        },
    }
}

/// `include 'path'`.
pub open spec fn parse_include(code: Text, line: usize, file: Text, scope: Scope) -> Option<
    sm::IncludeStmt,
> {
    match include_path(code) {
        Some(path) => Some(
            sm::IncludeStmt {
                path,
                file,
                range: sm::span(line, st::column_of(code, path), st::byte_len(code)),
                scope,
            },
        ),
        None => None,
    }
}

/// The kind of scope that the word behind `end` names.
pub open spec fn end_kind(word: Text) -> Option<SymbolKind> {
    if word == "module"@ {
        Some(SymbolKind::Module)
    } else if word == "program"@ {
        Some(SymbolKind::Program)
    } else if word == "submodule"@ {
        Some(SymbolKind::Submodule)
    } else if word == "subroutine"@ || word == "procedure"@ {
        Some(SymbolKind::Subroutine)
    } else if word == "function"@ {
        Some(SymbolKind::Function)
    } else if word == "type"@ {
        Some(SymbolKind::Type)
    } else if word == "interface"@ {
        Some(SymbolKind::Interface)
    } else if word == "block"@ {
        Some(SymbolKind::Block)
    } else if word == "associate"@ {
        Some(SymbolKind::Associate)
    } else if word == "select"@ {
        Some(SymbolKind::SelectType)
    } else {
        None
    }
}

/// The words that can follow `end` without a blank.
pub open spec fn end_words() -> Seq<Text> {
    st::split_char(
        "module program submodule subroutine function procedure type interface blockdata block associate select"@,
        ' ',
    )
}

/// Whether a statement is `end` and a word in one, with nothing but a name
/// behind them.
pub open spec fn is_joined_end(lower: Text, word: Text) -> bool {
    let rest = lower.skip((3 + word.len()) as int);
    st::starts_with(lower, "end"@ + word) && (rest.len() == 0 || (st::is_space(rest[0])
        && !st::starts_with_char(st::trim_start(rest), '=')))
}

/// An `end` statement with a blank behind the `end`; nothing where a statement
/// is none. The statement is in lower case.
pub open spec fn end_statement(lower: Text) -> Option<Text> {
    if st::starts_with(lower, "end "@) || lower == "end"@ {
        Some(lower)
    } else if exists|k: int|
        0 <= k < end_words().len() && is_joined_end(lower, #[trigger] end_words()[k]) {
        Some("end "@ + lower.skip(3))
    } else {
        None
    }
}

/// Whether a statement gives a variable a value: there is a name, behind a label
/// at most, and a `=` behind the name. The name can be any word.
pub open spec fn is_assignment(code: Text) -> bool {
    st::next_name(code) matches Some((i, name)) && st::all_digits(st::trim(code.take(i)))
        && st::starts_with_char(st::trim_start(code.skip(i + name.len())), '=')
}

/// Whether an `implicit` statement says `none`.
pub open spec fn implicit_none_statement(code: Text) -> bool {
    match st::after_keyword(code, "implicit"@) {
        Some(rest) => st::starts_with(st::lower(st::trim_start(rest)), "none"@),
        None => false,
    }
}

} // verus!
