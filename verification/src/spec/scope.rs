//! Statements that open a scope.

use vstd::prelude::*;

use crate::model::{SymbolKind, Visibility};
use crate::spec::scan as ss;
use crate::spec::statement as sp;
use crate::spec::text as st;
use crate::spec::text::Text;

verus! {

/// What a statement that opens a scope says of it.
#[verifier::ext_equal]
pub struct ScopeStart {
    pub kind: SymbolKind,
    pub name: Text,
    pub args: Seq<Text>,
    pub signature: Text,
    pub selection: Text,
    pub attributes: Seq<Text>,
    pub visibility: Option<Visibility>,
    pub extends: Option<Text>,
    pub is_abstract: bool,
    pub is_module_procedure: bool,
    pub ancestor: Option<Text>,
    pub associate_names: Seq<Text>,
}

/// A scope of which nothing is known but its kind, its name and its
/// arguments.
pub open spec fn plain_start(
    kind: SymbolKind,
    name: Text,
    args: Seq<Text>,
    signature: Text,
) -> ScopeStart {
    ScopeStart {
        kind,
        name,
        args,
        signature,
        selection: name,
        attributes: Seq::empty(),
        visibility: None,
        extends: None,
        is_abstract: false,
        is_module_procedure: false,
        ancestor: None,
        associate_names: Seq::empty(),
    }
}

/// A procedure whose name and arguments stand in `rest`.
pub open spec fn procedure_start(kind: SymbolKind, rest: Text, code: Text) -> Option<ScopeStart> {
    match st::first_ident(rest) {
        Some(name) => Some(plain_start(kind, name, sp::args_of(rest), st::trim(code))),
        None => None,
    }
}

// ---------------------------------------------------------------------------
// Procedures
// ---------------------------------------------------------------------------

/// Whether a word can stand before `subroutine` or `function`.
pub open spec fn is_procedure_prefix(word: Text) -> bool {
    ||| st::same(word, "pure"@)
    ||| st::same(word, "impure"@)
    ||| st::same(word, "elemental"@)
    ||| st::same(word, "recursive"@)
}

/// A statement without the words that can stand before `subroutine` or
/// `function`. As many bytes are cut off as the word has.
pub open spec fn strip_procedure_prefixes(code: Text) -> Text
    decreases code.len(),
{
    let t = st::trim_start(code);
    match st::first_ident(t) {
        Some(word) => if is_procedure_prefix(word) {
            proof {
                st::lemma_trim_len(code);
                st::lemma_next_name(t);
                st::lemma_byte_len_positive(word);
                st::lemma_index_of_byte(t, st::bytes(word) as nat, 0);
            }
            strip_procedure_prefixes(st::skip_bytes(t, st::bytes(word) as nat))
        } else {
            t
        },
        None => t,
    }
}

/// Whether a word starts a type that a function can have.
pub open spec fn is_function_type(word: Text) -> bool {
    ||| st::same(word, "integer"@)
    ||| st::same(word, "real"@)
    ||| st::same(word, "logical"@)
    ||| st::same(word, "complex"@)
    ||| st::same(word, "character"@)
    ||| st::same(word, "double"@)
    ||| st::same(word, "type"@)
    ||| st::same(word, "class"@)
}

/// What follows `function` in a statement that starts with the type of the
/// function.
pub open spec fn typed_function_rest(code: Text) -> Option<Text> {
    let t = st::trim_start(code);
    match st::find(st::lower(t), "function"@) {
        Some(i) => {
            let before = st::trim(t.take(i));
            let after = t.skip(i + "function"@.len());
            if i == 0 || st::contains(before, "::"@) || !(st::is_space(t[i - 1]) || t[i - 1] == ')')
                || st::goes_on(after) {
                None
            } else {
                match st::first_ident(before) {
                    Some(word) => if is_function_type(word) {
                        Some(after)
                    } else {
                        None
                    },
                    None => None,
                }
            }
        },
        None => None,
    }
}

/// What follows `function` behind `module` and the type of the function.
pub open spec fn typed_module_function_rest(code: Text) -> Option<Text> {
    match st::after_keyword(code, "module"@) {
        Some(rest) => typed_function_rest(rest),
        None => None,
    }
}

// ---------------------------------------------------------------------------
// Constructs
// ---------------------------------------------------------------------------

/// Whether a text is a single name.
pub open spec fn is_label(label: Text) -> bool {
    st::first_ident_is(label, label)
}

/// The label before the first colon of a statement.
pub open spec fn construct_label(code: Text) -> Option<Text> {
    match st::split_once_char(code, ':') {
        Some((label, rest)) => if is_label(st::trim(label)) {
            Some(st::trim(label))
        } else {
            None
        },
        None => None,
    }
}

/// A statement without its label.
pub open spec fn strip_construct_label(code: Text) -> Text {
    match st::split_once_char(code, ':') {
        Some((label, rest)) => if is_label(st::trim(label)) {
            st::trim_start(rest)
        } else {
            code
        },
        None => code,
    }
}

/// The names that the items of an `associate` list from `i` on define.
pub open spec fn associate_names_from(parts: Seq<Text>, i: int, out: Seq<Text>) -> Seq<Text>
    decreases parts.len() - i,
{
    if i >= parts.len() {
        out
    } else {
        associate_names_from(
            parts,
            i + 1,
            match st::split_once(parts[i], "=>"@) {
                Some((lhs, rhs)) => sp::add_name(out, st::first_ident(st::trim(lhs))),
                None => out,
            },
        )
    }
}

/// The names that an `associate` statement defines.
pub open spec fn associate_names(code: Text) -> Seq<Text> {
    match ss::paren_content(code) {
        Some(inner) => associate_names_from(ss::split_top_level_commas(inner), 0, Seq::empty()),
        None => Seq::empty(),
    }
}

/// A text, or another where there is none.
pub open spec fn text_or(t: Option<Text>, other: Text) -> Text {
    match t {
        Some(t) => t,
        None => other,
    }
}

/// `block data`, `block`, `associate` and the forms of `select`.
pub open spec fn parse_construct_scope(code: Text) -> Option<ScopeStart> {
    let trimmed = st::trim(code);
    let construct = strip_construct_label(trimmed);
    match st::after_keywords(construct, "block"@, "data"@) {
        Some(rest) => Some(
            plain_start(
                SymbolKind::Program,
                text_or(st::first_ident(rest), "block data"@),
                Seq::empty(),
                trimmed,
            ),
        ),
        None => if st::after_keyword(construct, "block"@) is Some {
            Some(
                plain_start(
                    SymbolKind::Block,
                    text_or(construct_label(trimmed), "block"@),
                    Seq::empty(),
                    trimmed,
                ),
            )
        } else if st::after_keyword(construct, "associate"@) is Some {
            Some(
                ScopeStart {
                    associate_names: associate_names(construct),
                    ..plain_start(SymbolKind::Associate, "associate"@, Seq::empty(), trimmed)
                },
            )
        } else if st::after_keyword(construct, "select type"@) is Some || st::after_keyword(
            construct,
            "select rank"@,
        ) is Some || st::after_keyword(construct, "select case"@) is Some {
            Some(
                ScopeStart {
                    selection: text_or(st::first_ident(construct), "select"@),
                    ..plain_start(SymbolKind::SelectType, "select_type"@, Seq::empty(), trimmed)
                },
            )
        } else {
            None
        },
    }
}

// ---------------------------------------------------------------------------
// Units
// ---------------------------------------------------------------------------

/// What stands between the parentheses of `submodule (ancestor) name`, and
/// what follows them.
pub open spec fn submodule_parts(rest: Text) -> Option<(Text, Text)> {
    match st::strip_char(rest, '(') {
        Some(after) => st::split_once_char(after, ')'),
        None => None,
    }
}

/// `submodule (ancestor[:parent]) name`.
pub open spec fn parse_submodule_definition(code: Text) -> Option<ScopeStart> {
    match st::after_keyword(code, "submodule"@) {
        Some(after) => {
            let rest = st::trim_start(after);
            let name_source = match submodule_parts(rest) {
                Some((inner, after)) => after,
                None => rest,
            };
            match st::first_ident(name_source) {
                Some(name) => Some(
                    ScopeStart {
                        ancestor: match submodule_parts(rest) {
                            Some((inner, after)) => st::first_ident(inner),
                            None => None,
                        },
                        ..plain_start(SymbolKind::Submodule, name, Seq::empty(), st::trim(code))
                    },
                ),
                None => None,
            }
        },
        None => None,
    }
}

/// `abstract interface`.
pub open spec fn parse_abstract_interface_scope(code: Text) -> Option<ScopeStart> {
    if st::after_keyword(code, "abstract interface"@) is Some {
        Some(
            ScopeStart {
                is_abstract: true,
                ..plain_start(SymbolKind::Interface, "interface"@, Seq::empty(), st::trim(code))
            },
        )
    } else {
        None
    }
}

/// `interface operator(..)` or `interface assignment(..)`.
pub open spec fn parse_generic_interface_scope(code: Text) -> Option<ScopeStart> {
    match st::after_keyword(code, "interface"@) {
        Some(rest) => match sp::generic_name(st::trim_start(rest)) {
            Some(name) => Some(
                plain_start(SymbolKind::Interface, name, Seq::empty(), st::trim(code)),
            ),
            None => None,
        },
        None => None,
    }
}

/// `keyword [name[(args)]]`; the keyword is the name of a unit without one.
pub open spec fn unit_start(code: Text, keyword: Text, kind: SymbolKind) -> Option<ScopeStart> {
    match st::after_keyword(code, keyword) {
        Some(rest) => Some(
            ScopeStart {
                is_abstract: st::contains(st::lower(code), "abstract interface"@),
                ..plain_start(
                    kind,
                    text_or(st::first_ident(rest), keyword),
                    sp::args_of(rest),
                    st::trim(code),
                )
            },
        ),
        None => None,
    }
}

/// `module`, `program`, `subroutine`, `function` or `interface`.
pub open spec fn parse_unit(code: Text) -> Option<ScopeStart> {
    match unit_start(code, "module"@, SymbolKind::Module) {
        Some(start) => Some(start),
        None => match unit_start(code, "program"@, SymbolKind::Program) {
            Some(start) => Some(start),
            None => match unit_start(code, "subroutine"@, SymbolKind::Subroutine) {
                Some(start) => Some(start),
                None => match unit_start(code, "function"@, SymbolKind::Function) {
                    Some(start) => Some(start),
                    None => unit_start(code, "interface"@, SymbolKind::Interface),
                },
            },
        },
    }
}

// ---------------------------------------------------------------------------
// Derived types
// ---------------------------------------------------------------------------

/// Whether a statement defines a derived type. `type(name)` declares a
/// variable, and `type is` belongs to a construct.
pub open spec fn is_derived_type_definition(code: Text) -> bool {
    match st::after_keyword(code, "type"@) {
        Some(after) => {
            let rest = st::trim_start(after);
            &&& !st::first_ident_is(rest, "is"@)
            &&& !st::starts_with_char(rest, '(')
            &&& st::contains(rest, "::"@) || st::first_ident(rest) is Some
        },
        None => false,
    }
}

/// What the attributes of a derived type say.
#[verifier::ext_equal]
pub struct TypeAttributes {
    pub attributes: Seq<Text>,
    pub visibility: Option<Visibility>,
    pub extends: Option<Text>,
    pub is_abstract: bool,
}

/// What the attributes say with one more.
pub open spec fn add_type_attribute(t: TypeAttributes, attr: Text) -> TypeAttributes {
    let attributes = t.attributes.push(attr);
    if st::same(attr, "public"@) {
        TypeAttributes { attributes, visibility: Some(Visibility::Public), ..t }
    } else if st::same(attr, "private"@) {
        TypeAttributes { attributes, visibility: Some(Visibility::Private), ..t }
    } else if st::same(attr, "abstract"@) {
        TypeAttributes { attributes, is_abstract: true, ..t }
    } else if st::starts_with(st::lower(attr), "extends"@) {
        TypeAttributes {
            attributes,
            extends: match ss::paren_content(attr) {
                Some(value) => st::first_ident(value),
                None => None,
            },
            ..t
        }
    } else {
        TypeAttributes { attributes, ..t }
    }
}

/// What the attributes from `i` on say, behind what `t` says.
pub open spec fn type_attributes_from(
    parts: Seq<Text>,
    i: int,
    t: TypeAttributes,
) -> TypeAttributes
    decreases parts.len() - i,
{
    if i >= parts.len() {
        t
    } else {
        let attr = st::trim(parts[i]);
        type_attributes_from(
            parts,
            i + 1,
            if attr.len() == 0 {
                t
            } else {
                add_type_attribute(t, attr)
            },
        )
    }
}

/// What the attributes between `type` and `::` say.
pub open spec fn type_attributes(lhs: Text) -> TypeAttributes {
    type_attributes_from(
        ss::split_top_level_commas(lhs),
        0,
        TypeAttributes {
            attributes: Seq::empty(),
            visibility: None,
            extends: None,
            is_abstract: false,
        },
    )
}

/// `type [, attributes ::] name`.
pub open spec fn parse_type_scope(code: Text) -> Option<ScopeStart> {
    match st::after_keyword(code, "type"@) {
        Some(after) => {
            let rest = st::trim_start(after);
            let (lhs, rhs) = match st::split_once(rest, "::"@) {
                Some(parts) => parts,
                None => (Seq::empty(), rest),
            };
            let t = type_attributes(lhs);
            match st::first_ident(rhs) {
                Some(name) => Some(
                    ScopeStart {
                        attributes: t.attributes,
                        visibility: t.visibility,
                        extends: t.extends,
                        is_abstract: t.is_abstract,
                        ..plain_start(SymbolKind::Type, name, Seq::empty(), st::trim(code))
                    },
                ),
                None => None,
            }
        },
        None => None,
    }
}

// ---------------------------------------------------------------------------
// All of them
// ---------------------------------------------------------------------------

/// The scope that a statement without its procedure prefixes opens, unless it
/// is a procedure of a module or one with a type.
pub open spec fn parse_other_scope(code: Text) -> Option<ScopeStart> {
    match parse_construct_scope(code) {
        Some(start) => Some(start),
        None => match parse_abstract_interface_scope(code) {
            Some(start) => Some(start),
            None => match parse_generic_interface_scope(code) {
                Some(start) => Some(start),
                None => match parse_unit(code) {
                    Some(start) => Some(start),
                    None => if is_derived_type_definition(code) {
                        parse_type_scope(code)
                    } else {
                        None
                    },
                },
            },
        },
    }
}

/// The scope that a statement opens.
pub open spec fn parse_scope_start(statement: Text) -> Option<ScopeStart> {
    let code = strip_procedure_prefixes(statement);
    match st::after_keywords(code, "module"@, "procedure"@) {
        Some(rest) => match st::first_ident(rest) {
            Some(name) => Some(
                ScopeStart {
                    is_module_procedure: true,
                    ..plain_start(SymbolKind::Subroutine, name, Seq::empty(), st::trim(code))
                },
            ),
            None => None,
        },
        None => match parse_submodule_definition(code) {
            Some(start) => Some(start),
            None => match st::after_keywords(code, "module"@, "subroutine"@) {
                Some(rest) => procedure_start(SymbolKind::Subroutine, rest, code),
                None => match st::after_keywords(code, "module"@, "function"@) {
                    Some(rest) => procedure_start(SymbolKind::Function, rest, code),
                    None => match typed_module_function_rest(code) {
                        Some(rest) => procedure_start(SymbolKind::Function, rest, code),
                        None => match typed_function_rest(code) {
                            Some(rest) => procedure_start(SymbolKind::Function, rest, code),
                            None => parse_other_scope(code),
                        },
                    },
                },
            },
        },
    }
}

/// The name of the result that a function statement gives.
pub open spec fn parse_result_name(signature: Text) -> Option<Text> {
    match st::find(st::lower(signature), "result"@) {
        Some(i) => match ss::paren_content(signature.skip(i + "result"@.len())) {
            Some(inner) => st::first_ident(inner),
            None => None,
        },
        None => None,
    }
}

} // verus!
