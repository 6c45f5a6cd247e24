//! Statements that open a scope.

use vstd::prelude::*;

use crate::list::{empty, put};
use crate::model::{SymbolKind, Visibility};
use crate::scan::{paren_content, split_top_level_commas};
use crate::spec::scan as ss;
use crate::spec::scope as sc;
use crate::spec::text as st;
use crate::statement::{args_of, generic_name, ident_text};
use crate::text::{
    after_keyword, after_keywords, byte_len, chars, contains, find, first_ident, first_ident_is,
    goes_on, has_keyword, is_space, lower, owned, same, same_word, skip, skip_bytes, split_once,
    split_once_char, starts_with_char, starts_with_word, strip_char, take, text, trim, trim_start,
};

verus! {

/// What a statement that opens a scope says of it.
#[derive(Debug, PartialEq, Eq)]
pub struct ScopeStart {
    pub kind: SymbolKind,
    pub name: String,
    pub args: Vec<String>,
    pub signature: String,
    pub selection: String,
    pub attributes: Vec<String>,
    pub visibility: Option<Visibility>,
    pub extends: Option<String>,
    pub is_abstract: bool,
    pub is_module_procedure: bool,
    pub ancestor: Option<String>,
    pub associate_names: Vec<String>,
}

impl DeepView for ScopeStart {
    type V = sc::ScopeStart;

    open spec fn deep_view(&self) -> sc::ScopeStart {
        sc::ScopeStart {
            kind: self.kind,
            name: self.name@,
            args: self.args.deep_view(),
            signature: self.signature@,
            selection: self.selection@,
            attributes: self.attributes.deep_view(),
            visibility: self.visibility,
            extends: self.extends.deep_view(),
            is_abstract: self.is_abstract,
            is_module_procedure: self.is_module_procedure,
            ancestor: self.ancestor.deep_view(),
            associate_names: self.associate_names.deep_view(),
        }
    }
}

/// A scope of which nothing is known but its kind, its name and its
/// arguments.
fn plain_start(kind: SymbolKind, name: String, args: Vec<String>, signature: &[char]) -> (r:
    ScopeStart)
    ensures
        r.deep_view() == sc::plain_start(kind, name@, args.deep_view(), signature@),
{
    let selection = name.clone();
    ScopeStart {
        kind,
        name,
        args,
        signature: text(signature),
        selection,
        attributes: empty(),
        visibility: None,
        extends: None,
        is_abstract: false,
        is_module_procedure: false,
        ancestor: None,
        associate_names: empty(),
    }
}

/// A procedure whose name and arguments stand in `rest`.
fn procedure_start(kind: SymbolKind, rest: &[char], code: &[char]) -> (r: Option<ScopeStart>)
    ensures
        r.deep_view() == sc::procedure_start(kind, rest@, code@),
{
    match ident_text(rest) {
        Some(name) => Some(plain_start(kind, name, args_of(rest), trim(code))),
        None => None,
    }
}

// ---------------------------------------------------------------------------
// Procedures
// ---------------------------------------------------------------------------

/// Whether a word can stand before `subroutine` or `function`.
fn is_procedure_prefix(word: &[char]) -> (r: bool)
    ensures
        r == sc::is_procedure_prefix(word@),
{
    same_word(word, "pure") || same_word(word, "impure") || same_word(word, "elemental")
        || same_word(word, "recursive")
}

/// A statement without the words that can stand before `subroutine` or
/// `function`.
pub fn strip_procedure_prefixes<'a>(code: &'a [char]) -> (r: &'a [char])
    ensures
        r@ == sc::strip_procedure_prefixes(code@),
    decreases code@.len(),
{
    let t = trim_start(code);
    match first_ident(t) {
        Some(word) => if is_procedure_prefix(word) {
            proof {
                st::lemma_trim_len(code@);
                st::lemma_next_name(t@);
                st::lemma_byte_len_positive(word@);
                st::lemma_index_of_byte(t@, st::bytes(word@) as nat, 0);
            }
            strip_procedure_prefixes(skip_bytes(t, byte_len(word)))
        } else {
            t
        },
        None => t,
    }
}

/// Whether a word starts a type that a function can have.
fn is_function_type(word: &[char]) -> (r: bool)
    ensures
        r == sc::is_function_type(word@),
{
    same_word(word, "integer") || same_word(word, "real") || same_word(word, "logical")
        || same_word(word, "complex") || same_word(word, "character") || same_word(word, "double")
        || same_word(word, "type") || same_word(word, "class")
}

/// What follows `function` in a statement that starts with the type of the
/// function.
pub fn typed_function_rest<'a>(code: &'a [char]) -> (r: Option<&'a [char]>)
    ensures
        st::slice(r) == sc::typed_function_rest(code@),
{
    let t = trim_start(code);
    let low = lower(t);
    let word = chars("function");
    match find(low.as_slice(), word.as_slice()) {
        Some(i) => {
            let before = trim(take(t, i));
            let n: usize = t.len();
            let after = skip(t, i + word.len());
            if i == 0 || contains(before, "::") || !(is_space(t[i - 1]) || t[i - 1] == ')')
                || goes_on(after) {
                return None;
            }
            match first_ident(before) {
                Some(word) => if is_function_type(word) {
                    Some(after)
                } else {
                    None
                },
                None => None,
            }
        },
        None => None,
    }
}

/// What follows `function` behind `module` and the type of the function.
fn typed_module_function_rest<'a>(code: &'a [char]) -> (r: Option<&'a [char]>)
    ensures
        st::slice(r) == sc::typed_module_function_rest(code@),
{
    match after_keyword(code, "module") {
        Some(rest) => typed_function_rest(rest),
        None => None,
    }
}

// ---------------------------------------------------------------------------
// Constructs
// ---------------------------------------------------------------------------

/// Whether a text is a single name.
fn is_label(label: &[char]) -> (r: bool)
    ensures
        r == sc::is_label(label@),
{
    match first_ident(label) {
        Some(name) => same(name, label),
        None => false,
    }
}

/// The label before the first colon of a statement.
pub fn construct_label<'a>(code: &'a [char]) -> (r: Option<&'a [char]>)
    ensures
        st::slice(r) == sc::construct_label(code@),
{
    match split_once_char(code, ':') {
        Some((label, _)) => {
            let label = trim(label);
            if is_label(label) {
                Some(label)
            } else {
                None
            }
        },
        None => None,
    }
}

/// A statement without its label.
pub fn strip_construct_label<'a>(code: &'a [char]) -> (r: &'a [char])
    ensures
        r@ == sc::strip_construct_label(code@),
{
    match split_once_char(code, ':') {
        Some((label, rest)) => if is_label(trim(label)) {
            trim_start(rest)
        } else {
            code
        },
        None => code,
    }
}

/// The names that an `associate` statement defines.
pub fn associate_names(code: &[char]) -> (r: Vec<String>)
    ensures
        r.deep_view() == sc::associate_names(code@),
{
    let inner = match paren_content(code) {
        Some(inner) => inner,
        None => {
            return empty();
        },
    };
    let parts = split_top_level_commas(inner);
    let mut out: Vec<String> = empty();
    let mut i: usize = 0;
    while i < parts.len()
        invariant
            i <= parts@.len(),
            parts.deep_view() == ss::split_top_level_commas(inner@),
            ss::paren_content(code@) == Some(inner@),
            sc::associate_names(code@) == sc::associate_names_from(
                parts.deep_view(),
                i as int,
                out.deep_view(),
            ),
        decreases parts@.len() - i,
    {
        let item = chars(parts[i].as_str());
        match split_once(item.as_slice(), "=>") {
            Some((lhs, _)) => match ident_text(trim(lhs)) {
                Some(name) => {
                    put(&mut out, name);
                },
                None => {
                },
            },
            None => {
            },
        }
        i = i + 1;
    }
    out
}

/// A text, or another where there is none.
fn text_or(t: Option<&[char]>, other: &str) -> (r: String)
    ensures
        r@ == sc::text_or(st::slice(t), other@),
{
    match t {
        Some(t) => text(t),
        None => owned(other),
    }
}

/// `block data`, `block`, `associate` and the forms of `select`.
pub fn parse_construct_scope(code: &[char]) -> (r: Option<ScopeStart>)
    ensures
        r.deep_view() == sc::parse_construct_scope(code@),
{
    let trimmed = trim(code);
    let construct = strip_construct_label(trimmed);
    match after_keywords(construct, "block", "data") {
        Some(rest) => {
            let name = text_or(first_ident(rest), "block data");
            return Some(plain_start(SymbolKind::Program, name, empty(), trimmed));
        },
        None => {
        },
    }
    if has_keyword(construct, "block") {
        let name = text_or(construct_label(trimmed), "block");
        return Some(plain_start(SymbolKind::Block, name, empty(), trimmed));
    }
    if has_keyword(construct, "associate") {
        let mut start = plain_start(SymbolKind::Associate, owned("associate"), empty(), trimmed);
        start.associate_names = associate_names(construct);
        return Some(start);
    }
    if has_keyword(construct, "select type") || has_keyword(construct, "select rank")
        || has_keyword(construct, "select case") {
        let mut start = plain_start(SymbolKind::SelectType, owned("select_type"), empty(), trimmed);
        start.selection = text_or(first_ident(construct), "select");
        return Some(start);
    }
    None
}

// ---------------------------------------------------------------------------
// Units
// ---------------------------------------------------------------------------

/// What stands between the parentheses of `submodule (ancestor) name`, and
/// what follows them.
fn submodule_parts<'a>(rest: &'a [char]) -> (r: Option<(&'a [char], &'a [char])>)
    ensures
        st::pair(r) == sc::submodule_parts(rest@),
{
    match strip_char(rest, '(') {
        Some(after) => split_once_char(after, ')'),
        None => None,
    }
}

/// `submodule (ancestor[:parent]) name`.
pub fn parse_submodule_definition(code: &[char]) -> (r: Option<ScopeStart>)
    ensures
        r.deep_view() == sc::parse_submodule_definition(code@),
{
    match after_keyword(code, "submodule") {
        Some(after) => {
            let rest = trim_start(after);
            let (ancestor, name_source): (Option<String>, &[char]) = match submodule_parts(rest) {
                Some((inner, after)) => (ident_text(inner), after),
                None => (None, rest),
            };
            match ident_text(name_source) {
                Some(name) => {
                    let mut start = plain_start(SymbolKind::Submodule, name, empty(), trim(code));
                    start.ancestor = ancestor;
                    Some(start)
                },
                None => None,
            }
        },
        None => None,
    }
}

/// `abstract interface`.
fn parse_abstract_interface_scope(code: &[char]) -> (r: Option<ScopeStart>)
    ensures
        r.deep_view() == sc::parse_abstract_interface_scope(code@),
{
    if has_keyword(code, "abstract interface") {
        let mut start = plain_start(SymbolKind::Interface, owned("interface"), empty(), trim(code));
        start.is_abstract = true;
        Some(start)
    } else {
        None
    }
}

/// `interface operator(..)` or `interface assignment(..)`.
fn parse_generic_interface_scope(code: &[char]) -> (r: Option<ScopeStart>)
    ensures
        r.deep_view() == sc::parse_generic_interface_scope(code@),
{
    match after_keyword(code, "interface") {
        Some(rest) => match generic_name(trim_start(rest)) {
            Some(name) => Some(plain_start(SymbolKind::Interface, name, empty(), trim(code))),
            None => None,
        },
        None => None,
    }
}

/// `keyword [name[(args)]]`; the keyword is the name of a unit without one.
fn unit_start(code: &[char], keyword: &str, kind: SymbolKind) -> (r: Option<ScopeStart>)
    ensures
        r.deep_view() == sc::unit_start(code@, keyword@, kind),
{
    match after_keyword(code, keyword) {
        Some(rest) => {
            let low = lower(code);
            let name = text_or(first_ident(rest), keyword);
            let mut start = plain_start(kind, name, args_of(rest), trim(code));
            start.is_abstract = contains(low.as_slice(), "abstract interface");
            Some(start)
        },
        None => None,
    }
}

/// `module`, `program`, `subroutine`, `function` or `interface`.
fn parse_unit(code: &[char]) -> (r: Option<ScopeStart>)
    ensures
        r.deep_view() == sc::parse_unit(code@),
{
    if let Some(start) = unit_start(code, "module", SymbolKind::Module) {
        return Some(start);
    }
    if let Some(start) = unit_start(code, "program", SymbolKind::Program) {
        return Some(start);
    }
    if let Some(start) = unit_start(code, "subroutine", SymbolKind::Subroutine) {
        return Some(start);
    }
    if let Some(start) = unit_start(code, "function", SymbolKind::Function) {
        return Some(start);
    }
    unit_start(code, "interface", SymbolKind::Interface)
}

// ---------------------------------------------------------------------------
// Derived types
// ---------------------------------------------------------------------------

/// Whether a statement defines a derived type.
pub fn is_derived_type_definition(code: &[char]) -> (r: bool)
    ensures
        r == sc::is_derived_type_definition(code@),
{
    match after_keyword(code, "type") {
        Some(after) => {
            let rest = trim_start(after);
            !first_ident_is(rest, "is") && !starts_with_char(rest, '(') && (contains(rest, "::")
                || first_ident(rest).is_some())
        },
        None => false,
    }
}

/// What the attributes of a derived type say.
struct TypeAttributes {
    attributes: Vec<String>,
    visibility: Option<Visibility>,
    extends: Option<String>,
    is_abstract: bool,
}

impl DeepView for TypeAttributes {
    type V = sc::TypeAttributes;

    closed spec fn deep_view(&self) -> sc::TypeAttributes {
        sc::TypeAttributes {
            attributes: self.attributes.deep_view(),
            visibility: self.visibility,
            extends: self.extends.deep_view(),
            is_abstract: self.is_abstract,
        }
    }
}

/// Takes in one more attribute.
fn add_type_attribute(t: &mut TypeAttributes, attr: &[char])
    ensures
        final(t).deep_view() == sc::add_type_attribute(old(t).deep_view(), attr@),
{
    let low = lower(attr);
    if same_word(attr, "public") {
        t.visibility = Some(Visibility::Public);
    } else if same_word(attr, "private") {
        t.visibility = Some(Visibility::Private);
    } else if same_word(attr, "abstract") {
        t.is_abstract = true;
    } else if starts_with_word(low.as_slice(), "extends") {
        t.extends = match paren_content(attr) {
            Some(value) => ident_text(value),
            None => None,
        };
    }
    put(&mut t.attributes, text(attr));
}

/// What the attributes between `type` and `::` say.
fn type_attributes(lhs: &[char]) -> (r: TypeAttributes)
    ensures
        r.deep_view() == sc::type_attributes(lhs@),
{
    let parts = split_top_level_commas(lhs);
    let mut t = TypeAttributes {
        attributes: empty(),
        visibility: None,
        extends: None,
        is_abstract: false,
    };
    let mut i: usize = 0;
    while i < parts.len()
        invariant
            i <= parts@.len(),
            parts.deep_view() == ss::split_top_level_commas(lhs@),
            sc::type_attributes(lhs@) == sc::type_attributes_from(
                parts.deep_view(),
                i as int,
                t.deep_view(),
            ),
        decreases parts@.len() - i,
    {
        let item = chars(parts[i].as_str());
        let attr = trim(item.as_slice());
        if attr.len() > 0 {
            add_type_attribute(&mut t, attr);
        }
        i = i + 1;
    }
    t
}

/// `type [, attributes ::] name`.
pub fn parse_type_scope(code: &[char]) -> (r: Option<ScopeStart>)
    ensures
        r.deep_view() == sc::parse_type_scope(code@),
{
    match after_keyword(code, "type") {
        Some(after) => {
            let rest = trim_start(after);
            let (lhs, rhs): (&[char], &[char]) = match split_once(rest, "::") {
                Some((lhs, rhs)) => (lhs, rhs),
                None => (take(rest, 0), rest),
            };
            assert(rest@.take(0) =~= Seq::empty());
            let t = type_attributes(lhs);
            match ident_text(rhs) {
                Some(name) => {
                    let mut start = plain_start(SymbolKind::Type, name, empty(), trim(code));
                    start.attributes = t.attributes;
                    start.visibility = t.visibility;
                    start.extends = t.extends;
                    start.is_abstract = t.is_abstract;
                    Some(start)
                },
                None => None,
            }
        },
        None => None,
    }
}

// ---------------------------------------------------------------------------
// All of them
// ---------------------------------------------------------------------------

/// The scope that a statement without its procedure prefixes opens, unless it
/// is a procedure of a module or one with a type.
fn parse_other_scope(code: &[char]) -> (r: Option<ScopeStart>)
    ensures
        r.deep_view() == sc::parse_other_scope(code@),
{
    if let Some(start) = parse_construct_scope(code) {
        return Some(start);
    }
    if let Some(start) = parse_abstract_interface_scope(code) {
        return Some(start);
    }
    if let Some(start) = parse_generic_interface_scope(code) {
        return Some(start);
    }
    if let Some(start) = parse_unit(code) {
        return Some(start);
    }
    if is_derived_type_definition(code) {
        parse_type_scope(code)
    } else {
        None
    }
}

/// The scope that a statement opens.
pub fn parse_scope_start(statement: &[char]) -> (r: Option<ScopeStart>)
    ensures
        r.deep_view() == sc::parse_scope_start(statement@),
{
    let code = strip_procedure_prefixes(statement);
    if let Some(rest) = after_keywords(code, "module", "procedure") {
        return match ident_text(rest) {
            Some(name) => {
                let mut start = plain_start(SymbolKind::Subroutine, name, empty(), trim(code));
                start.is_module_procedure = true;
                Some(start)
            },
            None => None,
        };
    }
    if let Some(start) = parse_submodule_definition(code) {
        return Some(start);
    }
    if let Some(rest) = after_keywords(code, "module", "subroutine") {
        return procedure_start(SymbolKind::Subroutine, rest, code);
    }
    if let Some(rest) = after_keywords(code, "module", "function") {
        return procedure_start(SymbolKind::Function, rest, code);
    }
    if let Some(rest) = typed_module_function_rest(code) {
        return procedure_start(SymbolKind::Function, rest, code);
    }
    if let Some(rest) = typed_function_rest(code) {
        return procedure_start(SymbolKind::Function, rest, code);
    }
    parse_other_scope(code)
}

/// The name of the result that a function statement gives.
pub fn parse_result_name(signature: &[char]) -> (r: Option<String>)
    ensures
        r.deep_view() == sc::parse_result_name(signature@),
{
    let low = lower(signature);
    let word = chars("result");
    match find(low.as_slice(), word.as_slice()) {
        Some(i) => {
            let n: usize = signature.len();
            match paren_content(skip(signature, i + word.len())) {
                Some(inner) => ident_text(inner),
                None => None,
            }
        },
        None => None,
    }
}

} // verus!
