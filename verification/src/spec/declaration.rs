//! Statements that declare names.

use vstd::prelude::*;

use crate::model::{SymbolKind, Visibility};
use crate::spec::model as sm;
use crate::spec::model::Scope;
use crate::spec::scan as ss;
use crate::spec::statement as sp;
use crate::spec::text as st;
use crate::spec::text::Text;

verus! {

// ---------------------------------------------------------------------------
// The declared names
// ---------------------------------------------------------------------------

/// One name of a declaration.
#[verifier::ext_equal]
pub struct DeclItem {
    pub name: Text,
    pub binding_target: Option<Text>,
    pub has_shape: bool,
}

/// The part of an item before `=>`, and the first name behind it.
pub open spec fn item_parts(item: Text) -> (Text, Option<Text>) {
    match st::split_once(item, "=>"@) {
        Some((lhs, rhs)) => (st::trim(lhs), st::first_ident(rhs)),
        None => (item, None),
    }
}

/// Whether a parenthesis follows as many bytes as the name has.
pub open spec fn has_shape(name_part: Text, name: Text) -> bool {
    match st::get_bytes(st::trim_start(name_part), st::bytes(name) as nat) {
        Some(rest) => st::starts_with_char(st::trim_start(rest), '('),
        None => false,
    }
}

/// The name that an item declares.
pub open spec fn decl_item(part: Text) -> Option<DeclItem> {
    let (name_part, binding_target) = item_parts(st::trim(part));
    match st::first_ident(name_part) {
        Some(name) => Some(
            DeclItem { name, binding_target, has_shape: has_shape(name_part, name) },
        ),
        None => None,
    }
}

/// The names that the items from `i` on declare.
pub open spec fn decl_items_from(parts: Seq<Text>, i: int, out: Seq<DeclItem>) -> Seq<DeclItem>
    decreases parts.len() - i,
{
    if i >= parts.len() {
        out
    } else {
        decl_items_from(
            parts,
            i + 1,
            match decl_item(parts[i]) {
                Some(item) => out.push(item),
                None => out,
            },
        )
    }
}

/// The names that a list declares.
pub open spec fn parse_decl_items(rhs: Text) -> Seq<DeclItem> {
    decl_items_from(ss::split_top_level_commas(rhs), 0, Seq::empty())
}

// ---------------------------------------------------------------------------
// The type and the attributes
// ---------------------------------------------------------------------------

/// What stands before the names of a declaration.
#[verifier::ext_equal]
pub struct DeclarationLhs {
    pub type_keyword: Text,
    pub type_spec: Text,
    pub attributes: Seq<Text>,
    pub visibility: Option<Visibility>,
}

/// What stands before the names, with one more attribute.
pub open spec fn add_attribute(d: DeclarationLhs, attr: Text) -> DeclarationLhs {
    DeclarationLhs {
        attributes: d.attributes.push(attr),
        visibility: if st::same(attr, "public"@) {
            Some(Visibility::Public)
        } else if st::same(attr, "private"@) {
            Some(Visibility::Private)
        } else {
            d.visibility
        },
        ..d
    }
}

/// What stands before the names, with the attributes from `i` on.
pub open spec fn attributes_from(parts: Seq<Text>, i: int, d: DeclarationLhs) -> DeclarationLhs
    decreases parts.len() - i,
{
    if i >= parts.len() {
        d
    } else {
        let attr = st::trim(parts[i]);
        attributes_from(
            parts,
            i + 1,
            if attr.len() == 0 {
                d
            } else {
                add_attribute(d, attr)
            },
        )
    }
}

/// The type and the attributes before the names of a declaration.
pub open spec fn parse_declaration_lhs(lhs: Text) -> Option<DeclarationLhs> {
    let parts = ss::split_top_level_commas(lhs);
    let first = st::trim(parts[0]);
    match st::first_ident(first) {
        Some(keyword) => Some(
            attributes_from(
                parts,
                1,
                DeclarationLhs {
                    type_keyword: st::lower(keyword),
                    type_spec: first,
                    attributes: Seq::empty(),
                    visibility: None,
                },
            ),
        ),
        None => None,
    }
}

/// The value in parentheses of the first attribute from `i` on that starts
/// with `pass`.
pub open spec fn pass_arg_from(attributes: Seq<Text>, i: int) -> Option<Text>
    decreases attributes.len() - i,
{
    if i >= attributes.len() {
        None
    } else if st::starts_with(st::lower(attributes[i]), "pass"@) {
        match ss::paren_content(attributes[i]) {
            Some(value) => st::first_ident(value),
            None => None,
        }
    } else {
        pass_arg_from(attributes, i + 1)
    }
}

/// The attributes of a name: those of the declaration, and `dimension` for a
/// name with a shape of its own.
pub open spec fn declaration_attributes(d: DeclarationLhs, item: DeclItem) -> Seq<Text> {
    if item.has_shape && !st::has_name(d.attributes, "dimension"@) {
        d.attributes.push("dimension"@)
    } else {
        d.attributes
    }
}

// ---------------------------------------------------------------------------
// Declarations of variables
// ---------------------------------------------------------------------------

/// Whether a word starts a declaration without colons.
pub open spec fn is_legacy_type(word: Text) -> bool {
    ||| st::same(word, "integer"@)
    ||| st::same(word, "real"@)
    ||| st::same(word, "double"@)
    ||| st::same(word, "complex"@)
    ||| st::same(word, "character"@)
    ||| st::same(word, "logical"@)
    ||| st::same(word, "type"@)
    ||| st::same(word, "class"@)
}

/// What follows the words of the type in a declaration without colons. As many
/// bytes are cut off as the words have.
pub open spec fn after_type_words(t: Text, keyword: Text) -> Option<Text> {
    match st::get_bytes(t, st::bytes(keyword) as nat) {
        Some(after) => if st::same(keyword, "double"@) {
            let rest = st::trim_start(after);
            match st::first_ident(rest) {
                Some(word) => if st::same(word, "precision"@) {
                    st::get_bytes(rest, st::bytes(word) as nat)
                } else {
                    Some(after)
                },
                None => Some(after),
            }
        } else {
            Some(after)
        },
        None => None,
    }
}

/// What follows the kind in parentheses, where a declaration without colons
/// has one.
pub open spec fn after_type_kind(after: Text) -> Option<Text> {
    let rest = st::trim_start(after);
    if st::starts_with_char(rest, '(') {
        match ss::matching_paren_end(rest) {
            Some(close) => Some(rest.skip(close)),
            None => None,
        }
    } else {
        Some(after)
    }
}

/// The type and the names of a declaration without colons.
pub open spec fn split_legacy_declaration(code: Text) -> Option<(Text, Text)> {
    let t = st::trim_start(code);
    match st::first_ident(t) {
        Some(keyword) => if !is_legacy_type(keyword) {
            None
        } else {
            match after_type_words(t, keyword) {
                Some(after) => if (st::same(keyword, "type"@) || st::same(keyword, "class"@)) && (
                st::first_ident_is(st::trim_start(after), "is"@) || st::first_ident_is(
                    st::trim_start(after),
                    "default"@,
                )) {
                    None
                } else {
                    match after_type_kind(after) {
                        Some(tail) => {
                            let rhs = st::trim_start(tail);
                            if rhs.len() == 0 || st::starts_with_char(rhs, ',') {
                                None
                            } else {
                                Some((code.take(code.len() - tail.len()), rhs))
                            }
                        },
                        None => None,
                    }
                },
                None => None,
            }
        },
        None => None,
    }
}

/// The two sides of a declaration.
pub open spec fn declaration_sides(code: Text) -> Option<(Text, Text)> {
    match st::split_once(code, "::"@) {
        Some(sides) => Some(sides),
        None => split_legacy_declaration(code),
    }
}

/// Whether a word starts a declaration of variables.
pub open spec fn is_declaration_keyword(word: Text) -> bool {
    ||| word == "integer"@
    ||| word == "real"@
    ||| word == "double"@
    ||| word == "doubleprecision"@
    ||| word == "complex"@
    ||| word == "character"@
    ||| word == "logical"@
    ||| word == "type"@
    ||| word == "class"@
    ||| word == "procedure"@
    ||| word == "external"@
}

/// The symbol of one declared name.
pub open spec fn declared_symbol(
    code: Text,
    line: usize,
    file: Text,
    scope: Scope,
    in_type_binding_part: bool,
    lhs: Text,
    d: DeclarationLhs,
    item: DeclItem,
) -> sm::Symbol {
    let range = sm::span(line, st::column_of(code, item.name), st::byte_len(item.name));
    sm::Symbol {
        visibility: match d.visibility {
            Some(visibility) => visibility,
            None => Visibility::Default,
        },
        type_spec: Some(d.type_spec),
        attributes: declaration_attributes(d, item),
        is_parameter: st::has_name(d.attributes, "parameter"@),
        is_external: st::has_name(d.attributes, "external"@) || d.type_keyword == "external"@,
        binding_target: item.binding_target,
        pass_arg: pass_arg_from(d.attributes, 0),
        is_deferred: st::has_name(d.attributes, "deferred"@),
        ..sm::bare_symbol(
            item.name,
            if d.type_keyword == "procedure"@ && in_type_binding_part {
                SymbolKind::Method
            } else {
                SymbolKind::Variable
            },
            file,
            range,
            range,
            scope,
            st::trim(lhs) + " :: "@ + item.name,
        )
    }
}

/// The symbols of the declared names from `i` on.
pub open spec fn declared_from(
    code: Text,
    line: usize,
    file: Text,
    scope: Scope,
    in_type_binding_part: bool,
    lhs: Text,
    d: DeclarationLhs,
    items: Seq<DeclItem>,
    i: int,
    out: Seq<sm::Symbol>,
) -> Seq<sm::Symbol>
    decreases items.len() - i,
{
    if i >= items.len() {
        out
    } else {
        declared_from(
            code,
            line,
            file,
            scope,
            in_type_binding_part,
            lhs,
            d,
            items,
            i + 1,
            out.push(
                declared_symbol(code, line, file, scope, in_type_binding_part, lhs, d, items[i]),
            ),
        )
    }
}

/// The symbols that a declaration of variables or of type-bound procedures
/// makes.
pub open spec fn parse_variables(
    code: Text,
    line: usize,
    file: Text,
    scope: Scope,
    in_type_binding_part: bool,
) -> Option<Seq<sm::Symbol>> {
    match declaration_sides(code) {
        Some((lhs, rhs)) => match parse_declaration_lhs(st::trim(lhs)) {
            Some(d) => if is_declaration_keyword(d.type_keyword) {
                Some(
                    declared_from(
                        code,
                        line,
                        file,
                        scope,
                        in_type_binding_part,
                        lhs,
                        d,
                        parse_decl_items(rhs),
                        0,
                        Seq::empty(),
                    ),
                )
            } else {
                None
            },
            None => None,
        },
        None => None,
    }
}

// ---------------------------------------------------------------------------
// Legacy storage statements
// ---------------------------------------------------------------------------

/// A symbol with a name, a place and a signature.
pub open spec fn legacy_symbol(
    name: Text,
    kind: SymbolKind,
    code: Text,
    line: usize,
    file: Text,
    scope: Scope,
    signature: Text,
) -> sm::Symbol {
    let range = sm::span(line, st::column_of(code, name), st::byte_len(name));
    sm::bare_symbol(name, kind, file, range, range, scope, signature)
}

/// A list of symbols; none where it is empty.
pub open spec fn some_symbols(symbols: Seq<sm::Symbol>) -> Option<Seq<sm::Symbol>> {
    if symbols.len() == 0 {
        None
    } else {
        Some(symbols)
    }
}

/// The variables of a list from `i` on, each with the signature
/// `prefix :: name`.
pub open spec fn listed_from(
    code: Text,
    line: usize,
    file: Text,
    scope: Scope,
    prefix: Text,
    items: Seq<DeclItem>,
    i: int,
    out: Seq<sm::Symbol>,
) -> Seq<sm::Symbol>
    decreases items.len() - i,
{
    if i >= items.len() {
        out
    } else {
        listed_from(
            code,
            line,
            file,
            scope,
            prefix,
            items,
            i + 1,
            out.push(
                legacy_symbol(
                    items[i].name,
                    SymbolKind::Variable,
                    code,
                    line,
                    file,
                    scope,
                    prefix + " :: "@ + items[i].name,
                ),
            ),
        )
    }
}

/// The name of a block between slashes, unless it is empty.
pub open spec fn block_name(block: Option<Text>) -> Option<Text> {
    match block {
        Some(name) => if name.len() == 0 {
            None
        } else {
            Some(name)
        },
        None => None,
    }
}

/// Puts the symbol of a named block behind the others.
pub open spec fn add_block(
    code: Text,
    line: usize,
    file: Text,
    scope: Scope,
    keyword: Text,
    block: Option<Text>,
    out: Seq<sm::Symbol>,
) -> Seq<sm::Symbol> {
    match block_name(block) {
        Some(name) => out.push(
            legacy_symbol(
                name,
                SymbolKind::Variable,
                code,
                line,
                file,
                scope,
                keyword + " /"@ + name + "/"@,
            ),
        ),
        None => out,
    }
}

/// What the signature of a member of a common block starts with.
pub open spec fn common_prefix(block: Option<Text>) -> Text {
    match block_name(block) {
        Some(name) => "common"@ + " /"@ + name + "/"@,
        None => "common"@,
    }
}

/// The symbols of the common blocks from `i` on.
pub open spec fn common_from(
    code: Text,
    line: usize,
    file: Text,
    scope: Scope,
    groups: Seq<ss::SlashGroup>,
    i: int,
    out: Seq<sm::Symbol>,
) -> Seq<sm::Symbol>
    decreases groups.len() - i,
{
    if i >= groups.len() {
        out
    } else {
        common_from(
            code,
            line,
            file,
            scope,
            groups,
            i + 1,
            listed_from(
                code,
                line,
                file,
                scope,
                common_prefix(groups[i].0),
                parse_decl_items(groups[i].1),
                0,
                add_block(code, line, file, scope, "common"@, groups[i].0, out),
            ),
        )
    }
}

/// `common [/block/] names [/block/ names]`.
pub open spec fn parse_common(code: Text, line: usize, file: Text, scope: Scope) -> Option<
    Seq<sm::Symbol>,
> {
    match st::after_keyword(code, "common"@) {
        Some(rest) => some_symbols(
            common_from(
                code,
                line,
                file,
                scope,
                ss::split_slash_delimited_groups(rest),
                0,
                Seq::empty(),
            ),
        ),
        None => None,
    }
}

/// The symbols of the groups of an `equivalence` statement from `i` on.
pub open spec fn equivalence_from(
    code: Text,
    line: usize,
    file: Text,
    scope: Scope,
    groups: Seq<Text>,
    i: int,
    out: Seq<sm::Symbol>,
) -> Seq<sm::Symbol>
    decreases groups.len() - i,
{
    if i >= groups.len() {
        out
    } else {
        equivalence_from(
            code,
            line,
            file,
            scope,
            groups,
            i + 1,
            listed_from(
                code,
                line,
                file,
                scope,
                "equivalence"@,
                parse_decl_items(groups[i]),
                0,
                out,
            ),
        )
    }
}

/// `equivalence (names), (names)`.
pub open spec fn parse_equivalence(code: Text, line: usize, file: Text, scope: Scope) -> Option<
    Seq<sm::Symbol>,
> {
    match st::after_keyword(code, "equivalence"@) {
        Some(rest) => some_symbols(
            equivalence_from(
                code,
                line,
                file,
                scope,
                ss::parenthesized_groups(rest),
                0,
                Seq::empty(),
            ),
        ),
        None => None,
    }
}

/// The symbols of the groups of a `namelist` statement from `i` on.
pub open spec fn namelist_from(
    code: Text,
    line: usize,
    file: Text,
    scope: Scope,
    groups: Seq<ss::SlashGroup>,
    i: int,
    out: Seq<sm::Symbol>,
) -> Seq<sm::Symbol>
    decreases groups.len() - i,
{
    if i >= groups.len() {
        out
    } else {
        namelist_from(
            code,
            line,
            file,
            scope,
            groups,
            i + 1,
            add_block(code, line, file, scope, "namelist"@, groups[i].0, out),
        )
    }
}

/// `namelist /group/ names [/group/ names]`.
pub open spec fn parse_namelist(code: Text, line: usize, file: Text, scope: Scope) -> Option<
    Seq<sm::Symbol>,
> {
    match st::after_keyword(code, "namelist"@) {
        Some(rest) => some_symbols(
            namelist_from(
                code,
                line,
                file,
                scope,
                ss::split_slash_delimited_groups(rest),
                0,
                Seq::empty(),
            ),
        ),
        None => None,
    }
}

// ---------------------------------------------------------------------------
// Enumerators and prototypes
// ---------------------------------------------------------------------------

/// The constant that an item of an `enumerator` statement declares.
pub open spec fn enumerator_symbol(
    code: Text,
    line: usize,
    file: Text,
    scope: Scope,
    item: DeclItem,
) -> sm::Symbol {
    sm::Symbol {
        type_spec: Some("integer"@),
        attributes: seq!["parameter"@],
        is_parameter: true,
        ..legacy_symbol(
            item.name,
            SymbolKind::Variable,
            code,
            line,
            file,
            scope,
            "enumerator :: "@ + item.name,
        )
    }
}

/// The constants that the items from `i` on declare.
pub open spec fn enumerators_from(
    code: Text,
    line: usize,
    file: Text,
    scope: Scope,
    items: Seq<DeclItem>,
    i: int,
    out: Seq<sm::Symbol>,
) -> Seq<sm::Symbol>
    decreases items.len() - i,
{
    if i >= items.len() {
        out
    } else {
        enumerators_from(
            code,
            line,
            file,
            scope,
            items,
            i + 1,
            out.push(enumerator_symbol(code, line, file, scope, items[i])),
        )
    }
}

/// `enumerator [::] names`.
pub open spec fn parse_enumerators(code: Text, line: usize, file: Text, scope: Scope) -> Seq<
    sm::Symbol,
> {
    match st::after_keyword(code, "enumerator"@) {
        Some(rest) => {
            let rhs = match st::split_once(rest, "::"@) {
                Some((lhs, rhs)) => rhs,
                None => rest,
            };
            enumerators_from(
                code,
                line,
                file,
                scope,
                parse_decl_items(st::trim(rhs)),
                0,
                Seq::empty(),
            )
        },
        None => Seq::empty(),
    }
}

/// The symbol of a procedure that an interface takes from its module.
pub open spec fn prototype_symbol(
    code: Text,
    line: usize,
    file: Text,
    scope: Scope,
    name: Text,
) -> sm::Symbol {
    sm::bare_symbol(
        name,
        SymbolKind::Subroutine,
        file,
        sm::on_line(line, 0, st::size(st::utf16_len(code))),
        sm::span(line, st::utf16_column_of(code, name), st::utf16_len(name)),
        scope,
        "module procedure "@ + name,
    )
}

/// The symbols of the names from `i` on.
pub open spec fn prototypes_from(
    code: Text,
    line: usize,
    file: Text,
    scope: Scope,
    names: Seq<Text>,
    i: int,
    out: Seq<sm::Symbol>,
) -> Seq<sm::Symbol>
    decreases names.len() - i,
{
    if i >= names.len() {
        out
    } else {
        prototypes_from(
            code,
            line,
            file,
            scope,
            names,
            i + 1,
            out.push(prototype_symbol(code, line, file, scope, names[i])),
        )
    }
}

/// `module procedure names` in an interface.
pub open spec fn parse_module_procedure_prototypes(
    code: Text,
    line: usize,
    file: Text,
    scope: Scope,
) -> Seq<sm::Symbol> {
    match st::after_keywords(code, "module"@, "procedure"@) {
        Some(rest) => prototypes_from(
            code,
            line,
            file,
            scope,
            sp::split_names(rest),
            0,
            Seq::empty(),
        ),
        None => Seq::empty(),
    }
}

// ---------------------------------------------------------------------------
// Statement functions
// ---------------------------------------------------------------------------

/// Whether each of the parts is a plain name.
pub open spec fn all_plain(parts: Seq<Text>) -> bool {
    forall|i: int| 0 <= i < parts.len() ==> st::is_fortran_name(st::trim(#[trigger] parts[i]))
}

/// The name and the arguments of what can be a statement function: `[label]
/// name(args) = ..`, where the arguments are plain names.
pub open spec fn parse_statement_function_lhs(code: Text) -> Option<(Text, Seq<Text>)> {
    match ss::split_top_level_once(code, "="@) {
        Some((side, value)) => {
            let lhs = st::trim(side);
            match st::next_name(lhs) {
                Some((i, name)) => {
                    let rest = st::trim_start(lhs.skip(i + name.len()));
                    if !st::all_digits(st::trim(lhs.take(i))) || !st::starts_with_char(rest, '(') {
                        None
                    } else {
                        match ss::matching_paren_index(rest, 0) {
                            Some(close) => {
                                let inner = rest.subrange(1, close);
                                if st::is_blank(rest.skip(close + 1)) && (st::is_blank(inner)
                                    || all_plain(ss::split_top_level_commas(inner))) {
                                    Some((name, sp::split_names(inner)))
                                } else {
                                    None
                                }
                            },
                            None => None,
                        }
                    }
                },
                None => None,
            }
        },
        None => None,
    }
}

// ---------------------------------------------------------------------------
// Classes of symbols
// ---------------------------------------------------------------------------

/// Whether an attribute of a symbol gives the intent of an argument.
pub open spec fn has_intent_attribute(s: sm::Symbol) -> bool {
    exists|i: int|
        0 <= i < s.attributes.len() && st::starts_with(
            st::lower(#[trigger] s.attributes[i]),
            "intent"@,
        )
}

/// Whether a symbol takes over a procedure of a module.
pub open spec fn is_module_procedure_link_symbol(s: sm::Symbol) -> bool {
    &&& sm::is_procedure_kind(s.kind)
    &&& s.signature.len() >= "module procedure"@.len()
    &&& st::same(s.signature.take("module procedure"@.len() as int), "module procedure"@)
}

} // verus!
