//! Statements that declare names.

use vstd::prelude::*;
use vstd::slice::slice_subrange;

use crate::list::{empty, put};
use crate::model::{Range, Symbol, SymbolKind, Visibility};
use crate::scan::{
    matching_paren_end, matching_paren_index, paren_content, parenthesized_groups,
    split_slash_delimited_groups, split_top_level_commas, split_top_level_once,
};
use crate::spec::declaration as sd;
use crate::spec::scan as ss;
use crate::spec::text as st;
use crate::statement::{ident_text, span, split_names};
use crate::text::{
    after_keyword, after_keywords, all_digits, byte_len, chars, column_of, copy_option, copy_texts,
    first_ident, first_ident_is, get_bytes, has_name, is_blank, is_fortran_name,
    is_word, lower, next_name, owned, push_text, same, same_word, skip, split_once,
    starts_with_char, starts_with_word, take, text, trim, trim_start, utf16_column_of, utf16_len,
};

verus! {

// ---------------------------------------------------------------------------
// The declared names
// ---------------------------------------------------------------------------

/// One name of a declaration.
#[derive(Debug, PartialEq, Eq)]
pub struct DeclItem {
    pub name: String,
    pub binding_target: Option<String>,
    pub has_shape: bool,
}

impl DeepView for DeclItem {
    type V = sd::DeclItem;

    open spec fn deep_view(&self) -> sd::DeclItem {
        sd::DeclItem {
            name: self.name@,
            binding_target: self.binding_target.deep_view(),
            has_shape: self.has_shape,
        }
    }
}

/// Whether a parenthesis follows as many bytes as the name has.
fn has_shape(name_part: &[char], name: &[char]) -> (r: bool)
    ensures
        r == sd::has_shape(name_part@, name@),
{
    match get_bytes(trim_start(name_part), byte_len(name)) {
        Some(rest) => starts_with_char(trim_start(rest), '('),
        None => false,
    }
}

/// The name that an item declares.
fn decl_item(part: &[char]) -> (r: Option<DeclItem>)
    ensures
        r.deep_view() == sd::decl_item(part@),
{
    let item = trim(part);
    let (name_part, binding_target): (&[char], Option<String>) = match split_once(item, "=>") {
        Some((lhs, rhs)) => (trim(lhs), ident_text(rhs)),
        None => (item, None),
    };
    match first_ident(name_part) {
        Some(name) => Some(
            DeclItem { name: text(name), binding_target, has_shape: has_shape(name_part, name) },
        ),
        None => None,
    }
}

/// The names that a list declares.
pub fn parse_decl_items(rhs: &[char]) -> (r: Vec<DeclItem>)
    ensures
        r.deep_view() == sd::parse_decl_items(rhs@),
{
    let parts = split_top_level_commas(rhs);
    let mut out: Vec<DeclItem> = empty();
    let mut i: usize = 0;
    while i < parts.len()
        invariant
            i <= parts@.len(),
            parts.deep_view() == ss::split_top_level_commas(rhs@),
            sd::parse_decl_items(rhs@) == sd::decl_items_from(
                parts.deep_view(),
                i as int,
                out.deep_view(),
            ),
        decreases parts@.len() - i,
    {
        let part = chars(parts[i].as_str());
        match decl_item(part.as_slice()) {
            Some(item) => {
                put(&mut out, item);
            },
            None => {
            },
        }
        i = i + 1;
    }
    out
}

// ---------------------------------------------------------------------------
// The type and the attributes
// ---------------------------------------------------------------------------

/// What stands before the names of a declaration.
#[derive(Debug, PartialEq, Eq)]
pub struct DeclarationLhs {
    pub type_keyword: String,
    pub type_spec: String,
    pub attributes: Vec<String>,
    pub visibility: Option<Visibility>,
}

impl DeepView for DeclarationLhs {
    type V = sd::DeclarationLhs;

    open spec fn deep_view(&self) -> sd::DeclarationLhs {
        sd::DeclarationLhs {
            type_keyword: self.type_keyword@,
            type_spec: self.type_spec@,
            attributes: self.attributes.deep_view(),
            visibility: self.visibility,
        }
    }
}

impl DeclarationLhs {
    /// Takes in one more attribute.
    fn add_attribute(&mut self, attr: &[char])
        ensures
            final(self).deep_view() == sd::add_attribute(old(self).deep_view(), attr@),
    {
        if same_word(attr, "public") {
            self.visibility = Some(Visibility::Public);
        } else if same_word(attr, "private") {
            self.visibility = Some(Visibility::Private);
        }
        put(&mut self.attributes, text(attr));
    }

    /// Whether the declaration has an attribute.
    pub fn has_attribute(&self, name: &str) -> (r: bool)
        ensures
            r == st::has_name(self.attributes.deep_view(), name@),
    {
        has_name(self.attributes.as_slice(), name)
    }

    /// The argument that the attribute `pass` names.
    pub fn pass_arg(&self) -> (r: Option<String>)
        ensures
            r.deep_view() == sd::pass_arg_from(self.attributes.deep_view(), 0),
    {
        let mut i: usize = 0;
        while i < self.attributes.len()
            invariant
                i <= self.attributes@.len(),
                sd::pass_arg_from(self.attributes.deep_view(), 0) == sd::pass_arg_from(
                    self.attributes.deep_view(),
                    i as int,
                ),
            decreases self.attributes@.len() - i,
        {
            let attr = chars(self.attributes[i].as_str());
            let low = lower(attr.as_slice());
            if starts_with_word(low.as_slice(), "pass") {
                return match paren_content(attr.as_slice()) {
                    Some(value) => ident_text(value),
                    None => None,
                };
            }
            i = i + 1;
        }
        None
    }
}

/// The type and the attributes before the names of a declaration.
pub fn parse_declaration_lhs(lhs: &[char]) -> (r: Option<DeclarationLhs>)
    ensures
        r.deep_view() == sd::parse_declaration_lhs(lhs@),
{
    let parts = split_top_level_commas(lhs);
    let head = chars(parts[0].as_str());
    let first = trim(head.as_slice());
    let keyword = match first_ident(first) {
        Some(keyword) => keyword,
        None => {
            return None;
        },
    };
    let mut d = DeclarationLhs {
        type_keyword: text(lower(keyword).as_slice()),
        type_spec: text(first),
        attributes: empty(),
        visibility: None,
    };
    let ghost all = parts.deep_view();
    let mut i: usize = 1;
    while i < parts.len()
        invariant
            1 <= i <= parts@.len(),
            all == parts.deep_view(),
            sd::parse_declaration_lhs(lhs@) == Some(
                sd::attributes_from(all, i as int, d.deep_view()),
            ),
        decreases parts@.len() - i,
    {
        let part = chars(parts[i].as_str());
        let attr = trim(part.as_slice());
        if attr.len() > 0 {
            d.add_attribute(attr);
        }
        i = i + 1;
    }
    Some(d)
}

/// The attributes of a name: those of the declaration, and `dimension` for a
/// name with a shape of its own.
fn declaration_attributes(d: &DeclarationLhs, item: &DeclItem) -> (r: Vec<String>)
    ensures
        r.deep_view() == sd::declaration_attributes(d.deep_view(), item.deep_view()),
{
    let mut attributes = copy_texts(&d.attributes);
    if item.has_shape && !d.has_attribute("dimension") {
        put(&mut attributes, owned("dimension"));
    }
    attributes
}

// ---------------------------------------------------------------------------
// Declarations of variables
// ---------------------------------------------------------------------------

/// Whether a word starts a declaration without colons.
fn is_legacy_type(word: &[char]) -> (r: bool)
    ensures
        r == sd::is_legacy_type(word@),
{
    same_word(word, "integer") || same_word(word, "real") || same_word(word, "double")
        || same_word(word, "complex") || same_word(word, "character") || same_word(word, "logical")
        || same_word(word, "type") || same_word(word, "class")
}

/// What follows the words of the type in a declaration without colons.
fn after_type_words<'a>(t: &'a [char], keyword: &[char]) -> (r: Option<&'a [char]>)
    ensures
        st::slice(r) == sd::after_type_words(t@, keyword@),
        r matches Some(tail) ==> tail@.len() <= t@.len(),
{
    proof {
        st::lemma_index_of_byte(t@, st::bytes(keyword@) as nat, 0);
    }
    match get_bytes(t, byte_len(keyword)) {
        Some(after) => {
            if same_word(keyword, "double") {
                let rest = trim_start(after);
                proof {
                    st::lemma_trim_len(after@);
                }
                match first_ident(rest) {
                    Some(word) => if same_word(word, "precision") {
                        proof {
                            st::lemma_index_of_byte(rest@, st::bytes(word@) as nat, 0);
                        }
                        get_bytes(rest, byte_len(word))
                    } else {
                        Some(after)
                    },
                    None => Some(after),
                }
            } else {
                Some(after)
            }
        },
        None => None,
    }
}

/// What follows the kind in parentheses, where a declaration without colons
/// has one.
fn after_type_kind<'a>(after: &'a [char]) -> (r: Option<&'a [char]>)
    ensures
        st::slice(r) == sd::after_type_kind(after@),
        r matches Some(tail) ==> tail@.len() <= after@.len(),
{
    let rest = trim_start(after);
    proof {
        st::lemma_trim_len(after@);
    }
    if starts_with_char(rest, '(') {
        match matching_paren_end(rest) {
            Some(close) => Some(skip(rest, close)),
            None => None,
        }
    } else {
        Some(after)
    }
}

/// The type and the names of a declaration without colons.
pub fn split_legacy_declaration<'a>(code: &'a [char]) -> (r: Option<(&'a [char], &'a [char])>)
    ensures
        st::pair(r) == sd::split_legacy_declaration(code@),
{
    let t = trim_start(code);
    proof {
        st::lemma_trim_len(code@);
    }
    let keyword = match first_ident(t) {
        Some(keyword) => keyword,
        None => {
            return None;
        },
    };
    if !is_legacy_type(keyword) {
        return None;
    }
    match after_type_words(t, keyword) {
        Some(after) => {
            let rest = trim_start(after);
            if (same_word(keyword, "type") || same_word(keyword, "class")) && (first_ident_is(
                rest,
                "is",
            ) || first_ident_is(rest, "default")) {
                return None;
            }
            match after_type_kind(after) {
                Some(tail) => {
                    let rhs = trim_start(tail);
                    if rhs.len() == 0 || starts_with_char(rhs, ',') {
                        None
                    } else {
                        Some((take(code, code.len() - tail.len()), rhs))
                    }
                },
                None => None,
            }
        },
        None => None,
    }
}

/// Whether a word starts a declaration of variables.
pub fn is_declaration_keyword(word: &str) -> (r: bool)
    ensures
        r == sd::is_declaration_keyword(word@),
{
    let w = chars(word);
    let s = w.as_slice();
    is_word(s, "integer") || is_word(s, "real") || is_word(s, "double") || is_word(
        s,
        "doubleprecision",
    ) || is_word(s, "complex") || is_word(s, "character") || is_word(s, "logical") || is_word(
        s,
        "type",
    ) || is_word(s, "class") || is_word(s, "procedure") || is_word(s, "external")
}

/// The symbol of one declared name.
fn declared_symbol(
    code: &[char],
    line: usize,
    file: &str,
    scope: &Vec<String>,
    in_type_binding_part: bool,
    lhs: &[char],
    d: &DeclarationLhs,
    item: &DeclItem,
) -> (r: Symbol)
    ensures
        r.deep_view() == sd::declared_symbol(
            code@,
            line,
            file@,
            scope.deep_view(),
            in_type_binding_part,
            lhs@,
            d.deep_view(),
            item.deep_view(),
        ),
{
    let name = chars(item.name.as_str());
    let range = span(line, column_of(code, name.as_slice()), byte_len(name.as_slice()));
    let keyword = chars(d.type_keyword.as_str());
    let kind = if is_word(keyword.as_slice(), "procedure") && in_type_binding_part {
        SymbolKind::Method
    } else {
        SymbolKind::Variable
    };
    let mut signature = text(trim(lhs));
    push_text(&mut signature, " :: ");
    push_text(&mut signature, item.name.as_str());
    let mut symbol = Symbol::bare(item.name.clone(), kind, file, range, range, scope, signature);
    symbol.visibility = match d.visibility {
        Some(visibility) => visibility,
        None => Visibility::Default,
    };
    symbol.type_spec = Some(d.type_spec.clone());
    symbol.attributes = declaration_attributes(d, item);
    symbol.is_parameter = d.has_attribute("parameter");
    symbol.is_external = d.has_attribute("external") || is_word(keyword.as_slice(), "external");
    symbol.binding_target = copy_option(&item.binding_target);
    symbol.pass_arg = d.pass_arg();
    symbol.is_deferred = d.has_attribute("deferred");
    symbol
}

/// The symbols that a declaration of variables or of type-bound procedures
/// makes.
pub fn parse_variables(
    code: &[char],
    line: usize,
    file: &str,
    scope: &Vec<String>,
    in_type_binding_part: bool,
) -> (r: Option<Vec<Symbol>>)
    ensures
        r.deep_view() == sd::parse_variables(
            code@,
            line,
            file@,
            scope.deep_view(),
            in_type_binding_part,
        ),
{
    let sides = match split_once(code, "::") {
        Some(sides) => Some(sides),
        None => split_legacy_declaration(code),
    };
    let (lhs, rhs): (&[char], &[char]) = match sides {
        Some((lhs, rhs)) => (lhs, rhs),
        None => {
            return None;
        },
    };
    let d = match parse_declaration_lhs(trim(lhs)) {
        Some(d) => d,
        None => {
            return None;
        },
    };
    if !is_declaration_keyword(d.type_keyword.as_str()) {
        return None;
    }
    let items = parse_decl_items(rhs);
    let mut out: Vec<Symbol> = empty();
    let ghost wanted = sd::parse_variables(
        code@,
        line,
        file@,
        scope.deep_view(),
        in_type_binding_part,
    );
    let mut i: usize = 0;
    while i < items.len()
        invariant
            i <= items@.len(),
            wanted == Some(
                sd::declared_from(
                    code@,
                    line,
                    file@,
                    scope.deep_view(),
                    in_type_binding_part,
                    lhs@,
                    d.deep_view(),
                    items.deep_view(),
                    i as int,
                    out.deep_view(),
                ),
            ),
        decreases items@.len() - i,
    {
        let symbol = declared_symbol(
            code,
            line,
            file,
            scope,
            in_type_binding_part,
            lhs,
            &d,
            &items[i],
        );
        put(&mut out, symbol);
        i = i + 1;
    }
    Some(out)
}

// ---------------------------------------------------------------------------
// Legacy storage statements
// ---------------------------------------------------------------------------

/// A symbol with a name, a place and a signature.
pub fn legacy_symbol(
    name: &str,
    kind: SymbolKind,
    code: &[char],
    line: usize,
    file: &str,
    scope: &Vec<String>,
    signature: String,
) -> (r: Symbol)
    ensures
        r.deep_view() == sd::legacy_symbol(
            name@,
            kind,
            code@,
            line,
            file@,
            scope.deep_view(),
            signature@,
        ),
{
    let wanted = chars(name);
    let range = span(line, column_of(code, wanted.as_slice()), byte_len(wanted.as_slice()));
    Symbol::bare(owned(name), kind, file, range, range, scope, signature)
}

/// A list of symbols; none where it is empty.
fn some_symbols(symbols: Vec<Symbol>) -> (r: Option<Vec<Symbol>>)
    ensures
        r.deep_view() == sd::some_symbols(symbols.deep_view()),
{
    assert(symbols.deep_view().len() == symbols@.len());
    if symbols.len() == 0 {
        None
    } else {
        Some(symbols)
    }
}

/// Adds the variables of a list, each with the signature `prefix :: name`.
fn add_listed(
    code: &[char],
    line: usize,
    file: &str,
    scope: &Vec<String>,
    prefix: &str,
    list: &[char],
    out: &mut Vec<Symbol>,
)
    ensures
        final(out).deep_view() == sd::listed_from(
            code@,
            line,
            file@,
            scope.deep_view(),
            prefix@,
            sd::parse_decl_items(list@),
            0,
            old(out).deep_view(),
        ),
{
    let items = parse_decl_items(list);
    let ghost wanted = sd::listed_from(
        code@,
        line,
        file@,
        scope.deep_view(),
        prefix@,
        items.deep_view(),
        0,
        out.deep_view(),
    );
    let mut i: usize = 0;
    while i < items.len()
        invariant
            i <= items@.len(),
            wanted == sd::listed_from(
                code@,
                line,
                file@,
                scope.deep_view(),
                prefix@,
                items.deep_view(),
                i as int,
                out.deep_view(),
            ),
        decreases items@.len() - i,
    {
        let name = items[i].name.as_str();
        let mut signature = owned(prefix);
        push_text(&mut signature, " :: ");
        push_text(&mut signature, name);
        put(
            out,
            legacy_symbol(name, SymbolKind::Variable, code, line, file, scope, signature),
        );
        i = i + 1;
    }
}

/// `keyword /name/`.
fn block_signature(keyword: &str, name: &str) -> (r: String)
    ensures
        r@ == keyword@ + " /"@ + name@ + "/"@,
{
    let mut signature = owned(keyword);
    push_text(&mut signature, " /");
    push_text(&mut signature, name);
    push_text(&mut signature, "/");
    signature
}

/// The name of a block between slashes, unless it is empty.
fn block_name<'a>(block: &'a Option<String>) -> (r: Option<&'a str>)
    ensures
        match r {
            Some(name) => sd::block_name(block.deep_view()) == Some(name@),
            None => sd::block_name(block.deep_view()) is None,
        },
{
    match block {
        Some(name) => {
            let n = chars(name.as_str());
            if n.len() == 0 {
                None
            } else {
                Some(name.as_str())
            }
        },
        None => None,
    }
}

/// Adds the symbol of a named block.
fn add_block(
    code: &[char],
    line: usize,
    file: &str,
    scope: &Vec<String>,
    keyword: &str,
    block: &Option<String>,
    out: &mut Vec<Symbol>,
)
    ensures
        final(out).deep_view() == sd::add_block(
            code@,
            line,
            file@,
            scope.deep_view(),
            keyword@,
            block.deep_view(),
            old(out).deep_view(),
        ),
{
    match block_name(block) {
        Some(name) => {
            let signature = block_signature(keyword, name);
            put(
                out,
                legacy_symbol(name, SymbolKind::Variable, code, line, file, scope, signature),
            );
        },
        None => {
        },
    }
}

/// What the signature of a member of a common block starts with.
fn common_prefix(block: &Option<String>) -> (r: String)
    ensures
        r@ == sd::common_prefix(block.deep_view()),
{
    match block_name(block) {
        Some(name) => block_signature("common", name),
        None => owned("common"),
    }
}

/// `common [/block/] names [/block/ names]`.
pub fn parse_common(code: &[char], line: usize, file: &str, scope: &Vec<String>) -> (r: Option<
    Vec<Symbol>,
>)
    ensures
        r.deep_view() == sd::parse_common(code@, line, file@, scope.deep_view()),
{
    let rest = match after_keyword(code, "common") {
        Some(rest) => rest,
        None => {
            return None;
        },
    };
    let groups = split_slash_delimited_groups(rest);
    let mut out: Vec<Symbol> = empty();
    let ghost wanted = sd::parse_common(code@, line, file@, scope.deep_view());
    let mut i: usize = 0;
    while i < groups.len()
        invariant
            i <= groups@.len(),
            wanted == sd::some_symbols(
                sd::common_from(
                    code@,
                    line,
                    file@,
                    scope.deep_view(),
                    groups.deep_view(),
                    i as int,
                    out.deep_view(),
                ),
            ),
        decreases groups@.len() - i,
    {
        add_block(code, line, file, scope, "common", &groups[i].0, &mut out);
        let prefix = common_prefix(&groups[i].0);
        let items = chars(groups[i].1.as_str());
        add_listed(code, line, file, scope, prefix.as_str(), items.as_slice(), &mut out);
        i = i + 1;
    }
    some_symbols(out)
}

/// `equivalence (names), (names)`.
pub fn parse_equivalence(code: &[char], line: usize, file: &str, scope: &Vec<String>) -> (r: Option<
    Vec<Symbol>,
>)
    ensures
        r.deep_view() == sd::parse_equivalence(code@, line, file@, scope.deep_view()),
{
    let rest = match after_keyword(code, "equivalence") {
        Some(rest) => rest,
        None => {
            return None;
        },
    };
    let groups = parenthesized_groups(rest);
    let mut out: Vec<Symbol> = empty();
    let ghost wanted = sd::parse_equivalence(code@, line, file@, scope.deep_view());
    let mut i: usize = 0;
    while i < groups.len()
        invariant
            i <= groups@.len(),
            wanted == sd::some_symbols(
                sd::equivalence_from(
                    code@,
                    line,
                    file@,
                    scope.deep_view(),
                    groups.deep_view(),
                    i as int,
                    out.deep_view(),
                ),
            ),
        decreases groups@.len() - i,
    {
        let items = chars(groups[i].as_str());
        add_listed(code, line, file, scope, "equivalence", items.as_slice(), &mut out);
        i = i + 1;
    }
    some_symbols(out)
}

/// `namelist /group/ names [/group/ names]`.
pub fn parse_namelist(code: &[char], line: usize, file: &str, scope: &Vec<String>) -> (r: Option<
    Vec<Symbol>,
>)
    ensures
        r.deep_view() == sd::parse_namelist(code@, line, file@, scope.deep_view()),
{
    let rest = match after_keyword(code, "namelist") {
        Some(rest) => rest,
        None => {
            return None;
        },
    };
    let groups = split_slash_delimited_groups(rest);
    let mut out: Vec<Symbol> = empty();
    let ghost wanted = sd::parse_namelist(code@, line, file@, scope.deep_view());
    let mut i: usize = 0;
    while i < groups.len()
        invariant
            i <= groups@.len(),
            wanted == sd::some_symbols(
                sd::namelist_from(
                    code@,
                    line,
                    file@,
                    scope.deep_view(),
                    groups.deep_view(),
                    i as int,
                    out.deep_view(),
                ),
            ),
        decreases groups@.len() - i,
    {
        add_block(code, line, file, scope, "namelist", &groups[i].0, &mut out);
        i = i + 1;
    }
    some_symbols(out)
}

// ---------------------------------------------------------------------------
// Enumerators and prototypes
// ---------------------------------------------------------------------------

/// The constant that an item of an `enumerator` statement declares.
fn enumerator_symbol(
    code: &[char],
    line: usize,
    file: &str,
    scope: &Vec<String>,
    item: &DeclItem,
) -> (r: Symbol)
    ensures
        r.deep_view() == sd::enumerator_symbol(
            code@,
            line,
            file@,
            scope.deep_view(),
            item.deep_view(),
        ),
{
    let mut signature = owned("enumerator :: ");
    push_text(&mut signature, item.name.as_str());
    let mut symbol = legacy_symbol(
        item.name.as_str(),
        SymbolKind::Variable,
        code,
        line,
        file,
        scope,
        signature,
    );
    symbol.type_spec = Some(owned("integer"));
    let mut attributes: Vec<String> = empty();
    put(&mut attributes, owned("parameter"));
    assert(attributes.deep_view() =~= seq!["parameter"@]);
    symbol.attributes = attributes;
    symbol.is_parameter = true;
    symbol
}

/// `enumerator [::] names`.
pub fn parse_enumerators(code: &[char], line: usize, file: &str, scope: &Vec<String>) -> (r: Vec<
    Symbol,
>)
    ensures
        r.deep_view() == sd::parse_enumerators(code@, line, file@, scope.deep_view()),
{
    let rest = match after_keyword(code, "enumerator") {
        Some(rest) => rest,
        None => {
            return empty();
        },
    };
    let rhs: &[char] = match split_once(rest, "::") {
        Some((_, rhs)) => rhs,
        None => rest,
    };
    let items = parse_decl_items(trim(rhs));
    let mut out: Vec<Symbol> = empty();
    let ghost wanted = sd::parse_enumerators(code@, line, file@, scope.deep_view());
    let mut i: usize = 0;
    while i < items.len()
        invariant
            i <= items@.len(),
            wanted == sd::enumerators_from(
                code@,
                line,
                file@,
                scope.deep_view(),
                items.deep_view(),
                i as int,
                out.deep_view(),
            ),
        decreases items@.len() - i,
    {
        put(&mut out, enumerator_symbol(code, line, file, scope, &items[i]));
        i = i + 1;
    }
    out
}

/// The symbol of a procedure that an interface takes from its module.
fn prototype_symbol(
    code: &[char],
    line: usize,
    file: &str,
    scope: &Vec<String>,
    name: &str,
) -> (r: Symbol)
    ensures
        r.deep_view() == sd::prototype_symbol(code@, line, file@, scope.deep_view(), name@),
{
    let wanted = chars(name);
    let mut signature = owned("module procedure ");
    push_text(&mut signature, name);
    Symbol::bare(
        owned(name),
        SymbolKind::Subroutine,
        file,
        Range::on_line(line, 0, utf16_len(code)),
        span(line, utf16_column_of(code, wanted.as_slice()), utf16_len(wanted.as_slice())),
        scope,
        signature,
    )
}

/// `module procedure names` in an interface.
pub fn parse_module_procedure_prototypes(
    code: &[char],
    line: usize,
    file: &str,
    scope: &Vec<String>,
) -> (r: Vec<Symbol>)
    ensures
        r.deep_view() == sd::parse_module_procedure_prototypes(
            code@,
            line,
            file@,
            scope.deep_view(),
        ),
{
    let rest = match after_keywords(code, "module", "procedure") {
        Some(rest) => rest,
        None => {
            return empty();
        },
    };
    let names = split_names(rest);
    let mut out: Vec<Symbol> = empty();
    let ghost wanted = sd::parse_module_procedure_prototypes(
        code@,
        line,
        file@,
        scope.deep_view(),
    );
    let mut i: usize = 0;
    while i < names.len()
        invariant
            i <= names@.len(),
            wanted == sd::prototypes_from(
                code@,
                line,
                file@,
                scope.deep_view(),
                names.deep_view(),
                i as int,
                out.deep_view(),
            ),
        decreases names@.len() - i,
    {
        put(&mut out, prototype_symbol(code, line, file, scope, names[i].as_str()));
        i = i + 1;
    }
    out
}

// ---------------------------------------------------------------------------
// Statement functions
// ---------------------------------------------------------------------------

/// Whether each of the parts is a plain name.
fn all_plain(parts: &Vec<String>) -> (r: bool)
    ensures
        r == sd::all_plain(parts.deep_view()),
{
    let ghost all = parts.deep_view();
    let mut i: usize = 0;
    while i < parts.len()
        invariant
            i <= parts@.len(),
            all == parts.deep_view(),
            forall|k: int| 0 <= k < i ==> st::is_fortran_name(st::trim(#[trigger] all[k])),
        decreases parts@.len() - i,
    {
        let part = chars(parts[i].as_str());
        assert(part@ == all[i as int]);
        if !is_fortran_name(trim(part.as_slice())) {
            return false;
        }
        i = i + 1;
    }
    true
}

/// The name and the arguments of a statement function `[label] name(args) = ..`.
pub fn parse_statement_function_lhs(code: &[char]) -> (r: Option<(String, Vec<String>)>)
    ensures
        r.deep_view() == sd::parse_statement_function_lhs(code@),
{
    proof {
        reveal_strlit("=");
    }
    let side = match split_top_level_once(code, "=") {
        Some((side, _)) => side,
        None => {
            return None;
        },
    };
    let side_chars = chars(side.as_str());
    let lhs = trim(side_chars.as_slice());
    let n: usize = lhs.len();
    let (i, name): (usize, &[char]) = match next_name(lhs) {
        Some((i, name)) => (i, name),
        None => {
            return None;
        },
    };
    proof {
        st::lemma_next_name(lhs@);
    }
    let rest = trim_start(skip(lhs, i + name.len()));
    if !all_digits(trim(take(lhs, i))) || !starts_with_char(rest, '(') {
        return None;
    }
    let m: usize = rest.len();
    match matching_paren_index(rest, 0) {
        Some(close) => {
            let inner = slice_subrange(rest, 1, close);
            if is_blank(skip(rest, close + 1)) && (is_blank(inner) || all_plain(
                &split_top_level_commas(inner),
            )) {
                Some((text(name), split_names(inner)))
            } else {
                None
            }
        },
        None => None,
    }
}

// ---------------------------------------------------------------------------
// Classes of symbols
// ---------------------------------------------------------------------------

/// Whether an attribute of a symbol gives the intent of an argument.
pub fn has_intent_attribute(s: &Symbol) -> (r: bool)
    ensures
        r == sd::has_intent_attribute(s.deep_view()),
{
    let ghost all = s.deep_view().attributes;
    let mut i: usize = 0;
    while i < s.attributes.len()
        invariant
            i <= s.attributes@.len(),
            all == s.deep_view().attributes,
            forall|k: int|
                0 <= k < i ==> !st::starts_with(st::lower(#[trigger] all[k]), "intent"@),
        decreases s.attributes@.len() - i,
    {
        let attr = chars(s.attributes[i].as_str());
        assert(attr@ == all[i as int]);
        let low = lower(attr.as_slice());
        if starts_with_word(low.as_slice(), "intent") {
            return true;
        }
        i = i + 1;
    }
    false
}

/// Whether a symbol takes over a procedure of a module.
pub fn is_module_procedure_link_symbol(s: &Symbol) -> (r: bool)
    ensures
        r == sd::is_module_procedure_link_symbol(s.deep_view()),
{
    let signature = chars(s.signature.as_str());
    let word = chars("module procedure");
    s.kind.is_procedure() && signature.len() >= word.len() && same(
        take(signature.as_slice(), word.len()),
        word.as_slice(),
    )
}

} // verus!
