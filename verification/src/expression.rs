//! The expressions of preprocessor conditionals.

use vstd::prelude::*;
use vstd::slice::slice_subrange;

use crate::list::{empty, put};
use crate::spec::expression as se;
use crate::spec::text as st;
use crate::table::Table;
use crate::text::{
    chars, copy_texts, is_blank, is_digit, is_ident, is_name_start, is_space, is_word, name_end, skip,
    starts_with_char, strip_prefix, take, text, trim, without_char,
};

verus! {

/// An operator of an expression.
#[derive(Debug, Clone, Copy, PartialEq, Eq, Structural)]
pub enum Operator {
    LogicalOr,
    LogicalAnd,
    Or,
    Xor,
    And,
    Equal,
    NotEqual,
    Less,
    Greater,
    LessOrEqual,
    GreaterOrEqual,
    ShiftLeft,
    ShiftRight,
    Add,
    Subtract,
    Multiply,
    Divide,
    Remainder,
    Not,
    Complement,
}

/// A part of an expression in which no names are left.
#[derive(Debug, Clone, Copy, PartialEq, Eq, Structural)]
pub enum Part {
    Number(i64),
    Operator(Operator),
    Open,
    Close,
    Comma,
    Unknown,
}

/// A token of an expression: a name, or a part that has its meaning already.
#[derive(Debug, PartialEq, Eq)]
pub enum Token {
    Name(String),
    Part(Part),
}

impl DeepView for Token {
    type V = se::Token;

    open spec fn deep_view(&self) -> se::Token {
        match self {
            Token::Name(name) => se::Token::Name(name@),
            Token::Part(part) => se::Token::Part(*part),
        }
    }
}

// ---------------------------------------------------------------------------
// Integers
// ---------------------------------------------------------------------------

/// The value of a digit; at least 36 for what is no digit.
pub fn digit_value(c: char) -> (r: u64)
    ensures
        r == se::digit_value(c),
        r <= 36,
{
    if '0' <= c && c <= '9' {
        c as u64 - '0' as u64
    } else if 'a' <= c && c <= 'z' {
        c as u64 - 'a' as u64 + 10
    } else if 'A' <= c && c <= 'Z' {
        c as u64 - 'A' as u64 + 10
    } else {
        36
    }
}

/// The number that a text of digits makes, unless it is more than two to the
/// power of 63.
fn magnitude(s: &[char], radix: u64) -> (r: Option<u64>)
    requires
        2 <= radix <= 16,
    ensures
        match r {
            Some(n) => se::digits(s@, radix as int) == Some(n as int) && n <= 0x8000_0000_0000_0000,
            None => match se::digits(s@, radix as int) {
                Some(n) => n > 0x8000_0000_0000_0000,
                None => true,
            },
        },
{
    if s.len() == 0 {
        return None;
    }
    let mut value: u64 = 0;
    let mut i: usize = 0;
    while i < s.len()
        invariant
            i <= s@.len(),
            s@.len() > 0,
            2 <= radix <= 16,
            value <= 0x8000_0000_0000_0000,
            se::digits(s@, radix as int) == se::digits_from(
                s@,
                radix as int,
                i as int,
                value as int,
            ),
        decreases s@.len() - i,
    {
        let d: u64 = digit_value(s[i]);
        if d >= radix {
            return None;
        }
        assert(value * radix <= 0x8000_0000_0000_0000 * 16) by (nonlinear_arith)
            requires
                value <= 0x8000_0000_0000_0000,
                radix <= 16,
        ;
        let next: u128 = value as u128 * radix as u128 + d as u128;
        if next > 0x8000_0000_0000_0000 {
            proof {
                se::lemma_digits_grow(s@, radix as int, i + 1, next as int);
            }
            return None;
        }
        value = next as u64;
        i = i + 1;
    }
    Some(value)
}

/// A number with an optional sign, where it fits.
fn signed(s: &[char], radix: u64) -> (r: Option<i64>)
    requires
        2 <= radix <= 16,
    ensures
        r == se::signed(s@, radix as int),
{
    if starts_with_char(s, '-') {
        match magnitude(skip(s, 1), radix) {
            Some(n) => if n == 0x8000_0000_0000_0000 {
                Some(i64::MIN)
            } else {
                Some(-(n as i64))
            },
            None => None,
        }
    } else {
        let t: &[char] = if starts_with_char(s, '+') {
            skip(s, 1)
        } else {
            s
        };
        match magnitude(t, radix) {
            Some(n) => if n == 0x8000_0000_0000_0000 {
                None
            } else {
                Some(n as i64)
            },
            None => None,
        }
    }
}

/// The character that a letter behind a backslash stands for.
fn escaped(c: char) -> (r: char)
    ensures
        r == se::escaped(c),
{
    if c == '0' {
        '\u{0}'
    } else if c == 'n' {
        '\n'
    } else if c == 'r' {
        '\r'
    } else if c == 't' {
        '\t'
    } else {
        c
    }
}

/// The value of a character between quotes.
fn char_literal(s: &[char]) -> (r: Option<i64>)
    ensures
        r == se::char_literal(s@),
{
    if s.len() >= 2 && s[0] == '\'' && s[s.len() - 1] == '\'' {
        let inner = slice_subrange(s, 1, s.len() - 1);
        if inner.len() == 1 && inner[0] != '\\' {
            Some(inner[0] as i64)
        } else if inner.len() == 2 && inner[0] == '\\' {
            Some(escaped(inner[1]) as i64)
        } else {
            None
        }
    } else {
        None
    }
}

/// A number without the letters that give its type.
fn without_suffix<'a>(s: &'a [char]) -> (r: &'a [char])
    ensures
        r@ == s@.take(se::before_suffix(s@, s@.len() as int)),
{
    let mut j: usize = s.len();
    while j > 0 && (s[j - 1] == 'u' || s[j - 1] == 'U' || s[j - 1] == 'l' || s[j - 1] == 'L')
        invariant
            j <= s@.len(),
            se::before_suffix(s@, s@.len() as int) == se::before_suffix(s@, j as int),
        decreases j,
    {
        j = j - 1;
    }
    take(s, j)
}

/// A number in decimal, octal, hexadecimal or binary.
fn number(s: &[char]) -> (r: Option<i64>)
    ensures
        r == se::number(s@),
{
    if let Some(rest) = strip_prefix(s, "0x") {
        signed(rest, 16)
    } else if let Some(rest) = strip_prefix(s, "0X") {
        signed(rest, 16)
    } else if let Some(rest) = strip_prefix(s, "0b") {
        signed(rest, 2)
    } else if let Some(rest) = strip_prefix(s, "0B") {
        signed(rest, 2)
    } else if s.len() > 1 && s[0] == '0' {
        signed(skip(s, 1), 8)
    } else {
        signed(s, 10)
    }
}

/// The value of a number or a character.
pub fn parse_preprocessor_integer(expr: &[char]) -> (r: Option<i64>)
    ensures
        r == se::parse_preprocessor_integer(expr@),
{
    let t = trim(expr);
    match char_literal(t) {
        Some(value) => Some(value),
        None => {
            let digits = without_char(without_suffix(t), '\'');
            number(digits.as_slice())
        },
    }
}

// ---------------------------------------------------------------------------
// Tokens
// ---------------------------------------------------------------------------

/// The value of a number or a character; what is neither is 0.
fn literal(s: &[char]) -> (r: i64)
    ensures
        r == se::literal(s@),
{
    match parse_preprocessor_integer(s) {
        Some(value) => value,
        None => 0,
    }
}

/// The index behind a number whose characters go on at `i`.
fn number_end(s: &[char], i: usize) -> (r: usize)
    requires
        i <= s@.len(),
    ensures
        r == se::number_end(s@, i as int),
        i <= r <= s@.len(),
{
    let mut j: usize = i;
    while j < s.len() && (is_ident(s[j]) || (s[j] == '\'' && s.len() - j > 1 && is_ident(s[j + 1])))
        invariant
            i <= j <= s@.len(),
            se::number_end(s@, i as int) == se::number_end(s@, j as int),
        decreases s@.len() - j,
    {
        j = j + 1;
    }
    j
}

/// The index behind the comment whose text goes on at `i`.
fn comment_end(s: &[char], i: usize) -> (r: usize)
    requires
        i <= s@.len(),
    ensures
        r == se::comment_end(s@, i as int),
        i <= r <= s@.len(),
{
    let mut j: usize = i;
    while s.len() - j > 1
        invariant
            i <= j <= s@.len(),
            se::comment_end(s@, i as int) == se::comment_end(s@, j as int),
        decreases s@.len() - j,
    {
        if s[j] == '*' && s[j + 1] == '/' {
            return j + 2;
        }
        j = j + 1;
    }
    s.len()
}

/// The operator of two characters.
fn long_operator(a: char, b: char) -> (r: Option<Operator>)
    ensures
        r == se::long_operator(a, b),
{
    if a == '|' && b == '|' {
        Some(Operator::LogicalOr)
    } else if a == '&' && b == '&' {
        Some(Operator::LogicalAnd)
    } else if a == '=' && b == '=' {
        Some(Operator::Equal)
    } else if a == '!' && b == '=' {
        Some(Operator::NotEqual)
    } else if a == '<' && b == '=' {
        Some(Operator::LessOrEqual)
    } else if a == '>' && b == '=' {
        Some(Operator::GreaterOrEqual)
    } else if a == '<' && b == '<' {
        Some(Operator::ShiftLeft)
    } else if a == '>' && b == '>' {
        Some(Operator::ShiftRight)
    } else {
        None
    }
}

/// The part that a single character stands for.
fn short_part(c: char) -> (r: Part)
    ensures
        r == se::short_part(c),
{
    match c {
        '(' => Part::Open,
        ')' => Part::Close,
        '|' => Part::Operator(Operator::Or),
        '^' => Part::Operator(Operator::Xor),
        '&' => Part::Operator(Operator::And),
        '<' => Part::Operator(Operator::Less),
        '>' => Part::Operator(Operator::Greater),
        '+' => Part::Operator(Operator::Add),
        '-' => Part::Operator(Operator::Subtract),
        '*' => Part::Operator(Operator::Multiply),
        '/' => Part::Operator(Operator::Divide),
        '%' => Part::Operator(Operator::Remainder),
        '!' => Part::Operator(Operator::Not),
        '~' => Part::Operator(Operator::Complement),
        ',' => Part::Comma,
        _ => Part::Unknown,
    }
}

/// The index behind the character between quotes that starts at `i`, where
/// there is one.
fn quoted_end(s: &[char], i: usize) -> (r: Option<usize>)
    requires
        i < s@.len(),
    ensures
        r matches Some(end) ==> se::quoted_end(s@, i as int) == Some(end as int) && end <= s@.len(),
        r is None ==> se::quoted_end(s@, i as int) is None,
{
    let left: usize = s.len() - i;
    if left > 3 && s[i + 1] == '\\' && s[i + 3] == '\'' {
        Some(i + 4)
    } else if left > 2 && s[i + 1] != '\\' && s[i + 2] == '\'' {
        Some(i + 3)
    } else {
        None
    }
}

/// The token that starts at `i`, and the index behind it.
fn token_at(s: &[char], i: usize) -> (r: (Token, usize))
    requires
        i < s@.len(),
    ensures
        r.0.deep_view() == se::token_at(s@, i as int).0,
        r.1 == se::token_at(s@, i as int).1,
        i < r.1 <= s@.len(),
{
    if is_name_start(s[i]) {
        let end: usize = name_end(s, i + 1);
        return (Token::Name(text(slice_subrange(s, i, end))), end);
    }
    if is_digit(s[i]) {
        let end: usize = number_end(s, i + 1);
        return (Token::Part(Part::Number(literal(slice_subrange(s, i, end)))), end);
    }
    if s[i] == '\'' {
        if let Some(end) = quoted_end(s, i) {
            return (Token::Part(Part::Number(literal(slice_subrange(s, i, end)))), end);
        }
    }
    if s.len() - i > 1 {
        if let Some(op) = long_operator(s[i], s[i + 1]) {
            return (Token::Part(Part::Operator(op)), i + 2);
        }
    }
    (Token::Part(short_part(s[i])), i + 1)
}

/// The tokens of a text.
fn tokens(s: &[char]) -> (r: Vec<Token>)
    ensures
        r.deep_view() == se::tokens(s@),
{
    let mut out: Vec<Token> = empty();
    let mut i: usize = 0;
    while i < s.len()
        invariant
            i <= s@.len(),
            se::tokens(s@) == se::tokens_from(s@, i as int, out.deep_view()),
        decreases s@.len() - i,
    {
        if is_space(s[i]) {
            i = i + 1;
        } else if s.len() - i > 1 && s[i] == '/' && s[i + 1] == '*' {
            i = comment_end(s, i + 2);
        } else {
            let (token, end) = token_at(s, i);
            put(&mut out, token);
            i = end;
        }
    }
    out
}

// ---------------------------------------------------------------------------
// Names
// ---------------------------------------------------------------------------

/// The name that the `defined` at `i` asks for, and the index behind it.
fn defined_at<'a>(ts: &'a Vec<Token>, i: usize) -> (r: Option<(&'a String, usize)>)
    requires
        i < ts@.len(),
    ensures
        match r {
            Some((name, end)) => se::defined_at(ts.deep_view(), i as int) == Some(
                (name@, end as int),
            ) && i < end <= ts@.len(),
            None => se::defined_at(ts.deep_view(), i as int) is None,
        },
{
    let ghost all = ts.deep_view();
    let left: usize = ts.len() - i;
    if left > 1 {
        assert(all[i + 1] == ts@[i + 1].deep_view());
        if let Token::Name(name) = &ts[i + 1] {
            return Some((name, i + 2));
        }
    }
    if left > 3 {
        assert(all[i + 2] == ts@[i + 2].deep_view());
        assert(all[i + 3] == ts@[i + 3].deep_view());
        if let (Token::Part(Part::Open), Token::Name(name), Token::Part(Part::Close)) = (
            &ts[i + 1],
            &ts[i + 2],
            &ts[i + 3],
        ) {
            return Some((name, i + 4));
        }
    }
    None
}

fn truth(b: bool) -> (r: i64)
    ensures
        r == se::truth(b),
{
    if b {
        1
    } else {
        0
    }
}

/// Whether a list holds a text.
fn holds(list: &Vec<String>, t: &String) -> (r: bool)
    ensures
        r == list.deep_view().contains(t@),
{
    let mut i: usize = 0;
    while i < list.len()
        invariant
            i <= list@.len(),
            forall|k: int| 0 <= k < i ==> #[trigger] list.deep_view()[k] != t@,
        decreases list@.len() - i,
    {
        assert(list@[i as int]@ == list.deep_view()[i as int]);
        if list[i] == *t {
            return true;
        }
        i = i + 1;
    }
    false
}

fn copy_token(t: &Token) -> (r: Token)
    ensures
        r.deep_view() == t.deep_view(),
{
    match t {
        Token::Name(name) => Token::Name(name.clone()),
        Token::Part(part) => Token::Part(*part),
    }
}

/// The tokens from `a` on up to `b`.
fn copy_tokens(ts: &Vec<Token>, a: usize, b: usize) -> (r: Vec<Token>)
    requires
        a <= b <= ts@.len(),
    ensures
        r.deep_view() == ts.deep_view().subrange(a as int, b as int),
{
    let ghost all = ts.deep_view();
    let mut out: Vec<Token> = empty();
    let mut i: usize = a;
    while i < b
        invariant
            a <= i <= b <= ts@.len(),
            all == ts.deep_view(),
            out.deep_view() == all.subrange(a as int, i as int),
        decreases b - i,
    {
        put(&mut out, copy_token(&ts[i]));
        assert(all[i as int] == ts@[i as int].deep_view());
        assert(all.subrange(a as int, i + 1) =~= all.subrange(a as int, i as int).push(
            all[i as int],
        ));
        i = i + 1;
    }
    out
}

fn is_part(t: &Token, wanted: Part) -> (r: bool)
    ensures
        r == (t.deep_view() == se::Token::Part(wanted)),
{
    match t {
        Token::Name(_) => false,
        Token::Part(part) => *part == wanted,
    }
}

/// The arguments in the parentheses that open at `i`, and the index behind
/// them.
fn arguments_at(ts: &Vec<Token>, i: usize) -> (r: Option<(Vec<Vec<Token>>, usize)>)
    ensures
        match r {
            Some((args, end)) => se::arguments_at(ts.deep_view(), i as int) == Some(
                (args.deep_view(), end as int),
            ) && i < end <= ts@.len(),
            None => se::arguments_at(ts.deep_view(), i as int) is None,
        },
{
    let ghost all = ts.deep_view();
    if i >= ts.len() {
        return None;
    }
    assert(all[i as int] == ts@[i as int].deep_view());
    if !is_part(&ts[i], Part::Open) {
        return None;
    }
    let mut out: Vec<Vec<Token>> = empty();
    let mut depth: usize = 0;
    let mut start: usize = i + 1;
    let mut j: usize = i + 1;
    while j < ts.len()
        invariant
            i < start <= j <= ts@.len(),
            depth <= j,
            all == ts.deep_view(),
            se::arguments_at(all, i as int) == se::arguments_from(
                all,
                j as int,
                depth as nat,
                start as int,
                out.deep_view(),
            ),
        decreases ts@.len() - j,
    {
        assert(all[j as int] == ts@[j as int].deep_view());
        if is_part(&ts[j], Part::Open) {
            depth = depth + 1;
        } else if is_part(&ts[j], Part::Close) {
            if depth == 0 {
                put(&mut out, copy_tokens(ts, start, j));
                return Some((out, j + 1));
            }
            depth = depth - 1;
        } else if is_part(&ts[j], Part::Comma) && depth == 0 {
            put(&mut out, copy_tokens(ts, start, j));
            start = j + 1;
        }
        j = j + 1;
    }
    None
}

/// The names of a list in which each stands by itself.
fn names(list: &Vec<Vec<Token>>) -> (r: Option<Vec<String>>)
    ensures
        r.deep_view() == se::names_from(list.deep_view(), 0, Seq::empty()),
{
    let ghost all = list.deep_view();
    let mut out: Vec<String> = empty();
    let mut k: usize = 0;
    while k < list.len()
        invariant
            k <= list@.len(),
            all == list.deep_view(),
            se::names_from(all, 0, Seq::empty()) == se::names_from(all, k as int, out.deep_view()),
        decreases list@.len() - k,
    {
        assert(all[k as int] == list@[k as int].deep_view());
        if list[k].len() != 1 {
            return None;
        }
        assert(all[k as int][0] == list@[k as int]@[0].deep_view());
        match &list[k][0] {
            Token::Name(name) => put(&mut out, name.clone()),
            Token::Part(_) => {
                return None;
            },
        }
        k = k + 1;
    }
    Some(out)
}

/// The parameters and the body of a definition that starts with a list of names
/// in parentheses.
fn function_of(ts: &Vec<Token>) -> (r: Option<(Vec<String>, Vec<Token>)>)
    ensures
        r.deep_view() == se::function_of(ts.deep_view()),
{
    match arguments_at(ts, 0) {
        Some((list, end)) => {
            let ghost all = list.deep_view();
            let body = copy_tokens(ts, end, ts.len());
            assert(ts.deep_view().subrange(end as int, ts@.len() as int) =~= ts.deep_view().skip(
                end as int,
            ));
            if list.len() == 1 {
                assert(all[0] == list@[0].deep_view());
                if list[0].len() == 0 {
                    let none: Vec<String> = empty();
                    return Some((none, body));
                }
            }
            match names(&list) {
                Some(names) => Some((names, body)),
                None => None,
            }
        },
        None => None,
    }
}

/// The first parameter with a name.
fn parameter(names: &Vec<String>, name: &String) -> (r: Option<usize>)
    ensures
        st::at(r) == se::parameter_from(names.deep_view(), name@, 0),
{
    let ghost all = names.deep_view();
    let mut k: usize = 0;
    while k < names.len()
        invariant
            k <= names@.len(),
            all == names.deep_view(),
            se::parameter_from(all, name@, 0) == se::parameter_from(all, name@, k as int),
        decreases names@.len() - k,
    {
        assert(all[k as int] == names@[k as int]@);
        if names[k] == *name {
            return Some(k);
        }
        k = k + 1;
    }
    None
}

fn put_tokens(out: &mut Vec<Token>, ps: &Vec<Part>)
    ensures
        final(out).deep_view() == old(out).deep_view() + se::as_tokens(ps@),
{
    let ghost before = out.deep_view();
    let mut i: usize = 0;
    assert(before + se::as_tokens(ps@).take(0) =~= before);
    while i < ps.len()
        invariant
            i <= ps@.len(),
            out.deep_view() == before + se::as_tokens(ps@).take(i as int),
        decreases ps@.len() - i,
    {
        put(out, Token::Part(ps[i]));
        assert(se::as_tokens(ps@).take(i + 1) =~= se::as_tokens(ps@).take(i as int).push(
            se::Token::Part(ps@[i as int]),
        ));
        i = i + 1;
    }
    assert(se::as_tokens(ps@).take(ps@.len() as int) =~= se::as_tokens(ps@));
}

/// The body of a macro with arguments in the place of the parameters.
fn filled(body: &Vec<Token>, names: &Vec<String>, args: &Vec<Vec<Part>>) -> (r: Vec<Token>)
    ensures
        r.deep_view() == se::filled_from(
            body.deep_view(),
            names.deep_view(),
            part_lists(args@),
            0,
            Seq::empty(),
        ),
{
    let ghost all = body.deep_view();
    let ghost given = part_lists(args@);
    let mut out: Vec<Token> = empty();
    let mut j: usize = 0;
    while j < body.len()
        invariant
            j <= body@.len(),
            all == body.deep_view(),
            given == part_lists(args@),
            se::filled_from(all, names.deep_view(), given, 0, Seq::empty()) == se::filled_from(
                all,
                names.deep_view(),
                given,
                j as int,
                out.deep_view(),
            ),
        decreases body@.len() - j,
    {
        assert(all[j as int] == body@[j as int].deep_view());
        let k: Option<usize> = match &body[j] {
            Token::Name(name) => parameter(names, name),
            Token::Part(_) => None,
        };
        match k {
            Some(k) => if k < args.len() {
                put_tokens(&mut out, &args[k]);
            } else {
                put(&mut out, copy_token(&body[j]));
            },
            None => put(&mut out, copy_token(&body[j])),
        }
        j = j + 1;
    }
    out
}

/// Lists of parts.
spec fn part_lists(lists: Seq<Vec<Part>>) -> Seq<Seq<Part>> {
    Seq::new(lists.len(), |k: int| lists[k]@)
}

/// The parts that arguments stand for.
fn argument_parts(
    args: &Vec<Vec<Token>>,
    defs: &Table<String, String>,
    open: &Vec<String>,
    Ghost(n): Ghost<int>,
) -> (r: Vec<Vec<Part>>)
    requires
        0 <= n,
        se::all_within(args.deep_view(), n),
    ensures
        part_lists(r@) == se::argument_parts(
            args.deep_view(),
            defs.deep_view(),
            open.deep_view(),
            n,
            0,
            Seq::empty(),
        ),
    decreases defs.deep_view().len() - open.deep_view().len(), n, 1int,
{
    let ghost all = args.deep_view();
    let mut out: Vec<Vec<Part>> = Vec::new();
    let mut k: usize = 0;
    assert(part_lists(out@) =~= Seq::empty());
    while k < args.len()
        invariant
            k <= args@.len(),
            0 <= n,
            all == args.deep_view(),
            se::all_within(all, n),
            se::argument_parts(all, defs.deep_view(), open.deep_view(), n, 0, Seq::empty())
                == se::argument_parts(
                all,
                defs.deep_view(),
                open.deep_view(),
                n,
                k as int,
                part_lists(out@),
            ),
        decreases args@.len() - k,
    {
        assert(all[k as int] == args@[k as int].deep_view());
        let mut ps: Vec<Part> = Vec::new();
        put_parts(&args[k], defs, open, &mut ps);
        let ghost before = out@;
        out.push(ps);
        assert(part_lists(out@) =~= part_lists(before).push(ps@));
        k = k + 1;
    }
    out
}

/// Puts the parts that tokens stand for behind `out`.
fn put_parts(
    ts: &Vec<Token>,
    defs: &Table<String, String>,
    open: &Vec<String>,
    out: &mut Vec<Part>,
)
    ensures
        final(out)@ == se::parts_from(
            ts.deep_view(),
            defs.deep_view(),
            open.deep_view(),
            0,
            old(out)@,
        ),
    decreases
            defs.deep_view().len() - open.deep_view().len(),
            ts.deep_view().len(),
            0int,
{
    let ghost all = ts.deep_view();
    let ghost before = out@;
    let mut i: usize = 0;
    while i < ts.len()
        invariant
            i <= ts@.len(),
            all == ts.deep_view(),
            se::parts_from(all, defs.deep_view(), open.deep_view(), 0, before) == se::parts_from(
                all,
                defs.deep_view(),
                open.deep_view(),
                i as int,
                out@,
            ),
        decreases ts@.len() - i,
    {
        assert(all[i as int] == ts@[i as int].deep_view());
        match &ts[i] {
            Token::Part(part) => {
                out.push(*part);
                i = i + 1;
            },
            Token::Name(name) => {
                let letters = chars(name.as_str());
                if is_word(letters.as_slice(), "defined") {
                    match defined_at(ts, i) {
                        Some((wanted, end)) => {
                            out.push(Part::Number(truth(defs.contains_key(wanted))));
                            i = end;
                        },
                        None => {
                            out.push(Part::Number(0));
                            i = i + 1;
                        },
                    }
                } else {
                    match defs.find(name) {
                        Some(value) => {
                            let definition = chars(value.as_str());
                            assert(defs.entries@.len() == defs.deep_view().len());
                            assert(open@.len() == open.deep_view().len());
                            if is_blank(definition.as_slice()) {
                                out.push(Part::Number(1));
                                i = i + 1;
                            } else if holds(open, name) || open.len() >= defs.entries.len() {
                                out.push(Part::Number(0));
                                i = i + 1;
                            } else {
                                let mut opened = copy_texts(open);
                                put(&mut opened, name.clone());
                                let inner = tokens(definition.as_slice());
                                match (function_of(&inner), arguments_at(ts, i + 1)) {
                                    (Some((names, body)), Some((args, end))) => {
                                        proof {
                                            se::lemma_arguments_at(all, i + 1);
                                        }
                                        let given = argument_parts(
                                            &args,
                                            defs,
                                            open,
                                            Ghost(all.len() - i - 1),
                                        );
                                        put_parts(&filled(&body, &names, &given), defs, &opened, out);
                                        i = end;
                                    },
                                    _ => {
                                        put_parts(&inner, defs, &opened, out);
                                        i = i + 1;
                                    },
                                }
                            }
                        },
                        None => {
                            out.push(Part::Number(0));
                            i = i + 1;
                        },
                    }
                }
            },
        }
    }
}

/// The parts of an expression.
fn parts(expr: &[char], defs: &Table<String, String>) -> (r: Vec<Part>)
    ensures
        r@ == se::parts(expr@, defs.deep_view()),
{
    let ts = tokens(expr);
    let open: Vec<String> = empty();
    let mut out: Vec<Part> = Vec::new();
    put_parts(&ts, defs, &open, &mut out);
    out
}

// ---------------------------------------------------------------------------
// Values
// ---------------------------------------------------------------------------

/// How tightly an operator on two values binds.
fn rank(op: Operator) -> (r: u8)
    ensures
        r == se::rank(op),
{
    match op {
        Operator::LogicalOr => 0,
        Operator::LogicalAnd => 1,
        Operator::Or => 2,
        Operator::Xor => 3,
        Operator::And => 4,
        Operator::Equal | Operator::NotEqual => 5,
        Operator::Less | Operator::Greater | Operator::LessOrEqual | Operator::GreaterOrEqual => 6,
        Operator::ShiftLeft | Operator::ShiftRight => 7,
        Operator::Add | Operator::Subtract => 8,
        Operator::Multiply | Operator::Divide | Operator::Remainder => 9,
        Operator::Not | Operator::Complement => 10,
    }
}

/// The number of bits that a shift moves; a negative one moves none.
fn shift_count(n: i64) -> (r: u32)
    ensures
        r == se::shift_count(n),
{
    if n < 0 {
        0
    } else {
        #[verifier::truncate] (n as u32)
    }
}

/// The value of an operator on two values.
fn apply(op: Operator, a: i64, b: i64) -> (r: i64)
    ensures
        r == se::apply(op, a, b),
{
    match op {
        Operator::LogicalOr => truth(a != 0 || b != 0),
        Operator::LogicalAnd => truth(a != 0 && b != 0),
        Operator::Or => a | b,
        Operator::Xor => a ^ b,
        Operator::And => a & b,
        Operator::Equal => truth(a == b),
        Operator::NotEqual => truth(a != b),
        Operator::Less => truth(a < b),
        Operator::Greater => truth(a > b),
        Operator::LessOrEqual => truth(a <= b),
        Operator::GreaterOrEqual => truth(a >= b),
        Operator::ShiftLeft => {
            let n: u32 = shift_count(b);
            if n < 64 {
                a << n
            } else {
                0
            }
        },
        Operator::ShiftRight => {
            let n: u32 = shift_count(b);
            if n < 64 {
                a >> n
            } else {
                0
            }
        },
        Operator::Add => a.wrapping_add(b),
        Operator::Subtract => a.wrapping_sub(b),
        Operator::Multiply => a.wrapping_mul(b),
        Operator::Divide => match a.checked_div(b) {
            Some(q) => q,
            None => if b == 0 {
                0
            } else {
                a
            },
        },
        Operator::Remainder => match a.checked_rem(b) {
            Some(m) => m,
            None => 0,
        },
        Operator::Not | Operator::Complement => 0,
    }
}

/// The value of an operator before a value; nothing where it cannot stand
/// there.
fn apply_before(op: Operator, a: i64) -> (r: Option<i64>)
    ensures
        r == se::apply_before(op, a),
{
    match op {
        Operator::Not => Some(truth(a == 0)),
        Operator::Complement => Some(!a),
        Operator::Add => Some(a),
        Operator::Subtract => Some(0i64.wrapping_sub(a)),
        _ => None,
    }
}

/// Whether a value can end with a part.
fn ends_value(p: Part) -> (r: bool)
    ensures
        r == se::ends_value(p),
{
    match p {
        Part::Number(_) | Part::Close | Part::Comma | Part::Unknown => true,
        _ => false,
    }
}

/// How many parentheses are open behind a part.
fn depth_behind(depth: usize, p: Part) -> (r: usize)
    requires
        depth < usize::MAX,
    ensures
        r == match p {
            Part::Open => depth + 1,
            Part::Close => if depth > 0 {
                depth - 1
            } else {
                0
            },
            _ => depth as int,
        },
        r <= depth + 1,
{
    match p {
        Part::Open => depth + 1,
        Part::Close => if depth > 0 {
            depth - 1
        } else {
            0
        },
        _ => depth,
    }
}

/// The operator that is applied last, with its index.
fn main_operator(ps: &[Part]) -> (r: Option<(usize, Operator)>)
    ensures
        match r {
            Some((k, op)) => se::main_operator(ps@, ps@.len() as int) == Some(k as int) && k
                < ps@.len() && ps@[k as int] == Part::Operator(op),
            None => se::main_operator(ps@, ps@.len() as int) is None,
        },
{
    let mut best: Option<(usize, Operator)> = None;
    let mut depth: usize = 0;
    let mut i: usize = 0;
    while i < ps.len()
        invariant
            i <= ps@.len(),
            depth <= i,
            depth == se::depth(ps@, i as int),
            match best {
                Some((k, op)) => se::main_operator(ps@, i as int) == Some(k as int) && k < i
                    && ps@[k as int] == Part::Operator(op),
                None => se::main_operator(ps@, i as int) is None,
            },
        decreases ps@.len() - i,
    {
        if let Part::Operator(op) = ps[i] {
            let r: u8 = rank(op);
            if r < 10 && i > 0 && depth == 0 && ends_value(ps[i - 1]) {
                assert(se::splits_at(ps@, i as int));
                let better: bool = match best {
                    Some((_, other)) => r <= rank(other),
                    None => true,
                };
                if better {
                    best = Some((i, op));
                }
            }
        }
        depth = depth_behind(depth, ps[i]);
        i = i + 1;
    }
    best
}

/// The index of the parenthesis that closes the one at the start.
fn closing(ps: &[Part]) -> (r: Option<usize>)
    requires
        ps@.len() > 0,
        ps@[0] is Open,
    ensures
        st::at(r) == se::closing_from(ps@, 1),
        r matches Some(k) ==> 1 <= k < ps@.len(),
{
    let mut depth: usize = 1;
    let mut i: usize = 1;
    assert(se::depth(ps@, 0) == 0);
    while i < ps.len()
        invariant
            1 <= i <= ps@.len(),
            depth <= i,
            depth == se::depth(ps@, i as int),
            se::closing_from(ps@, 1) == se::closing_from(ps@, i as int),
        decreases ps@.len() - i,
    {
        if depth == 1 && ps[i] == Part::Close {
            return Some(i);
        }
        depth = depth_behind(depth, ps[i]);
        i = i + 1;
    }
    None
}

/// The value of an expression; what is no expression is 0. Parts behind a value
/// that no operator ties to it do not count.
fn value(ps: &[Part]) -> (r: i64)
    ensures
        r == se::value(ps@),
    decreases ps@.len(),
{
    let n: usize = ps.len();
    if let Some((k, op)) = main_operator(ps) {
        let a: i64 = value(slice_subrange(ps, 0, k));
        let b: i64 = value(slice_subrange(ps, k + 1, n));
        assert(ps@.subrange(0, k as int) =~= ps@.take(k as int));
        assert(ps@.subrange(k + 1, ps@.len() as int) =~= ps@.skip(k + 1));
        return apply(op, a, b);
    }
    if n == 0 {
        return 0;
    }
    match ps[0] {
        Part::Number(number) => number,
        Part::Operator(op) => {
            let a: i64 = value(slice_subrange(ps, 1, n));
            assert(ps@.subrange(1, n as int) =~= ps@.skip(1));
            match apply_before(op, a) {
                Some(result) => result,
                None => 0,
            }
        },
        Part::Open => match closing(ps) {
            Some(close) => value(slice_subrange(ps, 1, close)),
            None => 0,
        },
        _ => 0,
    }
}

/// Whether the condition of an `#if` holds.
pub fn eval_preprocessor_expr(expr: &[char], defs: &Table<String, String>) -> (r: bool)
    ensures
        r == se::eval_preprocessor_expr(expr@, defs.deep_view()),
{
    let ps = parts(expr, defs);
    value(ps.as_slice()) != 0
}

} // verus!
