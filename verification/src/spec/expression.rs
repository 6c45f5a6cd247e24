//! The expressions of preprocessor conditionals.

use vstd::prelude::*;

use crate::expression::{Operator, Part};
use crate::spec::table as sb;
use crate::spec::table::Entries;
use crate::spec::text as st;
use crate::spec::text::Text;

verus! {

/// The definitions of macro names.
pub type Definitions = Entries<Text, Text>;

// ---------------------------------------------------------------------------
// Integers
// ---------------------------------------------------------------------------

/// The value of a digit; at least 36 for what is no digit.
pub open spec fn digit_value(c: char) -> int {
    if '0' <= c <= '9' {
        c as int - '0' as int
    } else if 'a' <= c <= 'z' {
        c as int - 'a' as int + 10
    } else if 'A' <= c <= 'Z' {
        c as int - 'A' as int + 10
    } else {
        36
    }
}

/// The number that the digits from `i` on make behind `value`.
pub open spec fn digits_from(s: Text, radix: int, i: int, value: int) -> Option<int>
    decreases s.len() - i,
{
    if i >= s.len() {
        Some(value)
    } else if digit_value(s[i]) < radix {
        digits_from(s, radix, i + 1, value * radix + digit_value(s[i]))
    } else {
        None
    }
}

/// The number that a text of digits makes; at least one digit is needed.
pub open spec fn digits(s: Text, radix: int) -> Option<int> {
    if s.len() == 0 {
        None
    } else {
        digits_from(s, radix, 0, 0)
    }
}

/// More digits make no number smaller.
pub proof fn lemma_digits_grow(s: Text, radix: int, i: int, value: int)
    requires
        radix >= 1,
        value >= 0,
    ensures
        digits_from(s, radix, i, value) matches Some(n) ==> n >= value,
    decreases s.len() - i,
{
    if i < s.len() && digit_value(s[i]) < radix {
        assert(value * radix >= value) by (nonlinear_arith)
            requires
                radix >= 1,
                value >= 0,
        ;
        lemma_digits_grow(s, radix, i + 1, value * radix + digit_value(s[i]));
    }
}

/// A number as a machine integer, where it fits.
pub open spec fn fitting(n: int) -> Option<i64> {
    if i64::MIN <= n <= i64::MAX {
        Some(n as i64)
    } else {
        None
    }
}

/// A number with an optional sign, where it fits.
pub open spec fn signed(s: Text, radix: int) -> Option<i64> {
    if st::starts_with_char(s, '-') {
        match digits(s.skip(1), radix) {
            Some(n) => fitting(-n),
            None => None,
        }
    } else {
        match digits(
            if st::starts_with_char(s, '+') {
                s.skip(1)
            } else {
                s
            },
            radix,
        ) {
            Some(n) => fitting(n),
            None => None,
        }
    }
}

/// The character that a letter behind a backslash stands for.
pub open spec fn escaped(c: char) -> char {
    if c == '0' {
        '\u{0}'
    } else if c == 'n' {
        '\n'
    } else if c == 'r' {
        '\r'
    } else if c == 't' {
        '\t'
    } else {
        c
    }
}

/// The value of a character between quotes.
pub open spec fn char_literal(s: Text) -> Option<i64> {
    if s.len() >= 2 && s[0] == '\'' && s.last() == '\'' {
        let inner = s.subrange(1, s.len() - 1);
        if inner.len() == 1 && inner[0] != '\\' {
            Some(inner[0] as i64)
        } else if inner.len() == 2 && inner[0] == '\\' {
            Some(escaped(inner[1]) as i64)
        } else {
            None
        }
    } else {
        None
    }
}

/// Whether a letter can stand behind a number to give its type.
pub open spec fn is_suffix(c: char) -> bool {
    c == 'u' || c == 'U' || c == 'l' || c == 'L'
}

/// The index behind the last character before `j` that is no suffix.
pub open spec fn before_suffix(s: Text, j: int) -> int
    decreases j,
{
    if j > 0 && is_suffix(s[j - 1]) {
        before_suffix(s, j - 1)
    } else {
        j
    }
}

/// A number in decimal, octal, hexadecimal or binary.
pub open spec fn number(s: Text) -> Option<i64> {
    if st::starts_with(s, "0x"@) {
        signed(s.skip("0x"@.len() as int), 16)
    } else if st::starts_with(s, "0X"@) {
        signed(s.skip("0X"@.len() as int), 16)
    } else if st::starts_with(s, "0b"@) {
        signed(s.skip("0b"@.len() as int), 2)
    } else if st::starts_with(s, "0B"@) {
        signed(s.skip("0B"@.len() as int), 2)
    } else if s.len() > 1 && s[0] == '0' {
        signed(s.skip(1), 8)
    } else {
        signed(s, 10)
    }
}

/// The value of a number or a character.
pub open spec fn parse_preprocessor_integer(expr: Text) -> Option<i64> {
    let t = st::trim(expr);
    match char_literal(t) {
        Some(value) => Some(value),
        None => number(st::without_char(t.take(before_suffix(t, t.len() as int)), '\'')),
    }
}

// ---------------------------------------------------------------------------
// Tokens
// ---------------------------------------------------------------------------

/// A token of an expression: a name, or a part that has its meaning already.
#[verifier::ext_equal]
pub enum Token {
    Name(Text),
    Part(Part),
}

pub open spec fn operator(op: Operator) -> Token {
    Token::Part(Part::Operator(op))
}

/// The value of a number or a character; what is neither is 0.
pub open spec fn literal(s: Text) -> i64 {
    match parse_preprocessor_integer(s) {
        Some(value) => value,
        None => 0,
    }
}

/// The index behind a number whose characters go on at `j`. Single quotes can
/// stand between its digits.
pub open spec fn number_end(s: Text, j: int) -> int
    decreases s.len() - j,
{
    if j < s.len() && (st::is_ident(s[j]) || (s[j] == '\'' && j + 1 < s.len() && st::is_ident(
        s[j + 1],
    ))) {
        number_end(s, j + 1)
    } else {
        j
    }
}

/// The index behind the comment whose text goes on at `j`.
pub open spec fn comment_end(s: Text, j: int) -> int
    decreases s.len() - j,
{
    if j + 1 >= s.len() {
        s.len() as int
    } else if s[j] == '*' && s[j + 1] == '/' {
        j + 2
    } else {
        comment_end(s, j + 1)
    }
}

/// The operator of two characters.
pub open spec fn long_operator(a: char, b: char) -> Option<Operator> {
    if a == '|' && b == '|' {
        Some(Operator::LogicalOr)
    } else if a == '&' && b == '&' {
        Some(Operator::LogicalAnd)
    } else if a == '=' && b == '=' {
        Some(Operator::Equal)
    } else if a == '!' && b == '=' {
        Some(Operator::NotEqual)
    } else if a == '<' && b == '=' {
        Some(Operator::LessOrEqual)
    } else if a == '>' && b == '=' {
        Some(Operator::GreaterOrEqual)
    } else if a == '<' && b == '<' {
        Some(Operator::ShiftLeft)
    } else if a == '>' && b == '>' {
        Some(Operator::ShiftRight)
    } else {
        None
    }
}

/// The part that a single character stands for.
pub open spec fn short_part(c: char) -> Part {
    if c == '(' {
        Part::Open
    } else if c == ')' {
        Part::Close
    } else if c == ',' {
        Part::Comma
    } else if c == '|' {
        Part::Operator(Operator::Or)
    } else if c == '^' {
        Part::Operator(Operator::Xor)
    } else if c == '&' {
        Part::Operator(Operator::And)
    } else if c == '<' {
        Part::Operator(Operator::Less)
    } else if c == '>' {
        Part::Operator(Operator::Greater)
    } else if c == '+' {
        Part::Operator(Operator::Add)
    } else if c == '-' {
        Part::Operator(Operator::Subtract)
    } else if c == '*' {
        Part::Operator(Operator::Multiply)
    } else if c == '/' {
        Part::Operator(Operator::Divide)
    } else if c == '%' {
        Part::Operator(Operator::Remainder)
    } else if c == '!' {
        Part::Operator(Operator::Not)
    } else if c == '~' {
        Part::Operator(Operator::Complement)
    } else {
        Part::Unknown
    }
}

/// The index behind the character between quotes that starts at `i`, where
/// there is one.
pub open spec fn quoted_end(s: Text, i: int) -> Option<int> {
    if i + 3 < s.len() && s[i + 1] == '\\' && s[i + 3] == '\'' {
        Some(i + 4)
    } else if i + 2 < s.len() && s[i + 1] != '\\' && s[i + 2] == '\'' {
        Some(i + 3)
    } else {
        None
    }
}

/// The token that starts at `i`, and the index behind it.
pub open spec fn token_at(s: Text, i: int) -> (Token, int) {
    if st::is_name_start(s[i]) {
        (Token::Name(s.subrange(i, st::name_end(s, i + 1))), st::name_end(s, i + 1))
    } else if st::is_digit(s[i]) {
        (
            Token::Part(Part::Number(literal(s.subrange(i, number_end(s, i + 1))))),
            number_end(s, i + 1),
        )
    } else if s[i] == '\'' && quoted_end(s, i) is Some {
        (
            Token::Part(Part::Number(literal(s.subrange(i, quoted_end(s, i)->0)))),
            quoted_end(s, i)->0,
        )
    } else if i + 1 < s.len() && long_operator(s[i], s[i + 1]) is Some {
        (operator(long_operator(s[i], s[i + 1])->0), i + 2)
    } else {
        (Token::Part(short_part(s[i])), i + 1)
    }
}

/// The tokens from index `i` on, behind `out`. Blanks and comments separate
/// them.
pub open spec fn tokens_from(s: Text, i: int, out: Seq<Token>) -> Seq<Token>
    decreases s.len() - i,
{
    if i < 0 || i >= s.len() {
        out
    } else if st::is_space(s[i]) {
        tokens_from(s, i + 1, out)
    } else if i + 1 < s.len() && s[i] == '/' && s[i + 1] == '*' {
        proof {
            lemma_comment_end(s, i + 2);
        }
        tokens_from(s, comment_end(s, i + 2), out)
    } else {
        proof {
            lemma_token_end(s, i);
        }
        tokens_from(s, token_at(s, i).1, out.push(token_at(s, i).0))
    }
}

/// The tokens of a text.
pub open spec fn tokens(s: Text) -> Seq<Token> {
    tokens_from(s, 0, Seq::empty())
}

// ---------------------------------------------------------------------------
// Names
// ---------------------------------------------------------------------------

/// The name that the `defined` at `i` asks for, and the index behind it:
/// `defined name` or `defined(name)`.
pub open spec fn defined_at(ts: Seq<Token>, i: int) -> Option<(Text, int)> {
    if i + 1 < ts.len() && ts[i + 1] is Name {
        Some((ts[i + 1]->Name_0, i + 2))
    } else if i + 3 < ts.len() && ts[i + 1] == Token::Part(Part::Open) && ts[i + 2] is Name
        && ts[i + 3] == Token::Part(Part::Close) {
        Some((ts[i + 2]->Name_0, i + 4))
    } else {
        None
    }
}

pub open spec fn truth(b: bool) -> i64 {
    if b {
        1
    } else {
        0
    }
}

/// What commas separate from `j` on up to the parenthesis that closes, behind
/// `out`, and the index behind that parenthesis. `depth` more parentheses are
/// open at `j`, and the argument there starts at `start`.
pub open spec fn arguments_from(
    ts: Seq<Token>,
    j: int,
    depth: nat,
    start: int,
    out: Seq<Seq<Token>>,
) -> Option<(Seq<Seq<Token>>, int)>
    decreases ts.len() - j,
{
    if j >= ts.len() {
        None
    } else if ts[j] == Token::Part(Part::Open) {
        arguments_from(ts, j + 1, depth + 1, start, out)
    } else if ts[j] == Token::Part(Part::Close) && depth == 0 {
        Some((out.push(ts.subrange(start, j)), j + 1))
    } else if ts[j] == Token::Part(Part::Close) {
        arguments_from(ts, j + 1, (depth - 1) as nat, start, out)
    } else if ts[j] == Token::Part(Part::Comma) && depth == 0 {
        arguments_from(ts, j + 1, 0, j + 1, out.push(ts.subrange(start, j)))
    } else {
        arguments_from(ts, j + 1, depth, start, out)
    }
}

/// The arguments in the parentheses that open at `i`, and the index behind
/// them.
pub open spec fn arguments_at(ts: Seq<Token>, i: int) -> Option<(Seq<Seq<Token>>, int)> {
    if i < ts.len() && ts[i] == Token::Part(Part::Open) {
        arguments_from(ts, i + 1, 0, i + 1, Seq::empty())
    } else {
        None
    }
}

/// The names from `k` on, behind `out`, where each stands by itself.
pub open spec fn names_from(list: Seq<Seq<Token>>, k: int, out: Seq<Text>) -> Option<Seq<Text>>
    decreases list.len() - k,
{
    if k >= list.len() {
        Some(out)
    } else if list[k].len() == 1 && list[k][0] is Name {
        names_from(list, k + 1, out.push(list[k][0]->Name_0))
    } else {
        None
    }
}

/// The parameters and the body of a definition that starts with a list of names
/// in parentheses.
pub open spec fn function_of(ts: Seq<Token>) -> Option<(Seq<Text>, Seq<Token>)> {
    match arguments_at(ts, 0) {
        Some((list, end)) => if list.len() == 1 && list[0].len() == 0 {
            Some((Seq::empty(), ts.skip(end)))
        } else {
            match names_from(list, 0, Seq::empty()) {
                Some(names) => Some((names, ts.skip(end))),
                None => None,
            }
        },
        None => None,
    }
}

/// The first parameter from `k` on with a name.
pub open spec fn parameter_from(names: Seq<Text>, name: Text, k: int) -> Option<int>
    decreases names.len() - k,
{
    if k >= names.len() {
        None
    } else if names[k] == name {
        Some(k)
    } else {
        parameter_from(names, name, k + 1)
    }
}

pub open spec fn as_tokens(ps: Seq<Part>) -> Seq<Token> {
    Seq::new(ps.len(), |i: int| Token::Part(ps[i]))
}

/// The body of a macro from `j` on with arguments in the place of the
/// parameters, behind `out`.
pub open spec fn filled_from(
    body: Seq<Token>,
    names: Seq<Text>,
    args: Seq<Seq<Part>>,
    j: int,
    out: Seq<Token>,
) -> Seq<Token>
    decreases body.len() - j,
{
    if j >= body.len() {
        out
    } else {
        let k = match body[j] {
            Token::Name(name) => parameter_from(names, name, 0),
            Token::Part(_) => None,
        };
        filled_from(
            body,
            names,
            args,
            j + 1,
            match k {
                Some(k) => if k < args.len() {
                    out + as_tokens(args[k])
                } else {
                    out.push(body[j])
                },
                None => out.push(body[j]),
            },
        )
    }
}

/// The parts that the arguments from `k` on stand for, behind `out`, as far as
/// none is longer than `n`.
pub open spec fn argument_parts(
    args: Seq<Seq<Token>>,
    defs: Definitions,
    open: Seq<Text>,
    n: int,
    k: int,
    out: Seq<Seq<Part>>,
) -> Seq<Seq<Part>>
    decreases defs.len() - open.len(), n, args.len() - k,
{
    if k < 0 || k >= args.len() || args[k].len() > n {
        out
    } else {
        argument_parts(
            args,
            defs,
            open,
            n,
            k + 1,
            out.push(parts_from(args[k], defs, open, 0, Seq::empty())),
        )
    }
}

/// The parts that the tokens from `i` on stand for, behind `out`: a macro
/// stands for what it is defined as, with its arguments in the place of its
/// parameters, one without a value for 1, and any other name for 0. `open`
/// holds the names that are being replaced; such a name is 0 in its own
/// definition.
pub open spec fn parts_from(
    ts: Seq<Token>,
    defs: Definitions,
    open: Seq<Text>,
    i: int,
    out: Seq<Part>,
) -> Seq<Part>
    decreases defs.len() - open.len(), ts.len() - i, 0int,
{
    if i < 0 || i >= ts.len() {
        out
    } else {
        match ts[i] {
            Token::Part(part) => parts_from(ts, defs, open, i + 1, out.push(part)),
            Token::Name(name) => if name == "defined"@ {
                match defined_at(ts, i) {
                    Some((wanted, end)) => parts_from(
                        ts,
                        defs,
                        open,
                        end,
                        out.push(Part::Number(truth(sb::find(defs, wanted) is Some))),
                    ),
                    None => parts_from(ts, defs, open, i + 1, out.push(Part::Number(0))),
                }
            } else {
                match sb::find(defs, name) {
                    Some(value) => if st::is_blank(value) {
                        parts_from(ts, defs, open, i + 1, out.push(Part::Number(1)))
                    } else if open.contains(name) || open.len() >= defs.len() {
                        parts_from(ts, defs, open, i + 1, out.push(Part::Number(0)))
                    } else {
                        let inner = tokens(value);
                        match (function_of(inner), arguments_at(ts, i + 1)) {
                            (Some((names, body)), Some((args, end))) => {
                                proof {
                                    lemma_arguments_at(ts, i + 1);
                                }
                                let given = argument_parts(
                                    args,
                                    defs,
                                    open,
                                    ts.len() - i - 1,
                                    0,
                                    Seq::empty(),
                                );
                                let filled = filled_from(body, names, given, 0, Seq::empty());
                                parts_from(
                                    ts,
                                    defs,
                                    open,
                                    end,
                                    parts_from(filled, defs, open.push(name), 0, out),
                                )
                            },
                            _ => parts_from(
                                ts,
                                defs,
                                open,
                                i + 1,
                                parts_from(inner, defs, open.push(name), 0, out),
                            ),
                        }
                    },
                    None => parts_from(ts, defs, open, i + 1, out.push(Part::Number(0))),
                }
            },
        }
    }
}

/// The parts of an expression.
pub open spec fn parts(expr: Text, defs: Definitions) -> Seq<Part> {
    parts_from(tokens(expr), defs, Seq::empty(), 0, Seq::empty())
}

// ---------------------------------------------------------------------------
// Values
// ---------------------------------------------------------------------------

/// How tightly an operator on two values binds: the least for `||`.
pub open spec fn rank(op: Operator) -> int {
    match op {
        Operator::LogicalOr => 0,
        Operator::LogicalAnd => 1,
        Operator::Or => 2,
        Operator::Xor => 3,
        Operator::And => 4,
        Operator::Equal | Operator::NotEqual => 5,
        Operator::Less | Operator::Greater | Operator::LessOrEqual | Operator::GreaterOrEqual => 6,
        Operator::ShiftLeft | Operator::ShiftRight => 7,
        Operator::Add | Operator::Subtract => 8,
        Operator::Multiply | Operator::Divide | Operator::Remainder => 9,
        Operator::Not | Operator::Complement => 10,
    }
}

/// The number of bits that a shift moves; a negative one moves none.
pub open spec fn shift_count(n: i64) -> u32 {
    if n < 0 {
        0
    } else {
        #[verifier::truncate] (n as u32)
    }
}

/// The value of an operator on two values. Sums, differences and products
/// wrap around; what cannot be divided or shifted is 0.
pub open spec fn apply(op: Operator, a: i64, b: i64) -> i64 {
    match op {
        Operator::LogicalOr => truth(a != 0 || b != 0),
        Operator::LogicalAnd => truth(a != 0 && b != 0),
        Operator::Or => a | b,
        Operator::Xor => a ^ b,
        Operator::And => a & b,
        Operator::Equal => truth(a == b),
        Operator::NotEqual => truth(a != b),
        Operator::Less => truth(a < b),
        Operator::Greater => truth(a > b),
        Operator::LessOrEqual => truth(a <= b),
        Operator::GreaterOrEqual => truth(a >= b),
        Operator::ShiftLeft => if shift_count(b) < 64 {
            a << shift_count(b)
        } else {
            0
        },
        Operator::ShiftRight => if shift_count(b) < 64 {
            a >> shift_count(b)
        } else {
            0
        },
        Operator::Add => a.wrapping_add(b),
        Operator::Subtract => a.wrapping_sub(b),
        Operator::Multiply => a.wrapping_mul(b),
        Operator::Divide => match a.checked_div(b) {
            Some(q) => q,
            None => if b == 0 {
                0
            } else {
                a
            },
        },
        Operator::Remainder => match a.checked_rem(b) {
            Some(r) => r,
            None => 0,
        },
        Operator::Not | Operator::Complement => 0,
    }
}

/// The value of an operator before a value; nothing where it cannot stand
/// there.
pub open spec fn apply_before(op: Operator, a: i64) -> Option<i64> {
    match op {
        Operator::Not => Some(truth(a == 0)),
        Operator::Complement => Some(!a),
        Operator::Add => Some(a),
        Operator::Subtract => Some(0i64.wrapping_sub(a)),
        _ => None,
    }
}

/// How many parentheses are open before the part `i`.
pub open spec fn depth(ps: Seq<Part>, i: int) -> nat
    decreases i,
{
    if i <= 0 {
        0
    } else {
        let before = depth(ps, i - 1);
        match ps[i - 1] {
            Part::Open => before + 1,
            Part::Close => if before > 0 {
                (before - 1) as nat
            } else {
                0
            },
            _ => before,
        }
    }
}

/// Whether a value can end with a part.
pub open spec fn ends_value(p: Part) -> bool {
    p is Number || p is Close || p is Comma || p is Unknown
}

/// Whether the part `i` is an operator on what stands before it and behind it,
/// outside of parentheses.
pub open spec fn splits_at(ps: Seq<Part>, i: int) -> bool {
    &&& 0 < i < ps.len()
    &&& ps[i] matches Part::Operator(op) && rank(op) < 10
    &&& ends_value(ps[i - 1])
    &&& depth(ps, i) == 0
}

/// Of the first `n` parts, the operator that is applied last: the last one of
/// those that bind least.
pub open spec fn main_operator(ps: Seq<Part>, n: int) -> Option<int>
    decreases n,
{
    if n <= 0 {
        None
    } else {
        match main_operator(ps, n - 1) {
            Some(k) => if splits_at(ps, n - 1) && rank(ps[n - 1]->Operator_0) <= rank(
                ps[k]->Operator_0,
            ) {
                Some(n - 1)
            } else {
                Some(k)
            },
            None => if splits_at(ps, n - 1) {
                Some(n - 1)
            } else {
                None
            },
        }
    }
}

/// The first index from `i` on of the parenthesis that closes the outermost one
/// that is open.
pub open spec fn closing_from(ps: Seq<Part>, i: int) -> Option<int>
    decreases ps.len() - i,
{
    if i >= ps.len() {
        None
    } else if ps[i] is Close && depth(ps, i) == 1 {
        Some(i)
    } else {
        closing_from(ps, i + 1)
    }
}

/// The value of an expression; what is no expression is 0. Parts behind a value
/// that no operator ties to it do not count: a compiler reports them, and the
/// condition is that of what stands in front of them.
pub open spec fn value(ps: Seq<Part>) -> i64
    decreases ps.len(),
{
    match main_operator(ps, ps.len() as int) {
        Some(k) => {
            proof {
                lemma_main_operator(ps, ps.len() as int);
            }
            apply(ps[k]->Operator_0, value(ps.take(k)), value(ps.skip(k + 1)))
        },
        None => if ps.len() == 0 {
            0
        } else {
            match ps[0] {
                Part::Number(n) => n,
                Part::Operator(op) => match apply_before(op, value(ps.skip(1))) {
                    Some(n) => n,
                    None => 0,
                },
                Part::Open => match closing_from(ps, 1) {
                    Some(close) => {
                        proof {
                            lemma_closing(ps, 1);
                        }
                        value(ps.subrange(1, close))
                    },
                    None => 0,
                },
                _ => 0,
            }
        },
    }
}

/// Whether the condition of an `#if` holds.
pub open spec fn eval_preprocessor_expr(expr: Text, defs: Definitions) -> bool {
    value(parts(expr, defs)) != 0
}

// ---------------------------------------------------------------------------
// Facts
// ---------------------------------------------------------------------------

/// A comment ends behind its beginning.
pub proof fn lemma_comment_end(s: Text, j: int)
    requires
        0 <= j <= s.len(),
    ensures
        j <= comment_end(s, j) <= s.len(),
    decreases s.len() - j,
{
    if j + 1 < s.len() && !(s[j] == '*' && s[j + 1] == '/') {
        lemma_comment_end(s, j + 1);
    }
}

pub proof fn lemma_number_end(s: Text, j: int)
    requires
        0 <= j <= s.len(),
    ensures
        j <= number_end(s, j) <= s.len(),
    decreases s.len() - j,
{
    if j < s.len() {
        lemma_number_end(s, j + 1);
    }
}

pub proof fn lemma_name_end(s: Text, j: int)
    requires
        0 <= j <= s.len(),
    ensures
        j <= st::name_end(s, j) <= s.len(),
    decreases s.len() - j,
{
    if j < s.len() {
        lemma_name_end(s, j + 1);
    }
}

/// A token ends behind its beginning.
pub proof fn lemma_token_end(s: Text, i: int)
    requires
        0 <= i < s.len(),
    ensures
        i < token_at(s, i).1 <= s.len(),
{
    lemma_name_end(s, i + 1);
    lemma_number_end(s, i + 1);
}

/// Whether none of the arguments is longer than `n`.
pub open spec fn all_within(args: Seq<Seq<Token>>, n: int) -> bool {
    forall|k: int| 0 <= k < args.len() ==> (#[trigger] args[k]).len() <= n
}

proof fn lemma_arguments(
    ts: Seq<Token>,
    j: int,
    depth: nat,
    start: int,
    out: Seq<Seq<Token>>,
    first: int,
)
    requires
        0 <= first <= start <= j,
        all_within(out, ts.len() - first),
    ensures
        arguments_from(ts, j, depth, start, out) matches Some((args, end)) ==> j < end
            <= ts.len() && all_within(args, ts.len() - first),
    decreases ts.len() - j,
{
    if j < ts.len() {
        if ts[j] == Token::Part(Part::Open) {
            lemma_arguments(ts, j + 1, depth + 1, start, out, first);
        } else if ts[j] == Token::Part(Part::Close) && depth == 0 {
        } else if ts[j] == Token::Part(Part::Close) {
            lemma_arguments(ts, j + 1, (depth - 1) as nat, start, out, first);
        } else if ts[j] == Token::Part(Part::Comma) && depth == 0 {
            lemma_arguments(ts, j + 1, 0, j + 1, out.push(ts.subrange(start, j)), first);
        } else {
            lemma_arguments(ts, j + 1, depth, start, out, first);
        }
    }
}

/// Arguments end behind the parenthesis that opens, and lie behind it.
pub proof fn lemma_arguments_at(ts: Seq<Token>, i: int)
    requires
        0 <= i,
    ensures
        arguments_at(ts, i) matches Some((args, end)) ==> i < end <= ts.len() && all_within(
            args,
            ts.len() - i,
        ),
{
    if i < ts.len() {
        lemma_arguments(ts, i + 1, 0, i + 1, Seq::empty(), i + 1);
    }
}

/// The parenthesis that closes is behind the one that opens.
pub proof fn lemma_closing(ps: Seq<Part>, i: int)
    ensures
        closing_from(ps, i) matches Some(k) ==> i <= k < ps.len(),
    decreases ps.len() - i,
{
    if i < ps.len() {
        lemma_closing(ps, i + 1);
    }
}

/// The main operator is an operator outside of parentheses.
pub proof fn lemma_main_operator(ps: Seq<Part>, n: int)
    ensures
        main_operator(ps, n) matches Some(k) ==> splits_at(ps, k) && k < n,
    decreases n,
{
    if n > 0 {
        lemma_main_operator(ps, n - 1);
    }
}

} // verus!
