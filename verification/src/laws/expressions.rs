//! Conditions as they are written, and what they are worth.

use vstd::prelude::*;

use crate::expression::{Operator, Part};
use crate::laws::text::{is_name, is_name_character, lemma_trimmed};
use crate::spec::expression as se;
use crate::spec::expression::{Definitions, Token};
use crate::spec::table as sb;
use crate::spec::text as st;
use crate::spec::text::Text;

verus! {

// ---------------------------------------------------------------------------
// Numbers
// ---------------------------------------------------------------------------

/// Whether a text is made of decimal digits.
pub open spec fn is_decimal(s: Text) -> bool {
    s.len() > 0 && forall|i: int| 0 <= i < s.len() ==> '0' <= #[trigger] s[i] <= '9'
}

/// The number that decimal digits make.
pub open spec fn decimal_value(s: Text) -> int
    decreases s.len(),
{
    if s.len() == 0 {
        0
    } else {
        decimal_value(s.drop_last()) * 10 + (s.last() as int - 48)
    }
}

proof fn lemma_digits_drop(s: Text, radix: int, i: int, value: int)
    requires
        0 <= i < s.len(),
    ensures
        se::digits_from(s, radix, i, value) == (match se::digits_from(
            s.drop_last(),
            radix,
            i,
            value,
        ) {
            Some(n) => if se::digit_value(s.last()) < radix {
                Some(n * radix + se::digit_value(s.last()))
            } else {
                None
            },
            None => None,
        }),
    decreases s.len() - i,
{
    if i < s.len() - 1 {
        assert(s.drop_last()[i] == s[i]);
        if se::digit_value(s[i]) < radix {
            lemma_digits_drop(s, radix, i + 1, value * radix + se::digit_value(s[i]));
        }
    } else {
        assert(s[i] == s.last());
        reveal_with_fuel(se::digits_from, 3);
    }
}

proof fn lemma_decimal(s: Text)
    requires
        forall|i: int| 0 <= i < s.len() ==> '0' <= #[trigger] s[i] <= '9',
    ensures
        se::digits_from(s, 10, 0, 0) == Some(decimal_value(s)),
        decimal_value(s) >= 0,
    decreases s.len(),
{
    if s.len() > 0 {
        lemma_decimal(s.drop_last());
        lemma_digits_drop(s, 10, 0, 0);
    }
}

/// A text of decimal digits is the number that it shows, unless it starts with a
/// zero and goes on.
pub proof fn law_decimal_number(s: Text)
    requires
        is_decimal(s),
        s[0] != '0' || s.len() == 1,
        decimal_value(s) <= i64::MAX,
    ensures
        se::parse_preprocessor_integer(s) == Some(decimal_value(s) as i64),
{
    reveal_strlit("0x");
    reveal_strlit("0X");
    reveal_strlit("0b");
    reveal_strlit("0B");
    lemma_trimmed(s);
    assert(se::before_suffix(s, s.len() as int) == s.len());
    assert(s.take(s.len() as int) =~= s);
    lemma_without(s);
    lemma_decimal(s);
    lemma_no_base(s, "0x"@);
    lemma_no_base(s, "0X"@);
    lemma_no_base(s, "0b"@);
    lemma_no_base(s, "0B"@);
}

proof fn lemma_no_base(s: Text, p: Text)
    requires
        is_decimal(s),
        p.len() == 2,
        !('0' <= p[1] <= '9'),
    ensures
        !st::starts_with(s, p),
{
    if st::starts_with(s, p) {
        assert(s.subrange(0, 2)[1] == p[1]);
    }
}

proof fn lemma_without(s: Text)
    requires
        !s.contains('\''),
    ensures
        st::without_char(s, '\'') == s,
    decreases s.len(),
{
    if s.len() > 0 {
        let t = s.drop_last();
        assert forall|i: int| 0 <= i < t.len() implies t[i] != '\'' by {
            assert(s.contains(s[i]));
        }
        lemma_without(t);
        assert(s.contains(s.last()));
        assert(t.push(s.last()) =~= s);
    }
}

// ---------------------------------------------------------------------------
// Tokens
// ---------------------------------------------------------------------------

/// The operator or the parenthesis that is written in one way or another.
pub open spec fn is_sign(s: Text, p: Part) -> bool {
    ||| s == seq!['|', '|'] && p == Part::Operator(Operator::LogicalOr)
    ||| s == seq!['&', '&'] && p == Part::Operator(Operator::LogicalAnd)
    ||| s == seq!['=', '='] && p == Part::Operator(Operator::Equal)
    ||| s == seq!['!', '='] && p == Part::Operator(Operator::NotEqual)
    ||| s == seq!['<', '='] && p == Part::Operator(Operator::LessOrEqual)
    ||| s == seq!['>', '='] && p == Part::Operator(Operator::GreaterOrEqual)
    ||| s == seq!['<', '<'] && p == Part::Operator(Operator::ShiftLeft)
    ||| s == seq!['>', '>'] && p == Part::Operator(Operator::ShiftRight)
    ||| s == seq!['|'] && p == Part::Operator(Operator::Or)
    ||| s == seq!['^'] && p == Part::Operator(Operator::Xor)
    ||| s == seq!['&'] && p == Part::Operator(Operator::And)
    ||| s == seq!['<'] && p == Part::Operator(Operator::Less)
    ||| s == seq!['>'] && p == Part::Operator(Operator::Greater)
    ||| s == seq!['+'] && p == Part::Operator(Operator::Add)
    ||| s == seq!['-'] && p == Part::Operator(Operator::Subtract)
    ||| s == seq!['*'] && p == Part::Operator(Operator::Multiply)
    ||| s == seq!['/'] && p == Part::Operator(Operator::Divide)
    ||| s == seq!['%'] && p == Part::Operator(Operator::Remainder)
    ||| s == seq!['!'] && p == Part::Operator(Operator::Not)
    ||| s == seq!['~'] && p == Part::Operator(Operator::Complement)
    ||| s == seq!['('] && p == Part::Open
    ||| s == seq![')'] && p == Part::Close
    ||| s == seq![','] && p == Part::Comma
}

/// Whether a text is written for a token: a name, a decimal number, an operator, a
/// parenthesis or a comma.
pub open spec fn writes(s: Text, t: Token) -> bool {
    ||| is_name(s) && t == Token::Name(s)
    ||| is_decimal(s) && (s[0] != '0' || s.len() == 1) && decimal_value(s) <= i64::MAX && t
        == Token::Part(Part::Number(decimal_value(s) as i64))
    ||| t matches Token::Part(p) && is_sign(s, p)
}

proof fn lemma_name_run(s: Text, i: int, j: int, e: int)
    requires
        0 <= i <= j <= e <= s.len(),
        forall|k: int| i <= k < e ==> is_name_character(#[trigger] s[k]),
        e < s.len() ==> s[e] == ' ',
    ensures
        st::name_end(s, j) == e,
        se::number_end(s, j) == e,
    decreases e - j,
{
    if j < e {
        lemma_name_run(s, i, j + 1, e);
    }
}

proof fn lemma_token(s: Text, i: int, word: Text, t: Token)
    requires
        0 <= i,
        i + word.len() <= s.len(),
        s.subrange(i, i + word.len()) == word,
        i + word.len() < s.len() ==> s[i + word.len()] == ' ',
        writes(word, t),
    ensures
        word.len() > 0,
        !st::is_space(s[i]),
        !(i + 1 < s.len() && s[i] == '/' && s[i + 1] == '*'),
        se::token_at(s, i) == (t, i + word.len()),
{
    let e = i + word.len();
    assert(forall|k: int| 0 <= k < word.len() ==> s[i + k] == #[trigger] word[k]) by {
        assert forall|k: int| 0 <= k < word.len() implies s[i + k] == #[trigger] word[k] by {
            assert(s.subrange(i, e)[k] == s[i + k]);
        }
    }
    assert(word.len() > 0);
    assert(s[i] == word[0]);
    if is_name(word) || is_decimal(word) {
        assert forall|k: int| i <= k < e implies is_name_character(#[trigger] s[k]) by {
            assert(s[k] == word[k - i]);
            if is_name(word) {
                assert(is_name_character(word[k - i]));
            }
        }
        lemma_name_run(s, i, i + 1, e);
        assert(s.subrange(i, e) =~= word);
        if is_decimal(word) && !is_name(word) {
            assert('0' <= word[0] <= '9');
            law_decimal_number(word);
        } else {
            assert(is_name_character(word[0]));
        }
    } else {
        if word.len() == 2 {
            assert(s[i + 1] == word[1]);
        } else {
            assert(word.len() == 1);
            if i + 1 < s.len() {
                assert(s[i + 1] == ' ');
            }
        }
    }
}

/// How many characters the first `k` words and the blanks behind them have.
spec fn offset(words: Seq<Text>, k: int) -> int
    decreases k,
{
    if k <= 0 {
        0
    } else {
        offset(words, k - 1) + words[k - 1].len() + 1
    }
}

proof fn lemma_offset_same(words: Seq<Text>, k: int)
    requires
        k < words.len(),
    ensures
        offset(words.drop_last(), k) == offset(words, k),
    decreases k,
{
    if k > 0 {
        lemma_offset_same(words, k - 1);
    }
}

proof fn lemma_offset(words: Seq<Text>, k: int)
    requires
        0 <= k < words.len(),
    ensures
        ({
            let s = st::join(words, seq![' ']);
            let i = offset(words, k);
            &&& 0 <= i
            &&& i + words[k].len() <= s.len()
            &&& s.subrange(i, i + words[k].len()) == words[k]
            &&& k + 1 < words.len() ==> i + words[k].len() < s.len() && s[i + words[k].len()] == ' '
            &&& k + 1 == words.len() ==> i + words[k].len() == s.len()
        }),
    decreases words.len(),
{
    let s = st::join(words, seq![' ']);
    if words.len() == 1 {
        assert(s.subrange(0, s.len() as int) =~= s);
    } else {
        let fewer = words.drop_last();
        let m = words.len() - 1;
        let t = st::join(fewer, seq![' ']);
        assert(s =~= t + seq![' '] + words[m]);
        lemma_offset(fewer, m - 1);
        lemma_offset_same(words, m);
        lemma_offset_same(words, m - 1);
        assert(offset(words, m) == offset(words, m - 1) + words[m - 1].len() + 1);
        if k < m {
            lemma_offset(fewer, k);
            lemma_offset_same(words, k);
            let i = offset(words, k);
            assert(s.subrange(i, i + words[k].len()) =~= t.subrange(i, i + words[k].len()));
        } else {
            assert(s.subrange(offset(words, m), s.len() as int) =~= words[m]);
        }
    }
}

proof fn lemma_tokens(words: Seq<Text>, ts: Seq<Token>, k: int)
    requires
        words.len() == ts.len(),
        forall|j: int| 0 <= j < words.len() ==> writes(#[trigger] words[j], ts[j]),
        0 <= k < words.len(),
    ensures
        se::tokens_from(st::join(words, seq![' ']), offset(words, k), ts.take(k)) == ts,
    decreases words.len() - k,
{
    let s = st::join(words, seq![' ']);
    let i = offset(words, k);
    lemma_offset(words, k);
    assert(writes(words[k], ts[k]));
    lemma_token(s, i, words[k], ts[k]);
    assert(ts.take(k).push(ts[k]) =~= ts.take(k + 1));
    let e = i + words[k].len();
    assert(se::tokens_from(s, i, ts.take(k)) == se::tokens_from(s, e, ts.take(k + 1)));
    if k + 1 < words.len() {
        assert(offset(words, k + 1) == e + 1);
        lemma_tokens(words, ts, k + 1);
        assert(se::tokens_from(s, e, ts.take(k + 1)) == se::tokens_from(
            s,
            e + 1,
            ts.take(k + 1),
        ));
    } else {
        assert(ts.take(k + 1) =~= ts);
        assert(se::tokens_from(s, e, ts) == ts);
    }
}

/// Names, numbers, operators and parentheses with blanks between them are read as
/// just these.
pub proof fn law_tokens(words: Seq<Text>, ts: Seq<Token>)
    requires
        words.len() == ts.len() > 0,
        forall|j: int| 0 <= j < words.len() ==> writes(#[trigger] words[j], ts[j]),
    ensures
        se::tokens(st::join(words, seq![' '])) == ts,
{
    lemma_tokens(words, ts, 0);
    assert(ts.take(0) =~= Seq::empty());
}

// ---------------------------------------------------------------------------
// Names
// ---------------------------------------------------------------------------

/// `defined(name)` and `defined name` hold exactly where the name is defined.
pub proof fn law_defined(name: Text, defs: Definitions)
    requires
        is_name(name),
    ensures
        se::eval_preprocessor_expr(
            st::join(seq!["defined"@, seq!['('], name, seq![')']], seq![' ']),
            defs,
        ) == (sb::find(defs, name) is Some),
        se::eval_preprocessor_expr(st::join(seq!["defined"@, name], seq![' ']), defs) == (sb::find(
            defs,
            name,
        ) is Some),
{
    reveal_strlit("defined");
    let d = Token::Name("defined"@);
    let n = Token::Name(name);
    let open = Token::Part(Part::Open);
    let close = Token::Part(Part::Close);
    let four = seq!["defined"@, seq!['('], name, seq![')']];
    let ts = seq![d, open, n, close];
    assert forall|j: int| 0 <= j < four.len() implies writes(#[trigger] four[j], ts[j]) by {
        if j == 0 {
        } else if j == 1 {
        } else if j == 2 {
        } else {
        }
    }
    law_tokens(four, ts);
    let two = seq!["defined"@, name];
    let us = seq![d, n];
    assert forall|j: int| 0 <= j < two.len() implies writes(#[trigger] two[j], us[j]) by {
        if j == 0 {
        } else {
        }
    }
    law_tokens(two, us);
    let number = Part::Number(se::truth(sb::find(defs, name) is Some));
    let none = Seq::<Part>::empty();
    assert(ts[0] is Name && !(ts[1] is Name));
    assert(se::defined_at(ts, 0) == Some((name, 4int)));
    assert(se::parts_from(ts, defs, Seq::empty(), 4, none.push(number)) == none.push(number));
    assert(se::defined_at(us, 0) == Some((name, 2int)));
    assert(se::parts_from(us, defs, Seq::empty(), 2, none.push(number)) == none.push(number));
    lemma_one(number);
}

proof fn lemma_one(p: Part)
    requires
        p is Number,
    ensures
        se::value(Seq::<Part>::empty().push(p)) == p->Number_0,
{
    let ps = Seq::<Part>::empty().push(p);
    assert(ps[0] == p);
    reveal_with_fuel(se::main_operator, 3);
    assert(se::main_operator(ps, 1) is None);
}

/// A name that is not defined does not hold; one that is defined without a value
/// does.
pub proof fn law_name(name: Text, defs: Definitions)
    requires
        is_name(name),
        name != "defined"@,
        sb::find(defs, name) matches Some(value) ==> st::is_blank(value),
    ensures
        se::eval_preprocessor_expr(name, defs) == (sb::find(defs, name) is Some),
{
    let ts = seq![Token::Name(name)];
    let words = seq![name];
    law_tokens(words, ts);
    assert(st::join(words, seq![' ']) == name) by {
        assert(words[0] == name);
    }
    let number = Part::Number(se::truth(sb::find(defs, name) is Some));
    let none = Seq::<Part>::empty();
    assert(se::parts_from(ts, defs, Seq::empty(), 1, none.push(number)) == none.push(number));
    lemma_one(number);
}

/// A number holds exactly where it is not 0.
pub proof fn law_number(s: Text, defs: Definitions)
    requires
        is_decimal(s),
        s[0] != '0' || s.len() == 1,
        decimal_value(s) <= i64::MAX,
    ensures
        se::eval_preprocessor_expr(s, defs) == (decimal_value(s) != 0),
{
    let number = Part::Number(decimal_value(s) as i64);
    let ts = seq![Token::Part(number)];
    let words = seq![s];
    lemma_decimal(s);
    law_tokens(words, ts);
    assert(st::join(words, seq![' ']) == s) by {
        assert(words[0] == s);
    }
    let none = Seq::<Part>::empty();
    assert(se::parts_from(ts, defs, Seq::empty(), 1, none.push(number)) == none.push(number));
    lemma_one(number);
}

// ---------------------------------------------------------------------------
// Operators
// ---------------------------------------------------------------------------

/// What the operators make of two values: of truths, of orders, of sums,
/// differences, products and quotients.
pub proof fn law_apply(a: i64, b: i64)
    ensures
        (se::apply(Operator::LogicalOr, a, b) != 0) == (a != 0 || b != 0),
        (se::apply(Operator::LogicalAnd, a, b) != 0) == (a != 0 && b != 0),
        (se::apply(Operator::Equal, a, b) != 0) == (a == b),
        (se::apply(Operator::NotEqual, a, b) != 0) == (a != b),
        (se::apply(Operator::Less, a, b) != 0) == (a < b),
        (se::apply(Operator::Greater, a, b) != 0) == (b < a),
        (se::apply(Operator::LessOrEqual, a, b) != 0) == (a <= b),
        (se::apply(Operator::GreaterOrEqual, a, b) != 0) == (b <= a),
        i64::MIN <= a + b <= i64::MAX ==> se::apply(Operator::Add, a, b) == a + b,
        i64::MIN <= a - b <= i64::MAX ==> se::apply(Operator::Subtract, a, b) == a - b,
        i64::MIN <= a * b <= i64::MAX ==> se::apply(Operator::Multiply, a, b) == a * b,
        a >= 0 && b > 0 ==> se::apply(Operator::Divide, a, b) == a as int / b as int,
        a >= 0 && b > 0 ==> se::apply(Operator::Remainder, a, b) == a as int % b as int,
        b == 0 ==> se::apply(Operator::Divide, a, b) == 0 && se::apply(Operator::Remainder, a, b)
            == 0,
        se::apply(Operator::Or, a, b) == a | b,
        se::apply(Operator::And, a, b) == a & b,
        se::apply(Operator::Xor, a, b) == a ^ b,
        0 <= b < 64 ==> se::apply(Operator::ShiftLeft, a, b) == a << (b as u32),
        0 <= b < 64 ==> se::apply(Operator::ShiftRight, a, b) == a >> (b as u32),
        (se::apply_before(Operator::Not, a) == Some(1i64)) == (a == 0),
        (se::apply_before(Operator::Not, a) == Some(0i64)) == (a != 0),
        a > i64::MIN ==> se::apply_before(Operator::Subtract, a) == Some((-a) as i64),
        se::apply_before(Operator::Add, a) == Some(a),
        se::apply_before(Operator::Complement, a) == Some(!a),
{
    if a >= 0 && b > 0 {
        let x = a as int;
        let d = b as int;
        assert(0 <= x % d < d && (x == 0 ==> x % d == 0)) by (nonlinear_arith)
            requires
                x >= 0,
                d > 0,
        ;
    }
}

/// How tightly an operator binds: `||` the least, then `&&`, `|`, `^`, `&`,
/// equality, order, shifts, sums, and products the most.
pub open spec fn level(op: Operator) -> int {
    match op {
        Operator::LogicalOr => 1,
        Operator::LogicalAnd => 2,
        Operator::Or => 3,
        Operator::Xor => 4,
        Operator::And => 5,
        Operator::Equal => 6,
        Operator::NotEqual => 6,
        Operator::Less => 7,
        Operator::Greater => 7,
        Operator::LessOrEqual => 7,
        Operator::GreaterOrEqual => 7,
        Operator::ShiftLeft => 8,
        Operator::ShiftRight => 8,
        Operator::Add => 9,
        Operator::Subtract => 9,
        Operator::Multiply => 10,
        Operator::Divide => 10,
        Operator::Remainder => 10,
        Operator::Not => 11,
        Operator::Complement => 11,
    }
}

/// Of two operators the one that binds more tightly is applied first, and of two
/// that bind as much the first one.
pub proof fn law_precedence(a: i64, op1: Operator, b: i64, op2: Operator, c: i64)
    requires
        level(op1) <= 10,
        level(op2) <= 10,
    ensures
        ({
            let ps = seq![
                Part::Number(a),
                Part::Operator(op1),
                Part::Number(b),
                Part::Operator(op2),
                Part::Number(c),
            ];
            se::value(ps) == if level(op2) > level(op1) {
                se::apply(op1, a, se::apply(op2, b, c))
            } else {
                se::apply(op2, se::apply(op1, a, b), c)
            }
        }),
{
    let ps = seq![
        Part::Number(a),
        Part::Operator(op1),
        Part::Number(b),
        Part::Operator(op2),
        Part::Number(c),
    ];
    reveal_with_fuel(se::depth, 6);
    reveal_with_fuel(se::main_operator, 6);
    assert(ps[0] == Part::Number(a) && ps[1] == Part::Operator(op1) && ps[2] == Part::Number(b)
        && ps[3] == Part::Operator(op2) && ps[4] == Part::Number(c));
    assert(se::splits_at(ps, 1));
    assert(se::splits_at(ps, 3));
    assert(se::main_operator(ps, 1) is None);
    assert(se::main_operator(ps, 2) == Some(1int));
    assert(se::main_operator(ps, 3) == Some(1int));
    lemma_single(a);
    lemma_single(c);
    if level(op2) > level(op1) {
        assert(se::main_operator(ps, 5) == Some(1int));
        assert(ps.take(1) =~= seq![Part::Number(a)]);
        assert(ps.skip(2) =~= seq![Part::Number(b), Part::Operator(op2), Part::Number(c)]);
        law_binary(b, op2, c);
    } else {
        assert(se::main_operator(ps, 5) == Some(3int));
        assert(ps.take(3) =~= seq![Part::Number(a), Part::Operator(op1), Part::Number(b)]);
        assert(ps.skip(4) =~= seq![Part::Number(c)]);
        law_binary(a, op1, b);
    }
}

proof fn lemma_single(a: i64)
    ensures
        se::value(seq![Part::Number(a)]) == a,
{
    lemma_one(Part::Number(a));
    assert(seq![Part::Number(a)] =~= Seq::<Part>::empty().push(Part::Number(a)));
}

/// An operator between two numbers is applied to them.
pub proof fn law_binary(a: i64, op: Operator, b: i64)
    requires
        level(op) <= 10,
    ensures
        se::value(seq![Part::Number(a), Part::Operator(op), Part::Number(b)]) == se::apply(
            op,
            a,
            b,
        ),
{
    let ps = seq![Part::Number(a), Part::Operator(op), Part::Number(b)];
    reveal_with_fuel(se::depth, 4);
    reveal_with_fuel(se::main_operator, 4);
    assert(ps[0] == Part::Number(a) && ps[1] == Part::Operator(op) && ps[2] == Part::Number(b));
    assert(se::splits_at(ps, 1));
    assert(se::main_operator(ps, 1) is None);
    assert(se::main_operator(ps, 3) == Some(1int));
    assert(ps.take(1) =~= seq![Part::Number(a)]);
    assert(ps.skip(2) =~= seq![Part::Number(b)]);
    lemma_single(a);
    lemma_single(b);
}

} // verus!
