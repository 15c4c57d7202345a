//! Decimal numerals: the text form of block tags and of instance indices.

use vstd::prelude::*;

verus! {

/// Whether `c` is one of the ten ASCII decimal digits.
pub open spec fn is_digit(c: char) -> bool {
    '0' <= c && c <= '9'
}

/// The number that a decimal digit stands for.
pub open spec fn digit_value(c: char) -> nat {
    (c as int - '0' as int) as nat
}

/// The decimal digit that stands for `n`, for `n` below ten.
pub open spec fn digit_char(n: nat) -> char {
    (n + '0' as nat) as char
}

/// The number that a string of decimal digits denotes, most significant digit first.
pub open spec fn numeral_value(digits: Seq<char>) -> nat
    decreases digits.len(),
{
    if digits.len() == 0 {
        0
    } else {
        numeral_value(digits.drop_last()) * 10 + digit_value(digits.last())
    }
}

/// Whether every character of `digits` is a decimal digit.
pub open spec fn all_digits(digits: Seq<char>) -> bool {
    forall|i: int| 0 <= i < digits.len() ==> is_digit(#[trigger] digits[i])
}

/// A canonical numeral: at least one digit, only digits, and no leading zero
/// unless the numeral is `0` itself.
pub open spec fn is_numeral(digits: Seq<char>) -> bool {
    &&& digits.len() >= 1
    &&& all_digits(digits)
    &&& digits.len() > 1 ==> digits[0] != '0'
}

/// Ten to the power `n`.
pub open spec fn pow10(n: nat) -> nat
    decreases n,
{
    if n == 0 {
        1
    } else {
        10 * pow10((n - 1) as nat)
    }
}

/// The canonical numeral of `n`.
pub open spec fn decimal_numeral(n: nat) -> Seq<char>
    decreases n,
{
    if n < 10 {
        seq![digit_char(n)]
    } else {
        decimal_numeral(n / 10).push(digit_char(n % 10))
    }
}

proof fn lemma_pow10_monotonic(m: nat, n: nat)
    requires
        m <= n,
    ensures
        pow10(m) <= pow10(n),
        pow10(m) >= 1,
    decreases n,
{
    if n == 0 {
    } else if m == n {
        lemma_pow10_monotonic((m - 1) as nat, (n - 1) as nat);
    } else {
        lemma_pow10_monotonic(m, (n - 1) as nat);
    }
}

proof fn lemma_value_below_pow10(digits: Seq<char>)
    requires
        all_digits(digits),
    ensures
        numeral_value(digits) < pow10(digits.len()),
    decreases digits.len(),
{
    if digits.len() > 0 {
        lemma_value_below_pow10(digits.drop_last());
    }
}

proof fn lemma_value_at_least_pow10(digits: Seq<char>)
    requires
        all_digits(digits),
        digits.len() >= 1,
        digits[0] != '0',
    ensures
        numeral_value(digits) >= pow10((digits.len() - 1) as nat),
    decreases digits.len(),
{
    if digits.len() == 1 {
        assert(digits.drop_last().len() == 0);
        assert(is_digit(digits[0]));
    } else {
        assert(digits.drop_last()[0] == digits[0]);
        lemma_value_at_least_pow10(digits.drop_last());
    }
}

proof fn lemma_equal_length_injective(a: Seq<char>, b: Seq<char>)
    requires
        all_digits(a),
        all_digits(b),
        a.len() == b.len(),
        numeral_value(a) == numeral_value(b),
    ensures
        a == b,
    decreases a.len(),
{
    if a.len() == 0 {
        assert(a =~= b);
    } else {
        assert(is_digit(a.last()) && is_digit(b.last()));
        lemma_equal_length_injective(a.drop_last(), b.drop_last());
        assert(a =~= a.drop_last().push(a.last()));
        assert(b =~= b.drop_last().push(b.last()));
    }
}

/// Two canonical numerals that denote the same number are the same text.
pub proof fn lemma_numeral_injective(a: Seq<char>, b: Seq<char>)
    requires
        is_numeral(a),
        is_numeral(b),
        numeral_value(a) == numeral_value(b),
    ensures
        a == b,
{
    if a.len() == b.len() {
        lemma_equal_length_injective(a, b);
    } else if a.len() < b.len() {
        lemma_value_below_pow10(a);
        lemma_value_at_least_pow10(b);
        lemma_pow10_monotonic(a.len(), (b.len() - 1) as nat);
    } else {
        lemma_value_below_pow10(b);
        lemma_value_at_least_pow10(a);
        lemma_pow10_monotonic(b.len(), (a.len() - 1) as nat);
    }
}

/// The canonical numeral of `n` is canonical and denotes `n`.
pub proof fn lemma_decimal_numeral(n: nat)
    ensures
        is_numeral(decimal_numeral(n)),
        numeral_value(decimal_numeral(n)) == n,
    decreases n,
{
    let text = decimal_numeral(n);
    if n < 10 {
        assert(text.drop_last().len() == 0);
        assert(numeral_value(text) == numeral_value(text.drop_last()) * 10 + digit_value(
            text.last(),
        ));
    } else {
        let head = decimal_numeral(n / 10);
        lemma_decimal_numeral(n / 10);
        assert(text.drop_last() =~= head);
        assert(text[0] == head[0]);
        if head.len() == 1 {
            assert(head.drop_last().len() == 0);
            assert(numeral_value(head.drop_last()) == 0);
            assert(head.last() == head[0]);
            assert(numeral_value(head) == digit_value(head[0]));
        }
    }
}

fn digit_text(n: usize) -> (text: &'static str)
    requires
        n < 10,
    ensures
        text@ == seq![digit_char(n as nat)],
{
    proof {
        reveal_strlit("0");
        reveal_strlit("1");
        reveal_strlit("2");
        reveal_strlit("3");
        reveal_strlit("4");
        reveal_strlit("5");
        reveal_strlit("6");
        reveal_strlit("7");
        reveal_strlit("8");
        reveal_strlit("9");
    }
    let text: &'static str = match n {
        0 => "0",
        1 => "1",
        2 => "2",
        3 => "3",
        4 => "4",
        5 => "5",
        6 => "6",
        7 => "7",
        8 => "8",
        _ => "9",
    };
    assert(text@ =~= seq![digit_char(n as nat)]);
    text
}

/// Writes `n` in decimal.
pub fn decimal_text(n: usize) -> (text: String)
    ensures
        text@ == decimal_numeral(n as nat),
    decreases n,
{
    if n < 10 {
        digit_text(n).to_owned()
    } else {
        let mut text = decimal_text(n / 10);
        text.append(digit_text(n % 10));
        assert(text@ =~= decimal_numeral((n / 10) as nat).push(digit_char((n % 10) as nat)));
        text
    }
}

} // verus!
