//! Natural numbers as decimal text.

use vstd::prelude::*;

verus! {

/// Whether `c` is one of the ten digits.
pub open spec fn is_digit(c: char) -> bool {
    '0' <= c <= '9'
}

/// The number that the digit `c` stands for.
pub open spec fn digit_value(c: char) -> nat {
    (c as u32 - '0' as u32) as nat
}

/// The digit that stands for `d`, a number below ten.
pub open spec fn digit_char(d: nat) -> char {
    if d == 0 {
        '0'
    } else if d == 1 {
        '1'
    } else if d == 2 {
        '2'
    } else if d == 3 {
        '3'
    } else if d == 4 {
        '4'
    } else if d == 5 {
        '5'
    } else if d == 6 {
        '6'
    } else if d == 7 {
        '7'
    } else if d == 8 {
        '8'
    } else {
        '9'
    }
}

/// `n` in decimal digits, without leading zeros.
pub open spec fn decimal(n: nat) -> Seq<char>
    decreases n,
{
    if n < 10 {
        seq![digit_char(n)]
    } else {
        decimal(n / 10).push(digit_char(n % 10))
    }
}

/// Every character of `text` is a digit.
pub open spec fn all_digits(text: Seq<char>) -> bool {
    forall|i: int| 0 <= i < text.len() ==> is_digit(#[trigger] text[i])
}

/// The number that the digits `text` stand for.
pub open spec fn digits_value(text: Seq<char>) -> nat
    decreases text.len(),
{
    if text.len() == 0 {
        0
    } else {
        digits_value(text.drop_last()) * 10 + digit_value(text.last())
    }
}

/// The number that `text` stands for, if `text` is digits and nothing else.
pub open spec fn parse_decimal(text: Seq<char>) -> Option<nat> {
    if text.len() > 0 && all_digits(text) {
        Some(digits_value(text))
    } else {
        None
    }
}

/// The number that `text` stands for, if it is one that 64 bits hold.
pub open spec fn parse_u64_text(text: Seq<char>) -> Option<u64> {
    match parse_decimal(text) {
        Some(n) if n <= u64::MAX => Some(n as u64),
        _ => None,
    }
}

/// A digit stands for the number it was made from.
pub proof fn lemma_digit_char(d: nat)
    requires
        d < 10,
    ensures
        is_digit(digit_char(d)),
        digit_value(digit_char(d)) == d,
{
}

/// Reading what was written gives the number back.
pub proof fn lemma_decimal_parses(n: nat)
    ensures
        decimal(n).len() > 0,
        all_digits(decimal(n)),
        digits_value(decimal(n)) == n,
        parse_decimal(decimal(n)) == Some(n),
    decreases n,
{
    lemma_digit_char(n % 10);
    if n < 10 {
        let text = decimal(n);
        assert(text.drop_last() == Seq::<char>::empty());
        assert(digits_value(text.drop_last()) == 0);
    } else {
        lemma_decimal_parses(n / 10);
        let head = decimal(n / 10);
        let text = head.push(digit_char(n % 10));
        assert(text.drop_last() == head);
        assert(text.last() == digit_char(n % 10));
    }
}

/// More digits never stand for less.
pub proof fn lemma_digits_value_grows(text: Seq<char>, k: int)
    requires
        0 <= k <= text.len(),
    ensures
        digits_value(text.take(k)) <= digits_value(text),
    decreases text.len() - k,
{
    if k < text.len() {
        lemma_digits_value_grows(text.drop_last(), k);
        assert(text.drop_last().take(k) == text.take(k));
    } else {
        assert(text.take(k) == text);
    }
}

fn push_decimal(n: u64, out: &mut Vec<char>)
    ensures
        final(out)@ == old(out)@ + decimal(n as nat),
    decreases n,
{
    if n >= 10 {
        push_decimal(n / 10, out);
    }
    let d = n % 10;
    let c = if d == 0 {
        '0'
    } else if d == 1 {
        '1'
    } else if d == 2 {
        '2'
    } else if d == 3 {
        '3'
    } else if d == 4 {
        '4'
    } else if d == 5 {
        '5'
    } else if d == 6 {
        '6'
    } else if d == 7 {
        '7'
    } else if d == 8 {
        '8'
    } else {
        '9'
    };
    out.push(c);
    proof {
        if n >= 10 {
            assert(final(out)@ == old(out)@ + decimal((n / 10) as nat).push(c));
        } else {
            assert(final(out)@ == old(out)@ + seq![c]);
        }
    }
}

/// `n` in decimal digits.
pub fn decimal_chars(n: u64) -> (text: Vec<char>)
    ensures
        text@ == decimal(n as nat),
{
    let mut text: Vec<char> = Vec::new();
    push_decimal(n, &mut text);
    assert(Seq::<char>::empty() + decimal(n as nat) == decimal(n as nat));
    text
}

/// The number that `text` stands for: `text` must be digits and nothing
/// else, and the number one that 64 bits hold.
pub fn parse_u64(text: &Vec<char>) -> (number: Option<u64>)
    ensures
        number == parse_u64_text(text@),
{
    if text.len() == 0 {
        return None;
    }
    let mut value: u64 = 0;
    let mut i: usize = 0;
    while i < text.len()
        invariant
            i <= text.len(),
            all_digits(text@.take(i as int)),
            value == digits_value(text@.take(i as int)),
        decreases text.len() - i,
    {
        let c = text[i];
        if !('0' <= c && c <= '9') {
            assert(!is_digit(text@[i as int]));
            return None;
        }
        let d: u64 = (c as u32 - '0' as u32) as u64;
        proof {
            let longer = text@.take(i + 1);
            assert(longer.drop_last() == text@.take(i as int));
            assert(longer.last() == c);
            assert(all_digits(longer)) by {
                assert forall|j: int| 0 <= j < longer.len() implies is_digit(
                    #[trigger] longer[j],
                ) by {
                    if j < i {
                        assert(longer[j] == text@.take(i as int)[j]);
                    }
                }
            }
            assert(digits_value(longer) == value * 10 + d);
            lemma_digits_value_grows(text@, i + 1);
        }
        if value > (u64::MAX - d) / 10 {
            proof {
                assert(value * 10 + d > u64::MAX) by (nonlinear_arith)
                    requires
                        value > (u64::MAX - d) / 10,
                        d <= 9,
                ;
                if all_digits(text@) {
                    assert(digits_value(text@) > u64::MAX);
                }
            }
            return None;
        }
        assert(value * 10 + d <= u64::MAX) by (nonlinear_arith)
            requires
                value <= (u64::MAX - d) / 10,
                d <= 9,
        ;
        value = value * 10 + d;
        i += 1;
    }
    assert(text@.take(text.len() as int) == text@);
    Some(value)
}

} // verus!
