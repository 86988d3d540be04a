//! Slot numbers as decimal text.

use vstd::prelude::*;

verus! {

/// The ASCII code of the decimal digit `d`.
pub open spec fn digit_code(d: int) -> u8 {
    (48 + d) as u8
}

/// The decimal text of `n`: no sign, no leading zero, `0` for zero.
pub open spec fn decimal(n: nat) -> Seq<u8>
    decreases n,
{
    if n < 10 {
        seq![digit_code(n as int)]
    } else {
        decimal(n / 10).push(digit_code((n % 10) as int))
    }
}

/// Every code of `text` is a decimal digit.
pub open spec fn is_digits(text: Seq<u8>) -> bool {
    forall|i: int| 0 <= i < text.len() ==> 48 <= #[trigger] text[i] <= 57
}

/// The number that a run of decimal digits stands for; leading zeros count
/// for nothing.
pub open spec fn digits_value(text: Seq<u8>) -> nat
    decreases text.len(),
{
    if text.len() == 0 {
        0
    } else {
        digits_value(text.drop_last()) * 10 + (text.last() - 48) as nat
    }
}

/// The text without one leading `+`, if it has one.
pub open spec fn without_plus(text: Seq<u8>) -> Seq<u8> {
    if text.len() > 0 && text[0] == 43 {
        text.skip(1)
    } else {
        text
    }
}

/// The slot that a text stands for: an optional `+`, then at least one
/// decimal digit and nothing else, with a value that fits in 64 bits.
pub open spec fn slot_of_text(text: Seq<u8>) -> Option<u64> {
    let digits = without_plus(text);
    if digits.len() > 0 && is_digits(digits) && digits_value(digits) <= u64::MAX {
        Some(digits_value(digits) as u64)
    } else {
        None
    }
}

/// A run of digits is worth at least as much as any of its prefixes.
pub proof fn lemma_digits_value_prefix(text: Seq<u8>, k: int)
    requires
        is_digits(text),
        0 <= k <= text.len(),
    ensures
        digits_value(text.take(k)) <= digits_value(text),
    decreases text.len(),
{
    if k == text.len() {
        assert(text.take(k) =~= text);
    } else {
        let shorter = text.drop_last();
        assert(is_digits(shorter));
        lemma_digits_value_prefix(shorter, k);
        assert(shorter.take(k) =~= text.take(k));
    }
}

/// The decimal text of a number is a non-empty run of digits without a
/// leading `+`, and it is worth that number.
pub proof fn lemma_decimal_value(n: nat)
    ensures
        decimal(n).len() > 0,
        is_digits(decimal(n)),
        digits_value(decimal(n)) == n,
    decreases n,
{
    if n < 10 {
        let text = decimal(n);
        assert(text.drop_last() =~= Seq::<u8>::empty());
        assert(digits_value(text.drop_last()) == 0);
    } else {
        lemma_decimal_value(n / 10);
        let text = decimal(n);
        assert(text.drop_last() =~= decimal(n / 10));
        assert(text.last() == digit_code((n % 10) as int));
    }
}

/// Reading the decimal text of a slot gives the slot back.
pub proof fn lemma_slot_round_trip(slot: u64)
    ensures
        slot_of_text(decimal(slot as nat)) == Some(slot),
{
    lemma_decimal_value(slot as nat);
    let text = decimal(slot as nat);
    assert(text[0] != 43);
}

/// Appends the decimal text of `n` to `out`.
pub fn push_decimal(out: &mut Vec<u8>, n: u64)
    ensures
        final(out)@ == old(out)@ + decimal(n as nat),
{
    let mut low_first: Vec<u8> = Vec::new();
    let mut rest: u64 = n;
    while rest >= 10
        invariant
            decimal(n as nat) == decimal(rest as nat) + Seq::new(
                low_first@.len(),
                |j: int| low_first@[low_first@.len() - 1 - j],
            ),
        decreases rest,
    {
        let ghost before = low_first@;
        let digit: u8 = 48 + (rest % 10) as u8;
        low_first.push(digit);
        assert(decimal(rest as nat) == decimal((rest / 10) as nat).push(digit));
        assert(decimal((rest / 10) as nat).push(digit) + Seq::new(
            before.len(),
            |j: int| before[before.len() - 1 - j],
        ) =~= decimal((rest / 10) as nat) + Seq::new(
            low_first@.len(),
            |j: int| low_first@[low_first@.len() - 1 - j],
        ));
        rest = rest / 10;
    }
    out.push(48 + rest as u8);
    let mut left: usize = low_first.len();
    while left > 0
        invariant
            left <= low_first@.len(),
            out@ == old(out)@ + decimal(rest as nat) + Seq::new(
                (low_first@.len() - left) as nat,
                |j: int| low_first@[low_first@.len() - 1 - j],
            ),
            decimal(n as nat) == decimal(rest as nat) + Seq::new(
                low_first@.len(),
                |j: int| low_first@[low_first@.len() - 1 - j],
            ),
            rest < 10,
        decreases left,
    {
        left = left - 1;
        out.push(low_first[left]);
    }
}

/// Reads a slot from its text, as `slot_of_text` defines it.
pub fn parse_slot(text: &[u8]) -> (res: Option<u64>)
    ensures
        res == slot_of_text(text@),
{
    let start: usize = if text.len() > 0 && text[0] == 43 {
        1
    } else {
        0
    };
    let ghost digits = without_plus(text@);
    assert(digits =~= text@.skip(start as int));
    if start == text.len() {
        return None;
    }
    let mut value: u64 = 0;
    let mut i: usize = start;
    while i < text.len()
        invariant
            start <= i <= text.len(),
            digits == text@.skip(start as int),
            digits == without_plus(text@),
            is_digits(digits.take(i - start)),
            value == digits_value(digits.take(i - start)),
        decreases text.len() - i,
    {
        let code = text[i];
        let ghost seen = digits.take(i - start);
        let ghost next = digits.take(i - start + 1);
        assert(next.drop_last() =~= seen);
        assert(next.last() == code);
        if code < 48 || code > 57 {
            assert(!is_digits(digits)) by {
                assert(digits[i - start] == code);
            }
            return None;
        }
        assert(is_digits(next)) by {
            assert forall|j: int| 0 <= j < next.len() implies 48 <= #[trigger] next[j] <= 57 by {
                if j < seen.len() {
                    assert(next[j] == seen[j]);
                }
            }
        }
        let grown = match value.checked_mul(10) {
            Some(tens) => tens.checked_add((code - 48) as u64),
            None => None,
        };
        match grown {
            Some(v) => {
                value = v;
            },
            None => {
                assert(digits_value(next) > u64::MAX);
                assert(digits_value(digits) > u64::MAX || !is_digits(digits)) by {
                    if is_digits(digits) {
                        lemma_digits_value_prefix(digits, i - start + 1);
                    }
                }
                return None;
            },
        }
        i = i + 1;
    }
    assert(digits.take(i - start) =~= digits);
    Some(value)
}

} // verus!
