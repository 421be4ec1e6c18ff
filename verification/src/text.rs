//! Text building blocks shared by every renderer of the crate.

use vstd::prelude::*;

verus! {

/// Compares two texts with `<str as PartialEq>::eq`.
///
/// The contract says what the standard library documents for it: the result
/// is `true` exactly when both texts hold the same characters.
#[verifier::external_body]
pub(crate) fn same_text(left: &str, right: &str) -> (same: bool)
    ensures
        same == (left@ == right@),
{
    left == right
}

/// The character of one decimal digit.
pub open spec fn digit(value: int) -> char {
    (48 + value) as char
}

/// The decimal digits of a number, most significant first.
pub open spec fn decimal(value: nat) -> Seq<char>
    decreases value,
{
    if value < 10 {
        seq![digit(value as int)]
    } else {
        decimal(value / 10).push(digit((value % 10) as int))
    }
}

/// Appends one decimal digit.
fn push_digit(out: &mut String, value: u64)
    requires
        value < 10,
    ensures
        final(out)@ == old(out)@.push(digit(value as int)),
{
    proof {
        reveal_strlit("0");
        reveal_strlit("1");
        reveal_strlit("2");
        reveal_strlit("3");
        reveal_strlit("4");
        reveal_strlit("5");
        reveal_strlit("6");
        reveal_strlit("7");
        reveal_strlit("8");
        reveal_strlit("9");
    }
    if value == 0 {
        out.append("0");
    } else if value == 1 {
        out.append("1");
    } else if value == 2 {
        out.append("2");
    } else if value == 3 {
        out.append("3");
    } else if value == 4 {
        out.append("4");
    } else if value == 5 {
        out.append("5");
    } else if value == 6 {
        out.append("6");
    } else if value == 7 {
        out.append("7");
    } else if value == 8 {
        out.append("8");
    } else {
        out.append("9");
    }
    assert(out@ =~= old(out)@.push(digit(value as int)));
}

/// Appends a number in decimal.
pub(crate) fn push_decimal(out: &mut String, value: u64)
    ensures
        final(out)@ == old(out)@ + decimal(value as nat),
    decreases value,
{
    if value < 10 {
        push_digit(out, value);
    } else {
        push_decimal(out, value / 10);
        push_digit(out, value % 10);
    }
    assert(out@ =~= old(out)@ + decimal(value as nat));
}

/// The number that decimal digits stand for.
pub open spec fn number(digits: Seq<char>) -> int
    decreases digits.len(),
{
    if digits.len() == 0 {
        0
    } else {
        10 * number(digits.drop_last()) + (digits.last() as int - '0' as int)
    }
}

/// The decimal digits of a number are digits, stand for that number, and begin with a zero for
/// zero alone.
pub proof fn lemma_decimal_digits_stand_for_the_number(value: nat)
    ensures
        number(decimal(value)) == value,
        decimal(value).len() > 0,
        forall|i: int|
            0 <= i < decimal(value).len() ==> '0' <= (#[trigger] decimal(value)[i]) <= '9',
        decimal(value)[0] == '0' <==> value == 0,
    decreases value,
{
    let digits = decimal(value);
    if value < 10 {
        assert(digits.drop_last() =~= Seq::<char>::empty());
        assert(number(digits.drop_last()) == 0);
    } else {
        let front = decimal(value / 10);
        lemma_decimal_digits_stand_for_the_number(value / 10);
        assert(digits.drop_last() =~= front);
        assert(digits[0] == front[0]);
        assert forall|i: int| 0 <= i < digits.len() implies '0' <= (#[trigger] digits[i])
            <= '9' by {
            if i < front.len() {
                assert(digits[i] == front[i]);
            }
        }
    }
}

} // verus!
