//! Numbers in messages.

use vstd::prelude::*;

verus! {

/// The digit that stands for a number below ten.
pub open spec fn digit(value: nat) -> char {
    (48 + value) as char
}

/// A number in decimal notation, without leading zeros.
pub open spec fn decimal(value: nat) -> Seq<char>
    decreases value,
{
    if value < 10 {
        seq![digit(value)]
    } else {
        decimal(value / 10).push(digit(value % 10))
    }
}

/// A number reads back from its digits, of which the first is no zero unless
/// the number is.
pub proof fn decimals_read_back(value: nat)
    ensures
        decimal(value).fold_left(0int, |read: int, digit: char| read * 10 + (digit as int - 48))
            == value,
        forall|i: int|
            0 <= i < decimal(value).len() ==> '0' <= #[trigger] decimal(value)[i] <= '9',
        decimal(value).len() > 0,
        value > 0 ==> decimal(value)[0] != '0',
    decreases value,
{
    let read = |read: int, digit: char| read * 10 + (digit as int - 48);
    let digits = decimal(value);
    if value < 10 {
        assert(digits.drop_last().len() == 0);
        assert(digits.drop_last().fold_left(0int, read) == 0);
        assert(digits.last() == digit(value));
    } else {
        decimals_read_back(value / 10);
        assert(digits.drop_last() == decimal(value / 10));
        assert(digits.last() == digit(value % 10));
        assert(digits[0] == decimal(value / 10)[0]);
    }
}

/// The digit that stands for a number below ten, as text.
fn digit_text(value: usize) -> (text: &'static str)
    requires
        value < 10,
    ensures
        text@ == seq![digit(value as nat)],
{
    proof {
        reveal_strlit("0");
        reveal_strlit("1");
        reveal_strlit("2");
        reveal_strlit("3");
        reveal_strlit("4");
        reveal_strlit("5");
        reveal_strlit("6");
        reveal_strlit("7");
        reveal_strlit("8");
        reveal_strlit("9");
    }
    if value == 0 {
        "0"
    } else if value == 1 {
        "1"
    } else if value == 2 {
        "2"
    } else if value == 3 {
        "3"
    } else if value == 4 {
        "4"
    } else if value == 5 {
        "5"
    } else if value == 6 {
        "6"
    } else if value == 7 {
        "7"
    } else if value == 8 {
        "8"
    } else {
        "9"
    }
}

/// Appends a number in decimal notation.
pub fn append_decimal(text: &mut String, value: usize)
    ensures
        final(text)@ == old(text)@ + decimal(value as nat),
    decreases value,
{
    if value >= 10 {
        append_decimal(text, value / 10);
    }
    text.append(digit_text(value % 10));
}

} // verus!
