//! Text: comparison, decimal numbers and the messages of errors.

use vstd::prelude::*;

use crate::bytes::bytes_eq;
use crate::types::Modeled;

verus! {

/// Compares two strings.
pub fn str_eq(a: &str, b: &str) -> (r: bool)
    ensures
        r == (a@ == b@),
{
    let r = bytes_eq(a.as_bytes(), b.as_bytes());
    proof {
        vstd::utf8::encode_utf8_decode_utf8(a@);
        vstd::utf8::encode_utf8_decode_utf8(b@);
    }
    r
}

/// Copies an optional string.
pub fn copy_optional_text(value: &Option<String>) -> (r: Option<String>)
    ensures
        r.model() == value.model(),
{
    match value {
        Some(text) => Some(text.clone()),
        None => None,
    }
}

/// The decimal digit of a number below ten.
pub open spec fn digit(n: nat) -> Seq<char> {
    if n == 0 {
        "0"@
    } else if n == 1 {
        "1"@
    } else if n == 2 {
        "2"@
    } else if n == 3 {
        "3"@
    } else if n == 4 {
        "4"@
    } else if n == 5 {
        "5"@
    } else if n == 6 {
        "6"@
    } else if n == 7 {
        "7"@
    } else if n == 8 {
        "8"@
    } else {
        "9"@
    }
}

/// The decimal digits of a natural number, without leading zeros.
pub open spec fn digits(n: nat) -> Seq<char>
    decreases n,
{
    if n < 10 {
        digit(n)
    } else {
        digits(n / 10) + digit(n % 10)
    }
}

/// A number in decimal notation.
pub open spec fn decimal(n: int) -> Seq<char> {
    if n < 0 {
        "-"@ + digits((-n) as nat)
    } else {
        digits(n as nat)
    }
}

/// A list of numbers as it is shown in messages: `[1, 2, 3]`.
pub open spec fn decimal_list(values: Seq<u64>) -> Seq<char> {
    "["@ + comma_separated(values) + "]"@
}

/// Numbers in decimal notation, separated by a comma and a space.
pub open spec fn comma_separated(values: Seq<u64>) -> Seq<char>
    decreases values.len(),
{
    if values.len() == 0 {
        Seq::empty()
    } else if values.len() == 1 {
        decimal(values[0] as int)
    } else {
        comma_separated(values.drop_last()) + ", "@ + decimal(values.last() as int)
    }
}

/// A number below ten has its one digit, and any other number the digits of its
/// tenth part, and behind them that of the rest; a negative number has a sign
/// before the digits of its opposite.
pub proof fn law_decimal_notation(n: nat)
    ensures
        n < 10 ==> decimal(n as int).len() == 1 && decimal(n as int)[0] as int == '0' as int + n,
        n >= 10 ==> decimal(n as int) == decimal((n / 10) as int) + decimal((n % 10) as int),
        n > 0 ==> decimal(-(n as int)) == seq!['-'] + decimal(n as int),
{
    reveal_strlit("0");
    reveal_strlit("1");
    reveal_strlit("2");
    reveal_strlit("3");
    reveal_strlit("4");
    reveal_strlit("5");
    reveal_strlit("6");
    reveal_strlit("7");
    reveal_strlit("8");
    reveal_strlit("9");
    reveal_strlit("-");
    assert("-"@ =~= seq!['-']);
}

/// Numbers are listed in brackets, in their order, with a comma and a space
/// between them.
pub proof fn law_decimal_list_notation(values: Seq<u64>, value: u64)
    ensures
        decimal_list(Seq::empty()) == seq!['[', ']'],
        decimal_list(seq![value]) == seq!['['] + decimal(value as int) + seq![']'],
        values.len() > 0 ==> decimal_list(values.push(value)) == decimal_list(values).drop_last()
            + seq![',', ' '] + decimal(value as int) + seq![']'],
{
    reveal_strlit("[");
    reveal_strlit("]");
    reveal_strlit(", ");
    assert("["@ =~= seq!['[']);
    assert("]"@ =~= seq![']']);
    assert(", "@ =~= seq![',', ' ']);
    assert(decimal_list(Seq::empty()) =~= seq!['[', ']']);
    let more = values.push(value);
    assert(more.drop_last() =~= values);
    if values.len() > 0 {
        assert(decimal_list(values).drop_last() =~= seq!['['] + comma_separated(values));
        assert(decimal_list(more) =~= decimal_list(values).drop_last() + seq![',', ' '] + decimal(
            value as int,
        ) + seq![']']);
    }
}

fn digit_text(n: u128) -> (r: &'static str)
    requires
        n < 10,
    ensures
        r@ == digit(n as nat),
{
    if n == 0 {
        "0"
    } else if n == 1 {
        "1"
    } else if n == 2 {
        "2"
    } else if n == 3 {
        "3"
    } else if n == 4 {
        "4"
    } else if n == 5 {
        "5"
    } else if n == 6 {
        "6"
    } else if n == 7 {
        "7"
    } else if n == 8 {
        "8"
    } else {
        "9"
    }
}

fn digits_text(n: u128) -> (r: String)
    ensures
        r@ == digits(n as nat),
    decreases n,
{
    if n < 10 {
        digit_text(n).to_owned()
    } else {
        digits_text(n / 10).concat(digit_text(n % 10))
    }
}

/// Writes a number in decimal notation.
pub fn decimal_text(n: i128) -> (r: String)
    requires
        n > i128::MIN,
    ensures
        r@ == decimal(n as int),
{
    if n < 0 {
        "-".to_owned().concat(digits_text((-n) as u128).as_str())
    } else {
        digits_text(n as u128)
    }
}

/// Writes a list of numbers as it is shown in messages.
pub fn decimal_list_text(values: &[u64]) -> (r: String)
    ensures
        r@ == decimal_list(values@),
{
    let mut out: String = String::new();
    let mut i: usize = 0;
    while i < values.len()
        invariant
            i <= values.len(),
            out@ == comma_separated(values@.take(i as int)),
        decreases values.len() - i,
    {
        let shown = decimal_text(values[i] as i128);
        proof {
            assert(values@.take(i + 1).drop_last() =~= values@.take(i as int));
            assert(values@.take(i + 1).last() == values@[i as int]);
        }
        if i > 0 {
            out.append(", ");
        } else {
            assert(out@ + shown@ =~= shown@);
        }
        out.append(shown.as_str());
        i += 1;
    }
    assert(values@.take(i as int) =~= values@);
    "[".to_owned().concat(out.as_str()).concat("]")
}

} // verus!
