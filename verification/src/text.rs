//! Decimal text of numbers, as `Display` writes them.

use vstd::prelude::*;

verus! {

/// The ASCII digit for `d` (below ten).
pub open spec fn digit_char(d: nat) -> char {
    ((d + 48) as u8) as char
}

/// Decimal numeral of `n` without leading zeros.
pub open spec fn decimal(n: nat) -> Seq<char>
    decreases n,
{
    if n < 10 {
        seq![digit_char(n)]
    } else {
        decimal(n / 10).push(digit_char(n % 10))
    }
}

/// Decimal numeral of `n`, left-padded with zeros to `width` characters.
pub open spec fn zero_padded(n: nat, width: nat) -> Seq<char> {
    let d = decimal(n);
    if d.len() >= width {
        d
    } else {
        Seq::new((width - d.len()) as nat, |i: int| '0') + d
    }
}

/// `u64::to_string`: the decimal numeral of the number.
#[verifier::external_body]
pub(crate) fn u64_text(n: u64) -> (r: String)
    ensures
        r@ == decimal(n as nat),
{
    n.to_string()
}

} // verus!

verus! {

/// Every character is an ASCII digit.
pub open spec fn all_digits(s: Seq<char>) -> bool {
    forall|i: int| 0 <= i < s.len() ==> '0' <= #[trigger] s[i] <= '9'
}

/// The number the decimal digits `s` write.
pub open spec fn digits_value(s: Seq<char>) -> nat
    decreases s.len(),
{
    if s.len() == 0 {
        0
    } else {
        digits_value(s.drop_last()) * 10 + ((s.last() as u32 - '0' as u32) as nat)
    }
}

/// The digits of a decimal number after an optional leading `+`.
pub open spec fn unsigned_digits(s: Seq<char>) -> Seq<char> {
    if s.len() > 0 && s[0] == '+' {
        s.drop_first()
    } else {
        s
    }
}

/// The number `s` writes in decimal, when it writes one no larger than `max`.
pub open spec fn parsed_unsigned(s: Seq<char>, max: nat) -> Option<nat> {
    let t = unsigned_digits(s);
    if t.len() > 0 && all_digits(t) && digits_value(t) <= max {
        Some(digits_value(t))
    } else {
        None
    }
}

/// The text of the error with which reading `s` as a `u64` fails.
pub uninterp spec fn u64_parse_error_text(s: Seq<char>) -> Seq<char>;

/// `str::parse::<u64>`: reads a decimal number, optionally led by `+`;
/// fails on anything else and on numbers above `u64::MAX`.
#[verifier::external_body]
pub(crate) fn parse_u64(s: &str) -> (r: Result<u64, String>)
    ensures
        match r {
            Ok(n) => parsed_unsigned(s@, u64::MAX as nat) == Some(n as nat),
            Err(e) => parsed_unsigned(s@, u64::MAX as nat) is None && e@ == u64_parse_error_text(s@),
        },
{
    s.parse::<u64>().map_err(|e| e.to_string())
}

/// `str::parse::<u128>`: reads a decimal number, optionally led by `+`;
/// fails on anything else and on numbers above `u128::MAX`.
#[verifier::external_body]
pub(crate) fn parse_u128(s: &str) -> (r: Option<u128>)
    ensures
        match r {
            Some(n) => parsed_unsigned(s@, u128::MAX as nat) == Some(n as nat),
            None => parsed_unsigned(s@, u128::MAX as nat) is None,
        },
{
    s.parse::<u128>().ok()
}

} // verus!
