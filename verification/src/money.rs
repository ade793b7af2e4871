//! Amounts of money in cents: how they are written for people, and how they
//! are read from the tracker's text.
use vstd::prelude::*;
use crate::decimal::{int_decimal, nat_digits, parse_signed, spec_parse_i64, parse_i64, push_i64_decimal};
use crate::text::{trimmed, without_char, chars_of, trim_chars, remove_char, push_char};

verus! {

/// `a / b` as Rust computes it on integers: rounded toward zero.
pub open spec fn trunc_div(a: int, b: int) -> int {
    if a >= 0 { a / b } else { -((-a) / b) }
}

/// `a % b` as Rust computes it on integers: the sign follows `a`.
pub open spec fn trunc_rem(a: int, b: int) -> int {
    a - b * trunc_div(a, b)
}

/// Dividing by a positive `b` as Rust does rounds toward zero: what is left
/// over is smaller than `b` and has the sign of `a`.
pub proof fn law_division_rounds_toward_zero(a: int, b: int)
    requires
        b > 0,
    ensures
        a == b * trunc_div(a, b) + trunc_rem(a, b),
        a >= 0 ==> 0 <= trunc_rem(a, b) < b,
        a < 0 ==> -b < trunc_rem(a, b) <= 0,
{
    if a >= 0 {
        assert(0 <= a - b * (a / b) < b) by (nonlinear_arith)
            requires
                a >= 0,
                b > 0,
        ;
    } else {
        assert(0 <= (-a) - b * ((-a) / b) < b) by (nonlinear_arith)
            requires
                a < 0,
                b > 0,
        ;
        assert(b * (-((-a) / b)) == -(b * ((-a) / b))) by (nonlinear_arith);
    }
}

/// `format!("${}.{}", amount / 100, amount % 100)`: the dollars and the cents,
/// the cents not padded to two digits.
pub open spec fn dollars_text(amount: int) -> Seq<char> {
    seq!['$'] + int_decimal(trunc_div(amount, 100)) + seq!['.'] + int_decimal(trunc_rem(amount, 100))
}

/// Writes an amount in cents as dollars and cents.
pub fn format_dollars(amount: i64) -> (res: String)
    ensures
        res@ == dollars_text(amount as int),
        amount >= 0 ==> res@ == seq!['$'] + nat_digits((amount / 100) as nat) + seq!['.']
            + nat_digits((amount % 100) as nat),
{
    let (dollars, cents): (i64, i64) = if amount >= 0 {
        (amount / 100, amount % 100)
    } else {
        let m: u64 = if amount == -9223372036854775808i64 { 9223372036854775808u64 } else { (0 - amount) as u64 };
        (0 - ((m / 100) as i64), 0 - ((m % 100) as i64))
    };
    assert(dollars == trunc_div(amount as int, 100));
    assert(cents == trunc_rem(amount as int, 100));
    let mut s = String::new();
    push_char(&mut s, '$');
    push_i64_decimal(&mut s, dollars);
    push_char(&mut s, '.');
    push_i64_decimal(&mut s, cents);
    assert(s@ == dollars_text(amount as int));
    proof {
        if amount >= 0 {
            law_dollars_text_of_non_negative(amount as int);
        }
    }
    s
}

/// The amount in a cell of the donation list, such as `$1,234.56`: the text
/// trimmed, with every `$`, `,` and `.` taken out, read as an `i64` of cents.
pub open spec fn cell_amount(text: Seq<char>) -> Option<i64> {
    spec_parse_i64(without_char(without_char(without_char(trimmed(text), '$'), ','), '.'))
}

/// The amount captured from a donation page, such as `1,234.56`: every `,` and
/// `.` taken out, read as an `i64` of cents.
pub open spec fn captured_amount(text: Seq<char>) -> Option<i64> {
    spec_parse_i64(without_char(without_char(text, ','), '.'))
}

/// The digits of an amount cell once the text is trimmed and its `$`, `,` and
/// `.` are taken out.
pub open spec fn cell_digits(text: Seq<char>) -> Seq<char> {
    without_char(without_char(without_char(trimmed(text), '$'), ','), '.')
}

/// The digits of a captured amount once its `,` and `.` are taken out.
pub open spec fn captured_digits(text: Seq<char>) -> Seq<char> {
    without_char(without_char(text, ','), '.')
}

/// An amount is the decimal value, in cents, of what is left of its text once
/// the separators are out, whatever its size within `i64`: the text reads as
/// an amount exactly when that is an `i64` numeral, and then as its value.
pub proof fn law_amounts_are_decimal_values(text: Seq<char>)
    ensures
        cell_amount(text) matches Some(a) ==> parse_signed(
            cell_digits(text),
            i64::MIN as int,
            i64::MAX as int,
        ) == Some(a as int),
        parse_signed(cell_digits(text), i64::MIN as int, i64::MAX as int) matches Some(v)
            ==> cell_amount(text) == Some(v as i64),
        captured_amount(text) matches Some(a) ==> parse_signed(
            captured_digits(text),
            i64::MIN as int,
            i64::MAX as int,
        ) == Some(a as int),
        parse_signed(captured_digits(text), i64::MIN as int, i64::MAX as int) matches Some(v)
            ==> captured_amount(text) == Some(v as i64),
{
}

/// Writing an amount that is not negative gives `$`, the whole dollars, `.`
/// and the remaining cents, each in plain decimal.
pub proof fn law_dollars_text_of_non_negative(amount: int)
    requires
        amount >= 0,
    ensures
        dollars_text(amount) == seq!['$'] + nat_digits((amount / 100) as nat) + seq!['.']
            + nat_digits((amount % 100) as nat),
{
}

/// Reads the amount of a cell of the donation list, in cents.
pub fn parse_donation_amount(text: &str) -> (res: Option<i64>)
    ensures
        res == cell_amount(text@),
        res matches Some(a) ==> parse_signed(cell_digits(text@), i64::MIN as int, i64::MAX as int)
            == Some(a as int),
        parse_signed(cell_digits(text@), i64::MIN as int, i64::MAX as int) matches Some(v) ==> res
            == Some(v as i64),
{
    let cs = chars_of(text);
    let t = trim_chars(&cs);
    let a = remove_char(&t, '$');
    let b = remove_char(&a, ',');
    let c = remove_char(&b, '.');
    parse_i64(&c)
}

/// Reads an amount captured from a donation page, in cents.
pub fn amount_from_capture(text: &str) -> (res: Option<i64>)
    ensures
        res == captured_amount(text@),
        res matches Some(a) ==> parse_signed(captured_digits(text@), i64::MIN as int, i64::MAX as int)
            == Some(a as int),
        parse_signed(captured_digits(text@), i64::MIN as int, i64::MAX as int) matches Some(v)
            ==> res == Some(v as i64),
{
    let cs = chars_of(text);
    let a = remove_char(&cs, ',');
    let b = remove_char(&a, '.');
    parse_i64(&b)
}

} // verus!
