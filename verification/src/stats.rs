//! The running donation count and total that an event's overview page shows.
use vstd::prelude::*;
use crate::decimal::{spec_parse_i32, parse_i32, parse_signed};
use crate::pattern::{opt_string_view, regex_first_capture, first_capture};
use crate::scrape::ScrapeError;
use crate::text::{without_char, chars_of, remove_char};

verus! {

/// The running total and count on an event's overview page, such as
/// `Donation Total: $1,234,567.89 (12345) &mdash;`.
pub open spec fn stats_pattern() -> Seq<char> {
    "Donation Total:\\s*\\$(?P<total>[\\d,]+)(?:[.\\d]+)?\\s*\\((?P<count>\\d+)\\)\\s*\\&mdash;"@
}

/// The count and the total (whole dollars) from the captured texts: each is
/// read as an `i32` once its `,` separators are taken out. A missing capture
/// comes first, then the total, then the count.
pub open spec fn spec_stats(total: Option<Seq<char>>, count: Option<Seq<char>>) -> Result<(i32, i32), ScrapeError> {
    match total {
        None => Err(ScrapeError::Pattern),
        Some(t) => match count {
            None => Err(ScrapeError::Pattern),
            Some(c) => match spec_parse_i32(without_char(t, ',')) {
                None => Err(ScrapeError::Number),
                Some(tv) => match spec_parse_i32(without_char(c, ',')) {
                    None => Err(ScrapeError::Number),
                    Some(cv) => Ok((cv, tv)),
                },
            },
        },
    }
}

/// The count and the total are the decimal values of the captured texts once
/// their `,` separators are out, whatever their size within `i32`: the texts
/// read as a count and a total exactly when both are `i32` numerals, and then
/// as those numerals' values.
pub proof fn law_stats_are_decimal_values(t: Seq<char>, c: Seq<char>)
    ensures
        spec_stats(Some(t), Some(c)) matches Ok((cv, tv)) ==> (parse_signed(
            without_char(c, ','),
            i32::MIN as int,
            i32::MAX as int,
        ) == Some(cv as int) && parse_signed(without_char(t, ','), i32::MIN as int, i32::MAX as int)
            == Some(tv as int)),
        parse_signed(without_char(t, ','), i32::MIN as int, i32::MAX as int) matches Some(tv) ==> (
        parse_signed(without_char(c, ','), i32::MIN as int, i32::MAX as int) matches Some(cv)
            ==> spec_stats(Some(t), Some(c)) == Ok::<(i32, i32), ScrapeError>((cv as i32, tv as i32))),
{
}

/// Reads the count and the total from the captured texts (`None` where the
/// pattern captured nothing).
pub fn donation_stats_from_captures(total: Option<String>, count: Option<String>) -> (res: Result<(i32, i32), ScrapeError>)
    ensures
        res == spec_stats(opt_string_view(total), opt_string_view(count)),
        res matches Ok((cv, tv)) ==> (opt_string_view(total) matches Some(t) && opt_string_view(
            count,
        ) matches Some(c) && parse_signed(without_char(c, ','), i32::MIN as int, i32::MAX as int)
            == Some(cv as int) && parse_signed(without_char(t, ','), i32::MIN as int, i32::MAX as int)
            == Some(tv as int)),
        opt_string_view(total) matches Some(t) ==> (opt_string_view(count) matches Some(c) ==> (
        parse_signed(without_char(t, ','), i32::MIN as int, i32::MAX as int) matches Some(tv) ==> (
        parse_signed(without_char(c, ','), i32::MIN as int, i32::MAX as int) matches Some(cv)
            ==> res == Ok::<(i32, i32), ScrapeError>((cv as i32, tv as i32))))),
{
    let t = match total {
        None => {
            return Err(ScrapeError::Pattern);
        },
        Some(t) => t,
    };
    let c = match count {
        None => {
            return Err(ScrapeError::Pattern);
        },
        Some(c) => c,
    };
    let tc = chars_of(t.as_str());
    let tv = match parse_i32(&remove_char(&tc, ',')) {
        None => {
            return Err(ScrapeError::Number);
        },
        Some(v) => v,
    };
    let cc = chars_of(c.as_str());
    let cv = match parse_i32(&remove_char(&cc, ',')) {
        None => {
            return Err(ScrapeError::Number);
        },
        Some(v) => v,
    };
    Ok((cv, tv))
}

/// Reads the donation count and total (whole dollars) from the text of an
/// event's overview page.
pub fn get_current_donation_stats(page: &str) -> (res: Result<(i32, i32), ScrapeError>)
    ensures
        res == spec_stats(
            regex_first_capture(stats_pattern(), "total"@, page@),
            regex_first_capture(stats_pattern(), "count"@, page@),
        ),
{
    let total = first_capture(
        "Donation Total:\\s*\\$(?P<total>[\\d,]+)(?:[.\\d]+)?\\s*\\((?P<count>\\d+)\\)\\s*\\&mdash;",
        "total",
        page,
    );
    let count = first_capture(
        "Donation Total:\\s*\\$(?P<total>[\\d,]+)(?:[.\\d]+)?\\s*\\((?P<count>\\d+)\\)\\s*\\&mdash;",
        "count",
        page,
    );
    donation_stats_from_captures(total, count)
}

} // verus!
