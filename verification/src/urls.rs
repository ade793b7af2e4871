//! The addresses of the tracker's pages.
use vstd::prelude::*;
use crate::decimal::{nat_digits, u64_to_decimal, spec_parse_u32, law_u32_decimal_round_trip};

verus! {

/// The address of the first page of an event's donation list.
pub open spec fn spec_donation_list_url(event_id: Seq<char>) -> Seq<char> {
    "https://gamesdonequick.com/tracker/donations/"@ + event_id
}

/// The address of page `page_id` of an event's donation list.
pub open spec fn spec_donation_list_page_url(event_id: Seq<char>, page_id: u32) -> Seq<char> {
    spec_donation_list_url(event_id) + "?page="@ + nat_digits(page_id as nat)
}

/// The address of a donation's own page.
pub open spec fn spec_donation_page_url(donation_id: u32) -> Seq<char> {
    "https://gamesdonequick.com/tracker/donation/"@ + nat_digits(donation_id as nat)
}

/// The address of an event's overview page, which shows its running total.
pub open spec fn spec_event_index_url(event_id: Seq<char>) -> Seq<char> {
    "https://gamesdonequick.com/tracker/index/"@ + event_id
}

/// The number written at the end of an address reads back as the page or the
/// donation it names, after the event's list address and `?page=`, or after
/// the tracker's donation path.
pub proof fn law_addresses_name_their_page(event_id: Seq<char>, page_id: u32, donation_id: u32)
    ensures
        spec_donation_list_page_url(event_id, page_id).take(
            (spec_donation_list_url(event_id) + "?page="@).len() as int,
        ) == spec_donation_list_url(event_id) + "?page="@,
        spec_parse_u32(
            spec_donation_list_page_url(event_id, page_id).skip(
                (spec_donation_list_url(event_id) + "?page="@).len() as int,
            ),
        ) == Some(page_id),
        spec_donation_page_url(donation_id).take(
            "https://gamesdonequick.com/tracker/donation/"@.len() as int,
        ) == "https://gamesdonequick.com/tracker/donation/"@,
        spec_parse_u32(
            spec_donation_page_url(donation_id).skip(
                "https://gamesdonequick.com/tracker/donation/"@.len() as int,
            ),
        ) == Some(donation_id),
{
    law_u32_decimal_round_trip(page_id);
    law_u32_decimal_round_trip(donation_id);
    let pre = spec_donation_list_url(event_id) + "?page="@;
    assert(spec_donation_list_page_url(event_id, page_id) == pre + nat_digits(page_id as nat));
    assert((pre + nat_digits(page_id as nat)).take(pre.len() as int) == pre);
    assert((pre + nat_digits(page_id as nat)).skip(pre.len() as int) == nat_digits(page_id as nat));
    let dp = "https://gamesdonequick.com/tracker/donation/"@;
    assert((dp + nat_digits(donation_id as nat)).take(dp.len() as int) == dp);
    assert((dp + nat_digits(donation_id as nat)).skip(dp.len() as int) == nat_digits(donation_id as nat));
}

/// The address of the first page of an event's donation list.
pub fn donation_list_url(event_id: &str) -> (res: String)
    ensures
        res@ == spec_donation_list_url(event_id@),
{
    let mut s = String::from_str("https://gamesdonequick.com/tracker/donations/");
    s.append(event_id);
    s
}

/// The address of page `page_id` of an event's donation list.
pub fn donation_list_page_url(event_id: &str, page_id: u32) -> (res: String)
    ensures
        res@ == spec_donation_list_page_url(event_id@, page_id),
{
    let mut s = donation_list_url(event_id);
    s.append("?page=");
    let n = u64_to_decimal(page_id as u64);
    s.append(n.as_str());
    s
}

/// The address of a donation's own page.
pub fn donation_page_url(donation_id: u32) -> (res: String)
    ensures
        res@ == spec_donation_page_url(donation_id),
{
    let mut s = String::from_str("https://gamesdonequick.com/tracker/donation/");
    let n = u64_to_decimal(donation_id as u64);
    s.append(n.as_str());
    s
}

/// The address of an event's overview page.
pub fn event_index_url(event_id: &str) -> (res: String)
    ensures
        res@ == spec_event_index_url(event_id@),
{
    let mut s = String::from_str("https://gamesdonequick.com/tracker/index/");
    s.append(event_id);
    s
}

} // verus!
