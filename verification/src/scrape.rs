//! Reading donations out of the tracker's pages: the number of pages of the
//! donation list, the donations each page lists, and a donation's own page.
use vstd::prelude::*;
use crate::decimal::{spec_parse_u32, parse_u32, parse_unsigned, nat_digits, law_u32_decimal_round_trip};
use crate::donation::{IncompleteDonation, Donation, DonationView};
use crate::html::{PathStep, path_view, html_select_texts, html_select_attrs, select_texts, select_attrs};
use crate::money::{cell_amount, captured_amount, parse_donation_amount, amount_from_capture};
use crate::pattern::{strings_view, opt_string_view, regex_first_capture, regex_all_captures, first_capture, all_captures};
use crate::text::{trimmed, trim_start, trim_end, is_white_space, chars_of, trim_chars, chars_match, string_from_chars};
use crate::time::{Timestamp, chrono_parse_from_str, parse_datetime_with_format};

verus! {

/// Why a page of the tracker could not be read.
#[derive(Clone, Copy, Debug, PartialEq, Eq, Structural)]
pub enum ScrapeError {
    /// A pattern found nothing.
    Pattern,
    /// A number was not a decimal numeral of its type.
    Number,
    /// No page of the donation list was found.
    NoPages,
    /// A selector did not compile, or a step towards an element found none.
    Selector,
    /// An element that the page must have was missing.
    MissingElement,
    /// A link had no `href`.
    MissingHref,
    /// A date and time could not be read.
    Timestamp,
    /// A row of the donation list did not have exactly four cells.
    CellCount,
    /// The comment cell of a row said neither `Yes` nor `No`.
    CommentFlag,
}

/// The page numbers offered by the donation list's page selector.
pub open spec fn pagecount_pattern() -> Seq<char> {
    "<option>(?P<pagenum>[\\d]+)</option>"@
}

/// A link to a donor's page, the donor's id in the group `donor_id`.
pub open spec fn donor_id_pattern() -> Seq<char> {
    "/tracker/donor/(?P<donor_id>\\d+)(?:/\\d+)?"@
}

/// A link to a donation's page, the donation's id in the group `donation_id`.
pub open spec fn donation_id_pattern() -> Seq<char> {
    "/tracker/donation/(?P<donation_id>\\d+)"@
}

/// The amount in the heading of a donation's page, in the group `amount_text`.
pub open spec fn amount_pattern() -> Seq<char> {
    "Amount:\\s*[$](?P<amount_text>[\\d,.]+)"@
}

/// How the tracker writes the time of a donation.
pub open spec fn timestamp_format() -> Seq<char> {
    "%m/%d/%Y %H:%M:%S %z"@
}

/// The page numbers, each read as a `u32`; `None` if one does not read.
pub open spec fn page_numbers(caps: Seq<Seq<char>>) -> Option<Seq<u32>>
    decreases caps.len(),
{
    if caps.len() == 0 {
        Some(seq![])
    } else {
        match (page_numbers(caps.drop_last()), spec_parse_u32(caps.last())) {
            (Some(ns), Some(n)) => Some(ns.push(n)),
            _ => None,
        }
    }
}

/// The greatest of `ns`, or 0 if there are none.
pub open spec fn max_of(ns: Seq<u32>) -> u32
    decreases ns.len(),
{
    if ns.len() == 0 {
        0
    } else {
        let m = max_of(ns.drop_last());
        if ns.last() > m { ns.last() } else { m }
    }
}

/// The number of pages of the donation list given the page numbers that the
/// page selector offers: the greatest of them, which must be above 0.
pub open spec fn spec_page_count(caps: Option<Seq<Seq<char>>>) -> Result<u32, ScrapeError> {
    match caps {
        None => Err(ScrapeError::Pattern),
        Some(c) => match page_numbers(c) {
            None => Err(ScrapeError::Number),
            Some(ns) => if max_of(ns) > 0 { Ok(max_of(ns)) } else { Err(ScrapeError::NoPages) },
        },
    }
}

/// The view of an optional list of strings.
pub open spec fn opt_strings(caps: Option<Vec<String>>) -> Option<Seq<Seq<char>>> {
    match caps {
        Some(v) => Some(strings_view(v@)),
        None => None,
    }
}

proof fn lemma_page_numbers_prefix_none(caps: Seq<Seq<char>>, k: int)
    requires
        0 <= k <= caps.len(),
        page_numbers(caps.take(k)) is None,
    ensures
        page_numbers(caps) is None,
    decreases caps.len() - k,
{
    if k < caps.len() {
        let p = caps.take(k + 1);
        assert(p.drop_last() == caps.take(k));
        lemma_page_numbers_prefix_none(caps, k + 1);
    } else {
        assert(caps.take(k) == caps);
    }
}

/// The number of pages of the donation list, from the page numbers that the
/// page selector offers (`None` where the pattern did not run).
pub fn page_count_from_captures(caps: Option<Vec<String>>) -> (res: Result<u32, ScrapeError>)
    ensures
        res == spec_page_count(opt_strings(caps)),
{
    if caps.is_none() {
        return Err(ScrapeError::Pattern);
    }
    let v = caps.unwrap();
    let ghost sv = strings_view(v@);
    let mut max: u32 = 0;
    let mut i: usize = 0;
    while i < v.len()
        invariant
            i <= v.len(),
            sv == strings_view(v@),
            opt_strings(caps) == Some(sv),
            page_numbers(sv.take(i as int)) matches Some(ns) && max == max_of(ns),
        decreases v.len() - i,
    {
        let ghost pre = sv.take(i as int);
        let ghost next = sv.take(i + 1);
        assert(next.drop_last() == pre);
        assert(sv[i as int] == v@[i as int]@);
        assert(next.last() == sv[i as int]);
        let cs = chars_of(v[i].as_str());
        assert(cs@ == next.last());
        match parse_u32(&cs) {
            None => {
                proof {
                    lemma_page_numbers_prefix_none(sv, i + 1);
                }
                return Err(ScrapeError::Number);
            },
            Some(n) => {
                let ghost ns = page_numbers(pre)->0;
                assert(page_numbers(next) == Some(ns.push(n)));
                assert(ns.push(n).drop_last() == ns);
                if n > max {
                    max = n;
                }
            },
        }
        i += 1;
    }
    assert(sv.take(v.len() as int) == sv);
    if max > 0 {
        Ok(max)
    } else {
        Err(ScrapeError::NoPages)
    }
}

proof fn lemma_max_of(ns: Seq<u32>)
    ensures
        forall|i: int| 0 <= i < ns.len() ==> #[trigger] ns[i] <= max_of(ns),
        max_of(ns) > 0 ==> exists|i: int| 0 <= i < ns.len() && #[trigger] ns[i] == max_of(ns),
    decreases ns.len(),
{
    if ns.len() > 0 {
        let p = ns.drop_last();
        lemma_max_of(p);
        assert forall|i: int| 0 <= i < ns.len() implies #[trigger] ns[i] <= max_of(ns) by {
            if i < p.len() {
                assert(ns[i] == p[i]);
            }
        }
        if max_of(ns) > 0 {
            if ns.last() > max_of(p) {
                assert(ns[ns.len() - 1] == max_of(ns));
            } else {
                let i = choose|i: int| 0 <= i < p.len() && #[trigger] p[i] == max_of(p);
                assert(ns[i] == p[i]);
            }
        }
    }
}

/// The number of pages found is the greatest page number that the page
/// selector offers: every page number offered is at most it, and one is it.
pub proof fn law_page_count_is_greatest(caps: Seq<Seq<char>>, n: u32)
    requires
        spec_page_count(Some(caps)) == Ok::<u32, ScrapeError>(n),
    ensures
        page_numbers(caps) is Some,
        forall|i: int| 0 <= i < caps.len() ==> #[trigger] page_numbers(caps)->0[i] <= n,
        exists|i: int| 0 <= i < caps.len() && #[trigger] page_numbers(caps)->0[i] == n,
{
    let ns = page_numbers(caps)->0;
    lemma_page_numbers_len(caps);
    lemma_max_of(ns);
}

proof fn lemma_page_numbers_len(caps: Seq<Seq<char>>)
    ensures
        page_numbers(caps) matches Some(ns) ==> ns.len() == caps.len(),
    decreases caps.len(),
{
    if caps.len() > 0 {
        lemma_page_numbers_len(caps.drop_last());
    }
}

proof fn lemma_page_numbers_shape(caps: Seq<Seq<char>>)
    ensures
        page_numbers(caps) is None <==> exists|i: int| 0 <= i < caps.len() && #[trigger] spec_parse_u32(caps[i]) is None,
        page_numbers(caps) matches Some(ns) ==> ns.len() == caps.len() && forall|i: int|
            0 <= i < caps.len() ==> spec_parse_u32(caps[i]) == Some(#[trigger] ns[i]),
    decreases caps.len(),
{
    if caps.len() > 0 {
        let p = caps.drop_last();
        lemma_page_numbers_shape(p);
        assert forall|i: int| 0 <= i < p.len() implies #[trigger] p[i] == caps[i] by {}
        if page_numbers(caps) is None {
            if page_numbers(p) is None {
                let i = choose|i: int| 0 <= i < p.len() && #[trigger] spec_parse_u32(p[i]) is None;
                assert(spec_parse_u32(caps[i]) is None);
            } else {
                assert(spec_parse_u32(caps[caps.len() - 1]) is None);
            }
        } else {
            let ns = page_numbers(caps)->0;
            let pns = page_numbers(p)->0;
            assert(ns == pns.push(spec_parse_u32(caps.last())->0));
            assert forall|i: int| 0 <= i < caps.len() implies spec_parse_u32(caps[i]) == Some(#[trigger] ns[i]) by {
                if i < p.len() {
                    assert(ns[i] == pns[i]);
                }
            }
            if exists|i: int| 0 <= i < caps.len() && #[trigger] spec_parse_u32(caps[i]) is None {
                let i = choose|i: int| 0 <= i < caps.len() && #[trigger] spec_parse_u32(caps[i]) is None;
                assert(spec_parse_u32(caps[i]) == Some(ns[i]));
            }
        }
    }
}

proof fn lemma_max_le_when_covered(caps: Seq<Seq<char>>, caps2: Seq<Seq<char>>)
    requires
        forall|x: Seq<char>| caps.contains(x) ==> caps2.contains(x),
        page_numbers(caps) is Some,
        page_numbers(caps2) is Some,
    ensures
        max_of(page_numbers(caps)->0) <= max_of(page_numbers(caps2)->0),
{
    let ns = page_numbers(caps)->0;
    let ns2 = page_numbers(caps2)->0;
    lemma_page_numbers_shape(caps);
    lemma_page_numbers_shape(caps2);
    lemma_max_of(ns);
    lemma_max_of(ns2);
    if max_of(ns) > 0 {
        let i = choose|i: int| 0 <= i < ns.len() && #[trigger] ns[i] == max_of(ns);
        assert(spec_parse_u32(caps[i]) == Some(ns[i]));
        assert(caps.contains(caps[i]));
        assert(caps2.contains(caps[i]));
        let j = choose|j: int| 0 <= j < caps2.len() && caps2[j] == caps[i];
        assert(spec_parse_u32(caps2[j]) == Some(ns2[j]));
        assert(ns2[j] <= max_of(ns2));
    }
}

/// The number of pages depends only on which page numbers the selector
/// offers, not on their order or on how often each is repeated: two lists of
/// captured page numbers holding the same texts give the same answer.
pub proof fn law_page_count_ignores_order_and_repetition(caps: Seq<Seq<char>>, caps2: Seq<Seq<char>>)
    requires
        forall|x: Seq<char>| caps.contains(x) <==> caps2.contains(x),
    ensures
        spec_page_count(Some(caps)) == spec_page_count(Some(caps2)),
{
    lemma_page_numbers_shape(caps);
    lemma_page_numbers_shape(caps2);
    if page_numbers(caps) is None {
        let i = choose|i: int| 0 <= i < caps.len() && #[trigger] spec_parse_u32(caps[i]) is None;
        assert(caps.contains(caps[i]));
        let j = choose|j: int| 0 <= j < caps2.len() && caps2[j] == caps[i];
        assert(spec_parse_u32(caps2[j]) is None);
    } else if page_numbers(caps2) is None {
        let j = choose|j: int| 0 <= j < caps2.len() && #[trigger] spec_parse_u32(caps2[j]) is None;
        assert(caps2.contains(caps2[j]));
        let i = choose|i: int| 0 <= i < caps.len() && caps[i] == caps2[j];
        assert(spec_parse_u32(caps[i]) is None);
    } else {
        lemma_max_le_when_covered(caps, caps2);
        lemma_max_le_when_covered(caps2, caps);
    }
}

/// Reads the number of pages of the donation list from the text of its first
/// page.
pub fn scrape_donation_list_pagecount(response: &str) -> (res: Result<u32, ScrapeError>)
    ensures
        res == spec_page_count(regex_all_captures(pagecount_pattern(), "pagenum"@, response@)),
{
    let caps = all_captures("<option>(?P<pagenum>[\\d]+)</option>", "pagenum", response);
    page_count_from_captures(caps)
}

/// An id read from the text that a pattern captured.
pub open spec fn spec_id(capture: Option<Seq<char>>) -> Result<u32, ScrapeError> {
    match capture {
        None => Err(ScrapeError::Pattern),
        Some(d) => match spec_parse_u32(d) {
            Some(n) => Ok(n),
            None => Err(ScrapeError::Number),
        },
    }
}

/// Reads an id from the text that a pattern captured (`None` where it
/// captured nothing).
pub fn id_from_capture(capture: Option<String>) -> (res: Result<u32, ScrapeError>)
    ensures
        res == spec_id(opt_string_view(capture)),
        res matches Ok(n) ==> (opt_string_view(capture) matches Some(d) && parse_unsigned(
            d,
            u32::MAX as nat,
        ) == Some(n as nat)),
        opt_string_view(capture) matches Some(d) ==> (parse_unsigned(d, u32::MAX as nat) matches Some(
            v,
        ) ==> res == Ok::<u32, ScrapeError>(v as u32)),
        capture is None ==> res == Err::<u32, ScrapeError>(ScrapeError::Pattern),
{
    match capture {
        None => Err(ScrapeError::Pattern),
        Some(d) => {
            let cs = chars_of(d.as_str());
            match parse_u32(&cs) {
                Some(n) => Ok(n),
                None => Err(ScrapeError::Number),
            }
        },
    }
}

/// An id is the decimal value of the text captured for it, whatever its size:
/// a capture reads as an id exactly when it is a numeral of a `u32`, and then
/// as that numeral's value; every `u32` written in decimal reads as itself.
pub proof fn law_id_is_decimal_value_of_capture(d: Seq<char>, n: u32)
    ensures
        spec_id(Some(d)) matches Ok(m) ==> parse_unsigned(d, u32::MAX as nat) == Some(m as nat),
        parse_unsigned(d, u32::MAX as nat) matches Some(v) ==> spec_id(Some(d)) == Ok::<
            u32,
            ScrapeError,
        >(v as u32),
        spec_id(Some(nat_digits(n as nat))) == Ok::<u32, ScrapeError>(n),
{
    law_u32_decimal_round_trip(n);
}

/// The donor of a donation, from the first link inside the element that names
/// the donor: no link means an anonymous donor.
pub open spec fn spec_donor_id(first_link: Option<Option<Seq<char>>>) -> Result<Option<u32>, ScrapeError> {
    match first_link {
        None => Ok(None),
        Some(None) => Err(ScrapeError::MissingHref),
        Some(Some(href)) => match spec_id(regex_first_capture(donor_id_pattern(), "donor_id"@, href)) {
            Ok(n) => Ok(Some(n)),
            Err(e) => Err(e),
        },
    }
}

/// Reads the donor's id from the `href` of the first link in the element that
/// names the donor (`None`: there is no link; `Some(None)`: it has no `href`).
pub fn parse_donor_id(first_link: &Option<Option<String>>) -> (res: Result<Option<u32>, ScrapeError>)
    ensures
        res == spec_donor_id(match first_link {
            Some(h) => Some(opt_string_view(*h)),
            None => None,
        }),
{
    match first_link {
        None => Ok(None),
        Some(None) => Err(ScrapeError::MissingHref),
        Some(Some(href)) => {
            let cap = first_capture("/tracker/donor/(?P<donor_id>\\d+)(?:/\\d+)?", "donor_id", href.as_str());
            match id_from_capture(cap) {
                Ok(n) => Ok(Some(n)),
                Err(e) => Err(e),
            }
        },
    }
}

/// The id of a donation from the `href` of the first element inside its cell.
pub open spec fn spec_donation_id(first_child: Option<Option<Seq<char>>>) -> Result<u32, ScrapeError> {
    match first_child {
        None => Err(ScrapeError::MissingElement),
        Some(None) => Err(ScrapeError::MissingHref),
        Some(Some(href)) => spec_id(regex_first_capture(donation_id_pattern(), "donation_id"@, href)),
    }
}

/// Reads the donation's id from the `href` of the first element inside its
/// cell (`None`: the cell has no element; `Some(None)`: it has no `href`).
pub fn parse_donation_id(first_child: &Option<Option<String>>) -> (res: Result<u32, ScrapeError>)
    ensures
        res == spec_donation_id(match first_child {
            Some(h) => Some(opt_string_view(*h)),
            None => None,
        }),
{
    match first_child {
        None => Err(ScrapeError::MissingElement),
        Some(None) => Err(ScrapeError::MissingHref),
        Some(Some(href)) => {
            let cap = first_capture("/tracker/donation/(?P<donation_id>\\d+)", "donation_id", href.as_str());
            id_from_capture(cap)
        },
    }
}

/// The time of a donation, from text such as `07/03/2016 15:00:00 +0000`
/// around which there may be white space.
pub open spec fn spec_timestamp(text: Seq<char>) -> Result<Timestamp, ScrapeError> {
    match chrono_parse_from_str(trimmed(text), timestamp_format()) {
        Some(t) => Ok(t),
        None => Err(ScrapeError::Timestamp),
    }
}

/// Reads the time of a donation.
pub fn parse_timestamp(text: &str) -> (res: Result<Timestamp, ScrapeError>)
    ensures
        res == spec_timestamp(text@),
{
    let cs = chars_of(text);
    let t = trim_chars(&cs);
    let s = string_from_chars(&t);
    match parse_datetime_with_format(s.as_str(), "%m/%d/%Y %H:%M:%S %z") {
        Some(ts) => Ok(ts),
        None => Err(ScrapeError::Timestamp),
    }
}

/// The amount of a donation from its cell in the donation list, in cents.
pub open spec fn spec_cell_amount(text: Seq<char>) -> Result<i64, ScrapeError> {
    match cell_amount(text) {
        Some(a) => Ok(a),
        None => Err(ScrapeError::Number),
    }
}

/// The amount in the heading of a donation's page, in cents: the text after
/// `Amount:` and a `$`, its `,` and `.` taken out.
pub open spec fn spec_amount_from_text(text: Seq<char>) -> Result<i64, ScrapeError> {
    match regex_first_capture(amount_pattern(), "amount_text"@, text) {
        None => Err(ScrapeError::Pattern),
        Some(a) => match captured_amount(a) {
            None => Err(ScrapeError::Number),
            Some(amount) => Ok(amount),
        },
    }
}

/// Reads the amount in the heading of a donation's page, in cents.
pub fn parse_donation_amount_from_text(text: &str) -> (res: Result<i64, ScrapeError>)
    ensures
        res == spec_amount_from_text(text@),
{
    let captured = match first_capture("Amount:\\s*[$](?P<amount_text>[\\d,.]+)", "amount_text", text) {
        None => {
            return Err(ScrapeError::Pattern);
        },
        Some(a) => a,
    };
    match amount_from_capture(captured.as_str()) {
        None => Err(ScrapeError::Number),
        Some(a) => Ok(a),
    }
}

/// Whether the comment cell of a row says that the donation has a comment.
pub open spec fn spec_comment_flag(text: Seq<char>) -> Result<bool, ScrapeError> {
    let t = trimmed(text);
    if t == "Yes"@ {
        Ok(true)
    } else if t == "No"@ {
        Ok(false)
    } else {
        Err(ScrapeError::CommentFlag)
    }
}

/// Reads the comment cell of a row: `Yes` or `No`, white space around it.
pub fn parse_comment_flag(text: &str) -> (res: Result<bool, ScrapeError>)
    ensures
        res == spec_comment_flag(text@),
        trimmed(text@) == "Yes"@ ==> res == Ok::<bool, ScrapeError>(true),
        trimmed(text@) == "No"@ ==> res == Ok::<bool, ScrapeError>(false),
        trimmed(text@) != "Yes"@ && trimmed(text@) != "No"@ ==> res == Err::<bool, ScrapeError>(
            ScrapeError::CommentFlag,
        ),
{
    proof {
        reveal_strlit("Yes");
        reveal_strlit("No");
        assert("Yes"@.len() != "No"@.len());
    }
    let cs = chars_of(text);
    let t = trim_chars(&cs);
    if chars_match(&t, "Yes") {
        Ok(true)
    } else if chars_match(&t, "No") {
        Ok(false)
    } else {
        Err(ScrapeError::CommentFlag)
    }
}

/// The comment of a donation from the text of its comment table: none where
/// the tracker shows that it was rejected or is awaiting approval.
pub open spec fn spec_comment(text: Seq<char>) -> Option<Seq<char>> {
    let t = trimmed(text);
    if t == "(Comment rejected)"@ || t == "(Comment pending approval)"@ {
        None
    } else {
        Some(t)
    }
}

proof fn lemma_trim_start_shape(s: Seq<char>)
    ensures
        trim_start(s).len() == 0 || !is_white_space(trim_start(s)[0]),
    decreases s.len(),
{
    if s.len() > 0 && is_white_space(s[0]) {
        lemma_trim_start_shape(s.drop_first());
    }
}

proof fn lemma_trim_end_shape(s: Seq<char>)
    ensures
        trim_end(s).len() <= s.len(),
        trim_end(s) == s.take(trim_end(s).len() as int),
        trim_end(s).len() == 0 || !is_white_space(trim_end(s).last()),
    decreases s.len(),
{
    if s.len() > 0 && is_white_space(s.last()) {
        lemma_trim_end_shape(s.drop_last());
        let t = trim_end(s.drop_last());
        assert(s.drop_last().take(t.len() as int) == s.take(t.len() as int));
    } else {
        assert(s.take(s.len() as int) == s);
    }
}

/// A comment kept from a donation's page has no white space at either end.
pub proof fn law_kept_comment_is_trimmed(text: Seq<char>)
    ensures
        spec_comment(text) matches Some(c) ==> c.len() == 0 || (!is_white_space(c[0])
            && !is_white_space(c.last())),
{
    let a = trim_start(text);
    lemma_trim_start_shape(text);
    lemma_trim_end_shape(a);
    let c = trim_end(a);
    if c.len() > 0 {
        assert(c[0] == a.take(c.len() as int)[0]);
    }
}

/// Every comment that the tracker shows, whatever its length, is kept,
/// trimmed: only the texts that say that the comment was rejected or is
/// awaiting approval give no comment.
pub proof fn law_shown_comment_is_kept(text: Seq<char>)
    ensures
        trimmed(text) != "(Comment rejected)"@ && trimmed(text) != "(Comment pending approval)"@
            ==> spec_comment(text) == Some(trimmed(text)),
        trimmed(text) == "(Comment rejected)"@ || trimmed(text) == "(Comment pending approval)"@
            ==> spec_comment(text) is None,
{
}

/// Reads a donation's comment from the text of its comment table.
pub fn classify_comment(text: &str) -> (res: Option<String>)
    ensures
        opt_string_view(res) == spec_comment(text@),
        trimmed(text@) != "(Comment rejected)"@ && trimmed(text@) != "(Comment pending approval)"@
            ==> opt_string_view(res) == Some(trimmed(text@)),
        trimmed(text@) == "(Comment rejected)"@ || trimmed(text@) == "(Comment pending approval)"@
            ==> res is None,
{
    let cs = chars_of(text);
    let t = trim_chars(&cs);
    if chars_match(&t, "(Comment rejected)") || chars_match(&t, "(Comment pending approval)") {
        None
    } else {
        Some(string_from_chars(&t))
    }
}


/// What a row of the donation list holds, as the page shows it.
pub struct DonationRowCells {
    /// The text of each cell.
    pub texts: Vec<String>,
    /// The `href` of each link in the first cell (`None` where it was not read).
    pub donor_links: Option<Vec<Option<String>>>,
    /// The `href` of the third cell and of each element inside it, in document
    /// order (`None` where it was not read).
    pub donation_cell: Option<Vec<Option<String>>>,
}

/// The value of a `DonationRowCells`.
pub struct DonationRowCellsView {
    pub texts: Seq<Seq<char>>,
    pub donor_links: Option<Seq<Option<Seq<char>>>>,
    pub donation_cell: Option<Seq<Option<Seq<char>>>>,
}

/// The view of an optional list of optional strings.
pub open spec fn opt_hrefs(o: Option<Vec<Option<String>>>) -> Option<Seq<Option<Seq<char>>>> {
    match o {
        Some(v) => Some(crate::html::opt_strings_view(v@)),
        None => None,
    }
}

impl View for DonationRowCells {
    type V = DonationRowCellsView;

    open spec fn view(&self) -> DonationRowCellsView {
        DonationRowCellsView {
            texts: strings_view(self.texts@),
            donor_links: opt_hrefs(self.donor_links),
            donation_cell: opt_hrefs(self.donation_cell),
        }
    }
}

/// The first of `v`, if there is one.
pub open spec fn first_of(v: Seq<Option<Seq<char>>>) -> Option<Option<Seq<char>>> {
    if v.len() > 0 { Some(v[0]) } else { None }
}

/// The second of `v`, if there is one.
pub open spec fn second_of(v: Seq<Option<Seq<char>>>) -> Option<Option<Seq<char>>> {
    if v.len() > 1 { Some(v[1]) } else { None }
}

/// The donation that a row of the donation list shows. The cells are: the
/// donor (a link, or none for an anonymous donor), the time, the donation (a
/// link to its page, and the amount), and `Yes` or `No` for a comment; a row
/// with another number of cells is refused. The cells are read in that order
/// and the first failure is the answer.
pub open spec fn spec_donation_row(cells: DonationRowCellsView) -> Result<IncompleteDonation, ScrapeError> {
    let t = cells.texts;
    if t.len() < 1 {
        Err(ScrapeError::CellCount)
    } else {
        match cells.donor_links {
            None => Err(ScrapeError::Selector),
            Some(links) => match spec_donor_id(first_of(links)) {
                Err(e) => Err(e),
                Ok(donor_id) => if t.len() < 2 {
                    Err(ScrapeError::CellCount)
                } else {
                    match spec_timestamp(t[1]) {
                        Err(e) => Err(e),
                        Ok(timestamp) => if t.len() < 3 {
                            Err(ScrapeError::CellCount)
                        } else {
                            match cells.donation_cell {
                                None => Err(ScrapeError::Selector),
                                Some(els) => match spec_donation_id(second_of(els)) {
                                    Err(e) => Err(e),
                                    Ok(donation_id) => match spec_cell_amount(t[2]) {
                                        Err(e) => Err(e),
                                        Ok(amount) => if t.len() < 4 {
                                            Err(ScrapeError::CellCount)
                                        } else {
                                            match spec_comment_flag(t[3]) {
                                                Err(e) => Err(e),
                                                Ok(has_comment) => if t.len() != 4 {
                                                    Err(ScrapeError::CellCount)
                                                } else {
                                                    Ok(IncompleteDonation { donation_id, donor_id, amount, timestamp, has_comment })
                                                },
                                            }
                                        },
                                    },
                                },
                            }
                        },
                    }
                },
            },
        }
    }
}

/// A row gives a donation only when it has the four cells, and then each field
/// is what its own cell reads as: the donor from the first cell's first link,
/// the time from the second cell, the id from the third cell's link and the
/// amount from its text, and whether there is a comment from the fourth cell.
/// A row whose cells all read gives that donation.
pub proof fn law_row_donation_is_made_of_its_cells(cells: DonationRowCellsView)
    ensures
        spec_donation_row(cells) is Ok ==> cells.texts.len() == 4,
        spec_donation_row(cells) matches Ok(d) ==> (cells.donor_links matches Some(links)
            && spec_donor_id(first_of(links)) == Ok::<Option<u32>, ScrapeError>(d.donor_id)),
        spec_donation_row(cells) matches Ok(d) ==> spec_timestamp(cells.texts[1]) == Ok::<
            Timestamp,
            ScrapeError,
        >(d.timestamp),
        spec_donation_row(cells) matches Ok(d) ==> (cells.donation_cell matches Some(els)
            && spec_donation_id(second_of(els)) == Ok::<u32, ScrapeError>(d.donation_id)),
        spec_donation_row(cells) matches Ok(d) ==> spec_cell_amount(cells.texts[2]) == Ok::<
            i64,
            ScrapeError,
        >(d.amount),
        spec_donation_row(cells) matches Ok(d) ==> spec_comment_flag(cells.texts[3]) == Ok::<
            bool,
            ScrapeError,
        >(d.has_comment),
        cells.texts.len() == 4 ==> (cells.donor_links matches Some(links) ==> (
        cells.donation_cell matches Some(els) ==> (spec_donor_id(first_of(links)) matches Ok(
            donor_id,
        ) ==> (spec_timestamp(cells.texts[1]) matches Ok(timestamp) ==> (spec_donation_id(
            second_of(els),
        ) matches Ok(donation_id) ==> (spec_cell_amount(cells.texts[2]) matches Ok(amount) ==> (
        spec_comment_flag(cells.texts[3]) matches Ok(has_comment) ==> spec_donation_row(cells)
            == Ok::<IncompleteDonation, ScrapeError>(
            (IncompleteDonation { donation_id, donor_id, amount, timestamp, has_comment }),
        )))))))),
{
}

/// Reads the donation that a row of the donation list shows.
pub fn donation_from_row(cells: &DonationRowCells) -> (res: Result<IncompleteDonation, ScrapeError>)
    ensures
        res == spec_donation_row(cells@),
{
    let t = &cells.texts;
    proof {
        assert forall|k: int| 0 <= k < t.len() implies #[trigger] strings_view(t@)[k] == t@[k]@ by {}
    }
    if t.len() < 1 {
        return Err(ScrapeError::CellCount);
    }
    let first_link: Option<Option<String>> = match &cells.donor_links {
        None => {
            return Err(ScrapeError::Selector);
        },
        Some(links) => if links.len() > 0 { Some(links[0].clone()) } else { None },
    };
    let donor_id = match parse_donor_id(&first_link) {
        Err(e) => {
            return Err(e);
        },
        Ok(d) => d,
    };
    if t.len() < 2 {
        return Err(ScrapeError::CellCount);
    }
    let timestamp = match parse_timestamp(t[1].as_str()) {
        Err(e) => {
            return Err(e);
        },
        Ok(ts) => ts,
    };
    if t.len() < 3 {
        return Err(ScrapeError::CellCount);
    }
    let first_child: Option<Option<String>> = match &cells.donation_cell {
        None => {
            return Err(ScrapeError::Selector);
        },
        Some(els) => if els.len() > 1 { Some(els[1].clone()) } else { None },
    };
    let donation_id = match parse_donation_id(&first_child) {
        Err(e) => {
            return Err(e);
        },
        Ok(d) => d,
    };
    let amount = match parse_donation_amount(t[2].as_str()) {
        None => {
            return Err(ScrapeError::Number);
        },
        Some(a) => a,
    };
    if t.len() < 4 {
        return Err(ScrapeError::CellCount);
    }
    let has_comment = match parse_comment_flag(t[3].as_str()) {
        Err(e) => {
            return Err(e);
        },
        Ok(f) => f,
    };
    if t.len() != 4 {
        return Err(ScrapeError::CellCount);
    }
    Ok(IncompleteDonation { donation_id, donor_id, amount, timestamp, has_comment })
}


/// The rows of the donation list's table.
pub open spec fn row_selector() -> Seq<char> {
    "body>div.container-fluid>table>tbody>tr"@
}

/// The path to the `i`-th row of the donation list.
pub open spec fn row_path(i: usize) -> Seq<(Seq<char>, usize)> {
    seq![(row_selector(), i)]
}

/// The path to the `k`-th cell of the `i`-th row of the donation list.
pub open spec fn cell_path(i: usize, k: usize) -> Seq<(Seq<char>, usize)> {
    seq![(row_selector(), i), ("td"@, k)]
}

/// What the `i`-th row of the donation list in `html` holds: the cells' texts,
/// the links of the first cell (read when there is one), and the elements of
/// the third cell (read when there are three); `None` where the cells could not
/// be selected.
pub open spec fn spec_row_cells(html: Seq<char>, i: usize) -> Option<DonationRowCellsView> {
    match html_select_texts(html, row_path(i), "td"@) {
        None => None,
        Some(texts) => Some(DonationRowCellsView {
            texts,
            donor_links: if texts.len() >= 1 {
                html_select_attrs(html, cell_path(i, 0), "a"@, "href"@)
            } else {
                None
            },
            donation_cell: if texts.len() >= 3 {
                html_select_attrs(html, cell_path(i, 2), "*"@, "href"@)
            } else {
                None
            },
        }),
    }
}

/// The path to the `i`-th row, as the HTML calls take it.
fn row_steps(i: usize) -> (res: Vec<PathStep>)
    ensures
        path_view(res@) == row_path(i),
{
    let v = vec![PathStep { selector: String::from_str("body>div.container-fluid>table>tbody>tr"), index: i }];
    assert(path_view(v@) == row_path(i));
    v
}

/// The path to the `k`-th cell of the `i`-th row, as the HTML calls take it.
fn cell_steps(i: usize, k: usize) -> (res: Vec<PathStep>)
    ensures
        path_view(res@) == cell_path(i, k),
{
    let v = vec![
        PathStep { selector: String::from_str("body>div.container-fluid>table>tbody>tr"), index: i },
        PathStep { selector: String::from_str("td"), index: k },
    ];
    assert(path_view(v@) == cell_path(i, k));
    v
}

/// Reads what the `i`-th row of the donation list in `html` holds.
pub fn row_cells(html: &str, i: usize) -> (res: Option<DonationRowCells>)
    ensures
        match res {
            Some(c) => spec_row_cells(html@, i) == Some(c@),
            None => spec_row_cells(html@, i) is None,
        },
{
    let texts = match select_texts(html, &row_steps(i), "td") {
        None => {
            return None;
        },
        Some(t) => t,
    };
    let donor_links = if texts.len() >= 1 {
        select_attrs(html, &cell_steps(i, 0), "a", "href")
    } else {
        None
    };
    let donation_cell = if texts.len() >= 3 {
        select_attrs(html, &cell_steps(i, 2), "*", "href")
    } else {
        None
    };
    let cells = DonationRowCells { texts, donor_links, donation_cell };
    Some(cells)
}

/// The donation that the `i`-th row of the donation list in `html` shows.
pub open spec fn spec_parse_row(html: Seq<char>, i: usize) -> Result<IncompleteDonation, ScrapeError> {
    match spec_row_cells(html, i) {
        None => Err(ScrapeError::Selector),
        Some(c) => spec_donation_row(c),
    }
}

/// Reads the donation that the `i`-th row of the donation list shows.
pub fn parse_donation_row(html: &str, i: usize) -> (res: Result<IncompleteDonation, ScrapeError>)
    ensures
        res == spec_parse_row(html@, i),
{
    match row_cells(html, i) {
        None => Err(ScrapeError::Selector),
        Some(c) => donation_from_row(&c),
    }
}

/// The donations that the first `n` rows of the donation list show, or the
/// failure of the first row that could not be read.
pub open spec fn spec_donation_rows(html: Seq<char>, n: nat) -> Result<Seq<IncompleteDonation>, ScrapeError>
    decreases n,
{
    if n == 0 {
        Ok(seq![])
    } else {
        match spec_donation_rows(html, (n - 1) as nat) {
            Err(e) => Err(e),
            Ok(ds) => match spec_parse_row(html, (n - 1) as usize) {
                Err(e) => Err(e),
                Ok(d) => Ok(ds.push(d)),
            },
        }
    }
}

/// The donations that a page of the donation list shows, one per row, in order.
pub open spec fn spec_donation_list(html: Seq<char>) -> Result<Seq<IncompleteDonation>, ScrapeError> {
    match html_select_texts(html, seq![], row_selector()) {
        None => Err(ScrapeError::Selector),
        Some(rows) => spec_donation_rows(html, rows.len()),
    }
}

/// Reads the donations that a page of the donation list shows.
pub fn scrape_donation_list(html: &str) -> (res: Result<Vec<IncompleteDonation>, ScrapeError>)
    ensures
        match res {
            Ok(v) => spec_donation_list(html@) == Ok::<Seq<IncompleteDonation>, ScrapeError>(v@),
            Err(e) => spec_donation_list(html@) == Err::<Seq<IncompleteDonation>, ScrapeError>(e),
        },
{
    let no_steps: Vec<PathStep> = Vec::new();
    assert(path_view(no_steps@) == Seq::<(Seq<char>, usize)>::empty());
    let rows = match select_texts(html, &no_steps, "body>div.container-fluid>table>tbody>tr") {
        None => {
            return Err(ScrapeError::Selector);
        },
        Some(r) => r,
    };
    let mut out: Vec<IncompleteDonation> = Vec::new();
    let mut i: usize = 0;
    while i < rows.len()
        invariant
            i <= rows.len(),
            html_select_texts(html@, seq![], row_selector()) == Some(strings_view(rows@)),
            spec_donation_rows(html@, i as nat) == Ok::<Seq<IncompleteDonation>, ScrapeError>(out@),
        decreases rows.len() - i,
    {
        match parse_donation_row(html, i) {
            Err(e) => {
                proof {
                    lemma_rows_fail_later(html@, (i + 1) as nat, rows.len() as nat, e);
                }
                return Err(e);
            },
            Ok(d) => {
                out.push(d);
            },
        }
        i += 1;
    }
    Ok(out)
}

/// The donations of a list are its rows' donations, one per row, in the
/// order of the rows: where the first `n` rows all read, they give their
/// donations in order, and otherwise the first row that does not read gives
/// the answer.
pub proof fn law_list_is_its_rows_in_order(html: Seq<char>, n: nat)
    ensures
        spec_donation_rows(html, n) matches Ok(ds) ==> ds.len() == n,
        spec_donation_rows(html, n) matches Ok(ds) ==> forall|i: int|
            0 <= i < n ==> spec_parse_row(html, i as usize) == Ok::<IncompleteDonation, ScrapeError>(
                #[trigger] ds[i],
            ),
        (forall|i: int| 0 <= i < n ==> #[trigger] spec_parse_row(html, i as usize) is Ok)
            ==> spec_donation_rows(html, n) is Ok,
        forall|i: int|
            0 <= i < n && (forall|j: int| 0 <= j < i ==> #[trigger] spec_parse_row(html, j as usize) is Ok)
                ==> (#[trigger] spec_parse_row(html, i as usize) matches Err(e) ==> spec_donation_rows(
                html,
                n,
            ) == Err::<Seq<IncompleteDonation>, ScrapeError>(e)),
    decreases n,
{
    if n > 0 {
        let m = (n - 1) as nat;
        law_list_is_its_rows_in_order(html, m);
        if let Ok(ds) = spec_donation_rows(html, m) {
            if let Ok(d) = spec_parse_row(html, m as usize) {
                let all = ds.push(d);
                assert forall|i: int| 0 <= i < n implies spec_parse_row(html, i as usize) == Ok::<
                    IncompleteDonation,
                    ScrapeError,
                >(#[trigger] all[i]) by {
                    if i < m {
                        assert(all[i] == ds[i]);
                    }
                }
            }
        }
        assert forall|i: int|
            0 <= i < n && (forall|j: int| 0 <= j < i ==> #[trigger] spec_parse_row(html, j as usize) is Ok)
                implies (#[trigger] spec_parse_row(html, i as usize) matches Err(e) ==> spec_donation_rows(
                html,
                n,
            ) == Err::<Seq<IncompleteDonation>, ScrapeError>(e)) by {
            if i < m {
                if let Err(e) = spec_parse_row(html, i as usize) {
                    lemma_rows_fail_later(html, m, n, e);
                }
            }
        }
        if forall|i: int| 0 <= i < n ==> #[trigger] spec_parse_row(html, i as usize) is Ok {
            assert(spec_parse_row(html, m as usize) is Ok);
        }
    }
}

proof fn lemma_rows_fail_later(html: Seq<char>, k: nat, n: nat, e: ScrapeError)
    requires
        k <= n,
        spec_donation_rows(html, k) == Err::<Seq<IncompleteDonation>, ScrapeError>(e),
    ensures
        spec_donation_rows(html, n) == Err::<Seq<IncompleteDonation>, ScrapeError>(e),
    decreases n - k,
{
    if k < n {
        lemma_rows_fail_later(html, k, (n - 1) as nat, e);
    }
}


/// The heading of a donation's page.
pub open spec fn header_selector() -> Seq<char> {
    "div.container-fluid > h2.text-center"@
}

/// The body of the table that holds a donation's comment.
pub open spec fn comment_selector() -> Seq<char> {
    "table > tbody"@
}

/// The path to the heading of a donation's page.
pub open spec fn header_path() -> Seq<(Seq<char>, usize)> {
    seq![(header_selector(), 0usize)]
}

/// What a donation's page holds, as the page shows it.
pub struct DonationPageParts {
    /// The text of each heading.
    pub header_texts: Vec<String>,
    /// The `href` of each link in the first heading (`None` where it was not read).
    pub donor_links: Option<Vec<Option<String>>>,
    /// The text of each `.datetime` element in the first heading (`None` where it
    /// was not read).
    pub datetime_texts: Option<Vec<String>>,
    /// The text of each comment table body (`None` where it was not read).
    pub comment_texts: Option<Vec<String>>,
}

/// The value of a `DonationPageParts`.
pub struct DonationPagePartsView {
    pub header_texts: Seq<Seq<char>>,
    pub donor_links: Option<Seq<Option<Seq<char>>>>,
    pub datetime_texts: Option<Seq<Seq<char>>>,
    pub comment_texts: Option<Seq<Seq<char>>>,
}

impl View for DonationPageParts {
    type V = DonationPagePartsView;

    open spec fn view(&self) -> DonationPagePartsView {
        DonationPagePartsView {
            header_texts: strings_view(self.header_texts@),
            donor_links: opt_hrefs(self.donor_links),
            datetime_texts: opt_strings(self.datetime_texts),
            comment_texts: opt_strings(self.comment_texts),
        }
    }
}

/// What the donation page `html` holds: the headings' texts and, when there
/// is a heading, the links and `.datetime` elements of the first one and the
/// comment table bodies of the page; `None` where the headings could not be
/// selected.
pub open spec fn spec_page_parts(html: Seq<char>) -> Option<DonationPagePartsView> {
    match html_select_texts(html, seq![], header_selector()) {
        None => None,
        Some(h) => Some(DonationPagePartsView {
            header_texts: h,
            donor_links: if h.len() >= 1 { html_select_attrs(html, header_path(), "a"@, "href"@) } else { None },
            datetime_texts: if h.len() >= 1 { html_select_texts(html, header_path(), ".datetime"@) } else { None },
            comment_texts: if h.len() >= 1 { html_select_texts(html, seq![], comment_selector()) } else { None },
        }),
    }
}

/// The comment of a donation from the texts of the page's comment table
/// bodies: the first one, if there is one.
pub open spec fn spec_page_comment(texts: Seq<Seq<char>>) -> Option<Seq<char>> {
    if texts.len() == 0 { None } else { spec_comment(texts[0]) }
}

/// The donation `donation_id` that its page shows. The heading holds the
/// donor (a link, or none for an anonymous donor), the time in a `.datetime`
/// element, and the amount after `Amount:`; the first table body, if any,
/// holds the comment. They are read in that order and the first failure is
/// the answer.
pub open spec fn spec_donation_page(donation_id: u32, parts: DonationPagePartsView) -> Result<DonationView, ScrapeError> {
    let h = parts.header_texts;
    if h.len() < 1 {
        Err(ScrapeError::MissingElement)
    } else {
        match parts.donor_links {
            None => Err(ScrapeError::Selector),
            Some(links) => match spec_donor_id(first_of(links)) {
                Err(e) => Err(e),
                Ok(donor_id) => match parts.datetime_texts {
                    None => Err(ScrapeError::Selector),
                    Some(dts) => if dts.len() < 1 {
                        Err(ScrapeError::MissingElement)
                    } else {
                        match spec_timestamp(dts[0]) {
                            Err(e) => Err(e),
                            Ok(timestamp) => match spec_amount_from_text(h[0]) {
                                Err(e) => Err(e),
                                Ok(amount) => match parts.comment_texts {
                                    None => Err(ScrapeError::Selector),
                                    Some(ct) => Ok(DonationView {
                                        donation_id,
                                        donor_id,
                                        amount,
                                        timestamp,
                                        comment: spec_page_comment(ct),
                                    }),
                                },
                            },
                        }
                    },
                },
            },
        }
    }
}

/// A donation read from its page is the donation asked for, and each field is
/// what its own part of the page reads as: the donor from the heading's first
/// link, the time from its first `.datetime` element, the amount from its
/// text, and the comment, whoever the donor, from the first comment table
/// body. A page whose parts all read gives that donation.
pub proof fn law_page_donation_is_made_of_its_parts(donation_id: u32, parts: DonationPagePartsView)
    ensures
        spec_donation_page(donation_id, parts) matches Ok(d) ==> d.donation_id == donation_id,
        spec_donation_page(donation_id, parts) matches Ok(d) ==> (parts.donor_links matches Some(
            links,
        ) && spec_donor_id(first_of(links)) == Ok::<Option<u32>, ScrapeError>(d.donor_id)),
        spec_donation_page(donation_id, parts) matches Ok(d) ==> (parts.datetime_texts matches Some(
            dts,
        ) && dts.len() >= 1 && spec_timestamp(dts[0]) == Ok::<Timestamp, ScrapeError>(
            d.timestamp,
        )),
        spec_donation_page(donation_id, parts) matches Ok(d) ==> (parts.header_texts.len() >= 1
            && spec_amount_from_text(parts.header_texts[0]) == Ok::<i64, ScrapeError>(d.amount)),
        spec_donation_page(donation_id, parts) matches Ok(d) ==> (parts.comment_texts matches Some(
            ct,
        ) && d.comment == spec_page_comment(ct)),
        parts.header_texts.len() >= 1 ==> (parts.donor_links matches Some(links) ==> (
        parts.datetime_texts matches Some(dts) ==> (parts.comment_texts matches Some(ct) ==> (
        dts.len() >= 1 ==> (spec_donor_id(first_of(links)) matches Ok(donor_id) ==> (
        spec_timestamp(dts[0]) matches Ok(timestamp) ==> (spec_amount_from_text(
            parts.header_texts[0],
        ) matches Ok(amount) ==> spec_donation_page(donation_id, parts) == Ok::<
            DonationView,
            ScrapeError,
        >(
            (DonationView {
                donation_id,
                donor_id,
                amount,
                timestamp,
                comment: spec_page_comment(ct),
            }),
        )))))))),
{
}

/// Reads the donation that its page shows.
pub fn donation_from_page(donation_id: u32, parts: &DonationPageParts) -> (res: Result<Donation, ScrapeError>)
    ensures
        match res {
            Ok(d) => spec_donation_page(donation_id, parts@) == Ok::<DonationView, ScrapeError>(d@),
            Err(e) => spec_donation_page(donation_id, parts@) == Err::<DonationView, ScrapeError>(e),
        },
{
    let h = &parts.header_texts;
    if h.len() < 1 {
        return Err(ScrapeError::MissingElement);
    }
    assert(strings_view(h@)[0] == h@[0]@);
    let first_link: Option<Option<String>> = match &parts.donor_links {
        None => {
            return Err(ScrapeError::Selector);
        },
        Some(links) => if links.len() > 0 { Some(links[0].clone()) } else { None },
    };
    let donor_id = match parse_donor_id(&first_link) {
        Err(e) => {
            return Err(e);
        },
        Ok(d) => d,
    };
    let timestamp = match &parts.datetime_texts {
        None => {
            return Err(ScrapeError::Selector);
        },
        Some(dts) => {
            if dts.len() < 1 {
                return Err(ScrapeError::MissingElement);
            }
            assert(strings_view(dts@)[0] == dts@[0]@);
            match parse_timestamp(dts[0].as_str()) {
                Err(e) => {
                    return Err(e);
                },
                Ok(ts) => ts,
            }
        },
    };
    let amount = match parse_donation_amount_from_text(h[0].as_str()) {
        Err(e) => {
            return Err(e);
        },
        Ok(a) => a,
    };
    let comment = match &parts.comment_texts {
        None => {
            return Err(ScrapeError::Selector);
        },
        Some(ct) => if ct.len() == 0 {
            None
        } else {
            assert(strings_view(ct@)[0] == ct@[0]@);
            classify_comment(ct[0].as_str())
        },
    };
    Ok(Donation { donation_id, donor_id, amount, timestamp, comment })
}

/// The path to the heading of a donation's page, as the HTML calls take it.
fn header_steps() -> (res: Vec<PathStep>)
    ensures
        path_view(res@) == header_path(),
{
    let v = vec![PathStep { selector: String::from_str("div.container-fluid > h2.text-center"), index: 0 }];
    assert(path_view(v@) == header_path());
    v
}

/// Reads what the donation page `html` holds.
pub fn page_parts(html: &str) -> (res: Option<DonationPageParts>)
    ensures
        match res {
            Some(p) => spec_page_parts(html@) == Some(p@),
            None => spec_page_parts(html@) is None,
        },
{
    let no_steps: Vec<PathStep> = Vec::new();
    assert(path_view(no_steps@) == Seq::<(Seq<char>, usize)>::empty());
    let header_texts = match select_texts(html, &no_steps, "div.container-fluid > h2.text-center") {
        None => {
            return None;
        },
        Some(h) => h,
    };
    if header_texts.len() < 1 {
        return Some(DonationPageParts { header_texts, donor_links: None, datetime_texts: None, comment_texts: None });
    }
    let donor_links = select_attrs(html, &header_steps(), "a", "href");
    let datetime_texts = select_texts(html, &header_steps(), ".datetime");
    let comment_texts = select_texts(html, &no_steps, "table > tbody");
    Some(DonationPageParts { header_texts, donor_links, datetime_texts, comment_texts })
}

/// The donation `donation_id` that the page `html` shows.
pub open spec fn spec_scrape_donation_page(donation_id: u32, html: Seq<char>) -> Result<DonationView, ScrapeError> {
    match spec_page_parts(html) {
        None => Err(ScrapeError::Selector),
        Some(p) => spec_donation_page(donation_id, p),
    }
}

/// Reads the donation `donation_id` from its page.
pub fn scrape_donation_page(donation_id: u32, html: &str) -> (res: Result<Donation, ScrapeError>)
    ensures
        match res {
            Ok(d) => spec_scrape_donation_page(donation_id, html@) == Ok::<DonationView, ScrapeError>(d@),
            Err(e) => spec_scrape_donation_page(donation_id, html@) == Err::<DonationView, ScrapeError>(e),
        },
{
    match page_parts(html) {
        None => Err(ScrapeError::Selector),
        Some(p) => donation_from_page(donation_id, &p),
    }
}

} // verus!
