use gdq_tracker::donation::{Donation, IncompleteDonation};
use gdq_tracker::scrape::{
    classify_comment, donation_from_row, parse_donation_amount_from_text, id_from_capture, page_count_from_captures, parse_comment_flag,
    parse_donation_id, parse_donor_id, parse_timestamp, scrape_donation_list, scrape_donation_list_pagecount,
    scrape_donation_page, DonationRowCells, ScrapeError,
};
use gdq_tracker::time::Timestamp;

fn ts(secs: i64) -> Timestamp {
    Timestamp { secs, nanos: 0 }
}

const START: i64 = 1467558000; // 2016-07-03 15:00:00 UTC

#[test]
fn pagecount_is_the_greatest_option() {
    let page = "<select><option>1</option><option>12</option><option>3</option></select>";
    assert_eq!(scrape_donation_list_pagecount(page), Ok(12));
    assert_eq!(scrape_donation_list_pagecount("<option>7</option>"), Ok(7));
}

#[test]
fn pagecount_errors() {
    assert_eq!(scrape_donation_list_pagecount("no pages here"), Err(ScrapeError::NoPages));
    assert_eq!(scrape_donation_list_pagecount("<option>0</option>"), Err(ScrapeError::NoPages));
    assert_eq!(scrape_donation_list_pagecount("<option>99999999999</option>"), Err(ScrapeError::Number));
    assert_eq!(page_count_from_captures(None), Err(ScrapeError::Pattern));
    assert_eq!(page_count_from_captures(Some(vec!["2".to_string(), "10".to_string()])), Ok(10));
    assert_eq!(page_count_from_captures(Some(vec![])), Err(ScrapeError::NoPages));
}

#[test]
fn ids_from_captures() {
    assert_eq!(id_from_capture(Some("123".to_string())), Ok(123));
    assert_eq!(id_from_capture(Some("x".to_string())), Err(ScrapeError::Number));
    assert_eq!(id_from_capture(None), Err(ScrapeError::Pattern));
}

#[test]
fn donor_ids_from_links() {
    assert_eq!(parse_donor_id(&Some(Some("/tracker/donor/123".to_string()))), Ok(Some(123)));
    assert_eq!(parse_donor_id(&Some(Some("/tracker/donor/123/5".to_string()))), Ok(Some(123)));
    assert_eq!(parse_donor_id(&None), Ok(None));
    assert_eq!(parse_donor_id(&Some(None)), Err(ScrapeError::MissingHref));
    assert_eq!(parse_donor_id(&Some(Some("/elsewhere".to_string()))), Err(ScrapeError::Pattern));
}

#[test]
fn donation_ids_from_links() {
    assert_eq!(parse_donation_id(&Some(Some("/tracker/donation/1001".to_string()))), Ok(1001));
    assert_eq!(parse_donation_id(&None), Err(ScrapeError::MissingElement));
    assert_eq!(parse_donation_id(&Some(None)), Err(ScrapeError::MissingHref));
    assert_eq!(
        parse_donation_id(&Some(Some("/tracker/donation/99999999999".to_string()))),
        Err(ScrapeError::Number)
    );
}

#[test]
fn timestamps() {
    assert_eq!(parse_timestamp("  07/03/2016 15:00:00 +0000 \n"), Ok(ts(START)));
    assert_eq!(parse_timestamp("07/03/2016 15:00:00 +0100"), Ok(ts(START - 3600)));
    assert_eq!(parse_timestamp("2016-07-03 15:00:00"), Err(ScrapeError::Timestamp));
}

#[test]
fn comment_flags_and_comments() {
    assert_eq!(parse_comment_flag(" Yes "), Ok(true));
    assert_eq!(parse_comment_flag("No"), Ok(false));
    assert_eq!(parse_comment_flag("Maybe"), Err(ScrapeError::CommentFlag));
    assert_eq!(classify_comment("  Great run!\n"), Some("Great run!".to_string()));
    assert_eq!(classify_comment(" (Comment rejected) "), None);
    assert_eq!(classify_comment("(Comment pending approval)"), None);
    assert_eq!(classify_comment("   "), Some(String::new()));
}

fn list_page(rows: &str) -> String {
    format!(
        "<html><body><div class=\"container-fluid\"><table><thead><tr><th>Donor</th></tr></thead><tbody>{}</tbody></table></div></body></html>",
        rows
    )
}

const ROW_ALICE: &str = "<tr><td><a href=\"/tracker/donor/42\">Alice</a></td><td>07/03/2016 15:00:00 +0000</td><td><a href=\"/tracker/donation/1001\">$25.00</a></td><td>Yes</td></tr>";
const ROW_ANON: &str = "<tr><td>(Anonymous)</td><td> 07/03/2016 15:01:00 +0000 </td><td> <a href=\"/tracker/donation/1002\">$1,000.50</a> </td><td> No </td></tr>";

#[test]
fn donation_list_rows() {
    let html = list_page(&format!("{}{}", ROW_ALICE, ROW_ANON));
    let got = scrape_donation_list(&html).unwrap();
    assert_eq!(
        got,
        vec![
            IncompleteDonation { donation_id: 1001, donor_id: Some(42), amount: 2500, timestamp: ts(START), has_comment: true },
            IncompleteDonation { donation_id: 1002, donor_id: None, amount: 100050, timestamp: ts(START + 60), has_comment: false },
        ]
    );
    assert_eq!(scrape_donation_list(&list_page("")), Ok(vec![]));
}

#[test]
fn donation_list_errors() {
    let three = "<tr><td></td><td>07/03/2016 15:00:00 +0000</td><td><a href=\"/tracker/donation/1\">$1.00</a></td></tr>";
    assert_eq!(scrape_donation_list(&list_page(three)), Err(ScrapeError::CellCount));
    let five = "<tr><td></td><td>07/03/2016 15:00:00 +0000</td><td><a href=\"/tracker/donation/1\">$1.00</a></td><td>No</td><td></td></tr>";
    assert_eq!(scrape_donation_list(&list_page(five)), Err(ScrapeError::CellCount));
    let flag = "<tr><td></td><td>07/03/2016 15:00:00 +0000</td><td><a href=\"/tracker/donation/1\">$1.00</a></td><td>Perhaps</td></tr>";
    assert_eq!(scrape_donation_list(&list_page(flag)), Err(ScrapeError::CommentFlag));
    let nohref = "<tr><td><a>Bob</a></td><td>07/03/2016 15:00:00 +0000</td><td><a href=\"/tracker/donation/1\">$1.00</a></td><td>No</td></tr>";
    assert_eq!(scrape_donation_list(&list_page(nohref)), Err(ScrapeError::MissingHref));
    let nolink = "<tr><td></td><td>07/03/2016 15:00:00 +0000</td><td>$1.00</td><td>No</td></tr>";
    assert_eq!(scrape_donation_list(&list_page(nolink)), Err(ScrapeError::MissingElement));
    let badtime = "<tr><td></td><td>yesterday</td><td><a href=\"/tracker/donation/1\">$1.00</a></td><td>No</td></tr>";
    assert_eq!(scrape_donation_list(&list_page(badtime)), Err(ScrapeError::Timestamp));
    let badamount = "<tr><td></td><td>07/03/2016 15:00:00 +0000</td><td><a href=\"/tracker/donation/1\">lots</a></td><td>No</td></tr>";
    assert_eq!(scrape_donation_list(&list_page(badamount)), Err(ScrapeError::Number));
}

#[test]
fn donation_row_from_plain_cells() {
    let cells = DonationRowCells {
        texts: vec![
            "Alice".to_string(),
            "07/03/2016 15:00:00 +0000".to_string(),
            "$3.50".to_string(),
            "No".to_string(),
        ],
        donor_links: Some(vec![Some("/tracker/donor/7".to_string())]),
        donation_cell: Some(vec![None, Some("/tracker/donation/9".to_string())]),
    };
    assert_eq!(
        donation_from_row(&cells),
        Ok(IncompleteDonation { donation_id: 9, donor_id: Some(7), amount: 350, timestamp: ts(START), has_comment: false })
    );
    let empty = DonationRowCells { texts: vec![], donor_links: None, donation_cell: None };
    assert_eq!(donation_from_row(&empty), Err(ScrapeError::CellCount));
    let unread = DonationRowCells { texts: vec!["x".to_string()], donor_links: None, donation_cell: None };
    assert_eq!(donation_from_row(&unread), Err(ScrapeError::Selector));
}

fn donation_page(header: &str, rest: &str) -> String {
    format!(
        "<html><body><div class=\"container-fluid\"><h2 class=\"text-center\">{}</h2>{}</div></body></html>",
        header, rest
    )
}

fn same(a: &Donation, b: &Donation) -> bool {
    a.donation_id == b.donation_id && a.donor_id == b.donor_id && a.amount == b.amount && a.timestamp == b.timestamp && a.comment == b.comment
}

#[test]
fn donation_pages() {
    let header = "<a href=\"/tracker/donor/42/3\">Alice</a> (<span class=\"datetime\"> 07/03/2016 15:00:00 +0000 </span>) <small>Amount: $1,025.00</small>";
    let html = donation_page(header, "<table><tbody><tr><td>\n  Good luck!  \n</td></tr></tbody></table>");
    let want = Donation { donation_id: 5, donor_id: Some(42), amount: 102500, timestamp: ts(START), comment: Some("Good luck!".to_string()) };
    assert!(same(&scrape_donation_page(5, &html).unwrap(), &want));

    let html = donation_page(header, "<table><tbody><tr><td>(Comment rejected)</td></tr></tbody></table>");
    assert_eq!(scrape_donation_page(5, &html).unwrap().comment, None);

    let html = donation_page(header, "");
    assert_eq!(scrape_donation_page(5, &html).unwrap().comment, None);

    let anonymous = "(Anonymous) <span class=\"datetime\">07/03/2016 15:00:00 +0000</span> Amount: $5.00";
    let d = scrape_donation_page(6, &donation_page(anonymous, "")).unwrap();
    assert_eq!((d.donor_id, d.amount), (None, 500));
}

#[test]
fn donation_page_errors() {
    assert_eq!(scrape_donation_page(1, "<html><body></body></html>").unwrap_err(), ScrapeError::MissingElement);
    let no_time = "Alice Amount: $5.00";
    assert_eq!(scrape_donation_page(1, &donation_page(no_time, "")).unwrap_err(), ScrapeError::MissingElement);
    let no_amount = "<span class=\"datetime\">07/03/2016 15:00:00 +0000</span>";
    assert_eq!(scrape_donation_page(1, &donation_page(no_amount, "")).unwrap_err(), ScrapeError::Pattern);
    let huge = "<span class=\"datetime\">07/03/2016 15:00:00 +0000</span> Amount: $99,999,999,999,999,999,999.00";
    assert_eq!(scrape_donation_page(1, &donation_page(huge, "")).unwrap_err(), ScrapeError::Number);
}

#[test]
fn amounts_from_donation_headings() {
    assert_eq!(parse_donation_amount_from_text("Alice gave. Amount:  $1,025.50 thanks"), Ok(102550));
    assert_eq!(parse_donation_amount_from_text("Amount: $5"), Ok(5));
    assert_eq!(parse_donation_amount_from_text("Amount: 5"), Err(ScrapeError::Pattern));
    assert_eq!(parse_donation_amount_from_text("Amount: $...,"), Err(ScrapeError::Number));
}

#[test]
fn pagecount_ignores_order_and_repetition() {
    let a = "<option>3</option><option>12</option><option>1</option>";
    let b = "<option>12</option><option>1</option><option>12</option><option>3</option><option>3</option>";
    assert_eq!(scrape_donation_list_pagecount(a), scrape_donation_list_pagecount(b));
    assert_eq!(scrape_donation_list_pagecount(b), Ok(12));
}
