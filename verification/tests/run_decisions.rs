use gdq_tracker::analysis::{crossing_thresholds, quartile_amounts};
use gdq_tracker::donation::{Donation, IncompleteDonation};
use gdq_tracker::historic::{entry_to_store, historic_base_time, historic_entry, live_historic_values, seconds_between, HistoricEntry};
use gdq_tracker::progress::{next_step, page_range, route_page_donations, running_totals, ProgressCounts, Step};
use gdq_tracker::stats::{donation_stats_from_captures, get_current_donation_stats};
use gdq_tracker::scrape::ScrapeError;
use gdq_tracker::time::{time_between, TimeSpan, Timestamp};
use gdq_tracker::urls::{donation_list_page_url, donation_list_url, donation_page_url, event_index_url};
use gdq_tracker::webapp::{get_static_base, index, use_local_static_handler, DateField};

fn ts(secs: i64) -> Timestamp {
    Timestamp { secs, nanos: 0 }
}

fn incomplete(id: u32, has_comment: bool) -> IncompleteDonation {
    IncompleteDonation { donation_id: id, donor_id: Some(id * 10), amount: id as i64 * 100, timestamp: ts(id as i64), has_comment }
}

fn donation(amount: i64) -> Donation {
    Donation { donation_id: 1, donor_id: None, amount, timestamp: ts(0), comment: None }
}

#[test]
fn pages_to_queue() {
    assert_eq!(page_range(3), vec![1, 2, 3]);
    assert_eq!(page_range(0), Vec::<u32>::new());
}

#[test]
fn routing_splits_by_comment() {
    let ds = vec![incomplete(1, true), incomplete(2, false), incomplete(3, true), incomplete(4, false)];
    let r = route_page_donations(&ds);
    assert_eq!(r.queued, vec![1, 3]);
    assert_eq!(r.recorded.len(), 2);
    assert_eq!(r.queued.len() + r.recorded.len(), ds.len());
    let d = &r.recorded[0];
    assert_eq!((d.donation_id, d.donor_id, d.amount, d.timestamp, d.comment.clone()), (2, Some(20), 200, ts(2), None));
    assert_eq!(r.recorded[1].donation_id, 4);
}

#[test]
fn without_comment_keeps_the_fields() {
    let d = Donation::without_comment(&incomplete(7, true));
    assert_eq!((d.donation_id, d.donor_id, d.amount, d.timestamp, d.comment), (7, Some(70), 700, ts(7), None));
}

#[test]
fn running_totals_of_the_final_list() {
    let ds = vec![donation(500), donation(2500), donation(100)];
    let t = running_totals(&ds).unwrap();
    assert_eq!(t, vec![500, 3000, 3100]);
    for i in 1..t.len() {
        assert_eq!(t[i] - ds[i].amount, t[i - 1]);
    }
    assert_eq!(running_totals(&vec![]), Some(vec![]));
    assert_eq!(running_totals(&vec![donation(i64::MAX), donation(1)]), None);
    assert_eq!(running_totals(&vec![donation(i64::MAX), donation(-1), donation(1)]), Some(vec![i64::MAX, i64::MAX - 1, i64::MAX]));
}

fn counts(pages: u32, queued: u32, listed: u32, finalized: u32) -> ProgressCounts {
    ProgressCounts { pages, queued_donations: queued, listed_donations: listed, finalized_donations: finalized }
}

#[test]
fn steps_of_a_fresh_run() {
    assert_eq!(next_step(None, counts(0, 0, 0, 0)), Step::InitPages);
    assert_eq!(next_step(Some(Step::InitPages), counts(5, 0, 0, 0)), Step::ProcessPages);
    assert_eq!(next_step(Some(Step::ProcessPages), counts(0, 3, 40, 0)), Step::ProcessDonations);
    assert_eq!(next_step(Some(Step::ProcessDonations), counts(0, 0, 43, 0)), Step::Finalize);
    assert_eq!(next_step(Some(Step::Finalize), counts(0, 0, 43, 43)), Step::Done);
}

#[test]
fn steps_of_a_resumed_or_finished_run() {
    assert_eq!(next_step(None, counts(2, 0, 10, 0)), Step::ProcessPages);
    assert_eq!(next_step(None, counts(0, 0, 10, 10)), Step::Done);
    assert_eq!(next_step(Some(Step::ProcessPages), counts(1, 0, 0, 0)), Step::Done);
    assert_eq!(next_step(Some(Step::Done), counts(0, 0, 0, 0)), Step::Done);
}

#[test]
fn live_stats() {
    let page = "<h2>Donation Total: $1,234,567.89 (12345) &mdash; Max: $5,000</h2>";
    assert_eq!(get_current_donation_stats(page), Ok((12345, 1234567)));
    assert_eq!(get_current_donation_stats("Donation Total: $12 (3) &mdash;"), Ok((3, 12)));
    assert_eq!(get_current_donation_stats("nothing"), Err(ScrapeError::Pattern));
    assert_eq!(get_current_donation_stats("Donation Total: $9,999,999,999 (3) &mdash;"), Err(ScrapeError::Number));
    assert_eq!(donation_stats_from_captures(Some("1,000".to_string()), Some("7".to_string())), Ok((7, 1000)));
    assert_eq!(donation_stats_from_captures(Some("1".to_string()), None), Err(ScrapeError::Pattern));
    assert_eq!(donation_stats_from_captures(Some("1".to_string()), Some("x".to_string())), Err(ScrapeError::Number));
}

#[test]
fn addresses() {
    assert_eq!(donation_list_url("sgdq2016"), "https://gamesdonequick.com/tracker/donations/sgdq2016");
    assert_eq!(donation_list_page_url("sgdq2016", 12), "https://gamesdonequick.com/tracker/donations/sgdq2016?page=12");
    assert_eq!(donation_page_url(1001), "https://gamesdonequick.com/tracker/donation/1001");
    assert_eq!(event_index_url("sgdq2017"), "https://gamesdonequick.com/tracker/index/sgdq2017");
}

#[test]
fn quartiles_and_thresholds() {
    let by_amount = vec![100, 200, 300, 400, 500, 600, 700, 800];
    assert_eq!(quartile_amounts(&by_amount, 8), Some((700, 500, 300)));
    assert_eq!(quartile_amounts(&by_amount, 0), Some((100, 100, 100)));
    assert_eq!(quartile_amounts(&by_amount, 11), None);
    assert_eq!(quartile_amounts(&vec![], 0), None);
    let t = crossing_thresholds();
    assert_eq!(t.len(), 12);
    assert_eq!(t[0], (9000000, 10000000, 11000000));
    assert_eq!(t[11], (119000000, 120000000, 121000000));
}

#[test]
fn historic_figures() {
    assert_eq!(historic_base_time(), Some(ts(1467558000)));
    assert_eq!(seconds_between(100, 160), Some(60));
    assert_eq!(seconds_between(i64::MIN, 1), None);
    assert_eq!(historic_entry(1467558600, 123456, 1467558000), Some(HistoricEntry { seconds_since_beginning: 600, donation_total: 1234 }));
    assert_eq!(historic_entry(0, -150, 0), Some(HistoricEntry { seconds_since_beginning: 0, donation_total: -1 }));
    let e = HistoricEntry { seconds_since_beginning: 1, donation_total: 2 };
    assert_eq!(entry_to_store(0, e), Some(e));
    assert_eq!(entry_to_store(1, e), None);
    assert_eq!(live_historic_values(&vec![900, 800, 700]), Some((900, 3)));
    assert_eq!(live_historic_values(&vec![]), None);
}

#[test]
fn charts_page() {
    assert_eq!(get_static_base(None), "/static");
    assert_eq!(get_static_base(Some("https://cdn.example/s")), "https://cdn.example/s");
    assert!(use_local_static_handler("/static"));
    assert!(!use_local_static_handler("/static/"));
    assert_eq!(
        index("<script src=\"{static_base}/app.js\"></script><style>p {{ x }}</style>", "/s").as_deref(),
        Some("<script src=\"/s/app.js\"></script><style>p { x }</style>")
    );
    assert_eq!(index("{static_base}{static_base}", "a").as_deref(), Some("aa"));
    assert_eq!(index("{other}", "a"), None);
    assert_eq!(index("}", "a"), None);
    assert_eq!(index("", "a").as_deref(), Some(""));
    assert_eq!(index("plain <b>page</b>", "/s").as_deref(), Some("plain <b>page</b>"));
}

#[test]
fn charts_page_placeholders_as_format_writes_them() {
    let b = "/s";
    assert_eq!(index("[{static_base:>6}]", b), Some(format!("[{static_base:>6}]", static_base = b)));
    assert_eq!(index("[{static_base:^7}]", b), Some(format!("[{static_base:^7}]", static_base = b)));
    assert_eq!(index("[{static_base:*<5}]", b), Some(format!("[{static_base:*<5}]", static_base = b)));
    assert_eq!(index("[{static_base:.1}]", b), Some(format!("[{static_base:.1}]", static_base = b)));
    assert_eq!(index("[{static_base:-^9.1}]", b), Some(format!("[{static_base:-^9.1}]", static_base = b)));
    assert_eq!(index("[{static_base:1}]", b), Some(format!("[{static_base:1}]", static_base = b)));
    assert_eq!(index("{0}{0}", b).as_deref(), Some("/s/s"));
    assert_eq!(index("{}-{static_base}", b).as_deref(), Some("/s-/s"));
    assert_eq!(index("{static_base }", b).as_deref(), Some("/s"));
    assert_eq!(index("{}{}", b), None);
    assert_eq!(index("{1}", b), None);
    assert_eq!(index("{static_base:?}", b), None);
    assert_eq!(index("{static_base:05}", b), None);
    assert_eq!(index("{static_base:+}", b), None);
    assert_eq!(index("{static_base", b), None);
    assert_eq!(index("{static{_base}", b), None);
}

#[test]
fn update_dates() {
    assert_eq!(DateField::from_form_value("2016-07-03T15:00:00Z"), Some(DateField(ts(1467558000))));
    assert_eq!(
        DateField::from_form_value("2016-07-03T15:00:00.5+01:00"),
        Some(DateField(Timestamp { secs: 1467554400, nanos: 500000000 }))
    );
    assert_eq!(DateField::from_form_value("not a date"), None);
}

#[test]
fn times_between() {
    let a = Timestamp { secs: 100, nanos: 700_000_000 };
    let b = Timestamp { secs: 160, nanos: 200_000_000 };
    assert_eq!(time_between(a, b), Some(TimeSpan { secs: 59, nanos: 500_000_000 }));
    assert_eq!(time_between(b, a), Some(TimeSpan { secs: -60, nanos: 500_000_000 }));
    assert_eq!(time_between(a, a), Some(TimeSpan { secs: 0, nanos: 0 }));
    assert_eq!(time_between(ts(i64::MIN), ts(i64::MAX)), None);
    assert_eq!(time_between(ts(0), Timestamp { secs: i64::MAX, nanos: 999_999_999 }), Some(TimeSpan { secs: i64::MAX, nanos: 999_999_999 }));
    // as chrono subtracts
    let ca = chrono::DateTime::from_timestamp(100, 700_000_000).unwrap();
    let cb = chrono::DateTime::from_timestamp(160, 200_000_000).unwrap();
    let d = time_between(a, b).unwrap();
    assert_eq!(chrono::TimeDelta::new(d.secs, d.nanos).unwrap(), cb - ca);
    let d = time_between(b, a).unwrap();
    assert_eq!(chrono::TimeDelta::new(d.secs, d.nanos).unwrap(), ca - cb);
}

fn chrono_span(a: Timestamp, b: Timestamp) -> chrono::TimeDelta {
    let ca = chrono::DateTime::from_timestamp(a.secs, a.nanos).unwrap();
    let cb = chrono::DateTime::from_timestamp(b.secs, b.nanos).unwrap();
    cb - ca
}

#[test]
fn times_between_leap_seconds_as_chrono() {
    let leap_midnight = Timestamp { secs: 1483228799, nanos: 1_500_000_000 };
    let day = 1483228800 - 86400;
    let leap_in_day = Timestamp { secs: day + 86339, nanos: 1_500_000_000 };
    let points = [
        leap_midnight,
        leap_in_day,
        Timestamp { secs: 1483228800, nanos: 0 },
        Timestamp { secs: 1483228799, nanos: 200_000_000 },
        Timestamp { secs: day + 86340, nanos: 0 },
        Timestamp { secs: day + 86339, nanos: 999_999_999 },
        Timestamp { secs: day + 10, nanos: 5 },
        Timestamp { secs: -86401, nanos: 0 },
        Timestamp { secs: -61, nanos: 1_250_000_000 },
    ];
    for a in points {
        for b in points {
            let d = time_between(a, b).unwrap();
            assert_eq!(chrono::TimeDelta::new(d.secs, d.nanos).unwrap(), chrono_span(a, b), "from {:?} to {:?}", a, b);
        }
    }
}

/// Loads entries into a list of stored rows as the transfer does.
fn load(rows: &mut Vec<HistoricEntry>, entries: &[HistoricEntry]) {
    for e in entries {
        let existing = rows.iter().filter(|r| r.seconds_since_beginning == e.seconds_since_beginning).count();
        if let Some(new_entry) = entry_to_store(existing, *e) {
            rows.push(new_entry);
        }
    }
}

#[test]
fn loading_past_totals_twice_changes_nothing() {
    let e = |s: i64, t: i32| HistoricEntry { seconds_since_beginning: s, donation_total: t };
    let entries = [e(30, 5), e(10, 2), e(30, 4), e(20, 3)];
    let mut rows = vec![e(10, 1)];
    load(&mut rows, &entries);
    assert_eq!(rows, vec![e(10, 1), e(30, 5), e(20, 3)]);
    let once = rows.clone();
    load(&mut rows, &entries);
    assert_eq!(rows, once);
}
