//! Lining up a past event's donation totals with a live event's: both are
//! measured in seconds from the start of their event.
use vstd::prelude::*;
use crate::money::trunc_div;
use crate::time::{Timestamp, chrono_parse_utc, parse_utc_datetime};

verus! {

/// A past event's total at a moment of the event.
#[derive(Clone, Copy, Debug, PartialEq, Eq, Structural)]
pub struct HistoricEntry {
    pub seconds_since_beginning: i64,
    /// The total in whole dollars.
    pub donation_total: i32,
}

/// When the past event began, as `chrono` reads `2016-07-03T15:00:00+00:00`.
pub fn historic_base_time() -> (res: Option<Timestamp>)
    ensures
        res == chrono_parse_utc("2016-07-03T15:00:00+00:00"@),
{
    parse_utc_datetime("2016-07-03T15:00:00+00:00")
}

/// The seconds from `base` to `t`; `None` where that leaves the range of `i64`.
pub fn seconds_between(base: i64, t: i64) -> (res: Option<i64>)
    ensures
        match res {
            Some(s) => s == t - base,
            None => !(i64::MIN <= t - base <= i64::MAX),
        },
{
    t.checked_sub(base)
}

/// The entry for a donation of the past event made at `timestamp` (seconds)
/// after which the total was `total_after` cents, the event having begun at
/// `base`: the total is cut to whole dollars toward zero.
pub fn historic_entry(timestamp: i64, total_after: i32, base: i64) -> (res: Option<HistoricEntry>)
    ensures
        match res {
            Some(e) => e.seconds_since_beginning == timestamp - base
                && e.donation_total == trunc_div(total_after as int, 100),
            None => !(i64::MIN <= timestamp - base <= i64::MAX),
        },
{
    match seconds_between(base, timestamp) {
        None => None,
        Some(s) => Some(HistoricEntry { seconds_since_beginning: s, donation_total: total_after / 100 }),
    }
}

/// An entry is stored only where none is stored yet for the same moment.
pub fn entry_to_store(existing: usize, entry: HistoricEntry) -> (res: Option<HistoricEntry>)
    ensures
        res == (if existing == 0 { Some(entry) } else { None::<HistoricEntry> }),
{
    if existing == 0 {
        Some(entry)
    } else {
        None
    }
}

/// The past event's figures for a moment of the live event, from the past
/// totals before that moment, latest first: the latest total and how many
/// there are (as an `i32`, cut as `as` does); `None` where there are none.
pub fn live_historic_values(totals_latest_first: &Vec<i32>) -> (res: Option<(i32, i32)>)
    ensures
        match res {
            Some(r) => totals_latest_first@.len() > 0 && r == (totals_latest_first@[0], totals_latest_first@.len() as i32),
            None => totals_latest_first@.len() == 0,
        },
{
    if totals_latest_first.len() == 0 {
        return None;
    }
    Some((totals_latest_first[0], totals_latest_first.len() as i32))
}

/// Whether a stored past total is at the moment `secs` of the event.
pub open spec fn has_moment(rows: Seq<HistoricEntry>, secs: i64) -> bool {
    exists|i: int| 0 <= i < rows.len() && #[trigger] rows[i].seconds_since_beginning == secs
}

/// The stored past totals of the event after one entry is offered: it is
/// stored where `entry_to_store` says so, that is where no row is stored for
/// its moment yet.
pub open spec fn store_entry(rows: Seq<HistoricEntry>, e: HistoricEntry) -> Seq<HistoricEntry> {
    if has_moment(rows, e.seconds_since_beginning) { rows } else { rows.push(e) }
}

/// The stored past totals of the event after the entries `es` are offered in
/// order, as loading the past donations does.
pub open spec fn load_entries(rows: Seq<HistoricEntry>, es: Seq<HistoricEntry>) -> Seq<HistoricEntry>
    decreases es.len(),
{
    if es.len() == 0 {
        rows
    } else {
        store_entry(load_entries(rows, es.drop_last()), es.last())
    }
}

/// Loading only adds rows, keeps the rows already stored as they are, and
/// every row it adds is at a moment that no other row is at.
pub proof fn law_loading_only_adds_new_moments(rows: Seq<HistoricEntry>, es: Seq<HistoricEntry>)
    ensures
        load_entries(rows, es).len() >= rows.len(),
        load_entries(rows, es).take(rows.len() as int) == rows,
        forall|i: int, j: int|
            rows.len() <= i < load_entries(rows, es).len() && 0 <= j < load_entries(rows, es).len() && i != j
                ==> #[trigger] load_entries(rows, es)[i].seconds_since_beginning
                != #[trigger] load_entries(rows, es)[j].seconds_since_beginning,
    decreases es.len(),
{
    if es.len() > 0 {
        let r = load_entries(rows, es.drop_last());
        law_loading_only_adds_new_moments(rows, es.drop_last());
        let e = es.last();
        if !has_moment(r, e.seconds_since_beginning) {
            let n = r.push(e);
            assert(n.take(rows.len() as int) == r.take(rows.len() as int));
            assert forall|i: int, j: int|
                rows.len() <= i < n.len() && 0 <= j < n.len() && i != j implies #[trigger] n[i].seconds_since_beginning
                != #[trigger] n[j].seconds_since_beginning by {
                if i == r.len() {
                    assert(n[j] == r[j]);
                } else if j == r.len() {
                    assert(n[i] == r[i]);
                } else {
                    assert(n[i] == r[i] && n[j] == r[j]);
                }
            }
        }
    }
}

proof fn lemma_loading_covers_its_entries(rows: Seq<HistoricEntry>, es: Seq<HistoricEntry>)
    ensures
        forall|k: int| 0 <= k < es.len() ==> has_moment(load_entries(rows, es), #[trigger] es[k].seconds_since_beginning),
    decreases es.len(),
{
    if es.len() > 0 {
        let p = es.drop_last();
        lemma_loading_covers_its_entries(rows, p);
        let r = load_entries(rows, p);
        let n = load_entries(rows, es);
        let e = es.last();
        if !has_moment(r, e.seconds_since_beginning) {
            assert(n[r.len() as int] == e);
        }
        assert(has_moment(n, e.seconds_since_beginning));
        assert forall|k: int| 0 <= k < es.len() implies has_moment(n, #[trigger] es[k].seconds_since_beginning) by {
            if k < p.len() {
                assert(es[k] == p[k]);
                let s = es[k].seconds_since_beginning;
                let i = choose|i: int| 0 <= i < r.len() && #[trigger] r[i].seconds_since_beginning == s;
                assert(n[i] == r[i]);
            }
        }
    }
}

proof fn lemma_loading_covered_is_no_change(rows: Seq<HistoricEntry>, es: Seq<HistoricEntry>)
    requires
        forall|k: int| 0 <= k < es.len() ==> has_moment(rows, #[trigger] es[k].seconds_since_beginning),
    ensures
        load_entries(rows, es) == rows,
    decreases es.len(),
{
    if es.len() > 0 {
        let p = es.drop_last();
        assert forall|k: int| 0 <= k < p.len() implies has_moment(rows, #[trigger] p[k].seconds_since_beginning) by {
            assert(p[k] == es[k]);
        }
        lemma_loading_covered_is_no_change(rows, p);
        assert(has_moment(rows, es[es.len() - 1].seconds_since_beginning));
    }
}

/// Loading the same past donations a second time changes nothing.
pub proof fn law_loading_twice_changes_nothing(rows: Seq<HistoricEntry>, es: Seq<HistoricEntry>)
    ensures
        load_entries(load_entries(rows, es), es) == load_entries(rows, es),
{
    lemma_loading_covers_its_entries(rows, es);
    lemma_loading_covered_is_no_change(load_entries(rows, es), es);
}

} // verus!
