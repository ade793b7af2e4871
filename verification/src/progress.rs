//! The decisions of a scraping run: which pages to queue, where the donations
//! of a scanned page go, the running totals of the final list, and which step
//! of the run comes next.
use vstd::prelude::*;
use crate::donation::{IncompleteDonation, Donation, DonationView, spec_without_comment};

verus! {

/// The pages of a donation list with `pagecount` pages: `1..=pagecount`.
pub fn page_range(pagecount: u32) -> (res: Vec<u32>)
    requires
        pagecount < u32::MAX,
    ensures
        res@.len() == pagecount,
        forall|i: int| 0 <= i < res@.len() ==> #[trigger] res@[i] == i + 1,
{
    let mut res: Vec<u32> = Vec::new();
    let mut p: u32 = 1;
    while p <= pagecount
        invariant
            pagecount < u32::MAX,
            1 <= p <= pagecount + 1,
            res@.len() == p - 1,
            forall|i: int| 0 <= i < res@.len() ==> #[trigger] res@[i] == i + 1,
        decreases pagecount + 1 - p,
    {
        res.push(p);
        p += 1;
    }
    res
}

/// The ids of the donations that have a comment, in order: they wait in the
/// donation queue until their own page has been read.
pub open spec fn spec_queued_ids(ds: Seq<IncompleteDonation>) -> Seq<u32>
    decreases ds.len(),
{
    if ds.len() == 0 {
        seq![]
    } else if ds.last().has_comment {
        spec_queued_ids(ds.drop_last()).push(ds.last().donation_id)
    } else {
        spec_queued_ids(ds.drop_last())
    }
}

/// The donations that have no comment, in order, recorded at once.
pub open spec fn spec_recorded(ds: Seq<IncompleteDonation>) -> Seq<DonationView>
    decreases ds.len(),
{
    if ds.len() == 0 {
        seq![]
    } else if ds.last().has_comment {
        spec_recorded(ds.drop_last())
    } else {
        spec_recorded(ds.drop_last()).push(spec_without_comment(ds.last()))
    }
}

/// The donations of `ds` that have a comment, in order.
pub open spec fn commented(ds: Seq<IncompleteDonation>) -> Seq<IncompleteDonation> {
    ds.filter(|d: IncompleteDonation| d.has_comment)
}

/// The donations of `ds` that have no comment, in order.
pub open spec fn uncommented(ds: Seq<IncompleteDonation>) -> Seq<IncompleteDonation> {
    ds.filter(|d: IncompleteDonation| !d.has_comment)
}

/// The ids of a list of donations.
pub open spec fn ids_of(ds: Seq<IncompleteDonation>) -> Seq<u32> {
    ds.map_values(|d: IncompleteDonation| d.donation_id)
}

/// A list of donations with the comment left out of each.
pub open spec fn stripped_of_comments(ds: Seq<IncompleteDonation>) -> Seq<DonationView> {
    ds.map_values(|d: IncompleteDonation| spec_without_comment(d))
}

/// Every donation with a comment is queued, whoever its donor, and only those:
/// the queued ids are the ids of the donations that have a comment, in order;
/// the recorded donations are those without one, in order, and none of them
/// comes from a donation that has a comment.
pub proof fn law_commented_donations_are_queued(ds: Seq<IncompleteDonation>)
    ensures
        spec_queued_ids(ds) == ids_of(commented(ds)),
        spec_recorded(ds) == stripped_of_comments(uncommented(ds)),
    decreases ds.len(),
{
    reveal(Seq::filter);
    if ds.len() > 0 {
        law_commented_donations_are_queued(ds.drop_last());
        let p = ds.drop_last();
        let d = ds.last();
        if d.has_comment {
            assert(commented(ds) == commented(p).push(d));
            assert(uncommented(ds) == uncommented(p));
            assert(ids_of(commented(p).push(d)) == ids_of(commented(p)).push(d.donation_id));
        } else {
            assert(commented(ds) == commented(p));
            assert(uncommented(ds) == uncommented(p).push(d));
            assert(stripped_of_comments(uncommented(p).push(d))
                == stripped_of_comments(uncommented(p)).push(spec_without_comment(d)));
        }
    } else {
        assert(commented(ds) == ds);
        assert(uncommented(ds) == ds);
    }
}

/// Where the donations of a scanned page of the donation list go.
pub struct PageRouting {
    /// The ids of the donations to read from their own page.
    pub queued: Vec<u32>,
    /// The donations to record as they are.
    pub recorded: Vec<Donation>,
}

/// The views of a list of donations.
pub open spec fn donations_view(v: Seq<Donation>) -> Seq<DonationView> {
    v.map_values(|d: Donation| d@)
}

/// Splits the donations of a scanned page: those with a comment are queued by
/// id, the others are recorded without a comment.
pub fn route_page_donations(donations: &Vec<IncompleteDonation>) -> (res: PageRouting)
    ensures
        res.queued@ == spec_queued_ids(donations@),
        donations_view(res.recorded@) == spec_recorded(donations@),
        res.queued@ == ids_of(commented(donations@)),
        donations_view(res.recorded@) == stripped_of_comments(uncommented(donations@)),
{
    let mut queued: Vec<u32> = Vec::new();
    let mut recorded: Vec<Donation> = Vec::new();
    let mut i: usize = 0;
    while i < donations.len()
        invariant
            i <= donations.len(),
            queued@ == spec_queued_ids(donations@.take(i as int)),
            donations_view(recorded@) == spec_recorded(donations@.take(i as int)),
        decreases donations.len() - i,
    {
        let ghost pre = donations@.take(i as int);
        let ghost next = donations@.take(i + 1);
        assert(next.drop_last() == pre);
        let d = &donations[i];
        if d.has_comment {
            queued.push(d.donation_id);
        } else {
            let ghost before = recorded@;
            recorded.push(Donation::without_comment(d));
            assert(donations_view(recorded@) == donations_view(before).push(recorded@.last()@));
        }
        i += 1;
    }
    assert(donations@.take(donations.len() as int) == donations@);
    proof {
        law_commented_donations_are_queued(donations@);
    }
    PageRouting { queued, recorded }
}

/// Every donation of a scanned page goes to exactly one place: the number
/// queued and the number recorded add up to the number on the page.
pub proof fn law_routing_keeps_every_donation(ds: Seq<IncompleteDonation>)
    ensures
        spec_queued_ids(ds).len() + spec_recorded(ds).len() == ds.len(),
    decreases ds.len(),
{
    if ds.len() > 0 {
        law_routing_keeps_every_donation(ds.drop_last());
    }
}

/// What a scraping run has stored for the event: the pages of the donation
/// list still to scan, the ids of the donations whose own page is still to
/// read, and the donations recorded.
pub struct ProgressTables {
    pub pages: Set<u32>,
    pub queued: Seq<u32>,
    pub recorded: Seq<DonationView>,
}

/// The stored progress after the scanned page `page_id`, which lists
/// `donations`, is taken off the page queue: the page leaves the queue, and
/// the page's donations are queued or recorded as `route_page_donations`
/// decides.
pub open spec fn spec_dequeue_page(t: ProgressTables, page_id: u32, donations: Seq<IncompleteDonation>) -> ProgressTables {
    ProgressTables {
        pages: t.pages.remove(page_id),
        queued: t.queued + spec_queued_ids(donations),
        recorded: t.recorded + spec_recorded(donations),
    }
}

/// Taking a queued page off the queue leaves one page fewer to scan, and adds
/// every donation of the page to the queued or the recorded donations.
pub proof fn law_dequeue_moves_page_donations(t: ProgressTables, page_id: u32, donations: Seq<IncompleteDonation>)
    requires
        t.pages.finite(),
        t.pages.contains(page_id),
    ensures
        spec_dequeue_page(t, page_id, donations).pages.len() == t.pages.len() - 1,
        spec_dequeue_page(t, page_id, donations).queued.len() + spec_dequeue_page(t, page_id, donations).recorded.len()
            == t.queued.len() + t.recorded.len() + donations.len(),
{
    law_routing_keeps_every_donation(donations);
}

/// The sum of the first `k` of `amounts`.
pub open spec fn prefix_sum(amounts: Seq<i64>, k: int) -> int
    decreases k,
{
    if k <= 0 || k > amounts.len() {
        0
    } else {
        prefix_sum(amounts, k - 1) + amounts[k - 1]
    }
}

/// Whether every running total of `amounts` fits in an `i64`.
pub open spec fn totals_fit(amounts: Seq<i64>) -> bool {
    forall|k: int| 1 <= k <= amounts.len() ==> i64::MIN <= #[trigger] prefix_sum(amounts, k) <= i64::MAX
}

/// The amounts of a list of donations.
pub open spec fn amounts_of(ds: Seq<Donation>) -> Seq<i64> {
    ds.map_values(|d: Donation| d.amount)
}

/// The total raised after each donation of the final list, in the list's order
/// (oldest first): `None` where a running total leaves the range of `i64`.
pub fn running_totals(donations: &Vec<Donation>) -> (res: Option<Vec<i64>>)
    ensures
        match res {
            Some(t) => t@.len() == donations@.len() && forall|i: int|
                0 <= i < t@.len() ==> #[trigger] t@[i] == prefix_sum(amounts_of(donations@), i + 1),
            None => !totals_fit(amounts_of(donations@)),
        },
{
    let ghost a = amounts_of(donations@);
    let mut totals: Vec<i64> = Vec::new();
    let mut total: i64 = 0;
    let mut i: usize = 0;
    while i < donations.len()
        invariant
            i <= donations.len(),
            a == amounts_of(donations@),
            a.len() == donations@.len(),
            totals@.len() == i,
            total == prefix_sum(a, i as int),
            forall|k: int| 0 <= k < i ==> #[trigger] totals@[k] == prefix_sum(a, k + 1),
        decreases donations.len() - i,
    {
        assert(a[i as int] == donations@[i as int].amount);
        match total.checked_add(donations[i].amount) {
            None => {
                assert(!(i64::MIN <= prefix_sum(a, i + 1) <= i64::MAX));
                return None;
            },
            Some(t) => {
                total = t;
            },
        }
        totals.push(total);
        i += 1;
    }
    Some(totals)
}

/// Each donation's total before it (its total after, less its amount) is the
/// total after the donation before it, and the first starts from nothing.
pub proof fn law_total_before_is_previous_total_after(amounts: Seq<i64>, i: int)
    requires
        0 <= i < amounts.len(),
    ensures
        prefix_sum(amounts, i + 1) - amounts[i] == (if i == 0 { 0 } else { prefix_sum(amounts, i) }),
{
    assert(prefix_sum(amounts, 0) == 0);
}

/// The last running total is the sum of all the amounts; it only grows where
/// no amount is negative.
pub proof fn law_running_totals_grow(amounts: Seq<i64>, i: int, j: int)
    requires
        forall|k: int| 0 <= k < amounts.len() ==> #[trigger] amounts[k] >= 0,
        0 <= i <= j <= amounts.len(),
    ensures
        prefix_sum(amounts, i) <= prefix_sum(amounts, j),
    decreases j - i,
{
    if i < j {
        law_running_totals_grow(amounts, i, j - 1);
        assert(amounts[j - 1] >= 0);
    }
}

/// How many rows each table of a scraping run holds for the event.
#[derive(Clone, Copy, Debug, PartialEq, Eq, Structural)]
pub struct ProgressCounts {
    /// Pages of the donation list still to scan.
    pub pages: u32,
    /// Donations whose own page is still to read.
    pub queued_donations: u32,
    /// Donations recorded so far.
    pub listed_donations: u32,
    /// Donations in the final list.
    pub finalized_donations: u32,
}

/// The steps of a scraping run, in the order in which they are considered.
#[derive(Clone, Copy, Debug, PartialEq, Eq, Structural)]
pub enum Step {
    /// Queue every page of the donation list.
    InitPages,
    /// Scan the queued pages.
    ProcessPages,
    /// Read the queued donations' own pages.
    ProcessDonations,
    /// Write the final list with running totals.
    Finalize,
    /// Nothing is left to do.
    Done,
}

/// The position of a step in the run.
pub open spec fn step_rank(s: Step) -> nat {
    match s {
        Step::InitPages => 0,
        Step::ProcessPages => 1,
        Step::ProcessDonations => 2,
        Step::Finalize => 3,
        Step::Done => 4,
    }
}

/// Whether step `s` is due with these counts: pages are queued only when
/// nothing at all is stored yet, a stage runs while it has work queued, and
/// the final list is written once there are donations and it is empty.
pub open spec fn step_due(s: Step, c: ProgressCounts) -> bool {
    match s {
        Step::InitPages => c.pages == 0 && c.queued_donations == 0 && c.listed_donations == 0
            && c.finalized_donations == 0,
        Step::ProcessPages => c.pages > 0,
        Step::ProcessDonations => c.queued_donations > 0,
        Step::Finalize => c.listed_donations > 0 && c.finalized_donations == 0,
        Step::Done => true,
    }
}

/// The step after `previous` (from the start when `None`) that is due with the
/// current counts: the first due step of higher rank.
pub open spec fn spec_next_step(previous: Option<Step>, c: ProgressCounts) -> Step {
    let from: nat = match previous {
        None => 0,
        Some(p) => step_rank(p) + 1,
    };
    if from <= 0 && step_due(Step::InitPages, c) {
        Step::InitPages
    } else if from <= 1 && step_due(Step::ProcessPages, c) {
        Step::ProcessPages
    } else if from <= 2 && step_due(Step::ProcessDonations, c) {
        Step::ProcessDonations
    } else if from <= 3 && step_due(Step::Finalize, c) {
        Step::Finalize
    } else {
        Step::Done
    }
}

/// Decides the next step of a scraping run from the step just taken and the
/// counts read after it.
pub fn next_step(previous: Option<Step>, c: ProgressCounts) -> (res: Step)
    ensures
        res == spec_next_step(previous, c),
        (previous is None || previous == Some(Step::InitPages)) && c.pages > 0 ==> res
            == Step::ProcessPages,
        (previous is None || previous == Some(Step::InitPages) || previous == Some(
            Step::ProcessPages,
        )) && c.pages == 0 && c.queued_donations > 0 ==> res == Step::ProcessDonations,
        res == Step::Finalize || res == Step::Done ==> c.queued_donations == 0 || previous == Some(
            Step::ProcessDonations,
        ) || previous == Some(Step::Finalize) || previous == Some(Step::Done),
        previous != Some(Step::Finalize) && previous != Some(Step::Done) && c.pages == 0
            && c.queued_donations == 0 && c.listed_donations > 0 && c.finalized_donations == 0
            ==> res == Step::Finalize,
{
    let from: u8 = match previous {
        None => 0,
        Some(Step::InitPages) => 1,
        Some(Step::ProcessPages) => 2,
        Some(Step::ProcessDonations) => 3,
        Some(Step::Finalize) => 4,
        Some(Step::Done) => 5,
    };
    if from == 0 && c.pages == 0 && c.queued_donations == 0 && c.listed_donations == 0
        && c.finalized_donations == 0 {
        Step::InitPages
    } else if from <= 1 && c.pages > 0 {
        Step::ProcessPages
    } else if from <= 2 && c.queued_donations > 0 {
        Step::ProcessDonations
    } else if from <= 3 && c.listed_donations > 0 && c.finalized_donations == 0 {
        Step::Finalize
    } else {
        Step::Done
    }
}

/// A run resumes where it stopped: pages are queued only while nothing at
/// all is stored, and the final list is written only while it is empty and
/// there are donations to write.
pub proof fn law_resumed_run_never_restarts(previous: Option<Step>, c: ProgressCounts)
    ensures
        spec_next_step(previous, c) == Step::InitPages ==> c.pages == 0 && c.queued_donations == 0
            && c.listed_donations == 0 && c.finalized_donations == 0,
        spec_next_step(previous, c) == Step::Finalize ==> c.listed_donations > 0
            && c.finalized_donations == 0,
{
}

/// A run never goes back: each step comes after the one before it (or is
/// `Done`), so every step is taken at most once and a run ends.
pub proof fn law_steps_move_forward(previous: Step, c: ProgressCounts)
    requires
        previous != Step::Done,
    ensures
        step_rank(spec_next_step(Some(previous), c)) > step_rank(previous),
{
}

/// Queued donations are read before the final list is written: while pages
/// are left the run scans them, once none is left and donations wait for
/// their own page the run reads them, and the final list is never chosen
/// while donations are queued unless the step just taken read them.
pub proof fn law_queued_donations_are_read_before_finalizing(previous: Option<Step>, c: ProgressCounts)
    ensures
        (previous is None || previous == Some(Step::InitPages)) && c.pages > 0
            ==> spec_next_step(previous, c) == Step::ProcessPages,
        (previous is None || previous == Some(Step::InitPages) || previous == Some(
            Step::ProcessPages,
        )) && c.pages == 0 && c.queued_donations > 0 ==> spec_next_step(previous, c)
            == Step::ProcessDonations,
        spec_next_step(previous, c) == Step::Finalize || spec_next_step(previous, c) == Step::Done
            ==> c.queued_donations == 0 || previous == Some(Step::ProcessDonations) || previous
            == Some(Step::Finalize) || previous == Some(Step::Done),
{
}

/// Once nothing is queued, a run that has not yet finalized writes the final
/// list as soon as donations are recorded and the list is empty.
pub proof fn law_recorded_donations_are_finalized(previous: Option<Step>, c: ProgressCounts)
    requires
        previous != Some(Step::Finalize),
        previous != Some(Step::Done),
        c.pages == 0,
        c.queued_donations == 0,
        c.listed_donations > 0,
        c.finalized_donations == 0,
    ensures
        spec_next_step(previous, c) == Step::Finalize,
{
}

} // verus!
