//! The donations that the tracker lists, as the scraper records them.
use vstd::prelude::*;
use crate::time::Timestamp;

verus! {

/// A donation as a page of the donation list shows it: the comment itself is
/// on the donation's own page, the list only says whether there is one.
#[derive(Clone, Copy, Debug, PartialEq, Eq, Structural)]
pub struct IncompleteDonation {
    pub donation_id: u32,
    pub donor_id: Option<u32>,
    pub amount: i64,
    pub timestamp: Timestamp,
    pub has_comment: bool,
}

/// A donation with its comment, if it has one that was approved.
#[derive(Debug)]
pub struct Donation {
    pub donation_id: u32,
    pub donor_id: Option<u32>,
    pub amount: i64,
    pub timestamp: Timestamp,
    pub comment: Option<String>,
}

/// The value of a `Donation`, its comment as a sequence of characters.
pub struct DonationView {
    pub donation_id: u32,
    pub donor_id: Option<u32>,
    pub amount: i64,
    pub timestamp: Timestamp,
    pub comment: Option<Seq<char>>,
}

impl View for Donation {
    type V = DonationView;

    open spec fn view(&self) -> DonationView {
        DonationView {
            donation_id: self.donation_id,
            donor_id: self.donor_id,
            amount: self.amount,
            timestamp: self.timestamp,
            comment: match self.comment {
                Some(c) => Some(c@),
                None => None,
            },
        }
    }
}

/// The donation that `donation` is once it is known to have no comment.
pub open spec fn spec_without_comment(donation: IncompleteDonation) -> DonationView {
    DonationView {
        donation_id: donation.donation_id,
        donor_id: donation.donor_id,
        amount: donation.amount,
        timestamp: donation.timestamp,
        comment: None,
    }
}

impl Donation {
    /// The donation recorded for a list entry that has no comment.
    pub fn without_comment(donation: &IncompleteDonation) -> (res: Donation)
        ensures
            res@ == spec_without_comment(*donation),
    {
        Donation {
            donation_id: donation.donation_id,
            donor_id: donation.donor_id,
            amount: donation.amount,
            timestamp: donation.timestamp,
            comment: None,
        }
    }
}

} // verus!
