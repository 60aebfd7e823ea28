//! The typed record of one repository's pull-request statistics.

use vstd::prelude::*;
use vstd::string::StringExecFns;

verus! {

/// The pull-request statistics of one repository.
///
/// `all` counts every pull request, `open` those still open, and `oldest` is
/// the age in whole days of the oldest open one. Where no open pull request
/// is known, `oldest` is `None`, never an age of zero.
#[derive(Clone, Copy, Debug, PartialEq, Eq)]
pub struct PullRequestsMetrics {
    pub all: u64,
    pub open: u64,
    pub oldest: Option<u64>,
}

/// The statistics that are kept of one repository.
#[derive(Clone, Copy, Debug, PartialEq, Eq)]
pub struct RepoMetrics {
    pub pull_requests: PullRequestsMetrics,
}

impl PullRequestsMetrics {
    /// The counts agree: no more pull requests are open than exist, and an
    /// age is present only where a pull request is open.
    pub open spec fn well_formed(self) -> bool {
        &&& self.open <= self.all
        &&& self.open == 0 ==> self.oldest is None
    }

    /// The record of the given counts and age, where they agree.
    pub fn new(all: u64, open: u64, oldest: Option<u64>) -> (r: Option<PullRequestsMetrics>)
        ensures
            r == if (PullRequestsMetrics { all, open, oldest }).well_formed() {
                Some(PullRequestsMetrics { all, open, oldest })
            } else {
                None
            },
    {
        if open > all {
            return None;
        }
        if open == 0 && oldest.is_some() {
            return None;
        }
        Some(PullRequestsMetrics { all, open, oldest })
    }
}

impl RepoMetrics {
    /// The counts of the record agree.
    pub open spec fn well_formed(self) -> bool {
        self.pull_requests.well_formed()
    }
}

/// The text of one decimal digit.
pub open spec fn digit_text(digit: nat) -> Seq<char> {
    if digit == 0 {
        "0"@
    } else if digit == 1 {
        "1"@
    } else if digit == 2 {
        "2"@
    } else if digit == 3 {
        "3"@
    } else if digit == 4 {
        "4"@
    } else if digit == 5 {
        "5"@
    } else if digit == 6 {
        "6"@
    } else if digit == 7 {
        "7"@
    } else if digit == 8 {
        "8"@
    } else {
        "9"@
    }
}

/// The decimal text of a number, without leading zeros.
pub open spec fn decimal_text(n: nat) -> Seq<char>
    decreases n,
{
    if n < 10 {
        digit_text(n)
    } else {
        decimal_text(n / 10) + digit_text(n % 10)
    }
}

/// The text of one decimal digit.
fn digit(value: u64) -> (r: &'static str)
    requires
        value < 10,
    ensures
        r@ == digit_text(value as nat),
{
    let digit: u64 = value;
    if digit == 0 {
        "0"
    } else if digit == 1 {
        "1"
    } else if digit == 2 {
        "2"
    } else if digit == 3 {
        "3"
    } else if digit == 4 {
        "4"
    } else if digit == 5 {
        "5"
    } else if digit == 6 {
        "6"
    } else if digit == 7 {
        "7"
    } else if digit == 8 {
        "8"
    } else {
        "9"
    }
}

/// Writes a number in decimal.
pub fn decimal(n: u64) -> (r: String)
    ensures
        r@ == decimal_text(n as nat),
    decreases n,
{
    if n < 10 {
        String::from_str(digit(n))
    } else {
        let mut text = decimal(n / 10);
        text.append(digit(n % 10));
        text
    }
}

/// Writes an age in whole days as it is shown: the number, a space, and the
/// word `days`.
pub fn serialize_duration(days: u64) -> (r: String)
    ensures
        r@ == decimal_text(days as nat) + " days"@,
{
    let mut text = decimal(days);
    text.append(" days");
    text
}

} // verus!
