//! The stored entities, the snapshots that the revision log keeps of them,
//! and the errors of the record store.

use crate::outside::{calendar_day_exists, parse_ymd, valid_ymd, ymd_parsed_from};
use vstd::prelude::*;

verus! {

/// The view of an optional text.
pub open spec fn opt_view(o: Option<String>) -> Option<Seq<char>> {
    match o {
        Some(s) => Some(s@),
        None => None,
    }
}

/// Microseconds since the Unix epoch, in UTC.
pub type Timestamp = i64;

/// A calendar day.
#[derive(Clone, Copy, Debug, PartialEq, Eq, Structural)]
pub struct Date {
    pub year: i32,
    pub month: u32,
    pub day: u32,
}

impl Date {
    pub open spec fn valid(self) -> bool {
        valid_ymd(self.year as int, self.month as int, self.day as int)
    }

    /// The day with this year, month and day, if there is one.
    pub fn from_ymd(year: i32, month: u32, day: u32) -> (r: Option<Date>)
        ensures
            r is Some <==> valid_ymd(year as int, month as int, day as int),
            r matches Some(d) ==> d.year == year && d.month == month && d.day == day,
    {
        if calendar_day_exists(year, month, day) {
            Some(Date { year, month, day })
        } else {
            None
        }
    }

    /// Reads a day written `YYYY-MM-DD`.
    pub fn parse(s: &str) -> (r: Option<Date>)
        ensures
            r is Some <==> ymd_parsed_from(s@) is Some,
            r matches Some(d) ==> d.valid() && ymd_parsed_from(s@) == Some(
                (d.year, d.month, d.day),
            ),
    {
        match parse_ymd(s) {
            Some(t) => Some(Date { year: t.0, month: t.1, day: t.2 }),
            None => None,
        }
    }
}

/// A donation as it is stored.
#[derive(Clone, Debug)]
pub struct DonationRecord {
    pub id: String,
    pub user_id: String,
    pub year: i32,
    pub date: Date,
    pub category: Option<String>,
    /// Amount in cents.
    pub amount_cents: Option<i64>,
    pub charity_id: String,
    pub notes: Option<String>,
    pub created_at: Timestamp,
    pub updated_at: Option<Timestamp>,
    pub deleted: bool,
}

/// A donation joined with the charity it goes to, as listings return it.
#[derive(Clone, Debug)]
pub struct Donation {
    pub id: String,
    pub user_id: String,
    pub year: i32,
    pub date: Date,
    pub category: Option<String>,
    /// Amount in cents.
    pub amount_cents: Option<i64>,
    pub charity_id: String,
    /// Name of the charity; `None` once the charity has been deleted.
    pub charity_name: Option<String>,
    pub charity_ein: Option<String>,
    pub notes: Option<String>,
    pub shared_with: Option<Vec<String>>,
    pub created_at: Timestamp,
    pub updated_at: Option<Timestamp>,
    pub deleted: bool,
}

/// What describes a charity besides its owner and name.
#[derive(Clone, Debug)]
pub struct CharityDetails {
    pub ein: Option<String>,
    pub category: Option<String>,
    pub status: Option<String>,
    pub classification: Option<String>,
    pub nonprofit_type: Option<String>,
    pub deductibility: Option<String>,
    pub street: Option<String>,
    pub city: Option<String>,
    pub state: Option<String>,
    pub zip: Option<String>,
}

#[derive(Clone, Debug)]
pub struct Charity {
    pub id: String,
    pub user_id: String,
    pub name: String,
    pub details: CharityDetails,
    pub created_at: Timestamp,
    pub updated_at: Option<Timestamp>,
}

#[derive(Clone, Debug)]
pub struct Receipt {
    pub id: String,
    pub donation_id: String,
    pub key: String,
    pub file_name: Option<String>,
    pub content_type: Option<String>,
    pub size: Option<i64>,
    pub ocr_text: Option<String>,
    pub ocr_date: Option<Date>,
    /// Amount read from the receipt, in cents.
    pub ocr_amount: Option<i64>,
    pub ocr_status: Option<String>,
    pub created_at: Timestamp,
}

/// A user's profile, refreshed at every sign-in.
#[derive(Clone, Debug)]
pub struct UserProfile {
    pub id: String,
    pub email: String,
    pub name: String,
    pub provider: String,
    pub phone: Option<String>,
    pub tax_id: Option<String>,
    pub filing_status: Option<String>,
    /// Adjusted gross income, in cents.
    pub agi_cents: Option<i64>,
    /// Marginal tax rate, in hundredths of a percent.
    pub marginal_tax_rate_bps: Option<i64>,
    pub itemize_deductions: Option<bool>,
}

/// The user-facing activity log entry.
#[derive(Clone, Debug)]
pub struct AuditLog {
    pub id: String,
    pub user_id: String,
    pub action: String,
    pub table_name: String,
    pub record_id: Option<String>,
    pub details: Option<String>,
    pub created_at: Timestamp,
}

#[derive(Clone, Copy, Debug, PartialEq, Eq, Structural)]
pub enum Table {
    Donations,
    Charities,
    Receipts,
    Users,
}

impl Table {
    pub open spec fn spec_name(self) -> Seq<char> {
        match self {
            Table::Donations => "donations"@,
            Table::Charities => "charities"@,
            Table::Receipts => "receipts"@,
            Table::Users => "users"@,
        }
    }

    /// The table's name in a backend.
    pub fn name(&self) -> (r: &'static str)
        ensures
            r@ == self.spec_name(),
    {
        match self {
            Table::Donations => "donations",
            Table::Charities => "charities",
            Table::Receipts => "receipts",
            Table::Users => "users",
        }
    }
}

#[derive(Clone, Copy, Debug, PartialEq, Eq, Structural)]
pub enum Operation {
    Create,
    Update,
    Delete,
}

impl Operation {
    pub open spec fn spec_name(self) -> Seq<char> {
        match self {
            Operation::Create => "create"@,
            Operation::Update => "update"@,
            Operation::Delete => "delete"@,
        }
    }

    /// The operation's name in the revision log.
    pub fn name(&self) -> (r: &'static str)
        ensures
            r@ == self.spec_name(),
    {
        match self {
            Operation::Create => "create",
            Operation::Update => "update",
            Operation::Delete => "delete",
        }
    }
}

/// Every column of one entity at one instant.
#[derive(Clone, Debug)]
pub enum Snapshot {
    Donation(DonationRecord),
    Charity(Charity),
    Receipt(Receipt),
    User(UserProfile),
}

/// A before/after record of one mutation.
#[derive(Clone, Debug)]
pub struct Revision {
    pub id: String,
    pub user_id: Option<String>,
    pub table: Table,
    pub record_id: String,
    pub operation: Operation,
    pub old_values: Option<Snapshot>,
    pub new_values: Option<Snapshot>,
    pub created_at: Timestamp,
}

#[derive(Clone, Copy, Debug, PartialEq, Eq, Structural)]
pub enum StoreError {
    /// A record with that id already exists.
    DuplicateId,
    /// A rename would give the user two charities whose names differ only in case.
    DuplicateName,
    /// No charity with that id belongs to the user.
    UnknownCharity,
    /// No donation with that id exists.
    UnknownDonation,
}

} // verus!
