//! The record store: the tables every backend holds, their invariant, and
//! the lookups and revision writing that the operations share.

use crate::outside::lower_of;
use crate::records::{
    AuditLog, Charity, CharityDetails, DonationRecord, Operation, Receipt, Revision, Snapshot,
    Table, Timestamp, UserProfile,
};
use vstd::prelude::*;

verus! {

/// Every table of the store. A backend holds the same rows.
pub struct Store {
    pub donations: Vec<DonationRecord>,
    pub charities: Vec<Charity>,
    pub receipts: Vec<Receipt>,
    pub revisions: Vec<Revision>,
    pub audit_logs: Vec<AuditLog>,
    pub users: Vec<UserProfile>,
}

pub open spec fn donation_ids_unique(ds: Seq<DonationRecord>) -> bool {
    forall|i: int, j: int|
        0 <= i < ds.len() && 0 <= j < ds.len() && i != j ==> #[trigger] ds[i].id@ != #[trigger] ds[j].id@
}

pub open spec fn charity_ids_unique(cs: Seq<Charity>) -> bool {
    forall|i: int, j: int|
        0 <= i < cs.len() && 0 <= j < cs.len() && i != j ==> #[trigger] cs[i].id@ != #[trigger] cs[j].id@
}

pub open spec fn receipt_ids_unique(rs: Seq<Receipt>) -> bool {
    forall|i: int, j: int|
        0 <= i < rs.len() && 0 <= j < rs.len() && i != j ==> #[trigger] rs[i].id@ != #[trigger] rs[j].id@
}

pub open spec fn user_ids_unique(us: Seq<UserProfile>) -> bool {
    forall|i: int, j: int|
        0 <= i < us.len() && 0 <= j < us.len() && i != j ==> #[trigger] us[i].id@ != #[trigger] us[j].id@
}

/// No user has two charities whose names differ only in case.
pub open spec fn charity_names_unique(cs: Seq<Charity>) -> bool {
    forall|i: int, j: int|
        0 <= i < cs.len() && 0 <= j < cs.len() && i != j && #[trigger] cs[i].user_id@
            == #[trigger] cs[j].user_id@ ==> lower_of(cs[i].name@) != lower_of(cs[j].name@)
}

/// The year of each donation is the year of its date.
pub open spec fn years_follow_dates(ds: Seq<DonationRecord>) -> bool {
    forall|i: int| 0 <= i < ds.len() ==> #[trigger] ds[i].year == ds[i].date.year
}

/// Each donation's date is a calendar day.
pub open spec fn dates_valid(ds: Seq<DonationRecord>) -> bool {
    forall|i: int| 0 <= i < ds.len() ==> (#[trigger] ds[i]).date.valid()
}

/// The stored charity `j` is the one the donation goes to, and belongs to the
/// donation's owner.
pub open spec fn goes_to(d: DonationRecord, cs: Seq<Charity>, j: int) -> bool {
    0 <= j < cs.len() && cs[j].id@ == d.charity_id@ && cs[j].user_id@ == d.user_id@
}

/// Each donation that is not deleted goes to a stored charity of its owner.
pub open spec fn live_charities_owned(ds: Seq<DonationRecord>, cs: Seq<Charity>) -> bool {
    forall|i: int| 0 <= i < ds.len() && !(#[trigger] ds[i]).deleted ==> exists|j: int| goes_to(ds[i], cs, j)
}

/// Each receipt belongs to a stored donation.
pub open spec fn receipts_attached(rs: Seq<Receipt>, ds: Seq<DonationRecord>) -> bool {
    forall|r: int|
        #![trigger rs[r]]
        0 <= r < rs.len() ==> exists|i: int| 0 <= i < ds.len() && ds[i].id@ == rs[r].donation_id@
}

/// Each date read from a receipt is a calendar day.
pub open spec fn ocr_dates_valid(rs: Seq<Receipt>) -> bool {
    forall|r: int| 0 <= r < rs.len() ==> match (#[trigger] rs[r]).ocr_date {
        Some(d) => d.valid(),
        None => true,
    }
}

/// Position of the donation with this id, or -1.
pub open spec fn donation_index(ds: Seq<DonationRecord>, id: Seq<char>) -> int {
    if exists|i: int| 0 <= i < ds.len() && ds[i].id@ == id {
        choose|i: int| 0 <= i < ds.len() && ds[i].id@ == id
    } else {
        -1
    }
}

/// Position of the charity with this id, or -1.
pub open spec fn charity_index(cs: Seq<Charity>, id: Seq<char>) -> int {
    if exists|i: int| 0 <= i < cs.len() && cs[i].id@ == id {
        choose|i: int| 0 <= i < cs.len() && cs[i].id@ == id
    } else {
        -1
    }
}

/// Position of the receipt with this id, or -1.
pub open spec fn receipt_index(rs: Seq<Receipt>, id: Seq<char>) -> int {
    if exists|i: int| 0 <= i < rs.len() && rs[i].id@ == id {
        choose|i: int| 0 <= i < rs.len() && rs[i].id@ == id
    } else {
        -1
    }
}

/// Position of the profile with this id, or -1.
pub open spec fn user_index(us: Seq<UserProfile>, id: Seq<char>) -> int {
    if exists|i: int| 0 <= i < us.len() && us[i].id@ == id {
        choose|i: int| 0 <= i < us.len() && us[i].id@ == id
    } else {
        -1
    }
}

/// The donation with this id exists and belongs to the user.
pub open spec fn donation_owned(ds: Seq<DonationRecord>, id: Seq<char>, user: Seq<char>) -> bool {
    let i = donation_index(ds, id);
    i >= 0 && ds[i].user_id@ == user
}

/// The charity with this id exists and belongs to the user.
pub open spec fn charity_owned(cs: Seq<Charity>, id: Seq<char>, user: Seq<char>) -> bool {
    let i = charity_index(cs, id);
    i >= 0 && cs[i].user_id@ == user
}

pub open spec fn revision_of(
    r: Revision,
    user_id: Option<String>,
    table: Table,
    record_id: String,
    operation: Operation,
    old_values: Option<Snapshot>,
    new_values: Option<Snapshot>,
    at: Timestamp,
) -> bool {
    &&& r.user_id == user_id
    &&& r.table == table
    &&& r.record_id == record_id
    &&& r.operation == operation
    &&& r.old_values == old_values
    &&& r.new_values == new_values
    &&& r.created_at == at
}

/// One revision was appended to the log, and the log was otherwise kept.
pub open spec fn one_revision_added(before: Seq<Revision>, after: Seq<Revision>) -> bool {
    after.len() == before.len() + 1 && after == before.push(after.last())
}

/// Adding a charity keeps every live donation's charity.
pub proof fn lemma_refs_after_charity_push(ds: Seq<DonationRecord>, cs: Seq<Charity>, c: Charity)
    requires
        live_charities_owned(ds, cs),
    ensures
        live_charities_owned(ds, cs.push(c)),
{
    assert forall|i: int| 0 <= i < ds.len() && !(#[trigger] ds[i]).deleted implies exists|j: int|
        goes_to(ds[i], cs.push(c), j) by {
        let j = choose|j: int| goes_to(ds[i], cs, j);
        assert(cs.push(c)[j] == cs[j]);
        assert(goes_to(ds[i], cs.push(c), j));
    }
}

/// Changing a charity but not its id or owner keeps every live donation's charity.
pub proof fn lemma_refs_after_charity_update(ds: Seq<DonationRecord>, cs: Seq<Charity>, k: int, c: Charity)
    requires
        live_charities_owned(ds, cs),
        0 <= k < cs.len(),
        c.id@ == cs[k].id@,
        c.user_id@ == cs[k].user_id@,
    ensures
        live_charities_owned(ds, cs.update(k, c)),
{
    assert forall|i: int| 0 <= i < ds.len() && !(#[trigger] ds[i]).deleted implies exists|j: int|
        goes_to(ds[i], cs.update(k, c), j) by {
        let j = choose|j: int| goes_to(ds[i], cs, j);
        assert(goes_to(ds[i], cs.update(k, c), j));
    }
}

/// Removing a charity that no live donation goes to keeps every live
/// donation's charity.
pub proof fn lemma_refs_after_charity_remove(ds: Seq<DonationRecord>, cs: Seq<Charity>, k: int)
    requires
        live_charities_owned(ds, cs),
        charity_ids_unique(cs),
        0 <= k < cs.len(),
        forall|i: int| 0 <= i < ds.len() && !(#[trigger] ds[i]).deleted ==> !(ds[i].charity_id@ == cs[k].id@
            && ds[i].user_id@ == cs[k].user_id@),
    ensures
        live_charities_owned(ds, cs.remove(k)),
{
    let ns = cs.remove(k);
    assert forall|i: int| 0 <= i < ds.len() && !(#[trigger] ds[i]).deleted implies exists|j: int|
        goes_to(ds[i], ns, j) by {
        let j = choose|j: int| goes_to(ds[i], cs, j);
        assert(j != k);
        if j < k {
            assert(ns[j] == cs[j]);
            assert(goes_to(ds[i], ns, j));
        } else {
            assert(ns[j - 1] == cs[j]);
            assert(goes_to(ds[i], ns, j - 1));
        }
    }
}

/// Replacing a donation by one that keeps its id and, when live, goes to a
/// charity of its owner keeps the invariant's donation clauses.
pub proof fn lemma_donation_set(
    ds: Seq<DonationRecord>,
    cs: Seq<Charity>,
    rs: Seq<Receipt>,
    k: int,
    d: DonationRecord,
)
    requires
        live_charities_owned(ds, cs),
        receipts_attached(rs, ds),
        dates_valid(ds),
        0 <= k < ds.len(),
        d.id@ == ds[k].id@,
        d.date.valid(),
        !d.deleted ==> exists|j: int| goes_to(d, cs, j),
    ensures
        live_charities_owned(ds.update(k, d), cs),
        receipts_attached(rs, ds.update(k, d)),
        dates_valid(ds.update(k, d)),
{
    let nd = ds.update(k, d);
    assert forall|i: int| 0 <= i < nd.len() && !(#[trigger] nd[i]).deleted implies exists|j: int|
        goes_to(nd[i], cs, j) by {
        if i != k {
            assert(nd[i] == ds[i]);
            assert(!ds[i].deleted);
        }
    }
    assert forall|r: int| #![trigger rs[r]] 0 <= r < rs.len() implies exists|i: int|
        0 <= i < nd.len() && nd[i].id@ == rs[r].donation_id@ by {
        let i = choose|i: int| 0 <= i < ds.len() && ds[i].id@ == rs[r].donation_id@;
        assert(nd[i].id@ == ds[i].id@);
    }
    assert forall|i: int| 0 <= i < nd.len() implies (#[trigger] nd[i]).date.valid() by {
        if i != k {
            assert(nd[i] == ds[i]);
        }
    }
}

/// Adding a donation whose date is a calendar day and which goes to a charity
/// of its owner keeps the invariant's donation clauses.
pub proof fn lemma_donation_push(
    ds: Seq<DonationRecord>,
    cs: Seq<Charity>,
    rs: Seq<Receipt>,
    d: DonationRecord,
)
    requires
        live_charities_owned(ds, cs),
        receipts_attached(rs, ds),
        dates_valid(ds),
        d.date.valid(),
        exists|j: int| goes_to(d, cs, j),
    ensures
        live_charities_owned(ds.push(d), cs),
        receipts_attached(rs, ds.push(d)),
        dates_valid(ds.push(d)),
{
    let nd = ds.push(d);
    assert forall|i: int| 0 <= i < nd.len() && !(#[trigger] nd[i]).deleted implies exists|j: int|
        goes_to(nd[i], cs, j) by {
        if i < ds.len() {
            assert(nd[i] == ds[i]);
            assert(!ds[i].deleted);
        }
    }
    assert forall|r: int| #![trigger rs[r]] 0 <= r < rs.len() implies exists|i: int|
        0 <= i < nd.len() && nd[i].id@ == rs[r].donation_id@ by {
        let i = choose|i: int| 0 <= i < ds.len() && ds[i].id@ == rs[r].donation_id@;
        assert(nd[i] == ds[i]);
    }
    assert forall|i: int| 0 <= i < nd.len() implies (#[trigger] nd[i]).date.valid() by {
        if i < ds.len() {
            assert(nd[i] == ds[i]);
        }
    }
}

pub proof fn lemma_donation_index(ds: Seq<DonationRecord>, id: Seq<char>, i: int)
    requires
        donation_ids_unique(ds),
        0 <= i < ds.len(),
        ds[i].id@ == id,
    ensures
        donation_index(ds, id) == i,
{
    let j = donation_index(ds, id);
    assert(ds[j].id@ == id);
}

pub proof fn lemma_charity_index(cs: Seq<Charity>, id: Seq<char>, i: int)
    requires
        charity_ids_unique(cs),
        0 <= i < cs.len(),
        cs[i].id@ == id,
    ensures
        charity_index(cs, id) == i,
{
    let j = charity_index(cs, id);
    assert(cs[j].id@ == id);
}

pub proof fn lemma_receipt_index(rs: Seq<Receipt>, id: Seq<char>, i: int)
    requires
        receipt_ids_unique(rs),
        0 <= i < rs.len(),
        rs[i].id@ == id,
    ensures
        receipt_index(rs, id) == i,
{
    let j = receipt_index(rs, id);
    assert(rs[j].id@ == id);
}

pub proof fn lemma_user_index(us: Seq<UserProfile>, id: Seq<char>, i: int)
    requires
        user_ids_unique(us),
        0 <= i < us.len(),
        us[i].id@ == id,
    ensures
        user_index(us, id) == i,
{
    let j = user_index(us, id);
    assert(us[j].id@ == id);
}

pub(crate) fn copy_opt(o: &Option<String>) -> (r: Option<String>)
    ensures
        r == *o,
{
    match o {
        Some(s) => Some(s.clone()),
        None => None,
    }
}

pub(crate) fn copy_donation(d: &DonationRecord) -> (r: DonationRecord)
    ensures
        r == *d,
{
    DonationRecord {
        id: d.id.clone(),
        user_id: d.user_id.clone(),
        year: d.year,
        date: d.date,
        category: copy_opt(&d.category),
        amount_cents: d.amount_cents,
        charity_id: d.charity_id.clone(),
        notes: copy_opt(&d.notes),
        created_at: d.created_at,
        updated_at: d.updated_at,
        deleted: d.deleted,
    }
}

pub(crate) fn copy_details(c: &CharityDetails) -> (r: CharityDetails)
    ensures
        r == *c,
{
    CharityDetails {
        ein: copy_opt(&c.ein),
        category: copy_opt(&c.category),
        status: copy_opt(&c.status),
        classification: copy_opt(&c.classification),
        nonprofit_type: copy_opt(&c.nonprofit_type),
        deductibility: copy_opt(&c.deductibility),
        street: copy_opt(&c.street),
        city: copy_opt(&c.city),
        state: copy_opt(&c.state),
        zip: copy_opt(&c.zip),
    }
}

pub(crate) fn copy_charity(c: &Charity) -> (r: Charity)
    ensures
        r == *c,
{
    Charity {
        id: c.id.clone(),
        user_id: c.user_id.clone(),
        name: c.name.clone(),
        details: copy_details(&c.details),
        created_at: c.created_at,
        updated_at: c.updated_at,
    }
}

pub(crate) fn copy_receipt(r: &Receipt) -> (out: Receipt)
    ensures
        out == *r,
{
    Receipt {
        id: r.id.clone(),
        donation_id: r.donation_id.clone(),
        key: r.key.clone(),
        file_name: copy_opt(&r.file_name),
        content_type: copy_opt(&r.content_type),
        size: r.size,
        ocr_text: copy_opt(&r.ocr_text),
        ocr_date: r.ocr_date,
        ocr_amount: r.ocr_amount,
        ocr_status: copy_opt(&r.ocr_status),
        created_at: r.created_at,
    }
}

pub(crate) fn copy_user(u: &UserProfile) -> (r: UserProfile)
    ensures
        r == *u,
{
    UserProfile {
        id: u.id.clone(),
        email: u.email.clone(),
        name: u.name.clone(),
        provider: u.provider.clone(),
        phone: copy_opt(&u.phone),
        tax_id: copy_opt(&u.tax_id),
        filing_status: copy_opt(&u.filing_status),
        agi_cents: u.agi_cents,
        marginal_tax_rate_bps: u.marginal_tax_rate_bps,
        itemize_deductions: u.itemize_deductions,
    }
}

impl Store {
    /// The store's invariant: keys are unique, no user has two charities whose
    /// names differ only in case, dates are calendar days, each donation's
    /// year is its date's year, each live donation goes to a charity of its
    /// owner, and each receipt belongs to a stored donation.
    pub open spec fn wf(&self) -> bool {
        &&& donation_ids_unique(self.donations@)
        &&& charity_ids_unique(self.charities@)
        &&& receipt_ids_unique(self.receipts@)
        &&& charity_names_unique(self.charities@)
        &&& years_follow_dates(self.donations@)
        &&& user_ids_unique(self.users@)
        &&& dates_valid(self.donations@)
        &&& live_charities_owned(self.donations@, self.charities@)
        &&& receipts_attached(self.receipts@, self.donations@)
        &&& ocr_dates_valid(self.receipts@)
    }

    pub fn new() -> (r: Store)
        ensures
            r.wf(),
            r.donations@.len() == 0,
            r.charities@.len() == 0,
            r.receipts@.len() == 0,
            r.revisions@.len() == 0,
            r.audit_logs@.len() == 0,
            r.users@.len() == 0,
    {
        Store {
            donations: Vec::new(),
            charities: Vec::new(),
            receipts: Vec::new(),
            revisions: Vec::new(),
            audit_logs: Vec::new(),
            users: Vec::new(),
        }
    }

    pub(crate) fn find_donation(&self, id: &String) -> (r: Option<usize>)
        requires
            donation_ids_unique(self.donations@),
        ensures
            match r {
                Some(i) => i < self.donations@.len() && donation_index(self.donations@, id@) == i,
                None => donation_index(self.donations@, id@) == -1,
            },
    {
        let mut i: usize = 0;
        while i < self.donations.len()
            invariant
                i <= self.donations@.len(),
                donation_ids_unique(self.donations@),
                forall|j: int| 0 <= j < i ==> self.donations@[j].id@ != id@,
            decreases self.donations@.len() - i,
        {
            if self.donations[i].id == *id {
                proof {
                    lemma_donation_index(self.donations@, id@, i as int);
                }
                return Some(i);
            }
            i = i + 1;
        }
        None
    }

    pub(crate) fn find_charity(&self, id: &String) -> (r: Option<usize>)
        requires
            charity_ids_unique(self.charities@),
        ensures
            match r {
                Some(i) => i < self.charities@.len() && charity_index(self.charities@, id@) == i,
                None => charity_index(self.charities@, id@) == -1,
            },
    {
        let mut i: usize = 0;
        while i < self.charities.len()
            invariant
                i <= self.charities@.len(),
                charity_ids_unique(self.charities@),
                forall|j: int| 0 <= j < i ==> self.charities@[j].id@ != id@,
            decreases self.charities@.len() - i,
        {
            if self.charities[i].id == *id {
                proof {
                    lemma_charity_index(self.charities@, id@, i as int);
                }
                return Some(i);
            }
            i = i + 1;
        }
        None
    }

    pub(crate) fn find_receipt(&self, id: &String) -> (r: Option<usize>)
        requires
            receipt_ids_unique(self.receipts@),
        ensures
            match r {
                Some(i) => i < self.receipts@.len() && receipt_index(self.receipts@, id@) == i,
                None => receipt_index(self.receipts@, id@) == -1,
            },
    {
        let mut i: usize = 0;
        while i < self.receipts.len()
            invariant
                i <= self.receipts@.len(),
                receipt_ids_unique(self.receipts@),
                forall|j: int| 0 <= j < i ==> self.receipts@[j].id@ != id@,
            decreases self.receipts@.len() - i,
        {
            if self.receipts[i].id == *id {
                proof {
                    lemma_receipt_index(self.receipts@, id@, i as int);
                }
                return Some(i);
            }
            i = i + 1;
        }
        None
    }

    pub(crate) fn find_user(&self, id: &String) -> (r: Option<usize>)
        requires
            user_ids_unique(self.users@),
        ensures
            match r {
                Some(i) => i < self.users@.len() && user_index(self.users@, id@) == i,
                None => user_index(self.users@, id@) == -1,
            },
    {
        let mut i: usize = 0;
        while i < self.users.len()
            invariant
                i <= self.users@.len(),
                user_ids_unique(self.users@),
                forall|j: int| 0 <= j < i ==> self.users@[j].id@ != id@,
            decreases self.users@.len() - i,
        {
            if self.users[i].id == *id {
                proof {
                    lemma_user_index(self.users@, id@, i as int);
                }
                return Some(i);
            }
            i = i + 1;
        }
        None
    }

    pub(crate) fn owned_charity(&self, user_id: &String, charity_id: &String) -> (r: bool)
        requires
            charity_ids_unique(self.charities@),
        ensures
            r == charity_owned(self.charities@, charity_id@, user_id@),
    {
        match self.find_charity(charity_id) {
            Some(i) => self.charities[i].user_id == *user_id,
            None => false,
        }
    }

    /// Appends a before/after record of one mutation to the revision log.
    pub fn log_revision(
        &mut self,
        id: String,
        user_id: Option<String>,
        table: Table,
        record_id: String,
        operation: Operation,
        old_values: Option<Snapshot>,
        new_values: Option<Snapshot>,
        now: Timestamp,
    )
        ensures
            final(self).revisions@ == old(self).revisions@.push(
                Revision {
                    id,
                    user_id,
                    table,
                    record_id,
                    operation,
                    old_values,
                    new_values,
                    created_at: now,
                },
            ),
            final(self).donations == old(self).donations,
            final(self).charities == old(self).charities,
            final(self).receipts == old(self).receipts,
            final(self).audit_logs == old(self).audit_logs,
            final(self).users == old(self).users,
    {
        self.revisions.push(
            Revision {
                id,
                user_id,
                table,
                record_id,
                operation,
                old_values,
                new_values,
                created_at: now,
            },
        );
    }
}

} // verus!
