//! Donations: creation, partial updates under optimistic concurrency, soft
//! deletion, and the listings joined with charities.

use crate::outside::new_record_id;
use crate::records::{
    Charity, Date, Donation, DonationRecord, Operation, Snapshot, StoreError, Table, Timestamp,
};
use crate::store::{
    goes_to, lemma_donation_push, lemma_donation_set,
    Store, charity_ids_unique, charity_index, charity_owned, copy_donation, copy_opt,
    donation_index, donation_owned, one_revision_added, revision_of,
};
use vstd::prelude::*;

verus! {

/// Fields of a donation that an update may change; an absent field keeps its value.
pub struct DonationPatch {
    pub date: Option<Date>,
    pub category: Option<String>,
    pub charity_id: Option<String>,
    pub amount_cents: Option<i64>,
    pub notes: Option<String>,
}

/// The optimistic-concurrency rule: an update that names the last update time
/// it has seen goes through only when that time is after the stored one.
pub open spec fn update_permitted(stored: Option<Timestamp>, incoming: Option<Timestamp>) -> bool {
    match incoming {
        Some(inc) => match stored {
            Some(ex) => ex < inc,
            None => true,
        },
        None => true,
    }
}

/// A donation after a partial update.
pub open spec fn patched(d: DonationRecord, p: DonationPatch, stamp: Timestamp) -> DonationRecord {
    let date = match p.date {
        Some(x) => x,
        None => d.date,
    };
    DonationRecord {
        id: d.id,
        user_id: d.user_id,
        year: date.year,
        date: date,
        category: match p.category {
            Some(c) => Some(c),
            None => d.category,
        },
        amount_cents: match p.amount_cents {
            Some(a) => Some(a),
            None => d.amount_cents,
        },
        charity_id: match p.charity_id {
            Some(c) => c,
            None => d.charity_id,
        },
        notes: match p.notes {
            Some(n) => Some(n),
            None => d.notes,
        },
        created_at: d.created_at,
        updated_at: Some(stamp),
        deleted: d.deleted,
    }
}

/// A donation after a soft delete.
pub open spec fn soft_deleted(d: DonationRecord, now: Timestamp) -> DonationRecord {
    DonationRecord { deleted: true, updated_at: Some(now), ..d }
}

/// Which donations a listing returns.
pub enum DonationFilter {
    /// The user's donations that are not deleted, of one year or of all.
    Live { user_id: String, year: Option<i32> },
    /// The user's donations created or updated after a time, deleted ones included.
    ChangedSince { user_id: String, since: Timestamp },
}

pub open spec fn keeps(f: DonationFilter, d: DonationRecord) -> bool {
    match f {
        DonationFilter::Live { user_id, year } => d.user_id@ == user_id@ && !d.deleted && match year {
            Some(y) => d.year == y,
            None => true,
        },
        DonationFilter::ChangedSince { user_id, since } => d.user_id@ == user_id@ && (since
            < d.created_at || match d.updated_at {
            Some(u) => since < u,
            None => false,
        }),
    }
}

/// A donation joined with its charity.
pub open spec fn joined(d: DonationRecord, c: Option<Charity>) -> Donation {
    Donation {
        id: d.id,
        user_id: d.user_id,
        year: d.year,
        date: d.date,
        category: d.category,
        amount_cents: d.amount_cents,
        charity_id: d.charity_id,
        charity_name: match c {
            Some(c) => Some(c.name),
            None => None,
        },
        charity_ein: match c {
            Some(c) => c.details.ein,
            None => None,
        },
        notes: d.notes,
        shared_with: None,
        created_at: d.created_at,
        updated_at: d.updated_at,
        deleted: d.deleted,
    }
}

/// The donations that the filter keeps, in stored order, each joined with its
/// charity when that still exists.
pub open spec fn listing(ds: Seq<DonationRecord>, cs: Seq<Charity>, f: DonationFilter) -> Seq<Donation>
    decreases ds.len(),
{
    if ds.len() == 0 {
        Seq::empty()
    } else {
        let rest = listing(ds.drop_last(), cs, f);
        let d = ds.last();
        let ci = charity_index(cs, d.charity_id@);
        if keeps(f, d) {
            rest.push(joined(d, if ci >= 0 { Some(cs[ci]) } else { None }))
        } else {
            rest
        }
    }
}

/// Each listed donation comes from a stored donation that the filter keeps.
pub proof fn lemma_listing_sources(ds: Seq<DonationRecord>, cs: Seq<Charity>, f: DonationFilter, k: int)
    requires
        0 <= k < listing(ds, cs, f).len(),
    ensures
        exists|j: int| 0 <= j < ds.len() && listing(ds, cs, f)[k].id == ds[j].id && keeps(f, ds[j]),
    decreases ds.len(),
{
    let rest = ds.drop_last();
    let lr = listing(rest, cs, f);
    if k < lr.len() {
        lemma_listing_sources(rest, cs, f, k);
        let j = choose|j: int| 0 <= j < rest.len() && lr[k].id == rest[j].id && keeps(f, rest[j]);
        assert(rest[j] == ds[j]);
        assert(listing(ds, cs, f)[k] == lr[k]);
    } else {
        assert(keeps(f, ds.last()));
        assert(listing(ds, cs, f)[k].id == ds[ds.len() - 1].id);
    }
}

fn keeps_donation(f: &DonationFilter, d: &DonationRecord) -> (r: bool)
    ensures
        r == keeps(*f, *d),
{
    match f {
        DonationFilter::Live { user_id, year } => {
            d.user_id == *user_id && !d.deleted && match year {
                Some(y) => d.year == *y,
                None => true,
            }
        },
        DonationFilter::ChangedSince { user_id, since } => {
            d.user_id == *user_id && (*since < d.created_at || match d.updated_at {
                Some(u) => *since < u,
                None => false,
            })
        },
    }
}

impl Store {
    /// Whether the donation exists and belongs to the user.
    pub fn user_owns_donation(&self, user_id: &String, donation_id: &String) -> (r: bool)
        requires
            self.wf(),
        ensures
            r == donation_owned(self.donations@, donation_id@, user_id@),
    {
        match self.find_donation(donation_id) {
            Some(i) => self.donations[i].user_id == *user_id,
            None => false,
        }
    }

    /// Records a new donation of the user to one of the user's charities; its
    /// year is the year of its date.
    pub fn add_donation(
        &mut self,
        id: &String,
        user_id: &String,
        date: Date,
        category: &Option<String>,
        charity_id: &String,
        amount_cents: Option<i64>,
        notes: &Option<String>,
        now: Timestamp,
    ) -> (r: Result<(), StoreError>)
        requires
            old(self).wf(),
            date.valid(),
        ensures
            final(self).wf(),
            ({
                let ds = old(self).donations@;
                let rec = DonationRecord {
                    id: *id,
                    user_id: *user_id,
                    year: date.year,
                    date: date,
                    category: *category,
                    amount_cents: amount_cents,
                    charity_id: *charity_id,
                    notes: *notes,
                    created_at: now,
                    updated_at: None,
                    deleted: false,
                };
                if donation_index(ds, id@) >= 0 {
                    r == Err::<(), StoreError>(StoreError::DuplicateId) && *final(self) == *old(self)
                } else if !charity_owned(old(self).charities@, charity_id@, user_id@) {
                    r == Err::<(), StoreError>(StoreError::UnknownCharity) && *final(self)
                        == *old(self)
                } else {
                    &&& r == Ok::<(), StoreError>(())
                    &&& final(self).donations@ == ds.push(rec)
                    &&& final(self).charities == old(self).charities
                    &&& final(self).receipts == old(self).receipts
                    &&& final(self).audit_logs == old(self).audit_logs
                    &&& final(self).users == old(self).users
                    &&& one_revision_added(old(self).revisions@, final(self).revisions@)
                    &&& revision_of(
                        final(self).revisions@.last(),
                        Some(*user_id),
                        Table::Donations,
                        *id,
                        Operation::Create,
                        None,
                        Some(Snapshot::Donation(rec)),
                        now,
                    )
                }
            }),
    {
        if self.find_donation(id).is_some() {
            return Err(StoreError::DuplicateId);
        }
        if !self.owned_charity(user_id, charity_id) {
            return Err(StoreError::UnknownCharity);
        }
        let rec = DonationRecord {
            id: id.clone(),
            user_id: user_id.clone(),
            year: date.year,
            date: date,
            category: copy_opt(category),
            amount_cents: amount_cents,
            charity_id: charity_id.clone(),
            notes: copy_opt(notes),
            created_at: now,
            updated_at: None,
            deleted: false,
        };
        let snapshot = copy_donation(&rec);
        let ghost before = self.donations@;
        proof {
            let ci = charity_index(self.charities@, charity_id@);
            assert(goes_to(rec, self.charities@, ci));
            lemma_donation_push(before, self.charities@, self.receipts@, rec);
        }
        self.donations.push(rec);
        proof {
            assert forall|i: int, j: int|
                0 <= i < self.donations@.len() && 0 <= j < self.donations@.len() && i != j
                    implies #[trigger] self.donations@[i].id@ != #[trigger] self.donations@[j].id@ by {
                if i < before.len() && j < before.len() {
                    assert(before[i] == self.donations@[i]);
                    assert(before[j] == self.donations@[j]);
                } else if i < before.len() {
                    assert(before[i] == self.donations@[i]);
                } else {
                    assert(before[j] == self.donations@[j]);
                }
            }
            assert forall|i: int| 0 <= i < self.donations@.len() implies #[trigger] self.donations@[i].year
                == self.donations@[i].date.year by {
                if i < before.len() {
                    assert(before[i] == self.donations@[i]);
                }
            }
        }
        let rid = new_record_id();
        self.log_revision(
            rid,
            Some(user_id.clone()),
            Table::Donations,
            id.clone(),
            Operation::Create,
            None,
            Some(Snapshot::Donation(snapshot)),
            now,
        );
        Ok(())
    }

    /// Applies a partial update to one of the user's donations.
    ///
    /// When the caller names the last update time it has seen and the stored
    /// update time is not before it, nothing changes and `Ok(false)` comes back;
    /// the same for a donation that is missing or belongs to someone else. An
    /// update that names no time carries no precondition and applies. An
    /// applied update stamps `now`, the store's own time, as the update time
    /// (never the caller's, which could lie in the future and block later
    /// updates) and writes one revision.
    pub fn update_donation(
        &mut self,
        user_id: &String,
        donation_id: &String,
        patch: DonationPatch,
        incoming_updated_at: Option<Timestamp>,
        now: Timestamp,
    ) -> (r: Result<bool, StoreError>)
        requires
            old(self).wf(),
            patch.date matches Some(d) ==> d.valid(),
        ensures
            final(self).wf(),
            ({
                let ds = old(self).donations@;
                let i = donation_index(ds, donation_id@);
                if !donation_owned(ds, donation_id@, user_id@) || !update_permitted(
                    ds[i].updated_at,
                    incoming_updated_at,
                ) {
                    r == Ok::<bool, StoreError>(false) && *final(self) == *old(self)
                } else if patch.charity_id matches Some(c) && !charity_owned(
                    old(self).charities@,
                    c@,
                    user_id@,
                ) {
                    r == Err::<bool, StoreError>(StoreError::UnknownCharity) && *final(self)
                        == *old(self)
                } else {
                    let rec = patched(ds[i], patch, now);
                    &&& r == Ok::<bool, StoreError>(true)
                    &&& final(self).donations@ == ds.update(i, rec)
                    &&& final(self).charities == old(self).charities
                    &&& final(self).receipts == old(self).receipts
                    &&& final(self).audit_logs == old(self).audit_logs
                    &&& final(self).users == old(self).users
                    &&& one_revision_added(old(self).revisions@, final(self).revisions@)
                    &&& revision_of(
                        final(self).revisions@.last(),
                        Some(*user_id),
                        Table::Donations,
                        *donation_id,
                        Operation::Update,
                        Some(Snapshot::Donation(ds[i])),
                        Some(Snapshot::Donation(rec)),
                        now,
                    )
                }
            }),
    {
        let i = match self.find_donation(donation_id) {
            Some(i) => i,
            None => return Ok(false),
        };
        if self.donations[i].user_id != *user_id {
            return Ok(false);
        }
        if let Some(inc) = incoming_updated_at {
            if let Some(ex) = self.donations[i].updated_at {
                if inc <= ex {
                    return Ok(false);
                }
            }
        }
        if let Some(c) = &patch.charity_id {
            if !self.owned_charity(user_id, c) {
                return Err(StoreError::UnknownCharity);
            }
        }
        let ghost patch_charity = patch.charity_id;
        let before = copy_donation(&self.donations[i]);
        let date = match patch.date {
            Some(x) => x,
            None => before.date,
        };
        let rec = DonationRecord {
            id: before.id.clone(),
            user_id: before.user_id.clone(),
            year: date.year,
            date: date,
            category: match patch.category {
                Some(c) => Some(c),
                None => copy_opt(&before.category),
            },
            amount_cents: match patch.amount_cents {
                Some(a) => Some(a),
                None => before.amount_cents,
            },
            charity_id: match patch.charity_id {
                Some(c) => c,
                None => before.charity_id.clone(),
            },
            notes: match patch.notes {
                Some(n) => Some(n),
                None => copy_opt(&before.notes),
            },
            created_at: before.created_at,
            updated_at: Some(now),
            deleted: before.deleted,
        };
        let after = copy_donation(&rec);
        let ghost ds = self.donations@;
        proof {
            if !rec.deleted {
                match patch_charity {
                    Some(c) => {
                        let ci = charity_index(self.charities@, c@);
                        assert(goes_to(rec, self.charities@, ci));
                    },
                    None => {
                        assert(!ds[i as int].deleted);
                        let j = choose|j: int| goes_to(ds[i as int], self.charities@, j);
                        assert(goes_to(rec, self.charities@, j));
                    },
                }
            }
            lemma_donation_set(ds, self.charities@, self.receipts@, i as int, rec);
        }
        self.donations.set(i, rec);
        proof {
            assert forall|a: int, b: int|
                0 <= a < self.donations@.len() && 0 <= b < self.donations@.len() && a != b
                    implies #[trigger] self.donations@[a].id@ != #[trigger] self.donations@[b].id@ by {
                assert(ds[a].id@ != ds[b].id@);
            }
            assert forall|a: int| 0 <= a < self.donations@.len() implies #[trigger] self.donations@[a].year
                == self.donations@[a].date.year by {
                assert(ds[a].year == ds[a].date.year);
            }
        }
        let rid = new_record_id();
        self.log_revision(
            rid,
            Some(user_id.clone()),
            Table::Donations,
            donation_id.clone(),
            Operation::Update,
            Some(Snapshot::Donation(before)),
            Some(Snapshot::Donation(after)),
            now,
        );
        Ok(true)
    }

    /// Marks one of the user's donations deleted and stamps its update time;
    /// `false` when the donation is missing or belongs to someone else.
    pub fn soft_delete_donation(&mut self, user_id: &String, donation_id: &String, now: Timestamp) -> (r:
        bool)
        requires
            old(self).wf(),
        ensures
            final(self).wf(),
            ({
                let ds = old(self).donations@;
                let i = donation_index(ds, donation_id@);
                if !donation_owned(ds, donation_id@, user_id@) {
                    !r && *final(self) == *old(self)
                } else {
                    &&& r
                    &&& final(self).donations@ == ds.update(i, soft_deleted(ds[i], now))
                    &&& final(self).charities == old(self).charities
                    &&& final(self).receipts == old(self).receipts
                    &&& final(self).audit_logs == old(self).audit_logs
                    &&& final(self).users == old(self).users
                    &&& one_revision_added(old(self).revisions@, final(self).revisions@)
                    &&& revision_of(
                        final(self).revisions@.last(),
                        Some(*user_id),
                        Table::Donations,
                        *donation_id,
                        Operation::Delete,
                        Some(Snapshot::Donation(ds[i])),
                        Some(Snapshot::Donation(soft_deleted(ds[i], now))),
                        now,
                    )
                }
            }),
    {
        let i = match self.find_donation(donation_id) {
            Some(i) => i,
            None => return false,
        };
        if self.donations[i].user_id != *user_id {
            return false;
        }
        let before = copy_donation(&self.donations[i]);
        let mut rec = copy_donation(&self.donations[i]);
        rec.deleted = true;
        rec.updated_at = Some(now);
        let after = copy_donation(&rec);
        let ghost ds = self.donations@;
        proof {
            lemma_donation_set(ds, self.charities@, self.receipts@, i as int, rec);
        }
        self.donations.set(i, rec);
        proof {
            assert forall|a: int, b: int|
                0 <= a < self.donations@.len() && 0 <= b < self.donations@.len() && a != b
                    implies #[trigger] self.donations@[a].id@ != #[trigger] self.donations@[b].id@ by {
                assert(ds[a].id@ != ds[b].id@);
            }
            assert forall|a: int| 0 <= a < self.donations@.len() implies #[trigger] self.donations@[a].year
                == self.donations@[a].date.year by {
                assert(ds[a].year == ds[a].date.year);
            }
        }
        let rid = new_record_id();
        self.log_revision(
            rid,
            Some(user_id.clone()),
            Table::Donations,
            donation_id.clone(),
            Operation::Delete,
            Some(Snapshot::Donation(before)),
            Some(Snapshot::Donation(after)),
            now,
        );
        true
    }

    /// The donations that the filter keeps, each joined with its charity when
    /// that still exists.
    pub fn list_filtered(&self, filter: &DonationFilter) -> (r: Vec<Donation>)
        requires
            charity_ids_unique(self.charities@),
        ensures
            r@ == listing(self.donations@, self.charities@, *filter),
    {
        let ghost ds = self.donations@;
        let mut out: Vec<Donation> = Vec::new();
        let mut i: usize = 0;
        while i < self.donations.len()
            invariant
                i <= ds.len(),
                ds == self.donations@,
                charity_ids_unique(self.charities@),
                out@ == listing(ds.subrange(0, i as int), self.charities@, *filter),
            decreases ds.len() - i,
        {
            let d = &self.donations[i];
            proof {
                assert(ds.subrange(0, i + 1).drop_last() =~= ds.subrange(0, i as int));
                assert(ds.subrange(0, i + 1).last() == ds[i as int]);
            }
            if keeps_donation(filter, d) {
                let (charity_name, charity_ein) = match self.find_charity(&d.charity_id) {
                    Some(ci) => {
                        let c = &self.charities[ci];
                        (Some(c.name.clone()), copy_opt(&c.details.ein))
                    },
                    None => (None, None),
                };
                out.push(
                    Donation {
                        id: d.id.clone(),
                        user_id: d.user_id.clone(),
                        year: d.year,
                        date: d.date,
                        category: copy_opt(&d.category),
                        amount_cents: d.amount_cents,
                        charity_id: d.charity_id.clone(),
                        charity_name,
                        charity_ein,
                        notes: copy_opt(&d.notes),
                        shared_with: None,
                        created_at: d.created_at,
                        updated_at: d.updated_at,
                        deleted: d.deleted,
                    },
                );
            }
            i = i + 1;
        }
        proof {
            assert(ds.subrange(0, ds.len() as int) =~= ds);
        }
        out
    }

    /// The user's donations that are not deleted, of one year or of all, each
    /// joined with its charity.
    pub fn list_donations(&self, user_id: &String, year: Option<i32>) -> (r: Vec<Donation>)
        requires
            self.wf(),
        ensures
            r@ == listing(
                self.donations@,
                self.charities@,
                DonationFilter::Live { user_id: *user_id, year },
            ),
    {
        self.list_filtered(&DonationFilter::Live { user_id: user_id.clone(), year })
    }

    /// The user's donations created or updated after `since`, deleted ones
    /// included, each joined with its charity.
    pub fn list_donations_since(&self, user_id: &String, since: Timestamp) -> (r: Vec<Donation>)
        requires
            self.wf(),
        ensures
            r@ == listing(
                self.donations@,
                self.charities@,
                DonationFilter::ChangedSince { user_id: *user_id, since },
            ),
    {
        self.list_filtered(&DonationFilter::ChangedSince { user_id: user_id.clone(), since })
    }
    /// The distinct years of the user's listed donations, newest first.
    pub fn list_available_years(&self, user_id: &String) -> (r: Vec<i32>)
        requires
            self.wf(),
        ensures
            forall|a: int, b: int| 0 <= a < b < r@.len() ==> r@[a] > r@[b],
            forall|y: i32|
                r@.contains(y) <==> exists|k: int|
                    0 <= k < listing(
                        self.donations@,
                        self.charities@,
                        DonationFilter::Live { user_id: *user_id, year: None },
                    ).len() && (#[trigger] listing(
                        self.donations@,
                        self.charities@,
                        DonationFilter::Live { user_id: *user_id, year: None },
                    )[k]).year == y,
    {
        let list = self.list_donations(user_id, None);
        let ghost l = list@;
        let mut years: Vec<i32> = Vec::new();
        let mut i: usize = 0;
        while i < list.len()
            invariant
                i <= l.len(),
                l == list@,
                forall|a: int, b: int| 0 <= a < b < years@.len() ==> years@[a] > years@[b],
                forall|y: i32| years@.contains(y) <==> exists|k: int| 0 <= k < i && (#[trigger] l[k]).year == y,
            decreases l.len() - i,
        {
            let y = list[i].year;
            let mut p: usize = 0;
            while p < years.len() && years[p] > y
                invariant
                    p <= years@.len(),
                    forall|a: int| 0 <= a < p ==> years@[a] > y,
                decreases years@.len() - p,
            {
                p = p + 1;
            }
            let ghost before = years@;
            if p < years.len() && years[p] == y {
                assert(before[p as int] == y);
            } else {
                years.insert(p, y);
                proof {
                    assert forall|a: int, b: int| 0 <= a < b < years@.len() implies years@[a] > years@[b] by {
                        if b < p {
                        } else if b == p {
                        } else if a < p {
                            assert(years@[b] == before[b - 1]);
                            if p < before.len() {
                                assert(before[p as int] < y);
                            }
                        } else if a == p {
                            assert(years@[b] == before[b - 1]);
                            assert(before[p as int] < y);
                            if b - 1 > p {
                                assert(before[p as int] > before[b - 1]);
                            }
                        } else {
                            assert(years@[a] == before[a - 1] && years@[b] == before[b - 1]);
                        }
                    }
                    assert forall|z: i32| years@.contains(z) <==> (before.contains(z) || z == y) by {
                        if years@.contains(z) {
                            let a = choose|a: int| 0 <= a < years@.len() && years@[a] == z;
                            if a < p {
                                assert(before[a] == z);
                            } else if a > p {
                                assert(before[a - 1] == z);
                            }
                        }
                        if before.contains(z) {
                            let a = choose|a: int| 0 <= a < before.len() && before[a] == z;
                            if a < p {
                                assert(years@[a] == z);
                            } else {
                                assert(years@[a + 1] == z);
                            }
                        }
                        if z == y {
                            assert(years@[p as int] == y);
                        }
                    }
                }
            }
            proof {
                assert forall|z: i32| years@.contains(z) <==> exists|k: int| 0 <= k < i + 1 && (#[trigger] l[k]).year == z by {
                    if years@.contains(z) && z != y {
                        assert(before.contains(z));
                    }
                    if z == y {
                        assert(l[i as int].year == z);
                    }
                    if exists|k: int| 0 <= k < i + 1 && (#[trigger] l[k]).year == z {
                        let k = choose|k: int| 0 <= k < i + 1 && (#[trigger] l[k]).year == z;
                        if k < i {
                            assert(before.contains(z));
                        }
                    }
                }
            }
            i = i + 1;
        }
        years
    }
}

} // verus!
