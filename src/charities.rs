//! Charities: case-insensitive find-or-create, updates, and deletion guarded
//! by the donations that still go to a charity.

use crate::outside::{lower_of, lowercase, new_record_id};
use crate::records::{
    opt_view, Charity, CharityDetails, DonationRecord, Operation, Snapshot, StoreError, Table,
    Timestamp,
};
use crate::donations::update_permitted;
use crate::store::{
    lemma_refs_after_charity_push, lemma_refs_after_charity_remove, lemma_refs_after_charity_update,
    Store, charity_index, charity_owned, copy_charity, copy_opt, one_revision_added, revision_of,
};
use vstd::prelude::*;

verus! {

/// The user's charities, in stored order.
pub open spec fn charities_of(cs: Seq<Charity>, user: Seq<char>) -> Seq<Charity>
    decreases cs.len(),
{
    if cs.len() == 0 {
        Seq::empty()
    } else {
        let rest = charities_of(cs.drop_last(), user);
        if cs.last().user_id@ == user {
            rest.push(cs.last())
        } else {
            rest
        }
    }
}

/// The new value of an optional field: the given one, else the stored one.
pub open spec fn or_kept(new: Option<String>, stored: Option<String>) -> Option<String> {
    match new {
        Some(v) => Some(v),
        None => stored,
    }
}

/// Details after a partial update: each field left out keeps its stored value.
pub open spec fn merged_details(stored: CharityDetails, new: CharityDetails) -> CharityDetails {
    CharityDetails {
        ein: or_kept(new.ein, stored.ein),
        category: or_kept(new.category, stored.category),
        status: or_kept(new.status, stored.status),
        classification: or_kept(new.classification, stored.classification),
        nonprofit_type: or_kept(new.nonprofit_type, stored.nonprofit_type),
        deductibility: or_kept(new.deductibility, stored.deductibility),
        street: or_kept(new.street, stored.street),
        city: or_kept(new.city, stored.city),
        state: or_kept(new.state, stored.state),
        zip: or_kept(new.zip, stored.zip),
    }
}

fn keep_unset(new: Option<String>, stored: &Option<String>) -> (r: Option<String>)
    ensures
        r == or_kept(new, *stored),
{
    match new {
        Some(v) => Some(v),
        None => copy_opt(stored),
    }
}

fn merge_details(stored: &CharityDetails, new: CharityDetails) -> (r: CharityDetails)
    ensures
        r == merged_details(*stored, new),
{
    CharityDetails {
        ein: keep_unset(new.ein, &stored.ein),
        category: keep_unset(new.category, &stored.category),
        status: keep_unset(new.status, &stored.status),
        classification: keep_unset(new.classification, &stored.classification),
        nonprofit_type: keep_unset(new.nonprofit_type, &stored.nonprofit_type),
        deductibility: keep_unset(new.deductibility, &stored.deductibility),
        street: keep_unset(new.street, &stored.street),
        city: keep_unset(new.city, &stored.city),
        state: keep_unset(new.state, &stored.state),
        zip: keep_unset(new.zip, &stored.zip),
    }
}

/// A stored tax id equals a non-empty wanted one.
pub open spec fn ein_matches(stored: Option<String>, wanted: Option<Seq<char>>) -> bool {
    match wanted {
        Some(e) => e.len() > 0 && match stored {
            Some(ce) => ce@ == e,
            None => false,
        },
        None => false,
    }
}

/// A charity of the user whose name, lowercased, is `lname`, or whose tax id
/// equals a non-empty `ein`.
pub open spec fn charity_matches(c: Charity, user: Seq<char>, lname: Seq<char>, ein: Option<Seq<char>>) -> bool {
    &&& c.user_id@ == user
    &&& (lower_of(c.name@) == lname || ein_matches(c.details.ein, ein))
}

/// Position of the first matching charity, or -1.
pub open spec fn first_charity_match(
    cs: Seq<Charity>,
    user: Seq<char>,
    lname: Seq<char>,
    ein: Option<Seq<char>>,
) -> int
    decreases cs.len(),
{
    if cs.len() == 0 {
        -1
    } else {
        let k = first_charity_match(cs.drop_last(), user, lname, ein);
        if k >= 0 {
            k
        } else if charity_matches(cs.last(), user, lname, ein) {
            cs.len() - 1
        } else {
            -1
        }
    }
}

pub proof fn lemma_first_charity_match(
    cs: Seq<Charity>,
    user: Seq<char>,
    lname: Seq<char>,
    ein: Option<Seq<char>>,
)
    ensures
        ({
            let k = first_charity_match(cs, user, lname, ein);
            &&& -1 <= k < cs.len()
            &&& k == -1 <==> forall|j: int| 0 <= j < cs.len() ==> !charity_matches(#[trigger] cs[j], user, lname, ein)
            &&& k >= 0 ==> charity_matches(cs[k], user, lname, ein)
            &&& forall|j: int| 0 <= j < k ==> !charity_matches(#[trigger] cs[j], user, lname, ein)
        }),
    decreases cs.len(),
{
    if cs.len() > 0 {
        let rest = cs.drop_last();
        lemma_first_charity_match(rest, user, lname, ein);
        assert forall|j: int| 0 <= j < rest.len() implies rest[j] == cs[j] by {}
        let k = first_charity_match(cs, user, lname, ein);
        if k == -1 {
            assert forall|j: int| 0 <= j < cs.len() implies !charity_matches(#[trigger] cs[j], user, lname, ein) by {
                if j < rest.len() {
                    assert(rest[j] == cs[j]);
                }
            }
        }
    }
}

pub proof fn lemma_first_charity_match_prefix(
    cs: Seq<Charity>,
    n: int,
    user: Seq<char>,
    lname: Seq<char>,
    ein: Option<Seq<char>>,
)
    requires
        0 <= n <= cs.len(),
        first_charity_match(cs.subrange(0, n), user, lname, ein) >= 0,
    ensures
        first_charity_match(cs, user, lname, ein) == first_charity_match(cs.subrange(0, n), user, lname, ein),
    decreases cs.len() - n,
{
    if n == cs.len() {
        assert(cs.subrange(0, n) =~= cs);
    } else {
        assert(cs.drop_last().subrange(0, n) =~= cs.subrange(0, n));
        lemma_first_charity_match_prefix(cs.drop_last(), n, user, lname, ein);
    }
}

pub open spec fn new_charity(
    id: String,
    user_id: String,
    name: String,
    details: CharityDetails,
    now: Timestamp,
) -> Charity {
    Charity { id, user_id, name, details, created_at: now, updated_at: None }
}

/// Charities and result of creating a charity: the first charity of the user
/// whose name matches up to case, or whose tax id equals the non-empty
/// `wanted_ein`, is reused as it is; otherwise a new charity is stored under
/// `new_id`, which must not be taken.
pub open spec fn create_outcome(
    cs: Seq<Charity>,
    new_id: String,
    user_id: String,
    name: String,
    details: CharityDetails,
    wanted_ein: Option<Seq<char>>,
    now: Timestamp,
) -> (Seq<Charity>, Result<String, StoreError>) {
    let k = first_charity_match(cs, user_id@, lower_of(name@), wanted_ein);
    if k >= 0 {
        (cs, Ok(cs[k].id))
    } else if charity_index(cs, new_id@) >= 0 {
        (cs, Err(StoreError::DuplicateId))
    } else {
        (cs.push(new_charity(new_id, user_id, name, details, now)), Ok(new_id))
    }
}

/// Another charity of the user than the one at `idx` has this lowercased name.
pub open spec fn name_taken_by_other(cs: Seq<Charity>, user: Seq<char>, lname: Seq<char>, idx: int) -> bool {
    exists|k: int|
        0 <= k < cs.len() && k != idx && #[trigger] cs[k].user_id@ == user && lower_of(cs[k].name@)
            == lname
}

/// A donation of the user, not deleted, that goes to the charity.
pub open spec fn live_reference(d: DonationRecord, user: Seq<char>, charity_id: Seq<char>) -> bool {
    d.user_id@ == user && d.charity_id@ == charity_id && !d.deleted
}

/// Number of the user's donations, not deleted, that go to the charity.
pub open spec fn live_references(ds: Seq<DonationRecord>, user: Seq<char>, charity_id: Seq<char>) -> nat
    decreases ds.len(),
{
    if ds.len() == 0 {
        0
    } else {
        live_references(ds.drop_last(), user, charity_id) + if live_reference(
            ds.last(),
            user,
            charity_id,
        ) {
            1nat
        } else {
            0nat
        }
    }
}

pub proof fn lemma_live_references(ds: Seq<DonationRecord>, user: Seq<char>, charity_id: Seq<char>)
    ensures
        live_references(ds, user, charity_id) <= ds.len(),
        live_references(ds, user, charity_id) == 0 <==> forall|j: int|
            0 <= j < ds.len() ==> !live_reference(#[trigger] ds[j], user, charity_id),
    decreases ds.len(),
{
    if ds.len() > 0 {
        let rest = ds.drop_last();
        lemma_live_references(rest, user, charity_id);
        assert forall|j: int| 0 <= j < rest.len() implies rest[j] == ds[j] by {}
        if live_references(ds, user, charity_id) == 0 {
            assert forall|j: int| 0 <= j < ds.len() implies !live_reference(#[trigger] ds[j], user, charity_id) by {
                if j < rest.len() {
                    assert(rest[j] == ds[j]);
                }
            }
        }
    }
}

fn ein_equal(stored: &Option<String>, wanted: &Option<String>) -> (r: bool)
    ensures
        r == ein_matches(*stored, opt_view(*wanted)),
{
    match wanted {
        Some(e) => {
            if e.as_str().is_empty() {
                false
            } else {
                match stored {
                    Some(ce) => *ce == *e,
                    None => false,
                }
            }
        },
        None => false,
    }
}

impl Store {
    /// Position of the first charity of the user whose lowercased name is
    /// `lname` or whose tax id is the non-empty `ein`.
    fn find_charity_match(&self, user_id: &String, lname: &String, ein: &Option<String>) -> (r: Option<
        usize,
    >)
        ensures
            match r {
                Some(i) => i < self.charities@.len() && first_charity_match(
                    self.charities@,
                    user_id@,
                    lname@,
                    opt_view(*ein),
                ) == i,
                None => first_charity_match(self.charities@, user_id@, lname@, opt_view(*ein)) == -1,
            },
    {
        let ghost cs = self.charities@;
        let mut i: usize = 0;
        while i < self.charities.len()
            invariant
                i <= cs.len(),
                cs == self.charities@,
                first_charity_match(cs.subrange(0, i as int), user_id@, lname@, opt_view(*ein)) == -1,
            decreases cs.len() - i,
        {
            let c = &self.charities[i];
            let hit = if c.user_id == *user_id {
                let cname = lowercase(c.name.as_str());
                cname == *lname || ein_equal(&c.details.ein, ein)
            } else {
                false
            };
            proof {
                assert(cs.subrange(0, i + 1).drop_last() =~= cs.subrange(0, i as int));
            }
            if hit {
                proof {
                    lemma_first_charity_match_prefix(cs, i + 1, user_id@, lname@, opt_view(*ein));
                }
                return Some(i);
            }
            i = i + 1;
        }
        proof {
            assert(cs.subrange(0, cs.len() as int) =~= cs);
        }
        None
    }

    /// The first charity of the user whose name equals `name` up to case, or
    /// whose tax id equals a non-empty `ein`.
    pub fn find_charity_by_name_or_ein(&self, user_id: &String, name: &String, ein: &Option<String>) -> (r:
        Option<Charity>)
        ensures
            ({
                let k = first_charity_match(self.charities@, user_id@, lower_of(name@), opt_view(*ein));
                if k >= 0 {
                    r == Some(self.charities@[k])
                } else {
                    r is None
                }
            }),
    {
        let lname = lowercase(name.as_str());
        match self.find_charity_match(user_id, &lname, ein) {
            Some(i) => Some(copy_charity(&self.charities[i])),
            None => None,
        }
    }

    /// Adds a charity for the user under `id`. When the user already has a
    /// charity whose name differs from this one only in case, that charity's
    /// id comes back instead and nothing is stored: a duplicate name is
    /// resolved by lookup, never reported.
    pub fn create_charity(
        &mut self,
        id: &String,
        user_id: &String,
        name: &String,
        details: CharityDetails,
        now: Timestamp,
    ) -> (r: Result<String, StoreError>)
        requires
            old(self).wf(),
        ensures
            final(self).wf(),
            ({
                let out = create_outcome(old(self).charities@, *id, *user_id, *name, details, None, now);
                &&& final(self).charities@ == out.0
                &&& r == out.1
                &&& if out.0 == old(self).charities@ {
                    *final(self) == *old(self)
                } else {
                    &&& final(self).donations == old(self).donations
                    &&& final(self).receipts == old(self).receipts
                    &&& final(self).audit_logs == old(self).audit_logs
                    &&& final(self).users == old(self).users
                    &&& one_revision_added(old(self).revisions@, final(self).revisions@)
                    &&& revision_of(
                        final(self).revisions@.last(),
                        Some(*user_id),
                        Table::Charities,
                        *id,
                        Operation::Create,
                        None,
                        Some(Snapshot::Charity(out.0.last())),
                        now,
                    )
                }
            }),
    {
        let lname = lowercase(name.as_str());
        if let Some(k) = self.find_charity_match(user_id, &lname, &None) {
            return Ok(self.charities[k].id.clone());
        }
        if self.find_charity(id).is_some() {
            return Err(StoreError::DuplicateId);
        }
        let c = Charity {
            id: id.clone(),
            user_id: user_id.clone(),
            name: name.clone(),
            details: details,
            created_at: now,
            updated_at: None,
        };
        let snapshot = copy_charity(&c);
        let ghost before = self.charities@;
        proof {
            lemma_first_charity_match(before, user_id@, lname@, None);
            lemma_refs_after_charity_push(self.donations@, before, c);
        }
        self.charities.push(c);
        proof {
            let cs = self.charities@;
            assert forall|a: int, b: int|
                0 <= a < cs.len() && 0 <= b < cs.len() && a != b implies #[trigger] cs[a].id@
                != #[trigger] cs[b].id@ by {
                if a < before.len() && b < before.len() {
                    assert(before[a] == cs[a] && before[b] == cs[b]);
                } else if a < before.len() {
                    assert(before[a] == cs[a]);
                } else {
                    assert(before[b] == cs[b]);
                }
            }
            assert forall|a: int, b: int|
                0 <= a < cs.len() && 0 <= b < cs.len() && a != b && #[trigger] cs[a].user_id@
                    == #[trigger] cs[b].user_id@ implies lower_of(cs[a].name@) != lower_of(cs[b].name@) by {
                if a < before.len() && b < before.len() {
                    assert(before[a] == cs[a] && before[b] == cs[b]);
                } else if a < before.len() {
                    assert(before[a] == cs[a]);
                    assert(!charity_matches(before[a], user_id@, lname@, None));
                } else {
                    assert(before[b] == cs[b]);
                    assert(!charity_matches(before[b], user_id@, lname@, None));
                }
            }
        }
        let rid = new_record_id();
        self.log_revision(
            rid,
            Some(user_id.clone()),
            Table::Charities,
            id.clone(),
            Operation::Create,
            None,
            Some(Snapshot::Charity(snapshot)),
            now,
        );
        proof {
            assert(self.charities@.len() == before.len() + 1);
            assert(self.charities@ != before);
        }
        Ok(id.clone())
    }

    /// Returns the id of the user's charity that matches by name (up to case)
    /// or by the tax id in `details`, creating the charity under `new_id` with
    /// these details when none does.
    pub fn find_or_create_charity(
        &mut self,
        new_id: &String,
        user_id: &String,
        name: &String,
        details: CharityDetails,
        now: Timestamp,
    ) -> (r: Result<String, StoreError>)
        requires
            old(self).wf(),
        ensures
            final(self).wf(),
            ({
                let out = create_outcome(
                    old(self).charities@,
                    *new_id,
                    *user_id,
                    *name,
                    details,
                    opt_view(details.ein),
                    now,
                );
                &&& final(self).charities@ == out.0
                &&& r == out.1
                &&& if out.0 == old(self).charities@ {
                    *final(self) == *old(self)
                } else {
                    &&& final(self).donations == old(self).donations
                    &&& final(self).receipts == old(self).receipts
                    &&& final(self).audit_logs == old(self).audit_logs
                    &&& final(self).users == old(self).users
                    &&& one_revision_added(old(self).revisions@, final(self).revisions@)
                    &&& revision_of(
                        final(self).revisions@.last(),
                        Some(*user_id),
                        Table::Charities,
                        *new_id,
                        Operation::Create,
                        None,
                        Some(Snapshot::Charity(out.0.last())),
                        now,
                    )
                }
            }),
    {
        let lname = lowercase(name.as_str());
        if let Some(i) = self.find_charity_match(user_id, &lname, &details.ein) {
            return Ok(self.charities[i].id.clone());
        }
        let ghost cs = self.charities@;
        let ghost wanted = opt_view(details.ein);
        proof {
            lemma_first_charity_match(cs, user_id@, lname@, wanted);
            lemma_first_charity_match(cs, user_id@, lname@, None);
            if first_charity_match(cs, user_id@, lname@, None) >= 0 {
                let k = first_charity_match(cs, user_id@, lname@, None);
                assert(!charity_matches(cs[k], user_id@, lname@, wanted));
            }
        }
        self.create_charity(new_id, user_id, name, details, now)
    }

    /// Renames one of the user's charities and updates the details it is
    /// given; each detail left out keeps its stored value. Like a donation
    /// update, it is refused with `false`, changing nothing, when the caller's
    /// last-known update time is not after the stored one, and also when the
    /// charity is missing or belongs to someone else.
    pub fn update_charity(
        &mut self,
        charity_id: &String,
        user_id: &String,
        name: &String,
        details: CharityDetails,
        incoming_updated_at: Option<Timestamp>,
        now: Timestamp,
    ) -> (r: Result<bool, StoreError>)
        requires
            old(self).wf(),
        ensures
            final(self).wf(),
            ({
                let cs = old(self).charities@;
                let i = charity_index(cs, charity_id@);
                if !charity_owned(cs, charity_id@, user_id@) || !update_permitted(
                    cs[i].updated_at,
                    incoming_updated_at,
                ) {
                    r == Ok::<bool, StoreError>(false) && *final(self) == *old(self)
                } else if name_taken_by_other(cs, user_id@, lower_of(name@), i) {
                    r == Err::<bool, StoreError>(StoreError::DuplicateName) && *final(self) == *old(self)
                } else {
                    let c = Charity {
                        id: cs[i].id,
                        user_id: cs[i].user_id,
                        name: *name,
                        details: merged_details(cs[i].details, details),
                        created_at: cs[i].created_at,
                        updated_at: Some(now),
                    };
                    &&& r == Ok::<bool, StoreError>(true)
                    &&& final(self).charities@ == cs.update(i, c)
                    &&& final(self).donations == old(self).donations
                    &&& final(self).receipts == old(self).receipts
                    &&& final(self).audit_logs == old(self).audit_logs
                    &&& final(self).users == old(self).users
                    &&& one_revision_added(old(self).revisions@, final(self).revisions@)
                    &&& revision_of(
                        final(self).revisions@.last(),
                        Some(*user_id),
                        Table::Charities,
                        *charity_id,
                        Operation::Update,
                        Some(Snapshot::Charity(cs[i])),
                        Some(Snapshot::Charity(c)),
                        now,
                    )
                }
            }),
    {
        let i = match self.find_charity(charity_id) {
            Some(i) => i,
            None => return Ok(false),
        };
        if self.charities[i].user_id != *user_id {
            return Ok(false);
        }
        if let Some(inc) = incoming_updated_at {
            if let Some(ex) = self.charities[i].updated_at {
                if inc <= ex {
                    return Ok(false);
                }
            }
        }
        let lname = lowercase(name.as_str());
        let ghost cs = self.charities@;
        let mut k: usize = 0;
        while k < self.charities.len()
            invariant
                k <= cs.len(),
                cs == self.charities@,
                *self == *old(self),
                old(self).wf(),
                i < cs.len(),
                i == charity_index(cs, charity_id@),
                charity_owned(cs, charity_id@, user_id@),
                update_permitted(cs[i as int].updated_at, incoming_updated_at),
                lname@ == lower_of(name@),
                forall|j: int|
                    0 <= j < k && j != i && #[trigger] cs[j].user_id@ == user_id@ ==> lower_of(cs[j].name@)
                        != lname@,
            decreases cs.len() - k,
        {
            if k != i && self.charities[k].user_id == *user_id {
                let other = lowercase(self.charities[k].name.as_str());
                if other == lname {
                    proof {
                        assert(cs[k as int].user_id@ == user_id@);
                        assert(name_taken_by_other(cs, user_id@, lname@, i as int));
                    }
                    return Err(StoreError::DuplicateName);
                }
            }
            k = k + 1;
        }
        let before = copy_charity(&self.charities[i]);
        let c = Charity {
            id: before.id.clone(),
            user_id: before.user_id.clone(),
            name: name.clone(),
            details: merge_details(&before.details, details),
            created_at: before.created_at,
            updated_at: Some(now),
        };
        let after = copy_charity(&c);
        proof {
            lemma_refs_after_charity_update(self.donations@, cs, i as int, c);
        }
        self.charities.set(i, c);
        proof {
            let ns = self.charities@;
            assert forall|a: int, b: int|
                0 <= a < ns.len() && 0 <= b < ns.len() && a != b implies #[trigger] ns[a].id@
                != #[trigger] ns[b].id@ by {
                assert(cs[a].id@ != cs[b].id@);
            }
            assert forall|a: int, b: int|
                0 <= a < ns.len() && 0 <= b < ns.len() && a != b && #[trigger] ns[a].user_id@
                    == #[trigger] ns[b].user_id@ implies lower_of(ns[a].name@) != lower_of(ns[b].name@) by {
                if a != i && b != i {
                    assert(lower_of(cs[a].name@) != lower_of(cs[b].name@));
                } else if a == i {
                    assert(cs[b].user_id@ == user_id@);
                } else {
                    assert(cs[a].user_id@ == user_id@);
                }
            }
        }
        let rid = new_record_id();
        self.log_revision(
            rid,
            Some(user_id.clone()),
            Table::Charities,
            charity_id.clone(),
            Operation::Update,
            Some(Snapshot::Charity(before)),
            Some(Snapshot::Charity(after)),
            now,
        );
        Ok(true)
    }

    /// Number of the user's donations, not deleted, that go to the charity.
    pub fn count_donations_for_charity(&self, user_id: &String, charity_id: &String) -> (r: usize)
        ensures
            r == live_references(self.donations@, user_id@, charity_id@),
    {
        let ghost ds = self.donations@;
        let mut n: usize = 0;
        let mut i: usize = 0;
        while i < self.donations.len()
            invariant
                i <= ds.len(),
                ds == self.donations@,
                n == live_references(ds.subrange(0, i as int), user_id@, charity_id@),
                n <= i,
            decreases ds.len() - i,
        {
            let d = &self.donations[i];
            proof {
                assert(ds.subrange(0, i + 1).drop_last() =~= ds.subrange(0, i as int));
            }
            if d.user_id == *user_id && d.charity_id == *charity_id && !d.deleted {
                n = n + 1;
            }
            i = i + 1;
        }
        proof {
            assert(ds.subrange(0, ds.len() as int) =~= ds);
        }
        n
    }

    /// Removes one of the user's charities. Refused with `false`, changing
    /// nothing, while a donation of the user that is not deleted still goes to
    /// it, and when the charity is missing or belongs to someone else.
    pub fn delete_charity(&mut self, user_id: &String, charity_id: &String, now: Timestamp) -> (r: bool)
        requires
            old(self).wf(),
        ensures
            final(self).wf(),
            ({
                let cs = old(self).charities@;
                let i = charity_index(cs, charity_id@);
                if live_references(old(self).donations@, user_id@, charity_id@) > 0 {
                    !r && *final(self) == *old(self)
                } else if !charity_owned(cs, charity_id@, user_id@) {
                    !r && *final(self) == *old(self)
                } else {
                    &&& r
                    &&& final(self).charities@ == cs.remove(i)
                    &&& final(self).donations == old(self).donations
                    &&& final(self).receipts == old(self).receipts
                    &&& final(self).audit_logs == old(self).audit_logs
                    &&& final(self).users == old(self).users
                    &&& one_revision_added(old(self).revisions@, final(self).revisions@)
                    &&& revision_of(
                        final(self).revisions@.last(),
                        Some(*user_id),
                        Table::Charities,
                        *charity_id,
                        Operation::Delete,
                        Some(Snapshot::Charity(cs[i])),
                        None,
                        now,
                    )
                }
            }),
    {
        if self.count_donations_for_charity(user_id, charity_id) > 0 {
            return false;
        }
        let i = match self.find_charity(charity_id) {
            Some(i) => i,
            None => return false,
        };
        if self.charities[i].user_id != *user_id {
            return false;
        }
        let ghost cs = self.charities@;
        proof {
            lemma_live_references(self.donations@, user_id@, charity_id@);
            let ds = self.donations@;
            assert forall|j: int| 0 <= j < ds.len() && !(#[trigger] ds[j]).deleted implies !(
            ds[j].charity_id@ == cs[i as int].id@ && ds[j].user_id@ == cs[i as int].user_id@) by {
                assert(!live_reference(ds[j], user_id@, charity_id@));
            }
            lemma_refs_after_charity_remove(ds, cs, i as int);
        }
        let removed = self.charities.remove(i);
        proof {
            let ns = self.charities@;
            assert forall|a: int| 0 <= a < ns.len() implies #[trigger] ns[a] == cs[if a < i { a } else { a + 1 }] by {}
            assert forall|a: int, b: int|
                0 <= a < ns.len() && 0 <= b < ns.len() && a != b implies #[trigger] ns[a].id@
                != #[trigger] ns[b].id@ by {
                let a1 = if a < i { a } else { a + 1 };
                let b1 = if b < i { b } else { b + 1 };
                assert(ns[a] == cs[a1] && ns[b] == cs[b1]);
            }
            assert forall|a: int, b: int|
                0 <= a < ns.len() && 0 <= b < ns.len() && a != b && #[trigger] ns[a].user_id@
                    == #[trigger] ns[b].user_id@ implies lower_of(ns[a].name@) != lower_of(ns[b].name@) by {
                let a1 = if a < i { a } else { a + 1 };
                let b1 = if b < i { b } else { b + 1 };
                assert(ns[a] == cs[a1] && ns[b] == cs[b1]);
            }
        }
        let rid = new_record_id();
        self.log_revision(
            rid,
            Some(user_id.clone()),
            Table::Charities,
            charity_id.clone(),
            Operation::Delete,
            Some(Snapshot::Charity(removed)),
            None,
            now,
        );
        true
    }
    /// The user's charities.
    pub fn list_charities(&self, user_id: &String) -> (r: Vec<Charity>)
        ensures
            r@ == charities_of(self.charities@, user_id@),
    {
        let ghost cs = self.charities@;
        let mut out: Vec<Charity> = Vec::new();
        let mut i: usize = 0;
        while i < self.charities.len()
            invariant
                i <= cs.len(),
                cs == self.charities@,
                out@ == charities_of(cs.subrange(0, i as int), user_id@),
            decreases cs.len() - i,
        {
            proof {
                assert(cs.subrange(0, i + 1).drop_last() =~= cs.subrange(0, i as int));
                assert(cs.subrange(0, i + 1).last() == cs[i as int]);
            }
            if self.charities[i].user_id == *user_id {
                out.push(copy_charity(&self.charities[i]));
            }
            i = i + 1;
        }
        proof {
            assert(cs.subrange(0, cs.len() as int) =~= cs);
        }
        out
    }
}

} // verus!
