//! Properties that hold across the store's operations.

use crate::charities::{
    charity_matches, create_outcome, first_charity_match, lemma_live_references,
    live_reference, live_references,
};
use crate::donations::{
    keeps, lemma_listing_sources, listing, soft_deleted, update_permitted, DonationFilter,
};
use crate::outside::lower_of;
use crate::records::{Charity, CharityDetails, DonationRecord, Revision, Timestamp};
use crate::store::{donation_ids_unique, one_revision_added};
use vstd::prelude::*;

verus! {

/// An update whose last-known update time is not strictly after the stored
/// one is not permitted: `update_donation` then returns `Ok(false)` and leaves
/// the records and the revision log as they were.
pub proof fn lemma_stale_update_refused(stored: Timestamp, incoming: Timestamp)
    requires
        incoming <= stored,
    ensures
        !update_permitted(Some(stored), Some(incoming)),
{
}

/// After a live donation is soft-deleted it is absent from its owner's
/// listing of live donations, while the revision the deletion writes keeps it:
/// not deleted in the old values, deleted in the new ones.
pub proof fn lemma_soft_deleted_unlisted(
    ds: Seq<DonationRecord>,
    cs: Seq<Charity>,
    user_id: String,
    year: Option<i32>,
    i: int,
    now: Timestamp,
)
    requires
        donation_ids_unique(ds),
        0 <= i < ds.len(),
        !ds[i].deleted,
    ensures
        ({
            let after = ds.update(i, soft_deleted(ds[i], now));
            let listed = listing(after, cs, DonationFilter::Live { user_id, year });
            forall|k: int| 0 <= k < listed.len() ==> #[trigger] listed[k].id@ != ds[i].id@
        }),
        soft_deleted(ds[i], now).deleted,
        soft_deleted(ds[i], now).id == ds[i].id,
{
    let after = ds.update(i, soft_deleted(ds[i], now));
    let f = DonationFilter::Live { user_id, year };
    let listed = listing(after, cs, f);
    assert forall|k: int| 0 <= k < listed.len() implies #[trigger] listed[k].id@ != ds[i].id@ by {
        lemma_listing_sources(after, cs, f, k);
        let j = choose|j: int| 0 <= j < after.len() && listed[k].id == after[j].id && keeps(f, after[j]);
        if j != i {
            assert(after[j] == ds[j]);
        }
    }
}

/// Creating two charities for a user under names that differ only in case,
/// whatever details each carries, yields a single charity id: the second
/// creation finds the first charity, returns its id and stores nothing.
pub proof fn lemma_case_variants_share_charity(
    cs: Seq<Charity>,
    first_id: String,
    second_id: String,
    user_id: String,
    first_name: String,
    second_name: String,
    first_details: CharityDetails,
    second_details: CharityDetails,
    first_time: Timestamp,
    second_time: Timestamp,
)
    requires
        lower_of(first_name@) == lower_of(second_name@),
    ensures
        ({
            let (cs1, r1) = create_outcome(cs, first_id, user_id, first_name, first_details, None, first_time);
            let (cs2, r2) = create_outcome(
                cs1,
                second_id,
                user_id,
                second_name,
                second_details,
                None,
                second_time,
            );
            r1 is Ok ==> r2 == r1 && cs2 == cs1
        }),
{
    let lname = lower_of(first_name@);
    let (cs1, r1) = create_outcome(cs, first_id, user_id, first_name, first_details, None, first_time);
    if first_charity_match(cs, user_id@, lname, None) < 0 && r1 is Ok {
        assert(cs1.drop_last() =~= cs);
        assert(charity_matches(cs1.last(), user_id@, lname, None));
    }
}

/// Deleting a charity is refused (`delete_charity` returns `false` and
/// changes nothing) while a donation of the user that is not deleted goes to
/// it; when only soft-deleted donations go to it, nothing holds the deletion
/// back.
pub proof fn lemma_delete_guard_counts_live_donations(
    ds: Seq<DonationRecord>,
    user_id: Seq<char>,
    charity_id: Seq<char>,
)
    ensures
        (exists|k: int| 0 <= k < ds.len() && live_reference(#[trigger] ds[k], user_id, charity_id))
            ==> live_references(ds, user_id, charity_id) > 0,
        (forall|k: int|
            0 <= k < ds.len() && #[trigger] ds[k].user_id@ == user_id && ds[k].charity_id@ == charity_id
                ==> ds[k].deleted) ==> live_references(ds, user_id, charity_id) == 0,
{
    lemma_live_references(ds, user_id, charity_id);
    if forall|k: int|
        0 <= k < ds.len() && #[trigger] ds[k].user_id@ == user_id && ds[k].charity_id@ == charity_id
            ==> ds[k].deleted {
        assert forall|j: int| 0 <= j < ds.len() implies !live_reference(#[trigger] ds[j], user_id, charity_id) by {
            if ds[j].user_id@ == user_id && ds[j].charity_id@ == charity_id {
                assert(ds[j].deleted);
            }
        }
    }
}

/// A mutation leaves every earlier revision where it was: the log only grows
/// at its end, one record per mutation.
pub proof fn lemma_revision_log_append_only(before: Seq<Revision>, after: Seq<Revision>)
    requires
        one_revision_added(before, after),
    ensures
        after.len() == before.len() + 1,
        forall|k: int| 0 <= k < before.len() ==> #[trigger] after[k] == before[k],
{
}

} // verus!
