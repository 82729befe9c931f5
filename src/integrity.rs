//! Checking the store's invariant on rows that come from outside, such as a
//! backend's tables.

use crate::outside::{calendar_day_exists, lower_of, lowercase};
use crate::records::{Charity, DonationRecord, Receipt, UserProfile};
use crate::store::{
    dates_valid, goes_to, live_charities_owned, ocr_dates_valid, receipts_attached,
    Store, charity_ids_unique, charity_names_unique, donation_ids_unique, receipt_ids_unique,
    user_ids_unique, years_follow_dates,
};
use vstd::prelude::*;

verus! {

/// A record with a text key.
pub trait Keyed {
    spec fn key_view(&self) -> Seq<char>;

    fn key(&self) -> (r: &String)
        ensures
            r@ == self.key_view(),
    ;
}

impl Keyed for DonationRecord {
    open spec fn key_view(&self) -> Seq<char> {
        self.id@
    }

    fn key(&self) -> (r: &String) {
        &self.id
    }
}

impl Keyed for Charity {
    open spec fn key_view(&self) -> Seq<char> {
        self.id@
    }

    fn key(&self) -> (r: &String) {
        &self.id
    }
}

impl Keyed for Receipt {
    open spec fn key_view(&self) -> Seq<char> {
        self.id@
    }

    fn key(&self) -> (r: &String) {
        &self.id
    }
}

impl Keyed for UserProfile {
    open spec fn key_view(&self) -> Seq<char> {
        self.id@
    }

    fn key(&self) -> (r: &String) {
        &self.id
    }
}

/// Whether no two records share a key.
fn keys_distinct<T: Keyed>(v: &Vec<T>) -> (r: bool)
    ensures
        r == forall|a: int, b: int|
            0 <= a < v@.len() && 0 <= b < v@.len() && a != b ==> #[trigger] v@[a].key_view()
                != #[trigger] v@[b].key_view(),
{
    let n = v.len();
    let mut i: usize = 0;
    while i < n
        invariant
            i <= n,
            n == v@.len(),
            forall|a: int, b: int|
                0 <= a < i && 0 <= b < n && a != b ==> #[trigger] v@[a].key_view() != #[trigger] v@[b].key_view(),
        decreases n - i,
    {
        let mut j: usize = 0;
        while j < n
            invariant
                i < n,
                j <= n,
                n == v@.len(),
                forall|a: int, b: int|
                    0 <= a < i && 0 <= b < n && a != b ==> #[trigger] v@[a].key_view() != #[trigger] v@[b].key_view(),
                forall|b: int| 0 <= b < j && i != b ==> v@[i as int].key_view() != #[trigger] v@[b].key_view(),
            decreases n - j,
        {
            if i != j && *v[i].key() == *v[j].key() {
                assert(v@[i as int].key_view() == v@[j as int].key_view());
                return false;
            }
            j = j + 1;
        }
        i = i + 1;
    }
    true
}

impl Store {
    fn charity_names_distinct(&self) -> (r: bool)
        ensures
            r == charity_names_unique(self.charities@),
    {
        let cs = &self.charities;
        let n = cs.len();
        let mut lowers: Vec<String> = Vec::new();
        let mut k: usize = 0;
        while k < n
            invariant
                k <= n,
                n == cs@.len(),
                cs@ == self.charities@,
                lowers@.len() == k,
                forall|x: int| 0 <= x < k ==> #[trigger] lowers@[x]@ == lower_of(cs@[x].name@),
            decreases n - k,
        {
            lowers.push(lowercase(cs[k].name.as_str()));
            k = k + 1;
        }
        let mut i: usize = 0;
        while i < n
            invariant
                i <= n,
                n == cs@.len(),
                cs@ == self.charities@,
                lowers@.len() == n,
                forall|x: int| 0 <= x < n ==> #[trigger] lowers@[x]@ == lower_of(cs@[x].name@),
                forall|a: int, b: int|
                    0 <= a < i && 0 <= b < n && a != b && #[trigger] cs@[a].user_id@ == #[trigger] cs@[b].user_id@
                        ==> lower_of(cs@[a].name@) != lower_of(cs@[b].name@),
            decreases n - i,
        {
            let mut j: usize = 0;
            while j < n
                invariant
                    i < n,
                    j <= n,
                    n == cs@.len(),
                    cs@ == self.charities@,
                cs@ == self.charities@,
                    lowers@.len() == n,
                    forall|x: int| 0 <= x < n ==> #[trigger] lowers@[x]@ == lower_of(cs@[x].name@),
                    forall|a: int, b: int|
                        0 <= a < i && 0 <= b < n && a != b && #[trigger] cs@[a].user_id@ == #[trigger] cs@[b].user_id@
                            ==> lower_of(cs@[a].name@) != lower_of(cs@[b].name@),
                    forall|b: int|
                        0 <= b < j && i != b && cs@[i as int].user_id@ == #[trigger] cs@[b].user_id@
                            ==> lower_of(cs@[i as int].name@) != lower_of(cs@[b].name@),
                decreases n - j,
            {
                if i != j && cs[i].user_id == cs[j].user_id && lowers[i] == lowers[j] {
                    proof {
                        assert(lowers@[i as int]@ == lower_of(cs@[i as int].name@));
                        assert(lowers@[j as int]@ == lower_of(cs@[j as int].name@));
                        assert(cs@[i as int].user_id@ == cs@[j as int].user_id@);
                    }
                    return false;
                }
                proof {
                    assert(lowers@[i as int]@ == lower_of(cs@[i as int].name@));
                    assert(lowers@[j as int]@ == lower_of(cs@[j as int].name@));
                }
                j = j + 1;
            }
            i = i + 1;
        }
        true
    }

    fn years_consistent(&self) -> (r: bool)
        ensures
            r == years_follow_dates(self.donations@),
    {
        let ds = &self.donations;
        let mut i: usize = 0;
        while i < ds.len()
            invariant
                i <= ds@.len(),
                ds@ == self.donations@,
                forall|a: int| 0 <= a < i ==> #[trigger] ds@[a].year == ds@[a].date.year,
            decreases ds@.len() - i,
        {
            if ds[i].year != ds[i].date.year {
                proof {
                    assert(ds@[i as int].year != ds@[i as int].date.year);
                }
                return false;
            }
            i = i + 1;
        }
        true
    }

    fn dates_checked(&self) -> (r: bool)
        ensures
            r == dates_valid(self.donations@),
    {
        let mut i: usize = 0;
        while i < self.donations.len()
            invariant
                i <= self.donations@.len(),
                forall|a: int| 0 <= a < i ==> (#[trigger] self.donations@[a]).date.valid(),
            decreases self.donations@.len() - i,
        {
            let d = self.donations[i].date;
            if !calendar_day_exists(d.year, d.month, d.day) {
                assert(!self.donations@[i as int].date.valid());
                return false;
            }
            i = i + 1;
        }
        true
    }

    fn charity_of_donation(&self, i: usize) -> (r: bool)
        requires
            i < self.donations@.len(),
        ensures
            r == exists|j: int| goes_to(self.donations@[i as int], self.charities@, j),
    {
        let d = &self.donations[i];
        let mut j: usize = 0;
        while j < self.charities.len()
            invariant
                j <= self.charities@.len(),
                i < self.donations@.len(),
                *d == self.donations@[i as int],
                forall|x: int| 0 <= x < j ==> !goes_to(*d, self.charities@, x),
            decreases self.charities@.len() - j,
        {
            if self.charities[j].id == d.charity_id && self.charities[j].user_id == d.user_id {
                assert(goes_to(*d, self.charities@, j as int));
                return true;
            }
            j = j + 1;
        }
        false
    }

    fn live_charities_checked(&self) -> (r: bool)
        ensures
            r == live_charities_owned(self.donations@, self.charities@),
    {
        let mut i: usize = 0;
        while i < self.donations.len()
            invariant
                i <= self.donations@.len(),
                forall|a: int| 0 <= a < i && !(#[trigger] self.donations@[a]).deleted ==> exists|j: int|
                    goes_to(self.donations@[a], self.charities@, j),
            decreases self.donations@.len() - i,
        {
            if !self.donations[i].deleted && !self.charity_of_donation(i) {
                assert(!self.donations@[i as int].deleted);
                return false;
            }
            i = i + 1;
        }
        true
    }

    fn donation_of_receipt(&self, r: usize) -> (b: bool)
        requires
            r < self.receipts@.len(),
        ensures
            b == exists|i: int| 0 <= i < self.donations@.len() && self.donations@[i].id@ == self.receipts@[r as int].donation_id@,
    {
        let did = &self.receipts[r].donation_id;
        let mut i: usize = 0;
        while i < self.donations.len()
            invariant
                i <= self.donations@.len(),
                r < self.receipts@.len(),
                *did == self.receipts@[r as int].donation_id,
                forall|x: int| 0 <= x < i ==> self.donations@[x].id@ != did@,
            decreases self.donations@.len() - i,
        {
            if self.donations[i].id == *did {
                return true;
            }
            i = i + 1;
        }
        false
    }

    fn receipts_checked(&self) -> (b: bool)
        ensures
            b == (receipts_attached(self.receipts@, self.donations@) && ocr_dates_valid(self.receipts@)),
    {
        let mut r: usize = 0;
        while r < self.receipts.len()
            invariant
                r <= self.receipts@.len(),
                forall|a: int|
                    #![trigger self.receipts@[a]]
                    0 <= a < r ==> exists|i: int|
                        0 <= i < self.donations@.len() && self.donations@[i].id@ == self.receipts@[a].donation_id@,
                forall|a: int| 0 <= a < r ==> match (#[trigger] self.receipts@[a]).ocr_date {
                    Some(d) => d.valid(),
                    None => true,
                },
            decreases self.receipts@.len() - r,
        {
            if !self.donation_of_receipt(r) {
                assert(!receipts_attached(self.receipts@, self.donations@));
                return false;
            }
            if let Some(d) = self.receipts[r].ocr_date {
                if !calendar_day_exists(d.year, d.month, d.day) {
                    assert(!ocr_dates_valid(self.receipts@));
                    return false;
                }
            }
            r = r + 1;
        }
        let ghost rs = self.receipts@;
        let ghost ds = self.donations@;
        assert forall|a: int| #![trigger rs[a]] 0 <= a < rs.len() implies exists|i: int|
            0 <= i < ds.len() && ds[i].id@ == rs[a].donation_id@ by {
            assert(0 <= a < r);
            assert(exists|i: int|
                0 <= i < self.donations@.len() && self.donations@[i].id@ == self.receipts@[a].donation_id@);
        }
        assert(receipts_attached(rs, ds));
        assert(ocr_dates_valid(self.receipts@));
        true
    }

    /// Whether the store's invariant holds, as it must before any other
    /// operation; a store read back from a backend is checked with it.
    pub fn is_well_formed(&self) -> (r: bool)
        ensures
            r == self.wf(),
    {
        let donations_ok = keys_distinct(&self.donations);
        proof {
            let v = self.donations@;
            if donations_ok {
                assert forall|a: int, b: int|
                    0 <= a < v.len() && 0 <= b < v.len() && a != b implies #[trigger] v[a].id@ != #[trigger] v[b].id@ by {
                    assert(v[a].key_view() != v[b].key_view());
                }
            } else {
                let (a, b) = choose|a: int, b: int|
                    0 <= a < v.len() && 0 <= b < v.len() && a != b && v[a].key_view() == v[b].key_view();
                assert(v[a].id@ == v[b].id@);
            }
            assert(donations_ok == donation_ids_unique(v));
        }
        let charities_ok = keys_distinct(&self.charities);
        proof {
            let v = self.charities@;
            if charities_ok {
                assert forall|a: int, b: int|
                    0 <= a < v.len() && 0 <= b < v.len() && a != b implies #[trigger] v[a].id@ != #[trigger] v[b].id@ by {
                    assert(v[a].key_view() != v[b].key_view());
                }
            } else {
                let (a, b) = choose|a: int, b: int|
                    0 <= a < v.len() && 0 <= b < v.len() && a != b && v[a].key_view() == v[b].key_view();
                assert(v[a].id@ == v[b].id@);
            }
            assert(charities_ok == charity_ids_unique(v));
        }
        let receipts_ok = keys_distinct(&self.receipts);
        proof {
            let v = self.receipts@;
            if receipts_ok {
                assert forall|a: int, b: int|
                    0 <= a < v.len() && 0 <= b < v.len() && a != b implies #[trigger] v[a].id@ != #[trigger] v[b].id@ by {
                    assert(v[a].key_view() != v[b].key_view());
                }
            } else {
                let (a, b) = choose|a: int, b: int|
                    0 <= a < v.len() && 0 <= b < v.len() && a != b && v[a].key_view() == v[b].key_view();
                assert(v[a].id@ == v[b].id@);
            }
            assert(receipts_ok == receipt_ids_unique(v));
        }
        let users_ok = keys_distinct(&self.users);
        proof {
            let v = self.users@;
            if users_ok {
                assert forall|a: int, b: int|
                    0 <= a < v.len() && 0 <= b < v.len() && a != b implies #[trigger] v[a].id@ != #[trigger] v[b].id@ by {
                    assert(v[a].key_view() != v[b].key_view());
                }
            } else {
                let (a, b) = choose|a: int, b: int|
                    0 <= a < v.len() && 0 <= b < v.len() && a != b && v[a].key_view() == v[b].key_view();
                assert(v[a].id@ == v[b].id@);
            }
            assert(users_ok == user_ids_unique(v));
        }
        donations_ok && charities_ok && receipts_ok && users_ok && self.charity_names_distinct()
            && self.years_consistent() && self.dates_checked() && self.live_charities_checked()
            && self.receipts_checked()
    }
}

} // verus!
