//! Receipts, owned through their donation, and the OCR results attached to them.

use crate::outside::new_record_id;
use crate::records::{
    opt_view, Date, DonationRecord, Operation, Receipt, Snapshot, StoreError, Table, Timestamp,
};
use crate::store::{
    Store, copy_opt, copy_receipt, donation_ids_unique, donation_owned,
    one_revision_added, receipt_index, revision_of,
};
use vstd::prelude::*;

verus! {

/// Whether the receipt's donation exists and belongs to the user.
pub open spec fn receipt_visible(ds: Seq<DonationRecord>, r: Receipt, user: Seq<char>) -> bool {
    donation_owned(ds, r.donation_id@, user)
}

/// The user's receipts, of one donation or of all, in stored order.
pub open spec fn receipt_listing(
    rs: Seq<Receipt>,
    ds: Seq<DonationRecord>,
    user: Seq<char>,
    donation_id: Option<Seq<char>>,
) -> Seq<Receipt>
    decreases rs.len(),
{
    if rs.len() == 0 {
        Seq::empty()
    } else {
        let rest = receipt_listing(rs.drop_last(), ds, user, donation_id);
        let r = rs.last();
        let wanted = match donation_id {
            Some(x) => r.donation_id@ == x,
            None => true,
        };
        if receipt_visible(ds, r, user) && wanted {
            rest.push(r)
        } else {
            rest
        }
    }
}

/// A receipt with OCR results attached.
pub open spec fn with_ocr(
    r: Receipt,
    text: Option<String>,
    date: Option<Date>,
    amount: Option<i64>,
    status: Option<String>,
) -> Receipt {
    Receipt { ocr_text: text, ocr_date: date, ocr_amount: amount, ocr_status: status, ..r }
}

impl Store {
    /// Records a receipt file for one of the user's donations; a donation that
    /// is missing or belongs to someone else is refused alike.
    pub fn add_receipt(
        &mut self,
        id: &String,
        user_id: &String,
        donation_id: &String,
        key: &String,
        file_name: &Option<String>,
        content_type: &Option<String>,
        size: Option<i64>,
        now: Timestamp,
    ) -> (r: Result<(), StoreError>)
        requires
            old(self).wf(),
        ensures
            final(self).wf(),
            ({
                let ds = old(self).donations@;
                let rec = Receipt {
                    id: *id,
                    donation_id: *donation_id,
                    key: *key,
                    file_name: *file_name,
                    content_type: *content_type,
                    size: size,
                    ocr_text: None,
                    ocr_date: None,
                    ocr_amount: None,
                    ocr_status: None,
                    created_at: now,
                };
                if receipt_index(old(self).receipts@, id@) >= 0 {
                    r == Err::<(), StoreError>(StoreError::DuplicateId) && *final(self) == *old(self)
                } else if !donation_owned(ds, donation_id@, user_id@) {
                    r == Err::<(), StoreError>(StoreError::UnknownDonation) && *final(self) == *old(self)
                } else {
                    &&& r == Ok::<(), StoreError>(())
                    &&& final(self).receipts@ == old(self).receipts@.push(rec)
                    &&& final(self).donations == old(self).donations
                    &&& final(self).charities == old(self).charities
                    &&& final(self).audit_logs == old(self).audit_logs
                    &&& final(self).users == old(self).users
                    &&& one_revision_added(old(self).revisions@, final(self).revisions@)
                    &&& revision_of(
                        final(self).revisions@.last(),
                        Some(*user_id),
                        Table::Receipts,
                        *id,
                        Operation::Create,
                        None,
                        Some(Snapshot::Receipt(rec)),
                        now,
                    )
                }
            }),
    {
        if self.find_receipt(id).is_some() {
            return Err(StoreError::DuplicateId);
        }
        let di = match self.find_donation(donation_id) {
            Some(di) => di,
            None => return Err(StoreError::UnknownDonation),
        };
        if self.donations[di].user_id != *user_id {
            return Err(StoreError::UnknownDonation);
        }
        let owner = user_id.clone();
        let rec = Receipt {
            id: id.clone(),
            donation_id: donation_id.clone(),
            key: key.clone(),
            file_name: copy_opt(file_name),
            content_type: copy_opt(content_type),
            size: size,
            ocr_text: None,
            ocr_date: None,
            ocr_amount: None,
            ocr_status: None,
            created_at: now,
        };
        let snapshot = copy_receipt(&rec);
        let ghost before = self.receipts@;
        self.receipts.push(rec);
        proof {
            let rs = self.receipts@;
            assert forall|a: int, b: int|
                0 <= a < rs.len() && 0 <= b < rs.len() && a != b implies #[trigger] rs[a].id@
                != #[trigger] rs[b].id@ by {
                if a < before.len() && b < before.len() {
                    assert(before[a] == rs[a] && before[b] == rs[b]);
                } else if a < before.len() {
                    assert(before[a] == rs[a]);
                } else {
                    assert(before[b] == rs[b]);
                }
            }
        }
        let rid = new_record_id();
        self.log_revision(
            rid,
            Some(owner),
            Table::Receipts,
            id.clone(),
            Operation::Create,
            None,
            Some(Snapshot::Receipt(snapshot)),
            now,
        );
        Ok(())
    }

    fn visible_to(&self, r: &Receipt, user_id: &String) -> (b: bool)
        requires
            donation_ids_unique(self.donations@),
        ensures
            b == receipt_visible(self.donations@, *r, user_id@),
    {
        match self.find_donation(&r.donation_id) {
            Some(di) => self.donations[di].user_id == *user_id,
            None => false,
        }
    }

    /// The receipt, when its donation belongs to the user.
    pub fn get_receipt(&self, user_id: &String, receipt_id: &String) -> (r: Option<Receipt>)
        requires
            self.wf(),
        ensures
            ({
                let rs = self.receipts@;
                let i = receipt_index(rs, receipt_id@);
                if i >= 0 && receipt_visible(self.donations@, rs[i], user_id@) {
                    r == Some(rs[i])
                } else {
                    r is None
                }
            }),
    {
        match self.find_receipt(receipt_id) {
            Some(i) => {
                if self.visible_to(&self.receipts[i], user_id) {
                    Some(copy_receipt(&self.receipts[i]))
                } else {
                    None
                }
            },
            None => None,
        }
    }

    /// The user's receipts, of one donation or of all.
    pub fn list_receipts(&self, user_id: &String, donation_id: &Option<String>) -> (r: Vec<Receipt>)
        requires
            self.wf(),
        ensures
            r@ == receipt_listing(self.receipts@, self.donations@, user_id@, opt_view(*donation_id)),
    {
        let ghost rs = self.receipts@;
        let mut out: Vec<Receipt> = Vec::new();
        let mut i: usize = 0;
        while i < self.receipts.len()
            invariant
                i <= rs.len(),
                rs == self.receipts@,
                self.wf(),
                out@ == receipt_listing(
                    rs.subrange(0, i as int),
                    self.donations@,
                    user_id@,
                    opt_view(*donation_id),
                ),
            decreases rs.len() - i,
        {
            let rc = &self.receipts[i];
            proof {
                assert(rs.subrange(0, i + 1).drop_last() =~= rs.subrange(0, i as int));
                assert(rs.subrange(0, i + 1).last() == rs[i as int]);
            }
            let wanted = match donation_id {
                Some(x) => rc.donation_id == *x,
                None => true,
            };
            if wanted && self.visible_to(rc, user_id) {
                out.push(copy_receipt(rc));
            }
            i = i + 1;
        }
        proof {
            assert(rs.subrange(0, rs.len() as int) =~= rs);
        }
        out
    }

    /// Attaches OCR results to one of the user's receipts; `false`, changing
    /// nothing, when the receipt is missing or belongs to someone else.
    pub fn set_receipt_ocr(
        &mut self,
        user_id: &String,
        receipt_id: &String,
        ocr_text: &Option<String>,
        ocr_date: Option<Date>,
        ocr_amount: Option<i64>,
        ocr_status: &Option<String>,
        now: Timestamp,
    ) -> (r: bool)
        requires
            old(self).wf(),
            ocr_date matches Some(d) ==> d.valid(),
        ensures
            final(self).wf(),
            ({
                let rs = old(self).receipts@;
                let i = receipt_index(rs, receipt_id@);
                if i < 0 || !receipt_visible(old(self).donations@, rs[i], user_id@) {
                    !r && *final(self) == *old(self)
                } else {
                    let rec = with_ocr(rs[i], *ocr_text, ocr_date, ocr_amount, *ocr_status);
                    &&& r
                    &&& final(self).receipts@ == rs.update(i, rec)
                    &&& final(self).donations == old(self).donations
                    &&& final(self).charities == old(self).charities
                    &&& final(self).audit_logs == old(self).audit_logs
                    &&& final(self).users == old(self).users
                    &&& one_revision_added(old(self).revisions@, final(self).revisions@)
                    &&& revision_of(
                        final(self).revisions@.last(),
                        Some(*user_id),
                        Table::Receipts,
                        *receipt_id,
                        Operation::Update,
                        Some(Snapshot::Receipt(rs[i])),
                        Some(Snapshot::Receipt(rec)),
                        now,
                    )
                }
            }),
    {
        let i = match self.find_receipt(receipt_id) {
            Some(i) => i,
            None => return false,
        };
        if !self.visible_to(&self.receipts[i], user_id) {
            return false;
        }
        let before = copy_receipt(&self.receipts[i]);
        let owner = Some(user_id.clone());
        let mut rec = copy_receipt(&before);
        rec.ocr_text = copy_opt(ocr_text);
        rec.ocr_date = ocr_date;
        rec.ocr_amount = ocr_amount;
        rec.ocr_status = copy_opt(ocr_status);
        let after = copy_receipt(&rec);
        let ghost rs = self.receipts@;
        self.receipts.set(i, rec);
        proof {
            let ns = self.receipts@;
            assert forall|a: int, b: int|
                0 <= a < ns.len() && 0 <= b < ns.len() && a != b implies #[trigger] ns[a].id@
                != #[trigger] ns[b].id@ by {
                assert(rs[a].id@ != rs[b].id@);
            }
        }
        let rid = new_record_id();
        self.log_revision(
            rid,
            owner,
            Table::Receipts,
            receipt_id.clone(),
            Operation::Update,
            Some(Snapshot::Receipt(before)),
            Some(Snapshot::Receipt(after)),
            now,
        );
        true
    }
}

} // verus!
