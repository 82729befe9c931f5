use donation_ledger::records::{
    CharityDetails, Date, Operation, Snapshot, StoreError, Table,
};
use donation_ledger::donations::DonationPatch;
use donation_ledger::store::Store;

fn s(v: &str) -> String {
    v.to_string()
}

fn empty_details() -> CharityDetails {
    CharityDetails {
        ein: None,
        category: None,
        status: None,
        classification: None,
        nonprofit_type: None,
        deductibility: None,
        street: None,
        city: None,
        state: None,
        zip: None,
    }
}

fn no_patch() -> DonationPatch {
    DonationPatch { date: None, category: None, charity_id: None, amount_cents: None, notes: None }
}

fn store_with_donation() -> Store {
    let mut st = Store::new();
    st.create_charity(&s("c1"), &s("u1"), &s("Red Cross"), empty_details(), 100).unwrap();
    let date = Date::from_ymd(2026, 2, 18).unwrap();
    st.add_donation(&s("d1"), &s("u1"), date, &Some(s("money")), &s("c1"), Some(12345), &None, 200)
        .unwrap();
    st
}

#[test]
fn create_then_list_round_trip() {
    let mut st = Store::new();
    let cid = st
        .find_or_create_charity(&s("c-new"), &s("dev-1"), &s("Red Cross"), empty_details(), 10)
        .unwrap();
    assert_eq!(cid, "c-new");
    let date = Date::parse("2026-02-18").unwrap();
    st.add_donation(&s("d1"), &s("dev-1"), date, &Some(s("money")), &cid, Some(12345), &None, 20)
        .unwrap();
    let listed = st.list_donations(&s("dev-1"), Some(2026));
    assert_eq!(listed.len(), 1);
    assert_eq!(listed[0].amount_cents, Some(12345));
    assert_eq!(listed[0].charity_name.as_deref(), Some("Red Cross"));
    assert_eq!(listed[0].year, 2026);
    assert!(st.list_donations(&s("dev-1"), Some(2025)).is_empty());
    assert!(st.list_donations(&s("someone-else"), None).is_empty());
}

#[test]
fn receipt_ocr_and_audit_flow() {
    let mut st = Store::new();
    st.create_charity(&s("test-charity-1"), &s("dev-1"), &s("Test Charity 1"), empty_details(), 1)
        .expect("create_charity");
    let date = Date::from_ymd(2026, 1, 18).expect("valid date");
    st.add_donation(
        &s("test-donation-1"),
        &s("dev-1"),
        date,
        &Some(s("money")),
        &s("test-charity-1"),
        Some(12300),
        &Some(s("integration test")),
        2,
    )
    .expect("add_donation");
    st.add_receipt(
        &s("test-receipt-1"),
        &s("dev-1"),
        &s("test-donation-1"),
        &s("test-key"),
        &Some(s("sample.png")),
        &Some(s("image/png")),
        Some(123),
        3,
    )
    .expect("add_receipt");
    let updated = st.set_receipt_ocr(
        &s("dev-1"),
        &s("test-receipt-1"),
        &Some(s("Sample OCR text")),
        None,
        Some(12345),
        &Some(s("done")),
        4,
    );
    assert!(updated, "set_receipt_ocr returned false");
    let r = st.get_receipt(&s("dev-1"), &s("test-receipt-1")).expect("receipt not found");
    assert_eq!(r.ocr_text.as_deref(), Some("Sample OCR text"));
    assert_eq!(r.ocr_amount, Some(12345));
    assert_eq!(r.ocr_status.as_deref(), Some("done"));

    let rev = st.revisions.last().unwrap();
    assert_eq!(rev.table, Table::Receipts);
    assert_eq!(rev.operation, Operation::Update);
    assert_eq!(rev.user_id.as_deref(), Some("dev-1"));
    match (&rev.old_values, &rev.new_values) {
        (Some(Snapshot::Receipt(old)), Some(Snapshot::Receipt(new))) => {
            assert_ne!(old.ocr_status.as_deref(), Some("done"));
            assert_eq!(new.ocr_status.as_deref(), Some("done"));
        }
        _ => panic!("expected receipt snapshots"),
    }

    st.log_audit(
        &s("audit-test-1"),
        &s("dev-1"),
        &s("test_action"),
        &s("receipts"),
        &Some(s("test-receipt-1")),
        &Some(s("Test audit entry")),
        5,
    );
    let logs = st.list_audit_logs(&s("dev-1"), None);
    assert!(!logs.is_empty(), "expected at least one audit log");
    assert_eq!(logs[0].action, "test_action");
}

#[test]
fn receipt_of_other_user_is_hidden() {
    let mut st = store_with_donation();
    st.add_receipt(&s("r1"), &s("u1"), &s("d1"), &s("k"), &None, &None, None, 300).unwrap();
    assert!(st.get_receipt(&s("u2"), &s("r1")).is_none());
    assert!(st.get_receipt(&s("u1"), &s("missing")).is_none());
    assert_eq!(st.list_receipts(&s("u1"), &None).len(), 1);
    assert_eq!(st.list_receipts(&s("u1"), &Some(s("other"))).len(), 0);
    assert_eq!(st.list_receipts(&s("u2"), &None).len(), 0);
    assert!(!st.set_receipt_ocr(&s("u1"), &s("missing"), &None, None, None, &None, 400));
    assert!(!st.set_receipt_ocr(&s("u2"), &s("r1"), &None, None, None, &Some(s("done")), 400));
    assert_eq!(st.get_receipt(&s("u1"), &s("r1")).unwrap().ocr_status, None);
}

#[test]
fn stale_update_is_refused() {
    let mut st = store_with_donation();
    assert_eq!(st.update_donation(&s("u1"), &s("d1"), no_patch(), Some(500), 500), Ok(true));
    let revisions_before = st.revisions.len();
    let mut patch = no_patch();
    patch.amount_cents = Some(1);
    assert_eq!(st.update_donation(&s("u1"), &s("d1"), patch, Some(500), 600), Ok(false));
    let mut patch = no_patch();
    patch.amount_cents = Some(1);
    assert_eq!(st.update_donation(&s("u1"), &s("d1"), patch, Some(499), 600), Ok(false));
    assert_eq!(st.revisions.len(), revisions_before);
    assert_eq!(st.donations[0].amount_cents, Some(12345));
    assert_eq!(st.donations[0].updated_at, Some(500));
}

#[test]
fn newer_update_applies_and_keeps_omitted_fields() {
    let mut st = store_with_donation();
    let mut patch = no_patch();
    patch.date = Some(Date::from_ymd(2025, 12, 31).unwrap());
    patch.notes = Some(s("moved"));
    assert_eq!(st.update_donation(&s("u1"), &s("d1"), patch, Some(700), 900), Ok(true));
    let d = &st.donations[0];
    assert_eq!(d.year, 2025);
    assert_eq!(d.amount_cents, Some(12345));
    assert_eq!(d.category.as_deref(), Some("money"));
    assert_eq!(d.notes.as_deref(), Some("moved"));
    assert_eq!(d.updated_at, Some(900));
    let rev = st.revisions.last().unwrap();
    assert_eq!(rev.operation, Operation::Update);
    assert_eq!(rev.created_at, 900);
}

#[test]
fn update_without_timestamp_stamps_now() {
    let mut st = store_with_donation();
    assert_eq!(st.update_donation(&s("u1"), &s("d1"), no_patch(), None, 800), Ok(true));
    assert_eq!(st.donations[0].updated_at, Some(800));
}

#[test]
fn update_of_unknown_or_foreign_donation_is_false() {
    let mut st = store_with_donation();
    assert_eq!(st.update_donation(&s("u2"), &s("d1"), no_patch(), None, 800), Ok(false));
    assert_eq!(st.update_donation(&s("u1"), &s("nope"), no_patch(), None, 800), Ok(false));
    let mut patch = no_patch();
    patch.charity_id = Some(s("no-such-charity"));
    assert_eq!(
        st.update_donation(&s("u1"), &s("d1"), patch, None, 800),
        Err(StoreError::UnknownCharity)
    );
}

#[test]
fn soft_delete_hides_donation_and_keeps_revision() {
    let mut st = store_with_donation();
    assert_eq!(st.list_donations(&s("u1"), None).len(), 1);
    assert!(st.soft_delete_donation(&s("u1"), &s("d1"), 1000));
    assert!(st.list_donations(&s("u1"), None).is_empty());
    let rev = st.revisions.last().unwrap();
    assert_eq!(rev.record_id, "d1");
    assert_eq!(rev.operation, Operation::Delete);
    match (&rev.old_values, &rev.new_values) {
        (Some(Snapshot::Donation(old)), Some(Snapshot::Donation(new))) => {
            assert!(!old.deleted);
            assert!(new.deleted);
            assert_eq!(new.updated_at, Some(1000));
        }
        _ => panic!("expected donation snapshots"),
    }
    let since = st.list_donations_since(&s("u1"), 999);
    assert_eq!(since.len(), 1);
    assert!(since[0].deleted);
    assert!(st.list_donations_since(&s("u1"), 1000).is_empty());
}

#[test]
fn soft_delete_of_foreign_donation_is_false() {
    let mut st = store_with_donation();
    let before = st.revisions.len();
    assert!(!st.soft_delete_donation(&s("u2"), &s("d1"), 1000));
    assert!(!st.soft_delete_donation(&s("u1"), &s("zzz"), 1000));
    assert_eq!(st.revisions.len(), before);
    assert!(st.user_owns_donation(&s("u1"), &s("d1")));
    assert!(!st.user_owns_donation(&s("u2"), &s("d1")));
}

#[test]
fn charity_names_differing_in_case_share_an_id() {
    let mut st = Store::new();
    let a = st.find_or_create_charity(&s("c-a"), &s("u1"), &s("Red Cross"), empty_details(), 1).unwrap();
    let b = st.find_or_create_charity(&s("c-b"), &s("u1"), &s("RED cross"), empty_details(), 2).unwrap();
    assert_eq!(a, b);
    assert_eq!(st.charities.len(), 1);
    let other = st.find_or_create_charity(&s("c-c"), &s("u2"), &s("red cross"), empty_details(), 3).unwrap();
    assert_eq!(other, "c-c");
    let revisions = st.revisions.len();
    let mut details = empty_details();
    details.city = Some(s("Boston"));
    details.category = Some(s("Health"));
    assert_eq!(st.create_charity(&s("c-d"), &s("u1"), &s("red CROSS"), details, 4), Ok(s("c-a")));
    assert_eq!(st.charities.len(), 2);
    assert_eq!(st.revisions.len(), revisions);
    assert_eq!(st.charities[0].details.city, None);
    assert_eq!(
        st.create_charity(&s("c-a"), &s("u9"), &s("Other"), empty_details(), 4),
        Err(StoreError::DuplicateId)
    );
}

#[test]
fn charity_found_by_tax_id() {
    let mut st = Store::new();
    let mut details = empty_details();
    details.ein = Some(s("123456789"));
    st.create_charity(&s("c1"), &s("u1"), &s("Food Bank"), details, 1).unwrap();
    let found = st.find_charity_by_name_or_ein(&s("u1"), &s("Other Name"), &Some(s("123456789")));
    assert_eq!(found.unwrap().id, "c1");
    assert!(st.find_charity_by_name_or_ein(&s("u1"), &s("Other Name"), &Some(s(""))).is_none());
    assert!(st.find_charity_by_name_or_ein(&s("u1"), &s("Other Name"), &None).is_none());
}

#[test]
fn update_charity_keeps_omitted_details() {
    let mut st = Store::new();
    let mut details = empty_details();
    details.ein = Some(s("123456789"));
    details.city = Some(s("Boston"));
    st.create_charity(&s("c1"), &s("u1"), &s("Alpha"), details, 1).unwrap();
    st.create_charity(&s("c2"), &s("u1"), &s("Beta"), empty_details(), 1).unwrap();
    let mut details = empty_details();
    details.city = Some(s("Springfield"));
    assert_eq!(st.update_charity(&s("c1"), &s("u1"), &s("Alpha Two"), details, None, 5), Ok(true));
    assert_eq!(st.charities[0].name, "Alpha Two");
    assert_eq!(st.charities[0].details.city.as_deref(), Some("Springfield"));
    assert_eq!(st.charities[0].details.ein.as_deref(), Some("123456789"));
    assert_eq!(st.charities[0].updated_at, Some(5));
    assert_eq!(
        st.update_charity(&s("c1"), &s("u1"), &s("BETA"), empty_details(), None, 6),
        Err(StoreError::DuplicateName)
    );
    assert_eq!(st.update_charity(&s("c1"), &s("u2"), &s("X"), empty_details(), None, 6), Ok(false));
    let revisions = st.revisions.len();
    assert_eq!(st.update_charity(&s("c1"), &s("u1"), &s("Stale"), empty_details(), Some(5), 7), Ok(false));
    assert_eq!(st.charities[0].name, "Alpha Two");
    assert_eq!(st.revisions.len(), revisions);
    assert_eq!(st.update_charity(&s("c1"), &s("u1"), &s("Fresh"), empty_details(), Some(6), 7), Ok(true));
    assert_eq!(st.charities[0].name, "Fresh");
}

#[test]
fn delete_charity_guarded_by_live_donations() {
    let mut st = store_with_donation();
    assert_eq!(st.count_donations_for_charity(&s("u1"), &s("c1")), 1);
    assert!(!st.delete_charity(&s("u1"), &s("c1"), 300));
    assert_eq!(st.charities.len(), 1);
    assert!(st.soft_delete_donation(&s("u1"), &s("d1"), 400));
    assert_eq!(st.count_donations_for_charity(&s("u1"), &s("c1")), 0);
    assert!(st.delete_charity(&s("u1"), &s("c1"), 500));
    assert!(st.charities.is_empty());
    let rev = st.revisions.last().unwrap();
    assert_eq!(rev.table, Table::Charities);
    assert_eq!(rev.operation, Operation::Delete);
    assert!(rev.new_values.is_none());
    assert!(!st.delete_charity(&s("u1"), &s("c1"), 600));
}

#[test]
fn add_errors() {
    let mut st = store_with_donation();
    let date = Date::from_ymd(2026, 3, 1).unwrap();
    assert_eq!(
        st.add_donation(&s("d1"), &s("u1"), date, &None, &s("c1"), None, &None, 1),
        Err(StoreError::DuplicateId)
    );
    assert_eq!(
        st.add_donation(&s("d2"), &s("u1"), date, &None, &s("nope"), None, &None, 1),
        Err(StoreError::UnknownCharity)
    );
    assert_eq!(
        st.add_donation(&s("d2"), &s("u2"), date, &None, &s("c1"), None, &None, 1),
        Err(StoreError::UnknownCharity)
    );
    assert_eq!(
        st.add_receipt(&s("r1"), &s("u1"), &s("nope"), &s("k"), &None, &None, None, 1),
        Err(StoreError::UnknownDonation)
    );
    assert_eq!(
        st.add_receipt(&s("r1"), &s("u2"), &s("d1"), &s("k"), &None, &None, None, 1),
        Err(StoreError::UnknownDonation)
    );
    st.add_receipt(&s("r1"), &s("u1"), &s("d1"), &s("k"), &None, &None, None, 1).unwrap();
    assert_eq!(
        st.add_receipt(&s("r1"), &s("u1"), &s("d1"), &s("k"), &None, &None, None, 1),
        Err(StoreError::DuplicateId)
    );
}

#[test]
fn every_mutation_writes_one_revision_with_fresh_id() {
    let st = store_with_donation();
    assert_eq!(st.revisions.len(), 2);
    assert_eq!(st.revisions[0].table, Table::Charities);
    assert_eq!(st.revisions[1].table, Table::Donations);
    assert_eq!(st.revisions[1].operation, Operation::Create);
    assert!(st.revisions[1].old_values.is_none());
    assert_eq!(st.revisions[0].id.len(), 36);
    assert_ne!(st.revisions[0].id, st.revisions[1].id);
    assert_eq!(Table::Receipts.name(), "receipts");
    assert_eq!(Operation::Delete.name(), "delete");
}

#[test]
fn audit_logs_newest_first_and_filtered() {
    let mut st = Store::new();
    st.log_audit(&s("a1"), &s("u1"), &s("first"), &s("donations"), &None, &None, 10);
    st.log_audit(&s("a2"), &s("u2"), &s("other"), &s("donations"), &None, &None, 20);
    st.log_audit(&s("a3"), &s("u1"), &s("second"), &s("donations"), &None, &None, 30);
    let all = st.list_audit_logs(&s("u1"), None);
    assert_eq!(all.len(), 2);
    assert_eq!(all[0].action, "second");
    assert_eq!(all[1].action, "first");
    let recent = st.list_audit_logs(&s("u1"), Some(10));
    assert_eq!(recent.len(), 1);
    assert_eq!(recent[0].id, "a3");
}

#[test]
fn audit_logs_ordered_by_time() {
    let mut st = Store::new();
    st.log_audit(&s("a1"), &s("u1"), &s("late"), &s("donations"), &None, &None, 50);
    st.log_audit(&s("a2"), &s("u1"), &s("early"), &s("donations"), &None, &None, 10);
    st.log_audit(&s("a3"), &s("u1"), &s("middle"), &s("donations"), &None, &None, 30);
    let all = st.list_audit_logs(&s("u1"), None);
    let ids: Vec<&str> = all.iter().map(|a| a.id.as_str()).collect();
    assert_eq!(ids, vec!["a1", "a3", "a2"]);
}

#[test]
fn since_listing_keeps_deletions_of_removed_charities() {
    let mut st = store_with_donation();
    assert!(st.soft_delete_donation(&s("u1"), &s("d1"), 300));
    assert!(st.delete_charity(&s("u1"), &s("c1"), 400));
    let pulled = st.list_donations_since(&s("u1"), 250);
    assert_eq!(pulled.len(), 1);
    assert!(pulled[0].deleted);
    assert_eq!(pulled[0].charity_name, None);
}

#[test]
fn dates_follow_the_calendar() {
    assert!(Date::from_ymd(2024, 2, 29).is_some());
    assert!(Date::from_ymd(2023, 2, 29).is_none());
    assert!(Date::from_ymd(2026, 13, 1).is_none());
    assert!(Date::from_ymd(2026, 4, 31).is_none());
    let d = Date::parse("2026-02-18").unwrap();
    assert_eq!((d.year, d.month, d.day), (2026, 2, 18));
    assert!(Date::parse("2026-02-30").is_none());
    assert!(Date::parse("not a date").is_none());
}

#[test]
fn charities_listed_per_user() {
    let mut st = Store::new();
    st.create_charity(&s("c1"), &s("u1"), &s("Alpha"), empty_details(), 1).unwrap();
    st.create_charity(&s("c2"), &s("u2"), &s("Beta"), empty_details(), 2).unwrap();
    st.create_charity(&s("c3"), &s("u1"), &s("Gamma"), empty_details(), 3).unwrap();
    let mine = st.list_charities(&s("u1"));
    assert_eq!(mine.len(), 2);
    assert_eq!(mine[0].id, "c1");
    assert_eq!(mine[1].id, "c3");
    assert!(st.list_charities(&s("u3")).is_empty());
}

#[test]
fn available_years_newest_first() {
    let mut st = store_with_donation();
    let d2025 = Date::from_ymd(2025, 6, 1).unwrap();
    let d2024 = Date::from_ymd(2024, 1, 2).unwrap();
    st.add_donation(&s("d2"), &s("u1"), d2024, &None, &s("c1"), None, &None, 1).unwrap();
    st.add_donation(&s("d3"), &s("u1"), d2025, &None, &s("c1"), None, &None, 1).unwrap();
    st.add_donation(&s("d4"), &s("u1"), d2025, &None, &s("c1"), None, &None, 1).unwrap();
    assert_eq!(st.list_available_years(&s("u1")), vec![2026, 2025, 2024]);
    assert!(st.soft_delete_donation(&s("u1"), &s("d2"), 5));
    assert_eq!(st.list_available_years(&s("u1")), vec![2026, 2025]);
    assert!(st.list_available_years(&s("u2")).is_empty());
}

#[test]
fn well_formedness_rejects_bad_rows() {
    let st = store_with_donation();
    assert!(st.is_well_formed());

    let mut orphan = store_with_donation();
    orphan.charities.clear();
    assert!(!orphan.is_well_formed());
    orphan.donations[0].deleted = true;
    assert!(orphan.is_well_formed());

    let mut foreign = store_with_donation();
    foreign.charities[0].user_id = s("u2");
    assert!(!foreign.is_well_formed());

    let mut bad_date = store_with_donation();
    bad_date.donations[0].date = Date { year: 2026, month: 13, day: 1 };
    bad_date.donations[0].year = 2026;
    assert!(!bad_date.is_well_formed());

    let mut loose_receipt = store_with_donation();
    loose_receipt.add_receipt(&s("r1"), &s("u1"), &s("d1"), &s("k"), &None, &None, None, 1).unwrap();
    loose_receipt.receipts[0].donation_id = s("gone");
    assert!(!loose_receipt.is_well_formed());

    let mut bad_ocr = store_with_donation();
    bad_ocr.add_receipt(&s("r1"), &s("u1"), &s("d1"), &s("k"), &None, &None, None, 1).unwrap();
    bad_ocr.receipts[0].ocr_date = Some(Date { year: 2023, month: 2, day: 29 });
    assert!(!bad_ocr.is_well_formed());
}
