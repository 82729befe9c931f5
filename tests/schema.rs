use donation_ledger::records::{Operation, Snapshot, Table, UserProfile};
use donation_ledger::schema::{
    needs_receipts_rebuild, plan_schema, required_schema, ObjectKind, SchemaObject,
};
use donation_ledger::store::Store;

fn obj(kind: ObjectKind, table: &str, name: &str) -> SchemaObject {
    SchemaObject { kind, table: table.to_string(), name: name.to_string() }
}

#[test]
fn fresh_catalog_gets_everything_once() {
    let required = required_schema();
    let plan = plan_schema(&required, &Vec::new());
    assert_eq!(plan.len(), required.len());
    assert_eq!(plan[0].kind, ObjectKind::Table);
    assert_eq!(plan[0].name, "users");
    assert_eq!(required.len(), 72);
    assert!(required.iter().any(|o| o.kind == ObjectKind::Index && o.name == "idx_charities_user_name"));
    assert!(required.iter().any(|o| o.kind == ObjectKind::Column && o.table == "donations" && o.name == "deleted"));
}

#[test]
fn legacy_receipt_owner_column_detected() {
    let cols = |names: &[&str]| names.iter().map(|n| n.to_string()).collect::<Vec<String>>();
    assert!(needs_receipts_rebuild(&cols(&["id", "User_ID", "key"])));
    assert!(!needs_receipts_rebuild(&cols(&["id", "donation_id", "key"])));
    assert!(!needs_receipts_rebuild(&cols(&["user_ids"])));
    assert!(!needs_receipts_rebuild(&Vec::new()));
}

#[test]
fn rerun_on_migrated_catalog_plans_nothing() {
    let required = required_schema();
    let mut catalog = vec![obj(ObjectKind::Table, "users", "users"), obj(ObjectKind::Column, "users", "email")];
    let first = plan_schema(&required, &catalog);
    assert_eq!(first.len(), required.len() - 2);
    catalog.extend(first);
    assert!(plan_schema(&required, &catalog).is_empty());
}

#[test]
fn duplicate_requirements_planned_once() {
    let required = vec![
        obj(ObjectKind::Column, "receipts", "ocr_text"),
        obj(ObjectKind::Column, "receipts", "ocr_text"),
        obj(ObjectKind::Index, "receipts", "ocr_text"),
    ];
    let plan = plan_schema(&required, &Vec::new());
    assert_eq!(plan.len(), 2);
    assert_eq!(plan[1].kind, ObjectKind::Index);
}

fn profile(id: &str, email: &str) -> UserProfile {
    UserProfile {
        id: id.to_string(),
        email: email.to_string(),
        name: "Developer".to_string(),
        provider: "local".to_string(),
        phone: None,
        tax_id: None,
        filing_status: Some("single".to_string()),
        agi_cents: Some(8_500_000),
        marginal_tax_rate_bps: Some(2200),
        itemize_deductions: Some(true),
    }
}

#[test]
fn profile_upsert_is_idempotent() {
    let mut st = Store::new();
    assert!(st.get_user_profile(&"dev-1".to_string()).is_none());
    st.upsert_user_profile(profile("dev-1", "dev@local"), 1);
    st.upsert_user_profile(profile("dev-1", "dev@local"), 2);
    assert_eq!(st.users.len(), 1);
    st.upsert_user_profile(profile("dev-1", "new@local"), 3);
    assert_eq!(st.users.len(), 1);
    let p = st.get_user_profile(&"dev-1".to_string()).unwrap();
    assert_eq!(p.email, "new@local");
    assert_eq!(p.marginal_tax_rate_bps, Some(2200));
    st.upsert_user_profile(profile("user-123", "test@example.com"), 4);
    assert_eq!(st.users.len(), 2);
    assert_eq!(st.revisions.len(), 4);
    assert_eq!(st.revisions[0].table, Table::Users);
    assert_eq!(st.revisions[0].operation, Operation::Create);
    assert!(st.revisions[0].old_values.is_none());
    assert_eq!(st.revisions[2].operation, Operation::Update);
    match &st.revisions[2].old_values {
        Some(Snapshot::User(old)) => assert_eq!(old.email, "dev@local"),
        _ => panic!("expected the replaced profile"),
    }
}
