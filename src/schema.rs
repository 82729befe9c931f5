//! Schema bootstrap: which tables, columns and indexes the store needs, and
//! which of them a backend still lacks.

use vstd::prelude::*;

verus! {

#[derive(Clone, Copy, Debug, PartialEq, Eq, Structural)]
pub enum ObjectKind {
    Table,
    Column,
    Index,
}

/// A table, a column of a table, or an index on a table.
#[derive(Clone, Debug)]
pub struct SchemaObject {
    pub kind: ObjectKind,
    pub table: String,
    pub name: String,
}

pub open spec fn same_object(a: SchemaObject, b: SchemaObject) -> bool {
    a.kind == b.kind && a.table@ == b.table@ && a.name@ == b.name@
}

/// The catalog holds the object.
pub open spec fn present(catalog: Seq<SchemaObject>, o: SchemaObject) -> bool {
    exists|i: int| 0 <= i < catalog.len() && same_object(#[trigger] catalog[i], o)
}

/// No object occurs twice in the catalog.
pub open spec fn no_duplicates(catalog: Seq<SchemaObject>) -> bool {
    forall|i: int, j: int|
        0 <= i < catalog.len() && 0 <= j < catalog.len() && i != j ==> !same_object(
            #[trigger] catalog[i],
            #[trigger] catalog[j],
        )
}

/// The objects to create, in the order they are required: each required
/// object that neither the catalog nor an earlier step already holds.
pub open spec fn missing_objects(required: Seq<SchemaObject>, existing: Seq<SchemaObject>) -> Seq<
    SchemaObject,
>
    decreases required.len(),
{
    if required.len() == 0 {
        Seq::empty()
    } else {
        let earlier = missing_objects(required.drop_last(), existing);
        if present(existing + earlier, required.last()) {
            earlier
        } else {
            earlier.push(required.last())
        }
    }
}

/// After the planned steps run, the catalog holds every required object.
pub proof fn lemma_plan_covers(required: Seq<SchemaObject>, existing: Seq<SchemaObject>)
    ensures
        forall|k: int|
            0 <= k < required.len() ==> present(
                existing + missing_objects(required, existing),
                #[trigger] required[k],
            ),
    decreases required.len(),
{
    if required.len() > 0 {
        let rest = required.drop_last();
        lemma_plan_covers(rest, existing);
        let before = existing + missing_objects(rest, existing);
        let after = existing + missing_objects(required, existing);
        assert forall|k: int| 0 <= k < required.len() implies present(after, #[trigger] required[k]) by {
            if k < rest.len() {
                assert(rest[k] == required[k]);
                let i = choose|i: int| 0 <= i < before.len() && same_object(before[i], rest[k]);
                assert(after[i] == before[i]);
            } else if !present(before, required.last()) {
                assert(same_object(after[after.len() - 1], required[k]));
            } else {
                assert(after == before);
            }
        }
    }
}

/// Against a catalog that already holds every required object, nothing is
/// planned.
pub proof fn lemma_plan_empty_when_complete(required: Seq<SchemaObject>, existing: Seq<SchemaObject>)
    requires
        forall|k: int| 0 <= k < required.len() ==> present(existing, #[trigger] required[k]),
    ensures
        missing_objects(required, existing).len() == 0,
    decreases required.len(),
{
    if required.len() > 0 {
        let rest = required.drop_last();
        assert forall|k: int| 0 <= k < rest.len() implies present(existing, #[trigger] rest[k]) by {
            assert(rest[k] == required[k]);
        }
        lemma_plan_empty_when_complete(rest, existing);
        assert(existing + missing_objects(rest, existing) =~= existing);
        assert(present(existing, required[required.len() - 1]));
    }
}

/// The planned steps never create an object twice, nor one the catalog holds.
pub proof fn lemma_plan_adds_no_duplicates(required: Seq<SchemaObject>, existing: Seq<SchemaObject>)
    requires
        no_duplicates(existing),
    ensures
        no_duplicates(existing + missing_objects(required, existing)),
    decreases required.len(),
{
    if required.len() > 0 {
        let rest = required.drop_last();
        lemma_plan_adds_no_duplicates(rest, existing);
        let before = existing + missing_objects(rest, existing);
        let after = existing + missing_objects(required, existing);
        if !present(before, required.last()) {
            assert(after =~= before.push(required.last()));
            assert forall|i: int, j: int|
                0 <= i < after.len() && 0 <= j < after.len() && i != j implies !same_object(
                #[trigger] after[i],
                #[trigger] after[j],
            ) by {
                if i < before.len() && j < before.len() {
                    assert(after[i] == before[i] && after[j] == before[j]);
                } else if i < before.len() {
                    assert(after[i] == before[i]);
                    if same_object(after[i], after[j]) {
                        assert(same_object(before[i], required.last()));
                    }
                } else {
                    assert(after[j] == before[j]);
                    if same_object(after[i], after[j]) {
                        assert(same_object(before[j], required.last()));
                    }
                }
            }
        }
    }
}

/// Running the bootstrap on a catalog it has already brought up to date plans
/// nothing, and the catalog it leaves holds no object twice.
pub proof fn lemma_bootstrap_idempotent(required: Seq<SchemaObject>, existing: Seq<SchemaObject>)
    requires
        no_duplicates(existing),
    ensures
        missing_objects(required, existing + missing_objects(required, existing)).len() == 0,
        no_duplicates(existing + missing_objects(required, existing)),
{
    lemma_plan_covers(required, existing);
    lemma_plan_empty_when_complete(required, existing + missing_objects(required, existing));
    lemma_plan_adds_no_duplicates(required, existing);
}

fn same(a: &SchemaObject, b: &SchemaObject) -> (r: bool)
    ensures
        r == same_object(*a, *b),
{
    a.kind == b.kind && a.table == b.table && a.name == b.name
}

fn holds(catalog: &Vec<SchemaObject>, o: &SchemaObject) -> (r: bool)
    ensures
        r == present(catalog@, *o),
{
    let mut i: usize = 0;
    while i < catalog.len()
        invariant
            i <= catalog@.len(),
            forall|k: int| 0 <= k < i ==> !same_object(#[trigger] catalog@[k], *o),
        decreases catalog@.len() - i,
    {
        if same(&catalog[i], o) {
            return true;
        }
        i = i + 1;
    }
    false
}

fn copy_object(o: &SchemaObject) -> (r: SchemaObject)
    ensures
        r == *o,
{
    SchemaObject { kind: o.kind, table: o.table.clone(), name: o.name.clone() }
}

/// The objects that the catalog lacks, in the order they must be created.
/// Creating them and planning again yields nothing (see
/// `lemma_bootstrap_idempotent`).
pub fn plan_schema(required: &Vec<SchemaObject>, existing: &Vec<SchemaObject>) -> (r: Vec<SchemaObject>)
    ensures
        r@ == missing_objects(required@, existing@),
{
    let mut out: Vec<SchemaObject> = Vec::new();
    let mut i: usize = 0;
    while i < required.len()
        invariant
            i <= required@.len(),
            out@ == missing_objects(required@.subrange(0, i as int), existing@),
        decreases required@.len() - i,
    {
        let o = &required[i];
        proof {
            assert(required@.subrange(0, i + 1).drop_last() =~= required@.subrange(0, i as int));
            assert(required@.subrange(0, i + 1).last() == required@[i as int]);
        }
        let known = holds(existing, o) || holds(&out, o);
        proof {
            let both = existing@ + out@;
            if present(both, *o) {
                let j = choose|j: int| 0 <= j < both.len() && same_object(both[j], *o);
                if j < existing@.len() {
                    assert(both[j] == existing@[j]);
                } else {
                    assert(both[j] == out@[j - existing@.len()]);
                }
            }
            if present(existing@, *o) {
                let j = choose|j: int| 0 <= j < existing@.len() && same_object(existing@[j], *o);
                assert(both[j] == existing@[j]);
            }
            if present(out@, *o) {
                let j = choose|j: int| 0 <= j < out@.len() && same_object(out@[j], *o);
                assert(both[existing@.len() + j] == out@[j]);
            }
        }
        if !known {
            out.push(copy_object(o));
        }
        i = i + 1;
    }
    proof {
        assert(required@.subrange(0, required@.len() as int) =~= required@);
    }
    out
}

/// What identifies an object: its kind, its table and its name.
pub open spec fn object_view(o: SchemaObject) -> (ObjectKind, Seq<char>, Seq<char>) {
    (o.kind, o.table@, o.name@)
}

pub open spec fn objects_view(objects: Seq<SchemaObject>) -> Seq<(ObjectKind, Seq<char>, Seq<char>)> {
    objects.map_values(|o: SchemaObject| object_view(o))
}

/// A table followed by each of its columns.
pub open spec fn table_objects(table: Seq<char>, columns: Seq<&str>) -> Seq<
    (ObjectKind, Seq<char>, Seq<char>),
> {
    seq![(ObjectKind::Table, table, table)] + columns.map_values(
        |c: &str| (ObjectKind::Column, table, c@),
    )
}

pub open spec fn index_object(table: Seq<char>, name: Seq<char>) -> (ObjectKind, Seq<char>, Seq<char>) {
    (ObjectKind::Index, table, name)
}

/// Every table of the store with its columns, then the indexes: unique
/// (user, lowercase name) on charities; (user, year) and (user, update and
/// creation time) on donations; (donation, key) on receipts; (table, record,
/// time) on revisions.
pub open spec fn required_objects() -> Seq<(ObjectKind, Seq<char>, Seq<char>)> {
    table_objects(
        "users"@,
        seq![
            "email",
            "name",
            "provider",
            "phone",
            "tax_id",
            "filing_status",
            "agi",
            "marginal_tax_rate",
            "itemize_deductions",
            "created_at",
            "updated_at",
        ],
    ) + table_objects(
        "charities"@,
        seq![
            "user_id",
            "name",
            "ein",
            "category",
            "status",
            "classification",
            "nonprofit_type",
            "deductibility",
            "street",
            "city",
            "state",
            "zip",
            "created_at",
            "updated_at",
        ],
    ) + table_objects(
        "donations"@,
        seq![
            "user_id",
            "donation_year",
            "donation_date",
            "donation_category",
            "donation_amount",
            "charity_id",
            "notes",
            "created_at",
            "updated_at",
            "deleted",
        ],
    ) + table_objects(
        "receipts"@,
        seq![
            "donation_id",
            "key",
            "file_name",
            "content_type",
            "size",
            "ocr_text",
            "ocr_date",
            "ocr_amount",
            "ocr_status",
            "created_at",
            "updated_at",
        ],
    ) + table_objects(
        "audit_logs"@,
        seq!["user_id", "action", "table_name", "record_id", "details", "created_at", "updated_at"],
    ) + table_objects(
        "audit_revisions"@,
        seq![
            "user_id",
            "table_name",
            "record_id",
            "operation",
            "old_values",
            "new_values",
            "created_at",
            "updated_at",
        ],
    ) + seq![
        index_object("charities"@, "idx_charities_user_name"@),
        index_object("donations"@, "idx_donations_user_year"@),
        index_object("donations"@, "idx_donations_user_updated_created"@),
        index_object("receipts"@, "idx_receipts_donation_key"@),
        index_object("audit_revisions"@, "idx_audit_revisions_table_record"@),
    ]
}

fn push_table(out: &mut Vec<SchemaObject>, table: &str, columns: &[&str])
    ensures
        objects_view(final(out)@) == objects_view(old(out)@) + table_objects(table@, columns@),
{
    let ghost start = objects_view(out@);
    out.push(SchemaObject { kind: ObjectKind::Table, table: String::from_str(table), name: String::from_str(table) });
    assert(objects_view(out@) =~= start + seq![(ObjectKind::Table, table@, table@)]);
    let mut i: usize = 0;
    while i < columns.len()
        invariant
            i <= columns@.len(),
            objects_view(out@) == start + table_objects(table@, columns@.subrange(0, i as int)),
        decreases columns@.len() - i,
    {
        let ghost before = objects_view(out@);
        out.push(
            SchemaObject {
                kind: ObjectKind::Column,
                table: String::from_str(table),
                name: String::from_str(columns[i]),
            },
        );
        assert(objects_view(out@) =~= before.push((ObjectKind::Column, table@, columns@[i as int]@)));
        assert(table_objects(table@, columns@.subrange(0, i + 1)) =~= table_objects(
            table@,
            columns@.subrange(0, i as int),
        ).push((ObjectKind::Column, table@, columns@[i as int]@)));
        i = i + 1;
    }
    assert(columns@.subrange(0, columns@.len() as int) =~= columns@);
}

fn push_index(out: &mut Vec<SchemaObject>, table: &str, name: &str)
    ensures
        objects_view(final(out)@) == objects_view(old(out)@).push(index_object(table@, name@)),
{
    let ghost start = objects_view(out@);
    out.push(SchemaObject { kind: ObjectKind::Index, table: String::from_str(table), name: String::from_str(name) });
    assert(objects_view(out@) =~= start.push(index_object(table@, name@)));
}

/// Every table, column and index the store needs, each table before its
/// columns and the indexes last.
pub fn required_schema() -> (r: Vec<SchemaObject>)
    ensures
        objects_view(r@) == required_objects(),
{
    let mut out: Vec<SchemaObject> = Vec::new();
    assert(objects_view(out@) =~= Seq::empty());
    push_table(
        &mut out,
        "users",
        &["email", "name", "provider", "phone", "tax_id", "filing_status", "agi", "marginal_tax_rate", "itemize_deductions", "created_at", "updated_at"],
    );
    push_table(
        &mut out,
        "charities",
        &["user_id", "name", "ein", "category", "status", "classification", "nonprofit_type", "deductibility", "street", "city", "state", "zip", "created_at", "updated_at"],
    );
    push_table(
        &mut out,
        "donations",
        &["user_id", "donation_year", "donation_date", "donation_category", "donation_amount", "charity_id", "notes", "created_at", "updated_at", "deleted"],
    );
    push_table(
        &mut out,
        "receipts",
        &["donation_id", "key", "file_name", "content_type", "size", "ocr_text", "ocr_date", "ocr_amount", "ocr_status", "created_at", "updated_at"],
    );
    push_table(
        &mut out,
        "audit_logs",
        &["user_id", "action", "table_name", "record_id", "details", "created_at", "updated_at"],
    );
    push_table(
        &mut out,
        "audit_revisions",
        &["user_id", "table_name", "record_id", "operation", "old_values", "new_values", "created_at", "updated_at"],
    );
    push_index(&mut out, "charities", "idx_charities_user_name");
    push_index(&mut out, "donations", "idx_donations_user_year");
    push_index(&mut out, "donations", "idx_donations_user_updated_created");
    push_index(&mut out, "receipts", "idx_receipts_donation_key");
    push_index(&mut out, "audit_revisions", "idx_audit_revisions_table_record");
    assert(objects_view(out@) =~= required_objects());
    out
}

/// A character in ASCII lower case.
pub open spec fn ascii_lower(c: char) -> char {
    if 'A' <= c && c <= 'Z' {
        ((c as u8) + 32) as char
    } else {
        c
    }
}

/// A column name that equals `user_id` up to ASCII case: the owner column
/// that receipts carried before ownership went through their donation.
pub open spec fn is_legacy_owner_column(name: Seq<char>) -> bool {
    name.len() == 7 && forall|k: int| 0 <= k < 7 ==> ascii_lower(#[trigger] name[k]) == "user_id"@[k]
}

fn legacy_owner_column(name: &str) -> (r: bool)
    ensures
        r == is_legacy_owner_column(name@),
{
    let wanted = "user_id";
    proof {
        reveal_strlit("user_id");
    }
    if name.unicode_len() != 7 {
        return false;
    }
    let mut k: usize = 0;
    while k < 7
        invariant
            k <= 7,
            name@.len() == 7,
            wanted@ == "user_id"@,
            wanted@.len() == 7,
            forall|x: int| 0 <= x < k ==> ascii_lower(#[trigger] name@[x]) == "user_id"@[x],
        decreases 7 - k,
    {
        let c = name.get_char(k);
        let lower = if 'A' <= c && c <= 'Z' {
            ((c as u8) + 32) as char
        } else {
            c
        };
        if lower != wanted.get_char(k) {
            return false;
        }
        k = k + 1;
    }
    true
}

/// Whether the receipts table still has its legacy owner column and must be
/// rebuilt without it, given the names of its columns.
pub fn needs_receipts_rebuild(receipt_columns: &Vec<String>) -> (r: bool)
    ensures
        r == exists|i: int| 0 <= i < receipt_columns@.len() && is_legacy_owner_column(#[trigger] receipt_columns@[i]@),
{
    let mut i: usize = 0;
    while i < receipt_columns.len()
        invariant
            i <= receipt_columns@.len(),
            forall|x: int| 0 <= x < i ==> !is_legacy_owner_column(#[trigger] receipt_columns@[x]@),
        decreases receipt_columns@.len() - i,
    {
        if legacy_owner_column(receipt_columns[i].as_str()) {
            return true;
        }
        i = i + 1;
    }
    false
}

} // verus!
