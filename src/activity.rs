//! The user-facing audit log and user profiles.

use crate::outside::new_record_id;
use crate::records::{AuditLog, Operation, Snapshot, Table, Timestamp, UserProfile};
use crate::store::{
    Store, copy_opt, copy_user, lemma_user_index, one_revision_added, revision_of, user_ids_unique,
    user_index,
};
use vstd::prelude::*;

verus! {

/// The user's audit entries after a time (or all), in recorded order.
pub open spec fn audit_listing(ls: Seq<AuditLog>, user: Seq<char>, since: Option<Timestamp>) -> Seq<AuditLog>
    decreases ls.len(),
{
    if ls.len() == 0 {
        Seq::empty()
    } else {
        let rest = audit_listing(ls.drop_last(), user, since);
        let l = ls.last();
        let wanted = l.user_id@ == user && match since {
            Some(t) => t < l.created_at,
            None => true,
        };
        if wanted {
            rest.push(l)
        } else {
            rest
        }
    }
}

/// The profiles after an upsert: the profile with the same id is replaced,
/// or the profile is added.
pub open spec fn upserted(us: Seq<UserProfile>, p: UserProfile) -> Seq<UserProfile> {
    let i = user_index(us, p.id@);
    if i >= 0 {
        us.update(i, p)
    } else {
        us.push(p)
    }
}

/// Upserting keeps profile ids unique, and upserting the same profile again
/// changes nothing.
pub proof fn lemma_upsert_idempotent(us: Seq<UserProfile>, p: UserProfile)
    requires
        user_ids_unique(us),
    ensures
        user_ids_unique(upserted(us, p)),
        upserted(upserted(us, p), p) == upserted(us, p),
{
    let once = upserted(us, p);
    let i = user_index(us, p.id@);
    if i >= 0 {
        assert forall|a: int, b: int|
            0 <= a < once.len() && 0 <= b < once.len() && a != b implies #[trigger] once[a].id@
            != #[trigger] once[b].id@ by {
            assert(us[a].id@ != us[b].id@);
        }
        lemma_user_index(once, p.id@, i);
        assert(once.update(i, p) =~= once);
    } else {
        assert forall|a: int, b: int|
            0 <= a < once.len() && 0 <= b < once.len() && a != b implies #[trigger] once[a].id@
            != #[trigger] once[b].id@ by {
            if a < us.len() && b < us.len() {
                assert(us[a] == once[a] && us[b] == once[b]);
            } else if a < us.len() {
                assert(us[a] == once[a]);
            } else {
                assert(us[b] == once[b]);
            }
        }
        lemma_user_index(once, p.id@, us.len() as int);
        assert(once.update(us.len() as int, p) =~= once);
    }
}

impl Store {
    /// Appends an entry to the user-facing activity log.
    pub fn log_audit(
        &mut self,
        id: &String,
        user_id: &String,
        action: &String,
        table_name: &String,
        record_id: &Option<String>,
        details: &Option<String>,
        now: Timestamp,
    )
        requires
            old(self).wf(),
        ensures
            final(self).wf(),
            final(self).audit_logs@ == old(self).audit_logs@.push(
                AuditLog {
                    id: *id,
                    user_id: *user_id,
                    action: *action,
                    table_name: *table_name,
                    record_id: *record_id,
                    details: *details,
                    created_at: now,
                },
            ),
            final(self).donations == old(self).donations,
            final(self).charities == old(self).charities,
            final(self).receipts == old(self).receipts,
            final(self).revisions == old(self).revisions,
            final(self).users == old(self).users,
    {
        self.audit_logs.push(
            AuditLog {
                id: id.clone(),
                user_id: user_id.clone(),
                action: action.clone(),
                table_name: table_name.clone(),
                record_id: copy_opt(record_id),
                details: copy_opt(details),
                created_at: now,
            },
        );
    }

    /// The user's audit entries recorded after `since` (or all), ordered by
    /// their time, newest first.
    pub fn list_audit_logs(&self, user_id: &String, since: Option<Timestamp>) -> (r: Vec<AuditLog>)
        ensures
            r@.len() == audit_listing(self.audit_logs@, user_id@, since).len(),
            forall|x: AuditLog| r@.contains(x) <==> audit_listing(self.audit_logs@, user_id@, since).contains(x),
            forall|a: int, b: int| 0 <= a < b < r@.len() ==> r@[a].created_at >= r@[b].created_at,
    {
        let ghost ls = self.audit_logs@;
        let mut out: Vec<AuditLog> = Vec::new();
        let mut i: usize = 0;
        while i < self.audit_logs.len()
            invariant
                i <= ls.len(),
                ls == self.audit_logs@,
                out@.len() == audit_listing(ls.subrange(0, i as int), user_id@, since).len(),
                forall|x: AuditLog| out@.contains(x) <==> audit_listing(ls.subrange(0, i as int), user_id@, since).contains(x),
                forall|a: int, b: int| 0 <= a < b < out@.len() ==> out@[a].created_at >= out@[b].created_at,
            decreases ls.len() - i,
        {
            let l = &self.audit_logs[i];
            let ghost sel = audit_listing(ls.subrange(0, i as int), user_id@, since);
            proof {
                assert(ls.subrange(0, i + 1).drop_last() =~= ls.subrange(0, i as int));
                assert(ls.subrange(0, i + 1).last() == ls[i as int]);
            }
            let wanted = l.user_id == *user_id && match since {
                Some(t) => t < l.created_at,
                None => true,
            };
            if wanted {
                let e = AuditLog {
                    id: l.id.clone(),
                    user_id: l.user_id.clone(),
                    action: l.action.clone(),
                    table_name: l.table_name.clone(),
                    record_id: copy_opt(&l.record_id),
                    details: copy_opt(&l.details),
                    created_at: l.created_at,
                };
                let t = l.created_at;
                let mut p: usize = 0;
                while p < out.len() && out[p].created_at >= t
                    invariant
                        p <= out@.len(),
                        forall|a: int| 0 <= a < p ==> out@[a].created_at >= t,
                        out@.len() == sel.len(),
                        forall|x: AuditLog| out@.contains(x) <==> sel.contains(x),
                        forall|a: int, b: int| 0 <= a < b < out@.len() ==> out@[a].created_at >= out@[b].created_at,
                    decreases out@.len() - p,
                {
                    p = p + 1;
                }
                let ghost before = out@;
                out.insert(p, e);
                proof {
                    let nsel = sel.push(ls[i as int]);
                    assert(audit_listing(ls.subrange(0, i + 1), user_id@, since) == nsel);
                    assert forall|a: int, b: int| 0 <= a < b < out@.len() implies out@[a].created_at
                        >= out@[b].created_at by {
                        if b < p {
                        } else if b == p {
                        } else if a < p {
                            assert(out@[b] == before[b - 1]);
                            if p < before.len() {
                                assert(before[p as int].created_at < t);
                            }
                        } else if a == p {
                            assert(out@[b] == before[b - 1]);
                            assert(before[p as int].created_at < t);
                            if b - 1 > p {
                                assert(before[p as int].created_at >= before[b - 1].created_at);
                            }
                        } else {
                            assert(out@[a] == before[a - 1] && out@[b] == before[b - 1]);
                        }
                    }
                    assert forall|x: AuditLog| out@.contains(x) <==> nsel.contains(x) by {
                        if out@.contains(x) {
                            let a = choose|a: int| 0 <= a < out@.len() && out@[a] == x;
                            if a < p {
                                assert(before[a] == x);
                                assert(before.contains(x));
                                assert(sel.contains(x));
                                let c = choose|c: int| 0 <= c < sel.len() && sel[c] == x;
                                assert(nsel[c] == x);
                            } else if a > p {
                                assert(before[a - 1] == x);
                                assert(before.contains(x));
                                assert(sel.contains(x));
                                let c = choose|c: int| 0 <= c < sel.len() && sel[c] == x;
                                assert(nsel[c] == x);
                            } else {
                                assert(nsel[sel.len() as int] == x);
                            }
                        }
                        if nsel.contains(x) {
                            let c = choose|c: int| 0 <= c < nsel.len() && nsel[c] == x;
                            if c < sel.len() {
                                assert(sel[c] == x);
                                assert(before.contains(x));
                                let a = choose|a: int| 0 <= a < before.len() && before[a] == x;
                                if a < p {
                                    assert(out@[a] == x);
                                } else {
                                    assert(out@[a + 1] == x);
                                }
                            } else {
                                assert(out@[p as int] == x);
                            }
                        }
                    }
                }
            }
            i = i + 1;
        }
        proof {
            assert(ls.subrange(0, ls.len() as int) =~= ls);
        }
        out
    }

    /// The user's profile, if there is one.
    pub fn get_user_profile(&self, user_id: &String) -> (r: Option<UserProfile>)
        requires
            self.wf(),
        ensures
            ({
                let i = user_index(self.users@, user_id@);
                if i >= 0 {
                    r == Some(self.users@[i])
                } else {
                    r is None
                }
            }),
    {
        match self.find_user(user_id) {
            Some(i) => Some(copy_user(&self.users[i])),
            None => None,
        }
    }

    /// Stores the profile, replacing the one with the same id if there is one,
    /// and writes one revision: a creation, or an update holding the replaced
    /// profile.
    pub fn upsert_user_profile(&mut self, profile: UserProfile, now: Timestamp)
        requires
            old(self).wf(),
        ensures
            final(self).wf(),
            final(self).users@ == upserted(old(self).users@, profile),
            final(self).donations == old(self).donations,
            final(self).charities == old(self).charities,
            final(self).receipts == old(self).receipts,
            final(self).audit_logs == old(self).audit_logs,
            one_revision_added(old(self).revisions@, final(self).revisions@),
            ({
                let i = user_index(old(self).users@, profile.id@);
                revision_of(
                    final(self).revisions@.last(),
                    Some(profile.id),
                    Table::Users,
                    profile.id,
                    if i >= 0 { Operation::Update } else { Operation::Create },
                    if i >= 0 { Some(Snapshot::User(old(self).users@[i])) } else { None },
                    Some(Snapshot::User(profile)),
                    now,
                )
            }),
    {
        proof {
            lemma_upsert_idempotent(self.users@, profile);
        }
        let id = profile.id.clone();
        let snapshot = copy_user(&profile);
        let (operation, old_values) = match self.find_user(&profile.id) {
            Some(i) => {
                let replaced = copy_user(&self.users[i]);
                self.users.set(i, profile);
                (Operation::Update, Some(Snapshot::User(replaced)))
            },
            None => {
                self.users.push(profile);
                (Operation::Create, None)
            },
        };
        let rid = new_record_id();
        self.log_revision(
            rid,
            Some(id.clone()),
            Table::Users,
            id,
            operation,
            old_values,
            Some(Snapshot::User(snapshot)),
            now,
        );
    }
}

} // verus!
