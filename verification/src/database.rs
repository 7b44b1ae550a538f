//! The persistence port: per-community configuration, protected users,
//! report rows and view pointers, with the dedup-aware write and the
//! partial-patch update.
//!
//! The store is modeled in memory.  Its contract is what the lifecycle
//! engine needs from storage; the dedup check-and-insert is the one
//! operation that must be atomic, and here it is a single call.

use vstd::prelude::*;

use crate::models::ModViewModel;
use crate::models::MakeReportEffect;
use crate::models::ReportModel;
use crate::models::ReportStatus;
use crate::models::ReportView;
use crate::models::UserViewModel;

verus! {

/// Error of a targeted report update.
#[derive(Clone, Copy, Debug, PartialEq, Eq, Structural)]
pub enum ReportUpdateError {
    /// No report row has the given id.
    ReportNotFound,
}

/// The mathematical value of an `Option<String>`.
pub open spec fn opt_str_view(o: Option<String>) -> Option<Seq<char>> {
    match o {
        Some(s) => Some(s@),
        None => None,
    }
}

/// Mathematical state of the store.
#[verifier::ext_equal]
pub struct DbView {
    /// Communities with a stored configuration.
    pub configured: Seq<u64>,
    /// `(community, user)` pairs marked protected.
    pub protected: Seq<(u64, u64)>,
    /// Report rows, in creation order.
    pub reports: Seq<ReportView>,
    /// Reporter-facing view pointers, at most one per report.
    pub user_views: Seq<UserViewModel>,
    /// Moderator-facing view pointers, at most one per report.
    pub mod_views: Seq<ModViewModel>,
    /// The id the next created report will get.
    pub next_id: u64,
}

impl DbView {
    pub open spec fn is_configured(self, guild_id: u64) -> bool {
        self.configured.contains(guild_id)
    }

    pub open spec fn is_protected(self, guild_id: u64, user_id: u64) -> bool {
        self.protected.contains((guild_id, user_id))
    }

    /// Whether `r` is the report a submission against
    /// `(guild, accused, message)` deduplicates to.
    pub open spec fn matches_dedup_key(
        r: ReportView,
        guild_id: u64,
        reported_user_id: u64,
        message_id: u64,
    ) -> bool {
        &&& r.guild_id == guild_id
        &&& r.reported_user_id == reported_user_id
        &&& r.message_id == Some(message_id)
    }

    /// Whether two rows share a dedup key (both must reference a message).
    pub open spec fn same_dedup_key(a: ReportView, b: ReportView) -> bool {
        &&& a.message_id is Some
        &&& a.message_id == b.message_id
        &&& a.guild_id == b.guild_id
        &&& a.reported_user_id == b.reported_user_id
    }

    pub open spec fn has_dup(self, guild_id: u64, reported_user_id: u64, message_id: u64) -> bool {
        exists|i: int|
            0 <= i < self.reports.len() && Self::matches_dedup_key(
                #[trigger] self.reports[i],
                guild_id,
                reported_user_id,
                message_id,
            )
    }

    /// Id of the row a submission against the key deduplicates to.
    pub open spec fn dup_id(self, guild_id: u64, reported_user_id: u64, message_id: u64) -> u64 {
        self.reports[choose|i: int|
            0 <= i < self.reports.len() && Self::matches_dedup_key(
                #[trigger] self.reports[i],
                guild_id,
                reported_user_id,
                message_id,
            )].id
    }

    /// The id of the row a submission deduplicates to, if the submission
    /// references a message and such a row exists; reports without a
    /// message reference are never deduplicated.
    pub open spec fn dup_of(
        self,
        guild_id: u64,
        reported_user_id: u64,
        message_id: Option<u64>,
    ) -> Option<u64> {
        match message_id {
            Some(m) => if self.has_dup(guild_id, reported_user_id, m) {
                Some(self.dup_id(guild_id, reported_user_id, m))
            } else {
                None
            },
            None => None,
        }
    }

    pub open spec fn has_report(self, id: u64) -> bool {
        exists|i: int| 0 <= i < self.reports.len() && (#[trigger] self.reports[i]).id == id
    }

    pub open spec fn report_index(self, id: u64) -> int {
        choose|i: int| 0 <= i < self.reports.len() && (#[trigger] self.reports[i]).id == id
    }

    /// The report row with the given id (meaningful when `has_report`).
    pub open spec fn report_for(self, id: u64) -> ReportView {
        self.reports[self.report_index(id)]
    }

    pub open spec fn has_user_view(self, report_id: u64) -> bool {
        exists|i: int|
            0 <= i < self.user_views.len() && (#[trigger] self.user_views[i]).report_id
                == report_id
    }

    pub open spec fn user_view_index(self, report_id: u64) -> int {
        choose|i: int|
            0 <= i < self.user_views.len() && (#[trigger] self.user_views[i]).report_id
                == report_id
    }

    pub open spec fn user_view_for(self, report_id: u64) -> UserViewModel {
        self.user_views[self.user_view_index(report_id)]
    }

    pub open spec fn has_mod_view(self, report_id: u64) -> bool {
        exists|i: int|
            0 <= i < self.mod_views.len() && (#[trigger] self.mod_views[i]).report_id == report_id
    }

    pub open spec fn mod_view_index(self, report_id: u64) -> int {
        choose|i: int|
            0 <= i < self.mod_views.len() && (#[trigger] self.mod_views[i]).report_id == report_id
    }

    pub open spec fn mod_view_for(self, report_id: u64) -> ModViewModel {
        self.mod_views[self.mod_view_index(report_id)]
    }

    /// Well-formedness of the persisted state:
    /// - report ids are unique and below the allocation cursor;
    /// - a row references a channel exactly when it references a message;
    /// - no two rows share a dedup key, so a duplicate has one target;
    /// - each report has at most one view pointer of each kind, and every
    ///   view pointer refers to an existing report.
    pub open spec fn wf(self) -> bool {
        &&& forall|i: int, j: int|
            #![trigger self.reports[i], self.reports[j]]
            0 <= i < j < self.reports.len() ==> self.reports[i].id != self.reports[j].id
        &&& forall|i: int|
            0 <= i < self.reports.len() ==> (#[trigger] self.reports[i]).id < self.next_id
        &&& forall|i: int|
            0 <= i < self.reports.len() ==> ((#[trigger] self.reports[i]).channel_id is Some
                <==> self.reports[i].message_id is Some)
        &&& forall|i: int, j: int|
            #![trigger self.reports[i], self.reports[j]]
            0 <= i < j < self.reports.len() ==> !Self::same_dedup_key(
                self.reports[i],
                self.reports[j],
            )
        &&& forall|i: int, j: int|
            #![trigger self.user_views[i], self.user_views[j]]
            0 <= i < j < self.user_views.len() ==> self.user_views[i].report_id
                != self.user_views[j].report_id
        &&& forall|i: int, j: int|
            #![trigger self.mod_views[i], self.mod_views[j]]
            0 <= i < j < self.mod_views.len() ==> self.mod_views[i].report_id
                != self.mod_views[j].report_id
        &&& forall|i: int|
            0 <= i < self.user_views.len() ==> self.has_report(
                (#[trigger] self.user_views[i]).report_id,
            )
        &&& forall|i: int|
            0 <= i < self.mod_views.len() ==> self.has_report(
                (#[trigger] self.mod_views[i]).report_id,
            )
    }

    /// Cross-view consistency: every reporter-facing view shows the status
    /// its report currently has.
    pub open spec fn synced(self) -> bool {
        forall|i: int|
            0 <= i < self.user_views.len() ==> (#[trigger] self.user_views[i]).status
                == self.report_for(self.user_views[i].report_id).status
    }

    /// Cross-view consistency for every report but `id`: the state after a
    /// status patch, before view synchronization has caught up.
    pub open spec fn synced_except(self, id: u64) -> bool {
        forall|i: int|
            0 <= i < self.user_views.len() && (#[trigger] self.user_views[i]).report_id != id
                ==> self.user_views[i].status == self.report_for(
                self.user_views[i].report_id,
            ).status
    }
}

/// In a well-formed state, a row is the one and only lookup result for its
/// own id.
pub proof fn lemma_report_lookup_unique(v: DbView, i: int, id: u64)
    requires
        v.wf(),
        0 <= i < v.reports.len(),
        v.reports[i].id == id,
    ensures
        v.has_report(id),
        v.report_index(id) == i,
        v.report_for(id) == v.reports[i],
{
    assert(v.has_report(id));
    let j = v.report_index(id);
    if j != i {
        if i < j {
            assert(v.reports[i].id != v.reports[j].id);
        } else {
            assert(v.reports[j].id != v.reports[i].id);
        }
    }
}

/// A report created with a message reference is the unique target the
/// dedup key of any later submission against the same
/// `(community, accused, message)` resolves to: such a submission returns
/// this report's id and creates no new row.
pub proof fn lemma_resubmission_deduplicates(v: DbView, i: int, m: u64)
    requires
        v.wf(),
        0 <= i < v.reports.len(),
        v.reports[i].message_id == Some(m),
    ensures
        v.has_dup(v.reports[i].guild_id, v.reports[i].reported_user_id, m),
        v.dup_of(v.reports[i].guild_id, v.reports[i].reported_user_id, Some(m)) == Some(
            v.reports[i].id,
        ),
{
    let g = v.reports[i].guild_id;
    let u = v.reports[i].reported_user_id;
    assert(DbView::matches_dedup_key(v.reports[i], g, u, m));
    assert(v.has_dup(g, u, m));
    let j = choose|j: int|
        0 <= j < v.reports.len() && DbView::matches_dedup_key(#[trigger] v.reports[j], g, u, m);
    if j != i {
        if i < j {
            assert(!DbView::same_dedup_key(v.reports[i], v.reports[j]));
        } else {
            assert(!DbView::same_dedup_key(v.reports[j], v.reports[i]));
        }
    }
}

/// Reports without a message reference are never deduplicated: a
/// submission that references no message has no dedup target in any
/// state, so each such submission creates a row of its own; and in a
/// well-formed state any two rows are distinct (their ids differ), so N
/// independent submissions leave N distinct rows.
pub proof fn lemma_independent_when_no_message(
    v: DbView,
    guild_id: u64,
    reported_user_id: u64,
    i: int,
    j: int,
)
    requires
        v.wf(),
        0 <= i < j < v.reports.len(),
    ensures
        v.dup_of(guild_id, reported_user_id, None) is None,
        v.reports[i].id != v.reports[j].id,
{
}

/// In a well-formed state, a view pointer is the one and only lookup
/// result for its report id.
pub proof fn lemma_user_view_lookup_unique(v: DbView, i: int, report_id: u64)
    requires
        v.wf(),
        0 <= i < v.user_views.len(),
        v.user_views[i].report_id == report_id,
    ensures
        v.has_user_view(report_id),
        v.user_view_index(report_id) == i,
        v.user_view_for(report_id) == v.user_views[i],
{
    assert(v.has_user_view(report_id));
    let j = v.user_view_index(report_id);
    if j != i {
        if i < j {
            assert(v.user_views[i].report_id != v.user_views[j].report_id);
        } else {
            assert(v.user_views[j].report_id != v.user_views[i].report_id);
        }
    }
}

pub proof fn lemma_mod_view_lookup_unique(v: DbView, i: int, report_id: u64)
    requires
        v.wf(),
        0 <= i < v.mod_views.len(),
        v.mod_views[i].report_id == report_id,
    ensures
        v.has_mod_view(report_id),
        v.mod_view_index(report_id) == i,
        v.mod_view_for(report_id) == v.mod_views[i],
{
    assert(v.has_mod_view(report_id));
    let j = v.mod_view_index(report_id);
    if j != i {
        if i < j {
            assert(v.mod_views[i].report_id != v.mod_views[j].report_id);
        } else {
            assert(v.mod_views[j].report_id != v.mod_views[i].report_id);
        }
    }
}

/// A report row after a partial patch: a supplied field replaces the old
/// value, an absent one leaves it untouched; identity fields never change.
pub open spec fn spec_patch(
    r: ReportView,
    reason: Option<Seq<char>>,
    status: Option<ReportStatus>,
) -> ReportView {
    ReportView {
        status: match status {
            Some(s) => s,
            None => r.status,
        },
        reason: match reason {
            Some(s) => Some(s),
            None => r.reason,
        },
        ..r
    }
}

/// Appending a fresh row (fresh id, no colliding dedup key) keeps the
/// store well-formed and every view consistent.
proof fn lemma_create_preserves(v0: DbView, v1: DbView, nr: ReportView)
    requires
        v0.wf(),
        v0.next_id < u64::MAX,
        nr.id == v0.next_id,
        nr.channel_id is Some <==> nr.message_id is Some,
        nr.message_id matches Some(m) ==> !v0.has_dup(nr.guild_id, nr.reported_user_id, m),
        v1 == (DbView {
            reports: v0.reports.push(nr),
            next_id: (v0.next_id + 1) as u64,
            ..v0
        }),
    ensures
        v1.wf(),
        v0.synced() ==> v1.synced(),
{
    let n = v0.reports.len() as int;
    assert forall|i: int, j: int|
        #![trigger v1.reports[i], v1.reports[j]]
        0 <= i < j < v1.reports.len() implies v1.reports[i].id != v1.reports[j].id
        && !DbView::same_dedup_key(v1.reports[i], v1.reports[j]) by {
        if j == n {
            assert(v1.reports[i] == v0.reports[i]);
            assert(v0.reports[i].id < v0.next_id);
            if DbView::same_dedup_key(v0.reports[i], nr) {
                match nr.message_id {
                    Some(m) => {
                        assert(DbView::matches_dedup_key(
                            v0.reports[i],
                            nr.guild_id,
                            nr.reported_user_id,
                            m,
                        ));
                        assert(v0.has_dup(nr.guild_id, nr.reported_user_id, m));
                    },
                    None => {},
                }
            }
        } else {
            assert(v1.reports[i] == v0.reports[i]);
            assert(v1.reports[j] == v0.reports[j]);
        }
    };
    assert forall|i: int| 0 <= i < v1.reports.len() implies (#[trigger] v1.reports[i]).id
        < v1.next_id && (v1.reports[i].channel_id is Some
        <==> v1.reports[i].message_id is Some) by {
        if i < n {
            assert(v1.reports[i] == v0.reports[i]);
        }
    };
    assert forall|i: int| 0 <= i < v1.user_views.len() implies v1.has_report(
        (#[trigger] v1.user_views[i]).report_id,
    ) by {
        assert(v0.has_report(v0.user_views[i].report_id));
        let k = v0.report_index(v0.user_views[i].report_id);
        assert(v1.reports[k].id == v0.user_views[i].report_id);
    };
    assert forall|i: int| 0 <= i < v1.mod_views.len() implies v1.has_report(
        (#[trigger] v1.mod_views[i]).report_id,
    ) by {
        assert(v0.has_report(v0.mod_views[i].report_id));
        let k = v0.report_index(v0.mod_views[i].report_id);
        assert(v1.reports[k].id == v0.mod_views[i].report_id);
    };
    assert(v1.wf());
    if v0.synced() {
        assert forall|i: int| 0 <= i < v1.user_views.len() implies (#[trigger] v1.user_views[i]).status
            == v1.report_for(v1.user_views[i].report_id).status by {
            let id = v0.user_views[i].report_id;
            assert(v0.has_report(id));
            let k = v0.report_index(id);
            lemma_report_lookup_unique(v0, k, id);
            assert(v1.reports[k] == v0.reports[k]);
            lemma_report_lookup_unique(v1, k, id);
            assert(v0.user_views[i].status == v0.report_for(id).status);
        };
    }
}

/// A partial patch keeps the store well-formed: it never changes a row's
/// identity, dedup key or origin reference, and every other row and every
/// view stays as it was.
proof fn lemma_patch_preserves(
    v0: DbView,
    v1: DbView,
    idx: int,
    id: u64,
    reason: Option<Seq<char>>,
    status: Option<ReportStatus>,
)
    requires
        v0.wf(),
        0 <= idx < v0.reports.len(),
        v0.reports[idx].id == id,
        v1 == (DbView {
            reports: v0.reports.update(idx, spec_patch(v0.reports[idx], reason, status)),
            ..v0
        }),
    ensures
        v1.wf(),
        v1.has_report(id),
        v1.report_index(id) == idx,
        v1.report_for(id) == spec_patch(v0.reports[idx], reason, status),
        v0.synced() ==> v1.synced_except(id),
{
    assert forall|i: int, j: int|
        #![trigger v1.reports[i], v1.reports[j]]
        0 <= i < j < v1.reports.len() implies v1.reports[i].id != v1.reports[j].id
        && !DbView::same_dedup_key(v1.reports[i], v1.reports[j]) by {
        assert(v1.reports[i].id == v0.reports[i].id);
        assert(v1.reports[j].id == v0.reports[j].id);
        assert(DbView::same_dedup_key(v1.reports[i], v1.reports[j])
            == DbView::same_dedup_key(v0.reports[i], v0.reports[j]));
    };
    assert forall|i: int| 0 <= i < v1.reports.len() implies (#[trigger] v1.reports[i]).id
        < v1.next_id && (v1.reports[i].channel_id is Some
        <==> v1.reports[i].message_id is Some) by {
        assert(v1.reports[i].id == v0.reports[i].id);
        assert(v1.reports[i].channel_id == v0.reports[i].channel_id);
        assert(v1.reports[i].message_id == v0.reports[i].message_id);
    };
    assert forall|i: int| 0 <= i < v1.user_views.len() implies v1.has_report(
        (#[trigger] v1.user_views[i]).report_id,
    ) by {
        assert(v0.has_report(v0.user_views[i].report_id));
        let k = v0.report_index(v0.user_views[i].report_id);
        assert(v1.reports[k].id == v0.user_views[i].report_id);
    };
    assert forall|i: int| 0 <= i < v1.mod_views.len() implies v1.has_report(
        (#[trigger] v1.mod_views[i]).report_id,
    ) by {
        assert(v0.has_report(v0.mod_views[i].report_id));
        let k = v0.report_index(v0.mod_views[i].report_id);
        assert(v1.reports[k].id == v0.mod_views[i].report_id);
    };
    assert(v1.wf());
    lemma_report_lookup_unique(v1, idx, id);
    if v0.synced() {
        assert forall|i: int|
            0 <= i < v1.user_views.len() && (#[trigger] v1.user_views[i]).report_id != id implies
            v1.user_views[i].status == v1.report_for(v1.user_views[i].report_id).status by {
            let rid = v0.user_views[i].report_id;
            assert(v0.has_report(rid));
            let k = v0.report_index(rid);
            lemma_report_lookup_unique(v0, k, rid);
            assert(k != idx);
            assert(v1.reports[k] == v0.reports[k]);
            lemma_report_lookup_unique(v1, k, rid);
            assert(v0.user_views[i].status == v0.report_for(rid).status);
        };
    }
}

/// Replacing a view pointer by one for the same report keeps the store
/// well-formed; if the new pointer shows the report's current status and
/// every other view was consistent, the whole store is consistent.
proof fn lemma_user_view_set_preserves(v0: DbView, v1: DbView, idx: int, nv: UserViewModel)
    requires
        v0.wf(),
        0 <= idx < v0.user_views.len(),
        nv.report_id == v0.user_views[idx].report_id,
        v1 == (DbView { user_views: v0.user_views.update(idx, nv), ..v0 }),
    ensures
        v1.wf(),
        (nv.status == v0.report_for(nv.report_id).status && v0.synced_except(nv.report_id))
            ==> v1.synced(),
{
    assert forall|i: int, j: int|
        #![trigger v1.user_views[i], v1.user_views[j]]
        0 <= i < j < v1.user_views.len() implies v1.user_views[i].report_id
        != v1.user_views[j].report_id by {
        assert(v1.user_views[i].report_id == v0.user_views[i].report_id);
        assert(v1.user_views[j].report_id == v0.user_views[j].report_id);
    };
    assert forall|i: int| 0 <= i < v1.user_views.len() implies v1.has_report(
        (#[trigger] v1.user_views[i]).report_id,
    ) by {
        assert(v1.user_views[i].report_id == v0.user_views[i].report_id);
        assert(v0.has_report(v0.user_views[i].report_id));
        let k = v0.report_index(v0.user_views[i].report_id);
        assert(v1.reports[k].id == v0.user_views[i].report_id);
    };
    assert(v1.wf());
    if nv.status == v0.report_for(nv.report_id).status && v0.synced_except(nv.report_id) {
        assert forall|i: int| 0 <= i < v1.user_views.len() implies (#[trigger] v1.user_views[i]).status
            == v1.report_for(v1.user_views[i].report_id).status by {
            let rid = v1.user_views[i].report_id;
            assert(v0.has_report(rid));
            let k = v0.report_index(rid);
            lemma_report_lookup_unique(v0, k, rid);
            lemma_report_lookup_unique(v1, k, rid);
            if i == idx {
                assert(v1.user_views[i] == nv);
            } else {
                assert(v1.user_views[i] == v0.user_views[i]);
                if rid == nv.report_id {
                    if i < idx {
                        assert(v0.user_views[i].report_id != v0.user_views[idx].report_id);
                    } else {
                        assert(v0.user_views[idx].report_id != v0.user_views[i].report_id);
                    }
                }
            }
        };
    }
}

/// Adding a view pointer for a report that had none keeps the store
/// well-formed; if the pointer shows the report's current status and every
/// other view was consistent, the whole store is consistent.
proof fn lemma_user_view_push_preserves(v0: DbView, v1: DbView, nv: UserViewModel)
    requires
        v0.wf(),
        !v0.has_user_view(nv.report_id),
        v0.has_report(nv.report_id),
        v1 == (DbView { user_views: v0.user_views.push(nv), ..v0 }),
    ensures
        v1.wf(),
        (nv.status == v0.report_for(nv.report_id).status && v0.synced_except(nv.report_id))
            ==> v1.synced(),
{
    let n = v0.user_views.len() as int;
    assert forall|i: int, j: int|
        #![trigger v1.user_views[i], v1.user_views[j]]
        0 <= i < j < v1.user_views.len() implies v1.user_views[i].report_id
        != v1.user_views[j].report_id by {
        if j == n {
            assert(v1.user_views[i] == v0.user_views[i]);
            assert(v0.user_views[i].report_id != nv.report_id);
        } else {
            assert(v1.user_views[i] == v0.user_views[i]);
            assert(v1.user_views[j] == v0.user_views[j]);
        }
    };
    assert forall|i: int| 0 <= i < v1.user_views.len() implies v1.has_report(
        (#[trigger] v1.user_views[i]).report_id,
    ) by {
        if i < n {
            assert(v1.user_views[i] == v0.user_views[i]);
            assert(v0.has_report(v0.user_views[i].report_id));
        } else {
            assert(v1.user_views[i] == nv);
        }
        let k = v0.report_index(v1.user_views[i].report_id);
        assert(v1.reports[k].id == v1.user_views[i].report_id);
    };
    assert(v1.wf());
    if nv.status == v0.report_for(nv.report_id).status && v0.synced_except(nv.report_id) {
        assert forall|i: int| 0 <= i < v1.user_views.len() implies (#[trigger] v1.user_views[i]).status
            == v1.report_for(v1.user_views[i].report_id).status by {
            let rid = v1.user_views[i].report_id;
            assert(v0.has_report(rid));
            let k = v0.report_index(rid);
            lemma_report_lookup_unique(v0, k, rid);
            lemma_report_lookup_unique(v1, k, rid);
            if i < n {
                assert(v1.user_views[i] == v0.user_views[i]);
                assert(v0.user_views[i].report_id != nv.report_id);
            } else {
                assert(v1.user_views[i] == nv);
            }
        };
    }
}

/// Replacing a moderator-facing view pointer by one for the same report
/// keeps the store well-formed.
proof fn lemma_mod_view_set_preserves(v0: DbView, v1: DbView, idx: int, nv: ModViewModel)
    requires
        v0.wf(),
        0 <= idx < v0.mod_views.len(),
        nv.report_id == v0.mod_views[idx].report_id,
        v1 == (DbView { mod_views: v0.mod_views.update(idx, nv), ..v0 }),
    ensures
        v1.wf(),
{
    assert forall|i: int, j: int|
        #![trigger v1.mod_views[i], v1.mod_views[j]]
        0 <= i < j < v1.mod_views.len() implies v1.mod_views[i].report_id
        != v1.mod_views[j].report_id by {
        assert(v1.mod_views[i].report_id == v0.mod_views[i].report_id);
        assert(v1.mod_views[j].report_id == v0.mod_views[j].report_id);
    };
    assert forall|i: int| 0 <= i < v1.mod_views.len() implies v1.has_report(
        (#[trigger] v1.mod_views[i]).report_id,
    ) by {
        assert(v1.mod_views[i].report_id == v0.mod_views[i].report_id);
        assert(v0.has_report(v0.mod_views[i].report_id));
        let k = v0.report_index(v0.mod_views[i].report_id);
        assert(v1.reports[k].id == v0.mod_views[i].report_id);
    };
    assert(v1.wf());
}

/// Adding a moderator-facing view pointer for a report that had none
/// keeps the store well-formed.
proof fn lemma_mod_view_push_preserves(v0: DbView, v1: DbView, nv: ModViewModel)
    requires
        v0.wf(),
        !v0.has_mod_view(nv.report_id),
        v0.has_report(nv.report_id),
        v1 == (DbView { mod_views: v0.mod_views.push(nv), ..v0 }),
    ensures
        v1.wf(),
{
    let n = v0.mod_views.len() as int;
    assert forall|i: int, j: int|
        #![trigger v1.mod_views[i], v1.mod_views[j]]
        0 <= i < j < v1.mod_views.len() implies v1.mod_views[i].report_id
        != v1.mod_views[j].report_id by {
        if j == n {
            assert(v1.mod_views[i] == v0.mod_views[i]);
            assert(v0.mod_views[i].report_id != nv.report_id);
        } else {
            assert(v1.mod_views[i] == v0.mod_views[i]);
            assert(v1.mod_views[j] == v0.mod_views[j]);
        }
    };
    assert forall|i: int| 0 <= i < v1.mod_views.len() implies v1.has_report(
        (#[trigger] v1.mod_views[i]).report_id,
    ) by {
        if i < n {
            assert(v1.mod_views[i] == v0.mod_views[i]);
            assert(v0.has_report(v0.mod_views[i].report_id));
        } else {
            assert(v1.mod_views[i] == nv);
        }
        let k = v0.report_index(v1.mod_views[i].report_id);
        assert(v1.reports[k].id == v1.mod_views[i].report_id);
    };
    assert(v1.wf());
}

/// Changing only the moderator-facing view pointers (which carry no
/// status) never disturbs reporter-facing consistency.
proof fn lemma_mod_views_only_preserve_synced(v0: DbView, v1: DbView)
    requires
        v0.wf(),
        v1.reports == v0.reports,
        v1.user_views == v0.user_views,
    ensures
        v0.synced() ==> v1.synced(),
        forall|id: u64| #[trigger] v0.synced_except(id) ==> v1.synced_except(id),
{
    assert forall|id: u64| #[trigger] v0.synced_except(id) implies v1.synced_except(id) by {
        assert forall|i: int|
            0 <= i < v1.user_views.len() && (#[trigger] v1.user_views[i]).report_id != id implies
            v1.user_views[i].status == v1.report_for(v1.user_views[i].report_id).status by {
            let rid = v0.user_views[i].report_id;
            assert(v0.has_report(rid));
            let k = v0.report_index(rid);
            lemma_report_lookup_unique(v0, k, rid);
            assert(v1.has_report(rid));
            let k1 = v1.report_index(rid);
            assert(0 <= k1 < v1.reports.len() && v1.reports[k1].id == rid);
            if k1 != k {
                if k < k1 {
                    assert(v0.reports[k].id != v0.reports[k1].id);
                } else {
                    assert(v0.reports[k1].id != v0.reports[k].id);
                }
            }
        };
    };
    if v0.synced() {
        assert forall|i: int| 0 <= i < v1.user_views.len() implies (#[trigger] v1.user_views[i]).status
            == v1.report_for(v1.user_views[i].report_id).status by {
            let rid = v0.user_views[i].report_id;
            assert(v0.has_report(rid));
            let k = v0.report_index(rid);
            lemma_report_lookup_unique(v0, k, rid);
            assert(v1.has_report(rid));
            let k1 = v1.report_index(rid);
            assert(0 <= k1 < v1.reports.len() && v1.reports[k1].id == rid);
            if k1 != k {
                if k < k1 {
                    assert(v0.reports[k].id != v0.reports[k1].id);
                } else {
                    assert(v0.reports[k1].id != v0.reports[k].id);
                }
            }
        };
    }
}

/// The persistence port.
pub struct Database {
    configured: Vec<u64>,
    protected: Vec<(u64, u64)>,
    reports: Vec<ReportModel>,
    user_views: Vec<UserViewModel>,
    mod_views: Vec<ModViewModel>,
    next_id: u64,
}

impl View for Database {
    type V = DbView;

    closed spec fn view(&self) -> DbView {
        DbView {
            configured: self.configured@,
            protected: self.protected@,
            reports: self.reports@.map_values(|r: ReportModel| r@),
            user_views: self.user_views@,
            mod_views: self.mod_views@,
            next_id: self.next_id,
        }
    }
}

impl Database {
    /// An empty store: nothing configured, nothing protected, no reports,
    /// no views; ids start at 1.
    pub fn new() -> (db: Database)
        ensures
            db@.wf(),
            db@.synced(),
            db@.configured == Seq::<u64>::empty(),
            db@.protected == Seq::<(u64, u64)>::empty(),
            db@.reports == Seq::<ReportView>::empty(),
            db@.user_views == Seq::<UserViewModel>::empty(),
            db@.mod_views == Seq::<ModViewModel>::empty(),
            db@.next_id == 1u64,
    {
        let db = Database {
            configured: Vec::new(),
            protected: Vec::new(),
            reports: Vec::new(),
            user_views: Vec::new(),
            mod_views: Vec::new(),
            next_id: 1,
        };
        proof {
            assert(db@.reports =~= Seq::<ReportView>::empty());
        }
        db
    }

    /// Stores a configuration for a community.
    pub fn save_server_configuration(&mut self, guild_id: u64)
        ensures
            final(self)@ == (DbView {
                configured: old(self)@.configured.push(guild_id),
                ..old(self)@
            }),
    {
        self.configured.push(guild_id);
    }

    /// Marks a user as protected in a community: not reportable there.
    pub fn set_protected_user(&mut self, guild_id: u64, user_id: u64)
        ensures
            final(self)@ == (DbView {
                protected: old(self)@.protected.push((guild_id, user_id)),
                ..old(self)@
            }),
    {
        self.protected.push((guild_id, user_id));
    }

    /// Whether the store can still hand out a fresh report id: the
    /// runtime test for `make_report`'s id-space bound.
    pub fn can_allocate_id(&self) -> (r: bool)
        ensures
            r == (self@.next_id < u64::MAX),
    {
        self.next_id < u64::MAX
    }

    /// Whether the community has a stored configuration.
    pub fn has_server_config(&self, guild_id: u64) -> (r: bool)
        ensures
            r == self@.is_configured(guild_id),
    {
        let mut i: usize = 0;
        while i < self.configured.len()
            invariant
                i <= self.configured.len(),
                forall|k: int| 0 <= k < i ==> self.configured@[k] != guild_id,
            decreases self.configured.len() - i,
        {
            if self.configured[i] == guild_id {
                return true;
            }
            i += 1;
        }
        false
    }

    /// The dedup-aware write.  When the submission references a message
    /// and a row against the same `(community, accused, message)` already
    /// exists, that row's id is returned and nothing changes; otherwise a
    /// fresh row is created with status `Unhandled` and a fresh id.
    /// Submissions without a message reference always create a row.
    pub fn make_report(
        &mut self,
        guild_id: u64,
        accuser_user_id: u64,
        reported_user_id: u64,
        channel_id: Option<u64>,
        message_id: Option<u64>,
        reason: Option<String>,
    ) -> (effect: MakeReportEffect)
        requires
            old(self)@.wf(),
            old(self)@.next_id < u64::MAX,
            channel_id is Some <==> message_id is Some,
        ensures
            final(self)@.wf(),
            old(self)@.synced() ==> final(self)@.synced(),
            match old(self)@.dup_of(guild_id, reported_user_id, message_id) {
                Some(id) => final(self)@ == old(self)@ && effect == MakeReportEffect::Duplicate(
                    id,
                ),
                None => {
                    &&& effect matches MakeReportEffect::Created(rep)
                    &&& rep@ == (ReportView {
                        id: old(self)@.next_id,
                        accuser_user_id,
                        reported_user_id,
                        guild_id,
                        status: ReportStatus::Unhandled,
                        channel_id,
                        message_id,
                        reason: opt_str_view(reason),
                    })
                    &&& final(self)@ == (DbView {
                        reports: old(self)@.reports.push(rep@),
                        next_id: (old(self)@.next_id + 1) as u64,
                        ..old(self)@
                    })
                },
            },
    {
        if let Some(m) = message_id {
            let mut i: usize = 0;
            while i < self.reports.len()
                invariant
                    self == old(self),
                    old(self)@.wf(),
                    message_id == Some(m),
                    i <= self.reports.len(),
                    forall|k: int|
                        0 <= k < i ==> !DbView::matches_dedup_key(
                            #[trigger] old(self)@.reports[k],
                            guild_id,
                            reported_user_id,
                            m,
                        ),
                decreases self.reports.len() - i,
            {
                let hit = self.reports[i].guild_id == guild_id && self.reports[i].reported_user_id
                    == reported_user_id && match self.reports[i].message_id {
                    Some(mm) => mm == m,
                    None => false,
                };
                if hit {
                    let id = self.reports[i].id;
                    proof {
                        assert(self@.reports[i as int] == self.reports@[i as int]@);
                        lemma_resubmission_deduplicates(self@, i as int, m);
                    }
                    return MakeReportEffect::Duplicate(id);
                }
                i += 1;
            }
            proof {
                assert(!old(self)@.has_dup(guild_id, reported_user_id, m));
            }
        }
        // No duplicate target: create a fresh row.
        let id = self.next_id;
        let (reason_store, reason_out): (Option<String>, Option<String>) = match reason {
            Some(s) => {
                let c = s.clone();
                (Some(s), Some(c))
            },
            None => (None, None),
        };
        let rep = ReportModel {
            id,
            accuser_user_id,
            reported_user_id,
            guild_id,
            status: ReportStatus::Unhandled,
            channel_id,
            message_id,
            reason: reason_store,
        };
        let out = ReportModel {
            id,
            accuser_user_id,
            reported_user_id,
            guild_id,
            status: ReportStatus::Unhandled,
            channel_id,
            message_id,
            reason: reason_out,
        };
        proof {
            assert(rep@ =~= out@);
        }
        self.reports.push(rep);
        self.next_id = id + 1;
        proof {
            assert(self@.reports =~= old(self)@.reports.push(out@));
            assert(self@ =~= (DbView {
                reports: old(self)@.reports.push(out@),
                next_id: (old(self)@.next_id + 1) as u64,
                ..old(self)@
            }));
            lemma_create_preserves(old(self)@, self@, out@);
        }
        MakeReportEffect::Created(out)
    }

    /// Targeted field update of one report row: a supplied field replaces
    /// the stored value, an absent one is left untouched.  Fails, changing
    /// nothing, exactly when no row has the given id.
    pub fn update_report(
        &mut self,
        report_id: u64,
        reason: Option<String>,
        status: Option<ReportStatus>,
    ) -> (r: Result<(), ReportUpdateError>)
        requires
            old(self)@.wf(),
        ensures
            final(self)@.wf(),
            if old(self)@.has_report(report_id) {
                &&& r is Ok
                &&& final(self)@ == (DbView {
                    reports: old(self)@.reports.update(
                        old(self)@.report_index(report_id),
                        spec_patch(
                            old(self)@.report_for(report_id),
                            opt_str_view(reason),
                            status,
                        ),
                    ),
                    ..old(self)@
                })
                &&& old(self)@.synced() ==> final(self)@.synced_except(report_id)
            } else {
                &&& r == Err::<(), ReportUpdateError>(ReportUpdateError::ReportNotFound)
                &&& final(self)@ == old(self)@
            },
    {
        let mut i: usize = 0;
        while i < self.reports.len()
            invariant
                self == old(self),
                old(self)@.wf(),
                i <= self.reports.len(),
                forall|k: int| 0 <= k < i ==> (#[trigger] old(self)@.reports[k]).id != report_id,
            decreases self.reports.len() - i,
        {
            if self.reports[i].id == report_id {
                proof {
                    assert(self@.reports[i as int] == self.reports@[i as int]@);
                    lemma_report_lookup_unique(self@, i as int, report_id);
                }
                if let Some(s) = reason {
                    self.reports[i].reason = Some(s);
                }
                if let Some(st) = status {
                    self.reports[i].status = st;
                }
                proof {
                    assert(self@.reports =~= old(self)@.reports.update(
                        i as int,
                        spec_patch(old(self)@.reports[i as int], opt_str_view(reason), status),
                    ));
                    assert(self@ =~= (DbView {
                        reports: old(self)@.reports.update(
                            i as int,
                            spec_patch(old(self)@.reports[i as int], opt_str_view(reason), status),
                        ),
                        ..old(self)@
                    }));
                    lemma_patch_preserves(
                        old(self)@,
                        self@,
                        i as int,
                        report_id,
                        opt_str_view(reason),
                        status,
                    );
                }
                return Ok(());
            }
            i += 1;
        }
        Err(ReportUpdateError::ReportNotFound)
    }

    /// The report row with the given id, if any.
    pub fn get_report(&self, report_id: u64) -> (r: Option<&ReportModel>)
        requires
            self@.wf(),
        ensures
            match r {
                Some(rep) => self@.has_report(report_id) && rep@ == self@.report_for(report_id),
                None => !self@.has_report(report_id),
            },
    {
        let mut i: usize = 0;
        while i < self.reports.len()
            invariant
                self@.wf(),
                i <= self.reports.len(),
                forall|k: int| 0 <= k < i ==> (#[trigger] self@.reports[k]).id != report_id,
            decreases self.reports.len() - i,
        {
            if self.reports[i].id == report_id {
                proof {
                    assert(self@.reports[i as int] == self.reports@[i as int]@);
                    lemma_report_lookup_unique(self@, i as int, report_id);
                }
                return Some(&self.reports[i]);
            }
            i += 1;
        }
        None
    }

    /// The reporter-facing view pointer of a report, if one was recorded.
    pub fn load_user_view(&self, report_id: u64) -> (r: Option<UserViewModel>)
        requires
            self@.wf(),
        ensures
            match r {
                Some(v) => self@.has_user_view(report_id) && v == self@.user_view_for(report_id),
                None => !self@.has_user_view(report_id),
            },
    {
        let mut i: usize = 0;
        while i < self.user_views.len()
            invariant
                self@.wf(),
                i <= self.user_views.len(),
                forall|k: int|
                    0 <= k < i ==> (#[trigger] self@.user_views[k]).report_id != report_id,
            decreases self.user_views.len() - i,
        {
            if self.user_views[i].report_id == report_id {
                proof {
                    lemma_user_view_lookup_unique(self@, i as int, report_id);
                }
                return Some(self.user_views[i]);
            }
            i += 1;
        }
        None
    }

    /// The moderator-facing view pointer of a report, if one was recorded.
    pub fn load_mod_view(&self, report_id: u64) -> (r: Option<ModViewModel>)
        requires
            self@.wf(),
        ensures
            match r {
                Some(v) => self@.has_mod_view(report_id) && v == self@.mod_view_for(report_id),
                None => !self@.has_mod_view(report_id),
            },
    {
        let mut i: usize = 0;
        while i < self.mod_views.len()
            invariant
                self@.wf(),
                i <= self.mod_views.len(),
                forall|k: int|
                    0 <= k < i ==> (#[trigger] self@.mod_views[k]).report_id != report_id,
            decreases self.mod_views.len() - i,
        {
            if self.mod_views[i].report_id == report_id {
                proof {
                    lemma_mod_view_lookup_unique(self@, i as int, report_id);
                }
                return Some(self.mod_views[i]);
            }
            i += 1;
        }
        None
    }

    /// Records where the reporter-facing view of a report was rendered.
    /// The stored pointer shows the report's current status.  A first save
    /// adds the pointer; a later save replaces it.  Fails, changing
    /// nothing, exactly when no row has the given id.
    pub fn save_user_view(&mut self, report_id: u64, message_id: u64) -> (r: Result<
        (),
        ReportUpdateError,
    >)
        requires
            old(self)@.wf(),
        ensures
            final(self)@.wf(),
            if old(self)@.has_report(report_id) {
                &&& r is Ok
                &&& final(self)@ == (DbView {
                    user_views: if old(self)@.has_user_view(report_id) {
                        old(self)@.user_views.update(
                            old(self)@.user_view_index(report_id),
                            UserViewModel {
                                report_id,
                                message_id,
                                status: old(self)@.report_for(report_id).status,
                            },
                        )
                    } else {
                        old(self)@.user_views.push(
                            UserViewModel {
                                report_id,
                                message_id,
                                status: old(self)@.report_for(report_id).status,
                            },
                        )
                    },
                    ..old(self)@
                })
                &&& old(self)@.synced_except(report_id) ==> final(self)@.synced()
            } else {
                &&& r == Err::<(), ReportUpdateError>(ReportUpdateError::ReportNotFound)
                &&& final(self)@ == old(self)@
            },
    {
        let st = match self.get_report(report_id) {
            Some(rep) => rep.status,
            None => {
                return Err(ReportUpdateError::ReportNotFound);
            },
        };
        let nv = UserViewModel { report_id, message_id, status: st };
        let mut i: usize = 0;
        while i < self.user_views.len()
            invariant
                self == old(self),
                old(self)@.wf(),
                old(self)@.has_report(report_id),
                nv == (UserViewModel {
                    report_id,
                    message_id,
                    status: old(self)@.report_for(report_id).status,
                }),
                i <= self.user_views.len(),
                forall|k: int|
                    0 <= k < i ==> (#[trigger] old(self)@.user_views[k]).report_id != report_id,
            decreases self.user_views.len() - i,
        {
            if self.user_views[i].report_id == report_id {
                proof {
                    lemma_user_view_lookup_unique(self@, i as int, report_id);
                }
                self.user_views[i] = nv;
                proof {
                    assert(self@ =~= (DbView {
                        user_views: old(self)@.user_views.update(i as int, nv),
                        ..old(self)@
                    }));
                    lemma_user_view_set_preserves(old(self)@, self@, i as int, nv);
                }
                return Ok(());
            }
            i += 1;
        }
        self.user_views.push(nv);
        proof {
            assert(self@ =~= (DbView { user_views: old(self)@.user_views.push(nv), ..old(self)@ }));
            lemma_user_view_push_preserves(old(self)@, self@, nv);
        }
        Ok(())
    }

    /// Records where the moderator-facing view of a report was rendered,
    /// with the archive reference for the reported content.  A first save
    /// adds the pointer with no handling moderator; a later save replaces
    /// the rendering fields and keeps the handler.  Fails, changing
    /// nothing, exactly when no row has the given id.
    pub fn save_mod_view(
        &mut self,
        report_id: u64,
        channel_id: u64,
        message_id: u64,
        preview_archive_id: u64,
    ) -> (r: Result<(), ReportUpdateError>)
        requires
            old(self)@.wf(),
        ensures
            final(self)@.wf(),
            old(self)@.synced() ==> final(self)@.synced(),
            forall|id: u64| #[trigger] old(self)@.synced_except(id) ==> final(self)@.synced_except(
                id,
            ),
            if old(self)@.has_report(report_id) {
                &&& r is Ok
                &&& final(self)@ == (DbView {
                    mod_views: if old(self)@.has_mod_view(report_id) {
                        old(self)@.mod_views.update(
                            old(self)@.mod_view_index(report_id),
                            ModViewModel {
                                report_id,
                                channel_id,
                                message_id,
                                preview_archive_id,
                                handler: old(self)@.mod_view_for(report_id).handler,
                            },
                        )
                    } else {
                        old(self)@.mod_views.push(
                            ModViewModel {
                                report_id,
                                channel_id,
                                message_id,
                                preview_archive_id,
                                handler: None,
                            },
                        )
                    },
                    ..old(self)@
                })
            } else {
                &&& r == Err::<(), ReportUpdateError>(ReportUpdateError::ReportNotFound)
                &&& final(self)@ == old(self)@
            },
    {
        let found = match self.get_report(report_id) {
            Some(_) => true,
            None => false,
        };
        if !found {
            return Err(ReportUpdateError::ReportNotFound);
        }
        let mut i: usize = 0;
        while i < self.mod_views.len()
            invariant
                self == old(self),
                old(self)@.wf(),
                old(self)@.has_report(report_id),
                i <= self.mod_views.len(),
                forall|k: int|
                    0 <= k < i ==> (#[trigger] old(self)@.mod_views[k]).report_id != report_id,
            decreases self.mod_views.len() - i,
        {
            if self.mod_views[i].report_id == report_id {
                proof {
                    lemma_mod_view_lookup_unique(self@, i as int, report_id);
                }
                let handler = self.mod_views[i].handler;
                let nv = ModViewModel {
                    report_id,
                    channel_id,
                    message_id,
                    preview_archive_id,
                    handler,
                };
                self.mod_views[i] = nv;
                proof {
                    assert(self@ =~= (DbView {
                        mod_views: old(self)@.mod_views.update(i as int, nv),
                        ..old(self)@
                    }));
                    lemma_mod_view_set_preserves(old(self)@, self@, i as int, nv);
                    lemma_mod_views_only_preserve_synced(old(self)@, self@);
                }
                return Ok(());
            }
            i += 1;
        }
        let nv = ModViewModel {
            report_id,
            channel_id,
            message_id,
            preview_archive_id,
            handler: None,
        };
        self.mod_views.push(nv);
        proof {
            assert(self@ =~= (DbView { mod_views: old(self)@.mod_views.push(nv), ..old(self)@ }));
            lemma_mod_view_push_preserves(old(self)@, self@, nv);
            lemma_mod_views_only_preserve_synced(old(self)@, self@);
        }
        Ok(())
    }

    /// Sets the status a recorded reporter-facing view shows.  Does
    /// nothing when the report has no such view.
    pub(crate) fn set_user_view_status(&mut self, report_id: u64, status: ReportStatus)
        requires
            old(self)@.wf(),
        ensures
            final(self)@.wf(),
            final(self)@ == (DbView {
                user_views: if old(self)@.has_user_view(report_id) {
                    old(self)@.user_views.update(
                        old(self)@.user_view_index(report_id),
                        UserViewModel {
                            status,
                            ..old(self)@.user_view_for(report_id)
                        },
                    )
                } else {
                    old(self)@.user_views
                },
                ..old(self)@
            }),
            (old(self)@.has_report(report_id) && status == old(self)@.report_for(report_id).status
                && old(self)@.synced_except(report_id)) ==> final(self)@.synced(),
    {
        let mut i: usize = 0;
        while i < self.user_views.len()
            invariant
                self == old(self),
                old(self)@.wf(),
                i <= self.user_views.len(),
                forall|k: int|
                    0 <= k < i ==> (#[trigger] old(self)@.user_views[k]).report_id != report_id,
            decreases self.user_views.len() - i,
        {
            if self.user_views[i].report_id == report_id {
                proof {
                    lemma_user_view_lookup_unique(self@, i as int, report_id);
                }
                let nv = UserViewModel {
                    report_id: self.user_views[i].report_id,
                    message_id: self.user_views[i].message_id,
                    status,
                };
                self.user_views[i] = nv;
                proof {
                    assert(self@ =~= (DbView {
                        user_views: old(self)@.user_views.update(i as int, nv),
                        ..old(self)@
                    }));
                    lemma_user_view_set_preserves(old(self)@, self@, i as int, nv);
                }
                return ;
            }
            i += 1;
        }
        proof {
            if old(self)@.has_report(report_id) && status == old(self)@.report_for(
                report_id,
            ).status && old(self)@.synced_except(report_id) {
                assert forall|i: int| 0 <= i < self@.user_views.len() implies (
                #[trigger] self@.user_views[i]).status == self@.report_for(
                    self@.user_views[i].report_id,
                ).status by {
                    assert(self@.user_views[i].report_id != report_id);
                };
            }
        }
    }

    /// Whether the user is marked protected in the community.
    pub fn load_protected_user(&self, guild_id: u64, user_id: u64) -> (r: bool)
        ensures
            r == self@.is_protected(guild_id, user_id),
    {
        let mut i: usize = 0;
        while i < self.protected.len()
            invariant
                i <= self.protected.len(),
                forall|k: int| 0 <= k < i ==> self.protected@[k] != (guild_id, user_id),
            decreases self.protected.len() - i,
        {
            let p = self.protected[i];
            if p.0 == guild_id && p.1 == user_id {
                proof {
                    assert(self.protected@[i as int] == (guild_id, user_id));
                }
                return true;
            }
            i += 1;
        }
        false
    }
}

} // verus!
