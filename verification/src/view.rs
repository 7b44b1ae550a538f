//! View synchronization: given a lifecycle effect, refresh the persisted
//! view pointers and compute the exact content the platform messages must
//! show.  Sending and editing the messages is the caller's I/O; the store
//! stays the source of truth, and a failed delivery never rolls a
//! persisted mutation back.

use vstd::prelude::*;

use crate::database::Database;
use crate::database::DbView;
use crate::models::MakeReportEffect;
use crate::models::ReportModel;
use crate::models::UserViewModel;

verus! {

/// Error of view synchronization.
#[derive(Clone, Debug)]
pub enum UpdateViewError {
    /// The effect names a report that is not in the store.
    ReportNotFound,
    /// Delivering or editing a platform message failed; the text names the
    /// underlying cause.  Raised by the caller that performs the delivery;
    /// persisted mutations are not rolled back over it.
    RenderFailed(String),
}

/// One in-place edit of an already rendered view message.
pub struct MessageEdit {
    /// Channel holding the message; absent for the reporter-facing view,
    /// which lives in a direct-message channel the caller knows.
    pub channel_id: Option<u64>,
    /// The message to edit.
    pub message_id: u64,
    /// Status label the edited message must show.
    pub status_label: String,
    /// Status color the edited message must show, if the status has one.
    pub status_color: Option<u32>,
}

/// The in-place edits that bring both rendered views of one report in
/// line with the store.  Each side is present exactly when that view was
/// ever rendered: a missing view never blocks updating the other.
pub struct ViewEdits {
    pub user_edit: Option<MessageEdit>,
    pub mod_edit: Option<MessageEdit>,
}

/// What the caller must do on the platform after a lifecycle effect.
pub enum ViewSyncPlan {
    /// Render fresh views of this new report (send new messages), then
    /// record them with `save_user_view` / `save_mod_view`.
    Render(ReportModel),
    /// Nothing to render: duplicates never reach view synchronization.
    Skip,
    /// Edit the existing view messages in place.
    Edit(ViewEdits),
}

/// The edits address exactly the recorded view messages of the report and
/// carry its current status presentation.
pub open spec fn edits_match(v: DbView, report_id: u64, edits: ViewEdits) -> bool {
    &&& match edits.user_edit {
        Some(e) => {
            &&& v.has_user_view(report_id)
            &&& e.channel_id is None
            &&& e.message_id == v.user_view_for(report_id).message_id
            &&& e.status_label@ == v.report_for(report_id).status.spec_label()
            &&& e.status_color == v.report_for(report_id).status.spec_color()
        },
        None => !v.has_user_view(report_id),
    }
    &&& match edits.mod_edit {
        Some(e) => {
            &&& v.has_mod_view(report_id)
            &&& e.channel_id == Some(v.mod_view_for(report_id).channel_id)
            &&& e.message_id == v.mod_view_for(report_id).message_id
            &&& e.status_label@ == v.report_for(report_id).status.spec_label()
            &&& e.status_color == v.report_for(report_id).status.spec_color()
        },
        None => !v.has_mod_view(report_id),
    }
}

/// Re-renders both views of a report in place after a mutation: records
/// the report's current status on the reporter-facing pointer and
/// computes the edit for each rendered view message.
pub fn sync_updated(db: &mut Database, report_id: u64) -> (r: Result<ViewEdits, UpdateViewError>)
    requires
        old(db)@.wf(),
    ensures
        final(db)@.wf(),
        if old(db)@.has_report(report_id) {
            &&& r matches Ok(edits) && edits_match(old(db)@, report_id, edits)
            &&& final(db)@ == (DbView {
                user_views: if old(db)@.has_user_view(report_id) {
                    old(db)@.user_views.update(
                        old(db)@.user_view_index(report_id),
                        UserViewModel {
                            status: old(db)@.report_for(report_id).status,
                            ..old(db)@.user_view_for(report_id)
                        },
                    )
                } else {
                    old(db)@.user_views
                },
                ..old(db)@
            })
            &&& old(db)@.synced_except(report_id) ==> final(db)@.synced()
        } else {
            &&& r matches Err(UpdateViewError::ReportNotFound)
            &&& final(db)@ == old(db)@
        },
{
    let status = match db.get_report(report_id) {
        Some(rep) => rep.status,
        None => {
            return Err(UpdateViewError::ReportNotFound);
        },
    };
    let uv = db.load_user_view(report_id);
    let mv = db.load_mod_view(report_id);
    db.set_user_view_status(report_id, status);
    let user_edit = match uv {
        Some(u) => Some(
            MessageEdit {
                channel_id: None,
                message_id: u.message_id,
                status_label: status.to_human_status().to_owned(),
                status_color: status.to_color(),
            },
        ),
        None => None,
    };
    let mod_edit = match mv {
        Some(m) => Some(
            MessageEdit {
                channel_id: Some(m.channel_id),
                message_id: m.message_id,
                status_label: status.to_human_status().to_owned(),
                status_color: status.to_color(),
            },
        ),
        None => None,
    };
    Ok(ViewEdits { user_edit, mod_edit })
}

/// Routes a lifecycle effect into view synchronization: a created report
/// is to be rendered fresh, a duplicate is a no-op, an updated report has
/// both of its rendered views re-rendered in place.
pub fn update_report_view(db: &mut Database, effect: MakeReportEffect) -> (r: Result<
    ViewSyncPlan,
    UpdateViewError,
>)
    requires
        old(db)@.wf(),
    ensures
        final(db)@.wf(),
        match effect {
            MakeReportEffect::Created(rep) => {
                &&& r matches Ok(p)
                &&& p matches ViewSyncPlan::Render(rr)
                &&& rr@ == rep@
                &&& final(db)@ == old(db)@
            },
            MakeReportEffect::Duplicate(_) => {
                &&& r matches Ok(p)
                &&& p matches ViewSyncPlan::Skip
                &&& final(db)@ == old(db)@
            },
            MakeReportEffect::Updated(id) => {
                if old(db)@.has_report(id) {
                    &&& r matches Ok(p)
                    &&& p matches ViewSyncPlan::Edit(edits)
                    &&& edits_match(old(db)@, id, edits)
                    &&& final(db)@ == (DbView {
                        user_views: if old(db)@.has_user_view(id) {
                            old(db)@.user_views.update(
                                old(db)@.user_view_index(id),
                                UserViewModel {
                                    status: old(db)@.report_for(id).status,
                                    ..old(db)@.user_view_for(id)
                                },
                            )
                        } else {
                            old(db)@.user_views
                        },
                        ..old(db)@
                    })
                    &&& old(db)@.synced_except(id) ==> final(db)@.synced()
                } else {
                    &&& r matches Err(UpdateViewError::ReportNotFound)
                    &&& final(db)@ == old(db)@
                }
            },
        },
{
    match effect {
        MakeReportEffect::Created(rep) => Ok(ViewSyncPlan::Render(rep)),
        MakeReportEffect::Duplicate(_) => Ok(ViewSyncPlan::Skip),
        MakeReportEffect::Updated(id) => match sync_updated(db, id) {
            Ok(edits) => Ok(ViewSyncPlan::Edit(edits)),
            Err(e) => Err(e),
        },
    }
}

} // verus!
