//! The report lifecycle engine: creation with precondition checks and
//! deduplication, and the two targeted mutations, each followed by view
//! synchronization.
//!
//! The engine decides; the caller performs the platform I/O the decision
//! calls for: sending the private notices, rendering fresh views,
//! applying the in-place edits.

use vstd::prelude::*;

use crate::database::Database;
use crate::database::DbView;
use crate::database::ReportUpdateError;
use crate::database::lemma_mod_view_lookup_unique;
use crate::database::lemma_report_lookup_unique;
use crate::database::lemma_user_view_lookup_unique;
use crate::database::opt_str_view;
use crate::database::spec_patch;
use crate::models::MakeReportEffect;
use crate::models::ReportModel;
use crate::models::ReportStatus;
use crate::models::ReportView;
use crate::text::spec_decimal;
use crate::text::u64_to_decimal;
use crate::view::UpdateViewError;
use crate::view::ViewEdits;
use crate::view::ViewSyncPlan;
use crate::view::edits_match;
use crate::view::update_report_view;

verus! {

/// Errors a lifecycle operation surfaces to its caller.  The two
/// short-circuit conditions (protected accused, duplicate report) are
/// deliberately not here: they resolve successfully with a private notice
/// instead.
#[derive(Clone, Debug)]
pub enum MakeReportError {
    /// The community has no stored configuration: a setup error.
    UnconfiguredServer,
    /// An underlying storage fault; the text names the cause.
    SqlError(String),
    /// A chat-platform call fault; the text names the cause.
    DiscordError(String),
    /// View synchronization failed; prior writes are not rolled back.
    ViewError(UpdateViewError),
    /// A targeted report update failed.
    UpdateError(ReportUpdateError),
}

/// A private notice for one user, ready to deliver.
pub struct Notice {
    pub target_user_id: u64,
    pub title: String,
    pub body: String,
}

/// Successful outcome of a submission, telling the caller what to do on
/// the platform.
pub enum SubmitOutcome {
    /// The accused is protected here: nothing was persisted; deliver the
    /// notice privately to the acting user.
    Protected(Notice),
    /// The same message was already reported: nothing was persisted;
    /// deliver the notice privately to the acting user.
    Duplicate { existing_id: u64, notice: Notice },
    /// A new report was created: render both views for it (then record
    /// them with `save_user_view` / `save_mod_view`).
    Created(ReportModel),
}

/// How a user is mentioned in message text.
pub open spec fn spec_mention(user_id: u64) -> Seq<char> {
    "<@"@ + spec_decimal(user_id as nat) + ">"@
}

/// Body of the notice sent when the accused is protected.
pub open spec fn spec_protected_notice_body(reported_user_id: u64) -> Seq<char> {
    "This user ("@ + spec_mention(reported_user_id)
        + ") is protected on this server - you cannot report them"@
}

/// Body of the notice sent when the report is a duplicate.
pub open spec fn spec_duplicate_notice_body(report_id: u64) -> Seq<char> {
    "You have already submitted a report for this message (ID: "@ + spec_decimal(
        report_id as nat,
    ) + ")"@
}

fn protected_notice(accuser_user_id: u64, reported_user_id: u64) -> (n: Notice)
    ensures
        n.target_user_id == accuser_user_id,
        n.title@ == "Protected User"@,
        n.body@ == spec_protected_notice_body(reported_user_id),
{
    let mut body = "This user (".to_owned();
    body.append("<@");
    body.append(u64_to_decimal(reported_user_id).as_str());
    body.append(">");
    body.append(") is protected on this server - you cannot report them");
    Notice { target_user_id: accuser_user_id, title: "Protected User".to_owned(), body }
}

fn duplicate_notice(accuser_user_id: u64, existing_id: u64) -> (n: Notice)
    ensures
        n.target_user_id == accuser_user_id,
        n.title@ == "Duplicate Report"@,
        n.body@ == spec_duplicate_notice_body(existing_id),
{
    let mut body = "You have already submitted a report for this message (ID: ".to_owned();
    body.append(u64_to_decimal(existing_id).as_str());
    body.append(")");
    Notice { target_user_id: accuser_user_id, title: "Duplicate Report".to_owned(), body }
}

/// The origin reference actually stored: a report references a message
/// only when both the channel and the message id were supplied.
pub open spec fn spec_origin(channel_id: Option<u64>, message_id: Option<u64>) -> (
    Option<u64>,
    Option<u64>,
) {
    match (channel_id, message_id) {
        (Some(c), Some(m)) => (Some(c), Some(m)),
        _ => (None, None),
    }
}

/// Submits a report.  In order:
/// - an unconfigured community fails with `UnconfiguredServer` before
///   anything is persisted or any notice produced;
/// - a protected accused short-circuits successfully: nothing persisted,
///   one private notice for the acting user;
/// - a submission referencing an already reported message short-circuits
///   successfully with the existing report's id and a private notice;
/// - otherwise a fresh report is created, status `Unhandled`, and the
///   caller renders its views.
pub fn make_report(
    db: &mut Database,
    guild_id: u64,
    accuser_user_id: u64,
    reported_user_id: u64,
    reported_channel_id: Option<u64>,
    reported_message_id: Option<u64>,
    report_reason: Option<String>,
) -> (r: Result<SubmitOutcome, MakeReportError>)
    requires
        old(db)@.wf(),
        old(db)@.next_id < u64::MAX,
    ensures
        final(db)@.wf(),
        old(db)@.synced() ==> final(db)@.synced(),
        !old(db)@.is_configured(guild_id) ==> final(db)@ == old(db)@ && r matches Err(
            MakeReportError::UnconfiguredServer,
        ),
        old(db)@.is_configured(guild_id) && old(db)@.is_protected(guild_id, reported_user_id)
            ==> final(db)@ == old(db)@ && (r matches Ok(o) && o matches SubmitOutcome::Protected(n)
            && n.target_user_id == accuser_user_id && n.title@ == "Protected User"@ && n.body@
            == spec_protected_notice_body(reported_user_id)),
        (old(db)@.is_configured(guild_id) && !old(db)@.is_protected(guild_id, reported_user_id))
            ==> match old(db)@.dup_of(
            guild_id,
            reported_user_id,
            spec_origin(reported_channel_id, reported_message_id).1,
        ) {
            Some(id) => {
                &&& final(db)@ == old(db)@
                &&& r matches Ok(o)
                &&& o matches SubmitOutcome::Duplicate { existing_id, notice }
                &&& existing_id == id
                &&& notice.target_user_id == accuser_user_id
                &&& notice.title@ == "Duplicate Report"@
                &&& notice.body@ == spec_duplicate_notice_body(id)
            },
            None => {
                &&& r matches Ok(o)
                &&& o matches SubmitOutcome::Created(rep)
                &&& rep@ == (ReportView {
                    id: old(db)@.next_id,
                    accuser_user_id,
                    reported_user_id,
                    guild_id,
                    status: ReportStatus::Unhandled,
                    channel_id: spec_origin(reported_channel_id, reported_message_id).0,
                    message_id: spec_origin(reported_channel_id, reported_message_id).1,
                    reason: opt_str_view(report_reason),
                })
                &&& final(db)@ == (DbView {
                    reports: old(db)@.reports.push(rep@),
                    next_id: (old(db)@.next_id + 1) as u64,
                    ..old(db)@
                })
            },
        },
{
    // Before anything else, the community must be configured.
    if !db.has_server_config(guild_id) {
        return Err(MakeReportError::UnconfiguredServer);
    }
    if db.load_protected_user(guild_id, reported_user_id) {
        // No error surfaced to the shared context: resolve successfully,
        // and tell the acting user privately.
        return Ok(SubmitOutcome::Protected(protected_notice(accuser_user_id, reported_user_id)));
    }
    let (channel_ref, message_ref): (Option<u64>, Option<u64>) = match (
        reported_channel_id,
        reported_message_id,
    ) {
        (Some(c), Some(m)) => (Some(c), Some(m)),
        _ => (None, None),
    };
    let effect = db.make_report(
        guild_id,
        accuser_user_id,
        reported_user_id,
        channel_ref,
        message_ref,
        report_reason,
    );
    if let MakeReportEffect::Duplicate(id) = effect {
        // Again no error surfaced: the existing report's id goes privately
        // to the acting user.
        return Ok(
            SubmitOutcome::Duplicate {
                existing_id: id,
                notice: duplicate_notice(accuser_user_id, id),
            },
        );
    }
    match update_report_view(db, effect) {
        Ok(ViewSyncPlan::Render(rep)) => Ok(SubmitOutcome::Created(rep)),
        _ => {
            proof {
                assert(false);
            }
            Err(MakeReportError::ViewError(UpdateViewError::ReportNotFound))
        },
    }
}

/// Changes only the reason of a report, then re-renders both of its
/// views; the status, and so the presentation the edits show, stays what
/// it was.  Fails with `UpdateError` exactly when no report has the id.
pub fn update_report_reason(db: &mut Database, report_id: u64, reason: String) -> (r: Result<
    ViewEdits,
    MakeReportError,
>)
    requires
        old(db)@.wf(),
    ensures
        final(db)@.wf(),
        old(db)@.synced() ==> final(db)@.synced(),
        if old(db)@.has_report(report_id) {
            &&& r matches Ok(edits)
            &&& edits_match(final(db)@, report_id, edits)
            &&& final(db)@.has_report(report_id)
            &&& final(db)@.report_for(report_id) == spec_patch(
                old(db)@.report_for(report_id),
                Some(reason@),
                None,
            )
            &&& final(db)@.report_for(report_id).status == old(db)@.report_for(report_id).status
            &&& final(db)@.reports.len() == old(db)@.reports.len()
            &&& final(db)@.mod_views == old(db)@.mod_views
            &&& final(db)@.configured == old(db)@.configured
            &&& final(db)@.protected == old(db)@.protected
            &&& final(db)@.next_id == old(db)@.next_id
        } else {
            &&& r matches Err(MakeReportError::UpdateError(ReportUpdateError::ReportNotFound))
            &&& final(db)@ == old(db)@
        },
{
    update_report_fields(db, report_id, Some(reason), None)
}

/// Changes only the status of a report, then re-renders both of its views
/// with the new status's label and color; the stored reason is untouched.
/// Fails with `UpdateError` exactly when no report has the id.
pub fn update_report_status(db: &mut Database, report_id: u64, status: ReportStatus) -> (r: Result<
    ViewEdits,
    MakeReportError,
>)
    requires
        old(db)@.wf(),
    ensures
        final(db)@.wf(),
        old(db)@.synced() ==> final(db)@.synced(),
        if old(db)@.has_report(report_id) {
            &&& r matches Ok(edits)
            &&& edits_match(final(db)@, report_id, edits)
            &&& final(db)@.has_report(report_id)
            &&& final(db)@.report_for(report_id) == spec_patch(
                old(db)@.report_for(report_id),
                None,
                Some(status),
            )
            &&& final(db)@.report_for(report_id).status == status
            &&& final(db)@.report_for(report_id).reason == old(db)@.report_for(report_id).reason
            &&& final(db)@.reports.len() == old(db)@.reports.len()
            &&& final(db)@.mod_views == old(db)@.mod_views
            &&& final(db)@.configured == old(db)@.configured
            &&& final(db)@.protected == old(db)@.protected
            &&& final(db)@.next_id == old(db)@.next_id
        } else {
            &&& r matches Err(MakeReportError::UpdateError(ReportUpdateError::ReportNotFound))
            &&& final(db)@ == old(db)@
        },
{
    update_report_fields(db, report_id, None, Some(status))
}

/// Shared shape of the two mutation entry points: the targeted field
/// update, then view synchronization with `Updated`.
fn update_report_fields(
    db: &mut Database,
    report_id: u64,
    reason: Option<String>,
    status: Option<ReportStatus>,
) -> (r: Result<ViewEdits, MakeReportError>)
    requires
        old(db)@.wf(),
    ensures
        final(db)@.wf(),
        old(db)@.synced() ==> final(db)@.synced(),
        if old(db)@.has_report(report_id) {
            &&& r matches Ok(edits)
            &&& edits_match(final(db)@, report_id, edits)
            &&& final(db)@.has_report(report_id)
            &&& final(db)@.report_for(report_id) == spec_patch(
                old(db)@.report_for(report_id),
                opt_str_view(reason),
                status,
            )
            &&& final(db)@.reports.len() == old(db)@.reports.len()
            &&& final(db)@.mod_views == old(db)@.mod_views
            &&& final(db)@.configured == old(db)@.configured
            &&& final(db)@.protected == old(db)@.protected
            &&& final(db)@.next_id == old(db)@.next_id
        } else {
            &&& r matches Err(MakeReportError::UpdateError(ReportUpdateError::ReportNotFound))
            &&& final(db)@ == old(db)@
        },
{
    let ghost v0 = old(db)@;
    match db.update_report(report_id, reason, status) {
        Ok(()) => (),
        Err(e) => {
            return Err(MakeReportError::UpdateError(e));
        },
    }
    let ghost v1 = db@;
    proof {
        let idx = v0.report_index(report_id);
        assert(0 <= idx < v0.reports.len() && v0.reports[idx].id == report_id);
        assert(v1.reports[idx].id == report_id);
        lemma_report_lookup_unique(v1, idx, report_id);
    }
    match update_report_view(db, MakeReportEffect::Updated(report_id)) {
        Ok(ViewSyncPlan::Edit(edits)) => {
            proof {
                let idx = v0.report_index(report_id);
                lemma_report_lookup_unique(v1, idx, report_id);
                assert(db@.reports == v1.reports);
                lemma_report_lookup_unique(db@, idx, report_id);
                if v1.has_user_view(report_id) {
                    let u = v1.user_view_index(report_id);
                    assert(0 <= u < v1.user_views.len() && v1.user_views[u].report_id
                        == report_id);
                    assert(db@.user_views[u].report_id == report_id);
                    lemma_user_view_lookup_unique(db@, u, report_id);
                }
                if v1.has_mod_view(report_id) {
                    let mvi = v1.mod_view_index(report_id);
                    assert(0 <= mvi < v1.mod_views.len() && v1.mod_views[mvi].report_id
                        == report_id);
                    lemma_mod_view_lookup_unique(db@, mvi, report_id);
                }
            }
            Ok(edits)
        },
        _ => {
            proof {
                assert(false);
            }
            Err(MakeReportError::ViewError(UpdateViewError::ReportNotFound))
        },
    }
}

} // verus!
