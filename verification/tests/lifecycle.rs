use report_engine::database::Database;
use report_engine::database::ReportUpdateError;
use report_engine::models::MakeReportEffect;
use report_engine::models::ReportModel;
use report_engine::models::ReportStatus;
use report_engine::services::make_report;
use report_engine::services::update_report_reason;
use report_engine::services::update_report_status;
use report_engine::services::MakeReportError;
use report_engine::services::SubmitOutcome;
use report_engine::view::update_report_view;
use report_engine::view::UpdateViewError;
use report_engine::view::ViewSyncPlan;

const GUILD: u64 = 1;
const ACCUSER: u64 = 10;
const ACCUSED: u64 = 2;

fn configured_db() -> Database {
    let mut db = Database::new();
    db.save_server_configuration(GUILD);
    db
}

fn created_id(r: Result<SubmitOutcome, MakeReportError>) -> u64 {
    match r {
        Ok(SubmitOutcome::Created(rep)) => rep.id,
        other => panic!("expected a created report, got {:?}", discriminant_name(&other)),
    }
}

fn discriminant_name(r: &Result<SubmitOutcome, MakeReportError>) -> &'static str {
    match r {
        Ok(SubmitOutcome::Created(_)) => "Created",
        Ok(SubmitOutcome::Duplicate { .. }) => "Duplicate",
        Ok(SubmitOutcome::Protected(_)) => "Protected",
        Err(_) => "Err",
    }
}

#[test]
fn resubmitting_the_same_message_is_a_duplicate() {
    let mut db = configured_db();
    let first = make_report(
        &mut db,
        GUILD,
        ACCUSER,
        ACCUSED,
        Some(55),
        Some(99),
        Some("spam".to_string()),
    );
    assert_eq!(created_id(first), 1);

    // Any accuser, same (community, accused, message): the existing id
    // comes back and no new row is created.
    let second = make_report(&mut db, GUILD, 11, ACCUSED, Some(55), Some(99), None);
    match second {
        Ok(SubmitOutcome::Duplicate { existing_id, notice }) => {
            assert_eq!(existing_id, 1);
            assert_eq!(notice.target_user_id, 11);
            assert_eq!(notice.title, "Duplicate Report");
            assert_eq!(
                notice.body,
                "You have already submitted a report for this message (ID: 1)"
            );
        }
        other => panic!("expected a duplicate, got {}", discriminant_name(&other)),
    }
    assert!(db.get_report(1).is_some());
    assert!(db.get_report(2).is_none());
}

#[test]
fn reports_without_a_message_are_never_deduplicated() {
    let mut db = configured_db();
    for expected_id in 1..=3u64 {
        let r = make_report(&mut db, GUILD, ACCUSER, ACCUSED, None, None, None);
        assert_eq!(created_id(r), expected_id);
    }
    assert!(db.get_report(1).is_some());
    assert!(db.get_report(2).is_some());
    assert!(db.get_report(3).is_some());
}

#[test]
fn protected_accused_short_circuits_with_one_notice() {
    let mut db = configured_db();
    db.set_protected_user(GUILD, ACCUSED);
    let r = make_report(&mut db, GUILD, ACCUSER, ACCUSED, Some(55), Some(99), None);
    match r {
        Ok(SubmitOutcome::Protected(notice)) => {
            assert_eq!(notice.target_user_id, ACCUSER);
            assert_eq!(notice.title, "Protected User");
            assert_eq!(
                notice.body,
                "This user (<@2>) is protected on this server - you cannot report them"
            );
        }
        other => panic!("expected protected, got {}", discriminant_name(&other)),
    }
    // Zero persisted rows.
    assert!(db.get_report(1).is_none());
}

#[test]
fn unconfigured_server_fails_before_anything_happens() {
    let mut db = Database::new();
    let r = make_report(&mut db, GUILD, ACCUSER, ACCUSED, Some(55), Some(99), None);
    assert!(matches!(r, Err(MakeReportError::UnconfiguredServer)));
    assert!(db.get_report(1).is_none());
}

#[test]
fn update_reason_changes_only_the_reason() {
    let mut db = configured_db();
    let id = created_id(make_report(
        &mut db,
        GUILD,
        ACCUSER,
        ACCUSED,
        Some(55),
        Some(99),
        None,
    ));
    db.save_user_view(id, 500).unwrap();
    db.save_mod_view(id, 600, 601, 7).unwrap();

    let edits = update_report_reason(&mut db, id, "spam".to_string()).unwrap();

    let rep = db.get_report(id).unwrap();
    assert_eq!(rep.reason.as_deref(), Some("spam"));
    assert_eq!(rep.status, ReportStatus::Unhandled);

    // Both views re-rendered with the same presentation as before.
    let user_edit = edits.user_edit.unwrap();
    assert_eq!(user_edit.channel_id, None);
    assert_eq!(user_edit.message_id, 500);
    assert_eq!(user_edit.status_label, "😴 Unhandled");
    assert_eq!(user_edit.status_color, None);
    let mod_edit = edits.mod_edit.unwrap();
    assert_eq!(mod_edit.channel_id, Some(600));
    assert_eq!(mod_edit.message_id, 601);
    assert_eq!(mod_edit.status_label, "😴 Unhandled");
    assert_eq!(mod_edit.status_color, None);
}

#[test]
fn update_status_changes_both_views_and_keeps_the_reason() {
    let mut db = configured_db();
    let id = created_id(make_report(
        &mut db,
        GUILD,
        ACCUSER,
        ACCUSED,
        Some(55),
        Some(99),
        Some("abc".to_string()),
    ));
    db.save_user_view(id, 500).unwrap();
    db.save_mod_view(id, 600, 601, 7).unwrap();

    let edits = update_report_status(&mut db, id, ReportStatus::Accepted).unwrap();

    let rep = db.get_report(id).unwrap();
    assert_eq!(rep.status, ReportStatus::Accepted);
    assert_eq!(rep.reason.as_deref(), Some("abc"));

    let user_edit = edits.user_edit.unwrap();
    assert_eq!(user_edit.status_label, "✅ Accepted");
    assert_eq!(user_edit.status_color, Some(0x00FF00));
    let mod_edit = edits.mod_edit.unwrap();
    assert_eq!(mod_edit.status_label, "✅ Accepted");
    assert_eq!(mod_edit.status_color, Some(0x00FF00));
}

#[test]
fn permalink_is_exact_and_never_partial() {
    let with_message = ReportModel {
        id: 1,
        accuser_user_id: ACCUSER,
        reported_user_id: ACCUSED,
        guild_id: 1,
        status: ReportStatus::Unhandled,
        channel_id: Some(55),
        message_id: Some(99),
        reason: None,
    };
    assert_eq!(
        with_message.url().as_deref(),
        Some("https://discord.com/channels/1/55/99")
    );

    let without_message = ReportModel {
        channel_id: None,
        message_id: None,
        ..with_message
    };
    assert_eq!(without_message.url(), None);
}

#[test]
fn created_report_carries_the_submission() {
    let mut db = configured_db();
    let r = make_report(
        &mut db,
        GUILD,
        ACCUSER,
        ACCUSED,
        Some(55),
        Some(99),
        Some("rude".to_string()),
    );
    match r {
        Ok(SubmitOutcome::Created(rep)) => {
            assert_eq!(rep.id, 1);
            assert_eq!(rep.accuser_user_id, ACCUSER);
            assert_eq!(rep.reported_user_id, ACCUSED);
            assert_eq!(rep.guild_id, GUILD);
            assert_eq!(rep.status, ReportStatus::Unhandled);
            assert_eq!(rep.channel_id, Some(55));
            assert_eq!(rep.message_id, Some(99));
            assert_eq!(rep.reason.as_deref(), Some("rude"));
        }
        other => panic!("expected created, got {}", discriminant_name(&other)),
    }
}

#[test]
fn partial_origin_reference_stores_no_origin() {
    let mut db = configured_db();
    let r = make_report(&mut db, GUILD, ACCUSER, ACCUSED, Some(55), None, None);
    match r {
        Ok(SubmitOutcome::Created(rep)) => {
            assert_eq!(rep.channel_id, None);
            assert_eq!(rep.message_id, None);
            assert_eq!(rep.url(), None);
        }
        other => panic!("expected created, got {}", discriminant_name(&other)),
    }
}

#[test]
fn updating_an_unknown_report_fails() {
    let mut db = configured_db();
    let r = update_report_reason(&mut db, 42, "spam".to_string());
    assert!(matches!(
        r,
        Err(MakeReportError::UpdateError(ReportUpdateError::ReportNotFound))
    ));
    let r = update_report_status(&mut db, 42, ReportStatus::Denied);
    assert!(matches!(
        r,
        Err(MakeReportError::UpdateError(ReportUpdateError::ReportNotFound))
    ));
    assert!(matches!(
        db.update_report(42, None, None),
        Err(ReportUpdateError::ReportNotFound)
    ));
}

#[test]
fn view_sync_routes_each_effect() {
    let mut db = configured_db();
    let id = created_id(make_report(&mut db, GUILD, ACCUSER, ACCUSED, None, None, None));

    // A created report is rendered fresh.
    let rep = db.get_report(id).unwrap().clone();
    match update_report_view(&mut db, MakeReportEffect::Created(rep)) {
        Ok(ViewSyncPlan::Render(rr)) => assert_eq!(rr.id, id),
        _ => panic!("expected a render plan"),
    }

    // A duplicate is a no-op.
    assert!(matches!(
        update_report_view(&mut db, MakeReportEffect::Duplicate(id)),
        Ok(ViewSyncPlan::Skip)
    ));

    // An update of a report with no rendered views edits nothing, but
    // succeeds: a missing view never blocks the operation.
    match update_report_view(&mut db, MakeReportEffect::Updated(id)) {
        Ok(ViewSyncPlan::Edit(edits)) => {
            assert!(edits.user_edit.is_none());
            assert!(edits.mod_edit.is_none());
        }
        _ => panic!("expected an edit plan"),
    }

    // An update of an unknown report is the one view-sync error.
    assert!(matches!(
        update_report_view(&mut db, MakeReportEffect::Updated(777)),
        Err(UpdateViewError::ReportNotFound)
    ));
}

#[test]
fn saving_a_view_twice_replaces_the_pointer() {
    let mut db = configured_db();
    let id = created_id(make_report(&mut db, GUILD, ACCUSER, ACCUSED, None, None, None));
    db.save_user_view(id, 500).unwrap();
    db.save_user_view(id, 501).unwrap();
    let uv = db.load_user_view(id).unwrap();
    assert_eq!(uv.message_id, 501);
    assert_eq!(uv.status, ReportStatus::Unhandled);

    db.save_mod_view(id, 600, 601, 7).unwrap();
    db.save_mod_view(id, 600, 602, 8).unwrap();
    let mv = db.load_mod_view(id).unwrap();
    assert_eq!(mv.message_id, 602);
    assert_eq!(mv.preview_archive_id, 8);
    assert_eq!(mv.handler, None);

    // Saving a view for an unknown report fails.
    assert!(matches!(
        db.save_user_view(999, 1),
        Err(ReportUpdateError::ReportNotFound)
    ));
    assert!(matches!(
        db.save_mod_view(999, 1, 2, 3),
        Err(ReportUpdateError::ReportNotFound)
    ));
}

#[test]
fn views_track_the_status_through_mutations() {
    let mut db = configured_db();
    let id = created_id(make_report(&mut db, GUILD, ACCUSER, ACCUSED, None, None, None));
    db.save_user_view(id, 500).unwrap();

    update_report_status(&mut db, id, ReportStatus::Reviewing).unwrap();
    assert_eq!(db.load_user_view(id).unwrap().status, ReportStatus::Reviewing);

    // Any jump is allowed, including reverting a decision.
    update_report_status(&mut db, id, ReportStatus::Denied).unwrap();
    assert_eq!(db.load_user_view(id).unwrap().status, ReportStatus::Denied);
    update_report_status(&mut db, id, ReportStatus::Unhandled).unwrap();
    assert_eq!(db.load_user_view(id).unwrap().status, ReportStatus::Unhandled);
}

#[test]
fn dedup_key_is_per_community_and_accused() {
    let mut db = configured_db();
    db.save_server_configuration(3);
    let first = created_id(make_report(&mut db, GUILD, ACCUSER, ACCUSED, Some(55), Some(99), None));
    assert_eq!(first, 1);
    // Same message id in another community: a distinct report.
    let other_guild = created_id(make_report(&mut db, 3, ACCUSER, ACCUSED, Some(55), Some(99), None));
    assert_eq!(other_guild, 2);
    // Same community and message, another accused: a distinct report.
    let other_accused = created_id(make_report(&mut db, GUILD, ACCUSER, 4, Some(55), Some(99), None));
    assert_eq!(other_accused, 3);
}
