use report_engine::models::CorruptStatusCode;
use report_engine::models::ReportStatus;
use report_engine::text::u64_to_decimal;

#[test]
fn status_codes_round_trip() {
    let all = [
        ReportStatus::Unhandled,
        ReportStatus::Reviewing,
        ReportStatus::Accepted,
        ReportStatus::Denied,
    ];
    for (expected_code, status) in [0i64, 1, 2, 3].into_iter().zip(all.into_iter()) {
        assert_eq!(status.to_code(), expected_code);
        assert_eq!(ReportStatus::from_code(expected_code), Ok(status));
    }
}

#[test]
fn corrupt_status_code_is_a_recoverable_error() {
    assert_eq!(
        ReportStatus::from_code(9),
        Err(CorruptStatusCode { code: 9 })
    );
    assert_eq!(
        ReportStatus::from_code(-1),
        Err(CorruptStatusCode { code: -1 })
    );
}

#[test]
fn status_labels_are_exact() {
    assert_eq!(ReportStatus::Unhandled.to_human_status(), "😴 Unhandled");
    assert_eq!(ReportStatus::Reviewing.to_human_status(), "🔎 Reviewing");
    assert_eq!(ReportStatus::Accepted.to_human_status(), "✅ Accepted");
    assert_eq!(ReportStatus::Denied.to_human_status(), "❌ Denied");
}

#[test]
fn status_colors_are_exact_and_unhandled_has_none() {
    assert_eq!(ReportStatus::Unhandled.to_color(), None);
    assert_eq!(ReportStatus::Reviewing.to_color(), Some(0xADD8E6));
    assert_eq!(ReportStatus::Accepted.to_color(), Some(0x00FF00));
    assert_eq!(ReportStatus::Denied.to_color(), Some(0xFF0000));
}

#[test]
fn status_order_follows_the_lifecycle() {
    assert!(ReportStatus::Unhandled < ReportStatus::Reviewing);
    assert!(ReportStatus::Reviewing < ReportStatus::Accepted);
    assert!(ReportStatus::Accepted < ReportStatus::Denied);
}

#[test]
fn decimal_rendering_is_exact() {
    assert_eq!(u64_to_decimal(0), "0");
    assert_eq!(u64_to_decimal(7), "7");
    assert_eq!(u64_to_decimal(10), "10");
    assert_eq!(u64_to_decimal(1234567890), "1234567890");
    assert_eq!(u64_to_decimal(u64::MAX), "18446744073709551615");
}
