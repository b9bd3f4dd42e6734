use openvpn_cred_management::expiry::{
    get_expired_users, get_max_days, parse_expiry_report, parse_report_line,
};

const JAN_2020: i64 = 1577836800; // 2020-01-01 00:00:00 UTC
const JAN_2021: i64 = 1609459200; // 2021-01-01 00:00:00 UTC

#[test]
fn report_line_grammar_extracts_all_fields() {
    let f = parse_report_line("V | Serial: AB12 | Expires: 2020-01-01 00:00:00Z | CN: alice")
        .unwrap();
    assert_eq!(f.serial, "AB12");
    assert_eq!(f.date, "2020-01-01");
    assert_eq!(f.time, "00:00:00Z");
    assert_eq!(f.name, "alice");
}

#[test]
fn report_line_marker_is_optional() {
    assert!(parse_report_line("V | Serial: FF | 2020-01-01 00:00:00Z | CN: bob").is_some());
    assert!(parse_report_line("V | Serial: FF | Expired: 2020-01-01 00:00:00Z | CN: bob").is_some());
}

#[test]
fn report_line_rejects_other_statuses_and_noise() {
    assert!(parse_report_line("").is_none());
    assert!(parse_report_line("Expiring certificates:").is_none());
    assert!(parse_report_line("E | Serial: AB | Expires: 2020-01-01 00:00:00Z | CN: x").is_none());
    assert!(parse_report_line("V | Serial:  | Expires: 2020-01-01 00:00:00Z | CN: x").is_none());
    assert!(parse_report_line("V | Serial: ab12 | Expires: 2020-01-01 00:00:00Z | CN: x").is_none());
    assert!(parse_report_line("V | Serial: AB12 | Expires: 2020-01-01 00:00:00Z | CN: a b").is_none());
    assert!(parse_report_line("V | Serial: AB12 | Expires: 2020-01-01 00:00:00Z | CN: ").is_none());
}

#[test]
fn non_matching_lines_are_dropped_without_error() {
    let report = "Expiring certificates:\n\nR | Serial: 01 | Expires: 2020-01-01 00:00:00Z | CN: gone\nV | Serial: AB12 | Expires: 2020-01-01 00:00:00Z | CN: alice\n";
    let records = parse_expiry_report(report, JAN_2021);
    assert_eq!(records.len(), 1);
    assert_eq!(records[0].username.as_str(), "alice");
    assert_eq!(records[0].serial, "AB12");
    assert_eq!(records[0].expires_at, JAN_2020);
}

#[test]
fn expiry_is_strictly_before_the_evaluation_instant() {
    let report = "V | Serial: AB | Expires: 2020-01-01 00:00:00Z | CN: alice";
    assert_eq!(get_expired_users(report, JAN_2020 - 1).len(), 0);
    assert_eq!(get_expired_users(report, JAN_2020).len(), 0);
    let after = get_expired_users(report, JAN_2020 + 1);
    assert_eq!(after.len(), 1);
    assert_eq!(after[0].as_str(), "alice");
}

#[test]
fn timestamp_offset_is_honoured() {
    // 2020-01-01 00:00:00 at +01:00 is one hour before the UTC midnight.
    let report = "V | Serial: AB | Expires: 2020-01-01 00:00:00+01:00 | CN: alice";
    let records = parse_expiry_report(report, JAN_2021);
    assert_eq!(records.len(), 1);
    assert_eq!(records[0].expires_at, JAN_2020 - 3600);
}

#[test]
fn unparseable_timestamp_drops_the_line() {
    // Matches the line grammar, but the calendar rejects month 99.
    let report = "V | Serial: AB | Expires: 2020-99-01 00:00:00Z | CN: alice";
    assert_eq!(parse_expiry_report(report, JAN_2021).len(), 0);
}

#[test]
fn invalid_common_name_drops_the_line() {
    let report = "V | Serial: AB | Expires: 2020-01-01 00:00:00Z | CN: a/b";
    assert_eq!(parse_expiry_report(report, JAN_2021).len(), 0);
}

#[test]
fn carriage_returns_are_stripped_before_matching() {
    let report = "V | Serial: AB | Expires: 2020-01-01 00:00:00Z | CN: alice\r\nnoise\r\n";
    assert_eq!(parse_expiry_report(report, JAN_2021).len(), 1);
}

#[test]
fn records_keep_report_order() {
    let report = "V | Serial: 01 | Expires: 2020-01-01 00:00:00Z | CN: bob\nV | Serial: 02 | Expires: 2020-01-01 00:00:00Z | CN: alice";
    let users = get_expired_users(report, JAN_2021);
    let names: Vec<&str> = users.iter().map(|u| u.as_str()).collect();
    assert_eq!(names, vec!["bob", "alice"]);
}

#[test]
fn max_days_counts_whole_days_to_the_far_future_cutoff() {
    assert_eq!(get_max_days(1700000000), 2913220);
    assert_eq!(get_max_days(253402214400), 0);
    assert_eq!(get_max_days(253402214400 - 86400 * 10), 10);
    assert_eq!(get_max_days(253402214400 + 86401), -1);
}
