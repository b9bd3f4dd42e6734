use openvpn_cred_management::scan::{get_users, user_list_output};

fn strings(items: &[&str]) -> Vec<String> {
    items.iter().map(|s| s.to_string()).collect()
}

fn names(report: &openvpn_cred_management::scan::ScanReport) -> Vec<String> {
    report.users.iter().map(|u| u.as_str().to_string()).collect()
}

#[test]
fn scanner_union_is_sorted_and_deduplicated() {
    let r = get_users(&strings(&["bob", "alice", "bob"]), &strings(&["carol", "ca", "alice"]));
    assert_eq!(names(&r), strings(&["alice", "bob", "carol"]));
    assert_eq!(r.certs_without_keys, strings(&["bob"]));
    assert_eq!(r.keys_without_certs, strings(&["carol"]));
    assert!(r.rejected_stems.is_empty());
}

#[test]
fn scanner_excludes_authority_key_stem() {
    let r = get_users(&strings(&[]), &strings(&["ca"]));
    assert!(r.users.is_empty());
    assert!(r.keys_without_certs.is_empty());
}

#[test]
fn scanner_keeps_certificate_named_like_authority() {
    // Only the key-side `ca` stem is reserved; a certificate stem `ca` is a user.
    let r = get_users(&strings(&["ca"]), &strings(&[]));
    assert_eq!(names(&r), strings(&["ca"]));
    assert_eq!(r.certs_without_keys, strings(&["ca"]));
}

#[test]
fn scanner_cert_only_user_is_kept_and_warned_once() {
    let r = get_users(&strings(&["solo", "paired"]), &strings(&["paired"]));
    assert_eq!(names(&r), strings(&["paired", "solo"]));
    assert_eq!(r.certs_without_keys, strings(&["solo"]));
    assert!(r.keys_without_certs.is_empty());
}

#[test]
fn scanner_key_only_user_is_kept_and_warned_once() {
    let r = get_users(&strings(&["paired"]), &strings(&["paired", "solo"]));
    assert_eq!(names(&r), strings(&["paired", "solo"]));
    assert_eq!(r.keys_without_certs, strings(&["solo"]));
    assert!(r.certs_without_keys.is_empty());
}

#[test]
fn scanner_drops_stems_outside_the_grammar() {
    let r = get_users(&strings(&["good", "bad name"]), &strings(&[]));
    assert_eq!(names(&r), strings(&["good"]));
    assert_eq!(r.rejected_stems, strings(&["bad name"]));
}

#[test]
fn scanner_empty_directories_give_empty_report() {
    let r = get_users(&strings(&[]), &strings(&[]));
    assert!(r.users.is_empty());
    assert!(r.certs_without_keys.is_empty());
    assert!(r.keys_without_certs.is_empty());
    assert!(r.rejected_stems.is_empty());
}

#[test]
fn user_listing_is_one_name_per_line() {
    let r = get_users(&strings(&["bob", "alice"]), &strings(&[]));
    assert_eq!(user_list_output(&r.users), "alice\nbob");
}
