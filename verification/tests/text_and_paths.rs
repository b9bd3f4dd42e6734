use openvpn_cred_management::numstr::{i64_to_dec, u64_to_dec, usize_to_dec};
use openvpn_cred_management::paths::{parent_dir, path_join, RelativePathBuf};
use openvpn_cred_management::strutil::join_lines;
use openvpn_cred_management::username::Username;

#[test]
fn username_accepts_token_characters() {
    let u = Username::new("alice-01_X").unwrap();
    assert_eq!(u.as_str(), "alice-01_X");
    assert_eq!(u.to_text(), "alice-01_X");
}

#[test]
fn username_rejects_empty() {
    assert!(Username::new("").is_err());
}

#[test]
fn username_rejects_space() {
    assert!(Username::new("a b").is_err());
}

#[test]
fn username_rejects_non_ascii() {
    assert!(Username::new("na\u{ef}ve").is_err());
    assert!(Username::new("caf\u{e9}").is_err());
}

#[test]
fn username_equality_is_by_text() {
    let a = Username::new("bob").unwrap();
    let b = Username::new("bob").unwrap();
    let c = Username::new("carol").unwrap();
    assert!(a == b);
    assert!(a != c);
}

#[test]
fn decimal_rendering_of_unsigned() {
    assert_eq!(u64_to_dec(0), "0");
    assert_eq!(u64_to_dec(7), "7");
    assert_eq!(u64_to_dec(9876543210), "9876543210");
    assert_eq!(usize_to_dec(64), "64");
}

#[test]
fn decimal_rendering_of_signed() {
    assert_eq!(i64_to_dec(-42), "-42");
    assert_eq!(i64_to_dec(42), "42");
    assert_eq!(i64_to_dec(i64::MIN), "-9223372036854775808");
    assert_eq!(i64_to_dec(i64::MAX), "9223372036854775807");
}

#[test]
fn path_join_inserts_separator() {
    assert_eq!(path_join("a", "b"), "a/b");
    assert_eq!(path_join("/cfg", "pki"), "/cfg/pki");
}

#[test]
fn path_join_keeps_existing_separator() {
    assert_eq!(path_join("a/", "b"), "a/b");
}

#[test]
fn path_join_absolute_replaces_base() {
    assert_eq!(path_join("a", "/x"), "/x");
}

#[test]
fn path_join_empty_base() {
    assert_eq!(path_join("", "b"), "b");
}

#[test]
fn parent_dir_of_nested_subpath() {
    assert_eq!(parent_dir("creds/client.crt"), Some("creds".to_string()));
    assert_eq!(parent_dir("a/b/c"), Some("a/b".to_string()));
}

#[test]
fn parent_dir_of_bare_filename() {
    assert_eq!(parent_dir("c.pem"), None);
}

#[test]
fn relative_path_rejects_absolute() {
    assert!(RelativePathBuf::new("/etc/x".to_string()).is_err());
    let p = RelativePathBuf::new("creds/client.crt".to_string()).unwrap();
    assert_eq!(p.as_str(), "creds/client.crt");
}

#[test]
fn join_lines_inserts_newlines() {
    assert_eq!(join_lines(&vec![]), "");
    assert_eq!(join_lines(&vec!["a".to_string()]), "a");
    assert_eq!(join_lines(&vec!["a".to_string(), "b".to_string()]), "a\nb");
}
