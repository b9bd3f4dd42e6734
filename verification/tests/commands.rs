use openvpn_cred_management::actions::{
    get_cert_path, get_key_path, new_user, regenerate_crl, remove_user, show_expire_command,
    UserActionError,
};
use openvpn_cred_management::config::{Config, Profile};
use openvpn_cred_management::username::Username;

const NOW: i64 = 1700000000;

fn test_config() -> Config {
    Config {
        easy_rsa_path: "/usr/bin/easyrsa".to_string(),
        default_profile: None,
        profiles: vec![],
    }
}

fn test_profile() -> Profile {
    Profile {
        name: "prof".to_string(),
        easy_rsa_pki_dir: "pki".to_string(),
        packaging: None,
        post_action_scripts: None,
    }
}

fn users(names: &[&str]) -> Vec<Username> {
    names.iter().map(|n| Username::new(n).unwrap()).collect()
}

#[test]
fn new_user_builds_one_command_per_user() {
    let cmds = new_user(
        "/cfg",
        &test_config(),
        &test_profile(),
        &users(&["alice", "bob"]),
        Some(7),
        true,
        &users(&[]),
    )
    .unwrap();
    assert_eq!(cmds.len(), 2);
    assert_eq!(cmds[0].program, "/usr/bin/easyrsa");
    assert_eq!(
        cmds[0].args,
        vec!["--batch", "--pki-dir=/cfg/pki", "--no-pass", "--days=7", "build-client-full", "alice"],
    );
    assert_eq!(
        cmds[1].args,
        vec!["--batch", "--pki-dir=/cfg/pki", "--no-pass", "--days=7", "build-client-full", "bob"],
    );
}

#[test]
fn new_user_without_flags_has_minimal_arguments() {
    let cmds = new_user(
        "/cfg",
        &test_config(),
        &test_profile(),
        &users(&["alice"]),
        None,
        false,
        &users(&[]),
    )
    .unwrap();
    assert_eq!(cmds[0].args, vec!["--pki-dir=/cfg/pki", "--no-pass", "build-client-full", "alice"]);
}

#[test]
fn new_user_rejects_an_existing_user() {
    let r = new_user(
        "/cfg",
        &test_config(),
        &test_profile(),
        &users(&["bob", "alice"]),
        None,
        false,
        &users(&["alice"]),
    );
    match r {
        Err(UserActionError::AlreadyKnown { username }) => assert_eq!(username, "alice"),
        other => panic!("expected an already-known error, got {:?}", other),
    }
}

#[test]
fn remove_user_builds_revocations_then_crl_update() {
    let cmds = remove_user(
        "/cfg",
        &test_config(),
        &test_profile(),
        &users(&["alice"]),
        true,
        false,
        NOW,
        &users(&["alice", "bob"]),
    )
    .unwrap();
    assert_eq!(cmds.len(), 2);
    assert_eq!(cmds[0].args, vec!["--pki-dir=/cfg/pki", "revoke", "alice"]);
    assert_eq!(cmds[1].args, vec!["--pki-dir=/cfg/pki", "--days=2913220", "gen-crl"]);
}

#[test]
fn remove_user_without_crl_update() {
    let cmds = remove_user(
        "/cfg",
        &test_config(),
        &test_profile(),
        &users(&["alice"]),
        false,
        true,
        NOW,
        &users(&["alice"]),
    )
    .unwrap();
    assert_eq!(cmds.len(), 1);
    assert_eq!(cmds[0].args, vec!["--batch", "--pki-dir=/cfg/pki", "revoke", "alice"]);
}

#[test]
fn remove_user_rejects_an_unknown_user() {
    let r = remove_user(
        "/cfg",
        &test_config(),
        &test_profile(),
        &users(&["ghost"]),
        false,
        false,
        NOW,
        &users(&["alice"]),
    );
    match r {
        Err(UserActionError::NotKnown { username }) => assert_eq!(username, "ghost"),
        other => panic!("expected a not-known error, got {:?}", other),
    }
}

#[test]
fn crl_regeneration_command() {
    let cmd = regenerate_crl("/cfg", &test_config(), &test_profile(), true, NOW);
    assert_eq!(cmd.program, "/usr/bin/easyrsa");
    assert_eq!(cmd.args, vec!["--batch", "--pki-dir=/cfg/pki", "--days=2913220", "gen-crl"]);
}

#[test]
fn expiry_report_command() {
    let cmd = show_expire_command("/cfg", &test_config(), &test_profile(), NOW);
    assert_eq!(cmd.args, vec!["--pki-dir=/cfg/pki", "--days=2913220", "show-expire"]);
}

#[test]
fn credential_paths_follow_the_fixed_layout() {
    let alice = Username::new("alice").unwrap();
    assert_eq!(get_cert_path("/cfg", &test_profile(), &alice), "/cfg/pki/issued/alice.crt");
    assert_eq!(get_key_path("/cfg", &test_profile(), &alice), "/cfg/pki/private/alice.key");
}
