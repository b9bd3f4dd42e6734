use openvpn_cred_management::config::{Packaging, Profile};
use openvpn_cred_management::package::{
    apply_plan_model, archive_entries, package, write_archive, ArchiveFile, FileEntry,
    PackageError, PackagePlan,
};
use openvpn_cred_management::paths::RelativePathBuf;
use openvpn_cred_management::username::Username;

fn users(names: &[&str]) -> Vec<Username> {
    names.iter().map(|n| Username::new(n).unwrap()).collect()
}

fn packaging_profile() -> Profile {
    Profile {
        name: "prof".to_string(),
        easy_rsa_pki_dir: "pki".to_string(),
        packaging: Some(Packaging {
            skel_dir: "skel".to_string(),
            skel_map_scripts: vec!["s1".to_string(), "s2".to_string()],
            cert_subpath: RelativePathBuf::new("c.pem".to_string()).unwrap(),
            key_subpath: RelativePathBuf::new("k.pem".to_string()).unwrap(),
        }),
        post_action_scripts: None,
    }
}

fn plan_for(usernames: &[&str], force: bool) -> PackagePlan {
    package(
        "/cfg",
        &packaging_profile(),
        &users(usernames),
        false,
        "/out",
        force,
        false,
        &users(&["alice", "bob"]),
    )
    .unwrap()
}

fn file(path: &str, data: &str) -> FileEntry {
    FileEntry { path: path.to_string(), data: data.as_bytes().to_vec() }
}

fn alice_pki() -> Vec<FileEntry> {
    vec![
        file("/cfg/pki/issued/alice.crt", "CERT-ALICE"),
        file("/cfg/pki/private/alice.key", "KEY-ALICE"),
    ]
}

#[test]
fn package_rejects_batch_with_unknown_user() {
    // The whole batch dies before anything is staged: no plan, no archive.
    let r = package(
        "/cfg",
        &packaging_profile(),
        &users(&["alice", "ghost"]),
        false,
        "/out",
        false,
        false,
        &users(&["alice"]),
    );
    match r {
        Err(PackageError::UnknownUser { username }) => assert_eq!(username, "ghost"),
        other => panic!("expected an unknown-user error, got {:?}", other),
    }
}

#[test]
fn package_rejects_duplicate_request() {
    let r = package(
        "/cfg",
        &packaging_profile(),
        &users(&["alice", "alice"]),
        false,
        "/out",
        false,
        false,
        &users(&["alice"]),
    );
    match r {
        Err(PackageError::DuplicateUser { username }) => assert_eq!(username, "alice"),
        other => panic!("expected a duplicate-user error, got {:?}", other),
    }
}

#[test]
fn package_requires_a_packaging_section() {
    let mut profile = packaging_profile();
    profile.packaging = None;
    let r = package("/cfg", &profile, &users(&["alice"]), false, "/out", false, false, &users(
        &["alice"],
    ));
    match r {
        Err(PackageError::NoPackagingSection { profile }) => assert_eq!(profile, "prof"),
        other => panic!("expected a missing-section error, got {:?}", other),
    }
}

#[test]
fn plan_fixes_paths_scripts_and_names() {
    let plan = plan_for(&["alice"], false);
    assert_eq!(plan.skel_dir, "/cfg/skel");
    // Transform scripts keep their configured order.
    assert_eq!(plan.scripts, vec!["s1", "s2"]);
    assert!(!plan.allow_overwrite);
    assert!(!plan.keep_temp);
    assert_eq!(plan.users.len(), 1);
    let u = &plan.users[0];
    assert_eq!(u.username.as_str(), "alice");
    assert_eq!(u.cert_source, "/cfg/pki/issued/alice.crt");
    assert_eq!(u.key_source, "/cfg/pki/private/alice.key");
    assert_eq!(u.cert_subpath, "c.pem");
    assert_eq!(u.key_subpath, "k.pem");
    assert_eq!(u.cert_parent, None);
    assert_eq!(u.key_parent, None);
    assert_eq!(u.archive_name, "alice.zip");
    assert_eq!(u.output_path, "/out/alice.zip");
}

#[test]
fn plan_prefix_flag_changes_archive_names() {
    let plan = package(
        "/cfg",
        &packaging_profile(),
        &users(&["alice"]),
        true,
        "/out",
        false,
        false,
        &users(&["alice"]),
    )
    .unwrap();
    assert_eq!(plan.users[0].archive_name, "prof-alice.zip");
    assert_eq!(plan.users[0].output_path, "/out/prof-alice.zip");
}

#[test]
fn plan_computes_intermediate_directories() {
    let mut profile = packaging_profile();
    profile.packaging.as_mut().unwrap().cert_subpath =
        RelativePathBuf::new("creds/client.crt".to_string()).unwrap();
    let plan = package("/cfg", &profile, &users(&["alice"]), false, "/out", false, false, &users(
        &["alice"],
    ))
    .unwrap();
    assert_eq!(plan.users[0].cert_parent, Some("creds".to_string()));
    assert_eq!(plan.users[0].key_parent, None);
}

#[test]
fn archive_holds_skeleton_plus_credentials() {
    let skel = vec![file("a.txt", "hi")];
    let entries = archive_entries(
        &skel,
        "c.pem",
        &"CERT-ALICE".as_bytes().to_vec(),
        "k.pem",
        &"KEY-ALICE".as_bytes().to_vec(),
    );
    assert_eq!(entries.len(), 3);
    assert_eq!(entries[0].path, "a.txt");
    assert_eq!(entries[0].data, b"hi");
    assert_eq!(entries[1].path, "c.pem");
    assert_eq!(entries[1].data, b"CERT-ALICE");
    assert_eq!(entries[2].path, "k.pem");
    assert_eq!(entries[2].data, b"KEY-ALICE");
}

#[test]
fn credentials_replace_colliding_skeleton_files() {
    let skel = vec![file("a.txt", "hi"), file("c.pem", "placeholder")];
    let entries = archive_entries(
        &skel,
        "c.pem",
        &"REAL".as_bytes().to_vec(),
        "k.pem",
        &"KEY".as_bytes().to_vec(),
    );
    assert_eq!(entries.len(), 3);
    assert_eq!(entries[0].path, "a.txt");
    assert_eq!(entries[1].path, "c.pem");
    assert_eq!(entries[1].data, b"REAL");
}

#[test]
fn applied_plan_produces_one_archive_with_exactly_three_entries() {
    let plan = plan_for(&["alice"], false);
    let skel = vec![file("a.txt", "hi")];
    let mut output: Vec<ArchiveFile> = vec![];
    apply_plan_model(&plan, &skel, &alice_pki(), &mut output).unwrap();
    assert_eq!(output.len(), 1);
    assert_eq!(output[0].name, "alice.zip");
    let e = &output[0].entries;
    assert_eq!(e.len(), 3);
    assert_eq!((e[0].path.as_str(), e[0].data.as_slice()), ("a.txt", "hi".as_bytes()));
    assert_eq!((e[1].path.as_str(), e[1].data.as_slice()), ("c.pem", "CERT-ALICE".as_bytes()));
    assert_eq!((e[2].path.as_str(), e[2].data.as_slice()), ("k.pem", "KEY-ALICE".as_bytes()));
}

#[test]
fn existing_archive_is_refused_and_left_unchanged() {
    let plan = plan_for(&["alice"], false);
    let skel = vec![file("a.txt", "hi")];
    let mut output = vec![ArchiveFile {
        name: "alice.zip".to_string(),
        entries: vec![file("old.txt", "old-bytes")],
    }];
    let r = apply_plan_model(&plan, &skel, &alice_pki(), &mut output);
    match r {
        Err(PackageError::ArchiveExists { name }) => assert_eq!(name, "alice.zip"),
        other => panic!("expected an already-exists error, got {:?}", other),
    }
    // The pre-existing archive is byte-for-byte unchanged.
    assert_eq!(output.len(), 1);
    assert_eq!(output[0].entries.len(), 1);
    assert_eq!(output[0].entries[0].path, "old.txt");
    assert_eq!(output[0].entries[0].data, b"old-bytes");
}

#[test]
fn overwrite_flag_replaces_an_existing_archive() {
    let plan = plan_for(&["alice"], true);
    let skel = vec![file("a.txt", "hi")];
    let mut output = vec![ArchiveFile {
        name: "alice.zip".to_string(),
        entries: vec![file("old.txt", "old")],
    }];
    apply_plan_model(&plan, &skel, &alice_pki(), &mut output).unwrap();
    assert_eq!(output.len(), 1);
    assert_eq!(output[0].entries.len(), 3);
}

#[test]
fn missing_credential_aborts_and_names_the_file() {
    let plan = plan_for(&["alice"], false);
    let skel = vec![file("a.txt", "hi")];
    let pki = vec![file("/cfg/pki/issued/alice.crt", "CERT-ALICE")];
    let mut output: Vec<ArchiveFile> = vec![];
    match apply_plan_model(&plan, &skel, &pki, &mut output) {
        Err(PackageError::MissingKey { username, path }) => {
            assert_eq!(username, "alice");
            assert_eq!(path, "/cfg/pki/private/alice.key");
        },
        other => panic!("expected a missing-key error, got {:?}", other),
    }
    assert!(output.is_empty());
}

#[test]
fn failure_partway_keeps_only_completed_archives() {
    let plan = plan_for(&["alice", "bob"], false);
    let skel = vec![file("a.txt", "hi")];
    // bob's key is missing: alice's archive is delivered, bob's is not.
    let mut pki = alice_pki();
    pki.push(file("/cfg/pki/issued/bob.crt", "CERT-BOB"));
    let mut output: Vec<ArchiveFile> = vec![];
    let r = apply_plan_model(&plan, &skel, &pki, &mut output);
    assert!(matches!(r, Err(PackageError::MissingKey { .. })));
    assert_eq!(output.len(), 1);
    assert_eq!(output[0].name, "alice.zip");
}

#[test]
fn write_archive_appends_fresh_names() {
    let mut output: Vec<ArchiveFile> = vec![];
    write_archive(&mut output, "x.zip", vec![file("f", "1")], false).unwrap();
    write_archive(&mut output, "y.zip", vec![file("f", "2")], false).unwrap();
    assert_eq!(output.len(), 2);
    assert_eq!(output[0].name, "x.zip");
    assert_eq!(output[1].name, "y.zip");
    let refused = write_archive(&mut output, "x.zip", vec![file("f", "3")], false);
    assert!(matches!(refused, Err(PackageError::ArchiveExists { .. })));
    assert_eq!(output[0].entries[0].data, b"1");
}
