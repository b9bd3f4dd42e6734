use openvpn_cred_management::actions::{Action, ProfileAction, UserAction};
use openvpn_cred_management::config::{list_profiles, Config, Profile, ProfileError};
use openvpn_cred_management::scripts::{
    post_action_scripts, CustomScriptsMap, ScriptableActionKind,
};
use openvpn_cred_management::username::Username;

fn plain_profile(name: &str) -> Profile {
    Profile {
        name: name.to_string(),
        easy_rsa_pki_dir: "pki".to_string(),
        packaging: None,
        post_action_scripts: None,
    }
}

fn config_with(profiles: Vec<Profile>, default: Option<&str>) -> Config {
    Config {
        easy_rsa_path: "/usr/bin/easyrsa".to_string(),
        default_profile: default.map(|s| s.to_string()),
        profiles,
    }
}

#[test]
fn get_profile_by_requested_name() {
    let c = config_with(vec![plain_profile("one"), plain_profile("two")], None);
    let p = c.get_profile(Some("two")).unwrap();
    assert_eq!(p.name, "two");
}

#[test]
fn get_profile_falls_back_to_default() {
    let c = config_with(vec![plain_profile("one"), plain_profile("two")], Some("one"));
    let p = c.get_profile(None).unwrap();
    assert_eq!(p.name, "one");
}

#[test]
fn get_profile_without_any_selection_fails() {
    let c = config_with(vec![plain_profile("one")], None);
    assert!(matches!(c.get_profile(None), Err(ProfileError::NoneSpecified)));
}

#[test]
fn get_profile_unknown_name_fails() {
    let c = config_with(vec![plain_profile("one")], None);
    match c.get_profile(Some("ghost")) {
        Err(ProfileError::NotFound { name }) => assert_eq!(name, "ghost"),
        other => panic!("expected a not-found error, got {:?}", other),
    }
}

#[test]
fn validate_requires_default_to_resolve() {
    let good = config_with(vec![plain_profile("a")], Some("a"));
    assert!(good.validate());
    let bad = config_with(vec![plain_profile("a")], Some("b"));
    assert!(!bad.validate());
    let absent = config_with(vec![plain_profile("a")], None);
    assert!(absent.validate());
}

#[test]
fn example_config_is_complete_and_valid() {
    let c = Config::example();
    assert_eq!(c.easy_rsa_path, "/usr/share/easy-rsa/3/easyrsa");
    assert_eq!(c.default_profile.as_deref(), Some("example"));
    assert_eq!(c.profiles.len(), 1);
    let p = &c.profiles[0];
    assert_eq!(p.name, "example");
    assert_eq!(p.easy_rsa_pki_dir, "/etc/openvpn/server/example.auth.d/");
    let pk = p.packaging.as_ref().unwrap();
    assert_eq!(pk.skel_dir, "skel/example/");
    assert_eq!(pk.skel_map_scripts.len(), 2);
    assert_eq!(pk.cert_subpath.as_str(), "creds/client.crt");
    assert_eq!(pk.key_subpath.as_str(), "creds/client.key");
    assert!(p.post_action_scripts.is_some());
    assert!(c.validate());
}

#[test]
fn profile_listing_marks_active_and_default() {
    let c = config_with(vec![plain_profile("one"), plain_profile("two")], Some("two"));
    let active = plain_profile("one");
    assert_eq!(list_profiles(&c, &active), "one (active)\ntwo (default)");
    let both = plain_profile("two");
    assert_eq!(list_profiles(&c, &both), "one\ntwo (active, default)");
}

#[test]
fn scriptable_kind_classifies_user_actions() {
    let list = Action::User { action: UserAction::List { only_expired: false } };
    assert_eq!(ScriptableActionKind::of_action(&list), Some(ScriptableActionKind::UserList));
    let info = Action::User {
        action: UserAction::Info { usernames: vec![Username::new("a").unwrap()] },
    };
    assert_eq!(ScriptableActionKind::of_action(&info), Some(ScriptableActionKind::UserInfo));
    let new = Action::User {
        action: UserAction::New { usernames: vec![Username::new("a").unwrap()], days: None },
    };
    assert_eq!(ScriptableActionKind::of_action(&new), Some(ScriptableActionKind::UserNew));
    let rm = Action::User {
        action: UserAction::Remove {
            usernames: vec![Username::new("a").unwrap()],
            no_update_crl: false,
        },
    };
    assert_eq!(ScriptableActionKind::of_action(&rm), Some(ScriptableActionKind::UserRm));
    let pkg = Action::User {
        action: UserAction::Package {
            usernames: vec![Username::new("a").unwrap()],
            add_prefix: false,
            output_dir: None,
            keep_temp: false,
        },
    };
    assert_eq!(ScriptableActionKind::of_action(&pkg), Some(ScriptableActionKind::UserPkg));
}

#[test]
fn administrative_actions_are_not_scriptable() {
    let profile_list = Action::Profile { action: ProfileAction::List };
    assert_eq!(ScriptableActionKind::of_action(&profile_list), None);
    let gen = Action::Gen { action: openvpn_cred_management::actions::GenAction::Config };
    assert_eq!(ScriptableActionKind::of_action(&gen), None);
}

#[test]
fn post_action_scripts_come_in_configured_order() {
    let mut map = CustomScriptsMap::default();
    map.set_scripts(
        ScriptableActionKind::UserPkg,
        vec!["first".to_string(), "second".to_string()],
    );
    let mut profile = plain_profile("p");
    profile.post_action_scripts = Some(map);
    let pkg = Action::User {
        action: UserAction::Package {
            usernames: vec![Username::new("a").unwrap()],
            add_prefix: false,
            output_dir: None,
            keep_temp: false,
        },
    };
    assert_eq!(post_action_scripts(&profile, &pkg), vec!["first", "second"]);
    // A kind with no scripts is a silent no-op.
    let new = Action::User {
        action: UserAction::New { usernames: vec![Username::new("a").unwrap()], days: None },
    };
    assert!(post_action_scripts(&profile, &new).is_empty());
}

#[test]
fn post_action_scripts_without_a_map_are_empty() {
    let profile = plain_profile("p");
    let list = Action::User { action: UserAction::List { only_expired: false } };
    assert!(post_action_scripts(&profile, &list).is_empty());
}

#[test]
fn post_action_scripts_for_unscriptable_action_are_empty() {
    let mut map = CustomScriptsMap::default();
    map.set_scripts(ScriptableActionKind::UserList, vec!["x".to_string()]);
    let mut profile = plain_profile("p");
    profile.post_action_scripts = Some(map);
    let action = Action::Profile { action: ProfileAction::List };
    assert!(post_action_scripts(&profile, &action).is_empty());
}

#[test]
fn example_script_map_has_one_listing_script() {
    let map = CustomScriptsMap::example();
    assert_eq!(
        map.scripts_for(ScriptableActionKind::UserList),
        &vec!["echo 'Never play f6' >/dev/stderr".to_string()],
    );
    assert!(map.scripts_for(ScriptableActionKind::UserPkg).is_empty());
}
