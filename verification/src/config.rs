//! Configuration model: profiles, packaging settings and the whole
//! configuration, with the pure logic that selects and lists profiles.
//! Loading the configuration from disk and annotating it are outside work;
//! they hand this module plain values.

use vstd::prelude::*;

use crate::paths::{is_absolute_path, RelativePathBuf};
use crate::scripts::{CustomScriptsMap, ScriptableActionKind};
use crate::strutil::{spec_join_lines, str_compare, vec_str_eq, StrOrder};

verus! {

/// Options for building per-user packages.
#[derive(Debug)]
pub struct Packaging {
    /// The skeleton directory that holds the files included in every package,
    /// resolved against the configuration directory when relative. Symlinks
    /// inside it are followed.
    pub skel_dir: String,
    /// Scripts run on a temporary copy of the skeleton, in order, before it
    /// is used; the skeleton itself stays unchanged.
    pub skel_map_scripts: Vec<String>,
    /// The subpath within the package for the user's certificate.
    pub cert_subpath: RelativePathBuf,
    /// The subpath within the package for the user's key.
    pub key_subpath: RelativePathBuf,
}

impl Packaging {
    /// The type's invariant: both subpaths are relative.
    pub open spec fn wf(&self) -> bool {
        self.cert_subpath.wf() && self.key_subpath.wf()
    }
}

/// Whether two packaging sections read the same.
pub open spec fn packaging_eq(a: Packaging, b: Packaging) -> bool {
    a.skel_dir@ == b.skel_dir@ && a.skel_map_scripts.deep_view() == b.skel_map_scripts.deep_view()
        && a.cert_subpath@ == b.cert_subpath@ && a.key_subpath@ == b.key_subpath@
}

/// A single profile.
#[derive(Debug)]
pub struct Profile {
    /// The identifier of the profile.
    pub name: String,
    /// The PKI directory of the external tool, resolved against the
    /// configuration directory when relative.
    pub easy_rsa_pki_dir: String,
    /// Packaging settings, if the profile supports packaging.
    pub packaging: Option<Packaging>,
    /// Scripts run after an action, per kind of action.
    pub post_action_scripts: Option<CustomScriptsMap>,
}

impl Profile {
    /// The type's invariant.
    pub open spec fn wf(&self) -> bool {
        self.packaging matches Some(p) ==> p.wf()
    }
}

/// Whether two profiles read the same.
pub open spec fn profile_eq(a: Profile, b: Profile) -> bool {
    &&& a.name@ == b.name@
    &&& a.easy_rsa_pki_dir@ == b.easy_rsa_pki_dir@
    &&& (match (a.packaging, b.packaging) {
        (Some(pa), Some(pb)) => packaging_eq(pa, pb),
        (None, None) => true,
        _ => false,
    })
    &&& (match (a.post_action_scripts, b.post_action_scripts) {
        (Some(ma), Some(mb)) => forall|k: ScriptableActionKind| #[trigger]
            ma.spec_scripts(k) == mb.spec_scripts(k),
        (None, None) => true,
        _ => false,
    })
}

/// Whether two packaging sections read the same.
pub fn packaging_matches(a: &Packaging, b: &Packaging) -> (r: bool)
    ensures
        r == packaging_eq(*a, *b),
{
    let n1 = str_compare(a.skel_dir.as_str(), b.skel_dir.as_str()) == StrOrder::Equal;
    let n2 = vec_str_eq(&a.skel_map_scripts, &b.skel_map_scripts);
    let n3 = str_compare(a.cert_subpath.as_str(), b.cert_subpath.as_str()) == StrOrder::Equal;
    let n4 = str_compare(a.key_subpath.as_str(), b.key_subpath.as_str()) == StrOrder::Equal;
    n1 && n2 && n3 && n4
}

/// Whether two profiles read the same.
pub fn profile_matches(a: &Profile, b: &Profile) -> (r: bool)
    ensures
        r == profile_eq(*a, *b),
{
    let n1 = str_compare(a.name.as_str(), b.name.as_str()) == StrOrder::Equal;
    let n2 = str_compare(a.easy_rsa_pki_dir.as_str(), b.easy_rsa_pki_dir.as_str())
        == StrOrder::Equal;
    let n3 = match (&a.packaging, &b.packaging) {
        (Some(pa), Some(pb)) => packaging_matches(pa, pb),
        (None, None) => true,
        _ => false,
    };
    let n4 = match (&a.post_action_scripts, &b.post_action_scripts) {
        (Some(ma), Some(mb)) => ma.same_scripts(mb),
        (None, None) => true,
        _ => false,
    };
    n1 && n2 && n3 && n4
}

/// The whole configuration.
#[derive(Debug)]
pub struct Config {
    /// The path of the external PKI tool's executable.
    pub easy_rsa_path: String,
    /// The name of the profile to operate on when none is requested.
    pub default_profile: Option<String>,
    /// The known profiles.
    pub profiles: Vec<Profile>,
}

/// Why no profile could be selected.
#[derive(Debug)]
pub enum ProfileError {
    /// No profile was requested and the configuration names no default.
    NoneSpecified,
    /// No profile carries the selected name.
    NotFound {
        /// The name that was looked for.
        name: String,
    },
}

impl Config {
    /// The type's invariant.
    pub open spec fn wf(&self) -> bool {
        forall|i: int| 0 <= i < self.profiles@.len() ==> (#[trigger] self.profiles@[i]).wf()
    }

    /// The configuration names no default profile, or that default exists.
    pub open spec fn default_profile_resolves(&self) -> bool {
        self.default_profile matches Some(d) ==> exists|i: int|
            0 <= i < self.profiles@.len() && (#[trigger] self.profiles@[i]).name@ == d@
    }

    /// Check that a named default profile references a known profile; a
    /// configuration that fails this is rejected on load.
    pub fn validate(&self) -> (r: bool)
        ensures
            r == self.default_profile_resolves(),
    {
        match &self.default_profile {
            None => true,
            Some(d) => {
                let n = self.profiles.len();
                let mut i: usize = 0;
                while i < n
                    invariant
                        n == self.profiles.len(),
                        0 <= i <= n,
                        self.default_profile == Some(*d),
                        forall|j: int| 0 <= j < i ==> (#[trigger] self.profiles@[j]).name@ != d@,
                    decreases n - i,
                {
                    if self.profiles[i].name == *d {
                        proof {
                            assert((self.profiles@[i as int]).name@ == d@);
                        }
                        return true;
                    }
                    i += 1;
                }
                false
            },
        }
    }

    /// The profile name a request selects: the requested one, or the
    /// configured default.
    pub open spec fn selected_name(&self, requested: Option<Seq<char>>) -> Option<Seq<char>> {
        match requested {
            Some(n) => Some(n),
            None => match self.default_profile {
                Some(d) => Some(d@),
                None => None,
            },
        }
    }

    /// Select a profile: the requested name, or the configured default. The
    /// first profile carrying the name wins; no name at all, or a name no
    /// profile carries, is an error.
    pub fn get_profile(&self, name: Option<&str>) -> (r: Result<&Profile, ProfileError>)
        ensures
            r is Ok <==> (self.selected_name(
                match name {
                    Some(n) => Some(n@),
                    None => None,
                },
            ) matches Some(sel) && (exists|i: int|
                0 <= i < self.profiles@.len() && (#[trigger] self.profiles@[i]).name@ == sel)),
            r matches Ok(p) ==> ({
                let sel = self.selected_name(
                    match name {
                        Some(n) => Some(n@),
                        None => None,
                    },
                ).unwrap();
                exists|i: int|
                    0 <= i < self.profiles@.len() && *p == #[trigger] self.profiles@[i]
                        && p.name@ == sel && (forall|j: int|
                        0 <= j < i ==> (#[trigger] self.profiles@[j]).name@ != sel)
            }),
            r matches Err(ProfileError::NoneSpecified) <==> (name is None
                && self.default_profile is None),
            r matches Err(ProfileError::NotFound { name: t }) ==> (self.selected_name(
                match name {
                    Some(n) => Some(n@),
                    None => None,
                },
            ) == Some(t@) && (forall|i: int|
                0 <= i < self.profiles@.len() ==> (#[trigger] self.profiles@[i]).name@ != t@)),
    {
        let sel: &str = match name {
            Some(n) => n,
            None => match &self.default_profile {
                Some(d) => d.as_str(),
                None => {
                    return Err(ProfileError::NoneSpecified);
                },
            },
        };
        let n = self.profiles.len();
        let mut i: usize = 0;
        while i < n
            invariant
                n == self.profiles.len(),
                0 <= i <= n,
                self.selected_name(
                    match name {
                        Some(n) => Some(n@),
                        None => None,
                    },
                ) == Some(sel@),
                forall|j: int| 0 <= j < i ==> (#[trigger] self.profiles@[j]).name@ != sel@,
            decreases n - i,
        {
            if str_compare(self.profiles[i].name.as_str(), sel) == StrOrder::Equal {
                proof {
                    assert((self.profiles@[i as int]).name@ == sel@);
                }
                return Ok(&self.profiles[i]);
            }
            i += 1;
        }
        Err(ProfileError::NotFound { name: sel.to_owned() })
    }

    /// An example configuration, ready to be annotated and written out. The
    /// executable path is the most common install location; the caller may
    /// probe the filesystem and substitute another.
    pub fn example() -> (r: Config)
        ensures
            r.easy_rsa_path@ == "/usr/share/easy-rsa/3/easyrsa"@,
            r.default_profile matches Some(d) && d@ == "example"@,
            r.profiles@.len() == 1,
            r.profiles@[0].name@ == "example"@,
            r.profiles@[0].easy_rsa_pki_dir@ == "/etc/openvpn/server/example.auth.d/"@,
            r.profiles@[0].packaging matches Some(p) && p.skel_dir@ == "skel/example/"@
                && p.skel_map_scripts.deep_view() == seq![
                "echo \"You can apply custom transforms to your skeleton directory\""@,
                "echo \"before they are used to create user packages\""@,
            ] && p.cert_subpath@ == "creds/client.crt"@ && p.key_subpath@ == "creds/client.key"@,
            r.profiles@[0].post_action_scripts matches Some(m) && m.spec_scripts(
                ScriptableActionKind::UserList,
            ) == seq!["echo 'Never play f6' >/dev/stderr"@] && (forall|k: ScriptableActionKind|
                k != ScriptableActionKind::UserList ==> #[trigger] m.spec_scripts(k) == Seq::<
                    Seq<char>,
                >::empty()),
            r.wf(),
            r.default_profile_resolves(),
    {
        let mut skel_map_scripts: Vec<String> = Vec::new();
        skel_map_scripts.push(
            "echo \"You can apply custom transforms to your skeleton directory\"".to_owned(),
        );
        skel_map_scripts.push("echo \"before they are used to create user packages\"".to_owned());
        proof {
            reveal_strlit("creds/client.crt");
            reveal_strlit("creds/client.key");
            assert(!is_absolute_path("creds/client.crt"@));
            assert(!is_absolute_path("creds/client.key"@));
        }
        let packaging = Packaging {
            skel_dir: "skel/example/".to_owned(),
            skel_map_scripts,
            cert_subpath: RelativePathBuf::from_relative("creds/client.crt".to_owned()),
            key_subpath: RelativePathBuf::from_relative("creds/client.key".to_owned()),
        };
        let profile = Profile {
            name: "example".to_owned(),
            easy_rsa_pki_dir: "/etc/openvpn/server/example.auth.d/".to_owned(),
            packaging: Some(packaging),
            post_action_scripts: Some(CustomScriptsMap::example()),
        };
        let mut profiles: Vec<Profile> = Vec::new();
        profiles.push(profile);
        let r = Config {
            easy_rsa_path: "/usr/share/easy-rsa/3/easyrsa".to_owned(),
            default_profile: Some("example".to_owned()),
            profiles,
        };
        proof {
            assert(r.profiles@[0].packaging matches Some(p) ==> p.skel_map_scripts.deep_view()
                =~= seq![
                "echo \"You can apply custom transforms to your skeleton directory\""@,
                "echo \"before they are used to create user packages\""@,
            ]);
        }
        r
    }
}

/// The label a profile gets in a listing: its name, marked when it is the
/// active profile and when it is the configured default.
pub open spec fn spec_profile_label(p: Profile, active: Profile, default_name: Option<Seq<char>>) -> Seq<
    char,
> {
    let is_active = profile_eq(p, active);
    let is_default = default_name matches Some(d) && p.name@ == d;
    if is_active && is_default {
        p.name@ + " (active, default)"@
    } else if is_active {
        p.name@ + " (active)"@
    } else if is_default {
        p.name@ + " (default)"@
    } else {
        p.name@
    }
}

/// The profile listing: one label per profile, in configuration order.
pub open spec fn spec_profile_labels(
    profiles: Seq<Profile>,
    active: Profile,
    default_name: Option<Seq<char>>,
) -> Seq<Seq<char>> {
    profiles.map_values(|p: Profile| spec_profile_label(p, active, default_name))
}

/// List all profiles, one per line in configuration order, marking the active
/// one and the configured default.
pub fn list_profiles(config: &Config, active: &Profile) -> (r: String)
    ensures
        r@ == spec_join_lines(
            spec_profile_labels(config.profiles@, *active, config.default_profile.deep_view()),
        ),
{
    let n = config.profiles.len();
    let mut labels: Vec<String> = Vec::new();
    let mut i: usize = 0;
    while i < n
        invariant
            n == config.profiles.len(),
            0 <= i <= n,
            labels.deep_view() =~= spec_profile_labels(
                config.profiles@.take(i as int),
                *active,
                config.default_profile.deep_view(),
            ),
        decreases n - i,
    {
        let p = &config.profiles[i];
        let is_active = profile_matches(p, active);
        let is_default = match &config.default_profile {
            Some(d) => str_compare(p.name.as_str(), d.as_str()) == StrOrder::Equal,
            None => false,
        };
        let mut label = p.name.clone();
        if is_active && is_default {
            label.append(" (active, default)");
        } else if is_active {
            label.append(" (active)");
        } else if is_default {
            label.append(" (default)");
        }
        let ghost pre = labels.deep_view();
        labels.push(label);
        proof {
            assert(labels.deep_view() =~= pre.push(label@));
            assert(label@ == spec_profile_label(
                config.profiles@[i as int],
                *active,
                config.default_profile.deep_view(),
            ));
            assert(spec_profile_labels(
                config.profiles@.take(i + 1 as int),
                *active,
                config.default_profile.deep_view(),
            ) =~= pre.push(label@));
        }
        i += 1;
    }
    proof {
        assert(config.profiles@.take(n as int) =~= config.profiles@);
    }
    crate::strutil::join_lines(&labels)
}

} // verus!
