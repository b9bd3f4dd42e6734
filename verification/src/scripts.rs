//! Post-action script runner: the decision side.
//!
//! Scriptable action kinds form a closed enumeration with a total
//! classification from actions; configuration and administrative actions are
//! deliberately not scriptable. The script map assigns each kind an ordered
//! list of script bodies; a kind without scripts is a silent no-op. Running
//! the scripts is outside work — this module decides exactly which script
//! bodies run, and in what order.

use vstd::prelude::*;

use crate::actions::Action;
use crate::config::Profile;
use crate::strutil::clone_strings;
use crate::strutil::vec_str_eq;

verus! {

/// A known action that supports custom scripting.
#[derive(Clone, Copy, Debug, PartialEq, Eq, Hash, PartialOrd, Ord, Structural)]
pub enum ScriptableActionKind {
    /// Listing users.
    UserList,
    /// Showing a user's certificate.
    UserInfo,
    /// Creating a user.
    UserNew,
    /// Revoking a user.
    UserRm,
    /// Packaging credentials for users.
    UserPkg,
}

/// The scripting kind of an action: a total classification, with nothing for
/// the actions that are deliberately not scriptable.
pub open spec fn scriptable_kind(a: Action) -> Option<ScriptableActionKind> {
    match a {
        Action::Gen { .. } => None,
        Action::Profile { .. } => None,
        Action::User { action } => Some(
            match action {
                crate::actions::UserAction::List { .. } => ScriptableActionKind::UserList,
                crate::actions::UserAction::Info { .. } => ScriptableActionKind::UserInfo,
                crate::actions::UserAction::New { .. } => ScriptableActionKind::UserNew,
                crate::actions::UserAction::Remove { .. } => ScriptableActionKind::UserRm,
                crate::actions::UserAction::Package { .. } => ScriptableActionKind::UserPkg,
            },
        ),
    }
}

/// Whether post-action scripts can be attached to `a` at all.
pub open spec fn is_scriptable(a: Action) -> bool {
    scriptable_kind(a) is Some
}

impl ScriptableActionKind {
    /// Classify an action; nothing for the actions that are not scriptable.
    pub fn of_action(a: &Action) -> (r: Option<ScriptableActionKind>)
        ensures
            r == scriptable_kind(*a),
    {
        match a {
            Action::Gen { .. } => None,
            Action::Profile { .. } => None,
            Action::User { action } => Some(
                match action {
                    crate::actions::UserAction::List { .. } => ScriptableActionKind::UserList,
                    crate::actions::UserAction::Info { .. } => ScriptableActionKind::UserInfo,
                    crate::actions::UserAction::New { .. } => ScriptableActionKind::UserNew,
                    crate::actions::UserAction::Remove { .. } => ScriptableActionKind::UserRm,
                    crate::actions::UserAction::Package { .. } => ScriptableActionKind::UserPkg,
                },
            ),
        }
    }
}

/// A map of custom scripts to be run after a particular kind of action,
/// ordered within each kind.
#[derive(Debug)]
pub struct CustomScriptsMap {
    user_list: Vec<String>,
    user_info: Vec<String>,
    user_new: Vec<String>,
    user_rm: Vec<String>,
    user_pkg: Vec<String>,
}

impl CustomScriptsMap {
    /// The scripts configured for a kind, in order.
    pub closed spec fn spec_scripts(&self, kind: ScriptableActionKind) -> Seq<Seq<char>> {
        match kind {
            ScriptableActionKind::UserList => self.user_list.deep_view(),
            ScriptableActionKind::UserInfo => self.user_info.deep_view(),
            ScriptableActionKind::UserNew => self.user_new.deep_view(),
            ScriptableActionKind::UserRm => self.user_rm.deep_view(),
            ScriptableActionKind::UserPkg => self.user_pkg.deep_view(),
        }
    }

    /// The scripts configured for `kind`, in their configured order.
    pub fn scripts_for(&self, kind: ScriptableActionKind) -> (r: &Vec<String>)
        ensures
            r.deep_view() == self.spec_scripts(kind),
    {
        match kind {
            ScriptableActionKind::UserList => &self.user_list,
            ScriptableActionKind::UserInfo => &self.user_info,
            ScriptableActionKind::UserNew => &self.user_new,
            ScriptableActionKind::UserRm => &self.user_rm,
            ScriptableActionKind::UserPkg => &self.user_pkg,
        }
    }

    /// Replace the scripts configured for `kind`.
    pub fn set_scripts(&mut self, kind: ScriptableActionKind, scripts: Vec<String>)
        ensures
            forall|k: ScriptableActionKind| #[trigger]
                final(self).spec_scripts(k) == if k == kind {
                    scripts.deep_view()
                } else {
                    old(self).spec_scripts(k)
                },
    {
        match kind {
            ScriptableActionKind::UserList => self.user_list = scripts,
            ScriptableActionKind::UserInfo => self.user_info = scripts,
            ScriptableActionKind::UserNew => self.user_new = scripts,
            ScriptableActionKind::UserRm => self.user_rm = scripts,
            ScriptableActionKind::UserPkg => self.user_pkg = scripts,
        }
    }

    /// An example map: one illustrative script after listing users.
    pub fn example() -> (r: Self)
        ensures
            r.spec_scripts(ScriptableActionKind::UserList) == seq![
                "echo 'Never play f6' >/dev/stderr"@,
            ],
            forall|k: ScriptableActionKind|
                k != ScriptableActionKind::UserList ==> #[trigger] r.spec_scripts(k)
                    == Seq::<Seq<char>>::empty(),
    {
        let mut map = CustomScriptsMap::default();
        let mut listing: Vec<String> = Vec::new();
        listing.push("echo 'Never play f6' >/dev/stderr".to_owned());
        map.set_scripts(ScriptableActionKind::UserList, listing);
        proof {
            assert(seq!["echo 'Never play f6' >/dev/stderr".view()] =~= Seq::empty().push(
                "echo 'Never play f6' >/dev/stderr"@,
            ));
        }
        map
    }

    /// Whether two maps configure the same scripts for every kind.
    pub fn same_scripts(&self, other: &CustomScriptsMap) -> (r: bool)
        ensures
            r == (forall|k: ScriptableActionKind| #[trigger] self.spec_scripts(k)
                == other.spec_scripts(k)),
    {
        let b1 = vec_str_eq(&self.user_list, &other.user_list);
        let b2 = vec_str_eq(&self.user_info, &other.user_info);
        let b3 = vec_str_eq(&self.user_new, &other.user_new);
        let b4 = vec_str_eq(&self.user_rm, &other.user_rm);
        let b5 = vec_str_eq(&self.user_pkg, &other.user_pkg);
        let r = b1 && b2 && b3 && b4 && b5;
        proof {
            if r {
                assert forall|k: ScriptableActionKind| #[trigger] self.spec_scripts(k)
                    == other.spec_scripts(k) by {
                    match k {
                        ScriptableActionKind::UserList => {},
                        ScriptableActionKind::UserInfo => {},
                        ScriptableActionKind::UserNew => {},
                        ScriptableActionKind::UserRm => {},
                        ScriptableActionKind::UserPkg => {},
                    }
                }
            } else if !b1 {
                assert(self.spec_scripts(ScriptableActionKind::UserList) != other.spec_scripts(
                    ScriptableActionKind::UserList,
                ));
            } else if !b2 {
                assert(self.spec_scripts(ScriptableActionKind::UserInfo) != other.spec_scripts(
                    ScriptableActionKind::UserInfo,
                ));
            } else if !b3 {
                assert(self.spec_scripts(ScriptableActionKind::UserNew) != other.spec_scripts(
                    ScriptableActionKind::UserNew,
                ));
            } else if !b4 {
                assert(self.spec_scripts(ScriptableActionKind::UserRm) != other.spec_scripts(
                    ScriptableActionKind::UserRm,
                ));
            } else {
                assert(self.spec_scripts(ScriptableActionKind::UserPkg) != other.spec_scripts(
                    ScriptableActionKind::UserPkg,
                ));
            }
        }
        r
    }
}

impl Default for CustomScriptsMap {
    /// A map with no scripts for any kind.
    fn default() -> (r: Self)
        ensures
            forall|k: ScriptableActionKind| #[trigger] r.spec_scripts(k) == Seq::<
                Seq<char>,
            >::empty(),
    {
        let r = CustomScriptsMap {
            user_list: Vec::new(),
            user_info: Vec::new(),
            user_new: Vec::new(),
            user_rm: Vec::new(),
            user_pkg: Vec::new(),
        };
        proof {
            assert forall|k: ScriptableActionKind| #[trigger] r.spec_scripts(k) == Seq::<
                Seq<char>,
            >::empty() by {
                assert(r.user_list.deep_view() =~= Seq::<Seq<char>>::empty());
                match k {
                    ScriptableActionKind::UserList => {},
                    ScriptableActionKind::UserInfo => {},
                    ScriptableActionKind::UserNew => {},
                    ScriptableActionKind::UserRm => {},
                    ScriptableActionKind::UserPkg => {},
                }
            }
        }
        r
    }
}

/// The script bodies to run after `action` under `profile`, strictly in their
/// configured order: none when the action is not scriptable or the profile
/// carries no script map, and the kind's list otherwise (possibly empty, a
/// silent no-op either way).
pub open spec fn spec_post_action_scripts(profile: Profile, action: Action) -> Seq<Seq<char>> {
    match scriptable_kind(action) {
        Some(kind) => match profile.post_action_scripts {
            Some(map) => map.spec_scripts(kind),
            None => Seq::empty(),
        },
        None => Seq::empty(),
    }
}

/// Decide which post-action scripts run after `action` under `profile`, and
/// in what order. The first failing script aborts the remainder; running them
/// is the caller's outside work.
pub fn post_action_scripts(profile: &Profile, action: &Action) -> (r: Vec<String>)
    ensures
        r.deep_view() == spec_post_action_scripts(*profile, *action),
{
    match ScriptableActionKind::of_action(action) {
        Some(kind) => match &profile.post_action_scripts {
            Some(map) => clone_strings(map.scripts_for(kind)),
            None => Vec::new(),
        },
        None => Vec::new(),
    }
}

} // verus!
