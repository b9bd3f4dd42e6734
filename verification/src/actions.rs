//! Actions on the credential store: the decision and assembly side.
//!
//! Write actions are carried out by the external PKI tool; this module
//! validates the request against the known-user set and assembles the exact
//! subprocess command lines, in order. Running them — and aborting the batch
//! on the first non-zero exit — is the caller's outside work.

use vstd::prelude::*;

use crate::config::{Config, Profile};
use crate::expiry::{div_trunc, FAR_FUTURE_EPOCH_SECS};
use crate::numstr::{i64_to_dec, spec_dec_int, spec_dec_nat, usize_to_dec};
use crate::paths::{path_join, spec_path_join};
use crate::username::{vec_contains_username, Username};

verus! {

/// All supported generate actions.
#[derive(Debug)]
pub enum GenAction {
    /// Generate shell completion; the shell may be named or left to detection.
    Completion {
        /// The shell to generate completion for.
        shell: Option<String>,
    },
    /// Initialise a config file.
    Config,
}

/// All supported profile actions.
#[derive(Debug)]
pub enum ProfileAction {
    /// List all known profiles.
    List,
}

/// All supported user actions.
#[derive(Debug)]
pub enum UserAction {
    /// List all certificates, with optional filtering.
    List {
        /// Only show expired certificates.
        only_expired: bool,
    },
    /// Show info of specific users' certificates.
    Info {
        /// The usernames of the certificates to show.
        usernames: Vec<Username>,
    },
    /// Generate a certificate for new users.
    New {
        /// The usernames of the certificates to generate.
        usernames: Vec<Username>,
        /// The number of days the certificates stay valid.
        days: Option<usize>,
    },
    /// Revoke the certificates of existing users.
    Remove {
        /// The usernames of the users to revoke.
        usernames: Vec<Username>,
        /// Do not regenerate the revocation list afterwards.
        no_update_crl: bool,
    },
    /// Create redistributable packages for the specified users.
    Package {
        /// The usernames of the users to package for.
        usernames: Vec<Username>,
        /// Add the profile name as a prefix to the package name.
        add_prefix: bool,
        /// Output directory; the current working directory when absent.
        output_dir: Option<String>,
        /// Keep temporary intermediate artifacts instead of deleting them.
        keep_temp: bool,
    },
}

/// All supported actions, grouped into categories.
#[derive(Debug)]
pub enum Action {
    /// Generate artefacts like completion scripts and config files.
    Gen {
        /// Which artefact to generate.
        action: GenAction,
    },
    /// Operations on profiles.
    Profile {
        /// The profile operation.
        action: ProfileAction,
    },
    /// Operations on users.
    User {
        /// The user operation.
        action: UserAction,
    },
}

/// One subprocess invocation of the external PKI tool: a program and its
/// arguments, in order.
#[derive(Debug)]
pub struct Command {
    /// The program to invoke.
    pub program: String,
    /// The arguments, in order.
    pub args: Vec<String>,
}

impl View for Command {
    type V = (Seq<char>, Seq<Seq<char>>);

    open spec fn view(&self) -> (Seq<char>, Seq<Seq<char>>) {
        (self.program@, self.args.deep_view())
    }
}

impl DeepView for Command {
    type V = (Seq<char>, Seq<Seq<char>>);

    open spec fn deep_view(&self) -> (Seq<char>, Seq<Seq<char>>) {
        self.view()
    }
}

/// The `--pki-dir=<path>` argument.
pub open spec fn spec_pki_dir_arg(pki_dir: Seq<char>) -> Seq<char> {
    "--pki-dir="@ + pki_dir
}

/// The `--days=<n>` argument.
pub open spec fn spec_days_arg(days: int) -> Seq<char> {
    "--days="@ + spec_dec_int(days)
}

/// The optional `--batch` argument that suppresses the tool's confirmations.
pub open spec fn spec_force_args(force: bool) -> Seq<Seq<char>> {
    if force {
        seq!["--batch"@]
    } else {
        Seq::empty()
    }
}

/// The command that issues a certificate and key for one new user.
pub open spec fn spec_build_client_cmd(
    easy_rsa: Seq<char>,
    force: bool,
    pki_dir: Seq<char>,
    days: Option<int>,
    user: Seq<char>,
) -> (Seq<char>, Seq<Seq<char>>) {
    (
        easy_rsa,
        spec_force_args(force) + seq![spec_pki_dir_arg(pki_dir), "--no-pass"@] + (match days {
            Some(d) => seq![spec_days_arg(d)],
            None => Seq::empty(),
        }) + seq!["build-client-full"@, user],
    )
}

/// The command that revokes one user's certificate.
pub open spec fn spec_revoke_cmd(
    easy_rsa: Seq<char>,
    force: bool,
    pki_dir: Seq<char>,
    user: Seq<char>,
) -> (Seq<char>, Seq<Seq<char>>) {
    (easy_rsa, spec_force_args(force) + seq![spec_pki_dir_arg(pki_dir), "revoke"@, user])
}

/// The command that regenerates the revocation list.
pub open spec fn spec_gen_crl_cmd(easy_rsa: Seq<char>, force: bool, pki_dir: Seq<char>, days: int) -> (
    Seq<char>,
    Seq<Seq<char>>,
) {
    (easy_rsa, spec_force_args(force) + seq![spec_pki_dir_arg(pki_dir), spec_days_arg(days), "gen-crl"@])
}

/// The command that prints the expiry report.
pub open spec fn spec_show_expire_cmd(easy_rsa: Seq<char>, pki_dir: Seq<char>, days: int) -> (
    Seq<char>,
    Seq<Seq<char>>,
) {
    (easy_rsa, seq![spec_pki_dir_arg(pki_dir), spec_days_arg(days), "show-expire"@])
}

/// The far-future `--days` horizon at the instant `now`.
pub open spec fn spec_max_days(now: int) -> int {
    div_trunc(FAR_FUTURE_EPOCH_SECS - now, 86400)
}

fn make_pki_dir_arg(pki_dir: &str) -> (r: String)
    ensures
        r@ == spec_pki_dir_arg(pki_dir@),
{
    let mut s = "--pki-dir=".to_owned();
    s.append(pki_dir);
    s
}

fn make_days_arg(days: i64) -> (r: String)
    ensures
        r@ == spec_days_arg(days as int),
{
    let mut s = "--days=".to_owned();
    s.append(i64_to_dec(days).as_str());
    s
}

/// Why a batch of user creations or removals was rejected.
#[derive(Debug)]
pub enum UserActionError {
    /// A requested user already exists in the profile.
    AlreadyKnown {
        /// The offending username.
        username: String,
    },
    /// A requested user does not exist in the profile.
    NotKnown {
        /// The offending username.
        username: String,
    },
}

/// Plan the creation of new users: reject the whole batch if any requested
/// user is already known, and otherwise assemble one issuing command per
/// user, in request order.
pub fn new_user(
    config_dir: &str,
    config: &Config,
    profile: &Profile,
    usernames: &Vec<Username>,
    days: Option<usize>,
    force: bool,
    known_users: &Vec<Username>,
) -> (r: Result<Vec<Command>, UserActionError>)
    ensures
        r is Ok <==> (forall|i: int|
            0 <= i < usernames@.len() ==> !known_users.deep_view().contains(
                #[trigger] usernames.deep_view()[i],
            )),
        r is Err ==> r matches Err(UserActionError::AlreadyKnown { .. }),
        r matches Err(UserActionError::AlreadyKnown { username }) ==> exists|i: int|
            0 <= i < usernames@.len() && username@ == #[trigger] usernames.deep_view()[i]
                && known_users.deep_view().contains(usernames.deep_view()[i]) && (forall|j: int|
                0 <= j < i ==> !known_users.deep_view().contains(#[trigger] usernames.deep_view()[j])),
        r matches Ok(cmds) ==> cmds.deep_view().len() == usernames@.len() && (forall|i: int|
            0 <= i < usernames@.len() ==> #[trigger] cmds.deep_view()[i] == spec_build_client_cmd(
                config.easy_rsa_path@,
                force,
                spec_path_join(config_dir@, profile.easy_rsa_pki_dir@),
                match days {
                    Some(d) => Some(d as int),
                    None => None,
                },
                usernames.deep_view()[i],
            )),
{
    let n = usernames.len();
    let mut i: usize = 0;
    while i < n
        invariant
            n == usernames.len(),
            0 <= i <= n,
            forall|j: int|
                0 <= j < i ==> !known_users.deep_view().contains(
                    #[trigger] usernames.deep_view()[j],
                ),
        decreases n - i,
    {
        if vec_contains_username(known_users, &usernames[i]) {
            proof {
                assert(usernames.deep_view()[i as int] == usernames@[i as int]@);
            }
            return Err(UserActionError::AlreadyKnown { username: usernames[i].to_text() });
        }
        i += 1;
    }
    let pki_dir = path_join(config_dir, profile.easy_rsa_pki_dir.as_str());
    let mut cmds: Vec<Command> = Vec::new();
    let mut k: usize = 0;
    while k < n
        invariant
            n == usernames.len(),
            0 <= k <= n,
            pki_dir@ == spec_path_join(config_dir@, profile.easy_rsa_pki_dir@),
            cmds.deep_view().len() == k,
            forall|i: int|
                0 <= i < k ==> #[trigger] cmds.deep_view()[i] == spec_build_client_cmd(
                    config.easy_rsa_path@,
                    force,
                    spec_path_join(config_dir@, profile.easy_rsa_pki_dir@),
                    match days {
                        Some(d) => Some(d as int),
                        None => None,
                    },
                    usernames.deep_view()[i],
                ),
        decreases n - k,
    {
        let mut args: Vec<String> = Vec::new();
        if force {
            args.push("--batch".to_owned());
        }
        args.push(make_pki_dir_arg(pki_dir.as_str()));
        args.push("--no-pass".to_owned());
        match days {
            Some(d) => args.push({
                let mut s = "--days=".to_owned();
                s.append(usize_to_dec(d).as_str());
                proof {
                    assert(spec_dec_int(d as int) == spec_dec_nat(d as nat));
                }
                s
            }),
            None => (),
        }
        args.push("build-client-full".to_owned());
        args.push(usernames[k].to_text());
        let cmd = Command { program: config.easy_rsa_path.clone(), args };
        proof {
            let expect = spec_build_client_cmd(
                config.easy_rsa_path@,
                force,
                spec_path_join(config_dir@, profile.easy_rsa_pki_dir@),
                match days {
                    Some(d) => Some(d as int),
                    None => None,
                },
                usernames.deep_view()[k as int],
            );
            assert(cmd@.1 =~= expect.1);
        }
        let ghost pre = cmds.deep_view();
        cmds.push(cmd);
        proof {
            assert(cmds.deep_view() =~= pre.push(cmd@));
        }
        k += 1;
    }
    Ok(cmds)
}

/// Plan the removal of users: reject the whole batch if any requested user is
/// unknown, and otherwise assemble one revocation command per user in request
/// order, followed by a revocation-list regeneration when requested.
pub fn remove_user(
    config_dir: &str,
    config: &Config,
    profile: &Profile,
    usernames: &Vec<Username>,
    update_crl: bool,
    force: bool,
    now: i64,
    known_users: &Vec<Username>,
) -> (r: Result<Vec<Command>, UserActionError>)
    ensures
        r is Ok <==> (forall|i: int|
            0 <= i < usernames@.len() ==> known_users.deep_view().contains(
                #[trigger] usernames.deep_view()[i],
            )),
        r is Err ==> r matches Err(UserActionError::NotKnown { .. }),
        r matches Err(UserActionError::NotKnown { username }) ==> exists|i: int|
            0 <= i < usernames@.len() && username@ == #[trigger] usernames.deep_view()[i]
                && !known_users.deep_view().contains(usernames.deep_view()[i]) && (forall|j: int|
                0 <= j < i ==> known_users.deep_view().contains(#[trigger] usernames.deep_view()[j])),
        r matches Ok(cmds) ==> ({
            let expect_len = usernames@.len() + if update_crl {
                1int
            } else {
                0int
            };
            &&& cmds.deep_view().len() == expect_len
            &&& (forall|i: int|
                0 <= i < usernames@.len() ==> #[trigger] cmds.deep_view()[i] == spec_revoke_cmd(
                    config.easy_rsa_path@,
                    force,
                    spec_path_join(config_dir@, profile.easy_rsa_pki_dir@),
                    usernames.deep_view()[i],
                ))
            &&& (update_crl ==> cmds.deep_view().last() == spec_gen_crl_cmd(
                config.easy_rsa_path@,
                force,
                spec_path_join(config_dir@, profile.easy_rsa_pki_dir@),
                spec_max_days(now as int),
            ))
        }),
{
    let n = usernames.len();
    let mut i: usize = 0;
    while i < n
        invariant
            n == usernames.len(),
            0 <= i <= n,
            forall|j: int|
                0 <= j < i ==> known_users.deep_view().contains(#[trigger] usernames.deep_view()[j]),
        decreases n - i,
    {
        if !vec_contains_username(known_users, &usernames[i]) {
            proof {
                assert(usernames.deep_view()[i as int] == usernames@[i as int]@);
            }
            return Err(UserActionError::NotKnown { username: usernames[i].to_text() });
        }
        i += 1;
    }
    let pki_dir = path_join(config_dir, profile.easy_rsa_pki_dir.as_str());
    let mut cmds: Vec<Command> = Vec::new();
    let mut k: usize = 0;
    while k < n
        invariant
            n == usernames.len(),
            0 <= k <= n,
            pki_dir@ == spec_path_join(config_dir@, profile.easy_rsa_pki_dir@),
            cmds.deep_view().len() == k,
            forall|i: int|
                0 <= i < k ==> #[trigger] cmds.deep_view()[i] == spec_revoke_cmd(
                    config.easy_rsa_path@,
                    force,
                    spec_path_join(config_dir@, profile.easy_rsa_pki_dir@),
                    usernames.deep_view()[i],
                ),
        decreases n - k,
    {
        let mut args: Vec<String> = Vec::new();
        if force {
            args.push("--batch".to_owned());
        }
        args.push(make_pki_dir_arg(pki_dir.as_str()));
        args.push("revoke".to_owned());
        args.push(usernames[k].to_text());
        let cmd = Command { program: config.easy_rsa_path.clone(), args };
        proof {
            let expect = spec_revoke_cmd(
                config.easy_rsa_path@,
                force,
                spec_path_join(config_dir@, profile.easy_rsa_pki_dir@),
                usernames.deep_view()[k as int],
            );
            assert(cmd@.1 =~= expect.1);
        }
        let ghost pre = cmds.deep_view();
        cmds.push(cmd);
        proof {
            assert(cmds.deep_view() =~= pre.push(cmd@));
        }
        k += 1;
    }
    if update_crl {
        let crl = regenerate_crl(config_dir, config, profile, force, now);
        let ghost pre = cmds.deep_view();
        cmds.push(crl);
        proof {
            assert(cmds.deep_view() =~= pre.push(crl@));
        }
    }
    Ok(cmds)
}

/// The command that regenerates the revocation list with a practically
/// unlimited validity horizon (an expired revocation list would reject all
/// clients).
pub fn regenerate_crl(
    config_dir: &str,
    config: &Config,
    profile: &Profile,
    force: bool,
    now: i64,
) -> (r: Command)
    ensures
        r@ == spec_gen_crl_cmd(
            config.easy_rsa_path@,
            force,
            spec_path_join(config_dir@, profile.easy_rsa_pki_dir@),
            spec_max_days(now as int),
        ),
{
    let pki_dir = path_join(config_dir, profile.easy_rsa_pki_dir.as_str());
    let days = crate::expiry::get_max_days(now);
    let mut args: Vec<String> = Vec::new();
    if force {
        args.push("--batch".to_owned());
    }
    args.push(make_pki_dir_arg(pki_dir.as_str()));
    args.push(make_days_arg(days));
    args.push("gen-crl".to_owned());
    let cmd = Command { program: config.easy_rsa_path.clone(), args };
    proof {
        let expect = spec_gen_crl_cmd(
            config.easy_rsa_path@,
            force,
            spec_path_join(config_dir@, profile.easy_rsa_pki_dir@),
            spec_max_days(now as int),
        );
        assert(cmd@.1 =~= expect.1);
    }
    cmd
}

/// The command that prints the expiry report, with the far-future horizon
/// that defeats the tool's smaller default.
pub fn show_expire_command(config_dir: &str, config: &Config, profile: &Profile, now: i64) -> (r:
    Command)
    ensures
        r@ == spec_show_expire_cmd(
            config.easy_rsa_path@,
            spec_path_join(config_dir@, profile.easy_rsa_pki_dir@),
            spec_max_days(now as int),
        ),
{
    let pki_dir = path_join(config_dir, profile.easy_rsa_pki_dir.as_str());
    let days = crate::expiry::get_max_days(now);
    let mut args: Vec<String> = Vec::new();
    args.push(make_pki_dir_arg(pki_dir.as_str()));
    args.push(make_days_arg(days));
    args.push("show-expire".to_owned());
    let cmd = Command { program: config.easy_rsa_path.clone(), args };
    proof {
        let expect = spec_show_expire_cmd(
            config.easy_rsa_path@,
            spec_path_join(config_dir@, profile.easy_rsa_pki_dir@),
            spec_max_days(now as int),
        );
        assert(cmd@.1 =~= expect.1);
    }
    cmd
}

/// Where a known user's certificate must sit: `<pki_dir>/issued/<user>.crt`
/// resolved against the configuration directory.
pub open spec fn spec_cert_path(config_dir: Seq<char>, pki_dir: Seq<char>, user: Seq<char>) -> Seq<
    char,
> {
    spec_path_join(spec_path_join(spec_path_join(config_dir, pki_dir), "issued"@), user + ".crt"@)
}

/// Where a known user's key must sit: `<pki_dir>/private/<user>.key` resolved
/// against the configuration directory.
pub open spec fn spec_key_path(config_dir: Seq<char>, pki_dir: Seq<char>, user: Seq<char>) -> Seq<
    char,
> {
    spec_path_join(spec_path_join(spec_path_join(config_dir, pki_dir), "private"@), user + ".key"@)
}

/// The path of a user's certificate file; whether a file is there is the
/// caller's outside question (a missing one signals drift since scan time).
pub fn get_cert_path(config_dir: &str, profile: &Profile, username: &Username) -> (r: String)
    ensures
        r@ == spec_cert_path(config_dir@, profile.easy_rsa_pki_dir@, username@),
{
    let pki_dir = path_join(config_dir, profile.easy_rsa_pki_dir.as_str());
    let issued = path_join(pki_dir.as_str(), "issued");
    let mut file = username.to_text();
    file.append(".crt");
    path_join(issued.as_str(), file.as_str())
}

/// The path of a user's key file; whether a file is there is the caller's
/// outside question (a missing one signals drift since scan time).
pub fn get_key_path(config_dir: &str, profile: &Profile, username: &Username) -> (r: String)
    ensures
        r@ == spec_key_path(config_dir@, profile.easy_rsa_pki_dir@, username@),
{
    let pki_dir = path_join(config_dir, profile.easy_rsa_pki_dir.as_str());
    let private_dir = path_join(pki_dir.as_str(), "private");
    let mut file = username.to_text();
    file.append(".key");
    path_join(private_dir.as_str(), file.as_str())
}

} // verus!
