//! Packaging pipeline.
//!
//! Packaging is planned here and carried out outside: the plan fixes, before
//! any mutation, every source path, target subpath, script, and archive name
//! the run will touch, so the whole batch is validated up front — if any
//! requested user is unknown, or a username is requested twice, or the
//! profile carries no packaging section, nothing is staged and no archive is
//! written. The archive model below states what the per-user fan-out
//! produces: every user's archive is built from the one transformed skeleton,
//! with that user's credentials and no other's, and a failure partway leaves
//! exactly the archives of the users already completed.

use vstd::pervasive::VecAdditionalExecFns;
use vstd::prelude::*;

use crate::actions::{get_cert_path, get_key_path, spec_cert_path, spec_key_path};
use crate::config::Profile;
use crate::paths::{parent_dir, path_join, spec_parent_dir, spec_path_join};
use crate::strutil::{clone_strings, str_compare, StrOrder};
use crate::username::{vec_contains_username, Username};

verus! {

/// Why packaging was rejected before staging, or aborted during delivery.
#[derive(Debug)]
pub enum PackageError {
    /// A requested user is not in the known-user set; detected before any
    /// mutation, rejecting the whole batch.
    UnknownUser {
        /// The offending username.
        username: String,
    },
    /// A username was requested more than once; detected before any mutation.
    DuplicateUser {
        /// The offending username.
        username: String,
    },
    /// The profile carries no packaging section; detected before any mutation.
    NoPackagingSection {
        /// The profile's name.
        profile: String,
    },
    /// A known user's certificate file is missing at use time: drift between
    /// scan time and use time.
    MissingCertificate {
        /// The user whose certificate is missing.
        username: String,
        /// The missing file.
        path: String,
    },
    /// A known user's key file is missing at use time: drift between scan
    /// time and use time.
    MissingKey {
        /// The user whose key is missing.
        username: String,
        /// The missing file.
        path: String,
    },
    /// The output archive already exists and overwriting was not allowed.
    ArchiveExists {
        /// The archive filename.
        name: String,
    },
}

/// The archive filename for one user: `<user>.zip`, or `<profile>-<user>.zip`
/// with the prefix flag.
pub open spec fn spec_archive_name(profile_name: Seq<char>, user: Seq<char>, add_prefix: bool) -> Seq<
    char,
> {
    if add_prefix {
        profile_name + seq!['-'] + user + ".zip"@
    } else {
        user + ".zip"@
    }
}

/// Distinct users get distinct archive filenames.
pub proof fn lemma_archive_name_injective(
    profile_name: Seq<char>,
    a: Seq<char>,
    b: Seq<char>,
    add_prefix: bool,
)
    requires
        spec_archive_name(profile_name, a, add_prefix) == spec_archive_name(
            profile_name,
            b,
            add_prefix,
        ),
    ensures
        a == b,
{
    let x = spec_archive_name(profile_name, a, add_prefix);
    let y = spec_archive_name(profile_name, b, add_prefix);
    if add_prefix {
        let off = profile_name.len() + 1;
        assert(x.len() == off + a.len() + ".zip"@.len());
        assert(y.len() == off + b.len() + ".zip"@.len());
        assert(a =~= b) by {
            assert(forall|i: int| 0 <= i < a.len() ==> #[trigger] a[i] == x[off + i]);
            assert(forall|i: int| 0 <= i < b.len() ==> #[trigger] b[i] == y[off + i]);
        }
    } else {
        assert(x.len() == a.len() + ".zip"@.len());
        assert(y.len() == b.len() + ".zip"@.len());
        assert(a =~= b) by {
            assert(forall|i: int| 0 <= i < a.len() ==> #[trigger] a[i] == x[i]);
            assert(forall|i: int| 0 <= i < b.len() ==> #[trigger] b[i] == y[i]);
        }
    }
}

/// Everything the delivery of one user's archive touches, fixed up front.
#[derive(Debug)]
pub struct UserPackage {
    /// The user the archive is for.
    pub username: Username,
    /// Where the user's certificate must be found.
    pub cert_source: String,
    /// Where the user's key must be found.
    pub key_source: String,
    /// The subpath within the package for the certificate.
    pub cert_subpath: String,
    /// The subpath within the package for the key.
    pub key_subpath: String,
    /// The directories the certificate subpath implies, if any.
    pub cert_parent: Option<String>,
    /// The directories the key subpath implies, if any.
    pub key_parent: Option<String>,
    /// The archive filename.
    pub archive_name: String,
    /// Where the archive is written.
    pub output_path: String,
}

/// The whole packaging run, fixed before anything is staged: the skeleton to
/// stage, the transform scripts in their configured order, and the per-user
/// deliveries in request order.
#[derive(Debug)]
pub struct PackagePlan {
    /// The skeleton directory to copy into the workspace.
    pub skel_dir: String,
    /// The transform scripts, run strictly in this order on the staged copy.
    pub scripts: Vec<String>,
    /// One delivery per requested user, in request order.
    pub users: Vec<UserPackage>,
    /// Whether an existing archive may be overwritten.
    pub allow_overwrite: bool,
    /// Whether the ephemeral workspace is kept for inspection.
    pub keep_temp: bool,
}

/// What the plan fixes for the user `name` at position `i` of the request.
pub open spec fn user_package_ok(
    u: UserPackage,
    config_dir: Seq<char>,
    profile: Profile,
    name: Seq<char>,
    add_prefix: bool,
    output_dir: Seq<char>,
) -> bool {
    let packaging = profile.packaging.unwrap();
    &&& u.username@ == name
    &&& u.cert_source@ == spec_cert_path(config_dir, profile.easy_rsa_pki_dir@, name)
    &&& u.key_source@ == spec_key_path(config_dir, profile.easy_rsa_pki_dir@, name)
    &&& u.cert_subpath@ == packaging.cert_subpath@
    &&& u.key_subpath@ == packaging.key_subpath@
    &&& u.cert_parent.deep_view() == spec_parent_dir(packaging.cert_subpath@)
    &&& u.key_parent.deep_view() == spec_parent_dir(packaging.key_subpath@)
    &&& u.archive_name@ == spec_archive_name(profile.name@, name, add_prefix)
    &&& u.output_path@ == spec_path_join(
        output_dir,
        spec_archive_name(profile.name@, name, add_prefix),
    )
}

/// No name occurs twice.
pub open spec fn distinct_seqs(names: Seq<Seq<char>>) -> bool {
    forall|i: int, j: int| 0 <= i < j < names.len() ==> names[i] != names[j]
}

/// A fresh copy of an optional piece of text.
fn clone_opt_string(v: &Option<String>) -> (r: Option<String>)
    ensures
        r.deep_view() == v.deep_view(),
{
    match v {
        Some(s) => Some(s.clone()),
        None => None,
    }
}

/// Plan a packaging run: all-or-nothing across the batch. The whole request
/// is rejected, before anything is staged, when a requested user is unknown,
/// when a username is requested twice, or when the profile carries no
/// packaging section; otherwise the plan fixes every path, script and archive
/// name of the run.
#[verifier::rlimit(30)]
pub fn package(
    config_dir: &str,
    profile: &Profile,
    usernames: &Vec<Username>,
    add_prefix: bool,
    output_dir: &str,
    force: bool,
    keep_temp: bool,
    known_users: &Vec<Username>,
) -> (r: Result<PackagePlan, PackageError>)
    ensures
        r is Ok <==> ((forall|i: int|
            0 <= i < usernames@.len() ==> known_users.deep_view().contains(
                #[trigger] usernames.deep_view()[i],
            )) && distinct_seqs(usernames.deep_view()) && profile.packaging is Some),
        r is Err ==> (r matches Err(PackageError::UnknownUser { .. }) || r matches Err(
            PackageError::DuplicateUser { .. },
        ) || r matches Err(PackageError::NoPackagingSection { .. })),
        (exists|i: int|
            0 <= i < usernames@.len() && !known_users.deep_view().contains(
                #[trigger] usernames.deep_view()[i],
            )) ==> r matches Err(PackageError::UnknownUser { .. }),
        r matches Err(PackageError::UnknownUser { username }) ==> exists|i: int|
            0 <= i < usernames@.len() && username@ == #[trigger] usernames.deep_view()[i]
                && !known_users.deep_view().contains(usernames.deep_view()[i]) && (forall|j: int|
                0 <= j < i ==> known_users.deep_view().contains(#[trigger] usernames.deep_view()[j])),
        r matches Err(PackageError::DuplicateUser { username }) ==> exists|j: int|
            0 <= j < usernames@.len() && username@ == #[trigger] usernames.deep_view()[j] && (
            exists|i: int| 0 <= i < j && usernames.deep_view()[i] == usernames.deep_view()[j]) && (
            forall|x: int, y: int|
                0 <= x < y < j ==> usernames.deep_view()[x] != usernames.deep_view()[y]),
        r matches Err(PackageError::NoPackagingSection { profile: t }) ==> t@ == profile.name@
            && profile.packaging is None,
        r matches Ok(plan) ==> ({
            let packaging = profile.packaging.unwrap();
            &&& plan.skel_dir@ == spec_path_join(config_dir@, packaging.skel_dir@)
            &&& plan.scripts.deep_view() == packaging.skel_map_scripts.deep_view()
            &&& plan.allow_overwrite == force
            &&& plan.keep_temp == keep_temp
            &&& plan.users@.len() == usernames@.len()
            &&& (forall|i: int|
                0 <= i < usernames@.len() ==> user_package_ok(
                    #[trigger] plan.users@[i],
                    config_dir@,
                    *profile,
                    usernames.deep_view()[i],
                    add_prefix,
                    output_dir@,
                ))
            &&& distinct_seqs(
                plan.users@.map_values(|u: UserPackage| u.archive_name@),
            )
        }),
{
    let n = usernames.len();

    // Reject the batch if any requested user is unknown.
    let mut i: usize = 0;
    while i < n
        invariant
            n == usernames.len(),
            0 <= i <= n,
            forall|j: int|
                0 <= j < i ==> known_users.deep_view().contains(#[trigger] usernames.deep_view()[j]),
        decreases n - i,
    {
        if !vec_contains_username(known_users, &usernames[i]) {
            proof {
                assert(usernames.deep_view()[i as int] == usernames@[i as int]@);
            }
            return Err(PackageError::UnknownUser { username: usernames[i].to_text() });
        }
        i += 1;
    }

    // Reject the batch if any username is requested twice.
    let mut j: usize = 1;
    while j < n
        invariant
            n == usernames.len(),
            1 <= j <= n || n == 0,
            forall|i: int|
                0 <= i < n ==> known_users.deep_view().contains(#[trigger] usernames.deep_view()[i]),
            forall|x: int, y: int|
                0 <= x < y < j ==> usernames.deep_view()[x] != usernames.deep_view()[y],
        decreases n - j,
    {
        let mut i2: usize = 0;
        while i2 < j
            invariant
                n == usernames.len(),
                0 <= i2 <= j < n,
                forall|i: int|
                    0 <= i < n ==> known_users.deep_view().contains(
                        #[trigger] usernames.deep_view()[i],
                    ),
                forall|x: int, y: int|
                    0 <= x < y < j ==> usernames.deep_view()[x] != usernames.deep_view()[y],
                forall|x: int| 0 <= x < i2 ==> usernames.deep_view()[x] != usernames.deep_view()[j as int],
            decreases j - i2,
        {
            if usernames[i2] == usernames[j] {
                proof {
                    assert(usernames.deep_view()[i2 as int] == usernames.deep_view()[j as int]);
                    assert(usernames.deep_view()[j as int] == usernames@[j as int]@);
                }
                return Err(PackageError::DuplicateUser { username: usernames[j].to_text() });
            }
            i2 += 1;
        }
        j += 1;
    }

    // The profile must carry a packaging section.
    let packaging = match &profile.packaging {
        Some(p) => p,
        None => {
            return Err(PackageError::NoPackagingSection { profile: profile.name.clone() });
        },
    };

    // Everything is validated; fix the whole run.
    let skel_dir = path_join(config_dir, packaging.skel_dir.as_str());
    let scripts = clone_strings(&packaging.skel_map_scripts);
    let cert_parent = parent_dir(packaging.cert_subpath.as_str());
    let key_parent = parent_dir(packaging.key_subpath.as_str());

    let mut users: Vec<UserPackage> = Vec::new();
    let mut k: usize = 0;
    while k < n
        invariant
            n == usernames.len(),
            0 <= k <= n,
            profile.packaging == Some(*packaging),
            cert_parent.deep_view() == spec_parent_dir(packaging.cert_subpath@),
            key_parent.deep_view() == spec_parent_dir(packaging.key_subpath@),
            users@.len() == k,
            forall|i: int|
                0 <= i < k ==> user_package_ok(
                    #[trigger] users@[i],
                    config_dir@,
                    *profile,
                    usernames.deep_view()[i],
                    add_prefix,
                    output_dir@,
                ),
        decreases n - k,
    {
        let username = &usernames[k];
        let mut archive_name = if add_prefix {
            let mut s = profile.name.clone();
            s.append("-");
            proof {
                reveal_strlit("-");
                assert(s@ =~= profile.name@ + seq!['-']);
            }
            s
        } else {
            String::new()
        };
        archive_name.append(username.as_str());
        archive_name.append(".zip");
        proof {
            assert(archive_name@ == spec_archive_name(profile.name@, username@, add_prefix));
        }
        let output_path = path_join(output_dir, archive_name.as_str());
        let entry = UserPackage {
            username: username.clone(),
            cert_source: get_cert_path(config_dir, profile, username),
            key_source: get_key_path(config_dir, profile, username),
            cert_subpath: packaging.cert_subpath.as_str().to_owned(),
            key_subpath: packaging.key_subpath.as_str().to_owned(),
            cert_parent: clone_opt_string(&cert_parent),
            key_parent: clone_opt_string(&key_parent),
            archive_name,
            output_path,
        };
        proof {
            assert(usernames.deep_view()[k as int] == usernames@[k as int]@);
        }
        users.push(entry);
        k += 1;
    }

    let plan = PackagePlan { skel_dir, scripts, users, allow_overwrite: force, keep_temp };
    proof {
        let names = plan.users@.map_values(|u: UserPackage| u.archive_name@);
        assert forall|x: int, y: int| 0 <= x < y < names.len() implies names[x] != names[y] by {
            if names[x] == names[y] {
                lemma_archive_name_injective(
                    profile.name@,
                    usernames.deep_view()[x],
                    usernames.deep_view()[y],
                    add_prefix,
                );
            }
        }
    }
    Ok(plan)
}

/// A file in the model of a directory tree: a relative path and its bytes.
#[derive(Debug)]
pub struct FileEntry {
    /// The file's path, relative to the tree's root.
    pub path: String,
    /// The file's bytes.
    pub data: Vec<u8>,
}

impl View for FileEntry {
    type V = (Seq<char>, Seq<u8>);

    open spec fn view(&self) -> (Seq<char>, Seq<u8>) {
        (self.path@, self.data@)
    }
}

impl DeepView for FileEntry {
    type V = (Seq<char>, Seq<u8>);

    open spec fn deep_view(&self) -> (Seq<char>, Seq<u8>) {
        self.view()
    }
}

/// An archive in the model of the output directory: its filename and the
/// files serialized into it.
#[derive(Debug)]
pub struct ArchiveFile {
    /// The archive's filename.
    pub name: String,
    /// The files inside the archive.
    pub entries: Vec<FileEntry>,
}

impl View for ArchiveFile {
    type V = (Seq<char>, Seq<(Seq<char>, Seq<u8>)>);

    open spec fn view(&self) -> (Seq<char>, Seq<(Seq<char>, Seq<u8>)>) {
        (self.name@, self.entries.deep_view())
    }
}

impl DeepView for ArchiveFile {
    type V = (Seq<char>, Seq<(Seq<char>, Seq<u8>)>);

    open spec fn deep_view(&self) -> (Seq<char>, Seq<(Seq<char>, Seq<u8>)>) {
        self.view()
    }
}

/// The bytes of the first file at `path`, if any.
pub open spec fn lookup(files: Seq<(Seq<char>, Seq<u8>)>, path: Seq<char>) -> Option<Seq<u8>>
    decreases files.len(),
{
    if files.len() == 0 {
        None
    } else if files[0].0 == path {
        Some(files[0].1)
    } else {
        lookup(files.drop_first(), path)
    }
}

/// A fresh copy of a file's bytes.
fn clone_bytes(v: &Vec<u8>) -> (r: Vec<u8>)
    ensures
        r@ == v@,
{
    let n = v.len();
    let mut r: Vec<u8> = Vec::new();
    let mut i: usize = 0;
    while i < n
        invariant
            n == v.len(),
            0 <= i <= n,
            r@ =~= v@.take(i as int),
        decreases n - i,
    {
        r.push(v[i]);
        proof {
            assert(v@.take(i + 1 as int) =~= v@.take(i as int).push(v@[i as int]));
        }
        i += 1;
    }
    proof {
        assert(v@.take(n as int) =~= v@);
    }
    r
}

/// Find the first file at `path` and hand back a copy of its bytes.
pub fn lookup_file(files: &Vec<FileEntry>, path: &str) -> (r: Option<Vec<u8>>)
    ensures
        r is Some <==> lookup(files.deep_view(), path@) is Some,
        r matches Some(d) ==> lookup(files.deep_view(), path@) == Some(d@),
{
    let n = files.len();
    let ghost fdv = files.deep_view();
    let mut i: usize = 0;
    proof {
        assert(fdv.skip(0) =~= fdv);
    }
    while i < n
        invariant
            n == files.len(),
            fdv == files.deep_view(),
            0 <= i <= n,
            lookup(fdv, path@) == lookup(fdv.skip(i as int), path@),
        decreases n - i,
    {
        if str_compare(files[i].path.as_str(), path) == StrOrder::Equal {
            proof {
                assert(fdv.skip(i as int)[0] == fdv[i as int]);
                assert(fdv[i as int].0 == path@);
            }
            return Some(clone_bytes(&files[i].data));
        }
        proof {
            assert(fdv.skip(i as int)[0] == fdv[i as int]);
            assert(fdv.skip(i as int).drop_first() =~= fdv.skip(i + 1 as int));
        }
        i += 1;
    }
    proof {
        assert(fdv.skip(n as int).len() == 0);
    }
    None
}

/// The files of one user's archive: the transformed skeleton's files, with
/// the user's certificate and key at their configured subpaths (replacing any
/// skeleton file already there).
pub open spec fn spec_archive_entries(
    skel: Seq<(Seq<char>, Seq<u8>)>,
    cert_subpath: Seq<char>,
    cert: Seq<u8>,
    key_subpath: Seq<char>,
    key: Seq<u8>,
) -> Seq<(Seq<char>, Seq<u8>)> {
    skel.filter(
        |e: (Seq<char>, Seq<u8>)| e.0 != cert_subpath && e.0 != key_subpath,
    ).push((cert_subpath, cert)).push((key_subpath, key))
}

/// Assemble the files of one user's archive from the transformed skeleton and
/// the user's credentials.
pub fn archive_entries(
    skel: &Vec<FileEntry>,
    cert_subpath: &str,
    cert: &Vec<u8>,
    key_subpath: &str,
    key: &Vec<u8>,
) -> (r: Vec<FileEntry>)
    ensures
        r.deep_view() == spec_archive_entries(
            skel.deep_view(),
            cert_subpath@,
            cert@,
            key_subpath@,
            key@,
        ),
{
    let ghost pred = |e: (Seq<char>, Seq<u8>)| e.0 != cert_subpath@ && e.0 != key_subpath@;
    let n = skel.len();
    let ghost sdv = skel.deep_view();
    let mut r: Vec<FileEntry> = Vec::new();
    let mut i: usize = 0;
    proof {
        reveal(Seq::filter);
        assert(sdv.take(0).filter(pred) =~= Seq::<(Seq<char>, Seq<u8>)>::empty());
    }
    while i < n
        invariant
            n == skel.len(),
            sdv == skel.deep_view(),
            0 <= i <= n,
            r.deep_view() =~= sdv.take(i as int).filter(pred),
            pred == (|e: (Seq<char>, Seq<u8>)| e.0 != cert_subpath@ && e.0 != key_subpath@),
        decreases n - i,
    {
        let keep = str_compare(skel[i].path.as_str(), cert_subpath) != StrOrder::Equal
            && str_compare(skel[i].path.as_str(), key_subpath) != StrOrder::Equal;
        let ghost pre = r.deep_view();
        if keep {
            r.push(FileEntry { path: skel[i].path.clone(), data: clone_bytes(&skel[i].data) });
        }
        proof {
            reveal(Seq::filter);
            let t1 = sdv.take(i + 1 as int);
            assert(t1.drop_last() =~= sdv.take(i as int));
            assert(t1.last() == sdv[i as int]);
            assert(t1.filter(pred) == if pred(sdv[i as int]) {
                sdv.take(i as int).filter(pred).push(sdv[i as int])
            } else {
                sdv.take(i as int).filter(pred)
            });
            if keep {
                assert(r.deep_view() =~= pre.push(sdv[i as int]));
            }
        }
        i += 1;
    }
    proof {
        assert(sdv.take(n as int) =~= sdv);
    }
    r.push(FileEntry { path: cert_subpath.to_owned(), data: clone_bytes(cert) });
    r.push(FileEntry { path: key_subpath.to_owned(), data: clone_bytes(key) });
    proof {
        assert(r.deep_view() =~= sdv.filter(pred).push((cert_subpath@, cert@)).push(
            (key_subpath@, key@),
        ));
    }
    r
}

/// The filenames of the archives in the output directory, in order.
pub open spec fn archive_names(archives: Seq<(Seq<char>, Seq<(Seq<char>, Seq<u8>)>)>) -> Seq<
    Seq<char>,
> {
    archives.map_values(|a: (Seq<char>, Seq<(Seq<char>, Seq<u8>)>)| a.0)
}

/// The position of the first archive named `name`.
pub open spec fn first_archive_idx(
    archives: Seq<(Seq<char>, Seq<(Seq<char>, Seq<u8>)>)>,
    name: Seq<char>,
) -> int
    decreases archives.len(),
{
    if archives.len() == 0 {
        0
    } else if archives[0].0 == name {
        0
    } else {
        1 + first_archive_idx(archives.drop_first(), name)
    }
}

/// What the first-position finder finds when the name is present.
proof fn lemma_first_archive_idx(
    archives: Seq<(Seq<char>, Seq<(Seq<char>, Seq<u8>)>)>,
    name: Seq<char>,
    i: int,
)
    requires
        0 <= i < archives.len(),
        archives[i].0 == name,
        forall|j: int| 0 <= j < i ==> (#[trigger] archives[j]).0 != name,
    ensures
        first_archive_idx(archives, name) == i,
    decreases archives.len(),
{
    if i > 0 {
        let rest = archives.drop_first();
        assert(forall|j: int| 0 <= j < i - 1 ==> (#[trigger] rest[j]).0 == archives[j + 1].0);
        lemma_first_archive_idx(rest, name, i - 1);
    }
}

/// Writing one archive into the output directory: an archive of that name is
/// replaced in place, any other is appended.
pub open spec fn spec_write_archive(
    archives: Seq<(Seq<char>, Seq<(Seq<char>, Seq<u8>)>)>,
    name: Seq<char>,
    entries: Seq<(Seq<char>, Seq<u8>)>,
) -> Seq<(Seq<char>, Seq<(Seq<char>, Seq<u8>)>)> {
    if archive_names(archives).contains(name) {
        archives.update(first_archive_idx(archives, name), (name, entries))
    } else {
        archives.push((name, entries))
    }
}

/// Write one archive, refusing to silently overwrite: an archive of the same
/// name already in the output directory is an error unless overwriting was
/// allowed, and on that error the output directory is left untouched.
pub fn write_archive(
    output: &mut Vec<ArchiveFile>,
    name: &str,
    entries: Vec<FileEntry>,
    allow_overwrite: bool,
) -> (r: Result<(), PackageError>)
    ensures
        r is Ok <==> (allow_overwrite || !archive_names(old(output).deep_view()).contains(name@)),
        r matches Err(e) ==> ({
            &&& e matches PackageError::ArchiveExists { name: t } && t@ == name@
            &&& *final(output) == *old(output)
        }),
        r is Ok ==> final(output).deep_view() == spec_write_archive(
            old(output).deep_view(),
            name@,
            entries.deep_view(),
        ),
{
    let n = output.len();
    let ghost odv = old(output).deep_view();
    let mut i: usize = 0;
    while i < n
        invariant
            n == output.len(),
            output == old(output),
            odv == output.deep_view(),
            0 <= i <= n,
            forall|j: int| 0 <= j < i ==> (#[trigger] odv[j]).0 != name@,
        decreases n - i,
    {
        if str_compare(output[i].name.as_str(), name) == StrOrder::Equal {
            proof {
                assert(odv[i as int].0 == name@);
                assert(archive_names(odv)[i as int] == name@);
                assert(archive_names(odv).contains(name@));
            }
            if !allow_overwrite {
                return Err(PackageError::ArchiveExists { name: name.to_owned() });
            }
            let ghost pre = output.deep_view();
            output.set(i, ArchiveFile { name: name.to_owned(), entries });
            proof {
                lemma_first_archive_idx(odv, name@, i as int);
                assert(output.deep_view() =~= pre.update(i as int, (name@, entries.deep_view())));
            }
            return Ok(());
        }
        i += 1;
    }
    proof {
        assert(!archive_names(odv).contains(name@)) by {
            assert(forall|j: int|
                0 <= j < archive_names(odv).len() ==> #[trigger] archive_names(odv)[j] == odv[j].0);
        }
    }
    let ghost pre = output.deep_view();
    output.push(ArchiveFile { name: name.to_owned(), entries });
    proof {
        assert(output.deep_view() =~= pre.push((name@, entries.deep_view())));
    }
    Ok(())
}

/// What carrying out the whole plan does to the output directory, and where
/// it stops: the final state of the directory, and the position of the first
/// failing user, if any. Each user's archive is built from the same
/// transformed skeleton, in request order; the first missing credential or
/// refused overwrite stops everything after it.
pub open spec fn spec_apply_plan(
    users: Seq<UserPackage>,
    skel: Seq<(Seq<char>, Seq<u8>)>,
    pki: Seq<(Seq<char>, Seq<u8>)>,
    out: Seq<(Seq<char>, Seq<(Seq<char>, Seq<u8>)>)>,
    allow_overwrite: bool,
) -> (Seq<(Seq<char>, Seq<(Seq<char>, Seq<u8>)>)>, Option<int>)
    decreases users.len(),
{
    if users.len() == 0 {
        (out, None)
    } else {
        let u = users[0];
        if lookup(pki, u.cert_source@) is None || lookup(pki, u.key_source@) is None || (
        !allow_overwrite && archive_names(out).contains(u.archive_name@)) {
            (out, Some(0))
        } else {
            let entries = spec_archive_entries(
                skel,
                u.cert_subpath@,
                lookup(pki, u.cert_source@).unwrap(),
                u.key_subpath@,
                lookup(pki, u.key_source@).unwrap(),
            );
            let rec = spec_apply_plan(
                users.drop_first(),
                skel,
                pki,
                spec_write_archive(out, u.archive_name@, entries),
                allow_overwrite,
            );
            (
                rec.0,
                match rec.1 {
                    Some(k) => Some(k + 1),
                    None => None,
                },
            )
        }
    }
}

/// One user's finished archive: named for that user, holding the shared
/// transformed skeleton and that user's own credentials, nobody else's.
pub open spec fn user_archive(
    u: UserPackage,
    skel: Seq<(Seq<char>, Seq<u8>)>,
    pki: Seq<(Seq<char>, Seq<u8>)>,
) -> (Seq<char>, Seq<(Seq<char>, Seq<u8>)>) {
    (
        u.archive_name@,
        spec_archive_entries(
            skel,
            u.cert_subpath@,
            lookup(pki, u.cert_source@).unwrap(),
            u.key_subpath@,
            lookup(pki, u.key_source@).unwrap(),
        ),
    )
}

/// The finished archives of all users, in request order.
pub open spec fn user_archives(
    users: Seq<UserPackage>,
    skel: Seq<(Seq<char>, Seq<u8>)>,
    pki: Seq<(Seq<char>, Seq<u8>)>,
) -> Seq<(Seq<char>, Seq<(Seq<char>, Seq<u8>)>)> {
    Seq::new(users.len(), |i: int| user_archive(users[i], skel, pki))
}

/// Law: when the whole run succeeds, the output directory gains exactly one
/// archive per requested user, in request order, and every user's archive is
/// built from the one transformed skeleton and that user's own credentials —
/// the fan-out never leaks one user's credential files into another's
/// archive.
pub proof fn lemma_apply_plan_archives(
    users: Seq<UserPackage>,
    skel: Seq<(Seq<char>, Seq<u8>)>,
    pki: Seq<(Seq<char>, Seq<u8>)>,
    out: Seq<(Seq<char>, Seq<(Seq<char>, Seq<u8>)>)>,
    allow_overwrite: bool,
)
    requires
        distinct_seqs(users.map_values(|u: UserPackage| u.archive_name@)),
        forall|i: int|
            0 <= i < users.len() ==> !archive_names(out).contains(
                (#[trigger] users[i]).archive_name@,
            ),
    ensures
        spec_apply_plan(users, skel, pki, out, allow_overwrite).1 is None ==> spec_apply_plan(
            users,
            skel,
            pki,
            out,
            allow_overwrite,
        ).0 == out + user_archives(users, skel, pki),
    decreases users.len(),
{
    let r = spec_apply_plan(users, skel, pki, out, allow_overwrite);
    if users.len() == 0 {
        assert(out + user_archives(users, skel, pki) =~= out);
    } else if r.1 is None {
        let u = users[0];
        let a0 = user_archive(u, skel, pki);
        let out2 = spec_write_archive(out, u.archive_name@, a0.1);
        assert(!archive_names(out).contains(u.archive_name@));
        assert(out2 == out.push(a0));
        let rest = users.drop_first();
        assert forall|i: int|
            0 <= i < rest.len() implies !archive_names(out2).contains(
            (#[trigger] rest[i]).archive_name@,
        ) by {
            assert(archive_names(out2) =~= archive_names(out).push(u.archive_name@));
            crate::strutil::lemma_contains_push(
                archive_names(out),
                u.archive_name@,
                rest[i].archive_name@,
            );
            assert(users.map_values(|x: UserPackage| x.archive_name@)[0] == u.archive_name@);
            assert(users.map_values(|x: UserPackage| x.archive_name@)[i + 1]
                == rest[i].archive_name@);
            assert(archive_names(out).contains(users[i + 1].archive_name@) == false);
        }
        assert(distinct_seqs(rest.map_values(|x: UserPackage| x.archive_name@))) by {
            let all_names = users.map_values(|x: UserPackage| x.archive_name@);
            let rest_names = rest.map_values(|x: UserPackage| x.archive_name@);
            assert(rest_names =~= all_names.drop_first());
            assert(forall|i: int, j: int|
                0 <= i < j < rest_names.len() ==> rest_names[i] == all_names[i + 1]
                    && rest_names[j] == all_names[j + 1]);
        }
        lemma_apply_plan_archives(rest, skel, pki, out2, allow_overwrite);
        assert(spec_apply_plan(rest, skel, pki, out2, allow_overwrite).1 is None);
        assert(r.0 == out2 + user_archives(rest, skel, pki));
        assert(out2 + user_archives(rest, skel, pki) =~= out + user_archives(users, skel, pki)) by {
            assert(forall|i: int|
                0 <= i < rest.len() ==> #[trigger] user_archives(rest, skel, pki)[i]
                    == user_archive(users[i + 1], skel, pki));
        }
    }
}

/// Law: a failure partway through the per-user loop leaves exactly the
/// archives of the users already completed — the run up to the failing user,
/// which itself completes without failure — and nothing for the failing user
/// or anyone after it.
pub proof fn lemma_apply_plan_prefix(
    users: Seq<UserPackage>,
    skel: Seq<(Seq<char>, Seq<u8>)>,
    pki: Seq<(Seq<char>, Seq<u8>)>,
    out: Seq<(Seq<char>, Seq<(Seq<char>, Seq<u8>)>)>,
    allow_overwrite: bool,
)
    ensures
        spec_apply_plan(users, skel, pki, out, allow_overwrite).1 matches Some(k) ==> ({
            &&& 0 <= k < users.len()
            &&& spec_apply_plan(users, skel, pki, out, allow_overwrite).0 == spec_apply_plan(
                users.take(k),
                skel,
                pki,
                out,
                allow_overwrite,
            ).0
            &&& spec_apply_plan(users.take(k), skel, pki, out, allow_overwrite).1 is None
        }),
    decreases users.len(),
{
    if users.len() > 0 {
        let u = users[0];
        let r = spec_apply_plan(users, skel, pki, out, allow_overwrite);
        if !(lookup(pki, u.cert_source@) is None || lookup(pki, u.key_source@) is None || (
        !allow_overwrite && archive_names(out).contains(u.archive_name@))) {
            let entries = spec_archive_entries(
                skel,
                u.cert_subpath@,
                lookup(pki, u.cert_source@).unwrap(),
                u.key_subpath@,
                lookup(pki, u.key_source@).unwrap(),
            );
            let out2 = spec_write_archive(out, u.archive_name@, entries);
            lemma_apply_plan_prefix(users.drop_first(), skel, pki, out2, allow_overwrite);
            if r.1 is Some {
                let k = r.1.unwrap();
                assert(users.take(k).drop_first() =~= users.drop_first().take(k - 1));
                assert(users.take(k)[0] == u);
            }
        } else {
            if r.1 is Some {
                assert(r.1.unwrap() == 0);
                assert(users.take(0) =~= Seq::<UserPackage>::empty());
            }
        }
    }
}

/// Carry out the plan against the model: build every user's archive from the
/// one transformed skeleton `skel` and that user's credentials under `pki`,
/// in request order, stopping at the first missing credential or refused
/// overwrite. On a failure the archives of the users already completed are in
/// place and nothing else.
pub fn apply_plan_model(
    plan: &PackagePlan,
    skel: &Vec<FileEntry>,
    pki: &Vec<FileEntry>,
    output: &mut Vec<ArchiveFile>,
) -> (r: Result<(), PackageError>)
    ensures
        final(output).deep_view() == spec_apply_plan(
            plan.users@,
            skel.deep_view(),
            pki.deep_view(),
            old(output).deep_view(),
            plan.allow_overwrite,
        ).0,
        r is Ok <==> spec_apply_plan(
            plan.users@,
            skel.deep_view(),
            pki.deep_view(),
            old(output).deep_view(),
            plan.allow_overwrite,
        ).1 is None,
        r matches Err(e) ==> ({
            let k = spec_apply_plan(
                plan.users@,
                skel.deep_view(),
                pki.deep_view(),
                old(output).deep_view(),
                plan.allow_overwrite,
            ).1.unwrap();
            let u = plan.users@[k];
            &&& 0 <= k < plan.users@.len()
            &&& (e matches PackageError::MissingCertificate { username, path } ==> username@
                == u.username@ && path@ == u.cert_source@ && lookup(
                pki.deep_view(),
                u.cert_source@,
            ) is None)
            &&& (e matches PackageError::MissingKey { username, path } ==> username@ == u.username@
                && path@ == u.key_source@ && lookup(pki.deep_view(), u.key_source@) is None)
            &&& (e matches PackageError::ArchiveExists { name } ==> name@ == u.archive_name@)
            &&& (e is MissingCertificate || e is MissingKey || e is ArchiveExists)
        }),
{
    let ghost sk = skel.deep_view();
    let ghost pk = pki.deep_view();
    let ghost odv = old(output).deep_view();
    let ghost whole = spec_apply_plan(plan.users@, sk, pk, odv, plan.allow_overwrite);
    let n = plan.users.len();
    let mut k: usize = 0;
    proof {
        assert(plan.users@.skip(0) =~= plan.users@);
    }
    while k < n
        invariant
            n == plan.users.len(),
            sk == skel.deep_view(),
            pk == pki.deep_view(),
            odv == old(output).deep_view(),
            whole == spec_apply_plan(plan.users@, sk, pk, odv, plan.allow_overwrite),
            0 <= k <= n,
            ({
                let rest = spec_apply_plan(
                    plan.users@.skip(k as int),
                    sk,
                    pk,
                    output.deep_view(),
                    plan.allow_overwrite,
                );
                whole.0 == rest.0 && whole.1 == (match rest.1 {
                    Some(l) => Some(l + k),
                    None => None,
                })
            }),
        decreases n - k,
    {
        let ghost rest_users = plan.users@.skip(k as int);
        let ghost cur = output.deep_view();
        proof {
            assert(rest_users[0] == plan.users@[k as int]);
            assert(rest_users.drop_first() =~= plan.users@.skip(k + 1 as int));
        }
        let u = &plan.users[k];
        proof {
            assert(*u == rest_users[0]);
        }
        let cert = match lookup_file(pki, u.cert_source.as_str()) {
            Some(c) => c,
            None => {
                proof {
                    assert(spec_apply_plan(rest_users, sk, pk, cur, plan.allow_overwrite) == (
                    cur,
                    Some(0int),
                    ));
                    assert(whole.1 == Some(k as int));
                    assert(whole.0 == cur);
                }
                return Err(
                    PackageError::MissingCertificate {
                        username: u.username.to_text(),
                        path: u.cert_source.clone(),
                    },
                );
            },
        };
        let key = match lookup_file(pki, u.key_source.as_str()) {
            Some(c) => c,
            None => {
                proof {
                    assert(spec_apply_plan(rest_users, sk, pk, cur, plan.allow_overwrite) == (
                    cur,
                    Some(0int),
                    ));
                    assert(whole.1 == Some(k as int));
                    assert(whole.0 == cur);
                }
                return Err(
                    PackageError::MissingKey {
                        username: u.username.to_text(),
                        path: u.key_source.clone(),
                    },
                );
            },
        };
        let entries = archive_entries(
            skel,
            u.cert_subpath.as_str(),
            &cert,
            u.key_subpath.as_str(),
            &key,
        );
        let ghost edv = entries.deep_view();
        proof {
            assert(edv == spec_archive_entries(
                sk,
                u.cert_subpath@,
                lookup(pk, u.cert_source@).unwrap(),
                u.key_subpath@,
                lookup(pk, u.key_source@).unwrap(),
            ));
        }
        match write_archive(output, u.archive_name.as_str(), entries, plan.allow_overwrite) {
            Ok(()) => {
                proof {
                    let out2 = spec_write_archive(cur, u.archive_name@, edv);
                    assert(output.deep_view() == out2);
                    let rest = spec_apply_plan(rest_users, sk, pk, cur, plan.allow_overwrite);
                    let rec = spec_apply_plan(
                        rest_users.drop_first(),
                        sk,
                        pk,
                        out2,
                        plan.allow_overwrite,
                    );
                    assert(rest.0 == rec.0 && rest.1 == (match rec.1 {
                        Some(l) => Some(l + 1),
                        None => None,
                    }));
                }
            },
            Err(e) => {
                proof {
                    assert(!plan.allow_overwrite && archive_names(cur).contains(u.archive_name@));
                    assert(spec_apply_plan(rest_users, sk, pk, cur, plan.allow_overwrite) == (
                    cur,
                    Some(0int),
                    ));
                    assert(whole.1 == Some(k as int));
                    assert(whole.0 == cur);
                }
                return Err(e);
            },
        }
        k += 1;
    }
    proof {
        assert(plan.users@.skip(n as int).len() == 0);
    }
    Ok(())
}

} // verus!
