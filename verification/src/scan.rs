//! Credential directory scanner.
//!
//! The set of known users is derived purely from the file stems found in the
//! two credential directories: the certificate stems, united with the key
//! stems minus the reserved stem `ca`. The scan is read-only; asymmetries
//! (certificate without key and the reverse) and stems that fail the username
//! grammar are reported, never fatal.

use vstd::prelude::*;

use crate::strutil::{
    lemma_contains_push, lemma_lex_trans, lex_lt, str_compare, vec_contains_str, StrOrder,
};
use crate::username::{is_valid_username, Username};

verus! {

/// Pairwise strictly increasing: sorted with no duplicates.
pub open spec fn strictly_sorted(s: Seq<Seq<char>>) -> bool {
    forall|i: int, j: int| 0 <= i < j < s.len() ==> lex_lt(#[trigger] s[i], #[trigger] s[j])
}

/// The stem reserved for the certificate authority's own key.
pub open spec fn ca_stem() -> Seq<char> {
    "ca"@
}

/// A stem belongs to the membership set: it appears among the certificate
/// stems, or among the key stems and is not the reserved `ca` stem.
pub open spec fn known_stem(certs: Seq<Seq<char>>, keys: Seq<Seq<char>>, s: Seq<char>) -> bool {
    certs.contains(s) || (keys.contains(s) && s != ca_stem())
}

/// A stem that becomes a known user: a member that passes the username grammar.
pub open spec fn scanner_member(certs: Seq<Seq<char>>, keys: Seq<Seq<char>>, s: Seq<char>) -> bool {
    known_stem(certs, keys, s) && is_valid_username(s)
}

/// Appending an element above everything in a sorted sequence keeps it sorted.
proof fn lemma_sorted_push(s: Seq<Seq<char>>, x: Seq<char>)
    requires
        strictly_sorted(s),
        s.len() > 0 ==> lex_lt(s.last(), x),
    ensures
        strictly_sorted(s.push(x)),
{
    assert forall|i: int, j: int| 0 <= i < j < s.push(x).len() implies lex_lt(
        #[trigger] s.push(x)[i],
        #[trigger] s.push(x)[j],
    ) by {
        if j == s.len() {
            if i < s.len() - 1 {
                lemma_lex_trans(s[i], s.last(), x);
            }
        }
    }
}

/// Taking one more element is a push of that element.
proof fn lemma_take_push<A>(s: Seq<A>, i: int)
    requires
        0 <= i < s.len(),
    ensures
        s.take(i + 1) =~= s.take(i).push(s[i]),
{
}

/// Insert `x` into the sorted, duplicate-free `v`, keeping it so.
fn sorted_insert(v: &Vec<String>, x: &str) -> (r: Vec<String>)
    requires
        strictly_sorted(v.deep_view()),
    ensures
        strictly_sorted(r.deep_view()),
        forall|s: Seq<char>| #[trigger]
            r.deep_view().contains(s) <==> (v.deep_view().contains(s) || s == x@),
{
    let n = v.len();
    let mut r: Vec<String> = Vec::new();
    let mut i: usize = 0;
    while i < n && str_compare(v[i].as_str(), x) == StrOrder::Less
        invariant
            n == v.len(),
            0 <= i <= n,
            strictly_sorted(v.deep_view()),
            r.deep_view() =~= v.deep_view().take(i as int),
            forall|j: int| 0 <= j < i ==> lex_lt(#[trigger] v.deep_view()[j], x@),
        decreases n - i,
    {
        let ghost pre = r.deep_view();
        r.push(v[i].clone());
        proof {
            assert(r.deep_view() =~= pre.push(v.deep_view()[i as int]));
            lemma_take_push(v.deep_view(), i as int);
        }
        i += 1;
    }
    // Everything below `x` is copied; decide whether `v[i]` duplicates `x`.
    let mut i2 = i;
    if i < n && str_compare(v[i].as_str(), x) == StrOrder::Equal {
        i2 = i + 1;
    }
    proof {
        // Each remaining element sits strictly above `x`.
        assert forall|j: int| i2 <= j < n implies lex_lt(x@, #[trigger] v.deep_view()[j]) by {
            if i2 == i {
                // v[i] is neither below nor equal to x, so x is below it.
                if j > i {
                    lemma_lex_trans(x@, v.deep_view()[i as int], v.deep_view()[j]);
                }
            } else {
                // v[i] equals x and v is strictly sorted past i.
                assert(lex_lt(v.deep_view()[i as int], v.deep_view()[j]));
            }
        }
    }
    let ghost prefix = r.deep_view();
    let ghost vdv = v.deep_view();
    r.push(x.to_owned());
    proof {
        assert(r.deep_view() =~= prefix.push(x@));
        lemma_sorted_push(prefix, x@);
    }
    let mut k = i2;
    while k < n
        invariant
            n == v.len(),
            vdv == v.deep_view(),
            0 <= i <= i2 <= k <= n,
            i2 <= i + 1,
            strictly_sorted(vdv),
            prefix =~= vdv.take(i as int),
            forall|j: int| 0 <= j < i ==> lex_lt(#[trigger] vdv[j], x@),
            forall|j: int| i2 <= j < n ==> lex_lt(x@, #[trigger] vdv[j]),
            i2 == i + 1 ==> vdv[i as int] == x@,
            r.deep_view() =~= prefix.push(x@) + vdv.subrange(i2 as int, k as int),
            strictly_sorted(r.deep_view()),
        decreases n - k,
    {
        let ghost pre = r.deep_view();
        proof {
            assert(pre.len() > 0);
            assert(pre.last() == if k == i2 {
                x@
            } else {
                vdv[k - 1]
            });
            if k > i2 {
                assert(lex_lt(vdv[k - 1], vdv[k as int]));
            }
            lemma_sorted_push(pre, vdv[k as int]);
        }
        r.push(v[k].clone());
        proof {
            assert(r.deep_view() =~= pre.push(vdv[k as int]));
            assert(r.deep_view() =~= prefix.push(x@) + vdv.subrange(i2 as int, k + 1 as int));
        }
        k += 1;
    }
    proof {
        // Membership: r holds the prefix, x, and the tail past any duplicate.
        let rdv = r.deep_view();
        assert(rdv =~= prefix.push(x@) + vdv.subrange(i2 as int, n as int));
        assert forall|s: Seq<char>| #[trigger]
            rdv.contains(s) <==> (vdv.contains(s) || s == x@) by {
            if rdv.contains(s) {
                let ix = choose|ix: int| 0 <= ix < rdv.len() && rdv[ix] == s;
                if ix < i {
                    assert(vdv[ix] == s);
                    assert(vdv.contains(s));
                } else if ix == i {
                    assert(s == x@);
                } else {
                    assert(vdv[i2 + (ix - i - 1)] == s);
                    assert(vdv.contains(s));
                }
            }
            if s == x@ {
                assert(rdv[i as int] == x@);
                assert(rdv.contains(s));
            }
            if vdv.contains(s) {
                let jx = choose|jx: int| 0 <= jx < vdv.len() && vdv[jx] == s;
                if jx < i {
                    assert(rdv[jx] == s);
                    assert(rdv.contains(s));
                } else if jx < i2 {
                    // the duplicate of x, already present as x itself
                    assert(s == x@);
                    assert(rdv[i as int] == x@);
                    assert(rdv.contains(s));
                } else {
                    assert(rdv[i + 1 + (jx - i2)] == s);
                    assert(rdv.contains(s));
                }
            }
        }
    }
    r
}

/// Sorted, duplicate-free stems of `stems`, optionally dropping the reserved
/// `ca` stem.
fn sorted_unique(stems: &Vec<String>, drop_ca: bool) -> (r: Vec<String>)
    ensures
        strictly_sorted(r.deep_view()),
        forall|s: Seq<char>| #[trigger]
            r.deep_view().contains(s) <==> (stems.deep_view().contains(s) && !(drop_ca && s
                == ca_stem())),
{
    let n = stems.len();
    let mut r: Vec<String> = Vec::new();
    let mut i: usize = 0;
    while i < n
        invariant
            n == stems.len(),
            0 <= i <= n,
            strictly_sorted(r.deep_view()),
            forall|s: Seq<char>| #[trigger]
                r.deep_view().contains(s) <==> (stems.deep_view().take(i as int).contains(s) && !(
                drop_ca && s == ca_stem())),
        decreases n - i,
    {
        let ghost pre = r.deep_view();
        let ghost sdv = stems.deep_view();
        let is_ca = str_compare(stems[i].as_str(), "ca") == StrOrder::Equal;
        if !(drop_ca && is_ca) {
            r = sorted_insert(&r, stems[i].as_str());
        }
        proof {
            lemma_take_push(sdv, i as int);
            assert forall|s: Seq<char>| #[trigger]
                r.deep_view().contains(s) <==> (sdv.take(i + 1 as int).contains(s) && !(drop_ca && s
                == ca_stem())) by {
                lemma_contains_push(sdv.take(i as int), sdv[i as int], s);
            }
        }
        i += 1;
    }
    proof {
        assert(stems.deep_view().take(n as int) =~= stems.deep_view());
    }
    r
}

/// The elements of the sorted `a` that do not occur in `b`, in order.
fn sorted_diff(a: &Vec<String>, b: &Vec<String>) -> (r: Vec<String>)
    requires
        strictly_sorted(a.deep_view()),
    ensures
        strictly_sorted(r.deep_view()),
        forall|s: Seq<char>| #[trigger]
            r.deep_view().contains(s) <==> (a.deep_view().contains(s)
                && !b.deep_view().contains(s)),
{
    let n = a.len();
    let mut r: Vec<String> = Vec::new();
    let ghost mut last: int = 0;
    let mut i: usize = 0;
    while i < n
        invariant
            n == a.len(),
            0 <= i <= n,
            strictly_sorted(a.deep_view()),
            strictly_sorted(r.deep_view()),
            r.deep_view().len() > 0 ==> 0 <= last < i && r.deep_view().last() == a.deep_view()[last],
            forall|s: Seq<char>| #[trigger]
                r.deep_view().contains(s) <==> (a.deep_view().take(i as int).contains(s)
                    && !b.deep_view().contains(s)),
        decreases n - i,
    {
        let ghost adv = a.deep_view();
        let ghost pre = r.deep_view();
        let absent = !vec_contains_str(b, a[i].as_str());
        if absent {
            proof {
                if pre.len() > 0 {
                    assert(lex_lt(adv[last], adv[i as int]));
                }
                lemma_sorted_push(pre, adv[i as int]);
            }
            r.push(a[i].clone());
            proof {
                assert(r.deep_view() =~= pre.push(adv[i as int]));
                last = i as int;
            }
        }
        proof {
            lemma_take_push(adv, i as int);
            assert forall|s: Seq<char>| #[trigger]
                r.deep_view().contains(s) <==> (adv.take(i + 1 as int).contains(s)
                    && !b.deep_view().contains(s)) by {
                lemma_contains_push(adv.take(i as int), adv[i as int], s);
                if absent {
                    lemma_contains_push(pre, adv[i as int], s);
                }
            }
        }
        i += 1;
    }
    proof {
        assert(a.deep_view().take(n as int) =~= a.deep_view());
    }
    r
}

/// What a scan of the two credential directories yields: the known users,
/// the two one-sided asymmetry diagnostics, and the stems dropped for failing
/// the username grammar. Each list is sorted and free of duplicates.
#[derive(Debug)]
pub struct ScanReport {
    /// The known users, sorted.
    pub users: Vec<Username>,
    /// Stems with a certificate but no key.
    pub certs_without_keys: Vec<String>,
    /// Stems with a key but no certificate.
    pub keys_without_certs: Vec<String>,
    /// Member stems rejected by the username grammar.
    pub rejected_stems: Vec<String>,
}

/// Derive the known-user set from the stems found under the two credential
/// directories: the certificate stems united with the key stems minus `ca`,
/// deduplicated, sorted, and filtered by the username grammar; plus the
/// one-sided asymmetry diagnostics, one entry per affected stem.
pub fn get_users(cert_stems: &Vec<String>, key_stems: &Vec<String>) -> (r: ScanReport)
    ensures
        strictly_sorted(r.users.deep_view()),
        forall|i: int| 0 <= i < r.users@.len() ==> (#[trigger] r.users@[i]).wf(),
        forall|s: Seq<char>| #[trigger]
            r.users.deep_view().contains(s) <==> scanner_member(
                cert_stems.deep_view(),
                key_stems.deep_view(),
                s,
            ),
        strictly_sorted(r.certs_without_keys.deep_view()),
        forall|s: Seq<char>| #[trigger]
            r.certs_without_keys.deep_view().contains(s) <==> (cert_stems.deep_view().contains(s)
                && !(key_stems.deep_view().contains(s) && s != ca_stem())),
        strictly_sorted(r.keys_without_certs.deep_view()),
        forall|s: Seq<char>| #[trigger]
            r.keys_without_certs.deep_view().contains(s) <==> (key_stems.deep_view().contains(s)
                && s != ca_stem() && !cert_stems.deep_view().contains(s)),
        strictly_sorted(r.rejected_stems.deep_view()),
        forall|s: Seq<char>| #[trigger]
            r.rejected_stems.deep_view().contains(s) <==> (known_stem(
                cert_stems.deep_view(),
                key_stems.deep_view(),
                s,
            ) && !is_valid_username(s)),
{
    let certs = sorted_unique(cert_stems, false);
    let keys = sorted_unique(key_stems, true);
    let certs_without_keys = sorted_diff(&certs, &keys);
    let keys_without_certs = sorted_diff(&keys, &certs);

    // The union of both sorted stem lists.
    let mut all = certs;
    let kn = keys.len();
    let mut ki: usize = 0;
    while ki < kn
        invariant
            kn == keys.len(),
            0 <= ki <= kn,
            strictly_sorted(all.deep_view()),
            forall|s: Seq<char>| #[trigger]
                all.deep_view().contains(s) <==> (cert_stems.deep_view().contains(s)
                    || keys.deep_view().take(ki as int).contains(s)),
        decreases kn - ki,
    {
        let ghost kdv = keys.deep_view();
        all = sorted_insert(&all, keys[ki].as_str());
        proof {
            lemma_take_push(kdv, ki as int);
            assert forall|s: Seq<char>| #[trigger]
                all.deep_view().contains(s) <==> (cert_stems.deep_view().contains(s)
                    || kdv.take(ki + 1 as int).contains(s)) by {
                lemma_contains_push(kdv.take(ki as int), kdv[ki as int], s);
            }
        }
        ki += 1;
    }
    proof {
        assert(keys.deep_view().take(kn as int) =~= keys.deep_view());
    }

    // Filter the membership set through the username grammar.
    let an = all.len();
    let mut users: Vec<Username> = Vec::new();
    let mut rejected_stems: Vec<String> = Vec::new();
    let ghost mut last_u: int = 0;
    let ghost mut last_rej: int = 0;
    let mut ai: usize = 0;
    while ai < an
        invariant
            an == all.len(),
            0 <= ai <= an,
            strictly_sorted(all.deep_view()),
            forall|s: Seq<char>| #[trigger]
                all.deep_view().contains(s) <==> known_stem(
                    cert_stems.deep_view(),
                    key_stems.deep_view(),
                    s,
                ),
            strictly_sorted(users.deep_view()),
            forall|i: int| 0 <= i < users@.len() ==> (#[trigger] users@[i]).wf(),
            users.deep_view().len() > 0 ==> 0 <= last_u < ai && users.deep_view().last()
                == all.deep_view()[last_u],
            forall|s: Seq<char>| #[trigger]
                users.deep_view().contains(s) <==> (all.deep_view().take(ai as int).contains(s)
                    && is_valid_username(s)),
            strictly_sorted(rejected_stems.deep_view()),
            rejected_stems.deep_view().len() > 0 ==> 0 <= last_rej < ai
                && rejected_stems.deep_view().last() == all.deep_view()[last_rej],
            forall|s: Seq<char>| #[trigger]
                rejected_stems.deep_view().contains(s) <==> (all.deep_view().take(
                    ai as int,
                ).contains(s) && !is_valid_username(s)),
        decreases an - ai,
    {
        let ghost adv = all.deep_view();
        match Username::new(all[ai].as_str()) {
            Ok(u) => {
                let ghost pre = users.deep_view();
                proof {
                    if pre.len() > 0 {
                        assert(lex_lt(adv[last_u], adv[ai as int]));
                    }
                    lemma_sorted_push(pre, adv[ai as int]);
                }
                users.push(u);
                proof {
                    assert(users.deep_view() =~= pre.push(adv[ai as int]));
                    last_u = ai as int;
                    lemma_take_push(adv, ai as int);
                    assert forall|s: Seq<char>| #[trigger]
                        users.deep_view().contains(s) <==> (adv.take(ai + 1 as int).contains(s)
                            && is_valid_username(s)) by {
                        lemma_contains_push(adv.take(ai as int), adv[ai as int], s);
                        lemma_contains_push(pre, adv[ai as int], s);
                    }
                    assert forall|s: Seq<char>| #[trigger]
                        rejected_stems.deep_view().contains(s) <==> (adv.take(
                            ai + 1 as int,
                        ).contains(s) && !is_valid_username(s)) by {
                        lemma_contains_push(adv.take(ai as int), adv[ai as int], s);
                    }
                }
            },
            Err(_) => {
                let ghost pre = rejected_stems.deep_view();
                proof {
                    if pre.len() > 0 {
                        assert(lex_lt(adv[last_rej], adv[ai as int]));
                    }
                    lemma_sorted_push(pre, adv[ai as int]);
                }
                rejected_stems.push(all[ai].clone());
                proof {
                    assert(rejected_stems.deep_view() =~= pre.push(adv[ai as int]));
                    last_rej = ai as int;
                    lemma_take_push(adv, ai as int);
                    assert forall|s: Seq<char>| #[trigger]
                        rejected_stems.deep_view().contains(s) <==> (adv.take(
                            ai + 1 as int,
                        ).contains(s) && !is_valid_username(s)) by {
                        lemma_contains_push(adv.take(ai as int), adv[ai as int], s);
                        lemma_contains_push(pre, adv[ai as int], s);
                    }
                    assert forall|s: Seq<char>| #[trigger]
                        users.deep_view().contains(s) <==> (adv.take(ai + 1 as int).contains(s)
                            && is_valid_username(s)) by {
                        lemma_contains_push(adv.take(ai as int), adv[ai as int], s);
                    }
                }
            },
        }
        ai += 1;
    }
    proof {
        assert(all.deep_view().take(an as int) =~= all.deep_view());
    }

    ScanReport { users, certs_without_keys, keys_without_certs, rejected_stems }
}

/// The user listing: one username per line, in the given order.
pub fn user_list_output(users: &Vec<Username>) -> (r: String)
    ensures
        r@ == crate::strutil::spec_join_lines(users.deep_view()),
{
    let n = users.len();
    let mut lines: Vec<String> = Vec::new();
    let mut i: usize = 0;
    while i < n
        invariant
            n == users.len(),
            0 <= i <= n,
            lines.deep_view() =~= users.deep_view().take(i as int),
        decreases n - i,
    {
        let ghost pre = lines.deep_view();
        lines.push(users[i].to_text());
        proof {
            assert(lines.deep_view() =~= pre.push(users.deep_view()[i as int]));
            assert(users.deep_view().take(i + 1 as int) =~= users.deep_view().take(i as int).push(
                users.deep_view()[i as int],
            ));
        }
        i += 1;
    }
    proof {
        assert(users.deep_view().take(n as int) =~= users.deep_view());
    }
    crate::strutil::join_lines(&lines)
}

} // verus!
