//! Path model.
//!
//! Paths are modelled as plain text with `/` as the separator: resolving a
//! path against a base replaces the base when the path is absolute, and the
//! directory part of a relative subpath is its prefix before the last
//! separator. The subpaths a packaging specification carries are confined to
//! relative paths by the [`RelativePathBuf`] type.

use vstd::prelude::*;

verus! {

/// A path is absolute when it starts with the separator.
pub open spec fn is_absolute_path(s: Seq<char>) -> bool {
    s.len() > 0 && s[0] == '/'
}

/// Resolve `b` against `a`: an absolute `b` stands alone; otherwise `b` is
/// appended to `a` behind a separator (none added after an empty `a` or one
/// that already ends with the separator).
pub open spec fn spec_path_join(a: Seq<char>, b: Seq<char>) -> Seq<char> {
    if is_absolute_path(b) {
        b
    } else if a.len() == 0 {
        b
    } else if a.last() == '/' {
        a + b
    } else {
        a + seq!['/'] + b
    }
}

/// Resolve `b` against the base `a`.
pub fn path_join(a: &str, b: &str) -> (r: String)
    ensures
        r@ == spec_path_join(a@, b@),
{
    let bn = b.unicode_len();
    if bn > 0 && b.get_char(0) == '/' {
        return b.to_owned();
    }
    let an = a.unicode_len();
    if an == 0 {
        return b.to_owned();
    }
    let mut r = a.to_owned();
    if a.get_char(an - 1) != '/' {
        r.append("/");
        proof {
            reveal_strlit("/");
            assert(r@ =~= a@ + seq!['/']);
        }
    }
    r.append(b);
    proof {
        if a@.last() != '/' {
            assert(r@ =~= a@ + seq!['/'] + b@);
        }
    }
    r
}

/// The index of the last separator in `s`, if any.
pub open spec fn last_sep_index(s: Seq<char>) -> Option<int>
    decreases s.len(),
{
    if s.len() == 0 {
        None
    } else if s.last() == '/' {
        Some(s.len() - 1)
    } else {
        last_sep_index(s.drop_last())
    }
}

/// An index with the last-separator characterization is the one found.
proof fn lemma_last_sep_unique(s: Seq<char>, i: int)
    requires
        0 <= i < s.len(),
        s[i] == '/',
        forall|j: int| i < j < s.len() ==> s[j] != '/',
    ensures
        last_sep_index(s) == Some(i),
    decreases s.len(),
{
    if i < s.len() - 1 {
        assert(s.last() != '/');
        assert(forall|j: int| 0 <= j < s.len() - 1 ==> #[trigger] s.drop_last()[j] == s[j]);
        lemma_last_sep_unique(s.drop_last(), i);
    }
}

/// No separator anywhere means none is found.
proof fn lemma_no_sep(s: Seq<char>)
    requires
        forall|j: int| 0 <= j < s.len() ==> s[j] != '/',
    ensures
        last_sep_index(s) is None,
    decreases s.len(),
{
    if s.len() > 0 {
        assert(forall|j: int| 0 <= j < s.len() - 1 ==> #[trigger] s.drop_last()[j] == s[j]);
        lemma_no_sep(s.drop_last());
    }
}

/// The directory part a relative subpath implies: its prefix before the last
/// separator, or nothing when there is no separator or only a leading one.
pub open spec fn spec_parent_dir(s: Seq<char>) -> Option<Seq<char>> {
    match last_sep_index(s) {
        Some(i) => if i > 0 {
            Some(s.subrange(0, i))
        } else {
            None
        },
        None => None,
    }
}

/// The directory part of a subpath, to be created before a file lands at the
/// subpath; nothing when the subpath has no directory component.
pub fn parent_dir(s: &str) -> (r: Option<String>)
    ensures
        r is Some <==> spec_parent_dir(s@) is Some,
        r matches Some(p) ==> spec_parent_dir(s@) == Some(p@),
{
    let n = s.unicode_len();
    let mut i = n;
    while i > 0
        invariant
            n == s@.len(),
            0 <= i <= n,
            forall|j: int| i <= j < n ==> s@[j] != '/',
        decreases i,
    {
        if s.get_char(i - 1) == '/' {
            proof {
                lemma_last_sep_unique(s@, i - 1);
            }
            if i - 1 > 0 {
                return Some(s.substring_char(0, i - 1).to_owned());
            }
            return None;
        }
        i -= 1;
    }
    proof {
        lemma_no_sep(s@);
    }
    None
}

/// Why a piece of text was rejected as a relative path.
#[derive(Debug)]
pub enum PathError {
    /// The path is absolute.
    NotRelative { path: String },
}

/// A type-enforced relative owned path.
#[derive(Debug)]
pub struct RelativePathBuf {
    path: String,
}

impl View for RelativePathBuf {
    type V = Seq<char>;

    closed spec fn view(&self) -> Seq<char> {
        self.path@
    }
}

impl DeepView for RelativePathBuf {
    type V = Seq<char>;

    open spec fn deep_view(&self) -> Seq<char> {
        self.view()
    }
}

impl RelativePathBuf {
    /// The type's invariant: the path is relative.
    pub open spec fn wf(&self) -> bool {
        !is_absolute_path(self@)
    }

    /// Accept `path` if it is relative.
    pub fn new(path: String) -> (r: Result<RelativePathBuf, PathError>)
        ensures
            r is Ok <==> !is_absolute_path(path@),
            r matches Ok(p) ==> p@ == path@ && p.wf(),
            r matches Err(PathError::NotRelative { path: t }) ==> t@ == path@,
    {
        if path.unicode_len() > 0 && path.as_str().get_char(0) == '/' {
            Err(PathError::NotRelative { path })
        } else {
            Ok(RelativePathBuf { path })
        }
    }

    /// Wrap a path already known to be relative.
    pub fn from_relative(path: String) -> (r: RelativePathBuf)
        requires
            !is_absolute_path(path@),
        ensures
            r@ == path@,
            r.wf(),
    {
        RelativePathBuf { path }
    }

    /// The path as text.
    pub fn as_str(&self) -> (r: &str)
        ensures
            r@ == self@,
    {
        self.path.as_str()
    }
}

impl Clone for RelativePathBuf {
    fn clone(&self) -> (r: Self)
        ensures
            r@ == self@,
    {
        RelativePathBuf { path: self.path.clone() }
    }
}

} // verus!
