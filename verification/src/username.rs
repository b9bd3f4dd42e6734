//! Validated usernames.
//!
//! A username doubles as a path segment and as a process argument, so it is
//! restricted to a conservative token grammar: one or more ASCII letters,
//! digits, hyphens or underscores.

use vstd::prelude::*;

verus! {

/// A character that may appear in a username: an ASCII letter, an ASCII
/// digit, a hyphen or an underscore.
pub open spec fn is_username_char(c: char) -> bool {
    ('a' <= c && c <= 'z') || ('A' <= c && c <= 'Z') || ('0' <= c && c <= '9') || c == '_' || c
        == '-'
}

/// The username grammar: a non-empty token of username characters.
pub open spec fn is_valid_username(s: Seq<char>) -> bool {
    s.len() > 0 && (forall|i: int| 0 <= i < s.len() ==> is_username_char(#[trigger] s[i]))
}

/// Why a piece of text was rejected as a username.
#[derive(Debug)]
pub enum UsernameError {
    /// The text is empty or holds a character outside the username grammar.
    NotAToken { text: String },
}

/// A validated username; the identity key throughout the system.
#[derive(Debug)]
pub struct Username {
    text: String,
}

impl View for Username {
    type V = Seq<char>;

    closed spec fn view(&self) -> Seq<char> {
        self.text@
    }
}

impl DeepView for Username {
    type V = Seq<char>;

    open spec fn deep_view(&self) -> Seq<char> {
        self.view()
    }
}

impl Username {
    /// The type's invariant, as a predicate on the view.
    pub open spec fn wf(&self) -> bool {
        is_valid_username(self@)
    }

    /// Validate `s` against the username grammar.
    pub fn new(s: &str) -> (r: Result<Username, UsernameError>)
        ensures
            r is Ok <==> is_valid_username(s@),
            r matches Ok(u) ==> u@ == s@ && u.wf(),
            r matches Err(UsernameError::NotAToken { text }) ==> text@ == s@,
    {
        let len = s.unicode_len();
        if len == 0 {
            return Err(UsernameError::NotAToken { text: s.to_owned() });
        }
        let mut i: usize = 0;
        while i < len
            invariant
                len == s@.len(),
                0 <= i <= len,
                forall|j: int| 0 <= j < i ==> is_username_char(#[trigger] s@[j]),
            decreases len - i,
        {
            let c = s.get_char(i);
            let ok = ('a' <= c && c <= 'z') || ('A' <= c && c <= 'Z') || ('0' <= c && c <= '9')
                || c == '_' || c == '-';
            if !ok {
                return Err(UsernameError::NotAToken { text: s.to_owned() });
            }
            i += 1;
        }
        Ok(Username { text: s.to_owned() })
    }

    /// The username as text.
    pub fn as_str(&self) -> (r: &str)
        ensures
            r@ == self@,
    {
        self.text.as_str()
    }

    /// An owned copy of the username's text.
    pub fn to_text(&self) -> (r: String)
        ensures
            r@ == self@,
    {
        self.text.clone()
    }
}

impl Clone for Username {
    fn clone(&self) -> (r: Self)
        ensures
            r@ == self@,
    {
        Username { text: self.text.clone() }
    }
}

impl PartialEq for Username {
    fn eq(&self, other: &Self) -> (r: bool)
        ensures
            r == (self@ == other@),
    {
        self.text == other.text
    }
}

impl vstd::std_specs::cmp::PartialEqSpecImpl for Username {
    open spec fn obeys_eq_spec() -> bool {
        true
    }

    open spec fn eq_spec(&self, other: &Self) -> bool {
        self@ == other@
    }
}

impl Eq for Username {

}

/// Whether some element of `v` is the username `u`.
pub fn vec_contains_username(v: &Vec<Username>, u: &Username) -> (r: bool)
    ensures
        r == v.deep_view().contains(u@),
{
    let n = v.len();
    let mut i: usize = 0;
    while i < n
        invariant
            n == v.len(),
            0 <= i <= n,
            forall|j: int| 0 <= j < i ==> v.deep_view()[j] != u@,
        decreases n - i,
    {
        if v[i] == *u {
            assert(v.deep_view()[i as int] == u@);
            return true;
        }
        i += 1;
    }
    assert(!v.deep_view().contains(u@)) by {
        assert(forall|j: int| 0 <= j < v.deep_view().len() ==> v.deep_view()[j] != u@);
    }
    false
}

} // verus!
