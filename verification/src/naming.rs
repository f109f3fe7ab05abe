//! Workspace and user names, and the volume paths derived from them.
//!
//! A name is path-safe when it is non-empty and made of alphanumeric
//! characters, `_` and `-`; such names can be spliced into a volume path
//! without escaping.

use vstd::prelude::*;
use vstd::string::*;

verus! {

/// What `char::is_alphanumeric` returns; the result depends on the
/// character alone.
pub uninterp spec fn is_unicode_alphanumeric(c: char) -> bool;

/// Relies on `char::is_alphanumeric`: a pure classification of the
/// character.
pub assume_specification[ char::is_alphanumeric ](c: char) -> (r: bool)
    ensures
        r == is_unicode_alphanumeric(c),
;

/// A character that may appear in a workspace or user name.
pub open spec fn pathsafe_char(c: char) -> bool {
    is_unicode_alphanumeric(c) || c == '_' || c == '-'
}

/// A non-empty string of path-safe characters.
pub open spec fn is_pathsafe(s: Seq<char>) -> bool {
    s.len() > 0 && (forall|i: int| 0 <= i < s.len() ==> pathsafe_char(#[trigger] s[i]))
}

/// A string that was rejected because it is empty or contains a character
/// that is neither alphanumeric nor `_` nor `-`.
#[derive(Debug)]
pub struct NotPathsafeError {
    /// The rejected string.
    pub str: String,
}

/// Accepts a name iff it is non-empty and each character is alphanumeric,
/// `_` or `-`; returns the rejected input inside the error otherwise.
pub fn parse_pathsafe(ident: &str) -> (r: Result<String, NotPathsafeError>)
    ensures
        r is Ok <==> is_pathsafe(ident@),
        r is Ok ==> r->Ok_0@ == ident@,
        r is Err ==> r->Err_0.str@ == ident@,
{
    let len = ident.unicode_len();
    if len == 0 {
        return Err(NotPathsafeError { str: ident.to_owned() });
    }
    let mut i: usize = 0;
    while i < len
        invariant
            0 < len == ident@.len(),
            i <= len,
            forall|j: int| 0 <= j < i ==> pathsafe_char(#[trigger] ident@[j]),
        decreases len - i,
    {
        let c = ident.get_char(i);
        if !(c.is_alphanumeric() || c == '_' || c == '-') {
            return Err(NotPathsafeError { str: ident.to_owned() });
        }
        i = i + 1;
    }
    Ok(ident.to_owned())
}

/// The volume path of workspace `name`, owned by `user`, on a filesystem
/// rooted at `root`.
pub open spec fn volume_path(root: Seq<char>, user: Seq<char>, name: Seq<char>) -> Seq<char> {
    root + "/"@ + user + "/"@ + name
}

/// Joins `root`, `user` and `name` with `/` into the workspace's volume
/// path.
pub fn to_volume_string(root: &str, user: &str, name: &str) -> (r: String)
    ensures
        r@ == volume_path(root@, user@, name@),
{
    let mut s: String = root.to_owned();
    s.append("/");
    s.append(user);
    s.append("/");
    s.append(name);
    s
}

/// Compares two strings character by character.
pub fn str_equal(a: &str, b: &str) -> (r: bool)
    ensures
        r == (a@ == b@),
{
    let alen = a.unicode_len();
    let blen = b.unicode_len();
    if alen != blen {
        return false;
    }
    let mut i: usize = 0;
    while i < alen
        invariant
            alen == a@.len(),
            alen == b@.len(),
            i <= alen,
            forall|j: int| 0 <= j < i ==> a@[j] == b@[j],
        decreases alen - i,
    {
        if a.get_char(i) != b.get_char(i) {
            return false;
        }
        i = i + 1;
    }
    proof {
        assert(a@ =~= b@);
    }
    true
}

} // verus!
