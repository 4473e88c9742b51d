use vstd::prelude::*;

verus! {

/// `s` begins with `prefix`.
pub open spec fn spec_starts_with(s: Seq<char>, prefix: Seq<char>) -> bool {
    prefix.len() <= s.len() && s.take(prefix.len() as int) == prefix
}

/// Whether a string begins with a prefix.
pub fn str_starts_with(s: &str, prefix: &str) -> (r: bool)
    ensures
        r == spec_starts_with(s@, prefix@),
{
    let n = s.unicode_len();
    let m = prefix.unicode_len();
    if m > n {
        return false;
    }
    let mut i: usize = 0;
    while i < m
        invariant
            i <= m,
            m <= n,
            n == s@.len(),
            m == prefix@.len(),
            forall|k: int| 0 <= k < i ==> s@[k] == prefix@[k],
        decreases m - i,
    {
        if s.get_char(i) != prefix.get_char(i) {
            return false;
        }
        i += 1;
    }
    proof {
        assert(s@.take(prefix@.len() as int) =~= prefix@);
    }
    true
}

/// The request paths that are served without a login: static assets and
/// the open part of the interface.
pub fn not_auth(path: &str) -> (r: bool)
    ensures
        r == (spec_starts_with(path@, "/static"@) || spec_starts_with(path@, "/api-open"@)),
{
    str_starts_with(path, "/static") || str_starts_with(path, "/api-open")
}

/// The login gate's decision: a request passes through when its path needs
/// no login or the caller carries an identity; otherwise it is refused
/// with an unauthorized response.
pub fn check_login_allows(path: &str, has_identity: bool) -> (r: bool)
    ensures
        r == (spec_starts_with(path@, "/static"@) || spec_starts_with(path@, "/api-open"@)
            || has_identity),
{
    not_auth(path) || has_identity
}

} // verus!
