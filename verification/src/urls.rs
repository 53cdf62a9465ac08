//! URL resolution against the site's base origin, and the login-target
//! test that decides whether a redirect is followed.

use vstd::prelude::*;

verus! {

/// The site's base origin; redirect targets and pagination URLs are
/// resolved against it.
pub open spec fn base_origin() -> Seq<char> {
    "https://archiveofourown.org"@
}

/// An absolute URL is recognised by its scheme prefix.
pub open spec fn starts_with_http(s: Seq<char>) -> bool {
    s.len() >= 4 && s[0] == 'h' && s[1] == 't' && s[2] == 't' && s[3] == 'p'
}

/// A location kept as given when absolute, otherwise resolved against the
/// base origin.
pub open spec fn resolve_spec(loc: Seq<char>) -> Seq<char> {
    if starts_with_http(loc) {
        loc
    } else {
        base_origin() + loc
    }
}

/// The word "login" read at position `i`.
pub open spec fn is_login_at(s: Seq<char>, i: int) -> bool {
    &&& s[i] == 'l'
    &&& s[i + 1] == 'o'
    &&& s[i + 2] == 'g'
    &&& s[i + 3] == 'i'
    &&& s[i + 4] == 'n'
}

/// Whether the string contains the substring "login".
pub open spec fn has_login(s: Seq<char>) -> bool {
    exists|i: int| 0 <= i && i + 5 <= s.len() && is_login_at(s, i)
}

/// The base origin as an executable string.
pub fn base_origin_str() -> (r: &'static str)
    ensures
        r@ == base_origin(),
{
    "https://archiveofourown.org"
}

/// Resolves a location header or navigation href: an absolute URL is kept,
/// a relative one is prefixed with the base origin.
pub fn resolve_location(loc: &str) -> (r: String)
    ensures
        r@ == resolve_spec(loc@),
{
    let n = loc.unicode_len();
    if n >= 4 && loc.get_char(0) == 'h' && loc.get_char(1) == 't' && loc.get_char(2) == 't'
        && loc.get_char(3) == 'p' {
        String::from_str(loc)
    } else {
        String::from_str(base_origin_str()).concat(loc)
    }
}

/// Whether the URL involves a login page.
pub fn contains_login(s: &str) -> (r: bool)
    ensures
        r == has_login(s@),
{
    let n = s.unicode_len();
    if n < 5 {
        return false;
    }
    let mut i: usize = 0;
    while i <= n - 5
        invariant
            5 <= n,
            n == s@.len(),
            0 <= i <= n - 4,
            forall|j: int| 0 <= j < i ==> !is_login_at(s@, j),
        decreases n - i,
    {
        if s.get_char(i) == 'l' && s.get_char(i + 1) == 'o' && s.get_char(i + 2) == 'g'
            && s.get_char(i + 3) == 'i' && s.get_char(i + 4) == 'n' {
            assert(is_login_at(s@, i as int));
            return true;
        }
        i = i + 1;
    }
    assert(forall|j: int| 0 <= j && j + 5 <= n ==> !is_login_at(s@, j));
    false
}

} // verus!
