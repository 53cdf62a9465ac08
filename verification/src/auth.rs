//! The authentication helper's data: credentials read from a two-line
//! text, the session token, and the login request body.

use vstd::prelude::*;

verus! {

/// Login credentials: username on the first line, password on the second.
pub struct LoginInfo {
    pub username: String,
    pub password: String,
}

/// Session token handed out by the site before a login.
pub struct Token {
    pub token: String,
}

/// Position of the first line break at or after `from`; the length when
/// there is none.
pub open spec fn find_newline(s: Seq<char>, from: int) -> int
    decreases s.len() - from when 0 <= from <= s.len()
{
    if from >= s.len() {
        s.len() as int
    } else if s[from] == '\n' {
        from
    } else {
        find_newline(s, from + 1)
    }
}

/// A line with a trailing carriage return dropped.
pub open spec fn strip_cr(t: Seq<char>) -> Seq<char> {
    if t.len() > 0 && t.last() == '\r' {
        t.drop_last()
    } else {
        t
    }
}

/// The credentials text carries at least two lines.
pub open spec fn login_lines_ok(s: Seq<char>) -> bool {
    find_newline(s, 0) + 1 < s.len()
}

/// The first line of the credentials text.
pub open spec fn first_login_line(s: Seq<char>) -> Seq<char> {
    strip_cr(s.subrange(0, find_newline(s, 0)))
}

/// The second line of the credentials text.
pub open spec fn second_login_line(s: Seq<char>) -> Seq<char> {
    strip_cr(s.subrange(find_newline(s, 0) + 1, find_newline(s, find_newline(s, 0) + 1)))
}

fn find_newline_exec(s: &str, from: usize) -> (r: usize)
    requires
        from <= s@.len(),
    ensures
        r == find_newline(s@, from as int),
        from <= r <= s@.len(),
{
    let n = s.unicode_len();
    let mut i: usize = from;
    while i < n && s.get_char(i) != '\n'
        invariant
            from <= i <= n,
            n == s@.len(),
            find_newline(s@, from as int) == find_newline(s@, i as int),
        decreases n - i,
    {
        i = i + 1;
    }
    i
}

fn substring_strip_cr(s: &str, from: usize, to: usize) -> (r: String)
    requires
        from <= to <= s@.len(),
    ensures
        r@ == strip_cr(s@.subrange(from as int, to as int)),
{
    if to > from && s.get_char(to - 1) == '\r' {
        proof {
            assert(s@.subrange(from as int, to as int).last() == s@[to - 1]);
            assert(s@.subrange(from as int, to - 1) =~= s@.subrange(
                from as int,
                to as int,
            ).drop_last());
        }
        String::from_str(s.substring_char(from, to - 1))
    } else {
        proof {
            if to > from {
                assert(s@.subrange(from as int, to as int).last() == s@[to - 1]);
            }
        }
        String::from_str(s.substring_char(from, to))
    }
}

/// Splits a credentials text into username and password, the first two
/// lines; `None` when a second line is missing.
pub fn parse_login_info(contents: &str) -> (r: Option<LoginInfo>)
    ensures
        r is Some <==> login_lines_ok(contents@),
        r matches Some(info) ==> info.username@ == first_login_line(contents@)
            && info.password@ == second_login_line(contents@),
{
    let n = contents.unicode_len();
    let i = find_newline_exec(contents, 0);
    if i >= n || i + 1 >= n {
        return None;
    }
    let j = find_newline_exec(contents, i + 1);
    let username = substring_strip_cr(contents, 0, i);
    let password = substring_strip_cr(contents, i + 1, j);
    Some(LoginInfo { username, password })
}

/// The "token" string field of a JSON object; `None` when the text is not
/// a JSON object with such a field. A function of the text alone.
pub uninterp spec fn token_of(s: Seq<char>) -> Option<Seq<char>>;

/// Relies on serde_json::from_str and Value::get: reads the "token"
/// string field out of a JSON object.
#[verifier::external_body]
fn json_token_field(s: &str) -> (r: Option<String>)
    ensures
        r.deep_view() == token_of(s@),
{
    let value: serde_json::Value = serde_json::from_str(s).ok()?;
    Some(value.get("token")?.as_str()?.to_string())
}

/// Parses the token dispenser's JSON answer into a session token.
pub fn parse_token(text: &str) -> (r: Option<Token>)
    ensures
        r is Some <==> token_of(text@) is Some,
        r matches Some(t) ==> Some(t.token@) == token_of(text@),
{
    match json_token_field(text) {
        Some(tok) => Some(Token { token: tok }),
        None => None,
    }
}

/// Builds the form body of the login POST from the session token and the
/// credentials.
pub fn login_body(token: &str, info: &LoginInfo) -> (r: String)
    ensures
        r@ == "authenticity_token="@ + token@ + "&user%5Blogin%5D="@ + info.username@
            + "&user%5Bpassword%5D="@ + info.password@ + "&commit=Log+In"@,
{
    String::from_str("authenticity_token=").concat(token).concat("&user%5Blogin%5D=").concat(
        info.username.as_str(),
    ).concat("&user%5Bpassword%5D=").concat(info.password.as_str()).concat("&commit=Log+In")
}

} // verus!
