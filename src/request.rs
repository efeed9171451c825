use vstd::prelude::*;
use crate::text::starts_with;

verus! {

pub open spec fn bearer_prefix() -> Seq<char> {
    seq!['B', 'e', 'a', 'r', 'e', 'r', ' ']
}

pub open spec fn cookie_prefix() -> Seq<char> {
    seq!['t', 'o', 'k', 'e', 'n', '=']
}

/// `s` without the prefix `p`, if it begins with it.
pub open spec fn strip_prefix(s: Seq<char>, p: Seq<char>) -> Option<Seq<char>> {
    if p.len() <= s.len() && s.subrange(0, p.len() as int) == p {
        Some(s.subrange(p.len() as int, s.len() as int))
    } else {
        None
    }
}

pub open spec fn is_space(c: char) -> bool {
    c == ' ' || c == '\t' || c == '\n' || c == '\r'
}

/// The first index from `i` on that does not hold a space.
pub open spec fn trim_lo(s: Seq<char>, i: int) -> int
    decreases s.len() - i,
{
    if 0 <= i < s.len() && is_space(s[i]) {
        trim_lo(s, i + 1)
    } else {
        i
    }
}

/// The end of `s[lo..j]` once trailing spaces are dropped.
pub open spec fn trim_hi(s: Seq<char>, lo: int, j: int) -> int
    decreases j - lo,
{
    if lo < j && is_space(s[j - 1]) {
        trim_hi(s, lo, j - 1)
    } else {
        j
    }
}

/// `s` without leading and trailing spaces.
pub open spec fn trim(s: Seq<char>) -> Seq<char> {
    let lo = trim_lo(s, 0);
    s.subrange(lo, trim_hi(s, lo, s.len() as int))
}

/// The index of the first `;` at or after `from`, or the length.
pub open spec fn seg_end(c: Seq<char>, from: int) -> int
    decreases c.len() - from,
{
    if from >= c.len() {
        c.len() as int
    } else if c[from] == ';' {
        from
    } else {
        seg_end(c, from + 1)
    }
}

/// The value of the first `token=` cookie among the `;`-separated, trimmed
/// segments of `c` from `from` on.
pub open spec fn cookie_from(c: Seq<char>, from: int) -> Option<Seq<char>>
    decreases c.len() - from,
{
    if from < 0 || from > c.len() {
        None
    } else {
        let k = seg_end(c, from);
        match strip_prefix(trim(c.subrange(from, k)), cookie_prefix()) {
            Some(v) => Some(v),
            None => if from <= k < c.len() {
                cookie_from(c, k + 1)
            } else {
                None
            },
        }
    }
}

/// The bearer token of a request: from an `Authorization: Bearer` header first,
/// else from the `token` cookie.
pub open spec fn request_token(authorization: Option<Seq<char>>, cookie: Option<Seq<char>>) -> Option<Seq<char>> {
    match authorization {
        Some(h) if strip_prefix(h, bearer_prefix()) is Some => strip_prefix(h, bearer_prefix()),
        _ => match cookie {
            Some(c) => cookie_from(c, 0),
            None => None,
        },
    }
}

fn strip<'a>(s: &'a str, p: &str) -> (r: Option<&'a str>)
    ensures
        match r {
            Some(x) => strip_prefix(s@, p@) == Some(x@),
            None => strip_prefix(s@, p@) is None,
        },
{
    if starts_with(s, p) {
        let n = s.unicode_len();
        let m = p.unicode_len();
        Some(s.substring_char(m, n))
    } else {
        None
    }
}

fn space(c: char) -> (r: bool)
    ensures
        r == is_space(c),
{
    c == ' ' || c == '\t' || c == '\n' || c == '\r'
}

fn trimmed(s: &str) -> (r: &str)
    ensures
        r@ == trim(s@),
{
    let n = s.unicode_len();
    let mut lo: usize = 0;
    while lo < n && space(s.get_char(lo))
        invariant
            n == s@.len(),
            lo <= n,
            trim_lo(s@, 0) == trim_lo(s@, lo as int),
        decreases n - lo,
    {
        lo = lo + 1;
    }
    assert(trim_lo(s@, lo as int) == lo as int);
    let mut hi: usize = n;
    while hi > lo && space(s.get_char(hi - 1))
        invariant
            n == s@.len(),
            lo <= hi <= n,
            trim_hi(s@, lo as int, n as int) == trim_hi(s@, lo as int, hi as int),
        decreases hi - lo,
    {
        hi = hi - 1;
    }
    assert(trim_hi(s@, lo as int, hi as int) == hi as int);
    s.substring_char(lo, hi)
}

/// The value of the `token` cookie in a `Cookie` header.
pub fn cookie_token(c: &str) -> (r: Option<&str>)
    ensures
        match r {
            Some(x) => cookie_from(c@, 0) == Some(x@),
            None => cookie_from(c@, 0) is None,
        },
{
    let n = c.unicode_len();
    proof {
        reveal_strlit("token=");
        assert("token="@ =~= cookie_prefix());
    }
    let mut from: usize = 0;
    while from <= n
        invariant
            n == c@.len(),
            "token="@ == cookie_prefix(),
            cookie_from(c@, 0) == cookie_from(c@, from as int),
        decreases n + 1 - from,
    {
        let mut k: usize = from;
        while k < n && c.get_char(k) != ';'
            invariant
                n == c@.len(),
                from <= k <= n,
                seg_end(c@, from as int) == seg_end(c@, k as int),
            decreases n - k,
        {
            k = k + 1;
        }
        assert(seg_end(c@, k as int) == k as int);
        let seg = trimmed(c.substring_char(from, k));
        match strip(seg, "token=") {
            Some(v) => {
                return Some(v);
            },
            None => {},
        }
        if k == n {
            return None;
        }
        from = k + 1;
    }
    None
}

/// The bearer token of a request, from the `Authorization` header when it holds a
/// bearer token, else from the `token` cookie.
pub fn extract_token_from_request<'a>(authorization: Option<&'a str>, cookie: Option<&'a str>) -> (r: Option<&'a str>)
    ensures
        match r {
            Some(x) => request_token(view_opt(authorization), view_opt(cookie)) == Some(x@),
            None => request_token(view_opt(authorization), view_opt(cookie)) is None,
        },
{
    proof {
        reveal_strlit("Bearer ");
        assert("Bearer "@ =~= bearer_prefix());
    }
    if let Some(h) = authorization {
        if let Some(t) = strip(h, "Bearer ") {
            return Some(t);
        }
    }
    match cookie {
        Some(c) => cookie_token(c),
        None => None,
    }
}

pub open spec fn view_opt(o: Option<&str>) -> Option<Seq<char>> {
    match o {
        Some(s) => Some(s@),
        None => None,
    }
}

} // verus!

verus! {

/// The session cookie for `token`: HTTP-only, `SameSite=Lax`, secure, for the whole
/// site, kept seven days.
pub fn create_auth_cookie(token: &str) -> (r: String)
    ensures
        r@ == "token="@ + token@ + "; HttpOnly; SameSite=Lax; Max-Age=604800; Path=/; Secure"@,
{
    let mut r = String::from_str("token=");
    r.append(token);
    r.append("; HttpOnly; SameSite=Lax; Max-Age=604800; Path=/; Secure");
    r
}

/// The cookie that clears the session cookie.
pub fn cleared_auth_cookie() -> (r: String)
    ensures
        r@ == "token=; HttpOnly; SameSite=Lax; Max-Age=0; Path=/; Secure"@,
{
    String::from_str("token=; HttpOnly; SameSite=Lax; Max-Age=0; Path=/; Secure")
}

} // verus!
