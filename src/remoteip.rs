//! The text of a client address in proxy headers.
//!
//! `X-Forwarded-For` lists addresses, the client's first; `X-Real-IP` holds
//! one; `Forwarded` lists elements, the client's first, whose `for=`
//! parameter names the client. Whether the text is an address is checked where it is used.
use vstd::prelude::*;
use vstd::string::StrSliceExecFns;

use crate::server::{find_char, index_from};

verus! {

/// The first index at or after `i` that holds no space, or the length.
pub open spec fn skip_spaces(s: Seq<char>, i: int) -> int
    decreases s.len() - i,
{
    if i >= s.len() {
        s.len() as int
    } else if s[i] == ' ' {
        skip_spaces(s, i + 1)
    } else {
        i
    }
}

/// The end of `s[lo..j]` once trailing spaces are dropped.
pub open spec fn drop_trailing(s: Seq<char>, lo: int, j: int) -> int
    decreases j - lo,
{
    if j <= lo {
        lo
    } else if s[j - 1] == ' ' {
        drop_trailing(s, lo, j - 1)
    } else {
        j
    }
}

/// `s` without leading and trailing spaces.
pub open spec fn trim_spaces(s: Seq<char>) -> Seq<char> {
    let a = skip_spaces(s, 0);
    s.subrange(a, drop_trailing(s, a, s.len() as int))
}

/// The first entry of a comma-separated header, without surrounding spaces.
pub open spec fn first_entry_spec(h: Seq<char>) -> Seq<char> {
    trim_spaces(h.subrange(0, index_from(h, ',', 0)))
}

/// `s` without leading and trailing spaces.
fn trimmed(s: &str) -> (r: &str)
    ensures
        r@ == trim_spaces(s@),
{
    let n = s.unicode_len();
    let mut a: usize = 0;
    while a < n && s.get_char(a) == ' '
        invariant
            n == s@.len(),
            a <= n,
            skip_spaces(s@, a as int) == skip_spaces(s@, 0),
        decreases n - a,
    {
        a = a + 1;
    }
    let mut b: usize = n;
    while b > a && s.get_char(b - 1) == ' '
        invariant
            n == s@.len(),
            a <= b <= n,
            drop_trailing(s@, a as int, b as int) == drop_trailing(s@, a as int, n as int),
        decreases b - a,
    {
        b = b - 1;
    }
    s.substring_char(a, b)
}

/// The first entry of a comma-separated header such as `X-Forwarded-For`,
/// without surrounding spaces; for a header of one entry, that entry.
pub fn first_entry(h: &str) -> (r: String)
    ensures
        r@ == first_entry_spec(h@),
{
    let comma = find_char(h, ',');
    let head = h.substring_char(0, comma);
    <String as vstd::string::StringExecFns>::from_str(trimmed(head))
}

/// Whether a parameter starts with `for=`, in any letter case.
pub open spec fn is_for_param(p: Seq<char>) -> bool {
    p.len() >= 4 && (p[0] == 'f' || p[0] == 'F') && (p[1] == 'o' || p[1] == 'O') && (p[2] == 'r'
        || p[2] == 'R') && p[3] == '='
}

/// A node name without the quotes around it, and without the brackets of a
/// bare IPv6 address.
pub open spec fn node_text(v: Seq<char>) -> Seq<char> {
    let u = if v.len() >= 2 && v[0] == '"' && v[v.len() - 1] == '"' {
        v.subrange(1, v.len() - 1)
    } else {
        v
    };
    if u.len() >= 2 && u[0] == '[' && u[u.len() - 1] == ']' {
        u.subrange(1, u.len() - 1)
    } else {
        u
    }
}

/// The node of the first `for=` parameter of `e[p..]`, whose parameters are
/// separated by `;`.
pub open spec fn for_param_from(e: Seq<char>, p: int) -> Option<Seq<char>>
    decreases e.len() - p,
{
    if p < 0 || p > e.len() {
        None
    } else {
        let q = index_from(e, ';', p);
        let param = trim_spaces(e.subrange(p, q));
        if is_for_param(param) {
            Some(node_text(param.subrange(4, param.len() as int)))
        } else if q >= e.len() || q < p {
            None
        } else {
            for_param_from(e, q + 1)
        }
    }
}

/// The client node of a `Forwarded` header: the `for=` parameter of its
/// first element.
pub open spec fn forwarded_for_spec(h: Seq<char>) -> Option<Seq<char>> {
    for_param_from(h.subrange(0, index_from(h, ',', 0)), 0)
}

/// The index of the first `c` in `s` at or after `i`, or the length of `s`.
fn find_char_from(s: &str, c: char, i: usize) -> (r: usize)
    requires
        i <= s@.len(),
    ensures
        r == index_from(s@, c, i as int),
        i <= r <= s@.len(),
{
    let n = s.unicode_len();
    let mut k: usize = i;
    while k < n && s.get_char(k) != c
        invariant
            n == s@.len(),
            i <= k <= n,
            index_from(s@, c, k as int) == index_from(s@, c, i as int),
        decreases n - k,
    {
        k = k + 1;
    }
    k
}

/// `v` without the quotes around it, and without the brackets of a bare
/// IPv6 address.
fn strip_node(v: &str) -> (r: &str)
    ensures
        r@ == node_text(v@),
{
    let n = v.unicode_len();
    let u = if n >= 2 && v.get_char(0) == '"' && v.get_char(n - 1) == '"' {
        v.substring_char(1, n - 1)
    } else {
        v
    };
    let m = u.unicode_len();
    if m >= 2 && u.get_char(0) == '[' && u.get_char(m - 1) == ']' {
        u.substring_char(1, m - 1)
    } else {
        u
    }
}

/// The client node that a `Forwarded` header names: the value of the first
/// `for=` parameter of its first element, unquoted, and without brackets
/// where it is a bare IPv6 address.
pub fn forwarded_for(h: &str) -> (r: Option<String>)
    ensures
        r matches Some(s) ==> forwarded_for_spec(h@) == Some(s@),
        r is None ==> forwarded_for_spec(h@) is None,
{
    let comma = find_char(h, ',');
    let e = h.substring_char(0, comma);
    let n = e.unicode_len();
    let mut p: usize = 0;
    loop
        invariant
            n == e@.len(),
            e@ == h@.subrange(0, index_from(h@, ',', 0)),
            p <= n,
            for_param_from(e@, p as int) == for_param_from(e@, 0),
        decreases n - p,
    {
        let q = find_char_from(e, ';', p);
        let param = trimmed(e.substring_char(p, q));
        let m = param.unicode_len();
        let is_for = m >= 4 && (param.get_char(0) == 'f' || param.get_char(0) == 'F') && (
        param.get_char(1) == 'o' || param.get_char(1) == 'O') && (param.get_char(2) == 'r'
            || param.get_char(2) == 'R') && param.get_char(3) == '=';
        if is_for {
            let node = strip_node(param.substring_char(4, m));
            return Some(<String as vstd::string::StringExecFns>::from_str(node));
        }
        if q >= n {
            return None;
        }
        p = q + 1;
    }
}

} // verus!
