//! The download server's request rules: the size that a file name asks
//! for, the answer it gets, and the headers of a download.
use vstd::prelude::*;
use vstd::string::{StrSliceExecFns, StringExecFns};
use human_size::ParsingError;

use crate::logger::{decimal, push_decimal};

verus! {

/// The largest download served where none is configured: 10 GiB.
pub const MAX_FILE_SIZE: u64 = 10 * 1024 * 1024 * 1024;

/// The error of human_size's size parser, carried as it is.
#[verifier::external_type_specification]
#[verifier::external_body]
pub struct ExParsingError(human_size::ParsingError);

/// The byte count that human_size reads from `s`, if it reads one.
pub uninterp spec fn human_size_bytes(s: Seq<char>) -> Option<u64>;

/// Relies on human_size's `FromStr` for `Size` and on
/// `SpecificSize::to_bytes`: whether `s` parses, and to how many bytes,
/// depend on `s` alone. The parser splits `s` where its number ends, at a
/// character count used as a byte index; with every numeric character
/// ASCII the two agree and the split cannot panic.
#[verifier::external_body]
fn parse_size_text(s: &str) -> (r: Result<u64, ParsingError>)
    requires
        numerics_ascii(s@),
    ensures
        r is Ok <==> human_size_bytes(s@) is Some,
        r matches Ok(v) ==> human_size_bytes(s@) == Some(v),
{
    match s.parse::<human_size::Size>() {
        Ok(sz) => Ok(sz.to_bytes()),
        Err(e) => Err(e),
    }
}

/// The upper-case form of `s`, as std's `str::to_uppercase` gives it.
pub uninterp spec fn upper_of(s: Seq<char>) -> Seq<char>;

/// Relies on `str::to_uppercase`: the result depends on the characters alone.
#[verifier::external_body]
fn uppercase(s: &str) -> (r: String)
    ensures
        r@ == upper_of(s@),
{
    s.to_uppercase()
}

/// Whether std's `char::is_numeric` holds of `c`.
pub uninterp spec fn char_is_numeric(c: char) -> bool;

/// Relies on `char::is_numeric`: whether `c` is in one of Unicode's number
/// categories, which depends on `c` alone.
#[verifier::external_body]
fn is_numeric(c: char) -> (r: bool)
    ensures
        r == char_is_numeric(c),
{
    c.is_numeric()
}

/// Every numeric character of `s` is ASCII.
pub open spec fn numerics_ascii(s: Seq<char>) -> bool {
    forall|i: int| 0 <= i < s.len() && char_is_numeric(s[i]) ==> (s[i] as u32) < 128
}

/// Whether every numeric character of `s` is ASCII.
fn numerics_are_ascii(s: &str) -> (r: bool)
    ensures
        r == numerics_ascii(s@),
{
    let n = s.unicode_len();
    let mut i: usize = 0;
    while i < n
        invariant
            n == s@.len(),
            i <= n,
            forall|j: int| 0 <= j < i && char_is_numeric(s@[j]) ==> (s@[j] as u32) < 128,
        decreases n - i,
    {
        let c = s.get_char(i);
        if is_numeric(c) && (c as u32) >= 128 {
            return false;
        }
        i = i + 1;
    }
    true
}

/// What human_size reads from `s`, where its numeric characters are all
/// ASCII; nothing otherwise.
pub open spec fn read_size(s: Seq<char>) -> Option<u64> {
    if numerics_ascii(s) {
        human_size_bytes(s)
    } else {
        None
    }
}

/// Why a file name gives no size.
#[derive(Debug)]
pub enum SizeError {
    /// human_size does not read the size part.
    Unparsable(ParsingError),
    /// The size part holds a numeric character outside ASCII, which is no
    /// size either.
    NonAsciiNumeral,
}

/// The index of the first `c` in `s` at or after `i`, or the length of `s`.
pub open spec fn index_from(s: Seq<char>, c: char, i: int) -> int
    decreases s.len() - i,
{
    if i >= s.len() {
        s.len() as int
    } else if s[i] == c {
        i
    } else {
        index_from(s, c, i + 1)
    }
}

/// `s` with each `ab`, taken left to right without overlap, replaced by `to`.
pub open spec fn replace_pair_spec(s: Seq<char>, a: char, b: char, to: Seq<char>) -> Seq<char>
    decreases s.len(),
{
    if s.len() < 2 {
        s
    } else if s[0] == a && s[1] == b {
        to + replace_pair_spec(s.subrange(2, s.len() as int), a, b, to)
    } else {
        seq![s[0]] + replace_pair_spec(s.drop_first(), a, b, to)
    }
}

/// The size part of a file name: what precedes its first `.`, with `kb` and
/// `KB` written `kB`.
pub open spec fn size_text(name: Seq<char>) -> Seq<char> {
    let stem = name.subrange(0, index_from(name, '.', 0));
    replace_pair_spec(
        replace_pair_spec(stem, 'k', 'b', seq!['k', 'B']),
        'K',
        'B',
        seq!['k', 'B'],
    )
}

/// The byte count that a file name asks for: its size part as human_size
/// reads it, or else as it reads the upper-case form; a form with a
/// numeric character outside ASCII gives nothing.
pub open spec fn size_of_name(name: Seq<char>) -> Option<u64> {
    match read_size(size_text(name)) {
        Some(v) => Some(v),
        None => read_size(upper_of(size_text(name))),
    }
}

proof fn lemma_index_from_bound(s: Seq<char>, c: char, i: int)
    requires
        0 <= i <= s.len(),
    ensures
        i <= index_from(s, c, i) <= s.len(),
    decreases s.len() - i,
{
    if i < s.len() && s[i] != c {
        lemma_index_from_bound(s, c, i + 1);
    }
}

/// The index of the first `c` in `s`, or the length of `s`.
pub(crate) fn find_char(s: &str, c: char) -> (r: usize)
    ensures
        r == index_from(s@, c, 0),
        r <= s@.len(),
{
    proof {
        lemma_index_from_bound(s@, c, 0);
    }
    let n = s.unicode_len();
    let mut i: usize = 0;
    while i < n && s.get_char(i) != c
        invariant
            n == s@.len(),
            i <= n,
            index_from(s@, c, i as int) == index_from(s@, c, 0),
        decreases n - i,
    {
        i = i + 1;
    }
    i
}

/// `s` with each `ab`, left to right without overlap, replaced by `to`.
fn replace_pair(s: &str, a: char, b: char, to: &str) -> (r: String)
    ensures
        r@ == replace_pair_spec(s@, a, b, to@),
{
    let n = s.unicode_len();
    let ghost full = s@;
    let mut out = String::new();
    let mut last: usize = 0;
    let mut i: usize = 0;
    proof {
        assert(full.subrange(0, n as int) =~= full);
        assert(out@ + full.subrange(0, 0) =~= Seq::<char>::empty());
    }
    while i < n
        invariant
            n == full.len(),
            full == s@,
            last <= i <= n,
            out@ + full.subrange(last as int, i as int) + replace_pair_spec(
                full.subrange(i as int, n as int),
                a,
                b,
                to@,
            ) == replace_pair_spec(full, a, b, to@),
        decreases n - i,
    {
        let ghost rest = full.subrange(i as int, n as int);
        if i + 1 < n && s.get_char(i) == a && s.get_char(i + 1) == b {
            proof {
                assert(rest.subrange(2, rest.len() as int) =~= full.subrange(i + 2, n as int));
            }
            out.append(s.substring_char(last, i));
            out.append(to);
            proof {
                assert(full.subrange(i as int + 2, i as int + 2) =~= Seq::<char>::empty());
                assert(out@ + full.subrange(i + 2, i + 2) =~= out@);
            }
            i = i + 2;
            last = i;
        } else {
            proof {
                if rest.len() >= 2 {
                    assert(rest.drop_first() =~= full.subrange(i + 1, n as int));
                } else {
                    assert(full.subrange(i + 1, n as int) =~= Seq::<char>::empty());
                }
                assert(full.subrange(last as int, i as int) + seq![full[i as int]] =~= full.subrange(
                    last as int,
                    i + 1,
                ));
            }
            i = i + 1;
        }
    }
    out.append(s.substring_char(last, n));
    proof {
        assert(full.subrange(n as int, n as int) =~= Seq::<char>::empty());
        assert(out@ =~= replace_pair_spec(full, a, b, to@));
    }
    out
}

/// The byte count that a file name such as `1000mb.bin` asks for: the part
/// before the first `.`, with `kb` and `KB` read as `kB`, parsed by
/// human_size, in upper case where it does not parse as it is. A form with
/// a numeric character outside ASCII is not parsed.
pub fn size(name: &str) -> (r: Result<u64, SizeError>)
    ensures
        r is Ok <==> size_of_name(name@) is Some,
        r matches Ok(v) ==> size_of_name(name@) == Some(v),
{
    proof {
        reveal_strlit("kB");
    }
    let dot = find_char(name, '.');
    let stem = name.substring_char(0, dot);
    let t1 = replace_pair(stem, 'k', 'b', "kB");
    let t2 = replace_pair(t1.as_str(), 'K', 'B', "kB");
    assert("kB"@ =~= seq!['k', 'B']);
    assert(t2@ == size_text(name@));
    if numerics_are_ascii(t2.as_str()) {
        if let Ok(v) = parse_size_text(t2.as_str()) {
            return Ok(v);
        }
    }
    let up = uppercase(t2.as_str());
    if !numerics_are_ascii(up.as_str()) {
        return Err(SizeError::NonAsciiNumeral);
    }
    match parse_size_text(up.as_str()) {
        Ok(v) => Ok(v),
        Err(e) => Err(SizeError::Unparsable(e)),
    }
}

/// How the server answers a request for a file name.
#[derive(Clone, Copy, Debug, PartialEq, Eq, Structural)]
pub enum SizeRequest {
    /// Stream this many bytes.
    Stream(u64),
    /// The size parses but exceeds the maximum.
    TooBig,
    /// The name starts like a number but is no size.
    CannotParse,
    /// The name is no size at all.
    NotFound,
}

/// The answer for a parsed size (if any), whether the name starts with a
/// numeric character, and the largest size served.
pub open spec fn classify_spec(parsed: Option<u64>, leading_numeric: bool, max: u64) -> SizeRequest {
    match parsed {
        Some(sz) => if sz > max {
            SizeRequest::TooBig
        } else {
            SizeRequest::Stream(sz)
        },
        None => if leading_numeric {
            SizeRequest::CannotParse
        } else {
            SizeRequest::NotFound
        },
    }
}

/// Whether the first character of `s` is numeric.
pub open spec fn leading_numeric(s: Seq<char>) -> bool {
    s.len() > 0 && char_is_numeric(s[0])
}

/// The answer for a parsed size, given whether the name starts with a
/// numeric character and the largest size served.
pub fn classify(parsed: Option<u64>, leading_numeric: bool, max: u64) -> (r: SizeRequest)
    ensures
        r == classify_spec(parsed, leading_numeric, max),
{
    match parsed {
        Some(sz) => if sz > max {
            SizeRequest::TooBig
        } else {
            SizeRequest::Stream(sz)
        },
        None => if leading_numeric {
            SizeRequest::CannotParse
        } else {
            SizeRequest::NotFound
        },
    }
}

/// Whether the first character of `s` is numeric.
fn starts_numeric(s: &str) -> (r: bool)
    ensures
        r == leading_numeric(s@),
{
    if s.unicode_len() == 0 {
        false
    } else {
        is_numeric(s.get_char(0))
    }
}

/// How the server answers a request for `filename` when at most `max`
/// bytes are served.
pub fn size_request(filename: &str, max: u64) -> (r: SizeRequest)
    ensures
        r == classify_spec(size_of_name(filename@), leading_numeric(filename@), max),
{
    let parsed = match size(filename) {
        Ok(v) => Some(v),
        Err(_) => None,
    };
    classify(parsed, starts_numeric(filename), max)
}

/// The largest download served: the configured one, or `MAX_FILE_SIZE`.
pub fn max_size(configured: Option<u64>) -> (r: u64)
    ensures
        r == match configured {
            Some(m) => m,
            None => MAX_FILE_SIZE,
        },
{
    match configured {
        Some(m) => m,
        None => MAX_FILE_SIZE,
    }
}

impl SizeRequest {
    /// The HTTP status of the answer.
    pub fn status(&self) -> (r: u16)
        ensures
            r == match *self {
                SizeRequest::Stream(_) => 200u16,
                SizeRequest::TooBig => 400u16,
                SizeRequest::CannotParse => 400u16,
                SizeRequest::NotFound => 404u16,
            },
    {
        match self {
            SizeRequest::Stream(_) => 200,
            SizeRequest::TooBig => 400,
            SizeRequest::CannotParse => 400,
            SizeRequest::NotFound => 404,
        }
    }

    /// The plain-text body of an answer that streams nothing.
    pub fn message(&self) -> (r: &'static str)
        ensures
            r@ == match *self {
                SizeRequest::Stream(_) => ""@,
                SizeRequest::TooBig => "too big"@,
                SizeRequest::CannotParse => "cannot parse size"@,
                SizeRequest::NotFound => "Not Found"@,
            },
    {
        match self {
            SizeRequest::Stream(_) => "",
            SizeRequest::TooBig => "too big",
            SizeRequest::CannotParse => "cannot parse size",
            SizeRequest::NotFound => "Not Found",
        }
    }
}

/// The headers of a download of `size` bytes named `filename`: binary
/// content, an attachment under that name, its exact length, and no caching.
pub fn download_headers(filename: &str, size: u64) -> (r: Vec<(String, String)>)
    ensures
        r@.len() == 6,
        r@[0].0@ == "content-type"@ && r@[0].1@ == "application/binary"@,
        r@[1].0@ == "content-disposition"@ && r@[1].1@ == "attachment; filename="@ + filename@,
        r@[2].0@ == "content-length"@ && r@[2].1@ == decimal(size as nat),
        r@[3].0@ == "cache-control"@ && r@[3].1@ == "no-cache, no-store, no-transform, must-revalidate"@,
        r@[4].0@ == "pragma"@ && r@[4].1@ == "no-cache"@,
        r@[5].0@ == "connection"@ && r@[5].1@ == "close"@,
{
    let mut r: Vec<(String, String)> = Vec::new();
    r.push((<String as StringExecFns>::from_str("content-type"), <String as StringExecFns>::from_str("application/binary")));
    let mut disposition = <String as StringExecFns>::from_str("attachment; filename=");
    disposition.append(filename);
    r.push((<String as StringExecFns>::from_str("content-disposition"), disposition));
    let mut length = String::new();
    push_decimal(&mut length, size);
    assert(length@ =~= decimal(size as nat));
    r.push((<String as StringExecFns>::from_str("content-length"), length));
    r.push((
        <String as StringExecFns>::from_str("cache-control"),
        <String as StringExecFns>::from_str("no-cache, no-store, no-transform, must-revalidate"),
    ));
    r.push((<String as StringExecFns>::from_str("pragma"), <String as StringExecFns>::from_str("no-cache")));
    r.push((<String as StringExecFns>::from_str("connection"), <String as StringExecFns>::from_str("close")));
    r
}

/// The index where the last `/`-separated segment of `s[..i]` starts.
pub open spec fn segment_start(s: Seq<char>, i: int) -> int
    decreases i,
{
    if i <= 0 {
        0
    } else if s[i - 1] == '/' {
        i
    } else {
        segment_start(s, i - 1)
    }
}

/// The last `/`-separated segment of a path.
pub open spec fn last_segment(path: Seq<char>) -> Seq<char> {
    path.subrange(segment_start(path, path.len() as int), path.len() as int)
}

/// Whether the reply to `path` with `status` goes to the access log when it
/// is sent: a download that was served (a numeric file name, status 200) is
/// logged by its own transfer account instead.
pub open spec fn logged_on_reply(path: Seq<char>, status: u16) -> bool {
    !(leading_numeric(last_segment(path)) && status == 200)
}

proof fn lemma_segment_start_bound(s: Seq<char>, i: int)
    requires
        0 <= i <= s.len(),
    ensures
        0 <= segment_start(s, i) <= i,
    decreases i,
{
    if i > 0 && s[i - 1] != '/' {
        lemma_segment_start_bound(s, i - 1);
    }
}

/// Whether the reply to `path` with `status` goes to the access log when it
/// is sent, rather than when a download's stream ends.
pub fn log_on_reply(path: &str, status: u16) -> (r: bool)
    ensures
        r == logged_on_reply(path@, status),
{
    let n = path.unicode_len();
    let mut i: usize = n;
    while i > 0 && path.get_char(i - 1) != '/'
        invariant
            n == path@.len(),
            i <= n,
            segment_start(path@, i as int) == segment_start(path@, n as int),
        decreases i,
    {
        i = i - 1;
    }
    proof {
        lemma_segment_start_bound(path@, n as int);
    }
    let seg = path.substring_char(i, n);
    !(starts_numeric(seg) && status == 200)
}

/// A listen address with a leading `*` (any IPv4 address) written as
/// `0.0.0.0`; any other address as it is.
pub fn wildcard_address(addr: &str) -> (r: String)
    ensures
        addr@.len() > 0 && addr@[0] == '*' ==> r@ == "0.0.0.0"@ + addr@.drop_first(),
        !(addr@.len() > 0 && addr@[0] == '*') ==> r@ == addr@,
{
    let n = addr.unicode_len();
    if n > 0 && addr.get_char(0) == '*' {
        let mut r = <String as StringExecFns>::from_str("0.0.0.0");
        r.append(addr.substring_char(1, n));
        assert(addr@.subrange(1, n as int) =~= addr@.drop_first());
        r
    } else {
        <String as StringExecFns>::from_str(addr)
    }
}

} // verus!
