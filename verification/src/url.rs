//! URLs of the form `scheme://host[:port][/path]`.
//!
//! [`extract_path`] is total: it finds the resource path in any string.
//! [`Url::parse`] is strict: it accepts only what names a peer to dial.

use vstd::prelude::*;
use vstd::slice::slice_subrange;
use vstd::std_specs::iter::IteratorSpec;
use vstd::string::*;
use crate::error::{plain_error, Error, ErrorKind};

verus! {

broadcast use vstd::string::group_string_axioms;

/// Position of the first `c` in `s` at or after `from`, or `s.len()` when there is none.
pub open spec fn index_from(s: Seq<char>, c: char, from: int) -> int
    decreases s.len() - from,
{
    if from < 0 || from >= s.len() {
        s.len() as int
    } else if s[from] == c {
        from
    } else {
        index_from(s, c, from + 1)
    }
}

/// Where the authority begins: just past `://` when the first `/` of the
/// string belongs to such a separator, else at the start of the string.
pub open spec fn authority_start(url: Seq<char>) -> int {
    let i = index_from(url, '/', 0);
    if 1 <= i && i + 1 < url.len() && url[i - 1] == ':' && url[i + 1] == '/' {
        i + 2
    } else {
        0
    }
}

/// Where the authority ends: at the first `/` after it begins, or at the end of the string.
pub open spec fn authority_end(url: Seq<char>) -> int {
    index_from(url, '/', authority_start(url))
}

/// The resource path: everything from the first `/` after the authority, or `/` when there is none.
pub open spec fn path_of(url: Seq<char>) -> Seq<char> {
    let end = authority_end(url);
    if end < url.len() {
        url.subrange(end, url.len() as int)
    } else {
        seq!['/']
    }
}

/// The scheme: what stands before `://`, empty when there is no separator.
pub open spec fn scheme_of(url: Seq<char>) -> Seq<char> {
    let start = authority_start(url);
    if start >= 3 {
        url.subrange(0, start - 3)
    } else {
        Seq::empty()
    }
}

/// The authority, `host[:port]`.
pub open spec fn authority_of(url: Seq<char>) -> Seq<char> {
    url.subrange(authority_start(url), authority_end(url))
}

/// The host: the authority up to its first `:`.
pub open spec fn host_of(url: Seq<char>) -> Seq<char> {
    let authority = authority_of(url);
    authority.subrange(0, index_from(authority, ':', 0))
}

/// The port as written: what follows the first `:` of the authority, if there is one.
pub open spec fn port_text_of(url: Seq<char>) -> Option<Seq<char>> {
    let authority = authority_of(url);
    let colon = index_from(authority, ':', 0);
    if colon < authority.len() {
        Some(authority.subrange(colon + 1, authority.len() as int))
    } else {
        None
    }
}

pub open spec fn is_digit(c: char) -> bool {
    '0' <= c && c <= '9'
}

/// The number that a string of decimal digits writes.
pub open spec fn decimal(digits: Seq<char>) -> nat
    decreases digits.len(),
{
    if digits.len() == 0 {
        0
    } else {
        decimal(digits.drop_last()) * 10 + (digits.last() as u32 - '0' as u32) as nat
    }
}

/// A port is one or more decimal digits whose value fits in sixteen bits.
pub open spec fn is_port_text(text: Seq<char>) -> bool {
    &&& text.len() > 0
    &&& forall|i: int| 0 <= i < text.len() ==> is_digit(#[trigger] text[i])
    &&& decimal(text) <= 0xffff
}

/// The port of the URL, where one is written.
pub open spec fn port_of(url: Seq<char>) -> Option<u16> {
    match port_text_of(url) {
        Some(text) => Some(decimal(text) as u16),
        None => None,
    }
}

/// Whether `url` names a peer: a non-empty scheme, `://`, a non-empty host,
/// and a well-formed port if any is written.
pub open spec fn is_url(url: Seq<char>) -> bool {
    &&& scheme_of(url).len() > 0
    &&& host_of(url).len() > 0
    &&& (port_text_of(url) matches Some(text) ==> is_port_text(text))
}

/// A parsed URL.
#[derive(Clone, Debug, PartialEq, Eq)]
pub struct Url {
    pub scheme: String,
    pub host: String,
    pub port: Option<u16>,
    pub path: String,
}

/// The mathematical value of a [`Url`].
pub struct UrlView {
    pub scheme: Seq<char>,
    pub host: Seq<char>,
    pub port: Option<u16>,
    pub path: Seq<char>,
}

impl View for Url {
    type V = UrlView;

    open spec fn view(&self) -> UrlView {
        UrlView { scheme: self.scheme@, host: self.host@, port: self.port, path: self.path@ }
    }
}

/// The parts of a well-formed URL.
pub open spec fn url_parts(url: Seq<char>) -> UrlView {
    UrlView { scheme: scheme_of(url), host: host_of(url), port: port_of(url), path: path_of(url) }
}

/// `index_from` finds the first occurrence and nothing before it.
pub proof fn lemma_index_from(s: Seq<char>, c: char, from: int)
    requires
        0 <= from <= s.len(),
    ensures
        from <= index_from(s, c, from) <= s.len(),
        index_from(s, c, from) < s.len() ==> s[index_from(s, c, from)] == c,
        forall|j: int| from <= j < index_from(s, c, from) ==> s[j] != c,
    decreases s.len() - from,
{
    if from < s.len() && s[from] != c {
        lemma_index_from(s, c, from + 1);
    }
}

/// The path of any string begins with `/`.
pub proof fn lemma_path_starts_with_slash(url: Seq<char>)
    ensures
        path_of(url).len() > 0,
        path_of(url)[0] == '/',
{
    lemma_index_from(url, '/', 0);
    lemma_index_from(url, '/', authority_start(url));
}

/// The characters of `s`, one by one.
fn chars_of(s: &str) -> (res: Vec<char>)
    ensures
        res@ == s@,
{
    let mut out: Vec<char> = Vec::new();
    for c in it: s.chars()
        invariant
            it.seq() == s@,
            out@ == s@.take(it.index() as int),
    {
        out.push(c);
        assert(out@ =~= s@.take(it.index() + 1));
    }
    assert(out@ =~= s@);
    out
}

fn find_from(s: &[char], c: char, from: usize) -> (res: usize)
    requires
        from <= s@.len(),
    ensures
        res == index_from(s@, c, from as int),
        from <= res <= s@.len(),
{
    let mut i: usize = from;
    while i < s.len()
        invariant
            from <= i <= s@.len(),
            index_from(s@, c, from as int) == index_from(s@, c, i as int),
        decreases s@.len() - i,
    {
        if s[i] == c {
            return i;
        }
        i = i + 1;
    }
    i
}

fn find_authority_start(url: &[char]) -> (res: usize)
    ensures
        res == authority_start(url@),
        res <= url@.len(),
{
    let i = find_from(url, '/', 0);
    if 1 <= i && i < url.len() && i + 1 < url.len() && url[i - 1] == ':' && url[i + 1] == '/' {
        i + 2
    } else {
        0
    }
}

/// The resource path of `url`: everything from the first `/` after the
/// authority, and `/` when the URL names no path.
pub fn extract_path(url: &str) -> (res: String)
    ensures
        res@ == path_of(url@),
{
    let chars = chars_of(url);
    let start = find_authority_start(chars.as_slice());
    let end = find_from(chars.as_slice(), '/', start);
    if end < chars.len() {
        url.substring_char(end, chars.len()).to_owned()
    } else {
        proof {
            reveal_strlit("/");
            assert("/"@ =~= seq!['/']);
        }
        "/".to_owned()
    }
}

fn digit_value(c: char) -> (res: Option<u32>)
    ensures
        res is Some <==> is_digit(c),
        res matches Some(d) ==> d == c as u32 - '0' as u32 && d <= 9,
{
    if '0' <= c && c <= '9' {
        Some(c as u32 - '0' as u32)
    } else {
        None
    }
}

fn parse_port(text: &[char]) -> (res: Option<u16>)
    ensures
        res is Some <==> is_port_text(text@),
        res matches Some(p) ==> p == decimal(text@),
{
    if text.len() == 0 {
        return None;
    }
    let mut value: u32 = 0;
    let mut i: usize = 0;
    while i < text.len()
        invariant
            i <= text@.len(),
            value == decimal(text@.take(i as int)),
            value <= 0xffff,
            forall|j: int| 0 <= j < i ==> is_digit(#[trigger] text@[j]),
        decreases text@.len() - i,
    {
        let c = text[i];
        let ghost before = text@.take(i as int);
        let ghost after = text@.take(i + 1);
        proof {
            assert(after.drop_last() =~= before);
            assert(after.last() == c);
        }
        match digit_value(c) {
            None => {
                return None;
            },
            Some(d) => {
                let next: u32 = value * 10 + d;
                if next > 0xffff {
                    proof {
                        lemma_decimal_grows(text@, i + 1);
                    }
                    return None;
                }
                value = next;
            },
        }
        i = i + 1;
    }
    proof {
        assert(text@.take(i as int) =~= text@);
    }
    Some(value as u16)
}

/// Digits only ever add to the value: a prefix writes no more than the whole.
proof fn lemma_decimal_grows(digits: Seq<char>, n: int)
    requires
        0 <= n <= digits.len(),
    ensures
        decimal(digits.take(n)) <= decimal(digits) || !(forall|j: int|
            0 <= j < digits.len() ==> is_digit(#[trigger] digits[j])),
    decreases digits.len() - n,
{
    if n == digits.len() {
        assert(digits.take(n) =~= digits);
    } else if forall|j: int| 0 <= j < digits.len() ==> is_digit(#[trigger] digits[j]) {
        let longer = digits.take(n + 1);
        assert(longer.drop_last() =~= digits.take(n));
        assert(is_digit(digits[n]));
        assert(longer.last() == digits[n]);
        lemma_decimal_grows(digits, n + 1);
    }
}

impl Url {
    /// Parses `url`, failing with `AddressError` unless it names a peer.
    pub fn parse(url: &str) -> (res: Result<Url, Error>)
        ensures
            match res {
                Ok(parsed) => is_url(url@) && parsed@ == url_parts(url@),
                Err(e) => !is_url(url@) && e@ == plain_error(ErrorKind::AddressError),
            },
    {
        let chars = chars_of(url);
        let start = find_authority_start(chars.as_slice());
        let end = find_from(chars.as_slice(), '/', start);
        if start < 4 {
            return Err(Error::new(ErrorKind::AddressError));
        }
        let authority = slice_subrange(chars.as_slice(), start, end);
        let colon = find_from(authority, ':', 0);
        if colon == 0 {
            return Err(Error::new(ErrorKind::AddressError));
        }
        let port = if colon < authority.len() {
            match parse_port(slice_subrange(authority, colon + 1, authority.len())) {
                Some(p) => Some(p),
                None => {
                    return Err(Error::new(ErrorKind::AddressError));
                },
            }
        } else {
            None
        };
        let scheme = url.substring_char(0, start - 3).to_owned();
        let host = url.substring_char(start, start + colon).to_owned();
        assert(host@ =~= host_of(url@));
        let path = if end < chars.len() {
            url.substring_char(end, chars.len()).to_owned()
        } else {
            proof {
                reveal_strlit("/");
                assert("/"@ =~= seq!['/']);
            }
            "/".to_owned()
        };
        Ok(Url { scheme, host, port, path })
    }
}

} // verus!
