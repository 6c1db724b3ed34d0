//! Recognising a version-control remote address.
//!
//! A hosted repository is addressed by one of three shapes, tried in this
//! fixed order, first match wins:
//!
//! 1. raw SSH:  `git@<domain>:<owner>/<repository>[.git]`
//! 2. SSH URL:  `git+ssh://git@<domain>/<owner>/<repository>[.git]`
//!    (only the form with `git@` inside the scheme is supported)
//! 3. HTTPS:    `https://<domain>/<owner>/<repository>[.git]`
//!
//! The input is a byte sequence. After the shape's literal prefix, the
//! domain runs up to the first `:` (raw SSH) or `/` (the URL shapes), the
//! owner up to the next `/`, and the repository is the rest, with one
//! trailing `.git` stripped when it ends the input. Each extracted
//! segment must be valid UTF-8; the owner and the repository must be
//! non-empty.

use vstd::prelude::*;
use vstd::slice::slice_to_vec;
use vstd::utf8::decode_utf8;
use vstd::utf8::encode_scalar;
use vstd::utf8::encode_utf8;
use vstd::utf8::valid_utf8;

verus! {

/// `:` as a byte.
pub const COLON: u8 = 58;

/// `/` as a byte.
pub const SLASH: u8 = 47;

/// Why a remote address was rejected.
#[derive(Debug, PartialEq, Eq)]
pub enum ParseError {
    /// No shape matched; carries the whole input for diagnostics.
    UnrecognizedFormat(Vec<u8>),
    /// An extracted segment is not valid UTF-8.
    InvalidUtf8,
    /// The owner or the repository segment is empty.
    EmptyField,
}

/// `git@`
pub open spec fn raw_ssh_prefix() -> Seq<u8> {
    seq![103u8, 105u8, 116u8, 64u8]
}

/// `git+ssh://git@`
pub open spec fn ssh_url_prefix() -> Seq<u8> {
    seq![103u8, 105u8, 116u8, 43u8, 115u8, 115u8, 104u8, 58u8, 47u8, 47u8, 103u8, 105u8, 116u8, 64u8]
}

/// `https://`
pub open spec fn https_prefix() -> Seq<u8> {
    seq![104u8, 116u8, 116u8, 112u8, 115u8, 58u8, 47u8, 47u8]
}

/// `.git`
pub open spec fn dot_git() -> Seq<u8> {
    seq![46u8, 103u8, 105u8, 116u8]
}

pub open spec fn starts_with(s: Seq<u8>, p: Seq<u8>) -> bool {
    p.len() <= s.len() && s.subrange(0, p.len() as int) == p
}

/// Index of the first occurrence of `d`, if any.
pub open spec fn find_byte(s: Seq<u8>, d: u8) -> Option<int>
    decreases s.len(),
{
    if s.len() == 0 {
        None
    } else if s[0] == d {
        Some(0int)
    } else {
        match find_byte(s.drop_first(), d) {
            None => None,
            Some(i) => Some(i + 1),
        }
    }
}

/// Splits at the first occurrence of `d`; the delimiter itself is dropped.
pub open spec fn split_at_first(s: Seq<u8>, d: u8) -> Option<(Seq<u8>, Seq<u8>)> {
    match find_byte(s, d) {
        None => None,
        Some(i) => Some((s.subrange(0, i), s.subrange(i + 1, s.len() as int))),
    }
}

pub open spec fn ends_with_dot_git(s: Seq<u8>) -> bool {
    s.len() >= 4 && s.subrange(s.len() - 4, s.len() as int) == dot_git()
}

/// Strips one `.git` suffix, and only as a suffix: a repository named
/// `widgets.gitx` keeps its name.
pub open spec fn strip_dot_git(s: Seq<u8>) -> Seq<u8> {
    if ends_with_dot_git(s) {
        s.subrange(0, s.len() - 4)
    } else {
        s
    }
}

/// One shape: its literal prefix, then domain up to `delim`, owner up to
/// `/`, and the rest (less a trailing `.git`) as the repository.
pub open spec fn parse_shape(s: Seq<u8>, prefix: Seq<u8>, delim: u8) -> Option<
    (Seq<u8>, Seq<u8>, Seq<u8>),
> {
    if starts_with(s, prefix) {
        let rest = s.subrange(prefix.len() as int, s.len() as int);
        match split_at_first(rest, delim) {
            None => None,
            Some(t1) => match split_at_first(t1.1, SLASH) {
                None => None,
                Some(t2) => Some((t1.0, t2.0, strip_dot_git(t2.1))),
            },
        }
    } else {
        None
    }
}

/// The three shapes in priority order; the first that succeeds wins.
pub open spec fn split_origin(s: Seq<u8>) -> Option<(Seq<u8>, Seq<u8>, Seq<u8>)> {
    if parse_shape(s, raw_ssh_prefix(), COLON) is Some {
        parse_shape(s, raw_ssh_prefix(), COLON)
    } else if parse_shape(s, ssh_url_prefix(), SLASH) is Some {
        parse_shape(s, ssh_url_prefix(), SLASH)
    } else {
        parse_shape(s, https_prefix(), SLASH)
    }
}

/// The full outcome [`parse_origin`] owes for a given input: segments per
/// [`split_origin`], then the emptiness check on owner and repository,
/// then UTF-8 validation of each segment.
pub open spec fn parse_outcome_matches(
    raw: Seq<u8>,
    r: Result<(String, String, String), ParseError>,
) -> bool {
    match split_origin(raw) {
        None => r matches Err(e) && e matches ParseError::UnrecognizedFormat(inp) && inp@ == raw,
        Some(t) => {
            let (d, o, rp) = t;
            if o.len() == 0 || rp.len() == 0 {
                r matches Err(e) && e is EmptyField
            } else if valid_utf8(d) && valid_utf8(o) && valid_utf8(rp) {
                r matches Ok(v) && v.0@ == decode_utf8(d) && v.1@ == decode_utf8(o) && v.2@
                    == decode_utf8(rp)
            } else {
                r matches Err(e) && e is InvalidUtf8
            }
        },
    }
}

proof fn lemma_find_byte_at(s: Seq<u8>, d: u8, i: int)
    requires
        0 <= i < s.len(),
        s[i] == d,
        forall|j: int| 0 <= j < i ==> s[j] != d,
    ensures
        find_byte(s, d) == Some(i),
    decreases s.len(),
{
    if i > 0 {
        lemma_find_byte_at(s.drop_first(), d, i - 1);
    }
}

proof fn lemma_find_byte_none(s: Seq<u8>, d: u8)
    requires
        forall|j: int| 0 <= j < s.len() ==> s[j] != d,
    ensures
        find_byte(s, d) is None,
    decreases s.len(),
{
    if s.len() > 0 {
        lemma_find_byte_none(s.drop_first(), d);
    }
}

/// What a found index means: it is in range, it hits `d`, and nothing
/// before it does; `None` means `d` does not occur at all.
pub proof fn lemma_find_byte_spec(s: Seq<u8>, d: u8)
    ensures
        find_byte(s, d) matches Some(i) ==> 0 <= i < s.len() && s[i] == d && (forall|j: int|
            0 <= j < i ==> s[j] != d),
        find_byte(s, d) is None ==> forall|j: int| 0 <= j < s.len() ==> s[j] != d,
    decreases s.len(),
{
    if s.len() > 0 && s[0] != d {
        let tail = s.drop_first();
        lemma_find_byte_spec(tail, d);
        match find_byte(tail, d) {
            Some(i) => {
                assert forall|j: int| 0 <= j < i + 1 implies s[j] != d by {
                    if j > 0 {
                        assert(tail[j - 1] != d);
                    }
                }
            },
            None => {
                assert forall|j: int| 0 <= j < s.len() implies s[j] != d by {
                    if j > 0 {
                        assert(tail[j - 1] != d);
                    }
                }
            },
        }
    }
}

fn find_byte_in(s: &[u8], d: u8) -> (r: Option<usize>)
    ensures
        match find_byte(s@, d) {
            None => r is None,
            Some(i) => r matches Some(j) && j as int == i,
        },
{
    let n = s.len();
    let mut k: usize = 0;
    while k < n
        invariant
            0 <= k <= n,
            n == s@.len(),
            forall|j: int| 0 <= j < k ==> s@[j] != d,
        decreases n - k,
    {
        if s[k] == d {
            proof {
                lemma_find_byte_at(s@, d, k as int);
            }
            return Some(k);
        }
        k += 1;
    }
    proof {
        lemma_find_byte_none(s@, d);
    }
    None
}

fn has_prefix(s: &[u8], p: &[u8]) -> (r: bool)
    ensures
        r == starts_with(s@, p@),
{
    let np = p.len();
    if np > s.len() {
        return false;
    }
    let mut k: usize = 0;
    while k < np
        invariant
            0 <= k <= np,
            np == p@.len(),
            np <= s@.len(),
            forall|j: int| 0 <= j < k ==> s@[j] == p@[j],
        decreases np - k,
    {
        if s[k] != p[k] {
            proof {
                assert(s@.subrange(0, p@.len() as int)[k as int] != p@[k as int]);
            }
            return false;
        }
        k += 1;
    }
    proof {
        assert(s@.subrange(0, p@.len() as int) =~= p@);
    }
    true
}

fn strip_dot_git_exec<'a>(s: &'a [u8]) -> (r: &'a [u8])
    ensures
        r@ == strip_dot_git(s@),
{
    let n = s.len();
    if n >= 4 && s[n - 4] == 46 && s[n - 3] == 103 && s[n - 2] == 105 && s[n - 1] == 116 {
        proof {
            assert(s@.subrange(s@.len() - 4, s@.len() as int) =~= dot_git());
        }
        &s[0..n - 4]
    } else {
        proof {
            if s@.len() >= 4 && ends_with_dot_git(s@) {
                assert(s@[s@.len() - 4] == dot_git()[0]);
                assert(s@[s@.len() - 3] == dot_git()[1]);
                assert(s@[s@.len() - 2] == dot_git()[2]);
                assert(s@[s@.len() - 1] == dot_git()[3]);
            }
        }
        s
    }
}

fn parse_with_shape(raw: &[u8], prefix: &[u8], delim: u8) -> (r: Option<(Vec<u8>, Vec<u8>, Vec<u8>)>)
    ensures
        match parse_shape(raw@, prefix@, delim) {
            None => r is None,
            Some(t) => r matches Some(v) && v.0@ == t.0 && v.1@ == t.1 && v.2@ == t.2,
        },
{
    if !has_prefix(raw, prefix) {
        return None;
    }
    let rest = &raw[prefix.len()..raw.len()];
    let di = match find_byte_in(rest, delim) {
        None => {
            return None;
        },
        Some(i) => i,
    };
    proof {
        lemma_find_byte_spec(rest@, delim);
    }
    let domain = slice_to_vec(&rest[0..di]);
    let tail = &rest[di + 1..rest.len()];
    let oi = match find_byte_in(tail, SLASH) {
        None => {
            return None;
        },
        Some(i) => i,
    };
    proof {
        lemma_find_byte_spec(tail@, SLASH);
    }
    let owner = slice_to_vec(&tail[0..oi]);
    let last = &tail[oi + 1..tail.len()];
    let repo = slice_to_vec(strip_dot_git_exec(last));
    Some((domain, owner, repo))
}

/// Declares alloc's FromUtf8Error, the error String::from_utf8 returns,
/// so that it may appear in the specification below.
#[verifier::external_type_specification]
#[verifier::external_body]
pub struct ExFromUtf8Error(std::string::FromUtf8Error);

/// Relies on alloc's String::from_utf8: it succeeds exactly on valid
/// UTF-8, and the returned string is the one those bytes encode.
pub assume_specification[ String::from_utf8 ](v: Vec<u8>) -> (r: Result<
    String,
    std::string::FromUtf8Error,
>)
    ensures
        r matches Ok(s) ==> valid_utf8(v@) && s@ == decode_utf8(v@),
        r is Err ==> !valid_utf8(v@),
;

fn raw_ssh_prefix_vec() -> (v: Vec<u8>)
    ensures
        v@ == raw_ssh_prefix(),
{
    let v: Vec<u8> = vec![103u8, 105u8, 116u8, 64u8];
    proof {
        assert(v@ =~= raw_ssh_prefix());
    }
    v
}

fn ssh_url_prefix_vec() -> (v: Vec<u8>)
    ensures
        v@ == ssh_url_prefix(),
{
    let v: Vec<u8> = vec![
        103u8,
        105u8,
        116u8,
        43u8,
        115u8,
        115u8,
        104u8,
        58u8,
        47u8,
        47u8,
        103u8,
        105u8,
        116u8,
        64u8,
    ];
    proof {
        assert(v@ =~= ssh_url_prefix());
    }
    v
}

fn https_prefix_vec() -> (v: Vec<u8>)
    ensures
        v@ == https_prefix(),
{
    let v: Vec<u8> = vec![104u8, 116u8, 116u8, 112u8, 115u8, 58u8, 47u8, 47u8];
    proof {
        assert(v@ =~= https_prefix());
    }
    v
}

/// Parses a remote address into its (domain, owner, repository) parts.
///
/// The outcome is pinned down by [`parse_outcome_matches`]: the three
/// shapes are tried in priority order; an input that matches none of them
/// comes back inside [`ParseError::UnrecognizedFormat`]; an empty owner
/// or repository segment is [`ParseError::EmptyField`]; a segment that is
/// not valid UTF-8 is [`ParseError::InvalidUtf8`]; otherwise the decoded
/// segments are returned.
pub fn parse_origin(raw: &[u8]) -> (r: Result<(String, String, String), ParseError>)
    ensures
        parse_outcome_matches(raw@, r),
{
    let p1 = raw_ssh_prefix_vec();
    let mut split = parse_with_shape(raw, p1.as_slice(), COLON);
    if split.is_none() {
        let p2 = ssh_url_prefix_vec();
        split = parse_with_shape(raw, p2.as_slice(), SLASH);
    }
    if split.is_none() {
        let p3 = https_prefix_vec();
        split = parse_with_shape(raw, p3.as_slice(), SLASH);
    }
    match split {
        None => Err(ParseError::UnrecognizedFormat(slice_to_vec(raw))),
        Some(t) => {
            let (d, o, rp) = t;
            if o.len() == 0 || rp.len() == 0 {
                return Err(ParseError::EmptyField);
            }
            let ds = match String::from_utf8(d) {
                Ok(s) => s,
                Err(_) => {
                    return Err(ParseError::InvalidUtf8);
                },
            };
            let os = match String::from_utf8(o) {
                Ok(s) => s,
                Err(_) => {
                    return Err(ParseError::InvalidUtf8);
                },
            };
            let rs = match String::from_utf8(rp) {
                Ok(s) => s,
                Err(_) => {
                    return Err(ParseError::InvalidUtf8);
                },
            };
            Ok((ds, os, rs))
        },
    }
}

/// A raw SSH address assembled from its parts.
pub open spec fn raw_ssh_origin(d: Seq<u8>, o: Seq<u8>, rp: Seq<u8>, ext: bool) -> Seq<u8> {
    raw_ssh_prefix() + d + seq![COLON] + o + seq![SLASH] + rp + (if ext {
        dot_git()
    } else {
        Seq::<u8>::empty()
    })
}

/// An SSH URL assembled from its parts.
pub open spec fn ssh_url_origin(d: Seq<u8>, o: Seq<u8>, rp: Seq<u8>, ext: bool) -> Seq<u8> {
    ssh_url_prefix() + d + seq![SLASH] + o + seq![SLASH] + rp + (if ext {
        dot_git()
    } else {
        Seq::<u8>::empty()
    })
}

/// An HTTPS address assembled from its parts.
pub open spec fn https_origin(d: Seq<u8>, o: Seq<u8>, rp: Seq<u8>, ext: bool) -> Seq<u8> {
    https_prefix() + d + seq![SLASH] + o + seq![SLASH] + rp + (if ext {
        dot_git()
    } else {
        Seq::<u8>::empty()
    })
}

/// `.git` is stripped when and only when it ends the segment: appending
/// it to any repository name gives the name back.
pub proof fn lemma_git_suffix_stripped(s: Seq<u8>)
    ensures
        strip_dot_git(s + dot_git()) == s,
{
    let t = s + dot_git();
    assert(t.subrange(t.len() - 4, t.len() as int) =~= dot_git());
    assert(t.subrange(0, t.len() - 4) =~= s);
}

/// A repository segment that does not end in the literal `.git` is kept
/// whole; a name such as `widgets.gitx` is never truncated.
pub proof fn lemma_no_truncation_without_git_suffix(s: Seq<u8>)
    requires
        !ends_with_dot_git(s),
    ensures
        strip_dot_git(s) == s,
{
}

proof fn lemma_shape_round_trip(prefix: Seq<u8>, delim: u8, d: Seq<u8>, o: Seq<u8>, rp: Seq<u8>, ext: bool)
    requires
        !d.contains(delim),
        !o.contains(SLASH),
        !ext ==> !ends_with_dot_git(rp),
    ensures
        parse_shape(
            prefix + d + seq![delim] + o + seq![SLASH] + rp + (if ext {
                dot_git()
            } else {
                Seq::<u8>::empty()
            }),
            prefix,
            delim,
        ) == Some((d, o, rp)),
{
    let last = rp + (if ext {
        dot_git()
    } else {
        Seq::<u8>::empty()
    });
    let s = prefix + d + seq![delim] + o + seq![SLASH] + last;
    assert(s =~= prefix + d + seq![delim] + o + seq![SLASH] + rp + (if ext {
        dot_git()
    } else {
        Seq::<u8>::empty()
    }));
    assert(s.subrange(0, prefix.len() as int) =~= prefix);
    assert(starts_with(s, prefix));
    let rest = s.subrange(prefix.len() as int, s.len() as int);
    assert(rest =~= d + seq![delim] + o + seq![SLASH] + last);
    assert forall|j: int| 0 <= j < d.len() implies rest[j] != delim by {
        if rest[j] == delim {
            assert(d[j] == delim);
            assert(d.contains(delim));
        }
    }
    assert(rest[d.len() as int] == delim);
    lemma_find_byte_at(rest, delim, d.len() as int);
    assert(rest.subrange(0, d.len() as int) =~= d);
    let tail = rest.subrange(d.len() as int + 1, rest.len() as int);
    assert(tail =~= o + seq![SLASH] + last);
    assert forall|j: int| 0 <= j < o.len() implies tail[j] != SLASH by {
        if tail[j] == SLASH {
            assert(o[j] == SLASH);
            assert(o.contains(SLASH));
        }
    }
    assert(tail[o.len() as int] == SLASH);
    lemma_find_byte_at(tail, SLASH, o.len() as int);
    assert(tail.subrange(0, o.len() as int) =~= o);
    assert(tail.subrange(o.len() as int + 1, tail.len() as int) =~= last);
    if ext {
        lemma_git_suffix_stripped(rp);
        assert(last =~= rp + dot_git());
    } else {
        assert(last =~= rp);
        lemma_no_truncation_without_git_suffix(rp);
    }
}

/// Round trip for the raw SSH shape: any address assembled from a domain
/// without `:`, an owner without `/` and a repository, with or without a
/// trailing `.git`, splits back into exactly those parts.
pub proof fn lemma_split_raw_ssh(d: Seq<u8>, o: Seq<u8>, rp: Seq<u8>, ext: bool)
    requires
        !d.contains(COLON),
        !o.contains(SLASH),
        !ext ==> !ends_with_dot_git(rp),
    ensures
        split_origin(raw_ssh_origin(d, o, rp, ext)) == Some((d, o, rp)),
{
    lemma_shape_round_trip(raw_ssh_prefix(), COLON, d, o, rp, ext);
}

/// Round trip for the SSH URL shape.
pub proof fn lemma_split_ssh_url(d: Seq<u8>, o: Seq<u8>, rp: Seq<u8>, ext: bool)
    requires
        !d.contains(SLASH),
        !o.contains(SLASH),
        !ext ==> !ends_with_dot_git(rp),
    ensures
        split_origin(ssh_url_origin(d, o, rp, ext)) == Some((d, o, rp)),
{
    let s = ssh_url_origin(d, o, rp, ext);
    assert(s[3] == 43u8);
    if starts_with(s, raw_ssh_prefix()) {
        assert(s.subrange(0, 4)[3] == 64u8);
        assert(false);
    }
    lemma_shape_round_trip(ssh_url_prefix(), SLASH, d, o, rp, ext);
}

/// Round trip for the HTTPS shape.
pub proof fn lemma_split_https(d: Seq<u8>, o: Seq<u8>, rp: Seq<u8>, ext: bool)
    requires
        !d.contains(SLASH),
        !o.contains(SLASH),
        !ext ==> !ends_with_dot_git(rp),
    ensures
        split_origin(https_origin(d, o, rp, ext)) == Some((d, o, rp)),
{
    let s = https_origin(d, o, rp, ext);
    assert(s[0] == 104u8);
    if starts_with(s, raw_ssh_prefix()) {
        assert(s.subrange(0, 4)[0] == 103u8);
        assert(false);
    }
    if starts_with(s, ssh_url_prefix()) {
        assert(s.subrange(0, 14)[0] == 103u8);
        assert(false);
    }
    lemma_shape_round_trip(https_prefix(), SLASH, d, o, rp, ext);
}

/// The owner segment stops at the first `/`, so it never contains one,
/// whichever shape matched.
pub proof fn lemma_split_owner_no_slash(s: Seq<u8>)
    ensures
        split_origin(s) matches Some(t) ==> !t.1.contains(SLASH),
{
    lemma_shape_owner_no_slash(s, raw_ssh_prefix(), COLON);
    lemma_shape_owner_no_slash(s, ssh_url_prefix(), SLASH);
    lemma_shape_owner_no_slash(s, https_prefix(), SLASH);
}

proof fn lemma_shape_owner_no_slash(s: Seq<u8>, prefix: Seq<u8>, delim: u8)
    ensures
        parse_shape(s, prefix, delim) matches Some(t) ==> !t.1.contains(SLASH),
{
    if starts_with(s, prefix) {
        let rest = s.subrange(prefix.len() as int, s.len() as int);
        match find_byte(rest, delim) {
            Some(i) => {
                let tail = rest.subrange(i + 1, rest.len() as int);
                lemma_find_byte_spec(tail, SLASH);
                match find_byte(tail, SLASH) {
                    Some(k) => {
                        let owner = tail.subrange(0, k);
                        if owner.contains(SLASH) {
                            let j = choose|j: int| 0 <= j < owner.len() && owner[j] == SLASH;
                            assert(tail[j] == SLASH);
                        }
                    },
                    None => {},
                }
            },
            None => {},
        }
    }
}

/// The encoding of a text that contains an ASCII character contains that
/// character's byte.
pub proof fn lemma_encode_contains_ascii(chars: Seq<char>, c: char)
    requires
        chars.contains(c),
        c <= '\u{7f}',
    ensures
        encode_utf8(chars).contains(c as u8),
    decreases chars.len(),
{
    let b = encode_utf8(chars);
    let head = encode_scalar(chars[0] as u32);
    assert(b == head + encode_utf8(chars.drop_first()));
    if chars[0] == c {
        let u = c as u32;
        vstd::utf8::char_is_scalar(c);
        assert(u <= 0x7f);
        assert(u & 0x7f == u) by (bit_vector)
            requires
                u <= 0x7f,
        ;
        assert(head =~= seq![(u as u8)]);
        assert(b[0] == u as u8);
        assert(u as u8 == c as u8);
        assert(b.contains(c as u8));
    } else {
        let i = choose|i: int| 0 <= i < chars.len() && chars[i] == c;
        assert(chars.drop_first()[i - 1] == c);
        assert(chars.drop_first().contains(c));
        lemma_encode_contains_ascii(chars.drop_first(), c);
        let t = encode_utf8(chars.drop_first());
        let j = choose|j: int| 0 <= j < t.len() && t[j] == c as u8;
        assert(b[head.len() + j] == c as u8);
        assert(b.contains(c as u8));
    }
}

/// Whether a text ends in the four characters `.git`.
pub open spec fn chars_end_with_dot_git(s: Seq<char>) -> bool {
    s.len() >= 4 && s[s.len() - 4] == '.' && s[s.len() - 3] == 'g' && s[s.len() - 2] == 'i' && s[s.len()
        - 1] == 't'
}

proof fn lemma_ascii_encode_facts(c: Seq<char>)
    requires
        vstd::utf8::is_ascii_chars(c),
    ensures
        encode_utf8(c).len() == c.len(),
        forall|i: int| 0 <= i < c.len() ==> #[trigger] encode_utf8(c)[i] == c[i] as u8,
        valid_utf8(encode_utf8(c)),
        decode_utf8(encode_utf8(c)) == c,
{
    vstd::utf8::is_ascii_chars_encode_utf8(c);
    vstd::utf8::encode_utf8_valid_utf8(c);
    vstd::utf8::encode_utf8_decode_utf8(c);
}

proof fn lemma_ascii_avoids_byte(c: Seq<char>, ch: char)
    requires
        vstd::utf8::is_ascii_chars(c),
        !c.contains(ch),
        ch <= '\u{7f}',
    ensures
        !encode_utf8(c).contains(ch as u8),
{
    lemma_ascii_encode_facts(c);
    let b = encode_utf8(c);
    if b.contains(ch as u8) {
        let i = choose|i: int| 0 <= i < b.len() && b[i] == ch as u8;
        assert(c[i] as u8 == ch as u8);
        assert(c[i] == ch);
        assert(c.contains(ch));
    }
}

proof fn lemma_ascii_git_suffix(c: Seq<char>)
    requires
        vstd::utf8::is_ascii_chars(c),
        !chars_end_with_dot_git(c),
    ensures
        !ends_with_dot_git(encode_utf8(c)),
{
    lemma_ascii_encode_facts(c);
    let b = encode_utf8(c);
    if ends_with_dot_git(b) {
        assert(b[b.len() - 4] == dot_git()[0]);
        assert(b[b.len() - 3] == dot_git()[1]);
        assert(b[b.len() - 2] == dot_git()[2]);
        assert(b[b.len() - 1] == dot_git()[3]);
        assert(c[c.len() - 4] as u8 == 46u8);
        assert(c[c.len() - 4] == '.');
        assert(c[c.len() - 3] == 'g');
        assert(c[c.len() - 2] == 'i');
        assert(c[c.len() - 1] == 't');
    }
}

/// [`parse_origin`] on a raw SSH address assembled from ASCII texts: a
/// domain without `:`, an owner without `/` and a non-empty repository,
/// with or without a trailing `.git`, come back exactly as given.
pub proof fn lemma_parse_raw_ssh_chars(
    dc: Seq<char>,
    oc: Seq<char>,
    rc: Seq<char>,
    ext: bool,
    r: Result<(String, String, String), ParseError>,
)
    requires
        vstd::utf8::is_ascii_chars(dc),
        vstd::utf8::is_ascii_chars(oc),
        vstd::utf8::is_ascii_chars(rc),
        !dc.contains(':'),
        !oc.contains('/'),
        oc.len() > 0,
        rc.len() > 0,
        !ext ==> !chars_end_with_dot_git(rc),
        parse_outcome_matches(
            raw_ssh_origin(encode_utf8(dc), encode_utf8(oc), encode_utf8(rc), ext),
            r,
        ),
    ensures
        r matches Ok(t) && t.0@ == dc && t.1@ == oc && t.2@ == rc,
{
    lemma_ascii_encode_facts(dc);
    lemma_ascii_encode_facts(oc);
    lemma_ascii_encode_facts(rc);
    lemma_ascii_avoids_byte(dc, ':');
    lemma_ascii_avoids_byte(oc, '/');
    if !ext {
        lemma_ascii_git_suffix(rc);
    }
    lemma_parse_raw_ssh_exact(encode_utf8(dc), encode_utf8(oc), encode_utf8(rc), ext, r);
}

/// [`parse_origin`] on an SSH URL assembled from ASCII texts.
pub proof fn lemma_parse_ssh_url_chars(
    dc: Seq<char>,
    oc: Seq<char>,
    rc: Seq<char>,
    ext: bool,
    r: Result<(String, String, String), ParseError>,
)
    requires
        vstd::utf8::is_ascii_chars(dc),
        vstd::utf8::is_ascii_chars(oc),
        vstd::utf8::is_ascii_chars(rc),
        !dc.contains('/'),
        !oc.contains('/'),
        oc.len() > 0,
        rc.len() > 0,
        !ext ==> !chars_end_with_dot_git(rc),
        parse_outcome_matches(
            ssh_url_origin(encode_utf8(dc), encode_utf8(oc), encode_utf8(rc), ext),
            r,
        ),
    ensures
        r matches Ok(t) && t.0@ == dc && t.1@ == oc && t.2@ == rc,
{
    lemma_ascii_encode_facts(dc);
    lemma_ascii_encode_facts(oc);
    lemma_ascii_encode_facts(rc);
    lemma_ascii_avoids_byte(dc, '/');
    lemma_ascii_avoids_byte(oc, '/');
    if !ext {
        lemma_ascii_git_suffix(rc);
    }
    lemma_parse_ssh_url_exact(encode_utf8(dc), encode_utf8(oc), encode_utf8(rc), ext, r);
}

/// [`parse_origin`] on an HTTPS address assembled from ASCII texts.
pub proof fn lemma_parse_https_chars(
    dc: Seq<char>,
    oc: Seq<char>,
    rc: Seq<char>,
    ext: bool,
    r: Result<(String, String, String), ParseError>,
)
    requires
        vstd::utf8::is_ascii_chars(dc),
        vstd::utf8::is_ascii_chars(oc),
        vstd::utf8::is_ascii_chars(rc),
        !dc.contains('/'),
        !oc.contains('/'),
        oc.len() > 0,
        rc.len() > 0,
        !ext ==> !chars_end_with_dot_git(rc),
        parse_outcome_matches(
            https_origin(encode_utf8(dc), encode_utf8(oc), encode_utf8(rc), ext),
            r,
        ),
    ensures
        r matches Ok(t) && t.0@ == dc && t.1@ == oc && t.2@ == rc,
{
    lemma_ascii_encode_facts(dc);
    lemma_ascii_encode_facts(oc);
    lemma_ascii_encode_facts(rc);
    lemma_ascii_avoids_byte(dc, '/');
    lemma_ascii_avoids_byte(oc, '/');
    if !ext {
        lemma_ascii_git_suffix(rc);
    }
    lemma_parse_https_exact(encode_utf8(dc), encode_utf8(oc), encode_utf8(rc), ext, r);
}

/// What [`parse_origin`] returns on a well-assembled raw SSH address:
/// exactly the decoded domain, owner and repository.
pub proof fn lemma_parse_raw_ssh_exact(
    d: Seq<u8>,
    o: Seq<u8>,
    rp: Seq<u8>,
    ext: bool,
    r: Result<(String, String, String), ParseError>,
)
    requires
        !d.contains(COLON),
        !o.contains(SLASH),
        o.len() > 0,
        rp.len() > 0,
        !ext ==> !ends_with_dot_git(rp),
        valid_utf8(d),
        valid_utf8(o),
        valid_utf8(rp),
        parse_outcome_matches(raw_ssh_origin(d, o, rp, ext), r),
    ensures
        r matches Ok(t) && t.0@ == decode_utf8(d) && t.1@ == decode_utf8(o) && t.2@ == decode_utf8(
            rp,
        ),
{
    lemma_split_raw_ssh(d, o, rp, ext);
}

/// What [`parse_origin`] returns on a well-assembled SSH URL.
pub proof fn lemma_parse_ssh_url_exact(
    d: Seq<u8>,
    o: Seq<u8>,
    rp: Seq<u8>,
    ext: bool,
    r: Result<(String, String, String), ParseError>,
)
    requires
        !d.contains(SLASH),
        !o.contains(SLASH),
        o.len() > 0,
        rp.len() > 0,
        !ext ==> !ends_with_dot_git(rp),
        valid_utf8(d),
        valid_utf8(o),
        valid_utf8(rp),
        parse_outcome_matches(ssh_url_origin(d, o, rp, ext), r),
    ensures
        r matches Ok(t) && t.0@ == decode_utf8(d) && t.1@ == decode_utf8(o) && t.2@ == decode_utf8(
            rp,
        ),
{
    lemma_split_ssh_url(d, o, rp, ext);
}

/// What [`parse_origin`] returns on a well-assembled HTTPS address.
pub proof fn lemma_parse_https_exact(
    d: Seq<u8>,
    o: Seq<u8>,
    rp: Seq<u8>,
    ext: bool,
    r: Result<(String, String, String), ParseError>,
)
    requires
        !d.contains(SLASH),
        !o.contains(SLASH),
        o.len() > 0,
        rp.len() > 0,
        !ext ==> !ends_with_dot_git(rp),
        valid_utf8(d),
        valid_utf8(o),
        valid_utf8(rp),
        parse_outcome_matches(https_origin(d, o, rp, ext), r),
    ensures
        r matches Ok(t) && t.0@ == decode_utf8(d) && t.1@ == decode_utf8(o) && t.2@ == decode_utf8(
            rp,
        ),
{
    lemma_split_https(d, o, rp, ext);
}

} // verus!
