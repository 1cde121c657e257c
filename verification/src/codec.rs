//! Wire codec for the CONNECT handshake: decoding a request line from an
//! accumulating byte buffer, and encoding a handshake outcome as a fixed
//! status line.

use vstd::prelude::*;
use vstd::slice::{slice_subrange, slice_to_vec};
use vstd::utf8::{decode_utf8, valid_utf8};

verus! {

/// A frame that has grown to this size without being recognized is rejected.
pub const MAX_FRAME_SIZE: usize = 1024;

/// True when `needle` occurs in `haystack` starting at index `i`.
pub open spec fn match_at(haystack: Seq<u8>, needle: Seq<u8>, i: int) -> bool {
    0 <= i && i + needle.len() <= haystack.len() && haystack.subrange(
        i,
        i + needle.len(),
    ) == needle
}

/// True when `needle` occurs nowhere in `haystack`.
pub open spec fn no_match(haystack: Seq<u8>, needle: Seq<u8>) -> bool {
    forall|i: int| !match_at(haystack, needle, i)
}

/// True when the first occurrence of `needle` in `haystack` is at index `i`.
pub open spec fn first_match_at(haystack: Seq<u8>, needle: Seq<u8>, i: int) -> bool {
    match_at(haystack, needle, i) && forall|j: int| 0 <= j < i ==> !match_at(haystack, needle, j)
}

/// Index of the first occurrence of a non-empty `needle` in `haystack`,
/// or `None` when it does not occur.
pub fn find_subsequence(haystack: &[u8], needle: &[u8]) -> (r: Option<usize>)
    requires
        needle@.len() >= 1,
    ensures
        match r {
            Some(i) => first_match_at(haystack@, needle@, i as int),
            None => no_match(haystack@, needle@),
        },
{
    let hn: usize = haystack.len();
    let nn: usize = needle.len();
    if hn < nn {
        assert forall|i: int| !match_at(haystack@, needle@, i) by {}
        return None;
    }
    let last: usize = hn - nn;
    let mut i: usize = 0;
    while i <= last
        invariant
            nn == needle@.len(),
            hn == haystack@.len(),
            nn >= 1,
            hn >= nn,
            last == hn - nn,
            0 <= i <= last + 1,
            forall|j: int| 0 <= j < i ==> !match_at(haystack@, needle@, j),
        decreases last + 1 - i,
    {
        let mut k: usize = 0;
        let mut hit: bool = true;
        while k < nn
            invariant
                nn == needle@.len(),
                hn == haystack@.len(),
                nn >= 1,
                0 <= i <= last,
                last == hn - nn,
                0 <= k <= nn,
                hit == (forall|m: int| 0 <= m < k ==> haystack@[i + m] == needle@[m]),
            decreases nn - k,
        {
            if haystack[i + k] != needle[k] {
                hit = false;
                k = nn;
            } else {
                k = k + 1;
            }
        }
        if hit {
            assert(haystack@.subrange(i as int, i + needle@.len()) =~= needle@);
            return Some(i);
        }
        assert(!match_at(haystack@, needle@, i as int)) by {
            if match_at(haystack@, needle@, i as int) {
                let m = choose|m: int|
                    0 <= m < needle@.len() && haystack@[i + m] != needle@[m];
                assert(haystack@.subrange(i as int, i + needle@.len())[m] == needle@[m]);
            }
        }
        i = i + 1;
    }
    assert forall|j: int| !match_at(haystack@, needle@, j) by {
        if 0 <= j <= last {
            assert(!match_at(haystack@, needle@, j));
        }
    }
    None
}

/// Index of the first occurrence of `needle` in `haystack`, defined by
/// recursion on the haystack.
pub open spec fn spec_find(haystack: Seq<u8>, needle: Seq<u8>) -> Option<int>
    recommends
        needle.len() >= 1,
    decreases haystack.len(),
    when needle.len() >= 1
{
    if haystack.len() < needle.len() {
        None
    } else if haystack.subrange(0, needle.len() as int) == needle {
        Some(0)
    } else {
        match spec_find(haystack.drop_first(), needle) {
            Some(i) => Some(i + 1),
            None => None,
        }
    }
}

/// The first occurrence found by `spec_find` is exactly the least index at
/// which the needle matches, and `spec_find` is `None` exactly when the
/// needle occurs nowhere.
pub proof fn lemma_spec_find_first_match(h: Seq<u8>, n: Seq<u8>)
    requires
        n.len() >= 1,
    ensures
        match spec_find(h, n) {
            Some(i) => first_match_at(h, n, i),
            None => no_match(h, n),
        },
    decreases h.len(),
{
    if h.len() < n.len() {
        assert forall|i: int| !match_at(h, n, i) by {}
    } else if h.subrange(0, n.len() as int) == n {
        assert(match_at(h, n, 0));
    } else {
        lemma_spec_find_first_match(h.drop_first(), n);
        assert forall|i: int| i >= 1 implies (match_at(h, n, i) == match_at(
            h.drop_first(),
            n,
            i - 1,
        )) by {
            if match_at(h, n, i) {
                assert(h.drop_first().subrange(i - 1, i - 1 + n.len()) =~= h.subrange(
                    i,
                    i + n.len(),
                ));
            } else if match_at(h.drop_first(), n, i - 1) {
                assert(h.subrange(i, i + n.len()) =~= h.drop_first().subrange(
                    i - 1,
                    i - 1 + n.len(),
                ));
            }
        }
        assert(!match_at(h, n, 0));
        match spec_find(h.drop_first(), n) {
            Some(i) => {
                assert(match_at(h, n, i + 1));
                assert forall|j: int| 0 <= j < i + 1 implies !match_at(h, n, j) by {
                    if j >= 1 {
                        assert(!match_at(h.drop_first(), n, j - 1));
                    }
                }
            },
            None => {
                assert forall|i: int| !match_at(h, n, i) by {
                    if i >= 1 {
                        assert(!match_at(h.drop_first(), n, i - 1));
                    }
                }
            },
        }
    }
}

/// True when the buffer ends in CR LF; only then does decoding attempt to
/// parse the line.
pub open spec fn crlf_terminated(s: Seq<u8>) -> bool {
    s.len() >= 2 && s[s.len() - 2] == 13u8 && s[s.len() - 1] == 10u8
}

/// The bytes of the literal `"CONNECT "`.
pub open spec fn connect_prefix() -> Seq<u8> {
    seq![67u8, 79u8, 78u8, 78u8, 69u8, 67u8, 84u8, 32u8]
}

/// The bytes of the literal `" HTTP/1.1\r\n"`.
pub open spec fn request_suffix() -> Seq<u8> {
    seq![32u8, 72u8, 84u8, 84u8, 80u8, 47u8, 49u8, 46u8, 49u8, 13u8, 10u8]
}

/// True when the buffer starts with `"CONNECT "`.
pub open spec fn has_connect_prefix(s: Seq<u8>) -> bool {
    s.len() >= connect_prefix().len() && s.subrange(0, connect_prefix().len() as int)
        == connect_prefix()
}

/// Everything after the `"CONNECT "` prefix.
pub open spec fn request_tail(s: Seq<u8>) -> Seq<u8>
    recommends
        has_connect_prefix(s),
{
    s.subrange(connect_prefix().len() as int, s.len() as int)
}

/// True when the buffer holds one complete, well-shaped CONNECT frame: it
/// ends in CR LF, is under the size ceiling, starts with `"CONNECT "`, and
/// the marker `" HTTP/1.1\r\n"` occurs after the prefix.
pub open spec fn frame_ready(s: Seq<u8>) -> bool {
    crlf_terminated(s) && s.len() < MAX_FRAME_SIZE && has_connect_prefix(s) && spec_find(
        request_tail(s),
        request_suffix(),
    ) is Some
}

/// The target bytes of a complete frame: everything between the
/// `"CONNECT "` prefix and the first `" HTTP/1.1\r\n"` after it.
pub open spec fn frame_target_bytes(s: Seq<u8>) -> Seq<u8>
    recommends
        frame_ready(s),
{
    request_tail(s).take(spec_find(request_tail(s), request_suffix())->Some_0)
}

/// Why decoding a frame failed.
#[derive(Debug, Clone, Copy, PartialEq, Eq)]
pub enum DecodeError {
    /// The buffer reached the size ceiling before a frame was recognized.
    FrameTooLarge,
    /// A CR LF-terminated buffer lacks the `"CONNECT "` prefix or the
    /// `" HTTP/1.1\r\n"` marker.
    MalformedRequest,
    /// The target bytes are not valid text.
    InvalidUtf8,
}

/// The outcome of one CONNECT handshake, as reported to the client.
#[derive(Debug, Clone, Copy, PartialEq, Eq)]
pub enum TunnelResult {
    /// The destination was connected; the tunnel is open (status 200).
    Success,
    /// The destination refused or failed the connection (status 400).
    BadRequest,
    /// The connect deadline elapsed (status 408).
    ConnectTimeout,
}

/// The exact bytes of the status line sent for each handshake outcome:
/// `HTTP/1.1 <code> <reason>\r\n\r\n` with no headers and no body.
pub open spec fn response_bytes(r: TunnelResult) -> Seq<u8> {
    match r {
        // "HTTP/1.1 200 OK\r\n\r\n"
        TunnelResult::Success => seq![
            72u8, 84u8, 84u8, 80u8, 47u8, 49u8, 46u8, 49u8, 32u8, 50u8, 48u8, 48u8, 32u8, 79u8,
            75u8, 13u8, 10u8, 13u8, 10u8,
        ],
        // "HTTP/1.1 400 BAD_REQUEST\r\n\r\n"
        TunnelResult::BadRequest => seq![
            72u8, 84u8, 84u8, 80u8, 47u8, 49u8, 46u8, 49u8, 32u8, 52u8, 48u8, 48u8, 32u8, 66u8,
            65u8, 68u8, 95u8, 82u8, 69u8, 81u8, 85u8, 69u8, 83u8, 84u8, 13u8, 10u8, 13u8, 10u8,
        ],
        // "HTTP/1.1 408 Timeout\r\n\r\n"
        TunnelResult::ConnectTimeout => seq![
            72u8, 84u8, 84u8, 80u8, 47u8, 49u8, 46u8, 49u8, 32u8, 52u8, 48u8, 56u8, 32u8, 84u8,
            105u8, 109u8, 101u8, 111u8, 117u8, 116u8, 13u8, 10u8, 13u8, 10u8,
        ],
    }
}

/// There is at most one first match.
pub proof fn lemma_first_match_unique(h: Seq<u8>, n: Seq<u8>, i: int, j: int)
    requires
        first_match_at(h, n, i),
        first_match_at(h, n, j),
    ensures
        i == j,
{
    if i < j {
        assert(!match_at(h, n, i));
    } else if j < i {
        assert(!match_at(h, n, j));
    }
}

/// True when `src` starts with the bytes of `pat`.
fn starts_with_bytes(src: &[u8], pat: &[u8]) -> (r: bool)
    ensures
        r == (src@.len() >= pat@.len() && src@.subrange(0, pat@.len() as int) == pat@),
{
    let pn: usize = pat.len();
    if src.len() < pn {
        return false;
    }
    let mut k: usize = 0;
    while k < pn
        invariant
            pn == pat@.len(),
            src@.len() >= pn,
            0 <= k <= pn,
            forall|m: int| 0 <= m < k ==> src@[m] == pat@[m],
        decreases pn - k,
    {
        if src[k] != pat[k] {
            assert(src@.subrange(0, pat@.len() as int) != pat@) by {
                if src@.subrange(0, pat@.len() as int) == pat@ {
                    assert(src@.subrange(0, pat@.len() as int)[k as int] == pat@[k as int]);
                }
            }
            return false;
        }
        k = k + 1;
    }
    assert(src@.subrange(0, pat@.len() as int) =~= pat@);
    true
}

/// The bytes of `"CONNECT "` as a vector.
fn connect_prefix_vec() -> (v: Vec<u8>)
    ensures
        v@ == connect_prefix(),
{
    let mut v: Vec<u8> = Vec::new();
    v.push(67u8);
    v.push(79u8);
    v.push(78u8);
    v.push(78u8);
    v.push(69u8);
    v.push(67u8);
    v.push(84u8);
    v.push(32u8);
    assert(v@ =~= connect_prefix());
    v
}

/// The bytes of `" HTTP/1.1\r\n"` as a vector.
fn request_suffix_vec() -> (v: Vec<u8>)
    ensures
        v@ == request_suffix(),
{
    let mut v: Vec<u8> = Vec::new();
    v.push(32u8);
    v.push(72u8);
    v.push(84u8);
    v.push(84u8);
    v.push(80u8);
    v.push(47u8);
    v.push(49u8);
    v.push(46u8);
    v.push(49u8);
    v.push(13u8);
    v.push(10u8);
    assert(v@ =~= request_suffix());
    v
}

/// Relies on `String::from_utf8`: it returns `Ok` exactly when the bytes are
/// a valid UTF-8 encoding, and the characters of the resulting string are
/// the decoding of those bytes.
#[verifier::external_body]
fn utf8_to_string(bytes: Vec<u8>) -> (r: Option<String>)
    ensures
        r is Some <==> valid_utf8(bytes@),
        r is Some ==> r->Some_0@ == decode_utf8(bytes@),
{
    String::from_utf8(bytes).ok()
}

/// The CONNECT handshake codec: one decoded request and one encoded
/// response per connection.
#[derive(Debug)]
pub struct HttpCodec {}

impl HttpCodec {
    /// Decode one CONNECT request line from the accumulating buffer `src`.
    ///
    /// A buffer that does not yet end in CR LF is incomplete (`Ok(None)`),
    /// whatever it holds. Once it ends in CR LF: a buffer at or over the
    /// size ceiling is rejected as too large; one without the `"CONNECT "`
    /// prefix or without the `" HTTP/1.1\r\n"` marker after it is rejected
    /// as malformed; otherwise the target is the text between the prefix
    /// and the first marker.
    pub fn decode(&self, src: &[u8]) -> (r: Result<Option<String>, DecodeError>)
        ensures
            ({
                let s = src@;
                match r {
                    Ok(opt) => match opt {
                        None => !crlf_terminated(s),
                        Some(t) => frame_ready(s) && valid_utf8(frame_target_bytes(s)) && t@
                            == decode_utf8(frame_target_bytes(s)),
                    },
                    Err(e) => match e {
                        DecodeError::FrameTooLarge => crlf_terminated(s) && s.len()
                            >= MAX_FRAME_SIZE,
                        DecodeError::MalformedRequest => crlf_terminated(s) && s.len()
                            < MAX_FRAME_SIZE && (!has_connect_prefix(s) || spec_find(
                            request_tail(s),
                            request_suffix(),
                        ) is None),
                        DecodeError::InvalidUtf8 => frame_ready(s) && !valid_utf8(
                            frame_target_bytes(s),
                        ),
                    },
                }
            }),
            (r == Ok::<Option<String>, DecodeError>(None)) <==> !crlf_terminated(src@),
            (r == Err::<Option<String>, DecodeError>(DecodeError::FrameTooLarge)) <==> (
            crlf_terminated(src@) && src@.len() >= MAX_FRAME_SIZE),
            (r == Err::<Option<String>, DecodeError>(DecodeError::MalformedRequest)) <==> (
            crlf_terminated(src@) && src@.len() < MAX_FRAME_SIZE && (!has_connect_prefix(src@)
                || spec_find(request_tail(src@), request_suffix()) is None)),
            (r matches Ok(opt) && opt is Some) <==> (frame_ready(src@) && valid_utf8(
                frame_target_bytes(src@),
            )),
            (r == Err::<Option<String>, DecodeError>(DecodeError::InvalidUtf8)) <==> (frame_ready(
                src@,
            ) && !valid_utf8(frame_target_bytes(src@))),
    {
        let n: usize = src.len();
        if n < 2 || src[n - 1] != 10u8 || src[n - 2] != 13u8 {
            return Ok(None);
        }
        if n >= MAX_FRAME_SIZE {
            return Err(DecodeError::FrameTooLarge);
        }
        let prefix = connect_prefix_vec();
        if !starts_with_bytes(src, prefix.as_slice()) {
            return Err(DecodeError::MalformedRequest);
        }
        let tail: &[u8] = slice_subrange(src, 8, n);
        assert(tail@ == request_tail(src@));
        let suffix = request_suffix_vec();
        proof {
            lemma_spec_find_first_match(tail@, request_suffix());
        }
        match find_subsequence(tail, suffix.as_slice()) {
            None => {
                assert(spec_find(request_tail(src@), request_suffix()) is None) by {
                    if spec_find(tail@, request_suffix()) is Some {
                        let i = spec_find(tail@, request_suffix())->Some_0;
                        assert(!match_at(tail@, request_suffix(), i));
                    }
                }
                Err(DecodeError::MalformedRequest)
            },
            Some(j) => {
                proof {
                    match spec_find(tail@, request_suffix()) {
                        Some(i) => lemma_first_match_unique(
                            tail@,
                            request_suffix(),
                            j as int,
                            i,
                        ),
                        None => {
                            assert(!match_at(tail@, request_suffix(), j as int));
                        },
                    }
                }
                assert(spec_find(request_tail(src@), request_suffix()) == Some(j as int));
                let target: Vec<u8> = slice_to_vec(slice_subrange(tail, 0, j));
                assert(target@ =~= frame_target_bytes(src@));
                match utf8_to_string(target) {
                    Some(t) => Ok(Some(t)),
                    None => Err(DecodeError::InvalidUtf8),
                }
            },
        }
    }

    /// Append to `dst` the exact status line for `result`:
    /// `HTTP/1.1 <code> <reason>\r\n\r\n`.
    pub fn encode(&self, result: TunnelResult, dst: &mut Vec<u8>)
        ensures
            final(dst)@ == old(dst)@ + response_bytes(result),
    {
        match result {
            TunnelResult::Success => {
                dst.push(72u8);
                dst.push(84u8);
                dst.push(84u8);
                dst.push(80u8);
                dst.push(47u8);
                dst.push(49u8);
                dst.push(46u8);
                dst.push(49u8);
                dst.push(32u8);
                dst.push(50u8);
                dst.push(48u8);
                dst.push(48u8);
                dst.push(32u8);
                dst.push(79u8);
                dst.push(75u8);
                dst.push(13u8);
                dst.push(10u8);
                dst.push(13u8);
                dst.push(10u8);
                assert(dst@ =~= old(dst)@ + response_bytes(result));
            },
            TunnelResult::BadRequest => {
                dst.push(72u8);
                dst.push(84u8);
                dst.push(84u8);
                dst.push(80u8);
                dst.push(47u8);
                dst.push(49u8);
                dst.push(46u8);
                dst.push(49u8);
                dst.push(32u8);
                dst.push(52u8);
                dst.push(48u8);
                dst.push(48u8);
                dst.push(32u8);
                dst.push(66u8);
                dst.push(65u8);
                dst.push(68u8);
                dst.push(95u8);
                dst.push(82u8);
                dst.push(69u8);
                dst.push(81u8);
                dst.push(85u8);
                dst.push(69u8);
                dst.push(83u8);
                dst.push(84u8);
                dst.push(13u8);
                dst.push(10u8);
                dst.push(13u8);
                dst.push(10u8);
                assert(dst@ =~= old(dst)@ + response_bytes(result));
            },
            TunnelResult::ConnectTimeout => {
                dst.push(72u8);
                dst.push(84u8);
                dst.push(84u8);
                dst.push(80u8);
                dst.push(47u8);
                dst.push(49u8);
                dst.push(46u8);
                dst.push(49u8);
                dst.push(32u8);
                dst.push(52u8);
                dst.push(48u8);
                dst.push(56u8);
                dst.push(32u8);
                dst.push(84u8);
                dst.push(105u8);
                dst.push(109u8);
                dst.push(101u8);
                dst.push(111u8);
                dst.push(117u8);
                dst.push(116u8);
                dst.push(13u8);
                dst.push(10u8);
                dst.push(13u8);
                dst.push(10u8);
                assert(dst@ =~= old(dst)@ + response_bytes(result));
            },
        }
    }
}

} // verus!
