//! HTTP CONNECT front-end parsing.
//!
//! The client's local HTTP proxy accepts only `CONNECT host:port HTTP/1.1`
//! request lines. The parsing here is pure: the sockets and the tunnel live
//! with the caller.

use vstd::prelude::*;

use vstd::string::StringSliceAdditionalSpecFns;
use vstd::utf8::{
    encode_utf8, is_char_boundary, is_continuation_byte, is_leading_byte_width_1, valid_utf8,
};

verus! {

broadcast use vstd::utf8::encode_utf8_valid_utf8, vstd::utf8::valid_utf8_split,
    vstd::utf8::is_char_boundary_start_end_of_seq;

/// Errors of the HTTP CONNECT front end.
#[derive(Debug, Clone, Copy, PartialEq, Eq, Structural)]
pub enum HttpError {
    /// The request line does not have three parts.
    BadRequestLine,
    /// The method is not CONNECT.
    MethodNotAllowed,
    /// The target is not `host:port` or `[host]:port`.
    InvalidTarget,
    /// The port is missing, not a number, or out of range.
    InvalidPort,
}

impl HttpError {
    /// The HTTP status code the error answers with.
    pub fn status_code(&self) -> (r: u16)
        ensures
            r == self.spec_status_code(),
    {
        match self {
            HttpError::BadRequestLine => 400,
            HttpError::MethodNotAllowed => 405,
            HttpError::InvalidTarget => 400,
            HttpError::InvalidPort => 400,
        }
    }

    /// The HTTP status code of each error.
    pub open spec fn spec_status_code(&self) -> u16 {
        match self {
            HttpError::BadRequestLine => 400,
            HttpError::MethodNotAllowed => 405,
            HttpError::InvalidTarget => 400,
            HttpError::InvalidPort => 400,
        }
    }
}

/// The first index at or after `i` holding byte `b`, or the length.
pub open spec fn find_first(s: Seq<u8>, b: u8, i: int) -> int
    decreases s.len() - i,
    when 0 <= i <= s.len()
{
    if i >= s.len() {
        s.len() as int
    } else if s[i] == b {
        i
    } else {
        find_first(s, b, i + 1)
    }
}

/// The last index holding byte `b`, or -1.
pub open spec fn find_last(s: Seq<u8>, b: u8) -> int
    decreases s.len(),
{
    if s.len() == 0 {
        -1
    } else if s[s.len() - 1] == b {
        s.len() - 1
    } else {
        find_last(s.drop_last(), b)
    }
}

/// Whether every byte is an ASCII decimal digit and there is at least one.
pub open spec fn is_dec_digits(s: Seq<u8>) -> bool {
    s.len() > 0 && forall|i: int| 0 <= i < s.len() ==> 48 <= #[trigger] s[i] <= 57
}

/// The number the ASCII decimal digits spell.
pub open spec fn dec_value(s: Seq<u8>) -> int
    decreases s.len(),
{
    if s.len() == 0 {
        0
    } else {
        dec_value(s.drop_last()) * 10 + (s.last() - 48)
    }
}

/// The digits spell a non-negative number.
proof fn lemma_dec_value_nonneg(s: Seq<u8>)
    requires
        forall|i: int| 0 <= i < s.len() ==> 48 <= #[trigger] s[i] <= 57,
    ensures
        dec_value(s) >= 0,
    decreases s.len(),
{
    if s.len() > 0 {
        lemma_dec_value_nonneg(s.drop_last());
    }
}

/// A prefix of the digits never spells more than the whole.
proof fn lemma_dec_value_prefix(s: Seq<u8>, i: int)
    requires
        forall|i: int| 0 <= i < s.len() ==> 48 <= #[trigger] s[i] <= 57,
        0 <= i <= s.len(),
    ensures
        dec_value(s) >= dec_value(s.take(i)),
    decreases s.len(),
{
    if i < s.len() {
        assert(s.take(i) =~= s.drop_last().take(i));
        lemma_dec_value_prefix(s.drop_last(), i);
        lemma_dec_value_nonneg(s.drop_last());
    } else {
        assert(s.take(i) =~= s);
    }
}

/// Parse a port number from ASCII decimal digits: between one and many
/// digits spelling at most 65535.
pub fn parse_port(digits: &[u8]) -> (r: Result<u16, HttpError>)
    ensures
        match r {
            Ok(p) => is_dec_digits(digits@) && dec_value(digits@) <= 65535 && p == dec_value(
                digits@,
            ),
            Err(HttpError::InvalidPort) => !(is_dec_digits(digits@) && dec_value(digits@)
                <= 65535),
            Err(_) => false,
        },
{
    if digits.len() == 0 {
        return Err(HttpError::InvalidPort);
    }
    let mut acc: u32 = 0;
    let mut i: usize = 0;
    while i < digits.len()
        invariant
            i <= digits@.len(),
            forall|k: int| 0 <= k < i ==> 48 <= #[trigger] digits@[k] <= 57,
            acc == dec_value(digits@.take(i as int)),
            acc <= 65535,
        decreases digits@.len() - i,
    {
        let d = digits[i];
        if d < 48 || d > 57 {
            return Err(HttpError::InvalidPort);
        }
        proof {
            assert(digits@.take(i as int + 1).drop_last() =~= digits@.take(i as int));
            assert(digits@.take(i as int + 1).last() == digits@[i as int]);
        }
        acc = acc * 10 + ((d - 48) as u32);
        if acc > 65535 {
            proof {
                if is_dec_digits(digits@) {
                    lemma_dec_value_prefix(digits@, i as int + 1);
                }
            }
            return Err(HttpError::InvalidPort);
        }
        i += 1;
    }
    proof {
        assert(digits@.take(digits@.len() as int) =~= digits@);
    }
    Ok(acc as u16)
}

/// What `parse_connect_target` finds in the target's bytes: the host's bytes
/// and the port, or the error.
pub open spec fn spec_connect_target(b: Seq<u8>) -> Result<(Seq<u8>, u16), HttpError> {
    if b.len() > 0 && b[0] == 91 {
        let e = find_first(b, 93, 0);
        if e == b.len() {
            Err(HttpError::InvalidTarget)
        } else if !(e + 1 < b.len() && b[e + 1] == 58) {
            Err(HttpError::InvalidTarget)
        } else {
            let digits = b.subrange(e + 2, b.len() as int);
            if is_dec_digits(digits) && dec_value(digits) <= 65535 {
                Ok((b.subrange(1, e), dec_value(digits) as u16))
            } else {
                Err(HttpError::InvalidPort)
            }
        }
    } else {
        let lc = find_last(b, 58);
        if lc < 0 {
            Err(HttpError::InvalidTarget)
        } else {
            let digits = b.subrange(lc + 1, b.len() as int);
            if is_dec_digits(digits) && dec_value(digits) <= 65535 {
                Ok((b.subrange(0, lc), dec_value(digits) as u16))
            } else {
                Err(HttpError::InvalidPort)
            }
        }
    }
}

/// Everything in `[i, k)` misses `b` and `k` hits it (or is the end), so the
/// first occurrence at or after `i` is `k`.
proof fn lemma_find_first_is(s: Seq<u8>, b: u8, i: int, k: int)
    requires
        0 <= i <= k <= s.len(),
        forall|j: int| i <= j < k ==> s[j] != b,
        k < s.len() ==> s[k] == b,
    ensures
        find_first(s, b, i) == k,
    decreases k - i,
{
    if i < k {
        lemma_find_first_is(s, b, i + 1, k);
    }
}

/// Everything after `k` misses `b` and `k` hits it (or nothing does and `k`
/// is -1), so the last occurrence is `k`.
proof fn lemma_find_last_is(s: Seq<u8>, b: u8, k: int)
    requires
        -1 <= k < s.len(),
        forall|j: int| k < j < s.len() ==> s[j] != b,
        k >= 0 ==> s[k] == b,
    ensures
        find_last(s, b) == k,
    decreases s.len(),
{
    if s.len() > 0 && k < s.len() - 1 {
        assert forall|j: int| k < j < s.drop_last().len() implies s.drop_last()[j] != b by {
            assert(s.drop_last()[j] == s[j]);
        }
        lemma_find_last_is(s.drop_last(), b, k);
    }
}

/// The position right after an ASCII byte of valid UTF-8 is a character
/// boundary: an ASCII byte is a whole scalar of its own.
proof fn lemma_boundary_after_ascii(bytes: Seq<u8>, i: int)
    requires
        valid_utf8(bytes),
        0 <= i < bytes.len(),
        bytes[i] < 0x80,
    ensures
        is_char_boundary(bytes, i + 1),
    decreases bytes.len(),
{
    let l = vstd::utf8::length_of_first_scalar(bytes);
    let rest = vstd::utf8::pop_first_scalar(bytes);
    if i == 0 {
        assert(is_leading_byte_width_1(bytes[0]));
        assert(l == 1);
        assert(is_char_boundary(bytes, 1) == is_char_boundary(rest, 0));
    } else {
        if i < l {
            // inside the first scalar every byte after the first is a
            // continuation byte, and those are all at least 0x80
            assert(is_continuation_byte(bytes[i]));
            assert(false);
        }
        assert(rest[i - l] == bytes[i]);
        lemma_boundary_after_ascii(rest, i - l);
        assert(is_char_boundary(bytes, i + 1) == is_char_boundary(rest, i + 1 - l));
    }
}

/// Nothing in the sequence is `b`, so the last occurrence is -1.
pub proof fn lemma_find_last_none(s: Seq<u8>, b: u8)
    requires
        forall|j: int| 0 <= j < s.len() ==> s[j] != b,
    ensures
        find_last(s, b) == -1,
{
    lemma_find_last_is(s, b, -1);
}

/// `k` holds `b` and everything after it does not, so the last occurrence
/// is `k`.
pub proof fn lemma_find_last_at(s: Seq<u8>, b: u8, k: int)
    requires
        0 <= k < s.len(),
        s[k] == b,
        forall|j: int| k < j < s.len() ==> s[j] != b,
    ensures
        find_last(s, b) == k,
{
    lemma_find_last_is(s, b, k);
}

/// Any position holding a non-continuation byte (an ASCII byte, say) is a
/// character boundary.
pub proof fn lemma_char_boundary_at(bytes: Seq<u8>, i: int)
    requires
        valid_utf8(bytes),
        0 <= i <= bytes.len(),
        i < bytes.len() ==> !is_continuation_byte(bytes[i]),
    ensures
        is_char_boundary(bytes, i),
{
    if i < bytes.len() {
        vstd::utf8::is_char_boundary_iff_not_is_continuation_byte(bytes, i);
    }
}

/// Parse a CONNECT target: `host:port`, or `[host]:port` for an IPv6 host.
/// The port is the decimal number after the last colon (after the closing
/// bracket for IPv6); the host is everything before it.
pub fn parse_connect_target(target: &str) -> (r: Result<(String, u16), HttpError>)
    ensures
        ({
            let b = target.spec_bytes();
            match r {
                Ok((host, port)) => spec_connect_target(b) == Ok::<(Seq<u8>, u16), HttpError>(
                    (encode_utf8(host@), port),
                ),
                Err(e) => spec_connect_target(b) == Err::<(Seq<u8>, u16), HttpError>(e),
            }
        }),
{
    let bytes = target.as_bytes();
    proof {
        assert(valid_utf8(bytes@));
    }
    if bytes.len() > 0 && bytes[0] == 91 {
        // IPv6, shaped [host]:port
        let mut e: usize = 0;
        while e < bytes.len() && bytes[e] != 93
            invariant
                e <= bytes@.len(),
                forall|j: int| 0 <= j < e ==> bytes@[j] != 93,
            decreases bytes@.len() - e,
        {
            e += 1;
        }
        proof {
            lemma_find_first_is(bytes@, 93, 0, e as int);
        }
        if e == bytes.len() {
            return Err(HttpError::InvalidTarget);
        }
        if e + 1 >= bytes.len() {
            return Err(HttpError::InvalidTarget);
        }
        if bytes[e + 1] != 58 {
            return Err(HttpError::InvalidTarget);
        }
        let digits = vstd::slice::slice_subrange(bytes, e + 2, bytes.len());
        match parse_port(digits) {
            Err(_) => Err(HttpError::InvalidPort),
            Ok(port) => {
                proof {
                    lemma_char_boundary_at(bytes@, e as int);
                }
                let (left, _right) = target.split_at(e);
                proof {
                    assert(left.spec_bytes() == bytes@.subrange(0, e as int));
                    assert(valid_utf8(left.spec_bytes()));
                    assert(left.spec_bytes()[0] == 91);
                    lemma_boundary_after_ascii(left.spec_bytes(), 0);
                }
                let (_bracket, host_str) = left.split_at(1);
                let host = host_str.to_owned();
                proof {
                    assert(encode_utf8(host@) =~= bytes@.subrange(1, e as int));
                }
                Ok((host, port))
            },
        }
    } else {
        // host:port, with the port after the last colon
        let mut j: usize = bytes.len();
        while j > 0 && bytes[j - 1] != 58
            invariant
                j <= bytes@.len(),
                forall|k: int| j <= k < bytes@.len() ==> bytes@[k] != 58,
            decreases j,
        {
            j -= 1;
        }
        if j == 0 {
            proof {
                lemma_find_last_is(bytes@, 58, -1);
            }
            return Err(HttpError::InvalidTarget);
        }
        let lc = j - 1;
        proof {
            lemma_find_last_is(bytes@, 58, lc as int);
        }
        let digits = vstd::slice::slice_subrange(bytes, lc + 1, bytes.len());
        match parse_port(digits) {
            Err(_) => Err(HttpError::InvalidPort),
            Ok(port) => {
                proof {
                    lemma_char_boundary_at(bytes@, lc as int);
                }
                let (host_str, _rest) = target.split_at(lc);
                let host = host_str.to_owned();
                proof {
                    assert(encode_utf8(host@) =~= bytes@.subrange(0, lc as int));
                }
                Ok((host, port))
            },
        }
    }
}


/// Whether the byte is ASCII whitespace as request lines use it.
pub open spec fn is_ws(b: u8) -> bool {
    b == 32 || b == 9 || b == 13 || b == 10
}

/// The first index at or after `i` holding something other than whitespace,
/// or the length.
pub open spec fn skip_ws(s: Seq<u8>, i: int) -> int
    decreases s.len() - i,
    when 0 <= i <= s.len()
{
    if i >= s.len() {
        s.len() as int
    } else if is_ws(s[i]) {
        skip_ws(s, i + 1)
    } else {
        i
    }
}

/// The first whitespace index at or after `i`, or the length.
pub open spec fn token_end(s: Seq<u8>, i: int) -> int
    decreases s.len() - i,
    when 0 <= i <= s.len()
{
    if i >= s.len() {
        s.len() as int
    } else if !is_ws(s[i]) {
        token_end(s, i + 1)
    } else {
        i
    }
}

/// The bytes of the method name `CONNECT`.
pub open spec fn connect_method_bytes() -> Seq<u8> {
    seq![67u8, 79u8, 78u8, 78u8, 69u8, 67u8, 84u8]
}

/// What `parse_request_line` finds in a request line's bytes: the target
/// token of a three-part CONNECT line, or the error. The line must hold at
/// least three whitespace-separated parts and start with `CONNECT`.
pub open spec fn spec_request_line(b: Seq<u8>) -> Result<Seq<u8>, HttpError> {
    let m0 = skip_ws(b, 0);
    let m1 = token_end(b, m0);
    let t0 = skip_ws(b, m1);
    let t1 = token_end(b, t0);
    let v0 = skip_ws(b, t1);
    if m0 == b.len() || t0 == b.len() || v0 == b.len() {
        Err(HttpError::BadRequestLine)
    } else if b.subrange(m0, m1) != connect_method_bytes() {
        Err(HttpError::MethodNotAllowed)
    } else {
        Ok(b.subrange(t0, t1))
    }
}

/// The first non-whitespace index at or after `i`.
fn skip_ws_from(bytes: &[u8], i: usize) -> (r: usize)
    requires
        i <= bytes@.len(),
    ensures
        r == skip_ws(bytes@, i as int),
        i <= r <= bytes@.len(),
        r < bytes@.len() ==> !is_ws(bytes@[r as int]),
        r > i ==> is_ws(bytes@[r as int - 1]),
{
    let mut j = i;
    while j < bytes.len() && (bytes[j] == 32 || bytes[j] == 9 || bytes[j] == 13 || bytes[j] == 10)
        invariant
            i <= j <= bytes@.len(),
            skip_ws(bytes@, i as int) == skip_ws(bytes@, j as int),
            j > i ==> is_ws(bytes@[j as int - 1]),
        decreases bytes@.len() - j,
    {
        j += 1;
    }
    j
}

/// The first whitespace index at or after `i`.
fn token_end_from(bytes: &[u8], i: usize) -> (r: usize)
    requires
        i <= bytes@.len(),
    ensures
        r == token_end(bytes@, i as int),
        i <= r <= bytes@.len(),
        r < bytes@.len() ==> is_ws(bytes@[r as int]),
{
    let mut j = i;
    while j < bytes.len() && !(bytes[j] == 32 || bytes[j] == 9 || bytes[j] == 13 || bytes[j]
        == 10)
        invariant
            i <= j <= bytes@.len(),
            token_end(bytes@, i as int) == token_end(bytes@, j as int),
        decreases bytes@.len() - j,
    {
        j += 1;
    }
    j
}

/// Parse an HTTP request line: it must hold a method, a target and a
/// version, and the method must be `CONNECT`. Returns the target token.
pub fn parse_request_line(line: &str) -> (r: Result<String, HttpError>)
    ensures
        ({
            let b = line.spec_bytes();
            match r {
                Ok(target) => spec_request_line(b) == Ok::<Seq<u8>, HttpError>(
                    encode_utf8(target@),
                ),
                Err(e) => spec_request_line(b) == Err::<Seq<u8>, HttpError>(e),
            }
        }),
{
    let bytes = line.as_bytes();
    proof {
        assert(valid_utf8(bytes@));
    }
    let m0 = skip_ws_from(bytes, 0);
    let m1 = token_end_from(bytes, m0);
    let t0 = skip_ws_from(bytes, m1);
    let t1 = token_end_from(bytes, t0);
    let v0 = skip_ws_from(bytes, t1);
    if m0 == bytes.len() || t0 == bytes.len() || v0 == bytes.len() {
        return Err(HttpError::BadRequestLine);
    }
    // the method must read CONNECT
    if m1 - m0 != 7 || bytes[m0] != 67 || bytes[m0 + 1] != 79 || bytes[m0 + 2] != 78 || bytes[m0
        + 3] != 78 || bytes[m0 + 4] != 69 || bytes[m0 + 5] != 67 || bytes[m0 + 6] != 84 {
        proof {
            if bytes@.subrange(m0 as int, m1 as int) == connect_method_bytes() {
                assert(bytes@.subrange(m0 as int, m1 as int).len() == 7);
                assert(forall|q: int|
                    0 <= q < 7 ==> bytes@.subrange(m0 as int, m1 as int)[q] == bytes@[m0 + q]);
                assert(false);
            }
        }
        return Err(HttpError::MethodNotAllowed);
    }
    proof {
        assert(bytes@.subrange(m0 as int, m1 as int) =~= connect_method_bytes());
        // the target starts right after ASCII whitespace and ends at
        // whitespace or the line's end, both character boundaries
        assert(t0 > m1);
        assert(is_ws(bytes@[t0 as int - 1]));
        lemma_boundary_after_ascii(bytes@, t0 as int - 1);
        lemma_char_boundary_at(bytes@, t1 as int);
    }
    let (_before, from_t0) = line.split_at(t0);
    proof {
        assert(valid_utf8(from_t0.spec_bytes()));
        assert(from_t0.spec_bytes() == bytes@.subrange(t0 as int, bytes@.len() as int));
        assert(vstd::utf8::is_char_boundary(from_t0.spec_bytes(), t1 as int - t0 as int)) by {
            if t1 < bytes.len() {
                assert(from_t0.spec_bytes()[t1 as int - t0 as int] == bytes@[t1 as int]);
                assert(!is_continuation_byte(bytes@[t1 as int]));
                vstd::utf8::is_char_boundary_iff_not_is_continuation_byte(
                    from_t0.spec_bytes(),
                    t1 as int - t0 as int,
                );
            }
        }
    }
    let (target_str, _rest) = from_t0.split_at(t1 - t0);
    let target = target_str.to_owned();
    proof {
        assert(encode_utf8(target@) =~= bytes@.subrange(t0 as int, t1 as int));
    }
    Ok(target)
}

} // verus!
