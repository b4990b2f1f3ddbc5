//! JSON-RPC framing: `Content-Length: <n>\r\n\r\n<n bytes of JSON>`.
//!
//! Encoding and decoding work on bytes; turning the body into a JSON value
//! is left to the caller.

use vstd::prelude::*;
use vstd::slice::slice_subrange;
use vstd::utf8::{
    decode_first_codepoint, is_leading_byte_width_1, length_of_first_codepoint, pop_first_scalar,
    decode_utf8, valid_utf8,
};
use crate::text::{
    all_digits, chars_of, digits_value, is_digit, parse_usize_chars, parse_usize_text,
    trim_bounds, trim_chars, trim_end_chars, trim_start_chars, unsigned_digits,
};

verus! {

/// Why a frame cannot be read.
#[derive(Clone, Copy, Debug, PartialEq, Eq, Structural)]
pub enum TransportError {
    /// The headers ended without a `Content-Length`.
    MissingLength,
    /// A `Content-Length` header whose value is not a number.
    Malformed,
    /// The stream ended inside a frame.
    Eof,
    /// A header line or the body is not UTF-8.
    Utf8,
}

/// The result of looking for one frame at the start of a buffer.
#[derive(Clone, Copy, Debug, PartialEq, Eq, Structural)]
pub enum FrameParse {
    /// More bytes are needed.
    Incomplete,
    /// A whole frame: its body is `body_len` bytes from `body_start`.
    Frame { body_start: usize, body_len: usize },
    Failed(TransportError),
}

/// The shape of a decoded JSON-RPC message.
#[derive(Clone, Copy, Debug, PartialEq, Eq, Structural)]
pub enum MessageKind {
    Request,
    Response,
    Notification,
    /// Neither an id nor a method.
    Invalid,
}

/// A message with an id and a method is a request, one with an id alone a
/// response, one with a method alone a notification.
pub open spec fn classify_spec(has_id: bool, has_method: bool) -> MessageKind {
    if has_id && has_method {
        MessageKind::Request
    } else if has_id {
        MessageKind::Response
    } else if has_method {
        MessageKind::Notification
    } else {
        MessageKind::Invalid
    }
}

pub fn classify(has_id: bool, has_method: bool) -> (r: MessageKind)
    ensures
        r == classify_spec(has_id, has_method),
{
    if has_id && has_method {
        MessageKind::Request
    } else if has_id {
        MessageKind::Response
    } else if has_method {
        MessageKind::Notification
    } else {
        MessageKind::Invalid
    }
}

/// The bytes of `Content-Length: ` (16 bytes).
pub open spec fn length_prefix() -> Seq<u8> {
    seq![67u8, 111, 110, 116, 101, 110, 116, 45, 76, 101, 110, 103, 116, 104, 58, 32]
}

/// The decimal digits of `n`, most significant first.
pub open spec fn decimal_bytes(n: nat) -> Seq<u8>
    decreases n,
{
    if n < 10 {
        seq![(48 + n) as u8]
    } else {
        decimal_bytes(n / 10).push((48 + n % 10) as u8)
    }
}

/// A whole frame around `body`.
pub open spec fn frame_spec(body: Seq<u8>) -> Seq<u8> {
    length_prefix() + decimal_bytes(body.len()) + seq![13u8, 10, 13, 10] + body
}

/// Where the body of the frame around a body of `n` bytes starts.
pub open spec fn header_len(n: nat) -> nat {
    16 + decimal_bytes(n).len() + 4
}

pub open spec fn is_digit_byte(c: u8) -> bool {
    48 <= c && c <= 57
}

pub open spec fn all_digit_bytes(d: Seq<u8>) -> bool {
    forall|i: int| 0 <= i < d.len() ==> is_digit_byte(#[trigger] d[i])
}

pub open spec fn bytes_value(s: Seq<u8>) -> int
    decreases s.len(),
{
    if s.len() == 0 {
        0
    } else {
        bytes_value(s.drop_last()) * 10 + (s.last() - 48)
    }
}

/// What the header lines say, read from `line_start` with the scan at `i`.
pub enum HeaderScan {
    Incomplete,
    Malformed,
    /// A header line that is not UTF-8 text.
    NotText,
    Done { end: int, length: Option<usize> },
}

/// Reads header lines (each ends with `\n`, and must be UTF-8 text) until a
/// line that is exactly `\r\n`. A line that starts with `Content-Length: `
/// sets the length to its value with surrounding whitespace trimmed, as
/// `str::trim` does (the last such line wins).
pub open spec fn scan_headers(b: Seq<u8>, line_start: int, i: int, length: Option<usize>) -> HeaderScan
    decreases b.len() - i,
{
    if i < 0 || i >= b.len() {
        HeaderScan::Incomplete
    } else if b[i] != 10 {
        scan_headers(b, line_start, i + 1, length)
    } else {
        let line = b.subrange(line_start, i + 1);
        if line == seq![13u8, 10] {
            HeaderScan::Done { end: i + 1, length }
        } else if line.len() >= 16 && line.subrange(0, 16) == length_prefix() {
            let value = line.subrange(16, line.len() as int);
            if !valid_utf8(value) {
                HeaderScan::NotText
            } else {
                match parse_usize_text(trim_chars(decode_utf8(value))) {
                    Some(n) => scan_headers(b, i + 1, i + 1, Some(n)),
                    None => HeaderScan::Malformed,
                }
            }
        } else if !valid_utf8(line) {
            HeaderScan::NotText
        } else {
            scan_headers(b, i + 1, i + 1, length)
        }
    }
}

/// The frame at the start of `b`.
pub open spec fn decode_spec(b: Seq<u8>) -> FrameParse {
    match scan_headers(b, 0, 0, None) {
        HeaderScan::Incomplete => FrameParse::Incomplete,
        HeaderScan::Malformed => FrameParse::Failed(TransportError::Malformed),
        HeaderScan::NotText => FrameParse::Failed(TransportError::Utf8),
        HeaderScan::Done { end, length } => match length {
            None => FrameParse::Failed(TransportError::MissingLength),
            Some(n) => if b.len() - end >= n {
                FrameParse::Frame { body_start: end as usize, body_len: n }
            } else {
                FrameParse::Incomplete
            },
        },
    }
}

fn push_decimal(out: &mut Vec<u8>, n: usize)
    ensures
        final(out)@ == old(out)@ + decimal_bytes(n as nat),
    decreases n,
{
    if n >= 10 {
        push_decimal(out, n / 10);
    }
    out.push((48 + n % 10) as u8);
    assert(final(out)@ =~= old(out)@ + decimal_bytes(n as nat));
}

/// The frame around `body`.
pub fn encode_frame(body: &Vec<u8>) -> (r: Vec<u8>)
    ensures
        r@ == frame_spec(body@),
{
    let mut out: Vec<u8> = vec![67u8, 111, 110, 116, 101, 110, 116, 45, 76, 101, 110, 103, 116, 104, 58, 32];
    assert(out@ =~= length_prefix());
    push_decimal(&mut out, body.len());
    out.push(13);
    out.push(10);
    out.push(13);
    out.push(10);
    let ghost head = out@;
    let mut i: usize = 0;
    while i < body.len()
        invariant
            i <= body@.len(),
            out@ == head + body@.subrange(0, i as int),
        decreases body@.len() - i,
    {
        out.push(body[i]);
        i = i + 1;
        assert(out@ =~= head + body@.subrange(0, i as int));
    }
    assert(body@.subrange(0, body@.len() as int) =~= body@);
    assert(out@ =~= frame_spec(body@));
    out
}

/// The characters of bytes that are all ASCII.
pub open spec fn ascii_chars(b: Seq<u8>) -> Seq<char> {
    b.map_values(|x: u8| x as char)
}

proof fn lemma_ascii_utf8(b: Seq<u8>)
    requires
        forall|k: int| 0 <= k < b.len() ==> #[trigger] b[k] < 128,
    ensures
        valid_utf8(b),
        decode_utf8(b) == ascii_chars(b),
    decreases b.len(),
{
    if b.len() > 0 {
        let x = b[0];
        assert(x < 128);
        assert(is_leading_byte_width_1(x));
        assert(x & 0x7f == x) by (bit_vector)
            requires
                x < 128,
        ;
        assert(decode_first_codepoint(b) == x as u32);
        assert(length_of_first_codepoint(b) == 1);
        let rest = b.subrange(1, b.len() as int);
        assert(pop_first_scalar(b) =~= rest);
        assert forall|k: int| 0 <= k < rest.len() implies #[trigger] rest[k] < 128 by {
            assert(rest[k] == b[k + 1]);
        }
        lemma_ascii_utf8(rest);
        assert(seq![x as char] + ascii_chars(rest) =~= ascii_chars(b));
    }
}

proof fn lemma_digit_chars(b: Seq<u8>)
    requires
        all_digit_bytes(b),
    ensures
        all_digits(ascii_chars(b)),
        digits_value(ascii_chars(b)) == bytes_value(b),
    decreases b.len(),
{
    let c = ascii_chars(b);
    assert forall|k: int| 0 <= k < c.len() implies is_digit(#[trigger] c[k]) by {
        assert(is_digit_byte(b[k]));
    }
    if b.len() > 0 {
        let d = b.drop_last();
        assert(all_digit_bytes(d)) by {
            assert forall|k: int| 0 <= k < d.len() implies is_digit_byte(#[trigger] d[k]) by {
                assert(d[k] == b[k]);
            }
        }
        lemma_digit_chars(d);
        assert(c.drop_last() =~= ascii_chars(d));
        assert(is_digit_byte(b.last()));
    }
}

fn is_length_header(b: &Vec<u8>, ls: usize, end: usize) -> (r: bool)
    requires
        ls <= end <= b@.len(),
    ensures
        r == (b@.subrange(ls as int, end as int).len() >= 16 && b@.subrange(
            ls as int,
            end as int,
        ).subrange(0, 16) == length_prefix()),
{
    if end - ls < 16 {
        return false;
    }
    let prefix: Vec<u8> = vec![67u8, 111, 110, 116, 101, 110, 116, 45, 76, 101, 110, 103, 116, 104, 58, 32];
    assert(prefix@ =~= length_prefix());
    let mut k: usize = 0;
    while k < 16
        invariant
            ls + 16 <= end <= b@.len(),
            prefix@ == length_prefix(),
            k <= 16,
            forall|j: int| 0 <= j < k ==> b@[ls + j] == prefix@[j],
        decreases 16 - k,
    {
        if b[ls + k] != prefix[k] {
            assert(b@.subrange(ls as int, end as int).subrange(0, 16)[k as int] != prefix@[k as int]);
            return false;
        }
        k = k + 1;
    }
    assert(b@.subrange(ls as int, end as int).subrange(0, 16) =~= length_prefix());
    true
}

/// Looks for one frame at the start of `buf` (see `decode_spec`).
pub fn decode_frame(buf: &Vec<u8>) -> (r: FrameParse)
    ensures
        r == decode_spec(buf@),
{
    let n = buf.len();
    let mut ls: usize = 0;
    let mut i: usize = 0;
    let mut length: Option<usize> = None;
    while i < n
        invariant
            n == buf@.len(),
            ls <= i <= n,
            scan_headers(buf@, 0, 0, None) == scan_headers(buf@, ls as int, i as int, length),
        decreases n - i,
    {
        if buf[i] != 10 {
            i = i + 1;
            continue;
        }
        let ghost line = buf@.subrange(ls as int, i + 1);
        if i == ls + 1 && buf[ls] == 13 {
            assert(line =~= seq![13u8, 10]);
            let end = i + 1;
            return match length {
                None => FrameParse::Failed(TransportError::MissingLength),
                Some(len) => if n - end >= len {
                    FrameParse::Frame { body_start: end, body_len: len }
                } else {
                    FrameParse::Incomplete
                },
            };
        }
        assert(line != seq![13u8, 10]) by {
            if line.len() == 2 {
                assert(line[0] == buf@[ls as int]);
            }
        }
        if is_length_header(buf, ls, i + 1) {
            assert(line.subrange(16, line.len() as int) =~= buf@.subrange(ls + 16, i + 1));
            let value = slice_subrange(buf.as_slice(), ls + 16, i + 1);
            let text = match utf8_str(value) {
                Some(t) => t,
                None => {
                    return FrameParse::Failed(TransportError::Utf8);
                },
            };
            let cs = chars_of(text);
            let (a, z) = trim_bounds(&cs);
            match parse_usize_chars(&cs, a, z) {
                Some(v) => {
                    length = Some(v);
                },
                None => {
                    return FrameParse::Failed(TransportError::Malformed);
                },
            }
        } else if utf8_str(slice_subrange(buf.as_slice(), ls, i + 1)).is_none() {
            return FrameParse::Failed(TransportError::Utf8);
        }
        i = i + 1;
        ls = i;
    }
    FrameParse::Incomplete
}

proof fn lemma_decimal_bytes(n: nat)
    ensures
        decimal_bytes(n).len() >= 1,
        all_digit_bytes(decimal_bytes(n)),
        bytes_value(decimal_bytes(n)) == n,
    decreases n,
{
    let d = decimal_bytes(n);
    if n < 10 {
        assert(d.drop_last() =~= Seq::<u8>::empty());
        assert(d.last() == (48 + n) as u8);
        assert((48 + n) as u8 == 48 + n);
        assert(bytes_value(d) == bytes_value(d.drop_last()) * 10 + (d.last() - 48));
        assert(bytes_value(d.drop_last()) == 0);
    } else {
        lemma_decimal_bytes(n / 10);
        assert(d.drop_last() =~= decimal_bytes(n / 10));
        assert(d.last() == (48 + n % 10) as u8);
        assert(n == (n / 10) * 10 + n % 10);
        assert((48 + n % 10) as u8 == 48 + n % 10);
        assert(bytes_value(d) == bytes_value(d.drop_last()) * 10 + (d.last() - 48));
        assert forall|i: int| 0 <= i < d.len() implies is_digit_byte(#[trigger] d[i]) by {
            if i < d.len() - 1 {
                assert(d[i] == decimal_bytes(n / 10)[i]);
            }
        }
    }
}

proof fn lemma_scan_skips(b: Seq<u8>, ls: int, i: int, j: int, length: Option<usize>)
    requires
        0 <= i <= j <= b.len(),
        forall|k: int| i <= k < j ==> b[k] != 10,
    ensures
        scan_headers(b, ls, i, length) == scan_headers(b, ls, j, length),
    decreases j - i,
{
    if i < j {
        lemma_scan_skips(b, ls, i + 1, j, length);
    }
}

/// Decoding the frame around `body`, whatever follows it in the buffer,
/// finds exactly that body.
#[verifier::rlimit(50)]
pub proof fn lemma_decode_encode(body: Seq<u8>, rest: Seq<u8>)
    requires
        body.len() <= usize::MAX,
        header_len(body.len()) <= usize::MAX,
    ensures
        decode_spec(frame_spec(body) + rest) == (FrameParse::Frame {
            body_start: header_len(body.len()) as usize,
            body_len: body.len() as usize,
        }),
{
    let n = body.len();
    let digits = decimal_bytes(n);
    lemma_decimal_bytes(n);
    let d = digits.len() as int;
    let b = frame_spec(body) + rest;
    let p = length_prefix();
    assert(b.len() == 16 + d + 4 + n + rest.len());
    assert forall|k: int| 0 <= k < 16 implies b[k] == p[k] by {}
    assert forall|k: int| 0 <= k < d implies b[16 + k] == digits[k] by {}
    assert(b[16 + d] == 13 && b[17 + d] == 10 && b[18 + d] == 13 && b[19 + d] == 10);
    assert forall|k: int| 0 <= k < 17 + d implies b[k] != 10 by {
        if k < 16 {
            assert(b[k] == p[k]);
        } else if k < 16 + d {
            assert(b[k] == digits[k - 16]);
            assert(is_digit_byte(digits[k - 16]));
        }
    }
    lemma_scan_skips(b, 0, 0, 17 + d, None);
    let line = b.subrange(0, 18 + d);
    assert(line.subrange(0, 16) =~= p);
    let value = line.subrange(16, line.len() as int);
    assert(value =~= digits + seq![13u8, 10]);
    assert forall|k: int| 0 <= k < value.len() implies #[trigger] value[k] < 128 by {
        if k < d {
            assert(value[k] == digits[k]);
            assert(is_digit_byte(digits[k]));
        }
    }
    lemma_ascii_utf8(value);
    lemma_digit_chars(digits);
    let dc = ascii_chars(digits);
    let vc = ascii_chars(value);
    assert(vc =~= dc + seq!['\r', '\n']);
    assert(is_digit(dc[0]));
    assert(vc[0] == dc[0]);
    assert(trim_start_chars(vc) == vc);
    assert(vc.drop_last() =~= dc + seq!['\r']);
    assert((dc + seq!['\r']).drop_last() =~= dc);
    assert(is_digit(dc.last()));
    assert(trim_end_chars(dc) == dc);
    assert(trim_end_chars(dc + seq!['\r']) == trim_end_chars(dc));
    assert(trim_end_chars(vc) == trim_end_chars(dc + seq!['\r']));
    assert(trim_chars(decode_utf8(value)) == dc);
    assert(unsigned_digits(dc) == dc);
    assert(parse_usize_text(dc) == Some(n as usize));
    assert(line != seq![13u8, 10]);
    assert(b[18 + d] != 10);
    assert(scan_headers(b, 18 + d, 18 + d, Some(n as usize)) == scan_headers(
        b,
        18 + d,
        19 + d,
        Some(n as usize),
    ));
    assert(b.subrange(18 + d, 20 + d) =~= seq![13u8, 10]);
}

/// Relies on `std::str::from_utf8`: it succeeds exactly when the bytes are
/// well-formed UTF-8, and the text then holds the characters they encode.
#[verifier::external_body]
fn utf8_str(b: &[u8]) -> (r: Option<&str>)
    ensures
        r is Some <==> valid_utf8(b@),
        r matches Some(s) ==> s@ == decode_utf8(b@),
{
    std::str::from_utf8(b).ok()
}

/// The text of the frame body `buf[start..start + len]`: `Eof` when the
/// buffer does not hold that many bytes, `Utf8` when they are not UTF-8.
pub fn frame_body_text(buf: &Vec<u8>, start: usize, len: usize) -> (r: Result<String, TransportError>)
    ensures
        (start + len > buf@.len()) ==> r == Err::<String, TransportError>(TransportError::Eof),
        (start + len <= buf@.len()) ==> ({
            let body = buf@.subrange(start as int, start + len);
            &&& valid_utf8(body) ==> (r matches Ok(t) && t@ == decode_utf8(body))
            &&& !valid_utf8(body) ==> r == Err::<String, TransportError>(TransportError::Utf8)
        }),
{
    if start > buf.len() || len > buf.len() - start {
        return Err(TransportError::Eof);
    }
    let body = slice_subrange(buf.as_slice(), start, start + len);
    match utf8_str(body) {
        Some(t) => Ok(String::from_str(t)),
        None => Err(TransportError::Utf8),
    }
}

} // verus!
