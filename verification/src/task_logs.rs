//! Task output logs: artifact ids, the UTF-8-safe previews of output chunks,
//! the byte accounting of a log as it is written, and the base64 decoding of
//! stdin chunks sent to interactive tasks.

use vstd::prelude::*;
use vstd::string::StringSliceAdditionalSpecFns;
use vstd::utf8::{decode_utf8, encode_utf8, valid_utf8};

use crate::ids::{is_lower_hex_char, random_uuid_simple};
use crate::json::{Json, JsonNumber, JsonView, NumberView, ObjectBuilder};
use crate::kernel::ToolTaskExecutionMode;
use crate::paths::{artifacts_blobs_dir, blob_rel_path, join_path, join_path_exec, lemma_blob_path_is_relative, normalize_rel_path, spec_artifacts_blobs_dir, spec_normalize_rel_path};
use crate::tasks::TaskOutputStream;
use crate::text::{concat2, owned};

verus! {

/// A lowercase hexadecimal digit, as a byte.
pub open spec fn is_lower_hex_byte(b: u8) -> bool {
    (48 <= b && b <= 57) || (97 <= b && b <= 102)
}

/// Exactly 64 lowercase hexadecimal digits: the shape of an artifact id.
pub open spec fn spec_is_lower_hex_64(bytes: Seq<u8>) -> bool {
    bytes.len() == 64 && forall|i: int| 0 <= i < bytes.len() ==> is_lower_hex_byte(#[trigger] bytes[i])
}

pub fn is_lower_hex_64(value: &str) -> (r: bool)
    ensures
        r == spec_is_lower_hex_64(value.spec_bytes()),
{
    if value.len() != 64 {
        return false;
    }
    let bytes = value.as_bytes();
    let mut i: usize = 0;
    while i < bytes.len()
        invariant
            bytes@ == value.spec_bytes(),
            i <= bytes@.len(),
            forall|k: int| 0 <= k < i ==> is_lower_hex_byte(#[trigger] bytes@[k]),
        decreases bytes@.len() - i,
    {
        let b = bytes[i];
        if !((48 <= b && b <= 57) || (97 <= b && b <= 102)) {
            return false;
        }
        i = i + 1;
    }
    true
}

/// A fresh artifact id: two random UUIDs in simple form, one after the other.
pub fn new_artifact_id() -> (r: String)
    ensures
        r@.len() == 64,
        forall|i: int| 0 <= i < 64 ==> is_lower_hex_char(#[trigger] r@[i]),
        spec_is_lower_hex_64(encode_utf8(r@)),
{
    let a = random_uuid_simple();
    let b = random_uuid_simple();
    let r = concat2(a.as_str(), b.as_str());
    proof {
        assert forall|i: int| 0 <= i < 64 implies is_lower_hex_char(#[trigger] r@[i]) by {
            if i < 32 {
                assert(r@[i] == a@[i]);
            } else {
                assert(r@[i] == b@[i - 32]);
            }
        }
        assert(vstd::utf8::is_ascii_chars(r@));
        vstd::utf8::is_ascii_chars_encode_utf8(r@);
        let bytes = encode_utf8(r@);
        assert forall|i: int| 0 <= i < bytes.len() implies is_lower_hex_byte(#[trigger] bytes[i]) by {
            assert(bytes[i] == r@[i] as u8);
        }
    }
    r
}

/// What `String::from_utf8_lossy` makes of some bytes.
pub uninterp spec fn utf8_lossy(bytes: Seq<u8>) -> Seq<char>;

/// `std::str::from_utf8(&bytes[start..end])`, as an owned `String` when the
/// bytes are valid.
///
/// Trusted: std documents that `from_utf8` succeeds exactly on valid UTF-8 and
/// that the resulting `str` consists of those bytes.
#[verifier::external_body]
pub(crate) fn utf8_slice(bytes: &[u8], start: usize, end: usize) -> (r: Option<String>)
    requires
        start <= end <= bytes@.len(),
    ensures
        r is Some <==> valid_utf8(bytes@.subrange(start as int, end as int)),
        r matches Some(s) ==> s@ == decode_utf8(bytes@.subrange(start as int, end as int)),
{
    std::str::from_utf8(&bytes[start..end]).ok().map(|s| s.to_string())
}

/// `String::from_utf8_lossy(&bytes[..end]).into_owned()`.
///
/// Trusted: the result is named; std documents that valid UTF-8 comes back unchanged.
#[verifier::external_body]
fn utf8_lossy_prefix(bytes: &[u8], end: usize) -> (r: String)
    requires
        end <= bytes@.len(),
    ensures
        r@ == utf8_lossy(bytes@.subrange(0, end as int)),
        valid_utf8(bytes@.subrange(0, end as int)) ==> r@ == decode_utf8(bytes@.subrange(0, end as int)),
{
    String::from_utf8_lossy(&bytes[..end]).into_owned()
}

/// The length of the longest prefix of at most `max` bytes that is valid
/// UTF-8, searching down from `max`.
pub open spec fn utf8_cut(bytes: Seq<u8>, max: int) -> int
    decreases max,
{
    if max <= 0 {
        0
    } else if valid_utf8(bytes.subrange(0, max)) {
        max
    } else {
        utf8_cut(bytes, max - 1)
    }
}

pub(crate) proof fn lemma_utf8_cut(bytes: Seq<u8>, max: int)
    requires
        0 <= max <= bytes.len(),
    ensures
        0 <= utf8_cut(bytes, max) <= max,
        valid_utf8(bytes.subrange(0, utf8_cut(bytes, max))),
        forall|e: int| utf8_cut(bytes, max) < e <= max ==> !valid_utf8(#[trigger] bytes.subrange(0, e)),
    decreases max,
{
    if max > 0 && !valid_utf8(bytes.subrange(0, max)) {
        lemma_utf8_cut(bytes, max - 1);
    }
    if max == 0 {
        assert(bytes.subrange(0, 0) =~= Seq::<u8>::empty());
    }
}

/// A preview of at most `max_bytes` bytes of output: when the bytes fit they
/// are shown whole; otherwise they are cut at the longest valid UTF-8 prefix
/// within the limit. Returns the text, whether it was cut, and how many bytes
/// it covers.
pub fn truncate_utf8(bytes: &[u8], max_bytes: usize) -> (r: (String, bool, usize))
    ensures
        bytes@.len() <= max_bytes ==> {
            &&& r.0@ == utf8_lossy(bytes@)
            &&& !r.1
            &&& r.2 == bytes@.len()
        },
        bytes@.len() > max_bytes ==> {
            &&& r.1
            &&& r.2 == utf8_cut(bytes@, max_bytes as int)
            &&& r.2 <= max_bytes
            &&& valid_utf8(bytes@.subrange(0, r.2 as int))
            &&& r.0@ == decode_utf8(bytes@.subrange(0, r.2 as int))
            &&& encode_utf8(r.0@) == bytes@.subrange(0, r.2 as int)
        },
{
    if bytes.len() <= max_bytes {
        let s = utf8_lossy_prefix(bytes, bytes.len());
        assert(bytes@.subrange(0, bytes@.len() as int) =~= bytes@);
        return (s, false, bytes.len());
    }
    let mut end = max_bytes;
    let mut found: Option<String> = None;
    while end > 0
        invariant_except_break
            found is None,
        invariant
            end <= max_bytes < bytes@.len(),
            utf8_cut(bytes@, max_bytes as int) == utf8_cut(bytes@, end as int),
        ensures
            end <= max_bytes < bytes@.len(),
            utf8_cut(bytes@, max_bytes as int) == utf8_cut(bytes@, end as int),
            found matches Some(s) ==> valid_utf8(bytes@.subrange(0, end as int)) && s@ == decode_utf8(
                bytes@.subrange(0, end as int),
            ),
            found is None ==> end == 0,
        decreases end,
    {
        match utf8_slice(bytes, 0, end) {
            Some(s) => {
                found = Some(s);
                break;
            },
            None => {
                end = end - 1;
            },
        }
    }
    proof {
        lemma_utf8_cut(bytes@, end as int);
    }
    let s = match found {
        Some(s) => s,
        None => {
            assert(bytes@.subrange(0, 0) =~= Seq::<u8>::empty());
            utf8_lossy_prefix(bytes, 0)
        },
    };
    proof {
        lemma_utf8_cut(bytes@, end as int);
        vstd::utf8::decode_utf8_encode_utf8(bytes@.subrange(0, end as int));
    }
    (s, true, end)
}

/// The value of one base64 digit.
pub open spec fn base64_digit(c: u8) -> Option<u8> {
    if 65 <= c && c <= 90 {
        Some((c - 65) as u8)
    } else if 97 <= c && c <= 122 {
        Some((c - 97 + 26) as u8)
    } else if 48 <= c && c <= 57 {
        Some((c - 48 + 52) as u8)
    } else if c == 43 {
        Some(62u8)
    } else if c == 47 {
        Some(63u8)
    } else {
        None
    }
}

/// The bytes of one group of four base64 characters, or the error text.
pub open spec fn decode_group(c0: u8, c1: u8, c2: u8, c3: u8) -> Result<Seq<u8>, Seq<char>> {
    let pad2 = c2 == 61;
    let pad3 = c3 == 61;
    if base64_digit(c0) is None || base64_digit(c1) is None {
        Err("invalid base64 character"@)
    } else if !pad2 && base64_digit(c2) is None {
        Err("invalid base64 character"@)
    } else if !pad3 && base64_digit(c3) is None {
        Err("invalid base64 character"@)
    } else if pad2 && !pad3 {
        Err("invalid base64 padding"@)
    } else {
        let v0 = base64_digit(c0).unwrap() as u32;
        let v1 = base64_digit(c1).unwrap() as u32;
        let v2: u32 = if pad2 { 0 } else { base64_digit(c2).unwrap() as u32 };
        let v3: u32 = if pad3 { 0 } else { base64_digit(c3).unwrap() as u32 };
        let n: u32 = (v0 << 18u32) | (v1 << 12u32) | (v2 << 6u32) | v3;
        let b0 = ((n >> 16u32) & 0xffu32) as u8;
        let b1 = ((n >> 8u32) & 0xffu32) as u8;
        let b2 = (n & 0xffu32) as u8;
        if pad2 {
            Ok(seq![b0])
        } else if pad3 {
            Ok(seq![b0, b1])
        } else {
            Ok(seq![b0, b1, b2])
        }
    }
}

/// Decodes the groups starting at byte `i`, left to right; the first bad
/// group decides the error.
pub open spec fn decode_groups(s: Seq<u8>, i: int) -> Result<Seq<u8>, Seq<char>>
    decreases s.len() - i,
{
    if i < 0 || i + 4 > s.len() {
        Ok(Seq::empty())
    } else {
        match decode_group(s[i], s[i + 1], s[i + 2], s[i + 3]) {
            Err(e) => Err(e),
            Ok(g) => match decode_groups(s, i + 4) {
                Ok(rest) => Ok(g + rest),
                Err(e) => Err(e),
            },
        }
    }
}

/// Standard base64 (with `=` padding) of the bytes of a text.
pub open spec fn spec_base64_decode(s: Seq<u8>) -> Result<Seq<u8>, Seq<char>> {
    if s.len() == 0 {
        Ok(Seq::empty())
    } else if s.len() % 4 != 0 {
        Err("invalid base64 length"@)
    } else {
        decode_groups(s, 0)
    }
}

/// The base64 character of a digit below 64.
pub open spec fn base64_char(d: u8) -> u8 {
    if d < 26 {
        (d + 65) as u8
    } else if d < 52 {
        (d - 26 + 97) as u8
    } else if d < 62 {
        (d - 52 + 48) as u8
    } else if d == 62 {
        43u8
    } else {
        47u8
    }
}

pub open spec fn encode_group3(b0: u8, b1: u8, b2: u8) -> Seq<u8> {
    seq![
        base64_char(b0 >> 2u8),
        base64_char(((b0 & 3u8) << 4u8) | (b1 >> 4u8)),
        base64_char(((b1 & 15u8) << 2u8) | (b2 >> 6u8)),
        base64_char(b2 & 63u8),
    ]
}

pub open spec fn encode_group2(b0: u8, b1: u8) -> Seq<u8> {
    seq![
        base64_char(b0 >> 2u8),
        base64_char(((b0 & 3u8) << 4u8) | (b1 >> 4u8)),
        base64_char((b1 & 15u8) << 2u8),
        61u8,
    ]
}

pub open spec fn encode_group1(b0: u8) -> Seq<u8> {
    seq![base64_char(b0 >> 2u8), base64_char((b0 & 3u8) << 4u8), 61u8, 61u8]
}

/// Standard base64 with `=` padding (RFC 4648), three bytes to four
/// characters.
pub open spec fn spec_base64_encode(b: Seq<u8>) -> Seq<u8>
    decreases b.len(),
{
    if b.len() == 0 {
        Seq::empty()
    } else if b.len() == 1 {
        encode_group1(b[0])
    } else if b.len() == 2 {
        encode_group2(b[0], b[1])
    } else {
        encode_group3(b[0], b[1], b[2]) + spec_base64_encode(b.subrange(3, b.len() as int))
    }
}

proof fn lemma_char_digit(d: u8)
    requires
        d < 64,
    ensures
        base64_digit(base64_char(d)) == Some(d),
        base64_char(d) != 61,
{
}

proof fn lemma_digit_bounds(b0: u8, b1: u8, b2: u8)
    by (bit_vector)
    ensures
        (b0 >> 2u8) < 64,
        (((b0 & 3u8) << 4u8) | (b1 >> 4u8)) < 64,
        (((b1 & 15u8) << 2u8) | (b2 >> 6u8)) < 64,
        (b2 & 63u8) < 64,
        ((b0 & 3u8) << 4u8) < 64,
        ((b1 & 15u8) << 2u8) < 64,
{
}

proof fn lemma_bits3(b0: u8, b1: u8, b2: u8)
    by (bit_vector)
    ensures
        ((((((b0 >> 2u8) as u32) << 18u32) | (((((b0 & 3u8) << 4u8) | (b1 >> 4u8)) as u32) << 12u32) | (((((b1 & 15u8) << 2u8) | (b2 >> 6u8)) as u32) << 6u32) | ((b2 & 63u8) as u32)) >> 16u32) & 0xffu32) as u8 == b0,
        ((((((b0 >> 2u8) as u32) << 18u32) | (((((b0 & 3u8) << 4u8) | (b1 >> 4u8)) as u32) << 12u32) | (((((b1 & 15u8) << 2u8) | (b2 >> 6u8)) as u32) << 6u32) | ((b2 & 63u8) as u32)) >> 8u32) & 0xffu32) as u8 == b1,
        (((((b0 >> 2u8) as u32) << 18u32) | (((((b0 & 3u8) << 4u8) | (b1 >> 4u8)) as u32) << 12u32) | (((((b1 & 15u8) << 2u8) | (b2 >> 6u8)) as u32) << 6u32) | ((b2 & 63u8) as u32)) & 0xffu32) as u8 == b2,
{
}

proof fn lemma_bits2(b0: u8, b1: u8)
    by (bit_vector)
    ensures
        ((((((b0 >> 2u8) as u32) << 18u32) | (((((b0 & 3u8) << 4u8) | (b1 >> 4u8)) as u32) << 12u32) | (((((b1 & 15u8) << 2u8)) as u32) << 6u32) | 0u32) >> 16u32) & 0xffu32) as u8 == b0,
        ((((((b0 >> 2u8) as u32) << 18u32) | (((((b0 & 3u8) << 4u8) | (b1 >> 4u8)) as u32) << 12u32) | (((((b1 & 15u8) << 2u8)) as u32) << 6u32) | 0u32) >> 8u32) & 0xffu32) as u8 == b1,
{
}

proof fn lemma_bits1(b0: u8)
    by (bit_vector)
    ensures
        ((((((b0 >> 2u8) as u32) << 18u32) | (((((b0 & 3u8) << 4u8)) as u32) << 12u32) | (0u32 << 6u32) | 0u32) >> 16u32) & 0xffu32) as u8 == b0,
{
}

proof fn lemma_decode_groups_shift(s: Seq<u8>, i: int)
    requires
        0 <= i <= s.len(),
    ensures
        decode_groups(s, i) == decode_groups(s.subrange(i, s.len() as int), 0),
    decreases s.len() - i,
{
    let sub = s.subrange(i, s.len() as int);
    if i + 4 <= s.len() {
        assert(sub[0] == s[i] && sub[1] == s[i + 1] && sub[2] == s[i + 2] && sub[3] == s[i + 3]);
        lemma_decode_groups_shift(s, i + 4);
        lemma_decode_groups_shift(sub, 4);
        assert(sub.subrange(4, sub.len() as int) =~= s.subrange(i + 4, s.len() as int));
    }
}

proof fn lemma_group1(b0: u8)
    ensures
        ({
            let g = encode_group1(b0);
            decode_group(g[0], g[1], g[2], g[3]) == Ok::<Seq<u8>, Seq<char>>(seq![b0])
        }),
{
    lemma_digit_bounds(b0, 0, 0);
    lemma_char_digit(b0 >> 2u8);
    lemma_char_digit((b0 & 3u8) << 4u8);
    lemma_bits1(b0);
}

proof fn lemma_group2(b0: u8, b1: u8)
    ensures
        ({
            let g = encode_group2(b0, b1);
            decode_group(g[0], g[1], g[2], g[3]) == Ok::<Seq<u8>, Seq<char>>(seq![b0, b1])
        }),
{
    lemma_digit_bounds(b0, b1, 0);
    lemma_char_digit(b0 >> 2u8);
    lemma_char_digit(((b0 & 3u8) << 4u8) | (b1 >> 4u8));
    lemma_char_digit((b1 & 15u8) << 2u8);
    lemma_bits2(b0, b1);
}

proof fn lemma_group3(b0: u8, b1: u8, b2: u8)
    ensures
        ({
            let g = encode_group3(b0, b1, b2);
            decode_group(g[0], g[1], g[2], g[3]) == Ok::<Seq<u8>, Seq<char>>(seq![b0, b1, b2])
        }),
{
    lemma_digit_bounds(b0, b1, b2);
    lemma_char_digit(b0 >> 2u8);
    lemma_char_digit(((b0 & 3u8) << 4u8) | (b1 >> 4u8));
    lemma_char_digit(((b1 & 15u8) << 2u8) | (b2 >> 6u8));
    lemma_char_digit(b2 & 63u8);
    lemma_bits3(b0, b1, b2);
}

proof fn lemma_decode_encoded(b: Seq<u8>)
    ensures
        decode_groups(spec_base64_encode(b), 0) == Ok::<Seq<u8>, Seq<char>>(b),
        spec_base64_encode(b).len() % 4 == 0,
        b.len() > 0 ==> spec_base64_encode(b).len() > 0,
    decreases b.len(),
{
    let e = spec_base64_encode(b);
    if b.len() == 0 {
        assert(b =~= Seq::<u8>::empty());
    } else if b.len() == 1 {
        lemma_group1(b[0]);
        assert(e == encode_group1(b[0]));
        assert(decode_groups(e, 4) == Ok::<Seq<u8>, Seq<char>>(Seq::empty()));
        assert(seq![b[0]] + Seq::<u8>::empty() =~= b);
        assert(decode_groups(e, 0) == Ok::<Seq<u8>, Seq<char>>(seq![b[0]] + Seq::<u8>::empty()));
    } else if b.len() == 2 {
        lemma_group2(b[0], b[1]);
        assert(e == encode_group2(b[0], b[1]));
        assert(decode_groups(e, 4) == Ok::<Seq<u8>, Seq<char>>(Seq::empty()));
        assert(seq![b[0], b[1]] + Seq::<u8>::empty() =~= b);
        assert(decode_groups(e, 0) == Ok::<Seq<u8>, Seq<char>>(seq![b[0], b[1]] + Seq::<u8>::empty()));
    } else {
        let rest = b.subrange(3, b.len() as int);
        let g = encode_group3(b[0], b[1], b[2]);
        lemma_group3(b[0], b[1], b[2]);
        lemma_decode_encoded(rest);
        assert(e == g + spec_base64_encode(rest));
        assert(e[0] == g[0] && e[1] == g[1] && e[2] == g[2] && e[3] == g[3]);
        lemma_decode_groups_shift(e, 4);
        assert(e.subrange(4, e.len() as int) =~= spec_base64_encode(rest));
        assert(decode_groups(e, 4) == Ok::<Seq<u8>, Seq<char>>(rest));
        assert(seq![b[0], b[1], b[2]] + rest =~= b);
        assert(decode_groups(e, 0) == Ok::<Seq<u8>, Seq<char>>(seq![b[0], b[1], b[2]] + rest));
    }
}

/// Decoding undoes standard base64 encoding: the encoding of any bytes
/// decodes to those bytes.
pub proof fn lemma_base64_round_trip(b: Seq<u8>)
    ensures
        spec_base64_decode(spec_base64_encode(b)) == Ok::<Seq<u8>, Seq<char>>(b),
{
    lemma_decode_encoded(b);
}

proof fn lemma_decode_groups_length(s: Seq<u8>, i: int)
    requires
        0 <= i <= s.len(),
    ensures
        decode_groups(s, i) matches Ok(b) ==> b.len() <= 3 * ((s.len() - i) / 4),
    decreases s.len() - i,
{
    if i + 4 <= s.len() {
        lemma_decode_groups_length(s, i + 4);
        assert((s.len() - i - 4) / 4 == (s.len() - i) / 4 - 1);
    }
}

/// Every four characters of base64 decode to at most three bytes.
pub proof fn lemma_base64_decoded_length(s: Seq<u8>)
    ensures
        spec_base64_decode(s) matches Ok(b) ==> b.len() <= 3 * (s.len() / 4),
{
    lemma_decode_groups_length(s, 0);
}

fn base64_digit_exec(c: u8) -> (r: Option<u8>)
    ensures
        r == base64_digit(c),
{
    if 65 <= c && c <= 90 {
        Some(c - 65)
    } else if 97 <= c && c <= 122 {
        Some(c - 97 + 26)
    } else if 48 <= c && c <= 57 {
        Some(c - 48 + 52)
    } else if c == 43 {
        Some(62)
    } else if c == 47 {
        Some(63)
    } else {
        None
    }
}

pub fn base64_decode(value: &str) -> (r: Result<Vec<u8>, String>)
    ensures
        match spec_base64_decode(value.spec_bytes()) {
            Ok(b) => r matches Ok(v) && v@ == b,
            Err(e) => r matches Err(m) && m@ == e,
        },
{
    let bytes = value.as_bytes();
    let len = bytes.len();
    if len == 0 {
        return Ok(Vec::new());
    }
    if len % 4 != 0 {
        return Err(crate::text::owned("invalid base64 length"));
    }
    let mut out: Vec<u8> = Vec::new();
    let mut i: usize = 0;
    while i < len
        invariant
            bytes@ == value.spec_bytes(),
            len == bytes@.len(),
            len % 4 == 0,
            i % 4 == 0,
            i <= len,
            decode_groups(bytes@, 0) == match decode_groups(bytes@, i as int) {
                Ok(rest) => Ok(out@ + rest),
                Err(e) => Err::<Seq<u8>, Seq<char>>(e),
            },
        decreases len - i,
    {
        let c0 = bytes[i];
        let c1 = bytes[i + 1];
        let c2 = bytes[i + 2];
        let c3 = bytes[i + 3];
        let ghost g = decode_group(c0, c1, c2, c3);
        let d0 = base64_digit_exec(c0);
        let d1 = base64_digit_exec(c1);
        if d0.is_none() || d1.is_none() {
            return Err(crate::text::owned("invalid base64 character"));
        }
        let v0 = d0.unwrap() as u32;
        let v1 = d1.unwrap() as u32;
        let pad2 = c2 == 61;
        let pad3 = c3 == 61;
        let v2: u32 = if pad2 {
            0
        } else {
            match base64_digit_exec(c2) {
                Some(d) => d as u32,
                None => {
                    return Err(crate::text::owned("invalid base64 character"));
                },
            }
        };
        let v3: u32 = if pad3 {
            0
        } else {
            match base64_digit_exec(c3) {
                Some(d) => d as u32,
                None => {
                    return Err(crate::text::owned("invalid base64 character"));
                },
            }
        };
        if pad2 && !pad3 {
            return Err(crate::text::owned("invalid base64 padding"));
        }
        let n: u32 = (v0 << 18u32) | (v1 << 12u32) | (v2 << 6u32) | v3;
        let ghost before = out@;
        out.push(((n >> 16u32) & 0xffu32) as u8);
        if !pad2 {
            out.push(((n >> 8u32) & 0xffu32) as u8);
        }
        if !pad3 {
            out.push((n & 0xffu32) as u8);
        }
        proof {
            let gb = g->Ok_0;
            assert(out@ =~= before + gb);
            match decode_groups(bytes@, i + 4) {
                Ok(rest) => {
                    assert(before + (gb + rest) =~= out@ + rest);
                },
                Err(e) => {},
            }
        }
        i = i + 4;
    }
    assert(out@ + Seq::<u8>::empty() =~= out@);
    Ok(out)
}

/// Where one output stream of a task is stored.
#[derive(Debug)]
pub struct TaskLog {
    pub artifact_id: String,
    pub path: String,
}

impl TaskLog {
    /// A log with a fresh artifact id, stored under the workspace's blob directory.
    pub fn new(workspace_root: &str) -> (r: TaskLog)
        ensures
            spec_is_lower_hex_64(encode_utf8(r.artifact_id@)),
            r.path@ == spec_normalize_rel_path(
                workspace_root@,
                join_path(spec_artifacts_blobs_dir(workspace_root@), r.artifact_id@),
            ),
            r.path@ == blob_rel_path(r.artifact_id@),
    {
        let artifact_id = new_artifact_id();
        let dir = artifacts_blobs_dir(workspace_root);
        let full = join_path_exec(dir.as_str(), artifact_id.as_str());
        let path = normalize_rel_path(workspace_root, full.as_str());
        proof {
            assert forall|i: int| 0 <= i < artifact_id@.len() implies artifact_id@[i] != '\\' by {
                assert(is_lower_hex_char(artifact_id@[i]));
            }
            assert(is_lower_hex_char(artifact_id@[0]));
            lemma_blob_path_is_relative(workspace_root@, artifact_id@);
        }
        TaskLog { artifact_id, path }
    }

    /// `{"id": .., "path": ..}`.
    pub fn as_ref_json(&self) -> (r: Json)
        ensures
            r@ == JsonView::Object(
                seq![
                    ("id"@, JsonView::Str(self.artifact_id@)),
                    ("path"@, JsonView::Str(self.path@)),
                ],
            ),
    {
        let mut o = ObjectBuilder::new();
        o.insert("id", Json::string(self.artifact_id.as_str()));
        o.insert("path", Json::string(self.path.as_str()));
        assert(o.spec_members() =~= seq![
            ("id"@, JsonView::Str(self.artifact_id@)),
            ("path"@, JsonView::Str(self.path@)),
        ]);
        o.build()
    }
}

/// `{"id": .., "path": ..}` for a log.
pub open spec fn log_ref_view(l: TaskLog) -> JsonView {
    JsonView::Object(seq![("id"@, JsonView::Str(l.artifact_id@)), ("path"@, JsonView::Str(l.path@))])
}

/// The member naming a log under `key`, when there is the log.
pub open spec fn ref_member(key: Seq<char>, log: Option<TaskLog>) -> Seq<(Seq<char>, JsonView)> {
    match log {
        Some(l) => seq![(key, log_ref_view(l))],
        None => Seq::empty(),
    }
}

/// The members of a task's log references: `stdout`, `stderr`, `pty`, for
/// those it has.
pub open spec fn log_refs_members(logs: TaskLogs) -> Seq<(Seq<char>, JsonView)> {
    ref_member("stdout"@, logs.stdout) + ref_member("stderr"@, logs.stderr) + ref_member("pty"@, logs.pty)
}

/// The logs of one task: stdout and stderr for piped tasks, one combined log
/// for pseudo-terminal tasks.
#[derive(Debug)]
pub struct TaskLogs {
    pub stdout: Option<TaskLog>,
    pub stderr: Option<TaskLog>,
    pub pty: Option<TaskLog>,
}

impl TaskLogs {
    pub fn new(workspace_root: &str, mode: ToolTaskExecutionMode) -> (r: TaskLogs)
        ensures
            mode == ToolTaskExecutionMode::Pipes ==> r.stdout is Some && r.stderr is Some && r.pty is None,
            mode == ToolTaskExecutionMode::Pty ==> r.stdout is None && r.stderr is None && r.pty is Some,
            r.stdout matches Some(l) ==> l.path@ == blob_rel_path(l.artifact_id@) && spec_is_lower_hex_64(
                encode_utf8(l.artifact_id@),
            ),
            r.stderr matches Some(l) ==> l.path@ == blob_rel_path(l.artifact_id@) && spec_is_lower_hex_64(
                encode_utf8(l.artifact_id@),
            ),
            r.pty matches Some(l) ==> l.path@ == blob_rel_path(l.artifact_id@) && spec_is_lower_hex_64(
                encode_utf8(l.artifact_id@),
            ),
    {
        match mode {
            ToolTaskExecutionMode::Pipes => TaskLogs {
                stdout: Some(TaskLog::new(workspace_root)),
                stderr: Some(TaskLog::new(workspace_root)),
                pty: None,
            },
            ToolTaskExecutionMode::Pty => TaskLogs {
                stdout: None,
                stderr: None,
                pty: Some(TaskLog::new(workspace_root)),
            },
        }
    }

    /// The log that holds an output stream, when the task has one.
    pub fn log_for_output(&self, stream: TaskOutputStream) -> (r: Option<&TaskLog>)
        ensures
            ({
                let l = match stream {
                    TaskOutputStream::Stdout => self.stdout,
                    TaskOutputStream::Stderr => self.stderr,
                    TaskOutputStream::Pty => self.pty,
                };
                match r {
                    Some(x) => l == Some(*x),
                    None => l is None,
                }
            }),
    {
        match stream {
            TaskOutputStream::Stdout => self.stdout.as_ref(),
            TaskOutputStream::Stderr => self.stderr.as_ref(),
            TaskOutputStream::Pty => self.pty.as_ref(),
        }
    }

    /// References to the task's logs, keyed `stdout`, `stderr` and `pty` for
    /// those it has.
    pub fn refs_json(&self) -> (r: Json)
        ensures
            r@ == JsonView::Object(log_refs_members(*self)),
            crate::json::json_get(r@, "stdout"@) is Some <==> self.stdout is Some,
            crate::json::json_get(r@, "stderr"@) is Some <==> self.stderr is Some,
            crate::json::json_get(r@, "pty"@) is Some <==> self.pty is Some,
    {
        proof {
            reveal_strlit("stdout");
            reveal_strlit("stderr");
            reveal_strlit("pty");
        }
        let mut o = ObjectBuilder::new();
        let ghost s1: Seq<(Seq<char>, JsonView)> = Seq::empty();
        let ghost s2: Seq<(Seq<char>, JsonView)> = Seq::empty();
        let ghost s3: Seq<(Seq<char>, JsonView)> = Seq::empty();
        if let Some(log) = &self.stdout {
            let j = log.as_ref_json();
            proof {
                s1 = seq![("stdout"@, j@)];
            }
            o.insert("stdout", j);
        }
        assert(o.spec_members() =~= s1);
        if let Some(log) = &self.stderr {
            let j = log.as_ref_json();
            proof {
                s2 = seq![("stderr"@, j@)];
            }
            o.insert("stderr", j);
        }
        assert(o.spec_members() =~= s1 + s2);
        if let Some(log) = &self.pty {
            let j = log.as_ref_json();
            proof {
                s3 = seq![("pty"@, j@)];
            }
            o.insert("pty", j);
        }
        assert(o.spec_members() =~= s1 + s2 + s3);
        assert(s1 =~= ref_member("stdout"@, self.stdout));
        assert(s2 =~= ref_member("stderr"@, self.stderr));
        assert(s3 =~= ref_member("pty"@, self.pty));
        proof {
            let keys = seq!["stdout"@, "stderr"@, "pty"@];
            assert forall|k: Seq<char>| #[trigger] keys.contains(k) implies {
                &&& crate::json::member_value(s1 + s2 + s3, k) == match crate::json::member_value(s1, k) {
                    Some(v) => Some(v),
                    None => match crate::json::member_value(s2, k) {
                        Some(v) => Some(v),
                        None => crate::json::member_value(s3, k),
                    },
                }
            } by {
                crate::json::lemma_member_value_append(s1 + s2, s3, k);
                crate::json::lemma_member_value_append(s1, s2, k);
            }
            if self.stdout is Some {
                crate::json::lemma_member_value_single(s1, "stdout"@);
                crate::json::lemma_member_value_single(s1, "stderr"@);
                crate::json::lemma_member_value_single(s1, "pty"@);
            }
            if self.stderr is Some {
                crate::json::lemma_member_value_single(s2, "stdout"@);
                crate::json::lemma_member_value_single(s2, "stderr"@);
                crate::json::lemma_member_value_single(s2, "pty"@);
            }
            assert("stdout"@[0] != "pty"@[0]);
            assert("stdout"@[3] != "stderr"@[3]);
            assert("stderr"@[0] != "pty"@[0]);
            if self.pty is Some {
                crate::json::lemma_member_value_single(s3, "stdout"@);
                crate::json::lemma_member_value_single(s3, "stderr"@);
                crate::json::lemma_member_value_single(s3, "pty"@);
            }
            assert(keys.contains("stdout"@));
            assert(keys.contains("stderr"@));
            assert(keys.contains("pty"@));
        }
        o.build()
    }
}

/// The byte accounting of a log being written.
pub ghost struct WriterState {
    pub max_bytes: u64,
    pub bytes_total: u64,
    pub bytes_stored: u64,
    pub truncated: bool,
}

/// How many bytes of a chunk are stored: as many as fit under the limit.
pub open spec fn take_for(w: WriterState, chunk_len: usize) -> usize {
    let remaining: u64 = if w.bytes_stored <= w.max_bytes {
        (w.max_bytes - w.bytes_stored) as u64
    } else {
        0
    };
    let r = remaining as usize;
    if r < chunk_len {
        r
    } else {
        chunk_len
    }
}

pub open spec fn sat_add(a: u64, b: u64) -> u64 {
    if a + b > u64::MAX {
        u64::MAX
    } else {
        (a + b) as u64
    }
}

/// The accounting after one chunk has been appended and its stored part written.
pub open spec fn after_append(w: WriterState, chunk_len: usize) -> WriterState {
    let take = take_for(w, chunk_len);
    WriterState {
        max_bytes: w.max_bytes,
        bytes_total: sat_add(w.bytes_total, chunk_len as u64),
        bytes_stored: sat_add(w.bytes_stored, take as u64),
        truncated: w.truncated || take < chunk_len,
    }
}

/// The accounting after a sequence of chunks, from a fresh log.
pub open spec fn after_appends(max_bytes: u64, lens: Seq<usize>) -> WriterState
    decreases lens.len(),
{
    if lens.len() == 0 {
        WriterState { max_bytes, bytes_total: 0, bytes_stored: 0, truncated: false }
    } else {
        after_append(after_appends(max_bytes, lens.drop_last()), lens.last())
    }
}

/// The sum of chunk lengths.
pub open spec fn total_len(lens: Seq<usize>) -> int
    decreases lens.len(),
{
    if lens.len() == 0 {
        0
    } else {
        total_len(lens.drop_last()) + lens.last()
    }
}

/// A log keeps the first `max_bytes` bytes of its output and counts the rest:
/// after any chunks, the stored count is the smaller of the limit and the
/// total, the total saturates at `u64::MAX`, and the log is marked truncated
/// exactly when the output exceeded the limit.
pub proof fn lemma_log_accounting(max_bytes: u64, lens: Seq<usize>)
    requires
        max_bytes <= usize::MAX,
    ensures
        ({
            let w = after_appends(max_bytes, lens);
            let t = total_len(lens);
            &&& w.max_bytes == max_bytes
            &&& w.bytes_stored == (if t < max_bytes { t } else { max_bytes as int })
            &&& w.bytes_total == (if t < u64::MAX { t } else { u64::MAX as int })
            &&& w.truncated == (t > max_bytes)
        }),
    decreases lens.len(),
{
    if lens.len() > 0 {
        lemma_log_accounting(max_bytes, lens.drop_last());
        assert(total_len(lens) == total_len(lens.drop_last()) + lens.last());
    }
}

/// The accounting side of a task log writer; the bytes themselves are written
/// by the caller.
#[derive(Debug)]
pub struct TaskLogWriter {
    pub artifact_id: String,
    pub rel_path: String,
    pub max_bytes: u64,
    pub bytes_total: u64,
    pub bytes_stored: u64,
    pub truncated: bool,
}

impl View for TaskLogWriter {
    type V = WriterState;

    open spec fn view(&self) -> WriterState {
        WriterState {
            max_bytes: self.max_bytes,
            bytes_total: self.bytes_total,
            bytes_stored: self.bytes_stored,
            truncated: self.truncated,
        }
    }
}

impl TaskLogWriter {
    pub fn new(artifact_id: &str, rel_path: &str, max_bytes: usize) -> (r: TaskLogWriter)
        ensures
            r@ == after_appends(max_bytes as u64, Seq::empty()),
            r.artifact_id@ == artifact_id@,
            r.rel_path@ == rel_path@,
    {
        TaskLogWriter {
            artifact_id: owned(artifact_id),
            rel_path: owned(rel_path),
            max_bytes: max_bytes as u64,
            bytes_total: 0,
            bytes_stored: 0,
            truncated: false,
        }
    }

    /// Counts a chunk and says how many of its bytes to store, and at which offset.
    pub fn begin_append(&mut self, chunk_len: usize) -> (r: (usize, u64))
        ensures
            r.0 == take_for(old(self)@, chunk_len),
            r.0 <= chunk_len,
            old(self).bytes_stored <= old(self).max_bytes ==> old(self).bytes_stored + r.0 <= old(self).max_bytes,
            r.1 == old(self).bytes_stored,
            final(self)@ == (WriterState { bytes_total: sat_add(old(self).bytes_total, chunk_len as u64), ..old(self)@ }),
            final(self).artifact_id == old(self).artifact_id,
            final(self).rel_path == old(self).rel_path,
    {
        let offset = self.bytes_stored;
        self.bytes_total = self.bytes_total.saturating_add(chunk_len as u64);
        let remaining = self.max_bytes.saturating_sub(self.bytes_stored) as usize;
        let take = if remaining < chunk_len {
            remaining
        } else {
            chunk_len
        };
        (take, offset)
    }

    /// Records that the stored part of a chunk was written, and describes the
    /// append: `{"id", "path", "offset_bytes", "bytes", "bytes_total",
    /// "bytes_stored", "truncated"}`.
    pub fn finish_append(&mut self, chunk_len: usize, take: usize, offset: u64) -> (r: Json)
        requires
            take <= chunk_len,
            old(self).bytes_stored + take <= old(self).max_bytes,
        ensures
            final(self).bytes_stored == old(self).bytes_stored + take,
            final(self)@ == (WriterState {
                bytes_stored: sat_add(old(self).bytes_stored, take as u64),
                truncated: old(self).truncated || take < chunk_len,
                ..old(self)@
            }),
            final(self).artifact_id == old(self).artifact_id,
            final(self).rel_path == old(self).rel_path,
            r@ == JsonView::Object(
                seq![
                    ("id"@, JsonView::Str(old(self).artifact_id@)),
                    ("path"@, JsonView::Str(old(self).rel_path@)),
                    ("offset_bytes"@, JsonView::Number(NumberView::PosInt(offset))),
                    ("bytes"@, JsonView::Number(NumberView::PosInt(take as u64))),
                    ("bytes_total"@, JsonView::Number(NumberView::PosInt(final(self).bytes_total))),
                    ("bytes_stored"@, JsonView::Number(NumberView::PosInt(final(self).bytes_stored))),
                    ("truncated"@, JsonView::Bool(final(self).truncated)),
                ],
            ),
    {
        if take > 0 {
            self.bytes_stored = self.bytes_stored.saturating_add(take as u64);
        }
        if (take as u64) < (chunk_len as u64) {
            self.truncated = true;
        }
        let mut o = ObjectBuilder::new();
        o.insert("id", Json::string(self.artifact_id.as_str()));
        o.insert("path", Json::string(self.rel_path.as_str()));
        o.insert("offset_bytes", Json::Number(JsonNumber::PosInt(offset)));
        o.insert("bytes", Json::Number(JsonNumber::PosInt(take as u64)));
        o.insert("bytes_total", Json::Number(JsonNumber::PosInt(self.bytes_total)));
        o.insert("bytes_stored", Json::Number(JsonNumber::PosInt(self.bytes_stored)));
        o.insert("truncated", Json::Bool(self.truncated));
        assert(o.spec_members() =~= seq![
                ("id"@, JsonView::Str(self.artifact_id@)),
                ("path"@, JsonView::Str(self.rel_path@)),
                ("offset_bytes"@, JsonView::Number(NumberView::PosInt(offset))),
                ("bytes"@, JsonView::Number(NumberView::PosInt(take as u64))),
                ("bytes_total"@, JsonView::Number(NumberView::PosInt(self.bytes_total))),
                ("bytes_stored"@, JsonView::Number(NumberView::PosInt(self.bytes_stored))),
                ("truncated"@, JsonView::Bool(self.truncated)),
            ]);
        o.build()
    }

    pub fn finish(self) -> (r: TaskLogSummary)
        ensures
            r.artifact_id == self.artifact_id,
            r.path == self.rel_path,
            r.bytes_total == self.bytes_total,
            r.bytes_stored == self.bytes_stored,
            r.truncated == self.truncated,
            r.error is None,
    {
        TaskLogSummary {
            artifact_id: self.artifact_id,
            path: self.rel_path,
            bytes_total: self.bytes_total,
            bytes_stored: self.bytes_stored,
            truncated: self.truncated,
            error: None,
        }
    }
}

/// Two-phase appends with every stored part written move the accounting by `after_append`.
pub proof fn lemma_two_phase_append(w: WriterState, chunk_len: usize)
    ensures
        ({
            let take = take_for(w, chunk_len);
            let mid = WriterState { bytes_total: sat_add(w.bytes_total, chunk_len as u64), ..w };
            WriterState {
                bytes_stored: sat_add(mid.bytes_stored, take as u64),
                truncated: mid.truncated || take < chunk_len,
                ..mid
            } == after_append(w, chunk_len)
        }),
{
}

/// The final account of one log.
#[derive(Debug)]
pub struct TaskLogSummary {
    pub artifact_id: String,
    pub path: String,
    pub bytes_total: u64,
    pub bytes_stored: u64,
    pub truncated: bool,
    pub error: Option<String>,
}

impl TaskLogSummary {
    /// The account of a log whose writer could not report.
    pub fn failed(artifact_id: String, path: String, error: String) -> (r: TaskLogSummary)
        ensures
            r.artifact_id == artifact_id,
            r.path == path,
            r.bytes_total == 0,
            r.bytes_stored == 0,
            !r.truncated,
            r.error == Some(error),
    {
        TaskLogSummary { artifact_id, path, bytes_total: 0, bytes_stored: 0, truncated: false, error: Some(error) }
    }

    /// `{"id", "path", "bytes_total", "bytes_stored", "truncated", "error"}`.
    pub open spec fn as_json_view(&self) -> JsonView {
        JsonView::Object(
            seq![
                ("id"@, JsonView::Str(self.artifact_id@)),
                ("path"@, JsonView::Str(self.path@)),
                ("bytes_total"@, JsonView::Number(NumberView::PosInt(self.bytes_total))),
                ("bytes_stored"@, JsonView::Number(NumberView::PosInt(self.bytes_stored))),
                ("truncated"@, JsonView::Bool(self.truncated)),
                ("error"@, match self.error {
                    Some(e) => JsonView::Str(e@),
                    None => JsonView::Null,
                }),
            ],
        )
    }

    pub fn as_json(&self) -> (r: Json)
        ensures
            r@ == self.as_json_view(),
    {
        let mut o = ObjectBuilder::new();
        o.insert("id", Json::string(self.artifact_id.as_str()));
        o.insert("path", Json::string(self.path.as_str()));
        o.insert("bytes_total", Json::Number(JsonNumber::PosInt(self.bytes_total)));
        o.insert("bytes_stored", Json::Number(JsonNumber::PosInt(self.bytes_stored)));
        o.insert("truncated", Json::Bool(self.truncated));
        let e = match &self.error {
            Some(e) => Json::string(e.as_str()),
            None => Json::Null,
        };
        o.insert("error", e);
        assert(o.spec_members() =~= seq![
                ("id"@, JsonView::Str(self.artifact_id@)),
                ("path"@, JsonView::Str(self.path@)),
                ("bytes_total"@, JsonView::Number(NumberView::PosInt(self.bytes_total))),
                ("bytes_stored"@, JsonView::Number(NumberView::PosInt(self.bytes_stored))),
                ("truncated"@, JsonView::Bool(self.truncated)),
                ("error"@, match self.error {
                    Some(e) => JsonView::Str(e@),
                    None => JsonView::Null,
                }),
            ]);
        o.build()
    }
}

/// The id check that comes before any artifact is read.
pub fn check_artifact_id(id: &str) -> (r: Result<(), String>)
    ensures
        r is Ok <==> spec_is_lower_hex_64(id.spec_bytes()),
        r matches Err(m) ==> m@ == "invalid artifact id"@,
{
    if !is_lower_hex_64(id) {
        return Err(owned("invalid artifact id"));
    }
    Ok(())
}

/// The answer to a range read of an artifact, from the bytes read (at most
/// `max_bytes`, starting at `offset_bytes`) and the artifact's size: the text,
/// how many bytes it covers, the size, and whether anything was left out.
pub fn artifact_range_from_read(buf: &Vec<u8>, max_bytes: usize, offset_bytes: u64, total_bytes: u64) -> (r: (
    String,
    usize,
    u64,
    bool,
))
    requires
        buf@.len() <= max_bytes,
        offset_bytes + buf@.len() <= u64::MAX,
    ensures
        r.0@ == utf8_lossy(buf@),
        r.1 == buf@.len(),
        r.2 == total_bytes,
        r.3 == (offset_bytes + buf@.len() < total_bytes),
{
    let (content, utf8_truncated, used_bytes) = truncate_utf8(buf.as_slice(), max_bytes);
    let truncated = utf8_truncated || (offset_bytes + buf.len() as u64) < total_bytes;
    (content, used_bytes, total_bytes, truncated)
}

} // verus!
