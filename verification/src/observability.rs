//! Dumping provider requests for inspection: whether to, how much of each
//! request body to keep, and what the dump records.

use vstd::prelude::*;

use crate::json::{get_str, json_to_string, serde_json_to_string, Json};
use crate::provider::opt_chars;
use crate::text::{chars_of, concat2, flag_enabled, owned, spec_flag_enabled, spec_trim};

verus! {

/// How much of a request body a dump keeps when nothing else is set.
pub const DEFAULT_MAX_BYTES: usize = 1_000_000;

/// Whether requests are dumped, and the most bytes of each body kept.
#[derive(Clone, Copy, Debug, PartialEq, Eq, Structural)]
pub struct OpenResponsesRequestDumpConfig {
    pub enabled: bool,
    pub max_bytes: usize,
}

/// An ASCII decimal digit.
pub open spec fn is_digit(c: char) -> bool {
    '0' <= c && c <= '9'
}

/// The number a run of decimal digits writes.
pub open spec fn digits_value(s: Seq<char>) -> int
    decreases s.len(),
{
    if s.len() == 0 {
        0
    } else {
        digits_value(s.drop_last()) * 10 + (s.last() as int - '0' as int)
    }
}

/// `text.parse::<usize>()`: an optional `+`, then one or more decimal
/// digits, of a value that fits.
pub open spec fn spec_parse_usize(text: Seq<char>) -> Option<usize> {
    let d = unsigned_digits(text);
    if d.len() > 0 && all_digits(d) && digits_value(d) <= usize::MAX {
        Some(digits_value(d) as usize)
    } else {
        None
    }
}

/// The text after an optional leading `+`.
pub open spec fn unsigned_digits(text: Seq<char>) -> Seq<char> {
    if text.len() > 0 && text[0] == '+' {
        text.drop_first()
    } else {
        text
    }
}

pub open spec fn all_digits(s: Seq<char>) -> bool {
    forall|i: int| 0 <= i < s.len() ==> is_digit(#[trigger] s[i])
}

proof fn lemma_digits_value_grows(s: Seq<char>, j: int)
    requires
        0 <= j <= s.len(),
        forall|i: int| 0 <= i < s.len() ==> is_digit(#[trigger] s[i]),
    ensures
        0 <= digits_value(s.subrange(0, j)) <= digits_value(s),
    decreases s.len() - j,
{
    if j == s.len() {
        assert(s.subrange(0, j) =~= s);
        lemma_digits_value_nonneg(s);
    } else {
        lemma_digits_value_grows(s, j + 1);
        let t = s.subrange(0, j + 1);
        assert(t.drop_last() =~= s.subrange(0, j));
        lemma_digits_value_nonneg(s.subrange(0, j));
    }
}

proof fn lemma_digits_value_nonneg(s: Seq<char>)
    requires
        forall|i: int| 0 <= i < s.len() ==> is_digit(#[trigger] s[i]),
    ensures
        digits_value(s) >= 0,
    decreases s.len(),
{
    if s.len() > 0 {
        lemma_digits_value_nonneg(s.drop_last());
    }
}

/// Parses a decimal `usize` the way `str::parse` does.
pub fn parse_usize(text: &str) -> (r: Option<usize>)
    ensures
        r == spec_parse_usize(text@),
{
    let chars = chars_of(text);
    let start: usize = if chars.len() > 0 && chars[0] == '+' {
        1
    } else {
        0
    };
    let ghost d = if chars@.len() > 0 && chars@[0] == '+' {
        text@.drop_first()
    } else {
        text@
    };
    assert(d =~= chars@.subrange(start as int, chars@.len() as int));
    if start >= chars.len() {
        return None;
    }
    let mut value: usize = 0;
    let mut i: usize = start;
    assert(d.subrange(0, 0) =~= Seq::<char>::empty());
    while i < chars.len()
        invariant
            chars@ == text@,
            start <= i <= chars@.len(),
            d == chars@.subrange(start as int, chars@.len() as int),
            d == unsigned_digits(text@),
            d.len() > 0,
            forall|k: int| 0 <= k < i - start ==> is_digit(#[trigger] d[k]),
            value == digits_value(d.subrange(0, i - start)),
        decreases chars@.len() - i,
    {
        let c = chars[i];
        if !('0' <= c && c <= '9') {
            assert(d[i - start] == c);
            assert(!is_digit(d[i - start]));
            assert(!all_digits(d));
            return None;
        }
        let digit: usize = (c as u32 - '0' as u32) as usize;
        let ghost next = d.subrange(0, i - start + 1);
        assert(next.drop_last() =~= d.subrange(0, i - start));
        assert(next.last() == c);
        assert(digits_value(next) == value * 10 + digit);
        if value > (usize::MAX - digit) / 10 {
            proof {
                assert(value * 10 + digit > usize::MAX) by (nonlinear_arith)
                    requires
                        value > (usize::MAX - digit) / 10,
                        digit <= 9,
                ;
                if all_digits(d) {
                    lemma_digits_value_grows(d, i - start + 1);
                }
            }
            return None;
        }
        value = value * 10 + digit;
        i = i + 1;
    }
    assert(d.subrange(0, d.len() as int) =~= d);
    Some(value)
}

/// The dump settings from the two environment values: dumping is on when
/// the first is a true flag; the limit is the second when it is a positive
/// number once trimmed, and one million bytes otherwise.
pub open spec fn spec_request_dump_config(dump_request: Option<Seq<char>>, max_bytes: Option<Seq<char>>) -> OpenResponsesRequestDumpConfig {
    OpenResponsesRequestDumpConfig {
        enabled: match dump_request {
            Some(v) => spec_flag_enabled(v),
            None => false,
        },
        max_bytes: match max_bytes {
            Some(v) => match spec_parse_usize(spec_trim(v)) {
                Some(n) => if n > 0 {
                    n
                } else {
                    DEFAULT_MAX_BYTES
                },
                None => DEFAULT_MAX_BYTES,
            },
            None => DEFAULT_MAX_BYTES,
        },
    }
}

pub fn request_dump_config(dump_request: Option<&str>, max_bytes: Option<&str>) -> (r: OpenResponsesRequestDumpConfig)
    ensures
        r == spec_request_dump_config(
            match dump_request {
                Some(v) => Some(v@),
                None => None,
            },
            match max_bytes {
                Some(v) => Some(v@),
                None => None,
            },
        ),
{
    let enabled = match dump_request {
        Some(v) => flag_enabled(v),
        None => false,
    };
    let limit = match max_bytes {
        Some(v) => {
            let trimmed = crate::text::trim_to_string(v);
            match parse_usize(trimmed.as_str()) {
                Some(n) => if n > 0 {
                    n
                } else {
                    DEFAULT_MAX_BYTES
                },
                None => DEFAULT_MAX_BYTES,
            }
        },
        None => DEFAULT_MAX_BYTES,
    };
    OpenResponsesRequestDumpConfig { enabled, max_bytes: limit }
}

/// The part of a serialized request body a dump keeps, whether it was cut,
/// and the full and kept sizes.
pub fn dump_body(bytes: Vec<u8>, max_bytes: usize) -> (r: (Vec<u8>, bool, u64, u64))
    ensures
        r.2 == bytes@.len(),
        r.1 == (bytes@.len() > max_bytes),
        r.0@ == (if bytes@.len() > max_bytes {
            bytes@.subrange(0, max_bytes as int)
        } else {
            bytes@
        }),
        r.3 == r.0@.len(),
{
    let total = bytes.len() as u64;
    let mut stored = bytes;
    let mut truncated = false;
    if stored.len() > max_bytes {
        stored.truncate(max_bytes);
        truncated = true;
    }
    let kept = stored.len() as u64;
    (stored, truncated, total, kept)
}

/// The model a request body names, when it names one.
pub fn request_model(body: &Json) -> (r: Option<String>)
    ensures
        opt_chars(r) == get_str(body@, "model"@),
{
    match body.get_str("model") {
        Some(m) => Some(owned(m)),
        None => None,
    }
}

/// The text of a request body to dump, or `request serialize failed: ` and
/// the error.
pub fn request_body_text(body: &Json) -> (r: Result<String, String>)
    ensures
        match serde_json_to_string(body@) {
            Ok(t) => r matches Ok(x) && x@ == t,
            Err(e) => r matches Err(m) && m@ == "request serialize failed: "@ + e,
        },
{
    match json_to_string(body) {
        Ok(t) => Ok(t),
        Err(e) => Err(concat2("request serialize failed: ", e.as_str())),
    }
}

/// What a request dump is about: the session, when and where in the run it
/// was made, the endpoint and the kind of request.
#[derive(Debug)]
pub struct RequestDumpInput {
    pub session_id: String,
    pub timestamp_ms: u64,
    pub seq: u64,
    pub endpoint: String,
    pub request_index: u64,
    pub kind: String,
}

/// The part of a serialized request body that a dump stores, whether it was
/// cut, and the full and stored sizes.
#[derive(Debug)]
pub struct DumpBody {
    pub stored: Vec<u8>,
    pub truncated: bool,
    pub total_bytes: u64,
    pub body_bytes: u64,
}

/// The bytes a dump keeps of a serialized body: all of them, or the first
/// `max_bytes`.
pub open spec fn spec_dump_cut(bytes: Seq<u8>, max_bytes: usize) -> Seq<u8> {
    if bytes.len() > max_bytes {
        bytes.subrange(0, max_bytes as int)
    } else {
        bytes
    }
}

/// Whether a dump of a body serialized to `text` stores exactly what the
/// limit lets through.
pub open spec fn dump_body_matches(d: DumpBody, text: Seq<char>, max_bytes: usize) -> bool {
    let bytes = vstd::utf8::encode_utf8(text);
    &&& d.stored@ == spec_dump_cut(bytes, max_bytes)
    &&& d.truncated == (bytes.len() > max_bytes)
    &&& d.total_bytes == bytes.len()
    &&& d.body_bytes == d.stored@.len()
}

/// What a request dump stores: nothing at all when dumps are off; otherwise
/// the body's JSON text cut to the limit, or the error its serialization
/// gave.
pub fn request_dump_body(config: OpenResponsesRequestDumpConfig, body: &Json) -> (r: Option<Result<DumpBody, String>>)
    ensures
        !config.enabled ==> r is None,
        config.enabled ==> match serde_json_to_string(body@) {
            Ok(t) => r matches Some(Ok(d)) && dump_body_matches(d, t, config.max_bytes),
            Err(e) => r matches Some(Err(m)) && m@ == "request serialize failed: "@ + e,
        },
{
    if !config.enabled {
        return None;
    }
    match request_body_text(body) {
        Ok(text) => {
            let bytes = vstd::slice::slice_to_vec(text.as_str().as_bytes());
            let (stored, truncated, total_bytes, body_bytes) = dump_body(bytes, config.max_bytes);
            Some(Ok(DumpBody { stored, truncated, total_bytes, body_bytes }))
        },
        Err(e) => Some(Err(e)),
    }
}

/// The event that records a dumped request.
#[derive(Debug)]
pub struct RequestDumpRecord {
    pub session_id: String,
    pub timestamp_ms: u64,
    pub seq: u64,
    pub endpoint: String,
    pub model: Option<String>,
    pub request_index: u64,
    pub kind: String,
    pub body_artifact_id: String,
    pub body_bytes: u64,
    pub total_bytes: u64,
    pub truncated: bool,
}

/// The record of a request whose body was stored under `body_artifact_id`:
/// where it was made, the model the body names, and the dump's sizes.
pub fn request_dump_record(input: RequestDumpInput, body: &Json, dump: &DumpBody, body_artifact_id: String) -> (r:
    RequestDumpRecord)
    ensures
        r.session_id == input.session_id,
        r.timestamp_ms == input.timestamp_ms,
        r.seq == input.seq,
        r.endpoint == input.endpoint,
        r.request_index == input.request_index,
        r.kind == input.kind,
        opt_chars(r.model) == get_str(body@, "model"@),
        r.body_artifact_id == body_artifact_id,
        r.body_bytes == dump.body_bytes,
        r.total_bytes == dump.total_bytes,
        r.truncated == dump.truncated,
{
    RequestDumpRecord {
        session_id: input.session_id,
        timestamp_ms: input.timestamp_ms,
        seq: input.seq,
        endpoint: input.endpoint,
        model: request_model(body),
        request_index: input.request_index,
        kind: input.kind,
        body_artifact_id,
        body_bytes: dump.body_bytes,
        total_bytes: dump.total_bytes,
        truncated: dump.truncated,
    }
}

} // verus!
