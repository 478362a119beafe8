//! How the thread routes answer a failure of the continuity store: the
//! store's error text, lower-cased, decides between a bad request, a
//! missing thread and an internal error. Also the defaults for who made a
//! request and where it came from.

use vstd::prelude::*;

use crate::text::{ascii_lower_seq, chars_of, is_blank, is_blank_str, owned, slice_eq_str_ignore_ascii_case};

verus! {

/// The answer to a failed store call.
#[derive(Clone, Copy, Debug, PartialEq, Eq, Structural)]
pub enum ErrorStatus {
    BadRequest,
    NotFound,
    Internal,
}

/// `needle` occurs in `hay`.
pub open spec fn has_text(hay: Seq<char>, needle: Seq<char>) -> bool {
    exists|i: int| 0 <= i && i + needle.len() <= hay.len() && #[trigger] hay.subrange(i, i + needle.len()) == needle
}

/// Some needle of the list occurs in `hay`.
pub open spec fn has_any(hay: Seq<char>, needles: Seq<&str>) -> bool {
    exists|k: int| 0 <= k < needles.len() && has_text(hay, #[trigger] needles[k]@)
}

/// The answer for an error text: a bad request when its lower-cased text
/// holds one of `bad_request`, else a missing thread when it holds one of
/// `not_found`, else an internal error.
pub open spec fn spec_error_status(err: Seq<char>, bad_request: Seq<&str>, not_found: Seq<&str>) -> ErrorStatus {
    let lower = ascii_lower_seq(err);
    if has_any(lower, bad_request) {
        ErrorStatus::BadRequest
    } else if has_any(lower, not_found) {
        ErrorStatus::NotFound
    } else {
        ErrorStatus::Internal
    }
}

/// Whether the lower-cased text holds `needle` (itself lower case).
fn holds_lowered(chars: &Vec<char>, needle: &str) -> (r: bool)
    ensures
        r == has_text(ascii_lower_seq(chars@), needle@),
{
    let n = chars_of(needle).len();
    let ghost lower = ascii_lower_seq(chars@);
    if n > chars.len() {
        proof {
            if has_text(lower, needle@) {
                let i = choose|i: int|
                    0 <= i && i + needle@.len() <= lower.len() && #[trigger] lower.subrange(i, i + needle@.len()) == needle@;
            }
        }
        return false;
    }
    let limit = chars.len() - n;
    let mut i: usize = 0;
    loop
        invariant
            n == needle@.len(),
            n <= chars@.len(),
            limit == chars@.len() - n,
            lower == ascii_lower_seq(chars@),
            i <= limit,
            i + n <= chars@.len(),
            chars@.len() <= usize::MAX,
            forall|j: int| 0 <= j < i ==> #[trigger] lower.subrange(j, j + n) != needle@,
        decreases limit - i,
    {
        let ghost piece = chars@.subrange(i as int, (i + n) as int);
        assert(ascii_lower_seq(piece) =~= lower.subrange(i as int, (i + n) as int));
        if slice_eq_str_ignore_ascii_case(chars, i, i + n, needle) {
            assert(lower.subrange(i as int, i + n) == needle@);
            return true;
        }
        if i == limit {
            proof {
                if has_text(lower, needle@) {
                    let j = choose|j: int|
                        0 <= j && j + needle@.len() <= lower.len() && #[trigger] lower.subrange(j, j + needle@.len())
                            == needle@;
                    assert(j <= i);
                }
            }
            return false;
        }
        i = i + 1;
    }
}

fn holds_any(chars: &Vec<char>, needles: &[&str]) -> (r: bool)
    ensures
        r == has_any(ascii_lower_seq(chars@), needles@),
{
    let mut k: usize = 0;
    while k < needles.len()
        invariant
            k <= needles@.len(),
            forall|j: int| 0 <= j < k ==> !has_text(ascii_lower_seq(chars@), #[trigger] needles@[j]@),
        decreases needles@.len() - k,
    {
        if holds_lowered(chars, needles[k]) {
            return true;
        }
        k = k + 1;
    }
    false
}

pub fn error_status(err: &str, bad_request: &[&str], not_found: &[&str]) -> (r: ErrorStatus)
    ensures
        r == spec_error_status(err@, bad_request@, not_found@),
{
    let chars = chars_of(err);
    if holds_any(&chars, bad_request) {
        ErrorStatus::BadRequest
    } else if holds_any(&chars, not_found) {
        ErrorStatus::NotFound
    } else {
        ErrorStatus::Internal
    }
}

/// Branching a thread: a range or argument error is a bad request, an
/// unknown thread is missing.
pub fn branch_error_status(err: &str) -> (r: ErrorStatus)
    ensures
        r == spec_error_status(err@, seq!["out of range", "requires only one of"], seq!["does not exist", "not found"]),
{
    let bad = ["out of range", "requires only one of"];
    let missing = ["does not exist", "not found"];
    let r = error_status(err, &bad, &missing);
    assert(bad@ =~= seq!["out of range", "requires only one of"]);
    assert(missing@ =~= seq!["does not exist", "not found"]);
    r
}

/// Handing a thread off: as branching, and a missing summary is a bad
/// request too.
pub fn handoff_error_status(err: &str) -> (r: ErrorStatus)
    ensures
        r == spec_error_status(
            err@,
            seq!["out of range", "requires only one of", "requires summary"],
            seq!["does not exist", "not found"],
        ),
{
    let bad = ["out of range", "requires only one of", "requires summary"];
    let missing = ["does not exist", "not found"];
    let r = error_status(err, &bad, &missing);
    assert(bad@ =~= seq!["out of range", "requires only one of", "requires summary"]);
    assert(missing@ =~= seq!["does not exist", "not found"]);
    r
}

/// Recording a compaction checkpoint: any validation wording is a bad
/// request, an unknown thread is missing.
pub fn checkpoint_error_status(err: &str) -> (r: ErrorStatus)
    ensures
        r == spec_error_status(
            err@,
            seq!["out of range", "requires", "must", "mismatch", "stride"],
            seq!["does not exist", "not found"],
        ),
{
    let bad = ["out of range", "requires", "must", "mismatch", "stride"];
    let missing = ["does not exist", "not found"];
    let r = error_status(err, &bad, &missing);
    assert(bad@ =~= seq!["out of range", "requires", "must", "mismatch", "stride"]);
    assert(missing@ =~= seq!["does not exist", "not found"]);
    r
}

/// The compaction planners: an invalid stride is a bad request, an unknown
/// thread is missing.
pub fn stride_error_status(err: &str) -> (r: ErrorStatus)
    ensures
        r == spec_error_status(err@, seq!["invalid_stride"], seq!["not_found"]),
{
    let bad = ["invalid_stride"];
    let missing = ["not_found"];
    let r = error_status(err, &bad, &missing);
    assert(bad@ =~= seq!["invalid_stride"]);
    assert(missing@ =~= seq!["not_found"]);
    r
}

/// The status reads and the cursor rotation: an unknown thread is missing,
/// anything else internal.
pub fn lookup_error_status(err: &str) -> (r: ErrorStatus)
    ensures
        r == spec_error_status(err@, Seq::<&str>::empty(), seq!["not_found"]),
{
    let bad: [&str; 0] = [];
    let missing = ["not_found"];
    let r = error_status(err, &bad, &missing);
    assert(bad@ =~= Seq::<&str>::empty());
    assert(missing@ =~= seq!["not_found"]);
    r
}

/// A value, or `default` when it is unset.
pub fn or_default(value: Option<String>, default: &str) -> (r: String)
    ensures
        r@ == (match value {
            Some(v) => v@,
            None => default@,
        }),
{
    match value {
        Some(v) => v,
        None => owned(default),
    }
}

/// A value, or `default` when it is blank.
pub fn unless_blank(value: String, default: &str) -> (r: String)
    ensures
        r@ == (if is_blank(value@) {
            default@
        } else {
            value@
        }),
{
    if is_blank_str(value.as_str()) {
        owned(default)
    } else {
        value
    }
}

} // verus!
