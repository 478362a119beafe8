//! Fresh identifiers and the wall clock: random UUIDs in their text forms,
//! and the current time in milliseconds since the Unix epoch.

use vstd::prelude::*;

verus! {

/// A lowercase hexadecimal digit.
pub open spec fn is_lower_hex_char(c: char) -> bool {
    ('0' <= c && c <= '9') || ('a' <= c && c <= 'f')
}

/// The hyphenated text form of a UUID: 36 characters, dashes at positions
/// 8, 13, 18 and 23, lowercase hexadecimal digits everywhere else.
pub open spec fn is_uuid_text(s: Seq<char>) -> bool {
    &&& s.len() == 36
    &&& forall|i: int|
        0 <= i < 36 ==> (if i == 8 || i == 13 || i == 18 || i == 23 {
            #[trigger] s[i] == '-'
        } else {
            is_lower_hex_char(s[i])
        })
}

#[verifier::external_type_specification]
#[verifier::external_body]
pub struct ExSystemTime(std::time::SystemTime);

#[verifier::external_type_specification]
#[verifier::external_body]
pub struct ExSystemTimeError(std::time::SystemTimeError);

/// The bytes of `Uuid::new_v4()`.
///
/// Trusted: uuid fills the 16 bytes at random, then sets the version nibble
/// (the high half of byte 6) to 4 and the variant bits (the top two of byte 8)
/// to `10`.
#[verifier::external_body]
fn new_uuid_v4_bytes() -> (r: Vec<u8>)
    ensures
        r@.len() == 16,
        0x40 <= r@[6] < 0x50,
        0x80 <= r@[8] < 0xc0,
{
    uuid::Uuid::new_v4().into_bytes().to_vec()
}

/// The lowercase hexadecimal digit of a value below 16.
pub open spec fn hex_digit(n: u8) -> char {
    if n < 10 {
        (n + 48) as char
    } else {
        (n - 10 + 97) as char
    }
}

/// Two lowercase hexadecimal digits per byte, high half first: the simple
/// text form of a UUID's bytes.
pub open spec fn hex_text(bytes: Seq<u8>) -> Seq<char>
    decreases bytes.len(),
{
    if bytes.len() == 0 {
        Seq::empty()
    } else {
        hex_text(bytes.drop_last()) + seq![hex_digit(bytes.last() / 16), hex_digit(bytes.last() % 16)]
    }
}

/// The hyphenated text form of a UUID's bytes: the hexadecimal digits of
/// bytes 0-3, 4-5, 6-7, 8-9 and 10-15, joined by dashes.
pub open spec fn hyphenated_text(bytes: Seq<u8>) -> Seq<char> {
    hex_text(bytes.subrange(0, 4)) + seq!['-'] + hex_text(bytes.subrange(4, 6)) + seq!['-'] + hex_text(
        bytes.subrange(6, 8),
    ) + seq!['-'] + hex_text(bytes.subrange(8, 10)) + seq!['-'] + hex_text(bytes.subrange(10, 16))
}

proof fn lemma_hex_text(bytes: Seq<u8>)
    ensures
        hex_text(bytes).len() == 2 * bytes.len(),
        forall|i: int| 0 <= i < 2 * bytes.len() ==> is_lower_hex_char(#[trigger] hex_text(bytes)[i]),
        forall|k: int|
            0 <= k < bytes.len() ==> hex_text(bytes)[2 * k] == hex_digit(#[trigger] bytes[k] / 16) && hex_text(
                bytes,
            )[2 * k + 1] == hex_digit(bytes[k] % 16),
    decreases bytes.len(),
{
    if bytes.len() > 0 {
        lemma_hex_text(bytes.drop_last());
        let t = hex_text(bytes);
        let p = hex_text(bytes.drop_last());
        assert forall|i: int| 0 <= i < 2 * bytes.len() implies is_lower_hex_char(#[trigger] t[i]) by {
            if i >= p.len() {
                let d = if i == p.len() {
                    bytes.last() / 16
                } else {
                    bytes.last() % 16
                };
                assert(t[i] == hex_digit(d));
            } else {
                assert(t[i] == p[i]);
            }
        }
        assert forall|k: int| 0 <= k < bytes.len() implies t[2 * k] == hex_digit(#[trigger] bytes[k] / 16) && t[2 * k + 1]
            == hex_digit(bytes[k] % 16) by {
            if k < bytes.len() - 1 {
                assert(bytes.drop_last()[k] == bytes[k]);
            }
        }
    }
}

fn hex_char(n: u8) -> (r: char)
    requires
        n < 16,
    ensures
        r == hex_digit(n),
{
    if n < 10 {
        (n + 48) as char
    } else {
        (n - 10 + 97) as char
    }
}

/// Appends the hexadecimal digits of `bytes[from..to]`.
fn push_hex(out: &mut String, bytes: &Vec<u8>, from: usize, to: usize)
    requires
        from <= to <= bytes@.len(),
    ensures
        final(out)@ == old(out)@ + hex_text(bytes@.subrange(from as int, to as int)),
{
    let mut i = from;
    assert(bytes@.subrange(from as int, from as int) =~= Seq::<u8>::empty());
    assert(old(out)@ + hex_text(Seq::<u8>::empty()) =~= old(out)@);
    while i < to
        invariant
            from <= i <= to <= bytes@.len(),
            out@ == old(out)@ + hex_text(bytes@.subrange(from as int, i as int)),
        decreases to - i,
    {
        let b = bytes[i];
        let ghost before = out@;
        out.push(hex_char(b / 16));
        out.push(hex_char(b % 16));
        assert(bytes@.subrange(from as int, i + 1).drop_last() =~= bytes@.subrange(from as int, i as int));
        assert(out@ =~= old(out)@ + hex_text(bytes@.subrange(from as int, i + 1)));
        i = i + 1;
    }
}

/// A random version-4 UUID as 32 lowercase hexadecimal digits: the version
/// digit `4` at position 12 and one of `8`, `9`, `a`, `b` at position 16.
pub fn random_uuid_simple() -> (r: String)
    ensures
        r@.len() == 32,
        forall|i: int| 0 <= i < 32 ==> is_lower_hex_char(#[trigger] r@[i]),
        r@[12] == '4',
        r@[16] == '8' || r@[16] == '9' || r@[16] == 'a' || r@[16] == 'b',
{
    let bytes = new_uuid_v4_bytes();
    let mut out = String::new();
    push_hex(&mut out, &bytes, 0, 16);
    proof {
        let b = bytes@.subrange(0, 16);
        assert(b =~= bytes@);
        lemma_hex_text(b);
        assert(out@ =~= hex_text(b));
        assert(out@[12] == hex_digit(b[6] / 16));
        assert(out@[16] == hex_digit(b[8] / 16));
    }
    out
}

/// A fresh event id: a random version-4 UUID in hyphenated form, with the
/// version digit `4` at position 14 and one of `8`, `9`, `a`, `b` at 19.
pub fn new_event_id() -> (r: String)
    ensures
        is_uuid_text(r@),
        r@[14] == '4',
        r@[19] == '8' || r@[19] == '9' || r@[19] == 'a' || r@[19] == 'b',
{
    let bytes = new_uuid_v4_bytes();
    let mut out = String::new();
    push_hex(&mut out, &bytes, 0, 4);
    out.push('-');
    push_hex(&mut out, &bytes, 4, 6);
    out.push('-');
    push_hex(&mut out, &bytes, 6, 8);
    out.push('-');
    push_hex(&mut out, &bytes, 8, 10);
    out.push('-');
    push_hex(&mut out, &bytes, 10, 16);
    proof {
        let b = bytes@;
        assert(out@ =~= hyphenated_text(b));
        let h0 = hex_text(b.subrange(0, 4));
        let h1 = hex_text(b.subrange(4, 6));
        let h2 = hex_text(b.subrange(6, 8));
        let h3 = hex_text(b.subrange(8, 10));
        let h4 = hex_text(b.subrange(10, 16));
        lemma_hex_text(b.subrange(0, 4));
        lemma_hex_text(b.subrange(4, 6));
        lemma_hex_text(b.subrange(6, 8));
        lemma_hex_text(b.subrange(8, 10));
        lemma_hex_text(b.subrange(10, 16));
        assert(b.subrange(6, 8)[0] == b[6]);
        assert(b.subrange(8, 10)[0] == b[8]);
        assert forall|i: int| 0 <= i < 36 implies (if i == 8 || i == 13 || i == 18 || i == 23 {
            #[trigger] out@[i] == '-'
        } else {
            is_lower_hex_char(out@[i])
        }) by {
            if i < 8 {
                assert(out@[i] == h0[i]);
            } else if i == 8 {
            } else if i < 13 {
                assert(out@[i] == h1[i - 9]);
            } else if i == 13 {
            } else if i < 18 {
                assert(out@[i] == h2[i - 14]);
            } else if i == 18 {
            } else if i < 23 {
                assert(out@[i] == h3[i - 19]);
            } else if i == 23 {
            } else {
                assert(out@[i] == h4[i - 24]);
            }
        }
        assert(out@[14] == h2[0]);
        assert(out@[19] == h3[0]);
    }
    out
}

/// `SystemTime::now()`. Nothing is said of the time.
#[verifier::external_body]
fn system_time_now() -> (r: std::time::SystemTime) {
    std::time::SystemTime::now()
}

/// `t.duration_since(UNIX_EPOCH)`: fails when the clock reads before the
/// epoch. Nothing is said of the duration.
#[verifier::external_body]
fn since_unix_epoch(t: &std::time::SystemTime) -> (r: Result<core::time::Duration, std::time::SystemTimeError>) {
    t.duration_since(std::time::UNIX_EPOCH)
}

/// `d.as_millis()`. Nothing is said of the value.
#[verifier::external_body]
fn duration_millis(d: &core::time::Duration) -> (r: u128) {
    d.as_millis()
}

/// A clock reading in milliseconds since the Unix epoch, cut to 64 bits; 0
/// for a clock that reads before the epoch (no elapsed time).
pub fn epoch_millis(elapsed_ms: Option<u128>) -> (r: u64)
    ensures
        r == (match elapsed_ms {
            Some(ms) => ms as u64,
            None => 0u64,
        }),
{
    match elapsed_ms {
        Some(ms) => ms as u64,
        None => 0,
    }
}

/// Milliseconds since the Unix epoch, cut to 64 bits; 0 when the clock reads
/// before the epoch.
pub fn now_ms() -> (r: u64) {
    let now = system_time_now();
    let elapsed = match since_unix_epoch(&now) {
        Ok(d) => Some(duration_millis(&d)),
        Err(_) => None,
    };
    epoch_millis(elapsed)
}

} // verus!
