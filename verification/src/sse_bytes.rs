//! Bytes of a provider's event stream as text. Chunks arrive split anywhere,
//! also inside a character: the buffered bytes are cut into pieces of valid
//! text and replacement characters for invalid sequences, and an incomplete
//! sequence at the end waits for the next chunk.

use vstd::prelude::*;
use vstd::utf8::{
    decode_utf8, decode_utf8_split, is_char_boundary, length_of_first_scalar, pop_first_scalar, valid_utf8,
    valid_utf8_split,
};

use crate::task_logs::{lemma_utf8_cut, utf8_cut, utf8_slice};

verus! {

/// What `Utf8Error::error_len` reports for the error `std::str::from_utf8`
/// finds in these bytes.
pub uninterp spec fn utf8_error_len_of(bytes: Seq<u8>) -> Option<usize>;

/// Whether more bytes could make these valid UTF-8: what std calls the end
/// of the input being reached unexpectedly, as when a character is split
/// between two chunks of a stream.
pub open spec fn can_continue_utf8(bytes: Seq<u8>) -> bool {
    exists|rest: Seq<u8>| valid_utf8(#[trigger] (bytes + rest))
}

/// Whether `n` is the length of the invalid sequence after the valid prefix
/// of `bytes`: the longest run there that more bytes could still complete,
/// and one byte when no run could be completed.
pub open spec fn is_invalid_run(bytes: Seq<u8>, n: int) -> bool {
    let tail = bytes.subrange(valid_up_to(bytes), bytes.len() as int);
    &&& 1 <= n <= tail.len()
    &&& (n == 1 || can_continue_utf8(tail.subrange(0, n)))
    &&& (n < tail.len() ==> !can_continue_utf8(tail.subrange(0, n + 1)))
}

/// The length of the longest prefix that is valid UTF-8.
pub open spec fn valid_up_to(bytes: Seq<u8>) -> int {
    utf8_cut(bytes, bytes.len() as int)
}

/// `Utf8Error::valid_up_to` of `std::str::from_utf8(&bytes[start..])`, or the
/// length when those bytes are valid.
///
/// Trusted: std documents `valid_up_to` as the largest index up to which the
/// input is valid UTF-8.
#[verifier::external_body]
fn utf8_valid_up_to(bytes: &[u8], start: usize) -> (r: usize)
    requires
        start <= bytes@.len(),
    ensures
        r == valid_up_to(bytes@.subrange(start as int, bytes@.len() as int)),
{
    match std::str::from_utf8(&bytes[start..]) {
        Ok(text) => text.len(),
        Err(err) => err.valid_up_to(),
    }
}

/// `Utf8Error::error_len` of `std::str::from_utf8(&bytes[start..])`; none
/// when those bytes are valid.
///
/// Trusted: the result is named, and it is none exactly when the end of the
/// input was reached unexpectedly, that is, when more bytes could complete
/// the input (std documents none as that case, and some as an unexpected
/// byte having been met). Some carries the length of the invalid sequence
/// that starts where the valid prefix ends, which std cuts as the longest
/// run that could still have been completed, or a single byte.
#[verifier::external_body]
fn utf8_error_len(bytes: &[u8], start: usize) -> (r: Option<usize>)
    requires
        start <= bytes@.len(),
        !valid_utf8(bytes@.subrange(start as int, bytes@.len() as int)),
    ensures
        r == utf8_error_len_of(bytes@.subrange(start as int, bytes@.len() as int)),
        r is None <==> can_continue_utf8(bytes@.subrange(start as int, bytes@.len() as int)),
        r matches Some(n) ==> is_invalid_run(bytes@.subrange(start as int, bytes@.len() as int), n as int),
{
    match std::str::from_utf8(&bytes[start..]) {
        Ok(_) => None,
        Err(err) => err.error_len(),
    }
}

/// A piece of decoded stream text.
#[derive(Debug, PartialEq, Eq)]
pub enum Utf8Piece {
    /// Valid text.
    Text(String),
    /// U+FFFD, standing for an invalid sequence.
    Replacement,
}

pub ghost enum PieceView {
    Text(Seq<char>),
    Replacement,
}

impl View for Utf8Piece {
    type V = PieceView;

    open spec fn view(&self) -> PieceView {
        match self {
            Utf8Piece::Text(s) => PieceView::Text(s@),
            Utf8Piece::Replacement => PieceView::Replacement,
        }
    }
}

pub open spec fn pieces_view(s: Seq<Utf8Piece>) -> Seq<PieceView> {
    s.map_values(|p: Utf8Piece| p@)
}

/// The pieces a buffer is cut into, and how many of its bytes they cover.
/// A valid buffer is one piece. Otherwise the valid prefix, if any, is a
/// piece; an incomplete sequence after it ends the cut; an invalid one is a
/// replacement and the cut goes on after it. A sequence is incomplete when
/// more bytes could make the buffer valid. An invalid sequence at the very
/// start is skipped one byte at a time, one after a valid prefix by the
/// length the error reports (no more than what is left).
pub open spec fn spec_pieces(b: Seq<u8>) -> (Seq<PieceView>, int)
    decreases b.len(),
{
    if valid_utf8(b) {
        (seq![PieceView::Text(decode_utf8(b))], b.len() as int)
    } else {
        let v = valid_up_to(b);
        if can_continue_utf8(b) {
            if v <= 0 {
                (Seq::empty(), 0)
            } else {
                (seq![PieceView::Text(decode_utf8(b.subrange(0, v)))], v)
            }
        } else {
            let n = utf8_error_len_of(b)->0;
            let skip = if v <= 0 {
                1
            } else if n < b.len() - v {
                n as int
            } else {
                b.len() - v
            };
            let end = v + skip;
            if 0 < end <= b.len() {
                let rest = spec_pieces(b.subrange(end, b.len() as int));
                let head = if v <= 0 {
                    seq![PieceView::Replacement]
                } else {
                    seq![PieceView::Text(decode_utf8(b.subrange(0, v))), PieceView::Replacement]
                };
                (head + rest.0, end + rest.1)
            } else {
                (Seq::empty(), 0)
            }
        }
    }
}

/// The cut never covers more bytes than the buffer holds.
pub proof fn lemma_pieces_within_buffer(b: Seq<u8>)
    ensures
        0 <= spec_pieces(b).1 <= b.len(),
    decreases b.len(),
{
    if !valid_utf8(b) {
        lemma_utf8_cut(b, b.len() as int);
        let v = valid_up_to(b);
        if !can_continue_utf8(b) {
            let n = utf8_error_len_of(b)->0;
            let skip = if v <= 0 {
                1
            } else if n < b.len() - v {
                n as int
            } else {
                b.len() - v
            };
            let end = v + skip;
            if 0 < end <= b.len() {
                lemma_pieces_within_buffer(b.subrange(end, b.len() as int));
            }
        }
    }
}

/// The text the pieces stand for, a replacement being U+FFFD.
pub open spec fn pieces_text(ps: Seq<PieceView>) -> Seq<char>
    decreases ps.len(),
{
    if ps.len() == 0 {
        Seq::empty()
    } else {
        pieces_text(ps.drop_last()) + match ps.last() {
            PieceView::Text(t) => t,
            PieceView::Replacement => seq!['\u{FFFD}'],
        }
    }
}

proof fn lemma_single_piece_text(t: Seq<char>)
    ensures
        pieces_text(seq![PieceView::Text(t)]) == t,
{
    let ps = seq![PieceView::Text(t)];
    assert(ps.drop_last() =~= Seq::<PieceView>::empty());
    assert(pieces_text(ps.drop_last()) =~= Seq::<char>::empty());
    assert(pieces_text(ps) =~= t);
}

/// A valid prefix of valid UTF-8 ends between two characters.
proof fn lemma_valid_prefix_is_boundary(s: Seq<u8>, v: int)
    requires
        valid_utf8(s),
        0 <= v <= s.len(),
        valid_utf8(s.subrange(0, v)),
    ensures
        is_char_boundary(s, v),
    decreases s.len(),
{
    if v > 0 {
        let p = s.subrange(0, v);
        let l = length_of_first_scalar(s);
        assert(p[0] == s[0]);
        assert(length_of_first_scalar(p) == l);
        assert(1 <= l <= v);
        assert(pop_first_scalar(p) =~= pop_first_scalar(s).subrange(0, v - l));
        lemma_valid_prefix_is_boundary(pop_first_scalar(s), v - l);
    }
}

/// The pieces of valid text are that text, whole.
proof fn lemma_valid_pieces(b: Seq<u8>)
    requires
        valid_utf8(b),
    ensures
        pieces_text(spec_pieces(b).0) == decode_utf8(b),
        spec_pieces(b).1 == b.len(),
{
    lemma_single_piece_text(decode_utf8(b));
}

/// A stream cut anywhere, also inside a character, loses nothing: the text
/// of the first chunk's pieces, followed by the text of the bytes carried
/// over together with the rest of the stream, is the whole stream decoded.
pub proof fn lemma_cut_stream_decodes_whole(s: Seq<u8>, k: int)
    requires
        valid_utf8(s),
        0 <= k <= s.len(),
    ensures
        ({
            let first = spec_pieces(s.subrange(0, k));
            let second = spec_pieces(s.subrange(first.1, s.len() as int));
            &&& 0 <= first.1 <= k
            &&& second.1 == s.len() - first.1
            &&& pieces_text(first.0) + pieces_text(second.0) == decode_utf8(s)
        }),
{
    let a = s.subrange(0, k);
    assert(a + s.subrange(k, s.len() as int) =~= s);
    assert(can_continue_utf8(a));
    let c = if valid_utf8(a) {
        lemma_valid_pieces(a);
        k
    } else {
        lemma_utf8_cut(a, a.len() as int);
        let v = valid_up_to(a);
        assert(a.subrange(0, v) =~= s.subrange(0, v));
        if v <= 0 {
            assert(spec_pieces(a).0 =~= Seq::<PieceView>::empty());
            assert(s.subrange(0, 0) =~= Seq::<u8>::empty());
            assert(decode_utf8(s.subrange(0, 0)) =~= Seq::<char>::empty());
        } else {
            lemma_single_piece_text(decode_utf8(a.subrange(0, v)));
        }
        v
    };
    assert(valid_utf8(s.subrange(0, c)));
    assert(pieces_text(spec_pieces(a).0) == decode_utf8(s.subrange(0, c)));
    lemma_valid_prefix_is_boundary(s, c);
    valid_utf8_split(s, c);
    decode_utf8_split(s, c);
    lemma_valid_pieces(s.subrange(c, s.len() as int));
}

/// Cuts buffered stream bytes into pieces of text; returns them and how many
/// bytes they cover. The bytes after those are an incomplete sequence that
/// stays buffered for the next chunk.
pub fn utf8_pieces(buf: &[u8]) -> (r: (Vec<Utf8Piece>, usize))
    ensures
        pieces_view(r.0@) == spec_pieces(buf@).0,
        r.1 == spec_pieces(buf@).1,
        r.1 <= buf@.len(),
{
    proof {
        lemma_pieces_within_buffer(buf@);
    }
    let len = buf.len();
    let mut pieces: Vec<Utf8Piece> = Vec::new();
    let mut start: usize = 0;
    assert(buf@.subrange(0, len as int) =~= buf@);
    loop
        invariant
            start <= len == buf@.len(),
            spec_pieces(buf@).0 == pieces_view(pieces@) + spec_pieces(buf@.subrange(start as int, len as int)).0,
            spec_pieces(buf@).1 == start + spec_pieces(buf@.subrange(start as int, len as int)).1,
        decreases len - start,
    {
        let ghost b = buf@.subrange(start as int, len as int);
        let ghost before = pieces@;
        match utf8_slice(buf, start, len) {
            Some(text) => {
                pieces.push(Utf8Piece::Text(text));
                assert(pieces_view(pieces@) =~= pieces_view(before) + spec_pieces(b).0);
                return (pieces, len);
            },
            None => {},
        }
        let v = utf8_valid_up_to(buf, start);
        let e = utf8_error_len(buf, start);
        proof {
            lemma_utf8_cut(b, b.len() as int);
        }
        if v > 0 {
            assert(b.subrange(0, v as int) =~= buf@.subrange(start as int, start + v));
            let text = match utf8_slice(buf, start, start + v) {
                Some(t) => t,
                None => String::new(),
            };
            pieces.push(Utf8Piece::Text(text));
        }
        match e {
            None => {
                assert(pieces_view(pieces@) =~= pieces_view(before) + spec_pieces(b).0);
                return (pieces, start + v);
            },
            Some(n) => {
                let rest_len = len - start - v;
                let skip = if v == 0 {
                    1
                } else if n < rest_len {
                    n
                } else {
                    rest_len
                };
                let ghost end = v + skip;
                assert(b.len() > 0) by {
                    if b.len() == 0 {
                        assert(b =~= Seq::<u8>::empty());
                        assert(valid_utf8(b.subrange(0, 0)));
                        assert(b.subrange(0, 0) =~= b);
                    }
                };
                assert(v < b.len()) by {
                    if v == b.len() {
                        assert(b.subrange(0, v as int) =~= b);
                    }
                };
                pieces.push(Utf8Piece::Replacement);
                assert(b.subrange(end, b.len() as int) =~= buf@.subrange(start + end, len as int));
                assert(pieces_view(pieces@) + spec_pieces(b.subrange(end, b.len() as int)).0 =~= pieces_view(
                    before,
                ) + spec_pieces(b).0);
                start = start + v + skip;
            },
        }
    }
}

} // verus!
