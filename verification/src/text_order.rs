//! The order of texts by their characters, first difference deciding and a
//! prefix coming first; for UTF-8 strings it is the order of `String`'s `Ord`.
//! Lists of paths are kept sorted and free of repeats in this order.

use vstd::prelude::*;

use crate::text::chars_of;

verus! {

/// `a` comes before `b`.
pub open spec fn text_lt(a: Seq<char>, b: Seq<char>) -> bool
    decreases a.len(),
{
    if a.len() == 0 {
        b.len() > 0
    } else if b.len() == 0 {
        false
    } else if a[0] != b[0] {
        a[0] < b[0]
    } else {
        text_lt(a.drop_first(), b.drop_first())
    }
}

/// Each text comes before the next: sorted, and no text twice.
pub open spec fn strictly_sorted(s: Seq<Seq<char>>) -> bool {
    forall|i: int, j: int| 0 <= i < j < s.len() ==> text_lt(s[i], s[j])
}

pub proof fn lemma_text_lt_irreflexive(a: Seq<char>)
    ensures
        !text_lt(a, a),
    decreases a.len(),
{
    if a.len() > 0 {
        lemma_text_lt_irreflexive(a.drop_first());
    }
}

pub proof fn lemma_text_lt_transitive(a: Seq<char>, b: Seq<char>, c: Seq<char>)
    requires
        text_lt(a, b),
        text_lt(b, c),
    ensures
        text_lt(a, c),
    decreases a.len(),
{
    if a.len() > 0 && b.len() > 0 && c.len() > 0 && a[0] == b[0] && b[0] == c[0] {
        lemma_text_lt_transitive(a.drop_first(), b.drop_first(), c.drop_first());
    }
}

pub proof fn lemma_text_lt_total(a: Seq<char>, b: Seq<char>)
    requires
        a != b,
    ensures
        text_lt(a, b) || text_lt(b, a),
    decreases a.len(),
{
    if a.len() > 0 && b.len() > 0 && a[0] == b[0] {
        if a.drop_first() == b.drop_first() {
            assert(a =~= seq![a[0]] + a.drop_first());
            assert(b =~= seq![b[0]] + b.drop_first());
        }
        lemma_text_lt_total(a.drop_first(), b.drop_first());
    } else if a.len() == 0 && b.len() == 0 {
        assert(a =~= b);
    }
}

/// Whether `a` comes before `b`.
pub fn text_less(a: &str, b: &str) -> (r: bool)
    ensures
        r == text_lt(a@, b@),
{
    let x = chars_of(a);
    let y = chars_of(b);
    let mut i: usize = 0;
    assert(a@.skip(0) =~= a@);
    assert(b@.skip(0) =~= b@);
    while i < x.len() && i < y.len()
        invariant
            x@ == a@,
            y@ == b@,
            i <= x@.len(),
            i <= y@.len(),
            text_lt(a@, b@) == text_lt(a@.skip(i as int), b@.skip(i as int)),
        decreases x@.len() - i,
    {
        let ghost sa = a@.skip(i as int);
        let ghost sb = b@.skip(i as int);
        assert(sa[0] == x@[i as int] && sb[0] == y@[i as int]);
        if x[i] != y[i] {
            return x[i] < y[i];
        }
        assert(sa.drop_first() =~= a@.skip(i + 1));
        assert(sb.drop_first() =~= b@.skip(i + 1));
        i = i + 1;
    }
    if i < y.len() {
        assert(a@.skip(i as int).len() == 0 && b@.skip(i as int).len() > 0);
        true
    } else {
        assert(b@.skip(i as int).len() == 0);
        false
    }
}

/// Sorts texts and drops repeats.
pub fn sort_dedup(items: Vec<String>) -> (r: Vec<String>)
    ensures
        strictly_sorted(r@.map_values(|s: String| s@)),
        r@.map_values(|s: String| s@).to_set() == items@.map_values(|s: String| s@).to_set(),
{
    let ghost src = items@.map_values(|s: String| s@);
    let mut out: Vec<String> = Vec::new();
    let mut k: usize = 0;
    assert(out@.map_values(|s: String| s@).to_set() =~= src.subrange(0, 0).to_set());
    while k < items.len()
        invariant
            k <= items@.len(),
            src == items@.map_values(|s: String| s@),
            strictly_sorted(out@.map_values(|s: String| s@)),
            out@.map_values(|s: String| s@).to_set() == src.subrange(0, k as int).to_set(),
        decreases items@.len() - k,
    {
        let x = items[k].as_str();
        let ghost cur = out@.map_values(|s: String| s@);
        let mut pos: usize = 0;
        while pos < out.len() && text_less(out[pos].as_str(), x)
            invariant
                pos <= out@.len(),
                cur == out@.map_values(|s: String| s@),
                forall|i: int| 0 <= i < pos ==> text_lt(#[trigger] cur[i], x@),
            decreases out@.len() - pos,
        {
            pos = pos + 1;
        }
        assert(src.subrange(0, k + 1) =~= src.subrange(0, k as int).push(x@));
        proof {
            src.subrange(0, k as int).lemma_push_to_set_commute(x@);
        }
        if pos < out.len() && crate::text::str_eq(out[pos].as_str(), x) {
            assert(cur.to_set().contains(x@)) by {
                assert(cur[pos as int] == x@);
            }
            assert(cur.to_set().insert(x@) =~= cur.to_set());
        } else {
            proof {
                assert forall|j: int| pos <= j < cur.len() implies text_lt(x@, #[trigger] cur[j]) by {
                    assert(!text_lt(cur[pos as int], x@));
                    assert(cur[pos as int] != x@);
                    lemma_text_lt_total(cur[pos as int], x@);
                    if j > pos {
                        lemma_text_lt_transitive(x@, cur[pos as int], cur[j]);
                    }
                }
            }
            out.insert(pos, items[k].clone());
            proof {
                let nxt = out@.map_values(|s: String| s@);
                assert(nxt =~= cur.insert(pos as int, x@));
                assert forall|i: int, j: int| 0 <= i < j < nxt.len() implies text_lt(nxt[i], nxt[j]) by {
                    if i < pos && j > pos {
                        lemma_text_lt_transitive(nxt[i], x@, nxt[j]);
                    }
                }
                assert(nxt.to_set() =~= cur.to_set().insert(x@)) by {
                    assert forall|t: Seq<char>| nxt.to_set().contains(t) implies cur.to_set().insert(x@).contains(t) by {
                        let i = choose|i: int| 0 <= i < nxt.len() && nxt[i] == t;
                        if i < pos {
                            assert(cur[i] == t);
                        } else if i > pos {
                            assert(cur[i - 1] == t);
                        }
                    }
                    assert forall|t: Seq<char>| cur.to_set().insert(x@).contains(t) implies nxt.to_set().contains(t) by {
                        if t == x@ {
                            assert(nxt[pos as int] == t);
                        } else {
                            let i = choose|i: int| 0 <= i < cur.len() && cur[i] == t;
                            if i < pos {
                                assert(nxt[i] == t);
                            } else {
                                assert(nxt[i + 1] == t);
                            }
                        }
                    }
                }
            }
        }
        k = k + 1;
    }
    assert(src.subrange(0, items@.len() as int) =~= src);
    out
}

} // verus!
