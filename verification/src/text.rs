//! Character-level helpers shared by the configuration parsers, the task
//! engine and the event code: whitespace trimming, comparisons against
//! literals, and building `String`s one character at a time.

use vstd::prelude::*;

verus! {

/// `String::push` appends one character to the end of the string.
pub assume_specification[ String::push ](s: &mut String, ch: char)
    ensures
        final(s)@ == old(s)@.push(ch),
;

/// The characters for which `char::is_whitespace` holds: the Unicode
/// `White_Space` property.
pub open spec fn is_ws(c: char) -> bool {
    ||| ('\u{9}' <= c && c <= '\u{d}')
    ||| c == ' '
    ||| c == '\u{85}'
    ||| c == '\u{a0}'
    ||| c == '\u{1680}'
    ||| ('\u{2000}' <= c && c <= '\u{200a}')
    ||| c == '\u{2028}'
    ||| c == '\u{2029}'
    ||| c == '\u{202f}'
    ||| c == '\u{205f}'
    ||| c == '\u{3000}'
}

/// Index of the first non-whitespace character at or after `i`.
pub open spec fn skip_ws(s: Seq<char>, i: int) -> int
    decreases s.len() - i,
{
    if 0 <= i < s.len() && is_ws(s[i]) {
        skip_ws(s, i + 1)
    } else {
        i
    }
}

/// End of the text that remains once trailing whitespace down to `lo` is removed.
pub open spec fn back_ws(s: Seq<char>, j: int, lo: int) -> int
    decreases j - lo,
{
    if lo < j && j <= s.len() && is_ws(s[j - 1]) {
        back_ws(s, j - 1, lo)
    } else {
        j
    }
}

/// `str::trim`: the text without leading and trailing whitespace.
pub open spec fn spec_trim(s: Seq<char>) -> Seq<char> {
    let a = skip_ws(s, 0);
    let b = back_ws(s, s.len() as int, a);
    s.subrange(a, b)
}

/// Whether `s` is empty once trimmed, i.e. holds only whitespace.
pub open spec fn is_blank(s: Seq<char>) -> bool {
    spec_trim(s).len() == 0
}

pub proof fn lemma_skip_ws_bounds(s: Seq<char>, i: int)
    requires
        0 <= i <= s.len(),
    ensures
        i <= skip_ws(s, i) <= s.len(),
        forall|k: int| i <= k < skip_ws(s, i) ==> is_ws(#[trigger] s[k]),
        skip_ws(s, i) < s.len() ==> !is_ws(s[skip_ws(s, i)]),
    decreases s.len() - i,
{
    if i < s.len() && is_ws(s[i]) {
        lemma_skip_ws_bounds(s, i + 1);
    }
}

pub proof fn lemma_back_ws_bounds(s: Seq<char>, j: int, lo: int)
    requires
        0 <= lo <= j <= s.len(),
    ensures
        lo <= back_ws(s, j, lo) <= j,
        forall|k: int| back_ws(s, j, lo) <= k < j ==> is_ws(#[trigger] s[k]),
        back_ws(s, j, lo) > lo ==> !is_ws(s[back_ws(s, j, lo) - 1]),
    decreases j - lo,
{
    if lo < j && is_ws(s[j - 1]) {
        lemma_back_ws_bounds(s, j - 1, lo);
    }
}

/// The trimmed text is empty exactly when every character is whitespace.
pub proof fn lemma_blank_iff_all_ws(s: Seq<char>)
    ensures
        is_blank(s) <==> forall|k: int| 0 <= k < s.len() ==> is_ws(#[trigger] s[k]),
{
    lemma_skip_ws_bounds(s, 0);
    let a = skip_ws(s, 0);
    lemma_back_ws_bounds(s, s.len() as int, a);
}

/// Trimming is idempotent, and a trimmed text neither starts nor ends with whitespace.
pub proof fn lemma_trim_shape(s: Seq<char>)
    ensures
        spec_trim(s).len() > 0 ==> !is_ws(spec_trim(s)[0]) && !is_ws(
            spec_trim(s)[spec_trim(s).len() - 1],
        ),
        spec_trim(spec_trim(s)) == spec_trim(s),
{
    lemma_skip_ws_bounds(s, 0);
    let a = skip_ws(s, 0);
    lemma_back_ws_bounds(s, s.len() as int, a);
    let t = spec_trim(s);
    if t.len() > 0 {
        assert(!is_ws(t[0]));
        assert(!is_ws(t[t.len() - 1]));
        assert(skip_ws(t, 0) == 0);
        assert(back_ws(t, t.len() as int, 0) == t.len());
        assert(spec_trim(t) =~= t);
    } else {
        assert(skip_ws(t, 0) == 0);
        assert(back_ws(t, 0, 0) == 0);
        assert(spec_trim(t) =~= t);
    }
}

/// The characters of `s`, in order.
pub fn chars_of(s: &str) -> (v: Vec<char>)
    ensures
        v@ == s@,
{
    let n = s.unicode_len();
    let mut v: Vec<char> = Vec::new();
    let mut i: usize = 0;
    while i < n
        invariant
            n == s@.len(),
            i <= n,
            v@ == s@.subrange(0, i as int),
        decreases n - i,
    {
        let c = s.get_char(i);
        v.push(c);
        i = i + 1;
        assert(v@ =~= s@.subrange(0, i as int));
    }
    assert(v@ =~= s@);
    v
}

/// A `String` holding `chars[from..to]`.
pub fn string_from_chars(chars: &Vec<char>, from: usize, to: usize) -> (s: String)
    requires
        from <= to <= chars@.len(),
    ensures
        s@ == chars@.subrange(from as int, to as int),
{
    let mut s = String::new();
    let mut i = from;
    while i < to
        invariant
            from <= i <= to <= chars@.len(),
            s@ == chars@.subrange(from as int, i as int),
        decreases to - i,
    {
        s.push(chars[i]);
        i = i + 1;
        assert(s@ =~= chars@.subrange(from as int, i as int));
    }
    s
}

/// `char::is_whitespace`.
pub fn char_is_ws(c: char) -> (r: bool)
    ensures
        r == is_ws(c),
{
    ('\u{9}' <= c && c <= '\u{d}') || c == ' ' || c == '\u{85}' || c == '\u{a0}' || c
        == '\u{1680}' || ('\u{2000}' <= c && c <= '\u{200a}') || c == '\u{2028}' || c
        == '\u{2029}' || c == '\u{202f}' || c == '\u{205f}' || c == '\u{3000}'
}

/// Bounds `(a, b)` such that `chars[a..b]` is the trimmed text.
pub fn trim_bounds(chars: &Vec<char>) -> (r: (usize, usize))
    ensures
        r.0 == skip_ws(chars@, 0),
        r.1 == back_ws(chars@, chars@.len() as int, r.0 as int),
        r.0 <= r.1 <= chars@.len(),
        chars@.subrange(r.0 as int, r.1 as int) == spec_trim(chars@),
{
    let n = chars.len();
    let mut a: usize = 0;
    while a < n && char_is_ws(chars[a])
        invariant
            n == chars@.len(),
            a <= n,
            skip_ws(chars@, 0) == skip_ws(chars@, a as int),
        decreases n - a,
    {
        a = a + 1;
    }
    let mut b: usize = n;
    while b > a && char_is_ws(chars[b - 1])
        invariant
            n == chars@.len(),
            a <= b <= n,
            back_ws(chars@, n as int, a as int) == back_ws(chars@, b as int, a as int),
        decreases b - a,
    {
        b = b - 1;
    }
    (a, b)
}

/// `str::trim`, as an owned `String`.
pub fn trim_to_string(s: &str) -> (r: String)
    ensures
        r@ == spec_trim(s@),
{
    let chars = chars_of(s);
    let (a, b) = trim_bounds(&chars);
    string_from_chars(&chars, a, b)
}

/// `s.trim().is_empty()`.
pub fn is_blank_str(s: &str) -> (r: bool)
    ensures
        r == is_blank(s@),
{
    let chars = chars_of(s);
    let (a, b) = trim_bounds(&chars);
    a == b
}

/// Whether two character sequences are equal.
pub fn chars_eq(a: &Vec<char>, b: &Vec<char>) -> (r: bool)
    ensures
        r == (a@ == b@),
{
    if a.len() != b.len() {
        return false;
    }
    let n = a.len();
    let mut i: usize = 0;
    while i < n
        invariant
            n == a@.len() == b@.len(),
            i <= n,
            forall|k: int| 0 <= k < i ==> a@[k] == b@[k],
        decreases n - i,
    {
        if a[i] != b[i] {
            return false;
        }
        i = i + 1;
    }
    assert(a@ =~= b@);
    true
}

/// Whether `a[from..to]` equals the text `lit`.
pub fn slice_eq_str(a: &Vec<char>, from: usize, to: usize, lit: &str) -> (r: bool)
    requires
        from <= to <= a@.len(),
    ensures
        r == (a@.subrange(from as int, to as int) == lit@),
{
    let l = chars_of(lit);
    if to - from != l.len() {
        return false;
    }
    let n = l.len();
    let mut i: usize = 0;
    while i < n
        invariant
            n == l@.len() == to - from,
            from <= to <= a@.len(),
            l@ == lit@,
            i <= n,
            forall|k: int| 0 <= k < i ==> a@[from + k] == l@[k],
        decreases n - i,
    {
        if a[from + i] != l[i] {
            return false;
        }
        i = i + 1;
    }
    assert(a@.subrange(from as int, to as int) =~= l@);
    true
}

/// Whether two texts are equal.
pub fn str_eq(a: &str, b: &str) -> (r: bool)
    ensures
        r == (a@ == b@),
{
    let x = chars_of(a);
    let y = chars_of(b);
    chars_eq(&x, &y)
}

/// ASCII lower-casing of one character (`char::to_ascii_lowercase`).
pub open spec fn ascii_lower(c: char) -> char {
    if 'A' <= c && c <= 'Z' {
        ((c as u32) + 32) as char
    } else {
        c
    }
}

/// `s.to_ascii_lowercase()` as a sequence.
pub open spec fn ascii_lower_seq(s: Seq<char>) -> Seq<char> {
    s.map_values(|c: char| ascii_lower(c))
}

/// Whether the lower-cased `a[from..to]` equals `lit`, which must itself be lower case.
pub fn slice_eq_str_ignore_ascii_case(a: &Vec<char>, from: usize, to: usize, lit: &str) -> (r: bool)
    requires
        from <= to <= a@.len(),
    ensures
        r == (ascii_lower_seq(a@.subrange(from as int, to as int)) == lit@),
{
    let l = chars_of(lit);
    let ghost sub = a@.subrange(from as int, to as int);
    if to - from != l.len() {
        assert(ascii_lower_seq(sub).len() == sub.len());
        return false;
    }
    let n = l.len();
    let mut i: usize = 0;
    while i < n
        invariant
            n == l@.len() == to - from,
            from <= to <= a@.len(),
            sub == a@.subrange(from as int, to as int),
            l@ == lit@,
            i <= n,
            forall|k: int| 0 <= k < i ==> ascii_lower(a@[from + k]) == l@[k],
        decreases n - i,
    {
        let c = a[from + i];
        let lc = if 'A' <= c && c <= 'Z' {
            let u = (c as u32) + 32;
            let li = l[i];
            li as u32 == u
        } else {
            c == l[i]
        };
        if !lc {
            proof {
                if 'A' <= c && c <= 'Z' {
                    assert(ascii_lower(c) == ((c as u32) + 32) as char);
                    vstd::utf8::char_u32_cast(l@[i as int], l@[i as int] as u32);
                    assert(ascii_lower_seq(sub)[i as int] == ascii_lower(c));
                }
                assert(ascii_lower_seq(sub)[i as int] != l@[i as int]);
            }
            return false;
        }
        proof {
            if 'A' <= c && c <= 'Z' {
                assert((l@[i as int] as u32) == (c as u32) + 32);
                vstd::utf8::char_u32_cast(l@[i as int], l@[i as int] as u32);
                assert(ascii_lower(c) == ((c as u32) + 32) as char);
                assert(ascii_lower(c) == l@[i as int]);
            }
        }
        i = i + 1;
    }
    assert(ascii_lower_seq(sub) =~= l@);
    true
}

/// The environment-flag convention: after trimming and ASCII lower-casing the
/// value is one of `1`, `true`, `yes` or `on`.
pub open spec fn spec_flag_enabled(value: Seq<char>) -> bool {
    let v = ascii_lower_seq(spec_trim(value));
    v == "1"@ || v == "true"@ || v == "yes"@ || v == "on"@
}

/// Reads an on/off flag the way every `RIP_*` boolean setting is read.
pub fn flag_enabled(value: &str) -> (r: bool)
    ensures
        r == spec_flag_enabled(value@),
{
    let chars = chars_of(value);
    let (a, b) = trim_bounds(&chars);
    slice_eq_str_ignore_ascii_case(&chars, a, b, "1") || slice_eq_str_ignore_ascii_case(
        &chars,
        a,
        b,
        "true",
    ) || slice_eq_str_ignore_ascii_case(&chars, a, b, "yes") || slice_eq_str_ignore_ascii_case(
        &chars,
        a,
        b,
        "on",
    )
}

/// `s.replace('\\', "/")`.
pub open spec fn backslash_to_slash(s: Seq<char>) -> Seq<char> {
    s.map_values(|c: char| if c == '\\' { '/' } else { c })
}

/// Replaces every backslash with a forward slash.
pub fn replace_backslashes(s: &str) -> (r: String)
    ensures
        r@ == backslash_to_slash(s@),
{
    let chars = chars_of(s);
    let mut out = String::new();
    let mut i: usize = 0;
    while i < chars.len()
        invariant
            chars@ == s@,
            i <= chars@.len(),
            out@ == backslash_to_slash(s@.subrange(0, i as int)),
        decreases chars@.len() - i,
    {
        let c = chars[i];
        if c == '\\' {
            out.push('/');
        } else {
            out.push(c);
        }
        i = i + 1;
        assert(out@ =~= backslash_to_slash(s@.subrange(0, i as int)));
    }
    assert(s@.subrange(0, chars@.len() as int) =~= s@);
    out
}

/// A new `String` equal to the text `s`.
pub fn owned(s: &str) -> (r: String)
    ensures
        r@ == s@,
{
    String::from_str(s)
}

/// `a` followed by `b`.
pub fn concat2(a: &str, b: &str) -> (r: String)
    ensures
        r@ == a@ + b@,
{
    let s = String::from_str(a);
    s.concat(b)
}

/// `a`, then `b`, then `c`.
pub fn concat3(a: &str, b: &str, c: &str) -> (r: String)
    ensures
        r@ == a@ + b@ + c@,
{
    let s = String::from_str(a);
    let s = s.concat(b);
    s.concat(c)
}

/// Bounds `(a, b)` such that `chars[a..b]` is `chars[from..to]` trimmed.
pub fn trim_range(chars: &Vec<char>, from: usize, to: usize) -> (r: (usize, usize))
    requires
        from <= to <= chars@.len(),
    ensures
        from <= r.0 <= r.1 <= to,
        chars@.subrange(r.0 as int, r.1 as int) == spec_trim(chars@.subrange(from as int, to as int)),
{
    let ghost s = chars@.subrange(from as int, to as int);
    let mut a: usize = from;
    while a < to && char_is_ws(chars[a])
        invariant
            from <= a <= to <= chars@.len(),
            s == chars@.subrange(from as int, to as int),
            skip_ws(s, 0) == skip_ws(s, a - from),
        decreases to - a,
    {
        assert(s[a - from] == chars@[a as int]);
        a = a + 1;
    }
    proof {
        if a < to {
            assert(s[a - from] == chars@[a as int]);
        }
        assert(skip_ws(s, a - from) == a - from);
    }
    let mut b: usize = to;
    while b > a && char_is_ws(chars[b - 1])
        invariant
            from <= a <= b <= to <= chars@.len(),
            s == chars@.subrange(from as int, to as int),
            back_ws(s, s.len() as int, a - from) == back_ws(s, b - from, a - from),
        decreases b - a,
    {
        assert(s[b - 1 - from] == chars@[b - 1]);
        b = b - 1;
    }
    proof {
        if b > a {
            assert(s[b - 1 - from] == chars@[b - 1]);
        }
        assert(back_ws(s, b - from, a - from) == b - from);
        assert(chars@.subrange(a as int, b as int) =~= s.subrange(a - from, b - from));
    }
    (a, b)
}

/// `s.split(sep)`: the pieces between separators, in order; an empty text
/// has one empty piece.
pub open spec fn split_on(s: Seq<char>, sep: char) -> Seq<Seq<char>>
    decreases s.len(),
{
    if s.len() == 0 {
        seq![Seq::<char>::empty()]
    } else {
        let rest = split_on(s.drop_last(), sep);
        if s.last() == sep {
            rest.push(Seq::<char>::empty())
        } else {
            rest.update(rest.len() - 1, rest.last().push(s.last()))
        }
    }
}

pub proof fn lemma_split_on_nonempty(s: Seq<char>, sep: char)
    ensures
        split_on(s, sep).len() >= 1,
    decreases s.len(),
{
    if s.len() > 0 {
        lemma_split_on_nonempty(s.drop_last(), sep);
    }
}

/// ASCII upper-casing of one character (`char::to_ascii_uppercase`).
pub open spec fn ascii_upper(c: char) -> char {
    if 'a' <= c && c <= 'z' {
        ((c as u32) - 32) as char
    } else {
        c
    }
}

/// `s.to_ascii_uppercase()` as a sequence.
pub open spec fn ascii_upper_seq(s: Seq<char>) -> Seq<char> {
    s.map_values(|c: char| ascii_upper(c))
}

/// Whether the upper-cased `a[from..to]` equals `lit`, which must itself be upper case.
pub fn slice_eq_str_upper(a: &Vec<char>, from: usize, to: usize, lit: &str) -> (r: bool)
    requires
        from <= to <= a@.len(),
    ensures
        r == (ascii_upper_seq(a@.subrange(from as int, to as int)) == lit@),
{
    let l = chars_of(lit);
    let ghost sub = a@.subrange(from as int, to as int);
    if to - from != l.len() {
        assert(ascii_upper_seq(sub).len() == sub.len());
        return false;
    }
    let n = l.len();
    let mut i: usize = 0;
    while i < n
        invariant
            n == l@.len() == to - from,
            from <= to <= a@.len(),
            sub == a@.subrange(from as int, to as int),
            l@ == lit@,
            i <= n,
            forall|k: int| 0 <= k < i ==> ascii_upper(a@[from + k]) == l@[k],
        decreases n - i,
    {
        let c = a[from + i];
        let lc = if 'a' <= c && c <= 'z' {
            let u = (c as u32) - 32;
            let li = l[i];
            li as u32 == u
        } else {
            c == l[i]
        };
        if !lc {
            proof {
                if 'a' <= c && c <= 'z' {
                    vstd::utf8::char_u32_cast(l@[i as int], l@[i as int] as u32);
                }
                assert(ascii_upper_seq(sub)[i as int] == ascii_upper(c));
                assert(ascii_upper_seq(sub)[i as int] != l@[i as int]);
            }
            return false;
        }
        proof {
            if 'a' <= c && c <= 'z' {
                vstd::utf8::char_u32_cast(l@[i as int], l@[i as int] as u32);
            }
        }
        i = i + 1;
    }
    assert(ascii_upper_seq(sub) =~= l@);
    true
}

/// The decimal digit for a value below ten.
pub open spec fn digit_char(d: nat) -> char {
    if d == 0 {
        '0'
    } else if d == 1 {
        '1'
    } else if d == 2 {
        '2'
    } else if d == 3 {
        '3'
    } else if d == 4 {
        '4'
    } else if d == 5 {
        '5'
    } else if d == 6 {
        '6'
    } else if d == 7 {
        '7'
    } else if d == 8 {
        '8'
    } else {
        '9'
    }
}

/// The decimal text of a number, without leading zeros.
pub open spec fn decimal_text(n: nat) -> Seq<char>
    decreases n,
{
    if n < 10 {
        seq![digit_char(n)]
    } else {
        decimal_text(n / 10).push(digit_char(n % 10))
    }
}

/// `n.to_string()` for a 32-bit number.
pub fn u32_decimal(n: u32) -> (r: String)
    ensures
        r@ == decimal_text(n as nat),
    decreases n,
{
    if n < 10 {
        let mut s = String::new();
        s.push(digit_of(n));
        assert(s@ =~= decimal_text(n as nat));
        s
    } else {
        let mut s = u32_decimal(n / 10);
        s.push(digit_of(n % 10));
        assert(s@ =~= decimal_text(n as nat));
        s
    }
}

fn digit_of(d: u32) -> (r: char)
    requires
        d < 10,
    ensures
        r == digit_char(d as nat),
{
    if d == 0 {
        '0'
    } else if d == 1 {
        '1'
    } else if d == 2 {
        '2'
    } else if d == 3 {
        '3'
    } else if d == 4 {
        '4'
    } else if d == 5 {
        '5'
    } else if d == 6 {
        '6'
    } else if d == 7 {
        '7'
    } else if d == 8 {
        '8'
    } else {
        '9'
    }
}

} // verus!
