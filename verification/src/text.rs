//! Character-sequence helpers shared by the parsers and widgets.
//!
//! Strings are handled as sequences of `char`; the spec functions here say what
//! trimming, splitting, line breaking and number parsing mean on such sequences.

use vstd::prelude::*;

verus! {

// ---------------------------------------------------------------------------
// Character classes
// ---------------------------------------------------------------------------

/// The Unicode `White_Space` property (the set that `char::is_whitespace` tests).
pub open spec fn is_ws(c: char) -> bool {
    let u = c as u32;
    (0x9 <= u <= 0xD) || u == 0x20 || u == 0x85 || u == 0xA0 || u == 0x1680 || (0x2000 <= u
        <= 0x200A) || u == 0x2028 || u == 0x2029 || u == 0x202F || u == 0x205F || u == 0x3000
}

/// Tests whether `c` has the Unicode `White_Space` property.
pub fn is_whitespace(c: char) -> (b: bool)
    ensures
        b == is_ws(c),
{
    let u = c as u32;
    (0x9 <= u && u <= 0xD) || u == 0x20 || u == 0x85 || u == 0xA0 || u == 0x1680 || (0x2000 <= u
        && u <= 0x200A) || u == 0x2028 || u == 0x2029 || u == 0x202F || u == 0x205F || u == 0x3000
}

pub open spec fn is_ascii_char(c: char) -> bool {
    (c as u32) < 0x80
}

pub open spec fn all_ascii(s: Seq<char>) -> bool {
    forall|i: int| 0 <= i < s.len() ==> is_ascii_char(#[trigger] s[i])
}

/// ASCII lower-casing of one character: `A`..`Z` map to `a`..`z`, the rest is kept.
pub open spec fn ascii_lower(c: char) -> char {
    if 'A' <= c && c <= 'Z' {
        ((c as u32) + 32) as char
    } else {
        c
    }
}

pub open spec fn ascii_lower_seq(s: Seq<char>) -> Seq<char> {
    s.map_values(|c: char| ascii_lower(c))
}

/// Number of bytes of `c` in UTF-8.
pub open spec fn utf8_len(c: char) -> nat {
    let u = c as u32;
    if u < 0x80 {
        1
    } else if u < 0x800 {
        2
    } else if u < 0x10000 {
        3
    } else {
        4
    }
}

/// Number of bytes of `s` in UTF-8.
pub open spec fn utf8_bytes(s: Seq<char>) -> nat
    decreases s.len(),
{
    if s.len() == 0 {
        0
    } else {
        utf8_bytes(s.drop_last()) + utf8_len(s.last())
    }
}

// ---------------------------------------------------------------------------
// Building strings
// ---------------------------------------------------------------------------

/// Appends one character to a `String` (`String::push`).
#[verifier::external_body]
pub(crate) fn push_char(s: &mut String, c: char)
    ensures
        final(s)@ == old(s)@.push(c),
{
    s.push(c);
}

/// Returns the characters of a string slice, in order.
pub fn chars_of(s: &str) -> (out: Vec<char>)
    ensures
        out@ == s@,
{
    let mut out: Vec<char> = Vec::new();
    for c in it: s.chars()
        invariant
            out@ == it.seq().take(it.index() as int),
            it.seq() == s@,
    {
        out.push(c);
    }
    out
}

/// An owned copy of a string slice.
pub fn owned(s: &str) -> (r: String)
    ensures
        r@ == s@,
{
    s.to_owned()
}

/// Builds a `String` from a slice of characters.
pub fn string_from(cs: &[char]) -> (s: String)
    ensures
        s@ == cs@,
{
    let mut s = String::new();
    let mut i: usize = 0;
    while i < cs.len()
        invariant
            i <= cs.len(),
            s@ == cs@.take(i as int),
        decreases cs.len() - i,
    {
        push_char(&mut s, cs[i]);
        i = i + 1;
        assert(s@ == cs@.take(i as int));
    }
    assert(cs@.take(cs.len() as int) == cs@);
    s
}

/// Builds a `String` from a sub-range of a slice of characters.
pub fn string_from_range(cs: &[char], start: usize, end: usize) -> (s: String)
    requires
        start <= end <= cs.len(),
    ensures
        s@ == cs@.subrange(start as int, end as int),
{
    let mut s = String::new();
    let mut i: usize = start;
    while i < end
        invariant
            start <= i <= end <= cs.len(),
            s@ == cs@.subrange(start as int, i as int),
        decreases end - i,
    {
        push_char(&mut s, cs[i]);
        i = i + 1;
        assert(s@ == cs@.subrange(start as int, i as int));
    }
    s
}

/// Appends the characters of `t` to `s`.
pub fn push_str(s: &mut String, t: &str)
    ensures
        final(s)@ == old(s)@ + t@,
{
    let cs = chars_of(t);
    let mut i: usize = 0;
    while i < cs.len()
        invariant
            i <= cs.len(),
            cs@ == t@,
            s@ == old(s)@ + cs@.take(i as int),
        decreases cs.len() - i,
    {
        push_char(s, cs[i]);
        i = i + 1;
        assert(s@ == old(s)@ + cs@.take(i as int));
    }
    assert(cs@.take(cs.len() as int) == cs@);
}

/// Lower-cases a string slice (`str::to_lowercase`).
pub uninterp spec fn lowercase(s: Seq<char>) -> Seq<char>;

/// Calls `str::to_lowercase`. Its result is named `lowercase`; the one fact stated
/// beside the name is that on ASCII text it is ASCII lower-casing (the Unicode
/// lowercase mapping of an ASCII character is its ASCII lowercase). What it does
/// to other characters is not stated.
#[verifier::external_body]
pub(crate) fn to_lowercase(s: &str) -> (r: String)
    ensures
        r@ == lowercase(s@),
        all_ascii(s@) ==> r@ == ascii_lower_seq(s@),
{
    s.to_lowercase()
}

/// Equality of two character sequences.
pub fn chars_eq(a: &[char], b: &[char]) -> (r: bool)
    ensures
        r == (a@ == b@),
{
    if a.len() != b.len() {
        return false;
    }
    let mut i: usize = 0;
    while i < a.len()
        invariant
            a.len() == b.len(),
            i <= a.len(),
            forall|j: int| 0 <= j < i ==> a@[j] == b@[j],
        decreases a.len() - i,
    {
        if a[i] != b[i] {
            return false;
        }
        i = i + 1;
    }
    assert(a@ == b@);
    true
}

/// Equality of a character sequence and a string slice.
pub fn chars_eq_str(a: &[char], b: &str) -> (r: bool)
    ensures
        r == (a@ == b@),
{
    let bc = chars_of(b);
    chars_eq(a, bc.as_slice())
}

// ---------------------------------------------------------------------------
// Trimming
// ---------------------------------------------------------------------------

/// Number of leading white-space characters.
pub open spec fn lead_ws(s: Seq<char>) -> nat
    decreases s.len(),
{
    if s.len() > 0 && is_ws(s[0]) {
        1 + lead_ws(s.drop_first())
    } else {
        0
    }
}

/// Number of trailing white-space characters.
pub open spec fn trail_ws(s: Seq<char>) -> nat
    decreases s.len(),
{
    if s.len() > 0 && is_ws(s.last()) {
        1 + trail_ws(s.drop_last())
    } else {
        0
    }
}

/// `str::trim`: the sequence without leading and trailing white space.
pub open spec fn trim(s: Seq<char>) -> Seq<char> {
    let r = s.skip(lead_ws(s) as int);
    r.take(r.len() - trail_ws(r))
}

pub proof fn lemma_lead_ws_bound(s: Seq<char>)
    ensures
        lead_ws(s) <= s.len(),
        forall|j: int| 0 <= j < lead_ws(s) ==> is_ws(#[trigger] s[j]),
        lead_ws(s) < s.len() ==> !is_ws(s[lead_ws(s) as int]),
    decreases s.len(),
{
    if s.len() > 0 && is_ws(s[0]) {
        lemma_lead_ws_bound(s.drop_first());
        assert forall|j: int| 0 <= j < lead_ws(s) implies is_ws(#[trigger] s[j]) by {
            if j > 0 {
                assert(s[j] == s.drop_first()[j - 1]);
            }
        }
    }
}

pub proof fn lemma_trail_ws_bound(s: Seq<char>)
    ensures
        trail_ws(s) <= s.len(),
        forall|j: int| s.len() - trail_ws(s) <= j < s.len() ==> is_ws(#[trigger] s[j]),
        trail_ws(s) < s.len() ==> !is_ws(s[s.len() - trail_ws(s) - 1]),
    decreases s.len(),
{
    if s.len() > 0 && is_ws(s.last()) {
        lemma_trail_ws_bound(s.drop_last());
        assert forall|j: int| s.len() - trail_ws(s) <= j < s.len() implies is_ws(#[trigger] s[j]) by {
            if j < s.len() - 1 {
                assert(s[j] == s.drop_last()[j]);
            }
        }
    }
}

/// The count of leading white space equals the position of the first other character.
pub proof fn lemma_lead_ws_is(s: Seq<char>, k: int)
    requires
        0 <= k <= s.len(),
        forall|j: int| 0 <= j < k ==> is_ws(#[trigger] s[j]),
        k < s.len() ==> !is_ws(s[k]),
    ensures
        lead_ws(s) == k,
    decreases s.len(),
{
    if k > 0 {
        assert(is_ws(s[0]));
        assert forall|j: int| 0 <= j < k - 1 implies is_ws(#[trigger] s.drop_first()[j]) by {
            assert(s.drop_first()[j] == s[j + 1]);
        }
        if k < s.len() {
            assert(s.drop_first()[k - 1] == s[k]);
        }
        lemma_lead_ws_is(s.drop_first(), k - 1);
    }
}

pub proof fn lemma_trail_ws_is(s: Seq<char>, k: int)
    requires
        0 <= k <= s.len(),
        forall|j: int| s.len() - k <= j < s.len() ==> is_ws(#[trigger] s[j]),
        k < s.len() ==> !is_ws(s[s.len() - k - 1]),
    ensures
        trail_ws(s) == k,
    decreases s.len(),
{
    if k > 0 {
        assert(is_ws(s[s.len() - 1]));
        let t = s.drop_last();
        assert forall|j: int| t.len() - (k - 1) <= j < t.len() implies is_ws(#[trigger] t[j]) by {
            assert(t[j] == s[j]);
        }
        if k < s.len() {
            assert(t[t.len() - (k - 1) - 1] == s[s.len() - k - 1]);
        }
        lemma_trail_ws_is(t, k - 1);
    }
}

/// Bounds `(start, end)` of `trim(s)` inside `s`.
pub fn trim_bounds(s: &[char]) -> (r: (usize, usize))
    ensures
        r.0 <= r.1 <= s.len(),
        s@.subrange(r.0 as int, r.1 as int) == trim(s@),
{
    let mut a: usize = 0;
    while a < s.len() && is_whitespace(s[a])
        invariant
            a <= s.len(),
            forall|j: int| 0 <= j < a ==> is_ws(#[trigger] s@[j]),
        decreases s.len() - a,
    {
        a = a + 1;
    }
    proof {
        lemma_lead_ws_is(s@, a as int);
    }
    let mut b: usize = s.len();
    while b > a && is_whitespace(s[b - 1])
        invariant
            a <= b <= s.len(),
            forall|j: int| b <= j < s.len() ==> is_ws(#[trigger] s@[j]),
        decreases b,
    {
        b = b - 1;
    }
    proof {
        let r = s@.skip(a as int);
        let k = (s.len() - b) as int;
        assert forall|j: int| r.len() - k <= j < r.len() implies is_ws(#[trigger] r[j]) by {
            assert(r[j] == s@[j + a]);
        }
        if k < r.len() {
            assert(r[r.len() - k - 1] == s@[b - 1]);
        }
        lemma_trail_ws_is(r, k);
        assert(s@.subrange(a as int, b as int) == r.take(r.len() - k));
    }
    (a, b)
}

/// `str::trim` on characters.
pub fn trim_chars(s: &[char]) -> (r: Vec<char>)
    ensures
        r@ == trim(s@),
{
    let (a, b) = trim_bounds(s);
    let mut r: Vec<char> = Vec::new();
    let mut i = a;
    while i < b
        invariant
            a <= i <= b <= s.len(),
            r@ == s@.subrange(a as int, i as int),
        decreases b - i,
    {
        r.push(s[i]);
        i = i + 1;
        assert(r@ == s@.subrange(a as int, i as int));
    }
    r
}

// ---------------------------------------------------------------------------
// Splitting
// ---------------------------------------------------------------------------

/// Position of the first `c` in `s`, or -1.
pub open spec fn index_of(s: Seq<char>, c: char) -> int
    decreases s.len(),
{
    if s.len() == 0 {
        -1
    } else if s[0] == c {
        0
    } else {
        let r = index_of(s.drop_first(), c);
        if r < 0 {
            -1
        } else {
            r + 1
        }
    }
}

/// `str::split(c)`: the pieces between occurrences of `c` (empty pieces included).
pub open spec fn split(s: Seq<char>, c: char) -> Seq<Seq<char>>
    decreases s.len(),
{
    let i = index_of(s, c);
    if i < 0 {
        seq![s]
    } else {
        proof {
            lemma_index_of_props(s, c);
        }
        seq![s.take(i)] + split(s.skip(i + 1), c)
    }
}

pub proof fn lemma_index_of_props(s: Seq<char>, c: char)
    ensures
        -1 <= index_of(s, c) < s.len(),
        index_of(s, c) >= 0 ==> s[index_of(s, c)] == c,
        forall|j: int|
            0 <= j < (if index_of(s, c) < 0 {
                s.len() as int
            } else {
                index_of(s, c)
            }) ==> #[trigger] s[j] != c,
    decreases s.len(),
{
    if s.len() > 0 && s[0] != c {
        lemma_index_of_props(s.drop_first(), c);
        let r = index_of(s.drop_first(), c);
        assert forall|j: int|
            0 <= j < (if index_of(s, c) < 0 {
                s.len() as int
            } else {
                index_of(s, c)
            }) implies #[trigger] s[j] != c by {
            if j > 0 {
                assert(s[j] == s.drop_first()[j - 1]);
            }
        }
    }
}

/// `index_of` is the first position holding `c`.
pub proof fn lemma_index_of_is(s: Seq<char>, c: char, k: int)
    requires
        0 <= k <= s.len(),
        forall|j: int| 0 <= j < k ==> #[trigger] s[j] != c,
        k < s.len() ==> s[k] == c,
    ensures
        index_of(s, c) == (if k == s.len() {
            -1
        } else {
            k
        }),
    decreases s.len(),
{
    if s.len() > 0 && k > 0 {
        assert forall|j: int| 0 <= j < k - 1 implies #[trigger] s.drop_first()[j] != c by {
            assert(s.drop_first()[j] == s[j + 1]);
        }
        if k < s.len() {
            assert(s.drop_first()[k - 1] == s[k]);
        }
        lemma_index_of_is(s.drop_first(), c, k - 1);
    }
}

/// Splits `s` at every occurrence of `c`, keeping empty pieces; each piece is
/// returned as a `(start, end)` pair of positions in `s`.
pub fn split_bounds(s: &[char], c: char) -> (r: Vec<(usize, usize)>)
    ensures
        r@.len() == split(s@, c).len(),
        forall|i: int|
            0 <= i < r@.len() ==> {
                &&& (#[trigger] r@[i]).0 <= r@[i].1 <= s.len()
                &&& s@.subrange(r@[i].0 as int, r@[i].1 as int) == split(s@, c)[i]
            },
{
    let mut r: Vec<(usize, usize)> = Vec::new();
    let mut start: usize = 0;
    let mut k: usize = 0;
    let ghost full = split(s@, c);
    assert(s@.skip(0) == s@);
    while k < s.len()
        invariant
            start <= k <= s.len(),
            forall|j: int| start <= j < k ==> #[trigger] s@[j] != c,
            r@.len() + split(s@.skip(start as int), c).len() == full.len(),
            forall|i: int|
                0 <= i < r@.len() ==> {
                    &&& (#[trigger] r@[i]).0 <= r@[i].1 <= s.len()
                    &&& s@.subrange(r@[i].0 as int, r@[i].1 as int) == full[i]
                },
            forall|i: int|
                0 <= i < split(s@.skip(start as int), c).len() ==> full[r@.len() + i] == #[trigger] split(
                    s@.skip(start as int),
                    c,
                )[i],
            full == split(s@, c),
        decreases s.len() - k,
    {
        if s[k] == c {
            let ghost rest = s@.skip(start as int);
            proof {
                lemma_index_of_is(rest, c, (k - start) as int);
                assert forall|j: int| 0 <= j < (k - start) implies #[trigger] rest[j] != c by {
                    assert(rest[j] == s@[j + start]);
                }
                lemma_index_of_is(rest, c, (k - start) as int);
                assert(rest.skip((k - start) as int + 1) == s@.skip(k + 1));
                assert(rest.take((k - start) as int) == s@.subrange(start as int, k as int));
                assert(split(rest, c) == seq![rest.take((k - start) as int)] + split(
                    s@.skip(k + 1),
                    c,
                ));
                assert(split(rest, c)[0] == s@.subrange(start as int, k as int));
                assert forall|i: int| 0 <= i < split(s@.skip(k + 1), c).len() implies full[r@.len()
                    + 1 + i] == #[trigger] split(s@.skip(k + 1), c)[i] by {
                    assert(split(rest, c)[i + 1] == split(s@.skip(k + 1), c)[i]);
                }
            }
            r.push((start, k));
            start = k + 1;
        }
        k = k + 1;
    }
    proof {
        let rest = s@.skip(start as int);
        assert forall|j: int| 0 <= j < rest.len() implies #[trigger] rest[j] != c by {
            assert(rest[j] == s@[j + start]);
        }
        lemma_index_of_is(rest, c, rest.len() as int);
        assert(split(rest, c) == seq![rest]);
        assert(split(rest, c)[0] == rest);
        assert(full[r@.len() as int] == rest);
        assert(rest == s@.subrange(start as int, s.len() as int));
    }
    r.push((start, s.len()));
    r
}

/// Number of leading non-white-space characters.
pub open spec fn word_len(s: Seq<char>) -> nat
    decreases s.len(),
{
    if s.len() > 0 && !is_ws(s[0]) {
        1 + word_len(s.drop_first())
    } else {
        0
    }
}

pub proof fn lemma_word_len_bound(s: Seq<char>)
    ensures
        word_len(s) <= s.len(),
    decreases s.len(),
{
    if s.len() > 0 && !is_ws(s[0]) {
        lemma_word_len_bound(s.drop_first());
    }
}

/// `str::split_whitespace`: the maximal runs of non-white-space characters.
pub open spec fn words(s: Seq<char>) -> Seq<Seq<char>>
    decreases s.len(),
{
    let t = s.skip(lead_ws(s) as int);
    if lead_ws(s) >= s.len() {
        seq![]
    } else if word_len(t) == 0 {
        seq![]
    } else {
        proof {
            lemma_lead_ws_bound(s);
            lemma_word_len_bound(t);
        }
        seq![t.take(word_len(t) as int)] + words(t.skip(word_len(t) as int))
    }
}

pub proof fn lemma_word_len_is(s: Seq<char>, k: int)
    requires
        0 <= k <= s.len(),
        forall|j: int| 0 <= j < k ==> !is_ws(#[trigger] s[j]),
        k < s.len() ==> is_ws(s[k]),
    ensures
        word_len(s) == k,
    decreases s.len(),
{
    if k > 0 {
        assert(!is_ws(s[0]));
        assert forall|j: int| 0 <= j < k - 1 implies !is_ws(#[trigger] s.drop_first()[j]) by {
            assert(s.drop_first()[j] == s[j + 1]);
        }
        if k < s.len() {
            assert(s.drop_first()[k - 1] == s[k]);
        }
        lemma_word_len_is(s.drop_first(), k - 1);
    }
}

/// A word followed by white space (or by nothing) is the first word, the
/// rest's words following it.
pub proof fn lemma_words_first(a: Seq<char>, rest: Seq<char>)
    requires
        a.len() >= 1,
        forall|i: int| 0 <= i < a.len() ==> !is_ws(#[trigger] a[i]),
        rest.len() > 0 ==> is_ws(rest[0]),
    ensures
        words(a + rest) == seq![a] + words(rest),
{
    let s = a + rest;
    assert(s[0] == a[0]);
    lemma_lead_ws_is(s, 0);
    assert(s.skip(0) =~= s);
    assert forall|j: int| 0 <= j < a.len() implies !is_ws(#[trigger] s[j]) by {
        assert(s[j] == a[j]);
    }
    if a.len() < s.len() {
        assert(s[a.len() as int] == rest[0]);
    }
    lemma_word_len_is(s, a.len() as int);
    assert(s.take(a.len() as int) =~= a);
    assert(s.skip(a.len() as int) =~= rest);
}

/// A leading space does not change the words.
pub proof fn lemma_words_space(x: Seq<char>)
    ensures
        words(seq![' '] + x) == words(x),
{
    let s = seq![' '] + x;
    assert(is_ws(s[0]));
    assert(s.drop_first() =~= x);
    assert(lead_ws(s) == 1 + lead_ws(x));
    lemma_lead_ws_bound(x);
    assert(s.skip(lead_ws(s) as int) =~= x.skip(lead_ws(x) as int));
}

/// Text without anything in it has no words.
pub proof fn lemma_words_empty()
    ensures
        words(Seq::<char>::empty()).len() == 0,
{
}

/// `str::split_whitespace`, each word returned as `(start, end)` positions in `s`.
pub fn word_bounds(s: &[char]) -> (r: Vec<(usize, usize)>)
    ensures
        r@.len() == words(s@).len(),
        forall|i: int|
            0 <= i < r@.len() ==> {
                &&& (#[trigger] r@[i]).0 <= r@[i].1 <= s.len()
                &&& s@.subrange(r@[i].0 as int, r@[i].1 as int) == words(s@)[i]
            },
{
    let mut r: Vec<(usize, usize)> = Vec::new();
    let mut pos: usize = 0;
    let ghost full = words(s@);
    assert(s@.skip(0) == s@);
    while pos < s.len()
        invariant
            pos <= s.len(),
            r@.len() + words(s@.skip(pos as int)).len() == full.len(),
            forall|i: int|
                0 <= i < r@.len() ==> {
                    &&& (#[trigger] r@[i]).0 <= r@[i].1 <= s.len()
                    &&& s@.subrange(r@[i].0 as int, r@[i].1 as int) == full[i]
                },
            forall|i: int|
                0 <= i < words(s@.skip(pos as int)).len() ==> full[r@.len() + i]
                    == #[trigger] words(s@.skip(pos as int))[i],
            full == words(s@),
        decreases s.len() - pos,
    {
        let ghost rest = s@.skip(pos as int);
        let mut a = pos;
        while a < s.len() && is_whitespace(s[a])
            invariant
                pos <= a <= s.len(),
                forall|j: int| pos <= j < a ==> is_ws(#[trigger] s@[j]),
            decreases s.len() - a,
        {
            a = a + 1;
        }
        proof {
            assert forall|j: int| 0 <= j < (a - pos) implies is_ws(#[trigger] rest[j]) by {
                assert(rest[j] == s@[j + pos]);
            }
            if a < s.len() {
                assert(rest[(a - pos) as int] == s@[a as int]);
            }
            lemma_lead_ws_is(rest, (a - pos) as int);
        }
        if a == s.len() {
            proof {
                assert(words(rest) == Seq::<Seq<char>>::empty());
                assert(s@.skip(s.len() as int) =~= Seq::<char>::empty());
                assert(words(Seq::<char>::empty()) == Seq::<Seq<char>>::empty());
            }
            pos = a;
        } else {
            let mut b = a;
            while b < s.len() && !is_whitespace(s[b])
                invariant
                    a <= b <= s.len(),
                    forall|j: int| a <= j < b ==> !is_ws(#[trigger] s@[j]),
                decreases s.len() - b,
            {
                b = b + 1;
            }
            proof {
                let t = rest.skip((a - pos) as int);
                assert(t == s@.skip(a as int));
                assert forall|j: int| 0 <= j < (b - a) implies !is_ws(#[trigger] t[j]) by {
                    assert(t[j] == s@[j + a]);
                }
                if b < s.len() {
                    assert(t[(b - a) as int] == s@[b as int]);
                }
                lemma_word_len_is(t, (b - a) as int);
                assert(t.skip((b - a) as int) == s@.skip(b as int));
                assert(t.take((b - a) as int) == s@.subrange(a as int, b as int));
                assert(words(rest) == seq![s@.subrange(a as int, b as int)] + words(
                    s@.skip(b as int),
                ));
                assert forall|i: int| 0 <= i < words(s@.skip(b as int)).len() implies full[r@.len()
                    + 1 + i] == #[trigger] words(s@.skip(b as int))[i] by {
                    assert(words(rest)[i + 1] == words(s@.skip(b as int))[i]);
                }
                assert(full[r@.len() as int] == words(rest)[0]);
            }
            r.push((a, b));
            pos = b;
        }
    }
    proof {
        assert(s@.skip(pos as int) =~= Seq::<char>::empty());
        assert(words(Seq::<char>::empty()) == Seq::<Seq<char>>::empty());
    }
    r
}

// ---------------------------------------------------------------------------
// Lines
// ---------------------------------------------------------------------------

/// A piece of text without one trailing carriage return.
pub open spec fn strip_cr(s: Seq<char>) -> Seq<char> {
    if s.len() > 0 && s.last() == '\r' {
        s.drop_last()
    } else {
        s
    }
}

/// `str::lines`: the text split at `\n` (a `\r` right before the `\n` belongs to
/// the line ending); a final line ending yields no extra empty line.
pub open spec fn lines(s: Seq<char>) -> Seq<Seq<char>> {
    let p = split(s, '\n');
    let body = p.take(p.len() - 1).map_values(|l: Seq<char>| strip_cr(l));
    if p.last().len() == 0 {
        body
    } else {
        body.push(p.last())
    }
}

pub proof fn lemma_split_nonempty(s: Seq<char>, c: char)
    ensures
        split(s, c).len() >= 1,
    decreases s.len(),
{
    lemma_index_of_props(s, c);
    let i = index_of(s, c);
    if i >= 0 {
        lemma_split_nonempty(s.skip(i + 1), c);
    }
}

/// The lines of `s`, each as `(start, end)` positions in `s`.
pub fn line_bounds(s: &[char]) -> (r: Vec<(usize, usize)>)
    ensures
        r@.len() == lines(s@).len(),
        forall|i: int|
            0 <= i < r@.len() ==> {
                &&& (#[trigger] r@[i]).0 <= r@[i].1 <= s.len()
                &&& s@.subrange(r@[i].0 as int, r@[i].1 as int) == lines(s@)[i]
            },
{
    let pieces = split_bounds(s, '\n');
    proof {
        lemma_split_nonempty(s@, '\n');
    }
    let ghost p = split(s@, '\n');
    let n = pieces.len();
    let mut r: Vec<(usize, usize)> = Vec::new();
    let mut i: usize = 0;
    while i + 1 < n
        invariant
            n == pieces@.len() == p.len(),
            n >= 1,
            i <= n - 1,
            r@.len() == i,
            forall|k: int|
                0 <= k < pieces@.len() ==> {
                    &&& (#[trigger] pieces@[k]).0 <= pieces@[k].1 <= s.len()
                    &&& s@.subrange(pieces@[k].0 as int, pieces@[k].1 as int) == p[k]
                },
            forall|k: int|
                0 <= k < i ==> {
                    &&& (#[trigger] r@[k]).0 <= r@[k].1 <= s.len()
                    &&& s@.subrange(r@[k].0 as int, r@[k].1 as int) == strip_cr(p[k])
                },
        decreases n - i,
    {
        let (a, b) = pieces[i];
        let ghost piece = p[i as int];
        assert(s@.subrange(a as int, b as int) == piece);
        if b > a && s[b - 1] == '\r' {
            assert(piece.last() == s@[b - 1]);
            assert(s@.subrange(a as int, (b - 1) as int) == piece.drop_last());
            r.push((a, b - 1));
        } else {
            r.push((a, b));
        }
        i = i + 1;
    }
    let (a, b) = pieces[n - 1];
    proof {
        let body = p.take(p.len() - 1).map_values(|l: Seq<char>| strip_cr(l));
        assert(body.len() == r@.len());
        assert(p.last() == s@.subrange(a as int, b as int));
    }
    if b > a {
        r.push((a, b));
    }
    proof {
        let body = p.take(p.len() - 1).map_values(|l: Seq<char>| strip_cr(l));
        assert(lines(s@) == (if p.last().len() == 0 {
            body
        } else {
            body.push(p.last())
        }));
        assert forall|k: int| 0 <= k < r@.len() implies s@.subrange(
            (#[trigger] r@[k]).0 as int,
            r@[k].1 as int,
        ) == lines(s@)[k] by {
            if k < body.len() {
                assert(body[k] == strip_cr(p[k]));
            }
        }
    }
    r
}

/// `s` with `c` inserted before character `i`.
pub fn insert_char_at(s: &str, i: usize, c: char) -> (r: String)
    requires
        i <= s@.len(),
    ensures
        r@ == s@.insert(i as int, c),
{
    let cs = chars_of(s);
    let mut r = string_from_range(cs.as_slice(), 0, i);
    push_char(&mut r, c);
    let tail = string_from_range(cs.as_slice(), i, cs.len());
    push_str(&mut r, tail.as_str());
    proof {
        assert(r@ =~= s@.insert(i as int, c));
    }
    r
}

/// `s` without the characters from `a` up to `b`.
pub fn remove_chars(s: &str, a: usize, b: usize) -> (r: String)
    requires
        a <= b <= s@.len(),
    ensures
        r@ == s@.subrange(0, a as int) + s@.subrange(b as int, s@.len() as int),
{
    let cs = chars_of(s);
    let mut r = string_from_range(cs.as_slice(), 0, a);
    let tail = string_from_range(cs.as_slice(), b, cs.len());
    push_str(&mut r, tail.as_str());
    r
}

/// The decimal digits of `n`.
pub open spec fn decimal_text(n: nat) -> Seq<char>
    decreases n,
{
    if n < 10 {
        seq![digit_char(n)]
    } else {
        decimal_text(n / 10).push(digit_char(n % 10))
    }
}

/// The character of decimal digit `d`.
pub open spec fn digit_char(d: nat) -> char {
    (48 + d) as char
}

/// The decimal text of `n` is a non-empty run of the digits `0` to `9` whose
/// value is `n`.
pub proof fn lemma_decimal_text_value(n: nat)
    ensures
        decimal_text(n).len() >= 1,
        forall|i: int| 0 <= i < decimal_text(n).len() ==> '0' <= #[trigger] decimal_text(n)[i] <= '9',
        all_digits(decimal_text(n), 10),
        digits_value(decimal_text(n), 10) == n,
    decreases n,
{
    let s = decimal_text(n);
    if n >= 10 {
        lemma_decimal_text_value(n / 10);
        let p = decimal_text(n / 10);
        assert(s == p.push(digit_char(n % 10)));
        assert(s.drop_last() == p);
        assert forall|i: int| 0 <= i < s.len() implies '0' <= #[trigger] s[i] <= '9' by {
            if i < p.len() {
                assert(s[i] == p[i]);
            }
        }
        assert(s.last() == digit_char(n % 10));
        assert(digit_value(s.last(), 10) == Some((n % 10) as nat));
        assert(digit_value(s.last(), 10).unwrap_or(0) == n % 10);
        assert(digits_value(p, 10) == n / 10);
        assert(digits_value(s, 10) == digits_value(s.drop_last(), 10) * 10 + digit_value(s.last(), 10).unwrap_or(0));
        assert((n / 10) * 10 + n % 10 == n);
    } else {
        assert(s == seq![digit_char(n)]);
        assert(s.drop_last() =~= Seq::<char>::empty());
        assert(digit_value(s.last(), 10) == Some(n));
        assert(digits_value(s, 10) == digits_value(s.drop_last(), 10) * 10 + digit_value(s.last(), 10).unwrap_or(0));
    }
    assert forall|i: int| 0 <= i < s.len() implies (#[trigger] digit_value(s[i], 10)).is_some() by {
        assert('0' <= s[i] <= '9');
    }
}

/// Appends the decimal digits of `n` to `s`.
pub fn push_decimal(s: &mut String, n: u64)
    ensures
        final(s)@ == old(s)@ + decimal_text(n as nat),
    decreases n,
{
    if n >= 10 {
        push_decimal(s, n / 10);
    }
    let d = (n % 10) as u8;
    let c = (48u8 + d) as char;
    proof {
        assert(c == digit_char((n % 10) as nat));
    }
    push_char(s, c);
}

/// The lines of `s` (see `lines`), each as an owned `String`.
pub fn text_lines(s: &str) -> (v: Vec<String>)
    ensures
        v@.len() == lines(s@).len(),
        forall|i: int| 0 <= i < v@.len() ==> (#[trigger] v@[i])@ == lines(s@)[i],
{
    let cs = chars_of(s);
    let bounds = line_bounds(cs.as_slice());
    let n = bounds.len();
    let mut v: Vec<String> = Vec::new();
    let mut i: usize = 0;
    while i < n
        invariant
            n == bounds@.len() == lines(cs@).len(),
            cs@ == s@,
            i <= n,
            v@.len() == i,
            forall|k: int| 0 <= k < i ==> (#[trigger] v@[k])@ == lines(s@)[k],
            forall|j: int|
                0 <= j < bounds@.len() ==> {
                    &&& (#[trigger] bounds@[j]).0 <= bounds@[j].1 <= cs@.len()
                    &&& cs@.subrange(bounds@[j].0 as int, bounds@[j].1 as int) == lines(cs@)[j]
                },
        decreases n - i,
    {
        let (a, b) = bounds[i];
        let line = string_from_range(cs.as_slice(), a, b);
        v.push(line);
        i = i + 1;
    }
    v
}

// ---------------------------------------------------------------------------
// Unsigned integers (`from_str_radix` / `str::parse` for unsigned types)
// ---------------------------------------------------------------------------

/// Value of one digit in `radix` (`0-9`, then `a-z`/`A-Z` for 10 and up).
pub open spec fn digit_value(c: char, radix: nat) -> Option<nat> {
    let u = c as u32;
    let d: int = if '0' <= c && c <= '9' {
        u - 0x30
    } else if 'a' <= c && c <= 'z' {
        u - 0x61 + 10
    } else if 'A' <= c && c <= 'Z' {
        u - 0x41 + 10
    } else {
        -1
    };
    if 0 <= d < radix {
        Some(d as nat)
    } else {
        None
    }
}

pub open spec fn all_digits(s: Seq<char>, radix: nat) -> bool {
    forall|i: int| 0 <= i < s.len() ==> (#[trigger] digit_value(s[i], radix)).is_some()
}

/// Value of a sequence of digits, most significant first.
pub open spec fn digits_value(s: Seq<char>, radix: nat) -> nat
    decreases s.len(),
{
    if s.len() == 0 {
        0
    } else {
        digits_value(s.drop_last(), radix) * radix + digit_value(s.last(), radix).unwrap_or(0)
    }
}

/// What `from_str_radix` gives for an unsigned type whose largest value is `max`:
/// an optional `+`, then at least one digit, and a value that fits.
pub open spec fn parse_uint(s: Seq<char>, radix: nat, max: nat) -> Option<nat> {
    let d = if s.len() > 0 && s[0] == '+' {
        s.drop_first()
    } else {
        s
    };
    if d.len() == 0 || !all_digits(d, radix) || digits_value(d, radix) > max {
        None
    } else {
        Some(digits_value(d, radix))
    }
}

fn digit_of(c: char, radix: u32) -> (r: Option<u32>)
    requires
        2 <= radix <= 36,
    ensures
        r.is_some() == digit_value(c, radix as nat).is_some(),
        r.is_some() ==> r.unwrap() == digit_value(c, radix as nat).unwrap(),
{
    let u = c as u32;
    let d: u32 = if '0' <= c && c <= '9' {
        u - 0x30
    } else if 'a' <= c && c <= 'z' {
        u - 0x61 + 10
    } else if 'A' <= c && c <= 'Z' {
        u - 0x41 + 10
    } else {
        return None;
    };
    if d < radix {
        Some(d)
    } else {
        None
    }
}

proof fn lemma_digits_value_grows(s: Seq<char>, radix: nat)
    requires
        s.len() > 0,
        radix >= 2,
    ensures
        digits_value(s, radix) >= digits_value(s.drop_last(), radix),
{
    assert(digits_value(s.drop_last(), radix) * radix >= digits_value(s.drop_last(), radix))
        by (nonlinear_arith)
        requires
            radix >= 2,
    ;
}

/// The value of a prefix of digits never exceeds the value of the whole.
proof fn lemma_prefix_value_le(s: Seq<char>, k: int, radix: nat)
    requires
        0 <= k <= s.len(),
        radix >= 2,
    ensures
        digits_value(s.take(k), radix) <= digits_value(s, radix),
    decreases s.len() - k,
{
    if k < s.len() {
        lemma_prefix_value_le(s, k + 1, radix);
        let q = s.take(k + 1);
        assert(q.drop_last() == s.take(k));
        lemma_digits_value_grows(q, radix);
    } else {
        assert(s.take(k) == s);
    }
}

/// Parses `s[start..end]` as an unsigned number in `radix` no larger than `max`,
/// with the rules of `from_str_radix`.
pub fn parse_uint_range(s: &[char], start: usize, end: usize, radix: u32, max: u32) -> (r: Option<
    u32,
>)
    requires
        start <= end <= s.len(),
        2 <= radix <= 36,
        max <= 0xFFFF,
    ensures
        r.is_some() == parse_uint(s@.subrange(start as int, end as int), radix as nat, max as nat).is_some(),
        r.is_some() ==> r.unwrap() == parse_uint(
            s@.subrange(start as int, end as int),
            radix as nat,
            max as nat,
        ).unwrap(),
{
    let ghost t = s@.subrange(start as int, end as int);
    let mut i = start;
    if i < end && s[i] == '+' {
        i = i + 1;
    }
    let ghost d = s@.subrange(i as int, end as int);
    proof {
        if t.len() > 0 && t[0] == '+' {
            assert(d == t.drop_first());
        } else {
            assert(d == t);
        }
    }
    if i == end {
        return None;
    }
    let first = i;
    let mut acc: u32 = 0;
    while i < end
        invariant
            start <= first <= i <= end <= s.len(),
            d == s@.subrange(first as int, end as int),
            t == s@.subrange(start as int, end as int),
            d == (if t.len() > 0 && t[0] == '+' {
                t.drop_first()
            } else {
                t
            }),
            2 <= radix <= 36,
            max <= 0xFFFF,
            acc <= max,
            acc == digits_value(s@.subrange(first as int, i as int), radix as nat),
            all_digits(s@.subrange(first as int, i as int), radix as nat),
        decreases end - i,
    {
        let ghost pre = s@.subrange(first as int, (i + 1) as int);
        assert(pre.drop_last() == s@.subrange(first as int, i as int));
        match digit_of(s[i], radix) {
            None => {
                assert(!all_digits(d, radix as nat)) by {
                    assert(d[i - first] == s@[i as int]);
                    assert(digit_value(d[i - first], radix as nat).is_none());
                }
                return None;
            },
            Some(dv) => {
                assert((acc as u64) * (radix as u64) <= 0xFFFF * 36) by (nonlinear_arith)
                    requires
                        acc <= 0xFFFF,
                        radix <= 36,
                ;
                let next: u64 = (acc as u64) * (radix as u64) + (dv as u64);
                assert(next == digits_value(pre, radix as nat)) by {
                    assert(pre.last() == s@[i as int]);
                }
                if next > max as u64 {
                    proof {
                        lemma_prefix_value_le(s@.subrange(first as int, end as int), (i + 1 - first) as int, radix as nat);
                        assert(s@.subrange(first as int, end as int).take((i + 1 - first) as int) == pre);
                    }
                    return None;
                }
                acc = next as u32;
                i = i + 1;
                assert(all_digits(s@.subrange(first as int, i as int), radix as nat)) by {
                    assert forall|j: int| 0 <= j < pre.len() implies (#[trigger] digit_value(
                        pre[j],
                        radix as nat,
                    )).is_some() by {
                        if j < pre.len() - 1 {
                            assert(pre[j] == s@.subrange(first as int, (i - 1) as int)[j]);
                        }
                    }
                }
            },
        }
    }
    Some(acc)
}

} // verus!
