//! Layout size constraints of a widget.

use vstd::prelude::*;
use crate::text::{all_ascii, ascii_lower, ascii_lower_seq, chars_of, string_from};

verus! {

pub open spec fn is_sign(c: char) -> bool {
    c == '+' || c == '-'
}

pub open spec fn is_dec_digit(c: char) -> bool {
    '0' <= c && c <= '9'
}

pub open spec fn is_exp_mark(c: char) -> bool {
    c == 'e' || c == 'E'
}

/// Position of the first exponent mark, or -1.
pub open spec fn exp_index(s: Seq<char>) -> int
    decreases s.len(),
{
    if s.len() == 0 {
        -1
    } else if is_exp_mark(s[0]) {
        0
    } else {
        let r = exp_index(s.drop_first());
        if r < 0 {
            -1
        } else {
            r + 1
        }
    }
}

/// Number of `.` in `s`.
pub open spec fn count_dots(s: Seq<char>) -> nat
    decreases s.len(),
{
    if s.len() == 0 {
        0
    } else {
        count_dots(s.drop_last()) + if s.last() == '.' {
            1nat
        } else {
            0nat
        }
    }
}

/// Digits with at most one `.`, and at least one digit.
pub open spec fn mantissa_ok(m: Seq<char>) -> bool {
    &&& forall|i: int| 0 <= i < m.len() ==> is_dec_digit(#[trigger] m[i]) || m[i] == '.'
    &&& count_dots(m) <= 1
    &&& exists|i: int| 0 <= i < m.len() && is_dec_digit(#[trigger] m[i])
}

/// `x` without one leading sign.
pub open spec fn strip_sign(x: Seq<char>) -> Seq<char> {
    if x.len() > 0 && is_sign(x[0]) {
        x.drop_first()
    } else {
        x
    }
}

/// At least one character, all decimal digits.
pub open spec fn dec_digits(d: Seq<char>) -> bool {
    d.len() > 0 && forall|i: int| 0 <= i < d.len() ==> is_dec_digit(#[trigger] d[i])
}

/// An optional sign, then at least one digit.
pub open spec fn exponent_ok(x: Seq<char>) -> bool {
    dec_digits(strip_sign(x))
}

/// `( Digit+ | Digit+ '.' Digit* | Digit* '.' Digit+ ) Exp?`
pub open spec fn is_number(s: Seq<char>) -> bool {
    let e = exp_index(s);
    if e < 0 {
        mantissa_ok(s)
    } else {
        mantissa_ok(s.take(e)) && exponent_ok(s.skip(e + 1))
    }
}

/// The text accepted by `f32::from_str`, as its documentation gives the grammar:
/// `Sign? ( 'inf' | 'infinity' | 'nan' | Number )`, case-insensitive for the
/// words and for the exponent mark, without surrounding white space.
pub open spec fn is_float_literal(s: Seq<char>) -> bool {
    let b = if s.len() > 0 && is_sign(s[0]) {
        s.drop_first()
    } else {
        s
    };
    let w = ascii_lower_seq(b);
    w == seq!['i', 'n', 'f'] || w == seq!['i', 'n', 'f', 'i', 'n', 'i', 't', 'y'] || w == seq![
        'n',
        'a',
        'n',
    ] || is_number(b)
}

fn lower_ascii(c: char) -> (r: char)
    ensures
        r == ascii_lower(c),
{
    if 'A' <= c && c <= 'Z' {
        let b: u8 = (c as u32) as u8;
        let r = (b + 32) as char;
        assert(r == ((c as u32) + 32) as char);
        r
    } else {
        c
    }
}

/// Whether `s[start..]`, ASCII-lower-cased, is the word `w`.
fn lower_range_is(s: &[char], start: usize, w: &str) -> (r: bool)
    requires
        start <= s.len(),
    ensures
        r == (ascii_lower_seq(s@.skip(start as int)) == w@),
{
    let wc = chars_of(w);
    let n = s.len() - start;
    let ghost b = s@.skip(start as int);
    if n != wc.len() {
        assert(ascii_lower_seq(b).len() == n);
        return false;
    }
    let mut i: usize = 0;
    while i < n
        invariant
            n == s.len() - start,
            n == wc@.len(),
            wc@ == w@,
            b == s@.skip(start as int),
            i <= n,
            forall|j: int| 0 <= j < i ==> ascii_lower(b[j]) == wc@[j],
        decreases n - i,
    {
        if lower_ascii(s[start + i]) != wc[i] {
            assert(ascii_lower_seq(b)[i as int] != w@[i as int]);
            return false;
        }
        i = i + 1;
    }
    assert(ascii_lower_seq(b) == w@);
    true
}

proof fn lemma_exp_index_is(s: Seq<char>, k: int)
    requires
        0 <= k <= s.len(),
        forall|j: int| 0 <= j < k ==> !is_exp_mark(#[trigger] s[j]),
        k < s.len() ==> is_exp_mark(s[k]),
    ensures
        exp_index(s) == (if k == s.len() {
            -1
        } else {
            k
        }),
    decreases s.len(),
{
    if s.len() > 0 && k > 0 {
        assert forall|j: int| 0 <= j < k - 1 implies !is_exp_mark(#[trigger] s.drop_first()[j]) by {
            assert(s.drop_first()[j] == s[j + 1]);
        }
        if k < s.len() {
            assert(s.drop_first()[k - 1] == s[k]);
        }
        lemma_exp_index_is(s.drop_first(), k - 1);
    }
}

/// Checks `mantissa_ok` on `s[a..b]`.
fn mantissa_ok_range(s: &[char], a: usize, b: usize) -> (r: bool)
    requires
        a <= b <= s.len(),
    ensures
        r == mantissa_ok(s@.subrange(a as int, b as int)),
{
    let ghost m = s@.subrange(a as int, b as int);
    let mut dots: usize = 0;
    let mut digits: bool = false;
    let mut i = a;
    while i < b
        invariant
            a <= i <= b <= s.len(),
            m == s@.subrange(a as int, b as int),
            forall|j: int| 0 <= j < i - a ==> is_dec_digit(#[trigger] m[j]) || m[j] == '.',
            dots == count_dots(m.take(i - a)),
            dots <= 1,
            digits == exists|j: int| 0 <= j < i - a && is_dec_digit(#[trigger] m[j]),
        decreases b - i,
    {
        let c = s[i];
        assert(m[i - a] == c);
        assert(m.take(i - a + 1).drop_last() == m.take(i - a));
        if c == '.' {
            if dots == 1 {
                proof {
                    lemma_count_dots_prefix(m, i - a + 1);
                }
                return false;
            }
            dots = dots + 1;
        } else if '0' <= c && c <= '9' {
            digits = true;
        } else {
            return false;
        }
        i = i + 1;
    }
    assert(m.take(b - a) == m);
    digits
}

proof fn lemma_count_dots_prefix(m: Seq<char>, k: int)
    requires
        0 <= k <= m.len(),
    ensures
        count_dots(m.take(k)) <= count_dots(m),
    decreases m.len() - k,
{
    if k < m.len() {
        lemma_count_dots_prefix(m, k + 1);
        assert(m.take(k + 1).drop_last() == m.take(k));
    } else {
        assert(m.take(k) == m);
    }
}

/// Checks `exponent_ok` on `s[a..]`.
fn exponent_ok_from(s: &[char], a: usize) -> (r: bool)
    requires
        a <= s.len(),
    ensures
        r == exponent_ok(s@.skip(a as int)),
{
    let ghost x = s@.skip(a as int);
    let mut i = a;
    if i < s.len() && (s[i] == '+' || s[i] == '-') {
        i = i + 1;
    }
    let ghost d = s@.skip(i as int);
    assert(d == strip_sign(x));
    if i == s.len() {
        assert(d.len() == 0);
        return false;
    }
    let start = i;
    while i < s.len()
        invariant
            start <= i <= s.len(),
            d == s@.skip(start as int),
            x == s@.skip(a as int),
            d == strip_sign(x),
            forall|j: int| 0 <= j < i - start ==> is_dec_digit(#[trigger] d[j]),
        decreases s.len() - i,
    {
        if !('0' <= s[i] && s[i] <= '9') {
            assert(d[i - start] == s@[i as int]);
            assert(!is_dec_digit(d[i - start]));
            return false;
        }
        i = i + 1;
    }
    true
}

/// Whether `s` is text that `f32::from_str` accepts.
pub fn float_literal_ok(s: &[char]) -> (r: bool)
    ensures
        r == is_float_literal(s@),
{
    let mut start: usize = 0;
    if s.len() > 0 && (s[0] == '+' || s[0] == '-') {
        start = 1;
    }
    let ghost b = s@.skip(start as int);
    assert(b == (if s@.len() > 0 && is_sign(s@[0]) {
        s@.drop_first()
    } else {
        s@
    }));
    proof {
        reveal_strlit("inf");
        reveal_strlit("infinity");
        reveal_strlit("nan");
        assert("inf"@ =~= seq!['i', 'n', 'f']);
        assert("infinity"@ =~= seq!['i', 'n', 'f', 'i', 'n', 'i', 't', 'y']);
        assert("nan"@ =~= seq!['n', 'a', 'n']);
    }
    let is_word = lower_range_is(s, start, "inf") || lower_range_is(s, start, "infinity")
        || lower_range_is(s, start, "nan");
    if is_word {
        return true;
    }
    let mut e = start;
    while e < s.len() && !(s[e] == 'e' || s[e] == 'E')
        invariant
            start <= e <= s.len(),
            forall|j: int| start <= j < e ==> !is_exp_mark(#[trigger] s@[j]),
        decreases s.len() - e,
    {
        e = e + 1;
    }
    proof {
        assert forall|j: int| 0 <= j < e - start implies !is_exp_mark(#[trigger] b[j]) by {
            assert(b[j] == s@[j + start]);
        }
        if e < s.len() {
            assert(b[e - start] == s@[e as int]);
        }
        lemma_exp_index_is(b, e - start);
    }
    if e == s.len() {
        assert(b == s@.subrange(start as int, s.len() as int));
        mantissa_ok_range(s, start, s.len())
    } else {
        assert(b.take(e - start) == s@.subrange(start as int, e as int));
        assert(b.skip(e - start + 1) == s@.skip(e + 1));
        mantissa_ok_range(s, start, e) && exponent_ok_from(s, e + 1)
    }
}

/// A flex grow factor, held as the number text that `f32::from_str` accepts.
#[derive(Debug, Clone, PartialEq, Eq)]
pub struct Flex {
    text: String,
}

impl Flex {
    pub closed spec fn view(&self) -> Seq<char> {
        self.text@
    }

    /// The text of every flex factor is a valid float literal.
    pub closed spec fn wf(&self) -> bool {
        is_float_literal(self.text@)
    }

    /// A flex factor from number text; `None` where `f32::from_str` would fail.
    pub fn parse(text: &str) -> (r: Option<Flex>)
        ensures
            r.is_some() == is_float_literal(text@),
            r.is_some() ==> r.unwrap()@ == text@ && r.unwrap().wf(),
    {
        let cs = chars_of(text);
        if float_literal_ok(cs.as_slice()) {
            Some(Flex { text: string_from(cs.as_slice()) })
        } else {
            None
        }
    }

    /// The number text.
    pub fn as_str(&self) -> (s: &str)
        ensures
            s@ == self@,
    {
        self.text.as_str()
    }

    /// The flex factor one.
    pub fn one() -> (f: Flex)
        ensures
            f@ == seq!['1', '.', '0'],
    {
        let cs = vec!['1', '.', '0'];
        Flex { text: string_from(cs.as_slice()) }
    }

    /// A copy of this factor.
    pub fn copy(&self) -> (f: Flex)
        ensures
            f == *self,
    {
        Flex { text: self.text.clone() }
    }
}

/// Size constraints of a widget, in cells.
#[derive(Debug, Clone, PartialEq, Eq)]
pub struct Constraints {
    pub min_width: u16,
    pub max_width: Option<u16>,
    pub min_height: u16,
    pub max_height: Option<u16>,
    /// Flex grow factor
    pub flex: Option<Flex>,
}

/// Constraints with the flex factor as its number text.
pub struct ConstraintsView {
    pub min_width: u16,
    pub max_width: Option<u16>,
    pub min_height: u16,
    pub max_height: Option<u16>,
    pub flex: Option<Seq<char>>,
}

impl View for Constraints {
    type V = ConstraintsView;

    open spec fn view(&self) -> ConstraintsView {
        ConstraintsView {
            min_width: self.min_width,
            max_width: self.max_width,
            min_height: self.min_height,
            max_height: self.max_height,
            flex: match self.flex {
                Some(f) => Some(f@),
                None => None,
            },
        }
    }
}

/// The view of `Constraints::content()`.
pub open spec fn content_view() -> ConstraintsView {
    ConstraintsView { min_width: 0, max_width: None, min_height: 0, max_height: None, flex: None }
}

/// The view of `Constraints::fixed(width, height)`.
pub open spec fn fixed_view(width: u16, height: u16) -> ConstraintsView {
    ConstraintsView {
        min_width: width,
        max_width: Some(width),
        min_height: height,
        max_height: Some(height),
        flex: None,
    }
}

/// The view of `Constraints::min(width, height)`.
pub open spec fn min_view(width: u16, height: u16) -> ConstraintsView {
    ConstraintsView { min_width: width, max_width: None, min_height: height, max_height: None, flex: None }
}

/// The view of `Constraints::fill()`.
pub open spec fn fill_view() -> ConstraintsView {
    ConstraintsView {
        min_width: 0,
        max_width: None,
        min_height: 0,
        max_height: None,
        flex: Some(seq!['1', '.', '0']),
    }
}

impl Constraints {
    /// Sized to content: no minimum, no maximum, no flex.
    pub fn content() -> (c: Self)
        ensures
            c == (Constraints {
                min_width: 0,
                max_width: None,
                min_height: 0,
                max_height: None,
                flex: None,
            }),
    {
        Constraints { min_width: 0, max_width: None, min_height: 0, max_height: None, flex: None }
    }

    /// Exactly `width` by `height`.
    pub fn fixed(width: u16, height: u16) -> (c: Self)
        ensures
            c == (Constraints {
                min_width: width,
                max_width: Some(width),
                min_height: height,
                max_height: Some(height),
                flex: None,
            }),
    {
        Constraints {
            min_width: width,
            max_width: Some(width),
            min_height: height,
            max_height: Some(height),
            flex: None,
        }
    }

    /// At least `width` by `height`.
    pub fn min(width: u16, height: u16) -> (c: Self)
        ensures
            c == (Constraints {
                min_width: width,
                max_width: None,
                min_height: height,
                max_height: None,
                flex: None,
            }),
    {
        Constraints {
            min_width: width,
            max_width: None,
            min_height: height,
            max_height: None,
            flex: None,
        }
    }

    /// Fills the space available: no bounds and flex one.
    pub fn fill() -> (c: Self)
        ensures
            c.min_width == 0 && c.max_width.is_none() && c.min_height == 0
                && c.max_height.is_none(),
            c.flex.is_some() && c.flex.unwrap()@ == seq!['1', '.', '0'],
    {
        Constraints {
            min_width: 0,
            max_width: None,
            min_height: 0,
            max_height: None,
            flex: Some(Flex::one()),
        }
    }

    /// A copy of these constraints.
    pub fn copy(&self) -> (c: Self)
        ensures
            c == *self,
    {
        let flex = match &self.flex {
            Some(f) => Some(f.copy()),
            None => None,
        };
        Constraints {
            min_width: self.min_width,
            max_width: self.max_width,
            min_height: self.min_height,
            max_height: self.max_height,
            flex,
        }
    }
}

} // verus!
