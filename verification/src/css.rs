//! CSS-like syntax for styles and layout constraints.

use vstd::prelude::*;
use crate::layout::{is_float_literal, Constraints, ConstraintsView, Flex};
use crate::style::{plain_style, style_with_flag, BorderStyle, Color, Padding, Style, BOLD_BIT, ITALIC_BIT, UNDERLINED_BIT};
use crate::text::{
    lemma_words_first, lemma_words_space, lemma_words_empty,
    all_digits, decimal_text, digit_value, digits_value, is_ascii_char, lemma_decimal_text_value, lemma_index_of_is, lemma_lead_ws_is,
    lemma_trail_ws_is, lead_ws, trail_ws, is_ws,
    all_ascii, chars_eq_str, chars_of, index_of, lowercase, owned, parse_uint, parse_uint_range,
    push_str, split, split_bounds, string_from, string_from_range, to_lowercase, trim,
    trim_bounds, utf8_bytes, utf8_len, word_bounds, words,
};

verus! {

/// CSS parsing error.
#[derive(Debug, Clone, PartialEq, Eq)]
pub enum CssError {
    InvalidProperty(String),
    InvalidValue { property: String, value: String },
    ParseError(String),
}

/// A CSS error as character sequences.
pub enum CssErrorView {
    InvalidProperty(Seq<char>),
    InvalidValue(Seq<char>, Seq<char>),
    ParseError(Seq<char>),
}

impl View for CssError {
    type V = CssErrorView;

    open spec fn view(&self) -> CssErrorView {
        match self {
            CssError::InvalidProperty(p) => CssErrorView::InvalidProperty(p@),
            CssError::InvalidValue { property, value } => CssErrorView::InvalidValue(
                property@,
                value@,
            ),
            CssError::ParseError(m) => CssErrorView::ParseError(m@),
        }
    }
}

/// The message text of an error.
pub open spec fn css_error_message(e: CssErrorView) -> Seq<char> {
    match e {
        CssErrorView::InvalidProperty(p) => seq!['I', 'n', 'v', 'a', 'l', 'i', 'd', ' ', 'C', 'S', 'S', ' ', 'p', 'r', 'o', 'p', 'e', 'r', 't', 'y', ':', ' '] + p,
        CssErrorView::InvalidValue(p, v) => seq!['I', 'n', 'v', 'a', 'l', 'i', 'd', ' ', 'v', 'a', 'l', 'u', 'e', ' ', '\''] + v + seq!['\'', ' ', 'f', 'o', 'r', ' ', 'p', 'r', 'o', 'p', 'e', 'r', 't', 'y', ' ', '\''] + p + seq!['\''],
        CssErrorView::ParseError(m) => seq!['C', 'S', 'S', ' ', 'p', 'a', 'r', 's', 'e', ' ', 'e', 'r', 'r', 'o', 'r', ':', ' '] + m,
    }
}

impl CssError {
    /// The message that describes the error.
    pub fn message(&self) -> (m: String)
        ensures
            m@ == css_error_message(self@),
    {
        let mut m = String::new();
        proof {
            reveal_strlit("Invalid CSS property: ");
            reveal_strlit("Invalid value '");
            reveal_strlit("' for property '");
            reveal_strlit("'");
            reveal_strlit("CSS parse error: ");
            assert("Invalid CSS property: "@ =~= seq!['I', 'n', 'v', 'a', 'l', 'i', 'd', ' ', 'C', 'S', 'S', ' ', 'p', 'r', 'o', 'p', 'e', 'r', 't', 'y', ':', ' ']);
            assert("Invalid value '"@ =~= seq!['I', 'n', 'v', 'a', 'l', 'i', 'd', ' ', 'v', 'a', 'l', 'u', 'e', ' ', '\'']);
            assert("' for property '"@ =~= seq!['\'', ' ', 'f', 'o', 'r', ' ', 'p', 'r', 'o', 'p', 'e', 'r', 't', 'y', ' ', '\'']);
            assert("'"@ =~= seq!['\'']);
            assert("CSS parse error: "@ =~= seq!['C', 'S', 'S', ' ', 'p', 'a', 'r', 's', 'e', ' ', 'e', 'r', 'r', 'o', 'r', ':', ' ']);
        }
        match self {
            CssError::InvalidProperty(p) => {
                push_str(&mut m, "Invalid CSS property: ");
                push_str(&mut m, p.as_str());
            },
            CssError::InvalidValue { property, value } => {
                push_str(&mut m, "Invalid value '");
                push_str(&mut m, value.as_str());
                push_str(&mut m, "' for property '");
                push_str(&mut m, property.as_str());
                push_str(&mut m, "'");
            },
            CssError::ParseError(msg) => {
                push_str(&mut m, "CSS parse error: ");
                push_str(&mut m, msg.as_str());
            },
        }
        m
    }
}

// ---------------------------------------------------------------------------
// Declarations
// ---------------------------------------------------------------------------

/// A list of `(property, value)` pairs as character sequences.
pub open spec fn entries_view(v: Seq<(String, String)>) -> Seq<(Seq<char>, Seq<char>)> {
    v.map_values(|p: (String, String)| (p.0@, p.1@))
}

/// Position of the entry whose property is `k`, or -1.
pub open spec fn key_index(es: Seq<(Seq<char>, Seq<char>)>, k: Seq<char>) -> int
    decreases es.len(),
{
    if es.len() == 0 {
        -1
    } else if es.last().0 == k {
        es.len() - 1
    } else {
        key_index(es.drop_last(), k)
    }
}

/// Sets property `k` to `v`: in place where it is present, at the end otherwise.
pub open spec fn css_insert(es: Seq<(Seq<char>, Seq<char>)>, k: Seq<char>, v: Seq<char>) -> Seq<
    (Seq<char>, Seq<char>),
> {
    let j = key_index(es, k);
    if j < 0 {
        es.push((k, v))
    } else {
        es.update(j, (k, v))
    }
}

/// The message of a declaration without a colon.
pub open spec fn invalid_declaration_message(d: Seq<char>) -> Seq<char> {
    seq!['I', 'n', 'v', 'a', 'l', 'i', 'd', ' ', 'd', 'e', 'c', 'l', 'a', 'r', 'a', 't', 'i', 'o', 'n', ':', ' ', '\''] + d + seq!['\'']
}

/// The effect of one `;`-separated piece on the properties read so far.
pub open spec fn css_declaration(es: Seq<(Seq<char>, Seq<char>)>, piece: Seq<char>) -> Result<
    Seq<(Seq<char>, Seq<char>)>,
    CssErrorView,
> {
    let d = trim(piece);
    let i = index_of(d, ':');
    if d.len() == 0 {
        Ok(es)
    } else if i < 0 {
        Err(CssErrorView::ParseError(invalid_declaration_message(d)))
    } else {
        Ok(css_insert(es, lowercase(trim(d.take(i))), trim(d.skip(i + 1))))
    }
}

/// The properties read from the pieces, in order of first appearance, each with
/// the value of its last declaration; or the error of the first bad piece.
pub open spec fn css_fold(pieces: Seq<Seq<char>>) -> Result<
    Seq<(Seq<char>, Seq<char>)>,
    CssErrorView,
>
    decreases pieces.len(),
{
    if pieces.len() == 0 {
        Ok(seq![])
    } else {
        match css_fold(pieces.drop_last()) {
            Err(e) => Err(e),
            Ok(es) => css_declaration(es, pieces.last()),
        }
    }
}

/// What `parse_css` gives for the text `css`.
pub open spec fn parse_css_spec(css: Seq<char>) -> Result<Seq<(Seq<char>, Seq<char>)>, CssErrorView> {
    css_fold(split(css, ';'))
}

/// Every property occurs once.
pub open spec fn keys_distinct(es: Seq<(Seq<char>, Seq<char>)>) -> bool {
    forall|i: int, j: int| 0 <= i < j < es.len() ==> (#[trigger] es[i]).0 != (#[trigger] es[j]).0
}

proof fn lemma_key_index(es: Seq<(Seq<char>, Seq<char>)>, k: Seq<char>)
    ensures
        -1 <= key_index(es, k) < es.len(),
        key_index(es, k) >= 0 ==> es[key_index(es, k)].0 == k,
        key_index(es, k) < 0 ==> forall|i: int| 0 <= i < es.len() ==> (#[trigger] es[i]).0 != k,
    decreases es.len(),
{
    if es.len() > 0 && es.last().0 != k {
        lemma_key_index(es.drop_last(), k);
        assert forall|i: int| 0 <= i < es.len() - 1 implies (#[trigger] es[i]).0 == es.drop_last()[i].0 by {}
    }
}

proof fn lemma_key_index_distinct(es: Seq<(Seq<char>, Seq<char>)>, j: int, k: Seq<char>)
    requires
        keys_distinct(es),
        0 <= j < es.len(),
        es[j].0 == k,
    ensures
        key_index(es, k) == j,
    decreases es.len(),
{
    if j < es.len() - 1 {
        assert(es.last().0 != k);
        assert(keys_distinct(es.drop_last()));
        assert(es.drop_last()[j] == es[j]);
        lemma_key_index_distinct(es.drop_last(), j, k);
    }
}

/// Inserting keeps the properties distinct.
pub proof fn law_insert_keeps_keys_distinct(es: Seq<(Seq<char>, Seq<char>)>, k: Seq<char>, v: Seq<char>)
    requires
        keys_distinct(es),
    ensures
        keys_distinct(css_insert(es, k, v)),
        exists|j: int| 0 <= j < css_insert(es, k, v).len() && #[trigger] css_insert(es, k, v)[j] == (k, v),
{
    lemma_key_index(es, k);
    let r = css_insert(es, k, v);
    let j = key_index(es, k);
    if j < 0 {
        assert(r[es.len() as int] == (k, v));
    } else {
        assert(r[j] == (k, v));
    }
}

/// The properties that `parse_css` gives never repeat.
pub proof fn law_parsed_keys_distinct(pieces: Seq<Seq<char>>)
    ensures
        css_fold(pieces) matches Ok(es) ==> keys_distinct(es),
    decreases pieces.len(),
{
    if pieces.len() > 0 {
        law_parsed_keys_distinct(pieces.drop_last());
        match css_fold(pieces.drop_last()) {
            Err(_) => {},
            Ok(es) => {
                let d = trim(pieces.last());
                let i = index_of(d, ':');
                if d.len() != 0 && i >= 0 {
                    law_insert_keeps_keys_distinct(es, lowercase(trim(d.take(i))), trim(d.skip(i + 1)));
                }
            },
        }
    }
}

/// Once a piece is bad, the result is its error, whatever follows.
proof fn lemma_css_fold_err(pieces: Seq<Seq<char>>, k: int)
    requires
        0 <= k <= pieces.len(),
        css_fold(pieces.take(k)) is Err,
    ensures
        css_fold(pieces) == css_fold(pieces.take(k)),
    decreases pieces.len() - k,
{
    if k < pieces.len() {
        assert(pieces.take(k + 1).drop_last() == pieces.take(k));
        lemma_css_fold_err(pieces, k + 1);
    } else {
        assert(pieces.take(k) == pieces);
    }
}

proof fn lemma_css_fold_step(ps: Seq<Seq<char>>, k: int)
    requires
        0 <= k < ps.len(),
    ensures
        css_fold(ps.take(k + 1)) == match css_fold(ps.take(k)) {
            Err(e) => Err(e),
            Ok(es) => css_declaration(es, ps[k]),
        },
{
    assert(ps.take(k + 1).drop_last() == ps.take(k));
    assert(ps.take(k + 1).last() == ps[k]);
}

/// A copy of `s[a..b]`.
pub fn sub_chars(s: &[char], a: usize, b: usize) -> (r: Vec<char>)
    requires
        a <= b <= s.len(),
    ensures
        r@ == s@.subrange(a as int, b as int),
{
    let mut r: Vec<char> = Vec::new();
    let mut i = a;
    while i < b
        invariant
            a <= i <= b <= s.len(),
            r@ == s@.subrange(a as int, i as int),
        decreases b - i,
    {
        r.push(s[i]);
        i = i + 1;
        assert(r@ == s@.subrange(a as int, i as int));
    }
    r
}

/// Sets property `k` to `v` in a list of distinct properties.
fn insert_property(es: &mut Vec<(String, String)>, k: String, v: String)
    ensures
        entries_view(final(es)@) == css_insert(entries_view(old(es)@), k@, v@),
{
    let ghost ev = entries_view(es@);
    let mut j: usize = es.len();
    while j > 0 && !(es[j - 1].0 == k)
        invariant
            j <= es.len(),
            ev == entries_view(es@),
            forall|i: int| j <= i < es.len() ==> (#[trigger] ev[i]).0 != k@,
        decreases j,
    {
        assert(ev[j - 1].0 == es@[j - 1].0@);
        j = j - 1;
    }
    if j > 0 {
        proof {
            assert(ev[j - 1].0 == es@[j - 1].0@);
            lemma_key_index_last(ev, k@, j - 1);
        }
        es.set(j - 1, (k, v));
        assert(entries_view(es@) =~= ev.update(j - 1, (k@, v@)));
    } else {
        proof {
            lemma_key_index_none(ev, k@);
        }
        es.push((k, v));
        assert(entries_view(es@) =~= ev.push((k@, v@)));
    }
}

proof fn lemma_key_index_last(es: Seq<(Seq<char>, Seq<char>)>, k: Seq<char>, j: int)
    requires
        0 <= j < es.len(),
        es[j].0 == k,
        forall|i: int| j < i < es.len() ==> (#[trigger] es[i]).0 != k,
    ensures
        key_index(es, k) == j,
    decreases es.len(),
{
    if j < es.len() - 1 {
        assert(es.last().0 != k);
        assert forall|i: int| j < i < es.len() - 1 implies (#[trigger] es.drop_last()[i]).0 != k by {
            assert(es.drop_last()[i] == es[i]);
        }
        lemma_key_index_last(es.drop_last(), k, j);
    }
}

proof fn lemma_key_index_none(es: Seq<(Seq<char>, Seq<char>)>, k: Seq<char>)
    requires
        forall|i: int| 0 <= i < es.len() ==> (#[trigger] es[i]).0 != k,
    ensures
        key_index(es, k) == -1,
    decreases es.len(),
{
    if es.len() > 0 {
        assert(es.last().0 != k);
        assert forall|i: int| 0 <= i < es.len() - 1 implies (#[trigger] es.drop_last()[i]).0 != k by {
            assert(es.drop_last()[i] == es[i]);
        }
        lemma_key_index_none(es.drop_last(), k);
    }
}

/// Applies one `;`-separated piece to the properties read so far.
fn apply_declaration(props: &mut Vec<(String, String)>, piece: &[char]) -> (r: Result<(), CssError>)
    ensures
        match css_declaration(entries_view(old(props)@), piece@) {
            Ok(es) => r is Ok && entries_view(final(props)@) == es,
            Err(e) => r matches Err(err) && err@ == e,
        },
{
    let (ta, tb) = trim_bounds(piece);
    let decl = sub_chars(piece, ta, tb);
    assert(decl@ == trim(piece@));
    if decl.len() == 0 {
        return Ok(());
    }
    let mut c: usize = 0;
    while c < decl.len() && decl[c] != ':'
        invariant
            c <= decl.len(),
            forall|j: int| 0 <= j < c ==> #[trigger] decl@[j] != ':',
        decreases decl.len() - c,
    {
        c = c + 1;
    }
    proof {
        crate::text::lemma_index_of_is(decl@, ':', c as int);
    }
    if c == decl.len() {
        let mut msg = String::new();
        push_str(&mut msg, "Invalid declaration: '");
        let ds = string_from(decl.as_slice());
        push_str(&mut msg, ds.as_str());
        push_str(&mut msg, "'");
        proof {
            reveal_strlit("Invalid declaration: '");
            reveal_strlit("'");
            assert("Invalid declaration: '"@ =~= seq!['I', 'n', 'v', 'a', 'l', 'i', 'd', ' ', 'd', 'e', 'c', 'l', 'a', 'r', 'a', 't', 'i', 'o', 'n', ':', ' ', '\'']);
            assert("'"@ =~= seq!['\'']);
        }
        return Err(CssError::ParseError(msg));
    }
    let name_chars = sub_chars(decl.as_slice(), 0, c);
    assert(name_chars@ == decl@.take(c as int));
    let (pa, pb) = trim_bounds(name_chars.as_slice());
    let name_trimmed = string_from_range(name_chars.as_slice(), pa, pb);
    let name = to_lowercase(name_trimmed.as_str());
    let value_chars = sub_chars(decl.as_slice(), c + 1, decl.len());
    assert(value_chars@ == decl@.skip(c + 1));
    let (va, vb) = trim_bounds(value_chars.as_slice());
    let value = string_from_range(value_chars.as_slice(), va, vb);
    insert_property(props, name, value);
    Ok(())
}

/// The result of `parse_css` as character sequences.
pub open spec fn css_result_view(r: Result<Vec<(String, String)>, CssError>) -> Result<
    Seq<(Seq<char>, Seq<char>)>,
    CssErrorView,
> {
    match r {
        Ok(v) => Ok(entries_view(v@)),
        Err(e) => Err(e@),
    }
}

/// Parses CSS-like declarations `"property: value; ..."` into `(property, value)`
/// pairs. Properties are lower-cased, properties and values trimmed; empty pieces
/// are skipped; a piece without `:` is an error. The pairs come in order of first
/// appearance of each property, each with the value of its last declaration.
pub fn parse_css(css: &str) -> (r: Result<Vec<(String, String)>, CssError>)
    ensures
        css_result_view(r) == parse_css_spec(css@),
{
    let cs = chars_of(css);
    let pieces = split_bounds(cs.as_slice(), ';');
    let ghost ps = split(cs@, ';');
    let mut props: Vec<(String, String)> = Vec::new();
    let mut k: usize = 0;
    assert(ps.take(0) =~= Seq::<Seq<char>>::empty());
    assert(entries_view(props@) =~= Seq::<(Seq<char>, Seq<char>)>::empty());
    while k < pieces.len()
        invariant
            cs@ == css@,
            ps == split(cs@, ';'),
            pieces@.len() == ps.len(),
            forall|i: int|
                0 <= i < pieces@.len() ==> {
                    &&& (#[trigger] pieces@[i]).0 <= pieces@[i].1 <= cs.len()
                    &&& cs@.subrange(pieces@[i].0 as int, pieces@[i].1 as int) == ps[i]
                },
            k <= pieces.len(),
            css_fold(ps.take(k as int)) == Ok::<Seq<(Seq<char>, Seq<char>)>, CssErrorView>(
                entries_view(props@),
            ),
        decreases pieces.len() - k,
    {
        let (a, b) = pieces[k];
        let piece = sub_chars(cs.as_slice(), a, b);
        assert(piece@ == ps[k as int]);
        proof {
            lemma_css_fold_step(ps, k as int);
        }
        match apply_declaration(&mut props, piece.as_slice()) {
            Ok(()) => {},
            Err(e) => {
                proof {
                    lemma_css_fold_err(ps, k + 1);
                }
                return Err(e);
            },
        }
        k = k + 1;
    }
    assert(ps.take(pieces.len() as int) == ps);
    Ok(props)
}

// ---------------------------------------------------------------------------
// Colors
// ---------------------------------------------------------------------------

/// The color a name stands for.
pub open spec fn named_color(s: Seq<char>) -> Option<Color> {
    if s == seq!['b', 'l', 'a', 'c', 'k'] {
        Some(Color::Black)
    } else if s == seq!['r', 'e', 'd'] {
        Some(Color::Red)
    } else if s == seq!['g', 'r', 'e', 'e', 'n'] {
        Some(Color::Green)
    } else if s == seq!['y', 'e', 'l', 'l', 'o', 'w'] {
        Some(Color::Yellow)
    } else if s == seq!['b', 'l', 'u', 'e'] {
        Some(Color::Blue)
    } else if s == seq!['m', 'a', 'g', 'e', 'n', 't', 'a'] {
        Some(Color::Magenta)
    } else if s == seq!['c', 'y', 'a', 'n'] {
        Some(Color::Cyan)
    } else if s == seq!['w', 'h', 'i', 't', 'e'] {
        Some(Color::White)
    } else {
        None
    }
}

/// Whether byte offset `n` of `h` falls between two characters.
pub open spec fn is_byte_boundary(h: Seq<char>, n: nat) -> bool {
    exists|k: int| 0 <= k <= h.len() && utf8_bytes(#[trigger] h.take(k)) == n
}

/// Whether reading a `#` color cuts a character in two (where `str` slicing by
/// byte position panics).
pub open spec fn color_text_panics(s: Seq<char>) -> bool {
    let h = s.drop_first();
    &&& s.len() > 0
    &&& s[0] == '#'
    &&& {
        ||| utf8_bytes(h) == 6 && !(is_byte_boundary(h, 2) && is_byte_boundary(h, 4))
        ||| utf8_bytes(h) == 3 && !all_ascii(h)
    }
}

/// A hex component `h[a..b]`.
pub open spec fn hex_part(h: Seq<char>, a: int, b: int) -> Option<nat> {
    parse_uint(h.subrange(a, b), 16, 255)
}

/// What `#RRGGBB` or `#RGB` gives.
pub open spec fn hex_color(h: Seq<char>) -> Option<Color> {
    if utf8_bytes(h) == 6 && all_ascii(h) && hex_part(h, 0, 2).is_some() && hex_part(h, 2, 4).is_some()
        && hex_part(h, 4, 6).is_some() {
        Some(
            Color::Rgb(
                hex_part(h, 0, 2).unwrap() as u8,
                hex_part(h, 2, 4).unwrap() as u8,
                hex_part(h, 4, 6).unwrap() as u8,
            ),
        )
    } else if utf8_bytes(h) == 3 && all_ascii(h) && hex_part(h, 0, 1).is_some() && hex_part(h, 1, 2).is_some()
        && hex_part(h, 2, 3).is_some() {
        Some(
            Color::Rgb(
                (hex_part(h, 0, 1).unwrap() * 17) as u8,
                (hex_part(h, 1, 2).unwrap() * 17) as u8,
                (hex_part(h, 2, 3).unwrap() * 17) as u8,
            ),
        )
    } else {
        None
    }
}

/// Whether `s` is `name(` ... `)` for the four characters `pre`.
pub open spec fn is_call(s: Seq<char>, pre: Seq<char>) -> bool {
    s.len() >= 5 && s.take(4) == pre && s.last() == ')'
}

/// The text between the parentheses of a call.
pub open spec fn call_args(s: Seq<char>) -> Seq<char> {
    s.subrange(4, s.len() - 1)
}

/// A decimal component `0..=255`.
pub open spec fn dec_byte(s: Seq<char>) -> Option<nat> {
    parse_uint(s, 10, 255)
}

/// What `rgb(r, g, b)` gives.
pub open spec fn rgb_color(s: Seq<char>) -> Option<Color> {
    let parts = split(call_args(s), ',');
    if is_call(s, seq!['r', 'g', 'b', '(']) && parts.len() == 3 && dec_byte(trim(parts[0])).is_some() && dec_byte(
        trim(parts[1]),
    ).is_some() && dec_byte(trim(parts[2])).is_some() {
        Some(
            Color::Rgb(
                dec_byte(trim(parts[0])).unwrap() as u8,
                dec_byte(trim(parts[1])).unwrap() as u8,
                dec_byte(trim(parts[2])).unwrap() as u8,
            ),
        )
    } else {
        None
    }
}

/// What `idx(n)` gives.
pub open spec fn indexed_color(s: Seq<char>) -> Option<Color> {
    if is_call(s, seq!['i', 'd', 'x', '(']) && dec_byte(call_args(s)).is_some() {
        Some(Color::Indexed(dec_byte(call_args(s)).unwrap() as u8))
    } else {
        None
    }
}

/// The color that trimmed, lower-cased text `s` stands for: a name, `#RRGGBB`,
/// `#RGB`, `rgb(r, g, b)` or `idx(n)`.
pub open spec fn color_spec(s: Seq<char>) -> Option<Color> {
    if named_color(s).is_some() {
        named_color(s)
    } else if s.len() > 0 && s[0] == '#' && (utf8_bytes(s.drop_first()) == 6 || utf8_bytes(s.drop_first()) == 3) {
        hex_color(s.drop_first())
    } else if rgb_color(s).is_some() {
        rgb_color(s)
    } else {
        indexed_color(s)
    }
}

/// The text a color value is read from: trimmed, then lower-cased.
pub open spec fn color_text(value: Seq<char>) -> Seq<char> {
    lowercase(trim(value))
}

fn named_color_exec(s: &[char]) -> (r: Option<Color>)
    ensures
        r == named_color(s@),
{
    proof {
        reveal_strlit("black");
        assert("black"@ =~= seq!['b', 'l', 'a', 'c', 'k']);
        reveal_strlit("red");
        assert("red"@ =~= seq!['r', 'e', 'd']);
        reveal_strlit("green");
        assert("green"@ =~= seq!['g', 'r', 'e', 'e', 'n']);
        reveal_strlit("yellow");
        assert("yellow"@ =~= seq!['y', 'e', 'l', 'l', 'o', 'w']);
        reveal_strlit("blue");
        assert("blue"@ =~= seq!['b', 'l', 'u', 'e']);
        reveal_strlit("magenta");
        assert("magenta"@ =~= seq!['m', 'a', 'g', 'e', 'n', 't', 'a']);
        reveal_strlit("cyan");
        assert("cyan"@ =~= seq!['c', 'y', 'a', 'n']);
        reveal_strlit("white");
        assert("white"@ =~= seq!['w', 'h', 'i', 't', 'e']);
    }
    if chars_eq_str(s, "black") {
        return Some(Color::Black);
    }
    if chars_eq_str(s, "red") {
        return Some(Color::Red);
    }
    if chars_eq_str(s, "green") {
        return Some(Color::Green);
    }
    if chars_eq_str(s, "yellow") {
        return Some(Color::Yellow);
    }
    if chars_eq_str(s, "blue") {
        return Some(Color::Blue);
    }
    if chars_eq_str(s, "magenta") {
        return Some(Color::Magenta);
    }
    if chars_eq_str(s, "cyan") {
        return Some(Color::Cyan);
    }
    if chars_eq_str(s, "white") {
        return Some(Color::White);
    }
    None
}

/// UTF-8 length of one character.
fn char_utf8_len(c: char) -> (n: usize)
    ensures
        n == utf8_len(c),
{
    let u = c as u32;
    if u < 0x80 {
        1
    } else if u < 0x800 {
        2
    } else if u < 0x10000 {
        3
    } else {
        4
    }
}

proof fn lemma_utf8_bytes_take(h: Seq<char>, k: int)
    requires
        0 <= k < h.len(),
    ensures
        utf8_bytes(h.take(k + 1)) == utf8_bytes(h.take(k)) + utf8_len(h[k]),
{
    assert(h.take(k + 1).drop_last() == h.take(k));
}

proof fn lemma_utf8_bytes_mono(h: Seq<char>, j: int, k: int)
    requires
        0 <= j <= k <= h.len(),
    ensures
        utf8_bytes(h.take(j)) + (k - j) <= utf8_bytes(h.take(k)),
    decreases k - j,
{
    if j < k {
        lemma_utf8_bytes_mono(h, j, k - 1);
        lemma_utf8_bytes_take(h, k - 1);
    }
}

proof fn lemma_ascii_bytes(h: Seq<char>)
    requires
        all_ascii(h),
    ensures
        utf8_bytes(h) == h.len(),
    decreases h.len(),
{
    if h.len() > 0 {
        assert(all_ascii(h.drop_last())) by {
            assert forall|i: int| 0 <= i < h.len() - 1 implies crate::text::is_ascii_char(
                #[trigger] h.drop_last()[i],
            ) by {
                assert(h.drop_last()[i] == h[i]);
            }
        }
        lemma_ascii_bytes(h.drop_last());
        assert(crate::text::is_ascii_char(h[h.len() - 1]));
    }
}

/// The UTF-8 length of `s[start..]`, or `cap` where it is larger.
fn utf8_bytes_capped(s: &[char], start: usize, cap: usize) -> (n: usize)
    requires
        start <= s.len(),
        1 <= cap < 1000,
    ensures
        n == if utf8_bytes(s@.skip(start as int)) < cap {
            utf8_bytes(s@.skip(start as int))
        } else {
            cap as nat
        },
{
    let ghost h = s@.skip(start as int);
    let mut i = start;
    let mut n: usize = 0;
    assert(h.take(0) =~= Seq::<char>::empty());
    while i < s.len()
        invariant
            start <= i <= s.len(),
            h == s@.skip(start as int),
            1 <= cap < 1000,
            n < cap,
            n == utf8_bytes(h.take(i - start)),
        decreases s.len() - i,
    {
        proof {
            lemma_utf8_bytes_take(h, i - start);
            assert(h[i - start] == s@[i as int]);
        }
        n = n + char_utf8_len(s[i]);
        i = i + 1;
        if n >= cap {
            proof {
                lemma_utf8_bytes_mono(h, i - start, h.len() as int);
                assert(h.take(h.len() as int) == h);
            }
            return cap;
        }
    }
    assert(h.take(h.len() as int) == h);
    n
}

/// Whether byte offset `n` of `s[start..]` falls between two characters.
fn byte_boundary(s: &[char], start: usize, n: usize) -> (r: bool)
    requires
        start <= s.len(),
        n < 1000,
    ensures
        r == is_byte_boundary(s@.skip(start as int), n as nat),
{
    let ghost h = s@.skip(start as int);
    let mut i = start;
    let mut sum: usize = 0;
    assert(h.take(0) =~= Seq::<char>::empty());
    while sum < n && i < s.len()
        invariant
            start <= i <= s.len(),
            h == s@.skip(start as int),
            n < 1000,
            sum <= n + 4,
            sum == utf8_bytes(h.take(i - start)),
            forall|k: int| 0 <= k < i - start ==> utf8_bytes(#[trigger] h.take(k)) < n,
        decreases s.len() - i,
    {
        proof {
            lemma_utf8_bytes_take(h, i - start);
            assert(h[i - start] == s@[i as int]);
        }
        sum = sum + char_utf8_len(s[i]);
        i = i + 1;
    }
    if sum == n {
        assert(utf8_bytes(h.take(i - start)) == n);
        true
    } else {
        proof {
            assert forall|k: int| 0 <= k <= h.len() implies utf8_bytes(#[trigger] h.take(k)) != n by {
                if k > i - start {
                    lemma_utf8_bytes_mono(h, i - start, k);
                } else if k == i - start {
                } else {
                }
            }
        }
        false
    }
}

/// Whether all of `s[start..]` is ASCII.
fn ascii_from(s: &[char], start: usize) -> (r: bool)
    requires
        start <= s.len(),
    ensures
        r == all_ascii(s@.skip(start as int)),
{
    let mut i = start;
    while i < s.len()
        invariant
            start <= i <= s.len(),
            forall|j: int| start <= j < i ==> crate::text::is_ascii_char(#[trigger] s@[j]),
        decreases s.len() - i,
    {
        if (s[i] as u32) >= 0x80 {
            assert(!crate::text::is_ascii_char(s@.skip(start as int)[i - start]));
            return false;
        }
        i = i + 1;
    }
    assert forall|j: int| 0 <= j < s@.skip(start as int).len() implies crate::text::is_ascii_char(
        #[trigger] s@.skip(start as int)[j],
    ) by {
        assert(s@.skip(start as int)[j] == s@[j + start]);
    }
    true
}

/// Whether reading `s` as a color would cut a character in two.
pub fn color_text_panics_exec(s: &[char]) -> (r: bool)
    ensures
        r == color_text_panics(s@),
{
    if s.len() == 0 || s[0] != '#' {
        return false;
    }
    assert(s@.drop_first() == s@.skip(1));
    let n = utf8_bytes_capped(s, 1, 7);
    if n == 6 {
        !(byte_boundary(s, 1, 2) && byte_boundary(s, 1, 4))
    } else if n == 3 {
        !ascii_from(s, 1)
    } else {
        false
    }
}

/// One hex digit is below 16.
proof fn lemma_one_hex_digit(t: Seq<char>)
    requires
        t.len() == 1,
    ensures
        parse_uint(t, 16, 255).is_some() ==> parse_uint(t, 16, 255).unwrap() < 16,
{
    if parse_uint(t, 16, 255).is_some() {
        assert(t[0] != '+');
        assert(t.drop_last().len() == 0);
        assert(crate::text::digits_value(t.drop_last(), 16) == 0);
    }
}

/// Parses the hex component `s[a..b]`.
fn hex_byte(s: &[char], a: usize, b: usize) -> (r: Option<u8>)
    requires
        a <= b <= s.len(),
    ensures
        r.is_some() == parse_uint(s@.subrange(a as int, b as int), 16, 255).is_some(),
        r.is_some() ==> r.unwrap() == parse_uint(s@.subrange(a as int, b as int), 16, 255).unwrap(),
{
    match parse_uint_range(s, a, b, 16, 255) {
        Some(v) => Some(v as u8),
        None => None,
    }
}

/// Parses the decimal component `s[a..b]`, surrounding white space removed.
fn dec_byte_trimmed(s: &[char], a: usize, b: usize) -> (r: Option<u8>)
    requires
        a <= b <= s.len(),
    ensures
        r.is_some() == dec_byte(trim(s@.subrange(a as int, b as int))).is_some(),
        r.is_some() ==> r.unwrap() == dec_byte(trim(s@.subrange(a as int, b as int))).unwrap(),
{
    let part = sub_chars(s, a, b);
    let (ta, tb) = trim_bounds(part.as_slice());
    match parse_uint_range(part.as_slice(), ta, tb, 10, 255) {
        Some(v) => Some(v as u8),
        None => None,
    }
}

/// The color that trimmed, lower-cased text stands for.
fn color_from_text(s: &[char]) -> (r: Option<Color>)
    requires
        !color_text_panics(s@),
    ensures
        r == color_spec(s@),
{
    let named = named_color_exec(s);
    if named.is_some() {
        return named;
    }
    if s.len() > 0 && s[0] == '#' {
        let ghost h = s@.drop_first();
        assert(h == s@.skip(1));
        let n = utf8_bytes_capped(s, 1, 7);
        if n == 6 || n == 3 {
            if !ascii_from(s, 1) {
                return None;
            }
            proof {
                lemma_ascii_bytes(h);
                assert(h.subrange(0, 1) == s@.subrange(1, 2));
                assert(h.subrange(1, 2) == s@.subrange(2, 3));
                assert(h.subrange(2, 3) == s@.subrange(3, 4));
                if n == 6 {
                    assert(h.subrange(0, 2) == s@.subrange(1, 3));
                    assert(h.subrange(2, 4) == s@.subrange(3, 5));
                    assert(h.subrange(4, 6) == s@.subrange(5, 7));
                }
            }
            if n == 6 {
                let r = hex_byte(s, 1, 3);
                let g = hex_byte(s, 3, 5);
                let b = hex_byte(s, 5, 7);
                if r.is_some() && g.is_some() && b.is_some() {
                    return Some(Color::Rgb(r.unwrap(), g.unwrap(), b.unwrap()));
                }
                return None;
            } else {
                let r = hex_byte(s, 1, 2);
                let g = hex_byte(s, 2, 3);
                let b = hex_byte(s, 3, 4);
                proof {
                    lemma_one_hex_digit(s@.subrange(1, 2));
                    lemma_one_hex_digit(s@.subrange(2, 3));
                    lemma_one_hex_digit(s@.subrange(3, 4));
                }
                if r.is_some() && g.is_some() && b.is_some() {
                    return Some(
                        Color::Rgb(r.unwrap() * 17, g.unwrap() * 17, b.unwrap() * 17),
                    );
                }
                return None;
            }
        }
    }
    let rgb = rgb_from_text(s);
    if rgb.is_some() {
        return rgb;
    }
    indexed_from_text(s)
}

/// Whether `s` is `pre` ... `)` with four characters of `pre`.
fn is_call_exec(s: &[char], pre: &str) -> (r: bool)
    requires
        pre@.len() == 4,
    ensures
        r == is_call(s@, pre@),
{
    if s.len() < 5 || s[s.len() - 1] != ')' {
        return false;
    }
    let head = sub_chars(s, 0, 4);
    assert(head@ == s@.take(4));
    chars_eq_str(head.as_slice(), pre)
}

fn rgb_from_text(s: &[char]) -> (r: Option<Color>)
    ensures
        r == rgb_color(s@),
{
    proof {
        reveal_strlit("rgb(");
        assert("rgb("@ =~= seq!['r', 'g', 'b', '(']);
    }
    if !is_call_exec(s, "rgb(") {
        return None;
    }
    let args = sub_chars(s, 4, s.len() - 1);
    assert(args@ == call_args(s@));
    let parts = split_bounds(args.as_slice(), ',');
    if parts.len() != 3 {
        return None;
    }
    let (a0, b0) = parts[0];
    let (a1, b1) = parts[1];
    let (a2, b2) = parts[2];
    let r = dec_byte_trimmed(args.as_slice(), a0, b0);
    let g = dec_byte_trimmed(args.as_slice(), a1, b1);
    let b = dec_byte_trimmed(args.as_slice(), a2, b2);
    if r.is_some() && g.is_some() && b.is_some() {
        Some(Color::Rgb(r.unwrap(), g.unwrap(), b.unwrap()))
    } else {
        None
    }
}

fn indexed_from_text(s: &[char]) -> (r: Option<Color>)
    ensures
        r == indexed_color(s@),
{
    proof {
        reveal_strlit("idx(");
        assert("idx("@ =~= seq!['i', 'd', 'x', '(']);
    }
    if !is_call_exec(s, "idx(") {
        return None;
    }
    assert(s@.subrange(4, s.len() - 1) == call_args(s@));
    match parse_uint_range(s, 4, s.len() - 1, 10, 255) {
        Some(v) => Some(Color::Indexed(v as u8)),
        None => None,
    }
}

/// The error for a bad color value.
pub open spec fn color_error(text: Seq<char>) -> CssErrorView {
    CssErrorView::InvalidValue(seq!['c', 'o', 'l', 'o', 'r'], text)
}

/// Trims and lower-cases a value.
fn normalized_value(value: &str) -> (r: String)
    ensures
        r@ == color_text(value@),
{
    let cs = chars_of(value);
    let (a, b) = trim_bounds(cs.as_slice());
    let t = string_from_range(cs.as_slice(), a, b);
    to_lowercase(t.as_str())
}

/// Parses a color value: a name (`red`, ...), `#RRGGBB`, `#RGB`, `rgb(r, g, b)`
/// or `idx(n)`, after trimming and lower-casing; otherwise an `InvalidValue`
/// error for the property `color` with the normalized text.
pub fn parse_color(value: &str) -> (r: Result<Color, CssError>)
    requires
        !color_text_panics(color_text(value@)),
    ensures
        match color_spec(color_text(value@)) {
            Some(c) => r == Ok::<Color, CssError>(c),
            None => r matches Err(e) && e@ == color_error(color_text(value@)),
        },
{
    let lowered = normalized_value(value);
    let lc = chars_of(lowered.as_str());
    match color_from_text(lc.as_slice()) {
        Some(c) => Ok(c),
        None => {
            proof {
                reveal_strlit("color");
                assert("color"@ =~= seq!['c', 'o', 'l', 'o', 'r']);
            }
            Err(CssError::InvalidValue { property: owned("color"), value: lowered })
        },
    }
}

/// `parse_color` where it does not panic; `None` where its `#` value would be
/// cut inside a character.
pub fn parse_color_checked(value: &str) -> (r: Option<Result<Color, CssError>>)
    ensures
        r.is_none() == color_text_panics(color_text(value@)),
        r matches Some(res) ==> match color_spec(color_text(value@)) {
            Some(c) => res == Ok::<Color, CssError>(c),
            None => res matches Err(e) && e@ == color_error(color_text(value@)),
        },
{
    let lowered = normalized_value(value);
    let lc = chars_of(lowered.as_str());
    if color_text_panics_exec(lc.as_slice()) {
        None
    } else {
        Some(parse_color(value))
    }
}

// ---------------------------------------------------------------------------
// Padding and borders
// ---------------------------------------------------------------------------

/// A `u16` value.
pub open spec fn dec_u16(s: Seq<char>) -> Option<nat> {
    parse_uint(s, 10, 65535)
}

/// The padding that the words of `value` give: one number for all sides, or four
/// numbers for top, right, bottom and left.
pub open spec fn padding_spec(value: Seq<char>) -> Option<Padding> {
    let w = words(value);
    if w.len() == 1 && dec_u16(w[0]).is_some() {
        let n = dec_u16(w[0]).unwrap() as u16;
        Some(Padding { top: n, right: n, bottom: n, left: n })
    } else if w.len() == 4 && dec_u16(w[0]).is_some() && dec_u16(w[1]).is_some() && dec_u16(
        w[2],
    ).is_some() && dec_u16(w[3]).is_some() {
        Some(
            Padding {
                top: dec_u16(w[0]).unwrap() as u16,
                right: dec_u16(w[1]).unwrap() as u16,
                bottom: dec_u16(w[2]).unwrap() as u16,
                left: dec_u16(w[3]).unwrap() as u16,
            },
        )
    } else {
        None
    }
}

/// Parses `s[a..b]` as a `u16`.
fn u16_range(s: &[char], a: usize, b: usize) -> (r: Option<u16>)
    requires
        a <= b <= s.len(),
    ensures
        r.is_some() == dec_u16(s@.subrange(a as int, b as int)).is_some(),
        r.is_some() ==> r.unwrap() == dec_u16(s@.subrange(a as int, b as int)).unwrap(),
{
    match parse_uint_range(s, a, b, 10, 65535) {
        Some(v) => Some(v as u16),
        None => None,
    }
}

/// Parses a padding value: one number (all sides) or four numbers (top right
/// bottom left), separated by white space; otherwise an `InvalidValue` error for
/// the property `padding` with the value as given.
pub fn parse_padding(value: &str) -> (r: Result<Padding, CssError>)
    ensures
        match padding_spec(value@) {
            Some(p) => r == Ok::<Padding, CssError>(p),
            None => r matches Err(e) && e@ == CssErrorView::InvalidValue(seq!['p', 'a', 'd', 'd', 'i', 'n', 'g'], value@),
        },
{
    let cs = chars_of(value);
    let parts = word_bounds(cs.as_slice());
    if parts.len() == 1 {
        let (a, b) = parts[0];
        match u16_range(cs.as_slice(), a, b) {
            Some(n) => {
                return Ok(Padding::uniform(n));
            },
            None => {},
        }
    } else if parts.len() == 4 {
        let (a0, b0) = parts[0];
        let (a1, b1) = parts[1];
        let (a2, b2) = parts[2];
        let (a3, b3) = parts[3];
        let top = u16_range(cs.as_slice(), a0, b0);
        let right = u16_range(cs.as_slice(), a1, b1);
        let bottom = u16_range(cs.as_slice(), a2, b2);
        let left = u16_range(cs.as_slice(), a3, b3);
        if top.is_some() && right.is_some() && bottom.is_some() && left.is_some() {
            return Ok(Padding::new(top.unwrap(), right.unwrap(), bottom.unwrap(), left.unwrap()));
        }
    }
    proof {
        reveal_strlit("padding");
        assert("padding"@ =~= seq!['p', 'a', 'd', 'd', 'i', 'n', 'g']);
    }
    Err(CssError::InvalidValue { property: owned("padding"), value: owned(value) })
}

/// The border style a trimmed, lower-cased name stands for.
pub open spec fn border_spec(s: Seq<char>) -> Option<BorderStyle> {
    if s == seq!['s', 'i', 'n', 'g', 'l', 'e'] {
        Some(BorderStyle::Single)
    } else if s == seq!['s', 'o', 'l', 'i', 'd'] {
        Some(BorderStyle::Single)
    } else if s == seq!['r', 'o', 'u', 'n', 'd', 'e', 'd'] {
        Some(BorderStyle::Rounded)
    } else if s == seq!['d', 'o', 'u', 'b', 'l', 'e'] {
        Some(BorderStyle::Double)
    } else if s == seq!['t', 'h', 'i', 'c', 'k'] {
        Some(BorderStyle::Thick)
    } else if s == seq!['n', 'o', 'n', 'e'] {
        Some(BorderStyle::NoBorder)
    } else {
        None
    }
}

fn border_from_text(s: &[char]) -> (r: Option<BorderStyle>)
    ensures
        r == border_spec(s@),
{
    proof {
        reveal_strlit("single");
        assert("single"@ =~= seq!['s', 'i', 'n', 'g', 'l', 'e']);
        reveal_strlit("solid");
        assert("solid"@ =~= seq!['s', 'o', 'l', 'i', 'd']);
        reveal_strlit("rounded");
        assert("rounded"@ =~= seq!['r', 'o', 'u', 'n', 'd', 'e', 'd']);
        reveal_strlit("double");
        assert("double"@ =~= seq!['d', 'o', 'u', 'b', 'l', 'e']);
        reveal_strlit("thick");
        assert("thick"@ =~= seq!['t', 'h', 'i', 'c', 'k']);
        reveal_strlit("none");
        assert("none"@ =~= seq!['n', 'o', 'n', 'e']);
    }
    if chars_eq_str(s, "single") {
        return Some(BorderStyle::Single);
    }
    if chars_eq_str(s, "solid") {
        return Some(BorderStyle::Single);
    }
    if chars_eq_str(s, "rounded") {
        return Some(BorderStyle::Rounded);
    }
    if chars_eq_str(s, "double") {
        return Some(BorderStyle::Double);
    }
    if chars_eq_str(s, "thick") {
        return Some(BorderStyle::Thick);
    }
    if chars_eq_str(s, "none") {
        return Some(BorderStyle::NoBorder);
    }
    None
}

/// Parses a border style: `single` (or `solid`), `rounded`, `double`, `thick` or
/// `none`, after trimming and lower-casing; otherwise an `InvalidValue` error for
/// the property `border` with the value as given.
pub fn parse_border(value: &str) -> (r: Result<BorderStyle, CssError>)
    ensures
        match border_spec(color_text(value@)) {
            Some(b) => r == Ok::<BorderStyle, CssError>(b),
            None => r matches Err(e) && e@ == CssErrorView::InvalidValue(seq!['b', 'o', 'r', 'd', 'e', 'r'], value@),
        },
{
    let lowered = normalized_value(value);
    let lc = chars_of(lowered.as_str());
    match border_from_text(lc.as_slice()) {
        Some(b) => Ok(b),
        None => {
            proof {
                reveal_strlit("border");
                assert("border"@ =~= seq!['b', 'o', 'r', 'd', 'e', 'r']);
            }
            Err(CssError::InvalidValue { property: owned("border"), value: owned(value) })
        },
    }
}

// ---------------------------------------------------------------------------
// Constraints
// ---------------------------------------------------------------------------

/// The effect of one declaration on constraints. Unknown properties are ignored.
pub open spec fn apply_constraint(c: ConstraintsView, k: Seq<char>, v: Seq<char>) -> Result<
    ConstraintsView,
    CssErrorView,
> {
    let bad = Err(CssErrorView::InvalidValue(k, v));
    let n = dec_u16(v);
    if k == seq!['w', 'i', 'd', 't', 'h'] {
        if n.is_some() {
            Ok(ConstraintsView { min_width: n.unwrap() as u16, max_width: Some(n.unwrap() as u16), ..c })
        } else {
            bad
        }
    } else if k == seq!['m', 'i', 'n', '-', 'w', 'i', 'd', 't', 'h'] {
        if n.is_some() {
            Ok(ConstraintsView { min_width: n.unwrap() as u16, ..c })
        } else {
            bad
        }
    } else if k == seq!['m', 'a', 'x', '-', 'w', 'i', 'd', 't', 'h'] {
        if n.is_some() {
            Ok(ConstraintsView { max_width: Some(n.unwrap() as u16), ..c })
        } else {
            bad
        }
    } else if k == seq!['h', 'e', 'i', 'g', 'h', 't'] {
        if n.is_some() {
            Ok(ConstraintsView { min_height: n.unwrap() as u16, max_height: Some(n.unwrap() as u16), ..c })
        } else {
            bad
        }
    } else if k == seq!['m', 'i', 'n', '-', 'h', 'e', 'i', 'g', 'h', 't'] {
        if n.is_some() {
            Ok(ConstraintsView { min_height: n.unwrap() as u16, ..c })
        } else {
            bad
        }
    } else if k == seq!['m', 'a', 'x', '-', 'h', 'e', 'i', 'g', 'h', 't'] {
        if n.is_some() {
            Ok(ConstraintsView { max_height: Some(n.unwrap() as u16), ..c })
        } else {
            bad
        }
    } else if k == seq!['f', 'l', 'e', 'x'] {
        if is_float_literal(v) {
            Ok(ConstraintsView { flex: Some(v), ..c })
        } else {
            bad
        }
    } else {
        Ok(c)
    }
}

/// Constraints from content-size defaults with the declarations applied in order.
pub open spec fn constraints_from_entries(es: Seq<(Seq<char>, Seq<char>)>) -> Result<
    ConstraintsView,
    CssErrorView,
>
    decreases es.len(),
{
    if es.len() == 0 {
        Ok(crate::layout::content_view())
    } else {
        match constraints_from_entries(es.drop_last()) {
            Err(e) => Err(e),
            Ok(c) => apply_constraint(c, es.last().0, es.last().1),
        }
    }
}

/// What `Constraints::from_css` gives for `css`.
pub open spec fn constraints_css_spec(css: Seq<char>) -> Result<ConstraintsView, CssErrorView> {
    match parse_css_spec(css) {
        Err(e) => Err(e),
        Ok(es) => constraints_from_entries(es),
    }
}

/// The constraints result as views.
pub open spec fn constraints_result_view(r: Result<Constraints, CssError>) -> Result<
    ConstraintsView,
    CssErrorView,
> {
    match r {
        Ok(c) => Ok(c@),
        Err(e) => Err(e@),
    }
}

fn apply_constraint_exec(c: &mut Constraints, k: &String, v: &String) -> (r: Result<(), CssError>)
    ensures
        match apply_constraint(old(c)@, k@, v@) {
            Ok(cv) => r is Ok && final(c)@ == cv,
            Err(e) => r matches Err(err) && err@ == e,
        },
{
    let kc = chars_of(k.as_str());
    let vc = chars_of(v.as_str());
    proof {
        reveal_strlit("width");
        assert("width"@ =~= seq!['w', 'i', 'd', 't', 'h']);
        reveal_strlit("min-width");
        assert("min-width"@ =~= seq!['m', 'i', 'n', '-', 'w', 'i', 'd', 't', 'h']);
        reveal_strlit("max-width");
        assert("max-width"@ =~= seq!['m', 'a', 'x', '-', 'w', 'i', 'd', 't', 'h']);
        reveal_strlit("height");
        assert("height"@ =~= seq!['h', 'e', 'i', 'g', 'h', 't']);
        reveal_strlit("min-height");
        assert("min-height"@ =~= seq!['m', 'i', 'n', '-', 'h', 'e', 'i', 'g', 'h', 't']);
        reveal_strlit("max-height");
        assert("max-height"@ =~= seq!['m', 'a', 'x', '-', 'h', 'e', 'i', 'g', 'h', 't']);
        reveal_strlit("flex");
        assert("flex"@ =~= seq!['f', 'l', 'e', 'x']);
    }
    let n = u16_range(vc.as_slice(), 0, vc.len());
    assert(vc@.subrange(0, vc.len() as int) == v@);
    if chars_eq_str(kc.as_slice(), "width") {
        if n.is_none() {
            return Err(CssError::InvalidValue { property: k.clone(), value: v.clone() });
        }
        c.min_width = n.unwrap();
        c.max_width = Some(n.unwrap());
    } else if chars_eq_str(kc.as_slice(), "min-width") {
        if n.is_none() {
            return Err(CssError::InvalidValue { property: k.clone(), value: v.clone() });
        }
        c.min_width = n.unwrap();
    } else if chars_eq_str(kc.as_slice(), "max-width") {
        if n.is_none() {
            return Err(CssError::InvalidValue { property: k.clone(), value: v.clone() });
        }
        c.max_width = Some(n.unwrap());
    } else if chars_eq_str(kc.as_slice(), "height") {
        if n.is_none() {
            return Err(CssError::InvalidValue { property: k.clone(), value: v.clone() });
        }
        c.min_height = n.unwrap();
        c.max_height = Some(n.unwrap());
    } else if chars_eq_str(kc.as_slice(), "min-height") {
        if n.is_none() {
            return Err(CssError::InvalidValue { property: k.clone(), value: v.clone() });
        }
        c.min_height = n.unwrap();
    } else if chars_eq_str(kc.as_slice(), "max-height") {
        if n.is_none() {
            return Err(CssError::InvalidValue { property: k.clone(), value: v.clone() });
        }
        c.max_height = Some(n.unwrap());
    } else if chars_eq_str(kc.as_slice(), "flex") {
        match Flex::parse(v.as_str()) {
            Some(f) => {
                c.flex = Some(f);
            },
            None => {
                return Err(CssError::InvalidValue { property: k.clone(), value: v.clone() });
            },
        }
    }
    Ok(())
}

impl Constraints {
    /// Constraints from CSS-like syntax: `width`, `min-width`, `max-width`,
    /// `height`, `min-height`, `max-height` (cells) and `flex` (grow factor).
    /// Unknown properties are ignored; declarations apply in the order in which
    /// their properties first appear.
    pub fn from_css(css: &str) -> (r: Result<Constraints, CssError>)
        ensures
            constraints_result_view(r) == constraints_css_spec(css@),
    {
        let props = match parse_css(css) {
            Ok(p) => p,
            Err(e) => {
                return Err(e);
            },
        };
        let ghost es = entries_view(props@);
        let mut c = Constraints::content();
        let mut i: usize = 0;
        assert(es.take(0) =~= Seq::<(Seq<char>, Seq<char>)>::empty());
        while i < props.len()
            invariant
                i <= props.len(),
                es == entries_view(props@),
                parse_css_spec(css@) == Ok::<Seq<(Seq<char>, Seq<char>)>, CssErrorView>(es),
                constraints_from_entries(es.take(i as int)) == Ok::<ConstraintsView, CssErrorView>(
                    c@,
                ),
            decreases props.len() - i,
        {
            proof {
                assert(es.take(i + 1).drop_last() == es.take(i as int));
                assert(es.take(i + 1).last() == es[i as int]);
                assert(es[i as int] == (props@[i as int].0@, props@[i as int].1@));
            }
            let ghost before = c@;
            assert(constraints_from_entries(es.take(i + 1)) == apply_constraint(
                before,
                es[i as int].0,
                es[i as int].1,
            ));
            match apply_constraint_exec(&mut c, &props[i].0, &props[i].1) {
                Ok(()) => {},
                Err(e) => {
                    proof {
                        lemma_constraints_err(es, i + 1);
                    }
                    return Err(e);
                },
            }
            i = i + 1;
        }
        assert(es.take(props.len() as int) == es);
        Ok(c)
    }

    /// The same as `from_css`.
    pub fn css(css: &str) -> (r: Result<Constraints, CssError>)
        ensures
            constraints_result_view(r) == constraints_css_spec(css@),
    {
        Self::from_css(css)
    }
}

proof fn lemma_constraints_err(es: Seq<(Seq<char>, Seq<char>)>, k: int)
    requires
        0 <= k <= es.len(),
        constraints_from_entries(es.take(k)) is Err,
    ensures
        constraints_from_entries(es) == constraints_from_entries(es.take(k)),
    decreases es.len() - k,
{
    if k < es.len() {
        assert(es.take(k + 1).drop_last() == es.take(k));
        lemma_constraints_err(es, k + 1);
    } else {
        assert(es.take(k) == es);
    }
}

/// What one declaration does to a style: `color` and `background-color` (or
/// `background`) set a color (none where the color text would make the color
/// parser panic); `font-weight: bold`, `font-style: italic` and
/// `text-decoration: underline` add that modifier (any other value changes
/// nothing); `border` and `padding` are checked (an invalid value is an error)
/// and otherwise leave the style, which has no border or padding; other
/// properties are ignored.
pub open spec fn apply_style(s: Style, k: Seq<char>, v: Seq<char>) -> Option<Result<Style, CssErrorView>> {
    let ct = color_text(v);
    if k == seq!['c', 'o', 'l', 'o', 'r'] || k == seq!['b', 'a', 'c', 'k', 'g', 'r', 'o', 'u', 'n', 'd', '-', 'c', 'o', 'l', 'o', 'r'] || k == seq!['b', 'a', 'c', 'k', 'g', 'r', 'o', 'u', 'n', 'd'] {
        if color_text_panics(ct) {
            None
        } else {
            Some(
                match color_spec(ct) {
                    Some(c) => Ok(
                        if k == seq!['c', 'o', 'l', 'o', 'r'] {
                            Style { fg_color: Some(c), ..s }
                        } else {
                            Style { bg_color: Some(c), ..s }
                        },
                    ),
                    None => Err(color_error(ct)),
                },
            )
        }
    } else if k == seq!['f', 'o', 'n', 't', '-', 'w', 'e', 'i', 'g', 'h', 't'] {
        Some(Ok(if lowercase(v) == seq!['b', 'o', 'l', 'd'] { style_with_flag(s, BOLD_BIT) } else { s }))
    } else if k == seq!['f', 'o', 'n', 't', '-', 's', 't', 'y', 'l', 'e'] {
        Some(Ok(if lowercase(v) == seq!['i', 't', 'a', 'l', 'i', 'c'] { style_with_flag(s, ITALIC_BIT) } else { s }))
    } else if k == seq!['t', 'e', 'x', 't', '-', 'd', 'e', 'c', 'o', 'r', 'a', 't', 'i', 'o', 'n'] {
        Some(Ok(if lowercase(v) == seq!['u', 'n', 'd', 'e', 'r', 'l', 'i', 'n', 'e'] { style_with_flag(s, UNDERLINED_BIT) } else { s }))
    } else if k == seq!['b', 'o', 'r', 'd', 'e', 'r'] {
        Some(
            match border_spec(ct) {
                Some(_) => Ok(s),
                None => Err(CssErrorView::InvalidValue(seq!['b', 'o', 'r', 'd', 'e', 'r'], v)),
            },
        )
    } else if k == seq!['p', 'a', 'd', 'd', 'i', 'n', 'g'] {
        Some(
            match padding_spec(v) {
                Some(_) => Ok(s),
                None => Err(CssErrorView::InvalidValue(seq!['p', 'a', 'd', 'd', 'i', 'n', 'g'], v)),
            },
        )
    } else {
        Some(Ok(s))
    }
}

/// The style the declarations give, from the default style, stopping at the
/// first error; `None` where the color parser would panic first.
pub open spec fn style_from_entries(es: Seq<(Seq<char>, Seq<char>)>) -> Option<Result<Style, CssErrorView>>
    decreases es.len(),
{
    if es.len() == 0 {
        Some(Ok(plain_style(None, None)))
    } else {
        match style_from_entries(es.drop_last()) {
            None => None,
            Some(Err(e)) => Some(Err(e)),
            Some(Ok(s)) => apply_style(s, es.last().0, es.last().1),
        }
    }
}

/// What `Style::from_css` gives for the text `css`.
pub open spec fn style_css_spec(css: Seq<char>) -> Option<Result<Style, CssErrorView>> {
    match parse_css_spec(css) {
        Err(e) => Some(Err(e)),
        Ok(es) => style_from_entries(es),
    }
}

/// The style result as views.
pub open spec fn style_result_view(r: Result<Style, CssError>) -> Result<Style, CssErrorView> {
    match r {
        Ok(s) => Ok(s),
        Err(e) => Err(e@),
    }
}

proof fn lemma_style_stops(es: Seq<(Seq<char>, Seq<char>)>, k: int)
    requires
        0 <= k <= es.len(),
        !(style_from_entries(es.take(k)) matches Some(Ok(_))),
    ensures
        style_from_entries(es) == style_from_entries(es.take(k)),
    decreases es.len() - k,
{
    if k < es.len() {
        assert(es.take(k + 1).drop_last() == es.take(k));
        lemma_style_stops(es, k + 1);
    } else {
        assert(es.take(k) == es);
    }
}

fn apply_style_exec(s: &mut Style, k: &String, v: &String) -> (r: Result<(), CssError>)
    requires
        apply_style(*old(s), k@, v@) is Some,
    ensures
        match apply_style(*old(s), k@, v@) {
            Some(Ok(s2)) => r is Ok && *final(s) == s2,
            Some(Err(e)) => r matches Err(err) && err@ == e,
            None => false,
        },
{
    let kc = chars_of(k.as_str());
    proof {
        reveal_strlit("color");
        assert("color"@ =~= seq!['c', 'o', 'l', 'o', 'r']);
        reveal_strlit("background-color");
        assert("background-color"@ =~= seq!['b', 'a', 'c', 'k', 'g', 'r', 'o', 'u', 'n', 'd', '-', 'c', 'o', 'l', 'o', 'r']);
        reveal_strlit("background");
        assert("background"@ =~= seq!['b', 'a', 'c', 'k', 'g', 'r', 'o', 'u', 'n', 'd']);
        reveal_strlit("font-weight");
        assert("font-weight"@ =~= seq!['f', 'o', 'n', 't', '-', 'w', 'e', 'i', 'g', 'h', 't']);
        reveal_strlit("font-style");
        assert("font-style"@ =~= seq!['f', 'o', 'n', 't', '-', 's', 't', 'y', 'l', 'e']);
        reveal_strlit("text-decoration");
        assert("text-decoration"@ =~= seq!['t', 'e', 'x', 't', '-', 'd', 'e', 'c', 'o', 'r', 'a', 't', 'i', 'o', 'n']);
        reveal_strlit("border");
        assert("border"@ =~= seq!['b', 'o', 'r', 'd', 'e', 'r']);
        reveal_strlit("padding");
        assert("padding"@ =~= seq!['p', 'a', 'd', 'd', 'i', 'n', 'g']);
        reveal_strlit("bold");
        assert("bold"@ =~= seq!['b', 'o', 'l', 'd']);
        reveal_strlit("italic");
        assert("italic"@ =~= seq!['i', 't', 'a', 'l', 'i', 'c']);
        reveal_strlit("underline");
        assert("underline"@ =~= seq!['u', 'n', 'd', 'e', 'r', 'l', 'i', 'n', 'e']);
    }
    if chars_eq_str(kc.as_slice(), "color") || chars_eq_str(kc.as_slice(), "background-color") || chars_eq_str(
        kc.as_slice(),
        "background",
    ) {
        match parse_color(v.as_str()) {
            Ok(c) => {
                if chars_eq_str(kc.as_slice(), "color") {
                    s.fg_color = Some(c);
                } else {
                    s.bg_color = Some(c);
                }
                Ok(())
            },
            Err(e) => Err(e),
        }
    } else if chars_eq_str(kc.as_slice(), "font-weight") {
        let lv = to_lowercase(v.as_str());
        let lc = chars_of(lv.as_str());
        if chars_eq_str(lc.as_slice(), "bold") {
            *s = s.bold();
        }
        Ok(())
    } else if chars_eq_str(kc.as_slice(), "font-style") {
        let lv = to_lowercase(v.as_str());
        let lc = chars_of(lv.as_str());
        if chars_eq_str(lc.as_slice(), "italic") {
            *s = s.italic();
        }
        Ok(())
    } else if chars_eq_str(kc.as_slice(), "text-decoration") {
        let lv = to_lowercase(v.as_str());
        let lc = chars_of(lv.as_str());
        if chars_eq_str(lc.as_slice(), "underline") {
            *s = s.underlined();
        }
        Ok(())
    } else if chars_eq_str(kc.as_slice(), "border") {
        match parse_border(v.as_str()) {
            Ok(_) => Ok(()),
            Err(e) => Err(e),
        }
    } else if chars_eq_str(kc.as_slice(), "padding") {
        match parse_padding(v.as_str()) {
            Ok(_) => Ok(()),
            Err(e) => Err(e),
        }
    } else {
        Ok(())
    }
}

/// `apply_style_exec` where a color value would not panic; `None`, with `s`
/// unchanged, where it would.
fn apply_style_checked(s: &mut Style, k: &String, v: &String) -> (r: Option<Result<(), CssError>>)
    ensures
        match apply_style(*old(s), k@, v@) {
            None => r is None && *final(s) == *old(s),
            Some(Ok(s2)) => r == Some(Ok::<(), CssError>(())) && *final(s) == s2,
            Some(Err(e)) => r matches Some(Err(err)) && err@ == e,
        },
{
    let kc = chars_of(k.as_str());
    proof {
        reveal_strlit("color");
        assert("color"@ =~= seq!['c', 'o', 'l', 'o', 'r']);
        reveal_strlit("background-color");
        assert("background-color"@ =~= seq!['b', 'a', 'c', 'k', 'g', 'r', 'o', 'u', 'n', 'd', '-', 'c', 'o', 'l', 'o', 'r']);
        reveal_strlit("background");
        assert("background"@ =~= seq!['b', 'a', 'c', 'k', 'g', 'r', 'o', 'u', 'n', 'd']);
    }
    if chars_eq_str(kc.as_slice(), "color") || chars_eq_str(kc.as_slice(), "background-color") || chars_eq_str(
        kc.as_slice(),
        "background",
    ) {
        let lowered = normalized_value(v.as_str());
        let lc = chars_of(lowered.as_str());
        if color_text_panics_exec(lc.as_slice()) {
            return None;
        }
    }
    match apply_style_exec(s, k, v) {
        Ok(()) => Some(Ok(())),
        Err(e) => Some(Err(e)),
    }
}

impl Style {
    /// A style from CSS-like syntax: `color`, `background-color` (or
    /// `background`), `font-weight: bold`, `font-style: italic` and
    /// `text-decoration: underline`; `border` and `padding` values are checked;
    /// unknown properties are ignored (see `style_from_entries`).
    pub fn from_css(css: &str) -> (r: Result<Style, CssError>)
        requires
            style_css_spec(css@) is Some,
        ensures
            Some(style_result_view(r)) == style_css_spec(css@),
    {
        let props = match parse_css(css) {
            Ok(p) => p,
            Err(e) => {
                return Err(e);
            },
        };
        let ghost es = entries_view(props@);
        let mut st = Style::default();
        let mut i: usize = 0;
        assert(es.take(0) =~= Seq::<(Seq<char>, Seq<char>)>::empty());
        while i < props.len()
            invariant
                i <= props.len(),
                es == entries_view(props@),
                parse_css_spec(css@) == Ok::<Seq<(Seq<char>, Seq<char>)>, CssErrorView>(es),
                style_from_entries(es) is Some,
                style_from_entries(es.take(i as int)) == Some(Ok::<Style, CssErrorView>(st)),
            decreases props.len() - i,
        {
            proof {
                assert(es.take(i + 1).drop_last() == es.take(i as int));
                assert(es.take(i + 1).last() == es[i as int]);
                assert(es[i as int] == (props@[i as int].0@, props@[i as int].1@));
                if apply_style(st, es[i as int].0, es[i as int].1) is None {
                    lemma_style_stops(es, i + 1);
                }
            }
            match apply_style_exec(&mut st, &props[i].0, &props[i].1) {
                Ok(()) => {},
                Err(e) => {
                    proof {
                        lemma_style_stops(es, i + 1);
                    }
                    return Err(e);
                },
            }
            i = i + 1;
        }
        assert(es.take(props.len() as int) == es);
        Ok(st)
    }

    /// `from_css` where it does not panic: `None` where a color value of the
    /// text would be cut inside a character (see `style_css_spec`).
    pub fn from_css_checked(css: &str) -> (r: Option<Result<Style, CssError>>)
        ensures
            match r {
                None => style_css_spec(css@) is None,
                Some(res) => Some(style_result_view(res)) == style_css_spec(css@),
            },
    {
        let props = match parse_css(css) {
            Ok(p) => p,
            Err(e) => {
                return Some(Err(e));
            },
        };
        let ghost es = entries_view(props@);
        let mut st = Style::default();
        let mut i: usize = 0;
        assert(es.take(0) =~= Seq::<(Seq<char>, Seq<char>)>::empty());
        while i < props.len()
            invariant
                i <= props.len(),
                es == entries_view(props@),
                parse_css_spec(css@) == Ok::<Seq<(Seq<char>, Seq<char>)>, CssErrorView>(es),
                style_from_entries(es.take(i as int)) == Some(Ok::<Style, CssErrorView>(st)),
            decreases props.len() - i,
        {
            proof {
                assert(es.take(i + 1).drop_last() == es.take(i as int));
                assert(es.take(i + 1).last() == es[i as int]);
                assert(es[i as int] == (props@[i as int].0@, props@[i as int].1@));
            }
            match apply_style_checked(&mut st, &props[i].0, &props[i].1) {
                Some(Ok(())) => {},
                Some(Err(e)) => {
                    proof {
                        lemma_style_stops(es, i + 1);
                    }
                    return Some(Err(e));
                },
                None => {
                    proof {
                        lemma_style_stops(es, i + 1);
                    }
                    return None;
                },
            }
            i = i + 1;
        }
        assert(es.take(props.len() as int) == es);
        Some(Ok(st))
    }

    /// The same as `from_css`.
    pub fn css(css: &str) -> (r: Result<Style, CssError>)
        requires
            style_css_spec(css@) is Some,
        ensures
            Some(style_result_view(r)) == style_css_spec(css@),
    {
        Self::from_css(css)
    }
}

/// The text `rgb(r, g, b)` with the components written in decimal.
pub open spec fn rgb_text(r: u8, g: u8, b: u8) -> Seq<char> {
    seq!['r', 'g', 'b', '('] + decimal_text(r as nat) + seq![',', ' '] + decimal_text(g as nat) + seq![',', ' ']
        + decimal_text(b as nat) + seq![')']
}

/// A run of decimal digits, and the same after a space, trim to the digits.
proof fn lemma_trim_digits(d: Seq<char>)
    requires
        d.len() >= 1,
        forall|i: int| 0 <= i < d.len() ==> '0' <= #[trigger] d[i] <= '9',
    ensures
        trim(d) == d,
        trim(seq![' '] + d) == d,
{
    assert(!is_ws(d[0]));
    assert(!is_ws(d[d.len() - 1]));
    lemma_lead_ws_is(d, 0);
    lemma_trail_ws_is(d, 0);
    assert(d.skip(0) =~= d);
    assert(d.take(d.len() as int) =~= d);
    let sd = seq![' '] + d;
    assert(is_ws(sd[0]));
    assert(sd[1] == d[0]);
    lemma_lead_ws_is(sd, 1);
    assert(sd.skip(1) =~= d);
}

/// Splitting `a, b, c` at the commas gives `a`, ` b` and ` c` when none of
/// the three holds a comma.
proof fn lemma_split_three(a: Seq<char>, b: Seq<char>, c: Seq<char>)
    requires
        forall|i: int| 0 <= i < a.len() ==> #[trigger] a[i] != ',',
        forall|i: int| 0 <= i < b.len() ==> #[trigger] b[i] != ',',
        forall|i: int| 0 <= i < c.len() ==> #[trigger] c[i] != ',',
    ensures
        split(a + seq![',', ' '] + b + seq![',', ' '] + c, ',') == seq![a, seq![' '] + b, seq![' '] + c],
{
    let s = a + seq![',', ' '] + b + seq![',', ' '] + c;
    assert forall|j: int| 0 <= j < a.len() implies #[trigger] s[j] != ',' by {
        assert(s[j] == a[j]);
    }
    lemma_index_of_is(s, ',', a.len() as int);
    let s2 = s.skip(a.len() + 1int);
    assert(s2 =~= seq![' '] + b + seq![',', ' '] + c);
    assert forall|j: int| 0 <= j < b.len() + 1int implies #[trigger] s2[j] != ',' by {
        if j > 0 {
            assert(s2[j] == b[j - 1]);
        }
    }
    lemma_index_of_is(s2, ',', b.len() + 1int);
    let s3 = s2.skip(b.len() + 2int);
    assert(s3 =~= seq![' '] + c);
    assert forall|j: int| 0 <= j < s3.len() implies #[trigger] s3[j] != ',' by {
        if j > 0 {
            assert(s3[j] == c[j - 1]);
        }
    }
    lemma_index_of_is(s3, ',', s3.len() as int);
    assert(split(s3, ',') == seq![s3]);
    assert(s.take(a.len() as int) =~= a);
    assert(s2.take(b.len() + 1int) =~= seq![' '] + b);
    assert(split(s2, ',') == seq![s2.take(b.len() + 1int)] + split(s3, ','));
    assert(split(s, ',') == seq![s.take(a.len() as int)] + split(s2, ','));
    assert(split(s, ',') =~= seq![a, seq![' '] + b, seq![' '] + c]);
}

/// A decimal byte reads back as itself.
proof fn lemma_dec_byte_of(n: u8)
    ensures
        dec_byte(decimal_text(n as nat)) == Some(n as nat),
{
    lemma_decimal_text_value(n as nat);
    let d = decimal_text(n as nat);
    assert(d[0] != '+');
}

/// The text `rgb(r, g, b)` reads as those three components.
#[verifier::spinoff_prover]
proof fn lemma_rgb_text_reads(r: u8, g: u8, b: u8)
    ensures
        rgb_color(rgb_text(r, g, b)) == Some(Color::Rgb(r, g, b)),
{
    let dr = decimal_text(r as nat);
    let dg = decimal_text(g as nat);
    let db = decimal_text(b as nat);
    lemma_decimal_text_value(r as nat);
    lemma_decimal_text_value(g as nat);
    lemma_decimal_text_value(b as nat);
    lemma_trim_digits(dr);
    lemma_trim_digits(dg);
    lemma_trim_digits(db);
    lemma_dec_byte_of(r);
    lemma_dec_byte_of(g);
    lemma_dec_byte_of(b);
    let t = rgb_text(r, g, b);
    let args = dr + seq![',', ' '] + dg + seq![',', ' '] + db;
    assert(t =~= seq!['r', 'g', 'b', '('] + args + seq![')']);
    assert(t.take(4) =~= seq!['r', 'g', 'b', '(']);
    assert(t.last() == ')');
    assert(call_args(t) =~= args);
    assert forall|i: int| 0 <= i < dr.len() implies #[trigger] dr[i] != ',' by {
        assert('0' <= dr[i] <= '9');
    }
    assert forall|i: int| 0 <= i < dg.len() implies #[trigger] dg[i] != ',' by {
        assert('0' <= dg[i] <= '9');
    }
    assert forall|i: int| 0 <= i < db.len() implies #[trigger] db[i] != ',' by {
        assert('0' <= db[i] <= '9');
    }
    lemma_split_three(dr, dg, db);
    let parts = split(call_args(t), ',');
    assert(parts == seq![dr, seq![' '] + dg, seq![' '] + db]);
    assert(trim(parts[0]) == dr);
    assert(trim(parts[1]) == dg);
    assert(trim(parts[2]) == db);
}

/// A text of twelve characters or more starting `rg` names no color and is no
/// `#` value.
#[verifier::spinoff_prover]
proof fn lemma_rg_text_unnamed(t: Seq<char>)
    requires
        t.len() >= 12,
        t[0] == 'r',
        t[1] == 'g',
    ensures
        named_color(t).is_none(),
        !(t.len() > 0 && t[0] == '#'),
{
}

/// `rgb(r, g, b)` is the color with red `r`, green `g` and blue `b`: the
/// numbers, in the order written, are the three components (`parse_color`
/// reads this text, trimmed and lower-cased, as `color_spec` says).
pub proof fn law_rgb_components(r: u8, g: u8, b: u8)
    ensures
        color_spec(rgb_text(r, g, b)) == Some(Color::Rgb(r, g, b)),
{
    lemma_rgb_text_reads(r, g, b);
    let t = rgb_text(r, g, b);
    lemma_decimal_text_value(r as nat);
    lemma_decimal_text_value(g as nat);
    lemma_decimal_text_value(b as nat);
    assert(t[0] == 'r' && t[1] == 'g');
    lemma_rg_text_unnamed(t);
}

/// The lower-case hex digit of `d` (below sixteen).
pub open spec fn hex_digit(d: nat) -> char {
    if d < 10 {
        (48 + d) as char
    } else {
        (87 + d) as char
    }
}

/// The text `#rrggbb` with each component as two lower-case hex digits.
pub open spec fn hex_text(r: u8, g: u8, b: u8) -> Seq<char> {
    seq![
        '#',
        hex_digit(r as nat / 16),
        hex_digit(r as nat % 16),
        hex_digit(g as nat / 16),
        hex_digit(g as nat % 16),
        hex_digit(b as nat / 16),
        hex_digit(b as nat % 16),
    ]
}

/// A hex digit reads back as its value.
proof fn lemma_hex_digit_value(d: nat)
    requires
        d < 16,
    ensures
        digit_value(hex_digit(d), 16) == Some(d),
        is_ascii_char(hex_digit(d)),
        hex_digit(d) != '+',
{
}

/// Two hex digits read as a byte.
#[verifier::spinoff_prover]
proof fn lemma_hex_pair(n: u8)
    ensures
        parse_uint(seq![hex_digit(n as nat / 16), hex_digit(n as nat % 16)], 16, 255) == Some(n as nat),
{
    let hi = n as nat / 16;
    let lo = n as nat % 16;
    lemma_hex_digit_value(hi);
    lemma_hex_digit_value(lo);
    let d = seq![hex_digit(hi), hex_digit(lo)];
    assert(d.drop_last() =~= seq![hex_digit(hi)]);
    assert(d.drop_last().drop_last() =~= Seq::<char>::empty());
    let d1 = d.drop_last();
    assert(d1.last() == hex_digit(hi));
    assert(digits_value(d1.drop_last(), 16) == 0);
    assert(digits_value(d1, 16) == digits_value(d1.drop_last(), 16) * 16 + digit_value(d1.last(), 16).unwrap_or(0));
    assert(digits_value(d1, 16) == hi);
    assert(d.last() == hex_digit(lo));
    assert(digits_value(d, 16) == digits_value(d1, 16) * 16 + digit_value(d.last(), 16).unwrap_or(0));
    assert(digits_value(d, 16) == hi * 16 + lo);
    assert(hi * 16 + lo == n);
    assert(all_digits(d, 16)) by {
        assert forall|i: int| 0 <= i < d.len() implies (#[trigger] digit_value(d[i], 16)).is_some() by {
            if i == 0 {
                assert(d[0] == hex_digit(hi));
            } else {
                assert(d[1] == hex_digit(lo));
            }
        }
    }
}

/// A text starting with `#` names no color.
#[verifier::spinoff_prover]
proof fn lemma_hash_text_unnamed(t: Seq<char>)
    requires
        t.len() > 0,
        t[0] == '#',
    ensures
        named_color(t).is_none(),
{
}

/// `#rrggbb` is the color with red `rr`, green `gg` and blue `bb`: the three
/// pairs of hex digits, in the order written, are the components.
pub proof fn law_hex_components(r: u8, g: u8, b: u8)
    ensures
        color_spec(hex_text(r, g, b)) == Some(Color::Rgb(r, g, b)),
{
    let t = hex_text(r, g, b);
    let h = t.drop_first();
    lemma_hash_text_unnamed(t);
    lemma_hex_pair(r);
    lemma_hex_pair(g);
    lemma_hex_pair(b);
    lemma_hex_digit_value(r as nat / 16);
    lemma_hex_digit_value(r as nat % 16);
    lemma_hex_digit_value(g as nat / 16);
    lemma_hex_digit_value(g as nat % 16);
    lemma_hex_digit_value(b as nat / 16);
    lemma_hex_digit_value(b as nat % 16);
    assert(h =~= seq![
        hex_digit(r as nat / 16),
        hex_digit(r as nat % 16),
        hex_digit(g as nat / 16),
        hex_digit(g as nat % 16),
        hex_digit(b as nat / 16),
        hex_digit(b as nat % 16),
    ]);
    assert(all_ascii(h));
    reveal_with_fuel(utf8_bytes, 7);
    assert(utf8_bytes(h) == 6);
    assert(h.subrange(0, 2) =~= seq![hex_digit(r as nat / 16), hex_digit(r as nat % 16)]);
    assert(h.subrange(2, 4) =~= seq![hex_digit(g as nat / 16), hex_digit(g as nat % 16)]);
    assert(h.subrange(4, 6) =~= seq![hex_digit(b as nat / 16), hex_digit(b as nat % 16)]);
    assert(hex_color(h) == Some(Color::Rgb(r, g, b)));
}

/// A number in decimal reads back as a `u16`.
proof fn lemma_dec_u16_of(n: u16)
    ensures
        dec_u16(decimal_text(n as nat)) == Some(n as nat),
{
    lemma_decimal_text_value(n as nat);
    let d = decimal_text(n as nat);
    assert(d[0] != '+');
}

/// The decimal text of a number is one word.
proof fn lemma_decimal_is_word(n: nat)
    ensures
        decimal_text(n).len() >= 1,
        forall|i: int| 0 <= i < decimal_text(n).len() ==> !is_ws(#[trigger] decimal_text(n)[i]),
{
    lemma_decimal_text_value(n);
    assert forall|i: int| 0 <= i < decimal_text(n).len() implies !is_ws(#[trigger] decimal_text(n)[i]) by {
        assert('0' <= decimal_text(n)[i] <= '9');
    }
}

/// Padding written as one number is that padding on every side; written as
/// four numbers separated by spaces, they are the top, right, bottom and left
/// padding, in that order.
pub proof fn law_padding_sides(t: u16, r: u16, b: u16, l: u16)
    ensures
        padding_spec(decimal_text(t as nat)) == Some(Padding { top: t, right: t, bottom: t, left: t }),
        padding_spec(
            decimal_text(t as nat) + seq![' '] + decimal_text(r as nat) + seq![' '] + decimal_text(b as nat) + seq![' ']
                + decimal_text(l as nat),
        ) == Some(Padding { top: t, right: r, bottom: b, left: l }),
{
    let dt = decimal_text(t as nat);
    let dr = decimal_text(r as nat);
    let db = decimal_text(b as nat);
    let dl = decimal_text(l as nat);
    lemma_decimal_is_word(t as nat);
    lemma_decimal_is_word(r as nat);
    lemma_decimal_is_word(b as nat);
    lemma_decimal_is_word(l as nat);
    lemma_dec_u16_of(t);
    lemma_dec_u16_of(r);
    lemma_dec_u16_of(b);
    lemma_dec_u16_of(l);
    lemma_words_empty();
    lemma_words_first(dt, Seq::<char>::empty());
    assert(dt + Seq::<char>::empty() =~= dt);
    assert(words(dt) =~= seq![dt]);
    lemma_words_first(dl, Seq::<char>::empty());
    assert(dl + Seq::<char>::empty() =~= dl);
    let x3 = seq![' '] + dl;
    lemma_words_space(dl);
    lemma_words_first(db, x3);
    let x2 = seq![' '] + (db + x3);
    lemma_words_space(db + x3);
    lemma_words_first(dr, x2);
    let x1 = seq![' '] + (dr + x2);
    lemma_words_space(dr + x2);
    lemma_words_first(dt, x1);
    let all = dt + seq![' '] + dr + seq![' '] + db + seq![' '] + dl;
    assert(all =~= dt + x1);
    assert(words(all) =~= seq![dt, dr, db, dl]);
}

/// Each size property sets exactly its own fields to the number given:
/// `width` both the least and the most width, `height` both heights, the
/// `min-` and `max-` forms one bound each; every other field stays.
pub proof fn law_size_properties(c: ConstraintsView, n: u16)
    ensures
        ({
            let v = decimal_text(n as nat);
            &&& apply_constraint(c, seq!['w', 'i', 'd', 't', 'h'], v) matches Ok(r) && r.min_width == n && r.max_width == Some(n)
                && r.min_height == c.min_height && r.max_height == c.max_height && r.flex == c.flex
            &&& apply_constraint(c, seq!['h', 'e', 'i', 'g', 'h', 't'], v) matches Ok(r) && r.min_height == n && r.max_height == Some(n)
                && r.min_width == c.min_width && r.max_width == c.max_width && r.flex == c.flex
            &&& apply_constraint(c, seq!['m', 'i', 'n', '-', 'w', 'i', 'd', 't', 'h'], v) matches Ok(r) && r.min_width == n
                && r.max_width == c.max_width && r.min_height == c.min_height && r.max_height == c.max_height && r.flex == c.flex
            &&& apply_constraint(c, seq!['m', 'a', 'x', '-', 'w', 'i', 'd', 't', 'h'], v) matches Ok(r) && r.max_width == Some(n)
                && r.min_width == c.min_width && r.min_height == c.min_height && r.max_height == c.max_height && r.flex == c.flex
            &&& apply_constraint(c, seq!['m', 'i', 'n', '-', 'h', 'e', 'i', 'g', 'h', 't'], v) matches Ok(r) && r.min_height == n
                && r.max_height == c.max_height && r.min_width == c.min_width && r.max_width == c.max_width && r.flex == c.flex
            &&& apply_constraint(c, seq!['m', 'a', 'x', '-', 'h', 'e', 'i', 'g', 'h', 't'], v) matches Ok(r) && r.max_height == Some(n)
                && r.min_height == c.min_height && r.min_width == c.min_width && r.max_width == c.max_width && r.flex == c.flex
        }),
{
    lemma_dec_u16_of(n);
}

/// `idx(n)` is the indexed color `n`.
pub proof fn law_indexed_color(n: u8)
    ensures
        color_spec(seq!['i', 'd', 'x', '('] + decimal_text(n as nat) + seq![')']) == Some(Color::Indexed(n)),
{
    let d = decimal_text(n as nat);
    let t = seq!['i', 'd', 'x', '('] + d + seq![')'];
    lemma_decimal_text_value(n as nat);
    lemma_dec_byte_of(n);
    assert(t[0] == 'i');
    assert(t.take(4) =~= seq!['i', 'd', 'x', '(']);
    assert(t.take(4) != seq!['r', 'g', 'b', '(']) by {
        assert(t.take(4)[0] == 'i');
    }
    assert(t.last() == ')');
    assert(call_args(t) =~= d);
    assert(named_color(t).is_none());
    assert(rgb_color(t).is_none());
}

} // verus!
