//! Display widths of text in terminal columns, as the `unicode-width` crate
//! computes them.

use vstd::prelude::*;

verus! {

/// A character that takes exactly one column: printable ASCII, from space to `~`.
pub open spec fn is_narrow_ascii(c: char) -> bool {
    ' ' <= c && c <= '~'
}

/// A control character: below space, or from DEL to just below U+00A0.
pub open spec fn is_control(c: char) -> bool {
    (c as u32) < 0x20 || (0x7F <= (c as u32) && (c as u32) < 0xA0)
}

/// Text made of printable ASCII only.
pub open spec fn narrow_ascii(s: Seq<char>) -> bool {
    forall|i: int| 0 <= i < s.len() ==> is_narrow_ascii(#[trigger] s[i])
}

/// The column width `UnicodeWidthStr::width` gives the text.
pub uninterp spec fn text_width(s: Seq<char>) -> nat;

/// The column width `UnicodeWidthChar::width` gives the character (`None` for a
/// control character).
pub uninterp spec fn char_cells(c: char) -> Option<usize>;

/// `unicode_width::UnicodeWidthStr::width`: the text's width in columns. The
/// result is named `text_width`; beside that, the crate's rules give each
/// printable ASCII character one column, so text of those only is as wide as it
/// is long. Other widths (wide, combining, emoji sequences) are left unstated.
#[verifier::external_body]
pub(crate) fn str_width(s: &str) -> (w: usize)
    ensures
        w == text_width(s@),
        narrow_ascii(s@) ==> w == s@.len(),
{
    unicode_width::UnicodeWidthStr::width(s)
}

/// `unicode_width::UnicodeWidthChar::width`: the character's width in columns,
/// `None` for a control character. The result is named `char_cells`; the crate
/// gives printable ASCII `Some(1)`, control characters `None`, and no character
/// more than three columns (its table holds two bits per character, and the
/// one character marked three stays at three).
#[verifier::external_body]
pub(crate) fn char_width(c: char) -> (w: Option<usize>)
    ensures
        w == char_cells(c),
        is_narrow_ascii(c) ==> w == Some(1usize),
        is_control(c) ==> w.is_none(),
        w matches Some(n) ==> n <= 3,
{
    unicode_width::UnicodeWidthChar::width(c)
}

} // verus!
