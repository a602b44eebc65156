use tui::style::TextModifiers;

#[test]
fn builders_set_only_their_own_flags() {
    let m = TextModifiers::empty().with_reversed().with_dim();
    assert!(!m.contains_underlined());
    assert!(!m.contains_bold() && !m.contains_italic());
    assert!(!m.is_empty());
    let all = m.with_bold().with_italic().with_underlined();
    assert!(all.contains_bold() && all.contains_italic() && all.contains_underlined());
    assert!(TextModifiers::empty().is_empty());
    assert!(!TextModifiers::empty().with_dim().is_empty());
    assert!(TextModifiers::empty().with_italic().with_italic().contains_italic());
}
