use tui::css::{parse_color, parse_padding};
use tui::layout::Constraints;
use tui::style::{Color, Padding, Style};

#[test]
fn test_parse_named_color() {
    assert_eq!(parse_color("red").unwrap(), Color::Red);
    assert_eq!(parse_color("blue").unwrap(), Color::Blue);
    assert_eq!(parse_color("RED").unwrap(), Color::Red);
}

#[test]
fn test_parse_hex_color() {
    assert_eq!(parse_color("#ff0000").unwrap(), Color::Rgb(255, 0, 0));
    assert_eq!(parse_color("#f00").unwrap(), Color::Rgb(255, 0, 0));
}

#[test]
fn test_parse_rgb_color() {
    assert_eq!(parse_color("rgb(255, 0, 0)").unwrap(), Color::Rgb(255, 0, 0));
}

#[test]
fn test_parse_indexed_color() {
    assert_eq!(parse_color("idx(123)").unwrap(), Color::Indexed(123));
}

#[test]
fn test_parse_padding_uniform() {
    let padding = parse_padding("2").unwrap();
    assert_eq!(padding, Padding::uniform(2));
}

#[test]
fn test_parse_padding_sides() {
    let padding = parse_padding("1 2 3 4").unwrap();
    assert_eq!(padding, Padding::new(1, 2, 3, 4));
}

#[test]
fn test_constraints_from_css() {
    let constraints = Constraints::from_css("width: 20; height: 10; flex: 1").unwrap();
    assert_eq!(constraints.min_width, 20);
    assert_eq!(constraints.max_width, Some(20));
    assert_eq!(constraints.min_height, 10);
    assert_eq!(constraints.max_height, Some(10));
    let flex = constraints.flex.unwrap();
    assert_eq!(flex.as_str().parse::<f32>().unwrap(), 1.0);
}

#[test]
fn test_style_from_css() {
    let style = Style::from_css("color: red; background-color: blue; font-weight: bold").unwrap();
    assert_eq!(style.fg_color, Some(Color::Red));
    assert_eq!(style.bg_color, Some(Color::Blue));
    assert!(style.modifiers.contains_bold());
}

#[test]
fn style_from_css_flags_and_errors() {
    let style = Style::css("font-style: italic; text-decoration: underline; background: green; border: single").unwrap();
    assert_eq!(style.bg_color, Some(Color::Green));
    assert!(style.modifiers.contains_italic());
    assert!(style.modifiers.contains_underlined());
    assert!(!style.modifiers.contains_bold());
    assert!(Style::from_css("color: notacolor").is_err());
    assert!(Style::from_css("padding: x y").is_err());
    let plain = Style::from_css("width: 10; font-weight: normal").unwrap();
    assert_eq!(plain, Style::default());
}

#[test]
fn style_from_css_checked_guards_cut_colors() {
    let s = Style::from_css_checked("color: red; font-weight: bold").unwrap().unwrap();
    assert_eq!(s.fg_color, Some(Color::Red));
    assert!(s.modifiers.contains_bold());
    assert!(Style::from_css_checked("color: #é1").is_none());
    assert!(Style::from_css_checked("color: notacolor").unwrap().is_err());
    assert!(Style::from_css_checked("background: #12").unwrap().is_err());
}
