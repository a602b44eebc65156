use tui::progress::{bar_width, progress_constraints, progress_plan, progress_text, LabelPosition};
use tui::style::Style;
use tui::theme::Theme;

#[test]
fn progress_text_forms() {
    let label = Some("Loading".to_string());
    assert_eq!(progress_text(LabelPosition::Hidden, Some(50), &label), None);
    assert_eq!(progress_text(LabelPosition::Inside, Some(50), &label), Some("Loading 50%".to_string()));
    assert_eq!(progress_text(LabelPosition::Right, Some(100), &None), Some("100%".to_string()));
    assert_eq!(progress_text(LabelPosition::Right, Some(0), &None), Some("0%".to_string()));
    assert_eq!(progress_text(LabelPosition::Inside, None, &label), Some("Loading".to_string()));
    assert_eq!(progress_text(LabelPosition::Inside, None, &None), None);
}

#[test]
fn progress_constraints_room() {
    let text = Some("50%".to_string());
    let c = progress_constraints(Some(20), LabelPosition::Right, &text);
    assert_eq!((c.min_width, c.max_width, c.min_height, c.max_height), (24, Some(24), 1, Some(1)));
    assert!(c.flex.is_none());
    let c = progress_constraints(Some(20), LabelPosition::Inside, &text);
    assert_eq!((c.min_width, c.max_width), (20, Some(20)));
    let c = progress_constraints(None, LabelPosition::Right, &text);
    assert_eq!((c.min_width, c.max_width), (14, None));
    assert_eq!(c.flex.map(|f| f.as_str().to_string()), Some("1.0".to_string()));
    let c = progress_constraints(None, LabelPosition::Hidden, &None);
    assert_eq!(c.min_width, 10);
    let c = progress_constraints(Some(65535), LabelPosition::Right, &text);
    assert_eq!(c.min_width, 65535);
}

#[test]
fn progress_plan_fills_and_labels() {
    let theme = Theme::dark();
    let text = Some("50%".to_string());
    assert_eq!(bar_width(20, LabelPosition::Right, &text), 16);
    assert_eq!(bar_width(20, LabelPosition::Inside, &text), 20);
    assert!(progress_plan(0, 1, LabelPosition::Inside, &text, Some(0), '#', '.', Style::default(), &theme).is_none());
    assert!(progress_plan(3, 1, LabelPosition::Right, &text, Some(0), '#', '.', Style::default(), &theme).is_none());
    let p = progress_plan(10, 1, LabelPosition::Inside, &text, Some(5), '#', '.', Style::default(), &theme).unwrap();
    assert_eq!(p.bar_width, 10);
    let (bar, bar_style) = p.bar.unwrap();
    assert_eq!(bar, "#####");
    assert_eq!(bar_style.bg_color, Some(theme.colors.primary));
    let (ex, empty, _) = p.empty.unwrap();
    assert_eq!((ex, empty.as_str()), (5, "....."));
    let (lx, label, _) = p.label.unwrap();
    assert_eq!((lx, label.as_str()), (3, "50%"));
    let right = progress_plan(10, 1, LabelPosition::Right, &text, None, '#', '.', Style::default(), &theme).unwrap();
    assert_eq!(right.bar_width, 6);
    assert_eq!(right.bar.unwrap().0, "▓▒░▓▒░");
    assert!(right.empty.is_none());
    assert_eq!(right.label.unwrap().0, 7);
    let unknown_inside = progress_plan(10, 1, LabelPosition::Inside, &text, None, '#', '.', Style::default(), &theme).unwrap();
    assert!(unknown_inside.label.is_none());
    let full = progress_plan(4, 1, LabelPosition::Hidden, &None, Some(4), '#', '.', Style::default(), &theme).unwrap();
    assert!(full.empty.is_none() && full.label.is_none());
}
