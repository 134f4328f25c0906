//! Tests for styles, colors and modifier sets.

use briks::{Color, KeyModifiers, Modifier, Style};

#[test]
fn test_style_builder() {
    let style = Style::new()
        .fg(Color::Red)
        .bg(Color::Blue)
        .modifier(Modifier::bold().with(Modifier::italic()));

    assert_eq!(style.foreground, Some(Color::Red));
    assert_eq!(style.background, Some(Color::Blue));
    assert!(style.modifiers.contains(Modifier::bold()));
    assert!(style.modifiers.contains(Modifier::italic()));
    assert!(!style.modifiers.contains(Modifier::underline()));
}

#[test]
fn test_color_from_hex() {
    assert_eq!(Color::from_hex("#FF5733"), Some(Color::Rgb(255, 87, 51)));
    assert_eq!(Color::from_hex("000000"), Some(Color::Rgb(0, 0, 0)));
    assert_eq!(Color::from_hex("FFFFFF"), Some(Color::Rgb(255, 255, 255)));
    assert_eq!(Color::from_hex("#123"), None);
    assert_eq!(Color::from_hex("invalid"), None);
}

#[test]
fn test_modifier_insert() {
    let mut m = Modifier::empty();
    m.insert(Modifier::dim());
    m.insert(Modifier::reversed());
    assert!(m.contains(Modifier::dim()));
    assert!(m.contains(Modifier::reversed()));
    assert!(!m.contains(Modifier::bold()));
}

#[test]
fn test_key_modifiers_union_laws() {
    let a = KeyModifiers::shift().with(KeyModifiers::alt());
    let b = KeyModifiers::ctrl();
    // The union is the same in either order, and absorbs itself.
    assert_eq!(a.with(b), b.with(a));
    assert_eq!(a.with(a), a);
    assert_eq!(b.with(b), b);
}

#[test]
fn test_key_modifiers_classify_all_subsets() {
    // Membership classifies every subset of {Shift, Ctrl, Alt} correctly.
    for s in [false, true] {
        for c in [false, true] {
            for a in [false, true] {
                let mut m = KeyModifiers::empty();
                if s {
                    m.insert(KeyModifiers::shift());
                }
                if c {
                    m.insert(KeyModifiers::ctrl());
                }
                if a {
                    m.insert(KeyModifiers::alt());
                }
                assert_eq!(m.contains(KeyModifiers::shift()), s);
                assert_eq!(m.contains(KeyModifiers::ctrl()), c);
                assert_eq!(m.contains(KeyModifiers::alt()), a);
            }
        }
    }
}
