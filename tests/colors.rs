use nexus_badges::badge_options::{deserialize_color, Color};

#[test]
fn hex_colors_are_accepted_with_or_without_hash() {
    let c = Color::from_str("23282e").unwrap();
    assert_eq!(c.0.as_deref(), Some("#23282e"));
    let c = Color::from_str("#23282E").unwrap();
    assert_eq!(c.0.as_deref(), Some("#23282e"));
    assert!(c.is_some());
}

#[test]
fn invalid_colors_are_refused() {
    assert_eq!(Color::from_str("zz0000").unwrap_err(), "Color must contain only hex digits");
    assert_eq!(Color::from_str("12345").unwrap_err(), "Color must be 6 hex digits");
    assert_eq!(Color::from_str("#1234567").unwrap_err(), "Color must be 6 hex digits");
    assert_eq!(Color::from_str("##23282e").unwrap_err(), "Color must be 6 hex digits");
}

#[test]
fn default_in_any_case_means_no_override() {
    assert!(Color::from_str("default").unwrap().is_none());
    assert!(Color::from_str("DeFaUlT").unwrap().is_none());
    assert_eq!(Color::none().text(), "default");
}

#[test]
fn invalid_stored_color_falls_back_with_warning() {
    let (c, warning) = deserialize_color("zz0000");
    assert!(c.is_none());
    assert_eq!(warning, Some("Color must contain only hex digits"));
    let (c, warning) = deserialize_color("#ABCdef");
    assert_eq!(c.0.as_deref(), Some("#abcdef"));
    assert_eq!(warning, None);
}
