use gosub::css_colors::{get_hex_color_from_name, parse_hex, RgbColor};

#[test]
fn test_css_color() {
    for s in ["#ff0000", "#f00", "#ff0000ff", "#f00f", "#ff0000", "#f00", "#ff0000ff", "#f00f"] {
        let color = RgbColor::from(s);
        assert_eq!(color.r, 255);
        assert_eq!(color.g, 0);
        assert_eq!(color.b, 0);
        assert_eq!(color.a, 255);
    }
}

#[test]
fn random_colors() {
    let color = RgbColor::from("#1234");
    assert_eq!(color.r, 17);
    assert_eq!(color.g, 34);
    assert_eq!(color.b, 51);
    assert_eq!(color.a, 68);

    let color = RgbColor::from("#c2e");
    assert_eq!(color.r, 204);
    assert_eq!(color.g, 34);
    assert_eq!(color.b, 238);
    assert_eq!(color.a, 255);

    let color = RgbColor::from("#432636");
    assert_eq!(color.r, 67);
    assert_eq!(color.g, 38);
    assert_eq!(color.b, 54);
    assert_eq!(color.a, 255);

    let color = RgbColor::from("#10203040");
    assert_eq!(color.r, 16);
    assert_eq!(color.g, 32);
    assert_eq!(color.b, 48);
    assert_eq!(color.a, 64);
}

#[test]
fn wrong_hex_colors() {
    for s in ["#incorrect", "ff0000", "abcd"] {
        let color = RgbColor::from(s);
        assert_eq!(color.r, 0);
        assert_eq!(color.g, 0);
        assert_eq!(color.b, 0);
        assert_eq!(color.a, 255);
    }
}

#[test]
fn named_colors_resolve_through_the_table() {
    assert_eq!(get_hex_color_from_name("red"), Some("#ff0000"));
    assert_eq!(get_hex_color_from_name("rebeccapurple-ish"), None);
    assert_eq!(RgbColor::from("teal"), RgbColor::new(0, 128, 128, 255));
    assert_eq!(RgbColor::from("nonsense"), RgbColor::default());
}

#[test]
fn empty_string_is_opaque_black() {
    assert_eq!(RgbColor::from(""), RgbColor::new(0, 0, 0, 255));
}

#[test]
fn seven_digits_ignore_the_last_one() {
    assert_eq!(parse_hex("#1020304"), RgbColor::default());
    assert_eq!(parse_hex("#1234567"), RgbColor::default());
    assert_eq!(parse_hex("#12345"), RgbColor::default());
    assert_eq!(parse_hex("#12"), RgbColor::default());
    assert_eq!(parse_hex("#123456789"), RgbColor::default());
    assert_eq!(parse_hex("#ABCDEF"), RgbColor::new(0xab, 0xcd, 0xef, 255));
}

#[test]
fn functional_notations_are_not_parsed() {
    assert_eq!(RgbColor::from("rgb(1, 2, 3)"), RgbColor::default());
}
