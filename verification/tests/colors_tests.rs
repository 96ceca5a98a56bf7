use ppc::colors::{
    bytes_eq, parse_lab, parse_lch, parse_rgb, parse_xyz, resolve_css, resolve_named, CssColor,
    NumbersQuery, RgbQuery, SRgb,
};

#[test]
fn named_colors_resolve() {
    assert_eq!(resolve_named("aliceblue"), Some(SRgb { r: 240, g: 248, b: 255 }));
    assert_eq!(resolve_named("black"), Some(SRgb { r: 0, g: 0, b: 0 }));
    assert_eq!(resolve_named("white"), Some(SRgb { r: 255, g: 255, b: 255 }));
    assert_eq!(resolve_named("rebeccapurple"), Some(SRgb { r: 102, g: 51, b: 153 }));
    assert_eq!(resolve_named("yellowgreen"), Some(SRgb { r: 154, g: 205, b: 50 }));
}

#[test]
fn unknown_names_do_not_resolve() {
    assert_eq!(resolve_named(""), None);
    assert_eq!(resolve_named("Black"), None);
    assert_eq!(resolve_named("blacks"), None);
    assert_eq!(resolve_named(" black"), None);
    assert_eq!(resolve_named("rgb(0 0 0)"), None);
}

#[test]
fn byte_equality() {
    assert!(bytes_eq(b"abc", b"abc"));
    assert!(!bytes_eq(b"abc", b"abd"));
    assert!(!bytes_eq(b"abc", b"ab"));
    assert!(bytes_eq(b"", b""));
}

#[test]
fn rgb_strings() {
    assert_eq!(
        parse_rgb("rgb(255 0 12)"),
        Some(RgbQuery { r: 255, g: 0, b: 12, alpha: None })
    );
    // Leading zeros are allowed, up to three digits.
    assert_eq!(
        parse_rgb("rgb(007 10 249)"),
        Some(RgbQuery { r: 7, g: 10, b: 249, alpha: None })
    );
    let s = "rgb(1 2 3 0.5)";
    let q = parse_rgb(s).unwrap();
    assert_eq!((q.r, q.g, q.b), (1, 2, 3));
    let (a, e) = q.alpha.unwrap();
    assert_eq!(&s[a..e], "0.5");
}

#[test]
fn rgb_strings_out_of_range_or_malformed() {
    assert_eq!(parse_rgb("rgb(256 0 0)"), None);
    assert_eq!(parse_rgb("rgb(1000 0 0)"), None);
    assert_eq!(parse_rgb("rgb(1 2)"), None);
    assert_eq!(parse_rgb("rgb(1,2,3)"), None);
    assert_eq!(parse_rgb("rgb(1 2 3"), None);
    assert_eq!(parse_rgb("rgb(1.5 2 3)"), None);
    assert_eq!(parse_rgb("rgb(1 2 3 .)"), None);
    assert_eq!(parse_rgb("rgb( 1 2 3)"), None);
    assert_eq!(parse_rgb(""), None);
}

#[test]
fn rgb_first_match_is_taken() {
    let s = "x rgb(bad) rgb(4 5 6) rgb(7 8 9)";
    assert_eq!(parse_rgb(s), Some(RgbQuery { r: 4, g: 5, b: 6, alpha: None }));
}

#[test]
fn number_strings() {
    let s = "xyz(0.25 -1 +.5)";
    let q = parse_xyz(s).unwrap();
    let [(a0, e0), (a1, e1), (a2, e2)] = q.channels;
    assert_eq!((&s[a0..e0], &s[a1..e1], &s[a2..e2]), ("0.25", "-1", "+.5"));
    assert_eq!(q.alpha, None);

    let s = "lab(50 20 -30 1)";
    let q = parse_lab(s).unwrap();
    assert_eq!(q.channels, [(4, 6), (7, 9), (10, 13)]);
    assert_eq!(q.alpha, Some((14, 15)));

    let s = "lch(50 20 180)";
    assert_eq!(
        parse_lch(s),
        Some(NumbersQuery { channels: [(4, 6), (7, 9), (10, 13)], alpha: None })
    );
}

#[test]
fn malformed_number_strings() {
    assert_eq!(parse_xyz("xyz(1. 2 3)"), None);
    assert_eq!(parse_xyz("xyz(1 2 3.)"), None);
    assert_eq!(parse_xyz("xyz(1..2 2 3)"), None);
    assert_eq!(parse_xyz("xyz(1-2 2 3)"), None);
    assert_eq!(parse_xyz("xyz(+ 2 3)"), None);
    assert_eq!(parse_xyz("xyz(1 2 3 4 5)"), None);
    assert_eq!(parse_lab("xyz(1 2 3)"), None);
}

#[test]
fn css_strings_resolve_by_kind() {
    assert_eq!(
        resolve_css("red"),
        Some(CssColor::Named(SRgb { r: 255, g: 0, b: 0 }))
    );
    assert_eq!(
        resolve_css("rgb(1 2 3)"),
        Some(CssColor::Rgb(RgbQuery { r: 1, g: 2, b: 3, alpha: None }))
    );
    assert!(matches!(resolve_css("xyz(0.1 0.2 0.3)"), Some(CssColor::Xyz(_))));
    assert!(matches!(resolve_css("lab(50 0 0)"), Some(CssColor::Lab(_))));
}

#[test]
fn css_strings_that_do_not_resolve() {
    // A string must start with the prefix of the kind it names.
    assert_eq!(resolve_css(" rgb(1 2 3)"), None);
    assert_eq!(resolve_css("rgb(300 2 3)"), None);
    assert_eq!(resolve_css("lch(50 20 180)"), None);
    assert_eq!(resolve_css("hsl(0 0 0)"), None);
    assert_eq!(resolve_css(""), None);
}

#[test]
fn css_prefix_decides_the_kind() {
    // The prefix picks the grammar; the first match of that grammar counts.
    assert_eq!(
        resolve_css("rgbx rgb(9 8 7)"),
        Some(CssColor::Rgb(RgbQuery { r: 9, g: 8, b: 7, alpha: None }))
    );
    assert_eq!(resolve_css("xyz rgb(9 8 7)"), None);
}
