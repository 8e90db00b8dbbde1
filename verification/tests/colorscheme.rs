use dzed::colorscheme::{find_color, parse_hex_color, resolve_color, ColorScheme, ColorSchemeFile, Metadata, Rgb};
use dzed::theme::ThemeColor;

fn table(entries: &[(&str, &str)]) -> Vec<(String, String)> {
    entries.iter().map(|(k, v)| (k.to_string(), v.to_string())).collect()
}

#[test]
fn colorscheme_resolves_palette_links() {
    let parsed = ColorSchemeFile {
        metadata: Metadata {
            name: "catppuccin-mocha".to_string(),
            description: Some("Soothing pastel theme for the high-spirited!".to_string()),
            author: Some("Catppuccin Community".to_string()),
            scheme_type: Some("dark".to_string()),
        },
        colors: table(&[
            ("base", "#1e1e2e"),
            ("text", "#cdd6f4"),
            ("rosewater", "#f5e0dc"),
            ("mauve", "#cba6f7"),
            ("sky", "#89dceb"),
        ]),
        ui: table(&[("foreground", "text"), ("background", "base"), ("caret", "rosewater"), ("selection", "foreground")]),
        syntax: table(&[("comment", "#6c7086"), ("keyword", "mauve"), ("operator", "sky"), ("function", "keyword")]),
    };
    let scheme = ColorScheme::from_file(parsed);

    assert_eq!(scheme.metadata.name, "catppuccin-mocha");
    assert_eq!(scheme.metadata.scheme_type.as_deref(), Some("dark"));
    assert_eq!(find_color(&scheme.colors, "base"), Some(Rgb { r: 30, g: 30, b: 46 }));
    assert_eq!(find_color(&scheme.ui, "background"), Some(Rgb { r: 30, g: 30, b: 46 }));
    assert_eq!(find_color(&scheme.ui, "foreground"), Some(Rgb { r: 205, g: 214, b: 244 }));
    assert_eq!(find_color(&scheme.ui, "selection"), Some(Rgb { r: 205, g: 214, b: 244 }));
    assert_eq!(find_color(&scheme.syntax, "comment"), Some(Rgb { r: 108, g: 112, b: 134 }));
    assert_eq!(find_color(&scheme.syntax, "function"), Some(Rgb { r: 203, g: 166, b: 247 }));
    assert_eq!(find_color(&scheme.syntax, "missing"), None);
}

#[test]
fn parses_hex_codes() {
    assert_eq!(parse_hex_color("#ff8000"), Some(Rgb { r: 255, g: 128, b: 0 }));
    assert_eq!(parse_hex_color("  ##FfF "), Some(Rgb { r: 255, g: 255, b: 255 }));
    assert_eq!(parse_hex_color("#abc"), Some(Rgb { r: 0xaa, g: 0xbb, b: 0xcc }));
    assert_eq!(parse_hex_color("+f+f+f"), Some(Rgb { r: 15, g: 15, b: 15 }));
    assert_eq!(parse_hex_color("#12345"), None);
    assert_eq!(parse_hex_color("#gg0000"), None);
    assert_eq!(parse_hex_color("text"), None);
    assert_eq!(parse_hex_color("#éé"), None);
}

#[test]
fn links_are_followed_at_most_ten_deep() {
    let palette = table(&[]);
    let mut chain: Vec<(String, String)> = Vec::new();
    for i in 0..12 {
        chain.push((format!("c{i}"), format!("c{}", i + 1)));
    }
    chain.push(("c12".to_string(), "#010203".to_string()));
    assert_eq!(resolve_color("c3", &palette, &chain), Some(Rgb { r: 1, g: 2, b: 3 }));
    assert_eq!(resolve_color("c0", &palette, &chain), None);
    let cycle = table(&[("a", "b"), ("b", "a")]);
    assert_eq!(resolve_color("a", &palette, &cycle), None);
}

#[test]
fn theme_colors_lighten_and_darken() {
    let c = ThemeColor { r: 250, g: 10, b: 100, a: 7 };
    assert_eq!(c.lighten(10), ThemeColor { r: 255, g: 20, b: 110, a: 7 });
    assert_eq!(c.darken(20), ThemeColor { r: 230, g: 0, b: 80, a: 7 });
    assert_eq!(c.rgb(), Rgb { r: 250, g: 10, b: 100 });
}
