use websurfx::server::routes::export_import::style_option_list;
use websurfx::server::routes::export_import::sanitize;
use websurfx::server::routes::export_import::Cookie;
use websurfx::server::routes::export_import::StyleDefaults;

fn strings(xs: &[&str]) -> Vec<String> {
    xs.iter().map(|x| x.to_string()).collect()
}

fn defaults() -> StyleDefaults {
    StyleDefaults {
        theme: "simple".to_string(),
        colorscheme: "catppuccin-mocha".to_string(),
        animation: Some("simple-frosted-glow".to_string()),
    }
}

#[test]
fn an_unknown_theme_falls_back_to_the_default() {
    let mut settings = Cookie {
        theme: "bogus".to_string(),
        colorscheme: "whatever".to_string(),
        animation: None,
        engines: strings(&["mojeek"]),
        safe_search_level: 1,
    };
    sanitize(
        &mut settings,
        &strings(&["simple"]),
        &strings(&["catppuccin-mocha"]),
        &strings(&[""]),
        &strings(&["mojeek", "yahoo"]),
        &defaults(),
    );
    assert_eq!(settings.theme, "simple");
    // only the first invalid option is corrected
    assert_eq!(settings.colorscheme, "whatever");
    assert_eq!(settings.engines, strings(&["mojeek"]));
    assert_eq!(settings.safe_search_level, 1);
}

#[test]
fn unknown_engines_are_dropped_and_high_levels_reset() {
    let mut settings = Cookie {
        theme: "simple".to_string(),
        colorscheme: "catppuccin-mocha".to_string(),
        animation: Some("none-such".to_string()),
        engines: strings(&["mojeek", "bogus", "yahoo"]),
        safe_search_level: 2,
    };
    sanitize(
        &mut settings,
        &strings(&["simple"]),
        &strings(&["catppuccin-mocha"]),
        &strings(&[""]),
        &strings(&["mojeek", "yahoo"]),
        &defaults(),
    );
    assert_eq!(settings.animation, Some("simple-frosted-glow".to_string()));
    assert_eq!(settings.engines, strings(&["mojeek", "yahoo"]));
    assert_eq!(settings.safe_search_level, 0);
}

#[test]
fn style_options_strip_the_suffix() {
    let listed = style_option_list(&strings(&["dark.css", "light.css"]), false);
    assert_eq!(listed, strings(&["dark", "light"]));
    let animations = style_option_list(&strings(&["glow.css"]), true);
    assert_eq!(animations, strings(&["glow", ""]));
}
