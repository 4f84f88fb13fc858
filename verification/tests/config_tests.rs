use my_hub::config::manifest::{default_true, ProgramEntry, ProgramManifest};
use my_hub::config::settings::{default_download_dir, default_theme, CustomColors, Settings};
use my_hub::config::theme::{color_slices_ok, dark_mode, parse_hex, slint_theme, ResolvedTheme};
use my_hub::paths::AppPath;

fn entry(id: &str, name: &str) -> ProgramEntry {
    ProgramEntry {
        id: id.to_string(),
        name: name.to_string(),
        owner: "acme".to_string(),
        repo: format!("{}-repo", id),
        executable: format!("{}.exe", id),
        description: String::new(),
        enabled: true,
    }
}

#[test]
fn find_returns_first_program_with_id() {
    let m = ProgramManifest { program: vec![entry("a", "A"), entry("b", "B"), entry("a", "A2")] };
    assert_eq!(m.find("a").map(|p| p.name.clone()), Some("A".to_string()));
    assert_eq!(m.find("b").map(|p| p.name.clone()), Some("B".to_string()));
    assert!(m.find("c").is_none());
}

#[test]
fn merge_overrides_replaces_by_id_and_appends_new() {
    let mut m = ProgramManifest { program: vec![entry("a", "A"), entry("b", "B")] };
    m.merge_overrides(vec![entry("b", "B-user"), entry("c", "C"), entry("c", "C2")]);
    let names: Vec<String> = m.program.iter().map(|p| p.name.clone()).collect();
    assert_eq!(names, vec!["A", "B-user", "C2"]);
    assert_eq!(m.find("c").unwrap().name, "C2");
    assert_eq!(m.find("a").unwrap().name, "A");
}

#[test]
fn merge_with_no_overrides_keeps_defaults() {
    let mut m = ProgramManifest { program: vec![entry("a", "A")] };
    m.merge_overrides(vec![]);
    assert_eq!(m.program.len(), 1);
    assert_eq!(m.program[0].name, "A");
}

#[test]
fn defaults_of_manifest_and_settings_fields() {
    assert!(default_true());
    assert_eq!(my_hub::config::settings::default_true(), true);
    assert_eq!(default_theme(), "System");
}

#[test]
fn default_download_dir_under_cache_or_relative() {
    let cache = AppPath::from_text("/home/u/.cache");
    assert_eq!(default_download_dir(Some(cache), '/'), "/home/u/.cache/my-hub/downloads");
    let cache_slash = AppPath::from_text("/home/u/.cache/");
    assert_eq!(default_download_dir(Some(cache_slash), '/'), "/home/u/.cache/my-hub/downloads");
    let win = AppPath::from_text("C:\\Users\\u\\AppData\\Local");
    assert_eq!(
        default_download_dir(Some(win), '\\'),
        "C:\\Users\\u\\AppData\\Local\\my-hub\\downloads"
    );
    assert_eq!(default_download_dir(None, '/'), "./downloads");
}

#[test]
fn settings_defaults() {
    let s = Settings::defaults("/tmp/dl".to_string());
    assert!(s.check_on_startup);
    assert!(!s.start_with_windows);
    assert!(s.github_pat.is_none());
    assert_eq!(s.download_dir, "/tmp/dl");
    assert!(!s.move_to_exe_dir);
    assert_eq!(s.theme, "System");
    assert_eq!(s.custom_colors.accent, "#4a9eff");
    assert_eq!(s.custom_colors.background, "#1a1a1a");
    assert_eq!(s.custom_colors.text, "#e0e0e0");
    let c = CustomColors::default();
    assert_eq!(c.accent, "#4a9eff");
}

#[test]
fn apply_general_empty_token_means_none() {
    let mut s = Settings::defaults("d".to_string());
    s.apply_general(false, true, true, "e".to_string(), String::new());
    assert!(!s.check_on_startup);
    assert!(s.start_with_windows);
    assert!(s.move_to_exe_dir);
    assert_eq!(s.download_dir, "e");
    assert!(s.github_pat.is_none());
    s.apply_general(true, false, false, "f".to_string(), "tok".to_string());
    assert_eq!(s.github_pat.as_deref(), Some("tok"));
    assert_eq!(s.theme, "System");
}

#[test]
fn apply_theme_sets_mode_and_colors() {
    let mut s = Settings::defaults("d".to_string());
    s.apply_theme("Light".to_string(), "#111111".to_string(), "#222222".to_string(), "#333333".to_string());
    assert_eq!(s.theme, "Light");
    assert_eq!(s.custom_colors.accent, "#111111");
    assert_eq!(s.custom_colors.background, "#222222");
    assert_eq!(s.custom_colors.text, "#333333");
    assert_eq!(s.download_dir, "d");
}

#[test]
fn dark_mode_only_light_is_light() {
    assert!(dark_mode("Dark"));
    assert!(!dark_mode("Light"));
    assert!(dark_mode("System"));
    assert!(dark_mode(""));
}

fn settings_with_background(bg: &str) -> Settings {
    let mut s = Settings::defaults("d".to_string());
    s.custom_colors.background = bg.to_string();
    s
}

#[test]
fn resolve_dark_lightens_background() {
    let s = Settings::defaults("d".to_string());
    let t = ResolvedTheme::resolve(&s, true);
    assert_eq!(t.background, "#1a1a1a");
    assert_eq!(t.surface, "#313131");
    assert_eq!(t.surface_alt, "#3f3f3f");
    assert_eq!(t.text, "#e0e0e0");
    assert_eq!(t.text_muted, "#888888");
    assert_eq!(t.accent, "#4a9eff");
    assert_eq!(t.border, "#333333");
    assert_eq!(t.success, "#4ade80");
    assert_eq!(t.warning, "#fbbf24");
}

#[test]
fn resolve_light_uses_fixed_palette_with_user_accent() {
    let mut s = Settings::defaults("d".to_string());
    s.custom_colors.accent = "#ff0000".to_string();
    let t = ResolvedTheme::resolve(&s, false);
    assert_eq!(t.background, "#f5f5f5");
    assert_eq!(t.surface, "#ffffff");
    assert_eq!(t.surface_alt, "#fafafa");
    assert_eq!(t.text, "#1a1a1a");
    assert_eq!(t.text_muted, "#666666");
    assert_eq!(t.accent, "#ff0000");
    assert_eq!(t.border, "#e0e0e0");
    assert_eq!(t.success, "#22c55e");
    assert_eq!(t.warning, "#f59e0b");
}

#[test]
fn lighten_rounds_half_up_and_reads_odd_input() {
    // 250 + 5 * 0.1 = 250.5 rounds to 251
    assert_eq!(ResolvedTheme::resolve(&settings_with_background("#fafafa"), true).surface, "#fbfbfb");
    // uppercase digits and white
    assert_eq!(ResolvedTheme::resolve(&settings_with_background("#FFFFFF"), true).surface, "#ffffff");
    // short colours come back as given
    assert_eq!(ResolvedTheme::resolve(&settings_with_background("#abc"), true).surface, "#abc");
    assert_eq!(ResolvedTheme::resolve(&settings_with_background("##abc"), true).surface, "#abc");
    // unparsable channels read as 0
    assert_eq!(ResolvedTheme::resolve(&settings_with_background("zzzzzz"), true).surface, "#1a1a1a");
    // a leading plus sign before one digit parses, as from_str_radix allows
    assert_eq!(ResolvedTheme::resolve(&settings_with_background("#+f+f+f"), true).surface, "#272727");
}

#[test]
fn parse_hex_channels_and_fallbacks() {
    let c = parse_hex("#4a9eff");
    assert_eq!((c.r, c.g, c.b), (74, 158, 255));
    let g = parse_hex("#12");
    assert_eq!((g.r, g.g, g.b), (128, 128, 128));
    let p = parse_hex("zz0000");
    assert_eq!((p.r, p.g, p.b), (128, 0, 0));
}

#[test]
fn color_slices_ok_detects_split_characters() {
    assert!(color_slices_ok("#4a9eff"));
    assert!(color_slices_ok("#é"));
    assert!(color_slices_ok("ééé"));
    assert!(!color_slices_ok("aéé1"));
}

#[test]
fn slint_theme_converts_every_colour() {
    let s = Settings::defaults("d".to_string());
    let t = ResolvedTheme::resolve(&s, true);
    assert!(t.is_readable());
    let p = slint_theme(&t);
    assert_eq!((p.background.r, p.background.g, p.background.b), (0x1a, 0x1a, 0x1a));
    assert_eq!((p.surface.r, p.surface.g, p.surface.b), (0x31, 0x31, 0x31));
    assert_eq!((p.accent_hover.r, p.accent_hover.g, p.accent_hover.b), (0x4a, 0x9e, 0xff));
    assert_eq!((p.danger.r, p.danger.g, p.danger.b), (0xef, 0x44, 0x44));
    assert_eq!((p.warning.r, p.warning.g, p.warning.b), (0xfb, 0xbf, 0x24));
}
