use radiall::theme::Rgba;
use radiall::wheel::truncate_title;

#[test]
fn parses_qml_color_formats() {
    assert_eq!(Rgba::parse("#0b0b0d"), Some(Rgba::rgb(0x0b, 0x0b, 0x0d)));
    // QML 8-digit = AARRGGBB, alpha first
    assert_eq!(
        Rgba::parse("#85161618"),
        Some(Rgba::rgba(0x16, 0x16, 0x18, 0x85))
    );
    assert_eq!(Rgba::parse("#fff"), Some(Rgba::rgb(255, 255, 255)));
    assert_eq!(Rgba::parse("bogus"), None);
}

#[test]
fn title_truncation() {
    let long = "x".repeat(60);
    let t = truncate_title(&long);
    assert_eq!(t.chars().count(), 43); // 42 + ellipsis
    assert_eq!(truncate_title("short"), "short");
}

use radiall::apps::AppIndex;
use radiall::compositor::WindowInfo;
use radiall::ring::{Core, Mode, RingEntry};
use radiall::theme::{mix_toward_white, theme_names, themes_dir};
use radiall::wheel::{
    arc_tint, dot_count, label_index, monogram, wedge_color, EscAction, MoveAction, ToggleAction, UpAction, Wheel,
};

#[test]
fn color_parse_rejects_malformed() {
    assert_eq!(Rgba::parse("#12345"), None); // five digits
    assert_eq!(Rgba::parse("#gggggg"), None);
    assert_eq!(Rgba::parse("123456"), None); // no hash
    assert_eq!(Rgba::parse(""), None);
    assert_eq!(Rgba::parse("#ABC"), Some(Rgba::rgb(0xaa, 0xbb, 0xcc)));
    assert_eq!(Rgba::parse("#FF000080"), Some(Rgba::rgba(0, 0, 0x80, 0xff)));
    // only hex digits may follow the hash
    assert_eq!(Rgba::parse("#+ff"), None);
    assert_eq!(Rgba::parse("#-fffff"), None);
    assert_eq!(Rgba::parse("#ff ff"), None);
}

#[test]
fn with_alpha_keeps_the_channels() {
    let c = Rgba::rgb(1, 2, 3).with_alpha(9);
    assert_eq!(c, Rgba::rgba(1, 2, 3, 9));
}

#[test]
fn mix_toward_white_matches_the_float_formula() {
    // channel * 0.96 + 255 * 0.04, rounded
    for v in 0..=255u8 {
        let f = (v as f32 * 0.96 + 255.0 * 0.04).round() as u8;
        let m = mix_toward_white(Rgba::rgba(v, v, v, 7));
        assert_eq!(m, Rgba::rgb(f, f, f), "channel {v}");
    }
}

#[test]
fn theme_dir_and_names() {
    assert_eq!(themes_dir("/home/u/.config/radiall"), "/home/u/.config/radiall/themes");
    assert_eq!(
        theme_names(vec!["nord".into(), "dracula".into()]),
        vec!["default".to_string(), "dracula".to_string(), "nord".to_string()]
    );
    assert_eq!(
        theme_names(vec!["zeta".into(), "default".into()]),
        vec!["default".to_string(), "zeta".to_string()]
    );
    assert_eq!(theme_names(vec![]), vec!["default".to_string()]);
}

#[test]
fn wheel_toggle_round_trip() {
    let mut w = Wheel::new();
    assert_eq!(w.toggle(Mode::Windows), ToggleAction::Open(Mode::Windows));
    w.opened(Mode::Windows);
    assert_eq!(w.toggle(Mode::Windows), ToggleAction::Close);
    // another ring's command switches rings
    assert_eq!(w.toggle(Mode::Apps), ToggleAction::Open(Mode::Apps));
    assert!(w.close());
    assert!(!w.close());
}

#[test]
fn wheel_esc_backs_out_one_level() {
    let mut w = Wheel::new();
    w.opened(Mode::Apps);
    assert!(w.on_down(2));
    w.long_press_fired();
    assert!(w.arc_open);
    // the release of the long press does nothing
    assert_eq!(w.on_up(false, false, 2, 5), UpAction::Suppressed);
    assert_eq!(w.on_esc(), EscAction::CloseArc);
    assert!(w.open && !w.arc_open);
    assert_eq!(w.on_esc(), EscAction::Close);
    assert!(!w.open);
}

#[test]
fn wheel_pointer_decisions() {
    let mut w = Wheel::new();
    w.opened(Mode::Apps);
    assert_eq!(w.on_moved(true, -1, false), MoveAction::Hole(true));
    w.settings_button_shown();
    assert_eq!(w.on_moved(true, -1, false), MoveAction::Hole(false));
    assert_eq!(w.on_moved(false, 3, false), MoveAction::Slice(3, true));
    assert!(!w.show_settings_btn);
    assert!(!w.on_down(-1));
    assert_eq!(w.on_up(false, false, 3, 5), UpAction::Activate(3));
    assert!(!w.open);
    w.opened(Mode::Apps);
    assert_eq!(w.on_up(false, false, 7, 5), UpAction::Close);
    w.opened(Mode::Apps);
    w.settings_button_shown();
    assert_eq!(w.on_up(true, false, -1, 5), UpAction::OpenSettings);
    assert_eq!(w.on_scroll(1, 5), Some(1));
    w.opened(Mode::Actions);
    assert_eq!(w.on_scroll(1, 5), None);
    assert!(!w.on_down(1)); // no long press outside the apps ring
    assert!(w.rebuild_on_windows() && w.rebuild_on_active());
    assert!(!w.on_arc_clicked(0, 3));
}

#[test]
fn label_and_glyph_helpers() {
    assert_eq!(label_index(3, 1), 3);
    assert_eq!(label_index(-1, 1), 1);
    assert_eq!(label_index(-1, -1), 0);
    assert_eq!(monogram("kitty"), "K");
    assert_eq!(monogram(""), "");
    assert_eq!(dot_count(2), 2);
    assert_eq!(dot_count(9), 6);
    let sector = Rgba::rgb(1, 1, 1);
    let e = RingEntry { color: "#ff0000".into(), ..Default::default() };
    assert_eq!(wedge_color(Some(&e), sector), Rgba::rgb(255, 0, 0));
    assert_eq!(wedge_color(None, sector), sector);
    assert_eq!(arc_tint("nope"), Rgba::rgb(255, 255, 255));
    assert_eq!(arc_tint("#00ff00"), Rgba::rgb(0, 255, 0));
}

#[test]
fn center_label_shows_the_chosen_window() {
    let mut core = Core::new(vec![], AppIndex::default(), false, false);
    let w = |id: &str, t: &str| WindowInfo { id: id.into(), app_id: "kitty".into(), title: t.into(), focused: false };
    core.windows = vec![w("1", "one"), w("2", "two")];
    let e = RingEntry { name: "Kitty".into(), wm_class: "kitty".into(), ..Default::default() };
    assert_eq!(core.center_label(&e), "Kitty  \u{b7}  one   1/2");
    core.cycle_window(&e, 1);
    assert_eq!(core.center_label(&e), "Kitty  \u{b7}  two   2/2");
    core.windows.truncate(1);
    assert_eq!(core.center_label(&e), "Kitty");
}

use radiall::theme::{overlay_palette, ThemeKeys};

#[test]
fn theme_overlay_beats_settings_beats_default() {
    // no theme keys, settings accent wins over default
    let s = overlay_palette(None, Some("#ff0000".to_string()), ThemeKeys::default());
    assert_eq!(s.accent, Rgba::rgb(255, 0, 0));
    // untouched keys keep defaults
    assert_eq!(s.bg, Rgba::rgb(0x0b, 0x0b, 0x0d));
    assert_eq!(s.fg, Rgba::rgba(255, 255, 255, 224));
    assert_eq!(s.font, "SF Pro Text");
}

#[test]
fn theme_key_beats_settings_pick() {
    let keys = ThemeKeys {
        bg: Some("#101010".to_string()),
        accent: Some("#00ff00".to_string()),
        fg: Some("#80ffffff".to_string()),
        font: Some("Inter".to_string()),
        ..ThemeKeys::default()
    };
    let s = overlay_palette(Some("#202020".to_string()), Some("#ff0000".to_string()), keys);
    assert_eq!(s.bg, Rgba::rgb(0x10, 0x10, 0x10));
    assert_eq!(s.accent, Rgba::rgb(0, 255, 0));
    assert_eq!(s.fg, Rgba::rgba(255, 255, 255, 0x80));
    assert_eq!(s.font, "Inter");
    assert_eq!(s.mono_font, "JetBrainsMono Nerd Font");
}

#[test]
fn unreadable_theme_value_falls_back() {
    let keys = ThemeKeys { accent: Some("teal".to_string()), red: Some("#12345".to_string()), ..ThemeKeys::default() };
    // the theme's accent does not parse: the settings pick stands
    let s = overlay_palette(None, Some("#fff".to_string()), keys.clone());
    assert_eq!(s.accent, Rgba::rgb(255, 255, 255));
    assert_eq!(s.red, Rgba::rgb(0xff, 0x45, 0x3a));
    // and with no settings pick, the default
    let d = overlay_palette(Some("bogus".to_string()), None, keys);
    assert_eq!(d.accent, Rgba::rgb(0x0a, 0x84, 0xff));
    assert_eq!(d.bg, Rgba::rgb(0x0b, 0x0b, 0x0d));
}

#[test]
fn formatted_colors_parse_back() {
    let c = Rgba::rgba(0x0a, 0x84, 0xff, 0x33);
    let rgb = format!("#{:02x}{:02x}{:02x}", c.r, c.g, c.b);
    assert_eq!(Rgba::parse(&rgb), Some(Rgba::rgb(0x0a, 0x84, 0xff)));
    let argb = format!("#{:02X}{:02X}{:02X}{:02X}", c.a, c.r, c.g, c.b);
    assert_eq!(Rgba::parse(&argb), Some(c));
    assert_eq!(Rgba::parse("#a1F"), Some(Rgba::rgb(0xaa, 0x11, 0xff)));
}

use radiall::theme::{overlay_keys, resolve_theme};

#[test]
fn extends_applies_the_parent_first() {
    // parent.json = {"accent": "#00ff00"}, child.json = {"extends": "parent"}
    let parent = ThemeKeys { accent: Some("#00ff00".to_string()), ..ThemeKeys::default() };
    let child = ThemeKeys::default();
    let keys = resolve_theme(vec![parent, child]);
    let s = overlay_palette(None, None, keys);
    assert_eq!(s.accent, Rgba::rgb(0, 255, 0));
}

#[test]
fn extends_chain_child_keys_win() {
    let root = ThemeKeys {
        accent: Some("#111".to_string()),
        bg: Some("#222".to_string()),
        sector: Some("#333".to_string()),
        ..ThemeKeys::default()
    };
    let mid = ThemeKeys { accent: Some("#444".to_string()), dot: Some("#555".to_string()), ..ThemeKeys::default() };
    // "" un-pins the automatic sector key the root pinned
    let leaf = ThemeKeys { sector: Some(String::new()), ..ThemeKeys::default() };
    let keys = resolve_theme(vec![root, mid, leaf]);
    assert_eq!(keys.accent.as_deref(), Some("#444"));
    assert_eq!(keys.bg.as_deref(), Some("#222"));
    assert_eq!(keys.sector, None);
    assert_eq!(keys.dot.as_deref(), Some("#555"));
    let s = overlay_palette(None, None, keys);
    assert_eq!(s.accent, Rgba::rgb(0x44, 0x44, 0x44));
    assert_eq!(s.bg, Rgba::rgb(0x22, 0x22, 0x22));
    assert_eq!(s.sector, None);
    assert_eq!(s.dot, Some(Rgba::rgb(0x55, 0x55, 0x55)));
}

#[test]
fn overlay_keys_keeps_inherited_and_resets_empty_autos() {
    let base = ThemeKeys { fg: Some("#abc".to_string()), on_band: Some("#fff".to_string()), ..ThemeKeys::default() };
    let top = ThemeKeys { on_band: Some(String::new()), red: Some("#f00".to_string()), ..ThemeKeys::default() };
    let k = overlay_keys(base, top);
    assert_eq!(k.fg.as_deref(), Some("#abc"));
    assert_eq!(k.red.as_deref(), Some("#f00"));
    assert_eq!(k.on_band, None);
    // no theme at all resolves to no keys
    let none = resolve_theme(Vec::new());
    assert_eq!(none.accent, None);
}
