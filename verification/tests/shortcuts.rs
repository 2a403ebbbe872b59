use radiall::config::KeybindSettings;
use radiall::shortcuts::{bind_line, exec_cmd, hypr_mods, parse, provider_override, valid, ProviderKind};
use radiall::shortcuts_portal::bindings;
use radiall::shortcuts_x11::{keysym_for, mod_mask};
use x11rb::protocol::xproto::ModMask;

#[test]
fn parse_and_mods() {
    let c = parse("ctrl+shift+r");
    assert_eq!(c.mods, ["ctrl", "shift"]);
    assert_eq!(c.key, "r");
    assert_eq!(hypr_mods(&c), "CTRL SHIFT");
    assert_eq!(parse("").key, "");
    assert_eq!(parse("f11").mods.len(), 0);
}

#[test]
fn validity_rejects_lone_modifiers() {
    assert!(valid("super+a"));
    assert!(valid("f5"));
    assert!(!valid("ctrl+shift"));
    assert!(!valid(""));
    assert!(!valid("super"));
}

#[test]
fn bind_lines_use_exec_cli() {
    let exec = exec_cmd(Some("/usr/local/bin/radiall"));
    let line = bind_line("apps", &parse("super+a"), &exec);
    assert!(line.starts_with("bind = SUPER, a, exec, "), "{line}");
    assert!(line.ends_with(" --apps\n"), "{line}");
    // the exec target is the running binary (or bare radiall fallback)
    assert!(line.contains("radiall"), "{line}");
}

#[test]
fn provider_override_parsing() {
    assert_eq!(provider_override("hyprctl"), Some(ProviderKind::Hyprctl));
    assert_eq!(provider_override("hyprland"), Some(ProviderKind::Hyprctl));
    assert_eq!(provider_override(" Portal "), Some(ProviderKind::Portal));
    assert_eq!(provider_override("X11"), Some(ProviderKind::X11));
    assert_eq!(provider_override("none"), Some(ProviderKind::NoProvider));
    assert_eq!(provider_override("off"), Some(ProviderKind::NoProvider));
    assert_eq!(provider_override("kglobalaccel"), None);
    assert_eq!(provider_override(""), None);
}

#[test]
fn trigger_mapping() {
    assert_eq!(radiall::shortcuts_portal::trigger(&parse("super+a")), "LOGO+a");
    assert_eq!(radiall::shortcuts_portal::trigger(&parse("ctrl+shift+r")), "CTRL+SHIFT+r");
    assert_eq!(radiall::shortcuts_portal::trigger(&parse("meta+alt+F5")), "LOGO+ALT+F5");
    assert_eq!(radiall::shortcuts_portal::trigger(&parse("control+space")), "CTRL+space");
    assert_eq!(radiall::shortcuts_portal::trigger(&parse("f11")), "f11");
    // unknown modifiers are dropped, not passed through
    assert_eq!(radiall::shortcuts_portal::trigger(&parse("hyper+x")), "x");
}

#[test]
fn bindings_respect_master_toggle_and_validity() {
    let mut settings = KeybindSettings::default();
    settings.shortcuts.apps = "super+a".into();
    settings.shortcuts.windows = "ctrl+shift".into(); // invalid: lone mods
    settings.shortcuts.actions = "super+d".into();
    let binds = bindings(&settings);
    assert_eq!(
        binds,
        vec![("apps", "LOGO+a".to_owned()), ("actions", "LOGO+d".to_owned())]
    );
    settings.shortcuts_enabled = false;
    assert!(bindings(&settings).is_empty());
}

#[test]
fn modifier_mask_mapping() {
    assert_eq!(mod_mask(&parse("ctrl+a")), u16::from(ModMask::CONTROL));
    assert_eq!(mod_mask(&parse("shift+a")), u16::from(ModMask::SHIFT));
    assert_eq!(mod_mask(&parse("alt+a")), u16::from(ModMask::M1));
    assert_eq!(mod_mask(&parse("super+a")), u16::from(ModMask::M4));
    assert_eq!(mod_mask(&parse("meta+a")), u16::from(ModMask::M4));
    assert_eq!(
        mod_mask(&parse("ctrl+shift+r")),
        u16::from(ModMask::CONTROL) | u16::from(ModMask::SHIFT)
    );
    assert_eq!(mod_mask(&parse("hyper+a")), 0); // unknown ignored
    assert_eq!(mod_mask(&parse("f11")), 0);
}

#[test]
fn keysyms_cover_latin_digits_and_named_keys() {
    assert_eq!(keysym_for("a"), Some('a' as u32));
    assert_eq!(keysym_for("A"), Some('a' as u32)); // case-folded
    assert_eq!(keysym_for("7"), Some('7' as u32));
    assert_eq!(keysym_for("f1"), Some(0xffbe));
    assert_eq!(keysym_for("F12"), Some(0xffc9));
    assert_eq!(keysym_for("space"), Some(0x20));
    assert_eq!(keysym_for("return"), Some(0xff0d));
    assert_eq!(keysym_for(""), None);
    assert_eq!(keysym_for("f99"), None);
}

use radiall::shortcuts::{
    apply_shortcuts, binds_file, binds_text, cleared_binds_text, combo_for, detect_provider, update_shortcut,
    HyprOp, Platform, Session, Shortcuts,
};
use radiall::shortcuts_portal::{request_path, token_name};
use radiall::shortcuts_win::{combos_of, id_for_mode, mode_for_id, mods_for, vk_for, MOD_ALT, MOD_CONTROL, MOD_NOREPEAT, MOD_SHIFT, MOD_WIN};

fn op_text(op: &HyprOp) -> String {
    match op {
        HyprOp::Unbind(a) => format!("unbind {a}"),
        HyprOp::Bind(a) => format!("bind {a}"),
        HyprOp::WriteBindsFile(t) => format!("write {t}"),
        HyprOp::ClearBindsFile => "clear".to_string(),
    }
}

#[test]
fn parse_keeps_key_case_and_trims_pieces() {
    let c = parse(" Super + Shift + A ");
    assert_eq!(c.mods, ["super", "shift"]);
    assert_eq!(c.key, "A");
    assert_eq!(hypr_mods(&parse("ctrl+alt+meta+x")), "CTRL ALT META");
    assert_eq!(hypr_mods(&parse("control+hyper+x")), "CONTROL HYPER");
}

#[test]
fn exec_cmd_uses_a_spaceless_path() {
    assert_eq!(exec_cmd(Some("/usr/bin/radiall")), "/usr/bin/radiall");
    assert_eq!(exec_cmd(Some("/home/me/My Apps/radiall")), "radiall");
    assert_eq!(exec_cmd(None), "radiall");
}

#[test]
fn binds_file_text() {
    let mut s = KeybindSettings::default();
    s.shortcuts.windows = "ctrl".into(); // unusable: skipped
    assert_eq!(
        binds_text(&s, "radiall"),
        "# Managed by RadiAll settings. Sourced by your hyprland config.\n\
         bind = SUPER, a, exec, radiall --apps\n\
         bind = SUPER, d, exec, radiall --actions\n"
    );
    assert_eq!(cleared_binds_text(), "# RadiAll: keybinds applied at runtime; Hyprland config left untouched.\n");
    assert_eq!(binds_file("/home/me"), "/home/me/.config/hypr/launcher-binds.conf");
    assert_eq!(combo_for(&s, "actions"), "super+d");
    assert_eq!(combo_for(&s, "windows"), "ctrl");
}

#[test]
fn reconcile_plans() {
    let mut s = KeybindSettings::default();
    s.shortcuts.windows = String::new();
    s.shortcuts.actions = String::new();
    assert!(apply_shortcuts(&s, false, "radiall").is_empty());
    s.persist_binds = false;
    let ops: Vec<String> = apply_shortcuts(&s, true, "radiall").iter().map(op_text).collect();
    assert_eq!(ops, ["clear", "unbind SUPER,a", "unbind SUPER,A", "bind SUPER,a,exec,radiall --apps"]);
    s.shortcuts_enabled = false;
    let ops: Vec<String> = apply_shortcuts(&s, true, "radiall").iter().map(op_text).collect();
    assert_eq!(ops, ["unbind SUPER,a", "unbind SUPER,A", "clear"]);
    assert!(update_shortcut(&s, true, "apps", "super+q", "radiall").is_empty());
    s.shortcuts_enabled = true;
    s.shortcuts.apps = "super+x".into();
    let ops: Vec<String> = update_shortcut(&s, true, "apps", "super+a", "radiall").iter().map(op_text).collect();
    assert_eq!(
        ops,
        ["unbind SUPER,a", "unbind SUPER,A", "unbind SUPER,x", "unbind SUPER,X", "bind SUPER,x,exec,radiall --apps"]
    );
}

#[test]
fn provider_detection() {
    let session = |o: Option<&str>, hypr: bool, wl: bool, x: bool, portal: bool| Session {
        override_value: o.map(|s| s.to_string()),
        hyprland: hypr,
        wayland: wl,
        display: x,
        portal_available: portal,
    };
    assert_eq!(detect_provider(Platform::Linux, &session(None, true, true, true, true)), ProviderKind::Hyprctl);
    assert_eq!(detect_provider(Platform::Linux, &session(None, false, true, true, true)), ProviderKind::Portal);
    assert_eq!(detect_provider(Platform::Linux, &session(None, false, true, true, false)), ProviderKind::NoProvider);
    assert_eq!(detect_provider(Platform::Linux, &session(None, false, false, true, false)), ProviderKind::X11);
    assert_eq!(detect_provider(Platform::Linux, &session(None, false, false, false, false)), ProviderKind::NoProvider);
    assert_eq!(detect_provider(Platform::Windows, &session(None, false, false, false, false)), ProviderKind::Win);
    assert_eq!(detect_provider(Platform::Linux, &session(Some("x11"), true, true, true, true)), ProviderKind::X11);
    // an unknown override falls back to detection
    assert_eq!(detect_provider(Platform::Linux, &session(Some("bogus"), true, true, true, true)), ProviderKind::Hyprctl);
    let sc = Shortcuts::started(Platform::Linux, ProviderKind::Portal, false);
    assert_eq!(sc.kind(), ProviderKind::NoProvider);
    assert_eq!(sc.backend_name(), "none");
    let sc = Shortcuts::started(Platform::Linux, ProviderKind::Hyprctl, false);
    assert_eq!(sc.kind(), ProviderKind::Hyprctl);
    assert_eq!(sc.backend_name(), "hyprland");
    assert_eq!(Shortcuts::started(Platform::Windows, ProviderKind::Win, true).backend_name(), "win");
}

#[test]
fn portal_tokens_and_paths() {
    assert_eq!(token_name(0), "radiall_0");
    assert_eq!(token_name(123), "radiall_123");
    assert_eq!(request_path(Some(":1.42"), "t"), Ok("/org/freedesktop/portal/desktop/request/1_42/t".to_string()));
    assert_eq!(request_path(None, "t"), Err("no unique bus name".to_string()));
}

#[test]
fn windows_hotkeys() {
    for m in ["apps", "windows", "actions"] {
        assert_eq!(mode_for_id(id_for_mode(m)), Some(m));
    }
    assert_eq!(id_for_mode("bogus"), 0);
    assert_eq!(mode_for_id(0), None);
    assert_eq!(mods_for(&parse("ctrl+alt+a")), MOD_NOREPEAT | MOD_CONTROL | MOD_ALT);
    assert_eq!(mods_for(&parse("super+shift+a")), MOD_NOREPEAT | MOD_WIN | MOD_SHIFT);
    assert_eq!(mods_for(&parse("a")), MOD_NOREPEAT);
    assert_eq!(vk_for("a"), Some(0x41));
    assert_eq!(vk_for("7"), Some(0x37));
    assert_eq!(vk_for("F5"), Some(0x74));
    assert_eq!(vk_for("f24"), Some(0x87));
    assert_eq!(vk_for("f25"), None);
    assert_eq!(vk_for("Enter"), Some(0x0d));
    assert_eq!(vk_for("esc"), Some(0x1b));
    assert_eq!(vk_for("é"), None);
    let mut s = KeybindSettings::default();
    s.shortcuts.windows = "shift".into();
    let combos: Vec<&str> = combos_of(&s).iter().map(|(m, _)| *m).collect();
    assert_eq!(combos, ["apps", "actions"]);
    // the master switch is the caller's: registration still lists them
    s.shortcuts_enabled = false;
    assert_eq!(combos_of(&s).len(), 2);
}

use radiall::shortcuts_x11::{combos, grab_masks, keycode_in, GrabTable};

#[test]
fn x11_grabs_survive_lock_keys() {
    let base = mod_mask(&parse("ctrl+a"));
    assert_eq!(grab_masks(base), [4, 4 | 2, 4 | 16, 4 | 2 | 16]);
    let mut t = GrabTable::new();
    t.insert(38, base, "apps");
    for state in grab_masks(base) {
        assert_eq!(t.fired(38, state), Some("apps"));
    }
    // a pointer button held (Button1 = 0x100) does not matter either
    assert_eq!(t.fired(38, 4 | 0x100), Some("apps"));
    assert_eq!(t.fired(38, 4 | 1), None);
    assert_eq!(t.fired(39, 4), None);
    // a later grab of the same key wins
    t.insert(38, base, "windows");
    assert_eq!(t.fired(38, 4), Some("windows"));
}

#[test]
fn x11_keycodes_and_combos() {
    // two keysyms per keycode, keycodes from 8
    let syms = [0x61, 0x41, 0x62, 0x42, 0x20, 0x20];
    assert_eq!(keycode_in(&syms, 2, 8, 0x62), Some(9));
    assert_eq!(keycode_in(&syms, 2, 8, 0x41), Some(8));
    assert_eq!(keycode_in(&syms, 2, 8, 0x20), Some(10));
    assert_eq!(keycode_in(&syms, 2, 8, 0x7a), None);
    assert_eq!(keycode_in(&syms, 0, 8, 0x62), Some(10)); // zero per-keycode reads as one
    let mut s = KeybindSettings::default();
    s.shortcuts.actions = "super".into();
    let modes: Vec<&str> = combos(&s).iter().map(|(m, _)| *m).collect();
    assert_eq!(modes, ["apps", "windows"]);
    s.shortcuts_enabled = false;
    assert!(combos(&s).is_empty());
}

use radiall::shortcuts_portal::activated_mode;

#[test]
fn portal_activation_needs_the_current_session_and_a_ring_id() {
    let cur = "/org/freedesktop/portal/desktop/session/1_42/radiall";
    assert_eq!(activated_mode(Some(cur), cur, "apps"), Some("apps"));
    assert_eq!(activated_mode(Some(cur), cur, "windows"), Some("windows"));
    assert_eq!(activated_mode(Some(cur), cur, "actions"), Some("actions"));
    // unknown id
    assert_eq!(activated_mode(Some(cur), cur, "launcher"), None);
    // stale or foreign session
    assert_eq!(activated_mode(Some(cur), "/org/freedesktop/portal/desktop/session/1_42/other", "apps"), None);
    // nothing bound yet
    assert_eq!(activated_mode(None, cur, "apps"), None);
}

use radiall::shortcuts::unbind_ops;

#[test]
fn unbind_every_case_variant() {
    let args: Vec<String> = unbind_ops(&parse("super+a"))
        .into_iter()
        .map(|o| match o {
            HyprOp::Unbind(a) => a,
            _ => panic!("only unbinds"),
        })
        .collect();
    assert_eq!(args, vec!["SUPER,a", "SUPER,A"]);
    let args: Vec<String> = unbind_ops(&parse("ctrl+shift+f5"))
        .into_iter()
        .map(|o| match o {
            HyprOp::Unbind(a) => a,
            _ => panic!("only unbinds"),
        })
        .collect();
    assert_eq!(args, vec!["CTRL SHIFT,f5", "CTRL SHIFT,F5"]);
}
