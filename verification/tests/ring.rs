use radiall::apps::AppIndex;
use radiall::compositor::WindowInfo;
use radiall::config::AppEntry;
use radiall::ring::{clean_title, ActionKind, Core, Mode, RingEntry};

fn core_with(windows: Vec<WindowInfo>) -> Core {
    let apps = vec![
        AppEntry {
            name: "Firefox".into(),
            icon: "firefox".into(),
            argv: vec!["firefox".into()],
            wm_class: "firefox".into(),
            ..Default::default()
        },
        AppEntry {
            name: "Kitty".into(),
            icon: "kitty".into(),
            argv: vec!["kitty".into()],
            wm_class: "kitty".into(),
            ..Default::default()
        },
    ];
    let mut core = Core::new(apps, AppIndex::default(), false, false);
    core.windows = windows;
    core
}

fn win(id: &str, cls: &str, title: &str, focused: bool) -> WindowInfo {
    WindowInfo {
        id: id.into(),
        app_id: cls.into(),
        title: title.into(),
        focused,
    }
}

#[test]
fn window_matching_is_case_insensitive_and_exact() {
    let core = core_with(vec![
        win("1", "Firefox", "a", false),
        win("2", "firefox", "b", false),
        win("3", "firefox-dev", "c", false),
    ]);
    let e = RingEntry {
        wm_class: "firefox".into(),
        ..Default::default()
    };
    assert_eq!(core.windows_for(&e).len(), 2); // exact lc match, not substring
}

#[test]
fn cycle_wraps_and_negative() {
    let mut core = core_with(vec![
        win("1", "firefox", "a", false),
        win("2", "firefox", "b", false),
        win("3", "firefox", "c", false),
    ]);
    let e = RingEntry {
        wm_class: "firefox".into(),
        ..Default::default()
    };
    core.cycle_window(&e, -1); // 0 - 1 wraps to 2
    assert_eq!(core.selected_window_index(&e), 2);
    core.cycle_window(&e, 1);
    assert_eq!(core.selected_window_index(&e), 0);
}

#[test]
fn windows_ring_groups_by_class() {
    let core = core_with(vec![
        win("1", "kitty", "z-term", false),
        win("2", "firefox", "b", false),
        win("3", "kitty", "a-term", false),
    ]);
    let ring = core.ring_model(Mode::Windows);
    let classes: Vec<&str> = ring.iter().map(|e| e.wm_class.as_str()).collect();
    assert_eq!(classes, ["firefox", "kitty", "kitty"]);
    assert_eq!(ring[1].name, "a-term"); // sorted by title within class
}

#[test]
fn actions_filtering_and_open_fallback() {
    let mut core = core_with(vec![win("1", "firefox", "page", true)]);
    core.active = Some(win("1", "firefox", "page", true));
    let app = core.focused_app().unwrap();
    let acts = core.actions_for(&app);
    // no float capability -> close + fullscreen only
    let ids: Vec<&str> = acts.iter().map(|t| t.id.as_str()).collect();
    assert_eq!(ids, ["w:close", "w:full"]);

    // whitelist filters non-custom actions
    let mut app2 = app.clone();
    app2.action_ids = Some(vec!["w:close".into()]);
    let ids2: Vec<String> = core.actions_for(&app2).iter().map(|t| t.id.clone()).collect();
    assert_eq!(ids2, ["w:close"]);

    // nothing left -> Open fallback
    core.windows.clear();
    core.active = None;
    let mut app3 = app.clone();
    app3.window = None;
    app3.action_ids = Some(vec![]);
    let acts3 = core.actions_for(&app3);
    assert_eq!(acts3.len(), 1);
    assert!(matches!(acts3[0].kind, ActionKind::Launch));
}

#[test]
fn actions_ring_survives_overlay_focus_steal() {
    let mut core = core_with(vec![win("1", "firefox", "page", true)]);
    core.active = Some(win("1", "firefox", "page", true));
    // opening the ring snapshots the target...
    core.actions_target = core.focused_app();
    assert!(!core.ring_model(Mode::Actions).is_empty());
    // ...then the overlay steals focus (active becomes None/our window):
    // the ring must keep building from the frozen snapshot
    core.active = None;
    let ring = core.ring_model(Mode::Actions);
    assert!(!ring.is_empty(), "actions ring wiped by focus change");
    assert!(ring.iter().any(|e| e.name == "Close"));
    // no snapshot (nothing focused at open) -> empty ring
    core.actions_target = None;
    assert!(core.ring_model(Mode::Actions).is_empty());
}

#[test]
fn classless_window_is_never_a_focus_target() {
    // The overlay reports an empty app_id; snapshotting it mid-close
    // must yield None, never a dead FocusedApp that builds an empty
    // actions ring.
    let mut core = core_with(vec![]);
    core.active = Some(win("9", "", "RadiAll", true));
    assert!(core.focused_app().is_none());
}

#[test]
fn title_cleaning() {
    // strips the app-name suffix browsers append
    assert_eq!(
        clean_title("Qwandra · Cheap flights — Mozilla Firefox", "Firefox"),
        "Qwandra · Cheap flights"
    );
    assert_eq!(clean_title("docs - Thunar", "Files"), "docs - Thunar"); // no app match -> kept
    assert_eq!(clean_title("docs - Thunar", "Thunar"), "docs");
    // two-stage suffixes ("Page — Firefox — Nightly" style) strip twice
    assert_eq!(
        clean_title("Page — Mozilla Firefox — Firefox Nightly", "Firefox"),
        "Page"
    );
    // stripping is greedy but bounded (2 passes): any app-mentioning
    // tail segment goes — the slice label leads with the app name anyway
    assert_eq!(
        clean_title("a - b | chromium thing - Chromium", "Chromium"),
        "a - b"
    );
    // never strip down to nothing
    assert_eq!(clean_title("Mozilla Firefox", "Firefox"), "Mozilla Firefox");
    // safety cap still applies
    let long = "x".repeat(200);
    assert_eq!(clean_title(&long, "App").chars().count(), 161); // 160 + ellipsis
    assert_eq!(clean_title("short", "App"), "short");
}

#[test]
fn windows_ring_names_are_cleaned_titles() {
    // "firefox" is a configured app named "Firefox": its window slice
    // label drops the "— Mozilla Firefox" tail. Unpinned classes clean
    // against the class itself.
    let mut core = core_with(vec![win("1", "firefox", "Page — Mozilla Firefox", true)]);
    core.windows = vec![win("1", "firefox", "Page — Mozilla Firefox", true)];
    let ring = core.ring_model(Mode::Windows);
    assert_eq!(ring[0].name, "Page");
}

#[test]
fn first_running_index_falls_back_to_zero() {
    let core = core_with(vec![win("1", "kitty", "t", false)]);
    assert_eq!(core.first_running_index(), 1); // kitty is apps[1]
    let empty = core_with(vec![]);
    assert_eq!(empty.first_running_index(), 0);
}

use radiall::apps::{DesktopAction, DesktopApp};
use radiall::config::CustomAction;
use radiall::ring::{ActionTemplate, Effect, FocusedApp};

fn installed() -> AppIndex {
    AppIndex::scan(vec![DesktopApp {
        id: "org.mozilla.firefox".into(),
        name: "Firefox".into(),
        icon: "firefox-icon".into(),
        argv: vec!["firefox".into()],
        startup_wm_class: "firefox".into(),
        actions: vec![DesktopAction { name: "New Window".into(), command: vec!["firefox".into(), "--new-window".into()] }],
    }])
}

#[test]
fn apps_ring_lists_configured_apps_in_order() {
    let core = core_with(vec![]);
    let ring = core.ring_model(Mode::Apps);
    let names: Vec<&str> = ring.iter().map(|e| e.name.as_str()).collect();
    assert_eq!(names, ["Firefox", "Kitty"]);
    assert_eq!(ring[1].app_index, Some(1));
    assert!(!ring[0].is_window && !ring[0].is_action());
}

#[test]
fn activation_focuses_or_launches() {
    let core = core_with(vec![win("7", "kitty", "t", false)]);
    let ring = core.ring_model(Mode::Apps);
    // kitty has a window: focus it
    assert_eq!(core.activate_entry(&ring[1], false), (true, Effect::Focus("7".into())));
    // firefox has none: launch its argv
    assert_eq!(core.activate_entry(&ring[0], false), (true, Effect::Launch(vec!["firefox".into()])));
    // a right click launches even with a window open
    assert_eq!(core.activate_entry(&ring[1], true), (true, Effect::Launch(vec!["kitty".into()])));
}

#[test]
fn desktop_and_custom_actions_become_templates() {
    let mut core = Core::new(vec![], installed(), true, true);
    core.windows = vec![win("5", "firefox", "page", true)];
    let app = FocusedApp {
        wm_class: "firefox".into(),
        window: Some("5".into()),
        custom_actions: vec![CustomAction { label: "Reload".into(), shortcut: "ctrl+r".into(), ..Default::default() }],
        ..Default::default()
    };
    let ids: Vec<String> = core.action_templates(&app, "").iter().map(|t| t.id.clone()).collect();
    assert_eq!(ids, ["d:New Window", "w:close", "w:float", "w:full", "c:0"]);
    let acts = core.actions_for(&app);
    assert_eq!(acts.len(), 5);
    // running them
    let run = |a: &ActionTemplate| core.run_action_on("firefox", Some("5".into()), None, a);
    assert_eq!(run(&acts[0]), Effect::Launch(vec!["firefox".into(), "--new-window".into()]));
    assert_eq!(run(&acts[1]), Effect::Close("5".into()));
    assert_eq!(run(&acts[2]), Effect::ToggleFloat("5".into()));
    assert_eq!(run(&acts[3]), Effect::Fullscreen("5".into()));
    assert_eq!(run(&acts[4]), Effect::SendKeys("5".into(), "CTRL".into(), "r".into()));
}

#[test]
fn custom_combo_without_key_sending_launches() {
    let apps = vec![AppEntry { name: "Kitty".into(), argv: vec!["kitty".into()], wm_class: "kitty".into(), ..Default::default() }];
    let mut core = Core::new(apps, AppIndex::default(), false, false);
    core.windows = vec![win("1", "kitty", "t", true)];
    let keys = ActionTemplate {
        id: "c:0".into(),
        label: "x".into(),
        glyph: String::new(),
        icon: String::new(),
        color: String::new(),
        kind: ActionKind::Keys("ctrl+c".into()),
    };
    assert_eq!(core.run_action_on("kitty", None, Some(0), &keys), Effect::Launch(vec!["kitty".into()]));
    let close = ActionTemplate { kind: ActionKind::Close, ..keys.clone() };
    // no window given: the class's chosen window
    assert_eq!(core.run_action_on("kitty", None, Some(0), &close), Effect::Close("1".into()));
    assert_eq!(core.run_action_on("zed", None, None, &close), Effect::Nothing);
}

#[test]
fn focused_app_takes_the_configured_icon() {
    let mut core = core_with(vec![]);
    core.active = Some(win("3", "Kitty", "shell", true));
    let f = core.focused_app().unwrap();
    assert_eq!(f.icon, "kitty");
    assert_eq!(f.wm_class, "Kitty");
    assert_eq!(f.window, Some("3".to_string()));
}

#[test]
fn window_for_follows_the_choice() {
    let mut core = core_with(vec![win("1", "kitty", "a", false), win("2", "kitty", "b", false)]);
    let e = RingEntry { wm_class: "kitty".into(), ..Default::default() };
    assert_eq!(core.window_for(&e), Some("1".into()));
    core.cycle_window(&e, 3);
    assert_eq!(core.window_for(&e), Some("2".into()));
    // cycling back by the same step undoes it
    core.cycle_window(&e, -3);
    assert_eq!(core.window_for(&e), Some("1".into()));
    let none = RingEntry { wm_class: "zed".into(), ..Default::default() };
    assert_eq!(core.window_for(&none), None);
    assert_eq!(core.selected_window_index(&none), -1);
    assert_eq!(core.windows_for_class("KITTY").len(), 2);
    assert_eq!(core.windows_for_class("").len(), 0);
}

#[test]
fn windows_ring_holds_each_window_once() {
    let core = core_with(vec![
        win("1", "kitty", "b", false),
        win("2", "Firefox", "x", false),
        win("3", "kitty", "b", false),
        win("4", "firefox", "a", false),
    ]);
    let ring = core.ring_model(Mode::Windows);
    let mut ids: Vec<String> = ring.iter().map(|e| e.window.clone().unwrap()).collect();
    // equal keys keep their order: kitty "b" window 1 before window 3
    assert_eq!(ids, vec!["4", "2", "1", "3"]);
    ids.sort();
    assert_eq!(ids, vec!["1", "2", "3", "4"]);
}

#[test]
fn empty_class_has_no_windows_and_empty_app_only_trims() {
    let core = core_with(vec![win("1", "", "untitled", false)]);
    assert!(core.windows_for_class("").is_empty());
    assert_eq!(clean_title("  Page — Mozilla Firefox  ", ""), "Page — Mozilla Firefox");
}
