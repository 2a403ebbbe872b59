use radiall::apps::{AppIndex, DesktopAction, DesktopApp};
use radiall::config::{AppEntry, CustomAction, KeybindSettings};
use radiall::editor::{
    add_app, add_custom_action, add_installed, color_target, custom_index_of, installed_rows, move_app,
    remove_app, remove_custom_action, set_app_field, set_custom_field, set_keybind_setting, set_shortcut,
    split_words, ColorTarget,
};
use radiall::ring::{Core, RingEntry};

fn index() -> AppIndex {
    AppIndex::scan(vec![
        DesktopApp {
            id: "zed".into(),
            name: "Zed".into(),
            icon: String::new(),
            argv: vec![],
            startup_wm_class: String::new(),
            actions: vec![],
        },
        DesktopApp {
            id: "org.gnome.Nautilus".into(),
            name: "Files".into(),
            icon: "folder".into(),
            argv: vec!["nautilus".into(), "--new-window".into()],
            startup_wm_class: "org.gnome.Nautilus".into(),
            actions: vec![DesktopAction { name: "New".into(), command: vec!["nautilus".into()] }],
        },
    ])
}

fn named(n: &str) -> AppEntry {
    AppEntry { name: n.into(), ..Default::default() }
}

#[test]
fn add_and_remove_apps() {
    let mut apps = vec![named("a")];
    add_app(&mut apps);
    assert_eq!(apps.len(), 2);
    assert_eq!(apps[1].name, "New App");
    assert_eq!(apps[1].icon, "application-x-executable");
    assert_eq!(apps[1].argv, vec![String::new()]);
    remove_app(&mut apps, 0);
    assert_eq!(apps[0].name, "New App");
    remove_app(&mut apps, 5); // out of range: nothing
    remove_app(&mut apps, -1);
    assert_eq!(apps.len(), 1);
}

#[test]
fn installed_entries_fill_the_gaps() {
    let idx = index();
    // sorted by name: Files, Zed
    assert_eq!(idx.installed()[0].name, "Files");
    let mut apps = vec![];
    assert!(add_installed(&mut apps, &idx, 1));
    assert_eq!(apps[0].icon, "application-x-executable");
    assert_eq!(apps[0].argv, vec!["zed".to_string()]);
    assert_eq!(apps[0].wm_class, "zed");
    assert!(add_installed(&mut apps, &idx, 0));
    assert_eq!(apps[1].wm_class, "org.gnome.Nautilus");
    assert!(!add_installed(&mut apps, &idx, 2));
    assert!(!add_installed(&mut apps, &idx, -1));
    assert_eq!(apps.len(), 2);
}

#[test]
fn move_swaps_with_the_neighbour() {
    let mut apps = vec![named("a"), named("b"), named("c")];
    assert_eq!(move_app(&mut apps, 0, 1), 1);
    let names: Vec<&str> = apps.iter().map(|a| a.name.as_str()).collect();
    assert_eq!(names, ["b", "a", "c"]);
    // off the end: unchanged, selection still moves
    assert_eq!(move_app(&mut apps, 2, 1), 3);
    let names: Vec<&str> = apps.iter().map(|a| a.name.as_str()).collect();
    assert_eq!(names, ["b", "a", "c"]);
}

#[test]
fn fields_and_words() {
    assert_eq!(split_words("  firefox --new-window\tx "), vec!["firefox", "--new-window", "x"]);
    assert!(split_words("   ").is_empty());
    let mut apps = vec![named("a")];
    set_app_field(&mut apps, 0, "exec", "kitty -e htop");
    assert_eq!(apps[0].argv, vec!["kitty", "-e", "htop"]);
    set_app_field(&mut apps, 0, "wmClass", "kitty");
    set_app_field(&mut apps, 0, "color", "#ff0000");
    set_app_field(&mut apps, 0, "name", "Kitty");
    set_app_field(&mut apps, 0, "icon", "kitty");
    set_app_field(&mut apps, 0, "bogus", "x");
    set_app_field(&mut apps, 3, "name", "x");
    assert_eq!(apps[0].wm_class, "kitty");
    assert_eq!(apps[0].color, "#ff0000");
    assert_eq!(apps[0].name, "Kitty");
    assert_eq!(apps[0].icon, "kitty");
}

#[test]
fn custom_actions_by_id() {
    assert_eq!(custom_index_of("c:3"), Some(3));
    assert_eq!(custom_index_of("c:"), None);
    assert_eq!(custom_index_of("d:3"), None);
    assert_eq!(custom_index_of("c:x"), None);
    let mut apps = vec![named("a")];
    add_custom_action(&mut apps, 0);
    add_custom_action(&mut apps, 0);
    assert_eq!(apps[0].custom_actions.len(), 2);
    assert_eq!(apps[0].custom_actions[0], CustomAction::default());
    assert_eq!(apps[0].custom_actions[0].label, "New action");
    set_custom_field(&mut apps, 0, "c:1", "label", "Copy");
    set_custom_field(&mut apps, 0, "c:1", "shortcut", "ctrl+c");
    assert_eq!(apps[0].custom_actions[1].label, "Copy");
    assert_eq!(apps[0].custom_actions[1].shortcut, "ctrl+c");
    remove_custom_action(&mut apps, 0, "c:0");
    assert_eq!(apps[0].custom_actions.len(), 1);
    assert_eq!(apps[0].custom_actions[0].label, "Copy");
    remove_custom_action(&mut apps, 0, "c:7");
    assert_eq!(apps[0].custom_actions.len(), 1);
}

#[test]
fn whitelist_toggles() {
    let apps = vec![AppEntry {
        name: "Files".into(),
        argv: vec!["nautilus".into()],
        wm_class: "org.gnome.Nautilus".into(),
        ..Default::default()
    }];
    let mut core = Core::new(apps, index(), false, false);
    let rows = core.action_rows(0);
    let ids: Vec<&str> = rows.iter().map(|r| r.id.as_str()).collect();
    assert_eq!(ids, ["d:New", "w:close", "w:full"]);
    assert!(rows.iter().all(|r| r.enabled));
    core.toggle_action(0, "w:close", false);
    assert_eq!(core.apps[0].action_ids, Some(vec!["d:New".to_string(), "w:full".to_string()]));
    core.toggle_action(0, "w:close", true);
    assert_eq!(
        core.apps[0].action_ids,
        Some(vec!["d:New".to_string(), "w:full".to_string(), "w:close".to_string()])
    );
    assert!(core.action_rows(3).is_empty());
    // the arc of the apps-ring slice offers the filtered templates
    let e = RingEntry { wm_class: "org.gnome.Nautilus".into(), app_index: Some(0), ..Default::default() };
    let arc: Vec<String> = core.arc_actions(&e).iter().map(|t| t.id.clone()).collect();
    assert_eq!(arc, ["d:New"]);
}

#[test]
fn shortcut_slots_and_switches() {
    let mut s = KeybindSettings::default();
    assert_eq!(set_shortcut(&mut s, "windows", "super+x"), "super+w");
    assert_eq!(s.shortcuts.windows, "super+x");
    assert_eq!(set_shortcut(&mut s, "bogus", "ctrl+a"), "super+a");
    assert_eq!(s.shortcuts.apps, "ctrl+a");
    assert!(set_keybind_setting(&mut s, "shortcutsEnabled", "false"));
    assert!(!s.shortcuts_enabled);
    assert!(set_keybind_setting(&mut s, "persistBinds", "yes"));
    assert!(!s.persist_binds);
    assert!(!set_keybind_setting(&mut s, "accent", "true"));
}

#[test]
fn color_targets() {
    assert_eq!(color_target("app:2"), ColorTarget::App(2));
    assert_eq!(color_target("app:-1"), ColorTarget::App(-1));
    assert_eq!(color_target("app:x"), ColorTarget::Nowhere);
    assert_eq!(color_target("app:99999999999"), ColorTarget::Nowhere);
    assert_eq!(color_target("act:c:0"), ColorTarget::Custom("c:0".into()));
    assert_eq!(color_target("accent"), ColorTarget::Setting("accent".into()));
}

#[test]
fn picker_filters_by_name() {
    let idx = index();
    assert_eq!(installed_rows(&idx, ""), vec![0, 1]);
    assert_eq!(installed_rows(&idx, " FIL "), vec![0]);
    assert_eq!(installed_rows(&idx, "ed"), vec![1]);
    assert!(installed_rows(&idx, "qq").is_empty());
}

#[test]
fn moving_back_restores_the_order() {
    let mut apps = vec![named("a"), named("b"), named("c")];
    let before = apps.clone();
    let sel = move_app(&mut apps, 2, -2);
    assert_eq!(sel, 0);
    let names: Vec<&str> = apps.iter().map(|a| a.name.as_str()).collect();
    assert_eq!(names, ["c", "b", "a"]);
    assert_eq!(move_app(&mut apps, sel, 2), 2);
    assert_eq!(apps, before);
}
