use radiall::apps::{fallback_icon, icon_path, AppIndex, DesktopAction, DesktopApp, IconSource};
use radiall::apps_windows::{bgra_to_rgba, exe_stem, wide, StartMenu};
use radiall::config::{apps_path, default_apps, load_apps, settings_path, AppEntry, CustomAction, Shortcuts};
use radiall::icons::{push_svg, IconEntry, IconLib};

fn desk(id: &str, name: &str, icon: &str, argv: &[&str], wm: &str) -> DesktopApp {
    DesktopApp {
        id: id.into(),
        name: name.into(),
        icon: icon.into(),
        argv: argv.iter().map(|s| s.to_string()).collect(),
        startup_wm_class: wm.into(),
        actions: vec![],
    }
}

#[test]
fn index_sorts_case_insensitively() {
    let idx = AppIndex::scan(vec![
        desk("b", "beta", "", &[], ""),
        desk("a", "Alpha", "", &[], ""),
        desk("c", "Beta", "", &[], ""),
    ]);
    let names: Vec<&str> = idx.installed().iter().map(|d| d.name.as_str()).collect();
    assert_eq!(names, ["Alpha", "Beta", "beta"]);
}

#[test]
fn find_for_prefers_class_then_id_then_exec() {
    let idx = AppIndex::scan(vec![
        desk("code", "Code", "vscode", &["/usr/bin/code", "--new"], "Code"),
        desk("org.kde.konsole", "Konsole", "utilities-terminal", &["konsole"], ""),
        desk("fox", "Fox", "fox", &["/opt/fox/firefox"], "firefox"),
    ]);
    assert_eq!(idx.find_for("CODE", "").unwrap().id, "code");
    assert_eq!(idx.find_for("org.kde.Konsole", "").unwrap().id, "org.kde.konsole");
    assert_eq!(idx.find_for("Firefox", "").unwrap().id, "fox");
    assert_eq!(idx.find_for("nope", "/usr/local/bin/code").unwrap().id, "code");
    assert!(idx.find_for("nope", "").is_none());
    assert!(idx.find_for("", "").is_none());
    let configured = vec![AppEntry { wm_class: "konsole".into(), icon: "my-term".into(), ..Default::default() }];
    assert_eq!(idx.icon_for_class("Konsole", &configured), "my-term");
    assert_eq!(idx.icon_for_class("code", &configured), "vscode");
    assert_eq!(idx.icon_for_class("xterm", &configured), "xterm");
}

#[test]
fn icon_sources() {
    assert_eq!(icon_path(""), IconSource::Monogram);
    assert_eq!(icon_path("/usr/share/pixmaps/x.png"), IconSource::Path("/usr/share/pixmaps/x.png".into()));
    assert_eq!(icon_path("firefox"), IconSource::Theme("firefox".into()));
    assert_eq!(fallback_icon(), "application-x-executable");
}

#[test]
fn default_and_loaded_apps() {
    let d = default_apps();
    let names: Vec<&str> = d.iter().map(|a| a.name.as_str()).collect();
    assert_eq!(names, ["Firefox", "Terminal", "Files", "Editor"]);
    assert_eq!(d[3].wm_class, "Code");
    assert_eq!(d[1].argv, vec!["kitty".to_string()]);
    let l = load_apps(None);
    assert!(l.write_defaults);
    assert_eq!(l.apps, d);
    let l = load_apps(Some(vec![]));
    assert!(l.write_defaults);
    let mine = vec![AppEntry { name: "Mine".into(), ..Default::default() }];
    let l = load_apps(Some(mine.clone()));
    assert!(!l.write_defaults);
    assert_eq!(l.apps, mine);
    assert_eq!(settings_path("/c"), "/c/settings.json");
    assert_eq!(apps_path("/c/"), "/c/apps.json");
}

#[test]
fn config_defaults() {
    let s = Shortcuts::default();
    assert_eq!((s.apps.as_str(), s.windows.as_str(), s.actions.as_str()), ("super+a", "super+w", "super+d"));
    let c = CustomAction::default();
    assert_eq!((c.label.as_str(), c.shortcut.as_str(), c.icon.as_str()), ("New action", "ctrl+r", ""));
    let a = AppEntry::default();
    assert!(a.name.is_empty() && a.argv.is_empty() && a.action_ids.is_none());
}

#[test]
fn start_menu_collects_unique_shortcuts() {
    let mut m = StartMenu::new();
    assert!(m.add("Zed", "C:\\menu\\Zed.lnk", "", "zed"));
    assert!(m.add("calc", "C:\\menu\\calc.lnk", "C:\\calc.exe", "calc"));
    assert!(!m.add("ZED", "C:\\other\\Zed.lnk", "", "zed"));
    let apps = m.finish();
    let names: Vec<&str> = apps.iter().map(|d| d.name.as_str()).collect();
    assert_eq!(names, ["calc", "Zed"]);
    assert_eq!(apps[1].id, "zed");
    assert_eq!(apps[1].argv, vec!["C:\\menu\\Zed.lnk".to_string()]);
    assert_eq!(apps[1].startup_wm_class, "zed");
    assert!(apps[1].actions.is_empty());
}

#[test]
fn windows_path_helpers() {
    assert_eq!(exe_stem("C:\\Program Files\\Google\\Chrome.EXE"), "chrome");
    assert_eq!(exe_stem("C:/tools/notepad.exe"), "notepad");
    assert_eq!(exe_stem("/usr/bin/zed"), "zed");
    assert_eq!(exe_stem("Thing.Exe"), "thing.exe");
    assert_eq!(wide("aé"), vec![0x61, 0xe9, 0]);
    assert_eq!(wide("😀"), vec![0xD83D, 0xDE00, 0]);
    assert_eq!(wide(""), vec![0]);
}

#[test]
fn bgra_pixels_become_rgba() {
    // alpha present: kept
    assert_eq!(bgra_to_rgba(&[1, 2, 3, 4, 5, 6, 7, 0, 9]), vec![3, 2, 1, 4, 7, 6, 5, 0, 0]);
    // no alpha at all: opaque
    assert_eq!(bgra_to_rgba(&[1, 2, 3, 0]), vec![3, 2, 1, 255]);
    assert!(bgra_to_rgba(&[]).is_empty());
}

#[test]
fn svg_files_join_the_library() {
    let mut entries: Vec<IconEntry> = vec![];
    push_svg(&mut entries, "lucide".into(), "/icons/lucide/Arrow-Up.svg".into());
    push_svg(&mut entries, "lucide".into(), "/icons/lucide/readme.md".into());
    push_svg(&mut entries, "tabler".into(), "/icons/tabler/arrow-up.svg".into());
    assert_eq!(entries.len(), 2);
    assert_eq!(entries[0].name, "arrow-up");
    let lib = IconLib::from_entries(entries);
    assert_eq!(lib.len(), 2);
    assert!(!lib.is_empty());
    assert!(IconLib::default().is_empty());
    let sets: Vec<&str> = lib.search("ARROW", 10).iter().map(|e| e.set.as_str()).collect();
    assert_eq!(sets, ["lucide", "tabler"]);
    assert_eq!(lib.search("arrow", 1).len(), 1);
    assert_eq!(lib.search("arrow", 0).len(), 0);
}

#[test]
fn desktop_actions_are_plain_data() {
    let a = DesktopAction { name: "New".into(), command: vec!["x".into()] };
    let d = DesktopApp { actions: vec![a.clone()], ..desk("x", "X", "", &[], "") };
    assert_eq!(d.actions[0].name, "New");
}

#[test]
fn icon_path_takes_windows_absolute_paths_as_files() {
    assert_eq!(icon_path("C:\\icons\\x.png"), IconSource::Path("C:\\icons\\x.png".into()));
    assert_eq!(icon_path("d:/icons/x.png"), IconSource::Path("d:/icons/x.png".into()));
    assert_eq!(icon_path("\\\\server\\share\\x.ico"), IconSource::Path("\\\\server\\share\\x.ico".into()));
    // a drive letter without a separator, or a relative path, is a theme name
    assert_eq!(icon_path("C:x.png"), IconSource::Theme("C:x.png".into()));
    assert_eq!(icon_path("icons\\x.png"), IconSource::Theme("icons\\x.png".into()));
}
