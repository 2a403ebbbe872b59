//! The persisted configuration shapes (`settings.json` / `apps.json`) that
//! the logic reads, their defaults, and what loading the apps file decides.

use vstd::prelude::*;
use crate::text::{copy_strings, join_path, path_join, views};

verus! {

/// The three ring shortcuts as combo strings.
#[derive(Debug, Clone, PartialEq)]
pub struct Shortcuts {
    pub apps: String,
    pub windows: String,
    pub actions: String,
}

impl Default for Shortcuts {
    /// `super+a` / `super+w` / `super+d`.
    fn default() -> (r: Shortcuts)
        ensures
            r.apps@ == "super+a"@,
            r.windows@ == "super+w"@,
            r.actions@ == "super+d"@,
    {
        Shortcuts {
            apps: String::from_str("super+a"),
            windows: String::from_str("super+w"),
            actions: String::from_str("super+d"),
        }
    }
}

/// The keybind part of the settings.
#[derive(Debug, Clone, PartialEq)]
pub struct KeybindSettings {
    /// Master on/off for launcher-managed ring keybinds.
    pub shortcuts_enabled: bool,
    /// Write binds to the binds file vs live-only.
    pub persist_binds: bool,
    pub shortcuts: Shortcuts,
}

impl Default for KeybindSettings {
    /// Binds managed and persisted, with the default combos.
    fn default() -> (r: KeybindSettings)
        ensures
            r.shortcuts_enabled,
            r.persist_binds,
            r.shortcuts.apps@ == "super+a"@,
            r.shortcuts.windows@ == "super+w"@,
            r.shortcuts.actions@ == "super+d"@,
    {
        KeybindSettings { shortcuts_enabled: true, persist_binds: true, shortcuts: Shortcuts::default() }
    }
}

/// A user-defined per-app action: sends a key combo to the window.
#[derive(Debug, Clone, PartialEq)]
pub struct CustomAction {
    pub label: String,
    /// Key combo, lowercase, '+'-joined; last segment = key.
    pub shortcut: String,
    pub icon: String,
    pub color: String,
}

/// The character-level content of a [`CustomAction`].
pub struct CustomActionView {
    pub label: Seq<char>,
    pub shortcut: Seq<char>,
    pub icon: Seq<char>,
    pub color: Seq<char>,
}

impl View for CustomAction {
    type V = CustomActionView;

    open spec fn view(&self) -> CustomActionView {
        CustomActionView {
            label: self.label@,
            shortcut: self.shortcut@,
            icon: self.icon@,
            color: self.color@,
        }
    }
}

impl CustomAction {
    /// A copy with the same content.
    pub fn copy(&self) -> (r: CustomAction)
        ensures
            r@ == self@,
    {
        CustomAction {
            label: self.label.clone(),
            shortcut: self.shortcut.clone(),
            icon: self.icon.clone(),
            color: self.color.clone(),
        }
    }
}

impl Default for CustomAction {
    /// "New action" on `ctrl+r`, no icon, no color.
    fn default() -> (r: CustomAction)
        ensures
            r@.label == "New action"@,
            r@.shortcut == "ctrl+r"@,
            r@.icon == Seq::<char>::empty(),
            r@.color == Seq::<char>::empty(),
    {
        CustomAction {
            label: String::from_str("New action"),
            shortcut: String::from_str("ctrl+r"),
            icon: String::new(),
            color: String::new(),
        }
    }
}

/// The custom actions' contents, in order.
pub open spec fn customs_view(v: Seq<CustomAction>) -> Seq<CustomActionView> {
    v.map_values(|c: CustomAction| c@)
}

/// A copy of a list of custom actions.
pub fn copy_customs(v: &Vec<CustomAction>) -> (r: Vec<CustomAction>)
    ensures
        customs_view(r@) == customs_view(v@),
{
    let mut r: Vec<CustomAction> = Vec::new();
    let mut i: usize = 0;
    while i < v.len()
        invariant
            i <= v@.len(),
            r@.len() == i,
            forall|k: int| 0 <= k < i ==> #[trigger] r@[k]@ == v@[k]@,
        decreases v.len() - i,
    {
        r.push(v[i].copy());
        i = i + 1;
    }
    assert(customs_view(r@) =~= customs_view(v@));
    r
}

/// A copy of an optional list of strings.
pub fn copy_opt_strings(v: &Option<Vec<String>>) -> (r: Option<Vec<String>>)
    ensures
        opt_views(r) == opt_views(*v),
{
    match v {
        Some(ids) => Some(copy_strings(ids)),
        None => None,
    }
}

/// The characters of each string of an optional list.
pub open spec fn opt_views(v: Option<Vec<String>>) -> Option<Seq<Seq<char>>> {
    match v {
        Some(ids) => Some(views(ids@)),
        None => None,
    }
}

/// One configured app of the apps ring.
#[derive(Debug, Clone, PartialEq)]
pub struct AppEntry {
    pub name: String,
    /// Icon-theme name or absolute file path.
    pub icon: String,
    /// argv vector, launched verbatim (no shell, field codes pre-stripped).
    pub argv: Vec<String>,
    /// Window-class key for ALL window matching (case-insensitive).
    pub wm_class: String,
    /// Optional per-app accent: hovered wedge + selected dot ("" = theme).
    pub color: String,
    pub custom_actions: Vec<CustomAction>,
    /// Whitelist of enabled action-template ids; None = all enabled.
    pub action_ids: Option<Vec<String>>,
}

/// The character-level content of an [`AppEntry`].
pub struct AppEntryView {
    pub name: Seq<char>,
    pub icon: Seq<char>,
    pub argv: Seq<Seq<char>>,
    pub wm_class: Seq<char>,
    pub color: Seq<char>,
    pub custom_actions: Seq<CustomActionView>,
    pub action_ids: Option<Seq<Seq<char>>>,
}

impl View for AppEntry {
    type V = AppEntryView;

    open spec fn view(&self) -> AppEntryView {
        AppEntryView {
            name: self.name@,
            icon: self.icon@,
            argv: views(self.argv@),
            wm_class: self.wm_class@,
            color: self.color@,
            custom_actions: customs_view(self.custom_actions@),
            action_ids: opt_views(self.action_ids),
        }
    }
}

impl AppEntry {
    /// A copy with the same content.
    pub fn copy(&self) -> (r: AppEntry)
        ensures
            r@ == self@,
    {
        AppEntry {
            name: self.name.clone(),
            icon: self.icon.clone(),
            argv: copy_strings(&self.argv),
            wm_class: self.wm_class.clone(),
            color: self.color.clone(),
            custom_actions: copy_customs(&self.custom_actions),
            action_ids: copy_opt_strings(&self.action_ids),
        }
    }
}

impl Default for AppEntry {
    /// Everything empty, no whitelist.
    fn default() -> (r: AppEntry)
        ensures
            r@.name == Seq::<char>::empty(),
            r@.icon == Seq::<char>::empty(),
            r@.argv == Seq::<Seq<char>>::empty(),
            r@.wm_class == Seq::<char>::empty(),
            r@.color == Seq::<char>::empty(),
            r@.custom_actions == Seq::<CustomActionView>::empty(),
            r@.action_ids is None,
    {
        let r = AppEntry {
            name: String::new(),
            icon: String::new(),
            argv: Vec::new(),
            wm_class: String::new(),
            color: String::new(),
            custom_actions: Vec::new(),
            action_ids: None,
        };
        assert(views(r.argv@) =~= Seq::<Seq<char>>::empty());
        assert(customs_view(r.custom_actions@) =~= Seq::<CustomActionView>::empty());
        r
    }
}

/// The apps' contents, in order.
pub open spec fn apps_view(v: Seq<AppEntry>) -> Seq<AppEntryView> {
    v.map_values(|a: AppEntry| a@)
}

/// A copy of a list of apps.
pub fn copy_apps(v: &Vec<AppEntry>) -> (r: Vec<AppEntry>)
    ensures
        apps_view(r@) == apps_view(v@),
{
    let mut r: Vec<AppEntry> = Vec::new();
    let mut i: usize = 0;
    while i < v.len()
        invariant
            i <= v@.len(),
            r@.len() == i,
            forall|k: int| 0 <= k < i ==> #[trigger] r@[k]@ == v@[k]@,
        decreases v.len() - i,
    {
        r.push(v[i].copy());
        i = i + 1;
    }
    assert(apps_view(r@) =~= apps_view(v@));
    r
}

/// A plain app: name, icon, one-word command and window class; nothing else.
pub open spec fn plain_app(a: AppEntryView, name: Seq<char>, icon: Seq<char>, exec: Seq<char>, wm: Seq<char>) -> bool {
    &&& a.name == name
    &&& a.icon == icon
    &&& a.argv == seq![exec]
    &&& a.wm_class == wm
    &&& a.color == Seq::<char>::empty()
    &&& a.custom_actions == Seq::<CustomActionView>::empty()
    &&& a.action_ids is None
}

fn plain(name: &str, icon: &str, exec: &str, wm: &str) -> (r: AppEntry)
    ensures
        plain_app(r@, name@, icon@, exec@, wm@),
{
    let mut a = AppEntry::default();
    a.name = String::from_str(name);
    a.icon = String::from_str(icon);
    a.argv.push(String::from_str(exec));
    a.wm_class = String::from_str(wm);
    assert(views(a.argv@) =~= seq![exec@]);
    a
}

/// The apps ring of a fresh install, by content.
pub open spec fn is_default_apps(v: Seq<AppEntryView>) -> bool {
    &&& v.len() == 4
    &&& plain_app(v[0], "Firefox"@, "firefox"@, "firefox"@, "firefox"@)
    &&& plain_app(v[1], "Terminal"@, "utilities-terminal"@, "kitty"@, "kitty"@)
    &&& plain_app(v[2], "Files"@, "system-file-manager"@, "nautilus"@, "nautilus"@)
    &&& plain_app(v[3], "Editor"@, "text-editor"@, "code"@, "Code"@)
}

/// The apps ring of a fresh install: Firefox, a terminal, a file manager
/// and an editor.
pub fn default_apps() -> (r: Vec<AppEntry>)
    ensures
        is_default_apps(apps_view(r@)),
{
    let mut r: Vec<AppEntry> = Vec::new();
    r.push(plain("Firefox", "firefox", "firefox", "firefox"));
    r.push(plain("Terminal", "utilities-terminal", "kitty", "kitty"));
    r.push(plain("Files", "system-file-manager", "nautilus", "nautilus"));
    r.push(plain("Editor", "text-editor", "code", "Code"));
    assert(apps_view(r@)[0] == r@[0]@);
    assert(apps_view(r@)[1] == r@[1]@);
    assert(apps_view(r@)[2] == r@[2]@);
    assert(apps_view(r@)[3] == r@[3]@);
    r
}

/// What loading `apps.json` decided: the apps to use, and whether the
/// defaults must be written back (first run, or an unusable file).
pub struct LoadedApps {
    pub apps: Vec<AppEntry>,
    pub write_defaults: bool,
}

/// Given what `apps.json` parsed to (None when missing or unreadable),
/// the apps to use: the file's apps when it held a non-empty array, else
/// the defaults, which are then to be written back.
pub fn load_apps(parsed: Option<Vec<AppEntry>>) -> (r: LoadedApps)
    ensures
        match parsed {
            Some(a) if a@.len() > 0 => !r.write_defaults && apps_view(r.apps@) == apps_view(a@),
            _ => r.write_defaults && is_default_apps(apps_view(r.apps@)),
        },
{
    match parsed {
        Some(a) => {
            if a.len() > 0 {
                return LoadedApps { apps: a, write_defaults: false };
            }
        },
        None => {},
    }
    let d = default_apps();
    LoadedApps { apps: d, write_defaults: true }
}

/// The path of the settings file under the config dir.
pub fn settings_path(config_dir: &str) -> (p: String)
    ensures
        p@ == path_join(config_dir@, "settings.json"@),
{
    join_path(config_dir, "settings.json")
}

/// The path of the apps file under the config dir.
pub fn apps_path(config_dir: &str) -> (p: String)
    ensures
        p@ == path_join(config_dir@, "apps.json"@),
{
    join_path(config_dir, "apps.json")
}

} // verus!
