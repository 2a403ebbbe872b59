//! The installed-app index: desktop entries sorted for the picker, finding
//! the entry of a window class, the icon of a class, and where an icon name
//! is looked up.

use vstd::prelude::*;
use crate::config::{apps_view, AppEntry, AppEntryView};
use crate::order::{
    first_where, keys_view, lemma_first_found, lemma_first_none, sort_positions, stable_order, Key,
};
use crate::text::{base_name, basename, chars_of, copy_strings, lower_eq, lowercase, to_lower, views};

verus! {

/// One desktop action of an entry.
#[derive(Debug, Clone)]
pub struct DesktopAction {
    /// Display label (the Action group's Name=).
    pub name: String,
    /// Tokenized Exec argv, field codes stripped.
    pub command: Vec<String>,
}

/// The character-level content of a [`DesktopAction`].
pub struct DesktopActionView {
    pub name: Seq<char>,
    pub command: Seq<Seq<char>>,
}

impl View for DesktopAction {
    type V = DesktopActionView;

    open spec fn view(&self) -> DesktopActionView {
        DesktopActionView { name: self.name@, command: views(self.command@) }
    }
}

impl DesktopAction {
    /// A copy with the same content.
    pub fn copy(&self) -> (r: DesktopAction)
        ensures
            r@ == self@,
    {
        DesktopAction { name: self.name.clone(), command: copy_strings(&self.command) }
    }
}

/// The actions' contents, in order.
pub open spec fn actions_view(v: Seq<DesktopAction>) -> Seq<DesktopActionView> {
    v.map_values(|a: DesktopAction| a@)
}

/// One installed application.
#[derive(Debug, Clone)]
pub struct DesktopApp {
    /// Desktop-file id (basename without .desktop).
    pub id: String,
    pub name: String,
    pub icon: String,
    /// Tokenized Exec argv, field codes stripped; falls back to [id].
    pub argv: Vec<String>,
    /// StartupWMClass= or "".
    pub startup_wm_class: String,
    pub actions: Vec<DesktopAction>,
}

/// The character-level content of a [`DesktopApp`].
pub struct DesktopAppView {
    pub id: Seq<char>,
    pub name: Seq<char>,
    pub icon: Seq<char>,
    pub argv: Seq<Seq<char>>,
    pub startup_wm_class: Seq<char>,
    pub actions: Seq<DesktopActionView>,
}

impl View for DesktopApp {
    type V = DesktopAppView;

    open spec fn view(&self) -> DesktopAppView {
        DesktopAppView {
            id: self.id@,
            name: self.name@,
            icon: self.icon@,
            argv: views(self.argv@),
            startup_wm_class: self.startup_wm_class@,
            actions: actions_view(self.actions@),
        }
    }
}

impl DesktopApp {
    /// A copy with the same content.
    pub fn copy(&self) -> (r: DesktopApp)
        ensures
            r@ == self@,
    {
        let mut actions: Vec<DesktopAction> = Vec::new();
        let mut i: usize = 0;
        while i < self.actions.len()
            invariant
                i <= self.actions@.len(),
                actions@.len() == i,
                forall|k: int| 0 <= k < i ==> #[trigger] actions@[k]@ == self.actions@[k]@,
            decreases self.actions.len() - i,
        {
            actions.push(self.actions[i].copy());
            i = i + 1;
        }
        assert(actions_view(actions@) =~= actions_view(self.actions@));
        DesktopApp {
            id: self.id.clone(),
            name: self.name.clone(),
            icon: self.icon.clone(),
            argv: copy_strings(&self.argv),
            startup_wm_class: self.startup_wm_class.clone(),
            actions,
        }
    }
}

/// The entries' contents, in order.
pub open spec fn desktop_view(v: Seq<DesktopApp>) -> Seq<DesktopAppView> {
    v.map_values(|d: DesktopApp| d@)
}

/// The picker order's key of an entry: its name lowercased, then as is.
pub open spec fn name_key(d: DesktopAppView) -> Key {
    (lowercase(d.name), d.name)
}

/// The picker-order keys of the entries.
pub open spec fn name_keys(v: Seq<DesktopAppView>) -> Seq<Key> {
    v.map_values(|d: DesktopAppView| name_key(d))
}

/// `r` is `v` stably sorted by [`name_key`].
pub open spec fn sorted_by_name(v: Seq<DesktopAppView>, r: Seq<DesktopAppView>) -> bool {
    exists|idx: Seq<int>| #[trigger] stable_order(name_keys(v), idx)
        && r.len() == v.len() && forall|i: int| 0 <= i < r.len() ==> #[trigger] r[i] == v[idx[i]]
}

/// The installed applications, sorted case-insensitively by name.
#[derive(Debug)]
pub struct AppIndex {
    installed: Vec<DesktopApp>,
}

impl View for AppIndex {
    type V = Seq<DesktopAppView>;

    closed spec fn view(&self) -> Seq<DesktopAppView> {
        desktop_view(self.installed@)
    }
}

impl Default for AppIndex {
    /// An index with no entries.
    fn default() -> (r: AppIndex)
        ensures
            r@ == Seq::<DesktopAppView>::empty(),
    {
        let r = AppIndex { installed: Vec::new() };
        assert(desktop_view(r.installed@) =~= Seq::<DesktopAppView>::empty());
        r
    }
}

/// Entry `d` is the one of window class `cls` by its StartupWMClass.
pub open spec fn class_match(d: DesktopAppView, cls: Seq<char>) -> bool {
    cls.len() > 0 && d.startup_wm_class.len() > 0 && lowercase(d.startup_wm_class) == lowercase(cls)
}

/// Entry `d` is the one of window class `cls` by its desktop id.
pub open spec fn id_match(d: DesktopAppView, cls: Seq<char>) -> bool {
    cls.len() > 0 && lowercase(d.id) == lowercase(cls)
}

/// Entry `d` runs the program `exec0` names (same file name).
pub open spec fn exec_match(d: DesktopAppView, exec0: Seq<char>) -> bool {
    exec0.len() > 0 && d.argv.len() > 0 && basename(d.argv[0]) == basename(exec0)
}

/// The entry for a window class: the first whose StartupWMClass matches
/// (case-insensitively), else the first whose desktop id matches, else the
/// first whose command has the same file name as `exec0`.
pub open spec fn find_spec(apps: Seq<DesktopAppView>, cls: Seq<char>, exec0: Seq<char>) -> Option<int> {
    match first_where(apps, |d: DesktopAppView| class_match(d, cls)) {
        Some(i) => Some(i),
        None => match first_where(apps, |d: DesktopAppView| id_match(d, cls)) {
            Some(i) => Some(i),
            None => first_where(apps, |d: DesktopAppView| exec_match(d, exec0)),
        },
    }
}

/// Configured app `a` is the one of window class `cls` and names an icon.
pub open spec fn configured_icon(a: AppEntryView, cls: Seq<char>) -> bool {
    lowercase(a.wm_class) == lowercase(cls) && a.icon.len() > 0
}

/// The icon of a window class: the icon of the first configured app of that
/// class that has one, else the icon of its desktop entry when that has
/// one, else the class itself.
pub open spec fn icon_spec(apps: Seq<DesktopAppView>, cls: Seq<char>, configured: Seq<AppEntryView>) -> Seq<char> {
    match first_where(configured, |a: AppEntryView| configured_icon(a, cls)) {
        Some(i) => configured[i].icon,
        None => match find_spec(apps, cls, Seq::empty()) {
            Some(j) if apps[j].icon.len() > 0 => apps[j].icon,
            _ => cls,
        },
    }
}

impl AppIndex {
    /// Indexes the scanned entries, sorted case-insensitively by name (ties
    /// by the exact name, then in scan order).
    pub fn scan(entries: Vec<DesktopApp>) -> (r: AppIndex)
        ensures
            sorted_by_name(desktop_view(entries@), r@),
    {
        let ghost v = desktop_view(entries@);
        let mut keys: Vec<(Vec<char>, Vec<char>)> = Vec::new();
        let mut i: usize = 0;
        while i < entries.len()
            invariant
                i <= entries@.len(),
                v == desktop_view(entries@),
                keys@.len() == i,
                forall|k: int| 0 <= k < i ==> #[trigger] keys_view(keys@)[k] == name_key(v[k]),
            decreases entries.len() - i,
        {
            let lower = to_lower(entries[i].name.as_str());
            let name = chars_of(entries[i].name.as_str());
            let ghost before = keys@;
            keys.push((chars_of(lower.as_str()), name));
            proof {
                assert(keys_view(keys@)[i as int] == (keys@[i as int].0@, keys@[i as int].1@));
                assert forall|k: int| 0 <= k < i + 1 implies #[trigger] keys_view(keys@)[k] == name_key(v[k]) by {
                    if k < i {
                        assert(keys@[k] == before[k]);
                        assert(keys_view(before)[k] == name_key(v[k]));
                    }
                }
            }
            i = i + 1;
        }
        assert(keys_view(keys@) =~= name_keys(v));
        let idx = sort_positions(&keys);
        let ghost gidx = idx@.map_values(|p: usize| p as int);
        let mut out: Vec<DesktopApp> = Vec::new();
        let mut j: usize = 0;
        while j < idx.len()
            invariant
                j <= idx@.len(),
                idx@.len() == entries@.len(),
                v == desktop_view(entries@),
                gidx == idx@.map_values(|p: usize| p as int),
                stable_order(keys_view(keys@), gidx),
                out@.len() == j,
                forall|k: int| 0 <= k < j ==> #[trigger] out@[k]@ == v[gidx[k]],
            decreases idx.len() - j,
        {
            assert(0 <= gidx[j as int] < keys_view(keys@).len());
            out.push(entries[idx[j]].copy());
            j = j + 1;
        }
        let r = AppIndex { installed: out };
        assert(stable_order(name_keys(v), gidx));
        assert(desktop_view(out@).len() == v.len());
        assert forall|k: int| 0 <= k < v.len() implies #[trigger] desktop_view(out@)[k] == v[gidx[k]] by {}
        r
    }

    /// The installed entries, in picker order.
    pub fn installed(&self) -> (r: &[DesktopApp])
        ensures
            desktop_view(r@) == self@,
    {
        self.installed.as_slice()
    }

    /// The desktop entry of a window class (see [`find_spec`]).
    pub fn find_for(&self, wm_class: &str, exec0: &str) -> (r: Option<&DesktopApp>)
        ensures
            match find_spec(self@, wm_class@, exec0@) {
                Some(i) => r matches Some(d) && d@ == self@[i],
                None => r is None,
            },
    {
        let ghost s = self@;
        let n = self.installed.len();
        let mut i: usize = 0;
        while i < n
            invariant
                n == self.installed@.len(),
                s == self@,
                s == desktop_view(self.installed@),
                i <= n,
                forall|j: int| 0 <= j < i ==> !class_match(#[trigger] s[j], wm_class@),
            decreases n - i,
        {
            let d = &self.installed[i];
            if !wm_class.is_empty() && !d.startup_wm_class.as_str().is_empty()
                && lower_eq(d.startup_wm_class.as_str(), wm_class)
            {
                proof {
                    assert(s[i as int] == d@);
                    lemma_first_found(s, |d: DesktopAppView| class_match(d, wm_class@), i as int);
                }
                return Some(d);
            }
            proof {
                assert(s[i as int] == d@);
            }
            i = i + 1;
        }
        proof {
            lemma_first_none(s, |d: DesktopAppView| class_match(d, wm_class@));
        }
        let mut i: usize = 0;
        while i < n
            invariant
                n == self.installed@.len(),
                s == self@,
                s == desktop_view(self.installed@),
                i <= n,
                first_where(s, |d: DesktopAppView| class_match(d, wm_class@)) is None,
                forall|j: int| 0 <= j < i ==> !id_match(#[trigger] s[j], wm_class@),
            decreases n - i,
        {
            let d = &self.installed[i];
            if !wm_class.is_empty() && lower_eq(d.id.as_str(), wm_class) {
                proof {
                    assert(s[i as int] == d@);
                    lemma_first_found(s, |d: DesktopAppView| id_match(d, wm_class@), i as int);
                }
                return Some(d);
            }
            proof {
                assert(s[i as int] == d@);
            }
            i = i + 1;
        }
        proof {
            lemma_first_none(s, |d: DesktopAppView| id_match(d, wm_class@));
        }
        let want = base_name(exec0);
        let mut i: usize = 0;
        while i < n
            invariant
                n == self.installed@.len(),
                s == self@,
                s == desktop_view(self.installed@),
                want@ == basename(exec0@),
                i <= n,
                first_where(s, |d: DesktopAppView| class_match(d, wm_class@)) is None,
                first_where(s, |d: DesktopAppView| id_match(d, wm_class@)) is None,
                forall|j: int| 0 <= j < i ==> !exec_match(#[trigger] s[j], exec0@),
            decreases n - i,
        {
            let d = &self.installed[i];
            proof {
                assert(s[i as int] == d@);
            }
            if !exec0.is_empty() && d.argv.len() > 0 {
                let have = base_name(d.argv[0].as_str());
                if crate::order::chars_eq(have.as_slice(), want.as_slice()) {
                    proof {
                        lemma_first_found(s, |d: DesktopAppView| exec_match(d, exec0@), i as int);
                    }
                    return Some(d);
                }
            }
            i = i + 1;
        }
        proof {
            lemma_first_none(s, |d: DesktopAppView| exec_match(d, exec0@));
        }
        None
    }

    /// The icon of a window class (see [`icon_spec`]).
    pub fn icon_for_class(&self, cls: &str, configured: &[AppEntry]) -> (r: String)
        ensures
            r@ == icon_spec(self@, cls@, apps_view(configured@)),
    {
        let ghost cv = apps_view(configured@);
        let mut i: usize = 0;
        while i < configured.len()
            invariant
                i <= configured@.len(),
                cv == apps_view(configured@),
                forall|j: int| 0 <= j < i ==> !configured_icon(#[trigger] cv[j], cls@),
            decreases configured.len() - i,
        {
            let a = &configured[i];
            proof {
                assert(cv[i as int] == a@);
            }
            if !a.icon.as_str().is_empty() && lower_eq(a.wm_class.as_str(), cls) {
                proof {
                    lemma_first_found(cv, |a: AppEntryView| configured_icon(a, cls@), i as int);
                }
                return a.icon.clone();
            }
            i = i + 1;
        }
        proof {
            lemma_first_none(cv, |a: AppEntryView| configured_icon(a, cls@));
        }
        proof {
            reveal_strlit("");
            assert(""@ =~= Seq::<char>::empty());
        }
        match self.find_for(cls, "") {
            Some(d) => {
                if !d.icon.as_str().is_empty() {
                    return d.icon.clone();
                }
            },
            None => {},
        }
        String::from_str(cls)
    }
}

/// Where an icon is looked up: nowhere (draw a monogram), an absolute file
/// path used as is, or an icon-theme name.
#[derive(Debug, Clone, PartialEq)]
pub enum IconSource {
    Monogram,
    Path(String),
    Theme(String),
}

/// The icon name every theme is asked for when a named icon is missing.
pub fn fallback_icon() -> (r: &'static str)
    ensures
        r@ == "application-x-executable"@,
{
    "application-x-executable"
}

/// An absolute file path on either kind of system: one that starts at the
/// root (`/`), a network share (`\\host`), or a drive letter followed by
/// `:` and a separator (`C:\`, `C:/`).
pub open spec fn is_absolute_path(p: Seq<char>) -> bool {
    ||| (p.len() >= 1 && p[0] == '/')
    ||| (p.len() >= 2 && p[0] == '\\' && p[1] == '\\')
    ||| (p.len() >= 3 && is_letter(p[0]) && p[1] == ':' && (p[2] == '\\' || p[2] == '/'))
}

/// An ASCII letter.
pub open spec fn is_letter(c: char) -> bool {
    ('a' <= c && c <= 'z') || ('A' <= c && c <= 'Z')
}

fn is_ascii_letter(c: char) -> (r: bool)
    ensures
        r == is_letter(c),
{
    ('a' <= c && c <= 'z') || ('A' <= c && c <= 'Z')
}

/// An icon name's source: no name draws a monogram, an absolute path
/// ([`is_absolute_path`]) is used as is, anything else is an icon-theme name (which, when the theme
/// lacks it, falls back to [`fallback_icon`]).
pub fn icon_path(icon: &str) -> (r: IconSource)
    ensures
        icon@.len() == 0 ==> r == IconSource::Monogram,
        icon@.len() > 0 && is_absolute_path(icon@) ==> (r matches IconSource::Path(p) && p@
            == icon@),
        icon@.len() > 0 && !is_absolute_path(icon@) ==> (r matches IconSource::Theme(n) && n@
            == icon@),
{
    let v = chars_of(icon);
    let n = v.len();
    if n == 0 {
        return IconSource::Monogram;
    }
    let rooted = v[0] == '/' || (n >= 2 && v[0] == '\\' && v[1] == '\\');
    let drive = n >= 3 && is_ascii_letter(v[0]) && v[1] == ':' && (v[2] == '\\' || v[2] == '/');
    if rooted || drive {
        IconSource::Path(String::from_str(icon))
    } else {
        IconSource::Theme(String::from_str(icon))
    }
}

} // verus!
