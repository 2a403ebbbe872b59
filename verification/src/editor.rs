//! The settings editor's logic: editing the apps list, an app's fields,
//! its action whitelist and custom actions, the shortcut slots, the rows
//! the editor lists, and what the per-app action arc offers.

use vstd::prelude::*;
use crate::apps::{AppIndex, DesktopApp, DesktopAppView, desktop_view};
use crate::config::{
    AppEntry, AppEntryView, CustomAction, CustomActionView, KeybindSettings, apps_view, copy_customs,
    copy_opt_strings, customs_view, opt_views,
};
use crate::nums::{parse_uint, parse_uint_chars};
use crate::ring::{
    ActionKind, ActionKindView, ActionTemplate, ActionTemplateView, Core, FocusedApp, FocusedAppView, RingEntry,
    RingEntryView, class_windows, filter_actions, filtered, templates_spec, templates_view,
};
use crate::text::{chars_of, copy_strings, has_sub, is_white, lowercase, str_is, string_of, to_lower, trim, trim_chars, views};
use crate::compositor::infos_view;

verus! {

// ------------------------------------------------------------- apps

/// The icon name of a new app.
pub open spec fn default_icon() -> Seq<char> {
    "application-x-executable"@
}

/// A new blank app: "New App", the generic icon, an empty command.
pub open spec fn new_app() -> AppEntryView {
    AppEntryView {
        name: "New App"@,
        icon: default_icon(),
        argv: seq![Seq::empty()],
        wm_class: Seq::empty(),
        color: Seq::empty(),
        custom_actions: Seq::empty(),
        action_ids: None,
    }
}

/// Appends a blank app.
pub fn add_app(apps: &mut Vec<AppEntry>)
    ensures
        apps_view(final(apps)@) == apps_view(old(apps)@).push(new_app()),
{
    let mut a = AppEntry::default();
    a.name = String::from_str("New App");
    a.icon = String::from_str("application-x-executable");
    a.argv.push(String::new());
    assert(views(a.argv@) =~= seq![Seq::<char>::empty()]);
    let ghost before = apps@;
    apps.push(a);
    assert(apps_view(apps@) =~= apps_view(before).push(new_app()));
}

/// An installed entry as a configured app: its name; its icon, else the
/// generic one; its command, else its id; its StartupWMClass, else its id.
pub open spec fn installed_app(d: DesktopAppView) -> AppEntryView {
    AppEntryView {
        name: d.name,
        icon: if d.icon.len() == 0 { default_icon() } else { d.icon },
        argv: if d.argv.len() == 0 { seq![d.id] } else { d.argv },
        wm_class: if d.startup_wm_class.len() == 0 { d.id } else { d.startup_wm_class },
        color: Seq::empty(),
        custom_actions: Seq::empty(),
        action_ids: None,
    }
}

/// Appends installed entry `i` of the picker as an app; nothing for a
/// position that is not in the picker. Whether an app was added.
pub fn add_installed(apps: &mut Vec<AppEntry>, index: &AppIndex, i: i32) -> (added: bool)
    ensures
        added == (0 <= i < index@.len()),
        added ==> apps_view(final(apps)@) == apps_view(old(apps)@).push(installed_app(index@[i as int])),
        !added ==> apps_view(final(apps)@) == apps_view(old(apps)@),
{
    let installed = index.installed();
    if i < 0 || i as usize >= installed.len() {
        return false;
    }
    let d = &installed[i as usize];
    proof {
        assert(desktop_view(installed@)[i as int] == d@);
    }
    let mut a = AppEntry::default();
    a.name = d.name.clone();
    a.icon = if d.icon.as_str().is_empty() {
        String::from_str("application-x-executable")
    } else {
        d.icon.clone()
    };
    if d.argv.len() == 0 {
        a.argv.push(d.id.clone());
        assert(views(a.argv@) =~= seq![d@.id]);
    } else {
        a.argv = copy_strings(&d.argv);
    }
    a.wm_class = if d.startup_wm_class.as_str().is_empty() {
        d.id.clone()
    } else {
        d.startup_wm_class.clone()
    };
    let ghost before = apps@;
    apps.push(a);
    assert(apps_view(apps@) =~= apps_view(before).push(installed_app(index@[i as int])));
    true
}

/// Removes app `i`; nothing for a position that is not in the list.
pub fn remove_app(apps: &mut Vec<AppEntry>, i: i32)
    ensures
        0 <= i < old(apps)@.len() ==> apps_view(final(apps)@) == apps_view(old(apps)@).remove(i as int),
        !(0 <= i < old(apps)@.len()) ==> apps_view(final(apps)@) == apps_view(old(apps)@),
{
    if i >= 0 && (i as usize) < apps.len() {
        let ghost before = apps@;
        apps.remove(i as usize);
        assert(apps_view(apps@) =~= apps_view(before).remove(i as int));
    }
}

/// Moves app `i` by `dir` (swapping it with its neighbour there) when both
/// positions are in the list; the editor's selection follows to `i + dir`
/// either way.
pub fn move_app(apps: &mut Vec<AppEntry>, i: i32, dir: i32) -> (sel: i32)
    requires
        i32::MIN <= i + dir <= i32::MAX,
    ensures
        sel == i + dir,
        ({
            let n = old(apps)@.len();
            let j = i + dir;
            let v = apps_view(old(apps)@);
            if 0 <= i < n && 0 <= j < n {
                apps_view(final(apps)@) == swapped(v, i as int, j)
            } else {
                apps_view(final(apps)@) == v
            }
        }),
{
    let j = i + dir;
    if i >= 0 && j >= 0 && (i as usize) < apps.len() && (j as usize) < apps.len() {
        let ghost before = apps@;
        let a = apps[i as usize].copy();
        let b = apps[j as usize].copy();
        apps.set(i as usize, b);
        apps.set(j as usize, a);
        assert(apps_view(apps@) =~= apps_view(before).update(i as int, apps_view(before)[j as int]).update(
            j as int, apps_view(before)[i as int]));
    }
    j
}

/// The list after moving position `i` to `j` by swapping the two.
pub open spec fn swapped(v: Seq<AppEntryView>, i: int, j: int) -> Seq<AppEntryView> {
    v.update(i, v[j]).update(j, v[i])
}

/// Moving an app back undoes a move: moving from `i` by `dir` and then from
/// `i + dir` by `-dir` gives the list back, and the selection returns to
/// `i`.
pub proof fn lemma_move_back(v: Seq<AppEntryView>, i: int, dir: int)
    requires
        0 <= i < v.len(),
        0 <= i + dir < v.len(),
    ensures
        swapped(swapped(v, i, i + dir), i + dir, i) == v,
        (i + dir) + (-dir) == i,
{
    assert(swapped(swapped(v, i, i + dir), i + dir, i) =~= v);
}

/// The words of a string: the non-empty runs between whitespace, as
/// `str::split_whitespace` yields them; and the run in progress.
pub open spec fn words_acc(s: Seq<char>) -> (Seq<Seq<char>>, Seq<char>)
    decreases s.len(),
{
    if s.len() == 0 {
        (Seq::empty(), Seq::empty())
    } else {
        let (ws, cur) = words_acc(s.drop_last());
        if is_white(s.last()) {
            (if cur.len() > 0 { ws.push(cur) } else { ws }, Seq::empty())
        } else {
            (ws, cur.push(s.last()))
        }
    }
}

/// The words of a string, as `str::split_whitespace` yields them.
pub open spec fn words(s: Seq<char>) -> Seq<Seq<char>> {
    let (ws, cur) = words_acc(s);
    if cur.len() > 0 {
        ws.push(cur)
    } else {
        ws
    }
}

/// Splits a string at whitespace.
pub fn split_words(s: &str) -> (r: Vec<String>)
    ensures
        views(r@) == words(s@),
{
    let v = chars_of(s);
    let mut out: Vec<String> = Vec::new();
    let mut cur: Vec<char> = Vec::new();
    let mut i: usize = 0;
    while i < v.len()
        invariant
            i <= v@.len(),
            v@ == s@,
            (views(out@), cur@) == words_acc(v@.take(i as int)),
        decreases v.len() - i,
    {
        proof {
            assert(v@.take(i + 1).drop_last() =~= v@.take(i as int));
            assert(v@.take(i + 1).last() == v@[i as int]);
        }
        let c = v[i];
        let ghost before = out@;
        if crate::text::char_is_whitespace(c) {
            if cur.len() > 0 {
                out.push(string_of(cur.as_slice()));
                assert(views(out@) =~= views(before).push(cur@));
            }
            cur = Vec::new();
            assert(cur@ =~= Seq::<char>::empty());
        } else {
            cur.push(c);
        }
        i = i + 1;
    }
    assert(v@.take(v@.len() as int) =~= v@);
    if cur.len() > 0 {
        let ghost before = out@;
        out.push(string_of(cur.as_slice()));
        assert(views(out@) =~= views(before).push(cur@));
    }
    out
}

/// App `a` with field `field` set from the editor's text: the command is
/// split at whitespace; unknown fields change nothing.
pub open spec fn with_field(a: AppEntryView, field: Seq<char>, value: Seq<char>) -> AppEntryView {
    if field == "name"@ {
        AppEntryView { name: value, ..a }
    } else if field == "icon"@ {
        AppEntryView { icon: value, ..a }
    } else if field == "exec"@ {
        AppEntryView { argv: words(value), ..a }
    } else if field == "wmClass"@ {
        AppEntryView { wm_class: value, ..a }
    } else if field == "color"@ {
        AppEntryView { color: value, ..a }
    } else {
        a
    }
}

/// Sets one field of app `i` (see [`with_field`]); nothing for a position
/// that is not in the list.
pub fn set_app_field(apps: &mut Vec<AppEntry>, i: i32, field: &str, value: &str)
    ensures
        0 <= i < old(apps)@.len() ==> apps_view(final(apps)@) == apps_view(old(apps)@).update(
            i as int, with_field(apps_view(old(apps)@)[i as int], field@, value@)),
        !(0 <= i < old(apps)@.len()) ==> apps_view(final(apps)@) == apps_view(old(apps)@),
{
    if i < 0 || i as usize >= apps.len() {
        return;
    }
    let k = i as usize;
    let mut a = apps[k].copy();
    if str_is(field, "name") {
        a.name = String::from_str(value);
    } else if str_is(field, "icon") {
        a.icon = String::from_str(value);
    } else if str_is(field, "exec") {
        a.argv = split_words(value);
    } else if str_is(field, "wmClass") {
        a.wm_class = String::from_str(value);
    } else if str_is(field, "color") {
        a.color = String::from_str(value);
    }
    let ghost before = apps@;
    proof {
        assert(apps_view(before)[k as int] == before[k as int]@);
    }
    apps.set(k, a);
    assert(apps_view(apps@) =~= apps_view(before).update(k as int, with_field(apps_view(before)[k as int], field@, value@)));
}

// ---------------------------------------------------------- actions

/// The first word of a command, or nothing.
pub open spec fn first_or_empty(argv: Seq<Seq<char>>) -> Seq<char> {
    if argv.len() > 0 {
        argv[0]
    } else {
        Seq::empty()
    }
}

/// An app as the actions system sees it from the editor: its class and
/// custom actions, no window, and the given whitelist.
pub open spec fn editor_target(a: AppEntryView, ids: Option<Seq<Seq<char>>>) -> FocusedAppView {
    FocusedAppView {
        icon: a.icon,
        wm_class: a.wm_class,
        window: None,
        custom_actions: a.custom_actions,
        action_ids: ids,
    }
}

/// Every template id an app's whitelist can hold: the ids of its
/// non-custom templates.
pub open spec fn all_ids(c: Core, a: AppEntryView) -> Seq<Seq<char>> {
    templates_spec(c.index@, c.can_float, FocusedAppView { icon: Seq::empty(), ..editor_target(a, None) }, first_or_empty(a.argv))
        .filter(|t: ActionTemplateView| !(t.kind is Keys))
        .map_values(|t: ActionTemplateView| t.id)
}

/// A whitelist with `id` switched on (added when missing) or off (every
/// occurrence dropped).
pub open spec fn toggled(ids: Seq<Seq<char>>, id: Seq<char>, on: bool) -> Seq<Seq<char>> {
    if on {
        if ids.contains(id) { ids } else { ids.push(id) }
    } else {
        ids.filter(|x: Seq<char>| x != id)
    }
}

/// One row of the editor's action list for an app.
#[derive(Debug, Clone)]
pub struct ActionRow {
    pub id: String,
    pub label: String,
    pub glyph: String,
    /// Custom actions always; others when whitelisted (or no whitelist).
    pub enabled: bool,
    pub is_custom: bool,
    /// The combo of a custom action, else empty.
    pub shortcut: String,
    pub icon: String,
    pub color: String,
}

/// The content of an [`ActionRow`].
pub struct ActionRowView {
    pub id: Seq<char>,
    pub label: Seq<char>,
    pub glyph: Seq<char>,
    pub enabled: bool,
    pub is_custom: bool,
    pub shortcut: Seq<char>,
    pub icon: Seq<char>,
    pub color: Seq<char>,
}

impl View for ActionRow {
    type V = ActionRowView;

    open spec fn view(&self) -> ActionRowView {
        ActionRowView {
            id: self.id@,
            label: self.label@,
            glyph: self.glyph@,
            enabled: self.enabled,
            is_custom: self.is_custom,
            shortcut: self.shortcut@,
            icon: self.icon@,
            color: self.color@,
        }
    }
}

/// The row of a template under a whitelist.
pub open spec fn row_of(t: ActionTemplateView, ids: Option<Seq<Seq<char>>>) -> ActionRowView {
    ActionRowView {
        id: t.id,
        label: t.label,
        glyph: t.glyph,
        enabled: t.kind is Keys || match ids {
            Some(l) => l.contains(t.id),
            None => true,
        },
        is_custom: t.kind is Keys,
        shortcut: match t.kind {
            ActionKindView::Keys(s) => s,
            _ => Seq::empty(),
        },
        icon: t.icon,
        color: t.color,
    }
}

/// The editor's action rows of app `sel`: every template of the app (its
/// whitelist applied to `enabled` only); none without such an app.
pub open spec fn rows_spec(c: Core, sel: i32) -> Seq<ActionRowView> {
    let apps = apps_view(c.apps@);
    if 0 <= sel < apps.len() {
        let a = apps[sel as int];
        templates_spec(c.index@, c.can_float, editor_target(a, a.action_ids), first_or_empty(a.argv))
            .map_values(|t: ActionTemplateView| row_of(t, a.action_ids))
    } else {
        Seq::empty()
    }
}

/// What the per-app action arc of an apps-ring slice offers: the app's
/// templates filtered as the actions ring filters them (a window counts
/// when one of the class is open), or the open fallback.
pub open spec fn arc_spec(c: Core, e: RingEntryView) -> Seq<ActionTemplateView> {
    let apps = apps_view(c.apps@);
    let cfg = match e.app_index {
        Some(i) if i < apps.len() => Some(apps[i as int]),
        _ => None,
    };
    let target = FocusedAppView {
        icon: e.icon,
        wm_class: e.wm_class,
        window: None,
        custom_actions: match cfg {
            Some(a) => a.custom_actions,
            None => Seq::empty(),
        },
        action_ids: match cfg {
            Some(a) => a.action_ids,
            None => None,
        },
    };
    let exec0 = match cfg {
        Some(a) => first_or_empty(a.argv),
        None => Seq::empty(),
    };
    let has_window = class_windows(infos_view(c.windows@), e.wm_class).len() > 0;
    filtered(templates_spec(c.index@, c.can_float, target, exec0), target.action_ids, has_window)
}

fn first_word(a: &AppEntry) -> (r: String)
    ensures
        r@ == first_or_empty(a@.argv),
{
    if a.argv.len() > 0 {
        proof {
            assert(views(a.argv@)[0] == a.argv@[0]@);
        }
        a.argv[0].clone()
    } else {
        String::new()
    }
}

fn ids_hold(ids: &Vec<String>, id: &str) -> (r: bool)
    ensures
        r == views(ids@).contains(id@),
{
    let mut i: usize = 0;
    while i < ids.len()
        invariant
            i <= ids@.len(),
            forall|j: int| 0 <= j < i ==> #[trigger] ids@[j]@ != id@,
        decreases ids.len() - i,
    {
        if str_is(ids[i].as_str(), id) {
            assert(views(ids@)[i as int] == id@);
            return true;
        }
        i = i + 1;
    }
    assert forall|j: int| 0 <= j < views(ids@).len() implies views(ids@)[j] != id@ by {
        assert(views(ids@)[j] == ids@[j]@);
    }
    false
}

impl Core {
    /// The editor's action rows of app `sel` (see [`rows_spec`]).
    pub fn action_rows(&self, sel: i32) -> (r: Vec<ActionRow>)
        ensures
            r@.map_values(|x: ActionRow| x@) == rows_spec(*self, sel),
    {
        let mut out: Vec<ActionRow> = Vec::new();
        if sel < 0 || sel as usize >= self.apps.len() {
            assert(out@.map_values(|x: ActionRow| x@) =~= Seq::<ActionRowView>::empty());
            return out;
        }
        let a = &self.apps[sel as usize];
        proof {
            assert(apps_view(self.apps@)[sel as int] == a@);
        }
        let target = FocusedApp {
            icon: a.icon.clone(),
            wm_class: a.wm_class.clone(),
            window: None,
            custom_actions: copy_customs(&a.custom_actions),
            action_ids: copy_opt_strings(&a.action_ids),
        };
        let exec0 = first_word(a);
        let ts = self.action_templates(&target, exec0.as_str());
        let ghost tv = templates_view(ts@);
        let mut i: usize = 0;
        while i < ts.len()
            invariant
                i <= ts@.len(),
                tv == templates_view(ts@),
                out@.len() == i,
                forall|k: int| 0 <= k < i ==> #[trigger] out@[k]@ == row_of(tv[k], a@.action_ids),
            decreases ts.len() - i,
        {
            let t = &ts[i];
            proof {
                assert(tv[i as int] == t@);
            }
            let custom = match &t.kind {
                ActionKind::Keys(_) => true,
                _ => false,
            };
            let enabled = custom || match &a.action_ids {
                Some(l) => ids_hold(l, t.id.as_str()),
                None => true,
            };
            let shortcut = match &t.kind {
                ActionKind::Keys(s) => s.clone(),
                _ => String::new(),
            };
            out.push(ActionRow {
                id: t.id.clone(),
                label: t.label.clone(),
                glyph: t.glyph.clone(),
                enabled,
                is_custom: custom,
                shortcut,
                icon: t.icon.clone(),
                color: t.color.clone(),
            });
            i = i + 1;
        }
        assert(out@.map_values(|x: ActionRow| x@) =~= tv.map_values(|t: ActionTemplateView| row_of(t, a@.action_ids)));
        out
    }

    /// What the per-app action arc of a slice offers (see [`arc_spec`]).
    pub fn arc_actions(&self, e: &RingEntry) -> (r: Vec<ActionTemplate>)
        ensures
            templates_view(r@) == arc_spec(*self, e@),
            r@.len() > 0,
    {
        let ghost apps = apps_view(self.apps@);
        let cfg: Option<&AppEntry> = match e.app_index {
            Some(i) => if i < self.apps.len() {
                proof {
                    assert(apps[i as int] == self.apps@[i as int]@);
                }
                Some(&self.apps[i])
            } else {
                None
            },
            None => None,
        };
        let (customs, ids, exec0) = match cfg {
            Some(a) => (copy_customs(&a.custom_actions), copy_opt_strings(&a.action_ids), first_word(a)),
            None => {
                let v: Vec<CustomAction> = Vec::new();
                assert(customs_view(v@) =~= Seq::<CustomActionView>::empty());
                (v, None, String::new())
            },
        };
        let target = FocusedApp { icon: e.icon.clone(), wm_class: e.wm_class.clone(), window: None, custom_actions: customs, action_ids: ids };
        let has_window = self.windows_for_class(e.wm_class.as_str()).len() > 0;
        let ts = self.action_templates(&target, exec0.as_str());
        let r = filter_actions(ts, &target.action_ids, has_window);
        proof {
            let kept = templates_view(ts@).filter(
                |t: ActionTemplateView| crate::ring::keeps(t, opt_views(target.action_ids), has_window));
            if kept.len() != 0 {
                assert(filtered(templates_view(ts@), opt_views(target.action_ids), has_window) == kept);
            }
            assert(filtered(templates_view(ts@), opt_views(target.action_ids), has_window).len() > 0);
            assert(templates_view(r@).len() == r@.len());
        }
        r
    }

    /// Switches template `id` on or off in app `sel`'s whitelist, first
    /// filling a missing whitelist with every non-custom template id;
    /// nothing without such an app.
    pub fn toggle_action(&mut self, sel: i32, id: &str, on: bool)
        ensures
            final(self).index == old(self).index,
            final(self).windows == old(self).windows,
            final(self).can_float == old(self).can_float,
            ({
                let apps = apps_view(old(self).apps@);
                if 0 <= sel < apps.len() {
                    let a = apps[sel as int];
                    let ids = match a.action_ids {
                        Some(l) => l,
                        None => all_ids(*old(self), a),
                    };
                    apps_view(final(self).apps@) == apps.update(sel as int,
                        AppEntryView { action_ids: Some(toggled(ids, id@, on)), ..a })
                } else {
                    apps_view(final(self).apps@) == apps
                }
            }),
    {
        if sel < 0 || sel as usize >= self.apps.len() {
            return;
        }
        let k = sel as usize;
        let ghost old_core = *self;
        let ghost apps = apps_view(self.apps@);
        proof {
            assert(apps[k as int] == self.apps@[k as int]@);
        }
        let a = self.apps[k].copy();
        let ids: Vec<String> = match &a.action_ids {
            Some(l) => copy_strings(l),
            None => {
                let target = FocusedApp {
                    icon: String::new(),
                    wm_class: a.wm_class.clone(),
                    window: None,
                    custom_actions: copy_customs(&a.custom_actions),
                    action_ids: None,
                };
                let exec0 = first_word(&a);
                let ts = self.action_templates(&target, exec0.as_str());
                let ghost tv = templates_view(ts@);
                let ghost pred = |t: ActionTemplateView| !(t.kind is Keys);
                proof {
                    reveal(Seq::filter);
                }
                let mut out: Vec<String> = Vec::new();
                let mut i: usize = 0;
                while i < ts.len()
                    invariant
                        i <= ts@.len(),
                        tv == templates_view(ts@),
                        pred == (|t: ActionTemplateView| !(t.kind is Keys)),
                        views(out@) == tv.take(i as int).filter(pred).map_values(|t: ActionTemplateView| t.id),
                    decreases ts.len() - i,
                {
                    let ghost before = out@;
                    proof {
                        reveal(Seq::filter);
                        assert(tv.take(i + 1).drop_last() =~= tv.take(i as int));
                        assert(tv.take(i + 1).last() == ts@[i as int]@);
                    }
                    let custom = match &ts[i].kind {
                        ActionKind::Keys(_) => true,
                        _ => false,
                    };
                    if !custom {
                        out.push(ts[i].id.clone());
                        assert(views(out@) =~= views(before).push(ts@[i as int]@.id));
                        assert(tv.take(i + 1).filter(pred) =~= tv.take(i as int).filter(pred).push(ts@[i as int]@));
                    }
                    i = i + 1;
                }
                assert(tv.take(ts@.len() as int) =~= tv);
                out
            },
        };
        let ghost base = views(ids@);
        let mut new_ids: Vec<String> = Vec::new();
        if on {
            new_ids = ids;
            if !ids_hold(&new_ids, id) {
                let ghost before = new_ids@;
                new_ids.push(String::from_str(id));
                assert(views(new_ids@) =~= views(before).push(id@));
            }
        } else {
            let ghost pred = |x: Seq<char>| x != id@;
            proof {
                reveal(Seq::filter);
            }
            let mut i: usize = 0;
            while i < ids.len()
                invariant
                    i <= ids@.len(),
                    base == views(ids@),
                    pred == (|x: Seq<char>| x != id@),
                    views(new_ids@) == base.take(i as int).filter(pred),
                decreases ids.len() - i,
            {
                let ghost before = new_ids@;
                proof {
                    reveal(Seq::filter);
                    assert(base.take(i + 1).drop_last() =~= base.take(i as int));
                    assert(base.take(i + 1).last() == ids@[i as int]@);
                }
                if !str_is(ids[i].as_str(), id) {
                    new_ids.push(ids[i].clone());
                    assert(views(new_ids@) =~= views(before).push(ids@[i as int]@));
                }
                i = i + 1;
            }
            assert(base.take(ids@.len() as int) =~= base);
        }
        let mut updated = a;
        updated.action_ids = Some(new_ids);
        self.apps.set(k, updated);
        proof {
            assert(apps_view(self.apps@) =~= apps.update(k as int, AppEntryView {
                action_ids: Some(toggled(base, id@, on)),
                ..apps[k as int]
            }));
        }
    }
}

// ----------------------------------------------------- custom actions

/// The position a custom-action id (`c:<k>`) names.
pub open spec fn custom_index(id: Seq<char>) -> Option<nat> {
    if id.len() >= 2 && id[0] == 'c' && id[1] == ':' {
        parse_uint(id.skip(2), 10, usize::MAX as nat)
    } else {
        None
    }
}

/// Reads the position out of a custom-action id.
pub fn custom_index_of(id: &str) -> (r: Option<usize>)
    ensures
        match custom_index(id@) {
            Some(k) => r == Some(k as usize),
            None => r is None,
        },
{
    let v = chars_of(id);
    if v.len() < 2 || v[0] != 'c' || v[1] != ':' {
        return None;
    }
    let rest = crate::text::sub_chars(v.as_slice(), 2, v.len());
    assert(rest@ =~= v@.skip(2));
    match parse_uint_chars(rest.as_slice(), 10, usize::MAX as u64) {
        Some(k) => Some(k as usize),
        None => None,
    }
}

/// Appends a default custom action to app `sel`; nothing without such an
/// app.
pub fn add_custom_action(apps: &mut Vec<AppEntry>, sel: i32)
    ensures
        0 <= sel < old(apps)@.len() ==> apps_view(final(apps)@) == apps_view(old(apps)@).update(sel as int,
            AppEntryView {
                custom_actions: apps_view(old(apps)@)[sel as int].custom_actions.push(CustomActionView {
                    label: "New action"@,
                    shortcut: "ctrl+r"@,
                    icon: Seq::empty(),
                    color: Seq::empty(),
                }),
                ..apps_view(old(apps)@)[sel as int]
            }),
        !(0 <= sel < old(apps)@.len()) ==> apps_view(final(apps)@) == apps_view(old(apps)@),
{
    if sel < 0 || sel as usize >= apps.len() {
        return;
    }
    let k = sel as usize;
    let ghost before = apps@;
    let mut a = apps[k].copy();
    let ghost cs = customs_view(a.custom_actions@);
    a.custom_actions.push(CustomAction::default());
    assert(customs_view(a.custom_actions@) =~= cs.push(a.custom_actions@.last()@));
    apps.set(k, a);
    assert(apps_view(apps@) =~= apps_view(before).update(k as int, AppEntryView {
        custom_actions: apps_view(before)[k as int].custom_actions.push(CustomActionView {
            label: "New action"@,
            shortcut: "ctrl+r"@,
            icon: Seq::empty(),
            color: Seq::empty(),
        }),
        ..apps_view(before)[k as int]
    }));
}

/// Removes custom action `id` (`c:<k>`) of app `sel`; nothing when the id
/// names no custom action of such an app.
pub fn remove_custom_action(apps: &mut Vec<AppEntry>, sel: i32, id: &str)
    ensures
        ({
            let v = apps_view(old(apps)@);
            match custom_index(id@) {
                Some(k) if 0 <= sel < v.len() && k < v[sel as int].custom_actions.len() =>
                    apps_view(final(apps)@) == v.update(sel as int, AppEntryView {
                        custom_actions: v[sel as int].custom_actions.remove(k as int),
                        ..v[sel as int]
                    }),
                _ => apps_view(final(apps)@) == v,
            }
        }),
{
    let kk = match custom_index_of(id) {
        Some(k) => k,
        None => return,
    };
    if sel < 0 || sel as usize >= apps.len() {
        return;
    }
    let k = sel as usize;
    let ghost before = apps@;
    proof {
        assert(apps_view(before)[k as int] == before[k as int]@);
    }
    if kk >= apps[k].custom_actions.len() {
        return;
    }
    let mut a = apps[k].copy();
    let ghost cs = customs_view(a.custom_actions@);
    a.custom_actions.remove(kk);
    assert(customs_view(a.custom_actions@) =~= cs.remove(kk as int));
    apps.set(k, a);
    assert(apps_view(apps@) =~= apps_view(before).update(k as int, AppEntryView {
        custom_actions: apps_view(before)[k as int].custom_actions.remove(kk as int),
        ..apps_view(before)[k as int]
    }));
}

/// Custom action `c` with field `field` set; unknown fields change nothing.
pub open spec fn with_custom_field(c: CustomActionView, field: Seq<char>, value: Seq<char>) -> CustomActionView {
    if field == "label"@ {
        CustomActionView { label: value, ..c }
    } else if field == "shortcut"@ {
        CustomActionView { shortcut: value, ..c }
    } else if field == "icon"@ {
        CustomActionView { icon: value, ..c }
    } else if field == "color"@ {
        CustomActionView { color: value, ..c }
    } else {
        c
    }
}

/// Sets one field of custom action `id` (`c:<k>`) of app `sel`; nothing
/// when the id names no custom action of such an app.
pub fn set_custom_field(apps: &mut Vec<AppEntry>, sel: i32, id: &str, field: &str, value: &str)
    ensures
        ({
            let v = apps_view(old(apps)@);
            match custom_index(id@) {
                Some(k) if 0 <= sel < v.len() && k < v[sel as int].custom_actions.len() =>
                    apps_view(final(apps)@) == v.update(sel as int, AppEntryView {
                        custom_actions: v[sel as int].custom_actions.update(k as int,
                            with_custom_field(v[sel as int].custom_actions[k as int], field@, value@)),
                        ..v[sel as int]
                    }),
                _ => apps_view(final(apps)@) == v,
            }
        }),
{
    let kk = match custom_index_of(id) {
        Some(k) => k,
        None => return,
    };
    if sel < 0 || sel as usize >= apps.len() {
        return;
    }
    let k = sel as usize;
    let ghost before = apps@;
    proof {
        assert(apps_view(before)[k as int] == before[k as int]@);
    }
    if kk >= apps[k].custom_actions.len() {
        return;
    }
    let mut a = apps[k].copy();
    let ghost cs = customs_view(a.custom_actions@);
    assert(cs.len() == a.custom_actions@.len());
    assert(cs == customs_view(apps@[k as int].custom_actions@));
    let mut c = a.custom_actions[kk].copy();
    proof {
        assert(cs[kk as int] == c@);
    }
    if str_is(field, "label") {
        c.label = String::from_str(value);
    } else if str_is(field, "shortcut") {
        c.shortcut = String::from_str(value);
    } else if str_is(field, "icon") {
        c.icon = String::from_str(value);
    } else if str_is(field, "color") {
        c.color = String::from_str(value);
    }
    a.custom_actions.set(kk, c);
    assert(customs_view(a.custom_actions@) =~= cs.update(kk as int, with_custom_field(cs[kk as int], field@, value@)));
    apps.set(k, a);
    assert(apps_view(apps@) =~= apps_view(before).update(k as int, AppEntryView {
        custom_actions: apps_view(before)[k as int].custom_actions.update(kk as int,
            with_custom_field(apps_view(before)[k as int].custom_actions[kk as int], field@, value@)),
        ..apps_view(before)[k as int]
    }));
}

// ------------------------------------------------------ other edits

/// Sets the combo of a ring's shortcut slot ("windows", "actions", anything
/// else the apps slot); the combo it replaced.
pub fn set_shortcut(s: &mut KeybindSettings, mode: &str, combo: &str) -> (old_combo: String)
    ensures
        final(s).shortcuts_enabled == old(s).shortcuts_enabled,
        final(s).persist_binds == old(s).persist_binds,
        mode@ == "windows"@ ==> old_combo@ == old(s).shortcuts.windows@ && final(s).shortcuts.windows@ == combo@
            && final(s).shortcuts.apps == old(s).shortcuts.apps && final(s).shortcuts.actions == old(s).shortcuts.actions,
        mode@ == "actions"@ ==> old_combo@ == old(s).shortcuts.actions@ && final(s).shortcuts.actions@ == combo@
            && final(s).shortcuts.apps == old(s).shortcuts.apps && final(s).shortcuts.windows == old(s).shortcuts.windows,
        mode@ != "windows"@ && mode@ != "actions"@ ==> old_combo@ == old(s).shortcuts.apps@
            && final(s).shortcuts.apps@ == combo@ && final(s).shortcuts.windows == old(s).shortcuts.windows
            && final(s).shortcuts.actions == old(s).shortcuts.actions,
{
    proof {
        reveal_strlit("windows");
        reveal_strlit("actions");
        assert("windows"@[0] != "actions"@[0]);
    }
    if str_is(mode, "windows") {
        let old_combo = s.shortcuts.windows.clone();
        s.shortcuts.windows = String::from_str(combo);
        old_combo
    } else if str_is(mode, "actions") {
        let old_combo = s.shortcuts.actions.clone();
        s.shortcuts.actions = String::from_str(combo);
        old_combo
    } else {
        let old_combo = s.shortcuts.apps.clone();
        s.shortcuts.apps = String::from_str(combo);
        old_combo
    }
}

/// Applies a keybind setting the editor sent ("shortcutsEnabled" /
/// "persistBinds", on when the value is "true"); whether the key was one of
/// them, after which the shortcuts must be re-applied.
pub fn set_keybind_setting(s: &mut KeybindSettings, key: &str, value: &str) -> (applied: bool)
    ensures
        applied == (key@ == "shortcutsEnabled"@ || key@ == "persistBinds"@),
        final(s).shortcuts == old(s).shortcuts,
        final(s).shortcuts_enabled == (if key@ == "shortcutsEnabled"@ { value@ == "true"@ } else { old(s).shortcuts_enabled }),
        final(s).persist_binds == (if key@ == "persistBinds"@ { value@ == "true"@ } else { old(s).persist_binds }),
{
    proof {
        reveal_strlit("shortcutsEnabled");
        reveal_strlit("persistBinds");
        assert("shortcutsEnabled"@.len() != "persistBinds"@.len());
    }
    if str_is(key, "shortcutsEnabled") {
        s.shortcuts_enabled = str_is(value, "true");
        true
    } else if str_is(key, "persistBinds") {
        s.persist_binds = str_is(value, "true");
        true
    } else {
        false
    }
}

/// Where a picked color goes.
#[derive(Debug, Clone, PartialEq)]
pub enum ColorTarget {
    /// The color field of app `i`.
    App(i32),
    /// The color field of a custom action, by id.
    Custom(String),
    /// A setting, by key.
    Setting(String),
    /// An `app:` target whose index does not read: nowhere.
    Nowhere,
}

/// What `i32::from_str` returns.
pub open spec fn parse_i32(s: Seq<char>) -> Option<int> {
    match crate::nums::parse_int(s) {
        Some(v) if i32::MIN <= v <= i32::MAX => Some(v),
        _ => None,
    }
}

/// A color picker target: `app:<i>`, `act:<id>`, or a setting key.
pub open spec fn color_target_spec(target: Seq<char>) -> ColorTargetView {
    if target.len() >= 4 && target.take(4) == "app:"@ {
        match parse_i32(target.skip(4)) {
            Some(i) => ColorTargetView::App(i),
            None => ColorTargetView::Nowhere,
        }
    } else if target.len() >= 4 && target.take(4) == "act:"@ {
        ColorTargetView::Custom(target.skip(4))
    } else {
        ColorTargetView::Setting(target)
    }
}

/// The content of a [`ColorTarget`].
pub enum ColorTargetView {
    App(int),
    Custom(Seq<char>),
    Setting(Seq<char>),
    Nowhere,
}

impl View for ColorTarget {
    type V = ColorTargetView;

    open spec fn view(&self) -> ColorTargetView {
        match self {
            ColorTarget::App(i) => ColorTargetView::App(*i as int),
            ColorTarget::Custom(s) => ColorTargetView::Custom(s@),
            ColorTarget::Setting(s) => ColorTargetView::Setting(s@),
            ColorTarget::Nowhere => ColorTargetView::Nowhere,
        }
    }
}

/// Reads a color picker target (see [`color_target_spec`]).
pub fn color_target(target: &str) -> (r: ColorTarget)
    ensures
        r@ == color_target_spec(target@),
{
    let v = chars_of(target);
    proof {
        reveal_strlit("app:");
        reveal_strlit("act:");
    }
    if v.len() >= 4 {
        let head = crate::text::sub_chars(v.as_slice(), 0, 4);
        let rest = crate::text::sub_chars(v.as_slice(), 4, v.len());
        assert(head@ =~= target@.take(4));
        assert(rest@ =~= target@.skip(4));
        let h = string_of(head.as_slice());
        if str_is(h.as_str(), "app:") {
            return match crate::nums::parse_i64_chars(rest.as_slice()) {
                Some(n) => if n >= i32::MIN as i64 && n <= i32::MAX as i64 {
                    ColorTarget::App(n as i32)
                } else {
                    ColorTarget::Nowhere
                },
                None => ColorTarget::Nowhere,
            };
        }
        if str_is(h.as_str(), "act:") {
            return ColorTarget::Custom(string_of(rest.as_slice()));
        }
    }
    ColorTarget::Setting(String::from_str(target))
}

// ------------------------------------------------------- picker rows

/// The installed entries the app picker lists for a query: with the query
/// trimmed and lowercased, every entry when it is empty, else those whose
/// lowercased name holds it; as picker positions, in picker order.
pub open spec fn picker_spec(entries: Seq<DesktopAppView>, query: Seq<char>) -> Seq<int> {
    let q = lowercase(trim(query));
    Seq::new(entries.len(), |i: int| i).filter(|i: int| q.len() == 0 || has_sub(lowercase(entries[i].name), q))
}

/// The picker positions listed for a query (see [`picker_spec`]).
pub fn installed_rows(index: &AppIndex, query: &str) -> (r: Vec<usize>)
    ensures
        r@.map_values(|i: usize| i as int) == picker_spec(index@, query@),
{
    let entries = index.installed();
    let ghost ev = index@;
    let qv = chars_of(query);
    let qt = trim_chars(qv.as_slice());
    let ql = to_lower(string_of(qt.as_slice()).as_str());
    let q = chars_of(ql.as_str());
    let ghost all = Seq::new(ev.len(), |i: int| i);
    let ghost pred = |i: int| q@.len() == 0 || has_sub(lowercase(ev[i].name), q@);
    proof {
        reveal(Seq::filter);
    }
    let mut out: Vec<usize> = Vec::new();
    let mut i: usize = 0;
    while i < entries.len()
        invariant
            i <= entries@.len(),
            ev == desktop_view(entries@),
            all == Seq::new(ev.len(), |i: int| i),
            q@ == lowercase(trim(query@)),
            pred == (|i: int| q@.len() == 0 || has_sub(lowercase(ev[i].name), q@)),
            out@.map_values(|i: usize| i as int) == all.take(i as int).filter(pred),
        decreases entries.len() - i,
    {
        let ghost before = out@;
        proof {
            reveal(Seq::filter);
            assert(all.take(i + 1).drop_last() =~= all.take(i as int));
            assert(all.take(i + 1).last() == i as int);
            assert(ev[i as int] == entries@[i as int]@);
        }
        let keep = if q.len() == 0 {
            true
        } else {
            let name = to_lower(entries[i].name.as_str());
            let nv = chars_of(name.as_str());
            crate::text::contains(nv.as_slice(), q.as_slice())
        };
        if keep {
            out.push(i);
            assert(out@.map_values(|i: usize| i as int) =~= before.map_values(|i: usize| i as int).push(i as int));
        }
        i = i + 1;
    }
    assert(all.take(ev.len() as int) =~= all);
    out
}

} // verus!
