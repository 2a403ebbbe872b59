//! The window registry of the Wayland adapters (wlr-foreign-toplevel and
//! KDE plasma window management): windows as the compositor announced and
//! described them, the published snapshot, and when focus is published.

use vstd::prelude::*;
use crate::compositor::{WindowInfo, WindowInfoView, infos_view};
use crate::order::{first_where, lemma_first_found, lemma_first_none, lemma_first_where};
use crate::text::str_is;

verus! {

/// One window as the compositor described it so far.
pub struct TrackedWindow {
    pub id: String,
    pub app_id: String,
    pub title: String,
    pub active: bool,
    pub fullscreen: bool,
    /// Panels and popups the compositor asks taskbars to hide.
    pub skip_taskbar: bool,
    /// Its initial property burst is over: changes publish at once.
    pub initialized: bool,
}

/// The content of a [`TrackedWindow`].
pub struct TrackedView {
    pub id: Seq<char>,
    pub app_id: Seq<char>,
    pub title: Seq<char>,
    pub active: bool,
    pub fullscreen: bool,
    pub skip_taskbar: bool,
    pub initialized: bool,
}

impl View for TrackedWindow {
    type V = TrackedView;

    open spec fn view(&self) -> TrackedView {
        TrackedView {
            id: self.id@,
            app_id: self.app_id@,
            title: self.title@,
            active: self.active,
            fullscreen: self.fullscreen,
            skip_taskbar: self.skip_taskbar,
            initialized: self.initialized,
        }
    }
}

/// The records' contents, in order.
pub open spec fn tracked_view(v: Seq<TrackedWindow>) -> Seq<TrackedView> {
    v.map_values(|t: TrackedWindow| t@)
}

/// A record is the one of window `id`.
pub open spec fn rec_is(id: Seq<char>) -> spec_fn(TrackedView) -> bool {
    |t: TrackedView| t.id == id
}

/// The record of window `id`.
pub open spec fn lookup(recs: Seq<TrackedView>, id: Seq<char>) -> Option<TrackedView> {
    match first_where(recs, rec_is(id)) {
        Some(i) => Some(recs[i]),
        None => None,
    }
}

/// How an announced window is published: windows without an app id are
/// phantoms, skip-taskbar windows are noise.
pub open spec fn published(recs: Seq<TrackedView>, id: Seq<char>) -> Option<WindowInfoView> {
    match lookup(recs, id) {
        Some(t) => if t.app_id.len() == 0 || t.skip_taskbar {
            None
        } else {
            Some(WindowInfoView { id, app_id: t.app_id, title: t.title, focused: t.active })
        },
        None => None,
    }
}

/// The published window list: the announced windows in announcement order,
/// as [`published`].
pub open spec fn snapshot_list(recs: Seq<TrackedView>, order: Seq<Seq<char>>) -> Seq<WindowInfoView> {
    order.filter_map(|id: Seq<char>| published(recs, id))
}

/// The focused window of a list: the last one marked focused.
pub open spec fn last_focused(list: Seq<WindowInfoView>) -> Option<WindowInfoView>
    decreases list.len(),
{
    if list.len() == 0 {
        None
    } else if list.last().focused {
        Some(list.last())
    } else {
        last_focused(list.drop_last())
    }
}

/// The id of an optional window.
pub open spec fn id_of(w: Option<WindowInfoView>) -> Option<Seq<char>> {
    match w {
        Some(x) => Some(x.id),
        None => None,
    }
}

/// The optional window's content.
pub open spec fn opt_info(w: Option<WindowInfo>) -> Option<WindowInfoView> {
    match w {
        Some(x) => Some(x@),
        None => None,
    }
}

/// The characters of an optional string.
pub open spec fn opt_chars(o: Option<String>) -> Option<Seq<char>> {
    match o {
        Some(s) => Some(s@),
        None => None,
    }
}

/// What to push after a change: the window list when someone watches, and
/// the focused window too when focus moved.
pub struct PublishStep {
    pub windows: Option<Vec<WindowInfo>>,
    pub active: Option<Option<WindowInfo>>,
}

/// The windows the compositor announced, with what it said about them.
pub struct WindowRegistry {
    windows: Vec<TrackedWindow>,
    /// Announcement order, so listings are stable.
    order: Vec<String>,
    /// Someone consumes the published events.
    watching: bool,
    /// The last published focused id, to publish focus only on change.
    last_active: Option<String>,
}

/// The content of a [`WindowRegistry`].
pub struct RegistryView {
    pub windows: Seq<TrackedView>,
    pub order: Seq<Seq<char>>,
    pub watching: bool,
    pub last_active: Option<Seq<char>>,
}

impl View for WindowRegistry {
    type V = RegistryView;

    closed spec fn view(&self) -> RegistryView {
        RegistryView {
            windows: tracked_view(self.windows@),
            order: self.order@.map_values(|s: String| s@),
            watching: self.watching,
            last_active: opt_chars(self.last_active),
        }
    }
}

/// The records with `id`'s record (if any) changed by `f`.
pub open spec fn updated(recs: Seq<TrackedView>, id: Seq<char>, f: spec_fn(TrackedView) -> TrackedView) -> Seq<TrackedView> {
    match first_where(recs, rec_is(id)) {
        Some(i) => recs.update(i, f(recs[i])),
        None => recs,
    }
}

/// A freshly announced window: nothing known yet.
pub open spec fn fresh(id: Seq<char>, initialized: bool) -> TrackedView {
    TrackedView {
        id,
        app_id: Seq::empty(),
        title: Seq::empty(),
        active: false,
        fullscreen: false,
        skip_taskbar: false,
        initialized,
    }
}

impl WindowRegistry {
    /// Nothing announced, nobody watching.
    pub fn new() -> (r: WindowRegistry)
        ensures
            r@.windows.len() == 0,
            r@.order.len() == 0,
            !r@.watching,
            r@.last_active is None,
    {
        let r = WindowRegistry { windows: Vec::new(), order: Vec::new(), watching: false, last_active: None };
        assert(r@.order =~= Seq::<Seq<char>>::empty());
        r
    }

    /// Where the record of `id` is.
    fn position(&self, id: &str) -> (r: Option<usize>)
        ensures
            r matches Some(i) ==> i < self.windows@.len() && first_where(tracked_view(self.windows@), rec_is(id@)) == Some(i as int),
            r is None ==> first_where(tracked_view(self.windows@), rec_is(id@)) is None,
    {
        let ghost tv = tracked_view(self.windows@);
        let mut i: usize = 0;
        while i < self.windows.len()
            invariant
                i <= self.windows@.len(),
                tv == tracked_view(self.windows@),
                forall|j: int| 0 <= j < i ==> !rec_is(id@)(#[trigger] tv[j]),
            decreases self.windows.len() - i,
        {
            proof {
                assert(tv[i as int] == self.windows@[i as int]@);
            }
            if str_is(self.windows[i].id.as_str(), id) {
                proof {
                    lemma_first_found(tv, rec_is(id@), i as int);
                }
                return Some(i);
            }
            i = i + 1;
        }
        proof {
            lemma_first_none(tv, rec_is(id@));
        }
        None
    }

    /// A window was announced: it joins the end of the order and starts
    /// with nothing known (a repeated id starts over).
    pub fn announce(&mut self, id: &str, initialized: bool)
        ensures
            final(self)@.order == old(self)@.order.push(id@),
            lookup(final(self)@.windows, id@) == Some(fresh(id@, initialized)),
            forall|k: Seq<char>| k != id@ ==> lookup(final(self)@.windows, k) == lookup(old(self)@.windows, k),
            final(self)@.watching == old(self)@.watching,
            final(self)@.last_active == old(self)@.last_active,
    {
        let ghost tv = tracked_view(self.windows@);
        let ghost ov = self@.order;
        self.order.push(String::from_str(id));
        let rec = TrackedWindow {
            id: String::from_str(id),
            app_id: String::new(),
            title: String::new(),
            active: false,
            fullscreen: false,
            skip_taskbar: false,
            initialized,
        };
        match self.position(id) {
            Some(i) => {
                self.windows.set(i, rec);
                proof {
                    let nv = tracked_view(self.windows@);
                    assert(nv =~= tv.update(i as int, fresh(id@, initialized)));
                    lemma_lookup_update(tv, i as int, fresh(id@, initialized));
                }
            },
            None => {
                self.windows.push(rec);
                proof {
                    let nv = tracked_view(self.windows@);
                    assert(nv =~= tv.push(fresh(id@, initialized)));
                    lemma_lookup_push(tv, fresh(id@, initialized));
                }
            },
        }
        assert(self@.order =~= ov.push(id@));
    }

    /// Changes the record of `id`, if it is known.
    fn change(&mut self, id: &str, title: Option<String>, app_id: Option<String>, state: Option<(bool, bool, bool)>, init: bool)
        ensures
            final(self)@.windows == updated(old(self)@.windows, id@,
                |t: TrackedView| changed(t, opt_chars(title), opt_chars(app_id), state, init)),
            final(self)@.order == old(self)@.order,
            final(self)@.watching == old(self)@.watching,
            final(self)@.last_active == old(self)@.last_active,
    {
        let ghost tv = tracked_view(self.windows@);
        let ghost ov = self@.order;
        match self.position(id) {
            Some(i) => {
                let old_rec = &self.windows[i];
                let rec = TrackedWindow {
                    id: old_rec.id.clone(),
                    app_id: match app_id {
                        Some(a) => a,
                        None => old_rec.app_id.clone(),
                    },
                    title: match title {
                        Some(t) => t,
                        None => old_rec.title.clone(),
                    },
                    active: match state {
                        Some(s) => s.0,
                        None => old_rec.active,
                    },
                    fullscreen: match state {
                        Some(s) => s.1,
                        None => old_rec.fullscreen,
                    },
                    skip_taskbar: match state {
                        Some(s) => s.2,
                        None => old_rec.skip_taskbar,
                    },
                    initialized: old_rec.initialized || init,
                };
                proof {
                    assert(tv[i as int] == self.windows@[i as int]@);
                }
                self.windows.set(i, rec);
                proof {
                    assert(tracked_view(self.windows@) =~= tv.update(i as int,
                        changed(tv[i as int], opt_chars(title), opt_chars(app_id), state, init)));
                }
            },
            None => {},
        }
        assert(self@.order =~= ov);
    }

    /// The window's title changed.
    pub fn set_title(&mut self, id: &str, title: String)
        ensures
            final(self)@.windows == updated(old(self)@.windows, id@,
                |t: TrackedView| changed(t, Some(title@), None, None, false)),
            final(self)@.order == old(self)@.order,
            final(self)@.watching == old(self)@.watching,
            final(self)@.last_active == old(self)@.last_active,
    {
        self.change(id, Some(title), None, None, false);
    }

    /// The window's app id changed.
    pub fn set_app_id(&mut self, id: &str, app_id: String)
        ensures
            final(self)@.windows == updated(old(self)@.windows, id@,
                |t: TrackedView| changed(t, None, Some(app_id@), None, false)),
            final(self)@.order == old(self)@.order,
            final(self)@.watching == old(self)@.watching,
            final(self)@.last_active == old(self)@.last_active,
    {
        self.change(id, None, Some(app_id), None, false);
    }

    /// The window's state flags changed.
    pub fn set_state(&mut self, id: &str, active: bool, fullscreen: bool, skip_taskbar: bool)
        ensures
            final(self)@.windows == updated(old(self)@.windows, id@,
                |t: TrackedView| changed(t, None, None, Some((active, fullscreen, skip_taskbar)), false)),
            final(self)@.order == old(self)@.order,
            final(self)@.watching == old(self)@.watching,
            final(self)@.last_active == old(self)@.last_active,
    {
        self.change(id, None, None, Some((active, fullscreen, skip_taskbar)), false);
    }

    /// The window's initial property burst is over.
    pub fn mark_initialized(&mut self, id: &str)
        ensures
            final(self)@.windows == updated(old(self)@.windows, id@,
                |t: TrackedView| changed(t, None, None, None, true)),
            final(self)@.order == old(self)@.order,
            final(self)@.watching == old(self)@.watching,
            final(self)@.last_active == old(self)@.last_active,
    {
        self.change(id, None, None, None, true);
    }

    /// Whether `id` is known and past its initial burst (its changes
    /// publish at once).
    pub fn is_initialized(&self, id: &str) -> (b: bool)
        ensures
            b == (lookup(self@.windows, id@) matches Some(t) && t.initialized),
    {
        match self.position(id) {
            Some(i) => {
                proof {
                    assert(tracked_view(self.windows@)[i as int] == self.windows@[i as int]@);
                }
                self.windows[i].initialized
            },
            None => false,
        }
    }

    /// Whether `id` is known, and then whether it is fullscreen.
    pub fn fullscreen_of(&self, id: &str) -> (r: Option<bool>)
        ensures
            match lookup(self@.windows, id@) {
                Some(t) => r == Some(t.fullscreen),
                None => r is None,
            },
    {
        match self.position(id) {
            Some(i) => {
                proof {
                    assert(tracked_view(self.windows@)[i as int] == self.windows@[i as int]@);
                }
                Some(self.windows[i].fullscreen)
            },
            None => None,
        }
    }

    /// Whether `id` is known.
    pub fn contains(&self, id: &str) -> (b: bool)
        ensures
            b == (lookup(self@.windows, id@) is Some),
    {
        self.position(id).is_some()
    }

    /// The window is gone: it leaves the records and the order.
    pub fn remove(&mut self, id: &str)
        ensures
            lookup(final(self)@.windows, id@) is None,
            forall|k: Seq<char>| k != id@ ==> lookup(final(self)@.windows, k) == lookup(old(self)@.windows, k),
            final(self)@.order == old(self)@.order.filter(|o: Seq<char>| o != id@),
            final(self)@.watching == old(self)@.watching,
            final(self)@.last_active == old(self)@.last_active,
    {
        let ghost tv = tracked_view(self.windows@);
        let ghost ov = self@.order;
        let mut kept: Vec<TrackedWindow> = Vec::new();
        let mut i: usize = 0;
        proof {
            reveal(Seq::filter);
        }
        while i < self.windows.len()
            invariant
                i <= self.windows@.len(),
                tv == tracked_view(self.windows@),
                tracked_view(kept@) == tv.take(i as int).filter(|t: TrackedView| t.id != id@),
            decreases self.windows.len() - i,
        {
            let ghost before = kept@;
            proof {
                reveal(Seq::filter);
                assert(tv.take(i + 1).drop_last() =~= tv.take(i as int));
                assert(tv.take(i + 1).last() == self.windows@[i as int]@);
            }
            if !str_is(self.windows[i].id.as_str(), id) {
                let w = &self.windows[i];
                kept.push(TrackedWindow {
                    id: w.id.clone(),
                    app_id: w.app_id.clone(),
                    title: w.title.clone(),
                    active: w.active,
                    fullscreen: w.fullscreen,
                    skip_taskbar: w.skip_taskbar,
                    initialized: w.initialized,
                });
                assert(tracked_view(kept@) =~= tracked_view(before).push(self.windows@[i as int]@));
            }
            i = i + 1;
        }
        assert(tv.take(self.windows@.len() as int) =~= tv);
        let mut order: Vec<String> = Vec::new();
        let mut j: usize = 0;
        while j < self.order.len()
            invariant
                j <= self.order@.len(),
                ov == self.order@.map_values(|s: String| s@),
                order@.map_values(|s: String| s@) == ov.take(j as int).filter(|o: Seq<char>| o != id@),
            decreases self.order.len() - j,
        {
            let ghost before = order@;
            proof {
                reveal(Seq::filter);
                assert(ov.take(j + 1).drop_last() =~= ov.take(j as int));
                assert(ov.take(j + 1).last() == self.order@[j as int]@);
            }
            if !str_is(self.order[j].as_str(), id) {
                order.push(self.order[j].clone());
                assert(order@.map_values(|s: String| s@) =~= before.map_values(|s: String| s@).push(self.order@[j as int]@));
            } else {
                assert(order@.map_values(|s: String| s@) =~= before.map_values(|s: String| s@));
            }
            j = j + 1;
        }
        assert(ov.take(self.order@.len() as int) =~= ov);
        self.windows = kept;
        self.order = order;
        proof {
            lemma_lookup_filter(tv, id@);
        }
    }

    /// The published view: the window list and the focused window.
    pub fn snapshot(&self) -> (r: (Vec<WindowInfo>, Option<WindowInfo>))
        ensures
            infos_view(r.0@) == snapshot_list(self@.windows, self@.order),
            opt_info(r.1) == last_focused(snapshot_list(self@.windows, self@.order)),
    {
        let ghost recs = self@.windows;
        let ghost ov = self@.order;
        let ghost f = |id: Seq<char>| published(recs, id);
        let mut list: Vec<WindowInfo> = Vec::new();
        let mut active: Option<WindowInfo> = None;
        let mut i: usize = 0;
        while i < self.order.len()
            invariant
                i <= self.order@.len(),
                recs == self@.windows,
                ov == self@.order,
                f == (|id: Seq<char>| published(recs, id)),
                infos_view(list@) == ov.take(i as int).filter_map(f),
                opt_info(active) == last_focused(ov.take(i as int).filter_map(f)),
            decreases self.order.len() - i,
        {
            let id = &self.order[i];
            let ghost before = list@;
            proof {
                assert(ov[i as int] == id@);
                assert(ov.take(i + 1).drop_last() =~= ov.take(i as int));
                assert(ov.take(i + 1).last() == id@);
            }
            match self.position(id.as_str()) {
                Some(k) => {
                    let t = &self.windows[k];
                    proof {
                        assert(recs[k as int] == t@);
                    }
                    if !t.app_id.as_str().is_empty() && !t.skip_taskbar {
                        let info = WindowInfo {
                            id: id.clone(),
                            app_id: t.app_id.clone(),
                            title: t.title.clone(),
                            focused: t.active,
                        };
                        if t.active {
                            active = Some(info.copy());
                        }
                        list.push(info);
                        proof {
                            assert(infos_view(list@) =~= infos_view(before) + seq![list@.last()@]);
                            let nl = ov.take(i + 1).filter_map(f);
                            assert(nl.drop_last() =~= ov.take(i as int).filter_map(f));
                        }
                    }
                },
                None => {},
            }
            i = i + 1;
        }
        assert(ov.take(self.order@.len() as int) =~= ov);
        (list, active)
    }

    /// Someone now consumes the events: the current view to send first.
    pub fn watch(&mut self) -> (r: (Vec<WindowInfo>, Option<WindowInfo>))
        ensures
            final(self)@.watching,
            final(self)@.windows == old(self)@.windows,
            final(self)@.order == old(self)@.order,
            final(self)@.last_active == old(self)@.last_active,
            infos_view(r.0@) == snapshot_list(old(self)@.windows, old(self)@.order),
            opt_info(r.1) == last_focused(snapshot_list(old(self)@.windows, old(self)@.order)),
    {
        let r = self.snapshot();
        self.watching = true;
        r
    }

    /// The consumer went away: stop publishing.
    pub fn unwatch(&mut self)
        ensures
            !final(self)@.watching,
            final(self)@.windows == old(self)@.windows,
            final(self)@.order == old(self)@.order,
            final(self)@.last_active == old(self)@.last_active,
    {
        self.watching = false;
    }

    /// What to push after a change: the window list when watched, and the
    /// focused window only when its id differs from the last published one;
    /// the focused id is remembered either way.
    pub fn publish(&mut self) -> (step: PublishStep)
        ensures
            ({
                let list = snapshot_list(old(self)@.windows, old(self)@.order);
                let act = last_focused(list);
                &&& final(self)@.windows == old(self)@.windows
                &&& final(self)@.order == old(self)@.order
                &&& final(self)@.watching == old(self)@.watching
                &&& final(self)@.last_active == id_of(act)
                &&& match step.windows {
                    Some(v) => old(self)@.watching && infos_view(v@) == list,
                    None => !old(self)@.watching,
                }
                &&& match step.active {
                    Some(a) => old(self)@.watching && id_of(act) != old(self)@.last_active && opt_info(a) == act,
                    None => !old(self)@.watching || id_of(act) == old(self)@.last_active,
                }
            }),
    {
        let (list, active) = self.snapshot();
        let active_id: Option<String> = match &active {
            Some(w) => Some(w.id.clone()),
            None => None,
        };
        let changed = match (&active_id, &self.last_active) {
            (Some(a), Some(b)) => !str_is(a.as_str(), b.as_str()),
            (None, None) => false,
            _ => true,
        };
        let step = if self.watching {
            PublishStep { windows: Some(list), active: if changed { Some(active) } else { None } }
        } else {
            PublishStep { windows: None, active: None }
        };
        self.last_active = active_id;
        step
    }
}

/// Focus is pushed once per change: the registry a publish leaves behind
/// (same records and order, the published focus remembered) has its focus
/// where it remembers it, so publishing it again pushes no focus event.
pub proof fn lemma_republish_keeps_focus(w: RegistryView)
    ensures
        ({
            let after = RegistryView { last_active: id_of(last_focused(snapshot_list(w.windows, w.order))), ..w };
            id_of(last_focused(snapshot_list(after.windows, after.order))) == after.last_active
        }),
{
}

/// The new content of a record after a change.
pub open spec fn changed(t: TrackedView, title: Option<Seq<char>>, app_id: Option<Seq<char>>, state: Option<(bool, bool, bool)>, init: bool) -> TrackedView {
    TrackedView {
        id: t.id,
        app_id: match app_id {
            Some(a) => a,
            None => t.app_id,
        },
        title: match title {
            Some(x) => x,
            None => t.title,
        },
        active: match state {
            Some(s) => s.0,
            None => t.active,
        },
        fullscreen: match state {
            Some(s) => s.1,
            None => t.fullscreen,
        },
        skip_taskbar: match state {
            Some(s) => s.2,
            None => t.skip_taskbar,
        },
        initialized: t.initialized || init,
    }
}

/// Replacing the first record of an id keeps the other ids' records.
proof fn lemma_lookup_update(tv: Seq<TrackedView>, i: int, rec: TrackedView)
    requires
        first_where(tv, rec_is(rec.id)) == Some(i),
    ensures
        lookup(tv.update(i, rec), rec.id) == Some(rec),
        forall|k: Seq<char>| k != rec.id ==> lookup(tv.update(i, rec), k) == lookup(tv, k),
{
    let nv = tv.update(i, rec);
    lemma_first_where(tv, rec_is(rec.id));
    assert forall|j: int| 0 <= j < i implies !rec_is(rec.id)(#[trigger] nv[j]) by {
        assert(nv[j] == tv[j]);
    }
    lemma_first_found(nv, rec_is(rec.id), i);
    assert forall|k: Seq<char>| k != rec.id implies lookup(nv, k) == lookup(tv, k) by {
        lemma_first_where(tv, rec_is(k));
        match first_where(tv, rec_is(k)) {
            Some(a) => {
                assert forall|j: int| 0 <= j < a implies !rec_is(k)(#[trigger] nv[j]) by {
                    if j != i {
                        assert(nv[j] == tv[j]);
                    }
                }
                assert(nv[a] == tv[a]);
                lemma_first_found(nv, rec_is(k), a);
            },
            None => {
                assert forall|j: int| 0 <= j < nv.len() implies !rec_is(k)(#[trigger] nv[j]) by {
                    if j != i {
                        assert(nv[j] == tv[j]);
                    }
                }
                lemma_first_none(nv, rec_is(k));
            },
        }
    }
}

/// Appending the record of a new id keeps the other ids' records.
proof fn lemma_lookup_push(tv: Seq<TrackedView>, rec: TrackedView)
    requires
        first_where(tv, rec_is(rec.id)) is None,
    ensures
        lookup(tv.push(rec), rec.id) == Some(rec),
        forall|k: Seq<char>| k != rec.id ==> lookup(tv.push(rec), k) == lookup(tv, k),
{
    let nv = tv.push(rec);
    lemma_first_where(tv, rec_is(rec.id));
    assert forall|j: int| 0 <= j < tv.len() implies !rec_is(rec.id)(#[trigger] nv[j]) by {
        assert(nv[j] == tv[j]);
    }
    lemma_first_found(nv, rec_is(rec.id), tv.len() as int);
    assert forall|k: Seq<char>| k != rec.id implies lookup(nv, k) == lookup(tv, k) by {
        lemma_first_where(tv, rec_is(k));
        match first_where(tv, rec_is(k)) {
            Some(a) => {
                assert forall|j: int| 0 <= j < a implies !rec_is(k)(#[trigger] nv[j]) by {
                    assert(nv[j] == tv[j]);
                }
                assert(nv[a] == tv[a]);
                lemma_first_found(nv, rec_is(k), a);
            },
            None => {
                assert forall|j: int| 0 <= j < nv.len() implies !rec_is(k)(#[trigger] nv[j]) by {
                    if j < tv.len() {
                        assert(nv[j] == tv[j]);
                    }
                }
                lemma_first_none(nv, rec_is(k));
            },
        }
    }
}

/// Dropping every record of an id keeps the other ids' records.
proof fn lemma_lookup_filter(tv: Seq<TrackedView>, id: Seq<char>)
    ensures
        lookup(tv.filter(|t: TrackedView| t.id != id), id) is None,
        forall|k: Seq<char>| k != id ==> lookup(tv.filter(|t: TrackedView| t.id != id), k) == lookup(tv, k),
    decreases tv.len(),
{
    reveal(Seq::filter);
    let p = |t: TrackedView| t.id != id;
    if tv.len() > 0 {
        let t = tv.drop_last();
        lemma_lookup_filter(t, id);
        let ft = t.filter(p);
        let fv = tv.filter(p);
        let last = tv.last();
        lemma_first_where(ft, rec_is(id));
        if last.id != id {
            assert(fv == ft.push(last));
            lemma_first_where(fv, rec_is(id));
            assert forall|j: int| 0 <= j < fv.len() implies !rec_is(id)(#[trigger] fv[j]) by {
                if j < ft.len() {
                    assert(fv[j] == ft[j]);
                }
            }
            lemma_first_none(fv, rec_is(id));
            assert(tv =~= t.push(last));
            assert forall|k: Seq<char>| k != id implies lookup(fv, k) == lookup(tv, k) by {
                assert(lookup(ft, k) == lookup(t, k));
                lemma_lookup_append(ft, t, last, k);
            }
        } else {
            assert(fv == ft);
            assert forall|k: Seq<char>| k != id implies lookup(fv, k) == lookup(tv, k) by {
                assert(lookup(ft, k) == lookup(t, k));
                lemma_lookup_drop_last(tv, k);
                assert(lookup(tv, k) == lookup(t, k));
            }
        }
    }
}

/// Appending a record to two sequences that agree on `k` keeps them agreeing.
proof fn lemma_lookup_append(a: Seq<TrackedView>, b: Seq<TrackedView>, x: TrackedView, k: Seq<char>)
    requires
        lookup(a, k) == lookup(b, k),
    ensures
        lookup(a.push(x), k) == lookup(b.push(x), k),
{
    lemma_lookup_push_any(a, x, k);
    lemma_lookup_push_any(b, x, k);
}

/// The lookup of `k` after appending `x`.
proof fn lemma_lookup_push_any(a: Seq<TrackedView>, x: TrackedView, k: Seq<char>)
    ensures
        lookup(a.push(x), k) == (match lookup(a, k) {
            Some(t) => Some(t),
            None => if x.id == k { Some(x) } else { None },
        }),
{
    let n = a.push(x);
    lemma_first_where(a, rec_is(k));
    match first_where(a, rec_is(k)) {
        Some(i) => {
            assert forall|j: int| 0 <= j < i implies !rec_is(k)(#[trigger] n[j]) by {
                assert(n[j] == a[j]);
            }
            assert(n[i] == a[i]);
            lemma_first_found(n, rec_is(k), i);
        },
        None => {
            if x.id == k {
                assert forall|j: int| 0 <= j < a.len() implies !rec_is(k)(#[trigger] n[j]) by {
                    assert(n[j] == a[j]);
                }
                lemma_first_found(n, rec_is(k), a.len() as int);
            } else {
                assert forall|j: int| 0 <= j < n.len() implies !rec_is(k)(#[trigger] n[j]) by {
                    if j < a.len() {
                        assert(n[j] == a[j]);
                    }
                }
                lemma_first_none(n, rec_is(k));
            }
        },
    }
}

/// Dropping a last record whose id is not `k` keeps the lookup of `k`.
proof fn lemma_lookup_drop_last(tv: Seq<TrackedView>, k: Seq<char>)
    requires
        tv.len() > 0,
        tv.last().id != k,
    ensures
        lookup(tv, k) == lookup(tv.drop_last(), k),
{
    assert(tv =~= tv.drop_last().push(tv.last()));
    lemma_lookup_push_any(tv.drop_last(), tv.last(), k);
}

} // verus!
