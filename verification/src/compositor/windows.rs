//! The Win32 window adapter's decisions: which top-level windows are
//! alt-tab-worthy, window ids, how enumerated and foreground windows are
//! reported, the poll-driven change detection, and the screen size.

use vstd::prelude::*;
use crate::compositor::{WindowInfo, WindowInfoView, infos_view, copy_infos};
use crate::nums::{parse_int, parse_i64_chars, signed_dec, signed_dec_string, lemma_signed_round_trip};
use crate::text::{chars_of, str_is};

verus! {

/// `GWL_EXSTYLE` bit of tool windows.
pub const WS_EX_TOOLWINDOW: i64 = 0x0000_0080;
/// `GWL_EXSTYLE` bit of windows that want a taskbar button.
pub const WS_EX_APPWINDOW: i64 = 0x0004_0000;

/// The Win32 window adapter: Win32 is always there.
pub struct WindowsCompositor;

impl WindowsCompositor {
    /// Connects; never fails.
    pub fn connect() -> (r: Result<WindowsCompositor, String>)
        ensures
            r is Ok,
    {
        Ok(WindowsCompositor)
    }
}

/// The alt-tab heuristic: visible, titled, not a tool window, unowned or
/// explicitly an app window, and not cloaked (a ghost UWP window).
pub open spec fn app_window_spec(visible: bool, text_len: i32, ex_style: i64, has_owner: bool, cloaked: u32) -> bool {
    &&& visible
    &&& text_len != 0
    &&& ex_style & WS_EX_TOOLWINDOW == 0
    &&& !(has_owner && ex_style & WS_EX_APPWINDOW == 0)
    &&& cloaked == 0
}

/// Whether a window is alt-tab-worthy (see [`app_window_spec`]).
pub fn is_app_window(visible: bool, text_len: i32, ex_style: i64, has_owner: bool, cloaked: u32) -> (b: bool)
    ensures
        b == app_window_spec(visible, text_len, ex_style, has_owner, cloaked),
{
    if !visible || text_len == 0 {
        return false;
    }
    if ex_style & WS_EX_TOOLWINDOW != 0 {
        return false;
    }
    if has_owner && ex_style & WS_EX_APPWINDOW == 0 {
        return false;
    }
    cloaked == 0
}

/// A window's id: its HWND value in decimal.
pub fn hwnd_id(hwnd: i64) -> (id: String)
    ensures
        id@ == signed_dec(hwnd as int),
{
    signed_dec_string(hwnd)
}

/// An HWND value read back from an id, as `isize::from_str` reads it on a
/// 64-bit target.
pub fn parse_hwnd(id: &str) -> (r: Option<i64>)
    ensures
        match parse_int(id@) {
            Some(v) => r == Some(v as i64),
            None => r is None,
        },
{
    let v = chars_of(id);
    parse_i64_chars(v.as_slice())
}

/// A window id reads back as the window it was made from.
pub proof fn lemma_hwnd_round_trip(hwnd: i64)
    ensures
        parse_int(signed_dec(hwnd as int)) == Some(hwnd as int),
{
    lemma_signed_round_trip(hwnd);
}

/// How an enumerated window is listed: alt-tab-worthy windows of other
/// processes with a title; the class is the owning process's executable
/// stem (empty when unknown).
pub open spec fn enum_spec(hwnd: i64, is_app: bool, pid: u32, self_pid: u32, title: Seq<char>, app_id: Option<Seq<char>>) -> Option<WindowInfoView> {
    if !is_app || pid == self_pid || title.len() == 0 {
        None
    } else {
        Some(WindowInfoView {
            id: signed_dec(hwnd as int),
            app_id: match app_id {
                Some(a) => a,
                None => Seq::empty(),
            },
            title,
            focused: false,
        })
    }
}

/// One enumerated window's listing (see [`enum_spec`]).
pub fn enum_window(hwnd: i64, is_app: bool, pid: u32, self_pid: u32, title: String, app_id: Option<String>) -> (r: Option<WindowInfo>)
    ensures
        match enum_spec(hwnd, is_app, pid, self_pid, title@, match app_id { Some(a) => Some(a@), None => None }) {
            Some(w) => r matches Some(x) && x@ == w,
            None => r is None,
        },
{
    if !is_app || pid == self_pid || title.as_str().is_empty() {
        return None;
    }
    let app = match app_id {
        Some(a) => a,
        None => String::new(),
    };
    Some(WindowInfo { id: hwnd_id(hwnd), app_id: app, title, focused: false })
}

/// The foreground window as reported: none when there is none (`hwnd` 0),
/// when it is ours or not alt-tab-worthy; else focused, its class the
/// executable stem (empty when unknown).
pub open spec fn foreground_spec(hwnd: i64, pid: u32, self_pid: u32, is_app: bool, title: Seq<char>, app_id: Option<Seq<char>>) -> Option<WindowInfoView> {
    if hwnd == 0 || pid == self_pid || !is_app {
        None
    } else {
        Some(WindowInfoView {
            id: signed_dec(hwnd as int),
            app_id: match app_id {
                Some(a) => a,
                None => Seq::empty(),
            },
            title,
            focused: true,
        })
    }
}

/// The foreground window's report (see [`foreground_spec`]).
pub fn foreground_window(hwnd: i64, pid: u32, self_pid: u32, is_app: bool, title: String, app_id: Option<String>) -> (r: Option<WindowInfo>)
    ensures
        match foreground_spec(hwnd, pid, self_pid, is_app, title@, match app_id { Some(a) => Some(a@), None => None }) {
            Some(w) => r matches Some(x) && x@ == w,
            None => r is None,
        },
{
    if hwnd == 0 || pid == self_pid || !is_app {
        return None;
    }
    let app = match app_id {
        Some(a) => a,
        None => String::new(),
    };
    Some(WindowInfo { id: hwnd_id(hwnd), app_id: app, title, focused: true })
}

/// The listed windows with the foreground one marked focused.
pub open spec fn marked(ws: Seq<WindowInfoView>, fg: Seq<char>) -> Seq<WindowInfoView> {
    ws.map_values(|w: WindowInfoView| WindowInfoView { focused: w.focused || w.id == fg, ..w })
}

/// Marks the windows whose id is the foreground window's as focused.
pub fn mark_focused(ws: &mut Vec<WindowInfo>, fg: &str)
    ensures
        infos_view(final(ws)@) == marked(infos_view(old(ws)@), fg@),
{
    let ghost start = infos_view(ws@);
    let mut i: usize = 0;
    while i < ws.len()
        invariant
            i <= ws@.len(),
            ws@.len() == start.len(),
            forall|k: int| 0 <= k < i ==> #[trigger] infos_view(ws@)[k] == marked(start, fg@)[k],
            forall|k: int| i <= k < ws@.len() ==> #[trigger] infos_view(ws@)[k] == start[k],
        decreases ws.len() - i,
    {
        let ghost before = ws@;
        proof {
            assert(infos_view(before)[i as int] == start[i as int]);
        }
        if str_is(ws[i].id.as_str(), fg) {
            let mut w = ws[i].copy();
            w.focused = true;
            ws.set(i, w);
            proof {
                assert(infos_view(ws@)[i as int] == marked(start, fg@)[i as int]);
                assert forall|k: int| 0 <= k < ws@.len() && k != i implies #[trigger] infos_view(ws@)[k] == infos_view(before)[k] by {
                    assert(ws@[k] == before[k]);
                }
            }
        } else {
            proof {
                assert(start[i as int].id != fg@);
                assert(marked(start, fg@)[i as int] == start[i as int]);
            }
        }
        i = i + 1;
    }
    assert(infos_view(ws@) =~= marked(start, fg@));
}

/// The focused window of a list: the first one marked focused.
pub open spec fn first_focused(ws: Seq<WindowInfoView>) -> Option<WindowInfoView> {
    match crate::order::first_where(ws, |w: WindowInfoView| w.focused) {
        Some(i) => Some(ws[i]),
        None => None,
    }
}

/// The ids of a list.
pub open spec fn ids_of(ws: Seq<WindowInfoView>) -> Seq<Seq<char>> {
    ws.map_values(|w: WindowInfoView| w.id)
}

/// What the poll loop last pushed: the window ids and the focused id.
pub struct PollState {
    last_ids: Vec<String>,
    last_active: Option<String>,
}

/// What to push after one poll: the window list when its ids changed, the
/// focused window when its id changed.
pub struct PollStep {
    pub windows: Option<Vec<WindowInfo>>,
    pub active: Option<Option<WindowInfo>>,
}

impl PollState {
    /// Nothing pushed yet.
    pub fn new() -> (s: PollState)
        ensures
            s.ids_view().len() == 0,
            s.active_view() is None,
    {
        let s = PollState { last_ids: Vec::new(), last_active: None };
        assert(s.ids_view() =~= Seq::<Seq<char>>::empty());
        s
    }

    /// The ids last pushed.
    pub closed spec fn ids_view(&self) -> Seq<Seq<char>> {
        crate::text::views(self.last_ids@)
    }

    /// The focused id last pushed.
    pub closed spec fn active_view(&self) -> Option<Seq<char>> {
        match self.last_active {
            Some(a) => Some(a@),
            None => None,
        }
    }

    /// One poll: the list is pushed when its ids differ from the last
    /// pushed ids, the first focused window when its id differs from the
    /// last pushed focused id; both are remembered.
    pub fn step(&mut self, ws: Vec<WindowInfo>) -> (r: PollStep)
        ensures
            ({
                let v = infos_view(ws@);
                let act = first_focused(v);
                let act_id = match act { Some(w) => Some(w.id), None => None };
                &&& final(self).ids_view() == ids_of(v)
                &&& final(self).active_view() == act_id
                &&& match r.windows {
                    Some(l) => ids_of(v) != old(self).ids_view() && infos_view(l@) == v,
                    None => ids_of(v) == old(self).ids_view(),
                }
                &&& match r.active {
                    Some(a) => act_id != old(self).active_view() && crate::compositor::registry::opt_info(a) == act,
                    None => act_id == old(self).active_view(),
                }
            }),
    {
        let ghost v = infos_view(ws@);
        let mut ids: Vec<String> = Vec::new();
        let mut i: usize = 0;
        while i < ws.len()
            invariant
                i <= ws@.len(),
                v == infos_view(ws@),
                ids@.len() == i,
                forall|k: int| 0 <= k < i ==> #[trigger] ids@[k]@ == v[k].id,
            decreases ws.len() - i,
        {
            ids.push(ws[i].id.clone());
            i = i + 1;
        }
        assert(crate::text::views(ids@) =~= ids_of(v));
        let same_ids = same_strings(&ids, &self.last_ids);
        let windows = if same_ids {
            None
        } else {
            Some(copy_infos(&ws))
        };
        self.last_ids = ids;
        let active = first_focused_of(&ws);
        let active_id: Option<String> = match &active {
            Some(w) => Some(w.id.clone()),
            None => None,
        };
        let changed = match (&active_id, &self.last_active) {
            (Some(a), Some(b)) => !str_is(a.as_str(), b.as_str()),
            (None, None) => false,
            _ => true,
        };
        self.last_active = active_id;
        PollStep { windows, active: if changed { Some(active) } else { None } }
    }
}

/// The first window marked focused.
fn first_focused_of(ws: &Vec<WindowInfo>) -> (r: Option<WindowInfo>)
    ensures
        crate::compositor::registry::opt_info(r) == first_focused(infos_view(ws@)),
{
    let ghost v = infos_view(ws@);
    let mut k: usize = 0;
    while k < ws.len()
        invariant
            k <= ws@.len(),
            v == infos_view(ws@),
            forall|j: int| 0 <= j < k ==> !(#[trigger] v[j]).focused,
        decreases ws.len() - k,
    {
        proof {
            assert(v[k as int] == ws@[k as int]@);
        }
        if ws[k].focused {
            proof {
                crate::order::lemma_first_found(v, |w: WindowInfoView| w.focused, k as int);
            }
            return Some(ws[k].copy());
        }
        k = k + 1;
    }
    proof {
        crate::order::lemma_first_none(v, |w: WindowInfoView| w.focused);
    }
    None
}

/// Whether two string lists are equal.
fn same_strings(a: &Vec<String>, b: &Vec<String>) -> (r: bool)
    ensures
        r == (crate::text::views(a@) == crate::text::views(b@)),
{
    if a.len() != b.len() {
        return false;
    }
    let mut i: usize = 0;
    while i < a.len()
        invariant
            i <= a@.len(),
            a@.len() == b@.len(),
            forall|k: int| 0 <= k < i ==> #[trigger] a@[k]@ == b@[k]@,
        decreases a.len() - i,
    {
        if !str_is(a[i].as_str(), b[i].as_str()) {
            assert(crate::text::views(a@)[i as int] != crate::text::views(b@)[i as int]);
            return false;
        }
        i = i + 1;
    }
    assert(crate::text::views(a@) =~= crate::text::views(b@));
    true
}

/// Handing focus over needs attaching to the foreground thread's input
/// when there is a foreground thread other than ours.
pub fn needs_attach(fg_tid: u32, our_tid: u32) -> (b: bool)
    ensures
        b == (fg_tid != 0 && fg_tid != our_tid),
{
    fg_tid != 0 && fg_tid != our_tid
}

/// The primary screen's size, when both metrics are positive.
pub fn screen_size(w: i32, h: i32) -> (r: Option<(u32, u32)>)
    ensures
        r == (if w > 0 && h > 0 { Some((w as u32, h as u32)) } else { None }),
{
    if w > 0 && h > 0 {
        Some((w as u32, h as u32))
    } else {
        None
    }
}

} // verus!
