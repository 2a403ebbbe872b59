//! The ring domain: what is on the wheel per mode, window matching and
//! per-app window selection, the actions system, and what activating a
//! slice or running an action does.

use vstd::prelude::*;
use crate::apps::{AppIndex, DesktopActionView, DesktopAppView, find_spec, icon_spec};
use crate::compositor::{WindowInfo, WindowInfoView, infos_view};
use crate::config::{
    AppEntry, AppEntryView, CustomAction, CustomActionView, apps_view, copy_customs,
    copy_opt_strings, customs_view, opt_views,
};
use crate::order::{
    Key, first_where, keys_view, lemma_first_found, lemma_first_none, sort_positions, stable_order,
};
use crate::text::{
    chars_of, contains, copy_strings, has_sub, is_last_occ, is_white, last_occ, occurs_at, lowercase, push_char, rfind,
    string_of, sub_chars, to_lower, trim, trim_chars, trim_end, trim_end_at, trim_start, views,
};

verus! {

/// Glyph of a generic app window.
pub const G_APP: &'static str = "\u{f2d0}";
/// Glyph of a custom key-combo action.
pub const G_KEY: &'static str = "\u{f084}";
/// Glyph of a desktop action.
pub const G_PLUS: &'static str = "\u{f067}";
/// Glyph of the close action.
pub const G_CLOSE: &'static str = "\u{f00d}";
/// Glyph of the float action.
pub const G_FLOAT: &'static str = "\u{f2d2}";
/// Glyph of the fullscreen action.
pub const G_FULL: &'static str = "\u{f065}";
/// Glyph of the open fallback.
pub const G_OPEN: &'static str = "\u{f35d}";

/// Longest title kept before an ellipsis: a safety cap only, the wheel
/// scrolls long labels.
pub const TITLE_MAX: usize = 160;

// ------------------------------------------------------------ titles

/// The separators a title's trailing app-name segment follows.
pub open spec fn title_seps() -> Seq<Seq<char>> {
    seq![seq![' ', '\u{2014}', ' '], seq![' ', '\u{2013}', ' '], seq![' ', '-', ' '], seq![' ', '|', ' ']]
}

/// The later of two optional positions.
pub open spec fn later(a: Option<int>, b: Option<int>) -> Option<int> {
    match (a, b) {
        (Some(x), Some(y)) => Some(if x >= y { x } else { y }),
        (Some(x), None) => Some(x),
        (None, y) => y,
    }
}

/// Where the last separator of `s` starts, whichever separator it is.
pub open spec fn last_cut(s: Seq<char>) -> Option<int> {
    let seps = title_seps();
    later(later(later(last_occ(s, seps[0]), last_occ(s, seps[1])), last_occ(s, seps[2])), last_occ(s, seps[3]))
}

/// One stripping pass: when the segment after the last separator mentions
/// the app (case-insensitively, `app_lc` being the lowercased app name)
/// and something other than whitespace comes before it, the title up to
/// the separator, without trailing whitespace.
pub open spec fn strip_step(s: Seq<char>, app_lc: Seq<char>) -> Option<Seq<char>> {
    match last_cut(s) {
        Some(i) => if app_lc.len() > 0 && has_sub(lowercase(s.subrange(i + 3, s.len() as int)), app_lc)
            && trim(s.subrange(0, i)).len() > 0 {
            Some(trim_end(s.subrange(0, i)))
        } else {
            None
        },
        None => None,
    }
}

/// The trimmed title with at most two trailing app-name segments stripped;
/// with no app name, only the trimmed title.
pub open spec fn stripped_title(t: Seq<char>, app: Seq<char>) -> Seq<char> {
    let s0 = trim(t);
    let lc = lowercase(app);
    if app.len() == 0 {
        s0
    } else {
        match strip_step(s0, lc) {
            Some(s1) => match strip_step(s1, lc) {
                Some(s2) => s2,
                None => s1,
            },
            None => s0,
        }
    }
}

/// At most [`TITLE_MAX`] characters, an ellipsis marking a cut.
pub open spec fn capped(s: Seq<char>) -> Seq<char> {
    if s.len() > TITLE_MAX {
        s.take(TITLE_MAX as int).push('\u{2026}')
    } else {
        s
    }
}

/// A window title as the rings show it (see [`clean_title`]).
pub open spec fn clean_title_spec(t: Seq<char>, app: Seq<char>) -> Seq<char> {
    capped(stripped_title(t, app))
}

fn sep_chars(k: usize) -> (r: Vec<char>)
    requires
        k < 4,
    ensures
        r@ == title_seps()[k as int],
{
    let mid = if k == 0 {
        '\u{2014}'
    } else if k == 1 {
        '\u{2013}'
    } else if k == 2 {
        '-'
    } else {
        '|'
    };
    let r = vec![' ', mid, ' '];
    assert(r@ =~= title_seps()[k as int]);
    r
}

pub open spec fn opt_int(a: Option<usize>) -> Option<int> {
    match a {
        Some(x) => Some(x as int),
        None => None,
    }
}

fn later_of(a: Option<usize>, b: Option<usize>) -> (r: Option<usize>)
    ensures
        opt_int(r) == later(opt_int(a), opt_int(b)),
        r matches Some(x) ==> (a == Some(x) || b == Some(x)),
{
    match (a, b) {
        (Some(x), Some(y)) => Some(if x >= y { x } else { y }),
        (Some(x), None) => Some(x),
        (None, y) => y,
    }
}

/// The last occurrence of separator `k` in `s`.
fn sep_at(s: &Vec<char>, k: usize) -> (r: Option<usize>)
    requires
        k < 4,
    ensures
        opt_int(r) == last_occ(s@, title_seps()[k as int]),
        r matches Some(i) ==> i + 3 <= s@.len(),
{
    let sep = sep_chars(k);
    let found = rfind(s.as_slice(), sep.as_slice());
    if let Some(i) = found {
        assert(crate::text::occurs_at(s@, sep@, i as int));
    }
    found
}

/// Where the last separator of `s` starts.
fn find_cut(s: &Vec<char>) -> (r: Option<usize>)
    ensures
        opt_int(r) == last_cut(s@),
        r matches Some(i) ==> i + 3 <= s@.len(),
{
    let c0 = sep_at(s, 0);
    let c1 = sep_at(s, 1);
    let c2 = sep_at(s, 2);
    let c3 = sep_at(s, 3);
    later_of(later_of(later_of(c0, c1), c2), c3)
}

/// One stripping pass over `s` (see [`strip_step`]).
fn strip_once(s: &Vec<char>, app_lc: &Vec<char>) -> (r: Option<Vec<char>>)
    ensures
        match strip_step(s@, app_lc@) {
            Some(t) => r matches Some(v) && v@ == t,
            None => r is None,
        },
{
    let i = match find_cut(s) {
        Some(i) => i,
        None => return None,
    };
    if app_lc.len() == 0 {
        return None;
    }
    let n = s.len();
    let tail = sub_chars(s.as_slice(), i + 3, n);
    let tail_lc = to_lower(string_of(tail.as_slice()).as_str());
    let tail_lc_chars = chars_of(tail_lc.as_str());
    if !contains(tail_lc_chars.as_slice(), app_lc.as_slice()) {
        return None;
    }
    let head = sub_chars(s.as_slice(), 0, i);
    let trimmed = trim_chars(head.as_slice());
    if trimmed.len() == 0 {
        return None;
    }
    let j = trim_end_at(head.as_slice());
    Some(sub_chars(head.as_slice(), 0, j))
}

/// A window title for a ring slice: trimmed, then up to two trailing
/// "<sep> <segment naming the app>" parts removed (separators ` — `, ` – `,
/// ` - `, ` | `; the app name matched case-insensitively; never stripped to
/// nothing), then capped at [`TITLE_MAX`] characters plus an ellipsis.
pub fn clean_title(t: &str, app: &str) -> (r: String)
    ensures
        r@ == clean_title_spec(t@, app@),
{
    let tv = chars_of(t);
    let mut s = trim_chars(tv.as_slice());
    let lc = to_lower(app);
    let app_lc = chars_of(lc.as_str());
    match strip_once(&s, &app_lc) {
        Some(s1) => {
            s = s1;
            match strip_once(&s, &app_lc) {
                Some(s2) => {
                    s = s2;
                },
                None => {},
            }
        },
        None => {},
    }
    if s.len() > TITLE_MAX {
        let mut out = sub_chars(s.as_slice(), 0, TITLE_MAX);
        out.push('\u{2026}');
        assert(out@ =~= s@.take(TITLE_MAX as int).push('\u{2026}'));
        string_of(out.as_slice())
    } else {
        string_of(s.as_slice())
    }
}

proof fn lemma_trim_end_all_white(s: Seq<char>)
    requires
        trim_end(s).len() == 0,
    ensures
        forall|k: int| 0 <= k < s.len() ==> is_white(#[trigger] s[k]),
    decreases s.len(),
{
    if s.len() > 0 {
        lemma_trim_end_all_white(s.drop_last());
        assert forall|k: int| 0 <= k < s.len() implies is_white(#[trigger] s[k]) by {
            if k < s.len() - 1 {
                assert(s.drop_last()[k] == s[k]);
            }
        }
    }
}

proof fn lemma_trim_start_all_white(s: Seq<char>)
    requires
        forall|k: int| 0 <= k < s.len() ==> is_white(#[trigger] s[k]),
    ensures
        trim_start(s).len() == 0,
    decreases s.len(),
{
    if s.len() > 0 {
        let t = s.drop_first();
        assert forall|k: int| 0 <= k < t.len() implies is_white(#[trigger] t[k]) by {
            assert(t[k] == s[k + 1]);
        }
        lemma_trim_start_all_white(t);
    }
}

proof fn lemma_trim_end_keeps_text(s: Seq<char>)
    requires
        trim(s).len() > 0,
    ensures
        trim_end(s).len() > 0,
{
    if trim_end(s).len() == 0 {
        lemma_trim_end_all_white(s);
        lemma_trim_start_all_white(s);
    }
}

/// Cleaning a title never empties it and never makes it longer than the
/// cap plus the ellipsis; a title that is blank stays blank.
pub proof fn lemma_clean_title_bounds(t: Seq<char>, app: Seq<char>)
    ensures
        clean_title_spec(t, app).len() <= TITLE_MAX + 1,
        clean_title_spec(t, app).len() > 0 <==> trim(t).len() > 0,
{
    let s0 = trim(t);
    let lc = lowercase(app);
    if let Some(i) = last_cut(s0) {
        if strip_step(s0, lc) is Some {
            lemma_trim_end_keeps_text(s0.subrange(0, i));
            let s1 = trim_end(s0.subrange(0, i));
            if let Some(j) = last_cut(s1) {
                if strip_step(s1, lc) is Some {
                    lemma_trim_end_keeps_text(s1.subrange(0, j));
                }
            }
        }
    }
}

proof fn lemma_has_last(s: Seq<char>, p: Seq<char>, j: int)
    requires
        occurs_at(s, p, j),
    ensures
        exists|i: int| #[trigger] is_last_occ(s, p, i),
    decreases s.len() - j,
{
    if forall|k: int| j < k ==> !#[trigger] occurs_at(s, p, k) {
        assert(is_last_occ(s, p, j));
    } else {
        let k = choose|k: int| j < k && #[trigger] occurs_at(s, p, k);
        lemma_has_last(s, p, k);
    }
}

/// Where `p` last occurs, it fits in `s`.
proof fn lemma_last_occ_bounds(s: Seq<char>, p: Seq<char>)
    ensures
        last_occ(s, p) matches Some(i) ==> 0 <= i && i + p.len() <= s.len(),
{
    if has_sub(s, p) {
        let j = choose|j: int| occurs_at(s, p, j);
        lemma_has_last(s, p, j);
        let i = choose|i: int| is_last_occ(s, p, i);
        assert(is_last_occ(s, p, i));
    }
}

/// The last separator fits in the title.
proof fn lemma_last_cut_bounds(s: Seq<char>)
    ensures
        last_cut(s) matches Some(i) ==> 0 <= i && i + 3 <= s.len(),
{
    let seps = title_seps();
    assert(seps[0].len() == 3 && seps[1].len() == 3 && seps[2].len() == 3 && seps[3].len() == 3);
    lemma_last_occ_bounds(s, seps[0]);
    lemma_last_occ_bounds(s, seps[1]);
    lemma_last_occ_bounds(s, seps[2]);
    lemma_last_occ_bounds(s, seps[3]);
}

proof fn lemma_trim_end_prefix(s: Seq<char>)
    ensures
        trim_end(s).len() <= s.len(),
        trim_end(s) == s.take(trim_end(s).len() as int),
    decreases s.len(),
{
    if s.len() > 0 && is_white(s.last()) {
        lemma_trim_end_prefix(s.drop_last());
        let k = trim_end(s).len() as int;
        assert(s.drop_last().take(k) =~= s.take(k));
    } else {
        assert(s.take(s.len() as int) =~= s);
    }
}

/// One stripping pass keeps a leading part of the title.
proof fn lemma_strip_step_prefix(s: Seq<char>, lc: Seq<char>)
    ensures
        strip_step(s, lc) matches Some(r) ==> r.len() <= s.len() && r == s.take(r.len() as int),
{
    if let Some(i) = last_cut(s) {
        if strip_step(s, lc) is Some {
            lemma_last_cut_bounds(s);
            let h = s.subrange(0, i);
            lemma_trim_end_prefix(h);
            let k = trim_end(h).len() as int;
            assert(h.take(k) =~= s.take(k));
        }
    }
}

/// How a title is cleaned: the result is the kept part capped; the kept
/// part is a leading part of the trimmed title, empty only when that is; it
/// is the whole trimmed title when there is no app name, and anything is
/// cut only when a separator's tail mentions the app.
pub proof fn lemma_clean_title_cuts(t: Seq<char>, app: Seq<char>)
    ensures
        clean_title_spec(t, app) == capped(stripped_title(t, app)),
        stripped_title(t, app).len() <= trim(t).len(),
        stripped_title(t, app) == trim(t).take(stripped_title(t, app).len() as int),
        (stripped_title(t, app).len() > 0) == (trim(t).len() > 0),
        app.len() == 0 ==> stripped_title(t, app) == trim(t),
        stripped_title(t, app) != trim(t) ==> app.len() > 0 && strip_step(trim(t), lowercase(app)) is Some,
{
    let s0 = trim(t);
    let lc = lowercase(app);
    lemma_clean_title_bounds(t, app);
    lemma_strip_step_prefix(s0, lc);
    if app.len() > 0 {
        if let Some(s1) = strip_step(s0, lc) {
            lemma_strip_step_prefix(s1, lc);
            if let Some(s2) = strip_step(s1, lc) {
                assert(s0.take(s2.len() as int) =~= s1.take(s2.len() as int));
            }
        }
    }
    assert(s0.take(s0.len() as int) =~= s0);
}

/// The title separators, each a mark between spaces: em dash, en dash,
/// hyphen, bar.
pub open spec fn is_title_sep(q: Seq<char>) -> bool {
    q == seq![' ', '\u{2014}', ' '] || q == seq![' ', '\u{2013}', ' '] || q == seq![' ', '-', ' ']
        || q == seq![' ', '|', ' ']
}

/// No title separator starts in `t` anywhere but at `i`.
pub open spec fn seps_only_at(t: Seq<char>, i: int) -> bool {
    forall|q: Seq<char>, j: int| is_title_sep(q) && j != i ==> !#[trigger] occurs_at(t, q, j)
}

proof fn lemma_no_occ(s: Seq<char>, q: Seq<char>)
    requires
        forall|j: int| !#[trigger] occurs_at(s, q, j),
    ensures
        last_occ(s, q) is None,
{
}

proof fn lemma_sep_occ(t: Seq<char>, i: int, sep: Seq<char>, q: Seq<char>)
    requires
        is_title_sep(sep),
        is_title_sep(q),
        seps_only_at(t, i),
        occurs_at(t, sep, i),
    ensures
        last_occ(t, q) == (if q == sep { Some(i) } else { None::<int> }),
{
    if q == sep {
        assert(is_last_occ(t, q, i));
        crate::text::lemma_last_occ(t, q, i);
    } else {
        assert forall|j: int| !#[trigger] occurs_at(t, q, j) by {
            if j == i && occurs_at(t, q, j) {
                assert(t.subrange(i, i + 3) == sep);
            }
        }
        lemma_no_occ(t, q);
    }
}

/// A title made of a head, one separator and a tail that mentions the app
/// (case-insensitively), with no other separator in it, is cut back to its
/// head (without trailing whitespace), then capped. The separators are the
/// em dash, en dash, hyphen and bar, each between spaces.
pub proof fn lemma_clean_title_cuts_app_tail(h: Seq<char>, sep: Seq<char>, a: Seq<char>, app: Seq<char>)
    requires
        is_title_sep(sep),
        h.len() > 0,
        !is_white(h[0]),
        trim(h).len() > 0,
        a.len() > 0,
        !is_white(a.last()),
        app.len() > 0,
        lowercase(app).len() > 0,
        has_sub(lowercase(a), lowercase(app)),
        seps_only_at(h + sep + a, h.len() as int),
    ensures
        clean_title_spec(h + sep + a, app) == capped(trim_end(h)),
{
    let t = h + sep + a;
    let i = h.len() as int;
    let lc = lowercase(app);
    // the title has nothing to trim
    assert(t[0] == h[0]);
    assert(trim_start(t) == t);
    assert(t.last() == a.last());
    assert(trim_end(t) == t);
    assert(trim(t) == t);
    // the one separator is the last cut
    assert(t.subrange(i, i + 3) =~= sep);
    assert(occurs_at(t, sep, i));
    let seps = title_seps();
    assert(is_title_sep(seps[0]) && is_title_sep(seps[1]) && is_title_sep(seps[2]) && is_title_sep(seps[3]));
    assert(sep == seps[0] || sep == seps[1] || sep == seps[2] || sep == seps[3]);
    lemma_sep_occ(t, i, sep, seps[0]);
    lemma_sep_occ(t, i, sep, seps[1]);
    lemma_sep_occ(t, i, sep, seps[2]);
    lemma_sep_occ(t, i, sep, seps[3]);
    assert(last_cut(t) == Some(i));
    // its tail names the app and its head is not blank
    assert(t.subrange(i + 3, t.len() as int) =~= a);
    assert(t.subrange(0, i) =~= h);
    let s1 = trim_end(h);
    assert(strip_step(t, lc) == Some(s1));
    // what is left has no separator
    lemma_trim_end_prefix(h);
    assert forall|q: Seq<char>, j: int| is_title_sep(q) implies !#[trigger] occurs_at(s1, q, j) by {
        if occurs_at(s1, q, j) {
            assert(q.len() == 3);
            assert(t.subrange(j, j + 3) =~= s1.subrange(j, j + 3));
            assert(occurs_at(t, q, j));
        }
    }
    lemma_no_occ(s1, seps[0]);
    lemma_no_occ(s1, seps[1]);
    lemma_no_occ(s1, seps[2]);
    lemma_no_occ(s1, seps[3]);
    assert(last_cut(s1) is None);
    assert(stripped_title(t, app) == s1);
}

/// A title with no separator, or an empty app name, is only trimmed and
/// capped.
pub proof fn lemma_clean_title_plain(t: Seq<char>, app: Seq<char>)
    requires
        last_cut(trim(t)) is None || app.len() == 0,
    ensures
        clean_title_spec(t, app) == capped(trim(t)),
{
}

// ------------------------------------------------------------- types

/// Which ring is open.
#[derive(Debug, Clone, Copy, PartialEq, Eq, Structural)]
pub enum Mode {
    Apps,
    Windows,
    Actions,
}

impl Default for Mode {
    /// The apps ring.
    fn default() -> (m: Mode)
        ensures
            m == Mode::Apps,
    {
        Mode::Apps
    }
}

/// What an action does.
#[derive(Debug, Clone, PartialEq)]
pub enum ActionKind {
    /// Desktop-file action: run its argv.
    Run(Vec<String>),
    Close,
    Float,
    Fullscreen,
    /// Send a key combo to the window (Hyprland), else launch.
    Keys(String),
    /// Fallback "Open" when no actions apply.
    Launch,
}

/// The character-level content of an [`ActionKind`].
pub enum ActionKindView {
    Run(Seq<Seq<char>>),
    Close,
    Float,
    Fullscreen,
    Keys(Seq<char>),
    Launch,
}

impl View for ActionKind {
    type V = ActionKindView;

    open spec fn view(&self) -> ActionKindView {
        match self {
            ActionKind::Run(cmd) => ActionKindView::Run(views(cmd@)),
            ActionKind::Close => ActionKindView::Close,
            ActionKind::Float => ActionKindView::Float,
            ActionKind::Fullscreen => ActionKindView::Fullscreen,
            ActionKind::Keys(c) => ActionKindView::Keys(c@),
            ActionKind::Launch => ActionKindView::Launch,
        }
    }
}

impl ActionKind {
    /// A copy with the same content.
    pub fn copy(&self) -> (r: ActionKind)
        ensures
            r@ == self@,
    {
        match self {
            ActionKind::Run(cmd) => ActionKind::Run(copy_strings(cmd)),
            ActionKind::Close => ActionKind::Close,
            ActionKind::Float => ActionKind::Float,
            ActionKind::Fullscreen => ActionKind::Fullscreen,
            ActionKind::Keys(c) => ActionKind::Keys(c.clone()),
            ActionKind::Launch => ActionKind::Launch,
        }
    }
}

/// One action of the actions ring or the per-app arc.
#[derive(Debug, Clone, PartialEq)]
pub struct ActionTemplate {
    pub id: String,
    pub label: String,
    pub glyph: String,
    pub icon: String,
    pub color: String,
    pub kind: ActionKind,
}

/// The character-level content of an [`ActionTemplate`].
pub struct ActionTemplateView {
    pub id: Seq<char>,
    pub label: Seq<char>,
    pub glyph: Seq<char>,
    pub icon: Seq<char>,
    pub color: Seq<char>,
    pub kind: ActionKindView,
}

impl View for ActionTemplate {
    type V = ActionTemplateView;

    open spec fn view(&self) -> ActionTemplateView {
        ActionTemplateView {
            id: self.id@,
            label: self.label@,
            glyph: self.glyph@,
            icon: self.icon@,
            color: self.color@,
            kind: self.kind@,
        }
    }
}

impl ActionTemplate {
    /// A copy with the same content.
    pub fn copy(&self) -> (r: ActionTemplate)
        ensures
            r@ == self@,
    {
        ActionTemplate {
            id: self.id.clone(),
            label: self.label.clone(),
            glyph: self.glyph.clone(),
            icon: self.icon.clone(),
            color: self.color.clone(),
            kind: self.kind.copy(),
        }
    }
}

/// The templates' contents, in order.
pub open spec fn templates_view(v: Seq<ActionTemplate>) -> Seq<ActionTemplateView> {
    v.map_values(|t: ActionTemplate| t@)
}

/// The characters of an optional string.
pub open spec fn opt_str(o: Option<String>) -> Option<Seq<char>> {
    match o {
        Some(s) => Some(s@),
        None => None,
    }
}

/// A copy of an optional string.
pub fn copy_opt(o: &Option<String>) -> (r: Option<String>)
    ensures
        opt_str(r) == opt_str(*o),
{
    match o {
        Some(s) => Some(s.clone()),
        None => None,
    }
}

/// One slice on the wheel.
#[derive(Debug, Clone)]
pub struct RingEntry {
    pub name: String,
    /// Unresolved icon (theme name or abs path); "" = glyph/monogram.
    pub icon: String,
    pub glyph: String,
    pub color: String,
    pub wm_class: String,
    /// Windows-ring entries and the focused app carry a concrete window.
    pub window: Option<String>,
    pub is_window: bool,
    pub action: Option<ActionTemplate>,
    /// Apps-ring entries: index into the configured apps array.
    pub app_index: Option<usize>,
}

/// The character-level content of a [`RingEntry`].
pub struct RingEntryView {
    pub name: Seq<char>,
    pub icon: Seq<char>,
    pub glyph: Seq<char>,
    pub color: Seq<char>,
    pub wm_class: Seq<char>,
    pub window: Option<Seq<char>>,
    pub is_window: bool,
    pub action: Option<ActionTemplateView>,
    pub app_index: Option<usize>,
}

/// The view of an optional action.
pub open spec fn opt_action(a: Option<ActionTemplate>) -> Option<ActionTemplateView> {
    match a {
        Some(t) => Some(t@),
        None => None,
    }
}

impl View for RingEntry {
    type V = RingEntryView;

    open spec fn view(&self) -> RingEntryView {
        RingEntryView {
            name: self.name@,
            icon: self.icon@,
            glyph: self.glyph@,
            color: self.color@,
            wm_class: self.wm_class@,
            window: opt_str(self.window),
            is_window: self.is_window,
            action: opt_action(self.action),
            app_index: self.app_index,
        }
    }
}

impl RingEntry {
    /// Whether this slice runs an action.
    pub fn is_action(&self) -> (b: bool)
        ensures
            b == self.action.is_some(),
    {
        self.action.is_some()
    }
}

impl Default for RingEntry {
    /// An empty slice: no name, icon, glyph, color or class; no window, no
    /// action, no app.
    fn default() -> (e: RingEntry)
        ensures
            e@ == empty_entry(),
    {
        RingEntry {
            name: String::new(),
            icon: String::new(),
            glyph: String::new(),
            color: String::new(),
            wm_class: String::new(),
            window: None,
            is_window: false,
            action: None,
            app_index: None,
        }
    }
}

/// The content of an empty slice.
pub open spec fn empty_entry() -> RingEntryView {
    RingEntryView {
        name: Seq::empty(),
        icon: Seq::empty(),
        glyph: Seq::empty(),
        color: Seq::empty(),
        wm_class: Seq::empty(),
        window: None,
        is_window: false,
        action: None,
        app_index: None,
    }
}

/// The entries' contents, in order.
pub open spec fn entries_view(v: Seq<RingEntry>) -> Seq<RingEntryView> {
    v.map_values(|e: RingEntry| e@)
}

/// The focused window merged with its configured app.
#[derive(Debug, Clone)]
pub struct FocusedApp {
    pub icon: String,
    pub wm_class: String,
    pub window: Option<String>,
    pub custom_actions: Vec<CustomAction>,
    pub action_ids: Option<Vec<String>>,
}

/// The character-level content of a [`FocusedApp`].
pub struct FocusedAppView {
    pub icon: Seq<char>,
    pub wm_class: Seq<char>,
    pub window: Option<Seq<char>>,
    pub custom_actions: Seq<CustomActionView>,
    pub action_ids: Option<Seq<Seq<char>>>,
}

impl View for FocusedApp {
    type V = FocusedAppView;

    open spec fn view(&self) -> FocusedAppView {
        FocusedAppView {
            icon: self.icon@,
            wm_class: self.wm_class@,
            window: opt_str(self.window),
            custom_actions: customs_view(self.custom_actions@),
            action_ids: opt_views(self.action_ids),
        }
    }
}

impl FocusedApp {
    /// A copy with the same content.
    pub fn copy(&self) -> (r: FocusedApp)
        ensures
            r@ == self@,
    {
        FocusedApp {
            icon: self.icon.clone(),
            wm_class: self.wm_class.clone(),
            window: copy_opt(&self.window),
            custom_actions: copy_customs(&self.custom_actions),
            action_ids: copy_opt_strings(&self.action_ids),
        }
    }
}

impl Default for FocusedApp {
    /// Nothing: no icon, class, window or actions, no whitelist.
    fn default() -> (f: FocusedApp)
        ensures
            f@.icon == Seq::<char>::empty(),
            f@.wm_class == Seq::<char>::empty(),
            f@.window is None,
            f@.custom_actions == Seq::<CustomActionView>::empty(),
            f@.action_ids is None,
    {
        let f = FocusedApp {
            icon: String::new(),
            wm_class: String::new(),
            window: None,
            custom_actions: Vec::new(),
            action_ids: None,
        };
        assert(customs_view(f.custom_actions@) =~= Seq::<CustomActionView>::empty());
        f
    }
}

/// What the daemon must do after an activation or an action.
#[derive(Debug, Clone, PartialEq)]
pub enum Effect {
    Nothing,
    /// Spawn this argv, detached.
    Launch(Vec<String>),
    /// Focus this window.
    Focus(String),
    Close(String),
    ToggleFloat(String),
    Fullscreen(String),
    /// Send a key combo (Hyprland modmask string and key) to a window.
    SendKeys(String, String, String),
}

/// The character-level content of an [`Effect`].
pub enum EffectView {
    Nothing,
    Launch(Seq<Seq<char>>),
    Focus(Seq<char>),
    Close(Seq<char>),
    ToggleFloat(Seq<char>),
    Fullscreen(Seq<char>),
    SendKeys(Seq<char>, Seq<char>, Seq<char>),
}

impl View for Effect {
    type V = EffectView;

    open spec fn view(&self) -> EffectView {
        match self {
            Effect::Nothing => EffectView::Nothing,
            Effect::Launch(a) => EffectView::Launch(views(a@)),
            Effect::Focus(w) => EffectView::Focus(w@),
            Effect::Close(w) => EffectView::Close(w@),
            Effect::ToggleFloat(w) => EffectView::ToggleFloat(w@),
            Effect::Fullscreen(w) => EffectView::Fullscreen(w@),
            Effect::SendKeys(w, m, k) => EffectView::SendKeys(w@, m@, k@),
        }
    }
}

// -------------------------------------------------------------- core

/// Everything the rings need to answer questions: the configured apps, the
/// installed-app index, the compositor's latest window snapshot and focus,
/// the per-app window choice, and the actions target frozen when the
/// actions ring opened.
pub struct Core {
    pub apps: Vec<AppEntry>,
    pub index: AppIndex,
    pub windows: Vec<WindowInfo>,
    pub active: Option<WindowInfo>,
    /// Transient: lowercase window class -> chosen window index (the first
    /// entry of a class counts). Not persisted.
    pub win_sel: Vec<(String, usize)>,
    /// True when the compositor was configured (window rules) so the ring
    /// window is a real overlay; false -> the UI falls back to fullscreen.
    pub overlay_ready: bool,
    /// The focused app snapshotted when the actions ring opens: the overlay
    /// takes keyboard focus right after, so building the ring from the live
    /// active window would immediately wipe it.
    pub actions_target: Option<FocusedApp>,
    /// The compositor can float windows (Hyprland).
    pub can_float: bool,
    /// The compositor can send key combos to windows (Hyprland).
    pub can_send_keys: bool,
}

/// The selection table as (class, index) pairs.
pub open spec fn sel_view(v: Seq<(String, usize)>) -> Seq<(Seq<char>, usize)> {
    v.map_values(|p: (String, usize)| (p.0@, p.1))
}

/// A selection entry is the one of class `key`.
pub open spec fn key_is(key: Seq<char>) -> spec_fn((Seq<char>, usize)) -> bool {
    |p: (Seq<char>, usize)| p.0 == key
}

/// The chosen window index stored for a lowercase class, if any.
pub open spec fn sel_get(sel: Seq<(Seq<char>, usize)>, key: Seq<char>) -> Option<usize> {
    match first_where(sel, key_is(key)) {
        Some(i) => Some(sel[i].1),
        None => None,
    }
}

/// The windows of a class, compared lowercased; none for an empty class.
pub open spec fn class_windows(ws: Seq<WindowInfoView>, cls: Seq<char>) -> Seq<WindowInfoView> {
    if cls.len() == 0 {
        Seq::empty()
    } else {
        ws.filter(|w: WindowInfoView| lowercase(w.app_id) == lowercase(cls))
    }
}

/// The windows a slice stands for: its own window for a windows-ring
/// slice, else the windows of its class.
pub open spec fn entry_windows(ws: Seq<WindowInfoView>, e: RingEntryView) -> Seq<WindowInfoView> {
    if e.is_window {
        match e.window {
            Some(id) => ws.filter(|w: WindowInfoView| w.id == id),
            None => Seq::empty(),
        }
    } else {
        class_windows(ws, e.wm_class)
    }
}

/// An app slice with no class stands for no window, whatever is open.
pub proof fn lemma_classless_slice_has_no_windows(ws: Seq<WindowInfoView>, e: RingEntryView)
    requires
        !e.is_window,
        e.wm_class.len() == 0,
    ensures
        entry_windows(ws, e) == Seq::<WindowInfoView>::empty(),
{
}

/// The index of the chosen window among a slice's windows: -1 without
/// windows, the stored choice for its class when in range, else 0.
pub open spec fn selected_spec(ws: Seq<WindowInfoView>, sel: Seq<(Seq<char>, usize)>, e: RingEntryView) -> int {
    let n = entry_windows(ws, e).len();
    if n == 0 {
        -1
    } else {
        let idx = match sel_get(sel, lowercase(e.wm_class)) {
            Some(i) => i as int,
            None => 0,
        };
        if idx >= n {
            0
        } else {
            idx
        }
    }
}

/// The window a slice targets: its own for a windows-ring slice, else the
/// chosen window of its class.
pub open spec fn window_for_spec(ws: Seq<WindowInfoView>, sel: Seq<(Seq<char>, usize)>, e: RingEntryView) -> Option<Seq<char>> {
    if e.is_window {
        e.window
    } else {
        let i = selected_spec(ws, sel, e);
        if i < 0 {
            None
        } else {
            Some(entry_windows(ws, e)[i].id)
        }
    }
}

/// The references' contents, in order.
pub open spec fn refs_view(v: Seq<&WindowInfo>) -> Seq<WindowInfoView> {
    v.map_values(|w: &WindowInfo| w@)
}

/// The stored choice after cycling: `cur + dir` wrapped into `0..n`.
pub open spec fn cycled(cur: int, dir: int, n: int) -> int {
    (cur + dir) % n
}

impl Core {
    /// A core over these apps and index, with no windows, no focus, no
    /// choices, no actions target, and the compositor's capabilities.
    pub fn new(apps: Vec<AppEntry>, index: AppIndex, can_float: bool, can_send_keys: bool) -> (c: Core)
        ensures
            apps_view(c.apps@) == apps_view(apps@),
            c.index@ == index@,
            c.windows@.len() == 0,
            c.active is None,
            c.win_sel@.len() == 0,
            !c.overlay_ready,
            c.actions_target is None,
            c.can_float == can_float,
            c.can_send_keys == can_send_keys,
    {
        Core {
            apps,
            index,
            windows: Vec::new(),
            active: None,
            win_sel: Vec::new(),
            overlay_ready: false,
            actions_target: None,
            can_float,
            can_send_keys,
        }
    }

    /// Where the first entry of a lowercase class is in the selection table.
    fn sel_position(&self, key: &str) -> (r: Option<usize>)
        ensures
            r matches Some(i) ==> i < self.win_sel@.len() && first_where(sel_view(self.win_sel@), key_is(key@)) == Some(i as int),
            r is None ==> first_where(sel_view(self.win_sel@), key_is(key@)) is None,
    {
        let ghost sv = sel_view(self.win_sel@);
        let mut i: usize = 0;
        while i < self.win_sel.len()
            invariant
                i <= self.win_sel@.len(),
                sv == sel_view(self.win_sel@),
                forall|j: int| 0 <= j < i ==> !key_is(key@)(#[trigger] sv[j]),
            decreases self.win_sel.len() - i,
        {
            proof {
                assert(sv[i as int] == (self.win_sel@[i as int].0@, self.win_sel@[i as int].1));
            }
            if crate::text::str_is(self.win_sel[i].0.as_str(), key) {
                proof {
                    lemma_first_found(sv, key_is(key@), i as int);
                }
                return Some(i);
            }
            i = i + 1;
        }
        proof {
            lemma_first_none(sv, key_is(key@));
        }
        None
    }

    /// The stored choice for a lowercase class.
    fn sel_lookup(&self, key: &str) -> (r: Option<usize>)
        ensures
            r == sel_get(sel_view(self.win_sel@), key@),
    {
        match self.sel_position(key) {
            Some(i) => {
                proof {
                    assert(sel_view(self.win_sel@)[i as int] == (self.win_sel@[i as int].0@, self.win_sel@[i as int].1));
                }
                Some(self.win_sel[i].1)
            },
            None => None,
        }
    }

    /// The open windows of a class (compared lowercased; none for an empty
    /// class), in compositor order.
    pub fn windows_for_class(&self, wm_class: &str) -> (r: Vec<&WindowInfo>)
        ensures
            refs_view(r@) == class_windows(infos_view(self.windows@), wm_class@),
    {
        let ghost ws = infos_view(self.windows@);
        let want = to_lower(wm_class);
        let mut r: Vec<&WindowInfo> = Vec::new();
        if want.as_str().is_empty() {
            assert(refs_view(r@) =~= Seq::<WindowInfoView>::empty());
            return r;
        }
        let ghost pred = |w: WindowInfoView| lowercase(w.app_id) == want@;
        proof {
            reveal(Seq::filter);
        }
        let mut i: usize = 0;
        while i < self.windows.len()
            invariant
                i <= self.windows@.len(),
                ws == infos_view(self.windows@),
                pred == (|w: WindowInfoView| lowercase(w.app_id) == want@),
                refs_view(r@) == ws.take(i as int).filter(pred),
            decreases self.windows.len() - i,
        {
            let w = &self.windows[i];
            let lw = to_lower(w.app_id.as_str());
            let ghost before = r@;
            proof {
                reveal(Seq::filter);
                assert(ws.take(i + 1).drop_last() =~= ws.take(i as int));
                assert(ws.take(i + 1).last() == w@);
            }
            if crate::text::str_is(lw.as_str(), want.as_str()) {
                r.push(w);
                assert(refs_view(r@) =~= refs_view(before).push(w@));
            }
            i = i + 1;
        }
        assert(ws.take(self.windows@.len() as int) =~= ws);
        r
    }

    /// The windows a slice stands for (see [`entry_windows`]).
    pub fn windows_for(&self, e: &RingEntry) -> (r: Vec<&WindowInfo>)
        ensures
            refs_view(r@) == entry_windows(infos_view(self.windows@), e@),
    {
        if e.is_window {
            let mut r: Vec<&WindowInfo> = Vec::new();
            match &e.window {
                Some(id) => {
                    let ghost ws = infos_view(self.windows@);
                    let ghost pred = |w: WindowInfoView| w.id == id@;
                    proof {
                        reveal(Seq::filter);
                    }
                    let mut i: usize = 0;
                    while i < self.windows.len()
                        invariant
                            i <= self.windows@.len(),
                            ws == infos_view(self.windows@),
                            pred == (|w: WindowInfoView| w.id == id@),
                            refs_view(r@) == ws.take(i as int).filter(pred),
                        decreases self.windows.len() - i,
                    {
                        let w = &self.windows[i];
                        let ghost before = r@;
                        proof {
                            reveal(Seq::filter);
                            assert(ws.take(i + 1).drop_last() =~= ws.take(i as int));
                            assert(ws.take(i + 1).last() == w@);
                        }
                        if crate::text::str_is(w.id.as_str(), id.as_str()) {
                            r.push(w);
                            assert(refs_view(r@) =~= refs_view(before).push(w@));
                        }
                        i = i + 1;
                    }
                    assert(ws.take(self.windows@.len() as int) =~= ws);
                },
                None => {
                    assert(refs_view(r@) =~= Seq::<WindowInfoView>::empty());
                },
            }
            return r;
        }
        self.windows_for_class(e.wm_class.as_str())
    }

    /// The index of a slice's chosen window (see [`selected_spec`]).
    pub fn selected_window_index(&self, e: &RingEntry) -> (r: isize)
        requires
            self.windows@.len() <= isize::MAX,
        ensures
            r == selected_spec(infos_view(self.windows@), sel_view(self.win_sel@), e@),
    {
        let n = self.windows_for(e).len();
        if n == 0 {
            return -1;
        }
        let key = to_lower(e.wm_class.as_str());
        let idx = match self.sel_lookup(key.as_str()) {
            Some(i) => i,
            None => 0,
        };
        if idx >= n {
            0
        } else {
            idx as isize
        }
    }

    /// The window a slice targets (see [`window_for_spec`]).
    pub fn window_for(&self, e: &RingEntry) -> (r: Option<String>)
        requires
            self.windows@.len() <= isize::MAX,
        ensures
            opt_str(r) == window_for_spec(infos_view(self.windows@), sel_view(self.win_sel@), e@),
    {
        if e.is_window {
            return copy_opt(&e.window);
        }
        let idx = self.selected_window_index(e);
        if idx < 0 {
            return None;
        }
        let ws = self.windows_for(e);
        proof {
            assert(refs_view(ws@)[idx as int] == ws@[idx as int]@);
        }
        Some(ws[idx as usize].id.clone())
    }

    /// Scroll on a multi-window slice: the class's stored choice becomes
    /// `(choice + dir)` wrapped into the slice's window count; nothing
    /// changes for a slice with fewer than two windows.
    pub fn cycle_window(&mut self, e: &RingEntry, dir: isize)
        ensures
            ({
                let ws = infos_view(old(self).windows@);
                let n = entry_windows(ws, e@).len();
                let key = lowercase(e.wm_class@);
                let cur = match sel_get(sel_view(old(self).win_sel@), key) {
                    Some(i) => i as int,
                    None => 0,
                };
                &&& final(self).apps == old(self).apps
                &&& final(self).index == old(self).index
                &&& final(self).windows == old(self).windows
                &&& final(self).active == old(self).active
                &&& final(self).overlay_ready == old(self).overlay_ready
                &&& final(self).actions_target == old(self).actions_target
                &&& final(self).can_float == old(self).can_float
                &&& final(self).can_send_keys == old(self).can_send_keys
                &&& if n <= 1 {
                    sel_view(final(self).win_sel@) == sel_view(old(self).win_sel@)
                } else {
                    &&& sel_get(sel_view(final(self).win_sel@), key) == Some(cycled(cur, dir as int, n as int) as usize)
                    &&& forall|k: Seq<char>| k != key ==> sel_get(sel_view(final(self).win_sel@), k)
                        == sel_get(sel_view(old(self).win_sel@), k)
                }
            }),
    {
        let n = self.windows_for(e).len();
        if n <= 1 {
            return;
        }
        let key = to_lower(e.wm_class.as_str());
        let cur: usize = match self.sel_lookup(key.as_str()) {
            Some(i) => i,
            None => 0,
        };
        let s: i128 = cur as i128 + dir as i128;
        let nn: u128 = n as u128;
        let next: usize = if s >= 0 {
            ((s as u128) % nn) as usize
        } else {
            let a: u128 = ((-s) as u128) % nn;
            if a == 0 {
                0
            } else {
                (nn - a) as usize
            }
        };
        proof {
            if s < 0 {
                lemma_neg_mod(s as int, n as int);
            }
        }
        self.sel_store(key, next);
    }

    /// Stores the choice for a lowercase class: replaces the first entry of
    /// that class, or adds one.
    fn sel_store(&mut self, key: String, value: usize)
        ensures
            final(self).apps == old(self).apps,
            final(self).index == old(self).index,
            final(self).windows == old(self).windows,
            final(self).active == old(self).active,
            final(self).overlay_ready == old(self).overlay_ready,
            final(self).actions_target == old(self).actions_target,
            final(self).can_float == old(self).can_float,
            final(self).can_send_keys == old(self).can_send_keys,
            sel_get(sel_view(final(self).win_sel@), key@) == Some(value),
            forall|k: Seq<char>| k != key@ ==> sel_get(sel_view(final(self).win_sel@), k)
                == sel_get(sel_view(old(self).win_sel@), k),
    {
        let ghost sv = sel_view(self.win_sel@);
        let ghost kk = key@;
        match self.sel_position(key.as_str()) {
            Some(i) => {
                proof {
                    crate::order::lemma_first_where(sv, key_is(kk));
                }
                self.win_sel.set(i, (key, value));
                proof {
                    let nv = sel_view(self.win_sel@);
                    assert(nv[i as int] == (kk, value));
                    assert forall|j: int| 0 <= j < i implies !key_is(kk)(#[trigger] nv[j]) by {
                        assert(nv[j] == sv[j]);
                    }
                    lemma_first_found(nv, key_is(kk), i as int);
                    assert forall|k: Seq<char>| k != kk implies sel_get(nv, k) == sel_get(sv, k) by {
                        assert forall|j: int| 0 <= j < sv.len() && j != i implies #[trigger] nv[j] == sv[j] by {}
                        lemma_sel_other(sv, nv, i as int, kk, k);
                    }
                }
            },
            None => {
                proof {
                    crate::order::lemma_first_where(sv, key_is(kk));
                }
                self.win_sel.push((key, value));
                proof {
                    let nv = sel_view(self.win_sel@);
                    assert(nv =~= sv.push((kk, value)));
                    assert forall|j: int| 0 <= j < sv.len() implies !key_is(kk)(#[trigger] nv[j]) by {
                        assert(nv[j] == sv[j]);
                    }
                    lemma_first_found(nv, key_is(kk), sv.len() as int);
                    assert forall|k: Seq<char>| k != kk implies sel_get(nv, k) == sel_get(sv, k) by {
                        lemma_sel_push_other(sv, nv, kk, value, k);
                    }
                }
            },
        }
    }
}

/// Once a multi-window slice's choice is cycled, the slice targets the old
/// choice moved by `dir`, wrapped into its window count.
pub proof fn lemma_cycle_selects(ws: Seq<WindowInfoView>, sel: Seq<(Seq<char>, usize)>, e: RingEntryView, cur: int, dir: int)
    requires
        1 < entry_windows(ws, e).len() <= usize::MAX,
        sel_get(sel, lowercase(e.wm_class)) == Some(cycled(cur, dir, entry_windows(ws, e).len() as int) as usize),
    ensures
        0 <= cycled(cur, dir, entry_windows(ws, e).len() as int) < entry_windows(ws, e).len(),
        selected_spec(ws, sel, e) == cycled(cur, dir, entry_windows(ws, e).len() as int),
{
}

/// Cycling back by the same step undoes a cycle.
pub proof fn lemma_cycle_undo(cur: int, dir: int, n: int)
    requires
        n > 0,
        0 <= cur < n,
    ensures
        cycled(cycled(cur, dir, n), -dir, n) == cur,
{
    let a = cur + dir;
    vstd::arithmetic::div_mod::lemma_add_mod_noop(a, -dir, n);
    vstd::arithmetic::div_mod::lemma_mod_twice(a, n);
    vstd::arithmetic::div_mod::lemma_add_mod_noop(a % n, -dir, n);
    vstd::arithmetic::div_mod::lemma_small_mod(cur as nat, n as nat);
    assert(a + (-dir) == cur);
}

/// The Euclidean remainder of a negative number through that of its
/// negation.
proof fn lemma_neg_mod(s: int, n: int)
    requires
        s < 0,
        n > 0,
    ensures
        (-s) % n == 0 ==> s % n == 0,
        (-s) % n != 0 ==> s % n == n - (-s) % n,
{
    let a = (-s) % n;
    let q = (-s) / n;
    vstd::arithmetic::div_mod::lemma_fundamental_div_mod(-s, n);
    assert(0 <= a < n);
    if a == 0 {
        assert(s == (-q) * n + 0) by (nonlinear_arith)
            requires
                -s == n * q + a,
                a == 0,
        ;
        vstd::arithmetic::div_mod::lemma_fundamental_div_mod_converse(s, n, -q, 0);
    } else {
        assert(s == (-q - 1) * n + (n - a)) by (nonlinear_arith)
            requires
                -s == n * q + a,
        ;
        vstd::arithmetic::div_mod::lemma_fundamental_div_mod_converse(s, n, -q - 1, n - a);
    }
}

/// Replacing the entry at `i` (of class `key`) keeps every other class's
/// lookup.
proof fn lemma_sel_other(sv: Seq<(Seq<char>, usize)>, nv: Seq<(Seq<char>, usize)>, i: int, key: Seq<char>, k: Seq<char>)
    requires
        0 <= i < sv.len(),
        nv.len() == sv.len(),
        sv[i].0 == key,
        nv[i].0 == key,
        forall|j: int| 0 <= j < sv.len() && j != i ==> #[trigger] nv[j] == sv[j],
        k != key,
    ensures
        sel_get(nv, k) == sel_get(sv, k),
{
    let p = key_is(k);
    crate::order::lemma_first_where(sv, p);
    crate::order::lemma_first_where(nv, p);
    match first_where(sv, p) {
        Some(a) => {
            assert forall|j: int| 0 <= j < a implies !p(#[trigger] nv[j]) by {
                if j != i {
                    assert(nv[j] == sv[j]);
                }
            }
            assert(nv[a] == sv[a]);
            lemma_first_found(nv, p, a);
        },
        None => {
            assert forall|j: int| 0 <= j < nv.len() implies !p(#[trigger] nv[j]) by {
                if j != i {
                    assert(nv[j] == sv[j]);
                }
            }
            lemma_first_none(nv, p);
        },
    }
}

/// Appending an entry of class `key` keeps every other class's lookup.
proof fn lemma_sel_push_other(sv: Seq<(Seq<char>, usize)>, nv: Seq<(Seq<char>, usize)>, key: Seq<char>, value: usize, k: Seq<char>)
    requires
        nv == sv.push((key, value)),
        k != key,
    ensures
        sel_get(nv, k) == sel_get(sv, k),
{
    let p = key_is(k);
    crate::order::lemma_first_where(sv, p);
    match first_where(sv, p) {
        Some(a) => {
            assert forall|j: int| 0 <= j < a implies !p(#[trigger] nv[j]) by {
                assert(nv[j] == sv[j]);
            }
            assert(nv[a] == sv[a]);
            lemma_first_found(nv, p, a);
        },
        None => {
            assert forall|j: int| 0 <= j < nv.len() implies !p(#[trigger] nv[j]) by {
                if j < sv.len() {
                    assert(nv[j] == sv[j]);
                }
            }
            lemma_first_none(nv, p);
        },
    }
}

// ------------------------------------------------------ ring models

/// A character with ASCII letters folded to lowercase, as a code point.
pub open spec fn fold_ascii(c: char) -> int {
    if 'A' <= c && c <= 'Z' {
        c as int + 32
    } else {
        c as int
    }
}

/// `str::eq_ignore_ascii_case`: same length, equal after ASCII folding.
pub open spec fn eq_ignore_ascii_case(a: Seq<char>, b: Seq<char>) -> bool {
    a.len() == b.len() && forall|i: int| 0 <= i < a.len() ==> #[trigger] fold_ascii(a[i]) == fold_ascii(b[i])
}

fn fold_code(c: char) -> (r: u32)
    ensures
        r == fold_ascii(c),
{
    let x = c as u32;
    if 'A' <= c && c <= 'Z' {
        x + 32
    } else {
        x
    }
}

/// Whether two strings are equal ignoring ASCII case.
pub fn ascii_ci_eq(a: &str, b: &str) -> (r: bool)
    ensures
        r == eq_ignore_ascii_case(a@, b@),
{
    let x = chars_of(a);
    let y = chars_of(b);
    if x.len() != y.len() {
        return false;
    }
    let mut i: usize = 0;
    while i < x.len()
        invariant
            i <= x@.len(),
            x@ == a@,
            y@ == b@,
            x@.len() == y@.len(),
            forall|k: int| 0 <= k < i ==> #[trigger] fold_ascii(x@[k]) == fold_ascii(y@[k]),
        decreases x.len() - i,
    {
        if fold_code(x[i]) != fold_code(y[i]) {
            assert(fold_ascii(a@[i as int]) != fold_ascii(b@[i as int]));
            return false;
        }
        i = i + 1;
    }
    true
}

/// An apps-ring slice: the configured app at position `i`.
pub open spec fn app_entry(a: AppEntryView, i: int) -> RingEntryView {
    RingEntryView {
        name: a.name,
        icon: a.icon,
        glyph: G_APP@,
        color: a.color,
        wm_class: a.wm_class,
        window: None,
        is_window: false,
        action: None,
        app_index: Some(i as usize),
    }
}

/// The name a window's title is cleaned against: the name of the first
/// configured app of that class (ASCII case-insensitively), else the class.
pub open spec fn app_name_for(apps: Seq<AppEntryView>, cls: Seq<char>) -> Seq<char> {
    match first_where(apps, |a: AppEntryView| eq_ignore_ascii_case(a.wm_class, cls)) {
        Some(i) => apps[i].name,
        None => cls,
    }
}

/// A windows-ring slice: the window's cleaned title (its class when it has
/// no title), the icon of its class, the window itself.
pub open spec fn window_entry(index: Seq<DesktopAppView>, apps: Seq<AppEntryView>, w: WindowInfoView) -> RingEntryView {
    RingEntryView {
        name: if w.title.len() == 0 {
            w.app_id
        } else {
            clean_title_spec(w.title, app_name_for(apps, w.app_id))
        },
        icon: icon_spec(index, w.app_id, apps),
        glyph: G_APP@,
        color: Seq::empty(),
        wm_class: w.app_id,
        window: Some(w.id),
        is_window: true,
        action: None,
        app_index: None,
    }
}

/// A titled window whose class is configured (ASCII case-insensitively) is
/// labelled with its title cleaned against the name of the first such app.
pub proof fn lemma_window_label_of_configured_class(
    index: Seq<DesktopAppView>,
    apps: Seq<AppEntryView>,
    w: WindowInfoView,
    i: int,
)
    requires
        0 <= i < apps.len(),
        eq_ignore_ascii_case(apps[i].wm_class, w.app_id),
        forall|j: int| 0 <= j < i ==> !eq_ignore_ascii_case(#[trigger] apps[j].wm_class, w.app_id),
        w.title.len() > 0,
    ensures
        window_entry(index, apps, w).name == clean_title_spec(w.title, apps[i].name),
{
    let p = |a: AppEntryView| eq_ignore_ascii_case(a.wm_class, w.app_id);
    assert forall|j: int| 0 <= j < i implies !p(#[trigger] apps[j]) by {}
    lemma_first_found(apps, p, i);
}

/// A titled window of a class no app is configured for is labelled with its
/// title cleaned against the class itself.
pub proof fn lemma_window_label_of_unconfigured_class(
    index: Seq<DesktopAppView>,
    apps: Seq<AppEntryView>,
    w: WindowInfoView,
)
    requires
        forall|j: int| 0 <= j < apps.len() ==> !eq_ignore_ascii_case(#[trigger] apps[j].wm_class, w.app_id),
        w.title.len() > 0,
    ensures
        window_entry(index, apps, w).name == clean_title_spec(w.title, w.app_id),
{
    let p = |a: AppEntryView| eq_ignore_ascii_case(a.wm_class, w.app_id);
    assert forall|j: int| 0 <= j < apps.len() implies !p(#[trigger] apps[j]) by {}
    lemma_first_none(apps, p);
}

/// The windows ring's order: class lowercased, then name lowercased.
pub open spec fn entry_key(e: RingEntryView) -> Key {
    (lowercase(e.wm_class), lowercase(e.name))
}

/// The sort keys of slices.
pub open spec fn entry_keys(v: Seq<RingEntryView>) -> Seq<Key> {
    v.map_values(|e: RingEntryView| entry_key(e))
}

/// `r` is `v` stably sorted by [`entry_key`]: same-app windows adjacent,
/// each app's windows by name.
pub open spec fn grouped(v: Seq<RingEntryView>, r: Seq<RingEntryView>) -> bool {
    exists|idx: Seq<int>| #[trigger] stable_order(entry_keys(v), idx)
        && r.len() == v.len() && forall|i: int| 0 <= i < r.len() ==> #[trigger] r[i] == v[idx[i]]
}

/// An actions-ring slice: one action of the frozen target app.
pub open spec fn action_entry(app: FocusedAppView, t: ActionTemplateView) -> RingEntryView {
    RingEntryView {
        name: t.label,
        icon: t.icon,
        glyph: t.glyph,
        color: t.color,
        wm_class: app.wm_class,
        window: app.window,
        is_window: false,
        action: Some(t),
        app_index: None,
    }
}

/// The apps ring: one slice per configured app, in order.
pub open spec fn apps_ring(apps: Seq<AppEntryView>) -> Seq<RingEntryView> {
    Seq::new(apps.len(), |i: int| app_entry(apps[i], i))
}

/// Configured app `a` is the one of class `cls` (compared lowercased).
pub open spec fn same_class(a: AppEntryView, cls: Seq<char>) -> bool {
    lowercase(a.wm_class) == lowercase(cls)
}

/// The focused window merged with its configured app: none when nothing is
/// focused or the focused window has no class. Its icon is the configured
/// app's when that has one, else the class's icon; its custom actions and
/// whitelist are the configured app's.
pub open spec fn focused_spec(c: Core) -> Option<FocusedAppView> {
    match c.active {
        None => None,
        Some(w) => if w.app_id@.len() == 0 {
            None
        } else {
            let cls = w.app_id@;
            let apps = apps_view(c.apps@);
            let cfg = first_where(apps, |a: AppEntryView| same_class(a, cls));
            Some(FocusedAppView {
                icon: match cfg {
                    Some(i) if apps[i].icon.len() > 0 => apps[i].icon,
                    _ => icon_spec(c.index@, cls, apps),
                },
                wm_class: cls,
                window: Some(w.id@),
                custom_actions: match cfg {
                    Some(i) => apps[i].custom_actions,
                    None => Seq::empty(),
                },
                action_ids: match cfg {
                    Some(i) => apps[i].action_ids,
                    None => None,
                },
            })
        },
    }
}

/// The first configured app with an open window, else 0.
pub open spec fn first_running_spec(c: Core) -> int {
    let ws = infos_view(c.windows@);
    match first_where(apps_view(c.apps@), |a: AppEntryView| class_windows(ws, a.wm_class).len() > 0) {
        Some(i) => i,
        None => 0,
    }
}

impl RingEntry {
    /// A copy with the same content.
    pub fn copy(&self) -> (r: RingEntry)
        ensures
            r@ == self@,
    {
        RingEntry {
            name: self.name.clone(),
            icon: self.icon.clone(),
            glyph: self.glyph.clone(),
            color: self.color.clone(),
            wm_class: self.wm_class.clone(),
            window: copy_opt(&self.window),
            is_window: self.is_window,
            action: match &self.action {
                Some(t) => Some(t.copy()),
                None => None,
            },
            app_index: self.app_index,
        }
    }
}

impl Core {
    /// The name a class's window titles are cleaned against.
    fn app_name_of(&self, cls: &str) -> (r: String)
        ensures
            r@ == app_name_for(apps_view(self.apps@), cls@),
    {
        let ghost av = apps_view(self.apps@);
        let mut i: usize = 0;
        while i < self.apps.len()
            invariant
                i <= self.apps@.len(),
                av == apps_view(self.apps@),
                forall|j: int| 0 <= j < i ==> !eq_ignore_ascii_case((#[trigger] av[j]).wm_class, cls@),
            decreases self.apps.len() - i,
        {
            proof {
                assert(av[i as int] == self.apps@[i as int]@);
            }
            if ascii_ci_eq(self.apps[i].wm_class.as_str(), cls) {
                proof {
                    lemma_first_found(av, |a: AppEntryView| eq_ignore_ascii_case(a.wm_class, cls@), i as int);
                }
                return self.apps[i].name.clone();
            }
            i = i + 1;
        }
        proof {
            lemma_first_none(av, |a: AppEntryView| eq_ignore_ascii_case(a.wm_class, cls@));
        }
        String::from_str(cls)
    }

    /// The windows-ring slice of one window.
    fn window_slice(&self, w: &WindowInfo) -> (e: RingEntry)
        ensures
            e@ == window_entry(self.index@, apps_view(self.apps@), w@),
    {
        let name = if w.title.as_str().is_empty() {
            w.app_id.clone()
        } else {
            let app_name = self.app_name_of(w.app_id.as_str());
            clean_title(w.title.as_str(), app_name.as_str())
        };
        RingEntry {
            name,
            icon: self.index.icon_for_class(w.app_id.as_str(), self.apps.as_slice()),
            glyph: String::from_str(G_APP),
            color: String::new(),
            wm_class: w.app_id.clone(),
            window: Some(w.id.clone()),
            is_window: true,
            action: None,
            app_index: None,
        }
    }

    /// The windows ring: one slice per open window, same-app windows
    /// adjacent (classes and names compared lowercased, ties in compositor
    /// order).
    fn windows_ring(&self) -> (r: Vec<RingEntry>)
        ensures
            grouped(infos_view(self.windows@).map_values(
                |w: WindowInfoView| window_entry(self.index@, apps_view(self.apps@), w)), entries_view(r@)),
    {
        let ghost v = infos_view(self.windows@).map_values(
            |w: WindowInfoView| window_entry(self.index@, apps_view(self.apps@), w));
        let mut entries: Vec<RingEntry> = Vec::new();
        let mut keys: Vec<(Vec<char>, Vec<char>)> = Vec::new();
        let mut i: usize = 0;
        while i < self.windows.len()
            invariant
                i <= self.windows@.len(),
                v == infos_view(self.windows@).map_values(
                    |w: WindowInfoView| window_entry(self.index@, apps_view(self.apps@), w)),
                entries@.len() == i,
                keys@.len() == i,
                forall|k: int| 0 <= k < i ==> #[trigger] entries@[k]@ == v[k],
                forall|k: int| 0 <= k < i ==> #[trigger] keys_view(keys@)[k] == entry_key(v[k]),
            decreases self.windows.len() - i,
        {
            let e = self.window_slice(&self.windows[i]);
            let lc = to_lower(e.wm_class.as_str());
            let ln = to_lower(e.name.as_str());
            let ghost before = keys@;
            keys.push((chars_of(lc.as_str()), chars_of(ln.as_str())));
            entries.push(e);
            proof {
                assert(v[i as int] == window_entry(self.index@, apps_view(self.apps@), self.windows@[i as int]@));
                assert forall|k: int| 0 <= k < i + 1 implies #[trigger] keys_view(keys@)[k] == entry_key(v[k]) by {
                    if k < i {
                        assert(keys@[k] == before[k]);
                        assert(keys_view(before)[k] == entry_key(v[k]));
                    }
                }
            }
            i = i + 1;
        }
        assert(keys_view(keys@) =~= entry_keys(v));
        let idx = sort_positions(&keys);
        let ghost gidx = idx@.map_values(|p: usize| p as int);
        let mut out: Vec<RingEntry> = Vec::new();
        let mut j: usize = 0;
        while j < idx.len()
            invariant
                j <= idx@.len(),
                idx@.len() == entries@.len(),
                entries@.len() == v.len(),
                gidx == idx@.map_values(|p: usize| p as int),
                stable_order(keys_view(keys@), gidx),
                forall|k: int| 0 <= k < entries@.len() ==> #[trigger] entries@[k]@ == v[k],
                out@.len() == j,
                forall|k: int| 0 <= k < j ==> #[trigger] out@[k]@ == v[gidx[k]],
            decreases idx.len() - j,
        {
            assert(0 <= gidx[j as int] < keys_view(keys@).len());
            out.push(entries[idx[j]].copy());
            j = j + 1;
        }
        assert(stable_order(entry_keys(v), gidx));
        assert(entries_view(out@).len() == v.len());
        assert forall|k: int| 0 <= k < v.len() implies #[trigger] entries_view(out@)[k] == v[gidx[k]] by {}
        out
    }

    /// The apps ring: one slice per configured app.
    fn apps_ring(&self) -> (r: Vec<RingEntry>)
        ensures
            entries_view(r@) == apps_ring(apps_view(self.apps@)),
    {
        let ghost av = apps_view(self.apps@);
        let mut out: Vec<RingEntry> = Vec::new();
        let mut i: usize = 0;
        while i < self.apps.len()
            invariant
                i <= self.apps@.len(),
                av == apps_view(self.apps@),
                out@.len() == i,
                forall|k: int| 0 <= k < i ==> #[trigger] out@[k]@ == app_entry(av[k], k),
            decreases self.apps.len() - i,
        {
            let a = &self.apps[i];
            proof {
                assert(av[i as int] == a@);
            }
            out.push(RingEntry {
                name: a.name.clone(),
                icon: a.icon.clone(),
                glyph: String::from_str(G_APP),
                color: a.color.clone(),
                wm_class: a.wm_class.clone(),
                window: None,
                is_window: false,
                action: None,
                app_index: Some(i),
            });
            i = i + 1;
        }
        assert(entries_view(out@) =~= apps_ring(av));
        out
    }

    /// The first configured app of a class (compared lowercased).
    fn config_of(&self, cls: &str) -> (r: Option<usize>)
        ensures
            r matches Some(i) ==> i < self.apps@.len(),
            opt_int(r) == first_where(apps_view(self.apps@), |a: AppEntryView| same_class(a, cls@)),
    {
        let ghost av = apps_view(self.apps@);
        let mut i: usize = 0;
        while i < self.apps.len()
            invariant
                i <= self.apps@.len(),
                av == apps_view(self.apps@),
                forall|j: int| 0 <= j < i ==> !same_class(#[trigger] av[j], cls@),
            decreases self.apps.len() - i,
        {
            proof {
                assert(av[i as int] == self.apps@[i as int]@);
            }
            if crate::text::lower_eq(self.apps[i].wm_class.as_str(), cls) {
                proof {
                    lemma_first_found(av, |a: AppEntryView| same_class(a, cls@), i as int);
                }
                return Some(i);
            }
            i = i + 1;
        }
        proof {
            lemma_first_none(av, |a: AppEntryView| same_class(a, cls@));
        }
        None
    }

    /// The focused window merged with its configured app (see
    /// [`focused_spec`]).
    pub fn focused_app(&self) -> (r: Option<FocusedApp>)
        ensures
            match focused_spec(*self) {
                Some(f) => r matches Some(x) && x@ == f,
                None => r is None,
            },
    {
        let win = match &self.active {
            Some(w) => w,
            None => return None,
        };
        if win.app_id.as_str().is_empty() {
            return None;
        }
        let cls = win.app_id.as_str();
        let cfg = self.config_of(cls);
        let icon = match cfg {
            Some(k) if !self.apps[k].icon.as_str().is_empty() => self.apps[k].icon.clone(),
            _ => self.index.icon_for_class(cls, self.apps.as_slice()),
        };
        let (custom_actions, action_ids) = match cfg {
            Some(k) => (copy_customs(&self.apps[k].custom_actions), copy_opt_strings(&self.apps[k].action_ids)),
            None => {
                let v: Vec<CustomAction> = Vec::new();
                assert(customs_view(v@) =~= Seq::<CustomActionView>::empty());
                (v, None)
            },
        };
        Some(FocusedApp {
            icon,
            wm_class: win.app_id.clone(),
            window: Some(win.id.clone()),
            custom_actions,
            action_ids,
        })
    }

    /// First apps-ring index with an open window, else 0 (the initial
    /// selection).
    pub fn first_running_index(&self) -> (r: usize)
        ensures
            r as int == first_running_spec(*self),
            self.apps@.len() > 0 ==> r < self.apps@.len(),
    {
        let ghost ws = infos_view(self.windows@);
        let ghost av = apps_view(self.apps@);
        let mut i: usize = 0;
        while i < self.apps.len()
            invariant
                i <= self.apps@.len(),
                ws == infos_view(self.windows@),
                av == apps_view(self.apps@),
                forall|j: int| 0 <= j < i ==> !(class_windows(ws, (#[trigger] av[j]).wm_class).len() > 0),
            decreases self.apps.len() - i,
        {
            proof {
                assert(av[i as int] == self.apps@[i as int]@);
            }
            let found = self.windows_for_class(self.apps[i].wm_class.as_str());
            if found.len() > 0 {
                proof {
                    assert(refs_view(found@).len() == found@.len());
                    lemma_first_found(av, |a: AppEntryView| class_windows(ws, a.wm_class).len() > 0, i as int);
                }
                return i;
            }
            proof {
                assert(refs_view(found@).len() == found@.len());
            }
            i = i + 1;
        }
        proof {
            lemma_first_none(av, |a: AppEntryView| class_windows(ws, a.wm_class).len() > 0);
        }
        0
    }
}

// ----------------------------------------------------------- actions

/// A desktop action as a template: runs its command.
pub open spec fn desktop_template(a: DesktopActionView) -> ActionTemplateView {
    ActionTemplateView {
        id: "d:"@ + a.name,
        label: a.name,
        glyph: G_PLUS@,
        icon: Seq::empty(),
        color: Seq::empty(),
        kind: ActionKindView::Run(a.command),
    }
}

/// A window operation as a template.
pub open spec fn op_template(id: Seq<char>, label: Seq<char>, glyph: Seq<char>, kind: ActionKindView) -> ActionTemplateView {
    ActionTemplateView { id, label, glyph, icon: Seq::empty(), color: Seq::empty(), kind }
}

/// The close template.
pub open spec fn close_template() -> ActionTemplateView {
    op_template("w:close"@, "Close"@, G_CLOSE@, ActionKindView::Close)
}

/// The float template.
pub open spec fn float_template() -> ActionTemplateView {
    op_template("w:float"@, "Float"@, G_FLOAT@, ActionKindView::Float)
}

/// The fullscreen template.
pub open spec fn full_template() -> ActionTemplateView {
    op_template("w:full"@, "Fullscreen"@, G_FULL@, ActionKindView::Fullscreen)
}

/// The fallback when no action applies: open the app.
pub open spec fn open_template() -> ActionTemplateView {
    op_template("launch"@, "Open"@, G_OPEN@, ActionKindView::Launch)
}

/// Custom action `k` as a template: sends its combo.
pub open spec fn custom_template(k: int, c: CustomActionView) -> ActionTemplateView {
    ActionTemplateView {
        id: "c:"@ + crate::nums::dec(k as nat),
        label: c.label,
        glyph: G_KEY@,
        icon: c.icon,
        color: c.color,
        kind: ActionKindView::Keys(c.shortcut),
    }
}

/// Every action an app offers, in order: its desktop entry's actions (the
/// entry found for its class and `exec0`), close, float (when the
/// compositor can), fullscreen, then its custom actions.
pub open spec fn templates_spec(index: Seq<DesktopAppView>, can_float: bool, app: FocusedAppView, exec0: Seq<char>) -> Seq<ActionTemplateView> {
    let desk = match find_spec(index, app.wm_class, exec0) {
        Some(j) => index[j].actions.map_values(|a: DesktopActionView| desktop_template(a)),
        None => Seq::empty(),
    };
    desk + seq![close_template()] + (if can_float { seq![float_template()] } else { Seq::empty() })
        + seq![full_template()]
        + Seq::new(app.custom_actions.len(), |k: int| custom_template(k, app.custom_actions[k]))
}

/// Close, float and fullscreen act on a window.
pub open spec fn is_window_op(k: ActionKindView) -> bool {
    k is Close || k is Float || k is Fullscreen
}

/// A template stays: custom actions always pass the whitelist, others only
/// when whitelisted (or there is no whitelist); window operations need a
/// window.
pub open spec fn keeps(t: ActionTemplateView, ids: Option<Seq<Seq<char>>>, has_window: bool) -> bool {
    &&& (t.kind is Keys || match ids {
        Some(l) => l.contains(t.id),
        None => true,
    })
    &&& !(is_window_op(t.kind) && !has_window)
}

/// The actions offered for an app: its templates that stay, or just the
/// open fallback when none does.
pub open spec fn filtered(all: Seq<ActionTemplateView>, ids: Option<Seq<Seq<char>>>, has_window: bool) -> Seq<ActionTemplateView> {
    let kept = all.filter(|t: ActionTemplateView| keeps(t, ids, has_window));
    if kept.len() == 0 {
        seq![open_template()]
    } else {
        kept
    }
}

/// The actions ring of an app: [`filtered`] templates, where the app has a
/// window when one of its class is open or it carries one.
pub open spec fn actions_spec(c: Core, app: FocusedAppView) -> Seq<ActionTemplateView> {
    let has_window = class_windows(infos_view(c.windows@), app.wm_class).len() > 0 || app.window is Some;
    filtered(templates_spec(c.index@, c.can_float, app, Seq::empty()), app.action_ids, has_window)
}

/// Every custom action of an app is offered in its actions ring, whatever
/// its whitelist says and whether or not it has a window: for custom action
/// `k` the ring holds the action `c:<k>` that sends its combo.
pub proof fn lemma_custom_actions_always_offered(c: Core, app: FocusedAppView, k: int)
    requires
        0 <= k < app.custom_actions.len(),
    ensures
        exists|j: int|
            0 <= j < actions_spec(c, app).len() && (#[trigger] actions_spec(c, app)[j]).id == "c:"@
                + crate::nums::dec(k as nat) && actions_spec(c, app)[j].kind == ActionKindView::Keys(
                app.custom_actions[k].shortcut,
            ) && actions_spec(c, app)[j].label == app.custom_actions[k].label,
{
    let has_window = class_windows(infos_view(c.windows@), app.wm_class).len() > 0 || app.window is Some;
    let all = templates_spec(c.index@, c.can_float, app, Seq::empty());
    let desk = match find_spec(c.index@, app.wm_class, Seq::empty()) {
        Some(j) => c.index@[j].actions.map_values(|a: DesktopActionView| desktop_template(a)),
        None => Seq::empty(),
    };
    let ops = seq![close_template()] + (if c.can_float { seq![float_template()] } else { Seq::empty() })
        + seq![full_template()];
    let customs = Seq::new(app.custom_actions.len(), |k: int| custom_template(k, app.custom_actions[k]));
    assert(all =~= desk + ops + customs);
    let m = desk.len() + ops.len() + k;
    let t = custom_template(k, app.custom_actions[k]);
    assert(all[m] == t);
    let pred = |t: ActionTemplateView| keeps(t, app.action_ids, has_window);
    assert(pred(t));
    all.lemma_filter_contains(pred, m);
    let kept = all.filter(pred);
    assert(kept.contains(t));
    let j = choose|j: int| 0 <= j < kept.len() && kept[j] == t;
    assert(actions_spec(c, app) == kept);
    assert(actions_spec(c, app)[j] == t);
}

/// What a ring holds, by mode.
pub open spec fn ring_spec(c: Core, mode: Mode, r: Seq<RingEntryView>) -> bool {
    match mode {
        Mode::Apps => r == apps_ring(apps_view(c.apps@)),
        Mode::Windows => grouped(
            infos_view(c.windows@).map_values(|w: WindowInfoView| window_entry(c.index@, apps_view(c.apps@), w)),
            r,
        ),
        Mode::Actions => match c.actions_target {
            None => r.len() == 0,
            Some(app) => r == actions_spec(c, app@).map_values(|t: ActionTemplateView| action_entry(app@, t)),
        },
    }
}

/// The windows ring holds the slices of the open windows, each exactly as
/// often as the window list gives it, only reordered: so every open window's
/// id occurs in it once per window.
pub proof fn lemma_windows_ring_is_permutation(c: Core, r: Seq<RingEntryView>)
    requires
        ring_spec(c, Mode::Windows, r),
    ensures
        r.len() == c.windows@.len(),
        r.to_multiset() == infos_view(c.windows@).map_values(
            |w: WindowInfoView| window_entry(c.index@, apps_view(c.apps@), w),
        ).to_multiset(),
        r.map_values(|e: RingEntryView| e.window).to_multiset() == infos_view(c.windows@).map_values(
            |w: WindowInfoView| Some(w.id),
        ).to_multiset(),
{
    let ws = infos_view(c.windows@);
    let v = ws.map_values(|w: WindowInfoView| window_entry(c.index@, apps_view(c.apps@), w));
    let idx = choose|idx: Seq<int>| #[trigger] stable_order(entry_keys(v), idx) && r.len() == v.len()
        && forall|i: int| 0 <= i < r.len() ==> #[trigger] r[i] == v[idx[i]];
    crate::order::lemma_stable_order_distinct(entry_keys(v), idx);
    crate::order::lemma_reindex_multiset(v, idx);
    assert(r =~= Seq::new(v.len(), |i: int| v[idx[i]]));
    let vw = ws.map_values(|w: WindowInfoView| Some(w.id));
    crate::order::lemma_reindex_multiset(vw, idx);
    assert(r.map_values(|e: RingEntryView| e.window) =~= Seq::new(vw.len(), |i: int| vw[idx[i]]));
}

fn template(id: &str, label: &str, glyph: &str, kind: ActionKind) -> (t: ActionTemplate)
    ensures
        t@ == op_template(id@, label@, glyph@, kind@),
{
    ActionTemplate {
        id: String::from_str(id),
        label: String::from_str(label),
        glyph: String::from_str(glyph),
        icon: String::new(),
        color: String::new(),
        kind,
    }
}

/// Whether a list of ids holds `id`.
fn ids_contain(ids: &Vec<String>, id: &str) -> (r: bool)
    ensures
        r == views(ids@).contains(id@),
{
    let mut i: usize = 0;
    while i < ids.len()
        invariant
            i <= ids@.len(),
            forall|j: int| 0 <= j < i ==> #[trigger] ids@[j]@ != id@,
        decreases ids.len() - i,
    {
        if crate::text::str_is(ids[i].as_str(), id) {
            assert(views(ids@)[i as int] == id@);
            return true;
        }
        i = i + 1;
    }
    assert forall|j: int| 0 <= j < views(ids@).len() implies views(ids@)[j] != id@ by {
        assert(views(ids@)[j] == ids@[j]@);
    }
    false
}

/// Whether a template stays (see [`keeps`]).
fn template_stays(t: &ActionTemplate, ids: &Option<Vec<String>>, has_window: bool) -> (r: bool)
    ensures
        r == keeps(t@, opt_views(*ids), has_window),
{
    let custom = match &t.kind {
        ActionKind::Keys(_) => true,
        _ => false,
    };
    if !custom {
        if let Some(l) = ids {
            if !ids_contain(l, t.id.as_str()) {
                return false;
            }
        }
    }
    let op = match &t.kind {
        ActionKind::Close | ActionKind::Float | ActionKind::Fullscreen => true,
        _ => false,
    };
    !(op && !has_window)
}

/// The templates that stay, or the open fallback (see [`filtered`]).
pub fn filter_actions(all: Vec<ActionTemplate>, ids: &Option<Vec<String>>, has_window: bool) -> (r: Vec<ActionTemplate>)
    ensures
        templates_view(r@) == filtered(templates_view(all@), opt_views(*ids), has_window),
{
    let ghost av = templates_view(all@);
    let ghost pred = |t: ActionTemplateView| keeps(t, opt_views(*ids), has_window);
    proof {
        reveal(Seq::filter);
    }
    let mut out: Vec<ActionTemplate> = Vec::new();
    let mut i: usize = 0;
    while i < all.len()
        invariant
            i <= all@.len(),
            av == templates_view(all@),
            pred == (|t: ActionTemplateView| keeps(t, opt_views(*ids), has_window)),
            templates_view(out@) == av.take(i as int).filter(pred),
        decreases all.len() - i,
    {
        let ghost before = out@;
        proof {
            reveal(Seq::filter);
            assert(av.take(i + 1).drop_last() =~= av.take(i as int));
            assert(av.take(i + 1).last() == all@[i as int]@);
        }
        if template_stays(&all[i], ids, has_window) {
            out.push(all[i].copy());
            assert(templates_view(out@) =~= templates_view(before).push(all@[i as int]@));
        }
        i = i + 1;
    }
    assert(av.take(all@.len() as int) =~= av);
    if out.len() == 0 {
        out.push(template("launch", "Open", G_OPEN, ActionKind::Launch));
        assert(templates_view(out@) =~= seq![open_template()]);
    }
    out
}

/// The actions ring never comes up empty: with nothing else to offer it
/// holds the open fallback.
pub proof fn lemma_actions_never_empty(c: Core, app: FocusedAppView)
    ensures
        actions_spec(c, app).len() > 0,
        templates_spec(c.index@, c.can_float, app, Seq::empty()).filter(
            |t: ActionTemplateView| keeps(t, app.action_ids,
                class_windows(infos_view(c.windows@), app.wm_class).len() > 0 || app.window is Some)).len() == 0
            ==> actions_spec(c, app) == seq![open_template()],
{
}

/// Whatever target and snapshot, the actions ring has a slice exactly when
/// an app was frozen as the target.
pub proof fn lemma_actions_ring_nonempty(c: Core, r: Seq<RingEntryView>)
    requires
        ring_spec(c, Mode::Actions, r),
    ensures
        r.len() > 0 <==> c.actions_target is Some,
{
    if let Some(app) = c.actions_target {
        lemma_actions_never_empty(c, app@);
    }
}

/// The effect of launching a slice's configured app: its argv, or nothing
/// when the slice has no (valid) app.
pub open spec fn launch_of(apps: Seq<AppEntryView>, app_index: Option<usize>) -> EffectView {
    match app_index {
        Some(i) if i < apps.len() => EffectView::Launch(apps[i as int].argv),
        _ => EffectView::Nothing,
    }
}

/// The slice an action runs against: the given window, else the app's
/// chosen window of its class.
pub open spec fn probe(wm_class: Seq<char>, window: Option<Seq<char>>, app_index: Option<usize>) -> RingEntryView {
    RingEntryView {
        name: Seq::empty(),
        icon: Seq::empty(),
        glyph: Seq::empty(),
        color: Seq::empty(),
        wm_class,
        window,
        is_window: window is Some,
        action: None,
        app_index,
    }
}

/// What running an action does: a desktop action launches its command;
/// close/float/fullscreen act on the target window (nothing without one);
/// a custom combo is sent to the target window where the compositor can
/// send keys, else (like the open fallback) the app is launched.
pub open spec fn run_spec(c: Core, wm_class: Seq<char>, window: Option<Seq<char>>, app_index: Option<usize>, a: ActionTemplateView) -> EffectView {
    let ws = infos_view(c.windows@);
    let sel = sel_view(c.win_sel@);
    let target = window_for_spec(ws, sel, probe(wm_class, window, app_index));
    let apps = apps_view(c.apps@);
    match a.kind {
        ActionKindView::Run(cmd) => EffectView::Launch(cmd),
        ActionKindView::Close => match target {
            Some(id) => EffectView::Close(id),
            None => EffectView::Nothing,
        },
        ActionKindView::Float => match target {
            Some(id) => EffectView::ToggleFloat(id),
            None => EffectView::Nothing,
        },
        ActionKindView::Fullscreen => match target {
            Some(id) => EffectView::Fullscreen(id),
            None => EffectView::Nothing,
        },
        ActionKindView::Keys(combo) => match target {
            Some(id) if c.can_send_keys => EffectView::SendKeys(
                id,
                crate::shortcuts::hypr_mods_spec(crate::shortcuts::parse_spec(combo).0),
                crate::shortcuts::parse_spec(combo).1,
            ),
            _ => launch_of(apps, app_index),
        },
        ActionKindView::Launch => launch_of(apps, app_index),
    }
}

/// What activating a slice does: run its action; on a right click on an
/// app slice launch the app; else focus its target window, or launch the
/// app when it has none.
pub open spec fn activate_spec(c: Core, e: RingEntryView, right_button: bool) -> EffectView {
    match e.action {
        Some(a) => run_spec(c, e.wm_class, e.window, e.app_index, a),
        None => if right_button && !e.is_window {
            launch_of(apps_view(c.apps@), e.app_index)
        } else {
            match window_for_spec(infos_view(c.windows@), sel_view(c.win_sel@), e) {
                Some(id) => EffectView::Focus(id),
                None => launch_of(apps_view(c.apps@), e.app_index),
            }
        },
    }
}

/// An action run against a given window acts on that window: close, float
/// and fullscreen target it, and a key combo is sent to it where the
/// compositor can send keys, whatever window the class has chosen.
pub proof fn lemma_action_runs_on_given_window(
    c: Core,
    wm_class: Seq<char>,
    app_index: Option<usize>,
    a: ActionTemplateView,
    id: Seq<char>,
)
    ensures
        a.kind is Close ==> run_spec(c, wm_class, Some(id), app_index, a) == EffectView::Close(id),
        a.kind is Float ==> run_spec(c, wm_class, Some(id), app_index, a) == EffectView::ToggleFloat(id),
        a.kind is Fullscreen ==> run_spec(c, wm_class, Some(id), app_index, a) == EffectView::Fullscreen(id),
        a.kind is Keys && c.can_send_keys ==> (run_spec(c, wm_class, Some(id), app_index, a) matches EffectView::SendKeys(
            w,
            _,
            _,
        ) && w == id),
{
}

/// Activating a slice that carries an action and a window (an actions-ring
/// slice frozen on the focused window) runs the action against that very
/// window, with either button: close, float and fullscreen target it, and
/// a key combo is sent to it where the compositor can send keys.
pub proof fn lemma_activated_action_acts_on_slice_window(
    c: Core,
    e: RingEntryView,
    right_button: bool,
    a: ActionTemplateView,
    id: Seq<char>,
)
    requires
        e.action == Some(a),
        e.window == Some(id),
    ensures
        a.kind is Close ==> activate_spec(c, e, right_button) == EffectView::Close(id),
        a.kind is Float ==> activate_spec(c, e, right_button) == EffectView::ToggleFloat(id),
        a.kind is Fullscreen ==> activate_spec(c, e, right_button) == EffectView::Fullscreen(id),
        a.kind is Keys && c.can_send_keys ==> (activate_spec(c, e, right_button) matches EffectView::SendKeys(
            w,
            _,
            _,
        ) && w == id),
{
}

impl Core {
    /// Every action an app offers (see [`templates_spec`]).
    pub fn action_templates(&self, app: &FocusedApp, exec0: &str) -> (r: Vec<ActionTemplate>)
        ensures
            templates_view(r@) == templates_spec(self.index@, self.can_float, app@, exec0@),
    {
        let mut out: Vec<ActionTemplate> = Vec::new();
        let ghost mut desk: Seq<ActionTemplateView> = Seq::empty();
        match self.index.find_for(app.wm_class.as_str(), exec0) {
            Some(entry) => {
                let ghost acts = entry@.actions;
                let mut i: usize = 0;
                while i < entry.actions.len()
                    invariant
                        i <= entry.actions@.len(),
                        acts == entry@.actions,
                        out@.len() == i,
                        templates_view(out@) == acts.take(i as int).map_values(|a: DesktopActionView| desktop_template(a)),
                    decreases entry.actions.len() - i,
                {
                    let a = &entry.actions[i];
                    let mut id = String::from_str("d:");
                    crate::text::push_str(&mut id, a.name.as_str());
                    let ghost before = out@;
                    out.push(ActionTemplate {
                        id,
                        label: a.name.clone(),
                        glyph: String::from_str(G_PLUS),
                        icon: String::new(),
                        color: String::new(),
                        kind: ActionKind::Run(copy_strings(&a.command)),
                    });
                    proof {
                        assert(acts[i as int] == a@);
                        assert(out@[i as int]@ == desktop_template(a@));
                        assert(templates_view(out@) =~= templates_view(before).push(out@[i as int]@));
                        assert(acts.take(i + 1).map_values(|a: DesktopActionView| desktop_template(a)) =~=
                            acts.take(i as int).map_values(|a: DesktopActionView| desktop_template(a)).push(desktop_template(a@)));
                    }
                    i = i + 1;
                }
                proof {
                    assert(acts.take(acts.len() as int) =~= acts);
                    desk = acts.map_values(|a: DesktopActionView| desktop_template(a));
                }
            },
            None => {
                assert(templates_view(out@) =~= Seq::<ActionTemplateView>::empty());
            },
        }
        assert(templates_view(out@) == desk);
        let ghost d0 = out@;
        out.push(template("w:close", "Close", G_CLOSE, ActionKind::Close));
        if self.can_float {
            out.push(template("w:float", "Float", G_FLOAT, ActionKind::Float));
        }
        out.push(template("w:full", "Fullscreen", G_FULL, ActionKind::Fullscreen));
        let ghost fixed = templates_view(out@);
        assert(fixed =~= desk + seq![close_template()] + (if self.can_float { seq![float_template()] } else {
            Seq::empty()
        }) + seq![full_template()]);
        let ghost customs = app@.custom_actions;
        let mut k: usize = 0;
        while k < app.custom_actions.len()
            invariant
                k <= app.custom_actions@.len(),
                customs == app@.custom_actions,
                customs.len() == app.custom_actions@.len(),
                out@.len() == fixed.len() + k,
                templates_view(out@) == fixed + Seq::new(k as nat, |j: int| custom_template(j, customs[j])),
            decreases app.custom_actions.len() - k,
        {
            let c = &app.custom_actions[k];
            let mut id = String::from_str("c:");
            crate::nums::push_dec(&mut id, k as u64);
            let ghost before = out@;
            out.push(ActionTemplate {
                id,
                label: c.label.clone(),
                glyph: String::from_str(G_KEY),
                icon: c.icon.clone(),
                color: c.color.clone(),
                kind: ActionKind::Keys(c.shortcut.clone()),
            });
            proof {
                assert(customs[k as int] == c@);
                assert(out@[k + fixed.len()]@ == custom_template(k as int, c@));
                assert(templates_view(out@) =~= templates_view(before).push(out@[k + fixed.len()]@));
                assert(fixed + Seq::new((k + 1) as nat, |j: int| custom_template(j, customs[j])) =~=
                    (fixed + Seq::new(k as nat, |j: int| custom_template(j, customs[j]))).push(custom_template(k as int, c@)));
            }
            k = k + 1;
        }
        out
    }

    /// The actions offered for an app (see [`actions_spec`]).
    pub fn actions_for(&self, app: &FocusedApp) -> (r: Vec<ActionTemplate>)
        ensures
            templates_view(r@) == actions_spec(*self, app@),
            r@.len() > 0,
    {
        let has_window = self.windows_for_class(app.wm_class.as_str()).len() > 0 || app.window.is_some();
        proof {
            reveal_strlit("");
            assert(""@ =~= Seq::<char>::empty());
        }
        let all = self.action_templates(app, "");
        let r = filter_actions(all, &app.action_ids, has_window);
        proof {
            lemma_actions_never_empty(*self, app@);
        }
        r
    }

    /// The slices of a ring (see [`ring_spec`]).
    pub fn ring_model(&self, mode: Mode) -> (r: Vec<RingEntry>)
        ensures
            ring_spec(*self, mode, entries_view(r@)),
    {
        match mode {
            Mode::Apps => self.apps_ring(),
            Mode::Windows => self.windows_ring(),
            Mode::Actions => match &self.actions_target {
                None => Vec::new(),
                Some(app) => {
                    let acts = self.actions_for(app);
                    let ghost tv = templates_view(acts@);
                    let mut out: Vec<RingEntry> = Vec::new();
                    let mut i: usize = 0;
                    while i < acts.len()
                        invariant
                            i <= acts@.len(),
                            tv == templates_view(acts@),
                            out@.len() == i,
                            forall|k: int| 0 <= k < i ==> #[trigger] out@[k]@ == action_entry(app@, tv[k]),
                        decreases acts.len() - i,
                    {
                        let t = &acts[i];
                        proof {
                            assert(tv[i as int] == t@);
                        }
                        out.push(RingEntry {
                            name: t.label.clone(),
                            icon: t.icon.clone(),
                            glyph: t.glyph.clone(),
                            color: t.color.clone(),
                            wm_class: app.wm_class.clone(),
                            window: copy_opt(&app.window),
                            is_window: false,
                            action: Some(t.copy()),
                            app_index: None,
                        });
                        i = i + 1;
                    }
                    assert(entries_view(out@) =~= tv.map_values(|t: ActionTemplateView| action_entry(app@, t)));
                    out
                },
            },
        }
    }

    /// Launching a slice's configured app.
    fn launch_effect(&self, app_index: Option<usize>) -> (r: Effect)
        ensures
            r@ == launch_of(apps_view(self.apps@), app_index),
    {
        match app_index {
            Some(i) => if i < self.apps.len() {
                proof {
                    assert(apps_view(self.apps@)[i as int] == self.apps@[i as int]@);
                }
                Effect::Launch(copy_strings(&self.apps[i].argv))
            } else {
                Effect::Nothing
            },
            None => Effect::Nothing,
        }
    }

    /// Runs one action against the app's target window (see [`run_spec`]).
    pub fn run_action_on(&self, wm_class: &str, window: Option<String>, app_index: Option<usize>, a: &ActionTemplate) -> (r: Effect)
        requires
            self.windows@.len() <= isize::MAX,
        ensures
            r@ == run_spec(*self, wm_class@, opt_str(window), app_index, a@),
    {
        let is_window = window.is_some();
        let p = RingEntry {
            name: String::new(),
            icon: String::new(),
            glyph: String::new(),
            color: String::new(),
            wm_class: String::from_str(wm_class),
            window,
            is_window,
            action: None,
            app_index,
        };
        assert(p@ == probe(wm_class@, p@.window, app_index));
        match &a.kind {
            ActionKind::Run(cmd) => Effect::Launch(copy_strings(cmd)),
            ActionKind::Close => match self.window_for(&p) {
                Some(id) => Effect::Close(id),
                None => Effect::Nothing,
            },
            ActionKind::Float => match self.window_for(&p) {
                Some(id) => Effect::ToggleFloat(id),
                None => Effect::Nothing,
            },
            ActionKind::Fullscreen => match self.window_for(&p) {
                Some(id) => Effect::Fullscreen(id),
                None => Effect::Nothing,
            },
            ActionKind::Keys(combo) => match self.window_for(&p) {
                Some(id) => if self.can_send_keys {
                    let c = crate::shortcuts::parse(combo.as_str());
                    let mods = crate::shortcuts::hypr_mods(&c);
                    Effect::SendKeys(id, mods, c.key.clone())
                } else {
                    self.launch_effect(app_index)
                },
                None => self.launch_effect(app_index),
            },
            ActionKind::Launch => self.launch_effect(app_index),
        }
    }

    /// Left/right-click activation: what to do (see [`activate_spec`]), and
    /// that the launcher closes afterwards (always).
    pub fn activate_entry(&self, e: &RingEntry, right_button: bool) -> (r: (bool, Effect))
        requires
            self.windows@.len() <= isize::MAX,
        ensures
            r.0,
            r.1@ == activate_spec(*self, e@, right_button),
    {
        if let Some(action) = &e.action {
            return (true, self.run_action_on(e.wm_class.as_str(), copy_opt(&e.window), e.app_index, action));
        }
        if right_button && !e.is_window {
            return (true, self.launch_effect(e.app_index));
        }
        match self.window_for(e) {
            Some(id) => (true, Effect::Focus(id)),
            None => (true, self.launch_effect(e.app_index)),
        }
    }
}

} // verus!
