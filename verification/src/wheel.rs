//! The wheel's interaction state machine (open/close, hover, press and
//! long-press, clicks, scroll, Esc, the per-app action arc) and the text
//! and colors the wheel shows for a slice. Hit-testing is geometry and
//! happens before these decisions: they take the slice under the pointer.

use vstd::prelude::*;
use crate::compositor::infos_view;
use crate::nums::{dec, push_dec};
use crate::ring::{Core, Mode, RingEntry, RingEntryView, entry_windows, selected_spec, sel_view, refs_view};
use crate::text::{chars_of, push_str, string_of, to_upper, uppercase};
use crate::theme::{Rgba, parse_spec};

verus! {

/// Longest window title shown in the center label before an ellipsis.
pub const TITLE_TRUNCATE: usize = 42;

/// A title cut to [`TITLE_TRUNCATE`] characters plus an ellipsis when
/// longer.
pub open spec fn truncated(t: Seq<char>) -> Seq<char> {
    if t.len() > TITLE_TRUNCATE {
        t.take(TITLE_TRUNCATE as int).push('\u{2026}')
    } else {
        t
    }
}

/// A title for the center label (see [`truncated`]).
pub fn truncate_title(t: &str) -> (r: String)
    ensures
        r@ == truncated(t@),
{
    let v = chars_of(t);
    if v.len() > TITLE_TRUNCATE {
        let mut c = crate::text::sub_chars(v.as_slice(), 0, TITLE_TRUNCATE);
        c.push('\u{2026}');
        assert(c@ =~= t@.take(TITLE_TRUNCATE as int).push('\u{2026}'));
        string_of(c.as_slice())
    } else {
        string_of(v.as_slice())
    }
}

/// The center label of a slice: with several windows, its name, the chosen
/// window's title and the choice's position (`Name  ·  title   2/3`); else
/// just its name.
pub open spec fn label_spec(c: Core, e: RingEntryView) -> Seq<char> {
    let ws = entry_windows(infos_view(c.windows@), e);
    if ws.len() > 1 {
        let s = selected_spec(infos_view(c.windows@), sel_view(c.win_sel@), e);
        let sel = if s < 0 { 0 } else { s };
        e.name + "  \u{b7}  "@ + truncated(ws[sel].title) + "   "@ + dec((sel + 1) as nat) + "/"@ + dec(ws.len())
    } else {
        e.name
    }
}

impl Core {
    /// The center label of a slice (see [`label_spec`]).
    pub fn center_label(&self, e: &RingEntry) -> (r: String)
        requires
            self.windows@.len() <= isize::MAX,
        ensures
            r@ == label_spec(*self, e@),
    {
        let ws = self.windows_for(e);
        if ws.len() <= 1 {
            return e.name.clone();
        }
        let s = self.selected_window_index(e);
        let sel: usize = if s < 0 { 0 } else { s as usize };
        proof {
            assert(refs_view(ws@)[sel as int] == ws@[sel as int]@);
        }
        let mut r = e.name.clone();
        push_str(&mut r, "  \u{b7}  ");
        let t = truncate_title(ws[sel].title.as_str());
        push_str(&mut r, t.as_str());
        push_str(&mut r, "   ");
        push_dec(&mut r, (sel + 1) as u64);
        push_str(&mut r, "/");
        push_dec(&mut r, ws.len() as u64);
        r
    }
}

/// Which slice the center label describes: the hovered one, else the
/// active one (never below 0).
pub fn label_index(hovered: i32, active: i32) -> (i: usize)
    ensures
        i == (if hovered >= 0 { hovered as int } else if active >= 0 { active as int } else { 0 }),
{
    if hovered >= 0 {
        hovered as usize
    } else if active >= 0 {
        active as usize
    } else {
        0
    }
}

/// The monogram of a slice without an icon: its name's first character,
/// uppercased (nothing for an empty name).
pub fn monogram(name: &str) -> (m: String)
    ensures
        m@ == (if name@.len() == 0 { Seq::empty() } else { uppercase(seq![name@[0]]) }),
{
    let v = chars_of(name);
    if v.len() == 0 {
        return String::new();
    }
    let first = crate::text::sub_chars(v.as_slice(), 0, 1);
    assert(first@ =~= seq![name@[0]]);
    to_upper(string_of(first.as_slice()).as_str())
}

/// The window dots under an app icon: one per window, at most six.
pub fn dot_count(windows: usize) -> (n: i32)
    ensures
        n == (if windows < 6 { windows as int } else { 6 }),
{
    if windows < 6 {
        windows as i32
    } else {
        6
    }
}

/// The wedge color of the active slice: the slice's own color when it is
/// not an action and has a valid one, else the theme's sector color.
pub fn wedge_color(e: Option<&RingEntry>, sector: Rgba) -> (c: Rgba)
    ensures
        c == (match e {
            Some(x) if x.action.is_none() => match parse_spec(x.color@) {
                Some(p) => p,
                None => sector,
            },
            _ => sector,
        }),
{
    match e {
        Some(x) => if x.action.is_none() {
            match Rgba::parse(x.color.as_str()) {
                Some(p) => p,
                None => sector,
            }
        } else {
            sector
        },
        None => sector,
    }
}

/// The tint of an arc button: the action's color, else white.
pub fn arc_tint(color: &str) -> (c: Rgba)
    ensures
        c == (match parse_spec(color@) {
            Some(p) => p,
            None => Rgba { r: 255, g: 255, b: 255, a: 255 },
        }),
{
    match Rgba::parse(color) {
        Some(p) => p,
        None => Rgba::rgb(255, 255, 255),
    }
}

// ------------------------------------------------------ state machine

/// The wheel's interaction state.
#[derive(Debug, Clone, Copy, PartialEq, Eq, Structural)]
pub struct Wheel {
    /// The ring window is open.
    pub open: bool,
    pub mode: Mode,
    /// The per-app action arc is open.
    pub arc_open: bool,
    /// The slice the pointer went down on (-1: none).
    pub down_slice: i32,
    /// A long press opened the arc: the release that follows is no click.
    pub arc_opened_by_press: bool,
    /// The settings button in the hole is showing.
    pub show_settings_btn: bool,
}

/// What the launcher does on a ring command.
#[derive(Debug, Clone, Copy, PartialEq, Eq, Structural)]
pub enum ToggleAction {
    Open(Mode),
    Close,
}

/// What a pointer move does.
#[derive(Debug, Clone, Copy, PartialEq, Eq, Structural)]
pub enum MoveAction {
    /// The arc handles its own hover.
    Ignore,
    /// Over the hole: nothing hovered; the settings-button timer starts
    /// when asked.
    Hole(bool),
    /// Over a slice (or outside, -1): the center timer stops and the
    /// settings button hides; a pending long press is cancelled when asked.
    Slice(i32, bool),
}

/// What a release does.
#[derive(Debug, Clone, Copy, PartialEq, Eq, Structural)]
pub enum UpAction {
    /// The release ends the long press that opened the arc.
    Suppressed,
    /// Inside the arc band with the arc open: back to the wheel.
    CloseArc,
    /// Close the launcher (with the fade).
    Close,
    /// Close the launcher and open the settings.
    OpenSettings,
    /// Close at once, then activate this slice.
    Activate(usize),
}

/// What Esc does.
#[derive(Debug, Clone, Copy, PartialEq, Eq, Structural)]
pub enum EscAction {
    CloseArc,
    Close,
}

/// What a ring command does: close when that very ring is open, else open
/// it.
pub open spec fn toggle_spec(w: Wheel, mode: Mode) -> ToggleAction {
    if w.open && w.mode == mode {
        ToggleAction::Close
    } else {
        ToggleAction::Open(mode)
    }
}

/// The state once the ring opened on `mode`: open, that ring, no arc.
pub open spec fn opened_spec(w: Wheel, mode: Mode) -> Wheel {
    Wheel { open: true, mode, arc_open: false, ..w }
}

/// What Esc does and the state after it.
pub open spec fn esc_spec(w: Wheel) -> (EscAction, Wheel) {
    if w.arc_open {
        (EscAction::CloseArc, Wheel { arc_open: false, ..w })
    } else {
        (EscAction::Close, if w.open { closed(w) } else { w })
    }
}

/// The state after closing: not open, no arc, no settings button.
pub open spec fn closed(w: Wheel) -> Wheel {
    Wheel { open: false, arc_open: false, show_settings_btn: false, ..w }
}

impl Wheel {
    /// Closed, on the apps ring.
    pub fn new() -> (w: Wheel)
        ensures
            !w.open,
            w.mode == Mode::Apps,
            !w.arc_open,
            w.down_slice == -1,
            !w.arc_opened_by_press,
            !w.show_settings_btn,
    {
        Wheel { open: false, mode: Mode::Apps, arc_open: false, down_slice: -1, arc_opened_by_press: false, show_settings_btn: false }
    }

    /// A ring command: close when that very ring is open, else open it.
    pub fn toggle(&self, mode: Mode) -> (a: ToggleAction)
        ensures
            a == toggle_spec(*self, mode),
    {
        if self.open && self.mode == mode {
            ToggleAction::Close
        } else {
            ToggleAction::Open(mode)
        }
    }

    /// The ring opened on `mode`, without the arc.
    pub fn opened(&mut self, mode: Mode)
        ensures
            *final(self) == opened_spec(*old(self), mode),
    {
        self.open = true;
        self.mode = mode;
        self.arc_open = false;
    }

    /// Closing: whether the ring was open (nothing happens otherwise).
    pub fn close(&mut self) -> (was_open: bool)
        ensures
            was_open == old(self).open,
            *final(self) == (if old(self).open { closed(*old(self)) } else { *old(self) }),
    {
        if !self.open {
            return false;
        }
        self.open = false;
        self.arc_open = false;
        self.show_settings_btn = false;
        true
    }

    /// The hole's settings button showed (its timer fired).
    pub fn settings_button_shown(&mut self)
        ensures
            *final(self) == (Wheel { show_settings_btn: true, ..*old(self) }),
    {
        self.show_settings_btn = true;
    }

    /// A pointer move over the hole (`in_hole`) or a slice (`slice`, -1
    /// outside); `center_timer_running` tells whether the settings-button
    /// timer already runs.
    pub fn on_moved(&mut self, in_hole: bool, slice: i32, center_timer_running: bool) -> (a: MoveAction)
        ensures
            old(self).arc_open ==> a == MoveAction::Ignore && *final(self) == *old(self),
            !old(self).arc_open && in_hole ==> a == MoveAction::Hole(!old(self).show_settings_btn && !center_timer_running)
                && *final(self) == *old(self),
            !old(self).arc_open && !in_hole ==> a == MoveAction::Slice(slice, slice >= 0 && old(self).down_slice != slice)
                && *final(self) == (Wheel { show_settings_btn: false, ..*old(self) }),
    {
        if self.arc_open {
            return MoveAction::Ignore;
        }
        if in_hole {
            return MoveAction::Hole(!self.show_settings_btn && !center_timer_running);
        }
        self.show_settings_btn = false;
        MoveAction::Slice(slice, slice >= 0 && self.down_slice != slice)
    }

    /// The pointer went down on `slice`; whether to start the long-press
    /// timer (apps ring, on a slice, arc closed).
    pub fn on_down(&mut self, slice: i32) -> (start_long_press: bool)
        ensures
            start_long_press == (old(self).mode == Mode::Apps && slice >= 0 && !old(self).arc_open),
            *final(self) == (Wheel { down_slice: slice, arc_opened_by_press: false, ..*old(self) }),
    {
        self.down_slice = slice;
        self.arc_opened_by_press = false;
        self.mode == Mode::Apps && slice >= 0 && !self.arc_open
    }

    /// The long press fired: the arc opened by this press.
    pub fn long_press_fired(&mut self)
        ensures
            *final(self) == (Wheel { arc_open: true, arc_opened_by_press: true, ..*old(self) }),
    {
        self.arc_open = true;
        self.arc_opened_by_press = true;
    }

    /// The pointer went up: over the hole (`in_hole`), inside the arc band
    /// (`in_arc_band`), on `slice` (-1 outside) of a ring of `count` slices.
    pub fn on_up(&mut self, in_hole: bool, in_arc_band: bool, slice: i32, count: usize) -> (a: UpAction)
        ensures
            ({
                let w = *old(self);
                if w.arc_opened_by_press {
                    a == UpAction::Suppressed && *final(self) == (Wheel { arc_opened_by_press: false, ..w })
                } else if w.arc_open {
                    if in_arc_band {
                        a == UpAction::CloseArc && *final(self) == (Wheel { arc_open: false, ..w })
                    } else {
                        a == UpAction::Close && *final(self) == (if w.open { closed(w) } else { w })
                    }
                } else if in_hole {
                    (if w.show_settings_btn { a == UpAction::OpenSettings } else { a == UpAction::Close })
                        && *final(self) == (if w.open { closed(w) } else { w })
                } else if 0 <= slice < count {
                    a == UpAction::Activate(slice as usize) && *final(self) == (if w.open { closed(w) } else { w })
                } else {
                    a == UpAction::Close && *final(self) == (if w.open { closed(w) } else { w })
                }
            }),
    {
        if self.arc_opened_by_press {
            self.arc_opened_by_press = false;
            return UpAction::Suppressed;
        }
        if self.arc_open {
            if in_arc_band {
                self.arc_open = false;
                return UpAction::CloseArc;
            }
            self.close();
            return UpAction::Close;
        }
        if in_hole {
            let settings = self.show_settings_btn;
            self.close();
            return if settings { UpAction::OpenSettings } else { UpAction::Close };
        }
        if slice >= 0 && (slice as usize) < count {
            self.close();
            return UpAction::Activate(slice as usize);
        }
        self.close();
        UpAction::Close
    }

    /// A scroll over `slice` of a ring of `count` slices: the slice whose
    /// window choice cycles (not on the actions ring).
    pub fn on_scroll(&self, slice: i32, count: usize) -> (r: Option<usize>)
        ensures
            r == (if self.mode != Mode::Actions && 0 <= slice < count { Some(slice as usize) } else { None }),
    {
        if self.mode == Mode::Actions || slice < 0 || slice as usize >= count {
            None
        } else {
            Some(slice as usize)
        }
    }

    /// Esc: closes the arc when open, else the launcher.
    pub fn on_esc(&mut self) -> (a: EscAction)
        ensures
            (a, *final(self)) == esc_spec(*old(self)),
    {
        if self.arc_open {
            self.arc_open = false;
            return EscAction::CloseArc;
        }
        self.close();
        EscAction::Close
    }

    /// An arc button was clicked: whether it runs (the arc is open and the
    /// button exists), after which the launcher closes at once.
    pub fn on_arc_clicked(&mut self, idx: i32, count: usize) -> (run: bool)
        ensures
            run == (old(self).arc_open && 0 <= idx < count),
            run ==> *final(self) == (if old(self).open { closed(*old(self)) } else { *old(self) }),
            !run ==> *final(self) == *old(self),
    {
        if self.arc_open && idx >= 0 && (idx as usize) < count {
            self.close();
            true
        } else {
            false
        }
    }

    /// A new window list rebuilds an open ring.
    pub fn rebuild_on_windows(&self) -> (b: bool)
        ensures
            b == self.open,
    {
        self.open
    }

    /// A focus change rebuilds an open actions ring.
    pub fn rebuild_on_active(&self) -> (b: bool)
        ensures
            b == (self.open && self.mode == Mode::Actions),
    {
        self.open && self.mode == Mode::Actions
    }
}

/// A ring command opens a closed launcher on that ring, and the same
/// command on the ring it opened closes it again.
pub proof fn lemma_toggle_round_trip(w: Wheel, mode: Mode)
    ensures
        !w.open ==> toggle_spec(w, mode) == ToggleAction::Open(mode),
        toggle_spec(opened_spec(w, mode), mode) == ToggleAction::Close,
{
}

/// Esc backs out one level: with the arc open it closes only the arc and
/// the launcher stays open; a second Esc closes the launcher.
pub proof fn lemma_esc_backs_out(w: Wheel)
    requires
        w.open,
        w.arc_open,
    ensures
        esc_spec(w).0 == EscAction::CloseArc,
        esc_spec(w).1.open,
        esc_spec(esc_spec(w).1).0 == EscAction::Close,
        !esc_spec(esc_spec(w).1).1.open,
{
}

} // verus!
