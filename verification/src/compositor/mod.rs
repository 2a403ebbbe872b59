//! What every compositor adapter reports: open windows and focus changes.
//! The adapters' own decisions (state decoding, window registries, event
//! classification, request strings) live in the submodules; the adapters'
//! I/O lives with the daemon.

pub mod registry;
pub mod plasma;
pub mod wlr;
pub mod x11;
pub mod hyprland;
pub mod windows;

use vstd::prelude::*;

verus! {

/// Opaque per-window identifier, stable while the window lives.
/// Hyprland: the `address` hex string; wlr: the toplevel handle's protocol
/// id; X11 and Win32: the window handle in decimal.
pub type WindowId = String;

/// One open window as an adapter reports it.
#[derive(Debug, Clone, PartialEq)]
pub struct WindowInfo {
    pub id: WindowId,
    /// Wayland app_id (== X11/ipc "class"); used to match desktop entries.
    pub app_id: String,
    pub title: String,
    pub focused: bool,
}

/// The character-level content of a [`WindowInfo`].
pub struct WindowInfoView {
    pub id: Seq<char>,
    pub app_id: Seq<char>,
    pub title: Seq<char>,
    pub focused: bool,
}

impl View for WindowInfo {
    type V = WindowInfoView;

    open spec fn view(&self) -> WindowInfoView {
        WindowInfoView { id: self.id@, app_id: self.app_id@, title: self.title@, focused: self.focused }
    }
}

impl WindowInfo {
    /// A copy with the same content.
    pub fn copy(&self) -> (r: WindowInfo)
        ensures
            r@ == self@,
    {
        WindowInfo {
            id: self.id.clone(),
            app_id: self.app_id.clone(),
            title: self.title.clone(),
            focused: self.focused,
        }
    }
}

impl Default for WindowInfo {
    fn default() -> (r: WindowInfo)
        ensures
            r@.id == Seq::<char>::empty(),
            r@.app_id == Seq::<char>::empty(),
            r@.title == Seq::<char>::empty(),
            !r.focused,
    {
        WindowInfo { id: String::new(), app_id: String::new(), title: String::new(), focused: false }
    }
}

/// The windows' contents, in order.
pub open spec fn infos_view(v: Seq<WindowInfo>) -> Seq<WindowInfoView> {
    v.map_values(|w: WindowInfo| w@)
}

/// A copy of a window list with the same contents.
pub fn copy_infos(v: &Vec<WindowInfo>) -> (r: Vec<WindowInfo>)
    ensures
        infos_view(r@) == infos_view(v@),
{
    let mut r: Vec<WindowInfo> = Vec::new();
    let mut i: usize = 0;
    while i < v.len()
        invariant
            i <= v@.len(),
            r@.len() == i,
            forall|k: int| 0 <= k < i ==> #[trigger] r@[k]@ == v@[k]@,
        decreases v.len() - i,
    {
        r.push(v[i].copy());
        i = i + 1;
    }
    assert(infos_view(r@) =~= infos_view(v@));
    r
}

/// A window operation the UI asks an adapter for.
#[derive(Debug, Clone, Copy, PartialEq, Eq, Structural)]
pub enum WindowOp {
    Activate,
    Close,
    Fullscreen,
}

/// Pushed by an adapter whenever the window set changes.
#[derive(Debug, Clone)]
pub enum CompositorEvent {
    /// Full refreshed window list (order = compositor order).
    Windows(Vec<WindowInfo>),
    /// Currently focused window changed (None = nothing focused).
    Active(Option<WindowInfo>),
    /// The compositor reloaded its config (Hyprland): keyword-applied binds
    /// and window rules were wiped and must be re-applied.
    ConfigReloaded,
}

/// A window-listing backend an adapter connects to.
#[derive(Debug, Clone, Copy, PartialEq, Eq, Structural)]
pub enum Backend {
    Windows,
    Hyprland,
    Wlr,
    Plasma,
    X11,
}

/// The backends to try, in order, on this platform and session: on
/// Windows only the win32 adapter; elsewhere Hyprland when its instance
/// signature is set, then wlr-foreign-toplevel and KDE Plasma on a Wayland
/// session, or plain X11 when there is only an X display. When every
/// attempt fails the rings run without window listing.
pub open spec fn detect_order_spec(windows: bool, hyprland: bool, wayland: bool, x11: bool) -> Seq<Backend> {
    if windows {
        seq![Backend::Windows]
    } else {
        let first: Seq<Backend> = if hyprland { seq![Backend::Hyprland] } else { Seq::empty() };
        if wayland {
            first + seq![Backend::Wlr, Backend::Plasma]
        } else if x11 {
            first.push(Backend::X11)
        } else {
            first
        }
    }
}

/// The order in which to try the adapters (see [`detect_order_spec`]).
pub fn detect_order(windows: bool, hyprland: bool, wayland: bool, x11: bool) -> (r: Vec<Backend>)
    ensures
        r@ == detect_order_spec(windows, hyprland, wayland, x11),
{
    let mut r: Vec<Backend> = Vec::new();
    if windows {
        r.push(Backend::Windows);
        assert(r@ =~= seq![Backend::Windows]);
        return r;
    }
    if hyprland {
        r.push(Backend::Hyprland);
    }
    let ghost first = r@;
    if wayland {
        r.push(Backend::Wlr);
        r.push(Backend::Plasma);
        assert(r@ =~= first + seq![Backend::Wlr, Backend::Plasma]);
    } else if x11 {
        r.push(Backend::X11);
    }
    proof {
        if hyprland {
            assert(first =~= seq![Backend::Hyprland]);
        } else {
            assert(first =~= Seq::<Backend>::empty());
        }
    }
    r
}

} // verus!
