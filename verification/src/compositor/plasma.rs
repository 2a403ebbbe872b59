//! The KDE Plasma window-management adapter's decisions: the state bits it
//! acts on, window keys, which events publish, and the requests for the
//! window operations.

use vstd::prelude::*;
use crate::compositor::WindowOp;
use crate::compositor::registry::{WindowRegistry, changed, lookup, updated, TrackedView};
use crate::nums::{dec, dec_string};
use wayland_protocols_plasma::plasma_window_management::client::org_kde_plasma_window_management::State;

verus! {

/// The `active` bit of `org_kde_plasma_window_management.state`.
#[verifier::external_body]
fn state_active() -> (r: u32)
    ensures
        r == 0x1,
{
    State::Active as u32
}

/// The `fullscreen` bit of `org_kde_plasma_window_management.state`.
#[verifier::external_body]
fn state_fullscreen() -> (r: u32)
    ensures
        r == 0x8,
{
    State::Fullscreen as u32
}

/// The `skiptaskbar` bit of `org_kde_plasma_window_management.state`.
#[verifier::external_body]
fn state_skiptaskbar() -> (r: u32)
    ensures
        r == 0x1000,
{
    State::Skiptaskbar as u32
}

/// The protocol version that has `initial_state` (and `destroy`).
pub const VERSION_INITIAL_STATE: u32 = 4;

/// The state bits acted on, decoded from a `state_changed` bitfield.
#[derive(Debug, Clone, Copy, PartialEq, Eq, Structural)]
pub struct StateFlags {
    pub active: bool,
    pub fullscreen: bool,
    pub skiptaskbar: bool,
}

/// Reads the active, fullscreen and skiptaskbar bits; others are ignored.
pub fn decode_state(flags: u32) -> (s: StateFlags)
    ensures
        s.active == (flags & 0x1u32 != 0),
        s.fullscreen == (flags & 0x8u32 != 0),
        s.skiptaskbar == (flags & 0x1000u32 != 0),
{
    StateFlags {
        active: flags & state_active() != 0,
        fullscreen: flags & state_fullscreen() != 0,
        skiptaskbar: flags & state_skiptaskbar() != 0,
    }
}

/// The registry key of an announced window: its uuid, or its numeric id
/// in decimal when the uuid is empty.
pub fn window_key(id: u32, uuid: &str) -> (k: String)
    ensures
        k@ == (if uuid@.len() == 0 { dec(id as nat) } else { uuid@ }),
{
    if uuid.is_empty() {
        dec_string(id as u64)
    } else {
        String::from_str(uuid)
    }
}

/// A window bound at a version without `initial_state` publishes every
/// change at once.
pub fn initialized_at(version: u32) -> (b: bool)
    ensures
        b == (version < VERSION_INITIAL_STATE),
{
    version < VERSION_INITIAL_STATE
}

/// An unmapped window's proxy is destroyed where the version has
/// `destroy`.
pub fn destroy_at(version: u32) -> (b: bool)
    ensures
        b == (version >= VERSION_INITIAL_STATE),
{
    version >= VERSION_INITIAL_STATE
}

/// What a per-window event carries.
pub enum WindowEvent {
    TitleChanged(String),
    AppIdChanged(String),
    StateChanged(u32),
    InitialState,
    Unmapped,
}

/// Applies one window event to the registry; whether to publish now:
/// property changes publish only once the window's initial burst is over,
/// `initial_state` and `unmapped` always publish.
pub fn on_window_event(reg: &mut WindowRegistry, id: &str, ev: WindowEvent) -> (publish: bool)
    ensures
        final(reg)@.watching == old(reg)@.watching,
        final(reg)@.last_active == old(reg)@.last_active,
        match ev {
            WindowEvent::TitleChanged(t) => {
                &&& final(reg)@.windows == updated(old(reg)@.windows, id@,
                    |x: TrackedView| changed(x, Some(t@), None, None, false))
                &&& final(reg)@.order == old(reg)@.order
                &&& publish == (lookup(final(reg)@.windows, id@) matches Some(x) && x.initialized)
            },
            WindowEvent::AppIdChanged(a) => {
                &&& final(reg)@.windows == updated(old(reg)@.windows, id@,
                    |x: TrackedView| changed(x, None, Some(a@), None, false))
                &&& final(reg)@.order == old(reg)@.order
                &&& publish == (lookup(final(reg)@.windows, id@) matches Some(x) && x.initialized)
            },
            WindowEvent::StateChanged(f) => {
                &&& final(reg)@.windows == updated(old(reg)@.windows, id@,
                    |x: TrackedView| changed(x, None, None, Some((f & 0x1u32 != 0, f & 0x8u32 != 0, f & 0x1000u32 != 0)), false))
                &&& final(reg)@.order == old(reg)@.order
                &&& publish == (lookup(final(reg)@.windows, id@) matches Some(x) && x.initialized)
            },
            WindowEvent::InitialState => {
                &&& final(reg)@.windows == updated(old(reg)@.windows, id@,
                    |x: TrackedView| changed(x, None, None, None, true))
                &&& final(reg)@.order == old(reg)@.order
                &&& publish
            },
            WindowEvent::Unmapped => {
                &&& lookup(final(reg)@.windows, id@) is None
                &&& forall|k: Seq<char>| k != id@ ==> lookup(final(reg)@.windows, k) == lookup(old(reg)@.windows, k)
                &&& final(reg)@.order == old(reg)@.order.filter(|o: Seq<char>| o != id@)
                &&& publish
            },
        },
{
    match ev {
        WindowEvent::TitleChanged(t) => {
            reg.set_title(id, t);
            reg.is_initialized(id)
        },
        WindowEvent::AppIdChanged(a) => {
            reg.set_app_id(id, a);
            reg.is_initialized(id)
        },
        WindowEvent::StateChanged(f) => {
            let s = decode_state(f);
            reg.set_state(id, s.active, s.fullscreen, s.skiptaskbar);
            reg.is_initialized(id)
        },
        WindowEvent::InitialState => {
            reg.mark_initialized(id);
            true
        },
        WindowEvent::Unmapped => {
            reg.remove(id);
            true
        },
    }
}

/// A `set_state(flags, state)` request, or `close`.
#[derive(Debug, Clone, Copy, PartialEq, Eq, Structural)]
pub enum PlasmaRequest {
    SetState(u32, u32),
    Close,
}

/// The request for an operation on a window (`fullscreen`: whether it is
/// fullscreen now): activate sets the active bit, fullscreen toggles the
/// fullscreen bit, close closes.
pub fn request_for(op: WindowOp, fullscreen: bool) -> (r: PlasmaRequest)
    ensures
        op == WindowOp::Activate ==> r == PlasmaRequest::SetState(0x1, 0x1),
        op == WindowOp::Close ==> r == PlasmaRequest::Close,
        op == WindowOp::Fullscreen ==> r == PlasmaRequest::SetState(0x8, if fullscreen { 0 } else { 0x8 }),
{
    match op {
        WindowOp::Activate => PlasmaRequest::SetState(state_active(), state_active()),
        WindowOp::Close => PlasmaRequest::Close,
        WindowOp::Fullscreen => {
            let bit = state_fullscreen();
            PlasmaRequest::SetState(bit, if fullscreen { 0 } else { bit })
        },
    }
}

} // verus!
