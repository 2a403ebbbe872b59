//! The wlr-foreign-toplevel adapter's decisions: decoding a toplevel's
//! state array, which events publish, and the requests for the window
//! operations.

use vstd::prelude::*;
use crate::compositor::WindowOp;
use crate::compositor::registry::{WindowRegistry, changed, lookup, updated, TrackedView};

verus! {

/// The little-endian value of four bytes.
pub open spec fn le_u32(b: Seq<u8>) -> int {
    b[0] + 256 * b[1] + 65536 * b[2] + 16777216 * b[3]
}

/// The big-endian value of four bytes.
pub open spec fn be_u32(b: Seq<u8>) -> int {
    b[3] + 256 * b[2] + 65536 * b[1] + 16777216 * b[0]
}

/// Calls `u32::from_ne_bytes`: the bytes read in the machine's byte order,
/// which is little- or big-endian.
#[verifier::external_body]
fn u32_from_ne(b: [u8; 4]) -> (r: u32)
    ensures
        r == le_u32(b@) || r == be_u32(b@),
{
    u32::from_ne_bytes(b)
}

/// The state array of a toplevel as native-endian `u32` values: one per
/// whole 4-byte chunk, a trailing partial chunk ignored.
pub fn state_values(raw: &[u8]) -> (v: Vec<u32>)
    ensures
        v@.len() == raw@.len() / 4,
        forall|k: int| 0 <= k < v@.len() ==> (#[trigger] v@[k] == le_u32(raw@.subrange(4 * k, 4 * k + 4))
            || v@[k] == be_u32(raw@.subrange(4 * k, 4 * k + 4))),
{
    let n = raw.len() / 4;
    let mut v: Vec<u32> = Vec::new();
    let mut k: usize = 0;
    while k < n
        invariant
            k <= n,
            n == raw@.len() / 4,
            v@.len() == k,
            forall|j: int| 0 <= j < k ==> (#[trigger] v@[j] == le_u32(raw@.subrange(4 * j, 4 * j + 4))
                || v@[j] == be_u32(raw@.subrange(4 * j, 4 * j + 4))),
        decreases n - k,
    {
        let len = raw.len();
        assert(4 * k + 4 <= len) by (nonlinear_arith)
            requires
                k < n,
                n == len / 4,
        ;
        let b = [raw[4 * k], raw[4 * k + 1], raw[4 * k + 2], raw[4 * k + 3]];
        assert(b@ =~= raw@.subrange(4 * k, 4 * k + 4));
        v.push(u32_from_ne(b));
        k = k + 1;
    }
    v
}

/// Per the protocol's state enum: 2 = activated, 3 = fullscreen.
pub fn toplevel_flags(values: &[u32]) -> (r: (bool, bool))
    ensures
        r.0 == values@.contains(2u32),
        r.1 == values@.contains(3u32),
{
    let mut activated = false;
    let mut fullscreen = false;
    let mut i: usize = 0;
    while i < values.len()
        invariant
            i <= values@.len(),
            activated == values@.take(i as int).contains(2u32),
            fullscreen == values@.take(i as int).contains(3u32),
        decreases values.len() - i,
    {
        proof {
            assert(values@.take(i + 1) =~= values@.take(i as int).push(values@[i as int]));
        }
        if values[i] == 2 {
            activated = true;
        }
        if values[i] == 3 {
            fullscreen = true;
        }
        proof {
            let t = values@.take(i + 1);
            if activated && !values@.take(i as int).contains(2u32) {
                assert(t[i as int] == 2u32);
            }
            if !activated {
                assert forall|j: int| 0 <= j < t.len() implies t[j] != 2u32 by {
                    if j < i {
                        assert(t[j] == values@.take(i as int)[j]);
                    }
                }
            }
            if fullscreen && !values@.take(i as int).contains(3u32) {
                assert(t[i as int] == 3u32);
            }
            if !fullscreen {
                assert forall|j: int| 0 <= j < t.len() implies t[j] != 3u32 by {
                    if j < i {
                        assert(t[j] == values@.take(i as int)[j]);
                    }
                }
            }
            if values@.take(i as int).contains(2u32) {
                let j = choose|j: int| 0 <= j < i && values@.take(i as int)[j] == 2u32;
                assert(t[j] == 2u32);
            }
            if values@.take(i as int).contains(3u32) {
                let j = choose|j: int| 0 <= j < i && values@.take(i as int)[j] == 3u32;
                assert(t[j] == 3u32);
            }
        }
        i = i + 1;
    }
    assert(values@.take(values@.len() as int) =~= values@);
    (activated, fullscreen)
}

/// What a toplevel handle event carries (the state already decoded).
pub enum ToplevelEvent {
    Title(String),
    AppId(String),
    State(bool, bool),
    Done,
    Closed,
}

/// Applies one toplevel event to the registry; whether to publish now:
/// only a `done` batch end or a close publishes.
pub fn on_toplevel_event(reg: &mut WindowRegistry, id: &str, ev: ToplevelEvent) -> (publish: bool)
    ensures
        final(reg)@.watching == old(reg)@.watching,
        final(reg)@.last_active == old(reg)@.last_active,
        match ev {
            ToplevelEvent::Title(t) => {
                &&& final(reg)@.windows == updated(old(reg)@.windows, id@,
                    |x: TrackedView| changed(x, Some(t@), None, None, false))
                &&& final(reg)@.order == old(reg)@.order
                &&& !publish
            },
            ToplevelEvent::AppId(a) => {
                &&& final(reg)@.windows == updated(old(reg)@.windows, id@,
                    |x: TrackedView| changed(x, None, Some(a@), None, false))
                &&& final(reg)@.order == old(reg)@.order
                &&& !publish
            },
            ToplevelEvent::State(act, fs) => {
                &&& final(reg)@.windows == updated(old(reg)@.windows, id@,
                    |x: TrackedView| changed(x, None, None, Some((act, fs, false)), false))
                &&& final(reg)@.order == old(reg)@.order
                &&& !publish
            },
            ToplevelEvent::Done => {
                &&& final(reg)@.windows == old(reg)@.windows
                &&& final(reg)@.order == old(reg)@.order
                &&& publish
            },
            ToplevelEvent::Closed => {
                &&& lookup(final(reg)@.windows, id@) is None
                &&& forall|k: Seq<char>| k != id@ ==> lookup(final(reg)@.windows, k) == lookup(old(reg)@.windows, k)
                &&& final(reg)@.order == old(reg)@.order.filter(|o: Seq<char>| o != id@)
                &&& publish
            },
        },
{
    match ev {
        ToplevelEvent::Title(t) => {
            reg.set_title(id, t);
            false
        },
        ToplevelEvent::AppId(a) => {
            reg.set_app_id(id, a);
            false
        },
        ToplevelEvent::State(act, fs) => {
            reg.set_state(id, act, fs, false);
            false
        },
        ToplevelEvent::Done => true,
        ToplevelEvent::Closed => {
            reg.remove(id);
            true
        },
    }
}

/// A request on a toplevel handle.
#[derive(Debug, Clone, Copy, PartialEq, Eq, Structural)]
pub enum WlrRequest {
    Activate,
    Close,
    SetFullscreen,
    UnsetFullscreen,
}

/// The request for an operation on a window (`fullscreen`: whether it is
/// fullscreen now): fullscreen toggles.
pub fn request_for(op: WindowOp, fullscreen: bool) -> (r: WlrRequest)
    ensures
        op == WindowOp::Activate ==> r == WlrRequest::Activate,
        op == WindowOp::Close ==> r == WlrRequest::Close,
        op == WindowOp::Fullscreen ==> r == (if fullscreen { WlrRequest::UnsetFullscreen } else { WlrRequest::SetFullscreen }),
{
    match op {
        WindowOp::Activate => WlrRequest::Activate,
        WindowOp::Close => WlrRequest::Close,
        WindowOp::Fullscreen => if fullscreen {
            WlrRequest::UnsetFullscreen
        } else {
            WlrRequest::SetFullscreen
        },
    }
}

} // verus!
