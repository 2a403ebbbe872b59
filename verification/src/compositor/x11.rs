//! The X11 / EWMH adapter's decisions: window ids, reading properties,
//! the window-manager liveness check, which clients are listed and how,
//! and the ClientMessage data of the window operations.

use vstd::prelude::*;
use crate::compositor::{WindowInfo, WindowInfoView, WindowOp};
use crate::nums::{dec, dec_string, parse_uint, parse_uint_chars, lemma_parse_dec_round_trip};
use crate::text::chars_of;

verus! {

/// What `String::from_utf8_lossy` returns for some bytes.
pub uninterp spec fn utf8_lossy(b: Seq<u8>) -> Seq<char>;

/// Bytes that are all ASCII.
pub open spec fn all_ascii(b: Seq<u8>) -> bool {
    forall|i: int| 0 <= i < b.len() ==> #[trigger] b[i] < 128
}

/// ASCII bytes as characters.
pub open spec fn ascii_chars(b: Seq<u8>) -> Seq<char> {
    b.map_values(|x: u8| x as char)
}

/// Calls `String::from_utf8_lossy`: the result is named `utf8_lossy`; for
/// all-ASCII bytes (valid UTF-8) it is those characters.
#[verifier::external_body]
fn lossy(b: &[u8]) -> (r: String)
    ensures
        r@ == utf8_lossy(b@),
        all_ascii(b@) ==> r@ == ascii_chars(b@),
{
    String::from_utf8_lossy(b).into_owned()
}

/// A window's id: its XID in decimal.
pub fn format_window_id(win: u32) -> (id: String)
    ensures
        id@ == dec(win as nat),
{
    dec_string(win as u64)
}

/// An XID read back from an id, as `u32::from_str` reads it (no hex).
pub fn parse_window_id(id: &str) -> (r: Option<u32>)
    ensures
        match parse_uint(id@, 10, 0xffff_ffff) {
            Some(v) => r == Some(v as u32),
            None => r is None,
        },
{
    let v = chars_of(id);
    match parse_uint_chars(v.as_slice(), 10, 0xffff_ffff) {
        Some(n) => Some(n as u32),
        None => None,
    }
}

/// A window id reads back as the window it was made from.
pub proof fn lemma_window_id_round_trip(win: u32)
    ensures
        parse_uint(dec(win as nat), 10, 0xffff_ffff) == Some(win as nat),
{
    lemma_parse_dec_round_trip(win as nat, 0xffff_ffff);
}

/// The first CARDINAL/WINDOW value of a 32-bit property, unless absent or
/// zero.
pub fn window_prop(values: &[u32]) -> (r: Option<u32>)
    ensures
        r == (if values@.len() > 0 && values@[0] != 0 { Some(values@[0]) } else { None }),
{
    if values.len() > 0 && values[0] != 0 {
        Some(values[0])
    } else {
        None
    }
}

/// Why a server without a live EWMH window manager is refused.
#[derive(Debug, Clone, Copy, PartialEq, Eq, Structural)]
pub enum WmCheckError {
    /// The root names no check window.
    Unset,
    /// The check window does not name itself: the manager is gone.
    Stale,
}

impl WmCheckError {
    /// The message for the log.
    pub fn message(&self) -> (m: &'static str)
        ensures
            *self == WmCheckError::Unset ==> m@ == "no EWMH window manager (_NET_SUPPORTING_WM_CHECK unset)"@,
            *self == WmCheckError::Stale ==> m@ == "stale _NET_SUPPORTING_WM_CHECK (WM gone?)"@,
    {
        match self {
            WmCheckError::Unset => "no EWMH window manager (_NET_SUPPORTING_WM_CHECK unset)",
            WmCheckError::Stale => "stale _NET_SUPPORTING_WM_CHECK (WM gone?)",
        }
    }
}

/// The EWMH liveness check: the root's `_NET_SUPPORTING_WM_CHECK` names a
/// window whose own property names itself.
pub fn wm_check(root_check: Option<u32>, self_check: Option<u32>) -> (r: Result<u32, WmCheckError>)
    ensures
        match root_check {
            None => r == Err::<u32, WmCheckError>(WmCheckError::Unset),
            Some(c) => if self_check == Some(c) {
                r == Ok::<u32, WmCheckError>(c)
            } else {
                r == Err::<u32, WmCheckError>(WmCheckError::Stale)
            },
        },
{
    match root_check {
        None => Err(WmCheckError::Unset),
        Some(c) => match self_check {
            Some(w) if w == c => Ok(c),
            _ => Err(WmCheckError::Stale),
        },
    }
}

/// WM_CLASS is `instance\0class\0`: the class part (between the first and
/// the second NUL, the trailing NUL optional) when there is a non-empty
/// one.
pub open spec fn class_bytes(raw: Seq<u8>) -> Option<Seq<u8>> {
    if exists|i: int| 0 <= i < raw.len() && raw[i] == 0 {
        let i = choose|i: int| 0 <= i < raw.len() && raw[i] == 0 && forall|j: int| 0 <= j < i ==> raw[j] != 0;
        let rest = raw.subrange(i + 1, raw.len() as int);
        let cls = if exists|k: int| 0 <= k < rest.len() && rest[k] == 0 {
            let k = choose|k: int| 0 <= k < rest.len() && rest[k] == 0 && forall|j: int| 0 <= j < k ==> rest[j] != 0;
            rest.subrange(0, k)
        } else {
            rest
        };
        if cls.len() == 0 {
            None
        } else {
            Some(cls)
        }
    } else {
        None
    }
}

/// The first NUL at or after `from`, or the end.
fn next_nul(raw: &[u8], from: usize) -> (i: usize)
    requires
        from <= raw@.len(),
    ensures
        from <= i <= raw@.len(),
        forall|j: int| from <= j < i ==> raw@[j] != 0,
        i < raw@.len() ==> raw@[i as int] == 0,
{
    let mut i = from;
    while i < raw.len() && raw[i] != 0
        invariant
            from <= i <= raw@.len(),
            forall|j: int| from <= j < i ==> raw@[j] != 0,
        decreases raw.len() - i,
    {
        i = i + 1;
    }
    i
}

/// The class half of raw WM_CLASS bytes (see [`class_bytes`]), decoded
/// lossily.
pub fn wm_class_from_bytes(raw: &[u8]) -> (r: Option<String>)
    ensures
        match class_bytes(raw@) {
            Some(c) => r matches Some(s) && s@ == utf8_lossy(c) && (all_ascii(c) ==> s@ == ascii_chars(c)),
            None => r is None,
        },
{
    let i = next_nul(raw, 0);
    if i == raw.len() {
        return None;
    }
    let k = next_nul(raw, i + 1);
    let ghost rest = raw@.subrange(i + 1, raw@.len() as int);
    proof {
        let c = choose|c: int| 0 <= c < raw@.len() && raw@[c] == 0 && forall|j: int| 0 <= j < c ==> raw@[j] != 0;
        assert(0 <= i < raw@.len() && raw@[i as int] == 0 && forall|j: int| 0 <= j < i ==> raw@[j] != 0);
        if c < i {
        } else if c > i {
            assert(raw@[i as int] != 0);
        }
        assert(c == i);
        if k < raw@.len() {
            let kk = choose|kk: int| 0 <= kk < rest.len() && rest[kk] == 0 && forall|j: int| 0 <= j < kk ==> rest[j] != 0;
            assert(rest[k - i - 1] == 0);
            if kk < k - i - 1 {
                assert(raw@[kk + i + 1] != 0);
            } else if kk > k - i - 1 {
                assert(rest[k - i - 1] != 0);
            }
        } else {
            assert forall|kk: int| 0 <= kk < rest.len() implies rest[kk] != 0 by {
                assert(rest[kk] == raw@[kk + i + 1]);
            }
        }
    }
    if k == i + 1 {
        return None;
    }
    let cls = &raw[i + 1..k];
    assert(cls@ =~= raw@.subrange(i + 1, k as int));
    assert(rest.subrange(0, (k - i - 1) as int) =~= raw@.subrange(i + 1, k as int));
    Some(lossy(cls))
}

/// How a client is listed (or that it is not): non-NORMAL windows (a
/// missing type counts as NORMAL), skip-taskbar windows and windows without
/// a class are skipped; the title is `_NET_WM_NAME`, else `WM_NAME`, else
/// empty (an empty property counting as unset).
pub open spec fn client_spec(
    win: u32,
    active: u32,
    types: Seq<u32>,
    type_normal: u32,
    states: Seq<u32>,
    skip_taskbar: u32,
    class_raw: Option<Seq<u8>>,
    net_name: Seq<u8>,
    wm_name: Seq<u8>,
) -> Option<WindowInfoView> {
    if types.len() > 0 && !types.contains(type_normal) {
        None
    } else if states.contains(skip_taskbar) {
        None
    } else {
        match class_raw {
            None => None,
            Some(raw) => match class_bytes(raw) {
                None => None,
                Some(c) => Some(WindowInfoView {
                    id: dec(win as nat),
                    app_id: utf8_lossy(c),
                    title: if net_name.len() > 0 {
                        utf8_lossy(net_name)
                    } else if wm_name.len() > 0 {
                        utf8_lossy(wm_name)
                    } else {
                        Seq::empty()
                    },
                    focused: win == active,
                }),
            },
        }
    }
}

fn holds(v: &[u32], x: u32) -> (b: bool)
    ensures
        b == v@.contains(x),
{
    let mut i: usize = 0;
    while i < v.len()
        invariant
            i <= v@.len(),
            forall|j: int| 0 <= j < i ==> v@[j] != x,
        decreases v.len() - i,
    {
        if v[i] == x {
            assert(v@[i as int] == x);
            return true;
        }
        i = i + 1;
    }
    false
}

/// One client's listing (see [`client_spec`]); `class_raw` is None when
/// WM_CLASS could not be read, the names are empty when unset.
pub fn client_info(
    win: u32,
    active: u32,
    types: &[u32],
    type_normal: u32,
    states: &[u32],
    skip_taskbar: u32,
    class_raw: Option<&[u8]>,
    net_name: &[u8],
    wm_name: &[u8],
) -> (r: Option<WindowInfo>)
    ensures
        match client_spec(win, active, types@, type_normal, states@, skip_taskbar,
            match class_raw { Some(c) => Some(c@), None => None }, net_name@, wm_name@) {
            Some(w) => r matches Some(x) && x@ == w,
            None => r is None,
        },
{
    if types.len() > 0 && !holds(types, type_normal) {
        return None;
    }
    if holds(states, skip_taskbar) {
        return None;
    }
    let raw = match class_raw {
        Some(c) => c,
        None => return None,
    };
    let app_id = match wm_class_from_bytes(raw) {
        Some(a) => a,
        None => return None,
    };
    let title = if net_name.len() > 0 {
        lossy(net_name)
    } else if wm_name.len() > 0 {
        lossy(wm_name)
    } else {
        String::new()
    };
    Some(WindowInfo { id: format_window_id(win), app_id, title, focused: win == active })
}

/// The data of a wmctrl-style ClientMessage for an operation: activation
/// as a pager request (source 2, no timestamp), close with source 2,
/// fullscreen as a `_NET_WM_STATE` toggle of the fullscreen atom.
pub fn message_data(op: WindowOp, fullscreen_atom: u32) -> (d: [u32; 5])
    ensures
        op == WindowOp::Activate ==> d@ == seq![2u32, 0, 0, 0, 0],
        op == WindowOp::Close ==> d@ == seq![0u32, 2, 0, 0, 0],
        op == WindowOp::Fullscreen ==> d@ == seq![2u32, fullscreen_atom, 0, 2, 0],
{
    let d = match op {
        WindowOp::Activate => [2, 0, 0, 0, 0],
        WindowOp::Close => [0, 2, 0, 0, 0],
        WindowOp::Fullscreen => [2, fullscreen_atom, 0, 2, 0],
    };
    assert(op == WindowOp::Activate ==> d@ =~= seq![2u32, 0, 0, 0, 0]);
    assert(op == WindowOp::Close ==> d@ =~= seq![0u32, 2, 0, 0, 0]);
    assert(op == WindowOp::Fullscreen ==> d@ =~= seq![2u32, fullscreen_atom, 0, 2, 0]);
    d
}

} // verus!
