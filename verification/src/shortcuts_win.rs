//! The Windows hotkey provider's decisions: which combos to register, the
//! hotkey id of each ring, the RegisterHotKey modifier flags and the
//! virtual-key code of a key name.

use vstd::prelude::*;
use crate::config::KeybindSettings;
use crate::keys::{fkey_number, fkey_of};
use crate::shortcuts::{combo_entry, combos_view, push_combo, Combo};
use crate::text::{chars_of, lowercase, str_is, to_lower};

verus! {

/// `MOD_ALT` of RegisterHotKey.
pub const MOD_ALT: u32 = 0x0001;
/// `MOD_CONTROL` of RegisterHotKey.
pub const MOD_CONTROL: u32 = 0x0002;
/// `MOD_SHIFT` of RegisterHotKey.
pub const MOD_SHIFT: u32 = 0x0004;
/// `MOD_WIN` of RegisterHotKey.
pub const MOD_WIN: u32 = 0x0008;
/// `MOD_NOREPEAT`: a held key does not repeat the hotkey.
pub const MOD_NOREPEAT: u32 = 0x4000;

/// The (ring, combo) pairs to register: one per ring whose combo is usable,
/// in ring order. (The master toggle is not consulted here.)
pub open spec fn combos_of_spec(s: KeybindSettings) -> Seq<(Seq<char>, (Seq<Seq<char>>, Seq<char>))> {
    combo_entry(s, "apps"@) + combo_entry(s, "windows"@) + combo_entry(s, "actions"@)
}

/// (ring, combo) pairs to register for these settings.
pub fn combos_of(s: &KeybindSettings) -> (r: Vec<(&'static str, Combo)>)
    ensures
        combos_view(r@) == combos_of_spec(*s),
{
    let mut out: Vec<(&'static str, Combo)> = Vec::new();
    assert(combos_view(out@) =~= Seq::<(Seq<char>, (Seq<Seq<char>>, Seq<char>))>::empty());
    push_combo(&mut out, s, "apps");
    push_combo(&mut out, s, "windows");
    push_combo(&mut out, s, "actions");
    assert(combos_view(out@) =~= combos_of_spec(*s));
    out
}

/// The stable hotkey id of a ring (the WM_HOTKEY wParam); 0 for anything
/// that is not a ring.
pub open spec fn id_spec(mode: Seq<char>) -> i32 {
    if mode == "apps"@ {
        1
    } else if mode == "windows"@ {
        2
    } else if mode == "actions"@ {
        3
    } else {
        0
    }
}

/// The ring of a hotkey id.
pub open spec fn mode_spec(id: i32) -> Option<Seq<char>> {
    if id == 1 {
        Some("apps"@)
    } else if id == 2 {
        Some("windows"@)
    } else if id == 3 {
        Some("actions"@)
    } else {
        None
    }
}

/// Hotkey id of a ring.
pub fn id_for_mode(mode: &str) -> (id: i32)
    ensures
        id == id_spec(mode@),
{
    if str_is(mode, "apps") {
        1
    } else if str_is(mode, "windows") {
        2
    } else if str_is(mode, "actions") {
        3
    } else {
        0
    }
}

/// Ring of a hotkey id.
pub fn mode_for_id(id: i32) -> (m: Option<&'static str>)
    ensures
        match m {
            Some(s) => mode_spec(id) == Some(s@),
            None => mode_spec(id) is None,
        },
{
    proof {
        reveal_strlit("apps");
        reveal_strlit("windows");
        reveal_strlit("actions");
    }
    if id == 1 {
        Some("apps")
    } else if id == 2 {
        Some("windows")
    } else if id == 3 {
        Some("actions")
    } else {
        None
    }
}

/// A hotkey id and its ring undo each other: every ring's id leads back to
/// the ring, and every id that names a ring is that ring's id.
pub proof fn lemma_id_round_trip(mode: Seq<char>, id: i32)
    ensures
        id_spec(mode) != 0 ==> mode_spec(id_spec(mode)) == Some(mode),
        id_spec(mode) == 0 <==> !(mode == "apps"@ || mode == "windows"@ || mode == "actions"@),
        mode_spec(id) matches Some(m) ==> id_spec(m) == id,
{
    reveal_strlit("apps");
    reveal_strlit("windows");
    reveal_strlit("actions");
    assert("apps"@ != "windows"@ && "apps"@ != "actions"@) by {
        assert("apps"@.len() != "windows"@.len());
    }
    assert("windows"@ != "actions"@) by {
        assert("windows"@[0] != "actions"@[0]);
    }
}

/// The RegisterHotKey flag of one combo modifier.
pub open spec fn win_mod_bit(m: Seq<char>) -> u32 {
    if m == "ctrl"@ || m == "control"@ {
        MOD_CONTROL
    } else if m == "alt"@ {
        MOD_ALT
    } else if m == "shift"@ {
        MOD_SHIFT
    } else if m == "super"@ || m == "meta"@ {
        MOD_WIN
    } else {
        0
    }
}

/// The flags of a run of modifiers, on top of `MOD_NOREPEAT`.
pub open spec fn win_mods_of(mods: Seq<Seq<char>>) -> u32
    decreases mods.len(),
{
    if mods.len() == 0 {
        MOD_NOREPEAT
    } else {
        win_mods_of(mods.drop_last()) | win_mod_bit(mods.last())
    }
}

fn win_mod_bit_of(m: &str) -> (b: u32)
    ensures
        b == win_mod_bit(m@),
{
    if str_is(m, "ctrl") || str_is(m, "control") {
        MOD_CONTROL
    } else if str_is(m, "alt") {
        MOD_ALT
    } else if str_is(m, "shift") {
        MOD_SHIFT
    } else if str_is(m, "super") || str_is(m, "meta") {
        MOD_WIN
    } else {
        0
    }
}

/// Combo modifiers -> RegisterHotKey flags, always with `MOD_NOREPEAT`;
/// unknown modifiers are ignored.
pub fn mods_for(c: &Combo) -> (m: u32)
    ensures
        m == win_mods_of(c.mods_view()),
{
    let mut m: u32 = MOD_NOREPEAT;
    let mut k: usize = 0;
    while k < c.mods.len()
        invariant
            k <= c.mods@.len(),
            m == win_mods_of(c.mods_view().subrange(0, k as int)),
        decreases c.mods.len() - k,
    {
        let ghost nxt = c.mods_view().subrange(0, k + 1);
        assert(nxt.drop_last() =~= c.mods_view().subrange(0, k as int));
        assert(nxt.last() == c.mods@[k as int]@);
        m = m | win_mod_bit_of(c.mods[k].as_str());
        k = k + 1;
    }
    assert(c.mods_view().subrange(0, c.mods@.len() as int) =~= c.mods_view());
    m
}

/// An ASCII letter or digit.
pub open spec fn ascii_alnum(c: char) -> bool {
    ('0' <= c && c <= '9') || ('a' <= c && c <= 'z') || ('A' <= c && c <= 'Z')
}

/// ASCII lowercase letters to uppercase, anything else unchanged.
pub open spec fn ascii_upper(c: char) -> char {
    if 'a' <= c && c <= 'z' {
        ((c as u32) - 32) as char
    } else {
        c
    }
}

/// The virtual-key code of a key name: a single ASCII letter or digit
/// (after lowercasing) is its uppercase ASCII value; `f1`..`f24` are
/// VK_F1..VK_F24; space, return/enter, tab and escape/esc by name.
pub open spec fn vk_spec(key: Seq<char>) -> Option<u32> {
    let lower = lowercase(key);
    if lower.len() == 1 && ascii_alnum(lower[0]) {
        Some(ascii_upper(lower[0]) as u32)
    } else {
        match fkey_number(lower) {
            Some(n) => Some((0x70 + n - 1) as u32),
            None => if lower == "space"@ {
                Some(0x20)
            } else if lower == "return"@ || lower == "enter"@ {
                Some(0x0d)
            } else if lower == "tab"@ {
                Some(0x09)
            } else if lower == "escape"@ || lower == "esc"@ {
                Some(0x1b)
            } else {
                None
            },
        }
    }
}

/// Key name -> Win32 virtual-key code.
pub fn vk_for(key: &str) -> (r: Option<u32>)
    ensures
        r == vk_spec(key@),
{
    let lower = to_lower(key);
    let v = chars_of(lower.as_str());
    if v.len() == 1 {
        let c = v[0];
        if ('0' <= c && c <= '9') || ('A' <= c && c <= 'Z') {
            return Some(c as u32);
        }
        if 'a' <= c && c <= 'z' {
            return Some((c as u32) - 32);
        }
    }
    match fkey_of(v.as_slice()) {
        Some(n) => return Some(0x70 + n - 1),
        None => {},
    }
    let l = lower.as_str();
    if str_is(l, "space") {
        Some(0x20)
    } else if str_is(l, "return") || str_is(l, "enter") {
        Some(0x0d)
    } else if str_is(l, "tab") {
        Some(0x09)
    } else if str_is(l, "escape") || str_is(l, "esc") {
        Some(0x1b)
    } else {
        None
    }
}

} // verus!
