//! The X11 key-grab provider's decisions: modifier masks, key names as
//! keysyms, keysyms as keycodes, the grabs per combo and which ring a
//! KeyPress fires.

use vstd::prelude::*;
use crate::config::KeybindSettings;
use crate::keys::{fkey_number, fkey_of};
use crate::shortcuts::{combo_entry, combos_view, push_combo, Combo};
use crate::text::{chars_of, lowercase, str_is, to_lower};
use x11rb::protocol::xproto::ModMask;

verus! {

/// The Shift bit of `x11rb::protocol::xproto::ModMask` (1 << 0).
#[verifier::external_body]
fn mask_shift() -> (m: u16)
    ensures
        m == 1,
{
    u16::from(ModMask::SHIFT)
}

/// The Lock (Caps Lock) bit of `ModMask` (1 << 1).
#[verifier::external_body]
fn mask_lock() -> (m: u16)
    ensures
        m == 2,
{
    u16::from(ModMask::LOCK)
}

/// The Control bit of `ModMask` (1 << 2).
#[verifier::external_body]
fn mask_control() -> (m: u16)
    ensures
        m == 4,
{
    u16::from(ModMask::CONTROL)
}

/// The Mod1 (Alt) bit of `ModMask` (1 << 3).
#[verifier::external_body]
fn mask_m1() -> (m: u16)
    ensures
        m == 8,
{
    u16::from(ModMask::M1)
}

/// The Mod2 (Num Lock) bit of `ModMask` (1 << 4).
#[verifier::external_body]
fn mask_m2() -> (m: u16)
    ensures
        m == 16,
{
    u16::from(ModMask::M2)
}

/// The Mod4 (Super) bit of `ModMask` (1 << 6).
#[verifier::external_body]
fn mask_m4() -> (m: u16)
    ensures
        m == 64,
{
    u16::from(ModMask::M4)
}

/// The modifier bits a combo can ask for (Shift, Control, Mod1, Mod4);
/// KeyPress state is masked down to these so Caps/Num Lock and pointer
/// buttons do not break matches.
pub open spec fn combo_mods() -> u16 {
    0x4du16
}

/// The X modifier bit of one combo modifier: ctrl->Control, shift->Shift,
/// alt->Mod1, super/meta->Mod4, anything else none.
pub open spec fn mod_bit(m: Seq<char>) -> u16 {
    if m == "ctrl"@ || m == "control"@ {
        4
    } else if m == "shift"@ {
        1
    } else if m == "alt"@ {
        8
    } else if m == "super"@ || m == "meta"@ {
        64
    } else {
        0
    }
}

/// The combined modifier mask of a combo's modifiers.
pub open spec fn mask_of(mods: Seq<Seq<char>>) -> u16
    decreases mods.len(),
{
    if mods.len() == 0 {
        0
    } else {
        mask_of(mods.drop_last()) | mod_bit(mods.last())
    }
}

fn mod_bit_of(m: &str) -> (b: u16)
    ensures
        b == mod_bit(m@),
{
    if str_is(m, "ctrl") || str_is(m, "control") {
        mask_control()
    } else if str_is(m, "shift") {
        mask_shift()
    } else if str_is(m, "alt") {
        mask_m1()
    } else if str_is(m, "super") || str_is(m, "meta") {
        mask_m4()
    } else {
        0
    }
}

/// Combo -> X modifier mask; unknown modifiers are ignored.
pub fn mod_mask(c: &Combo) -> (mask: u16)
    ensures
        mask == mask_of(c.mods_view()),
{
    let mut mask: u16 = 0;
    let mut k: usize = 0;
    while k < c.mods.len()
        invariant
            k <= c.mods@.len(),
            mask == mask_of(c.mods_view().subrange(0, k as int)),
        decreases c.mods.len() - k,
    {
        let ghost nxt = c.mods_view().subrange(0, k + 1);
        assert(nxt.drop_last() =~= c.mods_view().subrange(0, k as int));
        assert(nxt.last() == c.mods@[k as int]@);
        mask = mask | mod_bit_of(c.mods[k].as_str());
        k = k + 1;
    }
    assert(c.mods_view().subrange(0, c.mods@.len() as int) =~= c.mods_view());
    mask
}

/// A printable, non-space ASCII character (`char::is_ascii_graphic`).
pub open spec fn ascii_graphic(c: char) -> bool {
    '!' <= c && c <= '~'
}

/// The keysym of a key name: a single printable ASCII character (after
/// lowercasing: grabs are per keycode) is its own keysym; `f1`..`f24` are
/// XK_F1..XK_F24; space, return/enter, tab and escape/esc by name.
pub open spec fn keysym_spec(key: Seq<char>) -> Option<u32> {
    let lower = lowercase(key);
    if lower.len() == 1 && ascii_graphic(lower[0]) {
        Some(lower[0] as u32)
    } else {
        match fkey_number(lower) {
            Some(n) => Some((0xffbe + n - 1) as u32),
            None => if lower == "space"@ {
                Some(0x20)
            } else if lower == "return"@ || lower == "enter"@ {
                Some(0xff0d)
            } else if lower == "tab"@ {
                Some(0xff09)
            } else if lower == "escape"@ || lower == "esc"@ {
                Some(0xff1b)
            } else {
                None
            },
        }
    }
}

/// Key name -> keysym.
pub fn keysym_for(key: &str) -> (r: Option<u32>)
    ensures
        r == keysym_spec(key@),
{
    let lower = to_lower(key);
    let v = chars_of(lower.as_str());
    if v.len() == 1 && '!' <= v[0] && v[0] <= '~' {
        return Some(v[0] as u32);
    }
    match fkey_of(v.as_slice()) {
        Some(n) => return Some(0xffbe + n - 1),
        None => {},
    }
    let l = lower.as_str();
    if str_is(l, "space") {
        Some(0x20)
    } else if str_is(l, "return") || str_is(l, "enter") {
        Some(0xff0d)
    } else if str_is(l, "tab") {
        Some(0xff09)
    } else if str_is(l, "escape") || str_is(l, "esc") {
        Some(0xff1b)
    } else {
        None
    }
}

/// `i` is the first position of `x` in `s`.
pub open spec fn first_at(s: Seq<u32>, x: u32, i: int) -> bool {
    &&& 0 <= i < s.len()
    &&& s[i] == x
    &&& forall|j: int| 0 <= j < i ==> s[j] != x
}

/// Keysym -> first keycode producing it, from a keyboard-mapping reply:
/// the reply holds `per` (at least 1) keysyms per keycode, the first row
/// belonging to keycode `min`; the keycode is that of the first row that
/// holds `keysym`.
pub fn keycode_in(keysyms: &[u32], per: u8, min: u8, keysym: u32) -> (r: Option<u8>)
    requires
        keysyms@.len() <= (if per == 0 { 1 } else { per as int }) * (256 - min),
    ensures
        match r {
            Some(k) => exists|i: int| first_at(keysyms@, keysym, i)
                && k == min + i / (if per == 0 { 1 } else { per as int }),
            None => forall|i: int| 0 <= i < keysyms@.len() ==> keysyms@[i] != keysym,
        },
{
    let p: usize = if per == 0 { 1 } else { per as usize };
    let mut i: usize = 0;
    while i < keysyms.len()
        invariant
            i <= keysyms@.len(),
            p >= 1,
            p == (if per == 0 { 1 } else { per as int }),
            keysyms@.len() <= p * (256 - min),
            forall|j: int| 0 <= j < i ==> keysyms@[j] != keysym,
        decreases keysyms.len() - i,
    {
        if keysyms[i] == keysym {
            proof {
                assert(first_at(keysyms@, keysym, i as int));
                let len = keysyms@.len();
                assert(i / p < 256 - min) by (nonlinear_arith)
                    requires
                        i < len,
                        len <= p * (256 - min),
                        p >= 1,
                ;
            }
            return Some(min + (i / p) as u8);
        }
        i = i + 1;
    }
    None
}

/// The four modifier states a combo is grabbed under: X delivers a grab
/// only for the exact state, so the base mask also with Caps Lock, with
/// Num Lock, and with both.
pub open spec fn grab_states(base: u16) -> Seq<u16> {
    seq![base, base | 2u16, base | 16u16, base | 18u16]
}

/// A combo's mask holds only modifier bits a combo can ask for.
proof fn lemma_mask_of_combo_bits(mods: Seq<Seq<char>>)
    ensures
        mask_of(mods) & combo_mods() == mask_of(mods),
    decreases mods.len(),
{
    if mods.len() > 0 {
        lemma_mask_of_combo_bits(mods.drop_last());
        let a = mask_of(mods.drop_last());
        let b = mod_bit(mods.last());
        assert(b == 0u16 || b == 1u16 || b == 4u16 || b == 8u16 || b == 64u16);
        assert((a | b) & 0x4du16 == (a | b)) by (bit_vector)
            requires
                a & 0x4du16 == a,
                b == 0u16 || b == 1u16 || b == 4u16 || b == 8u16 || b == 64u16,
        ;
        assert(mask_of(mods) == a | b);
    } else {
        assert(0u16 & 0x4du16 == 0u16) by (bit_vector);
    }
}

/// Lock keys never break a grabbed combo: a KeyPress in any of the states
/// a combo is grabbed under (Caps Lock and Num Lock on or off) masks back
/// to the combo's own mask, the key under which its ring is recorded.
pub proof fn lemma_grab_states_match(mods: Seq<Seq<char>>, k: int)
    requires
        0 <= k < 4,
    ensures
        grab_states(mask_of(mods))[k] & combo_mods() == mask_of(mods),
{
    lemma_mask_of_combo_bits(mods);
    let base = mask_of(mods);
    assert((base | 2u16) & 0x4du16 == base && (base | 16u16) & 0x4du16 == base
        && (base | 18u16) & 0x4du16 == base) by (bit_vector)
        requires
            base & 0x4du16 == base,
    ;
}

/// The masks one combo is grabbed with.
pub fn grab_masks(base: u16) -> (r: [u16; 4])
    ensures
        r@ == grab_states(base),
{
    let lock = mask_lock();
    let num = mask_m2();
    let both = lock | num;
    assert(both == 18u16) by (bit_vector)
        requires
            lock == 2u16,
            num == 16u16,
            both == lock | num,
    ;
    let r = [base, base | lock, base | num, base | both];
    assert(r@ =~= grab_states(base));
    r
}

/// The (ring, combo) pairs to grab: none when the master toggle is off,
/// else one per ring with a usable combo, in ring order.
pub open spec fn combos_spec(s: KeybindSettings) -> Seq<(Seq<char>, (Seq<Seq<char>>, Seq<char>))> {
    if !s.shortcuts_enabled {
        Seq::empty()
    } else {
        combo_entry(s, "apps"@) + combo_entry(s, "windows"@) + combo_entry(s, "actions"@)
    }
}

/// (ring, combo) pairs to grab for these settings.
pub fn combos(s: &KeybindSettings) -> (r: Vec<(&'static str, Combo)>)
    ensures
        combos_view(r@) == combos_spec(*s),
{
    let mut out: Vec<(&'static str, Combo)> = Vec::new();
    assert(combos_view(out@) =~= combos_spec(*s) || s.shortcuts_enabled);
    if !s.shortcuts_enabled {
        return out;
    }
    push_combo(&mut out, s, "apps");
    push_combo(&mut out, s, "windows");
    push_combo(&mut out, s, "actions");
    assert(combos_view(out@) =~= combos_spec(*s));
    out
}

/// Which ring each grabbed (keycode, modifier mask) fires.
pub struct GrabTable {
    entries: Vec<(u8, u16, &'static str)>,
}

/// The grabs as a map, later entries winning over earlier ones.
pub open spec fn grab_map(s: Seq<(u8, u16, &'static str)>) -> Map<(u8, u16), Seq<char>>
    decreases s.len(),
{
    if s.len() == 0 {
        Map::empty()
    } else {
        grab_map(s.drop_last()).insert((s.last().0, s.last().1), s.last().2@)
    }
}

impl GrabTable {
    /// (keycode, mask) -> ring.
    pub closed spec fn view(&self) -> Map<(u8, u16), Seq<char>> {
        grab_map(self.entries@)
    }

    /// No grabs.
    pub fn new() -> (t: GrabTable)
        ensures
            t@ == Map::<(u8, u16), Seq<char>>::empty(),
    {
        GrabTable { entries: Vec::new() }
    }

    /// Records that `(keycode, mask)` fires `mode`.
    pub fn insert(&mut self, keycode: u8, mask: u16, mode: &'static str)
        ensures
            final(self)@ == old(self)@.insert((keycode, mask), mode@),
    {
        let ghost before = self.entries@;
        self.entries.push((keycode, mask, mode));
        assert(self.entries@.drop_last() =~= before);
    }

    /// The ring a KeyPress with this keycode and modifier state fires:
    /// the state is masked down to Shift/Control/Mod1/Mod4 first.
    pub fn fired(&self, keycode: u8, state: u16) -> (r: Option<&'static str>)
        ensures
            match self@.contains_key((keycode, state & combo_mods())) {
                true => r matches Some(m) && m@ == self@[(keycode, state & combo_mods())],
                false => r is None,
            },
    {
        let key = (keycode, state & 0x4du16);
        let mut i: usize = self.entries.len();
        while i > 0
            invariant
                i <= self.entries@.len(),
                key == (keycode, state & combo_mods()),
                forall|j: int| i <= j < self.entries@.len() ==>
                    (#[trigger] self.entries@[j].0, self.entries@[j].1) != key,
            decreases i,
        {
            let e = self.entries[i - 1];
            if e.0 == key.0 && e.1 == key.1 {
                proof {
                    lemma_grab_found(self.entries@, key, i - 1);
                }
                return Some(e.2);
            }
            i = i - 1;
        }
        proof {
            lemma_grab_absent(self.entries@, key);
        }
        None
    }
}

/// A key whose last entry is at `k` maps to that entry's ring.
proof fn lemma_grab_found(s: Seq<(u8, u16, &'static str)>, key: (u8, u16), k: int)
    requires
        0 <= k < s.len(),
        (s[k].0, s[k].1) == key,
        forall|j: int| k < j < s.len() ==> (#[trigger] s[j].0, s[j].1) != key,
    ensures
        grab_map(s).contains_key(key),
        grab_map(s)[key] == s[k].2@,
    decreases s.len(),
{
    if k + 1 < s.len() {
        let u = s.drop_last();
        assert forall|j: int| k < j < u.len() implies (#[trigger] u[j].0, u[j].1) != key by {
            assert(u[j] == s[j]);
        }
        lemma_grab_found(u, key, k);
        assert((s[s.len() - 1].0, s[s.len() - 1].1) != key);
    }
}

/// A key with no entry is not in the map.
proof fn lemma_grab_absent(s: Seq<(u8, u16, &'static str)>, key: (u8, u16))
    requires
        forall|j: int| 0 <= j < s.len() ==> (#[trigger] s[j].0, s[j].1) != key,
    ensures
        !grab_map(s).contains_key(key),
    decreases s.len(),
{
    if s.len() > 0 {
        let u = s.drop_last();
        assert forall|j: int| 0 <= j < u.len() implies (#[trigger] u[j].0, u[j].1) != key by {
            assert(u[j] == s[j]);
        }
        lemma_grab_absent(u, key);
        assert((s[s.len() - 1].0, s[s.len() - 1].1) != key);
    }
}

} // verus!
