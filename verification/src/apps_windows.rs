//! The Windows app source's decisions: Start-Menu shortcuts as desktop
//! entries (deduplicated by name, sorted), executable stems, UTF-16 strings
//! for Win32, and icon pixels from BGRA to RGBA.

use vstd::prelude::*;
use crate::apps::{DesktopApp, DesktopAppView, actions_view, desktop_view};
use crate::order::{keys_view, sort_positions, stable_order, Key};
use crate::text::{chars_of, last_occ, lowercase, rfind, string_of, sub_chars, to_lower, views};

verus! {

/// Where the last `\` or `/` of a path is.
pub open spec fn last_sep(s: Seq<char>) -> Option<int> {
    crate::ring::later(last_occ(s, seq!['\\']), last_occ(s, seq!['/']))
}

/// The file name of a Windows or Unix path: the text after its last `\` or
/// `/`.
pub open spec fn base_of(s: Seq<char>) -> Seq<char> {
    match last_sep(s) {
        Some(i) => s.skip(i + 1),
        None => s,
    }
}

/// `s` without a trailing `suffix`, when it has one.
pub open spec fn strip_suffix(s: Seq<char>, suffix: Seq<char>) -> Option<Seq<char>> {
    if s.len() >= suffix.len() && s.skip(s.len() - suffix.len()) == suffix {
        Some(s.take(s.len() - suffix.len()))
    } else {
        None
    }
}

/// An executable's stem: the file name without `.exe` (or `.EXE`),
/// lowercased ("chrome").
pub open spec fn exe_stem_spec(path: Seq<char>) -> Seq<char> {
    let base = base_of(path);
    lowercase(match strip_suffix(base, ".exe"@) {
        Some(b) => b,
        None => match strip_suffix(base, ".EXE"@) {
            Some(b) => b,
            None => base,
        },
    })
}

fn cut_suffix(v: &Vec<char>, suffix: &str) -> (r: Option<Vec<char>>)
    ensures
        match strip_suffix(v@, suffix@) {
            Some(t) => r matches Some(x) && x@ == t,
            None => r is None,
        },
{
    let sv = chars_of(suffix);
    if v.len() < sv.len() {
        return None;
    }
    let start = v.len() - sv.len();
    let tail = sub_chars(v.as_slice(), start, v.len());
    if !crate::order::chars_eq(tail.as_slice(), sv.as_slice()) {
        assert(tail@ =~= v@.skip(start as int));
        return None;
    }
    assert(tail@ =~= v@.skip(start as int));
    let head = sub_chars(v.as_slice(), 0, start);
    assert(head@ =~= v@.take(start as int));
    Some(head)
}

/// An executable's stem (see [`exe_stem_spec`]).
pub fn exe_stem(path: &str) -> (r: String)
    ensures
        r@ == exe_stem_spec(path@),
{
    let v = chars_of(path);
    let bs = vec!['\\'];
    let fs = vec!['/'];
    assert(bs@ =~= seq!['\\']);
    assert(fs@ =~= seq!['/']);
    let a = rfind(v.as_slice(), bs.as_slice());
    let b = rfind(v.as_slice(), fs.as_slice());
    let cut: Option<usize> = match (a, b) {
        (Some(x), Some(y)) => Some(if x >= y { x } else { y }),
        (Some(x), None) => Some(x),
        (None, y) => y,
    };
    let n = v.len();
    let base = match cut {
        Some(i) => {
            assert(crate::text::occurs_at(v@, seq!['\\'], i as int) || crate::text::occurs_at(v@, seq!['/'], i as int));
            let r = sub_chars(v.as_slice(), i + 1, n);
            assert(r@ =~= v@.skip(i + 1));
            r
        },
        None => v,
    };
    let stem = match cut_suffix(&base, ".exe") {
        Some(s) => s,
        None => match cut_suffix(&base, ".EXE") {
            Some(s) => s,
            None => base,
        },
    };
    to_lower(string_of(stem.as_slice()).as_str())
}

/// The UTF-16 code units of a code point: itself below U+10000, else a
/// surrogate pair.
pub open spec fn utf16_code(u: u32) -> Seq<u16> {
    if u < 0x10000 {
        seq![u as u16]
    } else {
        let v = u - 0x10000;
        seq![(0xD800 + v / 0x400) as u16, (0xDC00 + v % 0x400) as u16]
    }
}

/// The UTF-16 code units of one character.
pub open spec fn utf16_units(c: char) -> Seq<u16> {
    utf16_code(c as u32)
}

/// The UTF-16 encoding of a string.
pub open spec fn utf16(s: Seq<char>) -> Seq<u16>
    decreases s.len(),
{
    if s.len() == 0 {
        Seq::empty()
    } else {
        utf16(s.drop_last()) + utf16_units(s.last())
    }
}

/// A string as a NUL-terminated UTF-16 buffer for Win32.
pub fn wide(s: &str) -> (r: Vec<u16>)
    ensures
        r@ == utf16(s@).push(0u16),
{
    let v = chars_of(s);
    let mut r: Vec<u16> = Vec::new();
    let mut i: usize = 0;
    while i < v.len()
        invariant
            i <= v@.len(),
            r@ == utf16(v@.take(i as int)),
        decreases v.len() - i,
    {
        let c = v[i];
        let u = c as u32;
        proof {
            assert(v@.take(i + 1).drop_last() =~= v@.take(i as int));
            assert(v@.take(i + 1).last() == c);
        }
        let ghost before = r@;
        assert(utf16(v@.take(i + 1)) == utf16(v@.take(i as int)) + utf16_units(c));
        if u < 0x10000 {
            r.push(u as u16);
            assert(utf16_code(u) == seq![u as u16]);
            assert(r@ =~= before + seq![u as u16]);
        } else {
            let w = u - 0x10000;
            let hi = (0xD800 + w / 0x400) as u16;
            let lo = (0xDC00 + w % 0x400) as u16;
            r.push(hi);
            r.push(lo);
            assert(utf16_code(u) == seq![hi, lo]);
            assert(r@ =~= before + seq![hi, lo]);
        }
        i = i + 1;
    }
    assert(v@.take(v@.len() as int) =~= v@);
    r.push(0);
    r
}

/// The Start-Menu shortcuts collected so far, by name; the first shortcut
/// of a name (case-insensitively) wins, so the user's menu shadows the
/// all-users one.
pub struct StartMenu {
    apps: Vec<DesktopApp>,
    seen: Vec<String>,
}

/// The entry of a shortcut: its name, lowercased as the id; launched by
/// its own path; its window class is its target's executable stem.
pub open spec fn shortcut_entry(name: Seq<char>, path: Seq<char>, icon: Seq<char>, target_stem: Seq<char>) -> DesktopAppView {
    DesktopAppView {
        id: lowercase(name),
        name,
        icon,
        argv: seq![path],
        startup_wm_class: target_stem,
        actions: Seq::empty(),
    }
}

impl StartMenu {
    /// Nothing collected.
    pub fn new() -> (m: StartMenu)
        ensures
            m.apps_view().len() == 0,
            m.seen_view().len() == 0,
    {
        let m = StartMenu { apps: Vec::new(), seen: Vec::new() };
        assert(m.apps_view() =~= Seq::<DesktopAppView>::empty());
        assert(m.seen_view() =~= Seq::<Seq<char>>::empty());
        m
    }

    /// The entries collected, in collection order.
    pub closed spec fn apps_view(&self) -> Seq<DesktopAppView> {
        desktop_view(self.apps@)
    }

    /// The lowercased names taken.
    pub closed spec fn seen_view(&self) -> Seq<Seq<char>> {
        views(self.seen@)
    }

    /// Adds a shortcut unless its lowercased name is taken; whether it was
    /// added.
    pub fn add(&mut self, name: &str, path: &str, icon: &str, target_stem: &str) -> (added: bool)
        ensures
            added == !old(self).seen_view().contains(lowercase(name@)),
            added ==> final(self).apps_view() == old(self).apps_view().push(shortcut_entry(name@, path@, icon@, target_stem@)),
            added ==> final(self).seen_view() == old(self).seen_view().push(lowercase(name@)),
            !added ==> final(self).apps_view() == old(self).apps_view() && final(self).seen_view() == old(self).seen_view(),
    {
        let key = to_lower(name);
        let mut i: usize = 0;
        while i < self.seen.len()
            invariant
                i <= self.seen@.len(),
                key@ == lowercase(name@),
                self.seen_view() == old(self).seen_view(),
                forall|j: int| 0 <= j < i ==> #[trigger] self.seen@[j]@ != key@,
            decreases self.seen.len() - i,
        {
            if crate::text::str_is(self.seen[i].as_str(), key.as_str()) {
                assert(views(self.seen@)[i as int] == key@);
                assert(self.seen_view().contains(key@));
                return false;
            }
            i = i + 1;
        }
        assert forall|j: int| 0 <= j < self.seen_view().len() implies self.seen_view()[j] != key@ by {
            assert(self.seen_view()[j] == self.seen@[j]@);
        }
        let ghost old_apps = self.apps_view();
        let ghost old_seen = self.seen_view();
        let mut argv: Vec<String> = Vec::new();
        argv.push(String::from_str(path));
        let entry = DesktopApp {
            id: to_lower(name),
            name: String::from_str(name),
            icon: String::from_str(icon),
            argv,
            startup_wm_class: String::from_str(target_stem),
            actions: Vec::new(),
        };
        assert(views(entry.argv@) =~= seq![path@]);
        assert(actions_view(entry.actions@) =~= Seq::empty());
        self.apps.push(entry);
        self.seen.push(key);
        assert(self.apps_view() =~= old_apps.push(shortcut_entry(name@, path@, icon@, target_stem@)));
        assert(self.seen_view() =~= old_seen.push(lowercase(name@)));
        true
    }

    /// The collected entries, sorted case-insensitively by name (ties by
    /// the exact name, then in collection order).
    pub fn finish(self) -> (r: Vec<DesktopApp>)
        ensures
            crate::apps::sorted_by_name(self.apps_view(), desktop_view(r@)),
    {
        let ghost v = desktop_view(self.apps@);
        let entries = self.apps;
        let mut keys: Vec<(Vec<char>, Vec<char>)> = Vec::new();
        let mut i: usize = 0;
        while i < entries.len()
            invariant
                i <= entries@.len(),
                v == desktop_view(entries@),
                keys@.len() == i,
                forall|k: int| 0 <= k < i ==> #[trigger] keys_view(keys@)[k] == crate::apps::name_key(v[k]),
            decreases entries.len() - i,
        {
            let lower = to_lower(entries[i].name.as_str());
            let name = chars_of(entries[i].name.as_str());
            let ghost before = keys@;
            keys.push((chars_of(lower.as_str()), name));
            proof {
                assert forall|k: int| 0 <= k < i + 1 implies #[trigger] keys_view(keys@)[k] == crate::apps::name_key(v[k]) by {
                    if k < i {
                        assert(keys@[k] == before[k]);
                        assert(keys_view(before)[k] == crate::apps::name_key(v[k]));
                    }
                }
            }
            i = i + 1;
        }
        assert(keys_view(keys@) =~= crate::apps::name_keys(v));
        let idx = sort_positions(&keys);
        let ghost gidx = idx@.map_values(|p: usize| p as int);
        let mut out: Vec<DesktopApp> = Vec::new();
        let mut j: usize = 0;
        while j < idx.len()
            invariant
                j <= idx@.len(),
                idx@.len() == entries@.len(),
                v == desktop_view(entries@),
                gidx == idx@.map_values(|p: usize| p as int),
                stable_order(keys_view(keys@), gidx),
                out@.len() == j,
                forall|k: int| 0 <= k < j ==> #[trigger] out@[k]@ == v[gidx[k]],
            decreases idx.len() - j,
        {
            assert(0 <= gidx[j as int] < keys_view(keys@).len());
            out.push(entries[idx[j]].copy());
            j = j + 1;
        }
        assert(stable_order(crate::apps::name_keys(v), gidx));
        assert forall|k: int| 0 <= k < v.len() implies #[trigger] desktop_view(out@)[k] == v[gidx[k]] by {}
        out
    }
}

/// Whether any pixel of a BGRA buffer has a non-zero alpha.
pub open spec fn any_alpha(buf: Seq<u8>) -> bool {
    exists|p: int| 0 <= p < buf.len() / 4 && #[trigger] buf[4 * p + 3] != 0
}

/// A top-down BGRA pixel buffer as RGBA: red and blue swapped, alpha kept,
/// or opaque when no pixel has alpha; bytes past the last whole pixel zero.
pub open spec fn rgba_of(buf: Seq<u8>, r: Seq<u8>) -> bool {
    &&& r.len() == buf.len()
    &&& forall|p: int| 0 <= p < buf.len() / 4 ==> {
        &&& #[trigger] r[4 * p] == buf[4 * p + 2]
        &&& r[4 * p + 1] == buf[4 * p + 1]
        &&& r[4 * p + 2] == buf[4 * p]
        &&& r[4 * p + 3] == (if any_alpha(buf) { buf[4 * p + 3] } else { 255u8 })
    }
    &&& forall|k: int| 4 * (buf.len() / 4) <= k < buf.len() ==> r[k] == 0
}

/// Converts a BGRA buffer to RGBA (see [`rgba_of`]).
pub fn bgra_to_rgba(buf: &[u8]) -> (r: Vec<u8>)
    ensures
        rgba_of(buf@, r@),
{
    let n = buf.len() / 4;
    let len = buf.len();
    let mut alpha = false;
    let mut p: usize = 0;
    while p < n
        invariant
            p <= n,
            n == buf@.len() / 4,
            len == buf@.len(),
            alpha == exists|q: int| 0 <= q < p && #[trigger] buf@[4 * q + 3] != 0,
        decreases n - p,
    {
        assert(4 * p + 4 <= len) by (nonlinear_arith)
            requires
                p < n,
                n == len / 4,
        ;
        if buf[4 * p + 3] != 0 {
            alpha = true;
        }
        p = p + 1;
    }
    let mut r: Vec<u8> = Vec::new();
    let mut k: usize = 0;
    while k < len
        invariant
            k <= len,
            len == buf@.len(),
            r@.len() == k,
            forall|j: int| 0 <= j < k ==> #[trigger] r@[j] == 0,
        decreases len - k,
    {
        r.push(0);
        k = k + 1;
    }
    let mut q: usize = 0;
    while q < n
        invariant
            q <= n,
            n == buf@.len() / 4,
            len == buf@.len(),
            alpha == any_alpha(buf@),
            r@.len() == len,
            forall|t: int| 0 <= t < q ==> {
                &&& #[trigger] r@[4 * t] == buf@[4 * t + 2]
                &&& r@[4 * t + 1] == buf@[4 * t + 1]
                &&& r@[4 * t + 2] == buf@[4 * t]
                &&& r@[4 * t + 3] == (if alpha { buf@[4 * t + 3] } else { 255u8 })
            },
            forall|j: int| 4 * q <= j < len ==> r@[j] == 0,
        decreases n - q,
    {
        assert(4 * q + 4 <= len) by (nonlinear_arith)
            requires
                q < n,
                n == len / 4,
        ;
        let b = buf[4 * q];
        let g = buf[4 * q + 1];
        let rd = buf[4 * q + 2];
        let a = if alpha { buf[4 * q + 3] } else { 255 };
        let ghost r0 = r@;
        r.set(4 * q, rd);
        r.set(4 * q + 1, g);
        r.set(4 * q + 2, b);
        r.set(4 * q + 3, a);
        proof {
            assert(r@[4 * q as int] == buf@[4 * q + 2]);
            assert(r@[4 * q + 1] == buf@[4 * q + 1]);
            assert(r@[4 * q + 2] == buf@[4 * q as int]);
            assert(r@[4 * q + 3] == (if alpha { buf@[4 * q + 3] } else { 255u8 }));
            assert forall|t: int| 0 <= t < q + 1 implies {
                &&& #[trigger] r@[4 * t] == buf@[4 * t + 2]
                &&& r@[4 * t + 1] == buf@[4 * t + 1]
                &&& r@[4 * t + 2] == buf@[4 * t]
                &&& r@[4 * t + 3] == (if alpha { buf@[4 * t + 3] } else { 255u8 })
            } by {
                if t < q {
                    assert(4 * t + 3 < 4 * q);
                    assert(r@[4 * t] == r0[4 * t]);
                    assert(r@[4 * t + 1] == r0[4 * t + 1]);
                    assert(r@[4 * t + 2] == r0[4 * t + 2]);
                    assert(r@[4 * t + 3] == r0[4 * t + 3]);
                }
            }
        }
        q = q + 1;
    }
    assert(4 * (buf@.len() / 4) == 4 * n);
    r
}

} // verus!
