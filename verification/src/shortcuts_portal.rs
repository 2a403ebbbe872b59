//! The XDG GlobalShortcuts portal provider's protocol values: trigger
//! syntax, the (id, trigger) list it binds, and request handle paths.

use vstd::prelude::*;
use crate::config::KeybindSettings;
use crate::shortcuts::{combo_for, combo_for_spec, parse, parse_spec, valid, valid_spec, Combo};
use crate::text::{chars_of, push_char, push_str, str_is};

verus! {

/// The portal's name for a modifier, None for an unknown one (dropped).
pub open spec fn portal_mod(m: Seq<char>) -> Option<Seq<char>> {
    if m == "super"@ || m == "meta"@ {
        Some("LOGO"@)
    } else if m == "ctrl"@ || m == "control"@ {
        Some("CTRL"@)
    } else if m == "alt"@ {
        Some("ALT"@)
    } else if m == "shift"@ {
        Some("SHIFT"@)
    } else {
        None
    }
}

/// Each known modifier's portal name followed by `+`, in order.
pub open spec fn mod_prefix(mods: Seq<Seq<char>>) -> Seq<char>
    decreases mods.len(),
{
    if mods.len() == 0 {
        Seq::empty()
    } else {
        mod_prefix(mods.drop_last()) + match portal_mod(mods.last()) {
            Some(t) => t + "+"@,
            None => Seq::empty(),
        }
    }
}

/// Combo -> portal trigger syntax: "super+shift+r" -> "LOGO+SHIFT+r".
pub open spec fn trigger_spec(mods: Seq<Seq<char>>, key: Seq<char>) -> Seq<char> {
    mod_prefix(mods) + key
}

fn portal_mod_of(m: &str) -> (r: Option<&'static str>)
    ensures
        match portal_mod(m@) {
            Some(t) => r matches Some(x) && x@ == t,
            None => r is None,
        },
{
    if str_is(m, "super") || str_is(m, "meta") {
        Some("LOGO")
    } else if str_is(m, "ctrl") || str_is(m, "control") {
        Some("CTRL")
    } else if str_is(m, "alt") {
        Some("ALT")
    } else if str_is(m, "shift") {
        Some("SHIFT")
    } else {
        None
    }
}

/// The portal trigger for a combo; unknown modifiers are dropped.
pub fn trigger(c: &Combo) -> (r: String)
    ensures
        r@ == trigger_spec(c.mods_view(), c.key@),
{
    let mut out = String::new();
    let mut k: usize = 0;
    while k < c.mods.len()
        invariant
            k <= c.mods@.len(),
            out@ == mod_prefix(c.mods_view().subrange(0, k as int)),
        decreases c.mods.len() - k,
    {
        let ghost pre = c.mods_view().subrange(0, k as int);
        let ghost nxt = c.mods_view().subrange(0, k + 1);
        assert(nxt.drop_last() =~= pre);
        assert(nxt.last() == c.mods@[k as int]@);
        match portal_mod_of(c.mods[k].as_str()) {
            Some(name) => {
                push_str(&mut out, name);
                push_str(&mut out, "+");
                assert(out@ =~= mod_prefix(pre) + (name@ + "+"@));
            },
            None => {
                assert(out@ =~= mod_prefix(pre) + Seq::<char>::empty());
            },
        }
        k = k + 1;
    }
    assert(c.mods_view().subrange(0, c.mods@.len() as int) =~= c.mods_view());
    push_str(&mut out, c.key.as_str());
    out
}

/// A binding for one ring when its combo is usable: (ring id, trigger).
pub open spec fn binding_for(s: KeybindSettings, mode: Seq<char>) -> Seq<(Seq<char>, Seq<char>)> {
    let c = combo_for_spec(s.shortcuts, mode);
    if valid_spec(c) {
        seq![(mode, trigger_spec(parse_spec(c).0, parse_spec(c).1))]
    } else {
        Seq::empty()
    }
}

/// The (ring id, trigger) pairs to bind: none when the master toggle is
/// off, else one per ring with a usable combo, in ring order.
pub open spec fn bindings_spec(s: KeybindSettings) -> Seq<(Seq<char>, Seq<char>)> {
    if !s.shortcuts_enabled {
        Seq::empty()
    } else {
        binding_for(s, "apps"@) + binding_for(s, "windows"@) + binding_for(s, "actions"@)
    }
}

/// The pairs as character sequences.
pub open spec fn pairs_view(v: Seq<(&'static str, String)>) -> Seq<(Seq<char>, Seq<char>)> {
    v.map_values(|p: (&'static str, String)| (p.0@, p.1@))
}

fn push_binding(out: &mut Vec<(&'static str, String)>, s: &KeybindSettings, mode: &'static str)
    ensures
        pairs_view(final(out)@) == pairs_view(old(out)@) + binding_for(*s, mode@),
{
    let c = combo_for(s, mode);
    let ghost before = out@;
    if valid(c) {
        out.push((mode, trigger(&parse(c))));
        assert(pairs_view(out@) =~= pairs_view(before) + binding_for(*s, mode@));
    } else {
        assert(pairs_view(out@) =~= pairs_view(before) + binding_for(*s, mode@));
    }
}

/// (ring id, trigger) pairs to bind for these settings.
pub fn bindings(s: &KeybindSettings) -> (r: Vec<(&'static str, String)>)
    ensures
        pairs_view(r@) == bindings_spec(*s),
{
    let mut out: Vec<(&'static str, String)> = Vec::new();
    assert(pairs_view(out@) =~= Seq::<(Seq<char>, Seq<char>)>::empty());
    if !s.shortcuts_enabled {
        return out;
    }
    push_binding(&mut out, s, "apps");
    push_binding(&mut out, s, "windows");
    push_binding(&mut out, s, "actions");
    assert(pairs_view(out@) =~= bindings_spec(*s));
    out
}

/// The request handle token for counter value `n`: `radiall_<n>`.
pub fn token_name(n: u64) -> (t: String)
    ensures
        t@ == "radiall_"@ + crate::nums::dec(n as nat),
{
    let mut t = String::new();
    push_str(&mut t, "radiall_");
    crate::nums::push_dec(&mut t, n);
    t
}

/// Leading `:` characters removed.
pub open spec fn strip_colons(s: Seq<char>) -> Seq<char>
    decreases s.len(),
{
    if s.len() > 0 && s[0] == ':' {
        strip_colons(s.drop_first())
    } else {
        s
    }
}

/// Every `.` replaced by `_`.
pub open spec fn dots_to_underscores(s: Seq<char>) -> Seq<char> {
    s.map_values(|c: char| if c == '.' { '_' } else { c })
}

/// The request object path the portal predicts for a bus unique name and
/// token: ":1.42" + "t" -> "/org/freedesktop/portal/desktop/request/1_42/t".
pub open spec fn request_path_spec(unique: Seq<char>, token: Seq<char>) -> Seq<char> {
    "/org/freedesktop/portal/desktop/request/"@ + dots_to_underscores(strip_colons(unique)) + "/"@
        + token
}

/// The predicted request-object path; an error without a unique name.
pub fn request_path(unique: Option<&str>, token: &str) -> (r: Result<String, String>)
    ensures
        match unique {
            Some(u) => r matches Ok(p) && p@ == request_path_spec(u@, token@),
            None => r matches Err(e) && e@ == "no unique bus name"@,
        },
{
    let u = match unique {
        Some(u) => u,
        None => {
            let mut e = String::new();
            push_str(&mut e, "no unique bus name");
            return Err(e);
        },
    };
    let v = chars_of(u);
    let mut i: usize = 0;
    assert(v@.subrange(0, v@.len() as int) =~= v@);
    while i < v.len() && v[i] == ':'
        invariant
            i <= v@.len(),
            strip_colons(v@) == strip_colons(v@.subrange(i as int, v@.len() as int)),
        decreases v.len() - i,
    {
        assert(v@.subrange(i as int, v@.len() as int).drop_first() =~= v@.subrange(i + 1, v@.len() as int));
        i = i + 1;
    }
    let ghost rest = v@.subrange(i as int, v@.len() as int);
    assert(strip_colons(rest) == rest);
    let mut p = String::new();
    push_str(&mut p, "/org/freedesktop/portal/desktop/request/");
    let ghost base = p@;
    let mut k: usize = i;
    while k < v.len()
        invariant
            i <= k <= v@.len(),
            p@ == base + dots_to_underscores(v@.subrange(i as int, k as int)),
        decreases v.len() - k,
    {
        let c = v[k];
        push_char(&mut p, if c == '.' { '_' } else { c });
        assert(dots_to_underscores(v@.subrange(i as int, k + 1)) =~= dots_to_underscores(v@.subrange(i as int, k as int)).push(if c == '.' { '_' } else { c }));
        k = k + 1;
    }
    push_str(&mut p, "/");
    push_str(&mut p, token);
    assert(p@ =~= request_path_spec(u@, token@));
    Ok(p)
}

/// The ring an `Activated` signal asks for: its shortcut id, when the
/// signal comes from the session currently bound and the id names a ring.
pub open spec fn activated_spec(current: Option<Seq<char>>, session: Seq<char>, id: Seq<char>)
    -> Option<Seq<char>> {
    if current == Some(session) && (id == "apps"@ || id == "windows"@ || id == "actions"@) {
        Some(id)
    } else {
        None
    }
}

/// An optional string as characters.
pub open spec fn str_opt_view(o: Option<&str>) -> Option<Seq<char>> {
    match o {
        Some(c) => Some(c@),
        None => None,
    }
}

/// Which ring, if any, an `Activated` signal opens: signals of a stale or
/// foreign session and unknown shortcut ids open none.
pub fn activated_mode(current: Option<&str>, session: &str, id: &str) -> (r: Option<&'static str>)
    ensures
        r matches Some(m) ==> activated_spec(str_opt_view(current), session@, id@) == Some(m@),
        r is None ==> activated_spec(str_opt_view(current), session@, id@) is None,
{
    proof {
        reveal_strlit("apps");
        reveal_strlit("windows");
        reveal_strlit("actions");
    }
    let same = match current {
        Some(c) => str_is(c, session),
        None => false,
    };
    if !same {
        return None;
    }
    if str_is(id, "apps") {
        Some("apps")
    } else if str_is(id, "windows") {
        Some("windows")
    } else if str_is(id, "actions") {
        Some("actions")
    } else {
        None
    }
}

} // verus!
