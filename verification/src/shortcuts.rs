//! Shortcut strings ("ctrl+shift+r") and the Hyprland keybind path: what
//! the bind lines and `hyprctl keyword` arguments say, and which provider
//! serves a session.

use vstd::prelude::*;
use crate::config::{KeybindSettings, Shortcuts as ShortcutStrings};
use crate::text::{
    chars_of, contains, lowercase, push_chars, push_str, str_is, string_of, to_lower, to_upper,
    trim, trim_chars, uppercase, views,
};

verus! {

/// A parsed key combination.
#[derive(Debug, Clone, PartialEq, Eq, Default)]
pub struct Combo {
    /// Lowercase modifiers in stored order.
    pub mods: Vec<String>,
    /// Key, case preserved.
    pub key: String,
}

impl Combo {
    /// The modifiers as character sequences.
    pub open spec fn mods_view(&self) -> Seq<Seq<char>> {
        views(self.mods@)
    }
}

/// Scanning state of `pieces`: the trimmed, non-empty pieces completed so
/// far and the characters since the last `+`.
pub open spec fn pieces_acc(s: Seq<char>) -> (Seq<Seq<char>>, Seq<char>)
    decreases s.len(),
{
    if s.len() == 0 {
        (Seq::empty(), Seq::empty())
    } else {
        let (ps, cur) = pieces_acc(s.drop_last());
        if s.last() == '+' {
            (if trim(cur).len() > 0 { ps.push(trim(cur)) } else { ps }, Seq::empty())
        } else {
            (ps, cur.push(s.last()))
        }
    }
}

/// The pieces of `s` between `+` signs, each trimmed, empty ones dropped:
/// `s.split('+').map(str::trim).filter(|p| !p.is_empty())`.
pub open spec fn pieces(s: Seq<char>) -> Seq<Seq<char>> {
    let (ps, cur) = pieces_acc(s);
    if trim(cur).len() > 0 {
        ps.push(trim(cur))
    } else {
        ps
    }
}

/// Modifiers and key of a combo string: the last piece is the key, the
/// pieces before it are the modifiers, lowercased. No pieces: no key.
pub open spec fn parse_spec(s: Seq<char>) -> (Seq<Seq<char>>, Seq<char>) {
    let p = pieces(s);
    if p.len() == 0 {
        (Seq::empty(), Seq::empty())
    } else {
        (p.drop_last().map_values(|m: Seq<char>| lowercase(m)), p.last())
    }
}

/// "ctrl+shift+r" -> mods ["ctrl", "shift"], key "r".
pub fn parse(s: &str) -> (c: Combo)
    ensures
        (c.mods_view(), c.key@) == parse_spec(s@),
{
    let v = chars_of(s);
    let mut parts: Vec<String> = Vec::new();
    let mut cur: Vec<char> = Vec::new();
    let mut i: usize = 0;
    while i < v.len()
        invariant
            i <= v@.len(),
            v@ == s@,
            (views(parts@), cur@) == pieces_acc(v@.subrange(0, i as int)),
        decreases v.len() - i,
    {
        let ghost pre = v@.subrange(0, i as int);
        assert(v@.subrange(0, i + 1).drop_last() =~= pre);
        if v[i] == '+' {
            let t = trim_chars(cur.as_slice());
            if t.len() > 0 {
                let ghost old_parts = parts@;
                parts.push(string_of(t.as_slice()));
                assert(views(parts@) =~= views(old_parts).push(t@));
            }
            cur = Vec::new();
        } else {
            cur.push(v[i]);
        }
        i = i + 1;
    }
    assert(v@.subrange(0, v@.len() as int) =~= v@);
    let t = trim_chars(cur.as_slice());
    if t.len() > 0 {
        let ghost old_parts = parts@;
        parts.push(string_of(t.as_slice()));
        assert(views(parts@) =~= views(old_parts).push(t@));
    }
    let ghost all = views(parts@);
    assert(all == pieces(s@));
    if parts.len() == 0 {
        return Combo { mods: Vec::new(), key: String::new() };
    }
    let key = parts.pop().unwrap();
    assert(views(parts@) =~= all.drop_last());
    let mut mods: Vec<String> = Vec::new();
    let mut k: usize = 0;
    while k < parts.len()
        invariant
            k <= parts@.len(),
            views(parts@) == all.drop_last(),
            views(mods@) == all.drop_last().subrange(0, k as int).map_values(|m: Seq<char>| lowercase(m)),
        decreases parts.len() - k,
    {
        let ghost old_mods = mods@;
        let lo = to_lower(parts[k].as_str());
        mods.push(lo);
        proof {
            assert(views(parts@)[k as int] == parts@[k as int]@);
            assert(views(mods@) =~= views(old_mods).push(lo@));
            assert(all.drop_last().subrange(0, k + 1) =~= all.drop_last().subrange(0, k as int).push(all.drop_last()[k as int]));
            assert(views(mods@) =~= all.drop_last().subrange(0, k + 1).map_values(|m: Seq<char>| lowercase(m)));
        }
        k = k + 1;
    }
    assert(all.drop_last().subrange(0, parts@.len() as int) =~= all.drop_last());
    Combo { mods, key }
}

/// The modifier names a key may not be on its own.
pub open spec fn is_mod_name(k: Seq<char>) -> bool {
    k == "ctrl"@ || k == "control"@ || k == "alt"@ || k == "shift"@ || k == "super"@ || k == "meta"@
}

/// A combo string is usable when it has a key and that key is not a
/// modifier name (in any case).
pub open spec fn valid_spec(s: Seq<char>) -> bool {
    let key = parse_spec(s).1;
    key.len() > 0 && !is_mod_name(lowercase(key))
}

/// Whether a combo string names a key that is not a lone modifier.
pub fn valid(s: &str) -> (b: bool)
    ensures
        b == valid_spec(s@),
{
    let c = parse(s);
    if chars_of(c.key.as_str()).len() == 0 {
        return false;
    }
    let lo = to_lower(c.key.as_str());
    let l = lo.as_str();
    let m = str_is(l, "ctrl") || str_is(l, "control") || str_is(l, "alt") || str_is(l, "shift")
        || str_is(l, "super") || str_is(l, "meta");
    !m
}

/// The pieces joined with `sep` between neighbours, as `[T]::join` does.
pub open spec fn join(parts: Seq<Seq<char>>, sep: Seq<char>) -> Seq<char>
    decreases parts.len(),
{
    if parts.len() == 0 {
        Seq::empty()
    } else if parts.len() == 1 {
        parts[0]
    } else {
        join(parts.drop_last(), sep) + sep + parts.last()
    }
}

/// Hyprland's modifier syntax for a combo: the modifiers uppercased and
/// joined by spaces ("CTRL SHIFT").
pub open spec fn hypr_mods_spec(mods: Seq<Seq<char>>) -> Seq<char> {
    join(mods.map_values(|m: Seq<char>| uppercase(m)), " "@)
}

/// Hyprland MOD syntax: "CTRL SHIFT".
pub fn hypr_mods(c: &Combo) -> (r: String)
    ensures
        r@ == hypr_mods_spec(c.mods_view()),
{
    let ghost up = c.mods_view().map_values(|m: Seq<char>| uppercase(m));
    let mut r = String::new();
    let mut k: usize = 0;
    while k < c.mods.len()
        invariant
            k <= c.mods@.len(),
            up == c.mods_view().map_values(|m: Seq<char>| uppercase(m)),
            r@ == join(up.subrange(0, k as int), " "@),
        decreases c.mods.len() - k,
    {
        let u = to_upper(c.mods[k].as_str());
        proof {
            assert(c.mods_view()[k as int] == c.mods@[k as int]@);
            assert(up.subrange(0, k + 1).drop_last() =~= up.subrange(0, k as int));
        }
        if k > 0 {
            push_str(&mut r, " ");
        } else {
            assert(up.subrange(0, 0) =~= Seq::<Seq<char>>::empty());
        }
        push_str(&mut r, u.as_str());
        proof {
            if k == 0 {
                assert(r@ =~= up.subrange(0, 1)[0]);
            } else {
                assert(r@ =~= join(up.subrange(0, k as int), " "@) + " "@ + up.subrange(0, k + 1).last());
            }
        }
        k = k + 1;
    }
    assert(up.subrange(0, c.mods@.len() as int) =~= up);
    r
}

/// The command binds run: the daemon's own binary when its path is known
/// and has no space (Hyprland does not quote exec arguments), else the bare
/// name `radiall` looked up on PATH.
pub open spec fn exec_cmd_spec(current_exe: Option<Seq<char>>) -> Seq<char> {
    match current_exe {
        Some(p) if !has_space(p) => p,
        _ => "radiall"@,
    }
}

/// `p` holds a space character.
pub open spec fn has_space(p: Seq<char>) -> bool {
    exists|i: int| 0 <= i < p.len() && p[i] == ' '
}

/// The command the binds execute, given the daemon's executable path.
pub fn exec_cmd(current_exe: Option<&str>) -> (r: String)
    ensures
        r@ == exec_cmd_spec(match current_exe { Some(p) => Some(p@), None => None }),
{
    if let Some(p) = current_exe {
        let v = chars_of(p);
        let sp = chars_of(" ");
        let found = contains(v.as_slice(), sp.as_slice());
        proof {
            reveal_strlit(" ");
            if has_space(p@) {
                let i = choose|i: int| 0 <= i < p@.len() && p@[i] == ' ';
                assert(crate::text::occurs_at(v@, sp@, i)) by {
                    assert(v@.subrange(i, i + 1) =~= sp@);
                }
            }
            if found {
                let i = choose|i: int| crate::text::occurs_at(v@, sp@, i);
                assert(v@.subrange(i, i + 1)[0] == ' ');
            }
        }
        if !found {
            return string_of(v.as_slice());
        }
    }
    let mut r = String::new();
    push_str(&mut r, "radiall");
    r
}

/// The `hyprland.conf` bind line for one ring:
/// `bind = <MODS>, <key>, exec, <exec> --<mode>` and a newline.
pub open spec fn bind_line_spec(mode: Seq<char>, mods: Seq<Seq<char>>, key: Seq<char>, exec: Seq<char>) -> Seq<char> {
    "bind = "@ + hypr_mods_spec(mods) + ", "@ + key + ", exec, "@ + exec + " --"@ + mode + "\n"@
}

/// The bind line for one ring in the binds file.
pub fn bind_line(mode: &str, combo: &Combo, exec: &str) -> (r: String)
    ensures
        r@ == bind_line_spec(mode@, combo.mods_view(), combo.key@, exec@),
{
    let mut r = String::new();
    push_str(&mut r, "bind = ");
    let m = hypr_mods(combo);
    push_str(&mut r, m.as_str());
    push_str(&mut r, ", ");
    push_str(&mut r, combo.key.as_str());
    push_str(&mut r, ", exec, ");
    push_str(&mut r, exec);
    push_str(&mut r, " --");
    push_str(&mut r, mode);
    push_str(&mut r, "\n");
    r
}

/// The combo string configured for a ring mode ("windows", "actions",
/// anything else counting as "apps").
pub open spec fn combo_for_spec(sc: ShortcutStrings, mode: Seq<char>) -> Seq<char> {
    if mode == "windows"@ {
        sc.windows@
    } else if mode == "actions"@ {
        sc.actions@
    } else {
        sc.apps@
    }
}

/// The combo string configured for a ring mode.
pub fn combo_for<'s>(settings: &'s KeybindSettings, mode: &str) -> (r: &'s str)
    ensures
        r@ == combo_for_spec(settings.shortcuts, mode@),
{
    if str_is(mode, "windows") {
        settings.shortcuts.windows.as_str()
    } else if str_is(mode, "actions") {
        settings.shortcuts.actions.as_str()
    } else {
        settings.shortcuts.apps.as_str()
    }
}

/// One ring's (ring, combo) pair when its combo is usable.
pub open spec fn combo_entry(s: KeybindSettings, mode: Seq<char>) -> Seq<(Seq<char>, (Seq<Seq<char>>, Seq<char>))> {
    let c = combo_for_spec(s.shortcuts, mode);
    if valid_spec(c) {
        seq![(mode, parse_spec(c))]
    } else {
        Seq::empty()
    }
}

/// The pairs as character sequences.
pub open spec fn combos_view(v: Seq<(&'static str, Combo)>) -> Seq<(Seq<char>, (Seq<Seq<char>>, Seq<char>))> {
    v.map_values(|p: (&'static str, Combo)| (p.0@, (p.1.mods_view(), p.1.key@)))
}

pub(crate) fn push_combo(out: &mut Vec<(&'static str, Combo)>, s: &KeybindSettings, mode: &'static str)
    ensures
        combos_view(final(out)@) == combos_view(old(out)@) + combo_entry(*s, mode@),
{
    let c = combo_for(s, mode);
    let ghost before = out@;
    if valid(c) {
        out.push((mode, parse(c)));
    }
    assert(combos_view(out@) =~= combos_view(before) + combo_entry(*s, mode@));
}

/// First line of the binds file.
pub open spec fn binds_header() -> Seq<char> {
    "# Managed by RadiAll settings. Sourced by your hyprland config.\n"@
}

/// The bind line for a ring, or nothing when its combo is not usable.
pub open spec fn mode_line(sc: ShortcutStrings, mode: Seq<char>, exec: Seq<char>) -> Seq<char> {
    let s = combo_for_spec(sc, mode);
    if valid_spec(s) {
        bind_line_spec(mode, parse_spec(s).0, parse_spec(s).1, exec)
    } else {
        Seq::empty()
    }
}

/// The binds file: the header, then one bind line per ring with a usable
/// combo, in ring order.
pub open spec fn binds_text_spec(sc: ShortcutStrings, exec: Seq<char>) -> Seq<char> {
    binds_header() + mode_line(sc, "apps"@, exec) + mode_line(sc, "windows"@, exec) + mode_line(
        sc,
        "actions"@,
        exec,
    )
}

/// The text written to the binds file when keybinds are applied live only.
pub open spec fn cleared_text() -> Seq<char> {
    "# RadiAll: keybinds applied at runtime; Hyprland config left untouched.\n"@
}

/// The bind line for `mode` if its combo is usable, else nothing.
fn push_mode_line(out: &mut String, settings: &KeybindSettings, mode: &str, exec: &str)
    ensures
        final(out)@ == old(out)@ + mode_line(settings.shortcuts, mode@, exec@),
{
    let s = combo_for(settings, mode);
    if valid(s) {
        let line = bind_line(mode, &parse(s), exec);
        push_str(out, line.as_str());
    } else {
        assert(old(out)@ + Seq::<char>::empty() =~= old(out)@);
    }
}

/// The content of the binds file the Hyprland config sources.
pub fn binds_text(settings: &KeybindSettings, exec: &str) -> (r: String)
    ensures
        r@ == binds_text_spec(settings.shortcuts, exec@),
{
    let mut out = String::new();
    push_str(&mut out, "# Managed by RadiAll settings. Sourced by your hyprland config.\n");
    push_mode_line(&mut out, settings, "apps", exec);
    push_mode_line(&mut out, settings, "windows", exec);
    push_mode_line(&mut out, settings, "actions", exec);
    out
}

/// The binds file content when nothing is persisted.
pub fn cleared_binds_text() -> (r: &'static str)
    ensures
        r@ == cleared_text(),
{
    "# RadiAll: keybinds applied at runtime; Hyprland config left untouched.\n"
}

/// Hyprland stores "a" and "A" as distinct binds yet a keypress fires
/// both, so every case variant of the key gets unbound: the key as given,
/// its lowercase form when different, and its uppercase form when
/// different and of the same length.
pub open spec fn unbind_keys(key: Seq<char>) -> Seq<Seq<char>> {
    let lo = lowercase(key);
    let up = uppercase(key);
    let a = seq![key];
    let b = if lo != key { a.push(lo) } else { a };
    if up != key && up.len() == key.len() { b.push(up) } else { b }
}

/// A step of reconciling Hyprland's live binds and the binds file.
pub enum HyprOp {
    /// `hyprctl keyword unbind <arg>`.
    Unbind(String),
    /// `hyprctl keyword bind <arg>`.
    Bind(String),
    /// Write this text to the binds file.
    WriteBindsFile(String),
    /// Write the "applied at runtime" stub to the binds file.
    ClearBindsFile,
}

/// A `HyprOp` with its strings as character sequences.
pub enum HyprOpView {
    Unbind(Seq<char>),
    Bind(Seq<char>),
    WriteBindsFile(Seq<char>),
    ClearBindsFile,
}

impl HyprOp {
    pub open spec fn view(&self) -> HyprOpView {
        match self {
            HyprOp::Unbind(a) => HyprOpView::Unbind(a@),
            HyprOp::Bind(a) => HyprOpView::Bind(a@),
            HyprOp::WriteBindsFile(t) => HyprOpView::WriteBindsFile(t@),
            HyprOp::ClearBindsFile => HyprOpView::ClearBindsFile,
        }
    }
}

/// The ops of a plan as views.
pub open spec fn ops_view(v: Seq<HyprOp>) -> Seq<HyprOpView> {
    v.map_values(|o: HyprOp| o.view())
}

/// One `unbind` per case variant of the key ([`unbind_keys`]), in that
/// order, each of `<MODS>,<variant>`.
pub open spec fn unbind_ops_spec(mods: Seq<Seq<char>>, key: Seq<char>) -> Seq<HyprOpView> {
    unbind_keys(key).map_values(|k: Seq<char>| HyprOpView::Unbind(hypr_mods_spec(mods) + ","@ + k))
}

/// Unbinding every case variant of a combo, then (when `bind`) binding it
/// to run `<exec> --<mode>`.
pub open spec fn combo_ops(mods: Seq<Seq<char>>, key: Seq<char>, mode: Seq<char>, exec: Seq<char>, bind: bool) -> Seq<HyprOpView> {
    let m = hypr_mods_spec(mods);
    let unbinds = unbind_ops_spec(mods, key);
    if bind {
        unbinds.push(HyprOpView::Bind(m + ","@ + key + ",exec,"@ + exec + " --"@ + mode))
    } else {
        unbinds
    }
}

/// The ops for one ring: those of its combo when usable, else none.
pub open spec fn mode_ops(sc: ShortcutStrings, mode: Seq<char>, exec: Seq<char>, bind: bool) -> Seq<HyprOpView> {
    let s = combo_for_spec(sc, mode);
    if valid_spec(s) {
        combo_ops(parse_spec(s).0, parse_spec(s).1, mode, exec, bind)
    } else {
        Seq::empty()
    }
}

/// Full reconcile of the Hyprland keybinds: nothing where binds cannot be
/// managed; when disabled, every ring's combo unbound and the file
/// stubbed; when enabled, the file written (or stubbed when not
/// persisted) and every ring's combo unbound and bound again.
pub open spec fn apply_plan(s: KeybindSettings, can_manage: bool, exec: Seq<char>) -> Seq<HyprOpView> {
    let sc = s.shortcuts;
    if !can_manage {
        Seq::empty()
    } else if !s.shortcuts_enabled {
        mode_ops(sc, "apps"@, exec, false) + mode_ops(sc, "windows"@, exec, false) + mode_ops(
            sc,
            "actions"@,
            exec,
            false,
        ) + seq![HyprOpView::ClearBindsFile]
    } else {
        seq![
            if s.persist_binds {
                HyprOpView::WriteBindsFile(binds_text_spec(sc, exec))
            } else {
                HyprOpView::ClearBindsFile
            },
        ] + mode_ops(sc, "apps"@, exec, true) + mode_ops(sc, "windows"@, exec, true) + mode_ops(
            sc,
            "actions"@,
            exec,
            true,
        )
    }
}

/// The steps that unbind every case variant of a combo from Hyprland's live
/// binds: the key as given, its lowercase form when different, its
/// uppercase form when different and as long (see [`unbind_keys`]).
pub fn unbind_ops(c: &Combo) -> (ops: Vec<HyprOp>)
    ensures
        ops_view(ops@) == unbind_ops_spec(c.mods_view(), c.key@),
{
    let m = hypr_mods(c);
    let key = c.key.as_str();
    let lo = to_lower(key);
    let up = to_upper(key);
    let mut keys: Vec<String> = Vec::new();
    keys.push(string_of(chars_of(key).as_slice()));
    if !str_is(lo.as_str(), key) {
        keys.push(lo);
    } else {
        assert(lo@ == key@);
    }
    let up_n = chars_of(up.as_str()).len();
    let key_n = chars_of(key).len();
    if !str_is(up.as_str(), key) && up_n == key_n {
        keys.push(up);
    }
    let ghost uk = unbind_keys(c.key@);
    assert(views(keys@) =~= uk);
    let ghost unb = unbind_ops_spec(c.mods_view(), c.key@);
    let mut ops: Vec<HyprOp> = Vec::new();
    let mut i: usize = 0;
    while i < keys.len()
        invariant
            i <= keys@.len(),
            views(keys@) == uk,
            m@ == hypr_mods_spec(c.mods_view()),
            unb == uk.map_values(|k: Seq<char>| HyprOpView::Unbind(m@ + ","@ + k)),
            ops_view(ops@) == unb.subrange(0, i as int),
        decreases keys.len() - i,
    {
        let mut arg = String::new();
        push_str(&mut arg, m.as_str());
        push_str(&mut arg, ",");
        push_str(&mut arg, keys[i].as_str());
        let ghost before = ops@;
        ops.push(HyprOp::Unbind(arg));
        proof {
            assert(views(keys@)[i as int] == keys@[i as int]@);
            assert(ops_view(ops@) =~= ops_view(before).push(HyprOpView::Unbind(arg@)));
            assert(unb.subrange(0, i + 1) =~= unb.subrange(0, i as int).push(unb[i as int]));
        }
        i = i + 1;
    }
    assert(unb.subrange(0, keys@.len() as int) =~= unb);
    ops
}

/// Appends the unbind (and bind) steps of one combo.
fn push_combo_ops(ops: &mut Vec<HyprOp>, c: &Combo, mode: &str, exec: &str, bind: bool)
    ensures
        ops_view(final(ops)@) == ops_view(old(ops)@) + combo_ops(c.mods_view(), c.key@, mode@, exec@, bind),
{
    let ghost start = ops_view(ops@);
    let ghost old_ops = ops@;
    let mut unbinds = unbind_ops(c);
    let ghost ub = unbinds@;
    ops.append(&mut unbinds);
    assert(ops@ == old_ops + ub);
    assert(ops_view(ops@) =~= start + unbind_ops_spec(c.mods_view(), c.key@));
    if bind {
        let m = hypr_mods(c);
        let mut arg = String::new();
        push_str(&mut arg, m.as_str());
        push_str(&mut arg, ",");
        push_str(&mut arg, c.key.as_str());
        push_str(&mut arg, ",exec,");
        push_str(&mut arg, exec);
        push_str(&mut arg, " --");
        push_str(&mut arg, mode);
        let ghost before = ops@;
        ops.push(HyprOp::Bind(arg));
        assert(ops_view(ops@) =~= ops_view(before).push(HyprOpView::Bind(arg@)));
        assert(ops_view(ops@) =~= start + combo_ops(c.mods_view(), c.key@, mode@, exec@, bind));
    } else {
        assert(ops_view(ops@) =~= start + combo_ops(c.mods_view(), c.key@, mode@, exec@, bind));
    }
}

/// Appends the steps for one ring.
fn push_mode_ops(ops: &mut Vec<HyprOp>, settings: &KeybindSettings, mode: &str, exec: &str, bind: bool)
    ensures
        ops_view(final(ops)@) == ops_view(old(ops)@) + mode_ops(settings.shortcuts, mode@, exec@, bind),
{
    let s = combo_for(settings, mode);
    if valid(s) {
        push_combo_ops(ops, &parse(s), mode, exec, bind);
    } else {
        assert(ops_view(ops@) + Seq::<HyprOpView>::empty() =~= ops_view(ops@));
    }
}

/// The steps that bring Hyprland's live binds and the binds file in line
/// with the settings. `exec` is the command binds run.
pub fn apply_shortcuts(settings: &KeybindSettings, can_manage: bool, exec: &str) -> (ops: Vec<HyprOp>)
    ensures
        ops_view(ops@) == apply_plan(*settings, can_manage, exec@),
{
    let mut ops: Vec<HyprOp> = Vec::new();
    assert(ops_view(ops@) =~= Seq::<HyprOpView>::empty());
    if !can_manage {
        return ops;
    }
    if !settings.shortcuts_enabled {
        push_mode_ops(&mut ops, settings, "apps", exec, false);
        push_mode_ops(&mut ops, settings, "windows", exec, false);
        push_mode_ops(&mut ops, settings, "actions", exec, false);
        let ghost before = ops@;
        ops.push(HyprOp::ClearBindsFile);
        assert(ops_view(ops@) =~= ops_view(before).push(HyprOpView::ClearBindsFile));
        assert(ops_view(ops@) =~= apply_plan(*settings, can_manage, exec@));
        return ops;
    }
    if settings.persist_binds {
        ops.push(HyprOp::WriteBindsFile(binds_text(settings, exec)));
    } else {
        ops.push(HyprOp::ClearBindsFile);
    }
    let ghost first = ops_view(ops@);
    push_mode_ops(&mut ops, settings, "apps", exec, true);
    push_mode_ops(&mut ops, settings, "windows", exec, true);
    push_mode_ops(&mut ops, settings, "actions", exec, true);
    assert(ops_view(ops@) =~= apply_plan(*settings, can_manage, exec@));
    ops
}

/// One-shortcut update after the caller stored the new combo for `mode`
/// (`old` is the previous combo string): nothing when binds cannot be
/// managed or are disabled; else the file rewritten when persisted, the
/// old combo unbound when it changed and was usable, and the new combo
/// unbound and bound when usable.
pub open spec fn update_plan(s: KeybindSettings, can_manage: bool, mode: Seq<char>, old: Seq<char>, exec: Seq<char>) -> Seq<HyprOpView> {
    let new = combo_for_spec(s.shortcuts, mode);
    if !can_manage || !s.shortcuts_enabled {
        Seq::empty()
    } else {
        (if s.persist_binds {
            seq![HyprOpView::WriteBindsFile(binds_text_spec(s.shortcuts, exec))]
        } else {
            Seq::empty()
        }) + (if old != new && valid_spec(old) {
            combo_ops(parse_spec(old).0, parse_spec(old).1, mode, exec, false)
        } else {
            Seq::empty()
        }) + (if valid_spec(new) {
            combo_ops(parse_spec(new).0, parse_spec(new).1, mode, exec, true)
        } else {
            Seq::empty()
        })
    }
}

/// With binds managed, shortcuts enabled and the binds persisted, changing
/// a ring's shortcut and reconciling all of them both start by rewriting
/// the binds file from the settings, whatever the old and new combos are.
pub proof fn lemma_persisted_binds_file_rewritten_first(s: KeybindSettings, mode: Seq<char>, old: Seq<char>, exec: Seq<char>)
    requires
        s.shortcuts_enabled,
        s.persist_binds,
    ensures
        update_plan(s, true, mode, old, exec).len() > 0,
        update_plan(s, true, mode, old, exec)[0] == HyprOpView::WriteBindsFile(binds_text_spec(s.shortcuts, exec)),
        apply_plan(s, true, exec).len() > 0,
        apply_plan(s, true, exec)[0] == HyprOpView::WriteBindsFile(binds_text_spec(s.shortcuts, exec)),
{
}

/// The steps for changing one ring's shortcut.
pub fn update_shortcut(settings: &KeybindSettings, can_manage: bool, mode: &str, old: &str, exec: &str) -> (ops: Vec<HyprOp>)
    ensures
        ops_view(ops@) == update_plan(*settings, can_manage, mode@, old@, exec@),
{
    let mut ops: Vec<HyprOp> = Vec::new();
    assert(ops_view(ops@) =~= Seq::<HyprOpView>::empty());
    if !can_manage || !settings.shortcuts_enabled {
        return ops;
    }
    if settings.persist_binds {
        ops.push(HyprOp::WriteBindsFile(binds_text(settings, exec)));
    }
    let ghost a = ops_view(ops@);
    let new = combo_for(settings, mode);
    if !str_is(old, new) && valid(old) {
        push_combo_ops(&mut ops, &parse(old), mode, exec, false);
    }
    let ghost b = ops_view(ops@);
    if valid(new) {
        push_combo_ops(&mut ops, &parse(new), mode, exec, true);
    }
    assert(ops_view(ops@) =~= update_plan(*settings, can_manage, mode@, old@, exec@));
    ops
}

/// The binds file the Hyprland config sources:
/// `<home>/.config/hypr/launcher-binds.conf`.
pub fn binds_file(home: &str) -> (p: String)
    ensures
        p@ == crate::text::path_join(crate::text::path_join(home@, ".config/hypr"@), "launcher-binds.conf"@),
{
    let dir = crate::text::join_path(home, ".config/hypr");
    crate::text::join_path(dir.as_str(), "launcher-binds.conf")
}

/// Who serves the ring shortcuts.
#[derive(Debug, Clone, Copy, PartialEq, Eq, Structural)]
pub enum ProviderKind {
    /// Hyprland: hyprctl-managed binds that exec the CLI.
    Hyprctl,
    /// XDG desktop portal org.freedesktop.portal.GlobalShortcuts.
    Portal,
    /// Plain X11 XGrabKey on the root window.
    X11,
    /// Windows: RegisterHotKey global hotkeys.
    Win,
    /// No provider; the user binds `radiall --<mode>` in their WM config.
    NoProvider,
}

/// The provider an override value names once trimmed and lowercased.
pub open spec fn override_spec(raw: Seq<char>) -> Option<ProviderKind> {
    let v = lowercase(trim(raw));
    if v == "hyprctl"@ || v == "hyprland"@ {
        Some(ProviderKind::Hyprctl)
    } else if v == "portal"@ {
        Some(ProviderKind::Portal)
    } else if v == "x11"@ {
        Some(ProviderKind::X11)
    } else if v == "win"@ || v == "windows"@ {
        Some(ProviderKind::Win)
    } else if v == "none"@ || v == "off"@ {
        Some(ProviderKind::NoProvider)
    } else {
        None
    }
}

/// RADIALL_SHORTCUTS=hyprctl|portal|x11|win|none -> kind; anything else None.
pub fn provider_override(raw: &str) -> (k: Option<ProviderKind>)
    ensures
        k == override_spec(raw@),
{
    let v = chars_of(raw);
    let t = string_of(trim_chars(v.as_slice()).as_slice());
    let lo = to_lower(t.as_str());
    let l = lo.as_str();
    if str_is(l, "hyprctl") || str_is(l, "hyprland") {
        Some(ProviderKind::Hyprctl)
    } else if str_is(l, "portal") {
        Some(ProviderKind::Portal)
    } else if str_is(l, "x11") {
        Some(ProviderKind::X11)
    } else if str_is(l, "win") || str_is(l, "windows") {
        Some(ProviderKind::Win)
    } else if str_is(l, "none") || str_is(l, "off") {
        Some(ProviderKind::NoProvider)
    } else {
        None
    }
}

/// The operating system the daemon runs on.
#[derive(Debug, Clone, Copy, PartialEq, Eq, Structural)]
pub enum Platform {
    Linux,
    Windows,
    Other,
}

/// What a session offers for picking a provider.
pub struct Session {
    /// RADIALL_SHORTCUTS, when set.
    pub override_value: Option<String>,
    /// HYPRLAND_INSTANCE_SIGNATURE set and non-empty.
    pub hyprland: bool,
    /// WAYLAND_DISPLAY set and non-empty.
    pub wayland: bool,
    /// DISPLAY set and non-empty.
    pub display: bool,
    /// The session bus offers the GlobalShortcuts portal.
    pub portal_available: bool,
}

/// The provider for a session: a recognised override wins outright;
/// otherwise Windows uses hotkeys, and on Linux Hyprland gets hyprctl
/// binds, other Wayland the portal when offered (else none: X11 grabs
/// through XWayland only fire while an X11 client has focus), bare X11 key
/// grabs, anything else none.
pub open spec fn detect_spec(platform: Platform, s: Session) -> ProviderKind {
    let forced = match s.override_value {
        Some(raw) => override_spec(raw@),
        None => None,
    };
    match forced {
        Some(k) => k,
        None => match platform {
            Platform::Windows => ProviderKind::Win,
            Platform::Linux => if s.hyprland {
                ProviderKind::Hyprctl
            } else if s.wayland {
                if s.portal_available { ProviderKind::Portal } else { ProviderKind::NoProvider }
            } else if s.display {
                ProviderKind::X11
            } else {
                ProviderKind::NoProvider
            },
            Platform::Other => ProviderKind::NoProvider,
        },
    }
}

/// Picks the shortcut provider for this session.
pub fn detect_provider(platform: Platform, session: &Session) -> (k: ProviderKind)
    ensures
        k == detect_spec(platform, *session),
{
    if let Some(raw) = &session.override_value {
        if let Some(kind) = provider_override(raw.as_str()) {
            return kind;
        }
    }
    match platform {
        Platform::Windows => ProviderKind::Win,
        Platform::Linux => {
            if session.hyprland {
                ProviderKind::Hyprctl
            } else if session.wayland {
                if session.portal_available {
                    ProviderKind::Portal
                } else {
                    ProviderKind::NoProvider
                }
            } else if session.display {
                ProviderKind::X11
            } else {
                ProviderKind::NoProvider
            }
        },
        Platform::Other => ProviderKind::NoProvider,
    }
}

/// The provider that ends up running when `requested` was started and
/// `started` says whether its threads came up: hyprctl binds need nothing
/// started; portal, X11 and Windows providers that fail degrade to none;
/// kinds foreign to the platform are none.
pub open spec fn running_kind(platform: Platform, requested: ProviderKind, started: bool) -> ProviderKind {
    match platform {
        Platform::Linux => match requested {
            ProviderKind::Hyprctl => ProviderKind::Hyprctl,
            ProviderKind::Portal => if started { ProviderKind::Portal } else { ProviderKind::NoProvider },
            ProviderKind::X11 => if started { ProviderKind::X11 } else { ProviderKind::NoProvider },
            _ => ProviderKind::NoProvider,
        },
        Platform::Windows => match requested {
            ProviderKind::Win => if started { ProviderKind::Win } else { ProviderKind::NoProvider },
            _ => ProviderKind::NoProvider,
        },
        Platform::Other => ProviderKind::NoProvider,
    }
}

/// Handle on the active global-shortcut provider.
pub struct Shortcuts {
    kind: ProviderKind,
}

/// The name a provider kind is logged and shown under.
pub open spec fn backend_name_spec(k: ProviderKind) -> Seq<char> {
    match k {
        ProviderKind::Hyprctl => "hyprland"@,
        ProviderKind::Portal => "portal"@,
        ProviderKind::X11 => "x11"@,
        ProviderKind::Win => "win"@,
        ProviderKind::NoProvider => "none"@,
    }
}

impl Shortcuts {
    /// The handle after starting `requested` (see `running_kind`).
    pub fn started(platform: Platform, requested: ProviderKind, started: bool) -> (s: Shortcuts)
        ensures
            s.kind() == running_kind(platform, requested, started),
    {
        let kind = match platform {
            Platform::Linux => match requested {
                ProviderKind::Hyprctl => ProviderKind::Hyprctl,
                ProviderKind::Portal => if started { ProviderKind::Portal } else { ProviderKind::NoProvider },
                ProviderKind::X11 => if started { ProviderKind::X11 } else { ProviderKind::NoProvider },
                _ => ProviderKind::NoProvider,
            },
            Platform::Windows => match requested {
                ProviderKind::Win => if started { ProviderKind::Win } else { ProviderKind::NoProvider },
                _ => ProviderKind::NoProvider,
            },
            Platform::Other => ProviderKind::NoProvider,
        };
        Shortcuts { kind }
    }

    pub closed spec fn kind_spec(&self) -> ProviderKind {
        self.kind
    }

    /// The running provider's kind.
    #[verifier::when_used_as_spec(kind_spec)]
    pub fn kind(&self) -> (k: ProviderKind)
        ensures
            k == self.kind_spec(),
    {
        self.kind
    }

    /// The running provider's name.
    pub fn backend_name(&self) -> (n: &'static str)
        ensures
            n@ == backend_name_spec(self.kind()),
    {
        match self.kind {
            ProviderKind::Hyprctl => "hyprland",
            ProviderKind::Portal => "portal",
            ProviderKind::X11 => "x11",
            ProviderKind::Win => "win",
            ProviderKind::NoProvider => "none",
        }
    }
}

} // verus!
