//! The Hyprland IPC adapter's decisions: socket paths, the request strings
//! of window operations and overlay rules, how `j/clients` entries become
//! windows, and how event-socket lines are classified.

use vstd::prelude::*;
use crate::compositor::{WindowInfo, WindowInfoView};
use crate::text::{
    after_first, before_first, chars_of, path_join, join_path, push_str, split_first, str_is,
    string_of, trim, trim_chars,
};

verus! {

/// The two sockets of a Hyprland instance.
pub struct HyprlandCompositor {
    /// `.socket.sock`: write a command, read the reply to EOF.
    pub req_path: String,
    /// `.socket2.sock`: newline-delimited `EVENT>>DATA` lines.
    pub event_path: String,
}

/// The instance directory: `<runtime>/hypr/<signature>`.
pub open spec fn instance_dir(runtime: Seq<char>, sig: Seq<char>) -> Seq<char> {
    path_join(path_join(runtime, "hypr"@), sig)
}

impl HyprlandCompositor {
    /// The sockets of the instance with this signature under this runtime
    /// directory.
    pub fn at(runtime: &str, sig: &str) -> (h: HyprlandCompositor)
        ensures
            h.req_path@ == path_join(instance_dir(runtime@, sig@), ".socket.sock"@),
            h.event_path@ == path_join(instance_dir(runtime@, sig@), ".socket2.sock"@),
    {
        let hypr = join_path(runtime, "hypr");
        let dir = join_path(hypr.as_str(), sig);
        HyprlandCompositor {
            req_path: join_path(dir.as_str(), ".socket.sock"),
            event_path: join_path(dir.as_str(), ".socket2.sock"),
        }
    }

    /// Hyprland floats windows.
    pub fn can_float(&self) -> (b: bool)
        ensures
            b,
    {
        true
    }

    /// Hyprland sends key combos to windows.
    pub fn can_send_keys(&self) -> (b: bool)
        ensures
            b,
    {
        true
    }
}

/// The request for a dispatcher: `dispatch <cmd>`.
pub fn dispatch(cmd: &str) -> (r: String)
    ensures
        r@ == "dispatch "@ + cmd@,
{
    let mut r = String::from_str("dispatch ");
    push_str(&mut r, cmd);
    r
}

/// A reply that acknowledges a request: `ok`, surrounding whitespace
/// aside.
pub fn reply_ok(reply: &str) -> (b: bool)
    ensures
        b == (trim(reply@) == "ok"@),
{
    let v = chars_of(reply);
    let t = trim_chars(v.as_slice());
    let s = string_of(t.as_slice());
    str_is(s.as_str(), "ok")
}

/// A window operation as Hyprland dispatchers.
pub enum WindowCommand {
    Focus,
    Close,
    Fullscreen,
    ToggleFloat,
    /// Send a combo: a modmask string ("SUPER SHIFT") and a key.
    SendKeys(String, String),
}

/// The dispatcher commands of an operation on window `id`, in order:
/// fullscreen focuses the window first.
pub open spec fn commands_spec(op: WindowCommand, id: Seq<char>) -> Seq<Seq<char>> {
    match op {
        WindowCommand::Focus => seq!["focuswindow address:"@ + id],
        WindowCommand::Close => seq!["closewindow address:"@ + id],
        WindowCommand::Fullscreen => seq!["focuswindow address:"@ + id, "fullscreen 1"@],
        WindowCommand::ToggleFloat => seq!["togglefloating address:"@ + id],
        WindowCommand::SendKeys(m, k) => seq!["sendshortcut "@ + m@ + ", "@ + k@ + ", address:"@ + id],
    }
}

fn prefixed(prefix: &str, id: &str) -> (r: String)
    ensures
        r@ == prefix@ + id@,
{
    let mut r = String::from_str(prefix);
    push_str(&mut r, id);
    r
}

/// The dispatcher commands of an operation (see [`commands_spec`]).
pub fn commands_for(op: WindowCommand, id: &str) -> (r: Vec<String>)
    ensures
        crate::text::views(r@) == commands_spec(op, id@),
{
    let ghost spec = commands_spec(op, id@);
    let mut r: Vec<String> = Vec::new();
    match op {
        WindowCommand::Focus => r.push(prefixed("focuswindow address:", id)),
        WindowCommand::Close => r.push(prefixed("closewindow address:", id)),
        WindowCommand::Fullscreen => {
            r.push(prefixed("focuswindow address:", id));
            r.push(String::from_str("fullscreen 1"));
        },
        WindowCommand::ToggleFloat => r.push(prefixed("togglefloating address:", id)),
        WindowCommand::SendKeys(m, k) => {
            let mut c = String::from_str("sendshortcut ");
            push_str(&mut c, m.as_str());
            push_str(&mut c, ", ");
            push_str(&mut c, k.as_str());
            push_str(&mut c, ", address:");
            push_str(&mut c, id);
            r.push(c);
        },
    }
    assert(crate::text::views(r@) =~= spec);
    r
}

/// One `j/clients` entry, as the fields the adapter reads (None where the
/// field is missing or of another JSON type).
pub struct HyprClient {
    pub mapped: Option<bool>,
    pub address: Option<String>,
    pub class: Option<String>,
    pub initial_class: Option<String>,
    pub title: Option<String>,
}

/// The characters of an optional string, empty when absent.
pub open spec fn or_empty(o: Option<String>) -> Seq<char> {
    match o {
        Some(s) => s@,
        None => Seq::empty(),
    }
}

/// How a client entry is listed: unmapped clients and clients without an
/// address or any class are not; the class falls back to the initial
/// class; focused when its address is the active one.
pub open spec fn client_spec(c: HyprClient, active_addr: Option<Seq<char>>) -> Option<WindowInfoView> {
    let address = or_empty(c.address);
    let cls = if or_empty(c.class).len() > 0 { or_empty(c.class) } else { or_empty(c.initial_class) };
    if !(c.mapped == Some(true)) || cls.len() == 0 || address.len() == 0 {
        None
    } else {
        Some(WindowInfoView { id: address, app_id: cls, title: or_empty(c.title), focused: active_addr == Some(address) })
    }
}

fn text_or_empty(o: &Option<String>) -> (r: String)
    ensures
        r@ == or_empty(*o),
{
    match o {
        Some(s) => s.clone(),
        None => String::new(),
    }
}

/// One client entry's window (see [`client_spec`]).
pub fn window_info(c: &HyprClient, active_addr: Option<&str>) -> (r: Option<WindowInfo>)
    ensures
        match client_spec(*c, match active_addr { Some(a) => Some(a@), None => None }) {
            Some(w) => r matches Some(x) && x@ == w,
            None => r is None,
        },
{
    let mapped = match c.mapped {
        Some(b) => b,
        None => false,
    };
    if !mapped {
        return None;
    }
    let address = text_or_empty(&c.address);
    let mut app_id = text_or_empty(&c.class);
    if app_id.as_str().is_empty() {
        app_id = text_or_empty(&c.initial_class);
    }
    if app_id.as_str().is_empty() || address.as_str().is_empty() {
        return None;
    }
    let focused = match active_addr {
        Some(a) => str_is(a, address.as_str()),
        None => false,
    };
    Some(WindowInfo { id: address, app_id, title: text_or_empty(&c.title), focused })
}

/// The listed clients of a reply, in order.
pub open spec fn listed_clients(clients: Seq<HyprClient>, aa: Option<Seq<char>>) -> Seq<WindowInfoView> {
    clients.filter_map(|c: HyprClient| client_spec(c, aa))
}

/// The window list of a `j/clients` reply: its listed clients in order.
pub fn query_windows(clients: &Vec<HyprClient>, active_addr: Option<&str>) -> (r: Vec<WindowInfo>)
    ensures
        crate::compositor::infos_view(r@) == listed_clients(clients@, match active_addr {
            Some(a) => Some(a@),
            None => None,
        }),
{
    let ghost aa = match active_addr { Some(a) => Some(a@), None => None };
    let ghost f = |c: HyprClient| client_spec(c, aa);
    let mut r: Vec<WindowInfo> = Vec::new();
    let mut i: usize = 0;
    while i < clients.len()
        invariant
            i <= clients@.len(),
            aa == (match active_addr { Some(a) => Some(a@), None => None::<Seq<char>> }),
            f == (|c: HyprClient| client_spec(c, aa)),
            crate::compositor::infos_view(r@) == clients@.take(i as int).filter_map(f),
        decreases clients.len() - i,
    {
        let ghost before = r@;
        proof {
            assert(clients@.take(i + 1).drop_last() =~= clients@.take(i as int));
            assert(clients@.take(i + 1).last() == clients@[i as int]);
        }
        match window_info(&clients[i], active_addr) {
            Some(w) => {
                r.push(w);
                assert(crate::compositor::infos_view(r@) =~= crate::compositor::infos_view(before) + seq![r@.last()@]);
            },
            None => {},
        }
        i = i + 1;
    }
    assert(clients@.take(clients@.len() as int) =~= clients@);
    assert(listed_clients(clients@, aa) == clients@.filter_map(f));
    r
}

/// The focused window of a `j/activewindow` reply: the reply's client,
/// focused by its own address; none without a reply or an address.
pub fn query_active(reply: Option<&HyprClient>) -> (r: Option<WindowInfo>)
    ensures
        match reply {
            Some(c) => match c.address {
                Some(a) => match client_spec(*c, Some(a@)) {
                    Some(w) => r matches Some(x) && x@ == w,
                    None => r is None,
                },
                None => r is None,
            },
            None => r is None,
        },
{
    let c = match reply {
        Some(c) => c,
        None => return None,
    };
    match &c.address {
        Some(a) => window_info(c, Some(a.as_str())),
        None => None,
    }
}

/// What an event-socket line asks for.
#[derive(Debug, Clone, Copy, PartialEq, Eq, Structural)]
pub enum HyprEvent {
    /// Re-query and push the window list.
    Windows,
    /// Re-query and push the focused window.
    Active,
    /// Re-apply the overlay rules and tell the daemon to restore binds.
    ConfigReloaded,
    Ignore,
}

/// The event name of a line: the text before the first `>>`.
pub open spec fn event_name(line: Seq<char>) -> Seq<char> {
    before_first(line, ">>"@)
}

/// Which events refresh what.
pub open spec fn classify_spec(name: Seq<char>) -> HyprEvent {
    if name == "openwindow"@ || name == "closewindow"@ || name == "movewindow"@ || name == "windowtitle"@
        || name == "windowtitlev2"@ || name == "changefloatingmode"@ || name == "fullscreen"@ {
        HyprEvent::Windows
    } else if name == "activewindow"@ || name == "activewindowv2"@ {
        HyprEvent::Active
    } else if name == "configreloaded"@ {
        HyprEvent::ConfigReloaded
    } else {
        HyprEvent::Ignore
    }
}

fn sep_arrows() -> (r: Vec<char>)
    ensures
        r@ == ">>"@,
        r@.len() == 2,
{
    proof {
        reveal_strlit(">>");
    }
    let r = vec!['>', '>'];
    assert(r@ =~= ">>"@);
    r
}

/// Classifies an event-socket line.
pub fn classify(line: &str) -> (e: HyprEvent)
    ensures
        e == classify_spec(event_name(line@)),
{
    let v = chars_of(line);
    let arrows = sep_arrows();
    let (head, _) = split_first(v.as_slice(), arrows.as_slice());
    let name = string_of(head.as_slice());
    let n = name.as_str();
    if str_is(n, "openwindow") || str_is(n, "closewindow") || str_is(n, "movewindow") || str_is(n, "windowtitle")
        || str_is(n, "windowtitlev2") || str_is(n, "changefloatingmode") || str_is(n, "fullscreen") {
        HyprEvent::Windows
    } else if str_is(n, "activewindow") || str_is(n, "activewindowv2") {
        HyprEvent::Active
    } else if str_is(n, "configreloaded") {
        HyprEvent::ConfigReloaded
    } else {
        HyprEvent::Ignore
    }
}

/// The data of a line: the text between the first and the second `>>`
/// (empty without a first).
pub open spec fn event_data(line: Seq<char>) -> Seq<char> {
    match after_first(line, ">>"@) {
        Some(rest) => before_first(rest, ">>"@),
        None => Seq::empty(),
    }
}

/// The title field of `openwindow` data `ADDRESS,WORKSPACE,CLASS,TITLE`:
/// everything after the third comma.
pub open spec fn title_field(data: Seq<char>) -> Option<Seq<char>> {
    match after_first(data, ","@) {
        Some(a) => match after_first(a, ","@) {
            Some(b) => after_first(b, ","@),
            None => None,
        },
        None => None,
    }
}

/// The ring overlay just mapped: an `openwindow` line whose title is
/// `RadiAll`, with a non-empty address, gives that address.
pub open spec fn overlay_opened_spec(line: Seq<char>) -> Option<Seq<char>> {
    let data = event_data(line);
    let addr = before_first(data, ","@);
    if event_name(line) == "openwindow"@ && title_field(data) == Some("RadiAll"@) && addr.len() > 0 {
        Some(addr)
    } else {
        None
    }
}

fn comma() -> (r: Vec<char>)
    ensures
        r@ == ","@,
        r@.len() == 1,
{
    proof {
        reveal_strlit(",");
    }
    let r = vec![','];
    assert(r@ =~= ","@);
    r
}

/// The address of the ring overlay when this line reports it mapped (see
/// [`overlay_opened_spec`]).
pub fn overlay_opened(line: &str) -> (r: Option<String>)
    ensures
        match overlay_opened_spec(line@) {
            Some(a) => r matches Some(s) && s@ == a,
            None => r is None,
        },
{
    let v = chars_of(line);
    let arrows = sep_arrows();
    let c = comma();
    let (head, rest) = split_first(v.as_slice(), arrows.as_slice());
    let name = string_of(head.as_slice());
    let data: Vec<char> = match rest {
        Some(r) => split_first(r.as_slice(), arrows.as_slice()).0,
        None => {
            let e: Vec<char> = Vec::new();
            assert(e@ =~= Seq::<char>::empty());
            e
        },
    };
    let (addr, a) = split_first(data.as_slice(), c.as_slice());
    let title: Option<Vec<char>> = match a {
        Some(a) => match split_first(a.as_slice(), c.as_slice()).1 {
            Some(b) => split_first(b.as_slice(), c.as_slice()).1,
            None => None,
        },
        None => None,
    };
    let is_ring = match &title {
        Some(t) => str_is(string_of(t.as_slice()).as_str(), "RadiAll"),
        None => false,
    };
    if str_is(name.as_str(), "openwindow") && is_ring && addr.len() > 0 {
        Some(string_of(addr.as_slice()))
    } else {
        None
    }
}

/// The requests that force the freshly mapped overlay to cover its
/// monitor (the `size 100% 100%` rule is unreliable on newer Hyprland).
pub fn overlay_fix(addr: &str) -> (r: Vec<String>)
    ensures
        crate::text::views(r@) == seq![
            "dispatch resizewindowpixel exact 100% 100%,address:0x"@ + addr@,
            "dispatch movewindowpixel exact 0 0,address:0x"@ + addr@,
        ],
{
    let mut r: Vec<String> = Vec::new();
    r.push(prefixed("dispatch resizewindowpixel exact 100% 100%,address:0x", addr));
    r.push(prefixed("dispatch movewindowpixel exact 0 0,address:0x", addr));
    assert(crate::text::views(r@) =~= seq![
        "dispatch resizewindowpixel exact 100% 100%,address:0x"@ + addr@,
        "dispatch movewindowpixel exact 0 0,address:0x"@ + addr@,
    ]);
    r
}

/// The overlay window-rule effects in the syntax of Hyprland >= 0.53.
pub open spec fn effects_new() -> Seq<Seq<char>> {
    seq![
        "float on"@, "size 100% 100%"@, "move 0 0"@, "pin on"@, "border_size 0"@, "rounding 0"@,
        "no_shadow on"@, "no_blur on"@, "no_anim on"@,
    ]
}

/// The overlay window-rule effects in the older `windowrulev2` syntax.
pub open spec fn effects_legacy() -> Seq<Seq<char>> {
    seq![
        "float"@, "size 100% 100%"@, "move 0 0"@, "pin"@, "noborder"@, "norounding"@, "noshadow"@,
        "noblur"@, "noanim"@,
    ]
}

/// The `hyprctl keyword windowrule` arguments: each effect keyed on the
/// ring window's title.
pub fn overlay_rules_new() -> (r: Vec<String>)
    ensures
        crate::text::views(r@) == effects_new().map_values(|e: Seq<char>| e + ", match:title ^(RadiAll)$"@),
{
    let effects = [
        "float on", "size 100% 100%", "move 0 0", "pin on", "border_size 0", "rounding 0", "no_shadow on",
        "no_blur on", "no_anim on",
    ];
    let mut r: Vec<String> = Vec::new();
    let mut i: usize = 0;
    while i < 9
        invariant
            i <= 9,
            effects@ == effects_new_strs(),
            r@.len() == i,
            forall|k: int| 0 <= k < i ==> #[trigger] r@[k]@ == effects_new()[k] + ", match:title ^(RadiAll)$"@,
        decreases 9 - i,
    {
        let mut s = String::from_str(effects[i]);
        push_str(&mut s, ", match:title ^(RadiAll)$");
        proof {
            assert(effects@[i as int]@ == effects_new()[i as int]);
        }
        r.push(s);
        i = i + 1;
    }
    assert(crate::text::views(r@) =~= effects_new().map_values(|e: Seq<char>| e + ", match:title ^(RadiAll)$"@));
    r
}

/// The new-syntax effects as string slices.
pub open spec fn effects_new_strs() -> Seq<&'static str> {
    seq![
        "float on", "size 100% 100%", "move 0 0", "pin on", "border_size 0", "rounding 0", "no_shadow on",
        "no_blur on", "no_anim on",
    ]
}

/// The legacy-syntax effects as string slices.
pub open spec fn effects_legacy_strs() -> Seq<&'static str> {
    seq!["float", "size 100% 100%", "move 0 0", "pin", "noborder", "norounding", "noshadow", "noblur", "noanim"]
}

/// The `hyprctl keyword windowrulev2` arguments.
pub fn overlay_rules_legacy() -> (r: Vec<String>)
    ensures
        crate::text::views(r@) == effects_legacy().map_values(|e: Seq<char>| e + ", title:^(RadiAll)$"@),
{
    let effects = ["float", "size 100% 100%", "move 0 0", "pin", "noborder", "norounding", "noshadow", "noblur", "noanim"];
    let mut r: Vec<String> = Vec::new();
    let mut i: usize = 0;
    while i < 9
        invariant
            i <= 9,
            effects@ == effects_legacy_strs(),
            r@.len() == i,
            forall|k: int| 0 <= k < i ==> #[trigger] r@[k]@ == effects_legacy()[k] + ", title:^(RadiAll)$"@,
        decreases 9 - i,
    {
        let mut s = String::from_str(effects[i]);
        push_str(&mut s, ", title:^(RadiAll)$");
        proof {
            assert(effects@[i as int]@ == effects_legacy()[i as int]);
        }
        r.push(s);
        i = i + 1;
    }
    assert(crate::text::views(r@) =~= effects_legacy().map_values(|e: Seq<char>| e + ", title:^(RadiAll)$"@));
    r
}

/// Whether `hyprctl keyword` accepted a rule: it exits 0 for rejected
/// keywords too, so acceptance is its output reading `ok`.
pub fn keyword_ok(success: bool, stdout: &str) -> (b: bool)
    ensures
        b == (success && trim(stdout@) == "ok"@),
{
    success && reply_ok(stdout)
}

/// The outcome of applying the new-syntax rules, given each rule's result
/// (None: hyprctl could not run, which stops the run): None when hyprctl
/// could not run, else whether every rule was accepted.
pub fn new_rules_outcome(results: &[Option<bool>]) -> (r: Option<bool>)
    ensures
        (exists|i: int| 0 <= i < results@.len() && results@[i] is None) ==> r is None,
        (forall|i: int| 0 <= i < results@.len() ==> results@[i] is Some) ==> r == Some(
            forall|i: int| 0 <= i < results@.len() ==> results@[i] == Some(true)),
{
    let mut all = true;
    let mut i: usize = 0;
    while i < results.len()
        invariant
            i <= results@.len(),
            forall|j: int| 0 <= j < i ==> results@[j] is Some,
            all == (forall|j: int| 0 <= j < i ==> results@[j] == Some(true)),
        decreases results.len() - i,
    {
        match results[i] {
            None => return None,
            Some(ok) => {
                all = all && ok;
            },
        }
        i = i + 1;
    }
    Some(all)
}

/// Whether the overlay is set up: the new syntax when it is wholly
/// accepted, else (when hyprctl ran) the legacy syntax when each of its
/// rules is accepted; never without hyprctl.
pub fn overlay_verdict(new_outcome: Option<bool>, legacy: &[Option<bool>]) -> (b: bool)
    ensures
        b == match new_outcome {
            None => false,
            Some(true) => true,
            Some(false) => forall|i: int| 0 <= i < legacy@.len() ==> legacy@[i] == Some(true),
        },
{
    match new_outcome {
        None => false,
        Some(true) => true,
        Some(false) => {
            let mut i: usize = 0;
            while i < legacy.len()
                invariant
                    i <= legacy@.len(),
                    new_outcome == Some(false),
                    forall|j: int| 0 <= j < i ==> legacy@[j] == Some(true),
                decreases legacy.len() - i,
            {
                match legacy[i] {
                    Some(true) => {},
                    _ => {
                        assert(legacy@[i as int] != Some(true));
                        return false;
                    },
                }
                i = i + 1;
            }
            true
        },
    }
}

} // verus!
