//! The command line: which command an argument names, and what the daemon
//! does on each control command.

use vstd::prelude::*;
use crate::ipc::Command;
use crate::ring::Mode;
use crate::text::{chars_of, str_is, string_of};

verus! {

/// What the binary was asked to do.
#[derive(Debug, Clone, PartialEq)]
pub enum Cli {
    /// Send a ring command to the running daemon.
    Send(Command),
    /// Open the settings (starting the daemon when it is not running).
    Settings,
    Daemon,
    Start,
    Stop,
    Restart,
    Status,
    Binds,
    Version,
    Help,
    Unknown(String),
}

/// The argument without its leading dashes.
pub open spec fn strip_dashes(s: Seq<char>) -> Seq<char>
    decreases s.len(),
{
    if s.len() > 0 && s[0] == '-' {
        strip_dashes(s.drop_first())
    } else {
        s
    }
}

/// The command an argument names once its leading dashes are dropped.
pub open spec fn cli_spec(word: Seq<char>) -> Option<Cli> {
    if word == "apps"@ {
        Some(Cli::Send(Command::Apps))
    } else if word == "windows"@ {
        Some(Cli::Send(Command::Windows))
    } else if word == "actions"@ {
        Some(Cli::Send(Command::Actions))
    } else if word == "settings"@ {
        Some(Cli::Settings)
    } else if word == "daemon"@ {
        Some(Cli::Daemon)
    } else if word == "start"@ {
        Some(Cli::Start)
    } else if word == "stop"@ {
        Some(Cli::Stop)
    } else if word == "restart"@ {
        Some(Cli::Restart)
    } else if word == "status"@ {
        Some(Cli::Status)
    } else if word == "binds"@ {
        Some(Cli::Binds)
    } else if word == "version"@ || word == "v"@ {
        Some(Cli::Version)
    } else if word == "help"@ || word == "h"@ || word.len() == 0 {
        Some(Cli::Help)
    } else {
        None
    }
}

/// Reads the first argument (empty when there is none): `--apps`, `-h`,
/// `status` and the like; anything else is unknown, kept without its
/// dashes.
pub fn parse_cli(arg: &str) -> (c: Cli)
    ensures
        match cli_spec(strip_dashes(arg@)) {
            Some(k) => c == k,
            None => c matches Cli::Unknown(w) && w@ == strip_dashes(arg@),
        },
{
    let v = chars_of(arg);
    let mut i: usize = 0;
    assert(v@.skip(0) =~= v@);
    while i < v.len() && v[i] == '-'
        invariant
            i <= v@.len(),
            v@ == arg@,
            strip_dashes(arg@) == strip_dashes(v@.skip(i as int)),
        decreases v.len() - i,
    {
        assert(v@.skip(i as int).drop_first() =~= v@.skip(i + 1));
        i = i + 1;
    }
    let rest = crate::text::sub_chars(v.as_slice(), i, v.len());
    assert(rest@ =~= v@.skip(i as int));
    let w = string_of(rest.as_slice());
    let ws = w.as_str();
    if str_is(ws, "apps") {
        Cli::Send(Command::Apps)
    } else if str_is(ws, "windows") {
        Cli::Send(Command::Windows)
    } else if str_is(ws, "actions") {
        Cli::Send(Command::Actions)
    } else if str_is(ws, "settings") {
        Cli::Settings
    } else if str_is(ws, "daemon") {
        Cli::Daemon
    } else if str_is(ws, "start") {
        Cli::Start
    } else if str_is(ws, "stop") {
        Cli::Stop
    } else if str_is(ws, "restart") {
        Cli::Restart
    } else if str_is(ws, "status") {
        Cli::Status
    } else if str_is(ws, "binds") {
        Cli::Binds
    } else if str_is(ws, "version") || str_is(ws, "v") {
        Cli::Version
    } else if str_is(ws, "help") || str_is(ws, "h") || rest.len() == 0 {
        Cli::Help
    } else {
        Cli::Unknown(w)
    }
}

/// What the daemon's UI does on a control command.
#[derive(Debug, Clone, Copy, PartialEq, Eq, Structural)]
pub enum UiRequest {
    /// Open the ring, or close it when that ring is open.
    Toggle(Mode),
    OpenSettings,
    Quit,
}

/// The UI request of a control command.
pub fn ui_request(cmd: Command) -> (r: UiRequest)
    ensures
        cmd == Command::Apps ==> r == UiRequest::Toggle(Mode::Apps),
        cmd == Command::Windows ==> r == UiRequest::Toggle(Mode::Windows),
        cmd == Command::Actions ==> r == UiRequest::Toggle(Mode::Actions),
        cmd == Command::Settings ==> r == UiRequest::OpenSettings,
        cmd == Command::Quit ==> r == UiRequest::Quit,
{
    match cmd {
        Command::Apps => UiRequest::Toggle(Mode::Apps),
        Command::Windows => UiRequest::Toggle(Mode::Windows),
        Command::Actions => UiRequest::Toggle(Mode::Actions),
        Command::Settings => UiRequest::OpenSettings,
        Command::Quit => UiRequest::Quit,
    }
}

} // verus!
