//! The daemon's control protocol. The CLI (and the tray menu) send one
//! ASCII line per request ("apps", "windows", "actions", "settings", "ping",
//! "quit") and read a one-line reply ("ok" / "unknown").

use vstd::prelude::*;
use crate::text::{chars_of, eq_chars, push_chars, push_str, str_is, trim, trim_chars};

verus! {

/// A request the daemon acts on.
#[derive(Debug, Clone, Copy, PartialEq, Eq, Structural)]
pub enum Command {
    Apps,
    Windows,
    Actions,
    Settings,
    Quit,
}

/// The wire word of a command.
pub open spec fn word(c: Command) -> Seq<char> {
    match c {
        Command::Apps => "apps"@,
        Command::Windows => "windows"@,
        Command::Actions => "actions"@,
        Command::Settings => "settings"@,
        Command::Quit => "quit"@,
    }
}

/// The command a request line names once surrounding whitespace is
/// trimmed, if any.
pub open spec fn parse_spec(s: Seq<char>) -> Option<Command> {
    let t = trim(s);
    if t == "apps"@ {
        Some(Command::Apps)
    } else if t == "windows"@ {
        Some(Command::Windows)
    } else if t == "actions"@ {
        Some(Command::Actions)
    } else if t == "settings"@ {
        Some(Command::Settings)
    } else if t == "quit"@ {
        Some(Command::Quit)
    } else {
        None
    }
}

impl Command {
    /// Reads a request line (surrounding whitespace ignored).
    pub fn parse(s: &str) -> (c: Option<Self>)
        ensures
            c == parse_spec(s@),
    {
        let v = chars_of(s);
        let t = trim_chars(v.as_slice());
        let w = |lit: &str| -> (b: bool)
            ensures
                b == (t@ == lit@),
            {
                let l = chars_of(lit);
                eq_chars(t.as_slice(), l.as_slice())
            };
        if w("apps") {
            Some(Self::Apps)
        } else if w("windows") {
            Some(Self::Windows)
        } else if w("actions") {
            Some(Self::Actions)
        } else if w("settings") {
            Some(Self::Settings)
        } else if w("quit") {
            Some(Self::Quit)
        } else {
            None
        }
    }

    /// The wire word of this command.
    pub fn as_str(self) -> (s: &'static str)
        ensures
            s@ == word(self),
    {
        match self {
            Self::Apps => "apps",
            Self::Windows => "windows",
            Self::Actions => "actions",
            Self::Settings => "settings",
            Self::Quit => "quit",
        }
    }
}

/// Every command's wire word reads back as that command.
pub proof fn lemma_parse_as_str(c: Command)
    ensures
        parse_spec(word(c)) == Some(c),
{
    reveal_strlit("apps");
    reveal_strlit("windows");
    reveal_strlit("actions");
    reveal_strlit("settings");
    reveal_strlit("quit");
    crate::text::lemma_trim_unchanged(word(c));
}

/// What the daemon does with one request line: the command to run (none
/// for "ping" and for unknown lines) and the reply line to send.
pub open spec fn handle_spec(line: Seq<char>) -> (Option<Command>, Seq<char>) {
    if trim(line) == "ping"@ {
        (None, "ok\n"@)
    } else {
        match parse_spec(line) {
            Some(c) => (Some(c), "ok\n"@),
            None => (None, "unknown\n"@),
        }
    }
}

/// Maps one request line to the command to dispatch and the reply. Shared
/// by both transports so the wire protocol cannot drift between them.
pub fn handle_line(line: &str) -> (r: (Option<Command>, &'static str))
    ensures
        r.0 == handle_spec(line@).0,
        r.1@ == handle_spec(line@).1,
{
    let v = chars_of(line);
    let t = trim_chars(v.as_slice());
    let p = chars_of("ping");
    if eq_chars(t.as_slice(), p.as_slice()) {
        return (None, "ok\n");
    }
    match Command::parse(line) {
        Some(cmd) => (Some(cmd), "ok\n"),
        None => (None, "unknown\n"),
    }
}

/// Whether a daemon answered a ping: `reply` is the line read back (None
/// when the endpoint could not be reached); a live daemon answers "ok".
pub fn ping(reply: Option<&str>) -> (alive: bool)
    ensures
        alive == (reply matches Some(r) && trim(r@) == "ok"@),
{
    match reply {
        None => false,
        Some(r) => {
            let v = chars_of(r);
            let t = trim_chars(v.as_slice());
            let ok = chars_of("ok");
            eq_chars(t.as_slice(), ok.as_slice())
        },
    }
}

/// The message `send` fails with when the daemon answered something else
/// than "ok".
pub open spec fn replied_msg(reply: Seq<char>) -> Seq<char> {
    "daemon replied: "@ + trim(reply)
}

/// The message `send` fails with when the endpoint could not be reached.
pub open spec fn unreachable_msg(err: Seq<char>) -> Seq<char> {
    "couldn't reach the launcher ("@ + err + "). Is it running?  (radiall --start)"@
}

/// The outcome of sending a command: `reply` is the line the daemon sent
/// back, or the transport error when it could not be reached.
pub fn send(reply: Result<&str, &str>) -> (r: Result<(), String>)
    ensures
        match reply {
            Ok(line) => if trim(line@) == "ok"@ {
                r is Ok
            } else {
                r matches Err(m) && m@ == replied_msg(line@)
            },
            Err(e) => r matches Err(m) && m@ == unreachable_msg(e@),
        },
{
    match reply {
        Ok(line) => {
            let v = chars_of(line);
            let t = trim_chars(v.as_slice());
            let ok = chars_of("ok");
            if eq_chars(t.as_slice(), ok.as_slice()) {
                Ok(())
            } else {
                let mut m = String::new();
                push_str(&mut m, "daemon replied: ");
                push_chars(&mut m, t.as_slice());
                Err(m)
            }
        },
        Err(e) => {
            let mut m = String::new();
            push_str(&mut m, "couldn't reach the launcher (");
            push_str(&mut m, e);
            push_str(&mut m, "). Is it running?  (radiall --start)");
            Err(m)
        },
    }
}

} // verus!
