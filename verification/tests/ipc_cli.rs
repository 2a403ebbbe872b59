use radiall::cli::{parse_cli, ui_request, Cli, UiRequest};
use radiall::ipc::{handle_line, ping, send, Command};
use radiall::ring::Mode;

#[test]
fn command_words_round_trip() {
    for c in [Command::Apps, Command::Windows, Command::Actions, Command::Settings, Command::Quit] {
        assert_eq!(Command::parse(c.as_str()), Some(c));
    }
    assert_eq!(Command::Apps.as_str(), "apps");
    assert_eq!(Command::Quit.as_str(), "quit");
}

#[test]
fn command_parse_trims_and_rejects() {
    assert_eq!(Command::parse("  windows\n"), Some(Command::Windows));
    assert_eq!(Command::parse("Apps"), None);
    assert_eq!(Command::parse(""), None);
    assert_eq!(Command::parse("app"), None);
}

#[test]
fn handle_line_answers() {
    assert_eq!(handle_line("ping\n"), (None, "ok\n"));
    assert_eq!(handle_line("actions\n"), (Some(Command::Actions), "ok\n"));
    assert_eq!(handle_line("bogus\n"), (None, "unknown\n"));
}

#[test]
fn ping_needs_an_ok_reply() {
    assert!(ping(Some("ok\n")));
    assert!(!ping(Some("unknown\n")));
    assert!(!ping(None));
}

#[test]
fn send_reports_each_failure() {
    assert_eq!(send(Ok("ok\n")), Ok(()));
    assert_eq!(send(Ok("unknown\n")), Err("daemon replied: unknown".to_string()));
    assert_eq!(
        send(Err("No such file or directory")),
        Err("couldn't reach the launcher (No such file or directory). Is it running?  (radiall --start)".to_string())
    );
}

#[test]
fn cli_words_strip_dashes() {
    assert_eq!(parse_cli("--apps"), Cli::Send(Command::Apps));
    assert_eq!(parse_cli("windows"), Cli::Send(Command::Windows));
    assert_eq!(parse_cli("-actions"), Cli::Send(Command::Actions));
    assert_eq!(parse_cli("--settings"), Cli::Settings);
    assert_eq!(parse_cli("--daemon"), Cli::Daemon);
    assert_eq!(parse_cli("--start"), Cli::Start);
    assert_eq!(parse_cli("--stop"), Cli::Stop);
    assert_eq!(parse_cli("--restart"), Cli::Restart);
    assert_eq!(parse_cli("--status"), Cli::Status);
    assert_eq!(parse_cli("--binds"), Cli::Binds);
    assert_eq!(parse_cli("-v"), Cli::Version);
    assert_eq!(parse_cli("--version"), Cli::Version);
    assert_eq!(parse_cli("-h"), Cli::Help);
    assert_eq!(parse_cli(""), Cli::Help);
    assert_eq!(parse_cli("--"), Cli::Help);
    assert_eq!(parse_cli("--frobnicate"), Cli::Unknown("frobnicate".to_string()));
}

#[test]
fn commands_become_ui_requests() {
    assert_eq!(ui_request(Command::Apps), UiRequest::Toggle(Mode::Apps));
    assert_eq!(ui_request(Command::Windows), UiRequest::Toggle(Mode::Windows));
    assert_eq!(ui_request(Command::Actions), UiRequest::Toggle(Mode::Actions));
    assert_eq!(ui_request(Command::Settings), UiRequest::OpenSettings);
    assert_eq!(ui_request(Command::Quit), UiRequest::Quit);
}
