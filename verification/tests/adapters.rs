use radiall::compositor::plasma::{decode_state, StateFlags};
use radiall::compositor::x11::{format_window_id, parse_window_id, wm_class_from_bytes};

#[test]
fn decode_state_reads_the_documented_bits() {
    // Bits per org_kde_plasma_window_management.state.
    assert_eq!(
        decode_state(0x1),
        StateFlags { active: true, fullscreen: false, skiptaskbar: false }
    );
    assert_eq!(
        decode_state(0x8),
        StateFlags { active: false, fullscreen: true, skiptaskbar: false }
    );
    assert_eq!(
        decode_state(0x1000),
        StateFlags { active: false, fullscreen: false, skiptaskbar: true }
    );
    // Unrelated bits (minimized|maximized|closeable) don't leak through.
    assert_eq!(
        decode_state(0x2 | 0x4 | 0x100),
        StateFlags { active: false, fullscreen: false, skiptaskbar: false }
    );
    // Combined mask decodes all three at once.
    assert_eq!(
        decode_state(0x1 | 0x8 | 0x1000),
        StateFlags { active: true, fullscreen: true, skiptaskbar: true }
    );
}

#[test]
fn window_id_round_trips() {
    for win in [1u32, 0x0060_0007, u32::MAX] {
        let id = format_window_id(win);
        assert_eq!(parse_window_id(&id), Some(win));
    }
    assert_eq!(parse_window_id(&"not-a-window".to_string()), None);
    assert_eq!(parse_window_id(&"".to_string()), None);
    // Hyprland-style hex addresses must NOT silently misparse.
    assert_eq!(parse_window_id(&"0x60a0007".to_string()), None);
}

#[test]
fn wm_class_takes_res_class() {
    assert_eq!(wm_class_from_bytes(b"chromium\0Chromium\0"), Some("Chromium".into()));
    // Some clients omit the trailing NUL.
    assert_eq!(wm_class_from_bytes(b"foot\0footclient"), Some("footclient".into()));
    assert_eq!(wm_class_from_bytes(b""), None);
    assert_eq!(wm_class_from_bytes(b"instance-only"), None);
    assert_eq!(wm_class_from_bytes(b"instance\0\0"), None);
}

#[test]
fn wm_class_bytes_decode_lossily() {
    assert_eq!(wm_class_from_bytes(b"x\0caf\xc3\xa9\0"), Some("caf\u{e9}".into()));
    assert_eq!(wm_class_from_bytes(b"x\0a\xffb\0"), Some("a\u{fffd}b".into()));
}

use radiall::compositor::hyprland::{
    classify, commands_for, dispatch, keyword_ok, new_rules_outcome, overlay_fix, overlay_opened,
    overlay_rules_legacy, overlay_rules_new, overlay_verdict, query_active, query_windows, reply_ok, HyprClient,
    HyprEvent, HyprlandCompositor, WindowCommand,
};
use radiall::compositor::plasma::{
    destroy_at, initialized_at, on_window_event, window_key, PlasmaRequest, WindowEvent,
};
use radiall::compositor::registry::WindowRegistry;
use radiall::compositor::windows::{
    enum_window, foreground_window, hwnd_id, is_app_window, mark_focused, needs_attach, parse_hwnd, screen_size,
    PollState, WS_EX_APPWINDOW, WS_EX_TOOLWINDOW,
};
use radiall::compositor::wlr::{on_toplevel_event, state_values, toplevel_flags, ToplevelEvent, WlrRequest};
use radiall::compositor::x11::{client_info, message_data, window_prop, wm_check, WmCheckError};
use radiall::compositor::{detect_order, Backend, WindowInfo, WindowOp};

fn info(id: &str, cls: &str, title: &str, focused: bool) -> WindowInfo {
    WindowInfo { id: id.into(), app_id: cls.into(), title: title.into(), focused }
}

#[test]
fn registry_publishes_listed_windows_in_order() {
    let mut reg = WindowRegistry::new();
    reg.announce("b", true);
    reg.announce("a", true);
    reg.set_app_id("a", "kitty".into());
    reg.set_title("a", "shell".into());
    reg.set_app_id("b", "firefox".into());
    reg.set_state("b", true, false, false);
    // unwatched: nothing to push, focus remembered
    let step = reg.publish();
    assert!(step.windows.is_none() && step.active.is_none());
    let (list, active) = reg.watch();
    assert_eq!(list, vec![info("b", "firefox", "", true), info("a", "kitty", "shell", false)]);
    assert_eq!(active, Some(info("b", "firefox", "", true)));
    // watched, focus unchanged: only the list
    let step = reg.publish();
    assert_eq!(step.windows.unwrap().len(), 2);
    assert!(step.active.is_none());
    // focus moves
    reg.set_state("b", false, false, false);
    reg.set_state("a", true, false, false);
    let step = reg.publish();
    assert_eq!(step.active, Some(Some(info("a", "kitty", "shell", true))));
    // skip-taskbar and classless windows are not listed
    reg.set_state("b", false, false, true);
    reg.announce("c", true);
    let (list, _) = reg.snapshot();
    assert_eq!(list, vec![info("a", "kitty", "shell", true)]);
    assert_eq!(reg.fullscreen_of("a"), Some(false));
    assert_eq!(reg.fullscreen_of("zz"), None);
    reg.remove("a");
    assert!(!reg.contains("a"));
    let step = reg.publish();
    assert_eq!(step.active, Some(None));
    reg.unwatch();
    assert!(reg.publish().windows.is_none());
}

#[test]
fn plasma_events_publish_after_the_initial_burst() {
    assert_eq!(window_key(42, ""), "42");
    assert_eq!(window_key(42, "{uuid}"), "{uuid}");
    assert!(initialized_at(3) && !initialized_at(4));
    assert!(destroy_at(4) && !destroy_at(3));
    let mut reg = WindowRegistry::new();
    reg.announce("w", false);
    assert!(!on_window_event(&mut reg, "w", WindowEvent::TitleChanged("t".into())));
    assert!(!on_window_event(&mut reg, "w", WindowEvent::AppIdChanged("org.kde.dolphin".into())));
    assert!(!on_window_event(&mut reg, "w", WindowEvent::StateChanged(0x1 | 0x8)));
    assert!(on_window_event(&mut reg, "w", WindowEvent::InitialState));
    assert!(on_window_event(&mut reg, "w", WindowEvent::TitleChanged("u".into())));
    assert_eq!(reg.fullscreen_of("w"), Some(true));
    assert_eq!(reg.snapshot().1, Some(info("w", "org.kde.dolphin", "u", true)));
    assert!(on_window_event(&mut reg, "w", WindowEvent::Unmapped));
    assert!(!reg.contains("w"));
    assert_eq!(radiall::compositor::plasma::request_for(WindowOp::Activate, false), PlasmaRequest::SetState(1, 1));
    assert_eq!(radiall::compositor::plasma::request_for(WindowOp::Fullscreen, true), PlasmaRequest::SetState(8, 0));
    assert_eq!(radiall::compositor::plasma::request_for(WindowOp::Fullscreen, false), PlasmaRequest::SetState(8, 8));
    assert_eq!(radiall::compositor::plasma::request_for(WindowOp::Close, false), PlasmaRequest::Close);
}

#[test]
fn wlr_state_and_batches() {
    let raw: Vec<u8> = [2u32, 3u32].iter().flat_map(|v| v.to_ne_bytes()).chain([9u8]).collect();
    let values = state_values(&raw);
    assert_eq!(values, vec![2, 3]);
    assert_eq!(toplevel_flags(&values), (true, true));
    assert_eq!(toplevel_flags(&[1, 4]), (false, false));
    let mut reg = WindowRegistry::new();
    reg.announce("t1", true);
    assert!(!on_toplevel_event(&mut reg, "t1", ToplevelEvent::Title("x".into())));
    assert!(!on_toplevel_event(&mut reg, "t1", ToplevelEvent::AppId("foot".into())));
    assert!(!on_toplevel_event(&mut reg, "t1", ToplevelEvent::State(true, false)));
    assert!(on_toplevel_event(&mut reg, "t1", ToplevelEvent::Done));
    assert_eq!(reg.snapshot().0, vec![info("t1", "foot", "x", true)]);
    assert!(on_toplevel_event(&mut reg, "t1", ToplevelEvent::Closed));
    assert!(reg.snapshot().0.is_empty());
    assert_eq!(radiall::compositor::wlr::request_for(WindowOp::Fullscreen, true), WlrRequest::UnsetFullscreen);
    assert_eq!(radiall::compositor::wlr::request_for(WindowOp::Fullscreen, false), WlrRequest::SetFullscreen);
    assert_eq!(radiall::compositor::wlr::request_for(WindowOp::Activate, false), WlrRequest::Activate);
}

#[test]
fn hyprland_requests_and_events() {
    let h = HyprlandCompositor::at("/run/user/1000", "abc");
    assert_eq!(h.req_path, "/run/user/1000/hypr/abc/.socket.sock");
    assert_eq!(h.event_path, "/run/user/1000/hypr/abc/.socket2.sock");
    assert!(h.can_float() && h.can_send_keys());
    assert_eq!(dispatch("focuswindow address:0x1"), "dispatch focuswindow address:0x1");
    assert!(reply_ok(" ok\n") && !reply_ok("err"));
    assert_eq!(commands_for(WindowCommand::Fullscreen, "0x5"), vec!["focuswindow address:0x5", "fullscreen 1"]);
    assert_eq!(commands_for(WindowCommand::Close, "0x5"), vec!["closewindow address:0x5"]);
    assert_eq!(commands_for(WindowCommand::ToggleFloat, "0x5"), vec!["togglefloating address:0x5"]);
    assert_eq!(
        commands_for(WindowCommand::SendKeys("CTRL".into(), "r".into()), "0x5"),
        vec!["sendshortcut CTRL, r, address:0x5"]
    );
    assert_eq!(classify("openwindow>>55,1,kitty,t"), HyprEvent::Windows);
    assert_eq!(classify("activewindowv2>>55"), HyprEvent::Active);
    assert_eq!(classify("configreloaded>>"), HyprEvent::ConfigReloaded);
    assert_eq!(classify("workspace>>2"), HyprEvent::Ignore);
    assert_eq!(overlay_opened("openwindow>>5a,1,radiall,RadiAll"), Some("5a".to_string()));
    assert_eq!(overlay_opened("openwindow>>5a,1,kitty,shell"), None);
    assert_eq!(overlay_opened("openwindow>>,1,radiall,RadiAll"), None);
    assert_eq!(overlay_opened("closewindow>>5a,1,radiall,RadiAll"), None);
    assert_eq!(
        overlay_fix("5a"),
        vec![
            "dispatch resizewindowpixel exact 100% 100%,address:0x5a",
            "dispatch movewindowpixel exact 0 0,address:0x5a"
        ]
    );
    assert_eq!(overlay_rules_new()[0], "float on, match:title ^(RadiAll)$");
    assert_eq!(overlay_rules_legacy()[4], "noborder, title:^(RadiAll)$");
    assert_eq!(overlay_rules_new().len(), 9);
    assert!(keyword_ok(true, "ok\n") && !keyword_ok(false, "ok") && !keyword_ok(true, "invalid field"));
    assert_eq!(new_rules_outcome(&[Some(true), Some(true)]), Some(true));
    assert_eq!(new_rules_outcome(&[Some(true), Some(false)]), Some(false));
    assert_eq!(new_rules_outcome(&[Some(true), None]), None);
    assert!(overlay_verdict(Some(true), &[]));
    assert!(overlay_verdict(Some(false), &[Some(true), Some(true)]));
    assert!(!overlay_verdict(Some(false), &[Some(true), Some(false)]));
    assert!(!overlay_verdict(None, &[Some(true)]));
}

#[test]
fn hyprland_client_listing() {
    let client = |mapped: bool, addr: &str, class: &str, initial: &str, title: &str| HyprClient {
        mapped: Some(mapped),
        address: Some(addr.into()),
        class: Some(class.into()),
        initial_class: Some(initial.into()),
        title: Some(title.into()),
    };
    let clients = vec![
        client(true, "0x1", "kitty", "kitty", "a"),
        client(false, "0x2", "kitty", "kitty", "b"),
        client(true, "0x3", "", "steam", "c"),
        client(true, "0x4", "", "", "d"),
    ];
    assert_eq!(
        query_windows(&clients, Some("0x3")),
        vec![info("0x1", "kitty", "a", false), info("0x3", "steam", "c", true)]
    );
    assert_eq!(query_active(Some(&clients[0])), Some(info("0x1", "kitty", "a", true)));
    assert_eq!(query_active(None), None);
    let no_addr = HyprClient { address: None, ..client(true, "", "kitty", "", "") };
    assert_eq!(query_active(Some(&no_addr)), None);
}

#[test]
fn win32_listing_rules() {
    assert!(is_app_window(true, 5, 0, false, 0));
    assert!(!is_app_window(false, 5, 0, false, 0));
    assert!(!is_app_window(true, 0, 0, false, 0));
    assert!(!is_app_window(true, 5, WS_EX_TOOLWINDOW, false, 0));
    assert!(!is_app_window(true, 5, 0, true, 0));
    assert!(is_app_window(true, 5, WS_EX_APPWINDOW, true, 0));
    assert!(!is_app_window(true, 5, 0, false, 2));
    for h in [0i64, 1, -7, 0x1234_5678, i64::MAX, i64::MIN] {
        assert_eq!(parse_hwnd(&hwnd_id(h)), Some(h));
    }
    assert_eq!(hwnd_id(-7), "-7");
    assert_eq!(parse_hwnd("0x10"), None);
    assert_eq!(enum_window(9, true, 4, 1, "t".into(), Some("notepad".into())), Some(info("9", "notepad", "t", false)));
    assert_eq!(enum_window(9, true, 1, 1, "t".into(), None), None); // our own
    assert_eq!(enum_window(9, true, 4, 1, String::new(), None), None); // untitled
    assert_eq!(foreground_window(9, 4, 1, true, "t".into(), None), Some(info("9", "", "t", true)));
    assert_eq!(foreground_window(0, 4, 1, true, "t".into(), None), None);
    let mut ws = vec![info("1", "a", "x", false), info("2", "b", "y", false)];
    mark_focused(&mut ws, "2");
    assert!(!ws[0].focused && ws[1].focused);
    assert!(needs_attach(5, 6) && !needs_attach(0, 6) && !needs_attach(6, 6));
    assert_eq!(screen_size(1920, 1080), Some((1920, 1080)));
    assert_eq!(screen_size(0, 1080), None);
}

#[test]
fn win32_poll_pushes_changes_only() {
    let mut p = PollState::new();
    let ws = vec![info("1", "a", "x", false), info("2", "b", "y", true)];
    let s = p.step(ws.clone());
    assert_eq!(s.windows, Some(ws.clone()));
    assert_eq!(s.active, Some(Some(info("2", "b", "y", true))));
    // a retitle alone pushes nothing
    let s = p.step(vec![info("1", "a", "x2", false), info("2", "b", "y", true)]);
    assert!(s.windows.is_none() && s.active.is_none());
    let s = p.step(vec![info("1", "a", "x", false)]);
    assert_eq!(s.windows.map(|l| l.len()), Some(1));
    assert_eq!(s.active, Some(None));
}

#[test]
fn x11_checks_and_messages() {
    assert_eq!(window_prop(&[0x40, 1]), Some(0x40));
    assert_eq!(window_prop(&[0]), None);
    assert_eq!(window_prop(&[]), None);
    assert_eq!(wm_check(None, None), Err(WmCheckError::Unset));
    assert_eq!(wm_check(Some(5), Some(5)), Ok(5));
    assert_eq!(wm_check(Some(5), Some(6)), Err(WmCheckError::Stale));
    assert_eq!(wm_check(Some(5), None), Err(WmCheckError::Stale));
    assert_eq!(WmCheckError::Unset.message(), "no EWMH window manager (_NET_SUPPORTING_WM_CHECK unset)");
    assert_eq!(WmCheckError::Stale.message(), "stale _NET_SUPPORTING_WM_CHECK (WM gone?)");
    assert_eq!(message_data(WindowOp::Activate, 77), [2, 0, 0, 0, 0]);
    assert_eq!(message_data(WindowOp::Close, 77), [0, 2, 0, 0, 0]);
    assert_eq!(message_data(WindowOp::Fullscreen, 77), [2, 77, 0, 2, 0]);
    let normal = 10;
    let skip = 20;
    assert_eq!(
        client_info(7, 7, &[normal], normal, &[], skip, Some(b"xterm\0XTerm\0"), b"", b"bash"),
        Some(info("7", "XTerm", "bash", true))
    );
    assert_eq!(
        client_info(8, 7, &[], normal, &[], skip, Some(b"a\0B\0"), b"net", b"wm"),
        Some(info("8", "B", "net", false))
    );
    assert_eq!(client_info(8, 7, &[11], normal, &[], skip, Some(b"a\0B\0"), b"", b""), None); // a dock
    assert_eq!(client_info(8, 7, &[], normal, &[skip], skip, Some(b"a\0B\0"), b"", b""), None);
    assert_eq!(client_info(8, 7, &[], normal, &[], skip, None, b"", b""), None);
}

#[test]
fn backends_tried_in_order() {
    assert_eq!(detect_order(true, true, true, true), vec![Backend::Windows]);
    assert_eq!(detect_order(false, true, true, false), vec![Backend::Hyprland, Backend::Wlr, Backend::Plasma]);
    assert_eq!(detect_order(false, false, false, true), vec![Backend::X11]);
    assert_eq!(detect_order(false, true, false, true), vec![Backend::Hyprland, Backend::X11]);
    assert!(detect_order(false, false, false, false).is_empty());
}
