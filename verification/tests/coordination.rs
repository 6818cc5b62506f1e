use hsarec::binding::{HookAction, HotkeyBinding, Registrar};
use hsarec::config::{Config, ConfigSource};
use hsarec::coordinator::{
    handle_gui, handle_log, handle_reconnect_result, handle_tray, Action, CoordinatorState,
    GuiOutMessage, TrayMessage,
};
use hsarec::hotkey::Key;
use hsarec::logline::LogMessage;
use hsarec::{AppError, Ipv4};

fn fresh_state() -> CoordinatorState {
    CoordinatorState {
        ip: None,
        port: None,
        is_disconnecting: false,
        registrar: Registrar::new(),
        config: Config::default(),
    }
}

#[test]
fn default_config_binding() {
    assert_eq!(Config::default().reconnect_hotkey, "Shift+Alt+R");
}

#[test]
fn config_load_uses_parsed_value() {
    let (c, write_back) = Config::load(ConfigSource::Loaded(Config {
        reconnect_hotkey: "Ctrl+F12".to_string(),
    }));
    assert_eq!(c.reconnect_hotkey, "Ctrl+F12");
    assert!(!write_back);
}

#[test]
fn config_load_writes_default_only_when_missing() {
    let (c, write_back) = Config::load(ConfigSource::Missing);
    assert_eq!(c.reconnect_hotkey, "Shift+Alt+R");
    assert!(write_back);
    for source in [ConfigSource::NoPath, ConfigSource::Unreadable, ConfigSource::Corrupt] {
        let (c, write_back) = Config::load(source);
        assert_eq!(c.reconnect_hotkey, "Shift+Alt+R");
        assert!(!write_back);
    }
}

#[test]
fn exit_command_stops_the_loop() {
    let mut state = fresh_state();
    let acts = handle_tray(&mut state, TrayMessage::Exit);
    assert!(matches!(acts[0], Action::SendGuiExit));
    assert!(matches!(acts[1], Action::StopLoop));
    assert_eq!(acts.len(), 2);
}

#[test]
fn reconnect_command_carries_current_endpoint() {
    let mut state = fresh_state();
    state.ip = Some(Ipv4 { a: 203, b: 0, c: 113, d: 7 });
    state.port = Some(3724);
    let acts = handle_tray(&mut state, TrayMessage::Reconnect);
    assert_eq!(acts.len(), 1);
    match &acts[0] {
        Action::AttemptReconnect(ip, port) => {
            assert_eq!(*ip, Some(Ipv4 { a: 203, b: 0, c: 113, d: 7 }));
            assert_eq!(*port, Some(3724));
        },
        other => panic!("unexpected action {:?}", other),
    }
}

#[test]
fn setting_command_shows_the_window() {
    let mut state = fresh_state();
    let acts = handle_tray(&mut state, TrayMessage::Setting);
    assert_eq!(acts.len(), 1);
    assert!(matches!(acts[0], Action::SendGuiShow));
}

#[test]
fn menu_update_rebuilds_the_tray() {
    let mut state = fresh_state();
    let acts = handle_tray(&mut state, TrayMessage::UpdateMenu("Ctrl+F12".to_string()));
    assert_eq!(acts.len(), 1);
    match &acts[0] {
        Action::RebuildTrayMenu(label) => assert_eq!(label, "Ctrl+F12"),
        other => panic!("unexpected action {:?}", other),
    }
}

#[test]
fn successful_reset_shows_disconnected_icon() {
    let mut state = fresh_state();
    let acts = handle_reconnect_result(&mut state, Ok(()));
    assert!(state.is_disconnecting);
    assert_eq!(acts.len(), 1);
    assert!(matches!(acts[0], Action::SetDisconnectedIcon));
}

#[test]
fn failed_reset_is_surfaced() {
    for e in [
        AppError::ProcessNotFound,
        AppError::AmbiguousProcess,
        AppError::TableQueryFailed,
        AppError::ConnectionNotFound,
        AppError::TerminationFailed,
    ] {
        let mut state = fresh_state();
        let acts = handle_reconnect_result(&mut state, Err(e));
        assert!(!state.is_disconnecting);
        assert_eq!(acts.len(), 1);
        match acts[0] {
            Action::ReportError(got) => assert_eq!(got, e),
            ref other => panic!("unexpected action {:?}", other),
        }
    }
}

#[test]
fn endpoint_update_wins_last() {
    let mut state = fresh_state();
    handle_log(&mut state, LogMessage { ip: Some(Ipv4 { a: 10, b: 0, c: 0, d: 1 }), port: 1 });
    handle_log(&mut state, LogMessage { ip: Some(Ipv4 { a: 10, b: 0, c: 0, d: 2 }), port: 2 });
    assert_eq!(state.ip, Some(Ipv4 { a: 10, b: 0, c: 0, d: 2 }));
    assert_eq!(state.port, Some(2));
}

#[test]
fn endpoint_update_restores_icon_after_reset() {
    let mut state = fresh_state();
    state.is_disconnecting = true;
    let acts = handle_log(&mut state, LogMessage { ip: None, port: 9 });
    assert!(!state.is_disconnecting);
    assert_eq!(acts.len(), 1);
    assert!(matches!(acts[0], Action::SetNormalIcon));
    let acts2 = handle_log(&mut state, LogMessage { ip: None, port: 9 });
    assert!(acts2.is_empty());
}

#[test]
fn rebinding_replaces_exactly_one_binding() {
    let mut state = fresh_state();
    let first = handle_gui(&mut state, GuiOutMessage::SaveHotKeys("Shift+Alt+R".to_string()));
    // first binding: no unbind needed
    assert_eq!(first.len(), 3);
    match &first[2] {
        Action::Hook(HookAction::Bind(k, mods)) => {
            assert_eq!(*k, Key::R);
            assert_eq!(*mods, vec![Key::LShift, Key::LAlt]);
        },
        other => panic!("unexpected action {:?}", other),
    }

    let second = handle_gui(&mut state, GuiOutMessage::SaveHotKeys("Ctrl+F12".to_string()));
    assert_eq!(second.len(), 4);
    match &second[0] {
        Action::SaveConfig(c) => assert_eq!(c.reconnect_hotkey, "Ctrl+F12"),
        other => panic!("unexpected action {:?}", other),
    }
    match &second[1] {
        Action::QueueMenuUpdate(label) => assert_eq!(label, "Ctrl+F12"),
        other => panic!("unexpected action {:?}", other),
    }
    // the old main key is unbound before the new one is bound
    assert!(matches!(second[2], Action::Hook(HookAction::Unbind(Key::R))));
    match &second[3] {
        Action::Hook(HookAction::Bind(k, mods)) => {
            assert_eq!(*k, Key::F12);
            assert_eq!(*mods, vec![Key::LCtrl]);
        },
        other => panic!("unexpected action {:?}", other),
    }
    assert_eq!(
        state.registrar.current,
        Some(HotkeyBinding { main: Key::F12, mods: vec![Key::LCtrl] })
    );
    assert_eq!(state.config.reconnect_hotkey, "Ctrl+F12");
}

#[test]
fn bad_hotkey_keeps_previous_binding() {
    let mut state = fresh_state();
    handle_gui(&mut state, GuiOutMessage::SaveHotKeys("Shift+Alt+R".to_string()));
    let before = state.registrar.current.clone();
    let acts = handle_gui(&mut state, GuiOutMessage::SaveHotKeys("Shift+Bogus".to_string()));
    assert_eq!(acts.len(), 3);
    assert!(matches!(acts[2], Action::ReportError(AppError::HotkeyParseFailed)));
    assert_eq!(state.registrar.current, before);
    // the string is still persisted and shown, as the settings flow does
    assert_eq!(state.config.reconnect_hotkey, "Shift+Bogus");
}

#[test]
fn error_descriptions_are_nonempty() {
    for e in [
        AppError::ProcessNotFound,
        AppError::AmbiguousProcess,
        AppError::TableQueryFailed,
        AppError::ConnectionNotFound,
        AppError::TerminationFailed,
        AppError::WatchSessionLost,
        AppError::HotkeyParseFailed,
    ] {
        assert!(!e.describe().is_empty());
    }
}
