//! The event coordinator: the one owner of the mutable endpoint and
//! binding state. Every inbound event — a tray command, a settings-window
//! message, an endpoint announcement, the outcome of a reconnect attempt —
//! is turned into a new state and a list of actions for the surrounding
//! application to perform. The coordinator itself performs no I/O.
use vstd::prelude::*;

use crate::{AppError, Ipv4};
use crate::binding::{HookAction, Registrar, is_bind, is_unbind};
use crate::config::Config;
use crate::hotkey::{Key, parse_hotkey_config, spec_parse_hotkey};
use crate::logline::LogMessage;

verus! {

/// A command arriving from the tray menu.
#[derive(Clone, Debug)]
pub enum TrayMessage {
    Setting,
    Reconnect,
    Exit,
    UpdateMenu(String),
}

/// A message sent to the settings window.
#[derive(Clone, Copy, PartialEq, Eq, Structural, Debug)]
pub enum GuiInMessage {
    Exit,
    Show,
    Hide,
}

/// A message arriving from the settings window.
#[derive(Clone, Debug)]
pub enum GuiOutMessage {
    SaveHotKeys(String),
}

/// An instruction to the surrounding application.
#[derive(Clone, Debug)]
pub enum Action {
    /// Tell the settings window to shut down.
    SendGuiExit,
    /// Tell the settings window to show itself.
    SendGuiShow,
    /// Leave the coordinator loop.
    StopLoop,
    /// Run the reconnect workflow against this endpoint.
    AttemptReconnect(Option<Ipv4>, Option<u16>),
    /// Show the disconnected tray icon.
    SetDisconnectedIcon,
    /// Show the normal tray icon.
    SetNormalIcon,
    /// Persist these settings.
    SaveConfig(Config),
    /// Queue a menu update carrying the new hotkey label.
    QueueMenuUpdate(String),
    /// Rebuild the tray menu with this hotkey label.
    RebuildTrayMenu(String),
    /// Apply one change to the keyboard hook.
    Hook(HookAction),
    /// Surface a failure to the log.
    ReportError(AppError),
}

/// `a` persists settings whose hotkey reads `hotkey`.
pub open spec fn is_save_config(a: Action, hotkey: Seq<char>) -> bool {
    match a {
        Action::SaveConfig(c) => c.reconnect_hotkey@ == hotkey,
        _ => false,
    }
}

/// `a` queues a menu update with the label `label`.
pub open spec fn is_queue_menu(a: Action, label: Seq<char>) -> bool {
    match a {
        Action::QueueMenuUpdate(s) => s@ == label,
        _ => false,
    }
}

/// `a` rebuilds the tray menu with the label `label`.
pub open spec fn is_rebuild_menu(a: Action, label: Seq<char>) -> bool {
    match a {
        Action::RebuildTrayMenu(s) => s@ == label,
        _ => false,
    }
}

/// `a` installs the chord `main` + `mods` on the hook.
pub open spec fn hook_binds(a: Action, main: Key, mods: Seq<Key>) -> bool {
    match a {
        Action::Hook(h) => is_bind(h, main, mods),
        _ => false,
    }
}

/// `a` removes the binding of `main` from the hook.
pub open spec fn hook_unbinds(a: Action, main: Key) -> bool {
    match a {
        Action::Hook(h) => is_unbind(h, main),
        _ => false,
    }
}

/// The authoritative mutable state: the last announced endpoint, whether a
/// forced reset is pending, the active binding, and the settings.
pub struct CoordinatorState {
    pub ip: Option<Ipv4>,
    pub port: Option<u16>,
    pub is_disconnecting: bool,
    pub registrar: Registrar,
    pub config: Config,
}

/// Handle one tray command. No command changes the state directly; a
/// reconnect command carries the endpoint known at that moment out to the
/// workflow.
pub fn handle_tray(state: &mut CoordinatorState, msg: TrayMessage) -> (acts: Vec<Action>)
    ensures
        *final(state) == *old(state),
        match msg {
            TrayMessage::Exit => acts@.len() == 2 && acts@[0] == Action::SendGuiExit && acts@[1]
                == Action::StopLoop,
            TrayMessage::Reconnect => acts@.len() == 1 && acts@[0] == Action::AttemptReconnect(
                old(state).ip,
                old(state).port,
            ),
            TrayMessage::Setting => acts@.len() == 1 && acts@[0] == Action::SendGuiShow,
            TrayMessage::UpdateMenu(label) => acts@.len() == 1 && is_rebuild_menu(
                acts@[0],
                label@,
            ),
        },
{
    let mut acts: Vec<Action> = Vec::new();
    match msg {
        TrayMessage::Exit => {
            acts.push(Action::SendGuiExit);
            acts.push(Action::StopLoop);
        },
        TrayMessage::Reconnect => {
            acts.push(Action::AttemptReconnect(state.ip, state.port));
        },
        TrayMessage::Setting => {
            acts.push(Action::SendGuiShow);
        },
        TrayMessage::UpdateMenu(label) => {
            acts.push(Action::RebuildTrayMenu(label));
        },
    }
    acts
}

/// Record the outcome of a reconnect attempt: on success the tray shows
/// the disconnected icon until the next endpoint announcement; a failure
/// is surfaced and changes nothing.
pub fn handle_reconnect_result(state: &mut CoordinatorState, outcome: Result<(), AppError>) -> (
    acts: Vec<Action>)
    ensures
        final(state).ip == old(state).ip,
        final(state).port == old(state).port,
        final(state).registrar == old(state).registrar,
        final(state).config == old(state).config,
        outcome is Ok ==> final(state).is_disconnecting == true && acts@.len() == 1 && acts@[0]
            == Action::SetDisconnectedIcon,
        outcome is Err ==> final(state).is_disconnecting == old(state).is_disconnecting
            && acts@.len() == 1 && acts@[0] == Action::ReportError(outcome->Err_0),
{
    let mut acts: Vec<Action> = Vec::new();
    match outcome {
        Ok(()) => {
            state.is_disconnecting = true;
            acts.push(Action::SetDisconnectedIcon);
        },
        Err(e) => {
            acts.push(Action::ReportError(e));
        },
    }
    acts
}

/// Record an endpoint announcement: last write wins, unconditionally. If a
/// forced reset was pending, the announcement means the client reconnected,
/// so the tray returns to the normal icon.
pub fn handle_log(state: &mut CoordinatorState, msg: LogMessage) -> (acts: Vec<Action>)
    ensures
        final(state).ip == msg.ip,
        final(state).port == Some(msg.port),
        final(state).is_disconnecting == false,
        final(state).registrar == old(state).registrar,
        final(state).config == old(state).config,
        old(state).is_disconnecting ==> acts@.len() == 1 && acts@[0] == Action::SetNormalIcon,
        !old(state).is_disconnecting ==> acts@.len() == 0,
{
    let mut acts: Vec<Action> = Vec::new();
    state.ip = msg.ip;
    state.port = Some(msg.port);
    if state.is_disconnecting {
        state.is_disconnecting = false;
        acts.push(Action::SetNormalIcon);
    }
    acts
}

/// Handle a saved hotkey string from the settings window. The string is
/// persisted and the menu updated in any case; the binding changes only
/// when the string names a main key — otherwise the previous binding stays
/// active and the failure is surfaced.
pub fn handle_gui(state: &mut CoordinatorState, msg: GuiOutMessage) -> (acts: Vec<Action>)
    ensures
        final(state).ip == old(state).ip,
        final(state).port == old(state).port,
        final(state).is_disconnecting == old(state).is_disconnecting,
        match msg {
            GuiOutMessage::SaveHotKeys(s) => {
                let parsed = spec_parse_hotkey(s@);
                &&& final(state).config.reconnect_hotkey@ == s@
                &&& acts@.len() >= 2
                &&& is_save_config(acts@[0], s@)
                &&& is_queue_menu(acts@[1], s@)
                &&& (parsed.0 is None ==> final(state).registrar == old(state).registrar
                    && acts@.len() == 3 && acts@[2] == Action::ReportError(
                    AppError::HotkeyParseFailed,
                ))
                &&& (parsed.0 is Some ==> {
                    &&& final(state).registrar.current is Some
                    &&& final(state).registrar.current->Some_0.main == parsed.0->Some_0
                    &&& final(state).registrar.current->Some_0.mods@ == parsed.1
                    &&& (old(state).registrar.current is None ==> acts@.len() == 3 && hook_binds(
                        acts@[2],
                        parsed.0->Some_0,
                        parsed.1,
                    ))
                    &&& (old(state).registrar.current is Some ==> acts@.len() == 4
                        && hook_unbinds(acts@[2], old(state).registrar.current->Some_0.main)
                        && hook_binds(acts@[3], parsed.0->Some_0, parsed.1))
                })
            },
        },
{
    let mut acts: Vec<Action> = Vec::new();
    let GuiOutMessage::SaveHotKeys(s) = msg;
    state.config = Config { reconnect_hotkey: s.clone() };
    acts.push(Action::SaveConfig(Config { reconnect_hotkey: s.clone() }));
    acts.push(Action::QueueMenuUpdate(s.clone()));
    let (main_opt, mods) = parse_hotkey_config(s.as_str());
    match main_opt {
        Some(k) => {
            let mut hook_acts = state.registrar.rebind(k, mods);
            let h0 = hook_acts.remove(0);
            acts.push(Action::Hook(h0));
            if hook_acts.len() > 0 {
                let h1 = hook_acts.remove(0);
                acts.push(Action::Hook(h1));
            }
        },
        None => {
            acts.push(Action::ReportError(AppError::HotkeyParseFailed));
        },
    }
    acts
}

} // verus!
