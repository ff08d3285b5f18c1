//! How the interface window reacts to the background's replies, over a plain model of what
//! the window shows. Only the answer to the newest request is taken; a failed request always
//! leaves the switches showing the background's real settings.
use crate::protocol::{ClientError, UiState};
use crate::text::{str_eq, trimmed};
use vstd::prelude::*;
use vstd::string::*;

verus! {

/// What the interface window shows.
pub struct Screen {
    pub status: String,
    pub hint: String,
    pub automatic_status: String,
    pub automatic: bool,
    pub autostart: bool,
    pub tray_only: bool,
    pub look_at_mouse: bool,
    pub busy: bool,
    pub can_repair: bool,
    pub confirming: bool,
    /// A request is on its way; further commands wait.
    pub sending: bool,
    pub connected: bool,
    pub notice: String,
    pub wait_seconds: i32,
}

/// The window shows the published state.
pub open spec fn shows_state(s: Screen, st: UiState) -> bool {
    &&& s.status@ == st.status@
    &&& s.hint@ == st.hint@
    &&& s.automatic_status@ == st.automatic_status@
    &&& s.automatic == st.automatic
    &&& s.autostart == st.autostart
    &&& s.tray_only == st.tray_only
    &&& s.look_at_mouse == st.look_at_mouse
    &&& s.busy == st.busy
    &&& s.can_repair == st.can_repair
    &&& s.confirming == st.awaiting_confirmation
}

/// The four switches show the state's settings.
pub open spec fn shows_settings(s: Screen, st: UiState) -> bool {
    s.automatic == st.automatic && s.autostart == st.autostart && s.tray_only == st.tray_only
        && s.look_at_mouse == st.look_at_mouse
}

/// The four switches are the same.
pub open spec fn same_settings(a: Screen, b: Screen) -> bool {
    a.automatic == b.automatic && a.autostart == b.autostart && a.tray_only == b.tray_only
        && a.look_at_mouse == b.look_at_mouse
}

/// The status lines and flags other than the switches are the same.
pub open spec fn same_lines(a: Screen, b: Screen) -> bool {
    &&& a.status@ == b.status@
    &&& a.hint@ == b.hint@
    &&& a.automatic_status@ == b.automatic_status@
    &&& a.busy == b.busy
    &&& a.can_repair == b.can_repair
    &&& a.confirming == b.confirming
}

/// What the window adds to the state (request in flight, connection, notice, countdown) is
/// the same.
pub open spec fn same_extras(a: Screen, b: Screen) -> bool {
    a.sending == b.sending && a.connected == b.connected && a.notice@ == b.notice@
        && a.wait_seconds == b.wait_seconds
}

/// Show the published state.
pub fn apply(ui: &mut Screen, state: &UiState)
    ensures
        shows_state(*final(ui), *state),
        same_extras(*final(ui), *old(ui)),
{
    ui.status = state.status.clone();
    ui.hint = state.hint.clone();
    ui.automatic_status = state.automatic_status.clone();
    ui.automatic = state.automatic;
    ui.autostart = state.autostart;
    ui.tray_only = state.tray_only;
    ui.look_at_mouse = state.look_at_mouse;
    ui.busy = state.busy;
    ui.can_repair = state.can_repair;
    ui.confirming = state.awaiting_confirmation;
}

/// Put the switches back to the settings of `state`.
pub fn restore_settings(ui: &mut Screen, state: &UiState)
    ensures
        shows_settings(*final(ui), *state),
        same_lines(*final(ui), *old(ui)),
        same_extras(*final(ui), *old(ui)),
{
    ui.automatic = state.automatic;
    ui.autostart = state.autostart;
    ui.tray_only = state.tray_only;
    ui.look_at_mouse = state.look_at_mouse;
}

/// Whole seconds of a remaining wait, rounded up, as the window's number.
pub open spec fn seconds_shown(ms: u64) -> i32 {
    ((ms / 1000) + (if ms % 1000 != 0 {
        1int
    } else {
        0int
    })) as i32
}

pub fn wait_seconds(ms: u64) -> (r: i32)
    ensures
        r == seconds_shown(ms),
{
    let secs: u64 = ms / 1000 + if ms % 1000 != 0 {
        1
    } else {
        0
    };
    secs as i32
}

pub const BUSY_NOTICE: &'static str = "后台正忙，请稍后重试";

/// A command was handed to the worker (`accepted`) or refused because its queue was full; a
/// refused command puts the switches back to the last confirmed settings.
pub fn command_sent(ui: &mut Screen, accepted: bool, last: &UiState)
    ensures
        final(ui).sending == accepted,
        final(ui).notice@ == (if accepted {
            Seq::<char>::empty()
        } else {
            BUSY_NOTICE@
        }),
        final(ui).connected == old(ui).connected,
        final(ui).wait_seconds == old(ui).wait_seconds,
        same_lines(*final(ui), *old(ui)),
        accepted ==> same_settings(*final(ui), *old(ui)),
        !accepted ==> shows_settings(*final(ui), *last),
{
    ui.sending = true;
    ui.notice = String::new();
    if !accepted {
        restore_settings(ui, last);
        ui.sending = false;
        ui.notice = String::from_str(BUSY_NOTICE);
    }
}

/// What the window's timer does after a reply.
#[derive(Debug, PartialEq, Eq, Structural)]
pub enum Countdown {
    Keep,
    Stop,
    /// Count down from this many milliseconds.
    Start(u64),
}

/// How the window reacts to a reply.
#[derive(Debug, PartialEq, Eq, Structural)]
pub struct Reaction {
    /// The reply answered an older request and was dropped.
    pub stale: bool,
    pub countdown: Countdown,
    /// The reply confirms an exit: the window closes.
    pub quit: bool,
}

/// The notice a successful command leaves, if any.
pub open spec fn done_notice(command: Seq<char>) -> Option<Seq<char>> {
    if command == "open_log"@ {
        Some("已打开日志文件"@)
    } else if command == "open_log_folder"@ {
        Some("已打开日志文件夹"@)
    } else if command == "copy_diagnostics"@ {
        Some("已复制诊断摘要，可粘贴到反馈中"@)
    } else {
        None
    }
}

pub const OFFLINE_STATUS: &'static str = "无法连接后台";

/// Take the reply to `command`; `fresh` says whether it answers the newest request. `last`
/// is the last state the background confirmed.
pub fn receive(
    ui: &mut Screen,
    last: &mut UiState,
    command: &str,
    fresh: bool,
    result: Result<UiState, ClientError>,
) -> (r: Reaction)
    ensures
        !fresh ==> *final(ui) == *old(ui) && *final(last) == *old(last) && r == (Reaction {
            stale: true,
            countdown: Countdown::Keep,
            quit: false,
        }),
        fresh ==> !r.stale && final(ui).sending == (if command@ == "ui_status"@ {
            old(ui).sending
        } else {
            false
        }),
        // A failed request never leaves the switches showing a change the background did not
        // make: they show the last state it confirmed.
        fresh && result is Err ==> shows_settings(*final(ui), *final(last)),
        fresh ==> match result {
            Ok(st) => {
                &&& shows_state(*final(ui), st)
                &&& *final(last) == st
                &&& final(ui).connected
                &&& final(ui).wait_seconds == seconds_shown(st.wait_remaining_ms)
                &&& final(ui).notice@ == (match done_notice(command@) {
                    Some(n) => n,
                    None => old(ui).notice@,
                })
                &&& r.countdown == (if st.wait_remaining_ms > 0 {
                    Countdown::Start(st.wait_remaining_ms)
                } else {
                    Countdown::Stop
                })
                &&& r.quit == (command@ == "exit"@)
            },
            Err(ClientError::Action(e, s)) => {
                &&& *final(last) == (match s {
                    Some(st) => st,
                    None => *old(last),
                })
                &&& match s {
                    Some(st) => shows_state(*final(ui), st),
                    None => same_lines(*final(ui), *old(ui)) && shows_settings(
                        *final(ui),
                        *old(last),
                    ),
                }
                &&& final(ui).notice@ == e@
                &&& final(ui).connected == old(ui).connected
                &&& final(ui).wait_seconds == old(ui).wait_seconds
                &&& r.countdown == Countdown::Keep && !r.quit
            },
            Err(ClientError::Connection(e)) => {
                &&& *final(last) == *old(last)
                &&& shows_settings(*final(ui), *old(last))
                &&& final(ui).status@ == OFFLINE_STATUS@
                &&& final(ui).hint@ == e@
                &&& final(ui).automatic_status@ == old(ui).automatic_status@
                &&& final(ui).busy == old(ui).busy && final(ui).can_repair == old(ui).can_repair
                &&& final(ui).confirming == old(ui).confirming
                &&& !final(ui).connected
                &&& final(ui).wait_seconds == 0
                &&& final(ui).notice@ == old(ui).notice@
                &&& r.countdown == Countdown::Stop && !r.quit
            },
        },
{
    if !fresh {
        return Reaction { stale: true, countdown: Countdown::Keep, quit: false };
    }
    if !str_eq(command, "ui_status") {
        ui.sending = false;
    }
    match result {
        Ok(state) => shown(ui, last, command, state),
        Err(ClientError::Action(error, state)) => refused(ui, last, error, state),
        Err(ClientError::Connection(error)) => offline(ui, last, error),
    }
}

fn shown(ui: &mut Screen, last: &mut UiState, command: &str, state: UiState) -> (r: Reaction)
    ensures
        shows_state(*final(ui), state),
        *final(last) == state,
        final(ui).connected,
        final(ui).sending == old(ui).sending,
        final(ui).wait_seconds == seconds_shown(state.wait_remaining_ms),
        final(ui).notice@ == (match done_notice(command@) {
            Some(n) => n,
            None => old(ui).notice@,
        }),
        r == (Reaction {
            stale: false,
            countdown: if state.wait_remaining_ms > 0 {
                Countdown::Start(state.wait_remaining_ms)
            } else {
                Countdown::Stop
            },
            quit: command@ == "exit"@,
        }),
{
    apply(ui, &state);
    ui.connected = true;
    ui.wait_seconds = wait_seconds(state.wait_remaining_ms);
    let countdown = if state.wait_remaining_ms > 0 {
        Countdown::Start(state.wait_remaining_ms)
    } else {
        Countdown::Stop
    };
    *last = state;
    if str_eq(command, "open_log") {
        ui.notice = String::from_str("已打开日志文件");
    } else if str_eq(command, "open_log_folder") {
        ui.notice = String::from_str("已打开日志文件夹");
    } else if str_eq(command, "copy_diagnostics") {
        ui.notice = String::from_str("已复制诊断摘要，可粘贴到反馈中");
    }
    Reaction { stale: false, countdown, quit: str_eq(command, "exit") }
}

fn refused(ui: &mut Screen, last: &mut UiState, error: String, state: Option<UiState>) -> (r: Reaction)
    ensures
        *final(last) == (match state {
            Some(st) => st,
            None => *old(last),
        }),
        match state {
            Some(st) => shows_state(*final(ui), st),
            None => same_lines(*final(ui), *old(ui)) && shows_settings(*final(ui), *old(last)),
        },
        shows_settings(*final(ui), *final(last)),
        final(ui).notice@ == error@,
        final(ui).sending == old(ui).sending,
        final(ui).connected == old(ui).connected,
        final(ui).wait_seconds == old(ui).wait_seconds,
        r == (Reaction { stale: false, countdown: Countdown::Keep, quit: false }),
{
    if let Some(state) = state {
        apply(ui, &state);
        *last = state;
    }
    restore_settings(ui, last);
    ui.notice = error;
    Reaction { stale: false, countdown: Countdown::Keep, quit: false }
}

fn offline(ui: &mut Screen, last: &mut UiState, error: String) -> (r: Reaction)
    ensures
        *final(last) == *old(last),
        shows_settings(*final(ui), *old(last)),
        final(ui).status@ == OFFLINE_STATUS@,
        final(ui).hint@ == error@,
        final(ui).automatic_status@ == old(ui).automatic_status@,
        final(ui).busy == old(ui).busy && final(ui).can_repair == old(ui).can_repair,
        final(ui).confirming == old(ui).confirming,
        !final(ui).connected,
        final(ui).sending == old(ui).sending,
        final(ui).wait_seconds == 0,
        final(ui).notice@ == old(ui).notice@,
        r == (Reaction { stale: false, countdown: Countdown::Stop, quit: false }),
{
    restore_settings(ui, last);
    ui.connected = false;
    ui.status = String::from_str(OFFLINE_STATUS);
    ui.hint = error;
    ui.wait_seconds = 0;
    Reaction { stale: false, countdown: Countdown::Stop, quit: false }
}

/// The theme number the window starts with: dark (2) when the saved text is "dark" apart
/// from surrounding white space, light (1) otherwise.
pub fn theme_from(saved: &str) -> (r: i32)
    ensures
        r == (if crate::text::trim_chars(saved@) == "dark"@ {
            2i32
        } else {
            1i32
        }),
{
    if str_eq(trimmed(saved), "dark") {
        2
    } else {
        1
    }
}

/// The text a theme number is saved as.
pub fn theme_name(theme: i32) -> (r: &'static str)
    ensures
        r@ == (if theme == 2 {
            "dark"@
        } else {
            "light"@
        }),
{
    if theme == 2 {
        "dark"
    } else {
        "light"
    }
}

} // verus!
