use pet_repair::interface::{
    apply, command_sent, receive, restore_settings, theme_from, theme_name, wait_seconds,
    Countdown, Reaction, Screen,
};
use pet_repair::protocol::{ClientError, UiState};

fn screen() -> Screen {
    Screen {
        status: "old".into(),
        hint: "old hint".into(),
        automatic_status: "auto".into(),
        automatic: true,
        autostart: true,
        tray_only: true,
        look_at_mouse: true,
        busy: false,
        can_repair: false,
        confirming: false,
        sending: true,
        connected: true,
        notice: "n".into(),
        wait_seconds: 5,
    }
}

fn state() -> UiState {
    UiState {
        status: "可以修复".into(),
        hint: "点击“立即修复”".into(),
        automatic_status: "自动修复已关闭".into(),
        can_repair: true,
        wait_remaining_ms: 1500,
        ..UiState::default()
    }
}

#[test]
fn apply_shows_the_published_state() {
    let mut ui = screen();
    apply(&mut ui, &state());
    assert_eq!((ui.status.as_str(), ui.hint.as_str()), ("可以修复", "点击“立即修复”"));
    assert_eq!(ui.automatic_status, "自动修复已关闭");
    assert!(!ui.automatic && !ui.autostart && !ui.tray_only && !ui.look_at_mouse);
    assert!(ui.can_repair && !ui.busy);
    assert!(ui.sending && ui.connected && ui.notice == "n" && ui.wait_seconds == 5);
}

#[test]
fn restore_settings_touches_only_the_switches() {
    let mut ui = screen();
    restore_settings(&mut ui, &state());
    assert!(!ui.automatic && !ui.autostart && !ui.tray_only && !ui.look_at_mouse);
    assert_eq!(ui.status, "old");
    assert!(!ui.can_repair && ui.sending);
}

#[test]
fn stale_replies_change_nothing() {
    let mut ui = screen();
    let mut last = UiState::default();
    let r = receive(&mut ui, &mut last, "repair", false, Ok(state()));
    assert_eq!(r, Reaction { stale: true, countdown: Countdown::Keep, quit: false });
    assert_eq!(ui.status, "old");
    assert!(ui.sending);
    assert_eq!(last.status, "");
}

#[test]
fn replies_update_the_window() {
    let mut ui = screen();
    let mut last = UiState::default();
    let r = receive(&mut ui, &mut last, "open_log", true, Ok(state()));
    assert_eq!(r, Reaction { stale: false, countdown: Countdown::Start(1500), quit: false });
    assert_eq!(ui.status, "可以修复");
    assert_eq!(ui.wait_seconds, 2);
    assert_eq!(ui.notice, "已打开日志文件");
    assert!(!ui.sending && ui.connected);
    assert_eq!(last.status, "可以修复");
    let mut ui = screen();
    let done = UiState { wait_remaining_ms: 0, ..state() };
    let r = receive(&mut ui, &mut last, "exit", true, Ok(done));
    assert_eq!(r, Reaction { stale: false, countdown: Countdown::Stop, quit: true });
    assert_eq!(ui.notice, "n");
    let mut ui = screen();
    receive(&mut ui, &mut last, "ui_status", true, Ok(state()));
    assert!(ui.sending);
}

#[test]
fn failures_put_back_the_real_settings() {
    let mut ui = screen();
    let mut last = UiState { automatic: false, ..UiState::default() };
    let r = receive(&mut ui, &mut last, "automatic", true, Err(ClientError::Action("save failed".into(), None)));
    assert_eq!(r, Reaction { stale: false, countdown: Countdown::Keep, quit: false });
    assert!(!ui.automatic && !ui.sending);
    assert_eq!(ui.notice, "save failed");
    assert_eq!(ui.status, "old");
    let authoritative = UiState { automatic: true, status: "failed".into(), ..UiState::default() };
    let mut ui = screen();
    receive(&mut ui, &mut last, "automatic", true, Err(ClientError::Action("x".into(), Some(authoritative))));
    assert!(ui.automatic && last.automatic);
    assert_eq!(ui.status, "failed");
    let mut ui = screen();
    let r = receive(&mut ui, &mut last, "repair", true, Err(ClientError::Connection("请先启动同目录的修复后台".into())));
    assert_eq!(r, Reaction { stale: false, countdown: Countdown::Stop, quit: false });
    assert_eq!((ui.status.as_str(), ui.hint.as_str()), ("无法连接后台", "请先启动同目录的修复后台"));
    assert!(!ui.connected && ui.automatic);
    assert_eq!(ui.wait_seconds, 0);
}

#[test]
fn commands_wait_for_a_free_queue() {
    let mut ui = screen();
    let last = UiState::default();
    command_sent(&mut ui, true, &last);
    assert!(ui.sending && ui.notice.is_empty() && ui.automatic);
    let mut ui = screen();
    command_sent(&mut ui, false, &last);
    assert!(!ui.sending && !ui.automatic);
    assert_eq!(ui.notice, "后台正忙，请稍后重试");
}

#[test]
fn countdown_and_theme() {
    assert_eq!(wait_seconds(0), 0);
    assert_eq!(wait_seconds(1), 1);
    assert_eq!(wait_seconds(1000), 1);
    assert_eq!(wait_seconds(1001), 2);
    assert_eq!(theme_from(" dark\n"), 2);
    assert_eq!(theme_from("light"), 1);
    assert_eq!(theme_from(""), 1);
    assert_eq!(theme_name(2), "dark");
    assert_eq!(theme_name(1), "light");
}
