use pet_repair::background::{
    action, arm_event_batch, automatic_status, blocked_message, confirmation_accepted,
    discovery_message, environment, environment_message, fix_decision, forgets_window,
    is_readable, light_state, manual_available, needs_publish, outcome, retry_timer_ms,
    split_status, status_text, toggle_refused, wake_timer_ms, Action, Environment, FixDecision,
    tray_menu, Plan, Reconciler,
};
use pet_repair::identity::{Owner, Window};
use pet_repair::policy::{Block, Policy};
use pet_repair::repair::Report;
use pet_repair::settings::Settings;

#[test]
fn event_storm_keeps_first_deadline() {
    let mut due = None;
    assert!(arm_event_batch(&mut due, 1000));
    for time in 1001..5000 {
        assert!(!arm_event_batch(&mut due, time));
    }
    assert_eq!(due, Some(1300));
    due = None;
    assert!(arm_event_batch(&mut due, 5000));
    assert_eq!(due, Some(5300));
}

fn w(version: &str) -> Window {
    Window {
        hwnd: 5,
        style: 0x800a8,
        rect: [0, 0, 100, 100],
        owner: Owner { pid: 1, start: 1, version: version.into(), path: "p".into(), test: false },
    }
}

#[test]
fn automatic_repair_needs_a_confirmed_version() {
    let mut settings = Settings::default();
    let mut p = Policy::default();
    let windows = vec![w("1.0")];
    p.observe(&windows, 0);
    assert_eq!(fix_decision(false, false, false, &windows, &settings, &mut p, 5000), FixDecision::Unverified);
    assert_eq!(fix_decision(false, false, true, &windows, &settings, &mut p, 5000), FixDecision::Proceed);
    settings.confirm_version("1.0");
    assert_eq!(fix_decision(false, false, false, &windows, &settings, &mut p, 5000), FixDecision::Proceed);
    assert_eq!(fix_decision(false, true, false, &windows, &settings, &mut p, 5000), FixDecision::Ignore);
    assert_eq!(fix_decision(true, false, true, &windows, &settings, &mut p, 5000), FixDecision::Ignore);
    assert_eq!(fix_decision(false, false, true, &[], &settings, &mut p, 5000), FixDecision::NotSingle);
    p.set_halted(true);
    assert_eq!(
        fix_decision(false, false, false, &windows, &settings, &mut p, 5000),
        FixDecision::Blocked(Block::Paused)
    );
}

#[test]
fn messages_for_blocks_and_environment() {
    assert_eq!(blocked_message(&Block::Cooldown(5), false), "自动修复等待中 · 暂时不能修复 · 请等待修复间隔结束");
    assert_eq!(blocked_message(&Block::Cooldown(5), true), "暂时不能修复 · 请等待修复间隔结束");
    assert_eq!(blocked_message(&Block::Handled, false), "正在守护 · 此浮窗本轮已尝试；仍无法拖动时请手动修复");
    assert_eq!(retry_timer_ms(1000), 1050);
    assert_eq!(retry_timer_ms(300_000), 300_050);
    assert_eq!(retry_timer_ms(400_000), 300_100);
    assert_eq!(environment(false, true, true), Environment::Desktop);
    assert_eq!(environment(true, true, true), Environment::Pointer);
    assert_eq!(environment(true, false, true), Environment::OtherRepairer);
    assert_eq!(environment(true, false, false), Environment::Clear);
    assert_eq!(environment_message(&Environment::OtherRepairer), "其他修复器正在运行，请先停用");
}

fn report(code: &str, restored: bool) -> Report {
    Report { code: code.into(), restored, exact: restored, elapsed_ms: 0 }
}

#[test]
fn outcomes_of_finished_repairs() {
    let o = outcome(&report("reset", true), true);
    assert!(o.complete && !o.halt && !o.confirm);
    let o = outcome(&report("reset", true), false);
    assert!(!o.complete && o.halt && o.confirm);
    assert_eq!(o.message, "请检查修复效果 · 试着拖动宠物，再选择下面的结果");
    let o = outcome(&report("cancelled_restored", true), false);
    assert!(o.complete && !o.halt);
    let o = outcome(&report("input_interrupted_restored", true), false);
    assert!(o.complete && !o.halt);
    let o = outcome(&report("目标窗口已销毁或改变", false), true);
    assert!(!o.complete && o.halt && !o.confirm);
    assert_eq!(o.message, "目标浮窗已关闭或重新创建，本次修复结束 · 重新显示宠物后再试");
    assert!(confirmation_accepted(true, Some(&report("reset", true)), true));
    assert!(!confirmation_accepted(false, Some(&report("reset", true)), true));
    assert!(!confirmation_accepted(true, Some(&report("reset", false)), true));
    assert!(!confirmation_accepted(true, None, true));
}

#[test]
fn status_lines() {
    assert_eq!(automatic_status(false, true, true, true), "自动修复已关闭");
    assert_eq!(automatic_status(true, true, true, true), "自动修复已开启 · 等待你确认效果");
    assert_eq!(automatic_status(true, false, true, true), "自动修复已开启 · 当前暂停处理");
    assert_eq!(automatic_status(true, false, false, true), "自动修复已开启 · 此版本尚未确认有效");
    assert_eq!(automatic_status(true, false, false, false), "自动修复已开启");
    assert_eq!(status_text("等待", Some(5000), 1000), "等待 · 还需 4 秒");
    assert_eq!(status_text("等待", Some(5001), 1000), "等待 · 还需 5 秒");
    assert_eq!(status_text("等待", Some(1000), 1000), "等待已结束 · 可以点击“立即修复”");
    assert_eq!(status_text("就绪", None, 1000), "就绪");
    assert_eq!(split_status("a · b · c"), ("a".to_string(), "b · c".to_string()));
    assert_eq!(split_status("abc"), ("abc".to_string(), String::new()));
}

#[test]
fn readable_messages_and_discovery() {
    assert!(is_readable(""));
    assert!(is_readable("请先打开 Codex"));
    assert!(!is_readable("CreateNamedPipe: Win32 5"));
    assert_eq!(discovery_message(0, true, false), Some("请先打开 Codex"));
    assert_eq!(discovery_message(0, false, true), Some("请先显示宠物"));
    assert_eq!(discovery_message(2, false, true), Some("检测到多个浮窗，请先隐藏其他浮窗"));
    assert_eq!(discovery_message(1, false, false), Some("可以修复 · 点击“立即修复”"));
    assert_eq!(discovery_message(1, false, true), None);
    assert!(forgets_window(0x8001, true));
    assert!(forgets_window(0x8003, false));
    assert!(!forgets_window(0x8003, true));
    assert!(!forgets_window(0x800B, false));
    assert_eq!(wake_timer_ms(100, 200), 1);
    assert_eq!(wake_timer_ms(500, 200), 300);
    assert_eq!(wake_timer_ms(900_000, 0), 300_000);
}

#[test]
fn interface_state_and_commands() {
    let mut p = Policy::default();
    let windows = vec![w("1")];
    p.observe(&windows, 0);
    assert!(!manual_available(&windows, &p, 1000));
    assert!(manual_available(&windows, &p, 2000));
    let settings = Settings { automatic: true, tray_only: true, look_at_mouse: true, verified_versions: vec![] };
    let s = light_state("可以修复 · 点击“立即修复”", "自动修复已开启", &settings, false, false, true, false, 3, Some(2500), 2000);
    assert_eq!(s.status, "可以修复");
    assert_eq!(s.hint, "点击“立即修复”");
    assert!(s.automatic && s.tray_only && s.look_at_mouse && s.can_repair);
    assert_eq!(s.wait_remaining_ms, 500);
    let busy = light_state("x", "y", &settings, false, true, true, false, 3, None, 2000);
    assert!(!busy.can_repair && busy.busy);
    assert!(needs_publish(None, &s, None, None));
    assert!(!needs_publish(Some(&s), &s, Some(2500), Some(2500)));
    assert!(needs_publish(Some(&s), &s, None, Some(2500)));
    assert!(needs_publish(Some(&busy), &s, None, None));
    assert_eq!(action("automatic", Some(true), false, false, false, false, false), Action::ToggleAutomatic);
    assert_eq!(action("automatic", Some(true), true, false, false, false, false), Action::Nothing);
    assert_eq!(action("confirm", Some(false), false, false, false, false, true), Action::ConfirmNo);
    assert_eq!(action("confirm", Some(true), false, false, false, false, false), Action::Nothing);
    assert_eq!(action("exit", None, false, false, false, false, false), Action::Exit);
    assert_eq!(action("reboot", None, false, false, false, false, false), Action::Unknown);
    assert_eq!(action("look_at_mouse", Some(true), false, false, false, false, false), Action::ToggleLookAtMouse);
    assert_eq!(action("look_at_mouse", Some(true), false, false, false, true, false), Action::Nothing);
    assert_eq!(action("look_at_mouse", Some(false), false, false, false, true, false), Action::ToggleLookAtMouse);
    assert_eq!(action("look_at_mouse", None, false, false, false, true, false), Action::Nothing);
    assert_eq!(toggle_refused(true), Some("修复进行中，完成后可调整自动修复"));
    assert_eq!(toggle_refused(false), None);
}

#[test]
fn busy_repair_defers_events_and_full_reconciliation() {
    let mut r = Reconciler::new();
    r.mark(10);
    r.mark(20);
    r.mark(10);
    // A running repair: nothing is scanned, the rescan and both events stay owed.
    assert!(matches!(r.plan(true, true, &[]), Plan::Defer));
    assert!(r.pending());
    assert_eq!(r.dirty_count(), 2);
    // Afterwards the owed rescan runs once and settles everything.
    assert!(matches!(r.plan(false, false, &[10, 20]), Plan::Full));
    assert!(!r.pending());
    assert_eq!(r.dirty_count(), 0);
}

#[test]
fn events_recheck_only_their_windows() {
    let mut r = Reconciler::new();
    r.mark(7);
    match r.plan(false, false, &[1, 2, 3]) {
        Plan::Windows(list) => assert_eq!(list, vec![7]),
        other => panic!("{other:?}"),
    }
    match r.plan(false, false, &[1, 2, 3]) {
        Plan::Windows(list) => assert_eq!(list, vec![1, 2, 3]),
        other => panic!("{other:?}"),
    }
    r.request_full();
    assert!(matches!(r.plan(false, false, &[]), Plan::Full));
}

#[test]
fn tray_menu_follows_the_state() {
    let idle = tray_menu(false, 1, true, false);
    assert_eq!((idle.fix_label, idle.fix_enabled), ("立即修复", true));
    assert!(idle.automatic_checked && idle.automatic_enabled && !idle.confirm_entries);
    assert_eq!(idle.repair_title, "修复");
    let none = tray_menu(false, 2, false, true);
    assert!(!none.fix_enabled && !none.automatic_checked && none.confirm_entries);
    assert_eq!(none.repair_title, "修复（待确认）");
    let busy = tray_menu(true, 0, true, false);
    assert_eq!((busy.fix_label, busy.fix_enabled), ("取消修复", true));
    assert!(!busy.automatic_enabled);
}

#[test]
fn rechecking_known_windows_takes_each_once() {
    let mut r = Reconciler::new();
    match r.plan(false, false, &[4, 4, 5]) {
        Plan::Windows(list) => assert_eq!(list, vec![4, 5]),
        other => panic!("{other:?}"),
    }
}
