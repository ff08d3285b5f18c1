use pet_repair::identity::{Owner, Window, WindowKey};
use pet_repair::repair::{
    clear_journal, event_fits, finish, go_confirmed, input_ready, interruption, lock,
    marker_name, needs_fallback, operation_id, pending_action, prepared_reply, repaired_style,
    request_fits, restore_report, restore_start, scenario_passed, settle, started_detail,
    still_listed, worker,
    Pending, Report, Scenario, STYLE_CHANGED,
};

fn report(code: &str, restored: bool, exact: bool) -> Report {
    Report {
        code: code.into(),
        restored,
        exact,
        elapsed_ms: 3000,
    }
}

#[test]
fn confirmation_requires_completed_recovery_but_not_identical_unrelated_styles() {
    for (code, restored, exact, expected) in [
        ("reset", true, true, true),
        (STYLE_CHANGED, true, false, true),
        (STYLE_CHANGED, false, false, false),
        ("cancelled_restored", true, true, false),
        ("cancelled_restored", true, false, false),
        ("input_interrupted_restored", true, false, false),
        ("恢复核验失败", false, false, false),
        ("辅助进程中断，兜底恢复已完成", true, true, false),
    ] {
        let report = Report {
            code: code.into(),
            restored,
            exact,
            elapsed_ms: 3000,
        };
        assert_eq!(report.can_confirm(), expected, "{report:?}");
    }
}

#[test]
fn descriptions_of_result_codes() {
    assert_eq!(report("reset", true, true).description().0, "REPAIR_COMPLETED");
    assert_eq!(report(STYLE_CHANGED, true, false).description().0, "REPAIR_STYLE_MERGED");
    assert_eq!(
        report("cancelled_restored", true, true).description(),
        ("REPAIR_CANCELLED", "修复已取消，窗口原状态已恢复", "需要时可以再次手动修复")
    );
    assert_eq!(report("目标窗口已销毁或改变", false, false).description().0, "REPAIR_TARGET_CHANGED");
    assert_eq!(report("whatever", false, false).description().0, "REPAIR_FAILED");
}

#[test]
fn worker_reports_errors_as_failures() {
    let r = worker(Err("parent_changed".into()));
    assert_eq!(r.code, "parent_changed");
    assert!(!r.restored && !r.exact && r.elapsed_ms == 0);
    let ok = worker(Ok(report("reset", true, true)));
    assert_eq!(ok.code, "reset");
    assert_eq!(ok.elapsed_ms, 3000);
    let failed = Report::fail("x".into());
    assert_eq!(failed.code, "x");
    assert!(!failed.restored);
}

#[test]
fn restore_report_codes() {
    let r = restore_report(Ok(()), Some(0x800a8), 0x800a8, false);
    assert_eq!(r.code, "reset");
    assert!(r.restored && r.exact);
    let r = restore_report(Ok(()), Some(0x80088), 0x80088, true);
    assert_eq!(r.code, STYLE_CHANGED);
    assert!(r.restored && !r.exact);
    let r = restore_report(Ok(()), Some(1), 2, false);
    assert_eq!(r.code, "恢复核验失败");
    assert!(!r.restored);
    let r = restore_report(Err("SetWindowLongPtr: Win32 5".into()), Some(2), 2, false);
    assert_eq!(r.code, "SetWindowLongPtr: Win32 5");
    assert!(r.restored);
}

#[test]
fn the_helper_only_proceeds_on_go() {
    assert!(go_confirmed("go\n", true));
    assert!(go_confirmed("  go\r\n", true));
    assert!(!go_confirmed("go\n", false));
    assert!(!go_confirmed("cancel\n", true));
    assert!(!go_confirmed("g o", true));
}

#[test]
fn interruptions_in_priority_order() {
    assert_eq!(interruption(true, true, false, false), Some("cancelled_restored"));
    assert_eq!(interruption(false, false, true, true), Some("cancelled_restored"));
    assert_eq!(interruption(false, true, false, false), Some("input_interrupted_restored"));
    assert_eq!(interruption(false, true, true, false), Some("target_changed"));
    assert_eq!(interruption(false, true, true, true), None);
}

#[test]
fn finishing_keeps_the_interruption_only_when_restored() {
    let r = finish(report("reset", true, true), Some("cancelled_restored"), 3129);
    assert_eq!(r.code, "cancelled_restored");
    assert_eq!(r.elapsed_ms, 3129);
    let r = finish(report("恢复核验失败", false, false), Some("cancelled_restored"), 10);
    assert_eq!(r.code, "恢复核验失败");
}

#[test]
fn fallback_recovery() {
    assert!(needs_fallback(&report("x", false, false), true));
    assert!(!needs_fallback(&report("x", false, false), false));
    assert!(!needs_fallback(&report("reset", true, true), true));
    let r = settle(report("辅助进程异常退出", false, false), Some(report("reset", true, true)));
    assert_eq!(r.code, "辅助进程中断，兜底恢复已完成");
    assert!(r.restored && r.exact);
    let r = settle(report("辅助进程异常退出", false, false), Some(report("恢复核验失败", false, false)));
    assert_eq!(r.code, "辅助进程异常退出");
    assert!(clear_journal(true, true, true));
    assert!(clear_journal(false, true, false));
    assert!(!clear_journal(false, true, true));
}

#[test]
fn limits_styles_and_locks() {
    assert!(request_fits(16384) && !request_fits(16385));
    assert!(event_fits(32768) && !event_fits(32769));
    assert_eq!(repaired_style(0x800a8), 0xa8);
    let mut w = Window {
        hwnd: 3,
        style: 0x800a8,
        rect: [0, 0, 10, 10],
        owner: Owner { pid: 7, start: 8, version: "v".into(), path: "p".into(), test: true },
    };
    assert_eq!(lock(&w), "Local\\PetRepairSyntheticTests");
    assert!(input_ready(&w, true, true));
    w.owner.test = false;
    assert_eq!(lock(&w), "Local\\CodexTweaksPetDragRecoveryV1");
    assert!(!input_ready(&w, true, true));
    assert!(!input_ready(&w, false, false));
    assert!(still_listed(std::slice::from_ref(&w), WindowKey { pid: 7, start: 8, hwnd: 3 }));
    assert!(!still_listed(std::slice::from_ref(&w), WindowKey { pid: 7, start: 9, hwnd: 3 }));
}

#[test]
fn helper_goes_only_after_saved_journal() {
    assert_eq!(prepared_reply(true), "go");
    assert_eq!(prepared_reply(false), "cancel");
    for saved in [false, true] {
        for alive in [false, true] {
            let line = format!("{}\n", prepared_reply(saved));
            assert_eq!(go_confirmed(&line, alive), saved && alive);
        }
    }
}

#[test]
fn names_and_details_are_exact() {
    assert_eq!(marker_name(1234, 5678901234567890), "PetRepair-1234-5678901234567890");
    assert_eq!(operation_id(4321, 7), "4321-0007");
    assert_eq!(operation_id(4321, 123456), "4321-123456");
    assert_eq!(
        started_detail("26.1.0", 77, 4096),
        "客户端版本：26.1.0\n目标进程：77\n目标窗口：4096\n预计用时：约 3 秒"
    );
}

#[test]
fn pending_journal_actions() {
    assert_eq!(pending_action(false, false), Pending::Damaged);
    assert_eq!(pending_action(false, true), Pending::Damaged);
    assert_eq!(pending_action(true, false), Pending::Stale);
    assert_eq!(pending_action(true, true), Pending::Restore);
}

#[test]
fn self_test_scenarios_are_judged_by_the_restored_style() {
    let style = 0x800a8 | 0x20;
    let exact = report("reset", true, true);
    assert!(scenario_passed(Scenario::Normal, &exact, Some(style), style, true));
    assert!(!scenario_passed(Scenario::Normal, &exact, Some(style & !0x80000), style, true));
    let cancelled = report("cancelled_restored", true, true);
    assert!(scenario_passed(Scenario::Cancel, &cancelled, Some(style), style, true));
    assert!(!scenario_passed(Scenario::Cancel, &exact, Some(style), style, true));
    let merged = report(STYLE_CHANGED, true, false);
    assert!(scenario_passed(Scenario::Conflict, &merged, Some(style & !0x20), style, true));
    assert!(!scenario_passed(Scenario::Conflict, &merged, Some(style), style, true));
    let recovered = report("辅助进程中断，兜底恢复已完成", true, true);
    assert!(scenario_passed(Scenario::Crash, &recovered, Some(style), style, true));
    let gone = report("目标窗口已销毁或改变", false, false);
    assert!(scenario_passed(Scenario::Destroy, &gone, None, style, false));
    assert!(!scenario_passed(Scenario::Destroy, &gone, None, style, true));
}

#[test]
fn restores_start_only_on_a_marked_readable_target() {
    let gone = restore_start(false, Some(0x800a8), 0x800a8).unwrap_err();
    assert_eq!((gone.code.as_str(), gone.restored), ("目标窗口已销毁或改变", false));
    let unread = restore_start(true, None, 0x800a8).unwrap_err();
    assert_eq!(unread.code, "无法读取待恢复样式");
    assert_eq!(restore_start(true, Some(0x800a8 & !0x80000), 0x800a8).unwrap(), (0x800a8, false));
    assert_eq!(restore_start(true, Some(0x88), 0x800a8).unwrap(), (0x80088, true));
}
