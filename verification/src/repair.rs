//! The repair transaction: clear the layered style bit for about three seconds, then restore
//! the window, keeping any change the application made meanwhile.
use crate::identity::{key_of, Window, WindowKey};
use crate::policy::{restored_style, LAYERED};
use crate::text::{decimal, padded, push_decimal, push_padded, str_eq, trimmed};
use vstd::prelude::*;
use vstd::string::*;

verus! {

/// Result code of a restore that kept a concurrent style change of the application.
pub const STYLE_CHANGED: &'static str = "检测到客户端并发改变样式，已保留其变化";
/// Result code of a repair that reset the window exactly.
pub const RESET: &'static str = "reset";
/// Result code of a repair cancelled by the user; the window was restored.
pub const CANCELLED: &'static str = "cancelled_restored";
/// Result code of a repair interrupted by a desktop switch; the window was restored.
pub const INPUT_INTERRUPTED: &'static str = "input_interrupted_restored";
/// Result code of a repair whose target window changed while it ran.
pub const TARGET_CHANGED_DURING: &'static str = "target_changed";
/// Result code of a repair that the background restored after its helper exited.
pub const RECOVERED: &'static str = "辅助进程中断，兜底恢复已完成";
/// Result code when the target window is gone or no longer the same window.
pub const TARGET_GONE: &'static str = "目标窗口已销毁或改变";
/// Result code when the style to restore cannot be read.
pub const STYLE_UNREADABLE: &'static str = "无法读取待恢复样式";
/// Result code when the written style does not read back.
pub const RESTORE_UNVERIFIED: &'static str = "恢复核验失败";
/// Result code when a pending transaction record cannot be read.
pub const JOURNAL_DAMAGED: &'static str = "未完成记录损坏；未修改任何窗口";

/// The change a running repair made, enough to undo it.
#[derive(Clone, Debug)]
pub struct Transaction {
    pub window: Window,
    pub original: u32,
    pub marker: String,
}

/// How a repair ended.
#[derive(Clone, Debug)]
pub struct Report {
    pub code: String,
    pub restored: bool,
    pub exact: bool,
    pub elapsed_ms: u64,
}

/// Event code, message and advice that describe a result code.
pub open spec fn report_description(code: Seq<char>) -> (Seq<char>, Seq<char>, Seq<char>) {
    if code == RESET@ {
        ("REPAIR_COMPLETED"@, "窗口状态已重置"@, "请实际拖动宠物检查效果"@)
    } else if code == STYLE_CHANGED@ {
        ("REPAIR_STYLE_MERGED"@, "窗口状态已恢复，并保留客户端的同时更新"@, "请实际拖动宠物检查效果"@)
    } else if code == CANCELLED@ {
        ("REPAIR_CANCELLED"@, "修复已取消，窗口原状态已恢复"@, "需要时可以再次手动修复"@)
    } else if code == INPUT_INTERRUPTED@ {
        (
            "REPAIR_INPUT_INTERRUPTED"@,
            "桌面已锁定或切换到安全桌面，窗口原状态已恢复"@,
            "回到正常桌面后可以重新修复"@,
        )
    } else if code == RECOVERED@ {
        (
            "REPAIR_RECOVERED"@,
            "修复辅助程序退出，窗口原状态已由后台恢复"@,
            "请检查宠物状态；若仍无效，请复制诊断摘要"@,
        )
    } else if code == TARGET_GONE@ {
        ("REPAIR_TARGET_CHANGED"@, "目标浮窗已关闭或重新创建，本次修复结束"@, "重新显示宠物后再试"@)
    } else {
        ("REPAIR_FAILED"@, "本次修复未能正常完成"@, "请复制诊断摘要，保留下面的原始错误信息"@)
    }
}

/// A result lets the user confirm the repair only when the window was restored after a
/// complete run.
pub open spec fn confirmable(r: Report) -> bool {
    r.restored && (r.code@ == RESET@ || r.code@ == STYLE_CHANGED@)
}

pub open spec fn failure(code: Seq<char>) -> (Seq<char>, bool, bool, u64) {
    (code, false, false, 0)
}

pub open spec fn parts(r: Report) -> (Seq<char>, bool, bool, u64) {
    (r.code@, r.restored, r.exact, r.elapsed_ms)
}

impl Report {
    pub fn description(&self) -> (r: (&'static str, &'static str, &'static str))
        ensures
            (r.0@, r.1@, r.2@) == report_description(self.code@),
    {
        let code = self.code.as_str();
        if str_eq(code, RESET) {
            ("REPAIR_COMPLETED", "窗口状态已重置", "请实际拖动宠物检查效果")
        } else if str_eq(code, STYLE_CHANGED) {
            ("REPAIR_STYLE_MERGED", "窗口状态已恢复，并保留客户端的同时更新", "请实际拖动宠物检查效果")
        } else if str_eq(code, CANCELLED) {
            ("REPAIR_CANCELLED", "修复已取消，窗口原状态已恢复", "需要时可以再次手动修复")
        } else if str_eq(code, INPUT_INTERRUPTED) {
            (
                "REPAIR_INPUT_INTERRUPTED",
                "桌面已锁定或切换到安全桌面，窗口原状态已恢复",
                "回到正常桌面后可以重新修复",
            )
        } else if str_eq(code, RECOVERED) {
            (
                "REPAIR_RECOVERED",
                "修复辅助程序退出，窗口原状态已由后台恢复",
                "请检查宠物状态；若仍无效，请复制诊断摘要",
            )
        } else if str_eq(code, TARGET_GONE) {
            ("REPAIR_TARGET_CHANGED", "目标浮窗已关闭或重新创建，本次修复结束", "重新显示宠物后再试")
        } else {
            ("REPAIR_FAILED", "本次修复未能正常完成", "请复制诊断摘要，保留下面的原始错误信息")
        }
    }

    pub fn can_confirm(&self) -> (r: bool)
        ensures
            r == confirmable(*self),
    {
        let code = self.code.as_str();
        self.restored && (str_eq(code, RESET) || str_eq(code, STYLE_CHANGED))
    }

    /// A failed repair that did not restore anything.
    pub fn fail(code: String) -> (r: Report)
        ensures
            parts(r) == failure(code@),
    {
        Report { code, restored: false, exact: false, elapsed_ms: 0 }
    }
}

/// The report the repair helper sends back, whatever its transaction returned.
pub fn worker(outcome: Result<Report, String>) -> (r: Report)
    ensures
        match outcome {
            Ok(report) => r == report,
            Err(e) => parts(r) == failure(e@),
        },
{
    match outcome {
        Ok(report) => report,
        Err(e) => Report::fail(e),
    }
}

/// The repair's report after it wrote `value` back: `written` is the result of the write and
/// refresh, `actual` the style read afterwards, `conflict` whether the application changed
/// other bits meanwhile.
pub open spec fn restore_outcome(
    written: Result<(), Seq<char>>,
    actual: Option<u32>,
    value: u32,
    conflict: bool,
) -> (Seq<char>, bool, bool, u64) {
    let restored = actual == Some(value);
    let code = match written {
        Err(e) => e,
        Ok(_) => if !restored {
            RESTORE_UNVERIFIED@
        } else if conflict {
            STYLE_CHANGED@
        } else {
            RESET@
        },
    };
    (code, restored, restored && !conflict, 0)
}

pub fn restore_report(written: Result<(), String>, actual: Option<u32>, value: u32, conflict: bool) -> (r:
    Report)
    ensures
        parts(r) == restore_outcome(
            match written {
                Ok(_) => Ok(()),
                Err(e) => Err(e@),
            },
            actual,
            value,
            conflict,
        ),
{
    let restored = match actual {
        Some(a) => a == value,
        None => false,
    };
    let code = match written {
        Err(e) => e,
        Ok(_) => if !restored {
            String::from_str(RESTORE_UNVERIFIED)
        } else if conflict {
            String::from_str(STYLE_CHANGED)
        } else {
            String::from_str(RESET)
        },
    };
    Report { code, restored, exact: restored && !conflict, elapsed_ms: 0 }
}

/// Where a restore starts: a target that is gone or no longer carries the transaction's marker
/// is left alone; a style that cannot be read is not written; otherwise the style to write and
/// whether the application changed the window meanwhile.
pub fn restore_start(target_marked: bool, current: Option<u32>, original: u32) -> (r: Result<
    (u32, bool),
    Report,
>)
    ensures
        match r {
            Ok(v) => target_marked && current is Some && v == restored_style(original, current.unwrap()),
            Err(report) => parts(report) == (if !target_marked {
                failure(TARGET_GONE@)
            } else {
                failure(STYLE_UNREADABLE@)
            }) && (!target_marked || current is None),
        },
{
    if !target_marked {
        return Err(Report::fail(String::from_str(TARGET_GONE)));
    }
    match current {
        Some(c) => Ok(crate::policy::restore_value(original, c)),
        None => Err(Report::fail(String::from_str(STYLE_UNREADABLE))),
    }
}

/// The style the repair writes while it runs: the original without the layered bit.
pub fn repaired_style(original: u32) -> (r: u32)
    ensures
        r == original & !LAYERED,
{
    original & !LAYERED
}

/// The longest request line the helper accepts.
pub const REQUEST_LIMIT: usize = 16384;
/// The longest line the background accepts from the helper.
pub const EVENT_LIMIT: usize = 32768;

pub fn request_fits(len: usize) -> (r: bool)
    ensures
        r == (len <= REQUEST_LIMIT),
{
    len <= REQUEST_LIMIT
}

pub fn event_fits(len: usize) -> (r: bool)
    ensures
        r == (len <= EVENT_LIMIT),
{
    len <= EVENT_LIMIT
}

/// The helper only changes the window after the background answers `go` (surrounding white
/// space aside) while it is still alive.
pub fn go_confirmed(line: &str, parent_alive: bool) -> (r: bool)
    ensures
        r == (parent_alive && crate::text::trim_chars(line@) == "go"@),
{
    let t = trimmed(line);
    str_eq(t, "go") && parent_alive
}

pub open spec fn interruption_of(cancelled: bool, parent_alive: bool, desktop: bool, same: bool) -> Option<
    Seq<char>,
> {
    if cancelled || !parent_alive {
        Some(CANCELLED@)
    } else if !desktop {
        Some(INPUT_INTERRUPTED@)
    } else if !same {
        Some(TARGET_CHANGED_DURING@)
    } else {
        None
    }
}

/// Why a running repair must restore the window early, if it must: a cancel or a lost
/// background first, then the loss of the interactive desktop, then a changed target.
/// Ordinary clicks and typing do not interrupt it.
pub fn interruption(cancelled: bool, parent_alive: bool, desktop: bool, same: bool) -> (r: Option<
    &'static str,
>)
    ensures
        match r {
            Some(s) => interruption_of(cancelled, parent_alive, desktop, same) == Some(s@),
            None => interruption_of(cancelled, parent_alive, desktop, same) is None,
        },
{
    if cancelled || !parent_alive {
        Some(CANCELLED)
    } else if !desktop {
        Some(INPUT_INTERRUPTED)
    } else if !same {
        Some(TARGET_CHANGED_DURING)
    } else {
        None
    }
}

/// The report the helper returns: when the window was restored, an interruption names why
/// the repair ended early.
pub fn finish(report: Report, interrupted: Option<&str>, elapsed_ms: u64) -> (r: Report)
    ensures
        r.restored == report.restored,
        r.exact == report.exact,
        r.elapsed_ms == elapsed_ms,
        r.code@ == (match interrupted {
            Some(reason) => if report.restored {
                reason@
            } else {
                report.code@
            },
            None => report.code@,
        }),
{
    let mut r = report;
    if r.restored {
        if let Some(reason) = interrupted {
            r.code = String::from_str(reason);
        }
    }
    r.elapsed_ms = elapsed_ms;
    r
}

/// Whether the background must try to restore the window itself: the helper did not report a
/// restored window and had announced its transaction.
pub fn needs_fallback(result: &Report, prepared: bool) -> (r: bool)
    ensures
        r == (!result.restored && prepared),
{
    !result.restored && prepared
}

/// The final result after the background's own restore attempt, if it made one.
pub fn settle(result: Report, fallback: Option<Report>) -> (r: Report)
    ensures
        match fallback {
            Some(f) => if !result.restored && f.restored {
                parts(r) == (RECOVERED@, f.restored, f.exact, f.elapsed_ms)
            } else {
                r == result
            },
            None => r == result,
        },
{
    if !result.restored {
        if let Some(f) = fallback {
            if f.restored {
                return Report { code: String::from_str(RECOVERED), ..f };
            }
        }
    }
    result
}

/// The pending-transaction record may go once the window is restored, or when the window it
/// names no longer exists.
pub fn clear_journal(restored: bool, prepared: bool, same: bool) -> (r: bool)
    ensures
        r == (restored || (prepared && !same)),
{
    restored || (prepared && !same)
}

/// The named mutex that serializes repairs; the self-test uses its own.
pub fn lock(w: &Window) -> (r: &'static str)
    ensures
        r@ == (if w.owner.test {
            "Local\\PetRepairSyntheticTests"@
        } else {
            "Local\\CodexTweaksPetDragRecoveryV1"@
        }),
{
    if w.owner.test {
        "Local\\PetRepairSyntheticTests"
    } else {
        "Local\\CodexTweaksPetDragRecoveryV1"
    }
}

/// The interactive desktop is ours and, for a real overlay, no pointer button is held on it.
pub fn input_ready(w: &Window, desktop: bool, pressed_in_window: bool) -> (r: bool)
    ensures
        r == (desktop && (w.owner.test || !pressed_in_window)),
{
    desktop && (w.owner.test || !pressed_in_window)
}

/// Whether the fresh discovery still lists the window to repair.
pub fn still_listed(current: &[Window], key: WindowKey) -> (r: bool)
    ensures
        r == exists|i: int| 0 <= i < current@.len() && key_of(#[trigger] current@[i]) == key,
{
    let mut i: usize = 0;
    while i < current.len()
        invariant
            i <= current@.len(),
            forall|j: int| 0 <= j < i ==> key_of(#[trigger] current@[j]) != key,
        decreases current@.len() - i,
    {
        if current[i].key() == key {
            return true;
        }
        i = i + 1;
    }
    false
}

/// A completed repair and a complete restore of the repair's own change can be confirmed, and
/// its description is one of the two success descriptions.
pub proof fn law_confirmable_results_are_successes(r: Report)
    ensures
        confirmable(r) ==> report_description(r.code@).0 == "REPAIR_COMPLETED"@
            || report_description(r.code@).0 == "REPAIR_STYLE_MERGED"@,
{
}

/// The helper changes the window only after the background has saved the pending journal:
/// the line the background writes after a prepared transaction (its reply and a newline) is
/// accepted as the go-ahead exactly when the journal was saved and the parent is alive.
pub proof fn law_change_needs_saved_journal(saved: bool, parent_alive: bool)
    ensures
        (parent_alive && crate::text::trim_chars(
            (if saved {
                "go"@
            } else {
                "cancel"@
            }) + "\n"@,
        ) == "go"@) == (saved && parent_alive),
{
    reveal_strlit("go");
    reveal_strlit("cancel");
    reveal_strlit("\n");
    let line = (if saved {
        "go"@
    } else {
        "cancel"@
    }) + "\n"@;
    let body = if saved {
        "go"@
    } else {
        "cancel"@
    };
    assert(crate::text::trim_start_chars(line) == line);
    assert(line.drop_last() =~= body);
    assert(crate::text::trim_end_chars(body) == body);
    assert(crate::text::trim_end_chars(line) == body);
    if !saved {
        assert(body.len() != "go"@.len());
    }
}

/// A repair that restored exactly what it changed reports `reset`, which can be confirmed.
pub proof fn law_exact_restore_is_confirmable(original: u32)
    ensures
        ({
            let (value, conflict) = restored_style(original, original & !LAYERED);
            let o = restore_outcome(Ok(()), Some(value), value, conflict);
            &&& o.0 == RESET@
            &&& o.1 && o.2
        }),
{
    crate::policy::law_restore_undoes_repair(original);
}


/// The window property that marks a window as the target of a running transaction.
pub fn marker_name(pid: u32, nanos: u128) -> (r: String)
    ensures
        r@ == "PetRepair-"@ + decimal(pid as nat) + "-"@ + decimal(nanos as nat),
{
    let mut s = String::from_str("PetRepair-");
    push_decimal(&mut s, pid as u128);
    s.append("-");
    push_decimal(&mut s, nanos);
    s
}

/// The identifier of a repair in the log: the process and a four-digit sequence number.
pub fn operation_id(pid: u32, sequence: u64) -> (r: String)
    ensures
        r@ == decimal(pid as nat) + "-"@ + padded(sequence as nat, 4),
{
    let mut s = String::new();
    push_decimal(&mut s, pid as u128);
    s.append("-");
    push_padded(&mut s, sequence as u128, 4);
    s
}

/// The details logged when a repair starts.
pub fn started_detail(version: &str, pid: u32, hwnd: usize) -> (r: String)
    ensures
        r@ == "客户端版本："@ + version@ + "\n目标进程："@ + decimal(pid as nat) + "\n目标窗口："@
            + decimal(hwnd as nat) + "\n预计用时：约 3 秒"@,
{
    let mut s = String::from_str("客户端版本：");
    s.append(version);
    s.append("\n目标进程：");
    push_decimal(&mut s, pid as u128);
    s.append("\n目标窗口：");
    push_decimal(&mut s, hwnd as u128);
    s.append("\n预计用时：约 3 秒");
    s
}

/// The answer the background gives the helper once its transaction is on record.
pub fn prepared_reply(saved: bool) -> (r: &'static str)
    ensures
        r@ == (if saved {
            "go"@
        } else {
            "cancel"@
        }),
{
    if saved {
        "go"
    } else {
        "cancel"
    }
}

/// The self-test's scenarios on its own off-screen windows.
#[derive(Clone, Copy, Debug, PartialEq, Eq, Structural)]
pub enum Scenario {
    Normal,
    Cancel,
    Conflict,
    Crash,
    Destroy,
}

/// The bit the conflict scenario clears meanwhile (`WS_EX_TRANSPARENT`).
pub const TRANSPARENT: u32 = 0x20;

pub open spec fn scenario_ok(s: Scenario, r: Report, actual: Option<u32>, style: u32, still_same: bool) -> bool {
    match s {
        Scenario::Normal => r.code@ == RESET@ && r.exact && actual == Some(style),
        Scenario::Cancel => r.code@ == CANCELLED@ && r.exact && actual == Some(style),
        Scenario::Conflict => r.restored && !r.exact && actual == Some(style & !TRANSPARENT),
        Scenario::Crash => r.restored && actual == Some(style),
        Scenario::Destroy => !(r.restored || still_same),
    }
}

/// Whether a self-test scenario ended as it must: `actual` is the window's style afterwards,
/// `style` its style before, `still_same` whether the window still exists unchanged.
pub fn scenario_passed(s: Scenario, r: &Report, actual: Option<u32>, style: u32, still_same: bool) -> (ok:
    bool)
    ensures
        ok == scenario_ok(s, *r, actual, style, still_same),
{
    let same_style = match actual {
        Some(a) => a == style,
        None => false,
    };
    match s {
        Scenario::Normal => str_eq(r.code.as_str(), RESET) && r.exact && same_style,
        Scenario::Cancel => str_eq(r.code.as_str(), CANCELLED) && r.exact && same_style,
        Scenario::Conflict => r.restored && !r.exact && match actual {
            Some(a) => a == style & !TRANSPARENT,
            None => false,
        },
        Scenario::Crash => r.restored && same_style,
        Scenario::Destroy => !(r.restored || still_same),
    }
}

/// What to do with a pending transaction record found at start-up.
#[derive(Debug, PartialEq, Eq, Structural)]
pub enum Pending {
    /// The record cannot be read: report it, change nothing.
    Damaged,
    /// The window it names is gone or no longer marked: delete the record.
    Stale,
    /// Restore the window under the repair lock.
    Restore,
}

pub fn pending_action(parsed: bool, target_marked: bool) -> (r: Pending)
    ensures
        r == (if !parsed {
            Pending::Damaged
        } else if !target_marked {
            Pending::Stale
        } else {
            Pending::Restore
        }),
{
    if !parsed {
        Pending::Damaged
    } else if !target_marked {
        Pending::Stale
    } else {
        Pending::Restore
    }
}
} // verus!
