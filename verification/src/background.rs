//! The background's decisions: whether to start a repair, what a finished repair means for the
//! policy and the user, and what the tray and the interface show.
use crate::identity::{key_of, Window};
use crate::policy::{
    allow_decision, block_message, block_wait, deadline_fits, next_manual, pruned, Block, Policy,
    PolicyState,
};
use crate::protocol::UiState;
use crate::repair::{confirmable, parts, report_description, Report, CANCELLED, INPUT_INTERRUPTED};
use crate::settings::{version_views, Settings};
use crate::text::{decimal, find, find_from, push_decimal, str_eq};
use vstd::prelude::*;
use vstd::string::*;

verus! {

/// Why a repair request goes no further, or that it may proceed to the system checks.
#[derive(Debug, PartialEq, Eq, Structural)]
pub enum FixDecision {
    /// A repair is running, or an automatic attempt waits for the user's confirmation.
    Ignore,
    /// Not exactly one overlay is visible.
    NotSingle,
    /// Automatic repair of a version nobody confirmed yet.
    Unverified,
    /// The policy refuses for now.
    Blocked(Block),
    /// The repair may start once the desktop and pointer allow it.
    Proceed,
}

pub open spec fn fix_outcome(
    running: bool,
    awaiting: bool,
    manual: bool,
    windows: Seq<Window>,
    versions: Seq<Seq<char>>,
    st: PolicyState,
    now: u64,
) -> FixDecision {
    if running || (!manual && awaiting) {
        FixDecision::Ignore
    } else if windows.len() != 1 {
        FixDecision::NotSingle
    } else if !manual && !versions.contains(windows[0].owner.version@) {
        FixDecision::Unverified
    } else {
        match allow_decision(
            st.windows,
            pruned(st.attempts, now),
            st.halted,
            key_of(windows[0]),
            now,
            manual,
        ) {
            Ok(_) => FixDecision::Proceed,
            Err(b) => FixDecision::Blocked(b),
        }
    }
}

/// Whether the policy consulted `allow` (and so pruned its attempts) on the way to `d`.
pub open spec fn consulted(running: bool, awaiting: bool, manual: bool, windows: Seq<Window>, versions: Seq<Seq<char>>) -> bool {
    !(running || (!manual && awaiting)) && windows.len() == 1 && (manual || versions.contains(
        windows[0].owner.version@,
    ))
}

/// Decide how far a repair request gets before the system checks.
pub fn fix_decision(
    running: bool,
    awaiting: bool,
    manual: bool,
    windows: &[Window],
    settings: &Settings,
    policy: &mut Policy,
    now: u64,
) -> (r: FixDecision)
    requires
        old(policy).wf(),
    ensures
        final(policy).wf(),
        r == fix_outcome(
            running,
            awaiting,
            manual,
            windows@,
            version_views(settings.verified_versions@),
            old(policy)@,
            now,
        ),
        r == FixDecision::Proceed ==> windows@.len() == 1,
        !running && (manual || !awaiting) && windows@.len() != 1 ==> r == FixDecision::NotSingle,
        final(policy)@.windows == old(policy)@.windows,
        final(policy)@.halted == old(policy)@.halted,
        final(policy)@.attempts == (if consulted(
            running,
            awaiting,
            manual,
            windows@,
            version_views(settings.verified_versions@),
        ) {
            pruned(old(policy)@.attempts, now)
        } else {
            old(policy)@.attempts
        }),
{
    proof {
        law_repair_needs_exactly_one_overlay(
            running,
            awaiting,
            manual,
            windows@,
            version_views(settings.verified_versions@),
            policy@,
            now,
        );
    }
    if running || (!manual && awaiting) {
        return FixDecision::Ignore;
    }
    if windows.len() != 1 {
        return FixDecision::NotSingle;
    }
    let w = &windows[0];
    if !manual && !settings.is_verified(w.owner.version.as_str()) {
        return FixDecision::Unverified;
    }
    match policy.allow(w, now, manual) {
        Ok(()) => FixDecision::Proceed,
        Err(b) => FixDecision::Blocked(b),
    }
}

/// A repair request only proceeds when exactly one overlay is visible: when no repair runs
/// and no automatic request waits for the user's confirmation, any other number of overlays
/// (none, or several) is answered with "not a single overlay", whatever the policy says.
pub proof fn law_repair_needs_exactly_one_overlay(
    running: bool,
    awaiting: bool,
    manual: bool,
    windows: Seq<Window>,
    versions: Seq<Seq<char>>,
    st: PolicyState,
    now: u64,
)
    ensures
        fix_outcome(running, awaiting, manual, windows, versions, st, now) == FixDecision::Proceed
            ==> windows.len() == 1 && !running && (manual || !awaiting),
        !running && (manual || !awaiting) && windows.len() != 1 ==> fix_outcome(
            running,
            awaiting,
            manual,
            windows,
            versions,
            st,
            now,
        ) == FixDecision::NotSingle,
        fix_outcome(running, awaiting, manual, windows, versions, st, now)
            == FixDecision::NotSingle ==> windows.len() != 1,
{
}

/// A request is ignored exactly while a repair runs, or when it is automatic and a previous
/// repair still waits for the user's judgement; an automatic request for a single overlay of
/// a version nobody confirmed is refused as unverified, and a manual one never is.
pub proof fn law_ignored_and_unverified_requests(
    running: bool,
    awaiting: bool,
    manual: bool,
    windows: Seq<Window>,
    versions: Seq<Seq<char>>,
    st: PolicyState,
    now: u64,
)
    ensures
        (fix_outcome(running, awaiting, manual, windows, versions, st, now)
            == FixDecision::Ignore) <==> (running || (!manual && awaiting)),
        (fix_outcome(running, awaiting, manual, windows, versions, st, now)
            == FixDecision::Unverified) <==> (!running && !manual && !awaiting && windows.len()
            == 1 && !versions.contains(windows[0].owner.version@)),
{
}

/// Automatic repair never starts while the user has not yet judged a previous repair, nor for a
/// client version that nobody confirmed to be fixed by it, nor while repairs are paused.
pub proof fn law_automatic_repair_needs_confirmation(
    running: bool,
    awaiting: bool,
    windows: Seq<Window>,
    versions: Seq<Seq<char>>,
    st: PolicyState,
    now: u64,
)
    requires
        awaiting || st.halted || (windows.len() == 1 && !versions.contains(
            windows[0].owner.version@,
        )),
    ensures
        fix_outcome(running, awaiting, false, windows, versions, st, now) != FixDecision::Proceed,
{
}

pub const ONLY_ONE_MESSAGE: &'static str = "请仅保留需要修复的浮窗";
pub const UNVERIFIED_MESSAGE: &'static str = "此版本需先手动修复并确认有效";
pub const STARTED_MESSAGE: &'static str = "正在修复 · 约需 3 秒，请暂时不要拖动宠物";

/// The message shown for a refusal; an automatic attempt that only has to wait says so.
pub open spec fn blocked_text(b: Block, manual: bool) -> Seq<char> {
    if !manual && block_wait(b) is Some {
        "自动修复等待中 · "@ + block_message(b)
    } else {
        block_message(b)
    }
}

pub fn blocked_message(b: &Block, manual: bool) -> (r: String)
    ensures
        r@ == blocked_text(*b, manual),
{
    if !manual && b.wait_ms().is_some() {
        let mut s = String::from_str("自动修复等待中 · ");
        s.append(b.message());
        s
    } else {
        String::from_str(b.message())
    }
}

/// The timer that retries after a wait: slightly after the wait ends, at most five minutes.
pub fn retry_timer_ms(wait_ms: u64) -> (r: u32)
    requires
        wait_ms <= u64::MAX - 50,
    ensures
        r == (if wait_ms + 50 < 300_100 {
            wait_ms + 50
        } else {
            300_100
        }),
{
    let t = wait_ms + 50;
    if t < 300_100 {
        t as u32
    } else {
        300_100
    }
}

/// Why the system state holds a ready repair back.
#[derive(Debug, PartialEq, Eq, Structural)]
pub enum Environment {
    /// The interactive desktop is locked or switched; retry in a second.
    Desktop,
    /// A pointer button is held on the pet; retry in a second.
    Pointer,
    /// Another repair tool is running.
    OtherRepairer,
    /// Nothing holds the repair back.
    Clear,
}

pub fn environment(desktop: bool, pressed: bool, other_running: bool) -> (r: Environment)
    ensures
        r == (if !desktop {
            Environment::Desktop
        } else if pressed {
            Environment::Pointer
        } else if other_running {
            Environment::OtherRepairer
        } else {
            Environment::Clear
        }),
{
    if !desktop {
        Environment::Desktop
    } else if pressed {
        Environment::Pointer
    } else if other_running {
        Environment::OtherRepairer
    } else {
        Environment::Clear
    }
}

pub fn environment_message(e: &Environment) -> (r: &'static str)
    ensures
        r@ == (match e {
            Environment::Desktop => "等待桌面可操作 · 解锁电脑或关闭系统安全提示后再试"@,
            Environment::Pointer => "等待宠物操作结束 · 松开宠物上的鼠标按键后继续"@,
            Environment::OtherRepairer => "其他修复器正在运行，请先停用"@,
            Environment::Clear => STARTED_MESSAGE@,
        }),
{
    match e {
        Environment::Desktop => "等待桌面可操作 · 解锁电脑或关闭系统安全提示后再试",
        Environment::Pointer => "等待宠物操作结束 · 松开宠物上的鼠标按键后继续",
        Environment::OtherRepairer => "其他修复器正在运行，请先停用",
        Environment::Clear => STARTED_MESSAGE,
    }
}

/// What a finished repair means: whether the window counts as handled, whether automatic
/// repair pauses, whether the user is asked to confirm, and what is shown.
pub struct Outcome {
    pub complete: bool,
    pub halt: bool,
    pub confirm: bool,
    pub message: String,
}

pub open spec fn outcome_of(r: Report, verified: bool) -> (bool, bool, bool, Seq<char>) {
    if confirmable(r) {
        if verified {
            (true, false, false, "窗口状态已重置 · 请检查宠物能否拖动"@)
        } else {
            (false, true, true, "请检查修复效果 · 试着拖动宠物，再选择下面的结果"@)
        }
    } else if r.code@ == CANCELLED@ {
        (true, false, false, "修复已取消 · 窗口原状态已恢复"@)
    } else if r.code@ == INPUT_INTERRUPTED@ {
        (true, false, false, "桌面切换已中断修复 · 原状态已恢复；回到正常桌面后可重试"@)
    } else {
        (
            false,
            true,
            false,
            report_description(r.code@).1 + " · "@ + report_description(r.code@).2,
        )
    }
}

/// `verified` says whether the repaired window's client version was confirmed before.
pub fn outcome(r: &Report, verified: bool) -> (o: Outcome)
    ensures
        (o.complete, o.halt, o.confirm, o.message@) == outcome_of(*r, verified),
{
    if r.can_confirm() {
        if verified {
            Outcome {
                complete: true,
                halt: false,
                confirm: false,
                message: String::from_str("窗口状态已重置 · 请检查宠物能否拖动"),
            }
        } else {
            Outcome {
                complete: false,
                halt: true,
                confirm: true,
                message: String::from_str("请检查修复效果 · 试着拖动宠物，再选择下面的结果"),
            }
        }
    } else if str_eq(r.code.as_str(), CANCELLED) {
        Outcome {
            complete: true,
            halt: false,
            confirm: false,
            message: String::from_str("修复已取消 · 窗口原状态已恢复"),
        }
    } else if str_eq(r.code.as_str(), INPUT_INTERRUPTED) {
        Outcome {
            complete: true,
            halt: false,
            confirm: false,
            message: String::from_str("桌面切换已中断修复 · 原状态已恢复；回到正常桌面后可重试"),
        }
    } else {
        let (_, message, advice) = r.description();
        let mut s = String::from_str(message);
        s.append(" · ");
        s.append(advice);
        Outcome { complete: false, halt: true, confirm: false, message: s }
    }
}

/// A repair that neither completed nor was stopped on purpose pauses automatic repair; one that
/// completed on an unconfirmed version asks the user and pauses until they answer.
pub proof fn law_failures_pause_automatic_repair(r: Report, verified: bool)
    ensures
        !confirmable(r) && r.code@ != CANCELLED@ && r.code@ != INPUT_INTERRUPTED@ ==> outcome_of(
            r,
            verified,
        ).1,
        confirmable(r) && !verified ==> outcome_of(r, verified).1 && outcome_of(r, verified).2,
        outcome_of(r, verified).2 ==> confirmable(r),
{
}

/// The user's "it drags now" answer is taken only while confirmation is awaited for a result
/// that can be confirmed.
pub fn confirmation_accepted(awaiting: bool, last: Option<&Report>, has_target: bool) -> (r: bool)
    ensures
        r == (awaiting && has_target && match last {
            Some(report) => confirmable(*report),
            None => false,
        }),
{
    awaiting && has_target && match last {
        Some(report) => report.can_confirm(),
        None => false,
    }
}

pub open spec fn automatic_status_text(
    automatic: bool,
    awaiting: bool,
    halted: bool,
    unverified_window: bool,
) -> Seq<char> {
    if !automatic {
        "自动修复已关闭"@
    } else if awaiting {
        "自动修复已开启 · 等待你确认效果"@
    } else if halted {
        "自动修复已开启 · 当前暂停处理"@
    } else if unverified_window {
        "自动修复已开启 · 此版本尚未确认有效"@
    } else {
        "自动修复已开启"@
    }
}

/// The automatic repair line; `unverified_window` says whether the first visible overlay runs
/// an unconfirmed version.
pub fn automatic_status(automatic: bool, awaiting: bool, halted: bool, unverified_window: bool) -> (r:
    &'static str)
    ensures
        r@ == automatic_status_text(automatic, awaiting, halted, unverified_window),
{
    if !automatic {
        "自动修复已关闭"
    } else if awaiting {
        "自动修复已开启 · 等待你确认效果"
    } else if halted {
        "自动修复已开启 · 当前暂停处理"
    } else if unverified_window {
        "自动修复已开启 · 此版本尚未确认有效"
    } else {
        "自动修复已开启"
    }
}

/// Whole seconds left until `deadline`, rounded up.
pub open spec fn seconds_left(deadline: u64, now: u64) -> int {
    let ms = if deadline >= now {
        deadline - now
    } else {
        0
    };
    (ms + 999) / 1000
}

pub open spec fn status_line(message: Seq<char>, wait_until: Option<u64>, now: u64) -> Seq<char> {
    match wait_until {
        Some(deadline) => if seconds_left(deadline, now) > 0 {
            message + " · 还需 "@ + decimal(seconds_left(deadline, now) as nat) + " 秒"@
        } else {
            "等待已结束 · 可以点击“立即修复”"@
        },
        None => message,
    }
}

/// The status line, with the seconds left while a wait runs.
pub fn status_text(message: &str, wait_until: Option<u64>, now: u64) -> (r: String)
    ensures
        r@ == status_line(message@, wait_until, now),
{
    match wait_until {
        Some(deadline) => {
            let ms = deadline.saturating_sub(now);
            let secs = ms / 1000 + if ms % 1000 != 0 {
                1
            } else {
                0
            };
            assert(secs == (ms + 999) / 1000);
            if secs > 0 {
                let mut s = String::from_str(message);
                s.append(" · 还需 ");
                push_decimal(&mut s, secs as u128);
                s.append(" 秒");
                s
            } else {
                String::from_str("等待已结束 · 可以点击“立即修复”")
            }
        },
        None => String::from_str(message),
    }
}

/// The status and the hint of a message: the parts around its first " · ".
pub open spec fn split_message(m: Seq<char>) -> (Seq<char>, Seq<char>) {
    match find_from(m, " · "@, 0) {
        Some(i) => (m.subrange(0, i), m.subrange(i + 3, m.len() as int)),
        None => (m, Seq::empty()),
    }
}

pub fn split_status(message: &str) -> (r: (String, String))
    ensures
        (r.0@, r.1@) == split_message(message@),
{
    let chars = crate::text::chars_of(message);
    proof {
        reveal_strlit(" · ");
        assert(" · "@.len() == 3);
    }
    match find(chars.as_slice(), " · ", 0) {
        Some(i) => {
            let n = chars.len();
            (
                crate::text::string_of(chars.as_slice(), 0, i),
                crate::text::string_of(chars.as_slice(), i + 3, n),
            )
        },
        None => (String::from_str(message), String::new()),
    }
}

/// A message is meant for the user when it is empty or contains CJK text; anything else is a
/// raw error, shown generically and logged.
pub open spec fn readable(m: Seq<char>) -> bool {
    m.len() == 0 || exists|i: int| 0 <= i < m.len() && '\u{4e00}' <= #[trigger] m[i] <= '\u{9fff}'
}

pub const GENERIC_FAILURE: &'static str = "操作未完成 · 请打开日志或复制诊断摘要";

pub fn is_readable(message: &str) -> (r: bool)
    ensures
        r == readable(message@),
{
    let n = message.unicode_len();
    if n == 0 {
        return true;
    }
    let mut i: usize = 0;
    while i < n
        invariant
            n == message@.len(),
            i <= n,
            forall|j: int| 0 <= j < i ==> !('\u{4e00}' <= #[trigger] message@[j] <= '\u{9fff}'),
        decreases n - i,
    {
        let c = message.get_char(i);
        if '\u{4e00}' <= c && c <= '\u{9fff}' {
            return true;
        }
        i = i + 1;
    }
    false
}

/// The message the tray and interface show for the current discovery, if any.
pub fn discovery_message(windows: usize, owners_empty: bool, has_result: bool) -> (r: Option<
    &'static str,
>)
    ensures
        match r {
            Some(m) => m@ == (if windows == 0 {
                if owners_empty {
                    "请先打开 Codex"@
                } else {
                    "请先显示宠物"@
                }
            } else if windows > 1 {
                "检测到多个浮窗，请先隐藏其他浮窗"@
            } else {
                "可以修复 · 点击“立即修复”"@
            }),
            None => windows == 1 && has_result,
        },
{
    if windows == 0 {
        Some(
            if owners_empty {
                "请先打开 Codex"
            } else {
                "请先显示宠物"
            },
        )
    } else if windows > 1 {
        Some("检测到多个浮窗，请先隐藏其他浮窗")
    } else if !has_result {
        Some("可以修复 · 点击“立即修复”")
    } else {
        None
    }
}

/// Window events are coalesced: the first event arms a deadline 300 ms later, and events before
/// that deadline fires do not move it. Returns whether a timer must be started.
pub fn arm_event_batch(due: &mut Option<u64>, now: u64) -> (armed: bool)
    requires
        now <= u64::MAX - 300,
    ensures
        (*old(due)) is Some ==> !armed && *final(due) == *old(due),
        (*old(due)) is None ==> armed && *final(due) == Some((now + 300) as u64),
{
    if due.is_some() {
        false
    } else {
        *due = Some(now + 300);
        true
    }
}

/// A burst of window events keeps the deadline the first event set.
pub proof fn law_event_storm_keeps_first_deadline(first: u64, later: Seq<u64>)
    requires
        first <= u64::MAX - 300,
    ensures
        batch_after(Some((first + 300) as u64), later) == Some((first + 300) as u64),
    decreases later.len(),
{
    if later.len() > 0 {
        law_event_storm_keeps_first_deadline(first, later.drop_last());
    }
}

/// The pending deadline after events at the given times.
pub open spec fn batch_after(due: Option<u64>, times: Seq<u64>) -> Option<u64>
    decreases times.len(),
{
    if times.len() == 0 {
        due
    } else {
        match batch_after(due, times.drop_last()) {
            Some(d) => Some(d),
            None => Some((times.last() + 300) as u64),
        }
    }
}

/// What a refresh of the window list does.
#[derive(Debug)]
pub enum Plan {
    /// A repair is running: nothing is scanned now; the request is remembered.
    Defer,
    /// Rescan the processes and all their windows.
    Full,
    /// Re-inspect only these window handles.
    Windows(Vec<usize>),
}

/// What is owed to the window list: a full rescan, and the handles that window events
/// touched since the last refresh (each once).
pub struct Reconciler {
    pending: bool,
    dirty: Vec<usize>,
}

impl View for Reconciler {
    type V = (bool, Set<usize>);

    closed spec fn view(&self) -> (bool, Set<usize>) {
        (self.pending, self.dirty@.to_set())
    }
}

impl Reconciler {
    pub closed spec fn wf(&self) -> bool {
        self.dirty@.no_duplicates()
    }

    pub fn new() -> (r: Reconciler)
        ensures
            r.wf(),
            r@ == (false, Set::<usize>::empty()),
    {
        Reconciler { pending: false, dirty: Vec::new() }
    }

    /// Whether a full rescan is owed.
    pub fn pending(&self) -> (r: bool)
        ensures
            r == self@.0,
    {
        self.pending
    }

    /// How many handles wait to be re-inspected.
    pub fn dirty_count(&self) -> (r: usize)
        requires
            self.wf(),
        ensures
            r == self@.1.len(),
    {
        proof {
            self.dirty@.unique_seq_to_set();
        }
        self.dirty.len()
    }

    /// Ask for a full rescan at the next refresh.
    pub fn request_full(&mut self)
        requires
            old(self).wf(),
        ensures
            final(self).wf(),
            final(self)@ == (true, old(self)@.1),
    {
        self.pending = true;
    }

    /// A window event touched `hwnd`.
    pub fn mark(&mut self, hwnd: usize)
        requires
            old(self).wf(),
        ensures
            final(self).wf(),
            final(self)@ == (old(self)@.0, old(self)@.1.insert(hwnd)),
    {
        let ghost before = self.dirty@;
        let n = self.dirty.len();
        let mut i: usize = 0;
        while i < n
            invariant
                n == self.dirty@.len(),
                self.dirty@ == before,
                before.no_duplicates(),
                self.pending == old(self).pending,
                i <= n,
                forall|j: int| 0 <= j < i ==> self.dirty@[j] != hwnd,
            decreases n - i,
        {
            if self.dirty[i] == hwnd {
                proof {
                    assert(before.to_set().insert(hwnd) =~= before.to_set()) by {
                        assert(before.contains(hwnd));
                    }
                }
                return;
            }
            i = i + 1;
        }
        self.dirty.push(hwnd);
        proof {
            assert(!before.contains(hwnd));
            assert(self.dirty@ == before.push(hwnd));
            assert(self.dirty@.to_set() =~= before.to_set().insert(hwnd)) by {
                assert forall|x: usize| self.dirty@.contains(x) <==> (before.contains(x) || x == hwnd) by {
                    if self.dirty@.contains(x) {
                        let j = choose|j: int| 0 <= j < self.dirty@.len() && self.dirty@[j] == x;
                        if j < before.len() {
                            assert(before[j] == x);
                        }
                    }
                    if before.contains(x) {
                        let j = choose|j: int| 0 <= j < before.len() && before[j] == x;
                        assert(self.dirty@[j] == x);
                    }
                    if x == hwnd {
                        assert(self.dirty@[before.len() as int] == x);
                    }
                }
            }
        }
    }

    /// Decide the refresh, given whether the processes must be rescanned too, whether a repair
    /// is running, and the handles of the windows known now. Events alone re-inspect only the
    /// touched handles; with none, every known window is rechecked.
    pub fn plan(&mut self, processes: bool, running: bool, known: &[usize]) -> (r: Plan)
        requires
            old(self).wf(),
        ensures
            final(self).wf(),
            running ==> r == Plan::Defer && final(self)@ == (old(self)@.0 || processes, old(self)@.1),
            !running && (old(self)@.0 || processes) ==> r == Plan::Full && final(self)@ == (
                false,
                Set::<usize>::empty(),
            ),
            !running && !(old(self)@.0 || processes) ==> final(self)@ == (false, Set::<usize>::empty())
                && match r {
                Plan::Windows(list) => list@.no_duplicates() && list@.to_set() == (if old(self)@.1.len() == 0 {
                    known@.to_set()
                } else {
                    old(self)@.1
                }),
                _ => false,
            },
    {
        proof {
            self.dirty@.unique_seq_to_set();
        }
        self.pending = self.pending || processes;
        if running {
            return Plan::Defer;
        }
        if self.pending {
            self.pending = false;
            self.dirty = Vec::new();
            proof {
                assert(self.dirty@.to_set() =~= Set::<usize>::empty());
            }
            return Plan::Full;
        }
        if self.dirty.len() == 0 {
            // Every known window is rechecked, each once.
            let mut i: usize = 0;
            while i < known.len()
                invariant
                    i <= known@.len(),
                    self.wf(),
                    !self.pending,
                    self.dirty@.to_set() == known@.subrange(0, i as int).to_set(),
                decreases known@.len() - i,
            {
                self.mark(known[i]);
                proof {
                    assert(known@.subrange(0, i + 1) =~= known@.subrange(0, i as int).push(known@[i as int]));
                    known@.subrange(0, i as int).lemma_push_to_set_commute(known@[i as int]);
                }
                i = i + 1;
            }
            proof {
                assert(known@.subrange(0, known@.len() as int) =~= known@);
            }
        }
        let mut list: Vec<usize> = Vec::new();
        std::mem::swap(&mut list, &mut self.dirty);
        self.dirty = Vec::new();
        proof {
            assert(self.dirty@.to_set() =~= Set::<usize>::empty());
        }
        Plan::Windows(list)
    }
}

pub const EVENT_OBJECT_DESTROY: u32 = 0x8001;
pub const EVENT_OBJECT_HIDE: u32 = 0x8003;

/// A destroyed window is forgotten at once; a hidden one too unless a repair is running.
pub fn forgets_window(event: u32, running: bool) -> (r: bool)
    ensures
        r == (event == EVENT_OBJECT_DESTROY || (event == EVENT_OBJECT_HIDE && !running)),
{
    event == EVENT_OBJECT_DESTROY || (event == EVENT_OBJECT_HIDE && !running)
}

/// The wake-up timer for the next change of manual readiness: between 1 ms and five minutes.
pub fn wake_timer_ms(deadline: u64, now: u64) -> (r: u32)
    ensures
        r == (if deadline <= now {
            1
        } else if deadline - now > 300_000 {
            300_000
        } else {
            (deadline - now) as u32
        }),
{
    let ms = deadline.saturating_sub(now);
    if ms < 1 {
        1
    } else if ms > 300_000 {
        300_000
    } else {
        ms as u32
    }
}

/// Whether the single visible overlay can be repaired by hand right now.
pub fn manual_available(windows: &[Window], policy: &Policy, now: u64) -> (r: bool)
    requires
        policy.wf(),
        windows@.len() == 1 ==> deadline_fits(policy@, key_of(windows@[0]), now),
    ensures
        r == (windows@.len() == 1 && policy@.windows.contains_key(key_of(windows@[0]))
            && next_manual(policy@, key_of(windows@[0]), now) is None),
{
    windows.len() == 1 && policy.manual_ready(&windows[0], now)
}

/// The state sent to the interface.
pub fn light_state(
    message: &str,
    automatic_line: &str,
    settings: &Settings,
    autostart: bool,
    busy: bool,
    can_repair: bool,
    awaiting: bool,
    revision: u64,
    wait_until: Option<u64>,
    now: u64,
) -> (r: UiState)
    ensures
        (r.status@, r.hint@) == split_message(message@),
        r.automatic_status@ == automatic_line@,
        r.automatic == settings.automatic,
        r.autostart == autostart,
        r.tray_only == settings.tray_only,
        r.look_at_mouse == settings.look_at_mouse,
        r.busy == busy,
        r.can_repair == (!busy && can_repair),
        r.awaiting_confirmation == awaiting,
        r.revision == revision,
        r.wait_remaining_ms == (match wait_until {
            Some(d) => if d >= now {
                (d - now) as u64
            } else {
                0
            },
            None => 0,
        }),
{
    let (status, hint) = split_status(message);
    UiState {
        status,
        hint,
        automatic_status: String::from_str(automatic_line),
        automatic: settings.automatic,
        autostart,
        tray_only: settings.tray_only,
        look_at_mouse: settings.look_at_mouse,
        busy,
        can_repair: !busy && can_repair,
        awaiting_confirmation: awaiting,
        revision,
        wait_remaining_ms: match wait_until {
            Some(d) => d.saturating_sub(now),
            None => 0,
        },
    }
}

/// Whether a new state must be announced: it differs from the last one announced (revision
/// and remaining wait aside) or the wait deadline changed.
pub fn needs_publish(
    published: Option<&UiState>,
    state: &UiState,
    published_wait: Option<u64>,
    wait_until: Option<u64>,
) -> (r: bool)
    ensures
        r == (match published {
            Some(p) => !crate::protocol::same_state(*p, *state),
            None => true,
        } || published_wait != wait_until),
{
    let differs = match published {
        Some(p) => !p.same_as(state),
        None => true,
    };
    let waits_differ = match (published_wait, wait_until) {
        (Some(a), Some(b)) => a != b,
        (None, None) => false,
        _ => true,
    };
    differs || waits_differ
}

/// What a command from the interface asks the background to do.
#[derive(Debug, PartialEq, Eq, Structural)]
pub enum Action {
    /// Reply with the full diagnostic snapshot.
    Status,
    /// Reply with the light state (counts as an interface query).
    UiStatus,
    /// Start a manual repair, or cancel the running one.
    Repair,
    /// Cancel the running repair.
    Cancel,
    ToggleAutomatic,
    ToggleAutostart,
    ToggleTrayOnly,
    ToggleLookAtMouse,
    ConfirmYes,
    ConfirmNo,
    Open,
    OpenLog,
    CopyDiagnostics,
    OpenLogFolder,
    Exit,
    /// A known command that changes nothing now.
    Nothing,
    /// Not a command of this protocol.
    Unknown,
}

pub open spec fn action_of(
    command: Seq<char>,
    enabled: Option<bool>,
    automatic: bool,
    autostart: bool,
    tray_only: bool,
    look_at_mouse: bool,
    awaiting: bool,
) -> Action {
    if command == "status"@ {
        Action::Status
    } else if command == "ui_status"@ {
        Action::UiStatus
    } else if command == "repair"@ {
        Action::Repair
    } else if command == "cancel"@ {
        Action::Cancel
    } else if command == "automatic"@ {
        if enabled is Some && enabled.unwrap() != automatic {
            Action::ToggleAutomatic
        } else {
            Action::Nothing
        }
    } else if command == "autostart"@ {
        if enabled is Some && enabled.unwrap() != autostart {
            Action::ToggleAutostart
        } else {
            Action::Nothing
        }
    } else if command == "tray_only"@ {
        if enabled is Some && enabled.unwrap() != tray_only {
            Action::ToggleTrayOnly
        } else {
            Action::Nothing
        }
    } else if command == "look_at_mouse"@ {
        if enabled is Some && enabled.unwrap() != look_at_mouse {
            Action::ToggleLookAtMouse
        } else {
            Action::Nothing
        }
    } else if command == "confirm"@ {
        if awaiting && enabled == Some(true) {
            Action::ConfirmYes
        } else if awaiting && enabled == Some(false) {
            Action::ConfirmNo
        } else {
            Action::Nothing
        }
    } else if command == "open"@ {
        Action::Open
    } else if command == "open_log"@ {
        Action::OpenLog
    } else if command == "copy_diagnostics"@ {
        Action::CopyDiagnostics
    } else if command == "open_log_folder"@ {
        Action::OpenLogFolder
    } else if command == "exit"@ {
        Action::Exit
    } else {
        Action::Unknown
    }
}

/// A confirmation is recorded as the user gave it: while a repair awaits the user's judgement,
/// "confirm" with `true` (the pet can be dragged again) is a yes and with `false` a no; a
/// confirmation without an answer, or when nothing awaits one, does nothing; and no other
/// command is ever taken as a confirmation.
pub proof fn law_confirmation_keeps_the_answer(
    command: Seq<char>,
    enabled: Option<bool>,
    automatic: bool,
    autostart: bool,
    tray_only: bool,
    look_at_mouse: bool,
    awaiting: bool,
)
    ensures
        action_of(command, enabled, automatic, autostart, tray_only, look_at_mouse, awaiting)
            == Action::ConfirmYes ==> command == "confirm"@ && awaiting && enabled == Some(true),
        action_of(command, enabled, automatic, autostart, tray_only, look_at_mouse, awaiting)
            == Action::ConfirmNo ==> command == "confirm"@ && awaiting && enabled == Some(false),
        command == "confirm"@ && awaiting && enabled == Some(true) ==> action_of(
            command,
            enabled,
            automatic,
            autostart,
            tray_only,
            look_at_mouse,
            awaiting,
        ) == Action::ConfirmYes,
        command == "confirm"@ && awaiting && enabled == Some(false) ==> action_of(
            command,
            enabled,
            automatic,
            autostart,
            tray_only,
            look_at_mouse,
            awaiting,
        ) == Action::ConfirmNo,
        command == "confirm"@ && !(awaiting && enabled is Some) ==> action_of(
            command,
            enabled,
            automatic,
            autostart,
            tray_only,
            look_at_mouse,
            awaiting,
        ) == Action::Nothing,
{
    reveal_strlit("confirm");
    reveal_strlit("status");
    reveal_strlit("ui_status");
    reveal_strlit("repair");
    reveal_strlit("cancel");
    reveal_strlit("automatic");
    reveal_strlit("autostart");
    reveal_strlit("tray_only");
    reveal_strlit("look_at_mouse");
    if command == "confirm"@ {
        assert(command.len() == 7);
        assert(command != "status"@);
        assert(command != "ui_status"@);
        assert(command != "repair"@);
        assert(command != "cancel"@);
        assert(command != "automatic"@);
        assert(command != "autostart"@);
        assert(command != "tray_only"@);
        assert(command != "look_at_mouse"@);
    }
}

/// A switch only changes when the interface asks for the value it does not have: "automatic",
/// "autostart", "tray_only" and "look_at_mouse" toggle their switch exactly when a value is
/// given and differs from the current one, and otherwise change nothing.
pub proof fn law_switches_act_only_on_change(
    command: Seq<char>,
    enabled: Option<bool>,
    automatic: bool,
    autostart: bool,
    tray_only: bool,
    look_at_mouse: bool,
    awaiting: bool,
)
    ensures
        (action_of(command, enabled, automatic, autostart, tray_only, look_at_mouse, awaiting)
            == Action::ToggleAutomatic) <==> (command == "automatic"@ && enabled is Some
            && enabled->0 != automatic),
        (action_of(command, enabled, automatic, autostart, tray_only, look_at_mouse, awaiting)
            == Action::ToggleAutostart) <==> (command == "autostart"@ && enabled is Some
            && enabled->0 != autostart),
        (action_of(command, enabled, automatic, autostart, tray_only, look_at_mouse, awaiting)
            == Action::ToggleTrayOnly) <==> (command == "tray_only"@ && enabled is Some
            && enabled->0 != tray_only),
        (action_of(command, enabled, automatic, autostart, tray_only, look_at_mouse, awaiting)
            == Action::ToggleLookAtMouse) <==> (command == "look_at_mouse"@ && enabled is Some
            && enabled->0 != look_at_mouse),
{
    reveal_strlit("status");
    reveal_strlit("ui_status");
    reveal_strlit("repair");
    reveal_strlit("cancel");
    reveal_strlit("automatic");
    reveal_strlit("autostart");
    reveal_strlit("tray_only");
    reveal_strlit("look_at_mouse");
    assert("automatic"@ != "ui_status"@ && "autostart"@ != "ui_status"@ && "tray_only"@
        != "ui_status"@ && "autostart"@ != "automatic"@ && "tray_only"@ != "automatic"@
        && "tray_only"@ != "autostart"@) by {
        assert("automatic"@[0] != "ui_status"@[0]);
        assert("autostart"@[0] != "ui_status"@[0]);
        assert("tray_only"@[0] != "ui_status"@[0]);
        assert("autostart"@[4] != "automatic"@[4]);
        assert("tray_only"@[0] != "automatic"@[0]);
        assert("tray_only"@[0] != "autostart"@[0]);
    }
    assert("look_at_mouse"@.len() == 13);
    if command == "automatic"@ || command == "autostart"@ || command == "tray_only"@ {
        assert(command.len() == 9);
        assert(command != "status"@);
        assert(command != "repair"@);
        assert(command != "cancel"@);
    }
    if command == "look_at_mouse"@ {
        assert(command != "status"@);
        assert(command != "ui_status"@);
        assert(command != "repair"@);
        assert(command != "cancel"@);
        assert(command != "automatic"@);
        assert(command != "autostart"@);
        assert(command != "tray_only"@);
    }
}

/// The action for a command; the switches only act when the requested value differs from
/// the current one (`autostart` is the registry's current value).
pub fn action(
    command: &str,
    enabled: Option<bool>,
    automatic: bool,
    autostart: bool,
    tray_only: bool,
    look_at_mouse: bool,
    awaiting: bool,
) -> (r: Action)
    ensures
        r == action_of(command@, enabled, automatic, autostart, tray_only, look_at_mouse, awaiting),
        r == Action::ConfirmYes <==> (command@ == "confirm"@ && awaiting && enabled == Some(true)),
        r == Action::ConfirmNo <==> (command@ == "confirm"@ && awaiting && enabled == Some(false)),
{
    proof {
        law_confirmation_keeps_the_answer(
            command@,
            enabled,
            automatic,
            autostart,
            tray_only,
            look_at_mouse,
            awaiting,
        );
    }
    if str_eq(command, "status") {
        Action::Status
    } else if str_eq(command, "ui_status") {
        Action::UiStatus
    } else if str_eq(command, "repair") {
        Action::Repair
    } else if str_eq(command, "cancel") {
        Action::Cancel
    } else if str_eq(command, "automatic") {
        match enabled {
            Some(e) if e != automatic => Action::ToggleAutomatic,
            _ => Action::Nothing,
        }
    } else if str_eq(command, "autostart") {
        match enabled {
            Some(e) if e != autostart => Action::ToggleAutostart,
            _ => Action::Nothing,
        }
    } else if str_eq(command, "tray_only") {
        match enabled {
            Some(e) if e != tray_only => Action::ToggleTrayOnly,
            _ => Action::Nothing,
        }
    } else if str_eq(command, "look_at_mouse") {
        match enabled {
            Some(e) if e != look_at_mouse => Action::ToggleLookAtMouse,
            _ => Action::Nothing,
        }
    } else if str_eq(command, "confirm") {
        match enabled {
            Some(true) if awaiting => Action::ConfirmYes,
            Some(false) if awaiting => Action::ConfirmNo,
            _ => Action::Nothing,
        }
    } else if str_eq(command, "open") {
        Action::Open
    } else if str_eq(command, "open_log") {
        Action::OpenLog
    } else if str_eq(command, "copy_diagnostics") {
        Action::CopyDiagnostics
    } else if str_eq(command, "open_log_folder") {
        Action::OpenLogFolder
    } else if str_eq(command, "exit") {
        Action::Exit
    } else {
        Action::Unknown
    }
}

/// What the tray menu offers: the repair entry, the automatic switch, the confirmation entries
/// and the repair submenu's title.
pub struct TrayMenu {
    pub fix_label: &'static str,
    pub fix_enabled: bool,
    pub automatic_checked: bool,
    pub automatic_enabled: bool,
    pub confirm_entries: bool,
    pub repair_title: &'static str,
}

/// The tray menu for the current state: while a repair runs the repair entry cancels it and
/// the automatic switch is locked; otherwise repairing needs exactly one overlay.
pub fn tray_menu(running: bool, windows: usize, automatic: bool, awaiting: bool) -> (m: TrayMenu)
    ensures
        m.fix_label@ == (if running {
            "取消修复"@
        } else {
            "立即修复"@
        }),
        m.fix_enabled == (running || windows == 1),
        m.automatic_checked == automatic,
        m.automatic_enabled == !running,
        m.confirm_entries == awaiting,
        m.repair_title@ == (if awaiting {
            "修复（待确认）"@
        } else {
            "修复"@
        }),
{
    TrayMenu {
        fix_label: if running {
            "取消修复"
        } else {
            "立即修复"
        },
        fix_enabled: running || windows == 1,
        automatic_checked: automatic,
        automatic_enabled: !running,
        confirm_entries: awaiting,
        repair_title: if awaiting {
            "修复（待确认）"
        } else {
            "修复"
        },
    }
}


/// The automatic switch cannot change while a repair runs.
pub fn toggle_refused(running: bool) -> (r: Option<&'static str>)
    ensures
        running ==> r is Some && r.unwrap()@ == "修复进行中，完成后可调整自动修复"@,
        !running ==> r is None,
{
    if running {
        Some("修复进行中，完成后可调整自动修复")
    } else {
        None
    }
}

} // verus!
