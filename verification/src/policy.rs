//! When a repair may run: per-window stability and evidence, global rate limits and the pause.
use crate::identity::{key_of, same_rect, Window, WindowKey};
use vstd::prelude::*;

verus! {

/// What the input check found out about whether the pet receives the pointer.
#[derive(Clone, Copy, Debug, Default, PartialEq, Eq, Structural)]
pub enum InputHealth {
    #[default]
    Unknown,
    Healthy,
    Mismatch,
    Failed,
}

/// Why a repair is not allowed right now; the waiting variants carry the milliseconds left.
#[derive(Debug, PartialEq, Eq, Structural)]
pub enum Block {
    Paused,
    Handled,
    RateLimit(u64),
    Cooldown(u64),
    Unstable(u64),
    Discovering,
    CheckingInput,
}

pub open spec fn block_wait(b: Block) -> Option<u64> {
    match b {
        Block::RateLimit(ms) => Some(ms),
        Block::Cooldown(ms) => Some(ms),
        Block::Unstable(ms) => Some(ms),
        _ => None,
    }
}

pub open spec fn block_message(b: Block) -> Seq<char> {
    match b {
        Block::Paused => "自动修复已暂停 · 请手动修复并检查结果"@,
        Block::Handled => "正在守护 · 此浮窗本轮已尝试；仍无法拖动时请手动修复"@,
        Block::RateLimit(_) => "暂时不能修复 · 最近五分钟已尝试三次"@,
        Block::Cooldown(_) => "暂时不能修复 · 请等待修复间隔结束"@,
        Block::Unstable(_) => "等待浮窗稳定 · 请暂时不要移动宠物"@,
        Block::Discovering => "正在识别浮窗 · 请稍候"@,
        Block::CheckingInput => "正在检查输入 · 请将鼠标移到宠物上；仍无法拖动时可手动修复"@,
    }
}

impl Block {
    pub fn wait_ms(&self) -> (r: Option<u64>)
        ensures
            r == block_wait(*self),
    {
        match self {
            Block::RateLimit(ms) => Some(*ms),
            Block::Cooldown(ms) => Some(*ms),
            Block::Unstable(ms) => Some(*ms),
            _ => None,
        }
    }

    pub fn message(&self) -> (r: &'static str)
        ensures
            r@ == block_message(*self),
    {
        match self {
            Block::Paused => "自动修复已暂停 · 请手动修复并检查结果",
            Block::Handled => "正在守护 · 此浮窗本轮已尝试；仍无法拖动时请手动修复",
            Block::RateLimit(_) => "暂时不能修复 · 最近五分钟已尝试三次",
            Block::Cooldown(_) => "暂时不能修复 · 请等待修复间隔结束",
            Block::Unstable(_) => "等待浮窗稳定 · 请暂时不要移动宠物",
            Block::Discovering => "正在识别浮窗 · 请稍候",
            Block::CheckingInput => "正在检查输入 · 请将鼠标移到宠物上；仍无法拖动时可手动修复",
        }
    }
}

/// What the policy remembers about one window instance.
#[derive(Clone, Copy, Debug)]
pub struct Record {
    pub rect: [i32; 4],
    pub since: u64,
    pub completed: bool,
    pub retry: bool,
    pub health: InputHealth,
    pub evidence_at: u64,
    pub misses: u8,
    pub first_miss: u64,
}

/// The policy as a mathematical value.
pub struct PolicyState {
    pub windows: Map<WindowKey, Record>,
    pub attempts: Seq<u64>,
    pub halted: bool,
}

/// Attempts older than this no longer count towards the rate limit.
pub const RATE_WINDOW_MS: u64 = 300_000;
/// A window must keep its geometry this long before it is repaired.
pub const STABLE_MS: u64 = 2000;
/// Spacing between a manual repair and the previous attempt.
pub const MANUAL_GAP_MS: u64 = 10_000;
/// Spacing between an automatic repair and the previous attempt.
pub const AUTOMATIC_GAP_MS: u64 = 30_000;
/// Evidence older than this breaks a streak of mismatches and stales a failure.
pub const EVIDENCE_MS: u64 = 2500;
/// A confirmed failure needs mismatches spread over at least this long.
pub const FAILURE_SPAN_MS: u64 = 2000;

/// `a - b`, or 0 when `b` is later.
pub open spec fn elapsed(a: u64, b: u64) -> int {
    if a >= b {
        a - b
    } else {
        0
    }
}

pub open spec fn entries_have(s: Seq<(WindowKey, Record)>, k: WindowKey) -> bool {
    exists|i: int| 0 <= i < s.len() && #[trigger] s[i].0 == k
}

pub open spec fn entries_unique(s: Seq<(WindowKey, Record)>) -> bool {
    forall|i: int, j: int|
        0 <= i < s.len() && 0 <= j < s.len() && i != j ==> #[trigger] s[i].0 != #[trigger] s[j].0
}

/// The map from keys to records that a list of distinct entries denotes.
pub open spec fn entries_map(s: Seq<(WindowKey, Record)>) -> Map<WindowKey, Record> {
    Map::new(
        |k: WindowKey| entries_have(s, k),
        |k: WindowKey| s[choose|i: int| 0 <= i < s.len() && #[trigger] s[i].0 == k].1,
    )
}

pub open spec fn fresh_record(rect: [i32; 4], now: u64) -> Record {
    Record {
        rect,
        since: now,
        completed: false,
        retry: false,
        health: InputHealth::Unknown,
        evidence_at: 0,
        misses: 0,
        first_miss: 0,
    }
}

/// A moved or resized window restarts its stability clock and loses its evidence,
/// but keeps whether it was handled.
pub open spec fn moved_record(r: Record, rect: [i32; 4], now: u64) -> Record {
    Record { rect, since: now, health: InputHealth::Unknown, misses: 0, ..r }
}

pub open spec fn observe_one(
    m: Map<WindowKey, Record>,
    k: WindowKey,
    rect: [i32; 4],
    now: u64,
) -> Map<WindowKey, Record> {
    if m.contains_key(k) {
        if m[k].rect@ == rect@ {
            m
        } else {
            m.insert(k, moved_record(m[k], rect, now))
        }
    } else {
        m.insert(k, fresh_record(rect, now))
    }
}

pub open spec fn observe_all(m: Map<WindowKey, Record>, ws: Seq<Window>, now: u64) -> Map<
    WindowKey,
    Record,
>
    decreases ws.len(),
{
    if ws.len() == 0 {
        m
    } else {
        observe_one(observe_all(m, ws.drop_last(), now), key_of(ws.last()), ws.last().rect, now)
    }
}

pub open spec fn window_keys(ws: Seq<Window>) -> Set<WindowKey> {
    Set::new(|k: WindowKey| exists|i: int| 0 <= i < ws.len() && key_of(#[trigger] ws[i]) == k)
}

/// The records after a discovery pass: windows that disappeared are forgotten, new ones start
/// fresh, and each listed window is observed in turn.
pub open spec fn observed(m: Map<WindowKey, Record>, ws: Seq<Window>, now: u64) -> Map<
    WindowKey,
    Record,
> {
    observe_all(m.restrict(window_keys(ws)), ws, now)
}

/// The record after one piece of input evidence for the window's current geometry.
pub open spec fn record_after_input(r: Record, health: InputHealth, now: u64) -> Record {
    if health == InputHealth::Mismatch {
        let restart = r.misses == 0 || elapsed(now, r.evidence_at) > EVIDENCE_MS;
        let first = if restart {
            now
        } else {
            r.first_miss
        };
        let base: u8 = if restart {
            0
        } else {
            r.misses
        };
        let misses: u8 = if base < 255 {
            (base + 1) as u8
        } else {
            255
        };
        let failed = misses >= 3 && elapsed(now, first) >= FAILURE_SPAN_MS;
        Record {
            first_miss: first,
            misses,
            health: if failed {
                InputHealth::Failed
            } else {
                InputHealth::Unknown
            },
            completed: if failed {
                false
            } else {
                r.completed
            },
            retry: if failed {
                true
            } else {
                r.retry
            },
            evidence_at: now,
            ..r
        }
    } else {
        Record {
            misses: 0,
            health,
            completed: if health == InputHealth::Healthy {
                true
            } else {
                r.completed
            },
            evidence_at: now,
            ..r
        }
    }
}

/// The records after a repair of `k` completed: handled, with fresh evidence.
pub open spec fn completed_windows(m: Map<WindowKey, Record>, k: WindowKey) -> Map<WindowKey, Record> {
    if m.contains_key(k) {
        m.insert(k, Record { completed: true, health: InputHealth::Unknown, misses: 0, ..m[k] })
    } else {
        m
    }
}

/// Whether evidence about `w` applies: the window is tracked and its geometry is unchanged.
pub open spec fn evidence_applies(m: Map<WindowKey, Record>, w: Window) -> bool {
    m.contains_key(key_of(w)) && m[key_of(w)].rect@ == w.rect@
}

/// The attempts that still count at `now`: the oldest are dropped from the front while
/// they are at least five minutes old.
pub open spec fn pruned(a: Seq<u64>, now: u64) -> Seq<u64>
    decreases a.len(),
{
    if a.len() > 0 && elapsed(now, a[0]) >= RATE_WINDOW_MS {
        pruned(a.subrange(1, a.len() as int), now)
    } else {
        a
    }
}

/// Whether a window's record asks for fresh input evidence before an automatic retry.
pub open spec fn awaiting_evidence(r: Record, now: u64) -> bool {
    r.retry && (r.health != InputHealth::Failed || elapsed(now, r.evidence_at) > EVIDENCE_MS)
}

/// The decision of `allow`, on the attempts as already pruned.
pub open spec fn allow_decision(
    m: Map<WindowKey, Record>,
    attempts: Seq<u64>,
    halted: bool,
    k: WindowKey,
    now: u64,
    manual: bool,
) -> Result<(), Block> {
    let gap: u64 = if manual {
        MANUAL_GAP_MS
    } else {
        AUTOMATIC_GAP_MS
    };
    if !manual && halted {
        Err(Block::Paused)
    } else if !manual && m.contains_key(k) && m[k].completed {
        Err(Block::Handled)
    } else if !manual && m.contains_key(k) && awaiting_evidence(m[k], now) {
        Err(Block::CheckingInput)
    } else if attempts.len() >= 3 {
        Err(Block::RateLimit((RATE_WINDOW_MS - elapsed(now, attempts[0])) as u64))
    } else if attempts.len() > 0 && elapsed(now, attempts.last()) < gap {
        Err(Block::Cooldown((gap - elapsed(now, attempts.last())) as u64))
    } else if !m.contains_key(k) {
        Err(Block::Discovering)
    } else if elapsed(now, m[k].since) < STABLE_MS {
        Err(Block::Unstable((STABLE_MS - elapsed(now, m[k].since)) as u64))
    } else {
        Ok(())
    }
}

pub open spec fn recent(now: u64) -> spec_fn(u64) -> bool {
    |t: u64| elapsed(now, t) < RATE_WINDOW_MS
}

pub open spec fn max(a: int, b: int) -> int {
    if a >= b {
        a
    } else {
        b
    }
}

/// The earliest time at which a manual repair of the window with record `r` could be allowed,
/// given every attempt ever made.
pub open spec fn manual_deadline(r: Record, attempts: Seq<u64>, now: u64) -> int {
    let stable = r.since + STABLE_MS;
    let spaced = if attempts.len() > 0 {
        max(stable, attempts.last() + MANUAL_GAP_MS)
    } else {
        stable
    };
    let counted = attempts.filter(recent(now));
    if counted.len() >= 3 {
        max(spaced, counted[0] + RATE_WINDOW_MS)
    } else {
        spaced
    }
}

pub open spec fn next_manual(st: PolicyState, k: WindowKey, now: u64) -> Option<u64> {
    if !st.windows.contains_key(k) {
        None
    } else if manual_deadline(st.windows[k], st.attempts, now) > now {
        Some(manual_deadline(st.windows[k], st.attempts, now) as u64)
    } else {
        None
    }
}

/// The manual deadline of window `k` is computable in 64 bits.
pub open spec fn deadline_fits(st: PolicyState, k: WindowKey, now: u64) -> bool {
    st.windows.contains_key(k) ==> {
        &&& st.windows[k].since + STABLE_MS <= u64::MAX
        &&& st.attempts.len() > 0 ==> st.attempts.last() + MANUAL_GAP_MS <= u64::MAX
        &&& st.attempts.filter(recent(now)).len() >= 3 ==> st.attempts.filter(recent(now))[0]
            + RATE_WINDOW_MS <= u64::MAX
    }
}

/// Repair bookkeeping for the overlay windows currently known.
pub struct Policy {
    windows: Vec<(WindowKey, Record)>,
    attempts: Vec<u64>,
    halted: bool,
}

impl View for Policy {
    type V = PolicyState;

    closed spec fn view(&self) -> PolicyState {
        PolicyState { windows: entries_map(self.windows@), attempts: self.attempts@, halted: self.halted }
    }
}

proof fn lemma_entry(s: Seq<(WindowKey, Record)>, i: int)
    requires
        entries_unique(s),
        0 <= i < s.len(),
    ensures
        entries_map(s).contains_key(s[i].0),
        entries_map(s)[s[i].0] == s[i].1,
{
    assert(entries_have(s, s[i].0));
    let j = choose|j: int| 0 <= j < s.len() && #[trigger] s[j].0 == s[i].0;
    assert(j == i);
}

proof fn lemma_update(s: Seq<(WindowKey, Record)>, i: int, r: Record)
    requires
        entries_unique(s),
        0 <= i < s.len(),
    ensures
        entries_unique(s.update(i, (s[i].0, r))),
        entries_map(s.update(i, (s[i].0, r))) == entries_map(s).insert(s[i].0, r),
{
    let t = s.update(i, (s[i].0, r));
    assert forall|k: WindowKey| entries_have(t, k) == entries_have(s, k) by {
        if entries_have(s, k) {
            let j = choose|j: int| 0 <= j < s.len() && #[trigger] s[j].0 == k;
            assert(t[j].0 == k);
        }
        if entries_have(t, k) {
            let j = choose|j: int| 0 <= j < t.len() && #[trigger] t[j].0 == k;
            assert(s[j].0 == k);
        }
    }
    assert forall|k: WindowKey| #[trigger]
        entries_map(t).contains_key(k) implies entries_map(t)[k] == entries_map(s).insert(
        s[i].0,
        r,
    )[k] by {
        let j = choose|j: int| 0 <= j < t.len() && #[trigger] t[j].0 == k;
        lemma_entry(t, j);
        lemma_entry(s, j);
    }
    assert(entries_map(t) =~= entries_map(s).insert(s[i].0, r));
}

proof fn lemma_push(s: Seq<(WindowKey, Record)>, k: WindowKey, r: Record)
    requires
        entries_unique(s),
        !entries_have(s, k),
    ensures
        entries_unique(s.push((k, r))),
        entries_map(s.push((k, r))) == entries_map(s).insert(k, r),
{
    let t = s.push((k, r));
    assert(t[s.len() as int].0 == k);
    assert forall|q: WindowKey| entries_have(t, q) == (entries_have(s, q) || q == k) by {
        if entries_have(s, q) {
            let j = choose|j: int| 0 <= j < s.len() && #[trigger] s[j].0 == q;
            assert(t[j].0 == q);
        }
        if entries_have(t, q) && q != k {
            let j = choose|j: int| 0 <= j < t.len() && #[trigger] t[j].0 == q;
            assert(s[j].0 == q);
        }
    }
    assert forall|q: WindowKey| #[trigger]
        entries_map(t).contains_key(q) implies entries_map(t)[q] == entries_map(s).insert(
        k,
        r,
    )[q] by {
        let j = choose|j: int| 0 <= j < t.len() && #[trigger] t[j].0 == q;
        lemma_entry(t, j);
        if j < s.len() {
            lemma_entry(s, j);
        }
    }
    assert(entries_map(t) =~= entries_map(s).insert(k, r));
}

proof fn lemma_pruned_step(a: Seq<u64>, now: u64)
    requires
        a.len() > 0,
        elapsed(now, a[0]) >= RATE_WINDOW_MS,
    ensures
        pruned(a, now) == pruned(a.subrange(1, a.len() as int), now),
{
}

impl Policy {
    /// The entries name each window at most once.
    pub closed spec fn wf(&self) -> bool {
        entries_unique(self.windows@)
    }

    fn find(&self, k: WindowKey) -> (r: Option<usize>)
        requires
            self.wf(),
        ensures
            match r {
                Some(i) => i < self.windows@.len() && self.windows@[i as int].0 == k,
                None => !entries_have(self.windows@, k),
            },
    {
        let mut i: usize = 0;
        while i < self.windows.len()
            invariant
                i <= self.windows@.len(),
                forall|j: int| 0 <= j < i ==> #[trigger] self.windows@[j].0 != k,
            decreases self.windows@.len() - i,
        {
            if self.windows[i].0 == k {
                return Some(i);
            }
            i = i + 1;
        }
        None
    }

    fn lookup(&self, k: WindowKey) -> (r: Option<Record>)
        requires
            self.wf(),
        ensures
            r == (if self@.windows.contains_key(k) {
                Some(self@.windows[k])
            } else {
                None
            }),
    {
        match self.find(k) {
            Some(i) => {
                proof {
                    lemma_entry(self.windows@, i as int);
                }
                Some(self.windows[i].1)
            },
            None => None,
        }
    }

    /// Whether no window is tracked.
    pub fn is_empty(&self) -> (r: bool)
        requires
            self.wf(),
        ensures
            r == (self@.windows == Map::<WindowKey, Record>::empty()),
    {
        let r = self.windows.len() == 0;
        proof {
            if r {
                assert(entries_map(self.windows@) =~= Map::<WindowKey, Record>::empty());
            } else {
                lemma_entry(self.windows@, 0);
                assert(!Map::<WindowKey, Record>::empty().contains_key(self.windows@[0].0));
            }
        }
        r
    }

    /// Whether the latest evidence for the window confirmed an input failure.
    pub fn input_failed(&self, w: &Window) -> (r: bool)
        requires
            self.wf(),
        ensures
            r == (self@.windows.contains_key(key_of(*w)) && self@.windows[key_of(*w)].health
                == InputHealth::Failed),
    {
        match self.lookup(w.key()) {
            Some(r) => r.health == InputHealth::Failed,
            None => false,
        }
    }

    /// Record input evidence. Only evidence for the current identity and geometry counts;
    /// returns whether the window's health changed.
    pub fn input(&mut self, w: &Window, health: InputHealth, now: u64) -> (changed: bool)
        requires
            old(self).wf(),
        ensures
            final(self).wf(),
            final(self)@.attempts == old(self)@.attempts,
            final(self)@.halted == old(self)@.halted,
            evidence_applies(old(self)@.windows, *w) ==> {
                let r = old(self)@.windows[key_of(*w)];
                &&& final(self)@.windows == old(self)@.windows.insert(
                    key_of(*w),
                    record_after_input(r, health, now),
                )
                &&& changed == (record_after_input(r, health, now).health != r.health)
            },
            !evidence_applies(old(self)@.windows, *w) ==> final(self)@.windows == old(
                self,
            )@.windows && !changed,
    {
        let k = w.key();
        let Some(i) = self.find(k) else {
            return false;
        };
        proof {
            lemma_entry(self.windows@, i as int);
        }
        let mut r = self.windows[i].1;
        if !same_rect(&r.rect, &w.rect) {
            return false;
        }
        let ghost r0 = r;
        let previous = r.health;
        if health == InputHealth::Mismatch {
            if r.misses == 0 || now.saturating_sub(r.evidence_at) > EVIDENCE_MS {
                r.first_miss = now;
                r.misses = 0;
            }
            r.misses = if r.misses < 255 {
                r.misses + 1
            } else {
                255
            };
            r.health =
                if r.misses >= 3 && now.saturating_sub(r.first_miss) >= FAILURE_SPAN_MS {
                    InputHealth::Failed
                } else {
                    InputHealth::Unknown
                };
            if r.health == InputHealth::Failed {
                r.completed = false;
                r.retry = true;
            }
        } else {
            r.misses = 0;
            r.health = health;
            if health == InputHealth::Healthy {
                r.completed = true;
            }
        }
        r.evidence_at = now;
        proof {
            assert(r == record_after_input(r0, health, now));
            lemma_update(self.windows@, i as int, r);
        }
        self.windows.set(i, (k, r));
        previous != r.health
    }

    /// Take a discovery pass into account.
    pub fn observe(&mut self, windows: &[Window], now: u64)
        requires
            old(self).wf(),
        ensures
            final(self).wf(),
            final(self)@.windows == observed(old(self)@.windows, windows@, now),
            final(self)@.attempts == old(self)@.attempts,
            final(self)@.halted == old(self)@.halted,
    {
        let ghost ws = windows@;
        let ghost keys = window_keys(ws);
        let ghost orig = self.windows@;
        let ghost attempts0 = self.attempts@;
        let ghost halted0 = self.halted;
        let mut kept: Vec<(WindowKey, Record)> = Vec::new();
        let mut i: usize = 0;
        while i < self.windows.len()
            invariant
                self.windows@ == orig,
                self.attempts@ == attempts0,
                self.halted == halted0,
                entries_unique(orig),
                windows@ == ws,
                keys == window_keys(ws),
                i <= orig.len(),
                entries_unique(kept@),
                forall|j: int|
                    0 <= j < kept@.len() ==> keys.contains(#[trigger] kept@[j].0) && exists|
                        m: int,
                    |
                        0 <= m < i && orig[m] == kept@[j],
                forall|m: int|
                    0 <= m < i && keys.contains(#[trigger] orig[m].0) ==> entries_have(
                        kept@,
                        orig[m].0,
                    ),
            decreases orig.len() - i,
        {
            let entry = self.windows[i];
            let mut present = false;
            let mut j: usize = 0;
            while j < windows.len()
                invariant
                    windows@ == ws,
                    j <= ws.len(),
                    present == exists|q: int| 0 <= q < j && key_of(#[trigger] ws[q]) == entry.0,
                decreases ws.len() - j,
            {
                if windows[j].key() == entry.0 {
                    present = true;
                }
                j = j + 1;
            }
            if present {
                proof {
                    assert forall|q: int| 0 <= q < kept@.len() implies kept@[q].0 != entry.0 by {
                        assert(keys.contains(kept@[q].0));
                        assert(exists|m: int| 0 <= m < i && orig[m] == kept@[q]);
                        let m = choose|m: int| 0 <= m < i && orig[m] == kept@[q];
                        assert(m != i);
                        assert(orig[m].0 != orig[i as int].0);
                    }
                    let n = kept@.len() as int;
                    assert forall|q: int| 0 <= q < kept@.len() + 1 implies exists|m: int|
                        0 <= m < i + 1 && orig[m] == #[trigger] kept@.push(entry)[q] by {
                        if q < n {
                            let m = choose|m: int| 0 <= m < i && orig[m] == kept@[q];
                            assert(orig[m] == kept@.push(entry)[q]);
                        } else {
                            assert(orig[i as int] == kept@.push(entry)[q]);
                        }
                    }
                }
                let ghost before = kept@;
                kept.push(entry);
                proof {
                    assert(kept@[kept@.len() - 1].0 == entry.0);
                    assert forall|m: int|
                        0 <= m < i + 1 && keys.contains(#[trigger] orig[m].0) implies entries_have(
                        kept@,
                        orig[m].0,
                    ) by {
                        if m < i {
                            assert(entries_have(before, orig[m].0));
                            let q = choose|q: int|
                                0 <= q < before.len() && #[trigger] before[q].0 == orig[m].0;
                            assert(kept@[q] == before[q]);
                        }
                    }
                }
            } else {
                proof {
                    assert(!keys.contains(entry.0));
                }
            }
            i = i + 1;
        }
        proof {
            let restricted = entries_map(orig).restrict(keys);
            assert forall|k: WindowKey|
                entries_map(kept@).contains_key(k) == restricted.contains_key(k) by {
                if entries_have(kept@, k) {
                    let q = choose|q: int| 0 <= q < kept@.len() && #[trigger] kept@[q].0 == k;
                    let m = choose|m: int| 0 <= m < orig.len() && orig[m] == kept@[q];
                    assert(orig[m].0 == k);
                }
                if restricted.contains_key(k) {
                    let m = choose|m: int| 0 <= m < orig.len() && #[trigger] orig[m].0 == k;
                    assert(keys.contains(orig[m].0));
                }
            }
            assert forall|k: WindowKey| #[trigger]
                entries_map(kept@).contains_key(k) implies entries_map(kept@)[k] == restricted[k] by {
                let q = choose|q: int| 0 <= q < kept@.len() && #[trigger] kept@[q].0 == k;
                lemma_entry(kept@, q);
                let m = choose|m: int| 0 <= m < orig.len() && orig[m] == kept@[q];
                lemma_entry(orig, m);
            }
            assert(entries_map(kept@) =~= restricted);
        }
        self.windows = kept;
        let mut i: usize = 0;
        while i < windows.len()
            invariant
                windows@ == ws,
                i <= ws.len(),
                self.wf(),
                self.attempts@ == attempts0,
                self.halted == halted0,
                keys == window_keys(ws),
                entries_map(self.windows@) == observe_all(
                    entries_map(orig).restrict(keys),
                    ws.take(i as int),
                    now,
                ),
            decreases ws.len() - i,
        {
            let w = &windows[i];
            let k = w.key();
            proof {
                assert(ws.take(i + 1).drop_last() =~= ws.take(i as int));
            }
            match self.find(k) {
                Some(idx) => {
                    proof {
                        lemma_entry(self.windows@, idx as int);
                    }
                    let r = self.windows[idx].1;
                    if !same_rect(&r.rect, &w.rect) {
                        let moved = Record {
                            rect: w.rect,
                            since: now,
                            health: InputHealth::Unknown,
                            misses: 0,
                            ..r
                        };
                        proof {
                            lemma_update(self.windows@, idx as int, moved);
                        }
                        self.windows.set(idx, (k, moved));
                    }
                },
                None => {
                    let fresh = Record {
                        rect: w.rect,
                        since: now,
                        completed: false,
                        retry: false,
                        health: InputHealth::Unknown,
                        evidence_at: 0,
                        misses: 0,
                        first_miss: 0,
                    };
                    proof {
                        lemma_push(self.windows@, k, fresh);
                    }
                    self.windows.push((k, fresh));
                },
            }
            i = i + 1;
        }
        proof {
            assert(ws.take(ws.len() as int) =~= ws);
        }
    }

    /// Forget every window instance that used this handle.
    pub fn forget_hwnd(&mut self, hwnd: usize)
        requires
            old(self).wf(),
        ensures
            final(self).wf(),
            final(self)@.windows == old(self)@.windows.restrict(
                Set::new(|k: WindowKey| k.hwnd != hwnd),
            ),
            final(self)@.attempts == old(self)@.attempts,
            final(self)@.halted == old(self)@.halted,
    {
        let ghost orig = self.windows@;
        let ghost keys = Set::new(|k: WindowKey| k.hwnd != hwnd);
        let mut kept: Vec<(WindowKey, Record)> = Vec::new();
        let mut i: usize = 0;
        while i < self.windows.len()
            invariant
                self.windows@ == orig,
                entries_unique(orig),
                keys == Set::new(|k: WindowKey| k.hwnd != hwnd),
                i <= orig.len(),
                entries_unique(kept@),
                forall|j: int|
                    0 <= j < kept@.len() ==> keys.contains(#[trigger] kept@[j].0) && exists|
                        m: int,
                    |
                        0 <= m < i && orig[m] == kept@[j],
                forall|m: int|
                    0 <= m < i && keys.contains(#[trigger] orig[m].0) ==> entries_have(
                        kept@,
                        orig[m].0,
                    ),
            decreases orig.len() - i,
        {
            let entry = self.windows[i];
            if entry.0.hwnd != hwnd {
                proof {
                    assert forall|q: int| 0 <= q < kept@.len() implies kept@[q].0 != entry.0 by {
                        assert(keys.contains(kept@[q].0));
                        assert(exists|m: int| 0 <= m < i && orig[m] == kept@[q]);
                        let m = choose|m: int| 0 <= m < i && orig[m] == kept@[q];
                        assert(m != i);
                        assert(orig[m].0 != orig[i as int].0);
                    }
                    let n = kept@.len() as int;
                    assert forall|q: int| 0 <= q < kept@.len() + 1 implies exists|m: int|
                        0 <= m < i + 1 && orig[m] == #[trigger] kept@.push(entry)[q] by {
                        if q < n {
                            let m = choose|m: int| 0 <= m < i && orig[m] == kept@[q];
                            assert(orig[m] == kept@.push(entry)[q]);
                        } else {
                            assert(orig[i as int] == kept@.push(entry)[q]);
                        }
                    }
                }
                let ghost before = kept@;
                kept.push(entry);
                proof {
                    assert(kept@[kept@.len() - 1].0 == entry.0);
                    assert forall|m: int|
                        0 <= m < i + 1 && keys.contains(#[trigger] orig[m].0) implies entries_have(
                        kept@,
                        orig[m].0,
                    ) by {
                        if m < i {
                            assert(entries_have(before, orig[m].0));
                            let q = choose|q: int|
                                0 <= q < before.len() && #[trigger] before[q].0 == orig[m].0;
                            assert(kept@[q] == before[q]);
                        }
                    }
                }
            }
            i = i + 1;
        }
        proof {
            let restricted = entries_map(orig).restrict(keys);
            assert forall|k: WindowKey|
                entries_map(kept@).contains_key(k) == restricted.contains_key(k) by {
                if entries_have(kept@, k) {
                    let q = choose|q: int| 0 <= q < kept@.len() && #[trigger] kept@[q].0 == k;
                    let m = choose|m: int| 0 <= m < orig.len() && orig[m] == kept@[q];
                    assert(orig[m].0 == k);
                }
                if restricted.contains_key(k) {
                    let m = choose|m: int| 0 <= m < orig.len() && #[trigger] orig[m].0 == k;
                    assert(keys.contains(orig[m].0));
                }
            }
            assert forall|k: WindowKey| #[trigger]
                entries_map(kept@).contains_key(k) implies entries_map(kept@)[k] == restricted[k] by {
                let q = choose|q: int| 0 <= q < kept@.len() && #[trigger] kept@[q].0 == k;
                lemma_entry(kept@, q);
                let m = choose|m: int| 0 <= m < orig.len() && orig[m] == kept@[q];
                lemma_entry(orig, m);
            }
            assert(entries_map(kept@) =~= restricted);
        }
        self.windows = kept;
    }
}


impl Policy {
    /// Whether a repair of `w` may start now; `manual` repairs skip the pause, the handled mark
    /// and the wait for evidence, and have a shorter spacing. Attempts older than five minutes
    /// are dropped from the count.
    pub fn allow(&mut self, w: &Window, now: u64, manual: bool) -> (r: Result<(), Block>)
        requires
            old(self).wf(),
        ensures
            final(self).wf(),
            final(self)@.windows == old(self)@.windows,
            final(self)@.halted == old(self)@.halted,
            final(self)@.attempts == pruned(old(self)@.attempts, now),
            r == allow_decision(
                old(self)@.windows,
                pruned(old(self)@.attempts, now),
                old(self)@.halted,
                key_of(*w),
                now,
                manual,
            ),
    {
        while self.attempts.len() > 0 && now.saturating_sub(self.attempts[0]) >= RATE_WINDOW_MS
            invariant
                self.wf(),
                self@.windows == old(self)@.windows,
                self@.halted == old(self)@.halted,
                pruned(self@.attempts, now) == pruned(old(self)@.attempts, now),
            decreases self.attempts@.len(),
        {
            proof {
                lemma_pruned_step(self.attempts@, now);
                assert(self.attempts@.remove(0) =~= self.attempts@.subrange(
                    1,
                    self.attempts@.len() as int,
                ));
            }
            self.attempts.remove(0);
        }
        let k = w.key();
        let record = self.lookup(k);
        if !manual && self.halted {
            return Err(Block::Paused);
        }
        if !manual {
            if let Some(r) = record {
                if r.completed {
                    return Err(Block::Handled);
                }
                if r.retry && (r.health != InputHealth::Failed || now.saturating_sub(r.evidence_at)
                    > EVIDENCE_MS) {
                    return Err(Block::CheckingInput);
                }
            }
        }
        let n = self.attempts.len();
        if n >= 3 {
            return Err(Block::RateLimit(RATE_WINDOW_MS - now.saturating_sub(self.attempts[0])));
        }
        let gap = if manual {
            MANUAL_GAP_MS
        } else {
            AUTOMATIC_GAP_MS
        };
        if n > 0 && now.saturating_sub(self.attempts[n - 1]) < gap {
            return Err(Block::Cooldown(gap - now.saturating_sub(self.attempts[n - 1])));
        }
        let Some(r) = record else {
            return Err(Block::Discovering);
        };
        if now.saturating_sub(r.since) < STABLE_MS {
            return Err(Block::Unstable(STABLE_MS - now.saturating_sub(r.since)));
        }
        Ok(())
    }

    /// Count a repair attempt started at `now`.
    pub fn attempted(&mut self, now: u64)
        requires
            old(self).wf(),
        ensures
            final(self).wf(),
            final(self)@.windows == old(self)@.windows,
            final(self)@.halted == old(self)@.halted,
            final(self)@.attempts == old(self)@.attempts.push(now),
    {
        self.attempts.push(now);
    }

    /// Whether automatic repairs are paused.
    pub fn is_halted(&self) -> (r: bool)
        ensures
            r == self@.halted,
    {
        self.halted
    }

    /// Pause (`true`) or resume (`false`) automatic repairs; nothing else changes.
    pub fn set_halted(&mut self, halted: bool)
        requires
            old(self).wf(),
        ensures
            final(self).wf(),
            final(self)@ == (PolicyState { halted, ..old(self)@ }),
    {
        self.halted = halted;
    }

    /// Mark the window as handled after a completed repair and lift the pause.
    pub fn complete(&mut self, w: &Window)
        requires
            old(self).wf(),
        ensures
            final(self).wf(),
            final(self)@.attempts == old(self)@.attempts,
            !final(self)@.halted,
            final(self)@.windows == completed_windows(old(self)@.windows, key_of(*w)),
    {
        let k = w.key();
        if let Some(i) = self.find(k) {
            proof {
                lemma_entry(self.windows@, i as int);
            }
            let mut r = self.windows[i].1;
            r.completed = true;
            r.health = InputHealth::Unknown;
            r.misses = 0;
            proof {
                lemma_update(self.windows@, i as int, r);
            }
            self.windows.set(i, (k, r));
        }
        self.halted = false;
    }

    /// When a manual repair of `w` next becomes possible, if it is not possible at `now`.
    pub fn next_manual_change(&self, w: &Window, now: u64) -> (r: Option<u64>)
        requires
            self.wf(),
            deadline_fits(self@, key_of(*w), now),
        ensures
            r == next_manual(self@, key_of(*w), now),
    {
        let Some(record) = self.lookup(w.key()) else {
            return None;
        };
        let mut deadline = record.since + STABLE_MS;
        let n = self.attempts.len();
        if n > 0 {
            let last = self.attempts[n - 1] + MANUAL_GAP_MS;
            if last > deadline {
                deadline = last;
            }
        }
        let ghost a = self.attempts@;
        let mut count: usize = 0;
        let mut first: u64 = 0;
        let mut i: usize = 0;
        while i < n
            invariant
                n == a.len(),
                a == self.attempts@,
                i <= n,
                count == a.take(i as int).filter(recent(now)).len(),
                count > 0 ==> first == a.take(i as int).filter(recent(now))[0],
            decreases n - i,
        {
            proof {
                assert(a.take(i + 1).drop_last() =~= a.take(i as int));
                reveal(Seq::filter);
            }
            if now.saturating_sub(self.attempts[i]) < RATE_WINDOW_MS {
                if count == 0 {
                    first = self.attempts[i];
                }
                count = count + 1;
            }
            i = i + 1;
        }
        proof {
            assert(a.take(n as int) =~= a);
        }
        if count >= 3 {
            let limit = first + RATE_WINDOW_MS;
            if limit > deadline {
                deadline = limit;
            }
        }
        if deadline > now {
            Some(deadline)
        } else {
            None
        }
    }

    /// Whether a manual repair of `w` would be allowed at `now`, as far as timing goes.
    pub fn manual_ready(&self, w: &Window, now: u64) -> (r: bool)
        requires
            self.wf(),
            deadline_fits(self@, key_of(*w), now),
        ensures
            r == (self@.windows.contains_key(key_of(*w)) && next_manual(self@, key_of(*w), now)
                is None),
    {
        self.find(w.key()).is_some() && self.next_manual_change(w, now).is_none()
    }

    /// Whether `next_manual_change` and `manual_ready` can compute the deadline of `w` in
    /// 64 bits.
    pub fn deadline_in_range(&self, w: &Window, now: u64) -> (r: bool)
        requires
            self.wf(),
        ensures
            r == deadline_fits(self@, key_of(*w), now),
    {
        let Some(record) = self.lookup(w.key()) else {
            return true;
        };
        if record.since > u64::MAX - STABLE_MS {
            return false;
        }
        let n = self.attempts.len();
        if n > 0 && self.attempts[n - 1] > u64::MAX - MANUAL_GAP_MS {
            return false;
        }
        let ghost a = self.attempts@;
        let mut count: usize = 0;
        let mut first: u64 = 0;
        let mut i: usize = 0;
        while i < n
            invariant
                n == a.len(),
                a == self.attempts@,
                i <= n,
                count == a.take(i as int).filter(recent(now)).len(),
                count > 0 ==> first == a.take(i as int).filter(recent(now))[0],
            decreases n - i,
        {
            proof {
                assert(a.take(i + 1).drop_last() =~= a.take(i as int));
                reveal(Seq::filter);
            }
            if now.saturating_sub(self.attempts[i]) < RATE_WINDOW_MS {
                if count == 0 {
                    first = self.attempts[i];
                }
                count = count + 1;
            }
            i = i + 1;
        }
        proof {
            assert(a.take(n as int) =~= a);
        }
        !(count >= 3 && first > u64::MAX - RATE_WINDOW_MS)
    }
}

impl Default for Policy {
    fn default() -> (p: Self)
        ensures
            p.wf(),
            p@.windows == Map::<WindowKey, Record>::empty(),
            p@.attempts == Seq::<u64>::empty(),
            !p@.halted,
    {
        let p = Policy { windows: Vec::new(), attempts: Vec::new(), halted: false };
        proof {
            assert(entries_map(p.windows@) =~= Map::<WindowKey, Record>::empty());
        }
        p
    }
}

/// The style bit that the repair clears for the duration of a transaction (`WS_EX_LAYERED`).
pub const LAYERED: u32 = 0x80000;

/// The style to write back: the application's current bits, with the layered bit as it was
/// originally; and whether the application changed any other bit meanwhile.
pub open spec fn restored_style(original: u32, current: u32) -> (u32, bool) {
    ((current & !LAYERED) | (original & LAYERED), (original & !LAYERED) != (current & !LAYERED))
}

pub fn restore_value(original: u32, current: u32) -> (r: (u32, bool))
    ensures
        r == restored_style(original, current),
{
    let bit: u32 = LAYERED;
    ((current & !bit) | (original & bit), (original & !bit) != (current & !bit))
}


/// Attempts recorded in the order in which they happened.
pub open spec fn chronological(a: Seq<u64>) -> bool {
    forall|i: int, j: int| 0 <= i <= j < a.len() ==> a[i] <= a[j]
}

proof fn lemma_filter_all(s: Seq<u64>, p: spec_fn(u64) -> bool)
    requires
        forall|i: int| 0 <= i < s.len() ==> p(#[trigger] s[i]),
    ensures
        s.filter(p) == s,
    decreases s.len(),
{
    reveal(Seq::filter);
    if s.len() > 0 {
        lemma_filter_all(s.drop_last(), p);
        assert(s.drop_last().push(s.last()) =~= s);
    }
}

proof fn lemma_filter_none(s: Seq<u64>, p: spec_fn(u64) -> bool)
    requires
        forall|i: int| 0 <= i < s.len() ==> !p(#[trigger] s[i]),
    ensures
        s.filter(p).len() == 0,
    decreases s.len(),
{
    reveal(Seq::filter);
    if s.len() > 0 {
        lemma_filter_none(s.drop_last(), p);
    }
}

/// Pruning a chronological list of attempts leaves exactly the recent ones.
proof fn lemma_pruned_is_recent(a: Seq<u64>, now: u64)
    requires
        chronological(a),
    ensures
        pruned(a, now) == a.filter(recent(now)),
    decreases a.len(),
{
    if a.len() > 0 && elapsed(now, a[0]) >= RATE_WINDOW_MS {
        let rest = a.subrange(1, a.len() as int);
        lemma_pruned_is_recent(rest, now);
        assert(a =~= seq![a[0]] + rest);
        Seq::filter_distributes_over_add(seq![a[0]], rest, recent(now));
        lemma_filter_none(seq![a[0]], recent(now));
        assert(seq![a[0]].filter(recent(now)) =~= Seq::<u64>::empty());
        assert(Seq::<u64>::empty() + rest.filter(recent(now)) =~= rest.filter(recent(now)));
    } else if a.len() > 0 {
        assert forall|i: int| 0 <= i < a.len() implies #[trigger] recent(now)(a[i]) by {
            assert(a[0] <= a[i]);
        }
        lemma_filter_all(a, recent(now));
    }
}

/// The last attempt is the last recent one, or, when none is recent, it is not recent either.
proof fn lemma_last_attempt(a: Seq<u64>, now: u64)
    requires
        chronological(a),
        a.len() > 0,
    ensures
        a.filter(recent(now)).len() > 0 ==> a.filter(recent(now)).last() == a.last(),
        a.filter(recent(now)).len() == 0 ==> !recent(now)(a.last()),
{
    let c = a.filter(recent(now));
    reveal(Seq::filter);
    if recent(now)(a.last()) {
        assert(c == a.drop_last().filter(recent(now)).push(a.last()));
    } else {
        assert(c == a.drop_last().filter(recent(now)));
        if c.len() > 0 {
            let l = c.len() - 1;
            assert(recent(now)(c[l])) by {
                broadcast use vstd::seq_lib::group_filter_ensures;
            }
            a.drop_last().lemma_filter_contains_rev(recent(now), c[l]);
            let j = choose|j: int| 0 <= j < a.len() - 1 && a.drop_last()[j] == c[l];
            assert(a[j] <= a.last());
        }
    }
}

/// A manual repair of an observed window is ready exactly when `allow` would let it run:
/// the readiness shown to the user and its wake-up deadline are the real limits, not a
/// separate estimate.
pub proof fn law_manual_ready_is_manual_allow(st: PolicyState, k: WindowKey, now: u64)
    requires
        chronological(st.attempts),
    ensures
        (st.windows.contains_key(k) && next_manual(st, k, now) is None) <==> allow_decision(
            st.windows,
            pruned(st.attempts, now),
            st.halted,
            k,
            now,
            true,
        ) is Ok,
{
    let a = st.attempts;
    let c = a.filter(recent(now));
    lemma_pruned_is_recent(a, now);
    if c.len() > 0 {
        assert(recent(now)(c[0])) by {
            broadcast use vstd::seq_lib::group_filter_ensures;
        }
    }
    if a.len() > 0 {
        lemma_last_attempt(a, now);
    }
}

/// Every repair that `allow` lets run respects the limits: the window's geometry has been
/// stable for two seconds, the last attempt lies at least the spacing back (thirty seconds
/// before an automatic repair, ten before a manual one), and fewer than three attempts fall
/// in the last five minutes.
pub proof fn law_allowed_repairs_respect_limits(st: PolicyState, k: WindowKey, now: u64, manual: bool)
    requires
        chronological(st.attempts),
        allow_decision(st.windows, pruned(st.attempts, now), st.halted, k, now, manual) is Ok,
    ensures
        st.windows.contains_key(k),
        elapsed(now, st.windows[k].since) >= STABLE_MS,
        st.attempts.len() > 0 ==> elapsed(now, st.attempts.last()) >= (if manual {
            MANUAL_GAP_MS
        } else {
            AUTOMATIC_GAP_MS
        }),
        st.attempts.filter(recent(now)).len() < 3,
{
    let a = st.attempts;
    lemma_pruned_is_recent(a, now);
    if a.len() > 0 {
        lemma_last_attempt(a, now);
    }
}

/// A filter keeps at least as many elements as there are (strictly increasing) positions
/// whose elements satisfy the predicate.
proof fn lemma_filter_at_least(s: Seq<u64>, p: spec_fn(u64) -> bool, idx: Seq<int>)
    requires
        forall|a: int, b: int| 0 <= a < b < idx.len() ==> idx[a] < idx[b],
        forall|a: int| 0 <= a < idx.len() ==> 0 <= #[trigger] idx[a] < s.len() && p(s[idx[a]]),
    ensures
        s.filter(p).len() >= idx.len(),
    decreases s.len(),
{
    reveal(Seq::filter);
    if s.len() == 0 {
        if idx.len() > 0 {
            assert(0 <= idx[0] < s.len());
        }
    } else if idx.len() > 0 && idx.last() == s.len() - 1 {
        let rest = idx.drop_last();
        assert forall|a: int| 0 <= a < rest.len() implies 0 <= #[trigger] rest[a] < s.drop_last().len()
            && p(s.drop_last()[rest[a]]) by {
            assert(idx[a] < idx[idx.len() - 1]);
        }
        lemma_filter_at_least(s.drop_last(), p, rest);
    } else {
        assert forall|a: int| 0 <= a < idx.len() implies 0 <= #[trigger] idx[a] < s.drop_last().len()
            && p(s.drop_last()[idx[a]]) by {
            if idx[a] == s.len() - 1 {
                assert(idx[a] <= idx[idx.len() - 1]) by {
                    if a < idx.len() - 1 {
                        assert(idx[a] < idx[idx.len() - 1]);
                    }
                }
            }
        }
        lemma_filter_at_least(s.drop_last(), p, idx);
    }
}

/// Whether the attempt at position `k` was one that `allow` let run, with the earlier
/// attempts as the history it saw.
pub open spec fn allowed_at(a: Seq<u64>, k: int) -> bool {
    exists|m: Map<WindowKey, Record>, halted: bool, key: WindowKey, manual: bool|
        #[trigger] allow_decision(m, pruned(a.take(k), a[k]), halted, key, a[k], manual) is Ok
}

/// However the attempts came about, as long as each was allowed when it started, no five
/// minutes ever hold more than three: every attempt lies at least five minutes after the
/// attempt three places before it.
pub proof fn law_at_most_three_attempts_in_five_minutes(a: Seq<u64>)
    requires
        chronological(a),
        forall|k: int| 0 <= k < a.len() ==> #[trigger] allowed_at(a, k),
    ensures
        forall|i: int, l: int|
            0 <= i && i + 3 <= l < a.len() ==> #[trigger] a[l] - #[trigger] a[i] >= RATE_WINDOW_MS,
{
    assert forall|i: int, l: int| 0 <= i && i + 3 <= l < a.len() implies #[trigger] a[l]
        - #[trigger] a[i] >= RATE_WINDOW_MS by {
        let j = i + 1;
        let k = i + 2;
        if a[l] - a[i] < RATE_WINDOW_MS {
            let h = a.take(l);
            assert(allowed_at(a, l));
            let (m, halted, key, manual) = choose|m: Map<WindowKey, Record>, halted: bool, key: WindowKey, manual: bool|
                #[trigger] allow_decision(m, pruned(a.take(l), a[l]), halted, key, a[l], manual) is Ok;
            assert(chronological(h));
            law_allowed_repairs_respect_limits(
                PolicyState { windows: m, attempts: h, halted },
                key,
                a[l],
                manual,
            );
            let idx = seq![i, j, k];
            assert forall|x: int| 0 <= x < idx.len() implies 0 <= #[trigger] idx[x] < h.len()
                && recent(a[l])(h[idx[x]]) by {
                assert(a[i] <= a[idx[x]] <= a[l]);
            }
            lemma_filter_at_least(h, recent(a[l]), idx);
        }
    }
}

/// While repairs are paused, no automatic repair is allowed.
pub proof fn law_pause_blocks_automatic(
    m: Map<WindowKey, Record>,
    attempts: Seq<u64>,
    k: WindowKey,
    now: u64,
)
    ensures
        allow_decision(m, attempts, true, k, now, false) == Err::<(), Block>(Block::Paused),
{
}

/// After a completed repair of a tracked window, automatic repair leaves that window alone
/// (it is handled) however much time passes, until new evidence says otherwise.
pub proof fn law_completed_window_is_handled(
    m: Map<WindowKey, Record>,
    attempts: Seq<u64>,
    k: WindowKey,
    now: u64,
)
    requires
        m.contains_key(k),
    ensures
        allow_decision(completed_windows(m, k), attempts, false, k, now, false) == Err::<
            (),
            Block,
        >(Block::Handled),
{
}

/// Moving or resizing a window only invalidates its evidence: a discovery pass keeps whether
/// a window still listed was handled and whether it awaits a retry.
pub proof fn law_observe_keeps_handled(m: Map<WindowKey, Record>, ws: Seq<Window>, now: u64, k: WindowKey)
    requires
        m.contains_key(k),
        window_keys(ws).contains(k),
    ensures
        observed(m, ws, now).contains_key(k),
        observed(m, ws, now)[k].completed == m[k].completed,
        observed(m, ws, now)[k].retry == m[k].retry,
{
    lemma_observe_all_keeps(m.restrict(window_keys(ws)), ws, now, k);
}

proof fn lemma_observe_all_keeps(m: Map<WindowKey, Record>, ws: Seq<Window>, now: u64, k: WindowKey)
    requires
        m.contains_key(k),
    ensures
        observe_all(m, ws, now).contains_key(k),
        observe_all(m, ws, now)[k].completed == m[k].completed,
        observe_all(m, ws, now)[k].retry == m[k].retry,
    decreases ws.len(),
{
    if ws.len() > 0 {
        lemma_observe_all_keeps(m, ws.drop_last(), now, k);
    }
}

/// No two windows of a discovery pass share a key.
pub open spec fn distinct_keys(ws: Seq<Window>) -> bool {
    forall|i: int, j: int|
        0 <= i < ws.len() && 0 <= j < ws.len() && i != j ==> key_of(#[trigger] ws[i]) != key_of(
            #[trigger] ws[j],
        )
}

proof fn lemma_observe_all_each(m: Map<WindowKey, Record>, ws: Seq<Window>, now: u64)
    requires
        distinct_keys(ws),
    ensures
        observe_all(m, ws, now).dom() == m.dom().union(window_keys(ws)),
        forall|k: WindowKey|
            !window_keys(ws).contains(k) && m.contains_key(k) ==> #[trigger] observe_all(
                m,
                ws,
                now,
            )[k] == m[k],
        forall|i: int|
            0 <= i < ws.len() ==> #[trigger] observe_all(m, ws, now)[key_of(ws[i])] == observe_one(
                m,
                key_of(ws[i]),
                ws[i].rect,
                now,
            )[key_of(ws[i])],
    decreases ws.len(),
{
    if ws.len() > 0 {
        let rest = ws.drop_last();
        assert(distinct_keys(rest));
        lemma_observe_all_each(m, rest, now);
        let kl = key_of(ws.last());
        assert(!window_keys(rest).contains(kl)) by {
            if window_keys(rest).contains(kl) {
                let j = choose|j: int| 0 <= j < rest.len() && key_of(#[trigger] rest[j]) == kl;
                assert(ws[j] == rest[j]);
            }
        }
        assert forall|k: WindowKey| #[trigger] window_keys(ws).contains(k) <==> (window_keys(
            rest,
        ).contains(k) || k == kl) by {
            if window_keys(ws).contains(k) {
                let j = choose|j: int| 0 <= j < ws.len() && key_of(#[trigger] ws[j]) == k;
                if j < rest.len() {
                    assert(rest[j] == ws[j]);
                }
            }
            if window_keys(rest).contains(k) {
                let j = choose|j: int| 0 <= j < rest.len() && key_of(#[trigger] rest[j]) == k;
                assert(ws[j] == rest[j]);
            }
            if k == kl {
                assert(key_of(ws[ws.len() - 1]) == k);
            }
        }
        assert(observe_all(m, ws, now).dom() =~= m.dom().union(window_keys(ws)));
        assert forall|i: int| 0 <= i < ws.len() implies #[trigger] observe_all(m, ws, now)[key_of(
            ws[i],
        )] == observe_one(m, key_of(ws[i]), ws[i].rect, now)[key_of(ws[i])] by {
            if i < ws.len() - 1 {
                assert(rest[i] == ws[i]);
                assert(key_of(ws[i]) != kl);
            }
        }
    }
}

/// A discovery pass tracks exactly the listed windows; each keeps its record when its
/// geometry is unchanged, restarts its stability clock and evidence (keeping whether it was
/// handled) when it moved, and starts fresh when it is new.
pub proof fn law_observe_tracks_the_listed_windows(m: Map<WindowKey, Record>, ws: Seq<Window>, now: u64)
    requires
        distinct_keys(ws),
    ensures
        observed(m, ws, now).dom() == window_keys(ws),
        forall|i: int|
            0 <= i < ws.len() ==> #[trigger] observed(m, ws, now)[key_of(ws[i])] == (if m.contains_key(
                key_of(ws[i]),
            ) {
                if m[key_of(ws[i])].rect@ == ws[i].rect@ {
                    m[key_of(ws[i])]
                } else {
                    moved_record(m[key_of(ws[i])], ws[i].rect, now)
                }
            } else {
                fresh_record(ws[i].rect, now)
            }),
{
    let mr = m.restrict(window_keys(ws));
    lemma_observe_all_each(mr, ws, now);
    assert(observed(m, ws, now).dom() =~= window_keys(ws));
    assert forall|i: int| 0 <= i < ws.len() implies window_keys(ws).contains(
        key_of(#[trigger] ws[i]),
    ) by {}
}

/// Observing the same windows again changes nothing, whenever it happens.
pub proof fn law_observe_again_changes_nothing(
    m: Map<WindowKey, Record>,
    ws: Seq<Window>,
    first: u64,
    later: u64,
)
    requires
        distinct_keys(ws),
    ensures
        observed(observed(m, ws, first), ws, later) == observed(m, ws, first),
{
    let o1 = observed(m, ws, first);
    law_observe_tracks_the_listed_windows(m, ws, first);
    law_observe_tracks_the_listed_windows(o1, ws, later);
    let o2 = observed(o1, ws, later);
    assert forall|k: WindowKey| #[trigger] o2.contains_key(k) implies o2[k] == o1[k] by {
        let i = choose|i: int| 0 <= i < ws.len() && key_of(#[trigger] ws[i]) == k;
        assert(o1[key_of(ws[i])].rect@ == ws[i].rect@);
    }
    assert(o2 =~= o1);
}

/// The record after a sequence of input evidence (health, time) for an unchanged geometry.
pub open spec fn inputs_after(r: Record, hs: Seq<(InputHealth, u64)>) -> Record
    decreases hs.len(),
{
    if hs.len() == 0 {
        r
    } else {
        record_after_input(inputs_after(r, hs.drop_last()), hs.last().0, hs.last().1)
    }
}

/// Whether the last piece of evidence continues a run of mismatches: it is a mismatch, and so
/// is the evidence before it (or, with no earlier evidence, the record holds a streak), at
/// most the evidence lifetime earlier.
pub open spec fn continues_run(r: Record, hs: Seq<(InputHealth, u64)>) -> bool {
    &&& hs.len() >= 1
    &&& hs.last().0 == InputHealth::Mismatch
    &&& if hs.len() >= 2 {
        hs[hs.len() - 2].0 == InputHealth::Mismatch && elapsed(hs.last().1, hs[hs.len() - 2].1)
            <= EVIDENCE_MS
    } else {
        r.misses != 0 && elapsed(hs.last().1, r.evidence_at) <= EVIDENCE_MS
    }
}

/// The length of the run of mismatches that ends the evidence, counting the streak the record
/// held when the run continues it (0 when the evidence ends otherwise).
pub open spec fn run_len(r: Record, hs: Seq<(InputHealth, u64)>) -> nat
    decreases hs.len(),
{
    if hs.len() == 0 {
        r.misses as nat
    } else if hs.last().0 != InputHealth::Mismatch {
        0
    } else if continues_run(r, hs) {
        1 + run_len(r, hs.drop_last())
    } else {
        1
    }
}

/// The time of the first mismatch of that run.
pub open spec fn run_start(r: Record, hs: Seq<(InputHealth, u64)>) -> u64
    decreases hs.len(),
{
    if hs.len() == 0 {
        r.first_miss
    } else if continues_run(r, hs) {
        run_start(r, hs.drop_last())
    } else {
        hs.last().1
    }
}

proof fn lemma_run_tracked(r: Record, hs: Seq<(InputHealth, u64)>)
    ensures
        inputs_after(r, hs).misses == (if run_len(r, hs) < 255 {
            run_len(r, hs)
        } else {
            255
        }),
        run_len(r, hs) > 0 ==> inputs_after(r, hs).first_miss == run_start(r, hs),
        hs.len() > 0 ==> inputs_after(r, hs).evidence_at == hs.last().1,
        inputs_after(r, hs).rect == r.rect,
    decreases hs.len(),
{
    if hs.len() > 0 {
        let rest = hs.drop_last();
        lemma_run_tracked(r, rest);
        if rest.len() > 0 && rest.last().0 == InputHealth::Mismatch {
            assert(run_len(r, rest) >= 1);
        }
        if hs.len() >= 2 {
            assert(hs[hs.len() - 2] == rest.last());
        }
    }
}

/// A failure is confirmed exactly when the evidence ends with a run of at least three
/// mismatches (counting the streak the record already held), each at most the evidence
/// lifetime after the evidence before it, the first of them at least the failure span before
/// the last, or when the evidence itself reports a failure. A confirmed mismatch failure asks
/// for a retry and clears the handled mark; a mismatch that confirms nothing leaves the health
/// unknown and the handled and retry marks as they were. With one piece of evidence this is
/// the rule for a single call.
pub proof fn law_failure_is_a_long_enough_run(r: Record, hs: Seq<(InputHealth, u64)>)
    requires
        hs.len() > 0,
    ensures
        (inputs_after(r, hs).health == InputHealth::Failed) <==> (hs.last().0 == InputHealth::Failed
            || (hs.last().0 == InputHealth::Mismatch && run_len(r, hs) >= 3 && elapsed(
            hs.last().1,
            run_start(r, hs),
        ) >= FAILURE_SPAN_MS)),
        hs.last().0 == InputHealth::Mismatch && inputs_after(r, hs).health == InputHealth::Failed
            ==> !inputs_after(r, hs).completed && inputs_after(r, hs).retry,
        hs.last().0 == InputHealth::Mismatch && inputs_after(r, hs).health != InputHealth::Failed
            ==> {
            &&& inputs_after(r, hs).health == InputHealth::Unknown
            &&& inputs_after(r, hs).completed == inputs_after(r, hs.drop_last()).completed
            &&& inputs_after(r, hs).retry == inputs_after(r, hs.drop_last()).retry
        },
{
    lemma_run_tracked(r, hs);
    lemma_run_tracked(r, hs.drop_last());
    let rest = hs.drop_last();
    if rest.len() > 0 && rest.last().0 == InputHealth::Mismatch {
        assert(run_len(r, rest) >= 1);
    }
    if hs.len() >= 2 {
        assert(hs[hs.len() - 2] == rest.last());
    }
}

/// A failure is only confirmed by the third consecutive mismatch of a streak that spans at
/// least two seconds; any other evidence clears the streak. (Evidence that is itself
/// `Failed` is taken as it stands.)
pub proof fn law_failure_needs_a_streak(r: Record, health: InputHealth, now: u64)
    requires
        health != InputHealth::Failed,
    ensures
        record_after_input(r, health, now).health == InputHealth::Failed ==> {
            &&& health == InputHealth::Mismatch
            &&& record_after_input(r, health, now).misses >= 3
            &&& elapsed(now, record_after_input(r, health, now).first_miss) >= FAILURE_SPAN_MS
        },
        health != InputHealth::Mismatch ==> record_after_input(r, health, now).misses == 0,
{
}

/// Undoing the repair's own change (clearing the layered bit) restores the original style
/// exactly and reports no conflict.
pub proof fn law_restore_undoes_repair(original: u32)
    ensures
        restored_style(original, original & !LAYERED) == (original, false),
{
    assert(((original & !LAYERED) & !LAYERED) | (original & LAYERED) == original) by (bit_vector);
    assert((original & !LAYERED) == ((original & !LAYERED) & !LAYERED)) by (bit_vector);
}

/// Restoring keeps every bit the application changed meanwhile, and only the layered bit
/// comes from the original; restoring twice gives the same style.
pub proof fn law_restore_keeps_application_changes(original: u32, current: u32)
    ensures
        restored_style(original, current).0 & !LAYERED == current & !LAYERED,
        restored_style(original, current).0 & LAYERED == original & LAYERED,
        restored_style(original, restored_style(original, current).0).0 == restored_style(
            original,
            current,
        ).0,
        restored_style(original, current).1 == (original & !LAYERED != current & !LAYERED),
{
    let v = (current & !LAYERED) | (original & LAYERED);
    assert(v & !LAYERED == current & !LAYERED) by (bit_vector)
        requires v == (current & !0x80000u32) | (original & 0x80000u32);
    assert(v & LAYERED == original & LAYERED) by (bit_vector)
        requires v == (current & !0x80000u32) | (original & 0x80000u32);
    assert((v & !LAYERED) | (original & LAYERED) == v) by (bit_vector)
        requires v == (current & !0x80000u32) | (original & 0x80000u32);
}

} // verus!
