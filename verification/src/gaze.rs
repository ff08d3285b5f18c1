//! Decisions of the look-at-mouse bridge: its user-facing status, which listener, window and
//! page it may connect to, how input evidence is judged, and when a pause is acknowledged.
use crate::identity::{inside, point_inside, Owner, Window};
use crate::policy::InputHealth;
use crate::text::{decimal, hex8, push_decimal, push_hex8, str_eq};
use crate::transport::{overlay_url, overlay_url_of, PORT};
use vstd::prelude::*;
use vstd::string::*;

verus! {

/// The bridge state shown to the user.
#[derive(Clone, Debug)]
pub struct Status {
    pub code: String,
    pub text: String,
    pub detail: String,
}

pub open spec fn status_text(code: Seq<char>) -> Seq<char> {
    if code == "disabled"@ {
        "看向鼠标已关闭"@
    } else if code == "checking"@ {
        "正在检查宠物与本机连接…"@
    } else if code == "ready"@ {
        "已连接 · 移动宠物周围的鼠标"@
    } else if code == "paused"@ {
        "暂时暂停跟随 · 修复完成或桌面恢复后继续"@
    } else if code == "debug_required"@ {
        "需要跟随模式 · 完全退出 Codex 后，点击下方启动"@
    } else if code == "codex_running"@ {
        "Codex 仍在运行 · 从其菜单完全退出后再启动"@
    } else if code == "launching"@ {
        "正在启动 Codex · 打开 V2 宠物后自动连接"@
    } else if code == "no_pet"@ {
        "未找到宠物 · 请在 Codex 中打开 V2 宠物"@
    } else if code == "ambiguous"@ {
        "找到多个宠物窗口 · 请只保留一个"@
    } else if code == "sprite_v2_required"@ {
        "需要 V2 宠物 · 请选择含方向帧的 V2 素材"@
    } else if code == "viewport_mismatch"@ {
        "窗口坐标不一致 · 暂停跟随，请重新打开宠物"@
    } else if code == "identity_rejected"@ {
        "连接身份不符 · 已停止跟随，可打开日志查看原因"@
    } else if code == "disconnected"@ {
        "连接已断开 · 将在宠物就绪后重连"@
    } else if code == "launch_failed"@ {
        "无法启动 Codex · 请打开日志查看原因"@
    } else {
        "此客户端接口暂不兼容 · 可复制诊断摘要"@
    }
}

pub open spec fn status_is(s: Status, code: Seq<char>, detail: Seq<char>) -> bool {
    s.code@ == code && s.text@ == status_text(code) && s.detail@ == detail
}

fn text_for(code: &str) -> (r: &'static str)
    ensures
        r@ == status_text(code@),
{
    if str_eq(code, "disabled") {
        "看向鼠标已关闭"
    } else if str_eq(code, "checking") {
        "正在检查宠物与本机连接…"
    } else if str_eq(code, "ready") {
        "已连接 · 移动宠物周围的鼠标"
    } else if str_eq(code, "paused") {
        "暂时暂停跟随 · 修复完成或桌面恢复后继续"
    } else if str_eq(code, "debug_required") {
        "需要跟随模式 · 完全退出 Codex 后，点击下方启动"
    } else if str_eq(code, "codex_running") {
        "Codex 仍在运行 · 从其菜单完全退出后再启动"
    } else if str_eq(code, "launching") {
        "正在启动 Codex · 打开 V2 宠物后自动连接"
    } else if str_eq(code, "no_pet") {
        "未找到宠物 · 请在 Codex 中打开 V2 宠物"
    } else if str_eq(code, "ambiguous") {
        "找到多个宠物窗口 · 请只保留一个"
    } else if str_eq(code, "sprite_v2_required") {
        "需要 V2 宠物 · 请选择含方向帧的 V2 素材"
    } else if str_eq(code, "viewport_mismatch") {
        "窗口坐标不一致 · 暂停跟随，请重新打开宠物"
    } else if str_eq(code, "identity_rejected") {
        "连接身份不符 · 已停止跟随，可打开日志查看原因"
    } else if str_eq(code, "disconnected") {
        "连接已断开 · 将在宠物就绪后重连"
    } else if str_eq(code, "launch_failed") {
        "无法启动 Codex · 请打开日志查看原因"
    } else {
        "此客户端接口暂不兼容 · 可复制诊断摘要"
    }
}

/// The status for a code, with its user-facing text.
pub fn status(code: &str, detail: &str) -> (r: Status)
    ensures
        status_is(r, code@, detail@),
{
    Status {
        code: String::from_str(code),
        text: String::from_str(text_for(code)),
        detail: String::from_str(detail),
    }
}

impl Default for Status {
    fn default() -> (r: Status)
        ensures
            status_is(r, "disabled"@, ""@),
    {
        status("disabled", "")
    }
}

/// With looking at the mouse switched off, the input check still runs; its state is shown as
/// a detail of the "disabled" status.
pub fn display_status(report: Status, gaze: bool) -> (r: Status)
    ensures
        gaze ==> r == report,
        !gaze ==> status_is(r, "disabled"@, "输入检查："@ + report.code@ + "\n"@ + report.detail@),
{
    if gaze {
        report
    } else {
        let mut detail = String::from_str("输入检查：");
        detail.append(report.code.as_str());
        detail.append("\n");
        detail.append(report.detail.as_str());
        Status {
            code: String::from_str("disabled"),
            text: String::from_str(text_for("disabled")),
            detail,
        }
    }
}

/// A listening TCP endpoint as the system's table reports it (port in host order).
#[derive(Clone, Copy, Debug)]
pub struct Listener {
    pub port: u16,
    pub address: [u8; 4],
    pub pid: u32,
}

pub open spec fn on_debug_port(l: Listener) -> bool {
    l.port == PORT
}

/// Words per row of the system's IPv4 listener table (state, local address, local port,
/// remote address, remote port, owning process).
pub const ROW_WORDS: usize = 6;

/// The table is its row count followed by that many rows; it is refused when the count claims
/// more rows than the words hold.
pub open spec fn table_fits(t: Seq<u32>) -> bool {
    t.len() >= 1 && t[0] * ROW_WORDS <= t.len() - 1
}

/// A port is stored in network byte order in the low 16 bits of its field; Windows runs on
/// little-endian processors, so reading it means swapping those two bytes.
pub open spec fn port_of(field: u32) -> u16 {
    (((field & 0xff) << 8u32) | ((field >> 8u32) & 0xff)) as u16
}

/// An address field holds the four address bytes in memory order, the low byte first.
pub open spec fn address_of(field: u32) -> Seq<u8> {
    seq![
        (field & 0xff) as u8,
        ((field >> 8u32) & 0xff) as u8,
        ((field >> 16u32) & 0xff) as u8,
        ((field >> 24u32) & 0xff) as u8,
    ]
}

/// The listener described by row `i` of the table.
pub open spec fn row_matches(t: Seq<u32>, i: int, l: Listener) -> bool {
    let base = 1 + i * ROW_WORDS;
    &&& l.port == port_of(t[base + 2])
    &&& l.address@ == address_of(t[base + 1])
    &&& l.pid == t[base + 5]
}

/// The listeners of the system's IPv4 listener table, given as its words.
pub fn listener_rows(table: &[u32]) -> (r: Result<Vec<Listener>, &'static str>)
    ensures
        match r {
            Ok(rows) => table_fits(table@) && rows@.len() == table@[0] && forall|i: int|
                0 <= i < rows@.len() ==> row_matches(table@, i, #[trigger] rows@[i]),
            Err(e) => !table_fits(table@) && e@ == "tcp_table_invalid"@,
        },
{
    if table.len() == 0 {
        return Err("tcp_table_invalid");
    }
    let count = table[0] as usize;
    if count > (table.len() - 1) / ROW_WORDS {
        return Err("tcp_table_invalid");
    }
    assert(count * ROW_WORDS <= table@.len() - 1) by (nonlinear_arith)
        requires
            count <= (table@.len() - 1) / (ROW_WORDS as int),
            table@.len() >= 1,
    ;
    let n = table.len();
    let mut rows: Vec<Listener> = Vec::new();
    let mut i: usize = 0;
    while i < count
        invariant
            n == table@.len(),
            count == table@[0],
            count * ROW_WORDS <= table@.len() - 1,
            i <= count,
            rows@.len() == i,
            forall|j: int| 0 <= j < i ==> row_matches(table@, j, #[trigger] rows@[j]),
        decreases count - i,
    {
        assert(1 + i * ROW_WORDS + 5 < table@.len()) by (nonlinear_arith)
            requires
                i < count,
                count * ROW_WORDS <= table@.len() - 1,
        ;
        let base: usize = 1 + i * ROW_WORDS;
        let a = table[base + 1];
        let p = table[base + 2];
        let address = [
            (a & 0xff) as u8,
            ((a >> 8u32) & 0xff) as u8,
            ((a >> 16u32) & 0xff) as u8,
            ((a >> 24u32) & 0xff) as u8,
        ];
        assert(address@ =~= address_of(a));
        let l = Listener {
            port: (((p & 0xff) << 8u32) | ((p >> 8u32) & 0xff)) as u16,
            address,
            pid: table[base + 5],
        };
        rows.push(l);
        i = i + 1;
    }
    proof {
        if !table_fits(table@) {
            assert(false);
        }
    }
    Ok(rows)
}

pub open spec fn listener_of(rows: Seq<Listener>) -> Result<u32, Seq<char>> {
    let matching = rows.filter(|l: Listener| on_debug_port(l));
    if matching.len() == 0 {
        Err("debug_required"@)
    } else if matching.len() != 1 || matching[0].address@ != seq![127u8, 0, 0, 1] {
        Err("listener_not_exclusive_loopback"@)
    } else {
        Ok(matching[0].pid)
    }
}

/// The process listening on the debugging port: there must be exactly one listener, bound
/// to the loopback address only.
pub fn select_listener(rows: &[Listener]) -> (r: Result<u32, &'static str>)
    ensures
        match r {
            Ok(pid) => listener_of(rows@) == Ok::<u32, Seq<char>>(pid),
            Err(e) => listener_of(rows@) == Err::<u32, Seq<char>>(e@),
        },
{
    let ghost pred = |l: Listener| on_debug_port(l);
    let n = rows.len();
    let mut count: usize = 0;
    let mut first: Option<Listener> = None;
    let mut i: usize = 0;
    while i < n
        invariant
            n == rows@.len(),
            i <= n,
            pred == (|l: Listener| on_debug_port(l)),
            count == rows@.take(i as int).filter(pred).len(),
            count <= i,
            count > 0 ==> first == Some(rows@.take(i as int).filter(pred)[0]),
        decreases n - i,
    {
        proof {
            assert(rows@.take(i + 1).drop_last() =~= rows@.take(i as int));
            reveal(Seq::filter);
        }
        if rows[i].port == PORT {
            if count == 0 {
                first = Some(rows[i]);
            }
            count = count + 1;
        }
        i = i + 1;
    }
    proof {
        assert(rows@.take(n as int) =~= rows@);
    }
    if count == 0 {
        return Err("debug_required");
    }
    let l = first.unwrap();
    if count != 1 || !(l.address[0] == 127 && l.address[1] == 0 && l.address[2] == 0
        && l.address[3] == 1) {
        proof {
            if count == 1 && l.address@ == seq![127u8, 0, 0, 1] {
                assert(l.address[0] == 127);
            }
        }
        return Err("listener_not_exclusive_loopback");
    }
    proof {
        assert(l.address@ =~= seq![127u8, 0, 0, 1]);
    }
    Ok(l.pid)
}

/// A failed listener check asks for the debugging launch when nothing listens; anything else
/// rejects the connection.
pub fn listener_status(error: &str) -> (r: &'static str)
    ensures
        r@ == (if error@ == "debug_required"@ {
            "debug_required"@
        } else {
            "identity_rejected"@
        }),
{
    if str_eq(error, "debug_required") {
        "debug_required"
    } else {
        "identity_rejected"
    }
}

pub open spec fn codex_pid_detail(version: Seq<char>, pid: u32) -> Seq<char> {
    "Codex "@ + version + " · PID "@ + decimal(pid as nat)
}

/// The one overlay window the bridge attaches to: exactly one must be visible, and it must
/// belong to the listening process instance.
pub open spec fn window_choice(windows: Seq<Window>, pid: u32, owner: Owner) -> Result<
    Window,
    (Seq<char>, Seq<char>),
> {
    if windows.len() == 0 {
        Err(("no_pet"@, codex_pid_detail(owner.version@, pid)))
    } else if windows.len() != 1 {
        Err(("ambiguous"@, "候选窗口："@ + decimal(windows.len())))
    } else if windows[0].owner.pid != pid || windows[0].owner.start != owner.start {
        Err(("identity_rejected"@, "listener_window_owner_mismatch"@))
    } else {
        Ok(windows[0])
    }
}

pub fn choose_window(windows: &[Window], pid: u32, owner: &Owner) -> (r: Result<Window, Status>)
    ensures
        match r {
            Ok(w) => window_choice(windows@, pid, *owner) == Ok::<Window, (Seq<char>, Seq<char>)>(
                w,
            ),
            Err(s) => window_choice(windows@, pid, *owner) matches Err((c, d)) && status_is(
                s,
                c,
                d,
            ),
        },
{
    if windows.len() == 0 {
        let mut detail = String::from_str("Codex ");
        detail.append(owner.version.as_str());
        detail.append(" · PID ");
        push_decimal(&mut detail, pid as u128);
        return Err(status("no_pet", detail.as_str()));
    }
    if windows.len() != 1 {
        let mut detail = String::from_str("候选窗口：");
        push_decimal(&mut detail, windows.len() as u128);
        return Err(status("ambiguous", detail.as_str()));
    }
    let w = &windows[0];
    if w.owner.pid != pid || w.owner.start != owner.start {
        return Err(status("identity_rejected", "listener_window_owner_mismatch"));
    }
    Ok(w.copied())
}

/// A debugging target from the page list, with the fields the bridge reads.
#[derive(Clone, Debug)]
pub struct Target {
    pub kind: Option<String>,
    pub url: Option<String>,
    pub websocket: Option<String>,
}

pub open spec fn is_overlay_page(t: Target) -> bool {
    &&& t.kind matches Some(k) && k@ == "page"@
    &&& t.url matches Some(u) && overlay_url_of(u@)
}

/// The page to attach to: exactly one overlay page, which must name its WebSocket address.
pub open spec fn target_choice(targets: Seq<Target>) -> Result<Seq<char>, (Seq<char>, Seq<char>)> {
    let pages = targets.filter(|t: Target| is_overlay_page(t));
    if pages.len() == 0 {
        Err(("no_pet"@, "宠物页面：0"@))
    } else if pages.len() != 1 {
        Err(("ambiguous"@, "宠物页面："@ + decimal(pages.len())))
    } else {
        match pages[0].websocket {
            Some(w) => Ok(w@),
            None => Err(("disconnected"@, "websocket_url_missing"@)),
        }
    }
}

fn overlay_page(t: &Target) -> (r: bool)
    ensures
        r == is_overlay_page(*t),
{
    match (&t.kind, &t.url) {
        (Some(k), Some(u)) => str_eq(k.as_str(), "page") && overlay_url(u.as_str()),
        _ => false,
    }
}

pub fn choose_target(targets: &[Target]) -> (r: Result<String, Status>)
    ensures
        match r {
            Ok(w) => target_choice(targets@) == Ok::<Seq<char>, (Seq<char>, Seq<char>)>(w@),
            Err(s) => target_choice(targets@) matches Err((c, d)) && status_is(s, c, d),
        },
{
    let ghost pred = |t: Target| is_overlay_page(t);
    let n = targets.len();
    let mut count: usize = 0;
    let mut first: usize = 0;
    let mut i: usize = 0;
    while i < n
        invariant
            n == targets@.len(),
            i <= n,
            pred == (|t: Target| is_overlay_page(t)),
            count == targets@.take(i as int).filter(pred).len(),
            count <= i,
            first < n || count == 0,
            count > 0 ==> targets@[first as int] == targets@.take(i as int).filter(pred)[0],
        decreases n - i,
    {
        proof {
            assert(targets@.take(i + 1).drop_last() =~= targets@.take(i as int));
            reveal(Seq::filter);
        }
        if overlay_page(&targets[i]) {
            if count == 0 {
                first = i;
            }
            count = count + 1;
        }
        i = i + 1;
    }
    proof {
        assert(targets@.take(n as int) =~= targets@);
        reveal_strlit("0");
        assert(decimal(0) == seq!['0']);
    }
    if count == 0 {
        return Err(status("no_pet", "宠物页面：0"));
    }
    if count != 1 {
        let mut detail = String::from_str("宠物页面：");
        push_decimal(&mut detail, count as u128);
        return Err(status("ambiguous", detail.as_str()));
    }
    match &targets[first].websocket {
        Some(w) => Ok(w.clone()),
        None => Err(status("disconnected", "websocket_url_missing")),
    }
}

pub open spec fn probe_detail(version: Seq<char>, pid: u32, hwnd: usize, style: u32) -> Seq<char> {
    codex_pid_detail(version, pid) + " · HWND "@ + decimal(hwnd as nat) + " · 样式 0x"@ + hex8(style)
}

/// The status after the bridge script answered its probe with `code` (`None` when the answer
/// had no code): anything but `ready` stops the connection.
pub fn probe_status(code: Option<&str>, owner: &Owner, pid: u32, w: &Window) -> (r: Option<Status>)
    ensures
        match code {
            Some(c) => if c@ == "ready"@ {
                r is None
            } else {
                r matches Some(s) && status_is(s, c@, probe_detail(owner.version@, pid, w.hwnd, w.style))
            },
            None => r matches Some(s) && status_is(
                s,
                "probe_failed"@,
                probe_detail(owner.version@, pid, w.hwnd, w.style),
            ),
        },
{
    let code = match code {
        Some(c) => {
            if str_eq(c, "ready") {
                return None;
            }
            c
        },
        None => "probe_failed",
    };
    let mut detail = String::from_str("Codex ");
    detail.append(owner.version.as_str());
    detail.append(" · PID ");
    push_decimal(&mut detail, pid as u128);
    detail.append(" · HWND ");
    push_decimal(&mut detail, w.hwnd as u128);
    detail.append(" · 样式 0x");
    push_hex8(&mut detail, w.style);
    Some(status(code, detail.as_str()))
}

/// The answers of the bridge script that keep the connection and yield an input sample.
pub open spec fn keeps_connection(code: Seq<char>) -> bool {
    code == "ready"@ || code == "paused"@ || code == "viewport_mismatch"@ || code
        == "sprite_v2_required"@
}

pub fn pulse_keeps(code: &str) -> (r: bool)
    ensures
        r == keeps_connection(code@),
{
    str_eq(code, "ready") || str_eq(code, "paused") || str_eq(code, "viewport_mismatch") || str_eq(
        code,
        "sprite_v2_required",
    )
}

/// Input is only measured when the pet is ready and the pointer is over the sprite's solid
/// pixels.
pub fn measures_input(code: &str, input_region: bool) -> (r: bool)
    ensures
        r == (code@ == "ready"@ && input_region),
{
    input_region && str_eq(code, "ready")
}

/// The diagnostic line that explains an input sample.
pub fn health_note(h: InputHealth) -> (r: &'static str)
    ensures
        r@ == (match h {
            InputHealth::Healthy => "实际命中宠物，无需重复修复"@,
            InputHealth::Mismatch => "实体交互区域未命中宠物，继续检查"@,
            _ => "条件不足，未判定故障（需实体区域、无按键、无遮挡且坐标稳定）"@,
        }),
{
    match h {
        InputHealth::Healthy => "实际命中宠物，无需重复修复",
        InputHealth::Mismatch => "实体交互区域未命中宠物，继续检查",
        _ => "条件不足，未判定故障（需实体区域、无按键、无遮挡且坐标稳定）",
    }
}

/// The client area of the pet window and the pointer, in physical pixels.
#[derive(Clone, Copy, Debug, PartialEq, Eq, Structural)]
pub struct Viewport {
    pub x: i32,
    pub y: i32,
    pub width: i32,
    pub height: i32,
    pub cursor_x: i32,
    pub cursor_y: i32,
}

/// A window above the pet in z-order, as the system reported it.
#[derive(Clone, Copy, Debug)]
pub struct Above {
    pub visible: bool,
    pub iconic: bool,
    pub rect: Option<[i32; 4]>,
}

/// How many windows above the pet are examined for occlusion.
pub const OCCLUSION_SCAN: usize = 512;

pub open spec fn occludes(a: Above, x: i32, y: i32) -> bool {
    &&& a.visible
    &&& !a.iconic
    &&& a.rect matches Some(r) && inside(x, y, r)
}

/// The input evidence of one sample. It is only judged when the geometry and pointer did not
/// change during the sample and no pointer button is held. The pet is healthy when the
/// pointer's window is the pet; it is a mismatch only when no visible window above the pet
/// covers the pointer among all windows above it (at most `OCCLUSION_SCAN` are examined);
/// everything else is unknown. `above` lists the windows above the pet from the nearest,
/// and `reached_top` says whether the list ends because no further window exists.
pub open spec fn input_verdict_of(
    before: Viewport,
    after: Option<Viewport>,
    pressed: bool,
    hit_target: bool,
    above: Seq<Above>,
    reached_top: bool,
) -> InputHealth {
    match after {
        None => InputHealth::Unknown,
        Some(v) => if v != before || pressed {
            InputHealth::Unknown
        } else if hit_target {
            InputHealth::Healthy
        } else if exists|i: int|
            0 <= i < above.len() && i < OCCLUSION_SCAN && occludes(
                #[trigger] above[i],
                v.cursor_x,
                v.cursor_y,
            ) {
            InputHealth::Unknown
        } else if reached_top && above.len() < OCCLUSION_SCAN {
            InputHealth::Mismatch
        } else {
            InputHealth::Unknown
        },
    }
}

pub fn input_verdict(
    before: Viewport,
    after: Option<Viewport>,
    pressed: bool,
    hit_target: bool,
    above: &[Above],
    reached_top: bool,
) -> (r: InputHealth)
    ensures
        r == input_verdict_of(before, after, pressed, hit_target, above@, reached_top),
        after == Some(before) && !pressed && !hit_target ==> (r == InputHealth::Mismatch <==> (
        reached_top && above@.len() < OCCLUSION_SCAN && forall|i: int|
            0 <= i < above@.len() ==> !#[trigger] covers_point(
                above@,
                i,
                before.cursor_x,
                before.cursor_y,
            ))),
{
    proof {
        assert forall|j: int| 0 <= j < above@.len() implies (occludes(
            #[trigger] above@[j],
            before.cursor_x,
            before.cursor_y,
        ) <==> covers_point(above@, j, before.cursor_x, before.cursor_y)) by {}
        if after == Some(before) && !pressed && !hit_target {
            law_only_covering_windows_hide_a_mismatch(
                before,
                pressed,
                hit_target,
                above@,
                reached_top,
            );
        }
    }
    let Some(v) = after else {
        return InputHealth::Unknown;
    };
    if v != before || pressed {
        return InputHealth::Unknown;
    }
    if hit_target {
        return InputHealth::Healthy;
    }
    let n = above.len();
    let mut i: usize = 0;
    while i < n && i < OCCLUSION_SCAN
        invariant
            n == above@.len(),
            after == Some(v),
            v == before,
            !pressed,
            !hit_target,
            i <= n,
            i <= OCCLUSION_SCAN,
            forall|j: int|
                0 <= j < n ==> (occludes(#[trigger] above@[j], v.cursor_x, v.cursor_y)
                    <==> covers_point(above@, j, v.cursor_x, v.cursor_y)),
            forall|j: int| 0 <= j < i ==> !occludes(#[trigger] above@[j], v.cursor_x, v.cursor_y),
        decreases n - i,
    {
        let a = above[i];
        let covers = match a.rect {
            Some(r) => a.visible && !a.iconic && point_inside(v.cursor_x, v.cursor_y, &r),
            None => false,
        };
        if covers {
            assert(occludes(above@[i as int], v.cursor_x, v.cursor_y));
            return InputHealth::Unknown;
        }
        i = i + 1;
    }
    if reached_top && n < OCCLUSION_SCAN {
        InputHealth::Mismatch
    } else {
        InputHealth::Unknown
    }
}

/// Whether the `i`-th window above the pet is shown, not minimised, and has a rectangle that
/// contains the point (left and top inclusive, right and bottom exclusive).
pub open spec fn covers_point(above: Seq<Above>, i: int, x: i32, y: i32) -> bool {
    &&& above[i].visible
    &&& !above[i].iconic
    &&& above[i].rect is Some
    &&& above[i].rect->0[0] <= x
    &&& x < above[i].rect->0[2]
    &&& above[i].rect->0[1] <= y
    &&& y < above[i].rect->0[3]
}

/// For a sample that is judged (the viewport did not change, no button is held and the
/// pointer's window is not the pet), only a window above the pet that really covers the
/// pointer keeps the verdict unknown: when none of the examined windows contains the pointer
/// and the scan reached the top within its limit, the verdict is a mismatch; a mismatch is
/// reported only then; and an unknown verdict means a covering window was found or the scan
/// did not reach the top within its limit. A judged sample is never healthy.
pub proof fn law_only_covering_windows_hide_a_mismatch(
    before: Viewport,
    pressed: bool,
    hit_target: bool,
    above: Seq<Above>,
    reached_top: bool,
)
    requires
        !pressed,
        !hit_target,
    ensures
        ({
            let v = input_verdict_of(before, Some(before), pressed, hit_target, above, reached_top);
            let covered = exists|i: int|
                0 <= i < above.len() && i < OCCLUSION_SCAN && #[trigger] covers_point(
                    above,
                    i,
                    before.cursor_x,
                    before.cursor_y,
                );
            &&& v == InputHealth::Mismatch <==> (!covered && reached_top && above.len()
                < OCCLUSION_SCAN)
            &&& v == InputHealth::Unknown <==> (covered || !reached_top || above.len()
                >= OCCLUSION_SCAN)
            &&& v != InputHealth::Healthy
            &&& v != InputHealth::Failed
        }),
{
    let x = before.cursor_x;
    let y = before.cursor_y;
    assert forall|i: int| 0 <= i < above.len() implies (occludes(#[trigger] above[i], x, y)
        <==> covers_point(above, i, x, y)) by {}
}

/// A sample is only judged when the viewport and pointer stayed where they were and no button
/// was held: otherwise, or when the second reading is missing, the verdict is unknown. A
/// judged sample whose pointer window is the pet is healthy, and the pet is healthy only then.
pub proof fn law_only_still_samples_are_judged(
    before: Viewport,
    after: Option<Viewport>,
    pressed: bool,
    hit_target: bool,
    above: Seq<Above>,
    reached_top: bool,
)
    ensures
        after != Some(before) || pressed ==> input_verdict_of(
            before,
            after,
            pressed,
            hit_target,
            above,
            reached_top,
        ) == InputHealth::Unknown,
        after == Some(before) && !pressed && hit_target ==> input_verdict_of(
            before,
            after,
            pressed,
            hit_target,
            above,
            reached_top,
        ) == InputHealth::Healthy,
        input_verdict_of(before, after, pressed, hit_target, above, reached_top)
            == InputHealth::Healthy ==> after == Some(before) && !pressed && hit_target,
        input_verdict_of(before, after, pressed, hit_target, above, reached_top)
            == InputHealth::Mismatch ==> after == Some(before) && !pressed && !hit_target
            && reached_top,
        input_verdict_of(before, after, pressed, hit_target, above, reached_top)
            != InputHealth::Failed,
{
}

/// What the pause handshake acknowledges: the generation whose pause the bridge has honoured,
/// or 0 while it has not.
pub fn pause_acknowledgement(ready: bool, generation: u64) -> (r: u64)
    ensures
        r == (if ready {
            generation
        } else {
            0
        }),
{
    if ready {
        generation
    } else {
        0
    }
}

/// The generation of a new configuration request.
pub fn next_generation(requested: u64) -> (r: u64)
    ensures
        r == (if requested == u64::MAX {
            0
        } else {
            requested + 1
        }),
{
    requested.wrapping_add(1)
}

/// A repair may proceed only when the bridge acknowledged the latest requested pause.
pub fn is_suspended(acknowledged: u64, requested: u64) -> (r: bool)
    ensures
        r == (acknowledged == requested),
{
    acknowledged == requested
}

/// A pause acknowledged for an earlier request never authorizes a repair requested later.
pub proof fn law_stale_pause_acknowledgement(ready: bool, acknowledged_generation: u64, requested: u64)
    requires
        acknowledged_generation != requested,
        requested != 0,
    ensures
        !((if ready {
            acknowledged_generation
        } else {
            0u64
        }) == requested),
{
}


/// How long a lost or closed connection is given to clear its gaze before a pause counts.
pub const CLEANUP_GRACE_MS: u64 = 4000;
/// How long to wait before connecting again.
pub const RETRY_MS: u64 = 3000;

/// The state of the bridge's background loop; the loop itself performs the connections.
#[derive(Clone, Copy, Debug)]
pub struct GazeControl {
    pub enabled: bool,
    pub monitor: bool,
    pub paused: bool,
    pub generation: u64,
    pub safe_after: u64,
    pub retry: u64,
    pub connected: bool,
}

/// What the loop does after handling a command or a timeout.
#[derive(Debug, PartialEq, Eq, Structural)]
pub enum GazeStep {
    /// Neither following nor checking input: only report the pause acknowledgement.
    Idle(u64),
    /// Exchange a sample with the connected page.
    Pulse,
    /// Try to connect.
    Connect,
    /// Nothing to do until the next command or timeout.
    Wait,
}

/// Every acknowledgement is 0 or names the current generation, and a non-zero one is only
/// given while paused.
pub open spec fn honest_ack(c: GazeControl, ack: u64) -> bool {
    ack == 0 || (ack == c.generation && c.paused)
}

impl GazeControl {
    pub fn new(now: u64) -> (r: GazeControl)
        ensures
            !r.enabled && !r.monitor && !r.paused && !r.connected,
            r.generation == 0 && r.safe_after == now && r.retry == now,
    {
        GazeControl {
            enabled: false,
            monitor: false,
            paused: false,
            generation: 0,
            safe_after: now,
            retry: now,
            connected: false,
        }
    }

    /// With nothing to do the loop blocks until the next command; otherwise it wakes every second.
    pub fn blocks(&self) -> (r: bool)
        ensures
            r == !(self.enabled || self.monitor || self.paused),
    {
        !(self.enabled || self.monitor || self.paused)
    }

    /// Apply a configuration request. Returns whether the connection must be dropped and the
    /// status reset, which happens when neither following nor input checking is wanted; a
    /// dropped connection gets the clean-up grace before a pause counts.
    pub fn configure(&mut self, enabled: bool, monitor: bool, paused: bool, generation: u64, now: u64) -> (drop:
        bool)
        requires
            now <= u64::MAX - CLEANUP_GRACE_MS,
        ensures
            drop == (!enabled && !monitor),
            final(self).enabled == enabled && final(self).monitor == monitor && final(self).paused
                == paused,
            final(self).generation == generation,
            final(self).retry == now,
            final(self).connected == (old(self).connected && !drop),
            final(self).safe_after == (if drop && old(self).connected {
                (now + CLEANUP_GRACE_MS) as u64
            } else {
                old(self).safe_after
            }),
    {
        self.generation = generation;
        self.enabled = enabled;
        self.monitor = monitor;
        self.paused = paused;
        let drop = !enabled && !monitor;
        if drop {
            if self.connected {
                self.safe_after = now + CLEANUP_GRACE_MS;
            }
            self.connected = false;
        }
        self.retry = now;
        drop
    }

    /// A launch request is honoured only while following is enabled; the next connection
    /// attempt waits for the application to start.
    pub fn request_launch(&mut self, now: u64) -> (go: bool)
        requires
            now <= u64::MAX - RETRY_MS,
        ensures
            go == old(self).enabled,
            go ==> *final(self) == (GazeControl { retry: (now + RETRY_MS) as u64, ..*old(self) }),
            !go ==> *final(self) == *old(self),
    {
        if self.enabled {
            self.retry = now + RETRY_MS;
            true
        } else {
            false
        }
    }

    /// The next step of the loop.
    pub fn step(&self, now: u64, desktop: bool) -> (r: GazeStep)
        ensures
            r == (if !self.enabled && !self.monitor {
                GazeStep::Idle(
                    pause_ack_of(self.paused && now >= self.safe_after, self.generation),
                )
            } else if self.connected {
                GazeStep::Pulse
            } else if now >= self.retry && !self.paused && desktop {
                GazeStep::Connect
            } else {
                GazeStep::Wait
            }),
            r matches GazeStep::Idle(a) ==> honest_ack(*self, a),
    {
        if !self.enabled && !self.monitor {
            GazeStep::Idle(pause_acknowledgement(self.paused && now >= self.safe_after, self.generation))
        } else if self.connected {
            GazeStep::Pulse
        } else if now >= self.retry && !self.paused && desktop {
            GazeStep::Connect
        } else {
            GazeStep::Wait
        }
    }

    /// After a pulse: `answer` is the page's answer code when the connection is kept, `None`
    /// when it was lost. Returns the pause acknowledgement to publish. A lost connection gets
    /// the clean-up grace and a connection retry delay.
    pub fn after_pulse(&mut self, answer: Option<&str>, now: u64) -> (ack: u64)
        requires
            now <= u64::MAX - CLEANUP_GRACE_MS,
        ensures
            honest_ack(*final(self), ack),
            match answer {
                Some(code) => *final(self) == *old(self) && ack == pause_ack_of(
                    old(self).paused && code@ == "paused"@,
                    old(self).generation,
                ),
                None => ack == 0 && *final(self) == (GazeControl {
                    connected: false,
                    safe_after: (now + CLEANUP_GRACE_MS) as u64,
                    retry: (now + RETRY_MS) as u64,
                    ..*old(self)
                }),
            },
    {
        match answer {
            Some(code) => pause_acknowledgement(self.paused && str_eq(code, "paused"), self.generation),
            None => {
                self.connected = false;
                self.safe_after = now + CLEANUP_GRACE_MS;
                self.retry = now + RETRY_MS;
                0
            },
        }
    }

    /// After a connection attempt.
    pub fn after_connect(&mut self, connected: bool, now: u64)
        requires
            now <= u64::MAX - RETRY_MS,
        ensures
            *final(self) == (GazeControl { connected, retry: (now + RETRY_MS) as u64, ..*old(self) }),
    {
        self.connected = connected;
        self.retry = now + RETRY_MS;
    }

    /// While paused without a connection, the pause is acknowledged once the clean-up grace
    /// has passed.
    pub fn idle_ack(&self, now: u64) -> (r: Option<u64>)
        ensures
            r == (if self.paused && !self.connected {
                Some(pause_ack_of(now >= self.safe_after, self.generation))
            } else {
                None
            }),
            r matches Some(a) ==> honest_ack(*self, a),
    {
        if self.paused && !self.connected {
            Some(pause_acknowledgement(now >= self.safe_after, self.generation))
        } else {
            None
        }
    }
}

pub open spec fn pause_ack_of(ready: bool, generation: u64) -> u64 {
    if ready {
        generation
    } else {
        0
    }
}

/// After a connection is lost, no pause is acknowledged before the clean-up grace has passed:
/// the page may still be drawing the last gaze.
pub proof fn law_lost_connection_gets_grace(c: GazeControl, now: u64, later: u64)
    requires
        now <= u64::MAX - CLEANUP_GRACE_MS,
        later < now + CLEANUP_GRACE_MS,
    ensures
        ({
            let lost = GazeControl {
                connected: false,
                safe_after: (now + CLEANUP_GRACE_MS) as u64,
                retry: (now + RETRY_MS) as u64,
                ..c
            };
            &&& (lost.paused ==> pause_ack_of(later >= lost.safe_after, lost.generation) == 0)
        }),
{
}

/// A new status is announced (logged and signalled) only when its code or text changed; the
/// detail alone is replaced silently.
pub fn status_changed(current: &Status, next: &Status) -> (r: bool)
    ensures
        r == !(current.code@ == next.code@ && current.text@ == next.text@),
{
    !(str_eq(current.code.as_str(), next.code.as_str()) && str_eq(
        current.text.as_str(),
        next.text.as_str(),
    ))
}

pub open spec fn pulse_detail_text(
    version: Seq<char>,
    pid: u32,
    hwnd: usize,
    style: u32,
    moves: u64,
    resizes: u64,
) -> Seq<char> {
    probe_detail(version, pid, hwnd, style) + "\n连接：127.0.0.1:19227 · 真实鼠标事件驱动 · 连接检查：1 秒\n本次连接收到鼠标移动："@
        + decimal(moves as nat) + " · 窗口尺寸变化："@ + decimal(resizes as nat)
}

/// The diagnostic detail of a connected bridge.
pub fn pulse_detail(w: &Window, moves: u64, resizes: u64) -> (r: String)
    ensures
        r@ == pulse_detail_text(w.owner.version@, w.owner.pid, w.hwnd, w.style, moves, resizes),
{
    let mut detail = String::from_str("Codex ");
    detail.append(w.owner.version.as_str());
    detail.append(" · PID ");
    push_decimal(&mut detail, w.owner.pid as u128);
    detail.append(" · HWND ");
    push_decimal(&mut detail, w.hwnd as u128);
    detail.append(" · 样式 0x");
    push_hex8(&mut detail, w.style);
    detail.append("\n连接：127.0.0.1:19227 · 真实鼠标事件驱动 · 连接检查：1 秒\n本次连接收到鼠标移动：");
    push_decimal(&mut detail, moves as u128);
    detail.append(" · 窗口尺寸变化：");
    push_decimal(&mut detail, resizes as u128);
    detail
}
} // verus!
