use pet_repair::gaze::{
    choose_target, choose_window, display_status, health_note, input_verdict, is_suspended,
    listener_rows, listener_status, measures_input, next_generation, pause_acknowledgement,
    probe_status, pulse_detail, pulse_keeps, select_listener, status, status_changed, Above,
    GazeControl, GazeStep, Listener, Status, Target, Viewport,
};
use pet_repair::identity::{Owner, Window};
use pet_repair::policy::InputHealth;

#[test]
fn a_previous_pause_ack_cannot_authorize_a_new_repair() {
    // The bridge acknowledges a pause by echoing the generation of the request it honoured.
    let mut requested = 0u64;
    let mut acknowledged = u64::MAX;
    assert!(!is_suspended(acknowledged, requested));
    requested = next_generation(requested); // configure(true, true, true)
    acknowledged = pause_acknowledgement(true, 1);
    assert!(is_suspended(acknowledged, requested));
    requested = next_generation(requested); // configure(true, true, false)
    requested = next_generation(requested); // configure(true, true, true)
    acknowledged = pause_acknowledgement(true, 1); // delayed response from the first pause
    assert!(!is_suspended(acknowledged, requested));
    acknowledged = pause_acknowledgement(true, 3);
    assert!(is_suspended(acknowledged, requested));
}

#[test]
fn status_texts() {
    let s = status("ready", "d");
    assert_eq!(s.text, "已连接 · 移动宠物周围的鼠标");
    assert_eq!(s.detail, "d");
    assert_eq!(status("weird", "").text, "此客户端接口暂不兼容 · 可复制诊断摘要");
    let d = Status::default();
    assert_eq!(d.code, "disabled");
    assert_eq!(d.text, "看向鼠标已关闭");
    let shown = display_status(status("ready", "x"), false);
    assert_eq!(shown.code, "disabled");
    assert_eq!(shown.detail, "输入检查：ready\nx");
    let kept = display_status(status("ready", "x"), true);
    assert_eq!(kept.code, "ready");
}

#[test]
fn listener_must_be_exclusive_and_local() {
    let local = Listener { port: 19227, address: [127, 0, 0, 1], pid: 42 };
    let other = Listener { port: 80, address: [0, 0, 0, 0], pid: 1 };
    assert_eq!(select_listener(&[other, local]), Ok(42));
    assert_eq!(select_listener(&[other]), Err("debug_required"));
    let wide = Listener { port: 19227, address: [0, 0, 0, 0], pid: 42 };
    assert_eq!(select_listener(&[wide]), Err("listener_not_exclusive_loopback"));
    assert_eq!(select_listener(&[local, local]), Err("listener_not_exclusive_loopback"));
    assert_eq!(listener_status("debug_required"), "debug_required");
    assert_eq!(listener_status("tcp_table_changed"), "identity_rejected");
}

fn owner() -> Owner {
    Owner { pid: 42, start: 7, version: "26.1".into(), path: "p".into(), test: false }
}

#[test]
fn exactly_one_window_of_the_listener() {
    let w = Window { hwnd: 255, owner: owner(), rect: [0, 0, 1, 1], style: 0x800a8 };
    let err = choose_window(&[], 42, &owner()).unwrap_err();
    assert_eq!(err.code, "no_pet");
    assert_eq!(err.detail, "Codex 26.1 · PID 42");
    let err = choose_window(&[w.clone(), w.clone()], 42, &owner()).unwrap_err();
    assert_eq!(err.detail, "候选窗口：2");
    assert_eq!(choose_window(&[w.clone()], 42, &owner()).unwrap().hwnd, 255);
    let err = choose_window(&[w.clone()], 43, &owner()).unwrap_err();
    assert_eq!(err.code, "identity_rejected");
    let probe = probe_status(Some("no_sprite"), &owner(), 42, &w).unwrap();
    assert_eq!(probe.code, "no_sprite");
    assert_eq!(probe.detail, "Codex 26.1 · PID 42 · HWND 255 · 样式 0x000800A8");
    assert!(probe_status(Some("ready"), &owner(), 42, &w).is_none());
    assert_eq!(probe_status(None, &owner(), 42, &w).unwrap().code, "probe_failed");
}

fn target(kind: &str, url: &str, ws: Option<&str>) -> Target {
    Target { kind: Some(kind.into()), url: Some(url.into()), websocket: ws.map(String::from) }
}

#[test]
fn exactly_one_overlay_page() {
    let page = target("page", "app://-/avatar-overlay", Some("ws://127.0.0.1:19227/devtools/page/A"));
    let chat = target("page", "app://-/chat", Some("x"));
    let worker = target("service_worker", "app://-/avatar-overlay", Some("y"));
    assert_eq!(
        choose_target(&[chat.clone(), page.clone(), worker]).unwrap(),
        "ws://127.0.0.1:19227/devtools/page/A"
    );
    let none = choose_target(&[chat]).unwrap_err();
    assert_eq!((none.code.as_str(), none.detail.as_str()), ("no_pet", "宠物页面：0"));
    let two = choose_target(&[page.clone(), page]).unwrap_err();
    assert_eq!(two.detail, "宠物页面：2");
    let bare = choose_target(&[target("page", "app://-/avatar-overlay", None)]).unwrap_err();
    assert_eq!(bare.detail, "websocket_url_missing");
}

#[test]
fn pulse_answers() {
    for code in ["ready", "paused", "viewport_mismatch", "sprite_v2_required"] {
        assert!(pulse_keeps(code));
    }
    assert!(!pulse_keeps("stopped"));
    assert!(measures_input("ready", true));
    assert!(!measures_input("paused", true));
    assert!(!measures_input("ready", false));
    assert_eq!(health_note(InputHealth::Healthy), "实际命中宠物，无需重复修复");
    assert_eq!(health_note(InputHealth::Unknown), "条件不足，未判定故障（需实体区域、无按键、无遮挡且坐标稳定）");
}

#[test]
fn input_verdicts() {
    let v = Viewport { x: 0, y: 0, width: 10, height: 10, cursor_x: 5, cursor_y: 5 };
    let moved = Viewport { cursor_x: 6, ..v };
    let cover = Above { visible: true, iconic: false, rect: Some([0, 0, 10, 10]) };
    let hidden = Above { visible: false, iconic: false, rect: Some([0, 0, 10, 10]) };
    assert_eq!(input_verdict(v, None, false, true, &[], true), InputHealth::Unknown);
    assert_eq!(input_verdict(v, Some(moved), false, true, &[], true), InputHealth::Unknown);
    assert_eq!(input_verdict(v, Some(v), true, true, &[], true), InputHealth::Unknown);
    assert_eq!(input_verdict(v, Some(v), false, true, &[cover], true), InputHealth::Healthy);
    assert_eq!(input_verdict(v, Some(v), false, false, &[hidden, cover], true), InputHealth::Unknown);
    assert_eq!(input_verdict(v, Some(v), false, false, &[hidden], true), InputHealth::Mismatch);
    assert_eq!(input_verdict(v, Some(v), false, false, &[hidden], false), InputHealth::Unknown);
    let many = vec![hidden; 512];
    assert_eq!(input_verdict(v, Some(v), false, false, &many, true), InputHealth::Unknown);
}

#[test]
fn bridge_loop_decisions() {
    let mut c = GazeControl::new(0);
    assert!(c.blocks());
    assert!(!c.configure(true, true, false, 1, 10));
    assert_eq!(c.step(10, true), GazeStep::Connect);
    assert_eq!(c.step(10, false), GazeStep::Wait);
    c.after_connect(true, 10);
    assert_eq!(c.step(11, true), GazeStep::Pulse);
    assert!(!c.configure(true, true, true, 2, 20));
    assert_eq!(c.after_pulse(Some("paused"), 20), 2);
    assert_eq!(c.after_pulse(Some("ready"), 20), 0);
    assert_eq!(c.after_pulse(None, 30), 0);
    assert_eq!(c.idle_ack(4029), Some(0));
    assert_eq!(c.idle_ack(4030), Some(2));
    assert!(c.configure(false, false, true, 3, 5000));
    assert_eq!(c.step(5000, true), GazeStep::Idle(3));
    assert!(c.request_launch(5000) == false);
}

#[test]
fn pulse_detail_and_status_changes() {
    let w = Window {
        hwnd: 4096,
        owner: owner(),
        rect: [0, 0, 10, 10],
        style: 0x80088,
    };
    assert_eq!(
        pulse_detail(&w, 12, 1),
        "Codex 26.1 · PID 42 · HWND 4096 · 样式 0x00080088\n连接：127.0.0.1:19227 · 真实鼠标事件驱动 · 连接检查：1 秒\n本次连接收到鼠标移动：12 · 窗口尺寸变化：1"
    );
    assert!(!status_changed(&status("ready", "a"), &status("ready", "b")));
    assert!(status_changed(&status("ready", "a"), &status("paused", "a")));
}

#[test]
fn listener_table_rows_are_read_in_network_order() {
    // One row: state, address 127.0.0.1, port 19227 in network order, remote, remote, pid.
    let table = [1u32, 2, 0x0100_007f, 0x1b4b, 0, 0, 4242];
    let rows = listener_rows(&table).unwrap();
    assert_eq!(rows.len(), 1);
    assert_eq!(rows[0].port, 19227);
    assert_eq!(rows[0].address, [127, 0, 0, 1]);
    assert_eq!(rows[0].pid, 4242);
    assert_eq!(select_listener(&rows), Ok(4242));
    assert_eq!(listener_rows(&[]).err(), Some("tcp_table_invalid"));
    assert_eq!(listener_rows(&[2, 0, 0, 0, 0, 0, 0]).err(), Some("tcp_table_invalid"));
    assert_eq!(listener_rows(&[0]).unwrap().len(), 0);
}
