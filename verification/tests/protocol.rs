use pet_repair::protocol::{
    accept_byte, accept_chunk, change_event, pipe_name, pipe_path, reply_outcome, request_for,
    backend_path, retry_open, trusted_peer, ClientError, LineStep, UiState,
};

#[test]
fn names_carry_the_session() {
    assert_eq!(change_event(3), "Local\\CodexPetRepair-ui-state-v1-3");
    assert_eq!(change_event(4_294_967_295), "Local\\CodexPetRepair-ui-state-v1-4294967295");
    assert_eq!(pipe_name(0), "CodexPetRepair-v2-0");
    assert_eq!(pipe_path(12), "\\\\.\\pipe\\CodexPetRepair-v2-12");
}

#[test]
fn request_lines_are_bounded() {
    let mut data = Vec::new();
    assert_eq!(accept_byte(&mut data, b'a'), LineStep::More);
    assert_eq!(accept_byte(&mut data, b'\n'), LineStep::Complete);
    assert_eq!(data, b"a");
    let mut long = vec![b'x'; 16383];
    assert_eq!(accept_byte(&mut long, b'y'), LineStep::TooLarge);
    let mut bytes = Vec::new();
    assert_eq!(accept_chunk(&mut bytes, b"{\"a\""), LineStep::More);
    assert_eq!(accept_chunk(&mut bytes, b":1}\nrest"), LineStep::Complete);
    assert_eq!(bytes, b"{\"a\":1}");
    let mut big = vec![b'x'; 32768];
    assert_eq!(accept_chunk(&mut big, b"y"), LineStep::TooLarge);
}

#[test]
fn requests_and_replies() {
    assert_eq!(request_for("automatic", true).enabled, Some(true));
    assert_eq!(request_for("look_at_mouse", false).enabled, Some(false));
    assert_eq!(request_for("repair", true).enabled, None);
    let state = UiState { automatic: false, status: "failed".into(), ..UiState::default() };
    match reply_outcome(true, Some(Some(state.clone())), Some("save failed".into())) {
        Err(ClientError::Action(m, Some(s))) => {
            assert_eq!(m, "save failed");
            assert!(!s.automatic);
        }
        other => panic!("{other:?}"),
    }
    assert!(matches!(reply_outcome(true, None, Some("clipboard busy".into())), Err(ClientError::Action(_, None))));
    assert!(matches!(reply_outcome(false, None, None), Err(ClientError::Connection(_))));
    assert!(matches!(reply_outcome(true, Some(None), None), Err(ClientError::Connection(_))));
    assert!(matches!(reply_outcome(true, None, None), Err(ClientError::Connection(_))));
    assert_eq!(reply_outcome(true, Some(Some(state)), None).unwrap().status, "failed");
}

#[test]
fn published_state_compares_every_field() {
    let a = UiState { status: "s".into(), revision: 3, ..UiState::default() };
    let mut b = UiState { status: "s".into(), revision: 3, ..UiState::default() };
    assert!(a.same_as(&b));
    b.wait_remaining_ms = 1;
    assert!(!a.same_as(&b));
    b.wait_remaining_ms = 0;
    b.hint = "h".into();
    assert!(!a.same_as(&b));
}

#[test]
fn only_this_installation_may_use_the_pipe() {
    let own = r"D:\Pet\PetRepair.exe";
    let ui = r"D:\Pet\ui\PetRepair.UI.exe";
    assert!(trusted_peer(r"d:\pet\petrepair.exe", own, ui));
    assert!(trusted_peer(r"D:\PET\UI\PETREPAIR.UI.EXE", own, ui));
    assert!(!trusted_peer(r"D:\Other\PetRepair.exe", own, ui));
}

/// The reply line read as the published state (absent fields take their defaults), as the
/// interface does before the library decodes it.
fn state_of(bytes: &[u8]) -> Option<UiState> {
    let v = serde_json::from_slice::<serde_json::Value>(bytes).ok()?;
    let text = |k: &str| v.get(k).map(|x| x.as_str().map(String::from));
    let flag = |k: &str| v.get(k).map(|x| x.as_bool());
    let number = |k: &str| v.get(k).map(|x| x.as_u64());
    Some(UiState {
        status: text("status").unwrap_or(Some(String::new()))?,
        hint: text("hint").unwrap_or(Some(String::new()))?,
        automatic_status: text("automatic_status").unwrap_or(Some(String::new()))?,
        automatic: flag("automatic").unwrap_or(Some(false))?,
        autostart: flag("autostart").unwrap_or(Some(false))?,
        tray_only: flag("tray_only").unwrap_or(Some(false))?,
        look_at_mouse: flag("look_at_mouse").unwrap_or(Some(false))?,
        busy: flag("busy").unwrap_or(Some(false))?,
        can_repair: flag("can_repair").unwrap_or(Some(false))?,
        awaiting_confirmation: flag("awaiting_confirmation").unwrap_or(Some(false))?,
        revision: number("revision").unwrap_or(Some(0))?,
        wait_remaining_ms: number("wait_remaining_ms").unwrap_or(Some(0))?,
    })
}

fn decode(bytes: &[u8]) -> Result<UiState, ClientError> {
    pet_repair::protocol::decode(bytes, state_of(bytes))
}

#[test]
fn action_errors_preserve_authoritative_settings() {
    let result = decode(
        br#"{"status":"failed","automatic":false,"look_at_mouse":true,"error":"save failed"}"#,
    );
    assert!(matches!(
        result,
        Err(ClientError::Action(_, Some(state))) if !state.automatic && state.look_at_mouse
    ));
    assert!(matches!(decode(br#"{"error":"clipboard busy"}"#), Err(ClientError::Action(_, None))));
    assert!(matches!(decode(b"broken"), Err(ClientError::Connection(_))));
}

#[test]
fn replies_are_decoded_from_their_bytes() {
    let state = decode(br#"{"status":"ok","automatic":true,"revision":4}"#).unwrap();
    assert!(state.automatic && state.revision == 4 && state.status == "ok");
    assert!(matches!(decode(br#"{"status":7}"#), Err(ClientError::Connection(m)) if m == "后台状态格式无效"));
    assert!(matches!(decode(br#"{"revision":1}"#), Err(ClientError::Connection(_))));
    assert!(matches!(decode(br#"{"error":5}"#), Err(ClientError::Connection(_))));
}

#[test]
fn pipe_opening_retries_only_while_waiting_makes_sense() {
    assert!(retry_open(231, 0, 1000));
    assert!(retry_open(2, 999, 1000));
    assert!(!retry_open(2, 1000, 1000));
    assert!(!retry_open(5, 0, 1000));
}

#[test]
fn the_background_lies_above_the_interface() {
    assert_eq!(
        backend_path(r"D:\Pet\ui\PetRepair.UI.exe").as_deref(),
        Some(r"D:\Pet\PetRepair.exe")
    );
    assert_eq!(backend_path(r"C:\ui\x.exe").as_deref(), Some(r"C:\PetRepair.exe"));
    assert_eq!(backend_path("D:/a/b/c.exe").as_deref(), Some(r"D:/a\PetRepair.exe"));
    assert_eq!(backend_path(r"ui\x.exe"), None);
    assert_eq!(backend_path("x.exe"), None);
}
