use pet_repair::transport::{
    answer_of, frame_error, overlay_url, reply_kind, reply_of, websocket_path, within_limit, Frame,
    Reply, LIMIT,
};

#[test]
fn endpoints_are_exact_and_local() {
    assert_eq!(
        websocket_path("ws://127.0.0.1:19227/devtools/page/ABC-123"),
        Some("/devtools/page/ABC-123")
    );
    for url in [
        "ws://localhost:19227/devtools/page/a",
        "ws://127.0.0.1:9222/devtools/page/a",
        "ws://127.0.0.1:19227/devtools/page/../browser/a",
        "ws://127.0.0.1:19227/devtools/page/a?x",
        "ws://127.0.0.1:19227/devtools/page/",
    ] {
        assert!(websocket_path(url).is_none());
    }
}

#[test]
fn routes_do_not_match_by_title_or_substring() {
    assert!(overlay_url(
        "app://-/index.html?initialRoute=%2Favatar-overlay"
    ));
    assert!(overlay_url("app://-/avatar-overlay"));
    for url in [
        "https://example.org/avatar-overlay",
        "app://-/avatar-overlay-fake",
        "app://-/index.html?title=avatar-overlay",
        "app://-/index.html?initialRoute=/avatar-overlay&initialRoute=/chat",
    ] {
        assert!(!overlay_url(url));
    }
}

#[test]
fn more_overlay_routes() {
    assert!(overlay_url("file:///C:/x/index.html?a=1&initialRoute=/avatar-overlay&b"));
    assert!(overlay_url("app://-/index.html?initialRoute=%2favatar-overlay"));
    assert!(!overlay_url("file:///avatar-overlay"));
    assert!(!overlay_url("app://-/index.html?initialRoute=/chat"));
    assert!(!overlay_url("app://"));
}

#[test]
fn replies_are_matched_by_id() {
    assert_eq!(reply_kind(Some(99), 1, false, false), Reply::Skip);
    assert_eq!(reply_kind(None, 1, false, false), Reply::Skip);
    assert_eq!(reply_kind(Some(1), 1, false, true), Reply::Failed);
    assert_eq!(reply_kind(Some(1), 1, true, false), Reply::Failed);
    assert_eq!(reply_kind(Some(1), 1, false, false), Reply::Accepted);
    assert_eq!(frame_error(&Frame::Other), Some("websocket_closed_or_binary"));
    assert_eq!(frame_error(&Frame::Control), None);
    assert_eq!(frame_error(&Frame::Text), None);
}

#[test]
fn bodies_are_bounded() {
    assert!(within_limit(0));
    assert!(within_limit(LIMIT));
    assert!(!within_limit(LIMIT + 1));
    assert_eq!(LIMIT, 512 * 1024);
}

#[test]
fn websocket_ignores_events_and_matches_reply_id() {
    assert_eq!(reply_of(r#"{"method":"Page.event"}"#, 1), Ok(Reply::Skip));
    assert_eq!(reply_of(r#"{"id":99}"#, 1), Ok(Reply::Skip));
    let ready = r#"{"id":1,"result":{"result":{"value":{"code":"ready"}}}}"#;
    assert_eq!(reply_of(ready, 1), Ok(Reply::Accepted));
    assert_eq!(answer_of(ready).code.as_deref(), Some("ready"));
}

#[test]
fn websocket_rejects_exception_and_invalid_json() {
    let failed = r#"{"id":1,"result":{"exceptionDetails":{"text":"failure"}}}"#;
    assert_eq!(reply_of(failed, 1), Ok(Reply::Failed));
    assert_eq!(reply_of(r#"{"id":1,"error":{}}"#, 1), Ok(Reply::Failed));
    assert_eq!(reply_of("not json", 1), Err("websocket_invalid_json"));
}

#[test]
fn renderer_answers_are_read_field_by_field() {
    let a = answer_of(
        r#"{"id":2,"result":{"result":{"value":{"code":"paused","moves":7,"resizes":1,"inputRegion":true}}}}"#,
    );
    assert_eq!(a.code_or_invalid(), "paused");
    assert_eq!((a.moves, a.resizes, a.input_region), (Some(7), Some(1), true));
    let b = answer_of(r#"{"id":2,"result":{"result":{"value":{"code":3,"inputRegion":"yes"}}}}"#);
    assert_eq!(b.code_or_invalid(), "invalid_response");
    assert_eq!((b.moves, b.input_region), (None, false));
    assert!(answer_of("garbage").code.is_none());
}
