use nirikit::ipc::{
    acknowledges, decode_reply, event_stream_request, payload_member, windows_request, Action,
    member_u64, read_event_line, Bootstrap, EventError, EventLine, InitialEvent, NiriIpc,
    ReplyError,
};
use nirikit::model::{Window, Workspace};
use std::path::PathBuf;

#[test]
fn action_requests_are_serde_json_text() {
    assert_eq!(
        Action::MoveWindowToWorkspace { window_id: 5, workspace_id: 3, focus: true }.request(),
        r#"{"Action":{"MoveWindowToWorkspace":{"focus":true,"reference":{"Id":3},"window_id":5}}}"#
    );
    assert_eq!(
        Action::MoveWindowToWorkspace { window_id: 18446744073709551615, workspace_id: 0, focus: false }.request(),
        r#"{"Action":{"MoveWindowToWorkspace":{"focus":false,"reference":{"Id":0},"window_id":18446744073709551615}}}"#
    );
    assert_eq!(Action::FocusWindow { id: 42 }.request(), r#"{"Action":{"FocusWindow":{"id":42}}}"#);
    assert_eq!(
        Action::MoveColumnToIndex { index: 2 }.request(),
        r#"{"Action":{"MoveColumnToIndex":{"index":2}}}"#
    );
    assert_eq!(Action::MoveColumnToFirst.request(), r#"{"Action":{"MoveColumnToFirst":{}}}"#);
    assert_eq!(Action::MoveColumnToLast.request(), r#"{"Action":{"MoveColumnToLast":{}}}"#);
}

#[test]
fn plain_requests() {
    assert_eq!(windows_request(), "\"Windows\"");
    assert_eq!(event_stream_request(), "\"EventStream\"");
}

#[test]
fn ipc_keeps_its_socket() {
    let ipc = NiriIpc::new(PathBuf::from("/tmp/niri.sock"));
    assert_eq!(ipc.socket(), &PathBuf::from("/tmp/niri.sock"));
}

fn object(pairs: Vec<(&str, serde_json::Value)>) -> serde_json::Value {
    let mut map = serde_json::Map::new();
    for (k, v) in pairs {
        map.insert(k.to_owned(), v);
    }
    serde_json::Value::Object(map)
}

#[test]
fn requests_match_serde_json_serialization() {
    let action = |body: serde_json::Value| serde_json::to_string(&object(vec![("Action", body)])).unwrap();
    let expected = action(object(vec![(
        "MoveWindowToWorkspace",
        object(vec![
            ("window_id", serde_json::Value::from(77u64)),
            ("reference", object(vec![("Id", serde_json::Value::from(12u64))])),
            ("focus", serde_json::Value::from(false)),
        ]),
    )]));
    assert_eq!(
        Action::MoveWindowToWorkspace { window_id: 77, workspace_id: 12, focus: false }.request(),
        expected
    );
    let expected = action(object(vec![(
        "MoveColumnToIndex",
        object(vec![("index", serde_json::Value::from(4294967295u64))]),
    )]));
    assert_eq!(Action::MoveColumnToIndex { index: 4294967295 }.request(), expected);
    let expected = action(object(vec![("MoveColumnToLast", object(vec![]))]));
    assert_eq!(Action::MoveColumnToLast.request(), expected);
    assert_eq!(windows_request(), serde_json::to_string(&serde_json::Value::from("Windows")).unwrap());
}

fn workspace(id: u64) -> Workspace {
    Workspace { id, idx: 1, name: None, output: None, is_focused: true }
}

fn window(id: u64) -> Window {
    Window { id, app_id: None, pid: None, workspace_id: None, is_focused: false }
}

#[test]
fn bootstrap_waits_for_both_lists() {
    let mut b = Bootstrap::new();
    assert!(!b.is_complete());
    b.handle(InitialEvent::Other);
    assert!(!b.is_complete());
    b.handle(InitialEvent::WindowsChanged(vec![window(4)]));
    assert!(!b.is_complete());
    b.handle(InitialEvent::WorkspacesChanged(vec![workspace(1)]));
    assert!(b.is_complete());
    let st = b.finish().unwrap();
    assert_eq!(st.workspaces, vec![workspace(1)]);
    assert_eq!(st.windows, vec![window(4)]);
}

#[test]
fn bootstrap_keeps_the_latest_list() {
    let mut b = Bootstrap::new();
    b.handle(InitialEvent::WorkspacesChanged(vec![workspace(1)]));
    b.handle(InitialEvent::WorkspacesChanged(vec![workspace(2), workspace(3)]));
    b.handle(InitialEvent::WindowsChanged(vec![]));
    let st = b.finish().unwrap();
    assert_eq!(st.workspaces, vec![workspace(2), workspace(3)]);
    assert!(st.windows.is_empty());
}

#[test]
fn bootstrap_without_windows_gives_nothing() {
    let mut b = Bootstrap::new();
    b.handle(InitialEvent::WorkspacesChanged(vec![workspace(1)]));
    assert!(b.finish().is_none());
}

#[test]
fn decodes_errors() {
    let error = decode_reply(r#"{"Err":"bad action"}"#).unwrap_err();
    assert!(error.message().contains("bad action"));
}

#[test]
fn reply_outcomes() {
    assert_eq!(decode_reply(r#"{ "Ok" : "Handled" }"#), Ok(r#""Handled""#.to_owned()));
    assert_eq!(
        decode_reply("{\"Ok\": {\"Windows\": [ ]}, \"Err\": 1}\n"),
        Ok(r#"{"Windows":[]}"#.to_owned())
    );
    assert_eq!(
        decode_reply(r#"{"Err": "bad action"}"#),
        Err(ReplyError::Rejected(r#""bad action""#.to_owned()))
    );
    assert_eq!(
        decode_reply(r#"{"Err": "bad action"}"#).unwrap_err().message(),
        r#"niri rejected the request: "bad action""#
    );
    let invalid = decode_reply("not json").unwrap_err();
    assert!(matches!(invalid, ReplyError::Invalid(_)));
    assert!(invalid.message().starts_with("invalid niri reply JSON: "));
    assert!(invalid.message().contains("line 1 column"));
    let e = decode_reply(r#"{ "Other": true }"#).unwrap_err();
    assert_eq!(e, ReplyError::Unexpected(r#"{"Other":true}"#.to_owned()));
    assert_eq!(e.message(), r#"unexpected niri reply: {"Other":true}"#);
    assert_eq!(
        decode_reply(r#"["Ok"]"#),
        Err(ReplyError::Unexpected(r#"["Ok"]"#.to_owned()))
    );
}

#[test]
fn acknowledgements() {
    assert!(acknowledges(r#""Handled""#));
    assert!(acknowledges(r#"{"Handled": null}"#));
    assert!(!acknowledges(r#""Other""#));
    assert!(!acknowledges(r#"{"Windows": []}"#));
    assert!(!acknowledges("Handled"));
    assert!(!acknowledges("[]"));
}

#[test]
fn payload_members() {
    assert_eq!(
        payload_member(r#"{"Windows": [ {"id": 1} ]}"#, "Windows"),
        Some(r#"[{"id":1}]"#.to_owned())
    );
    assert_eq!(payload_member(r#"{"Windows": []}"#, "Workspaces"), None);
    assert_eq!(payload_member(r#""Handled""#, "Windows"), None);
    assert_eq!(payload_member("{", "Windows"), None);
}

#[test]
fn parses_window_open_event() {
    let line = "{\"WindowOpenedOrChanged\": {\"window\": {\"id\": 7, \"app_id\": \"kitty\", \
                \"pid\": 123, \"workspace_id\": 2, \"is_focused\": true}}}";
    let event = read_event_line(line, false).unwrap();
    let EventLine::WindowOpenedOrChanged(window) = event else {
        panic!("unexpected event")
    };
    let window: serde_json::Value = serde_json::from_str(&window).unwrap();
    assert_eq!(window.get("id").and_then(serde_json::Value::as_u64), Some(7));
    assert_eq!(window.get("pid").and_then(serde_json::Value::as_u64), Some(123));
    assert_eq!(member_u64(r#"{"window": {"id": 7}}"#, "window"), None);
}

#[test]
fn event_lines_after_the_initial_state() {
    assert_eq!(
        read_event_line(r#"{"WindowsChanged": {"windows": [ ]}}"#, false),
        Ok(EventLine::WindowsChanged("[]".to_owned()))
    );
    assert_eq!(read_event_line(r#"{"WindowsChanged": {}}"#, false), Err(EventError::NoWindows));
    assert_eq!(
        read_event_line(r#"{"WindowOpenedOrChanged": {"win": 1}}"#, false),
        Err(EventError::NoWindow)
    );
    assert_eq!(read_event_line(r#"{"WindowClosed": {"id": 12}}"#, false), Ok(EventLine::WindowClosed(12)));
    assert_eq!(read_event_line(r#"{"WindowClosed": {"id": -1}}"#, false), Err(EventError::NoId));
    assert_eq!(
        read_event_line(r#"{"WindowClosed": {"id": 1.5}}"#, false).unwrap_err().message(),
        "WindowClosed event has no ID"
    );
    assert_eq!(
        read_event_line(r#"{"WindowFocusChanged": {"id": 3}}"#, false),
        Ok(EventLine::WindowFocusChanged(Some(3)))
    );
    assert_eq!(
        read_event_line(r#"{"WindowFocusChanged": {"id": null}}"#, false),
        Ok(EventLine::WindowFocusChanged(None))
    );
    assert_eq!(
        read_event_line(r#"{"WorkspacesChanged": {"workspaces": []}}"#, false),
        Ok(EventLine::Other)
    );
    assert_eq!(read_event_line(r#""Unknown""#, false), Ok(EventLine::Other));
    let e = read_event_line("{", false).unwrap_err();
    assert!(matches!(e, EventError::Invalid(_)));
    assert!(e.message().starts_with("invalid niri event JSON: "));
}

#[test]
fn event_lines_of_the_initial_state() {
    assert_eq!(
        read_event_line(r#"{"WorkspacesChanged": {"workspaces": [ {"id": 1} ]}}"#, true),
        Ok(EventLine::WorkspacesChanged(r#"[{"id":1}]"#.to_owned()))
    );
    assert_eq!(
        read_event_line(r#"{"WorkspacesChanged": {}}"#, true).unwrap_err().message(),
        "WorkspacesChanged event has no workspaces"
    );
    assert_eq!(
        read_event_line(r#"{"WindowsChanged": {"windows": []}}"#, true),
        Ok(EventLine::WindowsChanged("[]".to_owned()))
    );
    assert_eq!(read_event_line(r#"{"WindowClosed": {}}"#, true), Ok(EventLine::Other));
    assert_eq!(read_event_line(r#"{"WindowOpenedOrChanged": {}}"#, true), Ok(EventLine::Other));
}
