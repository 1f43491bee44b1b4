//! niri's IPC: the state and events it reports, and the request lines this
//! program sends it.
//!
//! Each request is one line of JSON, written as serde_json writes the value
//! (object keys in increasing order, no spaces).

use std::path::PathBuf;

use vstd::prelude::*;

use crate::model::{Window, Workspace};
use crate::lists::{first_where, lemma_first_where_prefix, lemma_first_where_step};
use crate::text::{decimal_string, decimal_text, opt_view, owned, push_all, str_eq};

verus! {

/// The workspaces and windows niri reports when the event stream opens.
#[derive(Debug)]
pub struct InitialState {
    pub workspaces: Vec<Workspace>,
    pub windows: Vec<Window>,
}

/// An event of niri's event stream, as far as this program reads it.
#[derive(Debug)]
pub enum Event {
    WindowsChanged(Vec<Window>),
    WindowOpenedOrChanged(Window),
    WindowClosed(u64),
    WindowFocusChanged(Option<u64>),
    Other,
}

/// An event read while the event stream reports its initial state, as far as
/// that start reads it.
#[derive(Debug)]
pub enum InitialEvent {
    WorkspacesChanged(Vec<Workspace>),
    WindowsChanged(Vec<Window>),
    Other,
}

/// What has been learned of niri's state since the event stream opened: the
/// latest list of workspaces and of windows, each once it has arrived.
#[derive(Debug)]
pub struct Bootstrap {
    pub workspaces: Option<Vec<Workspace>>,
    pub windows: Option<Vec<Window>>,
}

/// The state after one more event: a list that arrives replaces the one of
/// its kind held before; other events change nothing.
pub open spec fn bootstrap_after(b: Bootstrap, e: InitialEvent) -> Bootstrap {
    match e {
        InitialEvent::WorkspacesChanged(ws) => Bootstrap { workspaces: Some(ws), windows: b.windows },
        InitialEvent::WindowsChanged(ws) => Bootstrap { workspaces: b.workspaces, windows: Some(ws) },
        InitialEvent::Other => b,
    }
}

/// Whether both lists have arrived.
pub open spec fn bootstrap_complete(b: Bootstrap) -> bool {
    b.workspaces is Some && b.windows is Some
}

impl Bootstrap {
    /// Nothing learned yet.
    pub fn new() -> (b: Self)
        ensures
            b.workspaces is None,
            b.windows is None,
    {
        Bootstrap { workspaces: None, windows: None }
    }

    /// Takes in one event of the stream.
    pub fn handle(&mut self, event: InitialEvent)
        ensures
            *final(self) == bootstrap_after(*old(self), event),
    {
        match event {
            InitialEvent::WorkspacesChanged(ws) => {
                self.workspaces = Some(ws);
            },
            InitialEvent::WindowsChanged(ws) => {
                self.windows = Some(ws);
            },
            InitialEvent::Other => {},
        }
    }

    /// Whether both lists have arrived, so that reading events can stop.
    pub fn is_complete(&self) -> (r: bool)
        ensures
            r == bootstrap_complete(*self),
    {
        self.workspaces.is_some() && self.windows.is_some()
    }

    /// The initial state, once both lists have arrived.
    pub fn finish(self) -> (r: Option<InitialState>)
        ensures
            r is Some <==> bootstrap_complete(self),
            r matches Some(st) ==> Some(st.workspaces) == self.workspaces && Some(st.windows)
                == self.windows,
    {
        match (self.workspaces, self.windows) {
            (Some(workspaces), Some(windows)) => Some(InitialState { workspaces, windows }),
            _ => None,
        }
    }
}

/// Once both lists have arrived, no later event takes either away.
pub proof fn law_bootstrap_stays_complete(b: Bootstrap, e: InitialEvent)
    requires
        bootstrap_complete(b),
    ensures
        bootstrap_complete(bootstrap_after(b, e)),
{
}

/// After a list of each kind has arrived, in either order, the state holds
/// exactly those two lists.
pub proof fn law_bootstrap_keeps_latest_list(b: Bootstrap, ws: Vec<Workspace>, wins: Vec<Window>)
    ensures
        bootstrap_after(bootstrap_after(b, InitialEvent::WorkspacesChanged(ws)), InitialEvent::WindowsChanged(wins))
            == (Bootstrap { workspaces: Some(ws), windows: Some(wins) }),
        bootstrap_after(bootstrap_after(b, InitialEvent::WindowsChanged(wins)), InitialEvent::WorkspacesChanged(ws))
            == (Bootstrap { workspaces: Some(ws), windows: Some(wins) }),
{
}

/// A connection point to niri: the path of its IPC socket.
pub struct NiriIpc {
    socket: PathBuf,
}

impl NiriIpc {
    /// The path of the socket that requests go to.
    pub closed spec fn socket_path(&self) -> PathBuf {
        self.socket
    }

    /// Talks to niri over the socket at `socket`.
    pub fn new(socket: PathBuf) -> (ipc: Self)
        ensures
            ipc.socket_path() == socket,
    {
        NiriIpc { socket }
    }

    /// The path of the socket.
    pub fn socket(&self) -> (p: &PathBuf)
        ensures
            *p == self.socket_path(),
    {
        &self.socket
    }
}

/// An action niri is asked to perform.
#[derive(Debug, Clone, Copy, PartialEq, Eq, Structural)]
pub enum Action {
    /// Move a window to a workspace given by ID, following it with the focus or not.
    MoveWindowToWorkspace { window_id: u64, workspace_id: u64, focus: bool },
    /// Focus a window.
    FocusWindow { id: u64 },
    /// Move the focused column to a 1-based index on its workspace.
    MoveColumnToIndex { index: u32 },
    /// Move the focused column to the first position on its workspace.
    MoveColumnToFirst,
    /// Move the focused column to the last position on its workspace.
    MoveColumnToLast,
}

/// The JSON text of a boolean.
pub open spec fn bool_text(b: bool) -> Seq<char> {
    if b {
        "true"@
    } else {
        "false"@
    }
}

/// The JSON text of an action.
pub open spec fn action_body_text(a: Action) -> Seq<char> {
    match a {
        Action::MoveWindowToWorkspace { window_id, workspace_id, focus } =>
            "{\"MoveWindowToWorkspace\":{\"focus\":"@ + bool_text(focus) + ",\"reference\":{\"Id\":"@
            + decimal_text(workspace_id as nat) + "},\"window_id\":"@ + decimal_text(
            window_id as nat,
        ) + "}}"@,
        Action::FocusWindow { id } => "{\"FocusWindow\":{\"id\":"@ + decimal_text(id as nat)
            + "}}"@,
        Action::MoveColumnToIndex { index } => "{\"MoveColumnToIndex\":{\"index\":"@
            + decimal_text(index as nat) + "}}"@,
        Action::MoveColumnToFirst => "{\"MoveColumnToFirst\":{}}"@,
        Action::MoveColumnToLast => "{\"MoveColumnToLast\":{}}"@,
    }
}

/// The request that asks niri to perform an action.
pub open spec fn action_request_text(a: Action) -> Seq<char> {
    "{\"Action\":"@ + action_body_text(a) + "}"@
}

impl Action {
    /// The JSON request asking niri to perform this action.
    pub fn request(&self) -> (r: String)
        ensures
            r@ == action_request_text(*self),
    {
        let mut r = owned("{\"Action\":");
        match self {
            Action::MoveWindowToWorkspace { window_id, workspace_id, focus } => {
                push_all(&mut r, "{\"MoveWindowToWorkspace\":{\"focus\":");
                push_all(&mut r, if *focus { "true" } else { "false" });
                push_all(&mut r, ",\"reference\":{\"Id\":");
                push_all(&mut r, decimal_string(*workspace_id).as_str());
                push_all(&mut r, "},\"window_id\":");
                push_all(&mut r, decimal_string(*window_id).as_str());
                push_all(&mut r, "}}");
            },
            Action::FocusWindow { id } => {
                push_all(&mut r, "{\"FocusWindow\":{\"id\":");
                push_all(&mut r, decimal_string(*id).as_str());
                push_all(&mut r, "}}");
            },
            Action::MoveColumnToIndex { index } => {
                push_all(&mut r, "{\"MoveColumnToIndex\":{\"index\":");
                push_all(&mut r, decimal_string(*index as u64).as_str());
                push_all(&mut r, "}}");
            },
            Action::MoveColumnToFirst => {
                push_all(&mut r, "{\"MoveColumnToFirst\":{}}");
            },
            Action::MoveColumnToLast => {
                push_all(&mut r, "{\"MoveColumnToLast\":{}}");
            },
        }
        push_all(&mut r, "}");
        r
    }
}

/// The request for the list of windows.
pub fn windows_request() -> (r: String)
    ensures
        r@ == "\"Windows\""@,
{
    owned("\"Windows\"")
}

/// The request that opens the event stream.
pub fn event_stream_request() -> (r: String)
    ensures
        r@ == "\"EventStream\""@,
{
    owned("\"EventStream\"")
}

// ---------------------------------------------------------------------------
// JSON as niri's replies and events are read
// ---------------------------------------------------------------------------

/// The shape of a JSON value, as far as replies and events are read: a
/// string, a number (with its value where it reads as a `u64`), an object
/// with each member's name and the compact JSON text of its value (in the
/// order of serde_json's map), or anything else.
#[derive(Debug)]
pub enum JsonShape {
    Str(String),
    Number(Option<u64>),
    Object(Vec<(String, String)>),
    Other,
}

/// A JSON value: its compact JSON text and its shape.
#[derive(Debug)]
pub struct Json {
    pub text: String,
    pub shape: JsonShape,
}

/// The mathematical content of a [`JsonShape`].
pub enum JsonShapeView {
    Str(Seq<char>),
    Number(Option<u64>),
    Object(Seq<(Seq<char>, Seq<char>)>),
    Other,
}

/// The mathematical content of a [`Json`].
pub struct JsonView {
    pub text: Seq<char>,
    pub shape: JsonShapeView,
}

/// The text of both parts of a member.
pub open spec fn member_view(m: (String, String)) -> (Seq<char>, Seq<char>) {
    (m.0@, m.1@)
}

/// The text of both parts of each member.
pub open spec fn members_view(ms: Seq<(String, String)>) -> Seq<(Seq<char>, Seq<char>)> {
    ms.map_values(|m: (String, String)| member_view(m))
}

impl View for Json {
    type V = JsonView;

    open spec fn view(&self) -> JsonView {
        JsonView {
            text: self.text@,
            shape: match self.shape {
                JsonShape::Str(s) => JsonShapeView::Str(s@),
                JsonShape::Number(n) => JsonShapeView::Number(n),
                JsonShape::Object(ms) => JsonShapeView::Object(members_view(ms@)),
                JsonShape::Other => JsonShapeView::Other,
            },
        }
    }
}

/// A parse taken by its view.
pub open spec fn json_result_view(r: Result<Json, String>) -> Result<JsonView, Seq<char>> {
    match r {
        Ok(j) => Ok(j@),
        Err(e) => Err(e@),
    }
}

/// What serde_json reads from a text as a `serde_json::Value`, held as a
/// [`JsonView`]; where the text is not JSON, serde_json's message saying
/// why. A function of the text alone.
pub uninterp spec fn json_of(text: Seq<char>) -> Result<JsonView, Seq<char>>;

/// `serde_json::from_str` into a `serde_json::Value`, converted: an error
/// becomes its `Display`; the value's compact text is its `Display`, a
/// string keeps its text, a number keeps what `as_u64` reads of it, and an
/// object keeps its members in the order of serde_json's map, each value by
/// its `Display`. The contract names the result as a function of the text;
/// JSON's grammar, serde_json's messages and its map order are not restated.
#[verifier::external_body]
fn parse_json(text: &str) -> (r: Result<Json, String>)
    ensures
        json_result_view(r) == json_of(text@),
{
    let value: serde_json::Value = match serde_json::from_str(text) {
        Ok(v) => v,
        Err(e) => return Err(e.to_string()),
    };
    let text = value.to_string();
    let shape = match value {
        serde_json::Value::String(s) => JsonShape::Str(s),
        serde_json::Value::Number(n) => JsonShape::Number(n.as_u64()),
        serde_json::Value::Object(m) => JsonShape::Object(m.into_iter().map(|(k, v)| (k, v.to_string())).collect()),
        _ => JsonShape::Other,
    };
    Ok(Json { text, shape })
}

/// The member has the given name.
pub open spec fn member_named(name: Seq<char>) -> spec_fn((Seq<char>, Seq<char>)) -> bool {
    |m: (Seq<char>, Seq<char>)| m.0 == name
}

/// The text of the value of the member `name`, where the value is an object
/// that has one.
pub open spec fn json_member(j: JsonView, name: Seq<char>) -> Option<Seq<char>> {
    match j.shape {
        JsonShapeView::Object(ms) => match first_where(ms, member_named(name)) {
            Some(m) => Some(m.1),
            None => None,
        },
        _ => None,
    }
}

/// The text of the value of the member `name` of the JSON value written as
/// `text`, where that is an object that has one.
pub open spec fn text_member(text: Seq<char>, name: Seq<char>) -> Option<Seq<char>> {
    match json_of(text) {
        Ok(j) => json_member(j, name),
        Err(_) => None,
    }
}

/// The member `name` of the JSON value written as `text`, where it is a
/// number that reads as a `u64`.
pub open spec fn member_u64_of(text: Seq<char>, name: Seq<char>) -> Option<u64> {
    match text_member(text, name) {
        Some(t) => match json_of(t) {
            Ok(j) => match j.shape {
                JsonShapeView::Number(n) => n,
                _ => None,
            },
            Err(_) => None,
        },
        None => None,
    }
}

/// The text of the value of the member `name` of `j`, where `j` is an
/// object that has one.
pub fn member(j: &Json, name: &str) -> (r: Option<String>)
    ensures
        opt_view(r) == json_member(j@, name@),
{
    match &j.shape {
        JsonShape::Object(ms) => {
            let ghost all = members_view(ms@);
            let ghost p = member_named(name@);
            let mut i: usize = 0;
            while i < ms.len()
                invariant
                    i <= ms.len(),
                    all == members_view(ms@),
                    j@.shape == JsonShapeView::Object(all),
                    p == member_named(name@),
                    first_where(all.take(i as int), p) is None,
                decreases ms.len() - i,
            {
                proof {
                    lemma_first_where_step(all, p, i as int);
                }
                assert(all[i as int] == member_view(ms@[i as int]));
                if str_eq(ms[i].0.as_str(), name) {
                    proof {
                        assert(p(all[i as int]));
                        lemma_first_where_prefix(all, p, i + 1);
                    }
                    let t = ms[i].1.clone();
                    assert(t@ == all[i as int].1);
                    return Some(t);
                }
                i = i + 1;
            }
            assert(all.take(ms.len() as int) =~= all);
            None
        },
        _ => None,
    }
}

/// The JSON text of the value of the member `name` of a value given as JSON
/// text, where the value is an object that has one.
pub fn payload_member(payload: &str, name: &str) -> (r: Option<String>)
    ensures
        opt_view(r) == text_member(payload@, name@),
{
    match parse_json(payload) {
        Ok(j) => member(&j, name),
        Err(_) => None,
    }
}

/// The member `name` of a value given as JSON text, where it is a number
/// that reads as a `u64`.
pub fn member_u64(payload: &str, name: &str) -> (r: Option<u64>)
    ensures
        r == member_u64_of(payload@, name@),
{
    match payload_member(payload, name) {
        Some(t) => match parse_json(t.as_str()) {
            Ok(j) => match j.shape {
                JsonShape::Number(n) => n,
                _ => None,
            },
            Err(_) => None,
        },
        None => None,
    }
}

// ---------------------------------------------------------------------------
// Replies
// ---------------------------------------------------------------------------

/// Why a reply of niri's was not a success.
#[derive(Debug, PartialEq, Eq)]
pub enum ReplyError {
    /// The reply is not JSON; serde_json's message saying why.
    Invalid(String),
    /// niri refused the request; the JSON text of its error.
    Rejected(String),
    /// The reply is neither a success nor an error; its JSON text.
    Unexpected(String),
}

/// The mathematical content of a [`ReplyError`].
pub enum ReplyFailure {
    Invalid(Seq<char>),
    Rejected(Seq<char>),
    Unexpected(Seq<char>),
}

impl View for ReplyError {
    type V = ReplyFailure;

    open spec fn view(&self) -> ReplyFailure {
        match self {
            ReplyError::Invalid(why) => ReplyFailure::Invalid(why@),
            ReplyError::Rejected(e) => ReplyFailure::Rejected(e@),
            ReplyError::Unexpected(t) => ReplyFailure::Unexpected(t@),
        }
    }
}

/// The message for a reply failure, with the reason where there is one.
pub open spec fn reply_failure_text(f: ReplyFailure) -> Seq<char> {
    match f {
        ReplyFailure::Invalid(why) => "invalid niri reply JSON: "@ + why,
        ReplyFailure::Rejected(e) => "niri rejected the request: "@ + e,
        ReplyFailure::Unexpected(t) => "unexpected niri reply: "@ + t,
    }
}

impl ReplyError {
    /// The message shown for this failure.
    pub fn message(&self) -> (m: String)
        ensures
            m@ == reply_failure_text(self@),
    {
        match self {
            ReplyError::Invalid(why) => {
                let mut m = owned("invalid niri reply JSON: ");
                push_all(&mut m, why.as_str());
                m
            },
            ReplyError::Rejected(e) => {
                let mut m = owned("niri rejected the request: ");
                push_all(&mut m, e.as_str());
                m
            },
            ReplyError::Unexpected(t) => {
                let mut m = owned("unexpected niri reply: ");
                push_all(&mut m, t.as_str());
                m
            },
        }
    }
}

/// What a reply means: the JSON text of its `Ok` member; else the error of
/// its `Err` member; else it is unexpected. A reply that is not JSON is
/// invalid.
pub open spec fn reply_outcome(reply: Result<JsonView, Seq<char>>) -> Result<Seq<char>, ReplyFailure> {
    match reply {
        Err(why) => Err(ReplyFailure::Invalid(why)),
        Ok(j) => match json_member(j, "Ok"@) {
            Some(payload) => Ok(payload),
            None => match json_member(j, "Err"@) {
                Some(e) => Err(ReplyFailure::Rejected(e)),
                None => Err(ReplyFailure::Unexpected(j.text)),
            },
        },
    }
}

/// A decoded reply taken by its view.
pub open spec fn reply_view(r: Result<String, ReplyError>) -> Result<Seq<char>, ReplyFailure> {
    match r {
        Ok(p) => Ok(p@),
        Err(e) => Err(e@),
    }
}

/// Whether a payload acknowledges a request: it is the string `Handled`, or
/// an object with a `Handled` member.
pub open spec fn acknowledgement(payload: Result<JsonView, Seq<char>>) -> bool {
    match payload {
        Ok(j) => j.shape == JsonShapeView::Str("Handled"@) || json_member(j, "Handled"@) is Some,
        Err(_) => false,
    }
}

/// Decodes a parsed reply of niri's: the JSON text of its `Ok` member, or
/// why there is none.
pub fn decode_reply_json(j: &Json) -> (r: Result<String, ReplyError>)
    ensures
        reply_view(r) == reply_outcome(Ok(j@)),
{
    match member(j, "Ok") {
        Some(payload) => Ok(payload),
        None => match member(j, "Err") {
            Some(e) => Err(ReplyError::Rejected(e)),
            None => Err(ReplyError::Unexpected(j.text.clone())),
        },
    }
}

/// Decodes a reply line of niri's: the JSON text of its `Ok` member, or why
/// there is none.
pub fn decode_reply(line: &str) -> (r: Result<String, ReplyError>)
    ensures
        reply_view(r) == reply_outcome(json_of(line@)),
{
    match parse_json(line) {
        Ok(j) => decode_reply_json(&j),
        Err(why) => Err(ReplyError::Invalid(why)),
    }
}

/// Whether a parsed payload acknowledges a request.
pub fn acknowledges_json(j: &Json) -> (b: bool)
    ensures
        b == acknowledgement(Ok(j@)),
{
    let handled = match &j.shape {
        JsonShape::Str(s) => str_eq(s.as_str(), "Handled"),
        _ => false,
    };
    handled || member(j, "Handled").is_some()
}

/// Whether a payload, given as JSON text, acknowledges a request.
pub fn acknowledges(payload: &str) -> (b: bool)
    ensures
        b == acknowledgement(json_of(payload@)),
{
    match parse_json(payload) {
        Ok(j) => acknowledges_json(&j),
        Err(_) => false,
    }
}

// ---------------------------------------------------------------------------
// Event lines
// ---------------------------------------------------------------------------

/// An event line of niri's event stream, as far as this program reads it;
/// windows and workspaces are left as the JSON text of their lists or
/// window.
#[derive(Debug, PartialEq, Eq)]
pub enum EventLine {
    WindowsChanged(String),
    WindowOpenedOrChanged(String),
    WindowClosed(u64),
    WindowFocusChanged(Option<u64>),
    WorkspacesChanged(String),
    Other,
}

/// The mathematical content of an [`EventLine`].
pub enum EventLineView {
    WindowsChanged(Seq<char>),
    WindowOpenedOrChanged(Seq<char>),
    WindowClosed(u64),
    WindowFocusChanged(Option<u64>),
    WorkspacesChanged(Seq<char>),
    Other,
}

impl View for EventLine {
    type V = EventLineView;

    open spec fn view(&self) -> EventLineView {
        match self {
            EventLine::WindowsChanged(t) => EventLineView::WindowsChanged(t@),
            EventLine::WindowOpenedOrChanged(t) => EventLineView::WindowOpenedOrChanged(t@),
            EventLine::WindowClosed(id) => EventLineView::WindowClosed(*id),
            EventLine::WindowFocusChanged(id) => EventLineView::WindowFocusChanged(*id),
            EventLine::WorkspacesChanged(t) => EventLineView::WorkspacesChanged(t@),
            EventLine::Other => EventLineView::Other,
        }
    }
}

/// Why an event line could not be read.
#[derive(Debug, PartialEq, Eq)]
pub enum EventError {
    /// The line is not JSON; serde_json's message saying why.
    Invalid(String),
    /// A `WindowsChanged` event without its `windows`.
    NoWindows,
    /// A `WindowOpenedOrChanged` event without its `window`.
    NoWindow,
    /// A `WindowClosed` event without an ID.
    NoId,
    /// A `WorkspacesChanged` event without its `workspaces`.
    NoWorkspaces,
}

/// The mathematical content of an [`EventError`].
pub enum EventFailure {
    Invalid(Seq<char>),
    NoWindows,
    NoWindow,
    NoId,
    NoWorkspaces,
}

impl View for EventError {
    type V = EventFailure;

    open spec fn view(&self) -> EventFailure {
        match self {
            EventError::Invalid(why) => EventFailure::Invalid(why@),
            EventError::NoWindows => EventFailure::NoWindows,
            EventError::NoWindow => EventFailure::NoWindow,
            EventError::NoId => EventFailure::NoId,
            EventError::NoWorkspaces => EventFailure::NoWorkspaces,
        }
    }
}

/// The message for an event failure, with the reason where there is one.
pub open spec fn event_failure_text(f: EventFailure) -> Seq<char> {
    match f {
        EventFailure::Invalid(why) => "invalid niri event JSON: "@ + why,
        EventFailure::NoWindows => "WindowsChanged event has no windows"@,
        EventFailure::NoWindow => "WindowOpenedOrChanged event has no window"@,
        EventFailure::NoId => "WindowClosed event has no ID"@,
        EventFailure::NoWorkspaces => "WorkspacesChanged event has no workspaces"@,
    }
}

impl EventError {
    /// The message shown for this failure.
    pub fn message(&self) -> (m: String)
        ensures
            m@ == event_failure_text(self@),
    {
        match self {
            EventError::Invalid(why) => {
                let mut m = owned("invalid niri event JSON: ");
                push_all(&mut m, why.as_str());
                m
            },
            EventError::NoWindows => owned("WindowsChanged event has no windows"),
            EventError::NoWindow => owned("WindowOpenedOrChanged event has no window"),
            EventError::NoId => owned("WindowClosed event has no ID"),
            EventError::NoWorkspaces => owned("WorkspacesChanged event has no workspaces"),
        }
    }
}

/// The member `inner` of the event's member `outer`, or `missing` where the
/// event has `outer` without `inner`; `None` where it has no `outer`.
pub open spec fn nested_member(
    j: JsonView,
    outer: Seq<char>,
    inner: Seq<char>,
) -> Option<Option<Seq<char>>> {
    match json_member(j, outer) {
        Some(payload) => Some(text_member(payload, inner)),
        None => None,
    }
}

/// What an event line means. While the initial state is read, only
/// `WorkspacesChanged` and `WindowsChanged` count, in that order; after it,
/// `WindowsChanged`, `WindowOpenedOrChanged`, `WindowClosed` and
/// `WindowFocusChanged`, in that order. An event of these kinds must carry
/// its list, window or ID (but for the ID of a focus change, which may be
/// missing); any other event is `Other`. A line that is not JSON is invalid.
pub open spec fn event_line_outcome(
    line: Result<JsonView, Seq<char>>,
    initial: bool,
) -> Result<EventLineView, EventFailure> {
    match line {
        Err(why) => Err(EventFailure::Invalid(why)),
        Ok(j) => if initial {
            match nested_member(j, "WorkspacesChanged"@, "workspaces"@) {
                Some(Some(t)) => Ok(EventLineView::WorkspacesChanged(t)),
                Some(None) => Err(EventFailure::NoWorkspaces),
                None => match nested_member(j, "WindowsChanged"@, "windows"@) {
                    Some(Some(t)) => Ok(EventLineView::WindowsChanged(t)),
                    Some(None) => Err(EventFailure::NoWindows),
                    None => Ok(EventLineView::Other),
                },
            }
        } else {
            match nested_member(j, "WindowsChanged"@, "windows"@) {
                Some(Some(t)) => Ok(EventLineView::WindowsChanged(t)),
                Some(None) => Err(EventFailure::NoWindows),
                None => match nested_member(j, "WindowOpenedOrChanged"@, "window"@) {
                    Some(Some(t)) => Ok(EventLineView::WindowOpenedOrChanged(t)),
                    Some(None) => Err(EventFailure::NoWindow),
                    None => match json_member(j, "WindowClosed"@) {
                        Some(payload) => match member_u64_of(payload, "id"@) {
                            Some(id) => Ok(EventLineView::WindowClosed(id)),
                            None => Err(EventFailure::NoId),
                        },
                        None => match json_member(j, "WindowFocusChanged"@) {
                            Some(payload) => Ok(
                                EventLineView::WindowFocusChanged(member_u64_of(payload, "id"@)),
                            ),
                            None => Ok(EventLineView::Other),
                        },
                    },
                },
            }
        },
    }
}

/// A read event line taken by its view.
pub open spec fn event_line_view(r: Result<EventLine, EventError>) -> Result<
    EventLineView,
    EventFailure,
> {
    match r {
        Ok(e) => Ok(e@),
        Err(f) => Err(f@),
    }
}

/// The member `inner` of the member `outer` of `j`, as `nested_member`
/// gives it.
fn nested(j: &Json, outer: &str, inner: &str) -> (r: Option<Option<String>>)
    ensures
        match r {
            Some(t) => nested_member(j@, outer@, inner@) == Some(opt_view(t)),
            None => nested_member(j@, outer@, inner@) is None,
        },
{
    match member(j, outer) {
        Some(payload) => Some(payload_member(payload.as_str(), inner)),
        None => None,
    }
}

/// Reads a parsed event line; `initial` tells whether the initial state is
/// being read.
pub fn read_event_json(j: &Json, initial: bool) -> (r: Result<EventLine, EventError>)
    ensures
        event_line_view(r) == event_line_outcome(Ok(j@), initial),
{
    if initial {
        match nested(j, "WorkspacesChanged", "workspaces") {
            Some(Some(t)) => Ok(EventLine::WorkspacesChanged(t)),
            Some(None) => Err(EventError::NoWorkspaces),
            None => match nested(j, "WindowsChanged", "windows") {
                Some(Some(t)) => Ok(EventLine::WindowsChanged(t)),
                Some(None) => Err(EventError::NoWindows),
                None => Ok(EventLine::Other),
            },
        }
    } else {
        match nested(j, "WindowsChanged", "windows") {
            Some(Some(t)) => Ok(EventLine::WindowsChanged(t)),
            Some(None) => Err(EventError::NoWindows),
            None => match nested(j, "WindowOpenedOrChanged", "window") {
                Some(Some(t)) => Ok(EventLine::WindowOpenedOrChanged(t)),
                Some(None) => Err(EventError::NoWindow),
                None => match member(j, "WindowClosed") {
                    Some(payload) => match member_u64(payload.as_str(), "id") {
                        Some(id) => Ok(EventLine::WindowClosed(id)),
                        None => Err(EventError::NoId),
                    },
                    None => match member(j, "WindowFocusChanged") {
                        Some(payload) => Ok(
                            EventLine::WindowFocusChanged(member_u64(payload.as_str(), "id")),
                        ),
                        None => Ok(EventLine::Other),
                    },
                },
            },
        }
    }
}

/// Reads an event line of niri's event stream; `initial` tells whether the
/// initial state is being read.
pub fn read_event_line(line: &str, initial: bool) -> (r: Result<EventLine, EventError>)
    ensures
        event_line_view(r) == event_line_outcome(json_of(line@), initial),
{
    match parse_json(line) {
        Ok(j) => read_event_json(&j, initial),
        Err(why) => Err(EventError::Invalid(why)),
    }
}

} // verus!
