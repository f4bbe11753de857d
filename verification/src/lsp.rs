//! The language server client: the messages it exchanges, the requests and
//! notifications it sends, and the decisions of its event loop. Nothing
//! here reads or writes a stream: every operation takes the bytes that
//! arrived and returns the bytes to send, and the caller moves them.

use crate::correlator::{is_release_of, CloseReason, Correlator, Failed};
use crate::framing::{decimal, decimal_bytes, encode, frame};
use crate::json::{
    bytes_view, completion_params, completion_reply, did_change_params, did_open_params,
    initialize_params, json_completion_params, json_completion_reply, json_did_change_params,
    json_did_open_params, json_initialize_params, json_log_message, json_member,
    json_member_string, json_member_u64, json_object, json_string, log_message, log_view,
    member_bytes, member_string, member_u64, members_view, object_bytes, string_bytes,
    string_view, CompletionReply, LogMessage,
};
use vstd::prelude::*;

verus! {

/// A place in a document: a line and a character offset in it, both from 0.
#[derive(Clone, Copy, Debug, PartialEq, Eq, Structural)]
pub struct Position {
    pub line: u32,
    pub character: u32,
}

/// What the editor asks of the client.
#[derive(Debug)]
pub enum LspMessage {
    /// The document at this URI now has this text, at this version.
    DidChange(String, String, i32),
    /// Completions are wanted in the document at this URI, at this place.
    Completion(String, Position),
}

/// What the client hands back to the editor.
#[derive(Debug)]
pub enum LspResponse {
    /// The completion candidates, in the server's order.
    Completion(Vec<lsp_types::CompletionItem>),
}

/// A message from the server. The payloads are JSON text.
#[derive(Debug)]
pub enum ServerMessage {
    /// The reply to the request with this identifier.
    Response { id: u64, result: Vec<u8> },
    /// A message that answers nothing.
    Notification { method: String, params: Vec<u8> },
}

/// A server message with its strings and bytes as sequences.
pub enum ServerMessageView {
    Response { id: u64, result: Seq<u8> },
    Notification { method: Seq<char>, params: Seq<u8> },
}

impl View for ServerMessage {
    type V = ServerMessageView;

    open spec fn view(&self) -> ServerMessageView {
        match *self {
            ServerMessage::Response { id, result } => ServerMessageView::Response {
                id,
                result: result@,
            },
            ServerMessage::Notification { method, params } => ServerMessageView::Notification {
                method: method@,
                params: params@,
            },
        }
    }
}

/// The view of an optional server message.
pub open spec fn message_view(o: Option<ServerMessage>) -> Option<ServerMessageView> {
    match o {
        Some(m) => Some(m@),
        None => None,
    }
}

/// The message that four members of a JSON object make up. An identifier
/// together with a result is a response, whatever else is there; failing
/// that, a method together with parameters is a notification; anything else
/// is no message.
pub open spec fn message_shape(
    id: Option<u64>,
    result: Option<Seq<u8>>,
    method: Option<Seq<char>>,
    params: Option<Seq<u8>>,
) -> Option<ServerMessageView> {
    if id is Some && result is Some {
        Some(ServerMessageView::Response { id: id->0, result: result->0 })
    } else if method is Some && params is Some {
        Some(ServerMessageView::Notification { method: method->0, params: params->0 })
    } else {
        None
    }
}

/// The message that the JSON text `body` holds.
pub open spec fn parsed_message(body: Seq<u8>) -> Option<ServerMessageView> {
    message_shape(
        json_member_u64(body, "id"@),
        json_member(body, "result"@),
        json_member_string(body, "method"@),
        json_member(body, "params"@),
    )
}

/// Tells a response from a notification by the members that are there.
pub fn message_from_members(
    id: Option<u64>,
    result: Option<Vec<u8>>,
    method: Option<String>,
    params: Option<Vec<u8>>,
) -> (message: Option<ServerMessage>)
    ensures
        message_view(message) == message_shape(
            id,
            bytes_view(result),
            string_view(method),
            bytes_view(params),
        ),
{
    match (id, result) {
        (Some(id), Some(result)) => Some(ServerMessage::Response { id, result }),
        _ => match (method, params) {
            (Some(method), Some(params)) => Some(ServerMessage::Notification { method, params }),
            _ => None,
        },
    }
}

/// Reads the body of a server message.
pub fn parse_server_message(body: &[u8]) -> (message: Option<ServerMessage>)
    ensures
        message_view(message) == parsed_message(body@),
{
    message_from_members(
        member_u64(body, "id"),
        member_bytes(body, "result"),
        member_string(body, "method"),
        member_bytes(body, "params"),
    )
}

/// What becomes of a notification.
#[derive(Debug)]
pub enum Routed {
    /// A log line for the logging sink.
    Log(LogMessage),
    /// A known method whose parameters could not be read.
    Malformed,
    /// A method that the client does not handle.
    Unhandled,
}

/// What becomes of a notification, with its strings as sequences.
pub enum RoutedView {
    Log { kind: Seq<char>, message: Seq<char> },
    Malformed,
    Unhandled,
}

impl View for Routed {
    type V = RoutedView;

    open spec fn view(&self) -> RoutedView {
        match *self {
            Routed::Log(m) => RoutedView::Log { kind: m.kind@, message: m.message@ },
            Routed::Malformed => RoutedView::Malformed,
            Routed::Unhandled => RoutedView::Unhandled,
        }
    }
}

/// Where a notification goes: a log message notification to the logging
/// sink, if its parameters can be read; every other method nowhere.
pub open spec fn route(method: Seq<char>, log: Option<(Seq<char>, Seq<char>)>) -> RoutedView {
    if method == "window/logMessage"@ {
        match log {
            Some(m) => RoutedView::Log { kind: m.0, message: m.1 },
            None => RoutedView::Malformed,
        }
    } else {
        RoutedView::Unhandled
    }
}

fn same_text(a: &str, b: &str) -> (same: bool)
    ensures
        same == (a@ == b@),
{
    let x: String = a.to_owned();
    let y: String = b.to_owned();
    x == y
}

/// Routes a notification whose parameters were read as a log message
/// already.
pub fn route_notification(method: &str, log: Option<LogMessage>) -> (routed: Routed)
    ensures
        routed@ == route(method@, log_view(log)),
{
    if same_text(method, "window/logMessage") {
        match log {
            Some(m) => Routed::Log(m),
            None => Routed::Malformed,
        }
    } else {
        Routed::Unhandled
    }
}

/// Routes a notification by its method name.
pub fn dispatch(method: &str, params: &[u8]) -> (routed: Routed)
    ensures
        routed@ == route(method@, json_log_message(params@)),
{
    if same_text(method, "window/logMessage") {
        route_notification(method, log_message(params))
    } else {
        Routed::Unhandled
    }
}

/// The candidates of a completion reply, whichever shape it has.
pub open spec fn reply_items(reply: CompletionReply) -> Seq<lsp_types::CompletionItem> {
    match reply {
        CompletionReply::Array(items) => items@,
        CompletionReply::List { is_incomplete, items } => items@,
    }
}

/// Brings the two shapes of a completion reply down to one list. The flag
/// of the second shape is not looked at.
pub fn completion_items(reply: CompletionReply) -> (items: Vec<lsp_types::CompletionItem>)
    ensures
        items@ == reply_items(reply),
{
    match reply {
        CompletionReply::Array(items) => items,
        CompletionReply::List { is_incomplete: _, items } => items,
    }
}

/// Reads the result of a completion request. A result that is no
/// completion reply yields nothing.
pub fn completion_response(result: &[u8]) -> (response: Option<LspResponse>)
    ensures
        match json_completion_reply(result@) {
            Some(reply) => response matches Some(LspResponse::Completion(items)) && items@
                == reply_items(reply),
            None => response is None,
        },
{
    match completion_reply(result) {
        Some(reply) => Some(LspResponse::Completion(completion_items(reply))),
        None => None,
    }
}

/// Where the client's event loop stands.
#[derive(Clone, Copy, Debug, PartialEq, Eq, Structural)]
pub enum LoopState {
    /// Made, and no handshake sent yet.
    Idle,
    /// The handshake is out; intents and server messages are served.
    Running,
    /// The session is over. Nothing is sent or served any more.
    Closed,
}

/// Why the client sends nothing.
#[derive(Clone, Copy, Debug, PartialEq, Eq, Structural)]
pub enum LspError {
    /// The session is over.
    Closed,
    /// Every request identifier has been used.
    IdsExhausted,
    /// The message could not be put into JSON: a URI that is none, for one.
    InvalidParams,
}

/// The members of the object that carries a message to the server: the
/// protocol version, the identifier if the message is a request, the method
/// and the parameters.
pub open spec fn envelope_members(
    id: Option<u64>,
    version: Seq<u8>,
    method: Seq<u8>,
    params: Seq<u8>,
) -> Seq<(Seq<char>, Seq<u8>)> {
    let ident = match id {
        Some(i) => seq![("id"@, decimal(i as nat))],
        None => Seq::<(Seq<char>, Seq<u8>)>::empty(),
    };
    seq![("jsonrpc"@, version)] + ident + seq![("method"@, method), ("params"@, params)]
}

/// The JSON text of a message to the server; a request where `id` is given,
/// a notification where it is not.
pub open spec fn envelope_text(id: Option<u64>, method: Seq<char>, params: Seq<u8>) -> Option<
    Seq<u8>,
> {
    match (json_string("2.0"@), json_string(method)) {
        (Some(v), Some(m)) => json_object(envelope_members(id, v, m, params)),
        _ => None,
    }
}

/// Puts a message to the server into JSON text.
pub fn envelope(id: Option<u64>, method: &str, params: Vec<u8>) -> (body: Option<Vec<u8>>)
    ensures
        bytes_view(body) == envelope_text(id, method@, params@),
{
    let version = match string_bytes("2.0") {
        Some(v) => v,
        None => {
            return None;
        },
    };
    let name = match string_bytes(method) {
        Some(m) => m,
        None => {
            return None;
        },
    };
    let ghost expected = envelope_members(id, version@, name@, params@);
    let mut members: Vec<(String, Vec<u8>)> = Vec::new();
    members.push(("jsonrpc".to_owned(), version));
    match id {
        Some(i) => {
            members.push(("id".to_owned(), decimal_bytes(i)));
        },
        None => {},
    }
    members.push(("method".to_owned(), name));
    members.push(("params".to_owned(), params));
    assert(members_view(members@) =~= expected);
    object_bytes(&members)
}

/// What sending a message comes to: the bytes for the wire, or the reason
/// why nothing is sent. `id` is the identifier that a request would get,
/// `exhausted` says that none is left to give, and `params` is the JSON
/// text of the parameters where they could be written.
pub open spec fn outgoing(
    state: LoopState,
    id: Option<u64>,
    exhausted: bool,
    method: Seq<char>,
    params: Option<Seq<u8>>,
) -> Result<Seq<u8>, LspError> {
    if state == LoopState::Closed {
        Err(LspError::Closed)
    } else if params is None {
        Err(LspError::InvalidParams)
    } else if exhausted {
        Err(LspError::IdsExhausted)
    } else {
        match envelope_text(id, method, params->0) {
            Some(body) => Ok(frame(body)),
            None => Err(LspError::InvalidParams),
        }
    }
}

/// The bytes of a message that was put on the wire, or the error.
pub open spec fn wire_view(r: Result<Vec<u8>, LspError>) -> Result<Seq<u8>, LspError> {
    match r {
        Ok(wire) => Ok(wire@),
        Err(e) => Err(e),
    }
}

/// Why a server message or an intent led to nothing.
#[derive(Clone, Copy, Debug, PartialEq, Eq, Structural)]
pub enum Dropped {
    /// The body was no JSON text, or had the shape of no message.
    Undecodable,
    /// A response to a request that is not pending.
    UnknownResponse(u64),
    /// A known notification with parameters that could not be read.
    MalformedNotification,
    /// A notification that the client does not handle.
    UnhandledNotification,
    /// An intent that could not be sent.
    Rejected(LspError),
}

/// What the event loop is told.
#[derive(Debug)]
pub enum Event<W> {
    /// The editor asks for something. Whoever awaits the reply, if the
    /// intent leads to a request, is reached through the waiter.
    Intent(LspMessage, W),
    /// The body of a message from the server.
    Frame(Vec<u8>),
    /// The editor will ask for nothing more, and the server has nothing
    /// under way.
    IntentsClosed,
    /// The server closed its output.
    EndOfStream,
    /// Reading from or writing to the server failed, or its output could
    /// not be framed.
    TransportFailed,
}

/// What the event loop wants done.
#[derive(Debug)]
pub enum Action<W> {
    /// Write these bytes to the server, whole and in this order.
    Send(Vec<u8>),
    /// Hand this result to this waiter.
    Deliver { waiter: W, result: Vec<u8> },
    /// Pass this line to the logging sink.
    Log(LogMessage),
    /// Note that something was dropped, and go on.
    Drop(Dropped),
    /// The loop is over: tell each of these waiters that no reply will
    /// come.
    Close(Failed<W>),
    /// The loop was over already.
    Ignore,
}

/// The client: the state of its event loop and its requests without a
/// reply.
pub struct LspClient<W> {
    state: LoopState,
    correlator: Correlator<W>,
}

impl<W> LspClient<W> {
    /// Where the event loop stands.
    pub closed spec fn state(&self) -> LoopState {
        self.state
    }

    /// The identifier that the next request gets.
    pub closed spec fn next_id(&self) -> u64 {
        self.correlator.next_id()
    }

    /// The requests without a reply, each with its waiter.
    pub closed spec fn pending(&self) -> Map<u64, W> {
        self.correlator.pending()
    }

    /// Identifiers start at 1, every pending request has one that was
    /// handed out, and a closed client has nothing pending.
    pub open spec fn wf(&self) -> bool {
        &&& self.next_id() >= 1
        &&& self.pending().dom().finite()
        &&& forall|id: u64| #[trigger] self.pending().contains_key(id) ==> 1 <= id < self.next_id()
        &&& self.state() == LoopState::Closed ==> self.pending() == Map::<u64, W>::empty()
    }

    /// Whether `post` differs from `pre` by one more pending request: the
    /// one with the next identifier, awaited by `waiter`.
    pub open spec fn registered(pre: Self, post: Self, waiter: W) -> bool {
        &&& pre.next_id() < u64::MAX
        &&& post.next_id() == pre.next_id() + 1
        &&& !pre.pending().contains_key(pre.next_id())
        &&& post.pending() == pre.pending().insert(pre.next_id(), waiter)
    }

    /// Whether `post` has the identifiers and pending requests of `pre`.
    pub open spec fn same_requests(pre: Self, post: Self) -> bool {
        &&& post.next_id() == pre.next_id()
        &&& post.pending() == pre.pending()
    }

    /// A client that has sent nothing yet. Starting the server process is
    /// the caller's part.
    pub fn new() -> (client: Self)
        ensures
            client.wf(),
            client.state() == LoopState::Idle,
            client.next_id() == 1,
            client.pending() == Map::<u64, W>::empty(),
    {
        LspClient { state: LoopState::Idle, correlator: Correlator::new() }
    }

    /// Where the event loop stands.
    pub fn loop_state(&self) -> (state: LoopState)
        ensures
            state == self.state(),
    {
        self.state
    }

    /// How many requests await a reply.
    pub fn pending_count(&self) -> (n: usize)
        ensures
            n == self.pending().len(),
    {
        self.correlator.pending_count()
    }

    /// Frames a message body for the wire.
    pub fn send_message(body: &[u8]) -> (wire: Vec<u8>)
        ensures
            wire@ == frame(body@),
    {
        encode(body)
    }

    /// Builds a request with the next identifier and files `waiter` under
    /// it. Nothing is filed unless the request can be sent.
    pub fn send_request(&mut self, method: &str, params: Option<Vec<u8>>, waiter: W) -> (r: Result<
        Vec<u8>,
        LspError,
    >)
        requires
            old(self).wf(),
        ensures
            final(self).wf(),
            final(self).state() == old(self).state(),
            wire_view(r) == outgoing(
                old(self).state(),
                Some(old(self).next_id()),
                old(self).next_id() == u64::MAX,
                method@,
                bytes_view(params),
            ),
            r is Ok ==> Self::registered(*old(self), *final(self), waiter),
            r is Err ==> Self::same_requests(*old(self), *final(self)),
    {
        if self.state == LoopState::Closed {
            return Err(LspError::Closed);
        }
        let params = match params {
            Some(p) => p,
            None => {
                return Err(LspError::InvalidParams);
            },
        };
        if !self.correlator.has_identifier() {
            return Err(LspError::IdsExhausted);
        }
        let body = match envelope(Some(self.correlator.peek_id()), method, params) {
            Some(b) => b,
            None => {
                return Err(LspError::InvalidParams);
            },
        };
        let issued = self.correlator.register(waiter);
        assert(issued is Some);
        Ok(encode(body.as_slice()))
    }

    /// Builds a notification: a message without an identifier, to which no
    /// reply is owed.
    pub fn send_notification(&self, method: &str, params: Option<Vec<u8>>) -> (r: Result<
        Vec<u8>,
        LspError,
    >)
        ensures
            wire_view(r) == outgoing(self.state(), None, false, method@, bytes_view(params)),
    {
        if self.state == LoopState::Closed {
            return Err(LspError::Closed);
        }
        let params = match params {
            Some(p) => p,
            None => {
                return Err(LspError::InvalidParams);
            },
        };
        match envelope(None, method, params) {
            Some(body) => Ok(encode(body.as_slice())),
            None => Err(LspError::InvalidParams),
        }
    }

    /// Builds the handshake, a request that carries the process id and the
    /// workspace root, and starts the event loop. The reply is owed to
    /// `waiter`.
    pub fn initialize(&mut self, process_id: u32, root_uri: &str, waiter: W) -> (r: Result<
        Vec<u8>,
        LspError,
    >)
        requires
            old(self).wf(),
        ensures
            final(self).wf(),
            wire_view(r) == outgoing(
                old(self).state(),
                Some(old(self).next_id()),
                old(self).next_id() == u64::MAX,
                "initialize"@,
                json_initialize_params(process_id, root_uri@, "edit"@),
            ),
            r is Ok ==> final(self).state() == LoopState::Running && Self::registered(
                *old(self),
                *final(self),
                waiter,
            ),
            r is Err ==> final(self).state() == old(self).state() && Self::same_requests(
                *old(self),
                *final(self),
            ),
    {
        let params = initialize_params(process_id, root_uri, "edit");
        let r = self.send_request("initialize", params, waiter);
        if r.is_ok() {
            self.state = LoopState::Running;
        }
        r
    }

    /// Builds the notification that a document was opened, with its whole
    /// text, as a Rust document at version 1.
    pub fn did_open(&self, uri: &str, text: &str) -> (r: Result<Vec<u8>, LspError>)
        ensures
            wire_view(r) == outgoing(
                self.state(),
                None,
                false,
                "textDocument/didOpen"@,
                json_did_open_params(uri@, "rust"@, 1, text@),
            ),
    {
        self.send_notification("textDocument/didOpen", did_open_params(uri, "rust", 1, text))
    }

    /// Builds the notification that a document changed: its version and
    /// its whole new text.
    pub fn did_change(&self, uri: &str, text: &str, version: i32) -> (r: Result<Vec<u8>, LspError>)
        ensures
            wire_view(r) == outgoing(
                self.state(),
                None,
                false,
                "textDocument/didChange"@,
                json_did_change_params(uri@, version, text@),
            ),
    {
        self.send_notification("textDocument/didChange", did_change_params(uri, version, text))
    }

    /// Builds the request for completions at a place in a document. The
    /// reply is owed to `waiter`.
    pub fn completion(&mut self, uri: &str, position: Position, waiter: W) -> (r: Result<
        Vec<u8>,
        LspError,
    >)
        requires
            old(self).wf(),
        ensures
            final(self).wf(),
            final(self).state() == old(self).state(),
            wire_view(r) == outgoing(
                old(self).state(),
                Some(old(self).next_id()),
                old(self).next_id() == u64::MAX,
                "textDocument/completion"@,
                json_completion_params(uri@, position.line, position.character),
            ),
            r is Ok ==> Self::registered(*old(self), *final(self), waiter),
            r is Err ==> Self::same_requests(*old(self), *final(self)),
    {
        let params = completion_params(uri, position.line, position.character);
        self.send_request("textDocument/completion", params, waiter)
    }

    /// What serving a server message comes to. A response goes to the
    /// waiter of its identifier, which then is pending no longer; a response
    /// to anything else is dropped and changes nothing. A notification goes
    /// where `route` says and changes nothing.
    pub open spec fn served(
        pre: Self,
        post: Self,
        message: ServerMessageView,
        action: Action<W>,
    ) -> bool {
        &&& post.state() == pre.state()
        &&& post.next_id() == pre.next_id()
        &&& match message {
            ServerMessageView::Response { id, result } => {
                &&& post.pending() == pre.pending().remove(id)
                &&& if pre.pending().contains_key(id) {
                    action matches Action::Deliver { waiter, result: r } && waiter
                        == pre.pending()[id] && r@ == result
                } else {
                    action == Action::<W>::Drop(Dropped::UnknownResponse(id)) && post.pending()
                        == pre.pending()
                }
            },
            ServerMessageView::Notification { method, params } => {
                &&& post.pending() == pre.pending()
                &&& match route(method, json_log_message(params)) {
                    RoutedView::Log { kind, message } => action matches Action::Log(m) && m.kind@
                        == kind && m.message@ == message,
                    RoutedView::Malformed => action == Action::<W>::Drop(
                        Dropped::MalformedNotification,
                    ),
                    RoutedView::Unhandled => action == Action::<W>::Drop(
                        Dropped::UnhandledNotification,
                    ),
                }
            },
        }
    }

    /// What serving an intent comes to: the bytes to send or the reason why
    /// nothing is sent.
    pub open spec fn intent_outcome(pre: Self, message: LspMessage) -> Result<Seq<u8>, LspError> {
        match message {
            LspMessage::DidChange(uri, text, version) => outgoing(
                pre.state(),
                None,
                false,
                "textDocument/didChange"@,
                json_did_change_params(uri@, version, text@),
            ),
            LspMessage::Completion(uri, position) => outgoing(
                pre.state(),
                Some(pre.next_id()),
                pre.next_id() == u64::MAX,
                "textDocument/completion"@,
                json_completion_params(uri@, position.line, position.character),
            ),
        }
    }

    /// What serving an intent does to the pending requests: a completion
    /// request that is sent is pending from then on; nothing else changes.
    pub open spec fn intent_served(
        pre: Self,
        post: Self,
        message: LspMessage,
        waiter: W,
        sent: bool,
    ) -> bool {
        &&& post.state() == pre.state()
        &&& if sent && message is Completion {
            Self::registered(pre, post, waiter)
        } else {
            Self::same_requests(pre, post)
        }
    }

    /// Serves one message from the server.
    pub fn handle_server_message(&mut self, message: ServerMessage) -> (action: Action<W>)
        requires
            old(self).wf(),
        ensures
            final(self).wf(),
            Self::served(*old(self), *final(self), message@, action),
    {
        match message {
            ServerMessage::Response { id, result } => {
                match self.correlator.resolve(id) {
                    Some(waiter) => Action::Deliver { waiter, result },
                    None => Action::Drop(Dropped::UnknownResponse(id)),
                }
            },
            ServerMessage::Notification { method, params } => {
                match dispatch(method.as_str(), params.as_slice()) {
                    Routed::Log(m) => Action::Log(m),
                    Routed::Malformed => Action::Drop(Dropped::MalformedNotification),
                    Routed::Unhandled => Action::Drop(Dropped::UnhandledNotification),
                }
            },
        }
    }

    /// Serves one intent of the editor. The reply to a completion request
    /// is owed to `waiter`; a changed document needs none.
    pub fn handle_client_message(&mut self, message: LspMessage, waiter: W) -> (r: Result<
        Vec<u8>,
        LspError,
    >)
        requires
            old(self).wf(),
        ensures
            final(self).wf(),
            wire_view(r) == Self::intent_outcome(*old(self), message),
            Self::intent_served(*old(self), *final(self), message, waiter, r is Ok),
    {
        match message {
            LspMessage::DidChange(uri, text, version) => self.did_change(
                uri.as_str(),
                text.as_str(),
                version,
            ),
            LspMessage::Completion(uri, position) => self.completion(uri.as_str(), position, waiter),
        }
    }

    /// What ending the session comes to: the loop is closed, nothing is
    /// pending any more, and every waiter that was is released once, with
    /// the reason.
    pub open spec fn ended(pre: Self, post: Self, reason: CloseReason, action: Action<W>) -> bool {
        &&& post.state() == LoopState::Closed
        &&& post.next_id() == pre.next_id()
        &&& post.pending() == Map::<u64, W>::empty()
        &&& action matches Action::Close(failed) && failed.reason == reason && is_release_of(
            pre.pending(),
            failed.waiters@,
        )
    }

    /// What one turn of the event loop comes to. A closed loop ignores
    /// everything. An intent is served and its message sent, or dropped with
    /// the reason. A frame from the server is read and served, or dropped
    /// where it cannot be read. The end of the intents, the end of the
    /// server's output and a failure of the transport each close the loop
    /// and release every waiter.
    pub open spec fn turned(pre: Self, post: Self, event: Event<W>, action: Action<W>) -> bool {
        if pre.state() == LoopState::Closed {
            &&& action is Ignore
            &&& post.state() == LoopState::Closed
            &&& Self::same_requests(pre, post)
        } else {
            match event {
                Event::Intent(message, waiter) => {
                    &&& Self::intent_served(pre, post, message, waiter, action is Send)
                    &&& match Self::intent_outcome(pre, message) {
                        Ok(wire) => action matches Action::Send(w) && w@ == wire,
                        Err(e) => action == Action::<W>::Drop(Dropped::Rejected(e)),
                    }
                },
                Event::Frame(body) => match parsed_message(body@) {
                    Some(message) => Self::served(pre, post, message, action),
                    None => {
                        &&& action == Action::<W>::Drop(Dropped::Undecodable)
                        &&& post.state() == pre.state()
                        &&& Self::same_requests(pre, post)
                    },
                },
                Event::IntentsClosed => Self::ended(pre, post, CloseReason::IntentsClosed, action),
                Event::EndOfStream => Self::ended(pre, post, CloseReason::EndOfStream, action),
                Event::TransportFailed => Self::ended(
                    pre,
                    post,
                    CloseReason::TransportFailed,
                    action,
                ),
            }
        }
    }

    /// Takes one turn of the event loop: decides what the event leads to
    /// and what the caller is to do about it.
    pub fn run(&mut self, event: Event<W>) -> (action: Action<W>)
        requires
            old(self).wf(),
        ensures
            final(self).wf(),
            Self::turned(*old(self), *final(self), event, action),
    {
        if self.state == LoopState::Closed {
            return Action::Ignore;
        }
        match event {
            Event::Intent(message, waiter) => match self.handle_client_message(message, waiter) {
                Ok(wire) => Action::Send(wire),
                Err(e) => Action::Drop(Dropped::Rejected(e)),
            },
            Event::Frame(body) => match parse_server_message(body.as_slice()) {
                Some(message) => self.handle_server_message(message),
                None => Action::Drop(Dropped::Undecodable),
            },
            Event::IntentsClosed => self.close(CloseReason::IntentsClosed),
            Event::EndOfStream => self.close(CloseReason::EndOfStream),
            Event::TransportFailed => self.close(CloseReason::TransportFailed),
        }
    }

    /// Ends the session: the loop is closed, and every waiter is handed out
    /// to be told that no reply will come.
    pub fn close(&mut self, reason: CloseReason) -> (action: Action<W>)
        requires
            old(self).wf(),
        ensures
            final(self).wf(),
            Self::ended(*old(self), *final(self), reason, action),
    {
        self.state = LoopState::Closed;
        Action::Close(self.correlator.drain_with_error(reason))
    }
}

} // verus!
