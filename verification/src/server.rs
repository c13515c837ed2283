use vstd::prelude::*;
use crate::caps::{Capabilities, ServerInfo, capabilities_spec, negotiate, server_info,
    server_info_spec};
use crate::complete::{CompletionItem, complete, complete_spec};
use crate::docs::{DocModel, DocStore, Edit, apply_edits_spec};
use crate::names::{cmd_apply_edit, cmd_apply_edit_vec, cmd_notify, cmd_notify_vec, m_completion,
    m_did_change, m_did_close, m_did_open, m_did_save, m_execute_command, m_exit, m_initialize,
    m_initialized, m_shutdown, m_completion_vec, m_did_change_vec, m_did_close_vec,
    m_did_open_vec, m_did_save_vec, m_execute_command_vec, m_exit_vec, m_initialize_vec,
    m_initialized_vec, m_shutdown_vec, t_applied, t_changed, t_closed, t_edit_failed,
    t_executed, t_initialized, t_not_found, t_opened, t_rejected, t_saved, t_applied_vec,
    t_changed_vec, t_closed_vec, t_edit_failed_vec, t_executed_vec, t_initialized_vec,
    t_not_found_vec, t_opened_vec, t_rejected_vec, t_saved_vec};

verus! {

// ---------------------------------------------------------------------------
// Message router and connection state machine. Decoded messages come in as
// plain values; every response, log notification and server-initiated
// request goes out as a plain value for the transport layer to encode.
// ---------------------------------------------------------------------------

/// The connection's lifecycle.
#[derive(PartialEq, Eq, Structural, Clone, Copy, Debug)]
pub enum ConnState {
    Uninitialized,
    Initializing,
    Ready,
    ShuttingDown,
    Closed,
}

/// The closed set of method names this server knows.
#[derive(PartialEq, Eq, Structural, Clone, Copy, Debug)]
pub enum Tag {
    Initialize,
    Initialized,
    Shutdown,
    Exit,
    DidOpen,
    DidChange,
    DidSave,
    DidClose,
    Completion,
    ExecuteCommand,
    Unknown,
}

/// Which method a name denotes; anything else is unknown and becomes a
/// protocol error (request) or is dropped (notification).
pub open spec fn tag_of(m: Seq<u8>) -> Tag {
    if m == m_initialize() {
        Tag::Initialize
    } else if m == m_initialized() {
        Tag::Initialized
    } else if m == m_shutdown() {
        Tag::Shutdown
    } else if m == m_exit() {
        Tag::Exit
    } else if m == m_did_open() {
        Tag::DidOpen
    } else if m == m_did_change() {
        Tag::DidChange
    } else if m == m_did_save() {
        Tag::DidSave
    } else if m == m_did_close() {
        Tag::DidClose
    } else if m == m_completion() {
        Tag::Completion
    } else if m == m_execute_command() {
        Tag::ExecuteCommand
    } else {
        Tag::Unknown
    }
}

/// Maps a method name to its tag.
pub fn method_tag(m: &Vec<u8>) -> (t: Tag)
    ensures
        t == tag_of(m@),
{
    if crate::bytes_eq(m, &m_initialize_vec()) {
        Tag::Initialize
    } else if crate::bytes_eq(m, &m_initialized_vec()) {
        Tag::Initialized
    } else if crate::bytes_eq(m, &m_shutdown_vec()) {
        Tag::Shutdown
    } else if crate::bytes_eq(m, &m_exit_vec()) {
        Tag::Exit
    } else if crate::bytes_eq(m, &m_did_open_vec()) {
        Tag::DidOpen
    } else if crate::bytes_eq(m, &m_did_change_vec()) {
        Tag::DidChange
    } else if crate::bytes_eq(m, &m_did_save_vec()) {
        Tag::DidSave
    } else if crate::bytes_eq(m, &m_did_close_vec()) {
        Tag::DidClose
    } else if crate::bytes_eq(m, &m_completion_vec()) {
        Tag::Completion
    } else if crate::bytes_eq(m, &m_execute_command_vec()) {
        Tag::ExecuteCommand
    } else {
        Tag::Unknown
    }
}

/// The structured payload of the server's custom outbound notification.
pub struct NotePayload {
    pub title: Vec<u8>,
    pub message: Vec<u8>,
    pub description: Vec<u8>,
}

/// The typed parameters a message can carry.
pub enum Params {
    Missing,
    OpenDoc { uri: Vec<u8>, version: u64, text: Vec<u8> },
    ChangeDoc { uri: Vec<u8>, version: u64, edits: Vec<Edit> },
    SaveDoc { uri: Vec<u8> },
    CloseDoc { uri: Vec<u8> },
    CompletionAt { trigger: Option<Vec<u8>> },
    RunCommand { command: Vec<u8>, arguments: Vec<NotePayload> },
}

/// What the client said to a server-initiated apply-edit request.
#[derive(PartialEq, Eq, Structural, Clone, Copy, Debug)]
pub enum ReplyOutcome {
    Applied,
    Rejected,
    Failed,
}

/// One decoded inbound message.
pub enum Incoming {
    Request { id: u64, method: Vec<u8>, params: Params },
    Notification { method: Vec<u8>, params: Params },
    Reply { id: u64, outcome: ReplyOutcome },
}

/// The kinds of error response the server produces.
#[derive(PartialEq, Eq, Structural, Clone, Copy, Debug)]
pub enum ErrKind {
    MethodNotFound,
    StateError,
    InvalidRequest,
    DocumentNotFound,
}

/// One outbound message for the transport layer to encode and send.
pub enum OutMsg {
    InitializeResult { id: u64, info: ServerInfo, caps: Capabilities },
    CompletionResult { id: u64, items: Vec<CompletionItem> },
    NullResult { id: u64 },
    ErrorResult { id: u64, kind: ErrKind },
    LogNote { error: bool, text: Vec<u8> },
    CustomNote { title: Vec<u8>, message: Vec<u8>, description: Vec<u8> },
    ApplyEditRequest { id: u64 },
    CloseTransport,
}

pub open spec fn is_log(m: OutMsg, err: bool, text: Seq<u8>) -> bool {
    m matches OutMsg::LogNote { error, text: t } && error == err && t@ == text
}

pub open spec fn is_null_result(m: OutMsg, id: u64) -> bool {
    m matches OutMsg::NullResult { id: rid } && rid == id
}

pub open spec fn is_error_result(m: OutMsg, id: u64, k: ErrKind) -> bool {
    m matches OutMsg::ErrorResult { id: rid, kind } && rid == id && kind == k
}

pub open spec fn is_init_result(m: OutMsg, id: u64) -> bool {
    m matches OutMsg::InitializeResult { id: rid, info, caps } && rid == id && info.model()
        == server_info_spec() && caps.model() == capabilities_spec()
}

pub open spec fn is_completion_result(m: OutMsg, id: u64, dict: Seq<Seq<u8>>, p: Seq<u8>) -> bool {
    m matches OutMsg::CompletionResult { id: rid, items } && rid == id && items@.len()
        == complete_spec(dict, p).len() && (forall|j: int|
        0 <= j < items@.len() ==> #[trigger] items@[j].label@ == complete_spec(dict, p)[j]
            && items@[j].insert_text@ == complete_spec(dict, p)[j])
}

pub open spec fn is_custom_note(m: OutMsg, n: NotePayload) -> bool {
    m matches OutMsg::CustomNote { title, message, description } && title@ == n.title@
        && message@ == n.message@ && description@ == n.description@
}

pub open spec fn is_apply_edit_request(m: OutMsg, id: u64) -> bool {
    m matches OutMsg::ApplyEditRequest { id: rid } && rid == id
}

/// The sequence with the first occurrence of `x` removed, if any.
pub open spec fn remove_first(s: Seq<u64>, x: u64) -> Seq<u64>
    decreases s.len(),
{
    if s.len() == 0 {
        s
    } else if s[0] == x {
        s.drop_first()
    } else {
        seq![s[0]] + remove_first(s.drop_first(), x)
    }
}

/// The protocol engine: connection state, document store, dictionary, and
/// the record of server-initiated requests still awaiting a client reply.
pub struct Server {
    pub state: ConnState,
    pub store: DocStore,
    pub dict: Vec<Vec<u8>>,
    pub pending: Vec<u64>,
    pub next_req_id: u64,
}

/// What never changes across a step: the dictionary is loaded once and is
/// immutable for the server's lifetime.
pub open spec fn frame_ok(pre: Server, post: Server) -> bool {
    post.dict == pre.dict
}

/// No observable effect: same state, same documents, same pending record.
pub open spec fn unchanged(pre: Server, post: Server) -> bool {
    post.state == pre.state && post.store == pre.store && post.pending == pre.pending
        && post.next_req_id == pre.next_req_id
}

/// Only the connection state moved.
pub open spec fn only_state(pre: Server, post: Server, st: ConnState) -> bool {
    post.state == st && post.store == pre.store && post.pending == pre.pending
        && post.next_req_id == pre.next_req_id
}

/// The effect of one recognized `executeCommand` dispatch in `Ready`.
pub open spec fn command_step(
    pre: Server,
    id: u64,
    command: Seq<u8>,
    arguments: Seq<NotePayload>,
    post: Server,
    out: Seq<OutMsg>,
) -> bool {
    if command == cmd_notify() {
        if arguments.len() >= 1 {
            unchanged(pre, post) && out.len() == 3 && is_log(out[0], false, t_executed())
                && is_custom_note(out[1], arguments[0]) && is_null_result(out[2], id)
        } else {
            unchanged(pre, post) && out.len() == 1 && is_error_result(
                out[0],
                id,
                ErrKind::InvalidRequest,
            )
        }
    } else if command == cmd_apply_edit() {
        post.state == pre.state && post.store == pre.store && post.pending@ == pre.pending@.push(
            pre.next_req_id,
        ) && post.next_req_id == (if pre.next_req_id < u64::MAX {
            (pre.next_req_id + 1) as u64
        } else {
            pre.next_req_id
        }) && out.len() == 3 && is_log(out[0], false, t_executed()) && is_apply_edit_request(
            out[1],
            pre.next_req_id,
        ) && is_null_result(out[2], id)
    } else {
        unchanged(pre, post) && out.len() == 1 && is_error_result(
            out[0],
            id,
            ErrKind::InvalidRequest,
        )
    }
}

/// The behavior of one routed request.
pub open spec fn request_step(
    pre: Server,
    id: u64,
    method: Seq<u8>,
    params: Params,
    post: Server,
    out: Seq<OutMsg>,
) -> bool {
    let t = tag_of(method);
    if pre.state is Closed {
        unchanged(pre, post) && out.len() == 0
    } else if t is Unknown {
        unchanged(pre, post) && out.len() == 1 && is_error_result(
            out[0],
            id,
            ErrKind::MethodNotFound,
        )
    } else if t is Initialize {
        if pre.state is Uninitialized {
            only_state(pre, post, ConnState::Initializing) && out.len() == 1 && is_init_result(
                out[0],
                id,
            )
        } else {
            unchanged(pre, post) && out.len() == 1 && is_error_result(
                out[0],
                id,
                ErrKind::StateError,
            )
        }
    } else if t is Shutdown {
        if pre.state is ShuttingDown {
            unchanged(pre, post) && out.len() == 1 && is_error_result(
                out[0],
                id,
                ErrKind::StateError,
            )
        } else {
            only_state(pre, post, ConnState::ShuttingDown) && out.len() == 1 && is_null_result(
                out[0],
                id,
            )
        }
    } else if !(pre.state is Ready) {
        unchanged(pre, post) && out.len() == 1 && is_error_result(out[0], id, ErrKind::StateError)
    } else if t is Completion {
        match params {
            Params::CompletionAt { trigger } => {
                let p = match trigger {
                    Option::Some(tr) => tr@,
                    Option::None => Seq::<u8>::empty(),
                };
                unchanged(pre, post) && out.len() == 1 && is_completion_result(
                    out[0],
                    id,
                    pre.dict.deep_view(),
                    p,
                )
            },
            _ => unchanged(pre, post) && out.len() == 1 && is_error_result(
                out[0],
                id,
                ErrKind::InvalidRequest,
            ),
        }
    } else if t is ExecuteCommand {
        match params {
            Params::RunCommand { command, arguments } => command_step(
                pre,
                id,
                command@,
                arguments@,
                post,
                out,
            ),
            _ => unchanged(pre, post) && out.len() == 1 && is_error_result(
                out[0],
                id,
                ErrKind::InvalidRequest,
            ),
        }
    } else {
        // a known notification-only method sent as a request
        unchanged(pre, post) && out.len() == 1 && is_error_result(
            out[0],
            id,
            ErrKind::InvalidRequest,
        )
    }
}

/// The behavior of one routed notification; notifications never produce
/// error responses.
pub open spec fn notification_step(
    pre: Server,
    method: Seq<u8>,
    params: Params,
    post: Server,
    out: Seq<OutMsg>,
) -> bool {
    let t = tag_of(method);
    if pre.state is Closed {
        unchanged(pre, post) && out.len() == 0
    } else if t is Initialized {
        if pre.state is Initializing {
            only_state(pre, post, ConnState::Ready) && out.len() == 1 && is_log(
                out[0],
                false,
                t_initialized(),
            )
        } else {
            unchanged(pre, post) && out.len() == 0
        }
    } else if t is Exit {
        only_state(pre, post, ConnState::Closed) && out.len() == 1 && (out[0]
            is CloseTransport)
    } else if !(pre.state is Ready) {
        unchanged(pre, post) && out.len() == 0
    } else if t is DidOpen {
        match params {
            Params::OpenDoc { uri, version, text } => post.state == pre.state && post.pending
                == pre.pending && post.next_req_id == pre.next_req_id && post.store.model()
                == pre.store.model().insert(
                uri@,
                DocModel { version: version as int, text: text@ },
            ) && out.len() == 1 && is_log(out[0], false, t_opened()),
            _ => unchanged(pre, post) && out.len() == 0,
        }
    } else if t is DidChange {
        match params {
            Params::ChangeDoc { uri, version, edits } => post.state == pre.state && post.pending
                == pre.pending && post.next_req_id == pre.next_req_id && (if pre.store.model().dom().contains(
                uri@,
            ) {
                post.store.model() == pre.store.model().insert(
                    uri@,
                    DocModel {
                        version: version as int,
                        text: apply_edits_spec(pre.store.model()[uri@].text, edits@),
                    },
                ) && out.len() == 1 && is_log(out[0], false, t_changed())
            } else {
                post.store == pre.store && out.len() == 1 && is_log(out[0], true, t_not_found())
            }),
            _ => unchanged(pre, post) && out.len() == 0,
        }
    } else if t is DidSave {
        match params {
            Params::SaveDoc { uri } => unchanged(pre, post) && out.len() == 1 && (if pre.store.model().dom().contains(
                uri@,
            ) {
                is_log(out[0], false, t_saved())
            } else {
                is_log(out[0], true, t_not_found())
            }),
            _ => unchanged(pre, post) && out.len() == 0,
        }
    } else if t is DidClose {
        match params {
            Params::CloseDoc { uri } => post.state == pre.state && post.pending == pre.pending
                && post.next_req_id == pre.next_req_id && (if pre.store.model().dom().contains(
                uri@,
            ) {
                post.store.model() == pre.store.model().remove(uri@) && out.len() == 1 && is_log(
                    out[0],
                    false,
                    t_closed(),
                )
            } else {
                post.store == pre.store && out.len() == 1 && is_log(out[0], true, t_not_found())
            }),
            _ => unchanged(pre, post) && out.len() == 0,
        }
    } else {
        // unknown notifications, and request-only methods sent as
        // notifications, are silently ignored
        unchanged(pre, post) && out.len() == 0
    }
}

/// The behavior on a client reply to a server-initiated request: the
/// outcome is logged and never escalated; an uncorrelated reply is dropped.
pub open spec fn reply_step(
    pre: Server,
    id: u64,
    outcome: ReplyOutcome,
    post: Server,
    out: Seq<OutMsg>,
) -> bool {
    if pre.state is Closed {
        unchanged(pre, post) && out.len() == 0
    } else if pre.pending@.contains(id) {
        post.state == pre.state && post.store == pre.store && post.next_req_id
            == pre.next_req_id && post.pending@ == remove_first(pre.pending@, id) && out.len()
            == 1 && (match outcome {
            ReplyOutcome::Applied => is_log(out[0], false, t_applied()),
            ReplyOutcome::Rejected => is_log(out[0], false, t_rejected()),
            ReplyOutcome::Failed => is_log(out[0], true, t_edit_failed()),
        })
    } else {
        unchanged(pre, post) && out.len() == 0
    }
}

/// One step of the router: what any single inbound message does to the
/// server and what it sends back.
pub open spec fn router_step(pre: Server, msg: Incoming, post: Server, out: Seq<OutMsg>) -> bool {
    frame_ok(pre, post) && match msg {
        Incoming::Request { id, method, params } => request_step(
            pre,
            id,
            method@,
            params,
            post,
            out,
        ),
        Incoming::Notification { method, params } => notification_step(
            pre,
            method@,
            params,
            post,
            out,
        ),
        Incoming::Reply { id, outcome } => reply_step(pre, id, outcome, post, out),
    }
}


impl Server {
    /// A fresh connection over a loaded dictionary: nothing initialized,
    /// no documents, no pending server-initiated requests.
    pub fn new(dict: Vec<Vec<u8>>) -> (s: Self)
        ensures
            s.state is Uninitialized,
            s.store.model() == Map::<Seq<u8>, DocModel>::empty(),
            s.dict == dict,
            s.pending@ == Seq::<u64>::empty(),
            s.next_req_id == 1u64,
    {
        Server {
            state: ConnState::Uninitialized,
            store: DocStore::new(),
            dict,
            pending: Vec::new(),
            next_req_id: 1,
        }
    }

    /// `initialize`: accepted only before anything else has happened;
    /// answers with the server identity and the negotiated capabilities.
    pub fn initialize(&mut self, id: u64) -> (out: Vec<OutMsg>)
        ensures
            frame_ok(*old(self), *final(self)),
            old(self).state is Uninitialized ==> only_state(
                *old(self),
                *final(self),
                ConnState::Initializing,
            ) && out@.len() == 1 && is_init_result(out@[0], id),
            !(old(self).state is Uninitialized) ==> unchanged(*old(self), *final(self))
                && out@.len() == 1 && is_error_result(out@[0], id, ErrKind::StateError),
    {
        let mut out: Vec<OutMsg> = Vec::new();
        if self.state == ConnState::Uninitialized {
            self.state = ConnState::Initializing;
            out.push(OutMsg::InitializeResult { id, info: server_info(), caps: negotiate() });
        } else {
            out.push(OutMsg::ErrorResult { id, kind: ErrKind::StateError });
        }
        out
    }

    /// `initialized` notification: completes the handshake.
    pub fn initialized(&mut self) -> (out: Vec<OutMsg>)
        ensures
            frame_ok(*old(self), *final(self)),
            old(self).state is Initializing ==> only_state(
                *old(self),
                *final(self),
                ConnState::Ready,
            ) && out@.len() == 1 && is_log(out@[0], false, t_initialized()),
            !(old(self).state is Initializing) ==> unchanged(*old(self), *final(self))
                && out@.len() == 0,
    {
        let mut out: Vec<OutMsg> = Vec::new();
        if self.state == ConnState::Initializing {
            self.state = ConnState::Ready;
            out.push(OutMsg::LogNote { error: false, text: t_initialized_vec() });
        }
        out
    }

    /// `shutdown`: acknowledged from any state before shutdown; afterwards
    /// only `exit` is accepted.
    pub fn shutdown(&mut self, id: u64) -> (out: Vec<OutMsg>)
        ensures
            frame_ok(*old(self), *final(self)),
            old(self).state is ShuttingDown || old(self).state is Closed ==> unchanged(
                *old(self),
                *final(self),
            ) && out@.len() == 1 && is_error_result(out@[0], id, ErrKind::StateError),
            !(old(self).state is ShuttingDown) && !(old(self).state is Closed) ==> only_state(
                *old(self),
                *final(self),
                ConnState::ShuttingDown,
            ) && out@.len() == 1 && is_null_result(out@[0], id),
    {
        let mut out: Vec<OutMsg> = Vec::new();
        if self.state == ConnState::ShuttingDown || self.state == ConnState::Closed {
            out.push(OutMsg::ErrorResult { id, kind: ErrKind::StateError });
        } else {
            self.state = ConnState::ShuttingDown;
            out.push(OutMsg::NullResult { id });
        }
        out
    }

    /// `exit` notification: closes the connection and asks the transport
    /// layer to shut the stream.
    pub fn exit(&mut self) -> (out: Vec<OutMsg>)
        ensures
            frame_ok(*old(self), *final(self)),
            only_state(*old(self), *final(self), ConnState::Closed),
            out@.len() == 1 && out@[0] is CloseTransport,
    {
        self.state = ConnState::Closed;
        let mut out: Vec<OutMsg> = Vec::new();
        out.push(OutMsg::CloseTransport);
        out
    }

    /// `textDocument/didOpen`: stores the document, overwriting an already
    /// open one.
    pub fn did_open(&mut self, uri: Vec<u8>, version: u64, text: Vec<u8>) -> (out: Vec<OutMsg>)
        ensures
            frame_ok(*old(self), *final(self)),
            final(self).state == old(self).state && final(self).pending == old(self).pending
                && final(self).next_req_id == old(self).next_req_id,
            old(self).state is Ready ==> final(self).store.model() == old(self).store.model().insert(uri@, DocModel { version: version as int, text: text@ })
                && out@.len() == 1 && is_log(out@[0], false, t_opened()),
            !(old(self).state is Ready) ==> final(self).store == old(self).store && out@.len()
                == 0,
    {
        let mut out: Vec<OutMsg> = Vec::new();
        if self.state == ConnState::Ready {
            self.store.open_doc(uri, version, text);
            out.push(OutMsg::LogNote { error: false, text: t_opened_vec() });
        }
        out
    }

    /// `textDocument/didChange`: applies the edits to the stored text; a
    /// closed or never-opened URI is reported, not fatal.
    pub fn did_change(&mut self, uri: &Vec<u8>, version: u64, edits: &Vec<Edit>) -> (out: Vec<
        OutMsg,
    >)
        ensures
            frame_ok(*old(self), *final(self)),
            final(self).state == old(self).state && final(self).pending == old(self).pending
                && final(self).next_req_id == old(self).next_req_id,
            old(self).state is Ready && old(self).store.model().dom().contains(uri@) ==> final(self).store.model() == old(self).store.model().insert(
                uri@,
                DocModel {
                    version: version as int,
                    text: apply_edits_spec(old(self).store.model()[uri@].text, edits@),
                },
            ) && out@.len() == 1 && is_log(out@[0], false, t_changed()),
            old(self).state is Ready && !old(self).store.model().dom().contains(uri@) ==> final(self).store == old(self).store && out@.len() == 1 && is_log(
                out@[0],
                true,
                t_not_found(),
            ),
            !(old(self).state is Ready) ==> final(self).store == old(self).store && out@.len()
                == 0,
    {
        let mut out: Vec<OutMsg> = Vec::new();
        if self.state == ConnState::Ready {
            match self.store.change_doc(uri, version, edits) {
                Result::Ok(()) => {
                    out.push(OutMsg::LogNote { error: false, text: t_changed_vec() });
                },
                Result::Err(_) => {
                    out.push(OutMsg::LogNote { error: true, text: t_not_found_vec() });
                },
            }
        }
        out
    }

    /// `textDocument/didSave`: the store is unchanged; an unknown URI is
    /// reported, not fatal.
    pub fn did_save(&mut self, uri: &Vec<u8>) -> (out: Vec<OutMsg>)
        ensures
            frame_ok(*old(self), *final(self)),
            unchanged(*old(self), *final(self)),
            old(self).state is Ready && old(self).store.model().dom().contains(uri@)
                ==> out@.len() == 1 && is_log(out@[0], false, t_saved()),
            old(self).state is Ready && !old(self).store.model().dom().contains(uri@)
                ==> out@.len() == 1 && is_log(out@[0], true, t_not_found()),
            !(old(self).state is Ready) ==> out@.len() == 0,
    {
        let mut out: Vec<OutMsg> = Vec::new();
        if self.state == ConnState::Ready {
            match self.store.save_doc(uri) {
                Result::Ok(()) => {
                    out.push(OutMsg::LogNote { error: false, text: t_saved_vec() });
                },
                Result::Err(_) => {
                    out.push(OutMsg::LogNote { error: true, text: t_not_found_vec() });
                },
            }
        }
        out
    }

    /// `textDocument/didClose`: removes the entry; an unknown URI is
    /// reported, not fatal.
    pub fn did_close(&mut self, uri: &Vec<u8>) -> (out: Vec<OutMsg>)
        ensures
            frame_ok(*old(self), *final(self)),
            final(self).state == old(self).state && final(self).pending == old(self).pending
                && final(self).next_req_id == old(self).next_req_id,
            old(self).state is Ready && old(self).store.model().dom().contains(uri@) ==> final(self).store.model() == old(self).store.model().remove(uri@) && out@.len() == 1 && is_log(
                out@[0],
                false,
                t_closed(),
            ),
            old(self).state is Ready && !old(self).store.model().dom().contains(uri@) ==> final(self).store == old(self).store && out@.len() == 1 && is_log(
                out@[0],
                true,
                t_not_found(),
            ),
            !(old(self).state is Ready) ==> final(self).store == old(self).store && out@.len()
                == 0,
    {
        let mut out: Vec<OutMsg> = Vec::new();
        if self.state == ConnState::Ready {
            match self.store.close_doc(uri) {
                Result::Ok(()) => {
                    out.push(OutMsg::LogNote { error: false, text: t_closed_vec() });
                },
                Result::Err(_) => {
                    out.push(OutMsg::LogNote { error: true, text: t_not_found_vec() });
                },
            }
        }
        out
    }

    /// `textDocument/completion`: pure query against the dictionary; the
    /// trigger character, when present, is the literal prefix to match.
    pub fn completion(&self, id: u64, trigger: &Option<Vec<u8>>) -> (out: Vec<OutMsg>)
        ensures
            self.state is Ready ==> out@.len() == 1 && is_completion_result(
                out@[0],
                id,
                self.dict.deep_view(),
                match trigger {
                    Option::Some(t) => t@,
                    Option::None => Seq::<u8>::empty(),
                },
            ),
            !(self.state is Ready) ==> out@.len() == 1 && is_error_result(
                out@[0],
                id,
                ErrKind::StateError,
            ),
    {
        let mut out: Vec<OutMsg> = Vec::new();
        if self.state == ConnState::Ready {
            let items = match trigger {
                Option::Some(t) => complete(&self.dict, t),
                Option::None => {
                    let empty: Vec<u8> = Vec::new();
                    proof {
                        assert(empty@ =~= Seq::<u8>::empty());
                    }
                    complete(&self.dict, &empty)
                },
            };
            out.push(OutMsg::CompletionResult { id, items });
        } else {
            out.push(OutMsg::ErrorResult { id, kind: ErrKind::StateError });
        }
        out
    }

    /// `workspace/executeCommand`: runs a registered command; an unknown
    /// name is an invalid request and has no side effect. A dispatched
    /// apply-edit reports success at once: the edit is advisory and its
    /// outcome arrives later as a client reply.
    pub fn execute_command(&mut self, id: u64, command: &Vec<u8>, arguments: Vec<NotePayload>)
        -> (out: Vec<OutMsg>)
        ensures
            frame_ok(*old(self), *final(self)),
            old(self).state is Ready ==> command_step(
                *old(self),
                id,
                command@,
                arguments@,
                *final(self),
                out@,
            ),
            !(old(self).state is Ready) ==> unchanged(*old(self), *final(self)) && out@.len()
                == 1 && is_error_result(out@[0], id, ErrKind::StateError),
    {
        let mut out: Vec<OutMsg> = Vec::new();
        if self.state != ConnState::Ready {
            out.push(OutMsg::ErrorResult { id, kind: ErrKind::StateError });
            return out;
        }
        if crate::bytes_eq(command, &cmd_notify_vec()) {
            let mut arguments = arguments;
            if arguments.len() >= 1 {
                let n = arguments.remove(0);
                out.push(OutMsg::LogNote { error: false, text: t_executed_vec() });
                out.push(OutMsg::CustomNote {
                    title: n.title,
                    message: n.message,
                    description: n.description,
                });
                out.push(OutMsg::NullResult { id });
            } else {
                out.push(OutMsg::ErrorResult { id, kind: ErrKind::InvalidRequest });
            }
        } else if crate::bytes_eq(command, &cmd_apply_edit_vec()) {
            let rid = self.next_req_id;
            self.pending.push(rid);
            if self.next_req_id < u64::MAX {
                self.next_req_id = self.next_req_id + 1;
            }
            out.push(OutMsg::LogNote { error: false, text: t_executed_vec() });
            out.push(OutMsg::ApplyEditRequest { id: rid });
            out.push(OutMsg::NullResult { id });
        } else {
            out.push(OutMsg::ErrorResult { id, kind: ErrKind::InvalidRequest });
        }
        out
    }

    /// A client reply to an apply-edit request: logged, correlated by id,
    /// and never surfaced as a failure of the command that caused it.
    pub fn handle_reply(&mut self, id: u64, outcome: ReplyOutcome) -> (out: Vec<OutMsg>)
        ensures
            frame_ok(*old(self), *final(self)),
            reply_step(*old(self), id, outcome, *final(self), out@),
    {
        let mut out: Vec<OutMsg> = Vec::new();
        if self.state == ConnState::Closed {
            return out;
        }
        let mut i: usize = 0;
        let n = self.pending.len();
        while i < n
            invariant
                i <= n == self.pending@.len(),
                *self == *old(self),
                !(old(self).state is Closed),
                out@.len() == 0,
                forall|j: int| 0 <= j < i ==> self.pending@[j] != id,
            decreases n - i,
        {
            if self.pending[i] == id {
                let ghost p0 = self.pending@;
                proof {
                    lemma_remove_first_at(p0, id, i as int);
                }
                self.pending.remove(i);
                proof {
                    assert(self.pending@ =~= p0.subrange(0, i as int) + p0.subrange(
                        i + 1,
                        p0.len() as int,
                    ));
                    assert(self.pending@ == remove_first(p0, id));
                    assert(p0.contains(id));
                }
                match outcome {
                    ReplyOutcome::Applied => {
                        out.push(OutMsg::LogNote { error: false, text: t_applied_vec() });
                    },
                    ReplyOutcome::Rejected => {
                        out.push(OutMsg::LogNote { error: false, text: t_rejected_vec() });
                    },
                    ReplyOutcome::Failed => {
                        out.push(OutMsg::LogNote { error: true, text: t_edit_failed_vec() });
                    },
                }
                return out;
            }
            i += 1;
        }
        proof {
            assert(!self.pending@.contains(id)) by {
                if self.pending@.contains(id) {
                    let j = choose|j: int|
                        0 <= j < self.pending@.len() && self.pending@[j] == id;
                    assert(self.pending@[j] != id);
                }
            }
        }
        out
    }

    /// Routes one decoded message: classifies it as request, notification
    /// or reply, dispatches by method tag, and returns everything to send.
    pub fn handle(&mut self, msg: Incoming) -> (out: Vec<OutMsg>)
        ensures
            router_step(*old(self), msg, *final(self), out@),
    {
        match msg {
            Incoming::Request { id, method, params } => {
                if self.state == ConnState::Closed {
                    return Vec::new();
                }
                match method_tag(&method) {
                    Tag::Initialize => self.initialize(id),
                    Tag::Shutdown => self.shutdown(id),
                    Tag::Unknown => {
                        let mut out: Vec<OutMsg> = Vec::new();
                        out.push(OutMsg::ErrorResult { id, kind: ErrKind::MethodNotFound });
                        out
                    },
                    Tag::Completion => {
                        if self.state != ConnState::Ready {
                            let mut out: Vec<OutMsg> = Vec::new();
                            out.push(OutMsg::ErrorResult { id, kind: ErrKind::StateError });
                            return out;
                        }
                        match params {
                            Params::CompletionAt { trigger } => self.completion(id, &trigger),
                            _ => {
                                let mut out: Vec<OutMsg> = Vec::new();
                                out.push(OutMsg::ErrorResult {
                                    id,
                                    kind: ErrKind::InvalidRequest,
                                });
                                out
                            },
                        }
                    },
                    Tag::ExecuteCommand => {
                        if self.state != ConnState::Ready {
                            let mut out: Vec<OutMsg> = Vec::new();
                            out.push(OutMsg::ErrorResult { id, kind: ErrKind::StateError });
                            return out;
                        }
                        match params {
                            Params::RunCommand { command, arguments } => self.execute_command(
                                id,
                                &command,
                                arguments,
                            ),
                            _ => {
                                let mut out: Vec<OutMsg> = Vec::new();
                                out.push(OutMsg::ErrorResult {
                                    id,
                                    kind: ErrKind::InvalidRequest,
                                });
                                out
                            },
                        }
                    },
                    _ => {
                        let mut out: Vec<OutMsg> = Vec::new();
                        if self.state != ConnState::Ready {
                            out.push(OutMsg::ErrorResult { id, kind: ErrKind::StateError });
                        } else {
                            out.push(OutMsg::ErrorResult { id, kind: ErrKind::InvalidRequest });
                        }
                        out
                    },
                }
            },
            Incoming::Notification { method, params } => {
                if self.state == ConnState::Closed {
                    return Vec::new();
                }
                match method_tag(&method) {
                    Tag::Initialized => self.initialized(),
                    Tag::Exit => self.exit(),
                    Tag::DidOpen => {
                        if self.state != ConnState::Ready {
                            return Vec::new();
                        }
                        match params {
                            Params::OpenDoc { uri, version, text } => self.did_open(
                                uri,
                                version,
                                text,
                            ),
                            _ => Vec::new(),
                        }
                    },
                    Tag::DidChange => {
                        if self.state != ConnState::Ready {
                            return Vec::new();
                        }
                        match params {
                            Params::ChangeDoc { uri, version, edits } => self.did_change(
                                &uri,
                                version,
                                &edits,
                            ),
                            _ => Vec::new(),
                        }
                    },
                    Tag::DidSave => {
                        if self.state != ConnState::Ready {
                            return Vec::new();
                        }
                        match params {
                            Params::SaveDoc { uri } => self.did_save(&uri),
                            _ => Vec::new(),
                        }
                    },
                    Tag::DidClose => {
                        if self.state != ConnState::Ready {
                            return Vec::new();
                        }
                        match params {
                            Params::CloseDoc { uri } => self.did_close(&uri),
                            _ => Vec::new(),
                        }
                    },
                    _ => Vec::new(),
                }
            },
            Incoming::Reply { id, outcome } => self.handle_reply(id, outcome),
        }
    }
}

proof fn lemma_remove_first_at(s: Seq<u64>, x: u64, i: int)
    requires
        0 <= i < s.len(),
        s[i] == x,
        forall|j: int| 0 <= j < i ==> s[j] != x,
    ensures
        remove_first(s, x) == s.subrange(0, i) + s.subrange(i + 1, s.len() as int),
    decreases i,
{
    if i == 0 {
        assert(s.drop_first() =~= s.subrange(0, 0) + s.subrange(1, s.len() as int));
    } else {
        lemma_remove_first_at(s.drop_first(), x, i - 1);
        assert(s.drop_first().subrange(0, i - 1) =~= s.subrange(1, i));
        assert(s.drop_first().subrange(i, s.drop_first().len() as int) =~= s.subrange(
            i + 1,
            s.len() as int,
        ));
        assert(seq![s[0]] + (s.subrange(1, i) + s.subrange(i + 1, s.len() as int)) =~= s.subrange(
            0,
            i,
        ) + s.subrange(i + 1, s.len() as int));
    }
}

} // verus!
