//! The decisions of one server session: its phase, its request ledger and
//! its document versions. The code that owns the child process feeds each
//! command, response and read failure to these functions and performs the
//! action that comes back.

use crate::ledger::{after_resolve, EditorRequest, PendingRequest, RequestLedger};
use crate::versions::{after_change, after_close, after_open, change_version, DocumentVersions};
use vstd::prelude::*;

verus! {

/// Phases of a session.
#[derive(Clone, Copy, Debug, PartialEq, Eq, Structural)]
pub enum SessionState {
    Unstarted,
    Initializing,
    Ready,
    ShuttingDown,
    Terminated,
    Failed,
}

/// Errors that a command to a session returns at once.
#[derive(Clone, Copy, Debug, PartialEq, Eq, Structural)]
pub enum SessionError {
    /// The session has not finished its initialize handshake.
    NotInitialized,
    /// Initialize was asked of a session that already started it.
    AlreadyInitialized,
    /// The session has ended; its command queue is closed.
    ChannelClosed,
    /// Every request id of the session has been used.
    RequestIdsExhausted,
}

/// What to do with a response read from the server.
#[derive(Clone, Copy, Debug, PartialEq, Eq, Structural)]
pub enum ResponseAction {
    /// No request awaits this id: drop it.
    Unmatched,
    /// The initialize handshake succeeded: send `initialized` and report it.
    Initialized,
    /// The server answered initialize with an error: report it to the caller.
    /// Only that request is resolved; the session stays up and its handshake
    /// may be tried again.
    InitializeFailed,
    /// Hand the result of an editor request back, tagged with the editor's id.
    Deliver { request: EditorRequest, is_error: bool },
    /// The shutdown request was answered: send `exit` and end the process.
    ShutdownAcknowledged,
}

/// What a shutdown command asks of the process owner.
#[derive(Clone, Copy, Debug, PartialEq, Eq, Structural)]
pub enum ShutdownAction {
    /// Send a `shutdown` request with this id, then wait for its response.
    SendShutdown { id: u64 },
    /// The server never finished initializing: end the process directly.
    Terminate,
    /// The session is already shutting down or over.
    Nothing,
}

/// How a notification from the server is handled.
#[derive(Clone, Copy, Debug, PartialEq, Eq, Structural)]
pub enum NotificationAction {
    ForwardDiagnostics,
    Log,
    Ignore,
}

/// The severity at which a server message is logged.
#[derive(Clone, Copy, Debug, PartialEq, Eq, Structural)]
pub enum LogLevel {
    Error,
    Warn,
    Info,
    Debug,
    Trace,
}

/// Events that a session pushes to the editor thread.
#[derive(Debug)]
pub enum BridgeMessage {
    Diagnostics { uri: String, diagnostics_json: String },
    Initialized { language: String },
    Error { language: String, error: String },
    RequestResult { request: EditorRequest, result_json: String, is_error: bool },
}

/// The error a document or request command gets in a given phase, if any.
pub open spec fn command_gate(s: SessionState) -> Option<SessionError> {
    match s {
        SessionState::Ready => None,
        SessionState::Unstarted | SessionState::Initializing => Some(SessionError::NotInitialized),
        _ => Some(SessionError::ChannelClosed),
    }
}

pub open spec fn is_over(s: SessionState) -> bool {
    s == SessionState::Terminated || s == SessionState::Failed
}

/// The severity of a `window/showMessage` or `window/logMessage` type field.
pub open spec fn log_level_spec(message_type: i64) -> LogLevel {
    if message_type == 1 {
        LogLevel::Error
    } else if message_type == 2 {
        LogLevel::Warn
    } else if message_type == 3 {
        LogLevel::Info
    } else if message_type == 4 {
        LogLevel::Debug
    } else {
        LogLevel::Trace
    }
}

pub fn log_level(message_type: i64) -> (r: LogLevel)
    ensures
        r == log_level_spec(message_type),
{
    if message_type == 1 {
        LogLevel::Error
    } else if message_type == 2 {
        LogLevel::Warn
    } else if message_type == 3 {
        LogLevel::Info
    } else if message_type == 4 {
        LogLevel::Debug
    } else {
        LogLevel::Trace
    }
}

pub open spec fn notification_action_spec(method: Seq<char>) -> NotificationAction {
    if method == "textDocument/publishDiagnostics"@ {
        NotificationAction::ForwardDiagnostics
    } else if method == "window/showMessage"@ || method == "window/logMessage"@ {
        NotificationAction::Log
    } else {
        NotificationAction::Ignore
    }
}

/// How a server notification with method `method` is handled; unknown
/// methods are ignored, never an error.
pub fn notification_action(method: &String) -> (r: NotificationAction)
    ensures
        r == notification_action_spec(method@),
{
    let diagnostics = String::from_str("textDocument/publishDiagnostics");
    let show = String::from_str("window/showMessage");
    let log = String::from_str("window/logMessage");
    if *method == diagnostics {
        NotificationAction::ForwardDiagnostics
    } else if *method == show || *method == log {
        NotificationAction::Log
    } else {
        NotificationAction::Ignore
    }
}

/// One language server session.
pub struct Session {
    state: SessionState,
    ledger: RequestLedger,
    versions: DocumentVersions,
    language: String,
}

impl Session {
    pub closed spec fn wf(&self) -> bool {
        self.ledger.wf() && self.versions.wf()
    }

    pub closed spec fn phase(&self) -> SessionState {
        self.state
    }

    /// Versions of the documents that are open, by path.
    pub closed spec fn versions(&self) -> Map<Seq<char>, int> {
        self.versions@
    }

    /// Requests that await a response, by id.
    pub closed spec fn pending(&self) -> Map<u64, PendingRequest> {
        self.ledger.pending_spec()
    }

    pub closed spec fn next_id(&self) -> u64 {
        self.ledger.next_id_spec()
    }

    pub closed spec fn language_spec(&self) -> Seq<char> {
        self.language@
    }

    /// A session for `language` whose process is about to start.
    pub fn new(language: String) -> (r: Self)
        ensures
            r.wf(),
            r.phase() == SessionState::Unstarted,
            r.versions() == Map::<Seq<char>, int>::empty(),
            r.pending() == Map::<u64, PendingRequest>::empty(),
            r.next_id() == 0,
            r.language_spec() == language@,
    {
        Session {
            state: SessionState::Unstarted,
            ledger: RequestLedger::new(),
            versions: DocumentVersions::new(),
            language,
        }
    }

    pub fn state(&self) -> (r: SessionState)
        ensures
            r == self.phase(),
    {
        self.state
    }

    pub fn language(&self) -> (r: &String)
        ensures
            r@ == self.language_spec(),
    {
        &self.language
    }

    pub fn version_of(&self, path: &String) -> (r: Option<i32>)
        requires
            self.wf(),
        ensures
            r matches Some(v) ==> self.versions().contains_key(path@) && self.versions()[path@]
                == v as int,
            r is None ==> !self.versions().contains_key(path@),
    {
        self.versions.version_of(path)
    }

    pub fn outstanding_requests(&self) -> (r: usize)
        ensures
            r == self.pending().len(),
    {
        self.ledger.outstanding()
    }

    /// Starts the initialize handshake: returns the id of the `initialize` request.
    pub fn begin_initialize(&mut self) -> (r: Result<u64, SessionError>)
        requires
            old(self).wf(),
        ensures
            final(self).wf(),
            final(self).versions() == old(self).versions(),
            final(self).language_spec() == old(self).language_spec(),
            old(self).phase() == SessionState::Unstarted && old(self).next_id() < u64::MAX ==> {
                &&& r == Ok::<u64, SessionError>(old(self).next_id())
                &&& final(self).phase() == SessionState::Initializing
                &&& final(self).pending() == old(self).pending().insert(
                    old(self).next_id(),
                    PendingRequest::Initialize,
                )
                &&& final(self).next_id() == old(self).next_id() + 1
            },
            old(self).phase() == SessionState::Unstarted && old(self).next_id() == u64::MAX ==> r
                == Err::<u64, SessionError>(SessionError::RequestIdsExhausted) && *final(self)
                == *old(self),
            old(self).phase() != SessionState::Unstarted ==> *final(self) == *old(self) && r == Err::<
                u64,
                SessionError,
            >(
                if is_over(old(self).phase()) {
                    SessionError::ChannelClosed
                } else {
                    SessionError::AlreadyInitialized
                },
            ),
    {
        match self.state {
            SessionState::Unstarted => {},
            SessionState::Terminated | SessionState::Failed => {
                return Err(SessionError::ChannelClosed);
            },
            _ => {
                return Err(SessionError::AlreadyInitialized);
            },
        }
        match self.ledger.register(PendingRequest::Initialize) {
            Some(id) => {
                self.state = SessionState::Initializing;
                Ok(id)
            },
            None => Err(SessionError::RequestIdsExhausted),
        }
    }

    fn gate(&self) -> (r: Option<SessionError>)
        ensures
            r == command_gate(self.phase()),
    {
        match self.state {
            SessionState::Ready => None,
            SessionState::Unstarted | SessionState::Initializing => Some(
                SessionError::NotInitialized,
            ),
            _ => Some(SessionError::ChannelClosed),
        }
    }

    /// A didOpen of `path`: returns the version to announce, which is 1.
    pub fn did_open(&mut self, path: &String) -> (r: Result<i32, SessionError>)
        requires
            old(self).wf(),
        ensures
            final(self).wf(),
            final(self).phase() == old(self).phase(),
            final(self).pending() == old(self).pending(),
            final(self).next_id() == old(self).next_id(),
            final(self).language_spec() == old(self).language_spec(),
            match command_gate(old(self).phase()) {
                None => r == Ok::<i32, SessionError>(1) && final(self).versions() == after_open(
                    old(self).versions(),
                    path@,
                ),
                Some(e) => r == Err::<i32, SessionError>(e) && final(self).versions() == old(
                    self,
                ).versions(),
            },
    {
        if let Some(e) = self.gate() {
            return Err(e);
        }
        Ok(self.versions.open(path))
    }

    /// A didChange of `path`: returns the version to announce, or `Ok(None)`
    /// where the path is not open, in which case nothing is sent.
    pub fn did_change(&mut self, path: &String) -> (r: Result<Option<i32>, SessionError>)
        requires
            old(self).wf(),
        ensures
            final(self).wf(),
            final(self).phase() == old(self).phase(),
            final(self).pending() == old(self).pending(),
            final(self).next_id() == old(self).next_id(),
            final(self).language_spec() == old(self).language_spec(),
            match command_gate(old(self).phase()) {
                None => {
                    &&& final(self).versions() == after_change(old(self).versions(), path@)
                    &&& r matches Ok(v) && (match v {
                        Some(n) => change_version(old(self).versions(), path@) == Some(n as int),
                        None => change_version(old(self).versions(), path@) is None,
                    })
                },
                Some(e) => r == Err::<Option<i32>, SessionError>(e) && final(self).versions()
                    == old(self).versions(),
            },
    {
        if let Some(e) = self.gate() {
            return Err(e);
        }
        Ok(self.versions.change(path))
    }

    /// A didClose of `path`: the path is forgotten.
    pub fn did_close(&mut self, path: &String) -> (r: Result<(), SessionError>)
        requires
            old(self).wf(),
        ensures
            final(self).wf(),
            final(self).phase() == old(self).phase(),
            final(self).pending() == old(self).pending(),
            final(self).next_id() == old(self).next_id(),
            final(self).language_spec() == old(self).language_spec(),
            match command_gate(old(self).phase()) {
                None => r is Ok && final(self).versions() == after_close(
                    old(self).versions(),
                    path@,
                ),
                Some(e) => r == Err::<(), SessionError>(e) && final(self).versions() == old(
                    self,
                ).versions(),
            },
    {
        if let Some(e) = self.gate() {
            return Err(e);
        }
        self.versions.close(path);
        Ok(())
    }

    /// An editor request (diagnostics, inlay hints, folding ranges): returns
    /// the id of the request to send; its result comes back later.
    pub fn begin_request(&mut self, request: EditorRequest) -> (r: Result<u64, SessionError>)
        requires
            old(self).wf(),
        ensures
            final(self).wf(),
            final(self).phase() == old(self).phase(),
            final(self).versions() == old(self).versions(),
            final(self).language_spec() == old(self).language_spec(),
            match command_gate(old(self).phase()) {
                None => if old(self).next_id() < u64::MAX {
                    &&& r == Ok::<u64, SessionError>(old(self).next_id())
                    &&& final(self).pending() == old(self).pending().insert(
                        old(self).next_id(),
                        PendingRequest::Editor(request),
                    )
                    &&& final(self).next_id() == old(self).next_id() + 1
                } else {
                    r == Err::<u64, SessionError>(SessionError::RequestIdsExhausted)
                        && final(self).pending() == old(self).pending() && final(self).next_id()
                        == old(self).next_id()
                },
                Some(e) => r == Err::<u64, SessionError>(e) && final(self).pending() == old(
                    self,
                ).pending() && final(self).next_id() == old(self).next_id(),
            },
    {
        if let Some(e) = self.gate() {
            return Err(e);
        }
        match self.ledger.register(PendingRequest::Editor(request)) {
            Some(id) => Ok(id),
            None => Err(SessionError::RequestIdsExhausted),
        }
    }

    /// Gives up waiting for request `id` (the caller sends `$/cancelRequest`
    /// for it when this returns true). A response that still arrives for it
    /// is then unmatched and dropped.
    pub fn cancel_request(&mut self, id: u64) -> (r: bool)
        requires
            old(self).wf(),
        ensures
            final(self).wf(),
            r == old(self).pending().contains_key(id),
            final(self).pending() == after_resolve(old(self).pending(), id),
            final(self).phase() == old(self).phase(),
            final(self).versions() == old(self).versions(),
            final(self).next_id() == old(self).next_id(),
            final(self).language_spec() == old(self).language_spec(),
    {
        self.ledger.resolve(id).is_some()
    }

    /// A shutdown command. A second shutdown is a no-op. Requests still
    /// outstanding when the session ends are dropped.
    pub fn begin_shutdown(&mut self) -> (r: ShutdownAction)
        requires
            old(self).wf(),
        ensures
            final(self).wf(),
            final(self).versions() == old(self).versions(),
            final(self).language_spec() == old(self).language_spec(),
            old(self).phase() == SessionState::Ready && old(self).next_id() < u64::MAX ==> {
                &&& r == (ShutdownAction::SendShutdown { id: old(self).next_id() })
                &&& final(self).next_id() == old(self).next_id() + 1
                &&& final(self).phase() == SessionState::ShuttingDown
                &&& final(self).pending() == old(self).pending().insert(
                    old(self).next_id(),
                    PendingRequest::Shutdown,
                )
            },
            (old(self).phase() == SessionState::Unstarted || old(self).phase()
                == SessionState::Initializing || (old(self).phase() == SessionState::Ready && old(
                self,
            ).next_id() == u64::MAX)) ==> {
                &&& r == ShutdownAction::Terminate
                &&& final(self).next_id() == old(self).next_id()
                &&& final(self).phase() == SessionState::Terminated
                &&& final(self).pending() == Map::<u64, PendingRequest>::empty()
            },
            (old(self).phase() == SessionState::ShuttingDown || is_over(old(self).phase())) ==> r
                == ShutdownAction::Nothing && *final(self) == *old(self),
    {
        match self.state {
            SessionState::Ready => {
                match self.ledger.register(PendingRequest::Shutdown) {
                    Some(id) => {
                        self.state = SessionState::ShuttingDown;
                        ShutdownAction::SendShutdown { id }
                    },
                    None => {
                        self.ledger.drop_all();
                        self.state = SessionState::Terminated;
                        ShutdownAction::Terminate
                    },
                }
            },
            SessionState::Unstarted | SessionState::Initializing => {
                self.ledger.drop_all();
                self.state = SessionState::Terminated;
                ShutdownAction::Terminate
            },
            _ => ShutdownAction::Nothing,
        }
    }

    /// A response with id `id` was read. It resolves at most one ledger
    /// entry; a response for an unknown id is dropped.
    pub fn on_response(&mut self, id: u64, is_error: bool) -> (r: ResponseAction)
        requires
            old(self).wf(),
        ensures
            final(self).wf(),
            final(self).versions() == old(self).versions(),
            final(self).next_id() == old(self).next_id(),
            final(self).language_spec() == old(self).language_spec(),
            match old(self).pending().get(id) {
                None => {
                    &&& r == ResponseAction::Unmatched
                    &&& final(self).phase() == old(self).phase()
                    &&& final(self).pending() == old(self).pending()
                },
                Some(PendingRequest::Initialize) => if is_error {
                    &&& r == ResponseAction::InitializeFailed
                    &&& final(self).phase() == (if old(self).phase() == SessionState::Initializing {
                        SessionState::Unstarted
                    } else {
                        old(self).phase()
                    })
                    &&& final(self).pending() == after_resolve(old(self).pending(), id)
                } else {
                    &&& r == ResponseAction::Initialized
                    &&& final(self).phase() == (if old(self).phase() == SessionState::Initializing {
                        SessionState::Ready
                    } else {
                        old(self).phase()
                    })
                    &&& final(self).pending() == after_resolve(old(self).pending(), id)
                },
                Some(PendingRequest::Shutdown) => {
                    &&& r == ResponseAction::ShutdownAcknowledged
                    &&& final(self).phase() == SessionState::Terminated
                    &&& final(self).pending() == Map::<u64, PendingRequest>::empty()
                },
                Some(PendingRequest::Editor(req)) => {
                    &&& r == (ResponseAction::Deliver { request: req, is_error })
                    &&& final(self).phase() == old(self).phase()
                    &&& final(self).pending() == after_resolve(old(self).pending(), id)
                },
            },
    {
        match self.ledger.resolve(id) {
            None => {
                assert(after_resolve(old(self).pending(), id) =~= old(self).pending());
                ResponseAction::Unmatched
            },
            Some(PendingRequest::Initialize) => {
                if is_error {
                    if let SessionState::Initializing = self.state {
                        self.state = SessionState::Unstarted;
                    }
                    ResponseAction::InitializeFailed
                } else {
                    if let SessionState::Initializing = self.state {
                        self.state = SessionState::Ready;
                    }
                    ResponseAction::Initialized
                }
            },
            Some(PendingRequest::Shutdown) => {
                self.ledger.drop_all();
                self.state = SessionState::Terminated;
                ResponseAction::ShutdownAcknowledged
            },
            Some(PendingRequest::Editor(req)) => ResponseAction::Deliver { request: req, is_error },
        }
    }

    /// Reading from the server failed (framing error, end of stream). The
    /// session fails and its outstanding requests are dropped. Returns the one
    /// `Error` message to push to the editor, or `None` if the session had
    /// already ended (it was reported then).
    pub fn on_transport_error(&mut self, error: String) -> (r: Option<BridgeMessage>)
        requires
            old(self).wf(),
        ensures
            final(self).wf(),
            final(self).versions() == old(self).versions(),
            final(self).next_id() == old(self).next_id(),
            final(self).language_spec() == old(self).language_spec(),
            is_over(old(self).phase()) ==> r is None && *final(self) == *old(self),
            !is_over(old(self).phase()) ==> {
                &&& final(self).phase() == SessionState::Failed
                &&& final(self).pending() == Map::<u64, PendingRequest>::empty()
                &&& r matches Some(BridgeMessage::Error { language, error: e }) && language@
                    == old(self).language_spec() && e@ == error@
            },
    {
        match self.state {
            SessionState::Terminated | SessionState::Failed => None,
            _ => {
                self.ledger.drop_all();
                self.state = SessionState::Failed;
                Some(BridgeMessage::Error { language: self.language.clone(), error })
            },
        }
    }
}

} // verus!
