//! The rules of one protocol session, apart from all input and output.
//!
//! A [`Session`] is the state of the worker between two pieces of outside
//! work. [`Session::step`] takes what the last piece of work came to and says
//! what to do next. Whoever runs the session performs that action and comes
//! back with its outcome; the session itself never waits, reads or writes.

use super::client::LspCommand;
use super::diagnostic::Span;
use lsp_types::{CodeAction, Diagnostic};
use serde_json::Value;
use vstd::prelude::*;

verus! {

/// Longest wait for one message while the answer to a request is awaited, in
/// milliseconds.
pub const REQUEST_READ_MS: u64 = 10;

/// Longest wait for one message while diagnostics are awaited, in
/// milliseconds.
pub const POLL_READ_MS: u64 = 5;

/// How long the server gets to answer `shutdown`, in milliseconds.
pub const SHUTDOWN_TIMEOUT_MS: u64 = 100;

/// How long the server gets to leave by itself after `exit`, in milliseconds.
pub const EXIT_GRACE_MS: u64 = 20;

/// By how much the configured timeout is stretched for `initialize`, so that
/// a server that is slow to start is not given up on.
pub const INITIALIZE_PATIENCE: u64 = 5;

/// The id of the first request on a new connection.
pub const FIRST_REQUEST_ID: i32 = 1;

/// What a request is for, which decides what its answer leads to.
#[derive(Debug, Clone, Copy, PartialEq, Eq, Structural)]
pub enum Purpose {
    /// The `initialize` request of the handshake.
    Initialize,
    /// A request for code actions.
    CodeActions,
    /// A request to execute a command.
    ExecuteCommand,
    /// The `shutdown` request.
    Shutdown,
}

/// The message that is being written.
#[derive(Debug, Clone, Copy, PartialEq, Eq, Structural)]
pub enum Written {
    /// A request, whose answer will be awaited under `id`.
    Request { id: i32, purpose: Purpose },
    /// The `initialized` notification of the handshake.
    Initialized,
    /// The `textDocument/didOpen` notification of the handshake.
    DidOpen,
    /// A `textDocument/didChange` notification.
    DidChange,
    /// The `exit` notification.
    Exit,
}

/// Where the session stands.
#[derive(Debug, Clone, Copy, PartialEq, Eq, Structural)]
pub enum Phase {
    /// Nothing is under way; the next command is awaited.
    Idle,
    /// The server process is being started.
    Spawning,
    /// A message is being written.
    Writing(Written),
    /// The answer to the request `id` is awaited for up to `timeout_ms`.
    Waiting { id: i32, purpose: Purpose, timeout_ms: u64 },
    /// Diagnostics for the content last pushed are awaited.
    Polling,
    /// The server has been told to exit and is given a moment to do so.
    Sleeping,
    /// The server process is being terminated.
    Killing,
    /// The session is over.
    Terminated,
}

/// A message to the server, before it is put into JSON.
#[derive(Debug)]
pub enum Outgoing {
    /// The `initialize` request.
    Initialize { id: i32 },
    /// The `initialized` notification.
    Initialized,
    /// The `textDocument/didOpen` notification, for an empty document.
    DidOpen,
    /// The `textDocument/didChange` notification that carries the whole text.
    DidChange { version: i32, text: String },
    /// The request for the code actions at `span` of `content`.
    CodeActions { id: i32, content: String, span: Span },
    /// The `workspace/executeCommand` request.
    ExecuteCommand { id: i32, command: String, arguments: Vec<Value> },
    /// The `shutdown` request.
    Shutdown { id: i32 },
    /// The `exit` notification.
    Exit,
}

/// What is to be read of a message beyond its envelope.
#[derive(Debug, Clone, Copy, PartialEq, Eq, Structural)]
pub enum Reads {
    /// Nothing.
    Envelope,
    /// Its parameters, as the diagnostics of a publication.
    Diagnostics,
    /// Its result, as the answer to a request for code actions.
    CodeActions,
}

impl Reads {
    /// What is to be read of a message while the answer to a request is
    /// awaited: the answer to a request for code actions is read as such,
    /// and of any other only the envelope.
    pub open spec fn awaiting(purpose: Purpose) -> Reads {
        match purpose {
            Purpose::CodeActions => Reads::CodeActions,
            _ => Reads::Envelope,
        }
    }

    /// What is to be read of a message while the answer to a request is
    /// awaited.
    pub fn for_answer(purpose: Purpose) -> (reads: Reads)
        ensures
            reads == Reads::awaiting(purpose),
    {
        match purpose {
            Purpose::CodeActions => Reads::CodeActions,
            _ => Reads::Envelope,
        }
    }
}

/// One entry in the answer to a request for code actions.
#[derive(Debug)]
pub enum Offer {
    /// A code action.
    Action(CodeAction),
    /// A bare command: its title, the name under which the server knows
    /// it, and its arguments where it has any.
    Command { title: String, command: String, arguments: Option<Vec<Value>> },
}

/// What the session reads of a message from the server.
#[derive(Debug)]
pub struct Incoming {
    /// The id, where the message is an answer.
    pub id: Option<i32>,
    /// The result, where the message carries one.
    pub result: Option<Value>,
    /// The diagnostics, where the message publishes diagnostics.
    pub diagnostics: Option<Vec<Diagnostic>>,
    /// What the result offers, where it was read as the answer to a request
    /// for code actions.
    pub offers: Option<Vec<Offer>>,
}

/// A result for the foreground.
#[derive(Debug)]
pub enum Emission {
    /// No diagnostics, because there is nothing to analyse.
    NoDiagnostics,
    /// The diagnostics for the content last pushed.
    Diagnostics(Vec<Diagnostic>),
    /// What the answer to a request for code actions offers; `None` when no
    /// answer came, or one without a result, or one that could not be read.
    CodeActions(Option<Vec<Offer>>),
    /// Whether a command was executed.
    CommandExecuted(bool),
}

/// What has happened since the last step.
#[derive(Debug)]
pub enum Event {
    /// Nothing that the session waits for.
    Resume,
    /// A command came from the foreground.
    Command(LspCommand),
    /// The bounded wait for a command elapsed.
    NoCommand,
    /// The foreground is gone.
    Disconnected,
    /// The attempt to start the server ended, well or not.
    Spawned(bool),
    /// The attempt to write a message ended, well or not.
    Sent(bool),
    /// A read ended, with a message or without; `elapsed_ms` is the time
    /// since the current wait began.
    Received { message: Option<Incoming>, elapsed_ms: u64 },
}

/// What to do next.
#[derive(Debug)]
pub enum Action {
    /// Wait, for a bounded time, for the next command.
    AwaitCommand,
    /// Start the server process.
    Spawn,
    /// Write a message to the server.
    Send(Outgoing),
    /// Read one message, waiting up to `wait_ms`, and read of it what
    /// `reads` says; a wait begins with the read that has `restart` set.
    Receive { restart: bool, wait_ms: u64, reads: Reads },
    /// Hand a result to the foreground.
    Emit(Emission),
    /// Let go of a server whose handshake failed.
    Close,
    /// Do nothing for `ms` milliseconds.
    Sleep { ms: u64 },
    /// Terminate the server process.
    Kill,
    /// Leave the loop.
    Exit,
}

/// The state of the worker between two pieces of outside work.
#[derive(Debug)]
pub struct Session {
    /// The configured response timeout, in milliseconds.
    pub timeout_ms: u64,
    /// Whether a connection exists whose handshake is through.
    pub connected: bool,
    /// The id that the next request gets.
    pub next_id: i32,
    /// The version of the document, raised with each content push.
    pub version: i32,
    /// Where the session stands.
    pub phase: Phase,
    /// The content that started a handshake and is pushed once it is through.
    pub pending: Option<String>,
}

impl Outgoing {
    /// The id of the message: that of a request, and none for a
    /// notification.
    pub open spec fn request_id(self) -> Option<i32> {
        match self {
            Outgoing::Initialize { id } => Some(id),
            Outgoing::CodeActions { id, .. } => Some(id),
            Outgoing::ExecuteCommand { id, .. } => Some(id),
            Outgoing::Shutdown { id } => Some(id),
            _ => None,
        }
    }
}

impl Action {
    /// The id of the request that the action sends, if it sends one.
    pub open spec fn request_id(self) -> Option<i32> {
        match self {
            Action::Send(message) => message.request_id(),
            _ => None,
        }
    }
}

/// `n + 1`, or `n` itself where that is the largest number.
pub open spec fn bump(n: i32) -> i32 {
    if n < i32::MAX {
        (n + 1) as i32
    } else {
        n
    }
}

/// How long the answer to a request is awaited.
pub open spec fn patience(purpose: Purpose, timeout_ms: u64) -> u64 {
    match purpose {
        Purpose::Initialize => if timeout_ms * INITIALIZE_PATIENCE <= u64::MAX {
            (timeout_ms * INITIALIZE_PATIENCE) as u64
        } else {
            u64::MAX
        },
        Purpose::Shutdown => SHUTDOWN_TIMEOUT_MS,
        _ => timeout_ms,
    }
}

impl Session {
    /// The session of a worker that has not talked to a server yet.
    pub open spec fn fresh(timeout_ms: u64) -> Session {
        Session {
            timeout_ms,
            connected: false,
            next_id: FIRST_REQUEST_ID,
            version: 0,
            phase: Phase::Idle,
            pending: None,
        }
    }

    /// Whether the handshake is under way: the server is being started, or
    /// one of the three messages of the handshake is being written or
    /// answered.
    pub open spec fn in_handshake(self) -> bool {
        match self.phase {
            Phase::Spawning => true,
            Phase::Writing(Written::Request { purpose: Purpose::Initialize, .. }) => true,
            Phase::Writing(Written::Initialized) => true,
            Phase::Writing(Written::DidOpen) => true,
            Phase::Waiting { purpose: Purpose::Initialize, .. } => true,
            _ => false,
        }
    }

    /// Whether the phase is one in which the server is talked to on a
    /// connection whose handshake is through.
    pub open spec fn uses_connection(self) -> bool {
        match self.phase {
            Phase::Idle => false,
            Phase::Terminated => false,
            _ => !self.in_handshake(),
        }
    }

    /// The id of the request that is being written or whose answer is
    /// awaited.
    pub open spec fn outstanding(self) -> Option<i32> {
        match self.phase {
            Phase::Writing(Written::Request { id, .. }) => Some(id),
            Phase::Waiting { id, .. } => Some(id),
            _ => None,
        }
    }

    /// What holds of every session that began fresh: ids and versions have
    /// not fallen below where they began; the content that started a
    /// handshake is held until the handshake is through, and no longer;
    /// there is no connection before the handshake is through, and there is
    /// one in every phase that talks to the server afterwards; and the id
    /// that is outstanding has been used up.
    pub open spec fn wf(self) -> bool {
        &&& self.next_id >= FIRST_REQUEST_ID
        &&& self.version >= 0
        &&& self.in_handshake() ==> !self.connected
        &&& self.in_handshake() <==> self.pending is Some
        &&& self.uses_connection() ==> self.connected
        &&& self.outstanding() matches Some(id) ==> FIRST_REQUEST_ID <= id && (id < self.next_id
            || self.next_id == i32::MAX)
        &&& self.phase is Spawning ==> self.pending->0@.len() > 0
    }

    /// The session in another phase.
    pub open spec fn at(self, phase: Phase) -> Session {
        Session { phase, ..self }
    }

    /// A failed handshake: the connection is let go and nothing is pushed.
    pub open spec fn abandon(self) -> (Session, Action) {
        (Session { phase: Phase::Idle, connected: false, pending: None, ..self }, Action::Close)
    }

    /// A content push on a connection that stands: the version is raised and
    /// the whole text is sent.
    pub open spec fn push(self, text: String) -> (Session, Action) {
        (
            Session { version: bump(self.version), phase: Phase::Writing(Written::DidChange), ..self },
            Action::Send(Outgoing::DidChange { version: bump(self.version), text }),
        )
    }

    /// A request takes the next id, which is then used up.
    pub open spec fn ask(self, purpose: Purpose, message: Outgoing) -> (Session, Action) {
        (
            Session {
                next_id: bump(self.next_id),
                phase: Phase::Writing(Written::Request { id: self.next_id, purpose }),
                ..self
            },
            Action::Send(message),
        )
    }

    /// What a command leads to when nothing else is under way.
    pub open spec fn on_command(self, command: LspCommand) -> (Session, Action) {
        match command {
            LspCommand::UpdateContent(text) => if text@.len() == 0 {
                (self, Action::Emit(Emission::NoDiagnostics))
            } else if self.connected {
                self.push(text)
            } else {
                (Session { phase: Phase::Spawning, pending: Some(text), ..self }, Action::Spawn)
            },
            LspCommand::RequestCodeActions { content, span } => if self.connected {
                self.ask(
                    Purpose::CodeActions,
                    Outgoing::CodeActions { id: self.next_id, content, span },
                )
            } else {
                (self, Action::Emit(Emission::CodeActions(None)))
            },
            LspCommand::ExecuteCommand { command, arguments } => if self.connected {
                self.ask(
                    Purpose::ExecuteCommand,
                    Outgoing::ExecuteCommand { id: self.next_id, command, arguments },
                )
            } else {
                (self, Action::Emit(Emission::CommandExecuted(false)))
            },
            LspCommand::Shutdown => self.on_shutdown(),
        }
    }

    /// The ordered teardown: with a connection it begins with the `shutdown`
    /// request, without one the loop is left at once.
    pub open spec fn on_shutdown(self) -> (Session, Action) {
        if self.connected {
            self.ask(Purpose::Shutdown, Outgoing::Shutdown { id: self.next_id })
        } else {
            (self.at(Phase::Terminated), Action::Exit)
        }
    }

    /// What the end of a request leads to; `result` is what the answer
    /// carried and `offers` what was read of it as code actions, both `None`
    /// when no answer came. An answer without a result offers nothing.
    pub open spec fn resolve(
        self,
        purpose: Purpose,
        result: Option<Value>,
        offers: Option<Vec<Offer>>,
    ) -> (Session, Action) {
        match purpose {
            Purpose::Initialize => if result is Some {
                (self.at(Phase::Writing(Written::Initialized)), Action::Send(Outgoing::Initialized))
            } else {
                self.abandon()
            },
            Purpose::CodeActions => (
                self.at(Phase::Idle),
                Action::Emit(
                    Emission::CodeActions(
                        if result is Some {
                            offers
                        } else {
                            None
                        },
                    ),
                ),
            ),
            Purpose::ExecuteCommand => (
                self.at(Phase::Idle),
                Action::Emit(Emission::CommandExecuted(result is Some)),
            ),
            Purpose::Shutdown => (
                self.at(Phase::Writing(Written::Exit)),
                Action::Send(Outgoing::Exit),
            ),
        }
    }

    /// What the outcome of a write leads to.
    pub open spec fn on_written(self, written: Written, sent: bool) -> (Session, Action) {
        match written {
            Written::Request { id, purpose } => if !sent || patience(purpose, self.timeout_ms)
                == 0 {
                self.resolve(purpose, None, None)
            } else {
                (
                    self.at(
                        Phase::Waiting {
                            id,
                            purpose,
                            timeout_ms: patience(purpose, self.timeout_ms),
                        },
                    ),
                    Action::Receive {
                        restart: true,
                        wait_ms: REQUEST_READ_MS,
                        reads: Reads::awaiting(purpose),
                    },
                )
            },
            Written::Initialized => if sent {
                (self.at(Phase::Writing(Written::DidOpen)), Action::Send(Outgoing::DidOpen))
            } else {
                self.abandon()
            },
            Written::DidOpen => if sent {
                match self.pending {
                    Some(text) => Session { connected: true, pending: None, ..self }.push(text),
                    None => (
                        Session { connected: true, phase: Phase::Idle, ..self },
                        Action::AwaitCommand,
                    ),
                }
            } else {
                self.abandon()
            },
            Written::DidChange => (
                self.at(Phase::Polling),
                Action::Receive { restart: true, wait_ms: POLL_READ_MS, reads: Reads::Diagnostics },
            ),
            Written::Exit => (self.at(Phase::Sleeping), Action::Sleep { ms: EXIT_GRACE_MS }),
        }
    }

    /// What a read leads to while the answer to request `id` is awaited: the
    /// answer ends the wait, any other message is dropped, and the wait goes
    /// on until `timeout_ms` have elapsed.
    pub open spec fn on_answer(
        self,
        id: i32,
        purpose: Purpose,
        timeout_ms: u64,
        message: Option<Incoming>,
        elapsed_ms: u64,
    ) -> (Session, Action) {
        if message is Some && message->0.id == Some(id) {
            self.resolve(purpose, message->0.result, message->0.offers)
        } else if elapsed_ms < timeout_ms {
            (
                self,
                Action::Receive {
                    restart: false,
                    wait_ms: REQUEST_READ_MS,
                    reads: Reads::awaiting(purpose),
                },
            )
        } else {
            self.resolve(purpose, None, None)
        }
    }

    /// What a read leads to while diagnostics are awaited: the first message
    /// that publishes diagnostics inside the timeout is handed on, and the
    /// wait ends without one when the timeout has elapsed.
    pub open spec fn on_polled(self, message: Option<Incoming>, elapsed_ms: u64) -> (
        Session,
        Action,
    ) {
        if elapsed_ms >= self.timeout_ms {
            (self.at(Phase::Idle), Action::AwaitCommand)
        } else if message is Some && message->0.diagnostics is Some {
            (
                self.at(Phase::Idle),
                Action::Emit(Emission::Diagnostics(message->0.diagnostics->0)),
            )
        } else {
            (
                self,
                Action::Receive { restart: false, wait_ms: POLL_READ_MS, reads: Reads::Diagnostics },
            )
        }
    }

    /// The next state and the next action. An event that the phase does not
    /// wait for counts as the failure of what was under way.
    pub open spec fn next(self, event: Event) -> (Session, Action) {
        match self.phase {
            Phase::Idle => match event {
                Event::Command(command) => self.on_command(command),
                Event::Disconnected => self.on_shutdown(),
                _ => (self, Action::AwaitCommand),
            },
            Phase::Spawning => if event matches Event::Spawned(true) {
                Session { next_id: FIRST_REQUEST_ID, ..self }.ask(
                    Purpose::Initialize,
                    Outgoing::Initialize { id: FIRST_REQUEST_ID },
                )
            } else {
                (Session { phase: Phase::Idle, pending: None, ..self }, Action::AwaitCommand)
            },
            Phase::Writing(written) => self.on_written(written, event matches Event::Sent(true)),
            Phase::Waiting { id, purpose, timeout_ms } => match event {
                Event::Received { message, elapsed_ms } => self.on_answer(
                    id,
                    purpose,
                    timeout_ms,
                    message,
                    elapsed_ms,
                ),
                _ => self.resolve(purpose, None, None),
            },
            Phase::Polling => match event {
                Event::Received { message, elapsed_ms } => self.on_polled(message, elapsed_ms),
                _ => (self.at(Phase::Idle), Action::AwaitCommand),
            },
            Phase::Sleeping => (self.at(Phase::Killing), Action::Kill),
            Phase::Killing => (
                Session { phase: Phase::Terminated, connected: false, ..self },
                Action::Exit,
            ),
            Phase::Terminated => (self, Action::Exit),
        }
    }
}

impl Session {
    /// The session of a worker that has not talked to a server yet.
    pub fn new(timeout_ms: u64) -> (session: Session)
        ensures
            session == Session::fresh(timeout_ms),
            session.wf(),
    {
        Session {
            timeout_ms,
            connected: false,
            next_id: FIRST_REQUEST_ID,
            version: 0,
            phase: Phase::Idle,
            pending: None,
        }
    }

    fn abandon_handshake(&mut self) -> (action: Action)
        ensures
            (*final(self), action) == old(self).abandon(),
    {
        self.phase = Phase::Idle;
        self.connected = false;
        self.pending = None;
        Action::Close
    }

    fn push_content(&mut self, text: String) -> (action: Action)
        ensures
            (*final(self), action) == old(self).push(text),
    {
        if self.version < i32::MAX {
            self.version = self.version + 1;
        }
        self.phase = Phase::Writing(Written::DidChange);
        Action::Send(Outgoing::DidChange { version: self.version, text })
    }

    /// The id for the next request, which is used up by the call.
    fn take_id(&mut self, purpose: Purpose) -> (id: i32)
        ensures
            id == old(self).next_id,
            *final(self) == (Session {
                next_id: bump(old(self).next_id),
                phase: Phase::Writing(Written::Request { id, purpose }),
                ..*old(self)
            }),
    {
        let id = self.next_id;
        if self.next_id < i32::MAX {
            self.next_id = self.next_id + 1;
        }
        self.phase = Phase::Writing(Written::Request { id, purpose });
        id
    }

    fn begin_shutdown(&mut self) -> (action: Action)
        ensures
            (*final(self), action) == old(self).on_shutdown(),
    {
        if self.connected {
            let id = self.take_id(Purpose::Shutdown);
            Action::Send(Outgoing::Shutdown { id })
        } else {
            self.phase = Phase::Terminated;
            Action::Exit
        }
    }

    fn handle_command(&mut self, command: LspCommand) -> (action: Action)
        ensures
            (*final(self), action) == old(self).on_command(command),
    {
        match command {
            LspCommand::UpdateContent(text) => {
                if text.as_str().is_empty() {
                    Action::Emit(Emission::NoDiagnostics)
                } else if self.connected {
                    self.push_content(text)
                } else {
                    self.phase = Phase::Spawning;
                    self.pending = Some(text);
                    Action::Spawn
                }
            },
            LspCommand::RequestCodeActions { content, span } => {
                if self.connected {
                    let id = self.take_id(Purpose::CodeActions);
                    Action::Send(Outgoing::CodeActions { id, content, span })
                } else {
                    Action::Emit(Emission::CodeActions(None))
                }
            },
            LspCommand::ExecuteCommand { command, arguments } => {
                if self.connected {
                    let id = self.take_id(Purpose::ExecuteCommand);
                    Action::Send(Outgoing::ExecuteCommand { id, command, arguments })
                } else {
                    Action::Emit(Emission::CommandExecuted(false))
                }
            },
            LspCommand::Shutdown => self.begin_shutdown(),
        }
    }

    fn finish_request(
        &mut self,
        purpose: Purpose,
        result: Option<Value>,
        offers: Option<Vec<Offer>>,
    ) -> (action: Action)
        ensures
            (*final(self), action) == old(self).resolve(purpose, result, offers),
    {
        match purpose {
            Purpose::Initialize => {
                if result.is_some() {
                    self.phase = Phase::Writing(Written::Initialized);
                    Action::Send(Outgoing::Initialized)
                } else {
                    self.abandon_handshake()
                }
            },
            Purpose::CodeActions => {
                self.phase = Phase::Idle;
                let offered = if result.is_some() {
                    offers
                } else {
                    None
                };
                Action::Emit(Emission::CodeActions(offered))
            },
            Purpose::ExecuteCommand => {
                self.phase = Phase::Idle;
                Action::Emit(Emission::CommandExecuted(result.is_some()))
            },
            Purpose::Shutdown => {
                self.phase = Phase::Writing(Written::Exit);
                Action::Send(Outgoing::Exit)
            },
        }
    }

    /// How long the answer to a request is awaited.
    pub fn patience_for(&self, purpose: Purpose) -> (timeout_ms: u64)
        ensures
            timeout_ms == patience(purpose, self.timeout_ms),
    {
        match purpose {
            Purpose::Initialize => {
                if self.timeout_ms <= u64::MAX / INITIALIZE_PATIENCE {
                    self.timeout_ms * INITIALIZE_PATIENCE
                } else {
                    u64::MAX
                }
            },
            Purpose::Shutdown => SHUTDOWN_TIMEOUT_MS,
            _ => self.timeout_ms,
        }
    }

    fn handle_written(&mut self, written: Written, sent: bool) -> (action: Action)
        ensures
            (*final(self), action) == old(self).on_written(written, sent),
    {
        match written {
            Written::Request { id, purpose } => {
                let timeout_ms = self.patience_for(purpose);
                if !sent || timeout_ms == 0 {
                    self.finish_request(purpose, None, None)
                } else {
                    self.phase = Phase::Waiting { id, purpose, timeout_ms };
                    Action::Receive {
                        restart: true,
                        wait_ms: REQUEST_READ_MS,
                        reads: Reads::for_answer(purpose),
                    }
                }
            },
            Written::Initialized => {
                if sent {
                    self.phase = Phase::Writing(Written::DidOpen);
                    Action::Send(Outgoing::DidOpen)
                } else {
                    self.abandon_handshake()
                }
            },
            Written::DidOpen => {
                if sent {
                    self.connected = true;
                    match self.pending.take() {
                        Some(text) => self.push_content(text),
                        None => {
                            self.phase = Phase::Idle;
                            Action::AwaitCommand
                        },
                    }
                } else {
                    self.abandon_handshake()
                }
            },
            Written::DidChange => {
                self.phase = Phase::Polling;
                Action::Receive { restart: true, wait_ms: POLL_READ_MS, reads: Reads::Diagnostics }
            },
            Written::Exit => {
                self.phase = Phase::Sleeping;
                Action::Sleep { ms: EXIT_GRACE_MS }
            },
        }
    }

    fn handle_answer(
        &mut self,
        id: i32,
        purpose: Purpose,
        timeout_ms: u64,
        message: Option<Incoming>,
        elapsed_ms: u64,
    ) -> (action: Action)
        ensures
            (*final(self), action) == old(self).on_answer(
                id,
                purpose,
                timeout_ms,
                message,
                elapsed_ms,
            ),
    {
        match message {
            Some(Incoming { id: Some(answered), result, diagnostics: _, offers })
                if answered == id => { self.finish_request(purpose, result, offers)
            },
            _ => {
                if elapsed_ms < timeout_ms {
                    Action::Receive {
                        restart: false,
                        wait_ms: REQUEST_READ_MS,
                        reads: Reads::for_answer(purpose),
                    }
                } else {
                    self.finish_request(purpose, None, None)
                }
            },
        }
    }

    fn handle_polled(&mut self, message: Option<Incoming>, elapsed_ms: u64) -> (action: Action)
        ensures
            (*final(self), action) == old(self).on_polled(message, elapsed_ms),
    {
        if elapsed_ms >= self.timeout_ms {
            self.phase = Phase::Idle;
            return Action::AwaitCommand;
        }
        match message {
            Some(Incoming { id: _, result: _, diagnostics: Some(diagnostics), offers: _ }) => {
                self.phase = Phase::Idle;
                Action::Emit(Emission::Diagnostics(diagnostics))
            },
            _ => Action::Receive {
                restart: false,
                wait_ms: POLL_READ_MS,
                reads: Reads::Diagnostics,
            },
        }
    }

    /// Takes what the last piece of outside work came to and says what to do
    /// next.
    pub fn step(&mut self, event: Event) -> (action: Action)
        ensures
            (*final(self), action) == old(self).next(event),
            old(self).wf() ==> final(self).wf(),
    {
        proof {
            if self.wf() {
                lemma_wf_is_kept(*self, event);
            }
        }
        match self.phase {
            Phase::Idle => match event {
                Event::Command(command) => self.handle_command(command),
                Event::Disconnected => self.begin_shutdown(),
                _ => Action::AwaitCommand,
            },
            Phase::Spawning => match event {
                Event::Spawned(true) => {
                    self.next_id = FIRST_REQUEST_ID;
                    let id = self.take_id(Purpose::Initialize);
                    Action::Send(Outgoing::Initialize { id })
                },
                _ => {
                    self.phase = Phase::Idle;
                    self.pending = None;
                    Action::AwaitCommand
                },
            },
            Phase::Writing(written) => {
                let sent = match event {
                    Event::Sent(true) => true,
                    _ => false,
                };
                self.handle_written(written, sent)
            },
            Phase::Waiting { id, purpose, timeout_ms } => match event {
                Event::Received { message, elapsed_ms } => self.handle_answer(
                    id,
                    purpose,
                    timeout_ms,
                    message,
                    elapsed_ms,
                ),
                _ => self.finish_request(purpose, None, None),
            },
            Phase::Polling => match event {
                Event::Received { message, elapsed_ms } => self.handle_polled(message, elapsed_ms),
                _ => {
                    self.phase = Phase::Idle;
                    Action::AwaitCommand
                },
            },
            Phase::Sleeping => {
                self.phase = Phase::Killing;
                Action::Kill
            },
            Phase::Killing => {
                self.phase = Phase::Terminated;
                self.connected = false;
                Action::Exit
            },
            Phase::Terminated => Action::Exit,
        }
    }
}

/// What holds of a fresh session holds after every step.
pub proof fn lemma_wf_is_kept(session: Session, event: Event)
    requires
        session.wf(),
    ensures
        session.next(event).0.wf(),
{
}

/// What holds of a fresh session holds after every run of events.
pub proof fn lemma_wf_after_run(timeout_ms: u64, events: Seq<Event>)
    ensures
        run(Session::fresh(timeout_ms), events).wf(),
    decreases events.len(),
{
    if events.len() > 0 {
        lemma_wf_after_run(timeout_ms, events.drop_last());
        lemma_wf_is_kept(run(Session::fresh(timeout_ms), events.drop_last()), events.last());
    }
}

/// Content that has started a handshake is pushed when the handshake is
/// through: the push is the first thing on the new connection, under the
/// version that follows.
pub proof fn lemma_handshake_ends_with_the_push(session: Session)
    requires
        session.wf(),
        session.phase == Phase::Writing(Written::DidOpen),
    ensures
        session.next(Event::Sent(true)).1 == Action::Send(
            Outgoing::DidChange { version: bump(session.version), text: session.pending->0 },
        ),
        session.next(Event::Sent(true)).0.connected,
{
}

/// The session after a run of events.
pub open spec fn run(session: Session, events: Seq<Event>) -> Session
    decreases events.len(),
{
    if events.len() == 0 {
        session
    } else {
        run(session, events.drop_last()).next(events.last()).0
    }
}

/// Whether the session takes up a new connection at an event: the server has
/// just been started.
pub open spec fn connects(session: Session, event: Event) -> bool {
    session.phase is Spawning && event matches Event::Spawned(true)
}

/// A request goes out under the id that was next, and that id is then used
/// up: whatever the event, the next id is never lower afterwards, and it is
/// higher after a request as long as there is a higher one. On a new
/// connection the ids begin again with the first.
pub proof fn lemma_request_ids(session: Session, event: Event)
    ensures
        !connects(session, event) ==> session.next(event).0.next_id >= session.next_id,
        session.next(event).1.request_id() matches Some(id) ==> {
            &&& id == if connects(session, event) {
                FIRST_REQUEST_ID
            } else {
                session.next_id
            }
            &&& session.next(event).0.next_id == bump(id)
        },
{
}

/// As long as no new connection is taken up, the next id never falls along a
/// run of events.
pub proof fn lemma_next_id_never_falls(session: Session, events: Seq<Event>)
    requires
        forall|i: int|
            0 <= i < events.len() ==> !connects(
                run(session, #[trigger] events.take(i)),
                events[i],
            ),
    ensures
        run(session, events).next_id >= session.next_id,
    decreases events.len(),
{
    if events.len() > 0 {
        let before = events.drop_last();
        assert forall|i: int| 0 <= i < before.len() implies !connects(
            run(session, #[trigger] before.take(i)),
            before[i],
        ) by {
            assert(before.take(i) =~= events.take(i));
        }
        lemma_next_id_never_falls(session, before);
        assert(events.take(events.len() - 1) =~= before);
        lemma_request_ids(run(session, before), events.last());
    }
}

/// Of two requests on one connection the later has the higher id: when a
/// request goes out after a run of `first` and another goes out after
/// `between` more events, none of which takes up a new connection, the id of
/// the second is above that of the first.
pub proof fn lemma_request_ids_increase(
    session: Session,
    first: Event,
    between: Seq<Event>,
    second: Event,
)
    requires
        session.next(first).1.request_id() is Some,
        session.next(first).1.request_id()->0 < i32::MAX,
        forall|i: int|
            0 <= i < between.len() ==> !connects(
                run(session.next(first).0, #[trigger] between.take(i)),
                between[i],
            ),
        !connects(run(session.next(first).0, between), second),
        run(session.next(first).0, between).next(second).1.request_id() is Some,
    ensures
        session.next(first).1.request_id()->0 < run(session.next(first).0, between).next(
            second,
        ).1.request_id()->0,
{
    lemma_request_ids(session, first);
    lemma_next_id_never_falls(session.next(first).0, between);
    lemma_request_ids(run(session.next(first).0, between), second);
}

/// While the answer to a request is awaited, a message under another id, or
/// under none, is dropped: the wait goes on, and when it has run out the
/// request ends without a result, whatever the message carried.
pub proof fn lemma_only_the_answer_counts(
    session: Session,
    message: Incoming,
    elapsed_ms: u64,
)
    requires
        session.phase is Waiting,
        message.id != Some(session.phase->Waiting_id),
    ensures
        session.next(Event::Received { message: Some(message), elapsed_ms }) == if elapsed_ms
            < session.phase->Waiting_timeout_ms {
            (
                session,
                Action::Receive {
                    restart: false,
                    wait_ms: REQUEST_READ_MS,
                    reads: Reads::awaiting(session.phase->Waiting_purpose),
                },
            )
        } else {
            session.resolve(session.phase->Waiting_purpose, None, None)
        },
{
}

/// The version of the document rises with each content push that is sent,
/// by one as long as there is a higher version, and with nothing else; the
/// push carries the version that it has raised the document to.
pub proof fn lemma_version_counts_pushes(session: Session, event: Event)
    ensures
        session.next(event).0.version == if session.next(event).1 matches Action::Send(
            Outgoing::DidChange { .. },
        ) {
            bump(session.version)
        } else {
            session.version
        },
        session.next(event).1 matches Action::Send(Outgoing::DidChange { version, .. })
            ==> version == session.next(event).0.version,
{
}

/// Empty content is answered at once with no diagnostics, and neither the
/// connection nor anything else of the session is touched.
pub proof fn lemma_empty_content_is_answered_at_once(session: Session, text: String)
    requires
        session.phase is Idle,
        text@.len() == 0,
    ensures
        session.next(Event::Command(LspCommand::UpdateContent(text))) == (
            session,
            Action::Emit(Emission::NoDiagnostics),
        ),
{
}

/// Without a connection a request for code actions gives none and a request
/// to execute a command fails, both at once.
pub proof fn lemma_no_connection_no_request(session: Session, command: LspCommand)
    requires
        session.phase is Idle,
        !session.connected,
    ensures
        command is RequestCodeActions ==> session.next(Event::Command(command)) == (
            session,
            Action::Emit(Emission::CodeActions(None)),
        ),
        command is ExecuteCommand ==> session.next(Event::Command(command)) == (
            session,
            Action::Emit(Emission::CommandExecuted(false)),
        ),
{
}

/// The foreground going away is an order to end the session, like the
/// command to do so.
pub proof fn lemma_disconnect_is_shutdown(session: Session)
    requires
        session.phase is Idle,
    ensures
        session.next(Event::Disconnected) == session.next(Event::Command(LspCommand::Shutdown)),
        !session.connected ==> session.next(Event::Disconnected) == (
            session.at(Phase::Terminated),
            Action::Exit,
        ),
{
}

/// The server gets a fixed time to answer `shutdown`: once the request is
/// written its answer is awaited for that time, and when it could not be
/// written the teardown goes on with `exit` at once.
pub proof fn lemma_shutdown_gets_fixed_time(session: Session, id: i32, event: Event)
    requires
        session.phase == Phase::Writing(Written::Request { id, purpose: Purpose::Shutdown }),
    ensures
        session.next(event) == if event matches Event::Sent(true) {
            (
                session.at(
                    Phase::Waiting {
                        id,
                        purpose: Purpose::Shutdown,
                        timeout_ms: SHUTDOWN_TIMEOUT_MS,
                    },
                ),
                Action::Receive { restart: true, wait_ms: REQUEST_READ_MS, reads: Reads::Envelope },
            )
        } else {
            (session.at(Phase::Writing(Written::Exit)), Action::Send(Outgoing::Exit))
        },
{
}

/// The wait for the answer to `shutdown` ends with `exit`, answer or none:
/// each step either reads on, which it does only while the time has not
/// passed, or goes on with the teardown.
pub proof fn lemma_shutdown_wait_runs_out(session: Session, event: Event)
    requires
        session.phase matches Phase::Waiting { purpose: Purpose::Shutdown, .. },
    ensures
        session.next(event) == (
            session,
            Action::Receive { restart: false, wait_ms: REQUEST_READ_MS, reads: Reads::Envelope },
        ) || session.next(event) == (
            session.at(Phase::Writing(Written::Exit)),
            Action::Send(Outgoing::Exit),
        ),
        event matches Event::Received { elapsed_ms, .. } && elapsed_ms
            < session.phase->Waiting_timeout_ms || session.next(event) == (
            session.at(Phase::Writing(Written::Exit)),
            Action::Send(Outgoing::Exit),
        ),
{
}

/// Once `exit` has been handed out for writing, the session is over in three
/// steps, whatever happens: the server is given a moment, its process is
/// terminated, and the loop is left.
pub proof fn lemma_teardown_runs_out(session: Session, first: Event, second: Event, third: Event)
    requires
        session.phase == Phase::Writing(Written::Exit),
    ensures
        session.next(first).1 == (Action::Sleep { ms: EXIT_GRACE_MS }),
        session.next(first).0.next(second).1 == Action::Kill,
        session.next(first).0.next(second).0.next(third).1 == Action::Exit,
        session.next(first).0.next(second).0.next(third).0.phase is Terminated,
        !session.next(first).0.next(second).0.next(third).0.connected,
{
}

/// A session that is over stays over.
pub proof fn lemma_terminated_is_final(session: Session, event: Event)
    requires
        session.phase is Terminated,
    ensures
        session.next(event) == (session, Action::Exit),
{
}

/// A handshake that fails at any of its steps leaves no connection behind,
/// and the content that started it is not pushed: the next content push
/// starts the handshake anew.
pub proof fn lemma_failed_handshake_leaves_nothing(session: Session, event: Event)
    requires
        !session.connected,
        session.phase matches Phase::Writing(written) && (written matches Written::Request {
            purpose: Purpose::Initialize,
            ..
        } || written is Initialized || written is DidOpen),
        !(event matches Event::Sent(true)),
    ensures
        session.next(event).1 is Close,
        session.next(event).0.phase is Idle,
        !session.next(event).0.connected,
        session.next(event).0.pending is None,
{
}

} // verus!
