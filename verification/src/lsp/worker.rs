//! The worker's side of the client.
//!
//! The worker owns the session. Whoever runs it owns the server process and
//! does the reading and writing: [`LspWorker::advance`] takes the outcome of
//! the last such piece of work and answers with the next one. Commands are
//! taken and results are handed to the foreground in between.

use super::channel::{recv_timeout, try_send, Waited};
use super::client::{LspCommand, LspConfig, LspResponse};
use super::json::{
    changes_in, command_action, command_in, parse_uri, title_in, uri_in, URI_MAX_LEN,
};
use super::protocol::{
    digest, envelope_for, id_of, is_call, method_of, names_document, params_of, publishes,
    Envelope, Received,
};
use super::session::{Action, Emission, Event, Offer, Phase, Reads, Session};
use super::time::{elapsed_ms, now};
use crate::text::is_blank;
use crossbeam::channel::{Receiver, Sender};
use lsp_types::{CodeAction, Uri};
use std::time::Instant;
use vstd::prelude::*;
use vstd::string::StringExecFns;

verus! {

/// Longest wait for a command, in milliseconds. It is short, so that a
/// foreground that has gone is noticed soon.
pub const COMMAND_WAIT_MS: u64 = 50;

/// What follows the scheme in the URI of the document.
pub const DOCUMENT_PATH: &'static str = ":/session/repl";

/// The words of a command line: what `str::split_whitespace` hands out for
/// it, in order.
pub uninterp spec fn command_words(line: Seq<char>) -> Seq<Seq<char>>;

/// `str::split_whitespace`: the stretches of `line` between white space, in
/// their order, each as a string of its own. There is no such stretch
/// exactly when the line holds nothing but white space.
#[verifier::external_body]
pub(crate) fn split_whitespace(line: &str) -> (words: Vec<String>)
    ensures
        words.deep_view() == command_words(line@),
        words.len() == 0 <==> is_blank(line@),
{
    line.split_whitespace().map(String::from).collect()
}

/// What the last piece of outside work came to.
#[derive(Debug)]
pub enum IoOutcome {
    /// Nothing was asked for, or what was asked for has been done.
    Resume,
    /// What was asked for could not be attempted.
    Failed,
    /// The server process was started, or could not be.
    Spawned(bool),
    /// The envelope was written, or could not be.
    Written(bool),
    /// A read ended, with a message or without.
    Read(Option<Received>),
}

/// The next piece of outside work.
#[derive(Debug)]
pub enum IoRequest {
    /// Nothing; call again.
    Continue,
    /// The action could not be set up. Call again with [`IoOutcome::Failed`].
    Failed,
    /// Start `program` with `args`, its input and output piped.
    Spawn { program: String, args: Vec<String> },
    /// Write the envelope to the server.
    Write(Envelope),
    /// Read one message from the server, waiting up to `wait_ms`, and read
    /// of it what `reads` says.
    Read { wait_ms: u64, reads: Reads },
    /// Let go of the server process without terminating it.
    Close,
    /// Do nothing for `ms` milliseconds.
    Sleep { ms: u64 },
    /// Terminate the server process.
    Kill,
    /// Leave the loop: the session is over.
    Exit,
}

/// Whether `event` is what the session is told for `outcome`. A command,
/// like the time, comes from outside: of them only the kind is fixed.
pub open spec fn event_fits(phase: Phase, outcome: IoOutcome, event: Event) -> bool {
    match outcome {
        IoOutcome::Resume => if phase is Idle {
            event is Command || event is NoCommand || event is Disconnected
        } else {
            event is Resume
        },
        IoOutcome::Failed => event is Resume,
        IoOutcome::Spawned(started) => event == Event::Spawned(started),
        IoOutcome::Written(written) => event == Event::Sent(written),
        IoOutcome::Read(received) => {
            &&& event is Received
            &&& event->message is Some <==> received is Some
            &&& received matches Some(received) ==> {
                &&& event->message->0.id == received.envelope.id
                &&& event->message->0.result == received.envelope.result
                &&& event->message->0.diagnostics == if publishes(received.envelope) {
                    received.diagnostics
                } else {
                    None
                }
                &&& event->message->0.offers == received.offers
            }
        },
    }
}

/// Whether `action` is the code action that the foreground gets for
/// `offer`: a code action is handed on as it is, and a bare command becomes
/// an action that carries that command and no edits, under the command's
/// title.
pub open spec fn offered_as(offer: Offer, action: CodeAction) -> bool {
    match offer {
        Offer::Action(given) => action == given,
        Offer::Command { title, command, arguments } => {
            &&& title_in(action) == title@
            &&& command_in(action) == Some(
                (
                    command@,
                    match arguments {
                        Some(given) => Some(given@),
                        None => None,
                    },
                ),
            )
            &&& changes_in(action) is None
        },
    }
}

/// Whether `actions` are the code actions that the foreground gets for what
/// the answer to its request offers: one for each offer, in their order, and
/// none where there was nothing to offer.
pub open spec fn offered(offers: Option<Vec<Offer>>, actions: Seq<CodeAction>) -> bool {
    match offers {
        Some(offers) => {
            &&& actions.len() == offers@.len()
            &&& forall|i: int|
                0 <= i < actions.len() ==> offered_as(offers@[i], #[trigger] actions[i])
        },
        None => actions.len() == 0,
    }
}

/// Whether `response` is what the foreground gets for `emission`.
pub open spec fn response_fits(emission: Emission, response: LspResponse) -> bool {
    match emission {
        Emission::NoDiagnostics => response matches LspResponse::Diagnostics(diagnostics)
            && diagnostics@.len() == 0,
        Emission::Diagnostics(diagnostics) => response == LspResponse::Diagnostics(diagnostics),
        Emission::CodeActions(offers) => response matches LspResponse::CodeActions(actions)
            && offered(offers, actions@),
        Emission::CommandExecuted(done) => response == LspResponse::CommandExecuted(done),
    }
}

/// The document of a worker whose URI is `uri`: what `lsp_types` reads from
/// it as a URI, and none where it is longer than the parser takes.
pub open spec fn document_for(uri: Seq<char>) -> Option<Uri> {
    if vstd::utf8::encode_utf8(uri).len() <= URI_MAX_LEN {
        uri_in(uri)
    } else {
        None
    }
}

/// The worker: the session, the ends of the channels to the foreground, and
/// what it needs to put messages together.
pub struct LspWorker {
    config: LspConfig,
    uri: String,
    document: Option<Uri>,
    process_id: Option<u32>,
    session: Session,
    wait_began: Option<Instant>,
    command_rx: Receiver<LspCommand>,
    response_tx: Sender<LspResponse>,
    wake_tx: Sender<()>,
    emitted: Ghost<Seq<LspResponse>>,
    signalled: Ghost<nat>,
}

impl LspWorker {
    /// The session, as it stands.
    pub closed spec fn session(&self) -> Session {
        self.session
    }

    /// The configuration that the worker was made with.
    pub closed spec fn config(&self) -> LspConfig {
        self.config
    }

    /// The URI under which the document is known to the server.
    pub closed spec fn uri(&self) -> Seq<char> {
        self.uri@
    }

    /// The document as `lsp_types` knows it, where the URI was accepted as
    /// one.
    pub closed spec fn document(&self) -> Option<Uri> {
        self.document
    }

    /// Whether the URI of the document was accepted as a URI.
    pub open spec fn has_document(&self) -> bool {
        self.document() is Some
    }

    /// The process that runs the client, as far as the worker has been told;
    /// it is what the server is told in the handshake.
    pub closed spec fn process_id(&self) -> Option<u32> {
        self.process_id
    }

    /// Every result that was handed to the foreground, in order.
    pub closed spec fn emitted(&self) -> Seq<LspResponse> {
        self.emitted@
    }

    /// How often the foreground was signalled that there is news.
    pub closed spec fn signalled(&self) -> nat {
        self.signalled@
    }

    /// What holds of a new worker: its session is fresh, nothing has been
    /// emitted, its document is the session document under the configured
    /// scheme, and it has not been told which process runs the client.
    pub open spec fn starts_from(&self, config: LspConfig) -> bool {
        &&& self.config() == config
        &&& self.process_id() is None
        &&& self.session() == Session::fresh(config.timeout_ms)
        &&& self.uri() == config.uri_scheme@ + DOCUMENT_PATH@
        &&& self.document() == document_for(self.uri())
        &&& self.emitted().len() == 0
        &&& self.signalled() == 0
    }

    /// A worker for `config` on the worker's ends of the three channels.
    pub fn new(
        config: LspConfig,
        command_rx: Receiver<LspCommand>,
        response_tx: Sender<LspResponse>,
        wake_tx: Sender<()>,
    ) -> (worker: LspWorker)
        ensures
            worker.starts_from(config),
    {
        let mut uri = config.uri_scheme.clone();
        uri.append(DOCUMENT_PATH);
        let document = if uri.as_str().as_bytes().len() <= URI_MAX_LEN {
            parse_uri(uri.as_str())
        } else {
            None
        };
        let session = Session::new(config.timeout_ms);
        LspWorker {
            config,
            uri,
            document,
            process_id: None,
            session,
            wait_began: None,
            command_rx,
            response_tx,
            wake_tx,
            emitted: Ghost(Seq::empty()),
            signalled: Ghost(0),
        }
    }

    /// Names the process that runs the client, which the server is told in
    /// the handshake.
    pub fn set_process_id(&mut self, process_id: u32)
        ensures
            final(self).process_id() == Some(process_id),
            final(self).session() == old(self).session(),
            final(self).config() == old(self).config(),
            final(self).uri() == old(self).uri(),
            final(self).document() == old(self).document(),
            final(self).emitted() == old(self).emitted(),
            final(self).signalled() == old(self).signalled(),
    {
        self.process_id = Some(process_id);
    }

    /// Hands a result to the foreground, and with it the signal that there
    /// is news. Neither waits: a result that finds the queue full is dropped,
    /// and a signal that finds one pending is not needed.
    fn emit(&mut self, response: LspResponse)
        ensures
            final(self).emitted() == old(self).emitted().push(response),
            final(self).signalled() == old(self).signalled() + 1,
            final(self).session() == old(self).session(),
            final(self).config() == old(self).config(),
            final(self).uri() == old(self).uri(),
            final(self).document() == old(self).document(),
            final(self).process_id() == old(self).process_id(),
    {
        self.emitted = Ghost(self.emitted@.push(response));
        self.signalled = Ghost(self.signalled@ + 1);
        let _ = try_send(&self.response_tx, response);
        let _ = try_send(&self.wake_tx, ());
    }

    /// The event that the session is told for `outcome`.
    fn event_for(&mut self, outcome: IoOutcome) -> (event: Event)
        ensures
            event_fits(old(self).session().phase, outcome, event),
            final(self).session() == old(self).session(),
            final(self).config() == old(self).config(),
            final(self).uri() == old(self).uri(),
            final(self).document() == old(self).document(),
            final(self).process_id() == old(self).process_id(),
            final(self).emitted() == old(self).emitted(),
            final(self).signalled() == old(self).signalled(),
    {
        match outcome {
            IoOutcome::Resume => {
                match self.session.phase {
                    Phase::Idle => match recv_timeout(&self.command_rx, COMMAND_WAIT_MS) {
                        Waited::Message(command) => Event::Command(command),
                        Waited::TimedOut => Event::NoCommand,
                        Waited::Disconnected => Event::Disconnected,
                    },
                    _ => Event::Resume,
                }
            },
            IoOutcome::Failed => Event::Resume,
            IoOutcome::Spawned(started) => Event::Spawned(started),
            IoOutcome::Written(written) => Event::Sent(written),
            IoOutcome::Read(received) => {
                let elapsed_ms = match &self.wait_began {
                    Some(began) => elapsed_ms(began),
                    None => u64::MAX,
                };
                let message = match received {
                    Some(received) => Some(digest(received)),
                    None => None,
                };
                Event::Received { message, elapsed_ms }
            },
        }
    }

    /// The code action that the foreground gets for one offer.
    pub fn action_for(offer: Offer) -> (action: CodeAction)
        ensures
            offered_as(offer, action),
    {
        match offer {
            Offer::Action(action) => action,
            Offer::Command { title, command, arguments } => command_action(
                title,
                command,
                arguments,
            ),
        }
    }

    /// The code actions that the foreground gets for what the answer to its
    /// request offers.
    pub fn actions_for(offers: Option<Vec<Offer>>) -> (actions: Vec<CodeAction>)
        ensures
            offered(offers, actions@),
    {
        let mut actions: Vec<CodeAction> = Vec::new();
        let mut rest = match offers {
            Some(offers) => offers,
            None => {
                return actions;
            },
        };
        let ghost given = rest@;
        // The offers are taken from the back, which needs no copy, and the
        // actions are put in their order afterwards.
        let mut turned: Vec<CodeAction> = Vec::new();
        while rest.len() > 0
            invariant
                rest.len() + turned.len() == given.len(),
                rest@ == given.take(rest.len() as int),
                forall|k: int|
                    0 <= k < turned.len() ==> offered_as(
                        given[given.len() - 1 - k],
                        #[trigger] turned@[k],
                    ),
            decreases rest.len(),
        {
            let offer = rest.pop().unwrap();
            turned.push(Self::action_for(offer));
            proof {
                assert(rest@ =~= given.take(rest.len() as int));
            }
        }
        while turned.len() > 0
            invariant
                actions.len() + turned.len() == given.len(),
                forall|k: int|
                    0 <= k < actions.len() ==> offered_as(given[k], #[trigger] actions@[k]),
                forall|k: int|
                    0 <= k < turned.len() ==> offered_as(
                        given[given.len() - 1 - k],
                        #[trigger] turned@[k],
                    ),
            decreases turned.len(),
        {
            let action = turned.pop().unwrap();
            actions.push(action);
        }
        actions
    }

    /// The response that the foreground gets for a result of the session.
    pub fn response_for(emission: Emission) -> (response: LspResponse)
        ensures
            response_fits(emission, response),
    {
        match emission {
            Emission::NoDiagnostics => LspResponse::Diagnostics(Vec::new()),
            Emission::Diagnostics(diagnostics) => LspResponse::Diagnostics(diagnostics),
            Emission::CodeActions(offers) => LspResponse::CodeActions(Self::actions_for(offers)),
            Emission::CommandExecuted(done) => LspResponse::CommandExecuted(done),
        }
    }

    /// Whether `request` is the outside work for `action`.
    pub open spec fn request_fits(&self, action: Action, request: IoRequest) -> bool {
        match action {
            Action::AwaitCommand => request is Continue,
            Action::Emit(_) => request is Continue,
            Action::Spawn => {
                let words = command_words(self.config().command@);
                if is_blank(self.config().command@) {
                    request is Failed
                } else {
                    &&& words.len() > 0
                    &&& request is Spawn
                    &&& request->program@ == words[0]
                    &&& request->args.deep_view() == words.skip(1)
                }
            },
            Action::Send(message) => if names_document(message) && !self.has_document() {
                request is Failed
            } else {
                request matches IoRequest::Write(envelope) && is_call(
                    envelope,
                    id_of(message),
                    method_of(message),
                ) && envelope.params == params_of(message, self.document(), self.process_id())
            },
            Action::Receive { restart, wait_ms, reads } => request == (IoRequest::Read {
                wait_ms,
                reads,
            }),
            Action::Close => request is Close,
            Action::Sleep { ms } => request == (IoRequest::Sleep { ms }),
            Action::Kill => request is Kill,
            Action::Exit => request is Exit,
        }
    }

    /// Whether `after` is what has been emitted once `action` is performed
    /// on top of `before`: a result for the foreground is added, and nothing
    /// else ever is. Each result goes with one signal that there is news.
    pub open spec fn emitted_fits(
        action: Action,
        before: Seq<LspResponse>,
        after: Seq<LspResponse>,
    ) -> bool {
        match action {
            Action::Emit(emission) => {
                &&& after.len() == before.len() + 1
                &&& after.drop_last() == before
                &&& response_fits(emission, after.last())
            },
            _ => after == before,
        }
    }

    /// Whether one call of [`LspWorker::advance`] with `outcome`, which took
    /// the worker from `self` to `after` and answered `request`, made the
    /// step of the session for `event`.
    pub open spec fn advanced_by(
        &self,
        outcome: IoOutcome,
        event: Event,
        after: &LspWorker,
        request: IoRequest,
    ) -> bool {
        &&& event_fits(self.session().phase, outcome, event)
        &&& after.session() == self.session().next(event).0
        &&& self.request_fits(self.session().next(event).1, request)
        &&& Self::emitted_fits(self.session().next(event).1, self.emitted(), after.emitted())
        &&& after.signalled() - self.signalled() == after.emitted().len() - self.emitted().len()
        &&& self.session().wf() ==> after.session().wf()
    }

    /// Sets up the outside work for `action`, and does what of it needs no
    /// outside work.
    fn perform(&mut self, action: Action) -> (request: IoRequest)
        ensures
            old(self).request_fits(action, request),
            final(self).session() == old(self).session(),
            final(self).config() == old(self).config(),
            final(self).uri() == old(self).uri(),
            final(self).document() == old(self).document(),
            final(self).process_id() == old(self).process_id(),
            Self::emitted_fits(action, old(self).emitted(), final(self).emitted()),
            final(self).signalled() - old(self).signalled() == final(self).emitted().len() - old(
                self,
            ).emitted().len(),
    {
        match action {
            Action::AwaitCommand => IoRequest::Continue,
            Action::Emit(emission) => {
                let response = Self::response_for(emission);
                self.emit(response);
                proof {
                    assert(self.emitted().drop_last() =~= old(self).emitted());
                }
                IoRequest::Continue
            },
            Action::Spawn => {
                let mut words = split_whitespace(self.config.command.as_str());
                if words.len() == 0 {
                    IoRequest::Failed
                } else {
                    let ghost all = words.deep_view();
                    let program = words.remove(0);
                    proof {
                        assert(words.deep_view() =~= all.skip(1));
                    }
                    IoRequest::Spawn { program, args: words }
                }
            },
            Action::Send(message) => match envelope_for(message, &self.document, self.process_id) {
                Some(envelope) => IoRequest::Write(envelope),
                None => IoRequest::Failed,
            },
            Action::Receive { restart, wait_ms, reads } => {
                if restart {
                    self.wait_began = Some(now());
                }
                IoRequest::Read { wait_ms, reads }
            },
            Action::Close => IoRequest::Close,
            Action::Sleep { ms } => IoRequest::Sleep { ms },
            Action::Kill => IoRequest::Kill,
            Action::Exit => IoRequest::Exit,
        }
    }

    /// Takes the outcome of the last piece of outside work and answers with
    /// the next one.
    ///
    /// The session makes one step. The event of that step is the outcome as
    /// the session sees it; where the outcome is that nothing is under way,
    /// the worker waits a bounded time for a command and the event is what
    /// that wait ended with. The answer is the outside work for the step's
    /// action. A result for the foreground needs no outside work: it is
    /// handed over, with the signal that there is news, before the call
    /// returns.
    pub fn advance(&mut self, outcome: IoOutcome) -> (request: IoRequest)
        ensures
            final(self).config() == old(self).config(),
            final(self).uri() == old(self).uri(),
            final(self).document() == old(self).document(),
            final(self).process_id() == old(self).process_id(),
            exists|event: Event| old(self).advanced_by(outcome, event, final(self), request),
    {
        let event = self.event_for(outcome);
        let action = self.session.step(event);
        let ghost stepped = *self;
        let request = self.perform(action);
        proof {
            assert(stepped.request_fits(action, request) == old(self).request_fits(action, request));
            assert(old(self).advanced_by(outcome, event, self, request));
        }
        request
    }
}

} // verus!
