//! The foreground side of the client.
//!
//! The handle never waits for the server: it offers commands to a bounded
//! channel, takes what the worker has sent back, and keeps the diagnostics
//! that were delivered last.

use super::channel::{bounded, clone_sender, recv_timeout, try_recv, try_send, Waited};
use super::diagnostic::Span;
use super::time::{elapsed_ms, now};
use super::worker::LspWorker;
use crossbeam::channel::{Receiver, Sender};
use lsp_types::{CodeAction, Diagnostic};
use serde_json::Value;
use std::collections::hash_map::DefaultHasher;
use std::hash::Hasher;
use vstd::prelude::*;
use vstd::std_specs::hash::DefaultHasherAdditionalSpecFns;
use vstd::utf8::*;

verus! {

/// How to reach the language server.
#[derive(Debug)]
pub struct LspConfig {
    /// The command line that starts the server, program first.
    pub command: String,
    /// How long a response is awaited, in milliseconds.
    pub timeout_ms: u64,
    /// The scheme of the URI under which the document is known.
    pub uri_scheme: String,
}

impl Clone for LspConfig {
    fn clone(&self) -> (copy: Self)
        ensures
            copy == *self,
    {
        LspConfig {
            command: self.command.clone(),
            timeout_ms: self.timeout_ms,
            uri_scheme: self.uri_scheme.clone(),
        }
    }
}

/// How many commands, and how many responses, can wait at a time.
pub const CHANNEL_CAPACITY: usize = 32;

/// What the foreground asks of the worker.
#[derive(Debug)]
pub enum LspCommand {
    /// The document now holds this text.
    UpdateContent(String),
    /// Ask for the code actions at `span` of `content`.
    RequestCodeActions { content: String, span: Span },
    /// Have the server execute a command.
    ExecuteCommand { command: String, arguments: Vec<Value> },
    /// End the session.
    Shutdown,
}

/// An [`LspCommand`] as the contracts see it.
pub enum LspCommandView {
    UpdateContent(Seq<char>),
    RequestCodeActions { content: Seq<char>, span: Span },
    ExecuteCommand { command: Seq<char>, arguments: Seq<Value> },
    Shutdown,
}

impl View for LspCommand {
    type V = LspCommandView;

    open spec fn view(&self) -> LspCommandView {
        match *self {
            LspCommand::UpdateContent(text) => LspCommandView::UpdateContent(text@),
            LspCommand::RequestCodeActions { content, span } => LspCommandView::RequestCodeActions {
                content: content@,
                span,
            },
            LspCommand::ExecuteCommand { command, arguments } => LspCommandView::ExecuteCommand {
                command: command@,
                arguments: arguments@,
            },
            LspCommand::Shutdown => LspCommandView::Shutdown,
        }
    }
}

/// What the worker sends back.
#[derive(Debug)]
pub enum LspResponse {
    /// The diagnostics for the content last pushed.
    Diagnostics(Vec<Diagnostic>),
    /// The code actions that were asked for.
    CodeActions(Vec<CodeAction>),
    /// Whether the command was executed.
    CommandExecuted(bool),
}

/// How long [`LspDiagnosticsProvider::code_actions`] waits for its answer, in
/// milliseconds.
pub const CODE_ACTIONS_WAIT_MS: u64 = 100;

/// How long [`LspDiagnosticsProvider::execute_command`] waits for its answer,
/// in milliseconds.
pub const EXECUTE_COMMAND_WAIT_MS: u64 = 500;

/// Longest wait for one response while an answer is awaited, in milliseconds.
pub const RESPONSE_READ_MS: u64 = 10;

/// The diagnostics that count after `heard` has come in, in that order, on
/// top of `current`: those of the last response that carried diagnostics, and
/// `current` when none did.
pub open spec fn latest_diagnostics(current: Seq<Diagnostic>, heard: Seq<LspResponse>) -> Seq<
    Diagnostic,
>
    decreases heard.len(),
{
    if heard.len() == 0 {
        current
    } else {
        match heard.last() {
            LspResponse::Diagnostics(diagnostics) => diagnostics@,
            _ => latest_diagnostics(current, heard.drop_last()),
        }
    }
}

/// Of two deliveries of diagnostics the later one counts, whatever was there
/// before and whatever else came in between: deliveries are never merged.
pub proof fn lemma_last_delivery_wins(
    current: Seq<Diagnostic>,
    before: Seq<LspResponse>,
    first: Vec<Diagnostic>,
    between: Seq<LspResponse>,
    second: Vec<Diagnostic>,
)
    ensures
        latest_diagnostics(
            current,
            (before.push(LspResponse::Diagnostics(first)) + between).push(
                LspResponse::Diagnostics(second),
            ),
        ) == second@,
{
}

/// Responses that carry no diagnostics leave the diagnostics as they are.
pub proof fn lemma_other_responses_keep(current: Seq<Diagnostic>, heard: Seq<LspResponse>)
    requires
        forall|i: int| 0 <= i < heard.len() ==> !(heard[i] is Diagnostics),
    ensures
        latest_diagnostics(current, heard) == current,
    decreases heard.len(),
{
    if heard.len() > 0 {
        lemma_other_responses_keep(current, heard.drop_last());
    }
}

/// A handle that can do one thing: have the server execute a command.
///
/// It is what the fix menu holds, so that choosing a command-based fix
/// does not need the whole client.
pub struct LspCommandSender {
    tx: Sender<LspCommand>,
}

impl Clone for LspCommandSender {
    fn clone(&self) -> (copy: Self) {
        LspCommandSender { tx: clone_sender(&self.tx) }
    }
}

impl LspCommandSender {
    /// Offers the command to the worker and does not wait for it. When the
    /// queue of commands is full the command is dropped.
    pub fn execute_command(&self, command: String, arguments: Vec<Value>) {
        let _ = try_send(&self.tx, LspCommand::ExecuteCommand { command, arguments });
    }
}

/// What the contracts say of a provider.
pub struct ProviderModel {
    /// The diagnostics that the provider answers with.
    pub diagnostics: Seq<Diagnostic>,
    /// The fingerprint of the content that was forwarded last, and none as
    /// long as no content has been forwarded.
    pub last_hash: Option<u64>,
    /// Every command that was offered to the worker, in order.
    pub offered: Seq<LspCommandView>,
    /// Every response that was taken from the worker, in order.
    pub heard: Seq<LspResponse>,
    /// How many responses had been taken when the diagnostics were last
    /// cleared.
    pub cleared: nat,
}

impl ProviderModel {
    /// The provider after a push of `content`: empty content clears the
    /// diagnostics and goes no further; other content is forwarded unless it
    /// has the fingerprint of what was forwarded last. The first content is
    /// always forwarded.
    pub open spec fn update_content(self, content: Seq<char>) -> ProviderModel {
        if content.len() == 0 {
            ProviderModel { diagnostics: Seq::empty(), cleared: self.heard.len(), ..self }
        } else if self.last_hash != Some(fingerprint(content)) {
            ProviderModel {
                last_hash: Some(fingerprint(content)),
                offered: self.offered.push(LspCommandView::UpdateContent(content)),
                ..self
            }
        } else {
            self
        }
    }

    /// The provider after the responses `news` have come in.
    pub open spec fn hear(self, news: Seq<LspResponse>) -> ProviderModel {
        ProviderModel {
            diagnostics: latest_diagnostics(self.diagnostics, news),
            heard: self.heard + news,
            ..self
        }
    }

    /// The provider after `command` has been offered to the worker.
    pub open spec fn offer(self, command: LspCommandView) -> ProviderModel {
        ProviderModel { offered: self.offered.push(command), ..self }
    }

    /// A new provider: it holds no diagnostics and has neither offered nor
    /// heard anything.
    pub open spec fn fresh() -> ProviderModel {
        ProviderModel {
            diagnostics: Seq::empty(),
            last_hash: None,
            offered: Seq::empty(),
            heard: Seq::empty(),
            cleared: 0,
        }
    }

    /// What holds of every provider: the diagnostics it holds are those of
    /// the delivery that was heard last since they were last cleared, and
    /// none when nothing was delivered since.
    pub open spec fn wf(self) -> bool {
        &&& self.cleared <= self.heard.len()
        &&& self.diagnostics == latest_diagnostics(
            Seq::empty(),
            self.heard.skip(self.cleared as int),
        )
    }
}

/// Hearing one run of responses on top of another is hearing the two as
/// one.
pub proof fn lemma_latest_of_both(
    current: Seq<Diagnostic>,
    first: Seq<LspResponse>,
    second: Seq<LspResponse>,
)
    ensures
        latest_diagnostics(latest_diagnostics(current, first), second) == latest_diagnostics(
            current,
            first + second,
        ),
    decreases second.len(),
{
    if second.len() == 0 {
        assert(first + second =~= first);
    } else {
        assert((first + second).last() == second.last());
        assert((first + second).drop_last() =~= first + second.drop_last());
        lemma_latest_of_both(current, first, second.drop_last());
    }
}

/// A new provider holds what it should, and whatever a provider does, it
/// goes on holding the diagnostics that were delivered last.
pub proof fn lemma_provider_holds_the_latest(
    provider: ProviderModel,
    content: Seq<char>,
    news: Seq<LspResponse>,
    command: LspCommandView,
)
    requires
        provider.wf(),
    ensures
        ProviderModel::fresh().wf(),
        provider.update_content(content).wf(),
        provider.hear(news).wf(),
        provider.offer(command).wf(),
{
    assert(ProviderModel::fresh().heard.skip(0) =~= Seq::empty());
    assert(provider.heard.skip(provider.heard.len() as int) =~= Seq::empty());
    assert((provider.heard + news).skip(provider.cleared as int) =~= provider.heard.skip(
        provider.cleared as int,
    ) + news);
    lemma_latest_of_both(Seq::empty(), provider.heard.skip(provider.cleared as int), news);
}

/// Pushing the same content twice forwards nothing the second time.
pub proof fn lemma_second_push_forwards_nothing(provider: ProviderModel, content: Seq<char>)
    ensures
        provider.update_content(content).update_content(content).offered
            == provider.update_content(content).offered,
{
}

/// Two pushes of the same content, which is not empty and is not what was
/// forwarded last, forward exactly one command between them.
pub proof fn lemma_debounce(provider: ProviderModel, content: Seq<char>)
    requires
        content.len() > 0,
        provider.last_hash != Some(fingerprint(content)),
    ensures
        provider.update_content(content).update_content(content).offered
            == provider.offered.push(LspCommandView::UpdateContent(content)),
{
}

/// On a new provider two pushes of the same content, which is not empty,
/// forward exactly one command, whatever the content.
pub proof fn lemma_debounce_from_the_start(content: Seq<char>)
    requires
        content.len() > 0,
    ensures
        ProviderModel::fresh().update_content(content).update_content(content).offered
            == seq![LspCommandView::UpdateContent(content)],
{
    assert(Seq::<LspCommandView>::empty().push(LspCommandView::UpdateContent(content))
        =~= seq![LspCommandView::UpdateContent(content)]);
}

/// Two contents with different fingerprints, of which the first is not what
/// was forwarded last, are both forwarded, in their order and each as it is;
/// the fingerprint kept is that of the second, and the diagnostics stay.
pub proof fn lemma_new_contents_are_forwarded_in_order(
    provider: ProviderModel,
    first: Seq<char>,
    second: Seq<char>,
)
    requires
        first.len() > 0,
        second.len() > 0,
        fingerprint(first) != fingerprint(second),
        provider.last_hash != Some(fingerprint(first)),
    ensures
        provider.update_content(first).update_content(second).offered == provider.offered.push(
            LspCommandView::UpdateContent(first),
        ).push(LspCommandView::UpdateContent(second)),
        provider.update_content(first).update_content(second).last_hash == Some(
            fingerprint(second),
        ),
        provider.update_content(first).update_content(second).diagnostics
            == provider.diagnostics,
{
}

/// Pushing empty content clears the diagnostics and forwards nothing.
pub proof fn lemma_empty_content(provider: ProviderModel)
    ensures
        provider.update_content(Seq::empty()).diagnostics.len() == 0,
        provider.update_content(Seq::empty()).offered == provider.offered,
        provider.update_content(Seq::empty()).last_hash == provider.last_hash,
{
}

/// Whether `actions` is what a wait for code actions gives when `news` came
/// in during it: the wait ends with the first response that carries code
/// actions, which are the answer, and gives nothing when none did.
pub open spec fn answers_code_actions(news: Seq<LspResponse>, actions: Vec<CodeAction>) -> bool {
    &&& forall|i: int| 0 <= i < news.len() - 1 ==> !(#[trigger] news[i] is CodeActions)
    &&& if news.len() > 0 && news.last() is CodeActions {
        news.last() == LspResponse::CodeActions(actions)
    } else {
        actions@.len() == 0
    }
}

/// Whether `done` is what a wait for the execution of a command gives when
/// `news` came in during it: the wait ends with the first response that says
/// whether a command was executed, and gives `false` when none did.
pub open spec fn answers_command(news: Seq<LspResponse>, done: bool) -> bool {
    &&& forall|i: int| 0 <= i < news.len() - 1 ==> !(#[trigger] news[i] is CommandExecuted)
    &&& if news.len() > 0 && news.last() is CommandExecuted {
        news.last() == LspResponse::CommandExecuted(done)
    } else {
        !done
    }
}

/// The foreground's handle on the client.
///
/// Every call returns after a bounded time. The server is talked to by a
/// worker; the handle offers it commands and takes its responses.
pub struct LspDiagnosticsProvider {
    command_tx: Sender<LspCommand>,
    response_rx: Receiver<LspResponse>,
    wake_rx: Receiver<()>,
    diagnostics: Vec<Diagnostic>,
    last_content_hash: Option<u64>,
    offered: Ghost<Seq<LspCommandView>>,
    heard: Ghost<Seq<LspResponse>>,
    cleared: Ghost<nat>,
}

impl LspDiagnosticsProvider {
    /// The provider as the contracts see it.
    pub closed spec fn model(&self) -> ProviderModel {
        ProviderModel {
            diagnostics: self.diagnostics@,
            last_hash: self.last_content_hash,
            offered: self.offered@,
            heard: self.heard@,
            cleared: self.cleared@,
        }
    }

    /// A provider and the worker that serves it. The two are joined by
    /// channels; the worker is meant to be run on a thread of its own.
    #[must_use]
    pub fn new(config: LspConfig) -> (pair: (LspDiagnosticsProvider, LspWorker))
        ensures
            pair.0.model() == ProviderModel::fresh(),
            pair.1.starts_from(config),
    {
        let (command_tx, command_rx) = bounded::<LspCommand>(CHANNEL_CAPACITY);
        let (response_tx, response_rx) = bounded::<LspResponse>(CHANNEL_CAPACITY);
        let (wake_tx, wake_rx) = bounded::<()>(1);
        let worker = LspWorker::new(config, command_rx, response_tx, wake_tx);
        let provider = LspDiagnosticsProvider {
            command_tx,
            response_rx,
            wake_rx,
            diagnostics: Vec::new(),
            last_content_hash: None,
            offered: Ghost(Seq::empty()),
            heard: Ghost(Seq::empty()),
            cleared: Ghost(0),
        };
        (provider, worker)
    }

    /// Offers a command to the worker without waiting. When the queue of
    /// commands is full the command is dropped.
    fn offer(&mut self, command: LspCommand)
        ensures
            final(self).model() == old(self).model().offer(command@),
    {
        self.offered = Ghost(self.offered@.push(command@));
        let _ = try_send(&self.command_tx, command);
    }

    /// Takes one response in: diagnostics replace the ones held, anything
    /// else changes nothing but the record of what was heard.
    pub fn absorb(&mut self, response: LspResponse)
        ensures
            final(self).model() == old(self).model().hear(seq![response]),
    {
        self.heard = Ghost(self.heard@.push(response));
        proof {
            lemma_hear_one(old(self).model(), response);
        }
        match response {
            LspResponse::Diagnostics(diagnostics) => {
                self.diagnostics = diagnostics;
            },
            _ => {},
        }
    }

    /// Takes one response in while code actions are awaited, and hands out
    /// the code actions if it carries them.
    pub fn take_code_actions(&mut self, response: LspResponse) -> (actions: Option<Vec<CodeAction>>)
        ensures
            final(self).model() == old(self).model().hear(seq![response]),
            actions == match response {
                LspResponse::CodeActions(actions) => Some(actions),
                _ => None,
            },
    {
        self.heard = Ghost(self.heard@.push(response));
        proof {
            lemma_hear_one(old(self).model(), response);
        }
        match response {
            LspResponse::CodeActions(actions) => Some(actions),
            LspResponse::Diagnostics(diagnostics) => {
                self.diagnostics = diagnostics;
                None
            },
            LspResponse::CommandExecuted(_) => None,
        }
    }

    /// Takes one response in while the execution of a command is awaited,
    /// and hands out the outcome if it carries one.
    pub fn take_command_result(&mut self, response: LspResponse) -> (done: Option<bool>)
        ensures
            final(self).model() == old(self).model().hear(seq![response]),
            done == match response {
                LspResponse::CommandExecuted(done) => Some(done),
                _ => None,
            },
    {
        self.heard = Ghost(self.heard@.push(response));
        proof {
            lemma_hear_one(old(self).model(), response);
        }
        match response {
            LspResponse::CommandExecuted(done) => Some(done),
            LspResponse::Diagnostics(diagnostics) => {
                self.diagnostics = diagnostics;
                None
            },
            LspResponse::CodeActions(_) => None,
        }
    }

    /// Asks for the code actions at `span` of `content` and waits a short
    /// time for them.
    ///
    /// The request is offered to the worker. Responses are then taken in for
    /// up to [`CODE_ACTIONS_WAIT_MS`]: diagnostics among them replace the
    /// ones held, and the first code actions end the wait and are returned.
    /// When the time has passed without them, the list returned is empty.
    pub fn code_actions(&mut self, content: &str, span: Span) -> (actions: Vec<CodeAction>)
        ensures
            exists|news: Seq<LspResponse>|
                {
                    &&& final(self).model() == old(self).model().offer(
                        LspCommandView::RequestCodeActions { content: content@, span },
                    ).hear(news)
                    &&& #[trigger] answers_code_actions(news, actions)
                },
    {
        let ghost request = LspCommandView::RequestCodeActions { content: content@, span };
        self.offer(LspCommand::RequestCodeActions { content: content.to_owned(), span });
        let ghost asked = self.model();
        let ghost mut news: Seq<LspResponse> = Seq::empty();
        proof {
            lemma_hear_nothing(asked);
        }
        let start = now();
        let mut fuel: u64 = u64::MAX;
        while fuel > 0 && elapsed_ms(&start) < CODE_ACTIONS_WAIT_MS
            invariant
                self.model() == asked.hear(news),
                asked == old(self).model().offer(request),
                request == (LspCommandView::RequestCodeActions { content: content@, span }),
                forall|i: int| 0 <= i < news.len() ==> !(#[trigger] news[i] is CodeActions),
            decreases fuel,
        {
            fuel = fuel - 1;
            match recv_timeout(&self.response_rx, RESPONSE_READ_MS) {
                Waited::Message(response) => {
                    proof {
                        lemma_hear_more(asked, news, seq![response]);
                        news = news + seq![response];
                    }
                    match self.take_code_actions(response) {
                        Some(actions) => {
                            assert(answers_code_actions(news, actions));
                            return actions;
                        },
                        None => {},
                    }
                },
                _ => {},
            }
        }
        let nothing: Vec<CodeAction> = Vec::new();
        assert(answers_code_actions(news, nothing));
        nothing
    }

    /// Has the server execute a command and waits a short time for the
    /// outcome.
    ///
    /// The request is offered to the worker. Responses are then taken in for
    /// up to [`EXECUTE_COMMAND_WAIT_MS`]: diagnostics among them replace
    /// the ones held, and the first outcome of a command ends the wait and is
    /// returned. When the time has passed without one, the answer is `false`.
    pub fn execute_command(&mut self, command: &str, arguments: Vec<Value>) -> (done: bool)
        ensures
            exists|news: Seq<LspResponse>|
                {
                    &&& final(self).model() == old(self).model().offer(
                        LspCommandView::ExecuteCommand { command: command@, arguments: arguments@ },
                    ).hear(news)
                    &&& #[trigger] answers_command(news, done)
                },
    {
        let ghost request = LspCommandView::ExecuteCommand {
            command: command@,
            arguments: arguments@,
        };
        self.offer(LspCommand::ExecuteCommand { command: command.to_owned(), arguments });
        let ghost asked = self.model();
        let ghost mut news: Seq<LspResponse> = Seq::empty();
        proof {
            lemma_hear_nothing(asked);
        }
        let start = now();
        let mut fuel: u64 = u64::MAX;
        while fuel > 0 && elapsed_ms(&start) < EXECUTE_COMMAND_WAIT_MS
            invariant
                self.model() == asked.hear(news),
                asked == old(self).model().offer(request),
                request == (LspCommandView::ExecuteCommand {
                    command: command@,
                    arguments: arguments@,
                }),
                forall|i: int| 0 <= i < news.len() ==> !(#[trigger] news[i] is CommandExecuted),
            decreases fuel,
        {
            fuel = fuel - 1;
            match recv_timeout(&self.response_rx, RESPONSE_READ_MS) {
                Waited::Message(response) => {
                    proof {
                        lemma_hear_more(asked, news, seq![response]);
                        news = news + seq![response];
                    }
                    match self.take_command_result(response) {
                        Some(done) => {
                            assert(answers_command(news, done));
                            return done;
                        },
                        None => {},
                    }
                },
                _ => {},
            }
        }
        assert(answers_command(news, false));
        false
    }

    /// Tells the worker that the document now holds `content`.
    ///
    /// Empty content clears the diagnostics and is not forwarded. Other
    /// content is forwarded when it is the first, or when its fingerprint
    /// differs from that of the content forwarded last.
    pub fn update_content(&mut self, content: &str)
        ensures
            final(self).model() == old(self).model().update_content(content@),
    {
        if content.is_empty() {
            self.diagnostics.clear();
            self.cleared = Ghost(self.heard@.len());
            return ;
        }
        let hash = hash_str(content);
        let forwarded = match self.last_content_hash {
            Some(last) => last == hash,
            None => false,
        };
        if !forwarded {
            self.last_content_hash = Some(hash);
            self.offer(LspCommand::UpdateContent(content.to_owned()));
        }
    }

    /// Takes in every response that is waiting.
    fn poll_responses(&mut self)
        ensures
            exists|news: Seq<LspResponse>| final(self).model() == old(self).model().hear(news),
    {
        let ghost mut news: Seq<LspResponse> = Seq::empty();
        let mut fuel: u64 = u64::MAX;
        proof {
            lemma_hear_nothing(self.model());
        }
        while fuel > 0
            invariant
                self.model() == old(self).model().hear(news),
            decreases fuel,
        {
            fuel = fuel - 1;
            match try_recv(&self.response_rx) {
                Some(response) => {
                    proof {
                        lemma_hear_more(old(self).model(), news, seq![response]);
                        news = news + seq![response];
                    }
                    self.absorb(response);
                },
                None => {
                    break ;
                },
            }
        }
    }

    /// The diagnostics that were delivered last, after every response that is
    /// waiting has been taken in.
    pub fn diagnostics(&mut self) -> (current: &[Diagnostic])
        ensures
            current@ == final(self).model().diagnostics,
            exists|news: Seq<LspResponse>| final(self).model() == old(self).model().hear(news),
    {
        self.poll_responses();
        self.diagnostics.as_slice()
    }

    /// Whether the worker has signalled news since the last call. If so,
    /// every response that is waiting is taken in.
    pub fn check_wake(&mut self) -> (woken: bool)
        ensures
            !woken ==> final(self).model() == old(self).model(),
            exists|news: Seq<LspResponse>| final(self).model() == old(self).model().hear(news),
    {
        if try_recv(&self.wake_rx).is_some() {
            self.poll_responses();
            true
        } else {
            proof {
                lemma_hear_nothing(self.model());
            }
            false
        }
    }

    /// A handle that can only have commands executed.
    pub fn command_sender(&self) -> (sender: LspCommandSender) {
        LspCommandSender { tx: clone_sender(&self.command_tx) }
    }

    /// Tells the worker to end the session. The call does not wait, and it
    /// does not matter if the worker is gone already.
    pub fn shutdown(&mut self)
        ensures
            final(self).model() == old(self).model().offer(LspCommandView::Shutdown),
    {
        self.offer(LspCommand::Shutdown);
    }
}

/// Hearing one response puts it behind what was heard, and makes its
/// diagnostics the ones that count if it carries any.
pub proof fn lemma_hear_one(provider: ProviderModel, response: LspResponse)
    ensures
        provider.hear(seq![response]).heard == provider.heard.push(response),
        provider.hear(seq![response]).diagnostics == match response {
            LspResponse::Diagnostics(diagnostics) => diagnostics@,
            _ => provider.diagnostics,
        },
{
    reveal_with_fuel(latest_diagnostics, 2);
    assert(provider.heard + seq![response] =~= provider.heard.push(response));
    assert(seq![response].drop_last() =~= Seq::<LspResponse>::empty());
    assert(seq![response].last() == response);
}

/// Hearing nothing changes nothing.
pub proof fn lemma_hear_nothing(provider: ProviderModel)
    ensures
        provider.hear(Seq::empty()) == provider,
{
    assert(provider.heard + Seq::<LspResponse>::empty() =~= provider.heard);
}

/// Hearing two runs of responses one after the other is hearing them as one.
pub proof fn lemma_hear_more(
    provider: ProviderModel,
    first: Seq<LspResponse>,
    second: Seq<LspResponse>,
)
    ensures
        provider.hear(first).hear(second) == provider.hear(first + second),
{
    assert((provider.heard + first) + second =~= provider.heard + (first + second));
    lemma_latest_of_both(provider.diagnostics, first, second);
}

/// The byte that closes the text in the hashed stream. It occurs in no UTF-8
/// text, so no two texts give the same stream.
pub const TEXT_END: u8 = 0xff;

/// The fingerprint of a text: what the default hasher makes of its bytes,
/// followed by the closing byte.
pub open spec fn fingerprint(text: Seq<char>) -> u64 {
    DefaultHasher::spec_finish(seq![encode_utf8(text), seq![TEXT_END]])
}

/// The fingerprint of `s`, by which a repeated push of the same content is
/// recognised.
pub fn hash_str(s: &str) -> (hash: u64)
    ensures
        hash == fingerprint(s@),
{
    let mut hasher = DefaultHasher::new();
    hasher.write(s.as_bytes());
    let end: [u8; 1] = [TEXT_END];
    let closing = end.as_slice();
    assert(closing@ =~= seq![TEXT_END]);
    hasher.write(closing);
    assert(hasher@ =~= seq![encode_utf8(s@), seq![TEXT_END]]);
    hasher.finish()
}

} // verus!
