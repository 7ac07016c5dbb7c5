//! The messages of the protocol.
//!
//! An [`Envelope`] is one JSON-RPC message. This module says which envelope
//! stands for which message of the session, and what the session reads of an
//! envelope that came in.

use super::diagnostic::{range_of, span_to_range, Range};
use super::json::{
    code_action_params, code_action_value, did_change_params, did_change_value, did_open_params,
    did_open_value, execute_command_params, execute_command_value, initialize_params,
    initialize_value,
};
use super::session::{Incoming, Offer, Outgoing};
use crate::text::str_eq;
use lsp_types::{Diagnostic, Uri};
use serde_json::Value;
use vstd::prelude::*;
use vstd::utf8::*;

verus! {

/// The version of JSON-RPC that every envelope names.
pub const JSONRPC_VERSION: &'static str = "2.0";

/// The name under which the client introduces itself.
pub const CLIENT_NAME: &'static str = "reedline";

/// The version under which the client introduces itself.
pub const CLIENT_VERSION: &'static str = "0.1.0";

/// The language that the document is opened as.
pub const LANGUAGE_ID: &'static str = "nushell";

/// The request that opens the handshake.
pub const INITIALIZE: &'static str = "initialize";

/// The notification that the client has taken the answer to `initialize`.
pub const INITIALIZED: &'static str = "initialized";

/// The notification that a document is open.
pub const DID_OPEN: &'static str = "textDocument/didOpen";

/// The notification that a document has changed.
pub const DID_CHANGE: &'static str = "textDocument/didChange";

/// The notification by which the server publishes diagnostics.
pub const PUBLISH_DIAGNOSTICS: &'static str = "textDocument/publishDiagnostics";

/// The request for the code actions of a range.
pub const CODE_ACTION: &'static str = "textDocument/codeAction";

/// The request to execute a command.
pub const EXECUTE_COMMAND: &'static str = "workspace/executeCommand";

/// The request that asks the server to get ready to exit.
pub const SHUTDOWN: &'static str = "shutdown";

/// The notification that tells the server to exit.
pub const EXIT: &'static str = "exit";

/// What goes with the method of a message.
#[derive(Debug)]
pub enum Params {
    /// Nothing: the message has no parameters.
    Absent,
    /// The JSON value null.
    Null,
    /// The JSON object without a member.
    EmptyObject,
    /// Any other JSON value, carried as it is.
    Carried(Value),
}

impl Params {
    /// The parameters that carry a value where there is one, and that are
    /// absent where there is none.
    pub open spec fn carrying(value: Option<Value>) -> Params {
        match value {
            Some(value) => Params::Carried(value),
            None => Params::Absent,
        }
    }

    /// The parameters that carry `value` where there is one, and that are
    /// absent where there is none.
    pub fn carry(value: Option<Value>) -> (params: Params)
        ensures
            params == Params::carrying(value),
    {
        match value {
            Some(value) => Params::Carried(value),
            None => Params::Absent,
        }
    }
}

/// A message from the server as it is handed to the library: its envelope,
/// and what was read of it beyond that.
#[derive(Debug)]
pub struct Received {
    /// The envelope.
    pub envelope: Envelope,
    /// What the parameters hold as the diagnostics of a publication, where
    /// that was to be read and could be.
    pub diagnostics: Option<Vec<Diagnostic>>,
    /// What the result holds as the answer to a request for code actions,
    /// where that was to be read and could be.
    pub offers: Option<Vec<Offer>>,
}

/// One JSON-RPC message. A request has an id and a method, a notification a
/// method and no id, a response an id and a result or an error.
#[derive(Debug)]
pub struct Envelope {
    /// The version of JSON-RPC.
    pub jsonrpc: String,
    /// What pairs a response with its request.
    pub id: Option<i32>,
    /// What is asked for or told.
    pub method: Option<String>,
    /// What goes with the method.
    pub params: Params,
    /// What a request came to.
    pub result: Option<Value>,
    /// Why a request came to nothing.
    pub error: Option<Value>,
}

/// The method that a message to the server names.
pub open spec fn method_of(message: Outgoing) -> Seq<char> {
    match message {
        Outgoing::Initialize { .. } => INITIALIZE@,
        Outgoing::Initialized => INITIALIZED@,
        Outgoing::DidOpen => DID_OPEN@,
        Outgoing::DidChange { .. } => DID_CHANGE@,
        Outgoing::CodeActions { .. } => CODE_ACTION@,
        Outgoing::ExecuteCommand { .. } => EXECUTE_COMMAND@,
        Outgoing::Shutdown { .. } => SHUTDOWN@,
        Outgoing::Exit => EXIT@,
    }
}

/// The id of a message to the server: that of the request, and none for a
/// notification.
pub open spec fn id_of(message: Outgoing) -> Option<i32> {
    message.request_id()
}

/// Whether a message to the server names the document, and so cannot be
/// written without its URI.
pub open spec fn names_document(message: Outgoing) -> bool {
    message is DidOpen || message is DidChange || message is CodeActions
}

/// The parameters of a message to the server about the document `uri`, from
/// a client that runs as process `process_id`, as `lsp_types` puts them
/// into JSON: the client's name, version and process for `initialize`; the
/// document, empty and at version 0, for `didOpen`; the version and the
/// whole text, with no range, for `didChange`; the document and the range of
/// the span for a request for code actions; the command and its arguments
/// for `executeCommand`; an object without a member for `initialized`; and
/// null for `shutdown` and `exit`.
pub open spec fn params_of(message: Outgoing, uri: Option<Uri>, process_id: Option<u32>) -> Params {
    match message {
        Outgoing::Initialize { .. } => Params::carrying(
            initialize_value(process_id, CLIENT_NAME@, CLIENT_VERSION@),
        ),
        Outgoing::Initialized => Params::EmptyObject,
        Outgoing::DidOpen => Params::carrying(
            did_open_value(uri->0, LANGUAGE_ID@, 0, Seq::empty()),
        ),
        Outgoing::DidChange { version, text } => Params::carrying(
            did_change_value(uri->0, version, None, None, text@),
        ),
        Outgoing::CodeActions { content, span, .. } => Params::carrying(
            code_action_value(uri->0, range_of(encode_utf8(content@), span)),
        ),
        Outgoing::ExecuteCommand { command, arguments, .. } => Params::carrying(
            execute_command_value(command@, arguments@),
        ),
        Outgoing::Shutdown { .. } => Params::Null,
        Outgoing::Exit => Params::Null,
    }
}

/// Whether an envelope is the request or notification `method` under `id`:
/// it names version and method, carries that id, and has neither result nor
/// error.
pub open spec fn is_call(envelope: Envelope, id: Option<i32>, method: Seq<char>) -> bool {
    &&& envelope.jsonrpc@ == JSONRPC_VERSION@
    &&& envelope.id == id
    &&& envelope.method matches Some(name) && name@ == method
    &&& envelope.result is None
    &&& envelope.error is None
}

/// Whether an envelope publishes diagnostics: it names that method and has
/// parameters.
pub open spec fn publishes(envelope: Envelope) -> bool {
    &&& envelope.method matches Some(name) && name@ == PUBLISH_DIAGNOSTICS@
    &&& !(envelope.params is Absent)
}

impl Envelope {
    /// The request `method` with the given id and parameters.
    pub fn request(id: i32, method: &str, params: Params) -> (envelope: Envelope)
        ensures
            is_call(envelope, Some(id), method@),
            envelope.params == params,
    {
        Envelope {
            jsonrpc: JSONRPC_VERSION.to_owned(),
            id: Some(id),
            method: Some(method.to_owned()),
            params,
            result: None,
            error: None,
        }
    }

    /// The notification `method` with the given parameters.
    pub fn notification(method: &str, params: Params) -> (envelope: Envelope)
        ensures
            is_call(envelope, None, method@),
            envelope.params == params,
    {
        Envelope {
            jsonrpc: JSONRPC_VERSION.to_owned(),
            id: None,
            method: Some(method.to_owned()),
            params,
            result: None,
            error: None,
        }
    }

    /// Whether the envelope answers the request `id`.
    pub fn answers(&self, id: i32) -> (yes: bool)
        ensures
            yes == (self.id == Some(id)),
    {
        match self.id {
            Some(own) => own == id,
            None => false,
        }
    }

    /// Whether the envelope publishes diagnostics.
    pub fn is_publication(&self) -> (yes: bool)
        ensures
            yes == publishes(*self),
    {
        match &self.method {
            Some(name) => {
                let named = str_eq(name.as_str(), PUBLISH_DIAGNOSTICS);
                match &self.params {
                    Params::Absent => false,
                    _ => named,
                }
            },
            None => false,
        }
    }
}

/// The envelope for a message to the server about the document `uri`, from a
/// client that runs as process `process_id`.
///
/// A message that names the document cannot be built without its URI; every
/// other message can. What is built is the request or notification of the
/// message's method under the message's id, with the parameters of
/// [`params_of`].
pub fn envelope_for(message: Outgoing, uri: &Option<Uri>, process_id: Option<u32>) -> (envelope:
    Option<Envelope>)
    ensures
        envelope is None <==> names_document(message) && uri is None,
        envelope matches Some(built) ==> is_call(built, id_of(message), method_of(message))
            && built.params == params_of(message, *uri, process_id),
{
    match message {
        Outgoing::Initialize { id } => Some(
            Envelope::request(
                id,
                INITIALIZE,
                Params::carry(initialize_params(process_id, CLIENT_NAME, CLIENT_VERSION)),
            ),
        ),
        Outgoing::Initialized => Some(Envelope::notification(INITIALIZED, Params::EmptyObject)),
        Outgoing::DidOpen => match uri {
            Some(uri) => {
                proof {
                    reveal_strlit("");
                    assert(""@ =~= Seq::<char>::empty());
                }
                Some(
                    Envelope::notification(
                        DID_OPEN,
                        Params::carry(did_open_params(uri, LANGUAGE_ID, 0, "")),
                    ),
                )
            },
            None => None,
        },
        Outgoing::DidChange { version, text } => match uri {
            Some(uri) => Some(
                Envelope::notification(
                    DID_CHANGE,
                    Params::carry(did_change_params(uri, version, None, None, text.as_str())),
                ),
            ),
            None => None,
        },
        Outgoing::CodeActions { id, content, span } => match uri {
            Some(uri) => {
                let range: Range = span_to_range(content.as_str(), span);
                Some(
                    Envelope::request(id, CODE_ACTION, Params::carry(code_action_params(uri, range))),
                )
            },
            None => None,
        },
        Outgoing::ExecuteCommand { id, command, arguments } => Some(
            Envelope::request(
                id,
                EXECUTE_COMMAND,
                Params::carry(execute_command_params(command.as_str(), arguments)),
            ),
        ),
        Outgoing::Shutdown { id } => Some(Envelope::request(id, SHUTDOWN, Params::Null)),
        Outgoing::Exit => Some(Envelope::notification(EXIT, Params::Null)),
    }
}

/// What the session reads of a message: its id and its result; the
/// diagnostics that were read of it, where its envelope is a publication,
/// and none where it is not; and what was read of its result as code
/// actions.
pub fn digest(received: Received) -> (incoming: Incoming)
    ensures
        incoming.id == received.envelope.id,
        incoming.result == received.envelope.result,
        incoming.diagnostics == if publishes(received.envelope) {
            received.diagnostics
        } else {
            None
        },
        incoming.offers == received.offers,
{
    let publication = received.envelope.is_publication();
    let Received { envelope, diagnostics, offers } = received;
    let Envelope { jsonrpc: _, id, method: _, params: _, result, error: _ } = envelope;
    let diagnostics = if publication {
        diagnostics
    } else {
        None
    };
    Incoming { id, result, diagnostics, offers }
}

} // verus!
