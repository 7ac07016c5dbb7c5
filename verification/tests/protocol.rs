use reedline_lsp::lsp::protocol::{digest, envelope_for, Envelope, Params, Received};
use reedline_lsp::lsp::session::{Offer, Outgoing};
use reedline_lsp::lsp::Span;
use serde_json::Value;

fn json(text: &str) -> Value {
    serde_json::from_str(text).unwrap()
}

fn carried(params: Params) -> Value {
    match params {
        Params::Carried(value) => value,
        other => panic!("unexpected parameters {:?}", other),
    }
}

fn document() -> Option<lsp_types::Uri> {
    "repl:/session/repl".parse().ok()
}

#[test]
fn requests_and_notifications_are_told_apart_by_the_id() {
    let request = Envelope::request(7, "shutdown", Params::Absent);
    assert_eq!(request.jsonrpc, "2.0");
    assert_eq!(request.id, Some(7));
    assert_eq!(request.method.as_deref(), Some("shutdown"));
    assert!(matches!(request.params, Params::Absent));
    assert!(request.result.is_none() && request.error.is_none());
    assert!(request.answers(7));
    assert!(!request.answers(8));
    let notification = Envelope::notification("exit", Params::Carried(json("[1]")));
    assert_eq!(notification.id, None);
    assert_eq!(notification.method.as_deref(), Some("exit"));
    assert!(!notification.answers(0));
    assert_eq!(carried(notification.params), json("[1]"));
}

#[test]
fn each_message_has_its_method_and_id() {
    let uri = document();
    assert!(uri.is_some());
    let cases: Vec<(Outgoing, &str, Option<i32>)> = vec![
        (Outgoing::Initialize { id: 1 }, "initialize", Some(1)),
        (Outgoing::Initialized, "initialized", None),
        (Outgoing::DidOpen, "textDocument/didOpen", None),
        (
            Outgoing::DidChange { version: 3, text: "x".to_string() },
            "textDocument/didChange",
            None,
        ),
        (
            Outgoing::CodeActions { id: 4, content: "x".to_string(), span: Span::new(0, 1) },
            "textDocument/codeAction",
            Some(4),
        ),
        (
            Outgoing::ExecuteCommand { id: 5, command: "c".to_string(), arguments: Vec::new() },
            "workspace/executeCommand",
            Some(5),
        ),
        (Outgoing::Shutdown { id: 6 }, "shutdown", Some(6)),
        (Outgoing::Exit, "exit", None),
    ];
    for (message, method, id) in cases {
        let envelope = envelope_for(message, &uri, Some(1)).unwrap();
        assert_eq!(envelope.jsonrpc, "2.0");
        assert_eq!(envelope.method.as_deref(), Some(method));
        assert_eq!(envelope.id, id);
        assert!(envelope.result.is_none());
        assert!(envelope.error.is_none());
    }
}

#[test]
fn parameters_are_those_of_the_protocol() {
    let uri = document();
    let envelope = envelope_for(Outgoing::Initialize { id: 1 }, &uri, None).unwrap();
    let params = carried(envelope.params);
    assert_eq!(params["processId"], Value::Null);
    assert_eq!(params["clientInfo"]["name"], json("\"reedline\""));
    assert!(matches!(
        envelope_for(Outgoing::Initialized, &uri, None).unwrap().params,
        Params::EmptyObject
    ));
    assert!(matches!(
        envelope_for(Outgoing::Shutdown { id: 2 }, &uri, None).unwrap().params,
        Params::Null
    ));
    assert!(matches!(envelope_for(Outgoing::Exit, &uri, None).unwrap().params, Params::Null));
    let change = Outgoing::DidChange { version: 9, text: "a\nb".to_string() };
    assert_eq!(
        carried(envelope_for(change, &uri, None).unwrap().params),
        json(
            "{\"textDocument\":{\"uri\":\"repl:/session/repl\",\"version\":9},\"contentChanges\":[{\"text\":\"a\\nb\"}]}"
        )
    );
    let ask = Outgoing::CodeActions {
        id: 3,
        content: "ab\nc\u{e9}d".to_string(),
        span: Span::new(3, 6),
    };
    let params = carried(envelope_for(ask, &uri, None).unwrap().params);
    assert_eq!(
        params["range"],
        json("{\"start\":{\"line\":1,\"character\":0},\"end\":{\"line\":1,\"character\":2}}")
    );
    assert_eq!(params["context"]["diagnostics"], json("[]"));
}

#[test]
fn messages_about_the_document_need_its_uri() {
    let none = None;
    assert!(envelope_for(Outgoing::DidOpen, &none, None).is_none());
    let change = Outgoing::DidChange { version: 1, text: "x".to_string() };
    assert!(envelope_for(change, &none, None).is_none());
    let ask = Outgoing::CodeActions { id: 1, content: "x".to_string(), span: Span::new(0, 1) };
    assert!(envelope_for(ask, &none, None).is_none());
    assert!(envelope_for(Outgoing::Initialize { id: 1 }, &none, None).is_some());
    assert!(envelope_for(Outgoing::Exit, &none, None).is_some());
}

fn diagnostic(message: &str) -> lsp_types::Diagnostic {
    lsp_types::Diagnostic { message: message.to_string(), ..Default::default() }
}

#[test]
fn a_message_is_read_for_id_result_diagnostics_and_offers() {
    let answer = Envelope {
        jsonrpc: "2.0".to_string(),
        id: Some(3),
        method: None,
        params: Params::Absent,
        result: Some(json("[1]")),
        error: None,
    };
    assert!(!answer.is_publication());
    let offers = vec![Offer::Command {
        title: "t".to_string(),
        command: "c".to_string(),
        arguments: None,
    }];
    let incoming = digest(Received {
        envelope: answer,
        diagnostics: Some(vec![diagnostic("not published")]),
        offers: Some(offers),
    });
    assert_eq!(incoming.id, Some(3));
    assert_eq!(incoming.result, Some(json("[1]")));
    // Diagnostics count only in a publication.
    assert!(incoming.diagnostics.is_none());
    assert_eq!(incoming.offers.unwrap().len(), 1);
    let publication = |method: &str, params: Params| Envelope {
        jsonrpc: "2.0".to_string(),
        id: None,
        method: Some(method.to_string()),
        params,
        result: None,
        error: None,
    };
    let message = |envelope: Envelope| Received {
        envelope,
        diagnostics: Some(vec![diagnostic("m")]),
        offers: None,
    };
    let method = "textDocument/publishDiagnostics";
    let read = digest(message(publication(method, Params::Carried(json("{}")))));
    assert_eq!(read.id, None);
    let diagnostics = read.diagnostics.unwrap();
    assert_eq!(diagnostics.len(), 1);
    assert_eq!(diagnostics[0].message, "m");
    assert!(read.offers.is_none());
    assert!(digest(message(publication(method, Params::Null))).diagnostics.is_some());
    assert!(digest(message(publication(method, Params::Absent))).diagnostics.is_none());
    let other = publication("window/logMessage", Params::Carried(json("{}")));
    assert!(digest(message(other)).diagnostics.is_none());
    let unread = Received { envelope: publication(method, Params::Null), diagnostics: None, offers: None };
    assert!(digest(unread).diagnostics.is_none());
}
