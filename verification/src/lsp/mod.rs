//! Language-server integration: positions, spans and the client itself.

pub mod channel;
pub mod client;
pub mod codec;
pub mod diagnostic;
pub mod engine_integration;
pub mod json;
pub mod protocol;
pub mod session;
pub mod time;
pub mod worker;

pub use client::{
    hash_str, LspCommand, LspCommandSender, LspConfig, LspDiagnosticsProvider, LspResponse,
};
pub use diagnostic::{
    range_to_span, span_to_range, Position, Range, ServerCommand, Span, TextEdit,
};
pub use engine_integration::{create_diagnostic_fix_menu, prompt_width};
pub use lsp_types::{CodeAction, Diagnostic};
pub use worker::{IoOutcome, IoRequest, LspWorker};
