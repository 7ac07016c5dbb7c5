//! A non-blocking client for a language server that runs as a subprocess.
//!
//! The foreground holds an [`lsp::LspDiagnosticsProvider`]: it pushes the
//! content of one document, asks for diagnostics and code actions, and never
//! waits longer than a short, fixed time. A worker holds the protocol session
//! and talks to the server. The two are joined by bounded channels that drop
//! what does not fit.
//!
//! The crate decides and leaves the doing to its user: the worker says which
//! process to start, what to write and when to read, and is told what came of
//! it. What is decided is stated and proved:
//!
//! - [`lsp::codec`]: the framing of messages on the wire, and that what is
//!   written is read back;
//! - [`lsp::session`]: the rules of the session, from the handshake to the
//!   ordered teardown;
//! - [`lsp::client`] and [`lsp::worker`]: the two ends of the channels, with
//!   the debouncing of content pushes and the diagnostics that count;
//! - [`lsp::diagnostic`]: positions of the protocol and byte spans, and the
//!   way from one to the other;
//! - [`menu`]: the fixes for a diagnostic, the menu that shows them, and the
//!   application of the chosen one to a buffer;
//! - [`text`]: byte-offset operations on UTF-8 text.

pub mod lsp;
pub mod menu;
pub mod text;
