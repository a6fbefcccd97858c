//! An assistant-action subsystem: free-form text is scanned for a bounded
//! set of typed file and process operations, each operation is authorized
//! against a capability and restricted-path policy, and every outcome is
//! reported as a structured, non-throwing response.

pub mod agent;
pub mod api;
pub mod app;
pub mod chat;
pub mod conversation;
pub mod editor;
pub mod explorer;
pub mod executor;
pub mod format;
pub mod json;
pub mod layout;
pub mod parser;
pub mod patterns;
pub mod statusbar;
pub mod text;
