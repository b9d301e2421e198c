//! Verified core of the Codex companion tooling: conversation export to
//! Markdown with secret redaction, project memory keys, the local hub's state
//! and request handling, and the Windows toast notification fallback.
pub mod text;
pub mod redact;
pub mod markdown;
pub mod rollout;
pub mod export;
pub mod paths;
pub mod hub_state;
pub mod hub;
pub mod memory;
pub mod toast;
pub mod screenshot;
pub mod cli;
pub mod desktop;
pub mod laws;
