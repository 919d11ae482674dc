//! A loopback control plane for a desktop shell: it resolves proxied paths to
//! HTTPS targets, turns the outcome of each outbound call into a JSON envelope,
//! decides how every inbound request is answered, and follows the life of one
//! supervised companion process.

pub mod envelope;
pub mod gateway;
pub mod json;
pub mod resolver;
pub mod supervisor;
pub mod text;
pub mod tray;
