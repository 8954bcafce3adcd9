//! The verified core of a desktop overlay that shows the Codex allowance left: the usage
//! snapshot built from the app-server's responses, checkpoint notifications, settings, the
//! JSON-RPC protocol, the connection supervisor, executable discovery and window placement.


pub mod text;
pub mod json;
pub mod percent;
pub mod model;
pub mod checkpoint;
pub mod settings;
pub mod errors;
pub mod runtime;
pub mod supervisor;
pub mod protocol;
pub mod discovery;
pub mod placement;
pub mod commands;
