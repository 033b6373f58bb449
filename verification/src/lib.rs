//! The analysis agent of a code auditor: the session that drives a model
//! through a conversation with tools or through one request, the bounded
//! window on the conversation, the dispatch of tool calls, and the
//! canonical form of the issues that the model reports. The library
//! decides; requests to the model and work on the file system are done by
//! its caller, between the steps of a session.

pub mod batch;
pub mod cli;
pub mod issue;
pub mod paths;
pub mod report;
pub mod retry;
pub mod session;
pub mod severity;
pub mod temperature;
pub mod text;
pub mod tools;
pub mod transcript;
pub mod window;
pub mod wire;
