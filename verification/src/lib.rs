//! The logic of MuseDesk, a desktop agent that talks to a language model and
//! runs tools on its behalf.

pub mod agent;
pub mod approvals;
pub mod config;
pub mod ids;
pub mod json;
pub mod local_cli;
pub mod prompt;
pub mod reply;
pub mod sse;
pub mod text;
pub mod tools;
pub mod utf8;
