//! Job lifecycle engine of a single-node video transcoding server.
//!
//! The crate holds the rules by which submitted videos are judged, registered,
//! queued, transcoded and finally forgotten. Everything that touches the network,
//! the file system or a child process is left to the caller, who hands this
//! library what those produced and carries out what it decides.

pub mod command;
pub mod config;
pub mod lifecycle;
pub mod models;
pub mod processor;
pub mod queue;
pub mod registry;
pub mod text;
pub mod web;
