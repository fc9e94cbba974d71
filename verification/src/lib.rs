//! Verified core of a control-room companion for a live-streamed talk event.
//!
//! The library interprets a small staff command language arriving over chat,
//! keeps the ordered queue of upcoming presentations, and decides which
//! replies, overlay events and announcement posts each command produces.
//! All surrounding I/O (chat connections, the overlay process, posting,
//! the snapshot file) lives outside this crate and exchanges plain values
//! with it.

pub mod auth;
pub mod dispatch;
pub mod model;
pub mod overlay;
pub mod parser;
pub mod queue;
pub mod snapshot;
pub mod textutil;
pub mod tweet;
