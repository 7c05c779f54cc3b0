//! The core of a gateway between web clients and a publish/subscribe broker.
//!
//! `actor` is the subscription actor that owns the topic watcher registry (`registry`) and
//! decides every broker operation; `session` decides the lifecycle of one streaming client
//! connection, whose frames `frame` reads; `message` holds the mailbox payloads and replies;
//! `config` turns plain settings into broker and server parameters.
pub mod actor;
pub mod config;
pub mod frame;
pub mod message;
pub mod registry;
pub mod session;
