//! Cooperative core of a distributed HTTP load generator: the message
//! schema with its JSON codec, the worker-side statistics engine, the
//! command dispatcher and task scheduler state machines, and the
//! coordinator-side session bookkeeping.
pub mod coordinator;
pub mod histogram;
pub mod json;
pub mod messages;
pub mod static_assets;
pub mod stats;
pub mod webserver;
pub mod worker;
