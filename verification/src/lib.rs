//! The Discord side of PIPO, a bridge that relays chat between networks.
//!
//! Everything the transport decides is here: how Discord markup becomes plain text, which
//! message goes on which bus, what a message from another network asks of Discord, and in what
//! order. The surroundings (the gateway, the HTTP interface, the database, the buses) are never
//! called from this crate. A handler that needs one of them hands out a request together with
//! the state in which it waits, and goes on when it is given the reply.

pub mod calendar;
pub mod changes;
pub mod content;
pub mod discord;
pub mod effects;
pub mod handler;
pub mod inbound;
pub mod jobs;
pub mod laws;
pub mod message;
pub mod outbound;
pub mod outside;
pub mod posts;
pub mod promises;
pub mod registry;
pub mod relays;
pub mod text;
