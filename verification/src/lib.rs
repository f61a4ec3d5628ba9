//! Core engine of a terminal chat client: an update-to-event pipeline, a
//! bounded chat/message cache with a durable snapshot store, and a retrying
//! send pipeline, each specified and verified.

pub mod auth;
pub mod bus;
pub mod cache;
pub mod config;
pub mod events;
pub mod flush;
pub mod input;
pub mod interaction;
pub mod projector;
pub mod send;
pub mod store;
pub mod text;
pub mod updates;
pub mod view;
