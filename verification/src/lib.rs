//! A bridge between a background websocket listener and a foreground view.
//!
//! The background side turns received frames into handoffs; the foreground
//! side drains the handoffs in order, updates the model, and notifies the
//! views that are subscribed to it.

pub mod bridge;
pub mod chat;
pub mod endpoint;
pub mod event_cell;
pub mod frame;
pub mod handoff;
pub mod listener;
pub mod model;
pub mod window;
