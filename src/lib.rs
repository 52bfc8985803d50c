//! A clipboard history daemon's logic: the bounded, deduplicating history of
//! copied text, the per-seat selection state machine, and the line protocol
//! that serves snapshots of the history to local clients.

pub mod history;
pub mod protocol;
pub mod seat_data;
pub mod handlers;
pub mod manager;
