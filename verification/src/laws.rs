//! What the operations of this library promise, stated of their inputs and their results.
//!
//! Each law speaks of what a call is given and what it gives back, whichever way it gets there.

pub mod connection;
pub mod discovery;
pub mod listing;
pub mod management;
pub mod paths;
pub mod running;
pub mod stand_in;
pub mod supervision;
pub mod values;
pub mod words;
