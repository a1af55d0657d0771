//! A small chat substrate ordered by Lamport logical clocks: the clock itself,
//! the node that stamps and merges messages, and the relay's registry that
//! decides who receives each line.

pub mod app;
pub mod client;
pub mod lamport_clock;
pub mod server;
