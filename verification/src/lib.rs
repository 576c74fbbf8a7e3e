//! A small collection of verified building blocks: a persistent stack,
//! HTTP request routing and response framing, a key-value store for a
//! Redis-style server, and the timer decisions of a tiny async executor.

pub mod rc_stack;
pub mod http;
pub mod store;
pub mod delay;
