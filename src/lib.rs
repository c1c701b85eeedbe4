//! Readiness-based I/O event notification for a sandboxed host that exposes
//! polling, counters and sockets through a narrow handle-based ABI.
//!
//! Each operation is split in two: the host call itself, made by the caller,
//! and the decision taken on what the host answered, which lives here and is
//! verified. The `sim` module holds an in-memory host with the same protocol,
//! against which the selector's guarantees are stated end to end.

pub mod error;
pub mod event;
pub mod selector;
pub mod waker;
pub mod addr;
pub mod stream;
pub mod tcp;
pub mod udp;
pub mod sim;
