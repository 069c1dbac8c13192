//! A completion-based I/O driver for datagram sockets.
//!
//! A caller hands the driver an operation together with the buffer it works
//! on. The driver registers the operation under a fresh id, queues a request
//! for the kernel, and keeps the buffer until the kernel reports the
//! operation's completion, also when the caller gives up waiting in between.
//! Every function is stated over a mathematical model of the driver and
//! proved against it.

pub mod addr;
pub mod buf;
pub mod error;
pub mod op;
pub mod driver;
pub mod net;
mod sys;
