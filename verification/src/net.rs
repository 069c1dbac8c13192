//! Sockets on top of the driver.

pub mod udp;
