//! What the library takes from the platform.

use vstd::prelude::*;

verus! {

/// The number by which this platform knows datagram sockets: the constant
/// `libc::SOCK_DGRAM`. The number differs from one platform to another, so
/// nothing is claimed of it.
#[verifier::external_body]
pub(crate) fn datagram_socket_type() -> (socket_type: i32) {
    libc::SOCK_DGRAM
}

} // verus!
