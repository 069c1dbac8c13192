//! Datagram sockets.

use crate::addr::SocketAddr;
use crate::buf::{Buffer, BufferView};
use crate::driver::model::DriverView;
use crate::driver::Driver;
use crate::error::{IoError, SubmitError};
use crate::op::{Descriptor, DescriptorView, OpKind, Operation, OperationView};
use crate::sys::datagram_socket_type;
use vstd::prelude::*;

verus! {

/// The operation that binds a new socket of type `socket_type` to `local`.
pub open spec fn bind_request(local: SocketAddr, socket_type: i32) -> OperationView {
    OperationView::created(DescriptorView::Bind { local, socket_type }, None)
}

/// The operation that binds a new socket of type `socket_type` to the
/// network device `device`.
pub open spec fn bind_device_request(device: Seq<char>, socket_type: i32) -> OperationView {
    OperationView::created(DescriptorView::BindDevice { device, socket_type }, None)
}

/// The operation that connects the socket `fd` to `peer`.
pub open spec fn connect_request(fd: i32, peer: SocketAddr) -> OperationView {
    OperationView::created(DescriptorView::Connect { fd, peer }, None)
}

/// The operation that sends what `buf` holds from the socket `fd` to `peer`.
pub open spec fn send_to_request(fd: i32, buf: BufferView, peer: SocketAddr) -> OperationView {
    OperationView::created(DescriptorView::SendTo { fd, peer }, Some(buf))
}

/// The operation that receives one datagram on the socket `fd` into `buf`.
pub open spec fn recv_from_request(fd: i32, buf: BufferView) -> OperationView {
    OperationView::created(DescriptorView::RecvFrom { fd }, Some(buf))
}

/// The operation that reads from the connected socket `fd` into `buf`.
pub open spec fn read_request(fd: i32, buf: BufferView) -> OperationView {
    OperationView::created(DescriptorView::Read { fd }, Some(buf))
}

/// The operation that writes what `buf` holds to the connected socket `fd`.
pub open spec fn write_request(fd: i32, buf: BufferView) -> OperationView {
    OperationView::created(DescriptorView::Write { fd }, Some(buf))
}

/// The driver was offered `op`, which owns no buffer: it went from `before`
/// to `after` by its own rule, and `r` is the id that it gave the operation,
/// or the reason why it refused.
pub open spec fn offered(
    before: DriverView,
    after: DriverView,
    r: Result<u64, SubmitError>,
    op: OperationView,
) -> bool {
    &&& after == before.submit(op)
    &&& match r {
        Ok(id) => before.rejection(op) is None && id == before.next_id,
        Err(e) => before.rejection(op) == Some(e),
    }
}

/// The driver was offered `op` with its buffer: it went from `before` to
/// `after` by its own rule, and `r` is the id that it gave the operation, or
/// the reason why it refused together with the buffer, unchanged.
pub open spec fn offered_with_buffer(
    before: DriverView,
    after: DriverView,
    r: Result<u64, (SubmitError, Buffer)>,
    op: OperationView,
) -> bool {
    &&& after == before.submit(op)
    &&& match r {
        Ok(id) => before.rejection(op) is None && id == before.next_id,
        Err((e, back)) => before.rejection(op) == Some(e) && op.buffer == Some(back@),
    }
}

/// What the caller of a bind gets from the operation `done`: the descriptor
/// of the new socket, or the reason why there is none.
pub open spec fn bind_outcome(done: OperationView) -> Result<i32, IoError> {
    if done.kind() is Bind {
        done.value()
    } else {
        Err(IoError::WrongKind)
    }
}

/// A UDP socket.
///
/// UDP knows no connections: whatever address a socket is bound to, it may
/// talk to many peers. It is used in one of two ways. One to many: `bind`,
/// then `send_to` and `recv_from` with any number of addresses. One to one:
/// `connect` to a single peer, then `write` and `read` with that peer alone.
///
/// The socket owns no buffer. Each of its methods builds one operation,
/// hands it to the driver together with the buffer, and returns the id under
/// which the driver knows it. The caller collects the operation under that id
/// once the kernel is done, and gets the result and the buffer from it.
#[derive(Debug)]
pub struct UdpSocket {
    fd: i32,
}

impl View for UdpSocket {
    type V = i32;

    closed spec fn view(&self) -> i32 {
        self.fd
    }
}

impl UdpSocket {
    /// Holds of every socket: its file descriptor is not negative.
    #[verifier::type_invariant]
    pub open spec fn inv(self) -> bool {
        self@ >= 0
    }

    /// The socket behind the file descriptor `fd`; none for a negative one.
    pub fn from_fd(fd: i32) -> (socket: Option<UdpSocket>)
        ensures
            match socket {
                Some(s) => fd >= 0 && s@ == fd,
                None => fd < 0,
            },
    {
        if fd >= 0 {
            Some(UdpSocket { fd })
        } else {
            None
        }
    }

    /// The file descriptor of the socket.
    pub fn fd(&self) -> (fd: i32)
        ensures
            fd == self@,
            fd >= 0,
    {
        proof {
            use_type_invariant(self);
        }
        self.fd
    }

    /// Gives up the socket for its file descriptor, which the caller may
    /// then close. While the kernel works on the descriptor for any
    /// operation, in flight or abandoned, the socket is handed back instead:
    /// a descriptor is not closed under the kernel.
    pub fn close(self, driver: &Driver) -> (r: Result<i32, UdpSocket>)
        ensures
            match r {
                Ok(fd) => fd == self@ && driver@.closable(self@),
                Err(socket) => socket@ == self@ && !driver@.closable(self@),
            },
    {
        if driver.in_flight_on(self.fd) == 0 {
            Ok(self.fd)
        } else {
            Err(self)
        }
    }

    /// Offers the driver an operation that owns no buffer.
    fn offer(driver: &mut Driver, descriptor: Descriptor) -> (r: Result<u64, SubmitError>)
        ensures
            offered(
                old(driver)@,
                final(driver)@,
                r,
                OperationView::created(descriptor@, None),
            ),
    {
        match driver.submit(Operation::new(descriptor, None)) {
            Ok(id) => Ok(id),
            Err((e, _)) => Err(e),
        }
    }

    /// Offers the driver an operation together with the buffer `buf`.
    fn offer_with_buffer(driver: &mut Driver, descriptor: Descriptor, buf: Buffer) -> (r: Result<
        u64,
        (SubmitError, Buffer),
    >)
        ensures
            offered_with_buffer(
                old(driver)@,
                final(driver)@,
                r,
                OperationView::created(descriptor@, Some(buf@)),
            ),
    {
        match driver.submit(Operation::new(descriptor, Some(buf))) {
            Ok(id) => Ok(id),
            Err((e, op)) => {
                let back = op.into_buffer();
                Err((e, back.unwrap()))
            },
        }
    }

    /// Asks for a new datagram socket bound to `socket_addr`: builds the bind
    /// and offers it to the driver. The socket type is the one by which the
    /// platform knows datagram sockets.
    pub fn bind(driver: &mut Driver, socket_addr: SocketAddr) -> (r: Result<u64, SubmitError>)
        ensures
            exists|socket_type: i32|
                offered(
                    old(driver)@,
                    final(driver)@,
                    r,
                    #[trigger] bind_request(socket_addr, socket_type),
                ),
    {
        let socket_type = datagram_socket_type();
        Self::bind_as(driver, socket_addr, socket_type)
    }

    /// Asks for a new socket of type `socket_type` bound to `socket_addr`.
    pub fn bind_as(driver: &mut Driver, socket_addr: SocketAddr, socket_type: i32) -> (r: Result<
        u64,
        SubmitError,
    >)
        ensures
            offered(old(driver)@, final(driver)@, r, bind_request(socket_addr, socket_type)),
    {
        Self::offer(driver, Descriptor::Bind { local: socket_addr, socket_type })
    }

    /// Asks for a new datagram socket bound to the network device
    /// `device_name`. The socket type is the one by which the platform knows
    /// datagram sockets.
    pub fn bind_todevice(driver: &mut Driver, device_name: &str) -> (r: Result<u64, SubmitError>)
        ensures
            exists|socket_type: i32|
                offered(
                    old(driver)@,
                    final(driver)@,
                    r,
                    #[trigger] bind_device_request(device_name@, socket_type),
                ),
    {
        let socket_type = datagram_socket_type();
        Self::bind_todevice_as(driver, device_name, socket_type)
    }

    /// Asks for a new socket of type `socket_type` bound to the network
    /// device `device_name`.
    pub fn bind_todevice_as(driver: &mut Driver, device_name: &str, socket_type: i32) -> (r:
        Result<u64, SubmitError>)
        ensures
            offered(
                old(driver)@,
                final(driver)@,
                r,
                bind_device_request(device_name@, socket_type),
            ),
    {
        Self::offer(driver, Descriptor::BindDevice { device: device_name.to_owned(), socket_type })
    }

    /// The socket that a completed bind has made: the result code of the bind
    /// is its file descriptor. A bind that failed, an operation that has no
    /// result, and one that is no bind give the reason instead.
    pub fn bound(done: Operation) -> (r: Result<UdpSocket, IoError>)
        ensures
            match r {
                Ok(socket) => bind_outcome(done@) == Ok::<i32, IoError>(socket@),
                Err(e) => bind_outcome(done@) == Err::<i32, IoError>(e),
            },
    {
        match done.kind() {
            OpKind::Bind => match done.into_value() {
                Ok(fd) => Ok(UdpSocket { fd }),
                Err(e) => Err(e),
            },
            _ => Err(IoError::WrongKind),
        }
    }

    /// Connects the socket to `socket_addr`, so that `write` and `read` can
    /// be used with that peer. That the connect succeeds says that the kernel
    /// took it, not that anybody listens there: that shows at the first send.
    pub fn connect(&self, driver: &mut Driver, socket_addr: SocketAddr) -> (r: Result<
        u64,
        SubmitError,
    >)
        ensures
            offered(old(driver)@, final(driver)@, r, connect_request(self@, socket_addr)),
    {
        Self::offer(driver, Descriptor::Connect { fd: self.fd, peer: socket_addr })
    }

    /// Sends what `buf` holds to `socket_addr`. The operation's result is the
    /// number of bytes written.
    pub fn send_to(&self, driver: &mut Driver, buf: Buffer, socket_addr: SocketAddr) -> (r: Result<
        u64,
        (SubmitError, Buffer),
    >)
        ensures
            offered_with_buffer(
                old(driver)@,
                final(driver)@,
                r,
                send_to_request(self@, buf@, socket_addr),
            ),
    {
        Self::offer_with_buffer(driver, Descriptor::SendTo { fd: self.fd, peer: socket_addr }, buf)
    }

    /// Receives a single datagram into `buf`. The operation's result is the
    /// number of bytes read and the address they came from.
    pub fn recv_from(&self, driver: &mut Driver, buf: Buffer) -> (r: Result<
        u64,
        (SubmitError, Buffer),
    >)
        ensures
            offered_with_buffer(
                old(driver)@,
                final(driver)@,
                r,
                recv_from_request(self@, buf@),
            ),
    {
        Self::offer_with_buffer(driver, Descriptor::RecvFrom { fd: self.fd }, buf)
    }

    /// Reads a packet from the connected peer into `buf`. The operation's
    /// result is the number of bytes read.
    pub fn read(&self, driver: &mut Driver, buf: Buffer) -> (r: Result<u64, (SubmitError, Buffer)>)
        ensures
            offered_with_buffer(old(driver)@, final(driver)@, r, read_request(self@, buf@)),
    {
        Self::offer_with_buffer(driver, Descriptor::Read { fd: self.fd }, buf)
    }

    /// Writes what `buf` holds to the connected peer. The operation's result
    /// is the number of bytes written.
    pub fn write(&self, driver: &mut Driver, buf: Buffer) -> (r: Result<u64, (SubmitError, Buffer)>)
        ensures
            offered_with_buffer(old(driver)@, final(driver)@, r, write_request(self@, buf@)),
    {
        Self::offer_with_buffer(driver, Descriptor::Write { fd: self.fd }, buf)
    }
}

} // verus!
