//! Operations: the units of work that the driver hands to the kernel.

use crate::addr::SocketAddr;
use crate::buf::{Buffer, BufferView};
use crate::error::IoError;
use vstd::prelude::*;

verus! {

/// What an operation asks the kernel to do.
#[derive(Clone, Copy, Debug, PartialEq, Eq, Structural)]
pub enum OpKind {
    Connect,
    Bind,
    SendTo,
    RecvFrom,
    Read,
    Write,
    Accept,
    Cancel,
}

impl OpKind {
    /// The kernel writes into the buffer of such an operation.
    pub open spec fn is_inbound(self) -> bool {
        self is RecvFrom || self is Read
    }

    /// The kernel reads from the buffer of such an operation.
    pub open spec fn is_outbound(self) -> bool {
        self is SendTo || self is Write
    }

    /// Whether the kernel writes into the buffer of such an operation.
    pub fn inbound(&self) -> (b: bool)
        ensures
            b == self.is_inbound(),
    {
        match self {
            OpKind::RecvFrom => true,
            OpKind::Read => true,
            _ => false,
        }
    }

    /// Whether the kernel reads from the buffer of such an operation.
    pub fn outbound(&self) -> (b: bool)
        ensures
            b == self.is_outbound(),
    {
        match self {
            OpKind::SendTo => true,
            OpKind::Write => true,
            _ => false,
        }
    }
}

/// Where an operation stands in its life.
#[derive(Clone, Copy, Debug, PartialEq, Eq, Structural)]
pub enum OpState {
    /// Built, and not yet known to the kernel.
    Created,
    /// Handed to the kernel, which may use the operation's buffer at any time.
    Submitted,
    /// The kernel has reported the result, and the caller still wanted it.
    Completed,
    /// The caller gave the operation up, and the kernel has since reported
    /// that it is done with it.
    Cancelled,
}

impl OpState {
    /// The moves that the life of an operation allows.
    pub open spec fn can_become(self, next: OpState) -> bool {
        ||| self is Created && next is Submitted
        ||| self is Submitted && next is Completed
        ||| self is Submitted && next is Cancelled
    }

    /// A state that ends the life of an operation.
    pub open spec fn is_terminal(self) -> bool {
        self is Completed || self is Cancelled
    }

    /// Whether an operation in this state may move to `next`.
    pub fn leads_to(&self, next: OpState) -> (b: bool)
        ensures
            b == self.can_become(next),
    {
        match (self, next) {
            (OpState::Created, OpState::Submitted) => true,
            (OpState::Submitted, OpState::Completed) => true,
            (OpState::Submitted, OpState::Cancelled) => true,
            _ => false,
        }
    }

    /// Whether this state ends the life of an operation.
    pub fn terminal(&self) -> (b: bool)
        ensures
            b == self.is_terminal(),
    {
        match self {
            OpState::Completed => true,
            OpState::Cancelled => true,
            _ => false,
        }
    }
}

/// The request as the kernel sees it: what to do, and on which descriptor.
#[derive(Debug, PartialEq, Eq)]
pub enum Descriptor {
    Connect { fd: i32, peer: SocketAddr },
    Bind { local: SocketAddr, socket_type: i32 },
    BindDevice { device: String, socket_type: i32 },
    SendTo { fd: i32, peer: SocketAddr },
    RecvFrom { fd: i32 },
    Read { fd: i32 },
    Write { fd: i32 },
    Accept { fd: i32 },
    Cancel { target: u64 },
}

/// What a [`Descriptor`] is.
pub enum DescriptorView {
    Connect { fd: i32, peer: SocketAddr },
    Bind { local: SocketAddr, socket_type: i32 },
    BindDevice { device: Seq<char>, socket_type: i32 },
    SendTo { fd: i32, peer: SocketAddr },
    RecvFrom { fd: i32 },
    Read { fd: i32 },
    Write { fd: i32 },
    Accept { fd: i32 },
    Cancel { target: u64 },
}

impl DescriptorView {
    /// The kind of work that the request stands for. Binding to an address
    /// and binding to a device are both binds.
    pub open spec fn kind(self) -> OpKind {
        match self {
            DescriptorView::Connect { .. } => OpKind::Connect,
            DescriptorView::Bind { .. } => OpKind::Bind,
            DescriptorView::BindDevice { .. } => OpKind::Bind,
            DescriptorView::SendTo { .. } => OpKind::SendTo,
            DescriptorView::RecvFrom { .. } => OpKind::RecvFrom,
            DescriptorView::Read { .. } => OpKind::Read,
            DescriptorView::Write { .. } => OpKind::Write,
            DescriptorView::Accept { .. } => OpKind::Accept,
            DescriptorView::Cancel { .. } => OpKind::Cancel,
        }
    }

    /// The file descriptor that the request works on, if it works on one.
    pub open spec fn fd(self) -> Option<i32> {
        match self {
            DescriptorView::Connect { fd, .. } => Some(fd),
            DescriptorView::SendTo { fd, .. } => Some(fd),
            DescriptorView::RecvFrom { fd } => Some(fd),
            DescriptorView::Read { fd } => Some(fd),
            DescriptorView::Write { fd } => Some(fd),
            DescriptorView::Accept { fd } => Some(fd),
            _ => None,
        }
    }

    /// A request is valid unless it names a negative file descriptor.
    pub open spec fn is_valid(self) -> bool {
        match self.fd() {
            Some(fd) => fd >= 0,
            None => true,
        }
    }
}

impl View for Descriptor {
    type V = DescriptorView;

    open spec fn view(&self) -> DescriptorView {
        match *self {
            Descriptor::Connect { fd, peer } => DescriptorView::Connect { fd, peer },
            Descriptor::Bind { local, socket_type } => DescriptorView::Bind { local, socket_type },
            Descriptor::BindDevice { device, socket_type } => DescriptorView::BindDevice {
                device: device@,
                socket_type,
            },
            Descriptor::SendTo { fd, peer } => DescriptorView::SendTo { fd, peer },
            Descriptor::RecvFrom { fd } => DescriptorView::RecvFrom { fd },
            Descriptor::Read { fd } => DescriptorView::Read { fd },
            Descriptor::Write { fd } => DescriptorView::Write { fd },
            Descriptor::Accept { fd } => DescriptorView::Accept { fd },
            Descriptor::Cancel { target } => DescriptorView::Cancel { target },
        }
    }
}

impl Descriptor {
    /// The kind of work that the request stands for.
    pub fn kind(&self) -> (k: OpKind)
        ensures
            k == self@.kind(),
    {
        match self {
            Descriptor::Connect { .. } => OpKind::Connect,
            Descriptor::Bind { .. } => OpKind::Bind,
            Descriptor::BindDevice { .. } => OpKind::Bind,
            Descriptor::SendTo { .. } => OpKind::SendTo,
            Descriptor::RecvFrom { .. } => OpKind::RecvFrom,
            Descriptor::Read { .. } => OpKind::Read,
            Descriptor::Write { .. } => OpKind::Write,
            Descriptor::Accept { .. } => OpKind::Accept,
            Descriptor::Cancel { .. } => OpKind::Cancel,
        }
    }

    /// The file descriptor that the request works on, if it works on one.
    pub fn fd(&self) -> (fd: Option<i32>)
        ensures
            fd == self@.fd(),
    {
        match self {
            Descriptor::Connect { fd, .. } => Some(*fd),
            Descriptor::SendTo { fd, .. } => Some(*fd),
            Descriptor::RecvFrom { fd } => Some(*fd),
            Descriptor::Read { fd } => Some(*fd),
            Descriptor::Write { fd } => Some(*fd),
            Descriptor::Accept { fd } => Some(*fd),
            _ => None,
        }
    }

    /// Whether the request names no file descriptor that cannot exist.
    pub fn is_valid(&self) -> (b: bool)
        ensures
            b == self@.is_valid(),
    {
        match self.fd() {
            Some(fd) => fd >= 0,
            None => true,
        }
    }

    /// A second copy of the request.
    pub fn duplicate(&self) -> (copy: Descriptor)
        ensures
            copy@ == self@,
    {
        match self {
            Descriptor::Connect { fd, peer } => Descriptor::Connect { fd: *fd, peer: *peer },
            Descriptor::Bind { local, socket_type } => Descriptor::Bind {
                local: *local,
                socket_type: *socket_type,
            },
            Descriptor::BindDevice { device, socket_type } => Descriptor::BindDevice {
                device: device.clone(),
                socket_type: *socket_type,
            },
            Descriptor::SendTo { fd, peer } => Descriptor::SendTo { fd: *fd, peer: *peer },
            Descriptor::RecvFrom { fd } => Descriptor::RecvFrom { fd: *fd },
            Descriptor::Read { fd } => Descriptor::Read { fd: *fd },
            Descriptor::Write { fd } => Descriptor::Write { fd: *fd },
            Descriptor::Accept { fd } => Descriptor::Accept { fd: *fd },
            Descriptor::Cancel { target } => Descriptor::Cancel { target: *target },
        }
    }
}

/// One entry of the submission queue: a request tagged with the id of its
/// operation, and the memory that the kernel may use for it.
#[derive(Debug, PartialEq, Eq)]
pub struct SubmissionEntry {
    /// The id under which the completion will be reported.
    pub id: u64,
    /// The request.
    pub descriptor: Descriptor,
    /// Where the operation's buffer starts; 0 without a buffer.
    pub ptr: usize,
    /// How many bytes of the buffer the kernel may use: the initialised ones
    /// where it reads, the whole capacity where it writes.
    pub len: usize,
    /// The bytes that the kernel reads, for an operation that sends.
    pub payload: Vec<u8>,
}

/// What a [`SubmissionEntry`] is.
pub struct SubmissionEntryView {
    pub id: u64,
    pub descriptor: DescriptorView,
    pub ptr: usize,
    pub len: usize,
    pub payload: Seq<u8>,
}

impl View for SubmissionEntry {
    type V = SubmissionEntryView;

    open spec fn view(&self) -> SubmissionEntryView {
        SubmissionEntryView {
            id: self.id,
            descriptor: self.descriptor@,
            ptr: self.ptr,
            len: self.len,
            payload: self.payload@,
        }
    }
}

/// What the kernel reports when it is done with an operation.
#[derive(Debug, PartialEq, Eq)]
pub struct Completion {
    /// The id of the operation.
    pub id: u64,
    /// The result code: a count or a value, or a negated error number.
    pub result: i32,
    /// The bytes that the kernel wrote into the operation's buffer.
    pub data: Vec<u8>,
    /// The sender of a received datagram.
    pub peer: Option<SocketAddr>,
}

/// What a [`Completion`] is.
pub struct CompletionView {
    pub id: u64,
    pub result: i32,
    pub data: Seq<u8>,
    pub peer: Option<SocketAddr>,
}

impl View for Completion {
    type V = CompletionView;

    open spec fn view(&self) -> CompletionView {
        CompletionView { id: self.id, result: self.result, data: self.data@, peer: self.peer }
    }
}

/// The result of an operation as it waits for the caller.
#[derive(Clone, Copy, Debug, PartialEq, Eq)]
pub struct Reply {
    /// The result code that the kernel reported.
    pub code: i32,
    /// How many bytes were moved, where the code reports success.
    pub count: usize,
    /// The sender of a received datagram.
    pub peer: Option<SocketAddr>,
}

/// What an [`Operation`] is.
pub struct OperationView {
    /// The id under which the driver knows the operation.
    pub id: u64,
    /// The request to the kernel.
    pub descriptor: DescriptorView,
    /// The buffer that the operation owns.
    pub buffer: Option<BufferView>,
    /// Where the operation stands.
    pub state: OpState,
    /// The result, once there is one.
    pub result_slot: Option<Reply>,
}

/// The view of a buffer that may be absent.
pub open spec fn buffer_view(buffer: Option<Buffer>) -> Option<BufferView> {
    match buffer {
        Some(b) => Some(b@),
        None => None,
    }
}

/// The error number behind a negative result code.
pub open spec fn errno_of(code: i32) -> u32 {
    (-(code as int)) as u32
}

impl OperationView {
    /// The buffer is well formed, and only a completed operation has a result.
    pub open spec fn wf(self) -> bool {
        &&& self.buffer matches Some(b) ==> b.wf()
        &&& self.result_slot is Some ==> self.state is Completed
    }

    /// The kind of work.
    pub open spec fn kind(self) -> OpKind {
        self.descriptor.kind()
    }

    /// A new operation.
    pub open spec fn created(
        descriptor: DescriptorView,
        buffer: Option<BufferView>,
    ) -> OperationView {
        OperationView { id: 0, descriptor, buffer, state: OpState::Created, result_slot: None }
    }

    /// The operation once the driver has taken it under `id`.
    pub open spec fn submitted(self, id: u64) -> OperationView {
        OperationView { id, state: OpState::Submitted, ..self }
    }

    /// The entry that tells the kernel of the operation.
    pub open spec fn entry(self) -> SubmissionEntryView {
        match self.buffer {
            Some(b) => if self.kind().is_outbound() {
                SubmissionEntryView {
                    id: self.id,
                    descriptor: self.descriptor,
                    ptr: b.ptr,
                    len: b.init as usize,
                    payload: b.filled(),
                }
            } else if self.kind().is_inbound() {
                SubmissionEntryView {
                    id: self.id,
                    descriptor: self.descriptor,
                    ptr: b.ptr,
                    len: b.capacity() as usize,
                    payload: Seq::empty(),
                }
            } else {
                SubmissionEntryView {
                    id: self.id,
                    descriptor: self.descriptor,
                    ptr: 0,
                    len: 0,
                    payload: Seq::empty(),
                }
            },
            None => SubmissionEntryView {
                id: self.id,
                descriptor: self.descriptor,
                ptr: 0,
                len: 0,
                payload: Seq::empty(),
            },
        }
    }

    /// How many bytes the completion `event` moved: none on an error; what
    /// arrived in the buffer where the kernel wrote; else what it reports.
    pub open spec fn transferred(self, event: CompletionView) -> nat {
        if event.result < 0 {
            0
        } else if self.kind().is_inbound() {
            match self.buffer {
                Some(b) => b.accepted(event.data, event.result as int),
                None => 0,
            }
        } else {
            event.result as nat
        }
    }

    /// The buffer after the completion `event`: where the kernel wrote, it
    /// holds what arrived; else it is as it was.
    pub open spec fn buffer_after(self, event: CompletionView) -> Option<BufferView> {
        if self.kind().is_inbound() {
            match self.buffer {
                Some(b) => Some(b.deposit(event.data, event.result as int)),
                None => None,
            }
        } else {
            self.buffer
        }
    }

    /// The result that the completion `event` leaves for the caller.
    pub open spec fn reply(self, event: CompletionView) -> Reply {
        Reply {
            code: event.result,
            count: self.transferred(event) as usize,
            peer: event.peer,
        }
    }

    /// The operation after the completion `event`, while its caller waits.
    pub open spec fn completed(self, event: CompletionView) -> OperationView {
        OperationView {
            buffer: self.buffer_after(event),
            state: OpState::Completed,
            result_slot: Some(self.reply(event)),
            ..self
        }
    }

    /// The operation after the completion `event`, its caller gone.
    pub open spec fn cancelled(self, event: CompletionView) -> OperationView {
        OperationView {
            buffer: self.buffer_after(event),
            state: OpState::Cancelled,
            result_slot: None,
            ..self
        }
    }

    /// What the caller gets: the count on success, and else the reason.
    pub open spec fn outcome(self) -> Result<usize, IoError> {
        match self.state {
            OpState::Created => Err(IoError::Incomplete),
            OpState::Submitted => Err(IoError::Incomplete),
            OpState::Cancelled => Err(IoError::Cancelled),
            OpState::Completed => match self.result_slot {
                Some(reply) => if reply.code < 0 {
                    Err(IoError::Os { errno: errno_of(reply.code) })
                } else {
                    Ok(reply.count)
                },
                None => Err(IoError::Incomplete),
            },
        }
    }

    /// The value that the kernel reported, for an operation that moves no
    /// bytes: the result code on success, and else the reason.
    pub open spec fn value(self) -> Result<i32, IoError> {
        match self.outcome() {
            Ok(_) => Ok(self.result_slot->0.code),
            Err(e) => Err(e),
        }
    }

    /// What the receiver of a datagram gets: the count and the sender.
    pub open spec fn datagram(self) -> Result<(usize, SocketAddr), IoError> {
        match self.outcome() {
            Ok(count) => match self.result_slot->0.peer {
                Some(peer) => Ok((count, peer)),
                None => Err(IoError::MissingPeer),
            },
            Err(e) => Err(e),
        }
    }
}

/// One unit of work for the kernel, with the buffer that it owns from the
/// moment it is built until it is taken apart again.
#[derive(Debug)]
pub struct Operation {
    id: u64,
    descriptor: Descriptor,
    buffer: Option<Buffer>,
    state: OpState,
    result_slot: Option<Reply>,
}

impl View for Operation {
    type V = OperationView;

    closed spec fn view(&self) -> OperationView {
        OperationView {
            id: self.id,
            descriptor: self.descriptor@,
            buffer: buffer_view(self.buffer),
            state: self.state,
            result_slot: self.result_slot,
        }
    }
}

impl Operation {
    /// Holds of every operation: its view is well formed.
    #[verifier::type_invariant]
    pub open spec fn inv(self) -> bool {
        self@.wf()
    }

    /// A new operation for the request `descriptor`, which takes ownership
    /// of `buffer`.
    pub fn new(descriptor: Descriptor, buffer: Option<Buffer>) -> (op: Operation)
        ensures
            op@ == OperationView::created(descriptor@, buffer_view(buffer)),
            op@.wf(),
    {
        proof {
            if let Some(b) = &buffer {
                use_type_invariant(b);
            }
        }
        Operation { id: 0, descriptor, buffer, state: OpState::Created, result_slot: None }
    }

    /// The id under which the driver knows the operation.
    pub fn id(&self) -> (id: u64)
        ensures
            id == self@.id,
    {
        self.id
    }

    /// The kind of work.
    pub fn kind(&self) -> (k: OpKind)
        ensures
            k == self@.kind(),
    {
        self.descriptor.kind()
    }

    /// The request to the kernel.
    pub fn descriptor(&self) -> (d: &Descriptor)
        ensures
            d@ == self@.descriptor,
    {
        &self.descriptor
    }

    /// Where the operation stands.
    pub fn state(&self) -> (s: OpState)
        ensures
            s == self@.state,
            self@.wf(),
    {
        proof {
            use_type_invariant(self);
        }
        self.state
    }

    /// The result, once there is one.
    pub fn result_slot(&self) -> (r: Option<Reply>)
        ensures
            r == self@.result_slot,
    {
        self.result_slot
    }

    /// The entry that tells the kernel of the operation.
    pub fn entry(&self) -> (e: SubmissionEntry)
        ensures
            e@ == self@.entry(),
    {
        let descriptor = self.descriptor.duplicate();
        let kind = self.descriptor.kind();
        match &self.buffer {
            Some(b) => {
                if kind.outbound() {
                    let span = b.as_read_slice();
                    SubmissionEntry {
                        id: self.id,
                        descriptor,
                        ptr: span.0,
                        len: span.1,
                        payload: b.to_vec(),
                    }
                } else if kind.inbound() {
                    SubmissionEntry {
                        id: self.id,
                        descriptor,
                        ptr: b.ptr(),
                        len: b.capacity(),
                        payload: Vec::new(),
                    }
                } else {
                    SubmissionEntry { id: self.id, descriptor, ptr: 0, len: 0, payload: Vec::new() }
                }
            },
            None => SubmissionEntry {
                id: self.id,
                descriptor,
                ptr: 0,
                len: 0,
                payload: Vec::new(),
            },
        }
    }

    /// Moves a new operation to `Submitted` under `id`. An operation in any
    /// other state stays as it is.
    pub fn mark_submitted(&mut self, id: u64) -> (done: bool)
        ensures
            done == (old(self)@.state is Created),
            final(self)@ == if done {
                old(self)@.submitted(id)
            } else {
                old(self)@
            },
            final(self)@.wf(),
    {
        proof {
            use_type_invariant(&*self);
        }
        match self.state {
            OpState::Created => {
                self.id = id;
                self.state = OpState::Submitted;
                true
            },
            _ => false,
        }
    }

    /// Lets the buffer take what the kernel wrote for the completion `event`.
    fn receive(&mut self, event: &Completion) -> (count: usize)
        ensures
            count == old(self)@.transferred(event@),
            final(self)@ == (OperationView {
                buffer: old(self)@.buffer_after(event@),
                ..old(self)@
            }),
            final(self)@.wf(),
    {
        proof {
            use_type_invariant(&*self);
        }
        let inbound = self.descriptor.kind().inbound();
        let mut held: Option<Buffer> = None;
        std::mem::swap(&mut self.buffer, &mut held);
        let mut count: usize = 0;
        if inbound {
            match held {
                Some(mut b) => {
                    let n = b.deposit(&event.data, event.result);
                    if event.result >= 0 {
                        count = n;
                    }
                    held = Some(b);
                },
                None => {},
            }
        } else if event.result >= 0 {
            count = event.result as usize;
        }
        std::mem::swap(&mut self.buffer, &mut held);
        count
    }

    /// Takes the completion `event` for a caller that waits: the buffer
    /// receives what the kernel wrote, the result is stored, and the state
    /// becomes `Completed`. Only a submitted operation completes; any other
    /// stays as it is.
    pub fn complete(&mut self, event: &Completion) -> (done: bool)
        ensures
            done == (old(self)@.state is Submitted),
            final(self)@ == if done {
                old(self)@.completed(event@)
            } else {
                old(self)@
            },
            final(self)@.wf(),
    {
        proof {
            use_type_invariant(&*self);
        }
        match self.state {
            OpState::Submitted => {
                let count = self.receive(event);
                self.state = OpState::Completed;
                self.result_slot = Some(Reply { code: event.result, count, peer: event.peer });
                true
            },
            _ => false,
        }
    }

    /// Takes the completion `event` for a caller that has gone: the buffer
    /// receives what the kernel wrote, no result is kept, and the state
    /// becomes `Cancelled`. Only a submitted operation is cancelled; any
    /// other stays as it is.
    pub fn cancel(&mut self, event: &Completion) -> (done: bool)
        ensures
            done == (old(self)@.state is Submitted),
            final(self)@ == if done {
                old(self)@.cancelled(event@)
            } else {
                old(self)@
            },
            final(self)@.wf(),
    {
        proof {
            use_type_invariant(&*self);
        }
        match self.state {
            OpState::Submitted => {
                let _ = self.receive(event);
                self.state = OpState::Cancelled;
                true
            },
            _ => false,
        }
    }

    /// Gives up the operation for its buffer.
    pub fn into_buffer(self) -> (buffer: Option<Buffer>)
        ensures
            buffer_view(buffer) == self@.buffer,
    {
        self.buffer
    }

    /// Takes the operation apart into what its caller gets: the number of
    /// bytes moved or the reason why there is none, and the buffer.
    pub fn into_transfer(self) -> (parts: (Result<usize, IoError>, Option<Buffer>))
        ensures
            parts.0 == self@.outcome(),
            buffer_view(parts.1) == self@.buffer,
    {
        let result = self.result();
        (result, self.buffer)
    }

    /// Takes a datagram receive apart: the number of bytes and the sender, or
    /// the reason why there is none, and the buffer.
    pub fn into_datagram(self) -> (parts: (Result<(usize, SocketAddr), IoError>, Option<Buffer>))
        ensures
            parts.0 == self@.datagram(),
            buffer_view(parts.1) == self@.buffer,
    {
        let result = match self.result() {
            Ok(count) => match self.result_slot {
                Some(reply) => match reply.peer {
                    Some(peer) => Ok((count, peer)),
                    None => Err(IoError::MissingPeer),
                },
                None => Err(IoError::Incomplete),
            },
            Err(e) => Err(e),
        };
        (result, self.buffer)
    }

    /// The value that the kernel reported for an operation that moves no
    /// bytes, or the reason why there is none.
    pub fn into_value(self) -> (value: Result<i32, IoError>)
        ensures
            value == self@.value(),
    {
        match self.result() {
            Ok(_) => match self.result_slot {
                Some(reply) => Ok(reply.code),
                None => Err(IoError::Incomplete),
            },
            Err(e) => Err(e),
        }
    }

    /// The number of bytes moved, or the reason why there is none.
    pub fn result(&self) -> (result: Result<usize, IoError>)
        ensures
            result == self@.outcome(),
    {
        match self.state {
            OpState::Created => Err(IoError::Incomplete),
            OpState::Submitted => Err(IoError::Incomplete),
            OpState::Cancelled => Err(IoError::Cancelled),
            OpState::Completed => match self.result_slot {
                Some(reply) => {
                    if reply.code < 0 {
                        let errno: u32 = if reply.code == i32::MIN {
                            0x8000_0000u32
                        } else {
                            (-reply.code) as u32
                        };
                        Err(IoError::Os { errno })
                    } else {
                        Ok(reply.count)
                    }
                },
                None => Err(IoError::Incomplete),
            },
        }
    }
}

/// A state that ends the life of an operation allows no further move.
pub proof fn lemma_terminal_states_are_final(state: OpState, next: OpState)
    requires
        state.is_terminal(),
    ensures
        !state.can_become(next),
{
}

/// Whatever an operation meets, its buffer stays where it is and as large as
/// it is: completing or cancelling it changes neither the address nor the
/// capacity.
pub proof fn lemma_buffer_checked_in_whole(op: OperationView, event: CompletionView)
    requires
        op.wf(),
    ensures
        op.buffer is Some <==> op.buffer_after(event) is Some,
        op.buffer matches Some(b) ==> {
            let after = op.buffer_after(event)->0;
            &&& after.ptr == b.ptr
            &&& after.capacity() == b.capacity()
            &&& after.wf()
        },
{
}

} // verus!
