//! The driver as a state machine over mathematical values: what the driver
//! holds, and what each request makes of it.

use crate::error::{LifecycleError, SubmitError};
use crate::op::{CompletionView, DescriptorView, OperationView, SubmissionEntryView};
use vstd::prelude::*;

verus! {

/// What a driver is.
pub struct DriverView {
    /// Whether the driver takes operations.
    pub running: bool,
    /// How many entries the submission queue holds at most.
    pub capacity: usize,
    /// The id that the next operation gets. Ids are handed out in rising
    /// order and never again.
    pub next_id: u64,
    /// The entries that wait for the kernel, oldest first.
    pub queue: Seq<SubmissionEntryView>,
    /// The operations whose callers wait for them, by id.
    pub table: Map<u64, OperationView>,
    /// The operations whose callers have gone while the kernel may still use
    /// their buffers, by id.
    pub orphans: Map<u64, OperationView>,
}

/// What the driver makes of one completion.
pub enum DispatchView {
    /// The result is stored, and the caller that waits for `id` is to be woken.
    Wake { id: u64 },
    /// The operation had been abandoned; the kernel is done with it, and the
    /// driver lets go of it and of its buffer.
    Released { operation: OperationView },
    /// The operation has its result already; the completion is dropped.
    Duplicate { id: u64 },
    /// The driver knows no operation of that id; the completion is dropped.
    Unknown { id: u64 },
}

/// What becomes of an operation that its caller gives up.
pub enum AbandonView {
    /// The kernel may still use the buffer, so the driver keeps the
    /// operation. `cancel` is the id of the cancellation that it queued for
    /// it, if it could queue one.
    Detached { cancel: Option<u64> },
    /// The operation had completed; the driver lets go of it and of its buffer.
    Released { operation: OperationView },
    /// No caller waits for an operation of that id.
    Unknown,
}

/// One request to the driver.
pub enum Event {
    Submit { operation: OperationView },
    Flush,
    Complete { event: CompletionView },
    Take { id: u64 },
    Abandon { id: u64 },
    Stop,
    Start,
}

impl DriverView {
    /// A caller waits for `id`, and the entry is sound: known under its own
    /// id, handed out before, with the kernel or done, and not an orphan too.
    pub open spec fn awaited_ok(self, id: u64) -> bool {
        let op = self.table[id];
        &&& id < self.next_id
        &&& op.id == id
        &&& op.wf()
        &&& op.state is Submitted || op.state is Completed
        &&& op.state is Completed ==> op.result_slot is Some
        &&& !self.orphans.contains_key(id)
    }

    /// `id` is an orphan, and the entry is sound: known under its own id,
    /// handed out before, and still with the kernel.
    pub open spec fn orphan_ok(self, id: u64) -> bool {
        let op = self.orphans[id];
        &&& id < self.next_id
        &&& op.id == id
        &&& op.wf()
        &&& op.state is Submitted
    }

    /// What holds of a driver at all times.
    pub open spec fn wf(self) -> bool {
        &&& self.queue.len() <= self.capacity
        &&& forall|id: u64| #[trigger] self.table.contains_key(id) ==> self.awaited_ok(id)
        &&& forall|id: u64| #[trigger] self.orphans.contains_key(id) ==> self.orphan_ok(id)
    }

    /// A driver that has just been started, and hands out ids from `first_id`
    /// on.
    pub open spec fn fresh_from(capacity: usize, first_id: u64) -> DriverView {
        DriverView {
            running: true,
            capacity,
            next_id: first_id,
            queue: Seq::empty(),
            table: Map::empty(),
            orphans: Map::empty(),
        }
    }

    /// A driver that has just been started, and hands out ids from 0 on.
    pub open spec fn fresh(capacity: usize) -> DriverView {
        DriverView::fresh_from(capacity, 0)
    }

    /// The driver holds the operation `id`.
    pub open spec fn holds(self, id: u64) -> bool {
        self.table.contains_key(id) || self.orphans.contains_key(id)
    }

    /// The kernel may use the buffer of the operation `id`.
    pub open spec fn kernel_owns(self, id: u64) -> bool {
        ||| self.table.contains_key(id) && self.table[id].state is Submitted
        ||| self.orphans.contains_key(id)
    }

    /// The operation that the driver holds under `id`.
    pub open spec fn operation(self, id: u64) -> OperationView {
        if self.table.contains_key(id) {
            self.table[id]
        } else {
            self.orphans[id]
        }
    }

    /// The kernel works on the file descriptor `fd` for the operation `id`.
    pub open spec fn uses(self, id: u64, fd: i32) -> bool {
        self.kernel_owns(id) && self.operation(id).descriptor.fd() == Some(fd)
    }

    /// The operations for which the kernel works on the file descriptor `fd`.
    pub open spec fn in_flight_on(self, fd: i32) -> Set<u64> {
        Set::new(|id: u64| self.uses(id, fd))
    }

    /// The file descriptor `fd` may be closed: the kernel works on it for no
    /// operation.
    pub open spec fn closable(self, fd: i32) -> bool {
        forall|id: u64| !self.uses(id, fd)
    }

    /// The operation `id` has its result and waits for its caller.
    pub open spec fn collectable(self, id: u64) -> bool {
        self.table.contains_key(id) && self.table[id].state is Completed
    }

    /// Nothing is queued, in flight or waiting to be collected.
    pub open spec fn idle(self) -> bool {
        &&& self.queue.len() == 0
        &&& forall|id: u64| !self.holds(id)
    }

    /// Why the driver does not take `op`, if it does not. The tests are made
    /// in this order.
    pub open spec fn rejection(self, op: OperationView) -> Option<SubmitError> {
        if !self.running {
            Some(SubmitError::Stopped)
        } else if !(op.state is Created) {
            Some(SubmitError::NotCreated)
        } else if !op.descriptor.is_valid() {
            Some(SubmitError::InvalidDescriptor)
        } else if self.queue.len() >= self.capacity {
            Some(SubmitError::Busy)
        } else if self.next_id >= u64::MAX {
            Some(SubmitError::Exhausted)
        } else {
            None
        }
    }

    /// The driver after `op` was offered to it: unchanged if it refuses; else
    /// the operation stands in the table under the next id, in state
    /// `Submitted`, and its entry is the last of the queue.
    pub open spec fn submit(self, op: OperationView) -> DriverView {
        if self.rejection(op) is Some {
            self
        } else {
            let taken = op.submitted(self.next_id);
            DriverView {
                next_id: (self.next_id + 1) as u64,
                queue: self.queue.push(taken.entry()),
                table: self.table.insert(self.next_id, taken),
                ..self
            }
        }
    }

    /// The driver after the kernel has taken the queue.
    pub open spec fn flush(self) -> DriverView {
        DriverView { queue: Seq::empty(), ..self }
    }

    /// What the driver makes of the completion `event`.
    pub open spec fn dispatch(self, event: CompletionView) -> DispatchView {
        if self.table.contains_key(event.id) {
            if self.table[event.id].state is Submitted {
                DispatchView::Wake { id: event.id }
            } else {
                DispatchView::Duplicate { id: event.id }
            }
        } else if self.orphans.contains_key(event.id) {
            DispatchView::Released { operation: self.orphans[event.id].cancelled(event) }
        } else {
            DispatchView::Unknown { id: event.id }
        }
    }

    /// The driver after the completion `event`.
    pub open spec fn complete(self, event: CompletionView) -> DriverView {
        match self.dispatch(event) {
            DispatchView::Wake { id } => DriverView {
                table: self.table.insert(id, self.table[id].completed(event)),
                ..self
            },
            DispatchView::Released { .. } => DriverView {
                orphans: self.orphans.remove(event.id),
                ..self
            },
            DispatchView::Duplicate { .. } => self,
            DispatchView::Unknown { .. } => self,
        }
    }

    /// The driver after the completions `events`, taken in their order.
    pub open spec fn drain(self, events: Seq<CompletionView>) -> DriverView
        decreases events.len(),
    {
        if events.len() == 0 {
            self
        } else {
            self.drain(events.drop_last()).complete(events.last())
        }
    }

    /// What the driver makes of each of the completions `events`.
    pub open spec fn dispatches(self, events: Seq<CompletionView>) -> Seq<DispatchView>
        decreases events.len(),
    {
        if events.len() == 0 {
            Seq::empty()
        } else {
            self.dispatches(events.drop_last()).push(
                self.drain(events.drop_last()).dispatch(events.last()),
            )
        }
    }

    /// What the caller that waits for `id` gets when it asks.
    pub open spec fn taken(self, id: u64) -> Option<OperationView> {
        if self.collectable(id) {
            Some(self.table[id])
        } else {
            None
        }
    }

    /// The driver after the caller that waits for `id` has asked.
    pub open spec fn take(self, id: u64) -> DriverView {
        if self.collectable(id) {
            DriverView { table: self.table.remove(id), ..self }
        } else {
            self
        }
    }

    /// Whether a cancellation can be queued.
    pub open spec fn can_cancel(self) -> bool {
        self.running && self.queue.len() < self.capacity && self.next_id < u64::MAX
    }

    /// The cancellation that the driver queues for the operation `target`.
    pub open spec fn cancellation(self, target: u64) -> OperationView {
        OperationView::created(DescriptorView::Cancel { target }, None).submitted(self.next_id)
    }

    /// What becomes of the operation `id` when its caller gives it up.
    pub open spec fn abandoned(self, id: u64) -> AbandonView {
        if !self.table.contains_key(id) {
            AbandonView::Unknown
        } else if self.table[id].state is Submitted {
            AbandonView::Detached {
                cancel: if self.can_cancel() {
                    Some(self.next_id)
                } else {
                    None
                },
            }
        } else {
            AbandonView::Released { operation: self.table[id] }
        }
    }

    /// The driver after the caller of `id` has given it up. An operation that
    /// the kernel may still use becomes an orphan, buffer and all, and a
    /// cancellation is queued for it where there is room for one; it is an
    /// orphan itself. An operation that has completed leaves the driver.
    pub open spec fn abandon(self, id: u64) -> DriverView {
        match self.abandoned(id) {
            AbandonView::Unknown => self,
            AbandonView::Released { .. } => DriverView { table: self.table.remove(id), ..self },
            AbandonView::Detached { cancel: None } => DriverView {
                table: self.table.remove(id),
                orphans: self.orphans.insert(id, self.table[id]),
                ..self
            },
            AbandonView::Detached { cancel: Some(cancel) } => DriverView {
                next_id: (self.next_id + 1) as u64,
                queue: self.queue.push(self.cancellation(id).entry()),
                table: self.table.remove(id),
                orphans: self.orphans.insert(id, self.table[id]).insert(
                    cancel,
                    self.cancellation(id),
                ),
                ..self
            },
        }
    }

    /// Why the driver does not stop, if it does not.
    pub open spec fn stop_error(self) -> Option<LifecycleError> {
        if !self.running {
            Some(LifecycleError::NotRunning)
        } else if !self.idle() {
            Some(LifecycleError::Outstanding)
        } else {
            None
        }
    }

    /// The driver after it was asked to stop.
    pub open spec fn stop(self) -> DriverView {
        if self.stop_error() is Some {
            self
        } else {
            DriverView { running: false, ..self }
        }
    }

    /// Why the driver does not start, if it does not.
    pub open spec fn start_error(self) -> Option<LifecycleError> {
        if self.running {
            Some(LifecycleError::AlreadyRunning)
        } else {
            None
        }
    }

    /// The driver after it was asked to start.
    pub open spec fn start(self) -> DriverView {
        DriverView { running: true, ..self }
    }

    /// The driver after one request.
    pub open spec fn step(self, e: Event) -> DriverView {
        match e {
            Event::Submit { operation } => self.submit(operation),
            Event::Flush => self.flush(),
            Event::Complete { event } => self.complete(event),
            Event::Take { id } => self.take(id),
            Event::Abandon { id } => self.abandon(id),
            Event::Stop => self.stop(),
            Event::Start => self.start(),
        }
    }

    /// The operation that the driver lets go of in one request, if it lets go
    /// of one.
    pub open spec fn handed_out(self, e: Event) -> Option<OperationView> {
        match e {
            Event::Complete { event } => match self.dispatch(event) {
                DispatchView::Released { operation } => Some(operation),
                _ => None,
            },
            Event::Take { id } => self.taken(id),
            Event::Abandon { id } => match self.abandoned(id) {
                AbandonView::Released { operation } => Some(operation),
                _ => None,
            },
            _ => None,
        }
    }

    /// The driver after the requests `events`, taken in their order.
    pub open spec fn run(self, events: Seq<Event>) -> DriverView
        decreases events.len(),
    {
        if events.len() == 0 {
            self
        } else {
            self.run(events.drop_last()).step(events.last())
        }
    }
}

/// A request that offers an operation offers a well-formed one.
pub open spec fn event_wf(e: Event) -> bool {
    e matches Event::Submit { operation } ==> operation.wf()
}

} // verus!
