//! The driver: the table of operations in flight, the submission queue, and
//! the dispatch of completions.

pub mod laws;
pub mod model;
mod state;

use crate::driver::model::{AbandonView, DispatchView, DriverView};
use crate::driver::state::State;
use crate::error::{LifecycleError, SubmitError};
use crate::op::{
    Completion, CompletionView, OpState, Operation, OperationView, SubmissionEntry,
    SubmissionEntryView,
};
use vstd::prelude::*;

verus! {

/// The views of the operations of a table.
pub open spec fn operations_view(m: Map<u64, Operation>) -> Map<u64, OperationView> {
    Map::new(|id: u64| m.contains_key(id), |id: u64| m[id]@)
}

/// The views of the entries of a queue.
pub open spec fn entries_view(s: Seq<SubmissionEntry>) -> Seq<SubmissionEntryView> {
    Seq::new(s.len(), |i: int| s[i]@)
}

/// The views of a run of completions.
pub open spec fn completions_view(s: Seq<Completion>) -> Seq<CompletionView> {
    Seq::new(s.len(), |i: int| s[i]@)
}

/// The views of a run of dispatches.
pub open spec fn dispatches_view(s: Seq<Dispatch>) -> Seq<DispatchView> {
    Seq::new(s.len(), |i: int| s[i]@)
}

/// What the driver made of one completion.
#[derive(Debug)]
pub enum Dispatch {
    /// The result is stored, and the caller that waits for `id` is to be woken.
    Wake { id: u64 },
    /// The operation had been abandoned; the kernel is done with it, and the
    /// driver has let go of it and of its buffer.
    Released { operation: Operation },
    /// The operation had its result already; the completion was dropped.
    Duplicate { id: u64 },
    /// The driver knew no operation of that id; the completion was dropped.
    Unknown { id: u64 },
}

impl View for Dispatch {
    type V = DispatchView;

    open spec fn view(&self) -> DispatchView {
        match *self {
            Dispatch::Wake { id } => DispatchView::Wake { id },
            Dispatch::Released { operation } => DispatchView::Released { operation: operation@ },
            Dispatch::Duplicate { id } => DispatchView::Duplicate { id },
            Dispatch::Unknown { id } => DispatchView::Unknown { id },
        }
    }
}

/// What became of an operation that its caller gave up.
#[derive(Debug)]
pub enum Abandoned {
    /// The kernel may still use the buffer, so the driver keeps the
    /// operation. `cancel` is the id of the cancellation that it queued for
    /// it, if it could queue one.
    Detached { cancel: Option<u64> },
    /// The operation had completed; the driver has let go of it and of its
    /// buffer.
    Released { operation: Operation },
    /// No caller waited for an operation of that id.
    Unknown,
}

impl View for Abandoned {
    type V = AbandonView;

    open spec fn view(&self) -> AbandonView {
        match *self {
            Abandoned::Detached { cancel } => AbandonView::Detached { cancel },
            Abandoned::Released { operation } => AbandonView::Released { operation: operation@ },
            Abandoned::Unknown => AbandonView::Unknown,
        }
    }
}

/// The driver of one ring. It owns every operation from the moment it takes
/// it until the kernel has reported on it, and with the operation its buffer.
///
/// The submission queue is bounded, and the driver never waits for room in
/// it: a full queue refuses an operation at once, with `SubmitError::Busy`.
pub struct Driver {
    state: State,
}

impl View for Driver {
    type V = DriverView;

    closed spec fn view(&self) -> DriverView {
        self.state@
    }
}

impl Driver {
    /// The driver keeps count, for each file descriptor, of the operations
    /// for which the kernel works on it.
    pub closed spec fn counted(self) -> bool {
        self.state.counted()
    }

    /// Holds of every driver: its view is well formed, and its counts are
    /// right.
    #[verifier::type_invariant]
    pub open spec fn inv(self) -> bool {
        self@.wf() && self.counted()
    }

    /// A running driver whose submission queue holds `capacity` entries.
    pub fn new(capacity: usize) -> (driver: Driver)
        ensures
            driver@ == DriverView::fresh(capacity),
            driver@.wf(),
    {
        Driver { state: State::new(capacity, 0) }
    }

    /// A running driver whose submission queue holds `capacity` entries and
    /// whose ids start at `first_id`. No id below `first_id` is ever handed
    /// out, so ids that an earlier driver gave stay unmistakable.
    pub fn with_first_id(capacity: usize, first_id: u64) -> (driver: Driver)
        ensures
            driver@ == DriverView::fresh_from(capacity, first_id),
            driver@.wf(),
    {
        Driver { state: State::new(capacity, first_id) }
    }

    /// Whether the driver takes operations.
    pub fn is_running(&self) -> (b: bool)
        ensures
            b == self@.running,
            self@.wf(),
    {
        proof {
            use_type_invariant(self);
        }
        self.state.is_running()
    }

    /// How many entries the submission queue holds at most.
    pub fn capacity(&self) -> (n: usize)
        ensures
            n == self@.capacity,
    {
        self.state.capacity()
    }

    /// How many entries wait for the kernel.
    pub fn queued(&self) -> (n: usize)
        ensures
            n == self@.queue.len(),
            n <= self@.capacity,
    {
        proof {
            use_type_invariant(self);
        }
        self.state.queued()
    }

    /// Where the operation `id` stands, if a caller waits for it.
    pub fn state_of(&self, id: u64) -> (state: Option<OpState>)
        ensures
            state == if self@.table.contains_key(id) {
                Some(self@.table[id].state)
            } else {
                None
            },
    {
        self.state.state_of(id)
    }

    /// Whether the driver keeps the operation `id` for the kernel alone, its
    /// caller gone.
    pub fn is_orphan(&self, id: u64) -> (b: bool)
        ensures
            b == self@.orphans.contains_key(id),
    {
        self.state.is_orphan(id)
    }

    /// Whether nothing is queued, in flight or waiting to be collected.
    pub fn is_idle(&self) -> (b: bool)
        ensures
            b == self@.idle(),
    {
        self.state.is_idle()
    }

    /// For how many operations the kernel works on the file descriptor `fd`.
    /// While the number is not zero, the descriptor must stay open.
    pub fn in_flight_on(&self, fd: i32) -> (n: u64)
        ensures
            n == self@.in_flight_on(fd).len(),
            n == 0 <==> self@.closable(fd),
    {
        proof {
            use_type_invariant(self);
        }
        self.state.in_flight_on(fd)
    }

    /// Offers the operation `op` to the driver. The driver takes it unless
    /// it is stopped, the operation is not new, its request names a negative
    /// file descriptor, the queue is full, or the ids have run out; then it
    /// hands the operation back, buffer and all, with the first of these
    /// reasons that holds. An operation that it takes gets the next id, which
    /// is returned, moves to `Submitted`, and has its entry put last in the
    /// queue.
    pub fn submit(&mut self, op: Operation) -> (r: Result<u64, (SubmitError, Operation)>)
        ensures
            final(self)@ == old(self)@.submit(op@),
            final(self)@.wf(),
            match r {
                Ok(id) => old(self)@.rejection(op@) is None && id == old(self)@.next_id,
                Err((e, back)) => old(self)@.rejection(op@) == Some(e) && back@ == op@,
            },
    {
        proof {
            use_type_invariant(&*self);
        }
        // The state is taken out while it is worked on, and put back after.
        let mut state = State::new(0, 0);
        std::mem::swap(&mut self.state, &mut state);
        let r = state.submit(op);
        std::mem::swap(&mut self.state, &mut state);
        r
    }

    /// Hands the queue to the kernel: returns the entries that waited, oldest
    /// first, and leaves the queue empty.
    pub fn take_submissions(&mut self) -> (entries: Vec<SubmissionEntry>)
        ensures
            final(self)@ == old(self)@.flush(),
            final(self)@.wf(),
            entries_view(entries@) == old(self)@.queue,
    {
        proof {
            use_type_invariant(&*self);
        }
        // The state is taken out while it is worked on, and put back after.
        let mut state = State::new(0, 0);
        std::mem::swap(&mut self.state, &mut state);
        let entries = state.take_submissions();
        std::mem::swap(&mut self.state, &mut state);
        entries
    }

    /// Takes one completion from the kernel. Where a caller waits for the
    /// operation, its buffer receives what the kernel wrote, the result is
    /// stored for the caller, and the caller is to be woken. Where the
    /// operation is an orphan, it leaves the driver, and its buffer is free
    /// again. A completion for an operation that has its result, or for one
    /// that the driver does not know, is dropped and changes nothing.
    pub fn complete(&mut self, event: &Completion) -> (dispatch: Dispatch)
        ensures
            final(self)@ == old(self)@.complete(event@),
            final(self)@.wf(),
            dispatch@ == old(self)@.dispatch(event@),
    {
        proof {
            use_type_invariant(&*self);
        }
        // The state is taken out while it is worked on, and put back after.
        let mut state = State::new(0, 0);
        std::mem::swap(&mut self.state, &mut state);
        let dispatch = state.complete(event);
        std::mem::swap(&mut self.state, &mut state);
        dispatch
    }

    /// Takes the completions `events` from the kernel, one after the other in
    /// their order, and returns what was made of each.
    pub fn drain(&mut self, events: &Vec<Completion>) -> (dispatches: Vec<Dispatch>)
        ensures
            final(self)@ == old(self)@.drain(completions_view(events@)),
            final(self)@.wf(),
            dispatches_view(dispatches@) == old(self)@.dispatches(completions_view(events@)),
    {
        proof {
            use_type_invariant(&*self);
        }
        // The state is taken out while it is worked on, and put back after.
        let mut state = State::new(0, 0);
        std::mem::swap(&mut self.state, &mut state);
        let dispatches = state.drain(events);
        std::mem::swap(&mut self.state, &mut state);
        dispatches
    }

    /// Asks for the operation `id` on behalf of the caller that waits for it.
    /// Once the operation has its result it leaves the driver and is
    /// returned, with its buffer; before that, and for any other id, nothing
    /// is returned and nothing changes.
    pub fn take(&mut self, id: u64) -> (op: Option<Operation>)
        ensures
            final(self)@ == old(self)@.take(id),
            final(self)@.wf(),
            match op {
                Some(done) => old(self)@.taken(id) == Some(done@),
                None => old(self)@.taken(id) is None,
            },
    {
        proof {
            use_type_invariant(&*self);
        }
        // The state is taken out while it is worked on, and put back after.
        let mut state = State::new(0, 0);
        std::mem::swap(&mut self.state, &mut state);
        let op = state.take(id);
        std::mem::swap(&mut self.state, &mut state);
        op
    }

    /// Gives up the operation `id` on behalf of its caller. While the kernel
    /// may still use the buffer, the driver keeps the operation as an orphan
    /// and hands nothing back; it queues a cancellation for it where the
    /// queue has room. An operation that has its result leaves the driver at
    /// once. For any other id nothing changes.
    pub fn abandon(&mut self, id: u64) -> (outcome: Abandoned)
        ensures
            final(self)@ == old(self)@.abandon(id),
            final(self)@.wf(),
            outcome@ == old(self)@.abandoned(id),
    {
        proof {
            use_type_invariant(&*self);
        }
        // The state is taken out while it is worked on, and put back after.
        let mut state = State::new(0, 0);
        std::mem::swap(&mut self.state, &mut state);
        let outcome = state.abandon(id);
        std::mem::swap(&mut self.state, &mut state);
        outcome
    }

    /// Stops the driver, which then takes no operation. A driver stops only
    /// when it is idle: while anything is queued, in flight or waiting to be
    /// collected it refuses, and stays as it is.
    pub fn stop(&mut self) -> (r: Result<(), LifecycleError>)
        ensures
            final(self)@ == old(self)@.stop(),
            final(self)@.wf(),
            match r {
                Ok(_) => old(self)@.stop_error() is None,
                Err(e) => old(self)@.stop_error() == Some(e),
            },
    {
        proof {
            use_type_invariant(&*self);
        }
        // The state is taken out while it is worked on, and put back after.
        let mut state = State::new(0, 0);
        std::mem::swap(&mut self.state, &mut state);
        let r = state.stop();
        std::mem::swap(&mut self.state, &mut state);
        r
    }

    /// Starts a stopped driver again. A running driver refuses, and stays as
    /// it is.
    pub fn start(&mut self) -> (r: Result<(), LifecycleError>)
        ensures
            final(self)@ == old(self)@.start(),
            final(self)@.wf(),
            match r {
                Ok(_) => old(self)@.start_error() is None,
                Err(e) => old(self)@.start_error() == Some(e),
            },
    {
        proof {
            use_type_invariant(&*self);
        }
        // The state is taken out while it is worked on, and put back after.
        let mut state = State::new(0, 0);
        std::mem::swap(&mut self.state, &mut state);
        let r = state.start();
        std::mem::swap(&mut self.state, &mut state);
        r
    }
}

} // verus!
