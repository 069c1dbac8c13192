//! What a driver holds, and the work behind each of its requests.

use crate::driver::laws::{
    lemma_in_flight_after_complete, lemma_in_flight_after_leave, lemma_in_flight_after_submit,
    lemma_in_flight_is_bounded, lemma_in_flight_rests_on_operations, lemma_step_preserves_wf,
};
use crate::driver::model::{DriverView, Event};
use crate::driver::{
    completions_view, dispatches_view, entries_view, operations_view, Abandoned, Dispatch,
};
use crate::error::{LifecycleError, SubmitError};
use crate::op::{Completion, Descriptor, OpState, Operation, SubmissionEntry};
use std::collections::HashMap;
use vstd::prelude::*;

verus! {

broadcast use vstd::std_specs::hash::group_hash_axioms;

/// The state of a driver: the queue, the operations that it holds, and for
/// each file descriptor the number of operations for which the kernel works
/// on it.
pub(crate) struct State {
    running: bool,
    capacity: usize,
    next_id: u64,
    queue: Vec<SubmissionEntry>,
    table: HashMap<u64, Operation>,
    orphans: HashMap<u64, Operation>,
    refs: HashMap<i32, u64>,
}

impl View for State {
    type V = DriverView;

    closed spec fn view(&self) -> DriverView {
        DriverView {
            running: self.running,
            capacity: self.capacity,
            next_id: self.next_id,
            queue: entries_view(self.queue@),
            table: operations_view(self.table@),
            orphans: operations_view(self.orphans@),
        }
    }
}

impl State {
    /// The number that is kept for the file descriptor `fd`.
    pub(crate) closed spec fn count(self, fd: i32) -> nat {
        if self.refs@.contains_key(fd) {
            self.refs@[fd] as nat
        } else {
            0
        }
    }

    /// The number kept for each file descriptor is the number of operations
    /// for which the kernel works on it.
    pub(crate) closed spec fn counted(self) -> bool {
        forall|fd: i32| #[trigger] self.count(fd) == self@.in_flight_on(fd).len()
    }

    /// What holds of a state at all times.
    pub(crate) open spec fn inv(self) -> bool {
        self@.wf() && self.counted()
    }

    /// The state of a running driver that holds nothing and hands out ids
    /// from `first_id` on.
    pub(crate) fn new(capacity: usize, first_id: u64) -> (state: State)
        ensures
            state@ == DriverView::fresh_from(capacity, first_id),
            state.inv(),
    {
        let state = State {
            running: true,
            capacity,
            next_id: first_id,
            queue: Vec::new(),
            table: HashMap::new(),
            orphans: HashMap::new(),
            refs: HashMap::new(),
        };
        proof {
            assert(state@.queue =~= Seq::empty());
            assert(state@.table =~= Map::empty());
            assert(state@.orphans =~= Map::empty());
            assert forall|fd: i32| #[trigger] state.count(fd) == state@.in_flight_on(fd).len() by {
                assert(state@.in_flight_on(fd) =~= Set::empty());
            }
        }
        state
    }

    /// Whether the driver takes operations.
    pub(crate) fn is_running(&self) -> (b: bool)
        ensures
            b == self@.running,
    {
        self.running
    }

    /// How many entries the queue holds at most.
    pub(crate) fn capacity(&self) -> (n: usize)
        ensures
            n == self@.capacity,
    {
        self.capacity
    }

    /// How many entries wait for the kernel.
    pub(crate) fn queued(&self) -> (n: usize)
        ensures
            n == self@.queue.len(),
    {
        self.queue.len()
    }

    /// Where the operation `id` stands, if a caller waits for it.
    pub(crate) fn state_of(&self, id: u64) -> (state: Option<OpState>)
        ensures
            state == if self@.table.contains_key(id) {
                Some(self@.table[id].state)
            } else {
                None
            },
    {
        match self.table.get(&id) {
            Some(op) => Some(op.state()),
            None => None,
        }
    }

    /// Whether the operation `id` is kept for the kernel alone.
    pub(crate) fn is_orphan(&self, id: u64) -> (b: bool)
        ensures
            b == self@.orphans.contains_key(id),
    {
        self.orphans.contains_key(&id)
    }

    /// Whether nothing is queued, in flight or waiting to be collected.
    pub(crate) fn is_idle(&self) -> (b: bool)
        ensures
            b == self@.idle(),
    {
        let b = self.queue.len() == 0 && self.table.is_empty() && self.orphans.is_empty();
        proof {
            if b {
                assert forall|id: u64| !self@.holds(id) by {
                    assert(!self.table@.dom().contains(id));
                    assert(!self.orphans@.dom().contains(id));
                }
            } else if self.queue.len() == 0 {
                if !self.table@.is_empty() {
                    let id = choose|id: u64| self.table@.dom().contains(id);
                    assert(self@.table.contains_key(id));
                    assert(self@.holds(id));
                } else {
                    let id = choose|id: u64| self.orphans@.dom().contains(id);
                    assert(self@.orphans.contains_key(id));
                    assert(self@.holds(id));
                }
            }
        }
        b
    }

    /// For how many operations the kernel works on the file descriptor `fd`.
    pub(crate) fn in_flight_on(&self, fd: i32) -> (n: u64)
        requires
            self.inv(),
        ensures
            n == self@.in_flight_on(fd).len(),
            n == 0 <==> self@.closable(fd),
    {
        proof {
            lemma_in_flight_is_bounded(self@, fd);
            assert(self.count(fd) == self@.in_flight_on(fd).len());
        }
        match self.refs.get(&fd) {
            Some(n) => *n,
            None => 0,
        }
    }

    /// Counts one operation more for the file descriptor `fd`.
    fn count_up(&mut self, fd: i32)
        requires
            old(self).count(fd) < u64::MAX,
        ensures
            final(self)@ == old(self)@,
            forall|other: i32|
                #[trigger] final(self).count(other) == if other == fd {
                    old(self).count(other) + 1
                } else {
                    old(self).count(other)
                },
    {
        let n: u64 = match self.refs.get(&fd) {
            Some(n) => *n,
            None => 0,
        };
        self.refs.insert(fd, n + 1);
    }

    /// Counts one operation less for the file descriptor `fd`.
    fn count_down(&mut self, fd: i32)
        requires
            old(self).count(fd) > 0,
        ensures
            final(self)@ == old(self)@,
            forall|other: i32|
                #[trigger] final(self).count(other) == if other == fd {
                    old(self).count(other) - 1
                } else {
                    old(self).count(other) as int
                },
    {
        let n: u64 = match self.refs.get(&fd) {
            Some(n) => *n,
            None => 0,
        };
        self.refs.insert(fd, n - 1);
    }

    /// Takes the operation `op`, or hands it back with the reason.
    pub(crate) fn submit(&mut self, op: Operation) -> (r: Result<u64, (SubmitError, Operation)>)
        requires
            old(self).inv(),
        ensures
            final(self).inv(),
            final(self)@ == old(self)@.submit(op@),
            match r {
                Ok(id) => old(self)@.rejection(op@) is None && id == old(self)@.next_id,
                Err((e, back)) => old(self)@.rejection(op@) == Some(e) && back@ == op@,
            },
    {
        let ghost before = self@;
        let ghost start = *self;
        let ghost offer = op@;
        let mut op = op;
        if !self.running {
            return Err((SubmitError::Stopped, op));
        }
        match op.state() {
            OpState::Created => {},
            _ => {
                return Err((SubmitError::NotCreated, op));
            },
        }
        if !op.descriptor().is_valid() {
            return Err((SubmitError::InvalidDescriptor, op));
        }
        if self.queue.len() >= self.capacity {
            return Err((SubmitError::Busy, op));
        }
        if self.next_id == u64::MAX {
            return Err((SubmitError::Exhausted, op));
        }
        let id: u64 = self.next_id;
        let fd = op.descriptor().fd();
        let _ = op.mark_submitted(id);
        let entry = op.entry();
        let ghost taken = op@;
        self.queue.push(entry);
        self.table.insert(id, op);
        self.next_id = id + 1;
        match fd {
            Some(fd) => {
                proof {
                    lemma_in_flight_is_bounded(before, fd);
                    assert(start.count(fd) == before.in_flight_on(fd).len());
                }
                self.count_up(fd);
            },
            None => {},
        }
        proof {
            assert(self@.queue =~= before.queue.push(taken.entry()));
            assert(self@.table =~= before.table.insert(id, taken));
            assert(self@ == before.submit(offer));
            lemma_step_preserves_wf(before, Event::Submit { operation: offer });
            assert forall|other: i32| #[trigger]
                self.count(other) == self@.in_flight_on(other).len() by {
                assert(start.count(other) == before.in_flight_on(other).len());
                lemma_in_flight_after_submit(before, offer, other);
                lemma_in_flight_is_bounded(before, other);
            }
        }
        Ok(id)
    }

    /// Hands the queue to the kernel and leaves it empty.
    pub(crate) fn take_submissions(&mut self) -> (entries: Vec<SubmissionEntry>)
        requires
            old(self).inv(),
        ensures
            final(self).inv(),
            final(self)@ == old(self)@.flush(),
            entries_view(entries@) == old(self)@.queue,
    {
        let ghost before = self@;
        let ghost start = *self;
        let mut queue: Vec<SubmissionEntry> = Vec::new();
        std::mem::swap(&mut self.queue, &mut queue);
        proof {
            assert(self@.queue =~= Seq::empty());
            assert(self@ == before.flush());
            lemma_step_preserves_wf(before, Event::Flush);
            assert forall|other: i32| #[trigger]
                self.count(other) == self@.in_flight_on(other).len() by {
                assert(start.count(other) == before.in_flight_on(other).len());
                lemma_in_flight_rests_on_operations(before, self@, other);
            }
        }
        queue
    }

    /// Takes one completion: wakes the caller, releases the orphan, or drops
    /// the completion.
    pub(crate) fn complete(&mut self, event: &Completion) -> (dispatch: Dispatch)
        requires
            old(self).inv(),
        ensures
            final(self).inv(),
            final(self)@ == old(self)@.complete(event@),
            dispatch@ == old(self)@.dispatch(event@),
    {
        let ghost before = self@;
        let ghost start = *self;
        let id: u64 = event.id;
        proof {
            if before.table.contains_key(id) {
                assert(before.awaited_ok(id));
            }
            if before.orphans.contains_key(id) {
                assert(before.orphan_ok(id));
            }
        }
        let dispatch = match self.table.remove(&id) {
            Some(op) => {
                let mut op = op;
                let fd = op.descriptor().fd();
                let woke = op.complete(event);
                self.table.insert(id, op);
                proof {
                    assert(self@.table =~= if woke {
                        before.table.insert(id, before.table[id].completed(event@))
                    } else {
                        before.table
                    });
                    assert(self@.orphans =~= before.orphans);
                }
                if woke {
                    match fd {
                        Some(fd) => {
                            proof {
                                lemma_in_flight_is_bounded(before, fd);
                                assert(before.in_flight_on(fd).contains(id));
                                assert(start.count(fd) == before.in_flight_on(fd).len());
                            }
                            self.count_down(fd);
                        },
                        None => {},
                    }
                    Dispatch::Wake { id }
                } else {
                    Dispatch::Duplicate { id }
                }
            },
            None => {
                match self.orphans.remove(&id) {
                    Some(op) => {
                        let mut op = op;
                        let fd = op.descriptor().fd();
                        let _ = op.cancel(event);
                        proof {
                            assert(self@.table =~= before.table);
                            assert(self@.orphans =~= before.orphans.remove(id));
                        }
                        match fd {
                            Some(fd) => {
                                proof {
                                    lemma_in_flight_is_bounded(before, fd);
                                    assert(before.in_flight_on(fd).contains(id));
                                    assert(start.count(fd) == before.in_flight_on(fd).len());
                                }
                                self.count_down(fd);
                            },
                            None => {},
                        }
                        Dispatch::Released { operation: op }
                    },
                    None => {
                        proof {
                            assert(self@.table =~= before.table);
                            assert(self@.orphans =~= before.orphans);
                        }
                        Dispatch::Unknown { id }
                    },
                }
            },
        };
        proof {
            assert(self@ == before.complete(event@));
            lemma_step_preserves_wf(before, Event::Complete { event: event@ });
            assert forall|other: i32| #[trigger]
                self.count(other) == self@.in_flight_on(other).len() by {
                assert(start.count(other) == before.in_flight_on(other).len());
                lemma_in_flight_after_complete(before, event@, other);
                lemma_in_flight_is_bounded(before, other);
            }
        }
        dispatch
    }

    /// Takes the completions `events` in their order.
    pub(crate) fn drain(&mut self, events: &Vec<Completion>) -> (dispatches: Vec<Dispatch>)
        requires
            old(self).inv(),
        ensures
            final(self).inv(),
            final(self)@ == old(self)@.drain(completions_view(events@)),
            dispatches_view(dispatches@) == old(self)@.dispatches(completions_view(events@)),
    {
        let ghost all = completions_view(events@);
        let mut dispatches: Vec<Dispatch> = Vec::new();
        let mut i: usize = 0;
        proof {
            assert(dispatches_view(dispatches@) =~= Seq::empty());
        }
        while i < events.len()
            invariant
                i <= events.len(),
                all == completions_view(events@),
                self.inv(),
                self@ == old(self)@.drain(all.take(i as int)),
                dispatches_view(dispatches@) == old(self)@.dispatches(all.take(i as int)),
            decreases events.len() - i,
        {
            let ghost seen = dispatches_view(dispatches@);
            let dispatch = self.complete(&events[i]);
            let ghost made = dispatch@;
            dispatches.push(dispatch);
            proof {
                let next = all.take(i + 1);
                assert(next.drop_last() =~= all.take(i as int));
                assert(next.last() == events@[i as int]@);
                assert(dispatches_view(dispatches@) =~= seen.push(made));
            }
            i = i + 1;
        }
        proof {
            assert(all.take(i as int) =~= all);
        }
        dispatches
    }

    /// Hands out the operation `id` once it has its result.
    pub(crate) fn take(&mut self, id: u64) -> (op: Option<Operation>)
        requires
            old(self).inv(),
        ensures
            final(self).inv(),
            final(self)@ == old(self)@.take(id),
            match op {
                Some(done) => old(self)@.taken(id) == Some(done@),
                None => old(self)@.taken(id) is None,
            },
    {
        let ghost before = self@;
        let ghost start = *self;
        let ready = match self.table.get(&id) {
            Some(op) => match op.state() {
                OpState::Completed => true,
                _ => false,
            },
            None => false,
        };
        if !ready {
            return None;
        }
        let op = self.table.remove(&id);
        proof {
            assert(self@.table =~= before.table.remove(id));
            assert(self@ == before.take(id));
            lemma_step_preserves_wf(before, Event::Take { id });
            assert forall|other: i32| #[trigger]
                self.count(other) == self@.in_flight_on(other).len() by {
                assert(start.count(other) == before.in_flight_on(other).len());
                lemma_in_flight_after_leave(before, id, other);
            }
        }
        op
    }

    /// Gives up the operation `id`: it becomes an orphan while the kernel may
    /// use it, and leaves at once where it has its result.
    pub(crate) fn abandon(&mut self, id: u64) -> (outcome: Abandoned)
        requires
            old(self).inv(),
        ensures
            final(self).inv(),
            final(self)@ == old(self)@.abandon(id),
            outcome@ == old(self)@.abandoned(id),
    {
        let ghost before = self@;
        let ghost start = *self;
        let outcome = match self.table.remove(&id) {
            None => {
                proof {
                    assert(self@.table =~= before.table);
                }
                Abandoned::Unknown
            },
            Some(op) => {
                proof {
                    assert(self@.table =~= before.table.remove(id));
                }
                match op.state() {
                    OpState::Submitted => {
                        let ghost kept = op@;
                        let can_cancel = self.running && self.queue.len() < self.capacity
                            && self.next_id < u64::MAX;
                        self.orphans.insert(id, op);
                        if can_cancel {
                            let cancel: u64 = self.next_id;
                            let mut request = Operation::new(
                                Descriptor::Cancel { target: id },
                                None,
                            );
                            let _ = request.mark_submitted(cancel);
                            let entry = request.entry();
                            let ghost asked = request@;
                            self.orphans.insert(cancel, request);
                            self.queue.push(entry);
                            self.next_id = cancel + 1;
                            proof {
                                assert(asked == before.cancellation(id));
                                assert(self@.orphans =~= before.orphans.insert(id, kept).insert(
                                    cancel,
                                    asked,
                                ));
                                assert(self@.queue =~= before.queue.push(asked.entry()));
                            }
                            Abandoned::Detached { cancel: Some(cancel) }
                        } else {
                            proof {
                                assert(self@.orphans =~= before.orphans.insert(id, kept));
                            }
                            Abandoned::Detached { cancel: None }
                        }
                    },
                    _ => Abandoned::Released { operation: op },
                }
            },
        };
        proof {
            assert(self@ == before.abandon(id));
            lemma_step_preserves_wf(before, Event::Abandon { id });
            assert forall|other: i32| #[trigger]
                self.count(other) == self@.in_flight_on(other).len() by {
                assert(start.count(other) == before.in_flight_on(other).len());
                lemma_in_flight_after_leave(before, id, other);
            }
        }
        outcome
    }

    /// Stops an idle driver.
    pub(crate) fn stop(&mut self) -> (r: Result<(), LifecycleError>)
        requires
            old(self).inv(),
        ensures
            final(self).inv(),
            final(self)@ == old(self)@.stop(),
            match r {
                Ok(_) => old(self)@.stop_error() is None,
                Err(e) => old(self)@.stop_error() == Some(e),
            },
    {
        let ghost before = self@;
        let ghost start = *self;
        if !self.running {
            return Err(LifecycleError::NotRunning);
        }
        if !self.is_idle() {
            return Err(LifecycleError::Outstanding);
        }
        self.running = false;
        proof {
            assert(self@ == before.stop());
            lemma_step_preserves_wf(before, Event::Stop);
            assert forall|other: i32| #[trigger]
                self.count(other) == self@.in_flight_on(other).len() by {
                assert(start.count(other) == before.in_flight_on(other).len());
                lemma_in_flight_rests_on_operations(before, self@, other);
            }
        }
        Ok(())
    }

    /// Starts a stopped driver.
    pub(crate) fn start(&mut self) -> (r: Result<(), LifecycleError>)
        requires
            old(self).inv(),
        ensures
            final(self).inv(),
            final(self)@ == old(self)@.start(),
            match r {
                Ok(_) => old(self)@.start_error() is None,
                Err(e) => old(self)@.start_error() == Some(e),
            },
    {
        let ghost before = self@;
        let ghost start = *self;
        if self.running {
            return Err(LifecycleError::AlreadyRunning);
        }
        self.running = true;
        proof {
            assert(self@ == before.start());
            lemma_step_preserves_wf(before, Event::Start);
            assert forall|other: i32| #[trigger]
                self.count(other) == self@.in_flight_on(other).len() by {
                assert(start.count(other) == before.in_flight_on(other).len());
                lemma_in_flight_rests_on_operations(before, self@, other);
            }
        }
        Ok(())
    }
}

} // verus!
