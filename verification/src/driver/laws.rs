//! What holds of every driver, whatever is asked of it and in whatever order.

use crate::driver::model::{event_wf, DispatchView, DriverView, Event};
use crate::op::{CompletionView, OperationView};
use vstd::prelude::*;

verus! {

/// Every request in `events` that offers an operation offers a well-formed one.
pub open spec fn events_wf(events: Seq<Event>) -> bool {
    forall|i: int| 0 <= i < events.len() ==> event_wf(#[trigger] events[i])
}

/// The request `e` is a completion for the operation `id`.
pub open spec fn completes(e: Event, id: u64) -> bool {
    e matches Event::Complete { event } && event.id == id
}

/// The request `e` wakes the caller of the operation `id` when the driver `d`
/// takes it.
pub open spec fn wakes(d: DriverView, e: Event, id: u64) -> bool {
    e matches Event::Complete { event } && event.id == id && d.dispatch(event) is Wake
}

/// How often the caller of the operation `id` is woken while the driver `d`
/// takes the requests `events`.
pub open spec fn wake_count(d: DriverView, events: Seq<Event>, id: u64) -> nat
    decreases events.len(),
{
    if events.len() == 0 {
        0
    } else {
        wake_count(d, events.drop_last(), id) + if wakes(
            d.run(events.drop_last()),
            events.last(),
            id,
        ) {
            1nat
        } else {
            0nat
        }
    }
}

/// A caller may yet be woken for `id`: the operation is with the kernel while
/// its caller waits, or the id has not been handed out.
pub open spec fn may_wake(d: DriverView, id: u64) -> bool {
    ||| d.table.contains_key(id) && d.table[id].state is Submitted
    ||| id >= d.next_id
}

/// A well-formed driver stays well formed, whatever is asked of it.
pub proof fn lemma_step_preserves_wf(d: DriverView, e: Event)
    requires
        d.wf(),
        event_wf(e),
    ensures
        d.step(e).wf(),
{
    let after = d.step(e);
    assert forall|id: u64| #[trigger] after.table.contains_key(id) implies after.awaited_ok(
        id,
    ) by {
        if d.table.contains_key(id) {
            assert(d.awaited_ok(id));
        }
    }
    assert forall|id: u64| #[trigger] after.orphans.contains_key(id) implies after.orphan_ok(
        id,
    ) by {
        if d.orphans.contains_key(id) {
            assert(d.orphan_ok(id));
        }
        if d.table.contains_key(id) {
            assert(d.awaited_ok(id));
        }
    }
}

/// A well-formed driver stays well formed through any run of requests.
pub proof fn lemma_run_preserves_wf(d: DriverView, events: Seq<Event>)
    requires
        d.wf(),
        events_wf(events),
    ensures
        d.run(events).wf(),
    decreases events.len(),
{
    if events.len() > 0 {
        lemma_run_preserves_wf(d, events.drop_last());
        lemma_step_preserves_wf(d.run(events.drop_last()), events.last());
    }
}

/// An operation that the driver takes gets an id that it holds for no other,
/// stands in the table as submitted with the buffer it came with, and its
/// entry is the last of the queue, behind all that waited before.
pub proof fn lemma_submit_registers_under_a_fresh_id(d: DriverView, op: OperationView)
    requires
        d.wf(),
        d.rejection(op) is None,
    ensures
        !d.holds(d.next_id),
        d.submit(op).table.contains_key(d.next_id),
        d.submit(op).table[d.next_id] == op.submitted(d.next_id),
        d.submit(op).table[d.next_id].buffer == op.buffer,
        d.submit(op).kernel_owns(d.next_id),
        d.submit(op).queue.len() == d.queue.len() + 1,
        d.submit(op).queue.last().id == d.next_id,
        d.submit(op).queue.drop_last() == d.queue,
        forall|id: u64| d.holds(id) ==> #[trigger] d.submit(op).holds(id),
{
    if d.table.contains_key(d.next_id) {
        assert(d.awaited_ok(d.next_id));
    }
    if d.orphans.contains_key(d.next_id) {
        assert(d.orphan_ok(d.next_id));
    }
    assert(d.submit(op).queue.drop_last() =~= d.queue);
}

/// A read or a receive that succeeds hands back its buffer with exactly what
/// the kernel wrote at its start: the count that the caller gets is the
/// number of bytes that arrived, the first that many bytes of the buffer are
/// those bytes, the bytes behind them are as they were, and the buffer has
/// the address and the capacity with which it was submitted. Where the kernel
/// wrote as many bytes as it reports and no more than fit, the count is the
/// result code.
pub proof fn lemma_read_round_trip(d: DriverView, event: CompletionView)
    requires
        d.wf(),
        d.table.contains_key(event.id),
        d.table[event.id].state is Submitted,
        d.table[event.id].kind().is_inbound(),
        d.table[event.id].buffer is Some,
        event.result >= 0,
    ensures
        ({
            let sent = d.table[event.id].buffer->0;
            let n = sent.accepted(event.data, event.result as int);
            let after = d.complete(event);
            &&& d.dispatch(event) == DispatchView::Wake { id: event.id }
            &&& after.taken(event.id) matches Some(done)
            &&& done.outcome() == Ok::<usize, crate::error::IoError>(n as usize)
            &&& done.buffer matches Some(back)
            &&& back.bytes.subrange(0, n as int) == event.data.subrange(0, n as int)
            &&& back.bytes.subrange(n as int, back.bytes.len() as int) == sent.bytes.subrange(
                n as int,
                sent.bytes.len() as int,
            )
            &&& back.ptr == sent.ptr
            &&& back.capacity() == sent.capacity()
            &&& n <= back.init
            &&& (event.data.len() == event.result && event.result <= sent.capacity() ==> n
                == event.result)
            &&& !after.take(event.id).holds(event.id)
        }),
{
    assert(d.awaited_ok(event.id));
    let sent = d.table[event.id].buffer->0;
    let n = sent.accepted(event.data, event.result as int);
    let back = sent.deposit(event.data, event.result as int);
    assert(back.bytes.subrange(0, n as int) =~= event.data.subrange(0, n as int));
    assert(back.bytes.subrange(n as int, back.bytes.len() as int) =~= sent.bytes.subrange(
        n as int,
        sent.bytes.len() as int,
    ));
}

/// Whatever the kernel reports, success or failure, the caller that waits
/// gets its buffer back: an operation that was submitted with a buffer is
/// collected with a buffer at the same address and of the same capacity.
pub proof fn lemma_buffer_comes_back(d: DriverView, event: CompletionView)
    requires
        d.wf(),
        d.table.contains_key(event.id),
        d.table[event.id].state is Submitted,
        d.table[event.id].buffer is Some,
    ensures
        d.complete(event).taken(event.id) matches Some(done) && done.buffer matches Some(back)
            && back.ptr == d.table[event.id].buffer->0.ptr && back.capacity()
            == d.table[event.id].buffer->0.capacity() && back.wf(),
{
    assert(d.awaited_ok(event.id));
}

/// A buffer is with the kernel or with a caller, never with both. While the
/// kernel may use the buffer of an operation, no request hands the operation
/// out, and asking for it changes nothing. Whenever a request does hand an
/// operation out, the driver holds it no longer.
pub proof fn lemma_exclusive_ownership(d: DriverView, e: Event, id: u64)
    requires
        d.wf(),
    ensures
        d.kernel_owns(id) && !completes(e, id) ==> !(d.handed_out(e) matches Some(op) && op.id
            == id),
        d.kernel_owns(id) ==> d.taken(id) is None && d.take(id) == d,
        d.kernel_owns(id) ==> !(d.abandoned(id) is Released) && d.abandon(id).kernel_owns(id),
        d.handed_out(e) matches Some(op) ==> d.holds(op.id) && !d.kernel_owns(op.id) || completes(
            e,
            op.id,
        ),
        d.handed_out(e) matches Some(op) ==> !d.step(e).holds(op.id),
{
    if d.table.contains_key(id) {
        assert(d.awaited_ok(id));
    }
    if d.orphans.contains_key(id) {
        assert(d.orphan_ok(id));
    }
    match e {
        Event::Complete { event } => {
            if d.table.contains_key(event.id) {
                assert(d.awaited_ok(event.id));
            }
            if d.orphans.contains_key(event.id) {
                assert(d.orphan_ok(event.id));
            }
        },
        Event::Take { id: other } => {
            if d.table.contains_key(other) {
                assert(d.awaited_ok(other));
            }
        },
        Event::Abandon { id: other } => {
            if d.table.contains_key(other) {
                assert(d.awaited_ok(other));
            }
        },
        _ => {},
    }
}

/// Giving up an operation that is with the kernel hands nothing back: the
/// driver keeps the operation as an orphan, with the buffer as it was.
pub proof fn lemma_abandon_keeps_the_buffer(d: DriverView, id: u64)
    requires
        d.wf(),
        d.table.contains_key(id),
        d.table[id].state is Submitted,
    ensures
        d.abandoned(id) is Detached,
        d.abandon(id).orphans.contains_key(id),
        d.abandon(id).orphans[id] == d.table[id],
        !d.abandon(id).table.contains_key(id),
        d.handed_out(Event::Abandon { id }) is None,
{
    assert(d.awaited_ok(id));
}

/// An orphan stays with the driver, buffer and all, until the kernel reports
/// on it: no request but a completion for its id changes it or hands it out.
pub proof fn lemma_orphan_stays_until_completion(d: DriverView, e: Event, id: u64)
    requires
        d.wf(),
        d.orphans.contains_key(id),
        !completes(e, id),
    ensures
        d.step(e).orphans.contains_key(id),
        d.step(e).orphans[id] == d.orphans[id],
        !(d.handed_out(e) matches Some(op) && op.id == id),
{
    assert(d.orphan_ok(id));
    lemma_exclusive_ownership(d, e, id);
    match e {
        Event::Abandon { id: other } => {
            if d.table.contains_key(other) {
                assert(d.awaited_ok(other));
            }
        },
        _ => {},
    }
}

/// The same through any run of requests: as long as no completion for its id
/// is among them, an orphan is still held at the end, with the buffer as it
/// was.
pub proof fn lemma_orphan_outlives_any_run(d: DriverView, events: Seq<Event>, id: u64)
    requires
        d.wf(),
        events_wf(events),
        d.orphans.contains_key(id),
        forall|i: int| 0 <= i < events.len() ==> !completes(#[trigger] events[i], id),
    ensures
        d.run(events).orphans.contains_key(id),
        d.run(events).orphans[id] == d.orphans[id],
    decreases events.len(),
{
    if events.len() > 0 {
        lemma_orphan_outlives_any_run(d, events.drop_last(), id);
        lemma_run_preserves_wf(d, events.drop_last());
        lemma_orphan_stays_until_completion(d.run(events.drop_last()), events.last(), id);
    }
}

/// The completion that the kernel reports for an orphan is what ends its stay:
/// the operation leaves the driver as cancelled, and only then is its buffer
/// free.
pub proof fn lemma_completion_releases_the_orphan(d: DriverView, event: CompletionView)
    requires
        d.wf(),
        d.orphans.contains_key(event.id),
    ensures
        d.dispatch(event) matches DispatchView::Released { operation } && operation.state
            is Cancelled && operation.id == event.id && operation.buffer
            == d.orphans[event.id].buffer_after(event),
        !d.complete(event).holds(event.id),
{
    assert(d.orphan_ok(event.id));
    if d.table.contains_key(event.id) {
        assert(d.awaited_ok(event.id));
    }
}

/// A completion is matched to the operation of its id and to no other: every
/// other operation that the driver holds is after it as it was before.
pub proof fn lemma_completion_touches_one_operation(
    d: DriverView,
    event: CompletionView,
    other: u64,
)
    requires
        other != event.id,
    ensures
        d.complete(event).table.contains_key(other) == d.table.contains_key(other),
        d.table.contains_key(other) ==> d.complete(event).table[other] == d.table[other],
        d.complete(event).orphans.contains_key(other) == d.orphans.contains_key(other),
        d.orphans.contains_key(other) ==> d.complete(event).orphans[other] == d.orphans[other],
        d.complete(event).queue == d.queue,
        d.complete(event).next_id == d.next_id,
{
}

/// Once a caller cannot be woken for an id any more, no request makes it so
/// again.
pub proof fn lemma_no_second_chance(d: DriverView, e: Event, id: u64)
    requires
        d.wf(),
        !may_wake(d, id),
    ensures
        !may_wake(d.step(e), id),
        !wakes(d, e, id),
{
    if d.table.contains_key(id) {
        assert(d.awaited_ok(id));
    }
}

/// A completion that wakes the caller of an operation is the last that can.
pub proof fn lemma_wake_is_final(d: DriverView, e: Event, id: u64)
    requires
        d.wf(),
        wakes(d, e, id),
    ensures
        !may_wake(d.step(e), id),
        d.step(e).collectable(id),
{
    assert(d.awaited_ok(id));
}

/// Through any run of requests, the caller of an operation is woken at most
/// once; and once it has been woken, or the id is spent, never again.
pub proof fn lemma_at_most_one_wake(d: DriverView, events: Seq<Event>, id: u64)
    requires
        d.wf(),
        events_wf(events),
    ensures
        wake_count(d, events, id) <= 1,
        wake_count(d, events, id) == 1 ==> !may_wake(d.run(events), id),
        !may_wake(d, id) ==> wake_count(d, events, id) == 0 && !may_wake(d.run(events), id),
    decreases events.len(),
{
    if events.len() > 0 {
        let before = d.run(events.drop_last());
        lemma_at_most_one_wake(d, events.drop_last(), id);
        lemma_run_preserves_wf(d, events.drop_last());
        if may_wake(before, id) {
            if wakes(before, events.last(), id) {
                lemma_wake_is_final(before, events.last(), id);
            }
        } else {
            lemma_no_second_chance(before, events.last(), id);
        }
    }
}

/// A set of ids that all lie below `n` is finite and has at most `n` members.
pub proof fn lemma_ids_below_are_few(s: Set<u64>, n: nat)
    requires
        forall|id: u64| s.contains(id) ==> id < n,
    ensures
        s.finite(),
        s.len() <= n,
    decreases n,
{
    if n == 0 {
        assert(s =~= Set::empty());
    } else if n - 1 > u64::MAX {
        lemma_ids_below_are_few(s, (n - 1) as nat);
    } else {
        let top = (n - 1) as u64;
        let rest = s.remove(top);
        lemma_ids_below_are_few(rest, (n - 1) as nat);
        if s.contains(top) {
            assert(s =~= rest.insert(top));
        } else {
            assert(s =~= rest);
        }
    }
}

/// The kernel works on a file descriptor for finitely many operations, no
/// more than ids have been handed out.
pub proof fn lemma_in_flight_is_bounded(d: DriverView, fd: i32)
    requires
        d.wf(),
    ensures
        d.in_flight_on(fd).finite(),
        d.in_flight_on(fd).len() <= d.next_id,
        d.closable(fd) <==> d.in_flight_on(fd).len() == 0,
{
    let s = d.in_flight_on(fd);
    assert forall|id: u64| s.contains(id) implies id < d.next_id by {
        if d.table.contains_key(id) {
            assert(d.awaited_ok(id));
        } else {
            assert(d.orphan_ok(id));
        }
    }
    lemma_ids_below_are_few(s, d.next_id as nat);
    if d.closable(fd) {
        assert(s =~= Set::empty());
    }
    if s.len() == 0 {
        assert forall|id: u64| !d.uses(id, fd) by {
            if d.uses(id, fd) {
                assert(s.contains(id));
            }
        }
    }
}

/// Which operations the kernel works on for a file descriptor rests on the
/// operations that the driver holds alone.
pub proof fn lemma_in_flight_rests_on_operations(d: DriverView, other: DriverView, fd: i32)
    requires
        other.table == d.table,
        other.orphans == d.orphans,
    ensures
        other.in_flight_on(fd) == d.in_flight_on(fd),
{
    assert(other.in_flight_on(fd) =~= d.in_flight_on(fd));
}

/// An operation that the driver takes is from then on one for which the
/// kernel works on its file descriptor, and changes that for no other
/// descriptor.
pub proof fn lemma_in_flight_after_submit(d: DriverView, op: OperationView, fd: i32)
    requires
        d.wf(),
    ensures
        !d.in_flight_on(fd).contains(d.next_id),
        d.submit(op).in_flight_on(fd) == if d.rejection(op) is None && op.descriptor.fd() == Some(
            fd,
        ) {
            d.in_flight_on(fd).insert(d.next_id)
        } else {
            d.in_flight_on(fd)
        },
{
    if d.table.contains_key(d.next_id) {
        assert(d.awaited_ok(d.next_id));
    }
    if d.orphans.contains_key(d.next_id) {
        assert(d.orphan_ok(d.next_id));
    }
    let after = d.submit(op);
    if d.rejection(op) is None && op.descriptor.fd() == Some(fd) {
        assert forall|id: u64| after.in_flight_on(fd).contains(id) == d.in_flight_on(fd).insert(
            d.next_id,
        ).contains(id) by {
            if d.table.contains_key(id) {
                assert(d.awaited_ok(id));
            }
        }
        assert(after.in_flight_on(fd) =~= d.in_flight_on(fd).insert(d.next_id));
    } else {
        assert forall|id: u64| after.in_flight_on(fd).contains(id) == d.in_flight_on(
            fd,
        ).contains(id) by {
            if d.table.contains_key(id) {
                assert(d.awaited_ok(id));
            }
        }
        assert(after.in_flight_on(fd) =~= d.in_flight_on(fd));
    }
}

/// A completion ends the kernel's work on the file descriptor of the
/// operation that it is matched to, if the kernel still worked on it, and
/// changes nothing for any other descriptor.
pub proof fn lemma_in_flight_after_complete(d: DriverView, event: CompletionView, fd: i32)
    requires
        d.wf(),
    ensures
        d.complete(event).in_flight_on(fd) == if d.uses(event.id, fd) {
            d.in_flight_on(fd).remove(event.id)
        } else {
            d.in_flight_on(fd)
        },
{
    let after = d.complete(event);
    if d.table.contains_key(event.id) {
        assert(d.awaited_ok(event.id));
    }
    if d.orphans.contains_key(event.id) {
        assert(d.orphan_ok(event.id));
    }
    if d.uses(event.id, fd) {
        assert forall|id: u64| after.in_flight_on(fd).contains(id) == d.in_flight_on(fd).remove(
            event.id,
        ).contains(id) by {
            if d.table.contains_key(id) {
                assert(d.awaited_ok(id));
            }
        }
        assert(after.in_flight_on(fd) =~= d.in_flight_on(fd).remove(event.id));
    } else {
        assert forall|id: u64| after.in_flight_on(fd).contains(id) == d.in_flight_on(
            fd,
        ).contains(id) by {
            if d.table.contains_key(id) {
                assert(d.awaited_ok(id));
            }
        }
        assert(after.in_flight_on(fd) =~= d.in_flight_on(fd));
    }
}

/// Collecting an operation or giving one up changes nothing in what the
/// kernel works on: an operation that is collected is done, and one that is
/// given up while the kernel works on it stays with the kernel.
pub proof fn lemma_in_flight_after_leave(d: DriverView, id: u64, fd: i32)
    requires
        d.wf(),
    ensures
        d.take(id).in_flight_on(fd) == d.in_flight_on(fd),
        d.abandon(id).in_flight_on(fd) == d.in_flight_on(fd),
{
    if d.table.contains_key(id) {
        assert(d.awaited_ok(id));
    }
    if d.table.contains_key(d.next_id) {
        assert(d.awaited_ok(d.next_id));
    }
    if d.orphans.contains_key(d.next_id) {
        assert(d.orphan_ok(d.next_id));
    }
    assert forall|other: u64| d.take(id).in_flight_on(fd).contains(other) == d.in_flight_on(
        fd,
    ).contains(other) by {
        if d.table.contains_key(other) {
            assert(d.awaited_ok(other));
        }
    }
    assert(d.take(id).in_flight_on(fd) =~= d.in_flight_on(fd));
    assert forall|other: u64| d.abandon(id).in_flight_on(fd).contains(other) == d.in_flight_on(
        fd,
    ).contains(other) by {
        if d.table.contains_key(other) {
            assert(d.awaited_ok(other));
        }
        if d.orphans.contains_key(other) {
            assert(d.orphan_ok(other));
        }
    }
    assert(d.abandon(id).in_flight_on(fd) =~= d.in_flight_on(fd));
}

/// The kernel's work on a file descriptor ends with a completion and with
/// nothing else: as long as the kernel has not reported on an operation, the
/// descriptor of that operation may not be closed.
pub proof fn lemma_descriptor_stays_in_use(d: DriverView, e: Event, id: u64, fd: i32)
    requires
        d.wf(),
        d.uses(id, fd),
        !completes(e, id),
    ensures
        d.step(e).uses(id, fd),
        !d.step(e).closable(fd),
        !d.closable(fd),
{
    if d.table.contains_key(id) {
        assert(d.awaited_ok(id));
    }
    if d.orphans.contains_key(id) {
        assert(d.orphan_ok(id));
    }
    if d.table.contains_key(d.next_id) {
        assert(d.awaited_ok(d.next_id));
    }
    if d.orphans.contains_key(d.next_id) {
        assert(d.orphan_ok(d.next_id));
    }
}

/// A driver stops only when it holds nothing, and a stopped driver takes no
/// operation.
pub proof fn lemma_stop_waits_for_the_drain(d: DriverView, op: OperationView, id: u64)
    requires
        d.wf(),
    ensures
        d.stop_error() is None ==> !d.holds(id) && d.queue.len() == 0 && !d.stop().running,
        d.holds(id) ==> d.stop() == d,
        !d.running ==> d.submit(op) == d && d.rejection(op) == Some(
            crate::error::SubmitError::Stopped,
        ),
{
}

} // verus!
