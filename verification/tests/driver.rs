use uring_driver::addr::SocketAddr;
use uring_driver::buf::Buffer;
use uring_driver::driver::{Abandoned, Dispatch, Driver};
use uring_driver::error::{IoError, LifecycleError, SubmitError};
use uring_driver::op::{Completion, Descriptor, OpKind, OpState, Operation};

fn read_op(fd: i32, ptr: usize, capacity: usize) -> Operation {
    Operation::new(Descriptor::Read { fd }, Some(Buffer::with_capacity(ptr, capacity)))
}

fn done(id: u64, result: i32, data: &[u8]) -> Completion {
    Completion { id, result, data: data.to_vec(), peer: None }
}

#[test]
fn a_new_driver_runs_and_is_idle() {
    let driver = Driver::new(8);
    assert!(driver.is_running());
    assert!(driver.is_idle());
    assert_eq!(driver.capacity(), 8);
    assert_eq!(driver.queued(), 0);
    assert_eq!(driver.state_of(0), None);
    assert!(!driver.is_orphan(0));
}

#[test]
fn submit_hands_out_rising_ids_and_queues_in_order() {
    let mut driver = Driver::new(8);
    let a = driver.submit(read_op(3, 0x100, 4)).unwrap();
    let b = driver.submit(Operation::new(
        Descriptor::Write { fd: 4 },
        Some(Buffer::from_vec(0x200, b"abc".to_vec())),
    )).unwrap();
    let c = driver.submit(Operation::new(
        Descriptor::Connect { fd: 5, peer: SocketAddr::v4(127, 0, 0, 1, 8080) },
        None,
    )).unwrap();
    assert_eq!((a, b, c), (0, 1, 2));
    assert_eq!(driver.queued(), 3);
    assert_eq!(driver.state_of(a), Some(OpState::Submitted));
    assert_eq!(driver.state_of(b), Some(OpState::Submitted));
    assert_eq!(driver.state_of(c), Some(OpState::Submitted));
    assert!(!driver.is_idle());

    let entries = driver.take_submissions();
    assert_eq!(driver.queued(), 0);
    assert_eq!(entries.len(), 3);
    assert_eq!(entries[0].id, 0);
    assert_eq!(entries[0].descriptor, Descriptor::Read { fd: 3 });
    assert_eq!((entries[0].ptr, entries[0].len), (0x100, 4));
    assert_eq!(entries[1].id, 1);
    assert_eq!(entries[1].descriptor, Descriptor::Write { fd: 4 });
    assert_eq!((entries[1].ptr, entries[1].len), (0x200, 3));
    assert_eq!(entries[1].payload, b"abc".to_vec());
    assert_eq!(entries[2].id, 2);
    assert_eq!((entries[2].ptr, entries[2].len), (0, 0));
    assert_eq!(driver.take_submissions().len(), 0);
    assert_eq!(driver.state_of(a), Some(OpState::Submitted));
}

#[test]
fn a_full_queue_refuses_at_once_and_returns_the_operation() {
    let mut driver = Driver::new(1);
    assert_eq!(driver.submit(read_op(3, 0x100, 4)).ok(), Some(0));
    match driver.submit(read_op(3, 0x200, 8)) {
        Err((e, op)) => {
            assert_eq!(e, SubmitError::Busy);
            assert_eq!(op.state(), OpState::Created);
            let buf = op.into_buffer().unwrap();
            assert_eq!((buf.ptr(), buf.capacity()), (0x200, 8));
        },
        Ok(_) => panic!("a full queue took an operation"),
    }
    assert_eq!(driver.queued(), 1);
    assert_eq!(driver.state_of(1), None);
    driver.take_submissions();
    assert_eq!(driver.submit(read_op(3, 0x200, 8)).ok(), Some(1));
}

#[test]
fn a_queue_without_room_takes_nothing() {
    let mut driver = Driver::new(0);
    assert!(matches!(driver.submit(read_op(3, 0, 4)), Err((SubmitError::Busy, _))));
    assert!(driver.is_idle());
}

#[test]
fn a_negative_descriptor_is_refused() {
    let mut driver = Driver::new(4);
    match driver.submit(read_op(-1, 0x100, 4)) {
        Err((e, op)) => {
            assert_eq!(e, SubmitError::InvalidDescriptor);
            assert!(op.into_buffer().is_some());
        },
        Ok(_) => panic!("a negative descriptor was taken"),
    }
    assert!(driver.is_idle());
}

#[test]
fn an_operation_is_submitted_once() {
    let mut driver = Driver::new(4);
    let id = driver.submit(read_op(3, 0x100, 4)).unwrap();
    driver.complete(&done(id, 1, &[9]));
    let op = driver.take(id).unwrap();
    assert_eq!(op.state(), OpState::Completed);
    match driver.submit(op) {
        Err((e, op)) => {
            assert_eq!(e, SubmitError::NotCreated);
            assert_eq!(op.state(), OpState::Completed);
            assert_eq!(op.id(), id);
        },
        Ok(_) => panic!("a completed operation was taken again"),
    }
    let mut marked = read_op(3, 0x100, 4);
    marked.mark_submitted(77);
    assert!(matches!(driver.submit(marked), Err((SubmitError::NotCreated, _))));
}

#[test]
fn a_stopped_driver_refuses_before_anything_else() {
    let mut driver = Driver::new(0);
    assert_eq!(driver.stop(), Ok(()));
    assert!(!driver.is_running());
    assert!(matches!(driver.submit(read_op(-1, 0, 4)), Err((SubmitError::Stopped, _))));
}

#[test]
fn refusals_come_in_a_fixed_order() {
    let mut driver = Driver::new(0);
    let mut marked = read_op(-1, 0, 4);
    marked.mark_submitted(1);
    assert!(matches!(driver.submit(marked), Err((SubmitError::NotCreated, _))));
    assert!(matches!(driver.submit(read_op(-1, 0, 4)), Err((SubmitError::InvalidDescriptor, _))));
    assert!(matches!(driver.submit(read_op(1, 0, 4)), Err((SubmitError::Busy, _))));
}

#[test]
fn a_completion_wakes_the_waiter_once() {
    let mut driver = Driver::new(4);
    let id = driver.submit(read_op(3, 0x100, 4)).unwrap();
    assert!(driver.take(id).is_none());
    assert!(matches!(driver.complete(&done(id, 2, &[7, 8])), Dispatch::Wake { id: 0 }));
    assert_eq!(driver.state_of(id), Some(OpState::Completed));
    assert!(matches!(driver.complete(&done(id, 4, &[1, 1, 1, 1])), Dispatch::Duplicate { id: 0 }));
    let op = driver.take(id).unwrap();
    let (result, buf) = op.into_transfer();
    assert_eq!(result, Ok(2));
    assert_eq!(buf.unwrap().into_vec(), vec![7, 8, 0, 0]);
    assert!(driver.take(id).is_none());
    assert!(matches!(driver.complete(&done(id, 2, &[7, 8])), Dispatch::Unknown { id: 0 }));
    assert!(driver.is_idle() || driver.queued() == 1);
}

#[test]
fn a_completion_for_nobody_is_dropped() {
    let mut driver = Driver::new(4);
    let id = driver.submit(read_op(3, 0x100, 4)).unwrap();
    assert!(matches!(driver.complete(&done(99, 2, &[7, 8])), Dispatch::Unknown { id: 99 }));
    assert_eq!(driver.state_of(id), Some(OpState::Submitted));
    assert_eq!(driver.queued(), 1);
    assert!(driver.take(id).is_none());
}

#[test]
fn a_completion_touches_its_own_operation_only() {
    let mut driver = Driver::new(4);
    let a = driver.submit(read_op(3, 0x100, 4)).unwrap();
    let b = driver.submit(read_op(3, 0x200, 4)).unwrap();
    assert!(matches!(driver.complete(&done(b, 1, &[5])), Dispatch::Wake { id: 1 }));
    assert_eq!(driver.state_of(a), Some(OpState::Submitted));
    assert!(driver.take(a).is_none());
    let (result, buf) = driver.take(b).unwrap().into_transfer();
    assert_eq!(result, Ok(1));
    let buf = buf.unwrap();
    assert_eq!(buf.ptr(), 0x200);
    assert_eq!(buf.to_vec(), vec![5]);
    assert!(matches!(driver.complete(&done(a, 2, &[6, 7])), Dispatch::Wake { id: 0 }));
    let (result, buf) = driver.take(a).unwrap().into_transfer();
    assert_eq!(result, Ok(2));
    assert_eq!(buf.unwrap().ptr(), 0x100);
}

#[test]
fn drain_dispatches_in_the_order_of_the_kernel() {
    let mut driver = Driver::new(8);
    let a = driver.submit(read_op(3, 0x100, 4)).unwrap();
    let b = driver.submit(read_op(3, 0x200, 4)).unwrap();
    let c = driver.submit(read_op(3, 0x300, 4)).unwrap();
    driver.abandon(c);
    let events = vec![
        done(b, 1, &[1]),
        done(42, 0, &[]),
        done(a, -5, &[]),
        done(b, 2, &[2, 2]),
        done(c, -125, &[]),
    ];
    let dispatches = driver.drain(&events);
    assert_eq!(dispatches.len(), 5);
    assert!(matches!(dispatches[0], Dispatch::Wake { id: 1 }));
    assert!(matches!(dispatches[1], Dispatch::Unknown { id: 42 }));
    assert!(matches!(dispatches[2], Dispatch::Wake { id: 0 }));
    assert!(matches!(dispatches[3], Dispatch::Duplicate { id: 1 }));
    match &dispatches[4] {
        Dispatch::Released { operation } => {
            assert_eq!(operation.id(), c);
            assert_eq!(operation.state(), OpState::Cancelled);
        },
        _ => panic!("the orphan was not released"),
    }
    assert_eq!(driver.take(b).unwrap().into_transfer().0, Ok(1));
    assert_eq!(driver.take(a).unwrap().into_transfer().0, Err(IoError::Os { errno: 5 }));
    assert!(driver.drain(&Vec::new()).is_empty());
}

#[test]
fn abandon_keeps_the_buffer_until_the_kernel_reports() {
    let mut driver = Driver::new(4);
    let id = driver.submit(read_op(3, 0x100, 4)).unwrap();
    match driver.abandon(id) {
        Abandoned::Detached { cancel } => assert_eq!(cancel, Some(1)),
        _ => panic!("an operation in flight was not detached"),
    }
    assert!(driver.is_orphan(id));
    assert!(driver.is_orphan(1));
    assert_eq!(driver.state_of(id), None);
    assert!(driver.take(id).is_none());
    assert!(matches!(driver.abandon(id), Abandoned::Unknown));
    assert!(driver.is_orphan(id));
    assert!(!driver.is_idle());

    let entries = driver.take_submissions();
    assert_eq!(entries.len(), 2);
    assert_eq!(entries[1].id, 1);
    assert_eq!(entries[1].descriptor, Descriptor::Cancel { target: id });

    match driver.complete(&done(1, 0, &[])) {
        Dispatch::Released { operation } => {
            assert_eq!(operation.kind(), OpKind::Cancel);
            assert!(operation.into_buffer().is_none());
        },
        _ => panic!("the cancellation was not released"),
    }
    assert!(driver.is_orphan(id));
    match driver.complete(&done(id, -125, &[])) {
        Dispatch::Released { operation } => {
            assert_eq!(operation.id(), id);
            assert_eq!(operation.state(), OpState::Cancelled);
            assert_eq!(operation.result(), Err(IoError::Cancelled));
            let buf = operation.into_buffer().unwrap();
            assert_eq!((buf.ptr(), buf.capacity()), (0x100, 4));
        },
        _ => panic!("the orphan was not released"),
    }
    assert!(!driver.is_orphan(id));
    assert!(driver.is_idle());
    assert!(matches!(driver.complete(&done(id, -125, &[])), Dispatch::Unknown { id: 0 }));
}

#[test]
fn abandon_without_room_detaches_without_a_cancellation() {
    let mut driver = Driver::new(1);
    let id = driver.submit(read_op(3, 0x100, 4)).unwrap();
    match driver.abandon(id) {
        Abandoned::Detached { cancel } => assert_eq!(cancel, None),
        _ => panic!("an operation in flight was not detached"),
    }
    assert!(driver.is_orphan(id));
    assert!(!driver.is_orphan(1));
    assert_eq!(driver.queued(), 1);
    driver.take_submissions();
    assert_eq!(driver.submit(read_op(3, 0x200, 4)).ok(), Some(1));
}

#[test]
fn abandon_of_a_completed_operation_releases_it() {
    let mut driver = Driver::new(4);
    let id = driver.submit(read_op(3, 0x100, 4)).unwrap();
    driver.complete(&done(id, 1, &[3]));
    match driver.abandon(id) {
        Abandoned::Released { operation } => {
            assert_eq!(operation.state(), OpState::Completed);
            assert_eq!(operation.into_buffer().unwrap().to_vec(), vec![3]);
        },
        _ => panic!("a completed operation was not released"),
    }
    assert_eq!(driver.state_of(id), None);
    assert!(!driver.is_orphan(id));
    assert_eq!(driver.queued(), 1);
}

#[test]
fn abandon_of_an_unknown_id_changes_nothing() {
    let mut driver = Driver::new(4);
    assert!(matches!(driver.abandon(5), Abandoned::Unknown));
    assert!(driver.is_idle());
    assert_eq!(driver.submit(read_op(3, 0, 1)).ok(), Some(0));
}

#[test]
fn stop_waits_for_the_drain() {
    let mut driver = Driver::new(4);
    let id = driver.submit(read_op(3, 0x100, 4)).unwrap();
    assert_eq!(driver.stop(), Err(LifecycleError::Outstanding));
    assert!(driver.is_running());
    driver.take_submissions();
    assert_eq!(driver.stop(), Err(LifecycleError::Outstanding));
    driver.complete(&done(id, 0, &[]));
    assert_eq!(driver.stop(), Err(LifecycleError::Outstanding));
    assert!(driver.take(id).is_some());
    assert_eq!(driver.stop(), Ok(()));
    assert!(!driver.is_running());
    assert_eq!(driver.stop(), Err(LifecycleError::NotRunning));
}

#[test]
fn stop_waits_for_orphans_too() {
    let mut driver = Driver::new(1);
    let id = driver.submit(read_op(3, 0x100, 4)).unwrap();
    driver.take_submissions();
    driver.abandon(id);
    driver.take_submissions();
    assert_eq!(driver.stop(), Err(LifecycleError::Outstanding));
    driver.complete(&done(1, 0, &[]));
    assert_eq!(driver.stop(), Err(LifecycleError::Outstanding));
    driver.complete(&done(id, -125, &[]));
    assert_eq!(driver.stop(), Ok(()));
}

#[test]
fn start_is_refused_while_running() {
    let mut driver = Driver::new(4);
    assert_eq!(driver.start(), Err(LifecycleError::AlreadyRunning));
    assert!(driver.is_running());
    assert_eq!(driver.stop(), Ok(()));
    assert_eq!(driver.start(), Ok(()));
    assert!(driver.is_running());
    assert_eq!(driver.submit(read_op(3, 0, 1)).ok(), Some(0));
}

#[test]
fn ids_are_not_handed_out_again() {
    let mut driver = Driver::new(4);
    let a = driver.submit(read_op(3, 0x100, 4)).unwrap();
    driver.complete(&done(a, 0, &[]));
    driver.take(a);
    let b = driver.submit(read_op(3, 0x100, 4)).unwrap();
    assert_eq!((a, b), (0, 1));
    assert!(matches!(driver.complete(&done(a, 0, &[])), Dispatch::Unknown { id: 0 }));
    assert_eq!(driver.state_of(b), Some(OpState::Submitted));
}

#[test]
fn a_buffer_in_flight_can_be_had_from_no_call() {
    let mut driver = Driver::new(8);
    let id = driver.submit(read_op(3, 0x100, 4)).unwrap();
    for _ in 0..3 {
        assert!(driver.take(id).is_none());
        assert!(matches!(driver.complete(&done(id + 1, 1, &[1])), Dispatch::Unknown { .. }));
        assert_eq!(driver.state_of(id), Some(OpState::Submitted));
    }
    assert!(matches!(driver.abandon(id), Abandoned::Detached { .. }));
    for _ in 0..3 {
        assert!(driver.take(id).is_none());
        assert!(matches!(driver.abandon(id), Abandoned::Unknown));
        assert!(driver.is_orphan(id));
    }
}

#[test]
fn in_flight_on_counts_the_operations_with_the_kernel() {
    let mut driver = Driver::new(8);
    assert_eq!(driver.in_flight_on(3), 0);
    let a = driver.submit(read_op(3, 0x100, 4)).unwrap();
    let b = driver.submit(read_op(3, 0x200, 4)).unwrap();
    let c = driver.submit(read_op(4, 0x300, 4)).unwrap();
    let bind = driver.submit(Operation::new(
        Descriptor::Bind { local: SocketAddr::v4(127, 0, 0, 1, 1), socket_type: 2 },
        None,
    )).unwrap();
    assert_eq!(bind, 3);
    assert_eq!(driver.in_flight_on(3), 2);
    assert_eq!(driver.in_flight_on(4), 1);
    assert_eq!(driver.in_flight_on(5), 0);

    // An abandoned operation is still with the kernel.
    driver.abandon(a);
    assert_eq!(driver.in_flight_on(3), 2);
    // A completed one is not, collected or not.
    driver.complete(&done(b, 0, &[]));
    assert_eq!(driver.in_flight_on(3), 1);
    driver.complete(&done(b, 0, &[]));
    assert_eq!(driver.in_flight_on(3), 1);
    driver.take(b);
    assert_eq!(driver.in_flight_on(3), 1);
    driver.complete(&done(a, -125, &[]));
    assert_eq!(driver.in_flight_on(3), 0);
    driver.complete(&done(a, -125, &[]));
    assert_eq!(driver.in_flight_on(3), 0);
    assert_eq!(driver.in_flight_on(4), 1);
    driver.complete(&done(c, 1, &[1]));
    assert_eq!(driver.in_flight_on(4), 0);
}

#[test]
fn a_refused_operation_is_not_counted() {
    let mut driver = Driver::new(1);
    driver.submit(read_op(3, 0x100, 4)).unwrap();
    assert!(driver.submit(read_op(3, 0x200, 4)).is_err());
    assert_eq!(driver.in_flight_on(3), 1);
}

#[test]
fn ids_start_where_the_driver_is_told() {
    let mut driver = Driver::with_first_id(4, 1000);
    assert!(driver.is_running());
    assert!(driver.is_idle());
    assert_eq!(driver.capacity(), 4);
    assert_eq!(driver.submit(read_op(3, 0, 1)).ok(), Some(1000));
    assert_eq!(driver.submit(read_op(3, 0, 1)).ok(), Some(1001));
    assert!(matches!(driver.complete(&done(0, 0, &[])), Dispatch::Unknown { id: 0 }));
    assert!(matches!(driver.complete(&done(1000, 0, &[])), Dispatch::Wake { id: 1000 }));
}

#[test]
fn the_last_id_is_never_handed_out() {
    let mut driver = Driver::with_first_id(4, u64::MAX);
    match driver.submit(read_op(3, 0x100, 4)) {
        Err((e, op)) => {
            assert_eq!(e, SubmitError::Exhausted);
            assert_eq!(op.state(), OpState::Created);
            assert_eq!(op.into_buffer().unwrap().ptr(), 0x100);
        },
        Ok(_) => panic!("an id was handed out that does not exist"),
    }
    assert!(driver.is_idle());

    let mut driver = Driver::with_first_id(4, u64::MAX - 1);
    let id = driver.submit(read_op(3, 0x100, 4)).unwrap();
    assert_eq!(id, u64::MAX - 1);
    assert!(matches!(driver.submit(read_op(3, 0x200, 4)), Err((SubmitError::Exhausted, _))));
    // Without an id to give it, no cancellation is queued.
    assert!(matches!(driver.abandon(id), Abandoned::Detached { cancel: None }));
    assert_eq!(driver.queued(), 1);
    assert!(driver.is_orphan(id));
}
