use kameo_snake_handler::callback::{
    callback_frame, callback_reply, read_callback_reply, CallbackDecision, CallbackError,
    CallbackRegistry, Registration,
};
use kameo_snake_handler::envelope::EnvelopeKind;
use kameo_snake_handler::lock::{ExecutionLock, TaskSignal, TaskState};

fn registration(type_id: u64, handler: u32) -> Registration {
    Registration { type_id, handler, schema_fingerprint: type_id * 3 }
}

#[test]
fn callback_frame_puts_the_type_in_front_of_the_message() {
    let frame = callback_frame(6, 0x0102, &vec![0xee, 0xff]);
    assert_eq!(frame.kind, EnvelopeKind::Callback);
    assert_eq!(frame.correlation_id, 6);
    assert_eq!(frame.payload, vec![0x02, 0x01, 0, 0, 0, 0, 0, 0, 0xee, 0xff]);
}

#[test]
fn type_is_registered_once() {
    let mut registry = CallbackRegistry::new();
    assert_eq!(registry.len(), 0);
    assert!(registry.register(registration(1, 10)));
    assert!(registry.register(registration(2, 20)));
    assert!(!registry.register(registration(1, 30)));
    assert_eq!(registry.len(), 2);
    assert_eq!(registry.lookup(1), Some(registration(1, 10)));
    assert_eq!(registry.lookup(2), Some(registration(2, 20)));
    assert_eq!(registry.lookup(3), None);
}

#[test]
fn registered_callback_is_invoked_with_its_message() {
    let mut registry = CallbackRegistry::new();
    registry.register(registration(1, 10));
    registry.register(registration(2, 20));
    let frame = callback_frame(44, 2, &vec![7, 8, 9]);
    match registry.decide(frame.correlation_id, &frame.payload) {
        CallbackDecision::Invoke { handler, correlation_id, body } => {
            assert_eq!(handler, 20);
            assert_eq!(correlation_id, 44);
            assert_eq!(body, vec![7, 8, 9]);
        }
        other => panic!("got {:?}", other),
    }
}

#[test]
fn callback_without_a_handler_is_refused_for_the_task_only() {
    let mut registry = CallbackRegistry::new();
    registry.register(registration(1, 10));
    let frame = callback_frame(44, 5, &vec![7]);
    match registry.decide(frame.correlation_id, &frame.payload) {
        CallbackDecision::Refuse { reply } => {
            assert_eq!(reply.kind, EnvelopeKind::CallbackReply);
            assert_eq!(reply.correlation_id, 44);
            assert_eq!(reply.payload, vec![1]);
            assert_eq!(read_callback_reply(&reply.payload), Err(CallbackError::NoHandler));
        }
        other => panic!("got {:?}", other),
    }
    assert_eq!(registry.len(), 1);
    assert!(matches!(
        registry.decide(45, &callback_frame(45, 1, &vec![]).payload),
        CallbackDecision::Invoke { handler: 10, correlation_id: 45, .. }
    ));
}

#[test]
fn callback_too_short_to_name_a_type_is_malformed() {
    let registry = CallbackRegistry::new();
    match registry.decide(3, &vec![1, 2, 3]) {
        CallbackDecision::Refuse { reply } => {
            assert_eq!(reply.correlation_id, 3);
            assert_eq!(reply.payload, vec![4]);
        }
        other => panic!("got {:?}", other),
    }
}

#[test]
fn reply_payload_is_a_status_byte_and_the_answer() {
    assert_eq!(callback_reply(1, Ok(vec![5, 6])).payload, vec![0, 5, 6]);
    assert_eq!(callback_reply(1, Ok(vec![])).payload, vec![0]);
    assert_eq!(callback_reply(1, Err(CallbackError::NoHandler)).payload, vec![1]);
    assert_eq!(callback_reply(1, Err(CallbackError::HandlerFailed)).payload, vec![2]);
    assert_eq!(callback_reply(1, Err(CallbackError::TimedOut)).payload, vec![3]);
    assert_eq!(callback_reply(1, Err(CallbackError::Malformed)).payload, vec![4]);
}

#[test]
fn reply_round_trips() {
    let outcomes = vec![
        Ok(vec![]),
        Ok(vec![0]),
        Ok(vec![1, 2, 3]),
        Err(CallbackError::NoHandler),
        Err(CallbackError::HandlerFailed),
        Err(CallbackError::TimedOut),
        Err(CallbackError::Malformed),
    ];
    for outcome in outcomes {
        let frame = callback_reply(9, outcome.clone());
        assert_eq!(frame.kind, EnvelopeKind::CallbackReply);
        assert_eq!(frame.correlation_id, 9);
        assert_eq!(read_callback_reply(&frame.payload), outcome);
    }
}

#[test]
fn reply_that_is_no_reply_is_malformed() {
    assert_eq!(read_callback_reply(&vec![]), Err(CallbackError::Malformed));
    assert_eq!(read_callback_reply(&vec![9]), Err(CallbackError::Malformed));
    assert_eq!(read_callback_reply(&vec![1, 0]), Err(CallbackError::Malformed));
    assert_eq!(read_callback_reply(&vec![2, 2]), Err(CallbackError::Malformed));
}

#[test]
fn lock_has_one_holder() {
    let mut lock = ExecutionLock::new();
    assert_eq!(lock.holder(), None);
    assert!(lock.try_acquire(1));
    assert!(!lock.try_acquire(2));
    assert!(!lock.try_acquire(1));
    assert_eq!(lock.holder(), Some(1));
    assert!(!lock.release(2));
    assert_eq!(lock.holder(), Some(1));
    assert!(lock.release(1));
    assert!(!lock.release(1));
    assert!(lock.try_acquire(2));
    assert_eq!(lock.holder(), Some(2));
}

#[test]
fn waiting_task_runs_only_when_the_lock_is_free() {
    let mut lock = ExecutionLock::new();
    assert_eq!(lock.step(1, TaskState::Waiting, TaskSignal::LockOffered), TaskState::Running);
    assert_eq!(lock.step(2, TaskState::Waiting, TaskSignal::LockOffered), TaskState::Waiting);
    assert_eq!(lock.holder(), Some(1));
    assert_eq!(lock.step(1, TaskState::Running, TaskSignal::Returned), TaskState::Finished);
    assert_eq!(lock.step(2, TaskState::Waiting, TaskSignal::LockOffered), TaskState::Running);
    assert_eq!(lock.holder(), Some(2));
}

#[test]
fn panic_never_leaks_the_lock() {
    let mut lock = ExecutionLock::new();
    assert_eq!(lock.step(1, TaskState::Waiting, TaskSignal::LockOffered), TaskState::Running);
    assert_eq!(lock.step(1, TaskState::Running, TaskSignal::Panicked), TaskState::Finished);
    assert_eq!(lock.holder(), None);
    assert_eq!(lock.step(2, TaskState::Waiting, TaskSignal::Panicked), TaskState::Finished);
    assert_eq!(lock.step(3, TaskState::Suspended, TaskSignal::Panicked), TaskState::Finished);
    assert_eq!(lock.holder(), None);
}

#[test]
fn signals_that_a_state_cannot_take_change_nothing() {
    let mut lock = ExecutionLock::new();
    lock.try_acquire(1);
    for signal in [TaskSignal::LockOffered, TaskSignal::CallbackAnswered] {
        assert_eq!(lock.step(1, TaskState::Running, signal), TaskState::Running);
        assert_eq!(lock.holder(), Some(1));
    }
    for signal in [TaskSignal::CallbackIssued, TaskSignal::CallbackAnswered, TaskSignal::Returned] {
        assert_eq!(lock.step(2, TaskState::Waiting, signal), TaskState::Waiting);
    }
    for signal in [TaskSignal::LockOffered, TaskSignal::CallbackIssued, TaskSignal::Returned] {
        assert_eq!(lock.step(2, TaskState::Suspended, signal), TaskState::Suspended);
    }
    for signal in [
        TaskSignal::LockOffered,
        TaskSignal::CallbackIssued,
        TaskSignal::CallbackAnswered,
        TaskSignal::Returned,
        TaskSignal::Panicked,
    ] {
        assert_eq!(lock.step(2, TaskState::Finished, signal), TaskState::Finished);
        assert_eq!(lock.holder(), Some(1));
    }
}
