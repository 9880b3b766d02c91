use ec2_instance_manager::app::AppEvent;
use ec2_instance_manager::saga::{ResizeSaga, SagaCall, SagaStep, WaitDecision, wait_decision};

fn msg_of(e: &AppEvent) -> String {
    match e {
        AppEvent::Message(m) => m.clone(),
        other => panic!("expected a message, found {:?}", other),
    }
}

fn err_of(e: &AppEvent) -> String {
    match e {
        AppEvent::Error(m) => m.clone(),
        other => panic!("expected an error, found {:?}", other),
    }
}

// The full successful run for a burstable target type, in strict order.
#[test]
fn test_saga_full_success_burstable() {
    let mut saga = ResizeSaga::new(
        "i-1".to_string(),
        "t3.small".to_string(),
        "unlimited".to_string(),
    );

    let (events, call) = saga.next_call().unwrap();
    assert!(events.is_empty());
    assert!(matches!(&call, SagaCall::Stop { instance_id } if instance_id == "i-1"));
    assert!(saga.on_result(None).is_empty());

    let (events, call) = saga.next_call().unwrap();
    assert_eq!(msg_of(&events[0]), "Waiting for stop...");
    assert!(matches!(
        &call,
        SagaCall::WaitUntilStopped { instance_id, timeout_secs: 300, poll_secs: 2 }
            if instance_id == "i-1"
    ));
    assert!(saga.on_result(None).is_empty());

    let (events, call) = saga.next_call().unwrap();
    assert_eq!(msg_of(&events[0]), "Changing to t3.small...");
    assert!(matches!(
        &call,
        SagaCall::ModifyType { instance_id, new_type }
            if instance_id == "i-1" && new_type == "t3.small"
    ));
    assert!(saga.on_result(None).is_empty());

    let (events, call) = saga.next_call().unwrap();
    assert_eq!(msg_of(&events[0]), "Setting credit spec...");
    assert!(matches!(
        &call,
        SagaCall::ModifyCreditSpec { instance_id, credit_spec }
            if instance_id == "i-1" && credit_spec == "unlimited"
    ));
    assert!(saga.on_result(None).is_empty());

    let (events, call) = saga.next_call().unwrap();
    assert_eq!(msg_of(&events[0]), "Starting...");
    assert!(matches!(&call, SagaCall::Start { instance_id } if instance_id == "i-1"));
    let finish = saga.on_result(None);
    assert_eq!(finish.len(), 2);
    assert_eq!(msg_of(&finish[0]), "Done. Refreshing...");
    assert!(matches!(finish[1], AppEvent::InstancesUpdated));
    assert!(saga.next_call().is_none());
}

// A non-burstable target type skips the credit step.
#[test]
fn test_saga_skips_credit_for_non_burstable() {
    let mut saga = ResizeSaga::new(
        "i-1".to_string(),
        "m5.large".to_string(),
        "standard".to_string(),
    );
    saga.on_result(None); // stop succeeded
    saga.on_result(None); // wait succeeded
    saga.on_result(None); // modify succeeded
    assert_eq!(saga.step, SagaStep::Start);
}

// Steps one and two succeed, the modify step fails: the error names the
// step, and no start follows; the instance stays stopped.
#[test]
fn test_saga_modify_failure_aborts() {
    let mut saga = ResizeSaga::new(
        "i-1".to_string(),
        "t3.small".to_string(),
        "standard".to_string(),
    );
    assert!(saga.on_result(None).is_empty()); // stop succeeded
    assert!(saga.on_result(None).is_empty()); // wait succeeded
    assert_eq!(saga.step, SagaStep::Modify);
    let events = saga.on_result(Some("boom".to_string()));
    assert_eq!(events.len(), 1);
    assert_eq!(err_of(&events[0]), "Modify failed: boom");
    assert_eq!(saga.step, SagaStep::Done);
    assert!(saga.next_call().is_none());
}

// A failing credit step is reported but the instance is still started.
#[test]
fn test_saga_credit_failure_does_not_abort() {
    let mut saga = ResizeSaga::new(
        "i-1".to_string(),
        "t3.small".to_string(),
        "standard".to_string(),
    );
    saga.on_result(None); // stop
    saga.on_result(None); // wait
    saga.on_result(None); // modify
    assert_eq!(saga.step, SagaStep::CreditSpec);
    let events = saga.on_result(Some("denied".to_string()));
    assert_eq!(err_of(&events[0]), "Credit spec failed: denied");
    assert_eq!(saga.step, SagaStep::Start);
    let (events, call) = saga.next_call().unwrap();
    assert_eq!(msg_of(&events[0]), "Starting...");
    assert!(matches!(call, SagaCall::Start { .. }));
}

// The first failing step ends the workflow with its own error prefix.
#[test]
fn test_saga_stop_and_wait_failures() {
    let mut saga = ResizeSaga::new(
        "i-1".to_string(),
        "t3.small".to_string(),
        "standard".to_string(),
    );
    let events = saga.on_result(Some("no permission".to_string()));
    assert_eq!(err_of(&events[0]), "Stop failed: no permission");
    assert!(saga.next_call().is_none());

    let mut saga = ResizeSaga::new(
        "i-1".to_string(),
        "t3.small".to_string(),
        "standard".to_string(),
    );
    saga.on_result(None);
    let events = saga.on_result(Some("Timeout waiting for instance to stop".to_string()));
    assert_eq!(err_of(&events[0]), "Wait failed: Timeout waiting for instance to stop");
    assert!(saga.next_call().is_none());
}

// The wait poll: finish on "stopped", give up past the ceiling, else poll.
#[test]
fn test_wait_decision() {
    assert_eq!(wait_decision("stopped", 0, 300), WaitDecision::Stopped);
    assert_eq!(wait_decision("stopping", 10, 300), WaitDecision::Poll);
    assert_eq!(wait_decision("stopping", 301, 300), WaitDecision::TimedOut);
    assert_eq!(wait_decision("stopping", 300, 300), WaitDecision::Poll);
    assert_eq!(wait_decision("Stopped", 0, 300), WaitDecision::Poll);
}
