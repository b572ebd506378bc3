use rotate_iam_keys::AWSConfig;
use rotate_iam_keys::Action;
use rotate_iam_keys::Rotation;
use rotate_iam_keys::RotationOutcome;
use rotate_iam_keys::RotationState;
use rotate_iam_keys::ServiceEvent;

fn begin() -> (Rotation, Action) {
    Rotation::begin("dev".to_string(), AWSConfig::new("AK1", "SK1"))
}

fn issued() -> ServiceEvent {
    ServiceEvent::Issued { credential: AWSConfig::new("AK9", "SK9") }
}

fn is_pair(c: &AWSConfig, id: &str, secret: &str) -> bool {
    c.access_key_id == id && c.secret_access_key == secret
}

#[test]
fn rotation_begins_by_issuing_with_the_old_key() {
    let (rotation, action) = begin();
    assert!(matches!(rotation.state, RotationState::Start));
    assert_eq!(rotation.profile, "dev");
    assert!(!rotation.is_finished());
    match action {
        Action::Issue { auth } => assert!(is_pair(&auth, "AK1", "SK1")),
        other => panic!("unexpected action: {:?}", other),
    }
}

#[test]
fn issued_key_is_probed_with_itself() {
    let (rotation, _) = begin();
    let (rotation, action) = rotation.step(issued());
    match &rotation.state {
        RotationState::Issued { new_credential } => assert!(is_pair(new_credential, "AK9", "SK9")),
        other => panic!("unexpected state: {:?}", other),
    }
    match action {
        Action::Probe { auth } => assert!(is_pair(&auth, "AK9", "SK9")),
        other => panic!("unexpected action: {:?}", other),
    }
}

#[test]
fn refused_probe_is_retried_after_three_seconds() {
    let (rotation, _) = begin();
    let (mut rotation, _) = rotation.step(issued());
    for _ in 0..5 {
        let (next, action) = rotation.step(ServiceEvent::ProbeFailed { reason: "not yet".to_string() });
        rotation = next;
        assert!(matches!(rotation.state, RotationState::Issued { .. }));
        assert!(!rotation.is_finished());
        match action {
            Action::ProbeAfter { auth, delay_seconds } => {
                assert!(is_pair(&auth, "AK9", "SK9"));
                assert_eq!(delay_seconds, 3);
            }
            other => panic!("unexpected action: {:?}", other),
        }
    }
}

#[test]
fn confirmed_key_retires_the_old_one() {
    let (rotation, _) = begin();
    let (rotation, _) = rotation.step(issued());
    let (rotation, action) = rotation.step(ServiceEvent::ProbeSucceeded);
    assert!(matches!(rotation.state, RotationState::Confirmed { .. }));
    match action {
        Action::Retire { auth, access_key_id } => {
            assert!(is_pair(&auth, "AK9", "SK9"));
            assert_eq!(access_key_id, "AK1");
        }
        other => panic!("unexpected action: {:?}", other),
    }
}

#[test]
fn full_rotation_gives_the_new_key() {
    let (rotation, _) = begin();
    let (rotation, _) = rotation.step(issued());
    let (rotation, _) = rotation.step(ServiceEvent::ProbeFailed { reason: "not yet".to_string() });
    let (rotation, _) = rotation.step(ServiceEvent::ProbeSucceeded);
    let (rotation, action) = rotation.step(ServiceEvent::Retired);
    assert!(matches!(action, Action::Done));
    assert!(rotation.is_finished());
    match rotation.result() {
        Some(Ok((profile, credential))) => {
            assert_eq!(profile, "dev");
            assert!(is_pair(&credential, "AK9", "SK9"));
        }
        other => panic!("unexpected result: {:?}", other),
    }
}

#[test]
fn failed_issue_ends_the_rotation() {
    let (rotation, _) = begin();
    let (rotation, action) = rotation.step(ServiceEvent::IssueFailed { reason: "denied".to_string() });
    assert!(matches!(action, Action::Done));
    assert!(rotation.is_finished());
    match rotation.result() {
        Some(Err(e)) => {
            assert_eq!(e.message, "denied");
            assert_eq!(e.profile, Some("dev".to_string()));
        }
        other => panic!("unexpected result: {:?}", other),
    }
}

#[test]
fn failed_retire_is_a_failure_of_the_profile() {
    let (rotation, _) = begin();
    let (rotation, _) = rotation.step(issued());
    let (rotation, _) = rotation.step(ServiceEvent::ProbeSucceeded);
    let (rotation, action) = rotation.step(ServiceEvent::RetireFailed { reason: "throttled".to_string() });
    assert!(matches!(action, Action::Done));
    match rotation.outcome() {
        Some(RotationOutcome::Failure { profile, reason }) => {
            assert_eq!(profile, "dev");
            assert_eq!(reason, "throttled");
        }
        other => panic!("unexpected outcome: {:?}", other),
    }
}

#[test]
fn cancelling_fails_the_rotation_from_any_state() {
    let (rotation, _) = begin();
    let (rotation, action) = rotation.step(ServiceEvent::Cancelled);
    assert!(matches!(action, Action::Done));
    match &rotation.state {
        RotationState::Failed { reason } => assert_eq!(reason, "rotation cancelled"),
        other => panic!("unexpected state: {:?}", other),
    }

    let (rotation, _) = begin();
    let (rotation, _) = rotation.step(issued());
    let (rotation, _) = rotation.step(ServiceEvent::Cancelled);
    assert!(matches!(rotation.state, RotationState::Failed { .. }));

    let (rotation, _) = begin();
    let (rotation, _) = rotation.step(issued());
    let (rotation, _) = rotation.step(ServiceEvent::ProbeSucceeded);
    let (rotation, _) = rotation.step(ServiceEvent::Cancelled);
    assert!(matches!(rotation.state, RotationState::Failed { .. }));
}

#[test]
fn answer_that_does_not_fit_fails_the_rotation() {
    let (rotation, _) = begin();
    let (rotation, action) = rotation.step(ServiceEvent::ProbeSucceeded);
    assert!(matches!(action, Action::Done));
    match &rotation.state {
        RotationState::Failed { reason } => {
            assert_eq!(reason, "unexpected answer from the identity service")
        }
        other => panic!("unexpected state: {:?}", other),
    }

    let (rotation, _) = begin();
    let (rotation, _) = rotation.step(issued());
    let (rotation, _) = rotation.step(ServiceEvent::Retired);
    assert!(matches!(rotation.state, RotationState::Failed { .. }));
}

#[test]
fn ended_rotation_ignores_further_events() {
    let (rotation, _) = begin();
    let (rotation, _) = rotation.step(issued());
    let (rotation, _) = rotation.step(ServiceEvent::ProbeSucceeded);
    let (rotation, _) = rotation.step(ServiceEvent::Retired);
    let (rotation, action) = rotation.step(ServiceEvent::RetireFailed { reason: "late".to_string() });
    assert!(matches!(action, Action::Done));
    assert!(matches!(rotation.state, RotationState::Retired { .. }));
    let (rotation, action) = rotation.step(ServiceEvent::Cancelled);
    assert!(matches!(action, Action::Done));
    assert!(matches!(rotation.state, RotationState::Retired { .. }));

    let (rotation, _) = begin();
    let (rotation, _) = rotation.step(ServiceEvent::IssueFailed { reason: "denied".to_string() });
    let (rotation, action) = rotation.step(issued());
    assert!(matches!(action, Action::Done));
    match &rotation.state {
        RotationState::Failed { reason } => assert_eq!(reason, "denied"),
        other => panic!("unexpected state: {:?}", other),
    }
}

#[test]
fn unfinished_rotation_has_no_result() {
    let (rotation, _) = begin();
    assert!(rotation.result().is_none());
    let (rotation, _) = begin();
    let (rotation, _) = rotation.step(issued());
    assert!(rotation.outcome().is_none());
}
