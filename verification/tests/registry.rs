use zengit_core::registry::{AdmitOutcome, OperationLabel, TaskKey, TaskRegistry};

fn key(operation: OperationLabel, destination: &str) -> TaskKey {
    TaskKey { operation, destination: destination.to_string() }
}

#[test]
fn first_admission_succeeds_second_is_rejected() {
    let mut registry = TaskRegistry::new();
    let k = key(OperationLabel::Status, "main");
    assert!(!registry.is_running(&k));
    let first = registry.admit_task(&k);
    assert!(matches!(first, AdmitOutcome::Admitted(_)));
    assert!(registry.is_running(&k));
    let second = registry.admit_task(&k);
    assert!(matches!(second, AdmitOutcome::Rejected));
    assert!(registry.is_running(&k));
}

#[test]
fn release_frees_the_slot_and_is_idempotent() {
    let mut registry = TaskRegistry::new();
    let k = key(OperationLabel::Push, "main");
    assert!(matches!(registry.admit_task(&k), AdmitOutcome::Admitted(_)));
    registry.release(&k);
    assert!(!registry.is_running(&k));
    registry.release(&k);
    assert!(!registry.is_running(&k));
    assert!(matches!(registry.admit_task(&k), AdmitOutcome::Admitted(_)));
}

#[test]
fn cancel_on_non_running_key_returns_false() {
    let mut registry = TaskRegistry::new();
    let k = key(OperationLabel::Pull, "main");
    assert!(!registry.cancel(&k));
    assert!(matches!(registry.admit_task(&k), AdmitOutcome::Admitted(_)));
    registry.release(&k);
    assert!(!registry.cancel(&k));
    assert!(!registry.is_running(&k));
}

#[test]
fn cancel_fires_token_and_rotates_generation() {
    let mut registry = TaskRegistry::new();
    let k = key(OperationLabel::Log, "main");
    let first = match registry.admit_task(&k) {
        AdmitOutcome::Admitted(grant) => grant,
        AdmitOutcome::Rejected => panic!("first admission must succeed"),
    };
    assert!(!first.token.is_cancelled());
    assert!(registry.cancel(&k));
    assert!(first.token.is_cancelled());
    assert!(!registry.is_running(&k));

    let second = match registry.admit_task(&k) {
        AdmitOutcome::Admitted(grant) => grant,
        AdmitOutcome::Rejected => panic!("admission after cancel must succeed"),
    };
    assert_ne!(second.generation, first.generation);
    assert!(!second.token.is_cancelled());

    // firing the superseded token again reaches nothing
    first.token.cancel();
    assert!(!second.token.is_cancelled());
    assert!(registry.is_running(&k));
}

#[test]
fn distinct_keys_are_independent() {
    let mut registry = TaskRegistry::new();
    let a = key(OperationLabel::Diff, "main");
    let b = key(OperationLabel::Diff, "side");
    let c = key(OperationLabel::Fetch, "main");
    assert!(matches!(registry.admit_task(&a), AdmitOutcome::Admitted(_)));
    assert!(matches!(registry.admit_task(&b), AdmitOutcome::Admitted(_)));
    assert!(matches!(registry.admit_task(&c), AdmitOutcome::Admitted(_)));
    assert!(registry.cancel(&a));
    assert!(!registry.is_running(&a));
    assert!(registry.is_running(&b));
    assert!(registry.is_running(&c));
}

#[test]
fn trigger_surfaces_admission_error_synchronously() {
    let mut registry = TaskRegistry::new();
    let k = key(OperationLabel::Commit, "main");
    let granted = zengit_core::executor::trigger(&mut registry, &k);
    assert!(granted.is_ok());
    let rejected = zengit_core::executor::trigger(&mut registry, &k);
    assert!(rejected.is_err());
    registry.release(&k);
    assert!(zengit_core::executor::trigger(&mut registry, &k).is_ok());
}
