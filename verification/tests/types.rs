use lamport::{ChildSpec, ExitReason, Restart, Shutdown};

#[test]
fn transient_children_restart_only_on_abnormal_exit() {
    let spec = ChildSpec {
        id: "worker",
        restart: Restart::Transient,
        shutdown: Shutdown::default(),
        is_supervisor: false,
    };

    assert!(!spec.should_restart(&ExitReason::Normal));
    assert!(!spec.should_restart(&ExitReason::Shutdown));
    assert!(spec.should_restart(&ExitReason::Kill));
    assert!(spec.should_restart(&ExitReason::Error("boom".into())));
}
