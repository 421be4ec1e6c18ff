use std::time::Duration;

use lamport::time::Timestamp;
use lamport::{
    restart_scope, ChildSpec, Restart, RestartIntensity, Shutdown, Strategy, SupervisorFlags,
};

fn seconds(count: u128) -> Timestamp {
    Timestamp::from_nanos(count * 1_000_000_000)
}

#[test]
fn restart_scope_matches_otp_strategies() {
    let specs = vec![
        ChildSpec {
            id: "a",
            restart: Restart::Permanent,
            shutdown: Shutdown::default(),
            is_supervisor: false,
        },
        ChildSpec {
            id: "b",
            restart: Restart::Permanent,
            shutdown: Shutdown::default(),
            is_supervisor: false,
        },
        ChildSpec {
            id: "c",
            restart: Restart::Permanent,
            shutdown: Shutdown::default(),
            is_supervisor: false,
        },
    ];

    assert_eq!(restart_scope(Strategy::OneForOne, &specs, "b"), vec!["b"]);
    assert_eq!(
        restart_scope(Strategy::OneForAll, &specs, "b"),
        vec!["a", "b", "c"]
    );
    assert_eq!(
        restart_scope(Strategy::RestForOne, &specs, "b"),
        vec!["b", "c"]
    );
}

#[test]
fn restart_intensity_prunes_old_entries() {
    let mut intensity = RestartIntensity::new(SupervisorFlags {
        strategy: Strategy::OneForOne,
        intensity: 2,
        period: Duration::from_secs(5),
    });

    let now: u128 = 100;

    assert!(intensity.record_restart(seconds(now)));
    assert!(intensity.record_restart(seconds(now + 1)));
    assert!(!intensity.record_restart(seconds(now + 2)));

    assert_eq!(intensity.active_restarts(seconds(now + 6)), 2);
    assert!(!intensity.record_restart(seconds(now + 6)));
    assert_eq!(intensity.active_restarts(seconds(now + 8)), 1);
    assert!(intensity.record_restart(seconds(now + 8)));
}
