use vramdisk::geometry::blocks_for;
use vramdisk::lifecycle::Lifecycle;
use vramdisk::lifecycle::LifecycleState;
use vramdisk::sizearg::parse_size_arg;

#[test]
fn mount_unmount_scenario_with_supervisor() {
    // Request "100m" with block size 4096.
    let size = parse_size_arg("100m").unwrap();
    assert_eq!(size, 104857600);
    assert_eq!(blocks_for(size, 4096), 25600);

    // One pass through the lifecycle with a supervisor listening.
    let mut lc = Lifecycle::new(true);
    assert_eq!(lc.state(), LifecycleState::Initializing);
    assert!(!lc.ready_sent());
    assert!(!lc.stopping_sent());

    let send_ready = lc.mounted();
    assert!(send_ready);
    assert_eq!(lc.state(), LifecycleState::Mounted);
    assert!(lc.ready_sent());
    assert!(!lc.stopping_sent());

    // Simulated termination signal.
    lc.begin_unmount();
    assert_eq!(lc.state(), LifecycleState::Unmounting);
    assert!(!lc.stopping_sent());

    let send_stopping = lc.stopped();
    assert!(send_stopping);
    assert_eq!(lc.state(), LifecycleState::Stopped);
    assert!(lc.ready_sent());
    assert!(lc.stopping_sent());
}

#[test]
fn no_notifications_without_supervisor() {
    let mut lc = Lifecycle::new(false);
    assert!(!lc.mounted());
    assert!(!lc.ready_sent());
    lc.begin_unmount();
    assert!(!lc.stopped());
    assert!(!lc.stopping_sent());
    assert_eq!(lc.state(), LifecycleState::Stopped);
}
