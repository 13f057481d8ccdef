use std::sync::atomic::Ordering;
use std::time::Duration;
use upp_gateway::shutdown::ShutdownCoordinator;

#[test]
fn test_shutdown_flag_initialization() {
    let coordinator = ShutdownCoordinator::new();
    assert!(!coordinator.is_shutdown_requested());
}

#[test]
fn test_shutdown_request() {
    let coordinator = ShutdownCoordinator::new();
    coordinator.request_shutdown();
    assert!(coordinator.is_shutdown_requested());
}

#[test]
fn test_flag_cloning() {
    let coordinator = ShutdownCoordinator::new();
    let flag1 = coordinator.flag();
    let flag2 = coordinator.flag();

    flag1.store(true, Ordering::SeqCst);
    assert!(flag2.load(Ordering::SeqCst));
    assert!(coordinator.is_shutdown_requested());
}

#[test]
fn test_custom_timeout() {
    let timeout = Duration::from_secs(60);
    let coordinator = ShutdownCoordinator::with_timeout(timeout.as_millis() as u64);
    assert_eq!(coordinator.shutdown_timeout_ms(), timeout.as_millis() as u64);
}

#[test]
fn default_timeout_and_drain_window() {
    let coordinator = ShutdownCoordinator::new();
    assert_eq!(coordinator.shutdown_timeout_ms(), 30_000);
    assert_eq!(coordinator.drain_window_ms(), 5_000);
    assert_eq!(ShutdownCoordinator::with_timeout(8_000).drain_window_ms(), 2_000);
}
