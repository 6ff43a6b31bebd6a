use backend_supervisor::supervisor::choose_launch_mode;
use backend_supervisor::supervisor::classify_broad_kill;
use backend_supervisor::supervisor::sidecar_override_enabled;
use backend_supervisor::supervisor::BroadKillOutcome;
use backend_supervisor::supervisor::CloseDecision;
use backend_supervisor::supervisor::LaunchMode;
use backend_supervisor::supervisor::SupervisorState;
use backend_supervisor::supervisor::DEV_PORT;

#[test]
fn fresh_state_is_empty() {
    let s = SupervisorState::<u32>::new();
    assert_eq!(s.port, None);
    assert_eq!(s.child, None);
    assert!(!s.closing);
}

#[test]
fn handshake_stores_port_and_notifies() {
    let mut s = SupervisorState::<u32>::new();
    let notify = s.record_handshake(b"PYTHON_BACKEND_PORT: 54321");
    assert_eq!(notify, Some(54321));
    assert_eq!(s.current_port(), Some(54321));
}

#[test]
fn noisy_stream_yields_one_notification() {
    // the child emits "noise\nPYTHON_BACKEND_PORT: 54321\nmore noise\n"
    let mut s = SupervisorState::<u32>::new();
    let mut notifications: Vec<u16> = Vec::new();
    for line in [&b"noise"[..], b"PYTHON_BACKEND_PORT: 54321", b"more noise"] {
        if let Some(p) = s.record_handshake(line) {
            notifications.push(p);
        }
    }
    assert_eq!(s.current_port(), Some(54321));
    assert_eq!(notifications, vec![54321]);
}

#[test]
fn later_handshake_wins() {
    let mut s = SupervisorState::<u32>::new();
    s.record_handshake(b"PYTHON_BACKEND_PORT:1111");
    s.record_handshake(b"PYTHON_BACKEND_PORT:2222");
    assert_eq!(s.current_port(), Some(2222));
}

#[test]
fn bad_lines_keep_port() {
    let mut s = SupervisorState::<u32>::new();
    s.record_handshake(b"PYTHON_BACKEND_PORT:4000");
    for line in [
        &b"PYTHON_BACKEND_PORT:abc"[..],
        b"PYTHON_BACKEND_PORT:99999",
        b"BACKEND_PORT:5",
        b"diagnostics",
        b"",
    ] {
        assert_eq!(s.record_handshake(line), None);
        assert_eq!(s.current_port(), Some(4000));
    }
}

#[test]
fn dev_port_published_once_with_fixed_value() {
    // launch mode AttachDev: after the fixed delay the readiness
    // notification carries 8000, exactly once
    let mode = choose_launch_mode(false, false);
    assert_eq!(mode, LaunchMode::AttachDev);
    let mut s = SupervisorState::<u32>::new();
    let mut notifications: Vec<u16> = Vec::new();
    notifications.push(s.publish_dev_port());
    assert_eq!(s.current_port(), Some(8000));
    assert_eq!(DEV_PORT, 8000);
    assert_eq!(notifications, vec![8000]);
}

#[test]
fn launch_mode_decision_table() {
    assert_eq!(choose_launch_mode(true, false), LaunchMode::Sidecar);
    assert_eq!(choose_launch_mode(false, true), LaunchMode::Sidecar);
    assert_eq!(choose_launch_mode(true, true), LaunchMode::Sidecar);
    assert_eq!(choose_launch_mode(false, false), LaunchMode::AttachDev);
}

#[test]
fn override_requires_exact_true() {
    assert!(sidecar_override_enabled(Some("true")));
    assert!(!sidecar_override_enabled(Some("false")));
    assert!(!sidecar_override_enabled(Some("TRUE")));
    assert!(!sidecar_override_enabled(Some("1")));
    assert!(!sidecar_override_enabled(Some("true ")));
    assert!(!sidecar_override_enabled(Some("")));
    assert!(!sidecar_override_enabled(None));
}

#[test]
fn two_close_requests_terminate_once() {
    let mut s = SupervisorState::<u32>::new();
    s.attach_child(7);
    let mut terminations: u32 = 0;
    let mut taken: Option<u32> = None;
    for _ in 0..2 {
        match s.on_close_requested() {
            CloseDecision::RunTermination { child } => {
                terminations += 1;
                taken = child;
            }
            CloseDecision::PassThrough => {}
        }
    }
    assert_eq!(terminations, 1);
    assert_eq!(taken, Some(7));
    assert_eq!(s.child, None);
    assert!(s.closing);
}

#[test]
fn close_after_first_is_passthrough() {
    let mut s = SupervisorState::<u32>::new();
    s.record_handshake(b"PYTHON_BACKEND_PORT:4242");
    let first = s.on_close_requested();
    assert!(matches!(first, CloseDecision::RunTermination { .. }));
    let second = s.on_close_requested();
    assert!(matches!(second, CloseDecision::PassThrough));
    // the no-op pass-through leaves the state as the first request left it
    assert_eq!(s.port, Some(4242));
    assert_eq!(s.child, None);
    assert!(s.closing);
}

#[test]
fn close_without_child_still_closes_once() {
    let mut s = SupervisorState::<u32>::new();
    match s.on_close_requested() {
        CloseDecision::RunTermination { child } => assert_eq!(child, None),
        CloseDecision::PassThrough => panic!("first close request must terminate"),
    }
    assert!(matches!(s.on_close_requested(), CloseDecision::PassThrough));
}

#[test]
fn broad_kill_classification() {
    assert_eq!(classify_broad_kill(true, Some(0), 1), BroadKillOutcome::Killed);
    assert_eq!(classify_broad_kill(false, Some(1), 1), BroadKillOutcome::NoProcessesFound);
    assert_eq!(classify_broad_kill(false, Some(2), 1), BroadKillOutcome::Warning);
    assert_eq!(classify_broad_kill(false, None, 1), BroadKillOutcome::Warning);
}
