use frpc_manager::runner::{
    spawn_failure_message, FrpcProcState, PollEvent, RunnerError,
};

#[test]
fn start_stop_status_scenario() {
    // start -> pid recorded; second start -> AlreadyRunning; stop -> kill
    // directive; the poll loop observes the exit, clears the handle and
    // emits exactly one close notification.
    let mut st = FrpcProcState::new();
    assert!(!st.is_running());

    assert!(st.begin_start().is_ok());
    let msg = st.confirm_start(4242);
    assert_eq!(msg, b"SET PID 4242".to_vec());
    assert!(st.is_running());
    assert_eq!(st.current_pid(), Some(4242));

    // An immediate second start is refused and the handle is untouched.
    assert_eq!(st.begin_start(), Err(RunnerError::AlreadyRunning));
    assert!(st.is_running());
    assert_eq!(st.current_pid(), Some(4242));

    // stop names the pid to signal and the CLEAR line; the handle stays
    // until the poll loop reaps the exit.
    let (kill, clear) = st.stop();
    assert_eq!(kill, Some(4242));
    assert_eq!(clear, b"CLEAR".to_vec());
    assert!(st.is_running());

    // Still-alive polls change nothing.
    assert_eq!(st.poll_exit(PollEvent::NotExited), None);
    assert!(st.is_running());

    // The exit is observed once: one close event, handle cleared.
    let closed = st.poll_exit(PollEvent::Exited(Some(0)));
    assert_eq!(closed.map(|c| c.code), Some(Some(0)));
    assert!(!st.is_running());

    // Later polls emit nothing.
    assert_eq!(st.poll_exit(PollEvent::Exited(Some(0))), None);
    assert_eq!(st.poll_exit(PollEvent::NotExited), None);
}

#[test]
fn stop_is_idempotent_when_nothing_runs() {
    let st = FrpcProcState::new();
    let (kill, clear) = st.stop();
    assert_eq!(kill, None);
    assert_eq!(clear, b"CLEAR".to_vec());
}

#[test]
fn close_code_can_be_absent() {
    let mut st = FrpcProcState::new();
    assert!(st.begin_start().is_ok());
    st.confirm_start(7);
    let closed = st.poll_exit(PollEvent::Exited(None));
    assert_eq!(closed.map(|c| c.code), Some(None));
    assert!(!st.is_running());
}

#[test]
fn kill_if_any_clears_the_handle() {
    let mut st = FrpcProcState::new();
    assert_eq!(st.kill_if_any(), None);
    assert!(st.begin_start().is_ok());
    st.confirm_start(11);
    assert_eq!(st.kill_if_any(), Some(11));
    assert!(!st.is_running());
}

#[test]
fn error_messages_name_the_context() {
    assert_eq!(
        RunnerError::AlreadyRunning.message(),
        "frpc is already running"
    );
    assert_eq!(
        spawn_failure_message("No such file", "/opt/frpc", "/tmp/frpc.toml"),
        "spawn frpc failed: No such file (exe: /opt/frpc, cfg: /tmp/frpc.toml)"
    );
}
