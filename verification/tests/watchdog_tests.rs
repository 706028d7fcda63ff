use frpc_manager::watchdog::{
    apply_line, cleanup_plan, clear_line, collect_descendants, parse_command, set_pid_line,
    CleanupAction, WatchdogCmd, WatchdogTarget,
};

#[test]
fn set_pid_then_close_kills_the_pid() {
    // `SET PID 4242` followed by end-of-stream must target pid 4242.
    let t = apply_line(WatchdogTarget::NoTarget, b"SET PID 4242");
    assert_eq!(t, WatchdogTarget::Pid(4242));
    assert_eq!(cleanup_plan(t, true), CleanupAction::KillPid(4242));
    assert_eq!(cleanup_plan(t, false), CleanupAction::KillTree(4242));
}

#[test]
fn clear_then_close_kills_nothing() {
    let t = apply_line(WatchdogTarget::Pid(4242), b"CLEAR");
    assert_eq!(t, WatchdogTarget::NoTarget);
    assert_eq!(cleanup_plan(t, true), CleanupAction::DoNothing);
    assert_eq!(cleanup_plan(t, false), CleanupAction::DoNothing);
}

#[test]
fn set_pg_sets_a_group_target() {
    let t = apply_line(WatchdogTarget::NoTarget, b"SET PG 77");
    assert_eq!(t, WatchdogTarget::Group(77));
    assert_eq!(cleanup_plan(t, true), CleanupAction::KillGroup(77));
}

#[test]
fn malformed_lines_leave_the_target_alone() {
    let start = WatchdogTarget::Pid(9);
    assert_eq!(apply_line(start, b""), start);
    assert_eq!(apply_line(start, b"   "), start);
    assert_eq!(apply_line(start, b"SET PID abc"), start);
    assert_eq!(apply_line(start, b"SET PID"), start);
    assert_eq!(apply_line(start, b"HELLO 1 2"), start);
    // A pid that overflows i64 is ignored, like `str::parse` failing.
    assert_eq!(apply_line(start, b"SET PID 99999999999999999999999"), start);
}

#[test]
fn commands_tolerate_extra_whitespace_and_trailing_tokens() {
    assert_eq!(parse_command(b"  SET   PID  5 "), WatchdogCmd::SetPid(5));
    assert_eq!(parse_command(b"SET PID 5 extra junk"), WatchdogCmd::SetPid(5));
    assert_eq!(parse_command(b"CLEAR and more"), WatchdogCmd::Clear);
    assert_eq!(parse_command(b"SET PID -5"), WatchdogCmd::SetPid(-5));
    assert_eq!(parse_command(b"set pid 5"), WatchdogCmd::Ignored);
}

#[test]
fn encoded_lines_are_the_wire_format() {
    assert_eq!(set_pid_line(4242), b"SET PID 4242".to_vec());
    assert_eq!(set_pid_line(0), b"SET PID 0".to_vec());
    assert_eq!(clear_line(), b"CLEAR".to_vec());
}

#[test]
fn encoded_lines_parse_back() {
    assert_eq!(
        apply_line(WatchdogTarget::NoTarget, &set_pid_line(4242)),
        WatchdogTarget::Pid(4242)
    );
    assert_eq!(
        apply_line(WatchdogTarget::Pid(4242), &clear_line()),
        WatchdogTarget::NoTarget
    );
}

#[test]
fn descendants_are_collected_breadth_first() {
    // 1 -> {2, 3}, 2 -> {4}; unrelated rows are ignored.
    let table = vec![(2u32, 1u32), (3, 1), (4, 2), (9, 8)];
    let order = collect_descendants(&table, 1);
    assert_eq!(order, vec![1, 2, 3, 4]);
    // Killing back to front terminates children before parents.
    let kill: Vec<u32> = order.iter().rev().copied().collect();
    assert_eq!(kill, vec![4, 3, 2, 1]);
}

#[test]
fn descendant_collection_survives_a_cyclic_table() {
    // A snapshot that claims 1 and 2 are each other's parents must not
    // loop forever or duplicate entries.
    let table = vec![(2u32, 1u32), (1, 2)];
    assert_eq!(collect_descendants(&table, 1), vec![1, 2]);
}

#[test]
fn root_alone_when_it_has_no_children() {
    let table: Vec<(u32, u32)> = vec![(5, 4)];
    assert_eq!(collect_descendants(&table, 1), vec![1]);
}
