use frpc_manager::relay::{CountRead, ProxySpec, ProxyStats, RelayState};

fn spec(id: &str, port: u16, target: &str) -> ProxySpec {
    ProxySpec {
        id: id.to_string(),
        listen_port: port,
        target: target.to_string(),
    }
}

#[test]
fn counters_start_at_zero_and_only_grow() {
    let mut st = ProxyStats::new();
    assert_eq!(st.up_total, 0);
    assert_eq!(st.down_total, 0);
    st.add_up(1000);
    st.add_down(250);
    assert_eq!(st.up_total, 1000);
    assert_eq!(st.down_total, 250);
    st.add_up(24);
    assert_eq!(st.up_total, 1024);
    assert_eq!(st.down_total, 250);
}

#[test]
fn counters_saturate_instead_of_wrapping() {
    let mut st = ProxyStats::new();
    st.add_up(u64::MAX);
    st.add_up(10);
    assert_eq!(st.up_total, u64::MAX);
}

#[test]
fn count_read_accounts_only_progress() {
    let mut r = CountRead::new((), 0);
    r.note_read(0, 700);
    r.note_read(700, 700);
    r.note_read(0, 300);
    assert_eq!(r.count, 1000);
}

#[test]
fn echo_traffic_shows_up_in_the_first_sample() {
    // A client sends 1000 bytes and reads 1000 echoed bytes; after one
    // sampler tick the batch carries the totals for "p1".
    let mut relay = RelayState::new();
    relay.apply(vec![spec("p1", 0, "127.0.0.1:9000")]);
    let generation = relay.current.as_mut().unwrap();
    generation.entries[0].stats.add_up(1000);
    generation.entries[0].stats.add_down(1000);

    let batch = generation.sample(1000);
    assert_eq!(batch.len(), 1);
    assert_eq!(batch[0].id, "p1");
    assert_eq!(batch[0].up_total, 1000);
    assert_eq!(batch[0].down_total, 1000);
    // The first tick has no previous snapshot: rates start at zero.
    assert_eq!(batch[0].up_bps, 0);
    assert_eq!(batch[0].down_bps, 0);
}

#[test]
fn sampled_rate_is_delta_over_elapsed() {
    let mut relay = RelayState::new();
    relay.apply(vec![spec("p1", 0, "127.0.0.1:9000")]);
    let generation = relay.current.as_mut().unwrap();
    generation.entries[0].stats.add_up(1000);
    generation.sample(1000);

    generation.entries[0].stats.add_up(500);
    generation.entries[0].stats.add_down(2000);
    let batch = generation.sample(500);
    // 500 bytes over half a second is 1000 B/s; 2000 bytes is 4000 B/s.
    assert_eq!(batch[0].up_bps, 1000);
    assert_eq!(batch[0].down_bps, 4000);
    assert_eq!(batch[0].up_total, 1500);
    assert_eq!(batch[0].down_total, 2000);
}

#[test]
fn replacing_the_spec_set_retires_the_old_generation() {
    let mut relay = RelayState::new();
    let retired = relay.apply(vec![spec("a", 7000, "x"), spec("b", 7001, "y")]);
    assert!(retired.is_none());
    assert_eq!(relay.current.as_ref().unwrap().entries.len(), 2);

    // The new set reuses port 7000: the retired generation is handed back
    // (its listeners drop, releasing the port) and the new generation is
    // the only holder of 7000.
    let retired = relay.apply(vec![spec("c", 7000, "z")]);
    let old = retired.expect("previous generation must be handed back");
    assert_eq!(old.entries.len(), 2);
    let generation = relay.current.as_ref().unwrap();
    assert_eq!(generation.entries.len(), 1);
    assert_eq!(generation.entries[0].id, "c");
    assert_eq!(generation.entries[0].listen_port, 7000);
    assert_eq!(generation.entries[0].stats.up_total, 0);
}

#[test]
fn empty_spec_set_leaves_no_generation() {
    let mut relay = RelayState::new();
    relay.apply(vec![spec("a", 7000, "x")]);
    let retired = relay.apply(Vec::new());
    assert!(retired.is_some());
    assert!(relay.current.is_none());
}
