//! The local traffic relay: per-proxy byte counters, hot-swappable listener
//! generations, and the sampler that turns counter deltas into periodic
//! bandwidth telemetry.
//!
//! The sockets themselves (binding, accepting, the bidirectional copy) live
//! with the caller; everything here is the accounting and lifecycle logic
//! those loops consult.  Exactly one generation is current at a time, so a
//! listen port is never held by two generations: replacing the spec set
//! hands the retired generation back to the caller, which drops its
//! listeners (releasing the ports) before serving the new one.
use vstd::prelude::*;

verus! {

/// The sampler's tick interval, in milliseconds; missed ticks are skipped,
/// not replayed.
pub const SAMPLE_INTERVAL_MS: u64 = 1000;

/// One relay to build: an id, a local listen port, and the destination the
/// accepted connections are forwarded to.
pub struct ProxySpec {
    pub id: String,
    pub listen_port: u16,
    pub target: String,
}

/// The two monotonically non-decreasing byte totals of one relay.  Many
/// connection tasks add to them; one sampler reads them.
pub struct ProxyStats {
    pub up_total: u64,
    pub down_total: u64,
}

impl ProxyStats {
    /// Fresh counters at zero.
    pub fn new() -> (r: Self)
        ensures
            r.up_total == 0,
            r.down_total == 0,
    {
        ProxyStats { up_total: 0, down_total: 0 }
    }

    /// Accounts bytes read off the inbound leg (client to server).
    /// Saturates at the top of the range, so the total never decreases.
    pub fn add_up(&mut self, n: u64) -> (r: ())
        ensures
            final(self).up_total == sat_add(old(self).up_total as nat, n as nat),
            final(self).up_total >= old(self).up_total,
            final(self).down_total == old(self).down_total,
    {
        self.up_total = sat_add_u64(self.up_total, n);
    }

    /// Accounts bytes read off the outbound leg (server to client).
    pub fn add_down(&mut self, n: u64) -> (r: ())
        ensures
            final(self).down_total == sat_add(old(self).down_total as nat, n as nat),
            final(self).down_total >= old(self).down_total,
            final(self).up_total == old(self).up_total,
    {
        self.down_total = sat_add_u64(self.down_total, n);
    }
}

/// Saturating addition into the `u64` range.
pub open spec fn sat_add(a: nat, b: nat) -> u64 {
    if a + b > u64::MAX {
        u64::MAX
    } else {
        (a + b) as u64
    }
}

fn sat_add_u64(a: u64, b: u64) -> (r: u64)
    ensures
        r == sat_add(a as nat, b as nat),
{
    if b > u64::MAX - a {
        u64::MAX
    } else {
        a + b
    }
}

/// A reader wrapper that attributes everything read through it to one
/// counter.  Only the read side of each leg is counted, so no byte is
/// counted twice.  The transport itself stays with the caller; this holds
/// the accounting.
pub struct CountRead<T> {
    pub inner: T,
    pub count: u64,
}

impl<T> CountRead<T> {
    /// Wraps a transport with a counter starting at `count`.
    pub fn new(inner: T, count: u64) -> (r: Self)
        ensures
            r.count == count,
    {
        CountRead { inner, count }
    }

    /// Accounts one read: the buffer held `before` bytes before the read and
    /// `now` bytes after it.  A read that made no progress adds nothing.
    pub fn note_read(&mut self, before: usize, now: usize) -> (r: ())
        requires
            before <= now,
        ensures
            final(self).count == sat_add(old(self).count as nat, (now - before) as nat),
            final(self).count >= old(self).count,
    {
        if now > before {
            self.count = sat_add_u64(self.count, (now - before) as u64);
        } else {
            proof {
                assert(sat_add(self.count as nat, 0) == self.count);
            }
        }
    }
}

/// One live relay of the current generation: the spec it was built from, its
/// counters, and the sampler's previous snapshot of them (absent until the
/// first tick).
pub struct RelayEntry {
    pub id: String,
    pub listen_port: u16,
    pub target: String,
    pub stats: ProxyStats,
    pub prev: Option<(u64, u64)>,
}

/// One atomic version of the active relay set.
pub struct Generation {
    pub entries: Vec<RelayEntry>,
}

/// The relay subsystem: at most one current generation.
pub struct RelayState {
    pub current: Option<Generation>,
}

/// One row of a telemetry batch.  Rates are bytes per second.
pub struct TrafficSample {
    pub id: String,
    pub up_bps: u64,
    pub down_bps: u64,
    pub up_total: u64,
    pub down_total: u64,
}

/// The sampled rate: the counter delta scaled to one second, zero when the
/// snapshot is somehow ahead of the counter, capped at the top of the range.
/// Never negative by construction.
pub open spec fn spec_rate(cur: nat, prev: nat, elapsed_ms: nat) -> u64
    recommends
        elapsed_ms > 0,
{
    if cur < prev {
        0
    } else if (cur - prev) * 1000 / (elapsed_ms as int) > u64::MAX {
        u64::MAX
    } else {
        ((cur - prev) * 1000 / (elapsed_ms as int)) as u64
    }
}

fn rate_u64(cur: u64, prev: u64, elapsed_ms: u64) -> (r: u64)
    requires
        elapsed_ms > 0,
    ensures
        r == spec_rate(cur as nat, prev as nat, elapsed_ms as nat),
{
    if cur < prev {
        0
    } else {
        let wide: u128 = ((cur - prev) as u128) * 1000 / (elapsed_ms as u128);
        if wide > u64::MAX as u128 {
            u64::MAX
        } else {
            wide as u64
        }
    }
}

/// The ports a generation holds.
pub open spec fn spec_gen_ports(g: Generation) -> Seq<u16> {
    g.entries@.map_values(|e: RelayEntry| e.listen_port)
}

/// The ports the relay subsystem currently has bound.
pub open spec fn spec_bound_ports(s: RelayState) -> Seq<u16> {
    match s.current {
        Option::Some(g) => spec_gen_ports(g),
        Option::None => Seq::empty(),
    }
}

/// A fresh entry mirrors its spec with zeroed counters and no snapshot.
pub open spec fn entry_matches_spec(e: RelayEntry, p: ProxySpec) -> bool {
    e.id@ == p.id@ && e.listen_port == p.listen_port && e.target@ == p.target@
        && e.stats.up_total == 0 && e.stats.down_total == 0 && e.prev is None
}

impl RelayState {
    /// No generation active.
    pub fn new() -> (r: Self)
        ensures
            r.current is None,
    {
        RelayState { current: Option::None }
    }

    /// Atomically replaces the current generation with one built from
    /// `specs`, returning the retired generation so the caller can drop its
    /// listeners (which releases their ports at once).  An empty spec set
    /// leaves no generation active.  After the call the bound ports are
    /// exactly the ports of `specs` — in particular a port the retired
    /// generation held can be named again and is bound by the new
    /// generation alone.
    pub fn apply(&mut self, specs: Vec<ProxySpec>) -> (retired: Option<Generation>)
        ensures
            retired == old(self).current,
            specs@.len() == 0 ==> final(self).current is None,
            specs@.len() > 0 ==> final(self).current is Some && {
                let entries = final(self).current->Some_0.entries;
                &&& entries@.len() == specs@.len()
                &&& forall|i: int|
                    0 <= i < specs@.len() ==> entry_matches_spec(#[trigger] entries@[i], specs@[i])
            },
            specs@.len() > 0 ==> spec_bound_ports(*final(self)) == specs@.map_values(
                |p: ProxySpec| p.listen_port,
            ),
    {
        let retired = self.take_current();
        if specs.len() == 0 {
            return retired;
        }
        let mut entries: Vec<RelayEntry> = Vec::new();
        let n = specs.len();
        let mut specs = specs;
        let mut i: usize = 0;
        while i < n
            invariant
                0 <= i <= n,
                n == specs@.len(),
                entries@.len() == i,
                forall|k: int|
                    0 <= k < i ==> entry_matches_spec(#[trigger] entries@[k], specs@[k]),
            decreases n - i,
        {
            let id = clone_string(&specs[i].id);
            let target = clone_string(&specs[i].target);
            let port = specs[i].listen_port;
            entries.push(
                RelayEntry {
                    id,
                    listen_port: port,
                    target,
                    stats: ProxyStats::new(),
                    prev: Option::None,
                },
            );
            i += 1;
        }
        let g = Generation { entries };
        proof {
            assert(spec_gen_ports(g) =~= specs@.map_values(|p: ProxySpec| p.listen_port));
        }
        self.current = Option::Some(g);
        retired
    }

    /// Removes and returns the current generation, leaving none active.
    pub fn take_current(&mut self) -> (r: Option<Generation>)
        ensures
            r == old(self).current,
            final(self).current is None,
    {
        let mut slot: Option<Generation> = Option::None;
        core::mem::swap(&mut self.current, &mut slot);
        slot
    }
}

fn clone_string(s: &String) -> (r: String)
    ensures
        r@ == s@,
{
    s.clone()
}

impl Generation {
    /// One sampler tick: for every relay computes the per-direction rate
    /// from the previous snapshot (zero on the first tick, where the
    /// snapshot is taken as the current total), refreshes the snapshot, and
    /// returns one batch row per relay, in relay order.
    pub fn sample(&mut self, elapsed_ms: u64) -> (out: Vec<TrafficSample>)
        requires
            elapsed_ms > 0,
        ensures
            out@.len() == old(self).entries@.len(),
            final(self).entries@.len() == old(self).entries@.len(),
            forall|i: int|
                0 <= i < out@.len() ==> sample_row_ok(
                    #[trigger] out@[i],
                    old(self).entries@[i],
                    elapsed_ms,
                ),
            forall|i: int|
                0 <= i < out@.len() ==> snapshot_refreshed(
                    #[trigger] final(self).entries@[i],
                    old(self).entries@[i],
                ),
    {
        let n = self.entries.len();
        let mut out: Vec<TrafficSample> = Vec::new();
        let mut i: usize = 0;
        while i < n
            invariant
                0 <= i <= n,
                elapsed_ms > 0,
                n == self.entries@.len(),
                self.entries@.len() == old(self).entries@.len(),
                out@.len() == i,
                forall|k: int| i <= k < n ==> self.entries@[k] == old(self).entries@[k],
                forall|k: int|
                    0 <= k < i ==> sample_row_ok(
                        #[trigger] out@[k],
                        old(self).entries@[k],
                        elapsed_ms,
                    ),
                forall|k: int|
                    0 <= k < i ==> snapshot_refreshed(
                        #[trigger] self.entries@[k],
                        old(self).entries@[k],
                    ),
            decreases n - i,
        {
            let up = self.entries[i].stats.up_total;
            let down = self.entries[i].stats.down_total;
            let (prev_up, prev_down) = match self.entries[i].prev {
                Option::Some(p) => p,
                Option::None => (up, down),
            };
            let id = clone_string(&self.entries[i].id);
            out.push(
                TrafficSample {
                    id,
                    up_bps: rate_u64(up, prev_up, elapsed_ms),
                    down_bps: rate_u64(down, prev_down, elapsed_ms),
                    up_total: up,
                    down_total: down,
                },
            );
            let entry = &mut self.entries[i];
            entry.prev = Option::Some((up, down));
            i += 1;
        }
        out
    }
}

/// One telemetry row is correct for the entry it was sampled from: totals
/// are the counter values, rates are the delta against the previous
/// snapshot scaled to one second (the current totals standing in for an
/// absent first snapshot, making the first rates zero).
pub open spec fn sample_row_ok(row: TrafficSample, e: RelayEntry, elapsed_ms: u64) -> bool {
    let (pu, pd) = match e.prev {
        Option::Some(p) => p,
        Option::None => (e.stats.up_total, e.stats.down_total),
    };
    &&& row.id@ == e.id@
    &&& row.up_total == e.stats.up_total
    &&& row.down_total == e.stats.down_total
    &&& row.up_bps == spec_rate(e.stats.up_total as nat, pu as nat, elapsed_ms as nat)
    &&& row.down_bps == spec_rate(e.stats.down_total as nat, pd as nat, elapsed_ms as nat)
}

/// After a tick the entry is unchanged except that its snapshot now holds
/// the totals that were just reported.
pub open spec fn snapshot_refreshed(e_new: RelayEntry, e_old: RelayEntry) -> bool {
    &&& e_new.id == e_old.id
    &&& e_new.listen_port == e_old.listen_port
    &&& e_new.target == e_old.target
    &&& e_new.stats == e_old.stats
    &&& e_new.prev == Option::Some((e_old.stats.up_total, e_old.stats.down_total))
}

/// One counter mutation: bytes attributed to one direction.
pub enum CounterOp {
    Ingress(u64),
    Egress(u64),
}

/// The counters after a sequence of mutations.
pub open spec fn spec_apply_ops(s: ProxyStats, ops: Seq<CounterOp>) -> ProxyStats
    decreases ops.len(),
{
    if ops.len() == 0 {
        s
    } else {
        let mid = spec_apply_ops(s, ops.drop_last());
        match ops.last() {
            CounterOp::Ingress(n) => ProxyStats {
                up_total: sat_add(mid.up_total as nat, n as nat),
                down_total: mid.down_total,
            },
            CounterOp::Egress(n) => ProxyStats {
                up_total: mid.up_total,
                down_total: sat_add(mid.down_total as nat, n as nat),
            },
        }
    }
}

/// Counters never decrease: whatever reads and in whatever order the
/// connection tasks account them, both totals after any sequence of
/// mutations are at least what they were before it.
pub proof fn lemma_counters_monotonic(s: ProxyStats, ops: Seq<CounterOp>)
    ensures
        spec_apply_ops(s, ops).up_total >= s.up_total,
        spec_apply_ops(s, ops).down_total >= s.down_total,
    decreases ops.len(),
{
    if ops.len() > 0 {
        lemma_counters_monotonic(s, ops.drop_last());
    }
}

} // verus!
