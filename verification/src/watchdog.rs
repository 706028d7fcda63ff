//! The watchdog's command protocol and state machine.
//!
//! The watchdog runs as an independent process and reads newline-delimited
//! UTF-8 commands (`SET PG <pid>`, `SET PID <pid>`, `CLEAR`) from its input
//! channel.  A malformed line leaves the target unchanged.  When the channel
//! reaches end-of-stream the watchdog executes a cleanup action derived from
//! the current target.  Everything here is the decision half of that process:
//! the caller feeds it one line of bytes at a time and performs the returned
//! cleanup action itself.
use vstd::prelude::*;

verus! {

/// The kill target the watchdog currently remembers.
#[derive(Clone, Copy, Debug, PartialEq, Eq, Structural)]
pub enum WatchdogTarget {
    /// Nothing to clean up at end-of-stream.
    NoTarget,
    /// A whole process group (platforms with process-group semantics).
    Group(i64),
    /// A single process id.
    Pid(i64),
}

/// One parsed protocol command.
#[derive(Clone, Copy, Debug, PartialEq, Eq, Structural)]
pub enum WatchdogCmd {
    SetGroup(i64),
    SetPid(i64),
    Clear,
    /// A malformed or unrecognized line; the target stays as it is.
    Ignored,
}

/// What to do when the input channel closes.
#[derive(Clone, Copy, Debug, PartialEq, Eq, Structural)]
pub enum CleanupAction {
    DoNothing,
    /// Graceful-then-forceful signal to a whole process group.
    KillGroup(i64),
    /// Graceful-then-forceful signal to a single process.
    KillPid(i64),
    /// Enumerate the descendant tree of the pid and kill it bottom-up
    /// (platforms without process groups).
    KillTree(i64),
}

/// ASCII whitespace, the separators the protocol tokenizer recognizes.
pub open spec fn is_ws(b: u8) -> bool {
    b == 32 || (9 <= b && b <= 13)
}

/// Length of the leading run of non-whitespace bytes.
pub open spec fn run_len(s: Seq<u8>) -> nat
    decreases s.len(),
{
    if s.len() == 0 || is_ws(s[0]) {
        0
    } else {
        1 + run_len(s.skip(1))
    }
}

/// The whitespace-separated tokens of a line, in order.
pub open spec fn spec_tokens(s: Seq<u8>) -> Seq<Seq<u8>>
    decreases s.len(),
    via spec_tokens_decreases
{
    if s.len() == 0 {
        Seq::empty()
    } else if is_ws(s[0]) {
        spec_tokens(s.skip(1))
    } else {
        seq![s.take(run_len(s) as int)] + spec_tokens(s.skip(run_len(s) as int))
    }
}

#[via_fn]
proof fn spec_tokens_decreases(s: Seq<u8>) {
    if s.len() > 0 && !is_ws(s[0]) {
        lemma_run_len_le(s);
        assert(run_len(s) == 1 + run_len(s.skip(1)));
    }
}

proof fn lemma_run_len_le(s: Seq<u8>)
    ensures
        run_len(s) <= s.len(),
    decreases s.len(),
{
    if s.len() == 0 || is_ws(s[0]) {
    } else {
        lemma_run_len_le(s.skip(1));
    }
}

/// The run length is witnessed by the first whitespace position.
proof fn lemma_run_len_is(s: Seq<u8>, k: int)
    requires
        0 <= k <= s.len(),
        forall|i: int| 0 <= i < k ==> !is_ws(s[i]),
        k < s.len() ==> is_ws(s[k]),
    ensures
        run_len(s) == k,
    decreases s.len(),
{
    if s.len() == 0 || is_ws(s[0]) {
    } else {
        lemma_run_len_is(s.skip(1), k - 1);
    }
}

fn is_ws_exec(b: u8) -> (r: bool)
    ensures
        r == is_ws(b),
{
    b == 32 || (9 <= b && b <= 13)
}

fn bytes_eq(a: &[u8], b: &[u8]) -> (r: bool)
    ensures
        r == (a@ == b@),
{
    if a.len() != b.len() {
        assert(a@ != b@) by {
            assert(a@.len() != b@.len());
        }
        return false;
    }
    let n = a.len();
    let mut i: usize = 0;
    while i < n
        invariant
            0 <= i <= n,
            n == a@.len() == b@.len(),
            forall|j: int| 0 <= j < i ==> a@[j] == b@[j],
        decreases n - i,
    {
        if a[i] != b[i] {
            return false;
        }
        i += 1;
    }
    proof {
        assert(a@ =~= b@);
    }
    true
}

/// Splits a line into its whitespace-separated tokens.
fn tokenize_from(s: &[u8], i: usize) -> (r: Vec<Vec<u8>>)
    requires
        i <= s@.len(),
    ensures
        r@.len() == spec_tokens(s@.skip(i as int)).len(),
        forall|k: int|
            0 <= k < r@.len() ==> #[trigger] r@[k]@ == spec_tokens(s@.skip(i as int))[k],
    decreases s@.len() - i,
{
    let n = s.len();
    if i == n {
        let r: Vec<Vec<u8>> = Vec::new();
        assert(s@.skip(i as int) =~= Seq::<u8>::empty());
        r
    } else if is_ws_exec(s[i]) {
        let r = tokenize_from(s, i + 1);
        assert(s@.skip(i as int).skip(1) =~= s@.skip(i + 1));
        r
    } else {
        let mut j = i + 1;
        while j < n && !is_ws_exec(s[j])
            invariant
                i < j <= n,
                n == s@.len(),
                forall|k: int| i <= k < j ==> !is_ws(s@[k]),
            decreases n - j,
        {
            j += 1;
        }
        proof {
            lemma_run_len_is(s@.skip(i as int), j - i);
        }
        let mut tok: Vec<u8> = Vec::new();
        let mut k = i;
        while k < j
            invariant
                i <= k <= j <= n,
                n == s@.len(),
                tok@ =~= s@.subrange(i as int, k as int),
            decreases j - k,
        {
            tok.push(s[k]);
            k += 1;
        }
        let mut r = tokenize_from(s, j);
        proof {
            assert(tok@ =~= s@.skip(i as int).take(j - i));
            assert(s@.skip(i as int).skip(j - i) =~= s@.skip(j as int));
        }
        r.insert(0, tok);
        r
    }
}

/// The numeric value of a digit-only byte sequence.
pub open spec fn digits_val(t: Seq<u8>) -> nat
    decreases t.len(),
{
    if t.len() == 0 {
        0
    } else {
        digits_val(t.drop_last()) * 10 + (t.last() - 48) as nat
    }
}

/// Every byte is an ASCII decimal digit, and there is at least one.
pub open spec fn all_digits(t: Seq<u8>) -> bool {
    t.len() > 0 && forall|i: int| 0 <= i < t.len() ==> 48 <= #[trigger] t[i] <= 57
}

/// What `str::parse::<i64>` accepts: an optional sign, then decimal digits,
/// rejecting anything else and values outside the `i64` range.
pub open spec fn spec_parse_i64(t: Seq<u8>) -> Option<i64> {
    if t.len() == 0 {
        Option::None
    } else {
        let neg = t[0] == 45;
        let ds = if t[0] == 45 || t[0] == 43 {
            t.skip(1)
        } else {
            t
        };
        if !all_digits(ds) {
            Option::None
        } else if neg {
            if digits_val(ds) <= 0x8000_0000_0000_0000 {
                Option::Some((0 - digits_val(ds)) as i64)
            } else {
                Option::None
            }
        } else {
            if digits_val(ds) <= 0x7fff_ffff_ffff_ffff {
                Option::Some(digits_val(ds) as i64)
            } else {
                Option::None
            }
        }
    }
}

fn parse_digits(ds: &[u8]) -> (r: Option<u128>)
    requires
        all_digits(ds@),
    ensures
        match r {
            Option::Some(v) => v == digits_val(ds@) && v <= 0x8000_0000_0000_0000,
            Option::None => digits_val(ds@) > 0x8000_0000_0000_0000,
        },
{
    let n = ds.len();
    let mut acc: u128 = 0;
    let mut i: usize = 0;
    while i < n
        invariant
            0 <= i <= n,
            n == ds@.len(),
            all_digits(ds@),
            acc == digits_val(ds@.take(i as int)),
            acc <= 0x8000_0000_0000_0000,
        decreases n - i,
    {
        let d = ds[i];
        let next: u128 = acc * 10 + (d - 48) as u128;
        proof {
            assert(ds@.take(i + 1).drop_last() =~= ds@.take(i as int));
            assert(digits_val(ds@.take(i + 1)) == next);
        }
        if next > 0x8000_0000_0000_0000 {
            proof {
                lemma_digits_val_grows(ds@, i + 1);
            }
            return Option::None;
        }
        acc = next;
        i += 1;
    }
    proof {
        assert(ds@.take(n as int) =~= ds@);
    }
    Option::Some(acc)
}

/// Appending digits never shrinks the value: the total is at least the value
/// of any prefix.
proof fn lemma_digits_val_grows(t: Seq<u8>, k: int)
    requires
        0 <= k <= t.len(),
    ensures
        digits_val(t) >= digits_val(t.take(k)),
    decreases t.len() - k,
{
    if k == t.len() {
        assert(t.take(k) =~= t);
    } else {
        lemma_digits_val_grows(t, k + 1);
        assert(t.take(k + 1).drop_last() =~= t.take(k));
        assert(digits_val(t.take(k + 1)) == digits_val(t.take(k)) * 10 + (t[k] - 48) as nat);
    }
}

/// Parses a signed decimal integer exactly as the protocol does.
fn parse_i64_bytes(t: &[u8]) -> (r: Option<i64>)
    ensures
        r == spec_parse_i64(t@),
{
    if t.len() == 0 {
        return Option::None;
    }
    let neg = t[0] == 45;
    let signed = t[0] == 45 || t[0] == 43;
    let ds: &[u8] = if signed {
        slice_drop_first(t)
    } else {
        t
    };
    // check digits
    let n = ds.len();
    if n == 0 {
        return Option::None;
    }
    let mut i: usize = 0;
    while i < n
        invariant
            0 <= i <= n,
            n == ds@.len(),
            t@.len() > 0,
            (t@[0] == 45 || t@[0] == 43) ==> ds@ == t@.skip(1),
            !(t@[0] == 45 || t@[0] == 43) ==> ds@ == t@,
            forall|j: int| 0 <= j < i ==> 48 <= #[trigger] ds@[j] <= 57,
        decreases n - i,
    {
        if ds[i] < 48 || ds[i] > 57 {
            proof {
                assert(!(48 <= ds@[i as int] <= 57));
                assert(!all_digits(ds@));
            }
            return Option::None;
        }
        i += 1;
    }
    assert(all_digits(ds@));
    match parse_digits(ds) {
        Option::Some(v) => {
            if neg {
                if v == 0x8000_0000_0000_0000 {
                    Option::Some(i64::MIN)
                } else {
                    Option::Some(-(v as i64))
                }
            } else {
                if v <= 0x7fff_ffff_ffff_ffff {
                    Option::Some(v as i64)
                } else {
                    Option::None
                }
            }
        },
        Option::None => Option::None,
    }
}

fn slice_drop_first(t: &[u8]) -> (r: &[u8])
    requires
        t@.len() >= 1,
    ensures
        r@ == t@.skip(1),
{
    let r = slice_subrange(t, 1, t.len());
    r
}

fn slice_subrange(t: &[u8], from: usize, to: usize) -> (r: &[u8])
    requires
        from <= to <= t@.len(),
    ensures
        r@ == t@.subrange(from as int, to as int),
{
    &t[from..to]
}

/// The command a line of the protocol carries.
pub open spec fn spec_parse_cmd(line: Seq<u8>) -> WatchdogCmd {
    let ts = spec_tokens(line);
    if ts.len() >= 3 && ts[0] == seq![83u8, 69u8, 84u8] && ts[1] == seq![80u8, 71u8] {
        match spec_parse_i64(ts[2]) {
            Option::Some(v) => WatchdogCmd::SetGroup(v),
            Option::None => WatchdogCmd::Ignored,
        }
    } else if ts.len() >= 3 && ts[0] == seq![83u8, 69u8, 84u8] && ts[1] == seq![
        80u8,
        73u8,
        68u8,
    ] {
        match spec_parse_i64(ts[2]) {
            Option::Some(v) => WatchdogCmd::SetPid(v),
            Option::None => WatchdogCmd::Ignored,
        }
    } else if ts.len() >= 1 && ts[0] == seq![67u8, 76u8, 69u8, 65u8, 82u8] {
        WatchdogCmd::Clear
    } else {
        WatchdogCmd::Ignored
    }
}

/// Parses one input line (without its newline) into a command.
pub fn parse_command(line: &[u8]) -> (r: WatchdogCmd)
    ensures
        r == spec_parse_cmd(line@),
{
    let toks = tokenize_from(line, 0);
    proof {
        assert(line@.skip(0) =~= line@);
    }
    let kw_set: [u8; 3] = [83, 69, 84];
    let kw_pg: [u8; 2] = [80, 71];
    let kw_pid: [u8; 3] = [80, 73, 68];
    let kw_clear: [u8; 5] = [67, 76, 69, 65, 82];
    proof {
        assert(kw_set@ =~= seq![83u8, 69u8, 84u8]);
        assert(kw_pg@ =~= seq![80u8, 71u8]);
        assert(kw_pid@ =~= seq![80u8, 73u8, 68u8]);
        assert(kw_clear@ =~= seq![67u8, 76u8, 69u8, 65u8, 82u8]);
    }
    if toks.len() >= 3 && bytes_eq(toks[0].as_slice(), kw_set.as_slice()) && bytes_eq(
        toks[1].as_slice(),
        kw_pg.as_slice(),
    ) {
        match parse_i64_bytes(toks[2].as_slice()) {
            Option::Some(v) => WatchdogCmd::SetGroup(v),
            Option::None => WatchdogCmd::Ignored,
        }
    } else if toks.len() >= 3 && bytes_eq(toks[0].as_slice(), kw_set.as_slice()) && bytes_eq(
        toks[1].as_slice(),
        kw_pid.as_slice(),
    ) {
        match parse_i64_bytes(toks[2].as_slice()) {
            Option::Some(v) => WatchdogCmd::SetPid(v),
            Option::None => WatchdogCmd::Ignored,
        }
    } else if toks.len() >= 1 && bytes_eq(toks[0].as_slice(), kw_clear.as_slice()) {
        WatchdogCmd::Clear
    } else {
        WatchdogCmd::Ignored
    }
}

/// The target after one command: a `SET` installs its id, `CLEAR` empties the
/// target, and a malformed line changes nothing.
pub open spec fn spec_apply(t: WatchdogTarget, c: WatchdogCmd) -> WatchdogTarget {
    match c {
        WatchdogCmd::SetGroup(v) => WatchdogTarget::Group(v),
        WatchdogCmd::SetPid(v) => WatchdogTarget::Pid(v),
        WatchdogCmd::Clear => WatchdogTarget::NoTarget,
        WatchdogCmd::Ignored => t,
    }
}

/// Processes one input line: parses it and steps the target.
pub fn apply_line(t: WatchdogTarget, line: &[u8]) -> (r: WatchdogTarget)
    ensures
        r == spec_apply(t, spec_parse_cmd(line@)),
{
    match parse_command(line) {
        WatchdogCmd::SetGroup(v) => WatchdogTarget::Group(v),
        WatchdogCmd::SetPid(v) => WatchdogTarget::Pid(v),
        WatchdogCmd::Clear => WatchdogTarget::NoTarget,
        WatchdogCmd::Ignored => t,
    }
}

/// The target after a whole sequence of input lines, applied strictly in
/// arrival order.
pub open spec fn spec_run(t0: WatchdogTarget, lines: Seq<Seq<u8>>) -> WatchdogTarget
    decreases lines.len(),
{
    if lines.len() == 0 {
        t0
    } else {
        spec_apply(spec_run(t0, lines.drop_last()), spec_parse_cmd(lines.last()))
    }
}

/// What end-of-stream triggers for a given target.  On platforms with
/// process-group semantics a pid gets the graceful-then-forceful two-step;
/// elsewhere its whole descendant tree is enumerated and killed bottom-up.
pub open spec fn spec_cleanup_plan(t: WatchdogTarget, has_process_groups: bool) -> CleanupAction {
    match t {
        WatchdogTarget::NoTarget => CleanupAction::DoNothing,
        WatchdogTarget::Group(v) => CleanupAction::KillGroup(v),
        WatchdogTarget::Pid(v) => if has_process_groups {
            CleanupAction::KillPid(v)
        } else {
            CleanupAction::KillTree(v)
        },
    }
}

/// How long the graceful signal is given to act before the forceful kill
/// follows: 300 ms for a whole group, 200 ms for a single process, 50 ms
/// per process of an enumerated tree, and nothing when nothing is killed.
pub fn grace_interval_ms(a: CleanupAction) -> (r: u64)
    ensures
        r == (match a {
            CleanupAction::DoNothing => 0u64,
            CleanupAction::KillGroup(_) => 300u64,
            CleanupAction::KillPid(_) => 200u64,
            CleanupAction::KillTree(_) => 50u64,
        }),
{
    match a {
        CleanupAction::DoNothing => 0,
        CleanupAction::KillGroup(_) => 300,
        CleanupAction::KillPid(_) => 200,
        CleanupAction::KillTree(_) => 50,
    }
}

/// Decides the cleanup action at end-of-stream.
pub fn cleanup_plan(t: WatchdogTarget, has_process_groups: bool) -> (r: CleanupAction)
    ensures
        r == spec_cleanup_plan(t, has_process_groups),
{
    match t {
        WatchdogTarget::NoTarget => CleanupAction::DoNothing,
        WatchdogTarget::Group(v) => CleanupAction::KillGroup(v),
        WatchdogTarget::Pid(v) => if has_process_groups {
            CleanupAction::KillPid(v)
        } else {
            CleanupAction::KillTree(v)
        },
    }
}

fn contains_u32(v: &Vec<u32>, x: u32) -> (r: bool)
    ensures
        r == v@.contains(x),
{
    let n = v.len();
    let mut i: usize = 0;
    while i < n
        invariant
            0 <= i <= n,
            n == v@.len(),
            forall|j: int| 0 <= j < i ==> v@[j] != x,
        decreases n - i,
    {
        if v[i] == x {
            return true;
        }
        i += 1;
    }
    false
}

/// `out[k]` occurs as a child pid somewhere in the table.
pub open spec fn from_table(out: Seq<u32>, table: Seq<(u32, u32)>, k: int) -> bool {
    exists|j: int| 0 <= j < table.len() && #[trigger] table[j].0 == out[k]
}

/// Elements past the first are all child pids occurring in the table.
spec fn tail_from_table(out: Seq<u32>, table: Seq<(u32, u32)>) -> bool {
    forall|k: int| 1 <= k < out.len() ==> #[trigger] from_table(out, table, k)
}

/// The table row says `child`'s parent is `parent`.
pub open spec fn edge_matches(row: (u32, u32), child: u32, parent: u32) -> bool {
    row.0 == child && row.1 == parent
}

/// `out[k]` was discovered as the child of an entry earlier in `out`.
pub open spec fn has_discovery_edge(out: Seq<u32>, table: Seq<(u32, u32)>, k: int) -> bool {
    exists|i: int, j: int|
        0 <= i < k && 0 <= j < table.len() && #[trigger] edge_matches(table[j], out[k], out[i])
}

/// Every non-root entry was discovered as the child of an earlier entry, so
/// walking the result backwards visits descendants before their parents.
pub open spec fn parents_first(out: Seq<u32>, table: Seq<(u32, u32)>) -> bool {
    forall|k: int| 1 <= k < out.len() ==> #[trigger] has_discovery_edge(out, table, k)
}

/// Entries whose children have all been collected are closed under the table.
spec fn closed_under(out: Seq<u32>, table: Seq<(u32, u32)>, upto: int) -> bool {
    forall|k: int, j: int|
        #![trigger table[j], out[k]]
        0 <= k < upto && 0 <= j < table.len() && table[j].1 == out[k] ==> out.contains(table[j].0)
}

proof fn lemma_out_len_bound(out: Seq<u32>, table: Seq<(u32, u32)>)
    requires
        out.no_duplicates(),
        tail_from_table(out, table),
        out.len() >= 1,
    ensures
        out.len() <= table.len() + 1,
{
    broadcast use vstd::seq_lib::group_seq_properties, vstd::set_lib::group_set_properties;

    let tail = out.skip(1);
    assert(tail.no_duplicates());
    tail.unique_seq_to_set();
    let children = table.map_values(|row: (u32, u32)| row.0);
    assert forall|x: u32| tail.to_set().contains(x) implies children.to_set().contains(x) by {
        let k = choose|k: int| 0 <= k < tail.len() && tail[k] == x;
        assert(out[k + 1] == x);
        assert(from_table(out, table, k + 1));
        let j = choose|j: int| 0 <= j < table.len() && #[trigger] table[j].0 == out[k + 1];
        assert(children[j] == x);
        assert(children.to_set().contains(children[j]));
    }
    assert(tail.to_set().subset_of(children.to_set()));
    children.lemma_cardinality_of_set();
    vstd::set_lib::lemma_len_subset(tail.to_set(), children.to_set());
}

/// Collects the pid and every transitive descendant it has in the given
/// process-table snapshot (rows of `(pid, parent pid)`), in breadth-first
/// order from the root.  Killing the result back to front therefore
/// terminates children before their parents, which avoids respawn races.
pub fn collect_descendants(table: &Vec<(u32, u32)>, root: u32) -> (r: Vec<u32>)
    ensures
        r@.len() >= 1,
        r@[0] == root,
        r@.no_duplicates(),
        forall|k: int, j: int|
            #![trigger table@[j], r@[k]]
            0 <= k < r@.len() && 0 <= j < table@.len() && table@[j].1 == r@[k] ==> r@.contains(
                table@[j].0,
            ),
        forall|k: int| 1 <= k < r@.len() ==> #[trigger] has_discovery_edge(r@, table@, k),
{
    let mut out: Vec<u32> = Vec::new();
    out.push(root);
    let mut head: usize = 0;
    let tlen = table.len();
    while head < out.len()
        invariant
            head <= out.len(),
            out@.len() >= 1,
            out@[0] == root,
            tlen == table@.len(),
            out@.no_duplicates(),
            tail_from_table(out@, table@),
            parents_first(out@, table@),
            closed_under(out@, table@, head as int),
        decreases table@.len() + 1 - head,
    {
        proof {
            lemma_out_len_bound(out@, table@);
        }
        let p = out[head];
        let mut j: usize = 0;
        while j < tlen
            invariant
                j <= tlen,
                head < out.len(),
                out@.len() >= 1,
                out@[0] == root,
                tlen == table@.len(),
                p == out@[head as int],
                out@.no_duplicates(),
                tail_from_table(out@, table@),
                parents_first(out@, table@),
                closed_under(out@, table@, head as int),
                forall|j2: int|
                    0 <= j2 < j && #[trigger] table@[j2].1 == p ==> out@.contains(
                        #[trigger] table@[j2].0,
                    ),
            decreases tlen - j,
        {
            let (child, parent) = table[j];
            if parent == p && !contains_u32(&out, child) {
                let ghost old_out = out@;
                out.push(child);
                proof {
                    assert(out@ =~= old_out.push(child));
                    assert forall|y: u32| old_out.contains(y) implies out@.contains(y) by {
                        let idx = choose|idx: int|
                            0 <= idx < old_out.len() && old_out[idx] == y;
                        assert(out@[idx] == y);
                    }
                    assert(out@[old_out.len() as int] == child);
                    assert(out@.contains(child));
                    assert(out@.no_duplicates()) by {
                        assert forall|a: int, b: int|
                            0 <= a < out@.len() && 0 <= b < out@.len() && a != b implies out@[a]
                            != out@[b] by {
                            if a < old_out.len() && b < old_out.len() {
                                assert(old_out.no_duplicates());
                            } else if b == old_out.len() && out@[a] == out@[b] {
                                assert(old_out[a] == child);
                                assert(old_out.contains(child));
                            } else if a == old_out.len() && out@[a] == out@[b] {
                                assert(old_out[b] == child);
                                assert(old_out.contains(child));
                            }
                        }
                    }
                    assert forall|k: int, j2: int|
                        #![trigger table@[j2], out@[k]]
                        0 <= k < head && 0 <= j2 < table@.len() && table@[j2].1 == out@[k] implies
                        out@.contains(table@[j2].0) by {
                        assert(out@[k] == old_out[k]);
                        assert(closed_under(old_out, table@, head as int));
                        assert(old_out.contains(table@[j2].0));
                    }
                    assert forall|j2: int|
                        0 <= j2 < j + 1 && #[trigger] table@[j2].1 == p implies out@.contains(
                            #[trigger] table@[j2].0,
                        ) by {
                        if j2 < j {
                            assert(old_out.contains(table@[j2].0));
                        }
                    }
                    assert forall|k: int| 1 <= k < out@.len() implies #[trigger] has_discovery_edge(
                        out@,
                        table@,
                        k,
                    ) by {
                        if k < old_out.len() {
                            assert(has_discovery_edge(old_out, table@, k));
                            let (i, jj) = choose|i: int, jj: int|
                                0 <= i < k && 0 <= jj < table@.len() && #[trigger] edge_matches(
                                    table@[jj],
                                    old_out[k],
                                    old_out[i],
                                );
                            assert(edge_matches(table@[jj], out@[k], out@[i]));
                        } else {
                            assert(edge_matches(table@[j as int], out@[k], out@[head as int]));
                            assert(has_discovery_edge(out@, table@, k));
                        }
                    }
                    assert forall|k: int| 1 <= k < out@.len() implies #[trigger] from_table(
                        out@,
                        table@,
                        k,
                    ) by {
                        if k < old_out.len() {
                            assert(from_table(old_out, table@, k));
                            let jj = choose|jj: int|
                                0 <= jj < table@.len() && #[trigger] table@[jj].0 == old_out[k];
                            assert(table@[jj].0 == out@[k]);
                        } else {
                            assert(table@[j as int].0 == out@[k]);
                        }
                    }
                }
            }
            j += 1;
        }
        head += 1;
    }
    out
}

/// The decimal digit bytes of a natural number, most significant first.
pub open spec fn spec_dec_bytes(n: nat) -> Seq<u8>
    decreases n,
{
    if n < 10 {
        seq![(48 + n) as u8]
    } else {
        spec_dec_bytes(n / 10) + seq![(48 + n % 10) as u8]
    }
}

proof fn lemma_dec_bytes_digits(n: nat)
    ensures
        spec_dec_bytes(n).len() >= 1,
        all_digits(spec_dec_bytes(n)),
    decreases n,
{
    if n < 10 {
    } else {
        lemma_dec_bytes_digits(n / 10);
        assert forall|i: int| 0 <= i < spec_dec_bytes(n).len() implies 48 <= #[trigger] spec_dec_bytes(
            n,
        )[i] <= 57 by {
            if i < spec_dec_bytes(n / 10).len() {
                assert(spec_dec_bytes(n)[i] == spec_dec_bytes(n / 10)[i]);
            }
        }
    }
}

proof fn lemma_dec_bytes_val(n: nat)
    ensures
        digits_val(spec_dec_bytes(n)) == n,
    decreases n,
{
    if n < 10 {
        let s = spec_dec_bytes(n);
        assert(s.last() == (48 + n) as u8);
        assert(s.drop_last() =~= Seq::<u8>::empty());
        assert(digits_val(Seq::<u8>::empty()) == 0);
    } else {
        lemma_dec_bytes_val(n / 10);
        let s = spec_dec_bytes(n);
        assert(s.last() == (48 + n % 10) as u8);
        assert(s.drop_last() =~= spec_dec_bytes(n / 10));
    }
}

/// Renders `n` in decimal digit bytes.
pub fn u64_to_dec_bytes(n: u64) -> (r: Vec<u8>)
    ensures
        r@ == spec_dec_bytes(n as nat),
    decreases n,
{
    if n < 10 {
        let mut v: Vec<u8> = Vec::new();
        v.push(48 + (n as u8));
        proof {
            assert(v@ =~= spec_dec_bytes(n as nat));
        }
        v
    } else {
        let mut v = u64_to_dec_bytes(n / 10);
        v.push(48 + ((n % 10) as u8));
        proof {
            assert(v@ =~= spec_dec_bytes(n as nat));
        }
        v
    }
}

/// The `SET PID <pid>` line the supervisor sends after a spawn (newline not
/// included).
pub open spec fn spec_set_pid_line(pid: nat) -> Seq<u8> {
    seq![83u8, 69u8, 84u8, 32u8, 80u8, 73u8, 68u8, 32u8] + spec_dec_bytes(pid)
}

/// The `CLEAR` line the supervisor sends on stop.
pub open spec fn spec_clear_line() -> Seq<u8> {
    seq![67u8, 76u8, 69u8, 65u8, 82u8]
}

/// Builds the `SET PID <pid>` command line.
pub fn set_pid_line(pid: u32) -> (r: Vec<u8>)
    ensures
        r@ == spec_set_pid_line(pid as nat),
{
    let mut v: Vec<u8> = Vec::new();
    v.push(83);
    v.push(69);
    v.push(84);
    v.push(32);
    v.push(80);
    v.push(73);
    v.push(68);
    v.push(32);
    let mut digits = u64_to_dec_bytes(pid as u64);
    v.append(&mut digits);
    proof {
        assert(v@ =~= spec_set_pid_line(pid as nat));
    }
    v
}

/// Builds the `CLEAR` command line.
pub fn clear_line() -> (r: Vec<u8>)
    ensures
        r@ == spec_clear_line(),
{
    let mut v: Vec<u8> = Vec::new();
    v.push(67);
    v.push(76);
    v.push(69);
    v.push(65);
    v.push(82);
    proof {
        assert(v@ =~= spec_clear_line());
    }
    v
}

proof fn lemma_tokens_empty()
    ensures
        spec_tokens(Seq::<u8>::empty()) == Seq::<Seq<u8>>::empty(),
{
}

proof fn lemma_tokens_ws_step(s: Seq<u8>)
    requires
        s.len() > 0,
        is_ws(s[0]),
    ensures
        spec_tokens(s) == spec_tokens(s.skip(1)),
{
}

proof fn lemma_tokens_word_step(s: Seq<u8>)
    requires
        s.len() > 0,
        !is_ws(s[0]),
    ensures
        spec_tokens(s) == seq![s.take(run_len(s) as int)] + spec_tokens(
            s.skip(run_len(s) as int),
        ),
{
}

proof fn lemma_tokens_of_digit_run(s: Seq<u8>)
    requires
        all_digits(s),
    ensures
        spec_tokens(s) == seq![s],
{
    assert(48 <= s[0] <= 57);
    assert(!is_ws(s[0]));
    lemma_run_len_is(s, s.len() as int);
    lemma_tokens_word_step(s);
    assert(s.take(s.len() as int) =~= s);
    assert(s.skip(s.len() as int) =~= Seq::<u8>::empty());
    lemma_tokens_empty();
    assert(spec_tokens(s) =~= seq![s]);
}

/// A `SET PID` line built by the encoder parses back to exactly that command:
/// the supervisor's notification and the watchdog's reading agree.
pub proof fn lemma_set_pid_round_trip(pid: u32)
    ensures
        spec_parse_cmd(spec_set_pid_line(pid as nat)) == WatchdogCmd::SetPid(pid as i64),
{
    let line = spec_set_pid_line(pid as nat);
    let digits = spec_dec_bytes(pid as nat);
    lemma_dec_bytes_digits(pid as nat);
    lemma_dec_bytes_val(pid as nat);
    assert(48 <= digits[0] <= 57);

    // First token: `SET`.
    assert(!is_ws(line[0]));
    lemma_run_len_is(line, 3);
    lemma_tokens_word_step(line);
    assert(line.take(3) =~= seq![83u8, 69u8, 84u8]);
    let after_set = line.skip(3);
    assert(is_ws(after_set[0]));
    lemma_tokens_ws_step(after_set);
    let pid_kw = after_set.skip(1);
    assert(pid_kw =~= line.skip(4));

    // Second token: `PID`.
    assert(!is_ws(pid_kw[0]));
    lemma_run_len_is(pid_kw, 3);
    lemma_tokens_word_step(pid_kw);
    assert(pid_kw.take(3) =~= seq![80u8, 73u8, 68u8]);
    let after_pid = pid_kw.skip(3);
    assert(after_pid =~= line.skip(7));
    assert(is_ws(after_pid[0]));
    lemma_tokens_ws_step(after_pid);
    let num = after_pid.skip(1);
    assert(num =~= digits);

    // Third token: the digits.
    lemma_tokens_of_digit_run(num);
    let ts = spec_tokens(line);
    assert(ts =~= seq![seq![83u8, 69u8, 84u8], seq![80u8, 73u8, 68u8], digits]);

    // The digits parse back to the pid.
    assert(digits[0] != 45 && digits[0] != 43);
    assert(spec_parse_i64(digits) == Option::Some(pid as i64));
}

/// A `CLEAR` line built by the encoder parses back to `Clear`.
pub proof fn lemma_clear_round_trip()
    ensures
        spec_parse_cmd(spec_clear_line()) == WatchdogCmd::Clear,
{
    let line = spec_clear_line();
    assert(!is_ws(line[0]));
    lemma_run_len_is(line, 5);
    lemma_tokens_word_step(line);
    assert(line.take(5) =~= line);
    assert(line.skip(5) =~= Seq::<u8>::empty());
    lemma_tokens_empty();
    assert(spec_tokens(line) =~= seq![line]);
}

/// The target always reflects the most recently received effective command:
/// whatever came before, a line that parses to a `SET` or `CLEAR` alone
/// determines the target, and an ignored line leaves the earlier state.
pub proof fn lemma_last_command_wins(t0: WatchdogTarget, lines: Seq<Seq<u8>>)
    requires
        lines.len() > 0,
    ensures
        spec_parse_cmd(lines.last()) != WatchdogCmd::Ignored ==> spec_run(t0, lines) == spec_apply(
            t0,
            spec_parse_cmd(lines.last()),
        ),
        spec_parse_cmd(lines.last()) == WatchdogCmd::Ignored ==> spec_run(t0, lines) == spec_run(
            t0,
            lines.drop_last(),
        ),
{
}

} // verus!
