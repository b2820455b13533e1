//! Per-process disk activity: session baselines, uptime since first
//! observation, processes that ended during the session, and the order in
//! which the dashboard lists them.
//!
//! The caller reads the operating system (process table, interface
//! counters, socket tables, a monotonic clock) and hands the readings to
//! `SystemCollector::collect` as plain values.  Timestamps are nanoseconds
//! on one monotonic clock.
use vstd::prelude::*;
use std::collections::HashMap;
use crate::metrics::CounterSample;

verus! {

broadcast use vstd::std_specs::hash::group_hash_axioms;

/// One process as the dashboard lists it.
#[derive(Debug)]
pub struct ProcessMetric {
    pub pid: u32,
    pub name: String,
    pub memory_bytes: u64,
    pub disk_read_bps: u64,
    pub disk_write_bps: u64,
    pub session_disk_read: u64,
    pub session_disk_write: u64,
    pub uptime_secs: u64,
    pub network_connections: u32,
    pub network_down_bps: u64,
    pub network_up_bps: u64,
}

impl Clone for ProcessMetric {
    fn clone(&self) -> (m: Self)
        ensures
            m == *self,
    {
        ProcessMetric {
            pid: self.pid,
            name: self.name.clone(),
            memory_bytes: self.memory_bytes,
            disk_read_bps: self.disk_read_bps,
            disk_write_bps: self.disk_write_bps,
            session_disk_read: self.session_disk_read,
            session_disk_write: self.session_disk_write,
            uptime_secs: self.uptime_secs,
            network_connections: self.network_connections,
            network_down_bps: self.network_down_bps,
            network_up_bps: self.network_up_bps,
        }
    }
}

/// Bytes moved since the session's baseline; a counter below its baseline
/// (the process was replaced under the same id) counts as nothing.
pub open spec fn session_bytes(total: u64, baseline: u64) -> u64 {
    if total >= baseline { (total - baseline) as u64 } else { 0 }
}

/// Bytes a process moved since the session started counting it.
pub fn process_session_bytes(total: u64, baseline: u64) -> (b: u64)
    ensures
        b == session_bytes(total, baseline),
        total >= baseline ==> b + baseline == total,
        total < baseline ==> b == 0,
{
    total.saturating_sub(baseline)
}

/// Whole seconds between two readings of the monotonic clock (in
/// nanoseconds); zero when `current` is not after `observed_at`.
pub open spec fn whole_seconds_between(observed_at: u64, current: u64) -> u64 {
    if current >= observed_at { ((current - observed_at) / 1_000_000_000) as u64 } else { 0 }
}

/// How long a process has been observed, in whole seconds.
pub fn observed_duration_secs(observed_at: u64, current: u64) -> (secs: u64)
    ensures
        secs == whole_seconds_between(observed_at, current),
        current >= observed_at ==> secs * 1_000_000_000 <= current - observed_at < (secs + 1) * 1_000_000_000,
        current < observed_at ==> secs == 0,
{
    let secs = current.saturating_sub(observed_at) / 1_000_000_000;
    proof {
        lemma_whole_seconds(observed_at, current);
    }
    secs
}

/// Whole seconds are the elapsed nanoseconds divided by a billion, rounded
/// down: the seconds counted fit in the time that passed and one more
/// would not.
pub proof fn lemma_whole_seconds(observed_at: u64, current: u64)
    ensures
        current >= observed_at ==> whole_seconds_between(observed_at, current) * 1_000_000_000 <= current - observed_at
            < (whole_seconds_between(observed_at, current) + 1) * 1_000_000_000,
        current < observed_at ==> whole_seconds_between(observed_at, current) == 0,
{
    if current >= observed_at {
        let d: int = current - observed_at;
        assert(d / 1_000_000_000 * 1_000_000_000 <= d < (d / 1_000_000_000 + 1) * 1_000_000_000) by (nonlinear_arith)
            requires
                d >= 0,
        ;
    }
}

/// How many open connections each process id owns: every pid that occurs
/// in `pids` maps to the number of its occurrences.
pub fn connection_counts(pids: &Vec<u32>) -> (counts: HashMap<u32, u32>)
    requires
        forall|p: u32| pids@.to_multiset().count(p) <= u32::MAX,
    ensures
        counts@.dom() == pids@.to_set(),
        forall|p: u32| #[trigger] counts@.contains_key(p) ==> counts@[p] == pids@.to_multiset().count(p),
{
    broadcast use {
        vstd::seq_lib::group_to_multiset_ensures,
        vstd::multiset::group_multiset_axioms,
        vstd::seq_lib::lemma_seq_contains_after_push,
    };

    let mut counts: HashMap<u32, u32> = HashMap::new();
    let n = pids.len();
    for i in 0..n
        invariant
            n == pids@.len(),
            forall|p: u32| pids@.to_multiset().count(p) <= u32::MAX,
            counts@.dom() == pids@.take(i as int).to_set(),
            forall|p: u32| #[trigger] counts@.contains_key(p) ==> counts@[p] == pids@.take(i as int).to_multiset().count(p),
    {
        let pid = pids[i];
        let ghost before = pids@.take(i as int);
        assert(pids@.take(i + 1) =~= before.push(pid));
        assert(pids@ =~= pids@.take(i + 1) + pids@.skip(i + 1));
        proof {
            vstd::seq_lib::lemma_multiset_commutative(pids@.take(i + 1), pids@.skip(i + 1));
        }
        assert(pids@.take(i + 1).to_multiset().count(pid) <= pids@.to_multiset().count(pid));
        let current: u32 = match counts.get(&pid) {
            Some(c) => *c,
            None => {
                proof {
                    assert(!before.to_set().contains(pid));
                    vstd::seq_lib::to_multiset_contains(before, pid);
                }
                0
            },
        };
        assert(current == before.to_multiset().count(pid));
        proof {
            vstd::seq_lib::to_multiset_build(before, pid);
        }
        counts.insert(pid, current + 1);
        assert(counts@.dom() =~= pids@.take(i + 1).to_set());
    }
    assert(pids@.take(n as int) =~= pids@);
    counts
}

/// Connection counts from the owner columns of the TCP and the UDP socket
/// tables taken together.
pub fn process_network_connections(tcp_owner_pids: &Vec<u32>, udp_owner_pids: &Vec<u32>) -> (counts: HashMap<u32, u32>)
    requires
        forall|p: u32| (tcp_owner_pids@ + udp_owner_pids@).to_multiset().count(p) <= u32::MAX,
    ensures
        counts@.dom() == (tcp_owner_pids@ + udp_owner_pids@).to_set(),
        forall|p: u32| #[trigger] counts@.contains_key(p) ==> counts@[p] == (tcp_owner_pids@ + udp_owner_pids@).to_multiset().count(p),
{
    let mut all: Vec<u32> = Vec::new();
    for i in 0..tcp_owner_pids.len()
        invariant
            all@ == tcp_owner_pids@.take(i as int),
    {
        all.push(tcp_owner_pids[i]);
        assert(tcp_owner_pids@.take(i + 1) =~= tcp_owner_pids@.take(i as int).push(tcp_owner_pids@[i as int]));
    }
    assert(tcp_owner_pids@.take(tcp_owner_pids@.len() as int) =~= tcp_owner_pids@);
    for j in 0..udp_owner_pids.len()
        invariant
            all@ == tcp_owner_pids@ + udp_owner_pids@.take(j as int),
    {
        all.push(udp_owner_pids[j]);
        assert(udp_owner_pids@.take(j + 1) =~= udp_owner_pids@.take(j as int).push(udp_owner_pids@[j as int]));
        assert(tcp_owner_pids@ + udp_owner_pids@.take(j + 1) =~= (tcp_owner_pids@ + udp_owner_pids@.take(j as int)).push(udp_owner_pids@[j as int]));
    }
    assert(udp_owner_pids@.take(udp_owner_pids@.len() as int) =~= udp_owner_pids@);
    connection_counts(&all)
}

/// Current disk traffic of a process, the first sort key.
pub open spec fn current_activity(m: ProcessMetric) -> int {
    m.disk_read_bps + m.disk_write_bps
}

/// Disk traffic of a process over the session, the second sort key.
pub open spec fn session_activity(m: ProcessMetric) -> int {
    m.session_disk_read + m.session_disk_write
}

/// `a` may be listed before `b`: it is busier now, or as busy now and at
/// least as busy over the session.
pub open spec fn listed_before(a: ProcessMetric, b: ProcessMetric) -> bool {
    ||| current_activity(a) > current_activity(b)
    ||| current_activity(a) == current_activity(b) && session_activity(a) >= session_activity(b)
}

/// The busiest processes come first.
pub open spec fn ordered_by_activity(s: Seq<ProcessMetric>) -> bool {
    forall|i: int, j: int| 0 <= i < j < s.len() ==> listed_before(#[trigger] s[i], #[trigger] s[j])
}

fn is_listed_before(a: &ProcessMetric, b: &ProcessMetric) -> (r: bool)
    ensures
        r == listed_before(*a, *b),
{
    let current_a: u128 = a.disk_read_bps as u128 + a.disk_write_bps as u128;
    let current_b: u128 = b.disk_read_bps as u128 + b.disk_write_bps as u128;
    if current_a != current_b {
        current_a > current_b
    } else {
        let session_a: u128 = a.session_disk_read as u128 + a.session_disk_write as u128;
        let session_b: u128 = b.session_disk_read as u128 + b.session_disk_write as u128;
        session_a >= session_b
    }
}

/// Orders processes busiest first: by current disk traffic, then by disk
/// traffic over the session, both descending.  Processes equal on both keys
/// may end up in any order among themselves.
pub fn sort_by_activity(processes: &mut Vec<ProcessMetric>)
    ensures
        ordered_by_activity(final(processes)@),
        forall|i: int, j: int|
            0 <= i < j < final(processes)@.len() ==> {
                let a = #[trigger] final(processes)@[i];
                let b = #[trigger] final(processes)@[j];
                ||| a.disk_read_bps + a.disk_write_bps > b.disk_read_bps + b.disk_write_bps
                ||| a.disk_read_bps + a.disk_write_bps == b.disk_read_bps + b.disk_write_bps
                    && a.session_disk_read + a.session_disk_write >= b.session_disk_read + b.session_disk_write
            },
        final(processes)@.to_multiset() == old(processes)@.to_multiset(),
{
    broadcast use {
        vstd::seq_lib::group_to_multiset_ensures,
        vstd::multiset::group_multiset_axioms,
    };

    let ghost initial = processes@;
    let mut sorted: Vec<ProcessMetric> = Vec::new();
    while processes.len() > 0
        invariant
            ordered_by_activity(sorted@),
            sorted@.to_multiset().add(processes@.to_multiset()) == initial.to_multiset(),
        decreases processes.len(),
    {
        let ghost before = processes@;
        let m = processes.pop().unwrap();
        proof {
            assert(before =~= processes@.push(m));
            vstd::seq_lib::to_multiset_build(processes@, m);
        }
        let mut k: usize = 0;
        while k < sorted.len() && is_listed_before(&sorted[k], &m)
            invariant
                k <= sorted@.len(),
                forall|j: int| 0 <= j < k ==> listed_before(#[trigger] sorted@[j], m),
            decreases sorted@.len() - k,
        {
            k = k + 1;
        }
        let ghost prev = sorted@;
        sorted.insert(k, m);
        proof {
            vstd::seq_lib::to_multiset_insert(prev, k as int, m);
            assert forall|i: int, j: int| 0 <= i < j < sorted@.len() implies listed_before(
                #[trigger] sorted@[i],
                #[trigger] sorted@[j],
            ) by {
                if j < k {
                    assert(sorted@[i] == prev[i] && sorted@[j] == prev[j]);
                } else if j == k {
                    assert(sorted@[i] == prev[i]);
                } else if i == k {
                    assert(!listed_before(prev[k as int], m));
                    assert(sorted@[j] == prev[j - 1]);
                    if j - 1 > k {
                        assert(listed_before(prev[k as int], prev[j - 1]));
                    }
                } else if i < k {
                    assert(sorted@[i] == prev[i] && sorted@[j] == prev[j - 1]);
                } else {
                    assert(sorted@[i] == prev[i - 1] && sorted@[j] == prev[j - 1]);
                }
            }
        }
    }
    *processes = sorted;
    proof {
        lemma_ordered_by_activity_busiest_first(processes@);
    }
}

/// In a list ordered by activity, of any two processes the earlier one has
/// more current disk traffic (reads plus writes), or as much and at least
/// as much disk traffic (reads plus writes) over the session.
pub proof fn lemma_ordered_by_activity_busiest_first(s: Seq<ProcessMetric>)
    requires
        ordered_by_activity(s),
    ensures
        forall|i: int, j: int|
            0 <= i < j < s.len() ==> {
                let a = #[trigger] s[i];
                let b = #[trigger] s[j];
                ||| a.disk_read_bps + a.disk_write_bps > b.disk_read_bps + b.disk_write_bps
                ||| a.disk_read_bps + a.disk_write_bps == b.disk_read_bps + b.disk_write_bps
                    && a.session_disk_read + a.session_disk_write >= b.session_disk_read + b.session_disk_write
            },
{
    assert forall|i: int, j: int| 0 <= i < j < s.len() implies {
        let a = #[trigger] s[i];
        let b = #[trigger] s[j];
        ||| a.disk_read_bps + a.disk_write_bps > b.disk_read_bps + b.disk_write_bps
        ||| a.disk_read_bps + a.disk_write_bps == b.disk_read_bps + b.disk_write_bps
            && a.session_disk_read + a.session_disk_write >= b.session_disk_read + b.session_disk_write
    } by {
        assert(listed_before(s[i], s[j]));
    }
}

/// A metric with its session activity nonzero: such a process is still
/// listed after it exits.
pub open spec fn has_session_activity(m: ProcessMetric) -> bool {
    m.session_disk_read > 0 || m.session_disk_write > 0
}

/// How an exited process is listed: its session totals, name and uptime
/// stay; memory, rates and connections drop to zero.
pub open spec fn as_terminated(m: ProcessMetric) -> ProcessMetric {
    ProcessMetric {
        memory_bytes: 0,
        disk_read_bps: 0,
        disk_write_bps: 0,
        network_connections: 0,
        network_down_bps: 0,
        network_up_bps: 0,
        ..m
    }
}

/// The listings of the processes in `history` that are not `running` and
/// moved disk bytes during the session.
pub open spec fn terminated_metrics(history: Map<u32, ProcessMetric>, running: Set<u32>) -> Set<ProcessMetric> {
    history.dom().filter(|pid: u32| !running.contains(pid) && has_session_activity(history[pid])).map(
        |pid: u32| as_terminated(history[pid]),
    )
}

/// `t` lists every member of `s` exactly once.
pub open spec fn lists_each_once(t: Seq<ProcessMetric>, s: Set<ProcessMetric>) -> bool {
    t.no_duplicates() && t.to_set() == s
}

/// The exited processes of `history` (those not in `running`) that still
/// have session activity, each once, in no particular order.
fn terminated_processes(history: &HashMap<u32, ProcessMetric>, running: &HashMap<u32, u64>) -> (t: Vec<ProcessMetric>)
    requires
        forall|pid: u32| #[trigger] history@.contains_key(pid) ==> history@[pid].pid == pid,
    ensures
        lists_each_once(t@, terminated_metrics(history@, running@.dom())),
{
    let ghost target = terminated_metrics(history@, running@.dom());
    let mut t: Vec<ProcessMetric> = Vec::new();
    for entry in it: history.iter()
        invariant
            forall|pid: u32| #[trigger] history@.contains_key(pid) ==> history@[pid].pid == pid,
            target == terminated_metrics(history@, running@.dom()),
            it.seq().no_duplicates(),
            forall|k: u32| history@.contains_key(k) ==> it.seq().contains((&k, &history@[k])),
            forall|j: int|
                0 <= j < it.seq().len() ==> history@.contains_key(*(#[trigger] it.seq()[j]).0)
                    && history@[*it.seq()[j].0] == *it.seq()[j].1,
            t@.no_duplicates(),
            forall|x: ProcessMetric| t@.contains(x) ==> target.contains(x),
            forall|x: ProcessMetric| #[trigger] t@.contains(x) ==> exists|j: int| 0 <= j < it.index() && x.pid == *it.seq()[j].0,
            forall|j: int|
                0 <= j < it.index() && target.contains(as_terminated(*it.seq()[j].1)) ==> #[trigger] t@.contains(
                    as_terminated(*it.seq()[j].1),
                ),
            it.index() == it.seq().len() ==> forall|x: ProcessMetric| target.contains(x) ==> #[trigger] t@.contains(x),
    {
        let (pid, historic) = entry;
        let ghost j0 = it.index() as int;
        let ghost old_t = t@;
        assert(entry == it.seq()[j0]);
        if !running.contains_key(pid) && (historic.session_disk_read > 0 || historic.session_disk_write > 0) {
            let m = ProcessMetric {
                pid: historic.pid,
                name: historic.name.clone(),
                memory_bytes: 0,
                disk_read_bps: 0,
                disk_write_bps: 0,
                session_disk_read: historic.session_disk_read,
                session_disk_write: historic.session_disk_write,
                uptime_secs: historic.uptime_secs,
                network_connections: 0,
                network_down_bps: 0,
                network_up_bps: 0,
            };
            proof {
                assert(m == as_terminated(*historic));
                assert(history@.dom().filter(|p: u32| !running@.dom().contains(p) && has_session_activity(history@[p])).contains(*pid));
                assert(target.contains(m));
                if t@.contains(m) {
                    let j = choose|j: int| 0 <= j < j0 && m.pid == *it.seq()[j].0;
                    assert(*it.seq()[j].0 == *pid);
                    assert(history@[*pid] == *it.seq()[j].1);
                    assert(it.seq()[j] == it.seq()[j0]);
                }
            }
            t.push(m);
            assert(t@[t@.len() - 1] == m);
        } else {
            proof {
                let x = as_terminated(*historic);
                if target.contains(x) {
                    let p = choose|p: u32|
                        history@.dom().filter(|q: u32| !running@.dom().contains(q) && has_session_activity(history@[q])).contains(p)
                            && as_terminated(history@[p]) == x;
                    assert(history@[p].pid == p);
                    assert(history@[*pid] == *historic);
                    assert(historic.pid == *pid);
                    assert(p == *pid);
                    assert(false);
                }
            }
        }
        proof {
            assert forall|x: ProcessMetric| old_t.contains(x) implies t@.contains(x) by {
                let k = choose|k: int| 0 <= k < old_t.len() && old_t[k] == x;
                assert(t@[k] == x);
            }
            assert(target.contains(as_terminated(*historic)) ==> t@.contains(as_terminated(*historic)));
            assert forall|j: int|
                0 <= j < j0 + 1 && target.contains(as_terminated(*it.seq()[j].1)) implies #[trigger] t@.contains(
                    as_terminated(*it.seq()[j].1),
                ) by {
                if j < j0 {
                    assert(old_t.contains(as_terminated(*it.seq()[j].1)));
                } else {
                    assert(it.seq()[j] == entry);
                }
            }
            assert forall|x: ProcessMetric| #[trigger] t@.contains(x) implies exists|j: int|
                0 <= j < j0 + 1 && x.pid == *it.seq()[j].0 by {
                if x.pid == *pid {
                    assert(x.pid == *it.seq()[j0].0);
                } else {
                    assert(old_t.contains(x));
                    let j = choose|j: int| 0 <= j < j0 && x.pid == *it.seq()[j].0;
                    assert(0 <= j < j0 + 1);
                }
            }
            assert forall|x: ProcessMetric| target.contains(x) implies exists|j: int|
                0 <= j < it.seq().len() && as_terminated(*it.seq()[j].1) == x by {
                let pid = choose|pid: u32|
                    history@.dom().filter(|p: u32| !running@.dom().contains(p) && has_session_activity(history@[p])).contains(pid)
                        && as_terminated(history@[pid]) == x;
                assert(it.seq().contains((&pid, &history@[pid])));
                let j = choose|j: int| 0 <= j < it.seq().len() && it.seq()[j] == (&pid, &history@[pid]);
                assert(as_terminated(*it.seq()[j].1) == x);
            }
        }
    }
    proof {
        assert(t@.to_set() =~= target);
    }
    t
}

/// One process as read from the operating system at this tick.
pub struct ProcessSample {
    pub pid: u32,
    pub name: String,
    pub memory_bytes: u64,
    /// Bytes read since the previous reading of the process table.
    pub read_bytes: u64,
    /// Bytes written since the previous reading of the process table.
    pub written_bytes: u64,
    /// Bytes read over the life of the process.
    pub total_read_bytes: u64,
    /// Bytes written over the life of the process.
    pub total_written_bytes: u64,
}

/// One network interface's cumulative counters.
pub struct InterfaceSample {
    pub name: String,
    pub total_received: u64,
    pub total_transmitted: u64,
}

/// A process's lifetime disk counters when the session first saw it.
#[derive(Clone, Copy, Debug, PartialEq, Eq, Structural)]
pub struct DiskCounters {
    pub read: u64,
    pub write: u64,
}

/// What one tick of the collector produces.
pub struct Collection {
    /// Machine-wide counters: interface totals summed over interfaces, disk
    /// totals summed over processes.
    pub counters: CounterSample,
    /// Running processes and exited ones with session activity, busiest first.
    pub processes: Vec<ProcessMetric>,
    /// Interface names, in the order they were read.
    pub interfaces: Vec<String>,
}

/// The observable state of a `SystemCollector`.
pub struct CollectorState {
    /// Lifetime disk counters of each process when the session first saw it.
    pub baselines: Map<u32, DiskCounters>,
    /// When each running process was first observed.
    pub observed_at: Map<u32, u64>,
    /// The last listing of every process seen during the session.
    pub history: Map<u32, ProcessMetric>,
}

impl CollectorState {
    /// Every listing in the history is filed under its own pid.
    pub open spec fn wf(self) -> bool {
        forall|pid: u32| #[trigger] self.history.contains_key(pid) ==> self.history[pid].pid == pid
    }
}

/// The sum of a sequence of counters.
pub open spec fn total(values: Seq<u64>) -> nat
    decreases values.len(),
{
    if values.len() == 0 {
        0
    } else {
        (total(values.drop_last()) + values.last()) as nat
    }
}

/// No two samples are of the same process.
pub open spec fn distinct_pids(samples: Seq<ProcessSample>) -> bool {
    forall|i: int, j: int| 0 <= i < j < samples.len() ==> samples[i].pid != samples[j].pid
}

/// The pids of the samples.
pub open spec fn running_pids(samples: Seq<ProcessSample>) -> Set<u32> {
    samples.map_values(|s: ProcessSample| s.pid).to_set()
}

/// The samples filed by pid.
pub open spec fn samples_by_pid(samples: Seq<ProcessSample>) -> Map<u32, ProcessSample>
    decreases samples.len(),
{
    if samples.len() == 0 {
        Map::empty()
    } else {
        samples_by_pid(samples.drop_last()).insert(samples.last().pid, samples.last())
    }
}

/// The baseline a process is measured against: the one recorded when the
/// session first saw it, or else its current lifetime counters.
pub open spec fn baseline_of(baselines: Map<u32, DiskCounters>, s: ProcessSample) -> DiskCounters {
    if baselines.contains_key(s.pid) {
        baselines[s.pid]
    } else {
        DiskCounters { read: s.total_read_bytes, write: s.total_written_bytes }
    }
}

/// When a process was first observed: as recorded, or now if it is new.
pub open spec fn first_seen(observed_at: Map<u32, u64>, pid: u32, now: u64) -> u64 {
    if observed_at.contains_key(pid) {
        observed_at[pid]
    } else {
        now
    }
}

/// Open connections of a process; zero when it owns none.
pub open spec fn connections_of(connections: Map<u32, u32>, pid: u32) -> u32 {
    if connections.contains_key(pid) {
        connections[pid]
    } else {
        0
    }
}

/// How a running process is listed.  Network rates are filled in later,
/// from the machine-wide rates.
pub open spec fn active_metric(st: CollectorState, s: ProcessSample, connections: Map<u32, u32>, now: u64) -> ProcessMetric {
    let b = baseline_of(st.baselines, s);
    ProcessMetric {
        pid: s.pid,
        name: s.name,
        memory_bytes: s.memory_bytes,
        disk_read_bps: s.read_bytes,
        disk_write_bps: s.written_bytes,
        session_disk_read: session_bytes(s.total_read_bytes, b.read),
        session_disk_write: session_bytes(s.total_written_bytes, b.write),
        uptime_secs: whole_seconds_between(first_seen(st.observed_at, s.pid, now), now),
        network_connections: connections_of(connections, s.pid),
        network_down_bps: 0,
        network_up_bps: 0,
    }
}

/// The listings of the running processes, in sample order.
pub open spec fn active_metrics(st: CollectorState, samples: Seq<ProcessSample>, connections: Map<u32, u32>, now: u64) -> Seq<ProcessMetric> {
    samples.map_values(|s: ProcessSample| active_metric(st, s, connections, now))
}

impl CollectorState {
    /// The state after one tick: new processes get a baseline, only running
    /// processes keep an observation time, and every running process's
    /// listing replaces its old one in the history.
    pub open spec fn after_collect(self, samples: Seq<ProcessSample>, connections: Map<u32, u32>, now: u64) -> CollectorState {
        let by_pid = samples_by_pid(samples);
        CollectorState {
            baselines: self.baselines.union_prefer_right(
                by_pid.map_values(|s: ProcessSample| baseline_of(self.baselines, s)),
            ),
            observed_at: by_pid.map_values(|s: ProcessSample| first_seen(self.observed_at, s.pid, now)),
            history: self.history.union_prefer_right(
                by_pid.map_values(|s: ProcessSample| active_metric(self, s, connections, now)),
            ),
        }
    }
}

/// The machine-wide sums of a tick fit in `u64`.
pub open spec fn collect_fits(samples: Seq<ProcessSample>, interfaces: Seq<InterfaceSample>) -> bool {
    &&& total(interfaces.map_values(|i: InterfaceSample| i.total_received)) <= u64::MAX
    &&& total(interfaces.map_values(|i: InterfaceSample| i.total_transmitted)) <= u64::MAX
    &&& total(samples.map_values(|s: ProcessSample| s.total_read_bytes)) <= u64::MAX
    &&& total(samples.map_values(|s: ProcessSample| s.total_written_bytes)) <= u64::MAX
}

proof fn lemma_total_step(values: Seq<u64>, i: int)
    requires
        0 <= i < values.len(),
    ensures
        total(values.take(i + 1)) == total(values.take(i)) + values[i],
{
    assert(values.take(i + 1).drop_last() =~= values.take(i));
}

proof fn lemma_total_prefix_bounded(values: Seq<u64>, i: int)
    requires
        0 <= i <= values.len(),
    ensures
        total(values.take(i)) <= total(values),
    decreases values.len() - i,
{
    if i < values.len() {
        lemma_total_step(values, i);
        lemma_total_prefix_bounded(values, i + 1);
    } else {
        assert(values.take(i) =~= values);
    }
}

proof fn lemma_samples_by_pid(samples: Seq<ProcessSample>)
    ensures
        samples_by_pid(samples).dom() == running_pids(samples),
        forall|pid: u32| #[trigger] samples_by_pid(samples).contains_key(pid) ==> samples_by_pid(samples)[pid].pid == pid,
    decreases samples.len(),
{
    if samples.len() > 0 {
        let init = samples.drop_last();
        lemma_samples_by_pid(init);
        assert(samples.map_values(|s: ProcessSample| s.pid) =~= init.map_values(|s: ProcessSample| s.pid).push(samples.last().pid));
        assert(samples_by_pid(samples).dom() =~= running_pids(samples)) by {
            init.map_values(|s: ProcessSample| s.pid).lemma_push_to_set_commute(samples.last().pid);
        }
    } else {
        assert(running_pids(samples) =~= Set::empty());
        assert(samples_by_pid(samples).dom() =~= Set::empty());
    }
}

proof fn lemma_samples_by_pid_step(samples: Seq<ProcessSample>, i: int)
    requires
        0 <= i < samples.len(),
        distinct_pids(samples),
    ensures
        samples_by_pid(samples.take(i + 1)) == samples_by_pid(samples.take(i)).insert(samples[i].pid, samples[i]),
        !samples_by_pid(samples.take(i)).contains_key(samples[i].pid),
{
    assert(samples.take(i + 1).drop_last() =~= samples.take(i));
    lemma_samples_by_pid(samples.take(i));
    if samples_by_pid(samples.take(i)).contains_key(samples[i].pid) {
        let pids = samples.take(i).map_values(|s: ProcessSample| s.pid);
        assert(pids.contains(samples[i].pid));
        let j = choose|j: int| 0 <= j < pids.len() && pids[j] == samples[i].pid;
        assert(samples[j].pid == samples[i].pid);
    }
}

/// The collector's view of a terminated process set does not depend on the
/// listings that this tick wrote for running processes.
proof fn lemma_terminated_unchanged(old_history: Map<u32, ProcessMetric>, new_history: Map<u32, ProcessMetric>, running: Set<u32>)
    requires
        forall|pid: u32| !running.contains(pid) ==> (#[trigger] new_history.contains_key(pid) <==> old_history.contains_key(pid)),
        forall|pid: u32| !running.contains(pid) && #[trigger] new_history.contains_key(pid) ==> new_history[pid] == old_history[pid],
    ensures
        terminated_metrics(new_history, running) == terminated_metrics(old_history, running),
{
    let fa = new_history.dom().filter(|pid: u32| !running.contains(pid) && has_session_activity(new_history[pid]));
    let fb = old_history.dom().filter(|pid: u32| !running.contains(pid) && has_session_activity(old_history[pid]));
    assert(fa =~= fb);
    assert forall|pid: u32| fa.contains(pid) implies as_terminated(new_history[pid]) == as_terminated(old_history[pid]) by {}
    assert(terminated_metrics(new_history, running) =~= terminated_metrics(old_history, running)) by {
        assert forall|x: ProcessMetric| terminated_metrics(new_history, running).contains(x) implies terminated_metrics(old_history, running).contains(x) by {
            let pid = choose|pid: u32| fa.contains(pid) && as_terminated(new_history[pid]) == x;
            assert(fb.contains(pid));
        }
        assert forall|x: ProcessMetric| terminated_metrics(old_history, running).contains(x) implies terminated_metrics(new_history, running).contains(x) by {
            let pid = choose|pid: u32| fb.contains(pid) && as_terminated(old_history[pid]) == x;
            assert(fa.contains(pid));
        }
    }
}

/// Remembers, across ticks, what the dashboard's process list needs: when
/// each process was first seen, its disk counters at the start of the
/// session, and its last listing.
pub struct SystemCollector {
    process_session_baselines: HashMap<u32, DiskCounters>,
    process_observed_at: HashMap<u32, u64>,
    process_history: HashMap<u32, ProcessMetric>,
}

impl View for SystemCollector {
    type V = CollectorState;

    closed spec fn view(&self) -> CollectorState {
        CollectorState {
            baselines: self.process_session_baselines@,
            observed_at: self.process_observed_at@,
            history: self.process_history@,
        }
    }
}

impl SystemCollector {
    /// A collector that has seen nothing yet.
    pub fn new() -> (c: Self)
        ensures
            c@.baselines == Map::<u32, DiskCounters>::empty(),
            c@.observed_at == Map::<u32, u64>::empty(),
            c@.history == Map::<u32, ProcessMetric>::empty(),
            c@.wf(),
    {
        SystemCollector {
            process_session_baselines: HashMap::new(),
            process_observed_at: HashMap::new(),
            process_history: HashMap::new(),
        }
    }

    /// Starts a new session: baselines and history are dropped, so every
    /// process is measured afresh from the next tick and exited processes
    /// are no longer listed.  Observation times are kept.
    pub fn reset_session_totals(&mut self)
        requires
            old(self)@.wf(),
        ensures
            final(self)@.baselines == Map::<u32, DiskCounters>::empty(),
            final(self)@.history == Map::<u32, ProcessMetric>::empty(),
            final(self)@.observed_at == old(self)@.observed_at,
            final(self)@.wf(),
    {
        self.process_session_baselines.clear();
        self.process_history.clear();
    }

    /// One tick.  `processes` is the process table just read, `interfaces`
    /// the network interfaces, `connections` the open connections per pid
    /// and `now` the monotonic clock in nanoseconds.
    pub fn collect(
        &mut self,
        processes: &Vec<ProcessSample>,
        interfaces: &Vec<InterfaceSample>,
        connections: &HashMap<u32, u32>,
        now: u64,
    ) -> (c: Collection)
        requires
            old(self)@.wf(),
            distinct_pids(processes@),
            collect_fits(processes@, interfaces@),
        ensures
            final(self)@ == old(self)@.after_collect(processes@, connections@, now),
            final(self)@.wf(),
            c.counters == (CounterSample {
                network_down: total(interfaces@.map_values(|i: InterfaceSample| i.total_received)) as u64,
                network_up: total(interfaces@.map_values(|i: InterfaceSample| i.total_transmitted)) as u64,
                disk_read: total(processes@.map_values(|s: ProcessSample| s.total_read_bytes)) as u64,
                disk_write: total(processes@.map_values(|s: ProcessSample| s.total_written_bytes)) as u64,
            }),
            c.interfaces@ == interfaces@.map_values(|i: InterfaceSample| i.name),
            ordered_by_activity(c.processes@),
            forall|i: int|
                0 <= i < c.processes@.len() ==> (#[trigger] c.processes@[i]).network_down_bps == 0
                    && c.processes@[i].network_up_bps == 0,
            exists|t: Seq<ProcessMetric>|
                #[trigger] lists_each_once(t, terminated_metrics(old(self)@.history, running_pids(processes@)))
                    && c.processes@.to_multiset() == (active_metrics(old(self)@, processes@, connections@, now)
                    + t).to_multiset(),
            forall|i: int, j: int|
                0 <= i < j < c.processes@.len() ==> {
                    let a = #[trigger] c.processes@[i];
                    let b = #[trigger] c.processes@[j];
                    ||| a.disk_read_bps + a.disk_write_bps > b.disk_read_bps + b.disk_write_bps
                    ||| a.disk_read_bps + a.disk_write_bps == b.disk_read_bps + b.disk_write_bps
                        && a.session_disk_read + a.session_disk_write >= b.session_disk_read + b.session_disk_write
                },
            forall|i: int| 0 <= i < processes@.len() ==> #[trigger] listed_running(c.processes@, old(self)@, processes@[i], connections@, now),
            forall|pid: u32|
                #![trigger old(self)@.history[pid]]
                old(self)@.history.contains_key(pid) && (forall|k: int| 0 <= k < processes@.len() ==> (#[trigger] processes@[k]).pid != pid)
                    && (old(self)@.history[pid].session_disk_read > 0 || old(self)@.history[pid].session_disk_write > 0)
                    ==> exists|j: int|
                    0 <= j < c.processes@.len() && (#[trigger] c.processes@[j]).pid == pid
                        && c.processes@[j].name == old(self)@.history[pid].name
                        && c.processes@[j].session_disk_read == old(self)@.history[pid].session_disk_read
                        && c.processes@[j].session_disk_write == old(self)@.history[pid].session_disk_write
                        && c.processes@[j].uptime_secs == old(self)@.history[pid].uptime_secs
                        && c.processes@[j].memory_bytes == 0 && c.processes@[j].disk_read_bps == 0
                        && c.processes@[j].disk_write_bps == 0 && c.processes@[j].network_connections == 0,
            forall|j: int|
                0 <= j < c.processes@.len() ==> (exists|k: int| 0 <= k < processes@.len() && (#[trigger] processes@[k]).pid == (#[trigger] c.processes@[j]).pid)
                    || (old(self)@.history.contains_key(c.processes@[j].pid)
                        && (old(self)@.history[c.processes@[j].pid].session_disk_read > 0
                        || old(self)@.history[c.processes@[j].pid].session_disk_write > 0)),
    {
        let ghost old_st = self@;
        let ghost received = interfaces@.map_values(|i: InterfaceSample| i.total_received);
        let ghost transmitted = interfaces@.map_values(|i: InterfaceSample| i.total_transmitted);
        let ghost reads = processes@.map_values(|s: ProcessSample| s.total_read_bytes);
        let ghost writes = processes@.map_values(|s: ProcessSample| s.total_written_bytes);

        let mut network_down: u64 = 0;
        let mut network_up: u64 = 0;
        let mut names: Vec<String> = Vec::new();
        let ni = interfaces.len();
        for i in 0..ni
            invariant
                ni == interfaces@.len(),
                received == interfaces@.map_values(|i: InterfaceSample| i.total_received),
                transmitted == interfaces@.map_values(|i: InterfaceSample| i.total_transmitted),
                total(received) <= u64::MAX,
                total(transmitted) <= u64::MAX,
                network_down == total(received.take(i as int)),
                network_up == total(transmitted.take(i as int)),
                names@ == interfaces@.take(i as int).map_values(|i: InterfaceSample| i.name),
        {
            proof {
                lemma_total_step(received, i as int);
                lemma_total_step(transmitted, i as int);
                lemma_total_prefix_bounded(received, i + 1);
                lemma_total_prefix_bounded(transmitted, i + 1);
            }
            network_down = network_down + interfaces[i].total_received;
            network_up = network_up + interfaces[i].total_transmitted;
            names.push(interfaces[i].name.clone());
            assert(interfaces@.take(i + 1).map_values(|i: InterfaceSample| i.name) =~= interfaces@.take(
                i as int,
            ).map_values(|i: InterfaceSample| i.name).push(interfaces@[i as int].name));
        }
        assert(received.take(ni as int) =~= received);
        assert(transmitted.take(ni as int) =~= transmitted);
        assert(interfaces@.take(ni as int) =~= interfaces@);

        let mut disk_read: u64 = 0;
        let mut disk_write: u64 = 0;
        let mut running: HashMap<u32, u64> = HashMap::new();
        let mut active: Vec<ProcessMetric> = Vec::new();
        let np = processes.len();
        for i in 0..np
            invariant
                np == processes@.len(),
                distinct_pids(processes@),
                old_st.wf(),
                reads == processes@.map_values(|s: ProcessSample| s.total_read_bytes),
                writes == processes@.map_values(|s: ProcessSample| s.total_written_bytes),
                total(reads) <= u64::MAX,
                total(writes) <= u64::MAX,
                disk_read == total(reads.take(i as int)),
                disk_write == total(writes.take(i as int)),
                self.process_observed_at@ == old_st.observed_at,
                self.process_session_baselines@ == old_st.baselines.union_prefer_right(
                    samples_by_pid(processes@.take(i as int)).map_values(|s: ProcessSample| baseline_of(old_st.baselines, s)),
                ),
                self.process_history@ == old_st.history.union_prefer_right(
                    samples_by_pid(processes@.take(i as int)).map_values(
                        |s: ProcessSample| active_metric(old_st, s, connections@, now),
                    ),
                ),
                running@ == samples_by_pid(processes@.take(i as int)).map_values(
                    |s: ProcessSample| first_seen(old_st.observed_at, s.pid, now),
                ),
                active@ == active_metrics(old_st, processes@.take(i as int), connections@, now),
        {
            let sample = &processes[i];
            let ghost by_pid = samples_by_pid(processes@.take(i as int));
            proof {
                lemma_total_step(reads, i as int);
                lemma_total_step(writes, i as int);
                lemma_total_prefix_bounded(reads, i + 1);
                lemma_total_prefix_bounded(writes, i + 1);
                lemma_samples_by_pid_step(processes@, i as int);
            }
            disk_read = disk_read + sample.total_read_bytes;
            disk_write = disk_write + sample.total_written_bytes;

            let first: u64 = match self.process_observed_at.get(&sample.pid) {
                Some(t) => *t,
                None => now,
            };
            running.insert(sample.pid, first);

            let baseline: DiskCounters = match self.process_session_baselines.get(&sample.pid) {
                Some(b) => *b,
                None => {
                    let b = DiskCounters { read: sample.total_read_bytes, write: sample.total_written_bytes };
                    self.process_session_baselines.insert(sample.pid, b);
                    b
                },
            };
            assert(baseline == baseline_of(old_st.baselines, *sample));

            let owned: u32 = match connections.get(&sample.pid) {
                Some(n) => *n,
                None => 0,
            };
            let metric = ProcessMetric {
                pid: sample.pid,
                name: sample.name.clone(),
                memory_bytes: sample.memory_bytes,
                disk_read_bps: sample.read_bytes,
                disk_write_bps: sample.written_bytes,
                session_disk_read: process_session_bytes(sample.total_read_bytes, baseline.read),
                session_disk_write: process_session_bytes(sample.total_written_bytes, baseline.write),
                uptime_secs: observed_duration_secs(first, now),
                network_connections: owned,
                network_down_bps: 0,
                network_up_bps: 0,
            };
            assert(metric == active_metric(old_st, *sample, connections@, now));
            self.process_history.insert(sample.pid, metric.clone());
            active.push(metric);
            proof {
                let next = samples_by_pid(processes@.take(i + 1));
                assert(next == by_pid.insert(sample.pid, *sample));
                assert(self.process_session_baselines@ =~= old_st.baselines.union_prefer_right(
                    next.map_values(|s: ProcessSample| baseline_of(old_st.baselines, s)),
                ));
                assert(self.process_history@ =~= old_st.history.union_prefer_right(
                    next.map_values(|s: ProcessSample| active_metric(old_st, s, connections@, now)),
                ));
                assert(running@ =~= next.map_values(|s: ProcessSample| first_seen(old_st.observed_at, s.pid, now)));
                assert(active@ =~= active_metrics(old_st, processes@.take(i + 1), connections@, now));
            }
        }
        assert(reads.take(np as int) =~= reads);
        assert(writes.take(np as int) =~= writes);
        assert(processes@.take(np as int) =~= processes@);
        proof {
            lemma_samples_by_pid(processes@);
        }
        self.process_observed_at = running;

        let ghost new_history = self.process_history@;
        proof {
            assert forall|pid: u32| #[trigger] new_history.contains_key(pid) implies new_history[pid].pid == pid by {
                if samples_by_pid(processes@).contains_key(pid) {
                } else {
                    assert(old_st.history.contains_key(pid));
                }
            }
            lemma_terminated_unchanged(old_st.history, new_history, running_pids(processes@));
        }
        let mut inactive = terminated_processes(&self.process_history, &self.process_observed_at);
        assert(self.process_observed_at@.dom() == running_pids(processes@));
        let ghost t = inactive@;
        let mut listed = active;
        listed.append(&mut inactive);
        let ghost unsorted = listed@;
        sort_by_activity(&mut listed);
        assert(lists_each_once(t, terminated_metrics(old_st.history, running_pids(processes@))));
        proof {
            lemma_listing_facts(old_st, processes@, connections@, now, t, unsorted, listed@);
            lemma_running_processes_listed(old_st, processes@, connections@, now, t, unsorted, listed@);
        }
        Collection {
            counters: CounterSample::new(network_down, network_up, disk_read, disk_write),
            processes: listed,
            interfaces: names,
        }
    }
}

proof fn lemma_samples_by_pid_value(samples: Seq<ProcessSample>, i: int)
    requires
        distinct_pids(samples),
        0 <= i < samples.len(),
    ensures
        samples_by_pid(samples).contains_key(samples[i].pid),
        samples_by_pid(samples)[samples[i].pid] == samples[i],
    decreases samples.len(),
{
    let last = samples.len() - 1;
    if i < last {
        let init = samples.drop_last();
        assert(init[i] == samples[i]);
        assert(distinct_pids(init));
        lemma_samples_by_pid_value(init, i);
        assert(samples[last].pid != samples[i].pid);
    }
}

/// A process's session totals count from the tick that first saw it in
/// the session: on that tick they are zero, and on a later tick they are
/// its lifetime counters minus those it had then.
pub proof fn lemma_session_counts_from_first_observation(
    st: CollectorState,
    first: Seq<ProcessSample>,
    second: Seq<ProcessSample>,
    connections: Map<u32, u32>,
    now: u64,
    later: u64,
    i: int,
    j: int,
)
    requires
        distinct_pids(first),
        distinct_pids(second),
        0 <= i < first.len(),
        0 <= j < second.len(),
        first[i].pid == second[j].pid,
        !st.baselines.contains_key(first[i].pid),
    ensures
        active_metric(st, first[i], connections, now).session_disk_read == 0,
        active_metric(st, first[i], connections, now).session_disk_write == 0,
        active_metric(st.after_collect(first, connections, now), second[j], connections, later).session_disk_read
            == session_bytes(second[j].total_read_bytes, first[i].total_read_bytes),
        active_metric(st.after_collect(first, connections, now), second[j], connections, later).session_disk_write
            == session_bytes(second[j].total_written_bytes, first[i].total_written_bytes),
{
    lemma_samples_by_pid_value(first, i);
}

/// A process's uptime counts from the tick that first saw it: zero on that
/// tick, the whole seconds since then on a later one.  A process missing
/// from a tick is forgotten, and counts afresh when it is seen again.
pub proof fn lemma_uptime_counts_from_first_observation(
    st: CollectorState,
    first: Seq<ProcessSample>,
    second: Seq<ProcessSample>,
    connections: Map<u32, u32>,
    now: u64,
    later: u64,
    i: int,
    j: int,
)
    requires
        distinct_pids(first),
        distinct_pids(second),
        0 <= i < first.len(),
        0 <= j < second.len(),
        first[i].pid == second[j].pid,
        !st.observed_at.contains_key(first[i].pid),
    ensures
        active_metric(st, first[i], connections, now).uptime_secs == 0,
        active_metric(st.after_collect(first, connections, now), second[j], connections, later).uptime_secs
            == whole_seconds_between(now, later),
        forall|pid: u32| !running_pids(second).contains(pid) ==> !#[trigger] st.after_collect(first, connections, now).after_collect(
            second,
            connections,
            later,
        ).observed_at.contains_key(pid),
{
    lemma_samples_by_pid_value(first, i);
    lemma_samples_by_pid(second);
}

/// A process that exits after moving disk bytes during the session is still
/// listed, as exited, with its last session totals, until the session is
/// reset.
pub proof fn lemma_exited_process_stays_listed(
    st: CollectorState,
    first: Seq<ProcessSample>,
    second: Seq<ProcessSample>,
    connections: Map<u32, u32>,
    now: u64,
    i: int,
)
    requires
        distinct_pids(first),
        0 <= i < first.len(),
        !running_pids(second).contains(first[i].pid),
        has_session_activity(active_metric(st, first[i], connections, now)),
    ensures
        terminated_metrics(st.after_collect(first, connections, now).history, running_pids(second)).contains(
            as_terminated(active_metric(st, first[i], connections, now)),
        ),
{
    lemma_samples_by_pid_value(first, i);
    let history = st.after_collect(first, connections, now).history;
    let pid = first[i].pid;
    assert(history.contains_key(pid));
    assert(history[pid] == active_metric(st, first[i], connections, now));
    assert(history.dom().filter(|p: u32| !running_pids(second).contains(p) && has_session_activity(history[p])).contains(pid));
}

/// Right after a session reset no exited process is listed.
pub proof fn lemma_reset_forgets_exited_processes(running: Set<u32>)
    ensures
        terminated_metrics(Map::<u32, ProcessMetric>::empty(), running) == Set::<ProcessMetric>::empty(),
{
    assert(terminated_metrics(Map::<u32, ProcessMetric>::empty(), running) =~= Set::<ProcessMetric>::empty());
}

/// No two listings are of the same process.
pub open spec fn pids_distinct(listing: Seq<ProcessMetric>) -> bool {
    forall|i: int, j: int| 0 <= i < j < listing.len() ==> listing[i].pid != listing[j].pid
}

/// Each process, running or exited, appears at most once in what a tick
/// lists: any arrangement of the running processes' listings and of the
/// exited processes', each once, names every pid at most once.
pub proof fn lemma_each_process_listed_once(
    st: CollectorState,
    samples: Seq<ProcessSample>,
    connections: Map<u32, u32>,
    now: u64,
    exited: Seq<ProcessMetric>,
    listing: Seq<ProcessMetric>,
)
    requires
        st.wf(),
        distinct_pids(samples),
        lists_each_once(exited, terminated_metrics(st.history, running_pids(samples))),
        listing.to_multiset() == (active_metrics(st, samples, connections, now) + exited).to_multiset(),
    ensures
        pids_distinct(listing),
{
    broadcast use {
        vstd::seq_lib::group_to_multiset_ensures,
        vstd::multiset::group_multiset_axioms,
    };

    let active = active_metrics(st, samples, connections, now);
    let all = active + exited;
    let running = running_pids(samples);
    let history = st.history;
    assert forall|k: int| 0 <= k < exited.len() implies !running.contains(#[trigger] exited[k].pid)
        && exited[k] == as_terminated(history[exited[k].pid]) by {
        assert(exited.to_set().contains(exited[k]));
        let pid = choose|pid: u32|
            history.dom().filter(|p: u32| !running.contains(p) && has_session_activity(history[p])).contains(pid)
                && as_terminated(history[pid]) == exited[k];
        assert(history[pid].pid == pid);
    }
    assert forall|k: int| 0 <= k < active.len() implies running.contains(#[trigger] active[k].pid) by {
        assert(samples.map_values(|s: ProcessSample| s.pid)[k] == samples[k].pid);
    }
    assert(pids_distinct(all)) by {
        assert forall|a: int, b: int| 0 <= a < b < all.len() implies all[a].pid != all[b].pid by {
            if b < active.len() {
                assert(all[a] == active[a] && all[b] == active[b]);
            } else if a < active.len() {
                assert(all[a] == active[a] && all[b] == exited[b - active.len()]);
            } else {
                let x = exited[a - active.len()];
                let y = exited[b - active.len()];
                assert(all[a] == x && all[b] == y);
                if x.pid == y.pid {
                    assert(x == y);
                }
            }
        }
    }
    assert(all.no_duplicates()) by {
        assert forall|a: int, b: int| 0 <= a < all.len() && 0 <= b < all.len() && a != b implies all[a] != all[b] by {
            if a < b {
                assert(all[a].pid != all[b].pid);
            } else {
                assert(all[b].pid != all[a].pid);
            }
        }
    }
    all.lemma_multiset_has_no_duplicates();
    listing.lemma_multiset_has_no_duplicates_conv();
    assert forall|i: int, j: int| 0 <= i < j < listing.len() implies listing[i].pid != listing[j].pid by {
        assert(listing[i] != listing[j]);
        vstd::seq_lib::to_multiset_contains(listing, listing[i]);
        vstd::seq_lib::to_multiset_contains(listing, listing[j]);
        vstd::seq_lib::to_multiset_contains(all, listing[i]);
        vstd::seq_lib::to_multiset_contains(all, listing[j]);
        let a = choose|a: int| 0 <= a < all.len() && all[a] == listing[i];
        let b = choose|b: int| 0 <= b < all.len() && all[b] == listing[j];
        if a < b {
            assert(all[a].pid != all[b].pid);
        } else {
            assert(all[b].pid != all[a].pid);
        }
    }
}

/// Until the session is reset, a baseline once recorded never changes, so
/// a process's session bytes always count from the tick that first saw it
/// in the session, however many ticks follow.
pub proof fn lemma_baseline_kept(
    st: CollectorState,
    samples: Seq<ProcessSample>,
    connections: Map<u32, u32>,
    now: u64,
    pid: u32,
)
    requires
        st.baselines.contains_key(pid),
    ensures
        st.after_collect(samples, connections, now).baselines.contains_key(pid),
        st.after_collect(samples, connections, now).baselines[pid] == st.baselines[pid],
{
    lemma_samples_by_pid(samples);
}

/// A running process's session bytes are its lifetime counters minus its
/// baseline, and after the tick its baseline is recorded.
pub proof fn lemma_session_bytes_from_baseline(
    st: CollectorState,
    samples: Seq<ProcessSample>,
    connections: Map<u32, u32>,
    now: u64,
    i: int,
)
    requires
        distinct_pids(samples),
        0 <= i < samples.len(),
    ensures
        st.after_collect(samples, connections, now).baselines.contains_key(samples[i].pid),
        active_metric(st, samples[i], connections, now).session_disk_read == session_bytes(
            samples[i].total_read_bytes,
            st.after_collect(samples, connections, now).baselines[samples[i].pid].read,
        ),
        active_metric(st, samples[i], connections, now).session_disk_write == session_bytes(
            samples[i].total_written_bytes,
            st.after_collect(samples, connections, now).baselines[samples[i].pid].write,
        ),
{
    lemma_samples_by_pid_value(samples, i);
}

/// `listing` shows the running process of sample `s` as the tick starting
/// from state `st` must: with the sample's own name, memory, read rate and
/// write rate; with the open connections counted for its pid (none if
/// absent); with the bytes moved since the baseline recorded for it (or
/// none, on the tick that first sees it in the session), never negative;
/// and with the whole seconds since it was first observed (now, if it is
/// new).
pub open spec fn listed_running(
    listing: Seq<ProcessMetric>,
    st: CollectorState,
    s: ProcessSample,
    connections: Map<u32, u32>,
    now: u64,
) -> bool {
    let base_read: int = if st.baselines.contains_key(s.pid) { st.baselines[s.pid].read as int } else { s.total_read_bytes as int };
    let base_write: int = if st.baselines.contains_key(s.pid) { st.baselines[s.pid].write as int } else { s.total_written_bytes as int };
    let since: int = if st.observed_at.contains_key(s.pid) { st.observed_at[s.pid] as int } else { now as int };
    exists|j: int|
        0 <= j < listing.len() && (#[trigger] listing[j]).pid == s.pid && {
            let m = listing[j];
            &&& m.name == s.name
            &&& m.memory_bytes == s.memory_bytes
            &&& m.disk_read_bps == s.read_bytes
            &&& m.disk_write_bps == s.written_bytes
            &&& m.network_connections == (if connections.contains_key(s.pid) { connections[s.pid] } else { 0 })
            &&& s.total_read_bytes >= base_read ==> m.session_disk_read + base_read == s.total_read_bytes
            &&& s.total_read_bytes < base_read ==> m.session_disk_read == 0
            &&& s.total_written_bytes >= base_write ==> m.session_disk_write + base_write == s.total_written_bytes
            &&& s.total_written_bytes < base_write ==> m.session_disk_write == 0
            &&& now >= since ==> m.uptime_secs * 1_000_000_000 <= now - since < (m.uptime_secs + 1) * 1_000_000_000
            &&& now < since ==> m.uptime_secs == 0
        }
}

/// The readings handed to one `collect`.
pub struct CollectTick {
    pub samples: Seq<ProcessSample>,
    pub connections: Map<u32, u32>,
    pub now: u64,
}

impl CollectorState {
    /// The state after a run of ticks, in order.
    pub open spec fn after_ticks(self, ticks: Seq<CollectTick>) -> CollectorState
        decreases ticks.len(),
    {
        if ticks.len() == 0 {
            self
        } else {
            let t = ticks.last();
            self.after_ticks(ticks.drop_last()).after_collect(t.samples, t.connections, t.now)
        }
    }
}

/// No tick of the run lists a pid twice.
pub open spec fn ticks_distinct(ticks: Seq<CollectTick>) -> bool {
    forall|k: int| 0 <= k < ticks.len() ==> distinct_pids(#[trigger] ticks[k].samples)
}

/// Some tick of the run saw `pid` running.
pub open spec fn observed_in_run(ticks: Seq<CollectTick>, pid: u32) -> bool {
    exists|k: int| 0 <= k < ticks.len() && running_pids(#[trigger] ticks[k].samples).contains(pid)
}

/// The lifetime disk counters `pid` had at the first tick of the run that
/// saw it.
pub open spec fn first_baseline(ticks: Seq<CollectTick>, pid: u32) -> DiskCounters
    decreases ticks.len(),
{
    if ticks.len() == 0 {
        DiskCounters { read: 0, write: 0 }
    } else if observed_in_run(ticks.drop_last(), pid) {
        first_baseline(ticks.drop_last(), pid)
    } else {
        let s = samples_by_pid(ticks.last().samples)[pid];
        DiskCounters { read: s.total_read_bytes, write: s.total_written_bytes }
    }
}

/// The last listing of `pid`: the one the latest tick of the run that saw
/// it produced, or the one held before the run if no tick saw it.
pub open spec fn last_listing(st: CollectorState, ticks: Seq<CollectTick>, pid: u32) -> ProcessMetric
    decreases ticks.len(),
{
    if ticks.len() == 0 {
        st.history[pid]
    } else {
        let t = ticks.last();
        if running_pids(t.samples).contains(pid) {
            active_metric(st.after_ticks(ticks.drop_last()), samples_by_pid(t.samples)[pid], t.connections, t.now)
        } else {
            last_listing(st, ticks.drop_last(), pid)
        }
    }
}

/// When `pid`'s current unbroken stretch of being seen began: the time of
/// the first tick of the longest stretch of ticks ending with the last one
/// that all saw it, or the time recorded before the run if the stretch
/// reaches back to its start.
pub open spec fn run_start(st: CollectorState, ticks: Seq<CollectTick>, pid: u32) -> u64
    decreases ticks.len(),
{
    if ticks.len() == 0 {
        0
    } else {
        let t = ticks.last();
        let prev = ticks.drop_last();
        if prev.len() == 0 {
            first_seen(st.observed_at, pid, t.now)
        } else if running_pids(prev.last().samples).contains(pid) {
            run_start(st, prev, pid)
        } else {
            t.now
        }
    }
}

proof fn lemma_observed_in_run_step(ticks: Seq<CollectTick>, pid: u32)
    requires
        ticks.len() > 0,
    ensures
        observed_in_run(ticks, pid) <==> observed_in_run(ticks.drop_last(), pid) || running_pids(ticks.last().samples).contains(pid),
{
    let prev = ticks.drop_last();
    if observed_in_run(ticks, pid) && !running_pids(ticks.last().samples).contains(pid) {
        let k = choose|k: int| 0 <= k < ticks.len() && running_pids(#[trigger] ticks[k].samples).contains(pid);
        assert(prev[k] == ticks[k]);
    }
    if observed_in_run(prev, pid) {
        let k = choose|k: int| 0 <= k < prev.len() && running_pids(#[trigger] prev[k].samples).contains(pid);
        assert(prev[k] == ticks[k]);
    }
    if running_pids(ticks.last().samples).contains(pid) {
        assert(ticks[ticks.len() - 1] == ticks.last());
    }
}

proof fn lemma_ticks_distinct_prefix(ticks: Seq<CollectTick>)
    requires
        ticks.len() > 0,
        ticks_distinct(ticks),
    ensures
        ticks_distinct(ticks.drop_last()),
        distinct_pids(ticks.last().samples),
{
    assert forall|k: int| 0 <= k < ticks.drop_last().len() implies distinct_pids(#[trigger] ticks.drop_last()[k].samples) by {
        assert(ticks.drop_last()[k] == ticks[k]);
    }
    assert(ticks[ticks.len() - 1] == ticks.last());
}

/// One tick keeps a state whose history files every listing under its own
/// pid that way.
pub proof fn lemma_after_collect_wf(st: CollectorState, samples: Seq<ProcessSample>, connections: Map<u32, u32>, now: u64)
    requires
        st.wf(),
    ensures
        st.after_collect(samples, connections, now).wf(),
{
    lemma_samples_by_pid(samples);
}

proof fn lemma_after_ticks_wf(st: CollectorState, ticks: Seq<CollectTick>)
    requires
        st.wf(),
    ensures
        st.after_ticks(ticks).wf(),
    decreases ticks.len(),
{
    if ticks.len() > 0 {
        lemma_after_ticks_wf(st, ticks.drop_last());
        let t = ticks.last();
        lemma_after_collect_wf(st.after_ticks(ticks.drop_last()), t.samples, t.connections, t.now);
    }
}

/// Over a run of ticks, a pid has a baseline exactly when some tick saw it
/// (or it had one before), and a baseline recorded during the run holds
/// the counters of the first tick that saw the pid.
proof fn lemma_baseline_over_run(st: CollectorState, ticks: Seq<CollectTick>, pid: u32)
    requires
        !st.baselines.contains_key(pid),
    ensures
        st.after_ticks(ticks).baselines.contains_key(pid) == observed_in_run(ticks, pid),
        observed_in_run(ticks, pid) ==> st.after_ticks(ticks).baselines[pid] == first_baseline(ticks, pid),
    decreases ticks.len(),
{
    if ticks.len() > 0 {
        let prev = ticks.drop_last();
        let t = ticks.last();
        lemma_baseline_over_run(st, prev, pid);
        lemma_observed_in_run_step(ticks, pid);
        lemma_samples_by_pid(t.samples);
    }
}

/// Over a run of ticks, the history holds a listing of `pid` exactly when
/// it held one before or some tick saw it, and that listing is the last one.
proof fn lemma_history_over_run(st: CollectorState, ticks: Seq<CollectTick>, pid: u32)
    ensures
        st.after_ticks(ticks).history.contains_key(pid) == (st.history.contains_key(pid) || observed_in_run(ticks, pid)),
        st.after_ticks(ticks).history.contains_key(pid) ==> st.after_ticks(ticks).history[pid] == last_listing(st, ticks, pid),
    decreases ticks.len(),
{
    if ticks.len() > 0 {
        let prev = ticks.drop_last();
        let t = ticks.last();
        lemma_history_over_run(st, prev, pid);
        lemma_observed_in_run_step(ticks, pid);
        lemma_samples_by_pid(t.samples);
    }
}

/// After a non-empty run, the processes with an observation time are those
/// of the last tick, and each one's time is the start of its stretch.
proof fn lemma_observed_at_over_run(st: CollectorState, ticks: Seq<CollectTick>, pid: u32)
    requires
        ticks.len() > 0,
    ensures
        st.after_ticks(ticks).observed_at.dom() == running_pids(ticks.last().samples),
        running_pids(ticks.last().samples).contains(pid) ==> st.after_ticks(ticks).observed_at[pid] == run_start(st, ticks, pid),
    decreases ticks.len(),
{
    let prev = ticks.drop_last();
    let t = ticks.last();
    lemma_samples_by_pid(t.samples);
    if prev.len() > 0 {
        lemma_observed_at_over_run(st, prev, pid);
    } else {
        assert(st.after_ticks(prev) == st);
    }
}

/// A process's session bytes count from the first tick since the session
/// began that saw it, however many ticks followed, seen or not: they are
/// its lifetime counters now minus those it had then (zero on that first
/// tick).
pub proof fn lemma_session_bytes_over_run(st: CollectorState, ticks: Seq<CollectTick>, i: int)
    requires
        ticks.len() > 0,
        ticks_distinct(ticks),
        0 <= i < ticks.last().samples.len(),
        !st.baselines.contains_key(ticks.last().samples[i].pid),
    ensures
        ({
            let t = ticks.last();
            let s = t.samples[i];
            let m = active_metric(st.after_ticks(ticks.drop_last()), s, t.connections, t.now);
            &&& m.session_disk_read == session_bytes(s.total_read_bytes, first_baseline(ticks, s.pid).read)
            &&& m.session_disk_write == session_bytes(s.total_written_bytes, first_baseline(ticks, s.pid).write)
            &&& !observed_in_run(ticks.drop_last(), s.pid) ==> m.session_disk_read == 0 && m.session_disk_write == 0
        }),
{
    let t = ticks.last();
    let s = t.samples[i];
    let prev = ticks.drop_last();
    lemma_ticks_distinct_prefix(ticks);
    lemma_baseline_over_run(st, prev, s.pid);
    lemma_samples_by_pid_value(t.samples, i);
}

/// A process that is not running now is listed as exited exactly when its
/// last listing, from the latest tick since the session began that saw it,
/// had session activity; it is then listed as that listing with memory,
/// rates and connections zeroed.  A process never seen since the session
/// began is not listed.
pub proof fn lemma_exited_listing_over_run(st: CollectorState, ticks: Seq<CollectTick>, running: Set<u32>, pid: u32)
    requires
        st.wf(),
        !running.contains(pid),
    ensures
        ({
            let history = st.after_ticks(ticks).history;
            let exited = terminated_metrics(history, running);
            let h = last_listing(st, ticks, pid);
            &&& (st.history.contains_key(pid) || observed_in_run(ticks, pid)) ==> {
                &&& exited.contains(as_terminated(h)) == has_session_activity(h)
                &&& forall|m: ProcessMetric| #[trigger] exited.contains(m) && m.pid == pid ==> m == as_terminated(h)
            }
            &&& !(st.history.contains_key(pid) || observed_in_run(ticks, pid)) ==> forall|m: ProcessMetric|
                #[trigger] exited.contains(m) ==> m.pid != pid
        }),
{
    let history = st.after_ticks(ticks).history;
    let exited = terminated_metrics(history, running);
    let h = last_listing(st, ticks, pid);
    let keys = history.dom().filter(|p: u32| !running.contains(p) && has_session_activity(history[p]));
    lemma_history_over_run(st, ticks, pid);
    lemma_after_ticks_wf(st, ticks);
    assert forall|m: ProcessMetric| #[trigger] exited.contains(m) && m.pid == pid implies (
        history.contains_key(pid) && m == as_terminated(history[pid]) && has_session_activity(history[pid])) by {
        let p = choose|p: u32| keys.contains(p) && as_terminated(history[p]) == m;
        assert(history[p].pid == p);
    }
    if history.contains_key(pid) {
        if has_session_activity(h) {
            assert(keys.contains(pid));
        }
    }
}

/// A process's uptime counts from the start of its current unbroken
/// stretch of being seen, which may reach back before a session reset (a
/// reset keeps observation times).
pub proof fn lemma_uptime_over_run(st: CollectorState, ticks: Seq<CollectTick>, i: int)
    requires
        ticks.len() > 0,
        ticks_distinct(ticks),
        0 <= i < ticks.last().samples.len(),
    ensures
        ({
            let t = ticks.last();
            let s = t.samples[i];
            active_metric(st.after_ticks(ticks.drop_last()), s, t.connections, t.now).uptime_secs
                == whole_seconds_between(run_start(st, ticks, s.pid), t.now)
        }),
{
    let t = ticks.last();
    let s = t.samples[i];
    let prev = ticks.drop_last();
    if prev.len() > 0 {
        lemma_observed_at_over_run(st, prev, s.pid);
    } else {
        assert(st.after_ticks(prev) == st);
    }
}

/// On the first tick after a session reset every running process shows
/// zero session bytes, no exited process is listed, and uptime still counts
/// from the recorded observation times.
pub proof fn lemma_first_tick_after_reset(st: CollectorState, samples: Seq<ProcessSample>, connections: Map<u32, u32>, now: u64, i: int)
    requires
        st.baselines == Map::<u32, DiskCounters>::empty(),
        st.history == Map::<u32, ProcessMetric>::empty(),
        0 <= i < samples.len(),
    ensures
        active_metric(st, samples[i], connections, now).session_disk_read == 0,
        active_metric(st, samples[i], connections, now).session_disk_write == 0,
        active_metric(st, samples[i], connections, now).uptime_secs == whole_seconds_between(
            first_seen(st.observed_at, samples[i].pid, now),
            now,
        ),
        terminated_metrics(st.history, running_pids(samples)) == Set::<ProcessMetric>::empty(),
{
    lemma_reset_forgets_exited_processes(running_pids(samples));
}


/// What one tick lists, field by field, given that the listing is an
/// arrangement of the running processes' listings and the exited ones'.
proof fn lemma_listing_facts(
    st: CollectorState,
    samples: Seq<ProcessSample>,
    connections: Map<u32, u32>,
    now: u64,
    t: Seq<ProcessMetric>,
    unsorted: Seq<ProcessMetric>,
    listed: Seq<ProcessMetric>,
)
    requires
        st.wf(),
        unsorted == active_metrics(st, samples, connections, now) + t,
        lists_each_once(t, terminated_metrics(st.history, running_pids(samples))),
        listed.to_multiset() == unsorted.to_multiset(),
        ordered_by_activity(listed),
    ensures
        forall|i: int|
            0 <= i < listed.len() ==> (#[trigger] listed[i]).network_down_bps == 0 && listed[i].network_up_bps == 0,
        forall|i: int, j: int|
            0 <= i < j < listed.len() ==> {
                let a = #[trigger] listed[i];
                let b = #[trigger] listed[j];
                ||| a.disk_read_bps + a.disk_write_bps > b.disk_read_bps + b.disk_write_bps
                ||| a.disk_read_bps + a.disk_write_bps == b.disk_read_bps + b.disk_write_bps
                    && a.session_disk_read + a.session_disk_write >= b.session_disk_read + b.session_disk_write
            },
        forall|pid: u32|
            #![trigger st.history[pid]]
            st.history.contains_key(pid) && (forall|k: int| 0 <= k < samples.len() ==> (#[trigger] samples[k]).pid != pid)
                && (st.history[pid].session_disk_read > 0 || st.history[pid].session_disk_write > 0)
                ==> exists|j: int|
                0 <= j < listed.len() && (#[trigger] listed[j]).pid == pid
                    && listed[j].name == st.history[pid].name
                    && listed[j].session_disk_read == st.history[pid].session_disk_read
                    && listed[j].session_disk_write == st.history[pid].session_disk_write
                    && listed[j].uptime_secs == st.history[pid].uptime_secs
                    && listed[j].memory_bytes == 0 && listed[j].disk_read_bps == 0
                    && listed[j].disk_write_bps == 0 && listed[j].network_connections == 0,
        forall|j: int|
            0 <= j < listed.len() ==> (exists|k: int| 0 <= k < samples.len() && (#[trigger] samples[k]).pid == (#[trigger] listed[j]).pid)
                || (st.history.contains_key(listed[j].pid)
                    && (st.history[listed[j].pid].session_disk_read > 0
                    || st.history[listed[j].pid].session_disk_write > 0)),
{
        broadcast use vstd::seq_lib::group_to_multiset_ensures;

        let active_part = active_metrics(st, samples, connections, now);
        assert(unsorted =~= active_part + t);
        assert forall|i: int| 0 <= i < listed.len() implies (#[trigger] listed[i]).network_down_bps == 0
            && listed[i].network_up_bps == 0 by {
            let x = listed[i];
            vstd::seq_lib::to_multiset_contains(listed, x);
            vstd::seq_lib::to_multiset_contains(unsorted, x);
            let k = choose|k: int| 0 <= k < unsorted.len() && unsorted[k] == x;
            if k < active_part.len() {
                assert(x == active_part[k]);
            } else {
                let y = t[k - active_part.len()];
                assert(x == y);
                assert(t.to_set().contains(y));
                let terminated = terminated_metrics(st.history, running_pids(samples));
                assert(terminated.contains(y));
            }
        }
        lemma_ordered_by_activity_busiest_first(listed);
        let running = running_pids(samples);
        let terminated = terminated_metrics(st.history, running);
        // Every exited process with session activity is listed as exited.
        assert forall|pid: u32|
            #![trigger st.history[pid]]
            st.history.contains_key(pid) && (forall|k: int| 0 <= k < samples.len() ==> (#[trigger] samples[k]).pid != pid)
                && (st.history[pid].session_disk_read > 0 || st.history[pid].session_disk_write > 0)
            implies exists|j: int|
                0 <= j < listed.len() && (#[trigger] listed[j]).pid == pid
                    && listed[j].name == st.history[pid].name
                    && listed[j].session_disk_read == st.history[pid].session_disk_read
                    && listed[j].session_disk_write == st.history[pid].session_disk_write
                    && listed[j].uptime_secs == st.history[pid].uptime_secs
                    && listed[j].memory_bytes == 0 && listed[j].disk_read_bps == 0
                    && listed[j].disk_write_bps == 0 && listed[j].network_connections == 0 by {
            let x = as_terminated(st.history[pid]);
            if running.contains(pid) {
                let pids = samples.map_values(|s: ProcessSample| s.pid);
                let k = choose|k: int| 0 <= k < pids.len() && #[trigger] pids[k] == pid;
                assert(samples[k].pid == pid);
            }
            assert(st.history.dom().filter(|p: u32| !running.contains(p) && has_session_activity(st.history[p])).contains(pid));
            assert(terminated.contains(x));
            assert(t.to_set().contains(x));
            let k = choose|k: int| 0 <= k < t.len() && t[k] == x;
            assert(unsorted[active_part.len() + k] == x);
            vstd::seq_lib::to_multiset_contains(unsorted, x);
            vstd::seq_lib::to_multiset_contains(listed, x);
            let j = choose|j: int| 0 <= j < listed.len() && listed[j] == x;
            assert(listed[j] == x);
            assert(st.history[pid].pid == pid);
        }
        // Nothing else is listed.
        assert forall|j: int| 0 <= j < listed.len() implies (exists|k: int| 0 <= k < samples.len()
            && (#[trigger] samples[k]).pid == (#[trigger] listed[j]).pid)
            || (st.history.contains_key(listed[j].pid)
                && (st.history[listed[j].pid].session_disk_read > 0
                || st.history[listed[j].pid].session_disk_write > 0)) by {
            let x = listed[j];
            vstd::seq_lib::to_multiset_contains(listed, x);
            vstd::seq_lib::to_multiset_contains(unsorted, x);
            let k = choose|k: int| 0 <= k < unsorted.len() && unsorted[k] == x;
            if k < active_part.len() {
                assert(x == active_part[k]);
                assert(samples[k].pid == x.pid);
            } else {
                let y = t[k - active_part.len()];
                assert(x == y);
                assert(t.to_set().contains(y));
                assert(terminated.contains(y));
                let p = choose|p: u32|
                    st.history.dom().filter(|q: u32| !running.contains(q) && has_session_activity(st.history[q])).contains(p)
                        && as_terminated(st.history[p]) == y;
                assert(st.history[p].pid == p);
            }
        }
}


/// Every running process appears in what a tick lists, as
/// `listed_running` describes it.
proof fn lemma_running_processes_listed(
    st: CollectorState,
    samples: Seq<ProcessSample>,
    connections: Map<u32, u32>,
    now: u64,
    t: Seq<ProcessMetric>,
    unsorted: Seq<ProcessMetric>,
    listed: Seq<ProcessMetric>,
)
    requires
        unsorted == active_metrics(st, samples, connections, now) + t,
        listed.to_multiset() == unsorted.to_multiset(),
    ensures
        forall|i: int|
            0 <= i < samples.len() ==> #[trigger] listed_running(listed, st, samples[i], connections, now),
{
    broadcast use vstd::seq_lib::group_to_multiset_ensures;

    let active_part = active_metrics(st, samples, connections, now);
    assert forall|i: int| 0 <= i < samples.len() implies #[trigger] listed_running(listed, st, samples[i], connections, now) by {
        let x = active_part[i];
        assert(unsorted[i] == x);
        vstd::seq_lib::to_multiset_contains(unsorted, x);
        vstd::seq_lib::to_multiset_contains(listed, x);
        let j = choose|j: int| 0 <= j < listed.len() && listed[j] == x;
        assert(listed[j] == x);
        assert(x.pid == samples[i].pid);
        lemma_whole_seconds(first_seen(st.observed_at, samples[i].pid, now), now);
    }
}

} // verus!
