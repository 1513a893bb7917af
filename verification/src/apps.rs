//! Grouping live process records into logical applications by their
//! grouping key, and folding per-process counters into per-application
//! summaries on every refresh.
use vstd::prelude::*;

use crate::rates::Ratio;

verus! {

/// One OS process as of the last enumeration: identity plus its raw
/// resource counters.
pub struct ProcessRecord {
    pub pid: i32,
    pub parent_pid: i32,
    /// Executable / command identity.
    pub name: String,
    /// Grouping key; `None` is the fallback bucket of system processes
    /// that cannot be attributed to a recognizable application.
    pub app_id: Option<String>,
    /// Cumulative cpu ticks consumed, a monotonically increasing counter.
    pub cpu_time: u64,
    /// Resident memory in bytes, an instantaneous gauge.
    pub memory: u64,
}

/// A logical application: a grouping key and the processes owning it.
pub struct App {
    /// The grouping key; `None` is the fallback bucket. It doubles as the
    /// externally visible identifier that stays stable across refreshes.
    pub id: Option<String>,
    pub display_name: String,
    /// The owned process ids. Ownership is exclusive: a process belongs
    /// to exactly one application.
    pub processes: Vec<i32>,
}

/// The key a record or application carries, at the specification level.
pub open spec fn opt_key_view(k: Option<String>) -> Option<Seq<char>> {
    match k {
        Some(s) => Some(s@),
        None => None,
    }
}

impl ProcessRecord {
    pub open spec fn key(self) -> Option<Seq<char>> {
        opt_key_view(self.app_id)
    }
}

impl App {
    pub open spec fn key(self) -> Option<Seq<char>> {
        opt_key_view(self.id)
    }
}

/// The pids of exactly the records carrying the given key, in order.
pub open spec fn pids_with_key(ps: Seq<ProcessRecord>, key: Option<Seq<char>>) -> Seq<i32>
    decreases ps.len(),
{
    if ps.len() == 0 {
        Seq::empty()
    } else {
        pids_with_key(ps.drop_last(), key) + if ps.last().key() == key {
            seq![ps.last().pid]
        } else {
            Seq::empty()
        }
    }
}

/// What it means for `apps` to be the grouping of `ps`: keys are unique,
/// every application owns exactly the pids of the records with its key,
/// every record's key has an application, and every application takes its
/// display name from one of its records.
pub open spec fn is_grouping(ps: Seq<ProcessRecord>, apps: Seq<App>) -> bool {
    &&& forall|j1: int, j2: int|
        0 <= j1 < j2 < apps.len() ==> (#[trigger] apps[j1]).key() != (#[trigger] apps[j2]).key()
    &&& forall|j: int|
        0 <= j < apps.len() ==> (#[trigger] apps[j]).processes@ == pids_with_key(ps, apps[j].key())
    &&& forall|i: int|
        0 <= i < ps.len() ==> exists|j: int|
            0 <= j < apps.len() && (#[trigger] apps[j]).key() == (#[trigger] ps[i]).key()
    &&& forall|j: int|
        0 <= j < apps.len() ==> exists|i: int|
            0 <= i < ps.len() && (#[trigger] ps[i]).key() == (#[trigger] apps[j]).key()
                && apps[j].display_name@ == ps[i].name@
}

/// A record with the key contributes its pid to the key's pid list.
proof fn lemma_pids_with_key_contains(ps: Seq<ProcessRecord>, key: Option<Seq<char>>, i: int)
    requires
        0 <= i < ps.len(),
        ps[i].key() == key,
    ensures
        pids_with_key(ps, key).contains(ps[i].pid),
    decreases ps.len(),
{
    let front = pids_with_key(ps.drop_last(), key);
    if i == ps.len() - 1 {
        let whole = pids_with_key(ps, key);
        assert(whole[front.len() as int] == ps[i].pid);
        assert(whole.contains(ps[i].pid));
    } else {
        assert(ps.drop_last()[i] == ps[i]);
        lemma_pids_with_key_contains(ps.drop_last(), key, i);
        let k = choose|k: int| 0 <= k < front.len() && front[k] == ps[i].pid;
        assert(pids_with_key(ps, key)[k] == ps[i].pid);
        assert(pids_with_key(ps, key).contains(ps[i].pid));
    }
}

/// Every pid in a key's pid list comes from a record with that key.
proof fn lemma_pids_with_key_source(ps: Seq<ProcessRecord>, key: Option<Seq<char>>, k: int)
    requires
        0 <= k < pids_with_key(ps, key).len(),
    ensures
        exists|i: int|
            0 <= i < ps.len() && (#[trigger] ps[i]).pid == pids_with_key(ps, key)[k] && ps[i].key()
                == key,
    decreases ps.len(),
{
    let front = pids_with_key(ps.drop_last(), key);
    if k < front.len() {
        lemma_pids_with_key_source(ps.drop_last(), key, k);
        let i = choose|i: int|
            0 <= i < ps.drop_last().len() && (#[trigger] ps.drop_last()[i]).pid == front[k]
                && ps.drop_last()[i].key() == key;
        assert(ps[i].pid == pids_with_key(ps, key)[k] && ps[i].key() == key);
    } else {
        assert(ps.last().key() == key);
        assert(pids_with_key(ps, key)[k] == ps.last().pid);
        assert(ps[ps.len() - 1].pid == pids_with_key(ps, key)[k] && ps[ps.len() - 1].key() == key);
    }
}

/// Partitioning: when pids are unique, every enumerated process appears
/// in the owned set of exactly one application of its grouping — the
/// fallback bucket included, since `None` is a key like any other.
pub proof fn lemma_partition(ps: Seq<ProcessRecord>, apps: Seq<App>, i: int)
    requires
        is_grouping(ps, apps),
        forall|i1: int, i2: int|
            0 <= i1 < i2 < ps.len() ==> (#[trigger] ps[i1]).pid != (#[trigger] ps[i2]).pid,
        0 <= i < ps.len(),
    ensures
        exists|j: int| 0 <= j < apps.len() && (#[trigger] apps[j]).processes@.contains(ps[i].pid),
        forall|j1: int, j2: int|
            0 <= j1 < apps.len() && 0 <= j2 < apps.len() && (#[trigger] apps[j1]).processes@.contains(
                ps[i].pid,
            ) && (#[trigger] apps[j2]).processes@.contains(ps[i].pid) ==> j1 == j2,
{
    let j0 = choose|j: int| 0 <= j < apps.len() && (#[trigger] apps[j]).key() == ps[i].key();
    lemma_pids_with_key_contains(ps, ps[i].key(), i);
    assert(apps[j0].processes@.contains(ps[i].pid));
    assert forall|j1: int, j2: int|
        0 <= j1 < apps.len() && 0 <= j2 < apps.len() && (#[trigger] apps[j1]).processes@.contains(
            ps[i].pid,
        ) && (#[trigger] apps[j2]).processes@.contains(ps[i].pid) implies j1 == j2 by {
        lemma_app_key_of_member(ps, apps, i, j1);
        lemma_app_key_of_member(ps, apps, i, j2);
        if j1 != j2 {
            assert(apps[j1].key() != apps[j2].key());
        }
    }
}

/// An application containing the pid of record `i` carries that record's
/// key, provided pids are unique.
proof fn lemma_app_key_of_member(ps: Seq<ProcessRecord>, apps: Seq<App>, i: int, j: int)
    requires
        is_grouping(ps, apps),
        forall|i1: int, i2: int|
            0 <= i1 < i2 < ps.len() ==> (#[trigger] ps[i1]).pid != (#[trigger] ps[i2]).pid,
        0 <= i < ps.len(),
        0 <= j < apps.len(),
        apps[j].processes@.contains(ps[i].pid),
    ensures
        apps[j].key() == ps[i].key(),
{
    let k = choose|k: int|
        0 <= k < apps[j].processes@.len() && apps[j].processes@[k] == ps[i].pid;
    lemma_pids_with_key_source(ps, apps[j].key(), k);
    let i2 = choose|i2: int|
        0 <= i2 < ps.len() && (#[trigger] ps[i2]).pid == pids_with_key(ps, apps[j].key())[k]
            && ps[i2].key() == apps[j].key();
    if i2 != i {
        assert(ps[i2].pid != ps[i].pid);
    }
}

/// Identity stability: an application's identifier survives a refresh for
/// as long as any process with its grouping key persists — whenever a key
/// occurs in two enumerations, each grouping has an application carrying
/// exactly that identifier, so a caller can re-locate it by identifier
/// even though the collection is rebuilt from scratch.
pub proof fn lemma_identifier_stable(
    ps1: Seq<ProcessRecord>,
    apps1: Seq<App>,
    ps2: Seq<ProcessRecord>,
    apps2: Seq<App>,
    i1: int,
    i2: int,
)
    requires
        is_grouping(ps1, apps1),
        is_grouping(ps2, apps2),
        0 <= i1 < ps1.len(),
        0 <= i2 < ps2.len(),
        ps1[i1].key() == ps2[i2].key(),
    ensures
        exists|j: int| 0 <= j < apps1.len() && (#[trigger] apps1[j]).key() == ps1[i1].key(),
        exists|j: int| 0 <= j < apps2.len() && (#[trigger] apps2[j]).key() == ps1[i1].key(),
{
}

/// Whether the two keys are the same, the fallback bucket included.
pub fn key_eq(a: &Option<String>, b: &Option<String>) -> (r: bool)
    ensures
        r == (opt_key_view(*a) == opt_key_view(*b)),
{
    match (a, b) {
        (None, None) => true,
        (Some(x), Some(y)) => {
            let e = (*x) == (*y);
            assert(e ==> opt_key_view(Some(*x)) == opt_key_view(Some(*y)));
            assert(!e ==> opt_key_view(Some(*x)) != opt_key_view(Some(*y)));
            e
        },
        _ => false,
    }
}

fn clone_key(k: &Option<String>) -> (r: Option<String>)
    ensures
        opt_key_view(r) == opt_key_view(*k),
{
    match k {
        Some(s) => Some(s.clone()),
        None => None,
    }
}

fn contains_key(apps: &Vec<App>, key: &Option<String>) -> (r: bool)
    ensures
        r == exists|j: int|
            0 <= j < apps@.len() && (#[trigger] apps@[j]).key() == opt_key_view(*key),
{
    let mut t: usize = 0;
    while t < apps.len()
        invariant
            t <= apps@.len(),
            forall|j: int| 0 <= j < t ==> (#[trigger] apps@[j]).key() != opt_key_view(*key),
        decreases apps@.len() - t,
    {
        if key_eq(&apps[t].id, key) {
            return true;
        }
        t += 1;
    }
    false
}

fn collect_pids(procs: &Vec<ProcessRecord>, key: &Option<String>) -> (r: Vec<i32>)
    ensures
        r@ == pids_with_key(procs@, opt_key_view(*key)),
{
    let ghost kv = opt_key_view(*key);
    let mut r: Vec<i32> = Vec::new();
    let mut t: usize = 0;
    assert(pids_with_key(procs@.subrange(0, 0), kv) =~= Seq::<i32>::empty());
    while t < procs.len()
        invariant
            t <= procs@.len(),
            kv == opt_key_view(*key),
            r@ == pids_with_key(procs@.subrange(0, t as int), kv),
        decreases procs@.len() - t,
    {
        let ghost pre = procs@.subrange(0, t as int);
        let ghost pre1 = procs@.subrange(0, t + 1 as int);
        assert(pre1.drop_last() =~= pre);
        assert(pre1.last() == procs@[t as int]);
        if key_eq(&procs[t].app_id, key) {
            r.push(procs[t].pid);
            assert(r@ =~= pids_with_key(pre, kv) + seq![procs@[t as int].pid]);
        } else {
            assert(pids_with_key(pre1, kv) =~= pids_with_key(pre, kv) + Seq::<i32>::empty());
            assert(pids_with_key(pre1, kv) =~= pids_with_key(pre, kv));
        }
        t += 1;
    }
    assert(procs@.subrange(0, procs@.len() as int) =~= procs@);
    r
}

/// Performs the grouping step of an enumeration: every record is assigned
/// to the application of its key, a fresh application being opened at the
/// first record of each key. The result is a complete, non-overlapping
/// partition of the enumerated pids.
pub fn group_processes(procs: &Vec<ProcessRecord>) -> (r: Vec<App>)
    ensures
        is_grouping(procs@, r@),
{
    let mut apps: Vec<App> = Vec::new();
    let mut i: usize = 0;
    while i < procs.len()
        invariant
            i <= procs@.len(),
            forall|j1: int, j2: int|
                0 <= j1 < j2 < apps@.len() ==> (#[trigger] apps@[j1]).key() != (
                #[trigger] apps@[j2]).key(),
            forall|j: int|
                0 <= j < apps@.len() ==> (#[trigger] apps@[j]).processes@ == pids_with_key(
                    procs@,
                    apps@[j].key(),
                ),
            forall|j: int|
                0 <= j < apps@.len() ==> exists|i0: int|
                    0 <= i0 < procs@.len() && (#[trigger] procs@[i0]).key() == (
                    #[trigger] apps@[j]).key() && apps@[j].display_name@ == procs@[i0].name@,
            forall|i0: int|
                0 <= i0 < i ==> exists|j: int|
                    0 <= j < apps@.len() && (#[trigger] apps@[j]).key() == (
                    #[trigger] procs@[i0]).key(),
        decreases procs@.len() - i,
    {
        let p = &procs[i];
        if !contains_key(&apps, &p.app_id) {
            let pids = collect_pids(procs, &p.app_id);
            let a = App { id: clone_key(&p.app_id), display_name: p.name.clone(), processes: pids };
            assert(a.key() == procs@[i as int].key());
            let ghost old_apps = apps@;
            apps.push(a);
            assert(forall|j: int|
                0 <= j < old_apps.len() ==> apps@[j] == (#[trigger] old_apps[j]));
            assert(apps@[apps@.len() - 1] == a);
        }
        i += 1;
    }
    apps
}

/// The record of the given pid, if the sample holds one; the first match
/// counts when a pid repeats.
pub open spec fn find_rec(ps: Seq<ProcessRecord>, pid: i32) -> Option<ProcessRecord>
    decreases ps.len(),
{
    if ps.len() == 0 {
        None
    } else if ps[0].pid == pid {
        Some(ps[0])
    } else {
        find_rec(ps.drop_first(), pid)
    }
}

/// The memory the process of the given pid holds in the sample; a pid
/// without a record contributes nothing.
pub open spec fn mem_of(ps: Seq<ProcessRecord>, pid: i32) -> int {
    match find_rec(ps, pid) {
        Some(r) => r.memory as int,
        None => 0,
    }
}

/// Total memory of the given pids in the sample.
pub open spec fn mem_sum(ps: Seq<ProcessRecord>, pids: Seq<i32>) -> int
    decreases pids.len(),
{
    if pids.len() == 0 {
        0
    } else {
        mem_sum(ps, pids.drop_last()) + mem_of(ps, pids.last())
    }
}

/// A sum reported within machine range: capped at `u64::MAX`.
pub open spec fn capped(v: int) -> int {
    if v > u64::MAX {
        u64::MAX as int
    } else {
        v
    }
}

/// The cpu ticks the process of the given pid consumed between the two
/// samples. A process absent from either sample — newly appeared or
/// already exited — contributes zero, as does a counter running backwards.
pub open spec fn delta_of(cur: Seq<ProcessRecord>, prev: Seq<ProcessRecord>, pid: i32) -> int {
    match (find_rec(cur, pid), find_rec(prev, pid)) {
        (Some(c), Some(p)) => if c.cpu_time > p.cpu_time {
            c.cpu_time - p.cpu_time
        } else {
            0
        },
        _ => 0,
    }
}

/// Total cpu tick delta of the given pids between the two samples.
pub open spec fn delta_sum(cur: Seq<ProcessRecord>, prev: Seq<ProcessRecord>, pids: Seq<i32>) -> int
    decreases pids.len(),
{
    if pids.len() == 0 {
        0
    } else {
        delta_sum(cur, prev, pids.drop_last()) + delta_of(cur, prev, pids.last())
    }
}

proof fn lemma_mem_sum_nonneg(ps: Seq<ProcessRecord>, pids: Seq<i32>)
    ensures
        mem_sum(ps, pids) >= 0,
    decreases pids.len(),
{
    if pids.len() > 0 {
        lemma_mem_sum_nonneg(ps, pids.drop_last());
    }
}

proof fn lemma_delta_sum_nonneg(cur: Seq<ProcessRecord>, prev: Seq<ProcessRecord>, pids: Seq<i32>)
    ensures
        delta_sum(cur, prev, pids) >= 0,
    decreases pids.len(),
{
    if pids.len() > 0 {
        lemma_delta_sum_nonneg(cur, prev, pids.drop_last());
    }
}

/// Finds the position of the record with the given pid, if any.
fn find_index(ps: &Vec<ProcessRecord>, pid: i32) -> (r: Option<usize>)
    ensures
        match r {
            Some(ix) => ix < ps@.len() && find_rec(ps@, pid) == Some(ps@[ix as int]),
            None => find_rec(ps@, pid).is_none(),
        },
{
    let mut t: usize = 0;
    assert(ps@.skip(0) =~= ps@);
    while t < ps.len()
        invariant
            t <= ps@.len(),
            find_rec(ps@, pid) == find_rec(ps@.skip(t as int), pid),
        decreases ps@.len() - t,
    {
        let ghost rest = ps@.skip(t as int);
        assert(rest[0] == ps@[t as int]);
        assert(rest.drop_first() =~= ps@.skip(t + 1));
        if ps[t].pid == pid {
            return Some(t);
        }
        t += 1;
    }
    assert(ps@.skip(ps@.len() as int) =~= Seq::<ProcessRecord>::empty());
    None
}

/// Sums the memory of the given pids in the sample, saturating at
/// `u64::MAX`.
fn app_memory(cur: &Vec<ProcessRecord>, pids: &Vec<i32>) -> (r: u64)
    ensures
        r == capped(mem_sum(cur@, pids@)),
{
    let mut acc: u64 = 0;
    let mut k: usize = 0;
    assert(pids@.subrange(0, 0) =~= Seq::<i32>::empty());
    while k < pids.len()
        invariant
            k <= pids@.len(),
            acc == capped(mem_sum(cur@, pids@.subrange(0, k as int))),
        decreases pids@.len() - k,
    {
        let ghost pre = pids@.subrange(0, k as int);
        let ghost pre1 = pids@.subrange(0, k + 1 as int);
        assert(pre1.drop_last() =~= pre);
        assert(pre1.last() == pids@[k as int]);
        let m: u64 = match find_index(cur, pids[k]) {
            Some(ix) => cur[ix].memory,
            None => 0,
        };
        assert(m == mem_of(cur@, pids@[k as int]));
        proof {
            lemma_mem_sum_nonneg(cur@, pre);
        }
        if acc > u64::MAX - m {
            acc = u64::MAX;
        } else {
            acc = acc + m;
        }
        k += 1;
    }
    assert(pids@.subrange(0, pids@.len() as int) =~= pids@);
    acc
}

/// Sums the cpu tick deltas of the given pids between the two samples,
/// saturating at `u64::MAX`.
fn app_delta(cur: &Vec<ProcessRecord>, prev: &Vec<ProcessRecord>, pids: &Vec<i32>) -> (r: u64)
    ensures
        r == capped(delta_sum(cur@, prev@, pids@)),
{
    let mut acc: u64 = 0;
    let mut k: usize = 0;
    assert(pids@.subrange(0, 0) =~= Seq::<i32>::empty());
    while k < pids.len()
        invariant
            k <= pids@.len(),
            acc == capped(delta_sum(cur@, prev@, pids@.subrange(0, k as int))),
        decreases pids@.len() - k,
    {
        let ghost pre = pids@.subrange(0, k as int);
        let ghost pre1 = pids@.subrange(0, k + 1 as int);
        assert(pre1.drop_last() =~= pre);
        assert(pre1.last() == pids@[k as int]);
        let d: u64 = match find_index(cur, pids[k]) {
            Some(cx) => match find_index(prev, pids[k]) {
                Some(px) => {
                    let c = cur[cx].cpu_time;
                    let p = prev[px].cpu_time;
                    if c > p {
                        c - p
                    } else {
                        0
                    }
                },
                None => 0,
            },
            None => 0,
        };
        assert(d == delta_of(cur@, prev@, pids@[k as int]));
        proof {
            lemma_delta_sum_nonneg(cur@, prev@, pre);
        }
        if acc > u64::MAX - d {
            acc = u64::MAX;
        } else {
            acc = acc + d;
        }
        k += 1;
    }
    assert(pids@.subrange(0, pids@.len() as int) =~= pids@);
    acc
}

/// The ratio an application's tick delta denotes against the elapsed tick
/// time: zero when no time elapsed, clamped to one otherwise.
pub open spec fn app_ratio(d: int, elapsed: int) -> (int, int) {
    if elapsed <= 0 {
        (0, 1)
    } else if d >= elapsed {
        (elapsed, elapsed)
    } else {
        (d, elapsed)
    }
}

/// The external projection of one application: identity, display
/// metadata, and the aggregates of its owned processes.
pub struct SimpleItem {
    /// Same identifier as the application it projects.
    pub id: Option<String>,
    pub display_name: String,
    /// Memory of the owned processes, summed; a gauge, not a delta.
    pub memory_usage: u64,
    /// Share of elapsed tick time the owned processes consumed.
    pub cpu_time_ratio: Ratio,
    pub processes_amount: usize,
}

impl Clone for SimpleItem {
    fn clone(&self) -> (r: Self)
        ensures
            r == *self,
    {
        let id = match &self.id {
            Some(s) => Some(s.clone()),
            None => None,
        };
        assert(id == self.id);
        SimpleItem {
            id,
            display_name: self.display_name.clone(),
            memory_usage: self.memory_usage,
            cpu_time_ratio: self.cpu_time_ratio,
            processes_amount: self.processes_amount,
        }
    }
}

/// What the projection of one application must hold, given the current
/// and previous samples and the elapsed tick time.
pub open spec fn summary_matches(
    s: SimpleItem,
    a: App,
    cur: Seq<ProcessRecord>,
    prev: Seq<ProcessRecord>,
    elapsed: int,
) -> bool {
    &&& opt_key_view(s.id) == a.key()
    &&& s.display_name@ == a.display_name@
    &&& s.processes_amount == a.processes@.len()
    &&& s.memory_usage == capped(mem_sum(cur, a.processes@))
    &&& (s.cpu_time_ratio.num as int, s.cpu_time_ratio.den as int) == app_ratio(
        capped(delta_sum(cur, prev, a.processes@)),
        elapsed,
    )
    &&& s.cpu_time_ratio.wf()
}

/// Projects every application to its summary, computing each aggregate
/// from the current sample and each cpu delta against the previous one.
pub fn summarize(
    apps: &Vec<App>,
    cur: &Vec<ProcessRecord>,
    prev: &Vec<ProcessRecord>,
    elapsed: u64,
) -> (r: Vec<SimpleItem>)
    ensures
        r@.len() == apps@.len(),
        forall|j: int|
            0 <= j < apps@.len() ==> summary_matches(
                #[trigger] r@[j],
                apps@[j],
                cur@,
                prev@,
                elapsed as int,
            ),
{
    let mut r: Vec<SimpleItem> = Vec::new();
    let mut j: usize = 0;
    while j < apps.len()
        invariant
            j <= apps@.len(),
            r@.len() == j,
            forall|j0: int|
                0 <= j0 < j ==> summary_matches(
                    #[trigger] r@[j0],
                    apps@[j0],
                    cur@,
                    prev@,
                    elapsed as int,
                ),
        decreases apps@.len() - j,
    {
        let a = &apps[j];
        let memory_usage = app_memory(cur, &a.processes);
        let d = app_delta(cur, prev, &a.processes);
        let cpu_time_ratio = if elapsed == 0 {
            Ratio { num: 0, den: 1 }
        } else if d >= elapsed {
            Ratio { num: elapsed as u128, den: elapsed as u128 }
        } else {
            Ratio { num: d as u128, den: elapsed as u128 }
        };
        let item = SimpleItem {
            id: clone_key(&a.id),
            display_name: a.display_name.clone(),
            memory_usage,
            cpu_time_ratio,
            processes_amount: a.processes.len(),
        };
        assert(summary_matches(item, apps@[j as int], cur@, prev@, elapsed as int));
        r.push(item);
        j += 1;
    }
    r
}

/// The stateful aggregator: the applications of the last enumeration,
/// the raw records they were folded from, and the published summaries.
pub struct Apps {
    /// The records of the last completed sample: the baseline the next
    /// refresh computes its deltas against.
    pub records: Vec<ProcessRecord>,
    pub apps: Vec<App>,
    /// The summaries published by the last refresh. Replaced as a whole
    /// every cycle, never mutated in place.
    pub summaries: Vec<SimpleItem>,
}

impl Apps {
    /// The applications are the grouping of the records.
    pub open spec fn wf(self) -> bool {
        is_grouping(self.records@, self.apps@)
    }

    /// Starts the aggregator from a first enumeration. With no previous
    /// sample every delta-based ratio is zero; memory, a gauge, is summed
    /// from this first sample directly.
    pub fn new(procs: Vec<ProcessRecord>) -> (r: Apps)
        ensures
            r.wf(),
            r.records@ == procs@,
            is_grouping(procs@, r.apps@),
            r.summaries@.len() == r.apps@.len(),
            forall|j: int|
                0 <= j < r.apps@.len() ==> summary_matches(
                    #[trigger] r.summaries@[j],
                    r.apps@[j],
                    procs@,
                    Seq::<ProcessRecord>::empty(),
                    0,
                ),
    {
        let apps = group_processes(&procs);
        let empty: Vec<ProcessRecord> = Vec::new();
        let summaries = summarize(&apps, &procs, &empty, 0);
        Apps { records: procs, apps, summaries }
    }

    /// One refresh: regroups the new enumeration, folds each
    /// application's aggregates — cpu against the previous sample's
    /// per-process counters, memory from the new sample alone — and
    /// publishes a fresh summary collection, atomically replacing the
    /// baseline.
    pub fn refresh(&mut self, procs: Vec<ProcessRecord>, elapsed: u64) -> (r: Vec<SimpleItem>)
        ensures
            final(self).wf(),
            final(self).records@ == procs@,
            is_grouping(procs@, final(self).apps@),
            r@.len() == final(self).apps@.len(),
            forall|j: int|
                0 <= j < final(self).apps@.len() ==> summary_matches(
                    #[trigger] r@[j],
                    final(self).apps@[j],
                    procs@,
                    old(self).records@,
                    elapsed as int,
                ),
            final(self).summaries@ == r@,
    {
        let apps = group_processes(&procs);
        let summaries = summarize(&apps, &procs, &self.records, elapsed);
        let published = clone_summaries(&summaries);
        self.apps = apps;
        self.records = procs;
        self.summaries = summaries;
        published
    }

    /// The currently published summaries, as an owned collection the
    /// caller may keep across later refreshes.
    pub fn simple(&self) -> (r: Vec<SimpleItem>)
        ensures
            r@ == self.summaries@,
    {
        clone_summaries(&self.summaries)
    }
}

fn clone_summaries(v: &Vec<SimpleItem>) -> (r: Vec<SimpleItem>)
    ensures
        r@ == v@,
{
    let mut r: Vec<SimpleItem> = Vec::new();
    let mut i: usize = 0;
    while i < v.len()
        invariant
            i <= v@.len(),
            r@ == v@.subrange(0, i as int),
        decreases v@.len() - i,
    {
        r.push(v[i].clone());
        assert(r@ =~= v@.subrange(0, i + 1 as int));
        i += 1;
    }
    assert(r@ =~= v@);
    r
}

} // verus!
