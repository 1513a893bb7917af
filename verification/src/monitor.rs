//! The refresh orchestrator: owns the previous cpu snapshot and the
//! aggregator, runs one sample-diff-publish cycle at a time, and carries
//! the caller's selected application across refreshes by its identifier.
use vstd::prelude::*;

use crate::apps::{opt_key_view, summary_matches, Apps, ProcessRecord, SimpleItem};
use crate::cpu::{cpu_line_ok, cpu_lines, get_cpu_usage, is_parsed_cpu_line, CpuTimes};
use crate::ParseError;

verus! {

/// The selection a caller holds: `None` when nothing is selected, else
/// the identifier of the selected application (which is itself optional,
/// the fallback bucket being selectable).
pub open spec fn sel_view(s: Option<Option<String>>) -> Option<Option<Seq<char>>> {
    match s {
        Some(k) => Some(opt_key_view(k)),
        None => None,
    }
}

/// Whether some published summary carries the given identifier.
pub open spec fn has_id(items: Seq<SimpleItem>, x: Option<Seq<char>>) -> bool {
    exists|j: int| 0 <= j < items.len() && opt_key_view((#[trigger] items[j]).id) == x
}

/// Re-applies a selection after a refresh: a selected identifier still
/// present in the new collection stays selected; one that vanished —
/// the application fully exited — leaves the selection empty, as does an
/// empty selection.
pub fn relocate_selection(items: &Vec<SimpleItem>, sel: &Option<Option<String>>) -> (r: Option<
    Option<String>,
>)
    ensures
        sel_view(r) == match sel_view(*sel) {
            Some(x) => if has_id(items@, x) {
                Some(x)
            } else {
                None
            },
            None => None::<Option<Seq<char>>>,
        },
{
    match sel {
        None => None,
        Some(x) => {
            let mut j: usize = 0;
            while j < items.len()
                invariant
                    j <= items@.len(),
                    sel_view(*sel) == Some(opt_key_view(*x)),
                    forall|j0: int|
                        0 <= j0 < j ==> opt_key_view((#[trigger] items@[j0]).id) != opt_key_view(
                            *x,
                        ),
                decreases items@.len() - j,
            {
                if crate::apps::key_eq(&items[j].id, x) {
                    assert(has_id(items@, opt_key_view(*x)));
                    let k = clone_sel_key(x);
                    assert(sel_view(Some(k)) == Some(opt_key_view(*x)));
                    assert(sel_view(*sel) == Some(opt_key_view(*x)));
                    return Some(k);
                }
                j += 1;
            }
            assert(!has_id(items@, opt_key_view(*x)));
            None
        },
    }
}

fn clone_sel_key(k: &Option<String>) -> (r: Option<String>)
    ensures
        opt_key_view(r) == opt_key_view(*k),
{
    match k {
        Some(s) => Some(s.clone()),
        None => None,
    }
}

/// The elapsed tick time between two aggregate snapshots, clamped into
/// `u64` range and to zero when the counters did not advance.
pub open spec fn elapsed_ticks(prev: CpuTimes, cur: CpuTimes) -> int {
    let dt = cur.total() - prev.total();
    if dt <= 0 {
        0
    } else if dt > u64::MAX {
        u64::MAX as int
    } else {
        dt
    }
}

fn compute_elapsed(prev: &CpuTimes, cur: &CpuTimes) -> (r: u64)
    ensures
        r == elapsed_ticks(*prev, *cur),
{
    let pt = total_ticks_exec(prev);
    let ct = total_ticks_exec(cur);
    if ct <= pt {
        0
    } else {
        let dt = ct - pt;
        if dt > u64::MAX as u128 {
            u64::MAX
        } else {
            dt as u64
        }
    }
}

fn total_ticks_exec(c: &CpuTimes) -> (t: u128)
    ensures
        t == c.total(),
{
    c.user as u128 + c.nice as u128 + c.system as u128 + c.idle as u128 + c.iowait as u128
        + c.irq as u128 + c.softirq as u128 + c.steal as u128 + c.guest as u128
        + c.guest_nice as u128
}

/// The orchestrator's state between cycles: the previous aggregate cpu
/// snapshot (absent before the first successful cycle), the aggregator,
/// and the caller-visible selection.
pub struct Monitor {
    pub prev_cpu: Option<CpuTimes>,
    pub apps: Apps,
    pub selection: Option<Option<String>>,
}

impl Monitor {
    /// Starts the orchestrator from a first enumeration, with no previous
    /// cpu snapshot and nothing selected.
    pub fn new(procs: Vec<ProcessRecord>) -> (r: Monitor)
        ensures
            r.apps.wf(),
            r.prev_cpu.is_none(),
            r.selection.is_none(),
            r.apps.records@ == procs@,
    {
        Monitor { prev_cpu: None, apps: Apps::new(procs), selection: None }
    }

    /// Selects the application with the given identifier, or clears the
    /// selection.
    pub fn set_selection(&mut self, sel: Option<Option<String>>)
        ensures
            final(self).selection == sel,
            final(self).apps == old(self).apps,
            final(self).prev_cpu == old(self).prev_cpu,
    {
        self.selection = sel;
    }

    /// One full refresh cycle: parse the aggregate cpu line out of the
    /// given counter text, diff it against the previous snapshot, fold the
    /// new enumeration into summaries, re-apply the selection by
    /// identifier, and atomically replace the baseline. A cycle whose
    /// counter text is unreadable fails as a whole and leaves every part
    /// of the state exactly as it was — no partial snapshot is published.
    pub fn refresh_cycle(&mut self, proc_stat_contents: &str, procs: Vec<ProcessRecord>) -> (r:
        Result<Vec<SimpleItem>, ParseError>)
        ensures
            match r {
                Ok(items) => {
                    &&& cpu_lines(proc_stat_contents@).len() > 0
                    &&& cpu_line_ok(cpu_lines(proc_stat_contents@)[0])
                    &&& final(self).apps.wf()
                    &&& final(self).apps.records@ == procs@
                    &&& final(self).prev_cpu matches Some(c) && is_parsed_cpu_line(
                        cpu_lines(proc_stat_contents@)[0],
                        c,
                    )
                    &&& items@.len() == final(self).apps.apps@.len()
                    &&& final(self).apps.summaries@ == items@
                    &&& (forall|j: int|
                        0 <= j < items@.len() ==> summary_matches(
                            #[trigger] items@[j],
                            final(self).apps.apps@[j],
                            procs@,
                            old(self).apps.records@,
                            match old(self).prev_cpu {
                                Some(p) => elapsed_ticks(p, final(self).prev_cpu.unwrap()),
                                None => 0,
                            },
                        ))
                    &&& sel_view(final(self).selection) == (match sel_view(old(self).selection) {
                        Some(x) => if has_id(items@, x) {
                            Some(x)
                        } else {
                            None
                        },
                        None => None::<Option<Seq<char>>>,
                    })
                },
                Err(e) => {
                    &&& *final(self) == *old(self)
                    &&& (e == ParseError::CoreOutOfRange <==> cpu_lines(
                        proc_stat_contents@,
                    ).len() == 0)
                    &&& (e == ParseError::Malformed <==> cpu_lines(proc_stat_contents@).len() > 0
                        && !cpu_line_ok(cpu_lines(proc_stat_contents@)[0]))
                },
            },
{
        let cur = match get_cpu_usage(proc_stat_contents, None) {
            Ok(c) => c,
            Err(e) => {
                return Err(e);
            },
        };
        let elapsed: u64 = match &self.prev_cpu {
            Some(p) => compute_elapsed(p, &cur),
            None => 0,
        };
        let items = self.apps.refresh(procs, elapsed);
        let new_sel = relocate_selection(&items, &self.selection);
        self.selection = new_sel;
        self.prev_cpu = Some(cur);
        Ok(items)
    }
}

} // verus!
