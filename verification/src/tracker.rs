//! The Process Tracker: binds each configured search spec to a live
//! process and keeps its usage data fresh without rescanning the whole
//! process table every tick.
//!
//! Each spec's slot moves between Unbound and Bound(pid). On the fast
//! path (every bound PID still alive, no unbound spec) only the bound
//! processes' usage is refreshed. The slow path rebinds: slots whose
//! PID vanished become unbound, unbound slots scan the not-yet-evaluated
//! processes for the best match, and the bookkeeping PID sets are
//! replaced with this cycle's.

use vstd::hash_set::HashSetWithView;
use vstd::prelude::*;

use crate::model::{CustomProcessData, ProcessCache, Settings};
use crate::strutil::{spec_str_contains, str_contains_sub};

verus! {

/// Whether `x` occurs in `v`.
pub fn vec_contains_usize(v: &Vec<usize>, x: usize) -> (r: bool)
    ensures
        r == v@.contains(x),
{
    let mut i: usize = 0;
    while i < v.len()
        invariant
            0 <= i <= v@.len(),
            forall|k: int| 0 <= k < i ==> v@[k] != x,
        decreases v@.len() - i,
    {
        if v[i] == x {
            return true;
        }
        i += 1;
    }
    false
}

/// Whether process `p` can be bound for a search: its command line
/// contains the search text, it was not yet evaluated for another spec,
/// and its PID is in the current system PID set.
pub open spec fn spec_is_match(
    p: CustomProcessData,
    search: Seq<char>,
    checked: Set<usize>,
    pids: Seq<usize>,
) -> bool {
    &&& spec_str_contains(p.cmd_string@, search)
    &&& !checked.contains(p.pid)
    &&& pids.contains(p.pid)
}

/// The index of the process a search binds: among the matches, the one
/// with the shortest full command line; the earliest of equally short
/// ones.
pub open spec fn spec_best_match(
    procs: Seq<CustomProcessData>,
    search: Seq<char>,
    checked: Set<usize>,
    pids: Seq<usize>,
) -> Option<int>
    decreases procs.len(),
{
    if procs.len() == 0 {
        None
    } else {
        let r = spec_best_match(procs.drop_last(), search, checked, pids);
        let j = procs.len() - 1;
        if spec_is_match(procs[j], search, checked, pids) && (r is None
            || procs[j].cmd_string@.len() < procs[r->0].cmd_string@.len()) {
            Some(j)
        } else {
            r
        }
    }
}

/// The best match is a match, and no match has a shorter command line:
/// of two processes whose command lines both contain the search text,
/// the one with the shorter command line is the one selected.
pub proof fn lemma_best_match_props(
    procs: Seq<CustomProcessData>,
    search: Seq<char>,
    checked: Set<usize>,
    pids: Seq<usize>,
)
    ensures
        ({
            let r = spec_best_match(procs, search, checked, pids);
            &&& (r is None ==> forall|j: int|
                0 <= j < procs.len() ==> !spec_is_match(#[trigger] procs[j], search, checked, pids))
            &&& (r is Some ==> 0 <= r->0 < procs.len() && spec_is_match(
                procs[r->0],
                search,
                checked,
                pids,
            ) && (forall|j: int|
                0 <= j < procs.len() && spec_is_match(#[trigger] procs[j], search, checked, pids)
                    ==> procs[r->0].cmd_string@.len() <= procs[j].cmd_string@.len()))
        }),
    decreases procs.len(),
{
    if procs.len() > 0 {
        lemma_best_match_props(procs.drop_last(), search, checked, pids);
        assert(forall|j: int| 0 <= j < procs.len() - 1 ==> procs.drop_last()[j] == procs[j]);
    }
}

/// Of two matching candidates, the selected one's command line is no
/// longer than either: the most specific match wins.
pub proof fn lemma_shortest_match_wins(
    procs: Seq<CustomProcessData>,
    search: Seq<char>,
    checked: Set<usize>,
    pids: Seq<usize>,
    a: int,
    b: int,
)
    requires
        0 <= a < procs.len(),
        0 <= b < procs.len(),
        spec_is_match(procs[a], search, checked, pids),
        spec_is_match(procs[b], search, checked, pids),
    ensures
        spec_best_match(procs, search, checked, pids) is Some,
        procs[spec_best_match(procs, search, checked, pids)->0].cmd_string@.len()
            <= procs[a].cmd_string@.len(),
        procs[spec_best_match(procs, search, checked, pids)->0].cmd_string@.len()
            <= procs[b].cmd_string@.len(),
{
    lemma_best_match_props(procs, search, checked, pids);
}

/// A search that finds no match against a set of evaluated PIDs still
/// finds none when more PIDs have been evaluated.
pub proof fn lemma_best_match_monotone(
    procs: Seq<CustomProcessData>,
    search: Seq<char>,
    c1: Set<usize>,
    c2: Set<usize>,
    pids: Seq<usize>,
)
    requires
        c1 <= c2,
        spec_best_match(procs, search, c1, pids) is None,
    ensures
        spec_best_match(procs, search, c2, pids) is None,
{
    lemma_best_match_props(procs, search, c1, pids);
    lemma_best_match_props(procs, search, c2, pids);
    let r = spec_best_match(procs, search, c2, pids);
    if r is Some {
        assert(spec_is_match(procs[r->0], search, c2, pids));
        assert(!c1.contains(procs[r->0].pid));
        assert(spec_is_match(procs[r->0], search, c1, pids));
    }
}

/// The process a search binds, if any: the match with the shortest
/// full command line, the earliest of equally short ones.
pub fn find_best_match(
    processes: &Vec<CustomProcessData>,
    search_text: &str,
    checked: &HashSetWithView<usize>,
    system_pids: &Vec<usize>,
) -> (r: Option<usize>)
    ensures
        match r {
            Some(k) => spec_best_match(processes@, search_text@, checked@, system_pids@) == Some(
                k as int,
            ),
            None => spec_best_match(processes@, search_text@, checked@, system_pids@) is None,
        },
{
    let mut best: Option<usize> = None;
    let mut best_len: usize = 0;
    let mut j: usize = 0;
    proof {
        assert(processes@.take(0) =~= Seq::<CustomProcessData>::empty());
    }
    while j < processes.len()
        invariant
            0 <= j <= processes@.len(),
            match best {
                Some(k) => 0 <= k < j && spec_best_match(
                    processes@.take(j as int),
                    search_text@,
                    checked@,
                    system_pids@,
                ) == Some(k as int) && best_len == processes@[k as int].cmd_string@.len(),
                None => spec_best_match(
                    processes@.take(j as int),
                    search_text@,
                    checked@,
                    system_pids@,
                ) is None,
            },
        decreases processes@.len() - j,
    {
        let p = &processes[j];
        let cmd_len = p.cmd_string.as_str().unicode_len();
        let is_match = str_contains_sub(p.cmd_string.as_str(), search_text)
            && !checked.contains(&p.pid) && vec_contains_usize(system_pids, p.pid);
        proof {
            let t = processes@.take(j as int);
            let t1 = processes@.take(j + 1);
            assert(t1.drop_last() =~= t);
            assert(t1.last() == processes@[j as int]);
            assert(t1[t1.len() - 1] == processes@[j as int]);
            assert(is_match == spec_is_match(processes@[j as int], search_text@, checked@,
            system_pids@));
        }
        let replace = match best {
            Some(_) => is_match && cmd_len < best_len,
            None => is_match,
        };
        if replace {
            best = Some(j);
            best_len = cmd_len;
        }
        j += 1;
    }
    proof {
        assert(processes@.take(processes@.len() as int) =~= processes@);
    }
    best
}

/// The first index in the snapshot holding the given PID, if any.
pub open spec fn spec_find_pid(procs: Seq<CustomProcessData>, pid: usize) -> Option<int>
    decreases procs.len(),
{
    if procs.len() == 0 {
        None
    } else {
        let r = spec_find_pid(procs.drop_last(), pid);
        if r is Some {
            r
        } else if procs.last().pid == pid {
            Some(procs.len() - 1)
        } else {
            None
        }
    }
}

/// The first snapshot entry holding the given PID, if any.
pub fn find_process_by_pid(procs: &Vec<CustomProcessData>, pid: usize) -> (r: Option<usize>)
    ensures
        match r {
            Some(k) => k < procs@.len() && spec_find_pid(procs@, pid) == Some(k as int),
            None => spec_find_pid(procs@, pid) is None,
        },
{
    let mut i: usize = 0;
    proof {
        assert(procs@.take(0) =~= Seq::<CustomProcessData>::empty());
    }
    while i < procs.len()
        invariant
            0 <= i <= procs@.len(),
            spec_find_pid(procs@.take(i as int), pid) is None,
        decreases procs@.len() - i,
    {
        proof {
            let t = procs@.take(i as int);
            let t1 = procs@.take(i + 1);
            assert(t1.drop_last() =~= t);
            assert(t1.last() == procs@[i as int]);
        }
        if procs[i].pid == pid {
            proof {
                let t1 = procs@.take(i + 1);
                lemma_find_pid_extends(procs@, pid, i + 1);
            }
            return Some(i);
        }
        i += 1;
    }
    proof {
        assert(procs@.take(procs@.len() as int) =~= procs@);
    }
    None
}

/// Once a prefix finds a PID, every extension finds the same entry.
proof fn lemma_find_pid_extends(procs: Seq<CustomProcessData>, pid: usize, i: int)
    requires
        0 <= i <= procs.len(),
        spec_find_pid(procs.take(i), pid) is Some,
    ensures
        spec_find_pid(procs, pid) == spec_find_pid(procs.take(i), pid),
    decreases procs.len() - i,
{
    if i == procs.len() {
        assert(procs.take(i) =~= procs);
    } else {
        let t1 = procs.take(i + 1);
        assert(t1.drop_last() =~= procs.take(i));
        assert(spec_find_pid(t1, pid) == spec_find_pid(procs.take(i), pid));
        lemma_find_pid_extends(procs, pid, i + 1);
    }
}

/// A bound PID is found in the snapshot exactly when some entry holds
/// its PID.
proof fn lemma_find_pid_exists(procs: Seq<CustomProcessData>, pid: usize)
    requires
        exists|j: int| 0 <= j < procs.len() && (#[trigger] procs[j]).pid == pid,
    ensures
        spec_find_pid(procs, pid) is Some,
    decreases procs.len(),
{
    if procs.len() > 0 {
        if procs.last().pid == pid {
        } else {
            let j = choose|j: int| 0 <= j < procs.len() && (#[trigger] procs[j]).pid == pid;
            assert(procs.drop_last()[j] == procs[j]);
            lemma_find_pid_exists(procs.drop_last(), pid);
        }
    }
}

/// The PIDs of the slots that went from unbound to bound between two
/// states of the slot array.
pub open spec fn spec_bound_pids(
    before: Seq<Option<CustomProcessData>>,
    after: Seq<Option<CustomProcessData>>,
) -> Set<usize> {
    Set::new(
        |p: usize|
            exists|i: int|
                0 <= i < after.len() && before[i] is None && (#[trigger] after[i]) is Some
                    && after[i]->0.pid == p,
    )
}

/// The PIDs of the slots that were rebound during a tick: slots not
/// bound to a live PID before the call, and bound after it.
pub open spec fn spec_rebound_pids(
    before: Seq<Option<CustomProcessData>>,
    after: Seq<Option<CustomProcessData>>,
    pids: Seq<usize>,
) -> Set<usize> {
    Set::new(
        |p: usize|
            exists|i: int|
                0 <= i < after.len() && !(before[i] is Some && pids.contains(before[i]->0.pid))
                    && (#[trigger] after[i]) is Some && after[i]->0.pid == p,
    )
}

/// True when every spec slot is bound and its PID is still alive: the
/// cheap fast-path condition that avoids rescanning the process table.
pub open spec fn spec_all_bound_alive(cache: ProcessCache, pids: Seq<usize>) -> bool {
    forall|i: int|
        0 <= i < cache.process_used@.len() ==> (#[trigger] cache.process_used@[i]) is Some
            && pids.contains(cache.process_used@[i]->0.pid)
}

/// Whether every bound spec's process is still alive and no spec is
/// unbound, so that the cycle may take the fast path.
pub fn all_tracked_processes_alive(cache: &ProcessCache, system_pids: &Vec<usize>) -> (r: bool)
    ensures
        r == spec_all_bound_alive(*cache, system_pids@),
{
    let n = cache.process_used.len();
    let mut i: usize = 0;
    while i < n
        invariant
            n == cache.process_used@.len(),
            0 <= i <= n,
            forall|k: int|
                0 <= k < i ==> (#[trigger] cache.process_used@[k]) is Some
                    && system_pids@.contains(cache.process_used@[k]->0.pid),
        decreases n - i,
    {
        match &cache.process_used[i] {
            Some(p) => {
                if !vec_contains_usize(system_pids, p.pid) {
                    return false;
                }
            },
            None => {
                return false;
            },
        }
        i += 1;
    }
    true
}

/// How the caller should refresh usage data for newly appeared
/// processes this cycle: not at all, in one bulk call, or one call per
/// listed PID.
#[derive(Debug, Clone)]
pub enum RefreshPlan {
    NoNewProcesses,
    RefreshAll,
    RefreshEach(Vec<usize>),
}

/// Decides how to refresh the newly appeared processes' stats — one
/// bulk refresh when more than 40 are new, else one call each — and
/// replaces the usage-refreshed PID set with this cycle's PIDs.
pub fn update_new_processes_stats(
    cache: &mut ProcessCache,
    system_pids: &Vec<usize>,
    own_pid: usize,
) -> (plan: RefreshPlan)
    ensures
        ({
            let fresh = old(cache).spec_new_pids(system_pids@);
            match plan {
                RefreshPlan::NoNewProcesses => fresh.len() == 0,
                RefreshPlan::RefreshAll => fresh.len() > 40,
                RefreshPlan::RefreshEach(v) => 0 < fresh.len() <= 40 && v@ == fresh,
            }
        }),
        final(cache).processes_usage_updated@ == system_pids@.to_set().insert(own_pid),
        final(cache).processes_checked_to_be_used@ == old(cache).processes_checked_to_be_used@,
        final(cache).process_used == old(cache).process_used,
{
    let new_processes = cache.get_differences_in_usage_processes(system_pids);
    let plan = if new_processes.len() == 0 {
        RefreshPlan::NoNewProcesses
    } else if new_processes.len() > 40 {
        RefreshPlan::RefreshAll
    } else {
        RefreshPlan::RefreshEach(new_processes)
    };
    cache.replace_checked_usage_processes(system_pids, own_pid);
    plan
}

/// Unbinds every spec whose process left the system PID set; a bound
/// spec whose PID is still present keeps its slot untouched.
pub fn remove_tracking_of_removed_processes(cache: &mut ProcessCache, system_pids: &Vec<usize>)
    ensures
        final(cache).process_used@.len() == old(cache).process_used@.len(),
        forall|i: int|
            0 <= i < old(cache).process_used@.len() ==> #[trigger] final(cache).process_used@[i]
                == if old(cache).process_used@[i] is Some && system_pids@.contains(
                old(cache).process_used@[i]->0.pid,
            ) {
                old(cache).process_used@[i]
            } else {
                None::<CustomProcessData>
            },
        final(cache).processes_usage_updated@ == old(cache).processes_usage_updated@,
        final(cache).processes_checked_to_be_used@ == old(cache).processes_checked_to_be_used@,
{
    let n = cache.process_used.len();
    let mut i: usize = 0;
    while i < n
        invariant
            n == cache.process_used@.len(),
            n == old(cache).process_used@.len(),
            0 <= i <= n,
            forall|k: int|
                i <= k < n ==> #[trigger] cache.process_used@[k] == old(cache).process_used@[k],
            forall|k: int|
                0 <= k < i ==> #[trigger] cache.process_used@[k] == if old(cache).process_used@[k] is Some && system_pids@.contains(
                    old(cache).process_used@[k]->0.pid,
                ) {
                    old(cache).process_used@[k]
                } else {
                    None::<CustomProcessData>
                },
            cache.processes_usage_updated@ == old(cache).processes_usage_updated@,
            cache.processes_checked_to_be_used@ == old(cache).processes_checked_to_be_used@,
        decreases n - i,
    {
        let keep = match &cache.process_used[i] {
            Some(p) => vec_contains_usize(system_pids, p.pid),
            None => false,
        };
        if !keep {
            cache.process_used.set(i, None);
        }
        i += 1;
    }
}

/// Refreshes the usage fields of every bound spec from the snapshot; a
/// bound process missing from the snapshot is treated as gone and its
/// slot left stale until the next unbind.
pub fn update_usage_of_tracked_process(
    cache: &mut ProcessCache,
    processes: &Vec<CustomProcessData>,
)
    ensures
        final(cache).process_used@.len() == old(cache).process_used@.len(),
        forall|i: int|
            0 <= i < old(cache).process_used@.len() ==> match old(cache).process_used@[i] {
                None => #[trigger] final(cache).process_used@[i] is None,
                Some(p) => match spec_find_pid(processes@, p.pid) {
                    None => final(cache).process_used@[i] == old(cache).process_used@[i],
                    Some(j) => {
                        &&& final(cache).process_used@[i] is Some
                        &&& final(cache).process_used@[i]->0.pid == p.pid
                        &&& final(cache).process_used@[i]->0.name == p.name
                        &&& final(cache).process_used@[i]->0.cmd_string == p.cmd_string
                        &&& final(cache).process_used@[i]->0.memory_usage
                            == processes@[j].memory_usage
                        &&& final(cache).process_used@[i]->0.cpu_usage == processes@[j].cpu_usage
                    },
                },
            },
        final(cache).processes_usage_updated@ == old(cache).processes_usage_updated@,
        final(cache).processes_checked_to_be_used@ == old(cache).processes_checked_to_be_used@,
{
    let n = cache.process_used.len();
    let mut i: usize = 0;
    while i < n
        invariant
            n == cache.process_used@.len(),
            n == old(cache).process_used@.len(),
            0 <= i <= n,
            forall|k: int|
                i <= k < n ==> #[trigger] cache.process_used@[k] == old(cache).process_used@[k],
            forall|k: int|
                0 <= k < i ==> match old(cache).process_used@[k] {
                    None => #[trigger] cache.process_used@[k] is None,
                    Some(p) => match spec_find_pid(processes@, p.pid) {
                        None => cache.process_used@[k] == old(cache).process_used@[k],
                        Some(j) => {
                            &&& cache.process_used@[k] is Some
                            &&& cache.process_used@[k]->0.pid == p.pid
                            &&& cache.process_used@[k]->0.name == p.name
                            &&& cache.process_used@[k]->0.cmd_string == p.cmd_string
                            &&& cache.process_used@[k]->0.memory_usage == processes@[j].memory_usage
                            &&& cache.process_used@[k]->0.cpu_usage == processes@[j].cpu_usage
                        },
                    },
                },
            cache.processes_usage_updated@ == old(cache).processes_usage_updated@,
            cache.processes_checked_to_be_used@ == old(cache).processes_checked_to_be_used@,
        decreases n - i,
    {
        let slot: Option<(usize, String, String)> = match &cache.process_used[i] {
            Some(p) => Some((p.pid, p.name.clone(), p.cmd_string.clone())),
            None => None,
        };
        match slot {
            Some((pid, name, cmd_string)) => {
                match find_process_by_pid(processes, pid) {
                    Some(j) => {
                        let updated = CustomProcessData {
                            pid,
                            name,
                            cmd_string,
                            memory_usage: processes[j].memory_usage,
                            cpu_usage: processes[j].cpu_usage,
                        };
                        cache.process_used.set(i, Some(updated));
                    },
                    None => {},
                }
            },
            None => {},
        }
        i += 1;
    }
}

/// Binds every still-unbound spec to the best not-yet-evaluated match
/// in the snapshot, marking each bound PID as evaluated. Already bound
/// specs are left untouched; a newly bound process always matches its
/// spec's search text, was not evaluated before this call, and is
/// alive; and a spec left unbound has no match among the processes
/// that remain unevaluated after the call.
pub fn check_which_process_to_track(
    cache: &mut ProcessCache,
    settings: &Settings,
    processes: &Vec<CustomProcessData>,
    system_pids: &Vec<usize>,
)
    requires
        old(cache).process_used@.len() == settings.process_cmd_to_search@.len(),
    ensures
        final(cache).process_used@.len() == old(cache).process_used@.len(),
        forall|i: int|
            0 <= i < old(cache).process_used@.len() && old(cache).process_used@[i] is Some
                ==> #[trigger] final(cache).process_used@[i] == old(cache).process_used@[i],
        forall|i: int|
            0 <= i < old(cache).process_used@.len() && old(cache).process_used@[i] is None
                && (#[trigger] final(cache).process_used@[i]) is Some ==> {
                let b = final(cache).process_used@[i]->0;
                &&& (exists|j: int| 0 <= j < processes@.len() && processes@[j] == b)
                &&& spec_str_contains(
                    b.cmd_string@,
                    settings.process_cmd_to_search@[i].search_text@,
                )
                &&& !old(cache).processes_checked_to_be_used@.contains(b.pid)
                &&& system_pids@.contains(b.pid)
            },
        forall|i: int|
            0 <= i < old(cache).process_used@.len() && old(cache).process_used@[i] is None
                && (#[trigger] final(cache).process_used@[i]) is None ==> spec_best_match(
                processes@,
                settings.process_cmd_to_search@[i].search_text@,
                final(cache).processes_checked_to_be_used@,
                system_pids@,
            ) is None,
        old(cache).processes_checked_to_be_used@ <= final(cache).processes_checked_to_be_used@,
        final(cache).processes_checked_to_be_used@ == old(cache).processes_checked_to_be_used@.union(
            spec_bound_pids(old(cache).process_used@, final(cache).process_used@),
        ),
        forall|i: int, j: int|
            0 <= i < old(cache).process_used@.len() && old(cache).process_used@[i] is None && (
            #[trigger] final(cache).process_used@[i]) is Some && 0 <= j < processes@.len()
                && spec_is_match(
                #[trigger] processes@[j],
                settings.process_cmd_to_search@[i].search_text@,
                final(cache).processes_checked_to_be_used@,
                system_pids@,
            ) ==> final(cache).process_used@[i]->0.cmd_string@.len()
                <= processes@[j].cmd_string@.len(),
        forall|i1: int, i2: int|
            0 <= i1 < old(cache).process_used@.len() && 0 <= i2 < old(cache).process_used@.len() && i1 != i2 && old(cache).process_used@[i1] is None && old(cache).process_used@[i2] is None && (#[trigger] final(cache).process_used@[i1]) is Some
                && (#[trigger] final(cache).process_used@[i2]) is Some ==> final(cache).process_used@[i1]->0.pid != final(cache).process_used@[i2]->0.pid,
        final(cache).processes_usage_updated@ == old(cache).processes_usage_updated@,
{
    let n = cache.process_used.len();
    let mut idx: usize = 0;
    while idx < n
        invariant
            n == cache.process_used@.len(),
            n == old(cache).process_used@.len(),
            n == settings.process_cmd_to_search@.len(),
            0 <= idx <= n,
            forall|k: int|
                idx <= k < n ==> #[trigger] cache.process_used@[k] == old(cache).process_used@[k],
            forall|k: int|
                0 <= k < idx && old(cache).process_used@[k] is Some
                    ==> #[trigger] cache.process_used@[k] == old(cache).process_used@[k],
            forall|k: int|
                0 <= k < idx && old(cache).process_used@[k] is None
                    && #[trigger] cache.process_used@[k] is Some ==> {
                    let b = cache.process_used@[k]->0;
                    &&& (exists|j: int| 0 <= j < processes@.len() && processes@[j] == b)
                    &&& spec_str_contains(
                        b.cmd_string@,
                        settings.process_cmd_to_search@[k].search_text@,
                    )
                    &&& !old(cache).processes_checked_to_be_used@.contains(b.pid)
                    &&& system_pids@.contains(b.pid)
                },
            forall|k: int|
                0 <= k < idx && old(cache).process_used@[k] is None
                    && (#[trigger] cache.process_used@[k]) is None ==> spec_best_match(
                    processes@,
                    settings.process_cmd_to_search@[k].search_text@,
                    cache.processes_checked_to_be_used@,
                    system_pids@,
                ) is None,
            old(cache).processes_checked_to_be_used@ <= cache.processes_checked_to_be_used@,
            cache.processes_checked_to_be_used@ == old(cache).processes_checked_to_be_used@.union(
                spec_bound_pids(old(cache).process_used@, cache.process_used@),
            ),
            forall|k: int, j: int|
                0 <= k < idx && old(cache).process_used@[k] is None && (
                #[trigger] cache.process_used@[k]) is Some && 0 <= j < processes@.len()
                    && spec_is_match(
                    #[trigger] processes@[j],
                    settings.process_cmd_to_search@[k].search_text@,
                    cache.processes_checked_to_be_used@,
                    system_pids@,
                ) ==> cache.process_used@[k]->0.cmd_string@.len()
                    <= processes@[j].cmd_string@.len(),
            forall|k1: int, k2: int|
                0 <= k1 < idx && 0 <= k2 < idx && k1 != k2 && old(cache).process_used@[k1] is None
                    && old(cache).process_used@[k2] is None && (
                #[trigger] cache.process_used@[k1]) is Some && (
                #[trigger] cache.process_used@[k2]) is Some ==> cache.process_used@[k1]->0.pid
                    != cache.process_used@[k2]->0.pid,
            cache.processes_usage_updated@ == old(cache).processes_usage_updated@,
        decreases n - idx,
    {
        let ghost pre_checked = cache.processes_checked_to_be_used@;
        let ghost pre_slots = cache.process_used@;
        let bound = cache.process_used[idx].is_some();
        if !bound {
            let search = &settings.process_cmd_to_search[idx].search_text;
            match find_best_match(
                processes,
                search.as_str(),
                &cache.processes_checked_to_be_used,
                system_pids,
            ) {
                Some(j) => {
                    proof {
                        lemma_best_match_props(
                            processes@,
                            search@,
                            cache.processes_checked_to_be_used@,
                            system_pids@,
                        );
                    }
                    let p = &processes[j];
                    let chosen = CustomProcessData {
                        pid: p.pid,
                        name: p.name.clone(),
                        cmd_string: p.cmd_string.clone(),
                        memory_usage: p.memory_usage,
                        cpu_usage: p.cpu_usage,
                    };
                    proof {
                        assert(chosen == processes@[j as int]);
                    }
                    let pid = chosen.pid;
                    cache.process_used.set(idx, Some(chosen));
                    cache.processes_checked_to_be_used.insert(pid);
                    proof {
                        let cur_checked = cache.processes_checked_to_be_used@;
                        let cur_slots = cache.process_used@;
                        assert(pre_checked <= cur_checked);
                        assert forall|k: int|
                            0 <= k < idx && old(cache).process_used@[k] is None && (
                            #[trigger] cache.process_used@[k]) is None implies spec_best_match(
                            processes@,
                            settings.process_cmd_to_search@[k].search_text@,
                            cur_checked,
                            system_pids@,
                        ) is None by {
                            lemma_best_match_monotone(
                                processes@,
                                settings.process_cmd_to_search@[k].search_text@,
                                pre_checked,
                                cur_checked,
                                system_pids@,
                            );
                        }
                        // the evaluated set grows by exactly the bound PID
                        assert(spec_bound_pids(old(cache).process_used@, cur_slots)
                            =~= spec_bound_pids(old(cache).process_used@, pre_slots).insert(
                            pid,
                        )) by {
                            assert(forall|k: int|
                                0 <= k < n && k != idx ==> cur_slots[k] == pre_slots[k]);
                            assert(cur_slots[idx as int] is Some && cur_slots[idx as int]->0.pid
                                == pid);
                            assert forall|p: usize|
                                spec_bound_pids(old(cache).process_used@, cur_slots).contains(
                                    p,
                                ) implies spec_bound_pids(
                                old(cache).process_used@,
                                pre_slots,
                            ).insert(pid).contains(p) by {
                                let i2 = choose|i2: int|
                                    0 <= i2 < cur_slots.len() && old(cache).process_used@[i2]
                                        is None && (#[trigger] cur_slots[i2]) is Some
                                        && cur_slots[i2]->0.pid == p;
                                if i2 != idx {
                                    assert(pre_slots[i2] == cur_slots[i2]);
                                }
                            }
                            assert forall|p: usize|
                                spec_bound_pids(old(cache).process_used@, pre_slots).insert(
                                    pid,
                                ).contains(p) implies spec_bound_pids(
                                old(cache).process_used@,
                                cur_slots,
                            ).contains(p) by {
                                if p == pid {
                                    assert(old(cache).process_used@[idx as int] is None);
                                    assert(cur_slots[idx as int] is Some && cur_slots[
                                        idx as int
                                    ]->0.pid == p);
                                } else {
                                    let i2 = choose|i2: int|
                                        0 <= i2 < pre_slots.len() && old(cache).process_used@[i2]
                                            is None && (#[trigger] pre_slots[i2]) is Some
                                            && pre_slots[i2]->0.pid == p;
                                    assert(i2 != idx);
                                    assert(cur_slots[i2] == pre_slots[i2]);
                                }
                            }
                        }
                        assert(cur_checked =~= old(cache).processes_checked_to_be_used@.union(
                            spec_bound_pids(old(cache).process_used@, cur_slots),
                        ));
                        // minimality at this slot, against the grown set
                        assert forall|j2: int|
                            0 <= j2 < processes@.len() && spec_is_match(
                                #[trigger] processes@[j2],
                                search@,
                                cur_checked,
                                system_pids@,
                            ) implies cur_slots[idx as int]->0.cmd_string@.len()
                            <= processes@[j2].cmd_string@.len() by {
                            assert(spec_is_match(processes@[j2], search@, pre_checked,
                            system_pids@));
                        }
                        // earlier bound slots stay minimal against the grown set
                        assert forall|k: int, j2: int|
                            0 <= k < idx && old(cache).process_used@[k] is None && (
                            #[trigger] cur_slots[k]) is Some && 0 <= j2 < processes@.len()
                                && spec_is_match(
                                #[trigger] processes@[j2],
                                settings.process_cmd_to_search@[k].search_text@,
                                cur_checked,
                                system_pids@,
                            ) implies cur_slots[k]->0.cmd_string@.len()
                            <= processes@[j2].cmd_string@.len() by {
                            assert(cur_slots[k] == pre_slots[k]);
                            assert(spec_is_match(
                                processes@[j2],
                                settings.process_cmd_to_search@[k].search_text@,
                                pre_checked,
                                system_pids@,
                            ));
                        }
                        // the new PID differs from every previously bound one
                        assert forall|k: int|
                            0 <= k < idx && old(cache).process_used@[k] is None && (
                            #[trigger] cur_slots[k]) is Some implies cur_slots[k]->0.pid
                            != pid by {
                            assert(spec_bound_pids(old(cache).process_used@, pre_slots).contains(
                                pre_slots[k]->0.pid,
                            ));
                            assert(pre_checked.contains(pre_slots[k]->0.pid));
                            assert(!pre_checked.contains(pid));
                        }
                    }
                },
                None => {},
            }
        }
        idx += 1;
    }
}

/// One slow- or fast-path tracker update for a tick, given this cycle's
/// system PID set and a fresh usage snapshot of the processes.
///
/// A spec bound to a PID that is still in the system PID set stays
/// bound to that PID; a spec whose PID left the system PID set is no
/// longer bound to it after this call — it is unbound, or rebound to a
/// process that is alive this cycle.
pub fn check_for_new_and_old_process_data(
    cache: &mut ProcessCache,
    settings: &Settings,
    system_pids: &Vec<usize>,
    processes: &Vec<CustomProcessData>,
    own_pid: usize,
)
    requires
        old(cache).process_used@.len() == settings.process_cmd_to_search@.len(),
    ensures
        final(cache).process_used@.len() == old(cache).process_used@.len(),
        forall|i: int|
            0 <= i < old(cache).process_used@.len() && old(cache).process_used@[i] is Some
                && system_pids@.contains(old(cache).process_used@[i]->0.pid) ==> {
                let p = old(cache).process_used@[i]->0;
                &&& (#[trigger] final(cache).process_used@[i]) is Some
                &&& final(cache).process_used@[i]->0.pid == p.pid
                &&& final(cache).process_used@[i]->0.name == p.name
                &&& final(cache).process_used@[i]->0.cmd_string == p.cmd_string
                &&& match spec_find_pid(processes@, p.pid) {
                    Some(j) => final(cache).process_used@[i]->0.cpu_usage
                        == processes@[j].cpu_usage && final(cache).process_used@[i]->0.memory_usage
                        == processes@[j].memory_usage,
                    None => final(cache).process_used@[i] == old(cache).process_used@[i],
                }
            },
        forall|i: int|
            0 <= i < old(cache).process_used@.len() && !(old(cache).process_used@[i] is Some
                && system_pids@.contains(old(cache).process_used@[i]->0.pid)) && (
            #[trigger] final(cache).process_used@[i]) is Some ==> system_pids@.contains(
                final(cache).process_used@[i]->0.pid,
            ) && spec_str_contains(
                final(cache).process_used@[i]->0.cmd_string@,
                settings.process_cmd_to_search@[i].search_text@,
            ),
        !spec_all_bound_alive(*old(cache), system_pids@) ==> (forall|i: int|
            0 <= i < old(cache).process_used@.len() && (#[trigger] final(cache).process_used@[i])
                is None ==> spec_best_match(
                processes@,
                settings.process_cmd_to_search@[i].search_text@,
                old(cache).processes_checked_to_be_used@.union(
                    spec_rebound_pids(
                        old(cache).process_used@,
                        final(cache).process_used@,
                        system_pids@,
                    ),
                ),
                system_pids@,
            ) is None),
        forall|i: int|
            0 <= i < old(cache).process_used@.len() && old(cache).process_used@[i] is Some
                && !system_pids@.contains(old(cache).process_used@[i]->0.pid)
                ==> !((#[trigger] final(cache).process_used@[i]) is Some && final(cache).process_used@[i]->0.pid == old(cache).process_used@[i]->0.pid),
        forall|i: int|
            0 <= i < old(cache).process_used@.len() && (#[trigger] final(cache).process_used@[i]) is Some ==> system_pids@.contains(
                final(cache).process_used@[i]->0.pid,
            ) || (old(cache).process_used@[i] is Some && final(cache).process_used@[i]->0.pid
                == old(cache).process_used@[i]->0.pid),
        final(cache).processes_usage_updated@ == old(cache).processes_usage_updated@,
        spec_all_bound_alive(*old(cache), system_pids@) ==> final(cache).processes_checked_to_be_used@
            == old(cache).processes_checked_to_be_used@,
        !spec_all_bound_alive(*old(cache), system_pids@)
            ==> final(cache).processes_checked_to_be_used@ == system_pids@.to_set().insert(own_pid),
{
    let ghost s0 = cache.process_used@;
    let ghost c0 = cache.processes_checked_to_be_used@;
    if all_tracked_processes_alive(cache, system_pids) {
        update_usage_of_tracked_process(cache, processes);
        return ;
    }
    remove_tracking_of_removed_processes(cache, system_pids);
    let ghost s1 = cache.process_used@;
    check_which_process_to_track(cache, settings, processes, system_pids);
    let ghost s2 = cache.process_used@;
    let ghost c2 = cache.processes_checked_to_be_used@;
    update_usage_of_tracked_process(cache, processes);
    let ghost s3 = cache.process_used@;
    cache.replace_checked_to_be_used_processes(system_pids, own_pid);
    proof {
        let n = s0.len();
        let pids = system_pids@;
        // a slot bound after the call was bound by the scan, with the
        // same PID, so the snapshot holds its process
        assert forall|i: int|
            0 <= i < n && !(s0[i] is Some && pids.contains(s0[i]->0.pid)) && (#[trigger] s3[i])
                is Some implies pids.contains(s3[i]->0.pid) && spec_str_contains(
            s3[i]->0.cmd_string@,
            settings.process_cmd_to_search@[i].search_text@,
        ) by {
            assert(s1[i] is None);
            assert(s2[i] is Some);
            let b = s2[i]->0;
            let jw = choose|j: int| 0 <= j < processes@.len() && processes@[j] == b;
            assert(processes@[jw].pid == b.pid);
            lemma_find_pid_exists(processes@, b.pid);
            assert(s3[i]->0.pid == b.pid && s3[i]->0.cmd_string == b.cmd_string);
        }
        // a slot still unbound saw no eligible match: the PIDs bound in
        // this call are exactly the ones the scan marked evaluated
        assert(spec_bound_pids(s1, s2) =~= spec_rebound_pids(s0, s3, pids)) by {
            assert forall|p: usize| spec_bound_pids(s1, s2).contains(p) implies spec_rebound_pids(
                s0,
                s3,
                pids,
            ).contains(p) by {
                let i = choose|i: int|
                    0 <= i < s2.len() && s1[i] is None && (#[trigger] s2[i]) is Some
                        && s2[i]->0.pid == p;
                let b = s2[i]->0;
                let jw = choose|j: int| 0 <= j < processes@.len() && processes@[j] == b;
                assert(processes@[jw].pid == b.pid);
                lemma_find_pid_exists(processes@, b.pid);
                assert(s3[i] is Some && s3[i]->0.pid == p);
                assert(!(s0[i] is Some && pids.contains(s0[i]->0.pid)));
            }
            assert forall|p: usize|
                spec_rebound_pids(s0, s3, pids).contains(p) implies spec_bound_pids(
                s1,
                s2,
            ).contains(p) by {
                let i = choose|i: int|
                    0 <= i < s3.len() && !(s0[i] is Some && pids.contains(s0[i]->0.pid)) && (
                    #[trigger] s3[i]) is Some && s3[i]->0.pid == p;
                assert(s1[i] is None);
                assert(s2[i] is Some);
                let b = s2[i]->0;
                let jw = choose|j: int| 0 <= j < processes@.len() && processes@[j] == b;
                assert(processes@[jw].pid == b.pid);
                lemma_find_pid_exists(processes@, b.pid);
                assert(s3[i]->0.pid == b.pid);
            }
        }
        assert(c2 =~= c0.union(spec_rebound_pids(s0, s3, pids)));
        assert forall|i: int| 0 <= i < n && (#[trigger] s3[i]) is None implies spec_best_match(
            processes@,
            settings.process_cmd_to_search@[i].search_text@,
            c0.union(spec_rebound_pids(s0, s3, pids)),
            pids,
        ) is None by {
            assert(s2[i] is None);
            assert(s1[i] is None);
        }
    }
}

} // verus!
