//! The data model: run settings, tracked-process specs, the process
//! cache that the tracker owns across ticks, and the column store a
//! loaded record decodes into.

use vstd::hash_set::HashSetWithView;
use vstd::prelude::*;

use crate::enums::{AppMode, DataType, GeneralInfoGroup, LogLev, SimpleDataCollectionMode};
use crate::strutil::{contains_char, spec_split, split_str, string_contains_char};

verus! {

broadcast use vstd::std_specs::hash::group_hash_axioms;

/// A record decoded into a typed column store: the declared column
/// order, one column of rendered values per declared column, the panel
/// groups present, and the header fields. Memory and swap totals are
/// centi-megabytes; the check interval is centiseconds.
#[derive(Debug, Clone, PartialEq)]
pub struct CollectedItemModels {
    pub collected_data_names: Vec<DataType>,
    pub collected_data: Vec<Vec<String>>,
    pub collected_groups: Vec<GeneralInfoGroup>,
    pub memory_total: u64,
    pub swap_total: u64,
    pub cpu_core_count: usize,
    pub check_interval: u64,
}

/// Usage data of one tracked process. CPU usage is in centi-percent
/// (hundredths of a percent summed over all cores); memory is in bytes.
#[derive(Debug, Clone, PartialEq)]
pub struct CustomProcessData {
    pub pid: usize,
    pub name: String,
    pub cmd_string: String,
    pub memory_usage: u64,
    pub cpu_usage: u64,
}

/// Cached state of one process slot between scans.
#[derive(Debug, Clone)]
pub struct SingleProcessCacheStruct {
    pub collected_name: String,
    pub need_to_check: bool,
}

/// One tracked-process spec: the name its columns carry in the record,
/// and the substring to search for in process command lines.
#[derive(Debug, Clone, PartialEq)]
pub struct FindingStruct {
    pub graph_name: String,
    pub search_text: String,
}

/// Per-run settings. `check_interval` and `start_time` are centiseconds,
/// `maximum_data_file_size_bytes` bounds the row bytes written.
#[derive(Debug, Clone)]
pub struct Settings {
    pub check_interval: u64,
    pub data_path: String,
    pub plot_path: String,
    pub app_mode: AppMode,
    pub collection_mode: Vec<SimpleDataCollectionMode>,
    pub plot_width: u32,
    pub plot_height: u32,
    pub white_plot_mode: bool,
    pub log_level: LogLev,
    pub open_plot_file: bool,
    pub disable_instant_flushing: bool,
    pub use_web_gl: bool,
    pub backup_number: u32,
    pub maximum_data_file_size_bytes: usize,
    pub process_cmd_to_search: Vec<FindingStruct>,
    pub need_to_refresh_processes: bool,
    pub start_time: u64,
    pub app_version: String,
}

/// The Process Tracker's persistent state across ticks: which PIDs had
/// their usage refreshed this cycle, which PIDs were already evaluated
/// against the specs, and one slot per spec with the bound process.
pub struct ProcessCache {
    pub processes_usage_updated: HashSetWithView<usize>,
    pub processes_checked_to_be_used: HashSetWithView<usize>,
    pub process_used: Vec<Option<CustomProcessData>>,
}

impl ProcessCache {
    /// The PIDs of `elements` whose usage was not refreshed this cycle.
    pub open spec fn spec_new_pids(self, elements: Seq<usize>) -> Seq<usize> {
        elements.filter(|p: usize| !self.processes_usage_updated@.contains(p))
    }

    /// A fresh cache: every slot unbound, only the sampler's own PID
    /// marked evaluated, and the initial PID set (plus the sampler's own
    /// PID) marked usage-refreshed.
    pub fn new_with_size(size: usize, initial_pids: &Vec<usize>, own_pid: usize) -> (c: Self)
        ensures
            c.process_used@.len() == size,
            forall|i: int| 0 <= i < size ==> c.process_used@[i] is None,
            c.processes_checked_to_be_used@ == Set::<usize>::empty().insert(own_pid),
            c.processes_usage_updated@ == initial_pids@.to_set().insert(own_pid),
    {
        let mut process_used: Vec<Option<CustomProcessData>> = Vec::new();
        let mut i: usize = 0;
        while i < size
            invariant
                0 <= i <= size,
                process_used@.len() == i,
                forall|k: int| 0 <= k < i ==> process_used@[k] is None,
            decreases size - i,
        {
            process_used.push(None);
            i += 1;
        }
        let mut processes_checked_to_be_used: HashSetWithView<usize> = HashSetWithView::new();
        processes_checked_to_be_used.insert(own_pid);
        let mut processes_usage_updated: HashSetWithView<usize> = HashSetWithView::new();
        let mut j: usize = 0;
        while j < initial_pids.len()
            invariant
                0 <= j <= initial_pids@.len(),
                processes_usage_updated@ == initial_pids@.take(j as int).to_set(),
            decreases initial_pids@.len() - j,
        {
            processes_usage_updated.insert(initial_pids[j]);
            proof {
                broadcast use vstd::seq_lib::lemma_seq_contains_after_push;

                let t = initial_pids@.take(j as int);
                let t1 = initial_pids@.take(j + 1);
                let e = initial_pids@[j as int];
                assert(t1 =~= t.push(e));
                assert(t1.to_set() =~= t.to_set().insert(e));
            }
            j += 1;
        }
        processes_usage_updated.insert(own_pid);
        proof {
            assert(initial_pids@.take(initial_pids@.len() as int) =~= initial_pids@);
        }
        ProcessCache { processes_usage_updated, processes_checked_to_be_used, process_used }
    }

    /// The PIDs among `elements`, in order, whose usage data was not
    /// refreshed this cycle: the newly appeared processes.
    pub fn get_differences_in_usage_processes(&self, elements: &Vec<usize>) -> (r: Vec<usize>)
        ensures
            r@ == self.spec_new_pids(elements@),
    {
        let mut r: Vec<usize> = Vec::new();
        let mut i: usize = 0;
        proof {
            reveal(Seq::filter);
            assert(elements@.take(0) =~= Seq::<usize>::empty());
        }
        while i < elements.len()
            invariant
                0 <= i <= elements@.len(),
                r@ == self.spec_new_pids(elements@.take(i as int)),
            decreases elements@.len() - i,
        {
            let e = elements[i];
            proof {
                reveal(Seq::filter);
                let t = elements@.take(i as int);
                let t1 = elements@.take(i + 1);
                assert(t1.drop_last() =~= t);
                assert(t1.last() == e);
            }
            if !self.processes_usage_updated.contains(&e) {
                r.push(e);
            }
            i += 1;
        }
        proof {
            assert(elements@.take(elements@.len() as int) =~= elements@);
        }
        r
    }

    /// Replaces the usage-refreshed PID set with this cycle's PIDs,
    /// always re-including the sampler's own PID.
    pub fn replace_checked_usage_processes(&mut self, elements: &Vec<usize>, own_pid: usize)
        ensures
            final(self).processes_usage_updated@ == elements@.to_set().insert(own_pid),
            final(self).processes_checked_to_be_used@ == old(self).processes_checked_to_be_used@,
            final(self).process_used == old(self).process_used,
    {
        let mut fresh: HashSetWithView<usize> = HashSetWithView::new();
        let mut j: usize = 0;
        while j < elements.len()
            invariant
                0 <= j <= elements@.len(),
                fresh@ == elements@.take(j as int).to_set(),
            decreases elements@.len() - j,
        {
            fresh.insert(elements[j]);
            proof {
                broadcast use vstd::seq_lib::lemma_seq_contains_after_push;

                let t = elements@.take(j as int);
                let t1 = elements@.take(j + 1);
                let e = elements@[j as int];
                assert(t1 =~= t.push(e));
                assert(t1.to_set() =~= t.to_set().insert(e));
            }
            j += 1;
        }
        fresh.insert(own_pid);
        proof {
            assert(elements@.take(elements@.len() as int) =~= elements@);
        }
        self.processes_usage_updated = fresh;
    }

    /// Replaces the evaluated PID set with this cycle's PIDs, always
    /// re-including the sampler's own PID.
    pub fn replace_checked_to_be_used_processes(&mut self, elements: &Vec<usize>, own_pid: usize)
        ensures
            final(self).processes_checked_to_be_used@ == elements@.to_set().insert(own_pid),
            final(self).processes_usage_updated@ == old(self).processes_usage_updated@,
            final(self).process_used == old(self).process_used,
    {
        let mut fresh: HashSetWithView<usize> = HashSetWithView::new();
        let mut j: usize = 0;
        while j < elements.len()
            invariant
                0 <= j <= elements@.len(),
                fresh@ == elements@.take(j as int).to_set(),
            decreases elements@.len() - j,
        {
            fresh.insert(elements[j]);
            proof {
                broadcast use vstd::seq_lib::lemma_seq_contains_after_push;

                let t = elements@.take(j as int);
                let t1 = elements@.take(j + 1);
                let e = elements@[j as int];
                assert(t1 =~= t.push(e));
                assert(t1.to_set() =~= t.to_set().insert(e));
            }
            j += 1;
        }
        fresh.insert(own_pid);
        proof {
            assert(elements@.take(elements@.len() as int) =~= elements@);
        }
        self.processes_checked_to_be_used = fresh;
    }
}

/// True when a tracked-process display name is safe to embed in the
/// record's header: free of the pair and line separators.
pub open spec fn wf_record_text(s: Seq<char>) -> bool {
    &&& !contains_char(s, ',')
    &&& !contains_char(s, '=')
    &&& !contains_char(s, '\n')
}

/// Parses one `NAME|SEARCH` spec from the command line: the whole entry
/// may not contain `=` or `,` (they would corrupt the record header),
/// and must consist of exactly two parts split by `|`.
pub fn parse_process_search_entry(entry: &str) -> (r: Result<FindingStruct, String>)
    ensures
        match r {
            Ok(f) => {
                &&& !contains_char(entry@, '=')
                &&& !contains_char(entry@, ',')
                &&& spec_split(entry@, '|').len() == 2
                &&& f.graph_name@ == spec_split(entry@, '|')[0]
                &&& f.search_text@ == spec_split(entry@, '|')[1]
                &&& !contains_char(f.graph_name@, '=')
                &&& !contains_char(f.graph_name@, ',')
                &&& !contains_char(f.graph_name@, '|')
            },
            Err(_) => contains_char(entry@, '=') || contains_char(entry@, ',') || spec_split(
                entry@,
                '|',
            ).len() != 2,
        },
{
    if string_contains_char(entry, '=') || string_contains_char(entry, ',') {
        let mut m = entry.to_owned();
        m.append(" - cannot use here = or ,");
        return Err(m);
    }
    let mut parts = split_str(entry, '|');
    proof {
        assert(parts.deep_view().len() == parts@.len());
    }
    if parts.len() != 2 {
        let mut m = entry.to_owned();
        m.append(" - should contains two parts split by |");
        return Err(m);
    }
    proof {
        crate::strutil::lemma_split_parts_free(entry@, '|', '=');
        crate::strutil::lemma_split_parts_free(entry@, '|', ',');
        crate::strutil::lemma_split_parts_no_sep(entry@, '|');
        assert(parts.deep_view().len() == parts@.len());
        assert(parts.deep_view()[0] == parts@[0]@);
        assert(parts.deep_view()[1] == parts@[1]@);
    }
    let ghost dv = parts.deep_view();
    let search_text = parts.pop().unwrap();
    let graph_name = parts.pop().unwrap();
    proof {
        assert(graph_name@ == dv[0]);
        assert(search_text@ == dv[1]);
    }
    Ok(FindingStruct { graph_name, search_text })
}

/// Parses every `NAME|SEARCH` spec, failing on the first bad entry.
pub fn parse_process_search_entries(entries: &Vec<String>) -> (r: Result<
    Vec<FindingStruct>,
    String,
>)
    ensures
        match r {
            Ok(specs) => {
                &&& specs@.len() == entries@.len()
                &&& forall|i: int|
                    0 <= i < entries@.len() ==> {
                        &&& !contains_char(#[trigger] entries@[i]@, '=')
                        &&& !contains_char(entries@[i]@, ',')
                        &&& spec_split(entries@[i]@, '|').len() == 2
                        &&& specs@[i].graph_name@ == spec_split(entries@[i]@, '|')[0]
                        &&& specs@[i].search_text@ == spec_split(entries@[i]@, '|')[1]
                    }
            },
            Err(_) => exists|i: int|
                0 <= i < entries@.len() && (contains_char(#[trigger] entries@[i]@, '=')
                    || contains_char(entries@[i]@, ',') || spec_split(entries@[i]@, '|').len()
                    != 2),
        },
{
    let mut specs: Vec<FindingStruct> = Vec::new();
    let mut i: usize = 0;
    while i < entries.len()
        invariant
            0 <= i <= entries@.len(),
            specs@.len() == i,
            forall|k: int|
                0 <= k < i ==> {
                    &&& !contains_char(#[trigger] entries@[k]@, '=')
                    &&& !contains_char(entries@[k]@, ',')
                    &&& spec_split(entries@[k]@, '|').len() == 2
                    &&& specs@[k].graph_name@ == spec_split(entries@[k]@, '|')[0]
                    &&& specs@[k].search_text@ == spec_split(entries@[k]@, '|')[1]
                },
        decreases entries@.len() - i,
    {
        match parse_process_search_entry(entries[i].as_str()) {
            Ok(f) => {
                specs.push(f);
            },
            Err(m) => {
                return Err(m);
            },
        }
        i += 1;
    }
    Ok(specs)
}

} // verus!
