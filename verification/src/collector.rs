//! The record writer's side of the codec and the sampler step: building
//! the two self-describing header lines, encoding one sample per tick
//! as a comma-joined row, and the size guard that bounds how many row
//! bytes a run may write.
//!
//! The caller owns the file: it hands in fresh metric readings and
//! writes the returned lines out, flushing after each row unless
//! instant flushing is disabled.

use vstd::arithmetic::div_mod::{
    lemma_div_is_ordered, lemma_div_multiples_vanish, lemma_fundamental_div_mod,
};
use vstd::prelude::*;

use crate::enums::{simple_mode_token, SimpleDataCollectionMode};
use crate::model::{CustomProcessData, ProcessCache, Settings};
use crate::numfmt::{
    centi_of, centi_trimmed_of, dec_of, format_centi, format_centi_trimmed, u64_to_dec,
};
use crate::strutil::{join_with_sep, spec_join};

verus! {

/// What `humansize` renders a byte count as, with its binary options;
/// the rendering depends on the byte count alone.
pub uninterp spec fn human_size_of(bytes: u64) -> Seq<char>;

/// Relies on `humansize::format_size` with the `BINARY` options to
/// render a byte count such as `1 MiB`.
#[verifier::external_body]
fn format_size_binary(bytes: u64) -> (r: String)
    ensures
        r@ == human_size_of(bytes),
{
    humansize::format_size(bytes, humansize::BINARY)
}

/// The message reported when the size cap ends a run.
pub open spec fn spec_size_exceeded_message(limit: u64) -> Seq<char> {
    "Exceeded allowed data size - "@ + human_size_of(limit)
        + ", consider to increase size limit, decrease interval or amount of logged data"@
}

/// The message reported when the size cap ends a run, naming the cap in
/// human-readable form.
pub fn size_exceeded_message(limit: usize) -> (r: String)
    ensures
        r@ == spec_size_exceeded_message(limit as u64),
{
    let mut r = String::from_str("Exceeded allowed data size - ");
    r.append(format_size_binary(limit as u64).as_str());
    r.append(", consider to increase size limit, decrease interval or amount of logged data");
    r
}

/// Why the sampler step refused to produce a row.
#[derive(Debug, Clone, Copy, PartialEq, Eq, Structural)]
pub enum CollectError {
    SizeExceeded,
}

/// Tracks the cumulative row bytes written to the data record and
/// signals when the configured cap is reached.
#[derive(Debug, Clone, Copy)]
pub struct SizeGuard {
    pub collected_bytes: usize,
    pub maximum_bytes: usize,
}

/// The byte counter after recording `len` further bytes, saturating at
/// the machine limit.
pub open spec fn spec_guard_count_after(g: SizeGuard, len: nat) -> nat {
    if g.collected_bytes + len <= usize::MAX {
        (g.collected_bytes + len) as nat
    } else {
        usize::MAX as nat
    }
}

/// Whether recording `len` further bytes stays below the cap.
pub open spec fn spec_write_accepted(g: SizeGuard, len: nat) -> bool {
    spec_guard_count_after(g, len) < g.maximum_bytes
}

impl SizeGuard {
    /// True when the accumulated bytes have reached the cap.
    pub open spec fn exceeded(self) -> bool {
        self.collected_bytes >= self.maximum_bytes
    }

    /// A fresh guard for a run with the given byte cap.
    pub fn new(maximum_bytes: usize) -> (g: Self)
        ensures
            g.collected_bytes == 0,
            g.maximum_bytes == maximum_bytes,
    {
        SizeGuard { collected_bytes: 0, maximum_bytes }
    }

    /// Records `len` further row bytes; false when the cap is reached.
    pub fn record(&mut self, len: usize) -> (ok: bool)
        ensures
            final(self).maximum_bytes == old(self).maximum_bytes,
            final(self).collected_bytes == spec_guard_count_after(*old(self), len as nat),
            ok == spec_write_accepted(*old(self), len as nat),
    {
        if len > usize::MAX - self.collected_bytes {
            self.collected_bytes = usize::MAX;
        } else {
            self.collected_bytes = self.collected_bytes + len;
        }
        self.collected_bytes < self.maximum_bytes
    }
}

/// Once the accumulated bytes have reached the cap, no further write is
/// accepted, whatever its length: the run ends at the cap.
pub proof fn lemma_size_cap_blocks(g: SizeGuard, len: nat)
    requires
        g.exceeded(),
    ensures
        !spec_write_accepted(g, len),
{
}

/// One tick's metric readings, handed in by the caller: memory and swap
/// in bytes, per-core CPU usage in centi-percent.
#[derive(Debug, Clone)]
pub struct SystemSnapshot {
    pub used_memory: u64,
    pub free_memory: u64,
    pub available_memory: u64,
    pub used_swap: u64,
    pub free_swap: u64,
    pub per_core_cpu: Vec<u64>,
}

/// A byte count as centi-megabytes, rounded to the nearest hundredth
/// of a megabyte with half rounded up.
pub open spec fn spec_mb_centi(bytes: u64) -> nat {
    ((bytes as nat) * 100 + 524288) / 1048576
}

/// The quotient `v / n` rounded to the nearest integer, half up.
pub open spec fn spec_rounded_div(v: nat, n: nat) -> nat
    recommends
        n > 0,
{
    if 2 * (v % n) >= n {
        v / n + 1
    } else {
        v / n
    }
}

/// The sum of a sequence of counters.
pub open spec fn sum_u64(s: Seq<u64>) -> nat
    decreases s.len(),
{
    if s.len() == 0 {
        0
    } else {
        (sum_u64(s.drop_last()) + s.last()) as nat
    }
}

/// The average of the per-core readings, rounded half up.
pub open spec fn spec_avg_centi(s: Seq<u64>) -> nat
    recommends
        s.len() > 0,
{
    spec_rounded_div(sum_u64(s), s.len())
}

proof fn lemma_sum_u64_bound(s: Seq<u64>)
    ensures
        sum_u64(s) <= s.len() * (u64::MAX as nat),
    decreases s.len(),
{
    if s.len() > 0 {
        lemma_sum_u64_bound(s.drop_last());
        assert((s.len() - 1) * (u64::MAX as nat) + (u64::MAX as nat) == s.len() * (
        u64::MAX as nat)) by (nonlinear_arith);
    }
}

/// A megabyte rendering always fits a counter.
pub proof fn lemma_mb_centi_fits(bytes: u64)
    ensures
        spec_mb_centi(bytes) <= u64::MAX,
{
    let num = (bytes as nat) * 100 + 524288;
    assert(num <= (u64::MAX as nat) * 100 + 524288);
    lemma_div_is_ordered(num as int, ((u64::MAX as nat) * 100 + 524288) as int, 1048576);
}

/// The byte count as centi-megabytes, rendered with two decimals.
pub fn convert_into_string_megabytes(bytes: u64) -> (r: String)
    ensures
        r@ == centi_of(spec_mb_centi(bytes)),
{
    let num: u128 = bytes as u128 * 100 + 524288;
    let v128: u128 = num / 1048576;
    proof {
        lemma_mb_centi_fits(bytes);
    }
    let v: u64 = v128 as u64;
    format_centi(v)
}

/// The quotient `v / n` rounded to the nearest integer, half up.
pub fn rounded_div(v: u64, n: u64) -> (r: u64)
    requires
        n > 0,
    ensures
        r as nat == spec_rounded_div(v as nat, n as nat),
{
    let q = v / n;
    let rem = v % n;
    if rem >= n - rem {
        proof {
            if n == 1 {
                assert(v % 1 == 0) by {
                    lemma_fundamental_div_mod(v as int, 1);
                }
            }
            assert(n >= 2);
            assert(q <= v / 2) by {
                lemma_fundamental_div_mod(v as int, n as int);
                lemma_div_is_ordered((n as int) * (v as int / n as int), v as int, 2);
                assert((n as int) * (v as int / n as int) >= 2 * (v as int / n as int))
                    by (nonlinear_arith)
                    requires
                        n >= 2,
                        v as int / n as int >= 0,
                ;
                lemma_div_multiples_vanish(v as int / n as int, 2);
                lemma_div_is_ordered(
                    2 * (v as int / n as int),
                    (n as int) * (v as int / n as int),
                    2,
                );
            }
            assert(2 * rem >= n);
        }
        q + 1
    } else {
        proof {
            assert(2 * rem < n);
        }
        q
    }
}

/// The sum of the per-core readings.
fn sum_cores(cores: &Vec<u64>) -> (s: u128)
    ensures
        s as nat == sum_u64(cores@),
        s as nat <= cores@.len() * (u64::MAX as nat),
{
    let mut s: u128 = 0;
    let mut i: usize = 0;
    proof {
        assert(cores@.take(0) =~= Seq::<u64>::empty());
        lemma_sum_u64_bound(cores@);
    }
    while i < cores.len()
        invariant
            0 <= i <= cores@.len(),
            s as nat == sum_u64(cores@.take(i as int)),
            sum_u64(cores@) <= cores@.len() * (u64::MAX as nat),
            s as nat <= (i as nat) * (u64::MAX as nat),
        decreases cores@.len() - i,
    {
        proof {
            let t = cores@.take(i as int);
            let t1 = cores@.take(i + 1);
            assert(t1.drop_last() =~= t);
            assert(t1.last() == cores@[i as int]);
            assert((i as nat) * (u64::MAX as nat) + (u64::MAX as nat) == ((i + 1) as nat) * (
            u64::MAX as nat)) by (nonlinear_arith);
            assert((i as u128) * (u64::MAX as u128) <= (u64::MAX as u128) * (u64::MAX as u128))
                by (nonlinear_arith)
                requires
                    0 <= i <= u64::MAX,
            ;
        }
        s = s + cores[i] as u128;
        i += 1;
    }
    proof {
        assert(cores@.take(cores@.len() as int) =~= cores@);
    }
    s
}

/// The average per-core CPU usage in centi-percent, rounded half up.
pub fn average_core_usage(cores: &Vec<u64>) -> (r: u64)
    requires
        cores@.len() >= 1,
    ensures
        r as nat == spec_avg_centi(cores@),
{
    let total = sum_cores(cores);
    let n = cores.len() as u128;
    let q = total / n;
    let rem = total % n;
    proof {
        let t = total as nat;
        let nn = cores@.len() as nat;
        assert(t / nn <= u64::MAX) by {
            lemma_sum_u64_bound(cores@);
            lemma_div_is_ordered(t as int, (nn * (u64::MAX as nat)) as int, nn as int);
            lemma_div_multiples_vanish(u64::MAX as int, nn as int);
            assert((nn as int) * (u64::MAX as int) == (u64::MAX as int) * (nn as int))
                by (nonlinear_arith);
        }
        lemma_fundamental_div_mod(t as int, nn as int);
        if rem > 0 && q as nat == u64::MAX as nat {
            assert((nn as int) * (u64::MAX as int) >= 1 * (u64::MAX as int)) by (nonlinear_arith)
                requires
                    nn >= 1,
            ;
            assert(t > nn * (u64::MAX as nat));
            lemma_sum_u64_bound(cores@);
            assert((nn as int) * (u64::MAX as int) == (u64::MAX as int) * (nn as int))
                by (nonlinear_arith);
            assert(false);
        }
    }
    if rem >= n - rem {
        (q as u64) + 1
    } else {
        q as u64
    }
}

/// The rendered field of one collection mode for this tick's readings.
pub open spec fn spec_mode_cell(m: SimpleDataCollectionMode, snap: SystemSnapshot) -> Seq<char> {
    match m {
        SimpleDataCollectionMode::MEMORY_USED => centi_of(spec_mb_centi(snap.used_memory)),
        SimpleDataCollectionMode::MEMORY_AVAILABLE => centi_of(
            spec_mb_centi(snap.available_memory),
        ),
        SimpleDataCollectionMode::MEMORY_FREE => centi_of(spec_mb_centi(snap.free_memory)),
        SimpleDataCollectionMode::CPU_USAGE_TOTAL => centi_of(spec_avg_centi(snap.per_core_cpu@)),
        SimpleDataCollectionMode::CPU_USAGE_PER_CORE => spec_join(
            spec_core_cells(snap.per_core_cpu@),
            ';',
        ),
        SimpleDataCollectionMode::SWAP_FREE => centi_of(spec_mb_centi(snap.free_swap)),
        SimpleDataCollectionMode::SWAP_USED => centi_of(spec_mb_centi(snap.used_swap)),
    }
}

/// The rendered per-core readings, one field per core.
pub open spec fn spec_core_cells(cores: Seq<u64>) -> Seq<Seq<char>>
    decreases cores.len(),
{
    if cores.len() == 0 {
        Seq::empty()
    } else {
        spec_core_cells(cores.drop_last()).push(centi_of(cores.last() as nat))
    }
}

/// The rendered fields of the selected modes, in order.
pub open spec fn spec_mode_cells(
    modes: Seq<SimpleDataCollectionMode>,
    snap: SystemSnapshot,
) -> Seq<Seq<char>>
    decreases modes.len(),
{
    if modes.len() == 0 {
        Seq::empty()
    } else {
        spec_mode_cells(modes.drop_last(), snap).push(spec_mode_cell(modes.last(), snap))
    }
}

/// The two rendered fields of each tracked-process slot: CPU usage
/// divided over the cores and memory in centi-megabytes, or `-1,-1`
/// for an unbound slot.
pub open spec fn spec_proc_cells(
    procs: Seq<Option<CustomProcessData>>,
    cores: nat,
) -> Seq<Seq<char>>
    decreases procs.len(),
{
    if procs.len() == 0 {
        Seq::empty()
    } else {
        spec_proc_cells(procs.drop_last(), cores) + (match procs.last() {
            Some(p) => seq![
                centi_of(spec_rounded_div(p.cpu_usage as nat, cores)),
                centi_of(spec_mb_centi(p.memory_usage)),
            ],
            None => seq!["-1"@, "-1"@],
        })
    }
}

/// All rendered fields of one sample row, in declared column order:
/// the timestamp, one field per selected mode, and two fields per
/// tracked-process slot when process tracking is on.
pub open spec fn spec_row_cells(
    timestamp_centi: u64,
    modes: Seq<SimpleDataCollectionMode>,
    snap: SystemSnapshot,
    procs: Seq<Option<CustomProcessData>>,
    include_procs: bool,
) -> Seq<Seq<char>> {
    seq![centi_of(timestamp_centi as nat)] + spec_mode_cells(modes, snap) + (if include_procs {
        spec_proc_cells(procs, snap.per_core_cpu@.len())
    } else {
        Seq::empty()
    })
}

/// One sample row as written to the record: its fields comma-joined.
pub open spec fn spec_data_row(
    timestamp_centi: u64,
    modes: Seq<SimpleDataCollectionMode>,
    snap: SystemSnapshot,
    procs: Seq<Option<CustomProcessData>>,
    include_procs: bool,
) -> Seq<char> {
    spec_join(spec_row_cells(timestamp_centi, modes, snap, procs, include_procs), ',')
}

/// The rendered per-core field: per-core readings joined by `;`.
fn build_per_core_cell(cores: &Vec<u64>) -> (r: String)
    ensures
        r@ == spec_join(spec_core_cells(cores@), ';'),
{
    let mut cells: Vec<String> = Vec::new();
    let mut i: usize = 0;
    proof {
        assert(cores@.take(0) =~= Seq::<u64>::empty());
        assert(cells.deep_view() =~= spec_core_cells(cores@.take(0)));
    }
    while i < cores.len()
        invariant
            0 <= i <= cores@.len(),
            cells.deep_view() == spec_core_cells(cores@.take(i as int)),
        decreases cores@.len() - i,
    {
        let ghost old_dv = cells.deep_view();
        let cell = format_centi(cores[i]);
        cells.push(cell);
        proof {
            let t = cores@.take(i as int);
            let t1 = cores@.take(i + 1);
            assert(t1.drop_last() =~= t);
            assert(t1.last() == cores@[i as int]);
            assert(cells.deep_view() =~= old_dv.push(centi_of(cores@[i as int] as nat)));
        }
        i += 1;
    }
    proof {
        assert(cores@.take(cores@.len() as int) =~= cores@);
        reveal_strlit(";");
    }
    join_with_sep(&cells, ";")
}

/// All fields of one sample row, in declared column order.
fn build_row_cells(
    timestamp_centi: u64,
    snap: &SystemSnapshot,
    settings: &Settings,
    cache: &ProcessCache,
) -> (cells: Vec<String>)
    requires
        snap.per_core_cpu@.len() >= 1,
    ensures
        cells.deep_view() == spec_row_cells(
            timestamp_centi,
            settings.collection_mode@,
            *snap,
            cache.process_used@,
            settings.need_to_refresh_processes,
        ),
{
    let mut cells: Vec<String> = Vec::new();
    cells.push(format_centi(timestamp_centi));
    let modes = &settings.collection_mode;
    let mut i: usize = 0;
    proof {
        assert(modes@.take(0) =~= Seq::<SimpleDataCollectionMode>::empty());
        assert(cells.deep_view() =~= seq![centi_of(timestamp_centi as nat)] + spec_mode_cells(
            modes@.take(0),
            *snap,
        ));
    }
    while i < modes.len()
        invariant
            snap.per_core_cpu@.len() >= 1,
            0 <= i <= modes@.len(),
            cells.deep_view() == seq![centi_of(timestamp_centi as nat)] + spec_mode_cells(
                modes@.take(i as int),
                *snap,
            ),
        decreases modes@.len() - i,
    {
        let ghost old_dv = cells.deep_view();
        let cell: String = match modes[i] {
            SimpleDataCollectionMode::MEMORY_USED => convert_into_string_megabytes(
                snap.used_memory,
            ),
            SimpleDataCollectionMode::MEMORY_AVAILABLE => convert_into_string_megabytes(
                snap.available_memory,
            ),
            SimpleDataCollectionMode::MEMORY_FREE => convert_into_string_megabytes(
                snap.free_memory,
            ),
            SimpleDataCollectionMode::CPU_USAGE_TOTAL => format_centi(
                average_core_usage(&snap.per_core_cpu),
            ),
            SimpleDataCollectionMode::CPU_USAGE_PER_CORE => build_per_core_cell(
                &snap.per_core_cpu,
            ),
            SimpleDataCollectionMode::SWAP_FREE => convert_into_string_megabytes(snap.free_swap),
            SimpleDataCollectionMode::SWAP_USED => convert_into_string_megabytes(snap.used_swap),
        };
        proof {
            assert(cell@ == spec_mode_cell(modes@[i as int], *snap));
        }
        cells.push(cell);
        proof {
            let t = modes@.take(i as int);
            let t1 = modes@.take(i + 1);
            assert(t1.drop_last() =~= t);
            assert(t1.last() == modes@[i as int]);
            assert(cells.deep_view() =~= old_dv.push(spec_mode_cell(modes@[i as int], *snap)));
            assert(cells.deep_view() =~= seq![centi_of(timestamp_centi as nat)] + spec_mode_cells(
                t1,
                *snap,
            ));
        }
        i += 1;
    }
    proof {
        assert(modes@.take(modes@.len() as int) =~= modes@);
    }
    if settings.need_to_refresh_processes {
        let procs = &cache.process_used;
        let cores = snap.per_core_cpu.len() as u64;
        let mut j: usize = 0;
        proof {
            assert(procs@.take(0) =~= Seq::<Option<CustomProcessData>>::empty());
            assert(cells.deep_view() + spec_proc_cells(procs@.take(0), snap.per_core_cpu@.len())
                =~= cells.deep_view());
        }
        let ghost base_dv = cells.deep_view();
        while j < procs.len()
            invariant
                snap.per_core_cpu@.len() >= 1,
                cores == snap.per_core_cpu@.len(),
                0 <= j <= procs@.len(),
                cells.deep_view() == base_dv + spec_proc_cells(
                    procs@.take(j as int),
                    snap.per_core_cpu@.len(),
                ),
            decreases procs@.len() - j,
        {
            let ghost old_dv = cells.deep_view();
            match &procs[j] {
                Some(p) => {
                    cells.push(format_centi(rounded_div(p.cpu_usage, cores)));
                    cells.push(convert_into_string_megabytes(p.memory_usage));
                },
                None => {
                    proof {
                        reveal_strlit("-1");
                    }
                    cells.push(String::from_str("-1"));
                    cells.push(String::from_str("-1"));
                },
            }
            proof {
                let nc = snap.per_core_cpu@.len();
                let t = procs@.take(j as int);
                let t1 = procs@.take(j + 1);
                assert(t1.drop_last() =~= t);
                assert(t1.last() == procs@[j as int]);
                match procs@[j as int] {
                    Some(p) => {
                        assert(cells.deep_view() =~= old_dv + seq![
                            centi_of(spec_rounded_div(p.cpu_usage as nat, nc)),
                            centi_of(spec_mb_centi(p.memory_usage)),
                        ]);
                    },
                    None => {
                        assert(cells.deep_view() =~= old_dv + seq!["-1"@, "-1"@]);
                    },
                }
                assert(cells.deep_view() =~= base_dv + spec_proc_cells(t1, nc));
            }
            j += 1;
        }
        proof {
            assert(procs@.take(procs@.len() as int) =~= procs@);
        }
    }
    proof {
        assert(cells.deep_view() =~= spec_row_cells(
            timestamp_centi,
            settings.collection_mode@,
            *snap,
            cache.process_used@,
            settings.need_to_refresh_processes,
        ));
    }
    cells
}

/// Encodes one tick's sample as a record row and accounts its bytes
/// against the size guard. When the accumulated bytes reach the cap
/// the row is withheld and the run must end: once the cap is reached,
/// every further attempt fails and no further row is appended.
pub fn collect_and_save_data(
    guard: &mut SizeGuard,
    timestamp_centi: u64,
    snap: &SystemSnapshot,
    settings: &Settings,
    cache: &ProcessCache,
) -> (r: Result<String, CollectError>)
    requires
        snap.per_core_cpu@.len() >= 1,
    ensures
        ({
            let row = spec_data_row(
                timestamp_centi,
                settings.collection_mode@,
                *snap,
                cache.process_used@,
                settings.need_to_refresh_processes,
            );
            &&& final(guard).maximum_bytes == old(guard).maximum_bytes
            &&& final(guard).collected_bytes == spec_guard_count_after(*old(guard), row.len())
            &&& spec_write_accepted(*old(guard), row.len()) ==> r is Ok && r->Ok_0@ == row
            &&& !spec_write_accepted(*old(guard), row.len()) ==> r is Err && r->Err_0
                == CollectError::SizeExceeded
        }),
{
    let cells = build_row_cells(timestamp_centi, snap, settings, cache);
    proof {
        reveal_strlit(",");
    }
    let row = join_with_sep(&cells, ",");
    let len = row.as_str().unicode_len();
    if guard.record(len) {
        Ok(row)
    } else {
        Err(CollectError::SizeExceeded)
    }
}

/// The `KEY=VALUE` fields of header line 1: the run parameters, then
/// one `CUSTOM_{i}={name}` pair per tracked-process spec.
pub open spec fn spec_header_pairs(
    s: Settings,
    cpu_core_count: usize,
    memory_total: u64,
    swap_total: u64,
) -> Seq<Seq<char>> {
    seq![
        "INTERVAL_SECONDS="@ + centi_trimmed_of(s.check_interval as nat),
        "CPU_CORE_COUNT="@ + dec_of(cpu_core_count as nat),
        "MEMORY_TOTAL="@ + centi_of(spec_mb_centi(memory_total)),
        "SWAP_TOTAL="@ + centi_of(spec_mb_centi(swap_total)),
        "APP_VERSION="@ + s.app_version@,
    ] + spec_custom_pairs(s.process_cmd_to_search@)
}

/// The `CUSTOM_{i}={name}` pairs, one per tracked-process spec.
pub open spec fn spec_custom_pairs(specs: Seq<crate::model::FindingStruct>) -> Seq<Seq<char>> {
    Seq::new(specs.len(), |i: int| "CUSTOM_"@ + dec_of(i as nat) + "="@ + specs[i].graph_name@)
}

/// Header line 1: the `KEY=VALUE` fields comma-joined.
pub open spec fn spec_header_line1(
    s: Settings,
    cpu_core_count: usize,
    memory_total: u64,
    swap_total: u64,
) -> Seq<char> {
    spec_join(spec_header_pairs(s, cpu_core_count, memory_total, swap_total), ',')
}

/// The column tokens of header line 2: the timestamp column, one token
/// per selected mode, then a CPU and a memory column per spec.
pub open spec fn spec_header_columns(
    modes: Seq<SimpleDataCollectionMode>,
    n_specs: nat,
) -> Seq<Seq<char>> {
    seq!["UNIX_TIMESTAMP"@] + spec_mode_tokens(modes) + spec_custom_columns(n_specs)
}

/// The column tokens of the selected modes, in order.
pub open spec fn spec_mode_tokens(modes: Seq<SimpleDataCollectionMode>) -> Seq<Seq<char>>
    decreases modes.len(),
{
    if modes.len() == 0 {
        Seq::empty()
    } else {
        spec_mode_tokens(modes.drop_last()).push(simple_mode_token(modes.last()))
    }
}

/// The `CUSTOM_{i}_CPU,CUSTOM_{i}_MEMORY` column tokens, in spec order.
pub open spec fn spec_custom_columns(n_specs: nat) -> Seq<Seq<char>> {
    Seq::new(
        2 * n_specs,
        |j: int|
            if j % 2 == 0 {
                "CUSTOM_"@ + dec_of((j / 2) as nat) + "_CPU"@
            } else {
                "CUSTOM_"@ + dec_of((j / 2) as nat) + "_MEMORY"@
            },
    )
}

/// Header line 2: the column tokens comma-joined.
pub open spec fn spec_header_line2(modes: Seq<SimpleDataCollectionMode>, n_specs: nat) -> Seq<
    char,
> {
    spec_join(spec_header_columns(modes, n_specs), ',')
}

/// Builds the two header lines of a fresh record: line 1 with the run
/// parameters and custom-name map, line 2 with the declared column
/// order that every row follows.
pub fn build_header_lines(
    settings: &Settings,
    cpu_core_count: usize,
    memory_total: u64,
    swap_total: u64,
) -> (r: (String, String))
    ensures
        r.0@ == spec_header_line1(*settings, cpu_core_count, memory_total, swap_total),
        r.1@ == spec_header_line2(
            settings.collection_mode@,
            settings.process_cmd_to_search@.len(),
        ),
{
    proof {
        reveal_strlit(",");
    }
    let mut pairs: Vec<String> = Vec::new();
    let mut p = String::from_str("INTERVAL_SECONDS=");
    p.append(format_centi_trimmed(settings.check_interval).as_str());
    pairs.push(p);
    let mut p = String::from_str("CPU_CORE_COUNT=");
    p.append(u64_to_dec(cpu_core_count as u64).as_str());
    pairs.push(p);
    let mut p = String::from_str("MEMORY_TOTAL=");
    p.append(convert_into_string_megabytes(memory_total).as_str());
    pairs.push(p);
    let mut p = String::from_str("SWAP_TOTAL=");
    p.append(convert_into_string_megabytes(swap_total).as_str());
    pairs.push(p);
    let mut p = String::from_str("APP_VERSION=");
    p.append(settings.app_version.as_str());
    pairs.push(p);
    let specs = &settings.process_cmd_to_search;
    let ghost fixed_pairs = pairs.deep_view();
    let mut i: usize = 0;
    proof {
        assert(pairs.deep_view() =~= fixed_pairs + spec_custom_pairs(specs@).take(0));
    }
    while i < specs.len()
        invariant
            0 <= i <= specs@.len(),
            pairs.deep_view() == fixed_pairs + spec_custom_pairs(specs@).take(i as int),
            fixed_pairs.len() == 5,
        decreases specs@.len() - i,
    {
        let ghost old_dv = pairs.deep_view();
        let mut p = String::from_str("CUSTOM_");
        p.append(u64_to_dec(i as u64).as_str());
        p.append("=");
        p.append(specs[i].graph_name.as_str());
        proof {
            reveal_strlit("=");
            assert(p@ == "CUSTOM_"@ + dec_of(i as nat) + "="@ + specs@[i as int].graph_name@);
        }
        pairs.push(p);
        proof {
            assert(pairs.deep_view() =~= old_dv.push(spec_custom_pairs(specs@)[i as int]));
            assert(spec_custom_pairs(specs@).take(i + 1) =~= spec_custom_pairs(specs@).take(
                i as int,
            ).push(spec_custom_pairs(specs@)[i as int]));
            assert(pairs.deep_view() =~= fixed_pairs + spec_custom_pairs(specs@).take(i + 1));
        }
        i += 1;
    }
    proof {
        assert(spec_custom_pairs(specs@).take(specs@.len() as int) =~= spec_custom_pairs(specs@));
        assert(pairs.deep_view() =~= spec_header_pairs(
            *settings,
            cpu_core_count,
            memory_total,
            swap_total,
        ));
    }
    let line1 = join_with_sep(&pairs, ",");

    let mut columns: Vec<String> = Vec::new();
    columns.push(String::from_str("UNIX_TIMESTAMP"));
    let modes = &settings.collection_mode;
    let ghost ts_col = columns.deep_view();
    let mut i: usize = 0;
    proof {
        assert(columns.deep_view() =~= ts_col + spec_mode_tokens(modes@.take(0)));
    }
    while i < modes.len()
        invariant
            0 <= i <= modes@.len(),
            columns.deep_view() == ts_col + spec_mode_tokens(modes@.take(i as int)),
            ts_col.len() == 1,
        decreases modes@.len() - i,
    {
        let ghost old_dv = columns.deep_view();
        columns.push(modes[i].as_str().to_owned());
        proof {
            let t = modes@.take(i as int);
            let t1 = modes@.take(i + 1);
            assert(t1.drop_last() =~= t);
            assert(t1.last() == modes@[i as int]);
            assert(columns.deep_view() =~= old_dv.push(simple_mode_token(modes@[i as int])));
            assert(columns.deep_view() =~= ts_col + spec_mode_tokens(t1));
        }
        i += 1;
    }
    proof {
        assert(modes@.take(modes@.len() as int) =~= modes@);
    }
    let ghost with_modes = columns.deep_view();
    let mut i: usize = 0;
    proof {
        assert(columns.deep_view() =~= with_modes + spec_custom_columns(specs@.len()).take(0));
    }
    while i < specs.len()
        invariant
            0 <= i <= specs@.len(),
            columns.deep_view() == with_modes + spec_custom_columns(specs@.len()).take(
                2 * i as int,
            ),
        decreases specs@.len() - i,
    {
        let ghost old_dv = columns.deep_view();
        let num = u64_to_dec(i as u64);
        let mut c = String::from_str("CUSTOM_");
        c.append(num.as_str());
        c.append("_CPU");
        let mut m = String::from_str("CUSTOM_");
        m.append(num.as_str());
        m.append("_MEMORY");
        proof {
            reveal_strlit("_CPU");
            reveal_strlit("_MEMORY");
        }
        columns.push(c);
        columns.push(m);
        proof {
            let cc = spec_custom_columns(specs@.len());
            assert((2 * i as int) % 2 == 0);
            assert((2 * i as int + 1) % 2 == 1);
            assert((2 * i as int) / 2 == i as int);
            assert((2 * i as int + 1) / 2 == i as int);
            assert(columns.deep_view() =~= old_dv.push(cc[2 * i as int]).push(cc[2 * i as int
                + 1]));
            assert(cc.take(2 * (i + 1) as int) =~= cc.take(2 * i as int).push(
                cc[2 * i as int],
            ).push(cc[2 * i as int + 1]));
            assert(columns.deep_view() =~= with_modes + cc.take(2 * (i + 1) as int));
        }
        i += 1;
    }
    proof {
        let cc = spec_custom_columns(specs@.len());
        assert(cc.take(2 * specs@.len() as int) =~= cc);
        assert(columns.deep_view() =~= spec_header_columns(modes@, specs@.len()));
    }
    let line2 = join_with_sep(&columns, ",");
    (line1, line2)
}

} // verus!
