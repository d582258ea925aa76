//! The round-trip law of the record codec: a record written by the
//! header and row builders decodes back to the same declared column
//! order and the same rendered values.

use vstd::prelude::*;

use crate::collector::{
    lemma_mb_centi_fits, spec_avg_centi, spec_core_cells, spec_custom_columns, spec_custom_pairs,
    spec_data_row, spec_header_columns, spec_header_line1, spec_header_line2, spec_header_pairs,
    spec_mb_centi, spec_mode_cell, spec_mode_cells, spec_mode_tokens, spec_proc_cells,
    spec_rounded_div, spec_row_cells, SystemSnapshot,
};
use crate::csv_file_loader::{
    column_matches, spec_column_ok, spec_core_count, spec_custom_idx, spec_custom_is_cpu,
    spec_custom_key, spec_custom_shape_ok, spec_line1_ok, spec_line2_ok, spec_line_pairs,
    spec_lookup, spec_pair_items, spec_pair_key, spec_pair_value, spec_pairs_ok,
};
use crate::enums::{
    data_type_token, lemma_parse_fixed_of_token, mode_data_type, simple_mode_token,
    spec_parse_fixed_data_type, DataType, SimpleDataCollectionMode,
};
use crate::model::{CustomProcessData, Settings, wf_record_text};
use crate::numfmt::{
    centi_of, centi_trimmed_of, dec_of, dec_val, lemma_centi_of_free, lemma_dec_of_props,
    lemma_digits_free_of, lemma_parse_centi_of, lemma_parse_centi_trimmed_of, spec_parse_centi,
    spec_parse_dec_ok,
};
use crate::strutil::{
    contains_char, lemma_concat_free, lemma_split_of_join, lemma_split_step, lemma_split_whole,
    spec_join, spec_split,
};

verus! {

/// The keys and rendered values written into header line 1, in order.
pub open spec fn spec_header_kvs(
    s: Settings,
    cpu_core_count: usize,
    memory_total: u64,
    swap_total: u64,
) -> Seq<(Seq<char>, Seq<char>)> {
    seq![
        ("INTERVAL_SECONDS"@, centi_trimmed_of(s.check_interval as nat)),
        ("CPU_CORE_COUNT"@, dec_of(cpu_core_count as nat)),
        ("MEMORY_TOTAL"@, centi_of(spec_mb_centi(memory_total))),
        ("SWAP_TOTAL"@, centi_of(spec_mb_centi(swap_total))),
        ("APP_VERSION"@, s.app_version@),
    ] + Seq::new(
        s.process_cmd_to_search@.len(),
        |j: int| ("CUSTOM_"@ + dec_of(j as nat), s.process_cmd_to_search@[j].graph_name@),
    )
}

proof fn lemma_key_literals()
    ensures
        !contains_char("INTERVAL_SECONDS="@, ','),
        !contains_char("CPU_CORE_COUNT="@, ','),
        !contains_char("MEMORY_TOTAL="@, ','),
        !contains_char("SWAP_TOTAL="@, ','),
        !contains_char("APP_VERSION="@, ','),
        !contains_char("CUSTOM_"@, ','),
        !contains_char("CUSTOM_"@, '='),
        !contains_char("="@, ','),
        "INTERVAL_SECONDS="@.len() == 17,
        "CPU_CORE_COUNT="@.len() == 15,
        "MEMORY_TOTAL="@.len() == 13,
        "SWAP_TOTAL="@.len() == 11,
        "APP_VERSION="@.len() == 12,
        "CUSTOM_"@.len() == 7,
        "="@.len() == 1,
        "="@[0] == '=',
        forall|k: int| 0 <= k < 16 ==> "INTERVAL_SECONDS="@[k] != '=',
        "INTERVAL_SECONDS="@[16] == '=',
        forall|k: int| 0 <= k < 14 ==> "CPU_CORE_COUNT="@[k] != '=',
        "CPU_CORE_COUNT="@[14] == '=',
        forall|k: int| 0 <= k < 12 ==> "MEMORY_TOTAL="@[k] != '=',
        "MEMORY_TOTAL="@[12] == '=',
        forall|k: int| 0 <= k < 10 ==> "SWAP_TOTAL="@[k] != '=',
        "SWAP_TOTAL="@[10] == '=',
        forall|k: int| 0 <= k < 11 ==> "APP_VERSION="@[k] != '=',
        "APP_VERSION="@[11] == '=',
        "INTERVAL_SECONDS="@.take(16) =~= "INTERVAL_SECONDS"@,
        "CPU_CORE_COUNT="@.take(14) =~= "CPU_CORE_COUNT"@,
        "MEMORY_TOTAL="@.take(12) =~= "MEMORY_TOTAL"@,
        "SWAP_TOTAL="@.take(10) =~= "SWAP_TOTAL"@,
        "APP_VERSION="@.take(11) =~= "APP_VERSION"@,
        "INTERVAL_SECONDS"@.len() == 16,
        "CPU_CORE_COUNT"@.len() == 14,
        "MEMORY_TOTAL"@.len() == 12,
        "SWAP_TOTAL"@.len() == 10,
        "APP_VERSION"@.len() == 11,
        "CUSTOM_"@[0] == 'C',
        "CUSTOM_"@[1] == 'U',
        "SWAP_TOTAL"@[0] == 'S',
        "MEMORY_TOTAL"@[0] == 'M',
        "INTERVAL_SECONDS"@[0] == 'I',
        "CPU_CORE_COUNT"@[1] == 'P',
{
    reveal_strlit("INTERVAL_SECONDS=");
    reveal_strlit("CPU_CORE_COUNT=");
    reveal_strlit("MEMORY_TOTAL=");
    reveal_strlit("SWAP_TOTAL=");
    reveal_strlit("APP_VERSION=");
    reveal_strlit("INTERVAL_SECONDS");
    reveal_strlit("CPU_CORE_COUNT");
    reveal_strlit("MEMORY_TOTAL");
    reveal_strlit("SWAP_TOTAL");
    reveal_strlit("APP_VERSION");
    reveal_strlit("CUSTOM_");
    reveal_strlit("=");
}

/// A `KEY=VALUE` pair string splits on `=` into its key and value.
proof fn lemma_pair_splits(pair: Seq<char>, keylen: int, value: Seq<char>)
    requires
        0 <= keylen < pair.len(),
        pair[keylen] == '=',
        forall|k: int| 0 <= k < keylen ==> pair[k] != '=',
        pair.skip(keylen + 1) == value,
        !contains_char(value, '='),
    ensures
        spec_split(pair, '=').len() == 2,
        spec_split(pair, '=')[0] == pair.take(keylen),
        spec_split(pair, '=')[1] == value,
{
    lemma_split_step(pair, '=', keylen);
    lemma_split_whole(value, '=');
}

/// Looking a key up past appended pairs whose keys all differ.
proof fn lemma_lookup_skip_tail(
    base: Seq<(Seq<char>, Seq<char>)>,
    tail: Seq<(Seq<char>, Seq<char>)>,
    key: Seq<char>,
)
    requires
        forall|j: int| 0 <= j < tail.len() ==> (#[trigger] tail[j]).0 != key,
    ensures
        spec_lookup(base + tail, key) == spec_lookup(base, key),
    decreases tail.len(),
{
    if tail.len() == 0 {
        assert(base + tail =~= base);
    } else {
        let w = base + tail;
        assert(w.last() == tail.last());
        assert(w.drop_last() =~= base + tail.drop_last());
        lemma_lookup_skip_tail(base, tail.drop_last(), key);
    }
}

/// Header line 1 written for a run parses back: its pairs are well
/// formed and the four required keys carry the values the run was
/// configured with.
#[verifier::rlimit(80)]
pub proof fn lemma_round_trip_line1(
    s: Settings,
    cpu_core_count: usize,
    memory_total: u64,
    swap_total: u64,
)
    requires
        wf_record_text(s.app_version@),
        forall|k: int|
            0 <= k < s.process_cmd_to_search@.len() ==> wf_record_text(
                (#[trigger] s.process_cmd_to_search@[k]).graph_name@,
            ),
    ensures
        ({
            let line1 = spec_header_line1(s, cpu_core_count, memory_total, swap_total);
            let pv = spec_line_pairs(line1);
            &&& spec_line1_ok(line1)
            &&& spec_lookup(pv, "SWAP_TOTAL"@) == Some(centi_of(spec_mb_centi(swap_total)))
            &&& spec_parse_centi(spec_lookup(pv, "SWAP_TOTAL"@)->0) == Some(
                spec_mb_centi(swap_total) as int,
            )
            &&& spec_lookup(pv, "MEMORY_TOTAL"@) == Some(centi_of(spec_mb_centi(memory_total)))
            &&& spec_parse_centi(spec_lookup(pv, "MEMORY_TOTAL"@)->0) == Some(
                spec_mb_centi(memory_total) as int,
            )
            &&& spec_core_count(line1) == cpu_core_count
            &&& spec_lookup(pv, "INTERVAL_SECONDS"@) == Some(
                centi_trimmed_of(s.check_interval as nat),
            )
            &&& spec_parse_centi(spec_lookup(pv, "INTERVAL_SECONDS"@)->0) == Some(
                s.check_interval as int,
            )
            &&& forall|k: int|
                0 <= k < s.process_cmd_to_search@.len() ==> spec_lookup(
                    pv,
                    "CUSTOM_"@ + dec_of(k as nat),
                ) == Some((#[trigger] s.process_cmd_to_search@[k]).graph_name@)
        }),
{
    lemma_key_literals();
    let n = s.process_cmd_to_search@.len();
    let pairs = spec_header_pairs(s, cpu_core_count, memory_total, swap_total);
    let kvs = spec_header_kvs(s, cpu_core_count, memory_total, swap_total);
    let line1 = spec_header_line1(s, cpu_core_count, memory_total, swap_total);

    lemma_centi_of_free(s.check_interval as nat, ',');
    lemma_centi_of_free(s.check_interval as nat, '=');
    lemma_centi_of_free(spec_mb_centi(memory_total), ',');
    lemma_centi_of_free(spec_mb_centi(memory_total), '=');
    lemma_centi_of_free(spec_mb_centi(swap_total), ',');
    lemma_centi_of_free(spec_mb_centi(swap_total), '=');
    lemma_dec_of_props(cpu_core_count as nat);
    lemma_digits_free_of(dec_of(cpu_core_count as nat), ',');
    lemma_digits_free_of(dec_of(cpu_core_count as nat), '=');

    // every pair string is comma-free
    assert forall|j: int| 0 <= j < pairs.len() implies !contains_char(
        #[trigger] pairs[j],
        ',',
    ) by {
        if j < 5 {
            lemma_concat_free("INTERVAL_SECONDS="@, centi_trimmed_of(s.check_interval as nat), ',');
            lemma_concat_free("CPU_CORE_COUNT="@, dec_of(cpu_core_count as nat), ',');
            lemma_concat_free("MEMORY_TOTAL="@, centi_of(spec_mb_centi(memory_total)), ',');
            lemma_concat_free("SWAP_TOTAL="@, centi_of(spec_mb_centi(swap_total)), ',');
            lemma_concat_free("APP_VERSION="@, s.app_version@, ',');
        } else {
            let cp = spec_custom_pairs(s.process_cmd_to_search@);
            assert(pairs[j] == cp[j - 5]);
            lemma_dec_of_props((j - 5) as nat);
            lemma_digits_free_of(dec_of((j - 5) as nat), ',');
            lemma_concat_free("CUSTOM_"@, dec_of((j - 5) as nat), ',');
            lemma_concat_free("CUSTOM_"@ + dec_of((j - 5) as nat), "="@, ',');
            lemma_concat_free(
                "CUSTOM_"@ + dec_of((j - 5) as nat) + "="@,
                s.process_cmd_to_search@[j - 5].graph_name@,
                ',',
            );
        }
    }
    assert(pairs.len() == 5 + n);
    lemma_split_of_join(pairs, ',');
    assert(spec_pair_items(line1) == pairs);

    // every pair splits on `=` into the key and the rendered value
    assert forall|j: int| 0 <= j < pairs.len() implies spec_split(
        #[trigger] pairs[j],
        '=',
    ).len() == 2 && spec_pair_key(pairs[j]) == kvs[j].0 && spec_pair_value(pairs[j])
        == kvs[j].1 by {
        if j == 0 {
            let v = centi_trimmed_of(s.check_interval as nat);
            assert(pairs[j] == "INTERVAL_SECONDS="@ + v);
            assert(pairs[j].skip(17) =~= v);
            assert(forall|k: int| 0 <= k < 16 ==> pairs[j][k] != '=');
            lemma_pair_splits(pairs[j], 16, v);
            assert(pairs[j].take(16) =~= "INTERVAL_SECONDS"@);
        } else if j == 1 {
            let v = dec_of(cpu_core_count as nat);
            assert(pairs[j] == "CPU_CORE_COUNT="@ + v);
            assert(pairs[j].skip(15) =~= v);
            assert(forall|k: int| 0 <= k < 14 ==> pairs[j][k] != '=');
            lemma_pair_splits(pairs[j], 14, v);
            assert(pairs[j].take(14) =~= "CPU_CORE_COUNT"@);
        } else if j == 2 {
            let v = centi_of(spec_mb_centi(memory_total));
            assert(pairs[j] == "MEMORY_TOTAL="@ + v);
            assert(pairs[j].skip(13) =~= v);
            assert(forall|k: int| 0 <= k < 12 ==> pairs[j][k] != '=');
            lemma_pair_splits(pairs[j], 12, v);
            assert(pairs[j].take(12) =~= "MEMORY_TOTAL"@);
        } else if j == 3 {
            let v = centi_of(spec_mb_centi(swap_total));
            assert(pairs[j] == "SWAP_TOTAL="@ + v);
            assert(pairs[j].skip(11) =~= v);
            assert(forall|k: int| 0 <= k < 10 ==> pairs[j][k] != '=');
            lemma_pair_splits(pairs[j], 10, v);
            assert(pairs[j].take(10) =~= "SWAP_TOTAL"@);
        } else if j == 4 {
            let v = s.app_version@;
            assert(pairs[j] == "APP_VERSION="@ + v);
            assert(pairs[j].skip(12) =~= v);
            assert(forall|k: int| 0 <= k < 11 ==> pairs[j][k] != '=');
            lemma_pair_splits(pairs[j], 11, v);
            assert(pairs[j].take(11) =~= "APP_VERSION"@);
        } else {
            let cp = spec_custom_pairs(s.process_cmd_to_search@);
            let i = j - 5;
            let d = dec_of(i as nat);
            let name = s.process_cmd_to_search@[i].graph_name@;
            assert(pairs[j] == cp[i]);
            assert(cp[i] == "CUSTOM_"@ + d + "="@ + name);
            lemma_dec_of_props(i as nat);
            let keylen = 7 + d.len() as int;
            assert(pairs[j][keylen] == '=');
            assert(forall|k: int| 0 <= k < keylen ==> pairs[j][k] == if k < 7 {
                "CUSTOM_"@[k]
            } else {
                d[k - 7]
            });
            assert(forall|k: int| 0 <= k < keylen ==> pairs[j][k] != '=') by {
                lemma_digits_free_of(d, '=');
            }
            assert(pairs[j].skip(keylen + 1) =~= name);
            lemma_pair_splits(pairs[j], keylen, name);
            assert(pairs[j].take(keylen) =~= "CUSTOM_"@ + d);
            assert(kvs[j].0 == "CUSTOM_"@ + d);
        }
    }
    assert(spec_pairs_ok(line1));
    assert(spec_line_pairs(line1) =~= kvs);

    // the required keys are found despite the appended custom pairs
    let fixed = kvs.take(5);
    let customs = kvs.skip(5);
    assert(kvs =~= fixed + customs);
    assert forall|j: int| 0 <= j < customs.len() implies (#[trigger] customs[j]).0
        != "SWAP_TOTAL"@ && customs[j].0 != "MEMORY_TOTAL"@ && customs[j].0 != "CPU_CORE_COUNT"@
        && customs[j].0 != "INTERVAL_SECONDS"@ by {
        let ck = customs[j].0;
        assert(ck == "CUSTOM_"@ + dec_of(j as nat));
        assert(ck[0] == 'C' && ck[1] == 'U');
        assert("SWAP_TOTAL"@[0] == 'S');
        assert("MEMORY_TOTAL"@[0] == 'M');
        assert("INTERVAL_SECONDS"@[0] == 'I');
        assert("CPU_CORE_COUNT"@[1] == 'P');
    }
    lemma_lookup_skip_tail(fixed, customs, "SWAP_TOTAL"@);
    lemma_lookup_skip_tail(fixed, customs, "MEMORY_TOTAL"@);
    lemma_lookup_skip_tail(fixed, customs, "CPU_CORE_COUNT"@);
    lemma_lookup_skip_tail(fixed, customs, "INTERVAL_SECONDS"@);

    reveal_with_fuel(spec_lookup, 8);
    assert(fixed.drop_last() =~= kvs.take(4));
    assert(kvs.take(4).drop_last() =~= kvs.take(3));
    assert(kvs.take(3).drop_last() =~= kvs.take(2));
    assert(kvs.take(2).drop_last() =~= kvs.take(1));
    assert(kvs.take(1).drop_last() =~= kvs.take(0));
    assert(spec_lookup(fixed, "SWAP_TOTAL"@) == Some(centi_of(spec_mb_centi(swap_total))));
    assert(spec_lookup(fixed, "MEMORY_TOTAL"@) == Some(centi_of(spec_mb_centi(memory_total))));
    assert(spec_lookup(fixed, "CPU_CORE_COUNT"@) == Some(dec_of(cpu_core_count as nat)));
    assert(spec_lookup(fixed, "INTERVAL_SECONDS"@) == Some(
        centi_trimmed_of(s.check_interval as nat),
    ));

    // and their rendered values parse back to the configured numbers
    lemma_parse_centi_of(spec_mb_centi(swap_total));
    lemma_mb_centi_fits(swap_total);
    lemma_parse_centi_of(spec_mb_centi(memory_total));
    lemma_mb_centi_fits(memory_total);
    lemma_parse_centi_trimmed_of(s.check_interval as nat);
    assert(spec_parse_dec_ok(dec_of(cpu_core_count as nat)));
    assert(dec_val(dec_of(cpu_core_count as nat)) == cpu_core_count);

    // each tracked-process name is found under its canonical key
    assert forall|k: int| 0 <= k < n implies spec_lookup(
        spec_line_pairs(line1),
        "CUSTOM_"@ + dec_of(k as nat),
    ) == Some((#[trigger] s.process_cmd_to_search@[k]).graph_name@) by {
        let key = "CUSTOM_"@ + dec_of(k as nat);
        lemma_dec_of_props(k as nat);
        let head = fixed + customs.take(k + 1);
        let tail = customs.skip(k + 1);
        assert(kvs =~= head + tail);
        assert forall|j: int| 0 <= j < tail.len() implies (#[trigger] tail[j]).0 != key by {
            let jj = j + k + 1;
            assert(tail[j] == customs[jj]);
            assert(customs[jj].0 == "CUSTOM_"@ + dec_of(jj as nat));
            lemma_dec_of_props(jj as nat);
            if customs[jj].0 == key {
                let da = dec_of(jj as nat);
                let db = dec_of(k as nat);
                assert(da.len() == db.len());
                assert(forall|m: int|
                    0 <= m < da.len() ==> da[m] == ("CUSTOM_"@ + da)[m + 7] && db[m] == ("CUSTOM_"@
                        + db)[m + 7]);
                assert(da =~= db);
                crate::numfmt::lemma_dec_of_injective(jj as nat, k as nat);
            }
        }
        lemma_lookup_skip_tail(head, tail, key);
        assert(head.last() == customs[k as int]);
        assert(customs[k as int].0 == key);
        assert(spec_lookup(head, key) == Some(s.process_cmd_to_search@[k].graph_name@));
    }
}

proof fn lemma_column_literals()
    ensures
        "UNIX_TIMESTAMP"@.len() == 14,
        "_CPU"@.len() == 4,
        "_MEMORY"@.len() == 7,
        "CPU"@.len() == 3,
        "MEMORY"@.len() == 6,
        "_CPU"@ =~= seq!['_'] + "CPU"@,
        "_MEMORY"@ =~= seq!['_'] + "MEMORY"@,
        !contains_char("UNIX_TIMESTAMP"@, ','),
        !contains_char("CPU"@, '_'),
        !contains_char("MEMORY"@, '_'),
        !contains_char("_CPU"@, ','),
        !contains_char("_MEMORY"@, ','),
{
    reveal_strlit("UNIX_TIMESTAMP");
    reveal_strlit("_CPU");
    reveal_strlit("_MEMORY");
    reveal_strlit("CPU");
    reveal_strlit("MEMORY");
}

/// The mode column tokens are the modes' tokens, in order.
proof fn lemma_mode_tokens_props(modes: Seq<SimpleDataCollectionMode>)
    ensures
        spec_mode_tokens(modes).len() == modes.len(),
        forall|i: int|
            0 <= i < modes.len() ==> #[trigger] spec_mode_tokens(modes)[i] == simple_mode_token(
                modes[i],
            ),
    decreases modes.len(),
{
    if modes.len() > 0 {
        lemma_mode_tokens_props(modes.drop_last());
        assert(forall|i: int|
            0 <= i < modes.len() - 1 ==> modes.drop_last()[i] == modes[i]);
    }
}

/// A mode's data type is never a tracked-process column.
proof fn lemma_mode_data_type_fixed(m: SimpleDataCollectionMode)
    ensures
        !(mode_data_type(m) is CUSTOM_CPU),
        !(mode_data_type(m) is CUSTOM_MEMORY),
{
}

/// What one tracked-process column token parses to.
proof fn lemma_custom_column_token(k: nat, cpu: bool)
    requires
        k <= usize::MAX,
    ensures
        ({
            let t = if cpu {
                "CUSTOM_"@ + dec_of(k) + "_CPU"@
            } else {
                "CUSTOM_"@ + dec_of(k) + "_MEMORY"@
            };
            &&& !contains_char(t, ',')
            &&& spec_parse_fixed_data_type(t) is None
            &&& spec_custom_shape_ok(t)
            &&& spec_custom_idx(t) == k
            &&& spec_custom_is_cpu(t) == cpu
            &&& spec_custom_key(t) == "CUSTOM_"@ + dec_of(k)
        }),
{
    lemma_key_literals();
    lemma_column_literals();
    lemma_dec_of_props(k);
    lemma_digits_free_of(dec_of(k), ',');
    lemma_digits_free_of(dec_of(k), '_');
    let d = dec_of(k);
    let suffix: Seq<char> = if cpu {
        "_CPU"@
    } else {
        "_MEMORY"@
    };
    let word: Seq<char> = if cpu {
        "CPU"@
    } else {
        "MEMORY"@
    };
    let t = "CUSTOM_"@ + d + suffix;
    assert(!contains_char(suffix, ','));
    lemma_concat_free("CUSTOM_"@, d, ',');
    lemma_concat_free("CUSTOM_"@ + d, suffix, ',');
    assert(t.len() >= 2);
    assert(t[0] == 'C' && t[1] == 'U');
    crate::enums::lemma_parse_fixed_custom_prefix(t);
    assert(t.take(7) =~= "CUSTOM_"@);
    let rest = t.skip(7);
    assert(rest =~= d + suffix);
    assert(suffix =~= seq!['_'] + word);
    let two: Seq<Seq<char>> = seq![d, word];
    assert(spec_join(two, '_') == two[0] + seq!['_'] + spec_join(two.skip(1), '_')) by {
        assert(two.len() == 2);
    }
    assert(two.skip(1) =~= seq![word]);
    assert(spec_join(two.skip(1), '_') == word);
    assert(rest =~= spec_join(two, '_')) by {
        assert(rest =~= d + (seq!['_'] + word));
        assert(d + (seq!['_'] + word) =~= d + seq!['_'] + word);
    }
    assert(!contains_char(word, '_'));
    lemma_split_of_join(two, '_');
    assert(spec_split(rest, '_') == two);
    assert(spec_split(rest, '_')[0] == d);
    assert(spec_split(rest, '_')[1] == word);
    assert(dec_val(d) == k);
    if !cpu {
        assert(word != "CPU"@);
    }
}

/// Header line 2 written for a run parses back: every column token is
/// readable against header line 1, and each pins the data type it
/// decodes to — the timestamp first, the selected modes in order, then
/// each tracked-process slot's CPU and memory columns with the names
/// the header declares.
#[verifier::rlimit(80)]
pub proof fn lemma_round_trip_line2(
    s: Settings,
    cpu_core_count: usize,
    memory_total: u64,
    swap_total: u64,
)
    requires
        wf_record_text(s.app_version@),
        forall|k: int|
            0 <= k < s.process_cmd_to_search@.len() ==> wf_record_text(
                (#[trigger] s.process_cmd_to_search@[k]).graph_name@,
            ),
        s.collection_mode@.len() + 2 * s.process_cmd_to_search@.len() >= 1,
    ensures
        ({
            let n = s.process_cmd_to_search@.len();
            let modes = s.collection_mode@;
            let line1 = spec_header_line1(s, cpu_core_count, memory_total, swap_total);
            let line2 = spec_header_line2(modes, n);
            let pv = spec_line_pairs(line1);
            let toks = spec_split(line2, ',');
            &&& toks.len() == 1 + modes.len() + 2 * n
            &&& spec_line2_ok(line2, line1)
            &&& forall|d: DataType|
                #[trigger] column_matches(d, toks[0], pv) ==> d is UNIX_TIMESTAMP
            &&& forall|i: int, d: DataType|
                0 <= i < modes.len() && #[trigger] column_matches(d, toks[1 + i], pv) ==> d
                    == mode_data_type(modes[i])
            &&& forall|k: int, d: DataType|
                0 <= k < n && #[trigger] column_matches(d, toks[1 + modes.len() + 2 * k], pv)
                    ==> (d matches DataType::CUSTOM_CPU(ii, nm) && ii == k && nm@
                    == s.process_cmd_to_search@[k].graph_name@)
            &&& forall|k: int, d: DataType|
                0 <= k < n && #[trigger] column_matches(d, toks[1 + modes.len() + 2 * k + 1], pv)
                    ==> (d matches DataType::CUSTOM_MEMORY(ii, nm) && ii == k && nm@
                    == s.process_cmd_to_search@[k].graph_name@)
        }),
{
    lemma_round_trip_line1(s, cpu_core_count, memory_total, swap_total);
    lemma_column_literals();
    let n = s.process_cmd_to_search@.len();
    assert(n <= usize::MAX) by {
        assert(vstd::std_specs::vec::spec_vec_len(&s.process_cmd_to_search) == n);
    }
    let modes = s.collection_mode@;
    let line1 = spec_header_line1(s, cpu_core_count, memory_total, swap_total);
    let line2 = spec_header_line2(modes, n);
    let pv = spec_line_pairs(line1);
    let columns = spec_header_columns(modes, n);
    lemma_mode_tokens_props(modes);
    assert(columns.len() == 1 + modes.len() + 2 * n);

    // no column token contains a comma, so the line splits back
    assert forall|j: int| 0 <= j < columns.len() implies !contains_char(
        #[trigger] columns[j],
        ',',
    ) by {
        if j == 0 {
        } else if j < 1 + modes.len() {
            assert(columns[j] == simple_mode_token(modes[j - 1]));
            crate::enums::lemma_mode_token_free(modes[j - 1], ',');
        } else {
            let cc = spec_custom_columns(n);
            let jj = j - 1 - modes.len();
            assert(columns[j] == cc[jj]);
            lemma_custom_column_token((jj / 2) as nat, jj % 2 == 0);
        }
    }
    lemma_split_of_join(columns, ',');
    let toks = spec_split(line2, ',');
    assert(toks == columns);

    // the timestamp column
    assert(toks[0] == "UNIX_TIMESTAMP"@);
    assert(toks[0] == data_type_token(DataType::UNIX_TIMESTAMP));
    lemma_parse_fixed_of_token(DataType::UNIX_TIMESTAMP);
    assert(spec_parse_fixed_data_type(toks[0]) is Some);
    assert(spec_parse_fixed_data_type(toks[0])->0 is UNIX_TIMESTAMP);

    // the mode columns
    assert forall|i: int| 0 <= i < modes.len() implies spec_parse_fixed_data_type(
        #[trigger] toks[1 + i],
    ) is Some && spec_parse_fixed_data_type(toks[1 + i])->0 == mode_data_type(modes[i]) by {
        assert(toks[1 + i] == simple_mode_token(modes[i]));
        crate::enums::lemma_mode_token_agrees(modes[i]);
        lemma_mode_data_type_fixed(modes[i]);
        lemma_parse_fixed_of_token(mode_data_type(modes[i]));
    }

    // the tracked-process columns
    assert forall|k: int| 0 <= k < n implies ({
        let tc = toks[1 + modes.len() + 2 * k];
        let tm = toks[1 + modes.len() + 2 * k + 1];
        &&& spec_parse_fixed_data_type(tc) is None
        &&& spec_custom_shape_ok(tc)
        &&& spec_custom_idx(tc) == k
        &&& spec_custom_is_cpu(tc)
        &&& spec_lookup(pv, spec_custom_key(tc)) == Some(
            (#[trigger] s.process_cmd_to_search@[k]).graph_name@,
        )
        &&& spec_parse_fixed_data_type(tm) is None
        &&& spec_custom_shape_ok(tm)
        &&& spec_custom_idx(tm) == k
        &&& !spec_custom_is_cpu(tm)
        &&& spec_lookup(pv, spec_custom_key(tm)) == Some(s.process_cmd_to_search@[k].graph_name@)
    }) by {
        let cc = spec_custom_columns(n);
        assert(toks[1 + modes.len() + 2 * k] == cc[2 * k]);
        assert(toks[1 + modes.len() + 2 * k + 1] == cc[2 * k + 1]);
        assert((2 * k) % 2 == 0 && (2 * k) / 2 == k);
        assert((2 * k + 1) % 2 == 1 && (2 * k + 1) / 2 == k);
        lemma_custom_column_token(k as nat, true);
        lemma_custom_column_token(k as nat, false);
    }

    assert forall|k: int, d: DataType|
        0 <= k < n && #[trigger] column_matches(d, toks[1 + modes.len() + 2 * k], pv) implies (d
        matches DataType::CUSTOM_CPU(ii, nm) && ii == k && nm@
        == s.process_cmd_to_search@[k].graph_name@) by {
        let tc = toks[1 + modes.len() + 2 * k];
        assert(spec_lookup(pv, "CUSTOM_"@ + dec_of(k as nat)) == Some(
            s.process_cmd_to_search@[k].graph_name@,
        ));
        assert(spec_parse_fixed_data_type(tc) is None && spec_custom_shape_ok(tc)
            && spec_custom_idx(tc) == k && spec_custom_is_cpu(tc) && spec_lookup(
            pv,
            spec_custom_key(tc),
        ) == Some(s.process_cmd_to_search@[k].graph_name@));
    }
    assert forall|k: int, d: DataType|
        0 <= k < n && #[trigger] column_matches(d, toks[1 + modes.len() + 2 * k + 1], pv) implies (
        d matches DataType::CUSTOM_MEMORY(ii, nm) && ii == k && nm@
        == s.process_cmd_to_search@[k].graph_name@) by {
        let tm = toks[1 + modes.len() + 2 * k + 1];
        assert(spec_lookup(pv, "CUSTOM_"@ + dec_of(k as nat)) == Some(
            s.process_cmd_to_search@[k].graph_name@,
        ));
        assert(spec_parse_fixed_data_type(tm) is None && spec_custom_shape_ok(tm)
            && spec_custom_idx(tm) == k && !spec_custom_is_cpu(tm) && spec_lookup(
            pv,
            spec_custom_key(tm),
        ) == Some(s.process_cmd_to_search@[k].graph_name@));
    }
    assert(spec_line2_ok(line2, line1)) by {
        assert forall|i: int| 0 <= i < toks.len() implies spec_column_ok(
            #[trigger] toks[i],
            pv,
        ) by {
            if i == 0 {
                assert(spec_parse_fixed_data_type(toks[0]) is Some);
            } else if i < 1 + modes.len() {
                let im = i - 1;
                assert(spec_parse_fixed_data_type(toks[1 + im]) is Some);
                assert(toks[1 + im] == toks[i]);
            } else {
                let jj = i - 1 - modes.len();
                let k = jj / 2;
                assert(0 <= k < n);
                assert(spec_lookup(pv, "CUSTOM_"@ + dec_of(k as nat)) == Some(
                    s.process_cmd_to_search@[k].graph_name@,
                ));
                if jj % 2 == 0 {
                    assert(i == 1 + modes.len() + 2 * k);
                    assert(spec_custom_shape_ok(toks[1 + modes.len() + 2 * k]) && spec_lookup(
                        pv,
                        spec_custom_key(toks[1 + modes.len() + 2 * k]),
                    ) is Some);
                    assert(toks[1 + modes.len() + 2 * k] == toks[i]);
                } else {
                    assert(i == 1 + modes.len() + 2 * k + 1);
                    assert(spec_custom_shape_ok(toks[1 + modes.len() + 2 * k + 1]) && spec_lookup(
                        pv,
                        spec_custom_key(toks[1 + modes.len() + 2 * k + 1]),
                    ) is Some);
                    assert(toks[1 + modes.len() + 2 * k + 1] == toks[i]);
                }
            }
        }
    }
}

/// The rendered per-core fields: one per core, each the core's reading.
proof fn lemma_core_cells_props(cores: Seq<u64>)
    ensures
        spec_core_cells(cores).len() == cores.len(),
        forall|j: int|
            0 <= j < cores.len() ==> #[trigger] spec_core_cells(cores)[j] == centi_of(
                cores[j] as nat,
            ),
        forall|j: int|
            0 <= j < cores.len() ==> !contains_char(#[trigger] spec_core_cells(cores)[j], ',')
                && !contains_char(spec_core_cells(cores)[j], ';'),
    decreases cores.len(),
{
    if cores.len() > 0 {
        lemma_core_cells_props(cores.drop_last());
        lemma_centi_of_free(cores.last() as nat, ',');
        lemma_centi_of_free(cores.last() as nat, ';');
        assert(forall|j: int|
            0 <= j < cores.len() - 1 ==> cores.drop_last()[j] == cores[j]);
    }
}

/// The rendered mode fields: one per selected mode, none containing a
/// field separator.
proof fn lemma_mode_cells_props(modes: Seq<SimpleDataCollectionMode>, snap: SystemSnapshot)
    ensures
        spec_mode_cells(modes, snap).len() == modes.len(),
        forall|i: int|
            0 <= i < modes.len() ==> #[trigger] spec_mode_cells(modes, snap)[i] == spec_mode_cell(
                modes[i],
                snap,
            ),
        forall|i: int|
            0 <= i < modes.len() ==> !contains_char(
                #[trigger] spec_mode_cells(modes, snap)[i],
                ',',
            ),
    decreases modes.len(),
{
    if modes.len() > 0 {
        lemma_mode_cells_props(modes.drop_last(), snap);
        assert(forall|i: int|
            0 <= i < modes.len() - 1 ==> modes.drop_last()[i] == modes[i]);
        let m = modes.last();
        assert(!contains_char(spec_mode_cell(m, snap), ',')) by {
            match m {
                SimpleDataCollectionMode::CPU_USAGE_PER_CORE => {
                    lemma_core_cells_props(snap.per_core_cpu@);
                    crate::strutil::lemma_join_free(
                        spec_core_cells(snap.per_core_cpu@),
                        ';',
                        ',',
                    );
                },
                SimpleDataCollectionMode::CPU_USAGE_TOTAL => {
                    lemma_centi_of_free(spec_avg_centi(snap.per_core_cpu@), ',');
                },
                SimpleDataCollectionMode::MEMORY_USED => {
                    lemma_centi_of_free(spec_mb_centi(snap.used_memory), ',');
                },
                SimpleDataCollectionMode::MEMORY_FREE => {
                    lemma_centi_of_free(spec_mb_centi(snap.free_memory), ',');
                },
                SimpleDataCollectionMode::MEMORY_AVAILABLE => {
                    lemma_centi_of_free(spec_mb_centi(snap.available_memory), ',');
                },
                SimpleDataCollectionMode::SWAP_USED => {
                    lemma_centi_of_free(spec_mb_centi(snap.used_swap), ',');
                },
                SimpleDataCollectionMode::SWAP_FREE => {
                    lemma_centi_of_free(spec_mb_centi(snap.free_swap), ',');
                },
            }
        }
    }
}

/// The rendered tracked-process fields: two per slot, none containing
/// a field separator.
proof fn lemma_proc_cells_props(procs: Seq<Option<CustomProcessData>>, cores: nat)
    ensures
        spec_proc_cells(procs, cores).len() == 2 * procs.len(),
        forall|j: int|
            0 <= j < spec_proc_cells(procs, cores).len() ==> !contains_char(
                #[trigger] spec_proc_cells(procs, cores)[j],
                ',',
            ),
    decreases procs.len(),
{
    reveal_strlit("-1");
    if procs.len() > 0 {
        lemma_proc_cells_props(procs.drop_last(), cores);
        match procs.last() {
            Some(p) => {
                lemma_centi_of_free(spec_rounded_div(p.cpu_usage as nat, cores), ',');
                lemma_centi_of_free(spec_mb_centi(p.memory_usage), ',');
            },
            None => {
                assert(!contains_char("-1"@, ','));
            },
        }
    }
}

/// A sample row written for a run splits back into its fields: the
/// timestamp first, one field per selected mode, then two fields per
/// tracked-process slot; and the per-core field splits back into one
/// reading per core.
pub proof fn lemma_round_trip_row(
    timestamp_centi: u64,
    snap: SystemSnapshot,
    s: Settings,
    procs: Seq<Option<CustomProcessData>>,
)
    requires
        snap.per_core_cpu@.len() >= 1,
        procs.len() == s.process_cmd_to_search@.len(),
        s.need_to_refresh_processes == (s.process_cmd_to_search@.len() > 0),
    ensures
        ({
            let modes = s.collection_mode@;
            let n = s.process_cmd_to_search@.len();
            let incl = s.need_to_refresh_processes;
            let cells = spec_row_cells(timestamp_centi, modes, snap, procs, incl);
            let row = spec_data_row(timestamp_centi, modes, snap, procs, incl);
            &&& cells.len() == 1 + modes.len() + 2 * n
            &&& spec_split(row, ',') == cells
            &&& cells[0] == centi_of(timestamp_centi as nat)
            &&& forall|i: int|
                0 <= i < modes.len() ==> cells[1 + i] == spec_mode_cell(
                    #[trigger] modes[i],
                    snap,
                )
            &&& forall|i: int|
                0 <= i < modes.len() && #[trigger] modes[i] is CPU_USAGE_PER_CORE ==> spec_split(
                    cells[1 + i],
                    ';',
                ) == spec_core_cells(snap.per_core_cpu@) && spec_split(cells[1 + i], ';').len()
                    == snap.per_core_cpu@.len()
        }),
{
    let modes = s.collection_mode@;
    let n = s.process_cmd_to_search@.len();
    let incl = s.need_to_refresh_processes;
    let cells = spec_row_cells(timestamp_centi, modes, snap, procs, incl);
    lemma_mode_cells_props(modes, snap);
    lemma_proc_cells_props(procs, snap.per_core_cpu@.len());
    lemma_centi_of_free(timestamp_centi as nat, ',');
    assert(cells.len() == 1 + modes.len() + 2 * n) by {
        if !incl {
            assert(n == 0);
        }
    }
    assert forall|j: int| 0 <= j < cells.len() implies !contains_char(
        #[trigger] cells[j],
        ',',
    ) by {
        if j == 0 {
        } else if j < 1 + modes.len() {
            assert(cells[j] == spec_mode_cells(modes, snap)[j - 1]);
        } else {
            assert(cells[j] == spec_proc_cells(procs, snap.per_core_cpu@.len())[j - 1
                - modes.len()]);
        }
    }
    lemma_split_of_join(cells, ',');
    assert forall|i: int|
        0 <= i < modes.len() && #[trigger] modes[i] is CPU_USAGE_PER_CORE implies spec_split(
        cells[1 + i],
        ';',
    ) == spec_core_cells(snap.per_core_cpu@) && spec_split(cells[1 + i], ';').len()
        == snap.per_core_cpu@.len() by {
        let cc = spec_core_cells(snap.per_core_cpu@);
        lemma_core_cells_props(snap.per_core_cpu@);
        assert(cells[1 + i] == spec_mode_cell(modes[i], snap));
        assert(spec_mode_cell(modes[i], snap) == spec_join(cc, ';'));
        lemma_split_of_join(cc, ';');
    }
}

/// The round-trip law of the codec: a record whose two header lines
/// and rows were written by the builders for a run decodes back to the
/// same declared column order and the same rendered values. The header
/// values parse back to the run's parameters (memory and swap totals
/// up to their megabyte rounding), every written row has exactly the
/// declared number of fields (so the reader skips none of them), each
/// column token decodes to the kind it was written for, and the
/// per-core field holds one reading per declared core.
pub proof fn lemma_record_round_trip(
    s: Settings,
    cpu_core_count: usize,
    memory_total: u64,
    swap_total: u64,
    timestamp_centi: u64,
    snap: SystemSnapshot,
    procs: Seq<Option<CustomProcessData>>,
)
    requires
        wf_record_text(s.app_version@),
        forall|k: int|
            0 <= k < s.process_cmd_to_search@.len() ==> wf_record_text(
                (#[trigger] s.process_cmd_to_search@[k]).graph_name@,
            ),
        s.collection_mode@.len() + 2 * s.process_cmd_to_search@.len() >= 1,
        snap.per_core_cpu@.len() == cpu_core_count as nat,
        cpu_core_count >= 1,
        procs.len() == s.process_cmd_to_search@.len(),
        s.need_to_refresh_processes == (s.process_cmd_to_search@.len() > 0),
    ensures
        ({
            let n = s.process_cmd_to_search@.len();
            let modes = s.collection_mode@;
            let line1 = spec_header_line1(s, cpu_core_count, memory_total, swap_total);
            let line2 = spec_header_line2(modes, n);
            let pv = spec_line_pairs(line1);
            let toks = spec_split(line2, ',');
            let cells = spec_row_cells(
                timestamp_centi,
                modes,
                snap,
                procs,
                s.need_to_refresh_processes,
            );
            let row = spec_data_row(
                timestamp_centi,
                modes,
                snap,
                procs,
                s.need_to_refresh_processes,
            );
            &&& spec_line1_ok(line1)
            &&& spec_line2_ok(line2, line1)
            &&& spec_parse_centi(spec_lookup(pv, "SWAP_TOTAL"@)->0) == Some(
                spec_mb_centi(swap_total) as int,
            )
            &&& spec_parse_centi(spec_lookup(pv, "MEMORY_TOTAL"@)->0) == Some(
                spec_mb_centi(memory_total) as int,
            )
            &&& spec_core_count(line1) == cpu_core_count
            &&& spec_parse_centi(spec_lookup(pv, "INTERVAL_SECONDS"@)->0) == Some(
                s.check_interval as int,
            )
            &&& toks.len() == 1 + modes.len() + 2 * n
            &&& spec_split(row, ',') == cells
            &&& cells.len() == toks.len()
            &&& cells[0] == centi_of(timestamp_centi as nat)
            &&& forall|d: DataType|
                #[trigger] column_matches(d, toks[0], pv) ==> d is UNIX_TIMESTAMP
            &&& forall|i: int, d: DataType|
                0 <= i < modes.len() && #[trigger] column_matches(d, toks[1 + i], pv) ==> d
                    == mode_data_type(modes[i])
            &&& forall|k: int, d: DataType|
                0 <= k < n && #[trigger] column_matches(d, toks[1 + modes.len() + 2 * k], pv)
                    ==> (d matches DataType::CUSTOM_CPU(ii, nm) && ii == k && nm@
                    == s.process_cmd_to_search@[k].graph_name@)
            &&& forall|k: int, d: DataType|
                0 <= k < n && #[trigger] column_matches(d, toks[1 + modes.len() + 2 * k + 1], pv)
                    ==> (d matches DataType::CUSTOM_MEMORY(ii, nm) && ii == k && nm@
                    == s.process_cmd_to_search@[k].graph_name@)
            &&& forall|i: int|
                0 <= i < modes.len() ==> cells[1 + i] == spec_mode_cell(
                    #[trigger] modes[i],
                    snap,
                )
            &&& forall|i: int|
                0 <= i < modes.len() && #[trigger] modes[i] is CPU_USAGE_PER_CORE ==> spec_split(
                    cells[1 + i],
                    ';',
                ).len() == cpu_core_count
        }),
{
    lemma_round_trip_line1(s, cpu_core_count, memory_total, swap_total);
    lemma_round_trip_line2(s, cpu_core_count, memory_total, swap_total);
    lemma_round_trip_row(timestamp_centi, snap, s, procs);
}

} // verus!
