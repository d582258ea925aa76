//! The record reader: parses the two self-describing header lines and
//! the data rows back into a typed column store, skipping malformed
//! rows and failing only on structural violations.

use vstd::prelude::*;

use crate::enums::{
    spec_parse_fixed_data_type, DataType, GeneralInfoGroup, parse_fixed_data_type,
};
use crate::model::CollectedItemModels;
use crate::numfmt::{
    dec_of, dec_val, parse_centi_u64, parse_dec_u64, spec_parse_centi, spec_parse_dec_ok,
    u64_to_dec,
};
use crate::strutil::{spec_join, spec_split, split_str, str_eq};

verus! {

/// Why loading a record failed, with the offending token or value.
#[derive(Debug, Clone, PartialEq, Eq)]
pub enum LoadError {
    /// The record is missing header line 1 or 2.
    MissingHeaderLine(u32),
    /// A `KEY=VALUE` item of header line 1 has no value.
    MissingPairValue(String),
    /// A required key is absent from header line 1.
    MissingHeaderKey(String),
    /// A required key's value does not parse; carries key and value.
    UnparsableHeaderValue(String, String),
    /// A column token of header line 2 is not recognized.
    BadColumnToken(String),
    /// A `CUSTOM_{idx}` column has no name in header line 1.
    MissingCustomName(String),
    /// The header declares one column or fewer: nothing to load.
    NoData,
    /// The first declared column is not the timestamp column.
    FirstColumnNotTimestamp,
    /// A per-core field's count disagrees with the declared core count;
    /// carries the field, its count, and the declared count.
    PerCoreShapeMismatch(String, usize, usize),
}

/// The `KEY=VALUE` items of header line 1.
pub open spec fn spec_pair_items(line: Seq<char>) -> Seq<Seq<char>> {
    spec_split(line, ',')
}

/// True when every item of header line 1 has a key and a value.
pub open spec fn spec_pairs_ok(line: Seq<char>) -> bool {
    forall|i: int|
        0 <= i < spec_pair_items(line).len() ==> spec_split(
            #[trigger] spec_pair_items(line)[i],
            '=',
        ).len() >= 2
}

/// The key of a `KEY=VALUE` item.
pub open spec fn spec_pair_key(item: Seq<char>) -> Seq<char> {
    spec_split(item, '=')[0]
}

/// The value of a `KEY=VALUE` item: everything between the first and
/// the second equals sign.
pub open spec fn spec_pair_value(item: Seq<char>) -> Seq<char> {
    spec_split(item, '=')[1]
}

/// Splits header line 1 into its `KEY=VALUE` pairs, in order; an item
/// without a value fails.
pub fn parse_header_pairs(line: &str) -> (r: Result<Vec<(String, String)>, LoadError>)
    ensures
        match r {
            Ok(pairs) => {
                &&& spec_pairs_ok(line@)
                &&& pairs@.len() == spec_pair_items(line@).len()
                &&& forall|i: int|
                    0 <= i < pairs@.len() ==> (#[trigger] pairs@[i]).0@ == spec_pair_key(
                        spec_pair_items(line@)[i],
                    ) && pairs@[i].1@ == spec_pair_value(spec_pair_items(line@)[i])
            },
            Err(e) => {
                &&& !spec_pairs_ok(line@)
                &&& e matches LoadError::MissingPairValue(it) && (exists|i: int|
                    0 <= i < spec_pair_items(line@).len() && it@ == spec_pair_items(line@)[i]
                        && spec_split(it@, '=').len() < 2)
            },
        },
{
    let items = split_str(line, ',');
    let mut pairs: Vec<(String, String)> = Vec::new();
    let mut i: usize = 0;
    while i < items.len()
        invariant
            items.deep_view() == spec_pair_items(line@),
            0 <= i <= items@.len(),
            pairs@.len() == i,
            forall|k: int|
                0 <= k < i ==> spec_split(#[trigger] spec_pair_items(line@)[k], '=').len() >= 2,
            forall|k: int|
                0 <= k < i ==> (#[trigger] pairs@[k]).0@ == spec_pair_key(
                    spec_pair_items(line@)[k],
                ) && pairs@[k].1@ == spec_pair_value(spec_pair_items(line@)[k]),
        decreases items@.len() - i,
    {
        proof {
            assert(items@[i as int]@ == spec_pair_items(line@)[i as int]);
        }
        let mut kv = split_str(items[i].as_str(), '=');
        if kv.len() < 2 {
            proof {
                assert(kv.deep_view().len() == kv@.len());
            }
            return Err(LoadError::MissingPairValue(items[i].clone()));
        }
        proof {
            assert(kv.deep_view()[0] == kv@[0]@);
            assert(kv.deep_view()[1] == kv@[1]@);
        }
        let value = kv.remove(1);
        let key = kv.remove(0);
        pairs.push((key, value));
        i += 1;
    }
    proof {
        assert(pairs@.len() == spec_pair_items(line@).len());
    }
    Ok(pairs)
}

/// The value of the last pair with the given key, if any: a repeated
/// key keeps its last value, as inserting into a map would.
pub open spec fn spec_lookup(pairs: Seq<(Seq<char>, Seq<char>)>, key: Seq<char>) -> Option<
    Seq<char>,
>
    decreases pairs.len(),
{
    if pairs.len() == 0 {
        None
    } else if pairs.last().0 == key {
        Some(pairs.last().1)
    } else {
        spec_lookup(pairs.drop_last(), key)
    }
}

/// The view of an executable pair list.
pub open spec fn pairs_view(pairs: Seq<(String, String)>) -> Seq<(Seq<char>, Seq<char>)> {
    Seq::new(pairs.len(), |i: int| (pairs[i].0@, pairs[i].1@))
}

/// The value of the last pair with the given key, if any.
pub fn lookup_pair(pairs: &Vec<(String, String)>, key: &str) -> (r: Option<String>)
    ensures
        match r {
            Some(v) => spec_lookup(pairs_view(pairs@), key@) == Some(v@),
            None => spec_lookup(pairs_view(pairs@), key@) is None,
        },
{
    let mut i: usize = pairs.len();
    proof {
        assert(pairs_view(pairs@).take(pairs@.len() as int) =~= pairs_view(pairs@));
    }
    while i > 0
        invariant
            0 <= i <= pairs@.len(),
            spec_lookup(pairs_view(pairs@), key@) == spec_lookup(
                pairs_view(pairs@).take(i as int),
                key@,
            ),
        decreases i,
    {
        proof {
            let pv = pairs_view(pairs@);
            let t = pv.take(i as int);
            assert(t.last() == (pairs@[i - 1].0@, pairs@[i - 1].1@));
            assert(t.drop_last() =~= pv.take(i - 1));
        }
        if str_eq(pairs[i - 1].0.as_str(), key) {
            return Some(pairs[i - 1].1.clone());
        }
        i -= 1;
    }
    proof {
        assert(pairs_view(pairs@).take(0) =~= Seq::<(Seq<char>, Seq<char>)>::empty());
    }
    None
}

/// Result of reading one required numeric key out of the header pairs.
enum KeyOutcome {
    Found(u64),
    Missing,
    Unparsable(String),
}

/// Looks up a required key and parses its value as a fixed-point
/// number.
fn read_centi_key(pairs: &Vec<(String, String)>, key: &str) -> (r: KeyOutcome)
    ensures
        match r {
            KeyOutcome::Found(v) => spec_lookup(pairs_view(pairs@), key@) is Some
                && spec_parse_centi(spec_lookup(pairs_view(pairs@), key@)->0) == Some(v as int),
            KeyOutcome::Missing => spec_lookup(pairs_view(pairs@), key@) is None,
            KeyOutcome::Unparsable(raw) => spec_lookup(pairs_view(pairs@), key@) == Some(raw@) && (
            spec_parse_centi(raw@) is None || spec_parse_centi(raw@)->Some_0 > u64::MAX),
        },
{
    match lookup_pair(pairs, key) {
        Some(raw) => {
            match parse_centi_u64(raw.as_str()) {
                Some(v) => KeyOutcome::Found(v),
                None => KeyOutcome::Unparsable(raw),
            }
        },
        None => KeyOutcome::Missing,
    }
}

/// The four required header keys are pairwise distinct tokens.
proof fn lemma_header_keys_distinct()
    ensures
        "SWAP_TOTAL"@ != "CPU_CORE_COUNT"@,
        "MEMORY_TOTAL"@ != "CPU_CORE_COUNT"@,
        "INTERVAL_SECONDS"@ != "CPU_CORE_COUNT"@,
{
    reveal_strlit("SWAP_TOTAL");
    reveal_strlit("MEMORY_TOTAL");
    reveal_strlit("CPU_CORE_COUNT");
    reveal_strlit("INTERVAL_SECONDS");
    assert("SWAP_TOTAL"@.len() == 10);
    assert("MEMORY_TOTAL"@.len() == 12);
    assert("CPU_CORE_COUNT"@.len() == 14);
    assert("INTERVAL_SECONDS"@.len() == 16);
}

/// Parses header line 1: its `KEY=VALUE` pairs, and out of them the
/// swap total, memory total (centi-megabytes), CPU core count and
/// check interval (centiseconds). Fails when a required key is absent
/// or its value does not parse. The four consumed keys are removed
/// from the returned pair list; the leftovers (the app version and
/// every `CUSTOM_{idx}` name, verbatim) serve the custom-name lookups
/// of header line 2.
pub fn parse_file_values_data(line: &str) -> (r: Result<
    (u64, u64, usize, u64, Vec<(String, String)>),
    LoadError,
>)
    ensures
        match r {
            Ok((swap_total, memory_total, cpu_core_count, check_interval, pairs)) => {
                let pv = spec_line_pairs(line@);
                &&& spec_pairs_ok(line@)
                &&& pairs_view(pairs@) == spec_leftover_pairs(pv)
                &&& spec_lookup(pv, "SWAP_TOTAL"@) is Some
                &&& spec_parse_centi(spec_lookup(pv, "SWAP_TOTAL"@)->0) == Some(swap_total as int)
                &&& spec_lookup(pv, "MEMORY_TOTAL"@) is Some
                &&& spec_parse_centi(spec_lookup(pv, "MEMORY_TOTAL"@)->0) == Some(
                    memory_total as int,
                )
                &&& spec_lookup(pv, "CPU_CORE_COUNT"@) is Some
                &&& spec_parse_dec_ok(spec_lookup(pv, "CPU_CORE_COUNT"@)->0)
                &&& dec_val(spec_lookup(pv, "CPU_CORE_COUNT"@)->0) == cpu_core_count as int
                &&& spec_lookup(pv, "INTERVAL_SECONDS"@) is Some
                &&& spec_parse_centi(spec_lookup(pv, "INTERVAL_SECONDS"@)->0) == Some(
                    check_interval as int,
                )
            },
            Err(e) => match e {
                LoadError::MissingPairValue(it) => !spec_pairs_ok(line@),
                LoadError::MissingHeaderKey(k) => spec_pairs_ok(line@) && spec_lookup(
                    spec_line_pairs(line@),
                    k@,
                ) is None && (k@ == "SWAP_TOTAL"@ || k@ == "MEMORY_TOTAL"@ || k@
                    == "CPU_CORE_COUNT"@ || k@ == "INTERVAL_SECONDS"@),
                LoadError::UnparsableHeaderValue(k, v) => spec_pairs_ok(line@) && spec_lookup(
                    spec_line_pairs(line@),
                    k@,
                ) == Some(v@) && (k@ == "SWAP_TOTAL"@ || k@ == "MEMORY_TOTAL"@ || k@
                    == "CPU_CORE_COUNT"@ || k@ == "INTERVAL_SECONDS"@) && (if k@
                    == "CPU_CORE_COUNT"@ {
                    !(spec_parse_dec_ok(v@) && dec_val(v@) <= usize::MAX)
                } else {
                    spec_parse_centi(v@) is None || spec_parse_centi(v@)->Some_0 > u64::MAX
                }),
                _ => false,
            },
        },
{
    let pairs = match parse_header_pairs(line) {
        Ok(p) => p,
        Err(e) => {
            return Err(e);
        },
    };
    proof {
        assert(pairs_view(pairs@) =~= spec_line_pairs(line@));
        lemma_header_keys_distinct();
    }
    let swap_total = match read_centi_key(&pairs, "SWAP_TOTAL") {
        KeyOutcome::Found(v) => v,
        KeyOutcome::Missing => {
            return Err(LoadError::MissingHeaderKey(String::from_str("SWAP_TOTAL")));
        },
        KeyOutcome::Unparsable(raw) => {
            return Err(LoadError::UnparsableHeaderValue(String::from_str("SWAP_TOTAL"), raw));
        },
    };
    let memory_total = match read_centi_key(&pairs, "MEMORY_TOTAL") {
        KeyOutcome::Found(v) => v,
        KeyOutcome::Missing => {
            return Err(LoadError::MissingHeaderKey(String::from_str("MEMORY_TOTAL")));
        },
        KeyOutcome::Unparsable(raw) => {
            return Err(LoadError::UnparsableHeaderValue(String::from_str("MEMORY_TOTAL"), raw));
        },
    };
    let cpu_core_count: usize = match lookup_pair(&pairs, "CPU_CORE_COUNT") {
        Some(raw) => {
            match parse_dec_u64(raw.as_str()) {
                Some(v) => {
                    if (v as usize) as u64 == v {
                        v as usize
                    } else {
                        return Err(
                            LoadError::UnparsableHeaderValue(
                                String::from_str("CPU_CORE_COUNT"),
                                raw,
                            ),
                        );
                    }
                },
                None => {
                    return Err(
                        LoadError::UnparsableHeaderValue(String::from_str("CPU_CORE_COUNT"), raw),
                    );
                },
            }
        },
        None => {
            return Err(LoadError::MissingHeaderKey(String::from_str("CPU_CORE_COUNT")));
        },
    };
    let check_interval = match read_centi_key(&pairs, "INTERVAL_SECONDS") {
        KeyOutcome::Found(v) => v,
        KeyOutcome::Missing => {
            return Err(LoadError::MissingHeaderKey(String::from_str("INTERVAL_SECONDS")));
        },
        KeyOutcome::Unparsable(raw) => {
            return Err(
                LoadError::UnparsableHeaderValue(String::from_str("INTERVAL_SECONDS"), raw),
            );
        },
    };
    // the reader consumed the four required keys; what remains is the
    // leftover map the custom columns resolve their names against
    let mut leftover: Vec<(String, String)> = Vec::new();
    let ghost pv = pairs_view(pairs@);
    let mut i: usize = 0;
    proof {
        reveal(Seq::filter);
        assert(pv.take(0) =~= Seq::<(Seq<char>, Seq<char>)>::empty());
        assert(pairs_view(leftover@) =~= spec_leftover_pairs(pv.take(0)));
    }
    while i < pairs.len()
        invariant
            pv == pairs_view(pairs@),
            0 <= i <= pairs@.len(),
            pairs_view(leftover@) == spec_leftover_pairs(pv.take(i as int)),
        decreases pairs@.len() - i,
    {
        proof {
            reveal(Seq::filter);
            let t = pv.take(i as int);
            let t1 = pv.take(i + 1);
            assert(t1.drop_last() =~= t);
            assert(t1.last() == (pairs@[i as int].0@, pairs@[i as int].1@));
        }
        let key = pairs[i].0.as_str();
        let required = str_eq(key, "SWAP_TOTAL") || str_eq(key, "MEMORY_TOTAL") || str_eq(
            key,
            "CPU_CORE_COUNT",
        ) || str_eq(key, "INTERVAL_SECONDS");
        if !required {
            let ghost old_lv = pairs_view(leftover@);
            leftover.push((pairs[i].0.clone(), pairs[i].1.clone()));
            proof {
                assert(pairs_view(leftover@) =~= old_lv.push(
                    (pairs@[i as int].0@, pairs@[i as int].1@),
                ));
            }
        }
        i += 1;
    }
    proof {
        assert(pv.take(pairs@.len() as int) =~= pv);
        assert(pairs_view(pairs@) =~= spec_line_pairs(line@));
    }
    Ok((swap_total, memory_total, cpu_core_count, check_interval, leftover))
}

/// The pairs of header line 1, at the specification level.
pub open spec fn spec_line_pairs(line: Seq<char>) -> Seq<(Seq<char>, Seq<char>)> {
    Seq::new(
        spec_pair_items(line).len(),
        |i: int|
            (spec_pair_key(spec_pair_items(line)[i]), spec_pair_value(spec_pair_items(line)[i])),
    )
}

/// True when a key is one of the four the reader itself consumes.
pub open spec fn is_required_key(key: Seq<char>) -> bool {
    ||| key == "SWAP_TOTAL"@
    ||| key == "MEMORY_TOTAL"@
    ||| key == "CPU_CORE_COUNT"@
    ||| key == "INTERVAL_SECONDS"@
}

/// The header pairs with the four required keys removed: what remains
/// for the custom-name lookups (the app version and every
/// `CUSTOM_{idx}` display name, verbatim).
pub open spec fn spec_leftover_pairs(pairs: Seq<(Seq<char>, Seq<char>)>) -> Seq<
    (Seq<char>, Seq<char>),
> {
    pairs.filter(|kv: (Seq<char>, Seq<char>)| !is_required_key(kv.0))
}

/// Removing the required keys changes no other lookup.
pub proof fn lemma_leftover_lookup(pairs: Seq<(Seq<char>, Seq<char>)>, key: Seq<char>)
    requires
        !is_required_key(key),
    ensures
        spec_lookup(spec_leftover_pairs(pairs), key) == spec_lookup(pairs, key),
    decreases pairs.len(),
{
    reveal(Seq::filter);
    if pairs.len() > 0 {
        let t = pairs.drop_last();
        lemma_leftover_lookup(t, key);
        let kept = spec_leftover_pairs(pairs);
        if is_required_key(pairs.last().0) {
            assert(kept == spec_leftover_pairs(t));
            assert(pairs.last().0 != key);
        } else {
            assert(kept == spec_leftover_pairs(t).push(pairs.last()));
            assert(kept.last() == pairs.last());
            assert(kept.drop_last() =~= spec_leftover_pairs(t));
        }
    }
}

/// A tracked-process column token never names a required key, so it
/// reads the same against the full header pairs and the leftovers.
pub proof fn lemma_column_matches_leftover(
    d: DataType,
    tok: Seq<char>,
    pairs: Seq<(Seq<char>, Seq<char>)>,
)
    ensures
        column_matches(d, tok, spec_leftover_pairs(pairs)) == column_matches(d, tok, pairs),
        spec_column_ok(tok, spec_leftover_pairs(pairs)) == spec_column_ok(tok, pairs),
{
    if spec_parse_fixed_data_type(tok) is None && spec_custom_shape_ok(tok) {
        let key = spec_custom_key(tok);
        assert(!is_required_key(key)) by {
            reveal_strlit("CUSTOM_");
            reveal_strlit("SWAP_TOTAL");
            reveal_strlit("MEMORY_TOTAL");
            reveal_strlit("CPU_CORE_COUNT");
            reveal_strlit("INTERVAL_SECONDS");
            assert("CUSTOM_"@.len() == 7);
            assert(key.len() >= 7);
            assert(key[0] == 'C' && key[1] == 'U');
            assert("SWAP_TOTAL"@[0] == 'S');
            assert("MEMORY_TOTAL"@[0] == 'M');
            assert("INTERVAL_SECONDS"@[0] == 'I');
            assert("CPU_CORE_COUNT"@[1] == 'P');
        }
        lemma_leftover_lookup(pairs, key);
    }
}

/// True when an unrecognized column token has the shape of a
/// tracked-process column: `CUSTOM_`, an index, `_CPU` or `_MEMORY`.
pub open spec fn spec_custom_shape_ok(tok: Seq<char>) -> bool {
    &&& tok.len() >= 7
    &&& tok.take(7) == "CUSTOM_"@
    &&& spec_split(tok.skip(7), '_').len() == 2
    &&& spec_parse_dec_ok(spec_split(tok.skip(7), '_')[0])
    &&& dec_val(spec_split(tok.skip(7), '_')[0]) <= usize::MAX
    &&& (spec_split(tok.skip(7), '_')[1] == "CPU"@ || spec_split(tok.skip(7), '_')[1]
        == "MEMORY"@)
}

/// The index a tracked-process column token names.
pub open spec fn spec_custom_idx(tok: Seq<char>) -> int {
    dec_val(spec_split(tok.skip(7), '_')[0])
}

/// True when the token is the CPU column of its slot (else memory).
pub open spec fn spec_custom_is_cpu(tok: Seq<char>) -> bool {
    spec_split(tok.skip(7), '_')[1] == "CPU"@
}

/// The header key under which the token's display name is declared:
/// the parsed index rendered back canonically.
pub open spec fn spec_custom_key(tok: Seq<char>) -> Seq<char> {
    "CUSTOM_"@ + dec_of(spec_custom_idx(tok) as nat)
}

/// True when the column token can be read at all against the header
/// pairs: a fixed token, or a well-shaped tracked-process token whose
/// display name the pairs declare.
pub open spec fn spec_column_ok(tok: Seq<char>, pairs: Seq<(Seq<char>, Seq<char>)>) -> bool {
    if spec_parse_fixed_data_type(tok) is Some {
        true
    } else {
        spec_custom_shape_ok(tok) && spec_lookup(pairs, spec_custom_key(tok)) is Some
    }
}

/// What data type a column token must decode to.
pub open spec fn column_matches(
    d: DataType,
    tok: Seq<char>,
    pairs: Seq<(Seq<char>, Seq<char>)>,
) -> bool {
    match spec_parse_fixed_data_type(tok) {
        Some(f) => d == f,
        None => {
            &&& spec_custom_shape_ok(tok)
            &&& spec_lookup(pairs, spec_custom_key(tok)) is Some
            &&& if spec_custom_is_cpu(tok) {
                d matches DataType::CUSTOM_CPU(i, n) && i == spec_custom_idx(tok) && n@
                    == spec_lookup(pairs, spec_custom_key(tok))->0
            } else {
                d matches DataType::CUSTOM_MEMORY(i, n) && i == spec_custom_idx(tok) && n@
                    == spec_lookup(pairs, spec_custom_key(tok))->0
            }
        },
    }
}

/// True when the data type belongs to the CPU panel's fixed columns.
pub open spec fn in_cpu_group(d: DataType) -> bool {
    d is CPU_USAGE_TOTAL || d is CPU_USAGE_PER_CORE
}

/// True when the data type belongs to the memory panel's fixed columns.
pub open spec fn in_memory_group(d: DataType) -> bool {
    d is MEMORY_AVAILABLE || d is MEMORY_FREE || d is MEMORY_USED
}

/// True when the data type belongs to the swap panel's fixed columns.
pub open spec fn in_swap_group(d: DataType) -> bool {
    d is SWAP_USED || d is SWAP_FREE
}

/// The panel groups a declared column list gives rise to, in the fixed
/// order CPU, memory, swap.
pub open spec fn spec_groups(names: Seq<DataType>) -> Seq<GeneralInfoGroup> {
    (if exists|i: int| 0 <= i < names.len() && in_cpu_group(#[trigger] names[i]) {
        seq![GeneralInfoGroup::CPU]
    } else {
        Seq::empty()
    }) + (if exists|i: int| 0 <= i < names.len() && in_memory_group(#[trigger] names[i]) {
        seq![GeneralInfoGroup::MEMORY]
    } else {
        Seq::empty()
    }) + (if exists|i: int| 0 <= i < names.len() && in_swap_group(#[trigger] names[i]) {
        seq![GeneralInfoGroup::SWAP]
    } else {
        Seq::empty()
    })
}

/// Parses header line 2 into the declared column list and the panel
/// groups present. Every token must be recognized, the declared
/// columns must number more than one, and the first must be the
/// timestamp column.
pub fn parse_header(line: &str, pairs: &Vec<(String, String)>) -> (r: Result<
    (Vec<DataType>, Vec<GeneralInfoGroup>),
    LoadError,
>)
    ensures
        ({
            let toks = spec_split(line@, ',');
            let pv = pairs_view(pairs@);
            match r {
                Ok((names, groups)) => {
                    &&& names@.len() == toks.len()
                    &&& forall|i: int|
                        0 <= i < toks.len() ==> column_matches(#[trigger] names@[i], toks[i], pv)
                    &&& toks.len() > 1
                    &&& names@[0] is UNIX_TIMESTAMP
                    &&& groups@ == spec_groups(names@)
                },
                Err(e) => match e {
                    LoadError::BadColumnToken(t) => exists|i: int|
                        0 <= i < toks.len() && t@ == #[trigger] toks[i]
                            && spec_parse_fixed_data_type(toks[i]) is None
                            && !spec_custom_shape_ok(toks[i]),
                    LoadError::MissingCustomName(k) => exists|i: int|
                        0 <= i < toks.len() && spec_parse_fixed_data_type(#[trigger] toks[i])
                            is None && spec_custom_shape_ok(toks[i]) && k@ == spec_custom_key(
                            toks[i],
                        ) && spec_lookup(pv, spec_custom_key(toks[i])) is None,
                    LoadError::NoData => toks.len() <= 1,
                    LoadError::FirstColumnNotTimestamp => toks.len() > 1 && !(
                    spec_parse_fixed_data_type(toks[0]) matches Some(f) && f is UNIX_TIMESTAMP),
                    _ => false,
                },
            }
        }),
{
    let tokens = split_str(line, ',');
    let ghost toks = spec_split(line@, ',');
    let ghost pv = pairs_view(pairs@);
    let mut names: Vec<DataType> = Vec::new();
    let mut i: usize = 0;
    while i < tokens.len()
        invariant
            tokens.deep_view() == toks,
            toks == spec_split(line@, ','),
            pv == pairs_view(pairs@),
            0 <= i <= tokens@.len(),
            names@.len() == i,
            forall|k: int|
                0 <= k < i ==> column_matches(#[trigger] names@[k], toks[k], pv),
        decreases tokens@.len() - i,
    {
        proof {
            assert(tokens@[i as int]@ == toks[i as int]);
        }
        let tok = &tokens[i];
        match parse_fixed_data_type(tok.as_str()) {
            Some(d) => {
                names.push(d);
            },
            None => {
                let tl = tok.as_str().unicode_len();
                if tl < 7 {
                    return Err(LoadError::BadColumnToken(tok.clone()));
                }
                let prefix = tok.as_str().substring_char(0, 7);
                if !str_eq(prefix, "CUSTOM_") {
                    proof {
                        assert(prefix@ =~= toks[i as int].take(7));
                    }
                    return Err(LoadError::BadColumnToken(tok.clone()));
                }
                proof {
                    assert(prefix@ =~= toks[i as int].take(7));
                }
                let rest = tok.as_str().substring_char(7, tl);
                proof {
                    assert(rest@ =~= toks[i as int].skip(7));
                }
                let parts = split_str(rest, '_');
                proof {
                    assert(parts.deep_view().len() == parts@.len());
                }
                if parts.len() != 2 {
                    return Err(LoadError::BadColumnToken(tok.clone()));
                }
                proof {
                    assert(parts.deep_view()[0] == parts@[0]@);
                    assert(parts.deep_view()[1] == parts@[1]@);
                }
                let idx64 = match parse_dec_u64(parts[0].as_str()) {
                    Some(v) => v,
                    None => {
                        proof {
                            if spec_parse_dec_ok(parts@[0]@) {
                                crate::numfmt::lemma_dec_val_nonneg(parts@[0]@);
                            }
                        }
                        return Err(LoadError::BadColumnToken(tok.clone()));
                    },
                };
                if (idx64 as usize) as u64 != idx64 {
                    return Err(LoadError::BadColumnToken(tok.clone()));
                }
                let idx = idx64 as usize;
                let is_cpu = str_eq(parts[1].as_str(), "CPU");
                let is_memory = str_eq(parts[1].as_str(), "MEMORY");
                if !is_cpu && !is_memory {
                    return Err(LoadError::BadColumnToken(tok.clone()));
                }
                let mut key = String::from_str("CUSTOM_");
                key.append(u64_to_dec(idx64).as_str());
                proof {
                    assert(key@ == spec_custom_key(toks[i as int]));
                }
                match lookup_pair(pairs, key.as_str()) {
                    Some(name) => {
                        if is_cpu {
                            names.push(DataType::CUSTOM_CPU(idx, name));
                        } else {
                            names.push(DataType::CUSTOM_MEMORY(idx, name));
                        }
                    },
                    None => {
                        return Err(LoadError::MissingCustomName(key));
                    },
                }
            },
        }
        i += 1;
    }
    if names.len() <= 1 {
        return Err(LoadError::NoData);
    }
    let first_is_timestamp = match &names[0] {
        DataType::UNIX_TIMESTAMP => true,
        _ => false,
    };
    if !first_is_timestamp {
        proof {
            assert(column_matches(names@[0], toks[0], pv));
        }
        return Err(LoadError::FirstColumnNotTimestamp);
    }
    let mut has_cpu = false;
    let mut has_memory = false;
    let mut has_swap = false;
    let mut j: usize = 0;
    while j < names.len()
        invariant
            0 <= j <= names@.len(),
            has_cpu == exists|k: int| 0 <= k < j && in_cpu_group(#[trigger] names@[k]),
            has_memory == exists|k: int| 0 <= k < j && in_memory_group(#[trigger] names@[k]),
            has_swap == exists|k: int| 0 <= k < j && in_swap_group(#[trigger] names@[k]),
        decreases names@.len() - j,
    {
        match &names[j] {
            DataType::CPU_USAGE_TOTAL => {
                has_cpu = true;
            },
            DataType::CPU_USAGE_PER_CORE => {
                has_cpu = true;
            },
            DataType::MEMORY_AVAILABLE => {
                has_memory = true;
            },
            DataType::MEMORY_FREE => {
                has_memory = true;
            },
            DataType::MEMORY_USED => {
                has_memory = true;
            },
            DataType::SWAP_USED => {
                has_swap = true;
            },
            DataType::SWAP_FREE => {
                has_swap = true;
            },
            _ => {},
        }
        j += 1;
    }
    let mut groups: Vec<GeneralInfoGroup> = Vec::new();
    if has_cpu {
        groups.push(GeneralInfoGroup::CPU);
    }
    if has_memory {
        groups.push(GeneralInfoGroup::MEMORY);
    }
    if has_swap {
        groups.push(GeneralInfoGroup::SWAP);
    }
    proof {
        assert(groups@ =~= spec_groups(names@));
    }
    Ok((names, groups))
}

/// The data rows whose field count matches the declared column count;
/// other rows are skipped, never fatal.
pub open spec fn spec_good_rows(lines: Seq<Seq<char>>, c: nat) -> Seq<Seq<char>> {
    lines.filter(|l: Seq<char>| spec_split(l, ',').len() == c)
}

/// Column `j` of the good rows.
pub open spec fn spec_column(rows: Seq<Seq<char>>, j: int) -> Seq<Seq<char>> {
    Seq::new(rows.len(), |r: int| spec_split(rows[r], ',')[j])
}

/// True when every entry of the per-core column splits into exactly
/// the declared number of cores.
pub open spec fn spec_percore_ok(col: Seq<Seq<char>>, cores: nat) -> bool {
    forall|r: int| 0 <= r < col.len() ==> spec_split(#[trigger] col[r], ';').len() == cores
}

/// The per-core column re-distributed: one entry per core, holding
/// that core's values over all rows joined by `;`.
pub open spec fn spec_percore_col(col: Seq<Seq<char>>, cores: nat) -> Seq<Seq<char>> {
    Seq::new(
        cores,
        |c: int| spec_join(Seq::new(col.len(), |r: int| spec_split(col[r], ';')[c]), ';'),
    )
}

/// What the stored column for declared column `j` holds: the per-core
/// column is re-distributed by core, every other column is stored as
/// read.
pub open spec fn spec_expected_col(
    names: Seq<DataType>,
    good: Seq<Seq<char>>,
    cores: nat,
    j: int,
) -> Seq<Seq<char>> {
    if names[j] is CPU_USAGE_PER_CORE {
        spec_percore_col(spec_column(good, j), cores)
    } else {
        spec_column(good, j)
    }
}

/// Parses the data rows into one column of rendered values per
/// declared column. A row whose field count disagrees with the header
/// is skipped; a per-core field whose count disagrees with the
/// declared core count is fatal.
pub fn parse_data(
    lines: &Vec<String>,
    collected_data_names: &Vec<DataType>,
    cpu_core_count: usize,
) -> (r: Result<Vec<Vec<String>>, LoadError>)
    ensures
        ({
            let c = collected_data_names@.len();
            let good = spec_good_rows(lines.deep_view(), c);
            match r {
                Ok(cols) => {
                    &&& (forall|j: int|
                        0 <= j < c && (#[trigger] collected_data_names@[j]) is CPU_USAGE_PER_CORE
                            ==> spec_percore_ok(spec_column(good, j), cpu_core_count as nat))
                    &&& cols.deep_view().len() == c
                    &&& forall|j: int|
                        0 <= j < c ==> #[trigger] cols.deep_view()[j] == spec_expected_col(
                            collected_data_names@,
                            good,
                            cpu_core_count as nat,
                            j,
                        )
                },
                Err(e) => e matches LoadError::PerCoreShapeMismatch(f, got, expected) && expected
                    == cpu_core_count && got as nat == spec_split(f@, ';').len() && got
                    != cpu_core_count && (exists|j: int, rr: int|
                    0 <= j < c && collected_data_names@[j] is CPU_USAGE_PER_CORE && 0 <= rr
                        < good.len() && f@ == #[trigger] spec_column(good, j)[rr]),
            }
        }),
{
    let c = collected_data_names.len();
    let ghost dl = lines.deep_view();
    let ghost good = spec_good_rows(dl, c as nat);

    let mut rows: Vec<Vec<String>> = Vec::new();
    let mut i: usize = 0;
    proof {
        reveal(Seq::filter);
        assert(dl.take(0) =~= Seq::<Seq<char>>::empty());
        assert(rows.deep_view() =~= Seq::<Seq<Seq<char>>>::empty());
    }
    while i < lines.len()
        invariant
            dl == lines.deep_view(),
            c == collected_data_names@.len(),
            0 <= i <= lines@.len(),
            rows.deep_view().len() == spec_good_rows(dl.take(i as int), c as nat).len(),
            forall|r: int|
                0 <= r < rows.deep_view().len() ==> #[trigger] rows.deep_view()[r] == spec_split(
                    spec_good_rows(dl.take(i as int), c as nat)[r],
                    ',',
                ),
        decreases lines@.len() - i,
    {
        proof {
            assert(lines@[i as int]@ == dl[i as int]);
        }
        let parts = split_str(lines[i].as_str(), ',');
        proof {
            reveal(Seq::filter);
            let t = dl.take(i as int);
            let t1 = dl.take(i + 1);
            assert(t1.drop_last() =~= t);
            assert(t1.last() == dl[i as int]);
        }
        if parts.len() == c {
            let ghost old_dv = rows.deep_view();
            let ghost parts_dv = parts.deep_view();
            rows.push(parts);
            proof {
                let g1 = spec_good_rows(dl.take(i + 1), c as nat);
                let g0 = spec_good_rows(dl.take(i as int), c as nat);
                assert(g1 =~= g0.push(dl[i as int]));
                assert(rows.deep_view() =~= old_dv.push(parts_dv));
                assert(parts_dv == spec_split(dl[i as int], ','));
            }
        } else {
            proof {
                let g1 = spec_good_rows(dl.take(i + 1), c as nat);
                let g0 = spec_good_rows(dl.take(i as int), c as nat);
                assert(g1 =~= g0);
            }
        }
        i += 1;
    }
    proof {
        assert(dl.take(dl.len() as int) =~= dl);
        assert(rows.deep_view().len() == good.len());
        assert(forall|r: int|
            0 <= r < good.len() ==> #[trigger] rows.deep_view()[r] == spec_split(good[r], ','));
    }

    let mut columns: Vec<Vec<String>> = Vec::new();
    let mut j: usize = 0;
    while j < c
        invariant
            c == collected_data_names@.len(),
            good == spec_good_rows(lines.deep_view(), c as nat),
            rows.deep_view().len() == good.len(),
            forall|r: int|
                0 <= r < good.len() ==> #[trigger] rows.deep_view()[r] == spec_split(good[r], ','),
            forall|r: int|
                0 <= r < good.len() ==> spec_split(#[trigger] good[r], ',').len() == c,
            0 <= j <= c,
            columns.deep_view().len() == j,
            forall|k: int|
                0 <= k < j ==> #[trigger] columns.deep_view()[k] == spec_column(good, k),
        decreases c - j,
    {
        let mut col: Vec<String> = Vec::new();
        let mut r: usize = 0;
        while r < rows.len()
            invariant
                c == collected_data_names@.len(),
                rows.deep_view().len() == good.len(),
                forall|rr: int|
                    0 <= rr < good.len() ==> #[trigger] rows.deep_view()[rr] == spec_split(
                        good[rr],
                        ',',
                    ),
                forall|rr: int|
                    0 <= rr < good.len() ==> spec_split(#[trigger] good[rr], ',').len() == c,
                0 <= j < c,
                0 <= r <= rows@.len(),
                col.deep_view().len() == r,
                forall|rr: int|
                    0 <= rr < r ==> #[trigger] col.deep_view()[rr] == spec_column(good, j as int)[rr],
            decreases rows@.len() - r,
        {
            proof {
                assert(rows.deep_view()[r as int] == rows@[r as int].deep_view());
                assert(rows@[r as int]@.len() == rows@[r as int].deep_view().len());
                assert(rows@[r as int].deep_view()[j as int] == rows@[r as int]@[j as int]@);
            }
            let ghost old_col_dv = col.deep_view();
            col.push(rows[r][j].clone());
            proof {
                assert(col.deep_view() =~= old_col_dv.push(rows@[r as int]@[j as int]@));
            }
            r += 1;
        }
        let ghost old_cols_dv = columns.deep_view();
        proof {
            assert(col.deep_view() =~= spec_column(good, j as int));
        }
        columns.push(col);
        proof {
            assert(columns.deep_view() =~= old_cols_dv.push(spec_column(good, j as int)));
            assert(forall|k: int|
                0 <= k < j + 1 ==> #[trigger] columns.deep_view()[k] == spec_column(good, k));
        }
        j += 1;
    }

    let mut j: usize = 0;
    while j < c
        invariant
            c == collected_data_names@.len(),
            good == spec_good_rows(lines.deep_view(), c as nat),
            0 <= j <= c,
            columns.deep_view().len() == c,
            forall|k: int|
                j <= k < c ==> #[trigger] columns.deep_view()[k] == spec_column(good, k),
            forall|k: int|
                0 <= k < j && (#[trigger] collected_data_names@[k]) is CPU_USAGE_PER_CORE
                    ==> spec_percore_ok(spec_column(good, k), cpu_core_count as nat),
            forall|k: int|
                0 <= k < j ==> #[trigger] columns.deep_view()[k] == spec_expected_col(
                    collected_data_names@,
                    good,
                    cpu_core_count as nat,
                    k,
                ),
        decreases c - j,
    {
        let is_percore = match &collected_data_names[j] {
            DataType::CPU_USAGE_PER_CORE => true,
            _ => false,
        };
        if is_percore {
            let n_rows = columns[j].len();
            let mut parts_list: Vec<Vec<String>> = Vec::new();
            let mut r: usize = 0;
            proof {
                assert(columns.deep_view()[j as int] == columns@[j as int].deep_view());
                assert(columns@[j as int].deep_view().len() == columns@[j as int]@.len());
            }
            while r < n_rows
                invariant
                    c == collected_data_names@.len(),
                    good == spec_good_rows(lines.deep_view(), c as nat),
                    0 <= j < c,
                    collected_data_names@[j as int] is CPU_USAGE_PER_CORE,
                    columns.deep_view().len() == c,
                    columns.deep_view()[j as int] == spec_column(good, j as int),
                    n_rows == columns@[j as int]@.len(),
                    n_rows == spec_column(good, j as int).len(),
                    0 <= r <= n_rows,
                    parts_list.deep_view().len() == r,
                    forall|rr: int|
                        0 <= rr < r ==> #[trigger] parts_list.deep_view()[rr] == spec_split(
                            spec_column(good, j as int)[rr],
                            ';',
                        ),
                    forall|rr: int|
                        0 <= rr < r ==> spec_split(
                            #[trigger] spec_column(good, j as int)[rr],
                            ';',
                        ).len() == cpu_core_count,
                decreases n_rows - r,
            {
                proof {
                    assert(columns.deep_view()[j as int] == columns@[j as int].deep_view());
                    assert(columns@[j as int].deep_view()[r as int] == columns@[j as int]@[r as int]@);
                }
                let entry = &columns[j][r];
                let parts = split_str(entry.as_str(), ';');
                if parts.len() != cpu_core_count {
                    proof {
                        assert(parts.deep_view().len() == parts@.len());
                        assert(entry@ == spec_column(good, j as int)[r as int]);
                        assert(collected_data_names@[j as int] is CPU_USAGE_PER_CORE);
                        assert(0 <= (r as int) < good.len());
                    }
                    let got = parts.len();
                    return Err(
                        LoadError::PerCoreShapeMismatch(entry.clone(), got, cpu_core_count),
                    );
                }
                proof {
                    assert(parts.deep_view().len() == parts@.len());
                }
                let ghost old_pl_dv = parts_list.deep_view();
                let ghost parts_dv = parts.deep_view();
                parts_list.push(parts);
                proof {
                    assert(parts_list.deep_view() =~= old_pl_dv.push(parts_dv));
                }
                r += 1;
            }
            let mut new_col: Vec<String> = Vec::new();
            let mut c2: usize = 0;
            while c2 < cpu_core_count
                invariant
                    c == collected_data_names@.len(),
                    0 <= j < c,
                    n_rows == spec_column(good, j as int).len(),
                    parts_list.deep_view().len() == n_rows,
                    forall|rr: int|
                        0 <= rr < n_rows ==> #[trigger] parts_list.deep_view()[rr] == spec_split(
                            spec_column(good, j as int)[rr],
                            ';',
                        ),
                    forall|rr: int|
                        0 <= rr < n_rows ==> spec_split(
                            #[trigger] spec_column(good, j as int)[rr],
                            ';',
                        ).len() == cpu_core_count,
                    0 <= c2 <= cpu_core_count,
                    new_col.deep_view().len() == c2,
                    forall|k: int|
                        0 <= k < c2 ==> #[trigger] new_col.deep_view()[k] == spec_percore_col(
                            spec_column(good, j as int),
                            cpu_core_count as nat,
                        )[k],
                decreases cpu_core_count - c2,
            {
                let mut vals: Vec<String> = Vec::new();
                let mut r: usize = 0;
                while r < n_rows
                    invariant
                        0 <= j < c,
                        n_rows == spec_column(good, j as int).len(),
                        parts_list.deep_view().len() == n_rows,
                        parts_list@.len() == n_rows,
                        forall|rr: int|
                            0 <= rr < n_rows ==> #[trigger] parts_list.deep_view()[rr]
                                == spec_split(spec_column(good, j as int)[rr], ';'),
                        forall|rr: int|
                            0 <= rr < n_rows ==> spec_split(
                                #[trigger] spec_column(good, j as int)[rr],
                                ';',
                            ).len() == cpu_core_count,
                        0 <= c2 < cpu_core_count,
                        0 <= r <= n_rows,
                        vals.deep_view().len() == r,
                        forall|rr: int|
                            0 <= rr < r ==> #[trigger] vals.deep_view()[rr] == spec_split(
                                spec_column(good, j as int)[rr],
                                ';',
                            )[c2 as int],
                    decreases n_rows - r,
                {
                    proof {
                        assert(parts_list.deep_view()[r as int] == parts_list@[
                            r as int
                        ].deep_view());
                        assert(parts_list@[r as int].deep_view()[c2 as int] == parts_list@[
                            r as int
                        ]@[c2 as int]@);
                        assert(parts_list@[r as int]@.len() == parts_list@[
                            r as int
                        ].deep_view().len());
                    }
                    let ghost old_vals_dv = vals.deep_view();
                    vals.push(parts_list[r][c2].clone());
                    proof {
                        assert(vals.deep_view() =~= old_vals_dv.push(parts_list@[r as int]@[
                            c2 as int
                        ]@));
                    }
                    r += 1;
                }
                proof {
                    reveal_strlit(";");
                    assert(vals.deep_view() =~= Seq::new(
                        spec_column(good, j as int).len(),
                        |rr: int| spec_split(spec_column(good, j as int)[rr], ';')[c2 as int],
                    ));
                }
                let joined = join_with_sep_local(&vals);
                let ghost old_nc_dv = new_col.deep_view();
                let ghost joined_v = joined@;
                new_col.push(joined);
                proof {
                    assert(new_col.deep_view() =~= old_nc_dv.push(joined_v));
                    assert(new_col.deep_view().last() == spec_percore_col(
                        spec_column(good, j as int),
                        cpu_core_count as nat,
                    )[c2 as int]);
                    assert(forall|k: int|
                        0 <= k < c2 + 1 ==> #[trigger] new_col.deep_view()[k] == spec_percore_col(
                            spec_column(good, j as int),
                            cpu_core_count as nat,
                        )[k]);
                }
                c2 += 1;
            }
            let ghost old_cols = columns.deep_view();
            columns.set(j, new_col);
            proof {
                assert(new_col.deep_view() =~= spec_percore_col(
                    spec_column(good, j as int),
                    cpu_core_count as nat,
                ));
                assert(columns.deep_view() =~= old_cols.update(
                    j as int,
                    spec_percore_col(spec_column(good, j as int), cpu_core_count as nat),
                ));
            }
        }
        j += 1;
    }
    Ok(columns)
}

/// The values joined by the per-core sub-delimiter.
fn join_with_sep_local(vals: &Vec<String>) -> (r: String)
    ensures
        r@ == spec_join(vals.deep_view(), ';'),
{
    proof {
        reveal_strlit(";");
    }
    crate::strutil::join_with_sep(vals, ";")
}

/// True when header line 1 carries well-formed pairs and all four
/// required keys with values the reader can represent.
pub open spec fn spec_line1_ok(line: Seq<char>) -> bool {
    &&& spec_pairs_ok(line)
    &&& spec_lookup(spec_line_pairs(line), "SWAP_TOTAL"@) matches Some(v) && spec_parse_centi(v)
        matches Some(x) && x <= u64::MAX
    &&& spec_lookup(spec_line_pairs(line), "MEMORY_TOTAL"@) matches Some(v) && spec_parse_centi(v)
        matches Some(x) && x <= u64::MAX
    &&& spec_lookup(spec_line_pairs(line), "CPU_CORE_COUNT"@) matches Some(v) && spec_parse_dec_ok(
        v,
    ) && dec_val(v) <= usize::MAX
    &&& spec_lookup(spec_line_pairs(line), "INTERVAL_SECONDS"@) matches Some(v) && spec_parse_centi(
        v,
    ) matches Some(x) && x <= u64::MAX
}

/// The declared core count of header line 1.
pub open spec fn spec_core_count(line: Seq<char>) -> int {
    dec_val(spec_lookup(spec_line_pairs(line), "CPU_CORE_COUNT"@)->0)
}

/// True when every column token of header line 2 is readable against
/// header line 1, more than one column is declared, and the first is
/// the timestamp column.
pub open spec fn spec_line2_ok(line2: Seq<char>, line1: Seq<char>) -> bool {
    let toks = spec_split(line2, ',');
    &&& forall|i: int|
        0 <= i < toks.len() ==> spec_column_ok(#[trigger] toks[i], spec_line_pairs(line1))
    &&& toks.len() > 1
    &&& spec_parse_fixed_data_type(toks[0]) matches Some(f) && f is UNIX_TIMESTAMP
}

/// True when a column token is the per-core CPU column.
pub open spec fn tok_is_percore(tok: Seq<char>) -> bool {
    spec_parse_fixed_data_type(tok) matches Some(f) && f is CPU_USAGE_PER_CORE
}

/// True when every per-core field of every good data row splits into
/// exactly the declared number of cores.
pub open spec fn spec_data_ok(dlines: Seq<Seq<char>>, toks: Seq<Seq<char>>, cores: nat) -> bool {
    forall|j: int|
        0 <= j < toks.len() && tok_is_percore(#[trigger] toks[j]) ==> spec_percore_ok(
            spec_column(spec_good_rows(dlines, toks.len()), j),
            cores,
        )
}

/// Loads a whole record, given as its lines in order: header line 1,
/// header line 2, then data rows. Succeeds exactly when both header
/// lines are well-formed and every per-core field of a kept row agrees
/// with the declared core count; malformed rows are skipped, never
/// fatal.
pub fn load_csv_results(lines: &Vec<String>) -> (r: Result<CollectedItemModels, LoadError>)
    ensures
        ({
            let ls = lines.deep_view();
            match r {
                Ok(m) => {
                    let l0 = ls[0];
                    let l1 = ls[1];
                    let dlines = ls.skip(2);
                    let toks = spec_split(l1, ',');
                    let pv = spec_line_pairs(l0);
                    let good = spec_good_rows(dlines, toks.len());
                    &&& ls.len() >= 2
                    &&& spec_line1_ok(l0)
                    &&& spec_line2_ok(l1, l0)
                    &&& spec_data_ok(dlines, toks, m.cpu_core_count as nat)
                    &&& spec_parse_centi(spec_lookup(pv, "SWAP_TOTAL"@)->0) == Some(
                        m.swap_total as int,
                    )
                    &&& spec_parse_centi(spec_lookup(pv, "MEMORY_TOTAL"@)->0) == Some(
                        m.memory_total as int,
                    )
                    &&& m.cpu_core_count as int == spec_core_count(l0)
                    &&& spec_parse_centi(spec_lookup(pv, "INTERVAL_SECONDS"@)->0) == Some(
                        m.check_interval as int,
                    )
                    &&& m.collected_data_names@.len() == toks.len()
                    &&& forall|i: int|
                        0 <= i < toks.len() ==> column_matches(
                            #[trigger] m.collected_data_names@[i],
                            toks[i],
                            pv,
                        )
                    &&& m.collected_data_names@[0] is UNIX_TIMESTAMP
                    &&& m.collected_groups@ == spec_groups(m.collected_data_names@)
                    &&& m.collected_data.deep_view().len() == toks.len()
                    &&& forall|j: int|
                        0 <= j < toks.len() ==> #[trigger] m.collected_data.deep_view()[j]
                            == spec_expected_col(
                            m.collected_data_names@,
                            good,
                            m.cpu_core_count as nat,
                            j,
                        )
                },
                Err(_) => !({
                    &&& ls.len() >= 2
                    &&& spec_line1_ok(ls[0])
                    &&& spec_line2_ok(ls[1], ls[0])
                    &&& spec_data_ok(
                        ls.skip(2),
                        spec_split(ls[1], ','),
                        spec_core_count(ls[0]) as nat,
                    )
                }),
            }
        }),
{
    let ghost ls = lines.deep_view();
    if lines.len() == 0 {
        return Err(LoadError::MissingHeaderLine(1));
    }
    proof {
        assert(ls[0] == lines@[0]@);
    }
    let (swap_total, memory_total, cpu_core_count, check_interval, pairs) =
        match parse_file_values_data(lines[0].as_str()) {
        Ok(t) => t,
        Err(e) => {
            proof {
                if spec_line1_ok(ls[0]) {
                    match e {
                        LoadError::MissingPairValue(_) => {},
                        LoadError::MissingHeaderKey(_) => {},
                        LoadError::UnparsableHeaderValue(_, _) => {},
                        _ => {},
                    }
                }
            }
            return Err(e);
        },
    };
    proof {
        assert(pairs_view(pairs@) == spec_leftover_pairs(spec_line_pairs(ls[0])));
        assert(spec_line1_ok(ls[0]));
    }
    if lines.len() == 1 {
        return Err(LoadError::MissingHeaderLine(2));
    }
    proof {
        assert(ls[1] == lines@[1]@);
    }
    let (collected_data_names, collected_groups) = match parse_header(lines[1].as_str(), &pairs) {
        Ok(t) => t,
        Err(e) => {
            proof {
                if spec_line2_ok(ls[1], ls[0]) {
                    let toks = spec_split(ls[1], ',');
                    let lpv = pairs_view(pairs@);
                    match &e {
                        LoadError::BadColumnToken(t) => {
                            let i = choose|i: int|
                                0 <= i < toks.len() && t@ == toks[i] && spec_parse_fixed_data_type(
                                    toks[i],
                                ) is None && !spec_custom_shape_ok(toks[i]);
                            assert(spec_column_ok(toks[i], spec_line_pairs(ls[0])));
                        },
                        LoadError::MissingCustomName(k) => {
                            let i = choose|i: int|
                                0 <= i < toks.len() && spec_parse_fixed_data_type(toks[i]) is None
                                    && spec_custom_shape_ok(toks[i]) && k@ == spec_custom_key(
                                    toks[i],
                                ) && spec_lookup(lpv, spec_custom_key(toks[i])) is None;
                            lemma_column_matches_leftover(
                                DataType::UNIX_TIMESTAMP,
                                toks[i],
                                spec_line_pairs(ls[0]),
                            );
                            assert(spec_column_ok(toks[i], spec_line_pairs(ls[0])));
                        },
                        _ => {},
                    }
                }
            }
            return Err(e);
        },
    };
    let ghost toks = spec_split(ls[1], ',');
    let ghost pv = spec_line_pairs(ls[0]);
    proof {
        assert forall|i: int| 0 <= i < toks.len() implies column_matches(
            #[trigger] collected_data_names@[i],
            toks[i],
            pv,
        ) by {
            assert(column_matches(collected_data_names@[i], toks[i], pairs_view(pairs@)));
            lemma_column_matches_leftover(collected_data_names@[i], toks[i], pv);
        }
        assert(forall|i: int|
            0 <= i < toks.len() ==> column_matches(
                #[trigger] collected_data_names@[i],
                toks[i],
                pv,
            ));
        assert forall|i: int| 0 <= i < toks.len() implies spec_column_ok(
            #[trigger] toks[i],
            pv,
        ) by {
            assert(column_matches(collected_data_names@[i], toks[i], pv));
        }
        assert(spec_parse_fixed_data_type(toks[0]) matches Some(f) && f is UNIX_TIMESTAMP) by {
            assert(column_matches(collected_data_names@[0], toks[0], pv));
            if spec_parse_fixed_data_type(toks[0]) is None {
                assert(!(collected_data_names@[0] is UNIX_TIMESTAMP));
            }
        }
        assert(spec_line2_ok(ls[1], ls[0]));
        assert forall|j: int| 0 <= j < toks.len() implies ((
        #[trigger] collected_data_names@[j]) is CPU_USAGE_PER_CORE <==> tok_is_percore(
            toks[j],
        )) by {
            assert(column_matches(collected_data_names@[j], toks[j], pv));
        }
    }
    let mut data_lines: Vec<String> = Vec::new();
    let mut k: usize = 2;
    proof {
        assert(data_lines.deep_view() =~= ls.subrange(2, 2));
    }
    while k < lines.len()
        invariant
            ls == lines.deep_view(),
            2 <= k <= lines@.len(),
            data_lines.deep_view() == ls.subrange(2, k as int),
        decreases lines@.len() - k,
    {
        let ghost old_dv = data_lines.deep_view();
        data_lines.push(lines[k].clone());
        proof {
            assert(data_lines.deep_view() =~= old_dv.push(ls[k as int]));
            assert(data_lines.deep_view() =~= ls.subrange(2, k + 1));
        }
        k += 1;
    }
    proof {
        assert(data_lines.deep_view() =~= ls.skip(2));
    }
    let collected_data = match parse_data(&data_lines, &collected_data_names, cpu_core_count) {
        Ok(cols) => cols,
        Err(e) => {
            proof {
                let good = spec_good_rows(ls.skip(2), toks.len());
                if spec_data_ok(ls.skip(2), toks, spec_core_count(ls[0]) as nat) {
                    match &e {
                        LoadError::PerCoreShapeMismatch(f, got, expected) => {
                            let (j, rr) = choose|j: int, rr: int|
                                0 <= j < collected_data_names@.len()
                                    && collected_data_names@[j] is CPU_USAGE_PER_CORE && 0 <= rr
                                    < good.len() && f@ == #[trigger] spec_column(good, j)[rr];
                            assert(tok_is_percore(toks[j]));
                            assert(spec_percore_ok(spec_column(good, j), cpu_core_count as nat));
                        },
                        _ => {},
                    }
                }
            }
            return Err(e);
        },
    };
    proof {
        let good = spec_good_rows(ls.skip(2), toks.len());
        assert forall|j: int| 0 <= j < toks.len() && tok_is_percore(#[trigger] toks[j]) implies
            spec_percore_ok(spec_column(good, j), cpu_core_count as nat) by {
            assert(collected_data_names@[j] is CPU_USAGE_PER_CORE);
        }
    }
    Ok(
        CollectedItemModels {
            collected_data_names,
            collected_data,
            collected_groups,
            memory_total,
            swap_total,
            cpu_core_count,
            check_interval,
        },
    )
}

} // verus!
