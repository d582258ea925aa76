//! Backup rotation: before a fresh run, prior generations of the data
//! file shift down a bounded ring and the oldest is deleted.
//!
//! The planner here only computes which file operations to perform;
//! the caller executes them. Generation `i` lives at the data path with
//! `__i` inserted before the extension. A missing generation is simply
//! skipped, so a crash mid-rotation leaves a state the next rotation
//! accepts.

use vstd::prelude::*;

use crate::numfmt::{dec_of, u64_to_dec};
use crate::strutil::contains_char;

verus! {

/// One file operation of a rotation plan, for the caller to execute in
/// order: delete a file, or rename one over another.
#[derive(Debug, Clone)]
pub enum FileOp {
    RemoveFile { path: String },
    RenameFile { from: String, to: String },
}

/// Index of the last dot in `s`, or -1 when `s` holds none.
pub open spec fn last_dot(s: Seq<char>) -> int
    decreases s.len(),
{
    if s.len() == 0 {
        -1
    } else if s.last() == '.' {
        s.len() - 1
    } else {
        last_dot(s.drop_last())
    }
}

/// `last_dot` finds the rightmost dot, or -1 when there is none.
pub proof fn lemma_last_dot_props(s: Seq<char>)
    ensures
        !contains_char(s, '.') ==> last_dot(s) == -1,
        contains_char(s, '.') ==> 0 <= last_dot(s) < s.len() && s[last_dot(s)] == '.' && (forall|
            k: int,
        |
            last_dot(s) < k < s.len() ==> s[k] != '.'),
    decreases s.len(),
{
    if s.len() == 0 {
    } else if s.last() == '.' {
        assert(contains_char(s, '.'));
    } else {
        let t = s.drop_last();
        lemma_last_dot_props(t);
        assert(forall|i: int| 0 <= i < t.len() ==> t[i] == s[i]);
        if contains_char(s, '.') {
            let w = choose|i: int| 0 <= i < s.len() && s[i] == '.';
            assert(w < s.len() - 1);
            assert(t[w] == '.');
            assert(contains_char(t, '.'));
        } else {
            assert(forall|i: int| 0 <= i < t.len() ==> t[i] != '.');
            assert(!contains_char(t, '.'));
        }
    }
}

/// Any dot position with no later dot is the one `last_dot` returns.
pub proof fn lemma_last_dot_unique(s: Seq<char>, d: int)
    requires
        0 <= d < s.len(),
        s[d] == '.',
        forall|k: int| d < k < s.len() ==> s[k] != '.',
    ensures
        last_dot(s) == d,
{
    assert(contains_char(s, '.'));
    lemma_last_dot_props(s);
    let f = last_dot(s);
    if f < d {
        assert(s[d] != '.');
    } else if f > d {
        assert(s[f] != '.');
    }
}

/// The file name with `item` inserted before the extension, or appended
/// when the name has no extension.
pub open spec fn spec_format_new_name(path: Seq<char>, item: Seq<char>) -> Seq<char> {
    let d = last_dot(path);
    if d < 0 {
        path + item
    } else {
        path.take(d) + item + path.skip(d)
    }
}

/// Inserts `item_to_add` immediately before the file extension of
/// `file_path`, or appends it when there is no extension.
pub fn format_new_name(file_path: &str, item_to_add: &str) -> (r: String)
    ensures
        r@ == spec_format_new_name(file_path@, item_to_add@),
{
    let n = file_path.unicode_len();
    let mut i: usize = n;
    while i > 0
        invariant
            n == file_path@.len(),
            0 <= i <= n,
            forall|k: int| i <= k < n ==> file_path@[k] != '.',
        decreases i,
    {
        if file_path.get_char(i - 1) == '.' {
            proof {
                lemma_last_dot_unique(file_path@, i - 1);
            }
            let mut r = file_path.substring_char(0, i - 1).to_owned();
            r.append(item_to_add);
            r.append(file_path.substring_char(i - 1, n));
            proof {
                assert(r@ =~= spec_format_new_name(file_path@, item_to_add@));
            }
            return r;
        }
        i -= 1;
    }
    proof {
        assert(!contains_char(file_path@, '.'));
        lemma_last_dot_props(file_path@);
    }
    let mut r = file_path.to_owned();
    r.append(item_to_add);
    r
}

/// The path of backup generation `i` of `path`.
pub open spec fn spec_gen_path(path: Seq<char>, i: nat) -> Seq<char> {
    spec_format_new_name(path, "__"@ + dec_of(i))
}

/// The path holding backup generation `i` of `data_path`.
pub fn gen_backup_path(data_path: &str, i: u32) -> (r: String)
    ensures
        r@ == spec_gen_path(data_path@, i as nat),
{
    proof {
        reveal_strlit("__");
    }
    let mut suffix = String::from_str("__");
    let num = u64_to_dec(i as u64);
    suffix.append(num.as_str());
    format_new_name(data_path, suffix.as_str())
}

/// A rotation step on generation files, abstracted to generation
/// numbers: delete generation `i`, move generation `a` onto `b`, or
/// move the live file onto generation 1.
pub enum GenOp {
    RemoveGen(nat),
    MoveGen(nat, nat),
    MoveLive,
}

/// Whether an executable file operation is the rendering of an abstract
/// rotation step for `path`.
pub open spec fn op_matches(op: FileOp, g: GenOp, path: Seq<char>) -> bool {
    match g {
        GenOp::RemoveGen(i) => op matches FileOp::RemoveFile { path: p } && p@ == spec_gen_path(
            path,
            i,
        ),
        GenOp::MoveGen(a, b) => op matches FileOp::RenameFile { from, to } && from@
            == spec_gen_path(path, a) && to@ == spec_gen_path(path, b),
        GenOp::MoveLive => op matches FileOp::RenameFile { from, to } && from@ == path && to@
            == spec_gen_path(path, 1),
    }
}

/// The generation-file state a rotation acts on: the content of the
/// live file and of each generation slot, `None` where no file exists.
/// Contents are abstract labels; the slot at index `i` is generation
/// `i + 1`.
#[verifier::ext_equal]
pub struct RotState {
    pub live: Option<int>,
    pub gens: Seq<Option<int>>,
}

/// Effect of one abstract rotation step: a rename of a missing source
/// is skipped, and a rename replaces whatever occupied its target.
pub open spec fn apply_gen_op(st: RotState, g: GenOp) -> RotState {
    match g {
        GenOp::RemoveGen(i) => {
            if 1 <= i <= st.gens.len() {
                RotState { live: st.live, gens: st.gens.update(i - 1, None) }
            } else {
                st
            }
        },
        GenOp::MoveGen(a, b) => {
            if 1 <= a <= st.gens.len() && 1 <= b <= st.gens.len() && a != b && st.gens[a - 1]
                is Some {
                RotState {
                    live: st.live,
                    gens: st.gens.update(b - 1, st.gens[a - 1]).update(a - 1, None),
                }
            } else {
                st
            }
        },
        GenOp::MoveLive => {
            if st.live is Some && st.gens.len() >= 1 {
                RotState { live: None, gens: st.gens.update(0, st.live) }
            } else {
                st
            }
        },
    }
}

/// Effect of a list of abstract rotation steps, applied in order.
pub open spec fn apply_gen_ops(st: RotState, ops: Seq<GenOp>) -> RotState
    decreases ops.len(),
{
    if ops.len() == 0 {
        st
    } else {
        apply_gen_ops(apply_gen_op(st, ops[0]), ops.skip(1))
    }
}

/// The abstract steps that shift generations `1..=i` each one slot
/// down, highest first, skipping missing generations.
pub open spec fn shift_ops(i: nat, ex: Seq<bool>) -> Seq<GenOp>
    decreases i,
{
    if i == 0 {
        Seq::empty()
    } else {
        (if ex[i - 1] {
            seq![GenOp::MoveGen(i, (i + 1) as nat)]
        } else {
            Seq::empty()
        }) + shift_ops((i - 1) as nat, ex)
    }
}

/// The abstract steps of one full rotation with `n` generation slots,
/// given which generations and whether the live file exist.
pub open spec fn spec_rotation_ops(n: nat, ex: Seq<bool>, live: bool) -> Seq<GenOp> {
    if n == 0 {
        Seq::empty()
    } else {
        (if ex[n - 1] {
            seq![GenOp::RemoveGen(n)]
        } else {
            Seq::empty()
        }) + shift_ops((n - 1) as nat, ex) + (if live {
            seq![GenOp::MoveLive]
        } else {
            Seq::empty()
        })
    }
}

/// What one full rotation does to the generation-file state: the live
/// file becomes generation 1, every other generation moves one slot
/// down, and the oldest is dropped.
pub open spec fn rotate_model(st: RotState) -> RotState {
    RotState { live: None, gens: seq![st.live] + st.gens.drop_last() }
}

proof fn lemma_apply_gen_ops_app(st: RotState, a: Seq<GenOp>, b: Seq<GenOp>)
    ensures
        apply_gen_ops(st, a + b) == apply_gen_ops(apply_gen_ops(st, a), b),
    decreases a.len(),
{
    if a.len() == 0 {
        assert(a + b =~= b);
    } else {
        assert((a + b)[0] == a[0]);
        assert((a + b).skip(1) =~= a.skip(1) + b);
        lemma_apply_gen_ops_app(apply_gen_op(st, a[0]), a.skip(1), b);
    }
}

/// Shifting with a vacated target slot moves every lower generation up
/// by one and leaves slot 1 empty.
proof fn lemma_shift_ops_apply(i: nat, ex: Seq<bool>, st: RotState)
    requires
        i < st.gens.len(),
        ex.len() >= i,
        st.gens[i as int] is None,
        forall|k: int| 0 <= k < i ==> (ex[k] == (st.gens[k] is Some)),
    ensures
        ({
            let r = apply_gen_ops(st, shift_ops(i, ex));
            &&& r.live == st.live
            &&& r.gens.len() == st.gens.len()
            &&& r.gens[0] is None
            &&& forall|g: int| 1 <= g <= i ==> r.gens[g] == st.gens[g - 1]
            &&& forall|k: int| i < k < st.gens.len() ==> r.gens[k] == st.gens[k]
        }),
    decreases i,
{
    if i == 0 {
    } else {
        let rest = shift_ops((i - 1) as nat, ex);
        if ex[i - 1] {
            let op = GenOp::MoveGen(i, (i + 1) as nat);
            assert(shift_ops(i, ex) =~= seq![op] + rest);
            let st1 = apply_gen_op(st, op);
            assert(apply_gen_ops(st, shift_ops(i, ex)) == apply_gen_ops(st1, rest)) by {
                lemma_apply_gen_ops_app(st, seq![op], rest);
                assert(seq![op].skip(1) =~= Seq::<GenOp>::empty());
                assert(seq![op][0] == op);
                assert(apply_gen_ops(st1, seq![op].skip(1)) == st1);
                assert(apply_gen_ops(st, seq![op]) == st1);
            }
            assert(st.gens[i - 1] is Some);
            assert(st1.gens == st.gens.update(i as int, st.gens[i - 1]).update(i - 1, None));
            lemma_shift_ops_apply((i - 1) as nat, ex, st1);
        } else {
            assert(shift_ops(i, ex) =~= rest);
            assert(st.gens[i - 1] is None);
            lemma_shift_ops_apply((i - 1) as nat, ex, st);
        }
    }
}

/// Executing a full rotation plan takes the file state to the rotated
/// state: the plan is correct for every state that matches the
/// existence flags it was computed from.
pub proof fn lemma_rotation_ops_apply(n: nat, ex: Seq<bool>, live: bool, st: RotState)
    requires
        n >= 1,
        st.gens.len() == n,
        ex.len() == n,
        forall|k: int| 0 <= k < n ==> (ex[k] == (st.gens[k] is Some)),
        live == (st.live is Some),
    ensures
        apply_gen_ops(st, spec_rotation_ops(n, ex, live)) == rotate_model(st),
{
    let removal: Seq<GenOp> = if ex[n - 1] {
        seq![GenOp::RemoveGen(n)]
    } else {
        Seq::empty()
    };
    let shifts = shift_ops((n - 1) as nat, ex);
    let livemove: Seq<GenOp> = if live {
        seq![GenOp::MoveLive]
    } else {
        Seq::empty()
    };
    assert(spec_rotation_ops(n, ex, live) == removal + shifts + livemove);
    let st_a = apply_gen_ops(st, removal);
    assert(st_a.live == st.live && st_a.gens.len() == n && st_a.gens[n - 1] is None && forall|
        k: int,
    | 0 <= k < n - 1 ==> st_a.gens[k] == st.gens[k]) by {
        if ex[n - 1] {
            let g = GenOp::RemoveGen(n);
            assert(removal[0] == g);
            assert(removal.skip(1) =~= Seq::<GenOp>::empty());
            assert(apply_gen_ops(apply_gen_op(st, g), removal.skip(1)) == apply_gen_op(st, g));
            assert(st_a == apply_gen_op(st, g));
            assert(st_a.gens == st.gens.update(n - 1, None));
        } else {
            assert(st_a == st);
            assert(st.gens[n - 1] is None);
        }
    }
    lemma_shift_ops_apply((n - 1) as nat, ex, st_a);
    let st_b = apply_gen_ops(st_a, shifts);
    let st_c = apply_gen_ops(st_b, livemove);
    assert(apply_gen_ops(st, removal + shifts + livemove) == st_c) by {
        assert((removal + shifts + livemove) =~= (removal + shifts) + livemove);
        lemma_apply_gen_ops_app(st, removal + shifts, livemove);
        lemma_apply_gen_ops_app(st, removal, shifts);
        assert(apply_gen_ops(st, (removal + shifts) + livemove) == apply_gen_ops(
            apply_gen_ops(apply_gen_ops(st, removal), shifts),
            livemove,
        ));
    }
    if live {
        assert(st_c == apply_gen_op(st_b, GenOp::MoveLive)) by {
            assert(livemove[0] == GenOp::MoveLive);
            assert(livemove.skip(1) =~= Seq::<GenOp>::empty());
            assert(apply_gen_ops(apply_gen_op(st_b, GenOp::MoveLive), livemove.skip(1))
                == apply_gen_op(st_b, GenOp::MoveLive));
        }
        assert(st.live is Some);
        assert(st_c.gens =~= seq![st.live] + st.gens.drop_last());
    } else {
        assert(st_c == st_b);
        assert(st_c.gens =~= seq![st.live] + st.gens.drop_last());
    }
    assert(st_c.live is None);
    assert(st_c == rotate_model(st));
}

/// The rotation plan for `data_path` with `backup_number` generation
/// slots: remove the oldest generation, shift the others down one slot
/// (skipping missing ones), then move the live file to generation 1.
/// `gen_exists[i]` says whether generation `i + 1` exists on disk.
pub fn backup_rotation_ops(
    data_path: &str,
    backup_number: u32,
    gen_exists: &Vec<bool>,
    live_exists: bool,
) -> (ops: Vec<FileOp>)
    requires
        gen_exists@.len() == backup_number as nat,
    ensures
        ops@.len() == spec_rotation_ops(backup_number as nat, gen_exists@, live_exists).len(),
        forall|j: int|
            0 <= j < ops@.len() ==> op_matches(
                #[trigger] ops@[j],
                spec_rotation_ops(backup_number as nat, gen_exists@, live_exists)[j],
                data_path@,
            ),
{
    let ghost n = backup_number as nat;
    let ghost gops = spec_rotation_ops(n, gen_exists@, live_exists);
    let mut ops: Vec<FileOp> = Vec::new();
    if backup_number == 0 {
        return ops;
    }
    let ghost mut emitted: Seq<GenOp> = Seq::empty();
    if gen_exists[backup_number as usize - 1] {
        let path = gen_backup_path(data_path, backup_number);
        ops.push(FileOp::RemoveFile { path });
        proof {
            emitted = seq![GenOp::RemoveGen(n)];
        }
    }
    let mut i: u32 = backup_number - 1;
    proof {
        assert(gops =~= emitted + shift_ops((n - 1) as nat, gen_exists@) + (if live_exists {
            seq![GenOp::MoveLive]
        } else {
            Seq::<GenOp>::empty()
        }));
    }
    while i >= 1
        invariant
            backup_number >= 1,
            n == backup_number as nat,
            gen_exists@.len() == n,
            0 <= i <= backup_number - 1,
            gops == spec_rotation_ops(n, gen_exists@, live_exists),
            gops =~= emitted + shift_ops(i as nat, gen_exists@) + (if live_exists {
                seq![GenOp::MoveLive]
            } else {
                Seq::<GenOp>::empty()
            }),
            ops@.len() == emitted.len(),
            forall|j: int|
                0 <= j < ops@.len() ==> op_matches(#[trigger] ops@[j], emitted[j], data_path@),
        decreases i,
    {
        if gen_exists[i as usize - 1] {
            let from = gen_backup_path(data_path, i);
            let to = gen_backup_path(data_path, i + 1);
            ops.push(FileOp::RenameFile { from, to });
            proof {
                emitted = emitted.push(GenOp::MoveGen(i as nat, (i + 1) as nat));
            }
        }
        proof {
            assert(shift_ops(i as nat, gen_exists@) == (if gen_exists@[i - 1] {
                seq![GenOp::MoveGen(i as nat, (i + 1) as nat)]
            } else {
                Seq::<GenOp>::empty()
            }) + shift_ops((i - 1) as nat, gen_exists@));
            assert(gops =~= emitted + shift_ops((i - 1) as nat, gen_exists@) + (if live_exists {
                seq![GenOp::MoveLive]
            } else {
                Seq::<GenOp>::empty()
            }));
        }
        i -= 1;
    }
    if live_exists {
        let to = gen_backup_path(data_path, 1);
        let from = data_path.to_owned();
        ops.push(FileOp::RenameFile { from, to });
        proof {
            emitted = emitted.push(GenOp::MoveLive);
        }
    }
    proof {
        assert(shift_ops(0, gen_exists@) =~= Seq::<GenOp>::empty());
        assert(gops =~= emitted);
    }
    ops
}

/// The generation-file state after the first run and `k` further
/// run-rotation cycles: each cycle rotates and then writes a fresh live
/// file. Contents are numbered by the run that wrote them.
pub open spec fn cycle_state(n: nat, k: nat) -> RotState
    decreases k,
{
    if k == 0 {
        RotState { live: Some(0), gens: Seq::new(n, |i: int| None) }
    } else {
        let prev = cycle_state(n, (k - 1) as nat);
        let rotated = rotate_model(prev);
        RotState { live: Some(k as int), gens: rotated.gens }
    }
}

/// After `k` rotations of a ring of `n` slots, exactly `min(k, n)`
/// backups exist besides the live file, holding the `min(k, n)` most
/// recent runs in order; in particular, after `n + 1` rotations the
/// oldest run's file is gone.
pub proof fn lemma_rotation_generations(n: nat, k: nat)
    requires
        n >= 1,
    ensures
        cycle_state(n, k).live == Some(k as int),
        cycle_state(n, k).gens.len() == n,
        forall|i: int|
            0 <= i < n ==> cycle_state(n, k).gens[i] == if i < k && i < n {
                Some(k - 1 - i)
            } else {
                None::<int>
            },
        k >= n + 1 ==> forall|i: int| 0 <= i < n ==> cycle_state(n, k).gens[i] != Some(0int),
    decreases k,
{
    if k == 0 {
    } else {
        lemma_rotation_generations(n, (k - 1) as nat);
        let prev = cycle_state(n, (k - 1) as nat);
        let cur = cycle_state(n, k);
        assert(cur.gens == seq![prev.live] + prev.gens.drop_last());
        assert(forall|i: int| 1 <= i < n ==> cur.gens[i] == prev.gens[i - 1]);
        assert(cur.gens[0] == prev.live);
    }
}

} // verus!
