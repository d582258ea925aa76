//! Character-sequence utilities shared by the record writer and reader:
//! splitting on a separator, joining with a separator, substring search,
//! and the lemmas that make split the inverse of join.

use vstd::prelude::*;

verus! {

/// True when `c` occurs somewhere in `s`.
pub open spec fn contains_char(s: Seq<char>, c: char) -> bool {
    exists|i: int| 0 <= i < s.len() && s[i] == c
}

/// Index of the first occurrence of `c` in `s`, or -1 when `c` does not occur.
pub open spec fn find_char(s: Seq<char>, c: char) -> int
    decreases s.len(),
{
    if s.len() == 0 {
        -1
    } else if s[0] == c {
        0
    } else {
        let r = find_char(s.skip(1), c);
        if r < 0 {
            -1
        } else {
            r + 1
        }
    }
}

/// `find_char` returns -1 exactly when `c` is absent, and otherwise the
/// first position holding `c`.
pub proof fn lemma_find_char_props(s: Seq<char>, c: char)
    ensures
        !contains_char(s, c) ==> find_char(s, c) == -1,
        contains_char(s, c) ==> 0 <= find_char(s, c) < s.len() && s[find_char(s, c)] == c
            && (forall|k: int| 0 <= k < find_char(s, c) ==> s[k] != c),
    decreases s.len(),
{
    if s.len() == 0 {
    } else if s[0] == c {
    } else {
        let t = s.skip(1);
        lemma_find_char_props(t, c);
        assert(forall|i: int| 0 <= i < t.len() ==> t[i] == s[i + 1]);
        if contains_char(s, c) {
            let w = choose|i: int| 0 <= i < s.len() && s[i] == c;
            assert(t[w - 1] == c);
            assert(contains_char(t, c));
            let r = find_char(t, c);
            assert(forall|k: int| 0 <= k < r + 1 ==> s[k] != c) by {
                assert(forall|k: int| 1 <= k < r + 1 ==> s[k] == t[k - 1]);
            }
        } else {
            assert(forall|i: int| 0 <= i < t.len() ==> t[i] != c) by {
                assert(forall|i: int| 0 <= i < t.len() ==> t[i] == s[i + 1]);
            }
            assert(!contains_char(t, c));
        }
    }
}

/// Any position that holds `c` with no earlier occurrence is the one
/// `find_char` returns.
pub proof fn lemma_find_char_unique(s: Seq<char>, c: char, i: int)
    requires
        0 <= i < s.len(),
        s[i] == c,
        forall|k: int| 0 <= k < i ==> s[k] != c,
    ensures
        find_char(s, c) == i,
{
    assert(contains_char(s, c));
    lemma_find_char_props(s, c);
    let f = find_char(s, c);
    if f < i {
        assert(s[f] != c);
    } else if f > i {
        assert(s[i] != c);
    }
}

/// The fields of `s` when cut at every occurrence of `c`.
pub open spec fn spec_split(s: Seq<char>, c: char) -> Seq<Seq<char>>
    decreases s.len(),
    via spec_split_decreases
{
    let i = find_char(s, c);
    if i < 0 {
        seq![s]
    } else {
        seq![s.take(i)] + spec_split(s.skip(i + 1), c)
    }
}

#[via_fn]
proof fn spec_split_decreases(s: Seq<char>, c: char) {
    lemma_find_char_props(s, c);
    if find_char(s, c) >= 0 {
        assert(contains_char(s, c)) by {
            if !contains_char(s, c) {
                assert(find_char(s, c) == -1);
            }
        }
    }
}

/// The fields of `parts` glued together with `c` between neighbours.
pub open spec fn spec_join(parts: Seq<Seq<char>>, c: char) -> Seq<char>
    decreases parts.len(),
{
    if parts.len() == 0 {
        Seq::empty()
    } else if parts.len() == 1 {
        parts[0]
    } else {
        parts[0] + seq![c] + spec_join(parts.skip(1), c)
    }
}

/// Splitting at the first separator of a string that starts with a
/// separator-free field.
pub proof fn lemma_split_step(s: Seq<char>, c: char, i: int)
    requires
        0 <= i < s.len(),
        s[i] == c,
        forall|k: int| 0 <= k < i ==> s[k] != c,
    ensures
        spec_split(s, c) == seq![s.take(i)] + spec_split(s.skip(i + 1), c),
{
    lemma_find_char_unique(s, c, i);
}

/// A string without the separator splits into itself alone.
pub proof fn lemma_split_whole(s: Seq<char>, c: char)
    requires
        !contains_char(s, c),
    ensures
        spec_split(s, c) == seq![s],
{
    lemma_find_char_props(s, c);
}

/// Joining then appending one more field.
pub proof fn lemma_join_push(parts: Seq<Seq<char>>, p: Seq<char>, c: char)
    ensures
        parts.len() == 0 ==> spec_join(parts.push(p), c) == p,
        parts.len() > 0 ==> spec_join(parts.push(p), c) == spec_join(parts, c) + seq![c] + p,
    decreases parts.len(),
{
    let w = parts.push(p);
    if parts.len() == 0 {
        assert(w.len() == 1);
        assert(w[0] == p);
    } else if parts.len() == 1 {
        assert(w.len() == 2);
        assert(w[0] == parts[0]);
        assert(w.skip(1) =~= seq![p]);
        assert(spec_join(w.skip(1), c) == p);
    } else {
        lemma_join_push(parts.skip(1), p, c);
        assert(w.skip(1) =~= parts.skip(1).push(p));
        assert(w[0] == parts[0]);
        assert(spec_join(parts.skip(1).push(p), c) == spec_join(parts.skip(1), c) + seq![c] + p);
        assert(spec_join(w, c) == w[0] + seq![c] + spec_join(w.skip(1), c));
        assert(spec_join(parts, c) + seq![c] + p == (parts[0] + seq![c] + spec_join(
            parts.skip(1),
            c,
        )) + seq![c] + p);
        assert(spec_join(w, c) =~= spec_join(parts, c) + seq![c] + p);
    }
}

/// Splitting undoes joining, as long as no field holds the separator.
pub proof fn lemma_split_of_join(parts: Seq<Seq<char>>, c: char)
    requires
        parts.len() >= 1,
        forall|j: int| 0 <= j < parts.len() ==> !contains_char(#[trigger] parts[j], c),
    ensures
        spec_split(spec_join(parts, c), c) == parts,
    decreases parts.len(),
{
    let s = spec_join(parts, c);
    if parts.len() == 1 {
        assert(s == parts[0]);
        lemma_split_whole(s, c);
        assert(spec_split(s, c) =~= parts);
    } else {
        let rest = spec_join(parts.skip(1), c);
        assert(s == parts[0] + seq![c] + rest);
        let i = parts[0].len() as int;
        assert(s.len() == i + 1 + rest.len());
        assert(s[i] == c);
        assert(forall|k: int| 0 <= k < i ==> s[k] == parts[0][k]);
        assert(forall|k: int| 0 <= k < i ==> s[k] != c);
        lemma_split_step(s, c, i);
        assert(s.take(i) =~= parts[0]);
        assert(s.skip(i + 1) =~= rest);
        lemma_split_of_join(parts.skip(1), c);
        assert(spec_split(s, c) == seq![parts[0]] + spec_split(rest, c));
        assert(spec_split(s, c) =~= parts);
    }
}

/// No field of a split contains the separator itself.
pub proof fn lemma_split_parts_no_sep(s: Seq<char>, sep: char)
    ensures
        forall|j: int|
            0 <= j < spec_split(s, sep).len() ==> !contains_char(
                #[trigger] spec_split(s, sep)[j],
                sep,
            ),
    decreases s.len(),
{
    lemma_find_char_props(s, sep);
    let i = find_char(s, sep);
    if i < 0 {
        assert(spec_split(s, sep) == seq![s]);
    } else {
        if !contains_char(s, sep) {
            assert(find_char(s, sep) == -1);
        }
        assert(contains_char(s, sep));
        let first = s.take(i);
        assert(forall|k: int| 0 <= k < first.len() ==> first[k] == s[k]);
        assert(!contains_char(first, sep));
        lemma_split_parts_no_sep(s.skip(i + 1), sep);
        assert(forall|j: int|
            1 <= j < spec_split(s, sep).len() ==> spec_split(s, sep)[j] == spec_split(
                s.skip(i + 1),
                sep,
            )[j - 1]);
    }
}

/// A character absent from the whole string is absent from every field
/// of its split.
pub proof fn lemma_split_parts_free(s: Seq<char>, sep: char, c: char)
    requires
        !contains_char(s, c),
    ensures
        forall|j: int|
            0 <= j < spec_split(s, sep).len() ==> !contains_char(
                #[trigger] spec_split(s, sep)[j],
                c,
            ),
    decreases s.len(),
{
    lemma_find_char_props(s, sep);
    let i = find_char(s, sep);
    if i < 0 {
        assert(spec_split(s, sep) == seq![s]);
    } else {
        if !contains_char(s, sep) {
            assert(find_char(s, sep) == -1);
        }
        assert(contains_char(s, sep));
        let first = s.take(i);
        assert(forall|k: int| 0 <= k < first.len() ==> first[k] == s[k]);
        assert(!contains_char(first, c));
        let rest = s.skip(i + 1);
        assert(forall|k: int| 0 <= k < rest.len() ==> rest[k] == s[k + i + 1]);
        assert(!contains_char(rest, c));
        lemma_split_parts_free(rest, sep, c);
        assert(forall|j: int|
            1 <= j < spec_split(s, sep).len() ==> spec_split(s, sep)[j] == spec_split(rest, sep)[j
                - 1]);
    }
}

/// A character in neither part is not in their concatenation.
pub proof fn lemma_concat_free(a: Seq<char>, b: Seq<char>, c: char)
    requires
        !contains_char(a, c),
        !contains_char(b, c),
    ensures
        !contains_char(a + b, c),
{
    if contains_char(a + b, c) {
        let i = choose|i: int| 0 <= i < (a + b).len() && (a + b)[i] == c;
        if i < a.len() {
            assert(a[i] == c);
        } else {
            assert(b[i - a.len()] == c);
        }
    }
}

/// A character that is neither the separator nor in any field is not
/// in the joined string.
pub proof fn lemma_join_free(parts: Seq<Seq<char>>, sep: char, c: char)
    requires
        c != sep,
        forall|j: int| 0 <= j < parts.len() ==> !contains_char(#[trigger] parts[j], c),
    ensures
        !contains_char(spec_join(parts, sep), c),
    decreases parts.len(),
{
    if parts.len() == 0 {
    } else if parts.len() == 1 {
        assert(spec_join(parts, sep) == parts[0]);
    } else {
        lemma_join_free(parts.skip(1), sep, c);
        assert(forall|j: int|
            0 <= j < parts.skip(1).len() ==> parts.skip(1)[j] == parts[j + 1]);
        let w = spec_join(parts, sep);
        let rest = spec_join(parts.skip(1), sep);
        assert(w == parts[0] + seq![sep] + rest);
        if contains_char(w, c) {
            let i = choose|i: int| 0 <= i < w.len() && w[i] == c;
            if i < parts[0].len() {
                assert(parts[0][i] == c);
            } else if i == parts[0].len() {
                assert(w[i] == sep);
            } else {
                assert(rest[i - parts[0].len() - 1] == c);
            }
        }
    }
}

/// True when `n` occurs in `h` starting at position `i`.
pub open spec fn is_sub_at(h: Seq<char>, n: Seq<char>, i: int) -> bool {
    0 <= i && i + n.len() <= h.len() && h.subrange(i, i + n.len()) == n
}

/// True when `n` occurs somewhere in `h`.
pub open spec fn spec_str_contains(h: Seq<char>, n: Seq<char>) -> bool {
    exists|i: int| is_sub_at(h, n, i)
}

/// Whether the views of two string slices are equal.
pub fn str_eq(a: &str, b: &str) -> (r: bool)
    ensures
        r == (a@ == b@),
{
    let sa: String = a.to_owned();
    let sb: String = b.to_owned();
    sa == sb
}

/// Whether `c` occurs in `s`.
pub fn string_contains_char(s: &str, c: char) -> (r: bool)
    ensures
        r == contains_char(s@, c),
{
    let n = s.unicode_len();
    let mut i: usize = 0;
    while i < n
        invariant
            n == s@.len(),
            0 <= i <= n,
            forall|k: int| 0 <= k < i ==> s@[k] != c,
        decreases n - i,
    {
        if s.get_char(i) == c {
            return true;
        }
        i += 1;
    }
    false
}

/// Position of the first occurrence of `c` in `s`, if any.
pub fn find_char_in_str(s: &str, c: char) -> (r: Option<usize>)
    ensures
        r is None ==> find_char(s@, c) == -1,
        r is Some ==> find_char(s@, c) == r->Some_0 as int,
{
    let n = s.unicode_len();
    let mut i: usize = 0;
    while i < n
        invariant
            n == s@.len(),
            0 <= i <= n,
            forall|k: int| 0 <= k < i ==> s@[k] != c,
        decreases n - i,
    {
        if s.get_char(i) == c {
            proof {
                lemma_find_char_unique(s@, c, i as int);
            }
            return Some(i);
        }
        i += 1;
    }
    proof {
        assert(!contains_char(s@, c));
        lemma_find_char_props(s@, c);
    }
    None
}

/// The fields of `s` cut at every occurrence of `c`, in order.
pub fn split_str(s: &str, c: char) -> (parts: Vec<String>)
    ensures
        parts.deep_view() == spec_split(s@, c),
{
    let n = s.unicode_len();
    let mut parts: Vec<String> = Vec::new();
    let mut field_start: usize = 0;
    let mut i: usize = 0;
    proof {
        assert(s@.skip(0) =~= s@);
        assert(parts.deep_view() =~= Seq::<Seq<char>>::empty());
        assert(parts.deep_view() + spec_split(s@, c) =~= spec_split(s@, c));
    }
    while i < n
        invariant
            n == s@.len(),
            0 <= field_start <= i <= n,
            forall|k: int| field_start <= k < i ==> s@[k] != c,
            spec_split(s@, c) == parts.deep_view() + spec_split(
                s@.skip(field_start as int),
                c,
            ),
        decreases n - i,
    {
        if s.get_char(i) == c {
            let piece = s.substring_char(field_start, i).to_owned();
            proof {
                let t = s@.skip(field_start as int);
                assert(forall|k: int| 0 <= k < t.len() ==> t[k] == s@[k + field_start]);
                let j = i - field_start;
                assert(t[j] == c);
                assert(forall|k: int| 0 <= k < j ==> t[k] != c);
                lemma_split_step(t, c, j);
                assert(t.take(j) =~= s@.subrange(field_start as int, i as int));
                assert(t.skip(j + 1) =~= s@.skip(i + 1));
                assert(spec_split(t, c) == seq![s@.subrange(field_start as int, i as int)]
                    + spec_split(s@.skip(i + 1), c));
            }
            let ghost old_dv = parts.deep_view();
            parts.push(piece);
            proof {
                assert(parts.deep_view() =~= old_dv.push(
                    s@.subrange(field_start as int, i as int),
                ));
                assert(parts.deep_view() + spec_split(s@.skip(i + 1), c) =~= old_dv + (seq![
                    s@.subrange(field_start as int, i as int),
                ] + spec_split(s@.skip(i + 1), c)));
            }
            field_start = i + 1;
        }
        i += 1;
    }
    let piece = s.substring_char(field_start, n).to_owned();
    proof {
        let t = s@.skip(field_start as int);
        assert(forall|k: int| 0 <= k < t.len() ==> t[k] == s@[k + field_start]);
        assert(!contains_char(t, c));
        lemma_split_whole(t, c);
        assert(t =~= s@.subrange(field_start as int, n as int));
    }
    let ghost old_dv = parts.deep_view();
    parts.push(piece);
    proof {
        assert(parts.deep_view() =~= old_dv.push(s@.subrange(field_start as int, n as int)));
        assert(parts.deep_view() =~= spec_split(s@, c));
    }
    parts
}

/// The fields of `parts` joined with the single-character separator `sep`.
pub fn join_with_sep(parts: &Vec<String>, sep: &str) -> (r: String)
    requires
        sep@.len() == 1,
    ensures
        r@ == spec_join(parts.deep_view(), sep@[0]),
{
    let ghost c = sep@[0];
    let mut r = String::new();
    let n = parts.len();
    let mut i: usize = 0;
    while i < n
        invariant
            sep@.len() == 1,
            c == sep@[0],
            n == parts.len(),
            0 <= i <= n,
            r@ == spec_join(parts.deep_view().take(i as int), c),
        decreases n - i,
    {
        if i > 0 {
            r.append(sep);
            proof {
                assert(sep@ =~= seq![c]);
            }
        }
        r.append(parts[i].as_str());
        proof {
            let dv = parts.deep_view();
            lemma_join_push(dv.take(i as int), dv[i as int], c);
            assert(dv.take(i + 1) =~= dv.take(i as int).push(dv[i as int]));
        }
        i += 1;
    }
    proof {
        assert(parts.deep_view().take(n as int) =~= parts.deep_view());
    }
    r
}

/// Whether `needle` occurs as a contiguous substring of `hay`.
pub fn str_contains_sub(hay: &str, needle: &str) -> (r: bool)
    ensures
        r == spec_str_contains(hay@, needle@),
{
    let hl = hay.unicode_len();
    let nl = needle.unicode_len();
    if nl == 0 {
        proof {
            assert(hay@.subrange(0, 0) =~= needle@);
            assert(is_sub_at(hay@, needle@, 0));
        }
        return true;
    }
    if nl > hl {
        proof {
            assert(forall|i: int| !is_sub_at(hay@, needle@, i));
        }
        return false;
    }
    let mut start: usize = 0;
    while start <= hl - nl
        invariant
            hl == hay@.len(),
            nl == needle@.len(),
            0 < nl <= hl,
            0 <= start <= hl - nl + 1,
            forall|j: int| 0 <= j < start ==> !is_sub_at(hay@, needle@, j),
        decreases hl - start,
    {
        let mut k: usize = 0;
        let mut matches_here = true;
        while k < nl
            invariant
                hl == hay@.len(),
                nl == needle@.len(),
                0 <= start <= hl - nl,
                0 <= k <= nl,
                matches_here ==> forall|m: int| 0 <= m < k ==> hay@[start + m] == needle@[m],
                !matches_here ==> !is_sub_at(hay@, needle@, start as int),
            decreases nl - k,
        {
            if matches_here {
                if hay.get_char(start + k) != needle.get_char(k) {
                    proof {
                        if is_sub_at(hay@, needle@, start as int) {
                            assert(hay@.subrange(start as int, start + nl)[k as int]
                                == hay@[start + k]);
                        }
                    }
                    matches_here = false;
                }
            }
            k += 1;
        }
        if matches_here {
            proof {
                assert(hay@.subrange(start as int, start + nl) =~= needle@);
                assert(is_sub_at(hay@, needle@, start as int));
            }
            return true;
        }
        start += 1;
    }
    proof {
        assert(forall|j: int| is_sub_at(hay@, needle@, j) ==> 0 <= j <= hl - nl);
    }
    false
}

} // verus!
