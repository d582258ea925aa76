//! Decimal formatting and parsing for the record's numeric fields.
//!
//! Scalar values in the record are fixed-point numbers with two decimal
//! places, held as integer counts of hundredths ("centi" values).
//! A centi value `v` renders as `v / 100`, a dot, and the two digits of
//! `v % 100`; header values may render trimmed, with trailing zero
//! decimals removed. Parsing accepts an optional fractional part and
//! ignores fractional digits beyond the second.

use vstd::arithmetic::div_mod::{lemma_div_denominator, lemma_fundamental_div_mod};
use vstd::prelude::*;

use crate::strutil::{contains_char, find_char, lemma_find_char_unique};

verus! {

/// True when `c` is one of the ten decimal digits.
pub open spec fn is_digit_char(c: char) -> bool {
    48 <= c as u32 <= 57
}

/// Numeric value of a digit character.
pub open spec fn digit_val(c: char) -> int {
    c as u32 - 48
}

/// The digit character for a value below ten.
pub open spec fn dec_digit(d: int) -> char {
    if d == 0 {
        '0'
    } else if d == 1 {
        '1'
    } else if d == 2 {
        '2'
    } else if d == 3 {
        '3'
    } else if d == 4 {
        '4'
    } else if d == 5 {
        '5'
    } else if d == 6 {
        '6'
    } else if d == 7 {
        '7'
    } else if d == 8 {
        '8'
    } else {
        '9'
    }
}

/// Decimal digit string of `n`, most significant digit first.
pub open spec fn dec_of(n: nat) -> Seq<char>
    decreases n,
    via dec_of_decreases
{
    if n < 10 {
        seq![dec_digit(n as int)]
    } else {
        dec_of(n / 10).push(dec_digit((n % 10) as int))
    }
}

#[via_fn]
proof fn dec_of_decreases(n: nat) {
    if n >= 10 {
        lemma_fundamental_div_mod(n as int, 10);
    }
}

/// True when every character of `s` is a decimal digit.
pub open spec fn all_digits(s: Seq<char>) -> bool {
    forall|i: int| 0 <= i < s.len() ==> is_digit_char(#[trigger] s[i])
}

/// The number denoted by a digit string, read in base ten.
pub open spec fn dec_val(s: Seq<char>) -> int
    decreases s.len(),
{
    if s.len() == 0 {
        0
    } else {
        dec_val(s.drop_last()) * 10 + digit_val(s.last())
    }
}

/// Fixed-point rendering of the centi value `v` with two decimal places.
pub open spec fn centi_of(v: nat) -> Seq<char> {
    dec_of(v / 100) + seq!['.', dec_digit(((v / 10) % 10) as int), dec_digit((v % 10) as int)]
}

/// Fixed-point rendering of the centi value `v` with trailing zero
/// decimals (and a then-empty fraction) removed.
pub open spec fn centi_trimmed_of(v: nat) -> Seq<char> {
    if v % 100 == 0 {
        dec_of(v / 100)
    } else if v % 10 == 0 {
        dec_of(v / 100) + seq!['.', dec_digit(((v / 10) % 10) as int)]
    } else {
        centi_of(v)
    }
}

/// True when `s` is a well-formed unsigned decimal integer.
pub open spec fn spec_parse_dec_ok(s: Seq<char>) -> bool {
    s.len() > 0 && all_digits(s)
}

/// Centi value of the first two fractional digit characters.
pub open spec fn frac_centi(s: Seq<char>) -> int {
    if s.len() == 0 {
        0
    } else if s.len() == 1 {
        digit_val(s[0]) * 10
    } else {
        digit_val(s[0]) * 10 + digit_val(s[1])
    }
}

/// The centi value denoted by a decimal string with an optional
/// fractional part, or None when the string is malformed.
pub open spec fn spec_parse_centi(s: Seq<char>) -> Option<int> {
    let dot = find_char(s, '.');
    if dot < 0 {
        if spec_parse_dec_ok(s) {
            Some(dec_val(s) * 100)
        } else {
            None
        }
    } else {
        let ip = s.take(dot);
        let fp = s.skip(dot + 1);
        if spec_parse_dec_ok(ip) && all_digits(fp) {
            Some(dec_val(ip) * 100 + frac_centi(fp))
        } else {
            None
        }
    }
}

/// The digit characters denote their values and are digits.
pub proof fn lemma_digit_char_val(d: int)
    requires
        0 <= d < 10,
    ensures
        digit_val(dec_digit(d)) == d,
        is_digit_char(dec_digit(d)),
{
    assert('0' as u32 == 48);
    assert('1' as u32 == 49);
    assert('2' as u32 == 50);
    assert('3' as u32 == 51);
    assert('4' as u32 == 52);
    assert('5' as u32 == 53);
    assert('6' as u32 == 54);
    assert('7' as u32 == 55);
    assert('8' as u32 == 56);
    assert('9' as u32 == 57);
}

/// The digit string of `n` is nonempty, all digits, and denotes `n`.
pub proof fn lemma_dec_of_props(n: nat)
    ensures
        dec_of(n).len() >= 1,
        all_digits(dec_of(n)),
        dec_val(dec_of(n)) == n,
    decreases n,
{
    if n < 10 {
        let s = dec_of(n);
        lemma_digit_char_val(n as int);
        assert(s == seq![dec_digit(n as int)]);
        assert(s.len() == 1);
        assert(s.drop_last() =~= Seq::<char>::empty());
        assert(dec_val(Seq::<char>::empty()) == 0);
        assert(s.last() == dec_digit(n as int));
        assert(dec_val(s) == dec_val(s.drop_last()) * 10 + digit_val(s.last()));
        assert(dec_val(s) == n);
    } else {
        lemma_fundamental_div_mod(n as int, 10);
        lemma_digit_char_val((n % 10) as int);
        lemma_dec_of_props(n / 10);
        let p = dec_of(n / 10);
        let s = dec_of(n);
        assert(s == p.push(dec_digit((n % 10) as int)));
        assert(s.drop_last() =~= p);
        assert(s.last() == dec_digit((n % 10) as int));
        assert(dec_val(s) == dec_val(p) * 10 + digit_val(dec_digit((n % 10) as int)));
        assert(forall|i: int|
            0 <= i < s.len() ==> #[trigger] s[i] == if i < p.len() {
                p[i]
            } else {
                dec_digit((n % 10) as int)
            });
    }
}

/// Digit strings denote distinct numbers, so `dec_of` is injective.
pub proof fn lemma_dec_of_injective(a: nat, b: nat)
    requires
        dec_of(a) == dec_of(b),
    ensures
        a == b,
{
    lemma_dec_of_props(a);
    lemma_dec_of_props(b);
}

/// A string of digits cannot contain a non-digit character.
pub proof fn lemma_digits_free_of(s: Seq<char>, c: char)
    requires
        all_digits(s),
        !is_digit_char(c),
    ensures
        !contains_char(s, c),
{
}

/// Every character of a fixed-point rendering is a digit or the dot.
pub proof fn lemma_centi_of_chars(v: nat)
    ensures
        forall|i: int|
            0 <= i < centi_of(v).len() ==> is_digit_char(#[trigger] centi_of(v)[i]) || centi_of(
                v,
            )[i] == '.',
        forall|i: int|
            0 <= i < centi_trimmed_of(v).len() ==> is_digit_char(#[trigger] centi_trimmed_of(v)[i])
                || centi_trimmed_of(v)[i] == '.',
{
    lemma_dec_of_props(v / 100);
    let p = dec_of(v / 100);
    assert(forall|i: int|
        0 <= i < centi_of(v).len() ==> #[trigger] centi_of(v)[i] == if i < p.len() {
            p[i]
        } else {
            centi_of(v)[i]
        });
    assert(forall|i: int|
        0 <= i < centi_trimmed_of(v).len() ==> #[trigger] centi_trimmed_of(v)[i] == if i
            < p.len() {
            p[i]
        } else {
            centi_trimmed_of(v)[i]
        });
}

/// A fixed-point rendering never contains a character that is neither a
/// digit nor the dot (such as a field or line separator).
pub proof fn lemma_centi_of_free(v: nat, c: char)
    requires
        !is_digit_char(c),
        c != '.',
    ensures
        !contains_char(centi_of(v), c),
        !contains_char(centi_trimmed_of(v), c),
{
    lemma_centi_of_chars(v);
}

/// Decomposition of a centi value into its whole and fractional digits.
pub proof fn lemma_centi_parts(v: nat)
    ensures
        (v / 100) * 100 + ((v / 10) % 10) * 10 + (v % 10) == v,
        (v / 10) % 10 < 10,
        v % 10 < 10,
        v % 100 == ((v / 10) % 10) * 10 + (v % 10),
{
    lemma_fundamental_div_mod(v as int, 10);
    lemma_fundamental_div_mod((v as int) / 10, 10);
    lemma_div_denominator(v as int, 10, 10);
    lemma_fundamental_div_mod(v as int, 100);
}

/// Reading a prefix one character further.
pub proof fn lemma_dec_val_take_step(s: Seq<char>, i: int)
    requires
        0 <= i < s.len(),
    ensures
        dec_val(s.take(i + 1)) == dec_val(s.take(i)) * 10 + digit_val(s[i]),
{
    assert(s.take(i + 1).drop_last() =~= s.take(i));
    assert(s.take(i + 1).last() == s[i]);
}

/// A digit string denotes a nonnegative number.
pub proof fn lemma_dec_val_nonneg(s: Seq<char>)
    requires
        all_digits(s),
    ensures
        dec_val(s) >= 0,
    decreases s.len(),
{
    if s.len() > 0 {
        assert(all_digits(s.drop_last()));
        lemma_dec_val_nonneg(s.drop_last());
    }
}

/// A digit string denotes at least as much as any of its prefixes.
pub proof fn lemma_dec_val_prefix(s: Seq<char>, i: int)
    requires
        all_digits(s),
        0 <= i <= s.len(),
    ensures
        dec_val(s.take(i)) <= dec_val(s),
    decreases s.len() - i,
{
    if i == s.len() {
        assert(s.take(i) =~= s);
    } else {
        lemma_dec_val_take_step(s, i);
        assert(all_digits(s.take(i)));
        lemma_dec_val_nonneg(s.take(i));
        lemma_dec_val_prefix(s, i + 1);
    }
}

/// The digit character of a value below ten, as a string slice.
pub fn digit_to_str(d: u64) -> (s: &'static str)
    requires
        d < 10,
    ensures
        s@ == seq![dec_digit(d as int)],
{
    proof {
        reveal_strlit("0");
        reveal_strlit("1");
        reveal_strlit("2");
        reveal_strlit("3");
        reveal_strlit("4");
        reveal_strlit("5");
        reveal_strlit("6");
        reveal_strlit("7");
        reveal_strlit("8");
        reveal_strlit("9");
    }
    let s = if d == 0 {
        "0"
    } else if d == 1 {
        "1"
    } else if d == 2 {
        "2"
    } else if d == 3 {
        "3"
    } else if d == 4 {
        "4"
    } else if d == 5 {
        "5"
    } else if d == 6 {
        "6"
    } else if d == 7 {
        "7"
    } else if d == 8 {
        "8"
    } else {
        "9"
    };
    proof {
        assert(s@ =~= seq![dec_digit(d as int)]);
    }
    s
}

/// The decimal digit string of `n`.
pub fn u64_to_dec(n: u64) -> (s: String)
    ensures
        s@ == dec_of(n as nat),
    decreases n,
{
    if n < 10 {
        digit_to_str(n).to_owned()
    } else {
        let mut s = u64_to_dec(n / 10);
        s.append(digit_to_str(n % 10));
        proof {
            assert(s@ =~= dec_of(n as nat));
        }
        s
    }
}

/// The two-decimal rendering of the centi value `v`.
pub fn format_centi(v: u64) -> (s: String)
    ensures
        s@ == centi_of(v as nat),
{
    let mut s = u64_to_dec(v / 100);
    proof {
        reveal_strlit(".");
    }
    s.append(".");
    s.append(digit_to_str((v / 10) % 10));
    s.append(digit_to_str(v % 10));
    proof {
        assert(s@ =~= centi_of(v as nat));
    }
    s
}

/// The trimmed rendering of the centi value `v`: no trailing zero
/// decimals, and no dot when the fraction is empty.
pub fn format_centi_trimmed(v: u64) -> (s: String)
    ensures
        s@ == centi_trimmed_of(v as nat),
{
    if v % 100 == 0 {
        u64_to_dec(v / 100)
    } else if v % 10 == 0 {
        let mut s = u64_to_dec(v / 100);
        proof {
            reveal_strlit(".");
        }
        s.append(".");
        s.append(digit_to_str((v / 10) % 10));
        proof {
            assert(s@ =~= centi_trimmed_of(v as nat));
        }
        s
    } else {
        format_centi(v)
    }
}

/// Parses an unsigned decimal integer; None when the string is not a
/// digit string or the value does not fit in a `u64`.
pub fn parse_dec_u64(s: &str) -> (r: Option<u64>)
    ensures
        match r {
            Some(v) => spec_parse_dec_ok(s@) && v as int == dec_val(s@),
            None => !spec_parse_dec_ok(s@) || dec_val(s@) > u64::MAX,
        },
{
    let n = s.unicode_len();
    if n == 0 {
        return None;
    }
    let mut acc: u64 = 0;
    let mut i: usize = 0;
    while i < n
        invariant
            n == s@.len(),
            0 <= i <= n,
            all_digits(s@.take(i as int)),
            acc as int == dec_val(s@.take(i as int)),
        decreases n - i,
    {
        let c = s.get_char(i);
        let cu = c as u32;
        if cu < 48 || cu > 57 {
            proof {
                assert(!is_digit_char(s@[i as int]));
            }
            return None;
        }
        let d = (cu - 48) as u64;
        proof {
            lemma_dec_val_take_step(s@, i as int);
            assert(all_digits(s@.take(i + 1)));
        }
        if acc > (u64::MAX - d) / 10 {
            proof {
                let m = u64::MAX as int;
                lemma_fundamental_div_mod(m - d, 10);
                assert(acc * 10 + d > m) by {
                    assert(acc >= (m - d) / 10 + 1);
                    assert(acc * 10 >= ((m - d) / 10) * 10 + 10);
                }
                assert(dec_val(s@.take(i + 1)) > m);
                if all_digits(s@) {
                    lemma_dec_val_prefix(s@, i + 1);
                }
            }
            return None;
        }
        proof {
            let m = u64::MAX as int;
            lemma_fundamental_div_mod(m - d, 10);
            assert(acc * 10 + d <= m) by {
                assert(acc <= (m - d) / 10);
                assert(acc * 10 <= ((m - d) / 10) * 10);
            }
        }
        acc = acc * 10 + d;
        i += 1;
    }
    proof {
        assert(s@.take(n as int) =~= s@);
    }
    Some(acc)
}

/// Parses a fixed-point decimal into its centi value; None when the
/// string is malformed or the value does not fit in a `u64`.
pub fn parse_centi_u64(s: &str) -> (r: Option<u64>)
    ensures
        match r {
            Some(v) => spec_parse_centi(s@) == Some(v as int),
            None => spec_parse_centi(s@) is None || spec_parse_centi(s@)->Some_0 > u64::MAX,
        },
{
    let n = s.unicode_len();
    match crate::strutil::find_char_in_str(s, '.') {
        None => {
            match parse_dec_u64(s) {
                Some(v) => {
                    if v <= u64::MAX / 100 {
                        proof {
                            lemma_fundamental_div_mod(u64::MAX as int, 100);
                        }
                        Some(v * 100)
                    } else {
                        proof {
                            lemma_fundamental_div_mod(u64::MAX as int, 100);
                            assert(v * 100 > u64::MAX) by {
                                assert(v >= u64::MAX as int / 100 + 1);
                                assert(v * 100 >= (u64::MAX as int / 100) * 100 + 100);
                            }
                        }
                        None
                    }
                },
                None => {
                    proof {
                        if spec_parse_dec_ok(s@) {
                            lemma_dec_val_nonneg(s@);
                        }
                    }
                    None
                },
            }
        },
        Some(dot) => {
            proof {
                crate::strutil::lemma_find_char_props(s@, '.');
                if !contains_char(s@, '.') {
                    assert(find_char(s@, '.') == -1);
                }
            }
            let ip = s.substring_char(0, dot);
            let fp = s.substring_char(dot + 1, n);
            proof {
                assert(ip@ =~= s@.take(dot as int));
                assert(fp@ =~= s@.skip(dot + 1));
            }
            let fl = fp.unicode_len();
            let mut k: usize = 0;
            while k < fl
                invariant
                    n == s@.len(),
                    0 <= dot < n,
                    find_char(s@, '.') == dot as int,
                    ip@ == s@.take(dot as int),
                    fp@ == s@.skip(dot as int + 1),
                    fl == fp@.len(),
                    0 <= k <= fl,
                    all_digits(fp@.take(k as int)),
                decreases fl - k,
            {
                let cu = fp.get_char(k) as u32;
                if cu < 48 || cu > 57 {
                    proof {
                        assert(!is_digit_char(fp@[k as int]));
                    }
                    return None;
                }
                proof {
                    assert(all_digits(fp@.take(k + 1)));
                }
                k += 1;
            }
            proof {
                assert(fp@.take(fl as int) =~= fp@);
            }
            let fc: u64 = if fl == 0 {
                0
            } else if fl == 1 {
                ((fp.get_char(0) as u32 - 48) * 10) as u64
            } else {
                ((fp.get_char(0) as u32 - 48) * 10 + (fp.get_char(1) as u32 - 48)) as u64
            };
            proof {
                assert(fc as int == frac_centi(fp@));
            }
            match parse_dec_u64(ip) {
                Some(v) => {
                    if v <= (u64::MAX - fc) / 100 {
                        proof {
                            lemma_fundamental_div_mod(u64::MAX - fc, 100);
                            assert(v * 100 + fc <= u64::MAX) by {
                                assert(v <= (u64::MAX - fc) as int / 100);
                                assert(v * 100 <= ((u64::MAX - fc) as int / 100) * 100);
                            }
                        }
                        Some(v * 100 + fc)
                    } else {
                        proof {
                            lemma_fundamental_div_mod(u64::MAX - fc, 100);
                            assert(v * 100 + fc > u64::MAX) by {
                                assert(v >= (u64::MAX - fc) as int / 100 + 1);
                                assert(v * 100 >= ((u64::MAX - fc) as int / 100) * 100 + 100);
                            }
                        }
                        None
                    }
                },
                None => {
                    proof {
                        if spec_parse_dec_ok(ip@) {
                            lemma_dec_val_nonneg(ip@);
                        }
                    }
                    None
                },
            }
        },
    }
}

/// Parsing a two-decimal rendering returns the centi value it came from.
pub proof fn lemma_parse_centi_of(v: nat)
    ensures
        spec_parse_centi(centi_of(v)) == Some(v as int),
{
    let s = centi_of(v);
    let p = dec_of(v / 100);
    lemma_dec_of_props(v / 100);
    lemma_centi_parts(v);
    assert(s[p.len() as int] == '.');
    assert(forall|k: int| 0 <= k < p.len() ==> s[k] == p[k]);
    assert(forall|k: int| 0 <= k < p.len() ==> s[k] != '.');
    lemma_find_char_unique(s, '.', p.len() as int);
    assert(s.take(p.len() as int) =~= p);
    let fp = s.skip(p.len() as int + 1);
    assert(fp =~= seq![dec_digit(((v / 10) % 10) as int), dec_digit((v % 10) as int)]);
    assert(all_digits(fp));
    assert(frac_centi(fp) == ((v / 10) % 10) * 10 + (v % 10));
    assert(dec_val(s.take(p.len() as int)) * 100 + frac_centi(fp) == v);
}

/// Parsing a trimmed rendering returns the centi value it came from.
pub proof fn lemma_parse_centi_trimmed_of(v: nat)
    ensures
        spec_parse_centi(centi_trimmed_of(v)) == Some(v as int),
{
    let p = dec_of(v / 100);
    lemma_dec_of_props(v / 100);
    lemma_centi_parts(v);
    if v % 100 == 0 {
        let s = centi_trimmed_of(v);
        assert(s == p);
        lemma_digits_free_of(p, '.');
        crate::strutil::lemma_find_char_props(p, '.');
        assert(dec_val(p) * 100 == v);
    } else if v % 10 == 0 {
        let s = centi_trimmed_of(v);
        assert(s[p.len() as int] == '.');
        assert(forall|k: int| 0 <= k < p.len() ==> s[k] == p[k]);
        assert(forall|k: int| 0 <= k < p.len() ==> s[k] != '.');
        lemma_find_char_unique(s, '.', p.len() as int);
        assert(s.take(p.len() as int) =~= p);
        let fp = s.skip(p.len() as int + 1);
        assert(fp =~= seq![dec_digit(((v / 10) % 10) as int)]);
        assert(all_digits(fp));
        assert(frac_centi(fp) == ((v / 10) % 10) * 10);
        assert(dec_val(s.take(p.len() as int)) * 100 + frac_centi(fp) == v);
    } else {
        lemma_parse_centi_of(v);
    }
}

} // verus!
