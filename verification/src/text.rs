//! Character-level helpers shared by the token codec and the bootstrap-file
//! parser: decimal representations of unsigned integers, scanning a string
//! for digit runs and delimiter characters, and matching literal fragments.

use vstd::prelude::*;

verus! {

use vstd::string::StringExecFns;

/// `c` is one of the ten ASCII decimal digits.
pub open spec fn is_digit(c: char) -> bool {
    48 <= c as int && c as int <= 57
}

/// Numeric value of a decimal digit character.
pub open spec fn digit_val(c: char) -> nat
    recommends
        is_digit(c),
{
    (c as int - 48) as nat
}

/// The decimal digit character for a value below ten.
pub open spec fn digit_char(d: nat) -> char
    recommends
        d < 10,
{
    if d == 0 {
        '0'
    } else if d == 1 {
        '1'
    } else if d == 2 {
        '2'
    } else if d == 3 {
        '3'
    } else if d == 4 {
        '4'
    } else if d == 5 {
        '5'
    } else if d == 6 {
        '6'
    } else if d == 7 {
        '7'
    } else if d == 8 {
        '8'
    } else {
        '9'
    }
}

/// Canonical decimal representation of `n`: no leading zeros, and `0` itself
/// is the single character `'0'`.
pub open spec fn dec_rep(n: nat) -> Seq<char>
    decreases n,
{
    if n < 10 {
        seq![digit_char(n)]
    } else {
        dec_rep(n / 10).push(digit_char(n % 10))
    }
}

/// The value of a sequence of decimal digit characters, most significant
/// digit first.
pub open spec fn digits_val(s: Seq<char>) -> nat
    decreases s.len(),
{
    if s.len() == 0 {
        0
    } else {
        digits_val(s.drop_last()) * 10 + digit_val(s.last())
    }
}

/// Every character of `s` is a decimal digit.
pub open spec fn all_digits(s: Seq<char>) -> bool {
    forall|i: int| 0 <= i < s.len() ==> is_digit(#[trigger] s[i])
}

/// Index just past the run of digit characters of `s` that starts at `i`.
pub open spec fn digit_run_end(s: Seq<char>, i: int) -> int
    decreases s.len() - i,
{
    if 0 <= i && i < s.len() && is_digit(s[i]) {
        digit_run_end(s, i + 1)
    } else {
        i
    }
}

/// Index of the first occurrence of `c` in `s` at or after `i`, or `s.len()`
/// if there is none.
pub open spec fn find_from(s: Seq<char>, i: int, c: char) -> int
    decreases s.len() - i,
{
    if 0 <= i && i < s.len() && s[i] != c {
        find_from(s, i + 1, c)
    } else {
        i
    }
}

pub proof fn lemma_digit_char_val(d: nat)
    requires
        d < 10,
    ensures
        is_digit(digit_char(d)),
        digit_val(digit_char(d)) == d,
{
}

pub proof fn lemma_digit_val_char(c: char)
    requires
        is_digit(c),
    ensures
        digit_char(digit_val(c)) == c,
{
}

/// A canonical decimal representation is a nonempty digit string without a
/// leading zero (except for `0` itself).
pub proof fn lemma_dec_rep_wf(n: nat)
    ensures
        dec_rep(n).len() >= 1,
        all_digits(dec_rep(n)),
        n >= 1 ==> dec_rep(n)[0] != '0',
        dec_rep(n)[0] != '0' || dec_rep(n).len() == 1,
        n < 10 ==> dec_rep(n).len() == 1,
    decreases n,
{
    if n < 10 {
        lemma_digit_char_val(n);
        assert(dec_rep(n) =~= seq![digit_char(n)]);
        assert(n != 0 ==> digit_char(n) != '0');
    } else {
        vstd::arithmetic::div_mod::lemma_div_non_zero(n as int, 10);
        lemma_dec_rep_wf(n / 10);
        lemma_digit_char_val(n % 10);
        assert(dec_rep(n) == dec_rep(n / 10).push(digit_char(n % 10)));
        assert(dec_rep(n)[0] == dec_rep(n / 10)[0]);
    }
}

/// Evaluating the canonical representation gives the number back.
pub proof fn lemma_dec_rep_val(n: nat)
    ensures
        digits_val(dec_rep(n)) == n,
    decreases n,
{
    if n < 10 {
        lemma_digit_char_val(n);
        let s = dec_rep(n);
        assert(s == seq![digit_char(n)]);
        assert(s.drop_last() =~= Seq::<char>::empty());
        assert(digits_val(Seq::<char>::empty()) == 0);
        assert(s.last() == digit_char(n));
        assert(digits_val(s) == 0 * 10 + digit_val(digit_char(n)));
    } else {
        let q = n / 10;
        let r = n % 10;
        lemma_dec_rep_val(q);
        lemma_digit_char_val(r);
        let s = dec_rep(n);
        assert(s == dec_rep(q).push(digit_char(r)));
        assert(s.drop_last() =~= dec_rep(q));
        assert(s.last() == digit_char(r));
        assert(digits_val(s) == digits_val(dec_rep(q)) * 10 + digit_val(digit_char(r)));
        assert(digits_val(s) == q * 10 + r);
        vstd::arithmetic::div_mod::lemma_fundamental_div_mod(n as int, 10);
        assert(n == 10 * (n as int / 10) + n as int % 10);
    }
}

/// A nonempty digit string that does not start with `'0'` has a nonzero
/// value.
pub proof fn lemma_digits_val_nonzero(s: Seq<char>)
    requires
        all_digits(s),
        s.len() >= 1,
        s[0] != '0',
    ensures
        digits_val(s) >= 1,
    decreases s.len(),
{
    if s.len() == 1 {
        assert(digit_val(s[0]) >= 1);
    } else {
        assert(s.drop_last()[0] == s[0]);
        lemma_digits_val_nonzero(s.drop_last());
    }
}

/// A nonempty digit string without a leading zero is *the* canonical
/// representation of its value.
pub proof fn lemma_canonical_dec(s: Seq<char>)
    requires
        all_digits(s),
        s.len() >= 1,
        s[0] != '0' || s.len() == 1,
    ensures
        s == dec_rep(digits_val(s)),
    decreases s.len(),
{
    if s.len() == 1 {
        lemma_digit_val_char(s[0]);
        assert(s.drop_last() =~= Seq::<char>::empty());
        assert(digits_val(Seq::<char>::empty()) == 0);
        assert(s.last() == s[0]);
        assert(digits_val(s) == digit_val(s[0]));
        assert(digit_val(s[0]) < 10);
        assert(dec_rep(digits_val(s)) == seq![digit_char(digits_val(s))]);
        assert(s =~= dec_rep(digits_val(s)));
    } else {
        let s0 = s.drop_last();
        let c = s.last();
        assert(s0[0] == s[0]);
        lemma_canonical_dec(s0);
        lemma_digits_val_nonzero(s0);
        let n = digits_val(s);
        let v0 = digits_val(s0);
        assert(n == v0 * 10 + digit_val(c));
        vstd::arithmetic::div_mod::lemma_fundamental_div_mod_converse(
            n as int,
            10,
            v0 as int,
            digit_val(c) as int,
        );
        assert(n / 10 == v0 && n % 10 == digit_val(c));
        lemma_digit_val_char(c);
        assert(s =~= dec_rep(v0).push(c));
    }
}

/// The value of a prefix of a digit string is bounded by the value of the
/// whole string.
pub proof fn lemma_digits_val_prefix_le(s: Seq<char>, i: int)
    requires
        0 <= i <= s.len(),
    ensures
        digits_val(s.subrange(0, i)) <= digits_val(s),
    decreases s.len() - i,
{
    if i == s.len() {
        assert(s.subrange(0, i) =~= s);
    } else {
        lemma_digits_val_prefix_le(s, i + 1);
        assert(s.subrange(0, i + 1).drop_last() =~= s.subrange(0, i));
        assert(digits_val(s.subrange(0, i + 1)) == digits_val(s.subrange(0, i)) * 10
            + digit_val(s.subrange(0, i + 1).last()));
    }
}

/// The digit run that starts at `i` is a well-formed run: it lies within the
/// string, consists of digits, and ends at the end of the string or just
/// before a non-digit.
pub proof fn lemma_digit_run_end_props(s: Seq<char>, i: int)
    requires
        0 <= i <= s.len(),
    ensures
        i <= digit_run_end(s, i) <= s.len(),
        forall|k: int| i <= k < digit_run_end(s, i) ==> is_digit(#[trigger] s[k]),
        digit_run_end(s, i) == s.len() || !is_digit(s[digit_run_end(s, i)]),
    decreases s.len() - i,
{
    if i < s.len() && is_digit(s[i]) {
        lemma_digit_run_end_props(s, i + 1);
    }
}

/// Any well-formed run determines `digit_run_end`.
pub proof fn lemma_digit_run_end_determined(s: Seq<char>, i: int, m: int)
    requires
        0 <= i <= m <= s.len(),
        forall|k: int| i <= k < m ==> is_digit(#[trigger] s[k]),
        m == s.len() || !is_digit(s[m]),
    ensures
        digit_run_end(s, i) == m,
    decreases m - i,
{
    if i < m {
        lemma_digit_run_end_determined(s, i + 1, m);
    }
}

pub proof fn lemma_find_from_props(s: Seq<char>, i: int, c: char)
    requires
        0 <= i <= s.len(),
    ensures
        i <= find_from(s, i, c) <= s.len(),
        forall|k: int| i <= k < find_from(s, i, c) ==> #[trigger] s[k] != c,
        find_from(s, i, c) == s.len() || s[find_from(s, i, c)] == c,
    decreases s.len() - i,
{
    if i < s.len() && s[i] != c {
        lemma_find_from_props(s, i + 1, c);
    }
}

pub proof fn lemma_find_from_determined(s: Seq<char>, i: int, m: int, c: char)
    requires
        0 <= i <= m <= s.len(),
        forall|k: int| i <= k < m ==> #[trigger] s[k] != c,
        m == s.len() || s[m] == c,
    ensures
        find_from(s, i, c) == m,
    decreases m - i,
{
    if i < m {
        lemma_find_from_determined(s, i + 1, m, c);
    }
}

/// Relies on std's `String::push`: appends one character at the end.
#[verifier::external_body]
pub(crate) fn string_push(s: &mut String, c: char)
    ensures
        final(s)@ == old(s)@.push(c),
{
    s.push(c);
}

/// Whether `c` is an ASCII decimal digit.
pub fn is_digit_exec(c: char) -> (b: bool)
    ensures
        b == is_digit(c),
{
    let u = c as u32;
    48 <= u && u <= 57
}

fn digit_to_char(d: u8) -> (c: char)
    requires
        d < 10,
    ensures
        c == digit_char(d as nat),
{
    match d {
        0 => '0',
        1 => '1',
        2 => '2',
        3 => '3',
        4 => '4',
        5 => '5',
        6 => '6',
        7 => '7',
        8 => '8',
        _ => '9',
    }
}

/// Formats `n` in canonical decimal.
pub fn fmt_u64(n: u64) -> (s: String)
    ensures
        s@ == dec_rep(n as nat),
    decreases n,
{
    if n < 10 {
        let mut s = String::new();
        string_push(&mut s, digit_to_char(n as u8));
        proof {
            assert(s@ =~= dec_rep(n as nat));
        }
        s
    } else {
        let mut s = fmt_u64(n / 10);
        string_push(&mut s, digit_to_char((n % 10) as u8));
        proof {
            assert(s@ =~= dec_rep(n as nat));
        }
        s
    }
}

/// Canonical decimal representation of a signed value: a `-` sign followed
/// by the magnitude when negative.
pub open spec fn dec_rep_i64(n: i64) -> Seq<char> {
    if n >= 0 {
        dec_rep(n as nat)
    } else {
        seq!['-'] + dec_rep((-(n as int)) as nat)
    }
}

/// Formats `n` in canonical signed decimal.
pub fn fmt_i64(n: i64) -> (s: String)
    ensures
        s@ == dec_rep_i64(n),
{
    if n >= 0 {
        let s = fmt_u64(n as u64);
        proof {
            assert(s@ =~= dec_rep_i64(n));
        }
        s
    } else {
        let magnitude: u64 = ((-(n as i128)) as u64);
        let mut s = String::new();
        string_push(&mut s, '-');
        let digits = fmt_u64(magnitude);
        s.append(digits.as_str());
        proof {
            assert(s@ =~= dec_rep_i64(n));
        }
        s
    }
}

/// Scans the canonical decimal number that starts at `start`, if any.
///
/// Returns the value together with the index just past the digit run. The
/// scan is greedy and only accepts a run that is canonical (no leading zero)
/// and whose value fits in `u64`.
pub fn scan_u64(s: &str, start: usize) -> (r: Option<(u64, usize)>)
    ensures
        ({
            let e = digit_run_end(s@, start as int);
            match r {
                Some(p) => {
                    &&& start < e
                    &&& p.1 == e
                    &&& p.0 as nat == digits_val(s@.subrange(start as int, e))
                    &&& s@[start as int] != '0' || e == start + 1
                },
                None => !{
                    &&& start < s@.len()
                    &&& start < e
                    &&& (s@[start as int] != '0' || e == start + 1)
                    &&& digits_val(s@.subrange(start as int, e)) <= u64::MAX
                },
            }
        }),
{
    let n: usize = s.unicode_len();
    if start >= n {
        return None;
    }
    proof {
        lemma_digit_run_end_props(s@, start as int);
    }
    let ghost e = digit_run_end(s@, start as int);
    let c0 = s.get_char(start);
    if !is_digit_exec(c0) {
        return None;
    }
    if c0 == '0' {
        // only the single digit `0` is canonical here
        if start + 1 < n {
            let c1 = s.get_char(start + 1);
            if is_digit_exec(c1) {
                proof {
                    assert(e >= start + 2) by {
                        if e == start + 1 {
                            assert(!is_digit(s@[start + 1]));
                        }
                    }
                }
                return None;
            }
        }
        proof {
            lemma_digit_run_end_determined(s@, start as int, start + 1);
            let run = s@.subrange(start as int, start + 1);
            assert(run =~= seq![s@[start as int]]);
            assert(run.drop_last() =~= Seq::<char>::empty());
            assert(digits_val(Seq::<char>::empty()) == 0);
            assert(run.last() == s@[start as int]);
            assert(digits_val(run) == digit_val('0'));
        }
        return Some((0, start + 1));
    }
    let mut i: usize = start;
    let mut acc: u64 = 0;
    loop
        invariant
            start <= i <= e,
            e == digit_run_end(s@, start as int),
            start < s@.len(),
            is_digit(s@[start as int]),
            s@[start as int] != '0',
            start <= e <= s@.len(),
            n == s@.len(),
            forall|k: int| start <= k < e ==> is_digit(#[trigger] s@[k]),
            e == s@.len() || !is_digit(s@[e as int]),
            acc as nat == digits_val(s@.subrange(start as int, i as int)),
        ensures
            start <= i <= e,
            acc as nat == digits_val(s@.subrange(start as int, i as int)),
            i == s@.len() || !is_digit(s@[i as int]),
        decreases s@.len() - i,
    {
        if i >= n {
            break;
        }
        let c = s.get_char(i);
        if !is_digit_exec(c) {
            break;
        }
        proof {
            assert(i < e) by {
                if i == e {
                    assert(!is_digit(s@[i as int]));
                }
            }
        }
        let d: u8 = ((c as u32) - 48) as u8;
        let wide: u128 = (acc as u128) * 10 + (d as u128);
        proof {
            assert(s@.subrange(start as int, i + 1).drop_last() =~= s@.subrange(
                start as int,
                i as int,
            ));
            assert(s@.subrange(start as int, i + 1).last() == s@[i as int]);
            assert(digits_val(s@.subrange(start as int, i + 1)) == acc as nat * 10 + digit_val(
                c,
            ));
        }
        if wide > u64::MAX as u128 {
            proof {
                let run = s@.subrange(start as int, e);
                lemma_digits_val_prefix_le(run, i + 1 - start);
                assert(run.subrange(0, i + 1 - start) =~= s@.subrange(start as int, i + 1));
                assert(digits_val(s@.subrange(start as int, e)) >= digits_val(
                    s@.subrange(start as int, i + 1),
                ));
            }
            return None;
        }
        acc = (wide) as u64;
        i = i + 1;
    }
    proof {
        assert(i == e) by {
            if i < e {
                assert(is_digit(s@[i as int]));
            }
        }
    }
    Some((acc, i))
}

/// Whether the characters of `s` starting at `start` spell out `pat`.
pub fn match_lit(s: &str, start: usize, pat: &str) -> (b: bool)
    requires
        start <= s@.len(),
    ensures
        b == (start + pat@.len() <= s@.len() && s@.subrange(
            start as int,
            start as int + pat@.len(),
        ) == pat@),
{
    let n: usize = s.unicode_len();
    let m: usize = pat.unicode_len();
    if m > n - start {
        return false;
    }
    let mut k: usize = 0;
    while k < m
        invariant
            0 <= k <= m,
            m == pat@.len(),
            n == s@.len(),
            start + m <= n,
            forall|j: int| 0 <= j < k ==> s@[start + j] == pat@[j],
        decreases m - k,
    {
        let c1 = s.get_char(start + k);
        let c2 = pat.get_char(k);
        if c1 != c2 {
            proof {
                assert(s@.subrange(start as int, start as int + pat@.len())[k as int] == s@[start
                    + k]);
            }
            return false;
        }
        k = k + 1;
    }
    proof {
        assert(s@.subrange(start as int, start as int + pat@.len()) =~= pat@);
    }
    true
}

/// Index of the first occurrence of `c` in `s` at or after `start`, or the
/// length of `s` if there is none.
pub fn find_char_from(s: &str, start: usize, c: char) -> (j: usize)
    requires
        start <= s@.len(),
    ensures
        j == find_from(s@, start as int, c),
{
    let n: usize = s.unicode_len();
    let mut i: usize = start;
    while i < n
        invariant
            start <= i <= n,
            n == s@.len(),
            forall|k: int| start <= k < i ==> #[trigger] s@[k] != c,
        decreases n - i,
    {
        let ci = s.get_char(i);
        if ci == c {
            proof {
                lemma_find_from_determined(s@, start as int, i as int, c);
            }
            return i;
        }
        i = i + 1;
    }
    proof {
        lemma_find_from_determined(s@, start as int, n as int, c);
    }
    n
}

} // verus!
