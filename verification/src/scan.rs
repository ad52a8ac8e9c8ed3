//! Character-level scanning helpers: white-space classification, first
//! occurrence of a pattern, and the value of a leading run of decimal
//! digits.

use vstd::prelude::*;
use vstd::string::*;
use vstd::arithmetic::div_mod::{lemma_add_mod_noop, lemma_mul_mod_noop_left, lemma_small_mod};

verus! {

/// The characters the Unicode standard classifies as white space.
pub open spec fn is_ws(c: char) -> bool {
    ||| c == ' '
    ||| c == '\t'
    ||| c == '\n'
    ||| c == '\r'
    ||| c == '\u{b}'
    ||| c == '\u{c}'
    ||| c == '\u{85}'
    ||| c == '\u{a0}'
    ||| c == '\u{1680}'
    ||| (0x2000 <= c as u32 && c as u32 <= 0x200a)
    ||| c == '\u{2028}'
    ||| c == '\u{2029}'
    ||| c == '\u{202f}'
    ||| c == '\u{205f}'
    ||| c == '\u{3000}'
}

/// Decide `is_ws`.
pub fn is_whitespace_char(c: char) -> (r: bool)
    ensures
        r == is_ws(c),
{
    let u = c as u32;
    u == 0x20 || u == 0x9 || u == 0xa || u == 0xd || u == 0xb || u == 0xc || u == 0x85
        || u == 0xa0 || u == 0x1680 || (0x2000 <= u && u <= 0x200a) || u == 0x2028
        || u == 0x2029 || u == 0x202f || u == 0x205f || u == 0x3000
}

/// `pat` occurs in `s` starting at character index `i`.
pub open spec fn occurs_at(s: Seq<char>, pat: Seq<char>, i: int) -> bool {
    &&& 0 <= i
    &&& i + pat.len() <= s.len()
    &&& s.subrange(i, i + pat.len() as int) == pat
}

/// The first index at or after `i` where `pat` occurs in `s`, if any.
pub open spec fn first_occ_from(s: Seq<char>, pat: Seq<char>, i: int) -> Option<int>
    decreases s.len() - i + 1,
{
    if i < 0 || i + pat.len() > s.len() {
        None
    } else if occurs_at(s, pat, i) {
        Some(i)
    } else {
        first_occ_from(s, pat, i + 1)
    }
}

/// The first index where `pat` occurs in `s`, if any.
pub open spec fn first_occ(s: Seq<char>, pat: Seq<char>) -> Option<int> {
    first_occ_from(s, pat, 0)
}

/// Find the first occurrence of `pat` in `s`, by characters.
pub fn find_sub(s: &str, pat: &str) -> (r: Option<usize>)
    ensures
        r is Some <==> first_occ(s@, pat@) is Some,
        r matches Some(p) ==> first_occ(s@, pat@) == Some(p as int),
{
    let n = s.unicode_len();
    let m = pat.unicode_len();
    if m > n {
        return None;
    }
    let mut i: usize = 0;
    while i <= n - m
        invariant
            m <= n,
            n == s@.len(),
            m == pat@.len(),
            i <= n - m + 1,
            first_occ(s@, pat@) == first_occ_from(s@, pat@, i as int),
        decreases n - m + 1 - i,
    {
        let mut j: usize = 0;
        let mut ok = true;
        while j < m && ok
            invariant
                m <= n,
                n == s@.len(),
                m == pat@.len(),
                i <= n - m,
                j <= m,
                ok ==> forall|k: int| 0 <= k < j ==> s@[i + k] == pat@[k],
                !ok ==> !occurs_at(s@, pat@, i as int),
                !ok ==> m > 0,
            decreases m - j, (if ok { 1int } else { 0int }),
        {
            if s.get_char(i + j) != pat.get_char(j) {
                proof {
                    if occurs_at(s@, pat@, i as int) {
                        assert(s@.subrange(i as int, i + m as int)[j as int] == pat@[j as int]);
                    }
                }
                ok = false;
            } else {
                j += 1;
            }
        }
        if ok {
            proof {
                assert(s@.subrange(i as int, i + m as int) =~= pat@);
                assert(occurs_at(s@, pat@, i as int));
            }
            return Some(i);
        }
        proof {
            assert(first_occ_from(s@, pat@, i as int) == first_occ_from(s@, pat@, i + 1));
        }
        i += 1;
    }
    proof {
        assert(first_occ_from(s@, pat@, i as int) is None);
    }
    None
}

/// A decimal digit.
pub open spec fn is_digit(c: char) -> bool {
    48 <= c as u32 && c as u32 <= 57
}

/// The numeric value of a decimal digit.
pub open spec fn digit_val(c: char) -> nat
    recommends
        is_digit(c),
{
    (c as u32 - 48) as nat
}

/// The value of the leading digit run of `s` from index `i`, folded onto
/// the accumulator `acc`; it stops at the first non-digit.
pub open spec fn first_number_rec(s: Seq<char>, i: int, acc: nat) -> nat
    decreases s.len() - i + 1,
{
    if i < 0 || i >= s.len() || !is_digit(s[i]) {
        acc
    } else {
        first_number_rec(s, i + 1, acc * 10 + digit_val(s[i]))
    }
}

/// The value of the leading run of decimal digits of `s` (zero when `s`
/// does not start with a digit).
pub open spec fn first_number(s: Seq<char>) -> nat {
    first_number_rec(s, 0, 0)
}

/// `first_number`, reduced into a 32-bit counter: the leading digit run
/// is folded with the accumulator kept modulo 2^32 at every step, which
/// equals the full value modulo 2^32.
pub fn get_first_number(s: &str) -> (r: u32)
    ensures
        r as nat == first_number(s@) % 0x1_0000_0000,
{
    let n = s.unicode_len();
    let mut value: u32 = 0;
    let ghost mut acc: nat = 0;
    let mut i: usize = 0;
    while i < n
        invariant
            n == s@.len(),
            i <= n,
            value as nat == acc % 0x1_0000_0000,
            first_number(s@) == first_number_rec(s@, i as int, acc),
        decreases n - i,
    {
        let c = s.get_char(i);
        let u = c as u32;
        if 48 <= u && u <= 57 {
            let d = u - 48;
            let wide: u64 = (value as u64) * 10 + (d as u64);
            let next: u64 = wide % 0x1_0000_0000;
            proof {
                lemma_mod_fold_step(acc, d as nat);
                acc = acc * 10 + d as nat;
            }
            value = next as u32;
            i += 1;
        } else {
            return value;
        }
    }
    value
}

/// Folding one digit onto an accumulator kept modulo 2^32 agrees with
/// folding it onto the full accumulator and reducing afterwards.
proof fn lemma_mod_fold_step(acc: nat, d: nat)
    requires
        d < 10,
    ensures
        ((acc % 0x1_0000_0000) * 10 + d) % 0x1_0000_0000 == (acc * 10 + d) % 0x1_0000_0000,
{
    let m = 0x1_0000_0000 as int;
    let a = acc as int;
    let di = d as int;
    lemma_small_mod(d, 0x1_0000_0000);
    lemma_mul_mod_noop_left(a, 10, m);
    lemma_add_mod_noop(a * 10, di, m);
    lemma_add_mod_noop((a % m) * 10, di, m);
    assert(((a % m) * 10 % m + di % m) % m == ((a % m) * 10 + di) % m);
    assert((a * 10 % m + di % m) % m == (a * 10 + di) % m);
}

} // verus!
