//! Small verified string helpers: equality and substring tests over the
//! character view of a `&str`, and decimal formatting of integers, used to
//! build log messages and to classify remote status strings.

use vstd::prelude::*;

verus! {

/// The needle `p` occurs in `t` starting at position `i`.
pub open spec fn match_at(t: Seq<char>, p: Seq<char>, i: int) -> bool {
    0 <= i && i + p.len() <= t.len() && t.subrange(i, i + p.len() as int) == p
}

/// The needle `p` occurs somewhere in `t`.
pub open spec fn spec_contains(t: Seq<char>, p: Seq<char>) -> bool {
    exists|i: int| match_at(t, p, i)
}

/// Character-wise equality of two string slices.
pub fn str_eq(a: &str, b: &str) -> (r: bool)
    ensures
        r == (a@ == b@),
{
    let n = a.unicode_len();
    if n != b.unicode_len() {
        return false;
    }
    let mut i: usize = 0;
    while i < n
        invariant
            n == a@.len() == b@.len(),
            i <= n,
            forall|j: int| 0 <= j < i ==> a@[j] == b@[j],
        decreases n - i,
    {
        if a.get_char(i) != b.get_char(i) {
            return false;
        }
        i = i + 1;
    }
    proof {
        assert(a@ =~= b@);
    }
    true
}

/// Whether `p` occurs as a contiguous substring of `t`.
pub fn str_contains(t: &str, p: &str) -> (r: bool)
    ensures
        r == spec_contains(t@, p@),
{
    let tn = t.unicode_len();
    let pn = p.unicode_len();
    if pn > tn {
        proof {
            assert(forall|i: int| !match_at(t@, p@, i));
        }
        return false;
    }
    if pn == 0 {
        proof {
            assert(t@.subrange(0, 0) =~= p@);
            assert(match_at(t@, p@, 0));
        }
        return true;
    }
    let mut i: usize = 0;
    while i <= tn - pn
        invariant
            1 <= pn <= tn,
            tn == t@.len(),
            pn == p@.len(),
            i <= tn - pn + 1,
            forall|k: int| 0 <= k < i ==> !match_at(t@, p@, k),
        decreases tn - pn - i + 1,
    {
        let mut j: usize = 0;
        let mut hit = true;
        while hit && j < pn
            invariant
                pn <= tn,
                tn == t@.len(),
                pn == p@.len(),
                i + pn <= tn,
                j <= pn,
                hit ==> forall|m: int| 0 <= m < j ==> t@[i + m] == p@[m],
                !hit ==> !match_at(t@, p@, i as int),
            decreases pn - j + (if hit { 1int } else { 0int }),
        {
            if t.get_char(i + j) != p.get_char(j) {
                proof {
                    if match_at(t@, p@, i as int) {
                        assert(t@.subrange(i as int, i + pn as int)[j as int] == p@[j as int]);
                    }
                }
                hit = false;
            } else {
                j = j + 1;
            }
        }
        if hit {
            proof {
                assert(t@.subrange(i as int, i + pn as int) =~= p@);
                assert(match_at(t@, p@, i as int));
            }
            return true;
        }
        i = i + 1;
    }
    proof {
        assert(forall|k: int| match_at(t@, p@, k) ==> 0 <= k <= tn - pn);
    }
    false
}

/// The character for one decimal digit.
pub open spec fn digit_char(d: nat) -> char {
    if d == 0 {
        '0'
    } else if d == 1 {
        '1'
    } else if d == 2 {
        '2'
    } else if d == 3 {
        '3'
    } else if d == 4 {
        '4'
    } else if d == 5 {
        '5'
    } else if d == 6 {
        '6'
    } else if d == 7 {
        '7'
    } else if d == 8 {
        '8'
    } else {
        '9'
    }
}

/// The decimal representation of `n`, most significant digit first.
pub open spec fn spec_dec(n: nat) -> Seq<char>
    decreases n,
{
    if n < 10 {
        seq![digit_char(n)]
    } else {
        spec_dec(n / 10) + seq![digit_char(n % 10)]
    }
}

pub(crate) fn digit_str(d: u64) -> (r: &'static str)
    requires
        d < 10,
    ensures
        r@ =~= seq![digit_char(d as nat)],
{
    proof {
        reveal_strlit("0");
        reveal_strlit("1");
        reveal_strlit("2");
        reveal_strlit("3");
        reveal_strlit("4");
        reveal_strlit("5");
        reveal_strlit("6");
        reveal_strlit("7");
        reveal_strlit("8");
        reveal_strlit("9");
    }
    if d == 0 {
        "0"
    } else if d == 1 {
        "1"
    } else if d == 2 {
        "2"
    } else if d == 3 {
        "3"
    } else if d == 4 {
        "4"
    } else if d == 5 {
        "5"
    } else if d == 6 {
        "6"
    } else if d == 7 {
        "7"
    } else if d == 8 {
        "8"
    } else {
        "9"
    }
}

/// `n` written in decimal.
pub fn dec_str(n: u64) -> (r: String)
    ensures
        r@ == spec_dec(n as nat),
    decreases n,
{
    if n < 10 {
        digit_str(n).to_owned()
    } else {
        let mut s = dec_str(n / 10);
        s.append(digit_str(n % 10));
        proof {
            assert(s@ =~= spec_dec(n as nat));
        }
        s
    }
}

} // verus!
