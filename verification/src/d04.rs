//! Day 4: counting password candidates whose digits never decrease and
//! contain a repeated pair.
use vstd::prelude::*;

verus! {

/// The decimal digits of `n`, lowest place first.
pub open spec fn spec_digits(n: int) -> Seq<u8>
    decreases n,
{
    if n < 10 {
        seq![n as u8]
    } else {
        seq![(n % 10) as u8] + spec_digits(n / 10)
    }
}

/// Lowest-first digits never increase: reading the number left to right,
/// digits never decrease.
pub open spec fn nonincreasing(s: Seq<u8>) -> bool {
    forall|i: int| 0 <= i < s.len() - 1 ==> #[trigger] s[i] >= s[i + 1]
}

/// Some digit is immediately repeated.
pub open spec fn has_adjacent(s: Seq<u8>) -> bool {
    exists|i: int| 0 <= i < s.len() - 1 && #[trigger] s[i] == s[i + 1]
}

/// How many adjacent pairs of the digit `v` the sequence holds.
pub open spec fn pair_count(s: Seq<u8>, v: u8) -> int
    decreases s.len(),
{
    if s.len() < 2 {
        0
    } else {
        pair_count(s.drop_last(), v) + (if s[s.len() - 2] == s[s.len() - 1] && s.last() == v {
            1int
        } else {
            0int
        })
    }
}

pub open spec fn good_a(n: int) -> bool {
    nonincreasing(spec_digits(n)) && has_adjacent(spec_digits(n))
}

pub open spec fn good_b(n: int) -> bool {
    nonincreasing(spec_digits(n)) && exists|v: u8| pair_count(spec_digits(n), v) == 1
}

/// The decimal digits of `n`, lowest place first.
pub fn iter_digits(n: u32) -> (r: Vec<u8>)
    ensures
        r@ == spec_digits(n as int),
        r@.len() >= 1,
{
    let mut out: Vec<u8> = Vec::new();
    let mut rem = n;
    while rem >= 10
        invariant
            spec_digits(n as int) == out@ + spec_digits(rem as int),
        decreases rem,
    {
        out.push((rem % 10) as u8);
        rem = rem / 10;
        proof {
            assert(spec_digits(n as int) =~= out@ + spec_digits(rem as int));
        }
    }
    out.push(rem as u8);
    proof {
        assert(spec_digits(rem as int) =~= seq![rem as u8]);
        assert(out@ =~= spec_digits(n as int));
    }
    out
}

/// Part-one validity: digits never decrease and one is repeated.
pub fn valid_a(pw: u32) -> (r: bool)
    ensures
        r == good_a(pw as int),
{
    let ds = iter_digits(pw);
    let mut mono = true;
    let mut adj = false;
    let mut i: usize = 1;
    while i < ds.len()
        invariant
            1 <= i <= ds@.len() || ds@.len() == 0,
            ds@ == spec_digits(pw as int),
            mono == forall|j: int| 0 <= j < i - 1 ==> #[trigger] ds@[j] >= ds@[j + 1],
            adj == exists|j: int| 0 <= j < i - 1 && #[trigger] ds@[j] == ds@[j + 1],
        decreases ds.len() - i,
    {
        if ds[i - 1] < ds[i] {
            mono = false;
        }
        if ds[i - 1] == ds[i] {
            adj = true;
        }
        i = i + 1;
    }
    mono && adj
}

/// Part-two validity: digits never decrease and some digit forms exactly
/// one adjacent pair.
pub fn valid_b(pw: u32) -> (r: bool)
    ensures
        r == good_b(pw as int),
{
    let ds = iter_digits(pw);
    let mut mono = true;
    let mut i: usize = 1;
    while i < ds.len()
        invariant
            1 <= i <= ds@.len() || ds@.len() == 0,
            ds@ == spec_digits(pw as int),
            mono == forall|j: int| 0 <= j < i - 1 ==> #[trigger] ds@[j] >= ds@[j + 1],
        decreases ds.len() - i,
    {
        if ds[i - 1] < ds[i] {
            mono = false;
        }
        i = i + 1;
    }
    if !mono {
        return false;
    }
    let mut v: u8 = 0;
    loop
        invariant
            v <= 10,
            ds@ == spec_digits(pw as int),
            mono,
            mono == nonincreasing(ds@),
            forall|w: u8| w < v ==> pair_count(ds@, w) != 1,
        decreases 10 - v,
    {
        if v == 10 {
            proof {
                lemma_spec_digits_bounded(pw as int);
                assert forall|w: u8| pair_count(ds@, w) != 1 by {
                    assert(w < 10 || w >= 10);
                    if w >= 10 {
                        lemma_pair_count_large(ds@, w);
                    }
                }
            }
            return false;
        }
        let mut cnt: u64 = 0;
        let mut i: usize = 1;
        while i < ds.len()
            invariant
                1 <= i <= ds@.len() || ds@.len() == 0,
                ds@ == spec_digits(pw as int),
                cnt == pair_count(ds@.take(i as int), v),
                cnt <= i,
            decreases ds.len() - i,
        {
            proof {
                assert(ds@.take(i + 1).drop_last() =~= ds@.take(i as int));
            }
            if ds[i - 1] == ds[i] && ds[i] == v {
                cnt = cnt + 1;
            }
            i = i + 1;
        }
        proof {
            assert(ds@.take(ds@.len() as int) =~= ds@);
        }
        if cnt == 1 {
            return true;
        }
        v = v + 1;
    }
}

/// Digits are at most 9, so larger values never pair.
proof fn lemma_pair_count_large(s: Seq<u8>, v: u8)
    requires
        forall|i: int| 0 <= i < s.len() ==> s[i] <= 9,
        v >= 10,
    ensures
        pair_count(s, v) == 0,
    decreases s.len(),
{
    if s.len() >= 2 {
        lemma_pair_count_large(s.drop_last(), v);
    }
}

/// Digits of a number are decimal digits.
proof fn lemma_spec_digits_bounded(n: int)
    requires
        n >= 0,
    ensures
        forall|i: int| 0 <= i < spec_digits(n).len() ==> spec_digits(n)[i] <= 9,
    decreases n,
{
    if n >= 10 {
        lemma_spec_digits_bounded(n / 10);
        assert forall|i: int| 0 <= i < spec_digits(n).len() implies spec_digits(n)[i] <= 9 by {
            if i > 0 {
                assert(spec_digits(n)[i] == spec_digits(n / 10)[i - 1]);
            }
        }
    }
}

/// How many numbers in `[lo, hi]` satisfy the part-one rule.
pub open spec fn count_a(lo: int, hi: int) -> int
    decreases hi - lo + 1,
{
    if lo > hi {
        0
    } else {
        count_a(lo, hi - 1) + (if good_a(hi) {
            1int
        } else {
            0int
        })
    }
}

/// How many numbers in `[lo, hi]` satisfy the part-two rule.
pub open spec fn count_b(lo: int, hi: int) -> int
    decreases hi - lo + 1,
{
    if lo > hi {
        0
    } else {
        count_b(lo, hi - 1) + (if good_b(hi) {
            1int
        } else {
            0int
        })
    }
}

/// Part one: candidates in the range with nondecreasing digits and a pair.
pub fn d04a(lo: u32, hi: u32) -> (r: u64)
    requires
        lo <= hi,
    ensures
        r == count_a(lo as int, hi as int),
{
    let mut cnt: u64 = 0;
    let mut pw = lo;
    while pw < hi
        invariant
            lo <= pw <= hi,
            cnt == count_a(lo as int, pw - 1),
            cnt <= pw - lo,
        decreases hi - pw,
    {
        if valid_a(pw) {
            cnt = cnt + 1;
        }
        pw = pw + 1;
    }
    if valid_a(pw) {
        cnt = cnt + 1;
    }
    cnt
}

/// Part two: candidates whose repeated digit forms exactly one pair.
pub fn d04b(lo: u32, hi: u32) -> (r: u64)
    requires
        lo <= hi,
    ensures
        r == count_b(lo as int, hi as int),
{
    let mut cnt: u64 = 0;
    let mut pw = lo;
    while pw < hi
        invariant
            lo <= pw <= hi,
            cnt == count_b(lo as int, pw - 1),
            cnt <= pw - lo,
        decreases hi - pw,
    {
        if valid_b(pw) {
            cnt = cnt + 1;
        }
        pw = pw + 1;
    }
    if valid_b(pw) {
        cnt = cnt + 1;
    }
    cnt
}

} // verus!
