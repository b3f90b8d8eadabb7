//! Day 16: the repeated signal transform, with the plain per-position rule
//! and the suffix-sum shortcut for offsets in the back half.
use crate::parse::is_digit;
use vstd::prelude::*;
use vstd::string::StringSliceAdditionalSpecFns;

verus! {

/// Every element is a decimal digit value.
pub open spec fn all_digit_vals(s: Seq<i32>) -> bool {
    forall|i: int| 0 <= i < s.len() ==> 0 <= #[trigger] s[i] <= 9
}

/// The repeating coefficient pattern: +1, 0, -1, 0 per chunk index.
pub open spec fn fft_coeff(j: int) -> int {
    if j % 4 == 0 {
        1
    } else if j % 4 == 2 {
        -1
    } else {
        0
    }
}

/// The signed sum, from position `p` on, of elements weighted by the
/// coefficient of their chunk of size `c` counted from position `i`.
pub open spec fn fft_sum(s: Seq<i32>, i: int, c: int, p: int) -> int
    decreases s.len() - p,
    when 0 <= p && c >= 1 && i <= p
{
    if p >= s.len() {
        0
    } else {
        fft_coeff((p - i) / c) * s[p] + fft_sum(s, i, c, p + 1)
    }
}

/// One plain transform step at position `i`: the weighted sum's last digit.
pub open spec fn fft_at(s: Seq<i32>, offset: int, i: int) -> i32 {
    let t = fft_sum(s, i, offset + i + 1, i);
    ((if t < 0 {
        -t
    } else {
        t
    }) % 10) as i32
}

/// The plain transform of the whole signal.
pub open spec fn fft_all(s: Seq<i32>, offset: int) -> Seq<i32> {
    Seq::new(s.len(), |i: int| fft_at(s, offset, i))
}

/// The sum of the suffix from position `i` on.
pub open spec fn suffix_sum(s: Seq<i32>, i: int) -> int
    decreases s.len() - i,
    when 0 <= i
{
    if i >= s.len() {
        0
    } else {
        s[i] + suffix_sum(s, i + 1)
    }
}

/// One shortcut step at position `i`: the suffix sum's last digit.
pub open spec fn suffix_at(s: Seq<i32>, i: int) -> i32 {
    let t = suffix_sum(s, i);
    ((if t < 0 {
        -t
    } else {
        t
    }) % 10) as i32
}

pub open spec fn suffix_all(s: Seq<i32>) -> Seq<i32> {
    Seq::new(s.len(), |i: int| suffix_at(s, i))
}

/// Sums of digit suffixes stay small.
proof fn lemma_suffix_sum_bounds(s: Seq<i32>, i: int)
    requires
        all_digit_vals(s),
        0 <= i,
    ensures
        0 <= suffix_sum(s, i),
        i <= s.len() ==> suffix_sum(s, i) <= 9 * (s.len() - i),
        i >= s.len() ==> suffix_sum(s, i) == 0,
    decreases s.len() - i,
{
    if i < s.len() {
        lemma_suffix_sum_bounds(s, i + 1);
    }
}

/// Weighted sums of digits are bounded by nine per element.
proof fn lemma_fft_sum_bounds(s: Seq<i32>, i: int, c: int, p: int)
    requires
        all_digit_vals(s),
        0 <= p,
        c >= 1,
        i <= p,
    ensures
        p <= s.len() ==> -9 * (s.len() - p) <= fft_sum(s, i, c, p) <= 9 * (s.len() - p),
        p >= s.len() ==> fft_sum(s, i, c, p) == 0,
    decreases s.len() - p,
{
    if p < s.len() {
        lemma_fft_sum_bounds(s, i, c, p + 1);
    }
}

/// The shortcut transform, in place: every position becomes the last digit
/// of the sum of the suffix starting there.
pub fn optimised_transform(signal: &mut Vec<i32>)
    requires
        all_digit_vals(old(signal)@),
        old(signal)@.len() <= 0x10000000,
    ensures
        final(signal)@ == suffix_all(old(signal)@),
        all_digit_vals(final(signal)@),
{
    let ghost orig = signal@;
    let len = signal.len();
    let mut sum: i64 = 0;
    let mut i: usize = len;
    while i > 0
        invariant
            0 <= i <= len,
            len == orig.len(),
            len <= 0x10000000,
            all_digit_vals(orig),
            signal@.len() == len,
            forall|p: int| 0 <= p < i ==> signal@[p] == orig[p],
            forall|p: int| i <= p < len ==> signal@[p] == suffix_at(orig, p),
            sum == suffix_sum(orig, i as int),
            0 <= sum <= 9 * (len - i),
        decreases i,
    {
        proof {
            lemma_suffix_sum_bounds(orig, i - 1);
        }
        i = i - 1;
        sum = sum + signal[i] as i64;
        signal.set(i, (sum % 10) as i32);
    }
    proof {
        assert(signal@ =~= suffix_all(orig));
    }
}

/// The plain transform, in place: every position becomes the last digit of
/// the absolute weighted sum of everything at or after it, the weights
/// cycling +1, 0, -1, 0 over chunks of size `offset + i + 1`.
pub fn transform_signal(signal: &mut Vec<i32>, offset: usize)
    requires
        all_digit_vals(old(signal)@),
        old(signal)@.len() <= 0x10000000,
        offset <= 0x10000000,
    ensures
        final(signal)@ == fft_all(old(signal)@, offset as int),
        all_digit_vals(final(signal)@),
{
    let ghost orig = signal@;
    let len = signal.len();
    let mut i: usize = 0;
    while i < len
        invariant
            0 <= i <= len,
            len == orig.len(),
            len <= 0x10000000,
            offset <= 0x10000000,
            all_digit_vals(orig),
            signal@.len() == len,
            forall|p: int| i <= p < len ==> signal@[p] == orig[p],
            forall|p: int| 0 <= p < i ==> signal@[p] == fft_at(orig, offset as int, p),
        decreases len - i,
    {
        let c = offset + i + 1;
        let mut sum: i64 = 0;
        let mut p: usize = i;
        while p < len
            invariant
                i <= p <= len,
                len == orig.len(),
                len <= 0x10000000,
                c == offset + i + 1,
                c >= 1,
                all_digit_vals(orig),
                signal@.len() == len,
                forall|q: int| i <= q < len ==> signal@[q] == orig[q],
                sum + fft_sum(orig, i as int, c as int, p as int) == fft_sum(
                    orig,
                    i as int,
                    c as int,
                    i as int,
                ),
                -9 * ((p - i) as int) <= sum <= 9 * ((p - i) as int),
            decreases len - p,
        {
            proof {
                lemma_fft_sum_bounds(orig, i as int, c as int, p as int);
                lemma_fft_sum_bounds(orig, i as int, c as int, p + 1);
                lemma_fft_sum_bounds(orig, i as int, c as int, i as int);
            }
            let j = (p - i) / c;
            let m = j % 4;
            if m == 0 {
                sum = sum + signal[p] as i64;
            } else if m == 2 {
                sum = sum - signal[p] as i64;
            }
            p = p + 1;
        }
        proof {
            lemma_fft_sum_bounds(orig, i as int, c as int, len as int);
        }
        let a = if sum < 0 {
            -sum
        } else {
            sum
        };
        signal.set(i, (a % 10) as i32);
        i = i + 1;
    }
    proof {
        assert(signal@ =~= fft_all(orig, offset as int));
    }
}

/// Powers of ten.
pub open spec fn p10(k: nat) -> int
    decreases k,
{
    if k == 0 {
        1
    } else {
        10 * p10((k - 1) as nat)
    }
}

/// The number the first `k` digit values spell in decimal.
pub open spec fn leading_value(s: Seq<i32>, k: int) -> int
    decreases k,
    when k >= 0
{
    if k <= 0 {
        0
    } else {
        leading_value(s, k - 1) * 10 + s[k - 1]
    }
}

proof fn lemma_leading_value_bounds(s: Seq<i32>, k: int)
    requires
        all_digit_vals(s),
        0 <= k <= s.len(),
    ensures
        0 <= leading_value(s, k) < p10(k as nat),
    decreases k,
{
    if k > 0 {
        lemma_leading_value_bounds(s, k - 1);
    }
}

proof fn lemma_p10_pos(k: nat)
    ensures
        p10(k) >= 1,
    decreases k,
{
    if k > 0 {
        lemma_p10_pos((k - 1) as nat);
    }
}

proof fn lemma_p10_mono(a: nat, b: nat)
    requires
        a <= b,
    ensures
        1 <= p10(a) <= p10(b),
    decreases b,
{
    lemma_p10_pos(a);
    if a < b {
        lemma_p10_mono(a, (b - 1) as nat);
        lemma_p10_pos((b - 1) as nat);
    }
}

/// The message offset: the number spelled by the first `digits` elements.
pub fn read_offset(signal: &Vec<i32>, digits: usize) -> (r: u64)
    requires
        all_digit_vals(signal@),
        digits <= signal@.len(),
        digits <= 15,
    ensures
        r == leading_value(signal@, digits as int),
{
    let mut acc: u64 = 0;
    let mut i: usize = 0;
    while i < digits
        invariant
            0 <= i <= digits,
            digits <= signal@.len(),
            digits <= 15,
            all_digit_vals(signal@),
            acc == leading_value(signal@, i as int),
            acc < p10(i as nat),
        decreases digits - i,
    {
        proof {
            lemma_leading_value_bounds(signal@, i + 1);
            lemma_p10_mono((i + 1) as nat, 15);
            reveal_with_fuel(p10, 16);
            assert(p10(15) == 1000000000000000);
        }
        acc = acc * 10 + signal[i] as u64;
        i = i + 1;
    }
    acc
}

/// `signal` repeated `repeat` times with the first `offset` elements cut.
pub fn repeat_with_offset(signal: &Vec<i32>, repeat: usize, offset: usize) -> (r: Vec<i32>)
    requires
        repeat == 0 || signal@.len() >= 1,
        signal@.len() * repeat <= 0x10000000,
        offset <= signal@.len() * repeat,
    ensures
        r@.len() == signal@.len() * repeat - offset,
        forall|i: int|
            0 <= i < r@.len() ==> #[trigger] r@[i] == signal@[(offset + i) % (
            signal@.len() as int)],
{
    let mut out: Vec<i32> = Vec::new();
    if repeat == 0 {
        return out;
    }
    let total = signal.len() * repeat - offset;
    let mut k: usize = 0;
    while k < total
        invariant
            signal@.len() >= 1,
            out@.len() == k,
            k <= total,
            total == signal@.len() * repeat - offset,
            offset + total <= 0x10000000,
            forall|i: int|
                0 <= i < k ==> #[trigger] out@[i] == signal@[(offset + i) % (
                signal@.len() as int)],
        decreases total - k,
    {
        let idx = (offset + k) % signal.len();
        out.push(signal[idx]);
        k = k + 1;
    }
    out
}

/// `cycles` rounds of the transform chosen for this offset: the shortcut
/// when the offset reaches the back half, the plain rule otherwise.  For
/// back-half offsets every chunk coefficient from the offset onward is one,
/// which collapses the plain rule to the suffix sums; that collapse is
/// taken as the definition here and is not separately proved equal to
/// `fft_all` over the repeated signal.
pub open spec fn iter16(s: Seq<i32>, offset: int, cycles: nat) -> Seq<i32>
    decreases cycles,
{
    if cycles == 0 {
        s
    } else {
        let prev = iter16(s, offset, (cycles - 1) as nat);
        if offset >= (offset + s.len()) / 2 {
            suffix_all(prev)
        } else {
            fft_all(prev, offset)
        }
    }
}

/// Run `cycles` rounds of the transform over `signal` repeated
/// `repeat` times, starting past the offset read from the signal's first
/// `offset_digits` elements.  Nothing is produced when that offset lies
/// beyond the repeated signal.
pub fn apply_transform(signal: &Vec<i32>, cycles: u64, repeat: usize, offset_digits: usize) -> (r:
    Option<Vec<i32>>)
    requires
        all_digit_vals(signal@),
        signal@.len() >= 1,
        offset_digits <= signal@.len(),
        offset_digits <= 15,
        signal@.len() * repeat <= 0x10000000,
    ensures
        match r {
            Some(out) => out@ == iter16(
                Seq::new(
                    (signal@.len() * repeat - leading_value(signal@, offset_digits as int)) as nat,
                    |i: int|
                        signal@[(leading_value(signal@, offset_digits as int) + i) % (
                        signal@.len() as int)],
                ),
                leading_value(signal@, offset_digits as int),
                cycles as nat,
            ),
            None => leading_value(signal@, offset_digits as int) > signal@.len() * repeat,
        },
{
    let offset64 = read_offset(signal, offset_digits);
    if offset64 > (signal.len() * repeat) as u64 {
        return None;
    }
    let offset = offset64 as usize;
    let mut data = repeat_with_offset(signal, repeat, offset);
    let ghost start = Seq::new(
        (signal@.len() * repeat - offset) as nat,
        |i: int| signal@[(offset + i) % (signal@.len() as int)],
    );
    proof {
        assert(data@ =~= start);
        assert forall|i: int| 0 <= i < data@.len() implies 0 <= #[trigger] data@[i] <= 9 by {
            assert(data@[i] == signal@[(offset + i) % (signal@.len() as int)]);
        }
    }
    let use_suffix = offset >= (offset + data.len()) / 2;
    let mut cycle: u64 = 0;
    while cycle < cycles
        invariant
            cycle <= cycles,
            all_digit_vals(data@),
            data@.len() == start.len(),
            start.len() <= 0x10000000,
            offset <= 0x10000000,
            use_suffix == (offset >= (offset + start.len()) / 2),
            data@ == iter16(start, offset as int, cycle as nat),
        decreases cycles - cycle,
    {
        if use_suffix {
            optimised_transform(&mut data);
        } else {
            transform_signal(&mut data, offset);
        }
        cycle = cycle + 1;
    }
    Some(data)
}

/// Parse a string of digit characters into their values.
pub fn parse_signal(s: &str) -> (r: Option<Vec<i32>>)
    ensures
        match r {
            Some(out) => out@.len() == s.spec_bytes().len() && all_digit_vals(out@) && forall|
                i: int,
            |
                0 <= i < out@.len() ==> #[trigger] out@[i] == s.spec_bytes()[i] - 48,
            None => exists|i: int|
                0 <= i < s.spec_bytes().len() && !is_digit(#[trigger] s.spec_bytes()[i]),
        },
{
    let b = s.as_bytes();
    let mut out: Vec<i32> = Vec::new();
    let mut i: usize = 0;
    while i < b.len()
        invariant
            0 <= i <= b@.len(),
            b@ == s.spec_bytes(),
            out@.len() == i,
            forall|j: int| 0 <= j < i ==> #[trigger] out@[j] == b@[j] - 48 && 0 <= out@[j] <= 9,
        decreases b@.len() - i,
    {
        let c = b[i];
        if c < 48 || c > 57 {
            return None;
        }
        out.push((c - 48) as i32);
        i = i + 1;
    }
    Some(out)
}

/// The first eight elements after `cycles` plain rounds over the signal.
/// The digit values a drawing of decimal characters denotes.
pub open spec fn signal_of(b: Seq<u8>) -> Seq<i32> {
    Seq::new(b.len(), |i: int| (b[i] - 48) as i32)
}

/// Both transforms keep the signal's length through every round.
pub proof fn lemma_iter16_len(s: Seq<i32>, offset: int, cycles: nat)
    ensures
        iter16(s, offset, cycles).len() == s.len(),
    decreases cycles,
{
    if cycles > 0 {
        lemma_iter16_len(s, offset, (cycles - 1) as nat);
    }
}

pub fn part_a(s: &str, cycles: u64) -> (r: Option<Vec<i32>>)
    ensures
        r is Some ==> r.unwrap()@.len() <= 8,
        r matches Some(out) ==> ({
            let sig = signal_of(s.spec_bytes());
            out@ == iter16(sig, 0, cycles as nat).take(
                if sig.len() < 8 {
                    sig.len() as int
                } else {
                    8
                },
            )
        }),
{
    let signal = parse_signal(s)?;
    if signal.len() > 0x10000000 || signal.len() == 0 {
        return None;
    }
    let ghost sig = signal_of(s.spec_bytes());
    proof {
        assert(signal@ =~= sig);
    }
    let data = apply_transform(&signal, cycles, 1, 0)?;
    proof {
        // With no repetition and no offset the seeded sequence is the
        // signal itself.
        let start = Seq::new(
            (sig.len() * 1 - leading_value(sig, 0)) as nat,
            |i: int| sig[(leading_value(sig, 0) + i) % (sig.len() as int)],
        );
        assert forall|i: int| 0 <= i < start.len() implies start[i] == sig[i] by {
            vstd::arithmetic::div_mod::lemma_small_mod(i as nat, sig.len());
        }
        assert(start =~= sig);
        lemma_iter16_len(sig, 0, cycles as nat);
    }
    let mut out: Vec<i32> = Vec::new();
    let mut i: usize = 0;
    while i < 8 && i < data.len()
        invariant
            out@.len() == i,
            i <= 8,
            i <= data@.len(),
            out@ == data@.take(i as int),
        decreases 8 - i,
    {
        out.push(data[i]);
        i = i + 1;
        proof {
            assert(out@ =~= data@.take(i as int));
        }
    }
    proof {
        assert(out@ =~= iter16(sig, 0, cycles as nat).take(
            if sig.len() < 8 {
                sig.len() as int
            } else {
                8
            },
        ));
    }
    Some(out)
}

/// The eight elements at the embedded offset after `cycles` rounds over the
/// signal repeated ten thousand times.
pub fn part_b(s: &str, cycles: u64) -> (r: Option<Vec<i32>>)
    ensures
        r is Some ==> r.unwrap()@.len() <= 8,
        r matches Some(out) ==> ({
            let sig = signal_of(s.spec_bytes());
            let off = leading_value(sig, 7);
            let start = Seq::new(
                (sig.len() * 10000 - off) as nat,
                |i: int| sig[(off + i) % (sig.len() as int)],
            );
            out@ == iter16(start, off, cycles as nat).take(
                if start.len() < 8 {
                    start.len() as int
                } else {
                    8
                },
            )
        }),
{
    let signal = parse_signal(s)?;
    if signal.len() > 0x10000000 / 10000 {
        return None;
    }
    if signal.len() < 7 {
        return None;
    }
    let ghost sig = signal_of(s.spec_bytes());
    proof {
        assert(signal@ =~= sig);
    }
    let data = apply_transform(&signal, cycles, 10000, 7)?;
    let ghost off = leading_value(sig, 7);
    let ghost start = Seq::new(
        (sig.len() * 10000 - off) as nat,
        |i: int| sig[(off + i) % (sig.len() as int)],
    );
    proof {
        lemma_iter16_len(start, off, cycles as nat);
    }
    let mut out: Vec<i32> = Vec::new();
    let mut i: usize = 0;
    while i < 8 && i < data.len()
        invariant
            out@.len() == i,
            i <= 8,
            i <= data@.len(),
            out@ == data@.take(i as int),
        decreases 8 - i,
    {
        out.push(data[i]);
        i = i + 1;
        proof {
            assert(out@ =~= data@.take(i as int));
        }
    }
    proof {
        assert(out@ =~= iter16(start, off, cycles as nat).take(
            if start.len() < 8 {
                start.len() as int
            } else {
                8
            },
        ));
    }
    Some(out)
}

} // verus!
