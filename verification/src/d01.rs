//! Day 1: fuel required to launch modules of given masses.
use crate::parse::{list_ok, list_values, parse_sep_list, ParseError};
use vstd::prelude::*;
use vstd::string::StringSliceAdditionalSpecFns;

verus! {

/// All line-separated tokens are well-formed and fit a 32-bit mass.
pub open spec fn masses_ok(s: Seq<u8>) -> bool {
    &&& list_ok(s, 10, true)
    &&& forall|k: int|
        0 <= k < list_values(s, 10, true).len() ==> 0 <= #[trigger] list_values(s, 10, true)[k]
            <= i32::MAX
}

/// Parse newline-separated module masses; blank lines are passed over.
pub fn parse_input(s: &str) -> (r: Result<Vec<i32>, ParseError>)
    requires
        s.spec_bytes().len() <= usize::MAX - 8,
    ensures
        match r {
            Ok(out) => masses_ok(s.spec_bytes()) && out@.map_values(|m: i32| m as i64)
                == list_values(s.spec_bytes(), 10, true),
            Err(_) => !masses_ok(s.spec_bytes()),
        },
{
    let vals = match parse_sep_list(s.as_bytes(), 10, true) {
        Ok(v) => v,
        Err(e) => {
            return Err(e);
        },
    };
    let mut out: Vec<i32> = Vec::new();
    let mut k: usize = 0;
    while k < vals.len()
        invariant
            k <= vals.len(),
            vals@ == list_values(s.spec_bytes(), 10, true),
            out@.len() == k,
            forall|j: int|
                0 <= j < k ==> out@[j] as i64 == vals@[j] && 0 <= #[trigger] vals@[j] <= i32::MAX,
        decreases vals.len() - k,
    {
        let v = vals[k];
        if v < 0 || v > i32::MAX as i64 {
            return Err(ParseError);
        }
        out.push(v as i32);
        k = k + 1;
    }
    proof {
        let mapped = out@.map_values(|m: i32| m as i64);
        assert(mapped.len() == vals@.len());
        assert forall|j: int| 0 <= j < mapped.len() implies mapped[j] == vals@[j] by {
            assert(out@[j] as i64 == vals@[j]);
        }
        assert(mapped =~= vals@);
    }
    Ok(out)
}

/// Fuel to lift a mass: a third of it, rounded down, less two.
pub fn fuel_required(mass: i32) -> (r: i32)
    requires
        mass >= 0,
    ensures
        r == mass / 3 - 2,
{
    ((mass as u32) / 3) as i32 - 2
}

/// Total of the fuel chain from a first fuel load `f`: each load needs fuel
/// of its own until the requirement drops to zero or below.
pub open spec fn chain_fuel(f: int) -> int
    decreases f,
{
    if f <= 0 {
        0
    } else if f / 3 - 2 <= 0 {
        f
    } else {
        f + chain_fuel(f / 3 - 2)
    }
}

/// The chain never exceeds twice its first load.
pub proof fn lemma_chain_fuel_bounds(f: int)
    ensures
        0 <= chain_fuel(f),
        f >= 0 ==> chain_fuel(f) <= 2 * f,
    decreases f,
{
    if f > 0 && f / 3 - 2 > 0 {
        lemma_chain_fuel_bounds(f / 3 - 2);
    }
}

/// Sum of the per-module fuel requirements.
pub open spec fn sum_fuel(ms: Seq<i32>) -> int
    decreases ms.len(),
{
    if ms.len() == 0 {
        0
    } else {
        sum_fuel(ms.drop_last()) + (ms.last() / 3 - 2)
    }
}

/// Sum of the per-module fuel chains.
pub open spec fn sum_chain(ms: Seq<i32>) -> int
    decreases ms.len(),
{
    if ms.len() == 0 {
        0
    } else {
        sum_chain(ms.drop_last()) + chain_fuel(ms.last() / 3 - 2)
    }
}

proof fn lemma_sum_fuel_bounds(ms: Seq<i32>)
    requires
        forall|k: int| 0 <= k < ms.len() ==> #[trigger] ms[k] >= 0,
    ensures
        -2 * ms.len() <= sum_fuel(ms) <= ms.len() * 0x80000000,
        0 <= sum_chain(ms) <= ms.len() * 0x80000000,
    decreases ms.len(),
{
    if ms.len() > 0 {
        assert(forall|k: int| 0 <= k < ms.drop_last().len() ==> #[trigger] ms.drop_last()[k] >= 0);
        lemma_sum_fuel_bounds(ms.drop_last());
        lemma_chain_fuel_bounds(ms.last() / 3 - 2);
    }
}

/// Part one: total fuel for all modules, by the simple rule.
pub fn d01a(masses: &Vec<i32>) -> (r: i64)
    requires
        forall|k: int| 0 <= k < masses@.len() ==> #[trigger] masses@[k] >= 0,
        masses@.len() <= 0x7fffffff,
    ensures
        r == sum_fuel(masses@),
{
    let mut sum: i64 = 0;
    let mut k: usize = 0;
    while k < masses.len()
        invariant
            k <= masses.len(),
            masses@.len() <= 0x7fffffff,
            forall|j: int| 0 <= j < masses@.len() ==> #[trigger] masses@[j] >= 0,
            sum == sum_fuel(masses@.take(k as int)),
            -2 * k <= sum <= k * 0x80000000,
        decreases masses.len() - k,
    {
        proof {
            assert(masses@.take(k + 1).drop_last() =~= masses@.take(k as int));
            lemma_sum_fuel_bounds(masses@.take(k + 1));
        }
        sum = sum + fuel_required(masses[k]) as i64;
        k = k + 1;
    }
    proof {
        assert(masses@.take(masses@.len() as int) =~= masses@);
    }
    sum
}

/// Part two: total fuel for all modules, counting the fuel needed to carry
/// the fuel itself.
pub fn d01b(masses: &Vec<i32>) -> (r: i64)
    requires
        forall|k: int| 0 <= k < masses@.len() ==> #[trigger] masses@[k] >= 0,
        masses@.len() <= 0x7fffffff,
    ensures
        r == sum_chain(masses@),
{
    let mut sum: i64 = 0;
    let mut k: usize = 0;
    while k < masses.len()
        invariant
            k <= masses.len(),
            masses@.len() <= 0x7fffffff,
            forall|j: int| 0 <= j < masses@.len() ==> #[trigger] masses@[j] >= 0,
            sum == sum_chain(masses@.take(k as int)),
            0 <= sum <= k * 0x80000000,
        decreases masses.len() - k,
    {
        let mass = masses[k];
        let mut total: i64 = 0;
        let mut m: i32 = fuel_required(mass);
        proof {
            lemma_chain_fuel_bounds(m as int);
        }
        while m > 0
            invariant
                total + chain_fuel(m as int) == chain_fuel(mass / 3 - 2),
                0 <= total + chain_fuel(m as int) <= 0x80000000,
                0 <= total,
                chain_fuel(m as int) >= 0,
                mass >= 0,
            decreases m,
        {
            proof {
                lemma_chain_fuel_bounds(m / 3 - 2);
            }
            total = total + m as i64;
            let f = fuel_required(m);
            m = if f > 0 {
                f
            } else {
                0
            };
        }
        proof {
            assert(masses@.take(k + 1).drop_last() =~= masses@.take(k as int));
            lemma_sum_fuel_bounds(masses@.take(k + 1));
        }
        sum = sum + total;
        k = k + 1;
    }
    proof {
        assert(masses@.take(masses@.len() as int) =~= masses@);
    }
    sum
}

} // verus!
