//! Day 7: amplifier chains.  Five machines run the same program; each is
//! started with a phase setting, then signals circulate through the chain
//! (once for part one, in a feedback loop for part two) until the last
//! amplifier halts.
use crate::intcode::{wf, Intcode, RunState};
use crate::solve::{SolveError, DEFAULT_BUDGET};
use itertools::Itertools;
use vstd::prelude::*;
use vstd::string::StringSliceAdditionalSpecFns;

verus! {

/// `p` is an ordering of the five consecutive phases starting at `lo`.
pub open spec fn is_phase_perm(p: Seq<i64>, lo: i64) -> bool {
    p.to_multiset() == Seq::new(5, |i: int| (lo + i) as i64).to_multiset()
}

/// Relies on itertools' `permutations`: over the five-element range starting
/// at `lo` it yields exactly the 5-element permutations, each once.
#[verifier::external_body]
fn phase_permutations(lo: i64) -> (r: Vec<Vec<i64>>)
    requires
        lo <= i64::MAX - 5,
    ensures
        forall|i: int| 0 <= i < r@.len() ==> is_phase_perm(#[trigger] r@[i]@, lo) && r@[i]@.len()
            == 5,
        forall|p: Seq<i64>|
            is_phase_perm(p, lo) && p.len() == 5 ==> exists|i: int|
                0 <= i < r@.len() && #[trigger] r@[i]@ == p,
        forall|i: int, j: int| 0 <= i < j < r@.len() ==> r@[i]@ != r@[j]@,
{
    (lo..lo + 5).permutations(5).collect()
}

/// Rounds of the feedback loop a chain is allowed before it is declared
/// runaway.
const MAX_ROUNDS: u64 = 1000000;

/// Drive the five-amplifier chain with the given phase settings until the
/// last amplifier halts, and return the signal it leaves behind.
pub fn run_amplifiers(text: &str, phase: &Vec<i64>) -> (r: Result<i64, SolveError>)
    requires
        text.spec_bytes().len() <= usize::MAX - 8,
        phase@.len() == 5,
    ensures
        !crate::parse::valid_program(text.spec_bytes()) ==> r == Result::<i64, SolveError>::Err(
            SolveError::Parse,
        ),
{
    let mut amplifiers: Vec<Intcode> = Vec::new();
    let mut i: usize = 0;
    while i < 5
        invariant
            amplifiers@.len() == i,
            i <= 5,
            phase@.len() == 5,
            text.spec_bytes().len() <= usize::MAX - 8,
            i > 0 ==> crate::parse::valid_program(text.spec_bytes()),
            forall|k: int| 0 <= k < i ==> wf(#[trigger] amplifiers@[k]@),
        decreases 5 - i,
    {
        let mut m = match Intcode::from_text(text) {
            Ok(m) => m,
            Err(_) => {
                return Err(SolveError::Parse);
            },
        };
        let ph: [i64; 1] = [phase[i]];
        match m.run(ph.as_slice(), DEFAULT_BUDGET) {
            Ok(RunState::OutOfSteps) => {
                return Err(SolveError::OutOfSteps);
            },
            Err(e) => {
                return Err(SolveError::Exec(e));
            },
            _ => {},
        }
        amplifiers.push(m);
        i = i + 1;
    }
    let mut signals: Vec<i64> = Vec::new();
    signals.push(0);
    let mut rounds: u64 = 0;
    while rounds < MAX_ROUNDS
        invariant
            amplifiers@.len() == 5,
            crate::parse::valid_program(text.spec_bytes()),
            forall|k: int| 0 <= k < 5 ==> wf(#[trigger] amplifiers@[k]@),
        decreases MAX_ROUNDS - rounds,
    {
        let mut i: usize = 0;
        while i < 5
            invariant
                i <= 5,
                amplifiers@.len() == 5,
                crate::parse::valid_program(text.spec_bytes()),
                forall|k: int| 0 <= k < 5 ==> wf(#[trigger] amplifiers@[k]@),
            decreases 5 - i,
        {
            let mut m = amplifiers.remove(i);
            match m.run(signals.as_slice(), DEFAULT_BUDGET) {
                Ok(RunState::OutOfSteps) => {
                    return Err(SolveError::OutOfSteps);
                },
                Err(e) => {
                    return Err(SolveError::Exec(e));
                },
                _ => {},
            }
            signals = m.drain();
            amplifiers.insert(i, m);
            i = i + 1;
        }
        let last = &amplifiers[4];
        if last.finished() {
            if signals.len() == 0 {
                return Err(SolveError::Protocol);
            }
            return Ok(signals[0]);
        }
        rounds = rounds + 1;
    }
    Err(SolveError::OutOfSteps)
}

/// The best signal over every ordering of the phases starting at `lo`.
fn best_signal(text: &str, lo: i64) -> (r: Result<i64, SolveError>)
    requires
        text.spec_bytes().len() <= usize::MAX - 8,
        lo <= i64::MAX - 5,
{
    let perms = phase_permutations(lo);
    let mut best: Option<i64> = None;
    let mut i: usize = 0;
    while i < perms.len()
        invariant
            text.spec_bytes().len() <= usize::MAX - 8,
            forall|k: int| 0 <= k < perms@.len() ==> #[trigger] perms@[k]@.len() == 5,
        decreases perms.len() - i,
    {
        let signal = run_amplifiers(text, &perms[i])?;
        best = match best {
            Some(b) => if signal > b {
                Some(signal)
            } else {
                Some(b)
            },
            None => Some(signal),
        };
        i = i + 1;
    }
    match best {
        Some(b) => Ok(b),
        None => Err(SolveError::Protocol),
    }
}

/// Part one: the best signal for a single pass with phases 0 to 4.
pub fn d07a(text: &str) -> (r: Result<i64, SolveError>)
    requires
        text.spec_bytes().len() <= usize::MAX - 8,
{
    best_signal(text, 0)
}

/// Part two: the best signal for the feedback loop with phases 5 to 9.
pub fn d07b(text: &str) -> (r: Result<i64, SolveError>)
    requires
        text.spec_bytes().len() <= usize::MAX - 8,
{
    best_signal(text, 5)
}

} // verus!
