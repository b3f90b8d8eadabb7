//! Day 5: the air-conditioner diagnostic, taking the machine program's last
//! output after a single input value.
use crate::intcode::{feed, run_spec, RunResult};
use crate::parse::{parsed_cells, valid_program};
use crate::solve::{boot, run_text_to_halt, SolveError, DEFAULT_BUDGET};
use vstd::prelude::*;
use vstd::string::StringSliceAdditionalSpecFns;

verus! {

/// Run the program with the single input `value` and return its last
/// output.  The outcomes partition the inputs: a run that halts within the
/// budget with output is owed its last value, and each error names its
/// exact cause.
fn run_intcode(text: &str, value: i64) -> (r: Result<i64, SolveError>)
    requires
        text.spec_bytes().len() <= usize::MAX - 8,
    ensures
        diagnostic_outcome(text.spec_bytes(), value, r),
{
    let inputs: [i64; 1] = [value];
    proof {
        assert(inputs@ =~= seq![value]);
    }
    let out = match run_text_to_halt(text, inputs.as_slice(), DEFAULT_BUDGET) {
        Ok(out) => out,
        Err(e) => {
            return Err(e);
        },
    };
    if out.len() == 0 {
        proof {
            let seed = feed(boot(parsed_cells(text.spec_bytes())), seq![value]);
            let n = choose|n: nat|
                n <= DEFAULT_BUDGET && (#[trigger] run_spec(seed, n)
                    matches RunResult::Finished(st) && st.output == out@);
            assert(n <= DEFAULT_BUDGET && (run_spec(seed, n) matches RunResult::Finished(st)
                && st.output.len() == 0));
        }
        return Err(SolveError::Protocol);
    }
    let v = out[out.len() - 1];
    proof {
        let seed = feed(boot(parsed_cells(text.spec_bytes())), seq![value]);
        let n = choose|n: nat|
            n <= DEFAULT_BUDGET && (#[trigger] run_spec(seed, n) matches RunResult::Finished(st)
                && st.output == out@);
        assert(n <= DEFAULT_BUDGET && (run_spec(seed, n) matches RunResult::Finished(st)
            && st.output.len() > 0 && v == st.output[st.output.len() - 1]));
    }
    Ok(v)
}

/// What running the diagnostic program with one input owes: the last
/// output of a halting run, or the exact reason none exists.
pub open spec fn diagnostic_outcome(bytes: Seq<u8>, value: i64, r: Result<i64, SolveError>) -> bool {
    let seed = feed(boot(parsed_cells(bytes)), seq![value]);
    match r {
        Ok(v) => valid_program(bytes) && exists|n: nat|
            n <= DEFAULT_BUDGET && (#[trigger] run_spec(seed, n) matches RunResult::Finished(st)
                && st.output.len() > 0 && v == st.output[st.output.len() - 1]),
        Err(SolveError::Parse) => !valid_program(bytes),
        Err(SolveError::Exec(e)) => valid_program(bytes) && exists|n: nat|
            n <= DEFAULT_BUDGET && (#[trigger] run_spec(seed, n) matches RunResult::Failed(e2, _)
                && e2 == e),
        Err(SolveError::OutOfSteps) => valid_program(bytes) && run_spec(
            seed,
            DEFAULT_BUDGET as nat,
        ) is Cont,
        Err(SolveError::Protocol) => valid_program(bytes) && exists|n: nat|
            n <= DEFAULT_BUDGET && (#[trigger] run_spec(seed, n) is Suspended || (run_spec(seed, n)
                matches RunResult::Finished(st) && st.output.len() == 0)),
    }
}

/// Part one: the diagnostic code for system id 1.
pub fn part_a(text: &str) -> (r: Result<i64, SolveError>)
    requires
        text.spec_bytes().len() <= usize::MAX - 8,
    ensures
        diagnostic_outcome(text.spec_bytes(), 1, r),
{
    run_intcode(text, 1)
}

/// Part two: the diagnostic code for system id 5.
pub fn part_b(text: &str) -> (r: Result<i64, SolveError>)
    requires
        text.spec_bytes().len() <= usize::MAX - 8,
    ensures
        diagnostic_outcome(text.spec_bytes(), 5, r),
{
    run_intcode(text, 5)
}

} // verus!
