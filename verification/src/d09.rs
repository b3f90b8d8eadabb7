//! Day 9: running a complete machine program in sensor-boost mode.
use crate::intcode::{feed, run_spec, RunResult};
use crate::parse::{parsed_cells, valid_program};
use crate::solve::{boot, run_text_to_halt, SolveError, DEFAULT_BUDGET};
use vstd::prelude::*;
use vstd::string::StringSliceAdditionalSpecFns;

verus! {

/// Run the program with the single input `mode` and return its first
/// output.  The outcomes partition the inputs: a halting run with output
/// is owed its first value, and each error names its exact cause.
fn run_boost(text: &str, mode: i64) -> (r: Result<i64, SolveError>)
    requires
        text.spec_bytes().len() <= usize::MAX - 8,
    ensures
        boost_outcome(text.spec_bytes(), mode, r),
{
    let inputs: [i64; 1] = [mode];
    proof {
        assert(inputs@ =~= seq![mode]);
    }
    let out = match run_text_to_halt(text, inputs.as_slice(), DEFAULT_BUDGET) {
        Ok(out) => out,
        Err(e) => {
            return Err(e);
        },
    };
    if out.len() == 0 {
        proof {
            let seed = feed(boot(parsed_cells(text.spec_bytes())), seq![mode]);
            let n = choose|n: nat|
                n <= DEFAULT_BUDGET && (#[trigger] run_spec(seed, n)
                    matches RunResult::Finished(st) && st.output == out@);
            assert(n <= DEFAULT_BUDGET && (run_spec(seed, n) matches RunResult::Finished(st)
                && st.output.len() == 0));
        }
        return Err(SolveError::Protocol);
    }
    let v = out[0];
    proof {
        let seed = feed(boot(parsed_cells(text.spec_bytes())), seq![mode]);
        let n = choose|n: nat|
            n <= DEFAULT_BUDGET && (#[trigger] run_spec(seed, n) matches RunResult::Finished(st)
                && st.output == out@);
        assert(n <= DEFAULT_BUDGET && (run_spec(seed, n) matches RunResult::Finished(st)
            && st.output.len() > 0 && v == st.output[0]));
    }
    Ok(v)
}

/// What running the program in a boost mode owes: the first output of a
/// halting run, or the exact reason none exists.
pub open spec fn boost_outcome(bytes: Seq<u8>, mode: i64, r: Result<i64, SolveError>) -> bool {
    let seed = feed(boot(parsed_cells(bytes)), seq![mode]);
    match r {
        Ok(v) => valid_program(bytes) && exists|n: nat|
            n <= DEFAULT_BUDGET && (#[trigger] run_spec(seed, n) matches RunResult::Finished(st)
                && st.output.len() > 0 && v == st.output[0]),
        Err(SolveError::Parse) => !valid_program(bytes),
        Err(SolveError::Exec(e)) => valid_program(bytes) && exists|n: nat|
            n <= DEFAULT_BUDGET && (#[trigger] run_spec(seed, n) matches RunResult::Failed(e2, _)
                && e2 == e),
        Err(SolveError::OutOfSteps) => valid_program(bytes) && run_spec(
            seed,
            DEFAULT_BUDGET as nat,
        ) is Cont,
        Err(SolveError::Protocol) => valid_program(bytes) && exists|n: nat|
            n <= DEFAULT_BUDGET && (#[trigger] run_spec(seed, n) is Suspended || (run_spec(seed, n)
                matches RunResult::Finished(st) && st.output.len() == 0)),
    }
}

/// Part one: the BOOST keycode, the program's first output in test mode.
pub fn d09a(text: &str) -> (r: Result<i64, SolveError>)
    requires
        text.spec_bytes().len() <= usize::MAX - 8,
    ensures
        boost_outcome(text.spec_bytes(), 1, r),
{
    run_boost(text, 1)
}

/// Part two: the distress-signal coordinates, the first output in boost
/// mode.
pub fn d09b(text: &str) -> (r: Result<i64, SolveError>)
    requires
        text.spec_bytes().len() <= usize::MAX - 8,
    ensures
        boost_outcome(text.spec_bytes(), 2, r),
{
    run_boost(text, 2)
}

} // verus!
