//! Shared plumbing for the puzzle solvers: running a machine from program
//! text to completion and the errors a solver can report.
use crate::intcode::{feed, run_spec, ExecError, Intcode, MachineState, RunResult, RunState};
use crate::parse::{parsed_cells, valid_program};
use vstd::prelude::*;
use vstd::string::StringSliceAdditionalSpecFns;

verus! {

/// Step budget the solvers grant a machine; far beyond what any puzzle
/// program takes, so exhausting it means a runaway program.
pub const DEFAULT_BUDGET: u64 = 4000000000;

/// Why a solver failed.
#[derive(Debug, Clone, Copy, PartialEq, Eq, Structural)]
pub enum SolveError {
    /// The program text is malformed.
    Parse,
    /// The machine faulted while executing.
    Exec(ExecError),
    /// The machine took more steps than the budget allows.
    OutOfSteps,
    /// The machine suspended for input, or its output did not have the
    /// shape the solver's protocol demands.
    Protocol,
}

/// The state of a freshly booted machine over `cells`.
pub open spec fn boot(cells: Seq<i64>) -> MachineState {
    MachineState {
        cells: cells,
        pointer: 0,
        base: 0,
        input: Seq::empty(),
        output: Seq::empty(),
        halted: false,
    }
}

/// A machine booted over `cells` and fed `inp` runs to a halt with exactly
/// `out` as its produced output.
pub open spec fn halts_with(cells: Seq<i64>, inp: Seq<i64>, out: Seq<i64>) -> bool {
    exists|n: nat|
        #[trigger] run_spec(feed(boot(cells), inp), n) matches RunResult::Finished(st)
            && st.output == out
}

/// Parse `text`, feed `inputs`, run to a halt, and hand back everything the
/// program wrote to its output channel.  The five outcomes partition the
/// inputs: their conditions are mutually exclusive, so each arm holds if
/// and only if its condition does, and a run that finishes within the
/// budget is owed its output.
pub fn run_text_to_halt(text: &str, inputs: &[i64], budget: u64) -> (r: Result<
    Vec<i64>,
    SolveError,
>)
    requires
        text.spec_bytes().len() <= usize::MAX - 8,
    ensures
        ({
            let seed = feed(boot(parsed_cells(text.spec_bytes())), inputs@);
            match r {
                Ok(out) => valid_program(text.spec_bytes()) && exists|n: nat|
                    n <= budget && (#[trigger] run_spec(seed, n) matches RunResult::Finished(st)
                        && st.output == out@),
                Err(SolveError::Parse) => !valid_program(text.spec_bytes()),
                Err(SolveError::Exec(e)) => valid_program(text.spec_bytes()) && exists|n: nat|
                    n <= budget && (#[trigger] run_spec(seed, n) matches RunResult::Failed(e2, _)
                        && e2 == e),
                Err(SolveError::OutOfSteps) => valid_program(text.spec_bytes()) && run_spec(
                    seed,
                    budget as nat,
                ) is Cont,
                Err(SolveError::Protocol) => valid_program(text.spec_bytes()) && exists|n: nat|
                    n <= budget && #[trigger] run_spec(seed, n) is Suspended,
            }
        }),
        r is Ok ==> halts_with(parsed_cells(text.spec_bytes()), inputs@, r.unwrap()@),
        !valid_program(text.spec_bytes()) ==> r == Result::<
            Vec<i64>,
            SolveError,
        >::Err(SolveError::Parse),
{
    let mut m = match Intcode::from_text(text) {
        Ok(m) => m,
        Err(_) => {
            return Err(SolveError::Parse);
        },
    };
    let ghost seed = feed(boot(parsed_cells(text.spec_bytes())), inputs@);
    proof {
        assert(m@ == boot(parsed_cells(text.spec_bytes())));
    }
    match m.run(inputs, budget) {
        Ok(RunState::Finished) => {
            let ghost halted_state = m@;
            let out = m.drain();
            proof {
                let n = choose|n: nat|
                    n <= budget && #[trigger] run_spec(seed, n) == RunResult::Finished(
                        halted_state,
                    );
                assert(run_spec(seed, n) matches RunResult::Finished(st) && st.output == out@);
            }
            Ok(out)
        },
        Ok(RunState::Suspended) => Err(SolveError::Protocol),
        Ok(RunState::OutOfSteps) => Err(SolveError::OutOfSteps),
        Err(e) => Err(SolveError::Exec(e)),
    }
}

} // verus!
