//! The intcode machine: a growable memory of signed 64-bit cells, an
//! instruction pointer, a relative-base register and two FIFO channels.
//!
//! Every operation is specified against `MachineState`, the mathematical
//! model of a machine, and `spec_step`, the one-instruction transition
//! function.  `run` is specified by `run_spec`, the iterated transition.
use std::collections::VecDeque;
use vstd::prelude::*;

verus! {

/// A fatal error raised while executing an instruction.
#[derive(Debug, Clone, Copy, PartialEq, Eq, Structural)]
pub enum ExecError {
    /// The fetched opcode is not in the supported set.
    InvalidOpcode,
    /// A resolved read or write address is negative, or lies beyond the
    /// addressable range of this machine.
    InvalidAddress,
    /// An addressing-mode digit is outside {0, 1, 2}, or immediate mode was
    /// used for a write target.
    InvalidMode,
}

/// What a successful `run` reports: the machine reached a halt instruction,
/// suspended on an input instruction with no queued input, or used up the
/// caller's step budget with execution still in progress.
#[derive(Debug, Clone, Copy, PartialEq, Eq, Structural)]
pub enum RunState {
    Finished,
    Suspended,
    OutOfSteps,
}

/// The mathematical model of a machine.
#[verifier::ext_equal]
pub struct MachineState {
    pub cells: Seq<i64>,
    pub pointer: int,
    pub base: i64,
    pub input: Seq<i64>,
    pub output: Seq<i64>,
    pub halted: bool,
}

/// Highest address a cell may occupy; leaves room for an instruction and its
/// parameters to sit at the very end of memory without the pointer leaving
/// the `usize` range.
pub open spec fn addr_cap() -> int {
    usize::MAX - 4
}

/// A machine state the executable representation can hold.
pub open spec fn wf(s: MachineState) -> bool {
    &&& s.cells.len() <= addr_cap()
    &&& 0 <= s.pointer <= usize::MAX
}

/// Reading memory zero-extends: addresses beyond the current length hold 0.
pub open spec fn mem_read(cells: Seq<i64>, addr: int) -> i64 {
    if 0 <= addr < cells.len() {
        cells[addr]
    } else {
        0
    }
}

/// Writing memory grows it with zero fill so the target index is valid.
pub open spec fn mem_write(cells: Seq<i64>, addr: int, v: i64) -> Seq<i64>
    recommends
        0 <= addr,
{
    if addr < cells.len() {
        cells.update(addr, v)
    } else {
        cells + Seq::new((addr - cells.len()) as nat, |i: int| 0i64) + seq![v]
    }
}

pub struct Intcode {
    cells: Vec<i64>,
    input: VecDeque<i64>,
    output: VecDeque<i64>,
    base: i64,
    pointer: usize,
    finished: bool,
}

impl View for Intcode {
    type V = MachineState;

    closed spec fn view(&self) -> MachineState {
        MachineState {
            cells: self.cells@,
            pointer: self.pointer as int,
            base: self.base,
            input: self.input@,
            output: self.output@,
            halted: self.finished,
        }
    }
}

impl Intcode {
    /// Build a machine from an explicit cell sequence; the pointer, the
    /// relative base and both queues start empty.
    pub fn new(state: Vec<i64>) -> (m: Intcode)
        requires
            state@.len() <= addr_cap(),
        ensures
            m@ == (MachineState {
                cells: state@,
                pointer: 0,
                base: 0,
                input: Seq::empty(),
                output: Seq::empty(),
                halted: false,
            }),
            wf(m@),
    {
        Intcode {
            cells: state,
            input: VecDeque::new(),
            output: VecDeque::new(),
            base: 0,
            pointer: 0,
            finished: false,
        }
    }

    /// An independent copy: same cells, registers and queues, sharing no
    /// storage, so the two machines run on without affecting each other.
    pub fn duplicate(&self) -> (m: Intcode)
        ensures
            m@ == self@,
    {
        Intcode {
            cells: self.cells.clone(),
            input: self.input.clone(),
            output: self.output.clone(),
            base: self.base,
            pointer: self.pointer,
            finished: self.finished,
        }
    }

    /// True once a halt instruction has executed.
    pub fn finished(&self) -> (r: bool)
        ensures
            r == self@.halted,
    {
        self.finished
    }

    /// Overwrite an existing cell; rejected when the index lies outside
    /// current memory.
    pub fn set_value(&mut self, position: usize, value: i64) -> (r: Result<(), PokeError>)
        ensures
            position < old(self)@.cells.len() ==> r is Ok && final(self)@ == (MachineState {
                cells: old(self)@.cells.update(position as int, value),
                ..old(self)@
            }),
            position >= old(self)@.cells.len() ==> r is Err && final(self)@ == old(self)@,
    {
        if position < self.cells.len() {
            self.cells.set(position, value);
            Ok(())
        } else {
            Err(PokeError)
        }
    }

    /// Remove and return all currently queued output, in production order.
    pub fn drain(&mut self) -> (out: Vec<i64>)
        ensures
            out@ == old(self)@.output,
            final(self)@ == (MachineState { output: Seq::empty(), ..old(self)@ }),
    {
        let mut out: Vec<i64> = Vec::new();
        loop
            invariant
                out@ + self.output@ == old(self)@.output,
                self.cells == old(self).cells,
                self.input == old(self).input,
                self.base == old(self).base,
                self.pointer == old(self).pointer,
                self.finished == old(self).finished,
            decreases self.output@.len(),
        {
            match self.output.pop_front() {
                Some(v) => {
                    out.push(v);
                }
                None => {
                    assert(out@ =~= old(self)@.output);
                    assert(self@ =~= (MachineState { output: Seq::empty(), ..old(self)@ }));
                    return out;
                }
            }
        }
    }
}

/// Poke targets an address beyond current memory length.
#[derive(Debug, Clone, Copy, PartialEq, Eq, Structural)]
pub struct PokeError;

/// The addressing-mode digit of parameter `p` (1 to 3) within an
/// instruction cell: the opcode takes the two lowest decimal digits, and the
/// remaining digits, read right to left, give one mode per parameter.
pub open spec fn mode_of(instr: i64, p: int) -> int
    recommends
        instr >= 0,
        1 <= p <= 3,
{
    let d = if p == 1 {
        100int
    } else if p == 2 {
        1000int
    } else {
        10000int
    };
    (instr as int / d) % 10
}

/// The operand value of parameter `p` of the instruction at the pointer:
/// position mode reads memory at the parameter, immediate mode takes the
/// parameter itself, relative mode reads memory at parameter plus base.
pub open spec fn spec_read_param(s: MachineState, p: int) -> Result<i64, ExecError> {
    let instr = mem_read(s.cells, s.pointer);
    let v = mem_read(s.cells, s.pointer + p);
    let m = mode_of(instr, p);
    if m == 0 {
        if v < 0 {
            Err(ExecError::InvalidAddress)
        } else {
            Ok(mem_read(s.cells, v as int))
        }
    } else if m == 1 {
        Ok(v)
    } else if m == 2 {
        if v + s.base < 0 {
            Err(ExecError::InvalidAddress)
        } else {
            Ok(mem_read(s.cells, v + s.base))
        }
    } else {
        Err(ExecError::InvalidMode)
    }
}

/// The write target of parameter `p`: position or relative mode resolve to
/// an address, immediate mode is illegal for a write.
pub open spec fn spec_write_addr(s: MachineState, p: int) -> Result<int, ExecError> {
    let instr = mem_read(s.cells, s.pointer);
    let v = mem_read(s.cells, s.pointer + p);
    let m = mode_of(instr, p);
    if m == 0 || m == 2 {
        let a = if m == 2 {
            v + s.base
        } else {
            v as int
        };
        if a < 0 || a >= addr_cap() {
            Err(ExecError::InvalidAddress)
        } else {
            Ok(a)
        }
    } else {
        Err(ExecError::InvalidMode)
    }
}

/// The cell written by the four three-parameter instructions.  Sums and
/// products are taken with wrapping 64-bit arithmetic.
pub open spec fn arith_value(op: int, a: i64, b: i64) -> i64 {
    if op == 1 {
        a.wrapping_add(b)
    } else if op == 2 {
        a.wrapping_mul(b)
    } else if op == 7 {
        if a < b {
            1
        } else {
            0
        }
    } else {
        if a == b {
            1
        } else {
            0
        }
    }
}

/// The effect of a single instruction.
pub enum StepResult {
    /// The machine advanced to a new state.
    Next(MachineState),
    /// A halt instruction executed; the pointer and base freeze.
    Halt(MachineState),
    /// An input instruction found the queue empty: nothing changes and the
    /// same instruction is retried on the next call.
    Block,
    /// A fatal error; the state at the faulting instruction is unchanged.
    Fail(ExecError),
}

/// One fetch-decode-execute step of the machine at `s.pointer`.
#[verifier::opaque]
pub open spec fn spec_step(s: MachineState) -> StepResult {
    let instr = mem_read(s.cells, s.pointer);
    if instr < 0 {
        StepResult::Fail(ExecError::InvalidOpcode)
    } else {
        let op = (instr as int) % 100;
        if op == 1 || op == 2 || op == 7 || op == 8 {
            match (spec_read_param(s, 1), spec_read_param(s, 2), spec_write_addr(s, 3)) {
                (Ok(a), Ok(b), Ok(t)) => StepResult::Next(
                    MachineState {
                        cells: mem_write(s.cells, t, arith_value(op, a, b)),
                        pointer: s.pointer + 4,
                        ..s
                    },
                ),
                (Err(e), _, _) => StepResult::Fail(e),
                (_, Err(e), _) => StepResult::Fail(e),
                (_, _, Err(e)) => StepResult::Fail(e),
            }
        } else if op == 3 {
            if s.input.len() == 0 {
                StepResult::Block
            } else {
                match spec_write_addr(s, 1) {
                    Ok(t) => StepResult::Next(
                        MachineState {
                            cells: mem_write(s.cells, t, s.input[0]),
                            pointer: s.pointer + 2,
                            input: s.input.drop_first(),
                            ..s
                        },
                    ),
                    Err(e) => StepResult::Fail(e),
                }
            }
        } else if op == 4 {
            match spec_read_param(s, 1) {
                Ok(v) => StepResult::Next(
                    MachineState { output: s.output.push(v), pointer: s.pointer + 2, ..s },
                ),
                Err(e) => StepResult::Fail(e),
            }
        } else if op == 5 || op == 6 {
            match (spec_read_param(s, 1), spec_read_param(s, 2)) {
                (Ok(c), Ok(t)) => {
                    let jump = if op == 5 {
                        c != 0
                    } else {
                        c == 0
                    };
                    if jump {
                        if t < 0 || t > usize::MAX {
                            StepResult::Fail(ExecError::InvalidAddress)
                        } else {
                            StepResult::Next(MachineState { pointer: t as int, ..s })
                        }
                    } else {
                        StepResult::Next(MachineState { pointer: s.pointer + 3, ..s })
                    }
                },
                (Err(e), _) => StepResult::Fail(e),
                (_, Err(e)) => StepResult::Fail(e),
            }
        } else if op == 9 {
            match spec_read_param(s, 1) {
                Ok(v) => if s.base + v < i64::MIN || s.base + v > i64::MAX {
                    StepResult::Fail(ExecError::InvalidAddress)
                } else {
                    StepResult::Next(
                        MachineState { base: (s.base + v) as i64, pointer: s.pointer + 2, ..s },
                    )
                },
                Err(e) => StepResult::Fail(e),
            }
        } else if op == 99 {
            StepResult::Halt(MachineState { halted: true, ..s })
        } else {
            StepResult::Fail(ExecError::InvalidOpcode)
        }
    }
}

/// The outcome of running from `s` with at most `fuel` steps: `Cont` means
/// the budget ran out with execution still in progress.
pub enum RunResult {
    Cont(MachineState),
    Finished(MachineState),
    Suspended(MachineState),
    Failed(ExecError, MachineState),
}

/// Iterate `spec_step` until a halt, a block, a fault, or `fuel` runs out.
pub open spec fn run_spec(s: MachineState, fuel: nat) -> RunResult
    decreases fuel,
{
    if fuel == 0 {
        RunResult::Cont(s)
    } else {
        match spec_step(s) {
            StepResult::Next(s2) => run_spec(s2, (fuel - 1) as nat),
            StepResult::Halt(s2) => RunResult::Finished(s2),
            StepResult::Block => RunResult::Suspended(s),
            StepResult::Fail(e) => RunResult::Failed(e, s),
        }
    }
}

/// `s` with `inp` appended to its pending input queue.
pub open spec fn feed(s: MachineState, inp: Seq<i64>) -> MachineState {
    MachineState { input: s.input + inp, ..s }
}

/// Running one more step from a state reached without a terminal event
/// extends the trace by exactly that step.
pub proof fn lemma_run_spec_step(s0: MachineState, n: nat, s1: MachineState)
    requires
        run_spec(s0, n) == RunResult::Cont(s1),
    ensures
        run_spec(s0, n + 1) == (match spec_step(s1) {
            StepResult::Next(s2) => RunResult::Cont(s2),
            StepResult::Halt(s2) => RunResult::Finished(s2),
            StepResult::Block => RunResult::Suspended(s1),
            StepResult::Fail(e) => RunResult::Failed(e, s1),
        }),
    decreases n,
{
    if n == 0 {
        assert(s1 == s0);
        assert(run_spec(s0, n + 1) == (match spec_step(s0) {
            StepResult::Next(s2) => run_spec(s2, 0),
            StepResult::Halt(s2) => RunResult::Finished(s2),
            StepResult::Block => RunResult::Suspended(s0),
            StepResult::Fail(e) => RunResult::Failed(e, s0),
        }));
    } else {
        match spec_step(s0) {
            StepResult::Next(s2) => {
                lemma_run_spec_step(s2, (n - 1) as nat, s1);
                assert(run_spec(s0, n + 1) == run_spec(s2, n as nat));
            },
            _ => {},
        }
    }
}

/// The machine is deterministic: however much fuel is granted, all runs that
/// reach a terminal outcome reach the same one.
pub proof fn lemma_run_spec_deterministic(s: MachineState, n1: nat, n2: nat)
    requires
        !(run_spec(s, n1) is Cont),
        !(run_spec(s, n2) is Cont),
    ensures
        run_spec(s, n1) == run_spec(s, n2),
    decreases n1,
{
    match spec_step(s) {
        StepResult::Next(s2) => {
            lemma_run_spec_deterministic(s2, (n1 - 1) as nat, (n2 - 1) as nat);
        },
        _ => {},
    }
}

/// A run still in progress at some fuel was in progress at every smaller
/// fuel: terminal outcomes never appear before their step is reached.
pub proof fn lemma_run_spec_cont_prefix(s: MachineState, n1: nat, n2: nat)
    requires
        n1 <= n2,
        run_spec(s, n2) is Cont,
    ensures
        run_spec(s, n1) is Cont,
    decreases n1,
{
    if n1 > 0 {
        match spec_step(s) {
            StepResult::Next(s2) => {
                lemma_run_spec_cont_prefix(s2, (n1 - 1) as nat, (n2 - 1) as nat);
            },
            _ => {},
        }
    }
}

/// Writing at or beyond the current length extends memory with zero-filled
/// cells up to and including the written address: the prefix is preserved,
/// every intermediate cell reads back as zero, and the target holds the
/// written value.
pub proof fn lemma_mem_write_grows(cells: Seq<i64>, addr: int, v: i64)
    requires
        cells.len() <= addr,
    ensures
        mem_write(cells, addr, v).len() == addr + 1,
        forall|i: int| 0 <= i < cells.len() ==> mem_write(cells, addr, v)[i] == cells[i],
        forall|i: int|
            cells.len() <= i < addr ==> mem_read(mem_write(cells, addr, v), i) == 0,
        mem_read(mem_write(cells, addr, v), addr) == v,
{
}

/// What the executable step reports; mirrors `StepResult`.
enum StepOutcome {
    Progressed,
    HaltedNow,
    Blocked,
    Failed(ExecError),
}

impl Intcode {
    /// Memory read with zero extension, at a resolved non-negative address.
    fn peek(&self, addr: i128) -> (r: i64)
        requires
            addr >= 0,
        ensures
            r == mem_read(self@.cells, addr as int),
    {
        if addr < self.cells.len() as i128 {
            self.cells[addr as usize]
        } else {
            0
        }
    }

    /// The operand of parameter `p`, resolved per its addressing mode.
    fn read_param(&self, p: usize) -> (r: Result<i64, ExecError>)
        requires
            1 <= p <= 3,
            wf(self@),
            mem_read(self@.cells, self@.pointer) > 0,
        ensures
            r == spec_read_param(self@, p as int),
    {
        let instr = self.cells[self.pointer];
        let iu = instr as u64;
        let d: u64 = if p == 1 {
            100
        } else if p == 2 {
            1000
        } else {
            10000
        };
        let m = (iu / d) % 10;
        let v = self.peek((self.pointer + p) as i128);
        if m == 0 {
            if v < 0 {
                Err(ExecError::InvalidAddress)
            } else {
                Ok(self.peek(v as i128))
            }
        } else if m == 1 {
            Ok(v)
        } else if m == 2 {
            let a = v as i128 + self.base as i128;
            if a < 0 {
                Err(ExecError::InvalidAddress)
            } else {
                Ok(self.peek(a))
            }
        } else {
            Err(ExecError::InvalidMode)
        }
    }

    /// The resolved write target of parameter `p`.
    fn write_addr(&self, p: usize) -> (r: Result<usize, ExecError>)
        requires
            1 <= p <= 3,
            wf(self@),
            mem_read(self@.cells, self@.pointer) > 0,
        ensures
            match r {
                Ok(t) => spec_write_addr(self@, p as int) == Result::<int, ExecError>::Ok(t as int),
                Err(e) => spec_write_addr(self@, p as int) == Result::<int, ExecError>::Err(e),
            },
    {
        let instr = self.cells[self.pointer];
        let iu = instr as u64;
        let d: u64 = if p == 1 {
            100
        } else if p == 2 {
            1000
        } else {
            10000
        };
        let m = (iu / d) % 10;
        let v = self.peek((self.pointer + p) as i128);
        if m == 0 || m == 2 {
            let a: i128 = if m == 2 {
                v as i128 + self.base as i128
            } else {
                v as i128
            };
            let cap: i128 = usize::MAX as i128 - 4;
            if a < 0 || a >= cap {
                Err(ExecError::InvalidAddress)
            } else {
                Ok(a as usize)
            }
        } else {
            Err(ExecError::InvalidMode)
        }
    }

    /// Store `val` at address `t`, growing memory with zero fill on demand.
    fn mem_set(&mut self, t: usize, val: i64)
        requires
            t < addr_cap(),
        ensures
            final(self)@ == (MachineState {
                cells: mem_write(old(self)@.cells, t as int, val),
                ..old(self)@
            }),
    {
        if t < self.cells.len() {
            self.cells.set(t, val);
            assert(final(self)@ =~= (MachineState {
                cells: mem_write(old(self)@.cells, t as int, val),
                ..old(self)@
            }));
        } else {
            while self.cells.len() < t
                invariant
                    old(self)@.cells.len() <= self.cells@.len() <= t,
                    self.cells@ == old(self)@.cells + Seq::new(
                        (self.cells@.len() - old(self)@.cells.len()) as nat,
                        |i: int| 0i64,
                    ),
                    self.input == old(self).input,
                    self.output == old(self).output,
                    self.base == old(self).base,
                    self.pointer == old(self).pointer,
                    self.finished == old(self).finished,
                decreases t - self.cells@.len(),
            {
                self.cells.push(0);
                assert(self.cells@ =~= old(self)@.cells + Seq::new(
                    (self.cells@.len() - old(self)@.cells.len()) as nat,
                    |i: int| 0i64,
                ));
            }
            self.cells.push(val);
            assert(self.cells@ =~= mem_write(old(self)@.cells, t as int, val));
            assert(final(self)@ =~= (MachineState {
                cells: mem_write(old(self)@.cells, t as int, val),
                ..old(self)@
            }));
        }
    }

    /// Execute the single instruction at the pointer.
    fn step(&mut self) -> (r: StepOutcome)
        requires
            wf(old(self)@),
            !old(self)@.halted,
        ensures
            wf(final(self)@),
            match r {
                StepOutcome::Progressed => spec_step(old(self)@) == StepResult::Next(final(self)@)
                    && !final(self)@.halted,
                StepOutcome::HaltedNow => spec_step(old(self)@) == StepResult::Halt(final(self)@)
                    && final(self)@.halted,
                StepOutcome::Blocked => spec_step(old(self)@) == StepResult::Block && final(self)@
                    == old(self)@,
                StepOutcome::Failed(e) => spec_step(old(self)@) == StepResult::Fail(e)
                    && final(self)@ == old(self)@,
            },
    {
        proof {
            reveal(spec_step);
        }
        let instr = if self.pointer < self.cells.len() {
            self.cells[self.pointer]
        } else {
            0
        };
        if instr <= 0 {
            return StepOutcome::Failed(ExecError::InvalidOpcode);
        }
        assert(self@.pointer < self@.cells.len());
        let op = (instr as u64) % 100;
        if op == 1 || op == 2 || op == 7 || op == 8 {
            let a = match self.read_param(1) {
                Ok(x) => x,
                Err(e) => {
                    return StepOutcome::Failed(e);
                },
            };
            let b = match self.read_param(2) {
                Ok(x) => x,
                Err(e) => {
                    return StepOutcome::Failed(e);
                },
            };
            let t = match self.write_addr(3) {
                Ok(x) => x,
                Err(e) => {
                    return StepOutcome::Failed(e);
                },
            };
            let val: i64 = if op == 1 {
                a.wrapping_add(b)
            } else if op == 2 {
                a.wrapping_mul(b)
            } else if op == 7 {
                if a < b {
                    1
                } else {
                    0
                }
            } else {
                if a == b {
                    1
                } else {
                    0
                }
            };
            self.mem_set(t, val);
            self.pointer = self.pointer + 4;
            assert(spec_step(old(self)@) == StepResult::Next(self@)) by {
                assert(self@ =~= (MachineState {
                    cells: mem_write(old(self)@.cells, t as int, val),
                    pointer: old(self)@.pointer + 4,
                    ..old(self)@
                }));
            };
            StepOutcome::Progressed
        } else if op == 3 {
            if self.input.len() == 0 {
                StepOutcome::Blocked
            } else {
                let t = match self.write_addr(1) {
                    Ok(x) => x,
                    Err(e) => {
                        return StepOutcome::Failed(e);
                    },
                };
                let v = match self.input.pop_front() {
                    Some(v) => v,
                    None => {
                        return StepOutcome::Failed(ExecError::InvalidOpcode);
                    },
                };
                self.mem_set(t, v);
                self.pointer = self.pointer + 2;
                assert(spec_step(old(self)@) == StepResult::Next(self@)) by {
                    assert(self.input@ =~= old(self)@.input.drop_first());
                    assert(self@ =~= (MachineState {
                        cells: mem_write(old(self)@.cells, t as int, v),
                        pointer: old(self)@.pointer + 2,
                        input: old(self)@.input.drop_first(),
                        ..old(self)@
                    }));
                };
                StepOutcome::Progressed
            }
        } else if op == 4 {
            let v = match self.read_param(1) {
                Ok(x) => x,
                Err(e) => {
                    return StepOutcome::Failed(e);
                },
            };
            self.output.push_back(v);
            self.pointer = self.pointer + 2;
            assert(spec_step(old(self)@) == StepResult::Next(self@)) by {
                assert(self@ =~= (MachineState {
                    output: old(self)@.output.push(v),
                    pointer: old(self)@.pointer + 2,
                    ..old(self)@
                }));
            };
            StepOutcome::Progressed
        } else if op == 5 || op == 6 {
            let c = match self.read_param(1) {
                Ok(x) => x,
                Err(e) => {
                    return StepOutcome::Failed(e);
                },
            };
            let t = match self.read_param(2) {
                Ok(x) => x,
                Err(e) => {
                    return StepOutcome::Failed(e);
                },
            };
            let jump = if op == 5 {
                c != 0
            } else {
                c == 0
            };
            if jump {
                if t < 0 || t as i128 > usize::MAX as i128 {
                    StepOutcome::Failed(ExecError::InvalidAddress)
                } else {
                    self.pointer = t as usize;
                    assert(spec_step(old(self)@) == StepResult::Next(self@)) by {
                        assert(self@ =~= (MachineState { pointer: t as int, ..old(self)@ }));
                    };
                    StepOutcome::Progressed
                }
            } else {
                self.pointer = self.pointer + 3;
                assert(spec_step(old(self)@) == StepResult::Next(self@)) by {
                    assert(self@ =~= (MachineState {
                        pointer: old(self)@.pointer + 3,
                        ..old(self)@
                    }));
                };
                StepOutcome::Progressed
            }
        } else if op == 9 {
            let v = match self.read_param(1) {
                Ok(x) => x,
                Err(e) => {
                    return StepOutcome::Failed(e);
                },
            };
            match self.base.checked_add(v) {
                Some(nb) => {
                    self.base = nb;
                    self.pointer = self.pointer + 2;
                    assert(spec_step(old(self)@) == StepResult::Next(self@)) by {
                        assert(self@ =~= (MachineState {
                            base: (old(self)@.base + v) as i64,
                            pointer: old(self)@.pointer + 2,
                            ..old(self)@
                        }));
                    };
                    StepOutcome::Progressed
                },
                None => StepOutcome::Failed(ExecError::InvalidAddress),
            }
        } else if op == 99 {
            self.finished = true;
            assert(spec_step(old(self)@) == StepResult::Halt(self@)) by {
                assert(self@ =~= (MachineState { halted: true, ..old(self)@ }));
            };
            StepOutcome::HaltedNow
        } else {
            StepOutcome::Failed(ExecError::InvalidOpcode)
        }
    }

    /// Enqueue `inputs`, then execute instructions until the machine halts
    /// (`Ok(Finished)`), blocks on an empty input queue (`Ok(Suspended)`),
    /// faults (`Err`), or has taken `budget` steps (`Ok(OutOfSteps)`).  On an
    /// already-finished machine this is a no-op that reports `Finished` at
    /// once.  The result is exactly the outcome of the iterated transition
    /// function `run_spec` on the seeded state.
    #[verifier::rlimit(60)]
    pub fn run(&mut self, inputs: &[i64], budget: u64) -> (r: Result<RunState, ExecError>)
        requires
            wf(old(self)@),
        ensures
            wf(final(self)@),
            (r == Result::<RunState, ExecError>::Ok(RunState::Finished)) == final(self)@.halted,
            old(self)@.halted ==> r == Result::<RunState, ExecError>::Ok(RunState::Finished)
                && final(self)@ == old(self)@,
            !old(self)@.halted ==> match r {
                Ok(RunState::Finished) => exists|n: nat|
                    n <= budget && #[trigger] run_spec(feed(old(self)@, inputs@), n)
                        == RunResult::Finished(final(self)@),
                Ok(RunState::Suspended) => exists|n: nat|
                    n <= budget && #[trigger] run_spec(feed(old(self)@, inputs@), n)
                        == RunResult::Suspended(final(self)@),
                Ok(RunState::OutOfSteps) => run_spec(feed(old(self)@, inputs@), budget as nat)
                    == RunResult::Cont(final(self)@),
                Err(e) => exists|n: nat|
                    n <= budget && #[trigger] run_spec(feed(old(self)@, inputs@), n)
                        == RunResult::Failed(e, final(self)@),
            },
    {
        if self.finished {
            return Ok(RunState::Finished);
        }
        let mut k: usize = 0;
        while k < inputs.len()
            invariant
                k <= inputs.len(),
                self.input@ == old(self)@.input + inputs@.take(k as int),
                self.cells == old(self).cells,
                self.output == old(self).output,
                self.base == old(self).base,
                self.pointer == old(self).pointer,
                self.finished == old(self).finished,
            decreases inputs.len() - k,
        {
            self.input.push_back(inputs[k]);
            k = k + 1;
            assert(self.input@ =~= old(self)@.input + inputs@.take(k as int));
        }
        assert(self@ =~= feed(old(self)@, inputs@)) by {
            assert(inputs@.take(inputs@.len() as int) =~= inputs@);
        };
        let ghost seed = self@;
        let mut steps: u64 = 0;
        proof {
            assert(run_spec(seed, 0) == RunResult::Cont(self@));
        }
        while steps < budget
            invariant
                wf(self@),
                !self@.halted,
                steps <= budget,
                !old(self)@.halted,
                seed == feed(old(self)@, inputs@),
                run_spec(seed, steps as nat) == RunResult::Cont(self@),
            decreases budget - steps,
        {
            let ghost pre = self@;
            match self.step() {
                StepOutcome::Progressed => {
                    proof {
                        lemma_run_spec_step(seed, steps as nat, pre);
                        assert(run_spec(seed, steps as nat + 1) == RunResult::Cont(self@));
                    }
                    steps = steps + 1;
                },
                StepOutcome::HaltedNow => {
                    proof {
                        lemma_run_spec_step(seed, steps as nat, pre);
                        assert(steps as nat + 1 <= budget && run_spec(
                            feed(old(self)@, inputs@),
                            steps as nat + 1,
                        ) == RunResult::Finished(self@));
                    }
                    return Ok(RunState::Finished);
                },
                StepOutcome::Blocked => {
                    proof {
                        lemma_run_spec_step(seed, steps as nat, pre);
                        assert(steps as nat + 1 <= budget && run_spec(
                            feed(old(self)@, inputs@),
                            steps as nat + 1,
                        ) == RunResult::Suspended(self@));
                    }
                    return Ok(RunState::Suspended);
                },
                StepOutcome::Failed(e) => {
                    proof {
                        lemma_run_spec_step(seed, steps as nat, pre);
                        assert(steps as nat + 1 <= budget && run_spec(
                            feed(old(self)@, inputs@),
                            steps as nat + 1,
                        ) == RunResult::Failed(e, self@));
                    }
                    return Err(e);
                },
            }
        }
        Ok(RunState::OutOfSteps)
    }
}

} // verus!
