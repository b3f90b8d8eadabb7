//! Day 21: the springdroid.  A small jump script is parsed, rendered back
//! to text and streamed into the machine; the droid reports the hull
//! damage, or an image of its fall.
use crate::intcode::{wf, Intcode, RunState};
use crate::solve::{SolveError, DEFAULT_BUDGET};
use vstd::prelude::*;
use vstd::string::StringSliceAdditionalSpecFns;

verus! {

/// A springdroid register name.
#[derive(Debug, Clone, Copy, PartialEq, Eq, Structural)]
pub struct R(pub u8);

/// Whether a register can be read: the nine sensors and the two scratch
/// registers.
pub open spec fn spec_readable(c: u8) -> bool {
    (65 <= c <= 73) || c == 74 || c == 84
}

impl R {
    /// Only the scratch registers take results.
    pub fn writeable(&self) -> (r: bool)
        ensures
            r == (self.0 == 74 || self.0 == 84),
    {
        self.0 == 74 || self.0 == 84
    }

    pub fn parse(c: u8) -> (r: Option<R>)
        ensures
            r matches Some(reg) ==> reg.0 == c && spec_readable(c),
            r is None ==> !spec_readable(c),
    {
        if (65 <= c && c <= 73) || c == 74 || c == 84 {
            Some(R(c))
        } else {
            None
        }
    }
}

/// One springscript instruction.
#[derive(Debug, Clone, Copy, PartialEq, Eq, Structural)]
pub enum Instruction {
    And(R, R),
    Or(R, R),
    Not(R, R),
    Walk,
    Run,
}

impl Instruction {
    /// The instruction's text line, without the newline.
    pub fn render(&self) -> (r: Vec<u8>) {
        let mut out: Vec<u8> = Vec::new();
        match self {
            Instruction::And(l, rr) => {
                out.push(65);
                out.push(78);
                out.push(68);
                out.push(32);
                out.push(l.0);
                out.push(32);
                out.push(rr.0);
            },
            Instruction::Or(l, rr) => {
                out.push(79);
                out.push(82);
                out.push(32);
                out.push(l.0);
                out.push(32);
                out.push(rr.0);
            },
            Instruction::Not(l, rr) => {
                out.push(78);
                out.push(79);
                out.push(84);
                out.push(32);
                out.push(l.0);
                out.push(32);
                out.push(rr.0);
            },
            Instruction::Walk => {
                out.push(87);
                out.push(65);
                out.push(76);
                out.push(75);
            },
            Instruction::Run => {
                out.push(82);
                out.push(85);
                out.push(78);
            },
        }
        out
    }
}

/// The next whitespace-separated word: its bounds and the position after.
fn word(b: &[u8], from: usize) -> (r: Option<(usize, usize, usize)>)
    requires
        from <= b@.len(),
    ensures
        r matches Some(w) ==> from <= w.0 <= w.1 <= w.2 <= b@.len() && w.0 < w.1,
{
    let n = b.len();
    let mut i = from;
    while i < n && (b[i] == 32 || b[i] == 10 || b[i] == 9 || b[i] == 13)
        invariant
            from <= i <= n,
            n == b@.len(),
        decreases n - i,
    {
        i = i + 1;
    }
    if i >= n {
        return None;
    }
    let start = i;
    while i < n && b[i] != 32 && b[i] != 10 && b[i] != 9 && b[i] != 13
        invariant
            start <= i <= n,
            n == b@.len(),
        decreases n - i,
    {
        i = i + 1;
    }
    Some((start, i, i))
}

/// Whether the word at `[lo, hi)` is the given keyword.
fn word_is(b: &[u8], lo: usize, hi: usize, pat: &str) -> (r: bool)
    requires
        lo <= hi <= b@.len(),
{
    let p = pat.as_bytes();
    if hi - lo != p.len() {
        return false;
    }
    let mut k: usize = 0;
    while k < p.len()
        invariant
            k <= p@.len(),
            lo <= hi <= b@.len(),
            hi - lo == p@.len(),
        decreases p@.len() - k,
    {
        if b[lo + k] != p[k] {
            return false;
        }
        k = k + 1;
    }
    true
}

/// Parse one instruction; the position after it.
pub fn parse_instruction(b: &[u8], from: usize) -> (r: Option<(Instruction, usize)>)
    requires
        from <= b@.len(),
    ensures
        r matches Some(p) ==> from < p.1 <= b@.len(),
{
    let (klo, khi, mut rest) = word(b, from)?;
    let two_regs = word_is(b, klo, khi, "AND") || word_is(b, klo, khi, "OR") || word_is(
        b,
        klo,
        khi,
        "NOT",
    );
    if two_regs {
        let (alo, ahi, rest2) = word(b, rest)?;
        if ahi - alo != 1 {
            return None;
        }
        let ra = R::parse(b[alo])?;
        let (blo, bhi, rest3) = word(b, rest2)?;
        if bhi - blo != 1 {
            return None;
        }
        let rb = R::parse(b[blo])?;
        if !rb.writeable() {
            return None;
        }
        rest = rest3;
        if word_is(b, klo, khi, "AND") {
            return Some((Instruction::And(ra, rb), rest));
        }
        if word_is(b, klo, khi, "OR") {
            return Some((Instruction::Or(ra, rb), rest));
        }
        return Some((Instruction::Not(ra, rb), rest));
    }
    if word_is(b, klo, khi, "WALK") {
        return Some((Instruction::Walk, rest));
    }
    if word_is(b, klo, khi, "RUN") {
        return Some((Instruction::Run, rest));
    }
    None
}

/// Parse a whole script.
pub fn parse_instructions(s: &str) -> (r: Option<Vec<Instruction>>) {
    let b = s.as_bytes();
    let n = b.len();
    let mut out: Vec<Instruction> = Vec::new();
    let mut i: usize = 0;
    // Trailing whitespace ends the scan.
    while i < n
        invariant
            i <= n,
            n == b@.len(),
        decreases n - i,
    {
        match word(b, i) {
            Some(_) => {},
            None => {
                return Some(out);
            },
        }
        let (ins, rest) = match parse_instruction(b, i) {
            Some(p) => p,
            None => {
                return None;
            },
        };
        out.push(ins);
        i = rest;
    }
    Some(out)
}

/// Stream the script to the droid and take the one value that is not an
/// ASCII character: the hull damage.  Nothing when the droid fell.
pub fn execute_instructions(code: &mut Intcode, instructions: &Vec<Instruction>) -> (r: Result<
    Option<i64>,
    SolveError,
>)
    requires
        wf(old(code)@),
    ensures
        wf(final(code)@),
{
    let mut feed: Vec<i64> = Vec::new();
    let mut k: usize = 0;
    while k < instructions.len()
        decreases instructions@.len() - k,
    {
        let line = instructions[k].render();
        let mut j: usize = 0;
        while j < line.len()
            decreases line@.len() - j,
        {
            feed.push(line[j] as i64);
            j = j + 1;
        }
        feed.push(10);
        k = k + 1;
    }
    match code.run(feed.as_slice(), DEFAULT_BUDGET) {
        Ok(RunState::OutOfSteps) => {
            return Err(SolveError::OutOfSteps);
        },
        Err(e) => {
            return Err(SolveError::Exec(e));
        },
        _ => {},
    }
    let out = code.drain();
    let mut result: Option<i64> = None;
    let mut i: usize = 0;
    while i < out.len()
        decreases out@.len() - i,
    {
        let v = out[i];
        if v < 0 || v > 255 {
            if result.is_none() {
                result = Some(v);
            }
        }
        i = i + 1;
    }
    Ok(result)
}

/// Run a script over the program text.
fn execute(text: &str, script: &str) -> (r: Result<i64, SolveError>)
    requires
        text.spec_bytes().len() <= usize::MAX - 8,
{
    let parsed = match parse_instructions(script) {
        Some(p) => p,
        None => {
            return Err(SolveError::Parse);
        },
    };
    let mut program = match Intcode::from_text(text) {
        Ok(m) => m,
        Err(_) => {
            return Err(SolveError::Parse);
        },
    };
    match execute_instructions(&mut program, &parsed) {
        Ok(Some(v)) => Ok(v),
        Ok(None) => Err(SolveError::Protocol),
        Err(e) => Err(e),
    }
}

/// Part one: walk, jumping over any hole when the landing square holds.
pub fn part_a(text: &str) -> (r: Result<i64, SolveError>)
    requires
        text.spec_bytes().len() <= usize::MAX - 8,
{
    execute(
        text,
        "NOT J T\nAND A T\nAND B T\nAND C T\nNOT T J\nAND D J\nWALK\n",
    )
}

/// Part two: run, jumping only when a step or a second jump can follow.
pub fn part_b(text: &str) -> (r: Result<i64, SolveError>)
    requires
        text.spec_bytes().len() <= usize::MAX - 8,
{
    execute(
        text,
        "NOT J T\nAND A T\nAND B T\nAND C T\nNOT T J\nAND D J\nNOT E T\nNOT T T\nOR H T\nAND T J\nRUN\n",
    )
}

} // verus!
