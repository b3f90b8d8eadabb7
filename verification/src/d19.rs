//! Day 19: the tractor beam.  Every cell probe is one fresh machine run;
//! the square search walks the beam's left and right edges row by row.
use crate::intcode::{wf, Intcode, RunState};
use crate::solve::{SolveError, DEFAULT_BUDGET};
use vstd::prelude::*;
use vstd::string::StringSliceAdditionalSpecFns;

verus! {

/// Farthest coordinate the search may probe.
pub const BEAM_RANGE: i64 = 100000000;

/// Whether the beam covers the cell: the program, run on a fresh copy with
/// the coordinates as input, reports a nonzero pull.
pub fn within_beam(code: &Intcode, x: i64, y: i64) -> (r: Result<bool, SolveError>)
    requires
        wf(code@),
{
    let mut cloned = code.duplicate();
    let input: [i64; 2] = [x, y];
    match cloned.run(input.as_slice(), DEFAULT_BUDGET) {
        Ok(RunState::OutOfSteps) => {
            return Err(SolveError::OutOfSteps);
        },
        Err(e) => {
            return Err(SolveError::Exec(e));
        },
        _ => {},
    }
    let out = cloned.drain();
    if out.len() == 0 {
        return Err(SolveError::Protocol);
    }
    Ok(out[0] != 0)
}

/// Part one: how many cells of the fifty-by-fifty corner the beam covers.
pub fn part_a(text: &str) -> (r: Result<u64, SolveError>)
    requires
        text.spec_bytes().len() <= usize::MAX - 8,
    ensures
        !crate::parse::valid_program(text.spec_bytes()) ==> r == Result::<
            u64,
            SolveError,
        >::Err(SolveError::Parse),
{
    let code = match Intcode::from_text(text) {
        Ok(m) => m,
        Err(_) => {
            return Err(SolveError::Parse);
        },
    };
    let mut count: u64 = 0;
    let mut y: i64 = 0;
    while y < 50
        invariant
            wf(code@),
            crate::parse::valid_program(text.spec_bytes()),
            0 <= y <= 50,
            count <= 50 * y,
        decreases 50 - y,
    {
        let mut x: i64 = 0;
        while x < 50
            invariant
                wf(code@),
                crate::parse::valid_program(text.spec_bytes()),
                0 <= x <= 50,
                0 <= y < 50,
                count <= 50 * y + x,
            decreases 50 - x,
        {
            if within_beam(&code, x, y)? {
                count = count + 1;
            }
            x = x + 1;
        }
        y = y + 1;
    }
    Ok(count)
}

/// One row's beam span.
struct Row {
    y: i64,
    x0: i64,
    x1: i64,
}

/// The leftmost beam cell on the next row down, scanning right from `x`.
fn find_left(code: &Intcode, x: i64, y: i64) -> (r: Result<(i64, i64), SolveError>)
    requires
        wf(code@),
        0 <= x <= BEAM_RANGE,
        0 <= y <= BEAM_RANGE,
    ensures
        r matches Ok(p) ==> 0 <= p.0 <= 3 * BEAM_RANGE + 2 && 0 <= p.1 <= BEAM_RANGE,
{
    let mut cy = y;
    let mut steps: u64 = 0;
    while steps < 100000
        invariant
            wf(code@),
            0 <= x <= BEAM_RANGE,
            0 <= cy <= BEAM_RANGE,
        decreases 100000 - steps,
    {
        if cy >= BEAM_RANGE {
            return Err(SolveError::Protocol);
        }
        cy = cy + 1;
        let mut cx = x;
        while cx < x + cy * 2
            invariant
                wf(code@),
                0 <= x <= cx,
                x <= BEAM_RANGE,
                cx <= x + cy * 2,
                0 <= cy <= BEAM_RANGE,
            decreases x + cy * 2 - cx,
        {
            if within_beam(code, cx, cy)? {
                return Ok((cx, cy));
            }
            cx = cx + 1;
        }
        steps = steps + 1;
    }
    Err(SolveError::OutOfSteps)
}

/// The rightmost beam cell on the next row down, scanning right from `x`.
fn find_right(code: &Intcode, x: i64, y: i64) -> (r: Result<(i64, i64), SolveError>)
    requires
        wf(code@),
        0 <= x <= BEAM_RANGE,
        0 <= y <= BEAM_RANGE,
    ensures
        r matches Ok(p) ==> 0 <= p.0 <= 3 * BEAM_RANGE + 2 && 0 <= p.1 <= BEAM_RANGE,
{
    let mut cy = y;
    let mut steps: u64 = 0;
    while steps < 100000
        invariant
            wf(code@),
            0 <= x <= BEAM_RANGE,
            0 <= cy <= BEAM_RANGE,
        decreases 100000 - steps,
    {
        if cy >= BEAM_RANGE {
            return Err(SolveError::Protocol);
        }
        cy = cy + 1;
        let mut cx = x;
        let mut inside = false;
        while cx < x + cy * 2
            invariant
                wf(code@),
                0 <= x <= cx,
                x <= BEAM_RANGE,
                cx <= x + cy * 2,
                0 <= cy <= BEAM_RANGE,
                inside ==> cx >= 1,
            decreases x + cy * 2 - cx,
        {
            let hit = within_beam(code, cx, cy)?;
            if inside && !hit {
                return Ok((cx - 1, cy));
            }
            if hit {
                inside = true;
            }
            cx = cx + 1;
        }
        if inside {
            // The beam runs to the end of the scanned span.
            return Ok((x + cy * 2 - 1, cy));
        }
        steps = steps + 1;
    }
    Err(SolveError::OutOfSteps)
}

/// Part two: the first hundred-by-hundred square inside the beam, encoded
/// as ten thousand times its left edge plus its top row.
pub fn part_b(text: &str) -> (r: Result<i64, SolveError>)
    requires
        text.spec_bytes().len() <= usize::MAX - 8,
    ensures
        !crate::parse::valid_program(text.spec_bytes()) ==> r == Result::<
            i64,
            SolveError,
        >::Err(SolveError::Parse),
{
    let size: i64 = 100;
    let size_u: usize = 100;
    let code = match Intcode::from_text(text) {
        Ok(m) => m,
        Err(_) => {
            return Err(SolveError::Parse);
        },
    };
    let mut rows: Vec<Row> = Vec::new();
    let mut lx: i64 = 0;
    let mut ly: i64 = 0;
    let mut rx: i64 = 0;
    let mut ry: i64 = 0;
    let mut steps: u64 = 0;
    while steps < 1000000
        invariant
            wf(code@),
            crate::parse::valid_program(text.spec_bytes()),
            size == 100,
            size_u == 100,
            0 <= lx <= BEAM_RANGE,
            0 <= ly <= BEAM_RANGE,
            0 <= rx <= BEAM_RANGE,
            0 <= ry <= BEAM_RANGE,
            forall|t: int|
                0 <= t < rows@.len() ==> 0 <= (#[trigger] rows@[t]).y <= BEAM_RANGE && 0
                    <= rows@[t].x0 <= BEAM_RANGE && 0 <= rows@[t].x1 <= BEAM_RANGE,
        decreases 1000000 - steps,
    {
        let (nlx, nly) = find_left(&code, lx, ly)?;
        let (nrx, nry) = find_right(&code, rx, ry)?;
        if nlx > BEAM_RANGE || nrx > BEAM_RANGE || nly > BEAM_RANGE - 1 || nry > BEAM_RANGE - 1 {
            return Err(SolveError::Protocol);
        }
        if nly != nry {
            return Err(SolveError::Protocol);
        }
        lx = nlx;
        ly = nly;
        rx = nrx;
        ry = nry;
        rows.push(Row { y: nly, x0: nlx, x1: nrx });
        if rows.len() >= size_u {
            let top = &rows[rows.len() - size_u];
            let bottom = &rows[rows.len() - 1];
            if bottom.y - top.y + 1 == size && top.x1 >= bottom.x0 && top.x1 - bottom.x0 + 1
                >= size {
                if bottom.x0 > 900000 {
                    return Err(SolveError::Protocol);
                }
                return Ok(bottom.x0 * 10000 + top.y);
            }
        }
        steps = steps + 1;
    }
    Err(SolveError::OutOfSteps)
}

} // verus!
