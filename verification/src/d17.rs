//! Day 17: the scaffold camera and the vacuum robot.  The camera image
//! arrives as character codes on the output channel; crossings are scaffold
//! cells with scaffold on all four sides.
use crate::intcode::Intcode;
use crate::solve::{run_text_to_halt, SolveError, DEFAULT_BUDGET};
use vstd::prelude::*;
use vstd::string::StringSliceAdditionalSpecFns;

verus! {

/// No position occurs twice in the cell list.
pub open spec fn cells_unique(s: Seq<(i64, i64, bool)>) -> bool {
    forall|i: int, j: int|
        0 <= i < j < s.len() ==> !(#[trigger] s[i].0 == #[trigger] s[j].0 && s[i].1 == s[j].1)
}

/// The camera image: per seen cell, whether it holds scaffold.
pub struct Scaffold {
    map: Vec<(i64, i64, bool)>,
    robot: Option<(i64, i64)>,
}

impl Scaffold {
    pub closed spec fn map_view(&self) -> Seq<(i64, i64, bool)> {
        self.map@
    }

    pub open spec fn inv(&self) -> bool {
        &&& cells_unique(self.map_view())
        &&& forall|j: int|
            0 <= j < self.map_view().len() ==> 0 <= (#[trigger] self.map_view()[j]).0 <= 10000000
                && 0 <= self.map_view()[j].1 <= 10000000
    }

    pub fn new() -> (r: Scaffold)
        ensures
            r.inv(),
            r.map_view().len() == 0,
    {
        Scaffold { map: Vec::new(), robot: None }
    }

    /// Record one camera cell, overwriting an earlier sighting.
    fn set(&mut self, x: i64, y: i64, v: bool)
        requires
            old(self).inv(),
            0 <= x <= 10000000,
            0 <= y <= 10000000,
        ensures
            final(self).inv(),
    {
        let mut i: usize = 0;
        while i < self.map.len()
            invariant
                i <= self.map@.len(),
                self.inv(),
                forall|j: int| 0 <= j < i ==> !(#[trigger] self.map@[j].0 == x && self.map@[j].1 == y),
            decreases self.map@.len() - i,
        {
            let e = self.map[i];
            if e.0 == x && e.1 == y {
                self.map.set(i, (x, y, v));
                proof {
                    assert(cells_unique(self.map@));
                }
                return ;
            }
            i = i + 1;
        }
        self.map.push((x, y, v));
        proof {
            assert(cells_unique(self.map@));
        }
    }

    /// Whether the cell was seen as scaffold; unseen cells are empty space.
    pub fn get(&self, x: i64, y: i64) -> (r: bool) {
        let mut i: usize = 0;
        while i < self.map.len()
            invariant
                i <= self.map@.len(),
            decreases self.map@.len() - i,
        {
            let e = self.map[i];
            if e.0 == x && e.1 == y {
                return e.2;
            }
            i = i + 1;
        }
        false
    }

    /// Feed one drained camera burst into the image.
    pub fn update(&mut self, output: &Vec<i64>) -> (r: Result<(), SolveError>)
        requires
            old(self).inv(),
            output@.len() <= 10000000,
        ensures
            final(self).inv(),
    {
        let mut x: i64 = 0;
        let mut y: i64 = 0;
        let mut i: usize = 0;
        while i < output.len()
            invariant
                i <= output@.len(),
                output@.len() <= 10000000,
                self.inv(),
                0 <= x <= i,
                0 <= y <= i,
            decreases output@.len() - i,
        {
            let c = output[i];
            if c == 35 {
                // '#'
                self.set(x, y, true);
                x = x + 1;
            } else if c == 46 {
                // '.'
                self.set(x, y, false);
                x = x + 1;
            } else if c == 118 || c == 60 || c == 62 || c == 94 {
                // One of 'v', '<', '>', '^': the robot on scaffold.
                self.set(x, y, true);
                self.robot = Some((x, y));
                x = x + 1;
            } else if c == 88 {
                // 'X': the robot tumbling through space.
                self.set(x, y, false);
                self.robot = Some((x, y));
                x = x + 1;
            } else if c == 10 {
                x = 0;
                y = y + 1;
            } else {
                return Err(SolveError::Protocol);
            }
            i = i + 1;
        }
        Ok(())
    }

    /// Whether the neighbouring cell in a direction holds scaffold.
    pub fn adjacent(&self, x: i64, y: i64, dx: i64, dy: i64) -> (r: bool)
        requires
            -1 <= dx <= 1,
            -1 <= dy <= 1,
            -10000000 <= x <= 10000000,
            -10000000 <= y <= 10000000,
    {
        self.get(x + dx, y + dy)
    }

    /// Every scaffold cell with scaffold on all four sides.
    pub fn intersections(&self) -> (r: Vec<(i64, i64)>)
        requires
            self.inv(),
        ensures
            forall|k: int|
                0 <= k < r@.len() ==> 0 <= (#[trigger] r@[k]).0 <= 10000000 && 0 <= r@[k].1
                    <= 10000000,
    {
        let mut out: Vec<(i64, i64)> = Vec::new();
        let mut i: usize = 0;
        while i < self.map.len()
            invariant
                i <= self.map@.len(),
                self.inv(),
                forall|j: int|
                    0 <= j < self.map@.len() ==> 0 <= (#[trigger] self.map@[j]).0 <= 10000000 && 0
                        <= self.map@[j].1 <= 10000000,
                forall|k: int|
                    0 <= k < out@.len() ==> 0 <= (#[trigger] out@[k]).0 <= 10000000 && 0
                        <= out@[k].1 <= 10000000,
            decreases self.map@.len() - i,
        {
            let e = self.map[i];
            if e.2 && self.adjacent(e.0, e.1, 0, -1) && self.adjacent(e.0, e.1, 0, 1)
                && self.adjacent(e.0, e.1, -1, 0) && self.adjacent(e.0, e.1, 1, 0) {
                out.push((e.0, e.1));
            }
            i = i + 1;
        }
        out
    }
}

/// Build the image from a full camera dump.
pub fn scaffold_from_output(output: &Vec<i64>) -> (r: Result<Scaffold, SolveError>)
    requires
        output@.len() <= 10000000,
    ensures
        r matches Ok(s) ==> s.inv(),
{
    let mut s = Scaffold::new();
    match s.update(output) {
        Ok(()) => Ok(s),
        Err(e) => Err(e),
    }
}

/// Part one: the sum of the crossings' alignment parameters, each the
/// product of its coordinates.
pub fn part_a(text: &str) -> (r: Result<i64, SolveError>)
    requires
        text.spec_bytes().len() <= usize::MAX - 8,
    ensures
        !crate::parse::valid_program(text.spec_bytes()) ==> r == Result::<
            i64,
            SolveError,
        >::Err(SolveError::Parse),
{
    let out = run_text_to_halt(text, &[], DEFAULT_BUDGET)?;
    if out.len() > 10000000 {
        return Err(SolveError::Protocol);
    }
    let scaffold = scaffold_from_output(&out)?;
    let mut cross = scaffold.intersections();
    let mut sum: i64 = 0;
    let mut k: usize = 0;
    while k < cross.len()
        invariant
            k <= cross@.len(),
            crate::parse::valid_program(text.spec_bytes()),
            forall|t: int|
                0 <= t < cross@.len() ==> 0 <= (#[trigger] cross@[t]).0 <= 10000000 && 0
                    <= cross@[t].1 <= 10000000,
            0 <= sum,
        decreases cross@.len() - k,
    {
        let (x, y) = cross[k];
        proof {
            assert(x * y <= 10000000int * 10000000int && x * y >= 0) by (nonlinear_arith)
                requires
                    0 <= x as int <= 10000000,
                    0 <= y as int <= 10000000,
            ;
        }
        sum = match sum.checked_add(x * y) {
            Some(v) => v,
            None => {
                return Err(SolveError::Protocol);
            },
        };
        k = k + 1;
    }
    Ok(sum)
}

/// The character codes of a movement script.
pub fn stream_chars(s: &str) -> (r: Vec<i64>)
    ensures
        r@.len() == s.spec_bytes().len(),
        forall|k: int| 0 <= k < r@.len() ==> #[trigger] r@[k] == s.spec_bytes()[k],
{
    let b = s.as_bytes();
    let mut out: Vec<i64> = Vec::new();
    let mut i: usize = 0;
    while i < b.len()
        invariant
            i <= b@.len(),
            b@ == s.spec_bytes(),
            out@.len() == i,
            forall|k: int| 0 <= k < i ==> #[trigger] out@[k] == b@[k],
        decreases b@.len() - i,
    {
        out.push(b[i] as i64);
        i = i + 1;
    }
    out
}

/// Part two: wake the robot, stream the movement routine and return the
/// dust count it reports last.
pub fn part_b(text: &str) -> (r: Result<i64, SolveError>)
    requires
        text.spec_bytes().len() <= usize::MAX - 8,
    ensures
        !crate::parse::valid_program(text.spec_bytes()) ==> r == Result::<
            i64,
            SolveError,
        >::Err(SolveError::Parse),
{
    let mut program = match Intcode::from_text(text) {
        Ok(m) => m,
        Err(_) => {
            return Err(SolveError::Parse);
        },
    };
    match program.set_value(0, 2) {
        Ok(()) => {},
        Err(_) => {
            return Err(SolveError::Protocol);
        },
    }
    match program.run(&[], DEFAULT_BUDGET) {
        Err(e) => {
            return Err(SolveError::Exec(e));
        },
        Ok(crate::intcode::RunState::OutOfSteps) => {
            return Err(SolveError::OutOfSteps);
        },
        _ => {},
    }
    let routine = stream_chars(
        "A,B,A,B,C,C,B,C,B,A\nR,12,L,8,R,12\nR,8,R,6,R,6,R,8\nR,8,L,8,R,8,R,4,R,4\nn\n",
    );
    match program.run(routine.as_slice(), DEFAULT_BUDGET) {
        Err(e) => {
            return Err(SolveError::Exec(e));
        },
        Ok(crate::intcode::RunState::OutOfSteps) => {
            return Err(SolveError::OutOfSteps);
        },
        _ => {},
    }
    let out = program.drain();
    if out.len() == 0 {
        return Err(SolveError::Protocol);
    }
    Ok(out[out.len() - 1])
}

} // verus!
