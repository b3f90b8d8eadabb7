//! Day 15: the repair droid.  Independent machine copies fan out over the
//! unknown maze breadth-first, one step each, until the oxygen system is
//! found; part two floods the maze from there.
use crate::intcode::{wf, Intcode, RunState};
use crate::solve::{SolveError, DEFAULT_BUDGET};
use std::collections::HashMap;
use vstd::prelude::*;
use vstd::string::StringSliceAdditionalSpecFns;

verus! {

#[derive(Debug, Clone, Copy, PartialEq, Eq, Structural)]
pub enum Status {
    Empty,
    Wall,
    OxygenSystem,
}

impl Status {
    /// The status a machine reply denotes, if any.
    pub fn from_i64(i: i64) -> (r: Option<Status>)
        ensures
            r == (if i == 0 {
                Some(Status::Wall)
            } else if i == 1 {
                Some(Status::Empty)
            } else if i == 2 {
                Some(Status::OxygenSystem)
            } else {
                None
            }),
    {
        match i {
            0 => Some(Status::Wall),
            1 => Some(Status::Empty),
            2 => Some(Status::OxygenSystem),
            _ => None,
        }
    }

    /// Whether the droid stepped rather than bumped into a wall.
    pub fn has_moved(&self) -> (r: bool)
        ensures
            r == !(self is Wall),
    {
        match self {
            Status::Empty | Status::OxygenSystem => true,
            Status::Wall => false,
        }
    }

    pub fn is_oxygen_system(&self) -> (r: bool)
        ensures
            r == (self is OxygenSystem),
    {
        match self {
            Status::OxygenSystem => true,
            _ => false,
        }
    }
}

#[derive(Debug, Clone, Copy, PartialEq, Eq, Structural)]
pub enum Direction {
    North,
    South,
    West,
    East,
}

/// Farthest coordinate the droid may wander.
pub const MAZE_RANGE: i64 = 100000000;

impl Direction {
    /// The four directions in probe order.
    pub fn all() -> (r: [Direction; 4])
        ensures
            r@ == seq![Direction::North, Direction::South, Direction::West, Direction::East],
    {
        let r = [Direction::North, Direction::South, Direction::West, Direction::East];
        proof {
            assert(r@ =~= seq![
                Direction::North,
                Direction::South,
                Direction::West,
                Direction::East,
            ]);
        }
        r
    }

    /// The command code the machine understands.
    pub fn as_i64(&self) -> (r: i64)
        ensures
            r == (match self {
                Direction::North => 1int,
                Direction::South => 2int,
                Direction::East => 3int,
                Direction::West => 4int,
            }),
    {
        match self {
            Direction::North => 1,
            Direction::South => 2,
            Direction::East => 3,
            Direction::West => 4,
        }
    }

    /// One step in this direction.
    pub fn move_from(&self, p: (i64, i64)) -> (r: (i64, i64))
        requires
            -MAZE_RANGE < p.0 < MAZE_RANGE,
            -MAZE_RANGE < p.1 < MAZE_RANGE,
        ensures
            r == (match self {
                Direction::North => ((p.0 + 0) as i64, (p.1 - 1) as i64),
                Direction::South => ((p.0 + 0) as i64, (p.1 + 1) as i64),
                Direction::East => ((p.0 - 1) as i64, (p.1 + 0) as i64),
                Direction::West => ((p.0 + 1) as i64, (p.1 + 0) as i64),
            }),
    {
        match self {
            Direction::North => (p.0, p.1 - 1),
            Direction::South => (p.0, p.1 + 1),
            Direction::East => (p.0 - 1, p.1),
            Direction::West => (p.0 + 1, p.1),
        }
    }
}

/// The key a maze cell packs into.
fn maze_key(p: (i64, i64)) -> (r: u64) {
    ((p.0 as u32 as u64) << 32u64) | (p.1 as u32 as u64)
}

/// One explorer: its machine copy, where it stands and how far it came.
pub struct Droid {
    position: (i64, i64),
    program: Intcode,
    travelled: u32,
}

impl Droid {
    pub closed spec fn pos(&self) -> (i64, i64) {
        self.position
    }

    pub closed spec fn dist(&self) -> u32 {
        self.travelled
    }

    pub closed spec fn inv(&self) -> bool {
        &&& wf(self.program@)
        &&& -MAZE_RANGE < self.pos().0 < MAZE_RANGE
        &&& -MAZE_RANGE < self.pos().1 < MAZE_RANGE
    }

    pub fn new(code: &Intcode) -> (r: Droid)
        requires
            wf(code@),
        ensures
            r.inv(),
            r.dist() == 0,
    {
        Droid { position: (0, 0), program: code.duplicate(), travelled: 0 }
    }

    pub fn travelled(&self) -> (r: u32)
        ensures
            r == self.dist(),
    {
        self.travelled
    }

    /// Forget the distance walked so far.
    pub fn reset(&mut self)
        requires
            old(self).inv(),
        ensures
            final(self).inv(),
            final(self).dist() == 0,
    {
        self.travelled = 0;
    }

    /// Command one step; the status the droid reports back.
    pub fn run(&mut self, d: Direction) -> (r: Result<Status, SolveError>)
        requires
            old(self).inv(),
            old(self).dist() < u32::MAX,
        ensures
            final(self).inv(),
    {
        let input: [i64; 1] = [d.as_i64()];
        match self.program.run(input.as_slice(), DEFAULT_BUDGET) {
            Ok(RunState::OutOfSteps) => {
                return Err(SolveError::OutOfSteps);
            },
            Err(e) => {
                return Err(SolveError::Exec(e));
            },
            _ => {},
        }
        let output = self.program.drain();
        if output.len() != 1 {
            return Err(SolveError::Protocol);
        }
        let status = match Status::from_i64(output[0]) {
            Some(s) => s,
            None => {
                return Err(SolveError::Protocol);
            },
        };
        if status.has_moved() {
            let next = d.move_from(self.position);
            if next.0 <= -MAZE_RANGE + 1 || next.0 >= MAZE_RANGE - 1 || next.1 <= -MAZE_RANGE + 1
                || next.1 >= MAZE_RANGE - 1 {
                return Err(SolveError::Protocol);
            }
            self.position = next;
            self.travelled = self.travelled + 1;
        }
        Ok(status)
    }

    /// Probe the unexplored neighbours; the copies that stepped into open
    /// cells, with each probed cell marked in `discovered`.
    pub fn extend(&self, discovered: &mut HashMap<u64, Status>) -> (r: Result<
        Vec<Droid>,
        SolveError,
    >)
        requires
            self.inv(),
            self.dist() < u32::MAX,
        ensures
            r matches Ok(ds) ==> forall|k: int|
                0 <= k < ds@.len() ==> (#[trigger] ds@[k]).inv() && ds@[k].dist() < u32::MAX,
    {
        let mut new_droids: Vec<Droid> = Vec::new();
        let dirs = Direction::all();
        let mut k: usize = 0;
        while k < 4
            invariant
                self.inv(),
                self.dist() < u32::MAX,
                dirs@.len() == 4,
                forall|t: int|
                    0 <= t < new_droids@.len() ==> (#[trigger] new_droids@[t]).inv()
                        && new_droids@[t].dist() < u32::MAX,
            decreases 4 - k,
        {
            let d = dirs[k];
            let next = d.move_from(self.position);
            let key = maze_key(next);
            if !discovered.contains_key(&key) {
                let mut droid = Droid {
                    position: self.position,
                    program: self.program.duplicate(),
                    travelled: self.travelled,
                };
                let status = match droid.run(d) {
                    Ok(s) => s,
                    Err(e) => {
                        return Err(e);
                    },
                };
                if status.has_moved() {
                    if droid.travelled() == u32::MAX {
                        return Err(SolveError::Protocol);
                    }
                    new_droids.push(droid);
                }
                discovered.insert(key, status);
            }
            k = k + 1;
        }
        Ok(new_droids)
    }
}

/// Cells any search may probe.
const MAX_PROBES: u64 = 10000000;

/// Breadth-first search until a droid steps onto the oxygen system.
pub fn find_oxygen_system(code: &Intcode) -> (r: Result<Droid, SolveError>)
    requires
        wf(code@),
    ensures
        r matches Ok(d) ==> d.inv(),
{
    let mut discovered: HashMap<u64, Status> = HashMap::new();
    let mut queue: Vec<Droid> = Vec::new();
    queue.push(Droid::new(code));
    let mut head: usize = 0;
    let mut steps: u64 = 0;
    while steps < MAX_PROBES
        invariant
            head <= queue@.len(),
            forall|t: int|
                head <= t < queue@.len() ==> (#[trigger] queue@[t]).inv() && queue@[t].dist()
                    < u32::MAX,
        decreases MAX_PROBES - steps,
    {
        if head >= queue.len() {
            return Err(SolveError::Protocol);
        }
        let droid = &queue[head];
        let mut fresh = match droid.extend(&mut discovered) {
            Ok(ds) => ds,
            Err(e) => {
                return Err(e);
            },
        };
        head = head + 1;
        let mut j: usize = 0;
        while j < fresh.len()
            invariant
                head <= queue@.len(),
                j <= fresh@.len(),
                forall|t: int|
                    0 <= t < fresh@.len() ==> (#[trigger] fresh@[t]).inv() && fresh@[t].dist()
                        < u32::MAX,
                forall|t: int|
                    head <= t < queue@.len() ==> (#[trigger] queue@[t]).inv() && queue@[t].dist()
                        < u32::MAX,
            decreases fresh@.len() - j,
        {
            let d = fresh.remove(j);
            proof {
                assert(forall|t: int|
                    0 <= t < fresh@.len() ==> (#[trigger] fresh@[t]).inv() && fresh@[t].dist()
                        < u32::MAX);
            }
            let key = maze_key((d.position.0, d.position.1));
            let found = match discovered.get(&key) {
                Some(s) => s.is_oxygen_system(),
                None => false,
            };
            if found {
                return Ok(d);
            }
            queue.push(d);
        }
        steps = steps + 1;
    }
    Err(SolveError::OutOfSteps)
}

/// Part one: the fewest steps from the start to the oxygen system.
pub fn d15a(text: &str) -> (r: Result<u32, SolveError>)
    requires
        text.spec_bytes().len() <= usize::MAX - 8,
    ensures
        !crate::parse::valid_program(text.spec_bytes()) ==> r == Result::<
            u32,
            SolveError,
        >::Err(SolveError::Parse),
{
    let code = match Intcode::from_text(text) {
        Ok(m) => m,
        Err(_) => {
            return Err(SolveError::Parse);
        },
    };
    let d = find_oxygen_system(&code)?;
    Ok(d.travelled())
}

/// Part two: how long oxygen takes to flood the whole maze, the farthest
/// cell's distance from the oxygen system.
pub fn d15b(text: &str) -> (r: Result<u32, SolveError>)
    requires
        text.spec_bytes().len() <= usize::MAX - 8,
    ensures
        !crate::parse::valid_program(text.spec_bytes()) ==> r == Result::<
            u32,
            SolveError,
        >::Err(SolveError::Parse),
{
    let code = match Intcode::from_text(text) {
        Ok(m) => m,
        Err(_) => {
            return Err(SolveError::Parse);
        },
    };
    let mut start = find_oxygen_system(&code)?;
    start.reset();

    let mut discovered: HashMap<u64, Status> = HashMap::new();
    let mut queue: Vec<Droid> = Vec::new();
    queue.push(start);
    let mut head: usize = 0;
    let mut greatest: u32 = 0;
    let mut steps: u64 = 0;
    while steps < MAX_PROBES
        invariant
            crate::parse::valid_program(text.spec_bytes()),
            head <= queue@.len(),
            forall|t: int|
                head <= t < queue@.len() ==> (#[trigger] queue@[t]).inv() && queue@[t].dist()
                    < u32::MAX,
        decreases MAX_PROBES - steps,
    {
        if head >= queue.len() {
            return Ok(greatest);
        }
        let droid = &queue[head];
        let mut fresh = match droid.extend(&mut discovered) {
            Ok(ds) => ds,
            Err(e) => {
                return Err(e);
            },
        };
        head = head + 1;
        let mut j: usize = 0;
        while j < fresh.len()
            invariant
                head <= queue@.len(),
                j <= fresh@.len(),
                forall|t: int|
                    0 <= t < fresh@.len() ==> (#[trigger] fresh@[t]).inv() && fresh@[t].dist()
                        < u32::MAX,
                forall|t: int|
                    head <= t < queue@.len() ==> (#[trigger] queue@[t]).inv() && queue@[t].dist()
                        < u32::MAX,
            decreases fresh@.len() - j,
        {
            let d = fresh.remove(j);
            proof {
                assert(forall|t: int|
                    0 <= t < fresh@.len() ==> (#[trigger] fresh@[t]).inv() && fresh@[t].dist()
                        < u32::MAX);
            }
            if d.travelled() > greatest {
                greatest = d.travelled();
            }
            queue.push(d);
        }
        steps = steps + 1;
    }
    Err(SolveError::OutOfSteps)
}

} // verus!
