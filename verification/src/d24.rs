//! Day 24: the five-by-five bug grid, flat and then recursive, packed into
//! the low bits of a 32-bit word.
use std::collections::HashSet;
use vstd::prelude::*;
use vstd::string::StringSliceAdditionalSpecFns;

verus! {

pub const WIDTH: u32 = 5;

pub const END: u32 = WIDTH - 1;

pub const HALF: u32 = WIDTH / 2;

pub const SIZE: u32 = WIDTH * WIDTH;

pub const CENTRE: u32 = SIZE / 2;

pub const LEFT: u32 = HALF - 1 + HALF * WIDTH;

pub const ABOVE: u32 = HALF + (HALF - 1) * WIDTH;

pub const RIGHT: u32 = HALF + 1 + HALF * WIDTH;

pub const BELOW: u32 = HALF + (HALF + 1) * WIDTH;

/// The coordinates a cell index denotes.
pub fn as_coords(i: u32) -> (r: (u32, u32))
    requires
        i < SIZE,
    ensures
        r.0 == i % 5 && r.1 == i / 5,
        r.0 < WIDTH && r.1 < WIDTH,
{
    (i % WIDTH, i / WIDTH)
}

/// The cell index of a coordinate pair.
pub fn as_index(x: u32, y: u32) -> (r: u32)
    requires
        x < WIDTH,
        y < WIDTH,
    ensures
        r == x + y * 5,
        r < SIZE,
{
    x + y * WIDTH
}

/// Parse a drawing into a bit grid: `#` is a bug, `.` and `?` are empty,
/// anything else is ignored.  Refused when more than 25 cells are drawn.
pub fn parse_grid(s: &str) -> (r: Option<u32>)
    ensures
        r matches Some(g) ==> g < 0x2000000,
{
    let b = s.as_bytes();
    let mut cells: u32 = 0;
    let mut i: u32 = 0;
    let mut k: usize = 0;
    while k < b.len()
        invariant
            i <= SIZE,
            cells < 0x2000000,
        decreases b@.len() - k,
    {
        let c = b[k];
        if c == 35 {
            if i >= SIZE {
                return None;
            }
            let c2 = cells | (1u32 << i);
            proof {
                assert(c2 < 0x2000000) by (bit_vector)
                    requires
                        i < 25,
                        cells < 0x2000000,
                        c2 == cells | (1u32 << i),
                ;
            }
            cells = c2;
            i = i + 1;
        } else if c == 46 || c == 63 {
            if i >= SIZE {
                return None;
            }
            i = i + 1;
        }
        k = k + 1;
    }
    Some(cells)
}

/// A flat grid of bugs in the low 25 bits.
#[derive(Debug, Clone, Copy)]
pub struct Grid(pub u32);

impl Grid {
    pub fn as_u32(&self) -> (r: u32)
        ensures
            r == self.0,
    {
        self.0
    }

    /// Whether the cell at a coordinate holds a bug.
    pub fn at_coords(&self, x: u32, y: u32) -> (r: bool)
        requires
            x < WIDTH,
            y < WIDTH,
        ensures
            r == ((self.0 >> (x + y * 5) as u32) & 1 == 1),
    {
        let idx = as_index(x, y);
        (self.0 >> idx) & 1 == 1
    }

    /// How many of the four neighbours of a cell hold bugs.
    pub fn adjacent(&self, index: u32) -> (r: u32)
        requires
            index < SIZE,
        ensures
            r <= 4,
    {
        let (x, y) = as_coords(index);
        let mut adj: u32 = 0;
        if x > 0 && self.at_coords(x - 1, y) {
            adj = adj + 1;
        }
        if x < END && self.at_coords(x + 1, y) {
            adj = adj + 1;
        }
        if y > 0 && self.at_coords(x, y - 1) {
            adj = adj + 1;
        }
        if y < END && self.at_coords(x, y + 1) {
            adj = adj + 1;
        }
        adj
    }

    /// One minute of life: a bug survives with exactly one neighbour, an
    /// empty cell is infested with one or two.
    pub fn update(&mut self) {
        let mut next: u32 = 0;
        let mut i: u32 = 0;
        while i < SIZE
            invariant
                i <= SIZE,
            decreases SIZE - i,
        {
            let alive = (self.0 >> i) & 1 == 1;
            let adj = self.adjacent(i);
            let grow = if alive {
                adj == 1
            } else {
                adj == 1 || adj == 2
            };
            if grow {
                next = next | (1u32 << i);
            }
            i = i + 1;
        }
        self.0 = next;
    }
}

/// Minutes the repeat search may take.
const MAX_GRID_STEPS: u64 = 40000000;

/// Run the flat grid until a layout repeats; its biodiversity rating is the
/// grid word itself.
pub fn run_grid(start: u32) -> (r: Option<u32>) {
    let mut grid = Grid(start);
    let mut seen: HashSet<u32> = HashSet::new();
    let mut steps: u64 = 0;
    while steps < MAX_GRID_STEPS
        decreases MAX_GRID_STEPS - steps,
    {
        let v = grid.as_u32();
        if seen.contains(&v) {
            return Some(v);
        }
        seen.insert(v);
        grid.update();
        steps = steps + 1;
    }
    None
}

/// Nested grids: index 0 is the outermost level.
#[derive(Debug, Clone)]
pub struct RecursiveGrid(pub Vec<u32>);

impl RecursiveGrid {
    /// Whether a cell holds a bug; the centre cell never does, and levels
    /// beyond the stored ones are empty.
    pub fn at_index(&self, level: usize, index: u32) -> (r: bool)
        requires
            index < SIZE,
    {
        let grid = if level < self.0.len() {
            self.0[level]
        } else {
            0
        };
        index != CENTRE && (grid >> index) & 1 == 1
    }

    pub fn at_coords(&self, level: usize, x: u32, y: u32) -> (r: bool)
        requires
            x < WIDTH,
            y < WIDTH,
    {
        self.at_index(level, as_index(x, y))
    }

    pub fn deepest(&self) -> (r: usize)
        requires
            self.0@.len() > 0,
        ensures
            r == self.0@.len() - 1,
    {
        self.0.len() - 1
    }

    /// How many neighbours of a cell hold bugs, counting the enclosing and
    /// the nested level across the edges and around the centre.
    pub fn adjacent(&self, level: usize, index: u32) -> (r: u32)
        requires
            index < SIZE,
            self.0@.len() > 0,
        ensures
            r <= 24,
    {
        let (x, y) = as_coords(index);
        let deep = self.deepest();
        let mut adj: u32 = 0;

        if x > 0 && self.at_coords(level, x - 1, y) {
            adj = adj + 1;
        }
        if y > 0 && self.at_coords(level, x, y - 1) {
            adj = adj + 1;
        }
        if x < END && self.at_coords(level, x + 1, y) {
            adj = adj + 1;
        }
        if y < END && self.at_coords(level, x, y + 1) {
            adj = adj + 1;
        }

        if level > 0 {
            if x == 0 && self.at_coords(level - 1, HALF - 1, HALF) {
                adj = adj + 1;
            }
            if y == 0 && self.at_coords(level - 1, HALF, HALF - 1) {
                adj = adj + 1;
            }
            if x == END && self.at_coords(level - 1, HALF + 1, HALF) {
                adj = adj + 1;
            }
            if y == END && self.at_coords(level - 1, HALF, HALF + 1) {
                adj = adj + 1;
            }
        }
        if level < deep && index == LEFT {
            let nl = level + 1;
            let mut yy: u32 = 0;
            while yy < WIDTH
                invariant
                    adj <= 8 + yy,
                    yy <= WIDTH,
                decreases WIDTH - yy,
            {
                if self.at_coords(nl, 0, yy) {
                    adj = adj + 1;
                }
                yy = yy + 1;
            }
        }
        if level < deep && index == ABOVE {
            let nl = level + 1;
            let mut xx: u32 = 0;
            while xx < WIDTH
                invariant
                    adj <= 13 + xx,
                    xx <= WIDTH,
                decreases WIDTH - xx,
            {
                if self.at_coords(nl, xx, 0) {
                    adj = adj + 1;
                }
                xx = xx + 1;
            }
        }
        if level < deep && index == RIGHT {
            let nl = level + 1;
            let mut yy: u32 = 0;
            while yy < WIDTH
                invariant
                    adj <= 18 + yy,
                    yy <= WIDTH,
                decreases WIDTH - yy,
            {
                if self.at_coords(nl, END, yy) {
                    adj = adj + 1;
                }
                yy = yy + 1;
            }
        }
        if level < deep && index == BELOW {
            let nl = level + 1;
            let mut xx: u32 = 0;
            while xx < WIDTH
                invariant
                    adj <= 19 + xx,
                    xx <= WIDTH,
                decreases WIDTH - xx,
            {
                if self.at_coords(nl, xx, END) {
                    adj = adj + 1;
                }
                xx = xx + 1;
            }
        }
        adj
    }

    /// The next minute's layout of one level.
    pub fn update_level(&self, level: usize) -> (r: u32)
        requires
            self.0@.len() > 0,
    {
        let grid = if level < self.0.len() {
            self.0[level]
        } else {
            0
        };
        let mut next: u32 = 0;
        let mut i: u32 = 0;
        while i < SIZE
            invariant
                i <= SIZE,
                self.0@.len() > 0,
            decreases SIZE - i,
        {
            if i != CENTRE {
                let alive = (grid >> i) & 1 == 1;
                let adj = self.adjacent(level, i);
                let grow = if alive {
                    adj == 1
                } else {
                    adj == 1 || adj == 2
                };
                if grow {
                    next = next | (1u32 << i);
                }
            }
            i = i + 1;
        }
        next
    }

    /// Whether bugs on the outer rim demand a new enclosing level.
    pub fn expand_up(&self) -> (r: bool) {
        let mut i: u32 = 0;
        while i < WIDTH
            invariant
                i <= WIDTH,
            decreases WIDTH - i,
        {
            if self.at_index(0, i) || self.at_index(0, i * WIDTH) || self.at_index(
                0,
                SIZE - WIDTH + i,
            ) || self.at_index(0, END + i * WIDTH) {
                return true;
            }
            i = i + 1;
        }
        false
    }

    /// Whether bugs beside the centre demand a new nested level.
    pub fn expand_down(&self) -> (r: bool)
        requires
            self.0@.len() > 0,
    {
        let deep = self.deepest();
        self.at_index(deep, LEFT) || self.at_index(deep, ABOVE) || self.at_index(deep, RIGHT)
            || self.at_index(deep, BELOW)
    }

    /// One minute over all levels, growing the stack as needed.
    pub fn update(&mut self)
        requires
            old(self).0@.len() > 0,
            old(self).0@.len() <= 10000,
        ensures
            final(self).0@.len() > 0,
            final(self).0@.len() <= old(self).0@.len() + 2,
    {
        if self.expand_up() {
            self.0.insert(0, 0);
        }
        if self.expand_down() {
            self.0.push(0);
        }
        let mut next: Vec<u32> = Vec::new();
        let mut level: usize = 0;
        while level < self.0.len()
            invariant
                self.0@.len() > 0,
                self.0@.len() <= old(self).0@.len() + 2,
                next@.len() == level,
                level <= self.0@.len(),
            decreases self.0@.len() - level,
        {
            next.push(self.update_level(level));
            level = level + 1;
        }
        self.0 = next;
    }

    /// How many bugs live across all levels.
    pub fn count(&self) -> (r: u64)
        requires
            self.0@.len() <= 100000,
    {
        let mut total: u64 = 0;
        let mut level: usize = 0;
        while level < self.0.len()
            invariant
                level <= self.0@.len(),
                self.0@.len() <= 100000,
                total <= 32 * level,
            decreases self.0@.len() - level,
        {
            let g = self.0[level];
            let mut i: u32 = 0;
            let mut bits: u64 = 0;
            while i < 32
                invariant
                    i <= 32,
                    bits <= i,
                decreases 32 - i,
            {
                if (g >> i) & 1 == 1 {
                    bits = bits + 1;
                }
                i = i + 1;
            }
            total = total + bits;
            level = level + 1;
        }
        total
    }
}

/// Part one: the first biodiversity rating that appears twice.
pub fn part_a(s: &str) -> (r: Option<u32>) {
    let start = parse_grid(s)?;
    run_grid(start)
}

/// Part two: how many bugs live after the given number of minutes of the
/// recursive rule.
pub fn part_b(s: &str, minutes: u32) -> (r: Option<u64>)
    requires
        minutes <= 4000,
{
    let start = parse_grid(s)?;
    let mut cells: Vec<u32> = Vec::new();
    cells.push(start);
    let mut grid = RecursiveGrid(cells);
    let mut m: u32 = 0;
    while m < minutes
        invariant
            m <= minutes,
            minutes <= 4000,
            grid.0@.len() > 0,
            grid.0@.len() <= 1 + 2 * (m as int),
        decreases minutes - m,
    {
        grid.update();
        m = m + 1;
    }
    Some(grid.count())
}

} // verus!
