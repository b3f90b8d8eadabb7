//! Day 3: crossed wires.  Both wires are traced cell by cell over a sparse
//! grid; a crossing is any cell stepped on by more than one trace.
use std::collections::HashMap;
use std::collections::HashSet;
use vstd::prelude::*;
use vstd::string::StringSliceAdditionalSpecFns;

verus! {

/// Farthest coordinate a wire may reach.
pub const WIRE_RANGE: i64 = 1000000000;

/// One wire segment: its full displacement and its length.
#[derive(Debug, Clone, Copy)]
pub struct WireMove {
    pub x: i64,
    pub y: i64,
    pub d: i64,
}

/// The cell key a coordinate pair packs into.
pub open spec fn spec_cell_key(x: i64, y: i64) -> u64 {
    ((x as u32 as u64) << 32u64) | (y as u32 as u64)
}

fn cell_key(x: i64, y: i64) -> (r: u64)
    ensures
        r == spec_cell_key(x, y),
{
    ((x as u32 as u64) << 32u64) | (y as u32 as u64)
}

/// Parse one move: a direction letter and a decimal distance.
pub fn parse_move(b: &[u8], lo: usize, hi: usize) -> (r: Option<WireMove>)
    requires
        lo <= hi <= b@.len(),
    ensures
        r matches Some(m) ==> 0 <= m.d <= WIRE_RANGE && -WIRE_RANGE <= m.x <= WIRE_RANGE
            && -WIRE_RANGE <= m.y <= WIRE_RANGE,
{
    if lo >= hi {
        return None;
    }
    let (dx, dy): (i64, i64) = match b[lo] {
        68 => (0, -1),  // D
        76 => (-1, 0),  // L
        82 => (1, 0),  // R
        85 => (0, 1),  // U
        _ => {
            return None;
        },
    };
    let mut dist: i64 = 0;
    let mut i = lo + 1;
    if i >= hi {
        return None;
    }
    while i < hi
        invariant
            lo < i <= hi <= b@.len(),
            0 <= dist <= WIRE_RANGE,
        decreases hi - i,
    {
        let c = b[i];
        if c < 48 || c > 57 {
            return None;
        }
        if dist > 99999999 {
            return None;
        }
        dist = dist * 10 + (c - 48) as i64;
        i = i + 1;
    }
    Some(WireMove { x: dist * dx, y: dist * dy, d: dist })
}

/// Parse the two comma-separated move lists, one wire per line.
pub fn parse_wires(s: &str) -> (r: Option<Vec<Vec<WireMove>>>)
    requires
        s.spec_bytes().len() <= usize::MAX - 8,
    ensures
        r matches Some(ws) ==> forall|i: int, j: int|
            0 <= i < ws@.len() && 0 <= j < ws@[i]@.len() ==> move_bounded(#[trigger] ws@[i]@[j]),
{
    let b = s.as_bytes();
    let n = b.len();
    let mut wires: Vec<Vec<WireMove>> = Vec::new();
    let mut i: usize = 0;
    while i < n
        invariant
            i <= n + 1,
            n == b@.len(),
            n <= usize::MAX - 8,
            forall|p: int, q: int|
                0 <= p < wires@.len() && 0 <= q < wires@[p]@.len() ==> move_bounded(
                    #[trigger] wires@[p]@[q],
                ),
        decreases n + 1 - i,
    {
        let line_start = i;
        let mut j = i;
        while j < n && b[j] != 10
            invariant
                line_start <= j <= n,
                n == b@.len(),
            decreases n - j,
        {
            j = j + 1;
        }
        if j > line_start {
            let mut wire: Vec<WireMove> = Vec::new();
            let mut k = line_start;
            while k < j
                invariant
                    line_start <= k <= j + 1,
                    j <= n == b@.len(),
                    n <= usize::MAX - 8,
                    forall|q: int| 0 <= q < wire@.len() ==> move_bounded(#[trigger] wire@[q]),
                decreases j + 1 - k,
            {
                let seg_start = k;
                let mut m = k;
                while m < j && b[m] != 44
                    invariant
                        seg_start <= m <= j <= n,
                        n == b@.len(),
                    decreases j - m,
                {
                    m = m + 1;
                }
                match parse_move(b, seg_start, m) {
                    Some(mv) => {
                        wire.push(mv);
                    },
                    None => {
                        return None;
                    },
                }
                k = m + 1;
            }
            wires.push(wire);
        }
        i = j + 1;
    }
    Some(wires)
}

/// A move the tracer can take without leaving the allowed range.
pub open spec fn move_bounded(m: WireMove) -> bool {
    &&& 0 <= m.d <= WIRE_RANGE
    &&& -WIRE_RANGE <= m.x <= WIRE_RANGE
    &&& -WIRE_RANGE <= m.y <= WIRE_RANGE
}

/// The sparse grid of stepped-on cells: per cell, how many wires stepped
/// there and the total of their step counts; plus each crossing, recorded
/// once.
pub struct WireGrid {
    grid: HashMap<u64, (u8, i64)>,
    crossings: Vec<u64>,
}

/// Cells a single grid may hold.
const MAX_CELLS: u64 = 100000000;

impl WireGrid {
    pub fn new() -> (r: WireGrid) {
        WireGrid { grid: HashMap::new(), crossings: Vec::new() }
    }

    /// Record one step on a cell: bump its visit count and add the step
    /// total; the cell becomes a crossing on its second visit.
    fn increment_with(&mut self, key: u64, length: i64) {
        match self.grid.get(&key) {
            Some(entry) => {
                let count = entry.0;
                let total = entry.1;
                let new_count = if count < 255 {
                    count + 1
                } else {
                    count
                };
                let new_total = total.checked_add(length).unwrap_or(i64::MAX);
                self.grid.insert(key, (new_count, new_total));
                if new_count == 2 {
                    self.crossings.push(key);
                }
            },
            None => {
                self.grid.insert(key, (1, length));
            },
        }
    }

    /// Trace one wire over the grid.  A cell the same wire steps on twice
    /// counts once, with its first visit's step total.  False when the wire
    /// is too long or leaves the allowed range.
    pub fn add_wire(&mut self, wire: &Vec<WireMove>) -> (r: bool)
        requires
            forall|q: int| 0 <= q < wire@.len() ==> move_bounded(#[trigger] wire@[q]),
    {
        let mut visited: HashSet<u64> = HashSet::new();
        let mut cx: i64 = 0;
        let mut cy: i64 = 0;
        let mut t: i64 = 0;
        let mut m: usize = 0;
        while m < wire.len()
            invariant
                m <= wire@.len(),
                forall|q: int| 0 <= q < wire@.len() ==> move_bounded(#[trigger] wire@[q]),
                -WIRE_RANGE <= cx <= WIRE_RANGE,
                -WIRE_RANGE <= cy <= WIRE_RANGE,
                0 <= t,
            decreases wire@.len() - m,
        {
            let mv = wire[m];
            let dx: i64 = if mv.x > 0 {
                1
            } else if mv.x < 0 {
                -1
            } else {
                0
            };
            let dy: i64 = if mv.y > 0 {
                1
            } else if mv.y < 0 {
                -1
            } else {
                0
            };
            let mut i: i64 = 1;
            while i <= mv.d
                invariant
                    1 <= i <= mv.d + 1,
                    move_bounded(mv),
                    -WIRE_RANGE <= cx <= WIRE_RANGE,
                    -WIRE_RANGE <= cy <= WIRE_RANGE,
                    -1 <= dx <= 1,
                    -1 <= dy <= 1,
                    0 <= t,
                decreases mv.d + 1 - i,
            {
                let sx: i64 = if dx == 1 {
                    i
                } else if dx == -1 {
                    -i
                } else {
                    0
                };
                let sy: i64 = if dy == 1 {
                    i
                } else if dy == -1 {
                    -i
                } else {
                    0
                };
                let px = cx + sx;
                let py = cy + sy;
                if px < -WIRE_RANGE || px > WIRE_RANGE || py < -WIRE_RANGE || py > WIRE_RANGE {
                    return false;
                }
                if t > i64::MAX - WIRE_RANGE - 1 {
                    return false;
                }
                if self.grid.len() as u64 > MAX_CELLS {
                    return false;
                }
                let key = cell_key(px, py);
                if !visited.contains(&key) {
                    visited.insert(key);
                    self.increment_with(key, t + i);
                }
                i = i + 1;
            }
            if cx + mv.x < -WIRE_RANGE || cx + mv.x > WIRE_RANGE {
                return false;
            }
            if cy + mv.y < -WIRE_RANGE || cy + mv.y > WIRE_RANGE {
                return false;
            }
            if t > i64::MAX - WIRE_RANGE {
                return false;
            }
            cx = cx + mv.x;
            cy = cy + mv.y;
            t = t + mv.d;
            m = m + 1;
        }
        true
    }

    /// The smallest value of `measure` over the crossings.
    fn best_crossing(&self, by_length: bool) -> (r: Option<i64>) {
        let mut best: Option<i64> = None;
        let mut k: usize = 0;
        while k < self.crossings.len()
            decreases self.crossings@.len() - k,
        {
            let key = self.crossings[k];
            match self.grid.get(&key) {
                Some(entry) => {
                    let total = entry.1;
                    let value = if by_length {
                        total
                    } else {
                        // Unpack the key into Manhattan distance.
                        let x = (key >> 32u64) as u32 as i32 as i64;
                        let y = key as u32 as i32 as i64;
                        let ax = if x < 0 {
                            -x
                        } else {
                            x
                        };
                        let ay = if y < 0 {
                            -y
                        } else {
                            y
                        };
                        if ax > i64::MAX - ay {
                            i64::MAX
                        } else {
                            ax + ay
                        }
                    };
                    best = match best {
                        Some(b) => if value < b {
                            Some(value)
                        } else {
                            Some(b)
                        },
                        None => Some(value),
                    };
                },
                None => {},
            }
            k = k + 1;
        }
        best
    }
}

fn trace_wires(s: &str) -> (r: Option<WireGrid>)
    requires
        s.spec_bytes().len() <= usize::MAX - 8,
{
    let wires = parse_wires(s)?;
    let mut grid = WireGrid::new();
    let mut w: usize = 0;
    while w < wires.len()
        invariant
            w <= wires@.len(),
            forall|p: int, q: int|
                0 <= p < wires@.len() && 0 <= q < wires@[p]@.len() ==> move_bounded(
                    #[trigger] wires@[p]@[q],
                ),
        decreases wires@.len() - w,
    {
        if !grid.add_wire(&wires[w]) {
            return None;
        }
        w = w + 1;
    }
    Some(grid)
}

/// Part one: the crossing nearest the origin by Manhattan distance.
pub fn d03a(s: &str) -> (r: Option<i64>)
    requires
        s.spec_bytes().len() <= usize::MAX - 8,
{
    let grid = trace_wires(s)?;
    grid.best_crossing(false)
}

/// Part two: the crossing with the fewest combined steps to reach.
pub fn d03b(s: &str) -> (r: Option<i64>)
    requires
        s.spec_bytes().len() <= usize::MAX - 8,
{
    let grid = trace_wires(s)?;
    grid.best_crossing(true)
}

} // verus!
