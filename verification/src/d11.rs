//! Day 11: the hull-painting robot.  A machine reads the colour under the
//! robot, paints, turns and steps; the panel records white squares and every
//! square ever painted.
use crate::intcode::{wf, Intcode, RunState};
use crate::solve::{SolveError, DEFAULT_BUDGET};
use vstd::prelude::*;
use vstd::string::StringSliceAdditionalSpecFns;

verus! {

/// Furthest coordinate the robot is allowed to reach.
pub const PANEL_RANGE: i64 = 2000000;

pub open spec fn sq_in(s: Seq<(i64, i64)>, c: (i64, i64)) -> bool {
    exists|i: int| 0 <= i < s.len() && s[i] == c
}

pub open spec fn squares_unique(s: Seq<(i64, i64)>) -> bool {
    forall|i: int, j: int| 0 <= i < j < s.len() ==> #[trigger] s[i] != #[trigger] s[j]
}

pub open spec fn squares_bounded(s: Seq<(i64, i64)>) -> bool {
    forall|i: int|
        0 <= i < s.len() ==> -PANEL_RANGE <= (#[trigger] s[i]).0 <= PANEL_RANGE && -PANEL_RANGE
            <= s[i].1 <= PANEL_RANGE
}

pub struct Panel {
    panel: Vec<(i64, i64)>,
    painted: Vec<(i64, i64)>,
}

#[derive(Debug, Clone, Copy, PartialEq, Eq, Structural)]
pub enum Direction {
    Down,
    Left,
    Right,
    Up,
}

impl Direction {
    /// A quarter turn, clockwise or counter-clockwise.
    pub fn turn(&self, clockwise: bool) -> (r: Direction)
        ensures
            r == (match self {
                Direction::Down => if clockwise {
                    Direction::Left
                } else {
                    Direction::Right
                },
                Direction::Left => if clockwise {
                    Direction::Up
                } else {
                    Direction::Down
                },
                Direction::Right => if clockwise {
                    Direction::Down
                } else {
                    Direction::Up
                },
                Direction::Up => if clockwise {
                    Direction::Right
                } else {
                    Direction::Left
                },
            }),
    {
        match self {
            Direction::Down => if clockwise {
                Direction::Left
            } else {
                Direction::Right
            },
            Direction::Left => if clockwise {
                Direction::Up
            } else {
                Direction::Down
            },
            Direction::Right => if clockwise {
                Direction::Down
            } else {
                Direction::Up
            },
            Direction::Up => if clockwise {
                Direction::Right
            } else {
                Direction::Left
            },
        }
    }

    /// One step ahead; y grows downward.
    pub fn move_from(&self, position: (i64, i64)) -> (r: (i64, i64))
        requires
            -PANEL_RANGE < position.0 < PANEL_RANGE,
            -PANEL_RANGE < position.1 < PANEL_RANGE,
        ensures
            r == (match self {
                Direction::Down => ((position.0 + 0) as i64, (position.1 + 1) as i64),
                Direction::Left => ((position.0 - 1) as i64, (position.1 + 0) as i64),
                Direction::Right => ((position.0 + 1) as i64, (position.1 + 0) as i64),
                Direction::Up => ((position.0 + 0) as i64, (position.1 - 1) as i64),
            }),
    {
        match self {
            Direction::Down => (position.0, position.1 + 1),
            Direction::Left => (position.0 - 1, position.1),
            Direction::Right => (position.0 + 1, position.1),
            Direction::Up => (position.0, position.1 - 1),
        }
    }
}

impl Panel {
    pub closed spec fn white_view(&self) -> Seq<(i64, i64)> {
        self.panel@
    }

    pub closed spec fn painted_view(&self) -> Seq<(i64, i64)> {
        self.painted@
    }

    pub open spec fn inv(&self) -> bool {
        &&& squares_unique(self.white_view())
        &&& squares_unique(self.painted_view())
        &&& squares_bounded(self.white_view())
        &&& squares_bounded(self.painted_view())
    }

    pub fn new() -> (r: Panel)
        ensures
            r.inv(),
            r.white_view().len() == 0,
            r.painted_view().len() == 0,
    {
        Panel { panel: Vec::new(), painted: Vec::new() }
    }

    /// Whether a square is currently white.
    pub fn get(&self, square: (i64, i64)) -> (r: bool)
        ensures
            r == sq_in(self.white_view(), square),
    {
        contains_square(&self.panel, square)
    }

    /// Paint a square white or black; a white square is also recorded as
    /// painted, once.
    pub fn set(&mut self, position: (i64, i64), value: bool)
        requires
            old(self).inv(),
            -PANEL_RANGE <= position.0 <= PANEL_RANGE,
            -PANEL_RANGE <= position.1 <= PANEL_RANGE,
        ensures
            final(self).inv(),
            sq_in(final(self).white_view(), position) == value,
            value ==> sq_in(final(self).painted_view(), position),
            forall|q: (i64, i64)|
                q != position ==> #[trigger] sq_in(final(self).white_view(), q) == sq_in(
                    old(self).white_view(),
                    q,
                ),
            forall|q: (i64, i64)|
                #[trigger] sq_in(old(self).painted_view(), q) ==> sq_in(
                    final(self).painted_view(),
                    q,
                ),
            forall|q: (i64, i64)|
                #[trigger] sq_in(final(self).painted_view(), q) ==> sq_in(
                    old(self).painted_view(),
                    q,
                ) || q == position,
            !value ==> final(self).painted_view() == old(self).painted_view(),
    {
        if value {
            if !contains_square(&self.panel, position) {
                let ghost pre = self.panel@;
                self.panel.push(position);
                proof {
                    let n = self.panel@.len() - 1;
                    assert(self.panel@[n] == position);
                    assert(sq_in(self.panel@, position));
                    assert forall|a: int, b: int| 0 <= a < b < self.panel@.len() implies #[trigger] self.panel@[a]
                        != #[trigger] self.panel@[b] by {
                        if b == n {
                            assert(self.panel@[a] == pre[a]);
                        }
                    }
                    assert forall|q: (i64, i64)| q != position implies #[trigger] sq_in(
                        self.panel@,
                        q,
                    ) == sq_in(pre, q) by {
                        if sq_in(pre, q) {
                            let j = choose|j: int| 0 <= j < pre.len() && pre[j] == q;
                            assert(self.panel@[j] == q);
                        }
                        if sq_in(self.panel@, q) {
                            let j = choose|j: int| 0 <= j < self.panel@.len() && self.panel@[j]
                                == q;
                            assert(j != n);
                            assert(pre[j] == q);
                        }
                    }
                }
            } else {
                proof {
                    assert(sq_in(self.panel@, position));
                }
            }
            if !contains_square(&self.painted, position) {
                let ghost pre = self.painted@;
                self.painted.push(position);
                proof {
                    let n = self.painted@.len() - 1;
                    assert(self.painted@[n] == position);
                    assert(sq_in(self.painted@, position));
                    assert forall|a: int, b: int| 0 <= a < b < self.painted@.len() implies #[trigger] self.painted@[a]
                        != #[trigger] self.painted@[b] by {
                        if b == n {
                            assert(self.painted@[a] == pre[a]);
                        }
                    }
                    assert forall|q: (i64, i64)| #[trigger] sq_in(pre, q) implies sq_in(
                        self.painted@,
                        q,
                    ) by {
                        let j = choose|j: int| 0 <= j < pre.len() && pre[j] == q;
                        assert(self.painted@[j] == q);
                    }
                    assert forall|q: (i64, i64)| #[trigger] sq_in(self.painted@, q) implies sq_in(
                        pre,
                        q,
                    ) || q == position by {
                        let j = choose|j: int| 0 <= j < self.painted@.len() && self.painted@[j]
                            == q;
                        if j != n {
                            assert(pre[j] == q);
                        }
                    }
                }
            }
        } else {
            remove_square(&mut self.panel, position);
        }
    }

    /// How many squares have ever been painted white.
    pub fn total_painted(&self) -> (r: usize)
        ensures
            r == self.painted_view().len(),
    {
        self.painted.len()
    }

    /// The lowest y any white square has, if any is white.
    pub fn bottom(&self) -> (r: Option<i64>)
        requires
            self.inv(),
        ensures
            r is Some <==> self.white_view().len() > 0,
            r matches Some(v) ==> -PANEL_RANGE <= v <= PANEL_RANGE,
    {
        let mut best: Option<i64> = None;
        let mut i: usize = 0;
        while i < self.panel.len()
            invariant
                i <= self.panel@.len(),
                best is Some <==> i > 0 && self.panel@.len() > 0,
                self.inv(),
                best matches Some(b) ==> -PANEL_RANGE <= b <= PANEL_RANGE,
            decreases self.panel@.len() - i,
        {
            let y = self.panel[i].1;
            best = match best {
                Some(b) => if y < b {
                    Some(y)
                } else {
                    Some(b)
                },
                None => Some(y),
            };
            i = i + 1;
        }
        best
    }

    /// The lowest x any white square has, if any is white.
    pub fn left(&self) -> (r: Option<i64>)
        requires
            self.inv(),
        ensures
            r is Some <==> self.white_view().len() > 0,
            r matches Some(v) ==> -PANEL_RANGE <= v <= PANEL_RANGE,
    {
        let mut best: Option<i64> = None;
        let mut i: usize = 0;
        while i < self.panel.len()
            invariant
                i <= self.panel@.len(),
                best is Some <==> i > 0 && self.panel@.len() > 0,
                self.inv(),
                best matches Some(b) ==> -PANEL_RANGE <= b <= PANEL_RANGE,
            decreases self.panel@.len() - i,
        {
            let x = self.panel[i].0;
            best = match best {
                Some(b) => if x < b {
                    Some(x)
                } else {
                    Some(b)
                },
                None => Some(x),
            };
            i = i + 1;
        }
        best
    }

    /// The highest x any white square has, if any is white.
    pub fn right(&self) -> (r: Option<i64>)
        requires
            self.inv(),
        ensures
            r is Some <==> self.white_view().len() > 0,
            r matches Some(v) ==> -PANEL_RANGE <= v <= PANEL_RANGE,
    {
        let mut best: Option<i64> = None;
        let mut i: usize = 0;
        while i < self.panel.len()
            invariant
                i <= self.panel@.len(),
                best is Some <==> i > 0 && self.panel@.len() > 0,
                self.inv(),
                best matches Some(b) ==> -PANEL_RANGE <= b <= PANEL_RANGE,
            decreases self.panel@.len() - i,
        {
            let x = self.panel[i].0;
            best = match best {
                Some(b) => if x > b {
                    Some(x)
                } else {
                    Some(b)
                },
                None => Some(x),
            };
            i = i + 1;
        }
        best
    }

    /// The highest y any white square has, if any is white.
    pub fn top(&self) -> (r: Option<i64>)
        requires
            self.inv(),
        ensures
            r is Some <==> self.white_view().len() > 0,
            r matches Some(v) ==> -PANEL_RANGE <= v <= PANEL_RANGE,
    {
        let mut best: Option<i64> = None;
        let mut i: usize = 0;
        while i < self.panel.len()
            invariant
                i <= self.panel@.len(),
                best is Some <==> i > 0 && self.panel@.len() > 0,
                self.inv(),
                best matches Some(b) ==> -PANEL_RANGE <= b <= PANEL_RANGE,
            decreases self.panel@.len() - i,
        {
            let y = self.panel[i].1;
            best = match best {
                Some(b) => if y > b {
                    Some(y)
                } else {
                    Some(b)
                },
                None => Some(y),
            };
            i = i + 1;
        }
        best
    }

    /// The white squares drawn row by row, `true` for white; rows run from
    /// the lowest to the highest y present, columns left to right.
    pub fn render(&self) -> (r: Option<Vec<Vec<bool>>>)
        requires
            self.inv(),
        ensures
            r is Some <==> self.white_view().len() > 0,
    {
        let b = match self.bottom() {
            Some(v) => v,
            None => {
                return None;
            },
        };
        let l = match self.left() {
            Some(v) => v,
            None => {
                return None;
            },
        };
        let rr = match self.right() {
            Some(v) => v,
            None => {
                return None;
            },
        };
        let t = match self.top() {
            Some(v) => v,
            None => {
                return None;
            },
        };
        let (lo_y, hi_y) = if b <= t {
            (b, t)
        } else {
            (t, b)
        };
        let (lo_x, hi_x) = if l <= rr {
            (l, rr)
        } else {
            (rr, l)
        };
        let mut rows: Vec<Vec<bool>> = Vec::new();
        let mut y = lo_y;
        loop
            invariant
                lo_y <= y <= hi_y + 1,
                -PANEL_RANGE * 2 <= lo_y <= hi_y + 1 <= PANEL_RANGE * 2,
                -PANEL_RANGE * 2 <= lo_x <= hi_x <= PANEL_RANGE * 2,
            decreases hi_y + 1 - y,
        {
            if y > hi_y {
                break;
            }
            let mut row: Vec<bool> = Vec::new();
            let mut x = lo_x;
            loop
                invariant
                    lo_x <= x <= hi_x + 1,
                    -PANEL_RANGE * 2 <= lo_x <= hi_x + 1 <= PANEL_RANGE * 2 + 1,
                decreases hi_x + 1 - x,
            {
                if x > hi_x {
                    break;
                }
                row.push(contains_square(&self.panel, (x, y)));
                x = x + 1;
            }
            rows.push(row);
            y = y + 1;
        }
        Some(rows)
    }
}

/// Whether the square list holds `c`.
fn contains_square(s: &Vec<(i64, i64)>, c: (i64, i64)) -> (r: bool)
    ensures
        r == sq_in(s@, c),
{
    let mut i: usize = 0;
    while i < s.len()
        invariant
            i <= s@.len(),
            forall|j: int| 0 <= j < i ==> s@[j] != c,
        decreases s@.len() - i,
    {
        let e = s[i];
        if e.0 == c.0 && e.1 == c.1 {
            proof {
                assert(s@[i as int] == c);
            }
            return true;
        }
        i = i + 1;
    }
    false
}

/// Remove the square `c` if present; every other square is untouched.
fn remove_square(s: &mut Vec<(i64, i64)>, c: (i64, i64))
    requires
        squares_unique(old(s)@),
        squares_bounded(old(s)@),
    ensures
        squares_unique(final(s)@),
        squares_bounded(final(s)@),
        !sq_in(final(s)@, c),
        forall|q: (i64, i64)| q != c ==> #[trigger] sq_in(final(s)@, q) == sq_in(old(s)@, q),
{
    let mut i: usize = 0;
    while i < s.len()
        invariant
            i <= s@.len(),
            s@ == old(s)@,
            squares_unique(s@),
            squares_bounded(s@),
            forall|j: int| 0 <= j < i ==> s@[j] != c,
        decreases s@.len() - i,
    {
        let e = s[i];
        if e.0 == c.0 && e.1 == c.1 {
            let ghost pre = s@;
            s.remove(i);
            proof {
                assert forall|j: int| 0 <= j < s@.len() implies s@[j] != c by {
                    if j < i {
                        assert(s@[j] == pre[j]);
                    } else {
                        assert(s@[j] == pre[j + 1]);
                    }
                }
                assert(squares_unique(s@)) by {
                    assert forall|a: int, b2: int| 0 <= a < b2 < s@.len() implies #[trigger] s@[a]
                        != #[trigger] s@[b2] by {
                        let a0 = if a < i {
                            a
                        } else {
                            a + 1
                        };
                        let b0 = if b2 < i {
                            b2
                        } else {
                            b2 + 1
                        };
                        assert(s@[a] == pre[a0]);
                        assert(s@[b2] == pre[b0]);
                    }
                }
                assert forall|j: int|
                    0 <= j < s@.len() implies -PANEL_RANGE <= (#[trigger] s@[j]).0 <= PANEL_RANGE
                    && -PANEL_RANGE <= s@[j].1 <= PANEL_RANGE by {
                    if j < i {
                        assert(s@[j] == pre[j]);
                    } else {
                        assert(s@[j] == pre[j + 1]);
                    }
                }
                assert forall|q: (i64, i64)| q != c implies #[trigger] sq_in(s@, q) == sq_in(
                    pre,
                    q,
                ) by {
                    if sq_in(pre, q) {
                        let j = choose|j: int| 0 <= j < pre.len() && pre[j] == q;
                        if j < i {
                            assert(s@[j] == q);
                        } else {
                            assert(j != i);
                            assert(s@[j - 1] == q);
                        }
                        assert(sq_in(s@, q));
                    }
                    if sq_in(s@, q) {
                        let j = choose|j: int| 0 <= j < s@.len() && s@[j] == q;
                        if j < i {
                            assert(pre[j] == q);
                        } else {
                            assert(pre[j + 1] == q);
                        }
                        assert(sq_in(pre, q));
                    }
                }
            }
            return ;
        }
        i = i + 1;
    }
}

/// Turn a machine output into a colour or turn flag.
pub fn to_bool(v: i64) -> (r: Result<bool, SolveError>)
    ensures
        v == 0 ==> r == Result::<bool, SolveError>::Ok(false),
        v == 1 ==> r == Result::<bool, SolveError>::Ok(true),
        v != 0 && v != 1 ==> r is Err,
{
    if v == 0 {
        Ok(false)
    } else if v == 1 {
        Ok(true)
    } else {
        Err(SolveError::Protocol)
    }
}

/// Steps the robot is allowed.
const MAX_STEPS: u64 = 1000000;

/// Drive the painting robot over a hull with the given squares already
/// white, until its program halts.
pub fn paint_hull(text: &str, initial: &Vec<(i64, i64)>) -> (r: Result<Panel, SolveError>)
    requires
        text.spec_bytes().len() <= usize::MAX - 8,
        squares_bounded(initial@),
    ensures
        r is Ok ==> r.unwrap().inv(),
        !crate::parse::valid_program(text.spec_bytes()) ==> (r matches Err(e) && e
            == SolveError::Parse),
{
    let mut program = match Intcode::from_text(text) {
        Ok(m) => m,
        Err(_) => {
            return Err(SolveError::Parse);
        },
    };
    let mut panel = Panel::new();
    let mut i: usize = 0;
    while i < initial.len()
        invariant
            panel.inv(),
            squares_bounded(initial@),
            i <= initial@.len(),
        decreases initial@.len() - i,
    {
        panel.set(initial[i], true);
        i = i + 1;
    }
    let mut position: (i64, i64) = (0, 0);
    let mut direction = Direction::Up;
    let mut steps: u64 = 0;
    while steps < MAX_STEPS
        invariant
            wf(program@),
            panel.inv(),
            crate::parse::valid_program(text.spec_bytes()),
            steps <= MAX_STEPS,
            -(steps as i64) - 1 <= position.0 <= steps as i64 + 1,
            -(steps as i64) - 1 <= position.1 <= steps as i64 + 1,
        decreases MAX_STEPS - steps,
    {
        let colour: i64 = if panel.get(position) {
            1
        } else {
            0
        };
        let input: [i64; 1] = [colour];
        match program.run(input.as_slice(), DEFAULT_BUDGET) {
            Ok(RunState::OutOfSteps) => {
                return Err(SolveError::OutOfSteps);
            },
            Err(e) => {
                return Err(SolveError::Exec(e));
            },
            _ => {},
        }
        let out = program.drain();
        if out.len() == 2 {
            let paint = match to_bool(out[0]) {
                Ok(b) => b,
                Err(e) => {
                    return Err(e);
                },
            };
            let clockwise = match to_bool(out[1]) {
                Ok(b) => b,
                Err(e) => {
                    return Err(e);
                },
            };
            panel.set(position, paint);
            direction = direction.turn(clockwise);
            position = direction.move_from(position);
        } else if program.finished() {
            return Ok(panel);
        } else {
            return Err(SolveError::Protocol);
        }
        steps = steps + 1;
    }
    Err(SolveError::OutOfSteps)
}

/// Part one: how many squares get painted starting from an all-black hull.
pub fn d11a(text: &str) -> (r: Result<usize, SolveError>)
    requires
        text.spec_bytes().len() <= usize::MAX - 8,
    ensures
        !crate::parse::valid_program(text.spec_bytes()) ==> r == Result::<
            usize,
            SolveError,
        >::Err(SolveError::Parse),
{
    let panel = paint_hull(text, &Vec::new())?;
    Ok(panel.total_painted())
}

/// Part two: the registration identifier, painted starting from a single
/// white square, rendered row by row.
pub fn d11b(text: &str) -> (r: Result<Vec<Vec<bool>>, SolveError>)
    requires
        text.spec_bytes().len() <= usize::MAX - 8,
    ensures
        !crate::parse::valid_program(text.spec_bytes()) ==> r == Result::<
            Vec<Vec<bool>>,
            SolveError,
        >::Err(SolveError::Parse),
{
    let mut start: Vec<(i64, i64)> = Vec::new();
    start.push((0, 0));
    let panel = paint_hull(text, &start)?;
    match panel.render() {
        Some(rows) => Ok(rows),
        None => Err(SolveError::Protocol),
    }
}

} // verus!
