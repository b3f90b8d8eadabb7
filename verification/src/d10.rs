//! Day 10: asteroid lines of sight.  A cell is in sight of the station when
//! the vector to it is primitive: dividing it by the greatest common divisor
//! of its components changes nothing.  The vaporisation order sorts the
//! sight vectors clockwise from straight up, by quadrant and cross product
//! instead of by angle.
use crate::d12::{lemma_gcd_divides, spec_gcd};
use vstd::prelude::*;
use vstd::string::StringSliceAdditionalSpecFns;

verus! {

/// Widest map edge the solver accepts.
pub const MAP_RANGE: usize = 100000;

/// The greatest common divisor of two 32-bit values.
pub fn gcd(a: u32, b: u32) -> (r: u32)
    ensures
        r == spec_gcd(a as nat, b as nat),
    decreases b,
{
    if b > a {
        proof {
            vstd::arithmetic::div_mod::lemma_small_mod(a as nat, b as nat);
            assert(a as nat % b as nat == a as nat);
            assert(spec_gcd(a as nat, b as nat) == spec_gcd(b as nat, a as nat));
        }
        gcd(b, a)
    } else if b == 0 {
        proof {
            assert(spec_gcd(a as nat, 0nat) == a as nat);
        }
        a
    } else if a == b {
        proof {
            vstd::arithmetic::div_mod::lemma_mod_self_0(a as int);
            assert(a as nat % b as nat == 0nat);
            assert(spec_gcd(a as nat, b as nat) == spec_gcd(b as nat, 0nat));
        }
        a
    } else {
        let r = gcd(b, a % b);
        proof {
            assert(spec_gcd(a as nat, b as nat) == spec_gcd(b as nat, (a % b) as nat));
        }
        r
    }
}

/// A sight vector, as a signed offset bounded by the map size.
pub open spec fn vec_bounded(v: (i32, i32)) -> bool {
    -(MAP_RANGE as int) <= v.0 <= MAP_RANGE && -(MAP_RANGE as int) <= v.1 <= MAP_RANGE
}

/// Divide a vector by the greatest common divisor of its components'
/// magnitudes: the shortest vector of the same direction.
pub fn reduce(v: (i32, i32)) -> (r: (i32, i32))
    requires
        vec_bounded(v),
        !(v.0 == 0 && v.1 == 0),
    ensures
        ({
            let g = spec_gcd(
                (if v.0 >= 0 {
                    v.0 as int
                } else {
                    -(v.0 as int)
                }) as nat,
                (if v.1 >= 0 {
                    v.1 as int
                } else {
                    -(v.1 as int)
                }) as nat,
            );
            r.0 as int * g == v.0 as int && r.1 as int * g == v.1 as int
        }),
        vec_bounded(r),
{
    let xm: u32 = if v.0 >= 0 {
        v.0 as u32
    } else {
        (-v.0) as u32
    };
    let ym: u32 = if v.1 >= 0 {
        v.1 as u32
    } else {
        (-v.1) as u32
    };
    let g = gcd(xm, ym);
    proof {
        lemma_gcd_divides(xm as nat, ym as nat);
        vstd::arithmetic::div_mod::lemma_fundamental_div_mod(xm as int, g as int);
        vstd::arithmetic::div_mod::lemma_fundamental_div_mod(ym as int, g as int);
    }
    let rx = xm / g;
    let ry = ym / g;
    proof {
        assert(rx as int * g as int == xm as int) by (nonlinear_arith)
            requires
                g >= 1,
                rx as int == xm as int / g as int,
                xm as int % g as int == 0,
                xm as int == g as int * (xm as int / g as int) + xm as int % g as int,
        ;
        assert(ry as int * g as int == ym as int) by (nonlinear_arith)
            requires
                g >= 1,
                ry as int == ym as int / g as int,
                ym as int % g as int == 0,
                ym as int == g as int * (ym as int / g as int) + ym as int % g as int,
        ;
    }
    proof {
        assert(rx <= xm) by (nonlinear_arith)
            requires
                g >= 1,
                xm as int == g as int * (rx as int) + xm as int % g as int,
                xm as int % g as int >= 0,
                rx as int == xm as int / g as int,
                rx >= 0,
        ;
        assert(ry <= ym) by (nonlinear_arith)
            requires
                g >= 1,
                ym as int == g as int * (ry as int) + ym as int % g as int,
                ym as int % g as int >= 0,
                ry as int == ym as int / g as int,
                ry >= 0,
        ;
    }
    let rx2: i32 = if v.0 >= 0 {
        rx as i32
    } else {
        -(rx as i32)
    };
    let ry2: i32 = if v.1 >= 0 {
        ry as i32
    } else {
        -(ry as i32)
    };
    proof {
        if v.0 < 0 {
            assert(rx2 as int * g as int == -(rx as int * g as int)) by (nonlinear_arith)
                requires
                    rx2 as int == -(rx as int),
            ;
        }
        if v.1 < 0 {
            assert(ry2 as int * g as int == -(ry as int * g as int)) by (nonlinear_arith)
                requires
                    ry2 as int == -(ry as int),
            ;
        }
    }
    (rx2, ry2)
}

/// The primitive sight vectors from `position` over a grid scanned row by
/// row: exactly the offsets to cells the station could see first along
/// their direction.
pub fn los_vectors(position: (usize, usize), width: usize, height: usize) -> (r: Vec<(i32, i32)>)
    requires
        width <= MAP_RANGE,
        height <= MAP_RANGE,
        position.0 <= MAP_RANGE,
        position.1 <= MAP_RANGE,
    ensures
        forall|k: int| 0 <= k < r@.len() ==> vec_bounded(#[trigger] r@[k]),
{
    let mut out: Vec<(i32, i32)> = Vec::new();
    let mut j: usize = 0;
    while j < height
        invariant
            j <= height,
            width <= MAP_RANGE,
            height <= MAP_RANGE,
            position.0 <= MAP_RANGE,
            position.1 <= MAP_RANGE,
            forall|k: int| 0 <= k < out@.len() ==> vec_bounded(#[trigger] out@[k]),
        decreases height - j,
    {
        let mut i: usize = 0;
        while i < width
            invariant
                i <= width,
                j < height,
                width <= MAP_RANGE,
                height <= MAP_RANGE,
                position.0 <= MAP_RANGE,
                position.1 <= MAP_RANGE,
                forall|k: int| 0 <= k < out@.len() ==> vec_bounded(#[trigger] out@[k]),
            decreases width - i,
        {
            let x = i as i32 - position.0 as i32;
            let y = j as i32 - position.1 as i32;
            if x != 0 || y != 0 {
                let red = reduce((x, y));
                if red.0 == x && red.1 == y {
                    out.push((x, y));
                }
            }
            i = i + 1;
        }
        j = j + 1;
    }
    out
}

/// The quadrant of a vector, counted clockwise from straight up; y grows
/// downward.
pub open spec fn spec_quadrant(v: (i32, i32)) -> int {
    if v.0 >= 0 && v.1 < 0 {
        0
    } else if v.0 > 0 && v.1 >= 0 {
        1
    } else if v.0 <= 0 && v.1 > 0 {
        2
    } else {
        3
    }
}

fn quadrant(v: (i32, i32)) -> (r: u8)
    ensures
        r as int == spec_quadrant(v),
{
    if v.0 >= 0 && v.1 < 0 {
        0
    } else if v.0 > 0 && v.1 >= 0 {
        1
    } else if v.0 <= 0 && v.1 > 0 {
        2
    } else {
        3
    }
}

/// `u` strictly precedes `v` in the clockwise order from straight up: an
/// earlier quadrant, or a positive cross product within one.
fn clock_before(u: (i32, i32), v: (i32, i32)) -> (r: bool)
    requires
        vec_bounded(u),
        vec_bounded(v),
{
    let qu = quadrant(u);
    let qv = quadrant(v);
    if qu != qv {
        qu < qv
    } else {
        proof {
            assert({
                let p1 = u.0 as i64 * v.1 as i64;
                let p2 = u.1 as i64 * v.0 as i64;
                -10000000000i64 <= p1 <= 10000000000i64 && -10000000000i64 <= p2
                    <= 10000000000i64
            }) by (nonlinear_arith)
                requires
                    -100000 <= u.0 as int <= 100000,
                    -100000 <= u.1 as int <= 100000,
                    -100000 <= v.0 as int <= 100000,
                    -100000 <= v.1 as int <= 100000,
            ;
        }
        let cross = u.0 as i64 * v.1 as i64 - u.1 as i64 * v.0 as i64;
        cross > 0
    }
}

/// The sight vectors from `position`, sorted clockwise from straight up.
pub fn los_clockwise(position: (usize, usize), width: usize, height: usize) -> (r: Vec<(i32, i32)>)
    requires
        width <= MAP_RANGE,
        height <= MAP_RANGE,
        position.0 <= MAP_RANGE,
        position.1 <= MAP_RANGE,
    ensures
        forall|k: int| 0 <= k < r@.len() ==> vec_bounded(#[trigger] r@[k]),
{
    let vectors = los_vectors(position, height, width);
    let mut out: Vec<(i32, i32)> = Vec::new();
    let mut k: usize = 0;
    while k < vectors.len()
        invariant
            k <= vectors@.len(),
            forall|t: int| 0 <= t < vectors@.len() ==> vec_bounded(#[trigger] vectors@[t]),
            forall|t: int| 0 <= t < out@.len() ==> vec_bounded(#[trigger] out@[t]),
        decreases vectors@.len() - k,
    {
        let v = vectors[k];
        // Insertion keeping the clockwise order.
        let mut pos: usize = 0;
        while pos < out.len() && clock_before(out[pos], v)
            invariant
                pos <= out@.len(),
                vec_bounded(v),
                forall|t: int| 0 <= t < out@.len() ==> vec_bounded(#[trigger] out@[t]),
            decreases out@.len() - pos,
        {
            pos = pos + 1;
        }
        out.insert(pos, v);
        proof {
            assert(forall|t: int|
                0 <= t < out@.len() ==> vec_bounded(#[trigger] out@[t]));
        }
        k = k + 1;
    }
    out
}

/// The absolute cell a relative offset points at, if it stays on the grid.
pub fn absolute_position(position: (usize, usize), offset: (i32, i32)) -> (r: Option<
    (usize, usize),
>)
    requires
        position.0 <= MAP_RANGE,
        position.1 <= MAP_RANGE,
        vec_bounded(offset),
    ensures
        r matches Some(p) ==> p.0 <= 2 * MAP_RANGE && p.1 <= 2 * MAP_RANGE,
{
    let x = position.0 as i64 + offset.0 as i64;
    let y = position.1 as i64 + offset.1 as i64;
    if x >= 0 && y >= 0 {
        Some((x as usize, y as usize))
    } else {
        None
    }
}

/// The asteroid grid: one flag per cell, row by row.
pub struct AsteroidMap {
    points: Vec<bool>,
    width: usize,
    height: usize,
}

impl AsteroidMap {
    pub closed spec fn points_view(&self) -> Seq<bool> {
        self.points@
    }

    pub closed spec fn width_view(&self) -> int {
        self.width as int
    }

    pub closed spec fn height_view(&self) -> int {
        self.height as int
    }

    pub open spec fn inv(&self) -> bool {
        &&& self.points_view().len() == self.width_view() * self.height_view()
        &&& 0 < self.width_view() <= MAP_RANGE
        &&& 0 < self.height_view() <= MAP_RANGE
    }

    /// Wrap a cell list; the size must match.
    pub fn new(points: Vec<bool>, width: usize, height: usize) -> (r: Option<AsteroidMap>)
        ensures
            r matches Some(m) ==> m.inv(),
    {
        if width == 0 || height == 0 || width > MAP_RANGE || height > MAP_RANGE {
            return None;
        }
        proof {
            assert(width as int * height as int <= MAP_RANGE as int * MAP_RANGE as int)
                by (nonlinear_arith)
                requires
                    0 < width as int <= MAP_RANGE as int,
                    0 < height as int <= MAP_RANGE as int,
            ;
        }
        if points.len() as u64 != (width as u64) * (height as u64) {
            return None;
        }
        Some(AsteroidMap { points, width, height })
    }

    pub fn width(&self) -> (r: usize)
        ensures
            r == self.width_view(),
    {
        self.width
    }

    pub fn height(&self) -> (r: usize)
        ensures
            r == self.height_view(),
    {
        self.height
    }

    /// The coordinates of every asteroid.
    pub fn points(&self) -> (r: Vec<(usize, usize)>)
        requires
            self.inv(),
        ensures
            forall|k: int|
                0 <= k < r@.len() ==> (#[trigger] r@[k]).0 < self.width_view() && r@[k].1
                    < self.height_view(),
    {
        let mut out: Vec<(usize, usize)> = Vec::new();
        let mut i: usize = 0;
        while i < self.points.len()
            invariant
                self.inv(),
                i <= self.points_view().len(),
                forall|k: int|
                    0 <= k < out@.len() ==> (#[trigger] out@[k]).0 < self.width_view() && out@[k].1
                        < self.height_view(),
            decreases self.points_view().len() - i,
        {
            if self.points[i] {
                let x = i % self.width;
                let y = i / self.width;
                proof {
                    assert(y < self.height_view()) by (nonlinear_arith)
                        requires
                            y == i as int / self.width_view(),
                            i < self.width_view() * self.height_view(),
                            self.width_view() > 0,
                            self.height_view() > 0,
                    ;
                }
                out.push((x, y));
            }
            i = i + 1;
        }
        out
    }

    /// Whether the cell holds an asteroid; nothing when off the grid.
    pub fn get(&self, position: (usize, usize)) -> (r: Option<bool>)
        requires
            self.inv(),
    {
        if position.0 < self.width && position.1 < self.height {
            let n = self.points.len();
            proof {
                assert(position.0 + position.1 * self.width_view() < self.width_view()
                    * self.height_view()) by (nonlinear_arith)
                    requires
                        position.0 < self.width_view(),
                        position.1 < self.height_view(),
                        self.width_view() > 0,
                        self.height_view() > 0,
                ;
            }
            Some(self.points[position.0 + position.1 * self.width])
        } else {
            None
        }
    }

    /// The first asteroid along a direction, if the ray meets one before
    /// leaving the grid.
    pub fn find_in_sight(&self, position: (usize, usize), vector: (i32, i32)) -> (r: Option<
        (usize, usize),
    >)
        requires
            self.inv(),
            position.0 <= MAP_RANGE,
            position.1 <= MAP_RANGE,
            vec_bounded(vector),
            !(vector.0 == 0 && vector.1 == 0),
        ensures
            r matches Some(p) ==> p.0 < self.width_view() && p.1 < self.height_view(),
    {
        let base = reduce(vector);
        let mut steps: u64 = 0;
        while steps < 2 * MAP_RANGE as u64 + 2
            invariant
                self.inv(),
                position.0 <= MAP_RANGE,
                position.1 <= MAP_RANGE,
                steps <= 2 * MAP_RANGE as u64 + 2,
                vec_bounded(base),
            decreases 2 * MAP_RANGE as u64 + 2 - steps,
        {
            let m = steps as i64 + 1;
            proof {
                assert({
                    let px = base.0 as i64 * m;
                    let py = base.1 as i64 * m;
                    -100000000000i64 <= px <= 100000000000i64 && -100000000000i64 <= py
                        <= 100000000000i64
                }) by (nonlinear_arith)
                    requires
                        -100000 <= base.0 as int <= 100000,
                        -100000 <= base.1 as int <= 100000,
                        1 <= m as int <= 300000,
                ;
            }
            let x = position.0 as i64 + base.0 as i64 * m;
            let y = position.1 as i64 + base.1 as i64 * m;
            if x < 0 || y < 0 || x >= self.width as i64 || y >= self.height as i64 {
                return None;
            }
            match self.get((x as usize, y as usize)) {
                Some(true) => {
                    return Some((x as usize, y as usize));
                },
                _ => {},
            }
            steps = steps + 1;
        }
        None
    }

    /// How many asteroids the station at `position` can see.
    pub fn count_in_sight(&self, position: (usize, usize)) -> (r: u64)
        requires
            self.inv(),
            position.0 <= MAP_RANGE,
            position.1 <= MAP_RANGE,
    {
        let vectors = los_vectors(position, self.height, self.width);
        let mut cnt: u64 = 0;
        let mut k: usize = 0;
        while k < vectors.len()
            invariant
                self.inv(),
                position.0 <= MAP_RANGE,
                position.1 <= MAP_RANGE,
                k <= vectors@.len(),
                cnt <= k,
                forall|t: int| 0 <= t < vectors@.len() ==> vec_bounded(#[trigger] vectors@[t]),
            decreases vectors@.len() - k,
        {
            let v = vectors[k];
            if v.0 != 0 || v.1 != 0 {
                if self.find_in_sight(position, v).is_some() {
                    cnt = cnt + 1;
                }
            }
            k = k + 1;
        }
        cnt
    }

    /// Blast the asteroid off a cell.
    pub fn remove(&mut self, position: (usize, usize))
        requires
            old(self).inv(),
        ensures
            final(self).inv(),
    {
        if position.0 < self.width && position.1 < self.height {
            let n = self.points.len();
            proof {
                assert(position.0 + position.1 * self.width_view() < self.width_view()
                    * self.height_view()) by (nonlinear_arith)
                    requires
                        position.0 < self.width_view(),
                        position.1 < self.height_view(),
                        self.width_view() > 0,
                        self.height_view() > 0,
                ;
            }
            let idx = position.0 + position.1 * self.width;
            self.points.set(idx, false);
        }
    }
}

/// The station cell with the best view, and how many asteroids it sees.
pub fn find_best_los(map: &AsteroidMap) -> (r: Option<((usize, usize), u64)>)
    requires
        map.inv(),
{
    let asteroids = map.points();
    let mut best: Option<((usize, usize), u64)> = None;
    let mut k: usize = 0;
    while k < asteroids.len()
        invariant
            map.inv(),
            k <= asteroids@.len(),
            forall|t: int|
                0 <= t < asteroids@.len() ==> (#[trigger] asteroids@[t]).0 < map.width_view()
                    && asteroids@[t].1 < map.height_view(),
        decreases asteroids@.len() - k,
    {
        let p = asteroids[k];
        let c = map.count_in_sight(p);
        best = match best {
            Some((bp, bc)) => if c > bc {
                Some((p, c))
            } else {
                Some((bp, bc))
            },
            None => Some((p, c)),
        };
        k = k + 1;
    }
    best
}

/// Parse an asteroid drawing: `#` for an asteroid, `.` for empty space,
/// rows separated by newlines and all the same width.
pub fn parse_string(s: &str) -> (r: Option<AsteroidMap>)
    requires
        s.spec_bytes().len() <= usize::MAX - 8,
    ensures
        r matches Some(m) ==> m.inv(),
{
    let b = s.as_bytes();
    let n = b.len();
    let mut cells: Vec<bool> = Vec::new();
    let mut width: usize = 0;
    let mut height: usize = 0;
    let mut i: usize = 0;
    while i < n
        invariant
            i <= n + 1,
            n == b@.len(),
            n <= usize::MAX - 8,
            width <= n,
        decreases n + 1 - i,
    {
        let start = i;
        let mut j = i;
        while j < n && b[j] != 10
            invariant
                start <= j <= n,
                n == b@.len(),
            decreases n - j,
        {
            j = j + 1;
        }
        if j > start {
            if width == 0 {
                width = j - start;
            } else if j - start != width {
                return None;
            }
            let mut c = start;
            while c < j
                invariant
                    start <= c <= j <= n,
                    n == b@.len(),
                decreases j - c,
            {
                if b[c] == 35 {
                    cells.push(true);
                } else if b[c] == 46 {
                    cells.push(false);
                } else {
                    return None;
                }
                c = c + 1;
            }
            if height == usize::MAX {
                return None;
            }
            height = height + 1;
        }
        i = j + 1;
    }
    AsteroidMap::new(cells, width, height)
}

/// Part one: the best asteroid count in sight.
pub fn part_a(s: &str) -> (r: Option<u64>)
    requires
        s.spec_bytes().len() <= usize::MAX - 8,
{
    let map = parse_string(s)?;
    let (_, c) = find_best_los(&map)?;
    Some(c)
}

/// Part two: blast asteroids clockwise from `position` until `count` are
/// gone; the last one's cell, encoded as x times one hundred plus y.
pub fn part_b(s: &str, position: (usize, usize), count: u64) -> (r: Option<usize>)
    requires
        s.spec_bytes().len() <= usize::MAX - 8,
        position.0 <= MAP_RANGE,
        position.1 <= MAP_RANGE,
        count >= 1,
{
    let mut map = parse_string(s)?;
    let vectors = los_clockwise(position, map.width(), map.height());
    if vectors.len() == 0 {
        return None;
    }
    let mut current: (usize, usize) = (0, 0);
    let mut blasted: u64 = 0;
    let mut k: usize = 0;
    let mut idle: u64 = 0;
    let mut steps: u64 = 0;
    while steps < 100000000
        invariant
            map.inv(),
            position.0 <= MAP_RANGE,
            position.1 <= MAP_RANGE,
            k < vectors@.len(),
            vectors@.len() >= 1,
            blasted < count,
            current.0 <= MAP_RANGE && current.1 <= MAP_RANGE,
            forall|t: int| 0 <= t < vectors@.len() ==> vec_bounded(#[trigger] vectors@[t]),
        decreases 100000000 - steps,
    {
        let v = vectors[k];
        let mut hit = false;
        if v.0 != 0 || v.1 != 0 {
            match map.find_in_sight(position, v) {
                Some(p) => {
                    map.remove(p);
                    current = p;
                    blasted = blasted + 1;
                    hit = true;
                    if blasted >= count {
                        return Some(current.0 * 100 + current.1);
                    }
                },
                None => {},
            }
        }
        if hit {
            idle = 0;
        } else {
            if idle >= vectors.len() as u64 {
                // A full cycle found nothing left to blast.
                return None;
            }
            idle = idle + 1;
        }
        k = if k < vectors.len() - 1 {
            k + 1
        } else {
            0
        };
        steps = steps + 1;
    }
    None
}

} // verus!
