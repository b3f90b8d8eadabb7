//! Day 12: the four-moon n-body simulation, and the cycle search done one
//! axis at a time.
use crate::solve::SolveError;
use itertools::Itertools;
use vstd::prelude::*;
use vstd::string::StringSliceAdditionalSpecFns;

verus! {

/// The sign of a difference, without arithmetic.
pub open spec fn spec_toward(from: i64, to: i64) -> i64 {
    if to > from {
        1
    } else if to < from {
        -1i64
    } else {
        0
    }
}

#[derive(Debug, Clone, Copy)]
pub struct Moon {
    pub position: (i64, i64, i64),
    pub velocity: (i64, i64, i64),
}

impl Moon {
    pub fn new(x: i64, y: i64, z: i64) -> (r: Moon)
        ensures
            r.position == (x, y, z),
            r.velocity == (0i64, 0i64, 0i64),
    {
        Moon { position: (x, y, z), velocity: (0, 0, 0) }
    }

    /// The sum of the coordinates' absolute values, if it fits.
    pub fn potential_energy(&self) -> (r: Option<i64>)
        ensures
            r matches Some(v) ==> v == abs_i64(self.position.0) + abs_i64(self.position.1)
                + abs_i64(self.position.2),
    {
        abs_sum3(self.position.0, self.position.1, self.position.2)
    }

    /// The sum of the velocity components' absolute values, if it fits.
    pub fn kinetic_energy(&self) -> (r: Option<i64>)
        ensures
            r matches Some(v) ==> v == abs_i64(self.velocity.0) + abs_i64(self.velocity.1)
                + abs_i64(self.velocity.2),
    {
        abs_sum3(self.velocity.0, self.velocity.1, self.velocity.2)
    }

    /// Potential plus kinetic energy, if it fits.
    pub fn total_energy(&self) -> (r: Option<i64>) {
        let p = self.potential_energy()?;
        let k = self.kinetic_energy()?;
        p.checked_add(k)
    }

    /// The unit pull another moon exerts on this one, per axis.
    pub fn gravity_effect(&self, other: &Moon) -> (r: (i64, i64, i64))
        ensures
            r.0 == spec_toward(self.position.0, other.position.0),
            r.1 == spec_toward(self.position.1, other.position.1),
            r.2 == spec_toward(self.position.2, other.position.2),
    {
        (
            toward(self.position.0, other.position.0),
            toward(self.position.1, other.position.1),
            toward(self.position.2, other.position.2),
        )
    }

    /// Add a gravity pull to the velocity; false when it cannot fit.
    pub fn apply_gravity(&mut self, gravity: (i64, i64, i64)) -> (ok: bool)
        ensures
            ok ==> final(self).velocity.0 == old(self).velocity.0 + gravity.0
                && final(self).velocity.1 == old(self).velocity.1 + gravity.1
                && final(self).velocity.2 == old(self).velocity.2 + gravity.2
                && final(self).position == old(self).position,
            !ok ==> *final(self) == *old(self),
    {
        let vx = self.velocity.0.checked_add(gravity.0);
        let vy = self.velocity.1.checked_add(gravity.1);
        let vz = self.velocity.2.checked_add(gravity.2);
        match (vx, vy, vz) {
            (Some(x), Some(y), Some(z)) => {
                self.velocity = (x, y, z);
                true
            },
            _ => false,
        }
    }

    /// Advance the position by `step` times the velocity; false when it
    /// cannot fit.
    pub fn apply_velocity(&mut self, step: i64) -> (ok: bool)
        ensures
            ok ==> final(self).position.0 == old(self).position.0 + step * old(self).velocity.0
                && final(self).position.1 == old(self).position.1 + step * old(self).velocity.1
                && final(self).position.2 == old(self).position.2 + step * old(self).velocity.2
                && final(self).velocity == old(self).velocity,
            !ok ==> *final(self) == *old(self),
    {
        let dx = match step.checked_mul(self.velocity.0) {
            Some(d) => self.position.0.checked_add(d),
            None => None,
        };
        let dy = match step.checked_mul(self.velocity.1) {
            Some(d) => self.position.1.checked_add(d),
            None => None,
        };
        let dz = match step.checked_mul(self.velocity.2) {
            Some(d) => self.position.2.checked_add(d),
            None => None,
        };
        match (dx, dy, dz) {
            (Some(x), Some(y), Some(z)) => {
                self.position = (x, y, z);
                true
            },
            _ => false,
        }
    }
}

/// The sign of the step from one coordinate toward another.
fn toward(from: i64, to: i64) -> (r: i64)
    ensures
        r == spec_toward(from, to),
{
    if to > from {
        1
    } else if to < from {
        -1
    } else {
        0
    }
}

/// The absolute value as mathematics states it.
pub open spec fn abs_i64(v: i64) -> int {
    if v >= 0 {
        v as int
    } else {
        -(v as int)
    }
}

/// The absolute values of three components, summed if everything fits.
fn abs_sum3(a: i64, b: i64, c: i64) -> (r: Option<i64>)
    ensures
        r matches Some(v) ==> v == abs_i64(a) + abs_i64(b) + abs_i64(c),
{
    if a == i64::MIN || b == i64::MIN || c == i64::MIN {
        return None;
    }
    let aa = if a < 0 {
        -a
    } else {
        a
    };
    let bb = if b < 0 {
        -b
    } else {
        b
    };
    let cc = if c < 0 {
        -c
    } else {
        c
    };
    aa.checked_add(bb)?.checked_add(cc)
}

/// The pair `(i, j)` occurs somewhere in the list.
pub open spec fn pair_listed(r: Seq<(usize, usize)>, i: usize, j: usize) -> bool {
    exists|k: int| 0 <= k < r.len() && r[k] == (i, j)
}

/// Relies on itertools' `combinations`: over `0..n` with size two it yields
/// exactly the index pairs `(i, j)` with `i < j < n`, each once.
#[verifier::external_body]
fn index_pairs(n: usize) -> (r: Vec<(usize, usize)>)
    ensures
        forall|k: int|
            0 <= k < r@.len() ==> (#[trigger] r@[k]).0 < r@[k].1 < n,
        forall|i: usize, j: usize| i < j < n ==> #[trigger] pair_listed(r@, i, j),
        forall|k: int, l: int| 0 <= k < l < r@.len() ==> r@[k] != r@[l],
{
    (0..n).combinations(2).map(|p| (p[0], p[1])).collect()
}

/// One simulation step: every pair exchanges gravity, then every moon
/// moves by its velocity.  False when a coordinate leaves the 64-bit range.
pub fn simulate_system_step(moons: &mut Vec<Moon>) -> (ok: bool)
    ensures
        final(moons)@.len() == old(moons)@.len(),
{
    let pairs = index_pairs(moons.len());
    let mut k: usize = 0;
    while k < pairs.len()
        invariant
            moons@.len() == old(moons)@.len(),
            forall|t: int| 0 <= t < pairs@.len() ==> (#[trigger] pairs@[t]).0 < pairs@[t].1
                < moons@.len(),
        decreases pairs@.len() - k,
    {
        let (i, j) = pairs[k];
        let a = moons[i];
        let b = moons[j];
        let g0 = a.gravity_effect(&b);
        let g1 = b.gravity_effect(&a);
        let mut a2 = a;
        if !a2.apply_gravity(g0) {
            return false;
        }
        let mut b2 = b;
        if !b2.apply_gravity(g1) {
            return false;
        }
        moons.set(i, a2);
        moons.set(j, b2);
        k = k + 1;
    }
    let mut m: usize = 0;
    while m < moons.len()
        invariant
            moons@.len() == old(moons)@.len(),
        decreases moons@.len() - m,
    {
        let mut moon = moons[m];
        if !moon.apply_velocity(1) {
            return false;
        }
        moons.set(m, moon);
        m = m + 1;
    }
    true
}

/// Parse a signed integer starting at position `i`; the value and the
/// position after it.
fn scan_int(b: &[u8], i: usize) -> (r: Option<(i64, usize)>)
    requires
        i <= b@.len(),
    ensures
        r matches Some(p) ==> i <= p.1 <= b@.len(),
{
    let n = b.len();
    let mut j = i;
    let mut neg = false;
    if j < n && b[j] == 45 {
        neg = true;
        j = j + 1;
    }
    let start = j;
    let mut acc: i64 = 0;
    while j < n && 48 <= b[j] && b[j] <= 57
        invariant
            start <= j <= n,
            n == b@.len(),
            0 <= acc <= 2000000000000000000,
        decreases n - j,
    {
        if acc > 100000000000000000 {
            return None;
        }
        acc = acc * 10 + (b[j] - 48) as i64;
        j = j + 1;
    }
    if j == start {
        return None;
    }
    if neg {
        Some((-acc, j))
    } else {
        Some((acc, j))
    }
}

/// Parse one `<x=..., y=..., z=...>` line into a moon.
pub fn parse_moon(b: &[u8], from: usize) -> (r: Option<Moon>)
    requires
        from <= b@.len(),
{
    let n = b.len();
    let mut i = from;
    // Find the three '=' signs and read an integer after each.
    let mut coords: [i64; 3] = [0, 0, 0];
    let mut c: usize = 0;
    while c < 3
        invariant
            i <= n,
            n == b@.len(),
            c <= 3,
        decreases 3 - c,
    {
        while i < n && b[i] != 61
            invariant
                i <= n,
                n == b@.len(),
            decreases n - i,
        {
            i = i + 1;
        }
        if i >= n {
            return None;
        }
        i = i + 1;
        let (v, j) = match scan_int(b, i) {
            Some(p) => p,
            None => {
                return None;
            },
        };
        coords[c] = v;
        i = j;
        c = c + 1;
    }
    Some(Moon::new(coords[0], coords[1], coords[2]))
}

/// Parse newline-separated moon lines; blank lines are passed over.
pub fn parse_input(s: &str) -> (r: Option<Vec<Moon>>)
    requires
        s.spec_bytes().len() <= usize::MAX - 8,
{
    let b = s.as_bytes();
    let n = b.len();
    let mut moons: Vec<Moon> = Vec::new();
    let mut i: usize = 0;
    while i < n
        invariant
            i <= n + 1,
            n == b@.len(),
            n <= usize::MAX - 8,
        decreases n + 1 - i,
    {
        let start = i;
        let mut j = i;
        while j < n && b[j] != 10
            invariant
                start <= j <= n,
                n == b@.len(),
            decreases n - j,
        {
            j = j + 1;
        }
        if j > start {
            let moon = match parse_moon(b, start) {
                Some(m) => m,
                None => {
                    return None;
                },
            };
            moons.push(moon);
        }
        i = j + 1;
    }
    Some(moons)
}

/// Sum of the total energies after `steps` simulation steps.
pub fn part_a(s: &str, steps: u64) -> (r: Result<i64, SolveError>)
    requires
        s.spec_bytes().len() <= usize::MAX - 8,
{
    let mut moons = match parse_input(s) {
        Some(m) => m,
        None => {
            return Err(SolveError::Parse);
        },
    };
    let mut step: u64 = 0;
    while step < steps
        decreases steps - step,
    {
        if !simulate_system_step(&mut moons) {
            return Err(SolveError::Protocol);
        }
        step = step + 1;
    }
    let mut sum: i64 = 0;
    let mut i: usize = 0;
    while i < moons.len()
        decreases moons@.len() - i,
    {
        let e = match moons[i].total_energy() {
            Some(e) => e,
            None => {
                return Err(SolveError::Protocol);
            },
        };
        sum = match sum.checked_add(e) {
            Some(s2) => s2,
            None => {
                return Err(SolveError::Protocol);
            },
        };
        i = i + 1;
    }
    Ok(sum)
}

pub fn x_coords(moons: &Vec<Moon>) -> (r: Vec<i64>)
    ensures
        r@ == moons@.map_values(|m: Moon| m.position.0),
{
    let mut out: Vec<i64> = Vec::new();
    let mut i: usize = 0;
    while i < moons.len()
        invariant
            i <= moons@.len(),
            out@.len() == i,
            forall|j: int| 0 <= j < i ==> out@[j] == moons@[j].position.0,
        decreases moons@.len() - i,
    {
        out.push(moons[i].position.0);
        i = i + 1;
    }
    proof {
        assert(out@ =~= moons@.map_values(|m: Moon| m.position.0));
    }
    out
}

pub fn y_coords(moons: &Vec<Moon>) -> (r: Vec<i64>)
    ensures
        r@ == moons@.map_values(|m: Moon| m.position.1),
{
    let mut out: Vec<i64> = Vec::new();
    let mut i: usize = 0;
    while i < moons.len()
        invariant
            i <= moons@.len(),
            out@.len() == i,
            forall|j: int| 0 <= j < i ==> out@[j] == moons@[j].position.1,
        decreases moons@.len() - i,
    {
        out.push(moons[i].position.1);
        i = i + 1;
    }
    proof {
        assert(out@ =~= moons@.map_values(|m: Moon| m.position.1));
    }
    out
}

pub fn z_coords(moons: &Vec<Moon>) -> (r: Vec<i64>)
    ensures
        r@ == moons@.map_values(|m: Moon| m.position.2),
{
    let mut out: Vec<i64> = Vec::new();
    let mut i: usize = 0;
    while i < moons.len()
        invariant
            i <= moons@.len(),
            out@.len() == i,
            forall|j: int| 0 <= j < i ==> out@[j] == moons@[j].position.2,
        decreases moons@.len() - i,
    {
        out.push(moons[i].position.2);
        i = i + 1;
    }
    proof {
        assert(out@ =~= moons@.map_values(|m: Moon| m.position.2));
    }
    out
}

pub fn x_velocity_zero(moons: &Vec<Moon>) -> (r: bool)
    ensures
        r == forall|j: int| 0 <= j < moons@.len() ==> (#[trigger] moons@[j]).velocity.0 == 0,
{
    let mut i: usize = 0;
    while i < moons.len()
        invariant
            i <= moons@.len(),
            forall|j: int| 0 <= j < i ==> (#[trigger] moons@[j]).velocity.0 == 0,
        decreases moons@.len() - i,
    {
        if moons[i].velocity.0 != 0 {
            return false;
        }
        i = i + 1;
    }
    true
}

pub fn y_velocity_zero(moons: &Vec<Moon>) -> (r: bool)
    ensures
        r == forall|j: int| 0 <= j < moons@.len() ==> (#[trigger] moons@[j]).velocity.1 == 0,
{
    let mut i: usize = 0;
    while i < moons.len()
        invariant
            i <= moons@.len(),
            forall|j: int| 0 <= j < i ==> (#[trigger] moons@[j]).velocity.1 == 0,
        decreases moons@.len() - i,
    {
        if moons[i].velocity.1 != 0 {
            return false;
        }
        i = i + 1;
    }
    true
}

pub fn z_velocity_zero(moons: &Vec<Moon>) -> (r: bool)
    ensures
        r == forall|j: int| 0 <= j < moons@.len() ==> (#[trigger] moons@[j]).velocity.2 == 0,
{
    let mut i: usize = 0;
    while i < moons.len()
        invariant
            i <= moons@.len(),
            forall|j: int| 0 <= j < i ==> (#[trigger] moons@[j]).velocity.2 == 0,
        decreases moons@.len() - i,
    {
        if moons[i].velocity.2 != 0 {
            return false;
        }
        i = i + 1;
    }
    true
}

/// The greatest common divisor.
pub open spec fn spec_gcd(a: nat, b: nat) -> nat
    decreases b,
{
    if b == 0 {
        a
    } else {
        spec_gcd(b, a % b)
    }
}

pub fn gcd(a: u64, b: u64) -> (r: u64)
    ensures
        r == spec_gcd(a as nat, b as nat),
    decreases b,
{
    if b == 0 {
        a
    } else {
        gcd(b, a % b)
    }
}

/// `spec_gcd` divides nothing into zero: it is positive on positive input.
proof fn lemma_gcd_pos(a: nat, b: nat)
    requires
        a > 0 || b > 0,
    ensures
        spec_gcd(a, b) > 0,
    decreases b,
{
    if b > 0 {
        lemma_gcd_pos(b, a % b);
    }
}

/// The least common multiple, if it fits.
pub fn lcm(a: u64, b: u64) -> (r: Option<u64>)
    ensures
        a > 0 && b > 0 ==> (r matches Some(v) ==> v == a as int * b as int / spec_gcd(
            a as nat,
            b as nat,
        ) as int),
{
    if a == 0 || b == 0 {
        return Some(0);
    }
    proof {
        lemma_gcd_pos(a as nat, b as nat);
    }
    let g = gcd(a, b);
    let q = a / g;
    match q.checked_mul(b) {
        Some(v) => {
            proof {
                lemma_gcd_divides(a as nat, b as nat);
                vstd::arithmetic::div_mod::lemma_fundamental_div_mod(a as int, g as int);
                assert(a as int % g as int == 0);
                assert(q as int * b as int == a as int * b as int / g as int) by (nonlinear_arith)
                    requires
                        q == a as int / g as int,
                        a as int % g as int == 0,
                        g > 0,
                        b > 0,
                        a > 0,
                ;
            }
            Some(v)
        },
        None => None,
    }
}

/// The greatest common divisor divides its first argument.
pub proof fn lemma_gcd_divides(a: nat, b: nat)
    requires
        a > 0 || b > 0,
    ensures
        spec_gcd(a, b) > 0,
        a % spec_gcd(a, b) == 0,
        b % spec_gcd(a, b) == 0,
    decreases b,
{
    lemma_gcd_pos(a, b);
    if b == 0 {
        if a > 0 {
            assert(a % a == 0) by (nonlinear_arith)
                requires
                    a > 0,
            ;
        }
    } else {
        lemma_gcd_divides(b, a % b);
        let g = spec_gcd(b, (a % b) as nat);
        vstd::arithmetic::div_mod::lemma_fundamental_div_mod(a as int, b as int);
        assert(a == b * (a as int / b as int) + a % b);
        lemma_mod_sum(a as int, b as int, g as int);
    }
}

/// If g divides b and a % b, g divides a.
proof fn lemma_mod_sum(a: int, b: int, g: int)
    requires
        b > 0,
        g > 0,
        b % g == 0,
        (a % b) % g == 0,
        a >= 0,
    ensures
        a % g == 0,
{
    vstd::arithmetic::div_mod::lemma_fundamental_div_mod(a, b);
    let q = a / b;
    let r = a % b;
    assert(a == b * q + r);
    vstd::arithmetic::div_mod::lemma_fundamental_div_mod(b, g);
    vstd::arithmetic::div_mod::lemma_fundamental_div_mod(r, g);
    let kb = b / g;
    let kr = r / g;
    assert(b == g * kb);
    assert(r == g * kr);
    assert(a == (q * kb + kr) * g) by (nonlinear_arith)
        requires
            a == b * q + r,
            b == g * kb,
            r == g * kr,
    ;
    vstd::arithmetic::div_mod::lemma_mod_multiples_basic(q * kb + kr, g);
}

/// The least common multiple of everything in the list, if it fits.
pub fn fold_lcm(v: &Vec<u64>) -> (r: Option<u64>) {
    let mut acc: u64 = 1;
    let mut i: usize = 0;
    while i < v.len()
        decreases v@.len() - i,
    {
        acc = match lcm(acc, v[i]) {
            Some(a) => a,
            None => {
                return None;
            },
        };
        i = i + 1;
    }
    Some(acc)
}

/// Steps the cycle search may take.
const MAX_CYCLE_STEPS: u64 = 1000000;

/// The number of steps until the whole system first revisits its starting
/// configuration, found axis by axis and combined with the least common
/// multiple.
pub fn part_b(s: &str) -> (r: Result<u64, SolveError>)
    requires
        s.spec_bytes().len() <= usize::MAX - 8,
{
    let mut moons = match parse_input(s) {
        Some(m) => m,
        None => {
            return Err(SolveError::Parse);
        },
    };
    let ix = x_coords(&moons);
    let iy = y_coords(&moons);
    let iz = z_coords(&moons);
    let mut found: (u64, u64, u64) = (0, 0, 0);
    let mut step: u64 = 0;
    while step < MAX_CYCLE_STEPS
        decreases MAX_CYCLE_STEPS - step,
    {
        if !simulate_system_step(&mut moons) {
            return Err(SolveError::Protocol);
        }
        step = step + 1;
        if found.0 == 0 && x_velocity_zero(&moons) {
            let c = x_coords(&moons);
            if c == ix {
                found.0 = step;
            }
        }
        if found.1 == 0 && y_velocity_zero(&moons) {
            let c = y_coords(&moons);
            if c == iy {
                found.1 = step;
            }
        }
        if found.2 == 0 && z_velocity_zero(&moons) {
            let c = z_coords(&moons);
            if c == iz {
                found.2 = step;
            }
        }
        if found.0 > 0 && found.1 > 0 && found.2 > 0 {
            let mut periods: Vec<u64> = Vec::new();
            periods.push(found.0);
            periods.push(found.1);
            periods.push(found.2);
            return match fold_lcm(&periods) {
                Some(v) => Ok(v),
                None => Err(SolveError::Protocol),
            };
        }
    }
    Err(SolveError::OutOfSteps)
}

} // verus!
