//! Day 22: shuffling a huge deck by composing the moves into one linear
//! expression over a prime modulus.
use crate::d12::spec_gcd;
use vstd::prelude::*;
use vstd::string::StringSliceAdditionalSpecFns;

verus! {

/// Congruence is symmetric.
proof fn lemma_cong_sym(a: int, b: int, m: int)
    requires
        m > 0,
        (a - b) % m == 0,
    ensures
        (b - a) % m == 0,
{
    vstd::arithmetic::div_mod::lemma_fundamental_div_mod(a - b, m);
    let k = (a - b) / m;
    assert(b - a == m * (-k)) by (nonlinear_arith)
        requires
            a - b == m * k,
    ;
    vstd::arithmetic::div_mod::lemma_mod_multiples_basic(-k, m);
}

/// Congruence is transitive.
proof fn lemma_cong_trans(a: int, b: int, c: int, m: int)
    requires
        m > 0,
        (a - b) % m == 0,
        (b - c) % m == 0,
    ensures
        (a - c) % m == 0,
{
    vstd::arithmetic::div_mod::lemma_fundamental_div_mod(a - b, m);
    vstd::arithmetic::div_mod::lemma_fundamental_div_mod(b - c, m);
    let k1 = (a - b) / m;
    let k2 = (b - c) / m;
    assert(a - c == m * (k1 + k2)) by (nonlinear_arith)
        requires
            a - b == m * k1,
            b - c == m * k2,
    ;
    vstd::arithmetic::div_mod::lemma_mod_multiples_basic(k1 + k2, m);
}

/// Congruent values stay congruent under multiplication by a common factor.
proof fn lemma_cong_mul(a: int, b: int, c: int, m: int)
    requires
        m > 0,
        (a - b) % m == 0,
    ensures
        (a * c - b * c) % m == 0,
{
    vstd::arithmetic::div_mod::lemma_fundamental_div_mod(a - b, m);
    let k = (a - b) / m;
    assert(a * c - b * c == m * (k * c)) by (nonlinear_arith)
        requires
            a - b == m * k,
    ;
    vstd::arithmetic::div_mod::lemma_mod_multiples_basic(k * c, m);
}

/// Equal remainders mean congruence.
proof fn lemma_eqmod_to_cong(x: int, y: int, m: int)
    requires
        m > 0,
        x % m == y % m,
    ensures
        (x - y) % m == 0,
{
    vstd::arithmetic::div_mod::lemma_fundamental_div_mod(x, m);
    vstd::arithmetic::div_mod::lemma_fundamental_div_mod(y, m);
    let kx = x / m;
    let ky = y / m;
    assert(x - y == m * (kx - ky)) by (nonlinear_arith)
        requires
            x == m * kx + x % m,
            y == m * ky + y % m,
            x % m == y % m,
    ;
    vstd::arithmetic::div_mod::lemma_mod_multiples_basic(kx - ky, m);
}

/// A congruent value within the canonical range is the remainder itself.
proof fn lemma_cong_in_range_is_mod(v: int, c: int, m: int)
    requires
        m > 0,
        0 <= c < m,
        (v - c) % m == 0,
    ensures
        v % m == c,
{
    vstd::arithmetic::div_mod::lemma_fundamental_div_mod(v - c, m);
    let k = (v - c) / m;
    assert(v == k * m + c) by (nonlinear_arith)
        requires
            v - c == m * k,
    ;
    vstd::arithmetic::div_mod::lemma_fundamental_div_mod_converse(v, m, k, c);
}

/// One square-and-multiply step preserves the running power product.
proof fn lemma_pow_square_step(r: int, b: int, e: nat, m: int)
    requires
        m > 1,
        e > 0,
    ensures
        ((if e % 2 == 1 {
            (r * b) % m
        } else {
            r
        }) * vstd::arithmetic::power::pow((b * b) % m, e / 2)) % m == (r
            * vstd::arithmetic::power::pow(b, e)) % m,
{
    let q = e / 2;
    let bit = e % 2;
    let bb = b * b;
    vstd::arithmetic::power::lemma_square_is_pow2(b);
    vstd::arithmetic::power::lemma_pow_multiplies(b, 2, q);
    assert(vstd::arithmetic::power::pow(bb, q) == vstd::arithmetic::power::pow(b, 2 * q));
    vstd::arithmetic::power::lemma_pow_mod_noop(bb, q, m);
    lemma_eqmod_to_cong(
        vstd::arithmetic::power::pow(bb % m, q),
        vstd::arithmetic::power::pow(bb, q),
        m,
    );
    let x = if bit == 1 {
        (r * b) % m
    } else {
        r
    };
    lemma_cong_mul(
        vstd::arithmetic::power::pow(bb % m, q),
        vstd::arithmetic::power::pow(bb, q),
        x,
        m,
    );
    assert(vstd::arithmetic::power::pow(bb % m, q) * x == x * vstd::arithmetic::power::pow(
        bb % m,
        q,
    ) && vstd::arithmetic::power::pow(bb, q) * x == x * vstd::arithmetic::power::pow(bb, q))
        by (nonlinear_arith);
    lemma_eqmod_to_cong_rev(
        x * vstd::arithmetic::power::pow(bb % m, q),
        x * vstd::arithmetic::power::pow(bb, q),
        m,
    );
    if bit == 1 {
        vstd::arithmetic::power::lemma_pow1(b);
        vstd::arithmetic::power::lemma_pow_adds(b, 2 * q, 1);
        assert(vstd::arithmetic::power::pow(b, e) == vstd::arithmetic::power::pow(bb, q) * b);
        vstd::arithmetic::div_mod::lemma_mul_mod_noop_left(
            r * b,
            vstd::arithmetic::power::pow(bb, q),
            m,
        );
        assert(r * b * vstd::arithmetic::power::pow(bb, q) == r * (
        vstd::arithmetic::power::pow(bb, q) * b)) by (nonlinear_arith);
        assert((x * vstd::arithmetic::power::pow(bb, q)) % m == (r * vstd::arithmetic::power::pow(
            b,
            e,
        )) % m);
    } else {
        assert(e == 2 * q);
        assert(vstd::arithmetic::power::pow(b, e) == vstd::arithmetic::power::pow(bb, q));
    }
}

/// Congruence turned back into equal remainders.
proof fn lemma_eqmod_to_cong_rev(x: int, y: int, m: int)
    requires
        m > 0,
        (x - y) % m == 0,
    ensures
        x % m == y % m,
{
    vstd::arithmetic::div_mod::lemma_fundamental_div_mod(x - y, m);
    let k = (x - y) / m;
    vstd::arithmetic::div_mod::lemma_fundamental_div_mod(y, m);
    let ky = y / m;
    assert(x == (k + ky) * m + y % m) by (nonlinear_arith)
        requires
            x - y == m * k,
            y == m * ky + y % m,
    ;
    assert(0 <= y % m < m);
    vstd::arithmetic::div_mod::lemma_fundamental_div_mod_converse(x, m, k + ky, y % m);
}


/// Congruences add.
proof fn lemma_cong_add(a: int, b: int, c: int, d: int, m: int)
    requires
        m > 0,
        (a - b) % m == 0,
        (c - d) % m == 0,
    ensures
        ((a + c) - (b + d)) % m == 0,
{
    vstd::arithmetic::div_mod::lemma_fundamental_div_mod(a - b, m);
    vstd::arithmetic::div_mod::lemma_fundamental_div_mod(c - d, m);
    let k1 = (a - b) / m;
    let k2 = (c - d) / m;
    assert((a + c) - (b + d) == m * (k1 + k2)) by (nonlinear_arith)
        requires
            a - b == m * k1,
            c - d == m * k2,
    ;
    vstd::arithmetic::div_mod::lemma_mod_multiples_basic(k1 + k2, m);
}

/// A remainder is congruent to the value it came from.
proof fn lemma_mod_cong_self(x: int, m: int)
    requires
        m > 0,
    ensures
        (x % m - x) % m == 0,
{
    vstd::arithmetic::div_mod::lemma_fundamental_div_mod(x, m);
    let k = x / m;
    assert(x % m - x == m * (-k)) by (nonlinear_arith)
        requires
            x == m * k + x % m,
    ;
    vstd::arithmetic::div_mod::lemma_mod_multiples_basic(-k, m);
}

/// A multiple of the modulus strictly inside its size is zero.
proof fn lemma_small_cong_zero(d: int, m: int)
    requires
        m > 0,
        -m < d < m,
        d % m == 0,
    ensures
        d == 0,
{
    vstd::arithmetic::div_mod::lemma_fundamental_div_mod(d, m);
    let k = d / m;
    assert(k == 0) by (nonlinear_arith)
        requires
            d == m * k,
            -m < d < m,
            m > 0,
    ;
}

/// Reduce `v` modulo `m` with the sign of `v`, as Rust's `%` does.
/// The result is congruent to `v` and strictly smaller than `m` in size.
fn rem_i128(v: i128, m: i64) -> (r: i64)
    requires
        m > 0,
        -0x40000000000000000000000000000000i128 <= v <= 0x40000000000000000000000000000000i128,
    ensures
        -m < r < m,
        (v - r) % (m as int) == 0,
        v >= 0 ==> r >= 0,
        v < 0 ==> r <= 0,
{
    let mu = m as u128;
    if v >= 0 {
        let mag = v as u128;
        let r0 = mag % mu;
        proof {
            vstd::arithmetic::div_mod::lemma_fundamental_div_mod(mag as int, mu as int);
            assert(mag as int - r0 as int == (mu as int) * (mag as int / mu as int));
            vstd::arithmetic::div_mod::lemma_mod_multiples_basic(
                mag as int / mu as int,
                m as int,
            );
        }
        r0 as i64
    } else {
        let mag = (-v) as u128;
        let r0 = mag % mu;
        proof {
            vstd::arithmetic::div_mod::lemma_fundamental_div_mod(mag as int, mu as int);
            let d = mag as int / mu as int;
            assert(mag as int - r0 as int == (mu as int) * d);
            vstd::arithmetic::div_mod::lemma_mod_multiples_basic(-d, m as int);
            assert(v - -(r0 as int) == (m as int) * (-d)) by (nonlinear_arith)
                requires
                    v == -(mag as int),
                    mag as int - r0 as int == (mu as int) * d,
                    m as int == mu as int,
            ;
        }
        -(r0 as i64)
    }
}

/// The extended Euclidean algorithm: a triple `(g, s, t)` with
/// `g == a * s + b * t` and `g` the greatest common divisor of the inputs'
/// magnitudes.  Nothing is returned if an intermediate value leaves the
/// 64-bit range.
pub fn extended_gcd(a: i64, b: i64) -> (r: Option<(i64, i64, i64)>)
    ensures
        r matches Some(v) ==> v.0 == a * v.1 + b * v.2 && v.0 >= 0 && v.0 == spec_gcd(
            (if a >= 0 {
                a as int
            } else {
                -(a as int)
            }) as nat,
            (if b >= 0 {
                b as int
            } else {
                -(b as int)
            }) as nat,
        ),
{
    let au: u128 = if a < 0 {
        (-(a as i128)) as u128
    } else {
        a as u128
    };
    let bu: u128 = if b < 0 {
        (-(b as i128)) as u128
    } else {
        b as u128
    };
    let mut r0: u128 = au;
    let mut r1: u128 = bu;
    let mut s0: i128 = 1;
    let mut s1: i128 = 0;
    let mut t0: i128 = 0;
    let mut t1: i128 = 1;
    while r1 != 0
        invariant
            au <= 0x8000000000000000u128,
            bu <= 0x8000000000000000u128,
            r0 <= 0x8000000000000000u128,
            r1 <= 0x8000000000000000u128,
            r0 as int == au * s0 + bu * t0,
            r1 as int == au * s1 + bu * t1,
            spec_gcd(r0 as nat, r1 as nat) == spec_gcd(au as nat, bu as nat),
        decreases r1,
    {
        let q = r0 / r1;
        let r2 = r0 % r1;
        proof {
            vstd::arithmetic::div_mod::lemma_fundamental_div_mod(r0 as int, r1 as int);
            assert(q <= r0) by (nonlinear_arith)
                requires
                    r1 >= 1,
                    r0 as int == (r1 as int) * (q as int) + r2 as int,
                    r2 >= 0,
            ;
        }
        let qi: i128 = q as i128;
        let s2 = match qi.checked_mul(s1) {
            Some(x) => match s0.checked_sub(x) {
                Some(y) => y,
                None => {
                    return None;
                },
            },
            None => {
                return None;
            },
        };
        let t2 = match qi.checked_mul(t1) {
            Some(x) => match t0.checked_sub(x) {
                Some(y) => y,
                None => {
                    return None;
                },
            },
            None => {
                return None;
            },
        };
        proof {
            assert(r2 as int == r0 as int - (qi as int) * (r1 as int)) by (nonlinear_arith)
                requires
                    r0 as int == (r1 as int) * (q as int) + r2 as int,
                    qi as int == q as int,
            ;
            assert(r2 as int == au * s2 + bu * t2) by (nonlinear_arith)
                requires
                    r0 as int == au * s0 + bu * t0,
                    r1 as int == au * s1 + bu * t1,
                    r2 as int == r0 as int - (qi as int) * (r1 as int),
                    s2 == s0 - qi * s1,
                    t2 == t0 - qi * t1,
            ;
        }
        r0 = r1;
        s0 = s1;
        t0 = t1;
        r1 = r2;
        s1 = s2;
        t1 = t2;
    }
    // Undo the sign normalisation of the inputs.
    if s0 == i128::MIN || t0 == i128::MIN {
        return None;
    }
    let sf: i128 = if a < 0 {
        -s0
    } else {
        s0
    };
    let tf: i128 = if b < 0 {
        -t0
    } else {
        t0
    };
    proof {
        assert(r0 as int == a * sf + b * tf) by (nonlinear_arith)
            requires
                r0 as int == au * s0 + bu * t0,
                a < 0 ==> au == -(a as int) && sf == -s0,
                a >= 0 ==> au == a as int && sf == s0,
                b < 0 ==> bu == -(b as int) && tf == -t0,
                b >= 0 ==> bu == b as int && tf == t0,
        ;
    }
    if r0 > i64::MAX as u128 {
        return None;
    }
    if sf > i64::MAX as i128 || sf < i64::MIN as i128 {
        return None;
    }
    if tf > i64::MAX as i128 || tf < i64::MIN as i128 {
        return None;
    }
    Some((r0 as i64, sf as i64, tf as i64))
}

/// A residue: a value reduced modulo a positive modulus, carrying the
/// modulus along.
#[derive(Debug, Clone, Copy)]
pub struct Mod {
    value: i64,
    modulus: i64,
}

impl Mod {
    pub closed spec fn val(&self) -> int {
        self.value as int
    }

    pub closed spec fn md(&self) -> int {
        self.modulus as int
    }

    pub open spec fn inv(&self) -> bool {
        0 < self.md() && -self.md() < self.val() < self.md()
    }

    /// `value` reduced modulo `modulus`, keeping its sign; together with
    /// the congruence and the size bound this pins the stored residue to
    /// the truncated remainder.  Every shuffle works over a positive
    /// modulus, so non-positive moduli are rejected by contract.
    pub fn new(value: i64, modulus: i64) -> (r: Mod)
        requires
            modulus > 0,
        ensures
            r.inv(),
            r.md() == modulus,
            (value - r.val()) % (modulus as int) == 0,
            value >= 0 ==> r.val() >= 0,
            value < 0 ==> r.val() <= 0,
    {
        Mod { value: rem_i128(value as i128, modulus), modulus }
    }

    pub fn value(&self) -> (r: i64)
        ensures
            r == self.val(),
    {
        self.value
    }

    pub fn modulus(&self) -> (r: i64)
        ensures
            r == self.md(),
    {
        self.modulus
    }

    /// The canonical non-negative representative.
    pub fn positive(self) -> (r: Mod)
        requires
            self.inv(),
        ensures
            r.inv(),
            r.md() == self.md(),
            0 <= r.val() < r.md(),
            (self.val() - r.val()) % self.md() == 0,
    {
        if self.value < 0 {
            let r = Mod { value: self.value + self.modulus, modulus: self.modulus };
            proof {
                vstd::arithmetic::div_mod::lemma_mod_multiples_basic(-1, self.md());
            }
            r
        } else {
            proof {
                vstd::arithmetic::div_mod::lemma_mod_multiples_basic(0, self.md());
            }
            self
        }
    }

    /// Add a plain value.
    pub fn add_i64(self, rhs: i64) -> (r: Mod)
        requires
            self.inv(),
        ensures
            r.inv(),
            r.md() == self.md(),
            (self.val() + rhs - r.val()) % self.md() == 0,
    {
        let v = self.value as i128 + rhs as i128;
        Mod { value: rem_i128(v, self.modulus), modulus: self.modulus }
    }

    /// Add another residue of the same modulus.
    pub fn add(self, rhs: Mod) -> (r: Mod)
        requires
            self.inv(),
            rhs.inv(),
            self.md() == rhs.md(),
        ensures
            r.inv(),
            r.md() == self.md(),
            (self.val() + rhs.val() - r.val()) % self.md() == 0,
    {
        self.add_i64(rhs.value)
    }

    /// Subtract a plain value.
    pub fn sub_i64(self, rhs: i64) -> (r: Mod)
        requires
            self.inv(),
        ensures
            r.inv(),
            r.md() == self.md(),
            (self.val() - rhs - r.val()) % self.md() == 0,
    {
        let v = self.value as i128 - rhs as i128;
        Mod { value: rem_i128(v, self.modulus), modulus: self.modulus }
    }

    /// Subtract another residue of the same modulus.
    pub fn sub(self, rhs: Mod) -> (r: Mod)
        requires
            self.inv(),
            rhs.inv(),
            self.md() == rhs.md(),
        ensures
            r.inv(),
            r.md() == self.md(),
            (self.val() - rhs.val() - r.val()) % self.md() == 0,
    {
        self.sub_i64(rhs.value)
    }

    /// The negated residue.
    pub fn neg(self) -> (r: Mod)
        requires
            self.inv(),
        ensures
            r.inv(),
            r.md() == self.md(),
            r.val() == -self.val(),
    {
        Mod { value: -self.value, modulus: self.modulus }
    }

    /// Multiply by a plain value.
    pub fn mul_i64(self, rhs: i64) -> (r: Mod)
        requires
            self.inv(),
        ensures
            r.inv(),
            r.md() == self.md(),
            (self.val() * rhs - r.val()) % self.md() == 0,
    {
        proof {
            assert({
                let p = self.value as i128 * rhs as i128;
                -0x40000000000000000000000000000000i128 <= p
                    <= 0x40000000000000000000000000000000i128
            }) by (nonlinear_arith)
                requires
                    -0x8000000000000000i128 <= self.value as i128 <= 0x7fffffffffffffffi128,
                    -0x8000000000000000i128 <= rhs as i128 <= 0x7fffffffffffffffi128,
            ;
        }
        let v = self.value as i128 * rhs as i128;
        Mod { value: rem_i128(v, self.modulus), modulus: self.modulus }
    }

    /// Multiply by another residue of the same modulus.
    pub fn mul(self, rhs: Mod) -> (r: Mod)
        requires
            self.inv(),
            rhs.inv(),
            self.md() == rhs.md(),
        ensures
            r.inv(),
            r.md() == self.md(),
            (self.val() * rhs.val() - r.val()) % self.md() == 0,
    {
        self.mul_i64(rhs.value)
    }

    /// Raise to a power by repeated squaring; the result is the canonical
    /// non-negative residue of the mathematical power.
    pub fn pow(self, exponent: u64) -> (r: Mod)
        requires
            self.inv(),
        ensures
            r.inv(),
            r.md() == self.md(),
            0 <= r.val(),
            r.val() == vstd::arithmetic::power::pow(self.val(), exponent as nat) % self.md(),
    {
        let ghost v0 = self.val();
        let ghost e0 = exponent as nat;
        if self.modulus == 1 {
            proof {
                vstd::arithmetic::div_mod::lemma_fundamental_div_mod(
                    vstd::arithmetic::power::pow(v0, e0),
                    1,
                );
            }
            return Mod { value: 0, modulus: self.modulus };
        }
        let m = self.modulus as u128;
        let b0 = self.positive().value();
        proof {
            lemma_cong_sym(v0, b0 as int, self.md());
            lemma_cong_in_range_is_mod(v0, b0 as int, self.md());
            assert(b0 as int == v0 % self.md());
        }
        let mut base: u128 = b0 as u128;
        let mut exp = exponent;
        let mut result: u128 = 1;
        proof {
            vstd::arithmetic::power::lemma_pow1(b0 as int);
        }
        while exp > 0
            invariant
                m > 1,
                self.modulus > 1,
                m == self.modulus as u128,
                self.md() == self.modulus as int,
                base < m,
                result < m,
                (result as int * vstd::arithmetic::power::pow(base as int, exp as nat)) % (
                m as int) == vstd::arithmetic::power::pow(b0 as int, e0) % (m as int),
            decreases exp,
        {
            proof {
                assert(result * base < m * m && base * base < m * m) by (nonlinear_arith)
                    requires
                        base < m,
                        result < m,
                        m > 1,
                ;
                assert(m * m <= 0x40000000000000000000000000000000u128) by (nonlinear_arith)
                    requires
                        m <= 0x8000000000000000u128,
                ;
            }
            let ghost pre_base = base as int;
            let ghost pre_result = result as int;
            let ghost pre_exp = exp as nat;
            let ghost mi = m as int;
            let bit = exp % 2;
            if bit == 1 {
                result = (result * base) % m;
            }
            exp = exp / 2;
            base = (base * base) % m;
            proof {
                lemma_pow_square_step(pre_result, pre_base, pre_exp, mi);
            }
        }
        proof {
            vstd::arithmetic::power::lemma_pow0(base as int);
            assert(result as int % (m as int) == vstd::arithmetic::power::pow(b0 as int, e0) % (
            m as int));
            vstd::arithmetic::div_mod::lemma_small_mod(result as nat, m as nat);
            vstd::arithmetic::power::lemma_pow_mod_noop(v0, e0, self.md());
        }
        Mod { value: result as i64, modulus: self.modulus }
    }

    /// Divide by a value coprime with the modulus, via the extended
    /// Euclidean algorithm; nothing when no inverse exists.
    pub fn div_i64(self, rhs: i64) -> (r: Option<Mod>)
        requires
            self.inv(),
        ensures
            r matches Some(v) ==> v.inv() && v.md() == self.md() && (v.val() * rhs - self.val())
                % self.md() == 0,
    {
        let (g, inv, _t) = match extended_gcd(rhs, self.modulus) {
            Some(v) => v,
            None => {
                return None;
            },
        };
        if g != 1 {
            return None;
        }
        let q = self.mul_i64(inv);
        proof {
            let m = self.md();
            // The Bezout identity makes `inv` a modular inverse of `rhs`.
            assert(rhs * inv - 1 == m * (-_t)) by (nonlinear_arith)
                requires
                    1 == rhs * inv + (self.modulus as int) * _t,
                    m == self.modulus as int,
            ;
            vstd::arithmetic::div_mod::lemma_mod_multiples_basic(-_t, m);
            assert((rhs as int * inv - 1) % m == 0);
            lemma_cong_mul(rhs as int * inv, 1, self.val(), m);
            assert(rhs as int * inv * self.val() == self.val() * inv * rhs && 1 * self.val()
                == self.val() && q.val() * rhs - self.val() * inv * rhs == (q.val() - self.val()
                * inv) * rhs) by (nonlinear_arith);
            lemma_cong_sym(self.val() * inv, q.val(), m);
            lemma_cong_mul(q.val(), self.val() * inv, rhs as int, m);
            lemma_cong_trans(q.val() * rhs, self.val() * inv * rhs, self.val(), m);
        }
        Some(q)
    }

    /// Divide by another residue of the same modulus.
    pub fn div(self, rhs: Mod) -> (r: Option<Mod>)
        requires
            self.inv(),
            rhs.inv(),
            self.md() == rhs.md(),
        ensures
            r matches Some(v) ==> v.inv() && v.md() == self.md() && (v.val() * rhs.val()
                - self.val()) % self.md() == 0,
    {
        self.div_i64(rhs.value)
    }
}

/// A linear map `x -> a * x + b` over a common modulus.
#[derive(Debug, Clone, Copy)]
pub struct ModLinearExpression {
    pub a: Mod,
    pub b: Mod,
}

impl ModLinearExpression {
    pub closed spec fn inv(&self) -> bool {
        self.a.inv() && self.b.inv() && self.a.md() == self.b.md()
    }

    pub closed spec fn md(&self) -> int {
        self.a.md()
    }

    pub fn new(m: i64, a: i64, b: i64) -> (r: ModLinearExpression)
        requires
            m > 0,
        ensures
            r.inv(),
            r.md() == m,
            (a - r.a.val()) % (m as int) == 0,
            (b - r.b.val()) % (m as int) == 0,
    {
        ModLinearExpression { a: Mod::new(a, m), b: Mod::new(b, m) }
    }

    /// The identity map.
    pub fn base(m: i64) -> (r: ModLinearExpression)
        requires
            m > 0,
        ensures
            r.inv(),
            r.md() == m,
            (1 - r.a.val()) % (m as int) == 0,
            (0 - r.b.val()) % (m as int) == 0,
    {
        ModLinearExpression::new(m, 1, 0)
    }

    pub fn a(&self) -> (r: Mod)
        ensures
            r == self.a,
    {
        self.a
    }

    pub fn b(&self) -> (r: Mod)
        ensures
            r == self.b,
    {
        self.b
    }

    pub fn modulus(&self) -> (r: i64)
        requires
            self.inv(),
        ensures
            r == self.md(),
    {
        self.a.modulus()
    }

    /// Evaluate the map at `x`, or its inverse map when `invert` is set;
    /// the canonical non-negative result.  Nothing when the inverse does
    /// not exist.
    pub fn apply(&self, x: i64, invert: bool) -> (r: Option<i64>)
        requires
            self.inv(),
        ensures
            r matches Some(v) ==> 0 <= v < self.md(),
            !invert ==> (r matches Some(v) && (v - (self.a.val() * x + self.b.val()))
                % self.md() == 0),
            invert ==> (r matches Some(v) ==> (v * self.a.val() - (x - self.b.val()))
                % self.md() == 0),
    {
        if invert {
            let nb = self.b.neg();
            let num = nb.add_i64(x);
            match num.div(self.a) {
                Some(q) => {
                    let qp = q.positive();
                    let v = qp.value();
                    proof {
                        let m = self.md();
                        let av = self.a.val();
                        // v is congruent to q, so v times a stays congruent
                        // to the numerator, which is congruent to x - b.
                        lemma_cong_sym(q.val(), v as int, m);
                        lemma_cong_mul(v as int, q.val(), av, m);
                        lemma_cong_trans(v * av, q.val() * av, num.val(), m);
                        assert(((x - self.b.val()) - num.val()) % m == 0);
                        lemma_cong_sym(x - self.b.val(), num.val(), m);
                        lemma_cong_trans(v * av, num.val(), x - self.b.val(), m);
                    }
                    Some(v)
                },
                None => None,
            }
        } else {
            let t1 = self.a.mul_i64(x);
            let t = t1.add(self.b);
            let tp = t.positive();
            let v = tp.value();
            proof {
                let m = self.md();
                // a*x + b is congruent to the intermediate sum, which is
                // congruent to the canonical result.
                assert((self.a.val() * x + self.b.val() - (t1.val() + self.b.val())) % m == 0);
                lemma_cong_trans(
                    self.a.val() * x + self.b.val(),
                    t1.val() + self.b.val(),
                    t.val(),
                    m,
                );
                lemma_cong_trans(self.a.val() * x + self.b.val(), t.val(), v as int, m);
                lemma_cong_sym(self.a.val() * x + self.b.val(), v as int, m);
            }
            Some(v)
        }
    }

    /// This map after `inner`: first `inner`, then this one.
    pub fn compose(&self, inner: ModLinearExpression) -> (r: ModLinearExpression)
        requires
            self.inv(),
            inner.inv(),
            self.md() == inner.md(),
        ensures
            r.inv(),
            r.md() == self.md(),
            (r.a.val() - self.a.val() * inner.a.val()) % self.md() == 0,
            (r.b.val() - (self.a.val() * inner.b.val() + self.b.val())) % self.md() == 0,
    {
        let a = self.a.mul(inner.a);
        let t = self.a.mul(inner.b);
        let b = t.add(self.b);
        proof {
            let m = self.md();
            lemma_cong_sym(self.a.val() * inner.a.val(), a.val(), m);
            assert((self.a.val() * inner.b.val() + self.b.val() - (t.val() + self.b.val())) % m
                == 0);
            lemma_cong_trans(
                self.a.val() * inner.b.val() + self.b.val(),
                t.val() + self.b.val(),
                b.val(),
                m,
            );
            lemma_cong_sym(self.a.val() * inner.b.val() + self.b.val(), b.val(), m);
        }
        ModLinearExpression { a, b }
    }

    /// The map composed with itself `depth` times, closed over the
    /// geometric series.  Nothing when the series denominator has no
    /// inverse.
    pub fn compose_self(&self, depth: u64) -> (r: Option<ModLinearExpression>)
        requires
            self.inv(),
        ensures
            r matches Some(v) ==> v.inv() && v.md() == self.md(),
            depth == 0 ==> (r matches Some(v) && (v.a.val() - 1) % self.md() == 0 && v.b.val()
                % self.md() == 0),
            depth == 1 ==> r == Some(*self),
            r matches Some(v) ==> (v.a.val() - vstd::arithmetic::power::pow(
                self.a.val(),
                depth as nat,
            )) % self.md() == 0,
            depth >= 2 && self.md() > 1 && (self.a.val() - 1) % self.md() == 0 ==> (r matches Some(
                v,
            ) ==> (v.b.val() - self.b.val() * depth) % self.md() == 0),
            depth >= 2 && self.md() > 1 && (self.a.val() - 1) % self.md() != 0 ==> (r matches Some(
                v,
            ) ==> (v.b.val() * (1 - self.a.val()) - self.b.val() * (1
                - vstd::arithmetic::power::pow(self.a.val(), depth as nat))) % self.md() == 0),
    {
        let modulus = self.modulus();
        let ghost m = self.md();
        let ghost av0 = self.a.val();
        let ghost bv0 = self.b.val();
        let ghost pw = vstd::arithmetic::power::pow(av0, depth as nat);
        if depth == 0 {
            let base = ModLinearExpression::base(modulus);
            proof {
                vstd::arithmetic::power::lemma_pow0(av0);
                lemma_cong_sym(1, base.a.val(), m);
                lemma_cong_sym(0, base.b.val(), m);
            }
            return Some(base);
        }
        if depth == 1 {
            proof {
                vstd::arithmetic::power::lemma_pow1(av0);
                vstd::arithmetic::div_mod::lemma_small_mod(0nat, m as nat);
            }
            return Some(*self);
        }
        let pow_a = self.a.pow(depth);
        proof {
            lemma_mod_cong_self(pw, m);
            assert(pow_a.val() == pw % m);
            assert((pow_a.val() - pw) % m == 0);
        }
        let av = self.a.positive().value();
        proof {
            if m > 1 {
                // The canonical residue is 1 exactly when a is congruent
                // to 1.
                if (av0 - 1) % m == 0 {
                    lemma_cong_sym(av0, av as int, m);
                    lemma_cong_trans(av as int, av0, 1, m);
                    lemma_small_cong_zero(av - 1, m);
                    assert(av == 1);
                } else {
                    if av == 1 {
                        lemma_cong_sym(av0, av as int, m);
                        lemma_cong_trans(av0, av as int, 1, m);
                        assert(false);
                    }
                }
            }
        }
        let sum = if av != 1 {
            if depth > i64::MAX as u64 {
                return None;
            }
            let num = pow_a.neg().add_i64(1);
            let den = self.a.neg().add_i64(1);
            let q = match num.div(den) {
                Some(q) => q,
                None => {
                    return None;
                },
            };
            proof {
                // num is congruent to 1 - a^depth and den to 1 - a, so the
                // quotient times 1 - a is congruent to 1 - a^depth.
                assert(pow_a.val() == pw % m);
                assert((pow_a.val() - pw) % m == 0);
                assert(1 - pw - (1 - pow_a.val()) == pow_a.val() - pw);
                assert((-pow_a.val() + 1 - num.val()) % m == 0);
                assert((1 - pow_a.val() - num.val()) % m == 0);
                lemma_cong_trans(1 - pw, 1 - pow_a.val(), num.val(), m);
                assert((1 - av0 - den.val()) % m == 0);
                lemma_cong_mul(1 - av0, den.val(), q.val(), m);
                assert((1 - av0) * q.val() == q.val() * (1 - av0) && den.val() * q.val() == q.val()
                    * den.val()) by (nonlinear_arith);
                lemma_cong_sym(1 - pw, num.val(), m);
                lemma_cong_trans(q.val() * (1 - av0), q.val() * den.val(), num.val(), m);
                lemma_cong_trans(q.val() * (1 - av0), num.val(), 1 - pw, m);
                assert((q.val() * (1 - av0) - (1 - pw)) % m == 0);
            }
            q
        } else {
            if depth > i64::MAX as u64 {
                return None;
            }
            Mod::new(depth as i64, modulus)
        };
        let vb = self.b.mul(sum);
        proof {
            if m > 1 && (av0 - 1) % m != 0 {
                // b * sum times 1 - a is congruent to b * (1 - a^depth).
                lemma_cong_sym(bv0 * sum.val(), vb.val(), m);
                lemma_cong_mul(vb.val(), bv0 * sum.val(), 1 - av0, m);
                assert((sum.val() * (1 - av0) - (1 - pw)) % m == 0);
                lemma_cong_mul(sum.val() * (1 - av0), 1 - pw, bv0, m);
                assert(bv0 * sum.val() * (1 - av0) == sum.val() * (1 - av0) * bv0 && bv0 * (1 - pw)
                    == (1 - pw) * bv0) by (nonlinear_arith);
                lemma_cong_trans(
                    vb.val() * (1 - av0),
                    bv0 * sum.val() * (1 - av0),
                    bv0 * (1 - pw),
                    m,
                );
            }
            if m > 1 && (av0 - 1) % m == 0 {
                // sum is congruent to depth, so b * sum is congruent to
                // b * depth.
                assert((depth - sum.val()) % m == 0);
                lemma_cong_sym(depth as int, sum.val(), m);
                lemma_cong_mul(sum.val(), depth as int, bv0, m);
                assert(sum.val() * bv0 == bv0 * sum.val() && depth * bv0 == bv0 * depth)
                    by (nonlinear_arith);
                lemma_cong_sym(bv0 * sum.val(), vb.val(), m);
                lemma_cong_sym(vb.val(), bv0 * sum.val(), m);
                lemma_cong_trans(vb.val(), bv0 * sum.val(), bv0 * depth, m);
            }
        }
        Some(ModLinearExpression { a: pow_a, b: vb })
    }
}

/// One shuffle move.
#[derive(Debug, Clone, Copy)]
pub enum Instruction {
    Stack,
    Cut(i64),
    Deal(i64),
}

/// The multiplier a move contributes as a linear map.
pub open spec fn lin_a_of(i: Instruction) -> int {
    match i {
        Instruction::Stack => -1,
        Instruction::Cut(_) => 1,
        Instruction::Deal(n) => n as int,
    }
}

/// The offset a move contributes as a linear map.  A cut of the most
/// negative count maps to the largest positive one, as `as_linear` computes
/// it.
pub open spec fn lin_b_of(i: Instruction) -> int {
    match i {
        Instruction::Stack => -1,
        Instruction::Cut(n) => if n == i64::MIN {
            i64::MAX as int
        } else {
            -(n as int)
        },
        Instruction::Deal(_) => 0,
    }
}

/// The whole shuffle folded into one linear map, later moves wrapping
/// earlier ones: the pair of its multiplier and offset over the integers.
pub open spec fn fold_lin(s: Seq<Instruction>) -> (int, int)
    decreases s.len(),
{
    if s.len() == 0 {
        (1int, 0int)
    } else {
        let prev = fold_lin(s.drop_last());
        let la = lin_a_of(s.last());
        let lb = lin_b_of(s.last());
        (la * prev.0, la * prev.1 + lb)
    }
}

impl Instruction {
    /// The move as a linear map over the card positions.
    pub fn as_linear(&self, m: i64) -> (r: ModLinearExpression)
        requires
            m > 0,
        ensures
            r.inv(),
            r.md() == m,
            (r.a.val() - lin_a_of(*self)) % (m as int) == 0,
            (r.b.val() - lin_b_of(*self)) % (m as int) == 0,
    {
        let r = match *self {
            Instruction::Stack => ModLinearExpression::new(m, -1, -1),
            Instruction::Cut(n) => ModLinearExpression::new(m, 1, if n == i64::MIN {
                i64::MAX
            } else {
                -n
            }),
            Instruction::Deal(n) => ModLinearExpression::new(m, n, 0),
        };
        proof {
            lemma_cong_sym(lin_a_of(*self), r.a.val(), m as int);
            lemma_cong_sym(lin_b_of(*self), r.b.val(), m as int);
        }
        r
    }
}

/// Whether `b` continues with `pat` at position `i`.
fn match_at(b: &[u8], i: usize, pat: &[u8]) -> (r: bool)
    requires
        i <= b@.len(),
    ensures
        r ==> i + pat@.len() <= b@.len(),
{
    if b.len() - i < pat.len() {
        return false;
    }
    let mut k: usize = 0;
    while k < pat.len()
        invariant
            k <= pat@.len(),
            i + pat@.len() <= b@.len(),
            b@.len() <= usize::MAX,
        decreases pat@.len() - k,
    {
        if b[i + k] != pat[k] {
            return false;
        }
        k = k + 1;
    }
    true
}

/// Parse a signed integer; the value and the position after it.
fn scan_i64(b: &[u8], i: usize) -> (r: Option<(i64, usize)>)
    requires
        i <= b@.len(),
    ensures
        r matches Some(p) ==> i <= p.1 <= b@.len(),
{
    let n = b.len();
    let mut j = i;
    let mut neg = false;
    if j < n && b[j] == 45 {
        neg = true;
        j = j + 1;
    }
    let start = j;
    let mut acc: i64 = 0;
    while j < n && 48 <= b[j] && b[j] <= 57
        invariant
            start <= j <= n,
            n == b@.len(),
            0 <= acc <= 2000000000000000000,
        decreases n - j,
    {
        if acc > 100000000000000000 {
            return None;
        }
        acc = acc * 10 + (b[j] - 48) as i64;
        j = j + 1;
    }
    if j == start {
        return None;
    }
    if neg {
        Some((-acc, j))
    } else {
        Some((acc, j))
    }
}

/// Parse one move line.
pub fn parse_instruction(b: &[u8], lo: usize, hi: usize) -> (r: Option<Instruction>)
    requires
        lo <= hi <= b@.len(),
{
    let n = b.len();
    let stack = "deal into new stack";
    let cut = "cut ";
    let increment = "deal with increment ";
    if match_at(b, lo, stack.as_bytes()) && hi - lo == stack.as_bytes().len() {
        return Some(Instruction::Stack);
    }
    if match_at(b, lo, cut.as_bytes()) {
        let (v, j) = match scan_i64(b, lo + cut.as_bytes().len()) {
            Some(p) => p,
            None => {
                return None;
            },
        };
        if j == hi {
            return Some(Instruction::Cut(v));
        }
        return None;
    }
    if match_at(b, lo, increment.as_bytes()) {
        let (v, j) = match scan_i64(b, lo + increment.as_bytes().len()) {
            Some(p) => p,
            None => {
                return None;
            },
        };
        if j == hi {
            return Some(Instruction::Deal(v));
        }
        return None;
    }
    None
}

/// Parse newline-separated move lines; blank lines are passed over.
pub fn read_instructions(s: &str) -> (r: Option<Vec<Instruction>>)
    requires
        s.spec_bytes().len() <= usize::MAX - 8,
{
    let b = s.as_bytes();
    let n = b.len();
    let mut out: Vec<Instruction> = Vec::new();
    let mut i: usize = 0;
    while i < n
        invariant
            i <= n + 1,
            n == b@.len(),
            n <= usize::MAX - 8,
        decreases n + 1 - i,
    {
        let start = i;
        let mut j = i;
        while j < n && b[j] != 10
            invariant
                start <= j <= n,
                n == b@.len(),
            decreases n - j,
        {
            j = j + 1;
        }
        if j > start {
            let ins = match parse_instruction(b, start, j) {
                Some(x) => x,
                None => {
                    return None;
                },
            };
            out.push(ins);
        }
        i = j + 1;
    }
    Some(out)
}

/// The whole shuffle as one linear map: later moves wrap earlier ones.
pub fn compose_instructions(m: i64, ins: &Vec<Instruction>) -> (r: ModLinearExpression)
    requires
        m > 0,
    ensures
        r.inv(),
        r.md() == m,
        (r.a.val() - fold_lin(ins@).0) % (m as int) == 0,
        (r.b.val() - fold_lin(ins@).1) % (m as int) == 0,
{
    let mut acc = ModLinearExpression::base(m);
    proof {
        lemma_cong_sym(1, acc.a.val(), m as int);
        lemma_cong_sym(0, acc.b.val(), m as int);
        assert(ins@.take(0) =~= Seq::<Instruction>::empty());
    }
    let mut i: usize = 0;
    while i < ins.len()
        invariant
            acc.inv(),
            acc.md() == m,
            m > 0,
            i <= ins@.len(),
            (acc.a.val() - fold_lin(ins@.take(i as int)).0) % (m as int) == 0,
            (acc.b.val() - fold_lin(ins@.take(i as int)).1) % (m as int) == 0,
        decreases ins@.len() - i,
    {
        let ghost mi = m as int;
        let ghost pre = acc;
        let ghost fa = fold_lin(ins@.take(i as int)).0;
        let ghost fb = fold_lin(ins@.take(i as int)).1;
        let lin = ins[i].as_linear(m);
        let ghost la = lin_a_of(ins@[i as int]);
        let ghost lb = lin_b_of(ins@[i as int]);
        acc = lin.compose(acc);
        i = i + 1;
        proof {
            assert(ins@.take(i as int).drop_last() =~= ins@.take(i - 1));
            assert(ins@.take(i as int).last() == ins@[i - 1]);
            // The new multiplier is congruent to la * fa.
            lemma_cong_mul(lin.a.val(), la, pre.a.val(), mi);
            lemma_cong_mul(pre.a.val(), fa, la, mi);
            assert(la * pre.a.val() == pre.a.val() * la && lin.a.val() * pre.a.val() == lin.a.val()
                * pre.a.val() && fa * la == la * fa) by (nonlinear_arith);
            lemma_cong_trans(lin.a.val() * pre.a.val(), la * pre.a.val(), la * fa, mi);
            lemma_cong_trans(acc.a.val(), lin.a.val() * pre.a.val(), la * fa, mi);
            // The new offset is congruent to la * fb + lb.
            lemma_cong_mul(lin.a.val(), la, pre.b.val(), mi);
            lemma_cong_mul(pre.b.val(), fb, la, mi);
            assert(la * pre.b.val() == pre.b.val() * la && fb * la == la * fb)
                by (nonlinear_arith);
            lemma_cong_trans(lin.a.val() * pre.b.val(), la * pre.b.val(), la * fb, mi);
            lemma_cong_add(lin.a.val() * pre.b.val(), la * fb, lin.b.val(), lb, mi);
            lemma_cong_trans(
                acc.b.val(),
                lin.a.val() * pre.b.val() + lin.b.val(),
                la * fb + lb,
                mi,
            );
        }
    }
    proof {
        assert(ins@.take(ins@.len() as int) =~= ins@);
    }
    acc
}

/// Part one: where card 2019 lands in a single shuffle of 10007 cards.
pub fn part_a(s: &str) -> (r: Option<i64>)
    requires
        s.spec_bytes().len() <= usize::MAX - 8,
    ensures
        r matches Some(v) ==> 0 <= v < 10007,
{
    let ins = read_instructions(s)?;
    let expression = compose_instructions(10007, &ins);
    expression.apply(2019, false)
}

/// Part two: which card ends at position 2020 after the shuffle is applied
/// a huge number of times to a huge deck.
pub fn part_b(s: &str) -> (r: Option<i64>)
    requires
        s.spec_bytes().len() <= usize::MAX - 8,
{
    let size: i64 = 119315717514047;
    let repeat: u64 = 101741582076661;
    let ins = read_instructions(s)?;
    let base = compose_instructions(size, &ins);
    let expression = base.compose_self(repeat)?;
    expression.apply(2020, true)
}

} // verus!
