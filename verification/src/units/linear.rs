//! Two-dimensional vectors and rotations over fixed-point scalars.

use vstd::prelude::*;
use vstd::std_specs::ops::{AddSpecImpl, MulSpecImpl, NegSpecImpl, SubSpecImpl};
use vstd::arithmetic::div_mod::{lemma_div_pos_is_pos, lemma_fundamental_div_mod, lemma_mod_pos_bound};
use crate::units::fixed::{
    div_trunc, is_sqrt_floor, isqrt, lemma_sqrt_floor_exists, minus, mul_add, muldiv, negate, plus,
    sat, saturate, sqrt_floor, ONE,
};

verus! {

/// A vector of two scalars. Every pair of scalars is a vector: there is no
/// invariant to keep.
#[derive(Copy, Clone, Debug, PartialEq, Eq, Structural)]
pub struct V2 {
    pub x: i64,
    pub y: i64,
}

/// How far the squared length of a rotor may be from one, in squared
/// billionths: two millionths, which lets the length itself be a millionth
/// off. Sines and cosines worked out in single precision are well within
/// that.
pub const UNIT_SLACK: i64 = 2_000_000_000_000;

/// A rotation, held as the cosine and the sine of its angle. Neither is ever
/// larger than one in magnitude, and together they describe a unit vector to
/// within a millionth.
#[derive(Copy, Clone, Debug)]
pub struct Rotor {
    cos: i64,
    sin: i64,
}

impl Rotor {
    /// The cosine of the angle, as a scalar.
    pub closed spec fn cos(self) -> int {
        self.cos as int
    }

    /// The sine of the angle, as a scalar.
    pub closed spec fn sin(self) -> int {
        self.sin as int
    }

    /// How far the rotor is from a unit vector: the square of its length
    /// less one, in squared billionths.
    pub open spec fn defect(self) -> int {
        self.cos() * self.cos() + self.sin() * self.sin() - ONE * ONE
    }

    /// Neither component exceeds one in magnitude, and the squared length is
    /// within `UNIT_SLACK` of one.
    #[verifier::type_invariant]
    pub closed spec fn wf(self) -> bool {
        Self::is_unit(self.cos, self.sin)
    }

    /// Whether a cosine and a sine are both within one of zero and the sum
    /// of their squares is within `UNIT_SLACK` of one.
    pub open spec fn is_unit(cos: i64, sin: i64) -> bool {
        &&& -ONE <= cos <= ONE
        &&& -ONE <= sin <= ONE
        &&& -UNIT_SLACK <= cos * cos + sin * sin - ONE * ONE <= UNIT_SLACK
    }

    /// A rotor from the cosine and sine of its angle, or nothing when the two
    /// do not describe a unit vector to within a millionth.
    pub fn new(cos: i64, sin: i64) -> (r: Option<Rotor>)
        ensures
            r is Some <==> Self::is_unit(cos, sin),
            r matches Some(rotor) ==> rotor.wf() && rotor.cos() == cos && rotor.sin() == sin,
    {
        if -ONE <= cos && cos <= ONE && -ONE <= sin && sin <= ONE {
            assert(0 <= cos * cos <= 1_000_000_000_000_000_000 && 0 <= sin * sin
                <= 1_000_000_000_000_000_000) by (nonlinear_arith)
                requires
                    -1_000_000_000 <= cos <= 1_000_000_000,
                    -1_000_000_000 <= sin <= 1_000_000_000,
            ;
            let defect: i64 = cos * cos + sin * sin - ONE * ONE;
            if -UNIT_SLACK <= defect && defect <= UNIT_SLACK {
                return Some(Rotor { cos, sin });
            }
        }
        None
    }

    /// The rotation by no angle at all.
    pub fn identity() -> (r: Rotor)
        ensures
            r.wf(),
            r.cos() == ONE,
            r.sin() == 0,
    {
        Rotor { cos: ONE, sin: 0 }
    }

    /// The rotation by the opposite angle.
    pub fn inverse(self) -> (r: Rotor)
        ensures
            r.wf(),
            r.cos() == self.cos(),
            r.sin() == -self.sin(),
    {
        proof {
            use_type_invariant(&self);
            let n = self.sin as int;
            assert((-n) * (-n) == n * n) by (nonlinear_arith);
        }
        Rotor { cos: self.cos, sin: -self.sin }
    }

    /// The cosine held.
    pub fn cosine(self) -> (c: i64)
        ensures
            c == self.cos(),
            -ONE <= c <= ONE,
    {
        proof {
            use_type_invariant(&self);
        }
        self.cos
    }

    /// The sine held.
    pub fn sine(self) -> (s: i64)
        ensures
            s == self.sin(),
            -ONE <= s <= ONE,
    {
        proof {
            use_type_invariant(&self);
        }
        self.sin
    }

    /// What follows from `wf`, for proofs about rotors that are not behind an
    /// executable value.
    pub proof fn lemma_bounds(self)
        requires
            self.wf(),
        ensures
            -ONE <= self.cos() <= ONE,
            -ONE <= self.sin() <= ONE,
            -UNIT_SLACK <= self.defect() <= UNIT_SLACK,
    {
    }
}

/// The magnitude of a number.
pub open spec fn mag(x: int) -> int {
    if x < 0 {
        -x
    } else {
        x
    }
}

/// The magnitude that the larger component of a vector has at least once the
/// vector is at full scale: a quarter of the range of a scalar.
pub const FULL_SCALE: i64 = 0x2000_0000_0000_0000;

/// How far a magnitude is short of full scale.
pub open spec fn short_of_full_scale(reach: int) -> int {
    if reach >= FULL_SCALE {
        0
    } else {
        FULL_SCALE - reach
    }
}

/// The power of two that takes a magnitude of `reach` to full scale: the
/// least one that takes it to `FULL_SCALE` or beyond, and one where `reach`
/// is there already or is zero.
pub open spec fn full_scale_factor(reach: int) -> int
    decreases short_of_full_scale(reach),
{
    if reach <= 0 || reach >= FULL_SCALE {
        1
    } else {
        2 * full_scale_factor(2 * reach)
    }
}

/// The factor to full scale is at least one, and it takes a magnitude that
/// is not zero to `FULL_SCALE` or beyond, but not to twice `FULL_SCALE`
/// unless the magnitude was beyond `FULL_SCALE` to begin with.
pub proof fn lemma_full_scale_factor(reach: int)
    requires
        reach >= 1,
    ensures
        full_scale_factor(reach) >= 1,
        full_scale_factor(reach) * reach >= FULL_SCALE,
        reach < FULL_SCALE ==> full_scale_factor(reach) * reach < 2 * FULL_SCALE,
        reach >= FULL_SCALE ==> full_scale_factor(reach) == 1,
    decreases short_of_full_scale(reach),
{
    if reach < FULL_SCALE {
        lemma_full_scale_factor(2 * reach);
        let f = full_scale_factor(2 * reach);
        assert((2 * f) * reach == f * (2 * reach)) by (nonlinear_arith);
    } else {
        assert(1 * reach == reach);
    }
}

impl V2 {
    /// The vector with the two components given.
    pub fn at(x: i64, y: i64) -> (v: V2)
        ensures
            v == (V2 { x, y }),
    {
        V2 { x, y }
    }

    /// The vector whose components are both zero.
    pub open spec fn zero() -> V2 {
        V2 { x: 0, y: 0 }
    }

    /// Componentwise saturating sum.
    pub open spec fn plus(self, rhs: V2) -> V2 {
        V2 { x: sat(self.x + rhs.x) as i64, y: sat(self.y + rhs.y) as i64 }
    }

    /// Componentwise saturating difference.
    pub open spec fn minus(self, rhs: V2) -> V2 {
        V2 { x: sat(self.x - rhs.x) as i64, y: sat(self.y - rhs.y) as i64 }
    }

    /// Componentwise saturating negation.
    pub open spec fn negated(self) -> V2 {
        V2 { x: sat(-self.x) as i64, y: sat(-self.y) as i64 }
    }

    /// Both components multiplied by the scalar `s`.
    pub open spec fn scaled(self, s: i64) -> V2 {
        V2 {
            x: sat(div_trunc(self.x * s, ONE as int)) as i64,
            y: sat(div_trunc(self.y * s, ONE as int)) as i64,
        }
    }

    /// Componentwise product.
    pub open spec fn times(self, rhs: V2) -> V2 {
        V2 {
            x: sat(div_trunc(self.x * rhs.x, ONE as int)) as i64,
            y: sat(div_trunc(self.y * rhs.y, ONE as int)) as i64,
        }
    }

    /// The point reached from `self` after moving at velocity `v` for `k`
    /// milliseconds.
    pub open spec fn advanced(self, v: V2, k: u64) -> V2 {
        V2 { x: sat(self.x + v.x * k) as i64, y: sat(self.y + v.y * k) as i64 }
    }

    /// The dot product, as a scalar.
    pub open spec fn dot_spec(self, rhs: V2) -> int {
        sat(div_trunc(self.x * rhs.x + self.y * rhs.y, ONE as int))
    }

    /// The square of the length, in squared billionths.
    pub open spec fn len_sq(self) -> int {
        self.x * self.x + self.y * self.y
    }

    /// The length, as a scalar rounded down.
    pub open spec fn len_spec(self) -> int {
        sqrt_floor(self.len_sq())
    }

    /// The magnitude of the larger component.
    pub open spec fn reach(self) -> int {
        if mag(self.x as int) >= mag(self.y as int) {
            mag(self.x as int)
        } else {
            mag(self.y as int)
        }
    }

    /// How many times as long as `self` the vector `self.scaled_up()` is: a
    /// power of two.
    pub open spec fn scale_factor(self) -> int {
        full_scale_factor(self.reach())
    }

    /// The vector doubled until its larger component is at least
    /// `FULL_SCALE` in magnitude; the zero vector, which no doubling helps,
    /// is left as it is. Doubling keeps the direction, and at full scale the
    /// length rounded down to a whole billionth is as good as the true
    /// length.
    pub open spec fn scaled_up(self) -> V2 {
        V2 { x: (self.scale_factor() * self.x) as i64, y: (self.scale_factor() * self.y) as i64 }
    }

    /// The vector rescaled to the length `new_len`: each component is
    /// multiplied by `new_len` and divided by the length of the vector. So
    /// that a short vector's length is not lost to rounding, the quotient is
    /// taken of the vector at full scale, which points the same way.
    pub open spec fn with_len(self, new_len: i64) -> V2 {
        let s = self.scaled_up();
        V2 {
            x: sat(div_trunc(s.x * new_len, s.len_spec())) as i64,
            y: sat(div_trunc(s.y * new_len, s.len_spec())) as i64,
        }
    }

    /// The vector of length one in the direction of `self`; the zero vector,
    /// which has no direction, is its own normal form.
    pub open spec fn normalized(self) -> V2 {
        if self == Self::zero() {
            self
        } else {
            self.with_len(ONE)
        }
    }

    /// The vector turned counter-clockwise by the rotation `r`.
    pub open spec fn rotated(self, r: Rotor) -> V2 {
        V2 {
            x: sat(div_trunc(r.cos() * self.x - r.sin() * self.y, ONE as int)) as i64,
            y: sat(div_trunc(r.sin() * self.x + r.cos() * self.y, ONE as int)) as i64,
        }
    }

    /// Moves a point along a velocity for `k` milliseconds.
    pub fn advance(self, v: V2, k: u64) -> (r: V2)
        ensures
            r == self.advanced(v, k),
    {
        V2 { x: mul_add(self.x, v.x, k), y: mul_add(self.y, v.y, k) }
    }

    /// Dot product of two vectors.
    pub fn dot(self, rhs: V2) -> (d: i64)
        ensures
            d == self.dot_spec(rhs),
    {
        let (a, b) = Self::products(self.x, rhs.x, self.y, rhs.y);
        if a == 0x4000_0000_0000_0000_0000_0000_0000_0000
            && b == 0x4000_0000_0000_0000_0000_0000_0000_0000 {
            i64::MAX
        } else {
            saturate((a + b) / (ONE as i128))
        }
    }

    /// The two products `a * b` and `c * d`, each of which fits sixteen bytes
    /// with a bit to spare.
    fn products(a: i64, b: i64, c: i64, d: i64) -> (r: (i128, i128))
        ensures
            r.0 == a * b,
            r.1 == c * d,
            -0x4000_0000_0000_0000_0000_0000_0000_0000 <= r.0
                <= 0x4000_0000_0000_0000_0000_0000_0000_0000,
            -0x4000_0000_0000_0000_0000_0000_0000_0000 <= r.1
                <= 0x4000_0000_0000_0000_0000_0000_0000_0000,
    {
        assert(-0x4000_0000_0000_0000_0000_0000_0000_0000 <= a * b
            <= 0x4000_0000_0000_0000_0000_0000_0000_0000) by (nonlinear_arith)
            requires
                -0x8000_0000_0000_0000 <= a <= 0x7fff_ffff_ffff_ffff,
                -0x8000_0000_0000_0000 <= b <= 0x7fff_ffff_ffff_ffff,
        ;
        assert(-0x4000_0000_0000_0000_0000_0000_0000_0000 <= c * d
            <= 0x4000_0000_0000_0000_0000_0000_0000_0000) by (nonlinear_arith)
            requires
                -0x8000_0000_0000_0000 <= c <= 0x7fff_ffff_ffff_ffff,
                -0x8000_0000_0000_0000 <= d <= 0x7fff_ffff_ffff_ffff,
        ;
        ((a as i128) * (b as i128), (c as i128) * (d as i128))
    }

    /// Length of the vector, rounded down to a whole billionth. It is zero
    /// for the zero vector alone.
    pub fn len(self) -> (l: u64)
        ensures
            l == self.len_spec(),
            l == 0 <==> self == Self::zero(),
    {
        let (a, b) = Self::products(self.x, self.x, self.y, self.y);
        assert(a >= 0 && (a == 0 <==> self.x == 0)) by (nonlinear_arith)
            requires
                a == self.x * self.x,
        ;
        assert(b >= 0 && (b == 0 <==> self.y == 0)) by (nonlinear_arith)
            requires
                b == self.y * self.y,
        ;
        let l = isqrt(a as u128 + b as u128);
        assert(l == 0 <==> a + b == 0) by (nonlinear_arith)
            requires
                0 <= l,
                0 <= a + b,
                l * l <= a + b < (l + 1) * (l + 1),
        ;
        l
    }

    /// The vector doubled until its larger component is at least
    /// `FULL_SCALE` in magnitude. The zero vector is handed back as it is.
    pub fn scale_up(self) -> (s: V2)
        ensures
            s == self.scaled_up(),
            s == Self::zero() <==> self == Self::zero(),
    {
        let mut cur = self;
        let ghost mut c: int = 1;
        proof {
            assert(1 * self.x == self.x && 1 * self.y == self.y);
            assert(1 * cur.scale_factor() == cur.scale_factor());
        }
        while !(cur.x == 0 && cur.y == 0) && cur.x > -FULL_SCALE && cur.x < FULL_SCALE && cur.y
            > -FULL_SCALE && cur.y < FULL_SCALE
            invariant
                c >= 1,
                cur.x == c * self.x,
                cur.y == c * self.y,
                self.scale_factor() == c * cur.scale_factor(),
                cur == Self::zero() <==> self == Self::zero(),
            decreases short_of_full_scale(cur.reach()),
        {
            let ghost before = cur;
            cur = V2 { x: 2 * cur.x, y: 2 * cur.y };
            proof {
                assert(cur.reach() == 2 * before.reach());
                assert(before.reach() >= 1);
                let f = cur.scale_factor();
                assert(before.scale_factor() == 2 * f);
                assert(c * (2 * f) == (2 * c) * f) by (nonlinear_arith);
                assert(2 * (c * self.x) == (2 * c) * self.x) by (nonlinear_arith);
                assert(2 * (c * self.y) == (2 * c) * self.y) by (nonlinear_arith);
                c = 2 * c;
            }
        }
        proof {
            assert(cur.scale_factor() == 1);
            assert(c * 1 == c);
        }
        cur
    }

    /// The vector rescaled to length `new_len`, direction kept. The zero
    /// vector has no direction to keep and is not accepted.
    pub fn set_len(self, new_len: i64) -> (r: V2)
        requires
            self != Self::zero(),
        ensures
            r == self.with_len(new_len),
    {
        let s = self.scale_up();
        let l = s.len();
        V2 { x: muldiv(s.x, new_len, l), y: muldiv(s.y, new_len, l) }
    }

    /// The unit vector in the direction of `self`. The zero vector is handed
    /// back as it is: nothing is divided by zero.
    pub fn norm(self) -> (r: V2)
        ensures
            r == self.normalized(),
            self == Self::zero() ==> r == Self::zero(),
    {
        if self.x == 0 && self.y == 0 {
            return self;
        }
        self.set_len(ONE)
    }

    /// The vector turned counter-clockwise by the rotation `r`.
    pub fn rot(self, r: Rotor) -> (v: V2)
        ensures
            v == self.rotated(r),
    {
        let c = r.cosine();
        let s = r.sine();
        let (cx, sy) = Self::bounded_products(c, self.x, s, self.y);
        let (sx, cy) = Self::bounded_products(s, self.x, c, self.y);
        V2 { x: saturate((cx - sy) / (ONE as i128)), y: saturate((sx + cy) / (ONE as i128)) }
    }

    /// The two products `a * b` and `c * d` where `a` and `c` are at most one
    /// in magnitude.
    fn bounded_products(a: i64, b: i64, c: i64, d: i64) -> (r: (i128, i128))
        requires
            -ONE <= a <= ONE,
            -ONE <= c <= ONE,
        ensures
            r.0 == a * b,
            r.1 == c * d,
            -0x8000_0000_0000_0000 * ONE <= r.0 <= 0x8000_0000_0000_0000 * ONE,
            -0x8000_0000_0000_0000 * ONE <= r.1 <= 0x8000_0000_0000_0000 * ONE,
    {
        assert(-0x8000_0000_0000_0000 * 1_000_000_000 <= a * b <= 0x8000_0000_0000_0000
            * 1_000_000_000) by (nonlinear_arith)
            requires
                -1_000_000_000 <= a <= 1_000_000_000,
                -0x8000_0000_0000_0000 <= b <= 0x7fff_ffff_ffff_ffff,
        ;
        assert(-0x8000_0000_0000_0000 * 1_000_000_000 <= c * d <= 0x8000_0000_0000_0000
            * 1_000_000_000) by (nonlinear_arith)
            requires
                -1_000_000_000 <= c <= 1_000_000_000,
                -0x8000_0000_0000_0000 <= d <= 0x7fff_ffff_ffff_ffff,
        ;
        ((a as i128) * (b as i128), (c as i128) * (d as i128))
    }
}

impl core::ops::Add for V2 {
    type Output = V2;

    fn add(self, rhs: V2) -> (r: V2) {
        V2 { x: plus(self.x, rhs.x), y: plus(self.y, rhs.y) }
    }
}

impl AddSpecImpl for V2 {
    open spec fn obeys_add_spec() -> bool {
        true
    }

    open spec fn add_req(self, rhs: V2) -> bool {
        true
    }

    open spec fn add_spec(self, rhs: V2) -> V2 {
        self.plus(rhs)
    }
}

impl core::ops::Sub for V2 {
    type Output = V2;

    fn sub(self, rhs: V2) -> (r: V2) {
        V2 { x: minus(self.x, rhs.x), y: minus(self.y, rhs.y) }
    }
}

impl SubSpecImpl for V2 {
    open spec fn obeys_sub_spec() -> bool {
        true
    }

    open spec fn sub_req(self, rhs: V2) -> bool {
        true
    }

    open spec fn sub_spec(self, rhs: V2) -> V2 {
        self.minus(rhs)
    }
}

impl core::ops::Mul for V2 {
    type Output = V2;

    fn mul(self, rhs: V2) -> (r: V2) {
        V2 { x: muldiv(self.x, rhs.x, ONE as u64), y: muldiv(self.y, rhs.y, ONE as u64) }
    }
}

impl MulSpecImpl for V2 {
    open spec fn obeys_mul_spec() -> bool {
        true
    }

    open spec fn mul_req(self, rhs: V2) -> bool {
        true
    }

    open spec fn mul_spec(self, rhs: V2) -> V2 {
        self.times(rhs)
    }
}

impl core::ops::Mul<i64> for V2 {
    type Output = V2;

    fn mul(self, rhs: i64) -> (r: V2) {
        V2 { x: muldiv(self.x, rhs, ONE as u64), y: muldiv(self.y, rhs, ONE as u64) }
    }
}

impl MulSpecImpl<i64> for V2 {
    open spec fn obeys_mul_spec() -> bool {
        true
    }

    open spec fn mul_req(self, rhs: i64) -> bool {
        true
    }

    open spec fn mul_spec(self, rhs: i64) -> V2 {
        self.scaled(rhs)
    }
}

impl core::ops::Neg for V2 {
    type Output = V2;

    fn neg(self) -> (r: V2) {
        V2 { x: negate(self.x), y: negate(self.y) }
    }
}

impl NegSpecImpl for V2 {
    open spec fn obeys_neg_spec() -> bool {
        true
    }

    open spec fn neg_req(self) -> bool {
        true
    }

    open spec fn neg_spec(self) -> V2 {
        self.negated()
    }
}

/// The largest component, in magnitude, for which the laws of rotation below
/// are stated: an eighth of the range of a scalar, so that a vector turned
/// twice never saturates.
pub const TURN_LIMIT: i64 = 0x1000_0000_0000_0000;

/// What rounding toward zero leaves behind: less than one divisor.
proof fn lemma_trunc_remainder(n: int)
    ensures
        -ONE < n - ONE * div_trunc(n, ONE as int) < ONE,
{
}

/// A product with a factor of at most one in magnitude is no larger in
/// magnitude than the other factor, taken a billion times.
proof fn lemma_unit_product(m: int, x: int, bound: int)
    by (nonlinear_arith)
    requires
        -ONE <= m <= ONE,
        -bound <= x <= bound,
        ONE == 1_000_000_000,
    ensures
        -ONE * bound <= m * x <= ONE * bound,
{
}

/// One component of a vector that was turned and turned back. `x` is the
/// component and `y` the other one, signed so that the first turn takes
/// `(x, y)` to `(c * x - s * y, s * x + c * y) / ONE`; `x1` and `y1` are the
/// two components after the first turn and `w` the component after the
/// second.
proof fn lemma_turn_back(c: int, s: int, x: int, y: int, x1: int, y1: int, w: int)
    requires
        -ONE <= c <= ONE,
        -ONE <= s <= ONE,
        x1 == div_trunc(c * x - s * y, ONE as int),
        y1 == div_trunc(s * x + c * y, ONE as int),
        w == div_trunc(c * x1 + s * y1, ONE as int),
    ensures
        -3 * ONE * ONE < ONE * ONE * (w - x) - x * (c * c + s * s - ONE * ONE) < 3 * ONE * ONE,
{
    let n1 = c * x - s * y;
    let n2 = s * x + c * y;
    let n3 = c * x1 + s * y1;
    let r1 = n1 - ONE * x1;
    let r2 = n2 - ONE * y1;
    let r3 = n3 - ONE * w;
    lemma_trunc_remainder(n1);
    lemma_trunc_remainder(n2);
    lemma_trunc_remainder(n3);
    lemma_unit_product(c, r1, ONE as int);
    lemma_unit_product(s, r2, ONE as int);
    let one = ONE as int;
    let ox1 = one * x1;
    let oy1 = one * y1;
    let ow = one * w;
    let cx1 = c * x1;
    let sy1 = s * y1;
    assert(c * n1 == c * c * x - c * s * y) by (nonlinear_arith)
        requires
            n1 == c * x - s * y,
    ;
    assert(s * n2 == s * s * x + c * s * y) by (nonlinear_arith)
        requires
            n2 == s * x + c * y,
    ;
    assert((c * c + s * s) * x == c * c * x + s * s * x) by (nonlinear_arith);
    assert(c * r1 == c * n1 - c * ox1) by (nonlinear_arith)
        requires
            r1 == n1 - ox1,
    ;
    assert(s * r2 == s * n2 - s * oy1) by (nonlinear_arith)
        requires
            r2 == n2 - oy1,
    ;
    assert(c * ox1 == one * cx1) by (nonlinear_arith)
        requires
            ox1 == one * x1,
            cx1 == c * x1,
    ;
    assert(s * oy1 == one * sy1) by (nonlinear_arith)
        requires
            oy1 == one * y1,
            sy1 == s * y1,
    ;
    assert(one * r3 == one * cx1 + one * sy1 - one * ow) by (nonlinear_arith)
        requires
            r3 == cx1 + sy1 - ow,
    ;
    assert(one * ow == one * one * w) by (nonlinear_arith)
        requires
            ow == one * w,
    ;
    assert(x * (c * c + s * s - one * one) == (c * c + s * s) * x - one * one * x)
        by (nonlinear_arith);
    assert(one * one * (w - x) == one * one * w - one * one * x) by (nonlinear_arith);
    assert(one * one * (w - x) - x * (c * c + s * s - one * one) == -(c * r1 + s * r2) - one * r3);
    assert(-one * one < one * r3 < one * one) by (nonlinear_arith)
        requires
            -one < r3 < one,
            one == 1_000_000_000,
    ;
}

/// A component that came back within three billionths of itself stretched
/// by a squared length no more than `UNIT_SLACK` from one came back within
/// three billionths and two millionths of itself.
proof fn lemma_within_slack(diff: int, x: int, d: int)
    requires
        -UNIT_SLACK <= d <= UNIT_SLACK,
        -3 * ONE * ONE < ONE * ONE * diff - x * d < 3 * ONE * ONE,
    ensures
        500_000 * mag(diff) < 1_500_000 + mag(x),
{
    let slack = UNIT_SLACK as int;
    assert(-(mag(x) * slack) <= x * d <= mag(x) * slack) by (nonlinear_arith)
        requires
            -slack <= d <= slack,
    ;
    assert(ONE * ONE == 500_000 * slack);
    assert(mag(x) * slack == slack * mag(x)) by (nonlinear_arith);
    assert((500_000 * slack) * diff == slack * (500_000 * diff)) by (nonlinear_arith);
    assert(3 * (500_000 * slack) == slack * 1_500_000);
    assert(-(1_500_000 + mag(x)) < 500_000 * diff < 1_500_000 + mag(x)) by (nonlinear_arith)
        requires
            -(slack * 1_500_000) - slack * mag(x) < slack * (500_000 * diff) < slack * 1_500_000
                + slack * mag(x),
            slack > 0,
    ;
}

/// Turning a vector and then turning it back hands back the vector, but for
/// rounding and for what the rotor lacks of a unit vector: each component
/// comes back within three billionths of itself stretched by the rotor's
/// squared length. As no rotor is more than a millionth off unit length,
/// each component comes back within three billionths and two millionths of
/// itself; with a rotor of length exactly one, within two billionths.
///
/// This is stated for vectors whose components are at most `TURN_LIMIT` in
/// magnitude; further out a turned vector can saturate.
pub proof fn lemma_rot_inverse(v: V2, r: Rotor, back: Rotor)
    requires
        r.wf(),
        back.wf(),
        back.cos() == r.cos(),
        back.sin() == -r.sin(),
        -TURN_LIMIT <= v.x <= TURN_LIMIT,
        -TURN_LIMIT <= v.y <= TURN_LIMIT,
    ensures
        ({
            let w = v.rotated(r).rotated(back);
            &&& -3 * ONE * ONE < ONE * ONE * (w.x - v.x) - v.x * r.defect() < 3 * ONE * ONE
            &&& -3 * ONE * ONE < ONE * ONE * (w.y - v.y) - v.y * r.defect() < 3 * ONE * ONE
            &&& r.defect() == 0 ==> -2 <= w.x - v.x <= 2 && -2 <= w.y - v.y <= 2
            &&& 500_000 * mag(w.x - v.x) < 1_500_000 + mag(v.x as int)
            &&& 500_000 * mag(w.y - v.y) < 1_500_000 + mag(v.y as int)
        }),
{
    r.lemma_bounds();
    let c = r.cos();
    let s = r.sin();
    let lim = TURN_LIMIT as int;
    lemma_unit_product(c, v.x as int, lim);
    lemma_unit_product(s, v.y as int, lim);
    lemma_unit_product(s, v.x as int, lim);
    lemma_unit_product(c, v.y as int, lim);
    let n1 = c * v.x - s * v.y;
    let n2 = s * v.x + c * v.y;
    let x1 = div_trunc(n1, ONE as int);
    let y1 = div_trunc(n2, ONE as int);
    assert(-2 * lim <= x1 <= 2 * lim);
    assert(-2 * lim <= y1 <= 2 * lim);
    let t = v.rotated(r);
    assert(t.x == x1 && t.y == y1);
    lemma_unit_product(c, x1, 2 * lim);
    lemma_unit_product(s, y1, 2 * lim);
    lemma_unit_product(s, x1, 2 * lim);
    lemma_unit_product(c, y1, 2 * lim);
    let wx = div_trunc(c * x1 + s * y1, ONE as int);
    let wy = div_trunc(c * y1 - s * x1, ONE as int);
    let w = t.rotated(back);
    assert(back.cos() * t.x - back.sin() * t.y == c * x1 + s * y1) by (nonlinear_arith)
        requires
            back.cos() == c,
            back.sin() == -s,
            t.x == x1,
            t.y == y1,
    ;
    assert(back.sin() * t.x + back.cos() * t.y == c * y1 - s * x1) by (nonlinear_arith)
        requires
            back.cos() == c,
            back.sin() == -s,
            t.x == x1,
            t.y == y1,
    ;
    assert(w.x == wx && w.y == wy);
    lemma_turn_back(c, s, v.x as int, v.y as int, x1, y1, wx);
    // the second component is the first of the vector turned a quarter
    // further: (y, -x) goes to (y1, -x1)
    assert(c * v.y - s * (-v.x) == n2 && s * v.y + c * (-v.x) == -n1) by (nonlinear_arith)
        requires
            n1 == c * v.x - s * v.y,
            n2 == s * v.x + c * v.y,
    ;
    assert(div_trunc(-n1, ONE as int) == -x1);
    assert(c * y1 + s * (-x1) == c * y1 - s * x1) by (nonlinear_arith);
    lemma_turn_back(c, s, v.y as int, -v.x as int, y1, -x1, wy);
    lemma_within_slack(w.x - v.x, v.x as int, r.defect());
    lemma_within_slack(w.y - v.y, v.y as int, r.defect());
    if r.defect() == 0 {
        assert(v.x * r.defect() == 0 && v.y * r.defect() == 0) by (nonlinear_arith)
            requires
                r.defect() == 0,
        ;
        let one = ONE as int;
        assert(-3 < w.x - v.x < 3) by (nonlinear_arith)
            requires
                -3 * one * one < one * one * (w.x - v.x) < 3 * one * one,
                one == 1_000_000_000,
        ;
        assert(-3 < w.y - v.y < 3) by (nonlinear_arith)
            requires
                -3 * one * one < one * one * (w.y - v.y) < 3 * one * one,
                one == 1_000_000_000,
        ;
    }
}

/// A quotient rounded toward zero lies on the side of what was divided and
/// is off by less than one.
proof fn lemma_trunc_quotient(n: int, d: int)
    requires
        d > 0,
    ensures
        ({
            let q = div_trunc(n, d);
            &&& n >= 0 ==> q >= 0 && d * q <= n < d * q + d
            &&& n <= 0 ==> q <= 0 && d * q - d < n <= d * q
        }),
{
    if n >= 0 {
        lemma_fundamental_div_mod(n, d);
        lemma_mod_pos_bound(n, d);
        lemma_div_pos_is_pos(n, d);
    } else {
        lemma_fundamental_div_mod(-n, d);
        lemma_mod_pos_bound(-n, d);
        lemma_div_pos_is_pos(-n, d);
        let k = (-n) / d;
        assert(d * (-k) == -(d * k)) by (nonlinear_arith);
    }
}

/// One component `x` of a vector of length `l`, rescaled to the length `t`:
/// the quotient `q` of `x * t` by `l`.
proof fn lemma_rescaled_component(x: int, t: int, l: int, q: int)
    requires
        l >= 1,
        t >= 0,
        -l <= x <= l,
        q == div_trunc(x * t, l),
    ensures
        -t <= q <= t,
        x >= 0 ==> q >= 0,
        x <= 0 ==> q <= 0,
        q * x >= 0,
        mag(x) * t >= l ==> q * x > 0,
        l * l * (q * q) <= t * t * (x * x),
        t * t * (x * x) < l * l * ((mag(q) + 1) * (mag(q) + 1)),
        -l < x * t - l * q < l,
{
    let n = x * t;
    let a = mag(q);
    let m = mag(x);
    lemma_trunc_quotient(n, l);
    assert(x >= 0 ==> n >= 0) by (nonlinear_arith)
        requires
            n == x * t,
            t >= 0,
    ;
    assert(x <= 0 ==> n <= 0) by (nonlinear_arith)
        requires
            n == x * t,
            t >= 0,
    ;
    assert(mag(n) == m * t) by (nonlinear_arith)
        requires
            n == x * t,
            t >= 0,
            m == mag(x),
    ;
    assert(l * a <= m * t < l * a + l) by (nonlinear_arith)
        requires
            a == mag(q),
            n >= 0 ==> q >= 0 && l * q <= n < l * q + l,
            n <= 0 ==> q <= 0 && l * q - l < n <= l * q,
            mag(n) == m * t,
    ;
    assert(a <= t) by (nonlinear_arith)
        requires
            l * a <= m * t,
            0 <= m <= l,
            l >= 1,
            t >= 0,
            a >= 0,
    ;
    assert(a >= 1 ==> x != 0) by (nonlinear_arith)
        requires
            l * a <= m * t,
            m == mag(x),
            l >= 1,
    ;
    assert(q * x >= 0 && (a >= 1 ==> q * x > 0)) by (nonlinear_arith)
        requires
            x >= 0 ==> q >= 0,
            x <= 0 ==> q <= 0,
            a == mag(q),
            a >= 1 ==> x != 0,
    ;
    assert(m * t >= l ==> a >= 1) by (nonlinear_arith)
        requires
            m * t < l * a + l,
            l >= 1,
            a >= 0,
    ;
    assert(l * (a + 1) == l * a + l && 0 <= l * a) by (nonlinear_arith)
        requires
            l >= 1,
            a >= 0,
    ;
    assert((l * a) * (l * a) <= (m * t) * (m * t) < (l * (a + 1)) * (l * (a + 1)))
        by (nonlinear_arith)
        requires
            0 <= l * a <= m * t < l * a + l,
            l * (a + 1) == l * a + l,
    ;
    assert((l * a) * (l * a) == l * l * (q * q)) by (nonlinear_arith)
        requires
            a == mag(q),
    ;
    assert((m * t) * (m * t) == t * t * (x * x)) by (nonlinear_arith)
        requires
            m == mag(x),
    ;
    assert((l * (a + 1)) * (l * (a + 1)) == l * l * ((a + 1) * (a + 1))) by (nonlinear_arith);
}

/// If squares of numbers that are not negative are in order, so are the
/// numbers.
proof fn lemma_square_order(a: int, b: int)
    by (nonlinear_arith)
    requires
        0 <= a,
        0 <= b,
        a * a < b * b,
    ensures
        a < b,
{
}

/// Two numbers whose successors reach past a circle of radius `t` are
/// themselves not inside the circle of radius `t - 2`.
proof fn lemma_shrunk_circle(a: int, b: int, t: int)
    by (nonlinear_arith)
    requires
        0 <= a,
        0 <= b,
        2 <= t,
        (a + 1) * (a + 1) + (b + 1) * (b + 1) > t * t,
    ensures
        a * a + b * b >= (t - 2) * (t - 2),
{
}

/// What full scale does to a vector that is not zero: it multiplies both
/// components by the same power of two, which takes the larger one to
/// `FULL_SCALE` or beyond and the length with it.
pub proof fn lemma_scaled_up(v: V2)
    requires
        v != V2::zero(),
    ensures
        ({
            let s = v.scaled_up();
            let f = v.scale_factor();
            &&& f >= 1
            &&& s.x == f * v.x
            &&& s.y == f * v.y
            &&& s != V2::zero()
            &&& s.reach() >= FULL_SCALE
            &&& s.len_spec() >= FULL_SCALE
            &&& is_sqrt_floor(s.len_sq(), s.len_spec())
            &&& -s.len_spec() <= s.x <= s.len_spec()
            &&& -s.len_spec() <= s.y <= s.len_spec()
        }),
{
    let f = v.scale_factor();
    let r = v.reach();
    let x = v.x as int;
    let y = v.y as int;
    lemma_full_scale_factor(r);
    assert(mag(f * x) == f * mag(x) && mag(f * y) == f * mag(y)) by (nonlinear_arith)
        requires
            f >= 1,
    ;
    assert(f * mag(x) <= f * r && f * mag(y) <= f * r) by (nonlinear_arith)
        requires
            f >= 1,
            mag(x) <= r,
            mag(y) <= r,
    ;
    if r >= FULL_SCALE {
        assert(f == 1);
        assert(f * x == x && f * y == y && f * r == r) by (nonlinear_arith)
            requires
                f == 1,
        ;
    }
    let s = v.scaled_up();
    assert(s.x == f * x && s.y == f * y);
    assert(s.reach() == f * r);
    let n = s.len_sq();
    let sx = s.x as int;
    let sy = s.y as int;
    let g = s.reach();
    let full = FULL_SCALE as int;
    assert(sx * sx >= 0 && sy * sy >= 0 && (sx * sx >= g * g || sy * sy >= g * g))
        by (nonlinear_arith)
        requires
            g == mag(sx) || g == mag(sy),
    ;
    assert(g * g >= full * full) by (nonlinear_arith)
        requires
            g >= full,
            full >= 0,
    ;
    lemma_sqrt_floor_exists(n);
    let l = s.len_spec();
    assert(l >= full) by (nonlinear_arith)
        requires
            0 <= l,
            n < (l + 1) * (l + 1),
            n >= full * full,
            full >= 0,
    ;
    assert(-l <= sx <= l && -l <= sy <= l) by (nonlinear_arith)
        requires
            0 <= l,
            sx * sx + sy * sy < (l + 1) * (l + 1),
            sx * sx >= 0,
            sy * sy >= 0,
    ;
}

/// Rescaling a vector keeps its direction and gives it the length asked
/// for, to within two billionths, however short or long the vector.
///
/// No component changes sides, and for a length of two billionths or more
/// the rescaled vector and the vector it came from have a positive product.
/// The two are parallel but for rounding: their cross product is smaller in
/// magnitude than the two components of the vector taken together. The
/// length of the rescaled vector is at most the length asked for and at
/// least that length less two billionths.
///
/// This is stated for lengths from zero up to `TURN_LIMIT`.
pub proof fn lemma_set_len(v: V2, new_len: i64)
    requires
        v != V2::zero(),
        0 <= new_len <= TURN_LIMIT,
    ensures
        ({
            let w = v.with_len(new_len);
            &&& w.x * v.x >= 0
            &&& w.y * v.y >= 0
            &&& new_len >= 2 ==> w.x * v.x + w.y * v.y > 0
            &&& -(mag(v.x as int) + mag(v.y as int)) < w.x * v.y - w.y * v.x < mag(v.x as int) + mag(
                v.y as int,
            )
            &&& new_len - 2 <= w.len_spec() <= new_len
        }),
{
    lemma_scaled_up(v);
    let s = v.scaled_up();
    let f = v.scale_factor();
    let x = s.x as int;
    let y = s.y as int;
    let t = new_len as int;
    let l = s.len_spec();
    let qx = div_trunc(x * t, l);
    let qy = div_trunc(y * t, l);
    lemma_rescaled_component(x, t, l, qx);
    lemma_rescaled_component(y, t, l, qy);
    let w = v.with_len(new_len);
    assert(w.x == qx && w.y == qy);
    let a = mag(qx);
    let b = mag(qy);
    let vx = v.x as int;
    let vy = v.y as int;

    // what holds of the vector at full scale holds of the vector itself
    assert(qx * x == f * (qx * vx) && qy * y == f * (qy * vy)) by (nonlinear_arith)
        requires
            x == f * vx,
            y == f * vy,
    ;
    assert(qx * vx >= 0 && qy * vy >= 0) by (nonlinear_arith)
        requires
            f >= 1,
            f * (qx * vx) >= 0,
            f * (qy * vy) >= 0,
    ;

    // the two are parallel but for rounding
    let r1 = x * t - l * qx;
    let r2 = y * t - l * qy;
    let cross_s = qx * y - qy * x;
    let cross_v = qx * vy - qy * vx;
    assert(l * cross_s == r2 * x - r1 * y) by (nonlinear_arith)
        requires
            r1 == x * t - l * qx,
            r2 == y * t - l * qy,
            cross_s == qx * y - qy * x,
    ;
    assert(-(l * mag(x)) <= r2 * x <= l * mag(x) && (x != 0 ==> -(l * mag(x)) < r2 * x < l * mag(
        x,
    ))) by (nonlinear_arith)
        requires
            -l < r2 < l,
            l >= 1,
    ;
    assert(-(l * mag(y)) <= r1 * y <= l * mag(y) && (y != 0 ==> -(l * mag(y)) < r1 * y < l * mag(
        y,
    ))) by (nonlinear_arith)
        requires
            -l < r1 < l,
            l >= 1,
    ;
    assert(l * (mag(x) + mag(y)) == l * mag(x) + l * mag(y)) by (nonlinear_arith);
    assert(-(l * (mag(x) + mag(y))) < l * cross_s < l * (mag(x) + mag(y)));
    assert(-(mag(x) + mag(y)) < cross_s < mag(x) + mag(y)) by (nonlinear_arith)
        requires
            -(l * (mag(x) + mag(y))) < l * cross_s < l * (mag(x) + mag(y)),
            l >= 1,
    ;
    assert(cross_s == f * cross_v) by (nonlinear_arith)
        requires
            x == f * vx,
            y == f * vy,
            cross_s == qx * y - qy * x,
            cross_v == qx * vy - qy * vx,
    ;
    assert(mag(x) + mag(y) == f * (mag(vx) + mag(vy))) by (nonlinear_arith)
        requires
            x == f * vx,
            y == f * vy,
            f >= 1,
    ;
    assert(-(mag(vx) + mag(vy)) < cross_v < mag(vx) + mag(vy)) by (nonlinear_arith)
        requires
            -(f * (mag(vx) + mag(vy))) < f * cross_v < f * (mag(vx) + mag(vy)),
            f >= 1,
    ;

    // the length of the rescaled vector
    let n = w.len_sq();
    assert(n == qx * qx + qy * qy);
    assert(qx * qx == a * a && qy * qy == b * b) by (nonlinear_arith)
        requires
            a == mag(qx),
            b == mag(qy),
    ;
    lemma_sqrt_floor_exists(n);
    let k = w.len_spec();
    assert(is_sqrt_floor(n, k));

    // from above
    assert(l * l * n <= t * t * (x * x + y * y)) by (nonlinear_arith)
        requires
            n == qx * qx + qy * qy,
            l * l * (qx * qx) <= t * t * (x * x),
            l * l * (qy * qy) <= t * t * (y * y),
    ;
    assert(t * t * (x * x + y * y) <= (t * (l + 1)) * (t * (l + 1)) && (t > 0 ==> t * t * (x * x
        + y * y) < (t * (l + 1)) * (t * (l + 1)))) by (nonlinear_arith)
        requires
            x * x + y * y < (l + 1) * (l + 1),
            t >= 0,
    ;
    assert((l * k) * (l * k) <= l * l * n) by (nonlinear_arith)
        requires
            0 <= k,
            k * k <= n,
            l >= 1,
    ;
    assert(0 <= l * k && 0 <= t * (l + 1) && t * (l + 1) == t * l + t) by (nonlinear_arith)
        requires
            0 <= k,
            l >= 1,
            t >= 0,
    ;
    if t > 0 {
        lemma_square_order(l * k, t * (l + 1));
    } else {
        assert(l * k == 0) by (nonlinear_arith)
            requires
                0 <= l * k,
                (l * k) * (l * k) <= 0,
        ;
    }
    assert(k <= t) by (nonlinear_arith)
        requires
            l * k <= t * l + t,
            t > 0 ==> l * k < t * l + t,
            0 <= t < l,
            0 <= k,
    ;

    // from below
    if t >= 2 {
        assert(mag(x) * mag(x) == x * x && mag(y) * mag(y) == y * y) by (nonlinear_arith);
        assert(mag(x) * t >= l || mag(y) * t >= l) by (nonlinear_arith)
            requires
                l * l <= x * x + y * y,
                t >= 2,
                l >= 1,
                mag(x) >= 0,
                mag(y) >= 0,
                mag(x) * mag(x) == x * x,
                mag(y) * mag(y) == y * y,
        ;
        assert(qx * vx + qy * vy > 0) by (nonlinear_arith)
            requires
                f >= 1,
                qx * x == f * (qx * vx),
                qy * y == f * (qy * vy),
                qx * x >= 0,
                qy * y >= 0,
                qx * x > 0 || qy * y > 0,
        ;
        assert(l * l * (t * t) <= t * t * (x * x + y * y)) by (nonlinear_arith)
            requires
                l * l <= x * x + y * y,
        ;
        assert(t * t * (x * x + y * y) < l * l * ((a + 1) * (a + 1) + (b + 1) * (b + 1)))
            by (nonlinear_arith)
            requires
                t * t * (x * x) < l * l * ((a + 1) * (a + 1)),
                t * t * (y * y) < l * l * ((b + 1) * (b + 1)),
        ;
        assert(t * t < (a + 1) * (a + 1) + (b + 1) * (b + 1)) by (nonlinear_arith)
            requires
                l * l * (t * t) < l * l * ((a + 1) * (a + 1) + (b + 1) * (b + 1)),
                l >= 1,
        ;
        lemma_shrunk_circle(a, b, t);
        assert((t - 2) * (t - 2) < (k + 1) * (k + 1));
        lemma_square_order(t - 2, k + 1);
    }
}

/// The normal form of the zero vector is the zero vector. The normal form of
/// any other vector points the same way, is parallel to it but for
/// rounding, and is of length one to within two billionths.
pub proof fn lemma_norm(v: V2)
    ensures
        v == V2::zero() ==> v.normalized() == V2::zero(),
        v != V2::zero() ==> {
            let w = v.normalized();
            &&& w.x * v.x >= 0
            &&& w.y * v.y >= 0
            &&& w.x * v.x + w.y * v.y > 0
            &&& -(mag(v.x as int) + mag(v.y as int)) < w.x * v.y - w.y * v.x < mag(v.x as int) + mag(
                v.y as int,
            )
            &&& ONE - 2 <= w.len_spec() <= ONE
        },
{
    if v != V2::zero() {
        lemma_set_len(v, ONE);
    }
}

} // verus!
