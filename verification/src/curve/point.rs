//! Points in Jacobian coordinates.
use crate::curve::affine::Affine;
use crate::curve::law::{
    ec_add, chord, endo, inverse, lemma_cancel, lemma_difference, lemma_inverse, lemma_product,
    lemma_quotient, minus, plus, quotient, Pt,
};
use crate::curve::lifted::Lifted;
use crate::curve::Curve;
use crate::field::congruence::{
    congruent, lemma_congruent_mod, lemma_congruent_ops, lemma_congruent_small,
};
use crate::field::primes::is_inverse;
use crate::field::{Fe, Modulus};
use vstd::arithmetic::div_mod::lemma_small_mod;
use vstd::prelude::*;

verus! {

/// A point `(x / z^2, y / z^3)`; the neutral element has `z = 0`.
#[derive(Debug)]
pub struct Point<C: Curve> {
    pub(crate) x: Fe<C::Base>,
    pub(crate) y: Fe<C::Base>,
    pub(crate) z: Fe<C::Base>,
}

impl<C: Curve> Clone for Point<C> {
    fn clone(&self) -> (r: Self)
        ensures
            r == *self,
    {
        *self
    }
}

impl<C: Curve> Copy for Point<C> {
}

/// The point with the given Jacobian coordinates.
pub open spec fn jacobian(x: int, y: int, z: int, p: int) -> Pt {
    if z == 0 {
        Pt::Infinity
    } else {
        let w = inverse(z, p);
        Pt::At { x: (x * (w * w)) % p, y: (y * (w * w * w)) % p }
    }
}

impl<C: Curve> View for Point<C> {
    type V = Pt;

    closed spec fn view(&self) -> Pt {
        jacobian(self.x@, self.y@, self.z@, <C::Base as Modulus>::p())
    }
}

/// Jacobian coordinates that are multiples of affine ones by the square and the cube of `z` stand
/// for these.
proof fn lemma_scaled<M: Modulus>(x: int, y: int, z: int, ax: int, ay: int)
    requires
        0 < z < M::p(),
        0 <= ax < M::p(),
        0 <= ay < M::p(),
        congruent(x, ax * (z * z), M::p()),
        congruent(y, ay * (z * z * z), M::p()),
    ensures
        jacobian(x, y, z, M::p()) == (Pt::At { x: ax, y: ay }),
{
    M::lemma_modulus();
    let p = M::p();
    lemma_small_mod(z as nat, p as nat);
    lemma_inverse::<M>(z);
    let w = inverse(z, p);
    let e = z * w;
    lemma_small_mod(1, p as nat);
    assert(congruent(e, 1, p));
    lemma_congruent_ops(e, 1, e, 1, p);
    lemma_congruent_ops(e * e, 1, e, 1, p);
    lemma_congruent_ops(x, ax * (z * z), w * w, w * w, p);
    assert((ax * (z * z)) * (w * w) == ax * (e * e)) by (nonlinear_arith)
        requires
            e == z * w,
    ;
    lemma_congruent_ops(ax, ax, e * e, 1, p);
    lemma_congruent_ops(y, ay * (z * z * z), w * w * w, w * w * w, p);
    assert((ay * (z * z * z)) * (w * w * w) == ay * (e * e * e)) by (nonlinear_arith)
        requires
            e == z * w,
    ;
    lemma_congruent_ops(ay, ay, e * e * e, 1, p);
    lemma_small_mod(ax as nat, p as nat);
    lemma_small_mod(ay as nat, p as nat);
}

/// Jacobian coordinates are multiples of affine ones by the square and the cube of `z`.
proof fn lemma_unscaled<M: Modulus>(x: int, y: int, z: int)
    requires
        0 < z < M::p(),
    ensures
        jacobian(x, y, z, M::p()) matches Pt::At { x: ax, y: ay } && 0 <= ax < M::p() && 0 <= ay
            < M::p() && congruent(x, ax * (z * z), M::p()) && congruent(
            y,
            ay * (z * z * z),
            M::p(),
        ),
{
    M::lemma_modulus();
    let p = M::p();
    lemma_small_mod(z as nat, p as nat);
    lemma_inverse::<M>(z);
    let w = inverse(z, p);
    let e = z * w;
    lemma_small_mod(1, p as nat);
    assert(congruent(e, 1, p));
    lemma_congruent_ops(e, 1, e, 1, p);
    lemma_congruent_ops(e * e, 1, e, 1, p);
    let (a, b) = (x * (w * w), y * (w * w * w));
    lemma_congruent_mod(a, p);
    lemma_congruent_mod(b, p);
    lemma_congruent_ops(a % p, a, z * z, z * z, p);
    lemma_congruent_ops(b % p, b, z * z * z, z * z * z, p);
    assert(a * (z * z) == x * (e * e)) by (nonlinear_arith)
        requires
            a == x * (w * w),
            e == z * w,
    ;
    assert(b * (z * z * z) == y * (e * e * e)) by (nonlinear_arith)
        requires
            b == y * (w * w * w),
            e == z * w,
    ;
    lemma_congruent_ops(x, x, e * e, 1, p);
    lemma_congruent_ops(y, y, e * e * e, 1, p);
}

/// The coordinates of a chord's third point, scaled by the square and the cube of `d`, where `t`
/// is the slope times `d`.
proof fn lemma_chord<M: Modulus>(m: int, x1: int, y1: int, x2: int, d: int, t: int)
    requires
        congruent(m * d, t, M::p()),
    ensures
        chord(m, x1, y1, x2, M::p()) matches Pt::At { x, y } && 0 <= x < M::p() && 0 <= y < M::p()
            && congruent(x * (d * d), t * t - (x1 + x2) * (d * d), M::p()) && congruent(
            y * (d * d * d),
            t * (x1 * (d * d) - t * t + (x1 + x2) * (d * d)) - y1 * (d * d * d),
            M::p(),
        ),
{
    M::lemma_modulus();
    let p = M::p();
    let u = m * d;
    let q = d * d;
    let s = x1 + x2;
    let xr = m * m - x1 - x2;
    let x = xr % p;
    lemma_congruent_mod(xr, p);
    lemma_congruent_ops(x, xr, q, q, p);
    assert(xr * q == u * u - s * q) by (nonlinear_arith)
        requires
            xr == m * m - x1 - x2,
            u == m * d,
            q == d * d,
            s == x1 + x2,
    ;
    lemma_congruent_ops(u, t, u, t, p);
    lemma_congruent_ops(u * u, t * t, s * q, s * q, p);
    let yr = m * (x1 - x) - y1;
    let y = yr % p;
    lemma_congruent_mod(yr, p);
    lemma_congruent_ops(y, yr, d * d * d, d * d * d, p);
    assert(yr * (d * d * d) == u * (x1 * q - x * q) - y1 * (d * d * d)) by (nonlinear_arith)
        requires
            yr == m * (x1 - x) - y1,
            u == m * d,
            q == d * d,
    ;
    let v = t * t - s * q;
    lemma_congruent_ops(x1 * q, x1 * q, x * q, v, p);
    lemma_congruent_ops(u, t, x1 * q - x * q, x1 * q - v, p);
    lemma_congruent_ops(
        u * (x1 * q - x * q),
        t * (x1 * q - v),
        y1 * (d * d * d),
        y1 * (d * d * d),
        p,
    );
    assert(x1 * q - v == x1 * q - t * t + s * q);
}

impl<C: Curve> Point<C> {
    /// The view of a point other than the neutral element.
    proof fn lemma_coordinates(self) -> (r: (int, int))
        requires
            self.z@ != 0,
        ensures
            self@ == (Pt::At { x: r.0, y: r.1 }),
            0 <= r.0 < <C::Base as Modulus>::p(),
            0 <= r.1 < <C::Base as Modulus>::p(),
            congruent(self.x@, r.0 * (self.z@ * self.z@), <C::Base as Modulus>::p()),
            congruent(self.y@, r.1 * (self.z@ * self.z@ * self.z@), <C::Base as Modulus>::p()),
    {
        self.z.lemma_view();
        lemma_unscaled::<C::Base>(self.x@, self.y@, self.z@);
        match self@ {
            Pt::At { x, y } => (x, y),
            Pt::Infinity => (0, 0),
        }
    }

    /// The neutral element has `z = 0`.
    pub(crate) proof fn lemma_identity(self)
        ensures
            self.z@ == 0 <==> self@ == Pt::Infinity,
    {
    }

    /// The coordinates scaled with powers of the inverse of `z` are the affine ones.
    pub(crate) proof fn lemma_normal(
        self,
        w: Fe<C::Base>,
        ww: Fe<C::Base>,
        x: Fe<C::Base>,
        y: Fe<C::Base>,
    )
        requires
            self.z@ != 0,
            is_inverse(self.z@, w@, <C::Base as Modulus>::p()),
            ww@ == (w@ * w@) % <C::Base as Modulus>::p(),
            x@ == (self.x@ * ww@) % <C::Base as Modulus>::p(),
            y@ == (self.y@ * ((ww@ * w@) % <C::Base as Modulus>::p())) % <C::Base as Modulus>::p(),
        ensures
            self@ == (Pt::At { x: x@, y: y@ }),
    {
        let p = <C::Base as Modulus>::p();
        <C::Base as Modulus>::lemma_modulus();
        self.z.lemma_view();
        w.lemma_view();
        lemma_small_mod(self.z@ as nat, p as nat);
        lemma_small_mod(1, p as nat);
        let z = self.z@;
        lemma_inverse::<C::Base>(z);
        let v = inverse(z, p);
        let u = w@;
        assert(v * z == z * v && u * z == z * u) by (nonlinear_arith);
        lemma_cancel::<C::Base>(z, v, w@);
        lemma_congruent_small(v, w@, p);
        lemma_congruent_mod(v * v, p);
        lemma_congruent_ops(self.x@, self.x@, ww@, v * v, p);
        lemma_congruent_ops(ww@, v * v, v, v, p);
        lemma_congruent_mod(ww@ * v, p);
        lemma_congruent_ops(self.y@, self.y@, (ww@ * v) % p, v * v * v, p);
    }

    /// The first coordinate scaled with the square of the inverse of `z` is the affine one.
    proof fn lemma_normal_x(self, w: Fe<C::Base>, ww: Fe<C::Base>, x: Fe<C::Base>)
        requires
            self.z@ != 0,
            is_inverse(self.z@, w@, <C::Base as Modulus>::p()),
            ww@ == (w@ * w@) % <C::Base as Modulus>::p(),
            x@ == (self.x@ * ww@) % <C::Base as Modulus>::p(),
        ensures
            self@ matches Pt::At { x: ax, .. } && ax == x@,
    {
        let p = <C::Base as Modulus>::p();
        <C::Base as Modulus>::lemma_modulus();
        self.z.lemma_view();
        w.lemma_view();
        lemma_small_mod(self.z@ as nat, p as nat);
        lemma_small_mod(1, p as nat);
        let z = self.z@;
        lemma_inverse::<C::Base>(z);
        let v = inverse(z, p);
        let u = w@;
        assert(v * z == z * v && u * z == z * u) by (nonlinear_arith);
        lemma_cancel::<C::Base>(z, v, w@);
        lemma_congruent_small(v, w@, p);
        lemma_congruent_mod(v * v, p);
        lemma_congruent_ops(self.x@, self.x@, ww@, v * v, p);
    }

    /// Coordinates of points are residues.
    pub proof fn lemma_view(self)
        ensures
            self@ matches Pt::At { x, y } ==> 0 <= x < <C::Base as Modulus>::p() && 0 <= y
                < <C::Base as Modulus>::p(),
    {
        if self.z@ != 0 {
            let r = self.lemma_coordinates();
        }
    }

    /// The neutral element.
    pub fn identity() -> (r: Self)
        ensures
            r@ == Pt::Infinity,
    {
        Point { x: Fe::zero(), y: Fe::zero(), z: Fe::zero() }
    }

    /// Whether this is the neutral element.
    pub fn is_identity(self) -> (r: bool)
        ensures
            r == (self@ == Pt::Infinity),
    {
        self.z.is_zero()
    }

    /// The point in Jacobian coordinates.
    pub fn from_affine(a: Affine<C>) -> (r: Self)
        ensures
            r@ == a@,
    {
        if a.is_identity() {
            return Self::identity();
        }
        let r = Point { x: a.x, y: a.y, z: Fe::one() };
        proof {
            <C::Base as Modulus>::lemma_modulus();
            a.x.lemma_view();
            a.y.lemma_view();
            let (x, y) = (a.x@, a.y@);
            assert(x * (1 * 1) == x && y * (1 * 1 * 1) == y) by (nonlinear_arith);
            lemma_scaled::<C::Base>(a.x@, a.y@, 1, a.x@, a.y@);
        }
        r
    }

    /// The negative.
    pub fn neg(self) -> (r: Self)
        ensures
            r@ == minus::<C>(self@),
    {
        let r = Point { x: self.x, y: self.y.neg(), z: self.z };
        proof {
            if self.z@ != 0 {
                let p = <C::Base as Modulus>::p();
                <C::Base as Modulus>::lemma_modulus();
                let (x, y) = self.lemma_coordinates();
                self.z.lemma_view();
                let c = self.z@ * self.z@ * self.z@;
                lemma_congruent_mod(-y, p);
                lemma_congruent_mod(-self.y@, p);
                lemma_congruent_ops(0, 0, self.y@, y * c, p);
                lemma_congruent_ops((-y) % p, -y, c, c, p);
                assert((-y) * c == 0 - y * c) by (nonlinear_arith);
                lemma_scaled::<C::Base>(r.x@, r.y@, r.z@, x, (-y) % p);
            }
        }
        r
    }

    /// The image under the endomorphism.
    pub fn endo(self) -> (r: Self)
        ensures
            r@ == endo::<C>(self@),
    {
        let zeta = Fe::<C::Base>::zeta();
        let r = Point { x: self.x.mul(zeta), y: self.y, z: self.z };
        proof {
            if self.z@ != 0 {
                let p = <C::Base as Modulus>::p();
                <C::Base as Modulus>::lemma_modulus();
                let (x, y) = self.lemma_coordinates();
                self.z.lemma_view();
                let q = self.z@ * self.z@;
                lemma_congruent_mod(self.x@ * zeta@, p);
                lemma_congruent_ops(self.x@, x * q, zeta@, zeta@, p);
                assert((x * q) * zeta@ == (x * zeta@) * q) by (nonlinear_arith);
                lemma_congruent_mod(x * zeta@, p);
                lemma_congruent_ops((x * zeta@) % p, x * zeta@, q, q, p);
                lemma_scaled::<C::Base>(r.x@, r.y@, r.z@, (x * zeta@) % p, y);
            }
        }
        r
    }

    /// The double.
    pub fn double(self) -> (r: Self)
        ensures
            r@ == plus::<C>(self@, self@),
    {
        proof {
            reveal(ec_add);
        }
        if self.z.is_zero() {
            return self;
        }
        let ghost p = <C::Base as Modulus>::p();
        let ghost (x, y) = self.lemma_coordinates();
        let ghost z = self.z@;
        let ghost (u, t) = (3 * x * x, 2 * y);
        let lx = Lifted::new(self.x, Ghost(x * (z * z)));
        let ly = Lifted::new(self.y, Ghost(y * (z * z * z)));
        let lz = Lifted::new(self.z, Ghost(z));
        let a = lx.square();
        let b = ly.square();
        let c = b.square();
        let d = lx.times(b).double().double();
        let e = a.double().plus(a);
        let x3 = e.square().minus(d.double());
        let y3 = e.times(d.minus(x3)).minus(c.double().double().double());
        let z3 = ly.times(lz).double();
        let r = Point { x: x3.value, y: y3.value, z: z3.value };
        proof {
            <C::Base as Modulus>::lemma_modulus();
            self.z.lemma_view();
            r.z.lemma_view();
            lemma_small_mod(z as nat, p as nat);
            lemma_small_mod(y as nat, p as nat);
            lemma_small_mod(r.z@ as nat, p as nat);
            lemma_small_mod(0, p as nat);
            let f = z * z * z * z;
            lemma_product::<C::Base>(z * z, z);
            lemma_product::<C::Base>(z, z);
            lemma_product::<C::Base>(z * z * z, z);
            lemma_product::<C::Base>(t, f);
            lemma_small_mod(2, p as nat);
            lemma_product::<C::Base>(2, y);
            assert(z3.lift@ == t * f) by (nonlinear_arith)
                requires
                    z3.lift@ == 2 * ((y * (z * z * z)) * z),
                    t == 2 * y,
                    f == z * z * z * z,
            ;
            assert((r.z@ == 0) <==> y == 0);
            if y != 0 {
                let m = quotient(u, t, p);
                lemma_quotient::<C::Base>(u, t);
                lemma_chord::<C::Base>(m, x, y, x, t, u);
                let s = plus::<C>(self@, self@);
                assert(s == chord(m, x, y, x, p));
                let (sx, sy) = match s {
                    Pt::At { x, y } => (x, y),
                    Pt::Infinity => (0, 0),
                };
                let (g, h) = (f * f, f * f * f);
                // The new coordinates are those of the tangent's third point, scaled.
                assert(d.lift@ == x * (t * t) * g) by (nonlinear_arith)
                    requires
                        d.lift@ == 2 * (2 * ((x * (z * z)) * b.lift@)),
                        b.lift@ == (y * (z * z * z)) * (y * (z * z * z)),
                        t == 2 * y,
                        g == f * f,
                        f == z * z * z * z,
                ;
                assert(e.lift@ == u * f) by (nonlinear_arith)
                    requires
                        e.lift@ == 2 * a.lift@ + a.lift@,
                        a.lift@ == (x * (z * z)) * (x * (z * z)),
                        u == 3 * x * x,
                        f == z * z * z * z,
                ;
                assert(2 * (2 * (2 * c.lift@)) == y * (t * t * t) * h) by (nonlinear_arith)
                    requires
                        c.lift@ == b.lift@ * b.lift@,
                        b.lift@ == (y * (z * z * z)) * (y * (z * z * z)),
                        t == 2 * y,
                        h == f * f * f,
                        f == z * z * z * z,
                ;
                let k = u * u - (x + x) * (t * t);
                assert(x3.lift@ == k * g) by (nonlinear_arith)
                    requires
                        x3.lift@ == (u * f) * (u * f) - 2 * (x * (t * t) * g),
                        g == f * f,
                        k == u * u - (x + x) * (t * t),
                ;
                let l = u * (x * (t * t) - u * u + (x + x) * (t * t)) - y * (t * t * t);
                let (v, c3) = (x * (t * t), t * t * t);
                let b3 = v - k;
                assert(v * g - k * g == b3 * g) by (nonlinear_arith)
                    requires
                        b3 == v - k,
                ;
                assert((u * f) * (b3 * g) == (u * b3) * h) by (nonlinear_arith)
                    requires
                        g == f * f,
                        h == f * f * f,
                ;
                assert(l == u * b3 - y * c3);
                assert(l * h == (u * b3) * h - (y * c3) * h) by (nonlinear_arith)
                    requires
                        l == u * b3 - y * c3,
                ;
                assert(y3.lift@ == l * h);
                lemma_congruent_ops(sx * (t * t), k, g, g, p);
                lemma_congruent_ops(sy * (t * t * t), l, h, h, p);
                let v = z3.lift@;
                assert((sx * (t * t)) * g == sx * (v * v) && (sy * (t * t * t)) * h == sy * (v * v
                    * v)) by (nonlinear_arith)
                    requires
                        v == t * f,
                        g == f * f,
                        h == f * f * f,
                ;
                lemma_congruent_ops(r.z@, v, r.z@, v, p);
                lemma_congruent_ops(r.z@ * r.z@, v * v, r.z@, v, p);
                lemma_congruent_ops(sx, sx, r.z@ * r.z@, v * v, p);
                lemma_congruent_ops(sy, sy, r.z@ * r.z@ * r.z@, v * v * v, p);
                lemma_scaled::<C::Base>(r.x@, r.y@, r.z@, sx, sy);
            }
        }
        r
    }

    /// The sum.
    pub fn add(self, rhs: Self) -> (r: Self)
        ensures
            r@ == plus::<C>(self@, rhs@),
    {
        proof {
            reveal(ec_add);
        }
        if self.z.is_zero() {
            return rhs;
        }
        if rhs.z.is_zero() {
            return self;
        }
        let ghost p = <C::Base as Modulus>::p();
        let ghost (x1, y1) = self.lemma_coordinates();
        let ghost (x2, y2) = rhs.lemma_coordinates();
        let ghost (za, zb) = (self.z@, rhs.z@);
        let ghost w = za * zb;
        let (z1, z2) = (Lifted::new(self.z, Ghost(za)), Lifted::new(rhs.z, Ghost(zb)));
        let (zz1, zz2) = (z1.square(), z2.square());
        let u1 = Lifted::new(self.x, Ghost(x1 * (za * za))).times(zz2);
        let u2 = Lifted::new(rhs.x, Ghost(x2 * (zb * zb))).times(zz1);
        let s1 = Lifted::new(self.y, Ghost(y1 * (za * za * za))).times(zz2.times(z2));
        let s2 = Lifted::new(rhs.y, Ghost(y2 * (zb * zb * zb))).times(zz1.times(z1));
        let h = u2.minus(u1);
        let e = s2.minus(s1);
        let ghost (dx, dy) = (x2 - x1, y2 - y1);
        proof {
            <C::Base as Modulus>::lemma_modulus();
            self.z.lemma_view();
            rhs.z.lemma_view();
            h.value.lemma_view();
            e.value.lemma_view();
            lemma_small_mod(za as nat, p as nat);
            lemma_small_mod(zb as nat, p as nat);
            lemma_small_mod(0, p as nat);
            lemma_small_mod(h.value@ as nat, p as nat);
            lemma_small_mod(e.value@ as nat, p as nat);
            lemma_product::<C::Base>(za, zb);
            lemma_product::<C::Base>(w, w);
            lemma_product::<C::Base>(w * w, w);
            assert(u1.lift@ == x1 * (w * w) && u2.lift@ == x2 * (w * w) && s1.lift@ == y1 * (w * w
                * w) && s2.lift@ == y2 * (w * w * w)) by (nonlinear_arith)
                requires
                    u1.lift@ == (x1 * (za * za)) * (zb * zb),
                    u2.lift@ == (x2 * (zb * zb)) * (za * za),
                    s1.lift@ == (y1 * (za * za * za)) * ((zb * zb) * zb),
                    s2.lift@ == (y2 * (zb * zb * zb)) * ((za * za) * za),
                    w == za * zb,
            ;
            assert(h.lift@ == dx * (w * w) && e.lift@ == dy * (w * w * w)) by (nonlinear_arith)
                requires
                    h.lift@ == x2 * (w * w) - x1 * (w * w),
                    e.lift@ == y2 * (w * w * w) - y1 * (w * w * w),
                    dx == x2 - x1,
                    dy == y2 - y1,
            ;
            lemma_product::<C::Base>(dx, w * w);
            lemma_product::<C::Base>(dy, w * w * w);
            if x1 != x2 {
                lemma_difference::<C::Base>(x2, x1);
            }
            if y1 != y2 {
                lemma_difference::<C::Base>(y2, y1);
            }
            assert(h.value@ == 0 <==> x1 == x2);
            assert(e.value@ == 0 <==> y1 == y2);
        }
        if h.value.is_zero() {
            if e.value.is_zero() {
                return self.double();
            }
            return Self::identity();
        }
        let hh = h.square();
        let hhh = hh.times(h);
        let v = u1.times(hh);
        let x3 = e.square().minus(hhh).minus(v.double());
        let y3 = e.times(v.minus(x3)).minus(s1.times(hhh));
        let z3 = z1.times(z2).times(h);
        let r = Point { x: x3.value, y: y3.value, z: z3.value };
        proof {
            r.z.lemma_view();
            lemma_small_mod(r.z@ as nat, p as nat);
            let f = w * w * w;
            assert(z3.lift@ == dx * f) by (nonlinear_arith)
                requires
                    z3.lift@ == w * (dx * (w * w)),
                    f == w * w * w,
            ;
            lemma_product::<C::Base>(dx, f);
            let m = quotient(dy, dx, p);
            lemma_quotient::<C::Base>(dy, dx);
            lemma_chord::<C::Base>(m, x1, y1, x2, dx, dy);
            let s = plus::<C>(self@, rhs@);
            assert(s == chord(m, x1, y1, x2, p));
            let (sx, sy) = match s {
                Pt::At { x, y } => (x, y),
                Pt::Infinity => (0, 0),
            };
            let (g, k) = (f * f, dy * dy - (x1 + x2) * (dx * dx));
            let c = dx * dx * dx;
            assert(hhh.lift@ == c * g && v.lift@ == x1 * (dx * dx) * g) by (nonlinear_arith)
                requires
                    hhh.lift@ == ((dx * (w * w)) * (dx * (w * w))) * (dx * (w * w)),
                    v.lift@ == (x1 * (w * w)) * ((dx * (w * w)) * (dx * (w * w))),
                    c == dx * dx * dx,
                    g == f * f,
                    f == w * w * w,
            ;
            assert(x3.lift@ == k * g) by (nonlinear_arith)
                requires
                    x3.lift@ == (dy * f) * (dy * f) - c * g - 2 * (x1 * (dx * dx) * g),
                    c == dx * dx * dx,
                    g == f * f,
                    k == dy * dy - (x1 + x2) * (dx * dx),
                    dx == x2 - x1,
            ;
            let l = dy * (x1 * (dx * dx) - dy * dy + (x1 + x2) * (dx * dx)) - y1 * c;
            let a = x1 * (dx * dx);
            assert(l == dy * (a - k) - y1 * c);
            let b = a - k;
            assert(a * g - k * g == b * g) by (nonlinear_arith)
                requires
                    b == a - k,
            ;
            assert((dy * f) * (b * g) == (dy * b) * (f * g)) by (nonlinear_arith);
            assert((y1 * f) * (c * g) == (y1 * c) * (f * g)) by (nonlinear_arith);
            assert(f * g == f * f * f) by (nonlinear_arith)
                requires
                    g == f * f,
            ;
            assert(y3.lift@ == l * (f * f * f)) by (nonlinear_arith)
                requires
                    y3.lift@ == (dy * b) * (f * g) - (y1 * c) * (f * g),
                    f * g == f * f * f,
                    l == dy * b - y1 * c,
            ;
            lemma_congruent_ops(sx * (dx * dx), k, g, g, p);
            lemma_congruent_ops(sy * c, l, f * f * f, f * f * f, p);
            let t = z3.lift@;
            assert((sx * (dx * dx)) * g == sx * (t * t) && (sy * c) * (f * f * f) == sy * (t * t
                * t)) by (nonlinear_arith)
                requires
                    t == dx * f,
                    g == f * f,
                    c == dx * dx * dx,
            ;
            lemma_congruent_ops(r.z@, t, r.z@, t, p);
            lemma_congruent_ops(r.z@ * r.z@, t * t, r.z@, t, p);
            lemma_congruent_ops(sx, sx, r.z@ * r.z@, t * t, p);
            lemma_congruent_ops(sy, sy, r.z@ * r.z@ * r.z@, t * t * t, p);
            lemma_scaled::<C::Base>(r.x@, r.y@, r.z@, sx, sy);
        }
        r
    }

    /// The difference.
    pub fn sub(self, rhs: Self) -> (r: Self)
        ensures
            r@ == plus::<C>(self@, minus::<C>(rhs@)),
    {
        self.add(rhs.neg())
    }

    /// The first affine coordinate, or zero for the neutral element.
    pub fn x_or_zero(self) -> (r: Fe<C::Base>)
        ensures
            r@ == match self@ {
                Pt::Infinity => 0,
                Pt::At { x, y } => x,
            },
    {
        if self.z.is_zero() {
            return Fe::zero();
        }
        let w = self.z.invert_nonzero();
        let ww = w.square();
        let x = self.x.mul(ww);
        proof {
            self.lemma_normal_x(w, ww, x);
        }
        x
    }

    /// Whether two points other than the neutral element have the same first coordinate.
    pub fn same_x(self, rhs: Self) -> (r: bool)
        requires
            self@ != Pt::Infinity,
            rhs@ != Pt::Infinity,
        ensures
            self@ matches Pt::At { x: x1, .. } && (rhs@ matches Pt::At { x: x2, .. } && r == (x1
                == x2)),
    {
        let ghost p = <C::Base as Modulus>::p();
        let ghost (x1, y1) = self.lemma_coordinates();
        let ghost (x2, y2) = rhs.lemma_coordinates();
        let ghost (za, zb) = (self.z@, rhs.z@);
        let (z1, z2) = (Lifted::new(self.z, Ghost(za)), Lifted::new(rhs.z, Ghost(zb)));
        let u1 = Lifted::new(self.x, Ghost(x1 * (za * za))).times(z2.square());
        let u2 = Lifted::new(rhs.x, Ghost(x2 * (zb * zb))).times(z1.square());
        let d = u2.minus(u1);
        proof {
            <C::Base as Modulus>::lemma_modulus();
            self.z.lemma_view();
            rhs.z.lemma_view();
            d.value.lemma_view();
            lemma_small_mod(za as nat, p as nat);
            lemma_small_mod(zb as nat, p as nat);
            lemma_small_mod(0, p as nat);
            lemma_small_mod(d.value@ as nat, p as nat);
            lemma_product::<C::Base>(za, za);
            lemma_product::<C::Base>(zb, zb);
            let w = (za * za) * (zb * zb);
            lemma_product::<C::Base>(za * za, zb * zb);
            assert((x1 * (za * za)) * (zb * zb) == x1 * ((za * za) * (zb * zb)))
                by (nonlinear_arith);
            assert((x2 * (zb * zb)) * (za * za) == x2 * ((za * za) * (zb * zb)))
                by (nonlinear_arith);
            assert(x2 * w - x1 * w == (x2 - x1) * w) by (nonlinear_arith);
            lemma_product::<C::Base>(x2 - x1, w);
            if x1 != x2 {
                lemma_difference::<C::Base>(x2, x1);
            }
        }
        d.value.is_zero()
    }

    /// The sum with a point in affine coordinates.
    pub fn add_affine(self, rhs: Affine<C>) -> (r: Self)
        ensures
            r@ == plus::<C>(self@, rhs@),
    {
        self.add(Self::from_affine(rhs))
    }
}

} // verus!
