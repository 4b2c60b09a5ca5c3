//! Tables of digit multiples, and the ladder that uses them.
use crate::curve::affine::Affine;
use crate::curve::batch::{batch_normalize, is_affine_of, lemma_affine_of};
use crate::curve::law::{
    ec_add, endo, lemma_endo, lemma_smul_add, lemma_smul_closed, lemma_smul_congruent,
    lemma_smul_infinity, lemma_smul_injective, lemma_smul_neg, lemma_smul_small, minus, on_curve,
    order, plus, smul, Pt,
};
use crate::curve::point::Point;
use crate::curve::Group;
use crate::field::congruence::{congruent, lemma_congruent_mod, lemma_congruent_ops};
use crate::field::{Fe, Modulus};
use crate::glv::digits::{coeffs, decode_digit, delta, is_negated, orbit_of, rotate, rotation_of};
use crate::glv::params::GlvParams;
use crate::glv::scalar::{digit_of, lemma_suffix, lemma_suffix_end, suffix_of, Decomposed};
use vstd::arithmetic::div_mod::lemma_small_mod;
use vstd::prelude::*;

verus! {

/// The multiple of a point by `a + b * lambda`.
pub open spec fn eisenstein<C: Group>(a: int, b: int, p: Pt) -> Pt {
    smul::<C>(a + b * <C::Scalar as Modulus>::cube_root(), p)
}

proof fn lemma_eisenstein_add<C: Group>(a: int, b: int, c: int, d: int, p: Pt)
    requires
        on_curve::<C>(p),
    ensures
        plus::<C>(eisenstein::<C>(a, b, p), eisenstein::<C>(c, d, p)) == eisenstein::<C>(
            a + c,
            b + d,
            p,
        ),
{
    let z = <C::Scalar as Modulus>::cube_root();
    lemma_smul_add::<C>(a + b * z, c + d * z, p);
    assert(b * z + d * z == (b + d) * z) by (nonlinear_arith);
}

proof fn lemma_eisenstein_neg<C: Group>(a: int, b: int, p: Pt)
    requires
        on_curve::<C>(p),
    ensures
        minus::<C>(eisenstein::<C>(a, b, p)) == eisenstein::<C>(-a, -b, p),
{
    let z = <C::Scalar as Modulus>::cube_root();
    lemma_smul_neg::<C>(a + b * z, p);
    assert((-b) * z == -(b * z)) by (nonlinear_arith);
}

proof fn lemma_eisenstein_endo<C: Group>(a: int, b: int, p: Pt)
    requires
        on_curve::<C>(p),
    ensures
        endo::<C>(eisenstein::<C>(a, b, p)) == eisenstein::<C>(-b, a - b, p),
{
    <C::Scalar as Modulus>::lemma_modulus();
    let (z, n) = (<C::Scalar as Modulus>::cube_root(), order::<C>());
    lemma_endo::<C>(a + b * z, p);
    let e = z * z + z + 1;
    lemma_small_mod(0, n as nat);
    assert((a + b * z) * z == (-b + (a - b) * z) + b * (z * z + z + 1)) by (nonlinear_arith);
    lemma_congruent_ops(b, b, e, 0, n);
    assert(b * 0 == 0);
    let v = -b + (a - b) * z;
    lemma_congruent_ops(v, v, b * e, 0, n);
    lemma_smul_congruent::<C>((a + b * z) * z, v, p);
}

/// A nonzero digit is not a multiple of the order.
pub proof fn lemma_digit_nonzero<C: Group>(code: int)
    requires
        1 <= code <= 48,
    ensures
        digit_of::<C>(code) % order::<C>() != 0,
{
    <C::Scalar as Modulus>::lemma_modulus();
    let (z, n) = (<C::Scalar as Modulus>::cube_root(), order::<C>());
    let (a, b) = coeffs(code);
    let m = a * a - a * b + b * b;
    assert(0 < m < 100) by {
        lemma_norm(code);
    }
    lemma_small_mod(0, n as nat);
    lemma_small_mod(m as nat, n as nat);
    let v = a + b * z;
    let e = z * z + z + 1;
    if v % n == 0 {
        // The norm is a multiple of the digit.
        assert((a + b * z) * (a - b - b * z) == (a * a - a * b + b * b) - (b * b) * (z * z + z + 1))
            by (nonlinear_arith);
        lemma_congruent_ops(v, 0, a - b - b * z, a - b - b * z, n);
        assert(0 * (a - b - b * z) == 0);
        lemma_congruent_ops(b * b, b * b, e, 0, n);
        assert((b * b) * 0 == 0);
        lemma_congruent_ops(v * (a - b - b * z), 0, (b * b) * e, 0, n);
    }
}

/// The norm of a nonzero digit.
proof fn lemma_norm(code: int)
    requires
        1 <= code <= 48,
    ensures
        ({
            let (a, b) = coeffs(code);
            0 < a * a - a * b + b * b < 100
        }),
{
    reveal(coeffs);
    let (a, b) = delta(orbit_of(code));
    let (c, d) = rotate((a, b));
    let (e, f) = rotate((c, d));
    assert((-b) * (-b) - (-b) * (a - b) + (a - b) * (a - b) == a * a - a * b + b * b)
        by (nonlinear_arith);
    assert((-d) * (-d) - (-d) * (c - d) + (c - d) * (c - d) == c * c - c * d + d * d)
        by (nonlinear_arith);
    let (x, y) = coeffs(code);
    let (g, h) = if rotation_of(code) == 0 {
        (a, b)
    } else if rotation_of(code) == 1 {
        (c, d)
    } else {
        (e, f)
    };
    assert((-g) * (-g) - (-g) * (-h) + (-h) * (-h) == g * g - g * h + h * h) by (nonlinear_arith);
    assert(0 < a * a - a * b + b * b < 100);
}

/// The digit multiples of a point: for each orbit the affine coordinates of the representative's
/// multiple, with the first coordinate in all three rotations.
pub struct Table<C: Group> {
    xs0: Vec<Fe<C::Base>>,
    xs1: Vec<Fe<C::Base>>,
    xs2: Vec<Fe<C::Base>>,
    ys: Vec<Fe<C::Base>>,
    base: Ghost<Pt>,
}

/// The affine point with the given coordinates.
pub open spec fn affine_point(x: int, y: int) -> Pt {
    if x == 0 && y == 0 {
        Pt::Infinity
    } else {
        Pt::At { x, y }
    }
}

impl<C: Group> Table<C> {
    /// The table has all multiples of its point.
    #[verifier::type_invariant]
    pub(crate) closed spec fn holds(self) -> bool {
        &&& self.xs0@.len() == 8
        &&& self.xs1@.len() == 8
        &&& self.xs2@.len() == 8
        &&& self.ys@.len() == 8
        &&& on_curve::<C>(self.base@) ==> forall|code: int|
            1 <= code <= 48 ==> #[trigger] self.entry(code) == smul::<C>(
                digit_of::<C>(code),
                self.base@,
            )
    }

    /// The point whose multiples the table holds.
    pub closed spec fn base(self) -> Pt {
        self.base@
    }

    closed spec fn coordinates(self, code: int) -> (int, int) {
        let e = rotation_of(code);
        let i = orbit_of(code);
        let x = if e == 0 {
            self.xs0@[i]@
        } else if e == 1 {
            self.xs1@[i]@
        } else {
            self.xs2@[i]@
        };
        let y = self.ys@[i]@;
        (
            x,
            if is_negated(code) {
                (-y) % <C::Base as Modulus>::p()
            } else {
                y
            },
        )
    }

    /// The entry for a nonzero digit.
    pub closed spec fn entry(self, code: int) -> Pt {
        affine_point(self.coordinates(code).0, self.coordinates(code).1)
    }

    /// The entries of the table of a point on the curve are its multiples by the digits.
    pub(crate) proof fn lemma_entries(self, code: int)
        requires
            self.holds(),
            on_curve::<C>(self.base()),
            1 <= code <= 48,
        ensures
            self.entry(code) == smul::<C>(digit_of::<C>(code), self.base()),
    {
    }

    /// The multiples of the representatives.
    fn window_proj(p: Point<C>) -> (r: Vec<Point<C>>)
        ensures
            r@.len() == 8,
            on_curve::<C>(p@) ==> forall|i: int|
                0 <= i < 8 ==> (#[trigger] r@[i])@ == eisenstein::<C>(delta(i).0, delta(i).1, p@),
    {
        let phi = p.endo();
        let d1 = p.sub(phi);
        let d1_endo = d1.endo();
        let b = d1.sub(d1_endo);
        let b_endo = b.endo();
        let m3 = b_endo.endo();
        let t3a = phi.add(m3);
        let t3b = phi.sub(m3);
        let r3 = b_endo.neg();
        let t4a = phi.add(r3);
        let t4b = phi.sub(r3);
        let t19 = phi.add(t4b);
        let e2 = t4a.endo();
        let f3 = t3b.endo();
        let e3 = f3.neg();
        let e4 = m3.neg();
        let e5 = t3a.neg();
        let f6 = t4b.endo();
        let e6 = f6.endo();
        let f7 = t19.endo();
        let e7 = f7.endo();
        let r = vec![p, d1, e2, e3, e4, e5, e6, e7];
        proof {
            if on_curve::<C>(p@) {
                let q = p@;
                let z = <C::Scalar as Modulus>::cube_root();
                assert(1 + 0 * z == 1);
                lemma_smul_small::<C>(q);
                assert(q == eisenstein::<C>(1, 0, q));
                lemma_eisenstein_endo::<C>(1, 0, q);
                assert(phi@ == eisenstein::<C>(0, 1, q));
                lemma_eisenstein_neg::<C>(0, 1, q);
                lemma_eisenstein_add::<C>(1, 0, 0, -1, q);
                assert(d1@ == eisenstein::<C>(1, -1, q));
                lemma_eisenstein_endo::<C>(1, -1, q);
                lemma_eisenstein_neg::<C>(1, 2, q);
                lemma_eisenstein_add::<C>(1, -1, -1, -2, q);
                assert(b@ == eisenstein::<C>(0, -3, q));
                lemma_eisenstein_endo::<C>(0, -3, q);
                assert(b_endo@ == eisenstein::<C>(3, 3, q));
                lemma_eisenstein_endo::<C>(3, 3, q);
                assert(m3@ == eisenstein::<C>(-3, 0, q));
                lemma_eisenstein_add::<C>(0, 1, -3, 0, q);
                assert(t3a@ == eisenstein::<C>(-3, 1, q));
                lemma_eisenstein_neg::<C>(-3, 0, q);
                lemma_eisenstein_add::<C>(0, 1, 3, 0, q);
                assert(t3b@ == eisenstein::<C>(3, 1, q));
                lemma_eisenstein_neg::<C>(3, 3, q);
                assert(r3@ == eisenstein::<C>(-3, -3, q));
                lemma_eisenstein_add::<C>(0, 1, -3, -3, q);
                assert(t4a@ == eisenstein::<C>(-3, -2, q));
                lemma_eisenstein_neg::<C>(-3, -3, q);
                lemma_eisenstein_add::<C>(0, 1, 3, 3, q);
                assert(t4b@ == eisenstein::<C>(3, 4, q));
                lemma_eisenstein_add::<C>(0, 1, 3, 4, q);
                assert(t19@ == eisenstein::<C>(3, 5, q));
                lemma_eisenstein_endo::<C>(-3, -2, q);
                assert(e2@ == eisenstein::<C>(2, -1, q));
                lemma_eisenstein_endo::<C>(3, 1, q);
                lemma_eisenstein_neg::<C>(-1, 2, q);
                assert(e3@ == eisenstein::<C>(1, -2, q));
                assert(e4@ == eisenstein::<C>(3, 0, q));
                lemma_eisenstein_neg::<C>(-3, 1, q);
                assert(e5@ == eisenstein::<C>(3, -1, q));
                lemma_eisenstein_endo::<C>(3, 4, q);
                lemma_eisenstein_endo::<C>(-4, -1, q);
                assert(e6@ == eisenstein::<C>(1, -3, q));
                lemma_eisenstein_endo::<C>(3, 5, q);
                lemma_eisenstein_endo::<C>(-5, -2, q);
                assert(e7@ == eisenstein::<C>(2, -3, q));
            }
        }
        r
    }

    /// The table with the given multiples of the representatives.
    fn from_window(window: &Vec<Affine<C>>, start: usize, Ghost(base): Ghost<Pt>) -> (r: Self)
        requires
            start + 8 <= window@.len(),
            on_curve::<C>(base) ==> forall|i: int|
                0 <= i < 8 ==> (#[trigger] window@[start + i])@ == eisenstein::<C>(
                    delta(i).0,
                    delta(i).1,
                    base,
                ),
        ensures
            r.base() == base,
    {
        let zeta = Fe::<C::Base>::zeta();
        let mut xs0: Vec<Fe<C::Base>> = Vec::new();
        let mut xs1: Vec<Fe<C::Base>> = Vec::new();
        let mut xs2: Vec<Fe<C::Base>> = Vec::new();
        let mut ys: Vec<Fe<C::Base>> = Vec::new();
        let ghost p = <C::Base as Modulus>::p();
        let size = window.len();
        let mut i: usize = 0;
        while i < 8
            invariant
                i <= 8,
                size == window@.len(),
                start + 8 <= size,
                p == <C::Base as Modulus>::p(),
                zeta@ == <C::Base as Modulus>::cube_root(),
                xs0@.len() == i,
                xs1@.len() == i,
                xs2@.len() == i,
                ys@.len() == i,
                forall|j: int|
                    0 <= j < i ==> {
                        let a = #[trigger] window@[start + j];
                        &&& xs0@[j] == a.x
                        &&& xs1@[j]@ == (a.x@ * zeta@) % p
                        &&& xs2@[j]@ == (((a.x@ * zeta@) % p) * zeta@) % p
                        &&& ys@[j] == a.y
                    },
            decreases 8 - i,
        {
            let a = window[start + i];
            let xz = a.x.mul(zeta);
            let xzz = a.x.neg().sub(xz);
            proof {
                <C::Base as Modulus>::lemma_modulus();
                let (x, z) = (a.x@, zeta@);
                let e = z * z + z + 1;
                lemma_small_mod(0, p as nat);
                lemma_congruent_mod(x * z, p);
                lemma_congruent_mod(-x, p);
                lemma_congruent_mod((-x) % p - xz@, p);
                lemma_congruent_ops((-x) % p, -x, xz@, x * z, p);
                lemma_congruent_ops(xz@, x * z, z, z, p);
                assert((x * z) * z == (-x - x * z) + x * (z * z + z + 1)) by (nonlinear_arith);
                lemma_congruent_ops(x, x, e, 0, p);
                assert(x * 0 == 0);
                lemma_congruent_ops(-x - x * z, -x - x * z, x * e, 0, p);
            }
            xs0.push(a.x);
            xs1.push(xz);
            xs2.push(xzz);
            ys.push(a.y);
            i += 1;
        }
        proof {
            if on_curve::<C>(base) {
                let t = Table::<C> { xs0, xs1, xs2, ys, base: Ghost(base) };
                assert forall|code: int| 1 <= code <= 48 implies #[trigger] t.entry(code) == smul::<
                    C,
                >(digit_of::<C>(code), base) by {
                    let o = orbit_of(code);
                    let a = window@[start + o];
                    let (da, db) = delta(o);
                    assert(a@ == eisenstein::<C>(da, db, base));
                    lemma_entry::<C>(a, code, da, db, base, t.coordinates(code));
                }
            }
        }
        Table { xs0, xs1, xs2, ys, base: Ghost(base) }
    }
}

/// The rotated and negated affine coordinates are those of the digit's multiple.
proof fn lemma_entry<C: Group>(
    a: Affine<C>,
    code: int,
    da: int,
    db: int,
    base: Pt,
    c: (int, int),
)
    requires
        on_curve::<C>(base),
        1 <= code <= 48,
        (da, db) == delta(orbit_of(code)),
        a@ == eisenstein::<C>(da, db, base),
        ({
            let (p, z) = (<C::Base as Modulus>::p(), <C::Base as Modulus>::cube_root());
            let e = rotation_of(code);
            &&& c.0 == if e == 0 {
                a.x@
            } else if e == 1 {
                (a.x@ * z) % p
            } else {
                (((a.x@ * z) % p) * z) % p
            }
            &&& c.1 == if is_negated(code) {
                (-a.y@) % p
            } else {
                a.y@
            }
        }),
    ensures
        affine_point(c.0, c.1) == smul::<C>(digit_of::<C>(code), base),
{
    let (p, z) = (<C::Base as Modulus>::p(), <C::Base as Modulus>::cube_root());
    <C::Base as Modulus>::lemma_modulus();
    let e = rotation_of(code);
    lemma_eisenstein_endo::<C>(da, db, base);
    lemma_eisenstein_endo::<C>(-db, da - db, base);
    let r = if e == 0 {
        (da, db)
    } else if e == 1 {
        rotate((da, db))
    } else {
        rotate(rotate((da, db)))
    };
    lemma_eisenstein_neg::<C>(r.0, r.1, base);
    let q0 = a@;
    let q = if e == 0 {
        q0
    } else if e == 1 {
        endo::<C>(q0)
    } else {
        endo::<C>(endo::<C>(q0))
    };
    assert(q == eisenstein::<C>(r.0, r.1, base));
    let s = if is_negated(code) { minus::<C>(q) } else { q };
    assert(s == smul::<C>(digit_of::<C>(code), base)) by {
        reveal(coeffs);
    }
    // The coordinates are those of `s`.
    lemma_smul_closed::<C>(digit_of::<C>(code), base);
    lemma_small_mod(0, p as nat);
    assert(0 * z == 0);
    match q0 {
        Pt::Infinity => {
            assert(c == (0int, 0int));
        },
        Pt::At { x, y } => {
            assert(s == (Pt::At { x: c.0, y: c.1 }));
            lemma_off_curve::<C>();
        },
    }
}

/// The point with coordinates zero is not on the curve.
proof fn lemma_off_curve<C: Group>()
    ensures
        !on_curve::<C>(Pt::At { x: 0, y: 0 }),
{
    <C::Base as Modulus>::lemma_modulus();
    let p = <C::Base as Modulus>::p();
    lemma_small_mod(0, p as nat);
    lemma_small_mod(5, p as nat);
    assert(0 * 0 == 0int && 0 * 0 * 0 + 5 == 5int);
}

impl<C: Group> Table<C> {
    /// The table of a point.
    pub fn new(p: Point<C>) -> (r: Self)
        ensures
            r.base() == p@,
    {
        let proj = Self::window_proj(p);
        let affine = batch_normalize(&proj);
        proof {
            if on_curve::<C>(p@) {
                lemma_window::<C>(proj@, affine@, 0, p@);
            }
        }
        Self::from_window(&affine, 0, Ghost(p@))
    }

    /// The tables of several points, with one shared inversion.
    ///
    /// More points than a vector can hold the entries of get their tables one by one.
    pub fn batch(points: &Vec<Point<C>>) -> (r: Vec<Table<C>>)
        ensures
            r@.len() == points@.len(),
            forall|i: int| 0 <= i < points@.len() ==> (#[trigger] r@[i]).base() == points@[i]@,
    {
        if points.len() <= usize::MAX / 8 {
            return Self::batch_shared(points);
        }
        let mut r: Vec<Table<C>> = Vec::new();
        let mut i: usize = 0;
        while i < points.len()
            invariant
                i <= points@.len(),
                r@.len() == i,
                forall|k: int| 0 <= k < i ==> (#[trigger] r@[k]).base() == points@[k]@,
            decreases points@.len() - i,
        {
            r.push(Self::new(points[i]));
            i += 1;
        }
        r
    }

    /// The tables of several points, with one shared inversion.
    fn batch_shared(points: &Vec<Point<C>>) -> (r: Vec<Table<C>>)
        requires
            points@.len() * 8 <= usize::MAX,
        ensures
            r@.len() == points@.len(),
            forall|i: int| 0 <= i < points@.len() ==> (#[trigger] r@[i]).base() == points@[i]@,
    {
        let n = points.len();
        let mut proj: Vec<Point<C>> = Vec::new();
        let mut i: usize = 0;
        while i < n
            invariant
                i <= n,
                n == points@.len(),
                proj@.len() == 8 * i,
                forall|k: int, j: int|
                    0 <= k < i && 0 <= j < 8 && on_curve::<C>(points@[k]@)
                        ==> (#[trigger] proj@[8 * k + j])@ == #[trigger] representative_of::<C>(
                        j,
                        points@[k]@,
                    ),
            decreases n - i,
        {
            let mut window = Self::window_proj(points[i]);
            let ghost (before, w) = (proj@, window@);
            proj.append(&mut window);
            proof {
                assert forall|k: int, j: int|
                    0 <= k < i + 1 && 0 <= j < 8 && on_curve::<C>(
                        points@[k]@,
                    ) implies (#[trigger] proj@[8 * k + j])@ == #[trigger] representative_of::<C>(
                    j,
                    points@[k]@,
                ) by {
                    if k < i {
                        assert(proj@[8 * k + j] == before[8 * k + j]);
                    } else {
                        assert(proj@[8 * k + j] == w[j]);
                    }
                }
            }
            i += 1;
        }
        let affine = batch_normalize(&proj);
        let mut r: Vec<Table<C>> = Vec::new();
        let mut i: usize = 0;
        while i < n
            invariant
                i <= n,
                n == points@.len(),
                n * 8 <= usize::MAX,
                proj@.len() == 8 * n,
                affine@.len() == 8 * n,
                forall|k: int| 0 <= k < proj@.len() ==> is_affine_of(#[trigger] affine@[k], proj@[k]@),
                forall|k: int, j: int|
                    0 <= k < n && 0 <= j < 8 && on_curve::<C>(points@[k]@)
                        ==> (#[trigger] proj@[8 * k + j])@ == #[trigger] representative_of::<C>(
                        j,
                        points@[k]@,
                    ),
                r@.len() == i,
                forall|k: int| 0 <= k < i ==> (#[trigger] r@[k]).base() == points@[k]@,
            decreases n - i,
        {
            proof {
                if on_curve::<C>(points@[i as int]@) {
                    assert forall|j: int| 0 <= j < 8 implies (#[trigger] proj@[8 * i + j])@
                        == eisenstein::<C>(delta(j).0, delta(j).1, points@[i as int]@) by {
                        assert(proj@[8 * i + j]@ == representative_of::<C>(j, points@[i as int]@));
                    }
                    lemma_window::<C>(proj@, affine@, 8 * i, points@[i as int]@);
                }
            }
            r.push(Self::from_window(&affine, 8 * i, Ghost(points@[i as int]@)));
            i += 1;
        }
        r
    }
}

spec fn representative_of<C: Group>(j: int, base: Pt) -> Pt {
    eisenstein::<C>(delta(j).0, delta(j).1, base)
}

/// Normalized multiples of the representatives are these multiples.
proof fn lemma_window<C: Group>(proj: Seq<Point<C>>, affine: Seq<Affine<C>>, start: int, base: Pt)
    requires
        on_curve::<C>(base),
        0 <= start,
        start + 8 <= proj.len(),
        proj.len() == affine.len(),
        forall|k: int| 0 <= k < proj.len() ==> is_affine_of(#[trigger] affine[k], proj[k]@),
        forall|j: int|
            0 <= j < 8 ==> (#[trigger] proj[start + j])@ == eisenstein::<C>(
                delta(j).0,
                delta(j).1,
                base,
            ),
    ensures
        forall|j: int|
            0 <= j < 8 ==> (#[trigger] affine[start + j])@ == eisenstein::<C>(
                delta(j).0,
                delta(j).1,
                base,
            ),
{
    assert forall|j: int| 0 <= j < 8 implies (#[trigger] affine[start + j])@ == eisenstein::<C>(
        delta(j).0,
        delta(j).1,
        base,
    ) by {
        assert(is_affine_of(affine[start + j], proj[start + j]@));
        let z = <C::Scalar as Modulus>::cube_root();
        lemma_smul_closed::<C>(delta(j).0 + delta(j).1 * z, base);
        lemma_affine_of::<C>(affine[start + j], proj[start + j]@);
    }
}

impl<C: Group> Table<C> {
    /// Whether this is the table of the neutral element.
    pub fn is_identity(&self) -> (r: bool)
        ensures
            on_curve::<C>(self.base()) ==> (r == (self.base() == Pt::Infinity)),
            !r ==> self.ys_nonzero(),
    {
        proof {
            use_type_invariant(self);
            if on_curve::<C>(self.base()) {
                assert(digit_of::<C>(1) == 1) by {
                    reveal(coeffs);
                    assert(0 * <C::Scalar as Modulus>::cube_root() == 0);
                }
                lemma_smul_small::<C>(self.base());
                assert(self.entry(1) == self.base());
                // No point on the curve has a zero second coordinate.
                self.lemma_sentinel();
            }
        }
        self.ys[0].is_zero()
    }

    pub closed spec fn ys_nonzero(self) -> bool {
        self.ys@[0]@ != 0
    }

    /// A point with a zero second coordinate is its own negative, so twice the point is neutral.
    proof fn lemma_sentinel(self)
        requires
            self.holds(),
                on_curve::<C>(self.base()),
            self.entry(1) == self.base(),
        ensures
            self.ys@[0]@ == 0 <==> self.base() == Pt::Infinity,
    {
        reveal(ec_add);
        let b = self.base();
        assert(self.coordinates(1) == (self.xs0@[0]@, self.ys@[0]@));
        if let Pt::At { x, y } = b {
            if y == 0 {
                <C::Scalar as Modulus>::lemma_modulus();
                let n = order::<C>();
                lemma_smul_small::<C>(b);
                lemma_smul_add::<C>(1, 1, b);
                assert(plus::<C>(b, b) == Pt::Infinity);
                lemma_smul_injective::<C>(2, 0, b);
                lemma_small_mod(2, n as nat);
                lemma_small_mod(0, n as nat);
            }
        }
    }

    /// The affine coordinates of the entry for a nonzero digit.
    pub(crate) fn digit_coords(&self, code: u8) -> (r: (Fe<C::Base>, Fe<C::Base>))
        requires
            1 <= code <= 48,
        ensures
            affine_point(r.0@, r.1@) == self.entry(code as int),
            on_curve::<C>(self.base()) ==> affine_point(r.0@, r.1@) == smul::<C>(
                digit_of::<C>(code as int),
                self.base(),
            ),
    {
        proof {
            use_type_invariant(self);
        }
        let (orbit, e, negate) = decode_digit(code);
        let x = if e == 0 {
            self.xs0[orbit]
        } else if e == 1 {
            self.xs1[orbit]
        } else {
            self.xs2[orbit]
        };
        let y = if negate {
            self.ys[orbit].neg()
        } else {
            self.ys[orbit]
        };
        (x, y)
    }

    /// The point of a nonzero digit.
    pub fn digit_point(&self, code: u8) -> (r: Affine<C>)
        requires
            1 <= code <= 48,
        ensures
            r@ == self.entry(code as int),
            on_curve::<C>(self.base()) ==> r@ == smul::<C>(
                digit_of::<C>(code as int),
                self.base(),
            ),
    {
        proof {
            use_type_invariant(self);
        }
        let (x, y) = self.digit_coords(code);
        Affine { x, y }
    }

    /// The point of the table.
    pub fn point(&self) -> (r: Point<C>)
        ensures
            on_curve::<C>(self.base()) ==> r@ == self.base(),
    {
        let r = self.digit_point(1);
        proof {
            if on_curve::<C>(self.base()) {
                assert(digit_of::<C>(1) == 1) by {
                    reveal(coeffs);
                    assert(0 * <C::Scalar as Modulus>::cube_root() == 0);
                }
                lemma_smul_small::<C>(self.base());
            }
        }
        Point::from_affine(r)
    }

    /// The multiple of the point by a recoded scalar.
    pub fn mul_decomposed(&self, k: &Decomposed<C>) -> (r: Point<C>)
        ensures
            on_curve::<C>(self.base()) ==> r@ == smul::<C>(
                k.value(),
                self.base(),
            ),
    {
        let ghost lawful = on_curve::<C>(self.base());
        let ghost b = self.base();
        let mut acc = Point::<C>::identity();
        let len = k.len();
        let mut i: usize = len;
        proof {
            lemma_suffix_end::<C>(k.digits());
            if lawful {
                lemma_smul_small::<C>(b);
            }
        }
        while i > 0
            invariant
                i <= len,
                len == k.digits().len(),
                b == self.base(),
                lawful == (on_curve::<C>(self.base())),
                i == len ==> acc@ == Pt::Infinity,
                lawful ==> acc@ == smul::<C>(suffix_of::<C>(k.digits(), i as int), b),
            decreases i,
        {
            let ghost s = suffix_of::<C>(k.digits(), i as int);
            if i < len {
                acc = acc.double();
            }
            let ghost twice = acc@;
            i -= 1;
            let code = k.digit(i);
            if code != 0 {
                acc = acc.add_affine(self.digit_point(code));
            }
            proof {
                lemma_suffix::<C>(k.digits(), i as int);
                if lawful {
                    let d = digit_of::<C>(code as int);
                    lemma_smul_add::<C>(s, s, b);
                    if code != 0 {
                        lemma_smul_add::<C>(2 * s, d, b);
                    } else {
                        crate::glv::digits::lemma_zero_digit();
                        assert(0 * <C::Scalar as Modulus>::cube_root() == 0);
                    }
                }
            }
        }
        proof {
            lemma_suffix_end::<C>(k.digits());
        }
        acc
    }
}

impl<C: GlvParams> Table<C> {
    /// The multiple of the point by a scalar.
    pub fn mul(&self, k: Fe<C::Scalar>) -> (r: Point<C>)
        ensures
            on_curve::<C>(self.base()) ==> r@ == smul::<C>(k@, self.base()),
    {
        self.mul_decomposed(&Decomposed::new(k))
    }
}

/// All ways to multiply a point agree: the product by the endomorphism, the product of a table of
/// the point, built alone or with others, and that of a decomposed scalar are the multiple of the
/// point by the scalar. The multiple of the neutral element is neutral.
pub proof fn lemma_products_agree<C: GlvParams>(
    point: Point<C>,
    k: Fe<C::Scalar>,
    decomposed: Decomposed<C>,
    alone: Table<C>,
    points: Seq<Point<C>>,
    batch: Seq<Table<C>>,
    i: int,
    by_endomorphism: Point<C>,
    by_table: Point<C>,
    by_batch: Point<C>,
    by_decomposed: Point<C>,
)
    requires
        on_curve::<C>(point@),
        congruent(decomposed.value(), k@, order::<C>()),
        alone.base() == point@,
        batch.len() == points.len(),
        forall|j: int| 0 <= j < points.len() ==> (#[trigger] batch[j]).base() == points[j]@,
        0 <= i < points.len(),
        points[i] == point,
        by_endomorphism@ == smul::<C>(k@, point@),
        by_table@ == smul::<C>(k@, alone.base()),
        by_batch@ == smul::<C>(k@, batch[i].base()),
        by_decomposed@ == smul::<C>(decomposed.value(), alone.base()),
    ensures
        by_table@ == by_endomorphism@,
        by_batch@ == by_endomorphism@,
        by_decomposed@ == by_endomorphism@,
        point@ == Pt::Infinity ==> by_endomorphism@ == Pt::Infinity,
{
    lemma_smul_congruent::<C>(decomposed.value(), k@, point@);
    lemma_smul_infinity::<C>(k@);
}

impl<C: GlvParams> Point<C> {
    /// The multiple by a scalar.
    pub fn mul_glv(self, k: Fe<C::Scalar>) -> (r: Point<C>)
        ensures
            on_curve::<C>(self@) ==> r@ == smul::<C>(k@, self@),
            self@ == Pt::Infinity ==> r@ == Pt::Infinity,
    {
        if self.is_identity() {
            proof {
                lemma_smul_infinity::<C>(k@);
            }
            return Point::identity();
        }
        Table::new(self).mul(k)
    }
}

} // verus!
