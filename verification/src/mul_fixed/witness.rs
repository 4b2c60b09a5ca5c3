//! The witnesses of windows.
use crate::field::congruence::{
    congruent, lemma_congruent_difference, lemma_congruent_mod, lemma_congruent_ops,
    lemma_congruent_small,
};
use crate::field::repr::bytes_value;
use crate::field::{Fe, Fp, Modulus, PallasBase};
use crate::mul_fixed::windows::H;
use vstd::arithmetic::power::{lemma_pow0, lemma_pow1, lemma_pow_adds, pow};
use vstd::prelude::*;

verus! {

/// The coordinates of the point of a window, and a root of the shifted second coordinate.
#[derive(Clone, Copy, Debug)]
pub struct WindowWitness {
    /// The first coordinate.
    pub x: Fp,
    /// The second coordinate.
    pub y: Fp,
    /// A root of the second coordinate with the value of the window added.
    pub u: Fp,
}

/// The value of a polynomial of which the first coefficients are given, lowest first.
pub open spec fn polynomial(coefficients: Seq<int>, x: int, count: nat) -> int
    decreases count,
{
    if count == 0 {
        0
    } else {
        let i = (count - 1) as nat;
        polynomial(coefficients, x, i) + pow(x, i) * coefficients[i as int]
    }
}

/// The residues of field elements.
pub open spec fn residues(values: Seq<Fp>) -> Seq<int> {
    Seq::new(values.len(), |i: int| values[i]@)
}

/// The value of a polynomial by its lowest coefficient and the rest.
proof fn lemma_polynomial_low(coefficients: Seq<int>, x: int, count: nat)
    requires
        0 < count <= coefficients.len(),
    ensures
        polynomial(coefficients, x, count) == coefficients[0] + x * polynomial(
            coefficients.drop_first(),
            x,
            (count - 1) as nat,
        ),
    decreases count,
{
    lemma_pow0(x);
    if count == 1 {
        assert(polynomial(coefficients, x, 0) == 0);
        assert(polynomial(coefficients.drop_first(), x, 0) == 0);
        assert(1 * coefficients[0] == coefficients[0] && x * 0 == 0);
    } else {
        let i = (count - 1) as nat;
        lemma_polynomial_low(coefficients, x, i);
        let rest = coefficients.drop_first();
        let j = (i - 1) as nat;
        lemma_pow1(x);
        lemma_pow_adds(x, 1, j);
        let (a, t, c) = (polynomial(rest, x, j), pow(x, j), rest[j as int]);
        assert(rest[j as int] == coefficients[i as int]);
        assert(x * (a + t * c) == x * a + (x * t) * c) by (nonlinear_arith);
    }
}

/// The first coordinate that the interpolation polynomial of a window gives.
pub fn evaluate_lagrange_polynomial(coefficients: &[Fp; 8], window: usize) -> (r: Fp)
    requires
        window < H,
    ensures
        r@ == polynomial(residues(coefficients@), window as int, 8) % PallasBase::p(),
{
    let x: Fp = Fe::from_u64(window as u64);
    let ghost p = PallasBase::p();
    let ghost all = residues(coefficients@);
    let mut acc = coefficients[7];
    let mut i: usize = 7;
    proof {
        PallasBase::lemma_modulus();
        lemma_polynomial_low(all.skip(7), window as int, 1);
        assert(polynomial(all.skip(7).drop_first(), window as int, 0) == 0);
        assert(x@ * 0 == 0);
        assert(all.skip(7)[0] == coefficients@[7]@);
    }
    while i > 0
        invariant
            i <= 7,
            p == PallasBase::p(),
            p > 0,
            all == residues(coefficients@),
            x@ == window,
            congruent(acc@, polynomial(all.skip(i as int), window as int, (8 - i) as nat), p),
        decreases i,
    {
        i -= 1;
        let ghost before = acc@;
        let product = acc.mul(x);
        acc = product.add(coefficients[i]);
        proof {
            let tail = all.skip(i as int);
            let rest = polynomial(all.skip(i + 1), window as int, (7 - i) as nat);
            lemma_polynomial_low(tail, window as int, (8 - i) as nat);
            assert(tail.drop_first() =~= all.skip(i + 1));
            assert(tail[0] == coefficients@[i as int]@);
            lemma_congruent_mod(before * x@, p);
            lemma_congruent_ops(before, rest, x@, x@, p);
            let c = coefficients@[i as int]@;
            lemma_congruent_ops(product@, rest * x@, c, c, p);
            lemma_congruent_mod(product@ + c, p);
            assert(rest * x@ == x@ * rest) by (nonlinear_arith);
        }
    }
    proof {
        assert(all.skip(0) =~= all);
        acc.lemma_view();
        let value = polynomial(all, window as int, 8);
        lemma_congruent_mod(value, p);
        lemma_congruent_small(acc@, value % p, p);
    }
    acc
}

/// The witness of a window, from the tables of its base.
pub open spec fn is_window_witness(
    witness: WindowWitness,
    coefficients: Seq<Fp>,
    u: Seq<u8>,
    z: u64,
    window: usize,
) -> bool {
    &&& witness.x@ == polynomial(residues(coefficients), window as int, 8) % PallasBase::p()
    &&& witness.u@ == bytes_value(u)
    &&& witness.y@ == (witness.u@ * witness.u@ - z) % PallasBase::p()
}

/// The witnesses of all windows, from the tables of the base.
pub fn reconstruct_window_witnesses(
    lagrange_coeffs: &Vec<[Fp; 8]>,
    us: &Vec<[[u8; 32]; 8]>,
    zs: &Vec<u64>,
    windows: &Vec<usize>,
) -> (r: Vec<WindowWitness>)
    requires
        lagrange_coeffs@.len() == windows@.len(),
        us@.len() == windows@.len(),
        zs@.len() == windows@.len(),
        forall|w: int| 0 <= w < windows@.len() ==> #[trigger] windows@[w] < H,
        forall|w: int|
            0 <= w < windows@.len() ==> bytes_value(us@[w]@[#[trigger] windows@[w] as int]@)
                < PallasBase::p(),
    ensures
        r@.len() == windows@.len(),
        forall|w: int|
            0 <= w < windows@.len() ==> is_window_witness(
                #[trigger] r@[w],
                lagrange_coeffs@[w]@,
                us@[w]@[windows@[w] as int]@,
                zs@[w],
                windows@[w],
            ),
{
    let ghost p = PallasBase::p();
    let mut r: Vec<WindowWitness> = Vec::new();
    let mut w: usize = 0;
    while w < windows.len()
        invariant
            w <= windows@.len(),
            p == PallasBase::p(),
            lagrange_coeffs@.len() == windows@.len(),
            us@.len() == windows@.len(),
            zs@.len() == windows@.len(),
            forall|k: int| 0 <= k < windows@.len() ==> #[trigger] windows@[k] < H,
            forall|k: int|
                0 <= k < windows@.len() ==> bytes_value(us@[k]@[#[trigger] windows@[k] as int]@)
                    < p,
            r@.len() == w,
            forall|k: int|
                0 <= k < w ==> is_window_witness(
                    #[trigger] r@[k],
                    lagrange_coeffs@[k]@,
                    us@[k]@[windows@[k] as int]@,
                    zs@[k],
                    windows@[k],
                ),
        decreases windows@.len() - w,
    {
        assert(windows@[w as int] < H);
        let window = windows[w];
        let x = evaluate_lagrange_polynomial(&lagrange_coeffs[w], window);
        let u: Fp = Fe::from_repr(us[w][window]).unwrap();
        let z: Fp = Fe::from_u64(zs[w]);
        let y = u.square().sub(z);
        proof {
            PallasBase::lemma_modulus();
            lemma_congruent_mod(u@ * u@, p);
            lemma_congruent_ops((u@ * u@) % p, u@ * u@, z@, z@, p);
        }
        r.push(WindowWitness { x, y, u });
        w += 1;
    }
    r
}

/// A reconstructed witness satisfies the two checks of its window: the first coordinate is the
/// value of the interpolation polynomial, and the root squares to the shifted second coordinate.
pub proof fn lemma_witness_satisfies_checks(
    witness: WindowWitness,
    coefficients: Seq<Fp>,
    u: Seq<u8>,
    z: u64,
    window: usize,
)
    requires
        is_window_witness(witness, coefficients, u, z, window),
    ensures
        (polynomial(residues(coefficients), window as int, 8) - witness.x@) % PallasBase::p() == 0,
        (witness.u@ * witness.u@ - witness.y@ - z) % PallasBase::p() == 0,
{
    let p = PallasBase::p();
    PallasBase::lemma_modulus();
    let value = polynomial(residues(coefficients), window as int, 8);
    lemma_congruent_mod(value, p);
    lemma_congruent_difference(value, witness.x@, p);
    let square = witness.u@ * witness.u@;
    lemma_congruent_mod(square - z, p);
    lemma_congruent_difference(square - z, witness.y@, p);
    assert(square - witness.y@ - z == square - z - witness.y@);
}

} // verus!
