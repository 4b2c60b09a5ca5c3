# zakura_arith

Verified arithmetic for the Pasta curves and the proof systems built on them: executable Rust whose
behaviour is stated in `requires` and `ensures` clauses and proved by Verus.

- `src/field`: the two Pasta fields in Montgomery form, their encodings, and the choice of a
  multiplication backend.
- `src/curve`: affine and Jacobian points, their addition by chords and tangents, the group law, and
  batched affine arithmetic with shared inversions.
- `src/glv`: scalar multiplication by the endomorphism, multi-exponentiation, and the Fourier
  transform of points.
- `src/poly`: the compiler and evaluator of polynomial expressions, and the grouping of opening
  queries.
- `src/sinsemilla`: the Sinsemilla hash and its position-weighted evaluation.
- `src/tree`: nodes, paths and anchors of the Orchard note commitment tree.
- `src/pedersen`: the Pedersen hash over Jubjub, by windows and by fused blocks.
- `src/mul_fixed`: the windows, constraints and assignments of fixed-base multiplication.
- `app`: implementations of outside traits and entry points that panic on invalid input.

The group laws of the curves are proved. On Pallas and Vesta, addition by chords and tangents is
associative and commutative, all points have the order of the curve, and the endomorphism multiplies
with a cube root of one: `curve::slopes` has the associativity, `curve::cyclic` and
`curve::endomorphism` the order and the endomorphism, and `curve::generators` the relation that
certifies them. On Jubjub the addition is complete: `pedersen::complete` has the group law, and
`pedersen::modulus` the certificates for the base field. The moduli are certified primes:
`field::certificates`.
