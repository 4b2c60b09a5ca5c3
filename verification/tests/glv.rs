//! Scalar multiplication by the endomorphism, and transforms of points.
use std::fmt::Debug;
use zakura_arith::curve::affine::Affine;
use zakura_arith::curve::batch::{batch_invert_nonzero, batch_normalize};
use zakura_arith::curve::point::Point;
use zakura_arith::curve::{Curve, Pallas, Vesta};
use zakura_arith::field::{Fe, Fp, Modulus};
use zakura_arith::glv::butterfly::{
    affine_add_sub_pairs, affine_twiddle_add_sub_layer, AffineTwiddleScratch,
};
use zakura_arith::glv::codelet::{
    fft16_low_multiplication_layer, fft8_multiplication_minimal_layer,
};
use zakura_arith::glv::decompose::{decompose, mul_u128, round_mul_shift, scalar_limbs, sub256};
use zakura_arith::glv::digits::{
    decode_digit, digit_coeffs, digit_scalar, joint_digits, MAX_JOINT_DIGITS,
};
use zakura_arith::glv::fft::{fft_vartime, fft_with_threads};
use zakura_arith::glv::ladder::BATCH_AFFINE_MIN_POINTS;
use zakura_arith::glv::multiexp::{
    booth_digit, checked_signed_magnitudes, default_multiexp_window_bits,
    estimated_signed_booth_work, multiexp_window_bits, should_use_glv_multiexp, try_multiexp,
    SignedMagnitude, GLV_COMPONENT_BITS,
};
use zakura_arith::glv::params::GlvParams;
use zakura_arith::glv::scalar::{affine_ladder_safe, Decomposed};
use zakura_arith::glv::table::Table;

type Scalar<C> = Fe<<C as Curve>::Scalar>;

fn generator<C: Curve>() -> Point<C> {
    Point::from_affine(Affine::from_xy(Fe::one().neg(), Fe::from_u64(2)))
}

/// Double and add, from the highest bit.
fn times<C: Curve>(point: Point<C>, k: Scalar<C>) -> Point<C> {
    let limbs = k.to_limbs();
    let mut acc = Point::identity();
    for i in (0..256).rev() {
        acc = acc.double();
        if (limbs[i / 64] >> (i % 64)) & 1 == 1 {
            acc = acc.add(point);
        }
    }
    acc
}

fn affine<C: Curve>(point: Point<C>) -> Affine<C> {
    batch_normalize(&vec![point])[0]
}

fn same_affine<C: Curve>(a: Affine<C>, b: Affine<C>) -> bool {
    a.x.same(b.x) && a.y.same(b.y)
}

fn same<C: Curve>(a: Point<C>, b: Point<C>) -> bool {
    same_affine(affine(a), affine(b))
}

fn scalars<M: Modulus>(n: u64) -> Vec<Fe<M>> {
    (0..n)
        .map(|i| {
            Fe::<M>::from_u64(0x9E37_79B9_7F4A_7C15u64 + i)
                .square()
                .add(Fe::from_u64(0x0123_4567_89AB_CDEFu64))
                .square()
                .add(Fe::from_u64(i))
        })
        .collect()
}

fn signed_scalar<M: Modulus>(half: (bool, u128)) -> Fe<M> {
    let s = Fe::from_u128(half.1);
    if half.0 {
        s.neg()
    } else {
        s
    }
}

#[test]
fn multiexp_backend_selection() {
    assert_eq!(default_multiexp_window_bits(31), Some(3));
    assert_eq!(default_multiexp_window_bits(32), Some(4));
    assert_eq!(default_multiexp_window_bits(54), Some(4));
    assert_eq!(default_multiexp_window_bits(55), Some(5));
    assert_eq!(default_multiexp_window_bits(2_980), Some(8));
    assert_eq!(default_multiexp_window_bits(2_981), Some(9));
    assert_eq!(default_multiexp_window_bits(8_103), Some(9));
    assert_eq!(default_multiexp_window_bits(8_104), Some(10));
    assert_eq!(default_multiexp_window_bits(u32::MAX as usize), Some(23));

    assert_eq!(estimated_signed_booth_work(2_150, 256, 8), Some(79_654));
    assert_eq!(
        estimated_signed_booth_work(4_300, GLV_COMPONENT_BITS, 8),
        Some(73_016)
    );
    assert_eq!(estimated_signed_booth_work(5_678, 256, 9), Some(179_762));
    assert_eq!(
        estimated_signed_booth_work(11_356, GLV_COMPONENT_BITS, 9),
        Some(178_146)
    );

    assert_eq!(multiexp_window_bits(2_150, 1), Some(8));
    assert_eq!(multiexp_window_bits(2_990, 1), Some(9));
    assert_eq!(multiexp_window_bits(3_924, 1), Some(9));
    assert_eq!(multiexp_window_bits(3_925, 1), Some(10));
    assert_eq!(multiexp_window_bits(5_678, 1), Some(10));
    assert_eq!(multiexp_window_bits(5_678, 8), Some(9));

    assert!(!should_use_glv_multiexp(255, 8));
    assert!(should_use_glv_multiexp(2_150, 8));
    assert!(should_use_glv_multiexp(5_678, 10));

    // At sufficiently large sizes, doubling the term count outweighs the
    // shorter components for this unchanged window width.
    assert!(!should_use_glv_multiexp(1_000_000, 14));
    assert!(!should_use_glv_multiexp(usize::MAX, 14));
}

#[test]
fn multiexp_component_guard_returns_none_out_of_bounds() {
    let in_bounds = GLV_COMPONENT_BITS - 1;
    let out_of_bounds = 1u128 << GLV_COMPONENT_BITS;

    assert!(checked_signed_magnitudes(((false, 0), (true, 1))).is_some());
    assert!(checked_signed_magnitudes(((false, 1u128 << in_bounds), (false, 0))).is_some());
    assert!(checked_signed_magnitudes(((false, out_of_bounds), (false, 0))).is_none());
    assert!(checked_signed_magnitudes(((false, 0), (true, out_of_bounds))).is_none());
}

#[test]
fn integer_multiplication_carry_boundaries() {
    assert_eq!(
        mul_u128(u128::MAX, u128::MAX),
        [1, 0, u64::MAX - 1, u64::MAX]
    );

    let pallas_scalar_max = [
        0x8c46eb2100000000,
        0x224698fc0994a8dd,
        0,
        0x4000000000000000,
    ];
    assert_eq!(
        round_mul_shift(&Pallas::g1_limbs(), &pallas_scalar_max),
        0x93cd3a2c8198e2690c7c095a00000001
    );
    assert_eq!(
        round_mul_shift(&Pallas::g2_limbs(), &pallas_scalar_max),
        0x49e69d1640a899538cb1279300000000
    );

    let vesta_scalar_max = [
        0x992d30ed00000000,
        0x224698fc094cf91b,
        0,
        0x4000000000000000,
    ];
    assert_eq!(
        round_mul_shift(&Vesta::g1_limbs(), &vesta_scalar_max),
        0x93cd3a2c8198e2690c7c095a00000001
    );
    assert_eq!(
        round_mul_shift(&Vesta::g2_limbs(), &vesta_scalar_max),
        0x49e69d1640a899538cb1279300000001
    );
}

#[test]
fn joint_digit_table_matches_first_principles() {
    // Eisenstein multiplication on coefficient pairs:
    // (a + bw)(c + dw) = (ac - bd) + (ad + bc - bd)w.
    fn emul(x: (i32, i32), y: (i32, i32)) -> (i32, i32) {
        (x.0 * y.0 - x.1 * y.1, x.0 * y.1 + x.1 * y.0 - x.1 * y.1)
    }
    // The units in code order [+1, -1, +w, -w, +w^2, -w^2].
    let units = [(1, 0), (-1, 0), (0, 1), (0, -1), (-1, -1), (1, 1)];
    let mut rebuilt = [0u8; 64];
    let mut seen = [false; 64];
    for orbit in 0..8usize {
        let (da, db) = digit_coeffs((1 + 6 * orbit) as u8);
        for (unit, &u) in units.iter().enumerate() {
            let d = emul(u, (i32::from(da), i32::from(db)));
            assert!(d.0.abs() <= 5 && d.1.abs() <= 5, "digit coefficient > 5");
            assert!(
                d.0.rem_euclid(2) == 1 || d.1.rem_euclid(2) == 1,
                "digit divisible by 2"
            );
            let idx = ((d.0.rem_euclid(8) << 3) | d.1.rem_euclid(8)) as usize;
            assert!(!seen[idx], "digit classes must be distinct");
            seen[idx] = true;
            let code = (1 + 6 * orbit + unit) as u8;
            rebuilt[idx] = code;
            // Decode and coefficient reconstruction round-trip.
            assert_eq!(decode_digit(code), (orbit, unit >> 1, unit & 1 == 1));
            assert_eq!(digit_coeffs(code), (d.0 as i8, d.1 as i8));
        }
    }
    // The digits cover exactly the 48 residue classes not divisible by 2.
    assert_eq!(seen.iter().filter(|&&s| s).count(), 48);
    for idx in 1..64usize {
        let digits = joint_digits((idx >> 3) as i128, (idx & 7) as i128);
        if seen[idx] {
            assert_eq!(digits[0], rebuilt[idx], "table entry {idx}");
        } else {
            assert_eq!(digits[0], 0, "class {idx} must be a zero digit");
            assert!(
                (idx >> 3) & 1 == 0 && idx & 1 == 0,
                "only even classes may hold zero digits"
            );
        }
    }
}

#[test]
fn tail_bound_exhaustive() {
    // The recoding coefficients reach max(|a|, |b|) <= 5 within 127 steps; the
    // remaining tail over the closed box |a|, |b| <= 6 bounds the length.
    let mut max_tail = 0;
    for a in -6..=6i128 {
        for b in -6..=6i128 {
            let digits = joint_digits(a, b);
            max_tail = max_tail.max(digits.len());
            if let Some(&code) = digits.first() {
                // The box is closed under recoding.
                let (da, db) = if code == 0 { (0, 0) } else { digit_coeffs(code) };
                let (na, nb) = ((a - i128::from(da)) / 2, (b - i128::from(db)) / 2);
                assert!(na.abs() <= 6 && nb.abs() <= 6, "recoding escaped the box");
            }
        }
    }
    assert_eq!(max_tail, MAX_JOINT_DIGITS - GLV_COMPONENT_BITS);
}

#[test]
fn joint_recoding_small_reconstruction() {
    let mut state = 0x9E37_79B9_7F4A_7C15_u128;
    let mut next = || {
        state ^= state << 13;
        state ^= state >> 7;
        state ^= state << 17;
        state
    };
    let mut cases: Vec<(i128, i128)> = vec![
        (0, 0),
        (1, 0),
        (0, 1),
        (-1, -1),
        (5, -5),
        ((1 << 119) - 1, -((1 << 119) - 1)),
    ];
    for _ in 0..200 {
        let a = (next() & ((1 << 119) - 1)) as i128 - (1i128 << 118);
        let b = (next() & ((1 << 119) - 1)) as i128 - (1i128 << 118);
        cases.push((a, b));
    }
    for (a, b) in cases {
        let digits = joint_digits(a, b);
        assert!(digits.len() <= MAX_JOINT_DIGITS);
        let (mut ra, mut rb) = (0i128, 0i128);
        for &code in digits.iter().rev() {
            ra *= 2;
            rb *= 2;
            if code != 0 {
                let (da, db) = digit_coeffs(code);
                ra += i128::from(da);
                rb += i128::from(db);
            }
        }
        assert_eq!((ra, rb), (a, b), "digits must reconstruct the input");
        if let Some(&top) = digits.last() {
            assert_ne!(top, 0, "top digit must be nonzero");
        }
    }
    for (a, b) in [
        (i128::MAX, -i128::MAX),
        (i128::MAX, i128::MAX),
        (-i128::MAX, 1),
    ] {
        let digits = joint_digits(a, b);
        assert!(digits.len() <= MAX_JOINT_DIGITS);
        assert_ne!(digits[digits.len() - 1], 0);
    }
}

fn constants_verify<C: GlvParams>() {
    let lambda = Scalar::<C>::zeta();
    let (v1a, v1b_neg) = C::v1();
    let (v2a, v2b) = C::v2();
    assert!(Scalar::<C>::from_u128(v1a).same(Scalar::<C>::from_u128(v1b_neg).mul(lambda)));
    assert!(Scalar::<C>::from_u128(v2a).same(Scalar::<C>::from_u128(v2b).mul(lambda).neg()));
}

#[test]
fn lattice_vectors_vanish() {
    constants_verify::<Pallas>();
    constants_verify::<Vesta>();
}

fn endo_map_is_lambda<C: GlvParams>() {
    for k in scalars(8) {
        let p = times(generator::<C>(), k);
        assert!(same(p.endo(), times(p, Scalar::<C>::zeta())));
        assert!(same_affine(affine(p).endo(), affine(p.endo())));
    }
}

#[test]
fn endomorphism_is_lambda() {
    endo_map_is_lambda::<Pallas>();
    endo_map_is_lambda::<Vesta>();
}

fn decompose_reconstructs<C: GlvParams>() {
    let lambda = Scalar::<C>::zeta();
    let mut all = scalars::<C::Scalar>(1000);
    all.extend([Fe::zero(), Fe::one(), Fe::one().neg(), lambda, lambda.neg()]);
    for k in all {
        let (k1, k2) = decompose::<C>(k);
        assert!(k1.1 >> GLV_COMPONENT_BITS == 0, "k1 exceeds 127 bits");
        assert!(k2.1 >> GLV_COMPONENT_BITS == 0, "k2 exceeds 127 bits");
        let (s1, s2) = (signed_scalar::<C::Scalar>(k1), signed_scalar::<C::Scalar>(k2));
        assert!(s1.add(s2.mul(lambda)).same(k));
    }
}

#[test]
fn decomposition_reconstructs() {
    decompose_reconstructs::<Pallas>();
    decompose_reconstructs::<Vesta>();
}

fn joint_recoding_reconstructs<C: GlvParams>() {
    let lambda = Scalar::<C>::zeta();
    let mut all = scalars::<C::Scalar>(200);
    all.extend([
        Fe::zero(),
        Fe::one(),
        Fe::one().neg(),
        lambda,
        lambda.neg(),
        lambda.add(Fe::one()),
    ]);
    for k in all {
        let d = Decomposed::<C>::new(k);
        let digits: Vec<u8> = (0..d.len()).map(|i| d.digit(i)).collect();
        let mut acc = Scalar::<C>::zero();
        for &code in digits.iter().rev() {
            acc = acc.double();
            if code != 0 {
                acc = acc.add(digit_scalar(code));
            }
        }
        assert!(acc.same(k), "joint digits must reconstruct k");
        for (i, &code) in digits.iter().enumerate() {
            if code != 0 {
                for &next in &digits[i + 1..(i + 3).min(digits.len())] {
                    assert_eq!(next, 0, "width-3 property violated");
                }
            }
        }
        assert!(digits.iter().filter(|&&c| c != 0).count() <= 44);
    }
}

#[test]
fn joint_recoding_is_sparse_and_exact() {
    joint_recoding_reconstructs::<Pallas>();
    joint_recoding_reconstructs::<Vesta>();
}

fn orbit_points_match_native<C: GlvParams>() {
    let k = scalars::<C::Scalar>(1)[0];
    let p = times(generator::<C>(), k.add(Fe::one()));
    let table = Table::new(p);
    assert!(same(table.point(), p));
    for code in 1..=48u8 {
        assert!(
            same_affine(table.digit_point(code), affine(times(p, digit_scalar(code)))),
            "digit {code} must equal [a + b*lambda]P"
        );
    }
}

#[test]
fn orbit_points() {
    orbit_points_match_native::<Pallas>();
    orbit_points_match_native::<Vesta>();
}

fn table_mul_matches_group_mul<C: GlvParams>() {
    for (i, k) in scalars::<C::Scalar>(4).into_iter().enumerate() {
        let p = times(generator::<C>(), k.add(Fe::from_u64(i as u64 + 1)));
        let table = Table::new(p);
        for k2 in scalars::<C::Scalar>(3) {
            assert!(same(table.mul(k2), times(p, k2)));
            assert!(same(table.mul_decomposed(&Decomposed::new(k2)), times(p, k2)));
            assert!(same(p.mul_glv(k2), times(p, k2)));
        }
    }
}

#[test]
fn table_multiplication() {
    table_mul_matches_group_mul::<Pallas>();
    table_mul_matches_group_mul::<Vesta>();
}

fn identity_tables<C: GlvParams>() {
    let k = Fe::from_u64(0xDEAD_BEEF);
    let solo = Table::<C>::new(Point::identity());
    assert!(solo.point().is_identity());
    assert!(solo.mul(k).is_identity());
    let batched = Table::<C>::batch(&vec![Point::identity(), generator()]);
    assert_eq!(batched.len(), 2);
    assert!(batched[0].is_identity());
    assert!(!batched[1].is_identity());
    assert!(batched[0].mul(k).is_identity());
    assert!(same(batched[1].point(), generator()));
    assert!(same(batched[1].mul(k), times(generator(), k)));
}

#[test]
fn identity_table() {
    identity_tables::<Pallas>();
    identity_tables::<Vesta>();
}

fn batch_mul_matches_per_table<C: GlvParams>() {
    let lambda = Scalar::<C>::zeta();
    let ks = [
        Fe::zero(),
        Fe::one().neg(),
        lambda.add(Fe::one()),
        Fe::from_u128((1u128 << GLV_COMPONENT_BITS) - 1),
        scalars::<C::Scalar>(1)[0],
    ];
    for size in [1, 3, BATCH_AFFINE_MIN_POINTS, BATCH_AFFINE_MIN_POINTS + 5] {
        let points: Vec<Point<C>> = (0..size)
            .map(|i| {
                if size > 2 && i == size / 2 {
                    Point::identity()
                } else {
                    times(generator(), Fe::from_u64(i as u64 + 1).add(lambda))
                }
            })
            .collect();
        let tables = Table::batch(&points);
        let refs: Vec<&Table<C>> = tables.iter().collect();
        for k in ks {
            let d = Decomposed::<C>::new(k);
            let batched = Table::mul_decomposed_batch(&refs, &d);
            let shared = Table::mul_decomposed_same_scalar_affine(&points, &d);
            let expected: Vec<Point<C>> = tables.iter().map(|t| t.mul_decomposed(&d)).collect();
            let expected = batch_normalize(&expected);
            let batched = batch_normalize(&batched);
            for i in 0..size {
                assert!(same_affine(batched[i], expected[i]), "batch != per-table");
                assert!(same_affine(shared[i], expected[i]), "affine batch != per-table");
            }
            assert!(same_affine(batched[0], affine(times(points[0], k))), "batch != native");
        }
    }
}

#[test]
fn batch_multiplication() {
    batch_mul_matches_per_table::<Pallas>();
    batch_mul_matches_per_table::<Vesta>();
}

#[test]
fn pairs_have_scalars_of_their_own() {
    let points: Vec<Point<Pallas>> = (0..BATCH_AFFINE_MIN_POINTS + 3)
        .map(|i| times(generator(), Fe::from_u64(5 * i as u64 + 1)))
        .collect();
    let ks = scalars(3);
    let decomposed: Vec<Decomposed<Pallas>> = ks.iter().map(|k| Decomposed::new(*k)).collect();
    let which: Vec<usize> = (0..points.len()).map(|i| i % 3).collect();
    let products = Table::mul_decomposed_pairs_affine(&points, &decomposed, &which);
    for i in 0..points.len() {
        assert!(same_affine(products[i], affine(points[i].mul_glv(ks[i % 3]))));
    }
}

#[test]
fn exceptional_schedules_are_recognized() {
    // Lowest digit first; code 1 is plus one and code 2 minus one.
    assert!(!affine_ladder_safe::<Pallas>(&vec![1, 1]));
    assert!(!affine_ladder_safe::<Pallas>(&vec![2, 1]));
    assert!(affine_ladder_safe::<Pallas>(&vec![2, 0, 1]));
    assert!(!affine_ladder_safe::<Vesta>(&vec![1, 1]));
    assert!(affine_ladder_safe::<Vesta>(&vec![2, 0, 1]));
}

fn affine_fft_matches_direct<C: GlvParams>() {
    for log_n in 1..=5usize {
        let n = 1usize << log_n;
        let mut omega = Scalar::<C>::root_of_unity().invert().unwrap();
        for _ in log_n..32 {
            omega = omega.square();
        }
        let g = generator::<C>();
        let regular: Vec<Point<C>> = (0..n)
            .map(|i| times(g, Fe::from_u64(i as u64 + 1)))
            .collect();
        let exceptional: Vec<Point<C>> = (0..n)
            .map(|i| match i % 4 {
                0 => Point::identity(),
                1 => g,
                2 => g.neg(),
                _ => g.double(),
            })
            .collect();
        let mut inputs = vec![regular, exceptional];
        if log_n == 3 {
            inputs.push(
                [1, 4, 2, 7, 1, 6, 3, 10]
                    .map(|multiple| times(g, Fe::from_u64(multiple)))
                    .into(),
            );
        }
        if log_n == 4 {
            inputs.push(
                [
                    398_522, 248_420, 840_455, 798_528, 624_324, 663_377, 434_118, 357_938,
                    398_522, 7_942, 752_351, 727_850, 16_691, 106_822, 861_757, 814_544,
                ]
                .map(|multiple| times(g, Fe::from_u64(multiple)))
                .into(),
            );
        }
        for input in inputs {
            let actual = fft_vartime(&input, omega, log_n);
            // The transform of a few outputs by its definition.
            for i in [0, 1, n - 1] {
                let step = omega.pow_vartime(i as u64);
                let mut power = Scalar::<C>::one();
                let mut sum = Point::identity();
                for point in &input {
                    sum = sum.add(point.mul_glv(power));
                    power = power.mul(step);
                }
                assert!(same_affine(actual[i], affine(sum)), "output {i} of {n}");
            }
            let again = fft_with_threads(&input, omega, log_n, 3);
            assert!(actual.iter().zip(&again).all(|(a, b)| same_affine(*a, *b)));
        }
    }
}

#[test]
fn affine_fft_pallas() {
    affine_fft_matches_direct::<Pallas>();
}

#[test]
fn affine_fft_vesta() {
    affine_fft_matches_direct::<Vesta>();
}

fn edge_case_matrix<C: GlvParams>() {
    let lambda = Scalar::<C>::zeta();
    let edge_scalars = [
        Fe::zero(),
        Fe::one(),
        Fe::one().neg(),
        Fe::from_u64(2),
        lambda,
        lambda.neg(),
        lambda.add(Fe::one()),
        Fe::from_u64(u64::MAX),
        Fe::from_u128((1u128 << GLV_COMPONENT_BITS) - 1),
        Fe::from_u128(1u128 << GLV_COMPONENT_BITS),
        Fe::from_u128((1u128 << GLV_COMPONENT_BITS) + 1),
    ];
    let g = generator::<C>();
    for p in [g, times(g, lambda.add(Fe::from_u64(42)))] {
        for k in edge_scalars {
            assert!(same(p.mul_glv(k), times(p, k)), "mul_glv must match on edges");
        }
    }
    // k*O = O for every scalar, including 0.
    for k in edge_scalars {
        assert!(Point::<C>::identity().mul_glv(k).is_identity(), "k*O must be O");
    }
}

#[test]
fn edge_cases_pallas() {
    edge_case_matrix::<Pallas>();
}

#[test]
fn edge_cases_vesta() {
    edge_case_matrix::<Vesta>();
}

const PALLAS_BOUNDARY_SCALAR: [u64; 4] = [
    0xf1616cb5a3632910,
    0xa487c2df3b0d145f,
    0xd70a3d98c2549413,
    0x3d70a3d70a3d70a3,
];
const VESTA_BOUNDARY_SCALAR: [u64; 4] = [
    0x17b30ff8ae506c98,
    0xecc8ab77c7c0d84f,
    0xd70a3d86799d8e38,
    0x3d70a3d70a3d70a3,
];

fn babai_boundary_witness<C: GlvParams>(limbs: [u64; 4]) {
    let k = Scalar::<C>::from_raw(limbs);
    assert_eq!(scalar_limbs(k), limbs, "witness must be a canonical scalar");

    let (k1, k2) = decompose::<C>(k);
    assert!(
        k1.1 >> GLV_COMPONENT_BITS == 0 && k2.1 >> GLV_COMPONENT_BITS == 0,
        "witness must be in bounds"
    );
    let (s1, s2) = (signed_scalar::<C::Scalar>(k1), signed_scalar::<C::Scalar>(k2));
    assert!(s1.add(s2.mul(Fe::zeta())).same(k), "witness must reconstruct");
    assert!(same(generator::<C>().mul_glv(k), times(generator(), k)));

    // The boundary geometry under a bit flip.
    let mut g2_bad = C::g2_limbs();
    g2_bad[1] ^= 1 << 63;
    let kl = scalar_limbs(k);
    let c1 = round_mul_shift(&C::g1_limbs(), &kl);
    let c2 = round_mul_shift(&C::g2_limbs(), &kl);
    assert_eq!(
        round_mul_shift(&g2_bad, &kl),
        c2 + 1,
        "witness must straddle the rounding boundary"
    );
    let k2_bad = sub256(mul_u128(c1, C::v1().1), mul_u128(c2 + 1, C::v2().1));
    let mag = if k2_bad[3] >> 63 == 1 {
        sub256([0; 4], k2_bad)
    } else {
        k2_bad
    };
    assert!(mag[2] == 0 && mag[3] == 0, "witness |k2'| stays below 2^128");
    let mag = u128::from(mag[0]) | (u128::from(mag[1]) << 64);
    assert!(
        mag >> GLV_COMPONENT_BITS == 1,
        "the flip must push |k2| past 2^127 at this scalar"
    );
}

#[test]
fn babai_boundary_pallas() {
    babai_boundary_witness::<Pallas>(PALLAS_BOUNDARY_SCALAR);
}

#[test]
fn babai_boundary_vesta() {
    babai_boundary_witness::<Vesta>(VESTA_BOUNDARY_SCALAR);
}

fn native_vs_glv_boundary<C: GlvParams>(limbs: [u64; 4]) {
    let k = Scalar::<C>::from_raw(limbs);
    let p = times(generator::<C>(), k.add(Fe::one()));
    assert!(same(p.mul_glv(k), times(p, k)), "both must agree");
    assert!(same(generator::<C>().mul_glv(k), times(generator(), k)));
}

#[test]
fn native_vs_glv_boundary_pallas() {
    native_vs_glv_boundary::<Pallas>(PALLAS_BOUNDARY_SCALAR);
}

#[test]
fn native_vs_glv_boundary_vesta() {
    native_vs_glv_boundary::<Vesta>(VESTA_BOUNDARY_SCALAR);
}

#[test]
fn booth_digits_reconstruct_a_component() {
    for (negative, magnitude) in [(false, 0), (true, 1), (false, 0x1234_5678_9abc_def0), (true, (1 << 127) - 1)] {
        let component = SignedMagnitude { negative, magnitude };
        let mut value = 0i128;
        let windows = 127 / 8 + 1;
        for window in (0..windows).rev() {
            let digit = booth_digit(component, 8, window);
            let digit = if digit.negative {
                -(digit.magnitude as i128)
            } else {
                digit.magnitude as i128
            };
            value = value.wrapping_mul(256).wrapping_add(digit);
        }
        let expected = if negative { -(magnitude as i128) } else { magnitude as i128 };
        assert_eq!(value, expected);
    }
}

#[test]
fn multiexp_matches_the_sum_of_products() {
    let n = 260;
    let ks = scalars(n as u64);
    let points: Vec<Point<Pallas>> = (0..n)
        .map(|i| times(generator(), Fe::from_u64(7 * i as u64 + 3)))
        .collect();
    let bases = batch_normalize(&points);
    let actual = try_multiexp::<Pallas>(&ks, &bases).expect("many terms use the endomorphism");
    let mut expected = Point::identity();
    for (k, p) in ks.iter().zip(&points) {
        expected = expected.add(p.mul_glv(*k));
    }
    assert!(same(actual, expected));
    assert!(try_multiexp::<Pallas>(&ks[..10].to_vec(), &bases[..10].to_vec()).is_none());
}

#[test]
fn batch_inversion_is_all_or_nothing() {
    let mut values: Vec<Fp> = (1..8).map(Fe::from_u64).collect();
    let before = values.clone();
    let mut scratch = vec![Fe::zero(); 7];
    assert!(batch_invert_nonzero(&mut values, &mut scratch));
    for (value, inverse) in before.iter().zip(&values) {
        assert_eq!(value.mul(*inverse), Fe::one());
    }
    let mut values = before.clone();
    values[3] = Fe::zero();
    let kept = values.clone();
    assert!(!batch_invert_nonzero(&mut values, &mut scratch));
    assert_eq!(values, kept);
}

fn group_laws<C: Curve + Debug>() {
    let g = generator::<C>();
    let (a, b, c) = (g.double(), g.double().add(g), g.double().double().double());
    assert!(same(a.add(b).add(c), a.add(b.add(c))));
    assert!(same(a.add(b), b.add(a)));
    assert!(a.sub(a).is_identity());
    assert!(a.add(a.neg()).is_identity());
    assert!(same(a.add(a), a.double()));
    assert!(same(Point::identity().add(a), a));
    assert!(same(a.add_affine(affine(b)), a.add(b)));
    assert!(times(g, Scalar::<C>::one().neg()).add(g).is_identity());
}

#[test]
fn points_form_a_group() {
    group_laws::<Pallas>();
    group_laws::<Vesta>();
}

/// Sums of points in both groupings, with equal and opposite points and the neutral element.
fn groupings_agree<C: Curve>() {
    let g = generator::<C>();
    let points = vec![
        Point::identity(),
        g,
        g.neg(),
        g.double(),
        g.double().neg(),
        g.double().add(g),
        g.endo(),
    ];
    for a in &points {
        for b in &points {
            for c in &points {
                assert!(same(a.add(*b).add(*c), a.add(b.add(*c))));
            }
        }
    }
}

#[test]
fn addition_is_associative_in_exceptional_cases() {
    groupings_agree::<Pallas>();
    groupings_agree::<Vesta>();
}

#[test]
fn points_have_the_order_of_the_curve() {
    let order_minus_one = Fe::one().neg();
    let g = generator::<Pallas>();
    assert!(times(g, order_minus_one).add(g).is_identity());
    assert!(!times(g, order_minus_one).is_identity());
    let order_minus_one = Fe::one().neg();
    let g = generator::<Vesta>().double().endo();
    assert!(times(g, order_minus_one).add(g).is_identity());
}

fn batch_tables_equal_solo<C: GlvParams>() {
    let points: Vec<Point<C>> = scalars::<C::Scalar>(16)
        .into_iter()
        .map(|k| generator::<C>().mul_glv(k.add(Fe::one())))
        .collect();
    let batched = Table::batch(&points);
    assert_eq!(batched.len(), points.len());
    for (p, table) in points.iter().zip(batched.iter()) {
        let solo = Table::new(*p);
        assert!(same(table.point(), solo.point()));
        assert!(same(table.point(), *p));
        let k = Fe::from_u64(0xDEAD_BEEF);
        assert!(same(table.mul(k), solo.mul(k)), "batched table must act like solo");
        assert!(same(table.mul(k), times(*p, k)));
    }
}

#[test]
fn batch_build() {
    batch_tables_equal_solo::<Pallas>();
    batch_tables_equal_solo::<Vesta>();
}

fn decomposed_reuse_matches_fresh<C: GlvParams>() {
    let k = scalars::<C::Scalar>(1)[0];
    let decomposed = Decomposed::<C>::new(k);
    for k2 in scalars::<C::Scalar>(16) {
        let p = generator::<C>().mul_glv(k2.add(Fe::one()));
        let table = Table::new(p);
        assert!(
            same(table.mul_decomposed(&decomposed), table.mul(k)),
            "hoisted decomposition must match fresh"
        );
    }
}

#[test]
fn decomposed_reuse() {
    decomposed_reuse_matches_fresh::<Pallas>();
    decomposed_reuse_matches_fresh::<Vesta>();
}

fn mul_glv_matches_doubling<C: GlvParams>() {
    for k in scalars::<C::Scalar>(64) {
        let p = generator::<C>().mul_glv(k.add(Fe::one()));
        assert!(same(p.mul_glv(k), times(p, k)), "mul_glv must match");
    }
}

#[test]
fn one_shot() {
    mul_glv_matches_doubling::<Pallas>();
    mul_glv_matches_doubling::<Vesta>();
}

/// The batched ladder equals the per-table ladder and the plain product, across sizes around the
/// affine crossover, with a neutral point mixed in.
fn batch_mul_matches_plain<C: GlvParams>() {
    let lambda = Scalar::<C>::zeta();
    let sizes = [1, 3, BATCH_AFFINE_MIN_POINTS, BATCH_AFFINE_MIN_POINTS + 33];
    let ks = [
        Fe::zero(),
        Fe::one(),
        Fe::one().neg(),
        Fe::from_u64(2),
        lambda,
        lambda.neg(),
        lambda.add(Fe::one()),
        Fe::from_u128((1u128 << GLV_COMPONENT_BITS) - 1),
        scalars::<C::Scalar>(1)[0],
    ];
    for size in sizes {
        let points: Vec<Point<C>> = (0..size)
            .map(|i| {
                if size > 2 && i == size / 2 {
                    Point::identity()
                } else {
                    generator::<C>().mul_glv(Fe::from_u64(i as u64 + 1).add(lambda))
                }
            })
            .collect();
        let tables = Table::batch(&points);
        let refs: Vec<&Table<C>> = tables.iter().collect();
        for k in ks {
            let d = Decomposed::<C>::new(k);
            let batched = Table::mul_decomposed_batch(&refs, &d);
            assert_eq!(batched.len(), points.len());
            let batched = batch_normalize(&batched);
            let solo: Vec<Point<C>> = tables.iter().map(|t| t.mul_decomposed(&d)).collect();
            let solo = batch_normalize(&solo);
            let plain: Vec<Point<C>> = points.iter().map(|p| times(*p, k)).collect();
            let plain = batch_normalize(&plain);
            for i in 0..size {
                assert!(same_affine(batched[i], solo[i]), "batch != per-table");
                assert!(same_affine(batched[i], plain[i]), "batch != plain");
            }
        }
    }
}

#[test]
fn batch_mul_pallas() {
    batch_mul_matches_plain::<Pallas>();
}

#[test]
fn batch_mul_vesta() {
    batch_mul_matches_plain::<Vesta>();
}

/// The value of digits, lowest position first.
fn folded<C: GlvParams>(digits: &[u8]) -> Scalar<C> {
    let mut value = Scalar::<C>::zero();
    for &code in digits.iter().rev() {
        value = value.double();
        if code != 0 {
            value = value.add(digit_scalar(code));
        }
    }
    value
}

/// Digits whose schedules hit the exceptional cases of the affine ladder: the batch takes the
/// per-point ladders, and the products stay exact.
fn exceptional_schedules_fall_back<C: GlvParams>() {
    let d_eq_s = vec![1, 1];
    let d_eq_neg_s = vec![2, 1];
    // The digit is minus twice the scalar so far only modulo the order: let L be the first lattice
    // vector and D its digit; the digits D, then those of (L - D) / 2, reach L, which is zero.
    let (a, b) = (C::v1().0 as i128, -(C::v1().1 as i128));
    let code = joint_digits(a, b)[0];
    assert_ne!(code, 0, "the vector must be odd");
    let (da, db) = digit_coeffs(code);
    let mut d_eq_neg_2s = vec![code];
    d_eq_neg_2s.extend(joint_digits(
        (a - i128::from(da)) / 2,
        (b - i128::from(db)) / 2,
    ));
    assert!(d_eq_neg_2s.len() <= MAX_JOINT_DIGITS);
    assert!(folded::<C>(&d_eq_neg_2s).is_zero(), "the schedule must fold to zero");
    let safe = vec![2, 0, 1];

    assert!(!affine_ladder_safe::<C>(&d_eq_s));
    assert!(!affine_ladder_safe::<C>(&d_eq_neg_s));
    assert!(!affine_ladder_safe::<C>(&d_eq_neg_2s));
    assert!(affine_ladder_safe::<C>(&safe));

    let points: Vec<Point<C>> = (0..BATCH_AFFINE_MIN_POINTS + 3)
        .map(|i| times(generator(), Fe::from_u64(i as u64 + 1)))
        .collect();
    let tables = Table::batch(&points);
    let refs: Vec<&Table<C>> = tables.iter().collect();
    for digits in [d_eq_s, d_eq_neg_s, d_eq_neg_2s, safe] {
        let value = folded::<C>(&digits);
        let expected = affine_ladder_safe::<C>(&digits);
        let d = Decomposed::<C>::from_digits(digits);
        assert_eq!(d.safe(), expected);
        let batched = batch_normalize(&Table::mul_decomposed_batch(&refs, &d));
        for (p, out) in points.iter().zip(&batched) {
            assert!(same_affine(*out, affine(times(*p, value))), "products must stay exact");
        }
    }
}

#[test]
fn exceptional_fallback() {
    exceptional_schedules_fall_back::<Pallas>();
    exceptional_schedules_fall_back::<Vesta>();
}

fn bitreverse(mut value: usize, bits: usize) -> usize {
    let mut reversed = 0;
    for _ in 0..bits {
        reversed = (reversed << 1) | (value & 1);
        value >>= 1;
    }
    reversed
}

/// A radix-two transform in Jacobian coordinates.
fn reference<C: GlvParams>(points: &mut [Point<C>], omega: Scalar<C>, log_n: usize) {
    for i in 0..points.len() {
        let reversed = bitreverse(i, log_n);
        if i < reversed {
            points.swap(i, reversed);
        }
    }
    let mut chunk = 2;
    let mut twiddle_stride = points.len() / 2;
    while chunk <= points.len() {
        let twiddle_step = omega.pow_vartime(twiddle_stride as u64);
        for block in points.chunks_mut(chunk) {
            let (left, right) = block.split_at_mut(chunk / 2);
            let mut twiddle = Scalar::<C>::one();
            for (left, right) in left.iter_mut().zip(right) {
                let scaled = right.mul_glv(twiddle);
                let old_left = *left;
                *left = old_left.add(scaled);
                *right = old_left.sub(scaled);
                twiddle = twiddle.mul(twiddle_step);
            }
        }
        chunk *= 2;
        twiddle_stride /= 2;
    }
}

fn affine_fft_matches_projective<C: GlvParams>() {
    for log_n in 1..=7usize {
        let n = 1usize << log_n;
        let mut omega = Scalar::<C>::root_of_unity().invert().unwrap();
        for _ in log_n..32 {
            omega = omega.square();
        }
        let g = generator::<C>();
        let regular: Vec<Point<C>> = (0..n)
            .map(|i| times(g, Fe::from_u64(i as u64 + 1)))
            .collect();
        let exceptional: Vec<Point<C>> = (0..n)
            .map(|i| match i % 4 {
                0 => Point::identity(),
                1 => g,
                2 => g.neg(),
                _ => g.double(),
            })
            .collect();
        let scattered: Vec<Point<C>> = scalars::<C::Scalar>(n as u64)
            .into_iter()
            .map(|k| g.mul_glv(k))
            .collect();
        let mut inputs = vec![regular, exceptional, scattered];
        if log_n == 3 {
            inputs.push(
                [1, 4, 2, 7, 1, 6, 3, 10]
                    .map(|multiple| times(g, Fe::from_u64(multiple)))
                    .into(),
            );
        }
        if log_n == 4 {
            inputs.push(
                [
                    398_522, 248_420, 840_455, 798_528, 624_324, 663_377, 434_118, 357_938,
                    398_522, 7_942, 752_351, 727_850, 16_691, 106_822, 861_757, 814_544,
                ]
                .map(|multiple| times(g, Fe::from_u64(multiple)))
                .into(),
            );
        }
        for input in inputs {
            let mut expected = input.clone();
            reference(&mut expected, omega, log_n);
            let expected = batch_normalize(&expected);
            let actual = fft_vartime(&input, omega, log_n);
            assert_eq!(actual.len(), n);
            for i in 0..n {
                assert!(same_affine(actual[i], expected[i]), "output {i} of {n}");
            }
        }
    }
}

#[test]
fn affine_fft_to_seven_layers_pallas() {
    affine_fft_matches_projective::<Pallas>();
}

#[test]
fn affine_fft_to_seven_layers_vesta() {
    affine_fft_matches_projective::<Vesta>();
}

/// Multiples of the generator by powers of three.
fn spread_points(n: usize) -> Vec<Affine<Pallas>> {
    let mut point = generator::<Pallas>();
    let points = (0..n)
        .map(|_| {
            let current = point;
            point = point.double().add(point);
            current
        })
        .collect();
    batch_normalize(&points)
}

fn root_of_order(log_n: usize) -> Scalar<Pallas> {
    let mut omega = Scalar::<Pallas>::root_of_unity();
    for _ in log_n..32 {
        omega = omega.square();
    }
    omega
}

#[test]
fn codelets_keep_the_claim_of_regular_blocks() {
    for (log_n, size) in [(3, 8usize), (4, 16)] {
        let layer = |points: &mut Vec<Affine<Pallas>>, free: bool| {
            if size == 8 {
                fft8_multiplication_minimal_layer(points, root_of_order(log_n), free)
            } else {
                fft16_low_multiplication_layer(points, root_of_order(log_n), free)
            }
        };
        let regular = spread_points(2 * size);
        let mut points = regular.clone();
        assert!(layer(&mut points, true));
        assert!(points.iter().all(|p| !p.is_identity()));
        // The claim is not made again, and the transforms are the same.
        let mut again = regular.clone();
        assert!(!layer(&mut again, false));
        assert!(points.iter().zip(&again).all(|(a, b)| same_affine(*a, *b)));
        // Equal points of the second block meet in the first stage.
        let mut points = regular.clone();
        points[size + 1] = points[size];
        assert!(!layer(&mut points, true));
    }
}

#[test]
fn butterflies_report_exceptional_pairs() {
    let points = spread_points(6);
    let (left, right) = (points[..3].to_vec(), points[3..].to_vec());
    let mut scratch = AffineTwiddleScratch::new();
    let (sums, differences, kept) = affine_add_sub_pairs(&left, &right, &mut scratch, true);
    assert!(kept);
    for i in 0..3 {
        let (l, r) = (Point::from_affine(left[i]), Point::from_affine(right[i]));
        assert!(same_affine(sums[i], affine(l.add(r))));
        assert!(same_affine(differences[i], affine(l.sub(r))));
    }
    // The claim is not regained where it was not made.
    let (_, _, kept) = affine_add_sub_pairs(&left, &right, &mut scratch, false);
    assert!(!kept);
    let mut opposite = right.clone();
    opposite[1] = left[1].neg();
    let (sums, _, kept) = affine_add_sub_pairs(&left, &opposite, &mut scratch, true);
    assert!(!kept);
    assert!(sums[1].is_identity());

    // A layer claims it afresh where no case is exceptional.
    let mut layer = vec![left[0], left[1], left[2], left[2]];
    assert!(affine_twiddle_add_sub_layer(&mut layer, &right[..2].to_vec(), 2, &mut scratch, false));
    assert!(same_affine(
        layer[0],
        affine(Point::from_affine(left[0]).add(Point::from_affine(right[0])))
    ));
    assert!(same_affine(
        layer[3],
        affine(Point::from_affine(left[1]).sub(Point::from_affine(right[1])))
    ));
    let mut layer = vec![left[0], left[1]];
    assert!(!affine_twiddle_add_sub_layer(&mut layer, &vec![left[0]], 1, &mut scratch, true));
    assert!(layer[1].is_identity());
}

#[test]
fn zero_booth_digits_have_no_sign() {
    for negative in [false, true] {
        let component = SignedMagnitude { negative, magnitude: 1 << 40 };
        for window in 0..16 {
            let digit = booth_digit(component, 8, window);
            if digit.magnitude == 0 {
                assert!(!digit.negative);
            } else {
                assert_eq!(window, 5);
                assert_eq!(digit.negative, negative);
            }
        }
    }
}
