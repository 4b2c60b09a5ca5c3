//! Compiling expressions and evaluating them over polynomials.
use std::fmt::Debug;
use zakura_arith::field::{Fe, Modulus, PallasBase, VestaBase};
use zakura_arith::poly::ast::{Ast, AstLeaf, Rotation};
use zakura_arith::poly::basis::{copy_rotated_chunk, Basis, EvaluationDomain, RotatedChunk};
use zakura_arith::poly::cache::reuse_cache_slots;
use zakura_arith::poly::caching::CacheAction;
use zakura_arith::poly::evaluator::{get_chunk_params, new_evaluator};
use zakura_arith::poly::families::selector_family_matches;
use zakura_arith::poly::plan::{
    DistributionWork, EvaluationPlan, FactorBodyPlan, FactorBodyWork,
};
use zakura_arith::poly::recognize::{
    compressed_selector, expanded_polynomial, shared_factor_run, FactorSide,
};

fn fe<M: Modulus>(value: u64) -> Fe<M> {
    Fe::from_u64(value)
}

fn minus_one<M: Modulus>() -> Fe<M> {
    Fe::<M>::one().neg()
}

fn leaf_ast<M: Modulus>(leaf: AstLeaf) -> Ast<M> {
    Ast::from(leaf)
}

fn rotated<M: Modulus>(values: &[Fe<M>], rotation: i32, scale: usize) -> Vec<Fe<M>> {
    let len = values.len() as i64;
    let offset = (rotation as i64 * scale as i64).rem_euclid(len) as usize;
    (0..values.len())
        .map(|i| values[(i + offset) % values.len()])
        .collect()
}

fn extended_poly<M: Modulus>(domain: &EvaluationDomain<M>, value: impl Fn(usize) -> u64) -> Vec<Fe<M>> {
    (0..domain.len(Basis::ExtendedLagrangeCoeff))
        .map(|row| fe(value(row)))
        .collect()
}

fn scale_of<M: Modulus>(domain: &EvaluationDomain<M>) -> usize {
    domain.len(Basis::ExtendedLagrangeCoeff) / domain.len(Basis::LagrangeCoeff)
}

/// Interpolates values at the powers of the root of unity and evaluates on the extended coset.
fn to_extended<M: Modulus>(domain: &EvaluationDomain<M>, values: &[Fe<M>]) -> Vec<Fe<M>> {
    let n = values.len();
    let omega_inv = domain.get_omega().invert().unwrap();
    let n_inv = fe::<M>(n as u64).invert().unwrap();
    let coefficients: Vec<Fe<M>> = (0..n)
        .map(|i| {
            let step = omega_inv.pow_vartime(i as u64);
            let mut power = Fe::one();
            let mut sum = Fe::zero();
            for value in values {
                sum = sum.add(value.mul(power));
                power = power.mul(step);
            }
            sum.mul(n_inv)
        })
        .collect();
    let omega = domain.get_extended_omega();
    let mut point = Fe::<M>::zeta();
    (0..domain.len(Basis::ExtendedLagrangeCoeff))
        .map(|_| {
            let value = coefficients
                .iter()
                .rev()
                .fold(Fe::zero(), |acc, c| acc.mul(point).add(*c));
            point = point.mul(omega);
            value
        })
        .collect()
}

#[test]
fn short_chunk_regression_test() {
    // Six threads do not divide a power of two, so some length has a short last chunk.
    let threads = 6;
    let k = (1..16u32)
        .find(|k| {
            let (chunk_size, num_chunks) = get_chunk_params(1 << k, threads);
            (1 << k) < chunk_size * num_chunks
        })
        .expect("some length has a short chunk");
    for basis in [Basis::Coeff, Basis::LagrangeCoeff, Basis::ExtendedLagrangeCoeff] {
        let domain = EvaluationDomain::<PallasBase>::new(1, k);
        let mut evaluator = new_evaluator(basis);
        evaluator.register_poly(domain.empty_poly(basis));
        let constant =
            evaluator.evaluate_with_threads(&Ast::ConstantTerm(Fe::zero()), &domain, threads);
        let linear =
            evaluator.evaluate_with_threads(&Ast::LinearTerm(Fe::zero()), &domain, threads);
        assert_eq!(constant.len(), domain.len(basis));
        assert!(constant.iter().all(|value| value.is_zero()));
        assert!(linear.iter().all(|value| value.is_zero()));
    }
}

#[test]
fn scale_by_small_values() {
    let domain = EvaluationDomain::<PallasBase>::new(1, 4);
    let mut evaluator = new_evaluator(Basis::ExtendedLagrangeCoeff);
    evaluator.register_poly(domain.empty_poly(Basis::ExtendedLagrangeCoeff));
    let value = fe::<PallasBase>(42);
    for (scalar, expected) in [
        (Fe::one(), value),
        (minus_one(), value.neg()),
        (Fe::one().double(), value.double()),
    ] {
        let result = evaluator.evaluate(&Ast::ConstantTerm(value).scale(scalar), &domain);
        assert!(result.iter().all(|result| *result == expected));
    }
}

#[test]
fn multiply_by_constant_terms() {
    for basis in [Basis::LagrangeCoeff, Basis::ExtendedLagrangeCoeff] {
        let domain = EvaluationDomain::<PallasBase>::new(1, 4);
        let poly: Vec<Fe<PallasBase>> =
            (0..domain.len(basis)).map(|index| fe(index as u64 + 7)).collect();
        let expected = poly.clone();
        let mut evaluator = new_evaluator(basis);
        let leaf = evaluator.register_poly(poly);
        for scalar in [minus_one(), Fe::one(), Fe::one().double(), fe(7)] {
            let constant = Ast::ConstantTerm(scalar);
            let expression = leaf_ast(leaf);
            let constant_lhs = constant.clone().mul(expression.clone());
            let constant_rhs = expression.mul(constant);
            for ast in [constant_lhs, constant_rhs] {
                assert!(matches!(&ast, Ast::Mul(_, _)));
                let result = evaluator.evaluate(&ast, &domain);
                assert!(result
                    .iter()
                    .zip(expected.iter())
                    .all(|(result, value)| *result == value.mul(scalar)));
            }
        }
    }
}

#[test]
fn subtract_polynomials() {
    let domain = EvaluationDomain::<PallasBase>::new(1, 4);
    let mut evaluator = new_evaluator(Basis::ExtendedLagrangeCoeff);
    evaluator.register_poly(domain.empty_poly(Basis::ExtendedLagrangeCoeff));
    let lhs = fe::<PallasBase>(42);
    let rhs = fe::<PallasBase>(17);
    let result = evaluator.evaluate(&Ast::ConstantTerm(lhs).sub(Ast::ConstantTerm(rhs)), &domain);
    assert!(result.iter().all(|result| *result == lhs.sub(rhs)));
}

#[test]
fn in_place_terms_match_basis_values() {
    let domain = EvaluationDomain::<PallasBase>::new(3, 4);
    let scalar = fe::<PallasBase>(17);

    let mut coeff_evaluator = new_evaluator(Basis::Coeff);
    coeff_evaluator.register_poly(domain.empty_poly(Basis::Coeff));
    let mut expected = vec![Fe::zero(); 1 << 4];
    expected[0] = scalar;
    let actual = coeff_evaluator.evaluate(&Ast::ConstantTerm(scalar), &domain);
    assert_eq!(actual, expected);
    expected[0] = Fe::zero();
    expected[1] = scalar;
    let actual = coeff_evaluator.evaluate(&Ast::LinearTerm(scalar), &domain);
    assert_eq!(actual, expected);

    let mut lagrange_evaluator = new_evaluator(Basis::LagrangeCoeff);
    lagrange_evaluator.register_poly(domain.empty_poly(Basis::LagrangeCoeff));
    assert!(lagrange_evaluator
        .evaluate(&Ast::ConstantTerm(scalar), &domain)
        .iter()
        .all(|value| *value == scalar));
    let mut value = scalar;
    let expected = (0..1 << 4)
        .map(|_| {
            let current = value;
            value = value.mul(domain.get_omega());
            current
        })
        .collect::<Vec<_>>();
    let actual = lagrange_evaluator.evaluate(&Ast::LinearTerm(scalar), &domain);
    assert_eq!(actual, expected);

    let mut extended_evaluator = new_evaluator(Basis::ExtendedLagrangeCoeff);
    extended_evaluator.register_poly(domain.empty_poly(Basis::ExtendedLagrangeCoeff));
    assert!(extended_evaluator
        .evaluate(&Ast::ConstantTerm(scalar), &domain)
        .iter()
        .all(|value| *value == scalar));
    let mut value = scalar.mul(Fe::zeta());
    let expected = (0..domain.len(Basis::ExtendedLagrangeCoeff))
        .map(|_| {
            let current = value;
            value = value.mul(domain.get_extended_omega());
            current
        })
        .collect::<Vec<_>>();
    let actual = extended_evaluator.evaluate(&Ast::LinearTerm(scalar), &domain);
    assert_eq!(actual, expected);
}

#[test]
fn empty_and_singleton_distribute_powers_match_direct_evaluation() {
    for basis in [Basis::Coeff, Basis::LagrangeCoeff, Basis::ExtendedLagrangeCoeff] {
        let domain = EvaluationDomain::<PallasBase>::new(3, 4);
        let mut evaluator = new_evaluator(basis);
        evaluator.register_poly(domain.empty_poly(basis));
        let base = fe::<PallasBase>(11);

        let empty = Ast::distribute_powers(vec![], base);
        let actual = evaluator.evaluate(&empty, &domain);
        assert!(actual.iter().all(|value| *value == Fe::zero()));

        let term = Ast::ConstantTerm(fe(17)).add(Ast::LinearTerm(fe(19)));
        let expected = evaluator.evaluate(&term, &domain);
        let singleton = Ast::distribute_powers(vec![term], base);
        let actual = evaluator.evaluate(&singleton, &domain);
        assert_eq!(actual, expected);
    }
}

#[test]
fn in_place_rotation_matches_existing_chunk_helpers() {
    let domain = EvaluationDomain::<PallasBase>::new(5, 4);
    let lagrange: Vec<Fe<PallasBase>> = (0..16).map(fe).collect();
    let extended = extended_poly(&domain, |index| index as u64);
    let scale = scale_of(&domain);

    for rotation in [
        Rotation(-16),
        Rotation(-6),
        Rotation::prev(),
        Rotation::cur(),
        Rotation::next(),
        Rotation(12),
        Rotation(16),
    ] {
        for (basis, poly, scale, sizes) in [
            (Basis::LagrangeCoeff, &lagrange, 1, vec![1, 3, 7, 16]),
            (Basis::ExtendedLagrangeCoeff, &extended, scale, vec![1, 3, 7, 16, 64]),
        ] {
            for chunk_size in sizes {
                let all = rotated(poly, rotation.0, scale);
                for (chunk_index, expected) in all.chunks(chunk_size).enumerate() {
                    let mut actual = vec![Fe::zero(); expected.len()];
                    copy_rotated_chunk(
                        basis,
                        &domain,
                        poly,
                        rotation,
                        chunk_size * chunk_index,
                        &mut actual,
                    );
                    assert_eq!(&actual[..], expected);
                }
            }
        }
    }
}

#[test]
fn large_extended_rotations_are_cyclic() {
    let domain = EvaluationDomain::<PallasBase>::new(5, 4);
    let extended = extended_poly(&domain, |index| index as u64);
    let rotation_scale = scale_of(&domain);
    assert_eq!(rotation_scale, 4);
    assert_eq!(extended.len(), 64);
    let rotation_period =
        i32::try_from(extended.len() / rotation_scale).expect("test rotation period fits in i32");

    for rotation in [
        Rotation(1_073_741_825),
        Rotation(-1_073_741_825),
        Rotation(i32::MIN),
        Rotation(i32::MAX),
    ] {
        let offset = usize::try_from(rotation.0.rem_euclid(rotation_period))
            .expect("non-negative rotation fits in usize")
            * rotation_scale;
        let expected = extended[offset..]
            .iter()
            .chain(&extended[..offset])
            .copied()
            .collect::<Vec<_>>();
        let mut actual = vec![];
        for chunk_index in 0..extended.len().div_ceil(7) {
            let len = (extended.len() - 7 * chunk_index).min(7);
            let mut output = vec![Fe::zero(); len];
            copy_rotated_chunk(
                Basis::ExtendedLagrangeCoeff,
                &domain,
                &extended,
                rotation,
                7 * chunk_index,
                &mut output,
            );
            actual.extend(output);
        }
        assert_eq!(actual, expected);
    }
}

#[test]
fn scratch_evaluation_matches_rowwise_expression() {
    let domain = EvaluationDomain::<PallasBase>::new(5, 4);
    let lhs_poly = extended_poly(&domain, |index| (index + 1) as u64);
    let rhs_poly = extended_poly(&domain, |index| (2 * index + 3) as u64);
    let scale = scale_of(&domain);
    let lhs_cur = lhs_poly.clone();
    let lhs_prev = rotated(&lhs_poly, -1, scale);
    let rhs_prev = rotated(&rhs_poly, -1, scale);
    let rhs_next = rotated(&rhs_poly, 1, scale);

    let mut evaluator = new_evaluator(Basis::ExtendedLagrangeCoeff);
    let lhs = evaluator.register_poly(lhs_poly);
    let rhs = evaluator.register_poly(rhs_poly);
    let product = leaf_ast(lhs.with_rotation(Rotation::prev()))
        .add(leaf_ast(rhs.with_rotation(Rotation::next())))
        .mul(leaf_ast(lhs).sub(leaf_ast(rhs.with_rotation(Rotation::prev()))));
    let scaled = leaf_ast(lhs).scale(fe(3));
    let constant = Ast::ConstantTerm(fe(7));
    let base = fe::<PallasBase>(11);
    let ast = Ast::distribute_powers(vec![product, scaled, constant], base);

    let actual = evaluator.evaluate(&ast, &domain);
    for index in 0..actual.len() {
        let product = lhs_prev[index]
            .add(rhs_next[index])
            .mul(lhs_cur[index].sub(rhs_prev[index]));
        let scaled = lhs_cur[index].mul(fe(3));
        let expected = product.mul(base).add(scaled).mul(base).add(fe(7));
        assert_eq!(actual[index], expected);
    }
}

fn expanded_polynomial_expression<M: Modulus>(
    base: Ast<M>,
    coefficients: &[AstLeaf],
    prefix: Fe<M>,
) -> Ast<M> {
    let mut polynomial = Ast::ConstantTerm(prefix);
    let mut power = Ast::ConstantTerm(Fe::one());
    for coefficient in coefficients {
        polynomial = polynomial.add(power.clone().mul(leaf_ast(*coefficient)));
        power = power.mul(base.clone());
    }
    polynomial
}

fn polynomial_expression_from_powers<M: Modulus>(
    powers: &[Ast<M>],
    coefficients: &[AstLeaf],
) -> Ast<M> {
    powers.iter().zip(coefficients).fold(
        Ast::ConstantTerm(Fe::zero()),
        |polynomial, (power, coefficient)| {
            polynomial.add(power.clone().mul(leaf_ast(*coefficient)))
        },
    )
}

fn check_expanded_polynomials_use_horner<M: Modulus + Debug>() {
    const INTERPOLATION_WIDTH: u64 = 8;

    let domain = EvaluationDomain::<M>::new(3, 3);
    let column = |value: &dyn Fn(u64) -> u64| {
        let values: Vec<Fe<M>> = (0..INTERPOLATION_WIDTH).map(|row| fe(value(row))).collect();
        to_extended(&domain, &values)
    };
    let direct_base_values = column(&|row| row + 3);
    let left_base_values = column(&|row| 2 * row + 5);
    let right_base_values = column(&|row| 3 * row + 1);
    let coefficient_values = (0..INTERPOLATION_WIDTH)
        .map(|degree| column(&|row| (degree + 2) * (row + 7) + 1))
        .collect::<Vec<_>>();
    let direct_target_values = column(&|row| 5 * row + 11);
    let compound_target_values = column(&|row| 7 * row + 13);
    let selector_values = column(&|row| row + 17);

    let mut evaluator = new_evaluator(Basis::ExtendedLagrangeCoeff);
    let direct_base = evaluator.register_poly(direct_base_values.clone());
    let left_base = evaluator.register_poly(left_base_values.clone());
    let right_base = evaluator.register_poly(right_base_values.clone());
    let coefficients = coefficient_values
        .iter()
        .map(|coefficient| evaluator.register_poly(coefficient.clone()))
        .collect::<Vec<_>>();
    let direct_target = evaluator.register_poly(direct_target_values.clone());
    let compound_target = evaluator.register_poly(compound_target_values.clone());
    let selector = evaluator.register_poly(selector_values.clone());

    let direct_base = leaf_ast(direct_base);
    let scale = fe(INTERPOLATION_WIDTH);
    let compound_base = leaf_ast(left_base).sub(leaf_ast(right_base).scale(scale));
    let direct = expanded_polynomial_expression(direct_base.clone(), &coefficients, Fe::zero())
        .sub(leaf_ast(direct_target));
    let compound = expanded_polynomial_expression(compound_base.clone(), &coefficients, Fe::zero())
        .sub(leaf_ast(compound_target));

    let challenge = fe(19);
    let selector = leaf_ast(selector);
    let expression = Ast::distribute_powers(
        vec![selector.clone().mul(direct), selector.mul(compound)],
        challenge,
    );
    let actual = evaluator.evaluate(&expression, &domain);
    for row in 0..actual.len() {
        let evaluate = |base: Fe<M>| {
            coefficient_values
                .iter()
                .rev()
                .fold(Fe::zero(), |accumulator: Fe<M>, coefficient| {
                    accumulator.mul(base).add(coefficient[row])
                })
        };
        let direct = evaluate(direct_base_values[row]).sub(direct_target_values[row]);
        let compound_base = left_base_values[row].sub(right_base_values[row].mul(scale));
        let compound = evaluate(compound_base).sub(compound_target_values[row]);
        let expected = selector_values[row].mul(direct.mul(challenge).add(compound));
        assert_eq!(actual[row], expected);
    }

    let direct_polynomial =
        expanded_polynomial_expression(direct_base.clone(), &coefficients, Fe::zero());
    assert!(matches!(
        EvaluationPlan::compile(&direct_polynomial),
        EvaluationPlan::Horner { .. }
    ));

    let nonzero_prefix =
        expanded_polynomial_expression(direct_base.clone(), &coefficients, Fe::one());
    assert!(expanded_polynomial(&nonzero_prefix).is_none());
    assert!(expanded_polynomial(&expanded_polynomial_expression(
        direct_base.clone(),
        &coefficients[..3],
        Fe::zero(),
    ))
    .is_none());

    let mut powers = vec![];
    let mut power = Ast::ConstantTerm(Fe::one());
    for _ in &coefficients {
        powers.push(power.clone());
        power = power.mul(compound_base.clone());
    }

    let mut broken_powers = powers.clone();
    broken_powers[4] = powers[2].clone();
    assert!(expanded_polynomial(&polynomial_expression_from_powers(
        &broken_powers,
        &coefficients,
    ))
    .is_none());

    let mut changed_base = powers;
    changed_base[4] = changed_base[3].clone().mul(direct_base);
    assert!(expanded_polynomial(&polynomial_expression_from_powers(
        &changed_base,
        &coefficients,
    ))
    .is_none());
}

#[test]
fn expanded_polynomials_use_horner() {
    check_expanded_polynomials_use_horner::<PallasBase>();
    check_expanded_polynomials_use_horner::<VestaBase>();
}

fn check_repeated_subexpressions_use_squares<M: Modulus + Debug>(basis: Basis) {
    let domain = EvaluationDomain::<M>::new(3, 4);
    let values: Vec<Fe<M>> = (0..domain.len(basis)).map(|index| fe(index as u64 + 3)).collect();
    let mut evaluator = new_evaluator(basis);
    let leaf = evaluator.register_poly(values);
    let repeated = leaf_ast(leaf.with_rotation(Rotation::prev())).add(Ast::ConstantTerm(fe(7)));
    let inner_square = repeated.clone().mul(repeated.clone());
    let nested_square = inner_square.clone().mul(inner_square);
    let plan = EvaluationPlan::compile(&nested_square);
    match &plan {
        EvaluationPlan::Square(inner) => {
            assert!(matches!(inner.as_ref(), EvaluationPlan::Square(_)));
        }
        _ => panic!("nested repeated operands compile to nested squares"),
    }

    let expected = evaluator.evaluate(&repeated, &domain);
    let actual = evaluator.evaluate(&nested_square, &domain);
    assert!(actual
        .iter()
        .zip(expected.iter())
        .all(|(actual, expected)| *actual == expected.square().square()));

    let lhs = leaf_ast(leaf.with_rotation(Rotation::prev()));
    let rhs = leaf_ast(leaf.with_rotation(Rotation::next()));
    let product = lhs.clone().mul(rhs.clone());
    assert!(matches!(EvaluationPlan::compile(&product), EvaluationPlan::Mul(_, _)));

    let expected_lhs = evaluator.evaluate(&lhs, &domain);
    let expected_rhs = evaluator.evaluate(&rhs, &domain);
    let actual = evaluator.evaluate(&product, &domain);
    assert!(actual
        .iter()
        .zip(expected_lhs.iter().zip(expected_rhs.iter()))
        .all(|(actual, (lhs, rhs))| *actual == lhs.mul(*rhs)));
}

#[test]
fn repeated_subexpressions_use_squares() {
    check_repeated_subexpressions_use_squares::<PallasBase>(Basis::LagrangeCoeff);
    check_repeated_subexpressions_use_squares::<PallasBase>(Basis::ExtendedLagrangeCoeff);
    check_repeated_subexpressions_use_squares::<VestaBase>(Basis::LagrangeCoeff);
    check_repeated_subexpressions_use_squares::<VestaBase>(Basis::ExtendedLagrangeCoeff);
}

fn check_common_subexpressions_are_cached<M: Modulus + Debug>() {
    let domain = EvaluationDomain::<M>::new(3, 4);
    let mut evaluator = new_evaluator(Basis::ExtendedLagrangeCoeff);
    let poly_len = domain.len(Basis::ExtendedLagrangeCoeff);
    let values = (0..4)
        .map(|poly_index| extended_poly(&domain, |row| (poly_index * poly_len + row + 1) as u64))
        .collect::<Vec<_>>();
    let leaves = values
        .iter()
        .map(|poly| evaluator.register_poly(poly.clone()))
        .collect::<Vec<_>>();

    let repeated = leaf_ast(leaves[0])
        .add(leaf_ast(leaves[1]))
        .mul(leaf_ast(leaves[2]).add(leaf_ast(leaves[3])));
    let terms = (5..9)
        .map(|constant| repeated.clone().add(Ast::ConstantTerm(fe(constant))))
        .collect::<Vec<_>>();
    let base = fe(11);
    let ast = Ast::distribute_powers(terms.clone(), base);

    let mut plan = EvaluationPlan::compile(&ast);
    assert_eq!(plan.cache_common_subexpressions(), 1);

    let mut single_saved_multiplication = EvaluationPlan::compile(&Ast::distribute_powers(
        terms.into_iter().take(2).collect(),
        base,
    ));
    assert_eq!(single_saved_multiplication.cache_common_subexpressions(), 1);

    let repeated_copy = leaf_ast(leaves[0]);
    let mut copy_only = EvaluationPlan::compile(&Ast::distribute_powers(
        vec![repeated_copy.clone(), repeated_copy],
        base,
    ));
    assert_eq!(copy_only.cache_common_subexpressions(), 0);

    let actual = evaluator.evaluate(&ast, &domain);
    for row in 0..actual.len() {
        let repeated = values[0][row]
            .add(values[1][row])
            .mul(values[2][row].add(values[3][row]));
        let expected = (5..9).fold(Fe::<M>::zero(), |accumulator, constant| {
            accumulator.mul(base).add(repeated).add(fe(constant))
        });
        assert_eq!(actual[row], expected);
    }
}

#[test]
fn common_subexpressions_are_cached() {
    check_common_subexpressions_are_cached::<PallasBase>();
    check_common_subexpressions_are_cached::<VestaBase>();
}

#[test]
fn cache_slots_are_reused_after_their_last_load() {
    let mut actions = vec![None; 6];
    actions[0] = Some(CacheAction { slot: 0, store: true, end: 1 });
    actions[1] = Some(CacheAction { slot: 1, store: true, end: 2 });
    actions[2] = Some(CacheAction { slot: 0, store: false, end: 3 });
    actions[3] = Some(CacheAction { slot: 2, store: true, end: 4 });
    actions[4] = Some(CacheAction { slot: 2, store: false, end: 5 });
    actions[5] = Some(CacheAction { slot: 1, store: false, end: 6 });

    assert_eq!(reuse_cache_slots(&mut actions, 3), 2);
    assert_eq!(actions[0].unwrap().slot, actions[2].unwrap().slot);
    assert_eq!(actions[3].unwrap().slot, actions[4].unwrap().slot);
    assert_eq!(actions[0].unwrap().slot, actions[3].unwrap().slot);
    assert_ne!(actions[0].unwrap().slot, actions[1].unwrap().slot);
}

#[test]
fn extended_shared_factors_support_nested_rotated_bodies() {
    let domain = EvaluationDomain::<PallasBase>::new(5, 4);
    let scale = scale_of(&domain);
    let poly_len = domain.len(Basis::ExtendedLagrangeCoeff);
    let polys = (0..4)
        .map(|poly_index| extended_poly(&domain, |row| (poly_index * poly_len + row + 1) as u64))
        .collect::<Vec<_>>();

    let a_prev = rotated(&polys[0], -1, scale);
    let b_next = rotated(&polys[1], 1, scale);
    let c_cur = polys[2].clone();
    let c_prev = rotated(&polys[2], -1, scale);
    let c_next = rotated(&polys[2], 1, scale);
    let d_cur = polys[3].clone();
    let d_prev = rotated(&polys[3], -1, scale);
    let d_next = rotated(&polys[3], 1, scale);

    let mut evaluator = new_evaluator(Basis::ExtendedLagrangeCoeff);
    let leaves = polys
        .into_iter()
        .map(|poly| evaluator.register_poly(poly))
        .collect::<Vec<_>>();
    let at = |index: usize, rotation: Rotation| leaf_ast(leaves[index].with_rotation(rotation));
    let (prev, cur, next) = (Rotation::prev(), Rotation::cur(), Rotation::next());

    let factor = at(0, prev).add(at(1, next));
    let body_a = at(2, prev).add(at(3, next)).mul(at(2, next).sub(at(3, prev)));
    let body_base = fe::<PallasBase>(13);
    let body_b = Ast::distribute_powers(
        vec![
            at(2, cur).mul(at(3, cur)),
            at(2, prev).add(at(3, next)),
            Ast::ConstantTerm(fe(7)),
        ],
        body_base,
    );
    let outer_base = fe::<PallasBase>(19);
    let left = Ast::distribute_powers(
        vec![
            factor.clone().mul(body_a.clone()),
            factor.clone().mul(body_b.clone()),
        ],
        outer_base,
    );
    let right = Ast::distribute_powers(
        vec![body_a.mul(factor.clone()), body_b.mul(factor)],
        outer_base,
    );

    let actual_left = evaluator.evaluate(&left, &domain);
    let actual_right = evaluator.evaluate(&right, &domain);
    for row in 0..actual_left.len() {
        let factor = a_prev[row].add(b_next[row]);
        let body_a = c_prev[row].add(d_next[row]).mul(c_next[row].sub(d_prev[row]));
        let body_b = c_cur[row]
            .mul(d_cur[row])
            .mul(body_base)
            .add(c_prev[row])
            .add(d_next[row])
            .mul(body_base)
            .add(fe(7));
        let expected = factor.mul(body_a).mul(outer_base).add(factor.mul(body_b));
        assert_eq!(actual_left[row], expected);
        assert_eq!(actual_right[row], expected);
    }
}

fn check_shared_factor_runs<M: Modulus + Debug>() {
    let domain = EvaluationDomain::<M>::new(1, 3);
    let factor_a_values = [2_u64, 3, 5, 7, 11, 13, 17, 19].map(fe::<M>);
    let factor_b_values = [23_u64, 29, 31, 37, 41, 43, 47, 53].map(fe::<M>);
    let body_values = [
        [59_u64, 61, 67, 71, 73, 79, 83, 89],
        [97, 101, 103, 107, 109, 113, 127, 131],
        [137, 139, 149, 151, 157, 163, 167, 173],
        [179, 181, 191, 193, 197, 199, 211, 223],
        [227, 229, 233, 239, 241, 251, 257, 263],
        [269, 271, 277, 281, 283, 293, 307, 311],
    ]
    .map(|values| values.map(fe::<M>));

    let mut evaluator = new_evaluator(Basis::LagrangeCoeff);
    let factor_a = evaluator.register_poly(factor_a_values.to_vec());
    let factor_b = evaluator.register_poly(factor_b_values.to_vec());
    let bodies = body_values
        .iter()
        .map(|values| evaluator.register_poly(values.to_vec()))
        .collect::<Vec<_>>();

    let common_factor =
        leaf_ast(factor_a).mul(Ast::ConstantTerm(fe(2)).sub(leaf_ast(factor_b)));
    let terms = vec![
        common_factor.clone().mul(leaf_ast(bodies[0])),
        common_factor.clone().mul(leaf_ast(bodies[1])),
        leaf_ast(factor_b).mul(leaf_ast(bodies[2])),
        common_factor.clone().mul(leaf_ast(bodies[3])),
        common_factor.clone().mul(leaf_ast(bodies[4])),
        common_factor.clone().mul(leaf_ast(bodies[5])),
    ];

    assert!(matches!(
        shared_factor_run(&terms, terms.len()),
        Some((3, _, FactorSide::Left))
    ));
    assert!(shared_factor_run(&terms, 3).is_none());
    assert!(matches!(
        shared_factor_run(&terms, 2),
        Some((0, _, FactorSide::Left))
    ));

    let right_terms = bodies
        .iter()
        .take(4)
        .map(|body| leaf_ast(*body).mul(common_factor.clone()))
        .collect::<Vec<_>>();
    assert!(matches!(
        shared_factor_run(&right_terms, right_terms.len()),
        Some((0, _, FactorSide::Right))
    ));

    let base = fe::<M>(9);
    let planned_ast = Ast::distribute_powers(terms.clone(), base);
    let plan = EvaluationPlan::compile(&planned_ast);
    let work = match plan {
        EvaluationPlan::DistributePowers { work, .. } => work,
        _ => panic!("multiple terms compile to distributed work"),
    };
    match work.as_slice() {
        [DistributionWork::SharedFactor {
            bodies: low_bodies,
            power: low_power,
            ..
        }, DistributionWork::Term {
            power: middle_power,
            ..
        }, DistributionWork::SharedFactor {
            bodies: high_bodies,
            power: high_power,
            ..
        }] => {
            assert!(matches!(
                low_bodies,
                FactorBodyPlan::Sequential(bodies) if bodies.len() == 3
            ));
            assert!(matches!(
                high_bodies,
                FactorBodyPlan::Sequential(bodies) if bodies.len() == 2
            ));
            assert_eq!(*low_power, Fe::one());
            assert_eq!(*middle_power, base.mul(base).mul(base));
            assert_eq!(*high_power, base.mul(base).mul(base).mul(base));
        }
        _ => panic!("shared-factor runs compile to disjoint work"),
    }

    for base in [Fe::zero(), Fe::one(), fe(9)] {
        let actual = evaluator.evaluate(&Ast::distribute_powers(terms.clone(), base), &domain);
        let actual_right =
            evaluator.evaluate(&Ast::distribute_powers(right_terms.clone(), base), &domain);
        for row in 0..actual.len() {
            let common_factor = factor_a_values[row].mul(fe::<M>(2).sub(factor_b_values[row]));
            let factors = [
                common_factor,
                common_factor,
                factor_b_values[row],
                common_factor,
                common_factor,
                common_factor,
            ];
            let expected = factors
                .iter()
                .zip(body_values.iter())
                .fold(Fe::<M>::zero(), |accumulator, (factor, body)| {
                    accumulator.mul(base).add(factor.mul(body[row]))
                });
            assert_eq!(actual[row], expected);

            let expected_right = body_values[..4]
                .iter()
                .fold(Fe::<M>::zero(), |accumulator, body| {
                    accumulator.mul(base).add(body[row].mul(common_factor))
                });
            assert_eq!(actual_right[row], expected_right);
        }
    }
}

#[test]
fn shared_factor_runs_match_generic_evaluation() {
    check_shared_factor_runs::<PallasBase>();
    check_shared_factor_runs::<VestaBase>();
}

fn check_nested_shared_factor_groups<M: Modulus + Debug>() {
    let domain = EvaluationDomain::<M>::new(1, 3);
    let raw_values = (0..10u64)
        .map(|column| {
            (0..8u64)
                .map(|row| fe::<M>((column + 2) * (row + 3) + 1))
                .collect::<Vec<_>>()
        })
        .collect::<Vec<_>>();
    let mut evaluator = new_evaluator(Basis::LagrangeCoeff);
    let leaves = raw_values
        .iter()
        .map(|values| evaluator.register_poly(values.clone()))
        .collect::<Vec<_>>();
    let leaf = |index: usize| leaf_ast::<M>(leaves[index]);

    let selector = leaf(0);
    let left_factor = leaf(1).add(leaf(2)).mul(leaf(3));
    let right_factor = leaf(8).mul(leaf(9).add(leaf(7)));
    let bodies = vec![
        left_factor.clone().mul(leaf(5)),
        left_factor.clone().mul(leaf(6)),
        leaf(2).mul(leaf(7)),
        left_factor.mul(leaf(8)),
        leaf(3).mul(right_factor.clone()),
        leaf(4).mul(right_factor),
    ];
    let terms = bodies
        .iter()
        .map(|body| selector.clone().mul(body.clone()))
        .collect::<Vec<_>>();

    let base = fe::<M>(13);
    let plan = EvaluationPlan::compile(&Ast::distribute_powers(terms.clone(), base));
    let body_work = match &plan {
        EvaluationPlan::DistributePowers { work, .. } => match work.as_slice() {
            [DistributionWork::SharedFactor { bodies, .. }] => match bodies {
                FactorBodyPlan::Factored(work) => work,
                FactorBodyPlan::Sequential(_) => {
                    panic!("nested repeated factors should be planned")
                }
            },
            _ => panic!("the common outer factor should be planned"),
        },
        _ => panic!("multiple terms compile to distributed work"),
    };
    assert_eq!(body_work.len(), 3);
    match &body_work[0] {
        FactorBodyWork::SharedFactor { terms, .. } => {
            assert_eq!(terms.len(), 3);
            assert_eq!(terms[0].power, base.pow_vartime(5));
            assert_eq!(terms[1].power, base.pow_vartime(4));
            assert_eq!(terms[2].power, base.square());
        }
        FactorBodyWork::Term(_) => panic!("the repeated left factor should be planned"),
    }
    match &body_work[1] {
        FactorBodyWork::SharedFactor { terms, .. } => {
            assert_eq!(terms.len(), 2);
            assert_eq!(terms[0].power, base);
            assert_eq!(terms[1].power, Fe::one());
        }
        FactorBodyWork::Term(_) => panic!("the repeated right factor should be planned"),
    }
    match &body_work[2] {
        FactorBodyWork::Term(term) => assert_eq!(term.power, base.pow_vartime(3)),
        FactorBodyWork::SharedFactor { .. } => {
            panic!("the unrelated body should remain independent")
        }
    }

    for base in [Fe::zero(), Fe::one(), fe(13)] {
        let actual = evaluator.evaluate(&Ast::distribute_powers(terms.clone(), base), &domain);
        for row in 0..actual.len() {
            let left_factor_value = raw_values[1][row]
                .add(raw_values[2][row])
                .mul(raw_values[3][row]);
            let right_factor_value =
                raw_values[8][row].mul(raw_values[9][row].add(raw_values[7][row]));
            let body_values = [
                left_factor_value.mul(raw_values[5][row]),
                left_factor_value.mul(raw_values[6][row]),
                raw_values[2][row].mul(raw_values[7][row]),
                left_factor_value.mul(raw_values[8][row]),
                raw_values[3][row].mul(right_factor_value),
                raw_values[4][row].mul(right_factor_value),
            ];
            let expected = body_values.iter().fold(Fe::<M>::zero(), |accumulator, body| {
                accumulator.mul(base).add(raw_values[0][row].mul(*body))
            });
            assert_eq!(actual[row], expected);
        }
    }
}

#[test]
fn nested_shared_factor_groups_preserve_challenge_powers() {
    check_nested_shared_factor_groups::<PallasBase>();
    check_nested_shared_factor_groups::<VestaBase>();
}

fn compressed_selector_expression<M: Modulus>(
    query: AstLeaf,
    combination_len: usize,
    assigned_root: usize,
) -> Ast<M> {
    let mut expression = leaf_ast(query);
    let mut root = Fe::one();
    for root_index in 1..=combination_len {
        if root_index != assigned_root {
            expression = expression.mul(Ast::ConstantTerm(root).sub(leaf_ast(query)));
        }
        root = root.add(Fe::one());
    }
    expression
}

fn compressed_selector_value<M: Modulus>(
    query: Fe<M>,
    combination_len: usize,
    assigned_root: usize,
) -> Fe<M> {
    let mut value = query;
    let mut root = Fe::<M>::one();
    for root_index in 1..=combination_len {
        if root_index != assigned_root {
            value = value.mul(root.sub(query));
        }
        root = root.add(Fe::one());
    }
    value
}

fn check_compressed_selector_families<M: Modulus + Debug>() {
    const COMBINATION_LEN: usize = 5;

    let domain = EvaluationDomain::<M>::new(3, 3);
    let scale = scale_of(&domain);
    let query_poly = extended_poly(&domain, |row| (row % 11 + 1) as u64);
    let query_values = rotated(&query_poly, 1, scale);
    let body_values = (0..=COMBINATION_LEN)
        .map(|body_index| extended_poly(&domain, |row| (body_index * 17 + row * 3 + 2) as u64))
        .collect::<Vec<_>>();

    let mut evaluator = new_evaluator(Basis::ExtendedLagrangeCoeff);
    let query = evaluator
        .register_poly(query_poly)
        .with_rotation(Rotation::next());
    let bodies = body_values
        .iter()
        .map(|body| evaluator.register_poly(body.clone()))
        .collect::<Vec<_>>();

    for assigned_root in 1..=COMBINATION_LEN {
        let selector = query_values
            .iter()
            .map(|query| compressed_selector_value(*query, COMBINATION_LEN, assigned_root))
            .collect();
        let selector = evaluator.register_poly(selector);
        evaluator.register_compressed_selector(query, COMBINATION_LEN, assigned_root, selector);
    }

    let mut terms: Vec<Ast<M>> = vec![];
    let mut control_terms: Vec<Ast<M>> = vec![];
    let mut term_inputs = vec![];
    for assigned_root in 1..=COMBINATION_LEN {
        let selector = compressed_selector_expression(query, COMBINATION_LEN, assigned_root);
        let parsed = compressed_selector(&selector, minus_one::<M>())
            .expect("the exact compressed-selector shape should be recognized");
        assert_eq!(parsed.1, COMBINATION_LEN);
        assert_eq!(parsed.2, assigned_root);

        let repetitions = if assigned_root == 2 { 2 } else { 1 };
        for repetition in 0..repetitions {
            let body_index = if repetition == 0 {
                assigned_root - 1
            } else {
                COMBINATION_LEN
            };
            let body = if repetition == 0 {
                leaf_ast(bodies[body_index])
            } else {
                let inner = leaf_ast(bodies[body_index]).add(leaf_ast(bodies[0]));
                inner.clone().mul(inner)
            };
            terms.push(selector.clone().mul(body.clone()));
            control_terms.push(
                selector
                    .clone()
                    .mul(Ast::ConstantTerm(Fe::one()))
                    .mul(body),
            );
            term_inputs.push(Some((assigned_root, body_index, repetition != 0)));
        }
    }

    // An unrelated term after the planned family shows that every challenge power is kept.
    let unrelated = leaf_ast(bodies[0]).add(leaf_ast(bodies[COMBINATION_LEN - 1]));
    terms.push(unrelated.clone());
    control_terms.push(unrelated);
    term_inputs.push(None);

    let families = selector_family_matches(&terms, minus_one());
    assert_eq!(families.len(), 1);
    assert_eq!(families[0].combination_len, COMBINATION_LEN);
    assert_eq!(families[0].runs.len(), COMBINATION_LEN);
    assert_eq!(families[0].runs[1].end - families[0].runs[1].start, 2);
    assert!(selector_family_matches(&control_terms, minus_one()).is_empty());

    let base = fe::<M>(19);
    let planned_ast = Ast::distribute_powers(terms.clone(), base);
    let plan = EvaluationPlan::compile(&planned_ast);
    let work = match plan {
        EvaluationPlan::DistributePowers { work, .. } => work,
        _ => panic!("multiple terms compile to distributed work"),
    };
    assert_eq!(work.len(), 2);
    let runs = work
        .iter()
        .find_map(|work| match work {
            DistributionWork::SelectorFamily {
                query: planned,
                runs,
            } => {
                assert_eq!(*planned, query);
                Some(runs)
            }
            _ => None,
        })
        .expect("the complete selector family is planned");
    assert_eq!(runs.len(), COMBINATION_LEN);
    match &runs[1].bodies {
        FactorBodyPlan::Sequential(bodies) => {
            assert_eq!(bodies.len(), 2);
            assert!(matches!(&bodies[1], EvaluationPlan::Square(_)));
        }
        FactorBodyPlan::Factored(_) => panic!("unrelated bodies remain sequential"),
    }
    assert_eq!(runs[4].power, base);

    for base in [Fe::zero(), Fe::one(), fe(19)] {
        let actual = evaluator.evaluate(&Ast::distribute_powers(terms.clone(), base), &domain);
        let control = evaluator.evaluate(
            &Ast::distribute_powers(control_terms.clone(), base),
            &domain,
        );
        assert_eq!(actual, control);

        for row in 0..actual.len() {
            let expected = term_inputs.iter().fold(Fe::<M>::zero(), |accumulator, input| {
                let term = match input {
                    Some((assigned_root, body_index, squared)) => {
                        let mut body = body_values[*body_index][row];
                        if *squared {
                            body = body.add(body_values[0][row]).square();
                        }
                        compressed_selector_value(
                            query_values[row],
                            COMBINATION_LEN,
                            *assigned_root,
                        )
                        .mul(body)
                    }
                    None => body_values[0][row].add(body_values[COMBINATION_LEN - 1][row]),
                };
                accumulator.mul(base).add(term)
            });
            assert_eq!(actual[row], expected);
        }
    }

    let nested_base = fe(19);
    let outer_base = fe(23);
    let factor = leaf_ast(bodies[0]).add(Ast::ConstantTerm(fe(3)));
    let nested = Ast::distribute_powers(terms.clone(), nested_base);
    let nested_control = Ast::distribute_powers(control_terms.clone(), nested_base);
    let candidate = Ast::distribute_powers(
        vec![
            factor.clone().mul(nested),
            factor.clone().mul(leaf_ast(bodies[1])),
        ],
        outer_base,
    );
    let control = Ast::distribute_powers(
        vec![
            factor.clone().mul(nested_control),
            factor.mul(leaf_ast(bodies[1])),
        ],
        outer_base,
    );

    let nested_plan = EvaluationPlan::compile(&candidate);
    let shared_bodies = match &nested_plan {
        EvaluationPlan::DistributePowers { work, .. } => work
            .iter()
            .find_map(|work| match work {
                DistributionWork::SharedFactor { bodies, .. } => Some(bodies),
                _ => None,
            })
            .expect("the outer shared factor is planned"),
        _ => panic!("the outer terms compile to distributed work"),
    };
    let shared_bodies = match shared_bodies {
        FactorBodyPlan::Sequential(bodies) => bodies,
        FactorBodyPlan::Factored(_) => panic!("unrelated bodies remain sequential"),
    };
    let nested_work = match &shared_bodies[0] {
        EvaluationPlan::DistributePowers { work, .. } => work,
        _ => panic!("the first shared-factor body is distributed work"),
    };
    assert!(nested_work
        .iter()
        .any(|work| matches!(work, DistributionWork::SelectorFamily { .. })));
    // Five selector runs need eight slots, and the outer shared-factor
    // evaluation adds two more.
    assert_eq!(nested_plan.required_scratch_slots(), COMBINATION_LEN + 5);

    let actual = evaluator.evaluate(&candidate, &domain);
    let generic = evaluator.evaluate(&control, &domain);
    assert_eq!(actual, generic);

    let incomplete = terms[..terms.len() - 2].to_vec();
    assert!(selector_family_matches(&incomplete, minus_one()).is_empty());

    let right_hand = (1..=COMBINATION_LEN)
        .map(|assigned_root| {
            leaf_ast::<M>(bodies[assigned_root - 1]).mul(compressed_selector_expression(
                query,
                COMBINATION_LEN,
                assigned_root,
            ))
        })
        .collect::<Vec<_>>();
    let right_hand_control = (1..=COMBINATION_LEN)
        .map(|assigned_root| {
            leaf_ast::<M>(bodies[assigned_root - 1]).mul(
                compressed_selector_expression(query, COMBINATION_LEN, assigned_root)
                    .mul(Ast::ConstantTerm(Fe::one())),
            )
        })
        .collect::<Vec<_>>();
    let right_hand_families = selector_family_matches(&right_hand, minus_one());
    assert_eq!(right_hand_families.len(), 1);
    assert!(right_hand_families[0]
        .runs
        .iter()
        .all(|run| matches!(run.side, FactorSide::Right)));

    // The reversed roots, with the unrelated term before the family.
    let reversed = terms.iter().cloned().rev().collect::<Vec<_>>();
    let reversed_control = control_terms.iter().cloned().rev().collect::<Vec<_>>();
    assert_eq!(selector_family_matches(&reversed, minus_one()).len(), 1);
    for (candidate, control) in [
        (right_hand, right_hand_control),
        (reversed, reversed_control),
    ] {
        for base in [Fe::zero(), Fe::one(), fe(19)] {
            let candidate =
                evaluator.evaluate(&Ast::distribute_powers(candidate.clone(), base), &domain);
            let control =
                evaluator.evaluate(&Ast::distribute_powers(control.clone(), base), &domain);
            assert_eq!(candidate, control);
        }
    }

    let overlapping = (1..=COMBINATION_LEN)
        .map(|assigned_root| {
            compressed_selector_expression::<M>(query, COMBINATION_LEN, assigned_root).mul(
                compressed_selector_expression(bodies[0], COMBINATION_LEN, assigned_root),
            )
        })
        .collect::<Vec<_>>();
    // Both factors form complete families, but each term can be claimed only once.
    let overlapping_families = selector_family_matches(&overlapping, minus_one());
    assert_eq!(overlapping_families.len(), 1);
    assert_eq!(overlapping_families[0].query, query);

    let mut repeated_run = terms.clone();
    repeated_run.push(
        compressed_selector_expression(query, COMBINATION_LEN, 1).mul(leaf_ast(bodies[0])),
    );
    assert!(selector_family_matches(&repeated_run, minus_one()).is_empty());

    let non_selector =
        leaf_ast::<M>(query).mul(Ast::ConstantTerm(Fe::one()).add(leaf_ast(query)));
    assert!(compressed_selector(&non_selector, minus_one()).is_none());
}

fn check_orchard_selector_family_lengths<M: Modulus + Debug>() {
    let domain = EvaluationDomain::<M>::new(3, 3);
    let query_poly = extended_poly(&domain, |row| (row % 11 + 1) as u64);
    let body_poly = extended_poly(&domain, |row| (row * 7 + 3) as u64);
    let mut evaluator = new_evaluator(Basis::ExtendedLagrangeCoeff);
    let query = evaluator.register_poly(query_poly);
    let body = evaluator.register_poly(body_poly);

    // Orchard has compressed-selector families of lengths 4, 5, 6 and 7.
    for combination_len in 4..=7 {
        let terms = (1..=combination_len)
            .map(|assigned_root| {
                compressed_selector_expression::<M>(query, combination_len, assigned_root)
                    .mul(leaf_ast(body))
            })
            .collect::<Vec<_>>();
        let control_terms = (1..=combination_len)
            .map(|assigned_root| {
                compressed_selector_expression::<M>(query, combination_len, assigned_root)
                    .mul(Ast::ConstantTerm(Fe::one()))
                    .mul(leaf_ast(body))
            })
            .collect::<Vec<_>>();

        let families = selector_family_matches(&terms, minus_one());
        assert_eq!(families.len(), 1);
        assert_eq!(families[0].combination_len, combination_len);
        assert!(selector_family_matches(&control_terms, minus_one()).is_empty());

        for base in [Fe::zero(), Fe::one(), fe(19)] {
            let candidate =
                evaluator.evaluate(&Ast::distribute_powers(terms.clone(), base), &domain);
            let control = evaluator.evaluate(
                &Ast::distribute_powers(control_terms.clone(), base),
                &domain,
            );
            assert_eq!(candidate, control);
        }
    }
}

#[test]
fn compressed_selector_families_match_generic_evaluation() {
    check_compressed_selector_families::<PallasBase>();
    check_compressed_selector_families::<VestaBase>();
    check_orchard_selector_family_lengths::<PallasBase>();
    check_orchard_selector_family_lengths::<VestaBase>();
}

#[test]
fn the_number_of_threads_does_not_show() {
    let domain = EvaluationDomain::<VestaBase>::new(3, 4);
    let mut evaluator = new_evaluator(Basis::ExtendedLagrangeCoeff);
    let a = evaluator.register_poly(extended_poly(&domain, |row| (3 * row + 1) as u64));
    let b = evaluator.register_poly(extended_poly(&domain, |row| (row * row + 5) as u64));
    let ast = leaf_ast(a)
        .mul(leaf_ast(b.with_rotation(Rotation::next())))
        .add(Ast::LinearTerm(fe(9)));
    let expected = evaluator.evaluate(&ast, &domain);
    for threads in [1, 2, 3, 5, 7, 64] {
        assert_eq!(evaluator.evaluate_with_threads(&ast, &domain, threads), expected);
    }
}

#[test]
fn rotated_chunks_split_at_the_end_of_the_buffer() {
    let values: Vec<Fe<PallasBase>> = (10..15).map(fe).collect();
    let slices = |negative, abs, start, len| {
        let (first, second) = RotatedChunk::new(&values, negative, abs, start, len).into_slices();
        (first.to_vec(), second.to_vec())
    };
    let row = |list: &[u64]| list.iter().map(|v| fe(*v)).collect::<Vec<Fe<PallasBase>>>();
    assert_eq!(slices(false, 3, 0, 3), (row(&[13, 14]), row(&[10])));
    assert_eq!(slices(true, 1, 0, 2), (row(&[14]), row(&[10])));
    assert_eq!(slices(true, 1, 3, 2), (row(&[12, 13]), row(&[])));
    assert_eq!(slices(false, 0, 0, 5), (row(&[10, 11, 12, 13, 14]), row(&[])));
    assert_eq!(slices(false, 5, 1, 2), (row(&[11, 12]), row(&[])));
}

/// The stores and loads of cache slots in a plan, in order.
fn cache_uses<M: Modulus>(plan: &EvaluationPlan<M>, uses: &mut Vec<(bool, usize)>) {
    match plan {
        EvaluationPlan::CacheStore { slot, inner } => {
            cache_uses(inner, uses);
            uses.push((true, *slot));
        }
        EvaluationPlan::CacheLoad { slot } => uses.push((false, *slot)),
        EvaluationPlan::Add(a, b) | EvaluationPlan::Mul(a, b) => {
            cache_uses(a, uses);
            cache_uses(b, uses);
        }
        EvaluationPlan::Square(a) | EvaluationPlan::Scale(a, _) => cache_uses(a, uses),
        EvaluationPlan::DistributePowers { work, .. } => {
            for item in work {
                if let DistributionWork::Term { term, .. } = item {
                    cache_uses(term, uses);
                }
            }
        }
        _ => {}
    }
}

#[test]
fn a_repeated_part_is_stored_once_and_loaded_after() {
    let mut evaluator = new_evaluator::<PallasBase>(Basis::LagrangeCoeff);
    let leaves: Vec<AstLeaf> = (0..3)
        .map(|poly| evaluator.register_poly((0..8).map(|row| fe(poly * 8 + row)).collect()))
        .collect();
    let repeated = leaf_ast(leaves[0]).mul(leaf_ast(leaves[1]));
    let terms: Vec<Ast<PallasBase>> = (1..4)
        .map(|constant| repeated.clone().add(Ast::ConstantTerm(fe(constant))))
        .collect();
    let mut plan = EvaluationPlan::compile(&Ast::distribute_powers(terms, fe(7)));
    let mut uses = Vec::new();
    cache_uses(&plan, &mut uses);
    assert!(uses.is_empty());
    assert_eq!(plan.cache_common_subexpressions(), 1);
    cache_uses(&plan, &mut uses);
    assert_eq!(uses, vec![(true, 0), (false, 0), (false, 0)]);
    // Nothing repeats in the result.
    assert_eq!(plan.cache_common_subexpressions(), 0);

    let mut single = EvaluationPlan::compile(&repeated.add(leaf_ast(leaves[2])));
    assert_eq!(single.cache_common_subexpressions(), 0);
    let mut uses = Vec::new();
    cache_uses(&single, &mut uses);
    assert!(uses.is_empty());
}

#[test]
fn one_term_compiles_to_itself() {
    let mut evaluator = new_evaluator::<PallasBase>(Basis::LagrangeCoeff);
    let leaf = evaluator.register_poly((0..8).map(fe).collect());
    let term: Ast<PallasBase> = leaf_ast(leaf);
    let plan = EvaluationPlan::compile(&Ast::distribute_powers(vec![term], fe(3)));
    assert!(matches!(plan, EvaluationPlan::Poly(_)));
}

#[test]
fn evaluations_are_pointwise() {
    let domain = EvaluationDomain::<PallasBase>::new(4, 3);
    for basis in [Basis::Coeff, Basis::LagrangeCoeff, Basis::ExtendedLagrangeCoeff] {
        let len = domain.len(basis);
        let mut evaluator = new_evaluator(basis);
        let leaves: Vec<AstLeaf> = (0..3u64)
            .map(|poly| {
                evaluator.register_poly((0..len as u64).map(|row| fe(poly * 100 + row + 1)).collect())
            })
            .collect();
        let e = |ast: &Ast<PallasBase>| evaluator.evaluate(ast, &domain);
        let a = leaf_ast(leaves[0]).scale(fe(5)).add(leaf_ast(leaves[1]));
        let b = leaf_ast(leaves[2]).sub(leaf_ast(leaves[0]));
        let (ra, rb) = (e(&a), e(&b));
        let sum = e(&a.clone().add(b.clone()));
        let difference = e(&a.clone().sub(b.clone()));
        let multiple = e(&a.clone().scale(fe(9)));
        for i in 0..len {
            assert_eq!(sum[i], ra[i].add(rb[i]));
            assert_eq!(difference[i], ra[i].sub(rb[i]));
            assert_eq!(multiple[i], ra[i].mul(fe(9)));
        }
        if basis != Basis::Coeff {
            let product = e(&a.clone().mul(b.clone()));
            for i in 0..len {
                assert_eq!(product[i], ra[i].mul(rb[i]));
            }
        }
        for y in [0u64, 1, 7] {
            let terms = vec![a.clone(), b.clone(), a.clone()];
            let powers = e(&Ast::distribute_powers(terms, fe(y)));
            let single = e(&Ast::distribute_powers(vec![b.clone()], fe(y)));
            let none = e(&Ast::distribute_powers(vec![], fe(y)));
            for i in 0..len {
                let expected = ra[i].mul(fe(y * y)).add(rb[i].mul(fe(y))).add(ra[i]);
                assert_eq!(powers[i], expected);
                assert_eq!(single[i], rb[i]);
                assert_eq!(none[i], Fe::zero());
            }
        }
    }
}
