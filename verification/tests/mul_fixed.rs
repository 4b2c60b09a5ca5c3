//! Fixed-base scalar multiplication.
use zakura_arith::curve::affine::Affine;
use zakura_arith::curve::batch::batch_normalize;
use zakura_arith::curve::point::Point;
use zakura_arith::curve::Pallas;
use zakura_arith::field::{Fe, Fp, Fq};
use zakura_arith::mul_fixed::config::{
    AddConfig, AddIncompleteConfig, Assignment, Config, SynthesisError,
};
use zakura_arith::mul_fixed::expression::{
    Advice, ConstraintSystem, Expression, Fixed, Query, Selector,
};
use zakura_arith::mul_fixed::scalar::{
    EccBaseFieldElemFixed, EccScalarFixed, EccScalarFixedShort, ScalarFixed,
};
use zakura_arith::mul_fixed::windows::{compute_window_points, select_window_point, H};
use zakura_arith::mul_fixed::witness::{
    evaluate_lagrange_polynomial, reconstruct_window_witnesses, WindowWitness,
};

const NUM_WINDOWS: usize = 85;
const NUM_WINDOWS_SHORT: usize = 22;
/// Offset applied to non-MSB windows to avoid identity points.
const WINDOW_OFFSET: usize = 2;

fn base() -> Affine<Pallas> {
    Affine::from_xy(Fe::one().neg(), Fe::from_u64(2))
}

fn scalar_mul_window_points(base: Affine<Pallas>, windows: &[usize]) -> Vec<Affine<Pallas>> {
    let h: Fq = Fe::from_u64(H as u64);
    let base = Point::from_affine(base);
    let last = windows.len() - 1;
    let mut points: Vec<Point<Pallas>> = (0..last)
        .map(|w| {
            let scalar = Fq::from_u64((windows[w] + WINDOW_OFFSET) as u64)
                .mul(h.pow_vartime(w as u64));
            base.mul_glv(scalar)
        })
        .collect();
    let offset = (0..last).fold(Fq::zero(), |acc, w| {
        acc.add(Fq::from_u64(WINDOW_OFFSET as u64).pow_vartime(3 * w as u64 + 1))
    });
    let scalar = Fq::from_u64(windows[last] as u64)
        .mul(h.pow_vartime(last as u64))
        .sub(offset);
    points.push(base.mul_glv(scalar));
    batch_normalize(&points)
}

fn same(a: &[Affine<Pallas>], b: &[Affine<Pallas>]) -> bool {
    a.len() == b.len() && a.iter().zip(b).all(|(a, b)| a.x.same(b.x) && a.y.same(b.y))
}

#[test]
fn window_points_match_curve_multiplication() {
    for num_windows in [NUM_WINDOWS_SHORT, NUM_WINDOWS] {
        let mut cases = (0..H)
            .map(|digit| vec![digit; num_windows])
            .collect::<Vec<_>>();
        cases.push((0..num_windows).map(|w| w % H).collect());
        for windows in cases {
            assert!(same(
                &compute_window_points(base(), &windows),
                &scalar_mul_window_points(base(), &windows),
            ));
        }
    }
}

#[test]
fn window_points_add_up_to_the_multiple() {
    let windows = vec![5, 0, 7, 3, 6];
    let value = windows.iter().rev().fold(0u64, |acc, w| 8 * acc + *w as u64);
    let mut sum = Point::identity();
    for point in compute_window_points(base(), &windows) {
        sum = sum.add_affine(point);
    }
    let expected = Point::from_affine(base()).mul_glv(Fe::from_u64(value));
    assert!(same(
        &batch_normalize(&vec![sum]),
        &batch_normalize(&vec![expected])
    ));
}

#[test]
fn windows_select_their_candidate() {
    let start = Point::from_affine(base());
    let step = start.double().double();
    for window in 0..H {
        let mut expected = start;
        for _ in 0..window {
            expected = expected.add(step);
        }
        assert!(same(
            &batch_normalize(&vec![select_window_point(start, step, window)]),
            &batch_normalize(&vec![expected])
        ));
    }
}

#[test]
fn interpolation_polynomials_are_evaluated() {
    let coefficients: [Fp; 8] = std::array::from_fn(|i| Fe::from_u64(i as u64 + 1));
    assert_eq!(evaluate_lagrange_polynomial(&coefficients, 0), Fe::from_u64(1));
    assert_eq!(evaluate_lagrange_polynomial(&coefficients, 1), Fe::from_u64(36));
    // 1 + 2*2 + 3*4 + 4*8 + 5*16 + 6*32 + 7*64 + 8*128
    assert_eq!(evaluate_lagrange_polynomial(&coefficients, 2), Fe::from_u64(1793));
}

fn interpolate(values: &[Fp]) -> [Fp; 8] {
    let mut total = [Fp::zero(); 8];
    for (i, value) in values.iter().enumerate() {
        let mut basis = vec![Fp::one()];
        let mut denominator = Fp::one();
        for j in 0..8u64 {
            if j == i as u64 {
                continue;
            }
            let mut next = vec![Fp::zero(); basis.len() + 1];
            for (k, c) in basis.iter().enumerate() {
                next[k + 1] = next[k + 1].add(*c);
                next[k] = next[k].sub(c.mul(Fe::from_u64(j)));
            }
            basis = next;
            denominator = denominator.mul(Fp::from_u64(i as u64).sub(Fe::from_u64(j)));
        }
        let scale = value.mul(denominator.invert().unwrap());
        for (t, c) in total.iter_mut().zip(&basis) {
            *t = t.add(c.mul(scale));
        }
    }
    total
}

#[test]
fn reconstructed_window_witnesses_match_curve_points() {
    // The first coordinates of the windows of a base are interpolated.
    let num_windows = 4;
    let columns: Vec<Vec<Affine<Pallas>>> = (0..H)
        .map(|digit| compute_window_points(base(), &vec![digit; num_windows]))
        .collect();
    let lagrange_coeffs: Vec<[Fp; 8]> = (0..num_windows)
        .map(|w| interpolate(&columns.iter().map(|c| c[w].x).collect::<Vec<_>>()))
        .collect();
    let us: Vec<[[u8; 32]; 8]> = (0..num_windows)
        .map(|w| std::array::from_fn(|k| Fp::from_u64(100 * w as u64 + k as u64 + 20).to_repr()))
        .collect();
    let zs: Vec<u64> = vec![3, 1, 4, 1];
    for windows in [vec![0; 4], vec![7; 4], vec![1, 6, 3, 5]] {
        let points = compute_window_points(base(), &windows);
        let witnesses = reconstruct_window_witnesses(&lagrange_coeffs, &us, &zs, &windows);
        for w in 0..num_windows {
            let u = Fp::from_u64(100 * w as u64 + windows[w] as u64 + 20);
            assert_eq!(witnesses[w].x, points[w].x);
            assert_eq!(witnesses[w].u, u);
            assert_eq!(witnesses[w].y, u.square().sub(Fe::from_u64(zs[w])));
        }
    }
}

fn columns() -> (AddConfig, AddIncompleteConfig) {
    let (x_p, y_p, x_qr, y_qr) = (Advice(0), Advice(1), Advice(2), Advice(3));
    (
        AddConfig { x_p, y_p, x_qr, y_qr },
        AddIncompleteConfig { x_p, y_p, x_qr, y_qr },
    )
}

fn configured() -> (ConstraintSystem, Config) {
    let mut meta = ConstraintSystem {
        selectors: 5,
        fixed_columns: 8,
        equality: vec![Advice(4)],
        gates: vec![],
    };
    let (add, add_incomplete) = columns();
    let lagrange_coeffs: [Fixed; 8] = std::array::from_fn(Fixed);
    let config = Config::configure(
        &mut meta,
        lagrange_coeffs,
        Advice(4),
        Advice(5),
        add,
        add_incomplete,
    );
    (meta, config)
}

#[test]
fn configuration_adds_two_gates() {
    let (meta, config) = configured();
    assert_eq!(meta.selectors, 6);
    assert_eq!(meta.fixed_columns, 9);
    assert_eq!(meta.equality, vec![Advice(4), Advice(5)]);
    assert_eq!(meta.gates.len(), 2);
    assert_eq!(meta.gates[0].selector, Selector(5));
    assert_eq!(meta.gates[0].constraints.len(), 1);
    assert_eq!(meta.gates[1].selector, Selector(5));
    assert_eq!(meta.gates[1].constraints.len(), 3);
    assert_eq!(config.running_sum_config.q_range_check, Selector(5));
    assert_eq!(config.running_sum_config.z, Advice(4));
    assert_eq!(config.fixed_z, Fixed(8));
}

#[test]
fn windows_are_written_to_their_rows() {
    let (_, config) = configured();
    let witness = WindowWitness {
        x: Fe::from_u64(11),
        y: Fe::from_u64(12),
        u: Fe::from_u64(13),
    };
    let (writes, point) = config.process_window(7, 2, Some(witness));
    assert_eq!(writes.len(), 3);
    assert!(matches!(writes[0], Assignment::Advice(Advice(0), 9, Some(x)) if x == witness.x));
    assert!(matches!(writes[1], Assignment::Advice(Advice(1), 9, Some(y)) if y == witness.y));
    assert!(matches!(writes[2], Assignment::Advice(Advice(5), 9, Some(u)) if u == witness.u));
    assert_eq!(point.row, 9);
    assert_eq!(point.value, Some((witness.x, witness.y)));
    let (writes, point) = config.process_window(7, 2, None);
    assert!(matches!(writes[2], Assignment::Advice(Advice(5), 9, None)));
    assert_eq!(point.value, None);
}

#[test]
fn constants_are_written_for_every_window() {
    let (_, config) = configured();
    let coeffs: Vec<[Fp; 8]> = (0..2u64)
        .map(|w| std::array::from_fn(|k| Fe::from_u64(10 * w + k as u64)))
        .collect();
    let writes = config.assign_fixed_constants(4, &coeffs, &vec![21, 22], Selector(3));
    assert_eq!(writes.len(), 20);
    assert!(matches!(writes[0], Assignment::Enable(Selector(3), 4)));
    assert!(matches!(writes[3], Assignment::Fixed(Fixed(2), 4, v) if v == Fe::from_u64(2)));
    assert!(matches!(writes[10], Assignment::Enable(Selector(3), 5)));
    assert!(matches!(writes[18], Assignment::Fixed(Fixed(7), 5, v) if v == Fe::from_u64(17)));
    assert!(matches!(writes[19], Assignment::Fixed(Fixed(8), 5, v) if v == Fe::from_u64(22)));
}

fn witness_of(point: Affine<Pallas>) -> Option<WindowWitness> {
    Some(WindowWitness {
        x: point.x,
        y: point.y,
        u: Fe::one(),
    })
}

#[test]
fn windows_are_added_up() {
    let (_, config) = configured();
    let points = compute_window_points(base(), &vec![1, 2, 3, 4]);
    let witnesses: Vec<_> = points.iter().map(|p| witness_of(*p)).collect();
    let (_, first) = config.process_window(10, 0, witnesses[0]);
    let (writes, acc) = config.add_incomplete(10, first, &witnesses).unwrap();
    // The windows between the first and the last, with their additions.
    assert_eq!(writes.len(), 8);
    assert!(matches!(writes[3], Assignment::AddIncomplete(_, _, 11)));
    assert!(matches!(writes[7], Assignment::AddIncomplete(_, _, 12)));
    assert_eq!((acc.x, acc.y, acc.row), (Advice(2), Advice(3), 13));
    let sum = Point::from_affine(points[0])
        .add_affine(points[1])
        .add_affine(points[2]);
    let sum = batch_normalize(&vec![sum])[0];
    assert_eq!(acc.value, Some((sum.x, sum.y)));
}

#[test]
fn undefined_additions_are_errors() {
    let (_, config) = configured();
    let point = base();
    let witnesses = vec![witness_of(point), witness_of(point), witness_of(point)];
    let (_, first) = config.process_window(0, 0, witnesses[0]);
    assert!(matches!(
        config.add_incomplete(0, first, &witnesses),
        Err(SynthesisError)
    ));
    let unknown = vec![None, None, None];
    let (_, first) = config.process_window(0, 0, None);
    let (_, acc) = config.add_incomplete(0, first, &unknown).unwrap();
    assert_eq!(acc.value, None);
}

#[test]
fn regions_multiply_the_base() {
    let (_, config) = configured();
    let num_windows = 3;
    let columns: Vec<Vec<Affine<Pallas>>> = (0..H)
        .map(|digit| compute_window_points(base(), &vec![digit; num_windows]))
        .collect();
    let lagrange_coeffs: Vec<[Fp; 8]> = (0..num_windows)
        .map(|w| interpolate(&columns.iter().map(|c| c[w].x).collect::<Vec<_>>()))
        .collect();
    let us: Vec<[[u8; 32]; 8]> = (0..num_windows)
        .map(|w| std::array::from_fn(|k| Fp::from_u64(31 * w as u64 + k as u64 + 20).to_repr()))
        .collect();
    let zs = vec![1, 2, 3];
    let windows = [3u64, 6, 1];
    let known = ScalarFixed::from(EccScalarFixed {
        windows: Some(windows.iter().map(|w| Some(Fe::from_u64(*w))).collect()),
    });
    let plan = config
        .assign_region_inner(20, &known, &lagrange_coeffs, &us, &zs, Selector(1))
        .unwrap();
    let expected = compute_window_points(base(), &vec![3, 6, 1]);
    for w in 0..num_windows {
        assert_eq!(plan.witnesses[w].unwrap().x, expected[w].x);
    }
    assert_eq!(plan.constants.len(), 30);
    assert_eq!(plan.first.len(), 3);
    assert_eq!(plan.additions.len(), 4);
    assert_eq!(plan.last.len(), 3);
    assert_eq!(plan.acc.row, 22);
    assert_eq!(plan.mul_b.row, 22);
    assert_eq!(plan.mul_b.value.unwrap().0, expected[2].x);

    // One unknown window leaves all of them unknown.
    let unknown = ScalarFixed::from(EccScalarFixed {
        windows: Some(vec![Some(Fe::one()), None, Some(Fe::one())]),
    });
    let plan = config
        .assign_region_inner(20, &unknown, &lagrange_coeffs, &us, &zs, Selector(1))
        .unwrap();
    assert!(plan.witnesses.iter().all(|w| w.is_none()));
    assert_eq!(plan.acc.value, None);
}

#[test]
fn running_sums_give_windows() {
    // 5 + 8 * 3 + 64 * 6, from the lowest window.
    let sums: Vec<Option<Fp>> = [413u64, 51, 6, 0].iter().map(|v| Some(Fe::from_u64(*v))).collect();
    let scalar = ScalarFixed::from(EccBaseFieldElemFixed {
        running_sum: sums.clone(),
    });
    assert_eq!(scalar.windows_usize(), vec![Some(5), Some(3), Some(6)]);
    assert_eq!(
        scalar.windows_field(),
        vec![Some(Fq::from_u64(5)), Some(Fq::from_u64(3)), Some(Fq::from_u64(6))]
    );
    let mut partial = sums;
    partial[2] = None;
    let short = ScalarFixed::from(EccScalarFixedShort {
        running_sum: Some(partial),
    });
    assert_eq!(short.windows_usize(), vec![Some(5), None, None]);
}

/// The value of an expression where the only cells are two rows of one column.
fn value_of(expression: &Expression, cur: Fp, next: Fp) -> Fp {
    match expression {
        Expression::Constant(c) => *c,
        Expression::Cell(Query::Advice(Advice(4), 0)) => cur,
        Expression::Cell(Query::Advice(Advice(4), 1)) => next,
        Expression::Cell(_) => panic!("the range check reads one column"),
        Expression::Negated(a) => value_of(a, cur, next).neg(),
        Expression::Sum(a, b) => value_of(a, cur, next).add(value_of(b, cur, next)),
        Expression::Product(a, b) => value_of(a, cur, next).mul(value_of(b, cur, next)),
    }
}

#[test]
fn range_check_vanishes_on_three_bit_windows() {
    let (meta, _) = configured();
    let check = &meta.gates[0].constraints[0];
    let next: Fp = Fe::from_u64(1234);
    let shifted = next.mul(Fe::from_u64(8));
    for window in 0..8 {
        let cur = shifted.add(Fe::from_u64(window));
        assert_eq!(value_of(check, cur, next), Fe::zero());
    }
    for window in [Fe::from_u64(8), Fe::from_u64(9), Fe::one().neg()] {
        assert_ne!(value_of(check, shifted.add(window), next), Fe::zero());
    }
    // 8 (1 - 8) (2 - 8) ... (7 - 8)
    let eight = value_of(check, shifted.add(Fe::from_u64(8)), next);
    assert_eq!(eight, Fe::from_u64(8 * 5040).neg());
}

/// A square root, by the two-adic structure of the field.
fn square_root(value: Fp) -> Option<Fp> {
    // Half of one less than the odd part of the order of the units.
    let exponent: [u64; 4] = [0x4a67c8dcc969876, 0x11234c7e, 0x0, 0x20000000];
    let mut power = Fp::one();
    for i in (0..256).rev() {
        power = power.square();
        if (exponent[i / 64] >> (i % 64)) & 1 == 1 {
            power = power.mul(value);
        }
    }
    let mut root = power.mul(value);
    let mut rest = root.mul(power);
    let mut step = Fp::root_of_unity();
    let mut order = 32;
    while rest != Fe::one() {
        let mut squarings = 0;
        let mut square = rest;
        while square != Fe::one() {
            square = square.square();
            squarings += 1;
        }
        if squarings >= order {
            return None;
        }
        for _ in 0..order - squarings - 1 {
            step = step.square();
        }
        root = root.mul(step);
        step = step.square();
        rest = rest.mul(step);
        order = squarings;
    }
    assert_eq!(root.square(), value);
    Some(root)
}

#[test]
fn witnesses_from_the_tables_of_a_base_are_its_window_points() {
    let num_windows = 3;
    let columns: Vec<Vec<Affine<Pallas>>> = (0..H)
        .map(|digit| compute_window_points(base(), &vec![digit; num_windows]))
        .collect();
    let lagrange_coeffs: Vec<[Fp; 8]> = (0..num_windows)
        .map(|w| interpolate(&columns.iter().map(|c| c[w].x).collect::<Vec<_>>()))
        .collect();
    let mut zs = Vec::new();
    let mut us = Vec::new();
    for w in 0..num_windows {
        // The least shift with which all second coordinates of the window are squares.
        let (z, roots) = (1..10_000u64)
            .find_map(|z| {
                let roots: Option<Vec<Fp>> = columns
                    .iter()
                    .map(|c| square_root(c[w].y.add(Fe::from_u64(z))))
                    .collect();
                roots.map(|roots| (z, roots))
            })
            .unwrap();
        zs.push(z);
        us.push(std::array::from_fn(|k| roots[k].to_repr()));
    }
    for windows in [vec![0; 3], vec![7; 3], vec![1, 6, 3], vec![5, 2, 0]] {
        let points = compute_window_points(base(), &windows);
        let witnesses = reconstruct_window_witnesses(&lagrange_coeffs, &us, &zs, &windows);
        assert_eq!(witnesses.len(), num_windows);
        for w in 0..num_windows {
            assert_eq!(witnesses[w].x, points[w].x);
            assert_eq!(witnesses[w].y, points[w].y);
            assert_eq!(witnesses[w].u.to_repr(), us[w][windows[w]]);
            assert_eq!(
                witnesses[w].u.square(),
                witnesses[w].y.add(Fe::from_u64(zs[w]))
            );
        }
    }
}

#[test]
fn regions_hold_the_stored_roots_and_the_running_sums() {
    let (_, config) = configured();
    let num_windows = 5;
    let columns: Vec<Vec<Affine<Pallas>>> = (0..H)
        .map(|digit| compute_window_points(base(), &vec![digit; num_windows]))
        .collect();
    let lagrange_coeffs: Vec<[Fp; 8]> = (0..num_windows)
        .map(|w| interpolate(&columns.iter().map(|c| c[w].x).collect::<Vec<_>>()))
        .collect();
    let us: Vec<[[u8; 32]; 8]> = (0..num_windows)
        .map(|w| std::array::from_fn(|k| Fp::from_u64(31 * w as u64 + k as u64 + 20).to_repr()))
        .collect();
    let zs = vec![1, 2, 3, 4, 5];
    let windows = [3usize, 6, 1, 0, 7];
    let scalar = ScalarFixed::from(EccScalarFixed {
        windows: Some(windows.iter().map(|w| Some(Fe::from_u64(*w as u64))).collect()),
    });
    let plan = config
        .assign_region_inner(20, &scalar, &lagrange_coeffs, &us, &zs, Selector(1))
        .unwrap();
    let expected = reconstruct_window_witnesses(&lagrange_coeffs, &us, &zs, &windows.to_vec());
    for w in 0..num_windows {
        let witness = plan.witnesses[w].unwrap();
        assert_eq!(witness.u.to_repr(), us[w][windows[w]]);
        assert_eq!(witness.u, expected[w].u);
        assert_eq!(witness.x, expected[w].x);
        assert_eq!(witness.y, expected[w].y);
        assert_eq!(witness.u.square(), witness.y.add(Fe::from_u64(zs[w])));
    }
    assert!(matches!(plan.first[2], Assignment::Advice(Advice(5), 20, Some(u)) if u == expected[0].u));
    assert!(matches!(plan.last[2], Assignment::Advice(Advice(5), 24, Some(u)) if u == expected[4].u));

    // Every addition gets the sum so far.
    assert_eq!(plan.additions.len(), 12);
    let mut sum = (expected[0].x, expected[0].y);
    for w in 1..num_windows - 1 {
        let writes = &plan.additions[4 * (w - 1)..4 * w];
        assert!(matches!(
            writes[2],
            Assignment::Advice(Advice(5), row, Some(u)) if row == 20 + w && u == expected[w].u
        ));
        let (point, acc) = match &writes[3] {
            Assignment::AddIncomplete(point, acc, row) => {
                assert_eq!(*row, 20 + w);
                (point.value.unwrap(), acc.value.unwrap())
            }
            _ => panic!("a window ends with its addition"),
        };
        assert_eq!(point, (expected[w].x, expected[w].y));
        assert_eq!(acc, sum);
        // The chord through the two points.
        let slope = acc.1.sub(point.1).mul(acc.0.sub(point.0).invert().unwrap());
        let x = slope.square().sub(acc.0).sub(point.0);
        sum = (x, slope.mul(acc.0.sub(x)).sub(acc.1));
    }
    assert_eq!(plan.acc.value, Some(sum));
}
