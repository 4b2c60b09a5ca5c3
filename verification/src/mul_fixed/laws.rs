//! What the chip is for: its constraints hold exactly of honest rows, and its regions multiply the
//! base.
use crate::curve::law::{
    ec_add, lemma_associative, lemma_closed, lemma_smul_add, lemma_smul_closed, lemma_smul_small,
    on_curve, plus, smul, Pt,
};
use crate::curve::Pallas;
use crate::field::congruence::{
    congruent, lemma_congruent_difference, lemma_congruent_mod, lemma_congruent_ops,
};
use crate::field::repr::bytes_value;
use crate::field::{Fp, Modulus, PallasBase};
use crate::mul_fixed::config::{
    accumulated, all_known, are_additions, are_constants, are_coords_checks,
    are_region_witnesses, are_tables, are_tables_of, coefficient_cells, is_addition, is_nonzero,
    is_range_check, is_table_entry, lemma_range_product, region_points, running_word,
    running_word_of, table_factor, table_point, window_cells, window_constants, window_writes,
    witness_point, AddConfig, AddIncompleteConfig, Assignment, Config, PointCells,
    RunningSumConfig,
};
use crate::mul_fixed::expression::{Advice, Expression, Gate, Query, Selector};
use crate::mul_fixed::scalar::{low_bits, running_windows, ScalarFixed};
use crate::mul_fixed::windows::{
    advanced, factor_sum, lemma_factors_add_up, offset_sum, window_factor, windows_value, H,
};
use crate::mul_fixed::witness::{is_window_witness, polynomial, residues, WindowWitness};
use vstd::arithmetic::power::{lemma_pow0, lemma_pow1, lemma_pow_adds, pow};
use vstd::arithmetic::power2::{lemma2_to64, lemma_pow2_adds, pow2};
use vstd::prelude::*;

verus! {

/// The value of a polynomial with eight coefficients, written out.
proof fn lemma_polynomial_terms(c: Seq<int>, k: int)
    ensures
        polynomial(c, k, 8) == c[0] + pow(k, 1) * c[1] + pow(k, 2) * c[2] + pow(k, 3) * c[3] + pow(
            k,
            4,
        ) * c[4] + pow(k, 5) * c[5] + pow(k, 6) * c[6] + pow(k, 7) * c[7],
{
    lemma_pow0(k);
    assert(pow(k, 0) * c[0] == c[0]);
    assert(polynomial(c, k, 0) == 0);
    assert(polynomial(c, k, 1) == c[0]);
    assert(polynomial(c, k, 2) == c[0] + pow(k, 1) * c[1]);
    assert(polynomial(c, k, 3) == polynomial(c, k, 2) + pow(k, 2) * c[2]);
    assert(polynomial(c, k, 4) == polynomial(c, k, 3) + pow(k, 3) * c[3]);
    assert(polynomial(c, k, 5) == polynomial(c, k, 4) + pow(k, 4) * c[4]);
    assert(polynomial(c, k, 6) == polynomial(c, k, 5) + pow(k, 5) * c[5]);
    assert(polynomial(c, k, 7) == polynomial(c, k, 6) + pow(k, 6) * c[6]);
}

/// Polynomials at congruent places have congruent values.
proof fn lemma_polynomial_congruent(c: Seq<int>, j: int, k: int, count: nat, p: int)
    requires
        p > 0,
        congruent(j, k, p),
    ensures
        congruent(polynomial(c, j, count), polynomial(c, k, count), p),
    decreases count,
{
    if count > 0 {
        let i = (count - 1) as nat;
        lemma_polynomial_congruent(c, j, k, i, p);
        lemma_pow_congruent(j, k, i, p);
        let v = c[i as int];
        lemma_congruent_ops(pow(j, i), pow(k, i), v, v, p);
        lemma_congruent_ops(
            polynomial(c, j, i),
            polynomial(c, k, i),
            pow(j, i) * v,
            pow(k, i) * v,
            p,
        );
    }
}

proof fn lemma_pow_congruent(j: int, k: int, e: nat, p: int)
    requires
        p > 0,
        congruent(j, k, p),
    ensures
        congruent(pow(j, e), pow(k, e), p),
    decreases e,
{
    lemma_pow0(j);
    lemma_pow0(k);
    if e > 0 {
        let i = (e - 1) as nat;
        lemma_pow_congruent(j, k, i, p);
        lemma_pow1(j);
        lemma_pow1(k);
        lemma_pow_adds(j, 1, i);
        lemma_pow_adds(k, 1, i);
        lemma_congruent_ops(j, k, pow(j, i), pow(k, i), p);
    }
}

/// The constraints on the coordinates of a window vanish exactly on honest rows. With `x`, `y`, `u`
/// and `z` in the cells and `k` the window, the first says that `x` is the value at `k` of the
/// polynomial with the coefficients in the cells, the second that `u` is a root of `y + z`, and the
/// third that the point with coordinates `x` and `y` is on the curve.
pub proof fn lemma_constraints_mean(
    config: Config,
    constraints: Seq<Expression>,
    window: spec_fn(spec_fn(Query) -> int) -> int,
    cells: spec_fn(Query) -> int,
)
    requires
        are_coords_checks(config, constraints, window),
    ensures
        constraints.len() == 3,
        ({
            let p = PallasBase::p();
            let x = cells(Query::Advice(config.add_config.x_p, 0));
            let y = cells(Query::Advice(config.add_config.y_p, 0));
            let u = cells(Query::Advice(config.u, 0));
            let z = cells(Query::Fixed(config.fixed_z));
            let k = window(cells);
            let c = |i: int| cells(Query::Fixed(config.lagrange_coeffs@[i]));
            &&& constraints[0].value(cells) % p == 0 <==> congruent(
                x,
                c(0) + pow(k, 1) * c(1) + pow(k, 2) * c(2) + pow(k, 3) * c(3) + pow(k, 4) * c(4)
                    + pow(k, 5) * c(5) + pow(k, 6) * c(6) + pow(k, 7) * c(7),
                p,
            )
            &&& constraints[1].value(cells) % p == 0 <==> congruent(u * u, y + z, p)
            &&& constraints[2].value(cells) % p == 0 <==> on_curve::<Pallas>(
                Pt::At { x: x % p, y: y % p },
            )
        }),
{
    let p = PallasBase::p();
    PallasBase::lemma_modulus();
    let x = cells(Query::Advice(config.add_config.x_p, 0));
    let y = cells(Query::Advice(config.add_config.y_p, 0));
    let u = cells(Query::Advice(config.u, 0));
    let z = cells(Query::Fixed(config.fixed_z));
    let k = window(cells);
    let c = coefficient_cells(config, cells);
    lemma_polynomial_terms(c, k);
    let value = polynomial(c, k, 8);
    assert(constraints[0].value(cells) == value - x);
    lemma_congruent_difference(value, x, p);
    assert(constraints[1].value(cells) == u * u - (y + z));
    lemma_congruent_difference(u * u, y + z, p);
    assert(constraints[2].value(cells) == y * y - (x * x * x + 5));
    lemma_congruent_difference(y * y, x * x * x + 5, p);
    lemma_congruent_mod(x, p);
    lemma_congruent_mod(y, p);
    let (a, b) = (x % p, y % p);
    lemma_congruent_ops(a, x, a, x, p);
    lemma_congruent_ops(a * a, x * x, a, x, p);
    lemma_congruent_ops(a * a * a, x * x * x, 5, 5, p);
    lemma_congruent_ops(b, y, b, y, p);
}

/// The cells of a row hold what is written to it.
pub open spec fn holds_writes(
    writes: Seq<Assignment>,
    row: int,
    cells: spec_fn(Query) -> int,
) -> bool {
    forall|i: int|
        0 <= i < writes.len() ==> match #[trigger] writes[i] {
            Assignment::Advice(column, at, Some(value)) => at == row ==> cells(
                Query::Advice(column, 0),
            ) == value@,
            Assignment::Fixed(column, at, value) => at == row ==> cells(Query::Fixed(column))
                == value@,
            _ => true,
        }
}

/// The constants of the windows are at hand where all writes are.
proof fn lemma_constants_held(
    config: Config,
    offset: int,
    coefficients: Seq<[Fp; 8]>,
    zs: Seq<u64>,
    toggle: Selector,
    count: nat,
    writes: Seq<Assignment>,
    w: int,
    cells: spec_fn(Query) -> int,
)
    requires
        are_constants(config, offset, coefficients, zs, toggle, count, writes),
        0 <= offset,
        offset + count <= usize::MAX,
        0 <= w < count,
        holds_writes(writes, offset + w, cells),
    ensures
        forall|k: int|
            0 <= k < 8 ==> cells(Query::Fixed(#[trigger] config.lagrange_coeffs@[k]))
                == coefficients[w]@[k]@,
        cells(Query::Fixed(config.fixed_z)) == zs[w],
    decreases count,
{
    let last = count - 1;
    let (front, back) = (writes.take(writes.len() - 10), writes.skip(writes.len() - 10));
    if w < last {
        assert forall|i: int| 0 <= i < front.len() implies #[trigger] front[i] == writes[i] by {}
        assert(holds_writes(front, offset + w, cells));
        lemma_constants_held(
            config,
            offset,
            coefficients,
            zs,
            toggle,
            last as nat,
            front,
            w,
            cells,
        );
    } else {
        let z = choose|z: Fp|
            z@ == zs[w] && back == #[trigger] window_constants(
                config,
                offset + w,
                coefficients[w]@,
                z,
                toggle,
            );
        let n = writes.len() - 10;
        assert forall|i: int| 0 <= i < 10 implies #[trigger] back[i] == writes[n + i] by {}
        assert forall|k: int| 0 <= k < 8 implies cells(
            Query::Fixed(#[trigger] config.lagrange_coeffs@[k]),
        ) == coefficients[w]@[k]@ by {
            assert(back[k + 1] == Assignment::Fixed(
                config.lagrange_coeffs@[k],
                (offset + w) as usize,
                coefficients[w]@[k],
            ));
            assert(writes[n + k + 1] == back[k + 1]);
        }
        assert(back[9] == Assignment::Fixed(config.fixed_z, (offset + w) as usize, z));
        assert(writes[n + 9] == back[9]);
    }
}

/// Honest rows satisfy the constraints: on a row that holds the constants and the witness of its
/// window, for the tables of a base, all three constraints on the coordinates vanish.
pub proof fn lemma_honest_rows_satisfy(
    config: Config,
    constraints: Seq<Expression>,
    window: spec_fn(spec_fn(Query) -> int) -> int,
    cells: spec_fn(Query) -> int,
    base: Pt,
    offset: usize,
    lagrange_coeffs: Seq<[Fp; 8]>,
    us: Seq<[[u8; 32]; 8]>,
    zs: Seq<u64>,
    toggle: Selector,
    constants: Seq<Assignment>,
    w: int,
    k: usize,
    witness: WindowWitness,
)
    requires
        are_coords_checks(config, constraints, window),
        on_curve::<Pallas>(base),
        are_tables_of(base, lagrange_coeffs, us, zs),
        0 <= w < zs.len(),
        offset + zs.len() <= usize::MAX,
        k < H,
        is_window_witness(witness, lagrange_coeffs[w]@, us[w]@[k as int]@, zs[w], k),
        are_constants(
            config,
            offset as int,
            lagrange_coeffs,
            zs,
            toggle,
            zs.len(),
            constants,
        ),
        holds_writes(constants, offset + w, cells),
        holds_writes(window_writes(config, offset + w, Some(witness)), offset + w, cells),
        congruent(window(cells), k as int, PallasBase::p()),
    ensures
        constraints[0].value(cells) % PallasBase::p() == 0,
        constraints[1].value(cells) % PallasBase::p() == 0,
        constraints[2].value(cells) % PallasBase::p() == 0,
{
    let p = PallasBase::p();
    PallasBase::lemma_modulus();
    let writes = window_writes(config, offset + w, Some(witness));
    assert(writes[0] == Assignment::Advice(
        config.add_config.x_p,
        (offset + w) as usize,
        Some(witness.x),
    ));
    assert(writes[1] == Assignment::Advice(
        config.add_config.y_p,
        (offset + w) as usize,
        Some(witness.y),
    ));
    assert(writes[2] == Assignment::Advice(config.u, (offset + w) as usize, Some(witness.u)));
    lemma_constants_held(
        config,
        offset as int,
        lagrange_coeffs,
        zs,
        toggle,
        zs.len(),
        constants,
        w,
        cells,
    );
    lemma_constraints_mean(config, constraints, window, cells);
    let c = coefficient_cells(config, cells);
    assert forall|i: int| 0 <= i < 8 implies c[i] == #[trigger] residues(
        lagrange_coeffs[w]@,
    )[i] by {
        assert(cells(Query::Fixed(config.lagrange_coeffs@[i])) == lagrange_coeffs[w]@[i]@);
    }
    lemma_polynomial_same(c, residues(lagrange_coeffs[w]@), k as int, 8);
    lemma_polynomial_congruent(c, window(cells), k as int, 8, p);
    let value = polynomial(c, k as int, 8);
    lemma_congruent_mod(value, p);
    lemma_congruent_difference(polynomial(c, window(cells), 8), witness.x@, p);
    let (u, z) = (witness.u@, zs[w] as int);
    lemma_congruent_mod(u * u - z, p);
    lemma_congruent_ops(witness.y@, u * u - z, z, z, p);
    // The point of the tables is a multiple of the base.
    let point = table_point(lagrange_coeffs[w]@, us[w]@, zs[w], k as int);
    assert(point == smul::<Pallas>(table_factor(zs.len(), w, k as int), base));
    lemma_smul_closed::<Pallas>(table_factor(zs.len(), w, k as int), base);
    assert(point == (Pt::At { x: witness.x@, y: witness.y@ }));
    witness.x.lemma_view();
    witness.y.lemma_view();
    vstd::arithmetic::div_mod::lemma_small_mod(witness.x@ as nat, p as nat);
    vstd::arithmetic::div_mod::lemma_small_mod(witness.y@ as nat, p as nat);
}

/// Polynomials with the same coefficients.
proof fn lemma_polynomial_same(a: Seq<int>, b: Seq<int>, k: int, count: nat)
    requires
        forall|i: int| 0 <= i < count ==> a[i] == #[trigger] b[i],
    ensures
        polynomial(a, k, count) == polynomial(b, k, count),
    decreases count,
{
    if count > 0 {
        lemma_polynomial_same(a, b, k, (count - 1) as nat);
        assert(a[count - 1] == b[count - 1]);
    }
}

/// The range check holds exactly of rows on which the running sum takes three bits: the value of a
/// row is eight times the next one and a window from zero to seven.
pub proof fn lemma_range_check_means(
    config: RunningSumConfig,
    gate: Gate,
    cells: spec_fn(Query) -> int,
)
    requires
        is_range_check(config, gate),
    ensures
        gate.selector == config.q_range_check,
        gate.constraints@.len() == 1,
        gate.constraints@[0].value(cells) % PallasBase::p() == 0 <==> exists|k: int|
            0 <= k < 8 && #[trigger] congruent(
                cells(Query::Advice(config.z, 0)),
                8 * cells(Query::Advice(config.z, 1)) + k,
                PallasBase::p(),
            ),
{
    let p = PallasBase::p();
    PallasBase::lemma_modulus();
    let (cur, next) = (cells(Query::Advice(config.z, 0)), cells(Query::Advice(config.z, 1)));
    let word = running_word(config.z, cells);
    assert(gate.constraints@[0].value(cells) % p == 0 <==> exists|k: int|
        0 <= k < 8 && #[trigger] congruent(word, k, p)) by {
        lemma_range_product(word, 8);
    }
    assert forall|k: int| #[trigger] congruent(word, k, p) <==> congruent(
        cur,
        8 * next + k,
        p,
    ) by {
        lemma_congruent_difference(word, k, p);
        lemma_congruent_difference(cur, 8 * next + k, p);
        assert(word - k == cur - (8 * next + k));
    }
    if exists|k: int| 0 <= k < 8 && #[trigger] congruent(cur, 8 * next + k, p) {
        let k = choose|k: int| 0 <= k < 8 && #[trigger] congruent(cur, 8 * next + k, p);
        assert(congruent(word, k, p));
    }
}

/// The windows of a running sum with their powers of eight, up to a position.
pub open spec fn window_sum(windows: Seq<Option<int>>, count: nat) -> int
    decreases count,
{
    if count == 0 {
        0
    } else {
        let i = (count - 1) as nat;
        window_sum(windows, i) + windows[i as int]->0 * pow(8, i)
    }
}

/// A running sum is taken apart into its windows: the windows with their powers of eight, and what
/// is left in the last value, add up to the first value.
pub proof fn lemma_running_sum_telescopes(zs: Seq<Option<Fp>>, count: nat)
    requires
        count < zs.len(),
        forall|i: int| 0 <= i < zs.len() ==> #[trigger] zs[i] is Some,
    ensures
        running_windows(zs).len() == zs.len() - 1,
        forall|i: int|
            0 <= i < running_windows(zs).len() ==> #[trigger] running_windows(zs)[i] is Some
                && 0 <= running_windows(zs)[i]->0 < PallasBase::p(),
        congruent(
            zs[0]->0@,
            window_sum(running_windows(zs), count) + zs[count as int]->0@ * pow(8, count),
            PallasBase::p(),
        ),
    decreases count,
{
    let p = PallasBase::p();
    PallasBase::lemma_modulus();
    let windows = running_windows(zs);
    assert forall|i: int| 0 <= i < windows.len() implies #[trigger] windows[i] is Some && 0
        <= windows[i]->0 < p by {
        assert(zs[i] is Some && zs[i + 1] is Some);
        lemma_congruent_mod(zs[i]->0@ - 8 * zs[i + 1]->0@, p);
    }
    lemma_pow0(8);
    if count == 0 {
        assert(zs[0]->0@ * 1 == zs[0]->0@);
    } else {
        let i = (count - 1) as nat;
        lemma_running_sum_telescopes(zs, i);
        assert(zs[i as int] is Some && zs[count as int] is Some);
        let (a, b, e) = (zs[i as int]->0@, zs[count as int]->0@, pow(8, i));
        let v = windows[i as int]->0;
        lemma_congruent_mod(a - 8 * b, p);
        lemma_congruent_ops(v, a - 8 * b, 8 * b, 8 * b, p);
        lemma_congruent_ops(v + 8 * b, a, e, e, p);
        lemma_pow1(8);
        lemma_pow_adds(8, 1, i);
        assert((v + 8 * b) * e == v * e + b * (8 * e)) by (nonlinear_arith);
        let s = window_sum(windows, i);
        lemma_congruent_ops(s, s, (v + 8 * b) * e, a * e, p);
    }
}

/// What one more in a window adds to its point is the power of eight of its position, and a zero
/// window before the last has twice this power: no point of such a window is neutral by itself.
pub proof fn lemma_window_steps(windows: Seq<usize>, w: int, k: usize)
    requires
        0 <= w < windows.len(),
        windows[w] < H,
        k < H,
    ensures
        window_factor(windows.update(w, k), w) - window_factor(windows, w) == (k - windows[w]) * pow(
            8,
            w as nat,
        ),
        w < windows.len() - 1 && windows[w] == 0 ==> window_factor(windows, w) == 2 * pow(
            8,
            w as nat,
        ),
{
    lemma_power_of_eight(w as nat);
    let e = pow2(3 * w as nat) as int;
    let v = windows[w] as int;
    assert((k + 2) * e - (v + 2) * e == (k - v) * e) by (nonlinear_arith);
    assert(k * e - v * e == (k - v) * e) by (nonlinear_arith);
}

proof fn lemma_power_of_eight(w: nat)
    ensures
        pow2(3 * w) == pow(8, w),
    decreases w,
{
    lemma2_to64();
    lemma_pow0(8);
    if w > 0 {
        let i = (w - 1) as nat;
        lemma_power_of_eight(i);
        lemma_pow1(8);
        lemma_pow_adds(8, 1, i);
        lemma_pow2_adds(3, 3 * i);
        assert(3 + 3 * i == 3 * w);
    }
}

/// The value of windows is the sum with the powers of eight.
pub proof fn lemma_windows_value(windows: Seq<usize>, count: nat)
    requires
        count <= windows.len(),
    ensures
        windows_value(windows, count) == window_sum(
            Seq::new(windows.len(), |i: int| Some(windows[i] as int)),
            count,
        ),
    decreases count,
{
    if count > 0 {
        lemma_windows_value(windows, (count - 1) as nat);
        lemma_power_of_eight((count - 1) as nat);
    }
}

/// The accumulated points are the multiple of the base by the sum of the factors.
proof fn lemma_accumulated(
    base: Pt,
    windows: Seq<usize>,
    points: Seq<Option<Pt>>,
    count: nat,
)
    requires
        on_curve::<Pallas>(base),
        points.len() == windows.len(),
        1 <= count <= windows.len(),
        forall|w: int|
            0 <= w < windows.len() ==> #[trigger] points[w] == Some(
                smul::<Pallas>(window_factor(windows, w), base),
            ),
        accumulated(points, count) is Some,
    ensures
        accumulated(points, count) == Some(
            Some(smul::<Pallas>(factor_sum(windows, count), base)),
        ),
    decreases count,
{
    let w = count - 1;
    assert(points[w] == Some(smul::<Pallas>(window_factor(windows, w), base)));
    if count == 1 {
        assert(factor_sum(windows, 0) == 0);
    } else {
        lemma_accumulated(base, windows, points, w as nat);
        let (a, b) = (window_factor(windows, w), factor_sum(windows, w as nat));
        lemma_smul_add::<Pallas>(a, b, base);
    }
}

/// A region multiplies the base: where the incomplete additions of the windows before the last are
/// defined, their sum with the point of the last window is the multiple of the base by the number
/// whose digits in base eight are the windows.
pub proof fn lemma_region_multiplies(
    base: Pt,
    values: Seq<Option<int>>,
    windows: Seq<usize>,
    lagrange_coeffs: Seq<[Fp; 8]>,
    us: Seq<[[u8; 32]; 8]>,
    zs: Seq<u64>,
    acc: Pt,
    last: Pt,
)
    requires
        on_curve::<Pallas>(base),
        are_tables_of(base, lagrange_coeffs, us, zs),
        zs.len() == windows.len(),
        values.len() == windows.len(),
        windows.len() >= 2,
        all_known(values),
        forall|w: int|
            0 <= w < windows.len() ==> #[trigger] windows[w] < H && values[w] == Some(
                windows[w] as int,
            ),
        accumulated(
            region_points(values, lagrange_coeffs, us, zs),
            (windows.len() - 1) as nat,
        ) == Some(Some(acc)),
        region_points(values, lagrange_coeffs, us, zs)[windows.len() - 1] == Some(last),
    ensures
        plus::<Pallas>(acc, last) == smul::<Pallas>(
            window_sum(
                Seq::new(windows.len(), |i: int| Some(windows[i] as int)),
                windows.len(),
            ),
            base,
        ),
{
    let points = region_points(values, lagrange_coeffs, us, zs);
    let n = windows.len() as int;
    assert forall|w: int| 0 <= w < n implies #[trigger] points[w] == Some(
        smul::<Pallas>(window_factor(windows, w), base),
    ) by {
        assert(windows[w] < H);
        let k = windows[w] as int;
        assert(values[w]->0 % 8 == k);
        assert(table_point(lagrange_coeffs[w]@, us[w]@, zs[w], k) == smul::<Pallas>(
            table_factor(zs.len(), w, k),
            base,
        ));
    }
    lemma_accumulated(base, windows, points, (n - 1) as nat);
    assert(points[n - 1] == Some(smul::<Pallas>(window_factor(windows, n - 1), base)));
    lemma_smul_add::<Pallas>(
        factor_sum(windows, (n - 1) as nat),
        window_factor(windows, n - 1),
        base,
    );
    lemma_factors_add_up(windows);
    lemma_windows_value(windows, windows.len());
}

/// The offsets of the first windows are a geometric sum: two for each window, with the weights of
/// the windows.
pub proof fn lemma_offsets(count: nat)
    ensures
        7 * offset_sum(count) == 2 * (pow2(3 * count) - 1),
    decreases count,
{
    lemma2_to64();
    if count > 0 {
        let w = (count - 1) as nat;
        lemma_offsets(w);
        lemma_pow2_adds(3 * w, 3);
        assert(3 * w + 3 == 3 * count);
    }
}

/// The factor of a window is its value with the weight eight to its position: two are added before
/// the last window, and the last one takes back two for each weight before it.
pub proof fn lemma_window_factors(windows: Seq<usize>, w: int)
    requires
        0 <= w < windows.len(),
    ensures
        w < windows.len() - 1 ==> window_factor(windows, w) == windows[w] * pow2(3 * w as nat) + 2
            * pow2(3 * w as nat),
        w == windows.len() - 1 ==> 7 * window_factor(windows, w) == 7 * (windows[w] * pow2(
            3 * w as nat,
        )) - 2 * (pow2(3 * w as nat) - 1),
        table_factor(windows.len(), w, windows[w] as int) == window_factor(windows, w),
{
    lemma_offsets(w as nat);
    let (k, p) = (windows[w] as int, pow2(3 * w as nat) as int);
    assert((k + 2) * p == k * p + 2 * p) by (nonlinear_arith);
}

/// A point that is advanced is the sum of the point and a multiple of the step.
pub proof fn lemma_advanced(start: Pt, step: Pt, count: nat)
    requires
        on_curve::<Pallas>(start),
        on_curve::<Pallas>(step),
    ensures
        advanced(start, step, count) == plus::<Pallas>(start, smul::<Pallas>(count as int, step)),
        on_curve::<Pallas>(advanced(start, step, count)),
    decreases count,
{
    lemma_smul_small::<Pallas>(step);
    if count == 0 {
        reveal(ec_add);
    } else {
        let n = (count - 1) as nat;
        lemma_advanced(start, step, n);
        let a = smul::<Pallas>(n as int, step);
        lemma_smul_closed::<Pallas>(n as int, step);
        lemma_smul_add::<Pallas>(n as int, 1, step);
        lemma_associative::<Pallas>(start, a, step);
        lemma_closed::<Pallas>(advanced(start, step, n), step);
    }
}

/// The windows that select points are remainders modulo eight; what is not known selects nothing.
pub proof fn lemma_low_bits(value: int)
    ensures
        low_bits(None) is None,
        low_bits(Some(value)) matches Some(r) && r < 8 && (value - r) % 8 == 0,
{
}

/// The windows of a full-width scalar are the witnessed ones; the others are the differences of
/// the running sum: every value is the window and eight times the next value, modulo the prime.
pub proof fn lemma_windows_of_scalars(scalar: ScalarFixed, i: int)
    requires
        scalar.is_assigned(),
        0 <= i < scalar.window_values().len(),
    ensures
        match scalar {
            ScalarFixed::FullWidth(full) => full.windows->0@.len() == scalar.window_values().len()
                && (full.windows->0@[i] matches Some(v) ==> scalar.window_values()[i] == Some(v@))
                && (full.windows->0@[i] is None ==> scalar.window_values()[i] is None),
            ScalarFixed::Short(short) => short.running_sum->0@.len()
                == scalar.window_values().len() + 1 && is_difference(
                short.running_sum->0@[i],
                short.running_sum->0@[i + 1],
                scalar.window_values()[i],
            ),
            ScalarFixed::BaseFieldElem(elem) => elem.running_sum@.len()
                == scalar.window_values().len() + 1 && is_difference(
                elem.running_sum@[i],
                elem.running_sum@[i + 1],
                scalar.window_values()[i],
            ),
        },
{
    let p = PallasBase::p();
    PallasBase::lemma_modulus();
    match scalar {
        ScalarFixed::FullWidth(full) => {},
        ScalarFixed::Short(short) => {
            lemma_difference(short.running_sum->0@[i], short.running_sum->0@[i + 1]);
        },
        ScalarFixed::BaseFieldElem(elem) => {
            lemma_difference(elem.running_sum@[i], elem.running_sum@[i + 1]);
        },
    }
}

/// The window is the reduced difference of a value and eight times the next one, where both are
/// known.
pub open spec fn is_difference(cur: Option<Fp>, next: Option<Fp>, window: Option<int>) -> bool {
    match (cur, next) {
        (Some(a), Some(b)) => window matches Some(w) && 0 <= w < PallasBase::p() && congruent(
            w + 8 * b@,
            a@,
            PallasBase::p(),
        ),
        _ => window is None,
    }
}

proof fn lemma_difference(cur: Option<Fp>, next: Option<Fp>)
    ensures
        is_difference(cur, next, crate::mul_fixed::scalar::running_word(cur, next)),
{
    let p = PallasBase::p();
    PallasBase::lemma_modulus();
    match (cur, next) {
        (Some(a), Some(b)) => {
            let d = a@ - 8 * b@;
            lemma_congruent_mod(d, p);
            lemma_congruent_ops(d % p, d, 8 * b@, 8 * b@, p);
        },
        _ => {},
    }
}

/// Tables are usable exactly where there is one of each kind for every window, all roots are
/// residues, and neither the interpolated first coordinates nor the second ones vanish.
pub proof fn lemma_usable_tables(
    lagrange_coeffs: Seq<[Fp; 8]>,
    us: Seq<[[u8; 32]; 8]>,
    zs: Seq<u64>,
)
    requires
        lagrange_coeffs.len() == zs.len(),
        us.len() == zs.len(),
        forall|w: int, k: int|
            0 <= w < zs.len() && 0 <= k < 8 ==> {
                let u = bytes_value(#[trigger] us[w]@[k]@);
                &&& u < PallasBase::p()
                &&& polynomial(residues(lagrange_coeffs[w]@), k, 8) % PallasBase::p() != 0
                &&& (u * u - zs[w]) % PallasBase::p() != 0
            },
    ensures
        are_tables(lagrange_coeffs, us, zs),
{
    assert forall|w: int, k: int| 0 <= w < zs.len() && 0 <= k < 8 implies #[trigger] is_table_entry(
        lagrange_coeffs[w]@,
        us[w]@,
        zs[w],
        k,
    ) by {
        let u = bytes_value(us[w]@[k]@);
        assert(u < PallasBase::p());
    }
}

/// The constants of the windows take ten writes each, and the first of them enables the selector
/// on the row of the window.
pub proof fn lemma_rows_are_enabled(
    config: Config,
    offset: int,
    coefficients: Seq<[Fp; 8]>,
    zs: Seq<u64>,
    toggle: Selector,
    count: nat,
    writes: Seq<Assignment>,
    w: int,
)
    requires
        are_constants(config, offset, coefficients, zs, toggle, count, writes),
        0 <= w < count,
    ensures
        writes.len() == 10 * count,
        writes[10 * w] == Assignment::Enable(toggle, (offset + w) as usize),
    decreases count,
{
    let last = count - 1;
    let n = writes.len() - 10;
    let (front, back) = (writes.take(n), writes.skip(n));
    assert(are_constants(config, offset, coefficients, zs, toggle, last as nat, front));
    if last > 0 {
        let v = if w < last {
            w
        } else {
            0
        };
        lemma_rows_are_enabled(config, offset, coefficients, zs, toggle, last as nat, front, v);
        assert(front[10 * v] == writes[10 * v]);
    }
    if w == last {
        let z = choose|z: Fp|
            z@ == zs[w] && back == #[trigger] window_constants(
                config,
                offset + w,
                coefficients[w]@,
                z,
                toggle,
            );
        assert(back[0] == Assignment::Enable(toggle, (offset + w) as usize));
        assert(writes[n + 0] == back[0]);
    }
}

/// The cells of the point of a window are those that its witness is written to, with the values
/// that are written; the root is written to the same row.
pub proof fn lemma_cells_are_written(config: Config, row: usize, witness: WindowWitness)
    ensures
        ({
            let cells = window_cells(config, row as int, Some(witness));
            let writes = window_writes(config, row as int, Some(witness));
            &&& cells.row == row
            &&& cells.value == Some((witness.x, witness.y))
            &&& writes.contains(Assignment::Advice(cells.x, row, Some(witness.x)))
            &&& writes.contains(Assignment::Advice(cells.y, row, Some(witness.y)))
            &&& writes.contains(Assignment::Advice(config.u, row, Some(witness.u)))
        }),
{
    let writes = window_writes(config, row as int, Some(witness));
    assert(writes[0] == Assignment::Advice(config.add_config.x_p, row, Some(witness.x)));
    assert(writes[1] == Assignment::Advice(config.add_config.y_p, row, Some(witness.y)));
    assert(writes[2] == Assignment::Advice(config.u, row, Some(witness.u)));
}

/// A scalar is assigned exactly where its windows are witnessed, or its running sum has a start.
pub proof fn lemma_assigned_scalars(scalar: ScalarFixed)
    ensures
        scalar.is_assigned() <==> match scalar {
            ScalarFixed::FullWidth(full) => full.windows is Some,
            ScalarFixed::Short(short) => short.running_sum matches Some(zs) && zs@.len() >= 1,
            ScalarFixed::BaseFieldElem(elem) => elem.running_sum@.len() >= 1,
        },
{
}

/// The window that the coordinates are checked for is what the running sum loses from a row to the
/// next: the value on the row is the window and eight times the value on the next row.
pub proof fn lemma_checked_window(config: Config, cells: spec_fn(Query) -> int)
    ensures
        cells(Query::Advice(config.window, 0)) == running_word_of(config, cells) + 8 * cells(
            Query::Advice(config.window, 1),
        ),
{
}

/// Columns fit together exactly where both additions take the same point, and the outputs of
/// addition hold neither windows nor roots.
pub proof fn lemma_consistent_columns(
    window: Advice,
    u: Advice,
    add_config: AddConfig,
    add_incomplete_config: AddIncompleteConfig,
)
    ensures
        Config::is_consistent(window, u, add_config, add_incomplete_config) <==> add_config.x_p
            == add_incomplete_config.x_p && add_config.y_p == add_incomplete_config.y_p && !set![
            add_config.x_qr,
            add_config.y_qr,
        ].contains(window) && !set![add_config.x_qr, add_config.y_qr].contains(u),
{
}

/// The windows of a region are witnessed all or none: where every value is known, the root of a
/// window is the stored one at the remainder of its value modulo eight.
pub proof fn lemma_region_roots(
    witnesses: Seq<Option<WindowWitness>>,
    values: Seq<Option<int>>,
    lagrange_coeffs: Seq<[Fp; 8]>,
    us: Seq<[[u8; 32]; 8]>,
    zs: Seq<u64>,
    w: int,
)
    requires
        are_region_witnesses(witnesses, values, lagrange_coeffs, us, zs),
        0 <= w < values.len(),
    ensures
        witnesses.len() == values.len(),
        witnesses[w] is Some <==> forall|k: int|
            0 <= k < values.len() ==> #[trigger] values[k] is Some,
        witnesses[w] matches Some(witness) ==> witness.u@ == bytes_value(
            us[w]@[values[w]->0 % 8]@,
        ),
{
    assert(witnesses[w] is Some <==> all_known(values));
}

/// The point of a witness has its coordinates, and a witness can be the point of a window exactly
/// where neither vanishes; what is not known has no point and is not refused.
pub proof fn lemma_witnessed_points(witness: WindowWitness)
    ensures
        witness_point(Some(witness)) == Some(Pt::At { x: witness.x@, y: witness.y@ }),
        witness_point(None) is None,
        is_nonzero(Some(witness)) <==> witness.x@ != 0 && witness.y@ != 0,
        is_nonzero(None),
{
}

/// Every window after the first takes four writes, its witness and its addition: the point of the
/// window is added, on its row, to the sum of the windows before it, which is the first window
/// or the output of the addition before.
pub proof fn lemma_additions_are_chained(
    config: Config,
    offset: int,
    witnesses: Seq<Option<WindowWitness>>,
    first: PointCells,
    count: nat,
    writes: Seq<Assignment>,
    acc: PointCells,
    w: int,
)
    requires
        are_additions(config, offset, witnesses, first, count, writes, acc),
        1 <= w < count,
    ensures
        writes.len() == 4 * (count - 1),
        exists|prev: PointCells| #[trigger]
            is_chained(config, offset, first, prev, w) && writes[4 * w - 1]
                == Assignment::AddIncomplete(
                window_cells(config, offset + w, witnesses[w]),
                prev,
                (offset + w) as usize,
            ),
    decreases count,
{
    let v = count - 1;
    let n = writes.len() - 4;
    let (front, back) = (writes.take(n), writes.skip(n));
    let prev = choose|prev: PointCells|
        #[trigger] is_addition(config, offset + v, witnesses[v], back, prev) && are_additions(
            config,
            offset,
            witnesses,
            first,
            v as nat,
            front,
            prev,
        );
    assert(back[3] == Assignment::AddIncomplete(
        window_cells(config, offset + v, witnesses[v]),
        prev,
        (offset + v) as usize,
    ));
    assert(writes[n + 3] == back[3]);
    if v > 1 {
        let u = if w < v {
            w
        } else {
            1
        };
        lemma_additions_are_chained(
            config,
            offset,
            witnesses,
            first,
            v as nat,
            front,
            prev,
            u,
        );
        assert(front[4 * u - 1] == writes[4 * u - 1]);
        if w < v {
            let other = choose|other: PointCells| #[trigger]
                is_chained(config, offset, first, other, w) && front[4 * w - 1]
                    == Assignment::AddIncomplete(
                    window_cells(config, offset + w, witnesses[w]),
                    other,
                    (offset + w) as usize,
                );
            assert(is_chained(config, offset, first, other, w));
        }
    }
    if w == v {
        assert(is_chained(config, offset, first, prev, w));
    }
}

/// The cells hold the sum of the windows before window `w`.
pub open spec fn is_chained(
    config: Config,
    offset: int,
    first: PointCells,
    cells: PointCells,
    w: int,
) -> bool {
    if w == 1 {
        cells == first
    } else {
        &&& cells.x == config.add_incomplete_config.x_qr
        &&& cells.y == config.add_incomplete_config.y_qr
        &&& cells.row == offset + w
    }
}

} // verus!
