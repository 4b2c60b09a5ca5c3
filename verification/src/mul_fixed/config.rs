//! The chip of fixed-base scalar multiplication.
use crate::curve::affine::Affine;
use crate::curve::batch::affine_add;
use crate::curve::law::{lemma_product, on_curve, smul, Pt};
use crate::curve::Pallas;
use crate::field::congruence::{
    congruent, lemma_congruent_difference, lemma_congruent_mod, lemma_congruent_ops,
    lemma_congruent_small,
};
use crate::field::repr::bytes_value;
use crate::field::{Fe, Fp, Modulus, PallasBase};
use crate::mul_fixed::expression::{
    Advice, ConstraintSystem, Expression, Fixed, Gate, Query, Selector,
};
use crate::mul_fixed::scalar::{low_bits, ScalarFixed};
use crate::mul_fixed::windows::{offset_sum, window_factor, H};
use crate::mul_fixed::witness::{
    is_window_witness, lemma_witness_satisfies_checks, polynomial, reconstruct_window_witnesses,
    residues, WindowWitness,
};
use crate::sinsemilla::domain::incomplete;
use vstd::arithmetic::power::{lemma_pow0, lemma_pow1, lemma_pow_adds, pow};
use vstd::arithmetic::power2::pow2;
use vstd::prelude::*;

verus! {

/// The columns of complete addition.
#[derive(Clone, Copy, Debug, PartialEq, Eq, Structural)]
pub struct AddConfig {
    /// The first coordinate of the first summand.
    pub x_p: Advice,
    /// The second coordinate of the first summand.
    pub y_p: Advice,
    /// The first coordinate of the second summand, and of the sum in the next row.
    pub x_qr: Advice,
    /// The second coordinate of the second summand, and of the sum in the next row.
    pub y_qr: Advice,
}

/// The columns of incomplete addition.
#[derive(Clone, Copy, Debug, PartialEq, Eq, Structural)]
pub struct AddIncompleteConfig {
    /// The first coordinate of the first summand.
    pub x_p: Advice,
    /// The second coordinate of the first summand.
    pub y_p: Advice,
    /// The first coordinate of the second summand, and of the sum in the next row.
    pub x_qr: Advice,
    /// The second coordinate of the second summand, and of the sum in the next row.
    pub y_qr: Advice,
}

/// The decomposition of a scalar by a running sum.
#[derive(Clone, Copy, Debug, PartialEq, Eq, Structural)]
pub struct RunningSumConfig {
    /// The selector of the rows of a running sum.
    pub q_range_check: Selector,
    /// The column of the running sum.
    pub z: Advice,
}

/// The window that the running sum of a column takes from a row to the next.
pub open spec fn running_word(z: Advice, cells: spec_fn(Query) -> int) -> int {
    cells(Query::Advice(z, 0)) - cells(Query::Advice(z, 1)) * 8
}

/// The product of a word and its differences from the numbers from one to below `range`.
pub open spec fn range_product(word: int, range: nat) -> int
    decreases range,
{
    if range <= 1 {
        word
    } else {
        range_product(word, (range - 1) as nat) * (range - 1 - word)
    }
}

/// The polynomial of the range check vanishes exactly for the words below `range`.
pub proof fn lemma_range_product(word: int, range: nat)
    requires
        range > 0,
    ensures
        range_product(word, range) % PallasBase::p() == 0 <==> exists|k: int|
            0 <= k < range && #[trigger] congruent(word, k, PallasBase::p()),
    decreases range,
{
    let p = PallasBase::p();
    PallasBase::lemma_modulus();
    if range == 1 {
        lemma_congruent_difference(word, 0, p);
        if word % p == 0 {
            assert(congruent(word, 0, p));
        }
    } else {
        let last = range - 1;
        lemma_range_product(word, last as nat);
        lemma_product::<PallasBase>(range_product(word, last as nat), last - word);
        lemma_congruent_difference(last, word, p);
        if (last - word) % p == 0 {
            assert(congruent(word, last, p));
        }
        if exists|k: int| 0 <= k < range && #[trigger] congruent(word, k, p) {
            let k = choose|k: int| 0 <= k < range && #[trigger] congruent(word, k, p);
            assert(k == last || k < last);
        }
    }
}

impl RunningSumConfig {
    /// The running sum in a column: the cells of the column can be copied, and a gate constrains
    /// every window to three bits.
    pub fn configure(meta: &mut ConstraintSystem, q_range_check: Selector, z: Advice) -> (r: Self)
        ensures
            r.q_range_check == q_range_check,
            r.z == z,
            final(meta).selectors == old(meta).selectors,
            final(meta).fixed_columns == old(meta).fixed_columns,
            final(meta).equality@ == if old(meta).equality@.contains(z) {
                old(meta).equality@
            } else {
                old(meta).equality@.push(z)
            },
            final(meta).gates@.len() == old(meta).gates@.len() + 1,
            final(meta).gates@.drop_last() == old(meta).gates@,
            is_range_check(r, final(meta).gates@.last()),
    {
        meta.enable_equality(z);
        let z_cur = Expression::advice(z, 0);
        let z_next = Expression::advice(z, 1);
        let word = z_cur.minus(z_next.times(Expression::constant(8)));
        let mut check = word.copy();
        let mut i: u64 = 1;
        while i < 8
            invariant
                1 <= i <= 8,
                forall|cells: spec_fn(Query) -> int| #[trigger]
                    word.value(cells) == running_word(z, cells),
                forall|cells: spec_fn(Query) -> int| #[trigger]
                    check.value(cells) == range_product(running_word(z, cells), i as nat),
            decreases 8 - i,
        {
            let factor = Expression::constant(i).minus(word.copy());
            check = check.times(factor);
            i += 1;
        }
        let mut constraints: Vec<Expression> = Vec::new();
        constraints.push(check);
        meta.create_gate(Gate { selector: q_range_check, constraints });
        assert(meta.gates@.drop_last() =~= old(meta).gates@);
        RunningSumConfig { q_range_check, z }
    }
}

/// Constrains every window of a running sum to three bits.
pub open spec fn is_range_check(config: RunningSumConfig, gate: Gate) -> bool {
    &&& gate.selector == config.q_range_check
    &&& gate.constraints@.len() == 1
    &&& forall|cells: spec_fn(Query) -> int| #[trigger]
        gate.constraints@[0].value(cells) == range_product(running_word(config.z, cells), 8)
}

/// The columns of fixed-base scalar multiplication.
#[derive(Clone, Copy, Debug, PartialEq, Eq)]
pub struct Config {
    /// The decomposition of the scalar.
    pub running_sum_config: RunningSumConfig,
    /// The interpolation coefficients of the first coordinate of a window.
    pub lagrange_coeffs: [Fixed; 8],
    /// The value of a window with which the second coordinate is a square.
    pub fixed_z: Fixed,
    /// The windows of the scalar.
    pub window: Advice,
    /// The root of the shifted second coordinate.
    pub u: Advice,
    /// The columns of complete addition.
    pub add_config: AddConfig,
    /// The columns of incomplete addition.
    pub add_incomplete_config: AddIncompleteConfig,
}

/// What is written to a region.
#[derive(Clone, Copy, Debug)]
pub enum Assignment {
    /// A selector is enabled at a row.
    Enable(Selector, usize),
    /// A fixed cell gets a value.
    Fixed(Fixed, usize, Fp),
    /// An advice cell gets a value, where it is known.
    Advice(Advice, usize, Option<Fp>),
    /// Two points are added at a row; the sum stands in the next row.
    AddIncomplete(PointCells, PointCells, usize),
}

/// A point in the cells of a row, with its value where it is known.
#[derive(Clone, Copy, Debug)]
pub struct PointCells {
    /// The column of the first coordinate.
    pub x: Advice,
    /// The column of the second coordinate.
    pub y: Advice,
    /// The row.
    pub row: usize,
    /// The coordinates.
    pub value: Option<(Fp, Fp)>,
}

/// An incomplete addition that is not defined.
#[derive(Clone, Copy, Debug, PartialEq, Eq, Structural)]
pub struct SynthesisError;

impl PointCells {
    /// The point, where it is known.
    pub open spec fn point(self) -> Option<Pt> {
        match self.value {
            Some((x, y)) => Some(Pt::At { x: x@, y: y@ }),
            None => None,
        }
    }
}

/// The coefficients that a row holds.
pub open spec fn coefficient_cells(config: Config, cells: spec_fn(Query) -> int) -> Seq<int> {
    Seq::new(8, |i: int| cells(Query::Fixed(config.lagrange_coeffs@[i])))
}

/// The value of the window that a running sum takes from a row to the next.
pub open spec fn running_word_of(config: Config, cells: spec_fn(Query) -> int) -> int {
    running_word(config.window, cells)
}

/// The three constraints on the coordinates of a window: the first coordinate is interpolated,
/// the shifted second coordinate is a square, and the point is on the curve.
pub open spec fn are_coords_checks(
    config: Config,
    constraints: Seq<Expression>,
    window: spec_fn(spec_fn(Query) -> int) -> int,
) -> bool {
    &&& constraints.len() == 3
    &&& forall|cells: spec_fn(Query) -> int| #[trigger]
        constraints[0].value(cells) == polynomial(
            coefficient_cells(config, cells),
            window(cells),
            8,
        ) - cells(Query::Advice(config.add_config.x_p, 0))
    &&& forall|cells: spec_fn(Query) -> int| #[trigger]
        constraints[1].value(cells) == cells(Query::Advice(config.u, 0)) * cells(
            Query::Advice(config.u, 0),
        ) - cells(Query::Advice(config.add_config.y_p, 0)) - cells(Query::Fixed(config.fixed_z))
    &&& forall|cells: spec_fn(Query) -> int| #[trigger]
        constraints[2].value(cells) == {
            let (x, y) = (
                cells(Query::Advice(config.add_config.x_p, 0)),
                cells(Query::Advice(config.add_config.y_p, 0)),
            );
            y * y - (x * x) * x - 5
        }
}

/// The writes of the fixed constants of a window.
pub open spec fn window_constants(
    config: Config,
    row: int,
    coefficients: Seq<Fp>,
    z: Fp,
    toggle: Selector,
) -> Seq<Assignment> {
    seq![Assignment::Enable(toggle, row as usize)] + Seq::new(
        8,
        |k: int| Assignment::Fixed(config.lagrange_coeffs@[k], row as usize, coefficients[k]),
    ) + seq![Assignment::Fixed(config.fixed_z, row as usize, z)]
}

/// The writes of the fixed constants of the first windows; the values of the windows are field
/// elements.
pub open spec fn are_constants(
    config: Config,
    offset: int,
    coefficients: Seq<[Fp; 8]>,
    zs: Seq<u64>,
    toggle: Selector,
    count: nat,
    writes: Seq<Assignment>,
) -> bool
    decreases count,
{
    if count == 0 {
        writes.len() == 0
    } else {
        let w = count - 1;
        &&& writes.len() >= 10
        &&& are_constants(
            config,
            offset,
            coefficients,
            zs,
            toggle,
            w as nat,
            writes.take(writes.len() - 10),
        )
        &&& exists|z: Fp|
            z@ == zs[w] && writes.skip(writes.len() - 10) == #[trigger] window_constants(
                config,
                offset + w,
                coefficients[w]@,
                z,
                toggle,
            )
    }
}

/// The writes of the witness of a window.
pub open spec fn window_writes(
    config: Config,
    row: int,
    witness: Option<WindowWitness>,
) -> Seq<Assignment> {
    let (x, y, u) = match witness {
        Some(v) => (Some(v.x), Some(v.y), Some(v.u)),
        None => (None, None, None),
    };
    seq![
        Assignment::Advice(config.add_config.x_p, row as usize, x),
        Assignment::Advice(config.add_config.y_p, row as usize, y),
        Assignment::Advice(config.u, row as usize, u),
    ]
}

/// The cells of the point of a window.
pub open spec fn window_cells(
    config: Config,
    row: int,
    witness: Option<WindowWitness>,
) -> PointCells {
    PointCells {
        x: config.add_config.x_p,
        y: config.add_config.y_p,
        row: row as usize,
        value: match witness {
            Some(v) => Some((v.x, v.y)),
            None => None,
        },
    }
}

/// A witness that can be the point of a window: neither coordinate is zero.
pub open spec fn is_nonzero(witness: Option<WindowWitness>) -> bool {
    witness matches Some(v) ==> v.x@ != 0 && v.y@ != 0
}

/// The sum of known points by incomplete addition.
pub open spec fn known_sum(a: Option<Pt>, b: Option<Pt>) -> Option<Option<Pt>> {
    match (a, b) {
        (Some(p), Some(q)) => match incomplete(p, q) {
            Some(r) => Some(Some(r)),
            None => None,
        },
        _ => Some(None),
    }
}

/// The point of a witness, where it is known.
pub open spec fn witness_point(witness: Option<WindowWitness>) -> Option<Pt> {
    match witness {
        Some(v) => Some(Pt::At { x: v.x@, y: v.y@ }),
        None => None,
    }
}

/// The accumulator after the first windows; `None` where an incomplete addition is not defined.
pub open spec fn accumulated(points: Seq<Option<Pt>>, count: nat) -> Option<Option<Pt>>
    decreases count,
{
    if count <= 1 {
        Some(points[0])
    } else {
        match accumulated(points, (count - 1) as nat) {
            None => None,
            Some(acc) => known_sum(points[count - 1], acc),
        }
    }
}

/// The points of witnesses.
pub open spec fn witness_points(witnesses: Seq<Option<WindowWitness>>) -> Seq<Option<Pt>> {
    Seq::new(witnesses.len(), |w: int| witness_point(witnesses[w]))
}

/// The writes of the additions of the windows after the first, and the cells of the sum: every
/// addition gets the point of its window and the sum of the windows before it.
pub open spec fn are_additions(
    config: Config,
    offset: int,
    witnesses: Seq<Option<WindowWitness>>,
    first: PointCells,
    count: nat,
    writes: Seq<Assignment>,
    acc: PointCells,
) -> bool
    decreases count,
{
    if count <= 1 {
        &&& writes.len() == 0
        &&& acc == first
        &&& acc.point() == witness_point(witnesses[0])
    } else {
        let w = count - 1;
        &&& writes.len() >= 4
        &&& accumulated(witness_points(witnesses), count) == Some(acc.point())
        &&& acc.x == config.add_incomplete_config.x_qr
        &&& acc.y == config.add_incomplete_config.y_qr
        &&& acc.row == offset + w + 1
        &&& exists|prev: PointCells|
            #[trigger] is_addition(config, offset + w, witnesses[w], writes.skip(writes.len() - 4), prev)
                && are_additions(
                config,
                offset,
                witnesses,
                first,
                w as nat,
                writes.take(writes.len() - 4),
                prev,
            )
    }
}

/// The writes of a window and of its addition to a point.
pub open spec fn is_addition(
    config: Config,
    row: int,
    witness: Option<WindowWitness>,
    writes: Seq<Assignment>,
    prev: PointCells,
) -> bool {
    writes == window_writes(config, row, witness).push(
        Assignment::AddIncomplete(window_cells(config, row, witness), prev, row as usize),
    )
}

/// What is written to a region, in order, and the points in it.
#[derive(Debug)]
pub struct RegionPlan {
    /// The witnesses of the windows.
    pub witnesses: Vec<Option<WindowWitness>>,
    /// The fixed constants.
    pub constants: Vec<Assignment>,
    /// The first window.
    pub first: Vec<Assignment>,
    /// The windows between the first and the last, and their additions.
    pub additions: Vec<Assignment>,
    /// The last window.
    pub last: Vec<Assignment>,
    /// The sum of the windows before the last.
    pub acc: PointCells,
    /// The point of the last window.
    pub mul_b: PointCells,
}

/// The point that the tables of a base give for a window.
pub open spec fn table_point(coefficients: Seq<Fp>, us: Seq<[u8; 32]>, z: u64, window: int) -> Pt {
    let u = bytes_value(us[window]@);
    Pt::At {
        x: polynomial(residues(coefficients), window, 8) % PallasBase::p(),
        y: (u * u - z) % PallasBase::p(),
    }
}

/// Every window is known.
pub open spec fn all_known(values: Seq<Option<int>>) -> bool {
    forall|w: int| 0 <= w < values.len() ==> #[trigger] values[w] is Some
}

/// The points of all windows: they are known where every window is.
pub open spec fn region_points(
    values: Seq<Option<int>>,
    lagrange_coeffs: Seq<[Fp; 8]>,
    us: Seq<[[u8; 32]; 8]>,
    zs: Seq<u64>,
) -> Seq<Option<Pt>> {
    Seq::new(
        values.len(),
        |w: int|
            if all_known(values) {
                Some(table_point(lagrange_coeffs[w]@, us[w]@, zs[w], values[w]->0 % 8))
            } else {
                None
            },
    )
}

/// The witnesses of a region: where every window is known, each is the witness that the tables give
/// for its window, with the stored root; otherwise none is known.
pub open spec fn are_region_witnesses(
    witnesses: Seq<Option<WindowWitness>>,
    values: Seq<Option<int>>,
    lagrange_coeffs: Seq<[Fp; 8]>,
    us: Seq<[[u8; 32]; 8]>,
    zs: Seq<u64>,
) -> bool {
    &&& witnesses.len() == values.len()
    &&& forall|w: int|
        0 <= w < values.len() ==> match #[trigger] witnesses[w] {
            Some(witness) => all_known(values) && is_window_witness(
                witness,
                lagrange_coeffs[w]@,
                us[w]@[values[w]->0 % 8]@,
                zs[w],
                (values[w]->0 % 8) as usize,
            ),
            None => !all_known(values),
        }
}

/// The witnesses of a region satisfy the checks of their windows: the first coordinate is the
/// value of the interpolation polynomial, and the root squares to the shifted second coordinate.
pub proof fn lemma_region_satisfies_checks(
    witnesses: Seq<Option<WindowWitness>>,
    values: Seq<Option<int>>,
    lagrange_coeffs: Seq<[Fp; 8]>,
    us: Seq<[[u8; 32]; 8]>,
    zs: Seq<u64>,
    w: int,
)
    requires
        are_region_witnesses(witnesses, values, lagrange_coeffs, us, zs),
        all_known(values),
        0 <= w < values.len(),
    ensures
        witnesses[w] matches Some(witness) && {
            let window = values[w]->0 % 8;
            &&& (polynomial(residues(lagrange_coeffs[w]@), window, 8) - witness.x@)
                % PallasBase::p() == 0
            &&& (witness.u@ * witness.u@ - witness.y@ - zs[w]) % PallasBase::p() == 0
        },
{
    assert(witnesses[w] is Some);
    let window = values[w]->0 % 8;
    lemma_witness_satisfies_checks(
        witnesses[w]->0,
        lagrange_coeffs[w]@,
        us[w]@[window]@,
        zs[w],
        window as usize,
    );
}

/// The tables of a base are usable: the roots are canonical, and no point has a zero coordinate.
pub open spec fn are_tables(
    lagrange_coeffs: Seq<[Fp; 8]>,
    us: Seq<[[u8; 32]; 8]>,
    zs: Seq<u64>,
) -> bool {
    &&& lagrange_coeffs.len() == zs.len()
    &&& us.len() == zs.len()
    &&& forall|w: int, k: int|
        0 <= w < zs.len() && 0 <= k < 8 ==> #[trigger] is_table_entry(
            lagrange_coeffs[w]@,
            us[w]@,
            zs[w],
            k,
        )
}

/// The factor of the base in the table of window `w` of `count` at the value `k`.
pub open spec fn table_factor(count: nat, w: int, k: int) -> int {
    if w == count - 1 {
        k * pow2(3 * w as nat) - offset_sum(w as nat)
    } else {
        (k + 2) * pow2(3 * w as nat)
    }
}

/// The tables are those of a base: in every window, the interpolated first coordinate and the
/// second coordinate from the root are those of the multiple of the base.
pub open spec fn are_tables_of(
    base: Pt,
    lagrange_coeffs: Seq<[Fp; 8]>,
    us: Seq<[[u8; 32]; 8]>,
    zs: Seq<u64>,
) -> bool {
    forall|w: int, k: int|
        0 <= w < zs.len() && 0 <= k < 8 ==> #[trigger] table_point(
            lagrange_coeffs[w]@,
            us[w]@,
            zs[w],
            k,
        ) == smul::<Pallas>(table_factor(zs.len(), w, k), base)
}

/// The reconstructed witnesses are the computed points: with the tables of a base, the
/// coordinates of every witness are those of the point of its window, its root is the stored one,
/// and its second coordinate with the stored shift is the square of the root.
pub proof fn lemma_witnesses_are_window_points(
    base: Affine<Pallas>,
    lagrange_coeffs: Seq<[Fp; 8]>,
    us: Seq<[[u8; 32]; 8]>,
    zs: Seq<u64>,
    windows: Seq<usize>,
    witnesses: Seq<WindowWitness>,
    points: Seq<Affine<Pallas>>,
)
    requires
        on_curve::<Pallas>(base@),
        are_tables_of(base@, lagrange_coeffs, us, zs),
        zs.len() == windows.len(),
        forall|w: int| 0 <= w < windows.len() ==> #[trigger] windows[w] < H,
        witnesses.len() == windows.len(),
        forall|w: int|
            0 <= w < windows.len() ==> is_window_witness(
                #[trigger] witnesses[w],
                lagrange_coeffs[w]@,
                us[w]@[windows[w] as int]@,
                zs[w],
                windows[w],
            ),
        points.len() == windows.len(),
        forall|w: int|
            0 <= w < windows.len() ==> (#[trigger] points[w])@ == smul::<Pallas>(
                window_factor(windows, w),
                base@,
            ),
    ensures
        forall|w: int|
            0 <= w < windows.len() ==> {
                &&& (#[trigger] points[w])@ == (Pt::At { x: witnesses[w].x@, y: witnesses[w].y@ })
                &&& witnesses[w].u@ == bytes_value(us[w]@[windows[w] as int]@)
                &&& congruent(
                    witnesses[w].y@ + zs[w],
                    witnesses[w].u@ * witnesses[w].u@,
                    PallasBase::p(),
                )
            },
{
    let p = PallasBase::p();
    PallasBase::lemma_modulus();
    assert forall|w: int| 0 <= w < windows.len() implies {
        &&& (#[trigger] points[w])@ == (Pt::At { x: witnesses[w].x@, y: witnesses[w].y@ })
        &&& witnesses[w].u@ == bytes_value(us[w]@[windows[w] as int]@)
        &&& congruent(witnesses[w].y@ + zs[w], witnesses[w].u@ * witnesses[w].u@, p)
    } by {
        assert(windows[w] < H);
        let k = windows[w] as int;
        assert(is_window_witness(
            witnesses[w],
            lagrange_coeffs[w]@,
            us[w]@[k]@,
            zs[w],
            windows[w],
        ));
        assert(table_point(lagrange_coeffs[w]@, us[w]@, zs[w], k) == smul::<Pallas>(
            table_factor(zs.len(), w, k),
            base@,
        ));
        let (u, z) = (witnesses[w].u@, zs[w] as int);
        lemma_congruent_mod(u * u - z, p);
        lemma_congruent_ops(witnesses[w].y@, u * u - z, z, z, p);
    }
}

/// The root is canonical, and the point has no zero coordinate.
pub open spec fn is_table_entry(
    coefficients: Seq<Fp>,
    us: Seq<[u8; 32]>,
    z: u64,
    window: int,
) -> bool {
    &&& bytes_value(us[window]@) < PallasBase::p()
    &&& table_point(coefficients, us, z, window) matches Pt::At { x, y } && x != 0 && y != 0
}

impl Config {
    /// The columns fit together: both kinds of addition share their first summand, and neither
    /// the windows nor the roots share the output columns of addition.
    pub open spec fn is_consistent(
        window: Advice,
        u: Advice,
        add_config: AddConfig,
        add_incomplete_config: AddIncompleteConfig,
    ) -> bool {
        &&& add_config.x_p == add_incomplete_config.x_p
        &&& add_config.y_p == add_incomplete_config.y_p
        &&& window != add_config.x_qr
        &&& window != add_config.y_qr
        &&& u != add_config.x_qr
        &&& u != add_config.y_qr
    }

    /// The chip on chosen columns: it takes a selector and a fixed column, and adds two gates on
    /// the rows of the selector. The first is the range check of the running sum, and the second
    /// holds the constraints on the coordinates.
    pub fn configure(
        meta: &mut ConstraintSystem,
        lagrange_coeffs: [Fixed; 8],
        window: Advice,
        u: Advice,
        add_config: AddConfig,
        add_incomplete_config: AddIncompleteConfig,
    ) -> (r: Self)
        requires
            Self::is_consistent(window, u, add_config, add_incomplete_config),
            old(meta).selectors < usize::MAX,
            old(meta).fixed_columns < usize::MAX,
        ensures
            r.running_sum_config.q_range_check.0 == old(meta).selectors,
            r.running_sum_config.z == window,
            r.lagrange_coeffs == lagrange_coeffs,
            r.fixed_z.0 == old(meta).fixed_columns,
            r.window == window,
            r.u == u,
            r.add_config == add_config,
            r.add_incomplete_config == add_incomplete_config,
            final(meta).selectors == old(meta).selectors + 1,
            final(meta).fixed_columns == old(meta).fixed_columns + 1,
            final(meta).equality@.contains(window),
            final(meta).equality@.contains(u),
            forall|c: Advice| #[trigger]
                final(meta).equality@.contains(c) <==> old(meta).equality@.contains(c) || c
                    == window || c == u,
            final(meta).gates@.len() == old(meta).gates@.len() + 2,
            final(meta).gates@.drop_last().drop_last() == old(meta).gates@,
            is_range_check(r.running_sum_config, final(meta).gates@.drop_last().last()),
            final(meta).gates@.last().selector == r.running_sum_config.q_range_check,
            are_coords_checks(
                r,
                final(meta).gates@.last().constraints@,
                |cells: spec_fn(Query) -> int| running_word_of(r, cells),
            ),
    {
        let ghost e0 = meta.equality@;
        meta.enable_equality(window);
        let ghost e1 = meta.equality@;
        meta.enable_equality(u);
        proof {
            lemma_contains(e0, e1, window);
            lemma_contains(e1, meta.equality@, u);
        }
        let q_running_sum = meta.selector();
        let running_sum_config = RunningSumConfig::configure(meta, q_running_sum, window);
        let config = Config {
            running_sum_config,
            lagrange_coeffs,
            fixed_z: meta.fixed_column(),
            window,
            u,
            add_config,
            add_incomplete_config,
        };
        config.running_sum_coords_gate(meta);
        config
    }

    /// Adds the constraints on the coordinates of every window of a running sum.
    pub fn running_sum_coords_gate(&self, meta: &mut ConstraintSystem)
        ensures
            final(meta).selectors == old(meta).selectors,
            final(meta).fixed_columns == old(meta).fixed_columns,
            final(meta).equality == old(meta).equality,
            final(meta).gates@.len() == old(meta).gates@.len() + 1,
            final(meta).gates@.drop_last() == old(meta).gates@,
            final(meta).gates@.last().selector == self.running_sum_config.q_range_check,
            are_coords_checks(
                *self,
                final(meta).gates@.last().constraints@,
                |cells: spec_fn(Query) -> int| running_word_of(*self, cells),
            ),
    {
        let z_cur = Expression::advice(self.window, 0);
        let z_next = Expression::advice(self.window, 1);
        let word = z_cur.minus(z_next.times(Expression::constant(8)));
        let ghost value = |cells: spec_fn(Query) -> int| running_word_of(*self, cells);
        let constraints = self.coords_check(&word);
        proof {
            let by_word = |cells: spec_fn(Query) -> int| word.value(cells);
            assert(are_coords_checks(*self, constraints@, by_word));
            assert forall|cells: spec_fn(Query) -> int| #[trigger] constraints@[0].value(cells)
                == polynomial(coefficient_cells(*self, cells), value(cells), 8) - cells(
                Query::Advice(self.add_config.x_p, 0),
            ) by {
                assert(by_word(cells) == value(cells));
            }
        }
        meta.create_gate(
            Gate { selector: self.running_sum_config.q_range_check, constraints },
        );
        assert(meta.gates@.drop_last() =~= old(meta).gates@);
    }

    /// The constraints on the coordinates of a window.
    pub fn coords_check(&self, window: &Expression) -> (r: Vec<Expression>)
        ensures
            are_coords_checks(
                *self,
                r@,
                |cells: spec_fn(Query) -> int| window.value(cells),
            ),
    {
        let mut interpolated_x = Expression::constant(0);
        let mut i: usize = 0;
        while i < H
            invariant
                i <= H,
                forall|cells: spec_fn(Query) -> int| #[trigger]
                    interpolated_x.value(cells) == polynomial(
                        coefficient_cells(*self, cells),
                        window.value(cells),
                        i as nat,
                    ),
            decreases H - i,
        {
            let power = window_power(window, i);
            let term = power.times(Expression::fixed(self.lagrange_coeffs[i]));
            let ghost before = interpolated_x;
            interpolated_x = interpolated_x.plus(term);
            proof {
                assert forall|cells: spec_fn(Query) -> int| #[trigger]
                    interpolated_x.value(cells) == polynomial(
                        coefficient_cells(*self, cells),
                        window.value(cells),
                        (i + 1) as nat,
                    ) by {
                    assert(before.value(cells) == polynomial(
                        coefficient_cells(*self, cells),
                        window.value(cells),
                        i as nat,
                    ));
                    assert(term.value(cells) == pow(window.value(cells), i as nat)
                        * coefficient_cells(*self, cells)[i as int]);
                }
            }
            i += 1;
        }
        let x_p = Expression::advice(self.add_config.x_p, 0);
        let y_p = Expression::advice(self.add_config.y_p, 0);
        let x_check = interpolated_x.minus(x_p.copy());
        let y_check = Expression::advice(self.u, 0).square().minus(y_p.copy()).minus(
            Expression::fixed(self.fixed_z),
        );
        let cube = x_p.square().times(x_p);
        let on_curve = y_p.square().minus(cube).minus(Expression::constant(5));
        vec![x_check, y_check, on_curve]
    }

    /// The writes of the fixed constants of all windows.
    pub fn assign_fixed_constants(
        &self,
        offset: usize,
        lagrange_coeffs: &Vec<[Fp; 8]>,
        zs: &Vec<u64>,
        coords_check_toggle: Selector,
    ) -> (r: Vec<Assignment>)
        requires
            lagrange_coeffs@.len() == zs@.len(),
            offset + zs@.len() <= usize::MAX,
        ensures
            are_constants(
                *self,
                offset as int,
                lagrange_coeffs@,
                zs@,
                coords_check_toggle,
                zs@.len(),
                r@,
            ),
    {
        let mut r: Vec<Assignment> = Vec::new();
        let mut w: usize = 0;
        while w < zs.len()
            invariant
                w <= zs@.len(),
                lagrange_coeffs@.len() == zs@.len(),
                offset + zs@.len() <= usize::MAX,
                are_constants(
                    *self,
                    offset as int,
                    lagrange_coeffs@,
                    zs@,
                    coords_check_toggle,
                    w as nat,
                    r@,
                ),
            decreases zs@.len() - w,
        {
            let ghost before = r@;
            let row = w + offset;
            r.push(Assignment::Enable(coords_check_toggle, row));
            let mut k: usize = 0;
            while k < H
                invariant
                    k <= H,
                    w < lagrange_coeffs@.len(),
                    r@ == before + seq![Assignment::Enable(coords_check_toggle, row)] + Seq::new(
                        k as nat,
                        |j: int|
                            Assignment::Fixed(
                                self.lagrange_coeffs@[j],
                                row,
                                lagrange_coeffs@[w as int]@[j],
                            ),
                    ),
                decreases H - k,
            {
                r.push(Assignment::Fixed(self.lagrange_coeffs[k], row, lagrange_coeffs[w][k]));
                k += 1;
            }
            let z: Fp = Fe::from_u64(zs[w]);
            r.push(Assignment::Fixed(self.fixed_z, row, z));
            proof {
                let n = before.len() as int;
                assert(r@.take(r@.len() - 10) =~= before);
                assert(r@.skip(r@.len() - 10) =~= window_constants(
                    *self,
                    offset + w,
                    lagrange_coeffs@[w as int]@,
                    z,
                    coords_check_toggle,
                ));
            }
            w += 1;
        }
        r
    }

    /// The writes of the witness of a window, and the cells of its point.
    pub fn process_window(&self, offset: usize, w: usize, witness: Option<WindowWitness>) -> (r: (
        Vec<Assignment>,
        PointCells,
    ))
        requires
            is_nonzero(witness),
            offset + w <= usize::MAX,
        ensures
            r.0@ == window_writes(*self, offset + w, witness),
            r.1 == window_cells(*self, offset + w, witness),
    {
        let row = offset + w;
        let (x, y, u, value) = match witness {
            Some(v) => (Some(v.x), Some(v.y), Some(v.u), Some((v.x, v.y))),
            None => (None, None, None, None),
        };
        let mut writes: Vec<Assignment> = Vec::new();
        writes.push(Assignment::Advice(self.add_config.x_p, row, x));
        writes.push(Assignment::Advice(self.add_config.y_p, row, y));
        writes.push(Assignment::Advice(self.u, row, u));
        assert(writes@ =~= window_writes(*self, offset + w, witness));
        (
            writes,
            PointCells { x: self.add_config.x_p, y: self.add_config.y_p, row, value },
        )
    }
}

impl Config {
    /// The sum of the first window with the windows between it and the last, by incomplete
    /// additions.
    pub fn add_incomplete(
        &self,
        offset: usize,
        first: PointCells,
        witnesses: &Vec<Option<WindowWitness>>,
    ) -> (r: Result<(Vec<Assignment>, PointCells), SynthesisError>)
        requires
            witnesses@.len() >= 1,
            offset + witnesses@.len() <= usize::MAX,
            forall|w: int| 0 <= w < witnesses@.len() ==> is_nonzero(#[trigger] witnesses@[w]),
            first.point() == witness_point(witnesses@[0]),
        ensures
            r is Err <==> accumulated(
                witness_points(witnesses@),
                (witnesses@.len() - 1) as nat,
            ) is None,
            r matches Ok((writes, acc)) ==> {
                &&& accumulated(witness_points(witnesses@), (witnesses@.len() - 1) as nat) == Some(
                    acc.point(),
                )
                &&& are_additions(
                    *self,
                    offset as int,
                    witnesses@,
                    first,
                    (witnesses@.len() - 1) as nat,
                    writes@,
                    acc,
                )
            },
    {
        let n = witnesses.len();
        let ghost points = witness_points(witnesses@);
        let mut writes: Vec<Assignment> = Vec::new();
        let mut acc = first;
        let mut w: usize = 1;
        while w < n - 1
            invariant
                n == witnesses@.len(),
                n >= 1,
                offset + n <= usize::MAX,
                1 <= w,
                w <= n - 1 || w == 1,
                points == witness_points(witnesses@),
                forall|k: int| 0 <= k < n ==> is_nonzero(#[trigger] witnesses@[k]),
                accumulated(points, w as nat) == Some(acc.point()),
                are_additions(
                    *self,
                    offset as int,
                    witnesses@,
                    first,
                    w as nat,
                    writes@,
                    acc,
                ),
            decreases n - w,
        {
            assert(is_nonzero(witnesses@[w as int]));
            let (mut window, mul_b) = self.process_window(offset, w, witnesses[w]);
            let ghost (before, prev) = (writes@, acc);
            let ghost cells = window_writes(*self, offset + w, witnesses@[w as int]);
            writes.append(&mut window);
            writes.push(Assignment::AddIncomplete(mul_b, acc, offset + w));
            assert(mul_b.point() == points[w as int]);
            match add_known(mul_b.value, acc.value) {
                None => {
                    proof {
                        lemma_undefined(points, (w + 1) as nat, (n - 1) as nat);
                    }
                    return Err(SynthesisError);
                },
                Some(value) => {
                    acc = PointCells {
                        x: self.add_incomplete_config.x_qr,
                        y: self.add_incomplete_config.y_qr,
                        row: offset + w + 1,
                        value,
                    };
                },
            }
            proof {
                assert(writes@.take(writes@.len() - 4) =~= before);
                assert(writes@.skip(writes@.len() - 4) =~= cells.push(
                    Assignment::AddIncomplete(mul_b, prev, (offset + w) as usize),
                ));
                assert(is_addition(
                    *self,
                    offset + w,
                    witnesses@[w as int],
                    writes@.skip(writes@.len() - 4),
                    prev,
                ));
                assert(are_additions(
                    *self,
                    offset as int,
                    witnesses@,
                    first,
                    w as nat,
                    writes@.take(writes@.len() - 4),
                    prev,
                ));
            }
            w += 1;
        }
        Ok((writes, acc))
    }

    /// What is written for the multiplication of a fixed base, given by its tables, with a
    /// scalar: the constants, the windows and the incomplete additions of all windows but the
    /// last.
    pub fn assign_region_inner(
        &self,
        offset: usize,
        scalar: &ScalarFixed,
        lagrange_coeffs: &Vec<[Fp; 8]>,
        us: &Vec<[[u8; 32]; 8]>,
        zs: &Vec<u64>,
        coords_check_toggle: Selector,
    ) -> (r: Result<RegionPlan, SynthesisError>)
        requires
            zs@.len() >= 1,
            are_tables(lagrange_coeffs@, us@, zs@),
            scalar.is_assigned(),
            scalar.window_values().len() == zs@.len(),
            offset + zs@.len() <= usize::MAX,
        ensures
            r is Err <==> accumulated(
                region_points(scalar.window_values(), lagrange_coeffs@, us@, zs@),
                (zs@.len() - 1) as nat,
            ) is None,
            r matches Ok(plan) ==> {
                let n = zs@.len() as int;
                let points = region_points(scalar.window_values(), lagrange_coeffs@, us@, zs@);
                &&& plan.witnesses@.len() == n
                &&& are_region_witnesses(
                    plan.witnesses@,
                    scalar.window_values(),
                    lagrange_coeffs@,
                    us@,
                    zs@,
                )
                &&& witness_points(plan.witnesses@) == points
                &&& are_constants(
                    *self,
                    offset as int,
                    lagrange_coeffs@,
                    zs@,
                    coords_check_toggle,
                    zs@.len(),
                    plan.constants@,
                )
                &&& plan.first@ == window_writes(*self, offset as int, plan.witnesses@[0])
                &&& are_additions(
                    *self,
                    offset as int,
                    plan.witnesses@,
                    window_cells(*self, offset as int, plan.witnesses@[0]),
                    (n - 1) as nat,
                    plan.additions@,
                    plan.acc,
                )
                &&& plan.last@ == window_writes(
                    *self,
                    offset + n - 1,
                    plan.witnesses@[n - 1],
                )
                &&& accumulated(points, (n - 1) as nat) == Some(plan.acc.point())
                &&& plan.mul_b == window_cells(*self, offset + n - 1, plan.witnesses@[n - 1])
            },
    {
        let n = zs.len();
        let constants = self.assign_fixed_constants(
            offset,
            lagrange_coeffs,
            zs,
            coords_check_toggle,
        );
        let witnesses = region_witnesses(scalar, lagrange_coeffs, us, zs);
        assert(is_nonzero(witnesses@[0]));
        assert(is_nonzero(witnesses@[n - 1]));
        let (first, start) = self.process_window(offset, 0, witnesses[0]);
        let (additions, acc) = match self.add_incomplete(offset, start, &witnesses) {
            Ok(done) => done,
            Err(error) => {
                return Err(error);
            },
        };
        let (last, mul_b) = self.process_window(offset, n - 1, witnesses[n - 1]);
        Ok(RegionPlan { witnesses, constants, first, additions, last, acc, mul_b })
    }
}

/// The witnesses of all windows: they are known where every window is.
fn region_witnesses(
    scalar: &ScalarFixed,
    lagrange_coeffs: &Vec<[Fp; 8]>,
    us: &Vec<[[u8; 32]; 8]>,
    zs: &Vec<u64>,
) -> (r: Vec<Option<WindowWitness>>)
    requires
        are_tables(lagrange_coeffs@, us@, zs@),
        scalar.is_assigned(),
        scalar.window_values().len() == zs@.len(),
    ensures
        r@.len() == zs@.len(),
        are_region_witnesses(r@, scalar.window_values(), lagrange_coeffs@, us@, zs@),
        witness_points(r@) == region_points(
            scalar.window_values(),
            lagrange_coeffs@,
            us@,
            zs@,
        ),
        forall|w: int| 0 <= w < r@.len() ==> is_nonzero(#[trigger] r@[w]),
{
    let ghost values = scalar.window_values();
    let ghost points = region_points(values, lagrange_coeffs@, us@, zs@);
    let n = zs.len();
    let windows = scalar.windows_usize();
    let mut known: Vec<usize> = Vec::new();
    let mut r: Vec<Option<WindowWitness>> = Vec::new();
    let mut w: usize = 0;
    while w < n
        invariant
            w <= n,
            n == zs@.len(),
            n == values.len(),
            values == scalar.window_values(),
            windows@.len() == n,
            forall|k: int| 0 <= k < n ==> #[trigger] windows@[k] == low_bits(values[k]),
            known@.len() <= w,
            known@.len() == w ==> forall|k: int|
                0 <= k < w ==> #[trigger] values[k] is Some && known@[k] == values[k]->0 % 8,
            known@.len() < w ==> !all_known(values),
        decreases n - w,
    {
        assert(windows@[w as int] == low_bits(values[w as int]));
        match windows[w] {
            Some(window) => {
                if known.len() == w {
                    known.push(window);
                }
            },
            None => {},
        }
        w += 1;
    }
    if known.len() == n {
        proof {
            assert forall|k: int| 0 <= k < n implies #[trigger] known@[k] < H && bytes_value(
                us@[k]@[known@[k] as int]@,
            ) < PallasBase::p() by {
                assert(values[k] is Some);
                assert(is_table_entry(lagrange_coeffs@[k]@, us@[k]@, zs@[k], known@[k] as int));
            }
        }
        let witnesses = reconstruct_window_witnesses(lagrange_coeffs, us, zs, &known);
        w = 0;
        while w < n
            invariant
                w <= n,
                n == zs@.len(),
                n == values.len(),
                known@.len() == n,
                us@.len() == n,
                lagrange_coeffs@.len() == n,
                witnesses@.len() == n,
                are_tables(lagrange_coeffs@, us@, zs@),
                all_known(values),
                points == region_points(values, lagrange_coeffs@, us@, zs@),
                forall|k: int|
                    0 <= k < n ==> #[trigger] values[k] is Some && known@[k] == values[k]->0 % 8,
                forall|k: int|
                    0 <= k < n ==> is_window_witness(
                        #[trigger] witnesses@[k],
                        lagrange_coeffs@[k]@,
                        us@[k]@[known@[k] as int]@,
                        zs@[k],
                        known@[k],
                    ),
                r@.len() == w,
                forall|k: int|
                    0 <= k < w ==> is_nonzero(#[trigger] r@[k]) && witness_point(r@[k])
                        == points[k],
                forall|k: int|
                    0 <= k < w ==> #[trigger] r@[k] == Some(witnesses@[k]),
            decreases n - w,
        {
            r.push(Some(witnesses[w]));
            proof {
                let k = w as int;
                assert(values[k] is Some);
                assert(is_window_witness(
                    witnesses@[k],
                    lagrange_coeffs@[k]@,
                    us@[k]@[known@[k] as int]@,
                    zs@[k],
                    known@[k],
                ));
                assert(is_table_entry(lagrange_coeffs@[k]@, us@[k]@, zs@[k], known@[k] as int));
            }
            w += 1;
        }
    } else {
        w = 0;
        while w < n
            invariant
                w <= n,
                n == values.len(),
                !all_known(values),
                points == region_points(values, lagrange_coeffs@, us@, zs@),
                r@.len() == w,
                forall|k: int|
                    0 <= k < w ==> is_nonzero(#[trigger] r@[k]) && witness_point(r@[k])
                        == points[k],
            decreases n - w,
        {
            r.push(None);
            w += 1;
        }
    }
    assert(witness_points(r@) =~= points);
    r
}

/// Once an addition is not defined, the sum is not.
proof fn lemma_undefined(points: Seq<Option<Pt>>, i: nat, count: nat)
    requires
        i <= count,
        accumulated(points, i) is None,
    ensures
        accumulated(points, count) is None,
    decreases count,
{
    if i < count {
        lemma_undefined(points, i, (count - 1) as nat);
    }
}

/// The sum of known points; `None` where it is not defined.
fn add_known(p: Option<(Fp, Fp)>, q: Option<(Fp, Fp)>) -> (r: Option<Option<(Fp, Fp)>>)
    ensures
        ({
            let a = (PointCells { x: Advice(0), y: Advice(0), row: 0, value: p }).point();
            let b = (PointCells { x: Advice(0), y: Advice(0), row: 0, value: q }).point();
            match r {
                Some(value) => known_sum(a, b) == Some(
                    (PointCells { x: Advice(0), y: Advice(0), row: 0, value }).point(),
                ),
                None => known_sum(a, b) is None,
            }
        }),
{
    match (p, q) {
        (Some((x1, y1)), Some((x2, y2))) => {
            let difference = x2.sub(x1);
            proof {
                PallasBase::lemma_modulus();
                x1.lemma_view();
                x2.lemma_view();
                lemma_congruent_difference(x2@, x1@, PallasBase::p());
                if difference@ == 0 {
                    lemma_congruent_small(x2@, x1@, PallasBase::p());
                }
            }
            match difference.invert() {
                Some(inverse) => {
                    let (x, y) = affine_add::<Pallas>(x1, y1, x2, y2, inverse);
                    Some(Some((x, y)))
                },
                None => None,
            }
        },
        _ => Some(None),
    }
}

/// Enabling a column changes which columns are enabled by this one.
proof fn lemma_contains(before: Seq<Advice>, after: Seq<Advice>, column: Advice)
    requires
        after == if before.contains(column) {
            before
        } else {
            before.push(column)
        },
    ensures
        forall|c: Advice| #[trigger] after.contains(c) <==> before.contains(c) || c == column,
{
    assert forall|c: Advice| #[trigger] after.contains(c) <==> before.contains(c) || c
        == column by {
        if !before.contains(column) {
            assert(after == before.push(column));
            assert(after[before.len() as int] == column);
            if before.contains(c) {
                let i = choose|i: int| 0 <= i < before.len() && before[i] == c;
                assert(after[i] == c);
            }
            if after.contains(c) {
                let i = choose|i: int| 0 <= i < after.len() && after[i] == c;
                if i < before.len() {
                    assert(before[i] == c);
                }
            }
        }
    }
}

/// The power of an expression.
fn window_power(window: &Expression, exponent: usize) -> (r: Expression)
    ensures
        forall|cells: spec_fn(Query) -> int| #[trigger]
            r.value(cells) == pow(window.value(cells), exponent as nat),
{
    let mut r = Expression::constant(1);
    let mut k: usize = 0;
    proof {
        assert forall|cells: spec_fn(Query) -> int| #[trigger] r.value(cells) == pow(
            window.value(cells),
            0,
        ) by {
            lemma_pow0(window.value(cells));
        }
    }
    while k < exponent
        invariant
            k <= exponent,
            forall|cells: spec_fn(Query) -> int| #[trigger]
                r.value(cells) == pow(window.value(cells), k as nat),
        decreases exponent - k,
    {
        let ghost before = r;
        r = r.times(window.copy());
        proof {
            assert forall|cells: spec_fn(Query) -> int| #[trigger] r.value(cells) == pow(
                window.value(cells),
                (k + 1) as nat,
            ) by {
                let v = window.value(cells);
                assert(before.value(cells) == pow(v, k as nat));
                lemma_pow1(v);
                lemma_pow_adds(v, k as nat, 1);
            }
        }
        k += 1;
    }
    r
}

} // verus!
