//! Constraint expressions over the cells of a circuit.
use crate::field::{Fe, Fp};
use vstd::prelude::*;

verus! {

/// A column of witnessed values.
#[derive(Clone, Copy, Debug, PartialEq, Eq, Structural)]
pub struct Advice(pub usize);

/// A column of fixed values.
#[derive(Clone, Copy, Debug, PartialEq, Eq, Structural)]
pub struct Fixed(pub usize);

/// A selector of rows.
#[derive(Clone, Copy, Debug, PartialEq, Eq, Structural)]
pub struct Selector(pub usize);

/// A cell that a constraint reads, relative to the row that it is checked at.
#[derive(Clone, Copy, Debug, PartialEq, Eq, Structural)]
pub enum Query {
    /// A selector.
    Selector(Selector),
    /// A fixed column at the current row.
    Fixed(Fixed),
    /// An advice column at a row.
    Advice(Advice, i32),
}

/// A polynomial in the cells.
#[derive(Debug)]
pub enum Expression {
    /// A constant.
    Constant(Fp),
    /// A cell.
    Cell(Query),
    /// A negation.
    Negated(Box<Expression>),
    /// A sum.
    Sum(Box<Expression>, Box<Expression>),
    /// A product.
    Product(Box<Expression>, Box<Expression>),
}

impl Expression {
    /// The value of the polynomial, as an integer that stands for its residue.
    pub open spec fn value(self, cells: spec_fn(Query) -> int) -> int
        decreases self,
    {
        match self {
            Expression::Constant(c) => c@,
            Expression::Cell(query) => cells(query),
            Expression::Negated(a) => -a.value(cells),
            Expression::Sum(a, b) => a.value(cells) + b.value(cells),
            Expression::Product(a, b) => a.value(cells) * b.value(cells),
        }
    }

    /// A copy of the polynomial.
    pub fn copy(&self) -> (r: Self)
        ensures
            r == *self,
        decreases self,
    {
        match self {
            Expression::Constant(c) => Expression::Constant(*c),
            Expression::Cell(query) => Expression::Cell(*query),
            Expression::Negated(a) => Expression::Negated(Box::new(a.copy())),
            Expression::Sum(a, b) => Expression::Sum(Box::new(a.copy()), Box::new(b.copy())),
            Expression::Product(a, b) => Expression::Product(
                Box::new(a.copy()),
                Box::new(b.copy()),
            ),
        }
    }

    /// The sum.
    pub fn plus(self, other: Self) -> (r: Self)
        ensures
            forall|cells: spec_fn(Query) -> int| #[trigger]
                r.value(cells) == self.value(cells) + other.value(cells),
    {
        Expression::Sum(Box::new(self), Box::new(other))
    }

    /// The difference.
    pub fn minus(self, other: Self) -> (r: Self)
        ensures
            forall|cells: spec_fn(Query) -> int| #[trigger]
                r.value(cells) == self.value(cells) - other.value(cells),
    {
        let opposite = Expression::Negated(Box::new(other));
        let r = Expression::Sum(Box::new(self), Box::new(opposite));
        proof {
            assert forall|cells: spec_fn(Query) -> int| #[trigger] r.value(cells) == self.value(
                cells,
            ) - other.value(cells) by {
                assert(opposite.value(cells) == -other.value(cells));
            }
        }
        r
    }

    /// The product.
    pub fn times(self, other: Self) -> (r: Self)
        ensures
            forall|cells: spec_fn(Query) -> int| #[trigger]
                r.value(cells) == self.value(cells) * other.value(cells),
    {
        Expression::Product(Box::new(self), Box::new(other))
    }

    /// The square.
    pub fn square(&self) -> (r: Self)
        ensures
            forall|cells: spec_fn(Query) -> int| #[trigger]
                r.value(cells) == self.value(cells) * self.value(cells),
    {
        self.copy().times(self.copy())
    }

    /// A small constant.
    pub fn constant(c: u64) -> (r: Self)
        ensures
            forall|cells: spec_fn(Query) -> int| #[trigger] r.value(cells) == c,
    {
        Expression::Constant(Fe::from_u64(c))
    }

    /// An advice cell.
    pub fn advice(column: Advice, rotation: i32) -> (r: Self)
        ensures
            forall|cells: spec_fn(Query) -> int| #[trigger]
                r.value(cells) == cells(Query::Advice(column, rotation)),
    {
        Expression::Cell(Query::Advice(column, rotation))
    }

    /// A fixed cell at the current row.
    pub fn fixed(column: Fixed) -> (r: Self)
        ensures
            forall|cells: spec_fn(Query) -> int| #[trigger]
                r.value(cells) == cells(Query::Fixed(column)),
    {
        Expression::Cell(Query::Fixed(column))
    }
}

/// Constraints that hold at the rows of a selector.
#[derive(Debug)]
pub struct Gate {
    /// The selector.
    pub selector: Selector,
    /// The polynomials that vanish.
    pub constraints: Vec<Expression>,
}

/// The columns, selectors and gates of a circuit.
#[derive(Debug)]
pub struct ConstraintSystem {
    /// The number of selectors.
    pub selectors: usize,
    /// The number of fixed columns.
    pub fixed_columns: usize,
    /// The advice columns whose cells can be copied.
    pub equality: Vec<Advice>,
    /// The gates.
    pub gates: Vec<Gate>,
}

impl ConstraintSystem {
    /// Lets the cells of a column be copied.
    pub fn enable_equality(&mut self, column: Advice)
        ensures
            final(self).selectors == old(self).selectors,
            final(self).fixed_columns == old(self).fixed_columns,
            final(self).gates == old(self).gates,
            final(self).equality@ == if old(self).equality@.contains(column) {
                old(self).equality@
            } else {
                old(self).equality@.push(column)
            },
    {
        let mut i: usize = 0;
        while i < self.equality.len()
            invariant
                i <= self.equality@.len(),
                *self == *old(self),
                forall|k: int| 0 <= k < i ==> #[trigger] self.equality@[k] != column,
            decreases self.equality@.len() - i,
        {
            if self.equality[i] == column {
                assert(self.equality@.contains(column));
                return;
            }
            i += 1;
        }
        self.equality.push(column);
    }

    /// A new selector.
    pub fn selector(&mut self) -> (r: Selector)
        requires
            old(self).selectors < usize::MAX,
        ensures
            r.0 == old(self).selectors,
            final(self).selectors == old(self).selectors + 1,
            final(self).fixed_columns == old(self).fixed_columns,
            final(self).gates == old(self).gates,
            final(self).equality == old(self).equality,
    {
        let r = Selector(self.selectors);
        self.selectors = self.selectors + 1;
        r
    }

    /// A new fixed column.
    pub fn fixed_column(&mut self) -> (r: Fixed)
        requires
            old(self).fixed_columns < usize::MAX,
        ensures
            r.0 == old(self).fixed_columns,
            final(self).fixed_columns == old(self).fixed_columns + 1,
            final(self).selectors == old(self).selectors,
            final(self).gates == old(self).gates,
            final(self).equality == old(self).equality,
    {
        let r = Fixed(self.fixed_columns);
        self.fixed_columns = self.fixed_columns + 1;
        r
    }

    /// Adds a gate.
    pub fn create_gate(&mut self, gate: Gate)
        ensures
            final(self).gates@ == old(self).gates@.push(gate),
            final(self).selectors == old(self).selectors,
            final(self).fixed_columns == old(self).fixed_columns,
            final(self).equality == old(self).equality,
    {
        self.gates.push(gate);
    }
}

} // verus!
