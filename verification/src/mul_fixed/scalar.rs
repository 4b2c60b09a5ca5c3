//! The windows of witnessed scalars.
use crate::field::congruence::{lemma_congruent_mod, lemma_congruent_ops};
use crate::field::{Fe, Fp, Fq, Modulus, PallasBase, VestaBase};
use vstd::prelude::*;

verus! {

/// A full-width scalar, as three-bit windows once it is witnessed. A window is `None` where its
/// value is not known.
#[derive(Clone, Debug)]
pub struct EccScalarFixed {
    /// The windows.
    pub windows: Option<Vec<Option<Fp>>>,
}

/// A short signed scalar, with the running sum of its magnitude once it is constrained.
#[derive(Clone, Debug)]
pub struct EccScalarFixedShort {
    /// The running sum.
    pub running_sum: Option<Vec<Option<Fp>>>,
}

/// A base field element that is used as a scalar, with its running sum.
#[derive(Clone, Debug)]
pub struct EccBaseFieldElemFixed {
    /// The running sum.
    pub running_sum: Vec<Option<Fp>>,
}

/// A scalar of a fixed-base multiplication.
#[derive(Clone, Debug)]
pub enum ScalarFixed {
    /// A full-width scalar.
    FullWidth(EccScalarFixed),
    /// A short signed scalar.
    Short(EccScalarFixedShort),
    /// A base field element.
    BaseFieldElem(EccBaseFieldElemFixed),
}

impl From<EccScalarFixed> for ScalarFixed {
    fn from(scalar: EccScalarFixed) -> (r: Self) {
        ScalarFixed::FullWidth(scalar)
    }
}

impl vstd::std_specs::convert::FromSpecImpl<EccScalarFixed> for ScalarFixed {
    open spec fn obeys_from_spec() -> bool {
        true
    }

    open spec fn from_spec(scalar: EccScalarFixed) -> Self {
        ScalarFixed::FullWidth(scalar)
    }
}

impl From<EccScalarFixedShort> for ScalarFixed {
    fn from(scalar: EccScalarFixedShort) -> (r: Self) {
        ScalarFixed::Short(scalar)
    }
}

impl vstd::std_specs::convert::FromSpecImpl<EccScalarFixedShort> for ScalarFixed {
    open spec fn obeys_from_spec() -> bool {
        true
    }

    open spec fn from_spec(scalar: EccScalarFixedShort) -> Self {
        ScalarFixed::Short(scalar)
    }
}

impl From<EccBaseFieldElemFixed> for ScalarFixed {
    fn from(scalar: EccBaseFieldElemFixed) -> (r: Self) {
        ScalarFixed::BaseFieldElem(scalar)
    }
}

impl vstd::std_specs::convert::FromSpecImpl<EccBaseFieldElemFixed> for ScalarFixed {
    open spec fn obeys_from_spec() -> bool {
        true
    }

    open spec fn from_spec(scalar: EccBaseFieldElemFixed) -> Self {
        ScalarFixed::BaseFieldElem(scalar)
    }
}

/// The window between two values of a running sum, where both are known.
pub open spec fn running_word(cur: Option<Fp>, next: Option<Fp>) -> Option<int> {
    match (cur, next) {
        (Some(a), Some(b)) => Some((a@ - 8 * b@) % PallasBase::p()),
        _ => None,
    }
}

/// The windows of a running sum.
pub open spec fn running_windows(zs: Seq<Option<Fp>>) -> Seq<Option<int>> {
    Seq::new((zs.len() - 1) as nat, |i: int| running_word(zs[i], zs[i + 1]))
}

/// The residue of a value, where it is known.
pub open spec fn known(value: Option<Fp>) -> Option<int> {
    match value {
        Some(v) => Some(v@),
        None => None,
    }
}

impl ScalarFixed {
    /// The scalar has been witnessed, and a running sum has a start.
    pub open spec fn is_assigned(self) -> bool {
        match self {
            ScalarFixed::FullWidth(scalar) => scalar.windows is Some,
            ScalarFixed::Short(scalar) => scalar.running_sum is Some
                && scalar.running_sum->0@.len() > 0,
            ScalarFixed::BaseFieldElem(scalar) => scalar.running_sum@.len() > 0,
        }
    }

    /// The windows of the scalar, where they are known.
    pub open spec fn window_values(self) -> Seq<Option<int>> {
        match self {
            ScalarFixed::FullWidth(scalar) => Seq::new(
                scalar.windows->0@.len(),
                |i: int| known(scalar.windows->0@[i]),
            ),
            ScalarFixed::Short(scalar) => running_windows(scalar.running_sum->0@),
            ScalarFixed::BaseFieldElem(scalar) => running_windows(scalar.running_sum@),
        }
    }

    /// The windows of the scalar as elements of the scalar field.
    pub fn windows_field(&self) -> (r: Vec<Option<Fq>>)
        requires
            self.is_assigned(),
        ensures
            r@.len() == self.window_values().len(),
            forall|i: int|
                0 <= i < r@.len() ==> is_window_of(#[trigger] r@[i], self.window_values()[i]),
    {
        match self {
            ScalarFixed::FullWidth(scalar) => {
                let windows = scalar.windows.as_ref().unwrap();
                let mut r: Vec<Option<Fq>> = Vec::new();
                let mut i: usize = 0;
                while i < windows.len()
                    invariant
                        i <= windows@.len(),
                        r@.len() == i,
                        forall|k: int|
                            0 <= k < i ==> is_window_of(#[trigger] r@[k], known(windows@[k])),
                    decreases windows@.len() - i,
                {
                    let window = match windows[i] {
                        Some(value) => Some(to_scalar(value)),
                        None => None,
                    };
                    r.push(window);
                    i += 1;
                }
                r
            },
            ScalarFixed::Short(scalar) => running_sum_to_windows(
                scalar.running_sum.as_ref().unwrap(),
            ),
            ScalarFixed::BaseFieldElem(scalar) => running_sum_to_windows(&scalar.running_sum),
        }
    }

    /// The lowest three bits of every window.
    pub fn windows_usize(&self) -> (r: Vec<Option<usize>>)
        requires
            self.is_assigned(),
        ensures
            r@.len() == self.window_values().len(),
            forall|i: int|
                0 <= i < r@.len() ==> #[trigger] r@[i] == low_bits(self.window_values()[i]),
    {
        let windows = self.windows_field();
        let mut r: Vec<Option<usize>> = Vec::new();
        let mut i: usize = 0;
        let ghost values = self.window_values();
        while i < windows.len()
            invariant
                i <= windows@.len(),
                windows@.len() == values.len(),
                forall|k: int| 0 <= k < windows@.len() ==> is_window_of(#[trigger] windows@[k], values[k]),
                r@.len() == i,
                forall|k: int| 0 <= k < i ==> #[trigger] r@[k] == low_bits(values[k]),
            decreases windows@.len() - i,
        {
            assert(is_window_of(windows@[i as int], values[i as int]));
            let index = match windows[i] {
                Some(value) => {
                    let limbs = value.to_limbs();
                    proof {
                        crate::field::limbs::lemma_limbs_value(limbs, limbs);
                        lemma_low_limb(value@, limbs);
                    }
                    Some((limbs[0] % 8) as usize)
                },
                None => None,
            };
            r.push(index);
            i += 1;
        }
        r
    }
}

/// A scalar with the value of a window.
pub open spec fn is_window_of(scalar: Option<Fq>, value: Option<int>) -> bool {
    match (scalar, value) {
        (Some(s), Some(v)) => s@ == v,
        (None, None) => true,
        _ => false,
    }
}

/// The lowest three bits of a window.
pub open spec fn low_bits(value: Option<int>) -> Option<usize> {
    match value {
        Some(v) => Some((v % 8) as usize),
        None => None,
    }
}

/// The lowest three bits of a value are those of its lowest limb.
proof fn lemma_low_limb(value: int, limbs: crate::field::limbs::Limbs)
    requires
        crate::field::limbs::limbs_value(limbs) == value,
    ensures
        value % 8 == limbs[0] as int % 8,
{
    let (l1, l2, l3) = (limbs[1] as int, limbs[2] as int, limbs[3] as int);
    let k = 0x2000_0000_0000_0000 * (l1 + 0x1_0000_0000_0000_0000 * (l2 + 0x1_0000_0000_0000_0000
        * l3));
    assert(value == limbs[0] + 8 * k);
}

/// A base field element as a scalar: the base field is the smaller one.
fn to_scalar(value: Fp) -> (r: Fq)
    ensures
        r@ == value@,
{
    proof {
        value.lemma_view();
        lemma_base_below_scalar();
    }
    Fe::from_repr(value.to_repr()).unwrap()
}

/// Every base field element is a scalar.
pub proof fn lemma_base_below_scalar()
    ensures
        PallasBase::p() < VestaBase::p(),
{
}

/// The windows of a running sum.
fn running_sum_to_windows(zs: &Vec<Option<Fp>>) -> (r: Vec<Option<Fq>>)
    requires
        zs@.len() > 0,
    ensures
        r@.len() == running_windows(zs@).len(),
        forall|i: int| 0 <= i < r@.len() ==> is_window_of(#[trigger] r@[i], running_windows(zs@)[i]),
{
    let ghost p = PallasBase::p();
    let h: Fp = Fe::from_u64(8);
    let mut r: Vec<Option<Fq>> = Vec::new();
    let mut i: usize = 0;
    let n = zs.len();
    while i < n - 1
        invariant
            n == zs@.len(),
            n > 0,
            i <= n - 1,
            h@ == 8,
            p == PallasBase::p(),
            r@.len() == i,
            forall|k: int|
                0 <= k < i ==> is_window_of(#[trigger] r@[k], running_word(zs@[k], zs@[k + 1])),
        decreases n - i,
    {
        let window = match (zs[i], zs[i + 1]) {
            (Some(cur), Some(next)) => {
                let word = cur.sub(next.mul(h));
                proof {
                    PallasBase::lemma_modulus();
                    lemma_congruent_mod(next@ * 8, p);
                    lemma_congruent_ops(cur@, cur@, (next@ * 8) % p, next@ * 8, p);
                }
                Some(to_scalar(word))
            },
            _ => None,
        };
        r.push(window);
        i += 1;
    }
    r
}

} // verus!
