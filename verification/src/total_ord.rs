//! Total equality and total ordering over payload values.
//!
//! A payload type used inside a column must compare under a *total* relation:
//! every pair of values yields a definite answer, including values that lack a
//! natural order in their native relation. The traits here carry both the
//! executable comparison and the proof obligations (reflexivity, symmetry,
//! antisymmetry, transitivity) that every payload type must discharge.

use vstd::prelude::*;
use core::cmp::Ordering;

verus! {

/// The mirror image of an ordering outcome: what the comparison of the
/// swapped operands must return.
pub open spec fn reversed(o: Ordering) -> Ordering {
    match o {
        Ordering::Less => Ordering::Greater,
        Ordering::Equal => Ordering::Equal,
        Ordering::Greater => Ordering::Less,
    }
}

/// A total equality relation: defined for every pair of values, reflexive and
/// symmetric. It need not coincide with the type's native `==`.
pub trait TotalEq: Sized {
    /// What the executable `tot_eq` returns.
    spec fn tot_eq_spec(&self, other: &Self) -> bool;

    /// Every value equals itself under total equality.
    proof fn lemma_tot_eq_reflexive(&self)
        ensures
            self.tot_eq_spec(self),
    ;

    /// Total equality does not depend on operand order.
    proof fn lemma_tot_eq_symmetric(&self, other: &Self)
        ensures
            self.tot_eq_spec(other) == other.tot_eq_spec(self),
    ;

    fn tot_eq(&self, other: &Self) -> (r: bool)
        ensures
            r == self.tot_eq_spec(other),
    ;
}

/// A total order: a definite `Less`/`Equal`/`Greater` for every pair of
/// values, agreeing with the total equality relation on its `Equal` case,
/// antisymmetric and transitive.
pub trait TotalOrd: TotalEq {
    /// What the executable `tot_cmp` returns.
    spec fn tot_cmp_spec(&self, other: &Self) -> Ordering;

    /// The order's `Equal` case is exactly total equality.
    proof fn lemma_tot_cmp_eq(&self, other: &Self)
        ensures
            (self.tot_cmp_spec(other) == Ordering::Equal) == self.tot_eq_spec(other),
    ;

    /// Swapping the operands mirrors the outcome.
    proof fn lemma_tot_cmp_antisymmetric(&self, other: &Self)
        ensures
            other.tot_cmp_spec(self) == reversed(self.tot_cmp_spec(other)),
    ;

    /// The strict order composes: below and below is below.
    proof fn lemma_tot_cmp_transitive(&self, mid: &Self, far: &Self)
        requires
            self.tot_cmp_spec(mid) == Ordering::Less,
            mid.tot_cmp_spec(far) == Ordering::Less,
        ensures
            self.tot_cmp_spec(far) == Ordering::Less,
    ;

    /// Values the order calls equal are interchangeable as operands.
    proof fn lemma_tot_cmp_substitutive(&self, other: &Self, witness: &Self)
        requires
            self.tot_cmp_spec(other) == Ordering::Equal,
        ensures
            self.tot_cmp_spec(witness) == other.tot_cmp_spec(witness),
            witness.tot_cmp_spec(self) == witness.tot_cmp_spec(other),
    ;

    fn tot_cmp(&self, other: &Self) -> (r: Ordering)
        ensures
            r == self.tot_cmp_spec(other),
    ;
}

impl TotalEq for i64 {
    open spec fn tot_eq_spec(&self, other: &Self) -> bool {
        *self == *other
    }

    proof fn lemma_tot_eq_reflexive(&self) {
    }

    proof fn lemma_tot_eq_symmetric(&self, other: &Self) {
    }

    fn tot_eq(&self, other: &Self) -> (r: bool) {
        *self == *other
    }
}

impl TotalOrd for i64 {
    open spec fn tot_cmp_spec(&self, other: &Self) -> Ordering {
        if *self < *other {
            Ordering::Less
        } else if *self == *other {
            Ordering::Equal
        } else {
            Ordering::Greater
        }
    }

    proof fn lemma_tot_cmp_eq(&self, other: &Self) {
    }

    proof fn lemma_tot_cmp_antisymmetric(&self, other: &Self) {
    }

    proof fn lemma_tot_cmp_transitive(&self, mid: &Self, far: &Self) {
    }

    proof fn lemma_tot_cmp_substitutive(&self, other: &Self, witness: &Self) {
    }

    fn tot_cmp(&self, other: &Self) -> (r: Ordering) {
        if *self < *other {
            Ordering::Less
        } else if *self == *other {
            Ordering::Equal
        } else {
            Ordering::Greater
        }
    }
}

impl TotalEq for u32 {
    open spec fn tot_eq_spec(&self, other: &Self) -> bool {
        *self == *other
    }

    proof fn lemma_tot_eq_reflexive(&self) {
    }

    proof fn lemma_tot_eq_symmetric(&self, other: &Self) {
    }

    fn tot_eq(&self, other: &Self) -> (r: bool) {
        *self == *other
    }
}

impl TotalOrd for u32 {
    open spec fn tot_cmp_spec(&self, other: &Self) -> Ordering {
        if *self < *other {
            Ordering::Less
        } else if *self == *other {
            Ordering::Equal
        } else {
            Ordering::Greater
        }
    }

    proof fn lemma_tot_cmp_eq(&self, other: &Self) {
    }

    proof fn lemma_tot_cmp_antisymmetric(&self, other: &Self) {
    }

    proof fn lemma_tot_cmp_transitive(&self, mid: &Self, far: &Self) {
    }

    proof fn lemma_tot_cmp_substitutive(&self, other: &Self, witness: &Self) {
    }

    fn tot_cmp(&self, other: &Self) -> (r: Ordering) {
        if *self < *other {
            Ordering::Less
        } else if *self == *other {
            Ordering::Equal
        } else {
            Ordering::Greater
        }
    }
}

/// Total equality lifted to a nullable cell: null equals null, null never
/// equals a present value, two present values compare by the payload relation.
impl<T: TotalEq> TotalEq for Option<T> {
    open spec fn tot_eq_spec(&self, other: &Self) -> bool {
        match (self, other) {
            (None, None) => true,
            (Some(l), Some(r)) => l.tot_eq_spec(r),
            _ => false,
        }
    }

    proof fn lemma_tot_eq_reflexive(&self) {
        match self {
            None => {
            },
            Some(v) => {
                v.lemma_tot_eq_reflexive();
            },
        }
    }

    proof fn lemma_tot_eq_symmetric(&self, other: &Self) {
        match (self, other) {
            (Some(l), Some(r)) => {
                l.lemma_tot_eq_symmetric(r);
            },
            _ => {
            },
        }
    }

    fn tot_eq(&self, other: &Self) -> (r: bool) {
        match (self, other) {
            (None, None) => true,
            (Some(l), Some(r)) => l.tot_eq(r),
            _ => false,
        }
    }
}

} // verus!
