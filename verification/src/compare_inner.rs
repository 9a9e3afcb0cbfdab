//! Pairwise row comparators over a column: total equality and total order of
//! elements by row index, built once per column and then called many times.
//!
//! `TotalEqInner` and `TotalOrdInner` are the opaque comparator contracts;
//! the factory methods classify a column once and pick the implementation:
//! the nullable path over cells, the null-free fast path over bare payloads,
//! or the degenerate all-null comparator.

use vstd::prelude::*;
use core::cmp::Ordering;
use crate::total_ord::{TotalEq, TotalOrd, reversed};
use crate::column::{ChunkedArrayLayout, Column, NullChunked};

verus! {

/// Statically asserts that the wrapped value (a payload, or a whole column)
/// has no null: comparisons on it skip the null branch entirely.
#[derive(Copy, Clone)]
pub struct NonNull<T>(pub T);

impl<T: TotalEq> TotalEq for NonNull<T> {
    open spec fn tot_eq_spec(&self, other: &Self) -> bool {
        self.0.tot_eq_spec(&other.0)
    }

    proof fn lemma_tot_eq_reflexive(&self) {
        self.0.lemma_tot_eq_reflexive();
    }

    proof fn lemma_tot_eq_symmetric(&self, other: &Self) {
        self.0.lemma_tot_eq_symmetric(&other.0);
    }

    fn tot_eq(&self, other: &Self) -> (r: bool) {
        self.0.tot_eq(&other.0)
    }
}

/// Ordering with a per-call null-placement policy: whether null sorts after
/// (`nulls_last`) or before all present values.
pub trait NullOrderCmp: Sized {
    /// What the executable `null_order_cmp` returns.
    spec fn null_order_cmp_spec(&self, other: &Self, nulls_last: bool) -> Ordering;

    fn null_order_cmp(&self, other: &Self, nulls_last: bool) -> (r: Ordering)
        ensures
            r == self.null_order_cmp_spec(other, nulls_last),
    ;
}

/// The null-placement policy over nullable cells: null equals null, null
/// sorts after every present value when `nulls_last` and before it otherwise,
/// two present values compare by the payload's total order.
impl<T: TotalOrd> NullOrderCmp for Option<T> {
    open spec fn null_order_cmp_spec(&self, other: &Self, nulls_last: bool) -> Ordering {
        match (self, other) {
            (None, None) => Ordering::Equal,
            (None, Some(_)) => if nulls_last {
                Ordering::Greater
            } else {
                Ordering::Less
            },
            (Some(_), None) => if nulls_last {
                Ordering::Less
            } else {
                Ordering::Greater
            },
            (Some(l), Some(r)) => l.tot_cmp_spec(r),
        }
    }

    fn null_order_cmp(&self, other: &Self, nulls_last: bool) -> (r: Ordering) {
        match (self, other) {
            (None, None) => Ordering::Equal,
            (None, Some(_)) => if nulls_last {
                Ordering::Greater
            } else {
                Ordering::Less
            },
            (Some(_), None) => if nulls_last {
                Ordering::Less
            } else {
                Ordering::Greater
            },
            (Some(l), Some(r)) => l.tot_cmp(r),
        }
    }
}

/// On a null-free value the policy has nothing to decide: the payload's total
/// order answers, and `nulls_last` is accepted only for interface uniformity.
impl<T: TotalOrd> NullOrderCmp for NonNull<T> {
    open spec fn null_order_cmp_spec(&self, other: &Self, nulls_last: bool) -> Ordering {
        self.0.tot_cmp_spec(&other.0)
    }

    fn null_order_cmp(&self, other: &Self, _nulls_last: bool) -> (r: Ordering) {
        self.0.tot_cmp(&other.0)
    }
}

/// A cell equals itself under the null-placement order, for either policy.
pub proof fn lemma_null_order_reflexive<T: TotalOrd>(x: Option<T>, nulls_last: bool)
    ensures
        x.null_order_cmp_spec(&x, nulls_last) == Ordering::Equal,
{
    match x {
        None => {
        },
        Some(v) => {
            v.lemma_tot_cmp_eq(&v);
            v.lemma_tot_eq_reflexive();
        },
    }
}

/// Swapping the cells mirrors the outcome, under either policy.
pub proof fn lemma_null_order_antisymmetric<T: TotalOrd>(
    x: Option<T>,
    y: Option<T>,
    nulls_last: bool,
)
    ensures
        y.null_order_cmp_spec(&x, nulls_last) == reversed(x.null_order_cmp_spec(&y, nulls_last)),
{
    match (x, y) {
        (Some(l), Some(r)) => {
            l.lemma_tot_cmp_antisymmetric(&r);
        },
        _ => {
        },
    }
}

/// The strict null-placement order composes, under either policy: with
/// `nulls_last` the nulls form the greatest class, otherwise the least, and
/// present values follow the payload's transitive order.
pub proof fn lemma_null_order_transitive<T: TotalOrd>(
    x: Option<T>,
    y: Option<T>,
    z: Option<T>,
    nulls_last: bool,
)
    requires
        x.null_order_cmp_spec(&y, nulls_last) == Ordering::Less,
        y.null_order_cmp_spec(&z, nulls_last) == Ordering::Less,
    ensures
        x.null_order_cmp_spec(&z, nulls_last) == Ordering::Less,
{
    match (x, y, z) {
        (Some(a), Some(b), Some(c)) => {
            a.lemma_tot_cmp_transitive(&b, &c);
        },
        _ => {
        },
    }
}

/// The equality comparator over a bound column: pairwise total equality of
/// rows by index. Indices must lie below `eq_len`; the comparator performs no
/// bounds check of its own.
pub trait TotalEqInner: Sized {
    /// What the comparator assumes of the bound column for its lifetime.
    spec fn eq_wf(&self) -> bool;

    /// Number of rows of the bound column.
    spec fn eq_len(&self) -> nat;

    /// What the executable comparison returns for a pair of indices.
    spec fn eq_at(&self, a: int, b: int) -> bool;

    /// Every row equals itself.
    proof fn lemma_eq_at_reflexive(&self, a: int)
        requires
            self.eq_wf(),
            0 <= a < self.eq_len(),
        ensures
            self.eq_at(a, a),
    ;

    /// Equality of rows does not depend on operand order.
    proof fn lemma_eq_at_symmetric(&self, a: int, b: int)
        requires
            self.eq_wf(),
            0 <= a < self.eq_len(),
            0 <= b < self.eq_len(),
        ensures
            self.eq_at(a, b) == self.eq_at(b, a),
    ;

    fn eq_element_unchecked(&self, idx_a: usize, idx_b: usize) -> (r: bool)
        requires
            self.eq_wf(),
            idx_a < self.eq_len(),
            idx_b < self.eq_len(),
        ensures
            r == self.eq_at(idx_a as int, idx_b as int),
    ;
}

/// The ordering comparator over a bound column: pairwise total order of rows
/// by index under a per-call null-placement policy. Indices must lie below
/// `ord_len`; the comparator performs no bounds check of its own.
pub trait TotalOrdInner: Sized {
    /// What the comparator assumes of the bound column for its lifetime.
    spec fn ord_wf(&self) -> bool;

    /// Number of rows of the bound column.
    spec fn ord_len(&self) -> nat;

    /// What the executable comparison returns for a pair of indices.
    spec fn cmp_at(&self, a: int, b: int, nulls_last: bool) -> Ordering;

    /// Every row compares equal to itself, for either policy.
    proof fn lemma_cmp_at_reflexive(&self, a: int, nulls_last: bool)
        requires
            self.ord_wf(),
            0 <= a < self.ord_len(),
        ensures
            self.cmp_at(a, a, nulls_last) == Ordering::Equal,
    ;

    /// Swapping the rows mirrors the outcome, for either policy.
    proof fn lemma_cmp_at_antisymmetric(&self, a: int, b: int, nulls_last: bool)
        requires
            self.ord_wf(),
            0 <= a < self.ord_len(),
            0 <= b < self.ord_len(),
        ensures
            self.cmp_at(b, a, nulls_last) == reversed(self.cmp_at(a, b, nulls_last)),
    ;

    /// The strict order over rows composes: no cycle across any triple.
    proof fn lemma_cmp_at_transitive(&self, a: int, b: int, c: int, nulls_last: bool)
        requires
            self.ord_wf(),
            0 <= a < self.ord_len(),
            0 <= b < self.ord_len(),
            0 <= c < self.ord_len(),
            self.cmp_at(a, b, nulls_last) == Ordering::Less,
            self.cmp_at(b, c, nulls_last) == Ordering::Less,
        ensures
            self.cmp_at(a, c, nulls_last) == Ordering::Less,
    ;

    fn cmp_element_unchecked(&self, idx_a: usize, idx_b: usize, nulls_last: bool) -> (r: Ordering)
        requires
            self.ord_wf(),
            idx_a < self.ord_len(),
            idx_b < self.ord_len(),
        ensures
            r == self.cmp_at(idx_a as int, idx_b as int, nulls_last),
    ;
}

/// The nullable path: cells are fetched and compared under the lifted total
/// equality, null equal to null and unequal to any present value.
impl<T: TotalEq + Copy> TotalEqInner for Column<T> {
    open spec fn eq_wf(&self) -> bool {
        self.wf()
    }

    open spec fn eq_len(&self) -> nat {
        self@.len()
    }

    open spec fn eq_at(&self, a: int, b: int) -> bool {
        self@[a].tot_eq_spec(&self@[b])
    }

    proof fn lemma_eq_at_reflexive(&self, a: int) {
        self@[a].lemma_tot_eq_reflexive();
    }

    proof fn lemma_eq_at_symmetric(&self, a: int, b: int) {
        self@[a].lemma_tot_eq_symmetric(&self@[b]);
    }

    fn eq_element_unchecked(&self, idx_a: usize, idx_b: usize) -> (r: bool) {
        self.get_unchecked(idx_a).tot_eq(&self.get_unchecked(idx_b))
    }
}

/// The null-free fast path: bare payloads are fetched, the null branch never
/// runs.
impl<T: TotalEq + Copy> TotalEqInner for NonNull<Column<T>> {
    open spec fn eq_wf(&self) -> bool {
        self.0.wf() && self.0.no_nulls()
    }

    open spec fn eq_len(&self) -> nat {
        self.0@.len()
    }

    open spec fn eq_at(&self, a: int, b: int) -> bool {
        self.0@[a].unwrap().tot_eq_spec(&self.0@[b].unwrap())
    }

    proof fn lemma_eq_at_reflexive(&self, a: int) {
        self.0@[a].unwrap().lemma_tot_eq_reflexive();
    }

    proof fn lemma_eq_at_symmetric(&self, a: int, b: int) {
        self.0@[a].unwrap().lemma_tot_eq_symmetric(&self.0@[b].unwrap());
    }

    fn eq_element_unchecked(&self, idx_a: usize, idx_b: usize) -> (r: bool) {
        NonNull(self.0.value_unchecked(idx_a)).tot_eq(&NonNull(self.0.value_unchecked(idx_b)))
    }
}

/// The all-null comparator: with every row null, any two rows are equal.
impl TotalEqInner for NullChunked {
    open spec fn eq_wf(&self) -> bool {
        true
    }

    open spec fn eq_len(&self) -> nat {
        self.length as nat
    }

    open spec fn eq_at(&self, a: int, b: int) -> bool {
        true
    }

    proof fn lemma_eq_at_reflexive(&self, a: int) {
    }

    proof fn lemma_eq_at_symmetric(&self, a: int, b: int) {
    }

    fn eq_element_unchecked(&self, _idx_a: usize, _idx_b: usize) -> (r: bool) {
        true
    }
}

/// The nullable path: cells are fetched and ordered under the null-placement
/// policy over the payload's total order.
impl<T: TotalOrd + Copy> TotalOrdInner for Column<T> {
    open spec fn ord_wf(&self) -> bool {
        self.wf()
    }

    open spec fn ord_len(&self) -> nat {
        self@.len()
    }

    open spec fn cmp_at(&self, a: int, b: int, nulls_last: bool) -> Ordering {
        self@[a].null_order_cmp_spec(&self@[b], nulls_last)
    }

    proof fn lemma_cmp_at_reflexive(&self, a: int, nulls_last: bool) {
        lemma_null_order_reflexive(self@[a], nulls_last);
    }

    proof fn lemma_cmp_at_antisymmetric(&self, a: int, b: int, nulls_last: bool) {
        lemma_null_order_antisymmetric(self@[a], self@[b], nulls_last);
    }

    proof fn lemma_cmp_at_transitive(&self, a: int, b: int, c: int, nulls_last: bool) {
        lemma_null_order_transitive(self@[a], self@[b], self@[c], nulls_last);
    }

    fn cmp_element_unchecked(&self, idx_a: usize, idx_b: usize, nulls_last: bool) -> (r:
        Ordering) {
        let a = self.get_unchecked(idx_a);
        let b = self.get_unchecked(idx_b);
        a.null_order_cmp(&b, nulls_last)
    }
}

/// The null-free fast path: the payload order answers directly and the
/// null-placement policy has no effect.
impl<T: TotalOrd + Copy> TotalOrdInner for NonNull<Column<T>> {
    open spec fn ord_wf(&self) -> bool {
        self.0.wf() && self.0.no_nulls()
    }

    open spec fn ord_len(&self) -> nat {
        self.0@.len()
    }

    open spec fn cmp_at(&self, a: int, b: int, nulls_last: bool) -> Ordering {
        self.0@[a].unwrap().tot_cmp_spec(&self.0@[b].unwrap())
    }

    proof fn lemma_cmp_at_reflexive(&self, a: int, nulls_last: bool) {
        let v = self.0@[a].unwrap();
        v.lemma_tot_cmp_eq(&v);
        v.lemma_tot_eq_reflexive();
    }

    proof fn lemma_cmp_at_antisymmetric(&self, a: int, b: int, nulls_last: bool) {
        self.0@[a].unwrap().lemma_tot_cmp_antisymmetric(&self.0@[b].unwrap());
    }

    proof fn lemma_cmp_at_transitive(&self, a: int, b: int, c: int, nulls_last: bool) {
        self.0@[a].unwrap().lemma_tot_cmp_transitive(
            &self.0@[b].unwrap(),
            &self.0@[c].unwrap(),
        );
    }

    fn cmp_element_unchecked(&self, idx_a: usize, idx_b: usize, nulls_last: bool) -> (r:
        Ordering) {
        let a = NonNull(self.0.value_unchecked(idx_a));
        let b = NonNull(self.0.value_unchecked(idx_b));
        a.null_order_cmp(&b, nulls_last)
    }
}

/// The all-null comparator: with every row null, null against null is always
/// `Equal`, irrespective of indices and policy.
impl TotalOrdInner for NullChunked {
    open spec fn ord_wf(&self) -> bool {
        true
    }

    open spec fn ord_len(&self) -> nat {
        self.length as nat
    }

    open spec fn cmp_at(&self, a: int, b: int, nulls_last: bool) -> Ordering {
        Ordering::Equal
    }

    proof fn lemma_cmp_at_reflexive(&self, a: int, nulls_last: bool) {
    }

    proof fn lemma_cmp_at_antisymmetric(&self, a: int, b: int, nulls_last: bool) {
    }

    proof fn lemma_cmp_at_transitive(&self, a: int, b: int, c: int, nulls_last: bool) {
    }

    fn cmp_element_unchecked(&self, _idx_a: usize, _idx_b: usize, _nulls_last: bool) -> (r:
        Ordering) {
        Ordering::Equal
    }
}

/// The opaque equality comparator a factory hands out: one variant per
/// canonical shape, matched once at construction, never re-decided per call.
pub enum DynTotalEqInner<T> {
    NotNull(NonNull<Column<T>>),
    Nullable(Column<T>),
    AllNull(NullChunked),
}

impl<T: TotalEq + Copy> TotalEqInner for DynTotalEqInner<T> {
    open spec fn eq_wf(&self) -> bool {
        match self {
            DynTotalEqInner::NotNull(c) => c.eq_wf(),
            DynTotalEqInner::Nullable(c) => c.eq_wf(),
            DynTotalEqInner::AllNull(c) => c.eq_wf(),
        }
    }

    open spec fn eq_len(&self) -> nat {
        match self {
            DynTotalEqInner::NotNull(c) => c.eq_len(),
            DynTotalEqInner::Nullable(c) => c.eq_len(),
            DynTotalEqInner::AllNull(c) => c.eq_len(),
        }
    }

    open spec fn eq_at(&self, a: int, b: int) -> bool {
        match self {
            DynTotalEqInner::NotNull(c) => c.eq_at(a, b),
            DynTotalEqInner::Nullable(c) => c.eq_at(a, b),
            DynTotalEqInner::AllNull(c) => c.eq_at(a, b),
        }
    }

    proof fn lemma_eq_at_reflexive(&self, a: int) {
        match self {
            DynTotalEqInner::NotNull(c) => c.lemma_eq_at_reflexive(a),
            DynTotalEqInner::Nullable(c) => c.lemma_eq_at_reflexive(a),
            DynTotalEqInner::AllNull(c) => c.lemma_eq_at_reflexive(a),
        }
    }

    proof fn lemma_eq_at_symmetric(&self, a: int, b: int) {
        match self {
            DynTotalEqInner::NotNull(c) => c.lemma_eq_at_symmetric(a, b),
            DynTotalEqInner::Nullable(c) => c.lemma_eq_at_symmetric(a, b),
            DynTotalEqInner::AllNull(c) => c.lemma_eq_at_symmetric(a, b),
        }
    }

    fn eq_element_unchecked(&self, idx_a: usize, idx_b: usize) -> (r: bool) {
        match self {
            DynTotalEqInner::NotNull(c) => c.eq_element_unchecked(idx_a, idx_b),
            DynTotalEqInner::Nullable(c) => c.eq_element_unchecked(idx_a, idx_b),
            DynTotalEqInner::AllNull(c) => c.eq_element_unchecked(idx_a, idx_b),
        }
    }
}

/// The opaque ordering comparator a factory hands out: one variant per
/// canonical shape, matched once at construction, never re-decided per call.
pub enum DynTotalOrdInner<T> {
    NotNull(NonNull<Column<T>>),
    Nullable(Column<T>),
    AllNull(NullChunked),
}

impl<T: TotalOrd + Copy> TotalOrdInner for DynTotalOrdInner<T> {
    open spec fn ord_wf(&self) -> bool {
        match self {
            DynTotalOrdInner::NotNull(c) => c.ord_wf(),
            DynTotalOrdInner::Nullable(c) => c.ord_wf(),
            DynTotalOrdInner::AllNull(c) => c.ord_wf(),
        }
    }

    open spec fn ord_len(&self) -> nat {
        match self {
            DynTotalOrdInner::NotNull(c) => c.ord_len(),
            DynTotalOrdInner::Nullable(c) => c.ord_len(),
            DynTotalOrdInner::AllNull(c) => c.ord_len(),
        }
    }

    open spec fn cmp_at(&self, a: int, b: int, nulls_last: bool) -> Ordering {
        match self {
            DynTotalOrdInner::NotNull(c) => c.cmp_at(a, b, nulls_last),
            DynTotalOrdInner::Nullable(c) => c.cmp_at(a, b, nulls_last),
            DynTotalOrdInner::AllNull(c) => c.cmp_at(a, b, nulls_last),
        }
    }

    proof fn lemma_cmp_at_reflexive(&self, a: int, nulls_last: bool) {
        match self {
            DynTotalOrdInner::NotNull(c) => c.lemma_cmp_at_reflexive(a, nulls_last),
            DynTotalOrdInner::Nullable(c) => c.lemma_cmp_at_reflexive(a, nulls_last),
            DynTotalOrdInner::AllNull(c) => c.lemma_cmp_at_reflexive(a, nulls_last),
        }
    }

    proof fn lemma_cmp_at_antisymmetric(&self, a: int, b: int, nulls_last: bool) {
        match self {
            DynTotalOrdInner::NotNull(c) => c.lemma_cmp_at_antisymmetric(a, b, nulls_last),
            DynTotalOrdInner::Nullable(c) => c.lemma_cmp_at_antisymmetric(a, b, nulls_last),
            DynTotalOrdInner::AllNull(c) => c.lemma_cmp_at_antisymmetric(a, b, nulls_last),
        }
    }

    proof fn lemma_cmp_at_transitive(&self, a: int, b: int, c: int, nulls_last: bool) {
        match self {
            DynTotalOrdInner::NotNull(x) => x.lemma_cmp_at_transitive(a, b, c, nulls_last),
            DynTotalOrdInner::Nullable(x) => x.lemma_cmp_at_transitive(a, b, c, nulls_last),
            DynTotalOrdInner::AllNull(x) => x.lemma_cmp_at_transitive(a, b, c, nulls_last),
        }
    }

    fn cmp_element_unchecked(&self, idx_a: usize, idx_b: usize, nulls_last: bool) -> (r:
        Ordering) {
        match self {
            DynTotalOrdInner::NotNull(c) => c.cmp_element_unchecked(idx_a, idx_b, nulls_last),
            DynTotalOrdInner::Nullable(c) => c.cmp_element_unchecked(idx_a, idx_b, nulls_last),
            DynTotalOrdInner::AllNull(c) => c.cmp_element_unchecked(idx_a, idx_b, nulls_last),
        }
    }
}

impl<T: TotalEq + Copy> Column<T> {
    /// Factory for the equality comparator: classifies the column once and
    /// picks the null-free fast path or the nullable path. Whatever the
    /// shape, the comparator answers by the lifted total equality of cells.
    pub fn into_total_eq_inner(self) -> (r: DynTotalEqInner<T>)
        requires
            self.wf(),
        ensures
            r.eq_wf(),
            r.eq_len() == self@.len(),
            (r is NotNull) == self.no_nulls(),
            (r is Nullable) == !self.no_nulls(),
            forall|a: int, b: int|
                0 <= a < self@.len() && 0 <= b < self@.len() ==> #[trigger] r.eq_at(a, b)
                    == self@[a].tot_eq_spec(&self@[b]),
    {
        let ghost v = self@;
        match self.layout() {
            ChunkedArrayLayout::SingleNoNull => {
                let r = DynTotalEqInner::NotNull(NonNull(self));
                proof {
                    lemma_no_null_cell_eq::<T>(v);
                }
                r
            },
            ChunkedArrayLayout::Single => DynTotalEqInner::Nullable(self),
            ChunkedArrayLayout::MultiNoNull => {
                let r = DynTotalEqInner::NotNull(NonNull(self));
                proof {
                    lemma_no_null_cell_eq::<T>(v);
                }
                r
            },
            ChunkedArrayLayout::Multi => DynTotalEqInner::Nullable(self),
        }
    }
}

/// On a null-free cell sequence, payload equality of the unwrapped cells is
/// exactly the lifted cell equality.
proof fn lemma_no_null_cell_eq<T: TotalEq>(v: Seq<Option<T>>)
    requires
        crate::column::no_nulls_in(v),
    ensures
        forall|a: int, b: int|
            0 <= a < v.len() && 0 <= b < v.len() ==> #[trigger] v[a].unwrap().tot_eq_spec(
                &v[b].unwrap(),
            ) == v[a].tot_eq_spec(&v[b]),
{
    assert forall|a: int, b: int| 0 <= a < v.len() && 0 <= b < v.len() implies #[trigger] v[a].unwrap().tot_eq_spec(&v[b].unwrap()) == v[a].tot_eq_spec(&v[b]) by {
        assert(v[a] is Some);
        assert(v[b] is Some);
    }
}

/// On a null-free cell sequence, the payload order of the unwrapped cells is
/// exactly the null-placement order, whatever the policy.
pub proof fn lemma_no_null_cell_cmp<T: TotalOrd>(v: Seq<Option<T>>)
    requires
        crate::column::no_nulls_in(v),
    ensures
        forall|a: int, b: int, nulls_last: bool|
            0 <= a < v.len() && 0 <= b < v.len() ==> v[a].unwrap().tot_cmp_spec(&v[b].unwrap())
                == #[trigger] v[a].null_order_cmp_spec(&v[b], nulls_last),
{
    assert forall|a: int, b: int, nulls_last: bool|
        0 <= a < v.len() && 0 <= b < v.len() implies v[a].unwrap().tot_cmp_spec(&v[b].unwrap())
        == #[trigger] v[a].null_order_cmp_spec(&v[b], nulls_last) by {
        assert(v[a] is Some);
        assert(v[b] is Some);
    }
}

impl<T: TotalOrd + Copy> Column<T> {
    /// Factory for the ordering comparator: classifies the column once and
    /// picks the null-free fast path or the nullable path. Whatever the
    /// shape, the comparator answers by the null-placement order over cells.
    pub fn into_total_ord_inner(self) -> (r: DynTotalOrdInner<T>)
        requires
            self.wf(),
        ensures
            r.ord_wf(),
            r.ord_len() == self@.len(),
            (r is NotNull) == self.no_nulls(),
            (r is Nullable) == !self.no_nulls(),
            forall|a: int, b: int, nulls_last: bool|
                0 <= a < self@.len() && 0 <= b < self@.len() ==> #[trigger] r.cmp_at(
                    a,
                    b,
                    nulls_last,
                ) == self@[a].null_order_cmp_spec(&self@[b], nulls_last),
    {
        let ghost v = self@;
        match self.layout() {
            ChunkedArrayLayout::SingleNoNull => {
                let r = DynTotalOrdInner::NotNull(NonNull(self));
                proof {
                    lemma_no_null_cell_cmp::<T>(v);
                }
                r
            },
            ChunkedArrayLayout::Single => DynTotalOrdInner::Nullable(self),
            ChunkedArrayLayout::MultiNoNull => {
                let r = DynTotalOrdInner::NotNull(NonNull(self));
                proof {
                    lemma_no_null_cell_cmp::<T>(v);
                }
                r
            },
            ChunkedArrayLayout::Multi => DynTotalOrdInner::Nullable(self),
        }
    }
}

impl NullChunked {
    /// Factory for the equality comparator of the all-null representation:
    /// hands back the degenerate comparator directly, bypassing
    /// classification.
    pub fn into_total_eq_inner<T: TotalEq + Copy>(self) -> (r: DynTotalEqInner<T>)
        ensures
            r.eq_wf(),
            r.eq_len() == self.length,
            forall|a: int, b: int| #[trigger] r.eq_at(a, b) == true,
    {
        DynTotalEqInner::AllNull(self)
    }

    /// Factory for the ordering comparator of the all-null representation.
    pub fn into_total_ord_inner<T: TotalOrd + Copy>(self) -> (r: DynTotalOrdInner<T>)
        ensures
            r.ord_wf(),
            r.ord_len() == self.length,
            forall|a: int, b: int, nulls_last: bool| #[trigger] r.cmp_at(a, b, nulls_last)
                == Ordering::Equal,
    {
        DynTotalOrdInner::AllNull(self)
    }
}

} // verus!
