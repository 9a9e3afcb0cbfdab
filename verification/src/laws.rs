//! Laws relating the comparator paths to one another.
//!
//! Reflexivity, symmetry, antisymmetry and transitivity are stated on the
//! comparator traits themselves (`total_ord`, `compare_inner`) and proved by
//! every implementation. The laws here relate *different* comparators: the
//! null-free fast path against the nullable path, and one physical block
//! split against another.

use vstd::prelude::*;
use core::cmp::Ordering;
use crate::total_ord::{TotalEq, TotalOrd};
use crate::column::Column;
use crate::compare_inner::{NonNull, NullOrderCmp, TotalEqInner, TotalOrdInner};

verus! {

/// Fast path equivalence, equality half: over a column statically known
/// null-free, the fast-path comparator answers exactly as the nullable
/// comparator does on the same pair of rows.
pub proof fn lemma_no_null_fast_path_equal<T: TotalEq + Copy>(c: NonNull<Column<T>>, a: int, b: int)
    requires
        c.eq_wf(),
        0 <= a < c.eq_len(),
        0 <= b < c.eq_len(),
    ensures
        c.eq_at(a, b) == c.0.eq_at(a, b),
{
    assert(c.0@[a] is Some);
    assert(c.0@[b] is Some);
}

/// Fast path equivalence, ordering half: over a column statically known
/// null-free, the fast-path comparator answers exactly as the nullable
/// comparator does on the same pair of rows, and the answer does not depend
/// on the null-placement policy of either call.
pub proof fn lemma_no_null_fast_path_compare<T: TotalOrd + Copy>(
    c: NonNull<Column<T>>,
    a: int,
    b: int,
    nulls_last_fast: bool,
    nulls_last_nullable: bool,
)
    requires
        c.ord_wf(),
        0 <= a < c.ord_len(),
        0 <= b < c.ord_len(),
    ensures
        c.cmp_at(a, b, nulls_last_fast) == c.0.cmp_at(a, b, nulls_last_nullable),
{
    assert(c.0@[a] is Some);
    assert(c.0@[b] is Some);
}

/// Block split irrelevance, equality half: two well-formed columns holding
/// the same logical cells compare identically, however differently those
/// cells are split into physical blocks.
pub proof fn lemma_block_split_irrelevant_equal<T: TotalEq + Copy>(
    c1: Column<T>,
    c2: Column<T>,
    a: int,
    b: int,
)
    requires
        c1.wf(),
        c2.wf(),
        c1@ == c2@,
        0 <= a < c1@.len(),
        0 <= b < c1@.len(),
    ensures
        c1.eq_at(a, b) == c2.eq_at(a, b),
{
}

/// Block split irrelevance, ordering half: two well-formed columns holding
/// the same logical cells order identically under either policy, however
/// differently those cells are split into physical blocks.
pub proof fn lemma_block_split_irrelevant_compare<T: TotalOrd + Copy>(
    c1: Column<T>,
    c2: Column<T>,
    a: int,
    b: int,
    nulls_last: bool,
)
    requires
        c1.wf(),
        c2.wf(),
        c1@ == c2@,
        0 <= a < c1@.len(),
        0 <= b < c1@.len(),
    ensures
        c1.cmp_at(a, b, nulls_last) == c2.cmp_at(a, b, nulls_last),
{
}

/// Null placement: a present value sorts before a null exactly when nulls
/// sort last and after it otherwise, and null against null is `Equal` under
/// either policy.
pub proof fn lemma_null_placement<T: TotalOrd>(x: Option<T>, y: Option<T>, nulls_last: bool)
    ensures
        x is Some && y is None ==> x.null_order_cmp_spec(&y, nulls_last) == (if nulls_last {
            Ordering::Less
        } else {
            Ordering::Greater
        }),
        x is None && y is Some ==> x.null_order_cmp_spec(&y, nulls_last) == (if nulls_last {
            Ordering::Greater
        } else {
            Ordering::Less
        }),
        x is None && y is None ==> x.null_order_cmp_spec(&y, nulls_last) == Ordering::Equal,
{
}

} // verus!
