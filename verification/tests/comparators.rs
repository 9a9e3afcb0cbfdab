use std::cmp::Ordering;

use row_compare::column::{Block, ChunkedArrayLayout, Column, NullChunked};
use row_compare::compare_inner::{NonNull, NullOrderCmp, TotalEqInner, TotalOrdInner};
use row_compare::total_ord::{TotalEq, TotalOrd};

fn block_from(cells: &[Option<i64>]) -> Block<i64> {
    let mut values: Vec<i64> = Vec::new();
    let mut validity: Vec<bool> = Vec::new();
    for c in cells {
        match c {
            Some(v) => {
                values.push(*v);
                validity.push(true);
            },
            None => {
                values.push(0);
                validity.push(false);
            },
        }
    }
    Block::new(values, validity)
}

fn col_from(cells: &[Option<i64>]) -> Column<i64> {
    Column::new(vec![block_from(cells)])
}

fn col_split(cells: &[Option<i64>], sizes: &[usize]) -> Column<i64> {
    let mut blocks: Vec<Block<i64>> = Vec::new();
    let mut start = 0;
    for s in sizes {
        blocks.push(block_from(&cells[start..start + s]));
        start += s;
    }
    assert_eq!(start, cells.len());
    Column::new(blocks)
}

#[test]
fn equal_reflexive() {
    let cells = [Some(3), None, Some(5)];
    let eq = col_from(&cells).into_total_eq_inner();
    for i in 0..cells.len() {
        assert!(eq.eq_element_unchecked(i, i));
    }
}

#[test]
fn compare_reflexive() {
    let cells = [Some(3), None, Some(5)];
    let ord = col_from(&cells).into_total_ord_inner();
    for i in 0..cells.len() {
        for nulls_last in [false, true] {
            assert_eq!(ord.cmp_element_unchecked(i, i, nulls_last), Ordering::Equal);
        }
    }
}

#[test]
fn equal_symmetric() {
    let cells = [Some(3), None, Some(3), Some(7), None];
    let eq = col_from(&cells).into_total_eq_inner();
    for i in 0..cells.len() {
        for j in 0..cells.len() {
            assert_eq!(
                eq.eq_element_unchecked(i, j),
                eq.eq_element_unchecked(j, i)
            );
        }
    }
}

#[test]
fn equal_null_semantics() {
    let cells = [Some(3), None, Some(3), None];
    let eq = col_from(&cells).into_total_eq_inner();
    assert!(eq.eq_element_unchecked(0, 2));
    assert!(eq.eq_element_unchecked(1, 3));
    assert!(!eq.eq_element_unchecked(0, 1));
    assert!(!eq.eq_element_unchecked(1, 2));
}

#[test]
fn compare_strict_total_order_on_present() {
    let vals = [5i64, 3, 9, 3];
    let cells: Vec<Option<i64>> = vals.iter().map(|v| Some(*v)).collect();
    let ord = col_from(&cells).into_total_ord_inner();
    for a in 0..vals.len() {
        for b in 0..vals.len() {
            for nulls_last in [false, true] {
                assert_eq!(
                    ord.cmp_element_unchecked(a, b, nulls_last),
                    vals[a].cmp(&vals[b])
                );
            }
        }
    }
}

#[test]
fn null_placement() {
    let cells = [None, Some(5), None, Some(3)];
    let ord = col_from(&cells).into_total_ord_inner();
    for present in [1, 3] {
        for null in [0, 2] {
            assert_eq!(ord.cmp_element_unchecked(present, null, true), Ordering::Less);
            assert_eq!(ord.cmp_element_unchecked(null, present, true), Ordering::Greater);
            assert_eq!(ord.cmp_element_unchecked(present, null, false), Ordering::Greater);
            assert_eq!(ord.cmp_element_unchecked(null, present, false), Ordering::Less);
        }
    }
    for nulls_last in [false, true] {
        assert_eq!(ord.cmp_element_unchecked(0, 2, nulls_last), Ordering::Equal);
        assert_eq!(ord.cmp_element_unchecked(2, 0, nulls_last), Ordering::Equal);
    }
    assert_eq!(ord.cmp_element_unchecked(1, 3, true), Ordering::Greater);
    assert_eq!(ord.cmp_element_unchecked(3, 1, false), Ordering::Less);
}

#[test]
fn no_null_fast_path_matches_nullable() {
    let cells = [Some(4), Some(1), Some(7), Some(1)];
    let fast = col_from(&cells).into_total_ord_inner();
    let nullable = col_from(&cells);
    for a in 0..cells.len() {
        for b in 0..cells.len() {
            for nl_fast in [false, true] {
                for nl_nullable in [false, true] {
                    assert_eq!(
                        fast.cmp_element_unchecked(a, b, nl_fast),
                        nullable.cmp_element_unchecked(a, b, nl_nullable)
                    );
                }
            }
            let eq_fast = col_from(&cells).into_total_eq_inner();
            assert_eq!(
                eq_fast.eq_element_unchecked(a, b),
                nullable.eq_element_unchecked(a, b)
            );
        }
    }
}

#[test]
fn all_null_comparator() {
    let nc = NullChunked::new(5);
    for i in 0..5 {
        for j in 0..5 {
            assert!(nc.eq_element_unchecked(i, j));
            for nulls_last in [false, true] {
                assert_eq!(nc.cmp_element_unchecked(i, j, nulls_last), Ordering::Equal);
            }
        }
    }
    let eq = NullChunked::new(5).into_total_eq_inner::<i64>();
    let ord = NullChunked::new(5).into_total_ord_inner::<i64>();
    for i in 0..5 {
        for j in 0..5 {
            assert!(eq.eq_element_unchecked(i, j));
            for nulls_last in [false, true] {
                assert_eq!(ord.cmp_element_unchecked(i, j, nulls_last), Ordering::Equal);
            }
        }
    }
}

#[test]
fn multi_block_equivalence() {
    let cells = [
        Some(4),
        Some(-2),
        Some(9),
        Some(9),
        Some(0),
        Some(17),
        Some(-5),
        Some(3),
        Some(3),
        Some(11),
    ];
    let single_eq = col_from(&cells).into_total_eq_inner();
    let split_eq = col_split(&cells, &[3, 4, 3]).into_total_eq_inner();
    let single_ord = col_from(&cells).into_total_ord_inner();
    let split_ord = col_split(&cells, &[3, 4, 3]).into_total_ord_inner();
    for a in 0..cells.len() {
        for b in 0..cells.len() {
            assert_eq!(
                single_eq.eq_element_unchecked(a, b),
                split_eq.eq_element_unchecked(a, b)
            );
            for nulls_last in [false, true] {
                assert_eq!(
                    single_ord.cmp_element_unchecked(a, b, nulls_last),
                    split_ord.cmp_element_unchecked(a, b, nulls_last)
                );
            }
        }
    }
}

#[test]
fn multi_block_equivalence_with_nulls() {
    let cells = [Some(4), None, Some(9), None, Some(0), Some(4)];
    let single = col_from(&cells).into_total_ord_inner();
    let split = col_split(&cells, &[1, 2, 3]).into_total_ord_inner();
    for a in 0..cells.len() {
        for b in 0..cells.len() {
            for nulls_last in [false, true] {
                assert_eq!(
                    single.cmp_element_unchecked(a, b, nulls_last),
                    split.cmp_element_unchecked(a, b, nulls_last)
                );
            }
        }
    }
}

#[test]
fn layout_classification() {
    let present = [Some(1), Some(2), Some(3), Some(4)];
    let nullable = [Some(1), None, Some(3), Some(4)];
    assert_eq!(col_from(&present).layout(), ChunkedArrayLayout::SingleNoNull);
    assert_eq!(col_from(&nullable).layout(), ChunkedArrayLayout::Single);
    assert_eq!(
        col_split(&present, &[2, 2]).layout(),
        ChunkedArrayLayout::MultiNoNull
    );
    assert_eq!(col_split(&nullable, &[2, 2]).layout(), ChunkedArrayLayout::Multi);
}

#[test]
fn get_unchecked_resolves_blocks() {
    let cells = [Some(4), None, Some(9), None, Some(0), Some(4), Some(-1)];
    let col = col_split(&cells, &[2, 1, 4]);
    assert_eq!(col.len(), cells.len());
    for i in 0..cells.len() {
        assert_eq!(col.get_unchecked(i), cells[i]);
    }
}

#[test]
fn value_unchecked_resolves_blocks() {
    let vals = [4i64, 9, 0, 4, -1];
    let cells: Vec<Option<i64>> = vals.iter().map(|v| Some(*v)).collect();
    let col = col_split(&cells, &[2, 3]);
    for i in 0..vals.len() {
        assert_eq!(col.value_unchecked(i), vals[i]);
    }
}

#[test]
fn null_order_cmp_on_cells() {
    assert_eq!(Some(2i64).null_order_cmp(&None, true), Ordering::Less);
    assert_eq!(Some(2i64).null_order_cmp(&None, false), Ordering::Greater);
    assert_eq!(None.null_order_cmp(&Some(2i64), true), Ordering::Greater);
    assert_eq!(None.null_order_cmp(&Some(2i64), false), Ordering::Less);
    assert_eq!(None::<i64>.null_order_cmp(&None, true), Ordering::Equal);
    assert_eq!(None::<i64>.null_order_cmp(&None, false), Ordering::Equal);
    assert_eq!(Some(2i64).null_order_cmp(&Some(3), true), Ordering::Less);
    assert_eq!(Some(3i64).null_order_cmp(&Some(2), false), Ordering::Greater);
}

#[test]
fn non_null_ignores_policy() {
    assert_eq!(NonNull(3i64).null_order_cmp(&NonNull(5), true), Ordering::Less);
    assert_eq!(NonNull(3i64).null_order_cmp(&NonNull(5), false), Ordering::Less);
    assert_eq!(NonNull(5i64).null_order_cmp(&NonNull(5), true), Ordering::Equal);
    assert!(NonNull(7i64).tot_eq(&NonNull(7)));
    assert!(!NonNull(7i64).tot_eq(&NonNull(8)));
}

#[test]
fn integer_total_order() {
    assert_eq!(1i64.tot_cmp(&2), Ordering::Less);
    assert_eq!(2i64.tot_cmp(&1), Ordering::Greater);
    assert_eq!((-3i64).tot_cmp(&-3), Ordering::Equal);
    assert!((-3i64).tot_eq(&-3));
    assert!(!1i64.tot_eq(&2));
    assert_eq!(1u32.tot_cmp(&2), Ordering::Less);
    assert!(7u32.tot_eq(&7));
}
