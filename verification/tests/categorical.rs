use std::cmp::Ordering;

use row_compare::categorical::{CategoricalChunked, CategoricalMapping};
use row_compare::column::{Block, Column};
use row_compare::compare_inner::TotalOrdInner;
use row_compare::total_ord::{TotalEq, TotalOrd};

fn mapping_from(strs: &[&str]) -> CategoricalMapping {
    let mut v: Vec<Vec<u8>> = Vec::new();
    for s in strs {
        v.push(s.as_bytes().to_vec());
    }
    CategoricalMapping::new(v)
}

fn codes_from(cells: &[Option<u32>]) -> Column<u32> {
    let mut values: Vec<u32> = Vec::new();
    let mut validity: Vec<bool> = Vec::new();
    for c in cells {
        match c {
            Some(v) => {
                values.push(*v);
                validity.push(true);
            },
            None => {
                values.push(0);
                validity.push(false);
            },
        }
    }
    Column::new(vec![Block::new(values, validity)])
}

#[test]
fn lexical_vs_code_ordering() {
    // Codes 0 -> "b", 1 -> "a", assigned to rows [0, 1]: code order and
    // lexical order must disagree on this pair.
    let rows = [Some(0), Some(1)];
    for nulls_last in [false, true] {
        let by_code = CategoricalChunked::new(codes_from(&rows), mapping_from(&["b", "a"]), false)
            .into_total_ord_inner();
        assert_eq!(by_code.cmp_element_unchecked(0, 1, nulls_last), Ordering::Less);
        let lexical = CategoricalChunked::new(codes_from(&rows), mapping_from(&["b", "a"]), true)
            .into_total_ord_inner();
        assert_eq!(lexical.cmp_element_unchecked(0, 1, nulls_last), Ordering::Greater);
    }
}

#[test]
fn lexical_equal_strings() {
    // Distinct codes for the same string: lexically equal, by code unequal.
    let rows = [Some(0), Some(1)];
    let lexical = CategoricalChunked::new(codes_from(&rows), mapping_from(&["x", "x"]), true)
        .into_total_ord_inner();
    assert_eq!(lexical.cmp_element_unchecked(0, 1, true), Ordering::Equal);
    let by_code = CategoricalChunked::new(codes_from(&rows), mapping_from(&["x", "x"]), false)
        .into_total_ord_inner();
    assert_eq!(by_code.cmp_element_unchecked(0, 1, true), Ordering::Less);
}

#[test]
fn lexical_null_placement() {
    let rows = [Some(0), None];
    let lexical = CategoricalChunked::new(codes_from(&rows), mapping_from(&["b", "a"]), true)
        .into_total_ord_inner();
    assert_eq!(lexical.cmp_element_unchecked(0, 1, true), Ordering::Less);
    assert_eq!(lexical.cmp_element_unchecked(0, 1, false), Ordering::Greater);
    assert_eq!(lexical.cmp_element_unchecked(1, 0, true), Ordering::Greater);
    assert_eq!(lexical.cmp_element_unchecked(1, 0, false), Ordering::Less);
    for nulls_last in [false, true] {
        assert_eq!(lexical.cmp_element_unchecked(1, 1, nulls_last), Ordering::Equal);
        assert_eq!(lexical.cmp_element_unchecked(0, 0, nulls_last), Ordering::Equal);
    }
}

#[test]
fn lexical_prefix_ordering() {
    // A proper prefix sorts before the longer string.
    let rows = [Some(0), Some(1)];
    let lexical = CategoricalChunked::new(codes_from(&rows), mapping_from(&["ab", "abc"]), true)
        .into_total_ord_inner();
    assert_eq!(lexical.cmp_element_unchecked(0, 1, true), Ordering::Less);
    assert_eq!(lexical.cmp_element_unchecked(1, 0, true), Ordering::Greater);
}

#[test]
fn lexical_reflexive_and_symmetric() {
    let rows = [Some(2), Some(0), None, Some(1)];
    let lexical = CategoricalChunked::new(
        codes_from(&rows),
        mapping_from(&["mid", "aa", "zz"]),
        true,
    )
        .into_total_ord_inner();
    for i in 0..rows.len() {
        for j in 0..rows.len() {
            for nulls_last in [false, true] {
                let fwd = lexical.cmp_element_unchecked(i, j, nulls_last);
                let bwd = lexical.cmp_element_unchecked(j, i, nulls_last);
                assert_eq!(fwd, bwd.reverse());
            }
        }
        assert_eq!(lexical.cmp_element_unchecked(i, i, true), Ordering::Equal);
    }
}

#[test]
fn code_fallback_no_string_semantics() {
    // Without lexical ordering the physical codes order the rows, even when
    // the mapped strings would order the other way around.
    let rows = [Some(0), Some(1), None];
    let by_code = CategoricalChunked::new(codes_from(&rows), mapping_from(&["zz", "aa"]), false)
        .into_total_ord_inner();
    assert_eq!(by_code.cmp_element_unchecked(0, 1, true), Ordering::Less);
    assert_eq!(by_code.cmp_element_unchecked(1, 0, true), Ordering::Greater);
    assert_eq!(by_code.cmp_element_unchecked(0, 2, true), Ordering::Less);
    assert_eq!(by_code.cmp_element_unchecked(0, 2, false), Ordering::Greater);
}

#[test]
fn mapping_lookup() {
    let mapping = mapping_from(&["b", "a"]);
    assert_eq!(mapping.num_cats(), 2);
    assert_eq!(mapping.cat_to_str_unchecked(0).as_slice(), b"b");
    assert_eq!(mapping.cat_to_str_unchecked(1).as_slice(), b"a");
}

#[test]
fn categorical_accessors() {
    let cat = CategoricalChunked::new(codes_from(&[Some(0)]), mapping_from(&["b", "a"]), true);
    assert!(cat.uses_lexical_ordering());
    assert_eq!(cat.get_mapping().num_cats(), 2);
    let cat = CategoricalChunked::new(codes_from(&[Some(0)]), mapping_from(&["b"]), false);
    assert!(!cat.uses_lexical_ordering());
}

#[test]
fn byte_string_total_order() {
    assert_eq!(b"a".to_vec().tot_cmp(&b"ab".to_vec()), Ordering::Less);
    assert_eq!(b"ab".to_vec().tot_cmp(&b"a".to_vec()), Ordering::Greater);
    assert_eq!(b"ab".to_vec().tot_cmp(&b"ab".to_vec()), Ordering::Equal);
    assert_eq!(b"b".to_vec().tot_cmp(&b"a".to_vec()), Ordering::Greater);
    assert_eq!(Vec::<u8>::new().tot_cmp(&Vec::new()), Ordering::Equal);
    assert_eq!(Vec::new().tot_cmp(&b"a".to_vec()), Ordering::Less);
    assert!(b"ab".to_vec().tot_eq(&b"ab".to_vec()));
    assert!(!b"ab".to_vec().tot_eq(&b"ac".to_vec()));
    assert!(!b"ab".to_vec().tot_eq(&b"a".to_vec()));
}
