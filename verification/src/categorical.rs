//! Dictionary-encoded (categorical) columns and their lexical ordering.
//!
//! A categorical column stores small integer codes; comparing codes orders by
//! code assignment, not by the strings the codes stand for. When lexical
//! ordering is requested, the comparator indirects each code through the
//! shared code-to-string mapping and orders by the strings; otherwise it
//! falls back to the plain code comparator, with no string lookup at all.

use vstd::prelude::*;
use core::cmp::Ordering;
use crate::total_ord::{TotalEq, TotalOrd};
use crate::lex::{lemma_lex_cmp_antisymmetric, lemma_lex_cmp_eq, lemma_lex_cmp_transitive, lex_cmp};
use crate::column::{ChunkedArrayLayout, Column};
use crate::compare_inner::{lemma_no_null_cell_cmp, lemma_null_order_antisymmetric, lemma_null_order_reflexive, lemma_null_order_transitive, NonNull, NullOrderCmp, TotalOrdInner};

verus! {

/// Shared, read-only association from an integer code to the byte string it
/// represents. It outlives any comparator built against it.
pub struct CategoricalMapping {
    pub strs: Vec<Vec<u8>>,
}

impl View for CategoricalMapping {
    type V = Seq<Seq<u8>>;

    open spec fn view(&self) -> Seq<Seq<u8>> {
        Seq::new(self.strs@.len(), |i: int| self.strs@[i]@)
    }
}

impl CategoricalMapping {
    pub fn new(strs: Vec<Vec<u8>>) -> (r: CategoricalMapping)
        ensures
            r.strs@ == strs@,
    {
        CategoricalMapping { strs }
    }

    /// Number of codes the mapping defines.
    pub fn num_cats(&self) -> (r: usize)
        ensures
            r == self@.len(),
    {
        self.strs.len()
    }

    /// Unchecked code-to-string lookup: a code with no entry is a
    /// precondition violation, not a reported error.
    pub fn cat_to_str_unchecked(&self, cat: u32) -> (r: &Vec<u8>)
        requires
            (cat as int) < self@.len(),
        ensures
            r@ == self@[cat as int],
    {
        &self.strs[cat as usize]
    }
}

/// The string cells a code column stands for under a dictionary: a null code
/// is a null string cell, a present code is the string it maps to.
pub open spec fn str_cells(phys: Seq<Option<u32>>, dict: Seq<Seq<u8>>) -> Seq<Option<Seq<u8>>> {
    Seq::new(
        phys.len(),
        |i: int|
            match phys[i] {
                None => None,
                Some(c) => Some(dict[c as int]),
            },
    )
}

/// The null-placement policy over nullable string cells, with the
/// lexicographic order deciding between two present strings.
pub open spec fn null_lex_cmp(a: Option<Seq<u8>>, b: Option<Seq<u8>>, nulls_last: bool) -> Ordering {
    match (a, b) {
        (None, None) => Ordering::Equal,
        (None, Some(_)) => if nulls_last {
            Ordering::Greater
        } else {
            Ordering::Less
        },
        (Some(_), None) => if nulls_last {
            Ordering::Less
        } else {
            Ordering::Greater
        },
        (Some(l), Some(r)) => lex_cmp(l, r),
    }
}

/// The lexical accessor substituted for a categorical column when lexical
/// ordering is requested: each fetched code is resolved through the shared
/// mapping, and rows compare by the strings obtained.
pub struct LexicalCategorical {
    pub mapping: CategoricalMapping,
    pub cats: Column<u32>,
}

impl LexicalCategorical {
    /// Every present code has an entry in the mapping.
    pub open spec fn codes_in_range(&self) -> bool {
        forall|i: int|
            0 <= i < self.cats@.len() && self.cats@[i] is Some ==> (#[trigger] self.cats@[i]).unwrap()
                < self.mapping@.len()
    }

    /// The string cells this accessor exposes.
    pub open spec fn cells(&self) -> Seq<Option<Seq<u8>>> {
        str_cells(self.cats@, self.mapping@)
    }

    /// Resolves a row's code and indirects it through the shared mapping:
    /// the string cell the row stands for, or `None` for a null code.
    pub fn get_unchecked(&self, idx: usize) -> (r: Option<&Vec<u8>>)
        requires
            self.cats.wf(),
            self.codes_in_range(),
            idx < self.cats@.len(),
        ensures
            match r {
                None => self.cells()[idx as int] is None,
                Some(s) => self.cells()[idx as int] == Some(s@),
            },
    {
        let cat = self.cats.get_unchecked(idx);
        match cat {
            None => None,
            Some(c) => Some(self.mapping.cat_to_str_unchecked(c)),
        }
    }
}

impl TotalOrdInner for LexicalCategorical {
    open spec fn ord_wf(&self) -> bool {
        self.cats.wf() && self.codes_in_range()
    }

    open spec fn ord_len(&self) -> nat {
        self.cats@.len()
    }

    open spec fn cmp_at(&self, a: int, b: int, nulls_last: bool) -> Ordering {
        null_lex_cmp(self.cells()[a], self.cells()[b], nulls_last)
    }

    proof fn lemma_cmp_at_reflexive(&self, a: int, nulls_last: bool) {
        match self.cells()[a] {
            None => {
            },
            Some(s) => {
                lemma_lex_cmp_eq(s, s);
            },
        }
    }

    proof fn lemma_cmp_at_antisymmetric(&self, a: int, b: int, nulls_last: bool) {
        match (self.cells()[a], self.cells()[b]) {
            (Some(l), Some(r)) => {
                lemma_lex_cmp_antisymmetric(l, r);
            },
            _ => {
            },
        }
    }

    proof fn lemma_cmp_at_transitive(&self, a: int, b: int, c: int, nulls_last: bool) {
        match (self.cells()[a], self.cells()[b], self.cells()[c]) {
            (Some(x), Some(y), Some(z)) => {
                lemma_lex_cmp_transitive(x, y, z);
            },
            _ => {
            },
        }
    }

    fn cmp_element_unchecked(&self, idx_a: usize, idx_b: usize, nulls_last: bool) -> (r:
        Ordering) {
        let sa = self.get_unchecked(idx_a);
        let sb = self.get_unchecked(idx_b);
        match (sa, sb) {
            (None, None) => Ordering::Equal,
            (None, Some(_)) => if nulls_last {
                Ordering::Greater
            } else {
                Ordering::Less
            },
            (Some(_), None) => if nulls_last {
                Ordering::Less
            } else {
                Ordering::Greater
            },
            (Some(sx), Some(sy)) => sx.tot_cmp(sy),
        }
    }
}

/// A dictionary-encoded column: physical integer codes, the shared mapping
/// they refer to, and whether lexical ordering was requested for it.
pub struct CategoricalChunked {
    pub phys: Column<u32>,
    pub mapping: CategoricalMapping,
    pub lexical: bool,
}

/// The ordering comparator of a categorical column: the lexical adapter when
/// lexical ordering was requested, else the plain code comparator in the
/// shape the code column's layout calls for.
pub enum CatOrdInner {
    Lexical(LexicalCategorical),
    CodeNotNull(NonNull<Column<u32>>),
    CodeNullable(Column<u32>),
}

impl TotalOrdInner for CatOrdInner {
    open spec fn ord_wf(&self) -> bool {
        match self {
            CatOrdInner::Lexical(c) => c.cats.wf() && c.codes_in_range(),
            CatOrdInner::CodeNotNull(c) => c.0.wf() && c.0.no_nulls(),
            CatOrdInner::CodeNullable(c) => c.wf(),
        }
    }

    open spec fn ord_len(&self) -> nat {
        match self {
            CatOrdInner::Lexical(c) => c.cats@.len(),
            CatOrdInner::CodeNotNull(c) => c.0@.len(),
            CatOrdInner::CodeNullable(c) => c@.len(),
        }
    }

    open spec fn cmp_at(&self, a: int, b: int, nulls_last: bool) -> Ordering {
        match self {
            CatOrdInner::Lexical(c) => null_lex_cmp(c.cells()[a], c.cells()[b], nulls_last),
            CatOrdInner::CodeNotNull(c) => c.0@[a].unwrap().tot_cmp_spec(&c.0@[b].unwrap()),
            CatOrdInner::CodeNullable(c) => c@[a].null_order_cmp_spec(&c@[b], nulls_last),
        }
    }

    proof fn lemma_cmp_at_reflexive(&self, a: int, nulls_last: bool) {
        match self {
            CatOrdInner::Lexical(c) => {
                match c.cells()[a] {
                    None => {
                    },
                    Some(s) => {
                        lemma_lex_cmp_eq(s, s);
                    },
                }
            },
            CatOrdInner::CodeNotNull(c) => {
                let v = c.0@[a].unwrap();
                v.lemma_tot_cmp_eq(&v);
                v.lemma_tot_eq_reflexive();
            },
            CatOrdInner::CodeNullable(c) => {
                lemma_null_order_reflexive(c@[a], nulls_last);
            },
        }
    }

    proof fn lemma_cmp_at_antisymmetric(&self, a: int, b: int, nulls_last: bool) {
        match self {
            CatOrdInner::Lexical(c) => {
                match (c.cells()[a], c.cells()[b]) {
                    (Some(l), Some(r)) => {
                        lemma_lex_cmp_antisymmetric(l, r);
                    },
                    _ => {
                    },
                }
            },
            CatOrdInner::CodeNotNull(c) => {
                c.0@[a].unwrap().lemma_tot_cmp_antisymmetric(&c.0@[b].unwrap());
            },
            CatOrdInner::CodeNullable(c) => {
                lemma_null_order_antisymmetric(c@[a], c@[b], nulls_last);
            },
        }
    }

    proof fn lemma_cmp_at_transitive(&self, a: int, b: int, c: int, nulls_last: bool) {
        match self {
            CatOrdInner::Lexical(x) => {
                match (x.cells()[a], x.cells()[b], x.cells()[c]) {
                    (Some(p), Some(q), Some(r)) => {
                        lemma_lex_cmp_transitive(p, q, r);
                    },
                    _ => {
                    },
                }
            },
            CatOrdInner::CodeNotNull(x) => {
                x.0@[a].unwrap().lemma_tot_cmp_transitive(&x.0@[b].unwrap(), &x.0@[c].unwrap());
            },
            CatOrdInner::CodeNullable(x) => {
                lemma_null_order_transitive(x@[a], x@[b], x@[c], nulls_last);
            },
        }
    }

    fn cmp_element_unchecked(&self, idx_a: usize, idx_b: usize, nulls_last: bool) -> (r:
        Ordering) {
        match self {
            CatOrdInner::Lexical(c) => c.cmp_element_unchecked(idx_a, idx_b, nulls_last),
            CatOrdInner::CodeNotNull(c) => c.cmp_element_unchecked(idx_a, idx_b, nulls_last),
            CatOrdInner::CodeNullable(c) => c.cmp_element_unchecked(idx_a, idx_b, nulls_last),
        }
    }
}

impl CategoricalChunked {
    pub open spec fn wf(&self) -> bool {
        &&& self.phys.wf()
        &&& forall|i: int|
            0 <= i < self.phys@.len() && self.phys@[i] is Some ==> (#[trigger] self.phys@[i]).unwrap()
                < self.mapping@.len()
    }

    pub fn new(phys: Column<u32>, mapping: CategoricalMapping, lexical: bool) -> (r:
        CategoricalChunked)
        requires
            phys.wf(),
            forall|i: int|
                0 <= i < phys@.len() && phys@[i] is Some ==> (#[trigger] phys@[i]).unwrap()
                    < mapping@.len(),
        ensures
            r.wf(),
            r.phys == phys,
            r.mapping == mapping,
            r.lexical == lexical,
    {
        CategoricalChunked { phys, mapping, lexical }
    }

    /// Whether lexical (string-based) ordering was requested for this column.
    pub fn uses_lexical_ordering(&self) -> (r: bool)
        ensures
            r == self.lexical,
    {
        self.lexical
    }

    /// The shared code-to-string mapping this column refers to.
    pub fn get_mapping(&self) -> (r: &CategoricalMapping)
        ensures
            r@ == self.mapping@,
    {
        &self.mapping
    }

    /// Factory for the ordering comparator: substitutes the lexical adapter
    /// exactly when lexical ordering was requested; else classifies the
    /// physical code column and picks the plain code comparator in the
    /// matching shape — no string materialization, no dictionary lookup.
    pub fn into_total_ord_inner(self) -> (r: CatOrdInner)
        requires
            self.wf(),
        ensures
            r.ord_wf(),
            r.ord_len() == self.phys@.len(),
            (r is Lexical) == self.lexical,
            self.lexical ==> forall|a: int, b: int, nulls_last: bool|
                0 <= a < self.phys@.len() && 0 <= b < self.phys@.len() ==> #[trigger] r.cmp_at(
                    a,
                    b,
                    nulls_last,
                ) == null_lex_cmp(
                    str_cells(self.phys@, self.mapping@)[a],
                    str_cells(self.phys@, self.mapping@)[b],
                    nulls_last,
                ),
            !self.lexical ==> forall|a: int, b: int, nulls_last: bool|
                0 <= a < self.phys@.len() && 0 <= b < self.phys@.len() ==> #[trigger] r.cmp_at(
                    a,
                    b,
                    nulls_last,
                ) == self.phys@[a].null_order_cmp_spec(&self.phys@[b], nulls_last),
    {
        let ghost v = self.phys@;
        let CategoricalChunked { phys, mapping, lexical } = self;
        if lexical {
            CatOrdInner::Lexical(LexicalCategorical { mapping, cats: phys })
        } else {
            match phys.layout() {
                ChunkedArrayLayout::SingleNoNull => {
                    let r = CatOrdInner::CodeNotNull(NonNull(phys));
                    proof {
                        lemma_no_null_cell_cmp::<u32>(v);
                    }
                    r
                },
                ChunkedArrayLayout::Single => CatOrdInner::CodeNullable(phys),
                ChunkedArrayLayout::MultiNoNull => {
                    let r = CatOrdInner::CodeNotNull(NonNull(phys));
                    proof {
                        lemma_no_null_cell_cmp::<u32>(v);
                    }
                    r
                },
                ChunkedArrayLayout::Multi => CatOrdInner::CodeNullable(phys),
            }
        }
    }
}

} // verus!
