//! Lexicographic total order over byte strings.
//!
//! Dictionary entries of a categorical column are byte strings; lexical
//! ordering of such a column compares the strings a pair of codes stand for.
//! `lex_cmp` is the mathematical order, `Vec<u8>` carries the executable
//! comparison, and the lemmas establish that `lex_cmp` is a total order.

use vstd::prelude::*;
use core::cmp::Ordering;
use crate::total_ord::{TotalEq, TotalOrd, reversed};

verus! {

/// Lexicographic comparison of two byte sequences: the first differing byte
/// decides; a proper prefix sorts before the longer sequence.
pub open spec fn lex_cmp(a: Seq<u8>, b: Seq<u8>) -> Ordering
    decreases a.len(),
{
    if a.len() == 0 && b.len() == 0 {
        Ordering::Equal
    } else if a.len() == 0 {
        Ordering::Less
    } else if b.len() == 0 {
        Ordering::Greater
    } else if a[0] < b[0] {
        Ordering::Less
    } else if a[0] > b[0] {
        Ordering::Greater
    } else {
        lex_cmp(a.drop_first(), b.drop_first())
    }
}

/// The lexicographic order calls two sequences equal exactly when they are
/// the same sequence.
pub proof fn lemma_lex_cmp_eq(a: Seq<u8>, b: Seq<u8>)
    ensures
        (lex_cmp(a, b) == Ordering::Equal) == (a == b),
    decreases a.len(),
{
    if a.len() == 0 && b.len() == 0 {
        assert(a =~= b);
    } else if a.len() == 0 || b.len() == 0 {
        assert(a != b);
    } else if a[0] == b[0] {
        lemma_lex_cmp_eq(a.drop_first(), b.drop_first());
        if a.drop_first() == b.drop_first() {
            assert forall|i: int| 0 <= i < a.len() implies a[i] == b[i] by {
                if i > 0 {
                    assert(a.drop_first()[i - 1] == b.drop_first()[i - 1]);
                }
            }
            assert(a =~= b);
        } else {
            assert(a != b) by {
                if a == b {
                    assert(a.drop_first() =~= b.drop_first());
                }
            }
        }
    } else {
        assert(a != b) by {
            if a == b {
                assert(a[0] == b[0]);
            }
        }
    }
}

/// Swapping the operands mirrors the lexicographic outcome.
pub proof fn lemma_lex_cmp_antisymmetric(a: Seq<u8>, b: Seq<u8>)
    ensures
        lex_cmp(b, a) == reversed(lex_cmp(a, b)),
    decreases a.len(),
{
    if a.len() > 0 && b.len() > 0 && a[0] == b[0] {
        lemma_lex_cmp_antisymmetric(a.drop_first(), b.drop_first());
    }
}

/// The strict lexicographic order composes: below and below is below.
pub proof fn lemma_lex_cmp_transitive(a: Seq<u8>, b: Seq<u8>, c: Seq<u8>)
    requires
        lex_cmp(a, b) == Ordering::Less,
        lex_cmp(b, c) == Ordering::Less,
    ensures
        lex_cmp(a, c) == Ordering::Less,
    decreases a.len(),
{
    if a.len() == 0 {
        // b is longer than empty, and so is c: an empty a sorts below c.
        assert(b.len() > 0);
        assert(c.len() > 0);
    } else {
        assert(b.len() > 0);
        assert(c.len() > 0);
        if a[0] == b[0] && b[0] == c[0] {
            lemma_lex_cmp_transitive(a.drop_first(), b.drop_first(), c.drop_first());
        }
    }
}

impl TotalEq for Vec<u8> {
    open spec fn tot_eq_spec(&self, other: &Self) -> bool {
        self@ == other@
    }

    proof fn lemma_tot_eq_reflexive(&self) {
    }

    proof fn lemma_tot_eq_symmetric(&self, other: &Self) {
    }

    fn tot_eq(&self, other: &Self) -> (r: bool) {
        let o = self.tot_cmp(other);
        proof {
            lemma_lex_cmp_eq(self@, other@);
        }
        matches!(o, Ordering::Equal)
    }
}

impl TotalOrd for Vec<u8> {
    open spec fn tot_cmp_spec(&self, other: &Self) -> Ordering {
        lex_cmp(self@, other@)
    }

    proof fn lemma_tot_cmp_eq(&self, other: &Self) {
        lemma_lex_cmp_eq(self@, other@);
    }

    proof fn lemma_tot_cmp_antisymmetric(&self, other: &Self) {
        lemma_lex_cmp_antisymmetric(self@, other@);
    }

    proof fn lemma_tot_cmp_transitive(&self, mid: &Self, far: &Self) {
        lemma_lex_cmp_transitive(self@, mid@, far@);
    }

    proof fn lemma_tot_cmp_substitutive(&self, other: &Self, witness: &Self) {
        lemma_lex_cmp_eq(self@, other@);
    }

    fn tot_cmp(&self, other: &Self) -> (r: Ordering) {
        let mut i: usize = 0;
        proof {
            assert(self@.skip(0) =~= self@);
            assert(other@.skip(0) =~= other@);
        }
        loop
            invariant
                i <= self@.len(),
                i <= other@.len(),
                lex_cmp(self@, other@) == lex_cmp(self@.skip(i as int), other@.skip(i as int)),
            decreases self@.len() - i,
        {
            proof {
                if i < self@.len() && i < other@.len() {
                    assert(self@.skip(i as int).drop_first() =~= self@.skip(i as int + 1));
                    assert(other@.skip(i as int).drop_first() =~= other@.skip(i as int + 1));
                }
            }
            if i == self.len() {
                if i == other.len() {
                    return Ordering::Equal;
                }
                return Ordering::Less;
            }
            if i == other.len() {
                return Ordering::Greater;
            }
            let x = self[i];
            let y = other[i];
            if x < y {
                return Ordering::Less;
            }
            if x > y {
                return Ordering::Greater;
            }
            i = i + 1;
        }
    }
}

} // verus!
