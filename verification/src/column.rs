//! The column model: a read-only logical sequence of rows, each valued or
//! null, stored physically as one or more contiguous blocks.
//!
//! A column's mathematical value is the flattened sequence of its cells,
//! `Seq<Option<T>>`; every accessor and comparator contract speaks of that
//! sequence. The layout classifier tags a column, once, with its block count
//! and null presence; each block caches its null count so classification is
//! linear in the number of blocks, not rows.

use vstd::prelude::*;

verus! {

/// Number of null cells in a sequence of cells.
pub open spec fn nulls_in<T>(s: Seq<Option<T>>) -> nat
    decreases s.len(),
{
    if s.len() == 0 {
        0
    } else {
        nulls_in(s.drop_last()) + (if s.last() is None {
            1nat
        } else {
            0nat
        })
    }
}

/// Every cell of the sequence holds a value.
pub open spec fn no_nulls_in<T>(s: Seq<Option<T>>) -> bool {
    forall|i: int| 0 <= i < s.len() ==> s[i] is Some
}

/// A zero null count says exactly that every cell holds a value.
pub proof fn lemma_nulls_in_zero<T>(s: Seq<Option<T>>)
    ensures
        (nulls_in(s) == 0) == no_nulls_in(s),
    decreases s.len(),
{
    if s.len() > 0 {
        lemma_nulls_in_zero(s.drop_last());
        if nulls_in(s) == 0 {
            assert forall|i: int| 0 <= i < s.len() implies s[i] is Some by {
                if i < s.len() - 1 {
                    assert(s.drop_last()[i] is Some);
                }
            }
        } else {
            if s.last() is None {
                assert(!(s[s.len() - 1] is Some));
            } else {
                let i = choose|i: int| 0 <= i < s.drop_last().len() && !(s.drop_last()[i] is Some);
                assert(!(s[i] is Some));
            }
        }
    }
}

/// A concatenation is null-free exactly when both halves are.
pub proof fn lemma_no_nulls_concat<T>(a: Seq<Option<T>>, b: Seq<Option<T>>)
    ensures
        no_nulls_in(a + b) == (no_nulls_in(a) && no_nulls_in(b)),
{
    if no_nulls_in(a) && no_nulls_in(b) {
        assert forall|i: int| 0 <= i < (a + b).len() implies (a + b)[i] is Some by {
            if i < a.len() {
                assert(a[i] is Some);
            } else {
                assert(b[i - a.len()] is Some);
            }
        }
    }
    if no_nulls_in(a + b) {
        assert forall|i: int| 0 <= i < a.len() implies a[i] is Some by {
            assert((a + b)[i] is Some);
        }
        assert forall|i: int| 0 <= i < b.len() implies b[i] is Some by {
            assert((a + b)[a.len() + i] is Some);
        }
    }
}

/// One contiguous physical storage segment of a column. `validity[i]` says
/// whether row `i` of the block holds `values[i]` or is null; `null_count`
/// caches how many rows are null.
pub struct Block<T> {
    pub values: Vec<T>,
    pub validity: Vec<bool>,
    pub null_count: usize,
}

impl<T> View for Block<T> {
    type V = Seq<Option<T>>;

    open spec fn view(&self) -> Seq<Option<T>> {
        Seq::new(
            self.values@.len(),
            |i: int|
                if self.validity@[i] {
                    Some(self.values@[i])
                } else {
                    None
                },
        )
    }
}

impl<T> Block<T> {
    pub open spec fn wf(&self) -> bool {
        &&& self.validity@.len() == self.values@.len()
        &&& self.null_count == nulls_in(self@)
    }

    /// Builds a block from its values and validity, counting the nulls once.
    pub fn new(values: Vec<T>, validity: Vec<bool>) -> (r: Block<T>)
        requires
            validity@.len() == values@.len(),
        ensures
            r.wf(),
            r.values@ == values@,
            r.validity@ == validity@,
    {
        let ghost cells = Seq::new(
            values@.len(),
            |i: int|
                if validity@[i] {
                    Some(values@[i])
                } else {
                    None::<T>
                },
        );
        let n = values.len();
        let mut nulls: usize = 0;
        let mut i: usize = 0;
        while i < n
            invariant
                i <= n,
                nulls <= i,
                n == values@.len(),
                validity@.len() == n,
                cells == Seq::new(
                    values@.len(),
                    |j: int|
                        if validity@[j] {
                            Some(values@[j])
                        } else {
                            None::<T>
                        },
                ),
                nulls == nulls_in(cells.take(i as int)),
            decreases n - i,
        {
            proof {
                assert(cells.take(i as int + 1).drop_last() =~= cells.take(i as int));
                assert(cells.take(i as int + 1).last() == cells[i as int]);
            }
            if !validity[i] {
                nulls = nulls + 1;
            }
            i = i + 1;
        }
        proof {
            assert(cells.take(n as int) =~= cells);
        }
        let r = Block { values, validity, null_count: nulls };
        proof {
            assert(r@ =~= cells);
        }
        r
    }
}

/// The cells of a sequence of blocks, flattened in block order.
pub open spec fn cells_of<T>(blocks: Seq<Block<T>>) -> Seq<Option<T>>
    decreases blocks.len(),
{
    if blocks.len() == 0 {
        Seq::empty()
    } else {
        blocks[0]@ + cells_of(blocks.drop_first())
    }
}

/// Splitting a block sequence anywhere splits its flattened cells there.
pub proof fn lemma_cells_of_split<T>(s: Seq<Block<T>>, k: int)
    requires
        0 <= k <= s.len(),
    ensures
        cells_of(s) == cells_of(s.take(k)) + cells_of(s.skip(k)),
    decreases k,
{
    if k == 0 {
        assert(s.take(0) =~= Seq::<Block<T>>::empty());
        assert(s.skip(0) =~= s);
        assert(cells_of(s.take(0)) + cells_of(s.skip(0)) =~= cells_of(s));
    } else {
        lemma_cells_of_split(s.drop_first(), k - 1);
        assert(s.drop_first().take(k - 1) =~= s.take(k).drop_first());
        assert(s.drop_first().skip(k - 1) =~= s.skip(k));
        assert(s.take(k)[0] == s[0]);
        assert(cells_of(s) =~= cells_of(s.take(k)) + cells_of(s.skip(k)));
    }
}

/// Peeling one block off the front of the remaining blocks.
pub proof fn lemma_cells_of_step<T>(s: Seq<Block<T>>, b: int)
    requires
        0 <= b < s.len(),
    ensures
        cells_of(s.skip(b)) == s[b]@ + cells_of(s.skip(b + 1)),
{
    assert(s.skip(b).len() > 0);
    assert(s.skip(b)[0] == s[b]);
    assert(s.skip(b).drop_first() =~= s.skip(b + 1));
}

/// Classification of a column's physical shape, fixed at
/// comparator-construction time: block count and null presence.
#[derive(Clone, Copy, PartialEq, Eq, Structural, Debug)]
pub enum ChunkedArrayLayout {
    SingleNoNull,
    Single,
    MultiNoNull,
    Multi,
}

/// A column: one or more ordered, immutable blocks of cells. Its logical
/// value is the flattened cell sequence `self@`.
pub struct Column<T> {
    pub blocks: Vec<Block<T>>,
}

impl<T> View for Column<T> {
    type V = Seq<Option<T>>;

    open spec fn view(&self) -> Seq<Option<T>> {
        cells_of(self.blocks@)
    }
}

impl<T> Column<T> {
    pub open spec fn wf(&self) -> bool {
        &&& self.blocks@.len() >= 1
        &&& forall|b: int| 0 <= b < self.blocks@.len() ==> (#[trigger] self.blocks@[b]).wf()
        &&& self@.len() <= usize::MAX
    }

    /// Every row of the column holds a value.
    pub open spec fn no_nulls(&self) -> bool {
        no_nulls_in(self@)
    }

    /// The layout tag the classifier must return.
    pub open spec fn layout_spec(&self) -> ChunkedArrayLayout {
        if self.blocks@.len() == 1 {
            if self.no_nulls() {
                ChunkedArrayLayout::SingleNoNull
            } else {
                ChunkedArrayLayout::Single
            }
        } else {
            if self.no_nulls() {
                ChunkedArrayLayout::MultiNoNull
            } else {
                ChunkedArrayLayout::Multi
            }
        }
    }

    /// Wraps blocks into a column.
    pub fn new(blocks: Vec<Block<T>>) -> (r: Column<T>)
        requires
            blocks@.len() >= 1,
            forall|b: int| 0 <= b < blocks@.len() ==> (#[trigger] blocks@[b]).wf(),
            cells_of(blocks@).len() <= usize::MAX,
        ensures
            r.wf(),
            r.blocks@ == blocks@,
            r@ == cells_of(blocks@),
    {
        Column { blocks }
    }

    /// Logical length: the number of rows over all blocks.
    pub fn len(&self) -> (r: usize)
        requires
            self.wf(),
        ensures
            r == self@.len(),
    {
        let n = self.blocks.len();
        let mut total: usize = 0;
        let mut b: usize = 0;
        while b < n
            invariant
                b <= n,
                n == self.blocks@.len(),
                self.wf(),
                total == cells_of(self.blocks@.take(b as int)).len(),
            decreases n - b,
        {
            proof {
                lemma_cells_of_split(self.blocks@, b as int);
                lemma_cells_of_split(self.blocks@, b as int + 1);
                lemma_cells_of_step(self.blocks@, b as int);
            }
            total = total + self.blocks[b].values.len();
            b = b + 1;
        }
        proof {
            assert(self.blocks@.take(n as int) =~= self.blocks@);
        }
        total
    }

    /// Classifies the column: block count and null presence, read once from
    /// the per-block null counts.
    pub fn layout(&self) -> (r: ChunkedArrayLayout)
        requires
            self.wf(),
        ensures
            r == self.layout_spec(),
    {
        let n = self.blocks.len();
        let mut any_null = false;
        let mut b: usize = 0;
        while b < n
            invariant
                b <= n,
                n == self.blocks@.len(),
                self.wf(),
                any_null == !no_nulls_in(cells_of(self.blocks@.take(b as int))),
            decreases n - b,
        {
            proof {
                lemma_cells_of_split(self.blocks@, b as int);
                lemma_cells_of_split(self.blocks@, b as int + 1);
                lemma_cells_of_step(self.blocks@, b as int);
                let s = self.blocks@;
                let pre = cells_of(s.take(b as int));
                let blk = s[b as int]@;
                let post = cells_of(s.skip(b as int + 1));
                let pre1 = cells_of(s.take(b as int + 1));
                assert(pre1 + post == pre + (blk + post));
                assert(pre + (blk + post) =~= (pre + blk) + post);
                assert(pre1.len() == pre.len() + blk.len());
                assert forall|i: int| 0 <= i < pre1.len() implies pre1[i] == (pre + blk)[i] by {
                    assert((pre1 + post)[i] == ((pre + blk) + post)[i]);
                }
                assert(pre1 =~= pre + blk);
                lemma_no_nulls_concat(pre, blk);
                lemma_nulls_in_zero(blk);
            }
            if self.blocks[b].null_count > 0 {
                any_null = true;
            }
            b = b + 1;
        }
        proof {
            assert(self.blocks@.take(n as int) =~= self.blocks@);
        }
        if self.blocks.len() == 1 {
            if any_null {
                ChunkedArrayLayout::Single
            } else {
                ChunkedArrayLayout::SingleNoNull
            }
        } else {
            if any_null {
                ChunkedArrayLayout::Multi
            } else {
                ChunkedArrayLayout::MultiNoNull
            }
        }
    }
}

impl<T: Copy> Column<T> {
    /// Resolves a logical row index to its cell: `Some(payload)` for a valued
    /// row, `None` for a null row. Multi-block columns are resolved by a
    /// monotonic prefix walk over block lengths.
    pub fn get_unchecked(&self, idx: usize) -> (r: Option<T>)
        requires
            self.wf(),
            idx < self@.len(),
        ensures
            r == self@[idx as int],
    {
        let n = self.blocks.len();
        let mut b: usize = 0;
        let mut rem: usize = idx;
        proof {
            assert(self.blocks@.skip(0) =~= self.blocks@);
        }
        while b < n
            invariant
                b <= n,
                n == self.blocks@.len(),
                self.wf(),
                rem < cells_of(self.blocks@.skip(b as int)).len(),
                cells_of(self.blocks@.skip(b as int))[rem as int] == self@[idx as int],
            decreases n - b,
        {
            proof {
                lemma_cells_of_step(self.blocks@, b as int);
            }
            let blk = &self.blocks[b];
            if rem < blk.values.len() {
                let r = if blk.validity[rem] {
                    Some(blk.values[rem])
                } else {
                    None
                };
                proof {
                    assert(blk@[rem as int] == r);
                }
                return r;
            }
            rem = rem - blk.values.len();
            b = b + 1;
        }
        proof {
            assert(self.blocks@.skip(n as int) =~= Seq::<Block<T>>::empty());
            assert(false);
        }
        None
    }

    /// Resolves a row statically known to be valued, bypassing the validity
    /// branch of the nullable path.
    pub fn value_unchecked(&self, idx: usize) -> (r: T)
        requires
            self.wf(),
            idx < self@.len(),
            self@[idx as int] is Some,
        ensures
            Some(r) == self@[idx as int],
    {
        let n = self.blocks.len();
        let mut b: usize = 0;
        let mut rem: usize = idx;
        proof {
            assert(self.blocks@.skip(0) =~= self.blocks@);
        }
        while b < n
            invariant
                b <= n,
                n == self.blocks@.len(),
                self.wf(),
                rem < cells_of(self.blocks@.skip(b as int)).len(),
                cells_of(self.blocks@.skip(b as int))[rem as int] == self@[idx as int],
                self@[idx as int] is Some,
            decreases n - b,
        {
            proof {
                lemma_cells_of_step(self.blocks@, b as int);
            }
            let blk = &self.blocks[b];
            if rem < blk.values.len() {
                proof {
                    assert(blk@[rem as int] == self@[idx as int]);
                }
                return blk.values[rem];
            }
            rem = rem - blk.values.len();
            b = b + 1;
        }
        proof {
            assert(self.blocks@.skip(n as int) =~= Seq::<Block<T>>::empty());
            assert(false);
        }
        self.blocks[0].values[0]
    }
}

/// A column representation that holds only nulls: no payload storage, just a
/// length.
pub struct NullChunked {
    pub length: usize,
}

impl NullChunked {
    pub fn new(length: usize) -> (r: NullChunked)
        ensures
            r.length == length,
    {
        NullChunked { length }
    }
}

} // verus!
