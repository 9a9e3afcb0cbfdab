//! Row-comparison core for columnar data: builds, once per column, an opaque
//! comparator that answers pairwise "equal?" and "how do these order?" over
//! logical row indices, handling nulls, multi-block storage, the null-free
//! fast path, dictionary-encoded (categorical) columns with lexical ordering,
//! and the degenerate all-null column.

pub mod categorical;
pub mod column;
pub mod compare_inner;
pub mod laws;
pub mod lex;
pub mod total_ord;
