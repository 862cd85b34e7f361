//! Rows of a byte buffer, worked on side by side.

use rayon::prelude::IndexedParallelIterator;
use rayon::prelude::ParallelIterator;
use rayon::prelude::ParallelSliceMut;
use vstd::prelude::*;

verus! {

/// Row `index` of a buffer whose rows are `row_len` bytes long.
pub open spec fn row_of(buf: Seq<u8>, index: int, row_len: int) -> Seq<u8> {
    buf.subrange(index * row_len, index * row_len + row_len)
}

/// Work on one row of a buffer that depends on the row's number and on what
/// the row held, and on nothing that another row's work changes.
pub(crate) trait RowKernel {
    /// What the kernel needs to hold of itself before it is applied.
    spec fn ready(&self) -> bool;

    /// The length of a row, in bytes.
    spec fn row_len(&self) -> nat;

    /// The number of rows.
    spec fn rows(&self) -> nat;

    /// The row with number `index` after the work, given the row before it.
    spec fn row_after(&self, index: int, before: Seq<u8>) -> Seq<u8>;

    fn apply(&self, index: usize, row: &mut [u8])
        requires
            self.ready(),
            index < self.rows(),
            old(row)@.len() == self.row_len(),
        ensures
            final(row)@ == self.row_after(index as int, old(row)@),
            final(row)@.len() == old(row)@.len(),
    ;
}

/// Applies a kernel to every row of a buffer on rayon's thread pool:
/// `par_chunks_mut(row_len)`, `enumerate()` and `for_each(..)`.
///
/// Believed of rayon: the buffer is cut into consecutive chunks of `row_len`
/// bytes that do not overlap, `enumerate` numbers them from zero in the
/// buffer's order, and `for_each` runs the closure once on each, returning
/// when all are done. So every row holds afterwards what the kernel makes of
/// what it held before. `par_chunks_mut` panics on a chunk size of zero, which
/// the precondition leaves out.
#[verifier::external_body]
fn for_each_row<K: RowKernel + Sync>(buffer: &mut [u8], row_len: usize, kernel: &K)
    requires
        row_len > 0,
        kernel.ready(),
        kernel.row_len() == row_len,
        old(buffer)@.len() == kernel.rows() * row_len,
    ensures
        final(buffer)@.len() == old(buffer)@.len(),
        forall|i: int|
            0 <= i < kernel.rows() ==> #[trigger] row_of(final(buffer)@, i, row_len as int)
                == kernel.row_after(i, row_of(old(buffer)@, i, row_len as int)),
{
    buffer.par_chunks_mut(row_len).enumerate().for_each(|(index, row)| kernel.apply(index, row));
}

/// A byte of a buffer is a byte of the row it lies in.
pub proof fn lemma_byte_in_row(buf: Seq<u8>, k: int, row_len: int, rows: int)
    requires
        row_len > 0,
        rows >= 0,
        buf.len() == rows * row_len,
        0 <= k < buf.len(),
    ensures
        0 <= k / row_len < rows,
        0 <= k % row_len < row_len,
        buf[k] == row_of(buf, k / row_len, row_len)[k % row_len],
{
    vstd::arithmetic::div_mod::lemma_fundamental_div_mod(k, row_len);
    vstd::arithmetic::div_mod::lemma_mod_bound(k, row_len);
    let q = k / row_len;
    let r = k % row_len;
    assert(0 <= q < rows && q * row_len == row_len * q && q * row_len + row_len <= rows * row_len)
        by (nonlinear_arith)
        requires
            row_len > 0,
            0 <= k < rows * row_len,
            k == row_len * q + r,
            0 <= r < row_len,
    ;
}

/// Applies `kernel` to every row of `buffer`, the rows side by side. Byte
/// `k` of the buffer holds afterwards what the kernel makes of byte
/// `k % row_len` of row `k / row_len`.
pub(crate) fn run_rows<K: RowKernel + Sync>(buffer: &mut [u8], row_len: usize, kernel: &K)
    requires
        row_len > 0,
        kernel.ready(),
        kernel.row_len() == row_len,
        old(buffer)@.len() == kernel.rows() * row_len,
    ensures
        final(buffer)@.len() == old(buffer)@.len(),
        forall|k: int|
            0 <= k < old(buffer)@.len() ==> #[trigger] final(buffer)@[k] == kernel.row_after(
                k / (row_len as int),
                row_of(old(buffer)@, k / (row_len as int), row_len as int),
            )[k % (row_len as int)],
{
    for_each_row(buffer, row_len, kernel);
    proof {
        assert forall|k: int| 0 <= k < old(buffer)@.len() implies #[trigger] buffer@[k]
            == kernel.row_after(
            k / (row_len as int),
            row_of(old(buffer)@, k / (row_len as int), row_len as int),
        )[k % (row_len as int)] by {
            lemma_byte_in_row(buffer@, k, row_len as int, kernel.rows() as int);
            let i = k / (row_len as int);
            assert(row_of(buffer@, i, row_len as int) == kernel.row_after(
                i,
                row_of(old(buffer)@, i, row_len as int),
            ));
        }
    }
}

} // verus!
