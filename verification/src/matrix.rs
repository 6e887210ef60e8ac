//! The shape of coupling matrices.
//!
//! A coupling matrix is a list of rows. These functions build the layouts the
//! spectral code uses — rows cut from a flat row-major buffer, the identity,
//! a diagonal — and read entries of possibly ragged matrices, where a missing
//! entry means "no coupling". They are generic in the entry type and never
//! look at an entry's value.

use vstd::prelude::*;

verus! {

/// The row of width `n` that starts at row index `r` of a flat row-major
/// buffer; the last row is shorter when the buffer length is not a multiple
/// of `n`.
pub open spec fn flat_row<T>(data: Seq<T>, n: nat, r: int) -> Seq<T> {
    let start = r * n;
    let end = if start + n <= data.len() { start + n } else { data.len() as int };
    data.subrange(start, end)
}

/// Whether a row of `width` entries, starting at row index `r` of a buffer
/// of `len` entries cut into rows of `n`, holds `n` entries, or all that are
/// left when fewer than `n` remain.
pub open spec fn row_width_at(width: nat, len: nat, n: nat, r: int) -> bool {
    if len - r * n < n {
        width == len - r * n
    } else {
        width == n
    }
}

/// Whether `rows` is the square layout with the entries of `diag` on its
/// diagonal and `off` everywhere else.
pub open spec fn is_diagonal_layout<T>(rows: Seq<Vec<T>>, diag: Seq<T>, off: T) -> bool {
    &&& rows.len() == diag.len()
    &&& forall|i: int| 0 <= i < rows.len() ==> (#[trigger] rows[i])@.len() == diag.len()
    &&& forall|i: int, j: int|
        0 <= i < rows.len() && 0 <= j < rows.len() ==> (#[trigger] rows[i]@[j]) == if i == j {
            diag[i]
        } else {
            off
        }
}

/// Cut a flat row-major buffer into rows of width `n`.
///
/// Row `r` holds the entries `r·n .. (r+1)·n` of `data`; when `data.len()` is
/// not a multiple of `n` the last row holds what is left. The number of rows
/// is `⌈data.len() / n⌉`. A width of zero has no rows to cut, so `n` must be
/// positive.
pub fn rows_from_flat<T: Copy>(data: &[T], n: usize) -> (rows: Vec<Vec<T>>)
    requires
        n > 0,
    ensures
        rows.len() * n >= data@.len(),
        rows.len() * n < data@.len() + n,
        forall|r: int| 0 <= r < rows.len() ==> (#[trigger] rows@[r])@ == flat_row(data@, n as nat, r),
        forall|r: int|
            0 <= r < rows.len() ==> #[trigger] row_width_at(rows@[r]@.len(), data@.len(), n as nat, r),
        forall|r: int| 0 <= r < rows.len() ==> 0 < (#[trigger] rows@[r])@.len() <= n,
        forall|r: int| 0 <= r < rows.len() - 1 ==> (#[trigger] rows@[r])@.len() == n,
        forall|r: int, c: int|
            0 <= r < rows.len() && 0 <= c < rows@[r]@.len() ==> (#[trigger] rows@[r]@[c]) == data@[r
                * n + c],
{
    let len = data.len();
    let mut rows: Vec<Vec<T>> = Vec::new();
    let mut start: usize = 0;
    proof {
        assert(0 * n == 0) by (nonlinear_arith);
    }
    while start < len
        invariant
            n > 0,
            len == data@.len(),
            start <= len,
            start < len ==> start == rows.len() * n,
            start <= rows.len() * n,
            rows.len() * n < start + n,
            forall|r: int| 0 <= r < rows.len() ==> (#[trigger] rows@[r])@ == flat_row(data@, n as nat, r),
        decreases len - start,
    {
        let end: usize = if len - start < n { len } else { start + n };
        let mut row: Vec<T> = Vec::new();
        let mut k: usize = start;
        while k < end
            invariant
                start <= k <= end,
                end <= len,
                len == data@.len(),
                row@ == data@.subrange(start as int, k as int),
            decreases end - k,
        {
            row.push(data[k]);
            proof {
                assert(row@ =~= data@.subrange(start as int, k + 1));
            }
            k = k + 1;
        }
        let ghost r = rows.len() as int;
        proof {
            assert(r * n + n == (r + 1) * n) by (nonlinear_arith);
            assert(row@ == flat_row(data@, n as nat, r));
        }
        rows.push(row);
        start = end;
    }
    proof {
        let count = rows.len() as int;
        assert forall|r: int| 0 <= r < count implies #[trigger] row_width_at(
            rows@[r]@.len(),
            data@.len(),
            n as nat,
            r,
        ) by {
            assert(r * n <= count * n - n) by (nonlinear_arith)
                requires
                    0 <= r < count,
                    n > 0,
            ;
            lemma_flat_row_shape(data@, n as nat, r);
            lemma_row_width_bounds(rows@[r]@.len(), data@.len(), n as nat, r);
        }
        assert forall|r: int| 0 <= r < count implies 0 < (#[trigger] rows@[r])@.len() <= n by {
            assert(r * n <= count * n - n) by (nonlinear_arith)
                requires
                    0 <= r < count,
                    n > 0,
            ;
            assert(row_width_at(rows@[r]@.len(), data@.len(), n as nat, r));
            lemma_row_width_bounds(rows@[r]@.len(), data@.len(), n as nat, r);
        }
        assert forall|r: int| 0 <= r < count - 1 implies (#[trigger] rows@[r])@.len() == n by {
            assert(r * n + n <= count * n - n) by (nonlinear_arith)
                requires
                    0 <= r < count - 1,
                    n > 0,
            ;
            lemma_flat_row_shape(data@, n as nat, r);
        }
        assert forall|r: int, c: int| 0 <= r < count && 0 <= c < rows@[r]@.len() implies (#[trigger] rows@[
            r]@[c]) == data@[r * n + c] by {
            assert(r * n <= count * n - n) by (nonlinear_arith)
                requires
                    0 <= r < count,
                    n > 0,
            ;
            lemma_flat_row_shape(data@, n as nat, r);
        }
    }
    rows
}

/// The `n × n` layout with `one` on the diagonal and `zero` elsewhere.
pub fn identity_matrix<T: Copy>(n: usize, one: T, zero: T) -> (rows: Vec<Vec<T>>)
    ensures
        is_diagonal_layout(rows@, Seq::new(n as nat, |i: int| one), zero),
        rows.len() == n,
        forall|i: int| 0 <= i < n ==> (#[trigger] rows@[i])@.len() == n,
        forall|i: int, j: int|
            0 <= i < n && 0 <= j < n ==> (#[trigger] rows@[i]@[j]) == if i == j {
                one
            } else {
                zero
            },
{
    let mut rows: Vec<Vec<T>> = Vec::new();
    let mut i: usize = 0;
    while i < n
        invariant
            i <= n,
            rows.len() == i,
            forall|a: int| 0 <= a < i ==> (#[trigger] rows@[a])@.len() == n,
            forall|a: int, b: int|
                0 <= a < i && 0 <= b < n ==> (#[trigger] rows@[a]@[b]) == if a == b {
                    one
                } else {
                    zero
                },
        decreases n - i,
    {
        let mut row: Vec<T> = Vec::new();
        let mut j: usize = 0;
        while j < n
            invariant
                j <= n,
                i < n,
                row.len() == j,
                forall|b: int| 0 <= b < j ==> (#[trigger] row@[b]) == if i == b {
                    one
                } else {
                    zero
                },
            decreases n - j,
        {
            if i == j {
                row.push(one);
            } else {
                row.push(zero);
            }
            j = j + 1;
        }
        rows.push(row);
        i = i + 1;
    }
    rows
}

/// The square layout with `values` on the diagonal and `zero` elsewhere.
pub fn diagonal_matrix<T: Copy>(values: &[T], zero: T) -> (rows: Vec<Vec<T>>)
    ensures
        is_diagonal_layout(rows@, values@, zero),
        rows.len() == values@.len(),
        forall|i: int| 0 <= i < values@.len() ==> (#[trigger] rows@[i])@.len() == values@.len(),
        forall|i: int| 0 <= i < values@.len() ==> (#[trigger] rows@[i]@[i]) == values@[i],
        forall|i: int, j: int|
            0 <= i < values@.len() && 0 <= j < values@.len() && i != j ==> (#[trigger] rows@[i]@[j])
                == zero,
{
    let n = values.len();
    let mut rows: Vec<Vec<T>> = Vec::new();
    let mut i: usize = 0;
    while i < n
        invariant
            n == values@.len(),
            i <= n,
            rows.len() == i,
            forall|a: int| 0 <= a < i ==> (#[trigger] rows@[a])@.len() == n,
            forall|a: int, b: int|
                0 <= a < i && 0 <= b < n ==> (#[trigger] rows@[a]@[b]) == if a == b {
                    values@[a]
                } else {
                    zero
                },
        decreases n - i,
    {
        let mut row: Vec<T> = Vec::new();
        let mut j: usize = 0;
        while j < n
            invariant
                n == values@.len(),
                j <= n,
                i < n,
                row.len() == j,
                forall|b: int| 0 <= b < j ==> (#[trigger] row@[b]) == if i == b {
                    values@[i as int]
                } else {
                    zero
                },
            decreases n - j,
        {
            if i == j {
                row.push(values[i]);
            } else {
                row.push(zero);
            }
            j = j + 1;
        }
        rows.push(row);
        i = i + 1;
    }
    rows
}

/// Entry `(i, j)` of a possibly ragged matrix, or `None` where row `i` or
/// column `j` of that row does not exist.
pub fn entry<T: Copy>(m: &[Vec<T>], i: usize, j: usize) -> (e: Option<T>)
    ensures
        e == if i < m@.len() && j < m@[i as int]@.len() {
            Some(m@[i as int]@[j as int])
        } else {
            None
        },
{
    if i < m.len() && j < m[i].len() {
        Some(m[i][j])
    } else {
        None
    }
}

/// Entry `(i, j)` of a possibly ragged matrix, or `default` where it does
/// not exist.
pub fn entry_or<T: Copy>(m: &[Vec<T>], i: usize, j: usize, default: T) -> (e: T)
    ensures
        e == if i < m@.len() && j < m@[i as int]@.len() {
            m@[i as int]@[j as int]
        } else {
            default
        },
{
    match entry(m, i, j) {
        Some(v) => v,
        None => default,
    }
}

/// Element `index` of a list, or `default` past its end.
pub fn element_or<T: Copy>(v: &[T], index: usize, default: T) -> (e: T)
    ensures
        e == if index < v@.len() {
            v@[index as int]
        } else {
            default
        },
{
    if index < v.len() {
        v[index]
    } else {
        default
    }
}

/// Rows cut from a flat buffer are its row-major reading: entry `(r, c)`
/// of the rows is element `r·n + c` of the buffer.
pub proof fn lemma_flat_rows_are_row_major<T>(data: Seq<T>, n: nat, rows: Seq<Vec<T>>)
    requires
        n > 0,
        forall|r: int| 0 <= r < rows.len() ==> (#[trigger] rows[r])@ == flat_row(data, n, r),
    ensures
        forall|r: int, c: int|
            0 <= r < rows.len() && 0 <= c < n && r * n + c < data.len() ==> (#[trigger] rows[r]@[c])
                == data[r * n + c],
{
    assert forall|r: int, c: int|
        0 <= r < rows.len() && 0 <= c < n && r * n + c < data.len() implies (#[trigger] rows[r]@[c])
            == data[r * n + c] by {
        assert(rows[r]@ == flat_row(data, n, r));
        assert(0 <= r * n) by (nonlinear_arith)
            requires
                0 <= r,
                n > 0,
        ;
    }
}

/// A row cut from a flat buffer, starting inside it, holds the next `n`
/// entries of the buffer, or all that are left when fewer remain: its length
/// is `min(n, len − r·n)` and its entry `c` is buffer entry `r·n + c`.
pub proof fn lemma_flat_row_shape<T>(data: Seq<T>, n: nat, r: int)
    requires
        n > 0,
        0 <= r,
        r * n < data.len(),
    ensures
        flat_row(data, n, r).len() == if data.len() - r * n < n {
            data.len() - r * n
        } else {
            n as int
        },
        forall|c: int|
            0 <= c < flat_row(data, n, r).len() ==> #[trigger] flat_row(data, n, r)[c] == data[r * n
                + c],
{
    assert(0 <= r * n) by (nonlinear_arith)
        requires
            0 <= r,
            n > 0,
    ;
}

/// A diagonal layout is exactly one matrix: it is square of the size of
/// `diag`, holds `diag[i]` at every entry `(i, i)` and `off` at every entry
/// `(i, j)` with `i ≠ j`.
pub proof fn lemma_diagonal_layout_entries<T>(rows: Seq<Vec<T>>, diag: Seq<T>, off: T)
    requires
        is_diagonal_layout(rows, diag, off),
    ensures
        rows.len() == diag.len(),
        forall|i: int| 0 <= i < rows.len() ==> (#[trigger] rows[i])@.len() == diag.len(),
        forall|i: int| 0 <= i < rows.len() ==> (#[trigger] rows[i]@[i]) == diag[i],
        forall|i: int, j: int|
            0 <= i < rows.len() && 0 <= j < rows.len() && i != j ==> (#[trigger] rows[i]@[j]) == off,
{
    assert forall|i: int| 0 <= i < rows.len() implies (#[trigger] rows[i]@[i]) == diag[i] by {
        assert(rows[i]@[i] == (if i == i { diag[i] } else { off }));
    }
}

/// A row that starts inside the buffer holds at most `n` entries, reaches
/// at most the end of the buffer, and holds fewer than `n` only when it ends
/// the buffer.
pub proof fn lemma_row_width_bounds(width: nat, len: nat, n: nat, r: int)
    requires
        n > 0,
        0 <= r,
        r * n < len,
        row_width_at(width, len, n, r),
    ensures
        0 < width <= n,
        r * n + width <= len,
        width < n ==> r * n + width == len,
{
}

} // verus!
