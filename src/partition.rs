//! Splitting an image's rows into contiguous slices, one per render worker.
use vstd::prelude::*;

verus! {

/// A half-open range `[begin, end)` of image rows, spanning the full width.
#[derive(Clone, Copy, Debug, PartialEq, Eq, Structural)]
pub struct RowSlice {
    pub begin: u32,
    pub end: u32,
}

/// Rows in each of the evenly sized slices.
pub open spec fn rows_per_slice(height: nat, slices: nat) -> nat
    recommends
        slices > 0,
{
    height / slices
}

/// How many evenly sized slices there are: `slices` of them, unless the
/// image has fewer rows than that, in which case none (all rows go to the tail).
pub open spec fn full_slices(height: nat, slices: nat) -> nat
    recommends
        slices > 0,
{
    if rows_per_slice(height, slices) == 0 {
        0
    } else {
        slices
    }
}

/// Whether rows are left over after the evenly sized slices; they form one
/// final slice.
pub open spec fn has_tail(height: nat, slices: nat) -> bool
    recommends
        slices > 0,
{
    full_slices(height, slices) * rows_per_slice(height, slices) < height
}

/// Number of slices in the partition.
pub open spec fn slice_count(height: nat, slices: nat) -> nat
    recommends
        slices > 0,
{
    full_slices(height, slices) + if has_tail(height, slices) {
        1nat
    } else {
        0nat
    }
}

/// First row of slice `i`.
pub open spec fn slice_begin(height: nat, slices: nat, i: nat) -> nat
    recommends
        slices > 0,
{
    i * rows_per_slice(height, slices)
}

/// One past the last row of slice `i`: the tail slice runs to the bottom.
pub open spec fn slice_end(height: nat, slices: nat, i: nat) -> nat
    recommends
        slices > 0,
{
    if i < full_slices(height, slices) {
        (i + 1) * rows_per_slice(height, slices)
    } else {
        height
    }
}

/// The slice that holds row `row`.
pub open spec fn slice_of_row(height: nat, slices: nat, row: nat) -> nat
    recommends
        slices > 0,
{
    if row < full_slices(height, slices) * rows_per_slice(height, slices) {
        row / rows_per_slice(height, slices)
    } else {
        full_slices(height, slices)
    }
}

/// Row `row` lies in slice `i`.
pub open spec fn row_in_slice(height: nat, slices: nat, i: nat, row: nat) -> bool {
    slice_begin(height, slices, i) <= row < slice_end(height, slices, i)
}

proof fn lemma_full_slices_fit(height: nat, slices: nat)
    requires
        slices > 0,
    ensures
        full_slices(height, slices) * rows_per_slice(height, slices) <= height,
        full_slices(height, slices) <= slices,
{
    let b = rows_per_slice(height, slices);
    assert(slices * (height / slices) <= height) by (nonlinear_arith)
        requires
            slices > 0,
    ;
    if b == 0 {
        assert(0 * b == 0) by (nonlinear_arith);
    }
}

proof fn lemma_mul_monotone(a: nat, b: nat, k: nat)
    requires
        a <= b,
    ensures
        a * k <= b * k,
{
    assert(a * k <= b * k) by (nonlinear_arith)
        requires
            a <= b,
    ;
}

/// Slices are non-empty, follow each other without gap, and the first starts
/// at row zero while the last ends at `height`.
proof fn lemma_slices_contiguous(height: nat, slices: nat)
    requires
        slices > 0,
    ensures
        forall|i: nat|
            i < slice_count(height, slices) ==> slice_begin(height, slices, i) < slice_end(
                height,
                slices,
                i,
            ),
        forall|i: nat|
            i + 1 < slice_count(height, slices) ==> slice_end(height, slices, i) == slice_begin(
                height,
                slices,
                i + 1,
            ),
        slice_count(height, slices) > 0 ==> slice_begin(height, slices, 0) == 0,
        slice_count(height, slices) > 0 ==> slice_end(
            height,
            slices,
            (slice_count(height, slices) - 1) as nat,
        ) == height,
        slice_count(height, slices) == 0 <==> height == 0,
{
    let b = rows_per_slice(height, slices);
    let f = full_slices(height, slices);
    lemma_full_slices_fit(height, slices);
    assert forall|i: nat| i < slice_count(height, slices) implies slice_begin(height, slices, i)
        < slice_end(height, slices, i) by {
        if i < f {
            assert(i * b < (i + 1) * b) by (nonlinear_arith)
                requires
                    b > 0,
            ;
        }
    }
    assert(0 * b == 0) by (nonlinear_arith);
    if height > 0 && f > 0 {
        assert(b > 0);
        assert(f * b > 0) by (nonlinear_arith)
            requires
                f > 0,
                b > 0,
        ;
    }
}

/// The slices cover every row of `[0, height)` exactly once: each row lies in
/// one slice (`slice_of_row`) and in no other, and no slice holds a row outside
/// the image.
pub proof fn lemma_partition_covers_once(height: nat, slices: nat)
    requires
        slices > 0,
    ensures
        forall|row: nat|
            row < height ==> #[trigger] slice_of_row(height, slices, row) < slice_count(
                height,
                slices,
            ) && row_in_slice(height, slices, slice_of_row(height, slices, row), row),
        forall|i: nat, j: nat, row: nat|
            i < slice_count(height, slices) && j < slice_count(height, slices) && row_in_slice(
                height,
                slices,
                i,
                row,
            ) && row_in_slice(height, slices, j, row) ==> i == j,
        forall|i: nat, row: nat|
            i < slice_count(height, slices) && #[trigger] row_in_slice(height, slices, i, row)
                ==> row < height,
{
    let b = rows_per_slice(height, slices);
    let f = full_slices(height, slices);
    lemma_full_slices_fit(height, slices);
    assert forall|row: nat| row < height implies #[trigger] slice_of_row(height, slices, row)
        < slice_count(height, slices) && row_in_slice(
        height,
        slices,
        slice_of_row(height, slices, row),
        row,
    ) by {
        if row < f * b {
            let i = row / b;
            assert(b > 0) by (nonlinear_arith)
                requires
                    row < f * b,
            ;
            assert(i * b <= row < (i + 1) * b && i < f) by (nonlinear_arith)
                requires
                    b > 0,
                    i == row / b,
                    row < f * b,
            ;
            assert(row_in_slice(height, slices, i, row));
        } else {
            assert(row_in_slice(height, slices, f, row));
        }
    }
    // A slice ends no later than any later slice begins.
    assert forall|i: nat, j: nat|
        i < j && j < slice_count(height, slices) implies slice_end(height, slices, i)
        <= slice_begin(height, slices, j) by {
        assert(i < f);
        lemma_mul_monotone(i + 1, j, b);
    }
    assert forall|i: nat, row: nat|
        i < slice_count(height, slices) && #[trigger] row_in_slice(height, slices, i, row)
        implies row < height by {
        if i < f {
            lemma_mul_monotone(i + 1, f, b);
        }
    }
}

/// Splits `height` rows into `slices` slices of `height / slices` rows each,
/// followed by one slice of the rows left over, if any. When there are fewer
/// rows than slices, all rows form a single slice.
pub fn partition_rows(height: u32, slices: u32) -> (r: Vec<RowSlice>)
    requires
        slices > 0,
    ensures
        r@.len() == slice_count(height as nat, slices as nat),
        forall|i: int|
            0 <= i < r@.len() ==> r@[i].begin == slice_begin(height as nat, slices as nat, i as nat)
                && r@[i].end == slice_end(height as nat, slices as nat, i as nat),
        forall|i: int| 0 <= i < r@.len() ==> r@[i].begin < r@[i].end,
        forall|i: int| 0 <= i < r@.len() - 1 ==> r@[i].end == r@[i + 1].begin,
        r@.len() > 0 ==> r@[0].begin == 0 && r@[r@.len() - 1].end == height,
        r@.len() == 0 <==> height == 0,
{
    let ghost h = height as nat;
    let ghost s = slices as nat;
    proof {
        lemma_full_slices_fit(h, s);
        lemma_slices_contiguous(h, s);
    }
    let base = height / slices;
    let full: u32 = if base == 0 {
        0
    } else {
        slices
    };
    assert(full == full_slices(h, s));
    let mut v: Vec<RowSlice> = Vec::new();
    let mut i: u32 = 0;
    while i < full
        invariant
            i <= full,
            full == full_slices(h, s),
            base == rows_per_slice(h, s),
            full * base <= h,
            h == height,
            s == slices,
            s > 0,
            v@.len() == i,
            forall|k: int|
                0 <= k < i ==> v@[k].begin == slice_begin(h, s, k as nat) && v@[k].end == slice_end(
                    h,
                    s,
                    k as nat,
                ),
        decreases full - i,
    {
        proof {
            lemma_mul_monotone((i + 1) as nat, full as nat, base as nat);
            lemma_mul_monotone(i as nat, (i + 1) as nat, base as nat);
        }
        let slice = RowSlice { begin: i * base, end: (i + 1) * base };
        v.push(slice);
        i = i + 1;
    }
    let covered = full * base;
    if covered < height {
        v.push(RowSlice { begin: covered, end: height });
    }
    v
}

} // verus!
