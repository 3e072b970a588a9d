//! How a transfer of `size` bytes is cut into segments of at most
//! `buffer_size` bytes each.
//!
//! Segment `i` starts `i * buffer_size` bytes into the transfer. Every
//! segment is full but the last, which takes what is left.

use vstd::prelude::*;

verus! {

/// The number of segments: `size / buffer_size`, rounded up.
pub open spec fn segment_count(size: int, buffer_size: int) -> int {
    (size + buffer_size - 1) / buffer_size
}

/// The address at which segment `i` of a transfer from `offset` starts.
pub open spec fn segment_start(offset: int, buffer_size: int, i: int) -> int {
    offset + i * buffer_size
}

/// The length of segment `i`: a full buffer, or what is left of `size`.
pub open spec fn segment_len(size: int, buffer_size: int, i: int) -> int {
    let left = size - i * buffer_size;
    if left < buffer_size {
        left
    } else {
        buffer_size
    }
}

/// The number of bytes in the segments before segment `i`.
pub open spec fn bytes_before(size: int, buffer_size: int, i: int) -> int {
    if i * buffer_size < size {
        i * buffer_size
    } else {
        size
    }
}

/// The segments before the last do not reach `size`; all of them do.
pub proof fn lemma_segment_count(size: int, buffer_size: int)
    requires
        size >= 0,
        buffer_size > 0,
    ensures
        segment_count(size, buffer_size) >= 0,
        size > 0 ==> segment_count(size, buffer_size) >= 1,
        size == 0 ==> segment_count(size, buffer_size) == 0,
        segment_count(size, buffer_size) <= size,
        (segment_count(size, buffer_size) - 1) * buffer_size < size || size == 0,
        size <= segment_count(size, buffer_size) * buffer_size,
{
    let n = segment_count(size, buffer_size);
    let x = size + buffer_size - 1;
    assert(x == buffer_size * (x / buffer_size) + x % buffer_size && 0 <= x % buffer_size
        < buffer_size) by (nonlinear_arith)
        requires
            buffer_size > 0,
            x >= 0,
    ;
    assert(buffer_size * n == n * buffer_size) by (nonlinear_arith);
    assert((n - 1) * buffer_size == n * buffer_size - buffer_size) by (nonlinear_arith);
    assert(n >= 0) by (nonlinear_arith)
        requires
            n * buffer_size >= size,
            size >= 0,
            buffer_size > 0,
    ;
    if size > 0 {
        assert(n >= 1) by (nonlinear_arith)
            requires
                n * buffer_size >= size,
                size > 0,
                buffer_size > 0,
        ;
    } else {
        assert(n <= 0) by (nonlinear_arith)
            requires
                n * buffer_size - buffer_size < 0,
                buffer_size > 0,
        ;
    }
    assert(n <= size) by (nonlinear_arith)
        requires
            n * buffer_size - buffer_size < size,
            buffer_size >= 1,
            size >= 0,
            n >= 0,
    ;
}

/// The position of a segment grows with its index.
pub proof fn lemma_segment_order(buffer_size: int, i: int, j: int)
    requires
        buffer_size > 0,
        i < j,
    ensures
        (i + 1) * buffer_size <= j * buffer_size,
        (i + 1) * buffer_size == i * buffer_size + buffer_size,
{
    assert((i + 1) * buffer_size <= j * buffer_size) by (nonlinear_arith)
        requires
            buffer_size > 0,
            i + 1 <= j,
    ;
    assert((i + 1) * buffer_size == i * buffer_size + buffer_size) by (nonlinear_arith);
}

/// The shape of one segment: it is not empty and fits the buffer, it is
/// full unless it is the last, and it ends where the next one starts, or
/// where the transfer ends.
pub proof fn lemma_segment(size: int, buffer_size: int, i: int)
    requires
        size > 0,
        buffer_size > 0,
        0 <= i < segment_count(size, buffer_size),
    ensures
        0 <= i * buffer_size < size,
        1 <= segment_len(size, buffer_size, i) <= buffer_size,
        i * buffer_size + segment_len(size, buffer_size, i) <= size,
        i + 1 < segment_count(size, buffer_size) ==> segment_len(size, buffer_size, i)
            == buffer_size,
        i + 1 == segment_count(size, buffer_size) ==> i * buffer_size + segment_len(
            size,
            buffer_size,
            i,
        ) == size,
        bytes_before(size, buffer_size, i) == i * buffer_size,
        bytes_before(size, buffer_size, i + 1) == i * buffer_size + segment_len(
            size,
            buffer_size,
            i,
        ),
{
    let n = segment_count(size, buffer_size);
    lemma_segment_count(size, buffer_size);
    assert(0 <= i * buffer_size) by (nonlinear_arith)
        requires
            0 <= i,
            buffer_size > 0,
    ;
    lemma_segment_order(buffer_size, i, i + 1);
    if i + 1 < n {
        lemma_segment_order(buffer_size, i, n - 1);
    }
}

/// The segments tile the transfer. The first starts at `offset`; each is
/// at least one byte and at most a buffer long; each but the last is full
/// and is followed at once by the next; the last ends at `offset + size`.
pub proof fn lemma_segments_tile(offset: int, size: int, buffer_size: int)
    requires
        size > 0,
        buffer_size > 0,
    ensures
        segment_count(size, buffer_size) >= 1,
        segment_start(offset, buffer_size, 0) == offset,
        forall|i: int|
            0 <= i < segment_count(size, buffer_size) ==> 1 <= #[trigger] segment_len(
                size,
                buffer_size,
                i,
            ) <= buffer_size,
        forall|i: int|
            0 <= i < segment_count(size, buffer_size) - 1 ==> #[trigger] segment_len(
                size,
                buffer_size,
                i,
            ) == buffer_size,
        forall|i: int|
            0 <= i < segment_count(size, buffer_size) - 1 ==> #[trigger] segment_start(
                offset,
                buffer_size,
                i + 1,
            ) == segment_start(offset, buffer_size, i) + segment_len(size, buffer_size, i),
        forall|i: int, j: int|
            0 <= i < j < segment_count(size, buffer_size) ==> #[trigger] segment_start(
                offset,
                buffer_size,
                i,
            ) < #[trigger] segment_start(offset, buffer_size, j),
        segment_start(offset, buffer_size, segment_count(size, buffer_size) - 1) + segment_len(
            size,
            buffer_size,
            segment_count(size, buffer_size) - 1,
        ) == offset + size,
{
    let n = segment_count(size, buffer_size);
    lemma_segment_count(size, buffer_size);
    assert(0 * buffer_size == 0) by (nonlinear_arith);
    assert forall|i: int| 0 <= i < n implies 1 <= #[trigger] segment_len(size, buffer_size, i)
        <= buffer_size by {
        lemma_segment(size, buffer_size, i);
    }
    assert forall|i: int| 0 <= i < n - 1 implies #[trigger] segment_len(size, buffer_size, i)
        == buffer_size by {
        lemma_segment(size, buffer_size, i);
    }
    assert forall|i: int| 0 <= i < n - 1 implies #[trigger] segment_start(
        offset,
        buffer_size,
        i + 1,
    ) == segment_start(offset, buffer_size, i) + segment_len(size, buffer_size, i) by {
        lemma_segment(size, buffer_size, i);
        lemma_segment_order(buffer_size, i, i + 1);
    }
    assert forall|i: int, j: int| 0 <= i < j < n implies #[trigger] segment_start(
        offset,
        buffer_size,
        i,
    ) < #[trigger] segment_start(offset, buffer_size, j) by {
        lemma_segment_order(buffer_size, i, j);
    }
    lemma_segment(size, buffer_size, n - 1);
}

/// Every address of the transfer lies in exactly one segment: the one
/// whose index is the address's distance from `offset`, divided by the
/// buffer size.
pub proof fn lemma_segments_cover(offset: int, size: int, buffer_size: int, address: int)
    requires
        size > 0,
        buffer_size > 0,
        offset <= address < offset + size,
    ensures
        0 <= (address - offset) / buffer_size < segment_count(size, buffer_size),
        forall|i: int|
            0 <= i < segment_count(size, buffer_size) ==> ((#[trigger] segment_start(
                offset,
                buffer_size,
                i,
            ) <= address < segment_start(offset, buffer_size, i) + segment_len(
                size,
                buffer_size,
                i,
            )) <==> i == (address - offset) / buffer_size),
{
    let n = segment_count(size, buffer_size);
    let d = address - offset;
    let q = d / buffer_size;
    lemma_segment_count(size, buffer_size);
    assert(d == buffer_size * q + d % buffer_size && 0 <= d % buffer_size < buffer_size) by (nonlinear_arith)
        requires
            buffer_size > 0,
            d >= 0,
            q == d / buffer_size,
    ;
    assert(buffer_size * q == q * buffer_size) by (nonlinear_arith);
    assert(0 <= q) by (nonlinear_arith)
        requires
            q * buffer_size + buffer_size > 0,
            buffer_size > 0,
    ;
    assert(q < n) by (nonlinear_arith)
        requires
            q * buffer_size <= d,
            d < size,
            size <= n * buffer_size,
            buffer_size > 0,
    ;
    assert forall|i: int| 0 <= i < n implies ((#[trigger] segment_start(offset, buffer_size, i)
        <= address < segment_start(offset, buffer_size, i) + segment_len(size, buffer_size, i))
        <==> i == q) by {
        lemma_segment(size, buffer_size, i);
        if i < q {
            lemma_segment_order(buffer_size, i, q);
        } else if i > q {
            lemma_segment_order(buffer_size, q, i);
        } else {
            lemma_segment_order(buffer_size, i, i + 1);
        }
    }
}

} // verus!
