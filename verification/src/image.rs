//! Memory images: the raw contents that a chip is loaded with.

use vstd::prelude::*;

verus! {

/// An image does not fit the chip it is meant for.
#[derive(Clone, Copy, Debug, PartialEq, Eq, Structural)]
pub struct Oversized {
    /// Index of the chip whose image is too long.
    pub chip: usize,
    /// Length of the image that was supplied.
    pub len: usize,
}

/// `image` followed by as many zeros as it takes to reach `capacity`.
pub open spec fn padded<T>(image: Seq<T>, capacity: int, zero: T) -> Seq<T> {
    Seq::new(
        capacity as nat,
        |i: int|
            if i < image.len() {
                image[i]
            } else {
                zero
            },
    )
}

/// The `index`-th chunk of `capacity` items of `data`, cut off where the
/// data ends.
pub open spec fn chunk<T>(data: Seq<T>, capacity: int, index: int) -> Seq<T> {
    data.subrange(index * capacity, min_int((index + 1) * capacity, data.len() as int))
}

/// The smaller of two integers.
pub open spec fn min_int(a: int, b: int) -> int {
    if a <= b {
        a
    } else {
        b
    }
}

/// Number of chips of `capacity` items that `len` items occupy.
pub open spec fn chunk_count(len: int, capacity: int) -> int {
    (len + capacity - 1) / capacity
}

/// Fills a byte image up to the chip's capacity with zeros. An image longer
/// than the chip is refused.
pub fn pad_bytes(image: &Vec<u8>, capacity: usize) -> (out: Option<Vec<u8>>)
    ensures
        out.is_some() <==> image@.len() <= capacity,
        out.is_some() ==> out.unwrap()@ == padded(image@, capacity as int, 0u8),
{
    if image.len() > capacity {
        return None;
    }
    let mut cells: Vec<u8> = Vec::new();
    let mut i: usize = 0;
    while i < capacity
        invariant
            i <= capacity,
            image@.len() <= capacity,
            cells@.len() == i,
            forall|k: int|
                0 <= k < i ==> cells@[k] == (if k < image@.len() {
                    image@[k]
                } else {
                    0u8
                }),
        decreases capacity - i,
    {
        let cell: u8 = if i < image.len() {
            image[i]
        } else {
            0
        };
        cells.push(cell);
        i += 1;
    }
    proof {
        assert(cells@ =~= padded(image@, capacity as int, 0u8));
    }
    Some(cells)
}

/// Cuts chunk `index` of `capacity` items out of `data` and fills it up to
/// the chip's capacity with `zero`.
pub fn padded_chunk<T: Copy>(data: &Vec<T>, capacity: usize, index: usize, zero: T) -> (out: Vec<
    T,
>)
    requires
        capacity > 0,
        index * capacity < data@.len(),
    ensures
        out@ == padded(chunk(data@, capacity as int, index as int), capacity as int, zero),
{
    let ghost piece = chunk(data@, capacity as int, index as int);
    assert(index * capacity + capacity == (index + 1) * capacity) by (nonlinear_arith);
    let total: usize = data.len();
    assert(index * capacity < total);
    let start: usize = index * capacity;
    let mut cells: Vec<T> = Vec::new();
    let mut i: usize = 0;
    while i < capacity
        invariant
            i <= capacity,
            start == index * capacity,
            start < data@.len(),
            start + capacity == (index + 1) * capacity,
            piece == chunk(data@, capacity as int, index as int),
            cells@.len() == i,
            forall|k: int|
                0 <= k < i ==> cells@[k] == (if k < piece.len() {
                    piece[k]
                } else {
                    zero
                }),
        decreases capacity - i,
    {
        let cell: T = if i < data.len() - start {
            data[start + i]
        } else {
            zero
        };
        cells.push(cell);
        i += 1;
    }
    proof {
        assert(cells@ =~= padded(piece, capacity as int, zero));
    }
    cells
}

} // verus!
