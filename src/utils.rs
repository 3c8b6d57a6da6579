use vstd::arithmetic::div_mod::{
    lemma_fundamental_div_mod,
    lemma_mod_multiples_vanish,
};
use vstd::prelude::*;

verus! {

/// The position that `index` lands on in a ring of `size` slots: the
/// remainder of `index` modulo `size`, taken in `[0, size)` also for
/// negative `index`.
pub open spec fn wrapped_index(index: int, size: int) -> int
    recommends
        size > 0,
{
    index % size
}

/// Maps a possibly out-of-range signed `index` onto `[0, upper_bound)`,
/// treating the sequence as a ring.
pub fn get_index_wrapping(index: isize, upper_bound: isize) -> (r: isize)
    requires
        upper_bound > 0,
    ensures
        r == wrapped_index(index as int, upper_bound as int),
        0 <= r < upper_bound,
{
    if index >= 0 {
        index % upper_bound
    } else {
        // Rust's remainder keeps the sign of `index`; shift it back into range.
        let m: isize = index % upper_bound;
        proof {
            let a: int = -index;
            let ub: int = upper_bound as int;
            let k: int = a % ub;
            assert(m == -k);
            lemma_fundamental_div_mod(a, ub);
            assert(index == ub * (-(a / ub) - 1) + (ub - k)) by (nonlinear_arith)
                requires
                    a == ub * (a / ub) + k,
                    index == -a,
            ;
            lemma_mod_multiples_vanish(-(a / ub) - 1, ub - k, ub);
        }
        (m + upper_bound) % upper_bound
    }
}

/// Index of the cell to the right of `current_index` in a ring of
/// `collection_size` cells.
pub fn get_right_neighbour_index_wrapping(current_index: usize, collection_size: usize) -> (r:
    usize)
    requires
        collection_size > 0,
        collection_size <= isize::MAX,
        current_index < isize::MAX,
    ensures
        r as int == wrapped_index(current_index + 1, collection_size as int),
        r < collection_size,
{
    get_index_wrapping(current_index as isize + 1 as isize, collection_size as isize) as usize
}

/// Index of the cell to the left of `current_index` in a ring of
/// `collection_size` cells.
pub fn get_left_neighbour_index_wrapping(current_index: usize, collection_size: usize) -> (r:
    usize)
    requires
        collection_size > 0,
        collection_size <= isize::MAX,
        current_index <= isize::MAX,
    ensures
        r as int == wrapped_index(current_index - 1, collection_size as int),
        r < collection_size,
{
    get_index_wrapping(current_index as isize - 1, collection_size as isize) as usize
}

/// Wrapping always lands inside the ring, and moving a whole turn around the
/// ring does not change where an index lands.
pub proof fn lemma_wrapping_in_range_and_periodic(index: int, size: int)
    requires
        size > 0,
        -2 * size <= index <= 2 * size,
    ensures
        0 <= wrapped_index(index, size) < size,
        wrapped_index(index, size) == wrapped_index(index + size, size),
{
    lemma_mod_multiples_vanish(1, index, size);
}

} // verus!
