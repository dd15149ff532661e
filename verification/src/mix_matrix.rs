//! The signs of a Hadamard matrix, built by doubling.
//!
//! The matrix of size one is `[1]`. The matrix of twice the size is made of
//! four copies of the smaller one, the one at the lower right negated.
use vstd::prelude::*;
use crate::audio_buffer::{lemma_place_in_storage, lemma_place_unique, stored_at};

verus! {

/// Whether `n` is one of 1, 2, 4, 8, ...
pub open spec fn is_power_of_two(n: nat) -> bool
    decreases n,
{
    if n <= 1 {
        n == 1
    } else {
        n % 2 == 0 && is_power_of_two(n / 2)
    }
}

/// The place in one quarter of a matrix that the place `index` of the whole
/// matrix falls on, where a quarter is `half` wide.
pub open spec fn folded(index: nat, half: nat) -> nat {
    if index >= half {
        (index - half) as nat
    } else {
        index
    }
}

/// The entry in row `row` and column `column` of the Hadamard matrix of size
/// `size`, a power of two.
pub open spec fn hadamard_entry(size: nat, row: nat, column: nat) -> int
    decreases size,
{
    if size <= 1 {
        1
    } else {
        let half = size / 2;
        let inner = hadamard_entry(half, folded(row, half), folded(column, half));
        if row >= half && column >= half {
            -inner
        } else {
            inner
        }
    }
}

/// Every entry is one or minus one.
pub proof fn lemma_entry_is_sign(size: nat, row: nat, column: nat)
    ensures
        hadamard_entry(size, row, column) == 1 || hadamard_entry(size, row, column) == -1,
    decreases size,
{
    if size > 1 {
        lemma_entry_is_sign(size / 2, folded(row, size / 2), folded(column, size / 2));
    }
}

/// The matrix is symmetric.
pub proof fn lemma_entry_symmetric(size: nat, row: nat, column: nat)
    ensures
        hadamard_entry(size, row, column) == hadamard_entry(size, column, row),
    decreases size,
{
    if size > 1 {
        lemma_entry_symmetric(size / 2, folded(row, size / 2), folded(column, size / 2));
    }
}

/// The sum, over the first `upto` columns, of the products of the entries
/// of the rows `first` and `second`.
pub open spec fn row_product(size: nat, first: nat, second: nat, upto: nat) -> int
    decreases upto,
{
    if upto == 0 {
        0
    } else {
        row_product(size, first, second, (upto - 1) as nat) + hadamard_entry(
            size,
            first,
            (upto - 1) as nat,
        ) * hadamard_entry(size, second, (upto - 1) as nat)
    }
}

/// Minus one for a row of the lower half of a matrix, one for a row of the
/// upper half.
pub open spec fn half_sign(row: nat, half: nat) -> int {
    if row >= half {
        -1
    } else {
        1
    }
}

/// Over the left half of the columns two rows of a matrix multiply as the
/// rows of the smaller matrix that they are copied from.
pub proof fn lemma_row_product_left(half: nat, first: nat, second: nat, upto: nat)
    requires
        half >= 1,
        upto <= half,
    ensures
        row_product(2 * half, first, second, upto) == row_product(
            half,
            folded(first, half),
            folded(second, half),
            upto,
        ),
    decreases upto,
{
    if upto > 0 {
        lemma_row_product_left(half, first, second, (upto - 1) as nat);
    }
}

/// Over the right half of the columns two rows multiply as over the left
/// half if both lie in the same half of the matrix, and to the opposite if
/// they lie in different halves.
pub proof fn lemma_row_product_right(half: nat, first: nat, second: nat, upto: nat)
    requires
        half >= 1,
        upto <= half,
    ensures
        row_product(2 * half, first, second, half + upto) == row_product(
            half,
            folded(first, half),
            folded(second, half),
            half,
        ) + half_sign(first, half) * half_sign(second, half) * row_product(
            half,
            folded(first, half),
            folded(second, half),
            upto,
        ),
    decreases upto,
{
    assert((2 * half) / 2 == half);
    if upto == 0 {
        lemma_row_product_left(half, first, second, half);
    } else {
        lemma_row_product_right(half, first, second, (upto - 1) as nat);
        let column = (half + upto - 1) as nat;
        let inner_first = hadamard_entry(half, folded(first, half), (upto - 1) as nat);
        let inner_second = hadamard_entry(half, folded(second, half), (upto - 1) as nat);
        assert(folded(column, half) == upto - 1);
        let earlier = row_product(
            half,
            folded(first, half),
            folded(second, half),
            (upto - 1) as nat,
        );
        let signs = half_sign(first, half) * half_sign(second, half);
        assert(signs * (earlier + inner_first * inner_second) == signs * earlier + (half_sign(
            first,
            half,
        ) * inner_first) * (half_sign(second, half) * inner_second)) by (nonlinear_arith)
            requires
                signs == half_sign(first, half) * half_sign(second, half),
        ;
    }
}

/// Any two different rows of a Hadamard matrix are orthogonal, and each row
/// multiplied with itself gives the size of the matrix.
pub proof fn lemma_rows_orthogonal(size: nat, first: nat, second: nat)
    requires
        is_power_of_two(size),
        first < size,
        second < size,
    ensures
        row_product(size, first, second, size) == if first == second {
            size as int
        } else {
            0
        },
    decreases size,
{
    if size == 1 {
        assert(row_product(size, first, second, 0) == 0);
    } else {
        let half = size / 2;
        lemma_rows_orthogonal(half, folded(first, half), folded(second, half));
        lemma_row_product_right(half, first, second, half);
        let inner = row_product(half, folded(first, half), folded(second, half), half);
        let signs = half_sign(first, half) * half_sign(second, half);
        if first == second {
            assert(signs == 1);
        } else if folded(first, half) == folded(second, half) {
            assert(signs == -1);
        }
        assert(inner + signs * inner == if first == second {
            size as int
        } else {
            0
        }) by (nonlinear_arith)
            requires
                signs == 1 || signs == -1,
                first == second ==> signs == 1 && inner == half,
                first != second ==> inner == 0 || signs == -1,
                size == 2 * half,
        ;
    }
}

/// Of two powers of two the smaller one, doubled, is a power of two that is
/// at most the larger one.
pub proof fn lemma_double_fits(smaller: nat, larger: nat)
    requires
        is_power_of_two(smaller),
        is_power_of_two(larger),
        smaller < larger,
    ensures
        2 * smaller <= larger,
        is_power_of_two(2 * smaller),
    decreases larger,
{
    if smaller > 1 {
        lemma_double_fits(smaller / 2, larger / 2);
    }
}

/// Whether the doubling of a matrix of size `size` has dealt with the place
/// (`row`, `column`) once it has reached the place (`i`, `j`) of the matrix
/// it copies from.
pub open spec fn dealt_with(size: nat, i: nat, j: nat, row: nat, column: nat) -> bool {
    ||| row < size && column < size
    ||| folded(row, size) < i
    ||| folded(row, size) == i && folded(column, size) < j
}

/// Whether `storage`, `dimension` wide, holds the entries of the matrix of
/// size `2 * size` in all places that the doubling has dealt with.
pub open spec fn doubled_to(
    storage: Seq<i8>,
    dimension: nat,
    size: nat,
    i: nat,
    j: nat,
) -> bool {
    forall|row: int, column: int|
        0 <= row < 2 * size && 0 <= column < 2 * size && dealt_with(
            size,
            i,
            j,
            row as nat,
            column as nat,
        ) ==> #[trigger] stored_at(storage, dimension as int, row, column) == hadamard_entry(
            2 * size,
            row as nat,
            column as nat,
        )
}

/// Puts `value` in the place (`row`, `column`) and leaves all others as they
/// are.
fn set_entry(storage: &mut Vec<i8>, dimension: usize, row: usize, column: usize, value: i8)
    requires
        old(storage)@.len() == dimension * dimension,
        row < dimension,
        column < dimension,
    ensures
        final(storage)@.len() == old(storage)@.len(),
        stored_at(final(storage)@, dimension as int, row as int, column as int) == value,
        forall|r: int, c: int|
            0 <= r < dimension && 0 <= c < dimension && !(r == row && c == column)
                ==> #[trigger] stored_at(final(storage)@, dimension as int, r, c) == stored_at(
                old(storage)@,
                dimension as int,
                r,
                c,
            ),
{
    proof {
        lemma_place_in_storage(row as int, column as int, dimension as int, dimension as int);
    }
    let stored: usize = storage.len();
    assert(row * dimension + column < stored);
    let place: usize = row * dimension + column;
    storage.set(place, value);
    proof {
        assert forall|r: int, c: int|
            0 <= r < dimension && 0 <= c < dimension && !(r == row && c == column)
                implies #[trigger] stored_at(storage@, dimension as int, r, c) == stored_at(
            old(storage)@,
            dimension as int,
            r,
            c,
        ) by {
            lemma_place_in_storage(r, c, dimension as int, dimension as int);
            if r * dimension + c == place as int {
                lemma_place_unique(r, c, row as int, column as int, dimension as int);
            }
        }
    }
}

/// The entry in the place (`row`, `column`).
fn get_entry(storage: &Vec<i8>, dimension: usize, row: usize, column: usize) -> (value: i8)
    requires
        storage@.len() == dimension * dimension,
        row < dimension,
        column < dimension,
    ensures
        value == stored_at(storage@, dimension as int, row as int, column as int),
{
    proof {
        lemma_place_in_storage(row as int, column as int, dimension as int, dimension as int);
    }
    let stored: usize = storage.len();
    assert(row * dimension + column < stored);
    storage[row * dimension + column]
}

/// The Hadamard matrix of size `dimension`, row after row: entries of one
/// and minus one.
pub fn build_hadamard_matrix(dimension: usize) -> (storage: Vec<i8>)
    requires
        is_power_of_two(dimension as nat),
        dimension * dimension <= usize::MAX,
    ensures
        storage@.len() == dimension * dimension,
        forall|row: int, column: int|
            0 <= row < dimension && 0 <= column < dimension ==> #[trigger] stored_at(
                storage@,
                dimension as int,
                row,
                column,
            ) == hadamard_entry(dimension as nat, row as nat, column as nat),
{
    let total: usize = dimension * dimension;
    let mut storage: Vec<i8> = Vec::with_capacity(total);
    let mut filled: usize = 0;
    while filled < total
        invariant
            filled <= total,
            storage@.len() == filled,
        decreases total - filled,
    {
        storage.push(0);
        filled = filled + 1;
    }
    set_entry(&mut storage, dimension, 0, 0, 1);
    let mut size: usize = 1;
    while size < dimension
        invariant
            1 <= size <= dimension,
            is_power_of_two(size as nat),
            is_power_of_two(dimension as nat),
            storage@.len() == dimension * dimension,
            forall|row: int, column: int|
                0 <= row < size && 0 <= column < size ==> #[trigger] stored_at(
                    storage@,
                    dimension as int,
                    row,
                    column,
                ) == hadamard_entry(size as nat, row as nat, column as nat),
        decreases dimension - size,
    {
        proof {
            lemma_double_fits(size as nat, dimension as nat);
        }
        let mut i: usize = 0;
        while i < size
            invariant
                i <= size,
                1 <= size,
                2 * size <= dimension,
                storage@.len() == dimension * dimension,
                doubled_to(storage@, dimension as nat, size as nat, i as nat, 0),
            decreases size - i,
        {
            let mut j: usize = 0;
            while j < size
                invariant
                    i < size,
                    j <= size,
                    2 * size <= dimension,
                    storage@.len() == dimension * dimension,
                    doubled_to(storage@, dimension as nat, size as nat, i as nat, j as nat),
                decreases size - j,
            {
                let value: i8 = get_entry(&storage, dimension, i, j);
                proof {
                    lemma_entry_is_sign((2 * size) as nat, i as nat, j as nat);
                }
                set_entry(&mut storage, dimension, i + size, j, value);
                set_entry(&mut storage, dimension, i, j + size, value);
                set_entry(&mut storage, dimension, i + size, j + size, -value);
                proof {
                    assert forall|row: int, column: int|
                        0 <= row < 2 * size && 0 <= column < 2 * size && dealt_with(
                            size as nat,
                            i as nat,
                            (j + 1) as nat,
                            row as nat,
                            column as nat,
                        ) implies #[trigger] stored_at(storage@, dimension as int, row, column)
                        == hadamard_entry((2 * size) as nat, row as nat, column as nat) by {
                        let just_set = folded(row as nat, size as nat) == i && folded(
                            column as nat,
                            size as nat,
                        ) == j && !(row < size && column < size);
                        if !just_set {
                            assert(dealt_with(
                                size as nat,
                                i as nat,
                                j as nat,
                                row as nat,
                                column as nat,
                            ));
                        }
                    }
                }
                j = j + 1;
            }
            i = i + 1;
        }
        size = 2 * size;
    }
    storage
}

} // verus!
