use crate::error::PipelineError;
use vstd::prelude::*;

verus! {

/// The gradient bit of a 9-by-8 intensity grid at row `y`, column `x`:
/// true when the cell to the right is strictly brighter.
pub open spec fn grid_bit(grid: Seq<u8>, y: int, x: int) -> bool {
    grid[9 * y + x] < grid[9 * y + x + 1]
}

/// The gradient bit in linear order: bit `n` compares row `n / 8`,
/// column `n % 8` against its right neighbor.
pub open spec fn grid_bit_at(grid: Seq<u8>, n: int) -> bool {
    grid_bit(grid, n / 8, n % 8)
}

/// The value of gradient bit `n` as a single-bit integer.
pub open spec fn bit_val(grid: Seq<u8>, n: int) -> u64 {
    if grid_bit_at(grid, n) {
        1u64
    } else {
        0u64
    }
}

/// The fingerprint restricted to its `n` lowest bits: bit `j` holds the
/// gradient bit `j` of the grid for `j < n`, and zero above.
pub open spec fn fp_bits(grid: Seq<u8>, n: nat) -> u64
    decreases n,
{
    if n == 0 {
        0u64
    } else {
        fp_bits(grid, (n - 1) as nat) | (bit_val(grid, n - 1) << ((n - 1) as u64))
    }
}

/// The 64-bit gradient fingerprint of a 9-by-8 intensity grid: bit
/// `8 * y + x` is set exactly when `grid[9 * y + x] < grid[9 * y + x + 1]`,
/// assembled least-significant-bit first, so the value equals the
/// little-endian reading of the 8 row bytes.
pub open spec fn fingerprint_spec(grid: Seq<u8>) -> u64 {
    fp_bits(grid, 64)
}

/// Bit `j` of `h`.
pub open spec fn bit_of(h: u64, j: u64) -> bool {
    (h >> j) & 1 == 1
}

/// The defining property of a fingerprint: each of its 64 bits equals the
/// corresponding gradient bit of the grid.
pub open spec fn fingerprint_ok(grid: Seq<u8>, h: u64) -> bool {
    forall|j: u64| j < 64 ==> #[trigger] bit_of(h, j) == grid_bit_at(grid, j as int)
}

proof fn lemma_or_bit(h: u64, b: u64, i: u64)
    by (bit_vector)
    requires
        b <= 1,
        i < 64,
        (h >> i) & 1 == 0,
    ensures
        ((h | (b << i)) >> i) & 1 == b,
        forall|j: u64| j < 64 && j != i ==> ((h | (b << i)) >> j) & 1 == (h >> j) & 1,
{
}

proof fn lemma_zero_bits(j: u64)
    by (bit_vector)
    ensures
        (0u64 >> j) & 1 == 0,
{
}

/// Every bit of `fp_bits(grid, n)` below `n` is the matching gradient bit,
/// and every bit from `n` up is zero.
pub proof fn lemma_fp_bits_characterizes(grid: Seq<u8>, n: nat)
    requires
        n <= 64,
    ensures
        forall|j: u64| j < n ==> #[trigger] bit_of(fp_bits(grid, n), j) == grid_bit_at(
            grid,
            j as int,
        ),
        forall|j: u64| n <= j < 64 ==> !#[trigger] bit_of(fp_bits(grid, n), j),
    decreases n,
{
    if n == 0 {
        assert forall|j: u64| n <= j < 64 implies !#[trigger] bit_of(fp_bits(grid, n), j) by {
            lemma_zero_bits(j);
        }
    } else {
        let m = (n - 1) as nat;
        lemma_fp_bits_characterizes(grid, m);
        let h = fp_bits(grid, m);
        let b = bit_val(grid, n - 1);
        let i = m as u64;
        assert(!bit_of(h, i));
        assert(((h >> i) & 1 == 0) || ((h >> i) & 1 == 1)) by (bit_vector);
        lemma_or_bit(h, b, i);
        let h2 = fp_bits(grid, n);
        assert(h2 == h | (b << i));
        assert(bit_of(h2, i) == grid_bit_at(grid, i as int));
        assert forall|j: u64| j < n implies #[trigger] bit_of(h2, j) == grid_bit_at(
            grid,
            j as int,
        ) by {
            if j != i {
                assert(bit_of(h2, j) == bit_of(h, j));
            }
        }
        assert forall|j: u64| n <= j < 64 implies !#[trigger] bit_of(h2, j) by {
            assert(bit_of(h2, j) == bit_of(h, j));
        }
    }
}

/// The fingerprint of a grid satisfies its defining bit property.
pub proof fn lemma_fingerprint_bits(grid: Seq<u8>)
    ensures
        fingerprint_ok(grid, fingerprint_spec(grid)),
{
    lemma_fp_bits_characterizes(grid, 64);
}

proof fn lemma_shift_step(h1: u64, h2: u64, k: u64)
    by (bit_vector)
    requires
        k < 63,
        h1 >> ((k + 1) as u64) == h2 >> ((k + 1) as u64),
        (h1 >> k) & 1 == (h2 >> k) & 1,
    ensures
        h1 >> k == h2 >> k,
{
}

proof fn lemma_high_bits(h1: u64, h2: u64, k: u64)
    requires
        k < 64,
        forall|j: u64| j < 64 ==> ((h1 >> j) & 1) == ((h2 >> j) & 1),
    ensures
        h1 >> k == h2 >> k,
    decreases 64 - k,
{
    assert(((h1 >> k) & 1) == ((h2 >> k) & 1));
    if k == 63 {
        assert((h1 >> 63u64) & 1 == (h2 >> 63u64) & 1 ==> h1 >> 63u64 == h2 >> 63u64)
            by (bit_vector);
    } else {
        lemma_high_bits(h1, h2, (k + 1) as u64);
        lemma_shift_step(h1, h2, k);
    }
}

/// Two 64-bit values that agree on every bit are equal.
proof fn lemma_u64_bit_ext(h1: u64, h2: u64)
    requires
        forall|j: u64| j < 64 ==> ((h1 >> j) & 1) == ((h2 >> j) & 1),
    ensures
        h1 == h2,
{
    lemma_high_bits(h1, h2, 0);
    assert(h1 >> 0u64 == h1 && h2 >> 0u64 == h2) by (bit_vector);
}

/// Law: the fingerprint is deterministic.  Any two 64-bit values that both
/// satisfy the defining bit property of the same grid are equal, so
/// identical grids always yield identical fingerprints.
pub proof fn lemma_fingerprint_unique(grid: Seq<u8>, h1: u64, h2: u64)
    requires
        fingerprint_ok(grid, h1),
        fingerprint_ok(grid, h2),
    ensures
        h1 == h2,
{
    assert forall|j: u64| j < 64 implies ((h1 >> j) & 1) == ((h2 >> j) & 1) by {
        assert(bit_of(h1, j) == grid_bit_at(grid, j as int));
        assert(bit_of(h2, j) == grid_bit_at(grid, j as int));
        assert(((h1 >> j) & 1 == 0) || ((h1 >> j) & 1 == 1)) by (bit_vector);
        assert(((h2 >> j) & 1 == 0) || ((h2 >> j) & 1 == 1)) by (bit_vector);
    }
    lemma_u64_bit_ext(h1, h2);
}

/// Law: a grid whose rows strictly increase from left to right
/// fingerprints to the all-ones value.
pub proof fn lemma_fingerprint_all_increasing(grid: Seq<u8>)
    requires
        forall|y: int, x: int| 0 <= y < 8 && 0 <= x < 8 ==> #[trigger] grid_bit(grid, y, x),
    ensures
        fingerprint_spec(grid) == 0xFFFF_FFFF_FFFF_FFFFu64,
{
    lemma_fingerprint_bits(grid);
    let h = fingerprint_spec(grid);
    assert forall|j: u64| j < 64 implies ((h >> j) & 1) == ((0xFFFF_FFFF_FFFF_FFFFu64 >> j)
        & 1) by {
        let n = j as int;
        assert(0 <= n / 8 < 8 && 0 <= n % 8 < 8) by (nonlinear_arith)
            requires
                0 <= n < 64,
        ;
        assert(grid_bit_at(grid, n));
        assert(bit_of(h, j));
        assert((0xFFFF_FFFF_FFFF_FFFFu64 >> j) & 1 == 1 && ((h >> j) & 1 == 0 || (h >> j) & 1
            == 1)) by (bit_vector)
            requires
                j < 64u64,
        ;
    }
    lemma_u64_bit_ext(h, 0xFFFF_FFFF_FFFF_FFFFu64);
}

/// Law: a grid whose rows never increase from left to right fingerprints
/// to zero.
pub proof fn lemma_fingerprint_all_decreasing(grid: Seq<u8>)
    requires
        forall|y: int, x: int| 0 <= y < 8 && 0 <= x < 8 ==> !#[trigger] grid_bit(grid, y, x),
    ensures
        fingerprint_spec(grid) == 0u64,
{
    lemma_fingerprint_bits(grid);
    let h = fingerprint_spec(grid);
    assert forall|j: u64| j < 64 implies ((h >> j) & 1) == ((0u64 >> j) & 1) by {
        let n = j as int;
        assert(0 <= n / 8 < 8 && 0 <= n % 8 < 8) by (nonlinear_arith)
            requires
                0 <= n < 64,
        ;
        assert(!grid_bit_at(grid, n));
        assert(!bit_of(h, j));
        assert((0u64 >> j) & 1 == 0 && ((h >> j) & 1 == 0 || (h >> j) & 1 == 1)) by (bit_vector);
    }
    lemma_u64_bit_ext(h, 0u64);
}

/// Compute the 64-bit gradient fingerprint of a 9-by-8 intensity grid.
/// Rejects a buffer of any other size with `InvalidGridSize`.
pub fn fingerprint(grid: &Vec<u8>) -> (r: Result<u64, PipelineError>)
    ensures
        grid@.len() == 72 ==> r == Ok::<u64, PipelineError>(fingerprint_spec(grid@)),
        grid@.len() != 72 ==> r == Err::<u64, PipelineError>(PipelineError::InvalidGridSize),
{
    if grid.len() != 72 {
        return Err(PipelineError::InvalidGridSize);
    }
    let mut hash: u64 = 0;
    let mut y: usize = 0;
    while y < 8
        invariant
            grid@.len() == 72,
            y <= 8,
            hash == fp_bits(grid@, (8 * y) as nat),
        decreases 8 - y,
    {
        let mut x: usize = 0;
        while x < 8
            invariant
                grid@.len() == 72,
                y < 8,
                x <= 8,
                hash == fp_bits(grid@, (8 * y + x) as nat),
            decreases 8 - x,
        {
            let ghost n: int = 8 * y + x;
            let increasing = grid[9 * y + x] < grid[9 * y + x + 1];
            let bit: u64 = if increasing {
                1
            } else {
                0
            };
            let shift: u64 = (8 * y + x) as u64;
            proof {
                assert(n / 8 == y && n % 8 == x) by (nonlinear_arith)
                    requires
                        n == 8 * y + x,
                        0 <= x < 8,
                        0 <= y < 8,
                ;
                assert(bit == bit_val(grid@, n));
                assert(fp_bits(grid@, (n + 1) as nat) == fp_bits(grid@, n as nat) | (bit_val(
                    grid@,
                    n,
                ) << (n as u64)));
            }
            hash = hash | (bit << shift);
            x = x + 1;
        }
        y = y + 1;
    }
    Ok(hash)
}

} // verus!
