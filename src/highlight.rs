//! Packing an 8x8 grid of flags into two 32-bit words and back.
//!
//! Cells are taken file by file; within a file, ranks 0..4 go to the first
//! word and ranks 4..8 to the second. The first cell taken lands in the most
//! significant bit of its word.
use vstd::prelude::*;

verus! {

/// Bit `k` of `w`, counting from the least significant.
pub open spec fn bit_of(w: u32, k: u32) -> bool {
    (w >> k) & 1u32 == 1u32
}

/// The bit of an encoded pair that stands for cell `[file][rank]`.
pub open spec fn cell_bit(w: (i32, i32), file: int, rank: int) -> bool {
    let word = if rank < 4 { w.0 } else { w.1 };
    bit_of(word as u32, (31 - (4 * file + rank % 4)) as u32)
}

/// `w` is the encoding of `grid`: every cell's flag is its bit.
pub open spec fn encodes(grid: [[bool; 8]; 8], w: (i32, i32)) -> bool {
    forall|x: int, y: int| 0 <= x < 8 && 0 <= y < 8 ==> #[trigger] cell_bit(w, x, y) == grid[x][y]
}

/// `grid` holds, for each cell, its bit in `w`.
pub open spec fn decodes(w: (i32, i32), grid: [[bool; 8]; 8]) -> bool {
    forall|x: int, y: int| 0 <= x < 8 && 0 <= y < 8 ==> #[trigger] grid[x][y] == cell_bit(w, x, y)
}

proof fn lemma_push_bit(a: u32, b: u32, n: u32)
    requires
        b <= 1,
    ensures
        bit_of((a << 1) | b, 0) == (b == 1),
        n < 31 && a >> n == 0 ==> ((a << 1) | b) >> (n + 1) as u32 == 0,
{
    assert((((a << 1) | b) >> 0u32) & 1u32 == b) by (bit_vector)
        requires
            b <= 1,
    ;
    assert(n < 31 && a >> n == 0 ==> ((a << 1) | b) >> (n + 1) as u32 == 0) by (bit_vector)
        requires
            b <= 1,
    ;
}

proof fn lemma_push_bit_keeps(a: u32, b: u32, k: u32)
    requires
        b <= 1,
        k < 31,
    ensures
        bit_of((a << 1) | b, (k + 1) as u32) == bit_of(a, k),
{
    assert((((a << 1) | b) >> (k + 1) as u32) & 1u32 == (a >> k) & 1u32) by (bit_vector)
        requires
            b <= 1,
            k < 31,
    ;
}

proof fn lemma_reinterpret(w: u32)
    ensures
        (w as i32) as u32 == w,
{
    assert((w as i32) as u32 == w) by (bit_vector);
}

/// Packs `grid`, indexed `[file][rank]`, into two words.
pub fn encode_valid_cells_to_integers(valid_cells_to_move: &[[bool; 8]; 8]) -> (r: (i32, i32))
    ensures
        encodes(*valid_cells_to_move, r),
{
    let g = valid_cells_to_move;
    let mut low: u32 = 0;
    let mut high: u32 = 0;
    let mut x_pos: usize = 0;
    assert(0u32 >> 0u32 == 0u32) by (bit_vector);
    while x_pos < 8
        invariant
            x_pos <= 8,
            x_pos < 8 ==> low >> (4 * x_pos) as u32 == 0 && high >> (4 * x_pos) as u32 == 0,
            forall|i: int, j: int|
                0 <= i < x_pos && 0 <= j < 4 ==> {
                    &&& bit_of(low, (4 * x_pos - 1 - (4 * i + j)) as u32) == #[trigger] g[i][j]
                    &&& bit_of(high, (4 * x_pos - 1 - (4 * i + j)) as u32) == g[i][j + 4]
                },
        decreases 8 - x_pos,
    {
        let mut y_pos: usize = 0;
        while y_pos < 4
            invariant
                x_pos < 8,
                y_pos <= 4,
                4 * x_pos + y_pos < 32 ==> low >> (4 * x_pos + y_pos) as u32 == 0 && high >> (4 * x_pos
                    + y_pos) as u32 == 0,
                forall|i: int, j: int|
                    0 <= i < 8 && 0 <= j < 4 && 4 * i + j < 4 * x_pos + y_pos ==> {
                        &&& bit_of(low, (4 * x_pos + y_pos - 1 - (4 * i + j)) as u32) == #[trigger] g[i][j]
                        &&& bit_of(high, (4 * x_pos + y_pos - 1 - (4 * i + j)) as u32) == g[i][j + 4]
                    },
            decreases 4 - y_pos,
        {
            let n: u32 = (4 * x_pos + y_pos) as u32;
            let low_bit: u32 = if g[x_pos][y_pos] { 1 } else { 0 };
            let high_bit: u32 = if g[x_pos][y_pos + 4] { 1 } else { 0 };
            let new_low = (low << 1) | low_bit;
            let new_high = (high << 1) | high_bit;
            proof {
                assert(n as int == 4 * x_pos + y_pos);
                lemma_push_bit(low, low_bit, n);
                lemma_push_bit(high, high_bit, n);
                assert forall|i: int, j: int|
                    0 <= i < 8 && 0 <= j < 4 && 4 * i + j < n + 1 implies {
                        &&& bit_of(new_low, (n - (4 * i + j)) as u32) == #[trigger] g[i][j]
                        &&& bit_of(new_high, (n - (4 * i + j)) as u32) == g[i][j + 4]
                    } by {
                    if 4 * i + j < n {
                        let k = (n - 1 - (4 * i + j)) as u32;
                        lemma_push_bit_keeps(low, low_bit, k);
                        lemma_push_bit_keeps(high, high_bit, k);
                        assert(bit_of(low, k) == g[i][j]);
                        assert(bit_of(high, k) == g[i][j + 4]);
                    } else {
                        assert(i == x_pos && j == y_pos);
                        assert(bit_of(new_low, 0) == g[i][j]);
                        assert(bit_of(new_high, 0) == g[i][j + 4]);
                    }
                }
            }
            low = new_low;
            high = new_high;
            y_pos = y_pos + 1;
            assert forall|i: int, j: int|
                0 <= i < 8 && 0 <= j < 4 && 4 * i + j < 4 * x_pos + y_pos implies {
                    &&& bit_of(low, (4 * x_pos + y_pos - 1 - (4 * i + j)) as u32) == #[trigger] g[i][j]
                    &&& bit_of(high, (4 * x_pos + y_pos - 1 - (4 * i + j)) as u32) == g[i][j + 4]
                } by {
                assert((4 * x_pos + y_pos - 1 - (4 * i + j)) == n - (4 * i + j));
            }
        }
        x_pos = x_pos + 1;
    }
    proof {
        lemma_reinterpret(low);
        lemma_reinterpret(high);
    }
    let r = (#[verifier::truncate] (low as i32), #[verifier::truncate] (high as i32));
    assert forall|x: int, y: int| 0 <= x < 8 && 0 <= y < 8 implies #[trigger] cell_bit(r, x, y) == g[x][y] by {
        if y < 4 {
            assert(g[x][y % 4] == g[x][y]);
        } else {
            assert(g[x][y % 4] == g[x][y - 4]);
            assert(g[x][y - 4 + 4] == g[x][y]);
        }
    }
    r
}

/// Unpacks two words into the grid they encode, indexed `[file][rank]`.
pub fn decode_valid_cells_from_integers(encoded: (i32, i32)) -> (r: [[bool; 8]; 8])
    ensures
        decodes(encoded, r),
{
    let low = #[verifier::truncate] (encoded.0 as u32);
    let high = #[verifier::truncate] (encoded.1 as u32);
    let mut grid: [[bool; 8]; 8] = [[false; 8]; 8];
    let mut x_pos: usize = 0;
    while x_pos < 8
        invariant
            x_pos <= 8,
            low == encoded.0 as u32,
            high == encoded.1 as u32,
            forall|x: int, y: int| 0 <= x < x_pos && 0 <= y < 8 ==> #[trigger] grid[x][y] == cell_bit(encoded, x, y),
        decreases 8 - x_pos,
    {
        let mut y_pos: usize = 0;
        while y_pos < 8
            invariant
                x_pos < 8,
                y_pos <= 8,
                low == encoded.0 as u32,
                high == encoded.1 as u32,
                forall|x: int, y: int|
                    (0 <= x < x_pos && 0 <= y < 8) || (x == x_pos && 0 <= y < y_pos) ==> #[trigger] grid[x][y]
                        == cell_bit(encoded, x, y),
            decreases 8 - y_pos,
        {
            let word = if y_pos < 4 { low } else { high };
            let k: u32 = (31 - (4 * x_pos + y_pos % 4)) as u32;
            grid[x_pos][y_pos] = (word >> k) & 1 == 1;
            y_pos = y_pos + 1;
        }
        x_pos = x_pos + 1;
    }
    grid
}

/// Unpacking the encoding of a grid gives back that grid, whatever it holds.
pub proof fn lemma_decode_encode_round_trip(grid: [[bool; 8]; 8], encoded: (i32, i32), decoded: [[bool; 8]; 8])
    requires
        encodes(grid, encoded),
        decodes(encoded, decoded),
    ensures
        decoded == grid,
{
    assert forall|x: int| 0 <= x < 8 implies decoded[x] == grid[x] by {
        assert forall|y: int| 0 <= y < 8 implies decoded[x][y] == grid[x][y] by {
            assert(cell_bit(encoded, x, y) == grid[x][y]);
        }
        assert(decoded[x] =~= grid[x]);
    }
    assert(decoded =~= grid);
}

} // verus!
