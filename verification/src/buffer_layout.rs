//! Row layout of GPU readback buffers.
//!
//! Copying a rendered texture into host memory goes through a staging
//! buffer whose rows the graphics API requires to be aligned: each row of
//! `width` four-byte pixels is stored padded to the next multiple of 256
//! bytes. The functions here compute that layout and repack a padded
//! staging buffer into the tight `width * 4 * height` byte buffer callers
//! expect.

use vstd::prelude::*;

use vstd::arithmetic::mul::lemma_mul_inequality;

verus! {

/// Within a tight row-major layout, the byte `b0` of row `r0` lies below
/// the start of row `row`.
proof fn lemma_row_index_bound(r0: int, b0: int, row: int, rb: int)
    requires
        0 <= r0 < row,
        0 <= b0 < rb,
    ensures
        r0 * rb + b0 < row * rb,
{
    lemma_mul_inequality(r0 + 1, row, rb);
    assert((r0 + 1) * rb == r0 * rb + rb) by (nonlinear_arith);
}

/// The unpadded byte width of one row of four-byte pixels.
pub open spec fn row_bytes_spec(width: u32) -> nat {
    width as nat * 4
}

/// The byte width of one staging-buffer row: the unpadded width rounded up
/// to the next multiple of 256.
pub open spec fn padded_row_bytes_spec(width: u32) -> nat {
    ((width as nat * 4 + 255) / 256) * 256
}

/// A padded row is at least as wide as the row it holds, and no wider than
/// one alignment block more.
pub proof fn lemma_padded_row_bytes(width: u32)
    ensures
        row_bytes_spec(width) <= padded_row_bytes_spec(width),
        padded_row_bytes_spec(width) < row_bytes_spec(width) + 256,
        padded_row_bytes_spec(width) % 256 == 0,
{
    let w4 = width as nat * 4;
    assert(w4 <= ((w4 + 255) / 256) * 256 < w4 + 256) by (nonlinear_arith);
    assert((((w4 + 255) / 256) * 256) % 256 == 0) by (nonlinear_arith);
}

/// The byte width of one staging-buffer row.
pub fn padded_row_bytes(width: u32) -> (r: u64)
    ensures
        r == padded_row_bytes_spec(width),
{
    let w4: u64 = width as u64 * 4;
    let q: u64 = (w4 + 255) / 256;
    proof {
        assert(q * 256 <= w4 + 255) by (nonlinear_arith)
            requires
                q == (w4 + 255) / 256,
        ;
    }
    q * 256
}

/// The size of the staging buffer for a `width` by `height` texture.
pub fn buffer_size(width: u32, height: u32) -> (r: u64)
    requires
        padded_row_bytes_spec(width) * height as nat <= u64::MAX,
    ensures
        r == padded_row_bytes_spec(width) * height as nat,
{
    padded_row_bytes(width) * height as u64
}

/// Repacks a padded staging buffer into a tight pixel buffer: row `row` of
/// the result is the first `width * 4` bytes of row `row` of `data`, with
/// the alignment padding dropped.
pub fn unpad_rows(data: &[u8], width: u32, height: u32) -> (r: Vec<u8>)
    requires
        row_bytes_spec(width) <= usize::MAX,
        row_bytes_spec(width) * height as nat <= usize::MAX,
        padded_row_bytes_spec(width) <= usize::MAX,
        padded_row_bytes_spec(width) * height as nat <= data@.len(),
    ensures
        r@.len() == row_bytes_spec(width) * height as nat,
        forall|row: int, b: int|
            0 <= row < height && 0 <= b < row_bytes_spec(width)
                ==> #[trigger] r@[row * row_bytes_spec(width) + b] == data@[row
                * padded_row_bytes_spec(width) + b],
{
    let dlen: usize = data.len();
    let rb: usize = width as usize * 4;
    let prb: usize = padded_row_bytes(width) as usize;
    proof {
        lemma_padded_row_bytes(width);
    }
    let mut out: Vec<u8> = Vec::new();
    let mut row: usize = 0;
    while row < height as usize
        invariant
            rb == row_bytes_spec(width),
            prb == padded_row_bytes_spec(width),
            rb <= prb,
            dlen == data@.len(),
            rb * height as nat <= usize::MAX,
            prb * height as nat <= data@.len(),
            0 <= row <= height,
            out@.len() == row * rb,
            forall|r0: int, b0: int|
                0 <= r0 < row && 0 <= b0 < rb ==> #[trigger] out@[r0 * rb + b0] == data@[r0 * prb
                    + b0],
        decreases height - row,
    {
        proof {
            lemma_mul_inequality(row as int + 1, height as int, rb as int);
            lemma_mul_inequality(row as int + 1, height as int, prb as int);
            assert((row + 1) * rb == row * rb + rb) by (nonlinear_arith);
            assert((row + 1) * prb == row * prb + prb) by (nonlinear_arith);
            assert(height as int * prb as int == prb as int * (height as nat) as int)
                by (nonlinear_arith);
            assert(height as int * rb as int == rb as int * (height as nat) as int)
                by (nonlinear_arith);
            assert(row * prb + prb <= data@.len());
            assert(row * rb + rb <= usize::MAX);
        }
        let row_start: usize = row * prb;
        let out_start: Ghost<int> = Ghost(row as int * rb as int);
        let mut b: usize = 0;
        while b < rb
            invariant
                rb == row_bytes_spec(width),
                prb == padded_row_bytes_spec(width),
                0 <= b <= rb,
                row < height,
                row_start == row * prb,
                out_start@ == row * rb,
                row_start + prb <= data@.len(),
                dlen == data@.len(),
                out_start@ + rb <= usize::MAX,
                rb <= prb,
                out@.len() == out_start@ + b,
                forall|r0: int, b0: int|
                    0 <= r0 < row && 0 <= b0 < rb ==> #[trigger] out@[r0 * rb + b0] == data@[r0
                        * prb + b0],
                forall|b0: int|
                    0 <= b0 < b ==> #[trigger] out@[out_start@ + b0] == data@[row * prb + b0],
            decreases rb - b,
        {
            let ghost out_before = out@;
            out.push(data[row_start + b]);
            proof {
                assert forall|r0: int, b0: int|
                    0 <= r0 < row && 0 <= b0 < rb implies #[trigger] out@[r0 * rb + b0]
                    == data@[r0 * prb + b0] by {
                    lemma_row_index_bound(r0, b0, row as int, rb as int);
                    assert(out@[r0 * rb + b0] == out_before[r0 * rb + b0]);
                };
            }
            b += 1;
        }
        proof {
            assert forall|r0: int, b0: int|
                0 <= r0 < row + 1 && 0 <= b0 < rb implies #[trigger] out@[r0 * rb + b0]
                == data@[r0 * prb + b0] by {
                if r0 == row {
                    assert(out@[out_start@ + b0] == data@[row * prb + b0]);
                }
            };
        }
        row += 1;
    }
    proof {
        assert(height as int * rb as int == rb as int * height as int) by (nonlinear_arith);
        assert(height as int * prb as int == prb as int * height as int) by (nonlinear_arith);
        assert(out@.len() == row_bytes_spec(width) * height as nat);
    }
    out
}

} // verus!
