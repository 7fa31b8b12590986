//! Row layout of a captured frame: the copy from the off-screen target goes
//! into rows whose stride is rounded up to the device's alignment, and the
//! frame that is kept has that padding stripped.
use vstd::prelude::*;
use crate::grid::{ceil_div, lemma_ceil_div};

verus! {

/// Bytes per pixel of the capture target.
pub const PIXEL_BYTES: u32 = 4;

/// Stride of one padded row: `width * 4` rounded up to a multiple of `align`.
pub open spec fn padded_row_len(width: nat, align: nat) -> nat {
    ceil_div(width * 4, align) * align
}

/// The packed frame kept from a padded copy of `h` rows: the first `w4`
/// bytes of each row of stride `prow`.
pub open spec fn unpad(p: Seq<u8>, w4: nat, prow: nat, h: nat) -> Seq<u8> {
    Seq::new(h * w4, |k: int| p[(k / w4 as int) * prow + k % w4 as int])
}

/// A packed frame of `h` rows of `w4` bytes laid out with stride `prow`,
/// the bytes past `w4` in each row set to zero.
pub open spec fn pad(d: Seq<u8>, w4: nat, prow: nat, h: nat) -> Seq<u8> {
    Seq::new(
        h * prow,
        |k: int|
            if k % (prow as int) < w4 {
                d[(k / prow as int) * w4 + k % prow as int]
            } else {
                0u8
            },
    )
}

/// Stride of a padded row for a target `width` pixels wide, under the
/// device's row alignment `align`.
pub fn padded_bytes_per_row(width: u32, align: u32) -> (r: u32)
    requires
        align > 0,
        padded_row_len(width as nat, align as nat) <= u32::MAX,
    ensures
        r == padded_row_len(width as nat, align as nat),
        r >= width * 4,
        r % align == 0,
        r < width * 4 + align,
{
    proof {
        let u = width as nat * 4;
        let a = align as nat;
        lemma_ceil_div(u, a);
        let q = u / a;
        let c = ceil_div(u, a);
        if u % a == 0 {
            assert(c * a == u) by (nonlinear_arith)
                requires c == q, u == a * q + u % a, u % a == 0;
        } else {
            let m = u % a;
            assert(c * a == a * q + a) by (nonlinear_arith)
                requires c == q + 1;
            assert(c * a == u + (a - m));
        }
        vstd::arithmetic::div_mod::lemma_mod_multiples_basic(c as int, a as int);
    }
    let unpadded: u32 = width * PIXEL_BYTES;
    let rem: u32 = unpadded % align;
    let padding: u32 = (align - rem) % align;
    proof {
        if rem == 0 {
            vstd::arithmetic::div_mod::lemma_mod_self_0(align as int);
        } else {
            vstd::arithmetic::div_mod::lemma_small_mod((align - rem) as nat, align as nat);
        }
    }
    unpadded + padding
}

/// Size in bytes of the read-back buffer: `height` rows of stride `padded_row`.
pub fn capture_buffer_bytes(padded_row: u32, height: u32) -> (r: u64)
    ensures
        r == padded_row * height,
{
    let p: u64 = padded_row as u64;
    let h: u64 = height as u64;
    assert(p * h <= u64::MAX) by (nonlinear_arith)
        requires p <= u32::MAX, h <= u32::MAX;
    p * h
}

/// Facts on integer division used by the row loops.
proof fn lemma_row_col(k: int, w: int, row: int, h: int)
    requires
        w > 0,
        w <= row,
        0 <= k < h * w,
    ensures
        0 <= k / w < h,
        0 <= k % w < w,
        (k / w) * row + k % w < h * row,
        ((k / w) * row + k % w) / row == k / w,
        ((k / w) * row + k % w) % row == k % w,
{
    let i = k / w;
    let j = k % w;
    assert(k == w * i + j && 0 <= j < w) by (nonlinear_arith)
        requires w > 0, i == k / w, j == k % w;
    assert(0 <= i < h) by (nonlinear_arith)
        requires k == w * i + j, 0 <= j < w, 0 <= k < h * w, w > 0;
    assert(i * row + j < h * row) by (nonlinear_arith)
        requires 0 <= i < h, 0 <= j < w, w <= row;
    vstd::arithmetic::div_mod::lemma_fundamental_div_mod_converse(i * row + j, row, i, j);
}

/// Strips the trailing padding of each of `height` rows of stride
/// `padded_row` bytes, keeping the first `row_bytes` of each.
pub fn strip_padding(padded: &Vec<u8>, row_bytes: usize, padded_row: usize, height: usize) -> (r:
    Vec<u8>)
    requires
        row_bytes <= padded_row,
        padded@.len() == padded_row * height,
    ensures
        r@ == unpad(padded@, row_bytes as nat, padded_row as nat, height as nat),
        r@.len() == row_bytes * height,
{
    let plen: usize = padded.len();
    let mut r: Vec<u8> = Vec::new();
    if row_bytes == 0 {
        assert(r@ =~= unpad(padded@, 0, padded_row as nat, height as nat));
        return r;
    }
    assert(row_bytes * height <= padded_row * height) by (nonlinear_arith)
        requires row_bytes <= padded_row;
    let total: usize = row_bytes * height;
    assert(total == height * row_bytes) by (nonlinear_arith)
        requires total == row_bytes * height;
    let mut k: usize = 0;
    while k < total
        invariant
            0 < row_bytes <= padded_row,
            total == height * row_bytes,
            padded@.len() == padded_row * height,
            padded_row * height == height * padded_row,
            padded_row * height <= usize::MAX,
            k <= total,
            r@.len() == k,
            forall|m: int|
                0 <= m < k ==> #[trigger] r@[m] == padded@[(m / row_bytes as int) * padded_row
                    + m % row_bytes as int],
        decreases total - k,
    {
        proof {
            lemma_row_col(k as int, row_bytes as int, padded_row as int, height as int);
        }
        let idx: usize = (k / row_bytes) * padded_row + k % row_bytes;
        r.push(padded[idx]);
        k += 1;
    }
    assert(r@ =~= unpad(padded@, row_bytes as nat, padded_row as nat, height as nat));
    r
}

/// Lays out a packed frame of `height` rows of `row_bytes` bytes with a
/// stride of `padded_row` bytes, filling the padding with zeros.
pub fn pad_rows(data: &Vec<u8>, row_bytes: usize, padded_row: usize, height: usize) -> (r: Vec<
    u8>)
    requires
        0 < padded_row,
        row_bytes <= padded_row,
        data@.len() == row_bytes * height,
        padded_row * height <= usize::MAX,
    ensures
        r@ == pad(data@, row_bytes as nat, padded_row as nat, height as nat),
        r@.len() == padded_row * height,
{
    let dlen: usize = data.len();
    let mut r: Vec<u8> = Vec::new();
    let total: usize = padded_row * height;
    assert(total == height * padded_row) by (nonlinear_arith)
        requires total == padded_row * height;
    let mut k: usize = 0;
    while k < total
        invariant
            0 < padded_row,
            row_bytes <= padded_row,
            data@.len() == row_bytes * height,
            row_bytes * height <= usize::MAX,
            total == height * padded_row,
            k <= total,
            r@.len() == k,
            forall|m: int|
                0 <= m < k ==> #[trigger] r@[m] == (if m % (padded_row as int) < row_bytes {
                    data@[(m / padded_row as int) * row_bytes + m % padded_row as int]
                } else {
                    0u8
                }),
        decreases total - k,
    {
        let col: usize = k % padded_row;
        if col < row_bytes {
            proof {
                let i = k as int / padded_row as int;
                assert(0 <= i < height) by (nonlinear_arith)
                    requires i == k as int / padded_row as int, k < height * padded_row, padded_row > 0;
                assert(i * row_bytes + col < row_bytes * height) by (nonlinear_arith)
                    requires 0 <= i < height, col < row_bytes;
                assert(i * row_bytes <= row_bytes * height) by (nonlinear_arith)
                    requires 0 <= i < height, row_bytes >= 0;
            }
            let idx: usize = (k / padded_row) * row_bytes + col;
            r.push(data[idx]);
        } else {
            r.push(0u8);
        }
        k += 1;
    }
    assert(r@ =~= pad(data@, row_bytes as nat, padded_row as nat, height as nat));
    r
}

/// Padding a packed frame and stripping it again gives the frame back.
pub proof fn lemma_pad_then_strip(d: Seq<u8>, w4: nat, prow: nat, h: nat)
    requires
        w4 <= prow,
        d.len() == h * w4,
    ensures
        unpad(pad(d, w4, prow, h), w4, prow, h) == d,
        pad(d, w4, prow, h).len() == h * prow,
{
    let p = pad(d, w4, prow, h);
    let u = unpad(p, w4, prow, h);
    if w4 == 0 {
        assert(h * w4 == 0);
    } else {
        assert forall|k: int| 0 <= k < h * w4 implies #[trigger] u[k] == d[k] by {
            lemma_row_col(k, w4 as int, prow as int, h as int);
            let i = k / w4 as int;
            let j = k % w4 as int;
            let idx = i * prow + j;
            assert(k == i * w4 + j) by (nonlinear_arith)
                requires w4 > 0, i == k / w4 as int, j == k % w4 as int;
            assert(idx % (prow as int) == j);
            assert(idx / (prow as int) == i);
            assert(p[idx] == d[i * w4 + j]);
        }
    }
    assert(u =~= d);
}

/// For any capture width `w` and alignment `a`: stripping a padded row of
/// `padded_row_len(w, a)` bytes yields exactly `w * 4` bytes, and padding that
/// result again gives back the padded length.
pub proof fn lemma_row_padding_round_trip(w: nat, a: nat, row: Seq<u8>)
    requires
        a > 0,
        row.len() == padded_row_len(w, a),
    ensures
        padded_row_len(w, a) >= w * 4,
        unpad(row, w * 4, padded_row_len(w, a), 1).len() == w * 4,
        pad(unpad(row, w * 4, padded_row_len(w, a), 1), w * 4, padded_row_len(w, a), 1).len()
            == padded_row_len(w, a),
        unpad(pad(unpad(row, w * 4, padded_row_len(w, a), 1), w * 4, padded_row_len(w, a), 1),
            w * 4, padded_row_len(w, a), 1) == unpad(row, w * 4, padded_row_len(w, a), 1),
{
    lemma_ceil_div(w * 4, a);
    let q = (w * 4) / a;
    if (w * 4) % a != 0 {
        assert((q + 1) * a == a * q + a) by (nonlinear_arith);
    } else {
        assert(q * a == a * q) by (nonlinear_arith);
    }
    let prow = padded_row_len(w, a);
    let s = unpad(row, w * 4, prow, 1);
    assert(s.len() == 1 * (w * 4));
    lemma_pad_then_strip(s, w * 4, prow, 1);
}

} // verus!
