//! Horizontal flip of a dense RGB24 buffer (selfie-view correction).
use vstd::prelude::*;

verus! {

use vstd::arithmetic::div_mod::{
    lemma_fundamental_div_mod,
    lemma_fundamental_div_mod_converse,
    lemma_mod_bound,
};

/// Index of the source byte that lands at position `i` when a
/// `width`-pixel-wide RGB24 buffer is flipped horizontally: same row, same
/// channel, column `width - 1 - col`.
pub open spec fn mirror_index(width: int, i: int) -> int
    recommends
        width > 0,
{
    let p = i / 3;
    let chan = i % 3;
    let row = p / width;
    let col = p % width;
    3 * (row * width + (width - 1 - col)) + chan
}

/// The horizontally flipped buffer.
pub open spec fn mirrored(s: Seq<u8>, width: int) -> Seq<u8> {
    Seq::new(s.len(), |i: int| s[mirror_index(width, i)])
}

/// Flipping is its own inverse at the level of byte positions: the mirror
/// index of a mirror index is the original index, and both stay in bounds.
pub proof fn lemma_mirror_index_involution(width: int, height: int, i: int)
    requires
        width > 0,
        height >= 0,
        0 <= i < 3 * width * height,
    ensures
        0 <= mirror_index(width, i) < 3 * width * height,
        mirror_index(width, mirror_index(width, i)) == i,
{
    let p = i / 3;
    let chan = i % 3;
    lemma_fundamental_div_mod(i, 3);
    lemma_mod_bound(i, 3);
    assert(3 * (width * height) == 3 * width * height) by (nonlinear_arith);
    assert(p < width * height);
    let row = p / width;
    let col = p % width;
    lemma_fundamental_div_mod(p, width);
    lemma_mod_bound(p, width);
    assert(row >= 0) by (nonlinear_arith)
        requires
            width * row + col == p,
            p >= 0,
            0 <= col < width,
            width > 0,
            row == p / width,
    ;
    assert(row < height) by (nonlinear_arith)
        requires
            width * row + col < width * height,
            0 <= col < width,
            width > 0,
    ;
    let q = row * width + (width - 1 - col);
    assert(width * row == row * width) by (nonlinear_arith);
    assert(q < width * height) by (nonlinear_arith)
        requires
            0 <= row < height,
            0 <= width - 1 - col < width,
            q == row * width + (width - 1 - col),
    ;
    assert(q >= 0) by (nonlinear_arith)
        requires
            row >= 0,
            width > 0,
            width - 1 - col >= 0,
            q == row * width + (width - 1 - col),
    ;
    let m = 3 * q + chan;
    assert(mirror_index(width, i) == m);
    assert(m < 3 * width * height);
    lemma_fundamental_div_mod_converse(m, 3, q, chan);
    lemma_fundamental_div_mod_converse(q, width, row, width - 1 - col);
    assert(mirror_index(width, m) == 3 * (row * width + col) + chan);
    assert(3 * (row * width + col) + chan == i);
}

/// Flipping a buffer horizontally twice reproduces it exactly, whatever
/// its contents, including buffers of odd width.
pub proof fn lemma_mirror_involution(s: Seq<u8>, width: int, height: int)
    requires
        width > 0,
        height >= 0,
        s.len() == 3 * width * height,
    ensures
        mirrored(mirrored(s, width), width) == s,
{
    let twice = mirrored(mirrored(s, width), width);
    assert forall|i: int| 0 <= i < s.len() implies twice[i] == s[i] by {
        lemma_mirror_index_involution(width, height, i);
        lemma_mirror_index_involution(width, height, mirror_index(width, i));
    }
    assert(twice =~= s);
}

/// Swaps each row's pixel at column `c` with the pixel at column
/// `width - 1 - c`; with an odd width the middle column stays put.
pub fn mirror_rgb(data: &mut Vec<u8>, width: u32, height: u32)
    requires
        old(data)@.len() == 3 * width * height,
    ensures
        final(data)@ == mirrored(old(data)@, width as int),
{
    let w = width as usize;
    let h = height as usize;
    let n = data.len();
    if w == 0 || h == 0 {
        proof {
            assert(3 * width * height == 0) by (nonlinear_arith)
                requires
                    width == 0 || height == 0,
            ;
        }
        assert(data@ =~= mirrored(old(data)@, width as int));
        return ;
    }
    let mut out: Vec<u8> = Vec::new();
    let mut row: usize = 0;
    while row < h
        invariant
            0 <= row <= h,
            w == width,
            h == height,
            w > 0,
            data@ == old(data)@,
            data@.len() == 3 * width * height,
            data@.len() <= usize::MAX,
            out@.len() == 3 * (row * width),
            forall|i: int| 0 <= i < out@.len() ==> out@[i] == data@[mirror_index(width as int, i)],
        decreases h - row,
    {
        let mut col: usize = 0;
        while col < w
            invariant
                0 <= col <= w,
                0 <= row < h,
                w == width,
                h == height,
                w > 0,
                data@ == old(data)@,
                data@.len() == 3 * width * height,
                data@.len() <= usize::MAX,
                out@.len() == 3 * (row * width + col),
                forall|i: int|
                    0 <= i < out@.len() ==> out@[i] == data@[mirror_index(width as int, i)],
            decreases w - col,
        {
            proof {
                assert(row * width + col < width * height && width * height >= 0
                    && row * width + (width - 1 - col) < width * height && row * width + (width - 1
                    - col) >= 0) by (nonlinear_arith)
                    requires
                        0 <= row < height,
                        0 <= col < width,
                ;
                assert(3 * ((row as int) * width + col) < 3 * (width * height));
                assert(3 * (width * height) == 3 * width * height) by (nonlinear_arith);
                assert((row as int) * (w as int) == (row as int) * (width as int));
            }
            let src: usize = (row * w + (w - 1 - col)) * 3;
            let b0 = data[src];
            let b1 = data[src + 1];
            let b2 = data[src + 2];
            out.push(b0);
            out.push(b1);
            out.push(b2);
            proof {
                let p = (row as int) * width + col;
                let q = (row as int) * width + (width - 1 - col);
                lemma_fundamental_div_mod_converse(3 * p, 3, p, 0);
                lemma_fundamental_div_mod_converse(3 * p + 1, 3, p, 1);
                lemma_fundamental_div_mod_converse(3 * p + 2, 3, p, 2);
                lemma_fundamental_div_mod_converse(p, width as int, row as int, col as int);
                assert(mirror_index(width as int, 3 * p) == 3 * q);
                assert(mirror_index(width as int, 3 * p + 1) == 3 * q + 1);
                assert(mirror_index(width as int, 3 * p + 2) == 3 * q + 2);
            }
            col = col + 1;
        }
        proof {
            assert((row + 1) * width == row * width + width) by (nonlinear_arith);
        }
        row = row + 1;
    }
    proof {
        assert((height as int) * width == width * height) by (nonlinear_arith);
        assert(3 * (width * height) == 3 * width * height) by (nonlinear_arith);
    }
    *data = out;
    assert(data@ =~= mirrored(old(data)@, width as int));
}

} // verus!
