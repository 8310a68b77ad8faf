//! Dense, row-major image buffers.

use vstd::prelude::*;

verus! {

/// A single-channel image: `height * width` samples, row-major, so sample
/// `(y, x)` lives at `y * width + x`.
pub struct Image2<T> {
    /// The samples, row by row.
    pub data: Vec<T>,
    /// Number of rows.
    pub height: usize,
    /// Number of columns.
    pub width: usize,
}

impl<T> Image2<T> {
    /// The buffer holds exactly one sample per pixel.
    pub open spec fn wf(self) -> bool {
        self.data@.len() == self.height * self.width
    }

    /// Flat position of pixel `(y, x)`.
    pub open spec fn pos(self, y: int, x: int) -> int {
        y * self.width + x
    }
}

/// A three-channel image: `height * width * 3` samples, channel-last and
/// row-major, so sample `(y, x, c)` lives at `(y * width + x) * 3 + c`.
pub struct Image3<T> {
    /// The samples, row by row, three per pixel.
    pub data: Vec<T>,
    /// Number of rows.
    pub height: usize,
    /// Number of columns.
    pub width: usize,
}

impl<T> Image3<T> {
    /// The buffer holds exactly three samples per pixel.
    pub open spec fn wf(self) -> bool {
        self.data@.len() == self.height * self.width * 3
    }

    /// Flat position of sample `(y, x, c)`.
    pub open spec fn pos(self, y: int, x: int, c: int) -> int {
        (y * self.width + x) * 3 + c
    }
}

/// Row-major coordinates of flat position `n` in a `w`-column,
/// single-sample layout: `(n / w, n % w)`.
pub open spec fn coord2(n: int, w: int) -> (int, int) {
    (n / w, n % w)
}

/// Row-major, channel-last coordinates of flat position `n` in a
/// `w`-column, `c`-channel layout: `(n / (w * c), (n / c) % w, n % c)`.
pub open spec fn coord3(n: int, w: int, c: int) -> (int, int, int) {
    (n / (w * c), (n / c) % w, n % c)
}

/// Flattening then splitting a 2D coordinate gives it back.
pub proof fn lemma_flat2(y: int, x: int, w: int)
    requires
        0 <= y,
        0 <= x < w,
    ensures
        coord2(y * w + x, w) == (y, x),
{
    vstd::arithmetic::div_mod::lemma_fundamental_div_mod_converse(y * w + x, w, y, x);
}

/// Flattening then splitting a 3D channel-last coordinate gives it back.
pub proof fn lemma_flat3(y: int, x: int, ch: int, w: int, c: int)
    requires
        0 <= y,
        0 <= x < w,
        0 <= ch < c,
    ensures
        coord3((y * w + x) * c + ch, w, c) == (y, x, ch),
{
    let n = (y * w + x) * c + ch;
    vstd::arithmetic::div_mod::lemma_fundamental_div_mod_converse(n, c, y * w + x, ch);
    vstd::arithmetic::div_mod::lemma_fundamental_div_mod_converse(y * w + x, w, y, x);
    assert(n == y * (w * c) + (x * c + ch) && 0 <= x * c + ch && x * c + ch < w * c)
        by (nonlinear_arith)
        requires
            0 <= y,
            0 <= x < w,
            0 <= ch < c,
            n == (y * w + x) * c + ch,
    ;
    vstd::arithmetic::div_mod::lemma_fundamental_div_mod_converse(n, w * c, y, x * c + ch);
}

/// A fresh buffer with the same samples in the same order.
pub fn copy_samples<T: Copy>(v: &Vec<T>) -> (r: Vec<T>)
    ensures
        r@ == v@,
{
    let mut r: Vec<T> = Vec::new();
    let mut i: usize = 0;
    while i < v.len()
        invariant
            i <= v@.len(),
            r@ == v@.subrange(0, i as int),
        decreases v@.len() - i,
    {
        r.push(v[i]);
        i = i + 1;
    }
    proof {
        assert(r@ =~= v@);
    }
    r
}

} // verus!
