//! Content-adaptive downscaling.
//!
//! For each output pixel, a first pass computes a 3x3-smoothed local mean
//! of coverage-weighted patch averages (neighbor coordinates clamped at the
//! edges, never reflected), and a second pass re-weights every source
//! sample of the pixel's own patch by its deviation from that mean raised
//! to the exponent `lambda`. With `lambda` zero the weight is the coverage
//! alone, a plain area-weighted box filter. A weight sum that is not
//! positive falls back to the local mean. Every pixel is pinned to a
//! specification counterpart written over the scalar's abstract
//! operations, so the contracts state the computed values exactly.

use vstd::prelude::*;

verus! {

use crate::geometry::clamp_neighbor;
use crate::geometry::clamp_neighbor_spec;
use crate::geometry::patch_hi_spec;
use crate::geometry::patch_lo_spec;
use crate::geometry::patch_range;
use crate::image::coord2;
use crate::image::coord3;
use crate::image::lemma_flat2;
use crate::image::lemma_flat3;
use crate::image::Image2;
use crate::image::Image3;
use crate::sample::Sample;

/// The fixed smoothing stencil `{1,2,1; 2,4,2; 1,2,1}`, as the product of
/// two triangular factors.
pub open spec fn stencil_spec(ky: int, kx: int) -> int {
    (if ky == 1 {
        2int
    } else {
        1int
    }) * (if kx == 1 {
        2int
    } else {
        1int
    })
}

/// Weight of the 3x3 smoothing stencil at offset `(ky, kx)`.
fn stencil_weight(ky: usize, kx: usize) -> (r: usize)
    requires
        ky < 3,
        kx < 3,
    ensures
        r == stencil_spec(ky as int, kx as int),
{
    let a: usize = if ky == 1 {
        2
    } else {
        1
    };
    let b: usize = if kx == 1 {
        2
    } else {
        1
    };
    a * b
}

/// Values of the two clamped 1D overlap factors of a patch spanning
/// `[s, e)` against the unit cell `[cell, cell + 1)`.
pub open spec fn axis_factors_spec<T: Sample>(s: T, e: T, cell: int) -> (T, T) {
    (
        T::spec_one().spec_minus(
            s.spec_minus(T::spec_from_count(cell as usize)).spec_maxv(T::spec_zero()),
        ).spec_minv(T::spec_one()),
        T::spec_one().spec_minus(
            T::spec_from_count((cell + 1) as usize).spec_minus(e).spec_maxv(T::spec_zero()),
        ).spec_minv(T::spec_one()),
    )
}

/// The coverage weight of source cell `(ix, iy)` under the patch
/// `[sx, ex) x [sy, ey)`: the product of the four clamped overlap factors.
pub open spec fn cov_spec<T: Sample>(sx: T, ex: T, sy: T, ey: T, ix: int, iy: int) -> T {
    let fx = axis_factors_spec(sx, ex, ix);
    let fy = axis_factors_spec(sy, ey, iy);
    fx.0.spec_times(fx.1).spec_times(fy.0).spec_times(fy.1)
}

/// The two clamped 1D overlap factors of a patch spanning `[s, e)` against
/// the unit cell `[cell, cell + 1)`.
fn axis_factors<T: Sample>(s: T, e: T, cell: usize) -> (r: (T, T))
    requires
        cell < usize::MAX,
    ensures
        r == axis_factors_spec(s, e, cell as int),
{
    let f1 = T::one().minus(s.minus(T::from_count(cell)).maxv(T::zero())).minv(T::one());
    let f2 = T::one().minus(T::from_count(cell + 1).minus(e).maxv(T::zero())).minv(T::one());
    (f1, f2)
}

/// One cell of the averaging pass over a single-channel patch: adds the
/// coverage-weighted sample and the coverage to the accumulator pair.
pub open spec fn avg_cell_gray<T: Sample>(
    data: Seq<T>,
    i_h: int,
    i_w: int,
    sx: T,
    ex: T,
    sy: T,
    ey: T,
    iy: int,
    ix: int,
    acc: (T, T),
) -> (T, T) {
    let cov = cov_spec(sx, ex, sy, ey, ix, iy);
    let v = data[iy * i_w + ix];
    (acc.0.spec_plus(v.spec_times(cov)), acc.1.spec_plus(cov))
}

/// The averaging pass over the first `n` cells of row `iy`, starting at
/// column `sxr`.
pub open spec fn avg_row_gray<T: Sample>(
    data: Seq<T>,
    i_h: int,
    i_w: int,
    sx: T,
    ex: T,
    sy: T,
    ey: T,
    iy: int,
    sxr: int,
    acc: (T, T),
    n: nat,
) -> (T, T)
    decreases n,
{
    if n == 0 {
        acc
    } else {
        avg_cell_gray(
            data, i_h, i_w,
            sx,
            ex,
            sy,
            ey,
            iy,
            sxr + n - 1,
            avg_row_gray(data, i_h, i_w, sx, ex, sy, ey, iy, sxr, acc, (n - 1) as nat),
        )
    }
}

/// The averaging pass over the first `m` rows of the patch, each row
/// `cols` cells wide.
pub open spec fn avg_rows_gray<T: Sample>(
    data: Seq<T>,
    i_h: int,
    i_w: int,
    sx: T,
    ex: T,
    sy: T,
    ey: T,
    syr: int,
    sxr: int,
    cols: nat,
    m: nat,
) -> (T, T)
    decreases m,
{
    if m == 0 {
        (T::spec_zero(), T::spec_zero())
    } else {
        avg_row_gray(
            data, i_h, i_w,
            sx,
            ex,
            sy,
            ey,
            syr + m - 1,
            sxr,
            avg_rows_gray(data, i_h, i_w, sx, ex, sy, ey, syr, sxr, cols, (m - 1) as nat),
            cols,
        )
    }
}

/// The patch corners of output pixel `(p)` on one axis in scalar space:
/// start `p * patch_extent`.
pub open spec fn patch_start_spec<T: Sample>(p: int, extent: T) -> T {
    T::spec_from_count(p as usize).spec_times(extent)
}

/// Value of the coverage-weighted average of the single-channel patch of
/// output pixel `(ny, nx)`, with the division floored by the scalar's
/// guard.
pub open spec fn patch_avg_gray_spec<T: Sample>(
    data: Seq<T>,
    i_h: int,
    i_w: int,
    ny: int,
    nx: int,
    o_h: int,
    o_w: int,
    p_w: T,
    p_h: T,
) -> T {
    let sx = patch_start_spec(nx, p_w);
    let ex = sx.spec_plus(p_w);
    let sy = patch_start_spec(ny, p_h);
    let ey = sy.spec_plus(p_h);
    let sxr = patch_lo_spec(nx, i_w, o_w);
    let exr = patch_hi_spec(nx, i_w, o_w);
    let syr = patch_lo_spec(ny, i_h, o_h);
    let eyr = patch_hi_spec(ny, i_h, o_h);
    let f = avg_rows_gray(data, i_h, i_w, sx, ex, sy, ey, syr, sxr, (exr - sxr) as nat, (eyr - syr) as nat);
    f.0.spec_times(T::spec_one().spec_over(f.1.spec_maxv(T::spec_tiny())))
}

/// Coverage-weighted average of the single-channel patch of output pixel
/// `(ny, nx)`.
#[verifier::loop_isolation(false)]
fn patch_avg_gray<T: Sample>(
    x: &Image2<T>,
    ny: usize,
    nx: usize,
    o_h: usize,
    o_w: usize,
    p_w: T,
    p_h: T,
) -> (r: T)
    requires
        x.wf(),
        1 <= x.height,
        1 <= x.width,
        1 <= o_h,
        1 <= o_w,
        ny < o_h,
        nx < o_w,
        x.height * o_h <= usize::MAX,
        x.width * o_w <= usize::MAX,
        x.height * x.width <= usize::MAX,
    ensures
        r == patch_avg_gray_spec(x.data@, x.height as int, x.width as int, ny as int, nx as int, o_h as int, o_w as int, p_w, p_h),
{
    let sx = T::from_count(nx).times(p_w);
    let ex = sx.plus(p_w);
    let sy = T::from_count(ny).times(p_h);
    let ey = sy.plus(p_h);
    let (sxr, exr) = patch_range(nx, x.width, o_w);
    let (syr, eyr) = patch_range(ny, x.height, o_h);
    let mut a0 = T::zero();
    let mut aw = T::zero();
    let mut iy: usize = syr;
    while iy < eyr
        invariant
            syr <= iy <= eyr,
            (a0, aw) == avg_rows_gray(
                x.data@, x.height as int, x.width as int,
                sx,
                ex,
                sy,
                ey,
                syr as int,
                sxr as int,
                (exr - sxr) as nat,
                (iy - syr) as nat,
            ),
        decreases eyr - iy,
    {
        let mut ix: usize = sxr;
        while ix < exr
            invariant
                sxr <= ix <= exr,
                (a0, aw) == avg_row_gray(
                    x.data@, x.height as int, x.width as int,
                    sx,
                    ex,
                    sy,
                    ey,
                    iy as int,
                    sxr as int,
                    avg_rows_gray(
                        x.data@, x.height as int, x.width as int,
                        sx,
                        ex,
                        sy,
                        ey,
                        syr as int,
                        sxr as int,
                        (exr - sxr) as nat,
                        (iy - syr) as nat,
                    ),
                    (ix - sxr) as nat,
                ),
            decreases exr - ix,
        {
            let (fx1, fx2) = axis_factors(sx, ex, ix);
            let (fy1, fy2) = axis_factors(sy, ey, iy);
            let cov = fx1.times(fx2).times(fy1).times(fy2);
            proof {
                assert(iy * x.width + ix < x.height * x.width) by (nonlinear_arith)
                    requires
                        iy < x.height,
                        ix < x.width,
                ;
            }
            let v = x.data[iy * x.width + ix];
            a0 = a0.plus(v.times(cov));
            aw = aw.plus(cov);
            ix = ix + 1;
        }
        iy = iy + 1;
    }
    a0.times(T::one().over(aw.maxv(T::tiny())))
}

/// One cell of the detail pass over a single-channel patch: the weight is
/// the coverage, times the deviation magnitude raised to `lambda` unless
/// `lambda` equals zero.
pub open spec fn detail_cell_gray<T: Sample>(
    data: Seq<T>,
    i_h: int,
    i_w: int,
    sx: T,
    ex: T,
    sy: T,
    ey: T,
    m0: T,
    lambda: T,
    iy: int,
    ix: int,
    acc: (T, T),
) -> (T, T) {
    let cov = cov_spec(sx, ex, sy, ey, ix, iy);
    let v = data[iy * i_w + ix];
    let d0 = m0.spec_minus(v);
    let f = if lambda.spec_eqv(T::spec_zero()) {
        cov
    } else {
        d0.spec_absv().spec_powv(lambda).spec_times(cov)
    };
    (acc.0.spec_plus(v.spec_times(f)), acc.1.spec_plus(f))
}

/// The detail pass over the first `n` cells of row `iy`.
pub open spec fn detail_row_gray<T: Sample>(
    data: Seq<T>,
    i_h: int,
    i_w: int,
    sx: T,
    ex: T,
    sy: T,
    ey: T,
    m0: T,
    lambda: T,
    iy: int,
    sxr: int,
    acc: (T, T),
    n: nat,
) -> (T, T)
    decreases n,
{
    if n == 0 {
        acc
    } else {
        detail_cell_gray(
            data, i_h, i_w,
            sx,
            ex,
            sy,
            ey,
            m0,
            lambda,
            iy,
            sxr + n - 1,
            detail_row_gray(data, i_h, i_w, sx, ex, sy, ey, m0, lambda, iy, sxr, acc, (n - 1) as nat),
        )
    }
}

/// The detail pass over the first `m` rows of the patch.
pub open spec fn detail_rows_gray<T: Sample>(
    data: Seq<T>,
    i_h: int,
    i_w: int,
    sx: T,
    ex: T,
    sy: T,
    ey: T,
    m0: T,
    lambda: T,
    syr: int,
    sxr: int,
    cols: nat,
    m: nat,
) -> (T, T)
    decreases m,
{
    if m == 0 {
        (T::spec_zero(), T::spec_zero())
    } else {
        detail_row_gray(
            data, i_h, i_w,
            sx,
            ex,
            sy,
            ey,
            m0,
            lambda,
            syr + m - 1,
            sxr,
            detail_rows_gray(data, i_h, i_w, sx, ex, sy, ey, m0, lambda, syr, sxr, cols, (m - 1) as nat),
            cols,
        )
    }
}

/// Value of the detail-weighted single-channel pixel `(py, px)`: the
/// weighted sample ratio, or the local mean `m0` when the weight sum is
/// not positive.
pub open spec fn patch_detail_gray_spec<T: Sample>(
    data: Seq<T>,
    i_h: int,
    i_w: int,
    py: int,
    px: int,
    o_h: int,
    o_w: int,
    p_w: T,
    p_h: T,
    m0: T,
    lambda: T,
) -> T {
    let sx = patch_start_spec(px, p_w);
    let ex = sx.spec_plus(p_w);
    let sy = patch_start_spec(py, p_h);
    let ey = sy.spec_plus(p_h);
    let sxr = patch_lo_spec(px, i_w, o_w);
    let exr = patch_hi_spec(px, i_w, o_w);
    let syr = patch_lo_spec(py, i_h, o_h);
    let eyr = patch_hi_spec(py, i_h, o_h);
    let f = detail_rows_gray(
        data, i_h, i_w,
        sx,
        ex,
        sy,
        ey,
        m0,
        lambda,
        syr,
        sxr,
        (exr - sxr) as nat,
        (eyr - syr) as nat,
    );
    if T::spec_zero().spec_ltv(f.1) {
        f.0.spec_over(f.1)
    } else {
        m0
    }
}

/// Detail-weighted value of output pixel `(py, px)` over its own
/// single-channel patch.
#[verifier::loop_isolation(false)]
fn patch_detail_gray<T: Sample>(
    x: &Image2<T>,
    py: usize,
    px: usize,
    o_h: usize,
    o_w: usize,
    p_w: T,
    p_h: T,
    m0: T,
    lambda: T,
) -> (r: T)
    requires
        x.wf(),
        1 <= x.height,
        1 <= x.width,
        1 <= o_h,
        1 <= o_w,
        py < o_h,
        px < o_w,
        x.height * o_h <= usize::MAX,
        x.width * o_w <= usize::MAX,
        x.height * x.width <= usize::MAX,
    ensures
        r == patch_detail_gray_spec(
            x.data@, x.height as int, x.width as int,
            py as int,
            px as int,
            o_h as int,
            o_w as int,
            p_w,
            p_h,
            m0,
            lambda,
        ),
{
    let sx = T::from_count(px).times(p_w);
    let ex = sx.plus(p_w);
    let sy = T::from_count(py).times(p_h);
    let ey = sy.plus(p_h);
    let (sxr, exr) = patch_range(px, x.width, o_w);
    let (syr, eyr) = patch_range(py, x.height, o_h);
    let mut o0 = T::zero();
    let mut ow = T::zero();
    let mut iy: usize = syr;
    while iy < eyr
        invariant
            syr <= iy <= eyr,
            (o0, ow) == detail_rows_gray(
                x.data@, x.height as int, x.width as int,
                sx,
                ex,
                sy,
                ey,
                m0,
                lambda,
                syr as int,
                sxr as int,
                (exr - sxr) as nat,
                (iy - syr) as nat,
            ),
        decreases eyr - iy,
    {
        let mut ix: usize = sxr;
        while ix < exr
            invariant
                sxr <= ix <= exr,
                (o0, ow) == detail_row_gray(
                    x.data@, x.height as int, x.width as int,
                    sx,
                    ex,
                    sy,
                    ey,
                    m0,
                    lambda,
                    iy as int,
                    sxr as int,
                    detail_rows_gray(
                        x.data@, x.height as int, x.width as int,
                        sx,
                        ex,
                        sy,
                        ey,
                        m0,
                        lambda,
                        syr as int,
                        sxr as int,
                        (exr - sxr) as nat,
                        (iy - syr) as nat,
                    ),
                    (ix - sxr) as nat,
                ),
            decreases exr - ix,
        {
            let (fx1, fx2) = axis_factors(sx, ex, ix);
            let (fy1, fy2) = axis_factors(sy, ey, iy);
            let cov = fx1.times(fx2).times(fy1).times(fy2);
            proof {
                assert(iy * x.width + ix < x.height * x.width) by (nonlinear_arith)
                    requires
                        iy < x.height,
                        ix < x.width,
                ;
            }
            let v = x.data[iy * x.width + ix];
            let d0 = m0.minus(v);
            let f = if lambda.eqv(T::zero()) {
                cov
            } else {
                d0.absv().powv(lambda).times(cov)
            };
            o0 = o0.plus(v.times(f));
            ow = ow.plus(f);
            ix = ix + 1;
        }
        iy = iy + 1;
    }
    if T::zero().ltv(ow) {
        o0.over(ow)
    } else {
        m0
    }
}

/// The smoothing pass over the first `n` of the nine stencil neighbors of
/// pixel `(py, px)`, in row-major stencil order: accumulates the
/// stencil-weighted patch averages and the stencil weights.
pub open spec fn smooth_gray<T: Sample>(
    data: Seq<T>,
    i_h: int,
    i_w: int,
    py: int,
    px: int,
    o_h: int,
    o_w: int,
    p_w: T,
    p_h: T,
    n: nat,
) -> (T, T)
    decreases n,
{
    if n == 0 {
        (T::spec_zero(), T::spec_zero())
    } else {
        let prev = smooth_gray(data, i_h, i_w, py, px, o_h, o_w, p_w, p_h, (n - 1) as nat);
        let ky = (n - 1) as int / 3;
        let kx = (n - 1) as int % 3;
        let ny = clamp_neighbor_spec(py, ky, o_h);
        let nx = clamp_neighbor_spec(px, kx, o_w);
        let w_k = T::spec_from_count(stencil_spec(ky, kx) as usize);
        let avg = patch_avg_gray_spec(data, i_h, i_w, ny, nx, o_h, o_w, p_w, p_h);
        (prev.0.spec_plus(avg.spec_times(w_k)), prev.1.spec_plus(w_k))
    }
}

/// The patch extent of one axis: input length over output length.
pub open spec fn patch_extent_spec<T: Sample>(in_len: int, out_len: int) -> T {
    T::spec_from_count(in_len as usize).spec_over(T::spec_from_count(out_len as usize))
}

/// Value of output pixel `(py, px)` of the single-channel content-adaptive
/// resampler: the detail-weighted patch value around the 3x3-smoothed
/// local mean.
pub open spec fn dpid_pixel_gray_spec<T: Sample>(
    data: Seq<T>,
    i_h: int,
    i_w: int,
    o_h: int,
    o_w: int,
    lambda: T,
    py: int,
    px: int,
) -> T {
    let p_w = patch_extent_spec::<T>(i_w, o_w);
    let p_h = patch_extent_spec::<T>(i_h, o_h);
    let sm = smooth_gray(data, i_h, i_w, py, px, o_h, o_w, p_w, p_h, 9);
    let m0 = sm.0.spec_times(T::spec_one().spec_over(sm.1.spec_maxv(T::spec_tiny())));
    patch_detail_gray_spec(data, i_h, i_w, py, px, o_h, o_w, p_w, p_h, m0, lambda)
}

/// The whole single-channel content-adaptive result as a sequence, pixel
/// `(py, px)` at flat position `py * o_w + px`.
pub open spec fn dpid_gray_spec<T: Sample>(data: Seq<T>, i_h: int, i_w: int, o_h: int, o_w: int, lambda: T) -> Seq<
    T,
> {
    Seq::new(
        (o_h * o_w) as nat,
        |k: int| dpid_pixel_gray_spec(data, i_h, i_w, o_h, o_w, lambda, coord2(k, o_w).0, coord2(k, o_w).1),
    )
}

/// Content-adaptive downscaling of a single-channel image to `o_h` rows by
/// `o_w` columns. The result has exactly the requested shape and holds
/// exactly the detail-weighted pixel values `dpid_gray_spec`.
#[verifier::loop_isolation(false)]
pub fn dpid_resample_gray<T: Sample>(x: &Image2<T>, o_h: usize, o_w: usize, lambda: T) -> (r:
    Image2<T>)
    requires
        x.wf(),
        1 <= x.height,
        1 <= x.width,
        1 <= o_h,
        1 <= o_w,
        x.height * o_h <= usize::MAX,
        x.width * o_w <= usize::MAX,
        x.height * x.width <= usize::MAX,
        o_h <= usize::MAX - 2,
        o_w <= usize::MAX - 2,
    ensures
        r.wf(),
        r.height == o_h,
        r.width == o_w,
        r.data@.len() == o_h * o_w,
        r.data@ == dpid_gray_spec(x.data@, x.height as int, x.width as int, o_h as int, o_w as int, lambda),
{
    let ghost goal = dpid_gray_spec(x.data@, x.height as int, x.width as int, o_h as int, o_w as int, lambda);
    let p_w = T::from_count(x.width).over(T::from_count(o_w));
    let p_h = T::from_count(x.height).over(T::from_count(o_h));
    let mut data: Vec<T> = Vec::new();
    let mut py: usize = 0;
    while py < o_h
        invariant
            py <= o_h,
            data@.len() == py * o_w,
            forall|k: int| 0 <= k < data@.len() ==> #[trigger] data@[k] == goal[k],
        decreases o_h - py,
    {
        let mut px: usize = 0;
        while px < o_w
            invariant
                px <= o_w,
                data@.len() == py * o_w + px,
                forall|k: int| 0 <= k < data@.len() ==> #[trigger] data@[k] == goal[k],
            decreases o_w - px,
        {
            let mut s0 = T::zero();
            let mut sw = T::zero();
            let mut ky: usize = 0;
            while ky < 3
                invariant
                    ky <= 3,
                    data@.len() == py * o_w + px,
                    (s0, sw) == smooth_gray(
                        x.data@, x.height as int, x.width as int,
                        py as int,
                        px as int,
                        o_h as int,
                        o_w as int,
                        p_w,
                        p_h,
                        (3 * ky) as nat,
                    ),
                decreases 3 - ky,
            {
                let ny = clamp_neighbor(py, ky, o_h);
                let mut kx: usize = 0;
                while kx < 3
                    invariant
                        kx <= 3,
                        ny < o_h,
                        data@.len() == py * o_w + px,
                        (s0, sw) == smooth_gray(
                            x.data@, x.height as int, x.width as int,
                            py as int,
                            px as int,
                            o_h as int,
                            o_w as int,
                            p_w,
                            p_h,
                            (3 * ky + kx) as nat,
                        ),
                    decreases 3 - kx,
                {
                    let nx = clamp_neighbor(px, kx, o_w);
                    let w_k = T::from_count(stencil_weight(ky, kx));
                    let avg = patch_avg_gray(x, ny, nx, o_h, o_w, p_w, p_h);
                    s0 = s0.plus(avg.times(w_k));
                    sw = sw.plus(w_k);
                    proof {
                        lemma_flat2(ky as int, kx as int, 3);
                    }
                    kx = kx + 1;
                }
                ky = ky + 1;
            }
            let m0 = s0.times(T::one().over(sw.maxv(T::tiny())));
            let v = patch_detail_gray(x, py, px, o_h, o_w, p_w, p_h, m0, lambda);
            proof {
                assert(py * o_w + px < o_h * o_w) by (nonlinear_arith)
                    requires
                        py < o_h,
                        px < o_w,
                ;
                lemma_flat2(py as int, px as int, o_w as int);
            }
            data.push(v);
            proof {
                assert(data@[(py * o_w + px) as int] == goal[(py * o_w + px) as int]);
            }
            px = px + 1;
        }
        proof {
            assert((py + 1) * o_w == py * o_w + o_w) by (nonlinear_arith);
        }
        py = py + 1;
    }
    proof {
        assert(data@ =~= goal);
    }
    Image2 { data, height: o_h, width: o_w }
}

/// Selects one channel of a pixel triple.
pub open spec fn channel_of<T>(t: (T, T, T), c: int) -> T {
    if c == 0 {
        t.0
    } else if c == 1 {
        t.1
    } else {
        t.2
    }
}

/// One cell of the averaging pass over a three-channel patch.
pub open spec fn avg_cell_rgb<T: Sample>(
    data: Seq<T>,
    i_h: int,
    i_w: int,
    sx: T,
    ex: T,
    sy: T,
    ey: T,
    iy: int,
    ix: int,
    acc: (T, T, T, T),
) -> (T, T, T, T) {
    let cov = cov_spec(sx, ex, sy, ey, ix, iy);
    let base = (iy * i_w + ix) * 3;
    let v0 = data[base];
    let v1 = data[base + 1];
    let v2 = data[base + 2];
    (
        acc.0.spec_plus(v0.spec_times(cov)),
        acc.1.spec_plus(v1.spec_times(cov)),
        acc.2.spec_plus(v2.spec_times(cov)),
        acc.3.spec_plus(cov),
    )
}

/// The averaging pass over the first `n` cells of row `iy`.
pub open spec fn avg_row_rgb<T: Sample>(
    data: Seq<T>,
    i_h: int,
    i_w: int,
    sx: T,
    ex: T,
    sy: T,
    ey: T,
    iy: int,
    sxr: int,
    acc: (T, T, T, T),
    n: nat,
) -> (T, T, T, T)
    decreases n,
{
    if n == 0 {
        acc
    } else {
        avg_cell_rgb(
            data, i_h, i_w,
            sx,
            ex,
            sy,
            ey,
            iy,
            sxr + n - 1,
            avg_row_rgb(data, i_h, i_w, sx, ex, sy, ey, iy, sxr, acc, (n - 1) as nat),
        )
    }
}

/// The averaging pass over the first `m` rows of the patch.
pub open spec fn avg_rows_rgb<T: Sample>(
    data: Seq<T>,
    i_h: int,
    i_w: int,
    sx: T,
    ex: T,
    sy: T,
    ey: T,
    syr: int,
    sxr: int,
    cols: nat,
    m: nat,
) -> (T, T, T, T)
    decreases m,
{
    if m == 0 {
        (T::spec_zero(), T::spec_zero(), T::spec_zero(), T::spec_zero())
    } else {
        avg_row_rgb(
            data, i_h, i_w,
            sx,
            ex,
            sy,
            ey,
            syr + m - 1,
            sxr,
            avg_rows_rgb(data, i_h, i_w, sx, ex, sy, ey, syr, sxr, cols, (m - 1) as nat),
            cols,
        )
    }
}

/// Values of the coverage-weighted per-channel averages of the
/// three-channel patch of output pixel `(ny, nx)`.
pub open spec fn patch_avg_rgb_spec<T: Sample>(
    data: Seq<T>,
    i_h: int,
    i_w: int,
    ny: int,
    nx: int,
    o_h: int,
    o_w: int,
    p_w: T,
    p_h: T,
) -> (T, T, T) {
    let sx = patch_start_spec(nx, p_w);
    let ex = sx.spec_plus(p_w);
    let sy = patch_start_spec(ny, p_h);
    let ey = sy.spec_plus(p_h);
    let sxr = patch_lo_spec(nx, i_w, o_w);
    let exr = patch_hi_spec(nx, i_w, o_w);
    let syr = patch_lo_spec(ny, i_h, o_h);
    let eyr = patch_hi_spec(ny, i_h, o_h);
    let f = avg_rows_rgb(data, i_h, i_w, sx, ex, sy, ey, syr, sxr, (exr - sxr) as nat, (eyr - syr) as nat);
    let inv = T::spec_one().spec_over(f.3.spec_maxv(T::spec_tiny()));
    (f.0.spec_times(inv), f.1.spec_times(inv), f.2.spec_times(inv))
}

/// Coverage-weighted per-channel averages of the three-channel patch of
/// output pixel `(ny, nx)`.
#[verifier::loop_isolation(false)]
fn patch_avg_rgb<T: Sample>(
    x: &Image3<T>,
    ny: usize,
    nx: usize,
    o_h: usize,
    o_w: usize,
    p_w: T,
    p_h: T,
) -> (r: (T, T, T))
    requires
        x.wf(),
        1 <= x.height,
        1 <= x.width,
        1 <= o_h,
        1 <= o_w,
        ny < o_h,
        nx < o_w,
        x.height * o_h <= usize::MAX,
        x.width * o_w <= usize::MAX,
        x.height * x.width * 3 <= usize::MAX,
    ensures
        r == patch_avg_rgb_spec(x.data@, x.height as int, x.width as int, ny as int, nx as int, o_h as int, o_w as int, p_w, p_h),
{
    let sx = T::from_count(nx).times(p_w);
    let ex = sx.plus(p_w);
    let sy = T::from_count(ny).times(p_h);
    let ey = sy.plus(p_h);
    let (sxr, exr) = patch_range(nx, x.width, o_w);
    let (syr, eyr) = patch_range(ny, x.height, o_h);
    let mut a0 = T::zero();
    let mut a1 = T::zero();
    let mut a2 = T::zero();
    let mut aw = T::zero();
    let mut iy: usize = syr;
    while iy < eyr
        invariant
            syr <= iy <= eyr,
            (a0, a1, a2, aw) == avg_rows_rgb(
                x.data@, x.height as int, x.width as int,
                sx,
                ex,
                sy,
                ey,
                syr as int,
                sxr as int,
                (exr - sxr) as nat,
                (iy - syr) as nat,
            ),
        decreases eyr - iy,
    {
        let mut ix: usize = sxr;
        while ix < exr
            invariant
                sxr <= ix <= exr,
                (a0, a1, a2, aw) == avg_row_rgb(
                    x.data@, x.height as int, x.width as int,
                    sx,
                    ex,
                    sy,
                    ey,
                    iy as int,
                    sxr as int,
                    avg_rows_rgb(
                        x.data@, x.height as int, x.width as int,
                        sx,
                        ex,
                        sy,
                        ey,
                        syr as int,
                        sxr as int,
                        (exr - sxr) as nat,
                        (iy - syr) as nat,
                    ),
                    (ix - sxr) as nat,
                ),
            decreases exr - ix,
        {
            let (fx1, fx2) = axis_factors(sx, ex, ix);
            let (fy1, fy2) = axis_factors(sy, ey, iy);
            let cov = fx1.times(fx2).times(fy1).times(fy2);
            proof {
                assert(iy * x.width + ix < x.height * x.width && x.height * x.width <= x.height
                    * x.width * 3 && (iy * x.width + ix) * 3 + 2 < x.height * x.width * 3)
                    by (nonlinear_arith)
                    requires
                        iy < x.height,
                        ix < x.width,
                ;
            }
            let base = (iy * x.width + ix) * 3;
            let v0 = x.data[base];
            let v1 = x.data[base + 1];
            let v2 = x.data[base + 2];
            a0 = a0.plus(v0.times(cov));
            a1 = a1.plus(v1.times(cov));
            a2 = a2.plus(v2.times(cov));
            aw = aw.plus(cov);
            ix = ix + 1;
        }
        iy = iy + 1;
    }
    let inv_aw = T::one().over(aw.maxv(T::tiny()));
    (a0.times(inv_aw), a1.times(inv_aw), a2.times(inv_aw))
}

/// One cell of the detail pass over a three-channel patch: the deviation
/// magnitude is the Euclidean norm across the channels.
pub open spec fn detail_cell_rgb<T: Sample>(
    data: Seq<T>,
    i_h: int,
    i_w: int,
    sx: T,
    ex: T,
    sy: T,
    ey: T,
    m: (T, T, T),
    lambda: T,
    iy: int,
    ix: int,
    acc: (T, T, T, T),
) -> (T, T, T, T) {
    let cov = cov_spec(sx, ex, sy, ey, ix, iy);
    let base = (iy * i_w + ix) * 3;
    let v0 = data[base];
    let v1 = data[base + 1];
    let v2 = data[base + 2];
    let d0 = m.0.spec_minus(v0);
    let d1 = m.1.spec_minus(v1);
    let d2 = m.2.spec_minus(v2);
    let f = if lambda.spec_eqv(T::spec_zero()) {
        cov
    } else {
        d0.spec_times(d0).spec_plus(d1.spec_times(d1)).spec_plus(
            d2.spec_times(d2),
        ).spec_sqrtv().spec_powv(lambda).spec_times(cov)
    };
    (
        acc.0.spec_plus(v0.spec_times(f)),
        acc.1.spec_plus(v1.spec_times(f)),
        acc.2.spec_plus(v2.spec_times(f)),
        acc.3.spec_plus(f),
    )
}

/// The detail pass over the first `n` cells of row `iy`.
pub open spec fn detail_row_rgb<T: Sample>(
    data: Seq<T>,
    i_h: int,
    i_w: int,
    sx: T,
    ex: T,
    sy: T,
    ey: T,
    m: (T, T, T),
    lambda: T,
    iy: int,
    sxr: int,
    acc: (T, T, T, T),
    n: nat,
) -> (T, T, T, T)
    decreases n,
{
    if n == 0 {
        acc
    } else {
        detail_cell_rgb(
            data, i_h, i_w,
            sx,
            ex,
            sy,
            ey,
            m,
            lambda,
            iy,
            sxr + n - 1,
            detail_row_rgb(data, i_h, i_w, sx, ex, sy, ey, m, lambda, iy, sxr, acc, (n - 1) as nat),
        )
    }
}

/// The detail pass over the first `m` rows of the patch.
pub open spec fn detail_rows_rgb<T: Sample>(
    data: Seq<T>,
    i_h: int,
    i_w: int,
    sx: T,
    ex: T,
    sy: T,
    ey: T,
    m: (T, T, T),
    lambda: T,
    syr: int,
    sxr: int,
    cols: nat,
    rows: nat,
) -> (T, T, T, T)
    decreases rows,
{
    if rows == 0 {
        (T::spec_zero(), T::spec_zero(), T::spec_zero(), T::spec_zero())
    } else {
        detail_row_rgb(
            data, i_h, i_w,
            sx,
            ex,
            sy,
            ey,
            m,
            lambda,
            syr + rows - 1,
            sxr,
            detail_rows_rgb(data, i_h, i_w, sx, ex, sy, ey, m, lambda, syr, sxr, cols, (rows - 1) as nat),
            cols,
        )
    }
}

/// Values of the detail-weighted three-channel pixel `(py, px)`: the
/// per-channel weighted ratios, or the local means when the weight sum is
/// not positive.
pub open spec fn patch_detail_rgb_spec<T: Sample>(
    data: Seq<T>,
    i_h: int,
    i_w: int,
    py: int,
    px: int,
    o_h: int,
    o_w: int,
    p_w: T,
    p_h: T,
    m: (T, T, T),
    lambda: T,
) -> (T, T, T) {
    let sx = patch_start_spec(px, p_w);
    let ex = sx.spec_plus(p_w);
    let sy = patch_start_spec(py, p_h);
    let ey = sy.spec_plus(p_h);
    let sxr = patch_lo_spec(px, i_w, o_w);
    let exr = patch_hi_spec(px, i_w, o_w);
    let syr = patch_lo_spec(py, i_h, o_h);
    let eyr = patch_hi_spec(py, i_h, o_h);
    let f = detail_rows_rgb(
        data, i_h, i_w,
        sx,
        ex,
        sy,
        ey,
        m,
        lambda,
        syr,
        sxr,
        (exr - sxr) as nat,
        (eyr - syr) as nat,
    );
    if T::spec_zero().spec_ltv(f.3) {
        (f.0.spec_over(f.3), f.1.spec_over(f.3), f.2.spec_over(f.3))
    } else {
        m
    }
}

/// Detail-weighted values of output pixel `(py, px)` over its own
/// three-channel patch.
#[verifier::loop_isolation(false)]
fn patch_detail_rgb<T: Sample>(
    x: &Image3<T>,
    py: usize,
    px: usize,
    o_h: usize,
    o_w: usize,
    p_w: T,
    p_h: T,
    m: (T, T, T),
    lambda: T,
) -> (r: (T, T, T))
    requires
        x.wf(),
        1 <= x.height,
        1 <= x.width,
        1 <= o_h,
        1 <= o_w,
        py < o_h,
        px < o_w,
        x.height * o_h <= usize::MAX,
        x.width * o_w <= usize::MAX,
        x.height * x.width * 3 <= usize::MAX,
    ensures
        r == patch_detail_rgb_spec(
            x.data@, x.height as int, x.width as int,
            py as int,
            px as int,
            o_h as int,
            o_w as int,
            p_w,
            p_h,
            m,
            lambda,
        ),
{
    let sx = T::from_count(px).times(p_w);
    let ex = sx.plus(p_w);
    let sy = T::from_count(py).times(p_h);
    let ey = sy.plus(p_h);
    let (sxr, exr) = patch_range(px, x.width, o_w);
    let (syr, eyr) = patch_range(py, x.height, o_h);
    let mut o0 = T::zero();
    let mut o1 = T::zero();
    let mut o2 = T::zero();
    let mut ow = T::zero();
    let mut iy: usize = syr;
    while iy < eyr
        invariant
            syr <= iy <= eyr,
            (o0, o1, o2, ow) == detail_rows_rgb(
                x.data@, x.height as int, x.width as int,
                sx,
                ex,
                sy,
                ey,
                m,
                lambda,
                syr as int,
                sxr as int,
                (exr - sxr) as nat,
                (iy - syr) as nat,
            ),
        decreases eyr - iy,
    {
        let mut ix: usize = sxr;
        while ix < exr
            invariant
                sxr <= ix <= exr,
                (o0, o1, o2, ow) == detail_row_rgb(
                    x.data@, x.height as int, x.width as int,
                    sx,
                    ex,
                    sy,
                    ey,
                    m,
                    lambda,
                    iy as int,
                    sxr as int,
                    detail_rows_rgb(
                        x.data@, x.height as int, x.width as int,
                        sx,
                        ex,
                        sy,
                        ey,
                        m,
                        lambda,
                        syr as int,
                        sxr as int,
                        (exr - sxr) as nat,
                        (iy - syr) as nat,
                    ),
                    (ix - sxr) as nat,
                ),
            decreases exr - ix,
        {
            let (fx1, fx2) = axis_factors(sx, ex, ix);
            let (fy1, fy2) = axis_factors(sy, ey, iy);
            let cov = fx1.times(fx2).times(fy1).times(fy2);
            proof {
                assert(iy * x.width + ix < x.height * x.width && x.height * x.width <= x.height
                    * x.width * 3 && (iy * x.width + ix) * 3 + 2 < x.height * x.width * 3)
                    by (nonlinear_arith)
                    requires
                        iy < x.height,
                        ix < x.width,
                ;
            }
            let base = (iy * x.width + ix) * 3;
            let v0 = x.data[base];
            let v1 = x.data[base + 1];
            let v2 = x.data[base + 2];
            let d0 = m.0.minus(v0);
            let d1 = m.1.minus(v1);
            let d2 = m.2.minus(v2);
            let f = if lambda.eqv(T::zero()) {
                cov
            } else {
                d0.times(d0).plus(d1.times(d1)).plus(d2.times(d2)).sqrtv().powv(lambda).times(cov)
            };
            o0 = o0.plus(v0.times(f));
            o1 = o1.plus(v1.times(f));
            o2 = o2.plus(v2.times(f));
            ow = ow.plus(f);
            ix = ix + 1;
        }
        iy = iy + 1;
    }
    if T::zero().ltv(ow) {
        (o0.over(ow), o1.over(ow), o2.over(ow))
    } else {
        m
    }
}

/// The smoothing pass over the first `n` of the nine stencil neighbors of
/// pixel `(py, px)` of a three-channel image.
pub open spec fn smooth_rgb<T: Sample>(
    data: Seq<T>,
    i_h: int,
    i_w: int,
    py: int,
    px: int,
    o_h: int,
    o_w: int,
    p_w: T,
    p_h: T,
    n: nat,
) -> (T, T, T, T)
    decreases n,
{
    if n == 0 {
        (T::spec_zero(), T::spec_zero(), T::spec_zero(), T::spec_zero())
    } else {
        let prev = smooth_rgb(data, i_h, i_w, py, px, o_h, o_w, p_w, p_h, (n - 1) as nat);
        let ky = (n - 1) as int / 3;
        let kx = (n - 1) as int % 3;
        let ny = clamp_neighbor_spec(py, ky, o_h);
        let nx = clamp_neighbor_spec(px, kx, o_w);
        let w_k = T::spec_from_count(stencil_spec(ky, kx) as usize);
        let avg = patch_avg_rgb_spec(data, i_h, i_w, ny, nx, o_h, o_w, p_w, p_h);
        (
            prev.0.spec_plus(avg.0.spec_times(w_k)),
            prev.1.spec_plus(avg.1.spec_times(w_k)),
            prev.2.spec_plus(avg.2.spec_times(w_k)),
            prev.3.spec_plus(w_k),
        )
    }
}

/// Values of output pixel `(py, px)` of the three-channel content-adaptive
/// resampler.
pub open spec fn dpid_pixel_rgb_spec<T: Sample>(
    data: Seq<T>,
    i_h: int,
    i_w: int,
    o_h: int,
    o_w: int,
    lambda: T,
    py: int,
    px: int,
) -> (T, T, T) {
    let p_w = patch_extent_spec::<T>(i_w, o_w);
    let p_h = patch_extent_spec::<T>(i_h, o_h);
    let sm = smooth_rgb(data, i_h, i_w, py, px, o_h, o_w, p_w, p_h, 9);
    let inv_sw = T::spec_one().spec_over(sm.3.spec_maxv(T::spec_tiny()));
    let m = (sm.0.spec_times(inv_sw), sm.1.spec_times(inv_sw), sm.2.spec_times(inv_sw));
    patch_detail_rgb_spec(data, i_h, i_w, py, px, o_h, o_w, p_w, p_h, m, lambda)
}

/// The whole three-channel content-adaptive result as a sequence, channel
/// `c` of pixel `(py, px)` at flat position `(py * o_w + px) * 3 + c`.
pub open spec fn dpid_rgb_spec<T: Sample>(data: Seq<T>, i_h: int, i_w: int, o_h: int, o_w: int, lambda: T) -> Seq<
    T,
> {
    Seq::new(
        (o_h * o_w * 3) as nat,
        |k: int|
            channel_of(
                dpid_pixel_rgb_spec(
                    data, i_h, i_w,
                    o_h,
                    o_w,
                    lambda,
                    coord3(k, o_w, 3).0,
                    coord3(k, o_w, 3).1,
                ),
                coord3(k, o_w, 3).2,
            ),
    )
}

/// Content-adaptive downscaling of a three-channel image to `o_h` rows by
/// `o_w` columns. The result has exactly the requested shape, keeps the
/// channel count, and holds exactly the detail-weighted pixel values
/// `dpid_rgb_spec`.
#[verifier::loop_isolation(false)]
pub fn dpid_resample_rgb<T: Sample>(x: &Image3<T>, o_h: usize, o_w: usize, lambda: T) -> (r:
    Image3<T>)
    requires
        x.wf(),
        1 <= x.height,
        1 <= x.width,
        1 <= o_h,
        1 <= o_w,
        x.height * o_h <= usize::MAX,
        x.width * o_w <= usize::MAX,
        x.height * x.width * 3 <= usize::MAX,
        o_h <= usize::MAX - 2,
        o_w <= usize::MAX - 2,
    ensures
        r.wf(),
        r.height == o_h,
        r.width == o_w,
        r.data@.len() == o_h * o_w * 3,
        r.data@ == dpid_rgb_spec(x.data@, x.height as int, x.width as int, o_h as int, o_w as int, lambda),
{
    let ghost goal = dpid_rgb_spec(x.data@, x.height as int, x.width as int, o_h as int, o_w as int, lambda);
    let p_w = T::from_count(x.width).over(T::from_count(o_w));
    let p_h = T::from_count(x.height).over(T::from_count(o_h));
    let mut data: Vec<T> = Vec::new();
    let mut py: usize = 0;
    while py < o_h
        invariant
            py <= o_h,
            data@.len() == py * o_w * 3,
            forall|k: int| 0 <= k < data@.len() ==> #[trigger] data@[k] == goal[k],
        decreases o_h - py,
    {
        let mut px: usize = 0;
        while px < o_w
            invariant
                px <= o_w,
                data@.len() == (py * o_w + px) * 3,
                forall|k: int| 0 <= k < data@.len() ==> #[trigger] data@[k] == goal[k],
            decreases o_w - px,
        {
            let mut s0 = T::zero();
            let mut s1 = T::zero();
            let mut s2 = T::zero();
            let mut sw = T::zero();
            let mut ky: usize = 0;
            while ky < 3
                invariant
                    ky <= 3,
                    data@.len() == (py * o_w + px) * 3,
                    (s0, s1, s2, sw) == smooth_rgb(
                        x.data@, x.height as int, x.width as int,
                        py as int,
                        px as int,
                        o_h as int,
                        o_w as int,
                        p_w,
                        p_h,
                        (3 * ky) as nat,
                    ),
                decreases 3 - ky,
            {
                let ny = clamp_neighbor(py, ky, o_h);
                let mut kx: usize = 0;
                while kx < 3
                    invariant
                        kx <= 3,
                        ny < o_h,
                        data@.len() == (py * o_w + px) * 3,
                        (s0, s1, s2, sw) == smooth_rgb(
                            x.data@, x.height as int, x.width as int,
                            py as int,
                            px as int,
                            o_h as int,
                            o_w as int,
                            p_w,
                            p_h,
                            (3 * ky + kx) as nat,
                        ),
                    decreases 3 - kx,
                {
                    let nx = clamp_neighbor(px, kx, o_w);
                    let w_k = T::from_count(stencil_weight(ky, kx));
                    let avg = patch_avg_rgb(x, ny, nx, o_h, o_w, p_w, p_h);
                    s0 = s0.plus(avg.0.times(w_k));
                    s1 = s1.plus(avg.1.times(w_k));
                    s2 = s2.plus(avg.2.times(w_k));
                    sw = sw.plus(w_k);
                    proof {
                        lemma_flat2(ky as int, kx as int, 3);
                    }
                    kx = kx + 1;
                }
                ky = ky + 1;
            }
            let inv_sw = T::one().over(sw.maxv(T::tiny()));
            let m = (s0.times(inv_sw), s1.times(inv_sw), s2.times(inv_sw));
            let v = patch_detail_rgb(x, py, px, o_h, o_w, p_w, p_h, m, lambda);
            proof {
                assert((py * o_w + px) * 3 + 2 < o_h * o_w * 3) by (nonlinear_arith)
                    requires
                        py < o_h,
                        px < o_w,
                ;
                lemma_flat3(py as int, px as int, 0, o_w as int, 3);
                lemma_flat3(py as int, px as int, 1, o_w as int, 3);
                lemma_flat3(py as int, px as int, 2, o_w as int, 3);
            }
            data.push(v.0);
            data.push(v.1);
            data.push(v.2);
            proof {
                assert(data@[((py * o_w + px) * 3) as int] == goal[((py * o_w + px) * 3) as int]);
                assert(data@[((py * o_w + px) * 3 + 1) as int] == goal[((py * o_w + px) * 3
                    + 1) as int]);
                assert(data@[((py * o_w + px) * 3 + 2) as int] == goal[((py * o_w + px) * 3
                    + 2) as int]);
                assert((py * o_w + px + 1) * 3 == (py * o_w + px) * 3 + 3) by (nonlinear_arith);
            }
            px = px + 1;
        }
        proof {
            assert((py + 1) * o_w * 3 == (py * o_w + o_w) * 3 && (py * o_w + o_w) * 3 == py * o_w
                * 3 + o_w * 3) by (nonlinear_arith);
        }
        py = py + 1;
    }
    proof {
        assert(o_h * o_w * 3 == (o_h * o_w) * 3) by (nonlinear_arith);
        assert(data@ =~= goal);
    }
    Image3 { data, height: o_h, width: o_w }
}

} // verus!
