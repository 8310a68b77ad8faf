//! Separable cubic-kernel resampling.
//!
//! Step one builds, per axis, a contribution table mapping each output
//! index to a short list of kernel weights and mirror-reflected source
//! indices; weights are renormalized per output index, and kernel columns
//! that are zero for every output index are dropped. Step two applies the
//! two tables as sequential 1D convolutions, the more strongly downscaled
//! axis first. Every step is pinned to a specification counterpart written
//! over the scalar's abstract operations, so the contracts state the
//! computed values exactly, not only their shapes.

use vstd::prelude::*;

verus! {

use crate::image::coord3;
use crate::image::lemma_flat2;
use crate::image::lemma_flat3;
use crate::image::Image2;
use crate::image::Image3;
use crate::mirror::mirror_index;
use crate::mirror::mirror_spec;
use crate::sample::Sample;

/// Value of the piecewise-cubic interpolation kernel, as a composition of
/// the scalar's operations: `1.5|x|^3 - 2.5|x|^2 + 1` for `|x| <= 1`,
/// `-0.5|x|^3 + 2.5|x|^2 - 4|x| + 2` for `1 < |x| <= 2`, zero beyond.
pub open spec fn cubic_kernel_spec<T: Sample>(x: T) -> T {
    let ax = x.spec_absv();
    let ax2 = ax.spec_times(ax);
    let ax3 = ax2.spec_times(ax);
    let two = T::spec_from_count(2);
    let c15 = T::spec_from_count(3).spec_over(two);
    let c25 = T::spec_from_count(5).spec_over(two);
    if ax.spec_lev(T::spec_one()) {
        ax3.spec_times(c15).spec_minus(ax2.spec_times(c25)).spec_plus(T::spec_one())
    } else if ax.spec_lev(two) {
        let neg_half = T::spec_zero().spec_minus(T::spec_one().spec_over(two));
        ax3.spec_times(neg_half).spec_plus(ax2.spec_times(c25)).spec_minus(
            ax.spec_times(T::spec_from_count(4)),
        ).spec_plus(two)
    } else {
        T::spec_zero()
    }
}

/// The piecewise-cubic interpolation kernel.
pub fn cubic_kernel<T: Sample>(x: T) -> (r: T)
    ensures
        r == cubic_kernel_spec(x),
{
    let ax = x.absv();
    let ax2 = ax.times(ax);
    let ax3 = ax2.times(ax);
    let two = T::from_count(2);
    let c15 = T::from_count(3).over(two);
    let c25 = T::from_count(5).over(two);
    if ax.lev(T::one()) {
        ax3.times(c15).minus(ax2.times(c25)).plus(T::one())
    } else if ax.lev(two) {
        let neg_half = T::zero().minus(T::one().over(two));
        ax3.times(neg_half).plus(ax2.times(c25)).minus(ax.times(T::from_count(4))).plus(two)
    } else {
        T::zero()
    }
}

/// Per-axis contribution table: for each of `rows` output indices, `width`
/// kernel taps, each a weight and an in-range source index.
pub struct ContribTable<T> {
    /// Tap weights, one row per output index.
    pub weights: Vec<Vec<T>>,
    /// Mirror-reflected source indices, one row per output index.
    pub indices: Vec<Vec<usize>>,
    /// Number of taps per output index.
    pub width: usize,
}

impl<T> ContribTable<T> {
    /// Both matrices are dense `rows x width`, and every source index lies
    /// inside `[0, in_len)`.
    pub open spec fn wf(self, in_len: int) -> bool {
        &&& self.weights@.len() == self.indices@.len()
        &&& forall|a: int|
            0 <= a < self.weights@.len() ==> (#[trigger] self.weights@[a])@.len() == self.width
        &&& forall|a: int|
            0 <= a < self.indices@.len() ==> (#[trigger] self.indices@[a])@.len() == self.width
        &&& forall|a: int, b: int|
            0 <= a < self.indices@.len() && 0 <= b < self.width ==> (#[trigger] self.indices@[a]@[b])
                < in_len
    }

    /// Number of output indices the table serves.
    pub open spec fn rows(self) -> int {
        self.indices@.len() as int
    }

    /// The weight matrix as a sequence of rows.
    pub open spec fn weight_rows(self) -> Seq<Seq<T>> {
        self.weights@.map(|_a: int, v: Vec<T>| v@)
    }

    /// The index matrix as a sequence of rows of mathematical integers.
    pub open spec fn index_rows(self) -> Seq<Seq<int>> {
        self.indices@.map(|_a: int, v: Vec<usize>| v@.map(|_b: int, u: usize| u as int))
    }
}

/// The axis scale factor `out_len / in_len` as a scalar.
pub open spec fn axis_scale_spec<T: Sample>(in_len: int, out_len: int) -> T {
    T::spec_from_count(out_len as usize).spec_over(T::spec_from_count(in_len as usize))
}

/// The effective kernel support: widened by the inverse scale when
/// downscaling, the base support otherwise.
pub open spec fn kernel_width_spec<T: Sample>(in_len: int, out_len: int, k_width: int) -> T {
    if out_len < in_len {
        T::spec_from_count(k_width as usize).spec_over(axis_scale_spec::<T>(in_len, out_len))
    } else {
        T::spec_from_count(k_width as usize)
    }
}

/// Number of taps provisioned per output index: the ceiling of the
/// effective kernel support plus two, saturated at the count type's range.
pub open spec fn tap_count_spec<T: Sample>(in_len: int, out_len: int, k_width: int) -> int {
    let pc = kernel_width_spec::<T>(in_len, out_len, k_width).spec_ceil_count();
    if pc > usize::MAX - 2 {
        usize::MAX as int
    } else {
        pc + 2
    }
}

/// The kernel center of output index `i` in source coordinates:
/// `(i + 1) / s + 0.5 (1 - 1/s)` over the scalar's operations.
pub open spec fn center_spec<T: Sample>(in_len: int, out_len: int, i: int) -> T {
    let inv_scale = T::spec_one().spec_over(axis_scale_spec::<T>(in_len, out_len));
    let half = T::spec_one().spec_over(T::spec_from_count(2));
    T::spec_from_count(i as usize).spec_plus(T::spec_one()).spec_times(inv_scale).spec_plus(
        half.spec_times(T::spec_one().spec_minus(inv_scale)),
    )
}

/// The leftmost unreflected tap offset of output index `i`:
/// `floor(center - kernel_width / 2)`.
pub open spec fn left_edge_spec<T: Sample>(in_len: int, out_len: int, k_width: int, i: int) -> int {
    center_spec::<T>(in_len, out_len, i).spec_minus(
        kernel_width_spec::<T>(in_len, out_len, k_width).spec_over(T::spec_from_count(2)),
    ).spec_floor_offset() as int
}

/// A signed offset saturated into the offset type's range.
pub open spec fn clamp_offset_spec(n: int) -> int {
    if n > isize::MAX as int {
        isize::MAX as int
    } else if n < isize::MIN as int {
        isize::MIN as int
    } else {
        n
    }
}

/// Raw (unnormalized) weight of tap `j` of output index `i`: the kernel at
/// the signed distance from the center, amplitude-scaled when downscaling.
pub open spec fn raw_weight_spec<T: Sample>(
    in_len: int,
    out_len: int,
    k_width: int,
    i: int,
    j: int,
) -> T {
    let u = center_spec::<T>(in_len, out_len, i);
    let idx = left_edge_spec::<T>(in_len, out_len, k_width, i) + j - 1;
    let dist = u.spec_minus(T::spec_from_offset(clamp_offset_spec(idx) as isize)).spec_minus(
        T::spec_one(),
    );
    if out_len < in_len {
        let s = axis_scale_spec::<T>(in_len, out_len);
        s.spec_times(cubic_kernel_spec(s.spec_times(dist)))
    } else {
        cubic_kernel_spec(dist)
    }
}

/// Sum of the first `n` raw weights of output index `i`, accumulated in
/// tap order.
pub open spec fn weight_sum_spec<T: Sample>(
    in_len: int,
    out_len: int,
    k_width: int,
    i: int,
    n: nat,
) -> T
    decreases n,
{
    if n == 0 {
        T::spec_zero()
    } else {
        weight_sum_spec::<T>(in_len, out_len, k_width, i, (n - 1) as nat).spec_plus(
            raw_weight_spec::<T>(in_len, out_len, k_width, i, n as int - 1),
        )
    }
}

/// Normalized weight of tap `j` of output index `i`: the raw weight
/// divided by the row sum, unless that sum is exactly zero.
pub open spec fn norm_weight_spec<T: Sample>(
    in_len: int,
    out_len: int,
    k_width: int,
    i: int,
    j: int,
) -> T {
    let p = tap_count_spec::<T>(in_len, out_len, k_width);
    let sum = weight_sum_spec::<T>(in_len, out_len, k_width, i, p as nat);
    let w = raw_weight_spec::<T>(in_len, out_len, k_width, i, j);
    if !sum.spec_eqv(T::spec_zero()) {
        w.spec_over(sum)
    } else {
        w
    }
}

/// Whether tap column `j` holds a nonzero normalized weight for at least
/// one output index — the columns the trimming step keeps.
pub open spec fn column_kept_spec<T: Sample>(
    in_len: int,
    out_len: int,
    k_width: int,
    j: int,
) -> bool {
    exists|i: int|
        0 <= i < out_len && !(#[trigger] norm_weight_spec::<T>(
            in_len,
            out_len,
            k_width,
            i,
            j,
        )).spec_eqv(T::spec_zero())
}

/// The kept tap columns among the first `n`, in ascending order.
pub open spec fn kept_columns_prefix<T: Sample>(
    in_len: int,
    out_len: int,
    k_width: int,
    n: nat,
) -> Seq<int>
    decreases n,
{
    if n == 0 {
        Seq::empty()
    } else {
        let prev = kept_columns_prefix::<T>(in_len, out_len, k_width, (n - 1) as nat);
        if column_kept_spec::<T>(in_len, out_len, k_width, n as int - 1) {
            prev.push(n as int - 1)
        } else {
            prev
        }
    }
}

/// All kept tap columns of the axis, in ascending order.
pub open spec fn kept_columns_spec<T: Sample>(in_len: int, out_len: int, k_width: int) -> Seq<
    int,
> {
    kept_columns_prefix::<T>(
        in_len,
        out_len,
        k_width,
        tap_count_spec::<T>(in_len, out_len, k_width) as nat,
    )
}

/// At most `n` of the first `n` columns are kept.
proof fn lemma_kept_columns_len<T: Sample>(in_len: int, out_len: int, k_width: int, n: nat)
    ensures
        kept_columns_prefix::<T>(in_len, out_len, k_width, n).len() <= n,
    decreases n,
{
    if n > 0 {
        lemma_kept_columns_len::<T>(in_len, out_len, k_width, (n - 1) as nat);
    }
}

/// The weight matrix the table builder owes: one row per output index,
/// the normalized weights of the kept columns in order.
pub open spec fn table_weights_spec<T: Sample>(in_len: int, out_len: int, k_width: int) -> Seq<
    Seq<T>,
> {
    let cols = kept_columns_spec::<T>(in_len, out_len, k_width);
    Seq::new(
        out_len as nat,
        |a: int|
            Seq::new(
                cols.len(),
                |b: int| norm_weight_spec::<T>(in_len, out_len, k_width, a, cols[b]),
            ),
    )
}

/// The index matrix the table builder owes: the mirror reflection of each
/// kept column's unreflected offset from the row's left edge.
pub open spec fn table_indices_spec<T: Sample>(in_len: int, out_len: int, k_width: int) -> Seq<
    Seq<int>,
> {
    let cols = kept_columns_spec::<T>(in_len, out_len, k_width);
    Seq::new(
        out_len as nat,
        |a: int|
            Seq::new(
                cols.len(),
                |b: int|
                    mirror_spec(
                        left_edge_spec::<T>(in_len, out_len, k_width, a) + cols[b] - 1,
                        in_len,
                    ),
            ),
    )
}

/// The source indices of `p` consecutive kernel taps for one output index:
/// tap `j` asks for the unreflected offset `left + j - 1`, and each offset
/// is resolved by mirror reflection into `[0, len)`.
#[verifier::loop_isolation(false)]
pub fn mirror_taps(left: isize, p: usize, len: usize) -> (r: Vec<usize>)
    requires
        1 <= len,
        len <= usize::MAX / 2,
    ensures
        r@.len() == p,
        forall|j: int|
            0 <= j < p ==> (#[trigger] r@[j]) as int == mirror_spec(left + j - 1, len as int),
        forall|j: int| 0 <= j < p ==> (#[trigger] r@[j]) < len,
{
    let mut r: Vec<usize> = Vec::new();
    let mut j: usize = 0;
    while j < p
        invariant
            j <= p,
            r@.len() == j,
            forall|b: int|
                0 <= b < j ==> (#[trigger] r@[b]) as int == mirror_spec(left + b - 1, len as int),
            forall|b: int| 0 <= b < j ==> (#[trigger] r@[b]) < len,
        decreases p - j,
    {
        let idx: i128 = left as i128 + j as i128 - 1;
        r.push(mirror_index(idx, len));
        j = j + 1;
    }
    r
}

/// Builds the contribution table for one axis that maps `in_len` source
/// cells onto `out_len` output cells with a kernel of base support
/// `k_width` samples. The result is pinned exactly: its weights are
/// `table_weights_spec` and its indices `table_indices_spec` — normalized
/// kernel weights and mirror-reflected consecutive tap offsets, restricted
/// to the columns that hold a nonzero weight for at least one output
/// index, in ascending order.
#[verifier::loop_isolation(false)]
pub fn contributions<T: Sample>(in_len: usize, out_len: usize, k_width: usize) -> (r: ContribTable<
    T,
>)
    requires
        1 <= in_len,
        1 <= out_len,
        in_len <= usize::MAX / 2,
    ensures
        r.wf(in_len as int),
        r.rows() == out_len,
        r.width == kept_columns_spec::<T>(in_len as int, out_len as int, k_width as int).len(),
        r.width <= tap_count_spec::<T>(in_len as int, out_len as int, k_width as int),
        r.weight_rows() == table_weights_spec::<T>(in_len as int, out_len as int, k_width as int),
        r.index_rows() == table_indices_spec::<T>(in_len as int, out_len as int, k_width as int),
{
    let ghost ini = in_len as int;
    let ghost outi = out_len as int;
    let ghost kwi = k_width as int;
    let scale = T::from_count(out_len).over(T::from_count(in_len));
    let inv_scale = T::one().over(scale);
    let down = out_len < in_len;
    let kernel_width = if down {
        T::from_count(k_width).over(scale)
    } else {
        T::from_count(k_width)
    };
    let pc = kernel_width.ceil_count();
    let p: usize = if pc > usize::MAX - 2 {
        usize::MAX
    } else {
        pc + 2
    };
    proof {
        assert(p as int == tap_count_spec::<T>(ini, outi, kwi));
    }
    let two = T::from_count(2);
    let half = T::one().over(two);
    let mut weights: Vec<Vec<T>> = Vec::new();
    let mut indices: Vec<Vec<usize>> = Vec::new();
    let mut i: usize = 0;
    while i < out_len
        invariant
            i <= out_len,
            weights@.len() == i,
            indices@.len() == i,
            forall|a: int| 0 <= a < i ==> (#[trigger] weights@[a])@.len() == p,
            forall|a: int| 0 <= a < i ==> (#[trigger] indices@[a])@.len() == p,
            forall|a: int, b: int|
                0 <= a < i && 0 <= b < p ==> (#[trigger] indices@[a]@[b]) < in_len,
            forall|a: int, b: int|
                0 <= a < i && 0 <= b < p ==> (#[trigger] weights@[a]@[b]) == norm_weight_spec::<
                    T,
                >(ini, outi, kwi, a, b),
            forall|a: int, b: int|
                0 <= a < i && 0 <= b < p ==> (#[trigger] indices@[a]@[b]) as int == mirror_spec(
                    left_edge_spec::<T>(ini, outi, kwi, a) + b - 1,
                    ini,
                ),
        decreases out_len - i,
    {
        let u = T::from_count(i).plus(T::one()).times(inv_scale).plus(
            half.times(T::one().minus(inv_scale)),
        );
        let left: isize = u.minus(kernel_width.over(two)).floor_offset();
        proof {
            assert(left as int == left_edge_spec::<T>(ini, outi, kwi, i as int));
        }
        let irow = mirror_taps(left, p, in_len);
        let mut wrow: Vec<T> = Vec::new();
        let mut sum = T::zero();
        let mut j: usize = 0;
        while j < p
            invariant
                j <= p,
                wrow@.len() == j,
                sum == weight_sum_spec::<T>(ini, outi, kwi, i as int, j as nat),
                forall|b: int|
                    0 <= b < j ==> (#[trigger] wrow@[b]) == raw_weight_spec::<T>(
                        ini,
                        outi,
                        kwi,
                        i as int,
                        b,
                    ),
            decreases p - j,
        {
            let idx: i128 = left as i128 + j as i128 - 1;
            let idx_s: isize = if idx > isize::MAX as i128 {
                isize::MAX
            } else if idx < isize::MIN as i128 {
                isize::MIN
            } else {
                idx as isize
            };
            let dist = u.minus(T::from_offset(idx_s)).minus(T::one());
            let weight = if down {
                scale.times(cubic_kernel(scale.times(dist)))
            } else {
                cubic_kernel(dist)
            };
            proof {
                assert(weight == raw_weight_spec::<T>(ini, outi, kwi, i as int, j as int));
            }
            wrow.push(weight);
            sum = sum.plus(weight);
            j = j + 1;
        }
        let wfinal: Vec<T>;
        if !sum.eqv(T::zero()) {
            let mut wnorm: Vec<T> = Vec::new();
            let mut j2: usize = 0;
            while j2 < p
                invariant
                    j2 <= p,
                    wnorm@.len() == j2,
                    forall|b: int|
                        0 <= b < j2 ==> (#[trigger] wnorm@[b]) == norm_weight_spec::<T>(
                            ini,
                            outi,
                            kwi,
                            i as int,
                            b,
                        ),
                decreases p - j2,
            {
                wnorm.push(wrow[j2].over(sum));
                j2 = j2 + 1;
            }
            wfinal = wnorm;
        } else {
            proof {
                assert forall|b: int| 0 <= b < p implies (#[trigger] wrow@[b])
                    == norm_weight_spec::<T>(ini, outi, kwi, i as int, b) by {}
            }
            wfinal = wrow;
        }
        weights.push(wfinal);
        indices.push(irow);
        i = i + 1;
    }
    let mut active: Vec<usize> = Vec::new();
    let mut j: usize = 0;
    while j < p
        invariant
            j <= p,
            forall|a: int| 0 <= a < active@.len() ==> (#[trigger] active@[a]) < p,
            active@.map(|_a: int, v: usize| v as int) == kept_columns_prefix::<T>(
                ini,
                outi,
                kwi,
                j as nat,
            ),
        decreases p - j,
    {
        let mut any = false;
        let mut i2: usize = 0;
        while i2 < out_len
            invariant
                i2 <= out_len,
                any == exists|t: int|
                    0 <= t < i2 && !(#[trigger] norm_weight_spec::<T>(
                        ini,
                        outi,
                        kwi,
                        t,
                        j as int,
                    )).spec_eqv(T::spec_zero()),
            decreases out_len - i2,
        {
            if !weights[i2][j].eqv(T::zero()) {
                proof {
                    assert(!norm_weight_spec::<T>(ini, outi, kwi, i2 as int, j as int).spec_eqv(
                        T::spec_zero(),
                    ));
                }
                any = true;
            }
            i2 = i2 + 1;
        }
        proof {
            assert(any == column_kept_spec::<T>(ini, outi, kwi, j as int));
        }
        if any {
            active.push(j);
        }
        proof {
            assert(active@.map(|_a: int, v: usize| v as int) =~= kept_columns_prefix::<T>(
                ini,
                outi,
                kwi,
                (j + 1) as nat,
            ));
        }
        j = j + 1;
    }
    proof {
        lemma_kept_columns_len::<T>(ini, outi, kwi, p as nat);
    }
    let new_p = active.len();
    let ghost cols = kept_columns_spec::<T>(ini, outi, kwi);
    let mut w2: Vec<Vec<T>> = Vec::new();
    let mut i2v: Vec<Vec<usize>> = Vec::new();
    let mut i3: usize = 0;
    while i3 < out_len
        invariant
            i3 <= out_len,
            w2@.len() == i3,
            i2v@.len() == i3,
            forall|a: int| 0 <= a < i3 ==> (#[trigger] w2@[a])@.len() == new_p,
            forall|a: int| 0 <= a < i3 ==> (#[trigger] i2v@[a])@.len() == new_p,
            forall|a: int, b: int|
                0 <= a < i3 && 0 <= b < new_p ==> (#[trigger] i2v@[a]@[b]) < in_len,
            forall|a: int, b: int|
                0 <= a < i3 && 0 <= b < new_p ==> (#[trigger] w2@[a]@[b]) == norm_weight_spec::<
                    T,
                >(ini, outi, kwi, a, cols[b]),
            forall|a: int, b: int|
                0 <= a < i3 && 0 <= b < new_p ==> (#[trigger] i2v@[a]@[b]) as int == mirror_spec(
                    left_edge_spec::<T>(ini, outi, kwi, a) + cols[b] - 1,
                    ini,
                ),
        decreases out_len - i3,
    {
        let mut wr: Vec<T> = Vec::new();
        let mut ir: Vec<usize> = Vec::new();
        let mut t: usize = 0;
        while t < new_p
            invariant
                t <= new_p,
                wr@.len() == t,
                ir@.len() == t,
                forall|b: int| 0 <= b < t ==> (#[trigger] ir@[b]) < in_len,
                forall|b: int|
                    0 <= b < t ==> (#[trigger] wr@[b]) == norm_weight_spec::<T>(
                        ini,
                        outi,
                        kwi,
                        i3 as int,
                        cols[b],
                    ),
                forall|b: int|
                    0 <= b < t ==> (#[trigger] ir@[b]) as int == mirror_spec(
                        left_edge_spec::<T>(ini, outi, kwi, i3 as int) + cols[b] - 1,
                        ini,
                    ),
            decreases new_p - t,
        {
            let cj = active[t];
            proof {
                assert(cj as int == cols[t as int]);
            }
            wr.push(weights[i3][cj]);
            ir.push(indices[i3][cj]);
            t = t + 1;
        }
        w2.push(wr);
        i2v.push(ir);
        i3 = i3 + 1;
    }
    let r = ContribTable { weights: w2, indices: i2v, width: new_p };
    proof {
        assert(r.weight_rows() =~~= table_weights_spec::<T>(ini, outi, kwi));
        assert(r.index_rows() =~~= table_indices_spec::<T>(ini, outi, kwi));
    }
    r
}

/// The weighted tap sum of one output sample, accumulated in tap order:
/// tap `k` contributes `wrow[k] * input[src(k)]`, where the source
/// position is the tap's row (`dim == 0`) or column (`dim == 1`) index.
pub open spec fn conv_fold<T: Sample>(
    input: Seq<T>,
    i_w: int,
    c: int,
    wrow: Seq<T>,
    irow: Seq<int>,
    dim: int,
    y: int,
    x: int,
    ch: int,
    n: nat,
) -> T
    decreases n,
{
    if n == 0 {
        T::spec_zero()
    } else {
        let k = n as int - 1;
        let src = if dim == 0 {
            (irow[k] * i_w + x) * c + ch
        } else {
            (y * i_w + irow[k]) * c + ch
        };
        conv_fold(input, i_w, c, wrow, irow, dim, y, x, ch, (n - 1) as nat).spec_plus(
            wrow[k].spec_times(input[src]),
        )
    }
}

/// One whole separable convolution pass as a sequence: output sample
/// `(y, x, ch)` is the tap fold of its table row, laid out row-major and
/// channel-last.
pub open spec fn conv_pass_spec<T: Sample>(
    input: Seq<T>,
    i_h: int,
    i_w: int,
    c: int,
    wrows: Seq<Seq<T>>,
    irows: Seq<Seq<int>>,
    width: int,
    out_len: int,
    dim: int,
) -> Seq<T> {
    let o_h = if dim == 0 {
        out_len
    } else {
        i_h
    };
    let o_w = if dim == 0 {
        i_w
    } else {
        out_len
    };
    Seq::new(
        (o_h * o_w * c) as nat,
        |k: int|
            {
                let (y, x, ch) = coord3(k, o_w, c);
                let row = if dim == 0 {
                    y
                } else {
                    x
                };
                conv_fold(input, i_w, c, wrows[row], irows[row], dim, y, x, ch, width as nat)
            },
    )
}

/// One separable convolution pass over a flat channel-last buffer of
/// `i_h * i_w * c` samples: resizes rows (`dim == 0`) or columns
/// (`dim == 1`) to the table's output length. The result is pinned: it is
/// exactly `conv_pass_spec` of the input and the table.
#[verifier::loop_isolation(false)]
pub fn resize_along_dim<T: Sample>(
    input: &Vec<T>,
    i_h: usize,
    i_w: usize,
    c: usize,
    table: &ContribTable<T>,
    dim: usize,
) -> (r: Vec<T>)
    requires
        1 <= i_h,
        1 <= i_w,
        1 <= c,
        input@.len() == i_h * i_w * c,
        i_h * i_w * c <= usize::MAX,
        dim == 0 || dim == 1,
        dim == 0 ==> table.wf(i_h as int),
        dim == 1 ==> table.wf(i_w as int),
    ensures
        r@ == conv_pass_spec(
            input@,
            i_h as int,
            i_w as int,
            c as int,
            table.weight_rows(),
            table.index_rows(),
            table.width as int,
            table.rows(),
            dim as int,
        ),
        dim == 0 ==> r@.len() == table.rows() * i_w * c,
        dim == 1 ==> r@.len() == i_h * table.rows() * c,
{
    let out_len = table.indices.len();
    let ghost goal = conv_pass_spec(
        input@,
        i_h as int,
        i_w as int,
        c as int,
        table.weight_rows(),
        table.index_rows(),
        table.width as int,
        table.rows(),
        dim as int,
    );
    let mut data: Vec<T> = Vec::new();
    proof {
        assert(0 * i_w * c == 0 && 0 * out_len as int * c == 0) by (nonlinear_arith);
    }
    if dim == 0 {
        let mut y: usize = 0;
        while y < out_len
            invariant
                y <= out_len,
                data@.len() == y * i_w * c,
                forall|k: int| 0 <= k < data@.len() ==> #[trigger] data@[k] == goal[k],
            decreases out_len - y,
        {
            let mut x: usize = 0;
            while x < i_w
                invariant
                    x <= i_w,
                    data@.len() == (y * i_w + x) * c,
                    forall|k: int| 0 <= k < data@.len() ==> #[trigger] data@[k] == goal[k],
                decreases i_w - x,
            {
                let mut ch: usize = 0;
                while ch < c
                    invariant
                        ch <= c,
                        data@.len() == (y * i_w + x) * c + ch,
                        forall|k: int| 0 <= k < data@.len() ==> #[trigger] data@[k] == goal[k],
                    decreases c - ch,
                {
                    let mut acc = T::zero();
                    let mut k: usize = 0;
                    while k < table.width
                        invariant
                            k <= table.width,
                            acc == conv_fold(
                                input@,
                                i_w as int,
                                c as int,
                                table.weight_rows()[y as int],
                                table.index_rows()[y as int],
                                0,
                                y as int,
                                x as int,
                                ch as int,
                                k as nat,
                            ),
                        decreases table.width - k,
                    {
                        let idx = table.indices[y][k];
                        let w = table.weights[y][k];
                        proof {
                            assert(idx * i_w + x < i_h * i_w && i_h * i_w <= i_h * i_w * c && (idx
                                * i_w + x) * c + ch < i_h * i_w * c) by (nonlinear_arith)
                                requires
                                    idx < i_h,
                                    x < i_w,
                                    ch < c,
                            ;
                        }
                        acc = acc.plus(w.times(input[(idx * i_w + x) * c + ch]));
                        k = k + 1;
                    }
                    proof {
                        lemma_flat3(y as int, x as int, ch as int, i_w as int, c as int);
                        assert((y * i_w + x) * c + ch < out_len * i_w * c) by (nonlinear_arith)
                            requires
                                y < out_len,
                                x < i_w,
                                ch < c,
                        ;
                    }
                    data.push(acc);
                    proof {
                        assert(data@[((y * i_w + x) * c + ch) as int] == goal[((y * i_w + x) * c
                            + ch) as int]);
                    }
                    ch = ch + 1;
                }
                proof {
                    assert((y * i_w + x) * c + c == (y * i_w + x + 1) * c) by (nonlinear_arith);
                }
                x = x + 1;
            }
            proof {
                assert((y * i_w + i_w) * c == (y + 1) * i_w * c) by (nonlinear_arith);
            }
            y = y + 1;
        }
    } else {
        let mut y: usize = 0;
        while y < i_h
            invariant
                y <= i_h,
                data@.len() == y * out_len * c,
                forall|k: int| 0 <= k < data@.len() ==> #[trigger] data@[k] == goal[k],
            decreases i_h - y,
        {
            let mut x: usize = 0;
            while x < out_len
                invariant
                    x <= out_len,
                    data@.len() == (y * out_len + x) * c,
                    forall|k: int| 0 <= k < data@.len() ==> #[trigger] data@[k] == goal[k],
                decreases out_len - x,
            {
                let mut ch: usize = 0;
                while ch < c
                    invariant
                        ch <= c,
                        data@.len() == (y * out_len + x) * c + ch,
                        forall|k: int| 0 <= k < data@.len() ==> #[trigger] data@[k] == goal[k],
                    decreases c - ch,
                {
                    let mut acc = T::zero();
                    let mut k: usize = 0;
                    while k < table.width
                        invariant
                            k <= table.width,
                            acc == conv_fold(
                                input@,
                                i_w as int,
                                c as int,
                                table.weight_rows()[x as int],
                                table.index_rows()[x as int],
                                1,
                                y as int,
                                x as int,
                                ch as int,
                                k as nat,
                            ),
                        decreases table.width - k,
                    {
                        let idx = table.indices[x][k];
                        let w = table.weights[x][k];
                        proof {
                            assert(y * i_w + idx < i_h * i_w && i_h * i_w <= i_h * i_w * c && (y
                                * i_w + idx) * c + ch < i_h * i_w * c) by (nonlinear_arith)
                                requires
                                    y < i_h,
                                    idx < i_w,
                                    ch < c,
                            ;
                        }
                        acc = acc.plus(w.times(input[(y * i_w + idx) * c + ch]));
                        k = k + 1;
                    }
                    proof {
                        lemma_flat3(y as int, x as int, ch as int, out_len as int, c as int);
                        assert((y * out_len + x) * c + ch < i_h * out_len * c)
                            by (nonlinear_arith)
                            requires
                                y < i_h,
                                x < out_len,
                                ch < c,
                        ;
                    }
                    data.push(acc);
                    proof {
                        assert(data@[((y * out_len + x) * c + ch) as int] == goal[((y * out_len
                            + x) * c + ch) as int]);
                    }
                    ch = ch + 1;
                }
                proof {
                    assert((y * out_len + x) * c + c == (y * out_len + x + 1) * c)
                        by (nonlinear_arith);
                }
                x = x + 1;
            }
            proof {
                assert((y * out_len + out_len) * c == (y + 1) * out_len * c) by (nonlinear_arith);
            }
            y = y + 1;
        }
    }
    proof {
        assert(data@ =~= goal);
    }
    data
}

/// Whether the height axis is convolved first: its scale factor
/// `out_h / i_h` is the smaller one, compared exactly in the integers.
pub open spec fn height_first_spec(i_h: int, i_w: int, out_h: int, out_w: int) -> bool {
    out_h * i_w < i_h * out_w
}

/// The whole cubic resize as a sequence: both per-axis contribution tables
/// applied as sequential convolution passes, the more strongly downscaled
/// axis first.
pub open spec fn imresize_spec<T: Sample>(
    input: Seq<T>,
    i_h: int,
    i_w: int,
    c: int,
    out_h: int,
    out_w: int,
) -> Seq<T> {
    let wh = table_weights_spec::<T>(i_h, out_h, 4);
    let ih = table_indices_spec::<T>(i_h, out_h, 4);
    let nh = kept_columns_spec::<T>(i_h, out_h, 4).len() as int;
    let ww = table_weights_spec::<T>(i_w, out_w, 4);
    let iw = table_indices_spec::<T>(i_w, out_w, 4);
    let nw = kept_columns_spec::<T>(i_w, out_w, 4).len() as int;
    if height_first_spec(i_h, i_w, out_h, out_w) {
        conv_pass_spec(
            conv_pass_spec(input, i_h, i_w, c, wh, ih, nh, out_h, 0),
            out_h,
            i_w,
            c,
            ww,
            iw,
            nw,
            out_w,
            1,
        )
    } else {
        conv_pass_spec(
            conv_pass_spec(input, i_h, i_w, c, ww, iw, nw, out_w, 1),
            i_h,
            out_w,
            c,
            wh,
            ih,
            nh,
            out_h,
            0,
        )
    }
}

/// Cubic resize of a single-channel image into `output`, which afterwards
/// has exactly `out_h` rows and `out_w` columns and holds exactly the
/// two-pass convolution `imresize_spec` of the input.
pub fn imresize2_mut<T: Sample>(
    input: &Image2<T>,
    output: &mut Image2<T>,
    out_h: usize,
    out_w: usize,
)
    requires
        input.wf(),
        1 <= input.height,
        1 <= input.width,
        1 <= out_h,
        1 <= out_w,
        input.height <= usize::MAX / 2,
        input.width <= usize::MAX / 2,
        input.height * input.width <= usize::MAX,
        out_h * input.width <= usize::MAX,
        input.height * out_w <= usize::MAX,
        out_h * out_w <= usize::MAX,
    ensures
        final (output).wf(),
        final (output).height == out_h,
        final (output).width == out_w,
        final (output).data@.len() == out_h * out_w,
        final (output).data@ == imresize_spec::<T>(
            input.data@,
            input.height as int,
            input.width as int,
            1,
            out_h as int,
            out_w as int,
        ),
{
    let i_h = input.height;
    let i_w = input.width;
    let t_h = contributions::<T>(i_h, out_h, 4);
    let t_w = contributions::<T>(i_w, out_w, 4);
    let height_first = out_h * i_w < i_h * out_w;
    let result: Vec<T>;
    if height_first {
        let mid = resize_along_dim(&input.data, i_h, i_w, 1, &t_h, 0);
        result = resize_along_dim(&mid, out_h, i_w, 1, &t_w, 1);
    } else {
        let mid = resize_along_dim(&input.data, i_h, i_w, 1, &t_w, 1);
        result = resize_along_dim(&mid, i_h, out_w, 1, &t_h, 0);
    }
    *output = Image2 { data: result, height: out_h, width: out_w };
}

/// Cubic resize of a three-channel image into `output`, which afterwards
/// has exactly `out_h` rows and `out_w` columns, keeps the channel count,
/// and holds exactly the two-pass convolution `imresize_spec` of the
/// input.
pub fn imresize3_mut<T: Sample>(
    input: &Image3<T>,
    output: &mut Image3<T>,
    out_h: usize,
    out_w: usize,
)
    requires
        input.wf(),
        1 <= input.height,
        1 <= input.width,
        1 <= out_h,
        1 <= out_w,
        input.height <= usize::MAX / 2,
        input.width <= usize::MAX / 2,
        input.height * input.width * 3 <= usize::MAX,
        out_h * input.width * 3 <= usize::MAX,
        input.height * out_w * 3 <= usize::MAX,
        out_h * out_w * 3 <= usize::MAX,
    ensures
        final (output).wf(),
        final (output).height == out_h,
        final (output).width == out_w,
        final (output).data@.len() == out_h * out_w * 3,
        final (output).data@ == imresize_spec::<T>(
            input.data@,
            input.height as int,
            input.width as int,
            3,
            out_h as int,
            out_w as int,
        ),
{
    let i_h = input.height;
    let i_w = input.width;
    let t_h = contributions::<T>(i_h, out_h, 4);
    let t_w = contributions::<T>(i_w, out_w, 4);
    proof {
        assert(out_h * i_w <= out_h * i_w * 3 && i_h * out_w <= i_h * out_w * 3)
            by (nonlinear_arith);
    }
    let height_first = out_h * i_w < i_h * out_w;
    let result: Vec<T>;
    if height_first {
        let mid = resize_along_dim(&input.data, i_h, i_w, 3, &t_h, 0);
        result = resize_along_dim(&mid, out_h, i_w, 3, &t_w, 1);
    } else {
        let mid = resize_along_dim(&input.data, i_h, i_w, 3, &t_w, 1);
        result = resize_along_dim(&mid, i_h, out_w, 3, &t_h, 0);
    }
    *output = Image3 { data: result, height: out_h, width: out_w };
}

} // verus!
