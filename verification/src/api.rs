//! Validated call-level entry points.
//!
//! An image arrives as a flat buffer with an explicit shape of rank 2
//! (`height, width`) or rank 3 (`height, width, 3`). Validation fails fast
//! with [`ResizeError::InvalidInput`] when the rank is not 2 or 3, a rank-3
//! channel count is not 3, a target extent is zero, or (for the
//! content-adaptive resampler) the exponent is negative in the scalar's
//! order; no computation starts in that case.

use vstd::prelude::*;

verus! {

use crate::cubic::imresize2_mut;
use crate::cubic::imresize3_mut;
use crate::cubic::imresize_spec;
use crate::dpid::dpid_gray_spec;
use crate::dpid::dpid_resample_gray;
use crate::dpid::dpid_resample_rgb;
use crate::dpid::dpid_rgb_spec;
use crate::image::copy_samples;
use crate::image::Image2;
use crate::image::Image3;
use crate::sample::Sample;

/// The one user-surfaced error kind: the input failed validation.
#[derive(Clone, Copy, Debug, PartialEq, Eq)]
pub enum ResizeError {
    /// Rank not 2 or 3, channel count of a rank-3 image not 3, a target
    /// extent of zero, or a negative exponent.
    InvalidInput,
}

/// An image of dynamic rank: a flat, row-major, channel-last buffer and
/// its shape.
pub struct ImageDyn<T> {
    /// The samples.
    pub data: Vec<T>,
    /// `[height, width]` or `[height, width, channels]`.
    pub shape: Vec<usize>,
}

impl<T> ImageDyn<T> {
    /// The buffer length matches the shape product.
    pub open spec fn wf(self) -> bool {
        &&& self.shape@.len() == 2 ==> self.data@.len() == self.shape@[0] * self.shape@[1]
        &&& self.shape@.len() == 3 ==> self.data@.len() == self.shape@[0] * self.shape@[1]
            * self.shape@[2]
    }
}

/// The shape a resampler accepts: rank 2, or rank 3 with exactly three
/// channels.
pub open spec fn rank_ok(shape: Seq<usize>) -> bool {
    shape.len() == 2 || (shape.len() == 3 && shape[2] == 3)
}

/// A valid resize request: an accepted shape and positive target extents.
pub open spec fn dims_ok(shape: Seq<usize>, th: int, tw: int) -> bool {
    rank_ok(shape) && 1 <= th && 1 <= tw
}

/// The requested output: same rank and channel count as the input, target
/// height and width, and a buffer of matching length.
pub open spec fn out_shape_ok<T>(in_shape: Seq<usize>, out: ImageDyn<T>, th: int, tw: int) -> bool {
    &&& out.wf()
    &&& out.shape@.len() == in_shape.len()
    &&& out.shape@[0] == th
    &&& out.shape@[1] == tw
    &&& in_shape.len() == 3 ==> out.shape@[2] == 3
}

/// Machine limits under which the content-adaptive resampler runs: all
/// index products fit the address space.
pub open spec fn adaptive_fits(shape: Seq<usize>, th: int, tw: int) -> bool
    recommends
        rank_ok(shape),
{
    let h = shape[0] as int;
    let w = shape[1] as int;
    &&& h * th <= usize::MAX
    &&& w * tw <= usize::MAX
    &&& th <= usize::MAX - 2
    &&& tw <= usize::MAX - 2
    &&& (shape.len() == 2 ==> h * w <= usize::MAX)
    &&& (shape.len() == 3 ==> h * w * 3 <= usize::MAX)
}

/// Machine limits under which the cubic resampler runs: mirror periods and
/// all intermediate buffer sizes fit the address space.
pub open spec fn cubic_fits(shape: Seq<usize>, th: int, tw: int) -> bool
    recommends
        rank_ok(shape),
{
    let h = shape[0] as int;
    let w = shape[1] as int;
    &&& h <= usize::MAX / 2
    &&& w <= usize::MAX / 2
    &&& (shape.len() == 2 ==> h * w <= usize::MAX && th * w <= usize::MAX && h * tw <= usize::MAX
        && th * tw <= usize::MAX)
    &&& (shape.len() == 3 ==> h * w * 3 <= usize::MAX && th * w * 3 <= usize::MAX && h * tw * 3
        <= usize::MAX && th * tw * 3 <= usize::MAX)
}

/// Content-adaptive resize of a rank-2 or rank-3 image to
/// `target_height` by `target_width`, preserving rank and channel count.
///
/// Returns `InvalidInput`, before any computation, exactly when the shape
/// or target extents are rejected or `lambda` is negative in the scalar's
/// order; with an accepted shape and a nonnegative `lambda` the result is
/// exactly the per-rank content-adaptive resample of the buffer.
pub fn resize_content_adaptive<T: Sample>(
    img: &ImageDyn<T>,
    target_height: usize,
    target_width: usize,
    lambda: T,
) -> (r: Result<ImageDyn<T>, ResizeError>)
    requires
        img.wf(),
        dims_ok(img.shape@, target_height as int, target_width as int) ==> 1 <= img.shape@[0]
            && 1 <= img.shape@[1] && adaptive_fits(
            img.shape@,
            target_height as int,
            target_width as int,
        ),
    ensures
        r is Err <==> !dims_ok(img.shape@, target_height as int, target_width as int)
            || lambda.spec_ltv(T::spec_zero()),
        r is Ok ==> out_shape_ok(
            img.shape@,
            r->Ok_0,
            target_height as int,
            target_width as int,
        ),
        r is Ok && img.shape@.len() == 2 ==> (r->Ok_0).data@ == dpid_gray_spec(
            img.data@,
            img.shape@[0] as int,
            img.shape@[1] as int,
            target_height as int,
            target_width as int,
            lambda,
        ),
        r is Ok && img.shape@.len() == 3 ==> (r->Ok_0).data@ == dpid_rgb_spec(
            img.data@,
            img.shape@[0] as int,
            img.shape@[1] as int,
            target_height as int,
            target_width as int,
            lambda,
        ),
        r is Err ==> r->Err_0 == ResizeError::InvalidInput,
{
    let rank = img.shape.len();
    if rank != 2 && rank != 3 {
        return Err(ResizeError::InvalidInput);
    }
    if rank == 3 && img.shape[2] != 3 {
        return Err(ResizeError::InvalidInput);
    }
    if target_height < 1 || target_width < 1 {
        return Err(ResizeError::InvalidInput);
    }
    if lambda.ltv(T::zero()) {
        return Err(ResizeError::InvalidInput);
    }
    let h = img.shape[0];
    let w = img.shape[1];
    if rank == 2 {
        let im = Image2 { data: copy_samples(&img.data), height: h, width: w };
        let out = dpid_resample_gray(&im, target_height, target_width, lambda);
        let mut shape: Vec<usize> = Vec::new();
        shape.push(target_height);
        shape.push(target_width);
        Ok(ImageDyn { data: out.data, shape })
    } else {
        let im = Image3 { data: copy_samples(&img.data), height: h, width: w };
        let out = dpid_resample_rgb(&im, target_height, target_width, lambda);
        let mut shape: Vec<usize> = Vec::new();
        shape.push(target_height);
        shape.push(target_width);
        shape.push(3);
        Ok(ImageDyn { data: out.data, shape })
    }
}

/// Cubic resize of a rank-2 or rank-3 image to `target_height` by
/// `target_width`, preserving rank and channel count.
///
/// Returns `InvalidInput`, before any computation, exactly when the shape
/// or target extents are rejected; on every accepted input the result is
/// exactly the per-rank two-pass cubic convolution of the buffer.
pub fn resize_cubic<T: Sample>(img: &ImageDyn<T>, target_height: usize, target_width: usize) -> (r:
    Result<ImageDyn<T>, ResizeError>)
    requires
        img.wf(),
        dims_ok(img.shape@, target_height as int, target_width as int) ==> 1 <= img.shape@[0]
            && 1 <= img.shape@[1] && cubic_fits(
            img.shape@,
            target_height as int,
            target_width as int,
        ),
    ensures
        r is Ok <==> dims_ok(img.shape@, target_height as int, target_width as int),
        r is Ok ==> out_shape_ok(
            img.shape@,
            r->Ok_0,
            target_height as int,
            target_width as int,
        ),
        r is Ok && img.shape@.len() == 2 ==> (r->Ok_0).data@ == imresize_spec::<T>(
            img.data@,
            img.shape@[0] as int,
            img.shape@[1] as int,
            1,
            target_height as int,
            target_width as int,
        ),
        r is Ok && img.shape@.len() == 3 ==> (r->Ok_0).data@ == imresize_spec::<T>(
            img.data@,
            img.shape@[0] as int,
            img.shape@[1] as int,
            3,
            target_height as int,
            target_width as int,
        ),
        r is Err ==> r->Err_0 == ResizeError::InvalidInput,
{
    let rank = img.shape.len();
    if rank != 2 && rank != 3 {
        return Err(ResizeError::InvalidInput);
    }
    if rank == 3 && img.shape[2] != 3 {
        return Err(ResizeError::InvalidInput);
    }
    if target_height < 1 || target_width < 1 {
        return Err(ResizeError::InvalidInput);
    }
    let h = img.shape[0];
    let w = img.shape[1];
    if rank == 2 {
        let im = Image2 { data: copy_samples(&img.data), height: h, width: w };
        let mut out = Image2 { data: Vec::new(), height: 0, width: 0 };
        imresize2_mut(&im, &mut out, target_height, target_width);
        let mut shape: Vec<usize> = Vec::new();
        shape.push(target_height);
        shape.push(target_width);
        Ok(ImageDyn { data: out.data, shape })
    } else {
        let im = Image3 { data: copy_samples(&img.data), height: h, width: w };
        let mut out = Image3 { data: Vec::new(), height: 0, width: 0 };
        imresize3_mut(&im, &mut out, target_height, target_width);
        let mut shape: Vec<usize> = Vec::new();
        shape.push(target_height);
        shape.push(target_width);
        shape.push(3);
        Ok(ImageDyn { data: out.data, shape })
    }
}

} // verus!
