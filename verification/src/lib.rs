//! Image resampling with verified indexing geometry.
//!
//! Two independent resamplers over dense row-major images:
//!
//! * a content-adaptive downscaler that re-weights each source pixel of an
//!   output patch by its deviation from a locally smoothed mean, and
//! * a separable cubic-kernel resampler with mirror-reflected boundary
//!   indices and per-output normalized contribution tables.
//!
//! Sample arithmetic is abstract: the algorithms are generic over a scalar
//! type supplied by the embedding (see [`sample::Sample`]), and each scalar
//! operation is pinned to an abstract specification counterpart. On top of
//! the exactly stated integer parts — patch geometry, mirror reflection,
//! table structure, shapes and the bounds of every buffer access — every
//! public function's contract pins its full result as a composition of
//! those scalar operations, so the contracts determine the output values
//! for any given scalar implementation.

pub mod api;
pub mod cubic;
pub mod dpid;
pub mod geometry;
pub mod image;
pub mod mirror;
pub mod sample;

pub use api::resize_content_adaptive;
pub use api::resize_cubic;
pub use api::ImageDyn;
pub use api::ResizeError;
pub use cubic::contributions;
pub use cubic::cubic_kernel;
pub use cubic::imresize2_mut;
pub use cubic::imresize3_mut;
pub use cubic::mirror_taps;
pub use cubic::resize_along_dim;
pub use cubic::ContribTable;
pub use dpid::dpid_resample_gray;
pub use dpid::dpid_resample_rgb;
pub use geometry::clamp_neighbor;
pub use geometry::patch_range;
pub use image::Image2;
pub use image::Image3;
pub use mirror::mirror_index;
pub use sample::Sample;
