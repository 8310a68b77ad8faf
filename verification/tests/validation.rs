use pepedpid::clamp_neighbor;
use pepedpid::patch_range;
use pepedpid::resize_content_adaptive;
use pepedpid::resize_cubic;
use pepedpid::ImageDyn;
use pepedpid::ResizeError;
use pepedpid::Sample;

#[derive(Clone, Copy, PartialEq, Debug)]
struct Px(f32);

impl Sample for Px {
    fn spec_zero() -> Self {
        Px(0.0)
    }
    fn spec_one() -> Self {
        Px(1.0)
    }
    fn spec_tiny() -> Self {
        Px(f32::EPSILON)
    }
    fn spec_from_count(n: usize) -> Self {
        Px(n as f32)
    }
    fn spec_from_offset(n: isize) -> Self {
        Px(n as f32)
    }
    fn spec_plus(self, o: Self) -> Self {
        Px(self.0 + o.0)
    }
    fn spec_minus(self, o: Self) -> Self {
        Px(self.0 - o.0)
    }
    fn spec_times(self, o: Self) -> Self {
        Px(self.0 * o.0)
    }
    fn spec_over(self, o: Self) -> Self {
        Px(self.0 / o.0)
    }
    fn spec_maxv(self, o: Self) -> Self {
        Px(self.0.max(o.0))
    }
    fn spec_minv(self, o: Self) -> Self {
        Px(self.0.min(o.0))
    }
    fn spec_absv(self) -> Self {
        Px(self.0.abs())
    }
    fn spec_sqrtv(self) -> Self {
        Px(self.0.sqrt())
    }
    fn spec_powv(self, e: Self) -> Self {
        Px(self.0.powf(e.0))
    }
    fn spec_lev(self, o: Self) -> bool {
        self.0 <= o.0
    }
    fn spec_ltv(self, o: Self) -> bool {
        self.0 < o.0
    }
    fn spec_eqv(self, o: Self) -> bool {
        self.0 == o.0
    }
    fn spec_floor_offset(self) -> isize {
        self.0.floor() as isize
    }
    fn spec_ceil_count(self) -> usize {
        self.0.ceil() as usize
    }
    fn zero() -> Self {
        Px(0.0)
    }
    fn one() -> Self {
        Px(1.0)
    }
    fn tiny() -> Self {
        Px(f32::EPSILON)
    }
    fn from_count(n: usize) -> Self {
        Px(n as f32)
    }
    fn from_offset(n: isize) -> Self {
        Px(n as f32)
    }
    fn plus(self, o: Self) -> Self {
        Px(self.0 + o.0)
    }
    fn minus(self, o: Self) -> Self {
        Px(self.0 - o.0)
    }
    fn times(self, o: Self) -> Self {
        Px(self.0 * o.0)
    }
    fn over(self, o: Self) -> Self {
        Px(self.0 / o.0)
    }
    fn maxv(self, o: Self) -> Self {
        Px(self.0.max(o.0))
    }
    fn minv(self, o: Self) -> Self {
        Px(self.0.min(o.0))
    }
    fn absv(self) -> Self {
        Px(self.0.abs())
    }
    fn sqrtv(self) -> Self {
        Px(self.0.sqrt())
    }
    fn powv(self, e: Self) -> Self {
        Px(self.0.powf(e.0))
    }
    fn lev(self, o: Self) -> bool {
        self.0 <= o.0
    }
    fn ltv(self, o: Self) -> bool {
        self.0 < o.0
    }
    fn eqv(self, o: Self) -> bool {
        self.0 == o.0
    }
    fn floor_offset(self) -> isize {
        self.0.floor() as isize
    }
    fn ceil_count(self) -> usize {
        self.0.ceil() as usize
    }
}

fn image(values: &[f32], shape: &[usize]) -> ImageDyn<Px> {
    ImageDyn {
        data: values.iter().map(|&v| Px(v)).collect(),
        shape: shape.to_vec(),
    }
}

#[test]
fn output_shape_matches_request_rank2() {
    let vals: Vec<f32> = (0..20).map(|v| v as f32).collect();
    let img = image(&vals, &[4, 5]);
    let a = resize_content_adaptive(&img, 2, 3, Px(0.5)).unwrap();
    assert_eq!(a.shape, vec![2, 3]);
    assert_eq!(a.data.len(), 6);
    let c = resize_cubic(&img, 7, 2).unwrap();
    assert_eq!(c.shape, vec![7, 2]);
    assert_eq!(c.data.len(), 14);
}

#[test]
fn output_shape_matches_request_rank3() {
    let vals: Vec<f32> = (0..36).map(|v| v as f32).collect();
    let img = image(&vals, &[3, 4, 3]);
    let a = resize_content_adaptive(&img, 2, 2, Px(0.0)).unwrap();
    assert_eq!(a.shape, vec![2, 2, 3]);
    assert_eq!(a.data.len(), 12);
    let c = resize_cubic(&img, 5, 6).unwrap();
    assert_eq!(c.shape, vec![5, 6, 3]);
    assert_eq!(c.data.len(), 90);
}

#[test]
fn two_channel_image_is_invalid() {
    let vals: Vec<f32> = (0..24).map(|v| v as f32).collect();
    let img = image(&vals, &[3, 4, 2]);
    assert!(matches!(
        resize_content_adaptive(&img, 2, 2, Px(0.0)),
        Err(ResizeError::InvalidInput)
    ));
    assert!(matches!(resize_cubic(&img, 2, 2), Err(ResizeError::InvalidInput)));
}

#[test]
fn zero_target_is_invalid() {
    let vals: Vec<f32> = (0..16).map(|v| v as f32).collect();
    let img = image(&vals, &[4, 4]);
    assert!(matches!(
        resize_content_adaptive(&img, 0, 2, Px(0.0)),
        Err(ResizeError::InvalidInput)
    ));
    assert!(matches!(
        resize_content_adaptive(&img, 2, 0, Px(0.0)),
        Err(ResizeError::InvalidInput)
    ));
    assert!(matches!(resize_cubic(&img, 0, 2), Err(ResizeError::InvalidInput)));
    assert!(matches!(resize_cubic(&img, 2, 0), Err(ResizeError::InvalidInput)));
}

#[test]
fn wrong_rank_is_invalid() {
    let vals: Vec<f32> = (0..16).map(|v| v as f32).collect();
    assert!(matches!(
        resize_cubic(&image(&vals, &[16]), 2, 2),
        Err(ResizeError::InvalidInput)
    ));
    assert!(matches!(
        resize_content_adaptive(&image(&vals, &[2, 2, 2, 2]), 2, 2, Px(0.0)),
        Err(ResizeError::InvalidInput)
    ));
}

#[test]
fn negative_lambda_is_invalid() {
    let vals: Vec<f32> = (0..16).map(|v| v as f32).collect();
    let img = image(&vals, &[4, 4]);
    assert!(matches!(
        resize_content_adaptive(&img, 2, 2, Px(-1.0)),
        Err(ResizeError::InvalidInput)
    ));
    // zero is the smallest accepted exponent
    assert!(resize_content_adaptive(&img, 2, 2, Px(0.0)).is_ok());
}

#[test]
fn patch_range_covers_exact_blocks() {
    assert_eq!(patch_range(0, 4, 2), (0, 2));
    assert_eq!(patch_range(1, 4, 2), (2, 4));
    // fractional patches overlap on the shared cell
    assert_eq!(patch_range(0, 5, 2), (0, 3));
    assert_eq!(patch_range(1, 5, 2), (2, 5));
    // upscaling: each patch is a sub-cell slice
    assert_eq!(patch_range(2, 2, 5), (0, 2));
    assert_eq!(patch_range(4, 2, 5), (1, 2));
}

#[test]
fn clamp_neighbor_replicates_edges() {
    assert_eq!(clamp_neighbor(0, 0, 5), 0);
    assert_eq!(clamp_neighbor(0, 1, 5), 0);
    assert_eq!(clamp_neighbor(0, 2, 5), 1);
    assert_eq!(clamp_neighbor(3, 0, 5), 2);
    assert_eq!(clamp_neighbor(4, 1, 5), 4);
    assert_eq!(clamp_neighbor(4, 2, 5), 4);
}
