use pepedpid::contributions;
use pepedpid::cubic_kernel;
use pepedpid::dpid_resample_gray;
use pepedpid::dpid_resample_rgb;
use pepedpid::imresize2_mut;
use pepedpid::imresize3_mut;
use pepedpid::mirror_index;
use pepedpid::Image2;
use pepedpid::Image3;
use pepedpid::Sample;

#[derive(Clone, Copy, PartialEq, Debug)]
struct Px(f32);

impl Sample for Px {
    fn spec_zero() -> Self {
        Px(0.0)
    }
    fn spec_one() -> Self {
        Px(1.0)
    }
    fn spec_tiny() -> Self {
        Px(f32::EPSILON)
    }
    fn spec_from_count(n: usize) -> Self {
        Px(n as f32)
    }
    fn spec_from_offset(n: isize) -> Self {
        Px(n as f32)
    }
    fn spec_plus(self, o: Self) -> Self {
        Px(self.0 + o.0)
    }
    fn spec_minus(self, o: Self) -> Self {
        Px(self.0 - o.0)
    }
    fn spec_times(self, o: Self) -> Self {
        Px(self.0 * o.0)
    }
    fn spec_over(self, o: Self) -> Self {
        Px(self.0 / o.0)
    }
    fn spec_maxv(self, o: Self) -> Self {
        Px(self.0.max(o.0))
    }
    fn spec_minv(self, o: Self) -> Self {
        Px(self.0.min(o.0))
    }
    fn spec_absv(self) -> Self {
        Px(self.0.abs())
    }
    fn spec_sqrtv(self) -> Self {
        Px(self.0.sqrt())
    }
    fn spec_powv(self, e: Self) -> Self {
        Px(self.0.powf(e.0))
    }
    fn spec_lev(self, o: Self) -> bool {
        self.0 <= o.0
    }
    fn spec_ltv(self, o: Self) -> bool {
        self.0 < o.0
    }
    fn spec_eqv(self, o: Self) -> bool {
        self.0 == o.0
    }
    fn spec_floor_offset(self) -> isize {
        self.0.floor() as isize
    }
    fn spec_ceil_count(self) -> usize {
        self.0.ceil() as usize
    }
    fn zero() -> Self {
        Px(0.0)
    }
    fn one() -> Self {
        Px(1.0)
    }
    fn tiny() -> Self {
        Px(f32::EPSILON)
    }
    fn from_count(n: usize) -> Self {
        Px(n as f32)
    }
    fn from_offset(n: isize) -> Self {
        Px(n as f32)
    }
    fn plus(self, o: Self) -> Self {
        Px(self.0 + o.0)
    }
    fn minus(self, o: Self) -> Self {
        Px(self.0 - o.0)
    }
    fn times(self, o: Self) -> Self {
        Px(self.0 * o.0)
    }
    fn over(self, o: Self) -> Self {
        Px(self.0 / o.0)
    }
    fn maxv(self, o: Self) -> Self {
        Px(self.0.max(o.0))
    }
    fn minv(self, o: Self) -> Self {
        Px(self.0.min(o.0))
    }
    fn absv(self) -> Self {
        Px(self.0.abs())
    }
    fn sqrtv(self) -> Self {
        Px(self.0.sqrt())
    }
    fn powv(self, e: Self) -> Self {
        Px(self.0.powf(e.0))
    }
    fn lev(self, o: Self) -> bool {
        self.0 <= o.0
    }
    fn ltv(self, o: Self) -> bool {
        self.0 < o.0
    }
    fn eqv(self, o: Self) -> bool {
        self.0 == o.0
    }
    fn floor_offset(self) -> isize {
        self.0.floor() as isize
    }
    fn ceil_count(self) -> usize {
        self.0.ceil() as usize
    }
}

fn gray(values: &[f32], h: usize, w: usize) -> Image2<Px> {
    assert_eq!(values.len(), h * w);
    Image2 { data: values.iter().map(|&v| Px(v)).collect(), height: h, width: w }
}

fn rgb(values: &[f32], h: usize, w: usize) -> Image3<Px> {
    assert_eq!(values.len(), h * w * 3);
    Image3 { data: values.iter().map(|&v| Px(v)).collect(), height: h, width: w }
}

fn raw(img: &[Px]) -> Vec<f32> {
    img.iter().map(|p| p.0).collect()
}

fn close(a: f32, b: f32) -> bool {
    (a - b).abs() < 1e-5
}

#[test]
fn lambda_zero_is_box_average_gray() {
    let vals: Vec<f32> = (0..16).map(|v| v as f32).collect();
    let img = gray(&vals, 4, 4);
    let out = dpid_resample_gray(&img, 2, 2, Px(0.0));
    assert_eq!(out.height, 2);
    assert_eq!(out.width, 2);
    // each output cell is the plain average of its 2x2 input block
    assert_eq!(raw(&out.data), vec![2.5, 4.5, 10.5, 12.5]);
}

#[test]
fn lambda_zero_is_box_average_rgb() {
    let vals: Vec<f32> = (0..12).map(|v| v as f32).collect();
    let img = rgb(&vals, 2, 2);
    let out = dpid_resample_rgb(&img, 1, 1, Px(0.0));
    assert_eq!(out.height, 1);
    assert_eq!(out.width, 1);
    assert_eq!(raw(&out.data), vec![4.5, 5.5, 6.5]);
}

#[test]
fn mirror_reflection_negative_offset() {
    // offset -1 reflects to index 0, not a clamp artifact
    assert_eq!(mirror_index(-1, 4), 0);
    assert_eq!(mirror_index(-2, 4), 1);
    assert_eq!(mirror_index(-4, 4), 3);
}

#[test]
fn mirror_reflection_past_end() {
    assert_eq!(mirror_index(4, 4), 3);
    assert_eq!(mirror_index(5, 4), 2);
    assert_eq!(mirror_index(7, 4), 0);
    // tiling with period 2 * len
    assert_eq!(mirror_index(8, 4), 0);
    assert_eq!(mirror_index(-5, 4), 3);
}

#[test]
fn mirror_reflection_in_range_is_identity() {
    for i in 0..4 {
        assert_eq!(mirror_index(i as i128, 4), i);
    }
}

#[test]
fn contribution_taps_use_reflection() {
    // 4 source samples onto 3 outputs: the widened kernel of the first
    // output reaches below the axis start and must resolve there to the
    // first source samples, by reflection
    let table = contributions::<Px>(4, 3, 4);
    assert_eq!(table.indices.len(), 3);
    assert_eq!(table.weights.len(), 3);
    for row in table.indices.iter() {
        assert_eq!(row.len(), table.width);
        for &idx in row.iter() {
            assert!(idx < 4);
        }
    }
    assert!(table.indices[0].contains(&0));
}

#[test]
fn contribution_weights_sum_to_one_downscale() {
    let table = contributions::<Px>(10, 4, 4);
    assert_eq!(table.weights.len(), 4);
    for row in table.weights.iter() {
        let sum: f32 = row.iter().map(|w| w.0).sum();
        assert!(close(sum, 1.0), "row sum {sum}");
    }
}

#[test]
fn contribution_weights_sum_to_one_upscale() {
    let table = contributions::<Px>(4, 9, 4);
    assert_eq!(table.weights.len(), 9);
    for row in table.weights.iter() {
        let sum: f32 = row.iter().map(|w| w.0).sum();
        assert!(close(sum, 1.0), "row sum {sum}");
    }
}

#[test]
fn contribution_table_exact_halving() {
    // 4 source cells onto 2 outputs: every intermediate value is an exact
    // dyadic rational, so the table is reproduced bit for bit
    let table = contributions::<Px>(4, 2, 4);
    assert_eq!(table.width, 8);
    let expected_w = vec![
        -0.01171875f32,
        -0.03515625,
        0.11328125,
        0.43359375,
        0.43359375,
        0.11328125,
        -0.03515625,
        -0.01171875,
    ];
    assert_eq!(raw(&table.weights[0]), expected_w);
    assert_eq!(raw(&table.weights[1]), expected_w);
    assert_eq!(table.indices[0], vec![2, 1, 0, 0, 1, 2, 3, 3]);
    assert_eq!(table.indices[1], vec![0, 0, 1, 2, 3, 3, 2, 1]);
}

#[test]
fn cubic_halving_exact_values() {
    let img = gray(&[1.0, 2.0, 3.0, 4.0], 4, 1);
    let mut out = Image2 { data: Vec::new(), height: 0, width: 0 };
    imresize2_mut(&img, &mut out, 2, 1);
    assert_eq!(raw(&out.data), vec![1.4609375, 3.5390625]);
}

#[test]
fn cubic_kernel_values() {
    assert_eq!(cubic_kernel(Px(0.0)).0, 1.0);
    assert_eq!(cubic_kernel(Px(1.0)).0, 0.0);
    assert_eq!(cubic_kernel(Px(-1.0)).0, 0.0);
    assert_eq!(cubic_kernel(Px(2.0)).0, 0.0);
    assert_eq!(cubic_kernel(Px(3.0)).0, 0.0);
    assert_eq!(cubic_kernel(Px(0.5)).0, 0.5625);
    assert_eq!(cubic_kernel(Px(-0.5)).0, 0.5625);
    assert_eq!(cubic_kernel(Px(1.5)).0, -0.0625);
}

#[test]
fn cubic_same_size_reproduces_input() {
    let vals: Vec<f32> = (0..35).map(|v| (v as f32) * 0.37 - 3.1).collect();
    let img = gray(&vals, 5, 7);
    let mut out = Image2 { data: Vec::new(), height: 0, width: 0 };
    imresize2_mut(&img, &mut out, 5, 7);
    assert_eq!(out.height, 5);
    assert_eq!(out.width, 7);
    // at scale 1 the table collapses to a unit tap: bit-identical output
    assert_eq!(raw(&out.data), vals);
}

#[test]
fn cubic_same_size_reproduces_input_rgb() {
    let vals: Vec<f32> = (0..24).map(|v| (v as f32) * 1.25 + 0.5).collect();
    let img = rgb(&vals, 2, 4);
    let mut out = Image3 { data: Vec::new(), height: 0, width: 0 };
    imresize3_mut(&img, &mut out, 2, 4);
    assert_eq!(raw(&out.data), vals);
}

#[test]
fn single_resize_is_deterministic() {
    let vals: Vec<f32> = (0..60).map(|v| ((v * 31 + 7) % 17) as f32 * 0.3).collect();
    let img = rgb(&vals, 4, 5);
    let a = dpid_resample_rgb(&img, 2, 3, Px(0.7));
    let b = dpid_resample_rgb(&img, 2, 3, Px(0.7));
    assert_eq!(raw(&a.data), raw(&b.data));
    let mut c = Image3 { data: Vec::new(), height: 0, width: 0 };
    let mut d = Image3 { data: Vec::new(), height: 0, width: 0 };
    imresize3_mut(&img, &mut c, 3, 2);
    imresize3_mut(&img, &mut d, 3, 2);
    assert_eq!(raw(&c.data), raw(&d.data));
}

#[test]
fn one_pixel_gives_constant_output_dpid() {
    let img = gray(&[2.0], 1, 1);
    for lambda in [0.0f32, 2.0] {
        let out = dpid_resample_gray(&img, 3, 5, Px(lambda));
        assert_eq!(out.data.len(), 15);
        for p in out.data.iter() {
            assert!(close(p.0, 2.0), "got {}", p.0);
        }
    }
    let img3 = rgb(&[0.25, 0.5, 0.75], 1, 1);
    let out3 = dpid_resample_rgb(&img3, 2, 2, Px(1.5));
    for px in out3.data.chunks(3) {
        assert!(close(px[0].0, 0.25));
        assert!(close(px[1].0, 0.5));
        assert!(close(px[2].0, 0.75));
    }
}

#[test]
fn one_pixel_gives_constant_output_cubic() {
    let img = gray(&[2.0], 1, 1);
    let mut out = Image2 { data: Vec::new(), height: 0, width: 0 };
    imresize2_mut(&img, &mut out, 4, 3);
    assert_eq!(out.data.len(), 12);
    for p in out.data.iter() {
        assert!(close(p.0, 2.0), "got {}", p.0);
    }
}

#[test]
fn downscale_then_upscale_keeps_shape() {
    let vals: Vec<f32> = (0..48).map(|v| v as f32).collect();
    let img = gray(&vals, 6, 8);
    let down = dpid_resample_gray(&img, 3, 4, Px(1.0));
    assert_eq!((down.height, down.width, down.data.len()), (3, 4, 12));
    let mut up = Image2 { data: Vec::new(), height: 0, width: 0 };
    imresize2_mut(&gray(&raw(&down.data), 3, 4), &mut up, 6, 8);
    assert_eq!((up.height, up.width, up.data.len()), (6, 8, 48));
}
