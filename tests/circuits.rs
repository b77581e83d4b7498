use accum_dot::acc_conv::AccumConvChip;
use accum_dot::acc_dot::AccumDotChip;
use accum_dot::field::Fe;
use accum_dot::input::{weight_of_slot, RandomInputGenerator};
use accum_dot::one_gate_cnn::NormalConvChip;
use accum_dot::region::{AssignmentError, Region};
use accum_dot::schema::{ConfigurationError, ConstraintSystem, Gate};
use accum_dot::value::Value;

fn fe(x: u64) -> Fe {
    Fe::from_u64(x)
}

fn fes(xs: &[u64]) -> Vec<Fe> {
    xs.iter().map(|&x| fe(x)).collect()
}

fn known(region: &Region, c: usize, r: usize) -> Option<[u8; 32]> {
    match region.get_cell(c, r) {
        Some(Value::Known(x)) => Some(x.bytes),
        _ => None,
    }
}

fn sliding(image: &[Fe], kernel: &[Fe], off: usize) -> Fe {
    let mut acc = Fe::zero();
    for j in 0..kernel.len() {
        acc = acc.add(&image[off + j].mul(&kernel[j]));
    }
    acc
}

#[test]
fn field_arithmetic_is_modular() {
    assert_eq!(fe(2).add(&fe(3)).bytes, fe(5).bytes);
    assert_eq!(fe(2).mul(&fe(3)).bytes, fe(6).bytes);
    assert_eq!(Fe::from_i64(-3).add(&fe(3)).bytes, Fe::zero().bytes);
    assert_eq!(Fe::from_i64(4).bytes, fe(4).bytes);
    let mut b = [0u8; 32];
    b[0] = 2;
    b[1] = 1;
    assert_eq!(fe(258).bytes, b);
    // p - 1 plus 1 wraps to zero.
    let minus_one = Fe::from_i64(-1);
    assert_eq!(minus_one.add(&fe(1)).bytes, Fe::zero().bytes);
    assert_eq!(minus_one.mul(&minus_one).bytes, fe(1).bytes);
}

#[test]
fn dot_product_of_small_vectors() {
    let mut cs = ConstraintSystem::new();
    let cfg = AccumDotChip::configure(&mut cs, 3).unwrap();
    assert_eq!(cs.num_advice, 3);
    assert_eq!(cs.num_selectors, 1);
    assert_eq!(cs.gates.len(), 1);
    let mut region = Region::new(cs.num_advice, cs.num_selectors, 8);
    let v = fes(&[1, 2, 3]);
    assert_eq!(cfg.assign(&mut region, &v, &v), Ok(()));
    assert_eq!(known(&region, cfg.accumulator, 3), Some(fe(14).bytes));
    assert_eq!(known(&region, cfg.accumulator, 0), Some(fe(0).bytes));
    assert_eq!(known(&region, cfg.accumulator, 1), Some(fe(1).bytes));
    assert_eq!(known(&region, cfg.accumulator, 2), Some(fe(5).bytes));
    assert_eq!(known(&region, cfg.image, 1), Some(fe(1).bytes));
    assert_eq!(known(&region, cfg.image, 0), None);
    assert!(!region.is_enabled(cfg.seldot, 0));
    for r in 1..=3 {
        assert!(region.is_enabled(cfg.seldot, r));
    }
    assert!(!region.is_enabled(cfg.seldot, 4));
}

#[test]
fn dot_product_matches_field_sum() {
    let g = RandomInputGenerator::new(16, 16);
    let mut cs = ConstraintSystem::new();
    let cfg = AccumDotChip::configure(&mut cs, 16).unwrap();
    let mut region = Region::new(cs.num_advice, cs.num_selectors, 32);
    assert_eq!(cfg.assign(&mut region, &g.one_dimage, &g.one_dkernel), Ok(()));
    let expected = sliding(&g.one_dimage, &g.one_dkernel, 0);
    assert_eq!(known(&region, cfg.accumulator, 16), Some(expected.bytes));
}

#[test]
fn window_gate_outputs() {
    let mut cs = ConstraintSystem::new();
    let cfg = NormalConvChip::configure(&mut cs, 4, 2).unwrap();
    match cs.gates[0] {
        Gate::Window { image_len, kernel_len, .. } => {
            assert_eq!(image_len, 4);
            assert_eq!(kernel_len, 2);
        }
        _ => panic!("expected a window gate"),
    }
    let mut region = Region::new(cs.num_advice, cs.num_selectors, 8);
    assert_eq!(cfg.assign(&mut region, &fes(&[2, 3, 5, 7]), &fes(&[1, 1])), Ok(()));
    assert_eq!(known(&region, cfg.conv, 0), Some(fe(5).bytes));
    assert_eq!(known(&region, cfg.conv, 1), Some(fe(8).bytes));
    assert_eq!(known(&region, cfg.conv, 2), Some(fe(12).bytes));
    assert_eq!(known(&region, cfg.conv, 3), None);
    assert!(region.is_enabled(cfg.seldot, 0));
    assert!(!region.is_enabled(cfg.seldot, 1));
}

#[test]
fn recurrence_convolution_outputs() {
    let mut cs = ConstraintSystem::new();
    let cfg = AccumConvChip::configure(&mut cs, 4, 2).unwrap();
    assert_eq!(cfg.kernel.len(), 3);
    assert_eq!(cs.num_advice, 7);
    assert_eq!(cs.num_selectors, 3);
    assert_eq!(cs.gates.len(), 3);
    let mut region = Region::new(cs.num_advice, cs.num_selectors, 8);
    assert_eq!(cfg.assign(&mut region, &fes(&[2, 3, 5, 7]), &fes(&[1, 1])), Ok(()));
    let expected = [5u64, 8, 12];
    for k in 0..3 {
        assert_eq!(known(&region, cfg.accumconv[k], k + 2), Some(fe(expected[k]).bytes));
        assert_eq!(known(&region, cfg.accumconv[k], k), Some(fe(0).bytes));
        assert!(region.is_enabled(cfg.seldot[k], k + 1));
        assert!(region.is_enabled(cfg.seldot[k], k + 2));
        assert!(!region.is_enabled(cfg.seldot[k], k));
    }
}

#[test]
fn designs_agree_on_random_inputs() {
    let g = RandomInputGenerator::new(12, 4);
    let mut cs1 = ConstraintSystem::new();
    let ac = AccumConvChip::configure(&mut cs1, 12, 4).unwrap();
    let mut r1 = Region::new(cs1.num_advice, cs1.num_selectors, 16);
    assert_eq!(ac.assign(&mut r1, &g.one_dimage, &g.one_dkernel), Ok(()));
    let mut cs2 = ConstraintSystem::new();
    let nc = NormalConvChip::configure(&mut cs2, 12, 4).unwrap();
    let mut r2 = Region::new(cs2.num_advice, cs2.num_selectors, 16);
    assert_eq!(nc.assign(&mut r2, &g.one_dimage, &g.one_dkernel), Ok(()));
    for k in 0..9 {
        let a = known(&r1, ac.accumconv[k], k + 4);
        assert!(a.is_some());
        assert_eq!(a, known(&r2, nc.conv, k));
        assert_eq!(a, Some(sliding(&g.one_dimage, &g.one_dkernel, k).bytes));
    }
}

#[test]
fn assigning_twice_gives_identical_regions() {
    let g = RandomInputGenerator::new(10, 3);
    let mut cs = ConstraintSystem::new();
    let nc = NormalConvChip::configure(&mut cs, 10, 3).unwrap();
    let ac = AccumConvChip::configure(&mut cs, 10, 3).unwrap();
    let mut r1 = Region::new(cs.num_advice, cs.num_selectors, 12);
    let mut r2 = Region::new(cs.num_advice, cs.num_selectors, 12);
    for region in [&mut r1, &mut r2] {
        assert_eq!(nc.assign(region, &g.one_dimage, &g.one_dkernel), Ok(()));
        assert_eq!(ac.assign(region, &g.one_dimage, &g.one_dkernel), Ok(()));
    }
    for c in 0..cs.num_advice {
        for r in 0..12 {
            assert_eq!(known(&r1, c, r), known(&r2, c, r));
        }
    }
    for s in 0..cs.num_selectors {
        for r in 0..12 {
            assert_eq!(r1.is_enabled(s, r), r2.is_enabled(s, r));
        }
    }
}

#[test]
fn full_length_kernel_is_a_dot_product() {
    let g = RandomInputGenerator::new(8, 8);
    let mut cs = ConstraintSystem::new();
    let ac = AccumConvChip::configure(&mut cs, 8, 8).unwrap();
    assert_eq!(ac.kernel.len(), 1);
    let dc = AccumDotChip::configure(&mut cs, 8).unwrap();
    let mut region = Region::new(cs.num_advice, cs.num_selectors, 10);
    assert_eq!(ac.assign(&mut region, &g.one_dimage, &g.one_dkernel), Ok(()));
    assert_eq!(dc.assign(&mut region, &g.one_dimage, &g.one_dkernel), Ok(()));
    assert_eq!(known(&region, ac.accumconv[0], 8), known(&region, dc.accumulator, 8));
    assert!(known(&region, dc.accumulator, 8).is_some());
}

#[test]
fn unit_kernel_scales_the_image() {
    let image = fes(&[4, 9, 1, 0, 6]);
    let kernel = vec![Fe::from_i64(-2)];
    let mut cs = ConstraintSystem::new();
    let nc = NormalConvChip::configure(&mut cs, 5, 1).unwrap();
    let mut region = Region::new(cs.num_advice, cs.num_selectors, 5);
    assert_eq!(nc.assign(&mut region, &image, &kernel), Ok(()));
    for i in 0..5 {
        assert_eq!(known(&region, nc.conv, i), Some(image[i].mul(&kernel[0]).bytes));
    }
    assert_eq!(known(&region, nc.conv, 0), Some(Fe::from_i64(-8).bytes));
}

#[test]
fn kernel_longer_than_image_is_refused() {
    let mut cs = ConstraintSystem::new();
    assert_eq!(
        AccumConvChip::configure(&mut cs, 3, 5).err(),
        Some(ConfigurationError::KernelLongerThanImage)
    );
    assert_eq!(
        NormalConvChip::configure(&mut cs, 3, 5).err(),
        Some(ConfigurationError::KernelLongerThanImage)
    );
    assert_eq!(cs.num_advice, 0);
    assert_eq!(cs.num_selectors, 0);
    assert_eq!(cs.gates.len(), 0);
}

#[test]
fn empty_image_is_refused() {
    let mut cs = ConstraintSystem::new();
    assert_eq!(AccumDotChip::configure(&mut cs, 0).err(), Some(ConfigurationError::EmptyImage));
    assert_eq!(AccumConvChip::configure(&mut cs, 0, 0).err(), Some(ConfigurationError::EmptyImage));
    assert_eq!(NormalConvChip::configure(&mut cs, 0, 0).err(), Some(ConfigurationError::EmptyImage));
    assert_eq!(cs.gates.len(), 0);
}

#[test]
fn wrong_input_length_is_refused() {
    let mut cs = ConstraintSystem::new();
    let dc = AccumDotChip::configure(&mut cs, 3).unwrap();
    let nc = NormalConvChip::configure(&mut cs, 4, 2).unwrap();
    let ac = AccumConvChip::configure(&mut cs, 4, 2).unwrap();
    let mut region = Region::new(cs.num_advice, cs.num_selectors, 8);
    assert_eq!(dc.assign(&mut region, &fes(&[1, 2]), &fes(&[1, 2, 3])), Err(AssignmentError::ShapeMismatch));
    assert_eq!(nc.assign(&mut region, &fes(&[1, 2, 3, 4]), &fes(&[1])), Err(AssignmentError::ShapeMismatch));
    assert_eq!(ac.assign(&mut region, &fes(&[1, 2, 3]), &fes(&[1, 2])), Err(AssignmentError::ShapeMismatch));
    assert_eq!(known(&region, dc.image, 1), None);
}

#[test]
fn second_assignment_into_one_region_is_refused() {
    let mut cs = ConstraintSystem::new();
    let nc = NormalConvChip::configure(&mut cs, 4, 2).unwrap();
    let mut region = Region::new(cs.num_advice, cs.num_selectors, 8);
    let image = fes(&[2, 3, 5, 7]);
    let kernel = fes(&[1, 1]);
    assert_eq!(nc.assign(&mut region, &image, &kernel), Ok(()));
    assert_eq!(nc.assign(&mut region, &image, &kernel), Err(AssignmentError::CellRejected));
    assert_eq!(known(&region, nc.conv, 2), Some(fe(12).bytes));
}

#[test]
fn too_small_region_is_refused() {
    let mut cs = ConstraintSystem::new();
    let dc = AccumDotChip::configure(&mut cs, 4).unwrap();
    let ac = AccumConvChip::configure(&mut cs, 4, 2).unwrap();
    let mut region = Region::new(cs.num_advice, cs.num_selectors, 4);
    let v = fes(&[1, 2, 3, 4]);
    assert_eq!(dc.assign(&mut region, &v, &v), Err(AssignmentError::CellRejected));
    assert_eq!(ac.assign(&mut region, &v, &fes(&[1, 1])), Err(AssignmentError::CellRejected));
    assert_eq!(known(&region, dc.image, 1), None);
}

#[test]
fn region_writes_are_write_once() {
    let mut region = Region::new(2, 1, 3);
    assert_eq!(region.assign_advice(1, 2, Value::Known(fe(9))), Ok(()));
    assert_eq!(region.assign_advice(1, 2, Value::Known(fe(9))), Err(AssignmentError::CellRejected));
    assert_eq!(region.assign_advice(2, 0, Value::Unknown), Err(AssignmentError::CellRejected));
    assert_eq!(region.assign_advice(0, 0, Value::Unknown), Ok(()));
    assert!(matches!(region.get_cell(0, 0), Some(Value::Unknown)));
    assert_eq!(region.enable_selector(0, 1), Ok(()));
    assert_eq!(region.enable_selector(0, 1), Err(AssignmentError::CellRejected));
    assert_eq!(region.enable_selector(0, 3), Err(AssignmentError::CellRejected));
}

#[test]
fn unknown_values_propagate() {
    let k = Value::Known(fe(3));
    assert!(matches!(k.add(&Value::Unknown), Value::Unknown));
    assert!(matches!(Value::Unknown.mul(&k), Value::Unknown));
    match k.mul(&Value::Known(fe(4))) {
        Value::Known(x) => assert_eq!(x.bytes, fe(12).bytes),
        Value::Unknown => panic!("product of known values is known"),
    }
}

#[test]
fn inputs_from_samples_handle_signs() {
    let g = RandomInputGenerator::from_samples(&vec![0, 255, 7], &vec![-5, 0, 5]);
    assert_eq!(g.one_dimage[1].bytes, fe(255).bytes);
    assert_eq!(g.one_dkernel[0].add(&fe(5)).bytes, Fe::zero().bytes);
    assert_eq!(g.one_dkernel[1].bytes, Fe::zero().bytes);
    assert_eq!(g.one_dkernel[2].bytes, fe(5).bytes);
}

#[test]
fn random_inputs_have_the_requested_shape() {
    let g = RandomInputGenerator::new(20, 6);
    assert_eq!(g.one_dimage.len(), 20);
    assert_eq!(g.one_dkernel.len(), 6);
    for x in &g.one_dimage {
        assert!(x.bytes[1..].iter().all(|&b| b == 0));
    }
    let small: Vec<[u8; 32]> = (-5..=5).map(|w| Fe::from_i64(w).bytes).collect();
    for w in &g.one_dkernel {
        assert!(small.contains(&w.bytes));
    }
}

#[test]
fn slots_round_to_weights() {
    assert_eq!(weight_of_slot(0), -5);
    assert_eq!(weight_of_slot(1), -4);
    assert_eq!(weight_of_slot(2), -4);
    assert_eq!(weight_of_slot(10), 0);
    assert_eq!(weight_of_slot(18), 4);
    assert_eq!(weight_of_slot(19), 5);
}
