//! Fixed-point arithmetic and the affine fold.

use reaet::fx::clamp_unit;
use reaet::fx::fx_mul_exec;
use reaet::fx::opacity_mul;
use reaet::fx::remap_time;
use reaet::mat::Mat4;
use reaet::mat::TransformOp;
use reaet::mat::apply_op;
use reaet::mat::fold_ops;

#[test]
fn fixed_point_products_truncate_toward_zero() {
    assert_eq!(fx_mul_exec(1500, 2000), Some(3000));
    assert_eq!(fx_mul_exec(1, 1), Some(0), "a millionth truncates away");
    assert_eq!(fx_mul_exec(-1500, 2000), Some(-3000));
    assert_eq!(fx_mul_exec(-1, 999), Some(0), "truncation is symmetric about zero");
    assert_eq!(fx_mul_exec(i64::MAX, 2000), None, "an unrepresentable product is reported");
}

#[test]
fn opacity_multiplication_clamps_its_factor() {
    assert_eq!(opacity_mul(1000, 500), 500);
    assert_eq!(opacity_mul(500, 2_000_000), 500, "factors clamp into the unit interval");
    assert_eq!(opacity_mul(500, -3), 0);
    assert_eq!(clamp_unit(1001), 1000);
    assert_eq!(clamp_unit(-1), 0);
    assert_eq!(clamp_unit(999), 999);
}

#[test]
fn time_remap_is_exact() {
    // (25000 - 10000) * 2.0 + 3000
    assert_eq!(remap_time(25_000, 10_000, 2_000, 3_000), Some(33_000));
    assert_eq!(remap_time(0, 0, 1000, 0), Some(0));
    assert_eq!(remap_time(10, 20, 1000, 0), Some(-10));
    assert_eq!(remap_time(i64::MAX, i64::MIN, i64::MAX, 0), None, "overflow is reported");
}

#[test]
fn translate_scale_anchor_fold_exactly() {
    let ops = vec![
        TransformOp::Translate { x: 5_000, y: 7_000, z: 0 },
        TransformOp::ScaleBy { x: 2_000, y: 1_000, z: 1_000 },
        TransformOp::Anchor { x: 1_000, y: 0, z: 0 },
    ];
    let m = fold_ops(Mat4::identity(), &ops).unwrap();
    assert_eq!(m.x.x, 2_000);
    assert_eq!(m.w.x, 3_000, "translate five, then anchor one under a double scale");
    assert_eq!(m.w.y, 7_000);
    assert_eq!(m.w.w, 1_000);
}

#[test]
fn translation_depth_is_negated() {
    let ops = vec![TransformOp::Translate { x: 0, y: 0, z: 4_000 }];
    let m = fold_ops(Mat4::identity(), &ops).unwrap();
    assert_eq!(m.w.z, -4_000);
}

#[test]
fn rotations_have_no_affine_fold() {
    assert!(apply_op(Mat4::identity(), TransformOp::RotateX { deg: 90_000 }).is_none());
    assert!(apply_op(Mat4::identity(), TransformOp::RotateY { deg: 1 }).is_none());
    assert!(apply_op(Mat4::identity(), TransformOp::RotateZ { deg: 45_000 }).is_none());
}

#[test]
fn fold_reports_unrepresentable_entries() {
    let ops = vec![
        TransformOp::ScaleBy { x: i64::MAX, y: 1000, z: 1000 },
        TransformOp::ScaleBy { x: i64::MAX, y: 1000, z: 1000 },
    ];
    assert!(fold_ops(Mat4::identity(), &ops).is_none());
}
