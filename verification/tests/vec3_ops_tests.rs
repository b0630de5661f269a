use ray_tracer::scalar::{Scalar, RAW_MAX};
use ray_tracer::vec3::Vec3;

/// The scalar standing for the given decimal value.
fn s(v: f64) -> Scalar {
    Scalar::Fin((v * 100_000_000.0).round() as i64)
}

#[test]
fn base_add() {
    let v = Vec3::from([s(0.0), s(0.1), s(0.2)]);
    let rhs = Vec3::from([s(0.1), s(0.3), s(0.5)]);
    let sum = v.add(rhs);
    assert_eq!(sum, Vec3::from([s(0.1), s(0.4), s(0.7)]));
}

#[test]
fn overflow_add() {
    let v = Vec3::from([s(0.0), s(0.1), Scalar::Fin(RAW_MAX)]);
    let rhs = Vec3::from([s(0.1), s(0.3), s(0.5)]);
    let sum = v.add(rhs);
    assert_eq!(sum, Vec3::from([s(0.1), s(0.4), Scalar::Fin(RAW_MAX)]));
}

#[test]
fn vec3_base_add() {
    let mut v = Vec3::from([s(0.0), s(0.1), s(0.2)]);
    let rhs = Vec3::from([s(0.1), s(0.3), s(0.5)]);
    v.add_assign(rhs);
    assert_eq!(v, Vec3::from([s(0.1), s(0.4), s(0.7)]));
}

#[test]
fn vec3_overflow_add() {
    let mut v = Vec3::from([s(0.0), s(0.1), Scalar::Fin(RAW_MAX)]);
    let rhs = Vec3::from([s(0.1), s(0.3), s(13.5)]);
    v.add_assign(rhs);
    assert_eq!(v, Vec3::from([s(0.1), s(0.4), Scalar::Fin(RAW_MAX)]));
}

#[test]
fn base_sub() {
    let v = Vec3::from([s(0.0), s(1.0), s(0.5)]);
    let rhs = Vec3::from([s(0.1), s(0.3), s(13.5)]);
    let sum = v.sub(rhs);
    assert_eq!(sum, Vec3::from([s(-0.1), s(0.7), s(-13.0)]));
}

#[test]
fn overflow_sub() {
    let v = Vec3::from([s(0.0), s(1.0), Scalar::Fin(-RAW_MAX)]);
    let rhs = Vec3::from([s(0.1), s(0.3), s(13.5)]);
    let sum = v.sub(rhs);
    assert_eq!(sum, Vec3::from([s(-0.1), s(0.7), Scalar::Fin(-RAW_MAX)]));
}

#[test]
fn vec3_base_sub() {
    let mut v = Vec3::from([s(0.0), s(1.0), s(0.5)]);
    let rhs = Vec3::from([s(0.1), s(0.3), s(13.5)]);
    v.sub_assign(rhs);
    assert_eq!(v, Vec3::from([s(-0.1), s(0.7), s(-13.0)]));
}

#[test]
fn vec3_overflow_sub() {
    let mut v = Vec3::from([s(0.0), s(1.0), Scalar::Fin(-RAW_MAX)]);
    let rhs = Vec3::from([s(0.1), s(0.3), s(13.5)]);
    v.sub_assign(rhs);
    assert_eq!(v, Vec3::from([s(-0.1), s(0.7), Scalar::Fin(-RAW_MAX)]));
}

#[test]
fn basic_mult() {
    let v = Vec3::from([s(1.0), s(2.0), s(3.0)]);
    let rhs = Vec3::from([s(2.0), s(0.0), s(3.0)]);
    let res = v.mul(rhs);
    assert_eq!(res, Vec3::from([s(2.0), s(0.0), s(9.0)]));
}

#[test]
fn nan_mult() {
    let v = Vec3::from([Scalar::NegInf, s(0.0), s(0.0)]);
    let rhs = Vec3::from([Scalar::NegInf, Scalar::PosInf, Scalar::NegInf]);
    let res = v.mul(rhs);
    assert_eq!(res.x(), Scalar::PosInf);
    assert!(res.y().is_nan());
    assert!(res.z().is_nan());
}

#[test]
fn scalar_mul() {
    let v = Vec3::from([s(1.0), Scalar::PosInf, Scalar::NegInf]);
    let res = v.scale(s(-2.0));
    assert_eq!(res, Vec3::from([s(-2.0), Scalar::NegInf, Scalar::PosInf]));
}

#[test]
fn scalar_nan_mul() {
    let v = Vec3::from([s(1.0), s(-2.0), s(0.0)]);
    let res = v.scale(Scalar::Nan);
    assert!(res.x().is_nan());
    assert!(res.y().is_nan());
    assert!(res.z().is_nan());
}

#[test]
fn vec3_basic_mult() {
    let mut v = Vec3::from([s(1.0), s(2.0), s(3.0)]);
    let rhs = Vec3::from([s(2.0), s(0.0), s(3.0)]);
    v.mul_assign(rhs);
    assert_eq!(v, Vec3::from([s(2.0), s(0.0), s(9.0)]));
}

#[test]
fn vec3_nan_mult() {
    let mut v = Vec3::from([Scalar::NegInf, s(0.0), s(0.0)]);
    let rhs = Vec3::from([Scalar::NegInf, Scalar::PosInf, Scalar::NegInf]);
    v.mul_assign(rhs);
    assert_eq!(v.x(), Scalar::PosInf);
    assert!(v.y().is_nan());
    assert!(v.z().is_nan());
}

#[test]
fn vec3_scalar_mul() {
    let mut v = Vec3::from([s(1.0), Scalar::PosInf, Scalar::NegInf]);
    v.scale_assign(s(-2.0));
    assert_eq!(v, Vec3::from([s(-2.0), Scalar::NegInf, Scalar::PosInf]));
}

#[test]
fn vec3_scalar_nan_mul() {
    let mut v = Vec3::from([s(1.0), s(-2.0), s(0.0)]);
    v.scale_assign(Scalar::Nan);
    assert!(v.x().is_nan());
    assert!(v.y().is_nan());
    assert!(v.z().is_nan());
}

#[test]
fn basic_div() {
    let v = Vec3::from([s(1.0), s(2.0), s(3.0)]);
    let rhs = Vec3::from([s(2.0), s(0.0), s(-3.0)]);
    let res = v.div(rhs);
    assert_eq!(res.x(), s(0.5));
    assert_eq!(res.y(), Scalar::PosInf);
    assert_eq!(res.z(), s(-1.0));
}

#[test]
fn nan_div() {
    let v = Vec3::from([Scalar::NegInf, s(0.0), Scalar::PosInf]);
    let rhs = Vec3::from([Scalar::NegInf, Scalar::PosInf, Scalar::NegZero]);
    let res = v.div(rhs);
    assert!(res.x().is_nan());
    assert_eq!(res.y(), s(0.0));
    assert_eq!(res.z(), Scalar::NegInf);
}

#[test]
fn scalar_div() {
    let v = Vec3::from([s(1.0), Scalar::PosInf, Scalar::NegInf]);
    let res = v.div_scalar(s(-2.0));
    assert_eq!(res, Vec3::from([s(-0.5), Scalar::NegInf, Scalar::PosInf]));
}

#[test]
fn scalar_nan_div() {
    let v = Vec3::from([s(1.0), Scalar::PosInf, Scalar::NegInf]);
    let res = v.div_scalar(Scalar::Nan);
    assert!(res.x().is_nan());
    assert!(res.y().is_nan());
    assert!(res.z().is_nan());
}

#[test]
fn vec3_basic_div() {
    let mut v = Vec3::from([s(1.0), s(2.0), s(3.0)]);
    let rhs = Vec3::from([s(2.0), s(0.0), s(-3.0)]);
    v.div_assign(rhs);
    assert_eq!(v.x(), s(0.5));
    assert_eq!(v.y(), Scalar::PosInf);
    assert_eq!(v.z(), s(-1.0));
}

#[test]
fn vec3_nan_div() {
    let mut v = Vec3::from([Scalar::NegInf, s(0.0), Scalar::PosInf]);
    let rhs = Vec3::from([Scalar::NegInf, Scalar::PosInf, Scalar::NegZero]);
    v.div_assign(rhs);
    assert!(v.x().is_nan());
    assert_eq!(v.y(), s(0.0));
    assert_eq!(v.z(), Scalar::NegInf);
}

#[test]
fn vec3_scalar_div() {
    let mut v = Vec3::from([s(1.0), Scalar::PosInf, Scalar::NegInf]);
    v.div_scalar_assign(s(-2.0));
    assert_eq!(v, Vec3::from([s(-0.5), Scalar::NegInf, Scalar::PosInf]));
}

#[test]
fn vec3_scalar_nan_div() {
    let mut v = Vec3::from([s(1.0), Scalar::PosInf, Scalar::NegInf]);
    v.div_scalar_assign(Scalar::Nan);
    assert!(v.x().is_nan());
    assert!(v.y().is_nan());
    assert!(v.z().is_nan());
}
