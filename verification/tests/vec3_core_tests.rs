use ray_tracer::scalar::Scalar;
use ray_tracer::vec3::Vec3;

/// The scalar standing for the given decimal value.
fn s(v: f64) -> Scalar {
    Scalar::Fin((v * 100_000_000.0).round() as i64)
}

#[test]
fn new_xyz_tests() {
    let v = Vec3::new(s(1.0), s(2.2), s(3.3));

    assert_eq!(v.x(), s(1.0));
    assert_eq!(v.y(), s(2.2));
    assert_eq!(v.z(), s(3.3));
}

#[test]
fn cross_product() {
    let v = Vec3::from([s(1.0), s(2.0), s(3.0)]);
    let rhs = Vec3::from([s(4.0), s(5.0), s(6.0)]);
    let cross = v.cross(&rhs);
    assert_eq!(cross, Vec3::from([s(-3.0), s(6.0), s(-3.0)]));
}

#[test]
fn length_tests() {
    let v = Vec3::from([s(0.0), s(-3.0), s(4.0)]);
    assert_eq!(v.length_squared(), s(25.0));
    assert_eq!(v.length(), s(5.0));
}

#[test]
fn unit_vector() {
    let v = Vec3::from([s(0.0), s(-3.0), s(4.0)]);
    assert_eq!(v.unit_vector(), Vec3::from([s(0.0), s(-0.6), s(0.8)]));
}

#[test]
fn dot_product() {
    let v1 = Vec3::new(s(1.0), s(2.0), s(5.0));
    let v2 = Vec3::new(s(0.0), s(-1.0), s(0.5));

    assert_eq!(v1.dot(&v2), s(0.5));
}

#[test]
fn random_vec() {
    let rv = Vec3::random();
    assert!(s(-1e10).le(rv.x()));
    assert!(rv.x().le(s(1e10)));
    assert!(s(-1e10).le(rv.y()));
    assert!(rv.y().le(s(1e10)));
    assert!(s(-1e10).le(rv.z()));
    assert!(rv.z().le(s(1e10)));
}

#[test]
fn random_range() {
    let hi = Scalar::Fin(ray_tracer::scalar::RAW_MAX);
    let rv = Vec3::random_range(s(0.0), hi);
    assert!(s(0.0).le(rv.x()));
    assert!(rv.x().le(hi));
    assert!(s(0.0).le(rv.y()));
    assert!(rv.y().le(hi));
    assert!(s(0.0).le(rv.z()));
    assert!(rv.z().le(hi));
}

#[test]
fn random_unit_sphere() {
    let rs = Vec3::random_unit_sphere();
    assert!(s(-1.0).le(rs.x()));
    assert!(rs.x().le(s(1.0)));
    assert!(s(-1.0).le(rs.y()));
    assert!(rs.y().le(s(1.0)));
    assert!(s(-1.0).le(rs.z()));
    assert!(rs.z().le(s(1.0)));
}

#[test]
fn random_unit_vec() {
    let ru = Vec3::random_unit_vec();
    // forgive mistakes up to 0.000001
    assert!(ru.length().add(s(0.000001)).ge(s(1.0)));
}

#[test]
fn random_on_hemisphere() {
    let normal = Vec3::new(s(0.0), s(1.0), s(0.0));
    let v = Vec3::random_on_hemisphere(normal);
    assert!(v.dot(&normal).ge(s(0.0)));
    assert!(v.length_squared().lt(s(1.0)));
}

#[test]
fn reflect() {
    let v = Vec3::new(s(3.0), s(4.0), s(0.0));
    let surf = Vec3::new(s(0.0), s(1.0), s(0.0));
    assert_eq!(v.reflect(surf), Vec3::from([s(3.0), s(-4.0), s(0.0)]));
}

#[test]
fn reflect_twice_restores() {
    let v = Vec3::new(s(3.0), s(4.0), s(0.0));
    let surf = Vec3::new(s(0.0), s(1.0), s(0.0));
    assert_eq!(v.reflect(surf).reflect(surf), v);
}

#[test]
fn refract() {
    let v = Vec3::new(s(1.0), s(-1.0), s(0.0));
    let normal = Vec3::new(s(0.0), s(1.0), s(0.0));
    let refracted = v.refract(normal, s(0.66));
    assert_eq!(refracted.x(), s(0.660));
    assert!(
        refracted.y().le(s(-0.751)),
        "got y = {:?} instead of approx -0.751",
        refracted.y()
    );
    assert_eq!(refracted.z(), s(0.0));
}

#[test]
fn default_test() {
    let v = Vec3::default();
    assert_eq!(v, Vec3::from([s(0.0), s(0.0), s(0.0)]));
}

#[test]
fn from_works() {
    let v = Vec3::from([s(0.0), s(0.1), s(0.2)]);
    assert_eq!(v.x(), s(0.0));
    assert_eq!(v.y(), s(0.1));
    assert_eq!(v.z(), s(0.2));
}

#[test]
fn good_access() {
    let v = Vec3::from([s(0.0), s(0.2), s(0.4)]);
    assert_eq!(v.index(0), s(0.0));
    assert_eq!(v.index(1), s(0.2));
    assert_eq!(v.index(2), s(0.4));
}

#[test]
fn vec3_good_access() {
    let mut v = Vec3::from([s(0.0), s(0.2), s(0.4)]);
    v.set(0, s(2.0));
    v.set(1, s(3.3));
    v.set(2, s(-22.0));
    assert_eq!(v.index(0), s(2.0));
    assert_eq!(v.index(1), s(3.3));
    assert_eq!(v.index(2), s(-22.0));
}

#[test]
fn is_zero_works() {
    assert!(Vec3::zero().is_zero());
    assert!(Vec3::from([Scalar::NegZero, s(0.0), Scalar::NegZero]).is_zero());
    assert!(!Vec3::from([s(0.0), s(0.0), s(0.0000001)]).is_zero());
}

#[test]
fn sqrt_of_negative_is_nan() {
    assert!(s(-4.0).sqrt().is_nan());
    assert_eq!(s(4.0).sqrt(), s(2.0));
    assert_eq!(Scalar::NegZero.sqrt(), Scalar::NegZero);
}
