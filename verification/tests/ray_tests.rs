use ray_tracer::hittable_list::HittableList;
use ray_tracer::ray::Ray;
use ray_tracer::scalar::Scalar;
use ray_tracer::vec3::Vec3;

/// The scalar standing for the given decimal value.
fn s(v: f64) -> Scalar {
    Scalar::Fin((v * 100_000_000.0).round() as i64)
}

#[test]
fn accessor_tests() {
    let r = Ray::new(
        Vec3::from([s(1.0), s(1.0), s(1.0)]),
        Vec3::from([s(2.0), s(1.0), s(1.0)]),
    );

    assert_eq!(r.origin().x(), s(1.0));
    assert_eq!(r.origin().y(), s(1.0));
    assert_eq!(r.origin().z(), s(1.0));

    assert_eq!(r.direction().x(), s(2.0));
    assert_eq!(r.direction().y(), s(1.0));
    assert_eq!(r.direction().z(), s(1.0));
}

#[test]
fn at_tests() {
    let r = Ray::new(
        Vec3::from([s(1.0), s(1.0), s(1.0)]),
        Vec3::from([s(2.0), s(1.0), s(0.5)]),
    )
    .at(s(2.0));
    assert_eq!(r.x(), s(5.0));
    assert_eq!(r.y(), s(3.0));
    assert_eq!(r.z(), s(2.0));
}

#[test]
fn depth_zero_is_black() {
    let world = HittableList::new();
    let r = Ray::new(
        Vec3::new(s(3.0), s(-2.0), s(1.0)),
        Vec3::new(s(0.3), s(0.7), s(-1.0)),
    );
    assert_eq!(r.color(&world, 0), Vec3::zero());
}

#[test]
fn empty_scene_gives_background() {
    let world = HittableList::new();
    // A ray pointing straight up: the unit direction's vertical component is
    // one, so the blend lands exactly on the sky color.
    let up = Ray::new(Vec3::zero(), Vec3::new(s(0.0), s(1.0), s(0.0)));
    assert_eq!(up.color(&world, 4), Vec3::new(s(0.5), s(0.7), s(1.0)));
    // A ray pointing straight down blends all the way to white.
    let down = Ray::new(Vec3::zero(), Vec3::new(s(0.0), s(-1.0), s(0.0)));
    assert_eq!(down.color(&world, 4), Vec3::new(s(1.0), s(1.0), s(1.0)));
    // A horizontal ray sits exactly in the middle of the gradient.
    let level = Ray::new(Vec3::zero(), Vec3::new(s(1.0), s(0.0), s(0.0)));
    assert_eq!(level.color(&world, 4), Vec3::new(s(0.75), s(0.85), s(1.0)));
}
