use ray_tracer::lambertian::Lambertian;
use ray_tracer::material::Material;
use ray_tracer::ray::Ray;
use ray_tracer::scalar::Scalar;
use ray_tracer::sphere::Sphere;
use ray_tracer::vec3::Vec3;

/// The scalar standing for the given decimal value.
fn s(v: f64) -> Scalar {
    Scalar::Fin((v * 100_000_000.0).round() as i64)
}

fn test_material() -> Material {
    Material::Lambertian(Lambertian::new(Vec3::new(s(0.1), s(0.2), s(0.5))))
}

#[test]
fn test_ray_intersecting_sphere() {
    let sphere = Sphere {
        center: Vec3::new(s(0.0), s(0.0), s(-5.0)),
        radius: s(1.0),
        material: test_material(),
    };
    let ray = Ray::new(Vec3::new(s(0.0), s(0.0), s(0.0)), Vec3::new(s(0.0), s(0.0), s(-1.0)));

    if let Some(hit) = sphere.hit(&ray, s(0.0), s(10.0)) {
        assert!(s(0.0).le(hit.t) && hit.t.le(s(10.0)));
    } else {
        panic!("Ray should intersect the sphere");
    }
}

#[test]
fn test_ray_tangent_to_sphere() {
    let sphere = Sphere {
        center: Vec3::new(s(0.0), s(2.0), s(-5.0)),
        radius: s(1.0),
        material: test_material(),
    };
    let ray = Ray::new(
        Vec3::new(s(0.0), s(0.0), s(-5.0)),
        Vec3::new(s(0.0), s(1.0), s(0.0)).unit_vector(),
    );

    if let Some(hit) = sphere.hit(&ray, s(0.0), s(10.0)) {
        assert_eq!(hit.t, s(1.0));
    } else {
        panic!("Ray should be tangent to the sphere");
    }
}

#[test]
fn test_ray_misses_sphere() {
    let sphere = Sphere {
        center: Vec3::new(s(0.0), s(0.0), s(-5.0)),
        radius: s(1.0),
        material: test_material(),
    };
    let ray = Ray::new(Vec3::new(s(2.0), s(2.0), s(0.0)), Vec3::new(s(0.0), s(0.0), s(-1.0)));

    assert!(sphere.hit(&ray, s(0.0), s(10.0)).is_none());
}

#[test]
fn test_ray_origin_inside_sphere() {
    let sphere = Sphere {
        center: Vec3::new(s(0.0), s(0.0), s(-5.0)),
        radius: s(1.0),
        material: test_material(),
    };
    let ray = Ray::new(Vec3::new(s(0.0), s(0.0), s(-4.0)), Vec3::new(s(0.0), s(0.0), s(-1.0)));

    if let Some(hit) = sphere.hit(&ray, s(0.0), s(10.0)) {
        assert!(s(0.0).le(hit.t) && hit.t.le(s(10.0)));
    } else {
        panic!("Ray should intersect the sphere when exiting");
    }
}

#[test]
fn test_ray_parallel_to_surface() {
    let sphere = Sphere {
        center: Vec3::new(s(0.0), s(0.0), s(-5.0)),
        radius: s(1.0),
        material: test_material(),
    };
    let ray = Ray::new(Vec3::new(s(0.0), s(2.0), s(0.0)), Vec3::new(s(0.0), s(0.0), s(-1.0)));

    assert!(sphere.hit(&ray, s(0.0), s(10.0)).is_none());
}

#[test]
fn head_on_hit_at_distance_minus_radius() {
    // A head-on hit at distance 4 on a unit sphere: the near surface lies at
    // parameter exactly 3.
    let sphere = Sphere::new(Vec3::new(s(0.0), s(0.0), s(-4.0)), s(1.0), test_material());
    let ray = Ray::new(Vec3::zero(), Vec3::new(s(0.0), s(0.0), s(-1.0)));
    let hit = sphere.hit(&ray, s(0.0), s(100.0)).expect("head-on ray must hit");
    assert_eq!(hit.t, s(3.0));
    assert_eq!(hit.p, Vec3::new(s(0.0), s(0.0), s(-3.0)));
    assert!(hit.front_facing);
}

#[test]
fn front_face_points_against_ray() {
    // From outside and from inside the sphere, the oriented normal never
    // points along the ray.
    let sphere = Sphere::new(Vec3::new(s(0.0), s(0.0), s(-5.0)), s(1.0), test_material());
    let outside = Ray::new(Vec3::zero(), Vec3::new(s(0.0), s(0.0), s(-1.0)));
    let hit = sphere.hit(&outside, s(0.0), s(100.0)).expect("must hit");
    assert!(outside.direction().dot(&hit.normal).le(s(0.0)));
    assert!(hit.front_facing);

    let inside = Ray::new(Vec3::new(s(0.0), s(0.0), s(-5.0)), Vec3::new(s(0.0), s(0.0), s(-1.0)));
    let hit = sphere.hit(&inside, s(0.0), s(100.0)).expect("must hit");
    assert!(inside.direction().dot(&hit.normal).le(s(0.0)));
    assert!(!hit.front_facing);
}

#[test]
fn negative_radius_is_floored_to_zero() {
    let sphere = Sphere::new(Vec3::zero(), s(-2.5), test_material());
    assert_eq!(sphere.radius, s(0.0));
}

#[test]
fn list_returns_closest_hit() {
    let mut world = ray_tracer::hittable_list::HittableList::new();
    world.push(Sphere::new(Vec3::new(s(0.0), s(0.0), s(-9.0)), s(1.0), test_material()));
    world.push(Sphere::new(Vec3::new(s(0.0), s(0.0), s(-4.0)), s(1.0), test_material()));
    let ray = Ray::new(Vec3::zero(), Vec3::new(s(0.0), s(0.0), s(-1.0)));
    let hit = world.hit(&ray, s(0.0), s(100.0)).expect("must hit the nearer sphere");
    assert_eq!(hit.t, s(3.0));

    // The same scene in the opposite order reports the same nearest hit.
    let mut reversed = ray_tracer::hittable_list::HittableList::new();
    reversed.push(Sphere::new(Vec3::new(s(0.0), s(0.0), s(-4.0)), s(1.0), test_material()));
    reversed.push(Sphere::new(Vec3::new(s(0.0), s(0.0), s(-9.0)), s(1.0), test_material()));
    let hit = reversed.hit(&ray, s(0.0), s(100.0)).expect("must hit the nearer sphere");
    assert_eq!(hit.t, s(3.0));

    let empty = ray_tracer::hittable_list::HittableList::new();
    assert!(empty.hit(&ray, s(0.0), s(100.0)).is_none());
}
