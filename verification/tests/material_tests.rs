use ray_tracer::dielectric::Dielectric;
use ray_tracer::hittable::HitRecord;
use ray_tracer::lambertian::Lambertian;
use ray_tracer::material::Material;
use ray_tracer::metal::Metal;
use ray_tracer::ray::Ray;
use ray_tracer::scalar::Scalar;
use ray_tracer::vec3::Vec3;

/// The scalar standing for the given decimal value.
fn s(v: f64) -> Scalar {
    Scalar::Fin((v * 100_000_000.0).round() as i64)
}

fn hit_at(p: Vec3, normal: Vec3, front_facing: bool, material: Material) -> HitRecord {
    HitRecord { p, normal, t: s(1.0), front_facing, material }
}

#[test]
fn lambertian_keeps_origin_and_albedo() {
    let albedo = Vec3::new(s(0.1), s(0.2), s(0.5));
    let mat = Lambertian::new(albedo);
    let ray = Ray::new(Vec3::zero(), Vec3::new(s(0.0), s(0.0), s(-1.0)));
    let hit = hit_at(
        Vec3::new(s(0.3), s(-0.4), s(-2.0)),
        Vec3::new(s(0.0), s(0.0), s(1.0)),
        true,
        Material::Lambertian(mat),
    );
    for _ in 0..32 {
        let (scattered, attenuation) = mat.scatter(&ray, &hit);
        assert_eq!(scattered.origin(), hit.p);
        assert_eq!(attenuation, albedo);
    }
}

#[test]
fn lambertian_degenerate_direction_falls_back_to_normal() {
    let albedo = Vec3::new(s(0.5), s(0.5), s(0.5));
    let mat = Lambertian::new(albedo);
    let normal = Vec3::new(s(0.0), s(1.0), s(0.0));
    let hit = hit_at(Vec3::zero(), normal, true, Material::Lambertian(mat));
    // A unit sample exactly opposite the normal cancels it; the scatter
    // falls back to the normal itself.
    let opposite = Vec3::new(s(0.0), s(-1.0), s(0.0));
    let (scattered, attenuation) = mat.scatter_with(&hit, opposite);
    assert_eq!(scattered.direction(), normal);
    assert_eq!(attenuation, albedo);
}

#[test]
fn metal_zero_fuzz_is_perfect_mirror() {
    let albedo = Vec3::new(s(0.8), s(0.8), s(0.8));
    let mat = Metal::new(albedo, s(0.0));
    let ray = Ray::new(Vec3::zero(), Vec3::new(s(1.0), s(-1.0), s(0.0)));
    let normal = Vec3::new(s(0.0), s(1.0), s(0.0));
    let hit = hit_at(Vec3::new(s(1.0), s(0.0), s(0.0)), normal, true, Material::Metal(mat));
    let (scattered, attenuation) = mat.scatter(&ray, &hit).expect("mirror must scatter");
    assert_eq!(scattered.origin(), hit.p);
    assert_eq!(scattered.direction(), Vec3::new(s(1.0), s(1.0), s(0.0)));
    assert_eq!(attenuation, albedo);
}

#[test]
fn metal_rejects_direction_into_surface() {
    let mat = Metal::new(Vec3::new(s(0.8), s(0.8), s(0.8)), s(0.0));
    // The mirrored direction of a ray leaving the surface points back into
    // it: the scatter is absorbed.
    let ray = Ray::new(Vec3::zero(), Vec3::new(s(1.0), s(1.0), s(0.0)));
    let normal = Vec3::new(s(0.0), s(1.0), s(0.0));
    let hit = hit_at(Vec3::zero(), normal, true, Material::Metal(mat));
    assert!(mat.scatter(&ray, &hit).is_none());
}

#[test]
fn metal_fuzz_clamped_to_one() {
    let mat = Metal::new(Vec3::new(s(0.8), s(0.6), s(0.2)), s(3.0));
    assert_eq!(mat.fuzz, s(1.0));
    let keeps = Metal::new(Vec3::new(s(0.8), s(0.6), s(0.2)), s(0.3));
    assert_eq!(keeps.fuzz, s(0.3));
}

#[test]
fn dielectric_total_internal_reflection() {
    // Inside glass (index 1.5), hitting the surface at sin = 0.8: the
    // ratio times sine is 1.2, so every draw reflects.
    let mat = Dielectric::new(s(1.5));
    let ray = Ray::new(Vec3::zero(), Vec3::new(s(0.8), s(-0.6), s(0.0)));
    let normal = Vec3::new(s(0.0), s(1.0), s(0.0));
    let hit = hit_at(Vec3::new(s(2.0), s(0.0), s(0.0)), normal, false, Material::Dielectric(mat));
    for _ in 0..32 {
        let (scattered, attenuation) = mat.scatter(&ray, &hit).expect("dielectric always scatters");
        assert_eq!(scattered.origin(), hit.p);
        assert_eq!(scattered.direction(), Vec3::new(s(0.8), s(0.6), s(0.0)));
        assert_eq!(attenuation, Vec3::new(s(1.0), s(1.0), s(1.0)));
    }
}

#[test]
fn dielectric_refracts_when_draw_exceeds_reflectance() {
    // Head-on from outside: reflectance is tiny, so a draw of one refracts,
    // and the refracted direction of a head-on ray continues straight.
    let mat = Dielectric::new(s(1.5));
    let ray = Ray::new(Vec3::zero(), Vec3::new(s(0.0), s(-1.0), s(0.0)));
    let normal = Vec3::new(s(0.0), s(1.0), s(0.0));
    let hit = hit_at(Vec3::zero(), normal, true, Material::Dielectric(mat));
    let (scattered, attenuation) = mat.scatter_with(&ray, &hit, s(1.0)).expect("must scatter");
    assert_eq!(attenuation, Vec3::new(s(1.0), s(1.0), s(1.0)));
    // Straight through: no sideways component, still heading down.
    assert_eq!(scattered.direction().x(), s(0.0));
    assert!(scattered.direction().y().lt(s(-0.99)));
    assert_eq!(scattered.direction().z(), s(0.0));
}

#[test]
fn reflectance_at_normal_incidence() {
    // Schlick's approximation at cos = 1 collapses to r0 = ((1 - r) / (1 + r))^2.
    assert_eq!(Dielectric::reflectance(s(1.0), s(0.5)), Scalar::Fin(11_111_110));
    assert_eq!(Dielectric::reflectance(s(1.0), s(1.0)), s(0.0));
}

#[test]
fn material_scatter_starts_at_hit_point() {
    let p = Vec3::new(s(1.5), s(-2.0), s(0.5));
    let normal = Vec3::new(s(0.0), s(1.0), s(0.0));
    let ray = Ray::new(Vec3::zero(), Vec3::new(s(1.0), s(-1.0), s(0.0)));
    let mats = [
        Material::Lambertian(Lambertian::new(Vec3::new(s(0.5), s(0.5), s(0.5)))),
        Material::Metal(Metal::new(Vec3::new(s(0.8), s(0.8), s(0.8)), s(0.2))),
        Material::Dielectric(Dielectric::new(s(1.5))),
    ];
    for m in mats {
        let hit = hit_at(p, normal, true, m);
        if let Some((scattered, _)) = m.scatter(&ray, &hit) {
            assert_eq!(scattered.origin(), p);
        }
    }
}
