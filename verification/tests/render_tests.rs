use ray_tracer::camera::Camera;
use ray_tracer::hittable_list::HittableList;
use ray_tracer::lambertian::Lambertian;
use ray_tracer::material::Material;
use ray_tracer::scalar::Scalar;
use ray_tracer::sphere::Sphere;
use ray_tracer::vec3::Vec3;

/// The scalar standing for the given decimal value.
fn s(v: f64) -> Scalar {
    Scalar::Fin((v * 100_000_000.0).round() as i64)
}

#[test]
fn test_color() {
    let v = Vec3::from([s(1.0), s(0.0), s(4.0)]);
    let p = v.unit_vector().to_pixel();
    let st = format!("{} {} {}\n", p.0, p.1, p.2);
    assert_eq!(st, "126 0 252\n");
}

#[test]
fn pixel_channels_clamp_and_quantize() {
    // Channels below zero darken to zero; channels above the clamp saturate
    // just shy of full scale; infinities and not-a-numbers follow the same
    // clamping paths.
    let p = Vec3::new(s(-3.0), s(2.0), s(0.25)).to_pixel();
    assert_eq!(p.0, 0);
    assert_eq!(p.1, 255);
    assert_eq!(p.2, 128);
    let q = Vec3::new(Scalar::NegInf, Scalar::PosInf, Scalar::Nan).to_pixel();
    assert_eq!(q.0, 0);
    assert_eq!(q.1, 255);
    assert_eq!(q.2, 0);
}

#[test]
fn empty_scene_renders_background_gradient() {
    let camera = Camera::new((16, 9), 16, 1, 4);
    let world = HittableList::new();
    let pixels = camera.render(&world);
    assert_eq!(pixels.len(), 16 * 9);
    // The sky gradient's blue channel is one everywhere, whatever the
    // jitter: every pixel quantizes to 255.
    for p in &pixels {
        assert_eq!(p.2, 255);
    }
    // Rays near the top of the image point up (toward the sky color), rays
    // near the bottom point down (toward white): red climbs down the image.
    let top = pixels[0];
    let bottom = pixels[8 * 16];
    assert!(top.0 < bottom.0);
}

#[test]
fn white_sphere_darker_than_background() {
    // A pure-white diffuse sphere on the camera's axis: every bounce keeps
    // the full energy, so sphere pixels can only be darker than the sky
    // behind them, never brighter.  On the upper part of the silhouette the
    // scattered rays head skyward, where the gradient is darkest, so those
    // pixels fall strictly below the same row's edge pixels.
    let white = Material::Lambertian(Lambertian::new(Vec3::new(s(1.0), s(1.0), s(1.0))));
    let mut world = HittableList::new();
    world.push(Sphere::new(Vec3::new(s(0.0), s(0.0), s(-1.2)), s(0.5), white));
    let camera = Camera::new((16, 9), 16, 256, 3);
    let pixels = camera.render(&world);
    assert_eq!(pixels.len(), 16 * 9);

    // Row 3 of 9 crosses the upper silhouette at the center column.
    let row = 3;
    let center = pixels[row * 16 + 8];
    let edge = pixels[row * 16];
    assert!(center.0 < edge.0, "center {:?} vs edge {:?}", center, edge);
    assert!(center.1 < edge.1, "center {:?} vs edge {:?}", center, edge);
    assert!(center.2 <= edge.2, "center {:?} vs edge {:?}", center, edge);
}
