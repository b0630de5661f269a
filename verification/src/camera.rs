//! The camera: viewport geometry, jittered per-pixel sampling, and the
//! render loop that turns a scene into display pixels.

use crate::color::Color;
use crate::hittable_list::HittableList;
use crate::material::ScatterDraw;
use crate::ray::Ray;
use crate::rng::random_raw;
use crate::scalar::{Scalar, SCALE};
use crate::vec3::{Point3, Vec3};
use vstd::prelude::*;

verus! {

#[derive(Clone, Copy, Debug)]
pub struct Camera {
    pub samples_per_pixel: u16,
    pub samples_scale: Scalar,
    pub aspect_ratio: Scalar,
    pub image_width: u64,
    pub image_height: u64,
    pub max_depth: u16,
    pub center: Point3,
    pub pixel00_loc: Point3,
    pub pixel_delta_u: Vec3,
    pub pixel_delta_v: Vec3,
}

impl Camera {
    /// The bounds under which the viewport arithmetic stays representable.
    pub open spec fn wf_cfg(self) -> bool {
        &&& 1 <= self.image_width <= 10_000
        &&& 2 <= self.image_height <= 10_000
    }

    /// The camera that `new` builds: image height derived from width and
    /// aspect ratio, a viewport two units tall at focal length one, and the
    /// location of pixel (0, 0) with the per-pixel steps across and down.
    pub open spec fn spec_new(
        aspect0: u8,
        aspect1: u8,
        image_width: u64,
        samples_per_pixel: u16,
        max_depth: u16,
    ) -> Camera {
        let image_height = ((image_width as int) * (aspect1 as int)) / (aspect0 as int);
        let one = Scalar::Fin(SCALE);
        let half = Scalar::Fin(50_000_000i64);
        let two = Scalar::Fin(200_000_000i64);
        let fw = Scalar::Fin(((image_width as int) * (SCALE as int)) as i64);
        let fh = Scalar::Fin((image_height * (SCALE as int)) as i64);
        let viewport_height = two;
        let viewport_width = viewport_height.spec_mul(fw.spec_div(fh));
        let camera_center = Vec3::spec_zero();
        let viewport_u = Vec3::spec_new(viewport_width, Scalar::Fin(0i64), Scalar::Fin(0i64));
        let viewport_v = Vec3::spec_new(
            Scalar::Fin(0i64),
            viewport_height.spec_neg(),
            Scalar::Fin(0i64),
        );
        let pixel_delta_u = viewport_u.spec_div_scalar(fw);
        let pixel_delta_v = viewport_v.spec_div_scalar(fh);
        let viewport_upper_left = camera_center.spec_sub(
            Vec3::spec_new(Scalar::Fin(0i64), Scalar::Fin(0i64), one),
        ).spec_sub(viewport_u.spec_div_scalar(two)).spec_sub(viewport_v.spec_div_scalar(two));
        let pixel00_loc = viewport_upper_left.spec_add(
            pixel_delta_u.spec_add(pixel_delta_v).spec_scale(half),
        );
        Camera {
            samples_per_pixel,
            samples_scale: one.spec_div(
                Scalar::Fin(((samples_per_pixel as int) * (SCALE as int)) as i64),
            ),
            aspect_ratio: Scalar::Fin(((aspect0 as int) * (SCALE as int)) as i64).spec_div(
                Scalar::Fin(((aspect1 as int) * (SCALE as int)) as i64),
            ),
            image_width,
            image_height: image_height as u64,
            max_depth,
            center: camera_center,
            pixel00_loc,
            pixel_delta_u,
            pixel_delta_v,
        }
    }

    /// Build the camera.  A configuration whose derived image height does
    /// not exceed one is invalid and excluded here.  The caps of ten
    /// thousand pixels a side are this implementation's own bound: they
    /// keep the fixed-point viewport arithmetic representable, and sit far
    /// above any image this tracer is asked for.
    pub fn new(aspect_ratio: (u8, u8), image_width: u64, samples_per_pixel: u16, max_depth: u16) -> (c:
        Camera)
        requires
            0 < aspect_ratio.0,
            0 < aspect_ratio.1,
            1 <= image_width <= 10_000,
            1 < ((image_width as int) * (aspect_ratio.1 as int)) / (aspect_ratio.0 as int)
                <= 10_000,
        ensures
            c == Self::spec_new(
                aspect_ratio.0,
                aspect_ratio.1,
                image_width,
                samples_per_pixel,
                max_depth,
            ),
            c.wf_cfg(),
    {
        proof {
            assert((image_width as int) * (aspect_ratio.1 as int) <= 10_000 * 255)
                by (nonlinear_arith)
                requires
                    1 <= image_width <= 10_000,
                    0 <= aspect_ratio.1 <= 255,
            ;
        }
        let image_height: u64 = image_width * (aspect_ratio.1 as u64) / (aspect_ratio.0 as u64);

        let one = Scalar::one();
        let half = Scalar::Fin(50_000_000);
        let two = Scalar::Fin(200_000_000);
        let fw = Scalar::from_int(image_width as i64);
        let fh = Scalar::from_int(image_height as i64);
        let viewport_height = two;
        let viewport_width = viewport_height.mul(fw.div(fh));
        let camera_center = Point3::zero();

        // The vectors across the horizontal and down the vertical viewport
        // edges.
        let viewport_u = Vec3::new(viewport_width, Scalar::zero(), Scalar::zero());
        let viewport_v = Vec3::new(Scalar::zero(), viewport_height.neg(), Scalar::zero());

        // The horizontal and vertical delta vectors from pixel to pixel.
        let pixel_delta_u = viewport_u.div_scalar(fw);
        let pixel_delta_v = viewport_v.div_scalar(fh);

        // The location of the upper left pixel: the scan does not follow the
        // world axes, so pixel (0, 0) sits half a step in from the viewport
        // corner.
        let viewport_upper_left = camera_center.sub(
            Vec3::new(Scalar::zero(), Scalar::zero(), one),
        ).sub(viewport_u.div_scalar(two)).sub(viewport_v.div_scalar(two));
        let pixel00_loc = viewport_upper_left.add(
            pixel_delta_u.add(pixel_delta_v).scale(half),
        );

        Camera {
            samples_per_pixel,
            samples_scale: one.div(Scalar::from_int(samples_per_pixel as i64)),
            aspect_ratio: Scalar::from_int(aspect_ratio.0 as i64).div(
                Scalar::from_int(aspect_ratio.1 as i64),
            ),
            image_width,
            image_height,
            max_depth,
            center: camera_center,
            pixel_delta_v,
            pixel_delta_u,
            pixel00_loc,
        }
    }

    /// A jitter offset inside the half-open pixel square: both coordinates
    /// within half a pixel of the center, no depth component.
    pub open spec fn offset_ok(offset: Vec3) -> bool {
        &&& offset.x.is_finite_s() && -50_000_000 <= offset.x.raw() <= 50_000_000
        &&& offset.y.is_finite_s() && -50_000_000 <= offset.y.raw() <= 50_000_000
        &&& offset.z == Scalar::Fin(0i64)
    }

    /// The camera ray through pixel (x, y), displaced by the given jitter
    /// offset.
    pub open spec fn spec_ray_through(self, x: u64, y: u64, offset: Vec3) -> Ray {
        let fx = Scalar::Fin(((x as int) * (SCALE as int)) as i64);
        let fy = Scalar::Fin(((y as int) * (SCALE as int)) as i64);
        let pixel_sample = self.pixel00_loc.spec_add(
            self.pixel_delta_u.spec_scale(fx.spec_add(offset.x)),
        ).spec_add(self.pixel_delta_v.spec_scale(fy.spec_add(offset.y)));
        Ray { origin: self.center, direction: pixel_sample.spec_sub(self.center) }
    }

    /// A fresh jitter offset, uniform in half a pixel each way.
    fn sample_square(&self) -> (v: Vec3)
        ensures
            Camera::offset_ok(v),
    {
        Vec3::new(
            Scalar::Fin(random_raw(-50_000_000, 50_000_000)),
            Scalar::Fin(random_raw(-50_000_000, 50_000_000)),
            Scalar::Fin(0),
        )
    }

    /// A camera ray from the center through a randomly jittered sample point
    /// around pixel (x, y).
    pub fn get_ray(&self, x: u64, y: u64) -> (r: Ray)
        requires
            self.wf_cfg(),
            x < self.image_width,
            y < self.image_height,
        ensures
            exists|off: Vec3|
                #[trigger] Camera::offset_ok(off) && r == self.spec_ray_through(x, y, off),
    {
        let offset = self.sample_square();
        let fx = Scalar::from_int(x as i64);
        let fy = Scalar::from_int(y as i64);
        let pixel_sample = self.pixel00_loc.add(
            self.pixel_delta_u.scale(fx.add(offset.x())),
        ).add(self.pixel_delta_v.scale(fy.add(offset.y())));

        let ray_origin = self.center;
        let ray_direction = pixel_sample.sub(ray_origin);

        let r = Ray::new(ray_origin, ray_direction);
        proof {
            assert(Camera::offset_ok(offset) && r == self.spec_ray_through(x, y, offset));
        }
        r
    }

    /// The running sum the sample loop computes: the sample colors in
    /// order, each added to the zero color.
    pub open spec fn spec_accum(cols: Seq<Color>) -> Color
        decreases cols.len(),
    {
        if cols.len() == 0 {
            Vec3::spec_zero()
        } else {
            Self::spec_accum(cols.drop_last()).spec_add(cols.last())
        }
    }

    /// Sample bookkeeping for one pixel: each offset is an admissible
    /// jitter, and each color is an admissible outcome of the ray through
    /// (x, y) at that jitter, evaluated at the recursion budget.
    pub open spec fn samples_ok(
        self,
        world: HittableList,
        x: u64,
        y: u64,
        offs: Seq<Vec3>,
        cols: Seq<Color>,
    ) -> bool
        decreases cols.len(),
    {
        &&& offs.len() == cols.len()
        &&& (cols.len() == 0 || {
            &&& Camera::offset_ok(offs.last())
            &&& self.spec_ray_through(x, y, offs.last()).spec_color_outcome(
                world,
                self.max_depth,
                cols.last(),
            )
            &&& self.samples_ok(world, x, y, offs.drop_last(), cols.drop_last())
        })
    }

    /// The pixel relation: `p` is a value the renderer can produce for
    /// pixel (x, y) — for some admissible jitter offsets, one per sample,
    /// and an admissible color of each jittered ray at the recursion
    /// budget, `p` is the quantization (clamp, gamma, eight bits) of their
    /// sum scaled by `samples_scale`.
    pub open spec fn spec_pixel_outcome(
        self,
        world: HittableList,
        x: u64,
        y: u64,
        p: (u8, u8, u8),
    ) -> bool {
        exists|offs: Seq<Vec3>, cols: Seq<Color>|
            #![trigger self.samples_ok(world, x, y, offs, cols)]
            {
                let avg = Self::spec_accum(cols).spec_scale(self.samples_scale);
                &&& cols.len() == self.samples_per_pixel
                &&& self.samples_ok(world, x, y, offs, cols)
                &&& p.0 as int == Vec3::spec_channel(avg.x)
                &&& p.1 as int == Vec3::spec_channel(avg.y)
                &&& p.2 as int == Vec3::spec_channel(avg.z)
            }
    }

    /// Render the scene: for each pixel, average `samples_per_pixel`
    /// jittered rays evaluated to `max_depth` bounces, and quantize.  Pixels
    /// come back row-major, top to bottom and left to right, one display
    /// triple per pixel, each an admissible outcome of the pixel relation
    /// at its own coordinates.
    pub fn render(&self, world: &HittableList) -> (pixels: Vec<(u8, u8, u8)>)
        requires
            self.wf_cfg(),
        ensures
            pixels@.len() == self.image_height * self.image_width,
            forall|i: int|
                0 <= i < pixels@.len() ==> self.spec_pixel_outcome(
                    *world,
                    ((i % (self.image_width as int)) as u64),
                    ((i / (self.image_width as int)) as u64),
                    #[trigger] pixels@[i],
                ),
    {
        let mut pixels: Vec<(u8, u8, u8)> = Vec::new();
        let mut y: u64 = 0;
        while y < self.image_height
            invariant
                self.wf_cfg(),
                y <= self.image_height,
                pixels@.len() == y * self.image_width,
                forall|i: int|
                    0 <= i < pixels@.len() ==> self.spec_pixel_outcome(
                        *world,
                        ((i % (self.image_width as int)) as u64),
                        ((i / (self.image_width as int)) as u64),
                        #[trigger] pixels@[i],
                    ),
            decreases self.image_height - y,
        {
            let mut x: u64 = 0;
            while x < self.image_width
                invariant
                    self.wf_cfg(),
                    y < self.image_height,
                    x <= self.image_width,
                    pixels@.len() == y * self.image_width + x,
                    forall|i: int|
                        0 <= i < pixels@.len() ==> self.spec_pixel_outcome(
                            *world,
                            ((i % (self.image_width as int)) as u64),
                            ((i / (self.image_width as int)) as u64),
                            #[trigger] pixels@[i],
                        ),
                decreases self.image_width - x,
            {
                let mut color = Color::default();
                let ghost mut offs: Seq<Vec3> = Seq::empty();
                let ghost mut cols: Seq<Color> = Seq::empty();
                proof {
                    assert(self.samples_ok(*world, x, y, offs, cols));
                }
                let mut s: u16 = 0;
                while s < self.samples_per_pixel
                    invariant
                        self.wf_cfg(),
                        x < self.image_width,
                        y < self.image_height,
                        s <= self.samples_per_pixel,
                        offs.len() == s as int,
                        cols.len() == s as int,
                        self.samples_ok(*world, x, y, offs, cols),
                        color == Camera::spec_accum(cols),
                    decreases self.samples_per_pixel - s,
                {
                    let r = self.get_ray(x, y);
                    let sample = r.color(world, self.max_depth);
                    proof {
                        let off = choose|off: Vec3|
                            #[trigger] Camera::offset_ok(off) && r == self.spec_ray_through(
                                x,
                                y,
                                off,
                            );
                        let prev_offs = offs;
                        let prev_cols = cols;
                        offs = offs.push(off);
                        cols = cols.push(sample);
                        assert(offs.drop_last() =~= prev_offs);
                        assert(cols.drop_last() =~= prev_cols);
                        assert(offs.last() == off && cols.last() == sample);
                        assert(self.samples_ok(*world, x, y, offs, cols));
                    }
                    color.add_assign(sample);
                    s = s + 1;
                }
                color.scale_assign(self.samples_scale);
                let px = color.to_pixel();
                proof {
                    assert(self.spec_pixel_outcome(*world, x, y, px)) by {
                        let avg = Camera::spec_accum(cols).spec_scale(self.samples_scale);
                        assert(cols.len() == self.samples_per_pixel);
                        assert(self.samples_ok(*world, x, y, offs, cols));
                        assert(px.0 as int == Vec3::spec_channel(avg.x));
                        assert(px.1 as int == Vec3::spec_channel(avg.y));
                        assert(px.2 as int == Vec3::spec_channel(avg.z));
                    };
                    vstd::arithmetic::div_mod::lemma_fundamental_div_mod_converse(
                        (y * self.image_width + x) as int,
                        self.image_width as int,
                        y as int,
                        x as int,
                    );
                }
                pixels.push(px);
                x = x + 1;
            }
            proof {
                assert(y * self.image_width + self.image_width == (y + 1) * self.image_width)
                    by (nonlinear_arith);
            }
            y = y + 1;
        }
        pixels
    }
}

} // verus!
