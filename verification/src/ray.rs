//! A ray: origin plus direction, traced through the scene.

use crate::color::Color;
use crate::hittable_list::HittableList;
use crate::material::{Material, ScatterDraw};
use crate::scalar::{Scalar, RAW_MAX, SCALE};
use crate::vec3::{Point3, Vec3};
use vstd::prelude::*;

verus! {

#[derive(Clone, Copy, Debug, PartialEq, Eq, Structural)]
pub struct Ray {
    pub origin: Point3,
    pub direction: Vec3,
}

impl Ray {
    /// The point a parameter `time` along the ray: `origin + direction * time`.
    pub open spec fn spec_at(self, time: Scalar) -> Point3 {
        self.origin.spec_add(self.direction.spec_scale(time))
    }

    pub fn new(origin: Point3, direction: Vec3) -> (r: Ray)
        ensures
            r == (Ray { origin, direction }),
    {
        Ray { origin, direction }
    }

    #[inline]
    pub fn origin(&self) -> (r: Point3)
        ensures
            r == self.origin,
    {
        self.origin
    }

    #[inline]
    pub fn direction(&self) -> (r: Vec3)
        ensures
            r == self.direction,
    {
        self.direction
    }

    pub fn at(&self, time: Scalar) -> (r: Point3)
        ensures
            r == self.spec_at(time),
    {
        self.origin.add(self.direction.scale(time))
    }

    /// The sky the ray escapes to: white blended toward sky blue by the
    /// vertical component of the normalized direction, mapped from
    /// `[-1, 1]` to `[0, 1]`.
    #[verifier::opaque]
    pub open spec fn spec_background(self) -> Color {
        let one = Scalar::Fin(SCALE);
        let unit_direction = self.direction.spec_unit();
        let a = unit_direction.y.spec_add(one).spec_mul(Scalar::Fin(50_000_000i64));
        Vec3::spec_new(one, one, one).spec_scale(one.spec_sub(a)).spec_add(
            Vec3::spec_new(Scalar::Fin(50_000_000i64), Scalar::Fin(70_000_000i64), one).spec_scale(
                a,
            ),
        )
    }

    /// The color the evaluator computes under a given trace of scatter
    /// draws, one draw consumed per bounce: black once the recursion budget
    /// is spent, the background gradient where the scene is missed, and on
    /// a hit the deterministic scatter of the trace's first draw folded
    /// through — black on absorption, else the attenuation times the color
    /// of the scattered ray under the rest of the trace.
    pub open spec fn spec_color_of(
        self,
        world: HittableList,
        depth: u16,
        trace: Seq<ScatterDraw>,
    ) -> Color
        decreases depth,
    {
        if depth == 0 {
            Vec3::spec_zero()
        } else {
            let found = world.spec_hit(self, Scalar::Fin(10_000i64), Scalar::Fin(RAW_MAX));
            if found is None {
                self.spec_background()
            } else {
                let hr = found->Some_0;
                if trace.len() == 0 {
                    Vec3::spec_zero()
                } else {
                    match hr.material.spec_scatter_of(self, hr, trace[0]) {
                        None => Vec3::spec_zero(),
                        Some(sa) => sa.1.spec_mul(
                            sa.0.spec_color_of(world, (depth - 1) as u16, trace.drop_first()),
                        ),
                    }
                }
            }
        }
    }

    /// The traces the evaluator can consume for this ray: wherever a bounce
    /// happens, the draw spent there is one the hit material's sampler can
    /// produce.
    pub open spec fn spec_trace_ok(
        self,
        world: HittableList,
        depth: u16,
        trace: Seq<ScatterDraw>,
    ) -> bool
        decreases depth,
    {
        if depth == 0 {
            true
        } else {
            let found = world.spec_hit(self, Scalar::Fin(10_000i64), Scalar::Fin(RAW_MAX));
            if found is None {
                true
            } else {
                let hr = found->Some_0;
                trace.len() > 0 && hr.material.draw_ok(trace[0]) && match hr.material.spec_scatter_of(
                    self,
                    hr,
                    trace[0],
                ) {
                    None => true,
                    Some(sa) => sa.0.spec_trace_ok(world, (depth - 1) as u16, trace.drop_first()),
                }
            }
        }
    }

    /// The color relation: `c` is a value the recursive evaluator can
    /// return for this ray — its deterministic evaluation under some
    /// admissible trace of scatter draws.
    pub open spec fn spec_color_outcome(self, world: HittableList, depth: u16, c: Color) -> bool {
        exists|trace: Seq<ScatterDraw>|
            #[trigger] self.spec_trace_ok(world, depth, trace) && c == self.spec_color_of(
                world,
                depth,
                trace,
            )
    }

    /// Evaluate the light arriving along this ray: black once the recursion
    /// budget is spent, the background gradient where the scene is missed,
    /// and otherwise the material's attenuation times the scattered ray's
    /// color (or black on absorption).  Scattered rays start a small
    /// positive distance out to avoid re-hitting their own origin.
    pub fn color(&self, world: &HittableList, depth: u16) -> (c: Color)
        ensures
            self.spec_color_outcome(*world, depth, c),
            depth == 0 ==> c == Vec3::spec_zero(),
            depth > 0 && world.spec_hit(*self, Scalar::Fin(10_000i64), Scalar::Fin(RAW_MAX))
                is None ==> c == self.spec_background(),
        decreases depth,
    {
        proof {
            reveal(Ray::spec_background);
        }
        if depth == 0 {
            let c = Color::default();
            proof {
                let t0: Seq<ScatterDraw> = Seq::empty();
                assert(self.spec_trace_ok(*world, depth, t0));
                assert(c == self.spec_color_of(*world, depth, t0));
            }
            return c;
        }
        if let Some(hr) = world.hit(self, Scalar::Fin(10_000), Scalar::Fin(RAW_MAX)) {
            let outcome = hr.material.scatter(self, &hr);
            if let Some((scattered, attenuation)) = outcome {
                let rec = scattered.color(world, depth - 1);
                let c = attenuation.mul(rec);
                proof {
                    reveal(Material::spec_scatter_outcome);
                    let d = choose|d: ScatterDraw|
                        #[trigger] hr.material.draw_ok(d) && outcome == hr.material.spec_scatter_of(
                            *self,
                            hr,
                            d,
                        );
                    let sub = choose|t: Seq<ScatterDraw>|
                        #[trigger] scattered.spec_trace_ok(*world, (depth - 1) as u16, t) && rec
                            == scattered.spec_color_of(*world, (depth - 1) as u16, t);
                    let t = seq![d] + sub;
                    assert(t[0] == d);
                    assert(t.drop_first() =~= sub);
                    assert(self.spec_trace_ok(*world, depth, t));
                    assert(c == self.spec_color_of(*world, depth, t));
                }
                return c;
            } else {
                let c = Color::zero();
                proof {
                    reveal(Material::spec_scatter_outcome);
                    let d = choose|d: ScatterDraw|
                        #[trigger] hr.material.draw_ok(d) && outcome == hr.material.spec_scatter_of(
                            *self,
                            hr,
                            d,
                        );
                    let t = seq![d];
                    assert(t[0] == d);
                    assert(self.spec_trace_ok(*world, depth, t));
                    assert(c == self.spec_color_of(*world, depth, t));
                }
                return c;
            }
        }
        let one = Scalar::one();
        let unit_direction = self.direction().unit_vector();
        let a = unit_direction.y().add(one).mul(Scalar::Fin(50_000_000));
        let mut result = Color::new(one, one, one);
        let scaler = one.sub(a);
        result.scale_assign(scaler);
        result.add_assign(
            Color::new(Scalar::Fin(50_000_000), Scalar::Fin(70_000_000), one).scale(a),
        );
        proof {
            let t0: Seq<ScatterDraw> = Seq::empty();
            assert(self.spec_trace_ok(*world, depth, t0));
            assert(result == self.spec_color_of(*world, depth, t0));
        }
        result
    }
}

/// In a scene with no primitives every ray escapes, so every admissible
/// evaluation at positive depth — whatever the trace of draws — is exactly
/// the background gradient of the ray's direction: a render of such a scene
/// averages pure background samples.
pub proof fn lemma_empty_scene_background(
    w: HittableList,
    ray: Ray,
    depth: u16,
    trace: Seq<ScatterDraw>,
)
    requires
        w.objects@.len() == 0,
        depth > 0,
    ensures
        ray.spec_color_of(w, depth, trace) == ray.spec_background(),
        ray.spec_trace_ok(w, depth, trace),
{
    crate::hittable_list::lemma_empty_scene_misses(
        w,
        ray,
        Scalar::Fin(10_000i64),
        Scalar::Fin(RAW_MAX),
    );
}

impl core::default::Default for Ray {
    /// The degenerate ray at the origin.
    fn default() -> (r: Ray)
        ensures
            r == (Ray { origin: Vec3::spec_zero(), direction: Vec3::spec_zero() }),
    {
        Ray { origin: Vec3::zero(), direction: Vec3::zero() }
    }
}

} // verus!
