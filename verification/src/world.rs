//! The scene graph and the recursive shading algorithm.
//!
//! A `World` is a list of shapes and at most one point light.  Casting a
//! ray gathers every shape's candidate hits in insertion order, sorts them
//! by `t`, and shades the visible hit; shading recurses along the
//! reflection vector under a fixed bounce budget, so mutually reflective
//! scenes terminate by construction.

use crate::intersections::{
    find_hit, find_hit_spec, insert_sorted, lemma_insert_sorted_at, prepare_spec, sort_by_t,
    sorted_by_t, Intersection,
};
use crate::lighting::{lighting_spec, PointLight};
use crate::rays::Ray;
use crate::scalar::Scalar;
use crate::shapes::{intersect_spec, shape_wf, Shape};
use crate::tuples::{add_t, magnitude_t, normalize_total_t, scale_t, sub_t, tup, Tuple};
use vstd::prelude::*;

verus! {

/// The scene: at most one light, shapes in insertion order.
pub struct World {
    pub light_source: Option<PointLight>,
    pub objects: Vec<Shape>,
}

/// A world is renderable when every shape in it is.
pub open spec fn world_wf(w: World) -> bool {
    forall|i: int| 0 <= i < w.objects@.len() ==> shape_wf(#[trigger] w.objects@[i])
}

/// Candidate hits of a ray against a prefix of the object list, in object
/// order.
pub open spec fn candidates_spec(objects: Seq<Shape>, ray: Ray) -> Seq<Intersection>
    decreases objects.len(),
{
    if objects.len() == 0 {
        Seq::empty()
    } else {
        candidates_spec(objects.drop_last(), ray).add(intersect_spec(objects.last(), ray))
    }
}

/// Candidate hits of a ray against the whole scene, sorted by `t`.
#[verifier::opaque]
pub open spec fn intersect_world_spec(w: World, ray: Ray) -> Seq<Intersection> {
    sort_by_t(candidates_spec(w.objects@, ray))
}

/// Whether the light is blocked from a point: a ray cast toward the light
/// has a visible hit closer than the light itself.  A world without a light
/// shadows nothing.
#[verifier::opaque]
pub open spec fn is_shadowed_spec(w: World, point: Tuple) -> bool {
    match w.light_source {
        Option::None => false,
        Option::Some(light) => {
            let v = sub_t(light.position, point);
            let distance = magnitude_t(v);
            let shadow_ray = Ray { origin: point, direction: normalize_total_t(v) };
            match find_hit_spec(intersect_world_spec(w, shadow_ray)) {
                Option::Some(h) => h.t.v < distance,
                Option::None => false,
            }
        },
    }
}

/// The bounce budget as a termination measure: spent budgets all measure
/// zero.
pub open spec fn bounce_budget(remaining: int) -> int {
    if remaining <= 0 {
        0
    } else {
        remaining
    }
}

/// The color a ray produces: black where it misses everything, else the
/// shade of the visible hit, prepared against the ray.
#[verifier::opaque]
pub open spec fn color_at_spec(w: World, ray: Ray, remaining: int) -> Tuple
    decreases bounce_budget(remaining), 2int,
{
    match find_hit_spec(intersect_world_spec(w, ray)) {
        Option::None => tup(0, 0, 0, 0),
        Option::Some(h) => shade_hit_spec(w, prepare_spec(h, ray), remaining),
    }
}

/// The shade of a prepared hit: Phong lighting at its `over_point` (with
/// the shadow test decided there) plus the reflected contribution.
#[verifier::opaque]
pub open spec fn shade_hit_spec(w: World, h: Intersection, remaining: int) -> Tuple
    decreases bounce_budget(remaining), 1int,
{
    let light = w.light_source->0;
    let over_point = h.over_point->0;
    let surface = lighting_spec(
        h.object.material,
        h.object,
        light,
        over_point,
        h.eyev->0,
        h.normalv->0,
        is_shadowed_spec(w, over_point),
    );
    add_t(surface, reflected_color_spec(w, h, remaining))
}

/// The reflected contribution of a prepared hit: black when the bounce
/// budget is spent or the surface does not reflect, else the color along
/// the reflection ray cast from the hit's `over_point` with one bounce
/// fewer, scaled by the reflectivity.
#[verifier::opaque]
pub open spec fn reflected_color_spec(w: World, h: Intersection, remaining: int) -> Tuple
    decreases bounce_budget(remaining), 0int,
{
    if remaining <= 0 || h.object.material.reflective.v == 0 {
        tup(0, 0, 0, 0)
    } else {
        let reflect_ray = Ray { origin: h.over_point->0, direction: h.reflectv->0 };
        scale_t(color_at_spec(w, reflect_ray, remaining - 1), h.object.material.reflective.v as int)
    }
}

impl World {
    /// An empty scene: no light, no shapes.
    pub fn new() -> (r: World)
        ensures
            r.light_source is None,
            r.objects@.len() == 0,
    {
        World { light_source: None, objects: Vec::new() }
    }

    /// Append a shape to the scene.
    pub fn add_shape(&mut self, shape: Shape)
        ensures
            final (self).objects@ == old(self).objects@.push(shape),
            final (self).light_source == old(self).light_source,
    {
        self.objects.push(shape);
    }

    /// Whether every shape in the scene is renderable: each placement
    /// transform invertible, and each pattern's transform too.
    pub fn is_renderable(&self) -> (r: bool)
        ensures
            r == world_wf(*self),
    {
        let mut i: usize = 0;
        let mut ok = true;
        while i < self.objects.len()
            invariant
                i <= self.objects@.len(),
                ok == forall|j: int| 0 <= j < i ==> shape_wf(#[trigger] self.objects@[j]),
            decreases self.objects@.len() - i,
        {
            let shape = &self.objects[i];
            let transform_ok = shape.transform.is_invertible();
            let pattern_ok = match &shape.material.pattern {
                Option::Some(p) => p.transform.is_invertible(),
                Option::None => true,
            };
            proof {
                if !(transform_ok && pattern_ok) {
                    assert(!shape_wf(self.objects@[i as int]));
                }
            }
            ok = ok && transform_ok && pattern_ok;
            i = i + 1;
        }
        ok
    }

    /// Every candidate hit of the ray against every shape, in object order,
    /// sorted ascending by `t`.
    #[verifier::rlimit(80)]
    pub fn intersect_world(&self, ray: &Ray) -> (r: Vec<Intersection>)
        requires
            world_wf(*self),
        ensures
            r@ == intersect_world_spec(*self, *ray),
            sorted_by_t(r@),
            forall|j: int| 0 <= j < r@.len() ==> shape_wf(#[trigger] r@[j].object),
    {
        proof {
            reveal(intersect_world_spec);
        }
        let ghost objects = self.objects@;
        let mut gathered: Vec<Intersection> = Vec::new();
        let mut i: usize = 0;
        while i < self.objects.len()
            invariant
                i <= objects.len(),
                self.objects@ == objects,
                world_wf(*self),
                gathered@ == candidates_spec(objects.subrange(0, i as int), *ray),
                forall|j: int| 0 <= j < gathered@.len() ==> shape_wf(#[trigger] gathered@[j].object),
            decreases objects.len() - i,
        {
            let batch = self.objects[i].intersect(ray);
            let ghost before = gathered@;
            let mut k: usize = 0;
            while k < batch.len()
                invariant
                    k <= batch@.len(),
                    batch@ == intersect_spec(objects[i as int], *ray),
                    gathered@ == before.add(batch@.subrange(0, k as int)),
                decreases batch@.len() - k,
            {
                gathered.push(batch[k]);
                k = k + 1;
            }
            proof {
                assert(batch@.subrange(0, batch@.len() as int) =~= batch@);
                assert(objects.subrange(0, i + 1).drop_last() =~= objects.subrange(0, i as int));
                assert(objects.subrange(0, i + 1).last() == objects[i as int]);
                assert forall|j: int| 0 <= j < gathered@.len() implies shape_wf(
                    #[trigger] gathered@[j].object,
                ) by {
                    if j >= before.len() {
                        let b = batch@[j - before.len()];
                        lemma_intersect_objects(objects[i as int], *ray);
                    }
                }
            }
            i = i + 1;
        }
        proof {
            assert(objects.subrange(0, objects.len() as int) =~= objects);
        }
        let sorted = sort_intersections(gathered);
        proof {
            crate::intersections::lemma_sort_by_t_preserves(
                gathered@,
                |x: Intersection| shape_wf(x.object),
            );
        }
        sorted
    }

    /// The color the ray produces against this scene, with `remaining`
    /// reflective bounces allowed.
    #[verifier::rlimit(80)]
    pub fn color_at(&self, ray: &Ray, remaining: i32) -> (r: Tuple)
        requires
            world_wf(*self),
            self.light_source is Some,
        ensures
            r == color_at_spec(*self, *ray, remaining as int),
        decreases bounce_budget(remaining as int), 2int,
    {
        let xs = self.intersect_world(ray);
        let found = find_hit(&xs);
        let result = match found {
            Option::Some(mut hit) => {
                proof {
                    let idx = choose|i: int| 0 <= i < xs@.len() && xs@[i] == found->0;
                    assert(shape_wf(xs@[idx].object));
                }
                hit.prepare_hit(ray);
                hit.shade_hit(self, remaining)
            },
            Option::None => Tuple::color(Scalar { v: 0 }, Scalar { v: 0 }, Scalar { v: 0 }),
        };
        proof {
            reveal_with_fuel(crate::world::shade_hit_spec, 2);
            reveal_with_fuel(crate::world::color_at_spec, 2);
            reveal_with_fuel(crate::world::reflected_color_spec, 2);
            assert(result == color_at_spec(*self, *ray, remaining as int));
        }
        result
    }

    /// Whether the light is blocked from the point by some shape.
    pub fn is_shadowed(&self, point: Tuple) -> (r: bool)
        requires
            world_wf(*self),
        ensures
            r == is_shadowed_spec(*self, point),
    {
        proof {
            reveal(is_shadowed_spec);
        }
        match &self.light_source {
            Option::Some(light) => {
                let v = light.position.minus(point);
                let distance = v.magnitude();
                let ray = Ray::new(point, v.normalize());
                let xs = self.intersect_world(&ray);
                match find_hit(&xs) {
                    Option::Some(hit) => hit.t.v < distance.v,
                    Option::None => false,
                }
            },
            Option::None => false,
        }
    }
}

impl Default for World {
    /// The canonical two-sphere test scene: a white point light up and to
    /// the left, an outer colored sphere and an inner half-size sphere.
    fn default() -> (r: World)
        ensures
            r.light_source == Some(
                PointLight {
                    position: tup(
                        -10 * crate::scalar::SCALE as int,
                        10 * crate::scalar::SCALE as int,
                        -10 * crate::scalar::SCALE as int,
                        crate::scalar::SCALE as int,
                    ),
                    intensity: tup(
                        crate::scalar::SCALE as int,
                        crate::scalar::SCALE as int,
                        crate::scalar::SCALE as int,
                        0,
                    ),
                },
            ),
            r.objects@.len() == 2,
            r.objects@[0].shape_kind == crate::shapes::ShapeKind::Sphere,
            r.objects@[0].transform == crate::matrices::identity_m(),
            r.objects@[0].material == (crate::materials::Material {
                color: tup(800_000_000, crate::scalar::SCALE as int, 600_000_000, 0),
                diffuse: Scalar { v: 700_000_000 },
                specular: Scalar { v: 200_000_000 },
                ..crate::materials::default_material()
            }),
            r.objects@[1].shape_kind == crate::shapes::ShapeKind::Sphere,
            r.objects@[1].transform == crate::matrices::scaling_m(
                500_000_000,
                500_000_000,
                500_000_000,
            ),
            r.objects@[1].material == crate::materials::default_material(),
    {
        let mut sphere1 = crate::shapes::Sphere::new();
        sphere1.material.color = Tuple::color(
            Scalar { v: 800_000_000 },
            Scalar { v: crate::scalar::SCALE },
            Scalar { v: 600_000_000 },
        );
        sphere1.material.diffuse = Scalar { v: 700_000_000 };
        sphere1.material.specular = Scalar { v: 200_000_000 };
        let mut sphere2 = crate::shapes::Sphere::new();
        sphere2.transform = crate::matrices::Matrix4::scaling(
            Scalar { v: 500_000_000 },
            Scalar { v: 500_000_000 },
            Scalar { v: 500_000_000 },
        );
        let light = PointLight::new(
            Tuple::point(
                Scalar { v: -10 * crate::scalar::SCALE },
                Scalar { v: 10 * crate::scalar::SCALE },
                Scalar { v: -10 * crate::scalar::SCALE },
            ),
            Tuple::color(
                Scalar { v: crate::scalar::SCALE },
                Scalar { v: crate::scalar::SCALE },
                Scalar { v: crate::scalar::SCALE },
            ),
        );
        let mut objects: Vec<Shape> = Vec::new();
        objects.push(sphere1);
        objects.push(sphere2);
        World { light_source: Some(light), objects }
    }
}

/// Every candidate a shape yields carries that shape as its object.
#[verifier::rlimit(60)]
proof fn lemma_intersect_objects(s: Shape, ray: Ray)
    ensures
        forall|j: int|
            0 <= j < intersect_spec(s, ray).len() ==> #[trigger] intersect_spec(s, ray)[j].object
                == s,
{
}

/// Stable insertion sort by `t`, ascending.
fn sort_intersections(input: Vec<Intersection>) -> (r: Vec<Intersection>)
    ensures
        r@ == sort_by_t(input@),
        sorted_by_t(r@),
{
    let ghost all = input@;
    let mut out: Vec<Intersection> = Vec::new();
    let mut i: usize = 0;
    while i < input.len()
        invariant
            i <= all.len(),
            input@ == all,
            out@ == sort_by_t(all.subrange(0, i as int)),
            sorted_by_t(out@),
        decreases all.len() - i,
    {
        let x = input[i];
        let mut j: usize = 0;
        while j < out.len() && !(x.t.v < out[j].t.v)
            invariant
                j <= out@.len(),
                sorted_by_t(out@),
                forall|k: int| 0 <= k < j ==> #[trigger] out@[k].t.v <= x.t.v,
            decreases out@.len() - j,
        {
            j = j + 1;
        }
        let ghost out_before = out@;
        out.insert(j, x);
        proof {
            lemma_insert_sorted_at(x, out_before, j as int);
            assert(out_before.insert(j as int, x) =~= out_before.subrange(0, j as int).add(
                seq![x],
            ).add(out_before.subrange(j as int, out_before.len() as int)));
            assert(out@ =~= insert_sorted(x, out_before));
            crate::intersections::lemma_insert_sorted_sorted(x, out_before);
            assert(all.subrange(0, i + 1).drop_last() =~= all.subrange(0, i as int));
            assert(all.subrange(0, i + 1).last() == all[i as int]);
        }
        i = i + 1;
    }
    proof {
        assert(all.subrange(0, all.len() as int) =~= all);
    }
    out
}

} // verus!
