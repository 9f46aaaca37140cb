//! Candidate hits and the visible-hit rule.
//!
//! A raw `Intersection` is a parameter `t` and the shape it strikes.
//! `prepare_hit` derives the shading state against a concrete ray: hit
//! point, eye vector, (possibly flipped) normal, the acne-avoiding
//! `over_point`, and the reflection vector.  `find_hit` picks the visible
//! hit: the first one with the lowest `t` above the hit threshold.

use crate::lighting::lighting;
use crate::matrices::is_invertible_m;
use crate::rays::{position_r, Ray};
use crate::scalar::{within, Scalar};
use crate::shapes::{approx_shape, normal_at_spec, shape_wf, Shape};
use crate::tuples::{add_t, dot_t, neg_t, reflect_t, scale_t, Tuple};
use crate::world::{
    bounce_budget, reflected_color_spec, shade_hit_spec, World,
};
use crate::{float_eq, EPSILON};
use vstd::prelude::*;

verus! {

/// Hits closer along the ray than this (0.01 world units, in raw units) are
/// grazing or self-intersection artifacts and are never the visible hit.
pub const HIT_THRESHOLD: i64 = 10_000_000;

/// A candidate hit, with shading state derived lazily by `prepare_hit`.
#[derive(Clone, Copy, Debug)]
pub struct Intersection {
    pub t: Scalar,
    pub object: Shape,
    pub point: Option<Tuple>,
    pub over_point: Option<Tuple>,
    pub eyev: Option<Tuple>,
    pub normalv: Option<Tuple>,
    pub inside: Option<bool>,
    pub reflectv: Option<Tuple>,
}

/// A raw hit at parameter `t` (raw value) on a shape, before preparation.
pub open spec fn inter(t: int, object: Shape) -> Intersection {
    Intersection {
        t: Scalar { v: t as i64 },
        object,
        point: None,
        over_point: None,
        eyev: None,
        normalv: None,
        inside: None,
        reflectv: None,
    }
}

/// A hit is prepared once every derived field is filled in.
pub open spec fn prepared(h: Intersection) -> bool {
    h.point is Some && h.over_point is Some && h.eyev is Some && h.normalv is Some && h.inside
        is Some && h.reflectv is Some
}

/// The shading state `prepare_hit` derives: the exact hit point, the eye
/// vector, the normal flipped toward the eye when the hit is on the inside,
/// the `over_point` pushed off the surface by the tolerance, and the
/// reflection of the ray about the facing normal.
pub open spec fn prepare_spec(h: Intersection, ray: Ray) -> Intersection {
    let position = position_r(ray, h.t.v as int);
    let eyev = neg_t(ray.direction);
    let raw_normal = normal_at_spec(h.object, position);
    let inside = dot_t(raw_normal, eyev) < 0;
    let normal = if inside {
        neg_t(raw_normal)
    } else {
        raw_normal
    };
    Intersection {
        t: h.t,
        object: h.object,
        point: Some(position),
        over_point: Some(add_t(position, scale_t(normal, EPSILON as int))),
        eyev: Some(eyev),
        normalv: Some(normal),
        inside: Some(inside),
        reflectv: Some(reflect_t(ray.direction, normal)),
    }
}

/// One step of the visible-hit scan: a candidate above the threshold
/// replaces the best so far only when strictly closer, so the first of
/// equally close hits wins.
pub open spec fn hit_step(best: Option<Intersection>, x: Intersection) -> Option<Intersection> {
    if x.t.v > HIT_THRESHOLD && (best is None || x.t.v < best->0.t.v) {
        Some(x)
    } else {
        best
    }
}

/// The visible-hit scan from position `i` with the best candidate so far.
pub open spec fn find_hit_from(
    xs: Seq<Intersection>,
    i: int,
    best: Option<Intersection>,
) -> Option<Intersection>
    decreases xs.len() - i,
{
    if i < 0 || i >= xs.len() {
        best
    } else {
        find_hit_from(xs, i + 1, hit_step(best, xs[i]))
    }
}

/// The visible hit of a candidate list: the first hit with the lowest `t`
/// above the hit threshold, if any candidate clears it.
pub open spec fn find_hit_spec(xs: Seq<Intersection>) -> Option<Intersection> {
    find_hit_from(xs, 0, None)
}

/// Insert a hit into a `t`-sorted list, after any hits with equal `t`.
pub open spec fn insert_sorted(x: Intersection, s: Seq<Intersection>) -> Seq<Intersection>
    decreases s.len(),
{
    if s.len() == 0 {
        seq![x]
    } else if x.t.v < s[0].t.v {
        seq![x].add(s)
    } else {
        seq![s[0]].add(insert_sorted(x, s.subrange(1, s.len() as int)))
    }
}

/// Stable sort by `t`: each element inserted in turn, left to right.
pub open spec fn sort_by_t(s: Seq<Intersection>) -> Seq<Intersection>
    decreases s.len(),
{
    if s.len() == 0 {
        Seq::empty()
    } else {
        insert_sorted(s.last(), sort_by_t(s.drop_last()))
    }
}

/// Nondecreasing in `t`.
pub open spec fn sorted_by_t(s: Seq<Intersection>) -> bool {
    forall|i: int, j: int| 0 <= i <= j < s.len() ==> s[i].t.v <= s[j].t.v
}

/// Inserting into a sorted list keeps it sorted.
pub proof fn lemma_insert_sorted_sorted(x: Intersection, s: Seq<Intersection>)
    requires
        sorted_by_t(s),
    ensures
        sorted_by_t(insert_sorted(x, s)),
        insert_sorted(x, s).len() == s.len() + 1,
    decreases s.len(),
{
    if s.len() == 0 {
    } else if x.t.v < s[0].t.v {
        assert forall|i: int, j: int|
            0 <= i <= j < insert_sorted(x, s).len() implies insert_sorted(x, s)[i].t.v
            <= insert_sorted(x, s)[j].t.v by {
            if i > 0 {
                assert(insert_sorted(x, s)[i] == s[i - 1]);
                assert(insert_sorted(x, s)[j] == s[j - 1]);
            } else if j > 0 {
                assert(insert_sorted(x, s)[j] == s[j - 1]);
                assert(s[0].t.v <= s[j - 1].t.v);
            }
        }
    } else {
        let tail = s.subrange(1, s.len() as int);
        assert(sorted_by_t(tail)) by {
            assert forall|i: int, j: int| 0 <= i <= j < tail.len() implies tail[i].t.v
                <= tail[j].t.v by {
                assert(tail[i] == s[i + 1]);
                assert(tail[j] == s[j + 1]);
            }
        }
        lemma_insert_sorted_sorted(x, tail);
        let rest = insert_sorted(x, tail);
        assert forall|i: int, j: int|
            0 <= i <= j < insert_sorted(x, s).len() implies insert_sorted(x, s)[i].t.v
            <= insert_sorted(x, s)[j].t.v by {
            if i == 0 && j > 0 {
                assert(insert_sorted(x, s)[j] == rest[j - 1]);
                assert(forall|k: int| 0 <= k < rest.len() ==> s[0].t.v <= #[trigger] rest[k].t.v)
                    by {
                    lemma_insert_sorted_lower(x, tail, s[0].t.v as int);
                }
            } else if i > 0 {
                assert(insert_sorted(x, s)[i] == rest[i - 1]);
                assert(insert_sorted(x, s)[j] == rest[j - 1]);
            }
        }
    }
}

/// A lower bound on every element survives insertion of a value that also
/// clears it.
proof fn lemma_insert_sorted_lower(x: Intersection, s: Seq<Intersection>, bound: int)
    requires
        bound <= x.t.v,
        forall|k: int| 0 <= k < s.len() ==> bound <= #[trigger] s[k].t.v,
    ensures
        forall|k: int|
            0 <= k < insert_sorted(x, s).len() ==> bound <= #[trigger] insert_sorted(x, s)[k].t.v,
    decreases s.len(),
{
    if s.len() == 0 {
    } else if x.t.v < s[0].t.v {
    } else {
        let tail = s.subrange(1, s.len() as int);
        lemma_insert_sorted_lower(x, tail, bound);
    }
}

/// A property of every element survives insertion of an element that has
/// it.
pub proof fn lemma_insert_sorted_preserves(
    x: Intersection,
    s: Seq<Intersection>,
    p: spec_fn(Intersection) -> bool,
)
    requires
        p(x),
        forall|i: int| 0 <= i < s.len() ==> p(#[trigger] s[i]),
    ensures
        forall|i: int|
            0 <= i < insert_sorted(x, s).len() ==> p(#[trigger] insert_sorted(x, s)[i]),
    decreases s.len(),
{
    if s.len() == 0 {
    } else if x.t.v < s[0].t.v {
        assert forall|i: int| 0 <= i < insert_sorted(x, s).len() implies p(
            #[trigger] insert_sorted(x, s)[i],
        ) by {
            if i > 0 {
                assert(insert_sorted(x, s)[i] == s[i - 1]);
            }
        }
    } else {
        let tail = s.subrange(1, s.len() as int);
        lemma_insert_sorted_preserves(x, tail, p);
        assert forall|i: int| 0 <= i < insert_sorted(x, s).len() implies p(
            #[trigger] insert_sorted(x, s)[i],
        ) by {
            if i == 0 {
                assert(insert_sorted(x, s)[0] == s[0]);
            } else {
                assert(insert_sorted(x, s)[i] == insert_sorted(x, tail)[i - 1]);
            }
        }
    }
}

/// A property of every element survives the stable sort.
pub proof fn lemma_sort_by_t_preserves(s: Seq<Intersection>, p: spec_fn(Intersection) -> bool)
    requires
        forall|i: int| 0 <= i < s.len() ==> p(#[trigger] s[i]),
    ensures
        forall|i: int| 0 <= i < sort_by_t(s).len() ==> p(#[trigger] sort_by_t(s)[i]),
    decreases s.len(),
{
    if s.len() == 0 {
    } else {
        lemma_sort_by_t_preserves(s.drop_last(), p);
        lemma_insert_sorted_preserves(s.last(), sort_by_t(s.drop_last()), p);
    }
}

/// Inserting into a sorted list at the first position whose `t` is strictly
/// larger matches the recursive insertion spec.
pub proof fn lemma_insert_sorted_at(x: Intersection, s: Seq<Intersection>, j: int)
    requires
        0 <= j <= s.len(),
        forall|k: int| 0 <= k < j ==> #[trigger] s[k].t.v <= x.t.v,
        j < s.len() ==> x.t.v < s[j].t.v,
    ensures
        insert_sorted(x, s) =~= s.subrange(0, j).add(seq![x]).add(
            s.subrange(j, s.len() as int),
        ),
    decreases j,
{
    if j == 0 {
        if s.len() == 0 {
        } else {
        }
    } else {
        let tail = s.subrange(1, s.len() as int);
        lemma_insert_sorted_at(x, tail, j - 1);
        assert(insert_sorted(x, s) == seq![s[0]].add(insert_sorted(x, tail)));
        assert(tail.subrange(0, j - 1) =~= s.subrange(1, j));
        assert(tail.subrange(j - 1, tail.len() as int) =~= s.subrange(j, s.len() as int));
        assert(seq![s[0]].add(s.subrange(1, j)) =~= s.subrange(0, j));
    }
}

/// Tolerance equality of candidate hits: `t` within tolerance, same object.
pub open spec fn approx_inter(a: Intersection, b: Intersection) -> bool {
    within(a.t.v as int, b.t.v as int, EPSILON as int) && approx_shape(a.object, b.object)
}

impl Intersection {
    /// A raw hit at `t` on a shape; shading state comes from `prepare_hit`.
    pub fn new(t: Scalar, object: Shape) -> (r: Intersection)
        ensures
            r == inter(t.v as int, object),
    {
        Intersection {
            t,
            object,
            point: None,
            over_point: None,
            eyev: None,
            normalv: None,
            inside: None,
            reflectv: None,
        }
    }

    /// Derive the shading state of this hit against the ray that produced
    /// it: hit point, eye vector, facing normal, the off-surface
    /// `over_point` and the reflection vector.
    pub fn prepare_hit(&mut self, ray: &Ray)
        requires
            is_invertible_m(old(self).object.transform),
        ensures
            *final(self) == prepare_spec(*old(self), *ray),
            prepared(*final(self)),
    {
        let position = ray.position(self.t);
        let eyev = ray.direction.negated();
        let normalv = self.object.normal_at(position);
        self.eyev = Some(eyev);
        self.point = Some(position);
        let facing = if normalv.dot(eyev).v < 0 {
            self.inside = Some(true);
            normalv.negated()
        } else {
            self.inside = Some(false);
            normalv
        };
        self.normalv = Some(facing);
        self.over_point = Some(position.plus(facing.scaled(Scalar { v: EPSILON })));
        self.reflectv = Some(ray.direction.reflect(facing));
    }

    /// The color contributed by the reflected ray: black when the bounce
    /// budget is spent or the surface does not reflect, else the recursive
    /// color along the reflection cast from the `over_point`, scaled by the
    /// reflectivity.
    pub fn reflected_color(&self, world: &World, remaining: i32) -> (r: Tuple)
        requires
            self.over_point is Some,
            self.reflectv is Some,
            crate::world::world_wf(*world),
            world.light_source is Some,
        ensures
            r == reflected_color_spec(*world, *self, remaining as int),
        decreases bounce_budget(remaining as int), 0int,
    {
        let result = if remaining <= 0 || self.object.material.reflective.v == 0 {
            Tuple::color(Scalar { v: 0 }, Scalar { v: 0 }, Scalar { v: 0 })
        } else {
            let reflect_ray = Ray::new(self.over_point.unwrap(), self.reflectv.unwrap());
            let color = world.color_at(&reflect_ray, remaining - 1);
            color.scaled(self.object.material.reflective)
        };
        proof {
            reveal_with_fuel(crate::world::shade_hit_spec, 2);
            reveal_with_fuel(crate::world::color_at_spec, 2);
            reveal_with_fuel(crate::world::reflected_color_spec, 2);
            assert(result == reflected_color_spec(*world, *self, remaining as int));
        }
        result
    }

    /// Phong shading at this prepared hit plus the reflected contribution.
    pub fn shade_hit(&self, world: &World, remaining: i32) -> (r: Tuple)
        requires
            prepared(*self),
            shape_wf(self.object),
            crate::world::world_wf(*world),
            world.light_source is Some,
        ensures
            r == shade_hit_spec(*world, *self, remaining as int),
        decreases bounce_budget(remaining as int), 1int,
    {
        let shadowed = world.is_shadowed(self.over_point.unwrap());
        let surface = lighting(
            self.object.material,
            self.object,
            world.light_source.unwrap(),
            self.over_point.unwrap(),
            self.eyev.unwrap(),
            self.normalv.unwrap(),
            shadowed,
        );
        let reflected = self.reflected_color(world, remaining);
        let result = surface.plus(reflected);
        proof {
            reveal_with_fuel(crate::world::shade_hit_spec, 2);
            reveal_with_fuel(crate::world::color_at_spec, 2);
            reveal_with_fuel(crate::world::reflected_color_spec, 2);
            assert(result == shade_hit_spec(*world, *self, remaining as int));
        }
        result
    }
}

impl PartialEq for Intersection {
    /// Tolerance equality: `t` within tolerance and the same object.
    fn eq(&self, other: &Intersection) -> (r: bool) {
        float_eq(self.t, other.t) && self.object == other.object
    }
}

impl vstd::std_specs::cmp::PartialEqSpecImpl for Intersection {
    open spec fn obeys_eq_spec() -> bool {
        true
    }

    open spec fn eq_spec(&self, other: &Intersection) -> bool {
        approx_inter(*self, *other)
    }
}

/// The visible hit: the first candidate with the lowest `t` above the hit
/// threshold.  Candidates at or below the threshold are ignored, so the
/// result, when present, is a strictly positive hit at least the threshold
/// away; when every candidate is at or below it there is no visible hit.
pub fn find_hit(intersections: &Vec<Intersection>) -> (r: Option<Intersection>)
    ensures
        r == find_hit_spec(intersections@),
        r is None ==> forall|i: int|
            0 <= i < intersections@.len() ==> #[trigger] intersections@[i].t.v <= HIT_THRESHOLD,
        r is Some ==> {
            &&& exists|i: int|
                0 <= i < intersections@.len() && intersections@[i] == r->0
            &&& r->0.t.v > HIT_THRESHOLD
            &&& forall|i: int|
                0 <= i < intersections@.len() && #[trigger] intersections@[i].t.v > HIT_THRESHOLD
                    ==> r->0.t.v <= intersections@[i].t.v
        },
{
    let ghost all = intersections@;
    let mut best: Option<Intersection> = None;
    let mut i: usize = 0;
    while i < intersections.len()
        invariant
            i <= all.len(),
            intersections@ == all,
            find_hit_from(all, i as int, best) == find_hit_spec(all),
            best is None ==> forall|j: int|
                0 <= j < i ==> #[trigger] all[j].t.v <= HIT_THRESHOLD,
            best is Some ==> {
                &&& exists|j: int| 0 <= j < i && all[j] == best->0
                &&& best->0.t.v > HIT_THRESHOLD
                &&& forall|j: int|
                    0 <= j < i && #[trigger] all[j].t.v > HIT_THRESHOLD ==> best->0.t.v
                        <= all[j].t.v
            },
        decreases all.len() - i,
    {
        let candidate = intersections[i];
        if candidate.t.v > HIT_THRESHOLD {
            match &best {
                Option::Some(b) => {
                    if candidate.t.v < b.t.v {
                        best = Some(candidate);
                    }
                },
                Option::None => {
                    best = Some(candidate);
                },
            }
        }
        i = i + 1;
    }
    best
}

} // verus!
