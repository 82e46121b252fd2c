//! A flat, unordered collection of shapes queried as one scene.
//!
//! The query keeps a shrinking closest-so-far bound while scanning the
//! members; `lemma_list_hit_nearest` proves that what comes out is the
//! globally nearest member hit inside the queried interval — membership
//! order never changes the distance of the result.

use vstd::prelude::*;

use crate::fixed::Real;
use crate::hittable::hittable_hit_spec;
use crate::hittable::lemma_hittable_hit_inside;
use crate::hittable::lemma_hittable_hit_tighten;
use crate::hittable::HitRecord;
use crate::hittable::Hittable;
use crate::interval::Interval;
use crate::ray::Ray;

verus! {

/// The rest of the scan from member `i` on, carrying the best record so
/// far and the bound it established.
pub open spec fn list_hit_from(
    objs: Seq<Hittable>,
    i: int,
    r: Ray,
    tmin: Real,
    closest: Real,
    best: Option<HitRecord>,
) -> Option<HitRecord>
    decreases objs.len() - i,
{
    if i < 0 || i >= objs.len() {
        best
    } else {
        match hittable_hit_spec(objs[i], r, Interval { min: tmin, max: closest }) {
            Some(rec) => list_hit_from(objs, i + 1, r, tmin, rec.t, Some(rec)),
            None => list_hit_from(objs, i + 1, r, tmin, closest, best),
        }
    }
}

/// Spec mirror of `HittableList::hit`: the full scan from the first member.
pub open spec fn list_hit_spec(objs: Seq<Hittable>, r: Ray, ray_t: Interval) -> Option<
    HitRecord,
> {
    list_hit_from(objs, 0, r, ray_t.min, ray_t.max, None)
}

/// An ordered sequence of owned shapes, queried as their unordered union.
pub struct HittableList {
    pub objects: Vec<Hittable>,
}

impl HittableList {
    /// An empty scene.
    pub fn new() -> (r: HittableList)
        ensures
            r.objects@ == Seq::<Hittable>::empty(),
    {
        HittableList { objects: Vec::new() }
    }

    /// Add a shape to the scene.
    pub fn push(&mut self, h: Hittable)
        ensures
            final (self).objects@ == old(self).objects@.push(h),
    {
        self.objects.push(h);
    }

    /// How many shapes the scene holds.
    pub fn len(&self) -> (n: usize)
        ensures
            n == self.objects@.len(),
    {
        self.objects.len()
    }

    /// The nearest member hit strictly inside `ray_t`, or none. Scans all
    /// members, querying each against the interval capped by the closest
    /// hit seen so far.
    pub fn hit(&self, r: &Ray, ray_t: Interval) -> (res: Option<HitRecord>)
        ensures
            res == list_hit_spec(self.objects@, *r, ray_t),
    {
        let mut temp_rec: Option<HitRecord> = None;
        let mut closest_so_far = ray_t.max;

        let n = self.objects.len();
        let mut idx: usize = 0;
        while idx < n
            invariant
                n == self.objects@.len(),
                idx <= n,
                list_hit_spec(self.objects@, *r, ray_t) == list_hit_from(
                    self.objects@,
                    idx as int,
                    *r,
                    ray_t.min,
                    closest_so_far,
                    temp_rec,
                ),
            decreases n - idx,
        {
            match self.objects[idx].hit(r, Interval::new(ray_t.min, closest_so_far)) {
                Some(rec) => {
                    closest_so_far = rec.t;
                    temp_rec = Some(rec);
                },
                None => {},
            }
            idx = idx + 1;
        }

        temp_rec
    }
}

/// The scan from `i` returns the nearest hit among the remaining members
/// within the entry bound, never worse than the best carried in.
#[verifier::rlimit(100)]
#[verifier::spinoff_prover]
proof fn lemma_list_hit_from_nearest(
    objs: Seq<Hittable>,
    i: int,
    r: Ray,
    tmin: Real,
    closest: Real,
    best: Option<HitRecord>,
)
    requires
        0 <= i <= objs.len(),
        best matches Some(b) ==> b.t.raw == closest.raw,
    ensures
        ({
            let entry = Interval { min: tmin, max: closest };
            let res = list_hit_from(objs, i, r, tmin, closest, best);
            &&& (res == best || (res is Some && exists|j: int|
                i <= j < objs.len() && #[trigger] hittable_hit_spec(objs[j], r, entry) == res))
            &&& forall|j: int|
                i <= j < objs.len() && #[trigger] hittable_hit_spec(objs[j], r, entry) is Some
                    ==> res is Some && res->Some_0.t.raw <= hittable_hit_spec(
                    objs[j],
                    r,
                    entry,
                )->Some_0.t.raw
            &&& (best is Some ==> res is Some && res->Some_0.t.raw <= closest.raw)
        }),
    decreases objs.len() - i,
{
    let entry = Interval { min: tmin, max: closest };
    let res = list_hit_from(objs, i, r, tmin, closest, best);
    if i == objs.len() {
    } else {
        match hittable_hit_spec(objs[i], r, entry) {
            Some(rec) => {
                lemma_hittable_hit_inside(objs[i], r, entry);
                let sub = Interval { min: tmin, max: rec.t };
                lemma_list_hit_from_nearest(objs, i + 1, r, tmin, rec.t, Some(rec));
                assert forall|j: int| i + 1 <= j < objs.len() implies hittable_hit_spec(
                    objs[j],
                    r,
                    sub,
                ) == (match hittable_hit_spec(objs[j], r, entry) {
                    Some(hj) => if (hj.t.raw as int) < (rec.t.raw as int) {
                        Some(hj)
                    } else {
                        None::<HitRecord>
                    },
                    None => None::<HitRecord>,
                }) by {
                    lemma_hittable_hit_tighten(objs[j], r, entry, sub);
                }
                assert forall|j: int|
                    i <= j < objs.len() && #[trigger] hittable_hit_spec(objs[j], r, entry)
                        is Some implies res is Some && res->Some_0.t.raw
                    <= hittable_hit_spec(objs[j], r, entry)->Some_0.t.raw by {
                    if j > i {
                        let hj = hittable_hit_spec(objs[j], r, entry)->Some_0;
                        if (hj.t.raw as int) < (rec.t.raw as int) {
                            assert(hittable_hit_spec(objs[j], r, sub) is Some);
                        }
                    }
                }
                if !(res == Some(rec)) {
                    let res2 = list_hit_from(objs, i + 1, r, tmin, rec.t, Some(rec));
                    assert(res2 == res);
                    let j = choose|j: int|
                        i + 1 <= j < objs.len() && #[trigger] hittable_hit_spec(objs[j], r, sub)
                            == res;
                    assert(hittable_hit_spec(objs[j], r, entry) == res);
                }
            },
            None => {
                lemma_list_hit_from_nearest(objs, i + 1, r, tmin, closest, best);
            },
        }
    }
}

/// Law: the scene returns the nearest of the candidate hits. When the
/// query succeeds, the record is exactly some member's own hit against the
/// same interval, and no member hit is nearer; when it fails, no member
/// hit exists at all.
pub proof fn lemma_list_hit_nearest(objs: Seq<Hittable>, r: Ray, ray_t: Interval)
    ensures
        list_hit_spec(objs, r, ray_t) is Some ==> exists|j: int|
            0 <= j < objs.len() && #[trigger] hittable_hit_spec(objs[j], r, ray_t)
                == list_hit_spec(objs, r, ray_t),
        forall|j: int|
            0 <= j < objs.len() && #[trigger] hittable_hit_spec(objs[j], r, ray_t) is Some
                ==> list_hit_spec(objs, r, ray_t) is Some && list_hit_spec(
                objs,
                r,
                ray_t,
            )->Some_0.t.raw <= hittable_hit_spec(objs[j], r, ray_t)->Some_0.t.raw,
{
    assert(ray_t == Interval { min: ray_t.min, max: ray_t.max });
    lemma_list_hit_from_nearest(objs, 0, r, ray_t.min, ray_t.max, None);
}

/// Law: any record the scene returns has a parameter strictly inside the
/// queried interval — in particular strictly positive whenever the lower
/// bound is nonnegative — and a normal that opposes the incoming ray.
pub proof fn lemma_list_hit_record_sound(objs: Seq<Hittable>, r: Ray, ray_t: Interval)
    ensures
        list_hit_spec(objs, r, ray_t) matches Some(rec) ==> crate::interval::surrounds_spec(
            ray_t,
            rec.t.raw as int,
        ),
        list_hit_spec(objs, r, ray_t) matches Some(rec) ==> crate::vec3::vdot(
            r.direction,
            rec.normal,
        ) <= 0,
{
    if list_hit_spec(objs, r, ray_t) is Some {
        lemma_list_hit_nearest(objs, r, ray_t);
        let j = choose|j: int|
            0 <= j < objs.len() && #[trigger] hittable_hit_spec(objs[j], r, ray_t)
                == list_hit_spec(objs, r, ray_t);
        lemma_hittable_hit_inside(objs[j], r, ray_t);
        match objs[j] {
            Hittable::Sphere(s) => {
                crate::sphere::lemma_sphere_hit_normal_opposes(s, r, ray_t);
            },
        }
    }
}

} // verus!
