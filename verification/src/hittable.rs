//! Things a ray can hit, and the scene that holds them.

use crate::material::Material;
use crate::ray::Ray;
use crate::vector::{lemma_neg_mirrors, lemma_rank_of_positive_word, Scalar, Vector3, ZERO_BITS};
use std::ops::Range;
use vstd::prelude::*;

verus! {

/// Whether `t` lies strictly inside `interval`. Both ends are left out.
pub open spec fn inside(interval: Range<Scalar>, t: Scalar) -> bool {
    interval.start.lt_spec(t) && t.lt_spec(interval.end)
}

/// Whether `t` lies strictly inside `interval`.
pub fn contains(interval: &Range<Scalar>, t: Scalar) -> (within: bool)
    ensures
        within == inside(*interval, t),
{
    interval.start.lt(t) && t.lt(interval.end)
}

/// The part of `interval` below `end`.
pub open spec fn narrowed(interval: Range<Scalar>, end: Scalar) -> Range<Scalar> {
    Range { start: interval.start, end }
}

/// Where and how a ray met a surface.
///
/// `outward_normal` is the unit normal turned against the incoming ray;
/// `front_face` tells whether the geometric normal already pointed that way.
/// `t` is the ray parameter of `point`.
#[derive(Clone, Copy, Debug, PartialEq, Eq, Structural)]
pub struct HitRecord {
    pub point: Vector3,
    pub outward_normal: Vector3,
    pub t: Scalar,
    pub front_face: bool,
    pub material: Material,
}

/// Whether a ray runs along a normal rather than against it, given their
/// dot product.
pub open spec fn runs_along(alignment: Scalar) -> bool {
    (Scalar { bits: ZERO_BITS }).lt_spec(alignment)
}

impl HitRecord {
    /// The normal to record for a surface with the given geometric normal,
    /// and whether the ray met the front face. `alignment` is the dot
    /// product of the ray direction and the geometric normal: where it is
    /// positive the ray comes from inside and the normal is turned round.
    pub open spec fn face_normal(alignment: Scalar, outward_normal: Vector3) -> (Vector3, bool) {
        if runs_along(alignment) {
            (outward_normal.neg_spec(), false)
        } else {
            (outward_normal, true)
        }
    }

    /// The record of a hit at `point`, ray parameter `t`, on a surface of
    /// `material` whose geometric normal there is `outward_normal`. The
    /// normal is recorded turned against the ray, as
    /// [`HitRecord::face_normal`] says.
    pub fn new(
        point: Vector3,
        outward_normal: Vector3,
        t: Scalar,
        alignment: Scalar,
        material: Material,
    ) -> (record: Self)
        ensures
            record == (HitRecord {
                point,
                outward_normal: Self::face_normal(alignment, outward_normal).0,
                t,
                front_face: Self::face_normal(alignment, outward_normal).1,
                material,
            }),
    {
        let (normal, front_face) = HitRecord::calculate_face_normal(alignment, outward_normal);
        Self { point, outward_normal: normal, t, front_face, material }
    }

    /// Tells whether the geometric normal faces the ray, and returns it
    /// turned round where the ray comes from inside.
    pub fn calculate_face_normal(alignment: Scalar, outward_normal: Vector3) -> (oriented: (
        Vector3,
        bool,
    ))
        ensures
            oriented == Self::face_normal(alignment, outward_normal),
    {
        if Scalar::from_bits(ZERO_BITS).lt(alignment) {
            // ray is inside
            return (outward_normal.neg(), false);
        }
        (outward_normal, true)
    }
}

/// The recorded normal never runs along the ray. The dot product of the
/// ray with a normal turned round is the dot product with the normal as it
/// was, with the opposite sign; so where `alignment` is a number, the one
/// that belongs to the recorded normal is at most zero.
pub proof fn lemma_recorded_normal_faces_the_ray(alignment: Scalar, outward_normal: Vector3)
    requires
        !alignment.is_nan_spec(),
    ensures
        ({
            let (normal, front_face) = HitRecord::face_normal(alignment, outward_normal);
            let recorded = if front_face {
                alignment
            } else {
                alignment.neg_spec()
            };
            &&& recorded.le_spec(Scalar { bits: ZERO_BITS })
            &&& !runs_along(recorded)
            &&& front_face <==> normal == outward_normal && !runs_along(alignment)
            &&& !front_face ==> normal == outward_normal.neg_spec()
        }),
{
    lemma_neg_mirrors(alignment, Scalar { bits: ZERO_BITS });
    lemma_rank_of_positive_word(ZERO_BITS);
}

/// A primitive that can be tested against a ray.
///
/// `hit` looks for an intersection whose ray parameter lies strictly inside
/// `interval` and reports it, or `None` where there is none. The answer
/// depends on the primitive, the ray and the interval alone: `hit_spec` names
/// it, and the contracts of the scene are stated over that name.
pub trait Hittable: Sync {
    spec fn hit_spec(&self, ray: Ray, interval: Range<Scalar>) -> Option<HitRecord>;

    fn hit(&self, ray: &Ray, interval: Range<Scalar>) -> (found: Option<HitRecord>)
        ensures
            found == self.hit_spec(*ray, interval),
            found matches Some(record) ==> inside(interval, record.t),
    ;
}

/// The state of a sweep over `objects` in order: the upper bound that the
/// next member is searched under, and the hit that set it, if any.
///
/// The sweep starts with the end of `interval` and no hit. Each member is
/// asked for a hit below the current bound; a hit becomes the new record and
/// its parameter the new bound, a miss changes nothing.
pub open spec fn sweep(objects: Seq<Box<dyn Hittable>>, ray: Ray, interval: Range<Scalar>) -> (
    Scalar,
    Option<HitRecord>,
)
    decreases objects.len(),
{
    if objects.len() == 0 {
        (interval.end, None)
    } else {
        let before = sweep(objects.drop_last(), ray, interval);
        match objects.last().hit_spec(ray, narrowed(interval, before.0)) {
            Some(record) => (record.t, Some(record)),
            None => before,
        }
    }
}

/// A scene: primitives in the order in which they are searched.
pub struct HittableList {
    pub objects: Vec<Box<dyn Hittable>>,
}

impl HittableList {
    /// The hit that a sweep over all members ends with: every member is
    /// visited, each searched only below the nearest hit found so far. The
    /// hit lies strictly inside `interval`.
    pub fn hit(&self, ray: &Ray, interval: Range<Scalar>) -> (found: Option<HitRecord>)
        ensures
            found == sweep(self.objects@, *ray, interval).1,
            found matches Some(record) ==> inside(interval, record.t),
            self.objects@.len() == 0 ==> found is None,
    {
        let mut closest: Scalar = interval.end;
        let mut found: Option<HitRecord> = None;
        let n: usize = self.objects.len();
        for i in 0..n
            invariant
                n == self.objects@.len(),
                (closest, found) == sweep(self.objects@.take(i as int), *ray, interval),
                match found {
                    Some(record) => closest == record.t && inside(interval, record.t),
                    None => closest == interval.end,
                },
        {
            assert(self.objects@.take(i + 1).drop_last() =~= self.objects@.take(i as int));
            let attempt = self.objects[i].hit(ray, interval.start..closest);
            if let Some(record) = attempt {
                closest = record.t;
                found = Some(record);
            }
        }
        assert(self.objects@.take(n as int) =~= self.objects@);
        found
    }
}

/// Whether every member of `objects` keeps to the interval it is asked
/// about: what it reports for `ray` lies strictly inside.
pub open spec fn keep_to_interval(objects: Seq<Box<dyn Hittable>>, ray: Ray) -> bool {
    forall|i: int, interval: Range<Scalar>|
        0 <= i < objects.len() ==> (#[trigger] objects[i].hit_spec(ray, interval) matches Some(
            record,
        ) ==> inside(interval, record.t))
}

/// Whether the answer of every member of `objects` is the same hit however
/// far the search is cut short: searched below a bound inside `interval`, a
/// member reports what it reports for all of `interval` where that lies
/// below the bound, and nothing where it does not.
pub open spec fn answer_alike(objects: Seq<Box<dyn Hittable>>, ray: Ray, interval: Range<Scalar>) -> bool {
    forall|i: int, end: Scalar|
        0 <= i < objects.len() && end.lt_spec(interval.end) ==> #[trigger] objects[i].hit_spec(
            ray,
            narrowed(interval, end),
        ) == match objects[i].hit_spec(ray, interval) {
            Some(record) => if record.t.lt_spec(end) {
                Some(record)
            } else {
                None
            },
            None => None,
        }
}

/// The bound of a sweep is the parameter of its hit, or the end of the
/// interval where nothing was hit.
pub proof fn lemma_sweep_bound(objects: Seq<Box<dyn Hittable>>, ray: Ray, interval: Range<Scalar>)
    ensures
        sweep(objects, ray, interval).0 == match sweep(objects, ray, interval).1 {
            Some(record) => record.t,
            None => interval.end,
        },
    decreases objects.len(),
{
    if objects.len() > 0 {
        lemma_sweep_bound(objects.drop_last(), ray, interval);
    }
}

/// A sweep ends without a hit exactly when no member has a hit anywhere in
/// the interval.
pub proof fn lemma_sweep_misses_iff_all_miss(
    objects: Seq<Box<dyn Hittable>>,
    ray: Ray,
    interval: Range<Scalar>,
)
    ensures
        sweep(objects, ray, interval).1 is None <==> forall|i: int|
            0 <= i < objects.len() ==> (#[trigger] objects[i]).hit_spec(ray, interval) is None,
    decreases objects.len(),
{
    if objects.len() > 0 {
        let front = objects.drop_last();
        lemma_sweep_misses_iff_all_miss(front, ray, interval);
        lemma_sweep_bound(front, ray, interval);
        assert(forall|i: int| 0 <= i < front.len() ==> front[i] == objects[i]);
        if sweep(front, ray, interval).1 is None {
            assert(narrowed(interval, interval.end) == interval);
            if objects.last().hit_spec(ray, interval) is None {
                assert forall|i: int| 0 <= i < objects.len() implies (#[trigger] objects[i]).hit_spec(
                    ray,
                    interval,
                ) is None by {
                    if i < front.len() {
                        assert(front[i] == objects[i]);
                    }
                }
            } else {
                assert(objects[objects.len() - 1].hit_spec(ray, interval) is Some);
            }
        } else {
            let i = choose|i: int|
                0 <= i < front.len() && !((#[trigger] front[i]).hit_spec(ray, interval) is None);
            assert(objects[i].hit_spec(ray, interval) is Some);
        }
    }
}

/// The hit of a sweep is the answer of one member, searched below the bound
/// that the members before it had set, and no later member has a hit below it.
pub proof fn lemma_sweep_hit_is_last(
    objects: Seq<Box<dyn Hittable>>,
    ray: Ray,
    interval: Range<Scalar>,
)
    requires
        sweep(objects, ray, interval).1 is Some,
    ensures
        exists|i: int|
            {
                &&& 0 <= i < objects.len()
                &&& sweep(objects, ray, interval).1 == (#[trigger] objects[i]).hit_spec(
                    ray,
                    narrowed(interval, sweep(objects.take(i), ray, interval).0),
                )
                &&& forall|j: int|
                    i < j < objects.len() ==> (#[trigger] objects[j]).hit_spec(
                        ray,
                        narrowed(interval, sweep(objects, ray, interval).0),
                    ) is None
            },
    decreases objects.len(),
{
    let n = objects.len() as int;
    let front = objects.drop_last();
    assert(objects.take(n - 1) =~= front);
    let before = sweep(front, ray, interval);
    if objects.last().hit_spec(ray, narrowed(interval, before.0)) is Some {
        assert(objects[n - 1] == objects.last());
    } else {
        lemma_sweep_hit_is_last(front, ray, interval);
        let i = choose|i: int|
            {
                &&& 0 <= i < front.len()
                &&& sweep(front, ray, interval).1 == (#[trigger] front[i]).hit_spec(
                    ray,
                    narrowed(interval, sweep(front.take(i), ray, interval).0),
                )
                &&& forall|j: int|
                    i < j < front.len() ==> (#[trigger] front[j]).hit_spec(
                        ray,
                        narrowed(interval, sweep(front, ray, interval).0),
                    ) is None
            };
        assert(front.take(i) =~= objects.take(i));
        assert(front[i] == objects[i]);
        assert forall|j: int| i < j < objects.len() implies (#[trigger] objects[j]).hit_spec(
            ray,
            narrowed(interval, sweep(objects, ray, interval).0),
        ) is None by {
            if j < front.len() {
                assert(front[j] == objects[j]);
            }
        }
    }
}

/// What it means for `best`, the answer of member `k`, to be the nearest
/// hit of `objects`: no member has a hit below it, and every member before
/// `k` that has a hit has it strictly further away.
pub open spec fn is_nearest(
    objects: Seq<Box<dyn Hittable>>,
    ray: Ray,
    interval: Range<Scalar>,
    k: int,
    best: HitRecord,
) -> bool {
    &&& 0 <= k < objects.len()
    &&& objects[k].hit_spec(ray, interval) == Some(best)
    &&& forall|i: int|
        0 <= i < objects.len() ==> (#[trigger] objects[i].hit_spec(ray, interval) matches Some(
            other,
        ) ==> !other.t.lt_spec(best.t) && (i < k ==> best.t.lt_spec(other.t)))
}

/// Over members that keep to their interval and answer alike however far
/// the search reaches, a sweep finds the nearest hit of the whole scene,
/// and of several equally near the one of the earliest member.
pub proof fn lemma_sweep_finds_nearest(
    objects: Seq<Box<dyn Hittable>>,
    ray: Ray,
    interval: Range<Scalar>,
)
    requires
        keep_to_interval(objects, ray),
        answer_alike(objects, ray, interval),
    ensures
        match sweep(objects, ray, interval).1 {
            Some(best) => exists|k: int| is_nearest(objects, ray, interval, k, best),
            None => forall|i: int|
                0 <= i < objects.len() ==> (#[trigger] objects[i]).hit_spec(ray, interval) is None,
        },
    decreases objects.len(),
{
    lemma_sweep_misses_iff_all_miss(objects, ray, interval);
    if objects.len() > 0 {
        let n = objects.len() as int;
        let front = objects.drop_last();
        let last = objects[n - 1];
        assert(forall|i: int| 0 <= i < front.len() ==> front[i] == objects[i]);
        assert(keep_to_interval(front, ray)) by {
            assert forall|i: int, iv: Range<Scalar>| 0 <= i < front.len() implies (
            #[trigger] front[i].hit_spec(ray, iv) matches Some(record) ==> inside(iv, record.t)) by {
                assert(front[i] == objects[i]);
            }
        }
        assert(answer_alike(front, ray, interval)) by {
            assert forall|i: int, end: Scalar|
                0 <= i < front.len() && end.lt_spec(interval.end) implies #[trigger] front[i].hit_spec(
                ray,
                narrowed(interval, end),
            ) == match front[i].hit_spec(ray, interval) {
                Some(record) => if record.t.lt_spec(end) {
                    Some(record)
                } else {
                    None
                },
                None => None,
            } by {
                assert(front[i] == objects[i]);
            }
        }
        lemma_sweep_finds_nearest(front, ray, interval);
        lemma_sweep_bound(front, ray, interval);
        let before = sweep(front, ray, interval);
        let full = last.hit_spec(ray, interval);
        let asked = last.hit_spec(ray, narrowed(interval, before.0));
        assert(objects.last() == last);
        assert(full matches Some(record) ==> inside(interval, record.t));
        assert(asked == match full {
            Some(record) => if record.t.lt_spec(before.0) {
                Some(record)
            } else {
                None
            },
            None => None,
        }) by {
            match before.1 {
                Some(held) => {
                    let k0 = choose|k: int| is_nearest(front, ray, interval, k, held);
                    assert(front[k0] == objects[k0]);
                    assert(inside(interval, held.t));
                },
                None => {
                    assert(narrowed(interval, before.0) == interval);
                },
            }
        }
        match sweep(objects, ray, interval).1 {
            Some(best) => {
                if asked is Some {
                    // the last member is nearer than all before it
                    assert(full == Some(best));
                    assert forall|i: int| 0 <= i < objects.len() implies (
                    #[trigger] objects[i].hit_spec(ray, interval) matches Some(other)
                        ==> !other.t.lt_spec(best.t) && (i < n - 1 ==> best.t.lt_spec(other.t))) by {
                        if i < n - 1 {
                            assert(front[i] == objects[i]);
                            if let Some(other) = objects[i].hit_spec(ray, interval) {
                                assert(inside(interval, other.t));
                                let held = before.1->Some_0;
                                let k0 = choose|k: int| is_nearest(front, ray, interval, k, held);
                                assert(front[i].hit_spec(ray, interval) == Some(other));
                                assert(!other.t.lt_spec(held.t));
                            }
                        }
                    }
                    assert(is_nearest(objects, ray, interval, n - 1, best));
                } else {
                    // the record of the members before stands
                    assert(before.1 == Some(best));
                    let k0 = choose|k: int| is_nearest(front, ray, interval, k, best);
                    assert(front[k0] == objects[k0]);
                    assert forall|i: int| 0 <= i < objects.len() implies (
                    #[trigger] objects[i].hit_spec(ray, interval) matches Some(other)
                        ==> !other.t.lt_spec(best.t) && (i < k0 ==> best.t.lt_spec(other.t))) by {
                        if i < n - 1 {
                            assert(front[i] == objects[i]);
                        }
                    }
                    assert(is_nearest(objects, ray, interval, k0, best));
                }
            },
            None => {},
        }
    }
}

} // verus!
