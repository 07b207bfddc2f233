//! A hit of a ray on a surface, with everything shading needs.

use core::ops::Neg;
use vstd::prelude::*;
use crate::error::Error;
use crate::primatives::{dot_product, PointT, Tuple, Vec3T};
use crate::ray::Ray;
use crate::scalar::{Scalar, VOID};
use crate::shapes::Shape;

verus! {

/// A hit of a ray on a surface.
pub struct Intersection<'a, S> {
    /// The parameter of the ray at the hit.
    pub time: Scalar,
    /// Where in the world the hit is.
    pub location: PointT,
    pub shape: &'a S,
    /// Whether the ray comes from inside the surface.
    pub inside: bool,
    pub ray: Ray,
    /// From the hit back toward the origin of the ray.
    pub eyev: Vec3T,
    /// The normal at the hit, on the side of the origin of the ray.
    pub normalv: Vec3T,
}

impl<'a, S> Clone for Intersection<'a, S> {
    fn clone(&self) -> (c: Self)
        ensures
            c == *self,
    {
        Intersection {
            time: self.time,
            location: self.location,
            shape: self.shape,
            inside: self.inside,
            ray: self.ray,
            eyev: self.eyev,
            normalv: self.normalv,
        }
    }
}

impl<'a, S> Copy for Intersection<'a, S> {

}

/// The hit of `r` on `s` at time `t` and place `l`, where the surface has the normal `nv`. The
/// eye vector is the reversed direction of the ray. Where the normal points away from the eye,
/// the hit is from inside, and the normal is reversed. Where the product of normal and eye
/// vector is no number, the normal of the hit is none either.
pub open spec fn spec_with_normal<'a, S>(t: Scalar, l: PointT, s: &'a S, r: Ray, nv: Vec3T)
    -> Intersection<'a, S> {
    let ev = r.direction.spec_neg();
    let facing = dot_product(nv, ev);
    Intersection {
        time: t,
        location: l,
        shape: s,
        inside: facing@ < 0,
        ray: r,
        eyev: ev,
        normalv: if !facing.wf() {
            Tuple::spec_void()
        } else if facing@ < 0 {
            nv.spec_neg()
        } else {
            nv
        },
    }
}

/// The hit of `r` on `s` at time `t` and place `l`, where the surface has the normal `nv`.
#[verifier::when_used_as_spec(spec_with_normal)]
pub fn with_normal<'a, S>(t: Scalar, l: PointT, s: &'a S, r: Ray, nv: Vec3T) -> (hit: Intersection<
    'a,
    S,
>)
    ensures
        hit == spec_with_normal(t, l, s, r, nv),
{
    let ev = r.direction.neg();
    let facing = dot_product(nv, ev);
    let void = Scalar { raw: VOID };
    let normalv = if !facing.is_number() {
        Tuple { x: void, y: void, z: void, w: void }
    } else if facing.raw < 0 {
        nv.neg()
    } else {
        nv
    };
    Intersection {
        time: t,
        location: l,
        shape: s,
        inside: facing.raw < 0,
        ray: r,
        eyev: ev,
        normalv,
    }
}

/// A hit as it is handed out: its time and its normal must be numbers.
pub open spec fn spec_checked<'a, S>(hit: Intersection<'a, S>) -> Result<
    Intersection<'a, S>,
    Error,
> {
    if hit.time.wf() && hit.normalv.wf() {
        Ok(hit)
    } else {
        Err(Error::Range)
    }
}

/// A hit as it is handed out; fails where its time or its normal is no number.
pub fn checked<'a, S>(hit: Intersection<'a, S>) -> (res: Result<Intersection<'a, S>, Error>)
    ensures
        res == spec_checked(hit),
{
    if hit.time.is_number() && hit.normalv.is_number() {
        Ok(hit)
    } else {
        Err(Error::Range)
    }
}

/// The hit of `r` on `s` at time `t` and place `l`, with the normal that the surface has there.
pub open spec fn spec_new<'a, S: Shape>(t: Scalar, l: PointT, s: &'a S, r: Ray) -> Result<
    Intersection<'a, S>,
    Error,
> {
    match s.spec_normal_at(l) {
        Err(e) => Err(e),
        Ok(nv) => spec_checked(spec_with_normal(t, l, s, r, nv)),
    }
}

/// The hit of `r` on `s` at time `t` and place `l`; fails where the surface has no normal at
/// `l`, or where time or normal are no numbers.
pub fn new<'a, S: Shape>(t: Scalar, l: PointT, s: &'a S, r: Ray) -> (res: Result<
    Intersection<'a, S>,
    Error,
>)
    ensures
        res == spec_new(t, l, s, r),
{
    match s.normal_at(l) {
        Ok(nv) => checked(with_normal(t, l, s, r, nv)),
        Err(e) => Err(e),
    }
}

/// `x` put into `sorted` behind every hit that is not later than it.
pub open spec fn spec_insert_by_time<'a, S>(
    sorted: Seq<Intersection<'a, S>>,
    x: Intersection<'a, S>,
) -> Seq<Intersection<'a, S>>
    decreases sorted.len(),
{
    if sorted.len() == 0 {
        seq![x]
    } else if sorted.last().time@ <= x.time@ {
        sorted.push(x)
    } else {
        spec_insert_by_time(sorted.drop_last(), x).push(sorted.last())
    }
}

/// The hits in ascending order of time; hits of one time stay in the order they came in.
pub open spec fn spec_sort_by_time<'a, S>(hits: Seq<Intersection<'a, S>>) -> Seq<
    Intersection<'a, S>,
>
    decreases hits.len(),
{
    if hits.len() == 0 {
        Seq::empty()
    } else {
        spec_insert_by_time(spec_sort_by_time(hits.drop_last()), hits.last())
    }
}

/// No hit stands before an earlier one.
pub open spec fn ascending<'a, S>(hits: Seq<Intersection<'a, S>>) -> bool {
    forall|i: int, j: int| 0 <= i < j < hits.len() ==> hits[i].time@ <= hits[j].time@
}

/// Where every hit from `j` on is later than `x`, and the one before `j` is not, `x` goes to
/// `j`.
pub proof fn lemma_insert_position<'a, S>(
    sorted: Seq<Intersection<'a, S>>,
    x: Intersection<'a, S>,
    j: int,
)
    requires
        0 <= j <= sorted.len(),
        forall|k: int| j <= k < sorted.len() ==> sorted[k].time@ > x.time@,
        j > 0 ==> sorted[j - 1].time@ <= x.time@,
    ensures
        spec_insert_by_time(sorted, x) == sorted.insert(j, x),
    decreases sorted.len(),
{
    if sorted.len() == 0 {
        assert(sorted.insert(j, x) =~= seq![x]);
    } else if j == sorted.len() {
        assert(sorted.insert(j, x) =~= sorted.push(x));
    } else {
        lemma_insert_position(sorted.drop_last(), x, j);
        assert(sorted.insert(j, x) =~= sorted.drop_last().insert(j, x).push(sorted.last()));
    }
}

/// Inserting keeps the order, and adds just the one hit.
pub proof fn lemma_insert_ascending<'a, S>(
    sorted: Seq<Intersection<'a, S>>,
    x: Intersection<'a, S>,
)
    requires
        ascending(sorted),
    ensures
        ascending(spec_insert_by_time(sorted, x)),
        spec_insert_by_time(sorted, x).to_multiset() == sorted.to_multiset().insert(x),
        spec_insert_by_time(sorted, x).len() == sorted.len() + 1,
    decreases sorted.len(),
{
    broadcast use vstd::seq_lib::group_to_multiset_ensures;

    if sorted.len() == 0 {
        assert(sorted =~= Seq::empty());
        assert(seq![x] =~= Seq::empty().push(x));
    } else if sorted.last().time@ <= x.time@ {
    } else {
        let front = sorted.drop_last();
        let last = sorted.last();
        lemma_insert_ascending(front, x);
        let placed = spec_insert_by_time(front, x);
        assert(sorted =~= front.push(last));
        assert forall|i: int| 0 <= i < placed.len() implies placed[i].time@ <= last.time@ by {
            assert(placed.to_multiset().count(placed[i]) > 0);
            if placed[i] != x {
                assert(front.to_multiset().count(placed[i]) > 0);
                let k = choose|k: int| 0 <= k < front.len() && front[k] == placed[i];
                assert(sorted[k] == front[k]);
            }
        }
        assert(front.to_multiset().insert(x).insert(last) =~= front.to_multiset().insert(
            last,
        ).insert(x));
    }
}

/// Sorting yields the same hits, in ascending order of time.
pub proof fn lemma_sort_ascending<'a, S>(hits: Seq<Intersection<'a, S>>)
    ensures
        ascending(spec_sort_by_time(hits)),
        spec_sort_by_time(hits).to_multiset() == hits.to_multiset(),
        spec_sort_by_time(hits).len() == hits.len(),
    decreases hits.len(),
{
    broadcast use vstd::seq_lib::group_to_multiset_ensures;

    if hits.len() == 0 {
        assert(hits =~= Seq::empty());
    } else {
        lemma_sort_ascending(hits.drop_last());
        lemma_insert_ascending(spec_sort_by_time(hits.drop_last()), hits.last());
        assert(hits =~= hits.drop_last().push(hits.last()));
    }
}

/// The test that a hit is at the time `t`.
pub open spec fn at_time<'a, S>(t: Scalar) -> spec_fn(Intersection<'a, S>) -> bool {
    |hit: Intersection<'a, S>| hit.time == t
}

/// Inserting a hit puts it behind the hits of its own time and leaves the other times alone.
pub proof fn lemma_insert_stable<'a, S>(
    sorted: Seq<Intersection<'a, S>>,
    x: Intersection<'a, S>,
    t: Scalar,
)
    ensures
        spec_insert_by_time(sorted, x).filter(at_time(t)) == if x.time == t {
            sorted.filter(at_time(t)).push(x)
        } else {
            sorted.filter(at_time(t))
        },
    decreases sorted.len(),
{
    reveal_with_fuel(Seq::filter, 2);
    let same = at_time::<S>(t);
    if sorted.len() == 0 {
        assert(seq![x].drop_last() =~= sorted);
        assert(seq![x].last() == x);
    } else if sorted.last().time@ <= x.time@ {
        assert(sorted.push(x).drop_last() =~= sorted);
    } else {
        let front = sorted.drop_last();
        let last = sorted.last();
        lemma_insert_stable(front, x, t);
        let placed = spec_insert_by_time(front, x);
        assert(placed.push(last).drop_last() =~= placed);
        assert(!(same(x) && same(last)));
        if same(x) {
            assert(front.filter(same).push(x).drop_last() =~= front.filter(same));
        }
    }
}

/// Sorting is stable: the hits of any one time keep the order in which they came in.
pub proof fn lemma_sort_stable<'a, S>(hits: Seq<Intersection<'a, S>>, t: Scalar)
    ensures
        spec_sort_by_time(hits).filter(at_time(t)) == hits.filter(at_time(t)),
    decreases hits.len(),
{
    reveal_with_fuel(Seq::filter, 2);
    if hits.len() > 0 {
        lemma_sort_stable(hits.drop_last(), t);
        lemma_insert_stable(spec_sort_by_time(hits.drop_last()), hits.last(), t);
    }
}

/// The hits in ascending order of time, by insertion; hits of one time keep their order.
pub fn sort_by_time<'a, S>(hits: &Vec<Intersection<'a, S>>) -> (sorted: Vec<Intersection<'a, S>>)
    ensures
        sorted@ == spec_sort_by_time(hits@),
{
    let mut sorted: Vec<Intersection<'a, S>> = Vec::new();
    let mut i: usize = 0;
    while i < hits.len()
        invariant
            i <= hits.len(),
            sorted@ == spec_sort_by_time(hits@.take(i as int)),
            sorted.len() == i,
        decreases hits.len() - i,
    {
        let x = hits[i];
        let mut j: usize = sorted.len();
        while j > 0 && sorted[j - 1].time.raw > x.time.raw
            invariant
                j <= sorted.len(),
                forall|k: int| j <= k < sorted.len() ==> sorted@[k].time@ > x.time@,
            decreases j,
        {
            j -= 1;
        }
        proof {
            lemma_insert_position(sorted@, x, j as int);
            assert(hits@.take(i + 1).drop_last() == hits@.take(i as int));
            assert(hits@.take(i + 1).last() == x);
        }
        sorted.insert(j, x);
        i += 1;
    }
    proof {
        assert(hits@.take(hits.len() as int) == hits@);
    }
    sorted
}

} // verus!
