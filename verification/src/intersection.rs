//! Intersection records and the rule that picks the visible one.
//!
//! A parametric distance along a ray is carried as a signed integer key that
//! is ordered as the distances are and whose sign is the sign of the
//! distance. A shape is named by its position in the scene's list of shapes,
//! so two shapes with equal fields remain two shapes.

use vstd::prelude::*;

verus! {

/// One crossing of a ray with a shape.
#[derive(Clone, Copy, Debug, PartialEq, Eq, Structural)]
pub struct Intersection {
    /// Ordered key of the parametric distance; positive exactly when the
    /// crossing lies in front of the ray's origin.
    pub t: i64,
    /// Position of the shape in the scene's list.
    pub object: usize,
}

/// Whether `xs[i]` lies in front of the ray's origin.
pub open spec fn in_front(xs: Seq<Intersection>, i: int) -> bool {
    0 <= i < xs.len() && xs[i].t > 0
}

/// Whether `i` is the position of the hit among `xs`: a crossing in front of
/// the origin that no other such crossing undercuts, and the last of those
/// when several share the least distance.
pub open spec fn is_hit(xs: Seq<Intersection>, i: int) -> bool {
    &&& in_front(xs, i)
    &&& forall|j: int| in_front(xs, j) ==> xs[i].t <= #[trigger] xs[j].t
    &&& forall|j: int| i < j < xs.len() ==> #[trigger] xs[j].t != xs[i].t
}

/// Whether any crossing of `xs` lies in front of the ray's origin.
pub open spec fn has_hit(xs: Seq<Intersection>) -> bool {
    exists|j: int| in_front(xs, j)
}

/// The position of the visible crossing: the one with the least positive
/// distance, found in one pass over crossings in any order. Crossings at or
/// behind the origin never count; without any in front there is no hit.
pub fn hit(intersections: &[Intersection]) -> (found: Option<usize>)
    ensures
        found.is_some() <==> has_hit(intersections@),
        found.is_some() ==> is_hit(intersections@, found.unwrap() as int),
{
    let mut best: Option<usize> = None;
    let mut k: usize = 0;
    while k < intersections.len()
        invariant
            k <= intersections.len(),
            best.is_none() ==> forall|j: int| 0 <= j < k ==> intersections@[j].t <= 0,
            best.is_some() ==> {
                &&& best.unwrap() < k
                &&& is_hit(intersections@.take(k as int), best.unwrap() as int)
            },
        decreases intersections.len() - k,
    {
        let t: i64 = intersections[k].t;
        let ghost before = intersections@.take(k as int);
        let ghost after = intersections@.take(k + 1);
        proof {
            assert forall|j: int| 0 <= j < k implies before[j] == after[j] by {}
        }
        if t > 0 {
            match best {
                None => {
                    best = Some(k);
                    assert(is_hit(after, k as int));
                },
                Some(b) => {
                    if intersections[b].t < t {
                        assert(is_hit(after, b as int)) by {
                            assert(in_front(before, b as int));
                            assert forall|j: int| in_front(after, j) implies after[b as int].t
                                <= #[trigger] after[j].t by {
                                if j < k {
                                    assert(in_front(before, j));
                                }
                            }
                        }
                    } else {
                        best = Some(k);
                        assert(is_hit(after, k as int)) by {
                            assert forall|j: int| in_front(after, j) implies after[k as int].t
                                <= #[trigger] after[j].t by {
                                if j < k {
                                    assert(in_front(before, j));
                                    assert(before[b as int].t <= before[j].t);
                                }
                            }
                        }
                    }
                },
            }
        } else {
            if best.is_some() {
                let ghost b = best.unwrap() as int;
                assert(is_hit(after, b)) by {
                    assert(in_front(before, b));
                    assert forall|j: int| in_front(after, j) implies after[b].t
                        <= #[trigger] after[j].t by {
                        assert(in_front(before, j));
                    }
                }
            }
        }
        k += 1;
    }
    proof {
        assert(intersections@.take(k as int) =~= intersections@);
        if best.is_some() {
            assert(in_front(intersections@, best.unwrap() as int));
        }
    }
    best
}

/// A list of crossings has at most one hit.
pub proof fn lemma_hit_is_unique(xs: Seq<Intersection>, i: int, j: int)
    requires
        is_hit(xs, i),
        is_hit(xs, j),
    ensures
        i == j,
{
    assert(xs[i].t <= xs[j].t);
    assert(xs[j].t <= xs[i].t);
    if i < j {
        assert(xs[j].t != xs[i].t);
    } else if j < i {
        assert(xs[i].t != xs[j].t);
    }
}

/// A crossing of one list stands somewhere in any list of the same
/// crossings.
pub proof fn lemma_crossing_is_shared(xs: Seq<Intersection>, ys: Seq<Intersection>, i: int)
    requires
        xs.to_multiset() == ys.to_multiset(),
        0 <= i < xs.len(),
    ensures
        exists|j: int| 0 <= j < ys.len() && ys[j] == xs[i],
{
    vstd::seq_lib::to_multiset_contains(xs, xs[i]);
    vstd::seq_lib::to_multiset_contains(ys, xs[i]);
    assert(xs.contains(xs[i]));
    assert(ys.contains(xs[i]));
}

/// Whether there is a hit, and at what distance, depends on which crossings
/// a list holds and not on their order: two lists of the same crossings
/// either both have a hit at one distance or both have none.
pub proof fn lemma_hit_ignores_order(xs: Seq<Intersection>, ys: Seq<Intersection>)
    requires
        xs.to_multiset() == ys.to_multiset(),
    ensures
        has_hit(xs) == has_hit(ys),
        forall|i: int, j: int| is_hit(xs, i) && is_hit(ys, j) ==> xs[i].t == ys[j].t,
{
    if has_hit(xs) {
        let i = choose|i: int| in_front(xs, i);
        lemma_crossing_is_shared(xs, ys, i);
        let j = choose|j: int| 0 <= j < ys.len() && ys[j] == xs[i];
        assert(in_front(ys, j));
    }
    if has_hit(ys) {
        let i = choose|i: int| in_front(ys, i);
        lemma_crossing_is_shared(ys, xs, i);
        let j = choose|j: int| 0 <= j < xs.len() && xs[j] == ys[i];
        assert(in_front(xs, j));
    }
    assert forall|i: int, j: int| is_hit(xs, i) && is_hit(ys, j) implies xs[i].t == ys[j].t by {
        lemma_crossing_is_shared(xs, ys, i);
        lemma_crossing_is_shared(ys, xs, j);
        let i2 = choose|k: int| 0 <= k < ys.len() && ys[k] == xs[i];
        let j2 = choose|k: int| 0 <= k < xs.len() && xs[k] == ys[j];
        assert(in_front(ys, i2));
        assert(in_front(xs, j2));
        assert(ys[j].t <= ys[i2].t);
        assert(xs[i].t <= xs[j2].t);
    }
}

/// In a list that ascends by distance, nothing in front of the origin comes
/// before the hit's distance: every crossing before the first one at that
/// distance lies at or behind the origin.
pub proof fn lemma_hit_of_ascending(xs: Seq<Intersection>, i: int, k: int)
    requires
        is_hit(xs, i),
        forall|a: int, b: int| 0 <= a <= b < xs.len() ==> xs[a].t <= xs[b].t,
        0 <= k < xs.len(),
        xs[k].t < xs[i].t,
    ensures
        k < i,
        xs[k].t <= 0,
{
    if xs[k].t > 0 {
        assert(in_front(xs, k));
    }
    if k >= i {
        assert(xs[i].t <= xs[k].t);
    }
}

} // verus!
