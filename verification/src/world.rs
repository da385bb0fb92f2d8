//! Gathering the crossings of one ray with every shape of a scene, and the
//! shadow test on what was gathered.

use vstd::prelude::*;
use crate::geom::{tagged, Shape};
use crate::intersection::{
    has_hit, hit, in_front, is_hit, lemma_crossing_is_shared, lemma_hit_ignores_order, Intersection,
};

verus! {

/// Whether `xs` ascends by distance.
pub open spec fn ascending(xs: Seq<Intersection>) -> bool {
    forall|i: int, j: int| 0 <= i <= j < xs.len() ==> xs[i].t <= xs[j].t
}

/// The crossings of the first `n` shapes, shape after shape.
pub open spec fn gathered(roots: Seq<Vec<i64>>, n: nat) -> Seq<Intersection>
    decreases n,
{
    if n == 0 || n > roots.len() {
        Seq::empty()
    } else {
        gathered(roots, (n - 1) as nat) + tagged(roots[n - 1]@, (n - 1) as usize)
    }
}

/// Puts `xs` in ascending order of distance, keeping exactly the crossings
/// it held.
pub fn sort_by_distance(xs: &mut Vec<Intersection>)
    ensures
        ascending(final(xs)@),
        final(xs)@.to_multiset() == old(xs)@.to_multiset(),
{
    let n: usize = xs.len();
    if n == 0 {
        return ;
    }
    let mut i: usize = 1;
    while i < n
        invariant
            xs.len() == n,
            1 <= i <= n,
            ascending(xs@.take(i as int)),
            xs@.to_multiset() == old(xs)@.to_multiset(),
        decreases n - i,
    {
        let mut j: usize = i;
        proof {
            assert forall|a: int, b: int| 0 <= a <= b <= i && a != j && b != j implies xs@[a].t
                <= xs@[b].t by {
                assert(xs@.take(i as int)[a].t <= xs@.take(i as int)[b].t);
            }
        }
        while j > 0 && xs[j - 1].t > xs[j].t
            invariant
                xs.len() == n,
                j <= i < n,
                xs@.to_multiset() == old(xs)@.to_multiset(),
                forall|a: int, b: int| 0 <= a <= b <= i && a != j && b != j ==> xs@[a].t <= xs@[b].t,
                forall|b: int| j < b <= i ==> xs@[j as int].t <= xs@[b].t,
            decreases j,
        {
            let lower: Intersection = xs[j - 1];
            let upper: Intersection = xs[j];
            let ghost s0 = xs@;
            xs.set(j - 1, upper);
            xs.set(j, lower);
            proof {
                let s2 = xs@;
                assert(s2 =~= s0.update(j - 1, s0[j as int]).update(j as int, s0[j - 1]));
                lemma_swap_keeps_multiset(s0, j - 1, j as int);
            }
            j -= 1;
        }
        i += 1;
        proof {
            assert forall|a: int, b: int| 0 <= a <= b < i implies xs@.take(i as int)[a].t
                <= xs@.take(i as int)[b].t by {
                if a == j {
                    if b != j {
                        assert(xs@[j as int].t <= xs@[b].t);
                    }
                } else if b == j {
                    assert(a < j);
                    if j > 0 {
                        assert(xs@[j - 1].t <= xs@[j as int].t);
                        assert(xs@[a].t <= xs@[j - 1].t);
                    }
                }
            }
        }
    }
    proof {
        assert(xs@.take(i as int) =~= xs@);
    }
}

/// A scene: one light and the shapes, in a fixed order by which
/// intersection records name them.
#[derive(Clone, Debug)]
pub struct World<L, A, M> {
    pub light: L,
    pub objects: Vec<Shape<A, M>>,
}

impl<L, A, M: Copy> World<L, A, M> {
    /// Every crossing of a ray with the scene, nearest first. `roots[k]`
    /// holds the distances at which the ray crosses shape `k`.
    pub fn intersect(&self, roots: &Vec<Vec<i64>>) -> (xs: Vec<Intersection>)
        requires
            roots@.len() == self.objects@.len(),
        ensures
            ascending(xs@),
            xs@.to_multiset() == gathered(roots@, roots@.len()).to_multiset(),
    {
        let mut xs: Vec<Intersection> = Vec::new();
        let mut k: usize = 0;
        while k < roots.len()
            invariant
                k <= roots.len(),
                roots@.len() == self.objects@.len(),
                xs@ == gathered(roots@, k as nat),
            decreases roots.len() - k,
        {
            let mut found: Vec<Intersection> = self.objects[k].intersects(&roots[k], k);
            xs.append(&mut found);
            k += 1;
        }
        sort_by_distance(&mut xs);
        xs
    }

    /// The crossing that a ray sees: the nearest one in front of its origin
    /// among its crossings with every shape, or none where the ray leaves the
    /// scene without meeting a shape in front of it. `roots[k]` holds the
    /// distances at which the ray crosses shape `k`.
    pub fn first_hit(&self, roots: &Vec<Vec<i64>>) -> (seen: Option<Intersection>)
        requires
            roots@.len() == self.objects@.len(),
        ensures
            seen.is_some() <==> has_hit(gathered(roots@, roots@.len())),
            seen.is_some() ==> {
                &&& gathered(roots@, roots@.len()).contains(seen.unwrap())
                &&& seen.unwrap().t > 0
                &&& forall|j: int|
                    in_front(gathered(roots@, roots@.len()), j) ==> seen.unwrap().t
                        <= #[trigger] gathered(roots@, roots@.len())[j].t
            },
    {
        let xs: Vec<Intersection> = self.intersect(roots);
        let ghost all = gathered(roots@, roots@.len());
        proof {
            lemma_hit_ignores_order(xs@, all);
        }
        match hit(&xs) {
            None => None,
            Some(h) => {
                let seen: Intersection = xs[h];
                proof {
                    lemma_crossing_is_shared(xs@, all, h as int);
                    assert forall|j: int| in_front(all, j) implies seen.t <= #[trigger] all[j].t by {
                        lemma_crossing_is_shared(all, xs@, j);
                        let k = choose|k: int| 0 <= k < xs@.len() && xs@[k] == all[j];
                        assert(in_front(xs@, k));
                    }
                }
                Some(seen)
            },
        }
    }

    /// Whether something stands between a point and the light: `xs` holds
    /// the crossings of the ray from the point towards the light, and
    /// `distance_to_light` is the key of the light's distance along it. The
    /// point is in shadow exactly when the hit among `xs` lies nearer than
    /// the light, which is when any crossing lies strictly between the two.
    pub fn is_shadowed(&self, xs: &[Intersection], distance_to_light: i64) -> (shadowed: bool)
        ensures
            shadowed <==> exists|i: int| is_hit(xs@, i) && xs@[i].t < distance_to_light,
            shadowed <==> exists|i: int|
                0 <= i < xs@.len() && 0 < #[trigger] xs@[i].t < distance_to_light,
    {
        match hit(xs) {
            None => {
                proof {
                    assert forall|i: int| 0 <= i < xs@.len() implies !(0 < #[trigger] xs@[i].t) by {
                        if 0 < xs@[i].t {
                            assert(in_front(xs@, i));
                        }
                    }
                }
                false
            },
            Some(h) => {
                let nearer: bool = xs[h].t < distance_to_light;
                proof {
                    if nearer {
                        assert(is_hit(xs@, h as int) && xs@[h as int].t < distance_to_light);
                    } else {
                        assert forall|i: int|
                            0 <= i < xs@.len() && 0 < #[trigger] xs@[i].t implies xs@[i].t
                            >= distance_to_light by {
                            assert(in_front(xs@, i));
                        }
                        assert forall|i: int| is_hit(xs@, i) implies xs@[i].t
                            >= distance_to_light by {
                            assert(in_front(xs@, i));
                        }
                    }
                }
                nearer
            },
        }
    }
}

/// Exchanging two items of a sequence keeps what it holds.
pub proof fn lemma_swap_keeps_multiset(s: Seq<Intersection>, a: int, b: int)
    requires
        0 <= a < s.len(),
        0 <= b < s.len(),
    ensures
        s.update(a, s[b]).update(b, s[a]).to_multiset() == s.to_multiset(),
{
    let mid = s.update(a, s[b]);
    vstd::seq_lib::to_multiset_update(s, a, s[b]);
    vstd::seq_lib::to_multiset_update(mid, b, s[a]);
    assert(mid[b] == s[b]);
    assert(s.to_multiset().insert(s[b]).remove(s[a]).insert(s[a]).remove(s[b])
        =~= s.to_multiset()) by {
        vstd::seq_lib::to_multiset_contains(s, s[a]);
        vstd::seq_lib::to_multiset_contains(s, s[b]);
    }
}

} // verus!
