//! Choosing the nearest of the hits that the objects of a scene report for one
//! ray.
//!
//! Each candidate is `None` when its object was missed and `Some(key)` when it
//! was hit, where keys order as the hit distances do. Hit distances are
//! positive, and for non-negative IEEE-754 values the raw bit pattern is such a
//! key, so a renderer passes `t.to_bits()`.
use vstd::prelude::*;

verus! {

/// Candidate `i` is the nearest hit: it is a hit, no hit is nearer, and every
/// hit before it in scan order is strictly farther (ties go to the first).
pub open spec fn is_nearest(hits: Seq<Option<u32>>, i: int) -> bool {
    &&& 0 <= i < hits.len()
    &&& hits[i] is Some
    &&& forall|j: int|
        0 <= j < hits.len() && #[trigger] hits[j] is Some ==> hits[i]->0 <= hits[j]->0
    &&& forall|j: int| 0 <= j < i && #[trigger] hits[j] is Some ==> hits[i]->0 < hits[j]->0
}

/// No candidate is a hit.
pub open spec fn all_missed(hits: Seq<Option<u32>>) -> bool {
    forall|j: int| 0 <= j < hits.len() ==> #[trigger] hits[j] is None
}

/// At most one candidate is the nearest hit, so `nearest_hit` has one answer.
pub proof fn lemma_nearest_unique(hits: Seq<Option<u32>>, i: int, k: int)
    requires
        is_nearest(hits, i),
        is_nearest(hits, k),
    ensures
        i == k,
{
    if i < k {
        assert(hits[i] is Some);
    } else if k < i {
        assert(hits[k] is Some);
    }
}

/// Scans the candidates in order and returns the index of the nearest hit, or
/// `None` when every object was missed (in particular when there are none).
pub fn nearest_hit(hits: &Vec<Option<u32>>) -> (r: Option<usize>)
    ensures
        r is None <==> all_missed(hits@),
        r matches Some(i) ==> is_nearest(hits@, i as int),
{
    let mut best: Option<usize> = None;
    let mut i: usize = 0;
    while i < hits.len()
        invariant
            i <= hits@.len(),
            best is None ==> forall|j: int| 0 <= j < i ==> #[trigger] hits@[j] is None,
            best matches Some(b) ==> is_nearest(hits@.subrange(0, i as int), b as int),
        decreases hits@.len() - i,
    {
        let candidate = hits[i];
        match candidate {
            Some(key) => {
                let nearer = match best {
                    None => true,
                    Some(b) => match hits[b] {
                        Some(best_key) => key < best_key,
                        None => false,
                    },
                };
                if nearer {
                    best = Some(i);
                }
            },
            None => {},
        }
        proof {
            let prev = hits@.subrange(0, i as int);
            let next = hits@.subrange(0, i + 1);
            assert forall|j: int| 0 <= j < i implies #[trigger] next[j] == prev[j] by {}
        }
        i = i + 1;
    }
    proof {
        assert(hits@.subrange(0, hits@.len() as int) =~= hits@);
    }
    best
}

/// A point is in shadow when the shadow ray cast from it toward the light hits
/// something strictly nearer than the light (`light_distance` is the light's
/// distance as a key of the same kind).
pub fn in_shadow(shadow_hit: Option<u32>, light_distance: u32) -> (r: bool)
    ensures
        r == (shadow_hit matches Some(t) && t < light_distance),
{
    match shadow_hit {
        Some(t) => t < light_distance,
        None => false,
    }
}

} // verus!
