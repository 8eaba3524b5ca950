//! Nearest-hit resolution: which of the objects along a ray is hit first.
//!
//! Each object reports the distance to its hit, if any, as an order key: a smaller key is a
//! nearer hit. The bit pattern of a non-negative float is such a key, since IEEE 754 orders
//! those bit patterns as it orders the numbers.

use vstd::prelude::*;

verus! {

/// Entry `i` is the nearest hit: it is a hit, no hit is nearer, and every earlier hit is
/// farther (so among equal distances the first one wins).
pub open spec fn is_nearest(keys: Seq<Option<u64>>, i: int) -> bool {
    &&& 0 <= i < keys.len()
    &&& keys[i] is Some
    &&& forall|j: int|
        0 <= j < keys.len() && #[trigger] keys[j] is Some ==> keys[i]->Some_0 <= keys[j]->Some_0
    &&& forall|j: int|
        0 <= j < i && #[trigger] keys[j] is Some ==> keys[i]->Some_0 < keys[j]->Some_0
}

/// The index of the nearest hit, by a scan in order; `None` when nothing is hit.
pub fn nearest_hit(keys: &Vec<Option<u64>>) -> (r: Option<usize>)
    ensures
        r is None <==> forall|i: int| 0 <= i < keys@.len() ==> #[trigger] keys@[i] is None,
        r is Some ==> is_nearest(keys@, r->Some_0 as int),
{
    let mut closest: Option<usize> = None;
    let mut lowest: u64 = 0;
    let mut i: usize = 0;
    while i < keys.len()
        invariant
            i <= keys@.len(),
            closest is None <==> forall|j: int| 0 <= j < i ==> #[trigger] keys@[j] is None,
            closest is Some ==> {
                let c = closest->Some_0 as int;
                &&& c < i
                &&& keys@[c] == Some(lowest)
                &&& forall|j: int|
                    0 <= j < i && #[trigger] keys@[j] is Some ==> lowest <= keys@[j]->Some_0
                &&& forall|j: int|
                    0 <= j < c && #[trigger] keys@[j] is Some ==> lowest < keys@[j]->Some_0
            },
        decreases keys@.len() - i,
    {
        if let Some(d) = keys[i] {
            let nearer = match closest {
                None => true,
                Some(_) => d < lowest,
            };
            if nearer {
                lowest = d;
                closest = Some(i);
            }
        }
        i += 1;
    }
    closest
}

} // verus!
