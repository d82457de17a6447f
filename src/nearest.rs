use vstd::prelude::*;

verus! {

/// Whether candidate `j` is the nearest hit among `keys`: it is present, no
/// present candidate is nearer, and every earlier present candidate is
/// strictly farther (the first of equally near candidates wins).
///
/// A key orders candidates by the squared distance from the hit point to the
/// ray origin of the frame they are compared in; for distances that are not
/// negative the bit pattern of an IEEE single has the same order.
pub open spec fn is_nearest(keys: Seq<Option<u32>>, j: int) -> bool {
    &&& 0 <= j < keys.len()
    &&& keys[j] is Some
    &&& forall|i: int|
        0 <= i < keys.len() && #[trigger] keys[i] is Some ==> keys[j]->Some_0 <= keys[i]->Some_0
    &&& forall|i: int| 0 <= i < j && #[trigger] keys[i] is Some ==> keys[j]->Some_0 < keys[i]->Some_0
}

/// Whether any candidate is present.
pub open spec fn any_hit(keys: Seq<Option<u32>>) -> bool {
    exists|i: int| 0 <= i < keys.len() && #[trigger] keys[i] is Some
}

/// Picks the nearest of the candidate hits of one node: by convention the
/// node's own hit first, then those of its children in order. Returns the
/// index of the nearest, `None` when no candidate is present.
pub fn select_nearest(keys: &Vec<Option<u32>>) -> (r: Option<usize>)
    ensures
        r is None <==> !any_hit(keys@),
        r matches Some(j) ==> is_nearest(keys@, j as int),
{
    let mut best: Option<usize> = None;
    let mut best_key: u32 = 0;
    let mut i: usize = 0;
    while i < keys.len()
        invariant
            i <= keys@.len(),
            best is None <==> forall|k: int| 0 <= k < i ==> !(#[trigger] keys@[k] is Some),
            best matches Some(j) ==> {
                &&& j < i
                &&& keys@[j as int] == Some(best_key)
                &&& forall|k: int| 0 <= k < i && #[trigger] keys@[k] is Some ==> best_key <= keys@[k]->Some_0
                &&& forall|k: int| 0 <= k < j && #[trigger] keys@[k] is Some ==> best_key < keys@[k]->Some_0
            },
        decreases keys@.len() - i,
    {
        match keys[i] {
            Some(k) => {
                let nearer = match best {
                    None => true,
                    Some(_) => k < best_key,
                };
                if nearer {
                    best = Some(i);
                    best_key = k;
                }
            },
            None => {},
        }
        i = i + 1;
    }
    proof {
        if best is None {
            assert forall|k: int| 0 <= k < keys@.len() implies !(#[trigger] keys@[k] is Some) by {}
        }
    }
    best
}

/// A hit that is strictly nearer than every other candidate is the one
/// selected, wherever it stands among the candidates: the outcome does not
/// depend on the order in which nodes are visited.
pub proof fn lemma_strictly_nearest_wins(keys: Seq<Option<u32>>, a: int, j: int)
    requires
        0 <= a < keys.len(),
        keys[a] is Some,
        forall|i: int|
            0 <= i < keys.len() && i != a && #[trigger] keys[i] is Some ==> keys[a]->Some_0
                < keys[i]->Some_0,
        is_nearest(keys, j),
    ensures
        j == a,
{
    if j != a {
        assert(keys[a] is Some);
        assert(keys[a]->Some_0 < keys[j]->Some_0);
        assert(keys[j]->Some_0 <= keys[a]->Some_0);
    }
}

} // verus!
