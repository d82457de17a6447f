use vstd::prelude::*;

verus! {

/// Number of shadow probes that reached the light: those not occluded.
pub open spec fn visible_count(occluded: Seq<bool>) -> nat
    decreases occluded.len(),
{
    if occluded.len() == 0 {
        0
    } else {
        visible_count(occluded.drop_last()) + if occluded.last() { 0nat } else { 1nat }
    }
}

/// Counts the shadow probes toward a light's sample points that reached it.
pub fn count_visible(occluded: &Vec<bool>) -> (n: usize)
    ensures
        n == visible_count(occluded@),
{
    let mut n: usize = 0;
    let mut i: usize = 0;
    while i < occluded.len()
        invariant
            i <= occluded@.len(),
            n == visible_count(occluded@.take(i as int)),
            n <= i,
        decreases occluded@.len() - i,
    {
        proof {
            assert(occluded@.take(i + 1).drop_last() =~= occluded@.take(i as int));
        }
        if !occluded[i] {
            n = n + 1;
        }
        i = i + 1;
    }
    proof {
        assert(occluded@.take(i as int) =~= occluded@);
    }
    n
}

/// The share of a light that reaches a point, as `(visible, total)`, or
/// `None` when the light contributes nothing: no probe reached it, or the
/// light has no samples.
pub open spec fn visibility_spec(occluded: Seq<bool>, num_samples: nat) -> Option<(nat, nat)> {
    if visible_count(occluded) == 0 || num_samples == 0 {
        None
    } else {
        Some((visible_count(occluded), num_samples))
    }
}

/// The visible fraction of a light from the outcome of each shadow probe
/// toward its sample points: `Some((visible, num_samples))`, or `None` when
/// the light adds nothing to the point's colour.
pub fn light_visibility(occluded: &Vec<bool>, num_samples: usize) -> (r: Option<(usize, usize)>)
    ensures
        r matches Some(p) ==> visibility_spec(occluded@, num_samples as nat) == Some(
            (p.0 as nat, p.1 as nat),
        ),
        r is None <==> visibility_spec(occluded@, num_samples as nat) is None,
{
    let visible = count_visible(occluded);
    if visible == 0 || num_samples == 0 {
        None
    } else {
        Some((visible, num_samples))
    }
}

/// A light whose every probe is occluded adds nothing.
pub proof fn lemma_occluded_light_adds_nothing(occluded: Seq<bool>, num_samples: nat)
    requires
        forall|i: int| 0 <= i < occluded.len() ==> #[trigger] occluded[i],
    ensures
        visibility_spec(occluded, num_samples) is None,
{
    lemma_all_occluded_count(occluded);
}

proof fn lemma_all_occluded_count(occluded: Seq<bool>)
    requires
        forall|i: int| 0 <= i < occluded.len() ==> #[trigger] occluded[i],
    ensures
        visible_count(occluded) == 0,
    decreases occluded.len(),
{
    if occluded.len() > 0 {
        lemma_all_occluded_count(occluded.drop_last());
    }
}

/// Clearing an occluder lets more probes through: where every probe that
/// reaches the light before still does, and one more does, strictly more
/// probes are visible.
pub proof fn lemma_unblocking_adds_light(before: Seq<bool>, after: Seq<bool>, k: int)
    requires
        before.len() == after.len(),
        forall|i: int| 0 <= i < before.len() && !(#[trigger] before[i]) ==> !after[i],
        0 <= k < before.len(),
        before[k],
        !after[k],
    ensures
        visible_count(before) < visible_count(after),
    decreases before.len(),
{
    lemma_count_monotone(before.drop_last(), after.drop_last());
    if k < before.len() - 1 {
        lemma_unblocking_adds_light(before.drop_last(), after.drop_last(), k);
    }
}

proof fn lemma_count_monotone(before: Seq<bool>, after: Seq<bool>)
    requires
        before.len() == after.len(),
        forall|i: int| 0 <= i < before.len() && !(#[trigger] before[i]) ==> !after[i],
    ensures
        visible_count(before) <= visible_count(after),
    decreases before.len(),
{
    if before.len() > 0 {
        lemma_count_monotone(before.drop_last(), after.drop_last());
    }
}

} // verus!
