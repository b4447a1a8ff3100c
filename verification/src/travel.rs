use vstd::prelude::*;

verus! {

/// Number of progress milestones announced during a journey (25%, 50%, 75%).
pub const MILESTONE_COUNT: usize = 3;

/// Whether milestone `m` is recorded as announced in the bit mask `shown`
/// (bit 0 for 25%, bit 1 for 50%, bit 2 for 75%).
pub open spec fn milestone_shown(shown: u8, m: int) -> bool {
    0 <= m < 8 && shown & (1u8 << (m as u8)) != 0
}

/// The milestones to announce now: those the journey has reached (the first
/// `reached`) that were not announced before, in order.
pub open spec fn milestones_due(reached: nat, shown: u8) -> Seq<usize> {
    Seq::new(reached, |m: int| m as usize).filter(|m: usize| !milestone_shown(shown, m as int))
}

proof fn lemma_set_bit(shown: u8, m: u8, k: u8)
    requires
        m < 8,
        k < 8,
    ensures
        ((shown | (1u8 << m)) & (1u8 << k) != 0) == (k == m || shown & (1u8 << k) != 0),
{
    assert(((shown | (1u8 << m)) & (1u8 << k) != 0) == (k == m || shown & (1u8 << k) != 0))
        by (bit_vector)
        requires
            m < 8,
            k < 8,
    ;
}

/// Picks the milestones to announce and records them as announced: `reached`
/// is how many of the thresholds the journey's progress has passed.
pub fn take_due_milestones(reached: usize, shown: u8) -> (r: (Vec<usize>, u8))
    requires
        reached <= MILESTONE_COUNT,
    ensures
        r.0@ == milestones_due(reached as nat, shown),
        forall|m: int|
            0 <= m < 8 ==> (milestone_shown(r.1, m) == (milestone_shown(shown, m) || m
                < reached)),
{
    let mut due: Vec<usize> = Vec::new();
    let mut mask = shown;
    let mut m: usize = 0;
    while m < reached
        invariant
            m <= reached <= MILESTONE_COUNT,
            due@ == Seq::new(m as nat, |k: int| k as usize).filter(
                |k: usize| !milestone_shown(shown, k as int),
            ),
            forall|k: int|
                0 <= k < 8 ==> (milestone_shown(mask, k) == (milestone_shown(shown, k) || k < m)),
        decreases reached - m,
    {
        let bit: u8 = 1u8 << (m as u8);
        let ghost before = Seq::new(m as nat, |k: int| k as usize);
        let ghost after = Seq::new((m + 1) as nat, |k: int| k as usize);
        assert(after.drop_last() =~= before);
        assert(after.last() == m);
        reveal_with_fuel(Seq::filter, 1);
        assert(milestone_shown(shown, m as int) == (shown & bit != 0));
        if shown & bit == 0 {
            due.push(m);
        }
        let ghost old_mask = mask;
        mask = mask | bit;
        proof {
            assert forall|k: int| 0 <= k < 8 implies (milestone_shown(mask, k) == (milestone_shown(
                shown,
                k,
            ) || k < m + 1)) by {
                lemma_set_bit(old_mask, m as u8, k as u8);
            }
        }
        m = m + 1;
    }
    (due, mask)
}

/// Each milestone is announced once: after `take_due_milestones`, a
/// milestone it announced is never due again, however far the journey gets.
pub proof fn lemma_milestone_announced_once(
    reached: nat,
    shown: u8,
    updated: u8,
    later_reached: nat,
    m: usize,
)
    requires
        reached <= MILESTONE_COUNT,
        forall|k: int|
            0 <= k < 8 ==> (milestone_shown(updated, k) == (milestone_shown(shown, k) || k
                < reached)),
        milestones_due(reached, shown).contains(m),
    ensures
        !milestones_due(later_reached, updated).contains(m),
{
    broadcast use vstd::seq_lib::group_filter_ensures;

    let s = Seq::new(reached, |k: int| k as usize);
    let pred = |k: usize| !milestone_shown(shown, k as int);
    let i = choose|i: int| 0 <= i < s.filter(pred).len() && s.filter(pred)[i] == m;
    s.lemma_filter_contains_rev(pred, m);
    assert(pred(s.filter(pred)[i]));
    let j = choose|j: int| 0 <= j < s.len() && s[j] == m;
    assert(m < reached);
    assert(milestone_shown(updated, m as int));
    let t = Seq::new(later_reached, |k: int| k as usize);
    let pred2 = |k: usize| !milestone_shown(updated, k as int);
    if t.filter(pred2).contains(m) {
        let i2 = choose|i2: int| 0 <= i2 < t.filter(pred2).len() && t.filter(pred2)[i2] == m;
        assert(pred2(t.filter(pred2)[i2]));
    }
}

} // verus!
