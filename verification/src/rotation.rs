//! What round robin guarantees: repeated triggers of one note walk through
//! the regions of a rotation in sequence order and start over.

use crate::sample::{
    advance, first_in_sequence, lemma_matching_upto, lemma_rr_max_upto, matching, pick,
    rotation_group, rotation_layer, rotation_max, rr_max_of, Region,
};
use vstd::prelude::*;
use vstd::relations::injective_on;
use vstd::set_lib::{lemma_int_range, lemma_map_size, lemma_subset_equality, set_int_range};

verus! {

/// The counters after `n` triggers of the same note and velocity.
pub open spec fn after_triggers(
    regions: Seq<Region>,
    note: u8,
    velocity: u8,
    counters: Map<(u8, u32), u32>,
    n: nat,
) -> Map<(u8, u32), u32>
    decreases n,
{
    if n == 0 {
        counters
    } else {
        advance(
            regions,
            note,
            velocity,
            after_triggers(regions, note, velocity, counters, (n - 1) as nat),
        )
    }
}

/// The region selected by the trigger that follows `n` earlier ones.
pub open spec fn nth_pick(
    regions: Seq<Region>,
    note: u8,
    velocity: u8,
    counters: Map<(u8, u32), u32>,
    n: nat,
) -> Option<usize> {
    pick(regions, note, velocity, after_triggers(regions, note, velocity, counters, n))
}

/// The group of the first region that covers the note and velocity.
pub open spec fn leading_group(regions: Seq<Region>, note: u8, velocity: u8) -> u32 {
    regions[matching(regions, note, velocity)[0] as int].rr_group
}

/// The regions that cover the note and velocity form one complete rotation:
/// there are `k >= 1` of them, all in one group, their sequence numbers are
/// `k` different numbers below `k`, which makes them `0..k-1`, and the index
/// holds `k - 1` as the highest sequence number for the note, the group and
/// the layer of the first region's velocity floor.
pub open spec fn full_rotation(regions: Seq<Region>, note: u8, velocity: u8) -> bool {
    let found = matching(regions, note, velocity);
    let group = leading_group(regions, note, velocity);
    &&& found.len() >= 1
    &&& forall|j: int|
        0 <= j < found.len() ==> {
            let region = regions[#[trigger] found[j] as int];
            region.rr_group == group && region.rr_seq < found.len()
        }
    &&& forall|i: int, j: int|
        0 <= i < j < found.len() ==> regions[#[trigger] found[i] as int].rr_seq
            != regions[#[trigger] found[j] as int].rr_seq
    &&& rotation_max(regions, note, velocity, group) == found.len() - 1
}

/// The regions that cover the note and velocity are a rotation that stands
/// alone in the instrument: `k >= 1` regions of one group whose velocity
/// floors share a layer, with `k` different sequence numbers below `k`, and
/// no other region of the instrument is filed under their note, layer and
/// group.
pub open spec fn lone_rotation(regions: Seq<Region>, note: u8, velocity: u8) -> bool {
    let found = matching(regions, note, velocity);
    let group = leading_group(regions, note, velocity);
    let layer = rotation_layer(regions, note, velocity);
    &&& found.len() >= 1
    &&& forall|j: int|
        0 <= j < found.len() ==> {
            let region = regions[#[trigger] found[j] as int];
            region.rr_group == group && region.rr_seq < found.len() && region.indexed_at(
                note,
                layer,
                group,
            )
        }
    &&& forall|i: int, j: int|
        0 <= i < j < found.len() ==> regions[#[trigger] found[i] as int].rr_seq
            != regions[#[trigger] found[j] as int].rr_seq
    &&& forall|i: int|
        0 <= i < regions.len() && (#[trigger] regions[i]).indexed_at(note, layer, group)
            ==> regions[i].covers(note, velocity)
}

/// One of `candidates` carries the sequence number `seq`.
pub open spec fn carried(regions: Seq<Region>, candidates: Seq<usize>, seq: int) -> bool {
    exists|j: int|
        0 <= j < candidates.len() && regions[#[trigger] candidates[j] as int].rr_seq == seq
}

/// `k` candidates with `k` different sequence numbers below `k` carry every
/// number below `k`: none is left out.
pub proof fn lemma_numbers_are_complete(regions: Seq<Region>, candidates: Seq<usize>, seq: int)
    requires
        forall|j: int|
            0 <= j < candidates.len() ==> regions[#[trigger] candidates[j] as int].rr_seq
                < candidates.len(),
        forall|i: int, j: int|
            0 <= i < j < candidates.len() ==> regions[#[trigger] candidates[i] as int].rr_seq
                != regions[#[trigger] candidates[j] as int].rr_seq,
        0 <= seq < candidates.len(),
    ensures
        carried(regions, candidates, seq),
{
    let k = candidates.len() as int;
    let places = set_int_range(0, k);
    let seq_at = |j: int| regions[candidates[j] as int].rr_seq as int;
    let carried_numbers = places.map(seq_at);
    lemma_int_range(0, k);
    assert(injective_on(seq_at, places)) by {
        assert forall|i: int, j: int|
            places.contains(i) && places.contains(j) && #[trigger] seq_at(i) == #[trigger] seq_at(
                j,
            ) implies i == j by {
            if i < j {
                assert(regions[candidates[i] as int].rr_seq != regions[candidates[j] as int].rr_seq);
            } else if j < i {
                assert(regions[candidates[j] as int].rr_seq != regions[candidates[i] as int].rr_seq);
            }
        }
    }
    lemma_map_size(places, carried_numbers, seq_at);
    assert(carried_numbers.subset_of(places)) by {
        assert forall|number: int| carried_numbers.contains(number) implies places.contains(
            number,
        ) by {
            let j = choose|j: int| places.contains(j) && number == seq_at(j);
            assert(regions[candidates[j] as int].rr_seq < k);
        }
    }
    lemma_subset_equality(carried_numbers, places);
    assert(places.contains(seq));
    assert(carried_numbers.contains(seq));
    let j = choose|j: int| places.contains(j) && seq == seq_at(j);
    assert(0 <= j < candidates.len() && regions[candidates[j] as int].rr_seq == seq);
}

/// In a full rotation every sequence number below `k` is carried by one of
/// the regions.
pub proof fn lemma_rotation_is_complete(regions: Seq<Region>, note: u8, velocity: u8, seq: int)
    requires
        full_rotation(regions, note, velocity),
        0 <= seq < matching(regions, note, velocity).len(),
    ensures
        carried(regions, matching(regions, note, velocity), seq),
{
    lemma_numbers_are_complete(regions, matching(regions, note, velocity), seq);
}

/// A rotation that stands alone is a full rotation: the index, built from
/// the regions alone, holds `k - 1` for it. So round robin walks through such
/// a rotation at every velocity that its regions accept.
pub proof fn lemma_lone_rotation_is_full(regions: Seq<Region>, note: u8, velocity: u8)
    requires
        regions.len() <= usize::MAX,
        lone_rotation(regions, note, velocity),
    ensures
        full_rotation(regions, note, velocity),
{
    let found = matching(regions, note, velocity);
    let k = found.len() as int;
    let group = leading_group(regions, note, velocity);
    let layer = rotation_layer(regions, note, velocity);
    let highest = rr_max_of(regions, note, layer, group);
    lemma_matching_upto(regions, regions.len() as int, note, velocity);
    lemma_rr_max_upto(regions, regions.len() as int, note, layer, group);
    // no region filed under the key exceeds k - 1: each of them is a match
    if highest != 0 {
        let i = choose|i: int|
            0 <= i < regions.len() && (#[trigger] regions[i]).indexed_at(note, layer, group)
                && regions[i].rr_seq == highest;
        assert(regions[i].covers(note, velocity));
        assert(found.contains(i as usize));
        let j = choose|j: int| 0 <= j < found.len() && found[j] == i as usize;
        assert(regions[found[j] as int].rr_seq < k);
    }
    // and k - 1 is carried by one of the matches, which is filed there
    assert(highest >= k - 1) by {
        lemma_numbers_are_complete(regions, found, k - 1);
        let j = choose|j: int| 0 <= j < k && regions[#[trigger] found[j] as int].rr_seq == k - 1;
        assert(regions[found[j] as int].indexed_at(note, layer, group));
    }
}

/// In a full rotation a trigger selects the region whose sequence number is
/// the counter modulo `k`, and leaves the counter at the number after it,
/// modulo `k`.
pub proof fn lemma_rotation_step(
    regions: Seq<Region>,
    note: u8,
    velocity: u8,
    counters: Map<(u8, u32), u32>,
)
    requires
        regions.len() <= usize::MAX,
        full_rotation(regions, note, velocity),
    ensures
        pick(regions, note, velocity, counters) is Some,
        matching(regions, note, velocity).contains(pick(regions, note, velocity, counters)->0),
        regions[pick(regions, note, velocity, counters)->0 as int].rr_seq == counters[(
            note,
            leading_group(regions, note, velocity),
        )] as int % (matching(regions, note, velocity).len() as int),
        advance(regions, note, velocity, counters)[(
            note,
            leading_group(regions, note, velocity),
        )] as int % (matching(regions, note, velocity).len() as int) == (counters[(
            note,
            leading_group(regions, note, velocity),
        )] + 1) % (matching(regions, note, velocity).len() as int),
{
    let found = matching(regions, note, velocity);
    let k = found.len() as int;
    let group = leading_group(regions, note, velocity);
    let c = counters[(note, group)] as int;
    if k == 1 {
        assert(regions[found[0] as int].rr_seq < 1);
        assert(rotation_group(regions, note, velocity) is None);
        assert(c % 1 == 0 && (c + 1) % 1 == 0);
    } else {
        assert(rotation_group(regions, note, velocity) == Some(group));
        let target = c % k;
        vstd::arithmetic::div_mod::lemma_mod_pos_bound(c, k);
        lemma_rotation_is_complete(regions, note, velocity, target);
        let j = choose|j: int| 0 <= j < k && regions[#[trigger] found[j] as int].rr_seq == target;
        lemma_first_in_sequence(regions, found, group, target as u32, 0, j);
        let stored = (target + 1) % k;
        vstd::arithmetic::div_mod::lemma_mod_pos_bound(target + 1, k);
        vstd::arithmetic::div_mod::lemma_small_mod(stored as nat, k as nat);
        vstd::arithmetic::div_mod::lemma_add_mod_noop_right(1, c, k);
        assert(1 + c % k == target + 1);
        assert(1 + c == c + 1);
    }
}

/// A scan that starts at or before a hit finds a candidate of the wanted
/// group and sequence number.
proof fn lemma_first_in_sequence(
    regions: Seq<Region>,
    candidates: Seq<usize>,
    group: u32,
    target: u32,
    from: int,
    hit: int,
)
    requires
        0 <= from <= hit < candidates.len(),
        regions[candidates[hit] as int].rr_group == group,
        regions[candidates[hit] as int].rr_seq == target,
    ensures
        first_in_sequence(regions, candidates, group, target, from) is Some,
        candidates.contains(first_in_sequence(regions, candidates, group, target, from)->0),
        regions[first_in_sequence(regions, candidates, group, target, from)->0 as int].rr_seq
            == target,
    decreases hit - from,
{
    let region = regions[candidates[from] as int];
    if region.rr_group == group && region.rr_seq == target {
        assert(candidates[from] == first_in_sequence(regions, candidates, group, target, from)->0);
    } else {
        lemma_first_in_sequence(regions, candidates, group, target, from + 1, hit);
    }
}

/// The counter of a full rotation after `n` triggers, modulo `k`.
pub proof fn lemma_rotation_counter(
    regions: Seq<Region>,
    note: u8,
    velocity: u8,
    counters: Map<(u8, u32), u32>,
    n: nat,
)
    requires
        regions.len() <= usize::MAX,
        full_rotation(regions, note, velocity),
    ensures
        after_triggers(regions, note, velocity, counters, n)[(
            note,
            leading_group(regions, note, velocity),
        )] as int % (matching(regions, note, velocity).len() as int) == (counters[(
            note,
            leading_group(regions, note, velocity),
        )] + n) % (matching(regions, note, velocity).len() as int),
    decreases n,
{
    let k = matching(regions, note, velocity).len() as int;
    let group = leading_group(regions, note, velocity);
    let c = counters[(note, group)] as int;
    if n > 0 {
        let before = after_triggers(regions, note, velocity, counters, (n - 1) as nat);
        let b = before[(note, group)] as int;
        lemma_rotation_counter(regions, note, velocity, counters, (n - 1) as nat);
        lemma_rotation_step(regions, note, velocity, before);
        // (b + 1) % k == (c + n) % k, since b % k == (c + n - 1) % k
        vstd::arithmetic::div_mod::lemma_add_mod_noop_right(1, b, k);
        vstd::arithmetic::div_mod::lemma_add_mod_noop_right(1, c + n - 1, k);
        assert(1 + b == b + 1);
        assert(1 + (c + n - 1) == c + n);
    }
}

/// Round robin: when the regions that cover a note and velocity form a full
/// rotation of `k` regions, the trigger that follows `n` earlier ones selects
/// the one region whose sequence number is `(counter + n) mod k`, wherever
/// the counter stood at first. So `k` consecutive triggers visit every region
/// of the rotation exactly once, and the walk repeats with period `k`.
pub proof fn lemma_round_robin_cycle(
    regions: Seq<Region>,
    note: u8,
    velocity: u8,
    counters: Map<(u8, u32), u32>,
    n: nat,
)
    requires
        regions.len() <= usize::MAX,
        full_rotation(regions, note, velocity),
    ensures
        nth_pick(regions, note, velocity, counters, n) is Some,
        forall|j: int|
            0 <= j < matching(regions, note, velocity).len() ==> (nth_pick(
                regions,
                note,
                velocity,
                counters,
                n,
            ) == Some(#[trigger] matching(regions, note, velocity)[j]) <==> regions[matching(
                regions,
                note,
                velocity,
            )[j] as int].rr_seq == (counters[(note, leading_group(regions, note, velocity))] + n)
                % (matching(regions, note, velocity).len() as int)),
        nth_pick(regions, note, velocity, counters, n + matching(regions, note, velocity).len())
            == nth_pick(regions, note, velocity, counters, n),
        forall|m: nat|
            n < m < n + matching(regions, note, velocity).len() ==> #[trigger] nth_pick(
                regions,
                note,
                velocity,
                counters,
                m,
            ) != nth_pick(regions, note, velocity, counters, n),
{
    let found = matching(regions, note, velocity);
    let k = found.len() as int;
    let group = leading_group(regions, note, velocity);
    let c = counters[(note, group)] as int;
    lemma_matching_upto(regions, regions.len() as int, note, velocity);
    lemma_nth_pick(regions, note, velocity, counters, n);
    lemma_nth_pick(regions, note, velocity, counters, n + found.len());
    assert((c + n + k) % k == (c + n) % k) by {
        vstd::arithmetic::div_mod::lemma_mod_add_multiples_vanish(c + n, k);
    }
    assert forall|m: nat| n < m < n + k implies #[trigger] nth_pick(
        regions,
        note,
        velocity,
        counters,
        m,
    ) != nth_pick(regions, note, velocity, counters, n) by {
        lemma_nth_pick(regions, note, velocity, counters, m);
        lemma_distinct_residues(c + n, c + m, k);
    }
}

/// Among any `k` consecutive triggers of a full rotation there is one that
/// selects a given region of it. With the `k` picks being different regions,
/// each region is visited exactly once.
pub proof fn lemma_every_region_is_visited(
    regions: Seq<Region>,
    note: u8,
    velocity: u8,
    counters: Map<(u8, u32), u32>,
    from: nat,
    j: int,
)
    requires
        regions.len() <= usize::MAX,
        full_rotation(regions, note, velocity),
        0 <= j < matching(regions, note, velocity).len(),
    ensures
        exists|n: nat|
            from <= n < from + matching(regions, note, velocity).len() && #[trigger] nth_pick(
                regions,
                note,
                velocity,
                counters,
                n,
            ) == Some(matching(regions, note, velocity)[j]),
{
    let found = matching(regions, note, velocity);
    let k = found.len() as int;
    let c = counters[(note, leading_group(regions, note, velocity))] as int;
    let seq = regions[found[j] as int].rr_seq as int;
    let ahead = (seq - c - from) % k;
    vstd::arithmetic::div_mod::lemma_mod_bound(seq - c - from, k);
    let n = (from + ahead) as nat;
    assert((c + n) % k == seq) by {
        vstd::arithmetic::div_mod::lemma_add_mod_noop_right(c + from, seq - c - from, k);
        assert((c + from) + (seq - c - from) == seq);
        vstd::arithmetic::div_mod::lemma_small_mod(seq as nat, k as nat);
        assert(c + n == (c + from) + ahead);
    }
    lemma_round_robin_cycle(regions, note, velocity, counters, n);
    assert(nth_pick(regions, note, velocity, counters, n) == Some(found[j]));
}

/// The `n`-th pick of a full rotation is the region that carries sequence
/// number `(counter + n) mod k`, and no other.
proof fn lemma_nth_pick(
    regions: Seq<Region>,
    note: u8,
    velocity: u8,
    counters: Map<(u8, u32), u32>,
    n: nat,
)
    requires
        regions.len() <= usize::MAX,
        full_rotation(regions, note, velocity),
    ensures
        nth_pick(regions, note, velocity, counters, n) is Some,
        matching(regions, note, velocity).contains(
            nth_pick(regions, note, velocity, counters, n)->0,
        ),
        regions[nth_pick(regions, note, velocity, counters, n)->0 as int].rr_seq == (counters[(
            note,
            leading_group(regions, note, velocity),
        )] + n) % (matching(regions, note, velocity).len() as int),
        forall|j: int|
            0 <= j < matching(regions, note, velocity).len() ==> (nth_pick(
                regions,
                note,
                velocity,
                counters,
                n,
            ) == Some(#[trigger] matching(regions, note, velocity)[j]) <==> regions[matching(
                regions,
                note,
                velocity,
            )[j] as int].rr_seq == (counters[(note, leading_group(regions, note, velocity))] + n)
                % (matching(regions, note, velocity).len() as int)),
{
    let found = matching(regions, note, velocity);
    let k = found.len() as int;
    let group = leading_group(regions, note, velocity);
    let c = counters[(note, group)] as int;
    let now = after_triggers(regions, note, velocity, counters, n);
    lemma_rotation_counter(regions, note, velocity, counters, n);
    lemma_rotation_step(regions, note, velocity, now);
    lemma_matching_upto(regions, regions.len() as int, note, velocity);
    let picked = nth_pick(regions, note, velocity, counters, n)->0;
    let at = choose|i: int| 0 <= i < found.len() && found[i] == picked;
    assert forall|j: int| 0 <= j < k implies (nth_pick(regions, note, velocity, counters, n)
        == Some(#[trigger] found[j]) <==> regions[found[j] as int].rr_seq == (c + n) % k) by {
        if regions[found[j] as int].rr_seq == (c + n) % k {
            // two regions of the rotation with one sequence number are the same
            if j < at {
                assert(regions[found[j] as int].rr_seq != regions[found[at] as int].rr_seq);
            } else if at < j {
                assert(regions[found[at] as int].rr_seq != regions[found[j] as int].rr_seq);
            }
        }
    }
}

/// Two numbers less than `k` apart leave different remainders modulo `k`.
proof fn lemma_distinct_residues(a: int, b: int, k: int)
    requires
        0 <= a < b < a + k,
    ensures
        a % k != b % k,
{
    vstd::arithmetic::div_mod::lemma_fundamental_div_mod(a, k);
    vstd::arithmetic::div_mod::lemma_fundamental_div_mod(b, k);
    if a % k == b % k {
        let d = b / k - a / k;
        assert(b - a == k * d) by (nonlinear_arith)
            requires
                a == k * (a / k) + (a % k),
                b == k * (b / k) + (b % k),
                a % k == b % k,
                d == b / k - a / k,
        ;
        assert(false) by (nonlinear_arith)
            requires
                0 < k * d < k,
        ;
    }
}

} // verus!
