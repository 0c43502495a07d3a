use vstd::prelude::*;

use crate::alive::{
    alive_indices, count_alive, lemma_alive_indices, lemma_destroy_one, lemma_none_alive_iff_all_destroyed,
};

verus! {

/// The first alien among `cands`, in their order, that is alive.
pub open spec fn spec_first_alive(alive: Seq<bool>, cands: Seq<usize>) -> Option<usize>
    decreases cands.len(),
{
    if cands.len() == 0 {
        None
    } else if cands[0] < alive.len() && alive[cands[0] as int] {
        Some(cands[0])
    } else {
        spec_first_alive(alive, cands.drop_first())
    }
}

/// The bullets of the player, taken in order: each destroys the first alien
/// alive, among those its rectangle overlaps, and is spent on it. Gives the
/// aliens alive afterwards and, per bullet, the alien it destroyed.
pub open spec fn spec_resolve_hits(alive: Seq<bool>, overlaps: Seq<Seq<usize>>) -> (Seq<bool>, Seq<Option<usize>>)
    decreases overlaps.len(),
{
    if overlaps.len() == 0 {
        (alive, Seq::empty())
    } else {
        let (a, k) = spec_resolve_hits(alive, overlaps.drop_last());
        let hit = spec_first_alive(a, overlaps.last());
        let a2 = match hit {
            Some(j) => a.update(j as int, false),
            None => a,
        };
        (a2, k.push(hit))
    }
}

/// Number of bullets that destroyed an alien.
pub open spec fn count_kills(kills: Seq<Option<usize>>) -> nat
    decreases kills.len(),
{
    if kills.len() == 0 {
        0
    } else {
        count_kills(kills.drop_last()) + if kills.last() is Some {
            1nat
        } else {
            0nat
        }
    }
}

/// The overlap lists as plain sequences.
pub open spec fn overlaps_view(overlaps: Seq<Vec<usize>>) -> Seq<Seq<usize>> {
    overlaps.map_values(|v: Vec<usize>| v@)
}

/// The alien found is alive and among the candidates.
pub proof fn lemma_first_alive(alive: Seq<bool>, cands: Seq<usize>)
    ensures
        spec_first_alive(alive, cands) matches Some(j) ==> j < alive.len() && alive[j as int]
            && cands.contains(j),
    decreases cands.len(),
{
    if cands.len() > 0 && !(cands[0] < alive.len() && alive[cands[0] as int]) {
        lemma_first_alive(alive, cands.drop_first());
        if let Some(j) = spec_first_alive(alive, cands) {
            let k = choose|k: int| 0 <= k < cands.drop_first().len() && cands.drop_first()[k] == j;
            assert(cands[k + 1] == j);
        }
    } else if cands.len() > 0 {
        assert(cands.contains(cands[0]));
    }
}

/// Resolving hits never brings an alien back, names for each bullet at most one
/// alien, which was alive before and is destroyed after, never names an alien
/// twice, and destroys exactly as many aliens as it names.
pub proof fn lemma_resolve_hits(alive: Seq<bool>, overlaps: Seq<Seq<usize>>)
    ensures
        ({
            let (after, kills) = spec_resolve_hits(alive, overlaps);
            &&& after.len() == alive.len()
            &&& kills.len() == overlaps.len()
            &&& forall|i: int| 0 <= i < after.len() && #[trigger] after[i] ==> alive[i]
            &&& forall|b: int|
                0 <= b < kills.len() && #[trigger] kills[b] is Some ==> {
                    &&& kills[b]->0 < alive.len()
                    &&& alive[kills[b]->0 as int]
                    &&& !after[kills[b]->0 as int]
                    &&& overlaps[b].contains(kills[b]->0)
                }
            &&& forall|b1: int, b2: int|
                0 <= b1 < b2 < kills.len() && #[trigger] kills[b1] is Some && #[trigger] kills[b2] is Some
                    ==> kills[b1]->0 != kills[b2]->0
            &&& count_alive(after) + count_kills(kills) == count_alive(alive)
        }),
    decreases overlaps.len(),
{
    if overlaps.len() > 0 {
        let prefix = overlaps.drop_last();
        lemma_resolve_hits(alive, prefix);
        let (a, k) = spec_resolve_hits(alive, prefix);
        let hit = spec_first_alive(a, overlaps.last());
        lemma_first_alive(a, overlaps.last());
        let (after, kills) = spec_resolve_hits(alive, overlaps);
        assert(kills.drop_last() =~= k);
        assert(kills[kills.len() - 1] == hit);
        assert forall|b: int| 0 <= b < k.len() implies #[trigger] kills[b] == k[b] by {}
        assert forall|b: int| 0 <= b < k.len() implies #[trigger] overlaps[b] == prefix[b] by {}
        match hit {
            Some(j) => {
                lemma_destroy_one(a, j as int);
                assert forall|b1: int, b2: int|
                    0 <= b1 < b2 < kills.len() && #[trigger] kills[b1] is Some && #[trigger] kills[b2] is Some
                        implies kills[b1]->0 != kills[b2]->0 by {
                    if b2 < k.len() {
                        assert(k[b1] is Some && k[b2] is Some);
                    } else {
                        assert(k[b1] is Some);
                        assert(!a[k[b1]->0 as int]);
                    }
                }
            },
            None => {
                assert forall|b1: int, b2: int|
                    0 <= b1 < b2 < kills.len() && #[trigger] kills[b1] is Some && #[trigger] kills[b2] is Some
                        implies kills[b1]->0 != kills[b2]->0 by {
                    assert(k[b1] is Some && k[b2] is Some);
                }
            },
        }
    }
}

/// The first alien among `cands` that is alive, if any.
pub fn first_alive(alive: &Vec<bool>, cands: &Vec<usize>) -> (hit: Option<usize>)
    ensures
        hit == spec_first_alive(alive@, cands@),
{
    let mut j: usize = 0;
    assert(cands@.skip(0) =~= cands@);
    while j < cands.len()
        invariant
            j <= cands@.len(),
            spec_first_alive(alive@, cands@) == spec_first_alive(alive@, cands@.skip(j as int)),
        decreases cands@.len() - j,
    {
        let c = cands[j];
        assert(cands@.skip(j as int)[0] == c);
        assert(cands@.skip(j as int).drop_first() =~= cands@.skip(j + 1));
        if c < alive.len() && alive[c] {
            return Some(c);
        }
        j += 1;
    }
    assert(cands@.skip(j as int).len() == 0);
    None
}

/// Takes the player's bullets in order, each with the aliens its rectangle
/// overlaps: each bullet destroys the first of them still alive. Gives, per
/// bullet, the alien it destroyed.
pub fn resolve_hits(alive: &mut Vec<bool>, overlaps: &Vec<Vec<usize>>) -> (kills: Vec<Option<usize>>)
    ensures
        (final(alive)@, kills@) == spec_resolve_hits(old(alive)@, overlaps_view(overlaps@)),
{
    let ghost ov = overlaps_view(overlaps@);
    let mut kills: Vec<Option<usize>> = Vec::new();
    let mut i: usize = 0;
    assert(ov.take(0) =~= Seq::<Seq<usize>>::empty());
    while i < overlaps.len()
        invariant
            i <= overlaps@.len(),
            ov == overlaps_view(overlaps@),
            (alive@, kills@) == spec_resolve_hits(old(alive)@, ov.take(i as int)),
        decreases overlaps@.len() - i,
    {
        assert(ov.take(i + 1).drop_last() =~= ov.take(i as int));
        assert(ov.take(i + 1).last() == overlaps@[i as int]@);
        proof {
            lemma_resolve_hits(old(alive)@, ov.take(i as int));
            lemma_first_alive(alive@, overlaps@[i as int]@);
        }
        let hit = first_alive(alive, &overlaps[i]);
        match hit {
            Some(j) => {
                alive.set(j, false);
            },
            None => {},
        }
        kills.push(hit);
        i += 1;
    }
    assert(ov.take(overlaps@.len() as int) =~= ov);
    kills
}

/// The alien that fires this frame, given the chance in percent and the two
/// random numbers drawn: `roll` decides, against the chance, whether one fires;
/// if some are alive, `pick` chooses among them as `pick_alive` does.
pub open spec fn spec_shooter(chance: u32, alive: Seq<bool>, roll: u32, pick: u32) -> Option<usize> {
    if roll % 100 < chance && count_alive(alive) > 0 {
        Some(alive_indices(alive)[(pick as int) % (count_alive(alive) as int)] as usize)
    } else {
        None
    }
}

/// The alien that fires this frame, given the chance in percent and the two
/// numbers drawn: see `spec_shooter`.
pub fn shooter_for_draws(chance: u32, alive: &Vec<bool>, roll: u32, pick: u32) -> (shooter: Option<usize>)
    ensures
        shooter == spec_shooter(chance, alive@, roll, pick),
        shooter matches Some(i) ==> i < alive@.len() && alive@[i as int],
{
    if shot_fired(chance, roll) {
        pick_alive(alive, pick)
    } else {
        None
    }
}

/// Whether this frame's roll makes an alien fire: the roll, taken modulo one
/// hundred, falls below the chance in percent.
pub fn shot_fired(chance: u32, roll: u32) -> (fired: bool)
    ensures
        fired == (roll % 100 < chance),
{
    roll % 100 < chance
}

/// The alien that fires, picked among those alive by `pick`: the one at
/// position `pick` modulo their number, counting in order; none when all are destroyed.
pub fn pick_alive(alive: &Vec<bool>, pick: u32) -> (shooter: Option<usize>)
    ensures
        shooter == (if count_alive(alive@) == 0 {
            None
        } else {
            Some(alive_indices(alive@)[(pick as int) % (count_alive(alive@) as int)] as usize)
        }),
        shooter matches Some(i) ==> i < alive@.len() && alive@[i as int],
{
    let mut living: Vec<usize> = Vec::new();
    let mut i: usize = 0;
    while i < alive.len()
        invariant
            i <= alive@.len(),
            living@.len() == alive_indices(alive@.take(i as int)).len(),
            forall|k: int|
                0 <= k < living@.len() ==> living@[k] as int == #[trigger] alive_indices(
                    alive@.take(i as int),
                )[k],
        decreases alive@.len() - i,
    {
        assert(alive@.take(i + 1).drop_last() =~= alive@.take(i as int));
        proof {
            lemma_alive_indices(alive@.take(i as int));
        }
        if alive[i] {
            living.push(i);
        }
        i += 1;
    }
    assert(alive@.take(alive@.len() as int) =~= alive@);
    proof {
        lemma_alive_indices(alive@);
    }
    if living.len() == 0 {
        None
    } else {
        let k = pick as usize % living.len();
        Some(living[k])
    }
}

/// An alien fires exactly when the roll, modulo one hundred, is below the
/// chance in percent and some alien is alive; the one that fires is alive.
/// So of any hundred consecutive rolls, exactly `chance` (at most a hundred) make one fire.
pub proof fn lemma_shooter_fires(chance: u32, alive: Seq<bool>, roll: u32, pick: u32)
    requires
        alive.len() <= usize::MAX,
    ensures
        spec_shooter(chance, alive, roll, pick) is Some <==> (roll % 100 < chance && exists|i: int|
            0 <= i < alive.len() && #[trigger] alive[i]),
        spec_shooter(chance, alive, roll, pick) matches Some(i) ==> i < alive.len() && alive[i as int],
{
    lemma_alive_indices(alive);
    lemma_none_alive_iff_all_destroyed(alive);
    if count_alive(alive) > 0 {
        let k = (pick as int) % (count_alive(alive) as int);
        assert(0 <= k < count_alive(alive));
        assert(0 <= alive_indices(alive)[k] < alive.len());
    }
}

} // verus!
