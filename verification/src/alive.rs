use vstd::prelude::*;

verus! {

/// Positions of the aliens still alive, in increasing order.
pub open spec fn alive_indices(alive: Seq<bool>) -> Seq<int>
    decreases alive.len(),
{
    if alive.len() == 0 {
        Seq::empty()
    } else {
        let rest = alive_indices(alive.drop_last());
        if alive.last() {
            rest.push(alive.len() - 1)
        } else {
            rest
        }
    }
}

/// Number of aliens still alive.
pub open spec fn count_alive(alive: Seq<bool>) -> nat {
    alive_indices(alive).len()
}

/// Number of aliens destroyed.
pub open spec fn count_destroyed(alive: Seq<bool>) -> int {
    alive.len() - count_alive(alive)
}

/// Whether no alien is left alive.
pub open spec fn all_destroyed(alive: Seq<bool>) -> bool {
    forall|i: int| 0 <= i < alive.len() ==> !#[trigger] alive[i]
}

/// A fleet of `n` aliens, all alive.
pub open spec fn fresh_fleet(n: nat) -> Seq<bool> {
    Seq::new(n, |i: int| true)
}

/// The alive positions are in range, alive, strictly increasing, and every alive
/// position is among them.
pub proof fn lemma_alive_indices(alive: Seq<bool>)
    ensures
        count_alive(alive) <= alive.len(),
        forall|k: int|
            0 <= k < alive_indices(alive).len() ==> 0 <= #[trigger] alive_indices(alive)[k] < alive.len()
                && alive[alive_indices(alive)[k]],
        forall|k1: int, k2: int|
            0 <= k1 < k2 < alive_indices(alive).len() ==> #[trigger] alive_indices(alive)[k1]
                < #[trigger] alive_indices(alive)[k2],
        forall|i: int|
            0 <= i < alive.len() && #[trigger] alive[i] ==> alive_indices(alive).contains(i),
    decreases alive.len(),
{
    if alive.len() > 0 {
        let rest = alive.drop_last();
        lemma_alive_indices(rest);
        assert forall|i: int| 0 <= i < alive.len() && #[trigger] alive[i] implies alive_indices(
            alive,
        ).contains(i) by {
            if i < alive.len() - 1 {
                assert(rest[i] == alive[i]);
                let k = choose|k: int| 0 <= k < alive_indices(rest).len() && alive_indices(rest)[k] == i;
                assert(alive_indices(alive)[k] == i);
            } else {
                assert(alive_indices(alive).last() == i);
            }
        }
    }
}

/// Nobody alive means no alien is left, and the other way round.
pub proof fn lemma_none_alive_iff_all_destroyed(alive: Seq<bool>)
    ensures
        count_alive(alive) == 0 <==> all_destroyed(alive),
{
    lemma_alive_indices(alive);
    if count_alive(alive) == 0 {
        assert forall|i: int| 0 <= i < alive.len() implies !#[trigger] alive[i] by {
            if alive[i] {
                assert(alive_indices(alive).contains(i));
            }
        }
    } else {
        let j = alive_indices(alive)[0];
        assert(alive[j]);
    }
}

/// Every alien of a fresh fleet is alive.
pub proof fn lemma_fresh_fleet_count(n: nat)
    ensures
        count_alive(fresh_fleet(n)) == n,
    decreases n,
{
    if n > 0 {
        assert(fresh_fleet(n).drop_last() =~= fresh_fleet((n - 1) as nat));
        lemma_fresh_fleet_count((n - 1) as nat);
    }
}

/// Destroying an alien that was alive lowers the count of the living by one.
pub proof fn lemma_destroy_one(alive: Seq<bool>, j: int)
    requires
        0 <= j < alive.len(),
        alive[j],
    ensures
        count_alive(alive.update(j, false)) + 1 == count_alive(alive),
    decreases alive.len(),
{
    let after = alive.update(j, false);
    if j == alive.len() - 1 {
        assert(after.drop_last() =~= alive.drop_last());
    } else {
        assert(after.drop_last() =~= alive.drop_last().update(j, false));
        lemma_destroy_one(alive.drop_last(), j);
    }
}

} // verus!
