//! Key-value views of the ledger's storage vectors. Each vector of entries is
//! read through a map derived by folding the entries in order, a later entry
//! for a key superseding an earlier one; the lemmas here justify the backward
//! scans the ledger uses for point lookups.
use crate::state::State;
use vstd::prelude::*;

verus! {

/// The owner-to-latest-nonce map described by a vector of `(owner, nonce)`
/// entries, the last entry for an owner winning.
pub open spec fn nonce_map_of(entries: Seq<(u64, u64)>) -> Map<u64, u64>
    decreases entries.len(),
{
    if entries.len() == 0 {
        Map::empty()
    } else {
        nonce_map_of(entries.drop_last()).insert(entries.last().0, entries.last().1)
    }
}

/// The `(owner, nonce)`-to-snapshot map described by a vector of account
/// states, the last entry for a key winning.
pub open spec fn states_map_of(entries: Seq<State>) -> Map<(u64, u64), State>
    decreases entries.len(),
{
    if entries.len() == 0 {
        Map::empty()
    } else {
        states_map_of(entries.drop_last()).insert(
            (entries.last().owner, entries.last().nonce),
            entries.last(),
        )
    }
}

/// Appending an entry updates the derived map at exactly that entry's key.
pub proof fn lemma_nonce_map_of_push(entries: Seq<(u64, u64)>, e: (u64, u64))
    ensures
        nonce_map_of(entries.push(e)) == nonce_map_of(entries).insert(e.0, e.1),
{
    assert(entries.push(e).drop_last() =~= entries);
    assert(entries.push(e).last() == e);
}

/// Appending a snapshot updates the derived map at exactly that snapshot's key.
pub proof fn lemma_states_map_of_push(entries: Seq<State>, s: State)
    ensures
        states_map_of(entries.push(s)) == states_map_of(entries).insert((s.owner, s.nonce), s),
{
    assert(entries.push(s).drop_last() =~= entries);
    assert(entries.push(s).last() == s);
}

/// If no entry at position `i` or later mentions `owner`, the derived map
/// reads the same at `owner` as the map of the first `i` entries alone.
pub proof fn lemma_nonce_map_of_skip(entries: Seq<(u64, u64)>, owner: u64, i: int)
    requires
        0 <= i <= entries.len(),
        forall|j: int| i <= j < entries.len() ==> (#[trigger] entries[j]).0 != owner,
    ensures
        nonce_map_of(entries).contains_key(owner) == nonce_map_of(
            entries.take(i),
        ).contains_key(owner),
        nonce_map_of(entries).contains_key(owner) ==> nonce_map_of(entries)[owner] == nonce_map_of(
            entries.take(i),
        )[owner],
    decreases entries.len() - i,
{
    if i < entries.len() {
        lemma_nonce_map_of_skip(entries, owner, i + 1);
        assert(entries.take(i + 1).drop_last() =~= entries.take(i));
        assert(entries.take(i + 1).last() == entries[i]);
    } else {
        assert(entries.take(i) =~= entries);
    }
}

/// If no snapshot at position `i` or later carries the key `(owner, nonce)`,
/// the derived map reads the same at that key as the map of the first `i`
/// snapshots alone.
pub proof fn lemma_states_map_of_skip(entries: Seq<State>, owner: u64, nonce: u64, i: int)
    requires
        0 <= i <= entries.len(),
        forall|j: int|
            i <= j < entries.len() ==> !((#[trigger] entries[j]).owner == owner && entries[j].nonce
                == nonce),
    ensures
        states_map_of(entries).contains_key((owner, nonce)) == states_map_of(
            entries.take(i),
        ).contains_key((owner, nonce)),
        states_map_of(entries).contains_key((owner, nonce)) ==> states_map_of(entries)[(
            owner,
            nonce,
        )] == states_map_of(entries.take(i))[(owner, nonce)],
    decreases entries.len() - i,
{
    if i < entries.len() {
        lemma_states_map_of_skip(entries, owner, nonce, i + 1);
        assert(entries.take(i + 1).drop_last() =~= entries.take(i));
        assert(entries.take(i + 1).last() == entries[i]);
    } else {
        assert(entries.take(i) =~= entries);
    }
}

/// Every key of the derived map is carried by some stored snapshot.
pub proof fn lemma_states_map_of_dom(entries: Seq<State>, owner: u64, nonce: u64)
    requires
        states_map_of(entries).contains_key((owner, nonce)),
    ensures
        exists|j: int|
            0 <= j < entries.len() && (#[trigger] entries[j]).owner == owner && entries[j].nonce
                == nonce,
    decreases entries.len(),
{
    if entries.len() > 0 {
        if entries.last().owner == owner && entries.last().nonce == nonce {
            assert(entries[entries.len() - 1].owner == owner);
        } else {
            lemma_states_map_of_dom(entries.drop_last(), owner, nonce);
            let j = choose|j: int|
                0 <= j < entries.drop_last().len() && (#[trigger] entries.drop_last()[j]).owner
                    == owner && entries.drop_last()[j].nonce == nonce;
            assert(entries[j].owner == owner && entries[j].nonce == nonce);
        }
    }
}

} // verus!
