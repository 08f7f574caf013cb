//! The matching workflow: what happens to a party when its deadline fires.
//!
//! The signups are loaded and shuffled, the givers are deranged, every giver
//! is paired with a receiver, and the drawing is recorded together with the
//! party's resolution. A party with nobody to pair is resolved with an empty
//! drawing. Firing twice does no harm: the second attempt finds the party
//! resolved and leaves the store alone.

use crate::derange::{derange, shuffle};
use crate::matching::{
    is_full_matching, is_resolution, is_sound_match, lemma_paired_is_full_matching, pair_matches,
    paired, receives,
};
use crate::model::{user_ids, Match, Signup};
use crate::store::{
    book_of, has_party, lemma_book_of, lemma_with_matches, record_outcome, with_matches, Store,
    StoreError,
};
use vstd::prelude::*;
use vstd::seq_lib::*;

verus! {

/// A rearranged signup list holds the same signups: each of one list is found
/// in the other, and nobody appears twice in either.
pub proof fn lemma_shuffled_signups(stored: Seq<Signup>, shuffled: Seq<Signup>)
    requires
        shuffled.to_multiset() == stored.to_multiset(),
        user_ids(stored).no_duplicates(),
    ensures
        shuffled.len() == stored.len(),
        forall|i: int| 0 <= i < shuffled.len() ==> stored.contains(#[trigger] shuffled[i]),
        forall|i: int| 0 <= i < stored.len() ==> shuffled.contains(#[trigger] stored[i]),
        user_ids(shuffled).no_duplicates(),
{
    broadcast use to_multiset_contains;

    to_multiset_len(stored);
    to_multiset_len(shuffled);
    assert forall|i: int| 0 <= i < shuffled.len() implies stored.contains(
        #[trigger] shuffled[i],
    ) by {
        assert(shuffled.contains(shuffled[i]));
        assert(shuffled.to_multiset().count(shuffled[i]) > 0);
    }
    assert forall|i: int| 0 <= i < stored.len() implies shuffled.contains(#[trigger] stored[i]) by {
        assert(stored.contains(stored[i]));
        assert(stored.to_multiset().count(stored[i]) > 0);
    }
    assert(stored.no_duplicates()) by {
        assert forall|i: int, j: int|
            0 <= i < stored.len() && 0 <= j < stored.len() && i != j implies stored[i]
            != stored[j] by {
            assert(user_ids(stored)[i] != user_ids(stored)[j]);
        }
    }
    stored.lemma_multiset_has_no_duplicates();
    shuffled.lemma_multiset_has_no_duplicates_conv();
    let users = user_ids(shuffled);
    assert forall|i: int, j: int|
        0 <= i < users.len() && 0 <= j < users.len() && i != j implies users[i] != users[j] by {
        let p = choose|p: int| 0 <= p < stored.len() && stored[p] == shuffled[i];
        let q = choose|q: int| 0 <= q < stored.len() && stored[q] == shuffled[j];
        assert(stored.contains(shuffled[i]) && stored.contains(shuffled[j]));
        assert(shuffled[i] != shuffled[j]);
        assert(p != q);
        assert(user_ids(stored)[p] != user_ids(stored)[q]);
    }
}

/// A perfect matching of a signup list is one of every rearrangement of it.
pub proof fn lemma_full_matching_of_rearranged(
    party_id: u128,
    stored: Seq<Signup>,
    shuffled: Seq<Signup>,
    matches: Seq<Match>,
)
    requires
        shuffled.to_multiset() == stored.to_multiset(),
        user_ids(stored).no_duplicates(),
        is_full_matching(party_id, shuffled, matches),
    ensures
        is_full_matching(party_id, stored, matches),
{
    lemma_shuffled_signups(stored, shuffled);
    assert(user_ids(shuffled).to_set() =~= user_ids(stored).to_set()) by {
        assert forall|x: u64| user_ids(shuffled).contains(x) <==> user_ids(stored).contains(x) by {
            if user_ids(shuffled).contains(x) {
                let i = choose|i: int| 0 <= i < shuffled.len() && user_ids(shuffled)[i] == x;
                assert(stored.contains(shuffled[i]));
                let p = choose|p: int| 0 <= p < stored.len() && stored[p] == shuffled[i];
                assert(user_ids(stored)[p] == x);
            }
            if user_ids(stored).contains(x) {
                let p = choose|p: int| 0 <= p < stored.len() && user_ids(stored)[p] == x;
                assert(shuffled.contains(stored[p]));
                let i = choose|i: int| 0 <= i < shuffled.len() && shuffled[i] == stored[p];
                assert(user_ids(shuffled)[i] == x);
            }
        }
    }
    assert forall|j: int| 0 <= j < matches.len() implies is_sound_match(
        party_id,
        stored,
        #[trigger] matches[j],
    ) by {
        assert(is_sound_match(party_id, shuffled, matches[j]));
        let i = choose|i: int| 0 <= i < shuffled.len() && receives(matches[j], shuffled[i]);
        assert(stored.contains(shuffled[i]));
        let p = choose|p: int| 0 <= p < stored.len() && stored[p] == shuffled[i];
        assert(receives(matches[j], stored[p]));
    }
}

/// The participants of a signup list, in order.
pub fn ids_of(signups: &Vec<Signup>) -> (ids: Vec<u64>)
    ensures
        ids@ == user_ids(signups@),
{
    let mut ids: Vec<u64> = Vec::new();
    let mut i: usize = 0;
    while i < signups.len()
        invariant
            i <= signups@.len(),
            ids@.len() == i,
            forall|k: int| 0 <= k < i ==> ids@[k] == signups@[k].user_id,
        decreases signups@.len() - i,
    {
        ids.push(signups[i].user_id);
        i = i + 1;
    }
    assert(ids@ =~= user_ids(signups@));
    ids
}

/// Finishes a drawing whose random choices have been made: pairs each giver
/// with the signup taken off the end of the shuffled list and records the
/// result. The store accepts the drawing only if it is one of the party's
/// signups; otherwise, and for a party unknown or already resolved, the store
/// stays as it was.
pub fn resolve_with(
    store: &mut Store,
    party_id: u128,
    shuffled: Vec<Signup>,
    givers: &Vec<u64>,
) -> (outcome: Result<(), StoreError>)
    requires
        old(store).wf(),
        givers@.len() <= shuffled@.len(),
    ensures
        final(store).wf(),
        outcome == record_outcome(old(store)@, party_id, paired(party_id, shuffled@, givers@)),
        final(store)@ == if outcome is Ok {
            with_matches(old(store)@, party_id, paired(party_id, shuffled@, givers@))
        } else {
            old(store)@
        },
{
    let matches = pair_matches(party_id, shuffled, givers);
    store.record_matches(party_id, matches)
}

/// Runs the drawing of a party.
///
/// An open party is resolved: with an empty drawing if it has fewer than two
/// signups, and otherwise with a perfect matching of its signups in which
/// nobody gives to themselves. The party's signups and every other party stay
/// as they were. A party already resolved keeps its drawing, and the answer
/// says so; an unknown party changes nothing either.
pub fn resolve_party(store: &mut Store, party_id: u128) -> (outcome: Result<usize, StoreError>)
    requires
        old(store).wf(),
    ensures
        final(store).wf(),
        match outcome {
            Ok(count) => {
                &&& has_party(old(store)@, party_id)
                &&& !book_of(old(store)@, party_id).info.matches_made
                &&& has_party(final(store)@, party_id)
                &&& book_of(final(store)@, party_id).info.matches_made
                &&& is_resolution(
                    party_id,
                    book_of(old(store)@, party_id).signups,
                    book_of(final(store)@, party_id).matches,
                )
                &&& count == book_of(final(store)@, party_id).matches.len()
                &&& final(store)@ == with_matches(
                    old(store)@,
                    party_id,
                    book_of(final(store)@, party_id).matches,
                )
            },
            Err(error) => {
                &&& final(store)@ == old(store)@
                &&& error == if has_party(old(store)@, party_id) {
                    StoreError::Conflict
                } else {
                    StoreError::NotFound
                }
                &&& has_party(old(store)@, party_id) ==> book_of(
                    old(store)@,
                    party_id,
                ).info.matches_made
            },
        },
{
    let party = match store.get_party(party_id) {
        Some(party) => party,
        None => {
            return Err(StoreError::NotFound);
        },
    };
    if party.matches_made {
        return Err(StoreError::Conflict);
    }
    let ghost before = store@;
    let ghost stored = book_of(before, party_id).signups;
    proof {
        lemma_book_of(before, party_id);
    }
    let mut signups = store.list_signups(party_id);
    if signups.len() <= 1 {
        let marked = store.mark_resolved(party_id);
        proof {
            lemma_with_matches(before, party_id, Seq::<Match>::empty());
        }
        return match marked {
            Ok(()) => Ok(0),
            Err(error) => Err(error),
        };
    }
    shuffle(&mut signups);
    let ids = ids_of(&signups);
    proof {
        lemma_shuffled_signups(stored, signups@);
    }
    let givers = derange(&ids);
    let ghost matches = paired(party_id, signups@, givers@);
    proof {
        lemma_paired_is_full_matching(party_id, signups@, givers@);
        lemma_full_matching_of_rearranged(party_id, stored, signups@, matches);
        lemma_with_matches(before, party_id, matches);
    }
    let count = givers.len();
    match resolve_with(store, party_id, signups, &givers) {
        Ok(()) => Ok(count),
        Err(error) => Err(error),
    }
}

} // verus!
