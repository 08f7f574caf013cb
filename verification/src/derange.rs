//! The derangement generator: hands every participant somebody else.
//!
//! Candidates are drawn at random and tested until one has no fixed point.
//! The accepted candidate is returned back to front, so position `j` of the
//! result belongs with position `len - 1 - j` of the input: that is the order
//! in which the pairing step takes receivers off the end of the signup list.

use rand::seq::SliceRandom;
use vstd::prelude::*;
use vstd::seq_lib::*;

verus! {

/// How many candidates are drawn before the generator stops drawing and
/// rotates the input instead. A draw fails with probability two thirds at
/// most, so the rotation is reached less than once in 10^22 calls.
pub const MAX_DRAWS: usize = 128;

/// Both sequences hold the same ids, each as often as the other.
pub open spec fn is_permutation(a: Seq<u64>, b: Seq<u64>) -> bool {
    a.to_multiset() =~= b.to_multiset()
}

/// No position of `perm` holds the id that `ids` holds there.
pub open spec fn no_fixed_point(ids: Seq<u64>, perm: Seq<u64>) -> bool {
    &&& perm.len() == ids.len()
    &&& forall|i: int| 0 <= i < ids.len() ==> perm[i] != ids[i]
}

/// `perm` rearranges `ids` and moves every id away from its place.
pub open spec fn is_derangement(ids: Seq<u64>, perm: Seq<u64>) -> bool {
    is_permutation(perm, ids) && no_fixed_point(ids, perm)
}

/// `givers` rearranges `ids`, and read from the back it moves every id away
/// from its place: the giver at position `j` is not the id at position
/// `len - 1 - j`.
pub open spec fn is_reversed_derangement(ids: Seq<u64>, givers: Seq<u64>) -> bool {
    &&& givers.len() == ids.len()
    &&& is_permutation(givers, ids)
    &&& forall|j: int| 0 <= j < givers.len() ==> #[trigger] givers[j] != ids[ids.len() - 1 - j]
}

/// The ids moved one place towards the front, the first one going last.
pub open spec fn rotated(ids: Seq<u64>) -> Seq<u64> {
    if ids.len() == 0 {
        ids
    } else {
        ids.drop_first().push(ids.first())
    }
}

/// Reversing a sequence keeps what it holds.
pub proof fn lemma_reverse_is_permutation(s: Seq<u64>)
    ensures
        s.reverse().len() == s.len(),
        is_permutation(s.reverse(), s),
        s.reverse().reverse() =~= s,
{
    s.lemma_reverse_to_multiset();
}

/// A candidate without a fixed point, turned back to front, is a reversed
/// derangement.
pub proof fn lemma_reverse_of_derangement(ids: Seq<u64>, candidate: Seq<u64>)
    requires
        is_derangement(ids, candidate),
    ensures
        is_reversed_derangement(ids, candidate.reverse()),
{
    lemma_reverse_is_permutation(candidate);
    let givers = candidate.reverse();
    assert forall|j: int| 0 <= j < givers.len() implies #[trigger] givers[j] != ids[ids.len() - 1
        - j] by {
        assert(givers[j] == candidate[ids.len() - 1 - j]);
    }
}

/// Rotating two or more distinct ids moves every one of them.
pub proof fn lemma_rotated_is_derangement(ids: Seq<u64>)
    requires
        ids.no_duplicates(),
        ids.len() != 1,
    ensures
        is_derangement(ids, rotated(ids)),
{
    if ids.len() >= 2 {
        let rest = ids.drop_first();
        let head = ids.first();
        assert(ids =~= rest.insert(0, head));
        to_multiset_insert(rest, 0, head);
        to_multiset_build(rest, head);
        assert forall|i: int| 0 <= i < ids.len() implies rotated(ids)[i] != ids[i] by {
            if i < ids.len() - 1 {
                assert(rotated(ids)[i] == ids[i + 1]);
            } else {
                assert(rotated(ids)[i] == ids[0]);
            }
        }
    }
}

/// Calls `SliceRandom::shuffle` with the thread's generator from
/// `rand::rng`. The slice is rearranged in place: afterwards it holds the same
/// items, each as often as before, in an order that nothing is known of.
#[verifier::external_body]
pub(crate) fn shuffle<T>(items: &mut Vec<T>)
    ensures
        final(items)@.to_multiset() == old(items)@.to_multiset(),
{
    items.shuffle(&mut rand::rng());
}

/// Tells whether a candidate leaves no id in its place.
pub fn has_no_fixed_point(ids: &Vec<u64>, perm: &Vec<u64>) -> (clear: bool)
    ensures
        clear == no_fixed_point(ids@, perm@),
{
    if perm.len() != ids.len() {
        return false;
    }
    let mut i: usize = 0;
    while i < ids.len()
        invariant
            i <= ids.len(),
            perm.len() == ids.len(),
            forall|k: int| 0 <= k < i ==> perm@[k] != ids@[k],
        decreases ids.len() - i,
    {
        if perm[i] == ids[i] {
            return false;
        }
        i = i + 1;
    }
    true
}

/// Copies a sequence back to front.
pub fn reversed(items: &Vec<u64>) -> (out: Vec<u64>)
    ensures
        out@ == items@.reverse(),
{
    let mut out: Vec<u64> = Vec::new();
    let n: usize = items.len();
    let mut i: usize = 0;
    while i < n
        invariant
            i <= n,
            n == items.len(),
            out.len() == i,
            forall|k: int| 0 <= k < i ==> out@[k] == items@[n - 1 - k],
        decreases n - i,
    {
        out.push(items[n - 1 - i]);
        i = i + 1;
    }
    assert(out@ =~= items@.reverse());
    out
}

/// Moves every id one place towards the front and the first one to the end.
pub fn rotate(ids: &Vec<u64>) -> (out: Vec<u64>)
    ensures
        out@ == rotated(ids@),
{
    let mut out: Vec<u64> = Vec::new();
    let n: usize = ids.len();
    if n == 0 {
        assert(out@ =~= rotated(ids@));
        return out;
    }
    let mut i: usize = 1;
    while i < n
        invariant
            1 <= i <= n,
            n == ids.len(),
            out.len() == i - 1,
            forall|k: int| 0 <= k < i - 1 ==> out@[k] == ids@[k + 1],
        decreases n - i,
    {
        out.push(ids[i]);
        i = i + 1;
    }
    out.push(ids[0]);
    assert(out@ =~= rotated(ids@));
    out
}

/// Judges one candidate: a candidate without a fixed point is accepted and
/// handed back turned back to front, any other is turned down.
pub fn accept(ids: &Vec<u64>, candidate: &Vec<u64>) -> (verdict: Option<Vec<u64>>)
    ensures
        match verdict {
            Some(givers) => no_fixed_point(ids@, candidate@) && givers@ == candidate@.reverse(),
            None => !no_fixed_point(ids@, candidate@),
        },
{
    if has_no_fixed_point(ids, candidate) {
        Some(reversed(candidate))
    } else {
        None
    }
}

/// Rearranges the ids so that, read from the back, nobody keeps their place.
///
/// Candidates are drawn uniformly at random; the first one without a fixed
/// point is accepted and returned back to front. Should `MAX_DRAWS` candidates
/// in a row fail, the rotation of the input takes their place, so the call
/// always ends and always keeps its promise. One id alone cannot be deranged,
/// and ids that repeat may have no derangement: callers keep both away.
pub fn derange(ids: &Vec<u64>) -> (givers: Vec<u64>)
    requires
        ids@.no_duplicates(),
        ids@.len() != 1,
    ensures
        is_reversed_derangement(ids@, givers@),
{
    let mut candidate: Vec<u64> = ids.clone();
    let mut draws: usize = 0;
    while draws < MAX_DRAWS
        invariant
            is_permutation(candidate@, ids@),
        decreases MAX_DRAWS - draws,
    {
        shuffle(&mut candidate);
        match accept(ids, &candidate) {
            Some(givers) => {
                proof {
                    lemma_reverse_of_derangement(ids@, candidate@);
                }
                return givers;
            },
            None => {},
        }
        draws = draws + 1;
    }
    let fallback = rotate(ids);
    proof {
        lemma_rotated_is_derangement(ids@);
        lemma_reverse_of_derangement(ids@, fallback@);
    }
    reversed(&fallback)
}

} // verus!
