//! Drawings: what makes one valid, and how one is put together.

use crate::derange::is_reversed_derangement;
use crate::model::{giver_ids, has_user, receiver_ids, user_ids, Match, Signup};
use vstd::set_lib::*;
use vstd::prelude::*;
use vstd::seq_lib::*;

verus! {

/// The match in which `giver` gives to the participant behind `receiver`.
pub open spec fn match_of(party_id: u128, giver: u64, receiver: Signup) -> Match {
    Match {
        party_id,
        giver_id: giver,
        receiver_id: receiver.user_id,
        receiver_display: receiver.display_payload,
        receiver_hint: receiver.hint_payload,
    }
}

/// The match names this signup as its receiver and carries its payloads.
pub open spec fn receives(m: Match, signup: Signup) -> bool {
    &&& m.receiver_id == signup.user_id
    &&& m.receiver_display@ == signup.display_payload@
    &&& m.receiver_hint@ == signup.hint_payload@
}

/// The match belongs to the party, pairs two different participants, and its
/// receiver is one of the signups, with that signup's payloads.
pub open spec fn is_sound_match(party_id: u128, signups: Seq<Signup>, m: Match) -> bool {
    &&& m.party_id == party_id
    &&& m.giver_id != m.receiver_id
    &&& exists|i: int| 0 <= i < signups.len() && receives(m, #[trigger] signups[i])
}

/// The drawing is a perfect matching of the signups: everybody gives once,
/// everybody receives once, and nobody gives to themselves.
pub open spec fn is_full_matching(party_id: u128, signups: Seq<Signup>, matches: Seq<Match>) -> bool {
    &&& matches.len() == signups.len()
    &&& giver_ids(matches).no_duplicates()
    &&& receiver_ids(matches).no_duplicates()
    &&& giver_ids(matches).to_set() =~= user_ids(signups).to_set()
    &&& receiver_ids(matches).to_set() =~= user_ids(signups).to_set()
    &&& forall|j: int|
        0 <= j < matches.len() ==> is_sound_match(party_id, signups, #[trigger] matches[j])
}

/// What a resolved party holds: a perfect matching of two or more signups, and
/// nothing where there is nobody to pair.
pub open spec fn is_resolution(party_id: u128, signups: Seq<Signup>, matches: Seq<Match>) -> bool {
    if signups.len() <= 1 {
        matches.len() == 0
    } else {
        is_full_matching(party_id, signups, matches)
    }
}

/// The drawing that pairs giver `j` with the signup `j` places from the end.
pub open spec fn paired(party_id: u128, signups: Seq<Signup>, givers: Seq<u64>) -> Seq<Match> {
    Seq::new(
        givers.len(),
        |j: int| match_of(party_id, givers[j], signups[signups.len() - 1 - j]),
    )
}

/// Pairing a reversed derangement of the participants with the signups, taken
/// from the end, gives a perfect matching.
pub proof fn lemma_paired_is_full_matching(party_id: u128, signups: Seq<Signup>, givers: Seq<u64>)
    requires
        user_ids(signups).no_duplicates(),
        is_reversed_derangement(user_ids(signups), givers),
    ensures
        is_full_matching(party_id, signups, paired(party_id, signups, givers)),
{
    broadcast use to_multiset_contains;

    let users = user_ids(signups);
    let matches = paired(party_id, signups, givers);
    let n = signups.len() as int;
    assert(giver_ids(matches) =~= givers);
    users.lemma_multiset_has_no_duplicates();
    givers.lemma_multiset_has_no_duplicates_conv();
    assert(givers.to_set() =~= users.to_set()) by {
        assert forall|x: u64| givers.contains(x) <==> users.contains(x) by {
            assert(givers.to_multiset().count(x) == users.to_multiset().count(x));
        }
    }
    let receivers = receiver_ids(matches);
    assert forall|j: int| 0 <= j < n implies receivers[j] == users[n - 1 - j] by {}
    assert(receivers.no_duplicates());
    assert(receivers.to_set() =~= users.to_set()) by {
        assert forall|x: u64| receivers.contains(x) <==> users.contains(x) by {
            if receivers.contains(x) {
                let j = choose|j: int| 0 <= j < n && receivers[j] == x;
                assert(users[n - 1 - j] == x);
            }
            if users.contains(x) {
                let i = choose|i: int| 0 <= i < n && users[i] == x;
                assert(receivers[n - 1 - i] == x);
            }
        }
    }
    assert forall|j: int| 0 <= j < matches.len() implies is_sound_match(
        party_id,
        signups,
        #[trigger] matches[j],
    ) by {
        assert(receives(matches[j], signups[n - 1 - j]));
        assert(givers[j] != users[n - 1 - j]);
    }
}

/// Puts a drawing together: each giver in turn is paired with the signup
/// taken off the end of the list.
pub fn pair_matches(party_id: u128, signups: Vec<Signup>, givers: &Vec<u64>) -> (matches: Vec<Match>)
    requires
        givers@.len() <= signups@.len(),
    ensures
        matches@ == paired(party_id, signups@, givers@),
{
    let ghost all = signups@;
    let mut rest = signups;
    let mut matches: Vec<Match> = Vec::new();
    let mut j: usize = 0;
    while j < givers.len()
        invariant
            j <= givers.len(),
            givers@.len() <= all.len(),
            rest@ == all.take(all.len() - j),
            matches@.len() == j,
            forall|k: int| 0 <= k < j ==> matches@[k] == paired(party_id, all, givers@)[k],
        decreases givers.len() - j,
    {
        let taken = rest.pop();
        match taken {
            Some(receiver) => {
                matches.push(
                    Match {
                        party_id,
                        giver_id: givers[j],
                        receiver_id: receiver.user_id,
                        receiver_display: receiver.display_payload,
                        receiver_hint: receiver.hint_payload,
                    },
                );
            },
            None => {},
        }
        j = j + 1;
    }
    assert(matches@ =~= paired(party_id, all, givers@));
    matches
}

/// Tells whether the match names one of the signups as its receiver, with
/// that signup's payloads.
pub fn has_receiver(signups: &Vec<Signup>, m: &Match) -> (found: bool)
    ensures
        found == exists|i: int| 0 <= i < signups@.len() && receives(*m, #[trigger] signups@[i]),
{
    let mut i: usize = 0;
    while i < signups.len()
        invariant
            i <= signups@.len(),
            forall|k: int| 0 <= k < i ==> !receives(*m, #[trigger] signups@[k]),
        decreases signups@.len() - i,
    {
        let signup = &signups[i];
        if signup.user_id == m.receiver_id && signup.display_payload == m.receiver_display
            && signup.hint_payload == m.receiver_hint {
            assert(receives(*m, signups@[i as int]));
            return true;
        }
        i = i + 1;
    }
    false
}

/// Tells whether the giver or the receiver of match `j` already gives or
/// receives in an earlier match.
pub fn repeats_earlier(matches: &Vec<Match>, j: usize) -> (repeats: bool)
    requires
        j < matches@.len(),
    ensures
        repeats == exists|k: int|
            0 <= k < j && ((#[trigger] matches@[k]).giver_id == matches@[j as int].giver_id
                || matches@[k].receiver_id == matches@[j as int].receiver_id),
{
    let mut k: usize = 0;
    while k < j
        invariant
            k <= j,
            j < matches@.len(),
            forall|a: int|
                0 <= a < k ==> (#[trigger] matches@[a]).giver_id != matches@[j as int].giver_id
                    && matches@[a].receiver_id != matches@[j as int].receiver_id,
        decreases j - k,
    {
        if matches[k].giver_id == matches[j].giver_id || matches[k].receiver_id
            == matches[j].receiver_id {
            return true;
        }
        k = k + 1;
    }
    false
}

/// Matches that pass the four tests of `check_full_matching` one by one form
/// a perfect matching.
proof fn lemma_checked_is_full_matching(party_id: u128, signups: Seq<Signup>, matches: Seq<Match>)
    requires
        user_ids(signups).no_duplicates(),
        matches.len() == signups.len(),
        forall|j: int|
            0 <= j < matches.len() ==> is_sound_match(party_id, signups, #[trigger] matches[j]),
        forall|j: int|
            0 <= j < matches.len() ==> user_ids(signups).contains(
                (#[trigger] matches[j]).giver_id,
            ),
        forall|a: int, b: int|
            0 <= a < b < matches.len() ==> (#[trigger] matches[a]).giver_id != (
            #[trigger] matches[b]).giver_id && matches[a].receiver_id != matches[b].receiver_id,
    ensures
        is_full_matching(party_id, signups, matches),
{
    let users = user_ids(signups);
    let givers = giver_ids(matches);
    let receivers = receiver_ids(matches);
    assert forall|a: int, b: int|
        0 <= a < givers.len() && 0 <= b < givers.len() && a != b implies givers[a] != givers[b] by {
        if a < b {
            assert(matches[a].giver_id != matches[b].giver_id);
        } else {
            assert(matches[b].giver_id != matches[a].giver_id);
        }
    }
    assert forall|a: int, b: int|
        0 <= a < receivers.len() && 0 <= b < receivers.len() && a != b implies receivers[a]
        != receivers[b] by {
        if a < b {
            assert(matches[a].receiver_id != matches[b].receiver_id);
        } else {
            assert(matches[b].receiver_id != matches[a].receiver_id);
        }
    }
    users.unique_seq_to_set();
    givers.unique_seq_to_set();
    receivers.unique_seq_to_set();
    seq_to_set_is_finite(users);
    seq_to_set_is_finite(givers);
    seq_to_set_is_finite(receivers);
    assert(givers.to_set().subset_of(users.to_set())) by {
        assert forall|x: u64| givers.contains(x) implies users.contains(x) by {
            let k = choose|k: int| 0 <= k < givers.len() && givers[k] == x;
            assert(users.contains(matches[k].giver_id));
        }
    }
    assert(receivers.to_set().subset_of(users.to_set())) by {
        assert forall|x: u64| receivers.contains(x) implies users.contains(x) by {
            let k = choose|k: int| 0 <= k < receivers.len() && receivers[k] == x;
            assert(is_sound_match(party_id, signups, matches[k]));
            let i = choose|i: int| 0 <= i < signups.len() && receives(matches[k], signups[i]);
            assert(users[i] == x);
        }
    }
    lemma_subset_equality(givers.to_set(), users.to_set());
    lemma_subset_equality(receivers.to_set(), users.to_set());
}

/// Tells whether the matches are a perfect matching of the signups.
pub fn check_full_matching(party_id: u128, signups: &Vec<Signup>, matches: &Vec<Match>) -> (ok:
    bool)
    requires
        user_ids(signups@).no_duplicates(),
    ensures
        ok == is_full_matching(party_id, signups@, matches@),
{
    if matches.len() != signups.len() {
        return false;
    }
    let mut j: usize = 0;
    while j < matches.len()
        invariant
            j <= matches@.len(),
            matches@.len() == signups@.len(),
            forall|k: int|
                0 <= k < j ==> is_sound_match(party_id, signups@, #[trigger] matches@[k]),
            forall|k: int|
                0 <= k < j ==> user_ids(signups@).contains((#[trigger] matches@[k]).giver_id),
            forall|a: int, b: int|
                0 <= a < b < j ==> (#[trigger] matches@[a]).giver_id != (
                #[trigger] matches@[b]).giver_id && matches@[a].receiver_id
                    != matches@[b].receiver_id,
        decreases matches@.len() - j,
    {
        let m = &matches[j];
        if m.party_id != party_id || m.giver_id == m.receiver_id || !has_receiver(signups, m) {
            assert(!is_sound_match(party_id, signups@, matches@[j as int]));
            return false;
        }
        if !has_user(signups, m.giver_id) {
            proof {
                let givers = giver_ids(matches@);
                assert(givers[j as int] == m.giver_id);
                assert(givers.to_set().contains(m.giver_id));
                assert(!user_ids(signups@).to_set().contains(m.giver_id));
            }
            return false;
        }
        if repeats_earlier(matches, j) {
            proof {
                let k = choose|k: int|
                    0 <= k < j && ((#[trigger] matches@[k]).giver_id == matches@[j as int].giver_id
                        || matches@[k].receiver_id == matches@[j as int].receiver_id);
                let givers = giver_ids(matches@);
                let receivers = receiver_ids(matches@);
                assert(givers[k] == matches@[k].giver_id && givers[j as int] == m.giver_id);
                assert(receivers[k] == matches@[k].receiver_id && receivers[j as int]
                    == m.receiver_id);
            }
            return false;
        }
        j = j + 1;
    }
    proof {
        lemma_checked_is_full_matching(party_id, signups@, matches@);
    }
    true
}

/// Tells whether the matches are what a resolved party with these signups
/// holds.
pub fn check_resolution(party_id: u128, signups: &Vec<Signup>, matches: &Vec<Match>) -> (ok: bool)
    requires
        user_ids(signups@).no_duplicates(),
    ensures
        ok == is_resolution(party_id, signups@, matches@),
{
    if signups.len() <= 1 {
        matches.len() == 0
    } else {
        check_full_matching(party_id, signups, matches)
    }
}

} // verus!
