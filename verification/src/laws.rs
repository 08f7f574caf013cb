//! What holds of the library as a whole, stated over the same models that
//! the functions' contracts use.

use crate::codec::identifier_of;
use crate::derange::{is_derangement, is_permutation, is_reversed_derangement};
use crate::matching::is_full_matching;
use crate::model::{giver_ids, receiver_ids, user_ids, Match, Party, Signup};
use crate::schedule::{
    dispatch_at, moment_nanos, phase_at, window_nanos, Dispatch, Moment, Phase, NANOS_PER_SEC,
};
use crate::service::{join_outcome, JoinError};
use crate::store::{
    book_of, book_wf, books_wf, has_party, lemma_with_matches, lemma_with_matches_elsewhere,
    lemma_with_party, lemma_with_signup, lemma_with_signup_elsewhere, record_outcome, signup_of,
    signup_outcome, with_matches, with_party, with_signup, PartyBook, StoreError,
};
use vstd::prelude::*;
use vstd::seq_lib::*;

verus! {

/// What the derangement generator hands out for two or more distinct ids is a
/// rearrangement of them in which every id occurs once, and in the order in
/// which it is paired, back to front, no position holds the id that the input
/// holds there.
pub proof fn law_derange_moves_everyone(ids: Seq<u64>, givers: Seq<u64>)
    requires
        ids.no_duplicates(),
        ids.len() >= 2,
        is_reversed_derangement(ids, givers),
    ensures
        is_permutation(givers, ids),
        givers.no_duplicates(),
        givers.to_set() =~= ids.to_set(),
        is_derangement(ids, givers.reverse()),
{
    broadcast use to_multiset_contains;

    ids.lemma_multiset_has_no_duplicates();
    givers.lemma_multiset_has_no_duplicates_conv();
    assert forall|x: u64| givers.contains(x) <==> ids.contains(x) by {
        assert(givers.to_multiset().count(x) == ids.to_multiset().count(x));
    }
    givers.lemma_reverse_to_multiset();
    let back = givers.reverse();
    assert forall|i: int| 0 <= i < ids.len() implies back[i] != ids[i] by {
        assert(back[i] == givers[ids.len() - 1 - i]);
        assert(givers[ids.len() - 1 - i] != ids[ids.len() - 1 - (ids.len() - 1 - i)]);
    }
}

/// The identifier of a party depends on its seed alone: the same seed gives
/// the same identifier, whenever and wherever it is derived.
pub proof fn law_identifier_follows_seed(first: u32, second: u32)
    requires
        first == second,
    ensures
        identifier_of(first) == identifier_of(second),
{
}

/// In a resolved party with two or more signups, the participants who give,
/// the participants who receive and the participants who signed up are the
/// same people; nobody gives or receives twice, and nobody gives to
/// themselves.
pub proof fn law_drawing_covers_signups(book: PartyBook)
    requires
        book_wf(book),
        book.info.matches_made,
        book.signups.len() >= 2,
    ensures
        book.matches.len() == book.signups.len(),
        giver_ids(book.matches).to_set() =~= user_ids(book.signups).to_set(),
        receiver_ids(book.matches).to_set() =~= user_ids(book.signups).to_set(),
        giver_ids(book.matches).no_duplicates(),
        receiver_ids(book.matches).no_duplicates(),
        forall|j: int|
            0 <= j < book.matches.len() ==> (#[trigger] book.matches[j]).giver_id
                != book.matches[j].receiver_id,
{
    assert(is_full_matching(book.info.id, book.signups, book.matches));
}

/// A party with fewer than two signups is resolved with no matches at all.
pub proof fn law_lonely_party_has_no_matches(book: PartyBook)
    requires
        book_wf(book),
        book.info.matches_made,
        book.signups.len() <= 1,
    ensures
        book.matches.len() == 0,
{
}

/// Resolution happens once. After a drawing has been recorded, every further
/// attempt to record one for the same party, whatever it holds, is answered
/// with a conflict; the store leaves the books as they are on a conflict, so
/// the recorded drawing stays.
pub proof fn law_resolution_is_final(
    books: Seq<PartyBook>,
    id: u128,
    first: Seq<Match>,
    second: Seq<Match>,
)
    requires
        books_wf(books),
        record_outcome(books, id, first) is Ok,
    ensures
        record_outcome(with_matches(books, id, first), id, second) == Err::<(), StoreError>(
            StoreError::Conflict,
        ),
        book_of(with_matches(books, id, first), id).matches == first,
{
    lemma_with_matches(books, id, first);
}

/// A participant joins a party once. After a signup has been accepted, a
/// second one by the same participant for the same party is never accepted:
/// while the party is open it is answered as already joined, and once the
/// party has closed it is answered as closed.
pub proof fn law_signup_is_unique(
    books: Seq<PartyBook>,
    id: u128,
    user_id: u64,
    display: String,
    hint: String,
    first_secs: i64,
    second_secs: i64,
)
    requires
        books_wf(books),
        join_outcome(books, id, user_id, first_secs) is Ok,
    ensures
        join_outcome(
            with_signup(books, signup_of(id, user_id, display, hint)),
            id,
            user_id,
            second_secs,
        ) == if book_of(books, id).info.ends_at <= second_secs {
            Err::<(), JoinError>(JoinError::PartyClosed)
        } else {
            Err::<(), JoinError>(JoinError::AlreadyJoined)
        },
        signup_outcome(with_signup(books, signup_of(id, user_id, display, hint)), id, user_id)
            == Err::<(), StoreError>(StoreError::DuplicateSignup),
{
    let signup = signup_of(id, user_id, display, hint);
    lemma_with_signup(books, signup);
    let signups = book_of(with_signup(books, signup), id).signups;
    assert(user_ids(signups)[signups.len() - 1] == user_id);
}

/// A resolved party stays resolved, and no deadline ever moves: whatever is
/// added to the store, a signup, a drawing or a new party, every party that
/// was there keeps its deadline, and one whose drawing had been made keeps
/// that too.
pub proof fn law_resolved_is_terminal(
    books: Seq<PartyBook>,
    watched: u128,
    signup: Signup,
    id: u128,
    matches: Seq<Match>,
    party: Party,
)
    requires
        books_wf(books),
        has_party(books, watched),
    ensures
        has_party(books, signup.party_id) ==> {
            let after = with_signup(books, signup);
            &&& has_party(after, watched)
            &&& book_of(after, watched).info == book_of(books, watched).info
        },
        has_party(books, id) ==> {
            let after = with_matches(books, id, matches);
            &&& has_party(after, watched)
            &&& book_of(after, watched).info.ends_at == book_of(books, watched).info.ends_at
            &&& book_of(books, watched).info.matches_made ==> book_of(
                after,
                watched,
            ).info.matches_made
        },
        !has_party(books, party.id) ==> {
            let after = with_party(books, party);
            &&& has_party(after, watched)
            &&& book_of(after, watched) == book_of(books, watched)
        },
{
    if has_party(books, signup.party_id) {
        if watched == signup.party_id {
            lemma_with_signup(books, signup);
        } else {
            lemma_with_signup_elsewhere(books, signup, watched);
        }
    }
    if has_party(books, id) {
        if watched == id {
            lemma_with_matches(books, id, matches);
        } else {
            lemma_with_matches_elsewhere(books, id, matches, watched);
        }
    }
    if !has_party(books, party.id) {
        lemma_with_party(books, party, watched);
    }
}

/// A timer neither fires early nor sleeps past its deadline: a drawing is
/// dispatched at once exactly if the deadline has been reached, and otherwise
/// the wait ends exactly at the start of the deadline's second.
pub proof fn law_timer_meets_deadline(ends_at: i64, now: Moment)
    ensures
        dispatch_at(ends_at, now) is Immediately <==> ends_at * NANOS_PER_SEC <= moment_nanos(now),
        dispatch_at(ends_at, now) matches Dispatch::After(wait) ==> {
            &&& wait.nanos < NANOS_PER_SEC
            &&& moment_nanos(now) + window_nanos(wait) == ends_at * NANOS_PER_SEC
        },
{
    let delay = ends_at * 1_000_000_000 - moment_nanos(now);
    if delay > 0 {
        assert(delay / 1_000_000_000 <= u64::MAX) by (nonlinear_arith)
            requires
                delay <= (ends_at - now.secs) * 1_000_000_000,
                ends_at - now.secs <= u64::MAX,
        ;
        assert(0 <= delay / 1_000_000_000);
        assert(0 <= delay % 1_000_000_000 < 1_000_000_000);
        assert(delay == (delay / 1_000_000_000) * 1_000_000_000 + delay % 1_000_000_000)
            by (nonlinear_arith);
    }
}

/// A party moves forward only: as time passes an open party stays open or
/// becomes due, a due party stays due, and a resolved party stays resolved.
pub proof fn law_phase_moves_forward(party: Party, earlier: i64, later: i64)
    requires
        earlier <= later,
    ensures
        phase_at(party, earlier) == Phase::Resolved ==> phase_at(party, later) == Phase::Resolved,
        phase_at(party, earlier) == Phase::Due ==> phase_at(party, later) == Phase::Due,
        phase_at(party, later) == Phase::Open ==> phase_at(party, earlier) == Phase::Open,
{
}

/// Signing up ends when the drawing becomes due: at a moment with a proper
/// nanosecond part, an unresolved party is due exactly if its timer is to
/// fire at once.
pub proof fn law_due_means_dispatch(party: Party, now: Moment)
    requires
        now.nanos < NANOS_PER_SEC,
        !party.matches_made,
    ensures
        phase_at(party, now.secs) == Phase::Due <==> dispatch_at(party.ends_at, now)
            is Immediately,
        phase_at(party, now.secs) == Phase::Open <==> dispatch_at(party.ends_at, now) is After,
{
}

} // verus!
