//! What callers ask of the library: create a party, join one by its phrase,
//! and look up whom one gives to.

use crate::codec::{
    decode_phrase, derive_identifier, encode_phrase, identifier_of, phrase_of, seed_of,
    DecodeError,
};
use crate::model::{user_ids, Party};
use crate::schedule::{clock_now, deadline, deadline_after, Moment, Window};
use crate::store::{
    book_of, has_party, lemma_index_of, match_for, opened, signup_of, with_party, with_signup,
    PartyBook, Store, StoreError,
};
use rand::Rng;
use vstd::prelude::*;

verus! {

/// Why a party could not be created.
#[derive(Debug, Clone, Copy, PartialEq, Eq, Structural)]
pub enum CreateError {
    /// The signup window ends later than any second that can be written down.
    WindowTooLong,
    /// A party with the same identifier exists already.
    Conflict,
}

/// Why somebody could not join a party.
#[derive(Debug, Clone, Copy, PartialEq, Eq, Structural)]
pub enum JoinError {
    /// The join phrase is malformed.
    InvalidPhrase,
    /// The phrase is well formed, but no party belongs to it.
    NotFound,
    /// The party no longer accepts signups.
    PartyClosed,
    /// The participant has joined the party before.
    AlreadyJoined,
}

/// What the creator of a party gets back.
#[derive(Debug, PartialEq, Eq)]
pub struct Created {
    /// The phrase that lets others join.
    pub join_phrase: String,
    /// The identifier under which the party is stored.
    pub party_id: u128,
    /// The second in which the party was created.
    pub started_at: i64,
    /// The second from which on the drawing is due.
    pub ends_at: i64,
}

/// How a participant's assignment in a party stands.
#[derive(Debug, PartialEq, Eq)]
pub enum Status {
    /// The drawing is still to come.
    Pending {
        /// The second from which on the drawing is due.
        resolves_at: i64,
    },
    /// The drawing has taken place.
    Matched {
        /// The display payload of the participant to give to.
        receiver_display: String,
        /// The hint payload of the participant to give to.
        receiver_hint: String,
    },
}

/// A participant's assignment in one party.
#[derive(Debug, PartialEq, Eq)]
pub struct Assignment {
    /// The party's name.
    pub party_name: String,
    /// How the assignment stands.
    pub status: Status,
}

/// What opening a party answers: the deadline, or why not.
pub open spec fn open_outcome(books: Seq<PartyBook>, id: u128, now: Moment, window: Window) -> Result<
    i64,
    CreateError,
> {
    if deadline(now, window) > i64::MAX {
        Err(CreateError::WindowTooLong)
    } else if has_party(books, id) {
        Err(CreateError::Conflict)
    } else {
        Ok(deadline(now, window) as i64)
    }
}

/// What joining a party by its identifier answers at the second `now_secs`.
pub open spec fn join_outcome(books: Seq<PartyBook>, id: u128, user_id: u64, now_secs: i64) -> Result<
    (),
    JoinError,
> {
    if !has_party(books, id) {
        Err(JoinError::NotFound)
    } else if book_of(books, id).info.matches_made || book_of(books, id).info.ends_at <= now_secs {
        Err(JoinError::PartyClosed)
    } else if user_ids(book_of(books, id).signups).contains(user_id) {
        Err(JoinError::AlreadyJoined)
    } else {
        Ok(())
    }
}

/// What joining a party by its phrase answers at the second `now_secs`.
pub open spec fn phrase_join_outcome(
    books: Seq<PartyBook>,
    phrase: Seq<char>,
    user_id: u64,
    now_secs: i64,
) -> Result<(), JoinError> {
    match seed_of(phrase) {
        Ok(seed) => join_outcome(books, identifier_of(seed), user_id, now_secs),
        Err(_) => Err(JoinError::InvalidPhrase),
    }
}

/// The party that a phrase leads to, where the phrase is well formed.
pub open spec fn party_of_phrase(phrase: Seq<char>) -> u128 {
    identifier_of(seed_of(phrase)->Ok_0)
}

/// An assignment that is still pending.
pub open spec fn pending(party: Party) -> Assignment {
    Assignment { party_name: party.name, status: Status::Pending { resolves_at: party.ends_at } }
}

/// An assignment that names the receiver.
pub open spec fn matched(party: Party, receiver_display: String, receiver_hint: String) -> Assignment {
    Assignment { party_name: party.name, status: Status::Matched { receiver_display, receiver_hint } }
}

/// What one party's book says about a participant: nothing if they have not
/// signed up, that the drawing is pending while the party is open, and whom
/// they give to once it is resolved. A resolved party in which the participant
/// gives to nobody, having been alone, says nothing either.
pub open spec fn assignment_in(book: PartyBook, user_id: u64) -> Option<Assignment> {
    if !user_ids(book.signups).contains(user_id) {
        None
    } else if !book.info.matches_made {
        Some(pending(book.info))
    } else {
        match match_for(book.matches, user_id) {
            Some(m) => Some(matched(book.info, m.receiver_display, m.receiver_hint)),
            None => None,
        }
    }
}

/// A participant's assignments over all parties, in order of creation.
pub open spec fn assignments(books: Seq<PartyBook>, user_id: u64) -> Seq<Assignment>
    decreases books.len(),
{
    if books.len() == 0 {
        Seq::empty()
    } else {
        match assignment_in(books.last(), user_id) {
            Some(assignment) => assignments(books.drop_last(), user_id).push(assignment),
            None => assignments(books.drop_last(), user_id),
        }
    }
}

/// Calls `Rng::random` on the thread's generator from `rand::rng`. Nothing is
/// promised of the number drawn.
#[verifier::external_body]
fn draw_seed() -> (seed: u32) {
    rand::rng().random::<u32>()
}

/// Opens a party under a given identifier, with a signup window that starts
/// at `now`. A window that ends beyond the last second that can be written
/// down and an identifier already taken are turned down, in this order, and
/// the store stays as it was.
pub fn open_party(
    store: &mut Store,
    party_id: u128,
    admin_id: u64,
    name: String,
    now: Moment,
    window: Window,
) -> (outcome: Result<i64, CreateError>)
    requires
        old(store).wf(),
    ensures
        final(store).wf(),
        outcome == open_outcome(old(store)@, party_id, now, window),
        final(store)@ == match outcome {
            Ok(ends_at) => with_party(
                old(store)@,
                opened(party_id, admin_id, name, now.secs, ends_at),
            ),
            Err(_) => old(store)@,
        },
{
    let ends_at = match deadline_after(now, window) {
        Some(ends_at) => ends_at,
        None => {
            return Err(CreateError::WindowTooLong);
        },
    };
    match store.create_party(party_id, admin_id, name, now.secs, ends_at) {
        Ok(()) => Ok(ends_at),
        Err(_) => Err(CreateError::Conflict),
    }
}

/// Creates the party of a seed: derives the identifier, opens the party, and
/// writes the seed as the join phrase. Whoever presents that phrase is led to
/// this party.
pub fn create_party_with(
    store: &mut Store,
    seed: u32,
    admin_id: u64,
    name: String,
    now: Moment,
    window: Window,
) -> (outcome: Result<Created, CreateError>)
    requires
        old(store).wf(),
    ensures
        final(store).wf(),
        match outcome {
            Ok(created) => {
                &&& open_outcome(old(store)@, identifier_of(seed), now, window) == Ok::<
                    i64,
                    CreateError,
                >(created.ends_at)
                &&& created.party_id == identifier_of(seed)
                &&& created.started_at == now.secs
                &&& created.join_phrase@ == phrase_of(seed)
                &&& seed_of(created.join_phrase@) == Ok::<u32, DecodeError>(seed)
                &&& final(store)@ == with_party(
                    old(store)@,
                    opened(created.party_id, admin_id, name, now.secs, created.ends_at),
                )
            },
            Err(error) => {
                &&& open_outcome(old(store)@, identifier_of(seed), now, window) == Err::<
                    i64,
                    CreateError,
                >(error)
                &&& final(store)@ == old(store)@
            },
        },
{
    let party_id = derive_identifier(seed);
    match open_party(store, party_id, admin_id, name, now, window) {
        Ok(ends_at) => Ok(
            Created { join_phrase: encode_phrase(seed), party_id, started_at: now.secs, ends_at },
        ),
        Err(error) => Err(error),
    }
}

/// Creates a party from a freshly drawn seed, with a signup window that
/// starts now. On success the store has one more party, open and without
/// signups, and the phrase handed back leads to it. It fails only as
/// `create_party_with` does for some seed and some moment, and then the store
/// stays as it was.
pub fn create_party(store: &mut Store, admin_id: u64, name: String, window: Window) -> (outcome: Result<
    Created,
    CreateError,
>)
    requires
        old(store).wf(),
    ensures
        final(store).wf(),
        match outcome {
            Ok(created) => {
                &&& !has_party(old(store)@, created.party_id)
                &&& seed_of(created.join_phrase@) is Ok
                &&& party_of_phrase(created.join_phrase@) == created.party_id
                &&& exists|now: Moment|
                    now.secs == created.started_at && created.ends_at == #[trigger] deadline(
                        now,
                        window,
                    )
                &&& final(store)@ == with_party(
                    old(store)@,
                    opened(created.party_id, admin_id, name, created.started_at, created.ends_at),
                )
            },
            Err(error) => {
                &&& final(store)@ == old(store)@
                &&& exists|seed: u32, now: Moment| #[trigger]
                    open_outcome(old(store)@, identifier_of(seed), now, window) == Err::<
                        i64,
                        CreateError,
                    >(error)
            },
        },
{
    let seed = draw_seed();
    let now = clock_now();
    let outcome = create_party_with(store, seed, admin_id, name, now, window);
    proof {
        if outcome is Ok {
            let created = outcome->Ok_0;
            assert(now.secs == created.started_at && created.ends_at == deadline(now, window));
        } else {
            assert(open_outcome(old(store)@, identifier_of(seed), now, window) == Err::<
                i64,
                CreateError,
            >(outcome->Err_0));
        }
    }
    outcome
}

/// Signs a participant up for the party with a given identifier, at the
/// second `now_secs`. An unknown party, a party that is resolved or whose
/// deadline has been reached, and a participant who has joined before are
/// turned down, in this order, and the store stays as it was.
pub fn join_by_id(
    store: &mut Store,
    party_id: u128,
    user_id: u64,
    display_payload: String,
    hint_payload: String,
    now_secs: i64,
) -> (outcome: Result<(), JoinError>)
    requires
        old(store).wf(),
    ensures
        final(store).wf(),
        outcome == join_outcome(old(store)@, party_id, user_id, now_secs),
        final(store)@ == if outcome is Ok {
            with_signup(old(store)@, signup_of(party_id, user_id, display_payload, hint_payload))
        } else {
            old(store)@
        },
{
    let party = match store.get_party(party_id) {
        Some(party) => party,
        None => {
            return Err(JoinError::NotFound);
        },
    };
    if party.matches_made || party.ends_at <= now_secs {
        return Err(JoinError::PartyClosed);
    }
    match store.add_signup(party_id, user_id, display_payload, hint_payload) {
        Ok(()) => Ok(()),
        Err(StoreError::NotFound) => Err(JoinError::NotFound),
        Err(StoreError::DuplicateSignup) => Err(JoinError::AlreadyJoined),
        Err(_) => Err(JoinError::PartyClosed),
    }
}

/// Signs a participant up for the party that a join phrase leads to, at the
/// second `now_secs`. A malformed phrase is turned down before anything is
/// looked up.
pub fn join_party_at(
    store: &mut Store,
    join_phrase: &str,
    user_id: u64,
    display_payload: String,
    hint_payload: String,
    now_secs: i64,
) -> (outcome: Result<(), JoinError>)
    requires
        old(store).wf(),
    ensures
        final(store).wf(),
        outcome == phrase_join_outcome(old(store)@, join_phrase@, user_id, now_secs),
        final(store)@ == if outcome is Ok {
            with_signup(
                old(store)@,
                signup_of(party_of_phrase(join_phrase@), user_id, display_payload, hint_payload),
            )
        } else {
            old(store)@
        },
{
    match decode_phrase(join_phrase) {
        Ok(seed) => {
            let party_id = derive_identifier(seed);
            join_by_id(store, party_id, user_id, display_payload, hint_payload, now_secs)
        },
        Err(_) => Err(JoinError::InvalidPhrase),
    }
}

/// Signs a participant up for the party that a join phrase leads to, now.
/// The answer is the one `join_party_at` gives for the second the clock
/// shows.
pub fn join_party(
    store: &mut Store,
    join_phrase: &str,
    user_id: u64,
    display_payload: String,
    hint_payload: String,
) -> (outcome: Result<(), JoinError>)
    requires
        old(store).wf(),
    ensures
        final(store).wf(),
        exists|now_secs: i64|
            outcome == #[trigger] phrase_join_outcome(
                old(store)@,
                join_phrase@,
                user_id,
                now_secs,
            ),
        final(store)@ == if outcome is Ok {
            with_signup(
                old(store)@,
                signup_of(party_of_phrase(join_phrase@), user_id, display_payload, hint_payload),
            )
        } else {
            old(store)@
        },
{
    let now = clock_now();
    join_party_at(store, join_phrase, user_id, display_payload, hint_payload, now.secs)
}

/// Looks up a participant's assignments: one for each party they have signed
/// up for, in order of creation, pending while the party is open and naming
/// the receiver once it is resolved.
pub fn get_assignment(store: &Store, user_id: u64) -> (found: Vec<Assignment>)
    requires
        store.wf(),
    ensures
        found@ == assignments(store@, user_id),
{
    let ids = store.party_ids();
    let mut found: Vec<Assignment> = Vec::new();
    let mut i: usize = 0;
    while i < ids.len()
        invariant
            i <= ids@.len(),
            store.wf(),
            ids@.len() == store@.len(),
            forall|k: int| 0 <= k < ids@.len() ==> ids@[k] == (#[trigger] store@[k]).info.id,
            found@ == assignments(store@.take(i as int), user_id),
        decreases ids@.len() - i,
    {
        let id = ids[i];
        proof {
            assert(store@.take(i + 1).drop_last() =~= store@.take(i as int));
            assert(store@.take(i + 1).last() == store@[i as int]);
            lemma_index_of(store@, i as int);
        }
        if store.has_signup(id, user_id) {
            match store.get_party(id) {
                Some(party) => {
                    if !party.matches_made {
                        found.push(
                            Assignment {
                                party_name: party.name,
                                status: Status::Pending { resolves_at: party.ends_at },
                            },
                        );
                    } else {
                        match store.get_match_for(id, user_id) {
                            Ok(m) => {
                                found.push(
                                    Assignment {
                                        party_name: party.name,
                                        status: Status::Matched {
                                            receiver_display: m.receiver_display,
                                            receiver_hint: m.receiver_hint,
                                        },
                                    },
                                );
                            },
                            Err(_) => {},
                        }
                    }
                },
                None => {},
            }
        }
        i = i + 1;
    }
    assert(store@.take(store@.len() as int) =~= store@);
    found
}

} // verus!
