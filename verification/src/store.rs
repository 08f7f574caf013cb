//! The persistence contract: what the store holds for each party and how each
//! operation changes it.
//!
//! Every party has a book of its own: its metadata, its signups and, once the
//! drawing has taken place, its matches. A drawing is recorded and the party
//! marked as resolved in one step, so no reader ever sees half a drawing.

use crate::matching::{check_resolution, is_resolution};
use crate::model::{giver_ids, has_user, user_ids, Match, Party, Signup};
use vstd::prelude::*;

verus! {

/// Why the store turned an operation down.
#[derive(Debug, Clone, Copy, PartialEq, Eq, Structural)]
pub enum StoreError {
    /// No party has the identifier.
    NotFound,
    /// The participant has already signed up for the party.
    DuplicateSignup,
    /// The party exists already, or its drawing has already taken place.
    Conflict,
    /// The matches are not a drawing of the party's signups.
    InvalidMatches,
}

/// Everything the store holds for one party.
pub struct PartyBook {
    /// The party's metadata.
    pub info: Party,
    /// The signups, oldest first.
    pub signups: Seq<Signup>,
    /// The matches; none before the drawing.
    pub matches: Seq<Match>,
}

/// Some book belongs to the party.
pub open spec fn has_party(books: Seq<PartyBook>, id: u128) -> bool {
    exists|i: int| 0 <= i < books.len() && (#[trigger] books[i]).info.id == id
}

/// Where the party's book stands.
pub open spec fn index_of(books: Seq<PartyBook>, id: u128) -> int {
    choose|i: int| 0 <= i < books.len() && (#[trigger] books[i]).info.id == id
}

/// The party's book.
pub open spec fn book_of(books: Seq<PartyBook>, id: u128) -> PartyBook {
    books[index_of(books, id)]
}

/// The book is consistent: its signups are the party's own, nobody has signed
/// up twice, and it holds a drawing exactly if the party is resolved.
pub open spec fn book_wf(book: PartyBook) -> bool {
    &&& forall|k: int|
        0 <= k < book.signups.len() ==> (#[trigger] book.signups[k]).party_id == book.info.id
    &&& user_ids(book.signups).no_duplicates()
    &&& if book.info.matches_made {
        is_resolution(book.info.id, book.signups, book.matches)
    } else {
        book.matches.len() == 0
    }
}

/// The books are consistent, and no two belong to the same party.
pub open spec fn books_wf(books: Seq<PartyBook>) -> bool {
    &&& forall|i: int, j: int|
        0 <= i < j < books.len() ==> (#[trigger] books[i]).info.id != (#[trigger] books[j]).info.id
    &&& forall|i: int| 0 <= i < books.len() ==> book_wf(#[trigger] books[i])
}

/// A new party as `create_party` stores it: open, whatever else it says.
pub open spec fn opened(
    id: u128,
    admin_id: u64,
    name: String,
    started_at: i64,
    ends_at: i64,
) -> Party {
    Party { id, admin_id, name, started_at, ends_at, matches_made: false }
}

/// A signup made of its four parts.
pub open spec fn signup_of(
    party_id: u128,
    user_id: u64,
    display_payload: String,
    hint_payload: String,
) -> Signup {
    Signup { party_id, user_id, display_payload, hint_payload }
}

/// The parties whose drawing is still to come, in order of creation.
pub open spec fn open_parties(books: Seq<PartyBook>) -> Seq<Party>
    decreases books.len(),
{
    if books.len() == 0 {
        Seq::empty()
    } else if books.last().info.matches_made {
        open_parties(books.drop_last())
    } else {
        open_parties(books.drop_last()).push(books.last().info)
    }
}

/// The match in which the participant gives, where the drawing has one.
pub open spec fn match_for(matches: Seq<Match>, giver_id: u64) -> Option<Match> {
    if giver_ids(matches).contains(giver_id) {
        Some(matches[giver_ids(matches).index_of(giver_id)])
    } else {
        None
    }
}

/// The books with an empty book for a new party at the end.
pub open spec fn with_party(books: Seq<PartyBook>, party: Party) -> Seq<PartyBook> {
    books.push(PartyBook { info: party, signups: Seq::empty(), matches: Seq::empty() })
}

/// The books with one more signup at the end of a party's list.
pub open spec fn with_signup(books: Seq<PartyBook>, signup: Signup) -> Seq<PartyBook> {
    let i = index_of(books, signup.party_id);
    books.update(
        i,
        PartyBook {
            info: books[i].info,
            signups: books[i].signups.push(signup),
            matches: books[i].matches,
        },
    )
}

/// The party with its drawing marked as made.
pub open spec fn resolved(party: Party) -> Party {
    Party {
        id: party.id,
        admin_id: party.admin_id,
        name: party.name,
        started_at: party.started_at,
        ends_at: party.ends_at,
        matches_made: true,
    }
}

/// The books with a party's drawing recorded and the party resolved.
pub open spec fn with_matches(books: Seq<PartyBook>, id: u128, matches: Seq<Match>) -> Seq<
    PartyBook,
> {
    let i = index_of(books, id);
    books.update(
        i,
        PartyBook { info: resolved(books[i].info), signups: books[i].signups, matches },
    )
}

/// What `create_party` answers.
pub open spec fn create_outcome(books: Seq<PartyBook>, id: u128) -> Result<(), StoreError> {
    if has_party(books, id) {
        Err(StoreError::Conflict)
    } else {
        Ok(())
    }
}

/// What `add_signup` answers.
pub open spec fn signup_outcome(books: Seq<PartyBook>, id: u128, user_id: u64) -> Result<
    (),
    StoreError,
> {
    if !has_party(books, id) {
        Err(StoreError::NotFound)
    } else if book_of(books, id).info.matches_made {
        Err(StoreError::Conflict)
    } else if user_ids(book_of(books, id).signups).contains(user_id) {
        Err(StoreError::DuplicateSignup)
    } else {
        Ok(())
    }
}

/// What `record_matches` answers.
pub open spec fn record_outcome(books: Seq<PartyBook>, id: u128, matches: Seq<Match>) -> Result<
    (),
    StoreError,
> {
    if !has_party(books, id) {
        Err(StoreError::NotFound)
    } else if book_of(books, id).info.matches_made {
        Err(StoreError::Conflict)
    } else if !is_resolution(id, book_of(books, id).signups, matches) {
        Err(StoreError::InvalidMatches)
    } else {
        Ok(())
    }
}

/// In consistent books a party's book is the only one with its identifier.
pub proof fn lemma_index_of(books: Seq<PartyBook>, i: int)
    requires
        books_wf(books),
        0 <= i < books.len(),
    ensures
        has_party(books, books[i].info.id),
        index_of(books, books[i].info.id) == i,
        book_of(books, books[i].info.id) == books[i],
{
    let id = books[i].info.id;
    let j = index_of(books, id);
    assert(0 <= j < books.len() && books[j].info.id == id);
    if j < i {
        assert(books[j].info.id != books[i].info.id);
    }
    if i < j {
        assert(books[i].info.id != books[j].info.id);
    }
}

/// The book of a party that is there is consistent and carries the party's
/// identifier.
pub proof fn lemma_book_of(books: Seq<PartyBook>, id: u128)
    requires
        books_wf(books),
        has_party(books, id),
    ensures
        0 <= index_of(books, id) < books.len(),
        book_of(books, id).info.id == id,
        book_wf(book_of(books, id)),
{
}

/// Recording a drawing changes the party's book and no other: the party is
/// resolved, holds the drawing, and keeps its signups.
pub proof fn lemma_with_matches(books: Seq<PartyBook>, id: u128, matches: Seq<Match>)
    requires
        books_wf(books),
        has_party(books, id),
    ensures
        has_party(with_matches(books, id, matches), id),
        book_of(with_matches(books, id, matches), id).info == resolved(book_of(books, id).info),
        book_of(with_matches(books, id, matches), id).signups == book_of(books, id).signups,
        book_of(with_matches(books, id, matches), id).matches == matches,
{
    let after = with_matches(books, id, matches);
    let i = index_of(books, id);
    assert(after[i].info.id == id);
    assert forall|a: int, b: int| 0 <= a < b < after.len() implies (#[trigger] after[a]).info.id
        != (#[trigger] after[b]).info.id by {
        assert(after[a].info.id == books[a].info.id && after[b].info.id == books[b].info.id);
    }
    let j = index_of(after, id);
    if j != i {
        assert(after[j].info.id == books[j].info.id);
        if j < i {
            assert(books[j].info.id != books[i].info.id);
        } else {
            assert(books[i].info.id != books[j].info.id);
        }
    }
}

/// Recording a drawing for one party leaves every other party's book alone.
pub proof fn lemma_with_matches_elsewhere(
    books: Seq<PartyBook>,
    id: u128,
    matches: Seq<Match>,
    other: u128,
)
    requires
        books_wf(books),
        has_party(books, id),
        other != id,
    ensures
        has_party(with_matches(books, id, matches), other) == has_party(books, other),
        has_party(books, other) ==> book_of(with_matches(books, id, matches), other) == book_of(
            books,
            other,
        ),
{
    let after = with_matches(books, id, matches);
    if has_party(books, other) {
        let k = index_of(books, other);
        assert(after[k] == books[k]);
        assert(after[k].info.id == other);
        let l = index_of(after, other);
        if l != k {
            assert(after[l].info.id == books[l].info.id);
            if l < k {
                assert(books[l].info.id != books[k].info.id);
            } else {
                assert(books[k].info.id != books[l].info.id);
            }
        }
    }
    if has_party(after, other) {
        let l = index_of(after, other);
        assert(books[l].info.id == other);
    }
}

/// Adding a signup changes the party's book and no other: the book gains
/// the signup at the end of its list and keeps everything else.
pub proof fn lemma_with_signup(books: Seq<PartyBook>, signup: Signup)
    requires
        books_wf(books),
        has_party(books, signup.party_id),
    ensures
        has_party(with_signup(books, signup), signup.party_id),
        book_of(with_signup(books, signup), signup.party_id).info == book_of(
            books,
            signup.party_id,
        ).info,
        book_of(with_signup(books, signup), signup.party_id).signups == book_of(
            books,
            signup.party_id,
        ).signups.push(signup),
        book_of(with_signup(books, signup), signup.party_id).matches == book_of(
            books,
            signup.party_id,
        ).matches,
{
    let id = signup.party_id;
    let after = with_signup(books, signup);
    let i = index_of(books, id);
    assert(after[i].info.id == id);
    let j = index_of(after, id);
    if j != i {
        assert(after[j].info.id == books[j].info.id);
        if j < i {
            assert(books[j].info.id != books[i].info.id);
        } else {
            assert(books[i].info.id != books[j].info.id);
        }
    }
}

/// Adding a signup to one party leaves every other party's book alone.
pub proof fn lemma_with_signup_elsewhere(books: Seq<PartyBook>, signup: Signup, other: u128)
    requires
        books_wf(books),
        has_party(books, signup.party_id),
        other != signup.party_id,
    ensures
        has_party(with_signup(books, signup), other) == has_party(books, other),
        has_party(books, other) ==> book_of(with_signup(books, signup), other) == book_of(
            books,
            other,
        ),
{
    let after = with_signup(books, signup);
    if has_party(books, other) {
        let k = index_of(books, other);
        assert(after[k] == books[k]);
        assert(after[k].info.id == other);
        let l = index_of(after, other);
        if l != k {
            assert(after[l].info.id == books[l].info.id);
            if l < k {
                assert(books[l].info.id != books[k].info.id);
            } else {
                assert(books[k].info.id != books[l].info.id);
            }
        }
    }
    if has_party(after, other) {
        let l = index_of(after, other);
        assert(books[l].info.id == other);
    }
}

/// A new party gets an empty book, and every party that was there keeps the
/// book it had.
pub proof fn lemma_with_party(books: Seq<PartyBook>, party: Party, other: u128)
    requires
        books_wf(books),
        !has_party(books, party.id),
    ensures
        has_party(with_party(books, party), party.id),
        book_of(with_party(books, party), party.id).info == party,
        book_of(with_party(books, party), party.id).signups == Seq::<Signup>::empty(),
        book_of(with_party(books, party), party.id).matches == Seq::<Match>::empty(),
        other != party.id ==> has_party(with_party(books, party), other) == has_party(
            books,
            other,
        ),
        has_party(books, other) ==> book_of(with_party(books, party), other) == book_of(
            books,
            other,
        ),
{
    let after = with_party(books, party);
    let n = books.len() as int;
    assert(after[n].info.id == party.id);
    let j = index_of(after, party.id);
    if j != n {
        assert(after[j] == books[j]);
    }
    if has_party(books, other) {
        let k = index_of(books, other);
        assert(after[k] == books[k]);
        assert(after[k].info.id == other);
        let l = index_of(after, other);
        if l != k {
            if l < n {
                assert(after[l] == books[l]);
                if l < k {
                    assert(books[l].info.id != books[k].info.id);
                } else {
                    assert(books[k].info.id != books[l].info.id);
                }
            }
        }
    }
    if other != party.id && has_party(after, other) {
        let l = index_of(after, other);
        assert(after[l] == books[l]);
    }
}

/// In a consistent book no giver gives twice.
pub proof fn lemma_givers_distinct(book: PartyBook)
    requires
        book_wf(book),
    ensures
        giver_ids(book.matches).no_duplicates(),
{
}

struct Entry {
    info: Party,
    signups: Vec<Signup>,
    matches: Vec<Match>,
}

impl Entry {
    spec fn book(self) -> PartyBook {
        PartyBook { info: self.info, signups: self.signups@, matches: self.matches@ }
    }
}

/// The store: one book per party, in order of creation.
pub struct Store {
    entries: Vec<Entry>,
}

impl View for Store {
    type V = Seq<PartyBook>;

    closed spec fn view(&self) -> Seq<PartyBook> {
        Seq::new(self.entries@.len(), |i: int| self.entries@[i].book())
    }
}

impl Store {
    /// The store is consistent.
    pub open spec fn wf(&self) -> bool {
        books_wf(self@)
    }

    /// An empty store.
    pub fn new() -> (store: Store)
        ensures
            store.wf(),
            store@ == Seq::<PartyBook>::empty(),
    {
        let store = Store { entries: Vec::new() };
        assert(store@ =~= Seq::<PartyBook>::empty());
        store
    }

    fn find(&self, id: u128) -> (found: Option<usize>)
        requires
            self.wf(),
        ensures
            match found {
                Some(i) => {
                    &&& i < self.entries@.len()
                    &&& has_party(self@, id)
                    &&& index_of(self@, id) == i
                    &&& book_of(self@, id) == self.entries@[i as int].book()
                },
                None => !has_party(self@, id),
            },
    {
        let mut i: usize = 0;
        while i < self.entries.len()
            invariant
                i <= self.entries@.len(),
                self.wf(),
                forall|k: int| 0 <= k < i ==> (#[trigger] self@[k]).info.id != id,
            decreases self.entries@.len() - i,
        {
            if self.entries[i].info.id == id {
                proof {
                    assert(self@[i as int] == self.entries@[i as int].book());
                    lemma_index_of(self@, i as int);
                }
                return Some(i);
            }
            i = i + 1;
        }
        None
    }

    /// Stores a new, open party. A party whose identifier is taken is turned
    /// down, and the store stays as it was.
    pub fn create_party(
        &mut self,
        id: u128,
        admin_id: u64,
        name: String,
        started_at: i64,
        ends_at: i64,
    ) -> (outcome: Result<(), StoreError>)
        requires
            old(self).wf(),
        ensures
            final(self).wf(),
            outcome == create_outcome(old(self)@, id),
            final(self)@ == if outcome is Ok {
                with_party(old(self)@, opened(id, admin_id, name, started_at, ends_at))
            } else {
                old(self)@
            },
    {
        match self.find(id) {
            Some(_) => Err(StoreError::Conflict),
            None => {
                let info = Party { id, admin_id, name, started_at, ends_at, matches_made: false };
                self.entries.push(Entry { info, signups: Vec::new(), matches: Vec::new() });
                proof {
                    let before = old(self)@;
                    let party = opened(id, admin_id, name, started_at, ends_at);
                    assert(self@ =~= with_party(before, party));
                    assert forall|i: int, j: int| 0 <= i < j < self@.len() implies (
                    #[trigger] self@[i]).info.id != (#[trigger] self@[j]).info.id by {
                        if j < before.len() {
                            assert(self@[i] == before[i] && self@[j] == before[j]);
                        } else {
                            assert(self@[i] == before[i]);
                        }
                    }
                    assert forall|i: int| 0 <= i < self@.len() implies book_wf(
                        #[trigger] self@[i],
                    ) by {
                        if i < before.len() {
                            assert(self@[i] == before[i]);
                        } else {
                            assert(user_ids(self@[i].signups) =~= Seq::<u64>::empty());
                        }
                    }
                }
                Ok(())
            },
        }
    }

    /// The identifiers of all parties, in order of creation.
    pub fn party_ids(&self) -> (ids: Vec<u128>)
        requires
            self.wf(),
        ensures
            ids@.len() == self@.len(),
            forall|i: int| 0 <= i < ids@.len() ==> ids@[i] == (#[trigger] self@[i]).info.id,
    {
        let mut ids: Vec<u128> = Vec::new();
        let mut i: usize = 0;
        while i < self.entries.len()
            invariant
                i <= self.entries@.len(),
                ids@.len() == i,
                forall|k: int| 0 <= k < i ==> ids@[k] == (#[trigger] self@[k]).info.id,
            decreases self.entries@.len() - i,
        {
            ids.push(self.entries[i].info.id);
            i = i + 1;
        }
        ids
    }

    /// Tells whether a participant has signed up for a party.
    pub fn has_signup(&self, party_id: u128, user_id: u64) -> (found: bool)
        requires
            self.wf(),
        ensures
            found == (has_party(self@, party_id) && user_ids(
                book_of(self@, party_id).signups,
            ).contains(user_id)),
    {
        match self.find(party_id) {
            Some(i) => has_user(&self.entries[i].signups, user_id),
            None => false,
        }
    }

    /// Looks a party up.
    pub fn get_party(&self, id: u128) -> (party: Option<Party>)
        requires
            self.wf(),
        ensures
            match party {
                Some(info) => has_party(self@, id) && info == book_of(self@, id).info,
                None => !has_party(self@, id),
            },
    {
        match self.find(id) {
            Some(i) => Some(self.entries[i].info.clone()),
            None => None,
        }
    }

    /// Adds a participant to an open party. A second signup of the same
    /// participant, a resolved party and an unknown party are turned down, and
    /// the store stays as it was.
    pub fn add_signup(
        &mut self,
        party_id: u128,
        user_id: u64,
        display_payload: String,
        hint_payload: String,
    ) -> (outcome: Result<(), StoreError>)
        requires
            old(self).wf(),
        ensures
            final(self).wf(),
            outcome == signup_outcome(old(self)@, party_id, user_id),
            final(self)@ == if outcome is Ok {
                with_signup(
                    old(self)@,
                    signup_of(party_id, user_id, display_payload, hint_payload),
                )
            } else {
                old(self)@
            },
    {
        let i = match self.find(party_id) {
            Some(i) => i,
            None => {
                return Err(StoreError::NotFound);
            },
        };
        if self.entries[i].info.matches_made {
            return Err(StoreError::Conflict);
        }
        if has_user(&self.entries[i].signups, user_id) {
            return Err(StoreError::DuplicateSignup);
        }
        let signup = Signup { party_id, user_id, display_payload, hint_payload };
        self.entries[i].signups.push(signup);
        proof {
            let before = old(self)@;
            let after = with_signup(before, signup);
            assert(self@ =~= after);
            assert(before[i as int] == old(self).entries@[i as int].book());
            assert forall|a: int, b: int| 0 <= a < b < after.len() implies (
            #[trigger] after[a]).info.id != (#[trigger] after[b]).info.id by {
                assert(after[a].info == before[a].info && after[b].info == before[b].info);
            }
            assert forall|a: int| 0 <= a < after.len() implies book_wf(#[trigger] after[a]) by {
                if a == i {
                    let old_users = user_ids(before[a].signups);
                    let new_users = user_ids(after[a].signups);
                    assert(book_wf(before[a]));
                    assert forall|x: int, y: int|
                        0 <= x < new_users.len() && 0 <= y < new_users.len() && x
                            != y implies new_users[x] != new_users[y] by {
                        if x < old_users.len() && y < old_users.len() {
                            assert(old_users[x] != old_users[y]);
                        } else if x < old_users.len() {
                            assert(old_users[x] == new_users[x]);
                        } else {
                            assert(old_users[y] == new_users[y]);
                        }
                    }
                } else {
                    assert(after[a] == before[a]);
                }
            }
        }
        Ok(())
    }

    /// Records a party's drawing and marks the party as resolved, in one
    /// step. The matches must be a drawing of the party's signups: a perfect
    /// matching of two or more, nothing for fewer. A party already resolved
    /// keeps the drawing it has.
    pub fn record_matches(&mut self, party_id: u128, matches: Vec<Match>) -> (outcome: Result<
        (),
        StoreError,
    >)
        requires
            old(self).wf(),
        ensures
            final(self).wf(),
            outcome == record_outcome(old(self)@, party_id, matches@),
            final(self)@ == if outcome is Ok {
                with_matches(old(self)@, party_id, matches@)
            } else {
                old(self)@
            },
    {
        let i = match self.find(party_id) {
            Some(i) => i,
            None => {
                return Err(StoreError::NotFound);
            },
        };
        if self.entries[i].info.matches_made {
            return Err(StoreError::Conflict);
        }
        proof {
            assert(old(self)@[i as int] == old(self).entries@[i as int].book());
            assert(book_wf(old(self)@[i as int]));
        }
        if !check_resolution(party_id, &self.entries[i].signups, &matches) {
            return Err(StoreError::InvalidMatches);
        }
        self.entries[i].matches = matches;
        self.entries[i].info.matches_made = true;
        proof {
            let before = old(self)@;
            let after = with_matches(before, party_id, matches@);
            assert(self@ =~= after);
            assert forall|a: int, b: int| 0 <= a < b < after.len() implies (
            #[trigger] after[a]).info.id != (#[trigger] after[b]).info.id by {
                assert(after[a].info.id == before[a].info.id && after[b].info.id
                    == before[b].info.id);
            }
            assert forall|a: int| 0 <= a < after.len() implies book_wf(#[trigger] after[a]) by {
                if a != i {
                    assert(after[a] == before[a]);
                }
            }
        }
        Ok(())
    }

    /// Resolves a party that has nobody to pair: marks it as resolved with an
    /// empty drawing. A party with two or more signups needs a real drawing and
    /// is turned down.
    pub fn mark_resolved(&mut self, party_id: u128) -> (outcome: Result<(), StoreError>)
        requires
            old(self).wf(),
        ensures
            final(self).wf(),
            outcome == record_outcome(old(self)@, party_id, Seq::<Match>::empty()),
            final(self)@ == if outcome is Ok {
                with_matches(old(self)@, party_id, Seq::<Match>::empty())
            } else {
                old(self)@
            },
    {
        self.record_matches(party_id, Vec::new())
    }

    /// The parties whose drawing is still to come, in order of creation.
    pub fn list_open_parties(&self) -> (parties: Vec<Party>)
        requires
            self.wf(),
        ensures
            parties@ == open_parties(self@),
    {
        let mut parties: Vec<Party> = Vec::new();
        let mut i: usize = 0;
        while i < self.entries.len()
            invariant
                i <= self.entries@.len(),
                parties@ == open_parties(self@.take(i as int)),
            decreases self.entries@.len() - i,
        {
            assert(self@.take(i + 1).drop_last() =~= self@.take(i as int));
            assert(self@.take(i + 1).last() == self.entries@[i as int].book());
            if !self.entries[i].info.matches_made {
                parties.push(self.entries[i].info.clone());
            }
            i = i + 1;
        }
        assert(self@.take(self@.len() as int) =~= self@);
        parties
    }

    /// The drawing of a party, in the order recorded; nothing for a party that
    /// is open or not there.
    pub fn list_matches(&self, id: u128) -> (matches: Vec<Match>)
        requires
            self.wf(),
        ensures
            matches@ == if has_party(self@, id) {
                book_of(self@, id).matches
            } else {
                Seq::<Match>::empty()
            },
    {
        match self.find(id) {
            Some(i) => {
                let matches = self.entries[i].matches.clone();
                assert(matches@ =~= self.entries@[i as int].matches@);
                matches
            },
            None => Vec::new(),
        }
    }

    /// The match in which a participant gives, if the party is there and its
    /// drawing holds one.
    pub fn get_match_for(&self, party_id: u128, giver_id: u64) -> (found: Result<Match, StoreError>)
        requires
            self.wf(),
        ensures
            found == if has_party(self@, party_id) {
                match match_for(book_of(self@, party_id).matches, giver_id) {
                    Some(m) => Ok::<Match, StoreError>(m),
                    None => Err::<Match, StoreError>(StoreError::NotFound),
                }
            } else {
                Err::<Match, StoreError>(StoreError::NotFound)
            },
    {
        let i = match self.find(party_id) {
            Some(i) => i,
            None => {
                return Err(StoreError::NotFound);
            },
        };
        let matches = &self.entries[i].matches;
        let ghost givers = giver_ids(matches@);
        assert(book_of(self@, party_id) == self@[i as int]);
        let mut j: usize = 0;
        while j < matches.len()
            invariant
                j <= matches@.len(),
                givers == giver_ids(matches@),
                forall|k: int| 0 <= k < j ==> givers[k] != giver_id,
                has_party(self@, party_id),
                book_wf(book_of(self@, party_id)),
                book_of(self@, party_id).matches == matches@,
            decreases matches@.len() - j,
        {
            if matches[j].giver_id == giver_id {
                proof {
                    assert(givers[j as int] == giver_id);
                    assert(givers.contains(giver_id));
                    let first = givers.index_of(giver_id);
                    assert(0 <= first < givers.len() && givers[first] == giver_id);
                    lemma_givers_distinct(book_of(self@, party_id));
                    assert(first == j);
                }
                return Ok(matches[j].clone());
            }
            j = j + 1;
        }
        Err(StoreError::NotFound)
    }

    /// The signups of a party, oldest first; none for a party that is not
    /// there.
    pub fn list_signups(&self, id: u128) -> (signups: Vec<Signup>)
        requires
            self.wf(),
        ensures
            signups@ == if has_party(self@, id) {
                book_of(self@, id).signups
            } else {
                Seq::<Signup>::empty()
            },
    {
        match self.find(id) {
            Some(i) => {
                let signups = self.entries[i].signups.clone();
                assert(signups@ =~= self.entries@[i as int].signups@);
                signups
            },
            None => Vec::new(),
        }
    }
}

} // verus!
