//! The registry of armed timers: one per open party, rebuilt from the store
//! whenever the process starts.
//!
//! The registry decides; it does not wait. Whoever drives it asks how long to
//! sleep, sleeps, and then collects the parties whose drawing is due.

use crate::model::Party;
use crate::schedule::{delay_until, dispatch_at, Dispatch, Moment};
use crate::store::{books_wf, open_parties, PartyBook, Store};
use vstd::prelude::*;

verus! {

/// The promise to run a party's drawing once its deadline is reached.
#[derive(Debug, Clone, Copy, PartialEq, Eq, Structural)]
pub struct Timer {
    /// The party whose drawing is to be run.
    pub party_id: u128,
    /// The second from which on the drawing is due.
    pub ends_at: i64,
}

/// Some timer is armed for the party.
pub open spec fn is_armed(timers: Seq<Timer>, party_id: u128) -> bool {
    exists|i: int| 0 <= i < timers.len() && (#[trigger] timers[i]).party_id == party_id
}

/// No party has two timers.
pub open spec fn timers_wf(timers: Seq<Timer>) -> bool {
    forall|i: int, j: int|
        0 <= i < j < timers.len() ==> (#[trigger] timers[i]).party_id != (
        #[trigger] timers[j]).party_id
}

/// One timer for each of the parties, in their order.
pub open spec fn timers_of(parties: Seq<Party>) -> Seq<Timer> {
    Seq::new(
        parties.len(),
        |i: int| Timer { party_id: parties[i].id, ends_at: parties[i].ends_at },
    )
}

/// The parties whose timers have reached their deadline, in order.
pub open spec fn due_now(timers: Seq<Timer>, now_secs: i64) -> Seq<u128>
    decreases timers.len(),
{
    if timers.len() == 0 {
        Seq::empty()
    } else if timers.last().ends_at <= now_secs {
        due_now(timers.drop_last(), now_secs).push(timers.last().party_id)
    } else {
        due_now(timers.drop_last(), now_secs)
    }
}

/// The timers whose deadline lies ahead, in order.
pub open spec fn still_waiting(timers: Seq<Timer>, now_secs: i64) -> Seq<Timer>
    decreases timers.len(),
{
    if timers.len() == 0 {
        Seq::empty()
    } else if timers.last().ends_at <= now_secs {
        still_waiting(timers.drop_last(), now_secs)
    } else {
        still_waiting(timers.drop_last(), now_secs).push(timers.last())
    }
}

/// The earliest deadline among the timers.
pub open spec fn earliest(timers: Seq<Timer>) -> i64
    recommends
        timers.len() > 0,
    decreases timers.len(),
{
    if timers.len() <= 1 {
        timers[0].ends_at
    } else if timers.last().ends_at < earliest(timers.drop_last()) {
        timers.last().ends_at
    } else {
        earliest(timers.drop_last())
    }
}

/// The timers that are left waiting come from the timers there were, and no
/// party has two of them.
pub proof fn lemma_still_waiting(timers: Seq<Timer>, now_secs: i64)
    requires
        timers_wf(timers),
    ensures
        timers_wf(still_waiting(timers, now_secs)),
        forall|k: int|
            0 <= k < still_waiting(timers, now_secs).len() ==> timers.contains(
                #[trigger] still_waiting(timers, now_secs)[k],
            ),
    decreases timers.len(),
{
    if timers.len() > 0 {
        let front = timers.drop_last();
        lemma_still_waiting(front, now_secs);
        let kept = still_waiting(front, now_secs);
        assert forall|k: int| 0 <= k < kept.len() implies timers.contains(#[trigger] kept[k])
            && kept[k].party_id != timers.last().party_id by {
            let i = choose|i: int| 0 <= i < front.len() && front[i] == kept[k];
            assert(timers[i] == kept[k]);
        }
        if !(timers.last().ends_at <= now_secs) {
            let all = still_waiting(timers, now_secs);
            assert(all == kept.push(timers.last()));
            assert(timers[timers.len() - 1] == timers.last());
            assert forall|k: int| 0 <= k < all.len() implies timers.contains(#[trigger] all[k]) by {
                if k < kept.len() {
                    assert(all[k] == kept[k]);
                }
            }
            assert forall|i: int, j: int| 0 <= i < j < all.len() implies (
            #[trigger] all[i]).party_id != (#[trigger] all[j]).party_id by {
                assert(all[i] == kept[i]);
                if j < kept.len() {
                    assert(all[j] == kept[j]);
                }
            }
        }
    }
}

/// The open parties of a consistent store come from its books, and no two of
/// them share an identifier.
pub proof fn lemma_open_parties(books: Seq<PartyBook>)
    requires
        books_wf(books),
    ensures
        forall|k: int|
            0 <= k < open_parties(books).len() ==> !(#[trigger] open_parties(
                books,
            )[k]).matches_made && exists|i: int|
                0 <= i < books.len() && (#[trigger] books[i]).info == open_parties(books)[k],
        forall|a: int, b: int|
            0 <= a < b < open_parties(books).len() ==> (#[trigger] open_parties(books)[a]).id != (
            #[trigger] open_parties(books)[b]).id,
    decreases books.len(),
{
    if books.len() > 0 {
        let front = books.drop_last();
        assert forall|i: int| 0 <= i < front.len() implies front[i] == books[i] by {}
        assert(books_wf(front));
        lemma_open_parties(front);
        let kept = open_parties(front);
        let all = open_parties(books);
        assert forall|k: int| 0 <= k < kept.len() implies kept[k].id != books.last().info.id
            && exists|i: int| 0 <= i < books.len() && (#[trigger] books[i]).info == kept[k] by {
            let i = choose|i: int| 0 <= i < front.len() && (#[trigger] front[i]).info == kept[k];
            assert(books[i].info == kept[k]);
            assert(books[i].info.id != books[books.len() - 1].info.id);
        }
        if !books.last().info.matches_made {
            assert(all == kept.push(books.last().info));
            assert forall|k: int| 0 <= k < all.len() implies !(#[trigger] all[k]).matches_made
                && exists|i: int| 0 <= i < books.len() && (#[trigger] books[i]).info == all[k] by {
                if k < kept.len() {
                    assert(all[k] == kept[k]);
                } else {
                    assert(books[books.len() - 1].info == all[k]);
                }
            }
            assert forall|a: int, b: int| 0 <= a < b < all.len() implies (#[trigger] all[a]).id != (
            #[trigger] all[b]).id by {
                assert(all[a] == kept[a]);
                if b < kept.len() {
                    assert(all[b] == kept[b]);
                }
            }
        }
    }
}

/// The armed timers, in the order in which they were armed.
pub struct Registry {
    timers: Vec<Timer>,
}

impl View for Registry {
    type V = Seq<Timer>;

    closed spec fn view(&self) -> Seq<Timer> {
        self.timers@
    }
}

impl Registry {
    /// No party has two timers.
    pub open spec fn wf(&self) -> bool {
        timers_wf(self@)
    }

    /// A registry without timers.
    pub fn new() -> (registry: Registry)
        ensures
            registry.wf(),
            registry@ == Seq::<Timer>::empty(),
    {
        Registry { timers: Vec::new() }
    }

    /// Rebuilds the registry from the store: one timer for every party whose
    /// drawing is still to come, with the deadline the store holds, whether
    /// that deadline lies ahead or has passed.
    pub fn recover(store: &Store) -> (registry: Registry)
        requires
            store.wf(),
        ensures
            registry.wf(),
            registry@ == timers_of(open_parties(store@)),
    {
        let parties = store.list_open_parties();
        let mut timers: Vec<Timer> = Vec::new();
        let mut i: usize = 0;
        while i < parties.len()
            invariant
                i <= parties@.len(),
                timers@.len() == i,
                forall|k: int| 0 <= k < i ==> timers@[k] == timers_of(parties@)[k],
            decreases parties@.len() - i,
        {
            timers.push(Timer { party_id: parties[i].id, ends_at: parties[i].ends_at });
            i = i + 1;
        }
        proof {
            assert(timers@ =~= timers_of(parties@));
            lemma_open_parties(store@);
        }
        Registry { timers }
    }

    /// Tells whether a timer is armed for the party.
    pub fn contains(&self, party_id: u128) -> (armed: bool)
        ensures
            armed == is_armed(self@, party_id),
    {
        let mut i: usize = 0;
        while i < self.timers.len()
            invariant
                i <= self.timers@.len(),
                forall|k: int| 0 <= k < i ==> (#[trigger] self.timers@[k]).party_id != party_id,
            decreases self.timers@.len() - i,
        {
            if self.timers[i].party_id == party_id {
                return true;
            }
            i = i + 1;
        }
        false
    }

    /// Arms a timer for a party that has none. A party that has one keeps it:
    /// a deadline, once set, does not move.
    pub fn arm(&mut self, party_id: u128, ends_at: i64) -> (armed: bool)
        requires
            old(self).wf(),
        ensures
            final(self).wf(),
            armed == !is_armed(old(self)@, party_id),
            final(self)@ == if armed {
                old(self)@.push(Timer { party_id, ends_at })
            } else {
                old(self)@
            },
    {
        if self.contains(party_id) {
            return false;
        }
        self.timers.push(Timer { party_id, ends_at });
        proof {
            let before = old(self)@;
            assert forall|i: int, j: int| 0 <= i < j < self@.len() implies (
            #[trigger] self@[i]).party_id != (#[trigger] self@[j]).party_id by {
                assert(self@[i] == before[i]);
                if j < before.len() {
                    assert(self@[j] == before[j]);
                }
            }
        }
        true
    }

    /// Takes out the timers whose deadline has been reached and names their
    /// parties, oldest timer first. The other timers stay armed.
    pub fn fire_due(&mut self, now_secs: i64) -> (due: Vec<u128>)
        requires
            old(self).wf(),
        ensures
            final(self).wf(),
            due@ == due_now(old(self)@, now_secs),
            final(self)@ == still_waiting(old(self)@, now_secs),
    {
        let mut due: Vec<u128> = Vec::new();
        let mut waiting: Vec<Timer> = Vec::new();
        let mut i: usize = 0;
        while i < self.timers.len()
            invariant
                i <= self.timers@.len(),
                self.timers@ == old(self).timers@,
                due@ == due_now(self.timers@.take(i as int), now_secs),
                waiting@ == still_waiting(self.timers@.take(i as int), now_secs),
            decreases self.timers@.len() - i,
        {
            assert(self.timers@.take(i + 1).drop_last() =~= self.timers@.take(i as int));
            let timer = self.timers[i];
            if timer.ends_at <= now_secs {
                due.push(timer.party_id);
            } else {
                waiting.push(timer);
            }
            i = i + 1;
        }
        proof {
            assert(self.timers@.take(self.timers@.len() as int) =~= self.timers@);
            lemma_still_waiting(old(self)@, now_secs);
        }
        self.timers = waiting;
        due
    }

    /// Tells what the earliest deadline asks for at `now`: nothing without
    /// timers, a drawing at once if a deadline has been reached, and
    /// otherwise the time to sleep until the first one is.
    pub fn next_dispatch(&self, now: Moment) -> (next: Option<Dispatch>)
        ensures
            next == if self@.len() == 0 {
                None
            } else {
                Some(dispatch_at(earliest(self@), now))
            },
    {
        if self.timers.len() == 0 {
            return None;
        }
        let mut first: i64 = self.timers[0].ends_at;
        let mut i: usize = 1;
        assert(self.timers@.take(1).len() == 1);
        while i < self.timers.len()
            invariant
                1 <= i <= self.timers@.len(),
                first == earliest(self.timers@.take(i as int)),
            decreases self.timers@.len() - i,
        {
            assert(self.timers@.take(i + 1).drop_last() =~= self.timers@.take(i as int));
            if self.timers[i].ends_at < first {
                first = self.timers[i].ends_at;
            }
            i = i + 1;
        }
        assert(self.timers@.take(self.timers@.len() as int) =~= self.timers@);
        Some(delay_until(first, now))
    }
}

} // verus!
