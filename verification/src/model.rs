//! The records that a party consists of.

use vstd::prelude::*;

verus! {

/// A gift exchange: who runs it, what it is called, and when signing up ends.
#[derive(Debug, PartialEq, Eq)]
pub struct Party {
    /// The identifier derived from the party's seed.
    pub id: u128,
    /// The user who created the party.
    pub admin_id: u64,
    /// The public name of the party.
    pub name: String,
    /// When the party was created, in seconds since the epoch.
    pub started_at: i64,
    /// When signing up ends and the drawing is due, in seconds since the epoch.
    pub ends_at: i64,
    /// Whether the drawing has taken place.
    pub matches_made: bool,
}

/// One participant of one party.
#[derive(Debug, PartialEq, Eq)]
pub struct Signup {
    /// The party signed up for.
    pub party_id: u128,
    /// The participant.
    pub user_id: u64,
    /// How the participant wants to be shown to their giver, encoded.
    pub display_payload: String,
    /// What the participant wants their giver to know, encoded.
    pub hint_payload: String,
}

/// One line of a drawing: the giver, and whom they give to.
#[derive(Debug, PartialEq, Eq)]
pub struct Match {
    /// The party drawn for.
    pub party_id: u128,
    /// The participant who gives.
    pub giver_id: u64,
    /// The participant who receives.
    pub receiver_id: u64,
    /// The receiver's display payload, as signed up.
    pub receiver_display: String,
    /// The receiver's hint payload, as signed up.
    pub receiver_hint: String,
}

impl Clone for Party {
    fn clone(&self) -> (copy: Self)
        ensures
            copy == *self,
    {
        Party {
            id: self.id,
            admin_id: self.admin_id,
            name: self.name.clone(),
            started_at: self.started_at,
            ends_at: self.ends_at,
            matches_made: self.matches_made,
        }
    }
}

impl Clone for Signup {
    fn clone(&self) -> (copy: Self)
        ensures
            copy == *self,
    {
        Signup {
            party_id: self.party_id,
            user_id: self.user_id,
            display_payload: self.display_payload.clone(),
            hint_payload: self.hint_payload.clone(),
        }
    }
}

impl Clone for Match {
    fn clone(&self) -> (copy: Self)
        ensures
            copy == *self,
    {
        Match {
            party_id: self.party_id,
            giver_id: self.giver_id,
            receiver_id: self.receiver_id,
            receiver_display: self.receiver_display.clone(),
            receiver_hint: self.receiver_hint.clone(),
        }
    }
}

/// The participants of a signup list, in order.
pub open spec fn user_ids(signups: Seq<Signup>) -> Seq<u64> {
    Seq::new(signups.len(), |i: int| signups[i].user_id)
}

/// The givers of a drawing, in order.
pub open spec fn giver_ids(matches: Seq<Match>) -> Seq<u64> {
    Seq::new(matches.len(), |j: int| matches[j].giver_id)
}

/// The receivers of a drawing, in order.
pub open spec fn receiver_ids(matches: Seq<Match>) -> Seq<u64> {
    Seq::new(matches.len(), |j: int| matches[j].receiver_id)
}

/// Tells whether a participant is among the signups.
pub fn has_user(signups: &Vec<Signup>, user_id: u64) -> (found: bool)
    ensures
        found == user_ids(signups@).contains(user_id),
{
    let mut i: usize = 0;
    while i < signups.len()
        invariant
            i <= signups@.len(),
            forall|k: int| 0 <= k < i ==> user_ids(signups@)[k] != user_id,
        decreases signups@.len() - i,
    {
        if signups[i].user_id == user_id {
            assert(user_ids(signups@)[i as int] == user_id);
            return true;
        }
        i = i + 1;
    }
    false
}

} // verus!
