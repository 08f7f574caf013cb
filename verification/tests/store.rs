use secret_satan::model::{Match, Party, Signup};
use secret_satan::store::{Store, StoreError};

fn store_with(id: u128, users: &[u64]) -> Store {
    let mut store = Store::new();
    store.create_party(id, 1, format!("party-{id}"), 100, 160).unwrap();
    for user in users {
        store.add_signup(id, *user, format!("name-{user}"), format!("hint-{user}")).unwrap();
    }
    store
}

fn gives(party_id: u128, giver_id: u64, receiver_id: u64) -> Match {
    Match {
        party_id,
        giver_id,
        receiver_id,
        receiver_display: format!("name-{receiver_id}"),
        receiver_hint: format!("hint-{receiver_id}"),
    }
}

#[test]
fn a_new_store_is_empty() {
    let store = Store::new();
    assert_eq!(store.party_ids(), Vec::<u128>::new());
    assert_eq!(store.list_open_parties(), Vec::<Party>::new());
    assert_eq!(store.get_party(1), None);
}

#[test]
fn created_parties_are_open() {
    let mut store = Store::new();
    assert_eq!(store.create_party(9, 4, "office".to_string(), 100, 160), Ok(()));
    let expected = Party {
        id: 9,
        admin_id: 4,
        name: "office".to_string(),
        started_at: 100,
        ends_at: 160,
        matches_made: false,
    };
    assert_eq!(store.get_party(9), Some(expected.clone()));
    assert_eq!(store.list_open_parties(), vec![expected]);
    assert_eq!(store.list_signups(9), Vec::<Signup>::new());
    assert_eq!(store.list_matches(9), Vec::<Match>::new());
}

#[test]
fn identifiers_are_not_reused() {
    let mut store = store_with(9, &[1, 2]);
    assert_eq!(
        store.create_party(9, 5, "again".to_string(), 200, 260),
        Err(StoreError::Conflict)
    );
    assert_eq!(store.get_party(9).unwrap().name, "party-9");
    assert_eq!(store.list_signups(9).len(), 2);
    assert_eq!(store.party_ids(), vec![9]);
}

#[test]
fn signups_are_kept_in_order() {
    let store = store_with(9, &[3, 1, 2]);
    let signups = store.list_signups(9);
    assert_eq!(signups.len(), 3);
    assert_eq!(
        signups[0],
        Signup {
            party_id: 9,
            user_id: 3,
            display_payload: "name-3".to_string(),
            hint_payload: "hint-3".to_string(),
        }
    );
    assert_eq!(signups[1].user_id, 1);
    assert_eq!(signups[2].user_id, 2);
    assert!(store.has_signup(9, 3));
    assert!(!store.has_signup(9, 4));
    assert!(!store.has_signup(8, 3));
}

#[test]
fn duplicate_signups_fail_without_changing_anything() {
    let mut store = store_with(9, &[1, 2]);
    assert_eq!(
        store.add_signup(9, 1, "other".to_string(), "other".to_string()),
        Err(StoreError::DuplicateSignup)
    );
    let signups = store.list_signups(9);
    assert_eq!(signups.len(), 2);
    assert_eq!(signups[0].display_payload, "name-1");
}

#[test]
fn signups_for_unknown_parties_fail() {
    let mut store = store_with(9, &[1]);
    assert_eq!(
        store.add_signup(8, 1, "n".to_string(), "h".to_string()),
        Err(StoreError::NotFound)
    );
    assert_eq!(store.list_signups(8), Vec::<Signup>::new());
}

#[test]
fn signups_are_scoped_to_their_party() {
    let mut store = store_with(9, &[1]);
    store.create_party(10, 1, "second".to_string(), 100, 160).unwrap();
    assert_eq!(store.add_signup(10, 1, "n".to_string(), "h".to_string()), Ok(()));
    assert_eq!(store.list_signups(9).len(), 1);
    assert_eq!(store.list_signups(10).len(), 1);
}

#[test]
fn recording_resolves_the_party() {
    let mut store = store_with(9, &[1, 2, 3]);
    let drawing = vec![gives(9, 1, 2), gives(9, 2, 3), gives(9, 3, 1)];
    assert_eq!(store.record_matches(9, drawing.clone()), Ok(()));
    assert!(store.get_party(9).unwrap().matches_made);
    assert_eq!(store.list_matches(9), drawing);
    assert_eq!(store.list_open_parties(), Vec::<Party>::new());
    assert_eq!(store.get_match_for(9, 2), Ok(gives(9, 2, 3)));
    assert_eq!(store.get_match_for(9, 7), Err(StoreError::NotFound));
    assert_eq!(store.get_match_for(8, 2), Err(StoreError::NotFound));
}

#[test]
fn recording_twice_is_a_conflict() {
    let mut store = store_with(9, &[1, 2, 3]);
    let first = vec![gives(9, 1, 2), gives(9, 2, 3), gives(9, 3, 1)];
    let second = vec![gives(9, 1, 3), gives(9, 3, 2), gives(9, 2, 1)];
    assert_eq!(store.record_matches(9, first.clone()), Ok(()));
    assert_eq!(store.record_matches(9, second), Err(StoreError::Conflict));
    assert_eq!(store.record_matches(9, first.clone()), Err(StoreError::Conflict));
    assert_eq!(store.mark_resolved(9), Err(StoreError::Conflict));
    assert_eq!(store.list_matches(9), first);
}

#[test]
fn invalid_drawings_leave_the_party_open() {
    let mut store = store_with(9, &[1, 2, 3]);
    let partial = vec![gives(9, 1, 2), gives(9, 2, 1)];
    assert_eq!(store.record_matches(9, partial), Err(StoreError::InvalidMatches));
    let selfish = vec![gives(9, 1, 1), gives(9, 2, 3), gives(9, 3, 2)];
    assert_eq!(store.record_matches(9, selfish), Err(StoreError::InvalidMatches));
    assert_eq!(store.mark_resolved(9), Err(StoreError::InvalidMatches));
    assert!(!store.get_party(9).unwrap().matches_made);
    assert_eq!(store.list_matches(9), Vec::<Match>::new());
    assert_eq!(store.list_open_parties().len(), 1);
}

#[test]
fn recording_for_unknown_parties_fails() {
    let mut store = store_with(9, &[1, 2]);
    assert_eq!(store.record_matches(8, Vec::new()), Err(StoreError::NotFound));
    assert_eq!(store.mark_resolved(8), Err(StoreError::NotFound));
}

#[test]
fn lonely_parties_are_marked_resolved() {
    let mut store = store_with(9, &[1]);
    assert_eq!(store.mark_resolved(9), Ok(()));
    assert!(store.get_party(9).unwrap().matches_made);
    assert_eq!(store.list_matches(9), Vec::<Match>::new());
    assert_eq!(store.get_match_for(9, 1), Err(StoreError::NotFound));
    let mut empty = store_with(10, &[]);
    assert_eq!(empty.mark_resolved(10), Ok(()));
    assert!(empty.get_party(10).unwrap().matches_made);
}

#[test]
fn resolved_parties_take_no_signups() {
    let mut store = store_with(9, &[1, 2]);
    store.record_matches(9, vec![gives(9, 1, 2), gives(9, 2, 1)]).unwrap();
    assert_eq!(
        store.add_signup(9, 3, "n".to_string(), "h".to_string()),
        Err(StoreError::Conflict)
    );
    assert_eq!(store.list_signups(9).len(), 2);
}

#[test]
fn open_parties_are_listed_in_order_of_creation() {
    let mut store = Store::new();
    store.create_party(3, 1, "c".to_string(), 0, 30).unwrap();
    store.create_party(1, 1, "a".to_string(), 0, 10).unwrap();
    store.create_party(2, 1, "b".to_string(), 0, 20).unwrap();
    store.mark_resolved(1).unwrap();
    let open: Vec<u128> = store.list_open_parties().iter().map(|party| party.id).collect();
    assert_eq!(open, vec![3, 2]);
    assert_eq!(store.party_ids(), vec![3, 1, 2]);
}

#[test]
fn resolving_one_party_leaves_the_others_alone() {
    let mut store = store_with(9, &[1, 2]);
    store.create_party(10, 1, "other".to_string(), 100, 500).unwrap();
    store.add_signup(10, 1, "n".to_string(), "h".to_string()).unwrap();
    store.record_matches(9, vec![gives(9, 1, 2), gives(9, 2, 1)]).unwrap();
    let other = store.get_party(10).unwrap();
    assert!(!other.matches_made);
    assert_eq!(other.ends_at, 500);
    assert_eq!(store.list_signups(10).len(), 1);
    assert_eq!(store.list_matches(10), Vec::<Match>::new());
}
