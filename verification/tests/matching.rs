use secret_satan::matching::{
    check_full_matching, check_resolution, has_receiver, pair_matches, repeats_earlier,
};
use secret_satan::model::{has_user, Match, Signup};

const PARTY: u128 = 77;

fn signup(user_id: u64) -> Signup {
    Signup {
        party_id: PARTY,
        user_id,
        display_payload: format!("name-{user_id}"),
        hint_payload: format!("hint-{user_id}"),
    }
}

fn gives(giver_id: u64, receiver_id: u64) -> Match {
    Match {
        party_id: PARTY,
        giver_id,
        receiver_id,
        receiver_display: format!("name-{receiver_id}"),
        receiver_hint: format!("hint-{receiver_id}"),
    }
}

#[test]
fn pairing_takes_receivers_from_the_end() {
    let signups = vec![signup(1), signup(2), signup(3)];
    let matches = pair_matches(PARTY, signups, &vec![1, 3, 2]);
    assert_eq!(matches, vec![gives(1, 3), gives(3, 2), gives(2, 1)]);
}

#[test]
fn pairing_with_fewer_givers_stops_early() {
    let signups = vec![signup(1), signup(2), signup(3)];
    assert_eq!(pair_matches(PARTY, signups, &vec![9]), vec![gives(9, 3)]);
    assert_eq!(pair_matches(PARTY, vec![signup(1)], &vec![]), Vec::<Match>::new());
}

#[test]
fn pairing_carries_the_party_and_the_payloads() {
    let matches = pair_matches(5, vec![signup(10), signup(20)], &vec![10, 20]);
    assert_eq!(matches.len(), 2);
    assert_eq!(matches[0].party_id, 5);
    assert_eq!(matches[0].giver_id, 10);
    assert_eq!(matches[0].receiver_id, 20);
    assert_eq!(matches[0].receiver_display, "name-20");
    assert_eq!(matches[0].receiver_hint, "hint-20");
    assert_eq!(matches[1].giver_id, 20);
    assert_eq!(matches[1].receiver_id, 10);
}

#[test]
fn users_are_found_among_signups() {
    let signups = vec![signup(1), signup(2)];
    assert!(has_user(&signups, 1));
    assert!(has_user(&signups, 2));
    assert!(!has_user(&signups, 3));
    assert!(!has_user(&Vec::new(), 1));
}

#[test]
fn receivers_are_matched_with_their_payloads() {
    let signups = vec![signup(1), signup(2)];
    assert!(has_receiver(&signups, &gives(1, 2)));
    assert!(!has_receiver(&signups, &gives(1, 3)));
    let mut forged = gives(1, 2);
    forged.receiver_display = "somebody else".to_string();
    assert!(!has_receiver(&signups, &forged));
    let mut forged = gives(1, 2);
    forged.receiver_hint = "another hint".to_string();
    assert!(!has_receiver(&signups, &forged));
}

#[test]
fn repeated_givers_and_receivers_are_noticed() {
    let matches = vec![gives(1, 2), gives(2, 3), gives(1, 4), gives(5, 3)];
    assert!(!repeats_earlier(&matches, 0));
    assert!(!repeats_earlier(&matches, 1));
    assert!(repeats_earlier(&matches, 2));
    assert!(repeats_earlier(&matches, 3));
}

#[test]
fn a_cycle_is_a_full_matching() {
    let signups = vec![signup(1), signup(2), signup(3)];
    assert!(check_full_matching(PARTY, &signups, &vec![gives(1, 2), gives(2, 3), gives(3, 1)]));
    assert!(check_full_matching(PARTY, &signups, &vec![gives(3, 2), gives(1, 3), gives(2, 1)]));
    let pair = vec![signup(1), signup(2)];
    assert!(check_full_matching(PARTY, &pair, &vec![gives(1, 2), gives(2, 1)]));
}

#[test]
fn broken_drawings_are_no_full_matching() {
    let signups = vec![signup(1), signup(2), signup(3)];
    // somebody gives to themselves
    assert!(!check_full_matching(PARTY, &signups, &vec![gives(1, 1), gives(2, 3), gives(3, 2)]));
    // somebody gives twice
    assert!(!check_full_matching(PARTY, &signups, &vec![gives(1, 2), gives(1, 3), gives(3, 1)]));
    // somebody receives twice
    assert!(!check_full_matching(PARTY, &signups, &vec![gives(1, 2), gives(3, 2), gives(2, 1)]));
    // a match is missing
    assert!(!check_full_matching(PARTY, &signups, &vec![gives(1, 2), gives(2, 1)]));
    // a stranger gives
    assert!(!check_full_matching(PARTY, &signups, &vec![gives(9, 2), gives(2, 3), gives(3, 1)]));
    // a stranger receives
    assert!(!check_full_matching(PARTY, &signups, &vec![gives(1, 9), gives(2, 3), gives(3, 1)]));
    // nothing at all
    assert!(!check_full_matching(PARTY, &signups, &Vec::new()));
}

#[test]
fn drawings_of_another_party_are_no_full_matching() {
    let signups = vec![signup(1), signup(2)];
    let mut foreign = gives(1, 2);
    foreign.party_id = PARTY + 1;
    assert!(!check_full_matching(PARTY, &signups, &vec![foreign, gives(2, 1)]));
}

#[test]
fn drawings_with_changed_payloads_are_no_full_matching() {
    let signups = vec![signup(1), signup(2)];
    let mut forged = gives(1, 2);
    forged.receiver_hint = "buy me a pony".to_string();
    assert!(!check_full_matching(PARTY, &signups, &vec![forged, gives(2, 1)]));
}

#[test]
fn lonely_parties_resolve_to_nothing() {
    assert!(check_resolution(PARTY, &Vec::new(), &Vec::new()));
    assert!(check_resolution(PARTY, &vec![signup(1)], &Vec::new()));
    assert!(!check_resolution(PARTY, &vec![signup(1)], &vec![gives(1, 1)]));
    assert!(!check_resolution(PARTY, &Vec::new(), &vec![gives(1, 2)]));
}

#[test]
fn larger_parties_resolve_to_a_full_matching() {
    let signups = vec![signup(1), signup(2)];
    assert!(check_resolution(PARTY, &signups, &vec![gives(2, 1), gives(1, 2)]));
    assert!(!check_resolution(PARTY, &signups, &Vec::new()));
    assert!(!check_resolution(PARTY, &signups, &vec![gives(1, 2)]));
}
