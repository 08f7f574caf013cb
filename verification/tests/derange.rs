use secret_satan::derange::{accept, derange, has_no_fixed_point, reversed, rotate, MAX_DRAWS};

fn sorted(mut ids: Vec<u64>) -> Vec<u64> {
    ids.sort();
    ids
}

#[test]
fn derange_of_nothing_is_nothing() {
    assert_eq!(derange(&Vec::new()), Vec::<u64>::new());
}

#[test]
fn derange_of_two_swaps_them_in_pairing_order() {
    for _ in 0..50 {
        assert_eq!(derange(&vec![7, 9]), vec![7, 9]);
    }
}

#[test]
fn derange_returns_a_permutation_without_fixed_points() {
    for n in 2u64..=24 {
        let ids: Vec<u64> = (0..n).map(|i| 1000 + i * 17).collect();
        for _ in 0..40 {
            let givers = derange(&ids);
            assert_eq!(givers.len(), ids.len());
            assert_eq!(sorted(givers.clone()), sorted(ids.clone()));
            for i in 0..ids.len() {
                assert_ne!(givers[ids.len() - 1 - i], ids[i]);
            }
            assert!(has_no_fixed_point(&ids, &reversed(&givers)));
        }
    }
}

#[test]
fn derange_draws_at_random() {
    let ids: Vec<u64> = (1..=10).collect();
    let fallback = reversed(&rotate(&ids));
    let mut differs = false;
    for _ in 0..40 {
        if derange(&ids) != fallback {
            differs = true;
        }
    }
    assert!(differs);
}

#[test]
fn draw_limit_is_finite() {
    assert_eq!(MAX_DRAWS, 128);
}

#[test]
fn fixed_points_are_found() {
    assert!(has_no_fixed_point(&vec![1, 2, 3], &vec![2, 3, 1]));
    assert!(has_no_fixed_point(&vec![1, 2, 3], &vec![3, 1, 2]));
    assert!(!has_no_fixed_point(&vec![1, 2, 3], &vec![1, 3, 2]));
    assert!(!has_no_fixed_point(&vec![1, 2, 3], &vec![3, 2, 1]));
    assert!(!has_no_fixed_point(&vec![1, 2, 3], &vec![2, 1, 3]));
    assert!(!has_no_fixed_point(&vec![1, 2, 3], &vec![2, 3]));
    assert!(!has_no_fixed_point(&vec![1], &vec![1]));
    assert!(has_no_fixed_point(&vec![], &vec![]));
}

#[test]
fn accepted_candidates_come_back_reversed() {
    assert_eq!(accept(&vec![1, 2, 3], &vec![2, 3, 1]), Some(vec![1, 3, 2]));
    assert_eq!(accept(&vec![1, 2, 3, 4], &vec![2, 1, 4, 3]), Some(vec![3, 4, 1, 2]));
    assert_eq!(accept(&vec![], &vec![]), Some(vec![]));
}

#[test]
fn candidates_with_a_fixed_point_are_turned_down() {
    assert_eq!(accept(&vec![1, 2, 3], &vec![1, 3, 2]), None);
    assert_eq!(accept(&vec![1, 2, 3], &vec![1, 2, 3]), None);
    assert_eq!(accept(&vec![5], &vec![5]), None);
    assert_eq!(accept(&vec![1, 2], &vec![2]), None);
}

#[test]
fn reversed_turns_back_to_front() {
    assert_eq!(reversed(&vec![1, 2, 3, 4]), vec![4, 3, 2, 1]);
    assert_eq!(reversed(&vec![9]), vec![9]);
    assert_eq!(reversed(&vec![]), Vec::<u64>::new());
}

#[test]
fn rotate_moves_the_first_to_the_end() {
    assert_eq!(rotate(&vec![1, 2, 3, 4]), vec![2, 3, 4, 1]);
    assert_eq!(rotate(&vec![1, 2]), vec![2, 1]);
    assert_eq!(rotate(&vec![5]), vec![5]);
    assert_eq!(rotate(&vec![]), Vec::<u64>::new());
}

#[test]
fn rotation_is_a_derangement_of_distinct_ids() {
    for n in 2u64..=12 {
        let ids: Vec<u64> = (0..n).collect();
        assert!(has_no_fixed_point(&ids, &rotate(&ids)));
        assert_eq!(sorted(rotate(&ids)), ids);
    }
}
