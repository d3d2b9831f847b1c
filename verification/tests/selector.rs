use gossip_node::selector::{extend, partition, sample_size, select, snapshot, with_sample};
use std::collections::HashSet;

fn set_of(values: &[usize]) -> HashSet<usize> {
    values.iter().copied().collect()
}

#[test]
fn sample_size_rounds_a_fifth_to_the_nearest() {
    assert_eq!(sample_size(0), 0);
    assert_eq!(sample_size(1), 0);
    assert_eq!(sample_size(2), 0);
    assert_eq!(sample_size(3), 1);
    assert_eq!(sample_size(4), 1);
    assert_eq!(sample_size(5), 1);
    assert_eq!(sample_size(7), 1);
    assert_eq!(sample_size(8), 2);
    assert_eq!(sample_size(10), 2);
    assert_eq!(sample_size(100), 20);
}

#[test]
fn sample_size_of_the_largest_count_does_not_overflow() {
    assert_eq!(sample_size(usize::MAX), usize::MAX / 5);
    assert_eq!(sample_size(usize::MAX - 2), usize::MAX / 5);
    assert_eq!(sample_size(usize::MAX - 3), usize::MAX / 5 - 1);
}

#[test]
fn partition_splits_by_membership() {
    let (seen, unseen) = partition(&set_of(&[1, 2, 3, 4]), &set_of(&[2, 4, 9]));
    assert_eq!(seen, set_of(&[2, 4]));
    assert_eq!(unseen, set_of(&[1, 3]));
}

#[test]
fn partition_of_nothing_is_empty() {
    let (seen, unseen) = partition(&set_of(&[]), &set_of(&[1]));
    assert!(seen.is_empty());
    assert!(unseen.is_empty());
}

#[test]
fn partition_against_an_empty_report_leaves_all_unseen() {
    let (seen, unseen) = partition(&set_of(&[7, 8]), &set_of(&[]));
    assert!(seen.is_empty());
    assert_eq!(unseen, set_of(&[7, 8]));
}

#[test]
fn snapshot_copies_the_set() {
    let source = set_of(&[3, 1, 2]);
    let copy = snapshot(&source);
    assert_eq!(copy, source);
}

#[test]
fn extend_is_the_union() {
    let mut set = set_of(&[1, 2]);
    extend(&mut set, &set_of(&[2, 3, 4]));
    assert_eq!(set, set_of(&[1, 2, 3, 4]));
}

#[test]
fn with_sample_adds_the_drawn_values() {
    let chosen = with_sample(set_of(&[1, 2]), &vec![5, 6]);
    assert_eq!(chosen, set_of(&[1, 2, 5, 6]));
}

#[test]
fn with_an_empty_sample_nothing_is_added() {
    let chosen = with_sample(set_of(&[5]), &vec![]);
    assert_eq!(chosen, set_of(&[5]));
    let nothing = with_sample(set_of(&[]), &vec![]);
    assert!(nothing.is_empty());
}

#[test]
fn select_sends_everything_on_first_contact() {
    let values = set_of(&[1, 2, 3, 4, 5, 6, 7]);
    assert_eq!(select(&values, &set_of(&[])), values);
}

#[test]
fn select_sends_nothing_when_all_is_acknowledged_and_the_sample_is_empty() {
    assert!(select(&set_of(&[5]), &set_of(&[5])).is_empty());
    assert!(select(&set_of(&[5, 6]), &set_of(&[5, 6, 7])).is_empty());
}

#[test]
fn select_resends_a_fifth_of_the_acknowledged_values() {
    let values = set_of(&[1, 2, 3, 4, 5, 6, 7, 8, 9, 10]);
    for _ in 0..50 {
        let chosen = select(&values, &values);
        assert_eq!(chosen.len(), 2);
        assert!(chosen.is_subset(&values));
    }
}

#[test]
fn select_sends_the_unseen_and_a_sample_of_the_seen() {
    let values = set_of(&[1, 2, 3, 4, 5, 6, 7, 8, 9, 10, 11, 12]);
    let seen = set_of(&[1, 2, 3, 4, 5, 6, 7, 8, 99]);
    for _ in 0..50 {
        let chosen = select(&values, &seen);
        assert!(chosen.is_subset(&values));
        assert!(set_of(&[9, 10, 11, 12]).is_subset(&chosen));
        assert_eq!(chosen.intersection(&seen).count(), 2);
        assert_eq!(chosen.len(), 6);
    }
}

#[test]
fn select_draws_different_samples() {
    let values: HashSet<usize> = (0..1000).collect();
    let first = select(&values, &values);
    let mut differs = false;
    for _ in 0..20 {
        if select(&values, &values) != first {
            differs = true;
        }
    }
    assert_eq!(first.len(), 200);
    assert!(differs);
}
