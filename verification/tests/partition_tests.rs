use schedulerutils::partition::partition_round_robin;

#[test]
fn partition_five_into_two() {
    let ids: Vec<i32> = vec![10, 11, 12, 13, 14];
    let part = partition_round_robin(&ids, 2);
    assert_eq!(part, vec![vec![10, 12, 14], vec![11, 13]]);
}

#[test]
fn partition_sizes_are_floor_or_ceil() {
    let ids: Vec<i32> = vec![1, 2, 3, 4, 5, 6, 7];
    let part = partition_round_robin(&ids, 3);
    // 7 ids into 3 groups: sizes 3, 2, 2.
    assert_eq!(part.len(), 3);
    for grp in part.iter() {
        assert!(grp.len() == 2 || grp.len() == 3);
    }
    let total: usize = part.iter().map(|g| g.len()).sum();
    assert_eq!(total, ids.len());
}

#[test]
fn partition_four_into_two() {
    let ids: Vec<i32> = vec![100, 200, 300, 400];
    let part = partition_round_robin(&ids, 2);
    assert_eq!(part, vec![vec![100, 300], vec![200, 400]]);
}

#[test]
fn partition_fewer_ids_than_groups() {
    let ids: Vec<i32> = vec![8, 9];
    let part = partition_round_robin(&ids, 5);
    // Only one group per id is materialized.
    assert_eq!(part, vec![vec![8], vec![9]]);
}

#[test]
fn partition_no_ids() {
    let ids: Vec<i32> = vec![];
    let part = partition_round_robin(&ids, 3);
    assert!(part.is_empty());
}

#[test]
fn partition_one_group_takes_all() {
    let ids: Vec<i32> = vec![4, 5, 6];
    let part = partition_round_robin(&ids, 1);
    assert_eq!(part, vec![vec![4, 5, 6]]);
}

#[test]
fn partition_is_deterministic() {
    let ids: Vec<i32> = vec![3, 1, 4, 1, 5, 9, 2, 6];
    let first = partition_round_robin(&ids, 3);
    let second = partition_round_robin(&ids, 3);
    assert_eq!(first, second);
}

#[test]
fn partition_every_id_exactly_once() {
    let ids: Vec<i32> = vec![20, 21, 22, 23, 24, 25];
    let part = partition_round_robin(&ids, 4);
    let mut seen: Vec<i32> = part.iter().flatten().copied().collect();
    seen.sort();
    let mut expected = ids.clone();
    expected.sort();
    assert_eq!(seen, expected);
    // And each id sits in group (position mod 4).
    for (i, id) in ids.iter().enumerate() {
        assert_eq!(part[i % 4][i / 4], *id);
    }
}
