use anytimeuniverse::generation::fork_age;

#[test]
fn fork_not_split_yet() {
    assert_eq!(fork_age(10, 40), None);
    assert_eq!(fork_age(256 + 10, 40), None);
}

#[test]
fn fork_age_counts_within_cycle() {
    assert_eq!(fork_age(40, 40), Some(0));
    assert_eq!(fork_age(50, 40), Some(10));
    assert_eq!(fork_age(256 * 3 + 50, 40), Some(10));
    assert_eq!(fork_age(255, 5), Some(250));
    assert_eq!(fork_age(300, 300), Some(0));
}
