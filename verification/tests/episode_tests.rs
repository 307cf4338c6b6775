use subdeck::episode::episode_prefix;

#[test]
fn test_episode_prefix() {
    assert_eq!("01.02 ", episode_prefix("series_01_02"));
    assert_eq!("", episode_prefix("film"));
}

#[test]
fn prefix_normalizes_every_separator() {
    assert_eq!("1.2 ", episode_prefix("v1-2"));
    assert_eq!("1.2.3 ", episode_prefix("show_1-2.3"));
}

#[test]
fn prefix_takes_only_the_trailing_group() {
    // An earlier numeric group is ignored when the stem does not end in one.
    assert_eq!("", episode_prefix("01_series_finale"));
    // With two groups, only the trailing run matters, from its leftmost digit.
    assert_eq!("2.10 ", episode_prefix("s1e2_10"));
    assert_eq!("03 ", episode_prefix("lesson_03"));
}

#[test]
fn prefix_needs_at_least_two_characters() {
    // A bare digit at the very end cannot form a group on its own.
    assert_eq!("", episode_prefix("part7"));
    assert_eq!("12 ", episode_prefix("part12"));
}

#[test]
fn prefix_of_empty_and_plain_stems_is_empty() {
    assert_eq!("", episode_prefix(""));
    assert_eq!("", episode_prefix("a"));
    assert_eq!("", episode_prefix("wholly-alphabetic-name"));
}

#[test]
fn prefix_may_keep_trailing_separators() {
    // The trailing run may end in a separator; it is normalized, not trimmed.
    assert_eq!("1.. ", episode_prefix("draft1.."));
}
