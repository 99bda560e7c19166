use panel_detector::overlay::{holds_number, numbers_missing, reconcile};

#[test]
fn first_poll_opens_an_overlay_for_every_window() {
    let changes = reconcile(&vec![], &vec![7, 3, 9]);
    assert_eq!(changes.to_close, Vec::<i64>::new());
    assert_eq!(changes.to_open, vec![7, 3, 9]);
}

#[test]
fn nothing_changes_when_the_windows_stay() {
    let changes = reconcile(&vec![7, 3, 9], &vec![9, 7, 3]);
    assert!(changes.to_close.is_empty());
    assert!(changes.to_open.is_empty());
}

#[test]
fn gone_windows_are_closed_and_new_ones_opened() {
    let changes = reconcile(&vec![1, 2, 3, 4], &vec![4, 5, 2, 6]);
    assert_eq!(changes.to_close, vec![1, 3]);
    assert_eq!(changes.to_open, vec![5, 6]);
}

#[test]
fn every_overlay_closes_when_no_window_is_left() {
    let changes = reconcile(&vec![1, 2], &vec![]);
    assert_eq!(changes.to_close, vec![1, 2]);
    assert!(changes.to_open.is_empty());
}

#[test]
fn a_window_seen_twice_gets_one_overlay() {
    let changes = reconcile(&vec![1, 1, 2], &vec![5, 2, 5, 5]);
    assert_eq!(changes.to_close, vec![1]);
    assert_eq!(changes.to_open, vec![5]);
}

#[test]
fn after_the_changes_shown_is_seen() {
    let displayed: Vec<i64> = vec![10, -4, 0, 8];
    let observed: Vec<i64> = vec![8, 11, i64::MAX, 0, i64::MIN];
    let changes = reconcile(&displayed, &observed);
    let mut shown: Vec<i64> =
        displayed.iter().copied().filter(|n| !changes.to_close.contains(n)).collect();
    shown.extend(changes.to_open.iter().copied());
    shown.sort();
    let mut seen = observed.clone();
    seen.sort();
    assert_eq!(shown, seen);
    let again = reconcile(&shown, &observed);
    assert!(again.to_close.is_empty());
    assert!(again.to_open.is_empty());
}

#[test]
fn numbers_missing_keeps_first_occurrences_in_order() {
    assert_eq!(numbers_missing(&vec![3, 1, 3, 2, 1], &vec![2]), vec![3, 1]);
    assert_eq!(numbers_missing(&vec![], &vec![2]), Vec::<i64>::new());
    assert_eq!(numbers_missing(&vec![2, 2], &vec![2]), Vec::<i64>::new());
}

#[test]
fn holds_number_finds_a_number() {
    assert!(holds_number(&vec![1, 2, 3], 3));
    assert!(!holds_number(&vec![1, 2, 3], 4));
    assert!(!holds_number(&vec![], 0));
}
