use subdeck::context::context_views;

#[test]
fn empty_sequence_yields_no_views() {
    let items: Vec<Option<u32>> = Vec::new();
    let views = context_views(&items);
    assert_eq!(0, views.len());
}

#[test]
fn single_item_has_no_neighbors() {
    let items: Vec<Option<u32>> = vec![Some(7)];
    let views = context_views(&items);
    assert_eq!(1, views.len());
    assert_eq!(None, views[0].prev);
    assert_eq!(Some(&7), views[0].curr);
    assert_eq!(None, views[0].next);
}

#[test]
fn interior_positions_see_both_neighbors() {
    let items: Vec<Option<u32>> = vec![Some(1), Some(2), Some(3)];
    let views = context_views(&items);
    assert_eq!(3, views.len());
    assert_eq!(None, views[0].prev);
    assert_eq!(Some(&2), views[0].next);
    assert_eq!(Some(&1), views[1].prev);
    assert_eq!(Some(&2), views[1].curr);
    assert_eq!(Some(&3), views[1].next);
    assert_eq!(Some(&2), views[2].prev);
    assert_eq!(None, views[2].next);
}

#[test]
fn empty_slots_and_missing_neighbors_collapse() {
    // A neighbor that exists but holds no value reads like one out of range.
    let items: Vec<Option<u32>> = vec![Some(1), None, Some(3)];
    let views = context_views(&items);
    assert_eq!(None, views[0].next);
    assert_eq!(None, views[1].curr);
    assert_eq!(Some(&1), views[1].prev);
    assert_eq!(Some(&3), views[1].next);
    assert_eq!(None, views[2].prev);
}
