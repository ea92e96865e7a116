use mibar::ids::{Id, RawWidgetId};
use mibar::reactive::ListState;

fn child(idx: u32) -> Id {
    Id(RawWidgetId { idx, version: 1 })
}

fn indexes(list: &mibar::small_list::IndexList) -> Vec<usize> {
    list.to_vec()
}

fn moves(list: &mibar::small_list::MoveList) -> Vec<(usize, usize)> {
    list.to_vec().into_iter().map(|m| (m.from, m.to)).collect()
}

#[test]
fn push_reports_the_new_index_as_added() {
    let mut list = ListState::new(vec![10u64, 20]);
    let diff = list.push(30);
    assert!(!diff.is_clear());
    assert_eq!(indexes(diff.added()), vec![2]);
    assert_eq!(indexes(diff.removed()).len(), 0);
    assert_eq!(moves(diff.moved()).len(), 0);
    assert_eq!(list.as_slice(), &[10, 20, 30]);
}

#[test]
fn extend_reports_every_new_index_in_order() {
    let mut list = ListState::new(vec![1u32]);
    let diff = list.extend_from_slice(&[2, 3, 4]);
    assert_eq!(indexes(diff.added()), vec![1, 2, 3]);
    assert_eq!(list.len(), 4);
}

#[test]
fn swapping_items_reports_two_moves() {
    let mut list = ListState::new(vec!["a", "b", "c"]);
    let diff = list.mutate(|items| items.swap(0, 2));
    assert!(!diff.is_clear());
    assert_eq!(indexes(diff.added()).len(), 0);
    assert_eq!(indexes(diff.removed()).len(), 0);
    let mut moved = moves(diff.moved());
    moved.sort();
    assert_eq!(moved, vec![(0, 2), (2, 0)]);
}

#[test]
fn removing_and_adding_items_are_reported() {
    let mut list = ListState::new(vec![1i64, 2, 3]);
    let diff = list.mutate(|items| {
        items.remove(0);
        items.push(4);
    });
    // [2, 3, 4]: 1 is gone, 2 and 3 moved up, 4 is new.
    assert_eq!(indexes(diff.removed()), vec![0]);
    assert_eq!(indexes(diff.added()), vec![2]);
    let mut moved = moves(diff.moved());
    moved.sort();
    assert_eq!(moved, vec![(1, 0), (2, 1)]);
}

#[test]
fn emptying_the_list_clears() {
    let mut list = ListState::new(vec![String::from("x")]);
    let diff = list.mutate(|items| items.clear());
    assert!(diff.is_clear());
    assert_eq!(indexes(diff.added()).len(), 0);
    assert_eq!(indexes(diff.removed()).len(), 0);
}

#[test]
fn compute_diff_without_change_is_empty() {
    let mut list = ListState::new(vec![5u8, 6, 7]);
    let diff = list.compute_diff();
    assert!(!diff.is_clear());
    assert_eq!(indexes(diff.added()).len(), 0);
    assert_eq!(indexes(diff.removed()).len(), 0);
    assert_eq!(moves(diff.moved()).len(), 0);
}

#[test]
fn apply_keeps_the_children_of_surviving_items() {
    let mut list = ListState::new(vec![1u16, 2, 3]);
    let mut children = vec![child(100), child(200), child(300)];
    // [3, 2, 1]
    let diff = list.mutate(|items| items.reverse());
    let destroyed = diff.apply(&mut children, list.len());
    assert!(destroyed.is_empty());
    assert_eq!(children, vec![child(300), child(200), child(100)]);
}

#[test]
fn apply_destroys_removed_children_and_leaves_room_for_new_ones() {
    let mut list = ListState::new(vec![1u16, 2, 3]);
    let mut children = vec![child(100), child(200), child(300)];
    // [3, 4]: 1 and 2 are gone, 3 moved to the front, 4 is new.
    let diff = list.mutate(|items| {
        items.clear();
        items.push(3);
        items.push(4);
    });
    let destroyed = diff.apply(&mut children, list.len());
    assert_eq!(destroyed, vec![child(100), child(200)]);
    assert_eq!(children.len(), 2);
    assert_eq!(children[0], child(300));
    assert_eq!(indexes(diff.added()), vec![1]);
}

#[test]
fn apply_of_a_clear_destroys_every_child() {
    let mut list = ListState::new(vec![1u64, 2]);
    let mut children = vec![child(1), child(2)];
    let diff = list.mutate(|items| items.clear());
    let destroyed = diff.apply(&mut children, 0);
    assert_eq!(destroyed, vec![child(1), child(2)]);
    assert!(children.is_empty());
}
