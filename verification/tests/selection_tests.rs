use mycad::selection::{shared_layer, EntityId, Selection};

fn id(n: u64) -> EntityId {
    EntityId(n)
}

#[test]
fn replace_clears_previous_selection() {
    let mut selection = Selection::default();
    selection.replace(id(2));
    selection.replace(id(5));
    assert_eq!(selection.ids(), &[id(5)]);
}

#[test]
fn toggle_adds_and_removes() {
    let mut selection = Selection::default();
    selection.toggle(id(1));
    selection.toggle(id(3));
    selection.toggle(id(1));
    assert_eq!(selection.ids(), &[id(3)]);
}

#[test]
fn clear_empties_selection() {
    let mut selection = Selection::default();
    selection.replace(id(0));
    selection.clear();
    assert!(selection.is_empty());
}

#[test]
fn retain_valid_drops_removed_ids() {
    // two lines were added, the second one was removed again
    let first = id(1);
    let second = id(2);
    let mut selection = Selection::default();
    selection.toggle(first);
    selection.toggle(second);
    let existing = [first];
    selection.retain_valid(&existing);
    assert_eq!(selection.ids(), &[first]);
}

#[test]
fn replace_all_replaces_and_dedupes() {
    let mut selection = Selection::default();
    selection.replace(id(9));
    selection.replace_all(&[id(1), id(2), id(1)]);
    assert_eq!(selection.ids(), &[id(1), id(2)]);
    assert!(selection.contains(id(1)));
    assert!(!selection.contains(id(9)));
}

#[test]
fn toggle_all_adds_and_removes_candidates() {
    let mut selection = Selection::default();
    selection.replace_all(&[id(1), id(2)]);
    selection.toggle_all(&[id(2), id(3)]);
    assert_eq!(selection.ids(), &[id(1), id(3)]);
}

#[test]
fn commit_box_replace_and_toggle() {
    let mut selection = Selection::default();
    selection.replace(id(4));
    selection.commit_box(&[id(1), id(2)], false);
    assert_eq!(selection.ids(), &[id(1), id(2)]);
    selection.commit_box(&[id(2), id(5)], true);
    assert_eq!(selection.ids(), &[id(1), id(5)]);
}

#[test]
fn bulk_commit_stays_near_linear() {
    let mut selection = Selection::default();
    let many: Vec<EntityId> = (1..20_001).map(EntityId).collect();
    selection.replace_all(&many);
    assert_eq!(selection.len(), 20_000);
    let first_half: Vec<EntityId> = (1..10_001).map(EntityId).collect();
    selection.toggle_all(&first_half);
    assert_eq!(selection.len(), 10_000);
    assert_eq!(selection.ids()[0], id(10_001));
    assert!(selection.contains(id(20_000)));
    assert!(!selection.contains(id(1)));
}

#[test]
fn toggling_twice_restores_the_selection() {
    let mut selection = Selection::default();
    selection.replace_all(&[id(7), id(8)]);
    selection.toggle(id(3));
    selection.toggle(id(3));
    assert_eq!(selection.ids(), &[id(7), id(8)]);
}

#[test]
fn shared_layer_is_the_common_one() {
    assert_eq!(shared_layer(&[Some("A".to_string()), Some("A".to_string())]), Some("A".to_string()));
    assert_eq!(shared_layer(&[Some("A".to_string()), Some("B".to_string())]), None);
}
