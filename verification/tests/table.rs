use keymute::binding::{Entry, KeyType};
use keymute::table::BindingTable;

fn row(handle: u64, server_id: u32, key: u16, mode: KeyType) -> Entry {
    Entry { handle, server_id, key, mode }
}

#[test]
fn new_table_is_empty() {
    let t = BindingTable::new();
    assert_eq!(t.len(), 0);
    assert_eq!(t.entry(0), None);
    assert!(t.lookup(30).is_empty());
    assert!(!t.is_live(0));
    assert!(t.is_muted(7));
}

#[test]
fn insert_hands_out_handles_in_order() {
    let mut t = BindingTable::new();
    assert_eq!(t.insert(40, 30, KeyType::Hold), Some(0));
    assert_eq!(t.insert(41, 48, KeyType::Toggle), Some(1));
    assert_eq!(t.insert(40, 31, KeyType::Toggle), Some(2));
    assert_eq!(t.len(), 3);
    assert_eq!(t.entry(0), Some(row(0, 40, 30, KeyType::Hold)));
    assert_eq!(t.entry(1), Some(row(1, 41, 48, KeyType::Toggle)));
    assert_eq!(t.entry(2), Some(row(2, 40, 31, KeyType::Toggle)));
    assert_eq!(t.entry(3), None);
}

#[test]
fn lookup_finds_the_rows_of_a_key_oldest_first() {
    let mut t = BindingTable::new();
    t.insert(40, 30, KeyType::Hold);
    t.insert(41, 48, KeyType::Toggle);
    t.insert(42, 30, KeyType::Toggle);
    assert_eq!(
        t.lookup(30),
        vec![row(0, 40, 30, KeyType::Hold), row(2, 42, 30, KeyType::Toggle)]
    );
    assert_eq!(t.lookup(48), vec![row(1, 41, 48, KeyType::Toggle)]);
    assert_eq!(t.lookup(49), vec![]);
}

#[test]
fn remove_takes_every_row_of_the_endpoint() {
    let mut t = BindingTable::new();
    t.insert(40, 30, KeyType::Hold);
    t.insert(41, 48, KeyType::Toggle);
    t.insert(40, 31, KeyType::Toggle);
    assert_eq!(t.remove(40), vec![0, 2]);
    assert_eq!(t.len(), 1);
    assert_eq!(t.entry(0), Some(row(1, 41, 48, KeyType::Toggle)));
    assert!(!t.is_live(0));
    assert!(t.is_live(1));
    assert!(!t.is_live(2));
}

#[test]
fn remove_of_an_unknown_endpoint_changes_nothing() {
    let mut t = BindingTable::new();
    t.insert(40, 30, KeyType::Hold);
    assert_eq!(t.remove(99), vec![]);
    assert_eq!(t.len(), 1);
    assert!(t.is_live(0));
}

#[test]
fn handles_are_not_reused_when_the_server_reuses_an_identifier() {
    let mut t = BindingTable::new();
    assert_eq!(t.insert(40, 30, KeyType::Hold), Some(0));
    assert_eq!(t.remove(40), vec![0]);
    assert_eq!(t.insert(40, 30, KeyType::Hold), Some(1));
    assert!(!t.is_live(0));
    assert!(t.is_live(1));
    assert_eq!(t.lookup(30), vec![row(1, 40, 30, KeyType::Hold)]);
}

#[test]
fn toggle_at_flips_the_state_of_the_rows_endpoint() {
    let mut t = BindingTable::new();
    t.insert(41, 48, KeyType::Toggle);
    assert!(t.is_muted(41));
    assert_eq!(t.toggle_at(0), Some(false));
    assert!(!t.is_muted(41));
    assert_eq!(t.toggle_at(0), Some(true));
    assert!(t.is_muted(41));
}

#[test]
fn toggle_at_leaves_hold_rows_and_missing_rows_alone() {
    let mut t = BindingTable::new();
    t.insert(40, 30, KeyType::Hold);
    assert_eq!(t.toggle_at(0), None);
    assert_eq!(t.toggle_at(1), None);
    assert!(t.is_muted(40));
    assert_eq!(t.len(), 1);
}

#[test]
fn binding_an_endpoint_again_resets_its_toggle_state() {
    let mut t = BindingTable::new();
    t.insert(41, 48, KeyType::Toggle);
    assert_eq!(t.toggle_at(0), Some(false));
    t.insert(41, 49, KeyType::Hold);
    assert!(t.is_muted(41));
}

#[test]
fn forgetting_an_endpoint_forgets_its_toggle_state() {
    let mut t = BindingTable::new();
    t.insert(41, 48, KeyType::Toggle);
    assert_eq!(t.toggle_at(0), Some(false));
    t.remove(41);
    assert!(t.is_muted(41));
    t.insert(41, 48, KeyType::Toggle);
    assert_eq!(t.toggle_at(0), Some(false));
}

#[test]
fn rows_of_one_endpoint_share_the_toggle_state() {
    let mut t = BindingTable::new();
    t.insert(41, 48, KeyType::Toggle);
    t.insert(41, 49, KeyType::Toggle);
    assert_eq!(t.toggle_at(0), Some(false));
    assert_eq!(t.toggle_at(1), Some(true));
}
