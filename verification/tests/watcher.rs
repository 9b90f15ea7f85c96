use keymute::binding::{Action, Binding, Entry, Global, KeyType};
use keymute::table::BindingTable;
use keymute::watcher::Watcher;

fn binding(name: &str, key: u16, mode: KeyType) -> Binding {
    Binding { endpoint_name: String::from(name), key, mode }
}

fn node(id: u32, name: &str) -> Global {
    Global { id, is_node: true, name: Some(String::from(name)) }
}

fn watcher() -> Watcher {
    Watcher::new(vec![
        binding("Mic1", 30, KeyType::Hold),
        binding("Mic2", 48, KeyType::Toggle),
        binding("Mic1", 31, KeyType::Toggle),
    ])
}

#[test]
fn watcher_keeps_its_bindings() {
    let w = watcher();
    assert_eq!(w.bindings.len(), 3);
    assert_eq!(w.bindings[1], binding("Mic2", 48, KeyType::Toggle));
}

#[test]
fn a_claimed_endpoint_is_bound_and_forced_to_muted() {
    let w = watcher();
    let mut t = BindingTable::new();
    let plan = w.on_global(&mut t, &node(77, "Mic2"));
    assert_eq!(
        plan,
        vec![
            Action::Bind { handle: 0, server_id: 77 },
            Action::SetMute { handle: 0, mute: true },
            Action::Barrier
        ]
    );
    assert_eq!(t.len(), 1);
    assert_eq!(
        t.entry(0),
        Some(Entry { handle: 0, server_id: 77, key: 48, mode: KeyType::Toggle })
    );
    assert!(t.is_muted(77));
}

#[test]
fn every_binding_that_names_the_endpoint_gets_a_row() {
    let w = watcher();
    let mut t = BindingTable::new();
    let plan = w.on_global(&mut t, &node(5, "Mic1"));
    assert_eq!(
        plan,
        vec![
            Action::Bind { handle: 0, server_id: 5 },
            Action::SetMute { handle: 0, mute: true },
            Action::Bind { handle: 1, server_id: 5 },
            Action::SetMute { handle: 1, mute: true },
            Action::Barrier
        ]
    );
    assert_eq!(t.entry(0), Some(Entry { handle: 0, server_id: 5, key: 30, mode: KeyType::Hold }));
    assert_eq!(
        t.entry(1),
        Some(Entry { handle: 1, server_id: 5, key: 31, mode: KeyType::Toggle })
    );
}

#[test]
fn every_endpoint_of_a_configured_name_is_bound() {
    let w = watcher();
    let mut t = BindingTable::new();
    w.on_global(&mut t, &node(5, "Mic2"));
    let plan = w.on_global(&mut t, &node(6, "Mic2"));
    assert_eq!(
        plan,
        vec![
            Action::Bind { handle: 1, server_id: 6 },
            Action::SetMute { handle: 1, mute: true },
            Action::Barrier
        ]
    );
    assert_eq!(t.len(), 2);
    assert_eq!(t.lookup(48).len(), 2);
}

#[test]
fn an_endpoint_of_another_name_is_ignored() {
    let w = watcher();
    let mut t = BindingTable::new();
    assert_eq!(w.on_global(&mut t, &node(5, "Mic3")), vec![]);
    assert_eq!(w.on_global(&mut t, &node(5, "mic1")), vec![]);
    assert_eq!(w.on_global(&mut t, &node(5, "Mic1 ")), vec![]);
    assert_eq!(w.on_global(&mut t, &node(5, "")), vec![]);
    assert_eq!(t.len(), 0);
}

#[test]
fn an_object_that_is_no_endpoint_is_ignored() {
    let w = watcher();
    let mut t = BindingTable::new();
    let other = Global { id: 5, is_node: false, name: Some(String::from("Mic1")) };
    assert_eq!(w.on_global(&mut t, &other), vec![]);
    assert_eq!(t.len(), 0);
}

#[test]
fn an_endpoint_without_a_name_is_ignored() {
    let w = watcher();
    let mut t = BindingTable::new();
    let nameless = Global { id: 5, is_node: true, name: None };
    assert_eq!(w.on_global(&mut t, &nameless), vec![]);
    assert_eq!(t.len(), 0);
}

#[test]
fn a_watcher_without_bindings_binds_nothing() {
    let w = Watcher::new(Vec::new());
    let mut t = BindingTable::new();
    assert_eq!(w.on_global(&mut t, &node(5, "Mic1")), vec![]);
    assert_eq!(t.len(), 0);
}

#[test]
fn a_vanished_endpoint_loses_its_rows_and_its_handles() {
    let w = watcher();
    let mut t = BindingTable::new();
    w.on_global(&mut t, &node(5, "Mic1"));
    w.on_global(&mut t, &node(6, "Mic2"));
    let plan = w.on_global_remove(&mut t, 5);
    assert_eq!(plan, vec![Action::Unbind { handle: 0 }, Action::Unbind { handle: 1 }]);
    assert_eq!(t.len(), 1);
    assert_eq!(
        t.entry(0),
        Some(Entry { handle: 2, server_id: 6, key: 48, mode: KeyType::Toggle })
    );
}

#[test]
fn the_removal_of_an_unbound_object_is_silent() {
    let w = watcher();
    let mut t = BindingTable::new();
    w.on_global(&mut t, &node(6, "Mic2"));
    assert_eq!(w.on_global_remove(&mut t, 5), vec![]);
    assert_eq!(t.len(), 1);
}

#[test]
fn an_endpoint_that_comes_back_is_bound_afresh() {
    let w = watcher();
    let mut t = BindingTable::new();
    w.on_global(&mut t, &node(6, "Mic2"));
    assert_eq!(t.toggle_at(0), Some(false));
    w.on_global_remove(&mut t, 6);
    let plan = w.on_global(&mut t, &node(6, "Mic2"));
    assert_eq!(
        plan,
        vec![
            Action::Bind { handle: 1, server_id: 6 },
            Action::SetMute { handle: 1, mute: true },
            Action::Barrier
        ]
    );
    assert!(t.is_muted(6));
    assert!(!t.is_live(0));
}
