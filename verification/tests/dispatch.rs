use keymute::binding::{Action, KeyType, Phase};
use keymute::dispatch::Dispatcher;
use keymute::table::BindingTable;

const KEY_A: u16 = 30;
const KEY_B: u16 = 48;
const KEY_C: u16 = 46;

fn unmute(handle: u64) -> Action {
    Action::SetMute { handle, mute: false }
}

fn mute(handle: u64) -> Action {
    Action::SetMute { handle, mute: true }
}

#[test]
fn hold_press_unmutes_and_release_mutes() {
    let mut t = BindingTable::new();
    let h = t.insert(40, KEY_A, KeyType::Hold).unwrap();
    let d = Dispatcher::new(0);
    assert_eq!(d.on_event(&mut t, KEY_A, Phase::Press), vec![unmute(h), Action::Barrier]);
    assert_eq!(d.on_event(&mut t, KEY_A, Phase::Release), vec![mute(h), Action::Barrier]);
}

#[test]
fn hold_release_sleeps_before_it_mutes() {
    let mut t = BindingTable::new();
    let h = t.insert(40, KEY_A, KeyType::Hold).unwrap();
    let d = Dispatcher::new(200);
    assert_eq!(d.on_event(&mut t, KEY_A, Phase::Press), vec![unmute(h), Action::Barrier]);
    assert_eq!(
        d.on_event(&mut t, KEY_A, Phase::Release),
        vec![Action::Sleep { millis: 200 }, mute(h), Action::Barrier]
    );
}

#[test]
fn every_hold_row_of_a_key_sleeps_on_its_own() {
    let mut t = BindingTable::new();
    let h0 = t.insert(40, KEY_A, KeyType::Hold).unwrap();
    let h1 = t.insert(41, KEY_A, KeyType::Hold).unwrap();
    let d = Dispatcher::new(5);
    assert_eq!(
        d.on_event(&mut t, KEY_A, Phase::Release),
        vec![
            Action::Sleep { millis: 5 },
            mute(h0),
            Action::Sleep { millis: 5 },
            mute(h1),
            Action::Barrier
        ]
    );
}

#[test]
fn toggle_presses_alternate_from_unmute() {
    let mut t = BindingTable::new();
    let h = t.insert(41, KEY_B, KeyType::Toggle).unwrap();
    let d = Dispatcher::new(200);
    let mut sent = Vec::new();
    for n in 0..6 {
        let plan = d.on_event(&mut t, KEY_B, Phase::Press);
        assert_eq!(plan, vec![Action::SetMute { handle: h, mute: n % 2 == 1 }, Action::Barrier]);
        assert_eq!(t.is_muted(41), n % 2 == 1);
        sent.push(n % 2 == 1);
    }
    assert_eq!(sent, vec![false, true, false, true, false, true]);
}

#[test]
fn toggle_release_is_silent() {
    let mut t = BindingTable::new();
    t.insert(41, KEY_B, KeyType::Toggle);
    let d = Dispatcher::new(200);
    assert_eq!(d.on_event(&mut t, KEY_B, Phase::Release), vec![]);
    assert!(t.is_muted(41));
}

#[test]
fn unbound_key_is_silent() {
    let mut t = BindingTable::new();
    t.insert(40, KEY_A, KeyType::Hold);
    t.insert(41, KEY_B, KeyType::Toggle);
    let d = Dispatcher::new(200);
    assert_eq!(d.on_event(&mut t, KEY_C, Phase::Press), vec![]);
    assert_eq!(d.on_event(&mut t, KEY_C, Phase::Release), vec![]);
    assert!(t.is_muted(41));
    assert_eq!(t.len(), 2);
}

#[test]
fn empty_table_is_silent() {
    let mut t = BindingTable::new();
    let d = Dispatcher::new(0);
    assert_eq!(d.on_event(&mut t, KEY_A, Phase::Press), vec![]);
    assert_eq!(d.on_event(&mut t, KEY_A, Phase::Release), vec![]);
}

#[test]
fn one_key_drives_all_its_rows_in_order_with_one_barrier() {
    let mut t = BindingTable::new();
    let h0 = t.insert(40, KEY_A, KeyType::Hold).unwrap();
    let _h1 = t.insert(41, KEY_B, KeyType::Hold).unwrap();
    let h2 = t.insert(42, KEY_A, KeyType::Toggle).unwrap();
    let d = Dispatcher::new(0);
    assert_eq!(
        d.on_event(&mut t, KEY_A, Phase::Press),
        vec![unmute(h0), unmute(h2), Action::Barrier]
    );
    assert_eq!(d.on_event(&mut t, KEY_A, Phase::Release), vec![mute(h0), Action::Barrier]);
    assert_eq!(
        d.on_event(&mut t, KEY_A, Phase::Press),
        vec![unmute(h0), mute(h2), Action::Barrier]
    );
}

#[test]
fn twin_toggle_rows_flip_twice_within_one_press() {
    let mut t = BindingTable::new();
    let h0 = t.insert(41, KEY_B, KeyType::Toggle).unwrap();
    let h1 = t.insert(41, KEY_B, KeyType::Toggle).unwrap();
    let d = Dispatcher::new(0);
    assert_eq!(
        d.on_event(&mut t, KEY_B, Phase::Press),
        vec![unmute(h0), mute(h1), Action::Barrier]
    );
    assert!(t.is_muted(41));
}

#[test]
fn toggle_rows_of_two_keys_share_the_state_of_their_endpoint() {
    let mut t = BindingTable::new();
    let h0 = t.insert(41, KEY_A, KeyType::Toggle).unwrap();
    let h1 = t.insert(41, KEY_B, KeyType::Toggle).unwrap();
    let d = Dispatcher::new(0);
    assert_eq!(d.on_event(&mut t, KEY_A, Phase::Press), vec![unmute(h0), Action::Barrier]);
    assert_eq!(d.on_event(&mut t, KEY_B, Phase::Press), vec![mute(h1), Action::Barrier]);
}

#[test]
fn dead_handles_get_no_requests() {
    let mut t = BindingTable::new();
    let old = t.insert(40, KEY_A, KeyType::Hold).unwrap();
    let other = t.insert(41, KEY_A, KeyType::Hold).unwrap();
    assert_eq!(t.remove(40), vec![old]);
    let fresh = t.insert(40, KEY_A, KeyType::Toggle).unwrap();
    assert_ne!(fresh, old);
    let d = Dispatcher::new(0);
    let plan = d.on_event(&mut t, KEY_A, Phase::Press);
    assert_eq!(plan, vec![unmute(other), unmute(fresh), Action::Barrier]);
    assert!(!plan.contains(&unmute(old)));
    assert!(!plan.contains(&mute(old)));
}

#[test]
fn raw_key_events_are_decoded() {
    let mut t = BindingTable::new();
    let h = t.insert(40, KEY_A, KeyType::Hold).unwrap();
    let d = Dispatcher::new(0);
    assert_eq!(d.on_input(&mut t, 1, KEY_A, 1), vec![unmute(h), Action::Barrier]);
    assert_eq!(d.on_input(&mut t, 1, KEY_A, 0), vec![mute(h), Action::Barrier]);
}

#[test]
fn raw_repeats_and_other_event_types_are_filtered_out() {
    let mut t = BindingTable::new();
    t.insert(40, KEY_A, KeyType::Hold);
    t.insert(41, KEY_A, KeyType::Toggle);
    let d = Dispatcher::new(0);
    assert_eq!(d.on_input(&mut t, 1, KEY_A, 2), vec![]);
    assert_eq!(d.on_input(&mut t, 1, KEY_A, -1), vec![]);
    assert_eq!(d.on_input(&mut t, 0, KEY_A, 1), vec![]);
    assert_eq!(d.on_input(&mut t, 2, KEY_A, 1), vec![]);
    assert_eq!(d.on_input(&mut t, 4, KEY_A, 0), vec![]);
    assert!(t.is_muted(41));
}

#[test]
fn dispatcher_keeps_its_release_delay() {
    assert_eq!(Dispatcher::new(0).release_delay, 0);
    assert_eq!(Dispatcher::new(200).release_delay, 200);
    assert_eq!(Dispatcher::new(u64::MAX).release_delay, u64::MAX);
}
