use keymute::binding::Phase;
use keymute::device::{
    classify_fetch_error, decode, is_keyboard, supports_keys, FetchFailure, ENODEV, EV_KEY, KEY_F1,
};

#[test]
fn a_device_with_f1_is_a_keyboard() {
    assert!(is_keyboard(Some(true)));
}

#[test]
fn a_device_without_f1_or_without_keys_is_no_keyboard() {
    assert!(!is_keyboard(Some(false)));
    assert!(!is_keyboard(None));
}

#[test]
fn the_constants_are_those_of_the_input_backend() {
    assert_eq!(KEY_F1, evdev::Key::KEY_F1.code());
    assert_eq!(EV_KEY, evdev::EventType::KEY.0);
    assert_eq!(ENODEV, libc::ENODEV);
    assert_eq!(ENODEV, 19);
}

#[test]
fn supports_keys_agrees_with_every_device_that_can_be_opened() {
    for (_path, device) in evdev::enumerate() {
        let expected =
            device.supported_keys().map_or(false, |keys| keys.contains(evdev::Key::KEY_F1));
        assert_eq!(supports_keys(&device), expected);
    }
}

#[test]
fn key_values_decode_to_phases() {
    assert_eq!(decode(EV_KEY, 1), Some(Phase::Press));
    assert_eq!(decode(EV_KEY, 0), Some(Phase::Release));
}

#[test]
fn repeats_and_odd_values_decode_to_nothing() {
    assert_eq!(decode(EV_KEY, 2), None);
    assert_eq!(decode(EV_KEY, 3), None);
    assert_eq!(decode(EV_KEY, -1), None);
    assert_eq!(decode(EV_KEY, i32::MAX), None);
    assert_eq!(decode(EV_KEY, i32::MIN), None);
}

#[test]
fn other_event_types_decode_to_nothing() {
    assert_eq!(decode(0, 0), None);
    assert_eq!(decode(0, 1), None);
    assert_eq!(decode(2, 1), None);
    assert_eq!(decode(3, 0), None);
    assert_eq!(decode(4, 1), None);
    assert_eq!(decode(u16::MAX, 1), None);
}

#[test]
fn decode_agrees_with_the_input_backend_on_key_events() {
    for value in [0, 1, 2] {
        let event = evdev::InputEvent::new(evdev::EventType::KEY, 30, value);
        let is_key = matches!(event.kind(), evdev::InputEventKind::Key(_));
        assert!(is_key);
        let phase = decode(event.event_type().0, event.value());
        assert_eq!(phase.is_some(), value != 2);
    }
    let event = evdev::InputEvent::new(evdev::EventType::RELATIVE, 0, 1);
    assert!(!matches!(event.kind(), evdev::InputEventKind::Key(_)));
    assert_eq!(decode(event.event_type().0, event.value()), None);
}

#[test]
fn an_unplugged_device_ends_its_worker_quietly() {
    assert_eq!(classify_fetch_error(Some(19)), FetchFailure::DeviceRemoved);
    assert_eq!(classify_fetch_error(Some(libc::ENODEV)), FetchFailure::DeviceRemoved);
}

#[test]
fn any_other_failure_is_fatal() {
    assert_eq!(classify_fetch_error(None), FetchFailure::Fatal);
    assert_eq!(classify_fetch_error(Some(0)), FetchFailure::Fatal);
    assert_eq!(classify_fetch_error(Some(5)), FetchFailure::Fatal);
    assert_eq!(classify_fetch_error(Some(-19)), FetchFailure::Fatal);
    assert_eq!(classify_fetch_error(Some(libc::EIO)), FetchFailure::Fatal);
    assert_eq!(classify_fetch_error(Some(libc::ENOENT)), FetchFailure::Fatal);
}
